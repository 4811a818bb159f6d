//! Global permission tokens used to gate blog capabilities. Per-post ownership
//! is handled separately; these tokens gate *capabilities* (who may author at
//! all, moderate, manage, etc.).
use vstd::prelude::*;

verus! {

/// May create posts and upload media (the "author" capability).
pub const POSTS_WRITE: &'static str = "posts:write";

/// Global override: edit/delete *any* post regardless of per-post role (admins).
pub const POSTS_WRITE_ANY: &'static str = "posts:write_any";

/// May upload to the media library.
pub const MEDIA_UPLOAD: &'static str = "media:upload";

/// May approve/reject/delete comments.
pub const COMMENTS_MODERATE: &'static str = "comments:moderate";

/// May manage users & roles (admin console).
pub const USERS_MANAGE: &'static str = "admin:users:read";

/// May edit site settings, categories, and tags.
pub const SETTINGS_WRITE: &'static str = "settings:write";

/// May view analytics.
pub const ANALYTICS_READ: &'static str = "analytics:read";

} // verus!
