//! Wire types shared across the client/server boundary.
use vstd::prelude::*;

verus! {

/// Summary card for feeds/listings.
#[derive(Clone, PartialEq, Debug, Default)]
pub struct PostCard {
    pub id: i64,
    pub title: String,
    pub slug: String,
    pub excerpt: String,
    pub featured_image_url: Option<String>,
    /// `srcset` of the featured image's WebP renditions, when it has any.
    pub featured_srcset_webp: Option<String>,
    /// `srcset` of the featured image's AVIF renditions, when it has any.
    pub featured_srcset_avif: Option<String>,
    pub author_id: i64,
    pub author_name: String,
    pub author_username: String,
    pub category_name: Option<String>,
    pub status: String,
    pub published_at: Option<String>,
}

/// Full article for the detail page.
#[derive(Clone, PartialEq, Debug, Default)]
pub struct PostDetail {
    pub id: i64,
    pub title: String,
    pub slug: String,
    pub body_md: String,
    pub body_html: String,
    pub excerpt: String,
    pub featured_image_url: Option<String>,
    pub featured_srcset_webp: Option<String>,
    pub featured_srcset_avif: Option<String>,
    pub author_id: i64,
    pub author_name: String,
    pub author_username: String,
    pub author_bio: Option<String>,
    pub category_id: Option<i64>,
    pub category_name: Option<String>,
    pub status: String,
    pub published_at: Option<String>,
    pub created_at: String,
}

#[derive(Clone, PartialEq, Debug, Default)]
pub struct Category {
    pub id: i64,
    pub name: String,
    pub slug: String,
    pub description: Option<String>,
}

#[derive(Clone, PartialEq, Debug, Default)]
pub struct Tag {
    pub id: i64,
    pub name: String,
    pub slug: String,
}

/// A comment as shown publicly (display name resolved server-side).
#[derive(Clone, PartialEq, Debug, Default)]
pub struct CommentView {
    pub id: i64,
    pub post_id: i64,
    pub display_name: String,
    pub body: String,
    pub status: String,
    pub created_at: String,
}

#[derive(Clone, PartialEq, Debug, Default)]
pub struct AuthorProfile {
    pub user_id: i64,
    pub username: String,
    pub display_name: String,
    pub avatar_url: Option<String>,
    pub bio: Option<String>,
    pub social_links: Option<String>,
}

#[derive(Clone, PartialEq, Debug, Default)]
pub struct MediaItem {
    pub id: i64,
    pub filename: String,
    pub url: String,
    pub uploaded_by: i64,
    pub created_at: String,
    /// How many posts use the image, as cover or inline.
    pub usage_count: i64,
}

/// Aggregate counts for the admin dashboard / analytics.
#[derive(Clone, PartialEq, Debug, Default)]
pub struct AnalyticsSummary {
    pub post_count: i64,
    pub published_count: i64,
    pub draft_count: i64,
    pub comment_count: i64,
    pub pending_comment_count: i64,
    pub subscriber_count: i64,
    pub view_count: i64,
    pub reaction_count: i64,
}

/// Raw post fields for the editor (assembled server-side; not a single row
/// because `tag_ids` comes from a join table).
#[derive(Clone, PartialEq, Debug, Default)]
pub struct PostEditData {
    pub id: i64,
    pub title: String,
    pub slug: String,
    pub body_md: String,
    pub excerpt: String,
    pub category_id: Option<i64>,
    pub featured_image_url: Option<String>,
    pub status: String,
    pub tag_ids: Vec<i64>,
}

/// The fields the editor submits to create or update a post.
#[derive(Clone, PartialEq, Debug, Default)]
pub struct PostInput {
    pub title: String,
    pub body_md: String,
    pub excerpt: String,
    pub category_id: Option<i64>,
    pub tag_ids: Vec<i64>,
    pub featured_image_url: Option<String>,
    pub status: String,
}

/// A post that references a media URL: as its cover (`kind` is `cover`) or
/// inline in its body (`body`).
#[derive(Clone, PartialEq, Debug, Default)]
pub struct PostUsage {
    pub id: i64,
    pub title: String,
    pub slug: String,
    pub status: String,
    pub kind: String,
}

/// The status of a post that is not yet public.
pub const STATUS_DRAFT: &'static str = "draft";

/// The status of a post that is public.
pub const STATUS_PUBLISHED: &'static str = "published";

/// The status of a post taken out of the feeds but kept.
pub const STATUS_ARCHIVED: &'static str = "archived";

/// The statuses a post moves through, in workflow order.
pub fn post_statuses() -> (v: Vec<&'static str>)
    ensures
        v@ == seq![STATUS_DRAFT, STATUS_PUBLISHED, STATUS_ARCHIVED],
{
    let v = vec![STATUS_DRAFT, STATUS_PUBLISHED, STATUS_ARCHIVED];
    v
}

/// A page of post cards plus the total count, for offset pagination.
#[derive(Clone, PartialEq, Debug, Default)]
pub struct PostFeed {
    pub items: Vec<PostCard>,
    pub total: i64,
    pub page: i64,
    pub per_page: i64,
}

/// Integer division rounding toward zero, as Rust's `/` on integers does.
pub open spec fn div_trunc(a: int, b: int) -> int
    recommends
        b > 0,
{
    if a >= 0 {
        a / b
    } else {
        -((-a) / b)
    }
}

/// Page count for `total` items at `per_page` per page: at least one page.
pub open spec fn page_count(total: int, per_page: int) -> int {
    if per_page <= 0 {
        1
    } else {
        let q = div_trunc(total + per_page - 1, per_page);
        if q >= 1 {
            q
        } else {
            1
        }
    }
}

impl CommentView {
    /// A field-for-field copy.
    pub fn copy(&self) -> (c: CommentView)
        ensures
            c == *self,
    {
        CommentView {
            id: self.id,
            post_id: self.post_id,
            display_name: self.display_name.clone(),
            body: self.body.clone(),
            status: self.status.clone(),
            created_at: self.created_at.clone(),
        }
    }
}

impl PostFeed {
    /// Number of pages, always at least one.
    pub fn total_pages(&self) -> (n: i64)
        requires
            self.per_page <= 0 || self.total + self.per_page - 1 <= i64::MAX,
        ensures
            n == page_count(self.total as int, self.per_page as int),
            n >= 1,
    {
        if self.per_page <= 0 {
            return 1;
        }
        let a = self.total + (self.per_page - 1);
        let q = a / self.per_page;
        proof {
            assert(q as int == div_trunc(a as int, self.per_page as int));
        }
        if q >= 1 {
            q
        } else {
            1
        }
    }
}

/// Pages cover the listing exactly: with a positive page size, the page count
/// is the least `k >= 1` with `k * per_page >= total`, i.e. `max(1,
/// ceil(total / per_page))`. The pages hold every item, and a page past the
/// first is never empty.
pub proof fn law_pages_cover_listing(total: int, per_page: int)
    requires
        per_page > 0,
    ensures
        page_count(total, per_page) >= 1,
        total <= page_count(total, per_page) * per_page,
        page_count(total, per_page) == 1 || (page_count(total, per_page) - 1) * per_page < total,
        forall|k: int| 1 <= k < page_count(total, per_page) ==> #[trigger] (k * per_page) < total,
{
    let a = total + per_page - 1;
    let pc = page_count(total, per_page);
    if a >= 0 {
        let q = a / per_page;
        let r = a % per_page;
        assert(a == q * per_page + r && 0 <= r < per_page && q >= 0) by (nonlinear_arith)
            requires
                per_page > 0,
                a >= 0,
                q == a / per_page,
                r == a % per_page,
        ;
        assert(div_trunc(a, per_page) == q);
        assert(total <= q * per_page) by (nonlinear_arith)
            requires
                a == q * per_page + r,
                r < per_page,
                a == total + per_page - 1,
        ;
        assert((q - 1) * per_page < total) by (nonlinear_arith)
            requires
                a == q * per_page + r,
                0 <= r,
                a == total + per_page - 1,
        ;
        if q < 1 {
            assert(q == 0);
            assert(total <= 1 * per_page) by (nonlinear_arith)
                requires
                    total <= q * per_page,
                    q == 0,
                    per_page > 0,
            ;
        }
    } else {
        assert(div_trunc(a, per_page) <= 0) by (nonlinear_arith)
            requires
                a < 0,
                per_page > 0,
                div_trunc(a, per_page) == -((-a) / per_page),
        ;
        assert(total <= 1 * per_page);
    }
    assert forall|k: int| 1 <= k < pc implies #[trigger] (k * per_page) < total by {
        assert(k * per_page <= (pc - 1) * per_page) by (nonlinear_arith)
            requires
                k <= pc - 1,
                per_page > 0,
        ;
    }
}

/// Default page size for listings.
pub const PER_PAGE: i64 = 10;

} // verus!
