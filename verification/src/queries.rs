//! The SQL text of the blog's queries that are composed from shared
//! fragments: the post-card projection, the feed filter, the comment view and
//! the dialect's time expressions (each query that uses one takes the
//! `Dialect`). Binding the parameters and running the
//! queries is the application's part; each function lists its binds in order.
use vstd::prelude::*;

use crate::db::{admin_order_by, order_by_of, POST_CARD_COLUMNS, POST_CARD_JOINS};
use crate::dialect::{
    now_in, now_in_of, now_offset_in, now_offset_in_of, random_hex_16_in, random_hex_16_in_of, Dialect,
};
use crate::text::{push_str, string_from};

verus! {

/// The published feed's filter: `$1`/`$2` an optional category slug,
/// `$3`/`$4` an optional tag slug.
pub const LIST_POSTS_WHERE: &'static str = "WHERE p.status = 'published' AND ($1 IS NULL OR c.slug = $2) AND ($3 IS NULL OR EXISTS ( SELECT 1 FROM post_tags pt JOIN tags t ON t.id = pt.tag_id WHERE pt.post_id = p.id AND t.slug = $4))";

/// The projection of a comment as shown publicly (display name resolved).
pub const COMMENT_VIEW_COLUMNS: &'static str = "cm.id, cm.post_id, COALESCE(u.display_name, u.username, cm.guest_name, 'Anonymous') AS display_name, cm.body, cm.status, cm.created_at";

/// The joins `COMMENT_VIEW_COLUMNS` depends on.
pub const COMMENT_VIEW_FROM: &'static str = "FROM comments cm LEFT JOIN users u ON u.id = cm.author_id";

/// The admin post list, author-scoped unless the user is an admin, optionally
/// of one status, in a whitelisted order.
/// Binds: is-admin flag, author id, status twice.
pub fn admin_list_sql(sort: Option<&str>) -> (s: String)
    ensures
        s@ == "SELECT "@ + POST_CARD_COLUMNS@ + " FROM posts p "@ + POST_CARD_JOINS@
            + " WHERE ($1 OR p.author_id = $2) AND ($3 IS NULL OR p.status = $4) ORDER BY "@ + order_by_of(
            match sort {
                Some(k) => Some(k@),
                None => None,
            },
        ),
{
    let mut s = string_from("SELECT ");
    push_str(&mut s, POST_CARD_COLUMNS);
    push_str(&mut s, " FROM posts p ");
    push_str(&mut s, POST_CARD_JOINS);
    push_str(&mut s, " WHERE ($1 OR p.author_id = $2) AND ($3 IS NULL OR p.status = $4) ORDER BY ");
    push_str(&mut s, admin_order_by(sort));
    s
}

/// The page of the published feed, optionally narrowed to a category and a tag.
/// Binds: category slug twice, tag slug twice, limit, offset.
pub fn list_posts_sql() -> (s: String)
    ensures
        s@ == "SELECT "@ + POST_CARD_COLUMNS@ + " FROM posts p "@ + POST_CARD_JOINS@ + " "@ + LIST_POSTS_WHERE@ + " ORDER BY p.published_at DESC, p.id DESC LIMIT $5 OFFSET $6"@,
{
    let mut s = string_from("SELECT ");
    push_str(&mut s, POST_CARD_COLUMNS);
    push_str(&mut s, " FROM posts p ");
    push_str(&mut s, POST_CARD_JOINS);
    push_str(&mut s, " ");
    push_str(&mut s, LIST_POSTS_WHERE);
    push_str(&mut s, " ORDER BY p.published_at DESC, p.id DESC LIMIT $5 OFFSET $6");
    s
}

/// The size of the published feed under the same filters.
/// Binds: category slug twice, tag slug twice.
pub fn list_posts_count_sql() -> (s: String)
    ensures
        s@ == "SELECT COUNT(*) FROM posts p "@ + POST_CARD_JOINS@ + " "@ + LIST_POSTS_WHERE@,
{
    let mut s = string_from("SELECT COUNT(*) FROM posts p ");
    push_str(&mut s, POST_CARD_JOINS);
    push_str(&mut s, " ");
    push_str(&mut s, LIST_POSTS_WHERE);
    s
}

/// A page of every published post, newest first. Binds: limit, offset.
pub fn archive_sql() -> (s: String)
    ensures
        s@ == "SELECT "@ + POST_CARD_COLUMNS@ + " FROM posts p "@ + POST_CARD_JOINS@ + " WHERE p.status = 'published' ORDER BY p.published_at DESC, p.id DESC LIMIT $1 OFFSET $2"@,
{
    let mut s = string_from("SELECT ");
    push_str(&mut s, POST_CARD_COLUMNS);
    push_str(&mut s, " FROM posts p ");
    push_str(&mut s, POST_CARD_JOINS);
    push_str(&mut s, " WHERE p.status = 'published' ORDER BY p.published_at DESC, p.id DESC LIMIT $1 OFFSET $2");
    s
}

/// A page of an author's published posts. Binds: username, limit, offset.
pub fn posts_by_author_sql() -> (s: String)
    ensures
        s@ == "SELECT "@ + POST_CARD_COLUMNS@ + " FROM posts p "@ + POST_CARD_JOINS@ + " WHERE p.status = 'published' AND u.username = $1 ORDER BY p.published_at DESC, p.id DESC LIMIT $2 OFFSET $3"@,
{
    let mut s = string_from("SELECT ");
    push_str(&mut s, POST_CARD_COLUMNS);
    push_str(&mut s, " FROM posts p ");
    push_str(&mut s, POST_CARD_JOINS);
    push_str(&mut s, " WHERE p.status = 'published' AND u.username = $1 ORDER BY p.published_at DESC, p.id DESC LIMIT $2 OFFSET $3");
    s
}

/// The most-viewed published posts. Binds: limit.
pub fn featured_posts_sql() -> (s: String)
    ensures
        s@ == "SELECT "@ + POST_CARD_COLUMNS@ + " FROM posts p "@ + POST_CARD_JOINS@ + " LEFT JOIN (SELECT post_id, COUNT(*) AS views FROM post_views GROUP BY post_id) v ON v.post_id = p.id WHERE p.status = 'published' ORDER BY COALESCE(v.views, 0) DESC, p.published_at DESC, p.id DESC LIMIT $1"@,
{
    let mut s = string_from("SELECT ");
    push_str(&mut s, POST_CARD_COLUMNS);
    push_str(&mut s, " FROM posts p ");
    push_str(&mut s, POST_CARD_JOINS);
    push_str(&mut s, " LEFT JOIN (SELECT post_id, COUNT(*) AS views FROM post_views GROUP BY post_id) v ON v.post_id = p.id WHERE p.status = 'published' ORDER BY COALESCE(v.views, 0) DESC, p.published_at DESC, p.id DESC LIMIT $1");
    s
}

/// Insert a post, stamping `published_at` when it is published.
/// Binds: title, slug, body, html, excerpt, author, category, image, status twice.
pub fn insert_post_sql(d: Dialect) -> (s: String)
    ensures
        s@ == "\n        INSERT INTO posts\n          (title, slug, body_md, body_html, excerpt, author_id, category_id,\n           featured_image_url, status, published_at)\n        VALUES ($1, $2, $3, $4, $5, $6, $7, $8, $9,\n           CASE WHEN $10 = 'published' THEN "@ + now_in_of(d) + " ELSE NULL END)\n        RETURNING id\n        "@,
{
    let mut s = string_from("\n        INSERT INTO posts\n          (title, slug, body_md, body_html, excerpt, author_id, category_id,\n           featured_image_url, status, published_at)\n        VALUES ($1, $2, $3, $4, $5, $6, $7, $8, $9,\n           CASE WHEN $10 = 'published' THEN ");
    push_str(&mut s, now_in(d));
    push_str(&mut s, " ELSE NULL END)\n        RETURNING id\n        ");
    s
}

/// Update a post, stamping `published_at` on its first publication.
/// Binds: title, body, html, excerpt, category, image, status twice, id.
pub fn update_post_sql(d: Dialect) -> (s: String)
    ensures
        s@ == "\n        UPDATE posts SET\n          title = $1, body_md = $2, body_html = $3, excerpt = $4,\n          category_id = $5, featured_image_url = $6, status = $7,\n          published_at = CASE WHEN $8 = 'published' AND published_at IS NULL\n                              THEN "@ + now_in_of(d) + " ELSE published_at END,\n          updated_at = "@ + now_in_of(d) + "\n        WHERE id = $9\n        "@,
{
    let mut s = string_from("\n        UPDATE posts SET\n          title = $1, body_md = $2, body_html = $3, excerpt = $4,\n          category_id = $5, featured_image_url = $6, status = $7,\n          published_at = CASE WHEN $8 = 'published' AND published_at IS NULL\n                              THEN ");
    push_str(&mut s, now_in(d));
    push_str(&mut s, " ELSE published_at END,\n          updated_at = ");
    push_str(&mut s, now_in(d));
    push_str(&mut s, "\n        WHERE id = $9\n        ");
    s
}

/// A post's approved comments, oldest first. Binds: post id.
pub fn list_comments_sql() -> (s: String)
    ensures
        s@ == "SELECT "@ + COMMENT_VIEW_COLUMNS@ + " "@ + COMMENT_VIEW_FROM@ + " WHERE cm.post_id = $1 AND cm.status = 'approved' ORDER BY cm.created_at ASC"@,
{
    let mut s = string_from("SELECT ");
    push_str(&mut s, COMMENT_VIEW_COLUMNS);
    push_str(&mut s, " ");
    push_str(&mut s, COMMENT_VIEW_FROM);
    push_str(&mut s, " WHERE cm.post_id = $1 AND cm.status = 'approved' ORDER BY cm.created_at ASC");
    s
}

/// A sentinel row when a user commented on a post within the cooldown.
/// Binds: post id, author id, cooldown offset.
pub fn uid_cooldown_sql(d: Dialect) -> (s: String)
    ensures
        s@ == "SELECT 1 FROM comments WHERE post_id = $1 AND author_id = $2 AND created_at >= "@ + now_offset_in_of(d, 3) + " LIMIT 1"@,
{
    let mut s = string_from("SELECT 1 FROM comments WHERE post_id = $1 AND author_id = $2 AND created_at >= ");
    let cutoff = now_offset_in(d, 3);
    push_str(&mut s, cutoff.as_str());
    push_str(&mut s, " LIMIT 1");
    s
}

/// A sentinel row when a guest email commented on a post within the cooldown.
/// Binds: post id, guest email, cooldown offset.
pub fn email_cooldown_sql(d: Dialect) -> (s: String)
    ensures
        s@ == "SELECT 1 FROM comments WHERE post_id = $1 AND guest_email = $2 AND created_at >= "@ + now_offset_in_of(d, 3) + " LIMIT 1"@,
{
    let mut s = string_from("SELECT 1 FROM comments WHERE post_id = $1 AND guest_email = $2 AND created_at >= ");
    let cutoff = now_offset_in(d, 3);
    push_str(&mut s, cutoff.as_str());
    push_str(&mut s, " LIMIT 1");
    s
}

/// The comments on a post within the burst window. Binds: post id, window offset.
pub fn burst_count_sql(d: Dialect) -> (s: String)
    ensures
        s@ == "SELECT COUNT(*) FROM comments WHERE post_id = $1 AND created_at >= "@ + now_offset_in_of(d, 2),
{
    let mut s = string_from("SELECT COUNT(*) FROM comments WHERE post_id = $1 AND created_at >= ");
    let cutoff = now_offset_in(d, 2);
    push_str(&mut s, cutoff.as_str());
    s
}

/// One comment as shown publicly. Binds: comment id.
pub fn comment_by_id_sql() -> (s: String)
    ensures
        s@ == "SELECT "@ + COMMENT_VIEW_COLUMNS@ + " "@ + COMMENT_VIEW_FROM@ + " WHERE cm.id = $1"@,
{
    let mut s = string_from("SELECT ");
    push_str(&mut s, COMMENT_VIEW_COLUMNS);
    push_str(&mut s, " ");
    push_str(&mut s, COMMENT_VIEW_FROM);
    push_str(&mut s, " WHERE cm.id = $1");
    s
}

/// The moderation queue, newest first, optionally of one status.
/// Binds: status twice.
pub fn admin_comments_sql() -> (s: String)
    ensures
        s@ == "SELECT "@ + COMMENT_VIEW_COLUMNS@ + " "@ + COMMENT_VIEW_FROM@ + " WHERE ($1 IS NULL OR cm.status = $2) ORDER BY cm.created_at DESC"@,
{
    let mut s = string_from("SELECT ");
    push_str(&mut s, COMMENT_VIEW_COLUMNS);
    push_str(&mut s, " ");
    push_str(&mut s, COMMENT_VIEW_FROM);
    push_str(&mut s, " WHERE ($1 IS NULL OR cm.status = $2) ORDER BY cm.created_at DESC");
    s
}

/// Record a view of a published post, once per visitor per window.
/// Binds: post id, referrer, visitor hash, post id, post id, visitor hash, window offset
/// (one day).
pub fn insert_view_sql(d: Dialect) -> (s: String)
    ensures
        s@ == "INSERT INTO post_views (post_id, referrer, visitor_hash)\n         SELECT $1, $2, $3\n         WHERE EXISTS (SELECT 1 FROM posts WHERE id = $4 AND status = 'published')\n           AND NOT EXISTS (\n             SELECT 1 FROM post_views\n             WHERE post_id = $5 AND visitor_hash = $6\n               AND viewed_at >= "@ + now_offset_in_of(d, 7) + ")"@,
{
    let mut s = string_from("INSERT INTO post_views (post_id, referrer, visitor_hash)\n         SELECT $1, $2, $3\n         WHERE EXISTS (SELECT 1 FROM posts WHERE id = $4 AND status = 'published')\n           AND NOT EXISTS (\n             SELECT 1 FROM post_views\n             WHERE post_id = $5 AND visitor_hash = $6\n               AND viewed_at >= ");
    let cutoff = now_offset_in(d, 7);
    push_str(&mut s, cutoff.as_str());
    push_str(&mut s, ")");
    s
}

/// The ten most-viewed posts.
pub fn top_posts_sql() -> (s: String)
    ensures
        s@ == "SELECT "@ + POST_CARD_COLUMNS@ + " FROM posts p "@ + POST_CARD_JOINS@ + " JOIN (SELECT post_id, COUNT(*) AS views FROM post_views GROUP BY post_id) v ON v.post_id = p.id ORDER BY v.views DESC LIMIT 10"@,
{
    let mut s = string_from("SELECT ");
    push_str(&mut s, POST_CARD_COLUMNS);
    push_str(&mut s, " FROM posts p ");
    push_str(&mut s, POST_CARD_JOINS);
    push_str(&mut s, " JOIN (SELECT post_id, COUNT(*) AS views FROM post_views GROUP BY post_id) v ON v.post_id = p.id ORDER BY v.views DESC LIMIT 10");
    s
}

/// A visitor's reactions on a post within the burst window.
/// Binds: post id, visitor hash, window offset.
pub fn reaction_burst_sql(d: Dialect) -> (s: String)
    ensures
        s@ == "SELECT COUNT(*) FROM reactions WHERE post_id = $1 AND visitor_hash = $2 AND created_at >= "@ + now_offset_in_of(d, 3),
{
    let mut s = string_from("SELECT COUNT(*) FROM reactions WHERE post_id = $1 AND visitor_hash = $2 AND created_at >= ");
    let cutoff = now_offset_in(d, 3);
    push_str(&mut s, cutoff.as_str());
    s
}

/// A sentinel row when a subscriber was sent a token within the cooldown.
/// Binds: subscriber id, cooldown offset.
pub fn recent_token_sql(d: Dialect) -> (s: String)
    ensures
        s@ == "SELECT 1 FROM subscriber_tokens WHERE subscriber_id = $1 AND created_at >= "@ + now_offset_in_of(d, 2) + " LIMIT 1"@,
{
    let mut s = string_from("SELECT 1 FROM subscriber_tokens WHERE subscriber_id = $1 AND created_at >= ");
    let cutoff = now_offset_in(d, 2);
    push_str(&mut s, cutoff.as_str());
    push_str(&mut s, " LIMIT 1");
    s
}

/// A fresh random token, computed by the database.
pub fn new_token_sql(d: Dialect) -> (s: String)
    ensures
        s@ == "SELECT "@ + random_hex_16_in_of(d),
{
    let mut s = string_from("SELECT ");
    push_str(&mut s, random_hex_16_in(d));
    s
}

/// The subscriber of an unexpired confirmation token.
/// Binds: token, time-to-live offset.
pub fn token_owner_sql(d: Dialect) -> (s: String)
    ensures
        s@ == "SELECT subscriber_id FROM subscriber_tokens WHERE token = $1 AND created_at >= "@ + now_offset_in_of(d, 2),
{
    let mut s = string_from("SELECT subscriber_id FROM subscriber_tokens WHERE token = $1 AND created_at >= ");
    let cutoff = now_offset_in(d, 2);
    push_str(&mut s, cutoff.as_str());
    s
}


/// Daily view counts over the last thirty days, oldest first. SQLite uses
/// `date()`, Postgres a `::date` cast and `CURRENT_DATE`. No binds.
pub fn views_over_time_sql(d: Dialect) -> (s: &'static str)
    ensures
        s@ == match d {
            Dialect::Sqlite => "\n        SELECT date(viewed_at) AS day, COUNT(*) AS views\n        FROM post_views\n        WHERE viewed_at >= date('now', '-29 days')\n        GROUP BY day\n        ORDER BY day\n    "@,
            Dialect::Postgres => "\n        SELECT viewed_at::date AS day, COUNT(*) AS views\n        FROM post_views\n        WHERE viewed_at >= CURRENT_DATE - INTERVAL '29 days'\n        GROUP BY day\n        ORDER BY day\n    "@,
        },
{
    match d {
        Dialect::Sqlite => "\n        SELECT date(viewed_at) AS day, COUNT(*) AS views\n        FROM post_views\n        WHERE viewed_at >= date('now', '-29 days')\n        GROUP BY day\n        ORDER BY day\n    ",
        Dialect::Postgres => "\n        SELECT viewed_at::date AS day, COUNT(*) AS views\n        FROM post_views\n        WHERE viewed_at >= CURRENT_DATE - INTERVAL '29 days'\n        GROUP BY day\n        ORDER BY day\n    ",
    }
}

} // verus!
