use dx_blog::dialect::{now_in, now_offset_in, random_hex_16_in, Dialect};
use dx_blog::db::{search_sql_in, slug_probe, SlugProbe};
use dx_blog::queries::views_over_time_sql;
use dx_blog::queries::{ admin_list_sql, burst_count_sql, insert_post_sql, list_posts_count_sql, new_token_sql, uid_cooldown_sql, update_post_sql, COMMENT_VIEW_COLUMNS, COMMENT_VIEW_FROM, LIST_POSTS_WHERE,};
use dx_blog::db::media_usage_count;
use dx_blog::db::{
    admin_order_by, apply_card_srcsets, apply_detail_srcsets, assemble_srcsets, comment_event,
    detail_upload_url, is_upload_url, like_escape, lookup_srcsets, media_usage_pattern, placeholders,
    search_sql, slug_base, slug_candidate, srcset_query, upload_urls, CommentWithPost, RenditionRow,
    POST_CARD_COLUMNS, POST_CARD_JOINS,
};
use dx_blog::dialect::{now_offset, NOW, RANDOM_HEX_16};
use dx_blog::live::AdminEvent;
use dx_blog::model::{PostCard, PostDetail, PostFeed, PER_PAGE};

#[test]
fn slug_base_slugifies() {
    assert_eq!(slug_base("Hello World"), "hello-world");
    assert_eq!(slug_base("  Rust & Dioxus!  "), "rust-dioxus");
}

#[test]
fn slug_base_falls_back_to_item() {
    assert_eq!(slug_base("!!!"), "item");
    assert_eq!(slug_base(""), "item");
}

#[test]
fn slug_candidates_count_from_two() {
    assert_eq!(slug_candidate("post", 1), "post");
    assert_eq!(slug_candidate("post", 2), "post-2");
    assert_eq!(slug_candidate("post", 10), "post-10");
    assert_ne!(slug_candidate("a", 2), slug_candidate("a", 3));
}

#[test]
fn like_escape_escapes_metacharacters() {
    assert_eq!(like_escape(r"a_b%c\d"), r"a\_b\%c\\d");
    assert_eq!(like_escape("plain"), "plain");
    assert_eq!(like_escape(""), "");
    assert_eq!(like_escape("100%_done"), r"100\%\_done");
}

#[test]
fn media_usage_pattern_wraps_in_wildcards() {
    assert_eq!(media_usage_pattern("/uploads/x_1.png"), r"%/uploads/x\_1.png%");
}

#[test]
fn admin_order_by_whitelist() {
    assert_eq!(admin_order_by(Some("title")), "p.title COLLATE NOCASE ASC, p.id DESC");
    assert_eq!(admin_order_by(Some("title_desc")), "p.title COLLATE NOCASE DESC, p.id DESC");
    assert_eq!(admin_order_by(Some("status")), "p.status ASC, p.updated_at DESC");
    assert_eq!(admin_order_by(Some("status_desc")), "p.status DESC, p.updated_at DESC");
    assert_eq!(admin_order_by(Some("published")), "p.published_at IS NULL, p.published_at DESC, p.id DESC");
    assert_eq!(admin_order_by(Some("published_desc")), "p.published_at IS NULL, p.published_at ASC, p.id ASC");
    assert_eq!(admin_order_by(Some("oldest")), "p.updated_at ASC, p.id ASC");
    assert_eq!(admin_order_by(Some("recent")), "p.updated_at DESC, p.id DESC");
    assert_eq!(admin_order_by(Some("'; DROP TABLE posts; --")), "p.updated_at DESC, p.id DESC");
    assert_eq!(admin_order_by(None), "p.updated_at DESC, p.id DESC");
}

#[test]
fn search_sql_without_facets() {
    let q = search_sql(false, false, false);
    assert_eq!(
        q.items,
        format!(
            "SELECT {POST_CARD_COLUMNS} FROM posts_fts f JOIN posts p ON p.id = f.rowid {POST_CARD_JOINS} \
             WHERE posts_fts MATCH $1 AND p.status = 'published' ORDER BY rank LIMIT $2 OFFSET $3"
        )
    );
    assert_eq!(
        q.count,
        "SELECT COUNT(*) FROM posts_fts f JOIN posts p ON p.id = f.rowid WHERE posts_fts MATCH $1 AND p.status = 'published'"
    );
    assert_eq!(q.limit_placeholder, 2);
    assert_eq!(q.offset_placeholder, 3);
}

#[test]
fn search_sql_with_every_facet() {
    let q = search_sql(true, true, true);
    let facets = " AND p.category_id = (SELECT id FROM categories WHERE slug = $2) \
                  AND EXISTS (SELECT 1 FROM post_tags pt JOIN tags t ON t.id = pt.tag_id WHERE pt.post_id = p.id AND t.slug = $3) \
                  AND p.published_at >= (datetime('now', $4))";
    assert!(q.items.contains(facets));
    assert!(q.items.ends_with("ORDER BY rank LIMIT $5 OFFSET $6"));
    assert!(q.count.ends_with(facets));
    assert_eq!((q.limit_placeholder, q.offset_placeholder), (5, 6));
}

#[test]
fn search_sql_tag_and_date_only() {
    let q = search_sql(false, true, true);
    assert!(q.count.contains("t.slug = $2)"));
    assert!(q.count.ends_with(" AND p.published_at >= (datetime('now', $3))"));
    assert_eq!(q.limit_placeholder, 4);
}

#[test]
fn now_offset_binds_its_placeholder() {
    assert_eq!(now_offset(3), "(datetime('now', $3))");
    assert_eq!(now_offset(12), "(datetime('now', $12))");
    assert_eq!(NOW, "datetime('now')");
    assert_eq!(RANDOM_HEX_16, "lower(hex(randomblob(16)))");
}

#[test]
fn placeholders_list() {
    assert_eq!(placeholders(0), "");
    assert_eq!(placeholders(1), "$1");
    assert_eq!(placeholders(3), "$1,$2,$3");
}

#[test]
fn srcset_query_text() {
    assert_eq!(
        srcset_query(2),
        "SELECT m.url AS media_url, v.format AS format, v.width AS width, v.url AS url \
         FROM media_variants v JOIN media m ON m.id = v.media_id \
         WHERE m.url IN ($1,$2) ORDER BY m.url, v.width ASC"
    );
}

fn row(media: &str, format: &str, width: i64, url: &str) -> RenditionRow {
    (media.to_string(), format.to_string(), width, url.to_string())
}

#[test]
fn srcsets_assembled_per_format_in_row_order() {
    let urls = vec!["/uploads/a.png".to_string(), "/uploads/b.png".to_string(), "/uploads/c.png".to_string()];
    let rows = vec![
        row("/uploads/a.png", "avif", 320, "/uploads/a-320.avif"),
        row("/uploads/a.png", "avif", 640, "/uploads/a-640.avif"),
        row("/uploads/a.png", "webp", 320, "/uploads/a-320.webp"),
        row("/uploads/a.png", "jpeg", 320, "/uploads/a-320.jpg"),
        row("/uploads/b.png", "webp", 160, "/uploads/b-160.webp"),
    ];
    let out = assemble_srcsets(&urls, &rows);
    assert_eq!(out.len(), 2);
    let a = lookup_srcsets(&out, "/uploads/a.png").expect("a has sources");
    assert_eq!(a.0.as_deref(), Some("/uploads/a-320.avif 320w, /uploads/a-640.avif 640w"));
    assert_eq!(a.1.as_deref(), Some("/uploads/a-320.webp 320w"));
    let b = lookup_srcsets(&out, "/uploads/b.png").expect("b has sources");
    assert_eq!(b, (None, Some("/uploads/b-160.webp 160w".to_string())));
    assert!(lookup_srcsets(&out, "/uploads/c.png").is_none());
}

#[test]
fn upload_detection() {
    assert!(is_upload_url("/uploads/x.png"));
    assert!(!is_upload_url("https://example.com/uploads/x.png"));
    assert!(!is_upload_url("/upload/x.png"));
}

fn card(id: i64, img: Option<&str>) -> PostCard {
    PostCard { id, title: format!("t{id}"), featured_image_url: img.map(|s| s.to_string()), ..Default::default() }
}

#[test]
fn upload_urls_keeps_local_uploads_in_order() {
    let cards = vec![
        card(1, Some("/uploads/a.png")),
        card(2, None),
        card(3, Some("https://cdn.example/x.png")),
        card(4, Some("/uploads/b.png")),
    ];
    assert_eq!(upload_urls(&cards), vec!["/uploads/a.png".to_string(), "/uploads/b.png".to_string()]);
}

#[test]
fn card_srcsets_filled_only_where_recorded() {
    let mut cards = vec![card(1, Some("/uploads/a.png")), card(2, Some("/uploads/z.png")), card(3, None)];
    let map = vec![("/uploads/a.png".to_string(), Some("A 1w".to_string()), None)];
    apply_card_srcsets(&mut cards, &map);
    assert_eq!(cards[0].featured_srcset_avif.as_deref(), Some("A 1w"));
    assert_eq!(cards[0].featured_srcset_webp, None);
    assert_eq!(cards[0].title, "t1");
    assert_eq!(cards[1].featured_srcset_avif, None);
    assert_eq!(cards[2].featured_srcset_avif, None);
}

#[test]
fn detail_srcsets() {
    let mut d = PostDetail { id: 9, featured_image_url: Some("/uploads/a.png".to_string()), ..Default::default() };
    assert_eq!(detail_upload_url(&d), Some("/uploads/a.png".to_string()));
    let map = vec![("/uploads/a.png".to_string(), None, Some("W 2w".to_string()))];
    apply_detail_srcsets(&mut d, &map);
    assert_eq!(d.featured_srcset_webp.as_deref(), Some("W 2w"));
    let ext = PostDetail { featured_image_url: Some("http://x/y.png".to_string()), ..Default::default() };
    assert_eq!(detail_upload_url(&ext), None);
}

#[test]
fn total_pages_rounds_up_and_is_at_least_one() {
    let f = |total: i64| PostFeed { items: vec![], total, page: 1, per_page: PER_PAGE }.total_pages();
    assert_eq!(f(0), 1);
    assert_eq!(f(1), 1);
    assert_eq!(f(10), 1);
    assert_eq!(f(11), 2);
    assert_eq!(f(25), 3);
    assert_eq!(PostFeed { items: vec![], total: 5, page: 1, per_page: 0 }.total_pages(), 1);
    assert_eq!(PostFeed { items: vec![], total: -30, page: 1, per_page: 10 }.total_pages(), 1);
    let top = i64::MAX - 9;
    assert_eq!(PostFeed { items: vec![], total: top, page: 1, per_page: 10 }.total_pages(), i64::MAX / 10);
}

#[test]
fn comment_event_carries_the_metadata() {
    let c = CommentWithPost {
        id: 4,
        post_id: 2,
        display_name: "Ada".to_string(),
        status: "pending".to_string(),
        post_title: "Hello".to_string(),
        post_slug: "hello".to_string(),
    };
    match comment_event(c) {
        AdminEvent::Comment { id, post_title, post_slug, display_name, status } => {
            assert_eq!((id, post_title.as_str(), post_slug.as_str()), (4, "Hello", "hello"));
            assert_eq!((display_name.as_str(), status.as_str()), ("Ada", "pending"));
        }
        _ => panic!("expected a comment event"),
    }
}

#[test]
fn composed_queries() {
    assert_eq!(
        list_posts_count_sql(),
        format!("SELECT COUNT(*) FROM posts p {POST_CARD_JOINS} {LIST_POSTS_WHERE}")
    );
    assert_eq!(
        admin_list_sql(Some("oldest")),
        format!(
            "SELECT {POST_CARD_COLUMNS} FROM posts p {POST_CARD_JOINS} WHERE ($1 OR p.author_id = $2) AND ($3 IS NULL OR p.status = $4) ORDER BY p.updated_at ASC, p.id ASC"
        )
    );
    assert!(admin_list_sql(None).ends_with("ORDER BY p.updated_at DESC, p.id DESC"));
    assert_eq!(
        uid_cooldown_sql(Dialect::Sqlite),
        "SELECT 1 FROM comments WHERE post_id = $1 AND author_id = $2 AND created_at >= (datetime('now', $3)) LIMIT 1"
    );
    assert_eq!(burst_count_sql(Dialect::Sqlite), "SELECT COUNT(*) FROM comments WHERE post_id = $1 AND created_at >= (datetime('now', $2))");
    assert_eq!(new_token_sql(Dialect::Sqlite), "SELECT lower(hex(randomblob(16)))");
    assert!(insert_post_sql(Dialect::Sqlite).contains("CASE WHEN $10 = 'published' THEN datetime('now') ELSE NULL END)"));
    assert!(update_post_sql(Dialect::Sqlite).contains("updated_at = datetime('now')\n        WHERE id = $9"));
    assert!(COMMENT_VIEW_COLUMNS.starts_with("cm.id, cm.post_id"));
    assert_eq!(COMMENT_VIEW_FROM, "FROM comments cm LEFT JOIN users u ON u.id = cm.author_id");
}

#[test]
fn media_usage_counts_covers_and_inline_uses() {
    let corpus = vec![
        (Some("/uploads/a.png".to_string()), "no image".to_string()),
        (None, "see ![x](/uploads/a.png) here".to_string()),
        (Some("/uploads/b.png".to_string()), "/uploads/a.pn".to_string()),
        (Some("/uploads/a.png".to_string()), "and ![x](/uploads/a.png)".to_string()),
    ];
    assert_eq!(media_usage_count(&corpus, "/uploads/a.png"), 3);
    assert_eq!(media_usage_count(&corpus, "/uploads/b.png"), 1);
    assert_eq!(media_usage_count(&corpus, "/uploads/c.png"), 0);
    assert_eq!(media_usage_count(&vec![], "/uploads/a.png"), 0);
    assert!(dx_blog::text::contains_str("abc", ""));
    assert!(dx_blog::text::contains_str("abc", "bc"));
    assert!(!dx_blog::text::contains_str("ab", "abc"));
}

#[test]
fn postgres_dialect_forms() {
    let pg = Dialect::Postgres;
    assert_eq!(now_in(pg), "NOW()");
    assert_eq!(now_in(Dialect::Sqlite), "datetime('now')");
    assert_eq!(random_hex_16_in(pg), "encode(gen_random_bytes(16), 'hex')");
    assert_eq!(now_offset_in(pg, 2), "(NOW() + $2::interval)");
    assert_eq!(now_offset_in(Dialect::Sqlite, 2), "(datetime('now', $2))");
    assert_eq!(burst_count_sql(pg), "SELECT COUNT(*) FROM comments WHERE post_id = $1 AND created_at >= (NOW() + $2::interval)");
    assert_eq!(new_token_sql(pg), "SELECT encode(gen_random_bytes(16), 'hex')");
    assert!(views_over_time_sql(pg).contains("WHERE viewed_at >= CURRENT_DATE - INTERVAL '29 days'"));
    assert!(views_over_time_sql(Dialect::Sqlite).contains("WHERE viewed_at >= date('now', '-29 days')"));
}

#[test]
fn postgres_search_sql() {
    let q = search_sql_in(Dialect::Postgres, true, false, true);
    assert_eq!(
        q.count,
        "SELECT COUNT(*) FROM posts p WHERE p.search_tsv @@ plainto_tsquery('english', $1) AND p.status = 'published' \
         AND p.category_id = (SELECT id FROM categories WHERE slug = $2) AND p.published_at >= (NOW() + $3::interval)"
    );
    assert!(q.items.ends_with(" ORDER BY ts_rank(p.search_tsv, plainto_tsquery('english', $1)) DESC LIMIT $4 OFFSET $5"));
    assert_eq!((q.limit_placeholder, q.offset_placeholder), (4, 5));
}

#[test]
fn slug_probe_takes_a_free_candidate_or_moves_on() {
    assert!(matches!(slug_probe("post", 1, false), SlugProbe::Take(s) if s == "post"));
    assert!(matches!(slug_probe("post", 3, false), SlugProbe::Take(s) if s == "post-3"));
    assert!(matches!(slug_probe("post", 3, true), SlugProbe::Next(4)));
}

#[test]
fn offset_fragment_has_one_placeholder() {
    for d in [Dialect::Sqlite, Dialect::Postgres] {
        for n in [1usize, 2, 10, 12, 123] {
            let f = now_offset_in(d, n);
            assert_eq!(f.matches('$').count(), 1);
            let after = &f[f.find('$').unwrap() + 1..];
            let digits: String = after.chars().take_while(|c| c.is_ascii_digit()).collect();
            assert_eq!(digits, n.to_string());
        }
        assert_ne!(now_offset_in(d, 1), now_offset_in(d, 12));
    }
}
