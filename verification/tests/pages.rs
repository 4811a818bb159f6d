use dx_blog::seed::{admin_seed_password, SEED_PASSWORD};
use dx_blog::admin::{hue_input, preset_class, preview_hue_script, theme_presets, theme_style};
use dx_blog::reader::{confirmation_text, shown_error, sign_in_note, SignInOutcome, LOCAL_CLAP_ID_START, SUBSCRIBED_MESSAGE};
use dx_blog::routes::{admin_nav, header_admin_route};
use dx_blog::routes::missing_path;
use dx_blog::admin::{
    bar_height, category_choice, category_value, delete_media_description, editor_heading,
    editor_submit_label, featured_arg, fetch_usage_detail, is_editing, live_reaction_count,
    metric_tiles, new_term_name, post_input, read_upload, rename_term, settings_error, toggle_sort,
    toggle_tag, upload_note, usage_label, usage_lines, views_peak, TaxKind, UploadRead,
};
use dx_blog::components::{error_text_class, join_classes, panel_class, panel_full_class, PanelPadding, PanelVariant};
use dx_blog::home::{
    drawer_class, holy_grail_cols, home_meta, home_meta_fallback, site_tagline, site_title, HomeLayout,
};
use dx_blog::model::{AnalyticsSummary, CommentView, PostDetail, PostUsage};
use dx_blog::reader::{
    absolute_url, comment_status_note, comment_submit, empty_comments_note, facet_arg, feed_title,
    filters_active, guest_field, is_draft, merge_comments, next_temp_id, optimistic_comment,
    own_display_name, post_head, post_url, presence_visible, reaction_display, settle_comment,
    CommentSubmit,
};
use dx_blog::routes::{admin_landing, analytics_redirect, nav_class, route_to_crumbs, slug_to_label, Route};
use dx_blog::seed::{admin_tokens, author_tokens, seed_comment, seed_post, seed_subscriber, seed_tag, SeedCommenter};
use dx_blog::startup::{database_url, rate_limit, seed_enabled, RateLimit};
use dx_blog::widgets::{bento_tile_class, pager, picture_html, tag_pill_class, FeedShape};

fn cv(id: i64, post_id: i64, status: &str) -> CommentView {
    CommentView {
        id,
        post_id,
        display_name: format!("n{id}"),
        body: format!("b{id}"),
        status: status.to_string(),
        created_at: "t".to_string(),
    }
}

fn ids(v: &[CommentView]) -> Vec<i64> {
    v.iter().map(|c| c.id).collect()
}

// ------------------------------------------------------------------ reader

#[test]
fn post_head_absolutizes_urls() {
    let post = PostDetail {
        slug: "hello".to_string(),
        excerpt: "An intro".to_string(),
        featured_image_url: Some("/uploads/a.png".to_string()),
        ..Default::default()
    };
    let h = post_head(&post, "https://blog.example");
    assert_eq!(h.url.as_deref(), Some("https://blog.example/post/hello"));
    assert_eq!(h.image.as_deref(), Some("https://blog.example/uploads/a.png"));
    assert_eq!(h.description.as_deref(), Some("An intro"));
    let bare = PostDetail { slug: "x".to_string(), ..Default::default() };
    let h = post_head(&bare, "");
    assert!(h.url.is_none());
    assert!(h.image.is_none());
    assert!(h.description.is_none());
}

#[test]
fn absolute_url_cases() {
    assert_eq!(absolute_url("https://b.ex", "http://cdn/x.png"), "http://cdn/x.png");
    assert_eq!(absolute_url("https://b.ex", "https://cdn/x.png"), "https://cdn/x.png");
    assert_eq!(absolute_url("https://b.ex", "/u/x.png"), "https://b.ex/u/x.png");
    assert_eq!(absolute_url("https://b.ex", "u/x.png"), "https://b.ex/u/x.png");
    assert_eq!(post_url("", "s"), "/post/s");
}

#[test]
fn merged_comments_dedupe_and_keep_source_order() {
    let initial = vec![cv(1, 7, "approved"), cv(2, 7, "approved"), cv(1, 7, "approved")];
    let live = vec![cv(2, 7, "approved"), cv(3, 8, "approved"), cv(4, 7, "approved")];
    let own = vec![cv(-1, 7, "sending"), cv(4, 7, "approved"), cv(5, 7, "pending")];
    let merged = merge_comments(&initial, &live, &own, 7);
    assert_eq!(ids(&merged), vec![1, 2, 4, -1, 5]);
}

#[test]
fn merged_comments_empty_sources() {
    assert!(merge_comments(&vec![], &vec![], &vec![], 1).is_empty());
}

#[test]
fn own_names_and_guest_fields() {
    assert_eq!(own_display_name("  "), "You");
    assert_eq!(own_display_name("  Ada "), "Ada");
    assert_eq!(guest_field(""), None);
    assert_eq!(guest_field(" x "), Some(" x ".to_string()));
}

#[test]
fn comment_submit_decisions() {
    assert!(matches!(comment_submit(true, "hi"), CommentSubmit::Busy));
    assert!(matches!(comment_submit(false, " \n "), CommentSubmit::Empty));
    match comment_submit(false, "  hi there ") {
        CommentSubmit::Send(b) => assert_eq!(b, "hi there"),
        _ => panic!("expected a send"),
    }
}

#[test]
fn optimistic_comment_fields() {
    let c = optimistic_comment(-3, 7, "", "Nice".to_string());
    assert_eq!(c, CommentView {
        id: -3,
        post_id: 7,
        display_name: "You".to_string(),
        body: "Nice".to_string(),
        status: "sending".to_string(),
        created_at: "just now".to_string(),
    });
    assert_eq!(next_temp_id(-1), -2);
}

#[test]
fn settle_approved_and_pending() {
    let own = vec![cv(-1, 7, "sending"), cv(5, 7, "pending")];
    let approved = cv(10, 7, "approved");
    let s = settle_comment(&own, -1, approved.clone());
    assert_eq!(ids(&s.own), vec![5]);
    assert_eq!(s.to_live, Some(approved));
    assert_eq!(s.message, "Thanks! Your comment is posted.");
    let pending = cv(11, 7, "pending");
    let s = settle_comment(&own, -1, pending.clone());
    assert_eq!(s.own, vec![pending, cv(5, 7, "pending")]);
    assert!(s.to_live.is_none());
    assert_eq!(s.message, "Thanks! Your comment is awaiting approval.");
}

#[test]
fn comment_notes() {
    assert_eq!(comment_status_note("sending"), Some("posting…"));
    assert_eq!(comment_status_note("pending"), Some("awaiting approval"));
    assert_eq!(comment_status_note("approved"), None);
    assert_eq!(empty_comments_note(true, true), "Loading…");
    assert_eq!(empty_comments_note(false, true), "Couldn't load comments.");
    assert_eq!(empty_comments_note(false, false), "No comments yet.");
}

#[test]
fn presence_reactions_and_drafts() {
    assert!(!presence_visible(0));
    assert!(presence_visible(1));
    assert_eq!(reaction_display(5, 0), 5);
    assert_eq!(reaction_display(5, 9), 9);
    assert!(is_draft("draft"));
    assert!(!is_draft("published"));
}

#[test]
fn feed_facets() {
    assert_eq!(facet_arg(""), None);
    assert_eq!(facet_arg("rust"), Some("rust".to_string()));
    assert!(!filters_active("", "", ""));
    assert!(filters_active("", "", "week"));
    assert_eq!(feed_title(Some("Engineering"), "engineering"), "Engineering");
    assert_eq!(feed_title(None, "engineering"), "engineering");
}

// ------------------------------------------------------------------ admin

#[test]
fn sort_toggles_between_directions() {
    assert_eq!(toggle_sort("recent", "title", "title_desc"), "title");
    assert_eq!(toggle_sort("title", "title", "title_desc"), "title_desc");
    assert_eq!(toggle_sort("title_desc", "title", "title_desc"), "title");
}

#[test]
fn editor_labels_and_inputs() {
    assert!(!is_editing(0));
    assert!(is_editing(4));
    assert_eq!(editor_heading(true), "Edit post");
    assert_eq!(editor_heading(false), "New post");
    assert_eq!(editor_submit_label(true), "Save changes");
    assert_eq!(editor_submit_label(false), "Create post");
    assert_eq!(featured_arg("   "), None);
    assert_eq!(featured_arg(" /uploads/a.png"), Some(" /uploads/a.png".to_string()));
    let p = post_input(
        "T".to_string(),
        "E".to_string(),
        "B".to_string(),
        "",
        Some(3),
        "draft".to_string(),
        vec![1, 2],
    );
    assert_eq!((p.title.as_str(), p.excerpt.as_str(), p.body_md.as_str()), ("T", "E", "B"));
    assert_eq!(p.category_id, Some(3));
    assert_eq!(p.featured_image_url, None);
    assert_eq!(p.tag_ids, vec![1, 2]);
}

#[test]
fn tag_toggling() {
    assert_eq!(toggle_tag(&vec![1, 2, 3], 2), vec![1, 3]);
    assert_eq!(toggle_tag(&vec![1, 3], 2), vec![1, 3, 2]);
    assert_eq!(toggle_tag(&vec![2, 1, 2], 2), vec![1]);
    assert_eq!(toggle_tag(&toggle_tag(&vec![5, 6], 9), 9), vec![5, 6]);
}

#[test]
fn category_select_values() {
    assert_eq!(category_choice(""), None);
    assert_eq!(category_choice("12"), Some(12));
    assert_eq!(category_choice("x"), None);
    assert_eq!(category_value(Some(-4)), "-4");
    assert_eq!(category_value(None), "");
}

#[test]
fn upload_replies() {
    assert!(matches!(read_upload("__read_error__"), UploadRead::ReadError));
    assert!(matches!(read_upload(""), UploadRead::NoFile));
    assert!(matches!(read_upload("no-bar"), UploadRead::Malformed));
    match read_upload("a|b.png|xyz") {
        UploadRead::Payload { name, data } => {
            assert_eq!(name, "a");
            assert_eq!(data, "b.png|xyz");
        }
        _ => panic!("expected a payload"),
    }
    assert_eq!(upload_note(&UploadRead::ReadError), Some("Could not read file."));
    assert_eq!(upload_note(&UploadRead::NoFile), Some("Choose a file first."));
    assert_eq!(upload_note(&UploadRead::Malformed), None);
}

#[test]
fn media_usage_texts() {
    assert_eq!(usage_label(3), "Used in 3 post(s)");
    assert_eq!(usage_label(0), "Unused");
    assert_eq!(
        delete_media_description(2),
        "This image is used in 2 post(s) — they will show a broken image. This can't be undone."
    );
    assert_eq!(delete_media_description(0), "This permanently deletes the image and can't be undone.");
    assert!(fetch_usage_detail(1, ""));
    assert!(!fetch_usage_detail(1, "• x (cover)"));
    assert!(!fetch_usage_detail(0, ""));
    let us = vec![
        PostUsage { id: 1, title: "A".to_string(), kind: "cover".to_string(), ..Default::default() },
        PostUsage { id: 2, title: "B".to_string(), kind: "body".to_string(), ..Default::default() },
    ];
    assert_eq!(usage_lines(&us), "• A (cover)\n• B (body)");
    assert_eq!(usage_lines(&vec![]), "");
}

#[test]
fn settings_save_report() {
    assert_eq!(settings_error(true, true), None);
    assert_eq!(settings_error(false, true).as_deref(), Some("Couldn't save title."));
    assert_eq!(settings_error(true, false).as_deref(), Some("Couldn't save tagline."));
    assert_eq!(settings_error(false, false).as_deref(), Some("Couldn't save title and tagline."));
}

#[test]
fn taxonomy_editor() {
    assert_eq!(TaxKind::Category.title(), "Categories");
    assert_eq!(TaxKind::Tag.title(), "Tags");
    assert_eq!(TaxKind::Category.placeholder(), "New category");
    assert_eq!(TaxKind::Tag.placeholder(), "New tag");
    assert_eq!(new_term_name("  Rust  "), Some("Rust".to_string()));
    assert_eq!(new_term_name("   "), None);
    assert_eq!(rename_term(" x "), Ok("x".to_string()));
    assert_eq!(rename_term(""), Err("Name can't be empty."));
}

#[test]
fn analytics_chart() {
    assert_eq!(views_peak(&vec![]), 1);
    assert_eq!(views_peak(&vec![0, 0]), 1);
    assert_eq!(views_peak(&vec![3, 9, 4]), 9);
    assert_eq!(bar_height(3, 9), 33);
    assert_eq!(bar_height(9, 9), 100);
    assert_eq!(bar_height(0, 1), 0);
    assert_eq!(live_reaction_count(10, 3), 13);
    let s = AnalyticsSummary { post_count: 1, view_count: 8, reaction_count: 6, ..Default::default() };
    let t = metric_tiles(&s);
    assert_eq!(t.len(), 8);
    assert_eq!(t[0], ("Posts", 1));
    assert_eq!(t[5], ("Reactions", 6));
    assert_eq!(t[7], ("Views", 8));
}

// ------------------------------------------------------------------ widgets and home

#[test]
fn picture_markup() {
    assert_eq!(picture_html("/a.png", "A", "c", None, None, None), None);
    let html = picture_html("/a.png", "A & \"B\" <c>", "h-40", None, Some("w 1w"), Some("a 1w")).unwrap();
    assert_eq!(
        html,
        "<picture><source type=\"image/avif\" srcset=\"a 1w\" sizes=\"100vw\">\
         <source type=\"image/webp\" srcset=\"w 1w\" sizes=\"100vw\">\
         <img class=\"h-40\" src=\"/a.png\" alt=\"A &amp; &quot;B&quot; &lt;c>\" loading=\"lazy\" decoding=\"async\"></picture>"
    );
    let html = picture_html("/a.png", "A", "c", Some("320px"), Some("w"), None).unwrap();
    assert_eq!(
        html,
        "<picture><source type=\"image/webp\" srcset=\"w\" sizes=\"320px\">\
         <img class=\"c\" src=\"/a.png\" alt=\"A\" loading=\"lazy\" decoding=\"async\"></picture>"
    );
}

#[test]
fn pager_states() {
    assert!(pager(1, 1).is_none());
    assert!(pager(1, 0).is_none());
    let p = pager(1, 3).unwrap();
    assert_eq!((p.prev, p.next), (None, Some(2)));
    assert_eq!(p.label, "Page 1 of 3");
    let p = pager(3, 3).unwrap();
    assert_eq!((p.prev, p.next), (Some(2), None));
}

#[test]
fn widget_classes() {
    assert_eq!(bento_tile_class(0), "col-span-2 row-span-2");
    assert_eq!(bento_tile_class(1), "");
    assert!(tag_pill_class(true).contains("bg-brand-500"));
    assert!(!tag_pill_class(false).contains("bg-brand-500 "));
}

#[test]
fn home_layouts() {
    assert_eq!(HomeLayout::default(), HomeLayout::HolyGrail);
    assert_eq!(HomeLayout::HolyGrail.as_key(), "holy_grail");
    assert_eq!(HomeLayout::ScrollSticky.as_key(), "scroll_sticky");
    assert_eq!(HomeLayout::all().len(), 12);
    assert_eq!(HomeLayout::BentoGrid.feed_shape(), FeedShape::Bento);
    assert_eq!(HomeLayout::Masonry.feed_shape(), FeedShape::Masonry);
    assert_eq!(HomeLayout::Editorial.feed_shape(), FeedShape::Grid);
    assert!(HomeLayout::Drawer.shows_taxonomy());
    assert!(!HomeLayout::Drawer.shows_highlights());
    assert!(HomeLayout::ScrollSticky.shows_highlights());
    let keys: Vec<&str> = HomeLayout::all().into_iter().map(|l| l.as_key()).collect();
    for (i, a) in keys.iter().enumerate() {
        for b in &keys[i + 1..] {
            assert_ne!(a, b);
        }
    }
}

#[test]
fn home_meta_and_chrome() {
    let m = home_meta("dx-blog", "", "https://b.ex");
    assert_eq!(m.title, "dx-blog");
    assert_eq!(m.description, "dx-blog — the latest writing from the blog.");
    assert_eq!(m.url, "https://b.ex/");
    let m = home_meta("T", "Tagline", "");
    assert_eq!(m.description, "Tagline");
    assert_eq!(m.url, "/");
    let f = home_meta_fallback("Blog");
    assert_eq!((f.title.as_str(), f.description.as_str(), f.url.as_str()), ("Blog", "", ""));
    assert_eq!(site_title(Some(""), "Blog"), "Blog");
    assert_eq!(site_title(Some("Mine"), "Blog"), "Mine");
    assert_eq!(site_title(None, "Blog"), "Blog");
    assert_eq!(site_tagline(Some("")), None);
    assert_eq!(site_tagline(Some("hi")), Some("hi".to_string()));
    assert_eq!(holy_grail_cols(true, true), "md:grid-cols-[200px_1fr_240px]");
    assert_eq!(holy_grail_cols(false, true), "md:grid-cols-[1fr_240px]");
    assert_eq!(holy_grail_cols(true, false), "md:grid-cols-[200px_1fr]");
    assert_eq!(holy_grail_cols(false, false), "md:grid-cols-[1fr]");
    assert!(drawer_class(true).contains("translate-x-0"));
    assert!(drawer_class(false).contains("-translate-x-full"));
}

// ------------------------------------------------------------------ routes and components

#[test]
fn slug_labels() {
    assert_eq!(slug_to_label("hello-world"), "Hello World");
    assert_eq!(slug_to_label("--a  b-"), "A B");
    assert_eq!(slug_to_label(""), "");
    assert_eq!(slug_to_label("hello-WORLD--x"), "Hello WORLD X");
    assert_eq!(slug_to_label("rust-async-tips"), "Rust Async Tips");
}

#[test]
fn crumbs_of_routes() {
    let c = route_to_crumbs(&Route::PostDetail { slug: "my-post".to_string() });
    assert_eq!(c.len(), 2);
    assert_eq!(c[0].label, "Home");
    assert_eq!(c[0].route, Some(Route::HomePage));
    assert_eq!(c[1].label, "My Post");
    assert_eq!(c[1].route, None);
    let c = route_to_crumbs(&Route::AdminPostEdit { id: 3 });
    let labels: Vec<&str> = c.iter().map(|i| i.label.as_str()).collect();
    assert_eq!(labels, vec!["Admin", "Posts", "Edit Post"]);
    assert_eq!(c[1].route, Some(Route::AdminPostList));
    assert!(route_to_crumbs(&Route::HomePage).is_empty());
    let s = route_to_crumbs(&Route::SearchResults { q: "x".to_string() });
    assert_eq!(s[1].label, "Search Results");
    let s = route_to_crumbs(&Route::SearchResults { q: String::new() });
    assert_eq!(s[1].label, "Search");
    let d = route_to_crumbs(&Route::AdminDashboard);
    assert_eq!(d.len(), 1);
    assert_eq!(d[0].route, None);
}

#[test]
fn admin_landing_follows_nav_order() {
    let held = |ts: &[&str]| ts.iter().map(|t| t.to_string()).collect::<Vec<String>>();
    assert_eq!(admin_landing(&held(&["posts:write", "analytics:read"])), Some(Route::AdminDashboard));
    assert_eq!(admin_landing(&held(&["media:upload", "posts:write"])), Some(Route::AdminPostList));
    assert_eq!(admin_landing(&held(&["settings:write"])), Some(Route::AdminSettings));
    assert_eq!(admin_landing(&held(&["other"])), None);
    assert_eq!(analytics_redirect(true, &held(&["posts:write"])), None);
    assert_eq!(analytics_redirect(false, &held(&["posts:write"])), Some(Route::AdminPostList));
    assert_eq!(analytics_redirect(false, &held(&["analytics:read"])), None);
    assert_eq!(nav_class("posts", "posts"), "rounded-lg bg-white/10 px-3 py-1.5 font-medium");
    assert_eq!(nav_class("posts", "media"), "rounded-lg px-3 py-1.5 text-white/60 hover:bg-white/5 hover:text-white");
}

#[test]
fn component_classes() {
    assert_eq!(join_classes(&["a", "", "b"]), "a b");
    assert_eq!(join_classes(&["", ""]), "");
    assert_eq!(panel_class(PanelVariant::Outlined, PanelPadding::Sm), "rounded-lg border border-white/10 p-2");
    assert_eq!(panel_class(PanelVariant::Outlined, PanelPadding::NoPad), "rounded-lg border border-white/10");
    assert_eq!(
        panel_full_class(PanelVariant::Outlined, PanelPadding::Md, "mb-4"),
        "rounded-lg border border-white/10 p-3 mb-4"
    );
    assert_eq!(error_text_class(true, ""), "text-sm text-red-400");
    assert_eq!(error_text_class(false, "p-2"), "text-red-400 p-2");
}

// ------------------------------------------------------------------ seed and startup

#[test]
fn seed_posts() {
    let p = seed_post(0);
    assert_eq!(p.title, "Demo Post 1: Getting Started");
    assert_eq!(p.slug, "demo-post-1");
    assert_eq!(p.status, "draft");
    assert_eq!(p.published_offset, "-20 days");
    assert_eq!(p.tags, vec![0]);
    assert_eq!(p.excerpt, "A short demo article (1) about rust.");
    assert_eq!(
        p.body_md,
        "This is **demo** post number 1. It covers _rust_ with a short example.\n\n## A subheading\n\n```rust\nfn main() { println!(\"hello from post 1\"); }\n```\n\n- point one\n- point two\n- point three\n\n> A pull quote to make the layout sing."
    );
    assert_eq!(p.body_html, dx_blog::markdown::render_markdown(&p.body_md));
    let p = seed_post(13);
    assert_eq!(p.title, "Demo Post 14: Patterns That Scale");
    assert_eq!(p.status, "published");
    assert_eq!((p.author, p.category), (1, 1));
    assert_eq!(p.tags, vec![3, 4]);
    assert_eq!(p.published_offset, "-7 days");
    assert_eq!(seed_post(19).tags, vec![9, 0]);
    assert_eq!(seed_post(5).tags, vec![5, 6, 7]);
    assert_eq!(seed_tag(9), "open-source");
}

#[test]
fn seed_comments_and_subscribers() {
    let c = seed_comment(0);
    assert_eq!(c.status, "approved");
    assert_eq!(c.post, 0);
    assert_eq!(c.body, "Great write-up — comment #0!");
    match c.commenter {
        SeedCommenter::Guest { name, email } => {
            assert_eq!(name, "Guest 0");
            assert_eq!(email, "guest0@example.com");
        }
        _ => panic!("expected a guest"),
    }
    let c = seed_comment(25);
    assert_eq!(c.status, "pending");
    assert_eq!(c.post, 5);
    assert_eq!(c.body, "Thanks for sharing — comment #25.");
    assert!(matches!(c.commenter, SeedCommenter::Account(1)));
    assert_eq!(seed_subscriber(2), ("subscriber2@example.com".to_string(), true));
    assert_eq!(seed_subscriber(5), ("subscriber5@example.com".to_string(), false));
    assert_eq!(admin_tokens().len(), 7);
    assert_eq!(author_tokens(), vec!["posts:write", "media:upload"]);
}

#[test]
fn startup_settings() {
    assert!(seed_enabled(Some("1")));
    assert!(!seed_enabled(Some("true")));
    assert!(!seed_enabled(None));
    assert_eq!(database_url(Some("sqlite://x.db")), Some("sqlite://x.db"));
    assert_eq!(database_url(Some("  ")), None);
    assert_eq!(database_url(None), None);
    assert_eq!(rate_limit(Some("off"), true), None);
    assert_eq!(rate_limit(None, true), Some(RateLimit { burst: 4096, per_second: 256 }));
    assert_eq!(rate_limit(Some("on"), false), Some(RateLimit { burst: 128, per_second: 16 }));
}

#[test]
fn missing_path_joins_segments() {
    assert_eq!(missing_path(&vec!["a".to_string(), "b".to_string()]), "a/b");
    assert_eq!(missing_path(&vec![]), "");
    assert_eq!(missing_path(&vec!["x".to_string()]), "x");
}

#[test]
fn appearance_settings() {
    let p = theme_presets();
    assert_eq!(p.len(), 8);
    assert_eq!(p[0], ("Sky", 235));
    assert_eq!(p[7], ("Teal", 195));
    assert!(preset_class(235, 235).contains("border-white/50"));
    assert!(preset_class(235, 15).contains("hover:border-white/40"));
    assert_eq!(hue_input("120"), Some(120));
    assert_eq!(hue_input("12.5"), None);
    assert_eq!(theme_style(265), ":root { --brand-hue: 265; }");
    assert_eq!(preview_hue_script(-3), "document.documentElement.style.setProperty('--brand-hue', '-3')");
}

#[test]
fn admin_navigation() {
    let nav = admin_nav();
    assert_eq!(nav.len(), 10);
    assert_eq!((nav[0].label, nav[0].key, nav[0].token), ("Dashboard", "dashboard", "analytics:read"));
    assert_eq!(nav[2].route, Route::AdminPostNew);
    assert_eq!(nav[8].token, "settings:write");
    let held = vec!["media:upload".to_string()];
    assert_eq!(header_admin_route(true, &held), Some(Route::AdminMedia));
    assert_eq!(header_admin_route(false, &held), None);
}

#[test]
fn subscription_and_sign_in_notes() {
    assert_eq!(confirmation_text(true).0, "Subscription confirmed 🎉");
    assert_eq!(confirmation_text(false).0, "Link expired");
    assert_eq!(sign_in_note(SignInOutcome::LoggedIn), None);
    assert_eq!(sign_in_note(SignInOutcome::EmailUnverified), Some("Check your inbox to verify your email, then sign in."));
    assert_eq!(sign_in_note(SignInOutcome::MfaRequired), Some("Two-factor required — finish sign-in from the account page."));
    assert_eq!(shown_error(""), None);
    assert_eq!(shown_error("bad"), Some("bad".to_string()));
    assert!(SUBSCRIBED_MESSAGE.starts_with("Almost there"));
    assert_eq!(LOCAL_CLAP_ID_START, 1_000_000_000);
}

#[test]
fn seed_admin_password_is_operator_set_or_random() {
    let random = "0123456789abcdef0123456789abcdef";
    assert_eq!(admin_seed_password(Some("s3cret"), random), Some("s3cret".to_string()));
    assert_eq!(admin_seed_password(None, random), Some(random.to_string()));
    assert_eq!(admin_seed_password(Some("   "), random), Some(random.to_string()));
    assert_eq!(admin_seed_password(None, "password"), None);
    assert_eq!(admin_seed_password(None, "0123"), None);
    assert_ne!(admin_seed_password(None, random), Some(SEED_PASSWORD.to_string()));
}

#[test]
fn layout_thumbnails_are_nested_sketches() {
    let frame = "flex h-16 w-24 flex-col gap-0.5 overflow-hidden rounded-lg border border-white/10 bg-black/30 p-1";
    let hg = HomeLayout::HolyGrail.thumb();
    assert_eq!(hg.len(), 7);
    assert_eq!(hg[0], (0, frame));
    assert_eq!(hg[4], (2, "flex-1 bg-brand-500/50"));
    let cards = HomeLayout::CardGrid.thumb();
    assert_eq!(cards.iter().filter(|(d, c)| *d == 2 && *c == "bg-brand-500/50").count(), 6);
    assert_eq!(HomeLayout::Drawer.thumb()[0].1, format!("relative {frame}"));
    for l in HomeLayout::all() {
        let t = l.thumb();
        assert_eq!(t[0].0, 0);
        for w in t.windows(2) {
            assert!(w[1].0 >= 1 && w[1].0 <= w[0].0 + 1);
        }
    }
}
