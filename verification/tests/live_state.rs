use dx_blog::live::{
    trim_front, ActivityItem, ActivityKind, AdminEvent, AdminLiveState, LiveEvent, LiveState, MAX_ACTIVITY,
    MAX_CLAPS, MAX_DATA_POINTS,
};
use dx_blog::model::CommentView;

fn comment(id: i64, post_id: i64, body: &str) -> CommentView {
    CommentView {
        id,
        post_id,
        display_name: "Ada".to_string(),
        body: body.to_string(),
        status: "approved".to_string(),
        created_at: "now".to_string(),
    }
}

#[test]
fn new_state_is_inert() {
    let s: LiveState<f64> = LiveState::new();
    assert_eq!(s.reading_now, 0);
    assert!(s.live_comments.is_empty());
    assert!(s.claps.is_empty());
    assert_eq!(s.reaction_count, 0);
    assert!(s.data_points.is_empty());
}

#[test]
fn presence_sets_the_count() {
    let mut s: LiveState<f64> = LiveState::new();
    s.apply(LiveEvent::Presence { count: 3 });
    assert_eq!(s.reading_now, 3);
    s.apply(LiveEvent::Presence { count: 1 });
    assert_eq!(s.reading_now, 1);
}

#[test]
fn comments_are_deduplicated_by_id() {
    let mut s: LiveState<f64> = LiveState::new();
    s.apply(LiveEvent::Comment(comment(1, 7, "first")));
    s.apply(LiveEvent::Comment(comment(2, 7, "second")));
    s.apply(LiveEvent::Comment(comment(1, 7, "resent")));
    assert_eq!(s.live_comments.len(), 2);
    assert_eq!(s.live_comments[0].body, "first");
    assert_eq!(s.live_comments[1].id, 2);
}

#[test]
fn reaction_updates_total_and_adds_a_clap() {
    let mut s: LiveState<f64> = LiveState::new();
    s.apply(LiveEvent::Reaction { kind: "clap".to_string(), total: 12 });
    s.apply(LiveEvent::Reaction { kind: "clap".to_string(), total: 13 });
    assert_eq!(s.reaction_count, 13);
    assert_eq!(s.claps.len(), 2);
    assert_eq!(s.claps[0].id, 1);
    assert_eq!(s.claps[1].id, 2);
    assert_eq!(s.next_clap_id, 2);
}

#[test]
fn claps_are_capped_keeping_the_newest() {
    let mut s: LiveState<f64> = LiveState::new();
    for t in 0..(MAX_CLAPS as i64 + 5) {
        s.apply(LiveEvent::Reaction { kind: "clap".to_string(), total: t });
    }
    assert_eq!(s.claps.len(), MAX_CLAPS);
    assert_eq!(s.claps[0].id, 6);
    assert_eq!(s.claps.last().map(|c| c.id), Some(MAX_CLAPS as u64 + 5));
}

#[test]
fn local_claps_and_clearing() {
    let mut s: LiveState<f64> = LiveState::new();
    s.add_local_clap(1_000_000_000);
    assert_eq!(s.claps.len(), 1);
    assert_eq!(s.claps[0].id, 1_000_000_000);
    assert_eq!(s.claps[0].kind, "clap");
    s.clear_claps();
    assert!(s.claps.is_empty());
}

#[test]
fn data_points_are_kept_per_topic_and_capped() {
    let mut s: LiveState<f64> = LiveState::new();
    for i in 0..(MAX_DATA_POINTS + 10) {
        s.apply(LiveEvent::Data { topic: "cpu".to_string(), value: i as f64 });
    }
    s.apply(LiveEvent::Data { topic: "mem".to_string(), value: 0.5 });
    let cpu = s.recent_samples("cpu", 1000);
    assert_eq!(cpu.len(), MAX_DATA_POINTS);
    assert_eq!(cpu[0], 10.0);
    assert_eq!(*cpu.last().unwrap(), (MAX_DATA_POINTS + 9) as f64);
    assert_eq!(s.recent_samples("mem", 24), vec![0.5]);
    assert_eq!(s.recent_samples("cpu", 3), vec![263.0, 264.0, 265.0]);
    assert!(s.recent_samples("disk", 24).is_empty());
    assert_eq!(s.data_points.len(), 2);
}

#[test]
fn trim_front_keeps_the_last_items() {
    let mut v = vec![1, 2, 3, 4, 5];
    trim_front(&mut v, 2);
    assert_eq!(v, vec![4, 5]);
    let mut w = vec![1, 2];
    trim_front(&mut w, 5);
    assert_eq!(w, vec![1, 2]);
    let mut z = vec![1, 2, 3];
    trim_front(&mut z, 0);
    assert!(z.is_empty());
}

fn admin_comment(id: i64, slug: &str, who: &str, status: &str) -> AdminEvent {
    AdminEvent::Comment {
        id,
        post_title: format!("Title of {slug}"),
        post_slug: slug.to_string(),
        display_name: who.to_string(),
        status: status.to_string(),
    }
}

fn kind_of(it: &ActivityItem) -> String {
    match &it.kind {
        ActivityKind::Comment { id, who, status } => format!("comment {id} {who} {status}"),
        ActivityKind::Reaction { total } => format!("reaction {total}"),
    }
}

#[test]
fn admin_comment_rows_are_updated_in_place() {
    let mut s = AdminLiveState::new();
    s.apply(admin_comment(5, "a", "Ada", "pending"));
    s.apply(admin_comment(6, "b", "Bob", "pending"));
    s.apply(admin_comment(5, "a", "Ada", "approved"));
    assert_eq!(s.comment_tick, 3);
    assert_eq!(s.activity.len(), 2);
    assert_eq!(kind_of(&s.activity[0]), "comment 5 Ada approved");
    assert_eq!(s.activity[0].key, 1);
    assert_eq!(s.activity[1].key, 2);
    assert_eq!(s.next_key, 2);
}

#[test]
fn admin_reactions_coalesce_per_post() {
    let mut s = AdminLiveState::new();
    s.apply(AdminEvent::Reaction { post_slug: "a".to_string(), post_title: "A".to_string(), total: 1 });
    s.apply(admin_comment(9, "a", "Cy", "pending"));
    s.apply(AdminEvent::Reaction { post_slug: "a".to_string(), post_title: "A".to_string(), total: 2 });
    s.apply(AdminEvent::Reaction { post_slug: "b".to_string(), post_title: "B".to_string(), total: 7 });
    assert_eq!(s.reaction_delta, 3);
    assert_eq!(s.comment_tick, 1);
    assert_eq!(s.activity.len(), 3);
    assert_eq!(kind_of(&s.activity[0]), "reaction 2");
    assert_eq!(s.activity[0].post_slug, "a");
    assert_eq!(kind_of(&s.activity[2]), "reaction 7");
}

#[test]
fn admin_removed_comment_disappears() {
    let mut s = AdminLiveState::new();
    s.apply(admin_comment(1, "a", "Ada", "pending"));
    s.apply(AdminEvent::Reaction { post_slug: "a".to_string(), post_title: "A".to_string(), total: 1 });
    s.apply(admin_comment(2, "a", "Bob", "pending"));
    s.apply(AdminEvent::CommentRemoved { id: 1 });
    assert_eq!(s.comment_tick, 3);
    assert_eq!(s.activity.len(), 2);
    assert_eq!(kind_of(&s.activity[0]), "reaction 1");
    assert_eq!(kind_of(&s.activity[1]), "comment 2 Bob pending");
    s.apply(AdminEvent::CommentRemoved { id: 42 });
    assert_eq!(s.activity.len(), 2);
    assert_eq!(s.comment_tick, 4);
}

#[test]
fn admin_activity_is_capped() {
    let mut s = AdminLiveState::new();
    for i in 0..(MAX_ACTIVITY as i64 + 7) {
        s.apply(admin_comment(i, "p", "x", "pending"));
    }
    assert_eq!(s.activity.len(), MAX_ACTIVITY);
    assert_eq!(s.activity[0].key, 8);
    assert_eq!(s.activity.last().map(|it| it.key), Some(MAX_ACTIVITY as u64 + 7));
    for w in s.activity.windows(2) {
        assert!(w[0].key < w[1].key);
    }
}

#[test]
fn adds_row_tells_new_rows_from_updates() {
    let mut s = AdminLiveState::new();
    let first = admin_comment(3, "a", "Ada", "pending");
    assert!(s.adds_row(&first));
    s.apply(first);
    assert!(!s.adds_row(&admin_comment(3, "a", "Ada", "approved")));
    assert!(s.adds_row(&AdminEvent::Reaction { post_slug: "a".to_string(), post_title: "A".to_string(), total: 1 }));
    assert!(!s.adds_row(&AdminEvent::CommentRemoved { id: 3 }));
}

#[test]
fn live_fold_keeps_last_counts_and_every_comment() {
    let mut s: LiveState<f64> = LiveState::new();
    s.apply(LiveEvent::Comment(comment(1, 9, "a")));
    s.apply(LiveEvent::Presence { count: 4 });
    s.apply(LiveEvent::Reaction { kind: "clap".to_string(), total: 10 });
    s.apply(LiveEvent::Comment(comment(2, 9, "b")));
    s.apply(LiveEvent::Reaction { kind: "heart".to_string(), total: 12 });
    s.apply(LiveEvent::Comment(comment(1, 9, "a again")));
    s.apply(LiveEvent::Presence { count: 2 });
    assert_eq!(s.reading_now, 2);
    assert_eq!(s.reaction_count, 12);
    assert_eq!(s.next_clap_id, 2);
    let ids: Vec<i64> = s.live_comments.iter().map(|c| c.id).collect();
    assert_eq!(ids, vec![1, 2]);
}

#[test]
fn admin_fold_counts_comment_and_reaction_events() {
    let mut s = AdminLiveState::new();
    s.apply(AdminEvent::Comment {
        id: 5,
        post_title: "T".to_string(),
        post_slug: "t".to_string(),
        display_name: "Ada".to_string(),
        status: "pending".to_string(),
    });
    s.apply(AdminEvent::Reaction { post_slug: "t".to_string(), post_title: "T".to_string(), total: 3 });
    s.apply(AdminEvent::CommentRemoved { id: 5 });
    s.apply(AdminEvent::Reaction { post_slug: "t".to_string(), post_title: "T".to_string(), total: 4 });
    assert_eq!(s.comment_tick, 2);
    assert_eq!(s.reaction_delta, 2);
}

#[test]
fn removed_comment_stays_gone_after_other_events() {
    let mut s = AdminLiveState::new();
    let c = |id: i64| AdminEvent::Comment {
        id,
        post_title: "T".to_string(),
        post_slug: "t".to_string(),
        display_name: "Ada".to_string(),
        status: "pending".to_string(),
    };
    s.apply(c(5));
    s.apply(c(6));
    s.apply(AdminEvent::CommentRemoved { id: 5 });
    s.apply(AdminEvent::Reaction { post_slug: "t".to_string(), post_title: "T".to_string(), total: 1 });
    s.apply(c(7));
    let has5 = s.activity.iter().any(|it| matches!(it.kind, ActivityKind::Comment { id: 5, .. }));
    assert!(!has5);
    let has6 = s.activity.iter().any(|it| matches!(it.kind, ActivityKind::Comment { id: 6, .. }));
    assert!(has6);
}

#[test]
fn live_run_keeps_caps_and_last_samples() {
    let mut s: LiveState<i64> = LiveState::new();
    for k in 0..(MAX_CLAPS as i64 + 10) {
        s.apply(LiveEvent::Reaction { kind: "clap".to_string(), total: k });
        assert!(s.claps.len() <= MAX_CLAPS);
    }
    for k in 0..(MAX_DATA_POINTS as i64 + 5) {
        s.apply(LiveEvent::Data { topic: "t".to_string(), value: k });
        s.apply(LiveEvent::Data { topic: "u".to_string(), value: -k });
    }
    let series = s.recent_samples("t", MAX_DATA_POINTS);
    assert_eq!(series.len(), MAX_DATA_POINTS);
    assert_eq!(series[0], 5);
    assert_eq!(*series.last().unwrap(), MAX_DATA_POINTS as i64 + 4);
}

#[test]
fn admin_run_keeps_the_feed_capped() {
    let mut s = AdminLiveState::new();
    for id in 0..(MAX_ACTIVITY as i64 + 20) {
        s.apply(AdminEvent::Comment {
            id,
            post_title: "T".to_string(),
            post_slug: "t".to_string(),
            display_name: "Ada".to_string(),
            status: "pending".to_string(),
        });
        assert!(s.activity.len() <= MAX_ACTIVITY);
    }
    let keys: Vec<u64> = s.activity.iter().map(|it| it.key).collect();
    assert!(keys.windows(2).all(|w| w[0] < w[1]));
}
