use dx_blog::embeds::{
    comma_fields, embed_config, parse_i64, parse_u64, parse_usize, prop, prop_or_i64, prop_or_u64,
    prop_or_usize, rnd_ticks, text_or, EmbedConfig,
};
use dx_blog::markdown::render_markdown;
use dx_blog::mdx::{parse_body, parse_body_with, parse_embed_line, parse_props, Props, Segment};

fn pairs(p: &Props) -> Vec<(String, String)> {
    p.to_pairs()
}

fn get(p: &Props, k: &str) -> Option<String> {
    p.get(k).cloned()
}

#[test]
fn props_plain_quoted_and_flags() {
    let p = parse_props(r#" start=3 label="Hello world" flag "#);
    assert_eq!(get(&p, "start"), Some("3".to_string()));
    assert_eq!(get(&p, "label"), Some("Hello world".to_string()));
    assert_eq!(get(&p, "flag"), Some(String::new()));
    assert_eq!(get(&p, "missing"), None);
}

#[test]
fn props_later_key_wins() {
    let p = parse_props("a=1 a=2");
    assert_eq!(get(&p, "a"), Some("2".to_string()));
}

#[test]
fn props_empty_key_is_dropped() {
    let p = parse_props("=x b=2");
    assert_eq!(get(&p, ""), None);
    assert_eq!(get(&p, "b"), Some("2".to_string()));
}

#[test]
fn props_unterminated_quote_takes_rest() {
    let p = parse_props(r#"label="open ended"#);
    assert_eq!(get(&p, "label"), Some("open ended".to_string()));
}

#[test]
fn props_empty_input() {
    let p = parse_props("   ");
    assert!(pairs(&p).is_empty());
}

#[test]
fn embed_line_recognized() {
    let r = parse_embed_line("  [[component:counter start=5 step=2]]  ");
    let (name, props) = r.expect("an embed line");
    assert_eq!(name, "counter");
    assert_eq!(get(&props, "start"), Some("5".to_string()));
    assert_eq!(get(&props, "step"), Some("2".to_string()));
}

#[test]
fn embed_line_name_only() {
    let (name, props) = parse_embed_line("[[component:tweak]]").expect("an embed line");
    assert_eq!(name, "tweak");
    assert!(pairs(&props).is_empty());
}

#[test]
fn embed_line_spaces_inside_brackets() {
    let (name, _) = parse_embed_line("[[ component:live-chart_2 ]]").expect("an embed line");
    assert_eq!(name, "live-chart_2");
}

#[test]
fn embed_line_rejected() {
    assert!(parse_embed_line("[[component:]]").is_none());
    assert!(parse_embed_line("[[component:bad!name]]").is_none());
    assert!(parse_embed_line("[[widget:counter]]").is_none());
    assert!(parse_embed_line("[[component:counter").is_none());
    assert!(parse_embed_line("text [[component:counter]]").is_none());
    assert!(parse_embed_line("").is_none());
}

#[test]
fn body_with_interleaves_runs_and_embeds() {
    let segs = parse_body_with("Hello\n[[component:tweak]]\nWorld", |s: &str| format!("<{}>", s));
    assert_eq!(segs.len(), 3);
    assert_eq!(segs[0], Segment::Html("<Hello\n>".to_string()));
    match &segs[1] {
        Segment::Embed { name, props } => {
            assert_eq!(name, "tweak");
            assert!(pairs(props).is_empty());
        }
        _ => panic!("expected an embed"),
    }
    assert_eq!(segs[2], Segment::Html("<World\n>".to_string()));
}

#[test]
fn body_with_skips_blank_runs() {
    let segs = parse_body_with("[[component:a]]\n\n  \n[[component:b]]\n", |s: &str| s.to_string());
    assert_eq!(segs.len(), 2);
    assert!(matches!(&segs[0], Segment::Embed { name, .. } if name == "a"));
    assert!(matches!(&segs[1], Segment::Embed { name, .. } if name == "b"));
}

#[test]
fn body_with_crlf_lines() {
    let segs = parse_body_with("a\r\nb\n[[component:x]]", |s: &str| s.to_string());
    assert_eq!(segs.len(), 2);
    assert_eq!(segs[0], Segment::Html("a\nb\n".to_string()));
}

#[test]
fn body_with_empty_input() {
    let segs = parse_body_with("", |s: &str| format!("<{}>", s));
    assert_eq!(segs, vec![Segment::Html("<>".to_string())]);
}

#[test]
fn body_without_embeds_is_one_rendered_run() {
    let segs = parse_body("Hello");
    assert_eq!(segs, vec![Segment::Html(render_markdown("Hello"))]);
    assert_eq!(segs, vec![Segment::Html("<p>Hello</p>\n".to_string())]);
    let md = "# Title\r\n\n  text  \n";
    assert_eq!(parse_body(md), vec![Segment::Html(render_markdown(md))]);
}

#[test]
fn render_markdown_renders_and_sanitizes() {
    assert_eq!(render_markdown("**bold**"), "<p><strong>bold</strong></p>\n");
    let html = render_markdown("<script>alert(1)</script>\n\nok");
    assert!(!html.contains("<script>"));
    assert!(html.contains("<p>ok</p>"));
}

#[test]
fn props_insert_and_get() {
    let mut p = Props::new();
    p.insert("k".to_string(), "v1".to_string());
    p.insert("k".to_string(), "v2".to_string());
    assert_eq!(get(&p, "k"), Some("v2".to_string()));
}

#[test]
fn prop_trims_and_drops_empty() {
    let p = parse_props(r#"a="  x  " b="   " "#);
    assert_eq!(prop(&p, "a"), Some("x"));
    assert_eq!(prop(&p, "b"), None);
    assert_eq!(prop(&p, "c"), None);
}

#[test]
fn prop_or_parses_or_falls_back() {
    let p = parse_props("n=42 bad=x4 neg=-7 big=99999999999999999999");
    assert_eq!(prop_or_i64(&p, "n", 0), 42);
    assert_eq!(prop_or_i64(&p, "bad", 9), 9);
    assert_eq!(prop_or_i64(&p, "neg", 0), -7);
    assert_eq!(prop_or_i64(&p, "big", 1), 1);
    assert_eq!(prop_or_u64(&p, "neg", 5), 5);
    assert_eq!(prop_or_usize(&p, "n", 0), 42);
    assert_eq!(text_or(&p, "missing", "dflt"), "dflt");
}

#[test]
fn integer_parsing_matches_from_str() {
    assert_eq!(parse_i64("+12"), Some(12));
    assert_eq!(parse_i64("-9223372036854775808"), Some(i64::MIN));
    assert_eq!(parse_i64("9223372036854775808"), None);
    assert_eq!(parse_i64(""), None);
    assert_eq!(parse_i64("-"), None);
    assert_eq!(parse_i64(" 1"), None);
    assert_eq!(parse_u64("18446744073709551615"), Some(u64::MAX));
    assert_eq!(parse_u64("-1"), None);
    assert_eq!(parse_usize("+0"), Some(0));
}

#[test]
fn comma_fields_splits_and_trims() {
    assert_eq!(comma_fields(" 3, 7 ,2,"), vec!["3", "7", "2", ""]);
    assert_eq!(comma_fields(""), vec![""]);
}

#[test]
fn config_counter_defaults_and_values() {
    let c = embed_config("counter", &parse_props(""));
    assert_eq!(c, EmbedConfig::Counter { start: 0, step: 1, label: "Counter".to_string() });
    let c = embed_config("counter", &parse_props(r#"start=10 step=-2 label="Clicks""#));
    assert_eq!(c, EmbedConfig::Counter { start: 10, step: -2, label: "Clicks".to_string() });
}

#[test]
fn config_chart() {
    let c = embed_config("chart", &parse_props(r#"data="3, 7,x" kind=line"#));
    assert_eq!(
        c,
        EmbedConfig::Chart {
            data: vec!["3".to_string(), "7".to_string(), "x".to_string()],
            kind: "line".to_string(),
            color: "#6366f1".to_string(),
        }
    );
}

#[test]
fn config_livechart_clamps_window() {
    let c = embed_config("livechart", &parse_props("window=1000"));
    assert_eq!(
        c,
        EmbedConfig::LiveChart {
            topic: "live".to_string(),
            window: 200,
            color: "#22d3ee".to_string(),
            label: "Live feed".to_string(),
        }
    );
    let c = embed_config("livechart", &parse_props("window=1 topic=cpu"));
    assert!(matches!(c, EmbedConfig::LiveChart { window: 2, ref topic, .. } if topic == "cpu"));
}

#[test]
fn config_stockchart_and_ticker_alias() {
    let c = embed_config("ticker", &parse_props("interval=50 window=2 start=120.5"));
    assert_eq!(
        c,
        EmbedConfig::StockChart {
            symbol: "ACME".to_string(),
            period_ms: 200,
            window: 4,
            start: Some("120.5".to_string()),
        }
    );
    let c = embed_config("stockchart", &parse_props(""));
    assert_eq!(
        c,
        EmbedConfig::StockChart { symbol: "ACME".to_string(), period_ms: 1000, window: 32, start: None }
    );
}

#[test]
fn config_tweak_and_unknown() {
    assert_eq!(embed_config("tweak", &parse_props("")), EmbedConfig::Tweak { label: "Frequency".to_string() });
    assert_eq!(embed_config("mystery", &parse_props("")), EmbedConfig::Unknown { name: "mystery".to_string() });
}

fn rnd_reference(step: u64, salt: u64) -> u64 {
    let mut x = step.wrapping_mul(2_654_435_761).wrapping_add(salt.wrapping_mul(40_503));
    x ^= x >> 13;
    x = x.wrapping_mul(0x9E37_79B9_7F4A_7C15);
    x ^= x >> 7;
    x % 1_000_000
}

#[test]
fn rnd_ticks_is_the_hashed_walk() {
    for (s, t) in [(0u64, 0u64), (1, 1), (7, 3), (u64::MAX, 4), (123456789, 2)] {
        assert_eq!(rnd_ticks(s, t), rnd_reference(s, t));
        assert!(rnd_ticks(s, t) < 1_000_000);
    }
    assert_eq!(rnd_ticks(0, 0), 0);
}

#[test]
fn body_without_embeds_is_passed_whole_to_the_renderer() {
    let md = "one\r\ntwo";
    let segs = parse_body_with(md, |s: &str| format!("[{}]", s));
    assert_eq!(segs, vec![Segment::Html("[one\r\ntwo]".to_string())]);
    let blank = parse_body_with("  \n ", |s: &str| format!("[{}]", s));
    assert_eq!(blank, vec![Segment::Html("[  \n ]".to_string())]);
}

#[test]
fn body_blocks_keep_embed_order_and_separate_prose() {
    let segs = parse_body_with("intro\n[[component:counter start=3]]\noutro", |s: &str| s.to_string());
    assert_eq!(segs.len(), 3);
    assert_eq!(segs[0], Segment::Html("intro\n".to_string()));
    match &segs[1] {
        Segment::Embed { name, props } => {
            assert_eq!(name, "counter");
            assert_eq!(pairs(props), vec![("start".to_string(), "3".to_string())]);
        }
        _ => panic!("expected an embed"),
    }
    assert_eq!(segs[2], Segment::Html("outro\n".to_string()));
}

#[test]
fn embed_names_are_letters_digits_dash_underscore() {
    let (name, props) = parse_embed_line(r#"  [[component:counter start=0 step=1 label="Clicks"]]  "#).unwrap();
    assert_eq!(name, "counter");
    assert_eq!(get(&props, "label"), Some("Clicks".to_string()));
    assert_eq!(get(&props, "start"), Some("0".to_string()));
    assert_eq!(get(&props, "step"), Some("1".to_string()));
    for line in ["[[component:]]", "[[component:my.widget x=1]]", "see [[component:counter]] here", "[[Component:counter]]", "[[component:counter]"] {
        assert!(parse_embed_line(line).is_none(), "{line}");
    }
    assert_eq!(parse_embed_line("[[component:my-widget_2]]").unwrap().0, "my-widget_2");
    assert_eq!(parse_embed_line("[[component:grüße]]").unwrap().0, "grüße");
}

#[test]
fn embed_line_ignores_surrounding_whitespace() {
    let line = " \t[[component:chart series=\"a b\"]] ";
    let a = parse_embed_line(line).unwrap();
    let b = parse_embed_line(line.trim()).unwrap();
    assert_eq!(a.0, b.0);
    assert_eq!(pairs(&a.1), pairs(&b.1));
}

#[test]
fn prop_tokens_with_distinct_keys_commute() {
    let ab = parse_props(r#"a=1 b="x y""#);
    let ba = parse_props(r#"b="x y" a=1"#);
    assert_eq!(get(&ab, "a"), get(&ba, "a"));
    assert_eq!(get(&ab, "b"), get(&ba, "b"));
    assert_eq!(get(&ab, "b"), Some("x y".to_string()));
    let flag = parse_props("flag");
    assert_eq!(pairs(&flag), vec![("flag".to_string(), String::new())]);
}

#[test]
fn prop_keys_are_never_empty() {
    let p = parse_props("=x a==b  c");
    for (k, _) in pairs(&p) {
        assert!(!k.is_empty() && !k.contains('=') && !k.chars().any(char::is_whitespace));
    }
}

#[test]
fn props_are_a_sorted_map() {
    let ab = parse_props("b=2 a=1");
    assert_eq!(pairs(&ab), vec![("a".to_string(), "1".to_string()), ("b".to_string(), "2".to_string())]);
    assert_eq!(ab, parse_props("a=1 b=2"));
    assert_eq!(ab.clone(), ab);
    let dup = parse_props("a=1 a=2");
    assert_eq!(pairs(&dup), vec![("a".to_string(), "2".to_string())]);
    let mut p = Props::new();
    p.insert("zeta".to_string(), "z".to_string());
    p.insert("Zeta".to_string(), "Z".to_string());
    p.insert("alpha".to_string(), "a".to_string());
    let keys: Vec<String> = pairs(&p).into_iter().map(|(k, _)| k).collect();
    assert_eq!(keys, vec!["Zeta", "alpha", "zeta"]);
}
