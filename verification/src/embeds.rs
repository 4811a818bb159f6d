//! Reading an embed block's string prop bag into the typed settings of the
//! component it names. Props arrive as strings; only the keys each component
//! understands are read, with fallbacks, so an author typo degrades gracefully.
use vstd::prelude::*;
use vstd::string::StrSliceExecFns;

use crate::mdx::Props;
use crate::text::{
    all_digits, chars_of, digits_value, is_digit, lead, lemma_lead_bound, not_char_pred,
    parse_signed, parse_unsigned, str_eq, string_of, trim, trim_bounds,
};

verus! {

// ------------------------------------------------------------------ spec

/// A prop's value, trimmed, when present and not blank.
pub open spec fn prop_value(m: Map<Seq<char>, Seq<char>>, key: Seq<char>) -> Option<Seq<char>> {
    if m.dom().contains(key) && trim(m[key]).len() > 0 {
        Some(trim(m[key]))
    } else {
        None
    }
}

/// A text prop, or `default` when absent or blank.
pub open spec fn text_prop_or(m: Map<Seq<char>, Seq<char>>, key: Seq<char>, default: Seq<char>) -> Seq<char> {
    match prop_value(m, key) {
        Some(v) => v,
        None => default,
    }
}

/// An `i64` prop, or `default` when absent, blank or not an `i64`.
pub open spec fn i64_prop_or(m: Map<Seq<char>, Seq<char>>, key: Seq<char>, default: int) -> int {
    match prop_value(m, key) {
        Some(v) => match parse_signed(v) {
            Some(x) => if i64::MIN <= x <= i64::MAX {
                x
            } else {
                default
            },
            None => default,
        },
        None => default,
    }
}

/// An unsigned prop below `limit`, or `default` when absent, blank or not one.
pub open spec fn unsigned_prop_or(
    m: Map<Seq<char>, Seq<char>>,
    key: Seq<char>,
    limit: int,
    default: int,
) -> int {
    match prop_value(m, key) {
        Some(v) => match parse_unsigned(v) {
            Some(x) => if x <= limit {
                x
            } else {
                default
            },
            None => default,
        },
        None => default,
    }
}

/// `x` held to `lo..=hi`.
pub open spec fn clamp(x: int, lo: int, hi: int) -> int {
    if x < lo {
        lo
    } else if x > hi {
        hi
    } else {
        x
    }
}

/// The pieces of `s` between occurrences of `c`; at least one piece.
pub open spec fn split_on(s: Seq<char>, c: char) -> Seq<Seq<char>>
    decreases s.len(),
{
    let k = lead(s, not_char_pred(c));
    if k >= s.len() {
        seq![s]
    } else {
        seq![s.take(k as int)] + split_on(s.skip((k + 1) as int), c)
    }
}

// ------------------------------------------------------------------ integer parsing

/// Splits an optional sign off `v`: (negative, first digit index).
fn sign_split(v: &Vec<char>, signed: bool) -> (r: (bool, usize))
    ensures
        r.1 <= v.len(),
        v.len() > 0 && v@[0] == '-' && signed ==> r == (true, 1usize),
        v.len() > 0 && v@[0] == '+' ==> r == (false, 1usize),
        !(v.len() > 0 && (v@[0] == '+' || (v@[0] == '-' && signed))) ==> r == (false, 0usize),
{
    if v.len() > 0 && v[0] == '-' && signed {
        (true, 1)
    } else if v.len() > 0 && v[0] == '+' {
        (false, 1)
    } else {
        (false, 0)
    }
}

/// Whether `v[lo..]` is all ASCII digits.
fn digits_from(v: &Vec<char>, lo: usize) -> (b: bool)
    requires
        lo <= v.len(),
    ensures
        b == all_digits(v@.skip(lo as int)),
{
    let mut i: usize = lo;
    while i < v.len()
        invariant
            lo <= i <= v.len(),
            forall|j: int| lo <= j < i ==> is_digit(#[trigger] v@[j]),
        decreases v.len() - i,
    {
        if !(v[i] >= '0' && v[i] <= '9') {
            assert(v@.skip(lo as int)[i - lo] == v@[i as int]);
            return false;
        }
        i += 1;
    }
    assert forall|j: int| 0 <= j < v@.skip(lo as int).len() implies is_digit(
        #[trigger] v@.skip(lo as int)[j],
    ) by {
        assert(v@.skip(lo as int)[j] == v@[lo + j]);
    }
    true
}

/// Value of the digits of `v[lo..]`, or `None` above `limit`.
fn digits_value_upto(v: &Vec<char>, lo: usize, limit: u64) -> (r: Option<u64>)
    requires
        lo <= v.len(),
        all_digits(v@.skip(lo as int)),
    ensures
        match r {
            Some(x) => x == digits_value(v@.skip(lo as int)) && x <= limit,
            None => digits_value(v@.skip(lo as int)) > limit,
        },
{
    let mut acc: u64 = 0;
    let mut i: usize = lo;
    while i < v.len()
        invariant
            lo <= i <= v.len(),
            all_digits(v@.skip(lo as int)),
            acc == digits_value(v@.subrange(lo as int, i as int)),
            acc <= limit,
        decreases v.len() - i,
    {
        let ghost pre = v@.subrange(lo as int, i as int);
        let ghost next = v@.subrange(lo as int, i + 1);
        assert(next.drop_last() =~= pre);
        assert(next.last() == v@[i as int]);
        assert(v@.skip(lo as int)[i - lo] == v@[i as int]);
        let d: u64 = (v[i] as u32 - 48) as u64;
        if d > limit || acc > (limit - d) / 10 {
            proof {
                if d <= limit {
                    assert(acc * 10 + d > limit) by (nonlinear_arith)
                        requires
                            acc > (limit - d) / 10,
                            d <= limit,
                    ;
                }
                crate::text::lemma_digits_value_mono(v@.skip(lo as int), i + 1 - lo);
                assert(v@.skip(lo as int).take(i + 1 - lo) =~= next);
            }
            return None;
        }
        proof {
            assert(acc * 10 + d <= limit) by (nonlinear_arith)
                requires
                    acc <= (limit - d) / 10,
                    limit >= d,
            ;
        }
        acc = acc * 10 + d;
        i += 1;
    }
    assert(v@.subrange(lo as int, i as int) =~= v@.skip(lo as int));
    Some(acc)
}

/// `i64::from_str`: an optional sign and one or more ASCII digits, in range.
pub fn parse_i64(s: &str) -> (r: Option<i64>)
    ensures
        r == (match parse_signed(s@) {
            Some(x) => if i64::MIN <= x <= i64::MAX {
                Some(x as i64)
            } else {
                None
            },
            None => None,
        }),
{
    let v = chars_of(s);
    let (neg, start) = sign_split(&v, true);
    proof {
        if start == 1 {
            assert(v@.skip(1) =~= v@.drop_first());
        } else {
            assert(v@.skip(0) =~= v@);
        }
    }
    if start >= v.len() || !digits_from(&v, start) {
        return None;
    }
    if neg {
        match digits_value_upto(&v, start, 9223372036854775808u64) {
            Some(m) => {
                if m == 9223372036854775808u64 {
                    Some(i64::MIN)
                } else {
                    Some(-(m as i64))
                }
            },
            None => None,
        }
    } else {
        match digits_value_upto(&v, start, 9223372036854775807u64) {
            Some(m) => Some(m as i64),
            None => None,
        }
    }
}

/// `u64::from_str`: an optional `+` and one or more ASCII digits, in range.
pub fn parse_u64(s: &str) -> (r: Option<u64>)
    ensures
        r == (match parse_unsigned(s@) {
            Some(x) => if x <= u64::MAX {
                Some(x as u64)
            } else {
                None
            },
            None => None,
        }),
{
    let v = chars_of(s);
    let (neg, start) = sign_split(&v, false);
    proof {
        if start == 1 {
            assert(v@.skip(1) =~= v@.drop_first());
        } else {
            assert(v@.skip(0) =~= v@);
        }
    }
    if v.len() > 0 && v[0] == '-' {
        return None;
    }
    if start >= v.len() || !digits_from(&v, start) {
        return None;
    }
    digits_value_upto(&v, start, u64::MAX)
}

/// `usize::from_str`: an optional `+` and one or more ASCII digits, in range.
pub fn parse_usize(s: &str) -> (r: Option<usize>)
    ensures
        r == (match parse_unsigned(s@) {
            Some(x) => if x <= usize::MAX {
                Some(x as usize)
            } else {
                None
            },
            None => None,
        }),
{
    match parse_u64(s) {
        Some(x) => {
            if x as u128 <= usize::MAX as u128 {
                Some(x as usize)
            } else {
                None
            }
        },
        None => None,
    }
}

// ------------------------------------------------------------------ props

/// Look up a prop, returning it trimmed if present and non-empty.
pub fn prop<'a>(props: &'a Props, key: &str) -> (r: Option<&'a str>)
    ensures
        match r {
            Some(v) => prop_value(props@, key@) == Some(v@),
            None => prop_value(props@, key@) is None,
        },
{
    match props.get(key) {
        Some(val) => {
            let v = chars_of(val.as_str());
            let (a, b) = trim_bounds(&v, 0, v.len());
            proof {
                assert(v@.subrange(0, v@.len() as int) =~= v@);
            }
            if a < b {
                Some(val.as_str().substring_char(a, b))
            } else {
                None
            }
        },
        None => None,
    }
}

/// A text prop, or `default`.
pub fn text_or(props: &Props, key: &str, default: &str) -> (s: String)
    ensures
        s@ == text_prop_or(props@, key@, default@),
{
    match prop(props, key) {
        Some(v) => crate::text::string_from(v),
        None => crate::text::string_from(default),
    }
}

/// An `i64` prop, or `default` when absent or unparsable.
pub fn prop_or_i64(props: &Props, key: &str, default: i64) -> (x: i64)
    ensures
        x == i64_prop_or(props@, key@, default as int),
{
    match prop(props, key) {
        Some(v) => match parse_i64(v) {
            Some(x) => x,
            None => default,
        },
        None => default,
    }
}

/// A `u64` prop, or `default` when absent or unparsable.
pub fn prop_or_u64(props: &Props, key: &str, default: u64) -> (x: u64)
    ensures
        x == unsigned_prop_or(props@, key@, u64::MAX as int, default as int),
{
    match prop(props, key) {
        Some(v) => match parse_u64(v) {
            Some(x) => x,
            None => default,
        },
        None => default,
    }
}

/// A `usize` prop, or `default` when absent or unparsable.
pub fn prop_or_usize(props: &Props, key: &str, default: usize) -> (x: usize)
    ensures
        x == unsigned_prop_or(props@, key@, usize::MAX as int, default as int),
{
    match prop(props, key) {
        Some(v) => match parse_usize(v) {
            Some(x) => x,
            None => default,
        },
        None => default,
    }
}

/// The comma-separated fields of `s`, each trimmed.
pub fn comma_fields(s: &str) -> (out: Vec<String>)
    ensures
        out@.len() == split_on(s@, ',').len(),
        forall|i: int| 0 <= i < out@.len() ==> (#[trigger] out@[i])@ == trim(split_on(s@, ',')[i]),
{
    let v = chars_of(s);
    let n = v.len();
    let mut out: Vec<String> = Vec::new();
    let mut pos: usize = 0;
    let ghost mut done: Seq<Seq<char>> = seq![];
    proof {
        assert(v@.skip(0) =~= v@);
    }
    let mut finished = false;
    while !finished
        invariant
            n == v.len(),
            v@ == s@,
            pos <= n,
            !finished ==> split_on(s@, ',') == done + split_on(v@.skip(pos as int), ','),
            finished ==> split_on(s@, ',') == done,
            out@.len() == done.len(),
            forall|i: int| 0 <= i < out@.len() ==> (#[trigger] out@[i])@ == trim(done[i]),
        decreases n - pos + (if finished {
            0int
        } else {
            1int
        }),
    {
        let ghost t = v@.skip(pos as int);
        let e = crate::text::find_char(&v, pos, n, ',');
        let (a, b) = trim_bounds(&v, pos, e);
        let piece = string_of(&v, a, b);
        proof {
            assert(v@.subrange(pos as int, n as int) =~= t);
            assert(t.take((e - pos) as int) =~= v@.subrange(pos as int, e as int));
        }
        out.push(piece);
        if e >= n {
            proof {
                assert(t =~= v@.subrange(pos as int, e as int));
                assert(split_on(t, ',') == seq![t]);
                done = done.push(t);
                assert(split_on(s@, ',') =~= done);
            }
            finished = true;
        } else {
            proof {
                assert(t.skip((e - pos + 1) as int) =~= v@.skip(e + 1));
                let ghost old_done = done;
                done = done.push(v@.subrange(pos as int, e as int));
                assert(old_done + split_on(t, ',') =~= done + split_on(v@.skip(e + 1), ','));
            }
            pos = e + 1;
        }
    }
    out
}

// ------------------------------------------------------------------ dispatch

/// The typed settings of an embed block, per component.
#[derive(Debug, Clone, PartialEq, Eq)]
pub enum EmbedConfig {
    /// `[[component:counter start=0 step=1 label="..."]]`
    Counter { start: i64, step: i64, label: String },
    /// `[[component:chart data="3,7,2,9" kind="bar|line" color="#..."]]`; the
    /// data fields are handed over unparsed, one per comma-separated entry.
    Chart { data: Vec<String>, kind: String, color: String },
    /// `[[component:tweak label="..."]]`
    Tweak { label: String },
    /// `[[component:livechart topic="cpu" window=24 color="#..." label="..."]]`
    LiveChart { topic: String, window: usize, color: String, label: String },
    /// `[[component:stockchart symbol="ACME" interval=1000 window=32 start=100]]`
    /// (alias `ticker`); the start price is handed over unparsed.
    StockChart { symbol: String, period_ms: u64, window: usize, start: Option<String> },
    /// Any other name.
    Unknown { name: String },
}

/// Dispatch a parsed embed block to its component's typed settings.
pub fn embed_config(name: &str, props: &Props) -> (c: EmbedConfig)
    ensures
        name@ == "counter"@ ==> (c matches EmbedConfig::Counter { start, step, label } && start
            == i64_prop_or(props@, "start"@, 0) && step == i64_prop_or(props@, "step"@, 1)
            && label@ == text_prop_or(props@, "label"@, "Counter"@)),
        name@ == "chart"@ ==> (c matches EmbedConfig::Chart { data, kind, color } && data@.len()
            == split_on(text_prop_or(props@, "data"@, seq![]), ',').len() && (forall|i: int|
            0 <= i < data@.len() ==> (#[trigger] data@[i])@ == trim(
                split_on(text_prop_or(props@, "data"@, seq![]), ',')[i],
            )) && kind@ == text_prop_or(props@, "kind"@, "bar"@) && color@ == text_prop_or(
            props@,
            "color"@,
            "#6366f1"@,
        )),
        name@ == "tweak"@ ==> (c matches EmbedConfig::Tweak { label } && label@ == text_prop_or(
            props@,
            "label"@,
            "Frequency"@,
        )),
        name@ == "livechart"@ ==> (c matches EmbedConfig::LiveChart { topic, window, color, label }
            && topic@ == text_prop_or(props@, "topic"@, "live"@) && window == clamp(
            unsigned_prop_or(props@, "window"@, usize::MAX as int, 24),
            2,
            200,
        ) && color@ == text_prop_or(props@, "color"@, "#22d3ee"@) && label@ == text_prop_or(
            props@,
            "label"@,
            "Live feed"@,
        )),
        name@ == "stockchart"@ || name@ == "ticker"@ ==> (c matches EmbedConfig::StockChart {
            symbol,
            period_ms,
            window,
            start,
        } && symbol@ == text_prop_or(props@, "symbol"@, "ACME"@) && period_ms == (if unsigned_prop_or(
            props@,
            "interval"@,
            u64::MAX as int,
            1000,
        ) >= 200 {
            unsigned_prop_or(props@, "interval"@, u64::MAX as int, 1000)
        } else {
            200
        }) && window == clamp(unsigned_prop_or(props@, "window"@, usize::MAX as int, 32), 4, 200)
            && match start {
            Some(st) => prop_value(props@, "start"@) == Some(st@),
            None => prop_value(props@, "start"@) is None,
        }),
        !(name@ == "counter"@ || name@ == "chart"@ || name@ == "tweak"@ || name@ == "livechart"@
            || name@ == "stockchart"@ || name@ == "ticker"@) ==> (c matches EmbedConfig::Unknown {
            name: n,
        } && n@ == name@),
{
    proof {
        reveal_strlit("counter");
        reveal_strlit("chart");
        reveal_strlit("tweak");
        reveal_strlit("livechart");
        reveal_strlit("stockchart");
        reveal_strlit("ticker");
        assert("counter"@.len() == 7);
        assert("chart"@.len() == 5 && "chart"@[0] == 'c');
        assert("tweak"@.len() == 5 && "tweak"@[0] == 't');
        assert("livechart"@.len() == 9);
        assert("stockchart"@.len() == 10);
        assert("ticker"@.len() == 6);
        assert("chart"@ != "tweak"@);
    }
    if str_eq(name, "counter") {
        EmbedConfig::Counter {
            start: prop_or_i64(props, "start", 0),
            step: prop_or_i64(props, "step", 1),
            label: text_or(props, "label", "Counter"),
        }
    } else if str_eq(name, "chart") {
        let raw = text_or(props, "data", "");
        proof {
            reveal_strlit("");
            assert(""@ =~= Seq::<char>::empty());
        }
        EmbedConfig::Chart {
            data: comma_fields(raw.as_str()),
            kind: text_or(props, "kind", "bar"),
            color: text_or(props, "color", "#6366f1"),
        }
    } else if str_eq(name, "tweak") {
        EmbedConfig::Tweak { label: text_or(props, "label", "Frequency") }
    } else if str_eq(name, "livechart") {
        let w = prop_or_usize(props, "window", 24);
        let window = if w < 2 {
            2
        } else if w > 200 {
            200
        } else {
            w
        };
        EmbedConfig::LiveChart {
            topic: text_or(props, "topic", "live"),
            window,
            color: text_or(props, "color", "#22d3ee"),
            label: text_or(props, "label", "Live feed"),
        }
    } else if str_eq(name, "stockchart") || str_eq(name, "ticker") {
        let p = prop_or_u64(props, "interval", 1000);
        let w = prop_or_usize(props, "window", 32);
        let window = if w < 4 {
            4
        } else if w > 200 {
            200
        } else {
            w
        };
        let start = match prop(props, "start") {
            Some(v) => Some(crate::text::string_from(v)),
            None => None,
        };
        EmbedConfig::StockChart {
            symbol: text_or(props, "symbol", "ACME"),
            period_ms: if p >= 200 {
                p
            } else {
                200
            },
            window,
            start,
        }
    } else {
        EmbedConfig::Unknown { name: crate::text::string_from(name) }
    }
}

// ------------------------------------------------------------------ hashed walk

/// The hashed pseudo-random tick in `0..1_000_000` drawn from `(step, salt)`.
pub open spec fn rnd_ticks_of(step: u64, salt: u64) -> u64 {
    let x0 = vstd::wrapping::u64_specs::wrapping_add(
        vstd::wrapping::u64_specs::wrapping_mul(step, 2_654_435_761),
        vstd::wrapping::u64_specs::wrapping_mul(salt, 40_503),
    );
    let x1 = x0 ^ (x0 >> 13u64);
    let x2 = vstd::wrapping::u64_specs::wrapping_mul(x1, 0x9E37_79B9_7F4A_7C15);
    let x3 = x2 ^ (x2 >> 7u64);
    x3 % 1_000_000
}

/// Cheap hashed pseudo-random tick from `(step, salt)`; dividing by a million
/// gives a deterministic sample in `[0, 1)`.
pub fn rnd_ticks(step: u64, salt: u64) -> (t: u64)
    ensures
        t == rnd_ticks_of(step, salt),
        t < 1_000_000,
{
    let mut x = step.wrapping_mul(2_654_435_761).wrapping_add(salt.wrapping_mul(40_503));
    x = x ^ (x >> 13u64);
    x = x.wrapping_mul(0x9E37_79B9_7F4A_7C15);
    x = x ^ (x >> 7u64);
    x % 1_000_000
}

} // verus!
