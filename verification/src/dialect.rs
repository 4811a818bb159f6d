//! SQL fragments where the two supported databases disagree on syntax. The
//! blog runs on SQLite: `NOW`, `RANDOM_HEX_16` and `now_offset` are its forms,
//! and the functions that take a `Dialect` give Postgres's as well.
//! Placeholders are written `$N` for both (SQLite accepts it as a positional
//! parameter).
use vstd::prelude::*;

use crate::text::{dec, is_digit, lemma_dec_injective, lemma_dec_len, push_str, string_from, usize_digits};


verus! {

/// Server-side "now" expression (an ISO 8601 string, UTC).
pub const NOW: &'static str = "datetime('now')";

/// 16 random bytes as a 32-char lowercase hex string, computed by the database.
pub const RANDOM_HEX_16: &'static str = "lower(hex(randomblob(16)))";

/// `(datetime('now', $N))`: now, moved by the modifier bound at placeholder
/// `N`, in parentheses.
pub open spec fn now_offset_of(placeholder: nat) -> Seq<char> {
    "(datetime('now', $"@ + dec(placeholder) + "))"@
}

/// "Now + bound offset" at the given placeholder index: the bind value (e.g.
/// `"-24 hours"`, `"-15 minutes"`) is read as a `datetime()` modifier.
/// Returned parenthesized, so it composes cleanly inside comparisons.
pub fn now_offset(placeholder: usize) -> (sql: String)
    ensures
        sql@ == now_offset_of(placeholder as nat),
{
    let mut s = string_from("(datetime('now', $");
    let d = usize_digits(placeholder);
    push_str(&mut s, d.as_str());
    push_str(&mut s, "))");
    proof {
        reveal_strlit("))");
    }
    s
}

/// The database a query is written for.
#[derive(Clone, Copy, Debug, PartialEq, Eq)]
pub enum Dialect {
    Sqlite,
    Postgres,
}

/// The server-side "now" expression of a dialect.
pub open spec fn now_in_of(d: Dialect) -> Seq<char> {
    match d {
        Dialect::Sqlite => NOW@,
        Dialect::Postgres => "NOW()"@,
    }
}

/// Server-side "now": `datetime('now')` in SQLite (an ISO 8601 string),
/// `NOW()` in Postgres (a `TIMESTAMPTZ`).
pub fn now_in(d: Dialect) -> (s: &'static str)
    ensures
        s@ == now_in_of(d),
{
    match d {
        Dialect::Sqlite => NOW,
        Dialect::Postgres => "NOW()",
    }
}

/// The random-token expression of a dialect.
pub open spec fn random_hex_16_in_of(d: Dialect) -> Seq<char> {
    match d {
        Dialect::Sqlite => RANDOM_HEX_16@,
        Dialect::Postgres => "encode(gen_random_bytes(16), 'hex')"@,
    }
}

/// 16 random bytes as a 32-char lowercase hex string (Postgres needs the
/// `pgcrypto` extension).
pub fn random_hex_16_in(d: Dialect) -> (s: &'static str)
    ensures
        s@ == random_hex_16_in_of(d),
{
    match d {
        Dialect::Sqlite => RANDOM_HEX_16,
        Dialect::Postgres => "encode(gen_random_bytes(16), 'hex')",
    }
}

/// "Now + bound offset" of a dialect, parenthesized.
pub open spec fn now_offset_in_of(d: Dialect, placeholder: nat) -> Seq<char> {
    match d {
        Dialect::Sqlite => now_offset_of(placeholder),
        Dialect::Postgres => "(NOW() + $"@ + dec(placeholder) + "::interval)"@,
    }
}

/// "Now + bound offset" at the given placeholder index. The same bind value
/// (e.g. `"-24 hours"`) works for both: SQLite reads it as a `datetime()`
/// modifier, Postgres casts it to `INTERVAL`. Returned parenthesized.
pub fn now_offset_in(d: Dialect, placeholder: usize) -> (sql: String)
    ensures
        sql@ == now_offset_in_of(d, placeholder as nat),
{
    match d {
        Dialect::Sqlite => now_offset(placeholder),
        Dialect::Postgres => {
            let mut s = string_from("(NOW() + $");
            let n = usize_digits(placeholder);
            push_str(&mut s, n.as_str());
            push_str(&mut s, "::interval)");
            s
        },
    }
}

/// What an offset fragment holds before the placeholder's digits.
pub open spec fn offset_head(d: Dialect) -> Seq<char> {
    match d {
        Dialect::Sqlite => "(datetime('now', $"@,
        Dialect::Postgres => "(NOW() + $"@,
    }
}

/// What an offset fragment holds after the placeholder's digits.
pub open spec fn offset_tail(d: Dialect) -> Seq<char> {
    match d {
        Dialect::Sqlite => "))"@,
        Dialect::Postgres => "::interval)"@,
    }
}

/// The offset fragment holds exactly one `$`, the placeholder's sigil,
/// followed by the placeholder's decimal digits and then a non-digit; the
/// offset value itself is never part of the text.
pub proof fn law_now_offset_placeholder(d: Dialect, n: nat)
    ensures
        now_offset_in_of(d, n) == offset_head(d) + dec(n) + offset_tail(d),
        forall|i: int|
            0 <= i < now_offset_in_of(d, n).len() ==> (#[trigger] now_offset_in_of(d, n)[i] == '$' <==> i
                == offset_head(d).len() - 1),
        !is_digit(offset_tail(d)[0]),
{
    reveal_strlit("(datetime('now', $");
    reveal_strlit("(NOW() + $");
    reveal_strlit("))");
    reveal_strlit("::interval)");
    lemma_dec_len(n);
    let h = offset_head(d);
    let t = offset_tail(d);
    let x = dec(n);
    let s = h + x + t;
    assert(now_offset_in_of(d, n) == s);
    assert forall|i: int| 0 <= i < s.len() implies (#[trigger] s[i] == '$' <==> i == h.len() - 1) by {
        if i < h.len() {
            assert(s[i] == h[i]);
        } else if i < h.len() + x.len() {
            assert(s[i] == x[i - h.len()]);
            assert(is_digit(x[i - h.len()]));
        } else {
            assert(s[i] == t[i - h.len() - x.len()]);
        }
    }
}

/// Different placeholders give different offset fragments.
pub proof fn law_now_offset_injective(d: Dialect, a: nat, b: nat)
    requires
        now_offset_in_of(d, a) == now_offset_in_of(d, b),
    ensures
        a == b,
{
    law_now_offset_placeholder(d, a);
    law_now_offset_placeholder(d, b);
    let h = offset_head(d);
    let t = offset_tail(d);
    let sa = now_offset_in_of(d, a);
    assert(sa.len() == h.len() + dec(a).len() + t.len());
    assert(sa.subrange(h.len() as int, sa.len() - t.len()) =~= dec(a));
    assert(sa.subrange(h.len() as int, sa.len() - t.len()) =~= dec(b));
    lemma_dec_injective(a, b);
}

} // verus!
