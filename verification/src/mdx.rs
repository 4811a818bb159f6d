//! "Rust MDX": split a post body into rendered-markdown runs and embed blocks.
//!
//! An embed is a standalone line of the form
//! `[[component:name key=value key2="quoted value"]]`; every other line
//! accumulates into a markdown run that is rendered as one piece.
use vstd::prelude::*;

use crate::markdown::{render_markdown, spec_render_markdown};
use crate::text::{
    chars_of, find_char, is_whitespace, is_ws, lead, lemma_lead_bound, lemma_lead_is, lemma_trim_idempotent, lines,
    not_char_pred, not_ws_pred, seq_eq, skip_non_ws, skip_ws, str_eq, string_of, string_of_all, strip_cr,
    trim, trim_bounds, trim_start, ws_pred,
};

verus! {

// ------------------------------------------------------------------ props

/// The string prop bag of an embed block: a sorted map from key to value. A
/// later occurrence of a key replaces the earlier value. Each key is held
/// once, in `String` order, so two bags with the same map hold the same pairs.
#[derive(Debug, PartialEq, Eq)]
pub struct Props {
    entries: Vec<(String, String)>,
}

/// `a` sorts before `b` as `String`s do: lexicographically by character.
pub open spec fn key_lt(a: Seq<char>, b: Seq<char>) -> bool
    decreases a.len(),
{
    if a.len() == 0 {
        b.len() > 0
    } else if b.len() == 0 {
        false
    } else if a[0] != b[0] {
        a[0] < b[0]
    } else {
        key_lt(a.drop_first(), b.drop_first())
    }
}

proof fn lemma_key_lt_irrefl(a: Seq<char>)
    ensures
        !key_lt(a, a),
    decreases a.len(),
{
    if a.len() > 0 {
        lemma_key_lt_irrefl(a.drop_first());
    }
}

proof fn lemma_key_lt_trans(a: Seq<char>, b: Seq<char>, c: Seq<char>)
    requires
        key_lt(a, b),
        key_lt(b, c),
    ensures
        key_lt(a, c),
    decreases a.len(),
{
    if a.len() > 0 && b.len() > 0 && c.len() > 0 && a[0] == b[0] && b[0] == c[0] {
        lemma_key_lt_trans(a.drop_first(), b.drop_first(), c.drop_first());
    }
}

proof fn lemma_key_lt_total(a: Seq<char>, b: Seq<char>)
    requires
        a != b,
    ensures
        key_lt(a, b) || key_lt(b, a),
    decreases a.len(),
{
    if a.len() > 0 && b.len() > 0 && a[0] == b[0] {
        if a.drop_first() == b.drop_first() {
            assert(a =~= seq![a[0]] + a.drop_first());
            assert(b =~= seq![b[0]] + b.drop_first());
        }
        lemma_key_lt_total(a.drop_first(), b.drop_first());
    } else if a.len() == 0 && b.len() == 0 {
        assert(a =~= b);
    }
}

/// Past a common prefix of length `i`, the order is that of the rests.
proof fn lemma_key_lt_skip(a: Seq<char>, b: Seq<char>, i: int)
    requires
        0 <= i <= a.len(),
        i <= b.len(),
        forall|j: int| 0 <= j < i ==> a[j] == b[j],
    ensures
        key_lt(a, b) == key_lt(a.skip(i), b.skip(i)),
    decreases i,
{
    if i > 0 {
        let a1 = a.drop_first();
        let b1 = b.drop_first();
        assert forall|j: int| 0 <= j < i - 1 implies a1[j] == b1[j] by {
            assert(a1[j] == a[j + 1] && b1[j] == b[j + 1]);
        }
        lemma_key_lt_skip(a1, b1, i - 1);
        assert(a1.skip(i - 1) =~= a.skip(i));
        assert(b1.skip(i - 1) =~= b.skip(i));
    } else {
        assert(a.skip(0) =~= a);
        assert(b.skip(0) =~= b);
    }
}

/// Whether `a` sorts before `b` as `String`s do.
fn key_less(a: &str, b: &str) -> (r: bool)
    ensures
        r == key_lt(a@, b@),
{
    let x = chars_of(a);
    let y = chars_of(b);
    let mut i: usize = 0;
    while i < x.len() && i < y.len() && x[i] == y[i]
        invariant
            i <= x.len(),
            i <= y.len(),
            forall|j: int| 0 <= j < i ==> x@[j] == y@[j],
        decreases x.len() - i,
    {
        i += 1;
    }
    proof {
        lemma_key_lt_skip(x@, y@, i as int);
    }
    if i == x.len() {
        i < y.len()
    } else if i == y.len() {
        false
    } else {
        proof {
            assert(x@.skip(i as int)[0] == x@[i as int]);
            assert(y@.skip(i as int)[0] == y@[i as int]);
        }
        x[i] < y[i]
    }
}

/// Keys strictly increasing: each key once, in `String` order.
pub open spec fn keys_sorted(s: Seq<(Seq<char>, Seq<char>)>) -> bool {
    forall|i: int, j: int| 0 <= i < j < s.len() ==> key_lt((#[trigger] s[i]).0, (#[trigger] s[j]).0)
}

/// The map a sequence of pairs denotes when later pairs win.
pub open spec fn pairs_map(s: Seq<(Seq<char>, Seq<char>)>) -> Map<Seq<char>, Seq<char>>
    decreases s.len(),
{
    if s.len() == 0 {
        Map::empty()
    } else {
        pairs_map(s.drop_last()).insert(s.last().0, s.last().1)
    }
}

/// Pairs past index `i` that do not mention `k` do not change what `k` maps to.
pub proof fn lemma_pairs_map_tail(s: Seq<(Seq<char>, Seq<char>)>, i: int, k: Seq<char>)
    requires
        0 <= i <= s.len(),
        forall|j: int| i <= j < s.len() ==> (#[trigger] s[j]).0 != k,
    ensures
        pairs_map(s).dom().contains(k) == pairs_map(s.take(i)).dom().contains(k),
        pairs_map(s).dom().contains(k) ==> pairs_map(s)[k] == pairs_map(s.take(i))[k],
    decreases s.len() - i,
{
    if i < s.len() {
        let t = s.drop_last();
        assert forall|j: int| i <= j < t.len() implies (#[trigger] t[j]).0 != k by {
            assert(t[j] == s[j]);
        }
        lemma_pairs_map_tail(t, i, k);
        assert(t.take(i) =~= s.take(i));
        assert(s.last() == s[s.len() - 1]);
    } else {
        assert(s.take(i) =~= s);
    }
}

/// In a sorted pair sequence, each pair's key maps to its value, and the map
/// holds no other key.
proof fn lemma_sorted_map(s: Seq<(Seq<char>, Seq<char>)>)
    requires
        keys_sorted(s),
    ensures
        forall|i: int|
            0 <= i < s.len() ==> pairs_map(s).dom().contains((#[trigger] s[i]).0) && pairs_map(s)[s[i].0] == s[i].1,
        forall|k: Seq<char>|
            #[trigger] pairs_map(s).dom().contains(k) ==> exists|i: int| 0 <= i < s.len() && (#[trigger] s[i]).0 == k,
    decreases s.len(),
{
    if s.len() > 0 {
        let t = s.drop_last();
        let n = s.len() - 1;
        assert forall|a: int, b: int| 0 <= a < b < t.len() implies key_lt((#[trigger] t[a]).0, (#[trigger] t[b]).0) by {
            assert(t[a] == s[a] && t[b] == s[b]);
        }
        lemma_sorted_map(t);
        assert(s.last() == s[n]);
        assert forall|i: int| 0 <= i < s.len() implies pairs_map(s).dom().contains((#[trigger] s[i]).0) && pairs_map(
            s,
        )[s[i].0] == s[i].1 by {
            if i < n {
                assert(s[i] == t[i]);
                assert(key_lt(s[i].0, s[n].0));
                lemma_key_lt_irrefl(s[i].0);
            }
        }
        assert forall|k: Seq<char>| #[trigger] pairs_map(s).dom().contains(k) implies exists|i: int|
            0 <= i < s.len() && (#[trigger] s[i]).0 == k by {
            if k != s[n].0 {
                assert(pairs_map(t).dom().contains(k));
                let i = choose|i: int| 0 <= i < t.len() && (#[trigger] t[i]).0 == k;
                assert(s[i] == t[i]);
            } else {
                assert(s[n].0 == k);
            }
        }
    }
}

/// Replacing the value of a key that is present keeps the keys sorted and
/// sets that key.
proof fn lemma_update_sorted(s: Seq<(Seq<char>, Seq<char>)>, j: int, k: Seq<char>, v: Seq<char>)
    requires
        keys_sorted(s),
        0 <= j < s.len(),
        s[j].0 == k,
    ensures
        keys_sorted(s.update(j, (k, v))),
        pairs_map(s.update(j, (k, v))) == pairs_map(s).insert(k, v),
{
    let s2 = s.update(j, (k, v));
    assert forall|a: int, b: int| 0 <= a < b < s2.len() implies key_lt((#[trigger] s2[a]).0, (#[trigger] s2[b]).0) by {
        assert(s2[a].0 == s[a].0 && s2[b].0 == s[b].0);
    }
    lemma_sorted_map(s);
    lemma_sorted_map(s2);
    let m1 = pairs_map(s).insert(k, v);
    let m2 = pairs_map(s2);
    assert forall|x: Seq<char>| m2.dom().contains(x) <==> m1.dom().contains(x) by {
        if m2.dom().contains(x) {
            let i = choose|i: int| 0 <= i < s2.len() && (#[trigger] s2[i]).0 == x;
            if i != j {
                assert(s2[i] == s[i]);
            }
        }
        if m1.dom().contains(x) && x != k {
            assert(pairs_map(s).dom().contains(x));
            let i = choose|i: int| 0 <= i < s.len() && (#[trigger] s[i]).0 == x;
            assert(i != j);
            assert(s2[i] == s[i]);
        }
        if x == k {
            assert(s2[j].0 == k);
        }
    }
    assert forall|x: Seq<char>| #[trigger] m2.dom().contains(x) implies m2[x] == m1[x] by {
        let i = choose|i: int| 0 <= i < s2.len() && (#[trigger] s2[i]).0 == x;
        assert(m2[s2[i].0] == s2[i].1);
        if i != j {
            assert(s2[i] == s[i]);
            if i < j {
                assert(key_lt(s[i].0, s[j].0));
            } else {
                assert(key_lt(s[j].0, s[i].0));
            }
            lemma_key_lt_irrefl(k);
            assert(s[i].0 != k);
            assert(pairs_map(s)[s[i].0] == s[i].1);
        }
    }
    assert(m2 =~= m1);
}

/// Inserting a new key at its sorted place keeps the keys sorted and sets
/// that key.
proof fn lemma_insert_sorted(s: Seq<(Seq<char>, Seq<char>)>, j: int, k: Seq<char>, v: Seq<char>)
    requires
        keys_sorted(s),
        0 <= j <= s.len(),
        forall|i: int| 0 <= i < j ==> key_lt((#[trigger] s[i]).0, k),
        j < s.len() ==> s[j].0 != k && !key_lt(s[j].0, k),
    ensures
        keys_sorted(s.insert(j, (k, v))),
        pairs_map(s.insert(j, (k, v))) == pairs_map(s).insert(k, v),
{
    let s2 = s.insert(j, (k, v));
    if j < s.len() {
        lemma_key_lt_total(s[j].0, k);
    }
    // every key at or past `j` comes after `k`
    assert forall|i: int| j <= i < s.len() implies key_lt(k, (#[trigger] s[i]).0) by {
        if i > j {
            lemma_key_lt_trans(k, s[j].0, s[i].0);
        }
    }
    assert forall|i: int| 0 <= i < s.len() implies (#[trigger] s[i]).0 != k by {
        if i < j {
            lemma_key_lt_irrefl(k);
        } else {
            lemma_key_lt_irrefl(k);
        }
    }
    assert forall|a: int, b: int| 0 <= a < b < s2.len() implies key_lt((#[trigger] s2[a]).0, (#[trigger] s2[b]).0) by {
        if b < j {
            assert(s2[a] == s[a] && s2[b] == s[b]);
        } else if b == j {
            assert(s2[a] == s[a]);
        } else if a < j {
            assert(s2[a] == s[a] && s2[b] == s[b - 1]);
        } else if a == j {
            assert(s2[b] == s[b - 1]);
        } else {
            assert(s2[a] == s[a - 1] && s2[b] == s[b - 1]);
        }
    }
    lemma_sorted_map(s);
    lemma_sorted_map(s2);
    let m1 = pairs_map(s).insert(k, v);
    let m2 = pairs_map(s2);
    assert(s2[j] == (k, v));
    assert forall|x: Seq<char>| m2.dom().contains(x) <==> m1.dom().contains(x) by {
        if m2.dom().contains(x) {
            let i = choose|i: int| 0 <= i < s2.len() && (#[trigger] s2[i]).0 == x;
            if i < j {
                assert(s2[i] == s[i]);
            } else if i > j {
                assert(s2[i] == s[i - 1]);
            }
        }
        if m1.dom().contains(x) && x != k {
            let i = choose|i: int| 0 <= i < s.len() && (#[trigger] s[i]).0 == x;
            if i < j {
                assert(s2[i] == s[i]);
            } else {
                assert(s2[i + 1] == s[i]);
            }
        }
    }
    assert forall|x: Seq<char>| #[trigger] m2.dom().contains(x) implies m2[x] == m1[x] by {
        let i = choose|i: int| 0 <= i < s2.len() && (#[trigger] s2[i]).0 == x;
        assert(m2[s2[i].0] == s2[i].1);
        if i < j {
            assert(s2[i] == s[i]);
            assert(s[i].0 != k);
            assert(pairs_map(s)[s[i].0] == s[i].1);
        } else if i > j {
            assert(s2[i] == s[i - 1]);
            assert(s[i - 1].0 != k);
            assert(pairs_map(s)[s[i - 1].0] == s[i - 1].1);
        }
    }
    assert(m2 =~= m1);
}

impl Props {
    pub closed spec fn pairs(self) -> Seq<(Seq<char>, Seq<char>)> {
        self.entries@.map_values(|e: (String, String)| (e.0@, e.1@))
    }

    /// The keys are held once each, in `String` order.
    #[verifier::type_invariant]
    spec fn sorted(self) -> bool {
        keys_sorted(self.pairs())
    }

    /// An empty prop bag.
    pub fn new() -> (p: Props)
        ensures
            p@ == Map::<Seq<char>, Seq<char>>::empty(),
    {
        let p = Props { entries: Vec::new() };
        assert(p.pairs() =~= Seq::<(Seq<char>, Seq<char>)>::empty());
        p
    }

    /// Sets `key` to `value`, replacing any earlier value.
    pub fn insert(&mut self, key: String, value: String)
        ensures
            final(self)@ == old(self)@.insert(key@, value@),
    {
        proof {
            use_type_invariant(&*self);
        }
        let ghost s = self.pairs();
        let mut e: Vec<(String, String)> = Vec::new();
        std::mem::swap(&mut e, &mut self.entries);
        assert(e@.map_values(|x: (String, String)| (x.0@, x.1@)) =~= s);
        let mut j: usize = 0;
        while j < e.len() && key_less(e[j].0.as_str(), key.as_str())
            invariant
                j <= e.len(),
                e@.map_values(|x: (String, String)| (x.0@, x.1@)) == s,
                forall|i: int| 0 <= i < j ==> key_lt((#[trigger] s[i]).0, key@),
            decreases e.len() - j,
        {
            assert(s[j as int] == (e@[j as int].0@, e@[j as int].1@));
            j += 1;
        }
        let found = j < e.len() && str_eq(e[j].0.as_str(), key.as_str());
        let ghost kv = (key@, value@);
        if found {
            proof {
                assert(s[j as int] == (e@[j as int].0@, e@[j as int].1@));
                lemma_update_sorted(s, j as int, key@, value@);
            }
            e.set(j, (key, value));
            proof {
                assert(e@.map_values(|x: (String, String)| (x.0@, x.1@)) =~= s.update(j as int, kv));
            }
        } else {
            proof {
                if j < e.len() {
                    assert(s[j as int] == (e@[j as int].0@, e@[j as int].1@));
                }
                lemma_insert_sorted(s, j as int, key@, value@);
            }
            e.insert(j, (key, value));
            proof {
                assert(e@.map_values(|x: (String, String)| (x.0@, x.1@)) =~= s.insert(j as int, kv));
            }
        }
        self.entries = e;
    }

    /// The value stored for `key`.
    pub fn get(&self, key: &str) -> (r: Option<&String>)
        ensures
            match r {
                Some(v) => self@.dom().contains(key@) && v@ == self@[key@],
                None => !self@.dom().contains(key@),
            },
    {
        let kc = chars_of(key);
        let ghost s = self.pairs();
        let mut i: usize = self.entries.len();
        while i > 0
            invariant
                0 <= i <= self.entries.len(),
                s == self.pairs(),
                kc@ == key@,
                forall|j: int| i <= j < s.len() ==> (#[trigger] s[j]).0 != kc@,
            decreases i,
        {
            let k = chars_of(self.entries[i - 1].0.as_str());
            if seq_eq(&k, &kc) {
                proof {
                    assert(s[i - 1] == (self.entries@[i - 1].0@, self.entries@[i - 1].1@));
                    lemma_pairs_map_tail(s, i as int, kc@);
                    let t = s.take(i as int);
                    assert(t.drop_last() =~= s.take(i - 1));
                    assert(t.last() == s[i - 1]);
                    assert(pairs_map(t) == pairs_map(t.drop_last()).insert(t.last().0, t.last().1));
                    assert(pairs_map(t).dom().contains(kc@));
                    assert(pairs_map(t)[kc@] == self.entries@[i - 1].1@);
                    assert(self@ == pairs_map(s));
                    assert(self@.dom().contains(key@));
                    assert(self@[key@] == self.entries@[i - 1].1@);
                }
                return Some(&self.entries[i - 1].1);
            }
            i -= 1;
        }
        proof {
            lemma_pairs_map_tail(s, 0, kc@);
            assert(s.take(0) =~= Seq::<(Seq<char>, Seq<char>)>::empty());
        }
        None
    }

    /// The pairs in the order they were read; feeding them to a map insert by
    /// insert rebuilds this bag.
    pub fn to_pairs(&self) -> (v: Vec<(String, String)>)
        ensures
            v@.len() == self.pairs().len(),
            forall|i: int| 0 <= i < v@.len() ==> (#[trigger] v@[i]).0@ == self.pairs()[i].0 && v@[i].1@
                == self.pairs()[i].1,
            pairs_map(v@.map_values(|e: (String, String)| (e.0@, e.1@))) == self@,
            keys_sorted(v@.map_values(|e: (String, String)| (e.0@, e.1@))),
    {
        proof {
            use_type_invariant(self);
        }
        let mut out: Vec<(String, String)> = Vec::new();
        let mut i: usize = 0;
        while i < self.entries.len()
            invariant
                0 <= i <= self.entries.len(),
                out@.len() == i,
                forall|j: int| 0 <= j < i ==> (#[trigger] out@[j]).0@ == self.pairs()[j].0 && out@[j].1@
                    == self.pairs()[j].1,
            decreases self.entries.len() - i,
        {
            let k = self.entries[i].0.clone();
            let v = self.entries[i].1.clone();
            out.push((k, v));
            i += 1;
        }
        proof {
            assert(out@.map_values(|e: (String, String)| (e.0@, e.1@)) =~= self.pairs());
        }
        out
    }
}

impl Clone for Props {
    /// A bag with the same pairs.
    fn clone(&self) -> (p: Self)
        ensures
            p@ == self@,
    {
        proof {
            use_type_invariant(self);
        }
        let mut out: Vec<(String, String)> = Vec::new();
        let mut i: usize = 0;
        while i < self.entries.len()
            invariant
                0 <= i <= self.entries.len(),
                out@.len() == i,
                forall|j: int| 0 <= j < i ==> (#[trigger] out@[j]).0@ == self.pairs()[j].0 && out@[j].1@
                    == self.pairs()[j].1,
            decreases self.entries.len() - i,
        {
            let k = self.entries[i].0.clone();
            let v = self.entries[i].1.clone();
            out.push((k, v));
            i += 1;
        }
        let p = Props { entries: out };
        proof {
            assert(p.pairs() =~= self.pairs());
        }
        p
    }
}

impl View for Props {
    type V = Map<Seq<char>, Seq<char>>;

    closed spec fn view(&self) -> Map<Seq<char>, Seq<char>> {
        pairs_map(self.pairs())
    }
}

// ------------------------------------------------------------------ segments

/// One piece of a parsed post body, in document order.
#[derive(Debug, Clone, PartialEq, Eq)]
pub enum Segment {
    /// A run of ordinary markdown, already rendered to HTML.
    Html(String),
    /// An embed block to be mounted as a live component.
    Embed { name: String, props: Props },
}

/// A piece of a body before prose is rendered.
pub enum Piece {
    Run(Seq<char>),
    Embed(Seq<char>, Map<Seq<char>, Seq<char>>),
}

// ------------------------------------------------------------------ the grammar

/// An ASCII letter or digit.
pub open spec fn ascii_alnum(c: char) -> bool {
    '0' <= c <= '9' || 'A' <= c <= 'Z' || 'a' <= c <= 'z'
}

/// Characters allowed in an embed's component name: letters and digits
/// (`char::is_alphanumeric`, which on ASCII is `0-9`, `A-Z`, `a-z`), `-` and
/// `_`.
pub open spec fn name_char(c: char) -> bool {
    if (c as u32) < 128 {
        ascii_alnum(c) || c == '-' || c == '_'
    } else {
        unicode_alphanumeric(c)
    }
}

/// Characters of a prop key: up to `=` or whitespace.
pub open spec fn key_pred() -> spec_fn(char) -> bool {
    |c: char| c != '=' && !is_ws(c)
}

pub open spec fn component_tag() -> Seq<char> {
    seq!['c', 'o', 'm', 'p', 'o', 'n', 'e', 'n', 't', ':']
}

/// The value that follows a key, and what remains after it.
pub open spec fn value_and_rest(r: Seq<char>) -> (Seq<char>, Seq<char>) {
    if r.len() > 0 && r[0] == '=' {
        let r2 = r.drop_first();
        if r2.len() > 0 && r2[0] == '"' {
            let r3 = r2.drop_first();
            let q = lead(r3, not_char_pred('"'));
            (r3.take(q as int), if q < r3.len() {
                r3.skip((q + 1) as int)
            } else {
                r3.skip(q as int)
            })
        } else {
            let w = lead(r2, not_ws_pred());
            (r2.take(w as int), r2.skip(w as int))
        }
    } else {
        (seq![], r)
    }
}

/// Tokenizes `key=value` / `key="quoted value"` / bare `key` pairs into `acc`.
pub open spec fn props_from(s: Seq<char>, acc: Map<Seq<char>, Seq<char>>) -> Map<
    Seq<char>,
    Seq<char>,
>
    decreases s.len(),
{
    let s1 = trim_start(s);
    if s1.len() == 0 {
        acc
    } else {
        let k = lead(s1, key_pred());
        let key = s1.take(k as int);
        let (value, rest) = value_and_rest(s1.skip(k as int));
        let acc2 = if key.len() > 0 {
            acc.insert(key, value)
        } else {
            acc
        };
        if rest.len() < s.len() {
            props_from(rest, acc2)
        } else {
            acc2
        }
    }
}

/// The prop map of a props string.
pub open spec fn props_of(s: Seq<char>) -> Map<Seq<char>, Seq<char>> {
    props_from(s, Map::empty())
}

/// The component name and props of a standalone embed line, if it is one.
pub open spec fn embed_line(line: Seq<char>) -> Option<(Seq<char>, Map<Seq<char>, Seq<char>>)> {
    let t = trim(line);
    if t.len() >= 4 && t[0] == '[' && t[1] == '[' && t[t.len() - 2] == ']' && t[t.len() - 1]
        == ']' {
        let inner = trim(t.subrange(2, t.len() - 2));
        if inner.len() >= 10 && inner.take(10) == component_tag() {
            let rest = trim_start(inner.skip(10));
            let k = lead(rest, not_ws_pred());
            let name = rest.take(k as int);
            if name.len() > 0 && (forall|i: int| 0 <= i < name.len() ==> name_char(#[trigger] name[i])) {
                Some((name, props_of(rest.skip(k as int))))
            } else {
                None
            }
        } else {
            None
        }
    } else {
        None
    }
}

/// Surrounding whitespace does not matter: a line and its trimmed form are
/// the same embed, or both no embed.
pub proof fn law_embed_line_trim(line: Seq<char>)
    ensures
        embed_line(trim(line)) == embed_line(line),
{
    lemma_trim_idempotent(line);
}

/// A run is emitted only if it holds more than whitespace.
pub open spec fn flush(run: Seq<char>) -> Seq<Piece> {
    if trim(run).len() > 0 {
        seq![Piece::Run(run)]
    } else {
        seq![]
    }
}

/// The pieces of the remaining lines `ls`, given the run accumulated so far.
pub open spec fn split_body(ls: Seq<Seq<char>>, run: Seq<char>) -> Seq<Piece>
    decreases ls.len(),
{
    if ls.len() == 0 {
        flush(run)
    } else {
        match embed_line(ls[0]) {
            Some((n, p)) => flush(run) + seq![Piece::Embed(n, p)] + split_body(
                ls.drop_first(),
                seq![],
            ),
            None => split_body(ls.drop_first(), run + ls[0].push('\n')),
        }
    }
}

/// Whether some line of `ls` is an embed line.
pub open spec fn has_embed(ls: Seq<Seq<char>>) -> bool {
    exists|i: int| 0 <= i < ls.len() && (#[trigger] embed_line(ls[i])) is Some
}

/// The pieces of a post body, in document order. A body with no embed line is
/// one prose run: the whole body, as it stands.
pub open spec fn body_pieces(md: Seq<char>) -> Seq<Piece> {
    if has_embed(lines(md)) {
        split_body(lines(md), seq![])
    } else {
        seq![Piece::Run(md)]
    }
}

/// `h` is an output `render` may give for some string whose characters are `r`.
pub open spec fn renders_to<F: Fn(&str) -> String>(r: Seq<char>, h: String, render: F) -> bool {
    exists|s: &str| s@ == r && #[trigger] call_ensures(render, (s,), h)
}

/// `seg` is what `piece` becomes when prose runs are rendered by `render`.
pub open spec fn seg_renders<F: Fn(&str) -> String>(seg: Segment, piece: Piece, render: F) -> bool {
    match piece {
        Piece::Run(r) => seg is Html && renders_to(r, seg->0, render),
        Piece::Embed(n, p) => seg is Embed && seg->name@ == n && seg->props@ == p,
    }
}

// ------------------------------------------------------------------ exec

/// `char::is_alphanumeric`: Unicode `Alphabetic` or `Numeric`.
pub uninterp spec fn unicode_alphanumeric(c: char) -> bool;

/// Calls `char::is_alphanumeric`. Claimed: the answer is a function of the
/// character (`unicode_alphanumeric`), and on ASCII it holds exactly for
/// `0-9`, `A-Z` and `a-z`.
#[verifier::external_body]
fn is_alphanumeric(c: char) -> (b: bool)
    ensures
        b == unicode_alphanumeric(c),
        (c as u32) < 128 ==> (b <==> ('0' <= c <= '9' || 'A' <= c <= 'Z' || 'a' <= c <= 'z')),
{
    c.is_alphanumeric()
}

/// First index in `lo..hi` that ends a prop key (`=` or whitespace), or `hi`.
fn skip_key(v: &Vec<char>, lo: usize, hi: usize) -> (i: usize)
    requires
        lo <= hi <= v.len(),
    ensures
        lo <= i <= hi,
        i - lo == lead(v@.subrange(lo as int, hi as int), key_pred()),
{
    let mut i: usize = lo;
    while i < hi && v[i] != '=' && !is_whitespace(v[i])
        invariant
            lo <= i <= hi <= v.len(),
            forall|j: int| lo <= j < i ==> key_pred()(#[trigger] v@[j]),
        decreases hi - i,
    {
        i += 1;
    }
    proof {
        let s = v@.subrange(lo as int, hi as int);
        assert forall|j: int| 0 <= j < i - lo implies key_pred()(#[trigger] s[j]) by {
            assert(s[j] == v@[lo + j]);
        }
        if i < hi {
            assert(s[i - lo] == v@[i as int]);
        }
        lemma_lead_is(s, key_pred(), i - lo);
    }
    i
}

/// The props of `v[lo..hi]`.
fn parse_props_range(v: &Vec<char>, lo: usize, hi: usize) -> (p: Props)
    requires
        lo <= hi <= v.len(),
    ensures
        p@ == props_of(v@.subrange(lo as int, hi as int)),
{
    let mut props = Props::new();
    let mut pos: usize = lo;
    while pos < hi
        invariant
            lo <= pos <= hi <= v.len(),
            props_of(v@.subrange(lo as int, hi as int)) == props_from(
                v@.subrange(pos as int, hi as int),
                props@,
            ),
        decreases hi - pos,
    {
        let ghost s = v@.subrange(pos as int, hi as int);
        let p1 = skip_ws(v, pos, hi);
        proof {
            assert(trim_start(s) =~= v@.subrange(p1 as int, hi as int));
        }
        if p1 == hi {
            proof {
                assert(trim_start(s).len() == 0);
                assert(v@.subrange(hi as int, hi as int) =~= Seq::<char>::empty());
                assert(trim_start(Seq::<char>::empty()) =~= Seq::<char>::empty());
                assert(props_from(Seq::<char>::empty(), props@) == props@);
            }
            pos = hi;
        } else {
        let ghost s1 = v@.subrange(p1 as int, hi as int);
        let p2 = skip_key(v, p1, hi);
        let ghost r = s1.skip(p2 - p1);
        proof {
            assert(r =~= v@.subrange(p2 as int, hi as int));
            assert(s1.take(p2 - p1) =~= v@.subrange(p1 as int, p2 as int));
        }
        let mut value_lo: usize = p2;
        let mut value_hi: usize = p2;
        let mut rest: usize = p2;
        if p2 < hi && v[p2] == '=' {
            let p3 = p2 + 1;
            let ghost r2 = r.drop_first();
            proof {
                assert(r2 =~= v@.subrange(p3 as int, hi as int));
            }
            if p3 < hi && v[p3] == '"' {
                let p4 = p3 + 1;
                let ghost r3 = r2.drop_first();
                proof {
                    assert(r3 =~= v@.subrange(p4 as int, hi as int));
                }
                let q = find_char(v, p4, hi, '"');
                value_lo = p4;
                value_hi = q;
                rest = if q < hi {
                    q + 1
                } else {
                    q
                };
                proof {
                    assert(r3.take(q - p4) =~= v@.subrange(p4 as int, q as int));
                    if q < hi {
                        assert(r3.skip(q - p4 + 1) =~= v@.subrange(q + 1, hi as int));
                    } else {
                        assert(r3.skip(q - p4) =~= v@.subrange(q as int, hi as int));
                    }
                }
            } else {
                let w = skip_non_ws(v, p3, hi);
                value_lo = p3;
                value_hi = w;
                rest = w;
                proof {
                    assert(r2.take(w - p3) =~= v@.subrange(p3 as int, w as int));
                    assert(r2.skip(w - p3) =~= v@.subrange(w as int, hi as int));
                }
            }
        } else {
            proof {
                assert(v@.subrange(p2 as int, p2 as int) =~= Seq::<char>::empty());
            }
        }
        proof {
            let (val, rst) = value_and_rest(r);
            assert(val == v@.subrange(value_lo as int, value_hi as int));
            assert(rst == v@.subrange(rest as int, hi as int));
            // progress: an empty key means the cursor sits on '='
            lemma_lead_bound(s1, key_pred());
            if p2 == p1 {
                assert(s1[0] == v@[p1 as int]);
                lemma_lead_bound(s, ws_pred());
                assert(s[p1 - pos] == v@[p1 as int]);
            }
        }
        if p2 > p1 {
            let key = string_of(v, p1, p2);
            let value = string_of(v, value_lo, value_hi);
            props.insert(key, value);
        }
        pos = rest;
        }
    }
    proof {
        assert(v@.subrange(pos as int, hi as int) =~= Seq::<char>::empty());
        assert(trim_start(Seq::<char>::empty()) =~= Seq::<char>::empty());
        assert(props_from(Seq::<char>::empty(), props@) == props@);
    }
    props
}

/// Tokenize `key=value` and `key="quoted value"` pairs. Bare flags (`key` with
/// no `=`) map to an empty string; a later key replaces an earlier one.
pub fn parse_props(s: &str) -> (p: Props)
    ensures
        p@ == props_of(s@),
{
    let v = chars_of(s);
    let p = parse_props_range(&v, 0, v.len());
    assert(v@.subrange(0, v@.len() as int) =~= v@);
    p
}

// ------------------------------------------------------------------ prop laws

/// A prop key as the tokenizer reads it: not empty, without `=` or whitespace.
pub open spec fn prop_key_ok(k: Seq<char>) -> bool {
    k.len() > 0 && forall|i: int| 0 <= i < k.len() ==> key_pred()(#[trigger] k[i])
}

/// A prop value as the tokenizer reads it: without whitespace (unquoted) or
/// without `"` (quoted).
pub open spec fn prop_value_ok(v: Seq<char>) -> bool {
    (forall|i: int| 0 <= i < v.len() ==> !is_ws(#[trigger] v[i])) || (forall|i: int|
        0 <= i < v.len() ==> #[trigger] v[i] != '"')
}

/// Every entry of the map has a well-formed key and value.
pub open spec fn props_shaped(m: Map<Seq<char>, Seq<char>>) -> bool {
    forall|k: Seq<char>| #[trigger] m.dom().contains(k) ==> prop_key_ok(k) && prop_value_ok(m[k])
}

proof fn lemma_value_shape(r: Seq<char>)
    ensures
        prop_value_ok(value_and_rest(r).0),
{
    if r.len() > 0 && r[0] == '=' {
        let r2 = r.drop_first();
        if r2.len() > 0 && r2[0] == '"' {
            let r3 = r2.drop_first();
            lemma_lead_bound(r3, not_char_pred('"'));
            let q = lead(r3, not_char_pred('"'));
            let v = r3.take(q as int);
            assert forall|i: int| 0 <= i < v.len() implies #[trigger] v[i] != '"' by {
                assert(v[i] == r3[i]);
                assert(not_char_pred('"')(r3[i]));
            }
        } else {
            lemma_lead_bound(r2, not_ws_pred());
            let w = lead(r2, not_ws_pred());
            let v = r2.take(w as int);
            assert forall|i: int| 0 <= i < v.len() implies !is_ws(#[trigger] v[i]) by {
                assert(v[i] == r2[i]);
                assert(not_ws_pred()(r2[i]));
            }
        }
    }
}

proof fn lemma_props_from_shape(s: Seq<char>, acc: Map<Seq<char>, Seq<char>>)
    requires
        props_shaped(acc),
    ensures
        props_shaped(props_from(s, acc)),
    decreases s.len(),
{
    let s1 = trim_start(s);
    if s1.len() > 0 {
        let k = lead(s1, key_pred());
        lemma_lead_bound(s1, key_pred());
        let key = s1.take(k as int);
        let (value, rest) = value_and_rest(s1.skip(k as int));
        lemma_value_shape(s1.skip(k as int));
        let acc2 = if key.len() > 0 {
            acc.insert(key, value)
        } else {
            acc
        };
        if key.len() > 0 {
            assert forall|i: int| 0 <= i < key.len() implies key_pred()(#[trigger] key[i]) by {
                assert(key[i] == s1[i]);
            }
            assert(prop_key_ok(key));
        }
        assert(props_shaped(acc2));
        if rest.len() < s.len() {
            lemma_props_from_shape(rest, acc2);
        }
    }
}

/// Every prop the tokenizer reads has a key that is not empty and holds no
/// `=` or whitespace, and a value that holds no whitespace (unquoted) or no
/// `"` (quoted).
pub proof fn law_props_shape(s: Seq<char>)
    ensures
        props_shaped(props_of(s)),
{
    lemma_props_from_shape(s, Map::empty());
}

/// How a prop token is written.
pub enum PropForm {
    /// `key`
    Bare,
    /// `key=value`
    Plain,
    /// `key="value"`
    Quoted,
}

/// The text of a prop token.
pub open spec fn token_text(k: Seq<char>, v: Seq<char>, f: PropForm) -> Seq<char> {
    match f {
        PropForm::Bare => k,
        PropForm::Plain => k + seq!['='] + v,
        PropForm::Quoted => k + seq!['=', '"'] + v + seq!['"'],
    }
}

/// The value a prop token sets.
pub open spec fn token_value(v: Seq<char>, f: PropForm) -> Seq<char> {
    match f {
        PropForm::Bare => seq![],
        _ => v,
    }
}

/// A well-formed prop token: a good key, and a value without whitespace that
/// does not start with `"` (plain) or without `"` (quoted).
pub open spec fn token_ok(k: Seq<char>, v: Seq<char>, f: PropForm) -> bool {
    &&& prop_key_ok(k)
    &&& match f {
        PropForm::Bare => true,
        PropForm::Plain => (forall|i: int| 0 <= i < v.len() ==> !is_ws(#[trigger] v[i])) && (v.len() == 0
            || v[0] != '"'),
        PropForm::Quoted => forall|i: int| 0 <= i < v.len() ==> #[trigger] v[i] != '"',
    }
}

/// A well-formed token followed by nothing or by a space is read as its key
/// and value, and the tokenizer goes on after it.
proof fn lemma_props_step(
    k: Seq<char>,
    v: Seq<char>,
    f: PropForm,
    t: Seq<char>,
    acc: Map<Seq<char>, Seq<char>>,
)
    requires
        token_ok(k, v, f),
        t.len() == 0 || t[0] == ' ',
    ensures
        props_from(token_text(k, v, f) + t, acc) == props_from(t, acc.insert(k, token_value(v, f))),
        trim_start(token_text(k, v, f) + t) == token_text(k, v, f) + t,
        lead(token_text(k, v, f) + t, key_pred()) == k.len(),
        (token_text(k, v, f) + t).take(k.len() as int) == k,
        value_and_rest((token_text(k, v, f) + t).skip(k.len() as int)) == (token_value(v, f), t),
{
    let x = token_text(k, v, f) + t;
    assert(x[0] == k[0]);
    assert(key_pred()(k[0]));
    lemma_lead_is(x, ws_pred(), 0);
    assert(x.skip(0) =~= x);
    assert(trim_start(x) == x);
    assert forall|j: int| 0 <= j < k.len() implies key_pred()(#[trigger] x[j]) by {
        assert(x[j] == k[j]);
    }
    if k.len() < x.len() {
        assert(!key_pred()(x[k.len() as int])) by {
            match f {
                PropForm::Bare => {
                    assert(x[k.len() as int] == t[0]);
                },
                _ => {
                    assert(x[k.len() as int] == '=');
                },
            }
        }
    }
    lemma_lead_is(x, key_pred(), k.len() as int);
    assert(x.take(k.len() as int) =~= k);
    let r = x.skip(k.len() as int);
    match f {
        PropForm::Bare => {
            assert(r =~= t);
            assert(value_and_rest(r) == (Seq::<char>::empty(), t));
        },
        PropForm::Plain => {
            assert(r[0] == '=');
            let r2 = r.drop_first();
            assert(r2 =~= v + t);
            if v.len() > 0 {
                assert(r2[0] == v[0]);
            }
            assert forall|j: int| 0 <= j < v.len() implies not_ws_pred()(#[trigger] r2[j]) by {
                assert(r2[j] == v[j]);
            }
            if v.len() < r2.len() {
                assert(r2[v.len() as int] == t[0]);
            }
            lemma_lead_is(r2, not_ws_pred(), v.len() as int);
            assert(r2.take(v.len() as int) =~= v);
            assert(r2.skip(v.len() as int) =~= t);
            assert(value_and_rest(r) == (v, t));
        },
        PropForm::Quoted => {
            assert(r[0] == '=');
            let r2 = r.drop_first();
            assert(r2[0] == '"');
            let r3 = r2.drop_first();
            assert(r3 =~= v + seq!['"'] + t);
            assert forall|j: int| 0 <= j < v.len() implies not_char_pred('"')(#[trigger] r3[j]) by {
                assert(r3[j] == v[j]);
            }
            assert(r3[v.len() as int] == '"');
            lemma_lead_is(r3, not_char_pred('"'), v.len() as int);
            assert(r3.take(v.len() as int) =~= v);
            assert(r3.skip(v.len() + 1 as int) =~= t);
            assert(value_and_rest(r) == (v, t));
        },
    }
}

proof fn lemma_props_empty(acc: Map<Seq<char>, Seq<char>>)
    ensures
        props_from(Seq::<char>::empty(), acc) == acc,
{
    let e = Seq::<char>::empty();
    assert(lead(e, ws_pred()) == 0);
    assert(trim_start(e) =~= e);
}

/// A lone well-formed token, or one after a space, sets exactly its key.
proof fn lemma_props_last(k: Seq<char>, v: Seq<char>, f: PropForm, acc: Map<Seq<char>, Seq<char>>)
    requires
        token_ok(k, v, f),
    ensures
        props_from(token_text(k, v, f), acc) == acc.insert(k, token_value(v, f)),
        props_from(seq![' '] + token_text(k, v, f), acc) == acc.insert(k, token_value(v, f)),
{
    let y = token_text(k, v, f);
    let e = Seq::<char>::empty();
    lemma_props_step(k, v, f, e, acc);
    lemma_props_empty(acc.insert(k, token_value(v, f)));
    assert(y + e =~= y);
    let z = seq![' '] + y;
    assert(z[0] == ' ');
    assert(z[1] == y[0]);
    assert(y[0] == k[0]);
    assert(key_pred()(k[0]));
    lemma_lead_is(z, ws_pred(), 1);
    assert(z.skip(1) =~= y);
    assert(trim_start(z) == y);
    assert(lead(y, key_pred()) == k.len());
    assert(y.take(k.len() as int) == k);
    assert(value_and_rest(y.skip(k.len() as int)) == (token_value(v, f), e));
}

/// For tokens with distinct keys, their order does not matter: two tokens
/// separated by a space set both keys, and one token alone sets its key.
#[verifier::rlimit(40)]
pub proof fn law_props_token_order(
    ka: Seq<char>,
    va: Seq<char>,
    fa: PropForm,
    kb: Seq<char>,
    vb: Seq<char>,
    fb: PropForm,
)
    requires
        token_ok(ka, va, fa),
        token_ok(kb, vb, fb),
        ka != kb,
    ensures
        props_of(token_text(ka, va, fa)) == map![ka => token_value(va, fa)],
        props_of(token_text(kb, vb, fb)) == map![kb => token_value(vb, fb)],
        props_of(token_text(ka, va, fa) + seq![' '] + token_text(kb, vb, fb)) == map![
            ka => token_value(va, fa),
            kb => token_value(vb, fb),
        ],
        props_of(token_text(kb, vb, fb) + seq![' '] + token_text(ka, va, fa)) == map![
            ka => token_value(va, fa),
            kb => token_value(vb, fb),
        ],
{
    let e = Map::<Seq<char>, Seq<char>>::empty();
    let ta = token_text(ka, va, fa);
    let tb = token_text(kb, vb, fb);
    let xa = token_value(va, fa);
    let xb = token_value(vb, fb);
    lemma_props_last(ka, va, fa, e);
    lemma_props_last(kb, vb, fb, e);
    assert(e.insert(ka, xa) =~= map![ka => xa]);
    assert(e.insert(kb, xb) =~= map![kb => xb]);
    lemma_props_step(ka, va, fa, seq![' '] + tb, e);
    assert(ta + seq![' '] + tb =~= ta + (seq![' '] + tb));
    lemma_props_last(kb, vb, fb, e.insert(ka, xa));
    assert(e.insert(ka, xa).insert(kb, xb) =~= map![ka => xa, kb => xb]);
    lemma_props_step(kb, vb, fb, seq![' '] + ta, e);
    assert(tb + seq![' '] + ta =~= tb + (seq![' '] + ta));
    lemma_props_last(ka, va, fa, e.insert(kb, xb));
    assert(e.insert(kb, xb).insert(ka, xa) =~= map![ka => xa, kb => xb]);
}

/// Whether `v[at..at + 10]` is `component:`.
fn component_tag_at(v: &Vec<char>, at: usize) -> (b: bool)
    requires
        at + 10 <= v.len(),
    ensures
        b == (v@.subrange(at as int, at + 10) == component_tag()),
{
    let b = v[at] == 'c' && v[at + 1] == 'o' && v[at + 2] == 'm' && v[at + 3] == 'p' && v[at + 4]
        == 'o' && v[at + 5] == 'n' && v[at + 6] == 'e' && v[at + 7] == 'n' && v[at + 8] == 't'
        && v[at + 9] == ':';
    proof {
        let w = v@.subrange(at as int, at + 10);
        if b {
            assert(w =~= component_tag());
        } else {
            assert(w != component_tag() || b) by {
                if w == component_tag() {
                    assert(w[0] == 'c' && w[1] == 'o' && w[2] == 'm' && w[3] == 'p' && w[4] == 'o'
                        && w[5] == 'n' && w[6] == 'e' && w[7] == 'n' && w[8] == 't' && w[9] == ':');
                }
            }
        }
    }
    b
}

/// Whether every character of `v[lo..hi]` may appear in a component name.
fn all_name_chars(v: &Vec<char>, lo: usize, hi: usize) -> (b: bool)
    requires
        lo <= hi <= v.len(),
    ensures
        b == (forall|j: int| lo <= j < hi ==> name_char(#[trigger] v@[j])),
{
    let mut i: usize = lo;
    while i < hi
        invariant
            lo <= i <= hi <= v.len(),
            forall|j: int| lo <= j < i ==> name_char(#[trigger] v@[j]),
        decreases hi - i,
    {
        let ch = v[i];
        let alnum = is_alphanumeric(ch);
        if !(alnum || ch == '-' || ch == '_') {
            assert(!name_char(v@[i as int]));
            return false;
        }
        assert(name_char(v@[i as int]));
        i += 1;
    }
    true
}

/// Recognizes an embed line held in `v[lo..hi]`.
fn parse_embed_range(v: &Vec<char>, lo: usize, hi: usize) -> (r: Option<(String, Props)>)
    requires
        lo <= hi <= v.len(),
    ensures
        match embed_line(v@.subrange(lo as int, hi as int)) {
            Some((n, p)) => r matches Some((name, props)) && name@ == n && props@ == p,
            None => r is None,
        },
{
    let ghost line = v@.subrange(lo as int, hi as int);
    let (a, b) = trim_bounds(v, lo, hi);
    let ghost t = trim(line);
    if b - a < 4 || v[a] != '[' || v[a + 1] != '[' || v[b - 2] != ']' || v[b - 1] != ']' {
        proof {
            if t.len() >= 4 {
                assert(t[0] == v@[a as int] && t[1] == v@[a + 1]);
                assert(t[t.len() - 2] == v@[b - 2] && t[t.len() - 1] == v@[b - 1]);
            }
        }
        return None;
    }
    proof {
        assert(t[0] == v@[a as int] && t[1] == v@[a + 1]);
        assert(t[t.len() - 2] == v@[b - 2] && t[t.len() - 1] == v@[b - 1]);
        assert(t.subrange(2, t.len() - 2) =~= v@.subrange(a + 2, b - 2));
    }
    let (c, d) = trim_bounds(v, a + 2, b - 2);
    let ghost inner = trim(t.subrange(2, t.len() - 2));
    if d - c < 10 || !component_tag_at(v, c) {
        proof {
            if inner.len() >= 10 {
                assert(inner.take(10) =~= v@.subrange(c as int, c + 10));
            }
        }
        return None;
    }
    proof {
        assert(inner.take(10) =~= v@.subrange(c as int, c + 10));
        assert(inner.skip(10) =~= v@.subrange(c + 10, d as int));
    }
    let (e, _e2) = trim_bounds(v, c + 10, d);
    let ghost rest = trim_start(inner.skip(10));
    let f = skip_non_ws(v, e, d);
    proof {
        assert(rest =~= v@.subrange(e as int, d as int));
        assert(rest.take(f - e) =~= v@.subrange(e as int, f as int));
        assert(rest.skip(f - e) =~= v@.subrange(f as int, d as int));
    }
    if f == e {
        return None;
    }
    if !all_name_chars(v, e, f) {
        proof {
            let name = rest.take(f - e);
            let j = choose|j: int| e <= j < f && !name_char(#[trigger] v@[j]);
            assert(name[j - e] == v@[j]);
        }
        return None;
    }
    proof {
        let name = rest.take(f - e);
        assert forall|j: int| 0 <= j < name.len() implies name_char(#[trigger] name[j]) by {
            assert(name[j] == v@[e + j]);
        }
    }
    let name = string_of(v, e, f);
    let props = parse_props_range(v, f, d);
    Some((name, props))
}

/// Recognize a standalone `[[component:name props…]]` line, returning the
/// component name and its parsed props. Returns `None` for any other line.
pub fn parse_embed_line(line: &str) -> (r: Option<(String, Props)>)
    ensures
        match embed_line(line@) {
            Some((n, p)) => r matches Some((name, props)) && name@ == n && props@ == p,
            None => r is None,
        },
{
    let v = chars_of(line);
    assert(v@.subrange(0, v@.len() as int) =~= v@);
    parse_embed_range(&v, 0, v.len())
}

/// `parse_body` with a pluggable prose renderer. The embed grammar is
/// identical; only the function that turns each markdown run into HTML differs.
/// A body with no embed line goes to `render` whole, as one `Html` segment.
#[verifier::rlimit(40)]
pub fn parse_body_with<F: Fn(&str) -> String>(md: &str, render: F) -> (segs: Vec<Segment>)
    requires
        forall|s: &str| #[trigger] call_requires(render, (s,)),
    ensures
        segs.len() == body_pieces(md@).len(),
        forall|i: int|
            0 <= i < segs.len() ==> seg_renders(#[trigger] segs@[i], body_pieces(md@)[i], render),
{
    let v = chars_of(md);
    let n = v.len();
    let mut segments: Vec<Segment> = Vec::new();
    let mut run: Vec<char> = Vec::new();
    let ghost mut done: Seq<Piece> = seq![];
    let ghost mut consumed: Seq<Seq<char>> = seq![];
    let mut any_embed = false;
    let mut pos: usize = 0;
    proof {
        assert(v@.skip(0) =~= v@);
        assert(run@ =~= Seq::<char>::empty());
        assert(done + split_body(lines(v@.skip(0)), run@) =~= split_body(lines(md@), seq![]));
        assert(consumed + lines(v@.skip(0)) =~= lines(md@));
    }
    while pos < n
        invariant
            n == v.len(),
            v@ == md@,
            0 <= pos <= n,
            forall|s: &str| #[trigger] call_requires(render, (s,)),
            split_body(lines(md@), seq![]) == done + split_body(lines(v@.skip(pos as int)), run@),
            lines(md@) == consumed + lines(v@.skip(pos as int)),
            any_embed == has_embed(consumed),
            !any_embed ==> segments.len() == 0,
            segments.len() == done.len(),
            forall|i: int| 0 <= i < segments.len() ==> seg_renders(#[trigger] segments@[i], done[i], render),
        decreases n - pos,
    {
        let ghost t = v@.skip(pos as int);
        let e = find_char(&v, pos, n, '\n');
        let mut le: usize = e;
        if e < n && e > pos && v[e - 1] == '\r' {
            le = e - 1;
        }
        let next: usize = if e < n {
            e + 1
        } else {
            n
        };
        proof {
            assert(v@.subrange(pos as int, n as int) =~= t);
            let k = lead(t, not_char_pred('\n'));
            assert(k == e - pos);
            if e < n {
                assert(t.take(k as int) =~= v@.subrange(pos as int, e as int));
                assert(strip_cr(t.take(k as int)) =~= v@.subrange(pos as int, le as int));
                assert(t.skip((k + 1) as int) =~= v@.skip(next as int));
                assert(lines(t) == seq![v@.subrange(pos as int, le as int)] + lines(v@.skip(next as int)));
            } else {
                assert(t =~= v@.subrange(pos as int, le as int));
                assert(v@.skip(next as int) =~= Seq::<char>::empty());
                assert(lines(v@.skip(next as int)) =~= Seq::<Seq<char>>::empty());
                assert(lines(t) =~= seq![v@.subrange(pos as int, le as int)] + lines(v@.skip(next as int)));
            }
        }
        let ghost line = v@.subrange(pos as int, le as int);
        let ghost rest_lines = lines(v@.skip(next as int));
        let ghost old_consumed = consumed;
        proof {
            assert((seq![line] + rest_lines)[0] == line);
            assert((seq![line] + rest_lines).drop_first() =~= rest_lines);
            consumed = consumed.push(line);
            assert(consumed + rest_lines =~= old_consumed + (seq![line] + rest_lines));
            assert(consumed[old_consumed.len() as int] == line);
            assert forall|i: int| 0 <= i < old_consumed.len() implies #[trigger] consumed[i] == old_consumed[i] by {}
            if has_embed(old_consumed) {
                let w = choose|i: int| 0 <= i < old_consumed.len() && (#[trigger] embed_line(old_consumed[i])) is Some;
                assert(consumed[w] == old_consumed[w]);
                assert(has_embed(consumed));
            }
        }
        match parse_embed_range(&v, pos, le) {
            Some((name, props)) => {
                any_embed = true;
                proof {
                    assert(embed_line(consumed[old_consumed.len() as int]) is Some);
                    assert(has_embed(consumed));
                }
                let ghost old_run = run@;
                let ghost fl = flush(run@);
                let ghost segs0 = segments@;
                let ghost done0 = done;
                flush_run(&mut segments, &run, &render);
                proof {
                    done = done + fl;
                }
                let ghost seg_before = segments@;
                segments.push(Segment::Embed { name, props });
                proof {
                    let (nn, pp) = embed_line(line).unwrap();
                    done = done.push(Piece::Embed(nn, pp));
                    assert(split_body(seq![line] + rest_lines, old_run) == fl + seq![Piece::Embed(nn, pp)]
                        + split_body(rest_lines, seq![]));
                    assert forall|i: int| 0 <= i < segments.len() implies seg_renders(
                        #[trigger] segments@[i],
                        done[i],
                        render,
                    ) by {
                        if i < done0.len() {
                            assert(segments@[i] == segs0[i]);
                            assert(done[i] == done0[i]);
                        } else if i < done0.len() + fl.len() {
                            let j = i - done0.len();
                            assert(segments@[i] == seg_before[i]);
                            assert(done[i] == fl[j]);
                            assert(seg_before[segs0.len() + j] == seg_before[i]);
                            assert(seg_renders(seg_before[segs0.len() + j], fl[j], render));
                        } else {
                            assert(i == segments.len() - 1);
                            assert(done[i] == Piece::Embed(nn, pp));
                        }
                    }
                }
                run = Vec::new();
                proof {
                    assert(run@ =~= Seq::<char>::empty());
                }
            },
            None => {
                proof {
                    if has_embed(consumed) {
                        let w = choose|i: int| 0 <= i < consumed.len() && (#[trigger] embed_line(consumed[i])) is Some;
                        assert(w != old_consumed.len());
                        assert(consumed[w] == old_consumed[w]);
                        assert(has_embed(old_consumed));
                    }
                }
                let ghost old_run = run@;
                let mut j: usize = pos;
                while j < le
                    invariant
                        pos <= j <= le <= n == v.len(),
                        run@ == old_run + v@.subrange(pos as int, j as int),
                    decreases le - j,
                {
                    run.push(v[j]);
                    assert(v@.subrange(pos as int, j + 1) =~= v@.subrange(pos as int, j as int).push(v@[j as int]));
                    j += 1;
                }
                run.push('\n');
                proof {
                    assert(run@ =~= old_run + line.push('\n'));
                }
            },
        }
        pos = next;
    }
    let ghost fl = flush(run@);
    proof {
        assert(v@.skip(pos as int) =~= Seq::<char>::empty());
        assert(lines(v@.skip(pos as int)) =~= Seq::<Seq<char>>::empty());
        assert(lines(md@) =~= consumed);
    }
    if !any_embed {
        let html = render(md);
        segments.push(Segment::Html(html));
        proof {
            assert(body_pieces(md@) == seq![Piece::Run(md@)]);
            assert(call_ensures(render, (md,), html));
            assert(renders_to(md@, html, render));
            assert(seg_renders(segments@[0], body_pieces(md@)[0], render));
        }
        return segments;
    }
    let ghost segs0 = segments@;
    flush_run(&mut segments, &run, &render);
    proof {
        assert(body_pieces(md@) =~= done + fl);
        assert forall|i: int| 0 <= i < segments.len() implies seg_renders(
            #[trigger] segments@[i],
            body_pieces(md@)[i],
            render,
        ) by {
            if i < done.len() {
                assert(segments@[i] == segs0[i]);
                assert((done + fl)[i] == done[i]);
            } else {
                let j = i - done.len();
                assert((done + fl)[i] == fl[j]);
                assert(segments@[segs0.len() + j] == segments@[i]);
                assert(seg_renders(segments@[segs0.len() + j], fl[j], render));
            }
        }
    }
    segments
}

/// Emits the accumulated run as an HTML segment when it holds more than
/// whitespace.
fn flush_run<F: Fn(&str) -> String>(segments: &mut Vec<Segment>, run: &Vec<char>, render: &F)
    requires
        forall|s: &str| #[trigger] call_requires(*render, (s,)),
    ensures
        final(segments)@.len() == old(segments)@.len() + flush(run@).len(),
        forall|i: int| 0 <= i < old(segments)@.len() ==> final(segments)@[i] == old(segments)@[i],
        forall|i: int|
            0 <= i < flush(run@).len() ==> seg_renders(
                #[trigger] final(segments)@[old(segments)@.len() + i],
                flush(run@)[i],
                *render,
            ),
{
    let (a, b) = trim_bounds(run, 0, run.len());
    proof {
        assert(run@.subrange(0, run@.len() as int) =~= run@);
    }
    if a < b {
        let text = string_of_all(run);
        let ts: &str = text.as_str();
        let html = render(ts);
        segments.push(Segment::Html(html));
        proof {
            let k = old(segments)@.len() as int;
            assert(flush(run@)[0] == Piece::Run(run@));
            assert(ts@ == run@);
            assert(call_ensures(*render, (ts,), html));
            assert(segments@[k] == Segment::Html(html));
            assert(seg_renders(segments@[k], flush(run@)[0], *render));
        }
    } else {
        proof {
            assert(run@.subrange(a as int, b as int).len() == 0);
        }
    }
}

/// The embeds among the lines `ls`, in order.
pub open spec fn embed_lines(ls: Seq<Seq<char>>) -> Seq<(Seq<char>, Map<Seq<char>, Seq<char>>)>
    decreases ls.len(),
{
    if ls.len() == 0 {
        seq![]
    } else {
        match embed_line(ls[0]) {
            Some(e) => seq![e] + embed_lines(ls.drop_first()),
            None => embed_lines(ls.drop_first()),
        }
    }
}

/// The embeds among pieces, in order.
pub open spec fn embed_pieces(ps: Seq<Piece>) -> Seq<(Seq<char>, Map<Seq<char>, Seq<char>>)>
    decreases ps.len(),
{
    if ps.len() == 0 {
        seq![]
    } else {
        match ps[0] {
            Piece::Embed(n, p) => seq![(n, p)] + embed_pieces(ps.drop_first()),
            Piece::Run(_) => embed_pieces(ps.drop_first()),
        }
    }
}

/// No two prose runs stand next to each other.
pub open spec fn runs_apart(ps: Seq<Piece>) -> bool {
    forall|i: int, j: int|
        0 <= i && j == i + 1 && j < ps.len() ==> !((#[trigger] ps[i]) is Run && (#[trigger] ps[j]) is Run)
}

/// Every prose run holds more than whitespace.
pub open spec fn runs_not_blank(ps: Seq<Piece>) -> bool {
    forall|i: int| 0 <= i < ps.len() ==> ((#[trigger] ps[i]) is Run ==> trim(ps[i]->Run_0).len() > 0)
}

proof fn lemma_embed_pieces_append(a: Seq<Piece>, b: Seq<Piece>)
    ensures
        embed_pieces(a + b) == embed_pieces(a) + embed_pieces(b),
    decreases a.len(),
{
    if a.len() == 0 {
        assert(a + b =~= b);
        assert(embed_pieces(a) =~= Seq::<(Seq<char>, Map<Seq<char>, Seq<char>>)>::empty());
        assert(embed_pieces(a) + embed_pieces(b) =~= embed_pieces(b));
    } else {
        assert((a + b).drop_first() =~= a.drop_first() + b);
        assert((a + b)[0] == a[0]);
        lemma_embed_pieces_append(a.drop_first(), b);
        match a[0] {
            Piece::Embed(n, p) => {
                assert(seq![(n, p)] + (embed_pieces(a.drop_first()) + embed_pieces(b)) =~= (seq![(n, p)]
                    + embed_pieces(a.drop_first())) + embed_pieces(b));
            },
            Piece::Run(_) => {},
        }
    }
}

proof fn lemma_flush_shape(run: Seq<char>)
    ensures
        flush(run).len() <= 1,
        embed_pieces(flush(run)) == Seq::<(Seq<char>, Map<Seq<char>, Seq<char>>)>::empty(),
        runs_not_blank(flush(run)),
        forall|i: int| 0 <= i < flush(run).len() ==> (#[trigger] flush(run)[i]) is Run,
{
    if trim(run).len() > 0 {
        let f = flush(run);
        assert(f.drop_first() =~= Seq::<Piece>::empty());
        assert(embed_pieces(f) == embed_pieces(f.drop_first()));
    }
}

/// The pieces that split the lines `ls` after the run `run`: embeds in line
/// order, prose runs apart and never blank.
proof fn lemma_split_body_shape(ls: Seq<Seq<char>>, run: Seq<char>)
    ensures
        embed_pieces(split_body(ls, run)) == embed_lines(ls),
        runs_apart(split_body(ls, run)),
        runs_not_blank(split_body(ls, run)),
        split_body(ls, run).len() <= 2 * embed_lines(ls).len() + 1,
    decreases ls.len(),
{
    lemma_flush_shape(run);
    if ls.len() > 0 {
        let t = ls.drop_first();
        match embed_line(ls[0]) {
            Some((n, p)) => {
                lemma_split_body_shape(t, seq![]);
                let f = flush(run);
                let e = seq![Piece::Embed(n, p)];
                let r = split_body(t, seq![]);
                let c = f + e + r;
                assert(split_body(ls, run) == c);
                lemma_embed_pieces_append(f, e);
                lemma_embed_pieces_append(f + e, r);
                assert(e.drop_first() =~= Seq::<Piece>::empty());
                assert(embed_pieces(e.drop_first()) =~= Seq::<(Seq<char>, Map<Seq<char>, Seq<char>>)>::empty());
                assert(e[0] == Piece::Embed(n, p));
                assert(embed_pieces(e) =~= seq![(n, p)]);
                assert(embed_pieces(f) + embed_pieces(e) =~= seq![(n, p)]);
                assert forall|i: int, j: int|
                    0 <= i && j == i + 1 && j < c.len() implies !((#[trigger] c[i]) is Run && (#[trigger] c[j]) is Run) by {
                    if i < f.len() {
                        assert(j == f.len());
                        assert(c[j] == e[0]);
                    } else if i == f.len() {
                        assert(c[i] == e[0]);
                    } else {
                        let k = i - f.len() - 1;
                        assert(c[i] == r[k]);
                        assert(c[j] == r[k + 1]);
                    }
                }
                assert forall|i: int| 0 <= i < c.len() implies ((#[trigger] c[i]) is Run ==> trim(c[i]->Run_0).len() > 0) by {
                    if i < f.len() {
                        assert(c[i] == f[i]);
                    } else if i == f.len() {
                        assert(c[i] == e[0]);
                    } else {
                        assert(c[i] == r[i - f.len() - 1]);
                    }
                }
            },
            None => {
                lemma_split_body_shape(t, run + ls[0].push('\n'));
            },
        }
    }
}

proof fn lemma_no_embed_lines(ls: Seq<Seq<char>>)
    requires
        !has_embed(ls),
    ensures
        embed_lines(ls) == Seq::<(Seq<char>, Map<Seq<char>, Seq<char>>)>::empty(),
    decreases ls.len(),
{
    if ls.len() > 0 {
        let t = ls.drop_first();
        assert(embed_line(ls[0]) is None) by {
            if embed_line(ls[0]) is Some {
                assert(has_embed(ls));
            }
        }
        assert(!has_embed(t)) by {
            if has_embed(t) {
                let w = choose|i: int| 0 <= i < t.len() && (#[trigger] embed_line(t[i])) is Some;
                assert(t[w] == ls[w + 1]);
                assert(has_embed(ls));
            }
        }
        lemma_no_embed_lines(t);
    }
}

/// A body with no embed lines is one prose run holding the whole body, so
/// `parse_body` gives a single HTML segment, the rendering of the body.
pub proof fn law_body_without_embeds(md: Seq<char>)
    requires
        forall|i: int| 0 <= i < lines(md).len() ==> embed_line(#[trigger] lines(md)[i]) is None,
    ensures
        body_pieces(md) == seq![Piece::Run(md)],
{
    assert(!has_embed(lines(md)));
}

/// The block structure of a body: its embeds are the embed lines, in order;
/// no two prose runs stand next to each other; where the body has an embed,
/// no prose run is blank (a blank stretch between embeds yields nothing); and a
/// body with `E` embed lines yields at most `2E + 1` pieces.
pub proof fn law_body_blocks(md: Seq<char>)
    ensures
        embed_pieces(body_pieces(md)) == embed_lines(lines(md)),
        runs_apart(body_pieces(md)),
        has_embed(lines(md)) ==> runs_not_blank(body_pieces(md)),
        body_pieces(md).len() <= 2 * embed_lines(lines(md)).len() + 1,
{
    if has_embed(lines(md)) {
        lemma_split_body_shape(lines(md), seq![]);
    } else {
        lemma_no_embed_lines(lines(md));
        let b = body_pieces(md);
        assert(b.drop_first() =~= Seq::<Piece>::empty());
        assert(embed_pieces(b) == embed_pieces(b.drop_first()));
    }
}

/// `seg` is what `piece` becomes when prose runs go through `render_markdown`.
pub open spec fn seg_is_rendered(seg: Segment, piece: Piece) -> bool {
    match piece {
        Piece::Run(r) => seg is Html && seg->0@ == spec_render_markdown(r),
        Piece::Embed(n, p) => seg is Embed && seg->name@ == n && seg->props@ == p,
    }
}

/// Split `md` into HTML runs and embed blocks, rendering each prose run with
/// `render_markdown`. A body with no embeds yields a single `Html` segment
/// identical to `render_markdown(md)` (see `law_body_without_embeds`).
pub fn parse_body(md: &str) -> (segs: Vec<Segment>)
    ensures
        segs.len() == body_pieces(md@).len(),
        forall|i: int|
            0 <= i < segs.len() ==> seg_is_rendered(#[trigger] segs@[i], body_pieces(md@)[i]),
{
    let segs = parse_body_with(md, render_markdown);
    proof {
        assert forall|i: int| 0 <= i < segs.len() implies seg_is_rendered(
            #[trigger] segs@[i],
            body_pieces(md@)[i],
        ) by {
            assert(seg_renders(segs@[i], body_pieces(md@)[i], render_markdown));
        }
    }
    segs
}

} // verus!
