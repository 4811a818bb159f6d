//! The decisions of the database layer that do not need a connection: slug
//! generation, `LIKE` escaping, whitelisted sort orders, the search query's
//! facet and placeholder layout, and assembling responsive `srcset`s from
//! rendition rows.
use vstd::prelude::*;

use crate::dialect::{now_offset_in, now_offset_in_of, Dialect};
use crate::live::AdminEvent;
use crate::model::{PostCard, PostDetail};
use crate::text::{
    chars_of, copy_opt, dec, dec_int, has_prefix_at, has_substring, i64_digits, is_digit, lemma_dec_len, push_char, push_str,
    str_eq, string_from, usize_digits,
};

verus! {

/// The `PostCard` projection shared across every feed, search, and analytics
/// read path.
pub const POST_CARD_COLUMNS: &'static str = "p.id, p.title, p.slug, p.excerpt, p.featured_image_url, p.author_id, COALESCE(u.display_name, u.username) AS author_name, u.username AS author_username, c.name AS category_name, p.status, p.published_at";

/// The joins `POST_CARD_COLUMNS` depends on; placed right after a `FROM` that
/// aliases the posts row as `p`.
pub const POST_CARD_JOINS: &'static str = "JOIN users u ON u.id = p.author_id LEFT JOIN categories c ON c.id = p.category_id";

/// Notification metadata for one comment plus its post's title and slug, for
/// the site-wide admin live channel (the comment body is deliberately left
/// out).
#[derive(Clone, Debug)]
pub struct CommentWithPost {
    pub id: i64,
    pub post_id: i64,
    pub display_name: String,
    pub status: String,
    pub post_title: String,
    pub post_slug: String,
}

/// A row of the Atom feed query.
#[derive(Clone, Debug)]
pub struct FeedRow {
    pub title: String,
    pub slug: String,
    pub excerpt: String,
    pub body_html: String,
    pub published_at: Option<String>,
    pub updated_at: String,
    pub author_name: String,
}

/// The admin channel's event for a created or moderated comment.
pub fn comment_event(c: CommentWithPost) -> (e: AdminEvent)
    ensures
        e == (AdminEvent::Comment {
            id: c.id,
            post_title: c.post_title,
            post_slug: c.post_slug,
            display_name: c.display_name,
            status: c.status,
        }),
{
    AdminEvent::Comment {
        id: c.id,
        post_title: c.post_title,
        post_slug: c.post_slug,
        display_name: c.display_name,
        status: c.status,
    }
}

// ------------------------------------------------------------------ slugs

/// The slug `slug::slugify` makes of a string.
pub uninterp spec fn slugified(s: Seq<char>) -> Seq<char>;

/// Calls `slug::slugify`. Claimed, as its documentation states: the result
/// depends on the input alone (`slugified`), consists of `a-z`, `0-9` and
/// `-`, never holds two `-` in a row, and never starts or ends with `-`.
#[verifier::external_body]
fn slugify(s: &str) -> (r: String)
    ensures
        r@ == slugified(s@),
        forall|i: int|
            0 <= i < r@.len() ==> ('a' <= #[trigger] r@[i] <= 'z' || '0' <= r@[i] <= '9' || r@[i]
                == '-'),
        forall|i: int| 0 <= i < r@.len() - 1 ==> !(#[trigger] r@[i] == '-' && r@[i + 1] == '-'),
        r@.len() > 0 ==> r@[0] != '-' && r@[r@.len() - 1] != '-',
{
    slug::slugify(s)
}

/// The base slug of a name: its slugified form, or `item` when that is empty.
pub open spec fn slug_base_of(name: Seq<char>) -> Seq<char> {
    if slugified(name).len() == 0 {
        "item"@
    } else {
        slugified(name)
    }
}

/// The base slug for `name`.
pub fn slug_base(name: &str) -> (s: String)
    ensures
        s@ == slug_base_of(name@),
{
    let s = slugify(name);
    if chars_of(s.as_str()).len() == 0 {
        string_from("item")
    } else {
        s
    }
}

/// The `attempt`-th slug tried for `base`: the base itself first, then
/// `base-2`, `base-3`, …
pub open spec fn slug_candidate_of(base: Seq<char>, attempt: nat) -> Seq<char> {
    if attempt <= 1 {
        base
    } else {
        base + seq!['-'] + dec(attempt)
    }
}

/// The `attempt`-th candidate slug for `base` (attempts count from 1).
pub fn slug_candidate(base: &str, attempt: u64) -> (s: String)
    ensures
        s@ == slug_candidate_of(base@, attempt as nat),
{
    let mut s = string_from(base);
    if attempt > 1 {
        push_char(&mut s, '-');
        let d = crate::text::u64_digits(attempt);
        push_str(&mut s, d.as_str());
    }
    s
}

/// One step of probing for a free slug.
pub enum SlugProbe {
    /// The candidate is free: use it.
    Take(String),
    /// The candidate is taken: try this attempt next.
    Next(u64),
}

/// Decides one probe: the `attempt`-th candidate is taken when no row holds
/// it, otherwise probing moves on to the next attempt.
pub fn slug_probe(base: &str, attempt: u64, exists: bool) -> (p: SlugProbe)
    requires
        attempt < u64::MAX,
    ensures
        match p {
            SlugProbe::Take(s) => !exists && s@ == slug_candidate_of(base@, attempt as nat),
            SlugProbe::Next(n) => exists && n == attempt + 1,
        },
{
    if exists {
        SlugProbe::Next(attempt + 1)
    } else {
        SlugProbe::Take(slug_candidate(base, attempt))
    }
}

/// Probing for a free slug never tries the same candidate twice.
pub proof fn law_slug_candidates_distinct(base: Seq<char>, a: nat, b: nat)
    requires
        1 <= a,
        1 <= b,
        a != b,
    ensures
        slug_candidate_of(base, a) != slug_candidate_of(base, b),
{
    crate::text::lemma_dec_len(a);
    crate::text::lemma_dec_len(b);
    let sa = slug_candidate_of(base, a);
    let sb = slug_candidate_of(base, b);
    if a >= 2 && b >= 2 {
        if sa == sb {
            let k = base.len() + 1;
            assert(sa.skip(k as int) =~= dec(a));
            assert(sb.skip(k as int) =~= dec(b));
            crate::text::lemma_dec_injective(a, b);
        }
    } else {
        assert(sa.len() != sb.len());
    }
}

// ------------------------------------------------------------------ LIKE

/// A character with `LIKE` metacharacters escaped (pair with `ESCAPE '\'`).
pub open spec fn like_escaped_char(c: char) -> Seq<char> {
    if c == '\\' {
        seq!['\\', '\\']
    } else if c == '%' {
        seq!['\\', '%']
    } else if c == '_' {
        seq!['\\', '_']
    } else {
        seq![c]
    }
}

/// A string with every `LIKE` metacharacter escaped.
pub open spec fn like_escaped(s: Seq<char>) -> Seq<char>
    decreases s.len(),
{
    if s.len() == 0 {
        seq![]
    } else {
        like_escaped(s.drop_last()) + like_escaped_char(s.last())
    }
}

/// Escape `LIKE` metacharacters so a media URL is matched literally
/// (sanitized filenames can contain `_`, which `LIKE` treats as a wildcard).
pub fn like_escape(s: &str) -> (r: String)
    ensures
        r@ == like_escaped(s@),
{
    let v = chars_of(s);
    let mut out = String::new();
    let mut i: usize = 0;
    while i < v.len()
        invariant
            0 <= i <= v.len(),
            out@ == like_escaped(v@.take(i as int)),
        decreases v.len() - i,
    {
        let c = v[i];
        let ghost pre = out@;
        if c == '\\' {
            push_char(&mut out, '\\');
            push_char(&mut out, '\\');
        } else if c == '%' {
            push_char(&mut out, '\\');
            push_char(&mut out, '%');
        } else if c == '_' {
            push_char(&mut out, '\\');
            push_char(&mut out, '_');
        } else {
            push_char(&mut out, c);
        }
        proof {
            let t = v@.take(i + 1);
            assert(t.drop_last() =~= v@.take(i as int));
            assert(t.last() == c);
            assert(out@ =~= pre + like_escaped_char(c));
        }
        i += 1;
    }
    assert(v@.take(v@.len() as int) =~= v@);
    out
}

/// How `LIKE ... ESCAPE '\\'` reads a pattern's text: a backslash takes the
/// next character literally.
pub open spec fn like_unescaped(t: Seq<char>) -> Seq<char>
    decreases t.len(),
{
    if t.len() == 0 {
        t
    } else if t[0] == '\\' && t.len() >= 2 {
        seq![t[1]] + like_unescaped(t.skip(2))
    } else {
        seq![t[0]] + like_unescaped(t.skip(1))
    }
}

/// Escaping distributes over concatenation.
proof fn lemma_like_escaped_add(a: Seq<char>, b: Seq<char>)
    ensures
        like_escaped(a + b) == like_escaped(a) + like_escaped(b),
    decreases b.len(),
{
    if b.len() == 0 {
        assert(a + b =~= a);
        assert(like_escaped(a) + like_escaped(b) =~= like_escaped(a));
    } else {
        lemma_like_escaped_add(a, b.drop_last());
        assert((a + b).drop_last() =~= a + b.drop_last());
        assert((a + b).last() == b.last());
        assert(like_escaped(a) + like_escaped(b.drop_last()) + like_escaped_char(b.last()) =~= like_escaped(
            a,
        ) + (like_escaped(b.drop_last()) + like_escaped_char(b.last())));
    }
}

/// Read back with `ESCAPE '\\'`, an escaped URL is the URL itself: the pattern
/// matches it literally.
pub proof fn law_like_escape_read_back(s: Seq<char>)
    ensures
        like_unescaped(like_escaped(s)) == s,
    decreases s.len(),
{
    if s.len() > 0 {
        let c = s[0];
        let r = s.drop_first();
        assert(seq![c] + r =~= s);
        lemma_like_escaped_add(seq![c], r);
        assert(seq![c].drop_last() =~= Seq::<char>::empty());
        assert(seq![c].last() == c);
        assert(like_escaped(Seq::<char>::empty()) == Seq::<char>::empty());
        assert(like_escaped(seq![c]) == like_escaped(seq![c].drop_last()) + like_escaped_char(seq![c].last()));
        assert(like_escaped(seq![c]) =~= like_escaped_char(c));
        law_like_escape_read_back(r);
        let e = like_escaped_char(c) + like_escaped(r);
        if c == '\\' || c == '%' || c == '_' {
            assert(e[0] == '\\');
            assert(e[1] == c);
            assert(e.skip(2) =~= like_escaped(r));
        } else {
            assert(e[0] == c);
            assert(e.skip(1) =~= like_escaped(r));
        }
        assert(seq![c] + r =~= s);
    }
}

/// Whether `LIKE ... ESCAPE '\\'` reads a wildcard (`%` or `_`) in a
/// pattern's text: a backslash makes the next character literal.
pub open spec fn like_has_wildcard(t: Seq<char>) -> bool
    decreases t.len(),
{
    if t.len() == 0 {
        false
    } else if t[0] == '\\' && t.len() >= 2 {
        like_has_wildcard(t.skip(2))
    } else {
        t[0] == '%' || t[0] == '_' || like_has_wildcard(t.skip(1))
    }
}

/// Every `%` and `_` of an escaped URL is escaped: the escaped text holds no
/// wildcard.
pub proof fn law_like_escape_no_wildcards(s: Seq<char>)
    ensures
        !like_has_wildcard(like_escaped(s)),
    decreases s.len(),
{
    if s.len() > 0 {
        let c = s[0];
        let r = s.drop_first();
        assert(seq![c] + r =~= s);
        lemma_like_escaped_add(seq![c], r);
        assert(seq![c].drop_last() =~= Seq::<char>::empty());
        assert(seq![c].last() == c);
        assert(like_escaped(Seq::<char>::empty()) == Seq::<char>::empty());
        assert(like_escaped(seq![c]) == like_escaped(seq![c].drop_last()) + like_escaped_char(seq![c].last()));
        assert(like_escaped(seq![c]) =~= like_escaped_char(c));
        law_like_escape_no_wildcards(r);
        let e = like_escaped_char(c) + like_escaped(r);
        if c == '\\' || c == '%' || c == '_' {
            assert(e[0] == '\\');
            assert(e.skip(2) =~= like_escaped(r));
        } else {
            assert(e[0] == c);
            assert(e.skip(1) =~= like_escaped(r));
        }
    }
}

/// The `LIKE` pattern that finds a media URL anywhere in a post body.
pub fn media_usage_pattern(url: &str) -> (p: String)
    ensures
        p@ == seq!['%'] + like_escaped(url@) + seq!['%'],
{
    let mut p = String::new();
    push_char(&mut p, '%');
    let e = like_escape(url);
    push_str(&mut p, e.as_str());
    push_char(&mut p, '%');
    p
}

/// Whether a post, given as its `(featured_image_url, body_md)`, uses the
/// image at `url`: as its cover, or anywhere in its body.
pub open spec fn uses_media(post: (Option<String>, String), url: Seq<char>) -> bool {
    (post.0 is Some && post.0->0@ == url) || has_substring(post.1@, url)
}

/// How many posts of `corpus` use the image at `url`.
pub open spec fn usage_count_of(corpus: Seq<(Option<String>, String)>, url: Seq<char>) -> nat
    decreases corpus.len(),
{
    if corpus.len() == 0 {
        0
    } else {
        usage_count_of(corpus.drop_last(), url) + (if uses_media(corpus.last(), url) {
            1nat
        } else {
            0nat
        })
    }
}

/// Count the posts of `corpus` (every post's cover URL and Markdown body)
/// that use the image at `url`; scanning one corpus gives every media item's
/// count without a query per item.
pub fn media_usage_count(corpus: &Vec<(Option<String>, String)>, url: &str) -> (n: usize)
    ensures
        n == usage_count_of(corpus@, url@),
        n <= corpus@.len(),
{
    let mut n: usize = 0;
    let mut i: usize = 0;
    while i < corpus.len()
        invariant
            0 <= i <= corpus@.len(),
            n == usage_count_of(corpus@.take(i as int), url@),
            n <= i,
        decreases corpus.len() - i,
    {
        proof {
            let t = corpus@.take(i + 1);
            assert(t.drop_last() =~= corpus@.take(i as int));
            assert(t.last() == corpus@[i as int]);
        }
        let cover = match &corpus[i].0 {
            Some(u) => str_eq(u.as_str(), url),
            None => false,
        };
        if cover || crate::text::contains_str(corpus[i].1.as_str(), url) {
            n += 1;
        }
        i += 1;
    }
    assert(corpus@.take(corpus@.len() as int) =~= corpus@);
    n
}

// ------------------------------------------------------------------ admin list

/// The `ORDER BY` clause for the admin post list, from whitelisted sort keys.
pub open spec fn order_by_of(sort: Option<Seq<char>>) -> Seq<char> {
    match sort {
        Some(k) => if k == "title"@ {
            "p.title COLLATE NOCASE ASC, p.id DESC"@
        } else if k == "title_desc"@ {
            "p.title COLLATE NOCASE DESC, p.id DESC"@
        } else if k == "status"@ {
            "p.status ASC, p.updated_at DESC"@
        } else if k == "status_desc"@ {
            "p.status DESC, p.updated_at DESC"@
        } else if k == "published"@ {
            "p.published_at IS NULL, p.published_at DESC, p.id DESC"@
        } else if k == "published_desc"@ {
            "p.published_at IS NULL, p.published_at ASC, p.id ASC"@
        } else if k == "oldest"@ {
            "p.updated_at ASC, p.id ASC"@
        } else {
            "p.updated_at DESC, p.id DESC"@
        },
        None => "p.updated_at DESC, p.id DESC"@,
    }
}

/// The `ORDER BY` clause for a sort key; anything unknown sorts by most
/// recently updated.
pub fn admin_order_by(sort: Option<&str>) -> (o: &'static str)
    ensures
        o@ == order_by_of(match sort {
            Some(k) => Some(k@),
            None => None,
        }),
{
    match sort {
        Some(k) => {
            if str_eq(k, "title") {
                "p.title COLLATE NOCASE ASC, p.id DESC"
            } else if str_eq(k, "title_desc") {
                "p.title COLLATE NOCASE DESC, p.id DESC"
            } else if str_eq(k, "status") {
                "p.status ASC, p.updated_at DESC"
            } else if str_eq(k, "status_desc") {
                "p.status DESC, p.updated_at DESC"
            } else if str_eq(k, "published") {
                "p.published_at IS NULL, p.published_at DESC, p.id DESC"
            } else if str_eq(k, "published_desc") {
                "p.published_at IS NULL, p.published_at ASC, p.id ASC"
            } else if str_eq(k, "oldest") {
                "p.updated_at ASC, p.id ASC"
            } else {
                "p.updated_at DESC, p.id DESC"
            }
        },
        None => "p.updated_at DESC, p.id DESC",
    }
}

// ------------------------------------------------------------------ search

/// The search query's SQL text and where its trailing binds go.
pub struct SearchSql {
    /// The page of matching cards.
    pub items: String,
    /// The count of all matches.
    pub count: String,
    /// Placeholder index of `LIMIT` in `items`.
    pub limit_placeholder: usize,
    /// Placeholder index of `OFFSET` in `items`.
    pub offset_placeholder: usize,
}

/// `$` followed by the placeholder number.
pub open spec fn ph(n: nat) -> Seq<char> {
    seq!['$'] + dec(n)
}

/// The facet filters, numbered from `$2` in the order category, tag, date.
pub open spec fn facets_of(d: Dialect, has_category: bool, has_tag: bool, has_date: bool) -> Seq<char> {
    let n_tag: nat = if has_category { 3 } else { 2 };
    let n_date: nat = n_tag + (if has_tag { 1nat } else { 0nat });
    (if has_category {
        " AND p.category_id = (SELECT id FROM categories WHERE slug = "@ + ph(2) + seq![')']
    } else {
        seq![]
    }) + (if has_tag {
        " AND EXISTS (SELECT 1 FROM post_tags pt JOIN tags t ON t.id = pt.tag_id WHERE pt.post_id = p.id AND t.slug = "@
            + ph(n_tag) + seq![')']
    } else {
        seq![]
    }) + (if has_date {
        " AND p.published_at >= "@ + now_offset_in_of(d, n_date)
    } else {
        seq![]
    })
}

/// Placeholder index after the facets.
pub open spec fn after_facets(has_category: bool, has_tag: bool, has_date: bool) -> nat {
    2 + (if has_category { 1nat } else { 0nat }) + (if has_tag { 1nat } else { 0nat }) + (if has_date { 1nat } else { 0nat })
}

/// Where a search reads its posts from, with a trailing space.
pub open spec fn search_from_of(d: Dialect) -> Seq<char> {
    match d {
        Dialect::Sqlite => "FROM posts_fts f JOIN posts p ON p.id = f.rowid "@,
        Dialect::Postgres => "FROM posts p "@,
    }
}

/// The full-text match condition on `$1`.
pub open spec fn search_match_of(d: Dialect) -> Seq<char> {
    match d {
        Dialect::Sqlite => "WHERE posts_fts MATCH $1"@,
        Dialect::Postgres => "WHERE p.search_tsv @@ plainto_tsquery('english', $1)"@,
    }
}

/// The relevance order.
pub open spec fn search_order_of(d: Dialect) -> Seq<char> {
    match d {
        Dialect::Sqlite => "ORDER BY rank"@,
        Dialect::Postgres => "ORDER BY ts_rank(p.search_tsv, plainto_tsquery('english', $1)) DESC"@,
    }
}

/// The page query of a search.
pub open spec fn search_items_of(d: Dialect, has_category: bool, has_tag: bool, has_date: bool) -> Seq<char> {
    let n = after_facets(has_category, has_tag, has_date);
    "SELECT "@ + POST_CARD_COLUMNS@ + seq![' '] + search_from_of(d) + POST_CARD_JOINS@ + seq![' ']
        + search_match_of(d) + " AND p.status = 'published'"@ + facets_of(d, has_category, has_tag, has_date)
        + seq![' '] + search_order_of(d) + " LIMIT "@ + ph(n) + " OFFSET "@ + ph(n + 1)
}

/// The count query of a search.
pub open spec fn search_count_of(d: Dialect, has_category: bool, has_tag: bool, has_date: bool) -> Seq<char> {
    "SELECT COUNT(*) "@ + search_from_of(d) + search_match_of(d) + " AND p.status = 'published'"@
        + facets_of(d, has_category, has_tag, has_date)
}

fn push_ph(s: &mut String, n: usize)
    ensures
        final(s)@ == old(s)@ + ph(n as nat),
{
    push_char(s, '$');
    let d = usize_digits(n);
    push_str(s, d.as_str());
}

/// The facet filters of a search, with the placeholder index that follows them.
fn search_facets(d: Dialect, has_category: bool, has_tag: bool, has_date: bool) -> (r: (String, usize))
    ensures
        r.0@ == facets_of(d, has_category, has_tag, has_date),
        r.1 == after_facets(has_category, has_tag, has_date),
{
    let mut placeholder: usize = 2;
    let mut facets = String::new();
    if has_category {
        push_str(&mut facets, " AND p.category_id = (SELECT id FROM categories WHERE slug = ");
        push_ph(&mut facets, placeholder);
        push_char(&mut facets, ')');
        placeholder += 1;
    }
    let ghost f1 = facets@;
    if has_tag {
        push_str(
            &mut facets,
            " AND EXISTS (SELECT 1 FROM post_tags pt JOIN tags t ON t.id = pt.tag_id WHERE pt.post_id = p.id AND t.slug = ",
        );
        push_ph(&mut facets, placeholder);
        push_char(&mut facets, ')');
        placeholder += 1;
    }
    let ghost f2 = facets@;
    if has_date {
        push_str(&mut facets, " AND p.published_at >= ");
        let cutoff = now_offset_in(d, placeholder);
        push_str(&mut facets, cutoff.as_str());
        placeholder += 1;
    }
    proof {
        assert(f2 =~= f1 + (if has_tag {
            " AND EXISTS (SELECT 1 FROM post_tags pt JOIN tags t ON t.id = pt.tag_id WHERE pt.post_id = p.id AND t.slug = "@
                + ph(if has_category { 3nat } else { 2nat }) + seq![')']
        } else {
            seq![]
        }));
        assert(facets@ =~= facets_of(d, has_category, has_tag, has_date));
    }
    (facets, placeholder)
}

fn search_from(d: Dialect) -> (s: &'static str)
    ensures
        s@ == search_from_of(d),
{
    match d {
        Dialect::Sqlite => "FROM posts_fts f JOIN posts p ON p.id = f.rowid ",
        Dialect::Postgres => "FROM posts p ",
    }
}

fn search_match(d: Dialect) -> (s: &'static str)
    ensures
        s@ == search_match_of(d),
{
    match d {
        Dialect::Sqlite => "WHERE posts_fts MATCH $1",
        Dialect::Postgres => "WHERE p.search_tsv @@ plainto_tsquery('english', $1)",
    }
}

fn search_order(d: Dialect) -> (s: &'static str)
    ensures
        s@ == search_order_of(d),
{
    match d {
        Dialect::Sqlite => "ORDER BY rank",
        Dialect::Postgres => "ORDER BY ts_rank(p.search_tsv, plainto_tsquery('english', $1)) DESC",
    }
}

fn search_items(d: Dialect, facets: &str, n: usize) -> (s: String)
    requires
        n < usize::MAX,
    ensures
        s@ == "SELECT "@ + POST_CARD_COLUMNS@ + seq![' '] + search_from_of(d) + POST_CARD_JOINS@ + seq![' ']
            + search_match_of(d) + " AND p.status = 'published'"@ + facets@ + seq![' '] + search_order_of(d)
            + " LIMIT "@ + ph(n as nat) + " OFFSET "@ + ph((n + 1) as nat),
{
    let mut items = string_from("SELECT ");
    push_str(&mut items, POST_CARD_COLUMNS);
    push_char(&mut items, ' ');
    push_str(&mut items, search_from(d));
    push_str(&mut items, POST_CARD_JOINS);
    push_char(&mut items, ' ');
    push_str(&mut items, search_match(d));
    push_str(&mut items, " AND p.status = 'published'");
    push_str(&mut items, facets);
    push_char(&mut items, ' ');
    push_str(&mut items, search_order(d));
    push_str(&mut items, " LIMIT ");
    push_ph(&mut items, n);
    push_str(&mut items, " OFFSET ");
    push_ph(&mut items, n + 1);
    items
}

fn search_count(d: Dialect, facets: &str) -> (s: String)
    ensures
        s@ == "SELECT COUNT(*) "@ + search_from_of(d) + search_match_of(d) + " AND p.status = 'published'"@
            + facets@,
{
    let mut count = string_from("SELECT COUNT(*) ");
    push_str(&mut count, search_from(d));
    push_str(&mut count, search_match(d));
    push_str(&mut count, " AND p.status = 'published'");
    push_str(&mut count, facets);
    count
}

/// The full-text search SQL for a dialect: `$1` is always the text query,
/// facets walk `$2..` in the order category, tag, date, and `LIMIT`/`OFFSET`
/// trail.
pub fn search_sql_in(d: Dialect, has_category: bool, has_tag: bool, has_date: bool) -> (q: SearchSql)
    ensures
        q.items@ == search_items_of(d, has_category, has_tag, has_date),
        q.count@ == search_count_of(d, has_category, has_tag, has_date),
        q.limit_placeholder == after_facets(has_category, has_tag, has_date),
        q.offset_placeholder == after_facets(has_category, has_tag, has_date) + 1,
{
    let (facets, n) = search_facets(d, has_category, has_tag, has_date);
    let items = search_items(d, facets.as_str(), n);
    let count = search_count(d, facets.as_str());
    SearchSql { items, count, limit_placeholder: n, offset_placeholder: n + 1 }
}

/// The SQLite full-text search SQL (see `search_sql_in`).
pub fn search_sql(has_category: bool, has_tag: bool, has_date: bool) -> (q: SearchSql)
    ensures
        q.items@ == search_items_of(Dialect::Sqlite, has_category, has_tag, has_date),
        q.count@ == search_count_of(Dialect::Sqlite, has_category, has_tag, has_date),
        q.limit_placeholder == after_facets(has_category, has_tag, has_date),
        q.offset_placeholder == after_facets(has_category, has_tag, has_date) + 1,
{
    search_sql_in(Dialect::Sqlite, has_category, has_tag, has_date)
}

// ------------------------------------------------------------------ placeholder laws

/// The number of `$` characters in `s`: how many placeholders a query text holds.
pub open spec fn dollar_count(s: Seq<char>) -> nat
    decreases s.len(),
{
    if s.len() == 0 {
        0
    } else {
        dollar_count(s.drop_last()) + (if s.last() == '$' { 1nat } else { 0nat })
    }
}

proof fn lemma_dollar_add(a: Seq<char>, b: Seq<char>)
    ensures
        dollar_count(a + b) == dollar_count(a) + dollar_count(b),
    decreases b.len(),
{
    if b.len() == 0 {
        assert(a + b =~= a);
    } else {
        lemma_dollar_add(a, b.drop_last());
        assert((a + b).drop_last() =~= a + b.drop_last());
        assert((a + b).last() == b.last());
    }
}

proof fn lemma_dollar_free(s: Seq<char>)
    requires
        forall|i: int| 0 <= i < s.len() ==> #[trigger] s[i] != '$',
    ensures
        dollar_count(s) == 0,
    decreases s.len(),
{
    if s.len() > 0 {
        let t = s.drop_last();
        assert forall|i: int| 0 <= i < t.len() implies #[trigger] t[i] != '$' by {
            assert(t[i] == s[i]);
        }
        lemma_dollar_free(t);
        assert(s.last() == s[s.len() - 1]);
    }
}

/// A text whose only `$` is at `p` holds one placeholder.
proof fn lemma_dollar_one(s: Seq<char>, p: int)
    requires
        0 <= p < s.len(),
        s[p] == '$',
        forall|i: int| 0 <= i < s.len() && i != p ==> #[trigger] s[i] != '$',
    ensures
        dollar_count(s) == 1,
{
    let a = s.take(p);
    let b = s.skip(p + 1);
    assert forall|i: int| 0 <= i < a.len() implies #[trigger] a[i] != '$' by {
        assert(a[i] == s[i]);
    }
    assert forall|i: int| 0 <= i < b.len() implies #[trigger] b[i] != '$' by {
        assert(b[i] == s[p + 1 + i]);
    }
    lemma_dollar_free(a);
    lemma_dollar_free(b);
    assert(s =~= a + seq!['$'] + b);
    lemma_dollar_add(a + seq!['$'], b);
    lemma_dollar_add(a, seq!['$']);
    assert(seq!['$'].drop_last() =~= Seq::<char>::empty());
    assert(dollar_count(Seq::<char>::empty()) == 0);
    assert(dollar_count(seq!['$']) == 1);
}

/// A facet clause `lit + $n + tail`: one placeholder, `$n`, when the literal
/// and the tail hold no `$`.
proof fn lemma_clause(lit: Seq<char>, n: nat, tail: Seq<char>)
    requires
        forall|i: int| 0 <= i < lit.len() ==> #[trigger] lit[i] != '$',
        forall|i: int| 0 <= i < tail.len() ==> #[trigger] tail[i] != '$',
    ensures
        dollar_count(lit + ph(n) + tail) == 1,
        has_substring(lit + ph(n) + tail, ph(n)),
{
    let s = lit + ph(n) + tail;
    lemma_dec_len(n);
    let p = lit.len() as int;
    assert(s[p] == '$');
    assert forall|i: int| 0 <= i < s.len() && i != p implies #[trigger] s[i] != '$' by {
        if i < p {
            assert(s[i] == lit[i]);
        } else if i < p + ph(n).len() {
            assert(s[i] == dec(n)[i - p - 1]);
            assert(is_digit(dec(n)[i - p - 1]));
        } else {
            assert(s[i] == tail[i - p - ph(n).len()]);
        }
    }
    lemma_dollar_one(s, p);
    assert(s.subrange(p, p + ph(n).len()) =~= ph(n));
}

/// An occurrence in one part is an occurrence in the whole.
proof fn lemma_substring_in_part(a: Seq<char>, x: Seq<char>, b: Seq<char>, n: Seq<char>)
    requires
        has_substring(x, n),
    ensures
        has_substring(a + x + b, n),
{
    let i = choose|i: int| 0 <= i && i + n.len() <= x.len() && #[trigger] x.subrange(i, i + n.len()) == n;
    let w = a + x + b;
    assert(w.subrange(a.len() + i, a.len() + i + n.len()) =~= x.subrange(i, i + n.len()));
}

/// The date clause: one placeholder, `$n`.
proof fn lemma_date_clause(d: Dialect, n: nat)
    ensures
        dollar_count(" AND p.published_at >= "@ + now_offset_in_of(d, n)) == 1,
        has_substring(" AND p.published_at >= "@ + now_offset_in_of(d, n), ph(n)),
{
    reveal_strlit(" AND p.published_at >= ");
    reveal_strlit("(datetime('now', $");
    reveal_strlit("(NOW() + $");
    let lit = " AND p.published_at >= "@;
    crate::dialect::law_now_offset_placeholder(d, n);
    let o = now_offset_in_of(d, n);
    let h = crate::dialect::offset_head(d);
    lemma_dec_len(n);
    assert(h.len() >= 1);
    assert(o[h.len() - 1] == '$');
    let q = h.len() - 1;
    assert(o.subrange(q, q + ph(n).len()) =~= ph(n)) by {
        assert forall|j: int| 0 <= j < dec(n).len() implies o[h.len() + j] == dec(n)[j] by {}
    }
    assert(has_substring(o, ph(n)));
    let s = lit + o;
    let p = lit.len() + h.len() - 1;
    assert(s[p] == '$');
    assert forall|i: int| 0 <= i < s.len() && i != p implies #[trigger] s[i] != '$' by {
        if i < lit.len() {
            assert(s[i] == lit[i]);
        } else {
            assert(s[i] == o[i - lit.len()]);
        }
    }
    lemma_dollar_one(s, p);
    lemma_substring_in_part(lit, o, Seq::<char>::empty(), ph(n));
    assert(lit + o + Seq::<char>::empty() =~= s);
}

/// The search facets bind one value per facet present, at `$2`, `$3`, … in
/// the order category, tag, date, and `LIMIT` comes right after them: the
/// facets hold exactly `after_facets - 2` placeholders, every number from `$2`
/// up to the one before `LIMIT` occurs among them, so `LIMIT` (and `OFFSET`
/// after it) never reuses a facet's placeholder.
pub proof fn law_search_placeholders(d: Dialect, has_category: bool, has_tag: bool, has_date: bool)
    ensures
        dollar_count(facets_of(d, has_category, has_tag, has_date)) + 2 == after_facets(has_category, has_tag, has_date),
        forall|k: nat|
            2 <= k < after_facets(has_category, has_tag, has_date) ==> has_substring(
                facets_of(d, has_category, has_tag, has_date),
                #[trigger] ph(k),
            ),
        after_facets(has_category, has_tag, has_date) == 2 + (if has_category { 1nat } else { 0nat }) + (if has_tag {
            1nat
        } else {
            0nat
        }) + (if has_date { 1nat } else { 0nat }),
{
    reveal_strlit(" AND p.category_id = (SELECT id FROM categories WHERE slug = ");
    reveal_strlit(
        " AND EXISTS (SELECT 1 FROM post_tags pt JOIN tags t ON t.id = pt.tag_id WHERE pt.post_id = p.id AND t.slug = ",
    );
    let l1 = " AND p.category_id = (SELECT id FROM categories WHERE slug = "@;
    let l2 =
        " AND EXISTS (SELECT 1 FROM post_tags pt JOIN tags t ON t.id = pt.tag_id WHERE pt.post_id = p.id AND t.slug = "@;
    assert forall|i: int| 0 <= i < l1.len() implies #[trigger] l1[i] != '$' by {}
    assert forall|i: int| 0 <= i < l2.len() implies #[trigger] l2[i] != '$' by {}
    let close = seq![')'];
    assert forall|i: int| 0 <= i < close.len() implies #[trigger] close[i] != '$' by {}
    let n_tag: nat = if has_category { 3 } else { 2 };
    let n_date: nat = n_tag + (if has_tag { 1nat } else { 0nat });
    let e = Seq::<char>::empty();
    let cp = if has_category { l1 + ph(2) + close } else { e };
    let tp = if has_tag { l2 + ph(n_tag) + close } else { e };
    let dp = if has_date { " AND p.published_at >= "@ + now_offset_in_of(d, n_date) } else { e };
    let f = facets_of(d, has_category, has_tag, has_date);
    assert(f == cp + tp + dp);
    assert(dollar_count(e) == 0);
    lemma_clause(l1, 2, close);
    lemma_clause(l2, n_tag, close);
    lemma_date_clause(d, n_date);
    lemma_dollar_add(cp, tp);
    lemma_dollar_add(cp + tp, dp);
    assert forall|k: nat| 2 <= k < after_facets(has_category, has_tag, has_date) implies has_substring(
        f,
        #[trigger] ph(k),
    ) by {
        if has_category && k == 2 {
            lemma_substring_in_part(e, cp, tp + dp, ph(k));
            assert(e + cp + (tp + dp) =~= f);
        } else if has_tag && k == n_tag {
            lemma_substring_in_part(cp, tp, dp, ph(k));
        } else {
            assert(has_date && k == n_date);
            lemma_substring_in_part(cp + tp, dp, e, ph(k));
            assert(cp + tp + dp + e =~= f);
        }
    }
}

// ------------------------------------------------------------------ renditions

/// `$1,$2,…,$n`.
pub open spec fn placeholder_list(n: nat) -> Seq<char>
    decreases n,
{
    if n == 0 {
        seq![]
    } else if n == 1 {
        ph(1)
    } else {
        placeholder_list((n - 1) as nat) + seq![','] + ph(n)
    }
}

/// The comma-separated placeholders `$1..$n` of an `IN (…)` list.
pub fn placeholders(n: usize) -> (s: String)
    ensures
        s@ == placeholder_list(n as nat),
{
    let mut s = String::new();
    let mut i: usize = 0;
    while i < n
        invariant
            0 <= i <= n,
            s@ == placeholder_list(i as nat),
        decreases n - i,
    {
        if i > 0 {
            push_char(&mut s, ',');
        }
        push_ph(&mut s, i + 1);
        i += 1;
    }
    s
}

/// The rendition query for `n` media URLs, ordered by URL then width.
pub fn srcset_query(n: usize) -> (s: String)
    ensures
        s@ == "SELECT m.url AS media_url, v.format AS format, v.width AS width, v.url AS url FROM media_variants v JOIN media m ON m.id = v.media_id WHERE m.url IN ("@
            + placeholder_list(n as nat) + ") ORDER BY m.url, v.width ASC"@,
{
    let mut s = string_from(
        "SELECT m.url AS media_url, v.format AS format, v.width AS width, v.url AS url FROM media_variants v JOIN media m ON m.id = v.media_id WHERE m.url IN (",
    );
    let p = placeholders(n);
    push_str(&mut s, p.as_str());
    push_str(&mut s, ") ORDER BY m.url, v.width ASC");
    s
}

/// One rendition row: `(media_url, format, width, url)`.
pub type RenditionRow = (String, String, i64, String);

/// A rendition's `srcset` entry: `"{url} {width}w"`.
pub open spec fn srcset_entry(url: Seq<char>, width: int) -> Seq<char> {
    url + seq![' '] + dec_int(width) + seq!['w']
}

/// The `srcset` entries of `media_url` in format `fmt`, in row order.
pub open spec fn entries_for(rows: Seq<RenditionRow>, media_url: Seq<char>, fmt: Seq<char>) -> Seq<Seq<char>>
    decreases rows.len(),
{
    if rows.len() == 0 {
        seq![]
    } else {
        let r = rows.last();
        let pre = entries_for(rows.drop_last(), media_url, fmt);
        if r.0@ == media_url && r.1@ == fmt {
            pre.push(srcset_entry(r.3@, r.2 as int))
        } else {
            pre
        }
    }
}

/// Entries joined by `", "`.
pub open spec fn join_comma(es: Seq<Seq<char>>) -> Seq<char>
    decreases es.len(),
{
    if es.len() == 0 {
        seq![]
    } else if es.len() == 1 {
        es[0]
    } else {
        join_comma(es.drop_last()) + seq![',', ' '] + es.last()
    }
}

/// The `srcset` of `media_url` in `fmt`, when it has any rendition in it.
pub open spec fn srcset_of(rows: Seq<RenditionRow>, media_url: Seq<char>, fmt: Seq<char>) -> Option<Seq<char>> {
    let es = entries_for(rows, media_url, fmt);
    if es.len() > 0 {
        Some(join_comma(es))
    } else {
        None
    }
}

pub open spec fn opt_view(o: Option<String>) -> Option<Seq<char>> {
    match o {
        Some(s) => Some(s@),
        None => None,
    }
}

/// The `srcset` of `media_url` in `fmt` built from `rows`.
fn srcset_for(rows: &Vec<RenditionRow>, media_url: &str, fmt: &str) -> (r: Option<String>)
    ensures
        opt_view(r) == srcset_of(rows@, media_url@, fmt@),
{
    let mut out = String::new();
    let mut count: usize = 0;
    let mut i: usize = 0;
    while i < rows.len()
        invariant
            0 <= i <= rows.len(),
            count == entries_for(rows@.take(i as int), media_url@, fmt@).len(),
            out@ == join_comma(entries_for(rows@.take(i as int), media_url@, fmt@)),
        decreases rows.len() - i,
    {
        let ghost pre = rows@.take(i as int);
        proof {
            assert(rows@.take(i + 1).drop_last() =~= pre);
            assert(rows@.take(i + 1).last() == rows@[i as int]);
        }
        let row = &rows[i];
        if str_eq(row.0.as_str(), media_url) && str_eq(row.1.as_str(), fmt) {
            let ghost before = out@;
            if count > 0 {
                push_char(&mut out, ',');
                push_char(&mut out, ' ');
            }
            push_str(&mut out, row.3.as_str());
            push_char(&mut out, ' ');
            let w = i64_digits(row.2);
            push_str(&mut out, w.as_str());
            push_char(&mut out, 'w');
            proof {
                let es = entries_for(rows@.take(i + 1), media_url@, fmt@);
                assert(es.drop_last() =~= entries_for(pre, media_url@, fmt@));
                if count == 0 {
                    assert(out@ =~= srcset_entry(row.3@, row.2 as int));
                } else {
                    assert(out@ =~= before + seq![',', ' '] + srcset_entry(row.3@, row.2 as int));
                }
            }
            if count < usize::MAX {
                count += 1;
            }
            proof {
                assert(count == entries_for(rows@.take(i + 1), media_url@, fmt@).len()) by {
                    assert(entries_for(rows@.take(i as int), media_url@, fmt@).len() <= i) by {
                        lemma_entries_len(rows@.take(i as int), media_url@, fmt@);
                    }
                }
            }
        }
        i += 1;
    }
    assert(rows@.take(rows@.len() as int) =~= rows@);
    if count > 0 {
        Some(out)
    } else {
        None
    }
}

proof fn lemma_entries_len(rows: Seq<RenditionRow>, media_url: Seq<char>, fmt: Seq<char>)
    ensures
        entries_for(rows, media_url, fmt).len() <= rows.len(),
    decreases rows.len(),
{
    if rows.len() > 0 {
        lemma_entries_len(rows.drop_last(), media_url, fmt);
    }
}

/// One media URL's responsive sources: `(url, avif_srcset, webp_srcset)`.
pub type Srcsets = (String, Option<String>, Option<String>);

/// Build `(avif_srcset, webp_srcset)` for each requested media URL from the
/// rendition rows; URLs with no renditions in either format are left out.
/// Each `srcset` is `"url1 320w, url2 640w, …"` in row order.
pub fn assemble_srcsets(urls: &Vec<String>, rows: &Vec<RenditionRow>) -> (out: Vec<Srcsets>)
    ensures
        forall|i: int|
            0 <= i < out@.len() ==> {
                let (u, a, w) = #[trigger] out@[i];
                &&& exists|j: int| 0 <= j < urls@.len() && urls@[j]@ == u@
                &&& opt_view(a) == srcset_of(rows@, u@, "avif"@)
                &&& opt_view(w) == srcset_of(rows@, u@, "webp"@)
                &&& (a is Some || w is Some)
            },
        forall|j: int|
            0 <= j < urls@.len() && (srcset_of(rows@, urls@[j]@, "avif"@) is Some || srcset_of(
                rows@,
                urls@[j]@,
                "webp"@,
            ) is Some) ==> exists|i: int| 0 <= i < out@.len() && (#[trigger] out@[i]).0@ == urls@[j]@,
{
    let mut out: Vec<Srcsets> = Vec::new();
    let mut j: usize = 0;
    while j < urls.len()
        invariant
            0 <= j <= urls.len(),
            forall|i: int|
                0 <= i < out@.len() ==> {
                    let (u, a, w) = #[trigger] out@[i];
                    &&& exists|k: int| 0 <= k < urls@.len() && urls@[k]@ == u@
                    &&& opt_view(a) == srcset_of(rows@, u@, "avif"@)
                    &&& opt_view(w) == srcset_of(rows@, u@, "webp"@)
                    &&& (a is Some || w is Some)
                },
            forall|k: int|
                0 <= k < j && (srcset_of(rows@, urls@[k]@, "avif"@) is Some || srcset_of(
                    rows@,
                    urls@[k]@,
                    "webp"@,
                ) is Some) ==> exists|i: int| 0 <= i < out@.len() && (#[trigger] out@[i]).0@ == urls@[k]@,
        decreases urls.len() - j,
    {
        let u = &urls[j];
        let a = srcset_for(rows, u.as_str(), "avif");
        let w = srcset_for(rows, u.as_str(), "webp");
        if a.is_some() || w.is_some() {
            let ghost before = out@;
            out.push((u.clone(), a, w));
            proof {
                let n = before.len() as int;
                assert(out@[n].0@ == urls@[j as int]@);
                assert forall|k: int|
                    0 <= k < j + 1 && (srcset_of(rows@, urls@[k]@, "avif"@) is Some || srcset_of(
                        rows@,
                        urls@[k]@,
                        "webp"@,
                    ) is Some) implies exists|i: int|
                    0 <= i < out@.len() && (#[trigger] out@[i]).0@ == urls@[k]@ by {
                    if k < j {
                        let i = choose|i: int| 0 <= i < before.len() && (#[trigger] before[i]).0@ == urls@[k]@;
                        assert(out@[i] == before[i]);
                    } else {
                        assert(out@[n].0@ == urls@[k]@);
                    }
                }
                assert forall|i: int| 0 <= i < out@.len() implies {
                    let (u2, a2, w2) = #[trigger] out@[i];
                    &&& exists|k: int| 0 <= k < urls@.len() && urls@[k]@ == u2@
                    &&& opt_view(a2) == srcset_of(rows@, u2@, "avif"@)
                    &&& opt_view(w2) == srcset_of(rows@, u2@, "webp"@)
                    &&& (a2 is Some || w2 is Some)
                } by {
                    if i < n {
                        assert(out@[i] == before[i]);
                    } else {
                        assert(urls@[j as int]@ == out@[i].0@);
                    }
                }
            }
        }
        j += 1;
    }
    out
}

/// The sources recorded for `url`, if any.
pub open spec fn lookup_of(map: Seq<Srcsets>, url: Seq<char>) -> Option<(Option<Seq<char>>, Option<Seq<char>>)>
    decreases map.len(),
{
    if map.len() == 0 {
        None
    } else if map[0].0@ == url {
        Some((opt_view(map[0].1), opt_view(map[0].2)))
    } else {
        lookup_of(map.drop_first(), url)
    }
}

/// The sources recorded for `url`, first match wins.
pub fn lookup_srcsets(map: &Vec<Srcsets>, url: &str) -> (r: Option<(Option<String>, Option<String>)>)
    ensures
        match r {
            Some((a, w)) => lookup_of(map@, url@) == Some((opt_view(a), opt_view(w))),
            None => lookup_of(map@, url@) is None,
        },
{
    let mut i: usize = 0;
    assert(map@.skip(0) =~= map@);
    while i < map.len()
        invariant
            0 <= i <= map.len(),
            lookup_of(map@, url@) == lookup_of(map@.skip(i as int), url@),
        decreases map.len() - i,
    {
        proof {
            assert(map@.skip(i as int)[0] == map@[i as int]);
            assert(map@.skip(i as int).drop_first() =~= map@.skip(i + 1));
        }
        if str_eq(map[i].0.as_str(), url) {
            return Some((map[i].1.clone(), map[i].2.clone()));
        }
        i += 1;
    }
    proof {
        assert(map@.skip(i as int) =~= Seq::<Srcsets>::empty());
    }
    None
}

/// Whether a featured image is a local upload (one that may have renditions).
pub open spec fn is_upload(url: Seq<char>) -> bool {
    url.len() >= 9 && url.take(9) == "/uploads/"@
}

/// Whether `url` is a local upload.
pub fn is_upload_url(url: &str) -> (b: bool)
    ensures
        b == is_upload(url@),
{
    let v = chars_of(url);
    let p = chars_of("/uploads/");
    proof {
        reveal_strlit("/uploads/");
    }
    let b = has_prefix_at(&v, 0, &p);
    proof {
        assert(p@.len() == 9);
        if b {
            assert(v@.subrange(0, 9) =~= v@.take(9));
        } else if v@.len() >= 9 {
            assert(v@.subrange(0, 9) =~= v@.take(9));
        }
    }
    b
}

/// The local-upload featured image of a card, if it has one.
pub open spec fn card_upload(card: PostCard) -> Option<Seq<char>> {
    if card.featured_image_url is Some && is_upload(card.featured_image_url->0@) {
        Some(card.featured_image_url->0@)
    } else {
        None
    }
}

/// The local-upload featured images of `cards`, in card order.
pub open spec fn uploads_of(cards: Seq<PostCard>) -> Seq<Seq<char>>
    decreases cards.len(),
{
    if cards.len() == 0 {
        seq![]
    } else {
        let pre = uploads_of(cards.drop_last());
        match card_upload(cards.last()) {
            Some(u) => pre.push(u),
            None => pre,
        }
    }
}

/// The featured images of `cards` that are local uploads, in card order.
pub fn upload_urls(cards: &Vec<PostCard>) -> (urls: Vec<String>)
    ensures
        urls@.len() == uploads_of(cards@).len(),
        forall|i: int| 0 <= i < urls@.len() ==> (#[trigger] urls@[i])@ == uploads_of(cards@)[i],
{
    let mut urls: Vec<String> = Vec::new();
    let mut k: usize = 0;
    while k < cards.len()
        invariant
            0 <= k <= cards.len(),
            urls@.len() == uploads_of(cards@.take(k as int)).len(),
            forall|i: int|
                0 <= i < urls@.len() ==> (#[trigger] urls@[i])@ == uploads_of(cards@.take(k as int))[i],
        decreases cards.len() - k,
    {
        proof {
            let t = cards@.take(k + 1);
            assert(t.drop_last() =~= cards@.take(k as int));
            assert(t.last() == cards@[k as int]);
        }
        match &cards[k].featured_image_url {
            Some(u) => {
                if is_upload_url(u.as_str()) {
                    urls.push(u.clone());
                }
            },
            None => {},
        }
        k += 1;
    }
    assert(cards@.take(cards@.len() as int) =~= cards@);
    urls
}

/// Fill the responsive `srcset` fields on each card whose featured image has
/// recorded sources; every other card, and every other field, is unchanged.
pub fn apply_card_srcsets(cards: &mut Vec<PostCard>, map: &Vec<Srcsets>)
    ensures
        final(cards)@.len() == old(cards)@.len(),
        forall|k: int|
            0 <= k < final(cards)@.len() ==> {
                let before = old(cards)@[k];
                let after = #[trigger] final(cards)@[k];
                &&& after.id == before.id && after.title == before.title && after.slug == before.slug
                    && after.excerpt == before.excerpt && after.featured_image_url
                    == before.featured_image_url && after.author_id == before.author_id
                    && after.author_name == before.author_name && after.author_username
                    == before.author_username && after.category_name == before.category_name
                    && after.status == before.status && after.published_at == before.published_at
                &&& match before.featured_image_url {
                    Some(u) => match lookup_of(map@, u@) {
                        Some((a, w)) => opt_view(after.featured_srcset_avif) == a && opt_view(
                            after.featured_srcset_webp,
                        ) == w,
                        None => after.featured_srcset_avif == before.featured_srcset_avif
                            && after.featured_srcset_webp == before.featured_srcset_webp,
                    },
                    None => after.featured_srcset_avif == before.featured_srcset_avif
                        && after.featured_srcset_webp == before.featured_srcset_webp,
                }
            },
{
    let mut k: usize = 0;
    while k < cards.len()
        invariant
            0 <= k <= cards.len(),
            cards@.len() == old(cards)@.len(),
            forall|m: int| k <= m < cards@.len() ==> cards@[m] == old(cards)@[m],
            forall|m: int|
                0 <= m < k ==> {
                    let before = old(cards)@[m];
                    let after = #[trigger] cards@[m];
                    &&& after.id == before.id && after.title == before.title && after.slug
                        == before.slug && after.excerpt == before.excerpt
                        && after.featured_image_url == before.featured_image_url && after.author_id
                        == before.author_id && after.author_name == before.author_name
                        && after.author_username == before.author_username && after.category_name
                        == before.category_name && after.status == before.status
                        && after.published_at == before.published_at
                    &&& match before.featured_image_url {
                        Some(u) => match lookup_of(map@, u@) {
                            Some((a, w)) => opt_view(after.featured_srcset_avif) == a && opt_view(
                                after.featured_srcset_webp,
                            ) == w,
                            None => after.featured_srcset_avif == before.featured_srcset_avif
                                && after.featured_srcset_webp == before.featured_srcset_webp,
                        },
                        None => after.featured_srcset_avif == before.featured_srcset_avif
                            && after.featured_srcset_webp == before.featured_srcset_webp,
                    }
                },
        decreases cards.len() - k,
    {
        let found = match &cards[k].featured_image_url {
            Some(u) => lookup_srcsets(map, u.as_str()),
            None => None,
        };
        match found {
            Some((a, w)) => {
                let c = &cards[k];
                let card = PostCard {
                    id: c.id,
                    title: c.title.clone(),
                    slug: c.slug.clone(),
                    excerpt: c.excerpt.clone(),
                    featured_image_url: copy_opt(&c.featured_image_url),
                    featured_srcset_webp: w,
                    featured_srcset_avif: a,
                    author_id: c.author_id,
                    author_name: c.author_name.clone(),
                    author_username: c.author_username.clone(),
                    category_name: copy_opt(&c.category_name),
                    status: c.status.clone(),
                    published_at: copy_opt(&c.published_at),
                };
                cards.set(k, card);
            },
            None => {},
        }
        k += 1;
    }
}

/// The local-upload featured image of a post detail, if it has one.
pub fn detail_upload_url(detail: &PostDetail) -> (r: Option<String>)
    ensures
        match r {
            Some(u) => detail.featured_image_url matches Some(f) && f@ == u@ && is_upload(u@),
            None => !(detail.featured_image_url matches Some(f) && is_upload(f@)),
        },
{
    match &detail.featured_image_url {
        Some(u) => {
            if is_upload_url(u.as_str()) {
                Some(u.clone())
            } else {
                None
            }
        },
        None => None,
    }
}

/// Fill a post detail's responsive `srcset` fields when its featured image
/// has recorded sources.
pub fn apply_detail_srcsets(detail: &mut PostDetail, map: &Vec<Srcsets>)
    ensures
        match old(detail).featured_image_url {
            Some(u) => match lookup_of(map@, u@) {
                Some((a, w)) => opt_view(final(detail).featured_srcset_avif) == a && opt_view(
                    final(detail).featured_srcset_webp,
                ) == w,
                None => final(detail).featured_srcset_avif == old(detail).featured_srcset_avif
                    && final(detail).featured_srcset_webp == old(detail).featured_srcset_webp,
            },
            None => final(detail).featured_srcset_avif == old(detail).featured_srcset_avif
                && final(detail).featured_srcset_webp == old(detail).featured_srcset_webp,
        },
        final(detail).id == old(detail).id,
        final(detail).featured_image_url == old(detail).featured_image_url,
        final(detail).body_md == old(detail).body_md,
        final(detail).title == old(detail).title,
{
    let found = match &detail.featured_image_url {
        Some(u) => lookup_srcsets(map, u.as_str()),
        None => None,
    };
    match found {
        Some((a, w)) => {
            detail.featured_srcset_avif = a;
            detail.featured_srcset_webp = w;
        },
        None => {},
    }
}

} // verus!
