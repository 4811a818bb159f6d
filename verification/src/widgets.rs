//! The decisions of the shared feed widgets: how cards are arranged, the
//! responsive `<picture>` markup of an image, the pager, and tag chips.
use vstd::prelude::*;

use crate::text::{dec_int, i64_digits, push_char, push_str, string_from};

verus! {

/// How a feed's cards are arranged inside its layout.
#[derive(Clone, Copy, PartialEq, Eq, Debug)]
pub enum FeedShape {
    Grid,
    Bento,
    Masonry,
}

/// The extra class of the `i`-th tile of a bento feed: the first is a 2x2
/// feature tile.
pub fn bento_tile_class(i: usize) -> (s: &'static str)
    ensures
        i == 0 ==> s@ == "col-span-2 row-span-2"@,
        i != 0 ==> s@.len() == 0,
{
    proof {
        reveal_strlit("");
    }
    if i == 0 {
        "col-span-2 row-span-2"
    } else {
        ""
    }
}

/// The class of a tag chip: accent-filled for the tag whose feed is open.
pub fn tag_pill_class(active: bool) -> (s: &'static str)
    ensures
        active ==> s@ == "rounded-full border border-brand-500 bg-brand-500 px-3.5 py-1.5 font-medium text-white shadow-sm shadow-brand-500/30"@,
        !active ==> s@ == "rounded-full border border-white/10 bg-white/[0.06] px-3.5 py-1.5 text-white/70 transition-colors hover:border-brand-400/40 hover:bg-white/10 hover:text-white"@,
{
    if active {
        "rounded-full border border-brand-500 bg-brand-500 px-3.5 py-1.5 font-medium text-white shadow-sm shadow-brand-500/30"
    } else {
        "rounded-full border border-white/10 bg-white/[0.06] px-3.5 py-1.5 text-white/70 transition-colors hover:border-brand-400/40 hover:bg-white/10 hover:text-white"
    }
}

// ------------------------------------------------------------------ picture

/// One character escaped for an HTML attribute value: `&`, `<` and `"`.
pub open spec fn escaped_char(c: char) -> Seq<char> {
    if c == '&' {
        "&amp;"@
    } else if c == '<' {
        "&lt;"@
    } else if c == '"' {
        "&quot;"@
    } else {
        seq![c]
    }
}

/// A string escaped for an HTML attribute value.
pub open spec fn escaped(s: Seq<char>) -> Seq<char>
    decreases s.len(),
{
    if s.len() == 0 {
        seq![]
    } else {
        escaped(s.drop_last()) + escaped_char(s.last())
    }
}

/// Append `s` escaped for an HTML attribute value.
pub fn push_escaped(out: &mut String, s: &str)
    ensures
        final(out)@ == old(out)@ + escaped(s@),
{
    let v = crate::text::chars_of(s);
    let ghost start = out@;
    let mut i: usize = 0;
    while i < v.len()
        invariant
            0 <= i <= v@.len(),
            v@ == s@,
            out@ == start + escaped(v@.take(i as int)),
        decreases v.len() - i,
    {
        let c = v[i];
        let ghost pre = out@;
        if c == '&' {
            push_str(out, "&amp;");
        } else if c == '<' {
            push_str(out, "&lt;");
        } else if c == '"' {
            push_str(out, "&quot;");
        } else {
            push_char(out, c);
        }
        proof {
            let t = v@.take(i + 1);
            assert(t.drop_last() =~= v@.take(i as int));
            assert(t.last() == c);
            assert(out@ =~= pre + escaped_char(c));
            assert(start + escaped(t) =~= start + escaped(v@.take(i as int)) + escaped_char(c));
        }
        i += 1;
    }
    assert(v@.take(v@.len() as int) =~= v@);
}

/// A `<source>` of one format.
pub open spec fn source_of(mime: Seq<char>, srcset: Seq<char>, sizes: Seq<char>) -> Seq<char> {
    "<source type=\""@ + mime + "\" srcset=\""@ + escaped(srcset) + "\" sizes=\""@ + escaped(sizes)
        + "\">"@
}

/// The `<picture>` of an image with its AVIF and WebP sources.
pub open spec fn picture_of(
    src: Seq<char>,
    alt: Seq<char>,
    class: Seq<char>,
    sizes: Seq<char>,
    webp: Option<Seq<char>>,
    avif: Option<Seq<char>>,
) -> Seq<char> {
    "<picture>"@ + (match avif {
        Some(a) => source_of("image/avif"@, a, sizes),
        None => seq![],
    }) + (match webp {
        Some(w) => source_of("image/webp"@, w, sizes),
        None => seq![],
    }) + "<img class=\""@ + escaped(class) + "\" src=\""@ + escaped(src) + "\" alt=\""@ + escaped(alt)
        + "\" loading=\"lazy\" decoding=\"async\"></picture>"@
}

fn push_source(html: &mut String, mime: &str, srcset: &str, sizes: &str)
    ensures
        final(html)@ == old(html)@ + source_of(mime@, srcset@, sizes@),
{
    let ghost start = html@;
    push_str(html, "<source type=\"");
    push_str(html, mime);
    push_str(html, "\" srcset=\"");
    push_escaped(html, srcset);
    push_str(html, "\" sizes=\"");
    push_escaped(html, sizes);
    push_str(html, "\">");
    assert(html@ =~= start + source_of(mime@, srcset@, sizes@));
}

/// The markup of an image with modern-format sources: a `<picture>` when it
/// has AVIF or WebP renditions (every value escaped; `sizes` defaults to
/// `100vw`), or `None` when it has neither and a plain lazy `<img>` will do.
pub fn picture_html(
    src: &str,
    alt: &str,
    class: &str,
    sizes: Option<&str>,
    webp: Option<&str>,
    avif: Option<&str>,
) -> (h: Option<String>)
    ensures
        webp is None && avif is None ==> h is None,
        webp is Some || avif is Some ==> (h matches Some(html) && html@ == picture_of(
            src@,
            alt@,
            class@,
            match sizes {
                Some(z) => z@,
                None => "100vw"@,
            },
            match webp {
                Some(w) => Some(w@),
                None => None,
            },
            match avif {
                Some(a) => Some(a@),
                None => None,
            },
        )),
{
    if webp.is_none() && avif.is_none() {
        return None;
    }
    let sz: &str = match sizes {
        Some(z) => z,
        None => "100vw",
    };
    let mut html = string_from("<picture>");
    let ghost h0 = html@;
    match avif {
        Some(a) => push_source(&mut html, "image/avif", a, sz),
        None => {},
    }
    let ghost h1 = html@;
    match webp {
        Some(w) => push_source(&mut html, "image/webp", w, sz),
        None => {},
    }
    let ghost h2 = html@;
    push_str(&mut html, "<img class=\"");
    push_escaped(&mut html, class);
    push_str(&mut html, "\" src=\"");
    push_escaped(&mut html, src);
    push_str(&mut html, "\" alt=\"");
    push_escaped(&mut html, alt);
    push_str(&mut html, "\" loading=\"lazy\" decoding=\"async\"></picture>");
    proof {
        let av = match avif {
            Some(a) => source_of("image/avif"@, a@, sz@),
            None => seq![],
        };
        let wp = match webp {
            Some(w) => source_of("image/webp"@, w@, sz@),
            None => seq![],
        };
        assert(h1 =~= h0 + av);
        assert(h2 =~= h0 + av + wp);
    }
    Some(html)
}

// ------------------------------------------------------------------ pager

/// The prev/next pager under a feed.
pub struct Pager {
    /// The page the "Prev" button goes to; `None` disables it.
    pub prev: Option<i64>,
    /// The page the "Next" button goes to; `None` disables it.
    pub next: Option<i64>,
    /// `Page {page} of {total}`.
    pub label: String,
}

/// The pager for `page` of `total_pages`; none for a single page.
pub fn pager(page: i64, total_pages: i64) -> (p: Option<Pager>)
    ensures
        total_pages <= 1 ==> p is None,
        total_pages > 1 ==> (p matches Some(pg) && {
            &&& pg.prev == (if page <= 1 { None::<i64> } else { Some((page - 1) as i64) })
            &&& pg.next == (if page >= total_pages { None::<i64> } else { Some((page + 1) as i64) })
            &&& pg.label@ == "Page "@ + dec_int(page as int) + " of "@ + dec_int(total_pages as int)
        }),
{
    if total_pages <= 1 {
        return None;
    }
    let prev = if page <= 1 {
        None
    } else {
        Some(page - 1)
    };
    let next = if page >= total_pages {
        None
    } else {
        Some(page + 1)
    };
    let mut label = string_from("Page ");
    let a = i64_digits(page);
    push_str(&mut label, a.as_str());
    push_str(&mut label, " of ");
    let b = i64_digits(total_pages);
    push_str(&mut label, b.as_str());
    Some(Pager { prev, next, label })
}

/// Following the pager never leaves the pages `1..=total_pages`.
pub proof fn law_pager_stays_in_range(page: i64, total_pages: i64, to: i64)
    requires
        1 <= page <= total_pages,
        (if page <= 1 { None::<i64> } else { Some((page - 1) as i64) }) == Some(to) || (if page
            >= total_pages {
            None::<i64>
        } else {
            Some((page + 1) as i64)
        }) == Some(to),
    ensures
        1 <= to <= total_pages,
{
}

} // verus!
