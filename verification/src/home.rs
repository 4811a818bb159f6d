//! The home page's layout choice and the site chrome: which structural shell
//! the feed renders in, which sidebars it carries, and the site-level head
//! and header texts.
use vstd::prelude::*;

use crate::text::{is_empty_str, push_char, push_str, string_from};
use crate::widgets::FeedShape;

verus! {

/// The structural shell the public home page renders its feed in, chosen by
/// an admin and stored in the site settings.
#[derive(Clone, Copy, PartialEq, Eq, Debug)]
pub enum HomeLayout {
    HolyGrail,
    StickySidebar,
    SplitScreen,
    FullBleed,
    Drawer,
    MegaMenu,
    BentoGrid,
    Masonry,
    CardGrid,
    Editorial,
    HeroScroll,
    ScrollSticky,
}

impl Default for HomeLayout {
    /// Holy Grail: also what the page falls back to while the setting loads.
    fn default() -> (l: HomeLayout)
        ensures
            l == HomeLayout::HolyGrail,
    {
        HomeLayout::HolyGrail
    }
}

/// The settings key of each layout.
pub open spec fn layout_key_of(l: HomeLayout) -> Seq<char> {
    match l {
        HomeLayout::HolyGrail => "holy_grail"@,
        HomeLayout::StickySidebar => "sticky_sidebar"@,
        HomeLayout::SplitScreen => "split_screen"@,
        HomeLayout::FullBleed => "full_bleed"@,
        HomeLayout::Drawer => "drawer"@,
        HomeLayout::MegaMenu => "mega_menu"@,
        HomeLayout::BentoGrid => "bento_grid"@,
        HomeLayout::Masonry => "masonry"@,
        HomeLayout::CardGrid => "card_grid"@,
        HomeLayout::Editorial => "editorial"@,
        HomeLayout::HeroScroll => "hero_scroll"@,
        HomeLayout::ScrollSticky => "scroll_sticky"@,
    }
}

impl HomeLayout {
    /// The settings key of this layout.
    pub fn as_key(self) -> (k: &'static str)
        ensures
            k@ == layout_key_of(self),
    {
        match self {
            HomeLayout::HolyGrail => "holy_grail",
            HomeLayout::StickySidebar => "sticky_sidebar",
            HomeLayout::SplitScreen => "split_screen",
            HomeLayout::FullBleed => "full_bleed",
            HomeLayout::Drawer => "drawer",
            HomeLayout::MegaMenu => "mega_menu",
            HomeLayout::BentoGrid => "bento_grid",
            HomeLayout::Masonry => "masonry",
            HomeLayout::CardGrid => "card_grid",
            HomeLayout::Editorial => "editorial",
            HomeLayout::HeroScroll => "hero_scroll",
            HomeLayout::ScrollSticky => "scroll_sticky",
        }
    }

    /// Every layout, in the order the selector shows them.
    pub fn all() -> (v: Vec<HomeLayout>)
        ensures
            v@ == seq![
                HomeLayout::HolyGrail,
                HomeLayout::StickySidebar,
                HomeLayout::SplitScreen,
                HomeLayout::FullBleed,
                HomeLayout::Drawer,
                HomeLayout::MegaMenu,
                HomeLayout::BentoGrid,
                HomeLayout::Masonry,
                HomeLayout::CardGrid,
                HomeLayout::Editorial,
                HomeLayout::HeroScroll,
                HomeLayout::ScrollSticky,
            ],
    {
        let v = vec![
            HomeLayout::HolyGrail,
            HomeLayout::StickySidebar,
            HomeLayout::SplitScreen,
            HomeLayout::FullBleed,
            HomeLayout::Drawer,
            HomeLayout::MegaMenu,
            HomeLayout::BentoGrid,
            HomeLayout::Masonry,
            HomeLayout::CardGrid,
            HomeLayout::Editorial,
            HomeLayout::HeroScroll,
            HomeLayout::ScrollSticky,
        ];
        v
    }

    /// How the feed's cards are arranged: Bento and Masonry arrange the cards
    /// themselves, every other shell renders a grid.
    pub fn feed_shape(self) -> (s: FeedShape)
        ensures
            self == HomeLayout::BentoGrid ==> s == FeedShape::Bento,
            self == HomeLayout::Masonry ==> s == FeedShape::Masonry,
            self != HomeLayout::BentoGrid && self != HomeLayout::Masonry ==> s == FeedShape::Grid,
    {
        match self {
            HomeLayout::BentoGrid => FeedShape::Bento,
            HomeLayout::Masonry => FeedShape::Masonry,
            _ => FeedShape::Grid,
        }
    }

    /// Whether the shell carries the category and tag lists (as a sidebar,
    /// drawer or menu panel).
    pub fn shows_taxonomy(self) -> (b: bool)
        ensures
            b == (self == HomeLayout::HolyGrail || self == HomeLayout::StickySidebar || self
                == HomeLayout::Drawer || self == HomeLayout::MegaMenu),
    {
        match self {
            HomeLayout::HolyGrail | HomeLayout::StickySidebar | HomeLayout::Drawer | HomeLayout::MegaMenu => true,
            _ => false,
        }
    }

    /// Whether the shell carries the featured posts and recent comments.
    pub fn shows_highlights(self) -> (b: bool)
        ensures
            b == (self == HomeLayout::HolyGrail || self == HomeLayout::Editorial || self
                == HomeLayout::ScrollSticky),
    {
        match self {
            HomeLayout::HolyGrail | HomeLayout::Editorial | HomeLayout::ScrollSticky => true,
            _ => false,
        }
    }
}

/// No two layouts share a settings key.
pub proof fn law_layout_keys_distinct(a: HomeLayout, b: HomeLayout)
    requires
        a != b,
    ensures
        layout_key_of(a) != layout_key_of(b),
{
    reveal_strlit("holy_grail");
    reveal_strlit("sticky_sidebar");
    reveal_strlit("split_screen");
    reveal_strlit("full_bleed");
    reveal_strlit("drawer");
    reveal_strlit("mega_menu");
    reveal_strlit("bento_grid");
    reveal_strlit("masonry");
    reveal_strlit("card_grid");
    reveal_strlit("editorial");
    reveal_strlit("hero_scroll");
    reveal_strlit("scroll_sticky");
    let ka = layout_key_of(a);
    let kb = layout_key_of(b);
    if ka.len() == kb.len() {
        assert(ka[0] != kb[0] || ka[1] != kb[1] || ka[2] != kb[2] || ka[ka.len() - 1] != kb[kb.len() - 1]);
    }
}

// ------------------------------------------------------------------ head and chrome

/// The home page's head: title, description and canonical URL.
pub struct HomeMeta {
    pub title: String,
    /// Empty when unknown: no description tags are emitted then.
    pub description: String,
    /// Empty when unknown: no `og:url` is emitted then.
    pub url: String,
}

/// The home description: the tagline, or a sentence built on the title when
/// there is none.
pub open spec fn home_description_of(title: Seq<char>, tagline: Seq<char>) -> Seq<char> {
    if tagline.len() == 0 {
        title + " — the latest writing from the blog."@
    } else {
        tagline
    }
}

/// The home page's head from the site's title, tagline and base URL.
pub fn home_meta(title: &str, tagline: &str, base_url: &str) -> (m: HomeMeta)
    ensures
        m.title@ == title@,
        m.description@ == home_description_of(title@, tagline@),
        m.url@ == base_url@ + seq!['/'],
{
    let description = if is_empty_str(tagline) {
        let mut d = string_from(title);
        push_str(&mut d, " — the latest writing from the blog.");
        d
    } else {
        string_from(tagline)
    };
    let mut url = string_from(base_url);
    push_char(&mut url, '/');
    HomeMeta { title: string_from(title), description, url }
}

/// The home page's head while the site settings are unavailable: the
/// default title and neither description nor URL.
pub fn home_meta_fallback(default_title: &str) -> (m: HomeMeta)
    ensures
        m.title@ == default_title@,
        m.description@.len() == 0,
        m.url@.len() == 0,
{
    HomeMeta { title: string_from(default_title), description: String::new(), url: String::new() }
}

/// The site title shown in the header and footer: the configured one, or the
/// default when it is blank or unavailable.
pub fn site_title(configured: Option<&str>, default_title: &str) -> (t: String)
    ensures
        match configured {
            Some(c) if c@.len() > 0 => t@ == c@,
            _ => t@ == default_title@,
        },
{
    match configured {
        Some(c) => if is_empty_str(c) {
            string_from(default_title)
        } else {
            string_from(c)
        },
        None => string_from(default_title),
    }
}

/// The tagline shown beside the header title, if there is one.
pub fn site_tagline(configured: Option<&str>) -> (t: Option<String>)
    ensures
        match t {
            Some(s) => configured matches Some(c) && c@.len() > 0 && s@ == c@,
            None => !(configured matches Some(c) && c@.len() > 0),
        },
{
    match configured {
        Some(c) => if is_empty_str(c) {
            None
        } else {
            Some(string_from(c))
        },
        None => None,
    }
}

/// The grid tracks of the holy-grail shell: a sidebar track only for a filled
/// sidebar slot, so the main column claims the freed space.
pub fn holy_grail_cols(left: bool, right: bool) -> (s: &'static str)
    ensures
        left && right ==> s@ == "md:grid-cols-[200px_1fr_240px]"@,
        left && !right ==> s@ == "md:grid-cols-[200px_1fr]"@,
        !left && right ==> s@ == "md:grid-cols-[1fr_240px]"@,
        !left && !right ==> s@ == "md:grid-cols-[1fr]"@,
{
    if left && right {
        "md:grid-cols-[200px_1fr_240px]"
    } else if left {
        "md:grid-cols-[200px_1fr]"
    } else if right {
        "md:grid-cols-[1fr_240px]"
    } else {
        "md:grid-cols-[1fr]"
    }
}

/// The drawer panel's class: slid in when open, off-canvas otherwise.
pub fn drawer_class(open: bool) -> (s: &'static str)
    ensures
        open ==> s@ == "fixed inset-y-0 left-0 z-40 w-64 translate-x-0 border-r border-white/10 bg-[#111] p-4 transition-transform"@,
        !open ==> s@ == "fixed inset-y-0 left-0 z-40 w-64 -translate-x-full border-r border-white/10 bg-[#111] p-4 transition-transform"@,
{
    if open {
        "fixed inset-y-0 left-0 z-40 w-64 translate-x-0 border-r border-white/10 bg-[#111] p-4 transition-transform"
    } else {
        "fixed inset-y-0 left-0 z-40 w-64 -translate-x-full border-r border-white/10 bg-[#111] p-4 transition-transform"
    }
}

/// The thumbnail sketch of a layout for the selector: its boxes in document
/// order, each with its nesting depth (the frame is at depth 0) and its classes.
/// Bars are chrome, `bg-brand-500/50` cells the feed, muted boxes secondary
/// regions.
pub open spec fn thumb_of(l: HomeLayout) -> Seq<(u8, &'static str)> {
    match l {
        HomeLayout::HolyGrail => seq![(0u8, "flex h-16 w-24 flex-col gap-0.5 overflow-hidden rounded-lg border border-white/10 bg-black/30 p-1"), (1u8, "h-1.5 bg-white/25"), (1u8, "flex flex-1 gap-0.5"), (2u8, "w-2 bg-white/10"), (2u8, "flex-1 bg-brand-500/50"), (2u8, "w-2 bg-white/10"), (1u8, "h-1.5 bg-white/25")],
        HomeLayout::StickySidebar => seq![(0u8, "flex h-16 w-24 flex-col gap-0.5 overflow-hidden rounded-lg border border-white/10 bg-black/30 p-1"), (1u8, "h-1.5 bg-white/25"), (1u8, "flex flex-1 gap-0.5"), (2u8, "w-3 bg-white/10"), (2u8, "flex-1 bg-brand-500/50")],
        HomeLayout::SplitScreen => seq![(0u8, "flex h-16 w-24 flex-col gap-0.5 overflow-hidden rounded-lg border border-white/10 bg-black/30 p-1"), (1u8, "flex flex-1 gap-0.5"), (2u8, "flex-1 bg-white/30"), (2u8, "flex-1 bg-brand-500/50")],
        HomeLayout::FullBleed => seq![(0u8, "flex h-16 w-24 flex-col gap-0.5 overflow-hidden rounded-lg border border-white/10 bg-black/30 p-1"), (1u8, "flex-1 bg-brand-500/50")],
        HomeLayout::Drawer => seq![(0u8, "relative flex h-16 w-24 flex-col gap-0.5 overflow-hidden rounded-lg border border-white/10 bg-black/30 p-1"), (1u8, "h-1.5 bg-white/25"), (1u8, "flex-1 bg-brand-500/50"), (1u8, "absolute inset-y-1 left-1 w-3 rounded-lg bg-white/40")],
        HomeLayout::MegaMenu => seq![(0u8, "flex h-16 w-24 flex-col gap-0.5 overflow-hidden rounded-lg border border-white/10 bg-black/30 p-1"), (1u8, "h-1.5 bg-white/25"), (1u8, "h-3 bg-white/15"), (1u8, "flex-1 bg-brand-500/50")],
        HomeLayout::BentoGrid => seq![(0u8, "flex h-16 w-24 flex-col gap-0.5 overflow-hidden rounded-lg border border-white/10 bg-black/30 p-1"), (1u8, "grid flex-1 grid-cols-3 grid-rows-2 gap-0.5"), (2u8, "col-span-2 row-span-2 bg-brand-500/50"), (2u8, "bg-white/10"), (2u8, "bg-white/10")],
        HomeLayout::Masonry => seq![(0u8, "flex h-16 w-24 flex-col gap-0.5 overflow-hidden rounded-lg border border-white/10 bg-black/30 p-1"), (1u8, "flex flex-1 gap-0.5"), (2u8, "flex flex-1 flex-col gap-0.5"), (3u8, "h-4 bg-brand-500/50"), (3u8, "flex-1 bg-white/10"), (2u8, "flex flex-1 flex-col gap-0.5"), (3u8, "h-6 bg-white/10"), (3u8, "flex-1 bg-brand-500/50"), (2u8, "flex flex-1 flex-col gap-0.5"), (3u8, "h-3 bg-brand-500/50"), (3u8, "flex-1 bg-white/10")],
        HomeLayout::CardGrid => seq![(0u8, "flex h-16 w-24 flex-col gap-0.5 overflow-hidden rounded-lg border border-white/10 bg-black/30 p-1"), (1u8, "grid flex-1 grid-cols-3 grid-rows-2 gap-0.5"), (2u8, "bg-brand-500/50"), (2u8, "bg-brand-500/50"), (2u8, "bg-brand-500/50"), (2u8, "bg-brand-500/50"), (2u8, "bg-brand-500/50"), (2u8, "bg-brand-500/50")],
        HomeLayout::Editorial => seq![(0u8, "flex h-16 w-24 flex-col gap-0.5 overflow-hidden rounded-lg border border-white/10 bg-black/30 p-1 items-center"), (1u8, "h-1.5 w-12 bg-white/25"), (1u8, "mt-0.5 flex w-full flex-1 justify-center gap-0.5"), (2u8, "w-10 bg-brand-500/50"), (2u8, "w-3 bg-white/10")],
        HomeLayout::HeroScroll => seq![(0u8, "flex h-16 w-24 flex-col gap-0.5 overflow-hidden rounded-lg border border-white/10 bg-black/30 p-1"), (1u8, "h-8 bg-white/30"), (1u8, "flex-1 bg-brand-500/50")],
        HomeLayout::ScrollSticky => seq![(0u8, "flex h-16 w-24 flex-col gap-0.5 overflow-hidden rounded-lg border border-white/10 bg-black/30 p-1"), (1u8, "flex flex-1 gap-0.5"), (2u8, "flex flex-1 flex-col gap-0.5"), (3u8, "h-2 bg-brand-500/50"), (3u8, "h-2 bg-brand-500/50"), (3u8, "h-2 bg-brand-500/50"), (2u8, "w-8 bg-white/10")],
    }
}

impl HomeLayout {
    /// The layout's thumbnail sketch (see `thumb_of`).
    pub fn thumb(self) -> (v: Vec<(u8, &'static str)>)
        ensures
            v@ == thumb_of(self),
    {
        match self {
            HomeLayout::HolyGrail => vec![(0u8, "flex h-16 w-24 flex-col gap-0.5 overflow-hidden rounded-lg border border-white/10 bg-black/30 p-1"), (1u8, "h-1.5 bg-white/25"), (1u8, "flex flex-1 gap-0.5"), (2u8, "w-2 bg-white/10"), (2u8, "flex-1 bg-brand-500/50"), (2u8, "w-2 bg-white/10"), (1u8, "h-1.5 bg-white/25")],
            HomeLayout::StickySidebar => vec![(0u8, "flex h-16 w-24 flex-col gap-0.5 overflow-hidden rounded-lg border border-white/10 bg-black/30 p-1"), (1u8, "h-1.5 bg-white/25"), (1u8, "flex flex-1 gap-0.5"), (2u8, "w-3 bg-white/10"), (2u8, "flex-1 bg-brand-500/50")],
            HomeLayout::SplitScreen => vec![(0u8, "flex h-16 w-24 flex-col gap-0.5 overflow-hidden rounded-lg border border-white/10 bg-black/30 p-1"), (1u8, "flex flex-1 gap-0.5"), (2u8, "flex-1 bg-white/30"), (2u8, "flex-1 bg-brand-500/50")],
            HomeLayout::FullBleed => vec![(0u8, "flex h-16 w-24 flex-col gap-0.5 overflow-hidden rounded-lg border border-white/10 bg-black/30 p-1"), (1u8, "flex-1 bg-brand-500/50")],
            HomeLayout::Drawer => vec![(0u8, "relative flex h-16 w-24 flex-col gap-0.5 overflow-hidden rounded-lg border border-white/10 bg-black/30 p-1"), (1u8, "h-1.5 bg-white/25"), (1u8, "flex-1 bg-brand-500/50"), (1u8, "absolute inset-y-1 left-1 w-3 rounded-lg bg-white/40")],
            HomeLayout::MegaMenu => vec![(0u8, "flex h-16 w-24 flex-col gap-0.5 overflow-hidden rounded-lg border border-white/10 bg-black/30 p-1"), (1u8, "h-1.5 bg-white/25"), (1u8, "h-3 bg-white/15"), (1u8, "flex-1 bg-brand-500/50")],
            HomeLayout::BentoGrid => vec![(0u8, "flex h-16 w-24 flex-col gap-0.5 overflow-hidden rounded-lg border border-white/10 bg-black/30 p-1"), (1u8, "grid flex-1 grid-cols-3 grid-rows-2 gap-0.5"), (2u8, "col-span-2 row-span-2 bg-brand-500/50"), (2u8, "bg-white/10"), (2u8, "bg-white/10")],
            HomeLayout::Masonry => vec![(0u8, "flex h-16 w-24 flex-col gap-0.5 overflow-hidden rounded-lg border border-white/10 bg-black/30 p-1"), (1u8, "flex flex-1 gap-0.5"), (2u8, "flex flex-1 flex-col gap-0.5"), (3u8, "h-4 bg-brand-500/50"), (3u8, "flex-1 bg-white/10"), (2u8, "flex flex-1 flex-col gap-0.5"), (3u8, "h-6 bg-white/10"), (3u8, "flex-1 bg-brand-500/50"), (2u8, "flex flex-1 flex-col gap-0.5"), (3u8, "h-3 bg-brand-500/50"), (3u8, "flex-1 bg-white/10")],
            HomeLayout::CardGrid => vec![(0u8, "flex h-16 w-24 flex-col gap-0.5 overflow-hidden rounded-lg border border-white/10 bg-black/30 p-1"), (1u8, "grid flex-1 grid-cols-3 grid-rows-2 gap-0.5"), (2u8, "bg-brand-500/50"), (2u8, "bg-brand-500/50"), (2u8, "bg-brand-500/50"), (2u8, "bg-brand-500/50"), (2u8, "bg-brand-500/50"), (2u8, "bg-brand-500/50")],
            HomeLayout::Editorial => vec![(0u8, "flex h-16 w-24 flex-col gap-0.5 overflow-hidden rounded-lg border border-white/10 bg-black/30 p-1 items-center"), (1u8, "h-1.5 w-12 bg-white/25"), (1u8, "mt-0.5 flex w-full flex-1 justify-center gap-0.5"), (2u8, "w-10 bg-brand-500/50"), (2u8, "w-3 bg-white/10")],
            HomeLayout::HeroScroll => vec![(0u8, "flex h-16 w-24 flex-col gap-0.5 overflow-hidden rounded-lg border border-white/10 bg-black/30 p-1"), (1u8, "h-8 bg-white/30"), (1u8, "flex-1 bg-brand-500/50")],
            HomeLayout::ScrollSticky => vec![(0u8, "flex h-16 w-24 flex-col gap-0.5 overflow-hidden rounded-lg border border-white/10 bg-black/30 p-1"), (1u8, "flex flex-1 gap-0.5"), (2u8, "flex flex-1 flex-col gap-0.5"), (3u8, "h-2 bg-brand-500/50"), (3u8, "h-2 bg-brand-500/50"), (3u8, "h-2 bg-brand-500/50"), (2u8, "w-8 bg-white/10")],
        }
    }
}

/// Every thumbnail is one well-nested tree in document order: it starts with
/// the frame at depth 0, no other box is at depth 0, and each box is at most
/// one level deeper than the box before it.
pub open spec fn well_nested(t: Seq<(u8, &'static str)>) -> bool {
    &&& t.len() >= 1
    &&& t[0].0 == 0
    &&& forall|i: int| 1 <= i < t.len() ==> (#[trigger] t[i]).0 >= 1 && t[i].0 <= t[i - 1].0 + 1
}

/// Each layout's thumbnail is one well-nested tree under its frame.
pub proof fn law_thumbs_well_nested(l: HomeLayout)
    ensures
        well_nested(thumb_of(l)),
{
}

} // verus!
