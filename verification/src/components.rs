//! Class strings of the shared surface and typography primitives (panels,
//! alerts, badges, status dots, titles, eyebrows, error text). The markup
//! itself is rendered by the UI; what is decided here is which utility classes
//! each variant combination carries.
use vstd::prelude::*;

use crate::routes::join_words;
use crate::text::{chars_of, concat, push_char, push_str, string_from};

verus! {

// ------------------------------------------------------------------ helpers

/// `a`, a space, then `b`.
fn spaced(a: &str, b: &str) -> (s: String)
    ensures
        s@ == a@ + seq![' '] + b@,
{
    let mut s = string_from(a);
    push_char(&mut s, ' ');
    push_str(&mut s, b);
    s
}

/// The non-empty parts, in order.
pub open spec fn nonempty(parts: Seq<Seq<char>>) -> Seq<Seq<char>> {
    parts.filter(|p: Seq<char>| p.len() > 0)
}

/// Class fragments joined by single spaces, empty fragments dropped.
pub open spec fn classes(parts: Seq<Seq<char>>) -> Seq<char> {
    join_words(nonempty(parts))
}

/// Joins class fragments, dropping empties, into a single space-separated string.
pub fn join_classes(parts: &[&str]) -> (s: String)
    ensures
        s@ == classes(parts@.map_values(|p: &str| p@)),
{
    let ghost views = parts@.map_values(|p: &str| p@);
    let mut out = String::new();
    let mut i: usize = 0;
    let mut any = false;
    while i < parts.len()
        invariant
            0 <= i <= parts.len(),
            views == parts@.map_values(|p: &str| p@),
            out@ == classes(views.take(i as int)),
            any == (nonempty(views.take(i as int)).len() > 0),
        decreases parts.len() - i,
    {
        let part = parts[i];
        let ghost pre = views.take(i as int);
        proof {
            assert(views.take(i + 1) =~= pre.push(part@));
            reveal_with_fuel(Seq::filter, 1);
            assert(pre.push(part@).drop_last() =~= pre);
        }
        if chars_of(part).len() > 0 {
            let ghost before = out@;
            if any {
                push_char(&mut out, ' ');
            }
            push_str(&mut out, part);
            proof {
                let ne = nonempty(pre.push(part@));
                assert(ne == nonempty(pre).push(part@));
                assert(ne.drop_last() =~= nonempty(pre));
                if !any {
                    assert(nonempty(pre) =~= Seq::<Seq<char>>::empty());
                    assert(ne =~= seq![part@]);
                    assert(out@ =~= part@);
                } else {
                    assert(out@ =~= before + seq![' '] + part@);
                }
            }
            any = true;
        } else {
            proof {
                assert(nonempty(pre.push(part@)) == nonempty(pre));
            }
        }
        i += 1;
    }
    proof {
        assert(views.take(parts@.len() as int) =~= views);
    }
    out
}

// ------------------------------------------------------------------ panels

#[derive(Copy, Clone, PartialEq, Eq, Debug, Default)]
pub enum PanelVariant {
    /// Filled marketing/dashboard surface.
    #[default]
    Filled,
    /// Outlined list-row card, no fill.
    Outlined,
    /// Filled with image bleed; internal padding is the caller's responsibility.
    Bleed,
}

#[derive(Copy, Clone, PartialEq, Eq, Debug, Default)]
pub enum PanelPadding {
    /// No padding.
    NoPad,
    Sm,
    Md,
    #[default]
    Lg,
}

pub open spec fn padding_class_of(p: PanelPadding) -> Seq<char> {
    match p {
        PanelPadding::NoPad => ""@,
        PanelPadding::Sm => "p-2"@,
        PanelPadding::Md => "p-3"@,
        PanelPadding::Lg => "p-4"@,
    }
}

pub open spec fn panel_base_of(v: PanelVariant) -> Seq<char> {
    match v {
        PanelVariant::Filled => "rounded-xl border border-white/10 bg-white/[0.03]"@,
        PanelVariant::Outlined => "rounded-lg border border-white/10"@,
        PanelVariant::Bleed => "overflow-hidden rounded-xl border border-white/10 bg-white/[0.03]"@,
    }
}

/// The class string of a panel: base classes, then the padding when there is one.
pub open spec fn panel_class_of(v: PanelVariant, p: PanelPadding) -> Seq<char> {
    if padding_class_of(p).len() == 0 {
        panel_base_of(v)
    } else {
        panel_base_of(v) + seq![' '] + padding_class_of(p)
    }
}

/// `s`, followed by a space and `extra` when `extra` is not empty.
pub open spec fn with_extra(s: Seq<char>, extra: Seq<char>) -> Seq<char> {
    if extra.len() == 0 {
        s
    } else {
        s + seq![' '] + extra
    }
}

impl PanelPadding {
    pub fn class(self) -> (c: &'static str)
        ensures
            c@ == padding_class_of(self),
    {
        match self {
            PanelPadding::NoPad => "",
            PanelPadding::Sm => "p-2",
            PanelPadding::Md => "p-3",
            PanelPadding::Lg => "p-4",
        }
    }
}

/// Returns the class string for the panel variant + padding combination.
pub fn panel_class(variant: PanelVariant, padding: PanelPadding) -> (s: String)
    ensures
        s@ == panel_class_of(variant, padding),
{
    let base = match variant {
        PanelVariant::Filled => "rounded-xl border border-white/10 bg-white/[0.03]",
        PanelVariant::Outlined => "rounded-lg border border-white/10",
        PanelVariant::Bleed => "overflow-hidden rounded-xl border border-white/10 bg-white/[0.03]",
    };
    let pad = padding.class();
    if chars_of(pad).len() == 0 {
        string_from(base)
    } else {
        spaced(base, pad)
    }
}

/// The class of a `Panel`: the panel classes, then any extra classes.
pub fn panel_full_class(variant: PanelVariant, padding: PanelPadding, class: &str) -> (s: String)
    ensures
        s@ == with_extra(panel_class_of(variant, padding), class@),
{
    let base = panel_class(variant, padding);
    if chars_of(class).len() == 0 {
        base
    } else {
        spaced(base.as_str(), class)
    }
}

// ------------------------------------------------------------------ alerts

#[derive(Copy, Clone, PartialEq, Eq, Debug, Default)]
pub enum AlertTone {
    #[default]
    Warning,
    Info,
    Success,
    Danger,
}

pub open spec fn alert_tone_of(t: AlertTone) -> Seq<char> {
    match t {
        AlertTone::Warning => "border-amber-400/30 bg-amber-400/10 text-amber-200"@,
        AlertTone::Info => "border-sky-400/30 bg-sky-400/10 text-sky-200"@,
        AlertTone::Success => "border-emerald-400/30 bg-emerald-400/10 text-emerald-200"@,
        AlertTone::Danger => "border-red-400/30 bg-red-400/10 text-red-200"@,
    }
}

impl AlertTone {
    pub fn class(self) -> (c: &'static str)
        ensures
            c@ == alert_tone_of(self),
    {
        match self {
            AlertTone::Warning => "border-amber-400/30 bg-amber-400/10 text-amber-200",
            AlertTone::Info => "border-sky-400/30 bg-sky-400/10 text-sky-200",
            AlertTone::Success => "border-emerald-400/30 bg-emerald-400/10 text-emerald-200",
            AlertTone::Danger => "border-red-400/30 bg-red-400/10 text-red-200",
        }
    }
}

/// The class of an `Alert`: base box classes, the tone, then any extra classes.
pub fn alert_class(tone: AlertTone, class: &str) -> (s: String)
    ensures
        s@ == with_extra("rounded-lg border px-3 py-2 text-sm"@ + seq![' '] + alert_tone_of(tone), class@),
{
    let base = spaced("rounded-lg border px-3 py-2 text-sm", tone.class());
    if chars_of(class).len() == 0 {
        base
    } else {
        spaced(base.as_str(), class)
    }
}

// ------------------------------------------------------------------ badges

#[derive(Copy, Clone, PartialEq, Eq, Debug, Default)]
pub enum BadgeTone {
    #[default]
    Brand,
    Amber,
    Emerald,
    Red,
    Neutral,
}

#[derive(Copy, Clone, PartialEq, Eq, Debug, Default)]
pub enum BadgeVariant {
    #[default]
    Tinted,
    Outlined,
}

pub open spec fn tinted_of(t: BadgeTone) -> Seq<char> {
    match t {
        BadgeTone::Brand => "bg-brand-500/10 text-brand-300"@,
        BadgeTone::Amber => "bg-amber-400/10 text-amber-300"@,
        BadgeTone::Emerald => "bg-emerald-400/10 text-emerald-300"@,
        BadgeTone::Red => "bg-red-400/10 text-red-300"@,
        BadgeTone::Neutral => "bg-white/[0.06] text-white/70"@,
    }
}

pub open spec fn outlined_of(t: BadgeTone) -> Seq<char> {
    match t {
        BadgeTone::Brand => "border border-brand-400/40 text-brand-300"@,
        BadgeTone::Amber => "border border-amber-400/40 text-amber-300"@,
        BadgeTone::Emerald => "border border-emerald-400/40 text-emerald-300"@,
        BadgeTone::Red => "border border-red-400/40 text-red-300"@,
        BadgeTone::Neutral => "border border-white/15 text-white/70"@,
    }
}

pub open spec fn dot_of(t: BadgeTone) -> Seq<char> {
    match t {
        BadgeTone::Brand => "bg-brand-400"@,
        BadgeTone::Amber => "bg-amber-400"@,
        BadgeTone::Emerald => "bg-emerald-400"@,
        BadgeTone::Red => "bg-red-400"@,
        BadgeTone::Neutral => "bg-white/40"@,
    }
}

impl BadgeTone {
    pub fn tinted_class(self) -> (c: &'static str)
        ensures
            c@ == tinted_of(self),
    {
        match self {
            BadgeTone::Brand => "bg-brand-500/10 text-brand-300",
            BadgeTone::Amber => "bg-amber-400/10 text-amber-300",
            BadgeTone::Emerald => "bg-emerald-400/10 text-emerald-300",
            BadgeTone::Red => "bg-red-400/10 text-red-300",
            BadgeTone::Neutral => "bg-white/[0.06] text-white/70",
        }
    }

    pub fn outlined_class(self) -> (c: &'static str)
        ensures
            c@ == outlined_of(self),
    {
        match self {
            BadgeTone::Brand => "border border-brand-400/40 text-brand-300",
            BadgeTone::Amber => "border border-amber-400/40 text-amber-300",
            BadgeTone::Emerald => "border border-emerald-400/40 text-emerald-300",
            BadgeTone::Red => "border border-red-400/40 text-red-300",
            BadgeTone::Neutral => "border border-white/15 text-white/70",
        }
    }

    pub fn dot_class(self) -> (c: &'static str)
        ensures
            c@ == dot_of(self),
    {
        match self {
            BadgeTone::Brand => "bg-brand-400",
            BadgeTone::Amber => "bg-amber-400",
            BadgeTone::Emerald => "bg-emerald-400",
            BadgeTone::Red => "bg-red-400",
            BadgeTone::Neutral => "bg-white/40",
        }
    }
}

/// The class of a `Badge`: pill classes, then the tone's tinted or outlined pair.
pub fn badge_class(tone: BadgeTone, variant: BadgeVariant) -> (s: String)
    ensures
        s@ == "inline-flex items-center gap-1 rounded-full px-2 py-0.5 text-xs"@ + seq![' '] + (
        match variant {
            BadgeVariant::Tinted => tinted_of(tone),
            BadgeVariant::Outlined => outlined_of(tone),
        }),
{
    let tone_classes = match variant {
        BadgeVariant::Tinted => tone.tinted_class(),
        BadgeVariant::Outlined => tone.outlined_class(),
    };
    spaced("inline-flex items-center gap-1 rounded-full px-2 py-0.5 text-xs", tone_classes)
}

/// The class of a badge's pulsing dot.
pub fn badge_dot_class(tone: BadgeTone) -> (s: String)
    ensures
        s@ == "h-1.5 w-1.5 animate-pulse rounded-full"@ + seq![' '] + dot_of(tone),
{
    spaced("h-1.5 w-1.5 animate-pulse rounded-full", tone.dot_class())
}

// ------------------------------------------------------------------ status dots

#[derive(Copy, Clone, PartialEq, Eq, Debug, Default)]
pub enum StatusDotTone {
    #[default]
    Brand,
    Amber,
    Emerald,
    Red,
    Neutral,
}

pub open spec fn status_tone_of(t: StatusDotTone) -> Seq<char> {
    match t {
        StatusDotTone::Brand => "bg-brand-400"@,
        StatusDotTone::Amber => "bg-amber-400"@,
        StatusDotTone::Emerald => "bg-emerald-400"@,
        StatusDotTone::Red => "bg-red-500"@,
        StatusDotTone::Neutral => "bg-white/30"@,
    }
}

impl StatusDotTone {
    pub fn class(self) -> (c: &'static str)
        ensures
            c@ == status_tone_of(self),
    {
        match self {
            StatusDotTone::Brand => "bg-brand-400",
            StatusDotTone::Amber => "bg-amber-400",
            StatusDotTone::Emerald => "bg-emerald-400",
            StatusDotTone::Red => "bg-red-500",
            StatusDotTone::Neutral => "bg-white/30",
        }
    }
}

/// The class of a `StatusDot`: `inline-block {size} rounded-full {pulse} {tone}`.
pub fn status_dot_class(tone: StatusDotTone, muted: bool, pulse: bool) -> (s: String)
    ensures
        s@ == "inline-block "@ + (if muted {
            "h-1.5 w-1.5"@
        } else {
            "h-2 w-2"@
        }) + " rounded-full "@ + (if pulse {
            "animate-pulse"@
        } else {
            ""@
        }) + seq![' '] + status_tone_of(tone),
{
    let size = if muted {
        "h-1.5 w-1.5"
    } else {
        "h-2 w-2"
    };
    let pulse_class = if pulse {
        "animate-pulse"
    } else {
        ""
    };
    let mut s = string_from("inline-block ");
    push_str(&mut s, size);
    push_str(&mut s, " rounded-full ");
    push_str(&mut s, pulse_class);
    push_char(&mut s, ' ');
    push_str(&mut s, tone.class());
    s
}

// ------------------------------------------------------------------ typography

/// Bottom-margin override for the typography primitives. `Default` keeps each
/// component's own canonical spacing; the explicit variants replace it.
#[derive(Copy, Clone, PartialEq, Eq, Debug, Default)]
pub enum Mb {
    #[default]
    Default,
    /// No bottom margin.
    Zero,
    Mb1,
    Mb2,
    Mb3,
}

pub open spec fn mb_of(m: Mb, default: Seq<char>) -> Seq<char> {
    match m {
        Mb::Default => default,
        Mb::Zero => ""@,
        Mb::Mb1 => "mb-1"@,
        Mb::Mb2 => "mb-2"@,
        Mb::Mb3 => "mb-3"@,
    }
}

impl Mb {
    /// The explicit `mb-*` class, or `default` when left as `Default`.
    pub fn class_or(self, default: &'static str) -> (c: &'static str)
        ensures
            c@ == mb_of(self, default@),
    {
        match self {
            Mb::Default => default,
            Mb::Zero => "",
            Mb::Mb1 => "mb-1",
            Mb::Mb2 => "mb-2",
            Mb::Mb3 => "mb-3",
        }
    }
}

/// The class of a `PageTitle` (`<h1>`): margin (default `mb-6`), size, extras.
pub fn page_title_class(mb: Mb, class: &str) -> (s: String)
    ensures
        s@ == classes(seq![mb_of(mb, "mb-6"@), "text-2xl font-bold"@, class@]),
{
    let parts: [&str; 3] = [mb.class_or("mb-6"), "text-2xl font-bold", class];
    let s = join_classes(&parts);
    assert(parts@.map_values(|p: &str| p@) =~= seq![mb_of(mb, "mb-6"@), "text-2xl font-bold"@, class@]);
    s
}

#[derive(Copy, Clone, PartialEq, Eq, Debug, Default)]
pub enum SectionTitleTone {
    /// `<h2>`: a section inside a page.
    #[default]
    Default,
    /// `<h3>`: a sidebar widget heading.
    Sidebar,
}

/// The class of a `SectionTitle`.
pub fn section_title_class(tone: SectionTitleTone, mb: Mb, class: &str) -> (s: String)
    ensures
        s@ == (match tone {
            SectionTitleTone::Default => classes(
                seq![mb_of(mb, "mb-3"@), "text-lg font-semibold"@, class@],
            ),
            SectionTitleTone::Sidebar => classes(
                seq![mb_of(mb, "mb-2"@), "font-semibold text-white/80"@, class@],
            ),
        }),
{
    match tone {
        SectionTitleTone::Default => {
            let parts: [&str; 3] = [mb.class_or("mb-3"), "text-lg font-semibold", class];
            let s = join_classes(&parts);
            assert(parts@.map_values(|p: &str| p@) =~= seq![
                mb_of(mb, "mb-3"@),
                "text-lg font-semibold"@,
                class@,
            ]);
            s
        },
        SectionTitleTone::Sidebar => {
            let parts: [&str; 3] = [mb.class_or("mb-2"), "font-semibold text-white/80", class];
            let s = join_classes(&parts);
            assert(parts@.map_values(|p: &str| p@) =~= seq![
                mb_of(mb, "mb-2"@),
                "font-semibold text-white/80"@,
                class@,
            ]);
            s
        },
    }
}

#[derive(Copy, Clone, PartialEq, Eq, Debug, Default)]
pub enum EyebrowAs {
    #[default]
    Span,
    Label,
    Div,
}

#[derive(Copy, Clone, PartialEq, Eq, Debug, Default)]
pub enum EyebrowSize {
    /// `text-xs`, the dominant eyebrow size.
    #[default]
    Xs,
    /// `text-sm`, e.g. an editor field label.
    Sm,
}

#[derive(Copy, Clone, PartialEq, Eq, Debug, Default)]
pub enum EyebrowTone {
    /// `text-white/40`, the dominant muted form.
    #[default]
    Muted,
    /// `text-brand-400`, for category eyebrows.
    Brand,
    /// `text-white/50`, slightly louder than Muted.
    Default,
}

pub open spec fn eyebrow_tone_of(t: EyebrowTone) -> Seq<char> {
    match t {
        EyebrowTone::Muted => "text-white/40"@,
        EyebrowTone::Brand => "text-brand-400"@,
        EyebrowTone::Default => "text-white/50"@,
    }
}

impl EyebrowTone {
    pub fn class(self) -> (c: &'static str)
        ensures
            c@ == eyebrow_tone_of(self),
    {
        match self {
            EyebrowTone::Muted => "text-white/40",
            EyebrowTone::Brand => "text-brand-400",
            EyebrowTone::Default => "text-white/50",
        }
    }
}

/// The class of an `Eyebrow` caps label.
pub fn eyebrow_class(size: EyebrowSize, tone: EyebrowTone, mb: Mb, class: &str) -> (s: String)
    ensures
        s@ == classes(
            seq![
                mb_of(mb, ""@),
                (match size {
                    EyebrowSize::Xs => "text-xs"@,
                    EyebrowSize::Sm => "text-sm"@,
                }),
                "uppercase tracking-wide"@,
                eyebrow_tone_of(tone),
                class@,
            ],
        ),
{
    let size_class = match size {
        EyebrowSize::Xs => "text-xs",
        EyebrowSize::Sm => "text-sm",
    };
    let parts: [&str; 5] = [mb.class_or(""), size_class, "uppercase tracking-wide", tone.class(), class];
    let s = join_classes(&parts);
    assert(parts@.map_values(|p: &str| p@) =~= seq![
        mb_of(mb, ""@),
        size_class@,
        "uppercase tracking-wide"@,
        eyebrow_tone_of(tone),
        class@,
    ]);
    s
}

/// The class of an `ErrorText`: `text-sm` when small, the red text, extras.
pub fn error_text_class(small: bool, class: &str) -> (s: String)
    ensures
        s@ == classes(seq![(if small {
            "text-sm"@
        } else {
            ""@
        }), "text-red-400"@, class@]),
{
    let size = if small {
        "text-sm"
    } else {
        ""
    };
    let parts: [&str; 3] = [size, "text-red-400", class];
    let s = join_classes(&parts);
    assert(parts@.map_values(|p: &str| p@) =~= seq![size@, "text-red-400"@, class@]);
    s
}

} // verus!
