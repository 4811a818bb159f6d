//! The decisions of the admin pages: the post list's sorting and filter, the
//! editor's form, the media library's upload and delete flow, the settings
//! save report, the taxonomy editor, and the analytics chart.
use vstd::prelude::*;

use crate::embeds::parse_i64;
use crate::model::{PostInput, PostUsage};
use crate::text::{
    dec, dec_int, i64_digits, is_blank, is_empty_str, push_char, push_str, str_eq, string_from, trim,
    trim_str,
};

verus! {

// ------------------------------------------------------------------ post list

/// The sort after a click on a sortable header: its ascending key, or its
/// descending key when the list is already sorted ascending by it.
pub open spec fn toggled_sort_of(current: Seq<char>, asc: Seq<char>, desc: Seq<char>) -> Seq<char> {
    if current == asc {
        desc
    } else {
        asc
    }
}

/// Toggle a sortable header between its two sort keys.
pub fn toggle_sort(current: &str, asc: &str, desc: &str) -> (s: String)
    ensures
        s@ == toggled_sort_of(current@, asc@, desc@),
{
    if str_eq(current, asc) {
        string_from(desc)
    } else {
        string_from(asc)
    }
}

/// Clicking a header twice comes back to the ascending sort.
pub proof fn law_toggle_sort_twice(current: Seq<char>, asc: Seq<char>, desc: Seq<char>)
    requires
        asc != desc,
    ensures
        toggled_sort_of(toggled_sort_of(current, asc, desc), asc, desc) == (if current == asc {
            asc
        } else {
            desc
        }),
{
}

// ------------------------------------------------------------------ editor

/// Whether the editor edits an existing post (a new one has id 0).
pub fn is_editing(id: i64) -> (b: bool)
    ensures
        b == (id != 0),
{
    id != 0
}

/// The editor's heading.
pub fn editor_heading(editing: bool) -> (s: &'static str)
    ensures
        editing ==> s@ == "Edit post"@,
        !editing ==> s@ == "New post"@,
{
    if editing {
        "Edit post"
    } else {
        "New post"
    }
}

/// The editor's submit button.
pub fn editor_submit_label(editing: bool) -> (s: &'static str)
    ensures
        editing ==> s@ == "Save changes"@,
        !editing ==> s@ == "Create post"@,
{
    if editing {
        "Save changes"
    } else {
        "Create post"
    }
}

/// The featured image as submitted: `None` for a blank field, else the field
/// as typed.
pub fn featured_arg(field: &str) -> (r: Option<String>)
    ensures
        match r {
            Some(f) => trim(field@).len() > 0 && f@ == field@,
            None => trim(field@).len() == 0,
        },
{
    if is_blank(field) {
        None
    } else {
        Some(string_from(field))
    }
}

/// The post submitted by the editor's form.
pub fn post_input(
    title: String,
    excerpt: String,
    body_md: String,
    featured: &str,
    category_id: Option<i64>,
    status: String,
    tag_ids: Vec<i64>,
) -> (p: PostInput)
    ensures
        p.title == title,
        p.excerpt == excerpt,
        p.body_md == body_md,
        p.category_id == category_id,
        p.status == status,
        p.tag_ids == tag_ids,
        match p.featured_image_url {
            Some(f) => trim(featured@).len() > 0 && f@ == featured@,
            None => trim(featured@).len() == 0,
        },
{
    PostInput {
        title,
        body_md,
        excerpt,
        category_id,
        tag_ids,
        featured_image_url: featured_arg(featured),
        status,
    }
}

/// Whether `id` is among `ids`.
pub open spec fn has_id(ids: Seq<i64>, id: i64) -> bool {
    exists|i: int| 0 <= i < ids.len() && ids[i] == id
}

/// `ids` without `id`.
pub open spec fn ids_without(ids: Seq<i64>, id: i64) -> Seq<i64>
    decreases ids.len(),
{
    if ids.len() == 0 {
        ids
    } else if ids.last() == id {
        ids_without(ids.drop_last(), id)
    } else {
        ids_without(ids.drop_last(), id).push(ids.last())
    }
}

/// The tag selection after a click on a tag pill: a selected tag is
/// deselected, any other is added at the end.
pub open spec fn toggled_tags_of(ids: Seq<i64>, id: i64) -> Seq<i64> {
    if has_id(ids, id) {
        ids_without(ids, id)
    } else {
        ids.push(id)
    }
}

/// Toggle a tag in the editor's selection.
pub fn toggle_tag(ids: &Vec<i64>, id: i64) -> (r: Vec<i64>)
    ensures
        r@ == toggled_tags_of(ids@, id),
{
    let mut found = false;
    let mut kept: Vec<i64> = Vec::new();
    let mut i: usize = 0;
    while i < ids.len()
        invariant
            0 <= i <= ids@.len(),
            found == has_id(ids@.take(i as int), id),
            kept@ == ids_without(ids@.take(i as int), id),
        decreases ids.len() - i,
    {
        proof {
            let t = ids@.take(i + 1);
            assert(t.drop_last() =~= ids@.take(i as int));
            assert(t.last() == ids@[i as int]);
            assert(t[i as int] == ids@[i as int]);
            if has_id(ids@.take(i as int), id) {
                let j = choose|j: int| 0 <= j < i && ids@.take(i as int)[j] == id;
                assert(t[j] == ids@.take(i as int)[j]);
            }
            if has_id(t, id) && ids@[i as int] != id {
                let j = choose|j: int| 0 <= j < i + 1 && t[j] == id;
                assert(ids@.take(i as int)[j] == t[j]);
            }
        }
        if ids[i] == id {
            found = true;
        } else {
            kept.push(ids[i]);
        }
        i += 1;
    }
    assert(ids@.take(ids@.len() as int) =~= ids@);
    if found {
        kept
    } else {
        let mut r: Vec<i64> = Vec::new();
        let mut k: usize = 0;
        while k < ids.len()
            invariant
                0 <= k <= ids@.len(),
                r@ == ids@.take(k as int),
            decreases ids.len() - k,
        {
            r.push(ids[k]);
            assert(ids@.take(k + 1) =~= ids@.take(k as int).push(ids@[k as int]));
            k += 1;
        }
        r.push(id);
        r
    }
}

/// Toggling a tag twice restores a selection that did not hold it.
pub proof fn law_toggle_tag_twice(ids: Seq<i64>, id: i64)
    requires
        !has_id(ids, id),
    ensures
        toggled_tags_of(toggled_tags_of(ids, id), id) == ids,
{
    let t = ids.push(id);
    assert(t[ids.len() as int] == id);
    assert(t.drop_last() =~= ids);
    lemma_without_absent(ids, id);
}

/// Removing an id that is absent changes nothing.
proof fn lemma_without_absent(ids: Seq<i64>, id: i64)
    requires
        !has_id(ids, id),
    ensures
        ids_without(ids, id) == ids,
    decreases ids.len(),
{
    if ids.len() > 0 {
        let d = ids.drop_last();
        assert(!has_id(d, id)) by {
            if has_id(d, id) {
                let j = choose|j: int| 0 <= j < d.len() && d[j] == id;
                assert(ids[j] == d[j]);
            }
        }
        assert(ids[ids.len() - 1] != id);
        lemma_without_absent(d, id);
        assert(d.push(ids.last()) =~= ids);
    }
}

/// After a toggle, the tag is selected exactly when it was not before.
pub proof fn law_toggle_tag_flips(ids: Seq<i64>, id: i64)
    ensures
        has_id(toggled_tags_of(ids, id), id) == !has_id(ids, id),
{
    if has_id(ids, id) {
        lemma_without_drops(ids, id);
    } else {
        assert(ids.push(id)[ids.len() as int] == id);
    }
}

/// `ids_without` holds no `id`.
proof fn lemma_without_drops(ids: Seq<i64>, id: i64)
    ensures
        !has_id(ids_without(ids, id), id),
    decreases ids.len(),
{
    if ids.len() > 0 {
        lemma_without_drops(ids.drop_last(), id);
        let w = ids_without(ids.drop_last(), id);
        if ids.last() != id {
            if has_id(w.push(ids.last()), id) {
                let j = choose|j: int| 0 <= j < w.len() + 1 && w.push(ids.last())[j] == id;
                assert(w.push(ids.last())[j] == w[j]);
            }
        }
    }
}

/// The category chosen in the editor's select: the option's value read as an
/// id, `None` for "Uncategorized" (the empty value) or anything unreadable.
pub fn category_choice(value: &str) -> (r: Option<i64>)
    ensures
        r == (match crate::text::parse_signed(value@) {
            Some(x) => if i64::MIN <= x <= i64::MAX {
                Some(x as i64)
            } else {
                None
            },
            None => None,
        }),
{
    parse_i64(value)
}

/// The value of the category select for a chosen category: its id in
/// decimal, or the empty "Uncategorized" value.
pub fn category_value(id: Option<i64>) -> (s: String)
    ensures
        match id {
            Some(i) => s@ == dec_int(i as int),
            None => s@.len() == 0,
        },
{
    match id {
        Some(i) => i64_digits(i),
        None => String::new(),
    }
}

// ------------------------------------------------------------------ media

/// What the browser handed back after reading the chosen file.
pub enum UploadRead {
    /// The file could not be read.
    ReadError,
    /// No file was chosen.
    NoFile,
    /// A file's name and base64 contents.
    Payload { name: String, data: String },
    /// A reply without the `name|data` shape; nothing is done.
    Malformed,
}

/// The marker the browser sends when reading the file failed.
pub const READ_ERROR_MARKER: &'static str = "__read_error__";

/// The first index of `c` in `s`, if any.
pub open spec fn first_index_of(s: Seq<char>, c: char) -> Option<int> {
    if exists|i: int| 0 <= i < s.len() && s[i] == c {
        Some(choose|i: int| 0 <= i < s.len() && s[i] == c && forall|j: int| 0 <= j < i ==> s[j] != c)
    } else {
        None
    }
}

/// Read the browser's reply: the read-error marker, an empty reply (no file
/// chosen), or `name|data` split at the first `|`.
pub fn read_upload(reply: &str) -> (r: UploadRead)
    ensures
        reply@ == READ_ERROR_MARKER@ ==> r is ReadError,
        reply@ != READ_ERROR_MARKER@ && reply@.len() == 0 ==> r is NoFile,
        reply@ != READ_ERROR_MARKER@ && reply@.len() > 0 ==> match first_index_of(reply@, '|') {
            Some(k) => r matches UploadRead::Payload { name, data } && name@ == reply@.take(k)
                && data@ == reply@.skip(k + 1),
            None => r is Malformed,
        },
{
    if str_eq(reply, READ_ERROR_MARKER) {
        return UploadRead::ReadError;
    }
    if is_empty_str(reply) {
        return UploadRead::NoFile;
    }
    let v = crate::text::chars_of(reply);
    let k = crate::text::find_char(&v, 0, v.len(), '|');
    proof {
        assert(v@.subrange(0, v@.len() as int) =~= v@);
        crate::text::lemma_lead_bound(v@, crate::text::not_char_pred('|'));
        lemma_first_index(v@, '|', k as int);
    }
    if k == v.len() {
        UploadRead::Malformed
    } else {
        let name = crate::text::string_of(&v, 0, k);
        let data = crate::text::string_of(&v, k + 1, v.len());
        proof {
            assert(v@.subrange(0, k as int) =~= reply@.take(k as int));
            assert(v@.subrange(k + 1, v@.len() as int) =~= reply@.skip(k + 1));
        }
        UploadRead::Payload { name, data }
    }
}

/// The first index of `c` found by a scan is `first_index_of`'s answer.
proof fn lemma_first_index(s: Seq<char>, c: char, k: int)
    requires
        0 <= k <= s.len(),
        forall|j: int| 0 <= j < k ==> #[trigger] s[j] != c,
        k < s.len() ==> s[k] == c,
    ensures
        k == s.len() ==> first_index_of(s, c) is None,
        k < s.len() ==> first_index_of(s, c) == Some(k),
{
    if k < s.len() {
        assert(exists|i: int| 0 <= i < s.len() && s[i] == c);
        assert(s[k] == c && forall|j: int| 0 <= j < k ==> s[j] != c);
        let m = choose|i: int| 0 <= i < s.len() && s[i] == c && forall|j: int| 0 <= j < i ==> s[j] != c;
        if m < k {
            assert(s[m] != c);
        }
        if k < m {
            assert(s[k] != c);
        }
    }
}

/// The note under the upload control for a reply that does not upload.
pub fn upload_note(r: &UploadRead) -> (n: Option<&'static str>)
    ensures
        r is ReadError ==> n == Some("Could not read file."),
        r is NoFile ==> n == Some("Choose a file first."),
        r is Payload || r is Malformed ==> n is None,
{
    match r {
        UploadRead::ReadError => Some("Could not read file."),
        UploadRead::NoFile => Some("Choose a file first."),
        _ => None,
    }
}

/// The usage line under a media item.
pub fn usage_label(usage_count: i64) -> (s: String)
    ensures
        usage_count > 0 ==> s@ == "Used in "@ + dec(usage_count as nat) + " post(s)"@,
        usage_count <= 0 ==> s@ == "Unused"@,
{
    if usage_count > 0 {
        let mut s = string_from("Used in ");
        let d = i64_digits(usage_count);
        push_str(&mut s, d.as_str());
        push_str(&mut s, " post(s)");
        s
    } else {
        string_from("Unused")
    }
}

/// The delete dialog's warning for a media item used `usage_count` times.
pub fn delete_media_description(usage_count: i64) -> (s: String)
    ensures
        usage_count > 0 ==> s@ == "This image is used in "@ + dec(usage_count as nat)
            + " post(s) — they will show a broken image. This can't be undone."@,
        usage_count <= 0 ==> s@ == "This permanently deletes the image and can't be undone."@,
{
    if usage_count > 0 {
        let mut s = string_from("This image is used in ");
        let d = i64_digits(usage_count);
        push_str(&mut s, d.as_str());
        push_str(&mut s, " post(s) — they will show a broken image. This can't be undone.");
        s
    } else {
        string_from("This permanently deletes the image and can't be undone.")
    }
}

/// Whether opening the delete dialog fetches the list of posts using the
/// item: only for an item in use whose list is not shown yet.
pub fn fetch_usage_detail(usage_count: i64, detail: &str) -> (b: bool)
    ensures
        b == (usage_count > 0 && detail@.len() == 0),
{
    usage_count > 0 && is_empty_str(detail)
}

/// One line of the "used in" list: `• {title} ({kind})`.
pub open spec fn usage_line_of(u: PostUsage) -> Seq<char> {
    "• "@ + u.title@ + " ("@ + u.kind@ + seq![')']
}

/// The "used in" list, one line per post.
pub open spec fn usage_lines_of(us: Seq<PostUsage>) -> Seq<char>
    decreases us.len(),
{
    if us.len() == 0 {
        seq![]
    } else if us.len() == 1 {
        usage_line_of(us[0])
    } else {
        usage_lines_of(us.drop_last()) + seq!['\n'] + usage_line_of(us.last())
    }
}

/// The "used in" list shown in the delete dialog.
pub fn usage_lines(us: &Vec<PostUsage>) -> (s: String)
    ensures
        s@ == usage_lines_of(us@),
{
    let mut s = String::new();
    let mut i: usize = 0;
    while i < us.len()
        invariant
            0 <= i <= us@.len(),
            s@ == usage_lines_of(us@.take(i as int)),
        decreases us.len() - i,
    {
        proof {
            let t = us@.take(i + 1);
            assert(t.drop_last() =~= us@.take(i as int));
            assert(t.last() == us@[i as int]);
            if i == 0 {
                assert(t[0] == us@[0]);
            }
        }
        if i > 0 {
            push_char(&mut s, '\n');
        }
        push_str(&mut s, "• ");
        push_str(&mut s, us[i].title.as_str());
        push_str(&mut s, " (");
        push_str(&mut s, us[i].kind.as_str());
        push_char(&mut s, ')');
        proof {
            assert(s@ =~= usage_lines_of(us@.take(i + 1)));
        }
        i += 1;
    }
    assert(us@.take(us@.len() as int) =~= us@);
    s
}

// ------------------------------------------------------------------ settings

/// The error shown after saving the site settings: `None` when both saves
/// went through, else which of the two did not persist.
pub open spec fn settings_error_of(title_ok: bool, tagline_ok: bool) -> Option<Seq<char>> {
    if title_ok && tagline_ok {
        None
    } else if !title_ok && !tagline_ok {
        Some("Couldn't save title and tagline."@)
    } else if !title_ok {
        Some("Couldn't save title."@)
    } else {
        Some("Couldn't save tagline."@)
    }
}

/// Report the outcome of the two settings saves, both of which always run.
pub fn settings_error(title_ok: bool, tagline_ok: bool) -> (r: Option<String>)
    ensures
        match r {
            Some(m) => settings_error_of(title_ok, tagline_ok) == Some(m@),
            None => settings_error_of(title_ok, tagline_ok) is None,
        },
{
    if title_ok && tagline_ok {
        None
    } else {
        let mut m = string_from("Couldn't save ");
        if !title_ok {
            push_str(&mut m, "title");
        }
        if !title_ok && !tagline_ok {
            push_str(&mut m, " and ");
        }
        if !tagline_ok {
            push_str(&mut m, "tagline");
        }
        push_char(&mut m, '.');
        proof {
            reveal_strlit("Couldn't save ");
            reveal_strlit("title");
            reveal_strlit(" and ");
            reveal_strlit("tagline");
            reveal_strlit("Couldn't save title and tagline.");
            reveal_strlit("Couldn't save title.");
            reveal_strlit("Couldn't save tagline.");
            assert(m@ =~= settings_error_of(title_ok, tagline_ok)->0);
        }
        Some(m)
    }
}

// ------------------------------------------------------------------ appearance

/// The accent presets offered beside the hue slider: `(name, hue)`.
pub fn theme_presets() -> (v: Vec<(&'static str, i64)>)
    ensures
        v@ == seq![
            ("Sky", 235i64),
            ("Indigo", 265i64),
            ("Violet", 295i64),
            ("Pink", 330i64),
            ("Crimson", 15i64),
            ("Orange", 55i64),
            ("Emerald", 155i64),
            ("Teal", 195i64),
        ],
{
    let v = vec![
        ("Sky", 235i64),
        ("Indigo", 265i64),
        ("Violet", 295i64),
        ("Pink", 330i64),
        ("Crimson", 15i64),
        ("Orange", 55i64),
        ("Emerald", 155i64),
        ("Teal", 195i64),
    ];
    v
}

/// The class of a preset button: outlined brighter when it is the current hue.
pub fn preset_class(current: i64, hue: i64) -> (s: &'static str)
    ensures
        current == hue ==> s@ == "flex items-center gap-1.5 rounded-lg border border-white/50 px-3 py-1 text-xs"@,
        current != hue ==> s@ == "flex items-center gap-1.5 rounded-lg border border-white/15 px-3 py-1 text-xs hover:border-white/40"@,
{
    if current == hue {
        "flex items-center gap-1.5 rounded-lg border border-white/50 px-3 py-1 text-xs"
    } else {
        "flex items-center gap-1.5 rounded-lg border border-white/15 px-3 py-1 text-xs hover:border-white/40"
    }
}

/// The hue a slider value reads as, if it reads as an integer.
pub fn hue_input(value: &str) -> (r: Option<i64>)
    ensures
        r == (match crate::text::parse_signed(value@) {
            Some(x) => if i64::MIN <= x <= i64::MAX {
                Some(x as i64)
            } else {
                None
            },
            None => None,
        }),
{
    parse_i64(value)
}

/// The style rule that sets the site accent: `:root { --brand-hue: {hue}; }`.
pub fn theme_style(hue: i64) -> (s: String)
    ensures
        s@ == ":root { --brand-hue: "@ + dec_int(hue as int) + "; }"@,
{
    let mut s = string_from(":root { --brand-hue: ");
    let d = i64_digits(hue);
    push_str(&mut s, d.as_str());
    push_str(&mut s, "; }");
    s
}

/// The script that previews a hue by setting `--brand-hue` on the document.
pub fn preview_hue_script(hue: i64) -> (s: String)
    ensures
        s@ == "document.documentElement.style.setProperty('--brand-hue', '"@ + dec_int(hue as int) + "')"@,
{
    let mut s = string_from("document.documentElement.style.setProperty('--brand-hue', '");
    let d = i64_digits(hue);
    push_str(&mut s, d.as_str());
    push_str(&mut s, "')");
    s
}

// ------------------------------------------------------------------ taxonomy

/// Which taxonomy an editor manages.
#[derive(Clone, Copy, PartialEq, Eq, Debug)]
pub enum TaxKind {
    Category,
    Tag,
}

impl TaxKind {
    /// The editor's heading.
    pub fn title(self) -> (s: &'static str)
        ensures
            self == TaxKind::Category ==> s@ == "Categories"@,
            self == TaxKind::Tag ==> s@ == "Tags"@,
    {
        match self {
            TaxKind::Category => "Categories",
            TaxKind::Tag => "Tags",
        }
    }

    /// The placeholder of the "add" field.
    pub fn placeholder(self) -> (s: &'static str)
        ensures
            self == TaxKind::Category ==> s@ == "New category"@,
            self == TaxKind::Tag ==> s@ == "New tag"@,
    {
        match self {
            TaxKind::Category => "New category",
            TaxKind::Tag => "New tag",
        }
    }
}

/// The name to create from the "add" field: trimmed, `None` when blank (the
/// click does nothing).
pub fn new_term_name(field: &str) -> (r: Option<String>)
    ensures
        match r {
            Some(n) => n@.len() > 0 && n@ == trim(field@),
            None => trim(field@).len() == 0,
        },
{
    let n = trim_str(field);
    if is_empty_str(n.as_str()) {
        None
    } else {
        Some(n)
    }
}

/// A rename: the trimmed new name, or the error shown for a blank one (the
/// server rejects empty names too).
pub fn rename_term(draft: &str) -> (r: Result<String, &'static str>)
    ensures
        match r {
            Ok(n) => n@.len() > 0 && n@ == trim(draft@),
            Err(e) => trim(draft@).len() == 0 && e@ == "Name can't be empty."@,
        },
{
    match new_term_name(draft) {
        Some(n) => Ok(n),
        None => Err("Name can't be empty."),
    }
}

// ------------------------------------------------------------------ analytics

/// The largest of `views`, at least 1 (and 1 for no days).
pub open spec fn peak_of(views: Seq<i64>) -> int
    decreases views.len(),
{
    if views.len() == 0 {
        1
    } else {
        let p = peak_of(views.drop_last());
        if views.last() > p {
            views.last() as int
        } else {
            p
        }
    }
}

/// The chart's scale: the busiest day's views, at least 1.
pub fn views_peak(views: &Vec<i64>) -> (p: i64)
    ensures
        p == peak_of(views@),
        p >= 1,
        forall|i: int| 0 <= i < views@.len() ==> views@[i] <= p,
{
    let mut p: i64 = 1;
    let mut i: usize = 0;
    while i < views.len()
        invariant
            0 <= i <= views@.len(),
            p == peak_of(views@.take(i as int)),
            p >= 1,
            forall|j: int| 0 <= j < i ==> views@[j] <= p,
        decreases views.len() - i,
    {
        proof {
            let t = views@.take(i + 1);
            assert(t.drop_last() =~= views@.take(i as int));
            assert(t.last() == views@[i as int]);
        }
        if views[i] > p {
            p = views[i];
        }
        i += 1;
    }
    assert(views@.take(views@.len() as int) =~= views@);
    p
}

/// A day's bar height, in percent of the peak (integer division).
pub fn bar_height(views: i64, peak: i64) -> (h: i64)
    requires
        peak >= 1,
        0 <= views <= peak,
        peak <= i64::MAX / 100,
    ensures
        h == (views * 100) / (peak as int),
        0 <= h <= 100,
{
    proof {
        assert(views * 100 <= peak * 100) by (nonlinear_arith)
            requires
                views <= peak,
        ;
        assert((views * 100) / (peak as int) <= 100) by (nonlinear_arith)
            requires
                views * 100 <= peak * 100,
                peak >= 1,
                views >= 0,
        ;
        assert((views * 100) / (peak as int) >= 0) by (nonlinear_arith)
            requires
                views >= 0,
                peak >= 1,
        ;
    }
    (views * 100) / peak
}

/// The dashboard's reaction tile: the fetched count plus the reactions seen
/// live since.
pub fn live_reaction_count(fetched: i64, delta: i64) -> (n: i64)
    requires
        i64::MIN <= fetched + delta <= i64::MAX,
    ensures
        n == fetched + delta,
{
    fetched + delta
}

/// The dashboard's tiles, in order; the first is drawn large.
pub fn metric_tiles(s: &crate::model::AnalyticsSummary) -> (t: Vec<(&'static str, i64)>)
    ensures
        t@ == seq![
            ("Posts", s.post_count),
            ("Published", s.published_count),
            ("Drafts", s.draft_count),
            ("Comments", s.comment_count),
            ("Pending", s.pending_comment_count),
            ("Reactions", s.reaction_count),
            ("Subscribers", s.subscriber_count),
            ("Views", s.view_count),
        ],
{
    let mut t: Vec<(&'static str, i64)> = Vec::new();
    t.push(("Posts", s.post_count));
    t.push(("Published", s.published_count));
    t.push(("Drafts", s.draft_count));
    t.push(("Comments", s.comment_count));
    t.push(("Pending", s.pending_comment_count));
    t.push(("Reactions", s.reaction_count));
    t.push(("Subscribers", s.subscriber_count));
    t.push(("Views", s.view_count));
    assert(t@ =~= seq![
        ("Posts", s.post_count),
        ("Published", s.published_count),
        ("Drafts", s.draft_count),
        ("Comments", s.comment_count),
        ("Pending", s.pending_comment_count),
        ("Reactions", s.reaction_count),
        ("Subscribers", s.subscriber_count),
        ("Views", s.view_count),
    ]);
    t
}

} // verus!
