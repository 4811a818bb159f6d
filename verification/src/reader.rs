//! The decisions of the public reader pages: a post's Open Graph head, the
//! comment list merged from its three sources, the comment form's optimistic
//! flow, and the small presence and reaction displays.
use vstd::prelude::*;

use crate::live::{comment_merged, distinct_comment_ids, has_comment_id};
use crate::model::{CommentView, PostDetail};
use crate::text::{is_blank, is_empty_str, push_char, push_str, starts_with, string_from, trim, trim_str};

verus! {

// ------------------------------------------------------------------ head

/// The canonical page of a post: `{base}/post/{slug}`.
pub open spec fn post_url_of(base: Seq<char>, slug: Seq<char>) -> Seq<char> {
    base + "/post/"@ + slug
}

/// An image URL made absolute against `base`: `http://` and `https://` URLs
/// pass through, a rooted path is appended to `base`, and anything else is
/// joined to it with a `/`.
pub open spec fn absolute_url_of(base: Seq<char>, img: Seq<char>) -> Seq<char> {
    if img.len() >= 7 && img.take(7) == "http://"@ {
        img
    } else if img.len() >= 8 && img.take(8) == "https://"@ {
        img
    } else if img.len() > 0 && img[0] == '/' {
        base + img
    } else {
        base + seq!['/'] + img
    }
}

/// The canonical page of a post.
pub fn post_url(base: &str, slug: &str) -> (u: String)
    ensures
        u@ == post_url_of(base@, slug@),
{
    let mut u = string_from(base);
    push_str(&mut u, "/post/");
    push_str(&mut u, slug);
    u
}

/// `img` made absolute against `base`, for Open Graph.
pub fn absolute_url(base: &str, img: &str) -> (u: String)
    ensures
        u@ == absolute_url_of(base@, img@),
{
    proof {
        reveal_strlit("http://");
        reveal_strlit("https://");
        reveal_strlit("/");
        assert("/"@ =~= seq!['/']);
    }
    let http = starts_with(img, "http://");
    let https = starts_with(img, "https://");
    let rooted = starts_with(img, "/");
    proof {
        if rooted {
            assert(img@.take(1)[0] == "/"@[0]);
        } else if img@.len() > 0 && img@[0] == '/' {
            assert(img@.take(1) =~= "/"@);
        }
    }
    if http || https {
        string_from(img)
    } else if rooted {
        let mut u = string_from(base);
        push_str(&mut u, img);
        u
    } else {
        let mut u = string_from(base);
        push_char(&mut u, '/');
        push_str(&mut u, img);
        u
    }
}

/// What a post's `<head>` carries besides its title.
pub struct PostHead {
    /// `og:url`, only when the site's base URL is known.
    pub url: Option<String>,
    /// `og:image` / `twitter:image`, absolute.
    pub image: Option<String>,
    /// The description tags, only for a post with an excerpt.
    pub description: Option<String>,
}

/// The Open Graph head of a post. Open Graph wants absolute URLs, so the
/// page and image are joined onto `base`; a blank base emits no `og:url`
/// and an empty excerpt no description.
pub fn post_head(post: &PostDetail, base: &str) -> (h: PostHead)
    ensures
        match h.url {
            Some(u) => base@.len() > 0 && u@ == post_url_of(base@, post.slug@),
            None => base@.len() == 0,
        },
        match h.image {
            Some(i) => post.featured_image_url matches Some(f) && i@ == absolute_url_of(base@, f@),
            None => post.featured_image_url is None,
        },
        match h.description {
            Some(d) => post.excerpt@.len() > 0 && d@ == post.excerpt@,
            None => post.excerpt@.len() == 0,
        },
{
    let url = if is_empty_str(base) {
        None
    } else {
        Some(post_url(base, post.slug.as_str()))
    };
    let image = match &post.featured_image_url {
        Some(f) => Some(absolute_url(base, f.as_str())),
        None => None,
    };
    let description = if is_empty_str(post.excerpt.as_str()) {
        None
    } else {
        Some(post.excerpt.clone())
    };
    PostHead { url, image, description }
}

// ------------------------------------------------------------------ comments

/// Comments deduplicated by id, first occurrence kept, order preserved.
pub open spec fn dedupe_comments(s: Seq<CommentView>) -> Seq<CommentView>
    decreases s.len(),
{
    if s.len() == 0 {
        s
    } else {
        comment_merged(dedupe_comments(s.drop_last()), s.last())
    }
}

/// The comments of `s` that belong to post `post_id`.
pub open spec fn of_post(s: Seq<CommentView>, post_id: i64) -> Seq<CommentView>
    decreases s.len(),
{
    if s.len() == 0 {
        s
    } else if s.last().post_id == post_id {
        of_post(s.drop_last(), post_id).push(s.last())
    } else {
        of_post(s.drop_last(), post_id)
    }
}

/// The comment list a reader sees: the approved comments fetched on load,
/// then those streamed in for this post, then one's own optimistic or
/// pending rows, deduplicated by id with the first occurrence kept.
pub open spec fn merged_comments_of(
    initial: Seq<CommentView>,
    live: Seq<CommentView>,
    own: Seq<CommentView>,
    post_id: i64,
) -> Seq<CommentView> {
    dedupe_comments(initial + of_post(live, post_id) + own)
}

/// Append to `out` each comment of `src` whose id it does not hold yet
/// (only those of `post_id`, when it is given).
fn merge_into(out: &mut Vec<CommentView>, src: &Vec<CommentView>, post_id: Option<i64>, Ghost(pre): Ghost<Seq<CommentView>>)
    requires
        old(out)@ == dedupe_comments(pre),
    ensures
        final(out)@ == dedupe_comments(
            pre + match post_id {
                Some(p) => of_post(src@, p),
                None => src@,
            },
        ),
{
    let mut i: usize = 0;
    while i < src.len()
        invariant
            0 <= i <= src@.len(),
            out@ == dedupe_comments(
                pre + match post_id {
                    Some(p) => of_post(src@.take(i as int), p),
                    None => src@.take(i as int),
                },
            ),
        decreases src.len() - i,
    {
        let c = &src[i];
        let keep = match post_id {
            Some(p) => c.post_id == p,
            None => true,
        };
        let ghost before = out@;
        if keep {
            let mut found = false;
            let mut k: usize = 0;
            while k < out.len()
                invariant
                    0 <= k <= out@.len(),
                    found == (exists|j: int| 0 <= j < k && (#[trigger] out@[j]).id == c.id),
                decreases out.len() - k,
            {
                if out[k].id == c.id {
                    found = true;
                }
                k += 1;
            }
            if !found {
                out.push(c.copy());
            }
            assert(out@ == comment_merged(before, *c));
        }
        proof {
            let t = src@.take(i + 1);
            assert(t.drop_last() =~= src@.take(i as int));
            assert(t.last() == src@[i as int]);
            let a = match post_id {
                Some(p) => of_post(src@.take(i as int), p),
                None => src@.take(i as int),
            };
            let b = match post_id {
                Some(p) => of_post(src@.take(i + 1), p),
                None => src@.take(i + 1),
            };
            if keep {
                assert(b == a.push(src@[i as int]));
                assert((pre + b).drop_last() =~= pre + a);
                assert((pre + b).last() == src@[i as int]);
            } else {
                assert(b == a);
            }
        }
        i += 1;
    }
    proof {
        assert(src@.take(src@.len() as int) =~= src@);
    }
}

/// Merge the comment sources into the list shown under a post: the fetched
/// approved comments, the live ones for `post_id`, then one's own rows,
/// deduplicated by id and in that order.
pub fn merge_comments(
    initial: &Vec<CommentView>,
    live: &Vec<CommentView>,
    own: &Vec<CommentView>,
    post_id: i64,
) -> (out: Vec<CommentView>)
    ensures
        out@ == merged_comments_of(initial@, live@, own@, post_id),
{
    let mut out: Vec<CommentView> = Vec::new();
    assert(out@ == dedupe_comments(Seq::<CommentView>::empty()));
    merge_into(&mut out, initial, None, Ghost(Seq::<CommentView>::empty()));
    assert(Seq::<CommentView>::empty() + initial@ =~= initial@);
    merge_into(&mut out, live, Some(post_id), Ghost(initial@));
    merge_into(&mut out, own, None, Ghost(initial@ + of_post(live@, post_id)));
    out
}

/// A merged comment list never shows two comments with one id.
pub proof fn law_merged_ids_distinct(s: Seq<CommentView>)
    ensures
        distinct_comment_ids(dedupe_comments(s)),
    decreases s.len(),
{
    if s.len() > 0 {
        law_merged_ids_distinct(s.drop_last());
        let pre = dedupe_comments(s.drop_last());
        if !has_comment_id(pre, s.last().id) {
            let r = pre.push(s.last());
            assert forall|i: int, j: int| 0 <= i < j < r.len() implies (#[trigger] r[i]).id != (#[trigger] r[j]).id by {
                assert(r[i] == pre[i]);
                if j < pre.len() {
                    assert(r[j] == pre[j]);
                }
            }
        }
    }
}

/// Every comment id among the sources shows up in the merged list, and no
/// other.
pub proof fn law_merged_keeps_every_id(s: Seq<CommentView>, id: i64)
    ensures
        has_comment_id(dedupe_comments(s), id) == has_comment_id(s, id),
    decreases s.len(),
{
    if s.len() > 0 {
        let d = s.drop_last();
        law_merged_keeps_every_id(d, id);
        let pre = dedupe_comments(d);
        if has_comment_id(d, id) {
            let j = choose|j: int| 0 <= j < d.len() && (#[trigger] d[j]).id == id;
            assert(s[j] == d[j]);
        }
        if has_comment_id(s, id) {
            let j = choose|j: int| 0 <= j < s.len() && (#[trigger] s[j]).id == id;
            if j < d.len() {
                assert(d[j] == s[j]);
            }
        }
        if !has_comment_id(pre, s.last().id) {
            let r = pre.push(s.last());
            assert(r[pre.len() as int] == s.last());
            if has_comment_id(pre, id) {
                let j = choose|j: int| 0 <= j < pre.len() && (#[trigger] pre[j]).id == id;
                assert(r[j] == pre[j]);
            }
            if has_comment_id(r, id) {
                let j = choose|j: int| 0 <= j < r.len() && (#[trigger] r[j]).id == id;
                if j < pre.len() {
                    assert(r[j] == pre[j]);
                }
            }
        }
    }
}

/// The name shown on one's own optimistic comment: the trimmed name given,
/// or `You`.
pub open spec fn own_display_name_of(name: Seq<char>) -> Seq<char> {
    if trim(name).len() == 0 {
        "You"@
    } else {
        trim(name)
    }
}

/// The name shown on one's own optimistic comment.
pub fn own_display_name(name: &str) -> (d: String)
    ensures
        d@ == own_display_name_of(name@),
{
    if is_blank(name) {
        string_from("You")
    } else {
        trim_str(name)
    }
}

/// What a press of "Post comment" does.
pub enum CommentSubmit {
    /// A post is already in flight: nothing happens.
    Busy,
    /// The body is blank: the form says so and nothing is sent.
    Empty,
    /// Send the trimmed body.
    Send(String),
}

/// Decide a press of "Post comment" from whether a post is in flight and the
/// body typed.
pub fn comment_submit(submitting: bool, body: &str) -> (r: CommentSubmit)
    ensures
        submitting ==> r is Busy,
        !submitting && trim(body@).len() == 0 ==> r is Empty,
        !submitting && trim(body@).len() > 0 ==> (r matches CommentSubmit::Send(b) && b@ == trim(body@)),
{
    if submitting {
        CommentSubmit::Busy
    } else {
        let b = trim_str(body);
        if is_empty_str(b.as_str()) {
            CommentSubmit::Empty
        } else {
            CommentSubmit::Send(b)
        }
    }
}

/// The message shown for a blank comment.
pub const EMPTY_COMMENT_MESSAGE: &'static str = "Comment cannot be empty.";

/// A guest field as sent: `None` when left empty.
pub fn guest_field(s: &str) -> (r: Option<String>)
    ensures
        match r {
            Some(v) => s@.len() > 0 && v@ == s@,
            None => s@.len() == 0,
        },
{
    if is_empty_str(s) {
        None
    } else {
        Some(string_from(s))
    }
}

/// The placeholder shown the moment a comment is posted, under a temporary
/// (negative) id until the server answers.
pub fn optimistic_comment(temp_id: i64, post_id: i64, name: &str, body: String) -> (c: CommentView)
    ensures
        c.id == temp_id,
        c.post_id == post_id,
        c.display_name@ == own_display_name_of(name@),
        c.body == body,
        c.status@ == "sending"@,
        c.created_at@ == "just now"@,
{
    CommentView {
        id: temp_id,
        post_id,
        display_name: own_display_name(name),
        body,
        status: string_from("sending"),
        created_at: string_from("just now"),
    }
}

/// `s` without the comments whose id is `id`.
pub open spec fn without_id(s: Seq<CommentView>, id: i64) -> Seq<CommentView>
    decreases s.len(),
{
    if s.len() == 0 {
        s
    } else if s.last().id == id {
        without_id(s.drop_last(), id)
    } else {
        without_id(s.drop_last(), id).push(s.last())
    }
}

/// `s` with every comment whose id is `id` replaced by `c`.
pub open spec fn replace_id(s: Seq<CommentView>, id: i64, c: CommentView) -> Seq<CommentView> {
    Seq::new(s.len(), |i: int| if s[i].id == id { c } else { s[i] })
}

/// Drop the comments whose id is `id`.
pub fn drop_comment(v: &Vec<CommentView>, id: i64) -> (r: Vec<CommentView>)
    ensures
        r@ == without_id(v@, id),
{
    let mut r: Vec<CommentView> = Vec::new();
    let mut i: usize = 0;
    while i < v.len()
        invariant
            0 <= i <= v@.len(),
            r@ == without_id(v@.take(i as int), id),
        decreases v.len() - i,
    {
        proof {
            let t = v@.take(i + 1);
            assert(t.drop_last() =~= v@.take(i as int));
            assert(t.last() == v@[i as int]);
        }
        if v[i].id != id {
            r.push(v[i].copy());
        }
        i += 1;
    }
    assert(v@.take(v@.len() as int) =~= v@);
    r
}

/// Replace each comment whose id is `id` by `c`.
pub fn replace_comment(v: &Vec<CommentView>, id: i64, c: &CommentView) -> (r: Vec<CommentView>)
    ensures
        r@ == replace_id(v@, id, *c),
{
    let mut r: Vec<CommentView> = Vec::new();
    let mut i: usize = 0;
    while i < v.len()
        invariant
            0 <= i <= v@.len(),
            r@.len() == i,
            forall|j: int| 0 <= j < i ==> #[trigger] r@[j] == (if v@[j].id == id { *c } else { v@[j] }),
        decreases v.len() - i,
    {
        if v[i].id == id {
            r.push(c.copy());
        } else {
            r.push(v[i].copy());
        }
        i += 1;
    }
    assert(r@ =~= replace_id(v@, id, *c));
    r
}

/// What the form does once the server has answered a post.
pub struct CommentSettled {
    /// One's own rows after the answer.
    pub own: Vec<CommentView>,
    /// The approved comment to show among the live ones, if it was approved.
    pub to_live: Option<CommentView>,
    /// The note shown under the form.
    pub message: &'static str,
}

/// Reconcile one's own rows with the server's canonical comment: an approved
/// comment replaces the placeholder among the live comments (it streams in
/// too), a pending one takes the placeholder's place among one's own rows,
/// since pending comments are never broadcast.
pub fn settle_comment(own: &Vec<CommentView>, temp_id: i64, view: CommentView) -> (s: CommentSettled)
    ensures
        view.status@ == "approved"@ ==> {
            &&& s.own@ == without_id(own@, temp_id)
            &&& s.to_live == Some(view)
            &&& s.message@ == "Thanks! Your comment is posted."@
        },
        view.status@ != "approved"@ ==> {
            &&& s.own@ == replace_id(own@, temp_id, view)
            &&& s.to_live is None
            &&& s.message@ == "Thanks! Your comment is awaiting approval."@
        },
{
    if crate::text::str_eq(view.status.as_str(), "approved") {
        CommentSettled {
            own: drop_comment(own, temp_id),
            to_live: Some(view),
            message: "Thanks! Your comment is posted.",
        }
    } else {
        CommentSettled {
            own: replace_comment(own, temp_id, &view),
            to_live: None,
            message: "Thanks! Your comment is awaiting approval.",
        }
    }
}

/// The next temporary id: placeholders count down from -1 so they never
/// collide with a server id.
pub fn next_temp_id(temp_id: i64) -> (n: i64)
    requires
        temp_id > i64::MIN,
    ensures
        n == temp_id - 1,
{
    temp_id - 1
}

/// The tag shown beside a comment in flight or awaiting moderation.
pub fn comment_status_note(status: &str) -> (n: Option<&'static str>)
    ensures
        status@ == "sending"@ ==> n == Some("posting…"),
        status@ == "pending"@ ==> n == Some("awaiting approval"),
        status@ != "sending"@ && status@ != "pending"@ ==> n is None,
{
    proof {
        reveal_strlit("sending");
        reveal_strlit("pending");
        assert("sending"@[0] != "pending"@[0]);
    }
    if crate::text::str_eq(status, "sending") {
        Some("posting…")
    } else if crate::text::str_eq(status, "pending") {
        Some("awaiting approval")
    } else {
        None
    }
}

/// What stands where the comment list would be when it is empty.
pub fn empty_comments_note(loading: bool, failed: bool) -> (n: &'static str)
    ensures
        loading ==> n@ == "Loading…"@,
        !loading && failed ==> n@ == "Couldn't load comments."@,
        !loading && !failed ==> n@ == "No comments yet."@,
{
    if loading {
        "Loading…"
    } else if failed {
        "Couldn't load comments."
    } else {
        "No comments yet."
    }
}

// ------------------------------------------------------------------ presence and reactions

/// The presence badge shows only once at least one reader (oneself) is
/// connected: the count is 0 before the channel connects.
pub fn presence_visible(reading_now: i64) -> (b: bool)
    ensures
        b == (reading_now >= 1),
{
    reading_now >= 1
}

/// The reaction count shown: the fetched total and the live one describe the
/// same count and the live one only grows, so the larger is right in any
/// arrival order.
pub fn reaction_display(fetched: i64, live: i64) -> (n: i64)
    ensures
        n >= fetched,
        n >= live,
        n == fetched || n == live,
{
    if fetched >= live {
        fetched
    } else {
        live
    }
}

/// Whether the post is shown with the draft-preview banner.
pub fn is_draft(status: &str) -> (b: bool)
    ensures
        b == (status@ != "published"@),
{
    !crate::text::str_eq(status, "published")
}

/// The first id of the claps one makes oneself: far above the channel's ids,
/// so the two never collide.
pub const LOCAL_CLAP_ID_START: u64 = 1_000_000_000;

// ------------------------------------------------------------------ subscriptions and sign-in

/// The note shown once a subscription request went through.
pub const SUBSCRIBED_MESSAGE: &'static str = "Almost there — check your inbox to confirm your subscription.";

/// The heading and text of the subscription confirmation page.
pub fn confirmation_text(confirmed: bool) -> (t: (&'static str, &'static str))
    ensures
        confirmed ==> t.0@ == "Subscription confirmed 🎉"@
            && t.1@ == "Thanks — you'll now receive new posts in your inbox."@,
        !confirmed ==> t.0@ == "Link expired"@
            && t.1@ == "This confirmation link is invalid or has already been used. Try subscribing again."@,
{
    if confirmed {
        ("Subscription confirmed 🎉", "Thanks — you'll now receive new posts in your inbox.")
    } else {
        ("Link expired", "This confirmation link is invalid or has already been used. Try subscribing again.")
    }
}

/// How a sign-in or sign-up attempt that the server accepted ended.
#[derive(Clone, Copy, PartialEq, Eq, Debug)]
pub enum SignInOutcome {
    LoggedIn,
    EmailUnverified,
    MfaRequired,
}

/// The note shown after a sign-in: none when signed in (the user is taken
/// home), else what is left to do.
pub fn sign_in_note(outcome: SignInOutcome) -> (n: Option<&'static str>)
    ensures
        outcome == SignInOutcome::LoggedIn ==> n is None,
        outcome == SignInOutcome::EmailUnverified ==> n == Some("Check your inbox to verify your email, then sign in."),
        outcome == SignInOutcome::MfaRequired ==> n == Some("Two-factor required — finish sign-in from the account page."),
{
    match outcome {
        SignInOutcome::LoggedIn => None,
        SignInOutcome::EmailUnverified => Some("Check your inbox to verify your email, then sign in."),
        SignInOutcome::MfaRequired => Some("Two-factor required — finish sign-in from the account page."),
    }
}

/// The error a form shows: none while it is empty.
pub fn shown_error(e: &str) -> (r: Option<String>)
    ensures
        match r {
            Some(v) => e@.len() > 0 && v@ == e@,
            None => e@.len() == 0,
        },
{
    guest_field(e)
}

// ------------------------------------------------------------------ feeds

/// A facet or filter as sent to the server: `None` when left empty.
pub fn facet_arg(s: &str) -> (r: Option<String>)
    ensures
        match r {
            Some(v) => s@.len() > 0 && v@ == s@,
            None => s@.len() == 0,
        },
{
    guest_field(s)
}

/// Whether any search facet is set (and "Clear filters" is offered).
pub fn filters_active(category: &str, tag: &str, date_range: &str) -> (b: bool)
    ensures
        b == (category@.len() > 0 || tag@.len() > 0 || date_range@.len() > 0),
{
    !is_empty_str(category) || !is_empty_str(tag) || !is_empty_str(date_range)
}

/// A taxonomy feed's heading: the loaded name, or the slug until it loads.
pub fn feed_title(name: Option<&str>, slug: &str) -> (t: String)
    ensures
        match name {
            Some(n) => t@ == n@,
            None => t@ == slug@,
        },
{
    match name {
        Some(n) => string_from(n),
        None => string_from(slug),
    }
}

} // verus!
