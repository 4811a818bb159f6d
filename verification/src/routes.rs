//! The blog's routes and the navigation decisions made from them: the
//! breadcrumb trail of each page, where "Admin" lands a user, and the admin
//! sidebar highlighting.
use vstd::prelude::*;

use crate::auth_tokens::{
    ANALYTICS_READ, COMMENTS_MODERATE, MEDIA_UPLOAD, POSTS_WRITE, SETTINGS_WRITE, USERS_MANAGE,
};
use crate::text::{
    chars_of, is_ws, lead, lemma_lead_bound, lemma_lead_is, push_char, push_chars, push_str, str_eq,
    string_from,
};

verus! {

/// The blog's pages.
#[derive(Clone, PartialEq, Debug)]
pub enum Route {
    LoginPage,
    RegisterPage,
    ForgotPasswordPage,
    ResetPasswordPage { token: String },
    VerifyEmailPage { token: String },
    AccountPage,
    HomePage,
    PostDetail { slug: String },
    CategoryFeed { slug: String },
    TagFeed { slug: String },
    AuthorProfile { slug: String },
    Archive,
    SearchResults { q: String },
    Subscribe,
    ConfirmSubscription { token: String },
    AdminDashboard,
    AdminPostList,
    AdminPostNew,
    AdminPostEdit { id: i64 },
    AdminMedia,
    AdminComments,
    AdminUsers,
    AdminSettings,
    AdminAppearance,
    AdminTaxonomy,
    AdminAnalytics,
    ServerError,
    NotFound { segments: Vec<String> },
}

/// One step of a breadcrumb trail; `route` is `None` for the current page.
#[derive(Clone, Debug)]
pub struct BreadcrumbItem {
    pub label: String,
    pub route: Option<Route>,
}

// ------------------------------------------------------------------ labels

/// Word separators of a slug: whitespace, and `-`.
pub open spec fn is_sep(c: char) -> bool {
    is_ws(c) || c == '-'
}

pub open spec fn sep_pred() -> spec_fn(char) -> bool {
    |c: char| is_sep(c)
}

pub open spec fn word_pred() -> spec_fn(char) -> bool {
    |c: char| !is_sep(c)
}

/// The words of a slug, once `-` reads as a space.
pub open spec fn slug_words(s: Seq<char>) -> Seq<Seq<char>>
    decreases s.len(),
{
    let s1 = s.skip(lead(s, sep_pred()) as int);
    if s1.len() == 0 {
        seq![]
    } else {
        let k = lead(s1, word_pred());
        let rest = s1.skip(k as int);
        if rest.len() < s.len() {
            seq![s1.take(k as int)] + slug_words(rest)
        } else {
            seq![]
        }
    }
}

/// `char::to_uppercase`: the Unicode uppercase mapping of a character.
pub uninterp spec fn char_upper(c: char) -> Seq<char>;

/// What `char::to_uppercase` yields for `c`: on ASCII, `a-z` become `A-Z` and
/// every other character stays as it is.
pub open spec fn upper_of(c: char) -> Seq<char> {
    if 'a' <= c <= 'z' {
        seq![((c as u32) - 32) as char]
    } else if (c as u32) < 128 {
        seq![c]
    } else {
        char_upper(c)
    }
}

/// A word with its first character uppercased.
pub open spec fn capitalized(w: Seq<char>) -> Seq<char> {
    if w.len() == 0 {
        w
    } else {
        upper_of(w[0]) + w.skip(1)
    }
}

/// Words joined by single spaces.
pub open spec fn join_words(ws: Seq<Seq<char>>) -> Seq<char>
    decreases ws.len(),
{
    if ws.len() == 0 {
        seq![]
    } else if ws.len() == 1 {
        ws[0]
    } else {
        join_words(ws.drop_last()) + seq![' '] + ws.last()
    }
}

/// The title-cased label of a slug: `"my-first-post"` → `"My First Post"`.
pub open spec fn slug_label(slug: Seq<char>) -> Seq<char> {
    join_words(slug_words(slug).map_values(|w: Seq<char>| capitalized(w)))
}

/// Calls `char::to_uppercase` and collects the mapping. Claimed: the mapping
/// depends on the character alone (`char_upper`); ASCII `a-z` map to `A-Z`
/// and every other ASCII character maps to itself.
#[verifier::external_body]
fn to_upper(c: char) -> (v: Vec<char>)
    ensures
        v@ == char_upper(c),
        'a' <= c <= 'z' ==> v@ == seq![((c as u32) - 32) as char],
        (c as u32) < 128 && !('a' <= c <= 'z') ==> v@ == seq![c],
{
    c.to_uppercase().collect()
}

/// First index in `lo..hi` that is not a separator, or `hi`.
fn skip_seps(v: &Vec<char>, lo: usize, hi: usize) -> (i: usize)
    requires
        lo <= hi <= v.len(),
    ensures
        lo <= i <= hi,
        i - lo == lead(v@.subrange(lo as int, hi as int), sep_pred()),
{
    let mut i: usize = lo;
    while i < hi && (crate::text::is_whitespace(v[i]) || v[i] == '-')
        invariant
            lo <= i <= hi <= v.len(),
            forall|j: int| lo <= j < i ==> is_sep(#[trigger] v@[j]),
        decreases hi - i,
    {
        i += 1;
    }
    proof {
        let s = v@.subrange(lo as int, hi as int);
        assert forall|j: int| 0 <= j < i - lo implies sep_pred()(#[trigger] s[j]) by {
            assert(s[j] == v@[lo + j]);
        }
        if i < hi {
            assert(s[i - lo] == v@[i as int]);
        }
        lemma_lead_is(s, sep_pred(), i - lo);
    }
    i
}

/// First index in `lo..hi` that is a separator, or `hi`.
fn skip_word(v: &Vec<char>, lo: usize, hi: usize) -> (i: usize)
    requires
        lo <= hi <= v.len(),
    ensures
        lo <= i <= hi,
        i - lo == lead(v@.subrange(lo as int, hi as int), word_pred()),
{
    let mut i: usize = lo;
    while i < hi && !(crate::text::is_whitespace(v[i]) || v[i] == '-')
        invariant
            lo <= i <= hi <= v.len(),
            forall|j: int| lo <= j < i ==> !is_sep(#[trigger] v@[j]),
        decreases hi - i,
    {
        i += 1;
    }
    proof {
        let s = v@.subrange(lo as int, hi as int);
        assert forall|j: int| 0 <= j < i - lo implies word_pred()(#[trigger] s[j]) by {
            assert(s[j] == v@[lo + j]);
        }
        if i < hi {
            assert(s[i - lo] == v@[i as int]);
        }
        lemma_lead_is(s, word_pred(), i - lo);
    }
    i
}

/// Title-case a slug: dashes become spaces, each word starts uppercase.
pub fn slug_to_label(slug: &str) -> (label: String)
    ensures
        label@ == slug_label(slug@),
{
    let v = chars_of(slug);
    let n = v.len();
    let mut out = String::new();
    let mut pos: usize = 0;
    let ghost mut done: Seq<Seq<char>> = seq![];
    let ghost cap = |w: Seq<char>| capitalized(w);
    proof {
        assert(v@.skip(0) =~= v@);
    }
    let mut finished = false;
    let mut first = true;
    while !finished
        invariant
            n == v.len(),
            v@ == slug@,
            first == (done.len() == 0),
            pos <= n,
            !finished ==> slug_words(slug@) == done + slug_words(v@.skip(pos as int)),
            finished ==> slug_words(slug@) == done,
            out@ == join_words(done.map_values(cap)),
            cap == (|w: Seq<char>| capitalized(w)),
        decreases n - pos + (if finished {
            0int
        } else {
            1int
        }),
    {
        let ghost t = v@.skip(pos as int);
        let p1 = skip_seps(&v, pos, n);
        proof {
            assert(v@.subrange(pos as int, n as int) =~= t);
            assert(t.skip(lead(t, sep_pred()) as int) =~= v@.subrange(p1 as int, n as int));
        }
        if p1 == n {
            proof {
                assert(slug_words(t) == Seq::<Seq<char>>::empty());
                assert(done + slug_words(t) =~= done);
            }
            finished = true;
        } else {
            let p2 = skip_word(&v, p1, n);
            let ghost s1 = v@.subrange(p1 as int, n as int);
            let ghost word = v@.subrange(p1 as int, p2 as int);
            proof {
                assert(s1[0] == v@[p1 as int]);
                lemma_lead_bound(t, sep_pred());
                assert(t[p1 - pos] == v@[p1 as int]);
                assert(!is_sep(v@[p1 as int]));
                assert(s1.take((p2 - p1) as int) =~= word);
                assert(s1.skip((p2 - p1) as int) =~= v@.skip(p2 as int));
                assert(t.skip(lead(t, sep_pred()) as int) == s1);
                assert(slug_words(t) == seq![word] + slug_words(v@.skip(p2 as int)));
            }
            let ghost before = out@;
            let ghost old_done = done;
            if !first {
                push_char(&mut out, ' ');
            }
            first = false;
            let up = to_upper(v[p1]);
            assert(up@ == upper_of(v@[p1 as int]));
            push_chars(&mut out, &up, 0, up.len());
            push_chars(&mut out, &v, p1 + 1, p2);
            proof {
                assert(up@.subrange(0, up@.len() as int) =~= up@);
                assert(word.skip(1) =~= v@.subrange(p1 + 1, p2 as int));
                assert(word[0] == v@[p1 as int]);
                done = done.push(word);
                assert(done.map_values(cap).drop_last() =~= old_done.map_values(cap));
                assert(done.map_values(cap).last() == capitalized(word));
                if old_done.len() == 0 {
                    assert(done.map_values(cap) =~= seq![capitalized(word)]);
                    assert(before =~= Seq::<char>::empty());
                    assert(out@ =~= capitalized(word));
                } else {
                    assert(out@ =~= before + seq![' '] + capitalized(word));
                }
                assert(old_done + (seq![word] + slug_words(v@.skip(p2 as int))) =~= done
                    + slug_words(v@.skip(p2 as int)));
            }
            pos = p2;
        }
    }
    proof {
        assert(slug_label(slug@) == join_words(done.map_values(cap)));
    }
    out
}

// ------------------------------------------------------------------ breadcrumbs

/// The breadcrumb trail of each page, as `(label, link)` steps.
pub open spec fn crumbs_of(route: Route) -> Seq<(Seq<char>, Option<Route>)> {
    let home = ("Home"@, Some(Route::HomePage));
    let admin = ("Admin"@, Some(Route::AdminDashboard));
    match route {
        Route::HomePage => seq![],
        Route::PostDetail { slug } => seq![home, (slug_label(slug@), None)],
        Route::CategoryFeed { slug } => seq![home, ("Categories"@, None), (slug_label(slug@), None)],
        Route::TagFeed { slug } => seq![home, ("Tags"@, None), (slug_label(slug@), None)],
        Route::AuthorProfile { slug } => seq![home, ("Authors"@, None), (slug_label(slug@), None)],
        Route::Archive => seq![home, ("Archive"@, None)],
        Route::SearchResults { q } => if q@.len() > 0 {
            seq![home, ("Search Results"@, None)]
        } else {
            seq![home, ("Search"@, None)]
        },
        Route::Subscribe => seq![home, ("Subscribe"@, None)],
        Route::ConfirmSubscription { .. } => seq![],
        Route::AdminDashboard => seq![("Admin"@, None)],
        Route::AdminPostList => seq![admin, ("Posts"@, None)],
        Route::AdminPostNew => seq![
            admin,
            ("Posts"@, Some(Route::AdminPostList)),
            ("New Post"@, None),
        ],
        Route::AdminPostEdit { .. } => seq![
            admin,
            ("Posts"@, Some(Route::AdminPostList)),
            ("Edit Post"@, None),
        ],
        Route::AdminMedia => seq![admin, ("Media"@, None)],
        Route::AdminComments => seq![admin, ("Comments"@, None)],
        Route::AdminUsers => seq![admin, ("Users"@, None)],
        Route::AdminSettings => seq![admin, ("Settings"@, None)],
        Route::AdminAppearance => seq![admin, ("Appearance"@, None)],
        Route::AdminTaxonomy => seq![admin, ("Taxonomy"@, None)],
        Route::AdminAnalytics => seq![admin, ("Analytics"@, None)],
        Route::AccountPage => seq![home, ("Account"@, None)],
        Route::LoginPage => seq![home, ("Login"@, None)],
        Route::RegisterPage => seq![home, ("Register"@, None)],
        Route::ForgotPasswordPage => seq![home, ("Forgot Password"@, None)],
        Route::ResetPasswordPage { .. } => seq![],
        Route::VerifyEmailPage { .. } => seq![],
        Route::ServerError => seq![],
        Route::NotFound { .. } => seq![],
    }
}

/// Every trail ends at the current page, which is not a link; a trail of
/// more than one step starts at a link to Home or Admin.
pub proof fn law_crumbs_end_at_current_page(route: Route)
    ensures
        crumbs_of(route).len() > 0 ==> crumbs_of(route).last().1 is None,
        crumbs_of(route).len() > 1 ==> (crumbs_of(route)[0].1 == Some(Route::HomePage) || crumbs_of(
            route,
        )[0].1 == Some(Route::AdminDashboard)),
{
}

/// A feed's trail is a link to Home, then the feed's section, unlinked and
/// named for the kind of feed ("Categories" for a category, "Tags" for a tag,
/// "Authors" for an author), then the page itself, titled from its slug. Feeds
/// of different kinds never share a trail, whatever their slugs.
pub proof fn law_feed_trails(a: String, b: String)
    ensures
        crumbs_of(Route::CategoryFeed { slug: a }) == seq![
            ("Home"@, Some(Route::HomePage)),
            ("Categories"@, None::<Route>),
            (slug_label(a@), None::<Route>),
        ],
        crumbs_of(Route::TagFeed { slug: a }) == seq![
            ("Home"@, Some(Route::HomePage)),
            ("Tags"@, None::<Route>),
            (slug_label(a@), None::<Route>),
        ],
        crumbs_of(Route::AuthorProfile { slug: a }) == seq![
            ("Home"@, Some(Route::HomePage)),
            ("Authors"@, None::<Route>),
            (slug_label(a@), None::<Route>),
        ],
        crumbs_of(Route::CategoryFeed { slug: a }) != crumbs_of(Route::TagFeed { slug: b }),
        crumbs_of(Route::CategoryFeed { slug: a }) != crumbs_of(Route::AuthorProfile { slug: b }),
        crumbs_of(Route::TagFeed { slug: a }) != crumbs_of(Route::AuthorProfile { slug: b }),
{
    reveal_strlit("Categories");
    reveal_strlit("Tags");
    reveal_strlit("Authors");
    let c = crumbs_of(Route::CategoryFeed { slug: a });
    let t = crumbs_of(Route::TagFeed { slug: b });
    let u = crumbs_of(Route::AuthorProfile { slug: b });
    let t2 = crumbs_of(Route::TagFeed { slug: a });
    assert(c[1].0.len() != t[1].0.len());
    assert(c[1].0.len() != u[1].0.len());
    assert(t2[1].0.len() != u[1].0.len());
}

/// A trail matches its spec step by step.
pub open spec fn crumbs_match(items: Seq<BreadcrumbItem>, spec: Seq<(Seq<char>, Option<Route>)>) -> bool {
    &&& items.len() == spec.len()
    &&& forall|i: int|
        0 <= i < items.len() ==> (#[trigger] items[i]).label@ == spec[i].0 && items[i].route
            == spec[i].1
}

fn crumb(label: &str, route: Option<Route>) -> (c: BreadcrumbItem)
    ensures
        c.label@ == label@,
        c.route == route,
{
    BreadcrumbItem { label: string_from(label), route }
}

fn home() -> (c: BreadcrumbItem)
    ensures
        c.label@ == "Home"@,
        c.route == Some(Route::HomePage),
{
    crumb("Home", Some(Route::HomePage))
}

fn admin() -> (c: BreadcrumbItem)
    ensures
        c.label@ == "Admin"@,
        c.route == Some(Route::AdminDashboard),
{
    crumb("Admin", Some(Route::AdminDashboard))
}

fn here(label: &str) -> (c: BreadcrumbItem)
    ensures
        c.label@ == label@,
        c.route is None,
{
    crumb(label, None)
}

fn trail2(a: BreadcrumbItem, b: BreadcrumbItem) -> (v: Vec<BreadcrumbItem>)
    ensures
        v@ == seq![a, b],
{
    let mut v = Vec::new();
    v.push(a);
    v.push(b);
    assert(v@ =~= seq![a, b]);
    v
}

fn trail3(a: BreadcrumbItem, b: BreadcrumbItem, c: BreadcrumbItem) -> (v: Vec<BreadcrumbItem>)
    ensures
        v@ == seq![a, b, c],
{
    let mut v = Vec::new();
    v.push(a);
    v.push(b);
    v.push(c);
    assert(v@ =~= seq![a, b, c]);
    v
}

/// The breadcrumb trail of a page: home (or admin) first, the current page last.
pub fn route_to_crumbs(route: &Route) -> (crumbs: Vec<BreadcrumbItem>)
    ensures
        crumbs_match(crumbs@, crumbs_of(*route)),
{
    let v = match route {
        Route::HomePage => Vec::new(),
        Route::PostDetail { slug } => trail2(
            home(),
            BreadcrumbItem { label: slug_to_label(slug.as_str()), route: None },
        ),
        Route::CategoryFeed { slug } => trail3(
            home(),
            here("Categories"),
            BreadcrumbItem { label: slug_to_label(slug.as_str()), route: None },
        ),
        Route::TagFeed { slug } => trail3(
            home(),
            here("Tags"),
            BreadcrumbItem { label: slug_to_label(slug.as_str()), route: None },
        ),
        Route::AuthorProfile { slug } => trail3(
            home(),
            here("Authors"),
            BreadcrumbItem { label: slug_to_label(slug.as_str()), route: None },
        ),
        Route::Archive => trail2(home(), here("Archive")),
        Route::SearchResults { q } => {
            if chars_of(q.as_str()).len() > 0 {
                trail2(home(), here("Search Results"))
            } else {
                trail2(home(), here("Search"))
            }
        },
        Route::Subscribe => trail2(home(), here("Subscribe")),
        Route::ConfirmSubscription { .. } => Vec::new(),
        Route::AdminDashboard => {
            let mut v = Vec::new();
            v.push(here("Admin"));
            v
        },
        Route::AdminPostList => trail2(admin(), here("Posts")),
        Route::AdminPostNew => trail3(
            admin(),
            crumb("Posts", Some(Route::AdminPostList)),
            here("New Post"),
        ),
        Route::AdminPostEdit { .. } => trail3(
            admin(),
            crumb("Posts", Some(Route::AdminPostList)),
            here("Edit Post"),
        ),
        Route::AdminMedia => trail2(admin(), here("Media")),
        Route::AdminComments => trail2(admin(), here("Comments")),
        Route::AdminUsers => trail2(admin(), here("Users")),
        Route::AdminSettings => trail2(admin(), here("Settings")),
        Route::AdminAppearance => trail2(admin(), here("Appearance")),
        Route::AdminTaxonomy => trail2(admin(), here("Taxonomy")),
        Route::AdminAnalytics => trail2(admin(), here("Analytics")),
        Route::AccountPage => trail2(home(), here("Account")),
        Route::LoginPage => trail2(home(), here("Login")),
        Route::RegisterPage => trail2(home(), here("Register")),
        Route::ForgotPasswordPage => trail2(home(), here("Forgot Password")),
        Route::ResetPasswordPage { .. } => Vec::new(),
        Route::VerifyEmailPage { .. } => Vec::new(),
        Route::ServerError => Vec::new(),
        Route::NotFound { .. } => Vec::new(),
    };
    v
}

// ------------------------------------------------------------------ admin navigation

/// Whether `held` holds the token `t`.
pub open spec fn holds(held: Seq<String>, t: Seq<char>) -> bool {
    exists|i: int| 0 <= i < held.len() && (#[trigger] held[i])@ == t
}

/// The admin section a user lands on: the first sidebar section, in nav
/// order, whose gating token they hold.
pub open spec fn landing_of(held: Seq<String>) -> Option<Route> {
    if holds(held, ANALYTICS_READ@) {
        Some(Route::AdminDashboard)
    } else if holds(held, POSTS_WRITE@) {
        Some(Route::AdminPostList)
    } else if holds(held, MEDIA_UPLOAD@) {
        Some(Route::AdminMedia)
    } else if holds(held, COMMENTS_MODERATE@) {
        Some(Route::AdminComments)
    } else if holds(held, USERS_MANAGE@) {
        Some(Route::AdminUsers)
    } else if holds(held, SETTINGS_WRITE@) {
        Some(Route::AdminSettings)
    } else {
        None
    }
}

/// The token that gates an admin section's sidebar link and server calls.
pub open spec fn section_token(r: Route) -> Option<Seq<char>> {
    match r {
        Route::AdminDashboard | Route::AdminAnalytics => Some(ANALYTICS_READ@),
        Route::AdminPostList | Route::AdminPostNew | Route::AdminPostEdit { .. } => Some(POSTS_WRITE@),
        Route::AdminMedia => Some(MEDIA_UPLOAD@),
        Route::AdminComments => Some(COMMENTS_MODERATE@),
        Route::AdminUsers => Some(USERS_MANAGE@),
        Route::AdminSettings | Route::AdminAppearance | Route::AdminTaxonomy => Some(SETTINGS_WRITE@),
        _ => None,
    }
}

/// A user is only ever sent to an admin section whose token they hold, and
/// is sent nowhere exactly when they hold none of the sidebar's tokens.
pub proof fn law_landing_is_accessible(held: Seq<String>)
    ensures
        landing_of(held) matches Some(r) ==> (section_token(r) matches Some(t) && holds(held, t)),
        landing_of(held) is None <==> !(holds(held, ANALYTICS_READ@) || holds(held, POSTS_WRITE@)
            || holds(held, MEDIA_UPLOAD@) || holds(held, COMMENTS_MODERATE@) || holds(
            held,
            USERS_MANAGE@,
        ) || holds(held, SETTINGS_WRITE@)),
{
}

/// The routes of the admin sidebar, in order.
pub open spec fn nav_routes() -> Seq<Route> {
    seq![
        Route::AdminDashboard,
        Route::AdminPostList,
        Route::AdminPostNew,
        Route::AdminMedia,
        Route::AdminComments,
        Route::AdminUsers,
        Route::AdminSettings,
        Route::AdminAppearance,
        Route::AdminTaxonomy,
        Route::AdminAnalytics,
    ]
}

/// The labels of the admin sidebar, in order.
pub open spec fn nav_labels() -> Seq<Seq<char>> {
    seq![
        "Dashboard"@,
        "Posts"@,
        "New post"@,
        "Media"@,
        "Comments"@,
        "Users"@,
        "Settings"@,
        "Appearance"@,
        "Taxonomy"@,
        "Analytics"@,
    ]
}

/// Each admin section's trail starts at a link to the dashboard and ends, as
/// the current page, with the section's sidebar label (the dashboard's own
/// trail is the single step "Admin"; the new-post form's ends "New Post").
pub proof fn law_admin_trails_name_sections()
    ensures
        forall|i: int|
            0 <= i < nav_routes().len() && i != 0 && i != 2 ==> {
                let c = #[trigger] crumbs_of(nav_routes()[i]);
                &&& c.len() >= 2
                &&& c[0] == ("Admin"@, Some(Route::AdminDashboard))
                &&& c.last() == (nav_labels()[i], None::<Route>)
            },
        crumbs_of(Route::AdminDashboard) == seq![("Admin"@, None::<Route>)],
{
    let n = nav_routes();
    assert forall|i: int| 0 <= i < n.len() && i != 0 && i != 2 implies {
        let c = #[trigger] crumbs_of(n[i]);
        &&& c.len() >= 2
        &&& c[0] == ("Admin"@, Some(Route::AdminDashboard))
        &&& c.last() == (nav_labels()[i], None::<Route>)
    } by {
        assert(n[1] == Route::AdminPostList);
        assert(n[3] == Route::AdminMedia);
        assert(n[4] == Route::AdminComments);
        assert(n[5] == Route::AdminUsers);
        assert(n[6] == Route::AdminSettings);
        assert(n[7] == Route::AdminAppearance);
        assert(n[8] == Route::AdminTaxonomy);
        assert(n[9] == Route::AdminAnalytics);
    }
}

/// Whether the user holds the token that gates section `r`.
pub open spec fn section_held(held: Seq<String>, r: Route) -> bool {
    section_token(r) matches Some(t) && holds(held, t)
}

/// "Admin" lands a user on the first sidebar section, in sidebar order, whose
/// gating token they hold, and nowhere when they hold none.
pub proof fn law_landing_is_first_held_section(held: Seq<String>)
    ensures
        landing_of(held) matches Some(r) ==> exists|i: int|
            0 <= i < nav_routes().len() && #[trigger] nav_routes()[i] == r && section_held(held, r) && forall|j: int|
                0 <= j < i ==> !section_held(held, #[trigger] nav_routes()[j]),
        landing_of(held) is None ==> forall|i: int|
            0 <= i < nav_routes().len() ==> !section_held(held, #[trigger] nav_routes()[i]),
{
    let n = nav_routes();
    assert(n[0] == Route::AdminDashboard);
    assert(n[1] == Route::AdminPostList);
    assert(n[2] == Route::AdminPostNew);
    assert(n[3] == Route::AdminMedia);
    assert(n[4] == Route::AdminComments);
    assert(n[5] == Route::AdminUsers);
    assert(n[6] == Route::AdminSettings);
    assert(n[7] == Route::AdminAppearance);
    assert(n[8] == Route::AdminTaxonomy);
    assert(n[9] == Route::AdminAnalytics);
    match landing_of(held) {
        Some(r) => {
            let i: int = if r == Route::AdminDashboard {
                0
            } else if r == Route::AdminPostList {
                1
            } else if r == Route::AdminMedia {
                3
            } else if r == Route::AdminComments {
                4
            } else if r == Route::AdminUsers {
                5
            } else {
                6
            };
            assert(n[i] == r);
            assert forall|j: int| 0 <= j < i implies !section_held(held, #[trigger] n[j]) by {}
        },
        None => {
            assert forall|i: int| 0 <= i < n.len() implies !section_held(held, #[trigger] n[i]) by {}
        },
    }
}

/// The analytics pages never bounce a user to an analytics page.
pub proof fn law_redirect_leaves_analytics(held: Seq<String>)
    ensures
        !holds(held, ANALYTICS_READ@) ==> landing_of(held) != Some(Route::AdminDashboard)
            && landing_of(held) != Some(Route::AdminAnalytics),
{
}

/// Whether `held` holds the token `t`.
pub fn has_token(held: &Vec<String>, t: &str) -> (b: bool)
    ensures
        b == holds(held@, t@),
{
    let mut i: usize = 0;
    while i < held.len()
        invariant
            0 <= i <= held.len(),
            forall|j: int| 0 <= j < i ==> (#[trigger] held@[j])@ != t@,
        decreases held.len() - i,
    {
        if str_eq(held[i].as_str(), t) {
            return true;
        }
        i += 1;
    }
    false
}

/// The admin section a user should land on, given the permission tokens they
/// hold; `None` when they hold no admin token at all.
pub fn admin_landing(held: &Vec<String>) -> (r: Option<Route>)
    ensures
        r == landing_of(held@),
{
    if has_token(held, ANALYTICS_READ) {
        Some(Route::AdminDashboard)
    } else if has_token(held, POSTS_WRITE) {
        Some(Route::AdminPostList)
    } else if has_token(held, MEDIA_UPLOAD) {
        Some(Route::AdminMedia)
    } else if has_token(held, COMMENTS_MODERATE) {
        Some(Route::AdminComments)
    } else if has_token(held, USERS_MANAGE) {
        Some(Route::AdminUsers)
    } else if has_token(held, SETTINGS_WRITE) {
        Some(Route::AdminSettings)
    } else {
        None
    }
}

/// Where an analytics page bounces a user without `ANALYTICS_READ`: their
/// landing section, once permissions have loaded; `None` otherwise.
pub fn analytics_redirect(loading: bool, held: &Vec<String>) -> (r: Option<Route>)
    ensures
        r == (if !loading && !holds(held@, ANALYTICS_READ@) {
            landing_of(held@)
        } else {
            None
        }),
{
    if !loading && !has_token(held, ANALYTICS_READ) {
        admin_landing(held)
    } else {
        None
    }
}

/// Path segments joined with `/`.
pub open spec fn joined_path(segs: Seq<Seq<char>>) -> Seq<char>
    decreases segs.len(),
{
    if segs.len() == 0 {
        seq![]
    } else if segs.len() == 1 {
        segs[0]
    } else {
        joined_path(segs.drop_last()) + seq!['/'] + segs.last()
    }
}

/// The path a 404 page reports: the unmatched segments joined with `/`.
pub fn missing_path(segments: &Vec<String>) -> (p: String)
    ensures
        p@ == joined_path(segments@.map_values(|s: String| s@)),
{
    let ghost views = segments@.map_values(|s: String| s@);
    let mut p = String::new();
    let mut i: usize = 0;
    while i < segments.len()
        invariant
            0 <= i <= segments@.len(),
            views == segments@.map_values(|s: String| s@),
            p@ == joined_path(views.take(i as int)),
        decreases segments.len() - i,
    {
        proof {
            let t = views.take(i + 1);
            assert(t.drop_last() =~= views.take(i as int));
            assert(t.last() == segments@[i as int]@);
            if i == 0 {
                assert(t.len() == 1);
            }
        }
        if i > 0 {
            push_char(&mut p, '/');
        }
        push_str(&mut p, segments[i].as_str());
        proof {
            assert(p@ =~= joined_path(views.take(i + 1)));
        }
        i += 1;
    }
    assert(views.take(views.len() as int) =~= views);
    p
}

/// Where the header's "Admin" link goes: the user's landing section, for a
/// signed-in user who has one.
pub fn header_admin_route(authed: bool, held: &Vec<String>) -> (r: Option<Route>)
    ensures
        r == (if authed {
            landing_of(held@)
        } else {
            None
        }),
{
    if authed {
        admin_landing(held)
    } else {
        None
    }
}

/// One entry of the admin sidebar.
pub struct NavEntry {
    pub label: &'static str,
    /// The `active` key that highlights the entry.
    pub key: &'static str,
    pub route: Route,
    /// The token the entry is shown to.
    pub token: &'static str,
}

/// The admin sidebar, in order; each entry is gated by the token its page's
/// server calls require.
pub fn admin_nav() -> (v: Vec<NavEntry>)
    ensures
        v@.len() == 10,
        forall|i: int| 0 <= i < v@.len() ==> (#[trigger] v@[i]).route == nav_routes()[i],
        forall|i: int| 0 <= i < v@.len() ==> (#[trigger] v@[i]).label@ == nav_labels()[i],
        forall|i: int| 0 <= i < v@.len() ==> section_token((#[trigger] v@[i]).route) == Some(v@[i].token@),
        v@[0].route == Route::AdminDashboard && v@[0].key@ == "dashboard"@ && v@[0].label@ == "Dashboard"@,
        v@[1].route == Route::AdminPostList && v@[1].key@ == "posts"@ && v@[1].label@ == "Posts"@,
        v@[2].route == Route::AdminPostNew && v@[2].key@ == "new"@ && v@[2].label@ == "New post"@,
        v@[3].route == Route::AdminMedia && v@[3].key@ == "media"@ && v@[3].label@ == "Media"@,
        v@[4].route == Route::AdminComments && v@[4].key@ == "comments"@ && v@[4].label@ == "Comments"@,
        v@[5].route == Route::AdminUsers && v@[5].key@ == "users"@ && v@[5].label@ == "Users"@,
        v@[6].route == Route::AdminSettings && v@[6].key@ == "settings"@ && v@[6].label@ == "Settings"@,
        v@[7].route == Route::AdminAppearance && v@[7].key@ == "appearance"@ && v@[7].label@ == "Appearance"@,
        v@[8].route == Route::AdminTaxonomy && v@[8].key@ == "taxonomy"@ && v@[8].label@ == "Taxonomy"@,
        v@[9].route == Route::AdminAnalytics && v@[9].key@ == "analytics"@ && v@[9].label@ == "Analytics"@,
{
    let mut v: Vec<NavEntry> = Vec::new();
    v.push(NavEntry { label: "Dashboard", key: "dashboard", route: Route::AdminDashboard, token: ANALYTICS_READ });
    v.push(NavEntry { label: "Posts", key: "posts", route: Route::AdminPostList, token: POSTS_WRITE });
    v.push(NavEntry { label: "New post", key: "new", route: Route::AdminPostNew, token: POSTS_WRITE });
    v.push(NavEntry { label: "Media", key: "media", route: Route::AdminMedia, token: MEDIA_UPLOAD });
    v.push(NavEntry { label: "Comments", key: "comments", route: Route::AdminComments, token: COMMENTS_MODERATE });
    v.push(NavEntry { label: "Users", key: "users", route: Route::AdminUsers, token: USERS_MANAGE });
    v.push(NavEntry { label: "Settings", key: "settings", route: Route::AdminSettings, token: SETTINGS_WRITE });
    v.push(NavEntry { label: "Appearance", key: "appearance", route: Route::AdminAppearance, token: SETTINGS_WRITE });
    v.push(NavEntry { label: "Taxonomy", key: "taxonomy", route: Route::AdminTaxonomy, token: SETTINGS_WRITE });
    v.push(NavEntry { label: "Analytics", key: "analytics", route: Route::AdminAnalytics, token: ANALYTICS_READ });
    v
}

/// Sidebar link class: highlighted for the active section.
pub fn nav_class(active: &str, name: &str) -> (c: &'static str)
    ensures
        c@ == (if active@ == name@ {
            "rounded-lg bg-white/10 px-3 py-1.5 font-medium"@
        } else {
            "rounded-lg px-3 py-1.5 text-white/60 hover:bg-white/5 hover:text-white"@
        }),
{
    if str_eq(active, name) {
        "rounded-lg bg-white/10 px-3 py-1.5 font-medium"
    } else {
        "rounded-lg px-3 py-1.5 text-white/60 hover:bg-white/5 hover:text-white"
    }
}

} // verus!
