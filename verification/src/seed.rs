//! The demo data an empty blog is seeded with: three users, four categories,
//! ten tags, twenty posts, thirty comments and five subscribers. This module
//! says what each row holds; writing the rows is the application's part.
use vstd::prelude::*;

use crate::auth_tokens::{
    ANALYTICS_READ, COMMENTS_MODERATE, MEDIA_UPLOAD, POSTS_WRITE, POSTS_WRITE_ANY, SETTINGS_WRITE,
    USERS_MANAGE,
};
use crate::markdown::{render_markdown, spec_render_markdown};
use crate::text::{chars_of, dec, is_blank, push_str, string_from, trim, usize_digits};

verus! {

/// Number of demo posts.
pub const SEED_POSTS: usize = 20;

/// Number of demo comments.
pub const SEED_COMMENTS: usize = 30;

/// Number of demo subscribers.
pub const SEED_SUBSCRIBERS: usize = 5;

/// The password of the demo author accounts.
pub const SEED_PASSWORD: &'static str = "password";

/// The admin account's email.
pub const ADMIN_EMAIL: &'static str = "admin@example.com";

/// The environment variable through which an operator sets the seeded admin's
/// password.
pub const ADMIN_PASSWORD_VAR: &'static str = "DX_SEED_ADMIN_PASSWORD";

/// A lowercase hexadecimal digit.
pub open spec fn is_hex_lower(c: char) -> bool {
    '0' <= c <= '9' || 'a' <= c <= 'f'
}

/// Thirty-two lowercase hexadecimal digits: a token minted by `RANDOM_HEX_16`.
pub open spec fn is_hex_token(s: Seq<char>) -> bool {
    s.len() == 32 && forall|i: int| 0 <= i < s.len() ==> is_hex_lower(#[trigger] s[i])
}

/// The characters of an optional string slice.
pub open spec fn opt_chars(o: Option<&str>) -> Option<Seq<char>> {
    match o {
        Some(c) => Some(c@),
        None => None,
    }
}

/// The seeded admin's password: the operator's, when set and not blank;
/// otherwise the random token, when it is one; otherwise none, and seeding
/// does not create the admin.
pub open spec fn admin_password_of(configured: Option<Seq<char>>, random: Seq<char>) -> Option<Seq<char>> {
    if configured is Some && trim(configured->0).len() > 0 {
        configured
    } else if is_hex_token(random) {
        Some(random)
    } else {
        None
    }
}

/// Picks the seeded admin's password from the operator's setting and a fresh
/// random token (see `admin_password_of`).
pub fn admin_seed_password(configured: Option<&str>, random_hex: &str) -> (p: Option<String>)
    ensures
        match p {
            Some(s) => admin_password_of(opt_chars(configured), random_hex@) == Some(s@),
            None => admin_password_of(opt_chars(configured), random_hex@) is None,
        },
{
    if let Some(c) = configured {
        if !is_blank(c) {
            return Some(string_from(c));
        }
    }
    let ghost oc = opt_chars(configured);
    assert(!(oc is Some && trim(oc->0).len() > 0));
    let v = chars_of(random_hex);
    if v.len() != 32 {
        return None;
    }
    let mut i: usize = 0;
    while i < v.len()
        invariant
            0 <= i <= v.len(),
            v@ == random_hex@,
            forall|j: int| 0 <= j < i ==> is_hex_lower(#[trigger] v@[j]),
            v.len() == 32,
            !(oc is Some && trim(oc->0).len() > 0),
            oc == opt_chars(configured),
        decreases v.len() - i,
    {
        let c = v[i];
        if !(('0' <= c && c <= '9') || ('a' <= c && c <= 'f')) {
            assert(!is_hex_lower(random_hex@[i as int]));
            return None;
        }
        i += 1;
    }
    Some(string_from(random_hex))
}

/// Unless an operator chose it, the seeded admin never gets the demo
/// accounts' fixed password.
pub proof fn law_admin_password_not_fixed(configured: Option<Seq<char>>, random: Seq<char>)
    requires
        !(configured is Some && trim(configured->0).len() > 0),
    ensures
        admin_password_of(configured, random) != Some(SEED_PASSWORD@),
{
    reveal_strlit("password");
    if admin_password_of(configured, random) == Some(SEED_PASSWORD@) {
        assert(random == SEED_PASSWORD@);
        assert(is_hex_token(random));
        assert(!is_hex_lower(random[0]));
    }
}

/// The tokens the admin is granted: every capability.
pub fn admin_tokens() -> (v: Vec<&'static str>)
    ensures
        v@ == seq![POSTS_WRITE, POSTS_WRITE_ANY, MEDIA_UPLOAD, COMMENTS_MODERATE, USERS_MANAGE, SETTINGS_WRITE, ANALYTICS_READ],
{
    let v = vec![POSTS_WRITE, POSTS_WRITE_ANY, MEDIA_UPLOAD, COMMENTS_MODERATE, USERS_MANAGE, SETTINGS_WRITE, ANALYTICS_READ];
    v
}

/// The tokens each author is granted: writing posts and uploading media.
pub fn author_tokens() -> (v: Vec<&'static str>)
    ensures
        v@ == seq![POSTS_WRITE, MEDIA_UPLOAD],
{
    let v = vec![POSTS_WRITE, MEDIA_UPLOAD];
    v
}

/// The two author accounts' emails.
pub fn author_emails() -> (v: Vec<&'static str>)
    ensures
        v@.len() == 2,
        v@[0]@ == "ada@example.com"@,
        v@[1]@ == "linus@example.com"@,
{
    let v = vec!["ada@example.com", "linus@example.com"];
    v
}

/// A demo category: `(name, slug, description)`.
pub fn seed_category(i: usize) -> (c: (&'static str, &'static str, &'static str))
    requires
        i < 4,
    ensures
        i == 0 ==> c.0@ == "Engineering"@ && c.1@ == "engineering"@ && c.2@ == "Posts about building software."@,
        i == 1 ==> c.0@ == "Design"@ && c.1@ == "design"@ && c.2@ == "Visual and interaction design."@,
        i == 2 ==> c.0@ == "Product"@ && c.1@ == "product"@ && c.2@ == "Shipping and strategy."@,
        i == 3 ==> c.0@ == "Culture"@ && c.1@ == "culture"@ && c.2@ == "Team and ways of working."@,
{
    if i == 0 {
        ("Engineering", "engineering", "Posts about building software.")
    } else if i == 1 {
        ("Design", "design", "Visual and interaction design.")
    } else if i == 2 {
        ("Product", "product", "Shipping and strategy.")
    } else {
        ("Culture", "culture", "Team and ways of working.")
    }
}

/// The demo tags; each is its own slug.
pub open spec fn seed_tag_of(i: nat) -> Seq<char> {
    if i == 0 {
        "rust"@
    } else if i == 1 {
        "dioxus"@
    } else if i == 2 {
        "web"@
    } else if i == 3 {
        "sqlite"@
    } else if i == 4 {
        "ux"@
    } else if i == 5 {
        "performance"@
    } else if i == 6 {
        "async"@
    } else if i == 7 {
        "tooling"@
    } else if i == 8 {
        "career"@
    } else {
        "open-source"@
    }
}

/// The `i`-th demo tag.
pub fn seed_tag(i: usize) -> (t: &'static str)
    requires
        i < 10,
    ensures
        t@ == seed_tag_of(i as nat),
{
    if i == 0 {
        "rust"
    } else if i == 1 {
        "dioxus"
    } else if i == 2 {
        "web"
    } else if i == 3 {
        "sqlite"
    } else if i == 4 {
        "ux"
    } else if i == 5 {
        "performance"
    } else if i == 6 {
        "async"
    } else if i == 7 {
        "tooling"
    } else if i == 8 {
        "career"
    } else {
        "open-source"
    }
}

/// The closing words of the demo post titles.
pub open spec fn sample_title_of(i: nat) -> Seq<char> {
    if i == 0 {
        "Getting Started"@
    } else if i == 1 {
        "Lessons Learned"@
    } else if i == 2 {
        "A Deep Dive"@
    } else if i == 3 {
        "Patterns That Scale"@
    } else {
        "Notes from the Field"@
    }
}

fn sample_title(i: usize) -> (t: &'static str)
    requires
        i < 5,
    ensures
        t@ == sample_title_of(i as nat),
{
    if i == 0 {
        "Getting Started"
    } else if i == 1 {
        "Lessons Learned"
    } else if i == 2 {
        "A Deep Dive"
    } else if i == 3 {
        "Patterns That Scale"
    } else {
        "Notes from the Field"
    }
}

/// One demo post.
pub struct SeedPost {
    pub title: String,
    pub slug: String,
    pub body_md: String,
    pub body_html: String,
    pub excerpt: String,
    /// Index into the author pool (the two authors, then the admin).
    pub author: usize,
    /// Index into the demo categories.
    pub category: usize,
    pub status: &'static str,
    /// The `datetime('now', ?)` offset of its publication, spreading the dates.
    pub published_offset: String,
    /// Indices into the demo tags.
    pub tags: Vec<usize>,
}

/// The Markdown body of the `n`-th demo post, about `topic`.
pub open spec fn seed_body_of(n: nat, topic: Seq<char>) -> Seq<char> {
    "This is **demo** post number "@ + dec(n) + ". It covers _"@ + topic
        + "_ with a short example.\n\n## A subheading\n\n```rust\nfn main() { println!(\"hello from post "@
        + dec(n)
        + "\"); }\n```\n\n- point one\n- point two\n- point three\n\n> A pull quote to make the layout sing."@
}

/// The tags of the `i`-th demo post: one to three, walking the list from `i`.
pub open spec fn seed_post_tags_of(i: nat) -> Seq<usize> {
    Seq::new((1 + i % 3) as nat, |k: int| ((i + k) % 10) as usize)
}

/// The `i`-th demo post (counting from 0). About a third are drafts; authors,
/// categories, titles and topics rotate; post `i` is published `20 - i` days
/// ago.
pub fn seed_post(i: usize) -> (p: SeedPost)
    requires
        i < SEED_POSTS,
    ensures
        p.title@ == "Demo Post "@ + dec((i + 1) as nat) + ": "@ + sample_title_of((i % 5) as nat),
        p.slug@ == "demo-post-"@ + dec((i + 1) as nat),
        p.body_md@ == seed_body_of((i + 1) as nat, seed_tag_of((i % 10) as nat)),
        p.body_html@ == spec_render_markdown(p.body_md@),
        p.excerpt@ == "A short demo article ("@ + dec((i + 1) as nat) + ") about "@ + seed_tag_of(
            (i % 10) as nat,
        ) + seq!['.'],
        p.author == i % 3,
        p.category == i % 4,
        p.status@ == (if i % 3 == 0 { "draft"@ } else { "published"@ }),
        p.published_offset@ == seq!['-'] + dec((20 - i) as nat) + " days"@,
        p.tags@ == seed_post_tags_of(i as nat),
{
    let n = usize_digits(i + 1);
    let topic = seed_tag(i % 10);

    let mut title = string_from("Demo Post ");
    push_str(&mut title, n.as_str());
    push_str(&mut title, ": ");
    push_str(&mut title, sample_title(i % 5));

    let mut slug = string_from("demo-post-");
    push_str(&mut slug, n.as_str());

    let mut body_md = string_from("This is **demo** post number ");
    push_str(&mut body_md, n.as_str());
    push_str(&mut body_md, ". It covers _");
    push_str(&mut body_md, topic);
    push_str(
        &mut body_md,
        "_ with a short example.\n\n## A subheading\n\n```rust\nfn main() { println!(\"hello from post ",
    );
    push_str(&mut body_md, n.as_str());
    push_str(
        &mut body_md,
        "\"); }\n```\n\n- point one\n- point two\n- point three\n\n> A pull quote to make the layout sing.",
    );
    let body_html = render_markdown(body_md.as_str());

    let mut excerpt = string_from("A short demo article (");
    push_str(&mut excerpt, n.as_str());
    push_str(&mut excerpt, ") about ");
    push_str(&mut excerpt, topic);
    push_str(&mut excerpt, ".");
    proof {
        reveal_strlit(".");
        assert(excerpt@ =~= "A short demo article ("@ + dec((i + 1) as nat) + ") about "@ + seed_tag_of(
            (i % 10) as nat,
        ) + seq!['.']);
    }

    let mut published_offset = string_from("-");
    let d = usize_digits(20 - i);
    push_str(&mut published_offset, d.as_str());
    push_str(&mut published_offset, " days");
    proof {
        reveal_strlit("-");
        assert(published_offset@ =~= seq!['-'] + dec((20 - i) as nat) + " days"@);
    }

    let mut tags: Vec<usize> = Vec::new();
    let count: usize = 1 + i % 3;
    let mut k: usize = 0;
    while k < count
        invariant
            i < SEED_POSTS,
            count == 1 + i % 3,
            0 <= k <= count,
            tags@ == seed_post_tags_of(i as nat).take(k as int),
        decreases count - k,
    {
        tags.push((i + k) % 10);
        assert(tags@ =~= seed_post_tags_of(i as nat).take(k + 1));
        k += 1;
    }
    assert(tags@ =~= seed_post_tags_of(i as nat));

    SeedPost {
        title,
        slug,
        body_md,
        body_html,
        excerpt,
        author: i % 3,
        category: i % 4,
        status: if i % 3 == 0 {
            "draft"
        } else {
            "published"
        },
        published_offset,
        tags,
    }
}

/// Who wrote a demo comment.
pub enum SeedCommenter {
    /// A guest, with a name and an email.
    Guest { name: String, email: String },
    /// An account, by index into the author pool.
    Account(usize),
}

/// One demo comment.
pub struct SeedComment {
    /// Index into the demo posts.
    pub post: usize,
    pub commenter: SeedCommenter,
    pub body: String,
    pub status: &'static str,
}

/// The `i`-th demo comment (counting from 0): every other one is approved,
/// every third is a guest's, and they cycle over the posts.
pub fn seed_comment(i: usize) -> (c: SeedComment)
    requires
        i < SEED_COMMENTS,
    ensures
        c.post == i % SEED_POSTS,
        c.status@ == (if i % 2 == 0 { "approved"@ } else { "pending"@ }),
        i % 3 == 0 ==> (c.commenter matches SeedCommenter::Guest { name, email } && name@ == "Guest "@ + dec(
            i as nat,
        ) && email@ == "guest"@ + dec(i as nat) + "@example.com"@),
        i % 3 == 0 ==> c.body@ == "Great write-up — comment #"@ + dec(i as nat) + "!"@,
        i % 3 != 0 ==> c.commenter == SeedCommenter::Account(i % 3),
        i % 3 != 0 ==> c.body@ == "Thanks for sharing — comment #"@ + dec(i as nat) + "."@,
{
    let n = usize_digits(i);
    let status: &'static str = if i % 2 == 0 {
        "approved"
    } else {
        "pending"
    };
    if i % 3 == 0 {
        let mut name = string_from("Guest ");
        push_str(&mut name, n.as_str());
        let mut email = string_from("guest");
        push_str(&mut email, n.as_str());
        push_str(&mut email, "@example.com");
        let mut body = string_from("Great write-up — comment #");
        push_str(&mut body, n.as_str());
        push_str(&mut body, "!");
        SeedComment { post: i % SEED_POSTS, commenter: SeedCommenter::Guest { name, email }, body, status }
    } else {
        let mut body = string_from("Thanks for sharing — comment #");
        push_str(&mut body, n.as_str());
        push_str(&mut body, ".");
        SeedComment { post: i % SEED_POSTS, commenter: SeedCommenter::Account(i % 3), body, status }
    }
}

/// The `i`-th demo subscriber (counting from 1): its email, and whether it
/// has confirmed (the even ones).
pub fn seed_subscriber(i: usize) -> (s: (String, bool))
    requires
        1 <= i <= SEED_SUBSCRIBERS,
    ensures
        s.0@ == "subscriber"@ + dec(i as nat) + "@example.com"@,
        s.1 == (i % 2 == 0),
{
    let mut email = string_from("subscriber");
    let d = usize_digits(i);
    push_str(&mut email, d.as_str());
    push_str(&mut email, "@example.com");
    (email, i % 2 == 0)
}

} // verus!
