//! WordPress user enumeration: users listed by the REST API, author
//! archives (`?author=N`, by redirect slug or by links in the page) and post
//! authors, de-duplicated by `id:slug` and sorted by id. The caller makes
//! the requests and decodes the JSON answers into plain fields.

use vstd::prelude::*;

use crate::text::ov;

use crate::text::{
    chars_of, contains, decimal, decimal_chars, lit, parse_unsigned, parse_unsigned_spec,
    push_all, push_str, str_eq, string_of, strs_view,
};
use crate::wp_html::{author_in_body_spec, author_slug_spec, extract_author_from_body, extract_author_slug};

verus! {

pub struct WpUser {
    pub id: Option<u64>,
    pub slug: Option<String>,
    pub name: Option<String>,
    pub link: Option<String>,
    pub source: String,
}

pub struct WpUsersResponse {
    pub url: String,
    pub users: Vec<WpUser>,
    pub rest_users_enabled: bool,
    pub author_enum_works: bool,
    pub notes: Vec<String>,
    pub error: Option<String>,
}

pub struct UserV {
    pub id: Option<u64>,
    pub slug: Option<Seq<char>>,
    pub name: Option<Seq<char>>,
    pub link: Option<Seq<char>>,
    pub source: Seq<char>,
}

pub open spec fn user_v(u: WpUser) -> UserV {
    UserV { id: u.id, slug: ov(u.slug), name: ov(u.name), link: ov(u.link), source: u.source@ }
}

pub open spec fn users_view(v: Seq<WpUser>) -> Seq<UserV> {
    v.map_values(|u: WpUser| user_v(u))
}

/// Highest author id probed: the `max_id` parameter when it parses as an
/// unsigned number (else 10), clamped to 1..=25.
pub open spec fn max_author_spec(param: Option<Seq<char>>) -> u64 {
    let n: nat = match param {
        Some(s) => match parse_unsigned_spec(s, u64::MAX as nat) {
            Some(x) => x,
            None => 10,
        },
        None => 10,
    };
    if n < 1 {
        1
    } else if n > 25 {
        25
    } else {
        n as u64
    }
}

pub fn max_author(param: Option<&str>) -> (r: u64)
    ensures
        r == max_author_spec(match param {
            Some(s) => Some(s@),
            None => None,
        }),
{
    let n: u64 = match param {
        Some(s) => match parse_unsigned(chars_of(s).as_slice(), u64::MAX) {
            Some(x) => x,
            None => 10,
        },
        None => 10,
    };
    if n < 1 {
        1
    } else if n > 25 {
        25
    } else {
        n
    }
}

/// One user of the REST `/wp/v2/users` answer.
pub struct UserFields {
    pub id: Option<u64>,
    pub slug: Option<String>,
    pub name: Option<String>,
    pub link: Option<String>,
}

/// The REST users request: an error, or a status with the decoded list
/// (present only for a 200 whose body is a JSON array).
pub enum RestUsersProbe {
    Failed { error: String },
    Response { status: u16, users: Option<Vec<UserFields>> },
}

/// One `?author=N` probe that got an answer.
pub struct AuthorProbe {
    pub final_url: String,
    pub status: u16,
    pub body: Option<String>,
}

/// One post of the REST `/wp/v2/posts` answer.
pub struct PostFields {
    pub author: Option<u64>,
    pub embedded_name: Option<String>,
    pub embedded_slug: Option<String>,
    pub embedded_id: Option<u64>,
}

/// Users found so far and the `id:slug` keys already taken.
pub struct UState {
    pub users: Seq<UserV>,
    pub seen: Seq<Seq<char>>,
}

pub open spec fn add_user(s: UState, key: Seq<char>, u: UserV) -> UState {
    if s.seen.contains(key) {
        s
    } else {
        UState { users: s.users.push(u), seen: s.seen.push(key) }
    }
}

pub open spec fn id_text(id: Option<u64>) -> Seq<char> {
    match id {
        Some(i) => decimal(i as nat),
        None => seq![],
    }
}

pub open spec fn rest_user(f: UserFields) -> UserV {
    UserV { id: f.id, slug: ov(f.slug), name: ov(f.name), link: ov(f.link), source: "rest_api"@ }
}

pub open spec fn rest_key(f: UserFields) -> Seq<char> {
    id_text(f.id) + ":"@ + match f.slug {
        Some(s) => s@,
        None => seq![],
    }
}

pub open spec fn add_rest_users(s: UState, fs: Seq<UserFields>) -> UState
    decreases fs.len(),
{
    if fs.len() == 0 {
        s
    } else {
        let p = add_rest_users(s, fs.drop_last());
        add_user(p, rest_key(fs.last()), rest_user(fs.last()))
    }
}

pub open spec fn author_url(base: Seq<char>, id: u64) -> Seq<char> {
    base + "/?author="@ + decimal(id as nat)
}

/// What the author probe of `id` adds.
pub open spec fn author_step(s: UState, base: Seq<char>, id: u64, p: Option<AuthorProbe>) -> (UState, bool) {
    match p {
        Some(a) => if a.status == 200 {
            match author_slug_spec(a.final_url@) {
                Some(slug) => (
                    add_user(
                        s,
                        decimal(id as nat) + ":"@ + slug,
                        UserV {
                            id: Some(id),
                            slug: Some(slug),
                            name: None,
                            link: Some(a.final_url@),
                            source: "author_archive"@,
                        },
                    ),
                    true,
                ),
                None => match a.body {
                    Some(b) => if contains(b@, "/author/"@) {
                        match author_in_body_spec(b@) {
                            Some(slug) => (
                                add_user(
                                    s,
                                    decimal(id as nat) + ":"@ + slug,
                                    UserV {
                                        id: Some(id),
                                        slug: Some(slug),
                                        name: None,
                                        link: Some(author_url(base, id)),
                                        source: "author_archive_body"@,
                                    },
                                ),
                                true,
                            ),
                            None => (s, false),
                        }
                    } else {
                        (s, false)
                    },
                    None => (s, false),
                },
            }
        } else {
            (s, false)
        },
        None => (s, false),
    }
}

/// The author probes of ids 1..=ps.len(), in order; the flag says whether
/// any of them found an author.
pub open spec fn author_steps(s: UState, base: Seq<char>, ps: Seq<Option<AuthorProbe>>) -> (UState, bool)
    decreases ps.len(),
{
    if ps.len() == 0 {
        (s, false)
    } else {
        let (p, w) = author_steps(s, base, ps.drop_last());
        let (q, w2) = author_step(p, base, ps.len() as u64, ps.last());
        (q, w || w2)
    }
}

pub open spec fn has_id(us: Seq<UserV>, id: u64) -> bool {
    exists|i: int| 0 <= i < us.len() && (#[trigger] us[i]).id == Some(id)
}

pub open spec fn post_step(s: UState, p: PostFields) -> UState {
    let s1 = match p.author {
        Some(a) => if !has_id(s.users, a) {
            add_user(
                s,
                decimal(a as nat) + ":"@,
                UserV { id: Some(a), slug: None, name: None, link: None, source: "posts_author_id"@ },
            )
        } else {
            s
        },
        None => s,
    };
    match p.embedded_name {
        Some(name) => add_user(
            s1,
            id_text(p.embedded_id) + ":"@ + match p.embedded_slug {
                Some(sl) => sl@,
                None => name@,
            },
            UserV {
                id: p.embedded_id,
                slug: ov(p.embedded_slug),
                name: Some(name@),
                link: None,
                source: "embedded_author"@,
            },
        ),
        None => s1,
    }
}

pub open spec fn post_steps(s: UState, ps: Seq<PostFields>) -> UState
    decreases ps.len(),
{
    if ps.len() == 0 {
        s
    } else {
        post_step(post_steps(s, ps.drop_last()), ps.last())
    }
}

pub open spec fn after_rest(rest: RestUsersProbe) -> UState {
    let s0 = UState { users: seq![], seen: seq![] };
    match rest {
        RestUsersProbe::Response { status, users: Some(fs) } => if status == 200 {
            add_rest_users(s0, fs@)
        } else {
            s0
        },
        _ => s0,
    }
}

/// Users before sorting.
pub open spec fn users_found(
    base: Seq<char>,
    rest: RestUsersProbe,
    authors: Seq<Option<AuthorProbe>>,
    posts: Option<Vec<PostFields>>,
) -> Seq<UserV> {
    let s2 = author_steps(after_rest(rest), base, authors).0;
    match posts {
        Some(ps) => post_steps(s2, ps@).users,
        None => s2.users,
    }
}

/// `a` sorts strictly before `b` by id (no id first).
pub open spec fn id_before(a: Option<u64>, b: Option<u64>) -> bool {
    match (a, b) {
        (None, Some(_)) => true,
        (Some(x), Some(y)) => x < y,
        _ => false,
    }
}

pub open spec fn id_pos(t: Seq<UserV>, x: UserV) -> int
    decreases t.len(),
{
    if t.len() == 0 {
        0
    } else if id_before(x.id, t[0].id) {
        0
    } else {
        1 + id_pos(t.drop_first(), x)
    }
}

/// Users by id, keeping the order of equal ids.
pub open spec fn sort_users(s: Seq<UserV>) -> Seq<UserV>
    decreases s.len(),
{
    if s.len() == 0 {
        seq![]
    } else {
        let t = sort_users(s.drop_last());
        t.insert(id_pos(t, s.last()), s.last())
    }
}

pub proof fn lemma_id_pos(t: Seq<UserV>, x: UserV)
    ensures
        0 <= id_pos(t, x) <= t.len(),
    decreases t.len(),
{
    if t.len() > 0 {
        lemma_id_pos(t.drop_first(), x);
    }
}

fn id_before_exec(a: Option<u64>, b: Option<u64>) -> (r: bool)
    ensures
        r == id_before(a, b),
{
    match (a, b) {
        (None, Some(_)) => true,
        (Some(x), Some(y)) => x < y,
        _ => false,
    }
}

fn sort_by_id(v: Vec<WpUser>) -> (r: Vec<WpUser>)
    ensures
        users_view(r@) == sort_users(users_view(v@)),
{
    let ghost input = users_view(v@);
    let mut rest = v;
    let ghost src = rest@;
    let mut out: Vec<WpUser> = Vec::new();
    let mut k: usize = 0;
    let n = rest.len();
    assert(rest@ =~= src.skip(0));
    assert(users_view(out@) =~= sort_users(input.take(0)));
    while rest.len() > 0
        invariant
            k <= n,
            n == src.len(),
            input == users_view(src),
            rest@ == src.skip(k as int),
            users_view(out@) == sort_users(input.take(k as int)),
        decreases rest@.len(),
    {
        assert(input.take(k + 1).drop_last() =~= input.take(k as int));
        let x = rest.remove(0);
        assert(src.skip(k as int).drop_first() =~= src.skip(k + 1));
        assert(x == src[k as int]);
        assert(input.take(k + 1).last() == user_v(x));
        let ghost t = users_view(out@);
        proof {
            lemma_id_pos(t, user_v(x));
        }
        let mut pos: usize = 0;
        assert(t.skip(0) =~= t);
        while pos < out.len() && !id_before_exec(x.id, out[pos].id)
            invariant
                pos <= out@.len(),
                t == users_view(out@),
                id_pos(t, user_v(x)) == pos + id_pos(t.skip(pos as int), user_v(x)),
            decreases out@.len() - pos,
        {
            assert(t.skip(pos as int)[0] == user_v(out@[pos as int]));
            assert(t.skip(pos as int).drop_first() =~= t.skip(pos + 1));
            pos = pos + 1;
        }
        proof {
            if pos < out@.len() {
                assert(t.skip(pos as int)[0] == user_v(out@[pos as int]));
            }
        }
        let ghost xv = user_v(x);
        out.insert(pos, x);
        assert(users_view(out@) =~= t.insert(pos as int, xv));
        k = k + 1;
    }
    assert(input.take(k as int) =~= input);
    out
}


pub open spec fn state_of(users: Seq<WpUser>, seen: Seq<String>) -> UState {
    UState { users: users_view(users), seen: strs_view(seen) }
}

fn seen_contains(seen: &Vec<String>, key: &str) -> (b: bool)
    ensures
        b == strs_view(seen@).contains(key@),
{
    let mut i: usize = 0;
    while i < seen.len()
        invariant
            i <= seen@.len(),
            forall|j: int| 0 <= j < i ==> strs_view(seen@)[j] != key@,
        decreases seen@.len() - i,
    {
        if str_eq(seen[i].as_str(), key) {
            assert(strs_view(seen@)[i as int] == key@);
            return true;
        }
        i = i + 1;
    }
    false
}

fn add_user_exec(users: &mut Vec<WpUser>, seen: &mut Vec<String>, key: String, u: WpUser)
    ensures
        state_of(final(users)@, final(seen)@) == add_user(
            state_of(old(users)@, old(seen)@),
            key@,
            user_v(u),
        ),
{
    if !seen_contains(seen, key.as_str()) {
        let ghost su = users_view(users@);
        let ghost ss = strs_view(seen@);
        let ghost kv = key@;
        seen.push(key);
        users.push(u);
        assert(users_view(users@) =~= su.push(user_v(u)));
        assert(strs_view(seen@) =~= ss.push(kv));
    }
}

fn opt_clone(o: &Option<String>) -> (r: Option<String>)
    ensures
        ov(r) == ov(*o),
{
    match o {
        Some(x) => Some(x.clone()),
        None => None,
    }
}

fn id_text_exec(id: Option<u64>) -> (r: Vec<char>)
    ensures
        r@ == id_text(id),
{
    match id {
        Some(i) => decimal_chars(i),
        None => Vec::new(),
    }
}

fn has_id_exec(users: &Vec<WpUser>, id: u64) -> (b: bool)
    ensures
        b == has_id(users_view(users@), id),
{
    let mut i: usize = 0;
    while i < users.len()
        invariant
            i <= users@.len(),
            forall|j: int| 0 <= j < i ==> (#[trigger] users_view(users@)[j]).id != Some(id),
        decreases users@.len() - i,
    {
        if users[i].id == Some(id) {
            assert(users_view(users@)[i as int].id == Some(id));
            return true;
        }
        i = i + 1;
    }
    false
}

pub open spec fn status_notes(status: u16) -> Seq<Seq<char>> {
    if status == 401 || status == 403 {
        seq![
            "REST /wp/v2/users blocked (HTTP "@ + decimal(status as nat) + ") — good hardening"@,
        ]
    } else {
        seq!["REST /wp/v2/users → HTTP "@ + decimal(status as nat)]
    }
}

pub open spec fn rest_notes(rest: RestUsersProbe) -> Seq<Seq<char>> {
    match rest {
        RestUsersProbe::Response { status, users } => if status != 200 {
            status_notes(status)
        } else if users is Some {
            seq!["REST /wp/v2/users returned "@ + decimal(after_rest(rest).users.len()) + " user(s)"@]
        } else {
            seq![]
        },
        RestUsersProbe::Failed { .. } => seq![],
    }
}

pub open spec fn author_note(works: bool, max: u64) -> Seq<char> {
    if works {
        "Author archive enum works (probed IDs 1–"@ + decimal(max as nat) + ")"@
    } else {
        "Author archive enum: no hits for IDs 1–"@ + decimal(max as nat)
    }
}

/// Assembles the user enumeration from the REST users answer, one author
/// probe per id 1..=`max_author` (`None` when the request failed), and the
/// posts answer (`None` unless it was a 2xx JSON array).
pub fn users_report(
    base: &str,
    max_id: u64,
    rest: RestUsersProbe,
    authors: &Vec<Option<AuthorProbe>>,
    posts: Option<Vec<PostFields>>,
) -> (r: WpUsersResponse)
    requires
        authors@.len() == max_id,
    ensures
        r.url@ == base@,
        users_view(r.users@) == sort_users(users_found(base@, rest, authors@, posts)),
        r.rest_users_enabled == (rest matches RestUsersProbe::Response { status, users: Some(_) }
            && status == 200),
        r.author_enum_works == author_steps(after_rest(rest), base@, authors@).1,
        strs_view(r.notes@) == rest_notes(rest) + seq![author_note(r.author_enum_works, max_id)],
        ov(r.error) == match rest {
            RestUsersProbe::Failed { error } => Some("REST request failed: "@ + error@),
            _ => None,
        },
{
    let mut users: Vec<WpUser> = Vec::new();
    let mut seen: Vec<String> = Vec::new();
    let mut notes: Vec<String> = Vec::new();
    let mut enabled = false;
    let mut error: Option<String> = None;
    assert(users_view(users@) =~= Seq::<UserV>::empty());
    assert(strs_view(seen@) =~= Seq::<Seq<char>>::empty());
    match &rest {
        RestUsersProbe::Response { status, users: list } => {
            if *status == 200 {
                if let Some(fs) = list {
                    enabled = true;
                    let ghost s0 = state_of(users@, seen@);
                    let mut i: usize = 0;
                    while i < fs.len()
                        invariant
                            i <= fs@.len(),
                            state_of(users@, seen@) == add_rest_users(s0, fs@.take(i as int)),
                        decreases fs@.len() - i,
                    {
                        assert(fs@.take(i + 1).drop_last() =~= fs@.take(i as int));
                        assert(fs@.take(i + 1).last() == fs@[i as int]);
                        let f = &fs[i];
                        let mut key = id_text_exec(f.id);
                        push_str(&mut key, ":");
                        if let Some(sl) = &f.slug {
                            push_all(&mut key, chars_of(sl.as_str()).as_slice());
                        }
                        let u = WpUser {
                            id: f.id,
                            slug: opt_clone(&f.slug),
                            name: opt_clone(&f.name),
                            link: opt_clone(&f.link),
                            source: lit("rest_api"),
                        };
                        add_user_exec(&mut users, &mut seen, string_of(key.as_slice()), u);
                        i = i + 1;
                    }
                    assert(fs@.take(fs@.len() as int) =~= fs@);
                    let mut n = chars_of("REST /wp/v2/users returned ");
                    push_all(&mut n, decimal_chars(users.len() as u64).as_slice());
                    push_str(&mut n, " user(s)");
                    notes.push(string_of(n.as_slice()));
                }
            } else if *status == 401 || *status == 403 {
                let mut n = chars_of("REST /wp/v2/users blocked (HTTP ");
                push_all(&mut n, decimal_chars(*status as u64).as_slice());
                push_str(&mut n, ") — good hardening");
                notes.push(string_of(n.as_slice()));
            } else {
                let mut n = chars_of("REST /wp/v2/users → HTTP ");
                push_all(&mut n, decimal_chars(*status as u64).as_slice());
                notes.push(string_of(n.as_slice()));
            }
        },
        RestUsersProbe::Failed { error: e } => {
            let mut m = chars_of("REST request failed: ");
            push_all(&mut m, chars_of(e.as_str()).as_slice());
            error = Some(string_of(m.as_slice()));
        },
    }
    assert(state_of(users@, seen@) == after_rest(rest));
    assert(strs_view(notes@) =~= rest_notes(rest));
    let ghost s1 = state_of(users@, seen@);
    let ghost notes1 = strs_view(notes@);
    let mut works = false;
    let mut k: usize = 0;
    while k < authors.len()
        invariant
            k <= authors@.len(),
            authors@.len() == max_id,
            (state_of(users@, seen@), works) == author_steps(s1, base@, authors@.take(k as int)),
            strs_view(notes@) == notes1,
        decreases authors@.len() - k,
    {
        assert(authors@.take(k + 1).drop_last() =~= authors@.take(k as int));
        assert(authors@.take(k + 1).last() == authors@[k as int]);
        let id: u64 = (k + 1) as u64;
        if let Some(a) = &authors[k] {
            if a.status == 200 {
                match extract_author_slug(a.final_url.as_str()) {
                    Some(slug) => {
                        works = true;
                        let mut key = decimal_chars(id);
                        push_str(&mut key, ":");
                        push_all(&mut key, chars_of(slug.as_str()).as_slice());
                        let u = WpUser {
                            id: Some(id),
                            slug: Some(slug),
                            name: None,
                            link: Some(a.final_url.clone()),
                            source: lit("author_archive"),
                        };
                        add_user_exec(&mut users, &mut seen, string_of(key.as_slice()), u);
                    },
                    None => {
                        if let Some(b) = &a.body {
                            if crate::text::str_contains(b.as_str(), "/author/") {
                                if let Some(slug) = extract_author_from_body(b.as_str()) {
                                    works = true;
                                    let mut key = decimal_chars(id);
                                    push_str(&mut key, ":");
                                    push_all(&mut key, chars_of(slug.as_str()).as_slice());
                                    let mut link = chars_of(base);
                                    push_str(&mut link, "/?author=");
                                    push_all(&mut link, decimal_chars(id).as_slice());
                                    let u = WpUser {
                                        id: Some(id),
                                        slug: Some(slug),
                                        name: None,
                                        link: Some(string_of(link.as_slice())),
                                        source: lit("author_archive_body"),
                                    };
                                    add_user_exec(&mut users, &mut seen, string_of(key.as_slice()), u);
                                }
                            }
                        }
                    },
                }
            }
        }
        k = k + 1;
    }
    assert(authors@.take(authors@.len() as int) =~= authors@);
    let an = if works {
        let mut an = chars_of("Author archive enum works (probed IDs 1–");
        push_all(&mut an, decimal_chars(max_id).as_slice());
        push_str(&mut an, ")");
        an
    } else {
        let mut an = chars_of("Author archive enum: no hits for IDs 1–");
        push_all(&mut an, decimal_chars(max_id).as_slice());
        an
    };
    let note = string_of(an.as_slice());
    let ghost nv = note@;
    notes.push(note);
    assert(strs_view(notes@) =~= notes1.push(nv));
    let ghost s2 = state_of(users@, seen@);
    if let Some(ps) = &posts {
        let mut i: usize = 0;
        while i < ps.len()
            invariant
                i <= ps@.len(),
                state_of(users@, seen@) == post_steps(s2, ps@.take(i as int)),
            decreases ps@.len() - i,
        {
            assert(ps@.take(i + 1).drop_last() =~= ps@.take(i as int));
            assert(ps@.take(i + 1).last() == ps@[i as int]);
            let p = &ps[i];
            if let Some(a) = p.author {
                if !has_id_exec(&users, a) {
                    let mut key = decimal_chars(a);
                    push_str(&mut key, ":");
                    let u = WpUser { id: Some(a), slug: None, name: None, link: None, source: lit("posts_author_id") };
                    add_user_exec(&mut users, &mut seen, string_of(key.as_slice()), u);
                }
            }
            if let Some(name) = &p.embedded_name {
                let mut key = id_text_exec(p.embedded_id);
                push_str(&mut key, ":");
                match &p.embedded_slug {
                    Some(sl) => push_all(&mut key, chars_of(sl.as_str()).as_slice()),
                    None => push_all(&mut key, chars_of(name.as_str()).as_slice()),
                }
                let u = WpUser {
                    id: p.embedded_id,
                    slug: opt_clone(&p.embedded_slug),
                    name: Some(name.clone()),
                    link: None,
                    source: lit("embedded_author"),
                };
                add_user_exec(&mut users, &mut seen, string_of(key.as_slice()), u);
            }
            i = i + 1;
        }
        assert(ps@.take(ps@.len() as int) =~= ps@);
    }
    let sorted = sort_by_id(users);
    WpUsersResponse {
        url: lit(base),
        users: sorted,
        rest_users_enabled: enabled,
        author_enum_works: works,
        notes,
        error,
    }
}

} // verus!
