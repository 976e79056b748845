//! What the site's request handlers decide: the order in which a user's
//! sessions are listed, which sessions a revocation form names, and the reply
//! each handler gives once its lookups are done.

use vstd::prelude::*;
use crate::bindings::{form_pairs, minified_css, minify_css, parse_form_pairs};
use crate::html_templates::{user_settings_html, user_settings_markup};
use crate::structs::{Session, User, UtcTime};
use crate::text::opt_view;

verus! {

broadcast use vstd::seq_lib::to_multiset_insert;

/// Index at which a session seen at `e` enters a newest-first list `d`,
/// scanning from `i`: past every session seen strictly after `e`.
pub open spec fn insert_position(d: Seq<Session>, e: UtcTime, i: int) -> int
    decreases d.len() - i,
{
    if i < d.len() && d[i].last_seen.is_after(e) {
        insert_position(d, e, i + 1)
    } else {
        i
    }
}

/// Sessions ordered by `last_seen`, newest first; sessions seen at the same
/// instant come in the reverse of their given order (a stable ascending sort,
/// then reversed).
pub open spec fn newest_first(s: Seq<Session>) -> Seq<Session>
    decreases s.len(),
{
    if s.len() == 0 {
        s
    } else {
        let d = newest_first(s.drop_last());
        d.insert(insert_position(d, s.last().last_seen, 0), s.last())
    }
}

/// No session in `s` was seen after one listed before it.
pub open spec fn is_newest_first(s: Seq<Session>) -> bool {
    forall|i: int, j: int| 0 <= i < j < s.len() ==> !#[trigger] s[j].last_seen.is_after(#[trigger] s[i].last_seen)
}

proof fn lemma_insert_position(d: Seq<Session>, e: UtcTime, i: int)
    requires
        0 <= i <= d.len(),
    ensures
        i <= insert_position(d, e, i) <= d.len(),
        forall|j: int| i <= j < insert_position(d, e, i) ==> d[j].last_seen.is_after(e),
        insert_position(d, e, i) < d.len() ==> !d[insert_position(d, e, i)].last_seen.is_after(e),
    decreases d.len() - i,
{
    if i < d.len() && d[i].last_seen.is_after(e) {
        lemma_insert_position(d, e, i + 1);
    }
}

/// The newest-first order lists sessions so that none was seen after an
/// earlier-listed one.
pub proof fn lemma_newest_first_is_sorted(s: Seq<Session>)
    ensures
        is_newest_first(newest_first(s)),
        newest_first(s).len() == s.len(),
    decreases s.len(),
{
    if s.len() > 0 {
        let d = newest_first(s.drop_last());
        let e = s.last();
        lemma_newest_first_is_sorted(s.drop_last());
        lemma_insert_position(d, e.last_seen, 0);
        let p = insert_position(d, e.last_seen, 0);
        let r = d.insert(p, e);
        d.insert_ensures(p, e);
        assert forall|i: int, j: int| 0 <= i < j < r.len() implies !#[trigger] r[j].last_seen.is_after(
            #[trigger] r[i].last_seen,
        ) by {
            if j < p {
            } else if j == p {
                assert(d[i].last_seen.is_after(e.last_seen));
            } else if i < p {
                assert(d[i].last_seen.is_after(e.last_seen));
                assert(!d[j - 1].last_seen.is_after(d[i].last_seen));
            } else if i == p {
                assert(!d[p].last_seen.is_after(e.last_seen));
                if j - 1 > p {
                    assert(!d[j - 1].last_seen.is_after(d[p].last_seen));
                }
            } else {
                assert(!d[j - 1].last_seen.is_after(d[i - 1].last_seen));
            }
        }
    }
}

/// The newest-first order holds exactly the given sessions, each as often as
/// it was given.
pub proof fn lemma_newest_first_is_permutation(s: Seq<Session>)
    ensures
        newest_first(s).to_multiset() == s.to_multiset(),
    decreases s.len(),
{
    if s.len() > 0 {
        let d = newest_first(s.drop_last());
        lemma_newest_first_is_permutation(s.drop_last());
        lemma_newest_first_is_sorted(s.drop_last());
        lemma_insert_position(d, s.last().last_seen, 0);
        assert(s.drop_last().push(s.last()) =~= s);
        vstd::seq_lib::to_multiset_build(s.drop_last(), s.last());
    }
}

/// Holds of the sessions last seen at exactly `t`.
pub open spec fn seen_at_pred(t: UtcTime) -> spec_fn(Session) -> bool {
    |x: Session| x.last_seen == t
}

/// The sessions of `s` last seen at exactly `t`, in their order in `s`.
pub open spec fn seen_at(s: Seq<Session>, t: UtcTime) -> Seq<Session> {
    s.filter(seen_at_pred(t))
}

/// Sessions last seen at the same instant are listed newest-first in the
/// reverse of the order they were given in.
pub proof fn lemma_newest_first_reverses_ties(s: Seq<Session>, t: UtcTime)
    ensures
        seen_at(newest_first(s), t) == seen_at(s, t).reverse(),
    decreases s.len(),
{
    let f = seen_at_pred(t);
    if s.len() == 0 {
        reveal(Seq::filter);
        assert(newest_first(s).filter(f) =~= s.filter(f).reverse());
    } else {
        let s0 = s.drop_last();
        let e = s.last();
        let d = newest_first(s0);
        lemma_newest_first_reverses_ties(s0, t);
        lemma_newest_first_is_sorted(s0);
        lemma_insert_position(d, e.last_seen, 0);
        let p = insert_position(d, e.last_seen, 0);
        let a = d.subrange(0, p);
        let b = d.subrange(p, d.len() as int);
        assert(d =~= a + b);
        assert(d.insert(p, e) =~= a.push(e) + b);
        Seq::<Session>::filter_distributes_over_add(a.push(e), b, f);
        Seq::<Session>::filter_distributes_over_add(a, b, f);
        a.lemma_filter_push(e, f);
        assert(s0.push(e) =~= s);
        s0.lemma_filter_push(e, f);
        let x = seen_at(s0, t);
        if e.last_seen == t {
            if a.filter(f).len() > 0 {
                a.lemma_filter_pred(f, 0);
                assert(a.filter(f).contains(a.filter(f)[0]));
                a.lemma_filter_contains_rev(f, a.filter(f)[0]);
                let j = choose|j: int| 0 <= j < a.len() && a[j] == a.filter(f)[0];
                assert(d[j].last_seen.is_after(e.last_seen));
            }
            assert(a.filter(f) =~= Seq::<Session>::empty());
            assert(a.filter(f).push(e) + b.filter(f) =~= seq![e] + (a.filter(f) + b.filter(f)));
            assert(x.push(e).reverse() =~= seq![e] + x.reverse());
        }
    }
}

/// Orders sessions by when they were last seen, newest first (the order of a
/// stable ascending sort by `last_seen`, reversed).
pub fn sort_newest_first(sessions: Vec<Session>) -> (r: Vec<Session>)
    ensures
        r@ == newest_first(sessions@),
        is_newest_first(r@),
        r@.to_multiset() == sessions@.to_multiset(),
{
    let ghost given = sessions@;
    let mut rest = sessions;
    let mut out: Vec<Session> = Vec::new();
    let ghost mut k: int = 0;
    assert(given.take(0) =~= Seq::<Session>::empty());
    while rest.len() > 0
        invariant
            0 <= k <= given.len(),
            rest@ == given.skip(k),
            out@ == newest_first(given.take(k)),
        decreases rest.len(),
    {
        let e = rest.remove(0);
        proof {
            lemma_newest_first_is_sorted(given.take(k));
        }
        let mut i: usize = 0;
        while i < out.len() && out[i].last_seen.after(&e.last_seen)
            invariant
                i <= out.len(),
                insert_position(out@, e.last_seen, 0) == insert_position(out@, e.last_seen, i as int),
            decreases out.len() - i,
        {
            i = i + 1;
        }
        out.insert(i, e);
        proof {
            assert(given.take(k + 1).drop_last() =~= given.take(k));
            assert(given.take(k + 1).last() == e);
            k = k + 1;
            assert(rest@ =~= given.skip(k));
        }
    }
    assert(given.take(k) =~= given);
    proof {
        lemma_newest_first_is_sorted(given);
        lemma_newest_first_is_permutation(given);
    }
    out
}

/// The media type of a successful reply's body.
#[derive(Clone, Copy, Debug, PartialEq, Eq, Structural)]
pub enum ContentKind {
    Html,
    Css,
    JavaScript,
}

impl ContentKind {
    /// The `Content-Type` header value for this kind of body.
    pub open spec fn header_value(self) -> Seq<char> {
        match self {
            ContentKind::Html => "text/html; charset=utf-8"@,
            ContentKind::Css => "text/css; charset=utf-8"@,
            ContentKind::JavaScript => "text/javascript; charset=utf-8"@,
        }
    }

    /// The `Content-Type` header value for this kind of body.
    pub fn content_type(&self) -> (r: &'static str)
        ensures
            r@ == self.header_value(),
    {
        match self {
            ContentKind::Html => "text/html; charset=utf-8",
            ContentKind::Css => "text/css; charset=utf-8",
            ContentKind::JavaScript => "text/javascript; charset=utf-8",
        }
    }
}

/// The HTTP reply a handler gives.
#[derive(Debug)]
pub enum Reply {
    /// 200, with a body of the given kind.
    Success { kind: ContentKind, body: String },
    /// 303, sending the browser to `location`.
    SeeOther { location: String },
    /// 400, with a message for the user.
    BadRequest { message: String },
    /// 500, with no body.
    InternalServerError,
}

/// The reply to a request for the style sheet, given the sheet or the reason
/// it could not be had.
pub fn css_reply(css: Result<String, String>) -> (r: Reply)
    ensures
        match css {
            Ok(sheet) => r == (Reply::Success { kind: ContentKind::Css, body: sheet }),
            Err(_) => r is InternalServerError,
        },
{
    match css {
        Ok(sheet) => Reply::Success { kind: ContentKind::Css, body: sheet },
        Err(_) => Reply::InternalServerError,
    }
}

/// The reply to a request for the style sheet when it is served from a cache
/// that holds the empty text when preparing the sheet failed.
pub fn cached_css_reply(css: String) -> (r: Reply)
    ensures
        css@.len() == 0 ==> r is InternalServerError,
        css@.len() > 0 ==> r == (Reply::Success { kind: ContentKind::Css, body: css }),
{
    if css.as_str().is_empty() {
        Reply::InternalServerError
    } else {
        Reply::Success { kind: ContentKind::Css, body: css }
    }
}

/// The style sheet served: the minified sheet when there is one, else the
/// sheet as read.
pub fn prefer_minified(original: String, minified: Option<String>) -> (r: String)
    ensures
        r@ == match minified {
            Some(m) => m@,
            None => original@,
        },
{
    match minified {
        Some(m) => m,
        None => original,
    }
}

/// Prepares the style sheet read from disk (`None` when reading failed):
/// minified when lightningcss can parse, minify and print it, as read
/// otherwise; an error when there was nothing to read.
pub fn parse_css(css_file: Option<String>) -> (r: Result<String, String>)
    ensures
        css_file is None ==> (r matches Err(m) && m@ == "Failed to read CSS file!"@),
        css_file matches Some(f) ==> (r matches Ok(out) && out@ == match minified_css(f@) {
            Some(m) => m,
            None => f@,
        }),
{
    match css_file {
        None => Err(String::from_str("Failed to read CSS file!")),
        Some(file) => {
            let minified = minify_css(file.as_str());
            Ok(prefer_minified(file, minified))
        },
    }
}

/// The user settings page: every authorized user, then the signed-in user's
/// sessions, most recently seen first. There must be at least one session.
pub fn user_settings_page(users: Vec<User>, sessions: Vec<Session>) -> (r: String)
    requires
        sessions@.len() > 0,
    ensures
        r@ == user_settings_markup(users@, newest_first(sessions@)),
{
    proof {
        lemma_newest_first_is_sorted(sessions@);
    }
    let ordered = sort_newest_first(sessions);
    user_settings_html(users, ordered)
}

/// What a user-editing handler does next.
#[derive(Debug)]
pub enum UserStep {
    /// Fetch the Fimfiction profile of user `id`, store it, then send the
    /// browser to `location`.
    FetchAndStore { id: i32, location: String },
    /// Delete user `id`, then send the browser to `location`.
    Delete { id: i32, location: String },
    /// Reply at once.
    Answer(Reply),
}

/// The message for an update or removal of a user who is not stored.
pub open spec fn no_such_user() -> Seq<char> {
    "Unable to update a user who doesn't exist."@
}

/// Refreshing a user: when the lookup found the user, fetch and store their
/// profile and go back; otherwise refuse.
pub fn update_user_step(found: Option<i32>, back: String) -> (r: UserStep)
    ensures
        found matches Some(id) ==> r == (UserStep::FetchAndStore { id, location: back }),
        found is None ==> (r matches UserStep::Answer(Reply::BadRequest { message }) && message@
            == no_such_user()),
{
    match found {
        Some(id) => UserStep::FetchAndStore { id, location: back },
        None => UserStep::Answer(
            Reply::BadRequest { message: String::from_str("Unable to update a user who doesn't exist.") },
        ),
    }
}

/// The user ID an add request names, or the refusal when it names none.
pub fn add_user_id(id: Option<i32>) -> (r: Result<i32, Reply>)
    ensures
        id matches Some(v) ==> r == Ok::<i32, Reply>(v),
        id is None ==> (r matches Err(Reply::BadRequest { message }) && message@
            == "Missing id parameter."@),
{
    match id {
        Some(v) => Ok(v),
        None => Err(Reply::BadRequest { message: String::from_str("Missing id parameter.") }),
    }
}

/// Adding user `id`: refused when the user is already stored; otherwise fetch
/// and store their profile and go back.
pub fn add_user_step(id: i32, already_stored: bool, back: String) -> (r: UserStep)
    ensures
        !already_stored ==> r == (UserStep::FetchAndStore { id, location: back }),
        already_stored ==> (r matches UserStep::Answer(Reply::BadRequest { message }) && message@
            == "Unable to add a user who already exists."@),
{
    if already_stored {
        UserStep::Answer(
            Reply::BadRequest { message: String::from_str("Unable to add a user who already exists.") },
        )
    } else {
        UserStep::FetchAndStore { id, location: back }
    }
}

/// Removing a user: when the lookup found them, delete them, then sign out if
/// they are the signed-in user and go back otherwise; refuse when not found.
pub fn remove_user_step(found: Option<i32>, current_user: i32, back: String) -> (r: UserStep)
    ensures
        found matches Some(id) ==> (r matches UserStep::Delete { id: deleted, location } && deleted == id
            && location@ == if id == current_user {
            "/logout"@
        } else {
            back@
        }),
        found is None ==> (r matches UserStep::Answer(Reply::BadRequest { message }) && message@
            == no_such_user()),
{
    match found {
        Some(id) => {
            let location = if id == current_user {
                String::from_str("/logout")
            } else {
                back
            };
            UserStep::Delete { id, location }
        },
        None => UserStep::Answer(
            Reply::BadRequest { message: String::from_str("Unable to update a user who doesn't exist.") },
        ),
    }
}

/// Pair `i` of a parsed form keeps its value in the map the form is read
/// into: no later pair has the same name.
pub open spec fn is_last_for_name(pairs: Seq<(u32, Seq<char>)>, i: int) -> bool {
    forall|j: int| i < j < pairs.len() ==> #[trigger] pairs[j].0 != pairs[i].0
}

/// The values of the pairs before position `n` that keep their value in the
/// map the form is read into.
pub open spec fn tokens_named_before(pairs: Seq<(u32, Seq<char>)>, n: int) -> Set<Seq<char>> {
    Set::new(
        |t: Seq<char>|
            exists|i: int| 0 <= i < n && is_last_for_name(pairs, i) && #[trigger] pairs[i].1 == t,
    )
}

/// The session tokens a revocation form names: the values of the map that its
/// pairs are read into, where a later pair with the same name replaces an
/// earlier one.
pub open spec fn form_tokens(pairs: Seq<(u32, Seq<char>)>) -> Set<Seq<char>> {
    tokens_named_before(pairs, pairs.len() as int)
}

/// The map a form's pairs are read into: each pair in turn is inserted, so a
/// later pair with the same name replaces an earlier one.
pub open spec fn form_map(pairs: Seq<(u32, Seq<char>)>) -> Map<u32, Seq<char>>
    decreases pairs.len(),
{
    if pairs.len() == 0 {
        Map::empty()
    } else {
        form_map(pairs.drop_last()).insert(pairs.last().0, pairs.last().1)
    }
}

proof fn lemma_form_map(pairs: Seq<(u32, Seq<char>)>)
    ensures
        forall|key: u32| #[trigger] form_map(pairs).dom().contains(key) <==> exists|i: int|
            0 <= i < pairs.len() && #[trigger] pairs[i].0 == key,
        forall|i: int| 0 <= i < pairs.len() && is_last_for_name(pairs, i) ==> form_map(pairs)[#[trigger] pairs[i].0]
            == pairs[i].1,
    decreases pairs.len(),
{
    if pairs.len() > 0 {
        let p0 = pairs.drop_last();
        lemma_form_map(p0);
        let n = pairs.len() - 1;
        assert forall|key: u32| #[trigger] form_map(pairs).dom().contains(key) <==> exists|i: int|
            0 <= i < pairs.len() && #[trigger] pairs[i].0 == key by {
            if form_map(pairs).dom().contains(key) && key != pairs[n].0 {
                assert(form_map(p0).dom().contains(key));
                let i = choose|i: int| 0 <= i < p0.len() && #[trigger] p0[i].0 == key;
                assert(p0[i] == pairs[i]);
                assert(pairs[i].0 == key);
            }
            if form_map(pairs).dom().contains(key) && key == pairs[n].0 {
                assert(pairs[n].0 == key);
            }
            if exists|i: int| 0 <= i < pairs.len() && #[trigger] pairs[i].0 == key {
                let i = choose|i: int| 0 <= i < pairs.len() && #[trigger] pairs[i].0 == key;
                if i < n {
                    assert(p0[i] == pairs[i]);
                    assert(p0[i].0 == key);
                    assert(form_map(p0).dom().contains(key));
                }
            }
        }
        assert forall|i: int| 0 <= i < pairs.len() && is_last_for_name(pairs, i) implies form_map(pairs)[
            #[trigger] pairs[i].0] == pairs[i].1 by {
            if i < n {
                assert(pairs[n].0 != pairs[i].0);
                assert(p0[i] == pairs[i]);
                assert forall|j: int| i < j < p0.len() implies #[trigger] p0[j].0 != p0[i].0 by {
                    assert(pairs[j].0 != pairs[i].0);
                }
            }
        }
    }
}

proof fn lemma_some_last_for_name(pairs: Seq<(u32, Seq<char>)>, i: int)
    requires
        0 <= i < pairs.len(),
    ensures
        exists|j: int| #[trigger] is_last_for_name(pairs, j) && i <= j < pairs.len() && pairs[j].0 == pairs[i].0,
    decreases pairs.len() - i,
{
    if !is_last_for_name(pairs, i) {
        let q = choose|q: int| i < q < pairs.len() && #[trigger] pairs[q].0 == pairs[i].0;
        lemma_some_last_for_name(pairs, q);
        let j = choose|j: int| #[trigger] is_last_for_name(pairs, j) && q <= j < pairs.len() && pairs[j].0 == pairs[q].0;
        assert(i <= j < pairs.len() && pairs[j].0 == pairs[i].0 && is_last_for_name(pairs, j));
    } else {
        assert(i <= i < pairs.len() && pairs[i].0 == pairs[i].0 && is_last_for_name(pairs, i));
    }
}

/// The tokens a revocation form names are exactly the values of the map its
/// pairs are read into, a later pair with the same name replacing an earlier
/// one.
pub proof fn lemma_form_tokens_are_map_values(pairs: Seq<(u32, Seq<char>)>)
    ensures
        form_tokens(pairs) == form_map(pairs).values(),
{
    lemma_form_map(pairs);
    let m = form_map(pairs);
    assert forall|t: Seq<char>| #[trigger] form_tokens(pairs).contains(t) implies m.values().contains(t) by {
        let i = choose|i: int| 0 <= i < pairs.len() && is_last_for_name(pairs, i) && #[trigger] pairs[i].1 == t;
        assert(m.dom().contains(pairs[i].0));
        assert(m[pairs[i].0] == t);
    }
    assert forall|t: Seq<char>| #[trigger] m.values().contains(t) implies form_tokens(pairs).contains(t) by {
        let key = choose|key: u32| #[trigger] m.dom().contains(key) && m[key] == t;
        let i = choose|i: int| 0 <= i < pairs.len() && #[trigger] pairs[i].0 == key;
        lemma_some_last_for_name(pairs, i);
        let j = choose|j: int| #[trigger] is_last_for_name(pairs, j) && i <= j < pairs.len() && pairs[j].0 == pairs[i].0;
        assert(pairs[j].1 == t);
    }
    assert(form_tokens(pairs) =~= m.values());
}

/// When no two pairs of a form share a name, every pair's value, the first
/// one's included, is a named token, and nothing else is.
pub proof fn lemma_form_tokens_of_distinct_names(pairs: Seq<(u32, Seq<char>)>)
    requires
        forall|i: int, j: int| 0 <= i < j < pairs.len() ==> #[trigger] pairs[i].0 != #[trigger] pairs[j].0,
    ensures
        forall|i: int| 0 <= i < pairs.len() ==> form_tokens(pairs).contains(#[trigger] pairs[i].1),
        forall|t: Seq<char>| #[trigger] form_tokens(pairs).contains(t) ==> exists|i: int|
            0 <= i < pairs.len() && #[trigger] pairs[i].1 == t,
{
    assert forall|i: int| 0 <= i < pairs.len() implies form_tokens(pairs).contains(#[trigger] pairs[i].1) by {
        assert forall|j: int| i < j < pairs.len() implies #[trigger] pairs[j].0 != pairs[i].0 by {}
        assert(is_last_for_name(pairs, i));
    }
}

/// The value of a form's last pair is always a named token.
pub proof fn lemma_form_tokens_keep_last_value(pairs: Seq<(u32, Seq<char>)>)
    requires
        pairs.len() > 0,
    ensures
        form_tokens(pairs).contains(pairs.last().1),
{
    assert(is_last_for_name(pairs, pairs.len() - 1));
}

/// `tokens` lists each text at most once.
pub open spec fn all_distinct(tokens: Seq<String>) -> bool {
    forall|i: int, j: int| 0 <= i < j < tokens.len() ==> #[trigger] tokens[i]@ != #[trigger] tokens[j]@
}

/// The texts that `tokens` lists.
pub open spec fn listed(tokens: Seq<String>) -> Set<Seq<char>> {
    Set::new(|t: Seq<char>| exists|k: int| 0 <= k < tokens.len() && #[trigger] tokens[k]@ == t)
}

/// The distinct session tokens of a parsed revocation form.
pub fn distinct_tokens(pairs: &Vec<(u32, String)>) -> (r: Vec<String>)
    ensures
        all_distinct(r@),
        listed(r@) == form_tokens(pairs.deep_view()),
        listed(r@) == form_map(pairs.deep_view()).values(),
{
    let ghost pv = pairs.deep_view();
    let n = pairs.len();
    assert forall|m: int| 0 <= m < n implies #[trigger] pv[m] == (pairs@[m].0, pairs@[m].1@) by {}
    let mut r: Vec<String> = Vec::new();
    let mut i: usize = 0;
    assert(listed(r@) =~= tokens_named_before(pv, 0));
    while i < n
        invariant
            n == pairs@.len(),
            pv == pairs.deep_view(),
            pv.len() == n,
            forall|m: int| 0 <= m < n ==> #[trigger] pv[m] == (pairs@[m].0, pairs@[m].1@),
            i <= n,
            all_distinct(r@),
            listed(r@) == tokens_named_before(pv, i as int),
        decreases n - i,
    {
        let mut last = true;
        let mut j: usize = i + 1;
        while j < n
            invariant
                n == pairs@.len(),
                pv.len() == n,
                forall|m: int| 0 <= m < n ==> #[trigger] pv[m] == (pairs@[m].0, pairs@[m].1@),
                i < n,
                i < j <= n,
                last == forall|q: int| i < q < j ==> #[trigger] pv[q].0 != pv[i as int].0,
            decreases n - j,
        {
            assert(pv[j as int].0 == pairs@[j as int].0 && pv[i as int].0 == pairs@[i as int].0);
            if pairs[j].0 == pairs[i].0 {
                last = false;
            }
            j = j + 1;
        }
        assert(last == is_last_for_name(pv, i as int));
        let ghost v = pv[i as int].1;
        let ghost before = r@;
        if last {
            let mut seen = false;
            let mut k: usize = 0;
            while k < r.len()
                invariant
                    n == pairs@.len(),
                    i < n,
                    k <= r@.len(),
                    seen == exists|q: int| 0 <= q < k && #[trigger] r@[q]@ == pairs@[i as int].1@,
                decreases r.len() - k,
            {
                if r[k] == pairs[i].1 {
                    seen = true;
                }
                k = k + 1;
            }
            if !seen {
                let token = pairs[i].1.clone();
                r.push(token);
                assert(r@ =~= before.push(token));
                assert(r@[r@.len() - 1]@ == v);
                assert forall|t: Seq<char>| #[trigger] listed(before).contains(t) implies listed(r@).contains(t) by {
                    let k = choose|k: int| 0 <= k < before.len() && #[trigger] before[k]@ == t;
                    assert(r@[k]@ == t);
                }
                assert(listed(r@) =~= listed(before).insert(v));
                assert forall|a: int, b: int| 0 <= a < b < r@.len() implies #[trigger] r@[a]@ != #[trigger] r@[b]@ by {
                    if b == r@.len() - 1 {
                        assert(before[a]@ == r@[a]@);
                    } else {
                        assert(before[a]@ != before[b]@);
                    }
                }
            } else {
                assert(listed(before).contains(v));
            }
            assert(tokens_named_before(pv, i + 1) =~= tokens_named_before(pv, i as int).insert(v));
        } else {
            assert(tokens_named_before(pv, i + 1) =~= tokens_named_before(pv, i as int));
        }
        assert(listed(r@) =~= tokens_named_before(pv, i + 1));
        i = i + 1;
    }
    proof {
        lemma_form_tokens_are_map_values(pv);
    }
    r
}

/// The distinct session tokens a revocation form body names, or none when
/// the body does not parse as pairs of a `u32` name and a text value.
pub fn revoke_tokens(body: &str) -> (r: Option<Vec<String>>)
    ensures
        r is None <==> form_pairs(body@) is None,
        r matches Some(tokens) ==> all_distinct(tokens@) && listed(tokens@) == form_tokens(
            form_pairs(body@).unwrap(),
        ) && listed(tokens@) == form_map(form_pairs(body@).unwrap()).values(),
{
    match parse_form_pairs(body) {
        Some(pairs) => Some(distinct_tokens(&pairs)),
        None => None,
    }
}

/// A named session is revoked only when it exists and belongs to the
/// signed-in user; `owner` is the user of the session found, if any.
pub fn may_revoke(owner: Option<i32>, current_user: i32) -> (r: bool)
    ensures
        r <==> owner == Some(current_user),
{
    match owner {
        Some(id) => id == current_user,
        None => false,
    }
}

/// Where the browser goes after a revocation: sign out when the session in
/// use was among those named, back otherwise.
pub fn revoke_location(tokens: &Vec<String>, current_token: &str, back: String) -> (r: String)
    ensures
        listed(tokens@).contains(current_token@) ==> r@ == "/logout"@,
        !listed(tokens@).contains(current_token@) ==> r@ == back@,
{
    let current = String::from_str(current_token);
    let mut named = false;
    let mut k: usize = 0;
    while k < tokens.len()
        invariant
            k <= tokens@.len(),
            current@ == current_token@,
            named == exists|q: int| 0 <= q < k && #[trigger] tokens@[q]@ == current_token@,
        decreases tokens.len() - k,
    {
        if tokens[k] == current {
            named = true;
        }
        k = k + 1;
    }
    if named {
        String::from_str("/logout")
    } else {
        back
    }
}

} // verus!
