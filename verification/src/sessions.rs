//! The sessions in memory: which token belongs to which user.
use vstd::prelude::*;

use crate::text::same_text;
use crate::text_map::TextMap;

verus! {

/// The sessions of the users who are logged in, by token.
pub struct AuthStore {
    sessions: TextMap<String>,
}

impl View for AuthStore {
    /// The user of each token.
    type V = Map<Seq<char>, Seq<char>>;

    closed spec fn view(&self) -> Map<Seq<char>, Seq<char>> {
        self.sessions@.map_values(|u: String| u@)
    }
}

/// The tokens of a user.
pub open spec fn tokens_of(sessions: Map<Seq<char>, Seq<char>>, user: Seq<char>) -> Set<Seq<char>> {
    sessions.dom().filter(|t: Seq<char>| sessions[t] == user)
}

/// Whether a user has a session.
pub open spec fn logged_in(sessions: Map<Seq<char>, Seq<char>>, user: Seq<char>) -> bool {
    exists|t: Seq<char>| #[trigger] sessions.contains_key(t) && sessions[t] == user
}

/// The sessions of everybody else.
pub open spec fn without_user(
    sessions: Map<Seq<char>, Seq<char>>,
    user: Seq<char>,
) -> Map<Seq<char>, Seq<char>> {
    sessions.remove_keys(tokens_of(sessions, user))
}

/// The user of a token.
pub open spec fn user_of(sessions: Map<Seq<char>, Seq<char>>, token: Seq<char>) -> Option<
    Seq<char>,
> {
    if sessions.contains_key(token) {
        Some(sessions[token])
    } else {
        None
    }
}

/// Whether no user has two sessions.
pub open spec fn single_session(sessions: Map<Seq<char>, Seq<char>>) -> bool {
    forall|s: Seq<char>, t: Seq<char>| #[trigger]
        sessions.contains_key(s) && #[trigger] sessions.contains_key(t) && sessions[s]
            == sessions[t] ==> s == t
}

/// What a second session of a user is refused with.
pub open spec fn already_logged_in() -> Seq<char> {
    "user already logged in from another session"@
}

impl AuthStore {
    /// No sessions.
    pub fn new() -> (r: Self)
        ensures
            r@ == Map::<Seq<char>, Seq<char>>::empty(),
    {
        let r = AuthStore { sessions: TextMap::new() };
        assert(r@ =~= Map::<Seq<char>, Seq<char>>::empty());
        r
    }
}

impl Default for AuthStore {
    fn default() -> (r: Self)
        ensures
            r@ == Map::<Seq<char>, Seq<char>>::empty(),
    {
        Self::new()
    }
}

/// The tokens that a list of entries gives a user.
spec fn picked(es: Seq<(String, String)>, user: Seq<char>) -> Seq<Seq<char>>
    decreases es.len(),
{
    if es.len() == 0 {
        Seq::empty()
    } else if es.last().1@ == user {
        picked(es.drop_last(), user).push(es.last().0@)
    } else {
        picked(es.drop_last(), user)
    }
}

proof fn lemma_picked(es: Seq<(String, String)>, user: Seq<char>)
    requires
        forall|i: int, j: int| 0 <= i < j < es.len() ==> #[trigger] es[i].0@ != #[trigger] es[j].0@,
    ensures
        picked(es, user).no_duplicates(),
        forall|t: Seq<char>| #[trigger]
            picked(es, user).contains(t) <==> exists|j: int|
                0 <= j < es.len() && #[trigger] es[j].0@ == t && es[j].1@ == user,
    decreases es.len(),
{
    if es.len() > 0 {
        let n = es.len() - 1;
        let fs = es.drop_last();
        let p = picked(fs, user);
        let q = picked(es, user);
        assert forall|i: int, j: int| 0 <= i < j < fs.len() implies #[trigger] fs[i].0@
            != #[trigger] fs[j].0@ by {
            assert(es[i].0@ != es[j].0@);
        }
        lemma_picked(fs, user);
        assert(!p.contains(es[n].0@)) by {
            if p.contains(es[n].0@) {
                let j = choose|j: int|
                    0 <= j < fs.len() && #[trigger] fs[j].0@ == es[n].0@ && fs[j].1@ == user;
                assert(es[j].0@ != es[n].0@);
            }
        }
        assert forall|t: Seq<char>| #[trigger] q.contains(t) <==> exists|j: int|
            0 <= j < es.len() && #[trigger] es[j].0@ == t && es[j].1@ == user by {
            if q.contains(t) {
                let k = q.index_of(t);
                if es[n].1@ == user && k == q.len() - 1 {
                    assert(es[n].0@ == t);
                } else {
                    assert(p[k] == t);
                    assert(p.contains(t));
                    let j = choose|j: int|
                        0 <= j < fs.len() && #[trigger] fs[j].0@ == t && fs[j].1@ == user;
                    assert(es[j].0@ == t);
                }
            }
            if exists|j: int| 0 <= j < es.len() && #[trigger] es[j].0@ == t && es[j].1@ == user {
                let j = choose|j: int|
                    0 <= j < es.len() && #[trigger] es[j].0@ == t && es[j].1@ == user;
                if j == n {
                    assert(q[q.len() - 1] == t);
                } else {
                    assert(fs[j].0@ == t);
                    assert(p.contains(t));
                    let k = p.index_of(t);
                    assert(q[k] == t);
                }
            }
        }
        assert(q.no_duplicates()) by {
            assert forall|i: int, j: int|
                0 <= i < q.len() && 0 <= j < q.len() && i != j implies q[i] != q[j] by {
                if es[n].1@ == user {
                    if i < p.len() {
                        assert(p[i] == q[i] && p.contains(p[i]));
                    }
                    if j < p.len() {
                        assert(p[j] == q[j] && p.contains(p[j]));
                    }
                }
            }
        }
    }
}

/// The tokens of a user, in no particular order.
fn tokens_of_user(store: &AuthStore, username: &str) -> (r: Vec<String>)
    ensures
        crate::text::texts(r@).no_duplicates(),
        crate::text::texts(r@).to_set() == tokens_of(store@, username@),
{
    let es = store.sessions.entries();
    let mut r: Vec<String> = Vec::new();
    let mut i: usize = 0;
    assert(crate::text::texts(r@) =~= picked(es@.take(0), username@));
    while i < es.len()
        invariant
            i <= es@.len(),
            crate::text::texts(r@) == picked(es@.take(i as int), username@),
        decreases es@.len() - i,
    {
        let ghost before = crate::text::texts(r@);
        assert(es@.take(i + 1).drop_last() == es@.take(i as int));
        if same_text(es[i].1.as_str(), username) {
            r.push(es[i].0.clone());
            assert(crate::text::texts(r@) =~= before.push(es@[i as int].0@));
        }
        i += 1;
    }
    proof {
        assert(es@.take(i as int) == es@);
        lemma_picked(es@, username@);
        let ts = crate::text::texts(r@);
        assert forall|t: Seq<char>|
            ts.to_set().contains(t) <==> tokens_of(store@, username@).contains(t) by {
            if ts.contains(t) {
                let j = choose|j: int|
                    0 <= j < es@.len() && #[trigger] es@[j].0@ == t && es@[j].1@ == username@;
                assert(store.sessions@.contains_key(es@[j].0@));
            }
            if tokens_of(store@, username@).contains(t) {
                assert(store.sessions@.contains_key(t));
                let j = choose|j: int| 0 <= j < es@.len() && #[trigger] es@[j].0@ == t;
                assert(store.sessions@[es@[j].0@] == es@[j].1);
            }
        }
        assert(ts.to_set() =~= tokens_of(store@, username@));
    }
    r
}

/// Whether a user has a session.
pub fn is_logged_in(store: &AuthStore, username: &str) -> (r: bool)
    ensures
        r == logged_in(store@, username@),
{
    let es = store.sessions.entries();
    let mut i: usize = 0;
    while i < es.len()
        invariant
            i <= es@.len(),
            es@.len() == store.sessions@.len(),
            forall|k: int|
                0 <= k < es@.len() ==> store.sessions@.contains_key(#[trigger] es@[k].0@)
                    && store.sessions@[es@[k].0@] == es@[k].1,
            forall|j: int| 0 <= j < i ==> (#[trigger] es@[j]).1@ != username@,
        decreases es@.len() - i,
    {
        if same_text(es[i].1.as_str(), username) {
            proof {
                let t = es@[i as int].0@;
                assert(store.sessions@.contains_key(t));
                assert(store@.contains_key(t) && store@[t] == username@);
            }
            return true;
        }
        i += 1;
    }
    proof {
        if logged_in(store@, username@) {
            let t = choose|t: Seq<char>| #[trigger]
                store@.contains_key(t) && store@[t] == username@;
            assert(store.sessions@.contains_key(t));
            let j = choose|j: int| 0 <= j < es@.len() && #[trigger] es@[j].0@ == t;
            assert(es@[j].1@ == username@);
        }
    }
    false
}

/// The user whose token this is.
pub fn get_user_by_token(store: &AuthStore, token: &str) -> (r: Option<String>)
    ensures
        crate::message::optional_text(r) == user_of(store@, token@),
{
    match store.sessions.get(token) {
        Some(u) => Some(u.clone()),
        None => None,
    }
}

fn put(store: &mut AuthStore, username: &str, token: &str)
    ensures
        final(store)@ == old(store)@.insert(token@, username@),
{
    let ghost before = store.sessions@;
    store.sessions.insert(token, username.to_owned());
    assert(store@ =~= before.map_values(|u: String| u@).insert(token@, username@));
}

/// Ends the session with a token.
pub fn invalidate_token(store: &mut AuthStore, token: &str)
    ensures
        final(store)@ == old(store)@.remove(token@),
{
    let ghost before = store.sessions@;
    let _ = store.sessions.remove(token);
    assert(store@ =~= before.map_values(|u: String| u@).remove(token@));
}

/// Ends every session of a user, and says how many there were.
pub fn invalidate_user_sessions(store: &mut AuthStore, username: &str) -> (r: usize)
    ensures
        final(store)@ == without_user(old(store)@, username@),
        r == tokens_of(old(store)@, username@).len(),
{
    let ghost before = store@;
    let tokens = tokens_of_user(store, username);
    let ghost ts = crate::text::texts(tokens@);
    proof {
        ts.unique_seq_to_set();
        assert(before.remove_keys(ts.take(0).to_set()) =~= before);
    }
    let mut i: usize = 0;
    while i < tokens.len()
        invariant
            i <= tokens@.len(),
            ts == crate::text::texts(tokens@),
            store@ == before.remove_keys(ts.take(i as int).to_set()),
        decreases tokens@.len() - i,
    {
        invalidate_token(store, tokens[i].as_str());
        proof {
            let a = ts.take(i as int);
            let b = ts.take(i + 1);
            assert(ts[i as int] == tokens@[i as int]@);
            assert(b == a.push(ts[i as int]));
            assert forall|t: Seq<char>|
                b.to_set().contains(t) <==> a.to_set().contains(t) || t == ts[i as int] by {
                if a.to_set().contains(t) {
                    let k = choose|k: int| 0 <= k < a.len() && a[k] == t;
                    assert(b[k] == t);
                }
                if b.to_set().contains(t) {
                    let k = choose|k: int| 0 <= k < b.len() && b[k] == t;
                    if k < a.len() {
                        assert(a[k] == t);
                    }
                }
                assert(b[i as int] == ts[i as int]);
            }
            assert(before.remove_keys(a.to_set()).remove(ts[i as int]) =~= before.remove_keys(
                b.to_set(),
            ));
        }
        i += 1;
    }
    assert(ts.take(ts.len() as int) == ts);
    tokens.len()
}

/// Gives a user a session in place of all the sessions that the user had.
pub fn insert_token(store: &mut AuthStore, username: &str, token: &str)
    ensures
        final(store)@ == without_user(old(store)@, username@).insert(token@, username@),
{
    let _ = invalidate_user_sessions(store, username);
    put(store, username, token);
}

/// Gives a user a session, if the user has none.
pub fn try_insert_token(store: &mut AuthStore, username: &str, token: &str) -> (r: Result<
    (),
    &'static str,
>)
    ensures
        match r {
            Ok(()) => !logged_in(old(store)@, username@) && final(store)@ == old(store)@.insert(
                token@,
                username@,
            ),
            Err(e) => logged_in(old(store)@, username@) && *final(store) == *old(store) && e@
                == already_logged_in(),
        },
{
    if is_logged_in(store, username) {
        return Err("user already logged in from another session");
    }
    put(store, username, token);
    Ok(())
}

/// Ends every session.
pub fn clear_sessions(store: &mut AuthStore)
    ensures
        final(store)@ == Map::<Seq<char>, Seq<char>>::empty(),
{
    store.sessions.clear();
    assert(store@ =~= Map::<Seq<char>, Seq<char>>::empty());
}

/// No operation gives a user a second session.
pub proof fn law_single_session(
    sessions: Map<Seq<char>, Seq<char>>,
    user: Seq<char>,
    token: Seq<char>,
)
    requires
        single_session(sessions),
    ensures
        single_session(Map::empty()),
        single_session(without_user(sessions, user).insert(token, user)),
        !logged_in(sessions, user) ==> single_session(sessions.insert(token, user)),
        single_session(sessions.remove(token)),
        single_session(without_user(sessions, user)),
{
    let m = without_user(sessions, user);
    assert forall|t: Seq<char>| #[trigger] m.contains_key(t) implies sessions.contains_key(t)
        && m[t] == sessions[t] && m[t] != user by {}
}

/// A user whose sessions were ended has none, and can be given one; everybody
/// else keeps theirs.
pub proof fn law_ended_sessions(
    sessions: Map<Seq<char>, Seq<char>>,
    user: Seq<char>,
    token: Seq<char>,
)
    ensures
        !logged_in(without_user(sessions, user), user),
        user_of(sessions, token) == Some(user) ==> user_of(without_user(sessions, user), token)
            is None,
        user_of(sessions, token) != Some(user) ==> user_of(without_user(sessions, user), token)
            == user_of(sessions, token),
{
}

/// A session belongs to one user, who is logged in as long as there is one; sessions of
/// others do not count.
pub proof fn law_sessions(
    sessions: Map<Seq<char>, Seq<char>>,
    token: Seq<char>,
    user: Seq<char>,
    other: Seq<char>,
)
    ensures
        user_of(sessions, token) == Some(user) ==> logged_in(sessions, user),
        user_of(sessions, token) == Some(user) <==> tokens_of(sessions, user).contains(token),
        logged_in(sessions, user) <==> exists|t: Seq<char>| #[trigger]
            tokens_of(sessions, user).contains(t),
        user_of(sessions.insert(token, user), token) == Some(user),
        other != token ==> user_of(sessions.insert(token, user), other) == user_of(sessions, other),
        user_of(sessions.remove(token), token) is None,
        user_of(Map::empty(), token) is None,
{
    if logged_in(sessions, user) {
        let t = choose|t: Seq<char>| #[trigger] sessions.contains_key(t) && sessions[t] == user;
        assert(tokens_of(sessions, user).contains(t));
    }
    if exists|t: Seq<char>| #[trigger] tokens_of(sessions, user).contains(t) {
        let t = choose|t: Seq<char>| #[trigger] tokens_of(sessions, user).contains(t);
        assert(sessions.contains_key(t) && sessions[t] == user);
    }
}

} // verus!
