//! Properties that relate several operations of the store.
use crate::state::{
    credentials_match, has_token, has_username, is_target, keeps_tokens, kept, login_token,
    offered_at, targets, Listener,
};
use crate::user::User;
use vstd::prelude::*;

verus! {

/// Once an account with some username is added, that username is taken:
/// a second registration with it is refused as a conflict.
pub proof fn lemma_username_taken_after_register(users: Seq<(String, User)>, e: (String, User))
    ensures
        has_username(users.push(e), e.1.username@),
{
    assert(users.push(e)[users.len() as int] == e);
}

/// An account added under a fresh username logs in with its own credentials
/// and gets back its token; with any other password the login fails.
pub proof fn lemma_login_after_register(users: Seq<(String, User)>, e: (String, User), other: Seq<char>)
    requires
        !has_username(users, e.1.username@),
    ensures
        login_token(users.push(e), e.1.username@, e.1.password@) == Some(e.0@),
        other != e.1.password@ ==> login_token(users.push(e), e.1.username@, other) is None,
    decreases users.len(),
{
    if users.len() > 0 {
        assert(users.push(e).drop_first() =~= users.drop_first().push(e));
        assert(users[0] == users.push(e)[0]);
        assert(!has_username(users.drop_first(), e.1.username@)) by {
            if has_username(users.drop_first(), e.1.username@) {
                let i = choose|i: int| 0 <= i < users.drop_first().len() && #[trigger] users.drop_first()[i].1.username@ == e.1.username@;
                assert(users[i + 1].1.username@ == e.1.username@);
            }
        }
        assert(users[0].1.username@ != e.1.username@) by {
            if users[0].1.username@ == e.1.username@ {
                assert(has_username(users, e.1.username@));
            }
        }
        lemma_login_after_register(users.drop_first(), e, other);
    } else {
        assert(users.push(e).drop_first() =~= Seq::<(String, User)>::empty());
        assert(users.push(e)[0] == e);
        assert(login_token(users.push(e).drop_first(), e.1.username@, other) is None);
    }
}

/// Adding an account leaves every earlier successful login as it was.
pub proof fn lemma_login_kept_by_register(
    users: Seq<(String, User)>,
    e: (String, User),
    name: Seq<char>,
    password: Seq<char>,
)
    requires
        login_token(users, name, password) is Some,
    ensures
        login_token(users.push(e), name, password) == login_token(users, name, password),
    decreases users.len(),
{
    assert(users.push(e)[0] == users[0]);
    if !credentials_match(users[0], name, password) {
        assert(users.push(e).drop_first() =~= users.drop_first().push(e));
        lemma_login_kept_by_register(users.drop_first(), e, name, password);
    }
}

/// After an account is added its token is a key of the store, and every
/// earlier key still is.
pub proof fn lemma_tokens_kept_by_register(users: Seq<(String, User)>, e: (String, User), t: Seq<char>)
    ensures
        has_token(users.push(e), e.0@),
        has_token(users, t) ==> has_token(users.push(e), t),
{
    assert(users.push(e)[users.len() as int] == e);
    if has_token(users, t) {
        let i = choose|i: int| 0 <= i < users.len() && #[trigger] users[i].0@ == t;
        assert(users.push(e)[i] == users[i]);
    }
}

/// Tokens do not expire: along any run of operations on the store, each of
/// which keeps the earlier tokens (as every operation that changes the
/// accounts states), a token that is a key at some point is a key at every
/// later point.
pub proof fn lemma_token_never_expires(history: Seq<Seq<(String, User)>>, t: Seq<char>, from: int, to: int)
    requires
        forall|i: int| 0 <= i < history.len() - 1 ==> keeps_tokens(#[trigger] history[i], history[i + 1]),
        0 <= from <= to < history.len(),
        has_token(history[from], t),
    ensures
        has_token(history[to], t),
    decreases to - from,
{
    if from < to {
        assert(keeps_tokens(history[from], history[from + 1]));
        lemma_token_never_expires(history, t, from + 1, to);
    }
}

/// A push reaches exactly the listeners that are open and, when restricted
/// to a user, owned by that user, each once and in registry order.
pub proof fn lemma_targets_exact(ls: Seq<Listener>, closed: Seq<bool>, user: Option<Seq<char>>)
    requires
        closed.len() == ls.len(),
        ls.len() <= usize::MAX,
    ensures
        forall|i: int| 0 <= i < ls.len() ==>
            (targets(ls, closed, user).contains(i as usize) <==> is_target(ls[i], closed[i], user)),
        forall|k: int| 0 <= k < targets(ls, closed, user).len() ==> #[trigger] targets(ls, closed, user)[k] < ls.len(),
        forall|a: int, b: int| 0 <= a < b < targets(ls, closed, user).len() ==>
            targets(ls, closed, user)[a] < targets(ls, closed, user)[b],
    decreases ls.len(),
{
    if ls.len() > 0 {
        let n = ls.len() - 1;
        let lsd = ls.drop_last();
        let cd = closed.take(n);
        lemma_targets_exact(lsd, cd, user);
        let rest = targets(lsd, cd, user);
        let all = targets(ls, closed, user);
        assert forall|i: int| 0 <= i < ls.len() implies
            (all.contains(i as usize) <==> is_target(ls[i], closed[i], user)) by {
            if i < n {
                assert(lsd[i] == ls[i]);
                assert(cd[i] == closed[i]);
                if all.contains(i as usize) {
                    let k = choose|k: int| 0 <= k < all.len() && all[k] == i as usize;
                    if k < rest.len() {
                        assert(rest[k] == i as usize);
                    }
                }
                if rest.contains(i as usize) {
                    let k = choose|k: int| 0 <= k < rest.len() && rest[k] == i as usize;
                    assert(all[k] == i as usize);
                }
            } else {
                if all.contains(i as usize) {
                    let k = choose|k: int| 0 <= k < all.len() && all[k] == i as usize;
                    if k < rest.len() {
                        assert(rest[k] < n);
                    }
                }
                if is_target(ls[i], closed[i], user) {
                    assert(all[rest.len() as int] == i as usize);
                }
            }
        }
        assert forall|k: int| 0 <= k < all.len() implies #[trigger] all[k] < ls.len() by {
            if k < rest.len() {
                assert(rest[k] < n);
            }
        }
        assert forall|a: int, b: int| 0 <= a < b < all.len() implies all[a] < all[b] by {
            if b < rest.len() {
                assert(rest[a] < rest[b]);
            } else {
                assert(rest[a] < n);
            }
        }
    }
}

/// What a push leaves in each listener's log: the message once more where
/// the listener was seen open and (for a push to one user) is owned by that
/// user, and nothing new anywhere else, so neither a closed listener nor one
/// of another user is offered anything.
pub proof fn lemma_push_reaches_exactly(
    before: Seq<Listener>,
    after: Seq<Listener>,
    closed: Seq<bool>,
    user: Option<Seq<char>>,
    msg: Seq<u8>,
)
    requires
        closed.len() == before.len(),
        before.len() <= usize::MAX,
        offered_at(before, after, targets(before, closed, user), msg),
    ensures
        after.len() == before.len(),
        forall|p: int| 0 <= p < before.len() ==> (#[trigger] after[p]).offered@ == if is_target(before[p], closed[p], user) {
            before[p].offered@.push(msg)
        } else {
            before[p].offered@
        },
{
    lemma_targets_exact(before, closed, user);
    assert forall|p: int| 0 <= p < before.len() implies (#[trigger] after[p]).offered@ == if is_target(before[p], closed[p], user) {
        before[p].offered@.push(msg)
    } else {
        before[p].offered@
    } by {
        assert(targets(before, closed, user).contains(p as usize) <==> is_target(before[p], closed[p], user));
    }
}

/// A sweep keeps, in order, exactly the listeners that a push to everyone
/// would reach: those whose channels were seen open.
pub proof fn lemma_sweep_keeps_open(ls: Seq<Listener>, closed: Seq<bool>)
    requires
        closed.len() == ls.len(),
        ls.len() <= usize::MAX,
    ensures
        kept(ls, closed) == targets(ls, closed, None).map_values(|i: usize| ls[i as int]),
    decreases ls.len(),
{
    if ls.len() > 0 {
        let n = ls.len() - 1;
        let lsd = ls.drop_last();
        let cd = closed.take(n);
        lemma_sweep_keeps_open(lsd, cd);
        lemma_targets_exact(lsd, cd, None);
        let rest = targets(lsd, cd, None);
        assert(rest.map_values(|i: usize| lsd[i as int]) =~= rest.map_values(|i: usize| ls[i as int]));
        if !closed[n] {
            assert(rest.push(n as usize).map_values(|i: usize| ls[i as int]) =~= rest.map_values(
                |i: usize| ls[i as int],
            ).push(ls.last()));
        }
    } else {
        assert(targets(ls, closed, None).map_values(|i: usize| ls[i as int]) =~= Seq::<Listener>::empty());
    }
}

} // verus!
