//! The state store: accounts keyed by session token, reports, threads, and
//! the registry of open streams.
use crate::channel::{offer_chunk, MAX_CAPACITY};
use crate::laws::lemma_targets_exact;
use crate::report::Report;
use crate::thread::Thread;
use crate::token::{bits_of, generate_epicos_tokens, hex_of, sha256_hex};
use crate::stream::StreamPayload;
use crate::user::{is_profile_of, AccessLevel, ToStrUser, User};
use vstd::prelude::*;

verus! {

/// One open stream: where its chunks go, and the id it was opened for.
pub struct Listener {
    pub sender: tokio::sync::mpsc::Sender<Vec<u8>>,
    pub owner: String,
    /// Every chunk offered on this channel so far, in order.
    pub offered: Ghost<Seq<Seq<u8>>>,
}

/// `after` is `before` with `msg` offered once more to each listener at a
/// position in `idx`, and nothing offered to any other; senders and owners
/// are kept.
pub open spec fn offered_at(before: Seq<Listener>, after: Seq<Listener>, idx: Seq<usize>, msg: Seq<u8>) -> bool {
    &&& after.len() == before.len()
    &&& forall|p: int| 0 <= p < before.len() ==> {
        &&& (#[trigger] after[p]).sender == before[p].sender
        &&& after[p].owner == before[p].owner
        &&& after[p].offered@ == if idx.contains(p as usize) {
            before[p].offered@.push(msg)
        } else {
            before[p].offered@
        }
    }
}

/// Why a registration was refused.
#[derive(Clone, Copy, Debug, PartialEq, Eq, Structural)]
pub enum RegisterError {
    /// An account with this username exists already.
    Conflict,
    /// The freshly drawn token already names another account.
    TokenTaken,
}

/// How many tokens a registration draws, one after another, while the drawn
/// token already names an account (tokens come from the clock, in milliseconds).
pub const TOKEN_ATTEMPTS: u32 = 1000000;

/// Starts the background task that sweeps dead listeners out of a shared
/// store: every cycle takes the write lock and calls `State::sweep`, which
/// drops exactly the listeners whose receiving ends have gone.
pub trait PingLoop {
    fn start_ping_loop(&self);
}

/// The whole shared aggregate. Accounts are keyed by their session token.
pub struct State {
    pub users: Vec<(String, User)>,
    pub reports: Vec<Report>,
    pub threads: Vec<Thread>,
    pub listeners: Vec<Listener>,
}

/// No two accounts share a token.
pub open spec fn tokens_unique(users: Seq<(String, User)>) -> bool {
    forall|i: int, j: int|
        0 <= i < j < users.len() ==> #[trigger] users[i].0@ != #[trigger] users[j].0@
}

/// No two accounts share a username.
pub open spec fn usernames_unique(users: Seq<(String, User)>) -> bool {
    forall|i: int, j: int|
        0 <= i < j < users.len() ==> #[trigger] users[i].1.username@ != #[trigger] users[j].1.username@
}

/// Every token that is a key of `before` is still a key of `after`.
pub open spec fn keeps_tokens(before: Seq<(String, User)>, after: Seq<(String, User)>) -> bool {
    forall|t: Seq<char>| has_token(before, t) ==> #[trigger] has_token(after, t)
}

/// The token drawn from the clock at some millisecond.
pub open spec fn is_clock_token(t: Seq<char>) -> bool {
    exists|m: i64| t == sha256_hex(hex_of(bits_of(m)))
}

/// Some account is stored under `token`.
pub open spec fn has_token(users: Seq<(String, User)>, token: Seq<char>) -> bool {
    exists|i: int| 0 <= i < users.len() && #[trigger] users[i].0@ == token
}

/// Some account has this username.
pub open spec fn has_username(users: Seq<(String, User)>, name: Seq<char>) -> bool {
    exists|i: int| 0 <= i < users.len() && #[trigger] users[i].1.username@ == name
}

/// The account entry has exactly these credentials.
pub open spec fn credentials_match(e: (String, User), name: Seq<char>, password: Seq<char>) -> bool {
    e.1.username@ == name && e.1.password@ == password
}

/// The token of the first account, in order, with these credentials.
pub open spec fn login_token(users: Seq<(String, User)>, name: Seq<char>, password: Seq<char>) -> Option<Seq<char>>
    decreases users.len(),
{
    if users.len() == 0 {
        None
    } else if credentials_match(users[0], name, password) {
        Some(users[0].0@)
    } else {
        login_token(users.drop_first(), name, password)
    }
}

/// The entry is a new plain account with these fields, stored under `token`.
pub open spec fn is_new_account(
    e: (String, User),
    token: Seq<char>,
    name: Seq<char>,
    password: Seq<char>,
    uuid: Seq<char>,
) -> bool {
    &&& e.0@ == token
    &&& e.1.username@ == name
    &&& e.1.password@ == password
    &&& e.1.uuid@ == uuid
    &&& e.1.access_level == AccessLevel::User
}

/// The listener may receive a push meant for `user` (for everyone, if `None`).
pub open spec fn is_target(l: Listener, closed: bool, user: Option<Seq<char>>) -> bool {
    !closed && (user matches Some(u) ==> l.owner@ == u)
}

/// The owner a push is restricted to, as text.
pub open spec fn owner_view(user_id: Option<&String>) -> Option<Seq<char>> {
    match user_id {
        Some(u) => Some(u@),
        None => None,
    }
}

/// In order, the positions of the listeners that a push reaches, given which
/// channels were seen closed.
pub open spec fn targets(ls: Seq<Listener>, closed: Seq<bool>, user: Option<Seq<char>>) -> Seq<usize>
    decreases ls.len(),
{
    if ls.len() == 0 {
        seq![]
    } else {
        let rest = targets(ls.drop_last(), closed.take(ls.len() - 1), user);
        if is_target(ls.last(), closed[ls.len() - 1], user) {
            rest.push((ls.len() - 1) as usize)
        } else {
            rest
        }
    }
}

/// The listeners that stay after a sweep, given which channels were seen closed.
pub open spec fn kept(ls: Seq<Listener>, closed: Seq<bool>) -> Seq<Listener>
    decreases ls.len(),
{
    if ls.len() == 0 {
        seq![]
    } else {
        let rest = kept(ls.drop_last(), closed.take(ls.len() - 1));
        if closed[ls.len() - 1] {
            rest
        } else {
            rest.push(ls.last())
        }
    }
}

/// The reports opened by the user with id `uuid`, in order.
pub open spec fn own_reports(rs: Seq<Report>, uuid: Seq<char>) -> Seq<Report>
    decreases rs.len(),
{
    if rs.len() == 0 {
        seq![]
    } else {
        let rest = own_reports(rs.drop_last(), uuid);
        if rs.last().user_uuid@ == uuid {
            rest.push(rs.last())
        } else {
            rest
        }
    }
}

/// `refs` points, in order, at the reports of `rs`.
pub open spec fn refers_to(refs: Seq<&Report>, rs: Seq<Report>) -> bool {
    &&& refs.len() == rs.len()
    &&& forall|i: int| 0 <= i < refs.len() ==> #[trigger] refs[i] == rs[i]
}

/// `ns` pairs each account's id with its username, in the accounts' order.
pub open spec fn is_nicknames_of(ns: Seq<(&str, &str)>, users: Seq<(String, User)>) -> bool {
    &&& ns.len() == users.len()
    &&& forall|i: int| 0 <= i < ns.len() ==> {
        &&& (#[trigger] ns[i]).0@ == users[i].1.uuid@
        &&& ns[i].1@ == users[i].1.username@
    }
}

/// `ps` holds the public profile of each account, in the accounts' order.
pub open spec fn is_profiles_of(ps: Seq<ToStrUser>, users: Seq<(String, User)>) -> bool {
    &&& ps.len() == users.len()
    &&& forall|i: int| 0 <= i < ps.len() ==> is_profile_of(#[trigger] ps[i], users[i].1)
}

/// The first chunk for `u`: an administrator sees every account and every
/// report; anyone else sees their own profile, their own reports, and the
/// username of each account id.
pub open spec fn is_payload_for(st: State, u: User, p: StreamPayload) -> bool {
    if u.access_level == AccessLevel::Admin {
        match p {
            StreamPayload::ReadyAdmin { id, users, reports } => {
                &&& id@ == u.uuid@
                &&& is_profiles_of(users@, st.users@)
                &&& *reports == st.reports
            },
            _ => false,
        }
    } else {
        match p {
            StreamPayload::Ready { user, reports, nicknames } => {
                &&& is_profile_of(user, u)
                &&& refers_to(reports@, own_reports(st.reports@, u.uuid@))
                &&& is_nicknames_of(nicknames@, st.users@)
            },
            _ => false,
        }
    }
}

impl State {
    /// The store's invariant: tokens identify accounts, and so do usernames.
    pub open spec fn wf(&self) -> bool {
        tokens_unique(self.users@) && usernames_unique(self.users@)
    }

    /// An empty store.
    pub fn new() -> (r: State)
        ensures
            r.wf(),
            r.users@.len() == 0,
            r.reports@.len() == 0,
            r.threads@.len() == 0,
            r.listeners@.len() == 0,
    {
        State { users: Vec::new(), reports: Vec::new(), threads: Vec::new(), listeners: Vec::new() }
    }

    /// A store holding a loaded snapshot, or `None` if two accounts share a
    /// token or a username.
    pub fn from_snapshot(users: Vec<(String, User)>, reports: Vec<Report>, threads: Vec<Thread>) -> (r: Option<State>)
        ensures
            r is Some <==> tokens_unique(users@) && usernames_unique(users@),
            r matches Some(st) ==> {
                &&& st.wf()
                &&& st.users@ == users@
                &&& st.reports@ == reports@
                &&& st.threads@ == threads@
                &&& st.listeners@.len() == 0
            },
    {
        let n = users.len();
        let mut i: usize = 0;
        while i < n
            invariant
                n == users@.len(),
                0 <= i <= n,
                forall|a: int, b: int| 0 <= a < b < n && a < i ==> users@[a].0@ != users@[b].0@,
                forall|a: int, b: int| 0 <= a < b < n && a < i ==> users@[a].1.username@ != users@[b].1.username@,
            decreases n - i,
        {
            let mut j: usize = i + 1;
            while j < n
                invariant
                    n == users@.len(),
                    0 <= i < n,
                    i + 1 <= j <= n,
                    forall|a: int, b: int| 0 <= a < b < n && a < i ==> users@[a].0@ != users@[b].0@,
                    forall|a: int, b: int| 0 <= a < b < n && a < i ==> users@[a].1.username@ != users@[b].1.username@,
                    forall|b: int| i < b < j ==> users@[i as int].0@ != users@[b].0@,
                    forall|b: int| i < b < j ==> users@[i as int].1.username@ != users@[b].1.username@,
                decreases n - j,
            {
                if users[i].0 == users[j].0 || users[i].1.username == users[j].1.username {
                    return None;
                }
                j += 1;
            }
            i += 1;
        }
        Some(State { users, reports, threads, listeners: Vec::new() })
    }

    /// Whether an account with this username exists.
    pub fn contains_username(&self, name: &String) -> (r: bool)
        ensures
            r == has_username(self.users@, name@),
    {
        let mut i: usize = 0;
        while i < self.users.len()
            invariant
                0 <= i <= self.users@.len(),
                forall|j: int| 0 <= j < i ==> self.users@[j].1.username@ != name@,
            decreases self.users@.len() - i,
        {
            if self.users[i].1.username == *name {
                return true;
            }
            i += 1;
        }
        false
    }

    /// The position of the account stored under `token`, if any.
    pub fn find_token(&self, token: &String) -> (r: Option<usize>)
        ensures
            r is None <==> !has_token(self.users@, token@),
            r matches Some(i) ==> i < self.users@.len() && self.users@[i as int].0@ == token@,
    {
        let mut i: usize = 0;
        while i < self.users.len()
            invariant
                0 <= i <= self.users@.len(),
                forall|j: int| 0 <= j < i ==> self.users@[j].0@ != token@,
            decreases self.users@.len() - i,
        {
            if self.users[i].0 == *token {
                return Some(i);
            }
            i += 1;
        }
        None
    }

    /// The account stored under `token`, if any.
    pub fn lookup(&self, token: &String) -> (r: Option<&User>)
        ensures
            r is None <==> !has_token(self.users@, token@),
            r matches Some(u) ==> exists|i: int|
                0 <= i < self.users@.len() && self.users@[i].0@ == token@ && self.users@[i].1 == *u,
    {
        match self.find_token(token) {
            Some(i) => Some(&self.users[i].1),
            None => None,
        }
    }

    /// The token of the first account with exactly these credentials.
    pub fn authenticate(&self, username: &String, password: &String) -> (r: Option<String>)
        ensures
            r matches Some(t) ==> login_token(self.users@, username@, password@) == Some(t@),
            r is None ==> login_token(self.users@, username@, password@) is None,
    {
        let mut i: usize = 0;
        assert(self.users@.subrange(0, self.users@.len() as int) =~= self.users@);
        while i < self.users.len()
            invariant
                0 <= i <= self.users@.len(),
                login_token(self.users@, username@, password@) == login_token(
                    self.users@.subrange(i as int, self.users@.len() as int),
                    username@,
                    password@,
                ),
            decreases self.users@.len() - i,
        {
            let ghost rest = self.users@.subrange(i as int, self.users@.len() as int);
            assert(rest.drop_first() =~= self.users@.subrange(i + 1, self.users@.len() as int));
            let entry = &self.users[i];
            if entry.1.username == *username && entry.1.password == *password {
                return Some(entry.0.clone());
            }
            i += 1;
        }
        None
    }

    /// Adds a plain account under `token`, unless the username or the token
    /// is taken already; returns the token.
    pub fn register_with(&mut self, username: String, password: String, token: String, uuid: String) -> (r: Result<String, RegisterError>)
        requires
            old(self).wf(),
        ensures
            final(self).wf(),
            r == Err::<String, RegisterError>(RegisterError::Conflict) <==> has_username(old(self).users@, username@),
            r == Err::<String, RegisterError>(RegisterError::TokenTaken) <==> !has_username(old(self).users@, username@)
                && has_token(old(self).users@, token@),
            r is Ok <==> !has_username(old(self).users@, username@) && !has_token(old(self).users@, token@),
            r is Err ==> *final(self) == *old(self),
            keeps_tokens(old(self).users@, final(self).users@),
            r matches Ok(t) ==> {
                &&& t@ == token@
                &&& final(self).users@.len() == old(self).users@.len() + 1
                &&& final(self).users@.drop_last() == old(self).users@
                &&& is_new_account(final(self).users@.last(), token@, username@, password@, uuid@)
                &&& final(self).reports == old(self).reports
                &&& final(self).threads == old(self).threads
                &&& final(self).listeners == old(self).listeners
            },
    {
        if self.contains_username(&username) {
            return Err(RegisterError::Conflict);
        }
        if self.find_token(&token).is_some() {
            return Err(RegisterError::TokenTaken);
        }
        let user = User::with_uuid(username, password, uuid);
        let key = token.clone();
        self.users.push((key, user));
        assert(self.users@.drop_last() =~= old(self).users@);
        assert forall|i: int, j: int| 0 <= i < j < self.users@.len() implies
            #[trigger] self.users@[i].0@ != #[trigger] self.users@[j].0@ by {
            assert(self.users@[i] == old(self).users@[i]);
            if j < old(self).users@.len() {
                assert(self.users@[j] == old(self).users@[j]);
            }
        }
        assert forall|t: Seq<char>| has_token(old(self).users@, t) implies #[trigger] has_token(self.users@, t) by {
            let i = choose|i: int| 0 <= i < old(self).users@.len() && #[trigger] old(self).users@[i].0@ == t;
            assert(self.users@[i] == old(self).users@[i]);
        }
        Ok(token)
    }

    /// Adds a plain account with a fresh token and a fresh id, unless the
    /// username is taken; returns the token. Fails with `TokenTaken` only if
    /// every token drawn names an account already.
    pub fn register_user(&mut self, username: String, password: String) -> (r: Result<String, RegisterError>)
        requires
            old(self).wf(),
        ensures
            final(self).wf(),
            r == Err::<String, RegisterError>(RegisterError::Conflict) <==> has_username(old(self).users@, username@),
            !has_username(old(self).users@, username@) ==> r is Ok || r == Err::<String, RegisterError>(
                RegisterError::TokenTaken,
            ),
            r == Err::<String, RegisterError>(RegisterError::TokenTaken) ==> exists|m: i64|
                has_token(old(self).users@, #[trigger] sha256_hex(hex_of(bits_of(m)))),
            r is Err ==> *final(self) == *old(self),
            keeps_tokens(old(self).users@, final(self).users@),
            r matches Ok(t) ==> {
                &&& t@.len() == 64
                &&& is_clock_token(t@)
                &&& final(self).users@.len() == old(self).users@.len() + 1
                &&& final(self).users@.drop_last() == old(self).users@
                &&& final(self).users@.last().0@ == t@
                &&& final(self).users@.last().1.username@ == username@
                &&& final(self).users@.last().1.password@ == password@
                &&& final(self).users@.last().1.uuid@.len() == 36
                &&& final(self).users@.last().1.access_level == AccessLevel::User
                &&& final(self).reports == old(self).reports
                &&& final(self).threads == old(self).threads
                &&& final(self).listeners == old(self).listeners
            },
    {
        if self.contains_username(&username) {
            return Err(RegisterError::Conflict);
        }
        let mut token = generate_epicos_tokens();
        let mut attempts: u32 = 1;
        while attempts < TOKEN_ATTEMPTS && self.find_token(&token).is_some()
            invariant
                token@.len() == 64,
                is_clock_token(token@),
                *self == *old(self),
            decreases TOKEN_ATTEMPTS - attempts,
        {
            token = generate_epicos_tokens();
            attempts += 1;
        }
        let user = User::new(username, password);
        let ghost drawn = token@;
        let r = self.register_with(user.username, user.password, token, user.uuid);
        proof {
            if r == Err::<String, RegisterError>(RegisterError::TokenTaken) {
                let m = choose|m: i64| drawn == sha256_hex(hex_of(bits_of(m)));
                assert(has_token(old(self).users@, sha256_hex(hex_of(bits_of(m)))));
            }
        }
        r
    }

    /// Registers a new listener for `user_id` on a fresh channel of
    /// `capacity` chunks, queues `first` on it, and returns the receiving end.
    pub fn attach_listener(&mut self, user_id: String, capacity: usize, first: Vec<u8>) -> (r: tokio::sync::mpsc::Receiver<Vec<u8>>)
        requires
            0 < capacity <= MAX_CAPACITY,
        ensures
            final(self).listeners@.len() == old(self).listeners@.len() + 1,
            final(self).listeners@.drop_last() == old(self).listeners@,
            final(self).listeners@.last().owner@ == user_id@,
            final(self).listeners@.last().offered@ == seq![first@],
            final(self).users == old(self).users,
            final(self).reports == old(self).reports,
            final(self).threads == old(self).threads,
    {
        let (tx, rx) = tokio::sync::mpsc::channel(capacity);
        let mut listener = Listener { sender: tx, owner: user_id, offered: Ghost(Seq::empty()) };
        let _ = offer_chunk(&mut listener, first);
        self.listeners.push(listener);
        assert(self.listeners@.drop_last() =~= old(self).listeners@);
        rx
    }

    /// Opens a stream for `user_id`: a listener on a channel of eight chunks,
    /// confirmed by a first `test` chunk.
    pub fn new_stream(&mut self, user_id: String) -> (r: tokio::sync::mpsc::Receiver<Vec<u8>>)
        ensures
            final(self).listeners@.len() == old(self).listeners@.len() + 1,
            final(self).listeners@.drop_last() == old(self).listeners@,
            final(self).listeners@.last().owner@ == user_id@,
            final(self).listeners@.last().offered@ == seq![seq![116u8, 101u8, 115u8, 116u8]],
            final(self).users == old(self).users,
            final(self).reports == old(self).reports,
            final(self).threads == old(self).threads,
    {
        let handshake: Vec<u8> = vec![116u8, 101u8, 115u8, 116u8];
        proof {
            let m = usize::MAX;
            assert(m >= 0xffff_ffff);
            assert(m >> 3 >= 8) by (bit_vector)
                requires
                    m >= 0xffff_ffff,
            ;
        }
        self.attach_listener(user_id, 8, handshake)
    }

    /// Which listeners a push reaches, given which channels were seen closed:
    /// every open one owned by `user_id`, or every open one if `None`.
    pub fn select_targets(&self, closed: &Vec<bool>, user_id: Option<&String>) -> (r: Vec<usize>)
        requires
            closed@.len() == self.listeners@.len(),
        ensures
            r@ == targets(self.listeners@, closed@, owner_view(user_id)),
    {
        let ghost user = owner_view(user_id);
        let mut r: Vec<usize> = Vec::new();
        let mut i: usize = 0;
        while i < self.listeners.len()
            invariant
                0 <= i <= self.listeners@.len(),
                closed@.len() == self.listeners@.len(),
                user == owner_view(user_id),
                r@ == targets(self.listeners@.take(i as int), closed@.take(i as int), user),
            decreases self.listeners@.len() - i,
        {
            let ghost ls = self.listeners@.take(i + 1);
            assert(ls.drop_last() =~= self.listeners@.take(i as int));
            assert(closed@.take(i + 1).take(i as int) =~= closed@.take(i as int));
            let hit = match user_id {
                Some(u) => !closed[i] && self.listeners[i].owner == *u,
                None => !closed[i],
            };
            assert(ls.last() == self.listeners@[i as int]);
            assert(closed@.take(i + 1)[i as int] == closed@[i as int]);
            assert(hit == is_target(ls.last(), closed@[i as int], user));
            if hit {
                r.push(i);
            }
            i += 1;
        }
        assert(self.listeners@.take(self.listeners@.len() as int) =~= self.listeners@);
        assert(closed@.take(closed@.len() as int) =~= closed@);
        r
    }

    /// Looks at each listener's channel and says which are closed.
    fn closed_flags(&self) -> (r: Vec<bool>)
        ensures
            r@.len() == self.listeners@.len(),
    {
        let mut r: Vec<bool> = Vec::new();
        let mut i: usize = 0;
        while i < self.listeners.len()
            invariant
                0 <= i <= self.listeners@.len(),
                r@.len() == i,
            decreases self.listeners@.len() - i,
        {
            r.push(self.listeners[i].sender.is_closed());
            i += 1;
        }
        r
    }

    /// Offers `message` to each listener at a position in `indices`; a full
    /// or closed channel drops it.
    fn send_each(&mut self, indices: &Vec<usize>, message: &Vec<u8>)
        requires
            forall|k: int| 0 <= k < indices@.len() ==> #[trigger] indices@[k] < old(self).listeners@.len(),
            forall|a: int, b: int| 0 <= a < b < indices@.len() ==> indices@[a] < indices@[b],
        ensures
            offered_at(old(self).listeners@, final(self).listeners@, indices@, message@),
            final(self).users == old(self).users,
            final(self).reports == old(self).reports,
            final(self).threads == old(self).threads,
    {
        let ghost before = self.listeners@;
        let _ = self.listeners.len();
        let mut k: usize = 0;
        while k < indices.len()
            invariant
                0 <= k <= indices@.len(),
                before == old(self).listeners@,
                before.len() <= usize::MAX,
                forall|j: int| 0 <= j < indices@.len() ==> #[trigger] indices@[j] < before.len(),
                forall|a: int, b: int| 0 <= a < b < indices@.len() ==> indices@[a] < indices@[b],
                offered_at(before, self.listeners@, indices@.take(k as int), message@),
                self.users == old(self).users,
                self.reports == old(self).reports,
                self.threads == old(self).threads,
            decreases indices@.len() - k,
        {
            let i = indices[k];
            let chunk = message.clone();
            assert(chunk@ =~= message@);
            let ghost mid = self.listeners@;
            let _ = offer_chunk(&mut self.listeners[i], chunk);
            let ghost done = indices@.take(k as int);
            assert(indices@.take(k + 1) =~= done.push(i));
            assert(!done.contains(i)) by {
                if done.contains(i) {
                    let a = choose|a: int| 0 <= a < done.len() && done[a] == i;
                    assert(indices@[a] < indices@[k as int]);
                }
            }
            assert forall|p: int| 0 <= p < before.len() implies {
                &&& (#[trigger] self.listeners@[p]).sender == before[p].sender
                &&& self.listeners@[p].owner == before[p].owner
                &&& self.listeners@[p].offered@ == if indices@.take(k + 1).contains(p as usize) {
                    before[p].offered@.push(message@)
                } else {
                    before[p].offered@
                }
            } by {
                let q = p as usize;
                let dp = done.push(i);
                if dp.contains(q) {
                    let a = choose|a: int| 0 <= a < dp.len() && dp[a] == q;
                    if a < done.len() {
                        assert(done[a] == q);
                    }
                }
                if done.contains(q) {
                    let a = choose|a: int| 0 <= a < done.len() && done[a] == q;
                    assert(dp[a] == q);
                }
                if q == i {
                    assert(dp[done.len() as int] == q);
                }
                if p != i {
                    assert(self.listeners@[p] == mid[p]);
                }
            }
            k += 1;
        }
        assert(indices@.take(indices@.len() as int) =~= indices@);
    }

    /// Offers `message` to every listener whose channel is open; returns
    /// their positions.
    pub fn broadcast(&mut self, message: &Vec<u8>) -> (r: Vec<usize>)
        ensures
            exists|closed: Seq<bool>|
                closed.len() == old(self).listeners@.len() && r@ == targets(old(self).listeners@, closed, None),
            offered_at(old(self).listeners@, final(self).listeners@, r@, message@),
            final(self).users == old(self).users,
            final(self).reports == old(self).reports,
            final(self).threads == old(self).threads,
    {
        let closed = self.closed_flags();
        let r = self.select_targets(&closed, None);
        let _ = self.listeners.len();
        proof { lemma_targets_exact(self.listeners@, closed@, None); }
        self.send_each(&r, message);
        r
    }

    /// Offers `message` to every listener of `user_id` whose channel is
    /// open; returns their positions.
    pub fn broadcast_to(&mut self, user_id: &String, message: &Vec<u8>) -> (r: Vec<usize>)
        ensures
            exists|closed: Seq<bool>|
                closed.len() == old(self).listeners@.len() && r@ == targets(
                    old(self).listeners@,
                    closed,
                    Some(user_id@),
                ),
            offered_at(old(self).listeners@, final(self).listeners@, r@, message@),
            final(self).users == old(self).users,
            final(self).reports == old(self).reports,
            final(self).threads == old(self).threads,
    {
        let closed = self.closed_flags();
        let r = self.select_targets(&closed, Some(user_id));
        let _ = self.listeners.len();
        proof { lemma_targets_exact(self.listeners@, closed@, Some(user_id@)); }
        self.send_each(&r, message);
        r
    }

    /// Removes the listeners whose channels were seen closed, keeping the
    /// order of the others.
    pub fn prune_closed(&mut self, closed: &Vec<bool>)
        requires
            closed@.len() == old(self).listeners@.len(),
        ensures
            final(self).listeners@ == kept(old(self).listeners@, closed@),
            final(self).users == old(self).users,
            final(self).reports == old(self).reports,
            final(self).threads == old(self).threads,
    {
        let ghost ls = self.listeners@;
        let mut i: usize = 0;
        let mut j: usize = 0;
        while j < closed.len()
            invariant
                closed@.len() == ls.len(),
                0 <= i <= j <= ls.len(),
                self.listeners@ == kept(ls.take(j as int), closed@.take(j as int)) + ls.skip(j as int),
                kept(ls.take(j as int), closed@.take(j as int)).len() == i,
                self.users == old(self).users,
                self.reports == old(self).reports,
                self.threads == old(self).threads,
            decreases ls.len() - j,
        {
            let ghost before = kept(ls.take(j as int), closed@.take(j as int));
            assert(ls.take(j + 1).drop_last() =~= ls.take(j as int));
            assert(closed@.take(j + 1).take(j as int) =~= closed@.take(j as int));
            assert(self.listeners@[i as int] == ls[j as int]);
            if closed[j] {
                self.listeners.remove(i);
                assert(self.listeners@ =~= before + ls.skip(j + 1));
            } else {
                assert(self.listeners@ =~= before.push(ls[j as int]) + ls.skip(j + 1));
                i += 1;
            }
            j += 1;
        }
        assert(ls.take(ls.len() as int) =~= ls);
        assert(closed@.take(closed@.len() as int) =~= closed@);
        assert(self.listeners@ =~= kept(ls, closed@));
    }

    /// One sweep: drops every listener whose receiving end has gone.
    pub fn sweep(&mut self)
        ensures
            exists|closed: Seq<bool>|
                closed.len() == old(self).listeners@.len() && final(self).listeners@ == kept(
                    old(self).listeners@,
                    closed,
                ),
            final(self).users == old(self).users,
            final(self).reports == old(self).reports,
            final(self).threads == old(self).threads,
    {
        let closed = self.closed_flags();
        self.prune_closed(&closed);
    }

    /// Each account's id paired with its username.
    pub fn get_nicknames(&self) -> (r: Vec<(&str, &str)>)
        ensures
            is_nicknames_of(r@, self.users@),
    {
        let mut r: Vec<(&str, &str)> = Vec::new();
        let mut i: usize = 0;
        while i < self.users.len()
            invariant
                0 <= i <= self.users@.len(),
                r@.len() == i,
                forall|j: int| 0 <= j < i ==> {
                    &&& (#[trigger] r@[j]).0@ == self.users@[j].1.uuid@
                    &&& r@[j].1@ == self.users@[j].1.username@
                },
            decreases self.users@.len() - i,
        {
            let u = &self.users[i].1;
            r.push((u.uuid.as_str(), u.username.as_str()));
            i += 1;
        }
        r
    }

    /// The public profile of every account.
    pub fn profiles(&self) -> (r: Vec<ToStrUser<'_>>)
        ensures
            is_profiles_of(r@, self.users@),
    {
        let mut r: Vec<ToStrUser> = Vec::new();
        let mut i: usize = 0;
        while i < self.users.len()
            invariant
                0 <= i <= self.users@.len(),
                r@.len() == i,
                forall|j: int| 0 <= j < i ==> is_profile_of(#[trigger] r@[j], self.users@[j].1),
            decreases self.users@.len() - i,
        {
            r.push(self.users[i].1.web_user());
            i += 1;
        }
        r
    }

    /// The reports opened by the user with id `uuid`, in order.
    pub fn reports_of(&self, uuid: &String) -> (r: Vec<&Report>)
        ensures
            refers_to(r@, own_reports(self.reports@, uuid@)),
    {
        let mut r: Vec<&Report> = Vec::new();
        let mut i: usize = 0;
        while i < self.reports.len()
            invariant
                0 <= i <= self.reports@.len(),
                refers_to(r@, own_reports(self.reports@.take(i as int), uuid@)),
            decreases self.reports@.len() - i,
        {
            assert(self.reports@.take(i + 1).drop_last() =~= self.reports@.take(i as int));
            if self.reports[i].user_uuid == *uuid {
                r.push(&self.reports[i]);
            }
            i += 1;
        }
        assert(self.reports@.take(self.reports@.len() as int) =~= self.reports@);
        r
    }

    /// The first chunk for the stream of the account stored under `token`,
    /// or `None` if there is no such account.
    pub fn ready_payload(&self, token: &String) -> (r: Option<StreamPayload<'_>>)
        ensures
            r is None <==> !has_token(self.users@, token@),
            r matches Some(p) ==> exists|i: int|
                0 <= i < self.users@.len() && self.users@[i].0@ == token@ && is_payload_for(*self, self.users@[i].1, p),
    {
        match self.find_token(token) {
            None => None,
            Some(i) => {
                let user = &self.users[i].1;
                if user.access_level == AccessLevel::Admin {
                    Some(StreamPayload::ReadyAdmin {
                        id: user.uuid.as_str(),
                        users: self.profiles(),
                        reports: &self.reports,
                    })
                } else {
                    Some(StreamPayload::Ready {
                        user: user.web_user(),
                        reports: self.reports_of(&user.uuid),
                        nicknames: self.get_nicknames(),
                    })
                }
            },
        }
    }
}

} // verus!
