//! The special key and the user records: registration mints a user id and a
//! password, login checks them.

use vstd::prelude::*;
use vstd::string::StringExecFns;
use crate::keyed::{index_of_unique, push_keeps_distinct};
use crate::protocol::messages::{UserId, UserInfo, UserInfoModel};
use crate::text::{decimal, owned, push_decimal, str_eq, trim, trimmed};
use crate::time::Timestamp;

verus! {

/// A user and the password minted for them at registration.
#[derive(Debug)]
pub struct UserRecord {
    pub user: UserInfo,
    pub password: String,
}

/// The model of a [`UserRecord`].
pub struct UserRecordModel {
    pub user: UserInfoModel,
    pub password: Seq<char>,
}

impl View for UserRecord {
    type V = UserRecordModel;

    open spec fn view(&self) -> UserRecordModel {
        UserRecordModel { user: self.user@, password: self.password@ }
    }
}

impl DeepView for UserRecord {
    type V = UserRecordModel;

    open spec fn deep_view(&self) -> UserRecordModel {
        self@
    }
}

impl Clone for UserRecord {
    fn clone(&self) -> (copy: Self)
        ensures
            copy@ == self@,
    {
        UserRecord { user: self.user.clone(), password: self.password.clone() }
    }
}

/// The password minted for the user `user_id` at the clock reading `nanos`
/// (nanoseconds since the epoch): `dr-<nanos>-<user_id>`.
pub open spec fn minted_password(nanos: nat, user_id: UserId) -> Seq<char> {
    "dr-"@ + decimal(nanos) + "-"@ + decimal(user_id as nat)
}

/// The model of an [`AuthService`]: the records in order of registration,
/// and the id the next user will get.
pub struct AuthModel {
    pub users: Seq<UserRecordModel>,
    pub next_user_id: UserId,
}

impl AuthModel {
    /// The user names, in order of registration.
    pub open spec fn names(self) -> Seq<Seq<char>> {
        Seq::new(self.users.len(), |i: int| self.users[i].user.username)
    }

    /// Names are unique and not empty; ids are unique and below the next id.
    pub open spec fn wf(self) -> bool {
        &&& self.names().no_duplicates()
        &&& forall|i: int| 0 <= i < self.users.len()
            ==> (#[trigger] self.users[i]).user.username.len() > 0
        &&& forall|i: int| 0 <= i < self.users.len()
            ==> (#[trigger] self.users[i]).user.id < self.next_user_id
        &&& forall|i: int, j: int|
            0 <= i < j < self.users.len() ==> (#[trigger] self.users[i]).user.id < (
            #[trigger] self.users[j]).user.id
    }

    pub open spec fn has_user(self, name: Seq<char>) -> bool {
        self.names().contains(name)
    }

    /// The record of the user called `name`.
    pub open spec fn record(self, name: Seq<char>) -> UserRecordModel
        recommends
            self.has_user(name),
    {
        self.users[self.names().index_of(name)]
    }

    pub open spec fn find_user_by_username(self, name: Seq<char>) -> Option<UserInfoModel> {
        if self.has_user(name) {
            Some(self.record(name).user)
        } else {
            None
        }
    }

    /// The user that a registration of `username` at `now` creates.
    pub open spec fn new_user(self, username: Seq<char>, now: Timestamp) -> UserInfoModel {
        UserInfoModel { id: self.next_user_id, username: trimmed(username), joined_at: now }
    }

    /// Why a registration of `username` is refused, if it is.
    pub open spec fn register_refusal(self, username: Seq<char>) -> Option<Seq<char>> {
        if trimmed(username).len() == 0 {
            Some("username cannot be empty"@)
        } else if self.has_user(trimmed(username)) {
            Some("username already exists"@)
        } else {
            None
        }
    }

    /// What a registration of `username` at `now` answers.
    pub open spec fn register_outcome(self, username: Seq<char>, now: Timestamp) -> Result<
        (UserInfoModel, Seq<char>),
        Seq<char>,
    > {
        match self.register_refusal(username) {
            Some(reason) => Err(reason),
            None => Ok(
                (
                    self.new_user(username, now),
                    minted_password(now.spec_unix_nanos(), self.next_user_id),
                ),
            ),
        }
    }

    /// The records after a registration of `username` at `now`.
    pub open spec fn register(self, username: Seq<char>, now: Timestamp) -> AuthModel {
        if self.register_outcome(username, now) is Ok {
            AuthModel {
                users: self.users.push(
                    UserRecordModel {
                        user: self.new_user(username, now),
                        password: minted_password(now.spec_unix_nanos(), self.next_user_id),
                    },
                ),
                next_user_id: (self.next_user_id + 1) as UserId,
            }
        } else {
            self
        }
    }

    /// What a login as `username` with `password` answers.
    pub open spec fn login(self, username: Seq<char>, password: Seq<char>) -> Result<
        UserInfoModel,
        Seq<char>,
    > {
        if !self.has_user(username) {
            Err("user not found"@)
        } else if self.record(username).password != password {
            Err("invalid password"@)
        } else {
            Ok(self.record(username).user)
        }
    }

    /// Among the first `n` records, each user's id with their name.
    pub open spec fn directory_among(self, n: nat) -> Seq<(UserId, Seq<char>)>
        decreases n,
    {
        if n == 0 || n > self.users.len() {
            Seq::empty()
        } else {
            self.directory_among((n - 1) as nat).push(
                (self.users[n - 1].user.id, self.users[n - 1].user.username),
            )
        }
    }

    /// Every user's id with their name, in order of registration.
    pub open spec fn directory(self) -> Seq<(UserId, Seq<char>)> {
        self.directory_among(self.users.len())
    }

    /// A registration keeps the records well formed, keeps every earlier
    /// record, and never hands out an id twice.
    pub proof fn register_keeps_wf(self, username: Seq<char>, now: Timestamp)
        requires
            self.wf(),
            self.next_user_id < u64::MAX,
        ensures
            self.register(username, now).wf(),
            self.register(username, now).next_user_id >= self.next_user_id,
            forall|name: Seq<char>| #[trigger]
                self.has_user(name) ==> self.register(username, now).has_user(name)
                    && self.register(username, now).record(name) == self.record(name),
            self.register_outcome(username, now) is Ok ==> self.register(username, now).has_user(
                trimmed(username),
            ) && self.register(username, now).record(trimmed(username)).user == self.new_user(
                username,
                now,
            ),
    {
        if self.register_outcome(username, now) is Ok {
            let after = self.register(username, now);
            let name = trimmed(username);
            assert(after.names() =~= self.names().push(name));
            push_keeps_distinct(self.names(), name);
            assert forall|n: Seq<char>| #[trigger] self.has_user(n) implies after.has_user(n)
                && after.record(n) == self.record(n) by {
                assert(self.names().contains(n));
            }
        }
    }
}

/// Admission to the relay: the special key check and the user records.
#[derive(Debug)]
pub struct AuthService {
    users: Vec<UserRecord>,
    next_user_id: UserId,
}

impl View for AuthService {
    type V = AuthModel;

    closed spec fn view(&self) -> AuthModel {
        AuthModel { users: self.users.deep_view(), next_user_id: self.next_user_id }
    }
}

impl AuthService {
    pub open spec fn wf(&self) -> bool {
        self@.wf()
    }

    /// Whether the store is well formed.
    pub fn is_wf(&self) -> (ok: bool)
        ensures
            ok == self.wf(),
    {
        let mut i: usize = 0;
        while i < self.users.len()
            invariant
                i <= self.users.len(),
                forall|a: int, b: int| 0 <= a < b < i ==> self@.names()[a] != self@.names()[b],
                forall|k: int| 0 <= k < i ==> (#[trigger] self@.users[k]).user.username.len() > 0,
                forall|k: int| 0 <= k < i ==> (#[trigger] self@.users[k]).user.id < self@.next_user_id,
                forall|a: int, b: int|
                    0 <= a < b < i ==> (#[trigger] self@.users[a]).user.id < (
                    #[trigger] self@.users[b]).user.id,
            decreases self.users.len() - i,
        {
            assert(self@.users[i as int] == self.users[i as int]@);
            if self.users[i].user.username.as_str().unicode_len() == 0 {
                return false;
            }
            if self.users[i].user.id >= self.next_user_id {
                return false;
            }
            if i > 0 {
                assert(self@.users[i - 1] == self.users[i - 1]@);
                if self.users[i - 1].user.id >= self.users[i].user.id {
                    return false;
                }
                assert forall|a: int| 0 <= a < i implies (#[trigger] self@.users[a]).user.id
                    < self@.users[i as int].user.id by {
                    if a < i - 1 {
                        assert(self@.users[a].user.id < self@.users[i - 1].user.id);
                    }
                }
            }
            let mut j: usize = 0;
            while j < i
                invariant
                    j <= i < self.users.len(),
                    forall|a: int| 0 <= a < j ==> self@.names()[a] != self@.names()[i as int],
                decreases i - j,
            {
                if str_eq(self.users[j].user.username.as_str(), self.users[i].user.username.as_str()) {
                    assert(self@.names()[j as int] == self@.names()[i as int]);
                    return false;
                }
                j += 1;
            }
            i += 1;
        }
        true
    }

    /// No users yet; the first one will get id 1.
    pub fn new() -> (s: Self)
        ensures
            s.wf(),
            s@.users.len() == 0,
            s@.next_user_id == 1,
    {
        let s = Self { users: Vec::new(), next_user_id: 1 };
        assert(s@.names() =~= Seq::empty());
        s
    }

    /// Whether `candidate` is the special key `expected`.
    pub fn verify_special_key(&self, expected: &str, candidate: &str) -> (r: bool)
        ensures
            r == (expected@ == candidate@),
    {
        str_eq(expected, candidate)
    }

    fn position(&self, name: &str) -> (r: Option<usize>)
        requires
            self.wf(),
        ensures
            match r {
                Some(i) => self@.has_user(name@) && self@.names().index_of(name@) == i && i
                    < self.users.len(),
                None => !self@.has_user(name@),
            },
    {
        let mut i: usize = 0;
        while i < self.users.len()
            invariant
                self.wf(),
                i <= self.users.len(),
                forall|k: int| 0 <= k < i ==> self@.names()[k] != name@,
            decreases self.users.len() - i,
        {
            if str_eq(self.users[i].user.username.as_str(), name) {
                proof {
                    index_of_unique(self@.names(), i as int);
                }
                return Some(i);
            }
            i += 1;
        }
        None
    }

    /// Whether another user can still be registered.
    pub fn has_room(&self) -> (r: bool)
        ensures
            r == (self@.next_user_id < u64::MAX),
    {
        self.next_user_id < u64::MAX
    }

    /// Registers `username` with the clock reading `now`: the name is
    /// trimmed, must not be empty and must be new; the user gets the next id
    /// and the password `dr-<nanos>-<id>`.
    pub fn register_at(&mut self, username: String, now: Timestamp) -> (r: Result<
        (UserInfo, String),
        String,
    >)
        requires
            old(self).wf(),
            old(self)@.next_user_id < u64::MAX,
        ensures
            final(self).wf(),
            final(self)@ == old(self)@.register(username@, now),
            match r {
                Ok((user, password)) => old(self)@.register_outcome(username@, now) == Ok::<
                    (UserInfoModel, Seq<char>),
                    Seq<char>,
                >((user@, password@)),
                Err(reason) => old(self)@.register_outcome(username@, now) == Err::<
                    (UserInfoModel, Seq<char>),
                    Seq<char>,
                >(reason@),
            },
    {
        let name = owned(trim(username.as_str()));
        if name.as_str().is_empty() {
            return Err(owned("username cannot be empty"));
        }
        if self.position(name.as_str()).is_some() {
            return Err(owned("username already exists"));
        }
        let user_id: UserId = self.next_user_id;
        self.next_user_id = user_id + 1;
        let user = UserInfo { id: user_id, username: name, joined_at: now };
        let mut password = owned("dr-");
        push_decimal(&mut password, now.unix_nanos());
        password.append("-");
        push_decimal(&mut password, user_id as u128);
        let record = UserRecord { user: user.clone(), password: password.clone() };
        self.users.push(record);
        proof {
            assert(self@.users =~= old(self)@.users.push(record@));
            old(self)@.register_keeps_wf(username@, now);
        }
        Ok((user, password))
    }

    /// Registers `username` at the present moment.
    pub fn register(&mut self, username: String) -> (r: Result<(UserInfo, String), String>)
        requires
            old(self).wf(),
            old(self)@.next_user_id < u64::MAX,
        ensures
            final(self).wf(),
            match r {
                Ok((user, password)) => {
                    &&& old(self)@.register_refusal(username@) is None
                    &&& final(self)@ == old(self)@.register(username@, user@.joined_at)
                    &&& old(self)@.register_outcome(username@, user@.joined_at) == Ok::<
                        (UserInfoModel, Seq<char>),
                        Seq<char>,
                    >((user@, password@))
                },
                Err(reason) => {
                    &&& old(self)@.register_refusal(username@) == Some(reason@)
                    &&& final(self)@ == old(self)@
                },
            },
    {
        let now = Timestamp::now();
        self.register_at(username, now)
    }

    pub fn login(&self, username: &str, password: &str) -> (r: Result<UserInfo, String>)
        requires
            self.wf(),
        ensures
            match r {
                Ok(user) => self@.login(username@, password@) == Ok::<UserInfoModel, Seq<char>>(
                    user@,
                ),
                Err(reason) => self@.login(username@, password@) == Err::<
                    UserInfoModel,
                    Seq<char>,
                >(reason@),
            },
    {
        match self.position(username) {
            None => Err(owned("user not found")),
            Some(i) => {
                if !str_eq(self.users[i].password.as_str(), password) {
                    Err(owned("invalid password"))
                } else {
                    Ok(self.users[i].user.clone())
                }
            },
        }
    }

    pub fn find_user_by_username(&self, username: &str) -> (r: Option<UserInfo>)
        requires
            self.wf(),
        ensures
            r.deep_view() == self@.find_user_by_username(username@),
    {
        match self.position(username) {
            None => None,
            Some(i) => Some(self.users[i].user.clone()),
        }
    }

    /// Every user's id with their name.
    pub fn get_all_users_map(&self) -> (directory: Vec<(UserId, String)>)
        ensures
            directory.deep_view() == self@.directory(),
    {
        let mut directory: Vec<(UserId, String)> = Vec::new();
        let mut i: usize = 0;
        while i < self.users.len()
            invariant
                i <= self.users.len(),
                directory.deep_view() == self@.directory_among(i as nat),
            decreases self.users.len() - i,
        {
            let entry = (self.users[i].user.id, self.users[i].user.username.clone());
            directory.push(entry);
            assert(directory.deep_view() =~= self@.directory_among(i as nat).push(
                (self.users[i as int].user.id, self.users[i as int].user.username@),
            ));
            i += 1;
        }
        directory
    }
}

} // verus!
