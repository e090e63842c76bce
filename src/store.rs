use vstd::prelude::*;
use vstd::string::*;
use crate::user::{User, UserView, home_of, start_dir};

verus! {

/// The accounts of the server, by name.
pub struct SystemUsers {
    names: Vec<String>,
    users: Vec<User>,
}

/// Each name taken to the last record that carries it.
pub open spec fn records_map(records: Seq<(String, User)>) -> Map<Seq<char>, UserView>
    decreases records.len(),
{
    if records.len() == 0 {
        Map::empty()
    } else {
        records_map(records.drop_last()).insert(records.last().0@, records.last().1@)
    }
}

/// The id that a new account gets beside the accounts in `m`: one more than
/// the largest id, or 0 where there is none.
pub open spec fn is_next_uid(m: Map<Seq<char>, UserView>, uid: u16) -> bool {
    &&& forall|n: Seq<char>| #[trigger] m.contains_key(n) ==> m[n].uid < uid
    &&& (m.is_empty() && uid == 0) || exists|n: Seq<char>|
        #[trigger] m.contains_key(n) && m[n].uid + 1 == uid
}

impl SystemUsers {
    /// The vectors are parallel and no name occurs twice.
    pub closed spec fn wf(&self) -> bool {
        &&& self.names@.len() == self.users@.len()
        &&& forall|i: int, j: int|
            0 <= i < j < self.names@.len() ==> #[trigger] self.names@[i]@ != #[trigger] self.names@[j]@
    }

    closed spec fn has(&self, n: Seq<char>) -> bool {
        exists|i: int| 0 <= i < self.names@.len() && #[trigger] self.names@[i]@ == n
    }

    closed spec fn slot(&self, n: Seq<char>) -> int {
        choose|i: int| 0 <= i < self.names@.len() && #[trigger] self.names@[i]@ == n
    }

    pub closed spec fn view(&self) -> Map<Seq<char>, UserView> {
        Map::new(|n: Seq<char>| self.has(n), |n: Seq<char>| self.users@[self.slot(n)]@)
    }

    proof fn lemma_slot(&self, i: int)
        requires
            self.wf(),
            0 <= i < self.names@.len(),
        ensures
            self.has(self.names@[i]@),
            self.slot(self.names@[i]@) == i,
            self.view().contains_key(self.names@[i]@),
            self.view()[self.names@[i]@] == self.users@[i]@,
    {
        let n = self.names@[i]@;
        assert(self.has(n));
        let k = self.slot(n);
        if k != i {
            if k < i {
                assert(self.names@[k]@ != self.names@[i]@);
            } else {
                assert(self.names@[i]@ != self.names@[k]@);
            }
        }
    }

    /// A store without accounts.
    pub fn new() -> (r: SystemUsers)
        ensures
            r.wf(),
            r.view() == Map::<Seq<char>, UserView>::empty(),
    {
        let r = SystemUsers { names: Vec::new(), users: Vec::new() };
        assert(r.view() =~= Map::<Seq<char>, UserView>::empty());
        r
    }

    /// Where `name` is kept.
    fn find(&self, name: &str) -> (r: Option<usize>)
        requires
            self.wf(),
        ensures
            r is None ==> !self.view().contains_key(name@),
            r matches Some(i) ==> i < self.names@.len() && self.names@[i as int]@ == name@
                && self.view().contains_key(name@) && self.view()[name@] == self.users@[i as int]@,
    {
        let mut i: usize = 0;
        while i < self.names.len()
            invariant
                self.wf(),
                0 <= i <= self.names@.len(),
                forall|j: int| 0 <= j < i ==> #[trigger] self.names@[j]@ != name@,
            decreases self.names@.len() - i,
        {
            if crate::path::same_text(self.names[i].as_str(), name) {
                proof {
                    self.lemma_slot(i as int);
                }
                return Some(i);
            }
            i = i + 1;
        }
        None
    }

    /// Stores `user` under `name`, in place of any account of that name.
    pub fn insert(&mut self, name: String, user: User)
        requires
            old(self).wf(),
        ensures
            final(self).wf(),
            final(self).view() == old(self).view().insert(name@, user@),
    {
        let ghost name_v = name@;
        let ghost user_v = user@;
        match self.find(name.as_str()) {
            Some(i) => {
                self.users.set(i, user);
                proof {
                    assert forall|n: Seq<char>| #[trigger]
                        self.view().contains_key(n) == old(self).view().insert(
                            name_v,
                            user_v,
                        ).contains_key(n) by {
                        if old(self).has(n) {
                            let k = old(self).slot(n);
                            assert(self.names@[k]@ == n);
                        }
                        if self.has(n) {
                            let k = self.slot(n);
                            assert(old(self).names@[k]@ == n);
                        }
                    }
                    assert forall|n: Seq<char>| #[trigger] self.view().contains_key(n) implies self.view()[n]
                        == old(self).view().insert(name_v, user_v)[n] by {
                        let k = self.slot(n);
                        self.lemma_slot(k);
                        if k != i {
                            old(self).lemma_slot(k);
                        }
                    }
                    assert(self.view() =~= old(self).view().insert(name_v, user_v));
                }
            },
            None => {
                self.names.push(name);
                self.users.push(user);
                proof {
                    let len = self.names@.len() - 1;
                    assert forall|n: Seq<char>| #[trigger]
                        self.view().contains_key(n) == old(self).view().insert(
                            name_v,
                            user_v,
                        ).contains_key(n) by {
                        if old(self).has(n) {
                            let k = old(self).slot(n);
                            assert(self.names@[k]@ == n);
                        }
                        if n == name_v {
                            assert(self.names@[len]@ == n);
                        }
                        if self.has(n) && n != name_v {
                            let k = self.slot(n);
                            assert(old(self).names@[k]@ == n);
                        }
                    }
                    assert forall|n: Seq<char>| #[trigger] self.view().contains_key(n) implies self.view()[n]
                        == old(self).view().insert(name_v, user_v)[n] by {
                        let k = self.slot(n);
                        self.lemma_slot(k);
                        if k != len {
                            old(self).lemma_slot(k);
                        }
                    }
                    assert(self.view() =~= old(self).view().insert(name_v, user_v));
                }
            },
        }
    }

    /// A store of `records`; where a name occurs twice, the later record wins.
    pub fn from_records(records: Vec<(String, User)>) -> (r: SystemUsers)
        ensures
            r.wf(),
            r.view() == records_map(records@),
    {
        let mut r = SystemUsers::new();
        let mut i: usize = 0;
        while i < records.len()
            invariant
                0 <= i <= records@.len(),
                r.wf(),
                r.view() == records_map(records@.subrange(0, i as int)),
            decreases records@.len() - i,
        {
            let name = records[i].0.clone();
            let user = records[i].1.duplicate();
            r.insert(name, user);
            proof {
                assert(records@.subrange(0, i + 1).drop_last() =~= records@.subrange(0, i as int));
            }
            i = i + 1;
        }
        assert(records@.subrange(0, records@.len() as int) =~= records@);
        r
    }

    pub fn user_exists(&self, user_name: &str) -> (r: bool)
        requires
            self.wf(),
        ensures
            r == self.view().contains_key(user_name@),
    {
        self.find(user_name).is_some()
    }

    /// Whether an account `user_name` exists and has the password `passwd`.
    pub fn has_passwd(&self, user_name: &str, passwd: &str) -> (r: bool)
        requires
            self.wf(),
        ensures
            r == (self.view().contains_key(user_name@) && self.view()[user_name@].passwd
                == passwd@),
    {
        match self.find(user_name) {
            Some(i) => self.users[i].has_passwd(passwd),
            None => false,
        }
    }

    pub fn get_user(&self, user_name: &str) -> (r: Option<&User>)
        requires
            self.wf(),
        ensures
            r is Some <==> self.view().contains_key(user_name@),
            r matches Some(u) ==> u@ == self.view()[user_name@],
    {
        match self.find(user_name) {
            Some(i) => Some(&self.users[i]),
            None => None,
        }
    }

    pub fn get_user_clone(&self, user_name: &str) -> (r: Option<User>)
        requires
            self.wf(),
        ensures
            r is Some <==> self.view().contains_key(user_name@),
            r matches Some(u) ==> u@ == self.view()[user_name@],
    {
        match self.find(user_name) {
            Some(i) => Some(self.users[i].duplicate()),
            None => None,
        }
    }

    /// The id for a new account, or `None` where the largest id is taken.
    fn next_uid(&self) -> (r: Option<u16>)
        requires
            self.wf(),
        ensures
            r matches Some(uid) ==> is_next_uid(self.view(), uid),
            r is None ==> exists|n: Seq<char>|
                #[trigger] self.view().contains_key(n) && self.view()[n].uid == u16::MAX,
    {
        let mut uid: u16 = 0;
        let mut j: usize = 0;
        while j < self.users.len()
            invariant
                self.wf(),
                0 <= j <= self.users@.len(),
                forall|k: int| 0 <= k < j ==> (#[trigger] self.users@[k])@.uid < uid,
                uid == 0 || exists|k: int| 0 <= k < j && (#[trigger] self.users@[k])@.uid + 1 == uid,
            decreases self.users@.len() - j,
        {
            let u = self.users[j].get_uid();
            if uid <= u {
                if u == u16::MAX {
                    proof {
                        self.lemma_slot(j as int);
                    }
                    return None;
                }
                uid = u + 1;
                assert(self.users@[j as int]@.uid + 1 == uid);
            }
            j = j + 1;
        }
        proof {
            let m = self.view();
            assert forall|n: Seq<char>| #[trigger] m.contains_key(n) implies m[n].uid < uid by {
                let k = self.slot(n);
                self.lemma_slot(k);
            }
            if uid == 0 {
                if self.names@.len() > 0 {
                    assert(self.users@[0]@.uid < uid);
                }
                assert(m =~= Map::<Seq<char>, UserView>::empty());
            } else {
                let k = choose|k: int| 0 <= k < j && (#[trigger] self.users@[k])@.uid + 1 == uid;
                self.lemma_slot(k);
                assert(m.contains_key(self.names@[k]@));
            }
        }
        Some(uid)
    }

    /// Creates the account `user_name` with the password `passwd`, rooted at
    /// `./root/<user_name>` and with an id one above the largest.
    pub fn create_user(&mut self, user_name: &str, passwd: &str) -> (r: Result<(), &'static str>)
        requires
            old(self).wf(),
        ensures
            final(self).wf(),
            old(self).view().contains_key(user_name@) ==> (r matches Err(e) && e@
                == "User already exists"@),
            r is Err ==> final(self).view() == old(self).view(),
            r is Ok <==> !old(self).view().contains_key(user_name@) && !(exists|n: Seq<char>|
                #[trigger] old(self).view().contains_key(n) && old(self).view()[n].uid
                    == u16::MAX),
            r is Ok ==> exists|u: UserView|
                {
                    &&& final(self).view() == old(self).view().insert(user_name@, u)
                    &&& u.passwd == passwd@
                    &&& u.chroot == home_of(user_name@)
                    &&& u.actual_dir == start_dir()
                    &&& is_next_uid(old(self).view(), u.uid)
                },
    {
        if self.find(user_name).is_some() {
            return Err("User already exists");
        }
        match self.next_uid() {
            None => Err("No user id left"),
            Some(uid) => {
                let user = User::new(user_name, passwd, uid);
                let ghost u = user@;
                self.insert(String::from_str(user_name), user);
                assert(final(self).view() == old(self).view().insert(user_name@, u));
                Ok(())
            },
        }
    }

    /// Removes the account `user_name` when `passwd` is its password, and
    /// returns it.
    pub fn delete_user(&mut self, user_name: &str, passwd: &str) -> (r: Result<User, &'static str>)
        requires
            old(self).wf(),
        ensures
            final(self).wf(),
            !old(self).view().contains_key(user_name@) ==> (r matches Err(e) && e@
                == "User do not exists"@),
            old(self).view().contains_key(user_name@) && old(self).view()[user_name@].passwd
                != passwd@ ==> (r matches Err(e) && e@ == "Invalid password"@),
            r is Err ==> final(self).view() == old(self).view(),
            r is Ok <==> old(self).view().contains_key(user_name@) && old(
                self,
            ).view()[user_name@].passwd == passwd@,
            r matches Ok(u) ==> u@ == old(self).view()[user_name@] && final(self).view() == old(
                self,
            ).view().remove(user_name@),
    {
        match self.find(user_name) {
            None => Err("User do not exists"),
            Some(i) => {
                if !self.users[i].has_passwd(passwd) {
                    return Err("Invalid password");
                }
                let ghost pre = *self;
                let _ = self.names.remove(i);
                let user = self.users.remove(i);
                proof {
                    let n0 = user_name@;
                    assert forall|a: int, b: int|
                        0 <= a < b < self.names@.len() implies #[trigger] self.names@[a]@
                        != #[trigger] self.names@[b]@ by {
                        let a2 = if a < i { a } else { a + 1 };
                        let b2 = if b < i { b } else { b + 1 };
                        assert(self.names@[a] == pre.names@[a2]);
                        assert(self.names@[b] == pre.names@[b2]);
                        assert(pre.names@[a2]@ != pre.names@[b2]@);
                    }
                    assert forall|n: Seq<char>| #[trigger]
                        self.view().contains_key(n) == pre.view().remove(n0).contains_key(n) by {
                        if pre.has(n) && n != n0 {
                            let k = pre.slot(n);
                            pre.lemma_slot(i as int);
                            let k2 = if k < i { k } else { k - 1 };
                            assert(self.names@[k2] == pre.names@[k]);
                        }
                        if self.has(n) {
                            let k = self.slot(n);
                            let k2 = if k < i { k } else { k + 1 };
                            assert(self.names@[k] == pre.names@[k2]);
                            pre.lemma_slot(i as int);
                            pre.lemma_slot(k2);
                        }
                    }
                    assert forall|n: Seq<char>| #[trigger] self.view().contains_key(n) implies self.view()[n]
                        == pre.view()[n] by {
                        let k = self.slot(n);
                        self.lemma_slot(k);
                        let k2 = if k < i { k } else { k + 1 };
                        assert(self.names@[k] == pre.names@[k2]);
                        assert(self.users@[k] == pre.users@[k2]);
                        pre.lemma_slot(k2);
                    }
                    assert(self.view() =~= pre.view().remove(n0));
                }
                Ok(user)
            },
        }
    }

    /// The number of accounts.
    pub fn len(&self) -> (r: usize)
        requires
            self.wf(),
        ensures
            r == self.view().len(),
    {
        proof {
            self.lemma_len();
        }
        self.names.len()
    }

    proof fn lemma_len(&self)
        requires
            self.wf(),
        ensures
            self.view().len() == self.names@.len(),
    {
        let m = self.view();
        let names = Seq::new(self.names@.len(), |i: int| self.names@[i]@);
        assert forall|i: int, j: int| 0 <= i < j < names.len() implies names[i] != names[j] by {
            assert(self.names@[i]@ != self.names@[j]@);
        }
        assert(names.no_duplicates());
        names.unique_seq_to_set();
        assert forall|n: Seq<char>| m.contains_key(n) <==> names.to_set().contains(n) by {
            if m.contains_key(n) {
                let k = self.slot(n);
                assert(names[k] == n);
            }
            if names.to_set().contains(n) {
                let k = choose|k: int| 0 <= k < names.len() && names[k] == n;
                assert(self.names@[k]@ == n);
            }
        }
        assert(m.dom() =~= names.to_set());
    }

    /// The `i`-th account and its name, in the order in which they are kept.
    pub fn entry_at(&self, i: usize) -> (r: (&String, &User))
        requires
            self.wf(),
            i < self.view().len(),
        ensures
            self.view().contains_key(r.0@),
            self.view()[r.0@] == r.1@,
    {
        proof {
            self.lemma_len();
            self.lemma_slot(i as int);
        }
        (&self.names[i], &self.users[i])
    }
}

} // verus!
