use vstd::prelude::*;
use vstd::string::*;
use crate::path::{join_path, is_within, show_from, push_path, within, shown_from};

verus! {

/// One account: its password, its root directory ("chroot"), its numeric id
/// and the directory that it is in, relative to that root.
#[derive(Debug, Clone)]
pub struct User {
    passwd: String,
    chroot: String,
    uid: u16,
    actual_dir: String,
}

/// What a user is, with its texts as characters.
pub struct UserView {
    pub passwd: Seq<char>,
    pub chroot: Seq<char>,
    pub uid: u16,
    pub actual_dir: Seq<char>,
}

impl View for User {
    type V = UserView;

    closed spec fn view(&self) -> UserView {
        UserView {
            passwd: self.passwd@,
            chroot: self.chroot@,
            uid: self.uid,
            actual_dir: self.actual_dir@,
        }
    }
}

/// The directory that a user starts in: the top of its root.
pub open spec fn start_dir() -> Seq<char> {
    seq!['.', '/']
}

/// The root directory of a new user called `name`.
pub open spec fn home_of(name: Seq<char>) -> Seq<char> {
    seq!['.', '/', 'r', 'o', 'o', 't', '/'] + name
}

/// The current directory after a move to `new_dir` from `actual_dir`,
/// before it is checked: `./` and the two pushed together.
pub open spec fn candidate_dir(actual_dir: Seq<char>, new_dir: Seq<char>) -> Seq<char> {
    seq!['.', '/'] + push_path(push_path(Seq::empty(), actual_dir), new_dir)
}

/// The path on disk that a move to `new_dir` reaches, before it is made canonical.
pub open spec fn target_of(chroot: Seq<char>, actual_dir: Seq<char>, new_dir: Seq<char>) -> Seq<
    char,
> {
    push_path(chroot, candidate_dir(actual_dir, new_dir))
}

pub fn start_dir_text() -> (r: String)
    ensures
        r@ == start_dir(),
{
    let s = "./";
    proof {
        reveal_strlit("./");
    }
    let r = String::from_str(s);
    assert(r@ =~= start_dir());
    r
}

/// The current directory after a move to `new_dir`, as `candidate_dir` says.
pub fn candidate(actual_dir: &str, new_dir: &str) -> (r: String)
    ensures
        r@ == candidate_dir(actual_dir@, new_dir@),
{
    let empty = "";
    proof {
        reveal_strlit("");
        reveal_strlit("./");
    }
    let first = join_path(empty, actual_dir);
    let joined = join_path(first.as_str(), new_dir);
    let r = String::from_str("./").concat(joined.as_str());
    assert(empty@ =~= Seq::<char>::empty());
    assert(r@ =~= candidate_dir(actual_dir@, new_dir@));
    r
}

impl User {
    /// A new user called `username`, whose root is `./root/<username>`.
    pub fn new(username: &str, passwd: &str, uid: u16) -> (r: User)
        ensures
            r@.passwd == passwd@,
            r@.chroot == home_of(username@),
            r@.uid == uid,
            r@.actual_dir == start_dir(),
    {
        let root = "./root/";
        proof {
            reveal_strlit("./root/");
        }
        let chroot = String::from_str(root).concat(username);
        assert(chroot@ =~= home_of(username@));
        User { passwd: String::from_str(passwd), chroot, uid, actual_dir: start_dir_text() }
    }

    /// A user as it is stored, placed at the top of its root.
    pub fn from_record(passwd: String, chroot: String, uid: u16) -> (r: User)
        ensures
            r@.passwd == passwd@,
            r@.chroot == chroot@,
            r@.uid == uid,
            r@.actual_dir == start_dir(),
    {
        User { passwd, chroot, uid, actual_dir: start_dir_text() }
    }

    /// A copy of this user.
    pub fn duplicate(&self) -> (r: User)
        ensures
            r@ == self@,
    {
        User {
            passwd: self.passwd.clone(),
            chroot: self.chroot.clone(),
            uid: self.uid,
            actual_dir: self.actual_dir.clone(),
        }
    }

    pub fn has_passwd(&self, passwd: &str) -> (r: bool)
        ensures
            r == (self@.passwd == passwd@),
    {
        crate::path::same_text(self.passwd.as_str(), passwd)
    }

    pub fn get_passwd(&self) -> (r: &String)
        ensures
            r@ == self@.passwd,
    {
        &self.passwd
    }

    pub fn get_actual_dir(&self) -> (r: &String)
        ensures
            r@ == self@.actual_dir,
    {
        &self.actual_dir
    }

    pub fn get_chroot(&self) -> (r: &String)
        ensures
            r@ == self@.chroot,
    {
        &self.chroot
    }

    pub fn get_uid(&self) -> (r: u16)
        ensures
            r == self@.uid,
    {
        self.uid
    }

    /// The user's current directory on disk, not made canonical.
    pub fn total_path_non_canon(&self) -> (r: String)
        ensures
            r@ == push_path(self@.chroot, self@.actual_dir),
    {
        join_path(self.chroot.as_str(), self.actual_dir.as_str())
    }

    /// The path on disk that `new_dir` names for this user, to be made
    /// canonical before `change_dir` or `new_dir` decide on it.
    pub fn target_path(&self, new_dir: &str) -> (r: String)
        ensures
            r@ == target_of(self@.chroot, self@.actual_dir, new_dir@),
    {
        User::target_path_from(self.chroot.as_str(), self.actual_dir.as_str(), new_dir)
    }

    /// `target_path` for a root and a current directory given apart.
    pub fn target_path_from(chroot: &str, actual_dir: &str, new_dir: &str) -> (r: String)
        ensures
            r@ == target_of(chroot@, actual_dir@, new_dir@),
    {
        let c = candidate(actual_dir, new_dir);
        join_path(chroot, c.as_str())
    }

    /// Decides on `new_dir` from the root `chroot` and the current directory
    /// `actual_dir`. `canonical_root` is the root made canonical and
    /// `canonical_target` the canonical form of `target_path_from(chroot,
    /// actual_dir, new_dir)`, or `None` where that path does not exist.
    /// Returns the canonical path when it lies within the root.
    pub fn new_dir(
        chroot: &str,
        actual_dir: &str,
        new_dir: &str,
        canonical_root: &str,
        canonical_target: Option<&str>,
    ) -> (r: Result<String, &'static str>)
        ensures
            canonical_target is None ==> (r matches Err(e) && e@ == "Directory not found"@),
            canonical_target matches Some(t) ==> if within(canonical_root@, t@) {
                r matches Ok(p) && p@ == t@
            } else {
                r matches Err(e) && e@ == "Invalid directory"@
            },
    {
        match canonical_target {
            None => Err("Directory not found"),
            Some(t) => {
                if is_within(canonical_root, t) {
                    Ok(String::from_str(t))
                } else {
                    Err("Invalid directory")
                }
            },
        }
    }

    /// Moves to `new_dir` when its canonical form lies within the root.
    /// `canonical_root` and `canonical_target` are as for `new_dir`, with
    /// the target taken from `target_path(new_dir)`. Nothing changes on an
    /// error.
    pub fn change_dir(
        &mut self,
        new_dir: &str,
        canonical_root: &str,
        canonical_target: Option<&str>,
    ) -> (r: Result<(), &'static str>)
        ensures
            final(self)@.passwd == old(self)@.passwd,
            final(self)@.chroot == old(self)@.chroot,
            final(self)@.uid == old(self)@.uid,
            canonical_target is None ==> (r matches Err(e) && e@ == "Directory not found"@),
            canonical_target matches Some(t) ==> if within(canonical_root@, t@) {
                r is Ok
            } else {
                r matches Err(e) && e@ == "Invalid directory"@
            },
            r is Ok ==> final(self)@.actual_dir == candidate_dir(old(self)@.actual_dir, new_dir@),
            r is Err ==> final(self)@ == old(self)@,
    {
        match canonical_target {
            None => Err("Directory not found"),
            Some(t) => {
                if is_within(canonical_root, t) {
                    self.actual_dir = candidate(self.actual_dir.as_str(), new_dir);
                    Ok(())
                } else {
                    Err("Invalid directory")
                }
            },
        }
    }

    /// The current directory as the user sees it: relative to the root,
    /// with a leading `/`. Takes the root and the current directory made
    /// canonical.
    pub fn total_path_and_decano(&self, canonical_root: &str, canonical_total: &str) -> (r:
        String)
        ensures
            r@ == shown_from(canonical_root@, canonical_total@),
    {
        show_from(canonical_root, canonical_total)
    }
}

} // verus!
