use vstd::prelude::*;
use vstd::string::*;
use vstd::utf8::encode_utf8;
use crate::buffer::AfterSend;
use crate::command::{Command, CommandView, parse_request};
use crate::path::{
    push_path, split_child, parent_and_child, within, shown_from, is_within, show_from, join_path,
    lemma_within_has_root_prefix, lemma_child_is_relative, lemma_push_keeps_prefix,
};
use crate::response::{create_response, flatten, reply_line, ResponseCode};
use crate::user::{UserView, User, target_of, home_of, candidate_dir, candidate, start_dir, start_dir_text};
use super::{
    FTPServer, RequestType, RequestContext, answered, data_ref_of, is_data, is_session, logged_in, out_of,
    reply, session_kept,
};

verus! {

/// The commands that work on a path of the user's tree.
pub open spec fn is_path_command(c: CommandView) -> bool {
    c is CurrentDirectory || c is ChangeDirectory || c is Delete || c is RemoveDirectory
        || c is List || c is Retr || c is RenameFrom || c is RenameTo || c is Mkdir || c is Store
}

/// The commands that need an armed data connection.
pub open spec fn needs_data(c: CommandView) -> bool {
    c is List || c is Retr || c is Store
}

/// The path on disk, before it is made canonical, that a path command is
/// about, for the root `chroot` and the current directory `dir`: for `MKD` and `STOR` the directory that is to hold
/// the new entry.
pub open spec fn target_for(c: CommandView, chroot: Seq<char>, dir: Seq<char>) -> Option<
    Seq<char>,
> {
    match c {
        CommandView::CurrentDirectory => Some(push_path(chroot, dir)),
        CommandView::ChangeDirectory(p) => Some(target_of(chroot, dir, p)),
        CommandView::Delete(p) => Some(target_of(chroot, dir, p)),
        CommandView::RemoveDirectory(p) => Some(target_of(chroot, dir, p)),
        CommandView::List(p) => Some(target_of(chroot, dir, p)),
        CommandView::Retr(p) => Some(target_of(chroot, dir, p)),
        CommandView::RenameFrom(p) => Some(target_of(chroot, dir, p)),
        CommandView::RenameTo(p) => Some(target_of(chroot, dir, p)),
        CommandView::Mkdir(p) => match split_child(p) {
            Some((parent, _)) => Some(target_of(chroot, dir, parent)),
            None => None,
        },
        CommandView::Store(p) => match split_child(p) {
            Some((parent, _)) => Some(target_of(chroot, dir, parent)),
            None => None,
        },
        _ => None,
    }
}

/// What the first step of path command `c` of control connection `token`
/// does, for a logged-in session and the accounts `users`.
pub open spec fn path_outcome(
    t0: Map<usize, RequestContext>,
    t1: Map<usize, RequestContext>,
    users: Map<Seq<char>, UserView>,
    token: usize,
    c: CommandView,
    r: Next,
) -> bool {
    let name = t0[token].user_id->Some_0@;
    if !users.contains_key(name) {
        r is Done && answered(
            t0,
            t1,
            token,
            reply(550, "Requested action not taken. File unavailable, file not found."),
        ) && session_kept(t0, t1, token)
    } else if (needs_data(c) && data_ref_of(t0[token].request_type) is None) || (c is RenameTo
        && t0[token].rename_from is None) {
        r is Done && answered(t0, t1, token, reply(503, "Bad sequence of commands."))
            && session_kept(t0, t1, token)
    } else if target_for(c, users[name].chroot, t0[token].current_dir@) is None {
        r is Done && answered(
            t0,
            t1,
            token,
            reply(550, "Requested action not taken. File unavailable, file not found."),
        ) && session_kept(t0, t1, token)
    } else {
        &&& r matches Next::Resolve(root, target)
        &&& root@ == users[name].chroot
        &&& target@ == target_for(c, users[name].chroot, t0[token].current_dir@)->Some_0
        &&& t1 == t0
    }
}

/// What `PASS pwd` does on control connection `token`, from table `t0`
/// and accounts `users` to table `t1` and accounts `users1`.
pub open spec fn password_outcome(
    t0: Map<usize, RequestContext>,
    t1: Map<usize, RequestContext>,
    users: Map<Seq<char>, UserView>,
    users1: Map<Seq<char>, UserView>,
    token: usize,
    pwd: Seq<char>,
    r: Next,
) -> bool {
    match t0[token].user_id {
        None => r is Done && answered(t0, t1, token, reply(530, "Not logged in.")) && session_kept(
            t0,
            t1,
            token,
        ) && users1 == users,
        Some(n) => if users.contains_key(n@) {
            &&& r is Done
            &&& users1 == users
            &&& if users[n@].passwd == pwd {
                &&& answered(t0, t1, token, reply(230, "User logged in, proceed."))
                &&& t1[token].user_id == t0[token].user_id
                &&& t1[token].current_dir@ == start_dir()
                &&& t1[token].loged
            } else {
                answered(t0, t1, token, reply(530, "Not logged in.")) && session_kept(t0, t1, token)
            }
        } else if uid_exhausted(users) {
            &&& r is Done
            &&& users1 == users
            &&& answered(t0, t1, token, reply(530, "Not logged in."))
            &&& session_kept(t0, t1, token)
        } else {
            &&& users1.contains_key(n@)
            &&& users1 == users.insert(n@, users1[n@])
            &&& users1[n@].passwd == pwd
            &&& users1[n@].chroot == home_of(n@)
            &&& r matches Next::Created(home) && home@ == home_of(n@)
            &&& answered(t0, t1, token, reply(230, "User logged in, proceed."))
            &&& t1[token].user_id == t0[token].user_id
            &&& t1[token].current_dir@ == start_dir()
            &&& t1[token].loged
        },
    }
}

/// Whether some account holds the largest id, so that no new one can be made.
pub open spec fn uid_exhausted(users: Map<Seq<char>, UserView>) -> bool {
    exists|n: Seq<char>| #[trigger] users.contains_key(n) && users[n].uid == u16::MAX
}

/// `t1` is `t0` after a failed transfer command of control connection `k`:
/// its data connection, if any, is gone, and it answers `550`.
pub open spec fn transfer_failed(
    t0: Map<usize, RequestContext>,
    t1: Map<usize, RequestContext>,
    k: usize,
    r: Option<usize>,
) -> bool {
    let fail = reply(550, "Requested action not taken. File unavailable, file not found.");
    &&& is_session(t1, k)
    &&& out_of(t1, k).spec_buffer() == fail
    &&& out_of(t1, k).spec_offset() == 0
    &&& data_ref_of(t1[k].request_type) is None
    &&& r == data_ref_of(t0[k].request_type)
    &&& t1.remove(k) == match r {
        Some(d) => t0.remove(d).remove(k),
        None => t0.remove(k),
    }
    &&& r matches Some(d) ==> !t1.contains_key(d)
}

/// Every path that an effect names for the disk lies below `root`.
pub open spec fn effect_within(e: Effect, root: Seq<char>) -> bool {
    match e {
        Effect::RemoveFile(p) => root.is_prefix_of(p@),
        Effect::RemoveDir(p) => root.is_prefix_of(p@),
        Effect::CreateDir(p) => root.is_prefix_of(p@),
        Effect::List(p) => root.is_prefix_of(p@),
        Effect::OpenRead(p) => root.is_prefix_of(p@),
        Effect::OpenWrite(p) => root.is_prefix_of(p@),
        Effect::Rename(_, p) => root.is_prefix_of(p@),
        _ => true,
    }
}

/// The data connection that an effect says was dropped.
pub open spec fn abandoned(e: Effect) -> Option<usize> {
    match e {
        Effect::Abandon(d) => Some(d),
        _ => None,
    }
}

/// The message of `257` after `MKD` made the directory `child`.
pub open spec fn created_message(child: Seq<char>) -> Seq<char> {
    seq!['\''] + child + "' directory created."@
}



/// The outside work that a request needs before it can be answered.
#[derive(Debug)]
pub enum Next {
    /// The reply is in place.
    Done,
    /// The reply is in place; an account was created, whose root directory
    /// (given) is to be made and the accounts saved.
    Created(String),
    /// Make the root (first) and the target (second) canonical, and hand
    /// both to `resolved`; a target that does not exist is `None`.
    Resolve(String, String),
    /// Connect to this address and port, and report to `port_connected`.
    Connect([u8; 4], u16),
    /// Bind a listener on a free port, and report to `passive_bound`.
    Bind,
}

/// The filesystem work that a path command comes to, on canonical paths
/// inside the user's root.
#[derive(Debug)]
pub enum Effect {
    /// The reply is in place; nothing is to be done on disk.
    Done,
    /// Remove this file, then report to `finish`.
    RemoveFile(String),
    /// Remove this directory and all below it, then report to `finish`.
    RemoveDir(String),
    /// Create this directory, then report to `finish`.
    CreateDir(String),
    /// List this directory, then report to `finish` with the listing.
    List(String),
    /// Open this file for reading, then report to `finish`.
    OpenRead(String),
    /// Create or truncate this file for writing, then report to `finish`.
    OpenWrite(String),
    /// Move the first path to the second, then report to `finish`.
    Rename(String, String),
    /// The reply is in place; this data connection was dropped with the
    /// failed transfer, and its socket is to be shut.
    Abandon(usize),
}

impl FTPServer {


    /// The first step of a path command of a logged-in session.
    fn path_request(&mut self, token: usize, cmd: &Command) -> (r: Next)
        requires
            old(self).wf(),
            is_session(old(self).table(), token),
            logged_in(old(self).table(), token),
            is_path_command(cmd@),
        ensures
            final(self).wf(),
            final(self).spec_users() == old(self).spec_users(),
            final(self).spec_capacity() == old(self).spec_capacity(),
            final(self).spec_admitted() == old(self).spec_admitted(),
            path_outcome(
                old(self).table(),
                final(self).table(),
                old(self).spec_users().view(),
                token,
                cmd@,
                r,
            ),
    {
        let (name, _, has_data, has_rename) = self.session_state(token);
        let name = match name {
            Some(n) => n,
            None => {
                return Next::Done;
            },
        };
        let dir = self.session_dir(token);
        let found: Option<(String, Option<String>)> = match self.users.get_user(name.as_str()) {
            None => None,
            Some(user) => {
                let root = user.get_chroot().clone();
                let target: Option<String> = match cmd {
                    Command::CurrentDirectory => Some(join_path(root.as_str(), dir.as_str())),
                    Command::ChangeDirectory(p) => Some(User::target_path_from(root.as_str(), dir.as_str(), p.as_str())),
                    Command::Delete(p) => Some(User::target_path_from(root.as_str(), dir.as_str(), p.as_str())),
                    Command::RemoveDirectory(p) => Some(User::target_path_from(root.as_str(), dir.as_str(), p.as_str())),
                    Command::List(p) => Some(User::target_path_from(root.as_str(), dir.as_str(), p.as_str())),
                    Command::Retr(p) => Some(User::target_path_from(root.as_str(), dir.as_str(), p.as_str())),
                    Command::RenameFrom(p) => Some(User::target_path_from(root.as_str(), dir.as_str(), p.as_str())),
                    Command::RenameTo(p) => Some(User::target_path_from(root.as_str(), dir.as_str(), p.as_str())),
                    Command::Mkdir(p) => match parent_and_child(p.as_str()) {
                        Some((parent, _)) => Some(User::target_path_from(root.as_str(), dir.as_str(), parent.as_str())),
                        None => None,
                    },
                    Command::Store(p) => match parent_and_child(p.as_str()) {
                        Some((parent, _)) => Some(User::target_path_from(root.as_str(), dir.as_str(), parent.as_str())),
                        None => None,
                    },
                    _ => None,
                };
                Some((root, target))
            },
        };
        let (root, target) = match found {
            None => {
                self.update_session(
                    token,
                    None,
                    None,
                    create_response(
                        ResponseCode::file_unavailable(),
                        "Requested action not taken. File unavailable, file not found.",
                    ),
                    None,
                );
                return Next::Done;
            },
            Some(x) => x,
        };
        let wants_data = match cmd {
            Command::List(_) | Command::Retr(_) | Command::Store(_) => true,
            _ => false,
        };
        let is_rename_to = match cmd {
            Command::RenameTo(_) => true,
            _ => false,
        };
        if (wants_data && !has_data) || (is_rename_to && !has_rename) {
            self.update_session(
                token,
                None,
                None,
                create_response(ResponseCode::bad_sequence_of_commands(), "Bad sequence of commands."),
                None,
            );
            return Next::Done;
        }
        match target {
            None => {
                self.update_session(
                    token,
                    None,
                    None,
                    create_response(
                        ResponseCode::file_unavailable(),
                        "Requested action not taken. File unavailable, file not found.",
                    ),
                    None,
                );
                Next::Done
            },
            Some(t) => Next::Resolve(root, t),
        }
    }

    /// `PASS`: logs the session in when the password is right, and creates
    /// the account when none of its name exists.
    fn password_request(&mut self, token: usize, pwd: &str) -> (r: Next)
        requires
            old(self).wf(),
            is_session(old(self).table(), token),
        ensures
            final(self).wf(),
            final(self).spec_capacity() == old(self).spec_capacity(),
            final(self).spec_admitted() == old(self).spec_admitted(),
            password_outcome(
                old(self).table(),
                final(self).table(),
                old(self).spec_users().view(),
                final(self).spec_users().view(),
                token,
                pwd@,
                r,
            ),
    {
        let (name, _, _, _) = self.session_state(token);
        let name = match name {
            None => {
                self.update_session(
                    token,
                    None,
                    None,
                    create_response(ResponseCode::unauthorized(), "Not logged in."),
                    None,
                );
                return Next::Done;
            },
            Some(n) => n,
        };
        if self.users.user_exists(name.as_str()) {
            if self.users.has_passwd(name.as_str(), pwd) {
                self.update_session(
                    token,
                    Some((Some(name), true)),
                    None,
                    create_response(ResponseCode::login_success(), "User logged in, proceed."),
                    None,
                );
                self.set_dir(token, start_dir_text());
            } else {
                self.update_session(
                    token,
                    None,
                    None,
                    create_response(ResponseCode::unauthorized(), "Not logged in."),
                    None,
                );
            }
            return Next::Done;
        }
        match self.users.create_user(name.as_str(), pwd) {
            Err(_) => {
                self.update_session(
                    token,
                    None,
                    None,
                    create_response(ResponseCode::unauthorized(), "Not logged in."),
                    None,
                );
                Next::Done
            },
            Ok(()) => {
                let home = match self.users.get_user(name.as_str()) {
                    Some(u) => u.get_chroot().clone(),
                    None => String::new(),
                };
                self.update_session(
                    token,
                    Some((Some(name), true)),
                    None,
                    create_response(ResponseCode::login_success(), "User logged in, proceed."),
                    None,
                );
                self.set_dir(token, start_dir_text());
                Next::Created(home)
            },
        }
    }

    /// Handles one request line of control connection `token`: answers it,
    /// or says which outside work its answer needs.
    pub fn handle_request(&mut self, token: usize, line: &[u8]) -> (r: Next)
        requires
            old(self).wf(),
            is_session(old(self).table(), token),
        ensures
            final(self).wf(),
            final(self).spec_capacity() == old(self).spec_capacity(),
            final(self).spec_admitted() == old(self).spec_admitted(),
            ({
                let t0 = old(self).table();
                let t1 = final(self).table();
                match parse_request(line@) {
                    Err(e) => r is Done && answered(t0, t1, token, reply(500, e.spec_message()))
                        && session_kept(t0, t1, token) && final(self).spec_users() == old(self).spec_users(),
                    Ok(c) => if c.needs_auth() && !logged_in(t0, token) {
                        r is Done && answered(t0, t1, token, reply(531, "Unauthorized."))
                            && session_kept(t0, t1, token) && final(self).spec_users() == old(self).spec_users()
                    } else {
                        match c {
                            CommandView::User(n) => r is Done && answered(
                                t0,
                                t1,
                                token,
                                reply(331, "User name okay, need password."),
                            ) && (t1[token].user_id matches Some(u) && u@ == n) && !t1[token].loged
                                && final(self).spec_users() == old(self).spec_users(),
                            CommandView::Quit => r is Done && answered(
                                t0,
                                t1,
                                token,
                                reply(221, "Service closing control connection."),
                            ) && out_of(t1, token).spec_after_send() == Some(
                                AfterSend::ShutdownControl,
                            ) && final(self).spec_users() == old(self).spec_users(),
                            CommandView::Port(ip, port) => (r matches Next::Connect(a, p) && a@
                                == ip && p == port) && t1 == t0 && final(self).spec_users()
                                == old(self).spec_users(),
                            CommandView::Passive => r is Bind && t1 == t0 && final(self).spec_users() == old(self).spec_users(),
                            CommandView::Password(pwd) => password_outcome(
                                t0,
                                t1,
                                old(self).spec_users().view(),
                                final(self).spec_users().view(),
                                token,
                                pwd,
                                r,
                            ),
                            _ => is_path_command(c) && path_outcome(
                                t0,
                                t1,
                                old(self).spec_users().view(),
                                token,
                                c,
                                r,
                            ) && final(self).spec_users() == old(self).spec_users(),
                        }
                    },
                }
            }),
    {
        let cmd = match Command::try_from(line) {
            Err(e) => {
                self.update_session(
                    token,
                    None,
                    None,
                    create_response(
                        ResponseCode::new_from_enums(
                            crate::response::CodeFirst::PermanentNegativeCompletion,
                            crate::response::CodeSecond::Syntax,
                            0,
                        ),
                        e.message(),
                    ),
                    None,
                );
                return Next::Done;
            },
            Ok(c) => c,
        };
        let (name, loged, _, _) = self.session_state(token);
        if cmd.is_auth_command() && (name.is_none() || !loged) {
            self.update_session(
                token,
                None,
                None,
                create_response(
                    ResponseCode::new_from_enums(
                        crate::response::CodeFirst::PermanentNegativeCompletion,
                        crate::response::CodeSecond::AuthenticationAndAccounting,
                        1,
                    ),
                    "Unauthorized.",
                ),
                None,
            );
            return Next::Done;
        }
        match cmd {
            Command::User(n) => {
                self.update_session(
                    token,
                    Some((Some(n), false)),
                    None,
                    create_response(ResponseCode::username_okay(), "User name okay, need password."),
                    None,
                );
                Next::Done
            },
            Command::Password(pwd) => self.password_request(token, pwd.as_str()),
            Command::Quit => {
                self.update_session(
                    token,
                    None,
                    None,
                    create_response(
                        ResponseCode::closing_control_connection_success(),
                        "Service closing control connection.",
                    ),
                    Some(AfterSend::ShutdownControl),
                );
                Next::Done
            },
            Command::Port(ip, port) => Next::Connect(ip, port),
            Command::Passive => Next::Bind,
            other => self.path_request(token, &other),
        }
    }

    /// The second step of a path command: `canonical_root` and
    /// `canonical_target` are the canonical forms of the root and the target
    /// that `handle_request` gave, `None` where they do not exist. Answers,
    /// or says what to do on disk.
    pub fn resolved(
        &mut self,
        token: usize,
        cmd: &Command,
        canonical_root: Option<&str>,
        canonical_target: Option<&str>,
    ) -> (r: Effect)
        requires
            old(self).wf(),
            is_session(old(self).table(), token),
            logged_in(old(self).table(), token),
            is_path_command(cmd@),
        ensures
            canonical_root matches Some(root) ==> effect_within(r, root@),
            final(self).wf(),
            final(self).spec_capacity() == old(self).spec_capacity(),
            final(self).spec_admitted() == old(self).spec_admitted(),
            ({
                let t0 = old(self).table();
                let t1 = final(self).table();
                let users = old(self).spec_users().view();
                let name = t0[token].user_id->Some_0@;
                let fail = reply(550, "Requested action not taken. File unavailable, file not found.");
                if canonical_root is None || canonical_target is None || !within(
                    canonical_root->Some_0@,
                    canonical_target->Some_0@,
                ) {
                    &&& final(self).spec_users() == old(self).spec_users()
                    &&& t1[token].user_id == t0[token].user_id
                    &&& t1[token].loged == t0[token].loged
                    &&& t1[token].rename_from == t0[token].rename_from
                    &&& t1[token].current_dir == t0[token].current_dir
                    &&& needs_data(cmd@) ==> (r is Done || r is Abandon) && transfer_failed(t0, t1, token, abandoned(r))
                    &&& !needs_data(cmd@) ==> r is Done && answered(t0, t1, token, fail) && session_kept(t0, t1, token)
                } else {
                    let root = canonical_root->Some_0@;
                    let target = canonical_target->Some_0@;
                    match cmd@ {
                        CommandView::CurrentDirectory => r is Done && answered(
                            t0,
                            t1,
                            token,
                            reply_line(257, flatten(encode_utf8(shown_from(root, target)))),
                        ) && session_kept(t0, t1, token) && final(self).spec_users() == old(self).spec_users(),
                        CommandView::ChangeDirectory(p) => {
                            &&& r is Done
                            &&& answered(t0, t1, token, reply(250, "Requested file action okay, completed."))
                            &&& t1[token].current_dir@ == candidate_dir(t0[token].current_dir@, p)
                            &&& t1[token].user_id == t0[token].user_id
                            &&& t1[token].loged == t0[token].loged
                            &&& t1[token].rename_from == t0[token].rename_from
                            &&& final(self).spec_users() == old(self).spec_users()
                        },
                        CommandView::RenameFrom(_) => r is Done && answered(
                            t0,
                            t1,
                            token,
                            reply(350, "Requested file action pending further information."),
                        ) && (t1[token].rename_from matches Some(f) && f@ == target)
                            && t1[token].user_id == t0[token].user_id && t1[token].loged == t0[token].loged
                            && final(self).spec_users() == old(self).spec_users(),
                        CommandView::Mkdir(p) => final(self).spec_users() == old(self).spec_users() && match split_child(p) {
                            Some((_, child)) => t1 == t0 && (r matches Effect::CreateDir(x)
                                && x@ == push_path(target, child)),
                            None => r is Done && answered(t0, t1, token, fail) && session_kept(t0, t1, token),
                        },
                        CommandView::Store(p) => final(self).spec_users() == old(self).spec_users() && match split_child(p) {
                            Some((_, child)) => t1 == t0 && (r matches Effect::OpenWrite(x)
                                && x@ == push_path(target, child)),
                            None => r is Done && answered(t0, t1, token, fail) && session_kept(t0, t1, token),
                        },
                        CommandView::RenameTo(_) => final(self).spec_users() == old(self).spec_users() && match t0[token].rename_from {
                            Some(from) => t1 == t0 && (r matches Effect::Rename(a, b) && from@ == a@ && b@ == target),
                            None => r is Done && answered(t0, t1, token, reply(503, "Bad sequence of commands."))
                                && session_kept(t0, t1, token),
                        },
                        _ => t1 == t0 && final(self).spec_users() == old(self).spec_users() && match cmd@ {
                            CommandView::Delete(_) => r matches Effect::RemoveFile(x) && x@ == target,
                            CommandView::RemoveDirectory(_) => r matches Effect::RemoveDir(x) && x@ == target,
                            CommandView::List(_) => r matches Effect::List(x) && x@ == target,
                            CommandView::Retr(_) => r matches Effect::OpenRead(x) && x@ == target,
                            _ => false,
                        },
                    }
                }
            }),
    {
        let fail = "Requested action not taken. File unavailable, file not found.";
        let transfer = match cmd {
            Command::Retr(_) | Command::Store(_) | Command::List(_) => true,
            _ => false,
        };
        let (root, target) = match (canonical_root, canonical_target) {
            (Some(a), Some(b)) => (a, b),
            _ => {
                return self.refuse_path(token, transfer);
            },
        };
        if !is_within(root, target) {
            return self.refuse_path(token, transfer);
        }
        proof {
            lemma_within_has_root_prefix(root@, target@);
        }
        if let Command::CurrentDirectory = cmd {
            let shown = show_from(root, target);
            self.update_session(
                token,
                None,
                None,
                create_response(ResponseCode::directory_action_okay(), shown.as_str()),
                None,
            );
            return Effect::Done;
        }
        match cmd {
            Command::ChangeDirectory(p) => {
                let dir = self.session_dir(token);
                self.set_dir(token, candidate(dir.as_str(), p.as_str()));
                self.update_session(
                    token,
                    None,
                    None,
                    create_response(
                        ResponseCode::file_action_okay(),
                        "Requested file action okay, completed.",
                    ),
                    None,
                );
                Effect::Done
            },
            Command::RenameFrom(_) => {
                self.update_session(
                    token,
                    None,
                    Some(Some(String::from_str(target))),
                    create_response(
                        ResponseCode::file_action_pending(),
                        "Requested file action pending further information.",
                    ),
                    None,
                );
                Effect::Done
            },
            Command::Delete(_) => Effect::RemoveFile(String::from_str(target)),
            Command::RemoveDirectory(_) => Effect::RemoveDir(String::from_str(target)),
            Command::List(_) => Effect::List(String::from_str(target)),
            Command::Retr(_) => Effect::OpenRead(String::from_str(target)),
            Command::Mkdir(p) => match parent_and_child(p.as_str()) {
                Some((_, child)) => {
                    proof {
                        lemma_child_is_relative(p@);
                        lemma_push_keeps_prefix(root@, target@, child@);
                    }
                    Effect::CreateDir(join_path(target, child.as_str()))
                },
                None => {
                    self.update_session(
                        token,
                        None,
                        None,
                        create_response(ResponseCode::file_unavailable(), fail),
                        None,
                    );
                    Effect::Done
                },
            },
            Command::Store(p) => match parent_and_child(p.as_str()) {
                Some((_, child)) => {
                    proof {
                        lemma_child_is_relative(p@);
                        lemma_push_keeps_prefix(root@, target@, child@);
                    }
                    Effect::OpenWrite(join_path(target, child.as_str()))
                },
                None => {
                    self.update_session(
                        token,
                        None,
                        None,
                        create_response(ResponseCode::file_unavailable(), fail),
                        None,
                    );
                    Effect::Done
                },
            },
            Command::RenameTo(_) => {
                let from = match self.connections.get(&token) {
                    Some(ctx) => match &ctx.rename_from {
                        Some(f) => Some(f.clone()),
                        None => None,
                    },
                    None => None,
                };
                match from {
                    Some(f) => Effect::Rename(f, String::from_str(target)),
                    None => {
                        self.update_session(
                            token,
                            None,
                            None,
                            create_response(
                                ResponseCode::bad_sequence_of_commands(),
                                "Bad sequence of commands.",
                            ),
                            None,
                        );
                        Effect::Done
                    },
                }
            },
            _ => Effect::Done,
        }
    }

    /// Refuses a path that does not exist or leaves the root: `550`, and a
    /// transfer command drops its data connection.
    fn refuse_path(&mut self, token: usize, transfer: bool) -> (r: Effect)
        requires
            old(self).wf(),
            is_session(old(self).table(), token),
        ensures
            final(self).wf(),
            final(self).spec_users() == old(self).spec_users(),
            final(self).spec_capacity() == old(self).spec_capacity(),
            final(self).spec_admitted() == old(self).spec_admitted(),
            final(self).table()[token].user_id == old(self).table()[token].user_id,
            final(self).table()[token].loged == old(self).table()[token].loged,
            final(self).table()[token].rename_from == old(self).table()[token].rename_from,
            final(self).table()[token].current_dir == old(self).table()[token].current_dir,
            transfer ==> (r is Done || r is Abandon) && transfer_failed(old(self).table(), final(self).table(), token, abandoned(r)),
            !transfer ==> r is Done && answered(
                old(self).table(),
                final(self).table(),
                token,
                reply(550, "Requested action not taken. File unavailable, file not found."),
            ) && session_kept(old(self).table(), final(self).table(), token),
    {
        if transfer {
            match self.fail_transfer(token) {
                Some(d) => Effect::Abandon(d),
                None => Effect::Done,
            }
        } else {
            self.update_session(
                token,
                None,
                None,
                create_response(
                    ResponseCode::file_unavailable(),
                    "Requested action not taken. File unavailable, file not found.",
                ),
                None,
            );
            Effect::Done
        }
    }

    /// Fails a transfer command of control connection `token`: drops its
    /// data connection, if any, and answers `550`. Returns the dropped one.
    fn fail_transfer(&mut self, token: usize) -> (r: Option<usize>)
        requires
            old(self).wf(),
            is_session(old(self).table(), token),
        ensures
            final(self).wf(),
            final(self).spec_users() == old(self).spec_users(),
            final(self).spec_capacity() == old(self).spec_capacity(),
            final(self).spec_admitted() == old(self).spec_admitted(),
            transfer_failed(old(self).table(), final(self).table(), token, r),
            final(self).table()[token].user_id == old(self).table()[token].user_id,
            final(self).table()[token].loged == old(self).table()[token].loged,
            final(self).table()[token].rename_from == old(self).table()[token].rename_from,
            final(self).table()[token].current_dir == old(self).table()[token].current_dir,
    {
        let fail = create_response(
            ResponseCode::file_unavailable(),
            "Requested action not taken. File unavailable, file not found.",
        );
        match self.data_ref(token) {
            Some(d) => {
                proof {
                    assert(self.table().contains_key(d) && is_data(self.table()[d].request_type));
                }
                self.drop_data(d, token, Some(fail));
                Some(d)
            },
            None => {
                self.update_session(token, None, None, fail, None);
                assert(final(self).table().remove(token) =~= old(self).table().remove(token));
                None
            },
        }
    }

    /// The last step of a path command whose `Effect` was carried out:
    /// `ok` tells whether it worked, and `listing` holds what `LIST` found.
    /// Answers; a transfer answers `150` and arms its data connection to
    /// start once the `150` is out.
    pub fn finish(&mut self, token: usize, cmd: &Command, ok: bool, listing: Vec<u8>) -> (r: Option<usize>)
        requires
            old(self).wf(),
            is_session(old(self).table(), token),
        ensures
            final(self).wf(),
            final(self).spec_users() == old(self).spec_users(),
            final(self).spec_capacity() == old(self).spec_capacity(),
            final(self).spec_admitted() == old(self).spec_admitted(),
            ({
                let t0 = old(self).table();
                let t1 = final(self).table();
                let fail = reply(550, "Requested action not taken. File unavailable, file not found.");
                let d = data_ref_of(t0[token].request_type);
                &&& t1[token].user_id == t0[token].user_id
                &&& t1[token].current_dir == t0[token].current_dir
                &&& t1[token].loged == t0[token].loged
                &&& cmd@ is RenameTo ==> t1[token].rename_from is None
                &&& !(cmd@ is RenameTo) ==> t1[token].rename_from == t0[token].rename_from
                &&& !ok && needs_data(cmd@) ==> transfer_failed(t0, t1, token, r)
                &&& !ok && !needs_data(cmd@) ==> answered(t0, t1, token, fail) && r is None
                &&& ok ==> r is None
                &&& ok ==> match cmd@ {
                    CommandView::Delete(_) => answered(t0, t1, token, reply(250, "Requested file action okay, completed.")),
                    CommandView::RemoveDirectory(_) => answered(t0, t1, token, reply(250, "Requested file action okay, completed.")),
                    CommandView::RenameTo(_) => answered(t0, t1, token, reply(250, "Requested file action okay, completed.")),
                    CommandView::Mkdir(p) => match split_child(p) {
                        Some((_, child)) => answered(t0, t1, token, reply_line(257, flatten(encode_utf8(created_message(child))))),
                        None => answered(t0, t1, token, fail),
                    },
                    CommandView::Retr(_) => match d {
                        Some(dh) => answered(t0, t1, token, reply(150, "File download starts!"))
                            && out_of(t1, token).spec_after_send() == Some(AfterSend::StartDownload(dh)),
                        None => answered(t0, t1, token, reply(503, "Bad sequence of commands.")),
                    },
                    CommandView::Store(_) => match d {
                        Some(dh) => answered(t0, t1, token, reply(150, "File status okay; about to open data connection."))
                            && out_of(t1, token).spec_after_send() == Some(AfterSend::StartUpload(dh)),
                        None => answered(t0, t1, token, reply(503, "Bad sequence of commands.")),
                    },
                    CommandView::List(_) => match d {
                        Some(dh) => answered(t0, t1, token, reply(150, "File status okay; about to open data connection."))
                            && (out_of(t1, token).spec_after_send() matches Some(AfterSend::StartListing(e, bytes))
                            && e == dh && bytes@ == listing@),
                        None => answered(t0, t1, token, reply(503, "Bad sequence of commands.")),
                    },
                    _ => answered(t0, t1, token, reply(500, "Syntax error, command unrecognized.")),
                }
            }),
    {
        let fail = "Requested action not taken. File unavailable, file not found.";
        let clear_rename: Option<Option<String>> = match cmd {
            Command::RenameTo(_) => Some(None),
            _ => None,
        };
        let transfer = match cmd {
            Command::Retr(_) | Command::Store(_) | Command::List(_) => true,
            _ => false,
        };
        if !ok && transfer {
            return self.fail_transfer(token);
        }
        if !ok {
            self.update_session(token, None, clear_rename, create_response(ResponseCode::file_unavailable(), fail), None);
            return None;
        }
        let d = match self.connections.get(&token) {
            Some(ctx) => match &ctx.request_type {
                RequestType::CommandTransfer(_, d) => *d,
                _ => None,
            },
            None => None,
        };
        match cmd {
            Command::Delete(_) | Command::RemoveDirectory(_) | Command::RenameTo(_) => {
                self.update_session(
                    token,
                    None,
                    clear_rename,
                    create_response(ResponseCode::file_action_okay(), "Requested file action okay, completed."),
                    None,
                );
            },
            Command::Mkdir(p) => match parent_and_child(p.as_str()) {
                Some((_, child)) => {
                    let text = String::from_str("'").concat(child.as_str()).concat("' directory created.");
                    proof {
                        reveal_strlit("'");
                    }
                    assert(text@ =~= created_message(child@));
                    self.update_session(
                        token,
                        None,
                        None,
                        create_response(ResponseCode::directory_action_okay(), text.as_str()),
                        None,
                    );
                },
                None => {
                    self.update_session(token, None, None, create_response(ResponseCode::file_unavailable(), fail), None);
                },
            },
            Command::Retr(_) | Command::Store(_) | Command::List(_) => match d {
                None => {
                    self.update_session(
                        token,
                        None,
                        None,
                        create_response(ResponseCode::bad_sequence_of_commands(), "Bad sequence of commands."),
                        None,
                    );
                },
                Some(dh) => {
                    let (message, step) = match cmd {
                        Command::Retr(_) => ("File download starts!", AfterSend::StartDownload(dh)),
                        Command::Store(_) => ("File status okay; about to open data connection.", AfterSend::StartUpload(dh)),
                        _ => ("File status okay; about to open data connection.", AfterSend::StartListing(dh, listing)),
                    };
                    self.update_session(
                        token,
                        None,
                        None,
                        create_response(ResponseCode::file_status_okay(), message),
                        Some(step),
                    );
                },
            },
            _ => {
                self.update_session(
                    token,
                    None,
                    None,
                    create_response(
                        ResponseCode::new_from_enums(
                            crate::response::CodeFirst::PermanentNegativeCompletion,
                            crate::response::CodeSecond::Syntax,
                            0,
                        ),
                        "Syntax error, command unrecognized.",
                    ),
                    None,
                );
            },
        }
        None
    }
}

} // verus!
