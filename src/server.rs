use vstd::prelude::*;
use vstd::string::*;
use std::collections::HashMap;
use crate::buffer::{AfterSend, BufferToWrite};
use crate::response::{
    create_response, create_reply, flatten, reply_line, ResponseCode, decimal, push_decimal, push_bytes,
    is_reply_line,
};
use crate::store::SystemUsers;
use crate::user::{start_dir, start_dir_text};

pub mod session;
pub use self::session::{Effect, Next};


verus! {

broadcast use vstd::std_specs::hash::group_hash_axioms;

/// How many bytes one read of a control connection takes in. A read that
/// fills it holds a request too long to serve.
pub const REQUEST_BUFFER: usize = 10024;

/// Whether a read of `read` bytes holds a request that may be served: one
/// that did not fill the request buffer.
pub fn request_fits(read: usize) -> (r: bool)
    ensures
        r == (read < REQUEST_BUFFER),
{
    read < REQUEST_BUFFER
}

/// What a data connection is doing.
#[derive(Debug)]
pub enum FileTransferType {
    /// Receiving a file; holds the reply for the control connection once the
    /// client has closed, and `None` while bytes may still come.
    FileUpload(Option<Vec<u8>>),
    /// Sending a file.
    FileDownload,
    /// Sending these bytes (a listing, or nothing while armed).
    Buffer(BufferToWrite),
}

/// The kind of a record of the connection table. The sockets and files
/// themselves are kept beside the table, under the same handle.
#[derive(Debug)]
pub enum RequestType {
    /// A control connection over capacity, to be told goodbye and shut.
    Closed,
    /// A data connection that the client opened (passive mode), and the
    /// handle of its control connection.
    FileTransferPassive(FileTransferType, usize),
    /// A data connection that the server opened (active mode), and the
    /// handle of its control connection.
    FileTransferActive(FileTransferType, usize),
    /// A control connection: its reply buffer and its data connection.
    CommandTransfer(BufferToWrite, Option<usize>),
    /// A passive-mode listener, and the handle of its control connection.
    PassiveModePort(usize),
}

/// A record of the connection table.
#[derive(Debug)]
pub struct RequestContext {
    pub request_type: RequestType,
    /// The name given by `USER`.
    pub user_id: Option<String>,
    /// Whether `PASS` has accepted the session.
    pub loged: bool,
    /// The source of a rename, given by `RNFR`.
    pub rename_from: Option<String>,
    /// The session's current directory, relative to the user's root.
    pub current_dir: String,
}

impl RequestContext {
    /// A record of kind `request_type` with no login.
    pub fn new(request_type: RequestType) -> (r: Self)
        ensures
            r.request_type == request_type,
            r.user_id is None,
            !r.loged,
            r.rename_from is None,
            r.current_dir@ == start_dir(),
    {
        RequestContext {
            request_type,
            user_id: None,
            loged: false,
            rename_from: None,
            current_dir: start_dir_text(),
        }
    }
}

/// Whether a record belongs to a data connection.
pub open spec fn is_data(r: RequestType) -> bool {
    r is FileTransferPassive || r is FileTransferActive || r is PassiveModePort
}

/// The control connection that a data record reports to.
pub open spec fn peer_of(r: RequestType) -> usize {
    match r {
        RequestType::FileTransferPassive(_, p) => p,
        RequestType::FileTransferActive(_, p) => p,
        RequestType::PassiveModePort(p) => p,
        _ => 0,
    }
}

/// The data connection that a control record refers to.
pub open spec fn data_ref_of(r: RequestType) -> Option<usize> {
    match r {
        RequestType::CommandTransfer(_, d) => d,
        _ => None,
    }
}

/// Every data record belongs to a control record that refers to it, and
/// every reference of a control record leads to a data record that
/// belongs to it.
pub open spec fn linked(t: Map<usize, RequestContext>) -> bool {
    &&& forall|h: usize|
        #![trigger t[h]]
        t.contains_key(h) && is_data(t[h].request_type) ==> {
            &&& t.contains_key(peer_of(t[h].request_type))
            &&& t[peer_of(t[h].request_type)].request_type is CommandTransfer
            &&& data_ref_of(t[peer_of(t[h].request_type)].request_type) == Some(h)
        }
    &&& forall|s: usize|
        #![trigger t[s]]
        t.contains_key(s) && data_ref_of(t[s].request_type) is Some ==> {
            &&& t.contains_key(data_ref_of(t[s].request_type).unwrap())
            &&& is_data(t[data_ref_of(t[s].request_type).unwrap()].request_type)
            &&& peer_of(t[data_ref_of(t[s].request_type).unwrap()].request_type) == s
        }
}

/// The buffers of a record are well formed, and every reply that a
/// control connection holds, or that an upload keeps for it, is a reply
/// line with a code between 100 and 599.
pub open spec fn buffers_wf(r: RequestType) -> bool {
    match r {
        RequestType::CommandTransfer(b, _) => b.wf() && (b.spec_buffer().len() == 0 || is_reply_line(
            b.spec_buffer(),
        )),
        RequestType::FileTransferPassive(FileTransferType::Buffer(b), _) => b.wf(),
        RequestType::FileTransferActive(FileTransferType::Buffer(b), _) => b.wf(),
        RequestType::FileTransferPassive(FileTransferType::FileUpload(Some(m)), _) => is_reply_line(
            m@,
        ),
        RequestType::FileTransferActive(FileTransferType::FileUpload(Some(m)), _) => is_reply_line(
            m@,
        ),
        _ => true,
    }
}

/// The handles of the control connections in a table.
pub open spec fn control_handles(t: Map<usize, RequestContext>) -> Set<usize> {
    t.dom().filter(|h: usize| t[h].request_type is CommandTransfer)
}



/// The kinds of data record that `PORT`, `PASV` and a passive accept make.
#[derive(Debug, Clone, Copy, PartialEq, Eq, Structural)]
pub enum DataKind {
    /// A connection that the server opened to the client.
    Active,
    /// A listener waiting for the client.
    Listener,
    /// A connection that the client opened to the listener.
    Passive,
}

/// What became of a close request.
#[derive(Debug)]
pub enum CloseOutcome {
    /// Nothing is registered under the handle.
    Absent,
    /// An upload may still hold bytes to write to its file: the record stays.
    NotYet,
    /// The record is gone and its socket is to be shut. `notify` is a
    /// control connection with a reply to write; `cascade` a data connection
    /// that went with the record, whose socket is to be shut too.
    Closed { notify: Option<usize>, cascade: Option<usize> },
}

/// A data record whose upload may still have bytes to write to its file.
pub open spec fn upload_pending(r: RequestType) -> bool {
    match r {
        RequestType::FileTransferPassive(FileTransferType::FileUpload(m), _) => m is None,
        RequestType::FileTransferActive(FileTransferType::FileUpload(m), _) => m is None,
        _ => false,
    }
}

/// The reply that a finished upload holds for its control connection.
pub open spec fn upload_reply(r: RequestType) -> Option<Vec<u8>> {
    match r {
        RequestType::FileTransferPassive(FileTransferType::FileUpload(m), _) => m,
        RequestType::FileTransferActive(FileTransferType::FileUpload(m), _) => m,
        _ => None,
    }
}

/// A data record that is sending: a file, or bytes that are not all out.
pub open spec fn sending(r: RequestType) -> bool {
    match r {
        RequestType::FileTransferPassive(FileTransferType::FileDownload, _) => true,
        RequestType::FileTransferActive(FileTransferType::FileDownload, _) => true,
        RequestType::FileTransferPassive(FileTransferType::Buffer(b), _) => b.spec_buffer().len() > 0,
        RequestType::FileTransferActive(FileTransferType::Buffer(b), _) => b.spec_buffer().len() > 0,
        _ => false,
    }
}

/// Two records that link the same way.
pub open spec fn same_shape(a: RequestType, b: RequestType) -> bool {
    &&& is_data(a) == is_data(b)
    &&& peer_of(a) == peer_of(b)
    &&& data_ref_of(a) == data_ref_of(b)
    &&& (a is CommandTransfer) == (b is CommandTransfer)
}

/// Replacing a record by one of the same shape keeps the table linked and
/// keeps its control connections.
pub proof fn lemma_same_shape(t0: Map<usize, RequestContext>, k: usize, v: RequestContext)
    requires
        linked(t0),
        t0.contains_key(k),
        same_shape(t0[k].request_type, v.request_type),
    ensures
        linked(t0.insert(k, v)),
        control_handles(t0.insert(k, v)) == control_handles(t0),
{
    let t1 = t0.insert(k, v);
    assert forall|h: usize| #![trigger t1[h]]
        t1.contains_key(h) && is_data(t1[h].request_type) implies {
        &&& t1.contains_key(peer_of(t1[h].request_type))
        &&& t1[peer_of(t1[h].request_type)].request_type is CommandTransfer
        &&& data_ref_of(t1[peer_of(t1[h].request_type)].request_type) == Some(h)
    } by {
        assert(is_data(t0[h].request_type));
        let q = peer_of(t0[h].request_type);
        assert(t0.contains_key(q));
    }
    assert forall|s: usize| #![trigger t1[s]]
        t1.contains_key(s) && data_ref_of(t1[s].request_type) is Some implies {
        &&& t1.contains_key(data_ref_of(t1[s].request_type).unwrap())
        &&& is_data(t1[data_ref_of(t1[s].request_type).unwrap()].request_type)
        &&& peer_of(t1[data_ref_of(t1[s].request_type).unwrap()].request_type) == s
    } by {
        assert(data_ref_of(t0[s].request_type) is Some);
        let e = data_ref_of(t0[s].request_type).unwrap();
        assert(t0.contains_key(e));
    }
    assert(control_handles(t1) =~= control_handles(t0));
}

/// A control connection has at most one data connection in a linked table:
/// two data records that report to the same control connection are one.
pub proof fn lemma_one_data_connection(t: Map<usize, RequestContext>, a: usize, b: usize)
    requires
        linked(t),
        t.contains_key(a),
        t.contains_key(b),
        is_data(t[a].request_type),
        is_data(t[b].request_type),
        peer_of(t[a].request_type) == peer_of(t[b].request_type),
    ensures
        a == b,
{
    assert(data_ref_of(t[peer_of(t[a].request_type)].request_type) == Some(a));
    assert(data_ref_of(t[peer_of(t[b].request_type)].request_type) == Some(b));
}

/// Whether `k` is a control connection of `t`.
pub open spec fn is_session(t: Map<usize, RequestContext>, k: usize) -> bool {
    t.contains_key(k) && t[k].request_type is CommandTransfer
}

/// The reply buffer of control connection `k`.
pub open spec fn out_of(t: Map<usize, RequestContext>, k: usize) -> BufferToWrite {
    t[k].request_type->CommandTransfer_0
}

/// `t1` is `t0` where control connection `k` has `bytes` as its next reply
/// and keeps its data connection; the other records stay.
pub open spec fn answered(
    t0: Map<usize, RequestContext>,
    t1: Map<usize, RequestContext>,
    k: usize,
    bytes: Seq<u8>,
) -> bool {
    &&& is_session(t1, k)
    &&& t1.remove(k) == t0.remove(k)
    &&& data_ref_of(t1[k].request_type) == data_ref_of(t0[k].request_type)
    &&& out_of(t1, k).spec_buffer() == bytes
    &&& out_of(t1, k).spec_offset() == 0
}







/// The `227` reply that gives the client port `port` to connect to.
pub open spec fn passive_reply(port: u16) -> Seq<u8> {
    reply_line(
        227,
        flatten(
            "Entering Passive Mode (0,0,0,0,".spec_bytes() + decimal((port / 256) as nat) + seq![44u8]
                + decimal((port % 256) as nat) + seq![41u8],
        ),
    )
}

/// `t1` is `t0` where control connection `s` has the new data record `h`
/// of kind `kind` in place of its old one, and `bytes` as its next reply.
pub open spec fn rearmed(
    t0: Map<usize, RequestContext>,
    t1: Map<usize, RequestContext>,
    s: usize,
    h: usize,
    kind: DataKind,
    bytes: Seq<u8>,
) -> bool {
    &&& !t0.contains_key(h)
    &&& t1.contains_key(h)
    &&& is_session(t1, s)
    &&& data_ref_of(t1[s].request_type) == Some(h)
    &&& out_of(t1, s).spec_buffer() == bytes
    &&& out_of(t1, s).spec_offset() == 0
    &&& t1[s].user_id == t0[s].user_id
    &&& t1[s].loged == t0[s].loged
    &&& t1[s].rename_from == t0[s].rename_from
    &&& t1[s].current_dir == t0[s].current_dir
    &&& peer_of(t1[h].request_type) == s
    &&& match kind {
        DataKind::Active => t1[h].request_type matches RequestType::FileTransferActive(
            FileTransferType::Buffer(b),
            _,
        ) && b.spec_buffer().len() == 0,
        DataKind::Listener => t1[h].request_type is PassiveModePort,
        DataKind::Passive => t1[h].request_type matches RequestType::FileTransferPassive(
            FileTransferType::Buffer(b),
            _,
        ) && b.spec_buffer().len() == 0,
    }
    &&& t1.remove(h).remove(s) == match data_ref_of(t0[s].request_type) {
        Some(d) => t0.remove(d).remove(s),
        None => t0.remove(s),
    }
}


/// The reply that a finished transfer sends on its control connection.
pub open spec fn done_reply() -> Seq<u8> {
    reply(
        226,
        "Closing data connection. Requested file action successful (for example, file transfer or file abort).",
    )
}

/// The reply that a finished download sends on its control connection.
pub open spec fn download_reply() -> Seq<u8> {
    reply(226, "Closing data connection. Requested file action successful. (file transfer)")
}

/// The payload of a data connection record.
pub open spec fn payload_of(r: RequestType) -> Option<FileTransferType> {
    match r {
        RequestType::FileTransferPassive(f, _) => Some(f),
        RequestType::FileTransferActive(f, _) => Some(f),
        _ => None,
    }
}

/// Once a control connection is gone from a linked table, no data
/// connection that reported to it is left.
pub proof fn lemma_no_orphans(t: Map<usize, RequestContext>, s: usize, d: usize)
    requires
        linked(t),
        !t.contains_key(s),
        t.contains_key(d),
        is_data(t[d].request_type),
    ensures
        peer_of(t[d].request_type) != s,
{
}

/// Every reply that a control connection of the server holds is one line
/// `ddd message\r\n` with a code between 100 and 599.
pub proof fn lemma_replies_are_lines(server: &FTPServer, k: usize)
    requires
        server.wf(),
        is_session(server.table(), k),
        out_of(server.table(), k).spec_buffer().len() > 0,
    ensures
        is_reply_line(out_of(server.table(), k).spec_buffer()),
{
    assert(buffers_wf(server.table()[k].request_type));
}

/// The handles of the data connections (listeners included) in a table.
pub open spec fn data_handles(t: Map<usize, RequestContext>) -> Set<usize> {
    t.dom().filter(|h: usize| is_data(t[h].request_type))
}

/// The handles of the connections turned away over capacity in a table.
pub open spec fn closed_handles(t: Map<usize, RequestContext>) -> Set<usize> {
    t.dom().filter(|h: usize| t[h].request_type is Closed)
}

/// The table never holds more records than the capacity, plus the data
/// connections in progress, plus the connections turned away over capacity
/// that wait for their goodbye.
pub proof fn lemma_table_size(server: &FTPServer)
    requires
        server.wf(),
    ensures
        server.table().len() <= server.spec_capacity() + data_handles(server.table()).len()
            + closed_handles(server.table()).len(),
{
    let t = server.table();
    let c = control_handles(t);
    let d = data_handles(t);
    let z = closed_handles(t);
    t.dom().lemma_len_filter(|h: usize| t[h].request_type is CommandTransfer);
    t.dom().lemma_len_filter(|h: usize| is_data(t[h].request_type));
    t.dom().lemma_len_filter(|h: usize| t[h].request_type is Closed);
    assert(t.dom() =~= c.union(d).union(z));
    vstd::set_lib::lemma_len_union(c, d);
    vstd::set_lib::lemma_len_union(c.union(d), z);
}





/// Control connection `k` keeps its login, its rename source, its current
/// directory and the step after its reply.
pub open spec fn session_kept(
    t0: Map<usize, RequestContext>,
    t1: Map<usize, RequestContext>,
    k: usize,
) -> bool {
    &&& t1[k].user_id == t0[k].user_id
    &&& t1[k].loged == t0[k].loged
    &&& t1[k].rename_from == t0[k].rename_from
    &&& t1[k].current_dir == t0[k].current_dir
    &&& out_of(t1, k).spec_after_send() == out_of(t0, k).spec_after_send()
}

/// Whether control connection `k` has logged in.
pub open spec fn logged_in(t: Map<usize, RequestContext>, k: usize) -> bool {
    t[k].user_id is Some && t[k].loged
}

/// The reply line `code message\r\n`, with the message's line breaks
/// written as spaces.
pub open spec fn reply(code: u16, message: &str) -> Seq<u8> {
    reply_line(code, flatten(message.spec_bytes()))
}

/// The connection table of the server, with the accounts it logs in.
pub struct FTPServer {
    connections: HashMap<usize, RequestContext>,
    current_id: usize,
    max_connections: usize,
    current_connections: usize,
    users: SystemUsers,
}

impl FTPServer {
    pub closed spec fn table(&self) -> Map<usize, RequestContext> {
        self.connections@
    }

    pub closed spec fn spec_users(&self) -> SystemUsers {
        self.users
    }

    pub closed spec fn spec_current_id(&self) -> usize {
        self.current_id
    }

    pub closed spec fn spec_capacity(&self) -> usize {
        self.max_connections
    }

    pub closed spec fn spec_admitted(&self) -> usize {
        self.current_connections
    }

    /// The table is linked, its buffers are well formed, every handle has
    /// been handed out, and no more control connections were admitted than
    /// the capacity allows.
    pub open spec fn wf(&self) -> bool {
        self.wf_with(self.table())
    }

    /// `wf`, for the server holding the table `t`.
    pub open spec fn wf_with(&self, t: Map<usize, RequestContext>) -> bool {
        &&& self.spec_users().wf()
        &&& linked(t)
        &&& forall|h: usize| #[trigger]
            t.contains_key(h) ==> 0 < h <= self.spec_current_id() && buffers_wf(t[h].request_type)
        &&& self.spec_admitted() <= self.spec_capacity()
        &&& t.dom().finite()
        &&& control_handles(t).len() == self.spec_admitted()
    }

    /// A server that admits at most `max_connections` control connections.
    pub fn with_connection_capacity(max_connections: usize, users: SystemUsers) -> (r: FTPServer)
        requires
            users.wf(),
        ensures
            r.wf(),
            r.table() == Map::<usize, RequestContext>::empty(),
            r.spec_capacity() == max_connections,
            r.spec_admitted() == 0,
            r.spec_current_id() == 0,
            r.spec_users() == users,
    {
        let r = FTPServer {
            connections: HashMap::new(),
            current_id: 0,
            max_connections,
            current_connections: 0,
            users,
        };
        assert(r.table() =~= Map::<usize, RequestContext>::empty());
        assert(control_handles(r.table()) =~= Set::<usize>::empty());
        r
    }

    /// A server with room for fifty control connections.
    pub fn new(users: SystemUsers) -> (r: FTPServer)
        requires
            users.wf(),
        ensures
            r.wf(),
            r.table() == Map::<usize, RequestContext>::empty(),
            r.spec_capacity() == 50,
            r.spec_current_id() == 0,
            r.spec_admitted() == 0,
            r.spec_users() == users,
    {
        FTPServer::with_connection_capacity(50, users)
    }

    /// The accounts.
    pub fn users(&self) -> (r: &SystemUsers)
        ensures
            *r == self.spec_users(),
    {
        &self.users
    }

    /// A fresh handle, above every handle handed out so far.
    pub fn next_id(&mut self) -> (r: Option<usize>)
        requires
            old(self).wf(),
        ensures
            final(self).wf(),
            final(self).table() == old(self).table(),
            final(self).spec_users() == old(self).spec_users(),
            final(self).spec_capacity() == old(self).spec_capacity(),
            final(self).spec_admitted() == old(self).spec_admitted(),
            old(self).spec_current_id() < usize::MAX ==> r == Some(
                (old(self).spec_current_id() + 1) as usize,
            ),
            r matches Some(h) ==> !old(self).table().contains_key(h) && h > 0
                && final(self).spec_current_id() == h && h == old(self).spec_current_id() + 1,
            r is None ==> final(self).spec_current_id() == old(self).spec_current_id(),
    {
        if self.current_id == usize::MAX {
            return None;
        }
        self.current_id = self.current_id + 1;
        Some(self.current_id)
    }

    /// Registers a control connection just accepted. Over capacity the
    /// record is `Closed`; otherwise it is a session that starts by greeting
    /// the client with `220`. `None` when no handle is left.
    pub fn new_connection(&mut self) -> (r: Option<(usize, bool)>)
        requires
            old(self).wf(),
        ensures
            final(self).wf(),
            final(self).spec_users() == old(self).spec_users(),
            final(self).spec_capacity() == old(self).spec_capacity(),
            old(self).spec_current_id() < usize::MAX ==> r is Some,
            r is None ==> final(self).table() == old(self).table(),
            r matches Some((h, admitted)) ==> {
                &&& h == old(self).spec_current_id() + 1
                &&& !old(self).table().contains_key(h)
                &&& final(self).table().contains_key(h)
                &&& final(self).table().remove(h) == old(self).table()
                &&& admitted == (old(self).spec_admitted() < old(self).spec_capacity())
                &&& !admitted ==> final(self).table()[h].request_type is Closed
                &&& admitted ==> (final(self).table()[h].request_type matches
                    RequestType::CommandTransfer(b, d) && d is None && b.spec_buffer() == reply(
                    220,
                    "Service ready for new user.",
                ) && b.spec_offset() == 0 && b.spec_after_send() is None)
                &&& final(self).table()[h].user_id is None
                &&& !final(self).table()[h].loged
                &&& final(self).table()[h].rename_from is None
            },
    {
        let h = match self.next_id() {
            Some(h) => h,
            None => return None,
        };
        let ghost t0 = self.table();
        if self.max_connections <= self.current_connections {
            let ctx = RequestContext::new(RequestType::Closed);
            self.connections.insert(h, ctx);
            proof {
                assert(control_handles(self.table()) =~= control_handles(t0));
                assert(self.table().remove(h) =~= t0);
            }
            return Some((h, false));
        }
        let greeting = create_response(ResponseCode::service_ready(), "Service ready for new user.");
        let ctx = RequestContext::new(RequestType::CommandTransfer(BufferToWrite::new(greeting), None));
        self.connections.insert(h, ctx);
        self.current_connections = self.current_connections + 1;
        proof {
            assert(control_handles(self.table()) =~= control_handles(t0).insert(h));
            assert(self.table().remove(h) =~= t0);
        }
        Some((h, true))
    }

    /// Clears the data reference of control connection `p`; where `message`
    /// is given, it becomes the next reply of `p`.
    fn detach_peer(&mut self, p: usize, message: Option<Vec<u8>>)
        requires
            message matches Some(m) ==> is_reply_line(m@),
            old(self).table().contains_key(p),
            old(self).table()[p].request_type is CommandTransfer,
            buffers_wf(old(self).table()[p].request_type),
        ensures
            final(self).table().contains_key(p),
            final(self).table().remove(p) == old(self).table().remove(p),
            final(self).spec_users() == old(self).spec_users(),
            final(self).spec_current_id() == old(self).spec_current_id(),
            final(self).spec_capacity() == old(self).spec_capacity(),
            final(self).spec_admitted() == old(self).spec_admitted(),
            final(self).table()[p].user_id == old(self).table()[p].user_id,
            final(self).table()[p].loged == old(self).table()[p].loged,
            final(self).table()[p].rename_from == old(self).table()[p].rename_from,
            final(self).table()[p].current_dir == old(self).table()[p].current_dir,
            final(self).table()[p].request_type matches RequestType::CommandTransfer(b, d) && d is None
                && b.wf() && match message {
                Some(m) => b.spec_buffer() == m@ && b.spec_offset() == 0
                    && b.spec_after_send() == old(self).table()[p].request_type->CommandTransfer_0.spec_after_send(),
                None => b == old(self).table()[p].request_type->CommandTransfer_0,
            },
    {
        let ctx = self.connections.remove(&p);
        match ctx {
            Some(mut ctx) => {
                let rt = ctx.request_type;
                match rt {
                    RequestType::CommandTransfer(mut b, _) => {
                        match message {
                            Some(m) => b.reset(m),
                            None => {},
                        }
                        ctx.request_type = RequestType::CommandTransfer(b, None);
                    },
                    other => {
                        ctx.request_type = other;
                    },
                }
                self.connections.insert(p, ctx);
                proof {
                    assert(self.table().remove(p) =~= old(self).table().remove(p));
                }
            },
            None => {},
        }
    }

    /// Closes what is registered under `token`, on a hang-up or an error.
    /// A control connection takes its data connection with it. A data
    /// connection is detached from its control connection, which gets the
    /// reply of a finished upload, or `426` where a download or a listing
    /// was cut. An upload that has not seen the client's close yet stays.
    pub fn close_connection(&mut self, token: usize) -> (r: CloseOutcome)
        requires
            old(self).wf(),
        ensures
            final(self).wf(),
            final(self).spec_users() == old(self).spec_users(),
            final(self).spec_capacity() == old(self).spec_capacity(),
            !old(self).table().contains_key(token) ==> r is Absent && final(self).table() == old(self).table(),
            old(self).table().contains_key(token) && upload_pending(
                old(self).table()[token].request_type,
            ) ==> r is NotYet && final(self).table() == old(self).table(),
            r is Closed ==> !final(self).table().contains_key(token),
            forall|h: usize| #[trigger]
                final(self).table().contains_key(h) && is_data(final(self).table()[h].request_type)
                    ==> peer_of(final(self).table()[h].request_type) != token,
            old(self).table().contains_key(token) ==> match old(self).table()[token].request_type {
                RequestType::Closed => r == (CloseOutcome::Closed { notify: None, cascade: None })
                    && final(self).table() == old(self).table().remove(token),
                RequestType::CommandTransfer(_, d) => r == (CloseOutcome::Closed {
                    notify: None,
                    cascade: d,
                }) && final(self).table() == match d {
                    Some(dh) => old(self).table().remove(token).remove(dh),
                    None => old(self).table().remove(token),
                },
                _ => upload_pending(old(self).table()[token].request_type) || {
                    let p = peer_of(old(self).table()[token].request_type);
                    &&& final(self).table().contains_key(p)
                    &&& final(self).table().remove(p) == old(self).table().remove(token).remove(p)
                    &&& data_ref_of(final(self).table()[p].request_type) is None
                    &&& (upload_reply(old(self).table()[token].request_type) is Some || sending(
                        old(self).table()[token].request_type,
                    )) ==> r == (CloseOutcome::Closed { notify: Some(p), cascade: None })
                    &&& upload_reply(old(self).table()[token].request_type) matches Some(m) ==> (
                    final(self).table()[p].request_type matches RequestType::CommandTransfer(b, _)
                        && b.spec_buffer() == m@ && b.spec_offset() == 0)
                    &&& sending(old(self).table()[token].request_type) ==> (final(self).table()[p].request_type matches RequestType::CommandTransfer(b, _)
                        && b.spec_buffer() == reply(426, "Connection closed; transfer aborted.") && b.spec_offset() == 0)
                    &&& !(upload_reply(old(self).table()[token].request_type) is Some || sending(
                        old(self).table()[token].request_type,
                    )) ==> r == (CloseOutcome::Closed { notify: None, cascade: None })
                },
            },
    {
        let ghost t0 = self.table();
        // 0: closed, 1: control, 2: data
        let (kind, other, message, cut): (u8, Option<usize>, Option<Vec<u8>>, bool) = match self.connections.get(&token) {
            None => {
                return CloseOutcome::Absent;
            },
            Some(ctx) => match &ctx.request_type {
                RequestType::Closed => (0, None, None, false),
                RequestType::CommandTransfer(_, d) => (1, *d, None, false),
                RequestType::PassiveModePort(p) => (2, Some(*p), None, false),
                RequestType::FileTransferPassive(ft, p) | RequestType::FileTransferActive(ft, p) => {
                    match ft {
                        FileTransferType::FileUpload(m) => match m {
                            None => {
                                return CloseOutcome::NotYet;
                            },
                            Some(v) => (2, Some(*p), Some(v.clone()), false),
                        },
                        FileTransferType::FileDownload => (2, Some(*p), None, true),
                        FileTransferType::Buffer(b) => (2, Some(*p), None, !b.is_empty()),
                    }
                },
            },
        };
        if kind == 0 {
            self.connections.remove(&token);
            proof {
                assert(control_handles(self.table()) =~= control_handles(t0));
            }
            return CloseOutcome::Closed { notify: None, cascade: None };
        }
        if kind == 1 {
            self.connections.remove(&token);
            match other {
                Some(d) => {
                    self.connections.remove(&d);
                },
                None => {},
            }
            proof {
                assert(control_handles(t0).contains(token));
                assert(control_handles(self.table()) =~= control_handles(t0).remove(token));
                assert(control_handles(t0).len() > 0);
            }
            self.current_connections = self.current_connections - 1;
            return CloseOutcome::Closed { notify: None, cascade: other };
        }
        let p = match other {
            Some(p) => p,
            None => {
                return CloseOutcome::Absent;
            },
        };
        let notify = message.is_some() || cut;
        let msg = match message {
            Some(m) => Some(m),
            None => if cut {
                Some(create_response(
                    ResponseCode::new_from_enums(
                        crate::response::CodeFirst::TransientNegativeCompletion,
                        crate::response::CodeSecond::Connections,
                        6,
                    ),
                    "Connection closed; transfer aborted.",
                ))
            } else {
                None
            },
        };
        self.drop_data(token, p, msg);
        if notify {
            CloseOutcome::Closed { notify: Some(p), cascade: None }
        } else {
            CloseOutcome::Closed { notify: None, cascade: None }
        }
    }

    /// Puts record `k`, taken out as `orig`, back as `v`, which links the
    /// same way.
    fn put_back(&mut self, k: usize, v: RequestContext, Ghost(orig): Ghost<RequestContext>)
        requires
            !old(self).table().contains_key(k),
            old(self).wf_with(old(self).table().insert(k, orig)),
            same_shape(orig.request_type, v.request_type),
            buffers_wf(v.request_type),
        ensures
            final(self).wf(),
            final(self).table() == old(self).table().insert(k, v),
            final(self).spec_users() == old(self).spec_users(),
            final(self).spec_current_id() == old(self).spec_current_id(),
            final(self).spec_capacity() == old(self).spec_capacity(),
            final(self).spec_admitted() == old(self).spec_admitted(),
    {
        proof {
            let t0 = self.table().insert(k, orig);
            lemma_same_shape(t0, k, v);
            assert(t0.insert(k, v) =~= self.table().insert(k, v));
        }
        self.connections.insert(k, v);
    }

    /// Takes record `k` out of the table, for `put_back`.
    fn take(&mut self, k: usize) -> (r: RequestContext)
        requires
            old(self).table().contains_key(k),
        ensures
            r == old(self).table()[k],
            final(self).table() == old(self).table().remove(k),
            final(self).table().insert(k, r) == old(self).table(),
            final(self).spec_users() == old(self).spec_users(),
            final(self).spec_current_id() == old(self).spec_current_id(),
            final(self).spec_capacity() == old(self).spec_capacity(),
            final(self).spec_admitted() == old(self).spec_admitted(),
    {
        let r = match self.connections.remove(&k) {
            Some(v) => v,
            None => {
                proof {
                    assert(false);
                }
                RequestContext::new(RequestType::Closed)
            },
        };
        assert(self.table().insert(k, r) =~= old(self).table());
        r
    }







    /// Gives control connection `s` a new data record of kind `kind`, in
    /// place of the one it had, and `bytes` as its next reply. Returns the
    /// new handle and the replaced one, whose socket is to be shut; `None`
    /// when no handle is left, and then nothing changes.
    fn rearm(&mut self, s: usize, kind: DataKind, bytes: Vec<u8>) -> (r: Option<(usize, Option<usize>)>)
        requires
            is_reply_line(bytes@),
            old(self).wf(),
            is_session(old(self).table(), s),
        ensures
            final(self).wf(),
            final(self).spec_users() == old(self).spec_users(),
            final(self).spec_capacity() == old(self).spec_capacity(),
            final(self).spec_admitted() == old(self).spec_admitted(),
            old(self).spec_current_id() < usize::MAX ==> r is Some,
            r is None ==> final(self).table() == old(self).table(),
            r matches Some((h, d)) ==> d == data_ref_of(old(self).table()[s].request_type)
                && rearmed(old(self).table(), final(self).table(), s, h, kind, bytes@),
            r matches Some((h, _)) ==> h == old(self).spec_current_id() + 1,
    {
        let ghost t0 = self.table();
        let h = match self.next_id() {
            Some(h) => h,
            None => {
                return None;
            },
        };
        let mut ctx = self.take(s);
        let ghost orig = ctx;
        let rt = ctx.request_type;
        let (mut b, d) = match rt {
            RequestType::CommandTransfer(b, d) => (b, d),
            _ => {
                proof {
                    assert(false);
                }
                (BufferToWrite::default(), None)
            },
        };
        match d {
            Some(dh) => {
                self.connections.remove(&dh);
            },
            None => {},
        }
        let record = match kind {
            DataKind::Active => RequestType::FileTransferActive(
                FileTransferType::Buffer(BufferToWrite::default()),
                s,
            ),
            DataKind::Listener => RequestType::PassiveModePort(s),
            DataKind::Passive => RequestType::FileTransferPassive(
                FileTransferType::Buffer(BufferToWrite::default()),
                s,
            ),
        };
        self.connections.insert(
            h,
            RequestContext::new(record),
        );
        b.reset(bytes);
        ctx.request_type = RequestType::CommandTransfer(b, Some(h));
        self.connections.insert(s, ctx);
        proof {
            let t3 = self.table();
            assert(t3.remove(h).remove(s) =~= match d {
                Some(dh) => t0.remove(dh).remove(s),
                None => t0.remove(s),
            });
            assert forall|x: usize| #![trigger t3[x]]
                t3.contains_key(x) && is_data(t3[x].request_type) implies {
                &&& t3.contains_key(peer_of(t3[x].request_type))
                &&& t3[peer_of(t3[x].request_type)].request_type is CommandTransfer
                &&& data_ref_of(t3[peer_of(t3[x].request_type)].request_type) == Some(x)
            } by {
                if x != h {
                    assert(x != s);
                    assert(t0.contains_key(x) && t3[x] == t0[x]);
                    let q = peer_of(t0[x].request_type);
                    assert(t0.contains_key(q) && data_ref_of(t0[q].request_type) == Some(x));
                    assert(q != s);
                    assert(q != h);
                    assert(t3[q] == t0[q]);
                }
            }
            assert forall|y: usize| #![trigger t3[y]]
                t3.contains_key(y) && data_ref_of(t3[y].request_type) is Some implies {
                &&& t3.contains_key(data_ref_of(t3[y].request_type).unwrap())
                &&& is_data(t3[data_ref_of(t3[y].request_type).unwrap()].request_type)
                &&& peer_of(t3[data_ref_of(t3[y].request_type).unwrap()].request_type) == y
            } by {
                if y != s {
                    assert(y != h);
                    assert(t0.contains_key(y) && t3[y] == t0[y]);
                    let e = data_ref_of(t0[y].request_type).unwrap();
                    assert(t0.contains_key(e) && peer_of(t0[e].request_type) == y);
                    assert(e != h);
                    assert(e != s);
                    assert(t3[e] == t0[e]);
                }
            }
            assert forall|x: usize| #[trigger] t3.contains_key(x) implies 0 < x
                <= self.spec_current_id() && buffers_wf(t3[x].request_type) by {
                if x != h && x != s {
                    assert(t3[x] == t0[x]);
                }
            }
            assert forall|x: usize| control_handles(t3).contains(x) == control_handles(t0).contains(x) by {
                if x != h && x != s {
                    if t3.contains_key(x) {
                        assert(t3[x] == t0[x]);
                    }
                    if t0.contains_key(x) && Some(x) != d {
                        assert(t3.contains_key(x));
                        assert(t3[x] == t0[x]);
                    }
                }
            }
            assert(control_handles(t3) =~= control_handles(t0));
        }
        Some((h, d))
    }

    /// The end of `PORT`: `connected` tells whether the connection to the
    /// client's address was made. On success the session is armed with the
    /// new active data record, whose handle is returned with the replaced
    /// one (to be shut), and answers `200`; otherwise it answers `503`.
    pub fn port_connected(&mut self, token: usize, connected: bool) -> (r: Option<(usize, Option<usize>)>)
        requires
            old(self).wf(),
            is_session(old(self).table(), token),
        ensures
            final(self).wf(),
            final(self).spec_users() == old(self).spec_users(),
            final(self).spec_capacity() == old(self).spec_capacity(),
            final(self).spec_admitted() == old(self).spec_admitted(),
            !connected ==> r is None,
            connected && old(self).spec_current_id() < usize::MAX ==> r is Some,
            r is None ==> answered(old(self).table(), final(self).table(), token, reply(503, "Bad sequence of commands."))
                && session_kept(old(self).table(), final(self).table(), token),
            r matches Some((h, d)) ==> d == data_ref_of(old(self).table()[token].request_type)
                && rearmed(old(self).table(), final(self).table(), token, h, DataKind::Active, reply(200, "Command okay."))
                && h == old(self).spec_current_id() + 1,
    {
        if connected {
            let armed = self.rearm(token, DataKind::Active, create_response(ResponseCode::command_okay(), "Command okay."));
            if armed.is_some() {
                return armed;
            }
        }
        self.update_session(
            token,
            None,
            None,
            create_response(ResponseCode::bad_sequence_of_commands(), "Bad sequence of commands."),
            None,
        );
        None
    }

    /// The end of `PASV`: `port` is the port of the listener that was
    /// bound, or `None` where none could be. On success the session is
    /// armed with the listener, whose handle is returned with the replaced
    /// one (to be shut), and answers `227` with the port; otherwise `541`.
    pub fn passive_bound(&mut self, token: usize, port: Option<u16>) -> (r: Option<(usize, Option<usize>)>)
        requires
            old(self).wf(),
            is_session(old(self).table(), token),
        ensures
            final(self).wf(),
            final(self).spec_users() == old(self).spec_users(),
            final(self).spec_capacity() == old(self).spec_capacity(),
            final(self).spec_admitted() == old(self).spec_admitted(),
            port is None ==> r is None,
            port is Some && old(self).spec_current_id() < usize::MAX ==> r is Some,
            r is None ==> answered(old(self).table(), final(self).table(), token, reply(541, "All ports are taken."))
                && session_kept(old(self).table(), final(self).table(), token),
            r matches Some((h, d)) ==> d == data_ref_of(old(self).table()[token].request_type)
                && rearmed(old(self).table(), final(self).table(), token, h, DataKind::Listener, passive_reply(port->Some_0))
                && h == old(self).spec_current_id() + 1,
    {
        match port {
            Some(p) => {
                let (high, low) = crate::port::get_ftp_port_pair(p);
                let mut message: Vec<u8> = Vec::new();
                push_bytes(&mut message, "Entering Passive Mode (0,0,0,0,".as_bytes());
                push_decimal(&mut message, high as u16);
                message.push(44u8);
                push_decimal(&mut message, low as u16);
                message.push(41u8);
                let bytes = create_reply(ResponseCode::passive_ok(), message.as_slice());
                assert(bytes@ =~= passive_reply(p));
                let armed = self.rearm(token, DataKind::Listener, bytes);
                if armed.is_some() {
                    return armed;
                }
            },
            None => {},
        }
        self.update_session(
            token,
            None,
            None,
            create_response(ResponseCode::all_ports_taken(), "All ports are taken."),
            None,
        );
        None
    }

    /// A client connected to passive listener `listener`: the listener goes
    /// (it accepts once), a passive data record takes its place, and the
    /// control connection answers `200`. Returns the new handle and the
    /// control connection's.
    pub fn passive_accepted(&mut self, listener: usize) -> (r: Option<(usize, usize)>)
        requires
            old(self).wf(),
        ensures
            final(self).wf(),
            final(self).spec_users() == old(self).spec_users(),
            final(self).spec_capacity() == old(self).spec_capacity(),
            final(self).spec_admitted() == old(self).spec_admitted(),
            !(old(self).table().contains_key(listener) && old(self).table()[listener].request_type is PassiveModePort)
                ==> r is None && final(self).table() == old(self).table(),
            old(self).table().contains_key(listener) && old(self).table()[listener].request_type is PassiveModePort
                && old(self).spec_current_id() < usize::MAX ==> r is Some,
            r matches Some((h, s)) ==> s == peer_of(old(self).table()[listener].request_type)
                && data_ref_of(old(self).table()[s].request_type) == Some(listener)
                && !final(self).table().contains_key(listener)
                && rearmed(old(self).table(), final(self).table(), s, h, DataKind::Passive, reply(200, "Command okay."))
                && h == old(self).spec_current_id() + 1,
    {
        let s = match self.connections.get(&listener) {
            Some(ctx) => match &ctx.request_type {
                RequestType::PassiveModePort(s) => *s,
                _ => {
                    return None;
                },
            },
            None => {
                return None;
            },
        };
        let ghost t0 = self.table();
        proof {
            assert(t0.contains_key(listener) && is_data(t0[listener].request_type));
            assert(data_ref_of(t0[s].request_type) == Some(listener));
        }
        match self.rearm(s, DataKind::Passive, create_response(ResponseCode::command_okay(), "Command okay.")) {
            Some((h, _)) => {
                proof {
                    let t1 = self.table();
                    assert(!t0.remove(listener).remove(s).contains_key(listener));
                    assert(!t1.remove(h).remove(s).contains_key(listener));
                    assert(listener != h && listener != s);
                }
                Some((h, s))
            },
            None => None,
        }
    }


    fn done_message() -> (r: Vec<u8>)
        ensures
            r@ == done_reply(),
            is_reply_line(r@),
    {
        create_response(
            ResponseCode::closing_data_connection(),
            "Closing data connection. Requested file action successful (for example, file transfer or file abort).",
        )
    }

    /// The bytes that control connection `token` still has to write.
    pub fn pending_reply(&self, token: usize) -> (r: Vec<u8>)
        requires
            self.wf(),
            is_session(self.table(), token),
        ensures
            r@ == out_of(self.table(), token).spec_remaining(),
    {
        match self.connections.get(&token) {
            Some(ctx) => match &ctx.request_type {
                RequestType::CommandTransfer(b, _) => {
                    let rest = b.remaining();
                    let mut v: Vec<u8> = Vec::new();
                    push_bytes(&mut v, rest);
                    v
                },
                _ => Vec::new(),
            },
            None => Vec::new(),
        }
    }

    /// Records that `written` bytes of the reply of control connection
    /// `token` went out. Once all are out, the step after the reply is
    /// handed back, once.
    pub fn control_written(&mut self, token: usize, written: usize) -> (r: Option<AfterSend>)
        requires
            old(self).wf(),
            is_session(old(self).table(), token),
        ensures
            final(self).wf(),
            final(self).spec_users() == old(self).spec_users(),
            final(self).spec_capacity() == old(self).spec_capacity(),
            final(self).spec_admitted() == old(self).spec_admitted(),
            is_session(final(self).table(), token),
            final(self).table().remove(token) == old(self).table().remove(token),
            data_ref_of(final(self).table()[token].request_type) == data_ref_of(old(self).table()[token].request_type),
            ({
                let b0 = out_of(old(self).table(), token);
                let b1 = out_of(final(self).table(), token);
                if b0.spec_offset() + written >= b0.spec_buffer().len() {
                    &&& b1.spec_buffer().len() == 0
                    &&& r == b0.spec_after_send()
                    &&& b1.spec_after_send() is None
                } else {
                    &&& b1.spec_buffer() == b0.spec_buffer()
                    &&& b1.spec_offset() == b0.spec_offset() + written
                    &&& r is None
                    &&& b1.spec_after_send() == b0.spec_after_send()
                }
            }),
    {
        let mut ctx = self.take(token);
        let ghost orig = ctx;
        let rt = ctx.request_type;
        let (step, rt2) = match rt {
            RequestType::CommandTransfer(mut b, d) => {
                let step = b.advance(written);
                (step, RequestType::CommandTransfer(b, d))
            },
            other => (None, other),
        };
        ctx.request_type = rt2;
        self.put_back(token, ctx, Ghost(orig));
        proof {
            assert(self.table().remove(token) =~= old(self).table().remove(token));
        }
        step
    }

    /// Takes the step that a reply held back: gives the data connection of
    /// `step` its payload. Returns the data connection and whether it is
    /// to be watched for writing (`true`) or reading (`false`); `None` for
    /// `ShutdownControl`, or where the data connection is gone.
    pub fn start_transfer(&mut self, step: AfterSend) -> (r: Option<(usize, bool)>)
        requires
            old(self).wf(),
        ensures
            final(self).wf(),
            final(self).spec_users() == old(self).spec_users(),
            final(self).spec_capacity() == old(self).spec_capacity(),
            final(self).spec_admitted() == old(self).spec_admitted(),
            r is None ==> final(self).table() == old(self).table(),
            r matches Some((d, writable)) ==> {
                &&& old(self).table().contains_key(d)
                &&& payload_of(old(self).table()[d].request_type) is Some
                &&& final(self).table().remove(d) == old(self).table().remove(d)
                &&& final(self).table().contains_key(d)
                &&& same_shape(final(self).table()[d].request_type, old(self).table()[d].request_type)
                &&& match step {
                    AfterSend::StartDownload(e) => e == d && writable
                        && payload_of(final(self).table()[d].request_type) == Some(FileTransferType::FileDownload),
                    AfterSend::StartUpload(e) => e == d && !writable
                        && payload_of(final(self).table()[d].request_type) == Some(FileTransferType::FileUpload(None)),
                    AfterSend::StartListing(e, bytes) => e == d && writable
                        && (payload_of(final(self).table()[d].request_type) matches Some(FileTransferType::Buffer(b))
                        && b.spec_buffer() == bytes@ && b.spec_offset() == 0),
                    AfterSend::ShutdownControl => false,
                }
            },
            (match step {
                AfterSend::StartDownload(e) => old(self).table().contains_key(e) && payload_of(old(self).table()[e].request_type) is Some,
                AfterSend::StartUpload(e) => old(self).table().contains_key(e) && payload_of(old(self).table()[e].request_type) is Some,
                AfterSend::StartListing(e, _) => old(self).table().contains_key(e) && payload_of(old(self).table()[e].request_type) is Some,
                AfterSend::ShutdownControl => false,
            }) ==> r is Some,
    {
        let (d, payload, writable) = match step {
            AfterSend::ShutdownControl => {
                return None;
            },
            AfterSend::StartDownload(d) => (d, FileTransferType::FileDownload, true),
            AfterSend::StartUpload(d) => (d, FileTransferType::FileUpload(None), false),
            AfterSend::StartListing(d, bytes) => (d, FileTransferType::Buffer(BufferToWrite::new(bytes)), true),
        };
        let is_transfer = match self.connections.get(&d) {
            Some(ctx) => match &ctx.request_type {
                RequestType::FileTransferPassive(_, _) | RequestType::FileTransferActive(_, _) => true,
                _ => false,
            },
            None => false,
        };
        if !is_transfer {
            return None;
        }
        let mut ctx = self.take(d);
        let ghost orig = ctx;
        let rt = ctx.request_type;
        ctx.request_type = match rt {
            RequestType::FileTransferPassive(_, p) => RequestType::FileTransferPassive(payload, p),
            RequestType::FileTransferActive(_, p) => RequestType::FileTransferActive(payload, p),
            other => other,
        };
        self.put_back(d, ctx, Ghost(orig));
        proof {
            assert(self.table().remove(d) =~= old(self).table().remove(d));
        }
        Some((d, writable))
    }

    /// The bytes that data connection `d` still has to send from its buffer.
    pub fn pending_data(&self, d: usize) -> (r: Vec<u8>)
        requires
            self.wf(),
        ensures
            self.table().contains_key(d) ==> (payload_of(self.table()[d].request_type) matches Some(
                FileTransferType::Buffer(b),
            ) ==> r@ == b.spec_remaining()),
            !(self.table().contains_key(d) && payload_of(self.table()[d].request_type) matches Some(
                FileTransferType::Buffer(_),
            )) ==> r@.len() == 0,
    {
        match self.connections.get(&d) {
            Some(ctx) => match &ctx.request_type {
                RequestType::FileTransferPassive(FileTransferType::Buffer(b), _)
                | RequestType::FileTransferActive(FileTransferType::Buffer(b), _) => {
                    let mut v: Vec<u8> = Vec::new();
                    push_bytes(&mut v, b.remaining());
                    v
                },
                _ => Vec::new(),
            },
            None => Vec::new(),
        }
    }

    /// Records that `written` bytes of the buffer of data connection `d`
    /// went out. Returns whether all are out, and the transfer is done.
    pub fn data_written(&mut self, d: usize, written: usize) -> (r: bool)
        requires
            old(self).wf(),
        ensures
            final(self).wf(),
            final(self).spec_users() == old(self).spec_users(),
            final(self).spec_capacity() == old(self).spec_capacity(),
            final(self).spec_admitted() == old(self).spec_admitted(),
            final(self).table().dom() == old(self).table().dom(),
            final(self).table().remove(d) == old(self).table().remove(d),
            old(self).table().contains_key(d) ==> same_shape(final(self).table()[d].request_type, old(self).table()[d].request_type),
            old(self).table().contains_key(d) ==> (payload_of(old(self).table()[d].request_type) matches Some(
                FileTransferType::Buffer(b0),
            ) ==> (payload_of(final(self).table()[d].request_type) matches Some(FileTransferType::Buffer(b1))
                && if b0.spec_offset() + written >= b0.spec_buffer().len() {
                    b1.spec_buffer().len() == 0
                } else {
                    b1.spec_buffer() == b0.spec_buffer() && b1.spec_offset() == b0.spec_offset() + written
                })),
            r <==> (old(self).table().contains_key(d) && (payload_of(old(self).table()[d].request_type) matches Some(
                FileTransferType::Buffer(b),
            ) && b.spec_offset() + written >= b.spec_buffer().len())),
    {
        let is_buffer = match self.connections.get(&d) {
            Some(ctx) => match &ctx.request_type {
                RequestType::FileTransferPassive(FileTransferType::Buffer(_), _)
                | RequestType::FileTransferActive(FileTransferType::Buffer(_), _) => true,
                _ => false,
            },
            None => false,
        };
        if !is_buffer {
            return false;
        }
        let mut ctx = self.take(d);
        let ghost orig = ctx;
        let rt = ctx.request_type;
        let (drained, rt2) = match rt {
            RequestType::FileTransferPassive(FileTransferType::Buffer(mut b), p) => {
                let before = b.remaining().len();
                let drained = written >= before;
                let _ = b.advance(written);
                (drained, RequestType::FileTransferPassive(FileTransferType::Buffer(b), p))
            },
            RequestType::FileTransferActive(FileTransferType::Buffer(mut b), p) => {
                let before = b.remaining().len();
                let drained = written >= before;
                let _ = b.advance(written);
                (drained, RequestType::FileTransferActive(FileTransferType::Buffer(b), p))
            },
            other => (false, other),
        };
        ctx.request_type = rt2;
        self.put_back(d, ctx, Ghost(orig));
        proof {
            assert(self.table().remove(d) =~= old(self).table().remove(d));
            assert(self.table().dom() =~= old(self).table().dom());
        }
        drained
    }

    /// A download or a listing on data connection `d` is complete: the
    /// record goes, and its control connection, detached, answers `226`:
    /// with the download text after a file, the general one otherwise.
    /// Returns the control connection.
    pub fn transfer_finished(&mut self, d: usize) -> (r: Option<usize>)
        requires
            old(self).wf(),
        ensures
            final(self).wf(),
            final(self).spec_users() == old(self).spec_users(),
            final(self).spec_capacity() == old(self).spec_capacity(),
            final(self).spec_admitted() == old(self).spec_admitted(),
            !(old(self).table().contains_key(d) && payload_of(old(self).table()[d].request_type) is Some)
                ==> r is None && final(self).table() == old(self).table(),
            old(self).table().contains_key(d) && payload_of(old(self).table()[d].request_type) is Some
                ==> r == Some(peer_of(old(self).table()[d].request_type)),
            r matches Some(p) ==> {
                &&& p == peer_of(old(self).table()[d].request_type)
                &&& !final(self).table().contains_key(d)
                &&& final(self).table().remove(p) == old(self).table().remove(d).remove(p)
                &&& is_session(final(self).table(), p)
                &&& data_ref_of(final(self).table()[p].request_type) is None
                &&& out_of(final(self).table(), p).spec_buffer() == if payload_of(
                    old(self).table()[d].request_type,
                ) == Some(FileTransferType::FileDownload) {
                    download_reply()
                } else {
                    done_reply()
                }
                &&& out_of(final(self).table(), p).spec_offset() == 0
            },
    {
        let is_transfer = match self.connections.get(&d) {
            Some(ctx) => match &ctx.request_type {
                RequestType::FileTransferPassive(_, _) | RequestType::FileTransferActive(_, _) => true,
                _ => false,
            },
            None => false,
        };
        if !is_transfer {
            return None;
        }
        let (p, download) = match self.connections.get(&d) {
            Some(ctx) => match &ctx.request_type {
                RequestType::FileTransferPassive(ft, p) | RequestType::FileTransferActive(ft, p) => (
                    *p,
                    match ft {
                        FileTransferType::FileDownload => true,
                        _ => false,
                    },
                ),
                _ => (0, false),
            },
            None => (0, false),
        };
        let message = if download {
            create_response(
                ResponseCode::closing_data_connection(),
                "Closing data connection. Requested file action successful. (file transfer)",
            )
        } else {
            FTPServer::done_message()
        };
        self.drop_data(d, p, Some(message));
        Some(p)
    }

    /// Settles the upload on data connection `d`: its record now holds
    /// `message`, which its control connection is to get when
    /// `close_connection` takes the record away.
    fn settle_upload(&mut self, d: usize, message: Vec<u8>) -> (r: bool)
        requires
            is_reply_line(message@),
            old(self).wf(),
        ensures
            final(self).wf(),
            final(self).spec_users() == old(self).spec_users(),
            final(self).spec_capacity() == old(self).spec_capacity(),
            final(self).spec_admitted() == old(self).spec_admitted(),
            r <==> (old(self).table().contains_key(d) && payload_of(old(self).table()[d].request_type)
                matches Some(FileTransferType::FileUpload(_))),
            !r ==> final(self).table() == old(self).table(),
            r ==> {
                &&& final(self).table().remove(d) == old(self).table().remove(d)
                &&& final(self).table().contains_key(d)
                &&& same_shape(final(self).table()[d].request_type, old(self).table()[d].request_type)
                &&& upload_reply(final(self).table()[d].request_type) matches Some(m) && m@ == message@
            },
    {
        let is_upload = match self.connections.get(&d) {
            Some(ctx) => match &ctx.request_type {
                RequestType::FileTransferPassive(FileTransferType::FileUpload(_), _)
                | RequestType::FileTransferActive(FileTransferType::FileUpload(_), _) => true,
                _ => false,
            },
            None => false,
        };
        if !is_upload {
            return false;
        }
        let mut ctx = self.take(d);
        let ghost orig = ctx;
        let rt = ctx.request_type;
        ctx.request_type = match rt {
            RequestType::FileTransferPassive(_, p) => RequestType::FileTransferPassive(
                FileTransferType::FileUpload(Some(message)),
                p,
            ),
            RequestType::FileTransferActive(_, p) => RequestType::FileTransferActive(
                FileTransferType::FileUpload(Some(message)),
                p,
            ),
            other => other,
        };
        self.put_back(d, ctx, Ghost(orig));
        proof {
            assert(self.table().remove(d) =~= old(self).table().remove(d));
        }
        true
    }

    /// The client closed the data connection `d` of an upload: the upload
    /// is complete, and its record now holds the `226` that its control
    /// connection is to get when `close_connection` takes it away.
    pub fn upload_closed(&mut self, d: usize) -> (r: bool)
        requires
            old(self).wf(),
        ensures
            final(self).wf(),
            final(self).spec_users() == old(self).spec_users(),
            final(self).spec_capacity() == old(self).spec_capacity(),
            final(self).spec_admitted() == old(self).spec_admitted(),
            r <==> (old(self).table().contains_key(d) && payload_of(old(self).table()[d].request_type)
                matches Some(FileTransferType::FileUpload(_))),
            !r ==> final(self).table() == old(self).table(),
            r ==> {
                &&& final(self).table().remove(d) == old(self).table().remove(d)
                &&& final(self).table().contains_key(d)
                &&& same_shape(final(self).table()[d].request_type, old(self).table()[d].request_type)
                &&& upload_reply(final(self).table()[d].request_type) matches Some(m) && m@ == done_reply()
            },
    {
        self.settle_upload(d, FTPServer::done_message())
    }

    /// The upload on data connection `d` failed: where `file_error`, its
    /// file could not be written and the record now holds a `450`;
    /// otherwise its socket failed and the record holds a `426`. The control
    /// connection gets that reply when `close_connection` takes the record
    /// away.
    pub fn upload_failed(&mut self, d: usize, file_error: bool) -> (r: bool)
        requires
            old(self).wf(),
        ensures
            final(self).wf(),
            final(self).spec_users() == old(self).spec_users(),
            final(self).spec_capacity() == old(self).spec_capacity(),
            final(self).spec_admitted() == old(self).spec_admitted(),
            r <==> (old(self).table().contains_key(d) && payload_of(old(self).table()[d].request_type)
                matches Some(FileTransferType::FileUpload(_))),
            !r ==> final(self).table() == old(self).table(),
            r ==> {
                &&& final(self).table().remove(d) == old(self).table().remove(d)
                &&& final(self).table().contains_key(d)
                &&& same_shape(final(self).table()[d].request_type, old(self).table()[d].request_type)
                &&& upload_reply(final(self).table()[d].request_type) matches Some(m) && m@ == if file_error {
                    reply(450, "Requested file action not taken.")
                } else {
                    reply(426, "Connection closed; transfer aborted.")
                }
            },
    {
        let message = if file_error {
            create_response(ResponseCode::file_busy(), "Requested file action not taken.")
        } else {
            create_response(
                ResponseCode::new_from_enums(
                    crate::response::CodeFirst::TransientNegativeCompletion,
                    crate::response::CodeSecond::Connections,
                    6,
                ),
                "Connection closed; transfer aborted.",
            )
        };
        self.settle_upload(d, message)
    }

    /// Removes data record `token`, which reports to `p`, and detaches `p`;
    /// where `message` is given, it becomes the next reply of `p`.
    fn drop_data(&mut self, token: usize, p: usize, msg: Option<Vec<u8>>)
        requires
            msg matches Some(m) ==> is_reply_line(m@),
            old(self).wf(),
            old(self).table().contains_key(token),
            is_data(old(self).table()[token].request_type),
            peer_of(old(self).table()[token].request_type) == p,
        ensures
            final(self).wf(),
            final(self).spec_users() == old(self).spec_users(),
            final(self).spec_capacity() == old(self).spec_capacity(),
            final(self).spec_admitted() == old(self).spec_admitted(),
            !final(self).table().contains_key(token),
            is_session(final(self).table(), p),
            final(self).table().remove(p) == old(self).table().remove(token).remove(p),
            data_ref_of(final(self).table()[p].request_type) is None,
            final(self).table()[p].user_id == old(self).table()[p].user_id,
            final(self).table()[p].loged == old(self).table()[p].loged,
            final(self).table()[p].rename_from == old(self).table()[p].rename_from,
            final(self).table()[p].current_dir == old(self).table()[p].current_dir,
            match msg {
                Some(m) => out_of(final(self).table(), p).spec_buffer() == m@ && out_of(final(self).table(), p).spec_offset() == 0,
                None => out_of(final(self).table(), p) == out_of(old(self).table(), p),
            },
            forall|h: usize| #[trigger]
                final(self).table().contains_key(h) && is_data(final(self).table()[h].request_type)
                    ==> peer_of(final(self).table()[h].request_type) != token,
    {
        let ghost t0 = self.table();
        proof {
            assert(t0.contains_key(token) && is_data(t0[token].request_type));
            assert(data_ref_of(t0[p].request_type) == Some(token));
        }
        self.connections.remove(&token);
        self.detach_peer(p, msg);
        proof {
            let t2 = self.table();
            assert(t0.contains_key(token) && is_data(t0[token].request_type));
            assert(peer_of(t0[token].request_type) == p);
            assert(data_ref_of(t0[p].request_type) == Some(token));
            assert(t2.remove(p) =~= t0.remove(token).remove(p));
            assert forall|x: usize| control_handles(t2).contains(x) == control_handles(t0).contains(x) by {
                if x != p && x != token {
                    assert(t2.remove(p).contains_key(x) == t2.contains_key(x));
                    if t2.contains_key(x) {
                        assert(t2.remove(p)[x] == t2[x]);
                    }
                    if t0.contains_key(x) {
                        assert(t0.remove(token).remove(p)[x] == t0[x]);
                    }
                }
            }
            assert(control_handles(t2) =~= control_handles(t0));
            assert forall|h: usize| #[trigger] t2.contains_key(h) implies 0 < h
                <= self.spec_current_id() && buffers_wf(t2[h].request_type) by {
                if h != p {
                    assert(t2.remove(p)[h] == t2[h]);
                    assert(t0.remove(token).remove(p)[h] == t0[h]);
                }
            }
            assert forall|h: usize| #![trigger t2[h]]
                t2.contains_key(h) && is_data(t2[h].request_type) implies {
                &&& t2.contains_key(peer_of(t2[h].request_type))
                &&& t2[peer_of(t2[h].request_type)].request_type is CommandTransfer
                &&& data_ref_of(t2[peer_of(t2[h].request_type)].request_type) == Some(h)
            } by {
                assert(h != p);
                assert(t2.remove(p)[h] == t2[h]);
                assert(t0.contains_key(h) && t0[h] == t2[h]);
                assert(h != token);
                let q = peer_of(t0[h].request_type);
                assert(t0.contains_key(q) && data_ref_of(t0[q].request_type) == Some(h));
                assert(q != p);
                assert(q != token);
                assert(t0.remove(token).remove(p)[q] == t0[q]);
                assert(t2.remove(p)[q] == t2[q]);
            }
            assert forall|s: usize| #![trigger t2[s]]
                t2.contains_key(s) && data_ref_of(t2[s].request_type) is Some implies {
                &&& t2.contains_key(data_ref_of(t2[s].request_type).unwrap())
                &&& is_data(t2[data_ref_of(t2[s].request_type).unwrap()].request_type)
                &&& peer_of(t2[data_ref_of(t2[s].request_type).unwrap()].request_type) == s
            } by {
                assert(s != p);
                assert(t2.remove(p)[s] == t2[s]);
                assert(t0[s] == t2[s]);
                let e = data_ref_of(t0[s].request_type).unwrap();
                assert(t0.contains_key(e) && peer_of(t0[e].request_type) == s);
                assert(e != token);
                assert(e != p);
                assert(t0.remove(token).remove(p)[e] == t0[e]);
                assert(t2.remove(p)[e] == t2[e]);
            }
            assert forall|h: usize| #[trigger]
                t2.contains_key(h) && is_data(t2[h].request_type)
                    implies peer_of(t2[h].request_type) != token by {
                assert(h != p);
                assert(t2.remove(p)[h] == t2[h]);
                assert(t0[h] == t2[h]);
            }
        }
    }

    /// The data connection that control connection `token` refers to.
    pub fn data_ref(&self, token: usize) -> (r: Option<usize>)
        ensures
            self.table().contains_key(token) ==> r == data_ref_of(self.table()[token].request_type),
            !self.table().contains_key(token) ==> r is None,
    {
        match self.connections.get(&token) {
            Some(ctx) => match &ctx.request_type {
                RequestType::CommandTransfer(_, d) => *d,
                _ => None,
            },
            None => None,
        }
    }



    /// The login name and what is set on control connection `token`.
    fn session_state(&self, token: usize) -> (r: (Option<String>, bool, bool, bool))
        requires
            is_session(self.table(), token),
        ensures
            r.0 == self.table()[token].user_id,
            r.1 == self.table()[token].loged,
            r.2 == data_ref_of(self.table()[token].request_type) is Some,
            r.3 == self.table()[token].rename_from is Some,
    {
        match self.connections.get(&token) {
            Some(ctx) => {
                let name = match &ctx.user_id {
                    Some(n) => Some(n.clone()),
                    None => None,
                };
                let has_data = match &ctx.request_type {
                    RequestType::CommandTransfer(_, d) => d.is_some(),
                    _ => false,
                };
                (name, ctx.loged, has_data, ctx.rename_from.is_some())
            },
            None => (None, false, false, false),
        }
    }

    /// Sets the next reply of control connection `token`, and with it the
    /// login (`login`), the rename source (`rename`) and the step after the
    /// reply (`step`), each where given.
    fn update_session(
        &mut self,
        token: usize,
        login: Option<(Option<String>, bool)>,
        rename: Option<Option<String>>,
        bytes: Vec<u8>,
        step: Option<AfterSend>,
    )
        requires
            is_reply_line(bytes@),
            old(self).wf(),
            is_session(old(self).table(), token),
        ensures
            final(self).wf(),
            final(self).spec_users() == old(self).spec_users(),
            final(self).spec_current_id() == old(self).spec_current_id(),
            final(self).spec_capacity() == old(self).spec_capacity(),
            final(self).spec_admitted() == old(self).spec_admitted(),
            answered(old(self).table(), final(self).table(), token, bytes@),
            match login {
                Some((u, l)) => final(self).table()[token].user_id == u
                    && final(self).table()[token].loged == l,
                None => final(self).table()[token].user_id == old(self).table()[token].user_id
                    && final(self).table()[token].loged == old(self).table()[token].loged,
            },
            match rename {
                Some(x) => final(self).table()[token].rename_from == x,
                None => final(self).table()[token].rename_from == old(self).table()[token].rename_from,
            },
            final(self).table()[token].current_dir == old(self).table()[token].current_dir,
            match step {
                Some(x) => out_of(final(self).table(), token).spec_after_send() == Some(x),
                None => out_of(final(self).table(), token).spec_after_send() == out_of(
                    old(self).table(),
                    token,
                ).spec_after_send(),
            },
    {
        let mut ctx = self.take(token);
        let ghost orig = ctx;
        match login {
            Some((u, l)) => {
                ctx.user_id = u;
                ctx.loged = l;
            },
            None => {},
        }
        match rename {
            Some(x) => {
                ctx.rename_from = x;
            },
            None => {},
        }
        let rt = ctx.request_type;
        match rt {
            RequestType::CommandTransfer(mut b, d) => {
                b.reset(bytes);
                match step {
                    Some(x) => b.set_after_send(x),
                    None => {},
                }
                ctx.request_type = RequestType::CommandTransfer(b, d);
            },
            other => {
                ctx.request_type = other;
            },
        }
        self.put_back(token, ctx, Ghost(orig));
        proof {
            assert(self.table().remove(token) =~= old(self).table().remove(token));
        }
    }

    /// The current directory of control connection `token`.
    fn session_dir(&self, token: usize) -> (r: String)
        requires
            is_session(self.table(), token),
        ensures
            r@ == self.table()[token].current_dir@,
    {
        match self.connections.get(&token) {
            Some(ctx) => ctx.current_dir.clone(),
            None => String::new(),
        }
    }

    /// Sets the current directory of control connection `token`.
    fn set_dir(&mut self, token: usize, dir: String)
        requires
            old(self).wf(),
            is_session(old(self).table(), token),
        ensures
            final(self).wf(),
            final(self).spec_users() == old(self).spec_users(),
            final(self).spec_current_id() == old(self).spec_current_id(),
            final(self).spec_capacity() == old(self).spec_capacity(),
            final(self).spec_admitted() == old(self).spec_admitted(),
            is_session(final(self).table(), token),
            final(self).table().remove(token) == old(self).table().remove(token),
            final(self).table()[token].current_dir == dir,
            final(self).table()[token].request_type == old(self).table()[token].request_type,
            final(self).table()[token].user_id == old(self).table()[token].user_id,
            final(self).table()[token].loged == old(self).table()[token].loged,
            final(self).table()[token].rename_from == old(self).table()[token].rename_from,
    {
        let mut ctx = self.take(token);
        let ghost orig = ctx;
        ctx.current_dir = dir;
        self.put_back(token, ctx, Ghost(orig));
        proof {
            assert(self.table().remove(token) =~= old(self).table().remove(token));
        }
    }
}

} // verus!
