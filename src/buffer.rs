use vstd::prelude::*;
use vstd::string::StringSliceAdditionalSpecFns;

verus! {

/// What happens once a reply has left completely: the step of a command
/// that must wait until the client has the reply.
#[derive(Debug)]
pub enum AfterSend {
    /// Shut the control connection (after `221`).
    ShutdownControl,
    /// Start sending the opened file on data connection `handle`.
    StartDownload(usize),
    /// Start receiving into the opened file on data connection `handle`.
    StartUpload(usize),
    /// Send these listing bytes on data connection `handle`.
    StartListing(usize, Vec<u8>),
}

/// Bytes waiting to be written to a socket, with how far writing has got,
/// and what to do once all of them are out.
#[derive(Debug)]
pub struct BufferToWrite {
    buffer: Vec<u8>,
    offset: usize,
    callback_after_sending: Option<AfterSend>,
}

impl BufferToWrite {
    /// The offset never passes the end.
    pub open spec fn wf(&self) -> bool {
        self.spec_offset() <= self.spec_buffer().len()
    }

    pub closed spec fn spec_buffer(&self) -> Seq<u8> {
        self.buffer@
    }

    pub closed spec fn spec_offset(&self) -> nat {
        self.offset as nat
    }

    pub closed spec fn spec_after_send(&self) -> Option<AfterSend> {
        self.callback_after_sending
    }

    /// What is left to write.
    pub open spec fn spec_remaining(&self) -> Seq<u8> {
        self.spec_buffer().subrange(self.spec_offset() as int, self.spec_buffer().len() as int)
    }

    pub fn default() -> (r: Self)
        ensures
            r.wf(),
            r.spec_buffer() == Seq::<u8>::empty(),
            r.spec_offset() == 0,
            r.spec_after_send() is None,
    {
        BufferToWrite { buffer: Vec::new(), offset: 0, callback_after_sending: None }
    }

    pub fn new(vector: Vec<u8>) -> (r: Self)
        ensures
            r.wf(),
            r.spec_buffer() == vector@,
            r.spec_offset() == 0,
            r.spec_after_send() is None,
    {
        BufferToWrite { buffer: vector, offset: 0, callback_after_sending: None }
    }

    /// Replaces the bytes to write; the step after sending stays.
    pub fn reset(&mut self, vector: Vec<u8>)
        ensures
            final(self).wf(),
            final(self).spec_buffer() == vector@,
            final(self).spec_offset() == 0,
            final(self).spec_after_send() == old(self).spec_after_send(),
    {
        self.buffer = vector;
        self.offset = 0;
    }

    /// Replaces the bytes to write with those of `vector`.
    pub fn reset_str(&mut self, vector: &str)
        ensures
            final(self).wf(),
            final(self).spec_buffer() == vector.spec_bytes(),
            final(self).spec_offset() == 0,
            final(self).spec_after_send() == old(self).spec_after_send(),
    {
        let mut bytes: Vec<u8> = Vec::new();
        crate::response::push_bytes(&mut bytes, vector.as_bytes());
        self.buffer = bytes;
        self.offset = 0;
    }

    /// Sets the step to take once everything is written.
    pub fn set_after_send(&mut self, step: AfterSend)
        ensures
            final(self).spec_buffer() == old(self).spec_buffer(),
            final(self).spec_offset() == old(self).spec_offset(),
            final(self).spec_after_send() == Some(step),
    {
        self.callback_after_sending = Some(step);
    }

    /// The bytes still to write.
    pub fn remaining(&self) -> (r: &[u8])
        requires
            self.wf(),
        ensures
            r@ == self.spec_remaining(),
    {
        self.buffer.as_slice().split_at(self.offset).1
    }

    /// Records that `written` more bytes went out. Once all are out the
    /// buffer is emptied and the step after sending is handed back, once.
    pub fn advance(&mut self, written: usize) -> (r: Option<AfterSend>)
        requires
            old(self).wf(),
        ensures
            final(self).wf(),
            final(self).spec_after_send() is None || !(old(self).spec_offset() + written
                >= old(self).spec_buffer().len()),
            if old(self).spec_offset() + written >= old(self).spec_buffer().len() {
                &&& final(self).spec_buffer() == Seq::<u8>::empty()
                &&& final(self).spec_offset() == 0
                &&& r == old(self).spec_after_send()
                &&& final(self).spec_after_send() is None
            } else {
                &&& final(self).spec_buffer() == old(self).spec_buffer()
                &&& final(self).spec_offset() == old(self).spec_offset() + written
                &&& final(self).spec_remaining() == old(self).spec_remaining().subrange(
                    written as int,
                    old(self).spec_remaining().len() as int,
                )
                &&& r is None
                &&& final(self).spec_after_send() == old(self).spec_after_send()
            },
    {
        if written >= self.buffer.len() - self.offset {
            self.buffer = Vec::new();
            self.offset = 0;
            self.callback_after_sending.take()
        } else {
            self.offset = self.offset + written;
            assert(self.spec_remaining() =~= old(self).spec_remaining().subrange(
                written as int,
                old(self).spec_remaining().len() as int,
            ));
            None
        }
    }

    /// Whether the buffer holds no bytes at all.
    pub fn is_empty(&self) -> (r: bool)
        ensures
            r == (self.spec_buffer().len() == 0),
    {
        self.buffer.len() == 0
    }

    /// Whether nothing is left to write.
    pub fn is_drained(&self) -> (r: bool)
        requires
            self.wf(),
        ensures
            r == (self.spec_offset() == self.spec_buffer().len()),
    {
        self.offset == self.buffer.len()
    }
}

} // verus!
