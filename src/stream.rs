use vstd::prelude::*;

verus! {

/// Why a read or a seek on a byte source could not be carried out.
#[derive(Debug, Clone, Copy, PartialEq, Eq, Structural)]
pub enum StreamError {
    /// Fewer bytes were left than the operation asked for.
    UnexpectedEof { requested: usize, available: usize },
}

/// The error a source reports when `requested` bytes are asked of an
/// unread tail of length `available`.
pub open spec fn eof_error(requested: usize, available: nat) -> StreamError {
    StreamError::UnexpectedEof { requested, available: available as usize }
}

/// A source of bytes that is read strictly forward and can skip ahead.
///
/// Its state is modelled by its content and a read position within it; the
/// unread bytes are the content from that position on. A read either takes
/// exactly the bytes asked for from the front and moves the position past
/// them, or fails and leaves the source as it was. Neither changes the
/// content.
pub trait ByteSource {
    /// The source's own well-formedness.
    spec fn inv(&self) -> bool;

    /// All the bytes of the source, read or not.
    spec fn content(&self) -> Seq<u8>;

    /// How many bytes have been read or skipped so far.
    spec fn pos(&self) -> nat;

    /// The bytes that have not been read yet, in order.
    spec fn unread(&self) -> Seq<u8>;

    /// In a well-formed source the position lies within the content and the
    /// unread bytes are the content past it.
    proof fn lemma_unread_is_tail(&self)
        requires
            self.inv(),
        ensures
            self.pos() <= self.content().len(),
            self.unread() == self.content().skip(self.pos() as int),
    ;

    /// Reads exactly `n` bytes.
    fn read_exact(&mut self, n: usize) -> (r: Result<Vec<u8>, StreamError>)
        requires
            old(self).inv(),
        ensures
            final(self).inv(),
            final(self).content() == old(self).content(),
            n <= old(self).unread().len() ==> r is Ok && r->Ok_0@ == old(self).unread().take(
                n as int,
            ) && final(self).pos() == old(self).pos() + n
                && final(self).unread() == old(self).unread().skip(n as int),
            n > old(self).unread().len() ==> r == Err::<Vec<u8>, StreamError>(
                eof_error(n, old(self).unread().len()),
            ) && final(self).pos() == old(self).pos() && final(self).unread() == old(
                self,
            ).unread(),
    ;

    /// Moves `n` bytes forward without reading them.
    fn seek_relative(&mut self, n: usize) -> (r: Result<(), StreamError>)
        requires
            old(self).inv(),
        ensures
            final(self).inv(),
            final(self).content() == old(self).content(),
            n <= old(self).unread().len() ==> r is Ok && final(self).pos() == old(self).pos() + n
                && final(self).unread() == old(self).unread().skip(n as int),
            n > old(self).unread().len() ==> r == Err::<(), StreamError>(
                eof_error(n, old(self).unread().len()),
            ) && final(self).pos() == old(self).pos() && final(self).unread() == old(
                self,
            ).unread(),
    ;
}

/// A cursor over an in-memory buffer of bytes.
pub struct ByteStream {
    data: Vec<u8>,
    pos: usize,
}

impl ByteStream {
    /// All the bytes of the buffer, read or not.
    pub closed spec fn bytes(&self) -> Seq<u8> {
        self.data@
    }

    /// How many bytes have been read or skipped so far.
    pub closed spec fn cursor(&self) -> nat {
        self.pos as nat
    }

    /// The cursor lies within the buffer.
    pub open spec fn wf(&self) -> bool {
        self.cursor() <= self.bytes().len()
    }

    /// Opens a stream positioned at the first byte of `data`.
    pub fn new(data: Vec<u8>) -> (s: ByteStream)
        ensures
            s.wf(),
            s.bytes() == data@,
            s.cursor() == 0,
    {
        ByteStream { data, pos: 0 }
    }

    /// The number of bytes read or skipped so far.
    pub fn position(&self) -> (r: usize)
        ensures
            r == self.cursor(),
    {
        self.pos
    }

    /// The number of bytes that are left to read.
    pub fn remaining_len(&self) -> (r: usize)
        requires
            self.wf(),
        ensures
            r == self.unread().len(),
    {
        self.data.len() - self.pos
    }
}

impl ByteSource for ByteStream {
    open spec fn inv(&self) -> bool {
        self.wf()
    }

    open spec fn content(&self) -> Seq<u8> {
        self.bytes()
    }

    open spec fn pos(&self) -> nat {
        self.cursor()
    }

    open spec fn unread(&self) -> Seq<u8> {
        self.bytes().subrange(self.cursor() as int, self.bytes().len() as int)
    }

    proof fn lemma_unread_is_tail(&self) {
    }

    fn read_exact(&mut self, n: usize) -> (r: Result<Vec<u8>, StreamError>) {
        let available = self.data.len() - self.pos;
        if n > available {
            return Err(StreamError::UnexpectedEof { requested: n, available });
        }
        let end: usize = self.pos + n;
        let mut out: Vec<u8> = Vec::with_capacity(n);
        let mut i: usize = self.pos;
        while i < end
            invariant
                self.wf(),
                self.data@ == old(self).data@,
                self.pos == old(self).pos,
                end == self.pos + n,
                end <= self.data@.len(),
                self.pos <= i <= end,
                out@ == self.data@.subrange(self.pos as int, i as int),
            decreases end - i,
        {
            out.push(self.data[i]);
            i = i + 1;
        }
        self.pos = end;
        proof {
            assert(out@ =~= old(self).unread().take(n as int));
            assert(self.unread() =~= old(self).unread().skip(n as int));
        }
        Ok(out)
    }

    fn seek_relative(&mut self, n: usize) -> (r: Result<(), StreamError>) {
        let available = self.data.len() - self.pos;
        if n > available {
            return Err(StreamError::UnexpectedEof { requested: n, available });
        }
        self.pos = self.pos + n;
        proof {
            assert(self.unread() =~= old(self).unread().skip(n as int));
        }
        Ok(())
    }
}

} // verus!
