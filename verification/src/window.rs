//! Window buffer: a fixed-capacity byte window that holds the bytes
//! received and not yet decoded, and compacts itself when it is full.

use crate::errors::DecodeError;
use vstd::prelude::*;

verus! {

/// Capacity of the window in bytes.
pub const BUFSIZE: usize = 200;

/// Compaction moves the unconsumed remainder to the start of the
/// window only if the remainder is shorter than this.
pub const REMNANT_LIMIT: usize = 50;

/// What a window holds, as far as its behaviour depends on it.
pub struct WindowView {
    /// Bytes received and not yet consumed, oldest first.
    pub pending: Seq<u8>,
    /// Position in the window of the first pending byte.
    pub offset: int,
    /// Bytes received so far.
    pub bytes_read: usize,
    /// Requests for more bytes so far.
    pub read_calls: u32,
    /// Records consumed so far.
    pub messages: u32,
}

impl WindowView {
    /// Position in the window that the next received byte goes to.
    pub open spec fn filled(self) -> int {
        self.offset + self.pending.len()
    }

    /// Bytes that the window can take without compaction.
    pub open spec fn room(self) -> int {
        BUFSIZE - self.filled()
    }

    /// Whether room can be made for more bytes: either the window is
    /// not full, or the remainder is short enough to be moved.
    pub open spec fn can_make_room(self) -> bool {
        self.filled() < BUFSIZE || self.pending.len() < REMNANT_LIMIT
    }

    /// The window after a request for more bytes that found room: a
    /// full window has been compacted, any other is as it was.
    pub open spec fn after_make_room(self) -> WindowView {
        WindowView {
            offset: if self.filled() == BUFSIZE {
                0
            } else {
                self.offset
            },
            read_calls: self.read_calls.saturating_add(1),
            ..self
        }
    }

    /// The window after a request for more bytes that found no room.
    pub open spec fn after_refusal(self) -> WindowView {
        WindowView { read_calls: self.read_calls.saturating_add(1), ..self }
    }

    /// The window after `bytes` have been received.
    pub open spec fn after_append(self, bytes: Seq<u8>) -> WindowView {
        WindowView {
            pending: self.pending + bytes,
            bytes_read: self.bytes_read.saturating_add(bytes.len() as usize),
            ..self
        }
    }

    /// The window after one record of `n` bytes has been consumed.
    pub open spec fn after_record(self, n: int) -> WindowView {
        WindowView {
            pending: self.pending.skip(n),
            offset: self.offset + n,
            messages: self.messages.saturating_add(1),
            ..self
        }
    }

    /// Bytes consumed so far: those received less those still pending.
    pub open spec fn buffer_pos(self) -> int {
        if self.bytes_read >= self.pending.len() {
            self.bytes_read - self.pending.len()
        } else {
            0
        }
    }
}

/// The byte window `[bufstart, bufend)` of a fixed buffer, with the
/// diagnostic counters of the stream.
pub struct Window {
    buffer: Vec<u8>,
    bufstart: usize,
    bufend: usize,
    bytes_read: usize,
    read_calls: u32,
    messages: u32,
}

impl View for Window {
    type V = WindowView;

    closed spec fn view(&self) -> WindowView {
        WindowView {
            pending: self.buffer@.subrange(self.bufstart as int, self.bufend as int),
            offset: self.bufstart as int,
            bytes_read: self.bytes_read,
            read_calls: self.read_calls,
            messages: self.messages,
        }
    }
}

impl Window {
    #[verifier::type_invariant]
    spec fn well_formed(self) -> bool {
        self.buffer@.len() == BUFSIZE && self.bufstart <= self.bufend <= BUFSIZE
    }

    /// An empty window.
    pub fn new() -> (w: Window)
        ensures
            w@ == (WindowView {
                pending: Seq::empty(),
                offset: 0,
                bytes_read: 0,
                read_calls: 0,
                messages: 0,
            }),
    {
        let w = Window {
            buffer: vec![0u8; BUFSIZE],
            bufstart: 0,
            bufend: 0,
            bytes_read: 0,
            read_calls: 0,
            messages: 0,
        };
        assert(w@.pending =~= Seq::empty());
        w
    }

    /// The bytes received and not yet consumed. They fit the window.
    pub fn unconsumed(&self) -> (r: &[u8])
        ensures
            r@ == self@.pending,
            0 <= self@.offset,
            self@.filled() <= BUFSIZE,
    {
        proof {
            use_type_invariant(self);
        }
        vstd::slice::slice_subrange(self.buffer.as_slice(), self.bufstart, self.bufend)
    }

    /// Consumes the `n` oldest pending bytes as one record.
    pub fn consume(&mut self, n: usize)
        requires
            n <= old(self)@.pending.len(),
        ensures
            final(self)@ == old(self)@.after_record(n as int),
    {
        proof {
            use_type_invariant(&*self);
        }
        self.messages = self.messages.saturating_add(1);
        self.bufstart = self.bufstart + n;
        assert(self@.pending =~= old(self)@.pending.skip(n as int));
    }

    /// Makes room for more bytes and says how many the window can take.
    ///
    /// A window that is not full is left as it is. A full window is
    /// compacted: the remainder moves to the start. That is refused,
    /// with `BufferCapacityError`, unless the remainder is shorter than
    /// `REMNANT_LIMIT`. Either way the request is counted.
    pub fn make_room(&mut self) -> (r: Result<usize, DecodeError>)
        ensures
            old(self)@.can_make_room() ==> final(self)@ == old(self)@.after_make_room() && r == Ok::<
                usize,
                DecodeError,
            >(final(self)@.room() as usize) && 0 < final(self)@.room() <= BUFSIZE,
            !old(self)@.can_make_room() ==> final(self)@ == old(self)@.after_refusal() && r == Err::<
                usize,
                DecodeError,
            >(DecodeError::BufferCapacityError),
    {
        proof {
            use_type_invariant(&*self);
        }
        self.read_calls = self.read_calls.saturating_add(1);
        if self.bufend == BUFSIZE {
            let remnant: usize = BUFSIZE - self.bufstart;
            if remnant >= REMNANT_LIMIT {
                return Err(DecodeError::BufferCapacityError);
            }
            let start: usize = self.bufstart;
            let ghost before = self.buffer@;
            let mut k: usize = 0;
            while k < remnant
                invariant
                    k <= remnant < REMNANT_LIMIT,
                    start == BUFSIZE - remnant,
                    self.bufstart == start,
                    self.bufend == BUFSIZE,
                    self.buffer@.len() == BUFSIZE,
                    self.bytes_read == old(self).bytes_read,
                    self.messages == old(self).messages,
                    self.read_calls == old(self).read_calls.saturating_add(1),
                    forall|j: int| 0 <= j < k ==> self.buffer@[j] == before[start + j],
                    forall|j: int| k <= j < BUFSIZE ==> self.buffer@[j] == before[j],
                decreases remnant - k,
            {
                let b: u8 = self.buffer[start + k];
                self.buffer[k] = b;
                k = k + 1;
            }
            self.bufstart = 0;
            self.bufend = remnant;
            assert(self@.pending =~= old(self)@.pending);
        }
        Ok(BUFSIZE - self.bufend)
    }

    /// Receives `bytes` behind the pending ones, if the window has room
    /// for all of them; if not, nothing is received.
    pub fn append(&mut self, bytes: &[u8]) -> (r: Result<(), DecodeError>)
        ensures
            bytes@.len() <= old(self)@.room() ==> r is Ok && final(self)@ == old(self)@.after_append(
                bytes@,
            ),
            bytes@.len() > old(self)@.room() ==> r == Err::<(), DecodeError>(
                DecodeError::BufferCapacityError,
            ) && final(self)@ == old(self)@,
    {
        proof {
            use_type_invariant(&*self);
        }
        let n: usize = bytes.len();
        if n > BUFSIZE - self.bufend {
            return Err(DecodeError::BufferCapacityError);
        }
        let end: usize = self.bufend;
        let ghost before = self.buffer@;
        let mut k: usize = 0;
        while k < n
            invariant
                k <= n == bytes@.len(),
                end + n <= BUFSIZE,
                self.bufend == end,
                self.bufstart == old(self).bufstart,
                self.bufstart <= end,
                self.buffer@.len() == BUFSIZE,
                self.bytes_read == old(self).bytes_read,
                self.messages == old(self).messages,
                self.read_calls == old(self).read_calls,
                forall|j: int| 0 <= j < end ==> self.buffer@[j] == before[j],
                forall|j: int| 0 <= j < k ==> self.buffer@[end + j] == bytes@[j],
            decreases n - k,
        {
            let b: u8 = bytes[k];
            self.buffer[end + k] = b;
            k = k + 1;
        }
        self.bytes_read = self.bytes_read.saturating_add(n);
        self.bufend = end + n;
        assert(self@.pending =~= old(self)@.pending + bytes@);
        Ok(())
    }

    /// Bytes received so far.
    pub fn bytes_read(&self) -> (r: usize)
        ensures
            r == self@.bytes_read,
    {
        self.bytes_read
    }

    /// Requests for more bytes so far.
    pub fn read_calls(&self) -> (r: u32)
        ensures
            r == self@.read_calls,
    {
        self.read_calls
    }

    /// Records consumed so far.
    pub fn messages(&self) -> (r: u32)
        ensures
            r == self@.messages,
    {
        self.messages
    }

    /// Bytes consumed so far.
    pub fn buffer_pos(&self) -> (r: usize)
        ensures
            r == self@.buffer_pos(),
    {
        proof {
            use_type_invariant(self);
        }
        self.bytes_read.saturating_sub(self.bufend - self.bufstart)
    }
}

/// The margins of the window: the largest frame with a known tag is
/// below the compaction limit, and the window has room for twice that
/// limit, so that a remainder that may move never overlaps its target.
pub proof fn lemma_window_margins()
    ensures
        crate::message::MAX_FRAME <= REMNANT_LIMIT,
        2 * REMNANT_LIMIT <= BUFSIZE,
        2 * crate::message::MAX_FRAME <= BUFSIZE,
{
}

} // verus!
