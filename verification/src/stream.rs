//! Stream decoder: the decisions of a pull-based decoder over a byte
//! source. The stream owns its source but never reads from it: it
//! says when bytes are needed, and whoever drives it reads them from
//! the source and supplies them.

use crate::codec::{Outcome, Parsed};
use crate::errors::DecodeError;
use crate::message::{
    is_known_tag, lemma_frame_size, lemma_message_stable, message_outcome, parse_message, Message,
    MessageView,
};
use crate::window::{Window, WindowView, BUFSIZE};
use vstd::prelude::*;

verus! {

/// A decoder over the byte source `reader`.
pub struct MessageStream<R> {
    reader: R,
    window: Window,
}

/// What the stream asks of its driver after one step.
#[derive(Debug)]
pub enum Step {
    /// The next record of the feed.
    Record(Message),
    /// The feed cannot be decoded any further.
    Failed(DecodeError),
    /// No record is complete yet: read up to this many bytes from the
    /// source and supply them, or report the end of the source.
    NeedBytes(usize),
}

impl<R> View for MessageStream<R> {
    type V = WindowView;

    closed spec fn view(&self) -> WindowView {
        self.window@
    }
}

impl<R> MessageStream<R> {
    /// The byte source that the stream was built over.
    pub closed spec fn source(self) -> R {
        self.reader
    }

    /// A stream over `reader` that has received nothing yet.
    pub fn new(reader: R) -> (s: MessageStream<R>)
        ensures
            s.source() == reader,
            s@ == (WindowView {
                pending: Seq::empty(),
                offset: 0,
                bytes_read: 0,
                read_calls: 0,
                messages: 0,
            }),
    {
        MessageStream { reader, window: Window::new() }
    }

    /// The source, to read from.
    pub fn reader_mut(&mut self) -> (r: &mut R)
        ensures
            *r == old(self).source(),
            final(self).source() == *final(r),
            final(self)@ == old(self)@,
    {
        &mut self.reader
    }

    /// Gives the source back and drops what is pending.
    pub fn into_reader(self) -> (r: R)
        ensures
            r == self.source(),
    {
        self.reader
    }

    /// Makes room for more bytes and says how many may be supplied
    /// next. A full window is compacted first, which fails with
    /// `BufferCapacityError` if the unconsumed remainder is too large
    /// to be moved.
    pub fn fetch_more_bytes(&mut self) -> (r: Result<usize, DecodeError>)
        ensures
            final(self).source() == old(self).source(),
            old(self)@.can_make_room() ==> final(self)@ == old(self)@.after_make_room() && r == Ok::<
                usize,
                DecodeError,
            >(final(self)@.room() as usize) && 0 < final(self)@.room() <= BUFSIZE,
            !old(self)@.can_make_room() ==> final(self)@ == old(self)@.after_refusal() && r == Err::<
                usize,
                DecodeError,
            >(DecodeError::BufferCapacityError),
    {
        self.window.make_room()
    }

    /// One step of decoding.
    ///
    /// If the pending bytes start with a complete frame, the frame is
    /// consumed and its record returned. If they are malformed, the
    /// failure is returned and nothing changes. If they end before the
    /// frame does, room is made for more bytes and the step says how
    /// many are wanted, unless the window cannot make room.
    pub fn poll(&mut self) -> (step: Step)
        ensures
            final(self).source() == old(self).source(),
            match message_outcome(old(self)@.pending) {
                Outcome::Done(n, m) => step matches Step::Record(msg) && msg@ == m && final(self)@
                    == old(self)@.after_record(n),
                Outcome::Malformed => step == Step::Failed(DecodeError::MalformedField)
                    && final(self)@ == old(self)@,
                Outcome::Incomplete => if old(self)@.can_make_room() {
                    final(self)@ == old(self)@.after_make_room() && step == Step::NeedBytes(
                        final(self)@.room() as usize,
                    ) && 0 < final(self)@.room() <= BUFSIZE
                } else {
                    final(self)@ == old(self)@.after_refusal() && step == Step::Failed(
                        DecodeError::BufferCapacityError,
                    )
                },
            },
    {
        let buf = self.window.unconsumed();
        match parse_message(buf) {
            Parsed::Done(rest, msg) => {
                let used: usize = buf.len() - rest.len();
                self.window.consume(used);
                Step::Record(msg)
            },
            Parsed::Malformed => Step::Failed(DecodeError::MalformedField),
            Parsed::Incomplete => {
                match self.fetch_more_bytes() {
                    Ok(room) => Step::NeedBytes(room),
                    Err(e) => Step::Failed(e),
                }
            },
        }
    }

    /// Receives bytes that were read from the source. More bytes than
    /// the window has room for are refused with `BufferCapacityError`,
    /// and none of them is received.
    pub fn supply(&mut self, bytes: &[u8]) -> (r: Result<(), DecodeError>)
        ensures
            final(self).source() == old(self).source(),
            bytes@.len() <= old(self)@.room() ==> r is Ok && final(self)@ == old(self)@.after_append(
                bytes@,
            ),
            bytes@.len() > old(self)@.room() ==> r == Err::<(), DecodeError>(
                DecodeError::BufferCapacityError,
            ) && final(self)@ == old(self)@,
    {
        self.window.append(bytes)
    }

    /// What the end of the source means for the stream: an ordinary
    /// end if nothing is pending, a truncated frame otherwise.
    pub fn end_of_source(&self) -> (r: Option<DecodeError>)
        ensures
            r == end_of_source_outcome(self@.pending),
    {
        if self.window.unconsumed().len() == 0 {
            None
        } else {
            Some(DecodeError::UnexpectedEndOfSource)
        }
    }

    /// Bytes received so far.
    pub fn bytes_read(&self) -> (r: usize)
        ensures
            r == self@.bytes_read,
    {
        self.window.bytes_read()
    }

    /// Requests for more bytes so far.
    pub fn read_calls(&self) -> (r: u32)
        ensures
            r == self@.read_calls,
    {
        self.window.read_calls()
    }

    /// Records decoded so far.
    pub fn messages(&self) -> (r: u32)
        ensures
            r == self@.messages,
    {
        self.window.messages()
    }

    /// Bytes decoded so far: those received less those still pending.
    pub fn buffer_pos(&self) -> (r: usize)
        ensures
            r == self@.buffer_pos(),
    {
        self.window.buffer_pos()
    }
}

/// A stream over `reader` that has received nothing yet.
pub fn parse_reader<R>(reader: R) -> (s: MessageStream<R>)
    ensures
        s.source() == reader,
        s@ == (WindowView {
            pending: Seq::empty(),
            offset: 0,
            bytes_read: 0,
            read_calls: 0,
            messages: 0,
        }),
{
    MessageStream::new(reader)
}

/// What the end of the source means when `pending` is left over.
pub open spec fn end_of_source_outcome(pending: Seq<u8>) -> Option<DecodeError> {
    if pending.len() == 0 {
        None
    } else {
        Some(DecodeError::UnexpectedEndOfSource)
    }
}

/// The records that successive steps yield from `pending` before more
/// bytes are needed or a failure is met.
pub open spec fn decoded_records(pending: Seq<u8>) -> Seq<MessageView>
    decreases pending.len(),
{
    match message_outcome(pending) {
        Outcome::Done(n, m) => if 0 < n <= pending.len() {
            seq![m] + decoded_records(pending.skip(n))
        } else {
            seq![]
        },
        _ => seq![],
    }
}

/// The bytes that are left pending once those steps are done.
pub open spec fn undecoded_rest(pending: Seq<u8>) -> Seq<u8>
    decreases pending.len(),
{
    match message_outcome(pending) {
        Outcome::Done(n, m) => if 0 < n <= pending.len() {
            undecoded_rest(pending.skip(n))
        } else {
            pending
        },
        _ => pending,
    }
}

/// Everything that a feed yields when it is decoded to the end of its
/// source: its records in order, then at most one failure, which is
/// the last element.
pub open spec fn stream_items(feed: Seq<u8>) -> Seq<Result<MessageView, DecodeError>> {
    let records = decoded_records(feed).map_values(
        |m: MessageView| Ok::<MessageView, DecodeError>(m),
    );
    let rest = undecoded_rest(feed);
    if message_outcome(rest) is Malformed {
        records.push(Err(DecodeError::MalformedField))
    } else {
        match end_of_source_outcome(rest) {
            Some(e) => records.push(Err(e)),
            None => records,
        }
    }
}

/// What is left pending does not start with a complete frame.
pub proof fn lemma_rest_is_stuck(pending: Seq<u8>)
    ensures
        !(message_outcome(undecoded_rest(pending)) is Done),
    decreases pending.len(),
{
    lemma_frame_size(pending);
    match message_outcome(pending) {
        Outcome::Done(n, m) => {
            lemma_rest_is_stuck(pending.skip(n));
        },
        _ => {},
    }
}

/// Chunking transparency: decoding `first`, then receiving `second`
/// behind what was left and decoding on, yields the records of the two
/// chunks received as one, and leaves the same bytes pending.
pub proof fn lemma_chunking_transparent(first: Seq<u8>, second: Seq<u8>)
    ensures
        decoded_records(first + second) == decoded_records(first) + decoded_records(
            undecoded_rest(first) + second,
        ),
        undecoded_rest(first + second) == undecoded_rest(undecoded_rest(first) + second),
        stream_items(first + second) == decoded_records(first).map_values(
            |m: MessageView| Ok::<MessageView, DecodeError>(m),
        ) + stream_items(undecoded_rest(first) + second),
    decreases first.len(),
{
    let ok = |m: MessageView| Ok::<MessageView, DecodeError>(m);
    lemma_frame_size(first);
    match message_outcome(first) {
        Outcome::Done(n, m) => {
            lemma_message_stable(first, second);
            let tail = first.skip(n);
            assert((first + second).skip(n) =~= tail + second);
            lemma_chunking_transparent(tail, second);
            assert(decoded_records(first + second) =~= decoded_records(first) + decoded_records(
                undecoded_rest(first) + second,
            ));
        },
        _ => {
            assert(decoded_records(first) =~= Seq::empty());
            assert(decoded_records(first + second) =~= decoded_records(first) + decoded_records(
                first + second,
            ));
        },
    }
    let a = decoded_records(first);
    let b = decoded_records(undecoded_rest(first) + second);
    assert((a + b).map_values(ok) =~= a.map_values(ok) + b.map_values(ok));
    let rest = undecoded_rest(first + second);
    let items = stream_items(undecoded_rest(first) + second);
    assert(stream_items(first + second) =~= a.map_values(ok) + items);
}

/// A feed cut off inside a frame: if `complete` decodes to the end and
/// `partial` is the non-empty beginning of a frame, then the feed
/// `complete + partial` yields the records of `complete` followed by
/// exactly one failure, `UnexpectedEndOfSource`, as its last element.
pub proof fn lemma_truncated_feed(complete: Seq<u8>, partial: Seq<u8>)
    requires
        undecoded_rest(complete).len() == 0,
        partial.len() > 0,
        message_outcome(partial) is Incomplete,
    ensures
        decoded_records(complete + partial) == decoded_records(complete),
        undecoded_rest(complete + partial) == partial,
        stream_items(complete) == decoded_records(complete).map_values(
            |m: MessageView| Ok::<MessageView, DecodeError>(m),
        ),
        stream_items(complete + partial) == stream_items(complete).push(
            Err(DecodeError::UnexpectedEndOfSource),
        ),
{
    lemma_chunking_transparent(complete, partial);
    assert(undecoded_rest(complete) + partial =~= partial);
    assert(decoded_records(partial) =~= Seq::empty());
    assert(decoded_records(complete) + decoded_records(partial) =~= decoded_records(complete));
    assert(undecoded_rest(complete) =~= Seq::<u8>::empty());
    assert(message_outcome(Seq::<u8>::empty()) is Incomplete) by {
        reveal(message_outcome);
    }
    assert(undecoded_rest(partial) == partial);
    let ok = |m: MessageView| Ok::<MessageView, DecodeError>(m);
    assert(stream_items(complete) =~= decoded_records(complete).map_values(ok));
    assert(stream_items(complete + partial) =~= stream_items(complete).push(
        Err(DecodeError::UnexpectedEndOfSource),
    ));
}

/// While the feed holds frames with known tags only, room can always
/// be made: a frame that is still incomplete is shorter than the
/// compaction limit.
pub proof fn lemma_known_frames_fit(v: WindowView)
    requires
        0 <= v.offset,
        v.filled() <= BUFSIZE,
        message_outcome(v.pending) is Incomplete,
        v.pending.len() >= 3 ==> is_known_tag(v.pending[2]),
    ensures
        v.can_make_room(),
{
    lemma_frame_size(v.pending);
}

} // verus!
