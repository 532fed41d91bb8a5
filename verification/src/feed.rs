//! Decoding a feed that is held in memory, through the same window and
//! the same steps that a feed read from a source goes through.

use crate::codec::Outcome;
use crate::errors::DecodeError;
use crate::message::{
    is_known_tag, lemma_frame_size, lemma_message_stable, message_outcome, Message, MessageView,
};
use crate::stream::{
    decoded_records, end_of_source_outcome, parse_reader, stream_items, MessageStream, Step,
};
use crate::window::{BUFSIZE, REMNANT_LIMIT};
use vstd::prelude::*;

verus! {

/// The items of a decoded feed, each record by its view.
pub open spec fn items_view(items: Seq<Result<Message, DecodeError>>) -> Seq<
    Result<MessageView, DecodeError>,
> {
    items.map_values(
        |r: Result<Message, DecodeError>|
            match r {
                Ok(m) => Ok(m@),
                Err(e) => Err(e),
            },
    )
}

/// Everything that `feed` yields from position `done` on when it is
/// decoded through a window whose first byte is at position `base` of
/// the feed.
///
/// The window shows the feed up to `base + BUFSIZE`. As long as what
/// it shows from `done` on starts with a complete frame, the frame's
/// record is next. When it does not, the feed has either ended, or the
/// window is full and is compacted so that it starts at `done`; the
/// latter is refused if `REMNANT_LIMIT` bytes or more would have to
/// move.
#[verifier::opaque]
pub open spec fn windowed_items(feed: Seq<u8>, done: int, base: int) -> Seq<
    Result<MessageView, DecodeError>,
>
    decreases feed.len() - done, feed.len() - base,
{
    let end = if base + BUFSIZE < feed.len() {
        base + BUFSIZE
    } else {
        feed.len() as int
    };
    if !(0 <= base <= done <= end) {
        seq![]
    } else {
        let visible = feed.subrange(done, end);
        match message_outcome(visible) {
            Outcome::Done(n, m) => if 0 < n <= visible.len() {
                seq![Ok(m)] + windowed_items(feed, done + n, base)
            } else {
                seq![]
            },
            Outcome::Malformed => seq![Err(DecodeError::MalformedField)],
            Outcome::Incomplete => if base + BUFSIZE > feed.len() {
                match end_of_source_outcome(visible) {
                    Some(e) => seq![Err(e)],
                    None => seq![],
                }
            } else if visible.len() < REMNANT_LIMIT {
                windowed_items(feed, done, done)
            } else {
                seq![Err(DecodeError::BufferCapacityError)]
            },
        }
    }
}

/// Every frame of the feed, complete or cut off, has a known tag.
pub open spec fn known_tags_only(feed: Seq<u8>) -> bool
    decreases feed.len(),
{
    &&& feed.len() >= 3 ==> is_known_tag(feed[2])
    &&& match message_outcome(feed) {
        Outcome::Done(n, m) => 0 < n <= feed.len() ==> known_tags_only(feed.skip(n)),
        _ => true,
    }
}

/// The part of the feed that a window at `base` shows from `done` on.
pub open spec fn visible_from(feed: Seq<u8>, done: int, base: int) -> Seq<u8> {
    if base + BUFSIZE < feed.len() {
        feed.subrange(done, base + BUFSIZE)
    } else {
        feed.subrange(done, feed.len() as int)
    }
}

/// A frame that is complete, or malformed, in what has been received
/// is so in all that the window shows.
proof fn lemma_received_decides(feed: Seq<u8>, done: int, base: int, supplied: int)
    requires
        0 <= base <= done <= supplied <= feed.len(),
        supplied - base <= BUFSIZE,
        !(message_outcome(feed.subrange(done, supplied)) is Incomplete),
    ensures
        message_outcome(visible_from(feed, done, base)) == message_outcome(
            feed.subrange(done, supplied),
        ),
{
    let end = done + visible_from(feed, done, base).len();
    let pending = feed.subrange(done, supplied);
    assert(visible_from(feed, done, base) =~= pending + feed.subrange(supplied, end));
    lemma_message_stable(pending, feed.subrange(supplied, end));
}

/// The next item is the record of the frame that has been received.
proof fn lemma_step_record(feed: Seq<u8>, done: int, base: int, supplied: int)
    requires
        0 <= base <= done <= supplied <= feed.len(),
        supplied - base <= BUFSIZE,
        message_outcome(feed.subrange(done, supplied)) is Done,
    ensures
        message_outcome(feed.subrange(done, supplied)) matches Outcome::Done(n, m) && 0 < n
            <= supplied - done && windowed_items(feed, done, base) == seq![
            Ok::<MessageView, DecodeError>(m),
        ] + windowed_items(feed, done + n, base),
{
    reveal(windowed_items);
    lemma_received_decides(feed, done, base, supplied);
    lemma_frame_size(feed.subrange(done, supplied));
}

/// A malformed frame ends the feed.
proof fn lemma_step_malformed(feed: Seq<u8>, done: int, base: int, supplied: int)
    requires
        0 <= base <= done <= supplied <= feed.len(),
        supplied - base <= BUFSIZE,
        message_outcome(feed.subrange(done, supplied)) is Malformed,
    ensures
        windowed_items(feed, done, base) == seq![
            Err::<MessageView, DecodeError>(DecodeError::MalformedField),
        ],
{
    reveal(windowed_items);
    lemma_received_decides(feed, done, base, supplied);
}

/// A full window whose remainder is too large to move ends the feed.
proof fn lemma_step_refused(feed: Seq<u8>, done: int, base: int)
    requires
        0 <= base <= done <= base + BUFSIZE <= feed.len(),
        message_outcome(feed.subrange(done, base + BUFSIZE)) is Incomplete,
        base + BUFSIZE - done >= REMNANT_LIMIT,
    ensures
        windowed_items(feed, done, base) == seq![
            Err::<MessageView, DecodeError>(DecodeError::BufferCapacityError),
        ],
{
    reveal(windowed_items);
}

/// A full window whose remainder is short is compacted, which changes
/// nothing but where the window starts.
proof fn lemma_step_compact(feed: Seq<u8>, done: int, base: int)
    requires
        0 <= base <= done <= base + BUFSIZE <= feed.len(),
        message_outcome(feed.subrange(done, base + BUFSIZE)) is Incomplete,
        base + BUFSIZE - done < REMNANT_LIMIT,
    ensures
        windowed_items(feed, done, base) == windowed_items(feed, done, done),
{
    reveal(windowed_items);
}

/// The end of the source ends the feed: with a failure if a frame has
/// been cut off, without one otherwise.
proof fn lemma_step_end(feed: Seq<u8>, done: int, base: int)
    requires
        0 <= base <= done <= feed.len() < base + BUFSIZE,
        message_outcome(feed.subrange(done, feed.len() as int)) is Incomplete,
    ensures
        windowed_items(feed, done, base) == match end_of_source_outcome(
            feed.subrange(done, feed.len() as int),
        ) {
            Some(e) => seq![Err::<MessageView, DecodeError>(e)],
            None => seq![],
        },
{
    reveal(windowed_items);
}

/// Decodes a feed held in memory to its end, handing it to a stream in
/// pieces of at most `chunk` bytes (`0` for as many as the window has
/// room for). What comes out does not depend on `chunk`.
pub fn decode_feed(feed: &[u8], chunk: usize) -> (items: Vec<Result<Message, DecodeError>>)
    ensures
        items_view(items@) == windowed_items(feed@, 0, 0),
{
    let mut stream: MessageStream<()> = parse_reader(());
    let mut items: Vec<Result<Message, DecodeError>> = Vec::new();
    let mut supplied: usize = 0;
    let ghost mut done: int = 0;
    let ghost mut base: int = 0;
    assert(stream@.pending =~= feed@.subrange(0, 0));
    assert(items_view(items@) =~= Seq::empty());
    loop
        invariant
            0 <= base <= done <= supplied <= feed@.len(),
            supplied - base <= BUFSIZE,
            stream@.pending == feed@.subrange(done, supplied as int),
            stream@.offset == done - base,
            items_view(items@) + windowed_items(feed@, done, base) == windowed_items(feed@, 0, 0),
        decreases feed@.len() - supplied, stream@.pending.len(),
    {
        let ghost pending = stream@.pending;
        let ghost before = items_view(items@);
        let ghost rest = windowed_items(feed@, done, base);
        match stream.poll() {
            Step::Record(msg) => {
                items.push(Ok(msg));
                proof {
                    lemma_step_record(feed@, done, base, supplied as int);
                    let n = message_outcome(pending)->Done_0;
                    assert(stream@.pending =~= feed@.subrange(done + n, supplied as int));
                    assert(items_view(items@) =~= before.push(Ok(msg@)));
                    assert(before.push(Ok(msg@)) + windowed_items(feed@, done + n, base) =~= before
                        + rest);
                    done = done + n;
                }
            },
            Step::Failed(e) => {
                items.push(Err(e));
                proof {
                    if message_outcome(pending) is Malformed {
                        lemma_step_malformed(feed@, done, base, supplied as int);
                    } else {
                        lemma_step_refused(feed@, done, base);
                    }
                    assert(items_view(items@) =~= before.push(Err(e)));
                    assert(before.push(Err(e)) =~= before + rest);
                }
                return items;
            },
            Step::NeedBytes(room) => {
                proof {
                    if supplied - base == BUFSIZE {
                        lemma_step_compact(feed@, done, base);
                        base = done;
                    }
                }
                let left: usize = feed.len() - supplied;
                if left == 0 {
                    proof {
                        lemma_step_end(feed@, done, base);
                    }
                    match stream.end_of_source() {
                        Some(e) => {
                            items.push(Err(e));
                            proof {
                                assert(items_view(items@) =~= before.push(Err(e)));
                                assert(before.push(Err(e)) =~= before + rest);
                            }
                        },
                        None => {
                            proof {
                                assert(before =~= before + rest);
                            }
                        },
                    }
                    return items;
                }
                let mut n: usize = if room < left {
                    room
                } else {
                    left
                };
                if chunk != 0 && chunk < n {
                    n = chunk;
                }
                let piece = vstd::slice::slice_subrange(feed, supplied, supplied + n);
                match stream.supply(piece) {
                    Ok(()) => {},
                    Err(e) => {
                        items.push(Err(e));
                        return items;
                    },
                }
                proof {
                    assert(stream@.pending =~= feed@.subrange(done, supplied + n));
                }
                supplied = supplied + n;
            },
        }
    }
}

/// A feed that starts with a complete frame yields the frame's record
/// and then what the rest of the feed yields.
pub proof fn lemma_items_after_record(feed: Seq<u8>)
    requires
        message_outcome(feed) is Done,
    ensures
        message_outcome(feed) matches Outcome::Done(n, m) && 0 < n <= feed.len() && stream_items(
            feed,
        ) == seq![Ok::<MessageView, DecodeError>(m)] + stream_items(feed.skip(n)),
{
    lemma_frame_size(feed);
    let n = message_outcome(feed)->Done_0;
    let m = message_outcome(feed)->Done_1;
    let ok = |m: MessageView| Ok::<MessageView, DecodeError>(m);
    let tail = decoded_records(feed.skip(n));
    assert(decoded_records(feed) == seq![m] + tail);
    assert((seq![m] + tail).map_values(ok) =~= seq![ok(m)] + tail.map_values(ok));
    assert(stream_items(feed) =~= seq![ok(m)] + stream_items(feed.skip(n)));
}

/// Without frames of unknown tag the window is never too small: the
/// feed yields through the window what it yields decoded as a whole.
pub proof fn lemma_window_is_transparent(feed: Seq<u8>, done: int, base: int)
    requires
        0 <= base <= done <= feed.len(),
        done - base <= BUFSIZE,
        known_tags_only(feed.skip(done)),
    ensures
        windowed_items(feed, done, base) == stream_items(feed.skip(done)),
    decreases feed.len() - done, feed.len() - base,
{
    reveal(windowed_items);
    let rest = feed.skip(done);
    let visible = visible_from(feed, done, base);
    let end = done + visible.len();
    assert(rest =~= visible + feed.subrange(end, feed.len() as int));
    lemma_frame_size(visible);
    match message_outcome(visible) {
        Outcome::Done(n, m) => {
            lemma_message_stable(visible, feed.subrange(end, feed.len() as int));
            lemma_items_after_record(rest);
            assert(rest.skip(n) =~= feed.skip(done + n));
            lemma_window_is_transparent(feed, done + n, base);
        },
        Outcome::Malformed => {
            lemma_message_stable(visible, feed.subrange(end, feed.len() as int));
            assert(decoded_records(rest) =~= Seq::empty());
            assert(stream_items(rest) =~= seq![
                Err::<MessageView, DecodeError>(DecodeError::MalformedField),
            ]);
        },
        Outcome::Incomplete => {
            if base + BUFSIZE > feed.len() {
                assert(rest =~= visible);
                assert(decoded_records(rest) =~= Seq::empty());
                assert(stream_items(rest) =~= match end_of_source_outcome(visible) {
                    Some(e) => seq![Err::<MessageView, DecodeError>(e)],
                    None => seq![],
                });
            } else if visible.len() < REMNANT_LIMIT {
                lemma_window_is_transparent(feed, done, done);
            } else {
                assert(visible[2] == rest[2]);
                assert(false);
            }
        },
    }
}

/// The same, for a whole feed.
pub proof fn lemma_known_feed(feed: Seq<u8>)
    requires
        known_tags_only(feed),
    ensures
        windowed_items(feed, 0, 0) == stream_items(feed),
{
    assert(feed.skip(0) =~= feed);
    lemma_window_is_transparent(feed, 0, 0);
}

/// `windowed` is `whole`, or records from the front of `whole` followed
/// by `BufferCapacityError`.
pub open spec fn same_or_cut_short(
    windowed: Seq<Result<MessageView, DecodeError>>,
    whole: Seq<Result<MessageView, DecodeError>>,
) -> bool {
    windowed == whole || exists|k: int|
        0 <= k <= whole.len() && #[trigger] whole.take(k).push(
            Err(DecodeError::BufferCapacityError),
        ) == windowed && forall|j: int| 0 <= j < k ==> (#[trigger] whole[j]) is Ok
}

/// Whatever the feed holds, the window changes what it yields in one
/// way only: it may cut the records short with `BufferCapacityError`.
pub proof fn lemma_window_cuts_short_only(feed: Seq<u8>, done: int, base: int)
    requires
        0 <= base <= done <= feed.len(),
        done - base <= BUFSIZE,
    ensures
        same_or_cut_short(windowed_items(feed, done, base), stream_items(feed.skip(done))),
    decreases feed.len() - done, feed.len() - base,
{
    reveal(windowed_items);
    let failure = Err::<MessageView, DecodeError>(DecodeError::BufferCapacityError);
    let rest = feed.skip(done);
    let whole = stream_items(rest);
    let windowed = windowed_items(feed, done, base);
    let visible = visible_from(feed, done, base);
    let end = done + visible.len();
    assert(rest =~= visible + feed.subrange(end, feed.len() as int));
    lemma_frame_size(visible);
    match message_outcome(visible) {
        Outcome::Done(n, m) => {
            lemma_message_stable(visible, feed.subrange(end, feed.len() as int));
            lemma_items_after_record(rest);
            assert(rest.skip(n) =~= feed.skip(done + n));
            lemma_window_cuts_short_only(feed, done + n, base);
            let first = seq![Ok::<MessageView, DecodeError>(m)];
            let tail = stream_items(feed.skip(done + n));
            let windowed_tail = windowed_items(feed, done + n, base);
            if windowed_tail != tail {
                let k = choose|k: int|
                    0 <= k <= tail.len() && #[trigger] tail.take(k).push(failure) == windowed_tail
                        && forall|j: int| 0 <= j < k ==> (#[trigger] tail[j]) is Ok;
                assert(whole.take(k + 1).push(failure) =~= first + tail.take(k).push(failure));
                assert forall|j: int| 0 <= j < k + 1 implies (#[trigger] whole[j]) is Ok by {
                    if j > 0 {
                        assert(whole[j] == tail[j - 1]);
                    }
                }
            }
        },
        Outcome::Malformed => {
            lemma_message_stable(visible, feed.subrange(end, feed.len() as int));
            assert(decoded_records(rest) =~= Seq::empty());
            assert(whole =~= seq![Err::<MessageView, DecodeError>(DecodeError::MalformedField)]);
        },
        Outcome::Incomplete => {
            if base + BUFSIZE > feed.len() {
                assert(rest =~= visible);
                assert(decoded_records(rest) =~= Seq::empty());
                assert(whole =~= match end_of_source_outcome(visible) {
                    Some(e) => seq![Err::<MessageView, DecodeError>(e)],
                    None => seq![],
                });
            } else if visible.len() < REMNANT_LIMIT {
                lemma_window_cuts_short_only(feed, done, done);
            } else {
                assert(whole.take(0).push(failure) =~= windowed);
            }
        },
    }
}

} // verus!
