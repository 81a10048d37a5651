//! The receive loop, one read at a time.
//!
//! While the connection is live the loop reads. A read that brings bytes
//! is decoded into one event frame, which goes to the dispatcher before
//! the next read; a read that brings none is passed over; a read error
//! fails the connection and ends the loop, which never retries. The
//! caller performs the reads and the dispatching; what to do with each
//! read is decided here.

use vstd::prelude::*;
use vstd::slice::{slice_subrange, slice_to_vec};
use vstd::utf8::{decode_utf8, valid_utf8};
use crate::errors::{FailureCause, IoError};
use crate::query::{find_byte, index_of};
use crate::state::{step, ConnectionState, StateEvent};
use crate::text::text_from_utf8;

verus! {

/// What an event frame holds, as plain values.
pub struct FrameView {
    pub event_type: Seq<char>,
    pub payload: Seq<u8>,
}

/// One decoded unit of inbound data.
#[derive(Clone, Debug, PartialEq, Eq)]
pub struct EventFrame {
    /// The tag that tells the dispatcher what kind of event this is.
    pub event_type: String,
    /// The event's data, which the core does not interpret.
    pub payload: Vec<u8>,
}

impl View for EventFrame {
    type V = FrameView;

    open spec fn view(&self) -> FrameView {
        FrameView { event_type: self.event_type@, payload: self.payload@ }
    }
}

/// How the bytes of one read become an event frame.
#[derive(Clone, Debug, PartialEq, Eq)]
pub enum FrameDecoder {
    /// The event type is known beforehand: every frame carries this tag,
    /// and the bytes read are its payload as they stand.
    OutOfBand(String),
    /// The event type leads the payload: the bytes before the first
    /// separator byte are the tag, the bytes after it the payload.
    LeadingTag(u8),
}

/// The frame that `decoder` makes of `bytes`.
///
/// Under a leading tag, bytes that hold no separator, or whose tag is not
/// UTF-8 text, become a frame with an empty event type and all the bytes
/// as its payload.
pub open spec fn spec_decode(decoder: FrameDecoder, bytes: Seq<u8>) -> FrameView {
    match decoder {
        FrameDecoder::OutOfBand(tag) => FrameView { event_type: tag@, payload: bytes },
        FrameDecoder::LeadingTag(separator) => {
            let i = index_of(bytes, separator);
            if i < bytes.len() && valid_utf8(bytes.take(i)) {
                FrameView { event_type: decode_utf8(bytes.take(i)), payload: bytes.skip(i + 1) }
            } else {
                FrameView { event_type: Seq::empty(), payload: bytes }
            }
        },
    }
}

impl FrameDecoder {
    /// Decodes the bytes of one read.
    pub fn decode(&self, bytes: Vec<u8>) -> (frame: EventFrame)
        ensures
            frame@ == spec_decode(*self, bytes@),
    {
        match self {
            FrameDecoder::OutOfBand(tag) => EventFrame { event_type: tag.clone(), payload: bytes },
            FrameDecoder::LeadingTag(separator) => {
                let at = find_byte(bytes.as_slice(), 0, *separator);
                assert(bytes@.skip(0) == bytes@);
                if at < bytes.len() {
                    let tag = slice_to_vec(slice_subrange(bytes.as_slice(), 0, at));
                    assert(tag@ == bytes@.take(at as int));
                    match text_from_utf8(tag) {
                        Some(event_type) => {
                            let end: usize = bytes.len();
                            let payload = slice_to_vec(
                                slice_subrange(bytes.as_slice(), at + 1, end),
                            );
                            assert(payload@ == bytes@.skip(at + 1));
                            return EventFrame { event_type, payload };
                        },
                        None => {},
                    }
                }
                EventFrame { event_type: String::new(), payload: bytes }
            },
        }
    }
}

/// What the loop does after one read, as plain values.
pub enum StepView {
    Dispatch(FrameView),
    Idle,
    Exit,
}

/// What the loop does after one read.
#[derive(Clone, Debug, PartialEq, Eq)]
pub enum ReceiveAction {
    /// Hand this frame to the dispatcher, then read again.
    Dispatch(EventFrame),
    /// Nothing was read: read again.
    Idle,
    /// The connection is not live: stop reading.
    Exit,
}

impl View for ReceiveAction {
    type V = StepView;

    open spec fn view(&self) -> StepView {
        match *self {
            ReceiveAction::Dispatch(frame) => StepView::Dispatch(frame@),
            ReceiveAction::Idle => StepView::Idle,
            ReceiveAction::Exit => StepView::Exit,
        }
    }
}

/// One turn of the loop: the state after the read and what to do next.
///
/// A connection that is not live is left as it is and the loop ends,
/// whatever was read: nothing is dispatched once the state has changed.
pub open spec fn spec_receive_step(
    state: ConnectionState,
    read: Result<Seq<u8>, IoError>,
    decoder: FrameDecoder,
) -> (ConnectionState, StepView) {
    if state != ConnectionState::Live {
        (state, StepView::Exit)
    } else {
        match read {
            Ok(bytes) => if bytes.len() > 0 {
                (ConnectionState::Live, StepView::Dispatch(spec_decode(decoder, bytes)))
            } else {
                (ConnectionState::Live, StepView::Idle)
            },
            Err(e) => (ConnectionState::Failed(FailureCause::Io(e)), StepView::Exit),
        }
    }
}

/// A whole run of the loop over the reads of `reads`, in order: the state
/// it ends in and the frames it dispatches, in the order of dispatch.
pub open spec fn spec_receive_all(
    state: ConnectionState,
    reads: Seq<Result<Seq<u8>, IoError>>,
    decoder: FrameDecoder,
) -> (ConnectionState, Seq<FrameView>)
    decreases reads.len(),
{
    if reads.len() == 0 {
        (state, Seq::empty())
    } else {
        let (next, action) = spec_receive_step(state, reads[0], decoder);
        match action {
            StepView::Exit => (next, Seq::empty()),
            StepView::Idle => spec_receive_all(next, reads.skip(1), decoder),
            StepView::Dispatch(frame) => {
                let (last, frames) = spec_receive_all(next, reads.skip(1), decoder);
                (last, seq![frame] + frames)
            },
        }
    }
}

/// The outcome of a read, with its bytes as a sequence.
pub open spec fn read_view(read: Result<Vec<u8>, IoError>) -> Result<Seq<u8>, IoError> {
    match read {
        Ok(bytes) => Ok(bytes@),
        Err(e) => Err(e),
    }
}

/// The outcomes of a run of reads.
pub open spec fn reads_view(reads: Seq<Result<Vec<u8>, IoError>>) -> Seq<Result<Seq<u8>, IoError>> {
    Seq::new(reads.len(), |i: int| read_view(reads[i]))
}

/// The contents of a vector of frames.
pub open spec fn frames_view(frames: Seq<EventFrame>) -> Seq<FrameView> {
    Seq::new(frames.len(), |i: int| frames[i]@)
}

/// Decides one turn of the loop.
pub fn receive_step(
    state: ConnectionState,
    read: Result<Vec<u8>, IoError>,
    decoder: &FrameDecoder,
) -> (r: (ConnectionState, ReceiveAction))
    ensures
        (r.0, r.1@) == spec_receive_step(state, read_view(read), *decoder),
{
    if !state.is_live() {
        return (state, ReceiveAction::Exit);
    }
    match read {
        Ok(bytes) => {
            if bytes.len() > 0 {
                (ConnectionState::Live, ReceiveAction::Dispatch(decoder.decode(bytes)))
            } else {
                (ConnectionState::Live, ReceiveAction::Idle)
            }
        },
        Err(e) => (ConnectionState::Failed(FailureCause::Io(e)), ReceiveAction::Exit),
    }
}

/// Runs the loop over recorded reads and collects what it would dispatch.
pub fn receive_all(
    state: ConnectionState,
    reads: &Vec<Result<Vec<u8>, IoError>>,
    decoder: &FrameDecoder,
) -> (r: (ConnectionState, Vec<EventFrame>))
    ensures
        (r.0, frames_view(r.1@)) == spec_receive_all(state, reads_view(reads@), *decoder),
{
    let ghost all = reads_view(reads@);
    let mut current = state;
    let mut frames: Vec<EventFrame> = Vec::new();
    let mut i: usize = 0;
    let mut running = true;
    proof {
        assert(all.skip(0) == all);
        let rest = spec_receive_all(current, all, *decoder);
        assert(frames_view(frames@) + rest.1 == rest.1);
    }
    while running && i < reads.len()
        invariant
            i <= reads@.len(),
            all == reads_view(reads@),
            running ==> spec_receive_all(state, all, *decoder) == ({
                let rest = spec_receive_all(current, all.skip(i as int), *decoder);
                (rest.0, frames_view(frames@) + rest.1)
            }),
            !running ==> spec_receive_all(state, all, *decoder) == (current, frames_view(frames@)),
        decreases reads@.len() - i,
    {
        let read: Result<Vec<u8>, IoError> = match &reads[i] {
            Ok(bytes) => Ok(slice_to_vec(bytes.as_slice())),
            Err(e) => Err(*e),
        };
        proof {
            let tail = all.skip(i as int);
            assert(tail[0] == read_view(read));
            assert(tail.skip(1) == all.skip(i + 1));
        }
        let ghost before = frames_view(frames@);
        let (next, action) = receive_step(current, read, decoder);
        match action {
            ReceiveAction::Dispatch(frame) => {
                frames.push(frame);
                proof {
                    let rest = spec_receive_all(next, all.skip(i + 1), *decoder);
                    assert(frames_view(frames@) == before + seq![frame@]);
                    assert(before + (seq![frame@] + rest.1) == frames_view(frames@) + rest.1);
                }
            },
            ReceiveAction::Idle => {},
            ReceiveAction::Exit => {
                proof {
                    assert(before + Seq::<FrameView>::empty() == before);
                }
                running = false;
            },
        }
        current = next;
        i += 1;
    }
    proof {
        if running {
            assert(all.skip(i as int).len() == 0);
            assert(frames_view(frames@) + Seq::<FrameView>::empty() == frames_view(frames@));
        }
    }
    (current, frames)
}

/// The frame that a read gives rise to, if it does: a read that brought
/// bytes gives the frame decoded from them, and no other read gives any.
pub open spec fn frame_of(decoder: FrameDecoder, read: Result<Seq<u8>, IoError>) -> Option<
    FrameView,
> {
    match read {
        Ok(bytes) => if bytes.len() > 0 {
            Some(spec_decode(decoder, bytes))
        } else {
            None
        },
        Err(_) => None,
    }
}

/// [`frame_of`] under a fixed decoder, as a function of the read.
pub open spec fn framer(decoder: FrameDecoder) -> spec_fn(Result<Seq<u8>, IoError>) -> Option<
    FrameView,
> {
    |read: Result<Seq<u8>, IoError>| frame_of(decoder, read)
}

/// The receive loop moves the connection along the transitions of the
/// state machine and in no other way: a read that fails is the machine's
/// read-failure event, and a read that succeeds leaves the state alone.
pub proof fn law_receive_step_is_transition(
    state: ConnectionState,
    read: Result<Seq<u8>, IoError>,
    decoder: FrameDecoder,
)
    ensures
        spec_receive_step(state, read, decoder).0 == match read {
            Ok(_) => state,
            Err(e) => step(state, StateEvent::ReadFailed(e)),
        },
{
}

/// Nothing is dispatched on a connection that is not live, and its state
/// is not touched, whatever is read and however often. In particular no
/// frame is dispatched once a stop request has been taken.
pub proof fn law_no_dispatch_unless_live(
    state: ConnectionState,
    reads: Seq<Result<Seq<u8>, IoError>>,
    decoder: FrameDecoder,
)
    requires
        state != ConnectionState::Live,
    ensures
        spec_receive_all(state, reads, decoder) == (state, Seq::<FrameView>::empty()),
{
}

/// A run over reads in two parts is the run over the first part, followed,
/// if the connection is still live, by the run over the second.
pub proof fn law_receive_in_parts(
    state: ConnectionState,
    first: Seq<Result<Seq<u8>, IoError>>,
    second: Seq<Result<Seq<u8>, IoError>>,
    decoder: FrameDecoder,
)
    ensures
        spec_receive_all(state, first + second, decoder) == ({
            let (middle, frames1) = spec_receive_all(state, first, decoder);
            if middle != ConnectionState::Live {
                (middle, frames1)
            } else {
                let (last, frames2) = spec_receive_all(middle, second, decoder);
                (last, frames1 + frames2)
            }
        }),
    decreases first.len(),
{
    let whole = first + second;
    if first.len() == 0 {
        assert(whole == second);
        if state == ConnectionState::Live {
            let rest = spec_receive_all(state, second, decoder);
            assert(Seq::<FrameView>::empty() + rest.1 == rest.1);
        }
    } else {
        assert(whole[0] == first[0]);
        assert(whole.skip(1) == first.skip(1) + second);
        let (next, action) = spec_receive_step(state, first[0], decoder);
        law_receive_in_parts(next, first.skip(1), second, decoder);
        match action {
            StepView::Dispatch(frame) => {
                let (middle, frames1) = spec_receive_all(next, first.skip(1), decoder);
                if middle == ConnectionState::Live {
                    let (last, frames2) = spec_receive_all(middle, second, decoder);
                    assert(seq![frame] + (frames1 + frames2) == (seq![frame] + frames1)
                        + frames2);
                }
            },
            _ => {},
        }
    }
}

/// As long as no read fails, the connection stays live and every read
/// that brought bytes is dispatched, in the order of the reads.
proof fn lemma_receive_without_error(reads: Seq<Result<Seq<u8>, IoError>>, decoder: FrameDecoder)
    requires
        forall|i: int| 0 <= i < reads.len() ==> (#[trigger] reads[i]) is Ok,
    ensures
        spec_receive_all(ConnectionState::Live, reads, decoder) == (
            ConnectionState::Live,
            reads.filter_map(framer(decoder)),
        ),
    decreases reads.len(),
{
    if reads.len() > 0 {
        let front = reads.drop_last();
        let last = seq![reads.last()];
        lemma_receive_without_error(front, decoder);
        assert(front + last == reads);
        law_receive_in_parts(ConnectionState::Live, front, last, decoder);
        let frames = front.filter_map(framer(decoder));
        let live = ConnectionState::Live;
        assert(spec_receive_all(live, last.skip(1), decoder) == (live, Seq::<FrameView>::empty()));
        assert(last[0] == reads.last());
        match frame_of(decoder, reads.last()) {
            Some(frame) => {
                assert(spec_receive_all(live, last, decoder) == (
                    live,
                    seq![frame] + Seq::<FrameView>::empty(),
                ));
                assert(seq![frame] + Seq::<FrameView>::empty() == seq![frame]);
            },
            None => {
                assert(spec_receive_all(live, last, decoder) == (live, Seq::<FrameView>::empty()));
                assert(frames + Seq::<FrameView>::empty() == frames);
            },
        }
        assert(framer(decoder)(reads.last()) == frame_of(decoder, reads.last()));
    }
}

/// What a run on a live connection comes to. Let `n` be the number of
/// reads before the first that fails. The frames dispatched are those of
/// the first `n` reads that brought bytes, each decoded from its own read,
/// in the order of the reads: none is dropped, repeated or moved. If no
/// read fails, the connection stays live; otherwise it ends as failed with
/// the error of read `n`, and nothing after that read is looked at.
pub proof fn law_receive_in_order(
    reads: Seq<Result<Seq<u8>, IoError>>,
    n: int,
    decoder: FrameDecoder,
)
    requires
        0 <= n <= reads.len(),
        forall|i: int| 0 <= i < n ==> (#[trigger] reads[i]) is Ok,
        n < reads.len() ==> reads[n] is Err,
    ensures
        spec_receive_all(ConnectionState::Live, reads, decoder) == (
            if n < reads.len() {
                ConnectionState::Failed(FailureCause::Io(reads[n]->Err_0))
            } else {
                ConnectionState::Live
            },
            reads.take(n).filter_map(framer(decoder)),
        ),
{
    let before = reads.take(n);
    let after = reads.skip(n);
    assert(before + after == reads);
    lemma_receive_without_error(before, decoder);
    law_receive_in_parts(ConnectionState::Live, before, after, decoder);
    let frames = before.filter_map(framer(decoder));
    assert(frames + Seq::<FrameView>::empty() == frames);
    if n < reads.len() {
        assert(after[0] == reads[n]);
    }
}

} // verus!
