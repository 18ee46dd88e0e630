//! How a byte stream falls into frames. The delimiter ends a frame and is
//! no part of it; a frame without bytes is no frame.

use vstd::prelude::*;
use crate::byte_stuffing::DELIMITER;
use crate::byte_stuffing::lemma_stuffed_has_no_delimiter;
use crate::byte_stuffing::lemma_stuffed_len;
use crate::byte_stuffing::lemma_unstuff_stuff;
use crate::byte_stuffing::stuffed;
use crate::byte_stuffing::unstuffed;

verus! {

/// The bytes of the frame under way after one more byte.
pub open spec fn pending_step(current: Seq<u8>, byte: u8) -> Seq<u8> {
    if byte == DELIMITER {
        Seq::empty()
    } else {
        current.push(byte)
    }
}

/// The frame that one more byte completes, if it completes one.
pub open spec fn frame_step(current: Seq<u8>, byte: u8) -> Option<Seq<u8>> {
    if byte == DELIMITER && current.len() > 0 {
        Some(current)
    } else {
        None
    }
}

/// The bytes of the frame under way after `data`, starting from `current`.
pub open spec fn pending_after(current: Seq<u8>, data: Seq<u8>) -> Seq<u8>
    decreases data.len(),
{
    if data.len() == 0 {
        current
    } else {
        pending_step(pending_after(current, data.drop_last()), data.last())
    }
}

/// The frames that `data` completes, in order, starting from `current`.
pub open spec fn frames_after(current: Seq<u8>, data: Seq<u8>) -> Seq<Seq<u8>>
    decreases data.len(),
{
    if data.len() == 0 {
        Seq::empty()
    } else {
        let before = frames_after(current, data.drop_last());
        match frame_step(pending_after(current, data.drop_last()), data.last()) {
            Some(frame) => before.push(frame),
            None => before,
        }
    }
}

/// The frames of a whole buffer: those that a delimiter ends, and the
/// bytes behind the last delimiter where there are any.
pub open spec fn frames_of(data: Seq<u8>) -> Seq<Seq<u8>> {
    let complete = frames_after(Seq::empty(), data);
    let rest = pending_after(Seq::empty(), data);
    if rest.len() > 0 {
        complete.push(rest)
    } else {
        complete
    }
}

/// Whether a byte sequence can be a frame: it has bytes and none of them
/// is the delimiter.
pub open spec fn is_frame(frame: Seq<u8>) -> bool {
    &&& frame.len() > 0
    &&& forall|i: int| 0 <= i < frame.len() ==> frame[i] != DELIMITER
}

/// The stream that carries `frames`, each followed by a delimiter.
pub open spec fn stream_of(frames: Seq<Seq<u8>>) -> Seq<u8>
    decreases frames.len(),
{
    if frames.len() == 0 {
        Seq::empty()
    } else {
        stream_of(frames.drop_last()) + frames.last().push(DELIMITER)
    }
}

/// The frame under way never holds a delimiter, if it held none at the
/// start.
pub proof fn lemma_pending_has_no_delimiter(current: Seq<u8>, data: Seq<u8>)
    requires
        forall|i: int| 0 <= i < current.len() ==> current[i] != DELIMITER,
    ensures
        forall|i: int|
            0 <= i < pending_after(current, data).len() ==> pending_after(current, data)[i]
                != DELIMITER,
    decreases data.len(),
{
    if data.len() > 0 {
        lemma_pending_has_no_delimiter(current, data.drop_last());
        let before = pending_after(current, data.drop_last());
        let after = pending_after(current, data);
        assert forall|i: int| 0 <= i < after.len() implies after[i] != DELIMITER by {
            if i < before.len() {
                assert(after[i] == before[i]);
            }
        }
    }
}

/// Every frame that a stream completes has bytes and holds no delimiter.
pub proof fn lemma_frames_after_are_frames(current: Seq<u8>, data: Seq<u8>)
    requires
        forall|i: int| 0 <= i < current.len() ==> current[i] != DELIMITER,
    ensures
        forall|k: int|
            0 <= k < frames_after(current, data).len() ==> is_frame(
                #[trigger] frames_after(current, data)[k],
            ),
    decreases data.len(),
{
    if data.len() > 0 {
        lemma_frames_after_are_frames(current, data.drop_last());
        lemma_pending_has_no_delimiter(current, data.drop_last());
        let before = frames_after(current, data.drop_last());
        let after = frames_after(current, data);
        assert forall|k: int| 0 <= k < after.len() implies is_frame(#[trigger] after[k]) by {
            if k < before.len() {
                assert(after[k] == before[k]);
            }
        }
    }
}

/// Every frame of a buffer has bytes and holds no delimiter.
pub proof fn lemma_frames_of_are_frames(data: Seq<u8>)
    ensures
        forall|k: int| 0 <= k < frames_of(data).len() ==> is_frame(#[trigger] frames_of(data)[k]),
{
    lemma_frames_after_are_frames(Seq::empty(), data);
    lemma_pending_has_no_delimiter(Seq::empty(), data);
}

/// A stream may be read in pieces: the frame under way carries over from
/// one piece to the next, and the frames come out as from the whole.
pub proof fn lemma_frames_after_concat(current: Seq<u8>, a: Seq<u8>, b: Seq<u8>)
    ensures
        pending_after(current, a + b) == pending_after(pending_after(current, a), b),
        frames_after(current, a + b) == frames_after(current, a) + frames_after(
            pending_after(current, a),
            b,
        ),
    decreases b.len(),
{
    if b.len() == 0 {
        assert(a + b =~= a);
    } else {
        lemma_frames_after_concat(current, a, b.drop_last());
        assert((a + b).drop_last() =~= a + b.drop_last());
    }
}

/// Bytes without a delimiter complete no frame and join the frame under
/// way.
pub proof fn lemma_no_delimiter_no_frame(current: Seq<u8>, data: Seq<u8>)
    requires
        forall|i: int| 0 <= i < data.len() ==> data[i] != DELIMITER,
    ensures
        pending_after(current, data) == current + data,
        frames_after(current, data).len() == 0,
    decreases data.len(),
{
    if data.len() == 0 {
        assert(current + data =~= current);
    } else {
        lemma_no_delimiter_no_frame(current, data.drop_last());
        assert((current + data.drop_last()).push(data.last()) =~= current + data);
    }
}

/// A frame followed by a delimiter comes out as that frame and leaves
/// nothing under way.
pub proof fn lemma_one_frame(frame: Seq<u8>)
    requires
        is_frame(frame),
    ensures
        pending_after(Seq::empty(), frame.push(DELIMITER)).len() == 0,
        frames_after(Seq::empty(), frame.push(DELIMITER)) == seq![frame],
{
    let data = frame.push(DELIMITER);
    assert(data.drop_last() =~= frame);
    lemma_no_delimiter_no_frame(Seq::empty(), frame);
}

/// Framing round trip: a stream that carries frames, each followed by a
/// delimiter, falls into exactly those frames.
pub proof fn lemma_frames_of_stream(frames: Seq<Seq<u8>>)
    requires
        forall|k: int| 0 <= k < frames.len() ==> is_frame(#[trigger] frames[k]),
    ensures
        frames_of(stream_of(frames)) == frames,
        pending_after(Seq::empty(), stream_of(frames)).len() == 0,
    decreases frames.len(),
{
    if frames.len() > 0 {
        let head = frames.drop_last();
        let last = frames.last();
        assert forall|k: int| 0 <= k < head.len() implies is_frame(#[trigger] head[k]) by {
            assert(head[k] == frames[k]);
        }
        lemma_frames_of_stream(head);
        lemma_one_frame(last);
        lemma_frames_after_concat(Seq::empty(), stream_of(head), last.push(DELIMITER));
        assert(head.push(last) =~= frames);
    }
}

/// A delimiter that follows a delimiter closes no frame: the empty frame
/// between the two is dropped.
pub proof fn lemma_empty_frame_is_dropped(current: Seq<u8>, data: Seq<u8>)
    ensures
        frames_after(current, data.push(DELIMITER).push(DELIMITER)) == frames_after(
            current,
            data.push(DELIMITER),
        ),
        pending_after(current, data.push(DELIMITER).push(DELIMITER)) == pending_after(
            current,
            data.push(DELIMITER),
        ),
{
    let once = data.push(DELIMITER);
    assert(once.push(DELIMITER).drop_last() =~= once);
}

/// The stream that carries `packets`: each one escaped and followed by a
/// delimiter.
pub open spec fn wire_of(packets: Seq<Seq<u8>>) -> Seq<u8> {
    stream_of(Seq::new(packets.len(), |k: int| stuffed(packets[k])))
}

/// An escaped packet is a frame, if the packet has bytes.
pub proof fn lemma_stuffed_is_frame(packet: Seq<u8>)
    requires
        packet.len() > 0,
    ensures
        is_frame(stuffed(packet)),
{
    lemma_stuffed_len(packet);
    lemma_stuffed_has_no_delimiter(packet);
}

/// Wire round trip: packets that are escaped and sent with delimiters
/// arrive as one frame each, in order, and each frame decodes to its
/// packet, whatever bytes the packets hold.
pub proof fn lemma_wire_round_trip(packets: Seq<Seq<u8>>)
    requires
        forall|k: int| 0 <= k < packets.len() ==> (#[trigger] packets[k]).len() > 0,
    ensures
        frames_of(wire_of(packets)).len() == packets.len(),
        forall|k: int|
            0 <= k < packets.len() ==> unstuffed(#[trigger] frames_of(wire_of(packets))[k])
                == packets[k],
{
    let escaped = Seq::new(packets.len(), |k: int| stuffed(packets[k]));
    assert forall|k: int| 0 <= k < escaped.len() implies is_frame(#[trigger] escaped[k]) by {
        lemma_stuffed_is_frame(packets[k]);
    }
    lemma_frames_of_stream(escaped);
    assert forall|k: int| 0 <= k < packets.len() implies unstuffed(
        #[trigger] frames_of(wire_of(packets))[k],
    ) == packets[k] by {
        lemma_unstuff_stuff(packets[k]);
    }
}

} // verus!
