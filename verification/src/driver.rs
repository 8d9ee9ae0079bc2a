//! The frame-stream driver: walks a byte buffer of back-to-back bitmap
//! frames from offset 0, decoding one frame per step until the cursor
//! reaches the end of the stream.

use vstd::prelude::*;
use crate::bitmap::{decode_frame, spec_decode_frame, Cell, DecodeError, DecodedFrame};

verus! {

/// What decoding every frame from `cursor` to the end of the stream
/// yields: one entry per decoded frame, in stream order — its rows paired
/// with its end offset — together with the final cursor; or the error on
/// which decoding halted.
///
/// The cursor only ever moves forward. A decoded frame that does not
/// advance it (a frame occupying zero bytes) could never be played past,
/// so such a stream is treated as corrupt and earns `OutOfBounds`. The
/// final cursor lands at or past the stream length; past it only through
/// a last zero-area frame whose pixel offset points beyond the end.
pub open spec fn spec_decode_stream(s: Seq<u8>, cursor: int) -> Result<
    (Seq<(Seq<Seq<Cell>>, int)>, int),
    DecodeError,
>
    decreases s.len() - cursor,
{
    if cursor >= s.len() {
        Ok((Seq::empty(), cursor))
    } else {
        match spec_decode_frame(s, cursor) {
            Err(e) => Err(e),
            Ok(step) => {
                if step.1 <= cursor {
                    Err(DecodeError::OutOfBounds)
                } else if step.1 >= s.len() {
                    Ok((seq![step], step.1))
                } else {
                    match spec_decode_stream(s, step.1) {
                        Err(e) => Err(e),
                        Ok(rest) => Ok((seq![step] + rest.0, rest.1)),
                    }
                }
            },
        }
    }
}

/// When decoding from a cursor inside the stream succeeds, it decodes at
/// least one frame, the final cursor is the end offset of the last frame,
/// and that offset lies at or past the stream length: a well-formed
/// stream is consumed whole, one decoded frame per frame it holds, and
/// the final cursor exceeds the length only when the last frame is a
/// zero-area frame whose pixel offset points past the end.
pub proof fn lemma_stream_consumed(s: Seq<u8>, cursor: int)
    requires
        spec_decode_stream(s, cursor) is Ok,
    ensures
        spec_decode_stream(s, cursor)->Ok_0.1 >= s.len(),
        cursor < s.len() ==> spec_decode_stream(s, cursor)->Ok_0.0.len() > 0,
        spec_decode_stream(s, cursor)->Ok_0.0.len() > 0 ==> spec_decode_stream(
            s,
            cursor,
        )->Ok_0.0.last().1 == spec_decode_stream(s, cursor)->Ok_0.1,
    decreases s.len() - cursor,
{
    if cursor >= s.len() {
    } else {
        let step = spec_decode_frame(s, cursor)->Ok_0;
        if step.1 >= s.len() {
            assert(seq![step].last() == step);
        } else {
            lemma_stream_consumed(s, step.1);
            let rest = spec_decode_stream(s, step.1)->Ok_0;
            assert((seq![step] + rest.0).last() == rest.0.last());
        }
    }
}

/// Decodes every frame of the stream, in order, starting at offset 0.
///
/// Each returned entry is the result of one frame decode — its rows and
/// its `next_frame_start`, the offset at which the following frame was
/// decoded — so a stream of `n` frames yields exactly `n` entries, and
/// the last entry ends at or past the stream length. The first malformed,
/// unsupported or truncated frame halts decoding with its error and
/// nothing is returned for that playback.
///
/// The length bound is the machine limit `decode_frame` carries: a final
/// zero-area frame may end up to a one-byte pixel offset past the stream.
pub fn decode_stream(stream: &Vec<u8>) -> (r: Result<Vec<DecodedFrame>, DecodeError>)
    requires
        stream@.len() + u8::MAX <= usize::MAX,
    ensures
        r matches Ok(frames) ==> {
            &&& spec_decode_stream(stream@, 0) matches Ok(p)
            &&& frames@.map_values(|f: DecodedFrame| (f@, f.next_frame_start as int)) == p.0
            &&& (frames@.len() > 0 ==> frames@.last().next_frame_start >= stream@.len())
        },
        r matches Err(e) ==> spec_decode_stream(stream@, 0) == Err::<
            (Seq<(Seq<Seq<Cell>>, int)>, int),
            _,
        >(e),
{
    let ghost s = stream@;
    let mut frames: Vec<DecodedFrame> = Vec::new();
    let mut cursor: usize = 0;
    while cursor < stream.len()
        invariant
            stream@.len() + u8::MAX <= usize::MAX,
            cursor <= stream@.len() + u8::MAX,
            s == stream@,
            frames@.len() > 0 ==> frames@.last().next_frame_start == cursor,
            (match spec_decode_stream(s, cursor as int) {
                Ok(rest) => spec_decode_stream(s, 0) == Ok::<_, DecodeError>(
                    (
                        frames@.map_values(|f: DecodedFrame| (f@, f.next_frame_start as int))
                            + rest.0,
                        rest.1,
                    ),
                ),
                Err(e) => spec_decode_stream(s, 0) == Err::<
                    (Seq<(Seq<Seq<Cell>>, int)>, int),
                    _,
                >(e),
            }),
        decreases stream@.len() + u8::MAX - cursor,
    {
        let frame = match decode_frame(stream, cursor) {
            Ok(f) => f,
            Err(e) => {
                return Err(e);
            },
        };
        if frame.next_frame_start <= cursor {
            return Err(DecodeError::OutOfBounds);
        }
        let ghost prev = cursor as int;
        let ghost old_view = frames@.map_values(|f: DecodedFrame| (f@, f.next_frame_start as int));
        let ghost step = (frame@, frame.next_frame_start as int);
        let next: usize = frame.next_frame_start;
        frames.push(frame);
        cursor = next;
        proof {
            let new_view = frames@.map_values(|f: DecodedFrame| (f@, f.next_frame_start as int));
            assert(new_view =~= old_view.push(step));
            if step.1 >= s.len() {
                assert(seq![step] + spec_decode_stream(s, cursor as int)->Ok_0.0 =~= seq![step]);
            }
            if spec_decode_stream(s, cursor as int) is Ok {
                let rest = spec_decode_stream(s, cursor as int)->Ok_0;
                assert(old_view + (seq![step] + rest.0) =~= new_view + rest.0);
            }
        }
    }
    proof {
        let rest = spec_decode_stream(s, cursor as int)->Ok_0;
        let view = frames@.map_values(|f: DecodedFrame| (f@, f.next_frame_start as int));
        assert(view + rest.0 =~= view);
    }
    Ok(frames)
}

} // verus!
