//! Decoded frames and their pixel-buffer invariant.

use vstd::prelude::*;

use crate::error::VideoReaderError;

verus! {

/// One decoded, colour-converted, timestamped frame.  The buffer is packed
/// RGB, one byte per channel; ownership transfers fully to the receiver
/// when the frame is sent.
#[derive(Debug)]
pub struct DecodedFrame {
    /// Contiguous RGB bytes, row by row.
    pub data: Vec<u8>,
    /// Frame width in pixels.
    pub width: u32,
    /// Frame height in pixels.
    pub height: u32,
    /// Milliseconds since the start of the stream.
    pub timestamp_ms: u64,
}

impl DecodedFrame {
    /// The pixel-buffer invariant: exactly three bytes per pixel.
    pub open spec fn wf(self) -> bool {
        self.data@.len() == self.width as int * self.height as int * 3
    }

    /// Wraps an owned RGB buffer into a frame, checking the length
    /// invariant before any caller can see the buffer.  A buffer of the
    /// wrong length is a conversion failure.
    pub fn from_rgb(width: u32, height: u32, data: Vec<u8>, timestamp_ms: u64) -> (r: Result<
        DecodedFrame,
        VideoReaderError,
    >)
        ensures
            data@.len() == width as int * height as int * 3 ==> (r matches Ok(f)
                && f == (DecodedFrame { data, width, height, timestamp_ms }) && f.wf()),
            data@.len() != width as int * height as int * 3 ==> (r matches Err(e)
                && e is OpenCV),
    {
        proof {
            assert((width as int) * (height as int) * 3 < 0x1_0000_0000_0000_0000_0000 as int)
                by (nonlinear_arith)
                requires
                    (width as int) < 0x1_0000_0000,
                    (height as int) < 0x1_0000_0000,
            ;
        }
        let expected: u128 = (width as u128) * (height as u128) * 3;
        if data.len() as u128 == expected {
            Ok(DecodedFrame { data, width, height, timestamp_ms })
        } else {
            Err(
                VideoReaderError::OpenCV(
                    "frame buffer length does not match width * height * 3".to_owned(),
                ),
            )
        }
    }
}

/// Timestamps never decrease along the sequence of frames.
pub open spec fn timestamps_nondecreasing(frames: Seq<DecodedFrame>) -> bool {
    forall|i: int, j: int|
        #![trigger frames[i].timestamp_ms, frames[j].timestamp_ms]
        0 <= i <= j < frames.len() ==> frames[i].timestamp_ms <= frames[j].timestamp_ms
}

/// The worker decodes strictly in order and never reorders, so - absent
/// repositioning requests - the frames one worker instance delivers form a
/// contiguous run of the decoder's stream.  A contiguous run of a stream
/// whose timestamps never decrease again has timestamps that never
/// decrease.
pub proof fn lemma_delivered_timestamps_nondecreasing(
    source: Seq<DecodedFrame>,
    lo: int,
    hi: int,
)
    requires
        timestamps_nondecreasing(source),
        0 <= lo <= hi <= source.len(),
    ensures
        timestamps_nondecreasing(source.subrange(lo, hi)),
{
    let run = source.subrange(lo, hi);
    assert forall|i: int, j: int|
        0 <= i <= j < run.len() implies run[i].timestamp_ms <= run[j].timestamp_ms by {
        assert(source[lo + i].timestamp_ms <= source[lo + j].timestamp_ms);
    }
}

} // verus!
