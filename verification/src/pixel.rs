//! Conversion between the decoder's native BGR byte layout and the RGB
//! layout consumers expect, as a copy into a fresh owned buffer.

use vstd::prelude::*;

verus! {

/// Pixel `p` of `out` holds the bytes of pixel `p` of `src` with the first
/// and third channel exchanged and the middle channel kept.
pub open spec fn pixel_swapped(src: Seq<u8>, out: Seq<u8>, p: int) -> bool {
    &&& out[3 * p] == src[3 * p + 2]
    &&& out[3 * p + 1] == src[3 * p + 1]
    &&& out[3 * p + 2] == src[3 * p]
}

/// `out` is `src` with the byte order of every packed three-byte pixel
/// reversed: exactly the BGR-to-RGB relayout of an 8-bit, 3-channel image.
pub open spec fn is_bgr_to_rgb(src: Seq<u8>, out: Seq<u8>) -> bool {
    &&& out.len() == src.len()
    &&& forall|p: int| 0 <= p && 3 * p + 2 < src.len() ==> #[trigger] pixel_swapped(src, out, p)
}

/// Reorders a packed 8-bit, 3-channel pixel buffer from BGR to RGB,
/// copying every byte into a fresh owned buffer.
pub fn bgr_to_rgb(src: &Vec<u8>) -> (out: Vec<u8>)
    requires
        src@.len() % 3 == 0,
    ensures
        is_bgr_to_rgb(src@, out@),
{
    let n = src.len();
    proof {
        vstd::arithmetic::div_mod::lemma_fundamental_div_mod(n as int, 3);
    }
    let pixels = n / 3;
    let mut out: Vec<u8> = Vec::new();
    let mut p: usize = 0;
    while p < pixels
        invariant
            p <= pixels,
            n == src@.len(),
            n == 3 * pixels,
            out@.len() == 3 * p,
            forall|q: int| 0 <= q < p ==> #[trigger] pixel_swapped(src@, out@, q),
        decreases pixels - p,
    {
        let ghost prefix = out@;
        out.push(src[3 * p + 2]);
        out.push(src[3 * p + 1]);
        out.push(src[3 * p]);
        proof {
            assert forall|q: int| 0 <= q < p + 1 implies pixel_swapped(src@, out@, q) by {
                if q < p {
                    assert(pixel_swapped(src@, prefix, q));
                }
            }
        }
        p = p + 1;
    }
    proof {
        assert forall|q: int| 0 <= q && 3 * q + 2 < src@.len() implies pixel_swapped(
            src@,
            out@,
            q,
        ) by {
            assert(3 * q + 2 < 3 * pixels);
        }
    }
    out
}

} // verus!
