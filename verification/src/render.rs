//! The screen as a frame of RGBA pixels: lit pixels white, others black.
use vstd::prelude::*;
use vstd::arithmetic::div_mod::lemma_fundamental_div_mod_converse;
use crate::machine::DISPLAY_SIZE;

verus! {

/// The four RGBA bytes of a screen pixel: opaque white when lit, opaque
/// black otherwise.
pub open spec fn pixel_rgba(lit: bool) -> Seq<u8> {
    if lit {
        seq![0xffu8, 0xff, 0xff, 0xff]
    } else {
        seq![0x00u8, 0x00, 0x00, 0xff]
    }
}

/// The RGBA frame of a screen: four bytes per pixel, in pixel order.
pub open spec fn frame_of(display: Seq<bool>) -> Seq<u8> {
    Seq::new(4 * display.len(), |k: int| pixel_rgba(display[k / 4])[k % 4])
}

/// Renders the screen as RGBA bytes, four per pixel, in the order of the
/// display's pixels.
pub fn frame_rgba(display: &[bool; DISPLAY_SIZE]) -> (rgba: Vec<u8>)
    ensures
        rgba@ == frame_of(display@),
{
    let mut rgba: Vec<u8> = Vec::new();
    for p in 0..2048
        invariant
            display@.len() == 2048,
            rgba@.len() == 4 * p,
            forall|k: int| 0 <= k < 4 * p ==> #[trigger] rgba@[k] == frame_of(display@)[k],
    {
        let lit = display[p];
        let (r, g, b): (u8, u8, u8) = if lit {
            (0xff, 0xff, 0xff)
        } else {
            (0x00, 0x00, 0x00)
        };
        proof {
            assert forall|c: int| 0 <= c < 4 implies frame_of(display@)[4 * p + c] == pixel_rgba(
                lit,
            )[c] by {
                lemma_fundamental_div_mod_converse(4 * p + c, 4, p as int, c);
            }
        }
        rgba.push(r);
        rgba.push(g);
        rgba.push(b);
        rgba.push(0xff);
        proof {
            assert(rgba@[4 * p + 0] == frame_of(display@)[4 * p + 0]);
            assert(rgba@[4 * p + 1] == frame_of(display@)[4 * p + 1]);
            assert(rgba@[4 * p + 2] == frame_of(display@)[4 * p + 2]);
            assert(rgba@[4 * p + 3] == frame_of(display@)[4 * p + 3]);
        }
    }
    assert(rgba@ =~= frame_of(display@));
    rgba
}

} // verus!
