use vstd::prelude::*;
use crate::fixed::clamp_spec;
use vstd::arithmetic::div_mod::lemma_div_is_ordered;

verus! {

/// How a newly shaded color is folded into the color already accumulated
/// for a fragment.
#[derive(Clone, Copy, PartialEq, Eq, Structural, Debug)]
pub enum BlendMode {
    /// The new color wins outright.
    Replace,
    /// Alpha-less "over": without a coverage channel this is a plain
    /// replacement, kept as its own mode as a placeholder for compositing.
    Normal,
    /// Lightens: `255 - (255 - acc) * (255 - new) / 255` per channel.
    Screen,
    /// Photographic overlay: doubles the product below mid-gray, and
    /// inverts-and-doubles above it, per channel.
    Overlay,
}

/// One blended channel, clamped to the representable range.
pub open spec fn blend_channel_spec(mode: BlendMode, acc: int, new: int) -> int {
    match mode {
        BlendMode::Replace => clamp_spec(new, 0, 255),
        BlendMode::Normal => clamp_spec(new, 0, 255),
        BlendMode::Screen => clamp_spec(255 - (255 - acc) * (255 - new) / 255, 0, 255),
        BlendMode::Overlay => clamp_spec(
            if acc < 128 {
                2 * acc * new / 255
            } else {
                255 - 2 * (255 - acc) * (255 - new) / 255
            },
            0,
            255,
        ),
    }
}

/// Blend one pair of channel values, each already in `[0, 255]`.
pub fn blend_channel(mode: BlendMode, acc: u8, new: u8) -> (r: u8)
    ensures
        r == blend_channel_spec(mode, acc as int, new as int),
{
    match mode {
        BlendMode::Replace => new,
        BlendMode::Normal => new,
        BlendMode::Screen => {
            let a = acc as u64;
            let n = new as u64;
            proof {
                assert((255 - a) * (255 - n) <= 65025) by (nonlinear_arith)
                    requires
                        a <= 255,
                        n <= 255,
                ;
            }
            let p = (255 - a) * (255 - n);
            let t = p / 255;
            proof {
                lemma_div_is_ordered(p as int, 65025, 255);
            }
            (255 - t) as u8
        },
        BlendMode::Overlay => {
            let a = acc as u64;
            let n = new as u64;
            if a < 128 {
                proof {
                    assert(2 * a * n <= 64770) by (nonlinear_arith)
                        requires
                            a <= 127,
                            n <= 255,
                    ;
                }
                let p = 2 * a * n;
                let t = p / 255;
                proof {
                    lemma_div_is_ordered(p as int, 64770, 255);
                }
                t as u8
            } else {
                proof {
                    assert(2 * (255 - a) * (255 - n) <= 65010) by (nonlinear_arith)
                        requires
                            128 <= a <= 255,
                            n <= 255,
                    ;
                }
                let p = 2 * (255 - a) * (255 - n);
                let t = p / 255;
                proof {
                    lemma_div_is_ordered(p as int, 65010, 255);
                }
                (255 - t) as u8
            }
        },
    }
}

} // verus!
