//! Turning a raw wheel reading into a scroll delta.

use vstd::prelude::*;

verus! {

/// The unit a wheel reading is given in.
#[derive(Clone, Copy, Debug, PartialEq, Eq, Structural)]
pub enum ScrollUnit {
    Line,
    Pixel,
}

/// Microseconds in one second.
pub const MICROS_PER_SECOND: u128 = 1_000_000;

/// Integer division that rounds toward zero, as Rust's `/` does.
pub open spec fn div_toward_zero(a: int, d: int) -> int {
    if a >= 0 {
        a / d
    } else {
        -((-a) / d)
    }
}

/// The scroll amount of a wheel reading `raw`, before it is fitted to `i64`.
///
/// The per-frame factor is `frame_micros * speed / 10^6`. A pixel reading is
/// scaled by that factor once; a line reading is scaled by it twice.
pub open spec fn wheel_amount(raw: int, unit: ScrollUnit, speed: int, frame_micros: int) -> int {
    let f = frame_micros * speed;
    match unit {
        ScrollUnit::Line => div_toward_zero(
            raw * f * f,
            MICROS_PER_SECOND * MICROS_PER_SECOND,
        ),
        ScrollUnit::Pixel => div_toward_zero(raw * f, MICROS_PER_SECOND as int),
    }
}

/// `x` saturated to the range of `i64`.
pub open spec fn saturate_i64(x: int) -> int {
    if x > i64::MAX {
        i64::MAX as int
    } else if x < i64::MIN {
        i64::MIN as int
    } else {
        x
    }
}

/// `m` with the sign that `negative` gives it.
pub open spec fn signed(m: int, negative: bool) -> int {
    if negative {
        -m
    } else {
        m
    }
}

proof fn lemma_product_sign(x: int, y: int)
    ensures
        (x * y < 0) == ((x < 0 && y > 0) || (x > 0 && y < 0)),
        (x * y == 0) == (x == 0 || y == 0),
        x >= 0 && y >= 0 ==> x * y >= 0,
        x <= 0 && y <= 0 ==> x * y >= 0,
        x <= 0 && y >= 0 ==> -(x * y) == (-x) * y,
        x >= 0 && y <= 0 ==> -(x * y) == x * (-y),
        x <= 0 && y <= 0 ==> x * y == (-x) * (-y),
{
    assert((x * y < 0) == ((x < 0 && y > 0) || (x > 0 && y < 0))) by (nonlinear_arith);
    assert((x * y == 0) == (x == 0 || y == 0)) by (nonlinear_arith);
    assert(x >= 0 && y >= 0 ==> x * y >= 0) by (nonlinear_arith);
    assert(x <= 0 && y <= 0 ==> x * y >= 0) by (nonlinear_arith);
    assert(x <= 0 && y >= 0 ==> -(x * y) == (-x) * y) by (nonlinear_arith);
    assert(x >= 0 && y <= 0 ==> -(x * y) == x * (-y)) by (nonlinear_arith);
    assert(x <= 0 && y <= 0 ==> x * y == (-x) * (-y)) by (nonlinear_arith);
}

/// Rounding toward zero takes the quotient of the magnitude and puts the
/// sign back on it.
proof fn lemma_div_toward_zero_magnitude(a: int, d: int, mag: int, negative: bool)
    requires
        d > 0,
        mag == (if a < 0 {
            -a
        } else {
            a
        }),
        negative == (a < 0 && mag / d > 0),
    ensures
        div_toward_zero(a, d) == signed(mag / d, negative),
{
}

/// `-m` or `m` by `negative`, saturated to `i64`.
fn signed_saturated(m: u128, negative: bool) -> (r: i64)
    ensures
        r == saturate_i64(signed(m as int, negative)),
{
    if negative {
        if m >= 0x8000_0000_0000_0000u128 {
            i64::MIN
        } else {
            -(m as i64)
        }
    } else {
        if m > 0x7fff_ffff_ffff_ffffu128 {
            i64::MAX
        } else {
            m as i64
        }
    }
}

/// The scroll amount of one wheel reading for a region with `scroll_speed`,
/// over a frame of `frame_micros` microseconds, saturated to `i64`.
pub fn wheel_scroll_amount(raw: i64, unit: ScrollUnit, scroll_speed: i32, frame_micros: u32) -> (r:
    i64)
    ensures
        r == saturate_i64(wheel_amount(raw as int, unit, scroll_speed as int, frame_micros as int)),
{
    let raw_mag: u128 = if raw < 0 {
        (-(raw as i128)) as u128
    } else {
        raw as u128
    };
    let speed_mag: u128 = if scroll_speed < 0 {
        (-(scroll_speed as i128)) as u128
    } else {
        scroll_speed as u128
    };
    assert(frame_micros as int * speed_mag as int <= 0xffff_ffffu128 * 0x8000_0000u128)
        by (nonlinear_arith)
        requires
            frame_micros <= 0xffff_ffffu32,
            speed_mag <= 0x8000_0000u128,
    ;
    let f_mag: u128 = frame_micros as u128 * speed_mag;
    let ghost f: int = frame_micros as int * scroll_speed as int;
    proof {
        lemma_product_sign(frame_micros as int, scroll_speed as int);
        assert(f_mag == if f < 0 { -f } else { f });
    }
    match unit {
        ScrollUnit::Pixel => {
            assert(raw_mag as int * f_mag as int <= 0x8000_0000_0000_0000u128 * (0xffff_ffffu128
                * 0x8000_0000u128)) by (nonlinear_arith)
                requires
                    raw_mag <= 0x8000_0000_0000_0000u128,
                    f_mag <= 0xffff_ffffu128 * 0x8000_0000u128,
            ;
            let m: u128 = raw_mag * f_mag / MICROS_PER_SECOND;
            let negative = (raw < 0) != (scroll_speed < 0) && m > 0;
            proof {
                let a = raw as int * f;
                lemma_product_sign(raw as int, f);
                assert(raw_mag * f_mag == if a < 0 { -a } else { a });
                if m > 0 {
                    assert(a != 0);
                }
                lemma_div_toward_zero_magnitude(a, MICROS_PER_SECOND as int, raw_mag * f_mag, negative);
            }
            signed_saturated(m, negative)
        },
        ScrollUnit::Line => {
            assert(f_mag as int * f_mag as int <= (0xffff_ffffu128 * 0x8000_0000u128) * (
            0xffff_ffffu128 * 0x8000_0000u128)) by (nonlinear_arith)
                requires
                    f_mag <= 0xffff_ffffu128 * 0x8000_0000u128,
            ;
            let f2: u128 = f_mag * f_mag;
            let d2: u128 = MICROS_PER_SECOND * MICROS_PER_SECOND;
            let ghost g: int = f * f;
            let ghost a: int = raw as int * f * f;
            proof {
                lemma_product_sign(f, f);
                assert(f2 == g);
                assert(a == raw as int * g) by (nonlinear_arith)
                    requires
                        a == raw as int * f * f,
                        g == f * f,
                ;
                lemma_product_sign(raw as int, g);
            }
            let m: u128 = match raw_mag.checked_mul(f2) {
                Some(p) => p / d2,
                None => u128::MAX,
            };
            let negative = raw < 0 && m > 0;
            proof {
                let mag = raw_mag * f2;
                assert(mag == if a < 0 { -a } else { a });
                if mag > u128::MAX {
                    assert(mag / (d2 as int) > 0x1_0000_0000_0000_0000);
                    assert(a != 0);
                    lemma_div_toward_zero_magnitude(a, d2 as int, mag, negative);
                } else {
                    if m > 0 {
                        assert(a != 0);
                    }
                    lemma_div_toward_zero_magnitude(a, d2 as int, mag, negative);
                }
            }
            signed_saturated(m, negative)
        },
    }
}

} // verus!
