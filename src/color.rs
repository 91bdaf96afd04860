//! Fixed-point HSV colors and hue arithmetic.
//!
//! Hue is held in microdegrees, so one full turn is `HUE_TURN` units;
//! saturation, value and alpha are fractions of `UNIT`.
use vstd::prelude::*;

verus! {

/// Hue units in one degree.
pub const HUE_PER_DEGREE: u32 = 1_000_000;

/// Hue units in a full turn of 360 degrees.
pub const HUE_TURN: u32 = 360_000_000;

/// The fixed-point value of 1.0 for saturation, value and alpha.
pub const UNIT: u32 = 1_000_000;

/// A color in hue, saturation and value.
#[derive(Clone, Copy, Debug, PartialEq, Eq, Structural)]
pub struct Hsv {
    /// Hue in microdegrees.
    pub hue: u32,
    /// Saturation in millionths.
    pub saturation: u32,
    /// Value in millionths.
    pub value: u32,
}

/// A color in hue, saturation and value, with an alpha channel.
#[derive(Clone, Copy, Debug, PartialEq, Eq, Structural)]
pub struct Hsva {
    pub color: Hsv,
    /// Alpha in millionths.
    pub alpha: u32,
}

/// `a + b`, capped at `UNIT`.
pub open spec fn clamped_sum(a: u32, b: u32) -> u32 {
    if a + b > UNIT {
        UNIT
    } else {
        (a + b) as u32
    }
}

/// The component-wise sum of two colors: hues add modulo a full turn,
/// saturations and values add and are capped at one.
pub open spec fn add_hue_offset_spec(base: Hsv, offset: Hsv) -> Hsv {
    Hsv {
        hue: ((base.hue + offset.hue) % (HUE_TURN as int)) as u32,
        saturation: clamped_sum(base.saturation, offset.saturation),
        value: clamped_sum(base.value, offset.value),
    }
}

/// A pure hue shift of `hue` units.
pub open spec fn hue_shift(hue: int) -> Hsv {
    Hsv { hue: (hue % (HUE_TURN as int)) as u32, saturation: 0, value: 0 }
}

impl Hsv {
    /// Hue within one turn, saturation and value within `[0, 1]`.
    pub open spec fn wf(self) -> bool {
        self.hue < HUE_TURN && self.saturation <= UNIT && self.value <= UNIT
    }

    /// A color from raw components: the hue is taken modulo a full turn,
    /// saturation and value are capped at one.
    pub fn new(hue: u32, saturation: u32, value: u32) -> (r: Hsv)
        ensures
            r.hue == hue % HUE_TURN,
            r.saturation == (if saturation > UNIT { UNIT } else { saturation }),
            r.value == (if value > UNIT { UNIT } else { value }),
            r.wf(),
    {
        Hsv {
            hue: hue % HUE_TURN,
            saturation: if saturation > UNIT { UNIT } else { saturation },
            value: if value > UNIT { UNIT } else { value },
        }
    }
}

fn clamped_add(a: u32, b: u32) -> (r: u32)
    ensures
        r == clamped_sum(a, b),
{
    let s: u64 = a as u64 + b as u64;
    if s > UNIT as u64 {
        UNIT
    } else {
        s as u32
    }
}

/// Adds `offset` to `base`: the hue wraps around modulo 360 degrees,
/// saturation and value are added and capped at one.
pub fn add_hue_offset(base: Hsv, offset: Hsv) -> (r: Hsv)
    ensures
        r == add_hue_offset_spec(base, offset),
        r.hue < HUE_TURN,
        base.wf() ==> r.wf(),
{
    let h: u64 = (base.hue as u64 + offset.hue as u64) % (HUE_TURN as u64);
    Hsv {
        hue: h as u32,
        saturation: clamped_add(base.saturation, offset.saturation),
        value: clamped_add(base.value, offset.value),
    }
}

/// The hue shift applied to each frame so that the hue turns by 60 degrees a
/// second at `fps` frames a second (rounded down to whole hue units).
pub open spec fn hue_step_spec(fps: u32) -> Hsv {
    hue_shift(60 * HUE_PER_DEGREE / fps as int)
}

/// The per-frame hue shift at `fps` frames a second.
pub fn hue_step(fps: u32) -> (r: Hsv)
    requires
        fps > 0,
    ensures
        r == hue_step_spec(fps),
        r.wf(),
{
    let h: u32 = 60 * HUE_PER_DEGREE / fps;
    Hsv { hue: h, saturation: 0, value: 0 }
}

/// The hue shift of the tile at column `x`, row `y` of a `width` by `height`
/// image: half a turn across the width plus half a turn down the height.
pub open spec fn tile_offset_spec(x: int, y: int, width: int, height: int) -> Hsv {
    hue_shift(180_000_000 * x / width + 180_000_000 * y / height)
}

proof fn lemma_scaled_fraction(x: int, n: int)
    requires
        0 <= x < n,
    ensures
        0 <= 180_000_000 * x / n < 180_000_000,
{
    assert(0 <= 180_000_000 * x / n < 180_000_000) by (nonlinear_arith)
        requires
            0 <= x < n,
    ;
}

/// The hue shift of the tile at column `x`, row `y` of a `width` by `height` image.
pub fn tile_offset(x: usize, y: usize, width: usize, height: usize) -> (r: Hsv)
    requires
        x < width,
        y < height,
    ensures
        r == tile_offset_spec(x as int, y as int, width as int, height as int),
        r.wf(),
{
    let half: u128 = 180_000_000;
    proof {
        lemma_scaled_fraction(x as int, width as int);
        lemma_scaled_fraction(y as int, height as int);
    }
    let across: u128 = half * x as u128 / width as u128;
    let down: u128 = half * y as u128 / height as u128;
    let h: u128 = (across + down) % (HUE_TURN as u128);
    Hsv { hue: h as u32, saturation: 0, value: 0 }
}

/// The base color of the animated square and of the background.
#[derive(Clone, Copy, Debug, PartialEq, Eq, Structural)]
pub enum ColorBase {
    Red,
    Green,
    Blue,
}

impl ColorBase {
    /// The fully saturated, full-value color of this base.
    pub open spec fn hsv_spec(self) -> Hsv {
        match self {
            ColorBase::Red => Hsv { hue: 0, saturation: UNIT, value: UNIT },
            ColorBase::Green => Hsv { hue: 120_000_000, saturation: UNIT, value: UNIT },
            ColorBase::Blue => Hsv { hue: 240_000_000, saturation: UNIT, value: UNIT },
        }
    }

    /// The base that follows this one in the cycle red, green, blue, red.
    pub open spec fn next_spec(self) -> ColorBase {
        match self {
            ColorBase::Red => ColorBase::Green,
            ColorBase::Green => ColorBase::Blue,
            ColorBase::Blue => ColorBase::Red,
        }
    }

    /// The base reached from this one after `n` steps of the cycle.
    pub open spec fn advanced(self, n: nat) -> ColorBase
        decreases n,
    {
        if n == 0 {
            self
        } else {
            self.advanced((n - 1) as nat).next_spec()
        }
    }

    /// The saturated color of this base: hue 0, 120 or 240 degrees.
    pub fn to_hsv(self) -> (r: Hsv)
        ensures
            r == self.hsv_spec(),
            r.wf(),
    {
        match self {
            ColorBase::Red => Hsv { hue: 0, saturation: UNIT, value: UNIT },
            ColorBase::Green => Hsv { hue: 120_000_000, saturation: UNIT, value: UNIT },
            ColorBase::Blue => Hsv { hue: 240_000_000, saturation: UNIT, value: UNIT },
        }
    }

    /// The next base in the cycle.
    pub fn next(self) -> (r: ColorBase)
        ensures
            r == self.next_spec(),
    {
        match self {
            ColorBase::Red => ColorBase::Green,
            ColorBase::Green => ColorBase::Blue,
            ColorBase::Blue => ColorBase::Red,
        }
    }
}

/// Three steps of the color cycle lead back to where they started.
pub proof fn lemma_color_cycle_period(c: ColorBase, n: nat)
    ensures
        c.advanced(n + 3) == c.advanced(n),
    decreases n,
{
    if n > 0 {
        lemma_color_cycle_period(c, (n - 1) as nat);
        assert(c.advanced(n + 3) == c.advanced((n + 2) as nat).next_spec());
    } else {
        assert(c.advanced(3) == c.advanced(2).next_spec());
        assert(c.advanced(2) == c.advanced(1).next_spec());
        assert(c.advanced(1) == c.advanced(0).next_spec());
    }
}

} // verus!
