//! Colors: three fixed-point channels, accumulated without clamping and cut
//! to the 8-bit range only on conversion to an output pixel.
use vstd::prelude::*;

verus! {

use crate::SCALE;
use crate::fx::{iabs, mul_fx, spec_mul_fx, tdiv};

/// Largest channel magnitude the color operations accept.
pub const COLOR_BOUND: i128 = 0x4000_0000_0000_0000;

#[derive(Clone, Copy, Debug, PartialEq, Eq, Structural)]
pub struct Color {
    pub r: i128,
    pub g: i128,
    pub b: i128,
}

/// The channel-wise sum.
pub open spec fn spec_cadd(a: Color, b: Color) -> Color {
    Color { r: (a.r + b.r) as i128, g: (a.g + b.g) as i128, b: (a.b + b.b) as i128 }
}

/// Every channel scaled by a fixed-point factor.
pub open spec fn spec_cscale(a: Color, k: int) -> Color {
    Color {
        r: spec_mul_fx(a.r as int, k) as i128,
        g: spec_mul_fx(a.g as int, k) as i128,
        b: spec_mul_fx(a.b as int, k) as i128,
    }
}

/// The channel-wise fixed-point product.
pub open spec fn spec_cmul(a: Color, b: Color) -> Color {
    Color {
        r: spec_mul_fx(a.r as int, b.r as int) as i128,
        g: spec_mul_fx(a.g as int, b.g as int) as i128,
        b: spec_mul_fx(a.b as int, b.b as int) as i128,
    }
}

/// The per-channel distance of two colors: mean absolute channel difference.
pub open spec fn spec_color_diff(a: Color, b: Color) -> int {
    tdiv(iabs(a.r - b.r) + iabs(a.g - b.g) + iabs(a.b - b.b), 3)
}

/// The larger of two scalars.
pub open spec fn spec_imax(a: int, b: int) -> int {
    if a >= b {
        a
    } else {
        b
    }
}

/// The inner sweep of the largest-pairwise-difference scan: element `i`
/// against every element from `j` on.
pub open spec fn spec_max_diff_inner(s: Seq<Color>, i: int, j: int, cur: int) -> int
    decreases s.len() - j,
{
    if j < 0 || j >= s.len() {
        cur
    } else {
        spec_max_diff_inner(s, i, j + 1, spec_imax(cur, spec_color_diff(s[i], s[j])))
    }
}

/// The outer sweep of the largest-pairwise-difference scan.
pub open spec fn spec_max_diff_outer(s: Seq<Color>, i: int, cur: int) -> int
    decreases s.len() - i,
{
    if i < 0 || i >= s.len() {
        cur
    } else {
        spec_max_diff_outer(s, i + 1, spec_max_diff_inner(s, i, 0, cur))
    }
}

/// The largest pairwise `diff` within a set of colors; zero for an empty set.
pub open spec fn spec_colors_diff(s: Seq<Color>) -> int {
    spec_max_diff_outer(s, 0, 0)
}

/// Channel sums of a sequence of colors.
pub open spec fn spec_sum_r(s: Seq<Color>) -> int
    decreases s.len(),
{
    if s.len() == 0 {
        0
    } else {
        spec_sum_r(s.drop_last()) + s.last().r
    }
}

pub open spec fn spec_sum_g(s: Seq<Color>) -> int
    decreases s.len(),
{
    if s.len() == 0 {
        0
    } else {
        spec_sum_g(s.drop_last()) + s.last().g
    }
}

pub open spec fn spec_sum_b(s: Seq<Color>) -> int
    decreases s.len(),
{
    if s.len() == 0 {
        0
    } else {
        spec_sum_b(s.drop_last()) + s.last().b
    }
}

impl Color {
    /// All three channel magnitudes stay within `c`.
    pub open spec fn bounded(self, c: int) -> bool {
        iabs(self.r as int) <= c && iabs(self.g as int) <= c && iabs(self.b as int) <= c
    }

    /// Clamping an 8-bit-style channel argument into `0 ..= 255`.
    pub open spec fn spec_clamp_255(v: int) -> int {
        if v < 0 {
            0
        } else if v > 255 {
            255
        } else {
            v
        }
    }

    /// Builds a color from channels given in the customary `0 ..= 255` range;
    /// out-of-range arguments are clamped into that range first.
    pub fn new(r: i32, g: i32, b: i32) -> (c: Color)
        ensures
            c.r == tdiv(Self::spec_clamp_255(r as int) * SCALE, 255),
            c.g == tdiv(Self::spec_clamp_255(g as int) * SCALE, 255),
            c.b == tdiv(Self::spec_clamp_255(b as int) * SCALE, 255),
            c.bounded(SCALE as int),
    {
        let c = Color {
            r: Self::convert_value(r),
            g: Self::convert_value(g),
            b: Self::convert_value(b),
        };
        c
    }

    fn convert_value(v: i32) -> (c: i128)
        ensures
            c == tdiv(Self::spec_clamp_255(v as int) * SCALE, 255),
            0 <= c <= SCALE,
    {
        let w: i128 = if v < 0 {
            0
        } else if v > 255 {
            255
        } else {
            v as i128
        };
        (w * SCALE) / 255
    }

    /// Pure black.
    pub fn black() -> (c: Color)
        ensures
            c == (Color { r: 0, g: 0, b: 0 }),
    {
        Color { r: 0, g: 0, b: 0 }
    }

    /// The diagnostic color reported where nothing sensible was computed:
    /// pure green, at full intensity.
    pub fn err_color() -> (c: Color)
        ensures
            c == (Color { r: 0, g: SCALE as i128, b: 0 }),
    {
        Color { r: 0, g: SCALE, b: 0 }
    }

    pub fn add(self, rhs: Color) -> (c: Color)
        requires
            self.bounded(COLOR_BOUND as int),
            rhs.bounded(COLOR_BOUND as int),
        ensures
            c == spec_cadd(self, rhs),
            c.r == self.r + rhs.r,
            c.g == self.g + rhs.g,
            c.b == self.b + rhs.b,
    {
        Color { r: self.r + rhs.r, g: self.g + rhs.g, b: self.b + rhs.b }
    }

    /// Scaling every channel by a fixed-point factor.
    pub fn scale(self, k: i128) -> (c: Color)
        requires
            self.bounded(COLOR_BOUND as int),
            iabs(k as int) <= COLOR_BOUND,
        ensures
            c == spec_cscale(self, k as int),
            c.r == spec_mul_fx(self.r as int, k as int),
            c.g == spec_mul_fx(self.g as int, k as int),
            c.b == spec_mul_fx(self.b as int, k as int),
    {
        Color { r: mul_fx(self.r, k), g: mul_fx(self.g, k), b: mul_fx(self.b, k) }
    }

    /// The channel-wise product of two colors.
    pub fn mul(self, rhs: Color) -> (c: Color)
        requires
            self.bounded(COLOR_BOUND as int),
            rhs.bounded(COLOR_BOUND as int),
        ensures
            c == spec_cmul(self, rhs),
            c.r == spec_mul_fx(self.r as int, rhs.r as int),
            c.g == spec_mul_fx(self.g as int, rhs.g as int),
            c.b == spec_mul_fx(self.b as int, rhs.b as int),
    {
        Color { r: mul_fx(self.r, rhs.r), g: mul_fx(self.g, rhs.g), b: mul_fx(self.b, rhs.b) }
    }

    /// Dividing every channel by a positive count.
    pub fn div_count(self, n: i128) -> (c: Color)
        requires
            self.bounded(COLOR_BOUND as int),
            0 < n,
        ensures
            c.r == tdiv(self.r as int, n as int),
            c.g == tdiv(self.g as int, n as int),
            c.b == tdiv(self.b as int, n as int),
    {
        Color { r: self.r / n, g: self.g / n, b: self.b / n }
    }

    /// Clamps every channel to the displayable `0 ..= SCALE` range.
    pub fn cut(self) -> (c: Color)
        ensures
            c.r == Self::spec_cut_value(self.r as int),
            c.g == Self::spec_cut_value(self.g as int),
            c.b == Self::spec_cut_value(self.b as int),
            c.bounded(SCALE as int),
    {
        Color {
            r: Self::cut_value(self.r),
            g: Self::cut_value(self.g),
            b: Self::cut_value(self.b),
        }
    }

    pub open spec fn spec_cut_value(v: int) -> int {
        if v < 0 {
            0
        } else if v > SCALE {
            SCALE as int
        } else {
            v
        }
    }

    fn cut_value(v: i128) -> (c: i128)
        ensures
            c == Self::spec_cut_value(v as int),
    {
        if v < 0 {
            0
        } else if v > SCALE {
            SCALE
        } else {
            v
        }
    }

    /// The 8-bit output pixel: channels cut, then widened to `0 ..= 255`.
    pub fn raw(self) -> (c: [u8; 3])
        ensures
            c[0] == tdiv(Self::spec_cut_value(self.r as int) * 255, SCALE as int),
            c[1] == tdiv(Self::spec_cut_value(self.g as int) * 255, SCALE as int),
            c[2] == tdiv(Self::spec_cut_value(self.b as int) * 255, SCALE as int),
    {
        let c = self.cut();
        [
            ((c.r * 255) / SCALE) as u8,
            ((c.g * 255) / SCALE) as u8,
            ((c.b * 255) / SCALE) as u8,
        ]
    }

    /// The mean absolute channel difference of two colors.
    pub fn diff(self, rhs: Color) -> (d: i128)
        requires
            self.bounded(COLOR_BOUND as int),
            rhs.bounded(COLOR_BOUND as int),
        ensures
            d == spec_color_diff(self, rhs),
            0 <= d,
    {
        let dr = abs_diff(self.r, rhs.r);
        let dg = abs_diff(self.g, rhs.g);
        let db = abs_diff(self.b, rhs.b);
        (dr + dg + db) / 3
    }

    /// The largest pairwise `diff` within a set of colors; zero for an empty set.
    pub fn colors_diff(colors: &Vec<Color>) -> (d: i128)
        requires
            forall|i: int|
                0 <= i < colors@.len() ==> (#[trigger] colors@[i]).bounded(COLOR_BOUND as int),
        ensures
            d == spec_colors_diff(colors@),
            0 <= d,
            forall|i: int, j: int|
                0 <= i < colors@.len() && 0 <= j < colors@.len() ==> #[trigger] spec_color_diff(
                    colors@[i],
                    colors@[j],
                ) <= d,
            colors@.len() == 0 ==> d == 0,
            colors@.len() > 0 ==> exists|i: int, j: int|
                0 <= i < colors@.len() && 0 <= j < colors@.len() && #[trigger] spec_color_diff(
                    colors@[i],
                    colors@[j],
                ) == d,
    {
        let mut max_diff: i128 = 0;
        let n = colors.len();
        proof {
            if colors@.len() > 0 {
                assert(spec_color_diff(colors@[0], colors@[0]) == 0);
            }
        }
        let mut i: usize = 0;
        while i < n
            invariant
                n == colors@.len(),
                0 <= i <= n,
                0 <= max_diff,
                forall|a: int|
                    0 <= a < colors@.len() ==> (#[trigger] colors@[a]).bounded(COLOR_BOUND as int),
                forall|a: int, b: int|
                    0 <= a < i && 0 <= b < n ==> #[trigger] spec_color_diff(
                        colors@[a],
                        colors@[b],
                    ) <= max_diff,
                max_diff == 0 || exists|a: int, b: int|
                    0 <= a < n && 0 <= b < n && #[trigger] spec_color_diff(
                        colors@[a],
                        colors@[b],
                    ) == max_diff,
                spec_colors_diff(colors@) == spec_max_diff_outer(
                    colors@,
                    i as int,
                    max_diff as int,
                ),
            decreases n - i,
        {
            let mut j: usize = 0;
            while j < n
                invariant
                    n == colors@.len(),
                    0 <= i < n,
                    0 <= j <= n,
                    0 <= max_diff,
                    forall|a: int|
                        0 <= a < colors@.len() ==> (#[trigger] colors@[a]).bounded(
                            COLOR_BOUND as int,
                        ),
                    forall|a: int, b: int|
                        0 <= a < i && 0 <= b < n ==> #[trigger] spec_color_diff(
                            colors@[a],
                            colors@[b],
                        ) <= max_diff,
                    forall|b: int|
                        0 <= b < j ==> #[trigger] spec_color_diff(
                            colors@[i as int],
                            colors@[b],
                        ) <= max_diff,
                    max_diff == 0 || exists|a: int, b: int|
                        0 <= a < n && 0 <= b < n && #[trigger] spec_color_diff(
                            colors@[a],
                            colors@[b],
                        ) == max_diff,
                    spec_colors_diff(colors@) == spec_max_diff_outer(
                        colors@,
                        i as int + 1,
                        spec_max_diff_inner(colors@, i as int, j as int, max_diff as int),
                    ),
                decreases n - j,
            {
                let d = colors[i].diff(colors[j]);
                if d > max_diff {
                    max_diff = d;
                }
                j += 1;
            }
            i += 1;
        }
        max_diff
    }

    /// The channel-wise average of a non-empty set of colors.
    pub fn colors_avg(colors: &Vec<Color>) -> (c: Color)
        requires
            colors@.len() > 0,
            forall|i: int|
                0 <= i < colors@.len() ==> (#[trigger] colors@[i]).bounded(COLOR_BOUND as int),
        ensures
            c.r == tdiv(spec_sum_r(colors@), colors@.len() as int),
            c.g == tdiv(spec_sum_g(colors@), colors@.len() as int),
            c.b == tdiv(spec_sum_b(colors@), colors@.len() as int),
    {
        let n = colors.len();
        let mut sr: i128 = 0;
        let mut sg: i128 = 0;
        let mut sb: i128 = 0;
        let mut i: usize = 0;
        proof {
            assert(colors@.take(0) =~= Seq::<Color>::empty());
        }
        while i < n
            invariant
                n == colors@.len(),
                0 <= i <= n,
                forall|a: int|
                    0 <= a < colors@.len() ==> (#[trigger] colors@[a]).bounded(COLOR_BOUND as int),
                sr == spec_sum_r(colors@.take(i as int)),
                sg == spec_sum_g(colors@.take(i as int)),
                sb == spec_sum_b(colors@.take(i as int)),
                iabs(sr as int) <= i * COLOR_BOUND,
                iabs(sg as int) <= i * COLOR_BOUND,
                iabs(sb as int) <= i * COLOR_BOUND,
            decreases n - i,
        {
            let c = colors[i];
            proof {
                lemma_sum_take_step(colors@, i as int);
                assert((i + 1) * COLOR_BOUND == i * COLOR_BOUND + COLOR_BOUND) by (nonlinear_arith);
            }
            sr = sr + c.r;
            sg = sg + c.g;
            sb = sb + c.b;
            i += 1;
        }
        proof {
            assert(colors@.take(n as int) =~= colors@);
        }
        Color { r: sr / (n as i128), g: sg / (n as i128), b: sb / (n as i128) }
    }
}

/// One more element extends the channel sums by that element's channels.
proof fn lemma_sum_take_step(s: Seq<Color>, i: int)
    requires
        0 <= i < s.len(),
    ensures
        spec_sum_r(s.take(i + 1)) == spec_sum_r(s.take(i)) + s[i].r,
        spec_sum_g(s.take(i + 1)) == spec_sum_g(s.take(i)) + s[i].g,
        spec_sum_b(s.take(i + 1)) == spec_sum_b(s.take(i)) + s[i].b,
{
    assert(s.take(i + 1).drop_last() =~= s.take(i));
    assert(s.take(i + 1).last() == s[i]);
}

fn abs_diff(a: i128, b: i128) -> (d: i128)
    requires
        iabs(a as int) <= COLOR_BOUND,
        iabs(b as int) <= COLOR_BOUND,
    ensures
        d == iabs(a - b),
{
    if a >= b {
        a - b
    } else {
        b - a
    }
}

} // verus!
