//! Turns about the z axis taken again and again: where a tuple stands after `k` of them, and
//! that a sixth of a turn taken six times, or a twelfth taken twelve times, brings it back.

use vstd::prelude::*;
use crate::matrix::transformations::{lemma_four_quarter_turns_about_z, new_rotation_z_matrix};
use crate::matrix::Matrix4x4;
use crate::primatives::Tuple;
use crate::scalar::{abs, fx_add, fx_mul, lemma_round_div_bounds, round_div, Scalar, SCALE};
use crate::trig::{
    cos_poly, fx_cos, fx_sin, lemma_sin_cos_bounds, series, sin_poly, squared, QUARTER_TURN,
};

verus! {

/// A sixth of a turn, in raw units.
pub const SIXTH_TURN: i64 = 1_047_197_551;

/// A twelfth of a turn, in raw units.
pub const TWELFTH_TURN: i64 = 523_598_776;

/// How far from the z axis, in raw units, the laws on repeated turns reach: ten thousand
/// units.
pub const NEAR: i64 = 10_000_000_000_000;

/// The most turns the laws on repeated turns speak of.
pub const MOST_TURNS: u64 = 12;

/// `p` after `k` applications of `m`.
pub open spec fn spec_applied(m: Matrix4x4, p: Tuple, k: nat) -> Tuple
    decreases k,
{
    if k == 0 {
        p
    } else {
        m.spec_mul_tuple(spec_applied(m, p, (k - 1) as nat))
    }
}

/// The `k`-th power of the complex number `c + s i`, over whole numbers: its real and its
/// imaginary part.
pub open spec fn turn_power(c: int, s: int, k: nat) -> (int, int)
    decreases k,
{
    if k == 0 {
        (1, 0)
    } else {
        let before = turn_power(c, s, (k - 1) as nat);
        (c * before.0 - s * before.1, s * before.0 + c * before.1)
    }
}

/// The `k`-th power of the scale.
pub open spec fn scale_power(k: nat) -> int
    decreases k,
{
    if k == 0 {
        1
    } else {
        SCALE * scale_power((k - 1) as nat)
    }
}

/// How many raw units `k` roundings can have moved a coordinate, each turn doubling what the
/// ones before it left and adding one: two to the `k`, less one.
pub open spec fn slack(k: nat) -> int
    decreases k,
{
    if k == 0 {
        0
    } else {
        2 * slack((k - 1) as nat) + 1
    }
}

/// Two to the `k`: how much farther from the axis `k` turns can have taken a tuple, at most.
pub open spec fn reach(k: nat) -> int
    decreases k,
{
    if k == 0 {
        1
    } else {
        2 * reach((k - 1) as nat)
    }
}

/// The powers of the scale are positive, and the two bounds grow from zero and from one.
pub proof fn lemma_bounds_grow(j: nat, k: nat)
    requires
        j <= k,
    ensures
        scale_power(k) > 0,
        0 <= slack(j) <= slack(k),
        1 <= reach(j) <= reach(k),
    decreases k,
{
    if k > 0 {
        let before = scale_power((k - 1) as nat);
        if j < k {
            lemma_bounds_grow(j, (k - 1) as nat);
        } else {
            lemma_bounds_grow((k - 1) as nat, (k - 1) as nat);
        }
        assert(SCALE * before > 0) by (nonlinear_arith)
            requires
                before > 0,
        ;
    }
}

/// A product with a cosine or a sine, rounded, is no larger than the other factor, and within
/// a half of the exact product.
proof fn lemma_rounded_product(c: int, x: int)
    requires
        abs(c) <= SCALE,
    ensures
        abs(round_div(c * x, SCALE as int)) <= abs(x),
        abs(2 * (SCALE * round_div(c * x, SCALE as int)) - 2 * (c * x)) <= SCALE,
{
    lemma_round_div_bounds(c * x, SCALE as int);
    let size = abs(x);
    assert(-(SCALE * size) <= c * x <= SCALE * size) by (nonlinear_arith)
        requires
            -SCALE <= c <= SCALE,
            size >= 0,
            x == size || x == -size,
    ;
}

/// One turn on raw values: the new coordinates are within one raw unit of the exact ones, and
/// no farther out than the sum of the old ones.
proof fn lemma_turn_step(c: int, s: int, x: int, y: int)
    requires
        abs(c) <= SCALE,
        abs(s) <= SCALE,
        abs(x) <= 100_000_000_000_000_000,
        abs(y) <= 100_000_000_000_000_000,
    ensures
        ({
            let x1 = fx_add(fx_mul(c, x), fx_mul(-s, y));
            let y1 = fx_add(fx_mul(s, x), fx_mul(c, y));
            &&& abs(x1) <= abs(x) + abs(y)
            &&& abs(y1) <= abs(x) + abs(y)
            &&& abs(SCALE * x1 - (c * x - s * y)) <= SCALE
            &&& abs(SCALE * y1 - (s * x + c * y)) <= SCALE
        }),
{
    lemma_rounded_product(c, x);
    lemma_rounded_product(-s, y);
    lemma_rounded_product(s, x);
    lemma_rounded_product(c, y);
    assert((-s) * y == -(s * y)) by (nonlinear_arith);
}

/// One turn about the z axis by an angle that is a number: x and y are turned on raw values,
/// z and the tag stay.
pub proof fn lemma_turn_once(angle: Scalar, p: Tuple)
    requires
        angle.wf(),
        p.wf(),
        abs(p.x@) <= 100_000_000_000_000_000,
        abs(p.y@) <= 100_000_000_000_000_000,
    ensures
        ({
            let c = fx_cos(angle@);
            let s = fx_sin(angle@);
            let q = new_rotation_z_matrix(angle).spec_mul_tuple(p);
            &&& q.x@ == fx_add(fx_mul(c, p.x@), fx_mul(-s, p.y@))
            &&& q.y@ == fx_add(fx_mul(s, p.x@), fx_mul(c, p.y@))
            &&& q.z == p.z
            &&& q.w == p.w
            &&& q.wf()
        }),
{
    reveal(Matrix4x4::spec_mul_tuple);
    let c = angle.spec_cos();
    let s = angle.spec_sin();
    lemma_sin_cos_bounds(angle@);
    lemma_turn_step(c@, s@, p.x@, p.y@);
    p.x.lemma_neutral();
    p.y.lemma_neutral();
    p.z.lemma_neutral();
    p.w.lemma_neutral();
    Scalar::zero().lemma_neutral();
    c.spec_mul(p.x).spec_add(s.spec_neg().spec_mul(p.y)).lemma_neutral();
    s.spec_mul(p.x).spec_add(c.spec_mul(p.y)).lemma_neutral();
}

/// What the roundings of one more turn add to what the turns before it left.
proof fn lemma_turn_error(c: int, s: int, left_x: int, left_y: int, unit: int, r: int, g: int)
    requires
        abs(c) <= SCALE,
        abs(s) <= SCALE,
        abs(left_x) <= g * unit,
        abs(left_y) <= g * unit,
        abs(r) <= SCALE,
        unit > 0,
        g >= 0,
    ensures
        abs(c * left_x - s * left_y + unit * r) <= (2 * g + 1) * (SCALE * unit),
        abs(s * left_x + c * left_y + unit * r) <= (2 * g + 1) * (SCALE * unit),
{
    let bound = g * unit;
    assert(-(SCALE * bound) <= c * left_x <= SCALE * bound) by (nonlinear_arith)
        requires
            -SCALE <= c <= SCALE,
            -bound <= left_x <= bound,
    ;
    assert(-(SCALE * bound) <= s * left_y <= SCALE * bound) by (nonlinear_arith)
        requires
            -SCALE <= s <= SCALE,
            -bound <= left_y <= bound,
    ;
    assert(-(SCALE * bound) <= s * left_x <= SCALE * bound) by (nonlinear_arith)
        requires
            -SCALE <= s <= SCALE,
            -bound <= left_x <= bound,
    ;
    assert(-(SCALE * bound) <= c * left_y <= SCALE * bound) by (nonlinear_arith)
        requires
            -SCALE <= c <= SCALE,
            -bound <= left_y <= bound,
    ;
    assert(-(SCALE * unit) <= unit * r <= SCALE * unit) by (nonlinear_arith)
        requires
            -SCALE <= r <= SCALE,
            unit > 0,
    ;
    assert((2 * g + 1) * (SCALE * unit) == 2 * (SCALE * bound) + SCALE * unit)
        by (nonlinear_arith)
        requires
            bound == g * unit,
    ;
}

/// The power of `c + s i` applied to `x + y i`, one factor more.
proof fn lemma_power_grows(c: int, s: int, a: int, b: int, x: int, y: int)
    ensures
        (c * a - s * b) * x - (s * a + c * b) * y == c * (a * x - b * y) - s * (b * x + a * y),
        (s * a + c * b) * x + (c * a - s * b) * y == s * (a * x - b * y) + c * (b * x + a * y),
{
    let ax = a * x;
    let ay = a * y;
    let bx = b * x;
    let by = b * y;
    assert((c * a - s * b) * x == c * ax - s * bx) by (nonlinear_arith)
        requires
            ax == a * x,
            bx == b * x,
    ;
    assert((s * a + c * b) * y == s * ay + c * by) by (nonlinear_arith)
        requires
            ay == a * y,
            by == b * y,
    ;
    assert((s * a + c * b) * x == s * ax + c * bx) by (nonlinear_arith)
        requires
            ax == a * x,
            bx == b * x,
    ;
    assert((c * a - s * b) * y == c * ay - s * by) by (nonlinear_arith)
        requires
            ay == a * y,
            by == b * y,
    ;
    assert(c * (ax - by) == c * ax - c * by) by (nonlinear_arith);
    assert(s * (bx + ay) == s * bx + s * ay) by (nonlinear_arith);
    assert(s * (ax - by) == s * ax - s * by) by (nonlinear_arith);
    assert(c * (bx + ay) == c * bx + c * ay) by (nonlinear_arith);
}

/// What is left after one more turn, in terms of what was left before it.
proof fn lemma_left_grows(
    c: int,
    s: int,
    unit: int,
    xk: int,
    yk: int,
    was_x: int,
    was_y: int,
    next: int,
)
    ensures
        (SCALE * unit) * next - (c * was_x - s * was_y) == c * (unit * xk - was_x) - s * (unit
            * yk - was_y) + unit * (SCALE * next - (c * xk - s * yk)),
        (SCALE * unit) * next - (s * was_x + c * was_y) == s * (unit * xk - was_x) + c * (unit
            * yk - was_y) + unit * (SCALE * next - (s * xk + c * yk)),
{
    let ux = unit * xk;
    let uy = unit * yk;
    let sn = SCALE * next;
    assert((SCALE * unit) * next == unit * sn) by (nonlinear_arith)
        requires
            sn == SCALE * next,
    ;
    assert(c * (ux - was_x) == c * ux - c * was_x) by (nonlinear_arith);
    assert(s * (uy - was_y) == s * uy - s * was_y) by (nonlinear_arith);
    assert(s * (ux - was_x) == s * ux - s * was_x) by (nonlinear_arith);
    assert(c * (uy - was_y) == c * uy - c * was_y) by (nonlinear_arith);
    assert(unit * (c * xk) == c * ux) by (nonlinear_arith)
        requires
            ux == unit * xk,
    ;
    assert(unit * (s * yk) == s * uy) by (nonlinear_arith)
        requires
            uy == unit * yk,
    ;
    assert(unit * (s * xk) == s * ux) by (nonlinear_arith)
        requires
            ux == unit * xk,
    ;
    assert(unit * (c * yk) == c * uy) by (nonlinear_arith)
        requires
            uy == unit * yk,
    ;
    let cx = c * xk;
    let sy = s * yk;
    let sx = s * xk;
    let cy = c * yk;
    assert(unit * (sn - (cx - sy)) == unit * sn - unit * cx + unit * sy) by (nonlinear_arith);
    assert(unit * (sn - (sx + cy)) == unit * sn - unit * sx - unit * cy) by (nonlinear_arith);
}

/// After `k` turns about the z axis by one angle, x and y are the tuple's own x and y times the
/// `k`-th power of cosine plus sine times i, up to two to the `k` raw units less one; z and the
/// tag are what they were.
pub proof fn lemma_turns_about_z(angle: Scalar, p: Tuple, k: nat)
    requires
        angle.wf(),
        p.wf(),
        abs(p.x@) <= NEAR,
        abs(p.y@) <= NEAR,
        k <= MOST_TURNS,
    ensures
        ({
            let q = spec_applied(new_rotation_z_matrix(angle), p, k);
            let power = turn_power(fx_cos(angle@), fx_sin(angle@), k);
            let unit = scale_power(k);
            &&& q.wf()
            &&& q.z == p.z
            &&& q.w == p.w
            &&& abs(q.x@) + abs(q.y@) <= reach(k) * (2 * NEAR)
            &&& abs(unit * q.x@ - (power.0 * p.x@ - power.1 * p.y@)) <= slack(k) * unit
            &&& abs(unit * q.y@ - (power.1 * p.x@ + power.0 * p.y@)) <= slack(k) * unit
        }),
    decreases k,
{
    let turn = new_rotation_z_matrix(angle);
    let c = fx_cos(angle@);
    let s = fx_sin(angle@);
    let x = p.x@;
    let y = p.y@;
    if k == 0 {
        assert(1 * x - 0 * y == x && 0 * x + 1 * y == y);
    } else {
        let j = (k - 1) as nat;
        lemma_turns_about_z(angle, p, j);
        lemma_bounds_grow(j, j);
        lemma_bounds_grow(j, MOST_TURNS as nat);
        lemma_reach_of_most();
        lemma_sin_cos_bounds(angle@);
        let before = spec_applied(turn, p, j);
        let after = spec_applied(turn, p, k);
        assert(after == turn.spec_mul_tuple(before));
        lemma_turn_once(angle, before);
        lemma_turn_step(c, s, before.x@, before.y@);
        let a = turn_power(c, s, j).0;
        let b = turn_power(c, s, j).1;
        let unit = scale_power(j);
        let g = slack(j);
        let was_x = a * x - b * y;
        let was_y = b * x + a * y;
        lemma_power_grows(c, s, a, b, x, y);
        lemma_left_grows(c, s, unit, before.x@, before.y@, was_x, was_y, after.x@);
        lemma_left_grows(c, s, unit, before.x@, before.y@, was_x, was_y, after.y@);
        lemma_turn_error(
            c,
            s,
            unit * before.x@ - was_x,
            unit * before.y@ - was_y,
            unit,
            SCALE * after.x@ - (c * before.x@ - s * before.y@),
            g,
        );
        lemma_turn_error(
            c,
            s,
            unit * before.x@ - was_x,
            unit * before.y@ - was_y,
            unit,
            SCALE * after.y@ - (s * before.x@ + c * before.y@),
            g,
        );
        assert(scale_power(k) == SCALE * unit);
        assert(slack(k) == 2 * g + 1);
        assert(turn_power(c, s, k) == (c * a - s * b, s * a + c * b));
    }
}

/// Twelve turns can take a tuple four thousand and ninety-six times as far out, at most.
proof fn lemma_reach_of_most()
    ensures
        reach(MOST_TURNS as nat) == 4096,
{
    reveal_with_fuel(reach, 13);
}

/// At a twelfth and at a sixth of a turn sine and cosine are a half and half the root of
/// three, rounded.
pub proof fn lemma_twelfth_turn()
    ensures
        fx_sin(TWELFTH_TURN as int) == 500_000_000,
        fx_cos(TWELFTH_TURN as int) == 866_025_404,
        fx_sin(SIXTH_TURN as int) == 866_025_404,
        fx_cos(SIXTH_TURN as int) == 500_000_000,
{
    reveal_with_fuel(series, 2);
    assert(523_598_776 * 523_598_776 == 274_155_678_228_698_176int);
    assert(274_155_678_228_698_176int / 1_000_000_000 == 274_155_678);
    assert(squared(523_598_776) == 274_155_678);
    assert(series(274_155_678, 14, 0) == 1_000_000_000);
    assert(series(274_155_678, 13, 0) == 1_000_000_000);
    assert(274_155_678 * 1_000_000_000 == 274_155_678_000_000_000int);
    assert(274_155_678_000_000_000int / 1_000_000_000 == 274_155_678);
    assert(274_155_678int / 156 == 1_757_408);
    assert(series(274_155_678, 12, 1) == 998_242_592);
    assert(274_155_678 * 998_242_592 == 273_673_874_618_237_376int);
    assert(273_673_874_618_237_376int / 1_000_000_000 == 273_673_874);
    assert(273_673_874int / 110 == 2_487_944);
    assert(series(274_155_678, 10, 2) == 997_512_056);
    assert(274_155_678 * 997_512_056 == 273_473_594_025_853_968int);
    assert(273_473_594_025_853_968int / 1_000_000_000 == 273_473_594);
    assert(273_473_594int / 72 == 3_798_244);
    assert(series(274_155_678, 8, 3) == 996_201_756);
    assert(274_155_678 * 996_201_756 == 273_114_367_840_970_568int);
    assert(273_114_367_840_970_568int / 1_000_000_000 == 273_114_367);
    assert(273_114_367int / 42 == 6_502_723);
    assert(series(274_155_678, 6, 4) == 993_497_277);
    assert(274_155_678 * 993_497_277 == 272_372_919_567_088_806int);
    assert(272_372_919_567_088_806int / 1_000_000_000 == 272_372_919);
    assert(272_372_919int / 20 == 13_618_645);
    assert(series(274_155_678, 4, 5) == 986_381_355);
    assert(274_155_678 * 986_381_355 == 270_422_049_146_583_690int);
    assert(270_422_049_146_583_690int / 1_000_000_000 == 270_422_049);
    assert(270_422_049int / 6 == 45_070_341);
    assert(series(274_155_678, 2, 6) == 954_929_659);
    assert(274_155_678 * 1_000_000_000 == 274_155_678_000_000_000int);
    assert(274_155_678_000_000_000int / 1_000_000_000 == 274_155_678);
    assert(274_155_678int / 132 == 2_076_936);
    assert(series(274_155_678, 11, 1) == 997_923_064);
    assert(274_155_678 * 997_923_064 == 273_586_274_202_757_392int);
    assert(273_586_274_202_757_392int / 1_000_000_000 == 273_586_274);
    assert(273_586_274int / 90 == 3_039_847);
    assert(series(274_155_678, 9, 2) == 996_960_153);
    assert(274_155_678 * 996_960_153 == 273_322_286_684_698_734int);
    assert(273_322_286_684_698_734int / 1_000_000_000 == 273_322_286);
    assert(273_322_286int / 56 == 4_880_755);
    assert(series(274_155_678, 7, 3) == 995_119_245);
    assert(274_155_678 * 995_119_245 == 272_817_591_303_823_110int);
    assert(272_817_591_303_823_110int / 1_000_000_000 == 272_817_591);
    assert(272_817_591int / 30 == 9_093_919);
    assert(series(274_155_678, 5, 4) == 990_906_081);
    assert(274_155_678 * 990_906_081 == 271_662_528_470_877_918int);
    assert(271_662_528_470_877_918int / 1_000_000_000 == 271_662_528);
    assert(271_662_528int / 12 == 22_638_544);
    assert(series(274_155_678, 3, 5) == 977_361_456);
    assert(274_155_678 * 977_361_456 == 267_949_192_620_747_168int);
    assert(267_949_192_620_747_168int / 1_000_000_000 == 267_949_192);
    assert(267_949_192int / 2 == 133_974_596);
    assert(series(274_155_678, 1, 6) == 866_025_404);
    assert(523_598_776 * 954_929_659 == 500_000_000_618_497_384int);
    assert(500_000_000_618_497_384int / 1_000_000_000 == 500_000_000);
    assert(sin_poly(523_598_776) == 500_000_000);
    assert(cos_poly(523_598_776) == 866_025_404);
}

/// The sixth power of the cosine and sine of a sixth of a turn, beside the sixth power of the
/// scale.
proof fn lemma_sixth_power()
    ensures
        turn_power(500_000_000, 866_025_404, 6) == (1_000_000_001_120_089_648_209_100_136_540_747_117_690_450_103_805_538_304int, 646_684_060_312_450_588_538_459_186_964_739_072_000_000_000int),
        scale_power(6) == 1_000_000_000_000_000_000_000_000_000_000_000_000_000_000_000_000_000_000int,
        slack(6) == 63,
{
    reveal_with_fuel(turn_power, 2);
    reveal_with_fuel(scale_power, 2);
    reveal_with_fuel(slack, 2);
    assert(turn_power(500_000_000, 866_025_404, 0) == (1int, 0int));
    assert(500_000_000 * 1int - 866_025_404 * 0int == 500_000_000int);
    assert(866_025_404 * 1int + 500_000_000 * 0int == 866_025_404int);
    assert(turn_power(500_000_000, 866_025_404, 1) == (500_000_000int, 866_025_404int));
    assert(500_000_000 * 500_000_000int - 866_025_404 * 866_025_404int == (-500_000_000_373_363_216int));
    assert(866_025_404 * 500_000_000int + 500_000_000 * 866_025_404int == 866_025_404_000_000_000int);
    assert(turn_power(500_000_000, 866_025_404, 2) == ((-500_000_000_373_363_216int), 866_025_404_000_000_000int));
    assert(500_000_000 * (-500_000_000_373_363_216int) - 866_025_404 * 866_025_404_000_000_000int == (-1_000_000_000_560_044_824_000_000_000int));
    assert(866_025_404 * (-500_000_000_373_363_216int) + 500_000_000 * 866_025_404_000_000_000int == (-323_342_029_975_139_264int));
    assert(turn_power(500_000_000, 866_025_404, 3) == ((-1_000_000_000_560_044_824_000_000_000int), (-323_342_029_975_139_264int)));
    assert(500_000_000 * (-1_000_000_000_560_044_824_000_000_000int) - 866_025_404 * (-323_342_029_975_139_264int) == (-499_999_999_999_999_999_860_599_908_938_137_344int));
    assert(866_025_404 * (-1_000_000_000_560_044_824_000_000_000int) + 500_000_000 * (-323_342_029_975_139_264int) == (-866_025_404_646_684_059_950_278_528_000_000_000int));
    assert(turn_power(500_000_000, 866_025_404, 4) == ((-499_999_999_999_999_999_860_599_908_938_137_344int), (-866_025_404_646_684_059_950_278_528_000_000_000int)));
    assert(500_000_000 * (-499_999_999_999_999_999_860_599_908_938_137_344int) - 866_025_404 * (-866_025_404_646_684_059_950_278_528_000_000_000int) == 500_000_000_933_408_040_348_500_227_654_656_640_000_000_000int);
    assert(866_025_404 * (-499_999_999_999_999_999_860_599_908_938_137_344int) + 500_000_000 * (-866_025_404_646_684_059_950_278_528_000_000_000int) == (-866_025_404_323_342_029_854_415_243_820_513_604_345_086_976int));
    assert(turn_power(500_000_000, 866_025_404, 5) == (500_000_000_933_408_040_348_500_227_654_656_640_000_000_000int, (-866_025_404_323_342_029_854_415_243_820_513_604_345_086_976int)));
    assert(500_000_000 * 500_000_000_933_408_040_348_500_227_654_656_640_000_000_000int - 866_025_404 * (-866_025_404_323_342_029_854_415_243_820_513_604_345_086_976int) == 1_000_000_001_120_089_648_209_100_136_540_747_117_690_450_103_805_538_304int);
    assert(866_025_404 * 500_000_000_933_408_040_348_500_227_654_656_640_000_000_000int + 500_000_000 * (-866_025_404_323_342_029_854_415_243_820_513_604_345_086_976int) == 646_684_060_312_450_588_538_459_186_964_739_072_000_000_000int);
    assert(turn_power(500_000_000, 866_025_404, 6) == (1_000_000_001_120_089_648_209_100_136_540_747_117_690_450_103_805_538_304int, 646_684_060_312_450_588_538_459_186_964_739_072_000_000_000int));
    assert(scale_power(0) == 1);
    assert(scale_power(1) == 1_000_000_000int);
    assert(scale_power(2) == 1_000_000_000_000_000_000int);
    assert(scale_power(3) == 1_000_000_000_000_000_000_000_000_000int);
    assert(scale_power(4) == 1_000_000_000_000_000_000_000_000_000_000_000_000int);
    assert(scale_power(5) == 1_000_000_000_000_000_000_000_000_000_000_000_000_000_000_000int);
    assert(scale_power(6) == 1_000_000_000_000_000_000_000_000_000_000_000_000_000_000_000_000_000_000int);
    assert(slack(0) == 0);
    assert(slack(1) == 1);
    assert(slack(2) == 3);
    assert(slack(3) == 7);
    assert(slack(4) == 15);
    assert(slack(5) == 31);
    assert(slack(6) == 63);
}

/// The twelfth power of the cosine and sine of a twelfth of a turn, beside the twelfth power
/// of the scale.
proof fn lemma_twelfth_power()
    ensures
        turn_power(866_025_404, 500_000_000, 12) == (1_000_000_002_240_179_297_254_600_819_244_482_705_705_471_951_514_914_752_164_595_156_607_511_333_692_578_905_843_796_571_583_382_583_211_196_416int, (-1_293_368_122_073_589_420_312_528_924_016_465_638_833_374_968_644_693_148_679_550_696_234_856_051_742_638_471_722_827_776_000_000_000int)),
        scale_power(12) == 1_000_000_000_000_000_000_000_000_000_000_000_000_000_000_000_000_000_000_000_000_000_000_000_000_000_000_000_000_000_000_000_000_000_000_000_000int,
        slack(12) == 4095,
{
    reveal_with_fuel(turn_power, 2);
    reveal_with_fuel(scale_power, 2);
    reveal_with_fuel(slack, 2);
    assert(turn_power(866_025_404, 500_000_000, 0) == (1int, 0int));
    assert(866_025_404 * 1int - 500_000_000 * 0int == 866_025_404int);
    assert(500_000_000 * 1int + 866_025_404 * 0int == 500_000_000int);
    assert(turn_power(866_025_404, 500_000_000, 1) == (866_025_404int, 500_000_000int));
    assert(866_025_404 * 866_025_404int - 500_000_000 * 500_000_000int == 500_000_000_373_363_216int);
    assert(500_000_000 * 866_025_404int + 866_025_404 * 500_000_000int == 866_025_404_000_000_000int);
    assert(turn_power(866_025_404, 500_000_000, 2) == (500_000_000_373_363_216int, 866_025_404_000_000_000int));
    assert(866_025_404 * 500_000_000_373_363_216int - 500_000_000 * 866_025_404_000_000_000int == 323_342_029_975_139_264int);
    assert(500_000_000 * 500_000_000_373_363_216int + 866_025_404 * 866_025_404_000_000_000int == 1_000_000_000_560_044_824_000_000_000int);
    assert(turn_power(866_025_404, 500_000_000, 3) == (323_342_029_975_139_264int, 1_000_000_000_560_044_824_000_000_000int));
    assert(866_025_404 * 323_342_029_975_139_264int - 500_000_000 * 1_000_000_000_560_044_824_000_000_000int == (-499_999_999_999_999_999_860_599_908_938_137_344int));
    assert(500_000_000 * 323_342_029_975_139_264int + 866_025_404 * 1_000_000_000_560_044_824_000_000_000int == 866_025_404_646_684_059_950_278_528_000_000_000int);
    assert(turn_power(866_025_404, 500_000_000, 4) == ((-499_999_999_999_999_999_860_599_908_938_137_344int), 866_025_404_646_684_059_950_278_528_000_000_000int));
    assert(866_025_404 * (-499_999_999_999_999_999_860_599_908_938_137_344int) - 500_000_000 * 866_025_404_646_684_059_950_278_528_000_000_000int == (-866_025_404_323_342_029_854_415_243_820_513_604_345_086_976int));
    assert(500_000_000 * (-499_999_999_999_999_999_860_599_908_938_137_344int) + 866_025_404 * 866_025_404_646_684_059_950_278_528_000_000_000int == 500_000_000_933_408_040_348_500_227_654_656_640_000_000_000int);
    assert(turn_power(866_025_404, 500_000_000, 5) == ((-866_025_404_323_342_029_854_415_243_820_513_604_345_086_976int), 500_000_000_933_408_040_348_500_227_654_656_640_000_000_000int));
    assert(866_025_404 * (-866_025_404_323_342_029_854_415_243_820_513_604_345_086_976int) - 500_000_000 * 500_000_000_933_408_040_348_500_227_654_656_640_000_000_000int == (-1_000_000_001_120_089_648_209_100_136_540_747_117_690_450_103_805_538_304int));
    assert(500_000_000 * (-866_025_404_323_342_029_854_415_243_820_513_604_345_086_976int) + 866_025_404 * 500_000_000_933_408_040_348_500_227_654_656_640_000_000_000int == 646_684_060_312_450_588_538_459_186_964_739_072_000_000_000int);
    assert(turn_power(866_025_404, 500_000_000, 6) == ((-1_000_000_001_120_089_648_209_100_136_540_747_117_690_450_103_805_538_304int), 646_684_060_312_450_588_538_459_186_964_739_072_000_000_000int));
    assert(866_025_404 * (-1_000_000_001_120_089_648_209_100_136_540_747_117_690_450_103_805_538_304int) - 500_000_000 * 646_684_060_312_450_588_538_459_186_964_739_072_000_000_000int == (-866_025_405_293_368_120_262_729_116_493_385_278_542_077_134_090_033_247_159_074_816int));
    assert(500_000_000 * (-1_000_000_001_120_089_648_209_100_136_540_747_117_690_450_103_805_538_304int) + 866_025_404 * 646_684_060_312_450_588_538_459_186_964_739_072_000_000_000int == (-499_999_999_999_999_999_512_099_681_101_316_671_916_575_363_319_384_064_000_000_000int));
    assert(turn_power(866_025_404, 500_000_000, 7) == ((-866_025_405_293_368_120_262_729_116_493_385_278_542_077_134_090_033_247_159_074_816int), (-499_999_999_999_999_999_512_099_681_101_316_671_916_575_363_319_384_064_000_000_000int)));
    assert(866_025_404 * (-866_025_405_293_368_120_262_729_116_493_385_278_542_077_134_090_033_247_159_074_816int) - 500_000_000 * (-499_999_999_999_999_999_512_099_681_101_316_671_916_575_363_319_384_064_000_000_000int) == (-500_000_001_493_452_865_115_200_728_703_088_713_218_767_199_389_791_183_244_369_619_792_625_664int));
    assert(500_000_000 * (-866_025_405_293_368_120_262_729_116_493_385_278_542_077_134_090_033_247_159_074_816int) + 866_025_404 * (-499_999_999_999_999_999_512_099_681_101_316_671_916_575_363_319_384_064_000_000_000int) == (-866_025_404_646_684_059_708_830_487_460_731_574_999_526_200_360_132_988_636_299_264_000_000_000int));
    assert(turn_power(866_025_404, 500_000_000, 8) == ((-500_000_001_493_452_865_115_200_728_703_088_713_218_767_199_389_791_183_244_369_619_792_625_664int), (-866_025_404_646_684_059_708_830_487_460_731_574_999_526_200_360_132_988_636_299_264_000_000_000int)));
    assert(866_025_404 * (-500_000_001_493_452_865_115_200_728_703_088_713_218_767_199_389_791_183_244_369_619_792_625_664int) - 500_000_000 * (-866_025_404_646_684_059_708_830_487_460_731_574_999_526_200_360_132_988_636_299_264_000_000_000int) == (-970_026_091_011_933_973_885_821_011_413_359_904_053_425_968_626_693_598_706_235_036_886_368_256int));
    assert(500_000_000 * (-500_000_001_493_452_865_115_200_728_703_088_713_218_767_199_389_791_183_244_369_619_792_625_664int) + 866_025_404 * (-866_025_404_646_684_059_708_830_487_460_731_574_999_526_200_360_132_988_636_299_264_000_000_000int) == (-1_000_000_001_680_134_472_627_300_409_622_241_352_983_904_577_170_364_708_599_663_289_066_815_488_000_000_000int));
    assert(turn_power(866_025_404, 500_000_000, 9) == ((-970_026_091_011_933_973_885_821_011_413_359_904_053_425_968_626_693_598_706_235_036_886_368_256int), (-1_000_000_001_680_134_472_627_300_409_622_241_352_983_904_577_170_364_708_599_663_289_066_815_488_000_000_000int)));
    assert(866_025_404 * (-970_026_091_011_933_973_885_821_011_413_359_904_053_425_968_626_693_598_706_235_036_886_368_256int) - 500_000_000 * (-1_000_000_001_680_134_472_627_300_409_622_241_352_983_904_577_170_364_708_599_663_289_066_815_488_000_000_000int) == 499_999_999_999_999_998_954_499_316_255_327_085_211_008_666_679_912_892_235_807_995_529_626_668_861_528_029_004_824_576int);
    assert(500_000_000 * (-970_026_091_011_933_973_885_821_011_413_359_904_053_425_968_626_693_598_706_235_036_886_368_256int) + 866_025_404 * (-1_000_000_001_680_134_472_627_300_409_622_241_352_983_904_577_170_364_708_599_663_289_066_815_488_000_000_000int) == (-866_025_405_940_052_180_937_351_765_615_377_560_810_072_518_968_127_257_905_712_473_531_175_184_431_841_280_000_000_000int));
    assert(turn_power(866_025_404, 500_000_000, 10) == (499_999_999_999_999_998_954_499_316_255_327_085_211_008_666_679_912_892_235_807_995_529_626_668_861_528_029_004_824_576int, (-866_025_405_940_052_180_937_351_765_615_377_560_810_072_518_968_127_257_905_712_473_531_175_184_431_841_280_000_000_000int)));
    assert(866_025_404 * 499_999_999_999_999_998_954_499_316_255_327_085_211_008_666_679_912_892_235_807_995_529_626_668_861_528_029_004_824_576int - 500_000_000 * (-866_025_405_940_052_180_937_351_765_615_377_560_810_072_518_968_127_257_905_712_473_531_175_184_431_841_280_000_000_000int) == 866_025_404_970_026_089_563_245_730_785_432_186_527_042_465_293_036_530_136_180_319_360_562_722_085_899_671_376_226_921_379_528_704int);
    assert(500_000_000 * 499_999_999_999_999_998_954_499_316_255_327_085_211_008_666_679_912_892_235_807_995_529_626_668_861_528_029_004_824_576int + 866_025_404 * (-866_025_405_940_052_180_937_351_765_615_377_560_810_072_518_968_127_257_905_712_473_531_175_184_431_841_280_000_000_000int) == (-500_000_002_053_497_690_300_101_503_379_507_118_107_573_287_168_713_625_533_302_841_032_861_961_261_595_840_473_464_832_000_000_000int));
    assert(turn_power(866_025_404, 500_000_000, 11) == (866_025_404_970_026_089_563_245_730_785_432_186_527_042_465_293_036_530_136_180_319_360_562_722_085_899_671_376_226_921_379_528_704int, (-500_000_002_053_497_690_300_101_503_379_507_118_107_573_287_168_713_625_533_302_841_032_861_961_261_595_840_473_464_832_000_000_000int)));
    assert(866_025_404 * 866_025_404_970_026_089_563_245_730_785_432_186_527_042_465_293_036_530_136_180_319_360_562_722_085_899_671_376_226_921_379_528_704int - 500_000_000 * (-500_000_002_053_497_690_300_101_503_379_507_118_107_573_287_168_713_625_533_302_841_032_861_961_261_595_840_473_464_832_000_000_000int) == 1_000_000_002_240_179_297_254_600_819_244_482_705_705_471_951_514_914_752_164_595_156_607_511_333_692_578_905_843_796_571_583_382_583_211_196_416int);
    assert(500_000_000 * 866_025_404_970_026_089_563_245_730_785_432_186_527_042_465_293_036_530_136_180_319_360_562_722_085_899_671_376_226_921_379_528_704int + 866_025_404 * (-500_000_002_053_497_690_300_101_503_379_507_118_107_573_287_168_713_625_533_302_841_032_861_961_261_595_840_473_464_832_000_000_000int) == (-1_293_368_122_073_589_420_312_528_924_016_465_638_833_374_968_644_693_148_679_550_696_234_856_051_742_638_471_722_827_776_000_000_000int));
    assert(turn_power(866_025_404, 500_000_000, 12) == (1_000_000_002_240_179_297_254_600_819_244_482_705_705_471_951_514_914_752_164_595_156_607_511_333_692_578_905_843_796_571_583_382_583_211_196_416int, (-1_293_368_122_073_589_420_312_528_924_016_465_638_833_374_968_644_693_148_679_550_696_234_856_051_742_638_471_722_827_776_000_000_000int)));
    assert(scale_power(0) == 1);
    assert(scale_power(1) == 1_000_000_000int);
    assert(scale_power(2) == 1_000_000_000_000_000_000int);
    assert(scale_power(3) == 1_000_000_000_000_000_000_000_000_000int);
    assert(scale_power(4) == 1_000_000_000_000_000_000_000_000_000_000_000_000int);
    assert(scale_power(5) == 1_000_000_000_000_000_000_000_000_000_000_000_000_000_000_000int);
    assert(scale_power(6) == 1_000_000_000_000_000_000_000_000_000_000_000_000_000_000_000_000_000_000int);
    assert(scale_power(7) == 1_000_000_000_000_000_000_000_000_000_000_000_000_000_000_000_000_000_000_000_000_000int);
    assert(scale_power(8) == 1_000_000_000_000_000_000_000_000_000_000_000_000_000_000_000_000_000_000_000_000_000_000_000_000int);
    assert(scale_power(9) == 1_000_000_000_000_000_000_000_000_000_000_000_000_000_000_000_000_000_000_000_000_000_000_000_000_000_000_000int);
    assert(scale_power(10) == 1_000_000_000_000_000_000_000_000_000_000_000_000_000_000_000_000_000_000_000_000_000_000_000_000_000_000_000_000_000_000int);
    assert(scale_power(11) == 1_000_000_000_000_000_000_000_000_000_000_000_000_000_000_000_000_000_000_000_000_000_000_000_000_000_000_000_000_000_000_000_000_000int);
    assert(scale_power(12) == 1_000_000_000_000_000_000_000_000_000_000_000_000_000_000_000_000_000_000_000_000_000_000_000_000_000_000_000_000_000_000_000_000_000_000_000_000int);
    assert(slack(0) == 0);
    assert(slack(1) == 1);
    assert(slack(2) == 3);
    assert(slack(3) == 7);
    assert(slack(4) == 15);
    assert(slack(5) == 31);
    assert(slack(6) == 63);
    assert(slack(7) == 127);
    assert(slack(8) == 255);
    assert(slack(9) == 511);
    assert(slack(10) == 1023);
    assert(slack(11) == 2047);
    assert(slack(12) == 4095);
}

/// Four turns about the z axis by a quarter turn bring every tuple back to where it was,
/// exactly.
pub proof fn lemma_four_turns_about_z(p: Tuple)
    requires
        p.wf(),
    ensures
        spec_applied(new_rotation_z_matrix(Scalar { raw: QUARTER_TURN }), p, 4) == p,
{
    reveal_with_fuel(spec_applied, 5);
    lemma_four_quarter_turns_about_z(p);
}

/// Six turns about the z axis by a sixth of a turn bring every tuple within ten thousand units
/// of the axis back to where it was, up to the tolerance.
pub proof fn lemma_six_turns_about_z(p: Tuple)
    requires
        p.wf(),
        abs(p.x@) <= NEAR,
        abs(p.y@) <= NEAR,
    ensures
        spec_applied(new_rotation_z_matrix(Scalar { raw: SIXTH_TURN }), p, 6).spec_approx_eq(p),
{
    let angle = Scalar { raw: SIXTH_TURN };
    let q = spec_applied(new_rotation_z_matrix(angle), p, 6);
    lemma_twelfth_turn();
    lemma_sixth_power();
    lemma_turns_about_z(angle, p, 6);
    let power = turn_power(500_000_000, 866_025_404, 6);
    let a = power.0;
    let b = power.1;
    let x = p.x@;
    let y = p.y@;
    assert(a * x == 1_000_000_001_120_089_648_209_100_136_540_747_117_690_450_103_805_538_304int * x);
    assert(b * x == 646_684_060_312_450_588_538_459_186_964_739_072_000_000_000int * x);
    assert(a * y == 1_000_000_001_120_089_648_209_100_136_540_747_117_690_450_103_805_538_304int * y);
    assert(b * y == 646_684_060_312_450_588_538_459_186_964_739_072_000_000_000int * y);
    assert(scale_power(6) * q.x@ == 1_000_000_000_000_000_000_000_000_000_000_000_000_000_000_000_000_000_000int * q.x@);
    assert(scale_power(6) * q.y@ == 1_000_000_000_000_000_000_000_000_000_000_000_000_000_000_000_000_000_000int * q.y@);
    assert(slack(6) * scale_power(6) == 63 * 1_000_000_000_000_000_000_000_000_000_000_000_000_000_000_000_000_000_000int);
}

/// Twelve turns about the z axis by a twelfth of a turn bring every tuple within ten thousand
/// units of the axis back to where it was, up to the tolerance.
pub proof fn lemma_twelve_turns_about_z(p: Tuple)
    requires
        p.wf(),
        abs(p.x@) <= NEAR,
        abs(p.y@) <= NEAR,
    ensures
        spec_applied(new_rotation_z_matrix(Scalar { raw: TWELFTH_TURN }), p, 12).spec_approx_eq(
            p,
        ),
{
    let angle = Scalar { raw: TWELFTH_TURN };
    let q = spec_applied(new_rotation_z_matrix(angle), p, 12);
    lemma_twelfth_turn();
    lemma_twelfth_power();
    lemma_turns_about_z(angle, p, 12);
    let power = turn_power(866_025_404, 500_000_000, 12);
    let a = power.0;
    let b = power.1;
    let x = p.x@;
    let y = p.y@;
    assert(a * x == 1_000_000_002_240_179_297_254_600_819_244_482_705_705_471_951_514_914_752_164_595_156_607_511_333_692_578_905_843_796_571_583_382_583_211_196_416int * x);
    assert(b * x == (-1_293_368_122_073_589_420_312_528_924_016_465_638_833_374_968_644_693_148_679_550_696_234_856_051_742_638_471_722_827_776_000_000_000int) * x);
    assert(a * y == 1_000_000_002_240_179_297_254_600_819_244_482_705_705_471_951_514_914_752_164_595_156_607_511_333_692_578_905_843_796_571_583_382_583_211_196_416int * y);
    assert(b * y == (-1_293_368_122_073_589_420_312_528_924_016_465_638_833_374_968_644_693_148_679_550_696_234_856_051_742_638_471_722_827_776_000_000_000int) * y);
    assert(scale_power(12) * q.x@ == 1_000_000_000_000_000_000_000_000_000_000_000_000_000_000_000_000_000_000_000_000_000_000_000_000_000_000_000_000_000_000_000_000_000_000_000_000int * q.x@);
    assert(scale_power(12) * q.y@ == 1_000_000_000_000_000_000_000_000_000_000_000_000_000_000_000_000_000_000_000_000_000_000_000_000_000_000_000_000_000_000_000_000_000_000_000_000int * q.y@);
    assert(slack(12) * scale_power(12) == 4095 * 1_000_000_000_000_000_000_000_000_000_000_000_000_000_000_000_000_000_000_000_000_000_000_000_000_000_000_000_000_000_000_000_000_000_000_000_000int);
}

} // verus!
