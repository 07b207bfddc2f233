//! Colors: three channels, each nominally between zero and one but free to leave that range
//! until the moment they are scaled to bytes.

use vstd::prelude::*;
use crate::scalar::{lemma_mul_whole, Scalar, SCALE, VOID};

verus! {

/// Red, green and blue.
#[derive(Debug, Copy, Clone)]
pub struct Color {
    pub red: Scalar,
    pub green: Scalar,
    pub blue: Scalar,
}

pub open spec fn spec_new(r: Scalar, g: Scalar, b: Scalar) -> Color {
    Color { red: r, green: g, blue: b }
}

/// The color with the three channels.
#[verifier::when_used_as_spec(spec_new)]
pub fn new(r: Scalar, g: Scalar, b: Scalar) -> (c: Color)
    ensures
        c == spec_new(r, g, b),
{
    Color { red: r, green: g, blue: b }
}

pub open spec fn spec_black() -> Color {
    Color { red: Scalar::zero(), green: Scalar::zero(), blue: Scalar::zero() }
}

/// No light at all.
#[verifier::when_used_as_spec(spec_black)]
pub fn black() -> (c: Color)
    ensures
        c == spec_black(),
{
    Color { red: Scalar::zero(), green: Scalar::zero(), blue: Scalar::zero() }
}

/// A channel on the scale of a byte: 255 above one, 0 below zero and for a channel that is no
/// number, else the whole part of 255 times the channel.
pub open spec fn spec_scale_num_1_to_255(val: Scalar) -> Scalar {
    if val@ > Scalar::one()@ {
        Scalar::spec_from_int(255)
    } else if val@ < 0 {
        Scalar::zero()
    } else {
        val.spec_mul(Scalar::spec_from_int(255)).spec_floor()
    }
}

/// A channel on the scale of a byte, as a whole number from 0 to 255.
#[verifier::when_used_as_spec(spec_scale_num_1_to_255)]
pub fn scale_num_1_to_255(val: Scalar) -> (s: Scalar)
    ensures
        s == spec_scale_num_1_to_255(val),
        0 <= s@ <= 255 * SCALE,
        s@ % (SCALE as int) == 0,
{
    if val.raw > Scalar::one().raw {
        Scalar::from_int(255)
    } else if val.raw < 0 {
        Scalar::zero()
    } else {
        let scaled = val * Scalar::from_int(255);
        proof {
            lemma_mul_whole(val@, 255);
        }
        scaled.floor()
    }
}

impl Color {
    /// Every channel is a number.
    pub open spec fn wf(self) -> bool {
        self.red.wf() && self.green.wf() && self.blue.wf()
    }

    /// The color that is no color: what a shade comes to that left the range.
    pub open spec fn spec_void() -> Color {
        Color {
            red: Scalar { raw: VOID },
            green: Scalar { raw: VOID },
            blue: Scalar { raw: VOID },
        }
    }

    /// Whether every channel is a number.
    #[verifier::when_used_as_spec(wf)]
    pub fn is_number(self) -> (b: bool)
        ensures
            b == self.wf(),
    {
        self.red.is_number() && self.green.is_number() && self.blue.is_number()
    }

    pub open spec fn spec_add(self, c1: Color) -> Color {
        Color {
            red: self.red.spec_add(c1.red),
            green: self.green.spec_add(c1.green),
            blue: self.blue.spec_add(c1.blue),
        }
    }

    pub open spec fn spec_sub(self, c1: Color) -> Color {
        Color {
            red: self.red.spec_sub(c1.red),
            green: self.green.spec_sub(c1.green),
            blue: self.blue.spec_sub(c1.blue),
        }
    }

    /// Every channel times `scalar`.
    pub open spec fn spec_scale(self, scalar: Scalar) -> Color {
        Color {
            red: scalar.spec_mul(self.red),
            green: scalar.spec_mul(self.green),
            blue: scalar.spec_mul(self.blue),
        }
    }

    /// Channel by channel.
    pub open spec fn spec_blend(self, c1: Color) -> Color {
        Color {
            red: c1.red.spec_mul(self.red),
            green: c1.green.spec_mul(self.green),
            blue: c1.blue.spec_mul(self.blue),
        }
    }

    /// Every channel over `d`.
    pub open spec fn spec_over(self, d: Scalar) -> Color {
        Color {
            red: self.red.spec_div(d),
            green: self.green.spec_div(d),
            blue: self.blue.spec_div(d),
        }
    }

    pub open spec fn spec_scaled_from_1_to_255(&self) -> Color {
        Color {
            red: scale_num_1_to_255(self.red),
            green: scale_num_1_to_255(self.green),
            blue: scale_num_1_to_255(self.blue),
        }
    }

    /// Equal up to the tolerance in every channel.
    pub open spec fn spec_approx_eq(self, c1: Color) -> bool {
        self.red.spec_approx_eq(c1.red) && self.green.spec_approx_eq(c1.green)
            && self.blue.spec_approx_eq(c1.blue)
    }

    /// The color on the scale of bytes, each channel a whole number from 0 to 255.
    #[verifier::when_used_as_spec(spec_scaled_from_1_to_255)]
    pub fn scaled_from_1_to_255(&self) -> (c: Color)
        ensures
            c == self.spec_scaled_from_1_to_255(),
    {
        Color {
            red: scale_num_1_to_255(self.red),
            green: scale_num_1_to_255(self.green),
            blue: scale_num_1_to_255(self.blue),
        }
    }

    /// Every channel over `d`.
    pub fn over(self, d: Scalar) -> (c: Color)
        ensures
            c == self.spec_over(d),
    {
        Color { red: self.red / d, green: self.green / d, blue: self.blue / d }
    }
}

/// The operator `==` is equality up to the tolerance; it computes `self.spec_approx_eq(*c1)`.
impl PartialEq for Color {
    fn eq(&self, c1: &Color) -> (r: bool)
    {
        self.red.approx_eq(c1.red) && self.green.approx_eq(c1.green) && self.blue.approx_eq(
            c1.blue,
        )
    }
}

impl vstd::std_specs::cmp::PartialEqSpecImpl for Color {
    open spec fn obeys_eq_spec() -> bool {
        true
    }

    open spec fn eq_spec(&self, c1: &Color) -> bool {
        self.spec_approx_eq(*c1)
    }
}

/// The operator `+`; it computes `self.spec_add(c1)`.
impl core::ops::Add for Color {
    type Output = Color;

    fn add(self, c1: Color) -> (c: Color)
    {
        Color { red: self.red + c1.red, green: self.green + c1.green, blue: self.blue + c1.blue }
    }
}

impl vstd::std_specs::ops::AddSpecImpl for Color {
    open spec fn obeys_add_spec() -> bool {
        true
    }

    open spec fn add_req(self, c1: Color) -> bool {
        true
    }

    open spec fn add_spec(self, c1: Color) -> Color {
        self.spec_add(c1)
    }
}

/// The operator `-`; it computes `self.spec_sub(c1)`.
impl core::ops::Sub for Color {
    type Output = Color;

    fn sub(self, c1: Color) -> (c: Color)
    {
        Color { red: self.red - c1.red, green: self.green - c1.green, blue: self.blue - c1.blue }
    }
}

impl vstd::std_specs::ops::SubSpecImpl for Color {
    open spec fn obeys_sub_spec() -> bool {
        true
    }

    open spec fn sub_req(self, c1: Color) -> bool {
        true
    }

    open spec fn sub_spec(self, c1: Color) -> Color {
        self.spec_sub(c1)
    }
}

/// The operator `*`; it computes `self.spec_scale(scalar)`.
impl core::ops::Mul<Scalar> for Color {
    type Output = Color;

    fn mul(self, scalar: Scalar) -> (c: Color)
    {
        Color { red: scalar * self.red, green: scalar * self.green, blue: scalar * self.blue }
    }
}

impl vstd::std_specs::ops::MulSpecImpl<Scalar> for Color {
    open spec fn obeys_mul_spec() -> bool {
        true
    }

    open spec fn mul_req(self, scalar: Scalar) -> bool {
        true
    }

    open spec fn mul_spec(self, scalar: Scalar) -> Color {
        self.spec_scale(scalar)
    }
}

/// The operator `*`; it computes `c1.spec_scale(self)`.
impl core::ops::Mul<Color> for Scalar {
    type Output = Color;

    fn mul(self, c1: Color) -> (c: Color)
    {
        Color { red: self * c1.red, green: self * c1.green, blue: self * c1.blue }
    }
}

impl vstd::std_specs::ops::MulSpecImpl<Color> for Scalar {
    open spec fn obeys_mul_spec() -> bool {
        true
    }

    open spec fn mul_req(self, c1: Color) -> bool {
        true
    }

    open spec fn mul_spec(self, c1: Color) -> Color {
        c1.spec_scale(self)
    }
}

/// The operator `*`; it computes `self.spec_blend(c1)`.
impl core::ops::Mul<Color> for Color {
    type Output = Color;

    fn mul(self, c1: Color) -> (c: Color)
    {
        Color { red: c1.red * self.red, green: c1.green * self.green, blue: c1.blue * self.blue }
    }
}

impl vstd::std_specs::ops::MulSpecImpl<Color> for Color {
    open spec fn obeys_mul_spec() -> bool {
        true
    }

    open spec fn mul_req(self, c1: Color) -> bool {
        true
    }

    open spec fn mul_spec(self, c1: Color) -> Color {
        self.spec_blend(c1)
    }
}

} // verus!
