//! A single RGB pixel and its per-channel operations.

use crate::decimal::{decimal, push_decimal};
use vstd::prelude::*;

verus! {

/// An RGB triple with 8-bit channels.
#[derive(Clone, Copy, Debug, PartialEq, Eq, Structural)]
pub struct Pixel {
    /// Red intensity, 0 to 255.
    pub r: u8,
    /// Green intensity, 0 to 255.
    pub g: u8,
    /// Blue intensity, 0 to 255.
    pub b: u8,
}

/// One of the three colour channels of a pixel.
#[derive(Clone, Copy, Debug, PartialEq, Eq, Structural)]
pub enum Channel {
    /// The red channel.
    Red,
    /// The green channel.
    Green,
    /// The blue channel.
    Blue,
}

impl Pixel {
    /// The intensity of the channel `c`.
    pub open spec fn channel(self, c: Channel) -> u8 {
        match c {
            Channel::Red => self.r,
            Channel::Green => self.g,
            Channel::Blue => self.b,
        }
    }

    /// Whether all three channels are zero.
    pub open spec fn is_black(self) -> bool {
        self.r == 0 && self.g == 0 && self.b == 0
    }

    /// The pixel with every channel `c` replaced by `255 - c`.
    pub open spec fn inverted(self) -> Pixel {
        Pixel { r: (255 - self.r) as u8, g: (255 - self.g) as u8, b: (255 - self.b) as u8 }
    }

    /// The gray level of the pixel: each channel is divided by three, rounding
    /// down, and the three quotients are added.  This is at most the true
    /// average and at most 255.
    pub open spec fn gray_level(self) -> int {
        self.r as int / 3 + self.g as int / 3 + self.b as int / 3
    }

    /// The pixel with all three channels set to its gray level.
    pub open spec fn grayed(self) -> Pixel {
        let level: u8 = self.gray_level() as u8;
        Pixel { r: level, g: level, b: level }
    }

    /// The text that [`Pixel::display`] produces.
    pub open spec fn display_text(self) -> Seq<char> {
        "red: "@ + decimal(self.r as nat) + ", green: "@ + decimal(self.g as nat) + ", blue: "@
            + decimal(self.b as nat)
    }

    /// Builds a pixel from its three channels.
    pub fn new(red: u8, green: u8, blue: u8) -> (p: Pixel)
        ensures
            p == (Pixel { r: red, g: green, b: blue }),
    {
        Pixel { r: red, g: green, b: blue }
    }

    /// The red channel.
    pub fn red(self) -> (c: u8)
        ensures
            c == self.r,
    {
        self.r
    }

    /// The green channel.
    pub fn green(self) -> (c: u8)
        ensures
            c == self.g,
    {
        self.g
    }

    /// The blue channel.
    pub fn blue(self) -> (c: u8)
        ensures
            c == self.b,
    {
        self.b
    }

    /// Renders the pixel as `red: R, green: G, blue: B`, each channel in
    /// decimal.
    pub fn display(self) -> (text: String)
        ensures
            text@ == self.display_text(),
    {
        let mut text = String::from_str("red: ");
        push_decimal(&mut text, self.r);
        text.append(", green: ");
        push_decimal(&mut text, self.g);
        text.append(", blue: ");
        push_decimal(&mut text, self.b);
        text
    }

    /// Replaces every channel `c` by `255 - c`.
    pub fn invert(&mut self)
        ensures
            *final(self) == old(self).inverted(),
    {
        self.r = 255 - self.r;
        self.g = 255 - self.g;
        self.b = 255 - self.b;
    }

    /// Whether the two pixels agree in all three channels.
    pub fn eq(self, other: Pixel) -> (same: bool)
        ensures
            same == (self == other),
    {
        self.r == other.r && self.g == other.g && self.b == other.b
    }

    /// Sets all three channels to the gray level of the pixel.
    pub fn grayscale(&mut self)
        ensures
            *final(self) == old(self).grayed(),
    {
        let gray_index: u8 = (self.r / 3) + (self.g / 3) + (self.b / 3);
        self.r = gray_index;
        self.g = gray_index;
        self.b = gray_index;
    }
}

/// Inverting a pixel twice gives the pixel back.
pub proof fn lemma_invert_involution(p: Pixel)
    ensures
        p.inverted().inverted() == p,
{
}

/// The gray level of a pixel fits a channel and is at most the average of
/// the three channels: each of the three divisions may round down.
pub proof fn lemma_gray_level_bounds(p: Pixel)
    ensures
        0 <= p.gray_level() <= 255,
        3 * p.gray_level() <= p.r + p.g + p.b,
{
}

/// Reducing an already gray pixel once more rounds its level down to a
/// multiple of three.
pub proof fn lemma_grayscale_twice(p: Pixel)
    ensures
        p.grayed().grayed().r == 3 * (p.gray_level() / 3),
        p.grayed().grayed().g == 3 * (p.gray_level() / 3),
        p.grayed().grayed().b == 3 * (p.gray_level() / 3),
{
}

/// Grayscale reduction is idempotent on every pixel whose gray level is a
/// multiple of three.
pub proof fn lemma_grayscale_idempotent(p: Pixel)
    requires
        p.gray_level() % 3 == 0,
    ensures
        p.grayed().grayed() == p.grayed(),
{
}

/// On a pixel whose gray level is no multiple of three, a second grayscale
/// reduction darkens the pixel further.
pub proof fn lemma_grayscale_not_idempotent(p: Pixel)
    requires
        p.gray_level() % 3 != 0,
    ensures
        p.grayed().grayed() != p.grayed(),
        p.grayed().grayed().r < p.grayed().r,
{
}

} // verus!
