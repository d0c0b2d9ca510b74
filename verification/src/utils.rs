//! Reading a block's color from its name.

use vstd::prelude::*;
use crate::map::Color;

verus! {

/// The error of a color name that names no color.
#[derive(Clone, Copy, Debug, PartialEq, Eq, Structural)]
pub struct ColorNotFound;

impl ColorNotFound {
    /// A short description of the error.
    pub fn message(&self) -> (text: &'static str)
        ensures
            text@ == "Color not found"@,
    {
        "Color not found"
    }
}

/// The lowercase form of a text, as `str::to_lowercase` of the standard
/// library gives it.
pub uninterp spec fn lowercase_of(text: Seq<char>) -> Seq<char>;

/// The color that a name in lowercase stands for.
pub open spec fn color_named(name: Seq<char>) -> Option<Color> {
    if name == "red"@ {
        Some(Color::Red)
    } else if name == "green"@ {
        Some(Color::Green)
    } else if name == "blue"@ {
        Some(Color::Blue)
    } else if name == "orange"@ {
        Some(Color::Orange)
    } else if name == "purple"@ {
        Some(Color::Purple)
    } else if name == "indigo"@ {
        Some(Color::Indigo)
    } else {
        None
    }
}

/// Calls `str::to_lowercase`. Its result is not stated here but given the
/// name `lowercase_of`: it depends on the text alone.
#[verifier::external_body]
fn to_lowercase(text: &str) -> (lower: String)
    ensures
        lower@ == lowercase_of(text@),
{
    text.to_lowercase()
}

fn same_text(left: &str, right: &str) -> (same: bool)
    ensures
        same == (left@ == right@),
{
    let a: String = left.to_owned();
    let b: String = right.to_owned();
    a == b
}

/// The color that a name in lowercase stands for, or the error when it
/// stands for none.
pub fn color_from_lowercase(name: &str) -> (color: Result<Color, ColorNotFound>)
    ensures
        color == match color_named(name@) {
            Some(c) => Ok::<Color, ColorNotFound>(c),
            None => Err::<Color, ColorNotFound>(ColorNotFound),
        },
{
    if same_text(name, "red") {
        Ok(Color::Red)
    } else if same_text(name, "green") {
        Ok(Color::Green)
    } else if same_text(name, "blue") {
        Ok(Color::Blue)
    } else if same_text(name, "orange") {
        Ok(Color::Orange)
    } else if same_text(name, "purple") {
        Ok(Color::Purple)
    } else if same_text(name, "indigo") {
        Ok(Color::Indigo)
    } else {
        Err(ColorNotFound)
    }
}

/// The color that a name stands for, whatever the case of its letters.
pub fn de_color(color_string: &str) -> (color: Result<Color, ColorNotFound>)
    ensures
        color == match color_named(lowercase_of(color_string@)) {
            Some(c) => Ok::<Color, ColorNotFound>(c),
            None => Err::<Color, ColorNotFound>(ColorNotFound),
        },
{
    let lower = to_lowercase(color_string);
    color_from_lowercase(lower.as_str())
}

} // verus!
