//! The rules a layer must meet before it is drawn.
//!
//! A text layer is of type `text`, has text, and has a font whose colour is a
//! CSS colour and whose size is positive. An image layer is of type `image`
//! and has a positive scale. The rules are checked in this order and the
//! first one broken is reported.
//!
//! Whether a string is a CSS colour is decided by the crate `csscolorparser`.
//! Whether a number with a fraction is positive is decided by the caller.

use vstd::prelude::*;
use vstd::string::StringExecFns;
use csscolorparser::ParseColorError;

verus! {

/// The error of `csscolorparser::parse`. Nothing is known of its values.
#[verifier::external_type_specification]
#[verifier::external_body]
pub struct ExParseColorError(ParseColorError);

/// What `csscolorparser::parse` makes of `text`, the colour left out: that
/// it is a colour, or the reason why it is none.
pub uninterp spec fn css_color_outcome(text: Seq<char>) -> Result<(), ParseColorError>;

/// Whether `csscolorparser::parse` accepts `text` as a colour.
pub open spec fn css_color_parses(text: Seq<char>) -> bool {
    css_color_outcome(text) is Ok
}

/// Calls `csscolorparser::parse` and drops the colour.
///
/// Which strings the crate accepts as a colour, and what it says of the
/// others, is not stated here, only given the name [`css_color_outcome`].
/// The parser reads the string and nothing else, and returns on every
/// string.
#[verifier::external_body]
fn parse_color(text: &str) -> (outcome: Result<(), ParseColorError>)
    ensures
        outcome == css_color_outcome(text@),
{
    csscolorparser::parse(text).map(|_| ())
}

/// A rule that a layer breaks.
#[derive(Debug, PartialEq, Eq)]
pub enum ValidationError {
    /// A text layer whose type is not `text`.
    InvalidTextLayerType,
    /// A text layer without text.
    EmptyText,
    /// A colour that is no CSS colour, with what the parser said.
    InvalidColor(ParseColorError),
    /// A font size that is not positive.
    NonPositiveFontSize,
    /// An image layer whose type is not `image`.
    InvalidImageLayerType,
    /// A scale that is not positive.
    NonPositiveScale,
}

/// Whether the two strings hold the same characters.
pub fn same_text(left: &str, right: &str) -> (same: bool)
    ensures
        same == (left@ == right@),
{
    String::from_str(left) == String::from_str(right)
}

/// Checks the type and the text of a text layer.
pub fn check_text_layer(layer_type: &str, text: &str) -> (verdict: Result<(), ValidationError>)
    ensures
        layer_type@ != "text"@ ==> verdict == Err::<(), ValidationError>(
            ValidationError::InvalidTextLayerType,
        ),
        layer_type@ == "text"@ && text@.len() == 0 ==> verdict == Err::<(), ValidationError>(
            ValidationError::EmptyText,
        ),
        layer_type@ == "text"@ && text@.len() > 0 ==> verdict is Ok,
{
    if !same_text(layer_type, "text") {
        return Err(ValidationError::InvalidTextLayerType);
    }
    if text.is_empty() {
        return Err(ValidationError::EmptyText);
    }
    Ok(())
}

/// Checks the type and the scale of an image layer.
pub fn check_image_layer(layer_type: &str, scale_is_positive: bool) -> (verdict: Result<
    (),
    ValidationError,
>)
    ensures
        layer_type@ != "image"@ ==> verdict == Err::<(), ValidationError>(
            ValidationError::InvalidImageLayerType,
        ),
        layer_type@ == "image"@ && !scale_is_positive ==> verdict == Err::<(), ValidationError>(
            ValidationError::NonPositiveScale,
        ),
        layer_type@ == "image"@ && scale_is_positive ==> verdict is Ok,
{
    if !same_text(layer_type, "image") {
        return Err(ValidationError::InvalidImageLayerType);
    }
    if !scale_is_positive {
        return Err(ValidationError::NonPositiveScale);
    }
    Ok(())
}

/// The verdict on a font, given what the colour parser said of its colour
/// and whether its size is positive. A bad colour is reported before a bad
/// size.
pub open spec fn font_verdict(color: Result<(), ParseColorError>, size_is_positive: bool) -> Result<
    (),
    ValidationError,
> {
    match color {
        Err(reason) => Err(ValidationError::InvalidColor(reason)),
        Ok(_) => if size_is_positive {
            Ok(())
        } else {
            Err(ValidationError::NonPositiveFontSize)
        },
    }
}

/// See [`font_verdict`].
pub fn check_font(color: Result<(), ParseColorError>, size_is_positive: bool) -> (verdict: Result<
    (),
    ValidationError,
>)
    ensures
        verdict == font_verdict(color, size_is_positive),
{
    match color {
        Err(reason) => Err(ValidationError::InvalidColor(reason)),
        Ok(_) => {
            if size_is_positive {
                Ok(())
            } else {
                Err(ValidationError::NonPositiveFontSize)
            }
        },
    }
}

/// Checks the colour and the size of a font.
pub fn validate_font(color: &str, size_is_positive: bool) -> (verdict: Result<(), ValidationError>)
    ensures
        verdict == font_verdict(css_color_outcome(color@), size_is_positive),
        verdict is Ok <==> css_color_parses(color@) && size_is_positive,
{
    check_font(parse_color(color), size_is_positive)
}

/// Whether the string is a CSS colour.
pub fn is_css_color(text: &str) -> (valid: bool)
    ensures
        valid == css_color_parses(text@),
{
    parse_color(text).is_ok()
}

} // verus!
