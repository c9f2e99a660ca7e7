//! The frame model and the rules its fields obey.

use vstd::prelude::*;
use crate::pattern::{check_field, text_failure, fails_with, outcome_agrees};
use crate::text::str_eq;

pub mod get;
pub mod search;

verus! {

/// A frame as the query side serves it. `price_bits` holds the IEEE-754
/// bits of the `f32` price.
#[derive(Debug, Clone, PartialEq)]
pub struct Frame {
    pub brand_name: String,
    pub colors: Vec<String>,
    pub cover_image: Option<String>,
    pub description: Option<String>,
    pub id: String,
    pub has_case: bool,
    pub materials: Vec<String>,
    pub model_name: String,
    pub other_images: Vec<String>,
    pub owner_id: String,
    pub price_bits: u32,
    pub privacy_mode: i16,
}

/// A value handed to `Frame::validate_field`, by its type.
#[derive(Debug, Clone, PartialEq)]
pub enum AnyValue {
    /// An `f32`, by its IEEE-754 bits.
    F32Bits(u32),
    U8(u8),
    Str(String),
    /// A value of any other type.
    Unsupported,
}

/// The pattern a frame field's text must match, if any.
pub open spec fn frame_field_pattern(field: Seq<char>) -> Option<Seq<char>> {
    if field == "brand_name"@ {
        Some("^.{2,50}$"@)
    } else if field == "color"@ {
        Some("^.{2,25}$"@)
    } else if field == "material"@ {
        Some("^.{2,25}$"@)
    } else if field == "model_name"@ {
        Some("^.{2,50}$"@)
    } else if field == "description"@ {
        Some("^.{0,500}$"@)
    } else {
        None
    }
}

/// The `f32` with these bits compares `>= 0.0`: `+0.0` up to `+inf`, and
/// `-0.0`. NaNs and negative numbers do not.
pub open spec fn f32_bits_non_negative(bits: u32) -> bool {
    bits <= 0x7F80_0000 || bits == 0x8000_0000
}

/// How `Frame::validate_field` fails for `field` and `value`.
pub open spec fn frame_value_failure(field: Seq<char>, value: AnyValue) -> Option<Option<Seq<char>>> {
    if field == "price"@ {
        match value {
            AnyValue::F32Bits(b) => if f32_bits_non_negative(b) {
                None
            } else {
                fails_with("Price has to be non-negative."@)
            },
            _ => fails_with("Price has to be a number."@),
        }
    } else if field == "privacy_mode"@ {
        match value {
            AnyValue::U8(v) => if 1 <= v <= 4 {
                None
            } else {
                fails_with("Privacy Mode has to be between 1 and 3."@)
            },
            _ => fails_with("Privacy Mode has to be a number."@),
        }
    } else {
        match value {
            AnyValue::Str(s) => text_failure(frame_field_pattern(field), field, s@, true),
            _ => fails_with("Cast error."@),
        }
    }
}

/// A privacy mode passes exactly when it is from 1 to 4, and a price
/// exactly when it is a non-negative number (`+0.0` up to `+inf`, or
/// `-0.0`); a value of another kind fails either check.
pub proof fn lemma_number_fields(v: u8, bits: u32, other: AnyValue)
    ensures
        frame_value_failure("privacy_mode"@, AnyValue::U8(v)) is None <==> 1 <= v && v <= 4,
        frame_value_failure("price"@, AnyValue::F32Bits(bits)) is None <==> (bits <= 0x7F80_0000 || bits
            == 0x8000_0000),
        !(other is U8) ==> frame_value_failure("privacy_mode"@, other) is Some,
        !(other is F32Bits) ==> frame_value_failure("price"@, other) is Some,
{
    reveal_strlit("price");
    reveal_strlit("privacy_mode");
    assert("price"@.len() == 5);
    assert("privacy_mode"@.len() == 12);
    assert("privacy_mode"@ != "price"@);
}

impl Frame {
    /// The pattern a frame field's text must match, if any.
    pub fn get_field_regex_pattern(field_name: &str) -> (r: Option<&'static str>)
        ensures
            r.deep_view() == frame_field_pattern(field_name@),
    {
        if str_eq(field_name, "brand_name") {
            Some("^.{2,50}$")
        } else if str_eq(field_name, "color") {
            Some("^.{2,25}$")
        } else if str_eq(field_name, "material") {
            Some("^.{2,25}$")
        } else if str_eq(field_name, "model_name") {
            Some("^.{2,50}$")
        } else if str_eq(field_name, "description") {
            Some("^.{0,500}$")
        } else {
            None
        }
    }

    /// Checks a value given by its type: a price must be a non-negative
    /// number, a privacy mode a number from 1 to 4, any other field a text
    /// matching the field's pattern.
    pub fn validate_field(field_name: &str, value: AnyValue) -> (r: Result<(), String>)
        ensures
            outcome_agrees(r, frame_value_failure(field_name@, value)),
    {
        if str_eq(field_name, "price") {
            match value {
                AnyValue::F32Bits(b) => {
                    if b <= 0x7F80_0000u32 || b == 0x8000_0000u32 {
                        Ok(())
                    } else {
                        Err("Price has to be non-negative.".to_owned())
                    }
                },
                _ => Err("Price has to be a number.".to_owned()),
            }
        } else if str_eq(field_name, "privacy_mode") {
            match value {
                AnyValue::U8(v) => {
                    if 1 <= v && v <= 4 {
                        Ok(())
                    } else {
                        Err("Privacy Mode has to be between 1 and 3.".to_owned())
                    }
                },
                _ => Err("Privacy Mode has to be a number.".to_owned()),
            }
        } else {
            match value {
                AnyValue::Str(s) => Frame::validate_field_str(field_name, s.as_str()),
                _ => Err("Cast error.".to_owned()),
            }
        }
    }

    /// Checks a text against the pattern of its field.
    pub fn validate_field_str(field_name: &str, value: &str) -> (r: Result<(), String>)
        ensures
            outcome_agrees(r, text_failure(frame_field_pattern(field_name@), field_name@, value@, true)),
    {
        let pattern = Self::get_field_regex_pattern(field_name);
        check_field(pattern, field_name, value, true)
    }
}

} // verus!
