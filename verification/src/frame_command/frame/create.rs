//! Validating a new frame and describing where it lives.

use vstd::prelude::*;
use crate::frame_query::frame::{Frame, AnyValue, frame_field_pattern, frame_value_failure};
use crate::pattern::{
    check_each, check_optional, first_failure, text_failure, list_failure, opt_failure, fails_with,
    outcome_agrees, lemma_list_failure_none,
};

verus! {

/// The body of a `FrameCreated` event. `price_bits` holds the IEEE-754 bits
/// of the `f32` price.
#[derive(Debug, Clone, PartialEq)]
pub struct FrameCreatedData {
    pub brand_name: String,
    pub colors: Vec<String>,
    pub cover_image: Option<String>,
    pub description: Option<String>,
    pub has_case: bool,
    pub materials: Vec<String>,
    pub model_name: String,
    pub other_images: Vec<String>,
    pub owner_id: String,
    pub price_bits: u32,
    pub privacy_mode: u8,
}

/// A new frame as a client sends it; the owner comes from the caller's
/// token.
#[derive(Debug, Clone, PartialEq)]
pub struct WebModel {
    pub brand_name: String,
    pub colors: Vec<String>,
    pub cover_image: Option<String>,
    pub description: Option<String>,
    pub has_case: bool,
    pub materials: Vec<String>,
    pub model_name: String,
    pub other_images: Vec<String>,
    pub owner_id: Option<String>,
    pub price_bits: u32,
    pub privacy_mode: u8,
}

/// The first check a new frame fails, in the order they are made: brand
/// name, each color, description, each material, model name, price,
/// privacy mode, owner.
pub open spec fn frame_model_failure(m: WebModel) -> Option<Option<Seq<char>>> {
    first_failure(
        text_failure(frame_field_pattern("brand_name"@), "brand_name"@, m.brand_name@, true),
        first_failure(
            list_failure(frame_field_pattern("color"@), "color"@, m.colors.deep_view(), true),
            first_failure(
                opt_failure(frame_field_pattern("description"@), "description"@, m.description.deep_view(), true),
                first_failure(
                    list_failure(frame_field_pattern("material"@), "material"@, m.materials.deep_view(), true),
                    first_failure(
                        text_failure(frame_field_pattern("model_name"@), "model_name"@, m.model_name@, true),
                        first_failure(
                            frame_value_failure("price"@, AnyValue::F32Bits(m.price_bits)),
                            first_failure(
                                frame_value_failure("privacy_mode"@, AnyValue::U8(m.privacy_mode)),
                                if m.owner_id is None {
                                    fails_with("Missing owner_id"@)
                                } else {
                                    None
                                },
                            ),
                        ),
                    ),
                ),
            ),
        ),
    )
}

/// Every value of a new frame passes its own check.
pub open spec fn frame_model_passes_every_check(m: WebModel) -> bool {
    &&& text_failure(frame_field_pattern("brand_name"@), "brand_name"@, m.brand_name@, true) is None
    &&& forall|i: int| 0 <= i < m.colors@.len() ==> (#[trigger] text_failure(
        frame_field_pattern("color"@),
        "color"@,
        m.colors.deep_view()[i],
        true,
    )) is None
    &&& opt_failure(frame_field_pattern("description"@), "description"@, m.description.deep_view(), true) is None
    &&& forall|i: int| 0 <= i < m.materials@.len() ==> (#[trigger] text_failure(
        frame_field_pattern("material"@),
        "material"@,
        m.materials.deep_view()[i],
        true,
    )) is None
    &&& text_failure(frame_field_pattern("model_name"@), "model_name"@, m.model_name@, true) is None
    &&& frame_value_failure("price"@, AnyValue::F32Bits(m.price_bits)) is None
    &&& frame_value_failure("privacy_mode"@, AnyValue::U8(m.privacy_mode)) is None
    &&& m.owner_id is Some
}

/// A new frame is accepted exactly when each of its values passes its own
/// check, whatever the order the checks are made in.
pub proof fn lemma_frame_accepted_iff_every_check_passes(m: WebModel)
    ensures
        frame_model_failure(m) is None <==> frame_model_passes_every_check(m),
{
    lemma_list_failure_none(frame_field_pattern("color"@), "color"@, m.colors.deep_view(), true);
    lemma_list_failure_none(frame_field_pattern("material"@), "material"@, m.materials.deep_view(), true);
}

/// The event body carries the model's fields unchanged.
pub open spec fn carries_model(d: FrameCreatedData, m: WebModel) -> bool {
    &&& d.brand_name == m.brand_name
    &&& d.colors == m.colors
    &&& d.cover_image == m.cover_image
    &&& d.description == m.description
    &&& d.has_case == m.has_case
    &&& d.materials == m.materials
    &&& d.model_name == m.model_name
    &&& d.other_images == m.other_images
    &&& m.owner_id == Some(d.owner_id)
    &&& d.price_bits == m.price_bits
    &&& d.privacy_mode == m.privacy_mode
}

/// The request with its owner set to the caller; every other field is kept.
pub fn with_owner(m: WebModel, owner_id: String) -> (r: WebModel)
    ensures
        r.owner_id == Some(owner_id),
        r.brand_name == m.brand_name,
        r.colors == m.colors,
        r.cover_image == m.cover_image,
        r.description == m.description,
        r.has_case == m.has_case,
        r.materials == m.materials,
        r.model_name == m.model_name,
        r.other_images == m.other_images,
        r.price_bits == m.price_bits,
        r.privacy_mode == m.privacy_mode,
{
    WebModel { owner_id: Some(owner_id), ..m }
}

impl FrameCreatedData {
    /// Validates a new frame and turns it into the body of its event.
    pub fn try_from(frame_model: WebModel) -> (r: Result<FrameCreatedData, String>)
        ensures
            outcome_agrees(r, frame_model_failure(frame_model)),
            r matches Ok(d) ==> carries_model(d, frame_model),
    {
        let r = Frame::validate_field_str("brand_name", frame_model.brand_name.as_str());
        if r.is_err() {
            return Err(r.unwrap_err());
        }
        let r = check_each(Frame::get_field_regex_pattern("color"), "color", &frame_model.colors, true);
        if r.is_err() {
            return Err(r.unwrap_err());
        }
        let r = check_optional(
            Frame::get_field_regex_pattern("description"),
            "description",
            &frame_model.description,
            true,
        );
        if r.is_err() {
            return Err(r.unwrap_err());
        }
        let r = check_each(Frame::get_field_regex_pattern("material"), "material", &frame_model.materials, true);
        if r.is_err() {
            return Err(r.unwrap_err());
        }
        let r = Frame::validate_field_str("model_name", frame_model.model_name.as_str());
        if r.is_err() {
            return Err(r.unwrap_err());
        }
        let r = Frame::validate_field("price", AnyValue::F32Bits(frame_model.price_bits));
        if r.is_err() {
            return Err(r.unwrap_err());
        }
        let r = Frame::validate_field("privacy_mode", AnyValue::U8(frame_model.privacy_mode));
        if r.is_err() {
            return Err(r.unwrap_err());
        }
        match frame_model.owner_id {
            None => Err("Missing owner_id".to_owned()),
            Some(owner_id) => Ok(
                FrameCreatedData {
                    brand_name: frame_model.brand_name,
                    colors: frame_model.colors,
                    cover_image: frame_model.cover_image,
                    description: frame_model.description,
                    has_case: frame_model.has_case,
                    materials: frame_model.materials,
                    model_name: frame_model.model_name,
                    other_images: frame_model.other_images,
                    owner_id,
                    price_bits: frame_model.price_bits,
                    privacy_mode: frame_model.privacy_mode,
                },
            ),
        }
    }
}

/// Where a created frame can be found.
pub open spec fn frame_location_of(addr: Seq<char>, owner_username: Seq<char>, brand_name: Seq<char>, model_name: Seq<char>) -> Seq<char> {
    addr + "/users/"@ + owner_username + "/brands/"@ + brand_name + "/models/"@ + model_name
}

/// The `Location` of a created frame.
pub fn frame_location(addr: &str, owner_username: &str, brand_name: &str, model_name: &str) -> (l: String)
    ensures
        l@ == frame_location_of(addr@, owner_username@, brand_name@, model_name@),
{
    let mut l = addr.to_owned();
    l.append("/users/");
    l.append(owner_username);
    l.append("/brands/");
    l.append(brand_name);
    l.append("/models/");
    l.append(model_name);
    l
}

} // verus!
