//! Reading one frame back from its stored row.

use vstd::prelude::*;
use crate::text::{split_exec, split_on};
use super::Frame;
use crate::frame_query::projection::FrameRow;

verus! {

/// The lists of a frame as they are read back from their stored columns.
pub open spec fn lists_read_back(row: FrameRow, frame: Frame) -> bool {
    &&& frame.colors.deep_view() == split_on(row.colors@, ',')
    &&& frame.materials.deep_view() == split_on(row.materials@, ',')
    &&& frame.other_images.deep_view() == split_on(row.other_images@, ',')
}

impl Frame {
    /// The frame a stored row describes; the list columns are split at commas.
    pub fn from_row(row: FrameRow) -> (frame: Frame)
        ensures
            frame.id == row.entity_id,
            frame.brand_name == row.brand_name,
            frame.cover_image == row.cover_image,
            frame.description == row.description,
            frame.has_case == row.has_case,
            frame.model_name == row.model_name,
            frame.owner_id == row.owner_id,
            frame.price_bits == row.price_bits,
            frame.privacy_mode == row.privacy_mode,
            lists_read_back(row, frame),
    {
        let colors = split_exec(row.colors.as_str(), ',');
        let materials = split_exec(row.materials.as_str(), ',');
        let other_images = split_exec(row.other_images.as_str(), ',');
        Frame {
            id: row.entity_id,
            brand_name: row.brand_name,
            colors,
            cover_image: row.cover_image,
            description: row.description,
            has_case: row.has_case,
            materials,
            model_name: row.model_name,
            other_images,
            owner_id: row.owner_id,
            price_bits: row.price_bits,
            privacy_mode: row.privacy_mode,
        }
    }
}

/// The body every placeholder listing endpoint answers with: the
/// pretty-printed list of the names "me", "you" and "others".
pub fn get_all_body() -> (body: String)
    ensures
        body@ == "[\n    \"me\",\n    \"you\",\n    \"others\",\n]"@,
{
    "[\n    \"me\",\n    \"you\",\n    \"others\",\n]".to_owned()
}

} // verus!
