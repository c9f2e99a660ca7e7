use optic_mart::frame_command::event::ExpectedVersion;
use optic_mart::frame_command::frame::create::{frame_location, FrameCreatedData, WebModel};
use optic_mart::frame_command::utils::get_correlation_id;
use optic_mart::frame_query::event::FrameCreatedData as StoredFrameData;
use optic_mart::frame_query::frame::get::get_all_body;
use optic_mart::frame_query::frame::search::Info;
use optic_mart::frame_query::frame::{AnyValue, Frame};
use optic_mart::frame_query::projection::{FrameProjection, FrameRow};

fn s(x: &str) -> String {
    x.to_string()
}

fn model() -> WebModel {
    WebModel {
        brand_name: s("Rayban"),
        colors: vec![s("black"), s("gold")],
        cover_image: Some(s("img0")),
        description: Some(s("classic")),
        has_case: true,
        materials: vec![s("metal")],
        model_name: s("Aviator"),
        other_images: vec![s("img1"), s("img2")],
        owner_id: Some(s("owner-1")),
        price_bits: 120.5f32.to_bits(),
        privacy_mode: 2,
    }
}

#[test]
fn frame_field_patterns() {
    assert_eq!(Frame::get_field_regex_pattern("brand_name"), Some("^.{2,50}$"));
    assert_eq!(Frame::get_field_regex_pattern("color"), Some("^.{2,25}$"));
    assert_eq!(Frame::get_field_regex_pattern("material"), Some("^.{2,25}$"));
    assert_eq!(Frame::get_field_regex_pattern("model_name"), Some("^.{2,50}$"));
    assert_eq!(Frame::get_field_regex_pattern("description"), Some("^.{0,500}$"));
    assert_eq!(Frame::get_field_regex_pattern("price"), None);
}

#[test]
fn frame_text_fields_are_matched_against_their_patterns() {
    assert_eq!(Frame::validate_field_str("brand_name", "Ab"), Ok(()));
    assert_eq!(
        Frame::validate_field_str("brand_name", "A"),
        Err(s("Field 'brand_name' is invalid. Expected pattern: ^.{2,50}$."))
    );
    assert_eq!(Frame::validate_field_str("description", ""), Ok(()));
    assert_eq!(Frame::validate_field_str("unknown", ""), Ok(()));
    assert_eq!(Frame::validate_field_str("color", &"c".repeat(26)).is_err(), true);
}

#[test]
fn price_must_be_a_non_negative_number() {
    for p in [0.0f32, -0.0, 1.0, 120.5, f32::INFINITY, f32::MIN_POSITIVE] {
        assert_eq!(Frame::validate_field("price", AnyValue::F32Bits(p.to_bits())), Ok(()), "{}", p);
    }
    for p in [-1.0f32, f32::NEG_INFINITY, f32::NAN, -f32::NAN, -1e-40] {
        assert_eq!(
            Frame::validate_field("price", AnyValue::F32Bits(p.to_bits())),
            Err(s("Price has to be non-negative.")),
            "{}",
            p
        );
    }
    assert_eq!(Frame::validate_field("price", AnyValue::U8(3)), Err(s("Price has to be a number.")));
}

#[test]
fn privacy_mode_must_be_from_one_to_four() {
    assert_eq!(Frame::validate_field("privacy_mode", AnyValue::U8(1)), Ok(()));
    assert_eq!(Frame::validate_field("privacy_mode", AnyValue::U8(4)), Ok(()));
    assert_eq!(
        Frame::validate_field("privacy_mode", AnyValue::U8(0)),
        Err(s("Privacy Mode has to be between 1 and 3."))
    );
    assert_eq!(
        Frame::validate_field("privacy_mode", AnyValue::U8(5)),
        Err(s("Privacy Mode has to be between 1 and 3."))
    );
    assert_eq!(
        Frame::validate_field("privacy_mode", AnyValue::Str(s("1"))),
        Err(s("Privacy Mode has to be a number."))
    );
}

#[test]
fn other_fields_must_be_text() {
    assert_eq!(Frame::validate_field("model_name", AnyValue::Str(s("Aviator"))), Ok(()));
    assert_eq!(Frame::validate_field("model_name", AnyValue::U8(1)), Err(s("Cast error.")));
    assert_eq!(Frame::validate_field("model_name", AnyValue::Unsupported), Err(s("Cast error.")));
}

#[test]
fn a_valid_frame_becomes_its_event_body() {
    let m = model();
    let d = FrameCreatedData::try_from(m.clone()).unwrap();
    assert_eq!(d.brand_name, m.brand_name);
    assert_eq!(d.colors, m.colors);
    assert_eq!(d.owner_id, s("owner-1"));
    assert_eq!(d.price_bits, 120.5f32.to_bits());
    assert_eq!(d.privacy_mode, 2);
}

#[test]
fn frame_checks_stop_at_the_first_failure() {
    let mut m = model();
    m.brand_name = s("R");
    m.colors = vec![s("x")];
    assert_eq!(
        FrameCreatedData::try_from(m),
        Err(s("Field 'brand_name' is invalid. Expected pattern: ^.{2,50}$."))
    );
    let mut m = model();
    m.colors = vec![s("black"), s("x")];
    m.model_name = s("A");
    assert_eq!(FrameCreatedData::try_from(m), Err(s("Field 'color' is invalid. Expected pattern: ^.{2,25}$.")));
    let mut m = model();
    m.description = Some("d".repeat(501));
    assert_eq!(
        FrameCreatedData::try_from(m),
        Err(s("Field 'description' is invalid. Expected pattern: ^.{0,500}$."))
    );
    let mut m = model();
    m.materials = vec![s("m")];
    assert_eq!(
        FrameCreatedData::try_from(m),
        Err(s("Field 'material' is invalid. Expected pattern: ^.{2,25}$."))
    );
    let mut m = model();
    m.model_name = s("A");
    m.privacy_mode = 9;
    assert_eq!(
        FrameCreatedData::try_from(m),
        Err(s("Field 'model_name' is invalid. Expected pattern: ^.{2,50}$."))
    );
    let mut m = model();
    m.price_bits = (-3.0f32).to_bits();
    m.owner_id = None;
    assert_eq!(FrameCreatedData::try_from(m), Err(s("Price has to be non-negative.")));
    let mut m = model();
    m.privacy_mode = 0;
    assert_eq!(FrameCreatedData::try_from(m), Err(s("Privacy Mode has to be between 1 and 3.")));
    let mut m = model();
    m.owner_id = None;
    assert_eq!(FrameCreatedData::try_from(m), Err(s("Missing owner_id")));
}

#[test]
fn an_absent_description_and_empty_lists_pass() {
    let mut m = model();
    m.description = None;
    m.colors = vec![];
    m.materials = vec![];
    assert!(FrameCreatedData::try_from(m).is_ok());
}

#[test]
fn frame_location_names_owner_brand_and_model() {
    assert_eq!(
        frame_location("0.0.0.0:8003", "alice", "Rayban", "Aviator").as_str(),
        "0.0.0.0:8003/users/alice/brands/Rayban/models/Aviator"
    );
}

#[test]
fn frame_expected_version_is_minus_one() {
    assert_eq!(ExpectedVersion::StreamShouldNotExist.value(), -1);
}

fn is_hyphenated_v4(id: &str) -> bool {
    let b = id.as_bytes();
    b.len() == 36
        && b.iter().enumerate().all(|(i, c)| {
            if i == 8 || i == 13 || i == 18 || i == 23 {
                *c == b'-'
            } else {
                c.is_ascii_digit() || (b'a'..=b'f').contains(c)
            }
        })
        && b[14] == b'4'
        && b"89ab".contains(&b[19])
}

#[test]
fn correlation_id_comes_from_the_header_or_is_fresh() {
    assert_eq!(get_correlation_id(Some(b"req-42")).as_str(), "req-42");
    let fresh = get_correlation_id(None);
    assert!(is_hyphenated_v4(&fresh), "{}", fresh);
    let fresh2 = get_correlation_id(Some(b"bad\x00"));
    assert!(is_hyphenated_v4(&fresh2), "{}", fresh2);
    assert_ne!(fresh, fresh2);
}

fn stored_body() -> StoredFrameData {
    StoredFrameData {
        brand_name: s("Rayban"),
        colors: vec![s("black"), s("gold")],
        cover_image: None,
        description: Some(s("classic")),
        has_case: false,
        materials: vec![s("metal"), s("glass")],
        model_name: s("Aviator"),
        other_images: vec![s("i1")],
        owner_id: s("o1"),
        price_bits: 10.0f32.to_bits(),
        privacy_mode: 3,
    }
}

#[test]
fn a_stored_frame_reads_back_with_its_lists() {
    let body = stored_body();
    let row = FrameRow::from_event(s("f1"), body.clone(), 1_000);
    assert_eq!(row.colors.as_str(), "black,gold");
    assert_eq!(row.materials.as_str(), "metal,glass");
    assert_eq!(row.other_images.as_str(), "i1");
    assert_eq!(row.updated_at, 1_000);
    let frame = Frame::from_row(row);
    assert_eq!(frame.id, s("f1"));
    assert_eq!(frame.colors, body.colors);
    assert_eq!(frame.materials, body.materials);
    assert_eq!(frame.other_images, body.other_images);
    assert_eq!(frame.price_bits, body.price_bits);
    assert_eq!(frame.privacy_mode, 3);
}

#[test]
fn an_empty_list_reads_back_as_one_empty_item() {
    let mut body = stored_body();
    body.other_images = vec![];
    let frame = Frame::from_row(FrameRow::from_event(s("f2"), body, 0));
    assert_eq!(frame.other_images, vec![String::new()]);
}

#[test]
fn a_stored_frame_is_not_stored_again() {
    let mut p = FrameProjection::new();
    let snapshot = p.round_snapshot();
    assert!(FrameProjection::needs_insert(&snapshot, "f1"));
    p.stored(s("f1"), 5);
    assert!(FrameProjection::needs_insert(&snapshot, "f1"));
    let next = p.round_snapshot();
    assert!(!FrameProjection::needs_insert(&next, "f1"));
    assert!(FrameProjection::needs_insert(&next, "f2"));
}

#[test]
fn frame_search_matches_prefixes() {
    assert_eq!(Info { term: s("Ray") }.like_pattern().as_str(), "Ray%");
}

#[test]
fn placeholder_listing_body() {
    assert_eq!(get_all_body(), format!("{:#?}", ["me", "you", "others"]));
}

#[test]
fn rounds_over_the_whole_stream_store_each_frame_once() {
    let stream = ["f1", "f2", "f3"];
    let mut p = FrameProjection::new();
    let mut table: Vec<String> = Vec::new();
    for _round in 0..3 {
        let snapshot = p.round_snapshot();
        let mut sorted = snapshot.clone();
        sorted.sort();
        sorted.dedup();
        assert_eq!(sorted.len(), snapshot.len());
        for (at, id) in stream.iter().enumerate() {
            if FrameProjection::needs_insert(&snapshot, id) {
                table.push(s(id));
                p.stored(s(id), at as i64);
            }
        }
    }
    assert_eq!(table, vec![s("f1"), s("f2"), s("f3")]);
}
