use optic_mart::auth::AuthError;
use optic_mart::frame_command::frame::create::{with_owner, WebModel as FrameModel};
use optic_mart::order_command::order::mark::{
    mark_step, MarkError, MarkInput, MarkOutput, MarkRefusal, MarkStage, WebModel as Flags,
};
use optic_mart::order_command::order::place::{complete_order, WebModel as PlaceModel};
use optic_mart::user_command::user::modify::{
    modify_step, ModifyInput, ModifyOutput, ModifyRefusal, ModifyStage, UserModifiedData,
};
use optic_mart::user_command::user::register::{
    register_step, RegisterInput, RegisterOutput, RegisterStage, UserRegisteredData,
};
use optic_mart::user_command::user::UniquenessError;

fn s(x: &str) -> String {
    x.to_string()
}

fn both() -> Flags {
    Flags { processed: true, rejected: false }
}

fn request(flags: Flags, auth: Result<String, AuthError>) -> MarkInput {
    MarkInput::Request { order_id: s("o1"), flags, auth }
}

#[test]
fn marking_checks_flags_then_token_then_owner_then_writes() {
    let (st, out) = mark_step(MarkStage::Start, request(both(), Ok(s("tok"))));
    assert!(matches!(&out, MarkOutput::DecodeToken(t) if t == "tok"));
    let (st, out) = mark_step(st, MarkInput::Claims(Ok(s("u1"))));
    assert!(matches!(out, MarkOutput::ReadOwner));
    let (st, out) = mark_step(st, MarkInput::Owner(Some(s("u1"))));
    match out {
        MarkOutput::WriteEvent { order_id, flags } => {
            assert_eq!(order_id, s("o1"));
            assert_eq!(flags.event_type(), s("OrderProcessed"));
        }
        _ => panic!("expected a write"),
    }
    let (st, out) = mark_step(st, MarkInput::Written);
    assert!(matches!(out, MarkOutput::Respond));
    assert!(matches!(st, MarkStage::Done));
    let (st, out) = mark_step(st, MarkInput::Written);
    assert!(matches!(out, MarkOutput::Nothing));
    assert!(matches!(st, MarkStage::Done));
}

#[test]
fn marking_refuses_unset_flags_before_looking_at_the_token() {
    let (st, out) = mark_step(MarkStage::Start, request(Flags { processed: false, rejected: false }, Err(AuthError::Missing)));
    match out {
        MarkOutput::Refuse(r) => {
            assert!(matches!(r, MarkRefusal::Mark(MarkError::NoFlagSet)));
            assert_eq!(r.status(), 400);
            assert_eq!(r.message(), s("One of the flags should be set."));
        }
        _ => panic!("expected a refusal"),
    }
    assert!(matches!(st, MarkStage::Done));
    let (_, out) = mark_step(MarkStage::Start, request(both(), Err(AuthError::Missing)));
    match out {
        MarkOutput::Refuse(r) => {
            assert_eq!(r.status(), 401);
            assert_eq!(r.message(), s("Auth required."));
        }
        _ => panic!("expected a refusal"),
    }
}

#[test]
fn marking_refuses_a_bad_token_a_missing_order_and_a_stranger() {
    let (st, _) = mark_step(MarkStage::Start, request(both(), Ok(s("tok"))));
    let (_, out) = mark_step(st, MarkInput::Claims(Err(s("InvalidToken"))));
    match out {
        MarkOutput::Refuse(r) => {
            assert_eq!(r.status(), 400);
            assert_eq!(r.message(), s("InvalidToken"));
        }
        _ => panic!("expected a refusal"),
    }
    let (st, _) = mark_step(MarkStage::Start, request(both(), Ok(s("tok"))));
    let (st, _) = mark_step(st, MarkInput::Claims(Ok(s("u1"))));
    let (_, out) = mark_step(st, MarkInput::Owner(None));
    assert!(matches!(out, MarkOutput::Refuse(MarkRefusal::Mark(MarkError::OrderNotFound))));
    let (st, _) = mark_step(MarkStage::Start, request(both(), Ok(s("tok"))));
    let (st, _) = mark_step(st, MarkInput::Claims(Ok(s("u1"))));
    let (st, out) = mark_step(st, MarkInput::Owner(Some(s("u2"))));
    match out {
        MarkOutput::Refuse(r) => assert_eq!(r.status(), 401),
        _ => panic!("expected a refusal"),
    }
    let (_, out) = mark_step(st, MarkInput::Written);
    assert!(matches!(out, MarkOutput::Nothing));
}

fn change() -> UserModifiedData {
    UserModifiedData {
        name: s("Alice"),
        start_date: None,
        address: None,
        phone_number: None,
        username: s("alice"),
        email: s("alice@mail.com"),
        photo: None,
    }
}

#[test]
fn a_profile_change_is_saved_only_after_every_check() {
    let input = ModifyInput::Request { auth: Ok(s("tok")), data: Ok(change()) };
    let (st, out) = modify_step(ModifyStage::Start, input);
    assert!(matches!(&out, ModifyOutput::DecodeToken(t) if t == "tok"));
    let (st, out) = modify_step(st, ModifyInput::Claims(Ok(s("u1"))));
    assert!(matches!(&out, ModifyOutput::ReadOtherNames(id) if id == "u1"));
    let (st, out) = modify_step(st, ModifyInput::Names(vec![(s("bob"), s("bob@mail.com"))]));
    match out {
        ModifyOutput::Save { user_id, data } => {
            assert_eq!(user_id, s("u1"));
            assert_eq!(data, change());
        }
        _ => panic!("expected a save"),
    }
    let (st, out) = modify_step(st, ModifyInput::Saved);
    assert!(matches!(out, ModifyOutput::Respond));
    assert!(matches!(st, ModifyStage::Done));
}

#[test]
fn a_profile_change_checks_the_token_before_the_fields() {
    let input = ModifyInput::Request { auth: Err(AuthError::NotText), data: Err(s("bad field")) };
    let (st, out) = modify_step(ModifyStage::Start, input);
    match out {
        ModifyOutput::Refuse(r) => {
            assert!(matches!(r, ModifyRefusal::Auth(AuthError::NotText)));
            assert_eq!(r.status(), 400);
        }
        _ => panic!("expected a refusal"),
    }
    assert!(matches!(st, ModifyStage::Done));
    let input = ModifyInput::Request { auth: Ok(s("tok")), data: Err(s("bad field")) };
    let (st, _) = modify_step(ModifyStage::Start, input);
    let (_, out) = modify_step(st, ModifyInput::Claims(Ok(s("u1"))));
    match out {
        ModifyOutput::Refuse(r) => assert_eq!(r.message(), s("bad field")),
        _ => panic!("expected a refusal"),
    }
}

#[test]
fn a_profile_change_that_takes_a_name_is_refused_and_nothing_is_saved() {
    let input = ModifyInput::Request { auth: Ok(s("tok")), data: Ok(change()) };
    let (st, _) = modify_step(ModifyStage::Start, input);
    let (st, _) = modify_step(st, ModifyInput::Claims(Ok(s("u1"))));
    let (st, out) = modify_step(st, ModifyInput::Names(vec![(s("x"), s("alice@mail.com"))]));
    match out {
        ModifyOutput::Refuse(r) => {
            assert!(matches!(r, ModifyRefusal::Taken(UniquenessError::EmailExists)));
            assert_eq!(r.message(), s("email exists"));
        }
        _ => panic!("expected a refusal"),
    }
    let (_, out) = modify_step(st, ModifyInput::Saved);
    assert!(matches!(out, ModifyOutput::Nothing));
}

#[test]
fn an_order_is_completed_with_caller_owner_and_total() {
    let m = PlaceModel {
        customer_id: Some(s("spoofed")),
        date: Some(5),
        frame_color: Some(s("red")),
        frame_id: s("f1"),
        owner_id: None,
        quantity: 2,
        total_bits: None,
    };
    let r = complete_order(m, s("c1"), s("o1"), 40.0f32.to_bits());
    assert_eq!(r.customer_id, Some(s("c1")));
    assert_eq!(r.owner_id, Some(s("o1")));
    assert_eq!(r.total_bits, Some(40.0f32.to_bits()));
    assert_eq!(r.date, Some(5));
    assert_eq!(r.frame_color, Some(s("red")));
    assert_eq!(r.frame_id, s("f1"));
    assert_eq!(r.quantity, 2);
}

#[test]
fn a_frame_is_owned_by_the_caller() {
    let m = FrameModel {
        brand_name: s("Rayban"),
        colors: vec![s("black")],
        cover_image: None,
        description: None,
        has_case: false,
        materials: vec![s("metal")],
        model_name: s("Aviator"),
        other_images: vec![],
        owner_id: Some(s("spoofed")),
        price_bits: 1.5f32.to_bits(),
        privacy_mode: 1,
    };
    let r = with_owner(m.clone(), s("me"));
    assert_eq!(r.owner_id, Some(s("me")));
    assert_eq!(r.brand_name, m.brand_name);
    assert_eq!(r.colors, m.colors);
    assert_eq!(r.materials, m.materials);
    assert_eq!(r.price_bits, m.price_bits);
    assert_eq!(r.privacy_mode, m.privacy_mode);
}

fn registration() -> UserRegisteredData {
    UserRegisteredData {
        name: s("Alice"),
        start_date: None,
        address: None,
        phone_number: None,
        username: s("alice"),
        password: s("$2b$12$hash"),
        email: s("alice@mail.com"),
        photo: None,
    }
}

#[test]
fn a_registration_is_saved_only_after_its_checks() {
    let (st, out) = register_step(RegisterStage::Start, RegisterInput::Request(Err(s("Field 'name' is invalid."))));
    match out {
        RegisterOutput::Refuse(r) => assert_eq!(r.message(), s("Field 'name' is invalid.")),
        _ => panic!("expected a refusal"),
    }
    assert!(matches!(st, RegisterStage::Done));
    let (st, out) = register_step(RegisterStage::Start, RegisterInput::Request(Ok(registration())));
    assert!(matches!(out, RegisterOutput::ReadNames));
    let (_, out) = register_step(st, RegisterInput::Names(vec![(s("alice"), s("other@mail.com"))]));
    match out {
        RegisterOutput::Refuse(r) => assert_eq!(r.message(), s("username exists")),
        _ => panic!("expected a refusal"),
    }
    let (st, _) = register_step(RegisterStage::Start, RegisterInput::Request(Ok(registration())));
    let (st, out) = register_step(st, RegisterInput::Names(vec![(s("bob"), s("bob@mail.com"))]));
    match out {
        RegisterOutput::Save(d) => assert_eq!(d, registration()),
        _ => panic!("expected a save"),
    }
    let (st, out) = register_step(st, RegisterInput::Saved);
    assert!(matches!(out, RegisterOutput::Respond));
    assert!(matches!(st, RegisterStage::Done));
}
