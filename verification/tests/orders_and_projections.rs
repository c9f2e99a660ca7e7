use optic_mart::order_command::order::mark::{check_owner, MarkError, WebModel as MarkModel};
use optic_mart::order_command::order::place::{OrderPlacedData, WebModel as PlaceModel};
use optic_mart::order_query::event::OrderPlacedData as StoredOrderData;
use optic_mart::order_query::order::Order;
use optic_mart::order_query::projection::{order_event_kind, status_change, OrderEventKind, OrderProjection, OrderRow};
use optic_mart::projection::{Tracker, EPOCH_MICROS};
use optic_mart::user_query::event::{UserModifiedData, UserRegisteredData};
use optic_mart::user_query::projection::{user_event_kind, UserEventKind, UserProjection, UserRow, UserUpdate};
use optic_mart::user_query::user::get::get_all_body;
use optic_mart::user_query::user::search::Info;
use optic_mart::user_query::user::User;

fn s(x: &str) -> String {
    x.to_string()
}

fn place_model() -> PlaceModel {
    PlaceModel {
        customer_id: Some(s("c1")),
        date: None,
        frame_color: Some(s("red")),
        frame_id: s("f1"),
        owner_id: Some(s("o1")),
        quantity: 3,
        total_bits: Some(30.0f32.to_bits()),
    }
}

#[test]
fn a_complete_order_becomes_its_event_body() {
    let d = OrderPlacedData::try_from(place_model()).unwrap();
    assert_eq!(d.customer_id, s("c1"));
    assert_eq!(d.owner_id, s("o1"));
    assert_eq!(d.frame_id, s("f1"));
    assert_eq!(d.quantity, 3);
    assert_eq!(f32::from_bits(d.total_bits), 30.0);
}

#[test]
fn an_incomplete_order_names_its_first_missing_part() {
    let mut m = place_model();
    m.customer_id = None;
    m.total_bits = None;
    assert_eq!(OrderPlacedData::try_from(m), Err(s("Missing customer_id")));
    let mut m = place_model();
    m.owner_id = None;
    m.total_bits = None;
    assert_eq!(OrderPlacedData::try_from(m), Err(s("Missing owner_id")));
    let mut m = place_model();
    m.total_bits = None;
    assert_eq!(OrderPlacedData::try_from(m), Err(s("Missing total")));
}

#[test]
fn marking_needs_a_flag_and_the_owner() {
    let none = MarkModel { processed: false, rejected: false };
    assert_eq!(none.check_flags(), Err(MarkError::NoFlagSet));
    assert_eq!(MarkError::NoFlagSet.message().as_str(), "One of the flags should be set.");
    let both = MarkModel { processed: true, rejected: true };
    assert_eq!(both.check_flags(), Ok(()));
    assert_eq!(both.event_type().as_str(), "OrderProcessed");
    let rejected = MarkModel { processed: false, rejected: true };
    assert_eq!(rejected.event_type().as_str(), "OrderRejected");
    assert_eq!(check_owner(None, "u"), Err(MarkError::OrderNotFound));
    assert_eq!(check_owner(Some(s("v")), "u"), Err(MarkError::NotOwner));
    assert_eq!(check_owner(Some(s("u")), "u"), Ok(()));
    assert_eq!(MarkError::OrderNotFound.message().as_str(), "Order not found.");
    assert_eq!(
        MarkError::NotOwner.message().as_str(),
        "You need to be the owner of the frame in order to mark its orders."
    );
}

#[test]
fn watermark_is_the_latest_tracked_time_or_the_epoch() {
    let mut t = Tracker::new();
    assert_eq!(t.watermark(), EPOCH_MICROS);
    assert_eq!(EPOCH_MICROS, 0);
    t.track(s("a"), 10);
    t.track(s("b"), 30);
    t.track(s("c"), 20);
    assert_eq!(t.watermark(), 30);
    assert!(t.contains("b"));
    assert!(!t.contains("d"));
    t.track(s("b"), 5);
    assert_eq!(t.watermark(), 20);
    let mut ids = t.entity_ids();
    ids.sort();
    assert_eq!(ids, vec![s("a"), s("b"), s("c")]);
    t.track(s("z"), 40);
    assert_eq!(t.watermark(), 40);
}

#[test]
fn tracking_times_before_the_epoch() {
    let mut t = Tracker::new();
    t.track(s("a"), -50);
    assert_eq!(t.watermark(), -50);
}

#[test]
fn order_events_are_classified_by_type() {
    assert_eq!(order_event_kind("OrderPlaced"), OrderEventKind::Placed);
    assert_eq!(order_event_kind("OrderProcessed"), OrderEventKind::Processed);
    assert_eq!(order_event_kind("OrderRejected"), OrderEventKind::Rejected);
    assert_eq!(order_event_kind("OrderShipped"), OrderEventKind::Unknown);
    assert_eq!(status_change(OrderEventKind::Processed), Some((true, false)));
    assert_eq!(status_change(OrderEventKind::Rejected), Some((false, true)));
    assert_eq!(status_change(OrderEventKind::Placed), None);
    assert_eq!(status_change(OrderEventKind::Unknown), None);
}

#[test]
fn a_placed_order_is_stored_unmarked_and_read_back() {
    let body = StoredOrderData {
        customer_id: s("c"),
        date: Some(18_000),
        frame_color: None,
        frame_id: s("f"),
        owner_id: s("o"),
        quantity: 2,
        total_bits: 9.5f32.to_bits(),
    };
    let row = OrderRow::placed(s("order-1"), body, 77);
    assert!(!row.processed && !row.rejected);
    assert_eq!(row.updated_at, 77);
    let o = Order::from_row(row);
    assert_eq!(o.id, s("order-1"));
    assert_eq!(o.date, Some(18_000));
    assert_eq!(o.quantity, 2);
    assert!(!o.processed);
}

#[test]
fn the_order_projection_reads_after_what_it_applied() {
    let mut p = OrderProjection::new();
    assert_eq!(p.read_after(), 0);
    p.applied(s("o1"), 100);
    p.applied(s("o2"), 250);
    assert_eq!(p.read_after(), 250);
    p.applied(s("o1"), 300);
    assert_eq!(p.read_after(), 300);
}

#[test]
fn user_events_are_classified_by_type() {
    assert_eq!(user_event_kind("UserRegistered"), UserEventKind::Registered);
    assert_eq!(user_event_kind("UserModified"), UserEventKind::Modified);
    assert_eq!(user_event_kind("UserLoggedIn"), UserEventKind::Unknown);
}

#[test]
fn user_rows_from_events() {
    let reg = UserRegisteredData {
        name: s("Al"),
        start_date: Some(3),
        address: None,
        phone_number: None,
        username: s("al"),
        password: s("hash"),
        email: s("al@x.io"),
        photo: None,
    };
    let row = UserRow::registered(s("u1"), reg, 9);
    assert_eq!(row.username, s("al"));
    assert_eq!(row.updated_at, 9);
    let u = User::from_row(row);
    assert_eq!(u.id, s("u1"));
    assert_eq!(u.email, s("al@x.io"));
    let m = UserModifiedData {
        name: s("Al2"),
        start_date: Some(5),
        address: Some(s("a")),
        phone_number: None,
        username: s("al2"),
        email: s("al2@x.io"),
        photo: None,
    };
    let up = UserUpdate::modified(s("u1"), m, 11);
    assert_eq!(up.entity_id, s("u1"));
    assert_eq!(up.name, s("Al2"));
    assert_eq!(up.updated_at, 11);
    let mut p = UserProjection::new();
    p.applied(s("u1"), 9);
    p.applied(s("u1"), 11);
    assert_eq!(p.read_after(), 11);
}

#[test]
fn user_search_uses_the_term_as_is() {
    assert_eq!(Info { term: s("al%") }.like_pattern().as_str(), "al%");
    assert_eq!(get_all_body().as_str(), "[\n    \"me\",\n    \"you\",\n    \"others\",\n]");
}

#[test]
fn an_order_is_never_both_processed_and_rejected() {
    let body = StoredOrderData {
        customer_id: s("c"),
        date: None,
        frame_color: None,
        frame_id: s("f"),
        owner_id: s("o"),
        quantity: 1,
        total_bits: 0,
    };
    let mut row = OrderRow::placed(s("o1"), body, 1);
    assert!(!(row.processed && row.rejected));
    for t in ["OrderProcessed", "OrderRejected", "Other", "OrderProcessed", "OrderRejected"] {
        if let Some((p, r)) = status_change(order_event_kind(t)) {
            row.processed = p;
            row.rejected = r;
        }
        assert!(!(row.processed && row.rejected));
    }
    assert!(!row.processed);
    assert!(row.rejected);
}

#[test]
fn a_round_read_in_insertion_order_is_not_read_again() {
    let mut p = OrderProjection::new();
    let w0 = p.read_after();
    assert_eq!(w0, EPOCH_MICROS);
    for (id, at) in [("o1", 10), ("o2", 20), ("o1", 30)] {
        assert!(at > w0);
        p.applied(s(id), at);
    }
    let w1 = p.read_after();
    assert_eq!(w1, 30);
    for at in [10, 20, 30] {
        assert!(at <= w1);
    }
    p.applied(s("o3"), 31);
    assert_eq!(p.read_after(), 31);
}

#[test]
fn the_user_row_does_not_depend_on_the_password() {
    let body = |password: &str| UserRegisteredData {
        name: s("Al"),
        start_date: None,
        address: None,
        phone_number: None,
        username: s("al"),
        password: s(password),
        email: s("al@x.io"),
        photo: None,
    };
    let a = UserRow::registered(s("u1"), body("$2b$12$aaaa"), 4);
    let b = UserRow::registered(s("u1"), body("other"), 4);
    assert_eq!(a, b);
}
