use clipboard_history::handlers::{DataControlOfferHandler, DataDeviceHandler, Fetch, WlSeatHandler};
use clipboard_history::manager::{next_manager_step, BindOutcome, ManagerStep};
use clipboard_history::seat_data::SeatData;

#[test]
fn selection_supersedes_previous_offer() {
    let mut seat = SeatData::new();
    let mut handler = DataDeviceHandler::new(false);
    assert_eq!(handler.selection(&mut seat, Some(7)), Some(Fetch { offer: 7, release: None }));
    assert_eq!(handler.selection(&mut seat, Some(9)), Some(Fetch { offer: 9, release: Some(7) }));
    assert_eq!(seat.offer, Some(9));
}

#[test]
fn cleared_selection_is_ignored() {
    let mut seat = SeatData::new();
    let mut handler = DataDeviceHandler::new(true);
    handler.selection(&mut seat, Some(3));
    assert_eq!(handler.selection(&mut seat, None), None);
    assert_eq!(seat.offer, Some(3));
}

#[test]
fn primary_selection_is_gated() {
    let mut seat = SeatData::new();
    let mut off = DataDeviceHandler::new(false);
    assert_eq!(off.primary_selection(&mut seat, Some(4)), None);
    assert_eq!(seat.offer, None);
    let mut on = DataDeviceHandler::new(true);
    assert_eq!(on.primary_selection(&mut seat, Some(4)), Some(Fetch { offer: 4, release: None }));
    assert_eq!(seat.offer, Some(4));
}

#[test]
fn finished_releases_device() {
    let mut seat = SeatData::new();
    assert_eq!(seat.set_device(Some(11)), None);
    let mut handler = DataDeviceHandler::new(false);
    assert_eq!(handler.finished(&mut seat), Some(11));
    assert_eq!(seat.device, None);
    assert_eq!(handler.finished(&mut seat), None);
}

#[test]
fn seat_setters() {
    let mut seat = SeatData::new();
    WlSeatHandler.name(&mut seat, "seat0".to_string());
    assert_eq!(seat.name, Some("seat0".to_string()));
    assert_eq!(seat.set_offer(Some(1)), None);
    assert_eq!(seat.set_offer(None), Some(1));
    assert_eq!(seat.offer, None);
}

#[test]
fn mime_types_are_kept_once() {
    let mut types = Vec::new();
    let mut h = DataControlOfferHandler;
    h.offer(&mut types, "text/plain".to_string());
    h.offer(&mut types, "text/html".to_string());
    h.offer(&mut types, "text/plain".to_string());
    assert_eq!(types, vec!["text/plain".to_string(), "text/html".to_string()]);
}

#[test]
fn manager_negotiation() {
    assert_eq!(
        next_manager_step(2, BindOutcome::Bound),
        ManagerStep::Use { version: 2, supports_primary: true }
    );
    assert_eq!(next_manager_step(2, BindOutcome::VersionTooLow), ManagerStep::Retry { version: 1 });
    assert_eq!(
        next_manager_step(1, BindOutcome::Bound),
        ManagerStep::Use { version: 1, supports_primary: false }
    );
    assert_eq!(next_manager_step(1, BindOutcome::VersionTooLow), ManagerStep::Fail);
    assert_eq!(next_manager_step(2, BindOutcome::Missing), ManagerStep::Fail);
}
