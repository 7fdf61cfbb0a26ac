use session_messaging::budget::{SessionMessageBudget, OUTBOUND_MESSAGE_LIMIT};

fn exhaust(budget: &mut SessionMessageBudget) {
    for _ in 0..OUTBOUND_MESSAGE_LIMIT {
        let committed = budget.reserve().expect("reservation").commit();
        budget.release(committed);
    }
}

#[test]
fn committed_reservations_exhaust_the_budget() {
    let mut budget = SessionMessageBudget::default();
    exhaust(&mut budget);
    assert!(budget.reserve().is_none());
}

#[test]
fn uncommitted_reservation_is_refunded() {
    let mut budget = SessionMessageBudget::default();
    let reservation = budget.reserve().expect("reservation");
    budget.release(reservation);
    exhaust(&mut budget);
    assert!(budget.reserve().is_none());
}

#[test]
fn reset_starts_a_new_epoch_without_stale_refunds() {
    let mut budget = SessionMessageBudget::default();
    let stale_reservation = budget.reserve().expect("reservation");
    budget.reset();
    exhaust(&mut budget);
    budget.release(stale_reservation);
    assert!(budget.reserve().is_none());
    budget.reset();
    assert!(budget.reserve().is_some());
}

#[test]
fn interleaved_requests_get_no_more_slots_than_there_are() {
    let mut budget = SessionMessageBudget::default();
    let requests = (0..32).map(|_| budget.reserve()).collect::<Vec<_>>();
    let mut accepted = 0;
    for reservation in requests.into_iter().flatten() {
        budget.release(reservation.commit());
        accepted += 1;
    }
    assert_eq!(accepted, OUTBOUND_MESSAGE_LIMIT);
    assert!(budget.reserve().is_none());
}

#[test]
fn the_limit_is_four() {
    assert_eq!(OUTBOUND_MESSAGE_LIMIT, 4);
}

#[test]
fn state_counts_slots_and_epochs() {
    let mut budget = SessionMessageBudget::default();
    assert_eq!((budget.state().epoch, budget.state().reservations), (0, 0));
    let first = budget.reserve().expect("reservation");
    let second = budget.reserve().expect("reservation");
    assert_eq!((budget.state().epoch, budget.state().reservations), (0, 2));
    budget.release(first);
    assert_eq!((budget.state().epoch, budget.state().reservations), (0, 1));
    budget.release(second.commit());
    assert_eq!((budget.state().epoch, budget.state().reservations), (0, 1));
    budget.reset();
    assert_eq!((budget.state().epoch, budget.state().reservations), (1, 0));
}

#[test]
fn refund_looks_at_the_epoch_and_stops_at_zero() {
    let mut budget = SessionMessageBudget::default();
    let _open = budget.reserve().expect("reservation");
    budget.refund(7);
    assert_eq!(budget.state().reservations, 1);
    budget.refund(0);
    assert_eq!(budget.state().reservations, 0);
    budget.refund(0);
    assert_eq!(budget.state().reservations, 0);
}

#[test]
fn an_abandoned_slot_makes_room_for_another_message() {
    let mut budget = SessionMessageBudget::default();
    for _ in 0..OUTBOUND_MESSAGE_LIMIT - 1 {
        let committed = budget.reserve().expect("reservation").commit();
        budget.release(committed);
    }
    let open = budget.reserve().expect("reservation");
    assert!(budget.reserve().is_none());
    budget.release(open);
    assert!(budget.reserve().is_some());
}
