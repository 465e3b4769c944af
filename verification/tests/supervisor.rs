use tide_panic::{react, Event, Reaction, Resolution};

#[test]
fn serving_that_ends_is_reported() {
    assert_eq!(react(Event::<String>::ServingEnded), Reaction::ReportTermination);
}

#[test]
fn an_escalated_fault_shuts_the_listener_down() {
    let decision = react(Event::Handle(Resolution::Escalated("Hello, world!".to_string())));
    assert_eq!(decision, Reaction::Shutdown("Hello, world!".to_string()));
}

#[test]
fn a_clean_close_calls_for_nothing() {
    assert_eq!(react(Event::<String>::Handle(Resolution::Closed)), Reaction::StandDown);
}

#[test]
fn a_pending_handle_means_waiting() {
    assert_eq!(react(Event::<String>::Handle(Resolution::Pending)), Reaction::Wait);
}
