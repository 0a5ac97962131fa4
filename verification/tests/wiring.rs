use handler_pipeline::channel::event::{notice, Cause, EventKind};
use handler_pipeline::channel::handler::HandlerDir;
use handler_pipeline::channel::wiring::{
    first_inbound_from, inbound_links, last_outbound_before, outbound_links,
};

#[test]
fn directions_say_what_they_take() {
    assert!(HandlerDir::IN.is_inbound());
    assert!(!HandlerDir::IN.is_outbound());
    assert!(!HandlerDir::OUT.is_inbound());
    assert!(HandlerDir::OUT.is_outbound());
    assert!(HandlerDir::BOTH.is_inbound());
    assert!(HandlerDir::BOTH.is_outbound());
}

#[test]
fn kinds_have_one_direction() {
    let inbound = [
        EventKind::Read,
        EventKind::ReadEof,
        EventKind::ReadError,
        EventKind::TransportActive,
        EventKind::TransportInactive,
    ];
    for kind in inbound {
        assert!(kind.is_inbound());
        assert!(!kind.is_outbound());
    }
    for kind in [EventKind::Write, EventKind::WriteError, EventKind::Close] {
        assert!(!kind.is_inbound());
        assert!(kind.is_outbound());
    }
}

#[test]
fn notices_name_the_event() {
    assert_eq!(notice(EventKind::Read), "read reached end of pipeline");
    assert_eq!(notice(EventKind::ReadEof), "read_eof reached end of pipeline");
    assert_eq!(notice(EventKind::ReadError), "read_error reached end of pipeline");
    assert_eq!(notice(EventKind::TransportActive), "transport_active reached end of pipeline");
    assert_eq!(
        notice(EventKind::TransportInactive),
        "transport_inactive reached end of pipeline"
    );
    assert_eq!(notice(EventKind::Write), "write reached end of pipeline");
    assert_eq!(notice(EventKind::WriteError), "write_error reached end of pipeline");
    assert_eq!(notice(EventKind::Close), "close reached end of pipeline");
}

#[test]
fn cause_keeps_its_message() {
    let cause = Cause::new(String::from("connection reset"));
    assert_eq!(cause.message(), "connection reset");
}

#[test]
fn inbound_pass_links_each_inbound_position_to_the_next() {
    let dirs = vec![HandlerDir::IN, HandlerDir::BOTH, HandlerDir::OUT];
    assert_eq!(inbound_links(&dirs), vec![Some(1), None, None]);
    let dirs = vec![
        HandlerDir::OUT,
        HandlerDir::IN,
        HandlerDir::OUT,
        HandlerDir::OUT,
        HandlerDir::BOTH,
        HandlerDir::IN,
        HandlerDir::OUT,
    ];
    assert_eq!(inbound_links(&dirs), vec![None, Some(4), None, None, Some(5), None, None]);
}

#[test]
fn outbound_pass_links_each_outbound_position_to_the_one_before() {
    let dirs = vec![HandlerDir::IN, HandlerDir::BOTH, HandlerDir::OUT];
    assert_eq!(outbound_links(&dirs), vec![None, None, Some(1)]);
    let dirs = vec![
        HandlerDir::OUT,
        HandlerDir::IN,
        HandlerDir::OUT,
        HandlerDir::OUT,
        HandlerDir::BOTH,
        HandlerDir::IN,
        HandlerDir::OUT,
    ];
    assert_eq!(outbound_links(&dirs), vec![None, None, Some(0), Some(2), Some(3), None, Some(4)]);
}

#[test]
fn passes_over_an_empty_chain_give_no_links() {
    let dirs: Vec<HandlerDir> = Vec::new();
    assert_eq!(inbound_links(&dirs), Vec::<Option<usize>>::new());
    assert_eq!(outbound_links(&dirs), Vec::<Option<usize>>::new());
    assert_eq!(first_inbound_from(&dirs, 0), None);
    assert_eq!(last_outbound_before(&dirs, 0), None);
}

#[test]
fn chain_of_one_direction_only() {
    let dirs = vec![HandlerDir::OUT, HandlerDir::OUT];
    assert_eq!(inbound_links(&dirs), vec![None, None]);
    assert_eq!(outbound_links(&dirs), vec![None, Some(0)]);
    assert_eq!(first_inbound_from(&dirs, 0), None);
    assert_eq!(last_outbound_before(&dirs, 2), Some(1));
    let dirs = vec![HandlerDir::IN, HandlerDir::IN];
    assert_eq!(inbound_links(&dirs), vec![Some(1), None]);
    assert_eq!(outbound_links(&dirs), vec![None, None]);
    assert_eq!(first_inbound_from(&dirs, 0), Some(0));
    assert_eq!(last_outbound_before(&dirs, 2), None);
}

#[test]
fn entries_are_the_nearest_positions_that_take_the_event() {
    let dirs = vec![HandlerDir::OUT, HandlerDir::IN, HandlerDir::BOTH, HandlerDir::IN];
    assert_eq!(first_inbound_from(&dirs, 0), Some(1));
    assert_eq!(first_inbound_from(&dirs, 1), Some(1));
    assert_eq!(first_inbound_from(&dirs, 2), Some(2));
    assert_eq!(first_inbound_from(&dirs, 4), None);
    assert_eq!(first_inbound_from(&dirs, 9), None);
    assert_eq!(last_outbound_before(&dirs, 4), Some(2));
    assert_eq!(last_outbound_before(&dirs, 2), Some(0));
    assert_eq!(last_outbound_before(&dirs, 0), None);
}
