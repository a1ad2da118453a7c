use herdr_mirror::connection::ClientError;
use herdr_mirror::protocol::ServerMessage;
use herdr_mirror::pump::{
    after_handler, control_burst, loop_gate, mirror_burst, waited, ClientLoopEvent, ControlBurst,
    EventQueue, LoopEnd, LoopFlow, MirrorBurst,
};
use herdr_mirror::schema::{EventData, EventEnvelope, EventKind};

fn mirror(terminal_id: &str) -> ClientLoopEvent {
    ClientLoopEvent::ServerMirror {
        terminal_id: terminal_id.to_string(),
        msg: ServerMessage::ReloadSoundConfig,
    }
}

fn control() -> ClientLoopEvent {
    ClientLoopEvent::ControlEvent(Box::new(EventEnvelope {
        event: EventKind::WorkspaceFocused,
        data: EventData::WorkspaceFocused { workspace_id: "w1".into() },
    }))
}

#[test]
fn put_back_events_come_before_the_channel() {
    let mut queue: EventQueue<u32> = EventQueue::new();
    assert_eq!(queue.next_event(), None);
    assert_eq!(queue.try_next(|| Some(7)), Some(7));
    assert_eq!(queue.try_next(|| None), None);
    queue.push_front(2);
    queue.push_front(1);
    assert_eq!(queue.try_next(|| Some(7)), Some(1));
    assert_eq!(queue.next_event(), Some(2));
    assert_eq!(queue.try_next(|| Some(7)), Some(7));
}

#[test]
fn a_wait_ends_with_an_event_or_a_tick() {
    assert!(matches!(
        waited(Some(Some(ClientLoopEvent::ControlDisconnected))),
        ClientLoopEvent::ControlDisconnected
    ));
    assert!(matches!(waited(Some(None)), ClientLoopEvent::Timer));
    assert!(matches!(waited(None), ClientLoopEvent::Timer));
}

#[test]
fn the_loop_ends_on_quit_break_or_error() {
    assert_eq!(loop_gate(true), Some(LoopEnd::Quit));
    assert_eq!(loop_gate(false), None);
    assert_eq!(after_handler(Ok(LoopFlow::Continue)), Ok(None));
    assert_eq!(after_handler(Ok(LoopFlow::Break)), Ok(Some(LoopEnd::Handler)));
    let lost = ClientError::ConnectionLost("gone".to_string());
    assert_eq!(after_handler(Err(lost.clone())), Err(lost));
}

#[test]
fn a_burst_takes_its_own_kind_only() {
    assert!(matches!(
        mirror_burst(Some(mirror("a"))),
        MirrorBurst::Apply { terminal_id, .. } if terminal_id == "a"
    ));
    assert!(matches!(
        mirror_burst(Some(ClientLoopEvent::Timer)),
        MirrorBurst::PutBack(ClientLoopEvent::Timer)
    ));
    assert!(matches!(mirror_burst(None), MirrorBurst::Over));
    assert!(matches!(control_burst(Some(control())), ControlBurst::Take(_)));
    assert!(matches!(
        control_burst(Some(mirror("a"))),
        ControlBurst::PutBack(ClientLoopEvent::ServerMirror { .. })
    ));
    assert!(matches!(control_burst(None), ControlBurst::Over));
}
