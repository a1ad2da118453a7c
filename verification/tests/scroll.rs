use herdr_mirror::pane::{InputState, MouseProtocolEncoding, MouseProtocolMode};
use herdr_mirror::protocol::AttachScrollSource;
use herdr_mirror::scroll::{scroll_disposition, ScrollDisposition};

fn host_scrollback_state() -> InputState {
    InputState {
        alternate_screen: false,
        application_cursor: false,
        bracketed_paste: false,
        focus_reporting: false,
        mouse_protocol_mode: MouseProtocolMode::Off,
        mouse_protocol_encoding: MouseProtocolEncoding::Default,
        mouse_alternate_scroll: false,
        modify_other_keys: false,
    }
}

#[test]
fn wheel_always_scrolls_locally() {
    assert_eq!(
        scroll_disposition(&AttachScrollSource::Wheel, None),
        ScrollDisposition::Local
    );
    assert_eq!(
        scroll_disposition(&AttachScrollSource::Wheel, Some(host_scrollback_state())),
        ScrollDisposition::Local
    );
}

#[test]
fn page_keys_scroll_locally_only_for_host_scrollback_state() {
    let page = AttachScrollSource::PageKey { input: vec![0x1b] };
    assert_eq!(
        scroll_disposition(&page, Some(host_scrollback_state())),
        ScrollDisposition::Local
    );
    assert_eq!(
        scroll_disposition(
            &page,
            Some(InputState { application_cursor: true, ..host_scrollback_state() })
        ),
        ScrollDisposition::ForwardToServer
    );
    assert_eq!(scroll_disposition(&page, None), ScrollDisposition::ForwardToServer);
}

#[test]
fn page_keys_go_to_a_full_screen_application() {
    let page = AttachScrollSource::PageKey { input: Vec::new() };
    assert_eq!(
        scroll_disposition(
            &page,
            Some(InputState { alternate_screen: true, ..host_scrollback_state() })
        ),
        ScrollDisposition::ForwardToServer
    );
}

#[test]
fn mouse_reporting_follows_the_protocol_mode() {
    assert!(!host_scrollback_state().mouse_reporting_enabled());
    let on = InputState {
        mouse_protocol_mode: MouseProtocolMode::AnyMotion,
        ..host_scrollback_state()
    };
    assert!(on.mouse_reporting_enabled());
}
