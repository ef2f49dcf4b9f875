use conn_dispatch::session::{
    server_settings, Phase, Session, DEFAULT_TABLE_SIZE, HEADER_TABLE_SIZE, INITIAL_WINDOW_SIZE,
    MAX_FRAME_SIZE, UPGRADE_STREAM_ID,
};

#[test]
fn server_settings_are_the_fixed_configuration() {
    let s = server_settings();
    assert_eq!(s.header_table_size, Some(16777215));
    assert_eq!(s.enable_push, None);
    assert_eq!(s.max_concurrent_streams, None);
    assert_eq!(s.initial_window_size, Some(65535));
    assert_eq!(s.max_frame_size, Some(65535));
    assert_eq!(s.max_header_list_size, None);
    assert_eq!(HEADER_TABLE_SIZE, 16777215);
    assert_eq!(INITIAL_WINDOW_SIZE, 65535);
    assert_eq!(MAX_FRAME_SIZE, 65535);
}

#[test]
fn new_session_is_unstarted() {
    let s = Session::new();
    assert!(matches!(s.phase, Phase::Init));
    assert!(!s.settings_sent);
    assert_eq!(s.hpack_max, DEFAULT_TABLE_SIZE);
    assert!(s.dispatched.is_empty());
}

#[test]
fn settings_go_out_before_any_stream_is_dispatched() {
    // ALPN negotiated "h2": the session enters Init directly, and the
    // SETTINGS frame is recorded as sent before the first dispatch.
    let mut s = Session::new();
    assert!(s.dispatched.is_empty());
    s.complete_init(HEADER_TABLE_SIZE);
    assert!(s.settings_sent);
    assert!(matches!(s.phase, Phase::Running));
    assert_eq!(s.hpack_max, HEADER_TABLE_SIZE);
    assert!(s.dispatched.is_empty());
    let d = s.dispatch_batch(&vec![1]);
    assert_eq!(d, vec![1]);
}

#[test]
fn dispatch_batch_takes_each_stream_once() {
    let mut s = Session::new();
    s.complete_init(HEADER_TABLE_SIZE);
    let first = s.dispatch_batch(&vec![1, 3, 5]);
    assert_eq!(first, vec![1, 3, 5]);
    // Stream 3 shows up again in a later batch: only the fresh id 7 is
    // dispatched.
    let second = s.dispatch_batch(&vec![3, 7]);
    assert_eq!(second, vec![7]);
    assert_eq!(s.dispatched, vec![1, 3, 5, 7]);
    assert!(s.contains_stream(3));
    assert!(!s.contains_stream(9));
}

#[test]
fn duplicate_ids_inside_one_batch_dispatch_once() {
    let mut s = Session::new();
    s.complete_init(HEADER_TABLE_SIZE);
    let d = s.dispatch_batch(&vec![5, 5, 5]);
    assert_eq!(d, vec![5]);
}

#[test]
fn empty_batch_closes_the_session() {
    let mut s = Session::new();
    s.complete_init(HEADER_TABLE_SIZE);
    let go_on = s.on_read(true, 0);
    assert!(!go_on);
    assert!(matches!(s.phase, Phase::Closed));
}

#[test]
fn read_failure_closes_the_session() {
    let mut s = Session::new();
    s.complete_init(HEADER_TABLE_SIZE);
    let go_on = s.on_read(false, 4);
    assert!(!go_on);
    assert!(matches!(s.phase, Phase::Closed));
}

#[test]
fn nonempty_batch_keeps_the_session_running() {
    let mut s = Session::new();
    s.complete_init(HEADER_TABLE_SIZE);
    let go_on = s.on_read(true, 2);
    assert!(go_on);
    assert!(matches!(s.phase, Phase::Running));
}

#[test]
fn h2c_session_services_the_upgrade_as_stream_one() {
    let (s, first) = Session::start_h2c();
    assert_eq!(first, UPGRADE_STREAM_ID);
    assert_eq!(first, 1);
    assert!(s.settings_sent);
    assert!(matches!(s.phase, Phase::Running));
    assert_eq!(s.hpack_max, HEADER_TABLE_SIZE);
    assert_eq!(s.dispatched, vec![1]);
}

#[test]
fn h2c_session_never_redispatches_stream_one() {
    let (mut s, _first) = Session::start_h2c();
    // The first real frame batch makes streams 1 and 3 dispatchable;
    // stream 1 already ran as the upgrade request.
    let d = s.dispatch_batch(&vec![1, 3]);
    assert_eq!(d, vec![3]);
}
