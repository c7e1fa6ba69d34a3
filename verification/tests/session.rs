use spark_ble::ble::scanner::{Peer, ScanHandler};
use spark_ble::ble::session::{
    SessionAction, SessionController, SessionEvent, SessionState, SessionStep, StatusLine,
    CONNECTION_INTERVAL_MS, FIRST_PRESET_DELAY_MS, MAX_LATENCY, PRESET_COUNT, PRESET_PERIOD_MS,
    SCAN_INTERVAL_MS, SCAN_TIMEOUT_MS, SCAN_WINDOW_MS, SUPERVISION_TIMEOUT_MS,
};
use spark_ble::ble::{
    enable_notifications_value, CLIENT_CHARACTERISTIC_CONFIGURATION, NOTIF_CHARACTERISTIC,
    SPARK_SERVICE_UUID, WRITE_CHARACTERISTIC,
};
use spark_ble::display::STATUS_LINE_CAPACITY;
use spark_ble::spark_message::SparkMsgEncoder;

const SPARK_ADV: [u8; 7] = [0x02, 0x01, 0x06, 0x03, 0x03, 0xC0, 0xFF];
const OTHER_ADV: [u8; 7] = [0x02, 0x01, 0x06, 0x03, 0x02, 0xC1, 0xFF];

fn report(addr: u8, data: &[u8]) -> SessionEvent {
    SessionEvent::AdvertisementReport { addr_kind: 1, addr: [addr; 6], data: data.to_vec() }
}

fn name_reply(sequence: u8, name: &str) -> Vec<u8> {
    let mut raw = vec![name.len() as u8];
    raw.extend_from_slice(name.as_bytes());
    let packed = SparkMsgEncoder::encode_7bit(&raw);
    let mut block = vec![0x01, 0xFE, 0x00, 0x00, 0x41, 0xFF, (23 + packed.len()) as u8];
    block.extend_from_slice(&[0; 9]);
    block.extend_from_slice(&[0xF0, 0x01, sequence, 0x00, 0x03, 0x11]);
    block.extend_from_slice(&packed);
    block.push(0xF7);
    block
}

fn is_nothing(step: &SessionStep) -> bool {
    matches!(step.action, SessionAction::Nothing) && step.status.is_none()
}

fn exchanging() -> SessionController {
    let mut c = SessionController::with_peer(Peer { addr_kind: 1, addr: [0xBA; 6] });
    c.step(SessionEvent::Start);
    c.step(SessionEvent::Connected);
    c.step(SessionEvent::Discovered);
    c.step(SessionEvent::Subscribed);
    assert_eq!(c.state(), SessionState::Exchanging);
    c
}

#[test]
fn scan_and_connection_parameters() {
    assert_eq!(SCAN_INTERVAL_MS, 1000);
    assert_eq!(SCAN_WINDOW_MS, 1000);
    assert_eq!(SCAN_TIMEOUT_MS, 30_000);
    assert_eq!(CONNECTION_INTERVAL_MS, 40);
    assert_eq!(MAX_LATENCY, 5);
    assert_eq!(SUPERVISION_TIMEOUT_MS, 10_000);
    assert_eq!(FIRST_PRESET_DELAY_MS, 4000);
    assert_eq!(PRESET_PERIOD_MS, 2000);
    assert_eq!(PRESET_COUNT, 4);
}

#[test]
fn gatt_surface() {
    assert_eq!(SPARK_SERVICE_UUID, 0xFFC0);
    assert_eq!(WRITE_CHARACTERISTIC, 0xFFC1);
    assert_eq!(NOTIF_CHARACTERISTIC, 0xFFC2);
    assert_eq!(CLIENT_CHARACTERISTIC_CONFIGURATION, 0x2902);
    assert_eq!(enable_notifications_value(), [0x01, 0x00]);
}

#[test]
fn scan_handler_keeps_first_match() {
    let mut handler = ScanHandler::new();
    assert!(!handler.found_device());
    assert_eq!(handler.get_device(), None);
    handler.on_adv_report(0, [1; 6], &OTHER_ADV);
    assert!(!handler.found_device());
    handler.on_adv_report(1, [2; 6], &SPARK_ADV);
    assert!(handler.found_device());
    assert_eq!(handler.get_device(), Some(Peer { addr_kind: 1, addr: [2; 6] }));
    handler.on_adv_report(0, [3; 6], &SPARK_ADV);
    assert_eq!(handler.get_device(), Some(Peer { addr_kind: 1, addr: [2; 6] }));
}

#[test]
fn scan_handler_ignores_malformed_reports() {
    let mut handler = ScanHandler::new();
    handler.on_adv_report(0, [1; 6], &[]);
    handler.on_adv_report(0, [1; 6], &[0x09, 0x03, 0xC0, 0xFF]);
    handler.on_adv_report(0, [1; 6], &[0x00, 0x03, 0x03, 0xC0, 0xFF]);
    assert!(!handler.found_device());
}

#[test]
fn scan_handler_with_known_device() {
    let peer = Peer { addr_kind: 1, addr: [0xBA, 0x79, 0x33, 0xED, 0xEB, 0xF7] };
    let mut handler = ScanHandler::with_device(peer);
    assert_eq!(handler.get_device(), Some(peer));
    handler.on_adv_report(0, [3; 6], &SPARK_ADV);
    assert_eq!(handler.get_device(), Some(peer));
}

#[test]
fn session_by_scanning() {
    let mut c = SessionController::new();
    assert_eq!(c.state(), SessionState::Idle);
    assert_eq!(c.peer(), None);

    let step = c.step(SessionEvent::Start);
    assert!(matches!(step.action, SessionAction::StartScan));
    assert!(step.status.is_none());
    assert_eq!(c.state(), SessionState::Scanning);

    assert!(is_nothing(&c.step(report(1, &OTHER_ADV))));
    assert!(is_nothing(&c.step(report(2, &[]))));
    assert_eq!(c.state(), SessionState::Scanning);

    let step = c.step(report(3, &SPARK_ADV));
    let peer = Peer { addr_kind: 1, addr: [3; 6] };
    assert!(matches!(step.action, SessionAction::Connect(p) if p == peer));
    assert!(matches!(step.status, Some(StatusLine::Connecting)));
    assert_eq!(c.state(), SessionState::Connecting);
    assert_eq!(c.peer(), Some(peer));

    assert!(is_nothing(&c.step(report(4, &SPARK_ADV))));
    assert_eq!(c.peer(), Some(peer));

    let step = c.step(SessionEvent::Connected);
    assert!(matches!(
        step.action,
        SessionAction::Discover {
            service: 0xFFC0,
            write_characteristic: 0xFFC1,
            notify_characteristic: 0xFFC2,
        }
    ));
    assert!(matches!(step.status, Some(StatusLine::Connected)));
    assert_eq!(c.state(), SessionState::Discovering);

    let step = c.step(SessionEvent::Discovered);
    assert!(matches!(
        step.action,
        SessionAction::Subscribe { descriptor: 0x2902, value: [0x01, 0x00] }
    ));
    assert!(step.status.is_none());
    assert_eq!(c.state(), SessionState::Subscribing);

    let step = c.step(SessionEvent::Subscribed);
    assert_eq!(c.state(), SessionState::Exchanging);
    assert!(step.status.is_none());
    match step.action {
        SessionAction::Write(blocks) => {
            assert_eq!(
                blocks,
                vec![vec![
                    0x01, 0xFE, 0x00, 0x00, 0x53, 0xFE, 0x17, 0, 0, 0, 0, 0, 0, 0, 0, 0, 0xF0,
                    0x01, 0x00, 0x00, 0x02, 0x11, 0xF7,
                ]]
            );
        }
        other => panic!("expected a write, got {:?}", other),
    }
}

#[test]
fn session_with_known_peer_skips_the_scan() {
    let peer = Peer { addr_kind: 1, addr: [0xBA, 0x79, 0x33, 0xED, 0xEB, 0xF7] };
    let mut c = SessionController::with_peer(peer);
    assert_eq!(c.state(), SessionState::Idle);
    assert_eq!(c.peer(), Some(peer));
    let step = c.step(SessionEvent::Start);
    assert!(matches!(step.action, SessionAction::Connect(p) if p == peer));
    assert!(matches!(step.status, Some(StatusLine::Connecting)));
    assert_eq!(c.state(), SessionState::Connecting);
}

#[test]
fn scan_timeout_fails_the_session() {
    let mut c = SessionController::new();
    c.step(SessionEvent::Start);
    let step = c.step(SessionEvent::ScanTimeout);
    assert!(matches!(step.action, SessionAction::Halt));
    assert_eq!(c.state(), SessionState::Failed);
    assert!(is_nothing(&c.step(report(3, &SPARK_ADV))));
    assert_eq!(c.state(), SessionState::Failed);
    assert_eq!(c.peer(), None);
}

#[test]
fn scan_timeout_outside_the_scan_is_ignored() {
    let mut c = exchanging();
    assert!(is_nothing(&c.step(SessionEvent::ScanTimeout)));
    assert_eq!(c.state(), SessionState::Exchanging);
}

#[test]
fn events_out_of_turn_are_ignored() {
    let mut c = SessionController::new();
    for event in [
        SessionEvent::Connected,
        SessionEvent::Discovered,
        SessionEvent::Subscribed,
        SessionEvent::Notification(name_reply(0, "Spark")),
        SessionEvent::PresetTimer,
        SessionEvent::ScanTimeout,
        SessionEvent::ConnectionLost,
        report(1, &SPARK_ADV),
    ] {
        assert!(is_nothing(&c.step(event)));
        assert_eq!(c.state(), SessionState::Idle);
    }
    c.step(SessionEvent::Start);
    for event in [SessionEvent::Start, SessionEvent::Connected, SessionEvent::Subscribed] {
        assert!(is_nothing(&c.step(event)));
        assert_eq!(c.state(), SessionState::Scanning);
    }
}

#[test]
fn transport_failure_fails_from_every_state() {
    let peer = Peer { addr_kind: 0, addr: [1; 6] };
    let prefixes: [&[SessionEvent]; 6] = [
        &[],
        &[SessionEvent::Start],
        &[SessionEvent::Start, SessionEvent::Connected],
        &[SessionEvent::Start, SessionEvent::Connected, SessionEvent::Discovered],
        &[
            SessionEvent::Start,
            SessionEvent::Connected,
            SessionEvent::Discovered,
            SessionEvent::Subscribed,
        ],
        &[SessionEvent::Start, SessionEvent::Connected, SessionEvent::ConnectionLost],
    ];
    for (i, prefix) in prefixes.iter().enumerate() {
        let mut c = SessionController::with_peer(peer);
        for event in prefix.iter() {
            c.step(event.clone());
        }
        let step = c.step(SessionEvent::TransportFailure);
        if i == 5 {
            assert!(is_nothing(&step));
            assert_eq!(c.state(), SessionState::Disconnected);
        } else {
            assert!(matches!(step.action, SessionAction::Halt));
            assert!(step.status.is_none());
            assert_eq!(c.state(), SessionState::Failed);
        }
    }
    let mut c = SessionController::new();
    c.step(SessionEvent::Start);
    c.step(SessionEvent::TransportFailure);
    assert_eq!(c.state(), SessionState::Failed);
}

#[test]
fn connection_loss_disconnects() {
    let mut c = exchanging();
    let step = c.step(SessionEvent::ConnectionLost);
    assert!(matches!(step.action, SessionAction::CancelTasks));
    assert_eq!(c.state(), SessionState::Disconnected);
    for event in [
        SessionEvent::PresetTimer,
        SessionEvent::Notification(name_reply(0, "Spark")),
        SessionEvent::Start,
        SessionEvent::Connected,
        SessionEvent::TransportFailure,
        SessionEvent::ConnectionLost,
    ] {
        assert!(is_nothing(&c.step(event)));
        assert_eq!(c.state(), SessionState::Disconnected);
    }
}

#[test]
fn connection_loss_without_connection_is_ignored() {
    let mut c = SessionController::new();
    c.step(SessionEvent::Start);
    assert!(is_nothing(&c.step(SessionEvent::ConnectionLost)));
    assert_eq!(c.state(), SessionState::Scanning);
    c.step(report(3, &SPARK_ADV));
    assert!(is_nothing(&c.step(SessionEvent::ConnectionLost)));
    assert_eq!(c.state(), SessionState::Connecting);
    c.step(SessionEvent::Connected);
    let step = c.step(SessionEvent::ConnectionLost);
    assert!(matches!(step.action, SessionAction::CancelTasks));
    assert_eq!(c.state(), SessionState::Disconnected);
}

#[test]
fn empty_advertisement_of_zero_service_is_no_match() {
    let mut c = SessionController::new();
    c.step(SessionEvent::Start);
    assert!(is_nothing(&c.step(report(1, &[]))));
    assert!(is_nothing(&c.step(report(1, &[0x02, 0x01, 0x06]))));
    assert!(is_nothing(&c.step(report(1, &[0x03, 0x03, 0xC1, 0xFF]))));
    assert_eq!(c.state(), SessionState::Scanning);
    assert_eq!(c.peer(), None);
}

#[test]
fn amp_name_reply_is_shown() {
    let mut c = exchanging();
    let step = c.step(SessionEvent::Notification(name_reply(0, "Spark")));
    assert!(matches!(step.action, SessionAction::Nothing));
    match step.status {
        Some(StatusLine::AmpName(name)) => assert_eq!(name, "Spark"),
        other => panic!("expected a name, got {:?}", other),
    }
    assert_eq!(c.state(), SessionState::Exchanging);
}

#[test]
fn other_notifications_are_invisible() {
    let mut c = exchanging();
    assert!(is_nothing(&c.step(SessionEvent::Notification(vec![]))));
    assert!(is_nothing(&c.step(SessionEvent::Notification(vec![0xFF; 40]))));
    let mut unknown = name_reply(0, "Spark");
    unknown[20] = 0x09;
    unknown[21] = 0x99;
    assert!(is_nothing(&c.step(SessionEvent::Notification(unknown))));
    let mut to_spark = name_reply(0, "Spark");
    to_spark[4] = 0x53;
    to_spark[5] = 0xFE;
    assert!(is_nothing(&c.step(SessionEvent::Notification(to_spark))));
    assert_eq!(c.state(), SessionState::Exchanging);
}

#[test]
fn presets_rotate_and_sequence_runs_on() {
    let mut c = exchanging();
    for (i, preset) in [1u8, 2, 3, 4, 1, 2].iter().enumerate() {
        let step = c.step(SessionEvent::PresetTimer);
        assert!(matches!(step.status, Some(StatusLine::HardwarePreset(p)) if p == *preset));
        match step.action {
            SessionAction::Write(blocks) => {
                assert_eq!(blocks.len(), 1);
                assert_eq!(blocks[0][18], 1 + i as u8);
                assert_eq!(&blocks[0][20..22], &[0x01, 0x38]);
                assert_eq!(&blocks[0][22..25], &[0x00, 0x00, *preset]);
            }
            other => panic!("expected a write, got {:?}", other),
        }
        assert_eq!(c.state(), SessionState::Exchanging);
    }
}

#[test]
fn status_texts() {
    assert_eq!(StatusLine::Connecting.text(), "Connecting...");
    assert_eq!(StatusLine::Connected.text(), "Connected!");
    assert_eq!(StatusLine::AmpName(String::from("Spark 40")).text(), "Spark 40");
    assert_eq!(StatusLine::HardwarePreset(1).text(), "Set Hardware preset: 1");
    assert_eq!(StatusLine::HardwarePreset(0).text(), "Set Hardware preset: 0");
    assert_eq!(StatusLine::HardwarePreset(10).text(), "Set Hardware preset: 10");
    assert_eq!(StatusLine::HardwarePreset(99).text(), "Set Hardware preset: 99");
    assert_eq!(StatusLine::HardwarePreset(100).text(), "Set Hardware preset: 100");
    assert_eq!(StatusLine::HardwarePreset(205).text(), "Set Hardware preset: 205");
    assert_eq!(StatusLine::HardwarePreset(255).text(), "Set Hardware preset: 255");
    for n in 0..=255u8 {
        assert_eq!(StatusLine::HardwarePreset(n).text(), format!("Set Hardware preset: {}", n));
        assert!(StatusLine::HardwarePreset(n).text().len() <= 40);
    }
}

#[test]
fn lines_for_the_display_queue() {
    assert_eq!(STATUS_LINE_CAPACITY, 40);
    let line = StatusLine::Connecting.to_display().expect("fits");
    assert_eq!(line.as_str(), "Connecting...");
    let line = StatusLine::Connected.to_display().expect("fits");
    assert_eq!(line.as_str(), "Connected!");
    for n in 0..=255u8 {
        let line = StatusLine::HardwarePreset(n).to_display().expect("fits");
        assert_eq!(line.as_str(), format!("Set Hardware preset: {}", n));
    }
    let line = StatusLine::AmpName(String::from("Spark 40")).to_display().expect("fits");
    assert_eq!(line.as_str(), "Spark 40");
    assert_eq!(line.capacity(), 40);
}

#[test]
fn names_longer_than_the_queue_takes() {
    let forty = "x".repeat(40);
    let line = StatusLine::AmpName(forty.clone()).to_display().expect("forty bytes fit");
    assert_eq!(line.as_str(), forty);
    assert!(StatusLine::AmpName("x".repeat(41)).to_display().is_none());
    let umlauts = "ä".repeat(20);
    assert_eq!(umlauts.len(), 40);
    assert!(StatusLine::AmpName(umlauts).to_display().is_some());
    let umlauts = "ä".repeat(21);
    assert_eq!(umlauts.chars().count(), 21);
    assert!(StatusLine::AmpName(umlauts).to_display().is_none());
    assert!(StatusLine::AmpName(String::new()).to_display().is_some());
}
