//! The session with the amplifier, as a state machine.
//!
//! A session goes from `Idle` through scanning, connecting, discovery and
//! subscription to the exchange of messages. The controller decides; it
//! does no radio work itself. Whoever drives it performs the action that
//! a step asks for, shows the status line that comes with it, and hands
//! back what happened as the next event.

use crate::ble::scanner::{advertises_spark, Peer, ScanHandler};
use crate::ble::{
    enable_notifications_value, CLIENT_CHARACTERISTIC_CONFIGURATION, NOTIF_CHARACTERISTIC,
    SPARK_SERVICE_UUID, WRITE_CHARACTERISTIC,
};
use crate::display::{array_string_from, display_text, DisplayString, STATUS_LINE_CAPACITY};
use crate::spark_message::{
    block_seqs, decode_message, message_blocks, sequence_after, AppToSparkMsg, SparkMsgDecoder,
    SparkMsgEncoder, SparkToAppMsg, SparkToAppMsgView,
};
use vstd::prelude::*;
use vstd::string::StringExecFns;
use vstd::utf8::{encode_utf8, is_ascii_chars, is_ascii_chars_encode_utf8};

verus! {

/// Interval and window of the active scan, in milliseconds.
pub const SCAN_INTERVAL_MS: u64 = 1000;

pub const SCAN_WINDOW_MS: u64 = 1000;

/// How long a scan may go on without an advertisement of the amplifier,
/// in milliseconds; after that the scan has timed out. The length is
/// this client's own choice: the amplifier asks for none.
pub const SCAN_TIMEOUT_MS: u64 = 30_000;

/// Smallest and largest connection interval, in milliseconds.
pub const CONNECTION_INTERVAL_MS: u64 = 40;

/// Connection events that the amplifier may skip.
pub const MAX_LATENCY: u16 = 5;

/// Time without contact after which the connection counts as lost, in
/// milliseconds.
pub const SUPERVISION_TIMEOUT_MS: u64 = 10_000;

/// Time between the start of the exchange and the first preset change,
/// and between one preset change and the next, in milliseconds.
pub const FIRST_PRESET_DELAY_MS: u64 = 4000;

pub const PRESET_PERIOD_MS: u64 = 2000;

/// The hardware presets that the rotation goes through, from 1 up.
pub const PRESET_COUNT: u8 = 4;

/// Where a session stands.
#[derive(Clone, Copy, Debug, PartialEq, Eq, Structural)]
pub enum SessionState {
    Idle,
    Scanning,
    Connecting,
    Discovering,
    Subscribing,
    Exchanging,
    Disconnected,
    Failed,
}

impl SessionState {
    /// Whether the session is over.
    pub open spec fn is_terminal(self) -> bool {
        self == SessionState::Disconnected || self == SessionState::Failed
    }

    /// Whether a connection to the amplifier is open.
    pub open spec fn is_connected(self) -> bool {
        self == SessionState::Discovering || self == SessionState::Subscribing || self
            == SessionState::Exchanging
    }

    /// How far a session in this state has come.
    pub open spec fn rank(self) -> nat {
        match self {
            SessionState::Idle => 0,
            SessionState::Scanning => 1,
            SessionState::Connecting => 2,
            SessionState::Discovering => 3,
            SessionState::Subscribing => 4,
            SessionState::Exchanging => 5,
            SessionState::Disconnected => 6,
            SessionState::Failed => 6,
        }
    }
}

/// What happened outside the controller.
#[derive(Clone, Debug)]
pub enum SessionEvent {
    /// The session is to begin.
    Start,
    /// The scan reported an advertisement.
    AdvertisementReport { addr_kind: u8, addr: [u8; 6], data: Vec<u8> },
    /// The scan ran for its full time.
    ScanTimeout,
    /// The connection is open.
    Connected,
    /// The service and its two characteristics were found.
    Discovered,
    /// Notifications are enabled.
    Subscribed,
    /// The amplifier notified a block.
    Notification(Vec<u8>),
    /// The next preset change is due.
    PresetTimer,
    /// Connecting, discovering, subscribing or writing failed.
    TransportFailure,
    /// The connection dropped.
    ConnectionLost,
}

/// An event with its bytes as a sequence.
pub enum SessionEventView {
    Start,
    AdvertisementReport { addr_kind: u8, addr: [u8; 6], data: Seq<u8> },
    ScanTimeout,
    Connected,
    Discovered,
    Subscribed,
    Notification(Seq<u8>),
    PresetTimer,
    TransportFailure,
    ConnectionLost,
}

impl View for SessionEvent {
    type V = SessionEventView;

    open spec fn view(&self) -> SessionEventView {
        match self {
            SessionEvent::Start => SessionEventView::Start,
            SessionEvent::AdvertisementReport { addr_kind, addr, data } => {
                SessionEventView::AdvertisementReport {
                    addr_kind: *addr_kind,
                    addr: *addr,
                    data: data@,
                }
            },
            SessionEvent::ScanTimeout => SessionEventView::ScanTimeout,
            SessionEvent::Connected => SessionEventView::Connected,
            SessionEvent::Discovered => SessionEventView::Discovered,
            SessionEvent::Subscribed => SessionEventView::Subscribed,
            SessionEvent::Notification(block) => SessionEventView::Notification(block@),
            SessionEvent::PresetTimer => SessionEventView::PresetTimer,
            SessionEvent::TransportFailure => SessionEventView::TransportFailure,
            SessionEvent::ConnectionLost => SessionEventView::ConnectionLost,
        }
    }
}

/// What is to be done outside the controller.
#[derive(Clone, Debug)]
pub enum SessionAction {
    /// Nothing.
    Nothing,
    /// Begin an active scan and report every advertisement, for at most
    /// `SCAN_TIMEOUT_MS`.
    StartScan,
    /// Open a connection to the peer.
    Connect(Peer),
    /// Find the service with the given UUID, and in it the characteristic
    /// to write to and the one that notifies.
    Discover { service: u16, write_characteristic: u16, notify_characteristic: u16 },
    /// Enable notifications on the notifying characteristic, by writing
    /// the value to its descriptor with the given UUID, and subscribe to
    /// it.
    Subscribe { descriptor: u16, value: [u8; 2] },
    /// Write the blocks to the write characteristic, in this order.
    Write(Vec<Vec<u8>>),
    /// Give up: a transport step failed, or the scan found nothing.
    Halt,
    /// Stop everything that waits for the connection: it is gone.
    CancelTasks,
}

/// An action with its blocks as sequences of bytes.
pub enum SessionActionView {
    Nothing,
    StartScan,
    Connect(Peer),
    Discover { service: u16, write_characteristic: u16, notify_characteristic: u16 },
    Subscribe { descriptor: u16, value: Seq<u8> },
    Write(Seq<Seq<u8>>),
    Halt,
    CancelTasks,
}

impl View for SessionAction {
    type V = SessionActionView;

    open spec fn view(&self) -> SessionActionView {
        match self {
            SessionAction::Nothing => SessionActionView::Nothing,
            SessionAction::StartScan => SessionActionView::StartScan,
            SessionAction::Connect(peer) => SessionActionView::Connect(*peer),
            SessionAction::Discover { service, write_characteristic, notify_characteristic } => {
                SessionActionView::Discover {
                    service: *service,
                    write_characteristic: *write_characteristic,
                    notify_characteristic: *notify_characteristic,
                }
            },
            SessionAction::Subscribe { descriptor, value } => SessionActionView::Subscribe {
                descriptor: *descriptor,
                value: value@,
            },
            SessionAction::Write(blocks) => SessionActionView::Write(block_seqs(blocks@)),
            SessionAction::Halt => SessionActionView::Halt,
            SessionAction::CancelTasks => SessionActionView::CancelTasks,
        }
    }
}

/// A line for the display.
#[derive(Clone, Debug)]
pub enum StatusLine {
    Connecting,
    Connected,
    AmpName(String),
    HardwarePreset(u8),
}

/// A status line with its name as a sequence of characters.
pub enum StatusLineView {
    Connecting,
    Connected,
    AmpName(Seq<char>),
    HardwarePreset(u8),
}

impl View for StatusLine {
    type V = StatusLineView;

    open spec fn view(&self) -> StatusLineView {
        match self {
            StatusLine::Connecting => StatusLineView::Connecting,
            StatusLine::Connected => StatusLineView::Connected,
            StatusLine::AmpName(name) => StatusLineView::AmpName(name@),
            StatusLine::HardwarePreset(preset) => StatusLineView::HardwarePreset(*preset),
        }
    }
}

/// The character of a decimal digit.
pub open spec fn digit_char(d: int) -> char {
    if d == 0 {
        '0'
    } else if d == 1 {
        '1'
    } else if d == 2 {
        '2'
    } else if d == 3 {
        '3'
    } else if d == 4 {
        '4'
    } else if d == 5 {
        '5'
    } else if d == 6 {
        '6'
    } else if d == 7 {
        '7'
    } else if d == 8 {
        '8'
    } else {
        '9'
    }
}

/// `n` in decimal, without leading zeros.
pub open spec fn decimal(n: u8) -> Seq<char> {
    if n >= 100 {
        seq![digit_char(n as int / 100), digit_char(n as int / 10 % 10), digit_char(n as int % 10)]
    } else if n >= 10 {
        seq![digit_char(n as int / 10), digit_char(n as int % 10)]
    } else {
        seq![digit_char(n as int)]
    }
}

impl StatusLineView {
    /// The text of the line.
    pub open spec fn text(self) -> Seq<char> {
        match self {
            StatusLineView::Connecting => "Connecting..."@,
            StatusLineView::Connected => "Connected!"@,
            StatusLineView::AmpName(name) => name,
            StatusLineView::HardwarePreset(preset) => "Set Hardware preset: "@ + decimal(preset),
        }
    }
}

/// Every line but the amplifier's name is plain ASCII and short enough
/// for the display's queue. A name is as long as the amplifier says.
pub proof fn lemma_fixed_lines_fit(line: StatusLineView)
    requires
        !(line is AmpName),
    ensures
        is_ascii_chars(line.text()),
        encode_utf8(line.text()).len() <= STATUS_LINE_CAPACITY,
{
    reveal_strlit("Connecting...");
    reveal_strlit("Connected!");
    reveal_strlit("Set Hardware preset: ");
    is_ascii_chars_encode_utf8(line.text());
}

/// The text of one decimal digit.
fn digit_str(d: u8) -> (s: &'static str)
    requires
        d < 10,
    ensures
        s@ == seq![digit_char(d as int)],
{
    proof {
        reveal_strlit("0");
        reveal_strlit("1");
        reveal_strlit("2");
        reveal_strlit("3");
        reveal_strlit("4");
        reveal_strlit("5");
        reveal_strlit("6");
        reveal_strlit("7");
        reveal_strlit("8");
        reveal_strlit("9");
    }
    let s: &'static str = match d {
        0 => "0",
        1 => "1",
        2 => "2",
        3 => "3",
        4 => "4",
        5 => "5",
        6 => "6",
        7 => "7",
        8 => "8",
        _ => "9",
    };
    proof {
        assert(s@ =~= seq![digit_char(d as int)]);
    }
    s
}

impl StatusLine {
    /// The text of the line.
    pub fn text(&self) -> (text: String)
        ensures
            text@ == self@.text(),
    {
        match self {
            StatusLine::Connecting => String::from_str("Connecting..."),
            StatusLine::Connected => String::from_str("Connected!"),
            StatusLine::AmpName(name) => name.clone(),
            StatusLine::HardwarePreset(preset) => {
                let n: u8 = *preset;
                let mut text = String::from_str("Set Hardware preset: ");
                if n >= 100 {
                    text.append(digit_str(n / 100));
                }
                if n >= 10 {
                    text.append(digit_str(n / 10 % 10));
                }
                text.append(digit_str(n % 10));
                proof {
                    assert(text@ =~= "Set Hardware preset: "@ + decimal(n));
                }
                text
            },
        }
    }

    /// The line as a string for the display's queue. There is none
    /// exactly when the text is too long for the queue, which only the
    /// name of an amplifier can be.
    pub fn to_display(&self) -> (line: Option<DisplayString>)
        ensures
            line is Some <==> encode_utf8(self@.text()).len() <= STATUS_LINE_CAPACITY,
            line matches Some(l) ==> display_text(l) == self@.text(),
            !(self@ is AmpName) ==> line is Some,
    {
        proof {
            if !(self@ is AmpName) {
                lemma_fixed_lines_fit(self@);
            }
        }
        let text = self.text();
        array_string_from(text.as_str())
    }
}

/// What one step asks for: an action, and a line for the display.
#[derive(Clone, Debug)]
pub struct SessionStep {
    pub action: SessionAction,
    pub status: Option<StatusLine>,
}

/// A step with its bytes and texts as sequences.
pub struct SessionStepView {
    pub action: SessionActionView,
    pub status: Option<StatusLineView>,
}

impl View for SessionStep {
    type V = SessionStepView;

    open spec fn view(&self) -> SessionStepView {
        SessionStepView {
            action: self.action@,
            status: match self.status {
                Some(line) => Some(line@),
                None => None,
            },
        }
    }
}

/// What a controller knows: its state, the peer, the sequence number of
/// the next block, and the preset that the rotation comes to next.
pub struct SessionModel {
    pub state: SessionState,
    pub peer: Option<Peer>,
    pub sequence: u8,
    pub next_preset: u8,
}

impl SessionModel {
    /// A scan has no peer yet, a connection has one, and the rotation
    /// stays within the presets.
    pub open spec fn wf(self) -> bool {
        &&& self.state == SessionState::Scanning ==> self.peer is None
        &&& (self.state == SessionState::Connecting || self.state.is_connected())
            ==> self.peer is Some
        &&& 1 <= self.next_preset <= PRESET_COUNT
    }

    /// The same knowledge in another state.
    pub open spec fn in_state(self, state: SessionState) -> SessionModel {
        SessionModel {
            state,
            peer: self.peer,
            sequence: self.sequence,
            next_preset: self.next_preset,
        }
    }
}

/// A step that asks for nothing.
pub open spec fn no_step() -> SessionStepView {
    SessionStepView { action: SessionActionView::Nothing, status: None }
}

/// The preset that follows `preset` in the rotation.
pub open spec fn preset_after(preset: u8) -> u8 {
    if 1 <= preset < PRESET_COUNT {
        (preset + 1) as u8
    } else {
        1
    }
}

/// The step that begins the session.
pub open spec fn step_start(m: SessionModel) -> (SessionModel, SessionStepView) {
    match m.peer {
        Some(peer) => (
            m.in_state(SessionState::Connecting),
            SessionStepView {
                action: SessionActionView::Connect(peer),
                status: Some(StatusLineView::Connecting),
            },
        ),
        None => (
            m.in_state(SessionState::Scanning),
            SessionStepView { action: SessionActionView::StartScan, status: None },
        ),
    }
}

/// The step on an advertisement report during the scan: the first
/// advertisement of the amplifier ends the scan and gives the peer.
pub open spec fn step_report(m: SessionModel, addr_kind: u8, addr: [u8; 6], data: Seq<u8>) -> (
    SessionModel,
    SessionStepView,
) {
    let found = if m.peer is Some {
        m.peer
    } else if advertises_spark(data) {
        Some(Peer { addr_kind, addr })
    } else {
        None
    };
    match found {
        Some(peer) => (
            SessionModel {
                state: SessionState::Connecting,
                peer: Some(peer),
                sequence: m.sequence,
                next_preset: m.next_preset,
            },
            SessionStepView {
                action: SessionActionView::Connect(peer),
                status: Some(StatusLineView::Connecting),
            },
        ),
        None => (m, no_step()),
    }
}

/// The step that opens the exchange: the amplifier is asked for its name.
pub open spec fn step_subscribed(m: SessionModel) -> (SessionModel, SessionStepView) {
    let blocks = message_blocks(AppToSparkMsg::GetAmpName, m.sequence);
    (
        SessionModel {
            state: SessionState::Exchanging,
            peer: m.peer,
            sequence: sequence_after(m.sequence, blocks.len() as int),
            next_preset: m.next_preset,
        },
        SessionStepView { action: SessionActionView::Write(blocks), status: None },
    )
}

/// The step on a notified block: a name reply gives a line for the
/// display, anything else gives nothing.
pub open spec fn step_notification(m: SessionModel, block: Seq<u8>) -> (
    SessionModel,
    SessionStepView,
) {
    (
        m,
        SessionStepView {
            action: SessionActionView::Nothing,
            status: match decode_message(block) {
                Some(SparkToAppMsgView::AmpName { sequence, name }) => Some(
                    StatusLineView::AmpName(name),
                ),
                None => None,
            },
        },
    )
}

/// The step on the preset timer: the amplifier is switched to the next
/// preset of the rotation.
pub open spec fn step_preset(m: SessionModel) -> (SessionModel, SessionStepView) {
    let blocks = message_blocks(AppToSparkMsg::SetHardwarePreset(m.next_preset), m.sequence);
    (
        SessionModel {
            state: SessionState::Exchanging,
            peer: m.peer,
            sequence: sequence_after(m.sequence, blocks.len() as int),
            next_preset: preset_after(m.next_preset),
        },
        SessionStepView {
            action: SessionActionView::Write(blocks),
            status: Some(StatusLineView::HardwarePreset(m.next_preset)),
        },
    )
}

/// What is to be found once the connection is open: the amplifier's
/// service and its two characteristics.
pub open spec fn discover_action() -> SessionActionView {
    SessionActionView::Discover {
        service: SPARK_SERVICE_UUID,
        write_characteristic: WRITE_CHARACTERISTIC,
        notify_characteristic: NOTIF_CHARACTERISTIC,
    }
}

/// How notifications are enabled: `[0x01, 0x00]` is written to the client
/// characteristic configuration descriptor of the notifying
/// characteristic.
pub open spec fn subscribe_action() -> SessionActionView {
    SessionActionView::Subscribe {
        descriptor: CLIENT_CHARACTERISTIC_CONFIGURATION,
        value: seq![0x01u8, 0x00u8],
    }
}

/// What a controller does on an event: what it knows afterwards, and
/// what it asks for. A session that is over takes no event. A transport
/// failure ends any other session as failed, the loss of an open
/// connection ends it as disconnected. Apart from that each state takes
/// the events that move it on, and lets all others pass.
pub open spec fn session_step(m: SessionModel, e: SessionEventView) -> (
    SessionModel,
    SessionStepView,
) {
    if m.state.is_terminal() {
        (m, no_step())
    } else {
        match e {
            SessionEventView::TransportFailure => (
                m.in_state(SessionState::Failed),
                SessionStepView { action: SessionActionView::Halt, status: None },
            ),
            SessionEventView::ConnectionLost => {
                if m.state.is_connected() {
                    (
                        m.in_state(SessionState::Disconnected),
                        SessionStepView { action: SessionActionView::CancelTasks, status: None },
                    )
                } else {
                    (m, no_step())
                }
            },
            SessionEventView::Start => {
                if m.state == SessionState::Idle {
                    step_start(m)
                } else {
                    (m, no_step())
                }
            },
            SessionEventView::AdvertisementReport { addr_kind, addr, data } => {
                if m.state == SessionState::Scanning {
                    step_report(m, addr_kind, addr, data)
                } else {
                    (m, no_step())
                }
            },
            SessionEventView::ScanTimeout => {
                if m.state == SessionState::Scanning {
                    (
                        m.in_state(SessionState::Failed),
                        SessionStepView { action: SessionActionView::Halt, status: None },
                    )
                } else {
                    (m, no_step())
                }
            },
            SessionEventView::Connected => {
                if m.state == SessionState::Connecting {
                    (
                        m.in_state(SessionState::Discovering),
                        SessionStepView {
                            action: discover_action(),
                            status: Some(StatusLineView::Connected),
                        },
                    )
                } else {
                    (m, no_step())
                }
            },
            SessionEventView::Discovered => {
                if m.state == SessionState::Discovering {
                    (
                        m.in_state(SessionState::Subscribing),
                        SessionStepView { action: subscribe_action(), status: None },
                    )
                } else {
                    (m, no_step())
                }
            },
            SessionEventView::Subscribed => {
                if m.state == SessionState::Subscribing {
                    step_subscribed(m)
                } else {
                    (m, no_step())
                }
            },
            SessionEventView::Notification(block) => {
                if m.state == SessionState::Exchanging {
                    step_notification(m, block)
                } else {
                    (m, no_step())
                }
            },
            SessionEventView::PresetTimer => {
                if m.state == SessionState::Exchanging {
                    step_preset(m)
                } else {
                    (m, no_step())
                }
            },
        }
    }
}

/// Sequences a session with the amplifier. It owns the one encoder of
/// the session, so that sequence numbers run on from block to block
/// whoever asks for a message to be sent.
pub struct SessionController {
    state: SessionState,
    scan: ScanHandler,
    encoder: SparkMsgEncoder,
    next_preset: u8,
}

impl View for SessionController {
    type V = SessionModel;

    closed spec fn view(&self) -> SessionModel {
        SessionModel {
            state: self.state,
            peer: self.scan.device(),
            sequence: self.encoder.sequence(),
            next_preset: self.next_preset,
        }
    }
}

impl SessionController {
    /// A controller that finds the amplifier by scanning.
    pub fn new() -> (controller: Self)
        ensures
            controller@ == (SessionModel {
                state: SessionState::Idle,
                peer: None,
                sequence: 0,
                next_preset: 1,
            }),
    {
        SessionController {
            state: SessionState::Idle,
            scan: ScanHandler::new(),
            encoder: SparkMsgEncoder::new(),
            next_preset: 1,
        }
    }

    /// A controller that connects to a peer known beforehand, without a
    /// scan.
    pub fn with_peer(peer: Peer) -> (controller: Self)
        ensures
            controller@ == (SessionModel {
                state: SessionState::Idle,
                peer: Some(peer),
                sequence: 0,
                next_preset: 1,
            }),
    {
        SessionController {
            state: SessionState::Idle,
            scan: ScanHandler::with_device(peer),
            encoder: SparkMsgEncoder::new(),
            next_preset: 1,
        }
    }

    /// Where the session stands.
    pub fn state(&self) -> (state: SessionState)
        ensures
            state == self@.state,
    {
        self.state
    }

    /// The peer of the session, once it is known.
    pub fn peer(&self) -> (peer: Option<Peer>)
        ensures
            peer == self@.peer,
    {
        self.scan.get_device()
    }

    /// Takes one event, and says what is to be done about it.
    pub fn step(&mut self, event: SessionEvent) -> (out: SessionStep)
        ensures
            final(self)@ == session_step(old(self)@, event@).0,
            out@ == session_step(old(self)@, event@).1,
    {
        let nothing = SessionStep { action: SessionAction::Nothing, status: None };
        match self.state {
            SessionState::Disconnected | SessionState::Failed => { return nothing; },
            _ => {},
        }
        match event {
            SessionEvent::TransportFailure => {
                self.state = SessionState::Failed;
                SessionStep { action: SessionAction::Halt, status: None }
            },
            SessionEvent::ConnectionLost => {
                match self.state {
                    SessionState::Discovering
                    | SessionState::Subscribing
                    | SessionState::Exchanging => {
                        self.state = SessionState::Disconnected;
                        SessionStep { action: SessionAction::CancelTasks, status: None }
                    },
                    _ => nothing,
                }
            },
            SessionEvent::Start => {
                match self.state {
                    SessionState::Idle => {
                        match self.scan.get_device() {
                            Some(peer) => {
                                self.state = SessionState::Connecting;
                                SessionStep {
                                    action: SessionAction::Connect(peer),
                                    status: Some(StatusLine::Connecting),
                                }
                            },
                            None => {
                                self.state = SessionState::Scanning;
                                SessionStep { action: SessionAction::StartScan, status: None }
                            },
                        }
                    },
                    _ => nothing,
                }
            },
            SessionEvent::AdvertisementReport { addr_kind, addr, data } => {
                match self.state {
                    SessionState::Scanning => {
                        self.scan.on_adv_report(addr_kind, addr, data.as_slice());
                        match self.scan.get_device() {
                            Some(peer) => {
                                self.state = SessionState::Connecting;
                                SessionStep {
                                    action: SessionAction::Connect(peer),
                                    status: Some(StatusLine::Connecting),
                                }
                            },
                            None => nothing,
                        }
                    },
                    _ => nothing,
                }
            },
            SessionEvent::ScanTimeout => {
                match self.state {
                    SessionState::Scanning => {
                        self.state = SessionState::Failed;
                        SessionStep { action: SessionAction::Halt, status: None }
                    },
                    _ => nothing,
                }
            },
            SessionEvent::Connected => {
                match self.state {
                    SessionState::Connecting => {
                        self.state = SessionState::Discovering;
                        SessionStep {
                            action: SessionAction::Discover {
                                service: SPARK_SERVICE_UUID,
                                write_characteristic: WRITE_CHARACTERISTIC,
                                notify_characteristic: NOTIF_CHARACTERISTIC,
                            },
                            status: Some(StatusLine::Connected),
                        }
                    },
                    _ => nothing,
                }
            },
            SessionEvent::Discovered => {
                match self.state {
                    SessionState::Discovering => {
                        self.state = SessionState::Subscribing;
                        SessionStep {
                            action: SessionAction::Subscribe {
                                descriptor: CLIENT_CHARACTERISTIC_CONFIGURATION,
                                value: enable_notifications_value(),
                            },
                            status: None,
                        }
                    },
                    _ => nothing,
                }
            },
            SessionEvent::Subscribed => {
                match self.state {
                    SessionState::Subscribing => {
                        let blocks = self.encoder.encode(AppToSparkMsg::GetAmpName);
                        self.state = SessionState::Exchanging;
                        SessionStep { action: SessionAction::Write(blocks), status: None }
                    },
                    _ => nothing,
                }
            },
            SessionEvent::Notification(block) => {
                match self.state {
                    SessionState::Exchanging => {
                        let decoder = SparkMsgDecoder;
                        match decoder.decode(block.as_slice()) {
                            Some(SparkToAppMsg::AmpName { sequence, name }) => SessionStep {
                                action: SessionAction::Nothing,
                                status: Some(StatusLine::AmpName(name)),
                            },
                            None => nothing,
                        }
                    },
                    _ => nothing,
                }
            },
            SessionEvent::PresetTimer => {
                match self.state {
                    SessionState::Exchanging => {
                        let preset: u8 = self.next_preset;
                        let blocks = self.encoder.encode(AppToSparkMsg::SetHardwarePreset(preset));
                        self.next_preset = if 1 <= preset && preset < PRESET_COUNT {
                            preset + 1
                        } else {
                            1
                        };
                        SessionStep {
                            action: SessionAction::Write(blocks),
                            status: Some(StatusLine::HardwarePreset(preset)),
                        }
                    },
                    _ => nothing,
                }
            },
        }
    }
}

/// A session that is over stays as it is and asks for nothing, whatever
/// happens.
pub proof fn lemma_terminal_states_absorb(m: SessionModel, e: SessionEventView)
    requires
        m.state.is_terminal(),
    ensures
        session_step(m, e).0 == m,
        session_step(m, e).1 == no_step(),
{
}

/// A transport failure ends every session that is not over as failed.
pub proof fn lemma_transport_failure_fails(m: SessionModel)
    requires
        !m.state.is_terminal(),
    ensures
        session_step(m, SessionEventView::TransportFailure).0.state == SessionState::Failed,
        session_step(m, SessionEventView::TransportFailure).1.action == SessionActionView::Halt,
{
}

/// The loss of an open connection ends the session as disconnected, and
/// asks for everything that waits for the connection to be stopped.
pub proof fn lemma_connection_loss_disconnects(m: SessionModel)
    requires
        m.state.is_connected(),
    ensures
        session_step(m, SessionEventView::ConnectionLost).0.state == SessionState::Disconnected,
        session_step(m, SessionEventView::ConnectionLost).1.action
            == SessionActionView::CancelTasks,
{
}

/// A session never goes back: no step leads to an earlier state, and a
/// step that changes the state leads to the state that follows, or ends
/// the session.
pub proof fn lemma_session_moves_forward(m: SessionModel, e: SessionEventView)
    ensures
        session_step(m, e).0.state.rank() >= m.state.rank(),
        session_step(m, e).0.state != m.state ==> {
            ||| session_step(m, e).0.state.is_terminal()
            ||| session_step(m, e).0.state.rank() == m.state.rank() + 1
            ||| (m.state == SessionState::Idle && session_step(m, e).0.state
                == SessionState::Connecting && m.peer is Some)
        },
{
}

/// What holds of a new controller holds after every step: a scan has no
/// peer yet, a connection has one, and the rotation stays within the
/// presets. A peer, once known, is kept.
pub proof fn lemma_step_keeps_wf(m: SessionModel, e: SessionEventView)
    requires
        m.wf(),
    ensures
        session_step(m, e).0.wf(),
        m.peer is Some ==> session_step(m, e).0.peer == m.peer,
{
}

/// The sequence number moves on by one for every block that a step asks
/// to be written, and by nothing else.
pub proof fn lemma_sequence_counts_blocks(m: SessionModel, e: SessionEventView)
    ensures
        match session_step(m, e).1.action {
            SessionActionView::Write(blocks) => session_step(m, e).0.sequence == sequence_after(
                m.sequence,
                blocks.len() as int,
            ),
            _ => session_step(m, e).0.sequence == m.sequence,
        },
{
}

/// Blocks are written only while messages are exchanged, or to open the
/// exchange.
pub proof fn lemma_writes_need_subscription(m: SessionModel, e: SessionEventView)
    requires
        session_step(m, e).1.action is Write,
    ensures
        m.state == SessionState::Subscribing || m.state == SessionState::Exchanging,
        session_step(m, e).0.state == SessionState::Exchanging,
{
}

} // verus!
