//! Decision logic of a proxy between an external M-Bus master, a heater
//! (the real slave) and a wmbusmeters gateway (a second master). The proxy
//! answers link resets itself, forwards data requests to the heater, relays
//! the heater's reply to whoever asked, and keeps at most one request to the
//! heater outstanding. The caller performs the reads, writes and waits.
use vstd::prelude::*;

use crate::frame::Frame;

verus! {

/// Link reset (SND_NKE).
pub const SND_NKE: u8 = 0x40;

/// Send user data (SND_UD).
pub const SND_UD: u8 = 0x73;

/// Request user data, class 2 (REQ_UD2).
pub const REQ_UD2: u8 = 0x7B;

/// Broadcast address that wmbusmeters resets.
pub const BROADCAST_ADDR: u8 = 0x00;

/// The three links of the proxy.
#[derive(Debug, Clone, Copy, PartialEq, Eq, Structural)]
pub enum Port {
    ExternalMaster,
    Wmbusmeters,
    Heater,
}

/// Deployment parameters of the proxy.
#[derive(Debug, Clone)]
pub struct ProxyConfig {
    /// Address of the heater on its own bus.
    pub heater_address: u8,
    /// Address under which wmbusmeters talks to the heater.
    pub wmbus_proxy_address: u8,
    /// Addresses whose link reset from the external master the proxy
    /// acknowledges on the heater's behalf.
    pub broadcast_addresses: Vec<u8>,
    /// How long to wait for the heater's reply, in milliseconds.
    pub reply_timeout_ms: u64,
}

/// Something worth a log line that needs no write.
#[derive(Debug, Clone, Copy, PartialEq, Eq, Structural)]
pub enum Notice {
    /// The external master addressed a slave other than the heater.
    UnknownSlave(u8),
    /// A frame that the proxy has no use for, from this port.
    UnexpectedFrame(Port),
    /// A frame from this port while a request to the heater is outstanding;
    /// it is not forwarded.
    Busy(Port),
    /// A reply timeout with no request outstanding.
    StrayTimeout,
}

/// What to do with a frame from one of the masters.
#[derive(Debug)]
pub enum Decision {
    /// Answer the sender with an acknowledgement.
    Acknowledge,
    /// Send this frame to the heater and relay its reply to the sender.
    Forward(Frame),
    /// Write nothing.
    Ignore(Notice),
}

/// Whether a request is outstanding, and for whom.
#[derive(Debug, Clone, Copy, PartialEq, Eq, Structural)]
pub enum MuxState {
    Idle,
    /// A request went to the heater; its reply goes to this port.
    AwaitingReply(Port),
}

/// What happened on the links.
#[derive(Debug)]
pub enum MuxEvent {
    /// A frame was read from this port.
    Received(Port, Frame),
    /// Reading from this port failed: a transport or protocol error.
    ReadFailed(Port),
    /// The heater did not reply in time.
    ReplyTimedOut,
    /// Shutdown was requested.
    Cancelled,
}

/// Why a step failed.
#[derive(Debug, Clone, Copy, PartialEq, Eq, Structural)]
pub enum MuxError {
    ReadFailed(Port),
    ReplyTimedOut,
}

/// What the caller does next.
#[derive(Debug)]
pub enum MuxAction {
    /// Write this frame to this port.
    Send(Port, Frame),
    /// Write nothing; log this.
    Log(Notice),
    /// End the step with this error.
    Fail(MuxError),
    /// End the run without error.
    Stop,
}

/// Which of the links have something to read, and whether shutdown was
/// requested.
#[derive(Debug, Clone, Copy, PartialEq, Eq, Structural)]
pub struct Readiness {
    pub external_master: bool,
    pub wmbusmeters: bool,
    pub heater: bool,
    pub cancelled: bool,
}

/// Where the next event is taken from.
#[derive(Debug, Clone, Copy, PartialEq, Eq, Structural)]
pub enum Source {
    Port(Port),
    Cancellation,
}

/// The payload of the configuration frame that wmbusmeters sends when it
/// starts.
pub open spec fn wmbus_init_payload() -> Seq<u8> {
    seq![0x87u8, 0x93u8, 0x27u8, 0x68u8, 0xffu8, 0xffu8, 0xffu8, 0xffu8]
}

/// The address field of a frame; `Single` has none.
pub open spec fn frame_address(f: Frame) -> Option<u8> {
    match f {
        Frame::Single => None,
        Frame::Short { address, .. } => Some(address),
        Frame::Control { address, .. } => Some(address),
        Frame::Long { address, .. } => Some(address),
    }
}

/// The routing rule for a frame from `origin`.
pub open spec fn decide_spec(cfg: ProxyConfig, origin: Port, f: Frame) -> Decision {
    match origin {
        Port::ExternalMaster => match f {
            Frame::Single => Decision::Ignore(Notice::UnexpectedFrame(Port::ExternalMaster)),
            _ => {
                let address = frame_address(f).unwrap();
                if f matches Frame::Short { control, .. } && control == SND_NKE
                    && cfg.broadcast_addresses@.contains(address) {
                    Decision::Acknowledge
                } else if address == cfg.heater_address {
                    Decision::Forward(f)
                } else {
                    Decision::Ignore(Notice::UnknownSlave(address))
                }
            },
        },
        Port::Wmbusmeters => match f {
            Frame::Short { control, address } => {
                if control == SND_NKE && (address == BROADCAST_ADDR || address == cfg.wmbus_proxy_address) {
                    Decision::Acknowledge
                } else if address == cfg.wmbus_proxy_address {
                    Decision::Forward(Frame::Short { control, address: cfg.heater_address })
                } else {
                    Decision::Ignore(Notice::UnexpectedFrame(Port::Wmbusmeters))
                }
            },
            Frame::Long { control, address, data, .. } => {
                if control == SND_UD && address == cfg.wmbus_proxy_address && data@ == wmbus_init_payload() {
                    Decision::Acknowledge
                } else {
                    Decision::Ignore(Notice::UnexpectedFrame(Port::Wmbusmeters))
                }
            },
            _ => Decision::Ignore(Notice::UnexpectedFrame(Port::Wmbusmeters)),
        },
        Port::Heater => Decision::Ignore(Notice::UnexpectedFrame(Port::Heater)),
    }
}

/// One transition: the state after the event, and what to do.
pub open spec fn step_spec(cfg: ProxyConfig, s: MuxState, e: MuxEvent) -> (MuxState, MuxAction) {
    match e {
        MuxEvent::Received(port, f) => match s {
            MuxState::Idle => match decide_spec(cfg, port, f) {
                Decision::Acknowledge => (MuxState::Idle, MuxAction::Send(port, Frame::Single)),
                Decision::Forward(g) => (MuxState::AwaitingReply(port), MuxAction::Send(Port::Heater, g)),
                Decision::Ignore(n) => (MuxState::Idle, MuxAction::Log(n)),
            },
            MuxState::AwaitingReply(origin) => if port == Port::Heater {
                (MuxState::Idle, MuxAction::Send(origin, f))
            } else {
                (s, MuxAction::Log(Notice::Busy(port)))
            },
        },
        MuxEvent::ReadFailed(port) => (MuxState::Idle, MuxAction::Fail(MuxError::ReadFailed(port))),
        MuxEvent::ReplyTimedOut => match s {
            MuxState::Idle => (MuxState::Idle, MuxAction::Log(Notice::StrayTimeout)),
            MuxState::AwaitingReply(_) => (MuxState::Idle, MuxAction::Fail(MuxError::ReplyTimedOut)),
        },
        MuxEvent::Cancelled => (MuxState::Idle, MuxAction::Stop),
    }
}

/// The source of the next event: while idle the external master first,
/// then wmbusmeters, then the heater, then cancellation; while a request is
/// outstanding only the heater's reply, then cancellation.
pub open spec fn select_spec(s: MuxState, r: Readiness) -> Option<Source> {
    match s {
        MuxState::Idle => if r.external_master {
            Some(Source::Port(Port::ExternalMaster))
        } else if r.wmbusmeters {
            Some(Source::Port(Port::Wmbusmeters))
        } else if r.heater {
            Some(Source::Port(Port::Heater))
        } else if r.cancelled {
            Some(Source::Cancellation)
        } else {
            None
        },
        MuxState::AwaitingReply(_) => if r.heater {
            Some(Source::Port(Port::Heater))
        } else if r.cancelled {
            Some(Source::Cancellation)
        } else {
            None
        },
    }
}

/// The state after the first `k` events of a run that starts idle.
pub open spec fn state_after(cfg: ProxyConfig, evs: Seq<MuxEvent>, k: nat) -> MuxState
    decreases k,
{
    if k == 0 {
        MuxState::Idle
    } else {
        step_spec(cfg, state_after(cfg, evs, (k - 1) as nat), evs[k - 1]).0
    }
}

/// What the run does about its `k`-th event.
pub open spec fn action_at(cfg: ProxyConfig, evs: Seq<MuxEvent>, k: nat) -> MuxAction {
    step_spec(cfg, state_after(cfg, evs, k), evs[k as int]).1
}

/// The action sends a request to the heater.
pub open spec fn forwards_request(a: MuxAction) -> bool {
    a matches MuxAction::Send(Port::Heater, _)
}

/// The event and action settle an outstanding request: the heater's reply
/// is relayed, or the step fails or stops.
pub open spec fn settles(e: MuxEvent, a: MuxAction) -> bool {
    ||| (e matches MuxEvent::Received(Port::Heater, _) && a is Send)
    ||| a is Fail
    ||| a is Stop
}

proof fn lemma_step_facts(cfg: ProxyConfig, s: MuxState, e: MuxEvent)
    requires
        s != MuxState::AwaitingReply(Port::Heater),
    ensures
        ({
            let (s2, a) = step_spec(cfg, s, e);
            &&& s2 != MuxState::AwaitingReply(Port::Heater)
            &&& forwards_request(a) ==> s == MuxState::Idle && s2 is AwaitingReply
            &&& (s is AwaitingReply && !settles(e, a)) ==> s2 == s
        }),
{
}

proof fn lemma_never_awaits_for_heater(cfg: ProxyConfig, evs: Seq<MuxEvent>, k: nat)
    requires
        k <= evs.len(),
    ensures
        state_after(cfg, evs, k) != MuxState::AwaitingReply(Port::Heater),
    decreases k,
{
    if k > 0 {
        lemma_never_awaits_for_heater(cfg, evs, (k - 1) as nat);
        lemma_step_facts(cfg, state_after(cfg, evs, (k - 1) as nat), evs[k - 1]);
    }
}

proof fn lemma_awaiting_until_settled(cfg: ProxyConfig, evs: Seq<MuxEvent>, i: nat, k: nat)
    requires
        i < k <= evs.len(),
        forwards_request(action_at(cfg, evs, i)),
        forall|m: nat| i < m < k ==> !settles(evs[m as int], #[trigger] action_at(cfg, evs, m)),
    ensures
        state_after(cfg, evs, k) is AwaitingReply,
    decreases k,
{
    let p = (k - 1) as nat;
    lemma_never_awaits_for_heater(cfg, evs, p);
    lemma_step_facts(cfg, state_after(cfg, evs, p), evs[p as int]);
    if p > i {
        lemma_awaiting_until_settled(cfg, evs, i, p);
        assert(!settles(evs[p as int], action_at(cfg, evs, p)));
    }
}

/// At most one request to the heater is outstanding: between any two
/// requests that a run sends to the heater, the first one is settled by the
/// heater's reply, a failure or a stop.
pub proof fn lemma_one_request_outstanding(cfg: ProxyConfig, evs: Seq<MuxEvent>, i: nat, j: nat)
    requires
        i < j < evs.len(),
        forwards_request(action_at(cfg, evs, i)),
        forwards_request(action_at(cfg, evs, j)),
    ensures
        exists|k: nat| i < k < j && settles(evs[k as int], #[trigger] action_at(cfg, evs, k)),
{
    if !exists|k: nat| i < k < j && settles(evs[k as int], #[trigger] action_at(cfg, evs, k)) {
        lemma_awaiting_until_settled(cfg, evs, i, j);
        lemma_never_awaits_for_heater(cfg, evs, j);
        lemma_step_facts(cfg, state_after(cfg, evs, j), evs[j as int]);
    }
}

fn contains_byte(v: &Vec<u8>, x: u8) -> (r: bool)
    ensures
        r == v@.contains(x),
{
    let mut i: usize = 0;
    while i < v.len()
        invariant
            i <= v@.len(),
            forall|j: int| 0 <= j < i ==> v@[j] != x,
        decreases v@.len() - i,
    {
        if v[i] == x {
            return true;
        }
        i = i + 1;
    }
    false
}

fn is_wmbus_init_payload(data: &Vec<u8>) -> (r: bool)
    ensures
        r == (data@ == wmbus_init_payload()),
{
    if data.len() != 8 {
        return false;
    }
    let r = data[0] == 0x87 && data[1] == 0x93 && data[2] == 0x27 && data[3] == 0x68 && data[4] == 0xff
        && data[5] == 0xff && data[6] == 0xff && data[7] == 0xff;
    if r {
        assert(data@ =~= wmbus_init_payload());
    }
    r
}

impl ProxyConfig {
    /// The deployed parameters: heater at `0x5A`, wmbusmeters talking to
    /// `0xFD`, resets of `0x00` and `0xFF` acknowledged, two seconds for a
    /// reply.
    pub fn deployed() -> (r: Self)
        ensures
            r.heater_address == 0x5A,
            r.wmbus_proxy_address == 0xFD,
            r.broadcast_addresses@ == seq![0x00u8, 0xFFu8],
            r.reply_timeout_ms == 2000,
    {
        let mut broadcast_addresses: Vec<u8> = Vec::new();
        broadcast_addresses.push(0x00);
        broadcast_addresses.push(0xFF);
        ProxyConfig {
            heater_address: 0x5A,
            wmbus_proxy_address: 0xFD,
            broadcast_addresses,
            reply_timeout_ms: 2000,
        }
    }

    /// The frame sent to the heater once at startup: a link reset of the
    /// broadcast address.
    pub fn startup_frame(&self) -> (r: Frame)
        ensures
            r == (Frame::Short { control: SND_NKE, address: BROADCAST_ADDR }),
    {
        Frame::Short { control: SND_NKE, address: BROADCAST_ADDR }
    }

    /// Routes a frame from `origin`.
    pub fn decide(&self, origin: Port, frame: Frame) -> (r: Decision)
        ensures
            r == decide_spec(*self, origin, frame),
    {
        match origin {
            Port::ExternalMaster => match frame {
                Frame::Single => Decision::Ignore(Notice::UnexpectedFrame(Port::ExternalMaster)),
                Frame::Short { control, address } => {
                    if control == SND_NKE && contains_byte(&self.broadcast_addresses, address) {
                        Decision::Acknowledge
                    } else if address == self.heater_address {
                        Decision::Forward(frame)
                    } else {
                        Decision::Ignore(Notice::UnknownSlave(address))
                    }
                },
                Frame::Control { address, .. } => {
                    if address == self.heater_address {
                        Decision::Forward(frame)
                    } else {
                        Decision::Ignore(Notice::UnknownSlave(address))
                    }
                },
                Frame::Long { address, .. } => {
                    if address == self.heater_address {
                        Decision::Forward(frame)
                    } else {
                        Decision::Ignore(Notice::UnknownSlave(address))
                    }
                },
            },
            Port::Wmbusmeters => match frame {
                Frame::Short { control, address } => {
                    if control == SND_NKE && (address == BROADCAST_ADDR || address == self.wmbus_proxy_address) {
                        Decision::Acknowledge
                    } else if address == self.wmbus_proxy_address {
                        Decision::Forward(Frame::Short { control, address: self.heater_address })
                    } else {
                        Decision::Ignore(Notice::UnexpectedFrame(Port::Wmbusmeters))
                    }
                },
                Frame::Long { control, address, data, .. } => {
                    if control == SND_UD && address == self.wmbus_proxy_address && is_wmbus_init_payload(&data) {
                        Decision::Acknowledge
                    } else {
                        Decision::Ignore(Notice::UnexpectedFrame(Port::Wmbusmeters))
                    }
                },
                _ => Decision::Ignore(Notice::UnexpectedFrame(Port::Wmbusmeters)),
            },
            Port::Heater => Decision::Ignore(Notice::UnexpectedFrame(Port::Heater)),
        }
    }
}

/// The proxy's state machine: its configuration and whether a request to
/// the heater is outstanding.
pub struct Multiplexer {
    config: ProxyConfig,
    state: MuxState,
}

impl Multiplexer {
    pub closed spec fn config_view(self) -> ProxyConfig {
        self.config
    }

    pub closed spec fn state_view(self) -> MuxState {
        self.state
    }

    pub fn new(config: ProxyConfig) -> (r: Self)
        ensures
            r.config_view() == config,
            r.state_view() == MuxState::Idle,
    {
        Multiplexer { config, state: MuxState::Idle }
    }

    pub fn config(&self) -> (r: &ProxyConfig)
        ensures
            *r == self.config_view(),
    {
        &self.config
    }

    pub fn state(&self) -> (r: MuxState)
        ensures
            r == self.state_view(),
    {
        self.state
    }

    /// Where to take the next event from, given what is ready.
    pub fn select_source(&self, ready: Readiness) -> (r: Option<Source>)
        ensures
            r == select_spec(self.state_view(), ready),
    {
        match self.state {
            MuxState::Idle => if ready.external_master {
                Some(Source::Port(Port::ExternalMaster))
            } else if ready.wmbusmeters {
                Some(Source::Port(Port::Wmbusmeters))
            } else if ready.heater {
                Some(Source::Port(Port::Heater))
            } else if ready.cancelled {
                Some(Source::Cancellation)
            } else {
                None
            },
            MuxState::AwaitingReply(_) => if ready.heater {
                Some(Source::Port(Port::Heater))
            } else if ready.cancelled {
                Some(Source::Cancellation)
            } else {
                None
            },
        }
    }

    /// Takes one event and says what to do about it.
    pub fn on_event(&mut self, event: MuxEvent) -> (r: MuxAction)
        ensures
            final(self).config_view() == old(self).config_view(),
            (final(self).state_view(), r) == step_spec(old(self).config_view(), old(self).state_view(), event),
    {
        match event {
            MuxEvent::Received(port, frame) => match self.state {
                MuxState::Idle => match self.config.decide(port, frame) {
                    Decision::Acknowledge => MuxAction::Send(port, Frame::Single),
                    Decision::Forward(g) => {
                        self.state = MuxState::AwaitingReply(port);
                        MuxAction::Send(Port::Heater, g)
                    },
                    Decision::Ignore(n) => MuxAction::Log(n),
                },
                MuxState::AwaitingReply(origin) => if port == Port::Heater {
                    self.state = MuxState::Idle;
                    MuxAction::Send(origin, frame)
                } else {
                    MuxAction::Log(Notice::Busy(port))
                },
            },
            MuxEvent::ReadFailed(port) => {
                self.state = MuxState::Idle;
                MuxAction::Fail(MuxError::ReadFailed(port))
            },
            MuxEvent::ReplyTimedOut => match self.state {
                MuxState::Idle => MuxAction::Log(Notice::StrayTimeout),
                MuxState::AwaitingReply(_) => {
                    self.state = MuxState::Idle;
                    MuxAction::Fail(MuxError::ReplyTimedOut)
                },
            },
            MuxEvent::Cancelled => {
                self.state = MuxState::Idle;
                MuxAction::Stop
            },
        }
    }
}

} // verus!
