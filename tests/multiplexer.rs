use mbus::multiplexer::{
    MuxAction, MuxError, MuxEvent, MuxState, Multiplexer, Notice, Port, ProxyConfig, Readiness, Source, REQ_UD2,
    SND_NKE, SND_UD,
};
use mbus::Frame;

fn heater_reply(ci: u8) -> Frame {
    Frame::Long {
        control: 0x00,
        address: 0x5A,
        data: vec![0xCA, 0xFE, 0xBA, 0xBE],
        control_information: ci,
    }
}

fn ready(external_master: bool, wmbusmeters: bool, heater: bool, cancelled: bool) -> Readiness {
    Readiness { external_master, wmbusmeters, heater, cancelled }
}

fn sent(action: MuxAction) -> (Port, Frame) {
    match action {
        MuxAction::Send(port, frame) => (port, frame),
        other => panic!("expected a write, got {:?}", other),
    }
}

#[test]
fn test_master_send_nke() {
    let mut mux = Multiplexer::new(ProxyConfig::deployed());
    assert_eq!(
        mux.select_source(ready(true, false, false, false)),
        Some(Source::Port(Port::ExternalMaster))
    );
    let action = mux.on_event(MuxEvent::Received(
        Port::ExternalMaster,
        Frame::Short { control: SND_NKE, address: 0x0 },
    ));
    assert_eq!(sent(action), (Port::ExternalMaster, Frame::Single));
    assert_eq!(mux.state(), MuxState::Idle);
}

#[test]
fn test_wmbusmeter_send_nke() {
    let mut mux = Multiplexer::new(ProxyConfig::deployed());
    assert_eq!(
        mux.select_source(ready(false, true, false, false)),
        Some(Source::Port(Port::Wmbusmeters))
    );
    let action = mux.on_event(MuxEvent::Received(
        Port::Wmbusmeters,
        Frame::Short { control: SND_NKE, address: 0x0 },
    ));
    assert_eq!(sent(action), (Port::Wmbusmeters, Frame::Single));
    assert_eq!(mux.state(), MuxState::Idle);
}

#[test]
fn test_master_forward_req_ud2() {
    let mut mux = Multiplexer::new(ProxyConfig::deployed());
    let action = mux.on_event(MuxEvent::Received(
        Port::ExternalMaster,
        Frame::Short { control: REQ_UD2, address: 0x5A },
    ));
    assert_eq!(sent(action), (Port::Heater, Frame::Short { control: REQ_UD2, address: 0x5A }));
    assert_eq!(mux.state(), MuxState::AwaitingReply(Port::ExternalMaster));
    assert_eq!(
        mux.select_source(ready(true, true, true, false)),
        Some(Source::Port(Port::Heater))
    );
    let action = mux.on_event(MuxEvent::Received(Port::Heater, heater_reply(0x00)));
    assert_eq!(sent(action), (Port::ExternalMaster, heater_reply(0x00)));
    assert_eq!(mux.state(), MuxState::Idle);
}

#[test]
fn test_mux_two_req_ud2s() {
    let mut mux = Multiplexer::new(ProxyConfig::deployed());

    // both masters have a request: the external master goes first
    assert_eq!(
        mux.select_source(ready(true, true, false, false)),
        Some(Source::Port(Port::ExternalMaster))
    );
    let action = mux.on_event(MuxEvent::Received(
        Port::ExternalMaster,
        Frame::Short { control: REQ_UD2, address: 0x5A },
    ));
    assert_eq!(sent(action), (Port::Heater, Frame::Short { control: REQ_UD2, address: 0x5A }));
    let action = mux.on_event(MuxEvent::Received(Port::Heater, heater_reply(0x00)));
    assert_eq!(sent(action), (Port::ExternalMaster, heater_reply(0x00)));

    // then wmbusmeters, whose address is rewritten; the reply is not
    assert_eq!(
        mux.select_source(ready(false, true, false, false)),
        Some(Source::Port(Port::Wmbusmeters))
    );
    let action = mux.on_event(MuxEvent::Received(
        Port::Wmbusmeters,
        Frame::Short { control: REQ_UD2, address: 0xFD },
    ));
    assert_eq!(sent(action), (Port::Heater, Frame::Short { control: REQ_UD2, address: 0x5A }));
    let action = mux.on_event(MuxEvent::Received(Port::Heater, heater_reply(0x01)));
    assert_eq!(sent(action), (Port::Wmbusmeters, heater_reply(0x01)));
    assert_eq!(mux.state(), MuxState::Idle);
}

#[test]
fn test_cancel() {
    let mut mux = Multiplexer::new(ProxyConfig::deployed());
    assert_eq!(mux.select_source(ready(false, false, false, true)), Some(Source::Cancellation));
    assert!(matches!(mux.on_event(MuxEvent::Cancelled), MuxAction::Stop));
    assert_eq!(mux.state(), MuxState::Idle);
}

#[test]
fn nothing_ready_selects_nothing() {
    let mux = Multiplexer::new(ProxyConfig::deployed());
    assert_eq!(mux.select_source(ready(false, false, false, false)), None);
    assert_eq!(mux.select_source(ready(false, false, true, true)), Some(Source::Port(Port::Heater)));
}

#[test]
fn awaiting_reply_listens_to_heater_and_cancellation_only() {
    let mut mux = Multiplexer::new(ProxyConfig::deployed());
    let _ = mux.on_event(MuxEvent::Received(Port::ExternalMaster, Frame::Short { control: REQ_UD2, address: 0x5A }));
    assert_eq!(mux.select_source(ready(true, true, false, false)), None);
    assert_eq!(mux.select_source(ready(true, true, false, true)), Some(Source::Cancellation));
    // a request from elsewhere is not forwarded while one is outstanding
    assert!(matches!(
        mux.on_event(MuxEvent::Received(Port::Wmbusmeters, Frame::Short { control: REQ_UD2, address: 0xFD })),
        MuxAction::Log(Notice::Busy(Port::Wmbusmeters))
    ));
    assert_eq!(mux.state(), MuxState::AwaitingReply(Port::ExternalMaster));
}

#[test]
fn reply_timeout_fails_the_step() {
    let mut mux = Multiplexer::new(ProxyConfig::deployed());
    let _ = mux.on_event(MuxEvent::Received(Port::ExternalMaster, Frame::Short { control: REQ_UD2, address: 0x5A }));
    assert!(matches!(mux.on_event(MuxEvent::ReplyTimedOut), MuxAction::Fail(MuxError::ReplyTimedOut)));
    assert_eq!(mux.state(), MuxState::Idle);
    assert!(matches!(mux.on_event(MuxEvent::ReplyTimedOut), MuxAction::Log(Notice::StrayTimeout)));
}

#[test]
fn read_failure_fails_the_step() {
    let mut mux = Multiplexer::new(ProxyConfig::deployed());
    assert!(matches!(
        mux.on_event(MuxEvent::ReadFailed(Port::Wmbusmeters)),
        MuxAction::Fail(MuxError::ReadFailed(Port::Wmbusmeters))
    ));
}

#[test]
fn master_frames_for_other_slaves_are_dropped() {
    let mut mux = Multiplexer::new(ProxyConfig::deployed());
    assert!(matches!(
        mux.on_event(MuxEvent::Received(Port::ExternalMaster, Frame::Short { control: REQ_UD2, address: 0x12 })),
        MuxAction::Log(Notice::UnknownSlave(0x12))
    ));
    assert!(matches!(
        mux.on_event(MuxEvent::Received(Port::ExternalMaster, Frame::Single)),
        MuxAction::Log(Notice::UnexpectedFrame(Port::ExternalMaster))
    ));
    // a link reset of the heater's own address goes to the heater
    let action = mux.on_event(MuxEvent::Received(Port::ExternalMaster, Frame::Short { control: SND_NKE, address: 0x5A }));
    assert_eq!(sent(action), (Port::Heater, Frame::Short { control: SND_NKE, address: 0x5A }));
}

#[test]
fn master_control_and_long_frames_for_heater_are_forwarded() {
    let mut mux = Multiplexer::new(ProxyConfig::deployed());
    let f = Frame::Control { control: 0x53, address: 0x5A, control_information: 0xBD };
    assert_eq!(sent(mux.on_event(MuxEvent::Received(Port::ExternalMaster, f.clone()))), (Port::Heater, f));
}

#[test]
fn wmbusmeters_init_frame_is_acknowledged_locally() {
    let mut mux = Multiplexer::new(ProxyConfig::deployed());
    let init = Frame::Long {
        control: SND_UD,
        address: 0xFD,
        control_information: 0x51,
        data: vec![0x87, 0x93, 0x27, 0x68, 0xFF, 0xFF, 0xFF, 0xFF],
    };
    assert_eq!(sent(mux.on_event(MuxEvent::Received(Port::Wmbusmeters, init))), (Port::Wmbusmeters, Frame::Single));
    let other = Frame::Long {
        control: SND_UD,
        address: 0xFD,
        control_information: 0x51,
        data: vec![0x87, 0x93, 0x27, 0x68, 0xFF, 0xFF, 0xFF, 0xFE],
    };
    assert!(matches!(
        mux.on_event(MuxEvent::Received(Port::Wmbusmeters, other)),
        MuxAction::Log(Notice::UnexpectedFrame(Port::Wmbusmeters))
    ));
    assert!(matches!(
        mux.on_event(MuxEvent::Received(Port::Wmbusmeters, Frame::Short { control: REQ_UD2, address: 0x33 })),
        MuxAction::Log(Notice::UnexpectedFrame(Port::Wmbusmeters))
    ));
}

#[test]
fn unsolicited_heater_frame_is_only_logged() {
    let mut mux = Multiplexer::new(ProxyConfig::deployed());
    assert!(matches!(
        mux.on_event(MuxEvent::Received(Port::Heater, Frame::Single)),
        MuxAction::Log(Notice::UnexpectedFrame(Port::Heater))
    ));
    assert_eq!(mux.state(), MuxState::Idle);
}

#[test]
fn startup_frame_resets_the_broadcast_address() {
    let config = ProxyConfig::deployed();
    assert_eq!(config.startup_frame(), Frame::Short { control: 0x40, address: 0x00 });
    assert_eq!(config.reply_timeout_ms, 2000);
}
