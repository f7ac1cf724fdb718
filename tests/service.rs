use actix_http::dispatcher::{
    continue_bytes, Action, DispatchError, DispatchState, Event, Phase, TimeoutKind,
};
use actix_http::message::ConnectionType;
use actix_http::config::{KeepAlive, ServiceConfig};
use actix_http::service::{
    init_step, poll_ready, protocol_from_alpn, HttpFlow, HttpService, HttpServiceHandler,
    HttpServiceResponse, InitStage, Protocol,
    NoCallback, Readiness, ServiceKind,
};

#[test]
fn alpn_selects_protocol() {
    assert_eq!(protocol_from_alpn(None), Protocol::Http1);
    assert_eq!(protocol_from_alpn(Some(b"h2")), Protocol::Http2);
    assert_eq!(protocol_from_alpn(Some(b"http/1.1")), Protocol::Http1);
    assert_eq!(protocol_from_alpn(Some(b"")), Protocol::Http1);
    assert_eq!(protocol_from_alpn(Some(b"xh2c")), Protocol::Http1);
    assert_eq!(protocol_from_alpn(Some(b"h2c")), Protocol::Http1);
}

#[test]
fn readiness_needs_every_service() {
    assert_eq!(poll_ready(Readiness::Ready, Readiness::Ready, None), Ok(true));
    assert_eq!(poll_ready(Readiness::Ready, Readiness::Ready, Some(Readiness::Ready)), Ok(true));
    assert_eq!(poll_ready(Readiness::Ready, Readiness::Ready, Some(Readiness::Pending)), Ok(false));
    assert_eq!(poll_ready(Readiness::Pending, Readiness::Ready, None), Ok(false));
    assert_eq!(poll_ready(Readiness::Ready, Readiness::Pending, Some(Readiness::Ready)), Ok(false));
    assert_eq!(poll_ready(Readiness::Failed, Readiness::Failed, None), Err(ServiceKind::Expect));
    assert_eq!(poll_ready(Readiness::Pending, Readiness::Failed, Some(Readiness::Failed)), Err(ServiceKind::Main));
    assert_eq!(poll_ready(Readiness::Ready, Readiness::Ready, Some(Readiness::Failed)), Err(ServiceKind::Upgrade));
}

#[test]
fn services_are_built_in_order() {
    assert_eq!(init_step(InitStage::Expect, true, Readiness::Ready), InitStage::Upgrade);
    assert_eq!(init_step(InitStage::Expect, false, Readiness::Ready), InitStage::Main);
    assert_eq!(init_step(InitStage::Upgrade, true, Readiness::Pending), InitStage::Upgrade);
    assert_eq!(init_step(InitStage::Main, true, Readiness::Ready), InitStage::Done);
    assert_eq!(init_step(InitStage::Main, true, Readiness::Failed), InitStage::Failed);
    assert_eq!(init_step(InitStage::Done, true, Readiness::Failed), InitStage::Done);
}

#[test]
fn flow_holds_its_services() {
    let flow = HttpFlow::new(1u8, 2u16, Some(3u32));
    assert_eq!(flow.service, 1);
    assert_eq!(flow.expect, 2);
    assert_eq!(flow.upgrade, Some(3));
    let other = flow.clone();
    assert_eq!(std::rc::Rc::strong_count(&other), 2);
}

#[test]
fn service_builder_sets_config() {
    let srv = HttpService::build().keep_alive(KeepAlive::Disabled).client_timeout(10).finish("svc");
    assert_eq!(srv.srv, "svc");
    assert_eq!(srv.cfg.keep_alive, KeepAlive::Disabled);
    assert_eq!(srv.cfg.client_timeout, 10);
    assert!(srv.upgrade.is_none());
    let srv = HttpService::new(5u8).expect(7u8).upgrade(Some(9u8));
    assert_eq!(srv.cfg.keep_alive, KeepAlive::Timeout(5));
    assert_eq!(srv.expect, 7);
    assert_eq!(srv.upgrade, Some(9));
    let srv = srv.on_connect_ext(Some(std::rc::Rc::new(NoCallback)));
    assert!(srv.on_connect_ext.is_some());
}

#[test]
fn continue_preface_bytes() {
    assert_eq!(continue_bytes(), b"HTTP/1.1 100 Continue\r\n\r\n".to_vec());
}

#[test]
fn expect_continue_is_answered_before_service() {
    let mut s = DispatchState::new(false);
    assert_eq!(s.step(Event::HeadDecoded { expect_continue: true }), Action::CallExpect);
    assert_eq!(s.step(Event::ExpectAccepted), Action::ContinueThenCallService);
    assert_eq!(s.phase, Phase::AwaitService);
    assert_eq!(s.step(Event::ServiceResponded), Action::EncodeResponse);
    assert_eq!(
        s.step(Event::BodyDone { ctype: ConnectionType::KeepAlive }),
        Action::ReadNext
    );
    assert_eq!((s.invoked, s.answered), (1, 1));
}

#[test]
fn dispatch_counts_match_over_a_connection() {
    let mut s = DispatchState::new(true);
    for _ in 0..3 {
        assert_eq!(s.step(Event::HeadDecoded { expect_continue: false }), Action::CallService);
        assert_eq!(s.invoked, s.answered + 1);
        assert_eq!(s.step(Event::ServiceFailed), Action::EncodeError(500));
        assert_eq!(
            s.step(Event::BodyDone { ctype: ConnectionType::KeepAlive }),
            Action::ReadNext
        );
        assert_eq!(s.invoked, s.answered);
    }
    assert_eq!(s.step(Event::ParseFailed), Action::EncodeError(400));
    assert_eq!(
        s.step(Event::BodyDone { ctype: ConnectionType::KeepAlive }),
        Action::Shutdown
    );
    assert_eq!(s.phase, Phase::Closed);
    assert_eq!((s.invoked, s.answered), (3, 3));
}

#[test]
fn upgrade_hands_over_or_closes() {
    let mut s = DispatchState::new(true);
    s.step(Event::HeadDecoded { expect_continue: false });
    s.step(Event::ServiceResponded);
    assert_eq!(s.step(Event::BodyDone { ctype: ConnectionType::Upgrade }), Action::HandOver);
    assert_eq!(s.phase, Phase::Upgraded);
    let mut s = DispatchState::new(false);
    s.step(Event::HeadDecoded { expect_continue: false });
    s.step(Event::ServiceResponded);
    assert_eq!(s.step(Event::BodyDone { ctype: ConnectionType::Upgrade }), Action::Shutdown);
}

#[test]
fn eof_and_timeouts_end_the_connection() {
    let mut s = DispatchState::new(false);
    assert_eq!(s.step(Event::ReadEof), Action::Stop(None));
    let mut s = DispatchState::new(false);
    s.step(Event::HeadDecoded { expect_continue: false });
    assert_eq!(s.step(Event::ReadEof), Action::Wait);
    s.step(Event::ServiceResponded);
    assert_eq!(
        s.step(Event::BodyDone { ctype: ConnectionType::KeepAlive }),
        Action::Shutdown
    );
    let mut s = DispatchState::new(false);
    assert_eq!(
        s.step(Event::Timeout(TimeoutKind::ClientHead)),
        Action::Stop(Some(DispatchError::Timeout(TimeoutKind::ClientHead)))
    );
    assert_eq!(s.step(Event::IoFailed), Action::Wait);
}

#[test]
fn handler_readiness_counts_upgrade_only_when_configured() {
    let cfg = actix_http::config::ServiceConfig::default();
    let h = HttpServiceHandler::new(cfg.clone(), 1u8, 2u8, None::<u8>, None::<std::rc::Rc<NoCallback>>);
    assert_eq!(h.poll_ready(Readiness::Ready, Readiness::Ready, Readiness::Failed), Ok(true));
    let h = HttpServiceHandler::new(cfg, 1u8, 2u8, Some(3u8), None::<std::rc::Rc<NoCallback>>);
    assert_eq!(
        h.poll_ready(Readiness::Ready, Readiness::Ready, Readiness::Failed),
        Err(ServiceKind::Upgrade)
    );
    assert_eq!(h.flow.upgrade, Some(3));
}

#[test]
fn service_response_polls_through_stages() {
    let mut r = HttpServiceResponse::new(false, ServiceConfig::default(), None::<std::rc::Rc<NoCallback>>);
    assert_eq!(r.poll(Readiness::Pending), InitStage::Expect);
    assert_eq!(r.poll(Readiness::Ready), InitStage::Main);
    assert_eq!(r.poll(Readiness::Ready), InitStage::Done);
}

#[test]
fn pipelined_head_waits_for_response() {
    let mut s = DispatchState::new(false);
    assert_eq!(s.step(Event::HeadDecoded { expect_continue: false }), Action::CallService);
    assert_eq!(s.step(Event::HeadDecoded { expect_continue: false }), Action::Wait);
    assert_eq!(s.queued, Some(false));
    assert_eq!(s.invoked, 1);
    assert_eq!(s.step(Event::ServiceResponded), Action::EncodeResponse);
    assert_eq!(
        s.step(Event::BodyDone { ctype: ConnectionType::KeepAlive }),
        Action::CallService
    );
    assert_eq!((s.invoked, s.answered, s.queued), (2, 1, None));
}

#[test]
fn new_service_builds_upgrade_only_when_configured() {
    let srv = HttpService::new(1u8);
    assert_eq!(srv.cfg.max_headers, actix_http::config::MAX_HEADERS);
    assert_eq!(srv.cfg.max_head_size, actix_http::config::MAX_HEAD_SIZE);
    assert!(srv.cfg.date.is_empty());
    let r = srv.new_service();
    assert_eq!(r.stage, InitStage::Expect);
    assert!(!r.has_upgrade);
    let r = HttpService::new(1u8).upgrade(Some(2u8)).new_service();
    assert!(r.has_upgrade);
}

#[test]
fn timeouts_carry_their_kind() {
    let mut s = DispatchState::new(false);
    s.step(Event::HeadDecoded { expect_continue: false });
    s.step(Event::ServiceResponded);
    s.step(Event::BodyDone { ctype: ConnectionType::KeepAlive });
    assert_eq!(
        s.step(Event::Timeout(TimeoutKind::KeepAlive)),
        Action::Stop(Some(DispatchError::Timeout(TimeoutKind::KeepAlive)))
    );
    assert_eq!(s.phase, Phase::Closed);
    let mut s = DispatchState::new(false);
    assert_eq!(s.step(Event::IoFailed), Action::Stop(Some(DispatchError::Io)));
    assert!(s.is_consistent());
}

#[test]
fn built_services_keep_config_and_callback() {
    let cb = std::rc::Rc::new(NoCallback);
    let srv = HttpService::build()
        .client_timeout(42)
        .finish(1u8)
        .upgrade(Some(3u8))
        .on_connect_ext(Some(cb.clone()));
    let mut r = srv.new_service();
    assert_eq!(r.cfg.client_timeout, 42);
    assert!(std::rc::Rc::ptr_eq(r.on_connect_ext.as_ref().unwrap(), &cb));
    assert_eq!(r.poll(Readiness::Ready), InitStage::Upgrade);
    assert_eq!(r.poll(Readiness::Ready), InitStage::Main);
    assert_eq!(r.poll(Readiness::Ready), InitStage::Done);
    let h = r.finish(10u8, 20u8, Some(30u8));
    assert_eq!(h.cfg.client_timeout, 42);
    assert_eq!(h.flow.service, 10);
    assert_eq!(h.flow.expect, 20);
    assert_eq!(h.flow.upgrade, Some(30));
    assert!(h.on_connect_ext.is_some());
}
