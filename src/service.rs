//! The per-server and per-connection entry: the services that handle a
//! request flow, protocol selection, and the readiness of the services.
use vstd::prelude::*;
use std::rc::Rc;
use crate::config::{KeepAlive, ServiceConfig};

verus! {

/// The protocol of an accepted connection.
#[derive(Clone, Copy, PartialEq, Eq, Debug, Structural)]
pub enum Protocol {
    Http1,
    Http2,
}

/// The ALPN name of HTTP/2: `h2`.
pub open spec fn alpn_h2() -> Seq<u8> {
    seq![104u8, 50u8]
}

pub open spec fn alpn_selects_h2(selected: Option<&[u8]>) -> bool {
    match selected {
        Some(p) => p@ == alpn_h2(),
        None => false,
    }
}

/// The protocol that an ALPN negotiation picked: HTTP/2 where the selected
/// name is exactly `h2`, HTTP/1 for every other name and where nothing was
/// negotiated.
pub fn protocol_from_alpn(selected: Option<&[u8]>) -> (r: Protocol)
    ensures
        (r == Protocol::Http2) == alpn_selects_h2(selected),
{
    match selected {
        None => Protocol::Http1,
        Some(p) => {
            if p.len() == 2 && p[0] == 104u8 && p[1] == 50u8 {
                assert(p@ =~= alpn_h2());
                Protocol::Http2
            } else {
                assert(p@.len() == 2 ==> p@[0] != 104u8 || p@[1] != 50u8);
                Protocol::Http1
            }
        },
    }
}

/// The outcome of polling one service for readiness.
#[derive(Clone, Copy, PartialEq, Eq, Debug, Structural)]
pub enum Readiness {
    Ready,
    Pending,
    Failed,
}

/// One of the services of a request flow.
#[derive(Clone, Copy, PartialEq, Eq, Debug, Structural)]
pub enum ServiceKind {
    Main,
    Expect,
    Upgrade,
}

/// The readiness of a flow: the first service that failed, polled in the
/// order expect, main, upgrade; else whether every one of them is ready.
pub open spec fn flow_readiness(expect: Readiness, main: Readiness, upgrade: Option<Readiness>) -> Result<bool, ServiceKind> {
    if expect == Readiness::Failed {
        Err(ServiceKind::Expect)
    } else if main == Readiness::Failed {
        Err(ServiceKind::Main)
    } else if upgrade == Some(Readiness::Failed) {
        Err(ServiceKind::Upgrade)
    } else {
        Ok(expect == Readiness::Ready && main == Readiness::Ready && (upgrade is None || upgrade == Some(Readiness::Ready)))
    }
}

/// Combines the readiness of the services of a flow; a connection is
/// accepted only when all of them are ready.
pub fn poll_ready(expect: Readiness, main: Readiness, upgrade: Option<Readiness>) -> (r: Result<bool, ServiceKind>)
    ensures
        r == flow_readiness(expect, main, upgrade),
{
    if expect == Readiness::Failed {
        return Err(ServiceKind::Expect);
    }
    if main == Readiness::Failed {
        return Err(ServiceKind::Main);
    }
    let up_ready = match upgrade {
        None => true,
        Some(Readiness::Failed) => {
            return Err(ServiceKind::Upgrade);
        },
        Some(u) => u == Readiness::Ready,
    };
    Ok(expect == Readiness::Ready && main == Readiness::Ready && up_ready)
}

/// The services that handle the requests of one connection.
pub struct HttpFlow<S, X, U> {
    pub service: S,
    pub expect: X,
    pub upgrade: Option<U>,
}

impl<S, X, U> HttpFlow<S, X, U> {
    /// A flow, shared by every task of a connection.
    pub fn new(service: S, expect: X, upgrade: Option<U>) -> (r: Rc<HttpFlow<S, X, U>>)
        ensures
            r.service == service,
            r.expect == expect,
            r.upgrade == upgrade,
    {
        Rc::new(HttpFlow { service, expect, upgrade })
    }
}

/// The stages of building the services of a connection: the expect service,
/// then the upgrade service where one is configured, then the main service.
#[derive(Clone, Copy, PartialEq, Eq, Debug, Structural)]
pub enum InitStage {
    Expect,
    Upgrade,
    Main,
    Done,
    Failed,
}

/// The stage after polling the factory of `stage`.
pub open spec fn init_next(stage: InitStage, has_upgrade: bool, polled: Readiness) -> InitStage {
    match stage {
        InitStage::Expect | InitStage::Upgrade | InitStage::Main => match polled {
            Readiness::Pending => stage,
            Readiness::Failed => InitStage::Failed,
            Readiness::Ready => match stage {
                InitStage::Expect => if has_upgrade { InitStage::Upgrade } else { InitStage::Main },
                InitStage::Upgrade => InitStage::Main,
                _ => InitStage::Done,
            },
        },
        _ => stage,
    }
}

/// Advances the building of a connection's services by one poll.
pub fn init_step(stage: InitStage, has_upgrade: bool, polled: Readiness) -> (r: InitStage)
    ensures
        r == init_next(stage, has_upgrade, polled),
{
    match stage {
        InitStage::Expect | InitStage::Upgrade | InitStage::Main => match polled {
            Readiness::Pending => stage,
            Readiness::Failed => InitStage::Failed,
            Readiness::Ready => match stage {
                InitStage::Expect => if has_upgrade { InitStage::Upgrade } else { InitStage::Main },
                InitStage::Upgrade => InitStage::Main,
                _ => InitStage::Done,
            },
        },
        _ => stage,
    }
}

/// The default expect service: it forwards every request unchanged.
#[derive(Clone, Copy, PartialEq, Eq, Debug, Structural)]
pub struct ExpectHandler;

/// The default upgrade service, which is never configured.
#[derive(Clone, Copy, PartialEq, Eq, Debug, Structural)]
pub struct UpgradeHandler;

/// No callback on connect.
#[derive(Clone, Copy, PartialEq, Eq, Debug, Structural)]
pub struct NoCallback;

/// A server of HTTP/1.1 and HTTP/2: its configuration and the services
/// (or their factories) of its request flow.
pub struct HttpService<S, X, U, C> {
    pub srv: S,
    pub cfg: ServiceConfig,
    pub expect: X,
    pub upgrade: Option<U>,
    pub on_connect_ext: Option<Rc<C>>,
}

/// Builds the configuration of an [`HttpService`].
pub struct HttpServiceBuilder {
    pub keep_alive: KeepAlive,
    pub client_timeout: u64,
    pub client_disconnect: u64,
}

impl HttpServiceBuilder {
    /// Keep-alive for 5 seconds, a client timeout of 5 seconds, no disconnect budget.
    pub fn new() -> (r: HttpServiceBuilder)
        ensures
            r.keep_alive == KeepAlive::Timeout(5),
            r.client_timeout == 5000,
            r.client_disconnect == 0,
    {
        HttpServiceBuilder { keep_alive: KeepAlive::Timeout(5), client_timeout: 5000, client_disconnect: 0 }
    }

    pub fn keep_alive(self, ka: KeepAlive) -> (r: HttpServiceBuilder)
        ensures
            r == (HttpServiceBuilder { keep_alive: ka, ..self }),
    {
        HttpServiceBuilder { keep_alive: ka, ..self }
    }

    pub fn client_timeout(self, ms: u64) -> (r: HttpServiceBuilder)
        ensures
            r == (HttpServiceBuilder { client_timeout: ms, ..self }),
    {
        HttpServiceBuilder { client_timeout: ms, ..self }
    }

    pub fn client_disconnect(self, ms: u64) -> (r: HttpServiceBuilder)
        ensures
            r == (HttpServiceBuilder { client_disconnect: ms, ..self }),
    {
        HttpServiceBuilder { client_disconnect: ms, ..self }
    }

    /// The service with this configuration, the default expect service and
    /// no upgrade service.
    pub fn finish<S>(self, service: S) -> (r: HttpService<S, ExpectHandler, UpgradeHandler, NoCallback>)
        ensures
            r.srv == service,
            r.cfg.keep_alive == self.keep_alive,
            r.cfg.client_timeout == self.client_timeout,
            r.cfg.client_shutdown == self.client_disconnect,
            r.cfg.max_head_size == crate::config::MAX_HEAD_SIZE,
            r.cfg.max_headers == crate::config::MAX_HEADERS,
            r.cfg.date@.len() == 0,
            r.expect == ExpectHandler,
            r.upgrade is None,
            r.on_connect_ext is None,
    {
        let cfg = ServiceConfig::new(self.keep_alive, self.client_timeout, self.client_disconnect);
        HttpService::with_config(cfg, service)
    }
}

impl HttpService<(), ExpectHandler, UpgradeHandler, NoCallback> {
    /// A builder of a service.
    pub fn build() -> (r: HttpServiceBuilder)
        ensures
            r.keep_alive == KeepAlive::Timeout(5),
            r.client_timeout == 5000,
            r.client_disconnect == 0,
    {
        HttpServiceBuilder::new()
    }
}

impl<S> HttpService<S, ExpectHandler, UpgradeHandler, NoCallback> {
    /// A service with keep-alive for 5 seconds and a client timeout of 5 seconds.
    pub fn new(service: S) -> (r: Self)
        ensures
            r.srv == service,
            r.cfg.keep_alive == KeepAlive::Timeout(5),
            r.cfg.client_timeout == 5000,
            r.cfg.client_shutdown == 0,
            r.cfg.max_head_size == crate::config::MAX_HEAD_SIZE,
            r.cfg.max_headers == crate::config::MAX_HEADERS,
            r.cfg.date@.len() == 0,
            r.expect == ExpectHandler,
            r.upgrade is None,
            r.on_connect_ext is None,
    {
        let cfg = ServiceConfig::new(KeepAlive::Timeout(5), 5000, 0);
        Self::with_config(cfg, service)
    }

    /// A service with configuration `cfg`.
    pub fn with_config(cfg: ServiceConfig, service: S) -> (r: Self)
        ensures
            r.srv == service,
            r.cfg == cfg,
            r.expect == ExpectHandler,
            r.upgrade is None,
            r.on_connect_ext is None,
    {
        HttpService { srv: service, cfg, expect: ExpectHandler, upgrade: None, on_connect_ext: None }
    }
}

impl<S, X, U, C> HttpService<S, X, U, C> {
    /// The same service with `expect` answering `Expect: 100-continue`.
    pub fn expect<X1>(self, expect: X1) -> (r: HttpService<S, X1, U, C>)
        ensures
            r.expect == expect,
            r.srv == self.srv,
            r.cfg == self.cfg,
            r.upgrade == self.upgrade,
            r.on_connect_ext == self.on_connect_ext,
    {
        HttpService { srv: self.srv, cfg: self.cfg, expect, upgrade: self.upgrade, on_connect_ext: self.on_connect_ext }
    }

    /// The same service with `upgrade` taking over upgraded connections.
    pub fn upgrade<U1>(self, upgrade: Option<U1>) -> (r: HttpService<S, X, U1, C>)
        ensures
            r.upgrade == upgrade,
            r.srv == self.srv,
            r.cfg == self.cfg,
            r.expect == self.expect,
            r.on_connect_ext == self.on_connect_ext,
    {
        HttpService { srv: self.srv, cfg: self.cfg, expect: self.expect, upgrade, on_connect_ext: self.on_connect_ext }
    }

    /// The building of the services of one connection: the upgrade service
    /// is built only where one is configured.
    pub fn new_service(&self) -> (r: HttpServiceResponse<C>)
        ensures
            r.stage == InitStage::Expect,
            r.has_upgrade == (self.upgrade is Some),
            r.cfg.same_as(self.cfg),
            r.on_connect_ext == self.on_connect_ext,
    {
        HttpServiceResponse::new(self.upgrade.is_some(), self.cfg.copied(), callback_clone(&self.on_connect_ext))
    }

    /// The same service with `f` called on each accepted connection.
    pub fn on_connect_ext(self, f: Option<Rc<C>>) -> (r: Self)
        ensures
            r == (HttpService { on_connect_ext: f, ..self }),
    {
        HttpService { on_connect_ext: f, ..self }
    }
}

/// The building of a connection's services, one poll at a time.
pub struct HttpServiceResponse<C> {
    pub stage: InitStage,
    pub has_upgrade: bool,
    /// The configuration that the finished handler gets.
    pub cfg: ServiceConfig,
    /// The connect callback that the finished handler gets.
    pub on_connect_ext: Option<Rc<C>>,
}

/// Relies on `Rc::clone`: another pointer to the same value.
#[verifier::external_body]
fn rc_clone<C>(r: &Rc<C>) -> (s: Rc<C>)
    ensures
        s == *r,
{
    Rc::clone(r)
}

fn callback_clone<C>(f: &Option<Rc<C>>) -> (r: Option<Rc<C>>)
    ensures
        r == *f,
{
    match f {
        Some(c) => Some(rc_clone(c)),
        None => None,
    }
}

impl<C> HttpServiceResponse<C> {
    pub fn new(has_upgrade: bool, cfg: ServiceConfig, on_connect_ext: Option<Rc<C>>) -> (r: HttpServiceResponse<C>)
        ensures
            r.stage == InitStage::Expect,
            r.has_upgrade == has_upgrade,
            r.cfg == cfg,
            r.on_connect_ext == on_connect_ext,
    {
        HttpServiceResponse { stage: InitStage::Expect, has_upgrade, cfg, on_connect_ext }
    }

    /// Records the outcome of polling the factory of the current stage, and
    /// returns the stage after it.
    pub fn poll(&mut self, polled: Readiness) -> (r: InitStage)
        ensures
            r == init_next(old(self).stage, old(self).has_upgrade, polled),
            *final(self) == (HttpServiceResponse { stage: r, ..*old(self) }),
    {
        self.stage = init_step(self.stage, self.has_upgrade, polled);
        self.stage
    }

    /// The handler of a connection, once every service is built: it holds
    /// the built services, and the configuration and callback of the server.
    pub fn finish<S, X, U>(self, service: S, expect: X, upgrade: Option<U>) -> (r: HttpServiceHandler<S, X, U, C>)
        requires
            self.stage == InitStage::Done,
            (upgrade is Some) == self.has_upgrade,
        ensures
            r.cfg == self.cfg,
            r.on_connect_ext == self.on_connect_ext,
            r.flow.service == service,
            r.flow.expect == expect,
            r.flow.upgrade == upgrade,
    {
        HttpServiceHandler::new(self.cfg, service, expect, upgrade, self.on_connect_ext)
    }
}

/// The per-connection entry of a server: its flow, configuration and
/// connect callback.
pub struct HttpServiceHandler<S, X, U, C> {
    pub flow: Rc<HttpFlow<S, X, U>>,
    pub cfg: ServiceConfig,
    pub on_connect_ext: Option<Rc<C>>,
}

impl<S, X, U, C> HttpServiceHandler<S, X, U, C> {
    pub fn new(cfg: ServiceConfig, service: S, expect: X, upgrade: Option<U>, on_connect_ext: Option<Rc<C>>) -> (r: Self)
        ensures
            r.flow.service == service,
            r.flow.expect == expect,
            r.flow.upgrade == upgrade,
            r.cfg == cfg,
            r.on_connect_ext == on_connect_ext,
    {
        HttpServiceHandler { flow: HttpFlow::new(service, expect, upgrade), cfg, on_connect_ext }
    }

    /// The readiness of the flow from the polls of its services; the poll of
    /// the upgrade service counts only where one is configured.
    pub fn poll_ready(&self, expect: Readiness, main: Readiness, upgrade: Readiness) -> (r: Result<bool, ServiceKind>)
        ensures
            r == flow_readiness(expect, main, if self.flow.upgrade is Some { Some(upgrade) } else { None }),
    {
        let up = match &self.flow.upgrade {
            Some(_) => Some(upgrade),
            None => None,
        };
        poll_ready(expect, main, up)
    }
}

} // verus!
