//! Server configuration that the codec and the dispatcher read.
use vstd::prelude::*;

verus! {

/// Keep-alive policy of the server.
#[derive(Clone, Copy, PartialEq, Eq, Debug, Structural)]
pub enum KeepAlive {
    /// Every connection closes after one exchange.
    Disabled,
    /// Idle connections close after this many seconds.
    Timeout(u64),
    /// The operating system's keep-alive is relied on.
    Os,
}

/// The bound on the size of a request head, in bytes.
pub const MAX_HEAD_SIZE: usize = 131072;

/// The bound on the number of headers of a request.
pub const MAX_HEADERS: usize = 96;

/// Read-only settings of a server.
#[derive(Clone, Debug)]
pub struct ServiceConfig {
    pub keep_alive: KeepAlive,
    /// Time from accept to a complete request head, in milliseconds (0: none).
    pub client_timeout: u64,
    /// Budget for a graceful close, in milliseconds (0: none).
    pub client_shutdown: u64,
    pub max_head_size: usize,
    pub max_headers: usize,
    /// The current value of the `Date` header, which the owner refreshes.
    pub date: Vec<u8>,
}

impl ServiceConfig {
    pub fn new(keep_alive: KeepAlive, client_timeout: u64, client_shutdown: u64) -> (r: ServiceConfig)
        ensures
            r.keep_alive == keep_alive,
            r.client_timeout == client_timeout,
            r.client_shutdown == client_shutdown,
            r.max_head_size == MAX_HEAD_SIZE,
            r.max_headers == MAX_HEADERS,
            r.date@.len() == 0,
    {
        ServiceConfig {
            keep_alive,
            client_timeout,
            client_shutdown,
            max_head_size: MAX_HEAD_SIZE,
            max_headers: MAX_HEADERS,
            date: Vec::new(),
        }
    }

    /// Two configurations that agree on every setting and on the date.
    pub open spec fn same_as(&self, other: ServiceConfig) -> bool {
        &&& self.keep_alive == other.keep_alive
        &&& self.client_timeout == other.client_timeout
        &&& self.client_shutdown == other.client_shutdown
        &&& self.max_head_size == other.max_head_size
        &&& self.max_headers == other.max_headers
        &&& self.date@ == other.date@
    }

    /// A copy of this configuration.
    pub fn copied(&self) -> (r: ServiceConfig)
        ensures
            r.same_as(*self),
    {
        let date = crate::message::copy_range(self.date.as_slice(), 0, self.date.len());
        assert(self.date@.subrange(0, self.date@.len() as int) =~= self.date@);
        ServiceConfig {
            keep_alive: self.keep_alive,
            client_timeout: self.client_timeout,
            client_shutdown: self.client_shutdown,
            max_head_size: self.max_head_size,
            max_headers: self.max_headers,
            date,
        }
    }

    pub open spec fn spec_keep_alive_enabled(&self) -> bool {
        !(self.keep_alive is Disabled)
    }

    /// Whether the policy permits reusing a connection at all.
    pub fn keep_alive_enabled(&self) -> (r: bool)
        ensures
            r == self.spec_keep_alive_enabled(),
    {
        match self.keep_alive {
            KeepAlive::Disabled => false,
            _ => true,
        }
    }
}

impl Default for ServiceConfig {
    /// Keep-alive for 5 seconds, a client timeout of 5 seconds, no shutdown budget.
    fn default() -> (r: ServiceConfig)
        ensures
            r.keep_alive == KeepAlive::Timeout(5),
            r.client_timeout == 5000,
            r.client_shutdown == 0,
            r.max_head_size == MAX_HEAD_SIZE,
            r.max_headers == MAX_HEADERS,
            r.date@.len() == 0,
    {
        ServiceConfig::new(KeepAlive::Timeout(5), 5000, 0)
    }
}

} // verus!
