//! Remote tunnels: a provider that connects and disconnects, and a manager that drives it
//! and keeps its latency metrics fresh while it is active.
use vstd::prelude::*;
use vstd::string::*;
use crate::text::{lowercase, to_lowercase};

verus! {

broadcast use vstd::string::group_string_axioms;

/// Connection state of a tunnel.
#[derive(Clone, Copy, Debug, PartialEq, Eq, Structural)]
pub enum TunnelState {
    Disconnected,
    Connecting,
    Connected,
    Reconnecting,
}

/// A snapshot of a tunnel.
pub struct TunnelStatus {
    pub state: TunnelState,
    pub public_url: Option<String>,
    pub provider: String,
    pub latency_ms: u32,
    pub reconnect_count: u32,
}

/// A tunnel provider. `update_metrics` takes the current wall-clock time in milliseconds
/// since the Unix epoch (0 when the clock reads before it).
pub trait TunnelProvider {
    fn name(&self) -> &str;

    fn connect(&mut self) -> Result<String, String>;

    fn disconnect(&mut self) -> Result<(), String>;

    fn get_status(&self) -> TunnelStatus;

    fn update_metrics(&mut self, now_millis: u128);
}

/// The plain values a provider holds.
pub struct ProviderView {
    pub name: Seq<char>,
    pub state: TunnelState,
    pub public_url: Option<Seq<char>>,
    pub latency_ms: u32,
    pub reconnect_count: u32,
}

/// The URL a provider named `name` publishes.
pub open spec fn session_url(name: Seq<char>) -> Seq<char> {
    "https://"@ + lowercase(name) + ".workspaceos.dev/mcp-session"@
}

/// A provider after `connect`.
pub open spec fn connected(p: ProviderView) -> ProviderView {
    ProviderView {
        state: TunnelState::Connected,
        public_url: Some(session_url(p.name)),
        latency_ms: 12,
        ..p
    }
}

/// A provider after `disconnect`.
pub open spec fn disconnected(p: ProviderView) -> ProviderView {
    ProviderView { state: TunnelState::Disconnected, public_url: None, latency_ms: 0, ..p }
}

/// A provider after a metrics update at `now_millis`.
pub open spec fn after_metrics(p: ProviderView, now_millis: u128) -> ProviderView {
    if p.state == TunnelState::Connected {
        ProviderView { latency_ms: (10 + now_millis % 20) as u32, ..p }
    } else {
        p
    }
}

/// A provider that simulates a remote tunnel without any network traffic.
pub struct MockTunnelProvider {
    name: String,
    state: TunnelState,
    public_url: Option<String>,
    latency_ms: u32,
    reconnect_count: u32,
}

impl View for MockTunnelProvider {
    type V = ProviderView;

    closed spec fn view(&self) -> ProviderView {
        ProviderView {
            name: self.name@,
            state: self.state,
            public_url: match self.public_url {
                Some(u) => Some(u@),
                None => None,
            },
            latency_ms: self.latency_ms,
            reconnect_count: self.reconnect_count,
        }
    }
}

/// The status that reports a provider's values.
pub open spec fn status_matches(s: TunnelStatus, p: ProviderView) -> bool {
    &&& s.state == p.state
    &&& s.public_url.deep_view() == p.public_url
    &&& s.provider@ == p.name
    &&& s.latency_ms == p.latency_ms
    &&& s.reconnect_count == p.reconnect_count
}

impl MockTunnelProvider {
    pub fn new(name: &str) -> (r: Self)
        ensures
            r@ == (ProviderView {
                name: name@,
                state: TunnelState::Disconnected,
                public_url: None,
                latency_ms: 0,
                reconnect_count: 0,
            }),
    {
        MockTunnelProvider {
            name: String::from_str(name),
            state: TunnelState::Disconnected,
            public_url: None,
            latency_ms: 0,
            reconnect_count: 0,
        }
    }
}

impl TunnelProvider for MockTunnelProvider {
    fn name(&self) -> (r: &str)
        ensures
            r@ == self@.name,
    {
        self.name.as_str()
    }

    fn connect(&mut self) -> (r: Result<String, String>)
        ensures
            final(self)@ == connected(old(self)@),
            r is Ok,
            r->Ok_0@ == session_url(old(self)@.name),
    {
        self.state = TunnelState::Connecting;
        self.state = TunnelState::Connected;
        let lower = to_lowercase(self.name.as_str());
        let mut url = String::from_str("https://");
        url.append(lower.as_str());
        url.append(".workspaceos.dev/mcp-session");
        self.public_url = Some(url.clone());
        self.latency_ms = 12;
        Ok(url)
    }

    fn disconnect(&mut self) -> (r: Result<(), String>)
        ensures
            final(self)@ == disconnected(old(self)@),
            r is Ok,
    {
        self.state = TunnelState::Disconnected;
        self.public_url = None;
        self.latency_ms = 0;
        Ok(())
    }

    fn get_status(&self) -> (r: TunnelStatus)
        ensures
            status_matches(r, self@),
    {
        TunnelStatus {
            state: self.state,
            public_url: self.public_url.clone(),
            provider: self.name.clone(),
            latency_ms: self.latency_ms,
            reconnect_count: self.reconnect_count,
        }
    }

    fn update_metrics(&mut self, now_millis: u128)
        ensures
            final(self)@ == after_metrics(old(self)@, now_millis),
    {
        if self.state == TunnelState::Connected {
            let rand_val = (now_millis % 20) as u32;
            self.latency_ms = 10 + rand_val;
        }
    }
}

/// Drives a tunnel provider; `active` tells whether the metrics updater should run.
pub struct TunnelManager {
    provider: MockTunnelProvider,
    active: bool,
}

impl TunnelManager {
    /// The values of the managed provider.
    pub closed spec fn provider_view(&self) -> ProviderView {
        self.provider@
    }

    /// Whether the metrics updater should be running.
    pub closed spec fn active_spec(&self) -> bool {
        self.active
    }

    pub fn new(provider_name: &str) -> (r: Self)
        ensures
            r.provider_view() == (ProviderView {
                name: provider_name@,
                state: TunnelState::Disconnected,
                public_url: None,
                latency_ms: 0,
                reconnect_count: 0,
            }),
            !r.active_spec(),
    {
        TunnelManager { provider: MockTunnelProvider::new(provider_name), active: false }
    }

    /// Connects the provider and marks the manager active. The caller starts the metrics
    /// updater when the manager was not active before the call.
    pub fn start_tunnel(&mut self) -> (r: Result<String, String>)
        ensures
            final(self).provider_view() == connected(old(self).provider_view()),
            final(self).active_spec(),
            r is Ok,
            r->Ok_0@ == session_url(old(self).provider_view().name),
    {
        let url = self.provider.connect()?;
        self.active = true;
        Ok(url)
    }

    /// Disconnects the provider and stops the metrics updater.
    pub fn stop_tunnel(&mut self) -> (r: Result<(), String>)
        ensures
            final(self).provider_view() == disconnected(old(self).provider_view()),
            !final(self).active_spec(),
            r is Ok,
    {
        self.provider.disconnect()?;
        self.active = false;
        Ok(())
    }

    pub fn get_status(&self) -> (r: TunnelStatus)
        ensures
            status_matches(r, self.provider_view()),
    {
        self.provider.get_status()
    }

    /// Whether the metrics updater should keep running.
    pub fn is_active(&self) -> (r: bool)
        ensures
            r == self.active_spec(),
    {
        self.active
    }

    /// One round of the metrics updater: refreshes the latency while the manager is active.
    pub fn metrics_tick(&mut self, now_millis: u128)
        ensures
            final(self).active_spec() == old(self).active_spec(),
            old(self).active_spec() ==> final(self).provider_view() == after_metrics(
                old(self).provider_view(),
                now_millis,
            ),
            !old(self).active_spec() ==> final(self).provider_view() == old(
                self,
            ).provider_view(),
    {
        if self.active {
            self.provider.update_metrics(now_millis);
        }
    }
}

/// Disconnecting after connecting leaves the provider as disconnecting alone would.
pub proof fn law_stop_undoes_start(p: ProviderView)
    ensures
        disconnected(connected(p)) == disconnected(p),
{
}

/// A connected provider reports `Connected` with its session URL; a disconnected one
/// reports `Disconnected` without a URL.
pub proof fn law_connection_status(p: ProviderView)
    ensures
        connected(p).state == TunnelState::Connected,
        connected(p).public_url == Some(session_url(p.name)),
        disconnected(p).state == TunnelState::Disconnected,
        disconnected(p).public_url is None,
{
}

/// Metrics updates keep the latency between 10 and 29 ms while connected and never touch
/// the connection itself.
pub proof fn law_metrics_bounded(p: ProviderView, now_millis: u128)
    ensures
        after_metrics(p, now_millis).state == p.state,
        after_metrics(p, now_millis).public_url == p.public_url,
        p.state == TunnelState::Connected ==> 10 <= after_metrics(p, now_millis).latency_ms
            <= 29,
{
}

/// What a provider named `name` shows between calls: its name, no reconnects, and either
/// connected with its session URL and a latency of 10 to 29 ms, or disconnected without a
/// URL and with no latency.
pub open spec fn status_consistent(p: ProviderView, name: Seq<char>) -> bool {
    &&& p.name == name
    &&& p.reconnect_count == 0
    &&& ((p.state == TunnelState::Connected && p.public_url == Some(session_url(name)) && 10
        <= p.latency_ms <= 29) || (p.state == TunnelState::Disconnected && p.public_url is None
        && p.latency_ms == 0))
}

/// A new provider, connects, disconnects and metrics updates all keep the provider
/// consistent, so whatever sequence of `start_tunnel`, `stop_tunnel` and `metrics_tick`
/// calls a manager sees, `get_status` reports a consistent status.
pub proof fn law_status_stays_consistent(p: ProviderView, name: Seq<char>, now_millis: u128)
    ensures
        status_consistent(
            ProviderView {
                name,
                state: TunnelState::Disconnected,
                public_url: None,
                latency_ms: 0,
                reconnect_count: 0,
            },
            name,
        ),
        status_consistent(p, name) ==> status_consistent(connected(p), name),
        status_consistent(p, name) ==> status_consistent(disconnected(p), name),
        status_consistent(p, name) ==> status_consistent(after_metrics(p, now_millis), name),
{
}

} // verus!
