use workspaceos::tunnel::{MockTunnelProvider, TunnelManager, TunnelProvider, TunnelState};

#[test]
fn test_tunnel_state_transitions() {
    let mut manager = TunnelManager::new("Cloudflare");

    // Initial state
    let status = manager.get_status();
    assert_eq!(status.state, TunnelState::Disconnected);
    assert_eq!(status.public_url, None);

    // Connect
    let url = manager.start_tunnel().unwrap();
    assert!(url.contains("cloudflare.workspaceos.dev"));

    let status = manager.get_status();
    assert_eq!(status.state, TunnelState::Connected);
    assert_eq!(status.public_url, Some(url));

    // Disconnect
    manager.stop_tunnel().unwrap();
    let status = manager.get_status();
    assert_eq!(status.state, TunnelState::Disconnected);
    assert_eq!(status.public_url, None);
}

#[test]
fn connect_publishes_the_session_url() {
    let mut p = MockTunnelProvider::new("Cloudflare");
    assert_eq!(p.name(), "Cloudflare");
    let url = p.connect().unwrap();
    assert_eq!(url, "https://cloudflare.workspaceos.dev/mcp-session");
    let st = p.get_status();
    assert_eq!(st.latency_ms, 12);
    assert_eq!(st.provider, "Cloudflare");
    assert_eq!(st.reconnect_count, 0);
}

#[test]
fn metrics_vary_only_while_connected() {
    let mut p = MockTunnelProvider::new("Ngrok");
    p.update_metrics(1_000_007);
    assert_eq!(p.get_status().latency_ms, 0);
    p.connect().unwrap();
    p.update_metrics(1_000_007);
    assert_eq!(p.get_status().latency_ms, 17);
    p.disconnect().unwrap();
    assert_eq!(p.get_status().latency_ms, 0);
}

#[test]
fn the_manager_is_active_between_start_and_stop() {
    let mut m = TunnelManager::new("Local");
    assert!(!m.is_active());
    m.start_tunnel().unwrap();
    assert!(m.is_active());
    m.metrics_tick(39);
    let st = m.get_status();
    assert_eq!(st.latency_ms, 29);
    assert!((10..30).contains(&st.latency_ms));
    m.stop_tunnel().unwrap();
    assert!(!m.is_active());
    m.metrics_tick(5);
    assert_eq!(m.get_status().latency_ms, 0);
}

#[test]
fn status_stays_consistent_over_any_sequence() {
    let mut m = TunnelManager::new("Cloudflare");
    let check = |m: &TunnelManager| {
        let s = m.get_status();
        assert_eq!(s.provider, "Cloudflare");
        assert_eq!(s.reconnect_count, 0);
        match s.state {
            TunnelState::Connected => {
                assert_eq!(s.public_url.as_deref(), Some("https://cloudflare.workspaceos.dev/mcp-session"));
                assert!((10..=29).contains(&s.latency_ms));
            }
            TunnelState::Disconnected => {
                assert!(s.public_url.is_none());
                assert_eq!(s.latency_ms, 0);
            }
            other => panic!("unexpected state {:?}", other),
        }
    };
    check(&m);
    m.start_tunnel().unwrap();
    check(&m);
    m.metrics_tick(123_456_789);
    check(&m);
    m.start_tunnel().unwrap();
    check(&m);
    m.stop_tunnel().unwrap();
    check(&m);
    m.metrics_tick(7);
    check(&m);
    m.stop_tunnel().unwrap();
    check(&m);
}
