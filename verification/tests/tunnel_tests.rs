use qwen_image_studio::tunnel::{
    cloudflared_locations, cloudflared_path, find_url, loopback_host, tunnel_args, Tunnel,
    TunnelState, INSTALL_HINT,
};

#[test]
fn url_in_cloudflared_banner() {
    let line = "2024-01-01T00:00:00Z INF |  https://sword-hello-quiet.trycloudflare.com                                      |";
    assert_eq!(find_url(line).as_deref(), Some("https://sword-hello-quiet.trycloudflare.com"));
    assert_eq!(find_url("see \"https://a-b.trycloudflare.com/\" now").as_deref(), Some("https://a-b.trycloudflare.com"));
    assert_eq!(find_url("https://a.trycloudflare.com///").as_deref(), Some("https://a.trycloudflare.com"));
}

#[test]
fn other_urls_are_ignored() {
    assert_eq!(find_url("Visit https://www.cloudflare.com/terms for details"), None);
    assert_eq!(find_url("no url here"), None);
    assert_eq!(find_url("http://a.trycloudflare.com"), None);
    assert_eq!(find_url("https://a.trycloudflare.com.evil.net"), None);
}

#[test]
fn hostname_of_tunnel_url() {
    let mut t = Tunnel::default();
    assert_eq!(t.host(), None);
    t.url = Some("https://a-b.trycloudflare.com/sec/mcp".into());
    assert_eq!(t.host().as_deref(), Some("a-b.trycloudflare.com"));
    t.url = Some("http://x/y".into());
    assert_eq!(t.host(), None);
}

#[test]
fn new_url_until_copied() {
    let mut t = Tunnel::default();
    assert_eq!(t.state, TunnelState::Off);
    t.begin_connecting();
    assert_eq!(t.state, TunnelState::Connecting);
    assert!(!t.observe_line("INF Starting tunnel", "sec"));
    assert!(t.observe_line("INF | https://q.trycloudflare.com |", "sec"));
    assert_eq!(t.url.as_deref(), Some("https://q.trycloudflare.com/sec/mcp"));
    assert_eq!(t.state, TunnelState::Up);
    assert!(t.is_new);
    t.mark_copied();
    assert!(!t.is_new);
    // The same URL printed again does not make it new.
    assert!(!t.observe_line("https://q.trycloudflare.com", "sec"));
    assert!(!t.is_new);
    // A different one does.
    assert!(t.observe_line("https://r.trycloudflare.com", "sec"));
    assert!(t.is_new);
}

#[test]
fn first_request_through_tunnel_is_recorded() {
    let mut t = Tunnel::default();
    t.url = Some("https://q.trycloudflare.com/sec/mcp".into());
    assert_eq!(t.note_host("localhost:8765", "09:13".into()), (false, false));
    assert_eq!(t.connected_at, None);
    assert_eq!(t.note_host("q.trycloudflare.com", "09:14".into()), (true, true));
    assert_eq!(t.connected_at.as_deref(), Some("09:14"));
    assert_eq!(t.note_host("q.trycloudflare.com", "09:20".into()), (true, false));
    assert_eq!(t.connected_at.as_deref(), Some("09:14"));
}

#[test]
fn failure_and_restart() {
    let mut t = Tunnel::default();
    t.begin_connecting();
    t.spawn_failed();
    assert_eq!(t.state, TunnelState::Failed);
    assert_eq!(t.message.as_deref(), Some(INSTALL_HINT));
    t.begin_connecting();
    assert_eq!(t.message, None);
    assert_eq!(t.url, None);
}

#[test]
fn cloudflared_location() {
    let locs = cloudflared_locations();
    assert_eq!(cloudflared_path(&[false, true]), locs[1]);
    assert_eq!(cloudflared_path(&[true, true]), locs[0]);
    assert_eq!(cloudflared_path(&[false, false]), "cloudflared");
}

#[test]
fn cloudflared_arguments() {
    assert_eq!(tunnel_args(), vec!["tunnel", "--url", "http://127.0.0.1:8765", "--no-autoupdate"]);
    assert_eq!(loopback_host(), "127.0.0.1:8765");
}

#[test]
fn minted_hostname_is_recovered() {
    let mut t = Tunnel::default();
    assert!(t.observe_line("2024 INF |  https://calm-otter-bright-sky.trycloudflare.com/  |", "a1b2"));
    assert_eq!(t.host().as_deref(), Some("calm-otter-bright-sky.trycloudflare.com"));
    let (ours, first) = t.note_host("calm-otter-bright-sky.trycloudflare.com", "09:14".into());
    assert!(ours && first);
}
