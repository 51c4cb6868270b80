use qwen_image_studio::config::Config;
use qwen_image_studio::engine::{Engine, Status};
use qwen_image_studio::state::{
    copy_status, install_in_progress, local_url, mcp_path, missing_files, port_in_use, push_gallery, screen,
    snapshot, tier_views, window_title, DiskProbe, DlRow, DlState, GalleryItem, VramGauge,
};
use qwen_image_studio::tunnel::Tunnel;

fn item(n: u32) -> GalleryItem {
    GalleryItem { path: format!("/o/{n}.png"), prompt: format!("p{n}"), width: 1024, height: 1024, at: "09:14".into() }
}

const ASSET_SIZES: [u64; 5] = [5_027_785_376, 1_159_030_464, 675_509_688, 333_039_461, 563_452_046];

fn full_probe() -> DiskProbe {
    DiskProbe {
        asset_len: vec![Some(ASSET_SIZES[0]), Some(ASSET_SIZES[1]), Some(ASSET_SIZES[2]), None, None],
        tier_len: vec![Some(5_996_851_232), None, Some(12)],
        engine_present: true,
    }
}

fn cfg() -> Config {
    Config {
        root: "/r".into(),
        secret: "abc".into(),
        tier: "Q6_K".into(),
        tunnel_enabled: false,
        hf_endpoint: String::new(),
        last_load_secs: Some(41),
    }
}

#[test]
fn gallery_keeps_latest_eight() {
    let mut g = vec![];
    for n in 0..10 {
        push_gallery(&mut g, item(n));
    }
    assert_eq!(g.len(), 8);
    assert_eq!(g[0].prompt, "p9");
    assert_eq!(g[7].prompt, "p2");
}

#[test]
fn nothing_missing_when_installed() {
    let p = full_probe();
    assert!(missing_files(&p, "Q6_K").is_empty());
    assert!(!install_in_progress(&p, "Q6_K"));
    assert_eq!(screen(false, true), "panel");
    assert_eq!(screen(true, true), "install");
}

#[test]
fn missing_files_in_order() {
    let mut p = full_probe();
    p.engine_present = false;
    p.asset_len[1] = Some(3);
    assert_eq!(missing_files(&p, "Q6_K"), vec!["vision", "engine", "cudart"]);
    assert_eq!(missing_files(&p, "Q4_K"), vec!["vision", "engine", "cudart", "Q4_K"]);
    assert_eq!(missing_files(&p, "Q8_0"), vec!["vision", "engine", "cudart", "Q8_0"]);
    assert_eq!(screen(false, false), "install");
}

#[test]
fn interrupted_install_detected() {
    let p = full_probe();
    // The Q8_0 model is partial, but only the selected tier counts.
    assert!(!install_in_progress(&p, "Q6_K"));
    assert!(install_in_progress(&p, "Q8_0"));
    let mut q = full_probe();
    q.asset_len[4] = Some(10);
    assert!(install_in_progress(&q, "Q6_K"));
    let mut r = full_probe();
    r.asset_len[0] = Some(0);
    assert!(!install_in_progress(&r, "Q6_K"));
}

#[test]
fn tier_cells() {
    let v = tier_views(&full_probe());
    assert_eq!(v.len(), 3);
    assert_eq!(v[0].id, "Q6_K");
    assert!(v[0].on_disk && !v[1].on_disk && !v[2].on_disk);
    assert!(v[1].fits && !v[2].fits);
    assert_eq!(v[1].label, "Q4_K_M");
}

fn row(got: u64, total: u64) -> DlRow {
    DlRow { id: "x".into(), name: "X".into(), got, total, state: DlState::Downloading, note: String::new() }
}

#[test]
fn window_titles() {
    let rows = vec![row(38, 100), row(0, 0)];
    assert_eq!(window_title(&Status::Ready, "install", true, &rows), "Installing 38% — Qwen Image Studio");
    assert_eq!(window_title(&Status::Ready, "install", true, &vec![row(5, 5)]), "Install — Qwen Image Studio");
    assert_eq!(window_title(&Status::Off, "install", true, &vec![]), "Install — Qwen Image Studio");
    assert_eq!(window_title(&Status::Off, "panel", true, &rows), "Off — Qwen Image Studio");
    assert_eq!(window_title(&Status::Loading, "panel", true, &rows), "Loading — Qwen Image Studio");
    assert_eq!(window_title(&Status::Ready, "panel", true, &rows), "Ready — Qwen Image Studio");
    assert_eq!(window_title(&Status::Stopping, "panel", true, &rows), "Off — Qwen Image Studio");
    assert_eq!(window_title(&Status::Error { message: "m".into() }, "panel", true, &rows), "Error — Qwen Image Studio");
}

#[test]
fn install_stopped_title() {
    let mut failed = row(0, 100);
    failed.state = DlState::Failed;
    let rows = vec![failed, row(0, 50)];
    assert_eq!(window_title(&Status::Off, "install", false, &rows), "Install stopped — Qwen Image Studio");
    // While other files still download, the title keeps counting.
    assert_eq!(window_title(&Status::Off, "install", true, &rows), "Installing 0% — Qwen Image Studio");
    // Nothing failed: not stopped.
    assert_eq!(window_title(&Status::Off, "install", false, &vec![row(10, 100)]), "Installing 10% — Qwen Image Studio");
    // The panel never shows it.
    assert_eq!(window_title(&Status::Ready, "panel", false, &rows), "Ready — Qwen Image Studio");
}

#[test]
fn vram_gauge() {
    let mut g = VramGauge::new();
    let r = g.observe(Some((1700, 16376)));
    assert_eq!((r.used, r.total, r.engine), (1700, 16376, 0));
    assert_eq!(g.baseline, 1700);
    let r = g.observe(Some((14100, 16376)));
    assert_eq!(r.engine, 12400);
    assert_eq!(g.peak, 14100);
    g.observe(Some((9000, 16376)));
    assert_eq!(g.peak, 14100);
    let r = g.observe(None);
    assert_eq!((r.used, r.total, r.engine), (0, 16384, 0));
    g.engine_stopped();
    assert_eq!(g.peak, 0);
    g.engine_starting(Some((1500, 16376)));
    assert_eq!((g.baseline, g.peak), (1500, 1500));
    g.engine_starting(None);
    assert_eq!((g.baseline, g.peak), (1500, 1500));
}

#[test]
fn urls() {
    assert_eq!(local_url("abc"), "http://localhost:8765/abc/mcp");
    assert_eq!(mcp_path("abc"), "/abc/mcp");
    assert_eq!(port_in_use(), "Port 8765 is in use by another program.");
}

#[test]
fn snapshot_fields() {
    let mut e: Engine<u8, u8> = Engine::new();
    e.loaded_tier = Some("Q6_K".into());
    let mut g = VramGauge::new();
    let s = snapshot(&cfg(), &e, None, Some(3), &mut g, Some((2000, 16000)), Tunnel::default(), vec![], vec![item(1)], &full_probe(), false, None);
    assert_eq!(s.screen, "panel");
    assert!(matches!(copy_status(&s.status), Status::Off));
    assert_eq!(s.selected_tier, "Q6_K");
    assert_eq!(s.loaded_tier.as_deref(), Some("Q6_K"));
    assert_eq!(s.load_elapsed, Some(3));
    assert_eq!(s.last_load_secs, Some(41));
    assert_eq!((s.vram_used, s.vram_total, s.vram_engine, s.vram_peak), (2000, 16000, 0, 2000));
    assert_eq!(s.local_url, "http://localhost:8765/abc/mcp");
    assert_eq!(s.free_bytes, 0);
    assert_eq!(s.needed_bytes, 5_996_851_232 + 7_758_817_035);
    assert_eq!(s.tiers.len(), 3);
    assert_eq!(s.gallery.len(), 1);
    assert_eq!(s.root, "/r");
    let s = snapshot(&cfg(), &e, None, None, &mut g, None, Tunnel::default(), vec![], vec![], &full_probe(), true, Some(9));
    assert_eq!(s.screen, "install");
    assert_eq!(s.free_bytes, 9);
}
