use qwen_image_studio::config::Config;
use qwen_image_studio::download::{
    already_complete, checksum_matches, etag_sha, mirror_url, oversized, pending_rows, plan, plan_item,
    range_header, Fetch, FetchNext, FetchPhase, ATTEMPTS,
};
use qwen_image_studio::state::{apply_change, DlState};

fn cfg(tier: &str) -> Config {
    Config {
        root: "/r".to_string(),
        secret: "s".to_string(),
        tier: tier.to_string(),
        tunnel_enabled: false,
        hf_endpoint: String::new(),
        last_load_secs: None,
    }
}

#[test]
fn plan_order_and_destinations() {
    let p = plan(&cfg("Q8_0"), '/');
    let ids: Vec<&str> = p.iter().map(|i| i.id.as_str()).collect();
    assert_eq!(ids, vec!["Q8_0", "text_encoder", "vision", "vae", "engine", "cudart"]);
    let names: Vec<&str> = p.iter().map(|i| i.name.as_str()).collect();
    assert_eq!(names, vec!["Model Q8_0", "Text encoder", "Vision projector", "VAE", "Engine", "CUDA runtime"]);
    assert_eq!(p[0].dest, "/r/models/qwen_image_2.1-Q8_0.gguf");
    assert_eq!(p[0].size, 7_687_155_744);
    assert!(!p[0].unzip);
    assert_eq!(p[3].dest, "/r/models/qwen_image_2.1_vae_bf16.safetensors");
    assert_eq!(p[4].dest, "/r/bin/sd-win-cuda12.zip");
    assert_eq!(p[5].dest, "/r/bin/cudart.zip");
    assert!(p[4].unzip && p[5].unzip);
}

#[test]
fn hub_endpoint_replaces_huggingface() {
    let mut c = cfg("Q6_K");
    c.hf_endpoint = "https://hf-mirror.com".to_string();
    let p = plan(&c, '/');
    assert_eq!(p[0].url, "https://hf-mirror.com/leejet/Qwen-Image-2.1-GGUF/resolve/main/qwen_image_2.1-Q6_K.gguf");
    assert_eq!(p[3].url, "https://hf-mirror.com/Comfy-Org/Qwen-Image-2.1/resolve/main/vae/qwen_image_2.1_vae_bf16.safetensors");
    // Release assets are not on the hub and stay where they are.
    assert!(p[4].url.starts_with("https://github.com/"));
    let direct = plan(&cfg("Q6_K"), '/');
    assert_eq!(direct[0].url, "https://huggingface.co/leejet/Qwen-Image-2.1-GGUF/resolve/main/qwen_image_2.1-Q6_K.gguf");
    assert_eq!(mirror_url("https://huggingface.co/a", "http://m"), "http://m/a");
    assert_eq!(mirror_url("https://huggingface.cox/a", "http://m"), "https://huggingface.cox/a");
    assert_eq!(mirror_url("https://huggingface.co/a", ""), "https://huggingface.co/a");
}

#[test]
fn retry_finds_the_row_file() {
    let c = cfg("Q4_K");
    let it = plan_item(&c, "vae", '/').unwrap();
    assert_eq!(it.name, "VAE");
    let it = plan_item(&c, "Q4_K", '/').unwrap();
    assert_eq!(it.name, "Model Q4_K_M");
    assert!(plan_item(&c, "Q8_0", '/').is_none());
    assert!(plan_item(&c, "", '/').is_none());
}

#[test]
fn rows_start_pending() {
    let p = plan(&cfg("Q6_K"), '/');
    let rows = pending_rows(&p);
    assert_eq!(rows.len(), 6);
    for (r, i) in rows.iter().zip(p.iter()) {
        assert_eq!(r.id, i.id);
        assert_eq!(r.total, i.size);
        assert_eq!(r.got, 0);
        assert_eq!(r.state, DlState::Pending);
        assert_eq!(r.note, "");
    }
}

#[test]
fn etag_normalisation() {
    assert_eq!(etag_sha("\"ABCdef0123\""), "abcdef0123");
    assert_eq!(etag_sha("abc"), "abc");
    assert_eq!(etag_sha("\"\""), "");
    assert!(checksum_matches("ab", "ab"));
    assert!(!checksum_matches("ab", "AB"));
}

#[test]
fn resume_decisions() {
    assert!(already_complete(10, Some(10)).is_some());
    assert!(already_complete(10, Some(9)).is_none());
    assert!(already_complete(10, None).is_none());
    assert!(oversized(11, 10));
    assert!(!oversized(10, 10));
    assert_eq!(range_header(0), None);
    assert_eq!(range_header(1234).as_deref(), Some("bytes=1234-"));
}

#[test]
fn a_clean_download() {
    let mut f = Fetch::new(100, false, false);
    let (c, range) = f.begin_attempt(40);
    assert_eq!(c.got, Some(40));
    assert_eq!(c.state, Some(DlState::Connecting));
    assert_eq!(range.as_deref(), Some("bytes=40-"));
    let c = f.streaming();
    assert_eq!(c.state, Some(DlState::Downloading));
    assert_eq!(f.chunk(50).got, Some(90));
    assert_eq!(f.chunk(10).got, Some(100));
    let (c, next) = f.stream_ended(100);
    assert_eq!(next, FetchNext::Finish);
    assert_eq!(c.got, Some(100));
    assert_eq!(c.state, Some(DlState::Done));
    assert_eq!(c.note.as_deref(), Some(""));
    assert_eq!(f.phase, FetchPhase::Finished);
}

#[test]
fn verified_and_unpacked() {
    let mut f = Fetch::new(8, true, true);
    f.begin_attempt(0);
    f.streaming();
    f.chunk(8);
    let (c, next) = f.stream_ended(8);
    assert_eq!(next, FetchNext::Verify);
    assert_eq!(c.note.as_deref(), Some("verifying"));
    let (c, next) = f.checksum(true);
    assert_eq!(next, FetchNext::Unpack);
    assert_eq!(c.state, Some(DlState::Unpacking));
    let c = f.unpacked();
    assert_eq!(c.state, Some(DlState::Done));
    assert_eq!(c.got, Some(8));
}

#[test]
fn checksum_mismatch_starts_over() {
    let mut f = Fetch::new(8, false, true);
    f.begin_attempt(0);
    f.streaming();
    f.chunk(8);
    f.stream_ended(8);
    let (c, next) = f.checksum(false);
    assert_eq!(next, FetchNext::DiscardAndFail);
    assert_eq!(c.got, Some(0));
    assert_eq!(c.state, Some(DlState::Failed));
    assert_eq!(c.note.as_deref(), Some("failed · checksum didn't match"));
}

#[test]
fn short_file_is_retried_at_once() {
    let mut f = Fetch::new(8, false, false);
    f.begin_attempt(0);
    f.streaming();
    f.chunk(5);
    let (c, next) = f.stream_ended(5);
    assert_eq!(next, FetchNext::Retry);
    assert_eq!(c.note.as_deref(), Some("stalled · retrying"));
    assert_eq!(f.phase, FetchPhase::Connecting);
}

#[test]
fn three_stalls_and_it_fails() {
    let mut f = Fetch::new(8, false, false);
    let mut waits = vec![];
    loop {
        f.begin_attempt(0);
        let (c, secs) = f.send_failed();
        assert_eq!(c.state, Some(DlState::Stalled));
        assert_eq!(c.note.unwrap(), format!("stalled · retrying ({}/{})", f.attempt, ATTEMPTS));
        waits.push(secs);
        if let Some((c, err)) = f.next_attempt() {
            assert_eq!(c.state, Some(DlState::Failed));
            assert_eq!(c.note.as_deref(), Some("failed · stalled 3 times"));
            assert_eq!(err, "gave up after 3 attempts");
            break;
        }
    }
    assert_eq!(waits, vec![3, 6, 9]);
    assert_eq!(f.phase, FetchPhase::Finished);
}

#[test]
fn stall_mid_stream_then_resume() {
    let mut f = Fetch::new(100, false, false);
    f.begin_attempt(0);
    f.streaming();
    f.chunk(30);
    let (c, secs) = f.stream_stalled();
    assert_eq!(secs, 3);
    assert_eq!(c.note.as_deref(), Some("stalled · retrying (1/3)"));
    assert!(f.next_attempt().is_none());
    let (_, range) = f.begin_attempt(30);
    assert_eq!(range.as_deref(), Some("bytes=30-"));
}

#[test]
fn server_error_and_pause() {
    let mut f = Fetch::new(8, false, false);
    f.begin_attempt(0);
    let (c, e) = f.bad_status(503);
    assert_eq!(c.note.as_deref(), Some("failed · server error 503"));
    assert_eq!(e, "server error 503");
    let mut g = Fetch::new(8, false, false);
    g.begin_attempt(0);
    g.streaming();
    let c = g.pause();
    assert_eq!(c.state, Some(DlState::Paused));
    assert_eq!(c.note.as_deref(), Some("paused"));
}

#[test]
fn changes_apply_to_the_named_row() {
    let p = plan(&cfg("Q6_K"), '/');
    let mut rows = pending_rows(&p);
    let mut f = Fetch::new(p[2].size, false, false);
    let (c, _) = f.begin_attempt(7);
    apply_change(&mut rows, "vision", &c);
    assert_eq!(rows[2].got, 7);
    assert_eq!(rows[2].state, DlState::Connecting);
    assert_eq!(rows[1].state, DlState::Pending);
    let before: Vec<u64> = rows.iter().map(|r| r.got).collect();
    apply_change(&mut rows, "nope", &c);
    assert_eq!(before, rows.iter().map(|r| r.got).collect::<Vec<_>>());
}

#[test]
fn full_disk_fails_the_file() {
    let mut f = Fetch::new(100, false, false);
    f.begin_attempt(0);
    f.streaming();
    f.chunk(40);
    let (c, e) = f.disk_full();
    assert_eq!(c.state, Some(DlState::Failed));
    assert_eq!(c.note.as_deref(), Some("failed · not enough disk space"));
    assert!(c.got.is_none());
    assert_eq!(e, "not enough disk space");
    assert_eq!(f.phase, FetchPhase::Finished);
    assert_eq!(f.got, 40);
}
