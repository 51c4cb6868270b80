use qwen_image_studio::config::Config;
use qwen_image_studio::download::plan;
use qwen_image_studio::engine::{
    args, base, decode_image, eta_secs, friendly, friendly_from, job_body, parse_vram,
    poll_decision, wait_step, Engine, GenRequest, PollDecision, Status, WaitStep, OOM_MESSAGE,
};

fn cfg(tier: &str) -> Config {
    Config {
        root: "/r".to_string(),
        secret: "s".to_string(),
        tier: tier.to_string(),
        tunnel_enabled: false,
        hf_endpoint: String::new(),
        last_load_secs: None,
    }
}

#[test]
fn engine_address() {
    assert_eq!(base(), "http://127.0.0.1:7860");
}

#[test]
fn launch_arguments() {
    let a = args(&cfg("Q4_K"), '/');
    assert_eq!(a.len(), 22);
    assert_eq!(a[0], "--diffusion-model");
    assert_eq!(a[1], "/r/models/qwen_image_2.1-Q4_K.gguf");
    assert_eq!(a[3], "/r/models/qwen3vl_8b_heretic-Q4_K_M.gguf");
    assert_eq!(a[5], "/r/models/mmproj-qwen3vl_8b_heretic-f16.gguf");
    assert_eq!(a[7], "/r/models/qwen_image_2.1_vae_bf16.safetensors");
    assert_eq!(a[9], "te=cpu,diffusion=cuda0,vae=cuda0");
    assert_eq!(a[11], "te=cpu");
    assert!(a.contains(&"--eager-load".to_string()));
    assert!(!a.contains(&"--offload-to-cpu".to_string()));
    assert_eq!(&a[19..], &["--listen-port".to_string(), "7860".to_string(), "-v".to_string()]);
}

#[test]
fn launch_arguments_unknown_tier_uses_default() {
    assert_eq!(args(&cfg("zzz"), '/')[1], "/r/models/qwen_image_2.1-Q6_K.gguf");
}

#[test]
fn eta_baseline_and_scaling() {
    assert_eq!(eta_secs(1024, 1024, 20), 56);
    assert_eq!(eta_secs(2048, 2048, 20), 224);
    assert_eq!(eta_secs(2048, 2048, 60), 672);
    assert_eq!(eta_secs(512, 512, 20), 14);
    assert_eq!(eta_secs(1024, 1024, 30), 84);
    // At least five seconds.
    assert_eq!(eta_secs(256, 256, 1), 5);
    assert_eq!(eta_secs(0, 0, 0), 5);
    // Rounded to the nearest second: 1024x1024 at 1 step is 2.8 s -> 5 (floor), 1024x768x20 = 42.
    assert_eq!(eta_secs(1024, 768, 20), 42);
    assert_eq!(eta_secs(u32::MAX, u32::MAX, u32::MAX), u64::MAX);
}

#[test]
fn eta_agrees_with_float_formula_on_tool_sizes() {
    for w in (256..=2048).step_by(96) {
        for steps in [1u32, 7, 20, 33, 60] {
            let px = (w as f64 * 1024f64) / (1024.0 * 1024.0);
            let want = (px * 56.0 * (steps as f64 / 20.0)).round().max(5.0) as u64;
            assert_eq!(eta_secs(w, 1024, steps), want, "w={w} steps={steps}");
        }
    }
}

#[test]
fn friendly_messages() {
    assert_eq!(friendly("sd returned no results"), OOM_MESSAGE);
    assert_eq!(friendly("CUDA error: out of MEMORY"), OOM_MESSAGE);
    assert_eq!(friendly("bad prompt"), "bad prompt");
    assert_eq!(friendly_from("X", "memory"), OOM_MESSAGE);
    assert_eq!(friendly_from("Memory", "x"), "Memory");
}

#[test]
fn vram_output_parsing() {
    assert_eq!(parse_vram("1234, 16376\n"), Some((1234, 16376)));
    assert_eq!(parse_vram(" 12 ,\t34 \r\n5, 6\n"), Some((12, 34)));
    assert_eq!(parse_vram("5,6,7"), Some((5, 6)));
    assert_eq!(parse_vram("5"), None);
    assert_eq!(parse_vram("abc, 1"), None);
    assert_eq!(parse_vram("1, x"), None);
    assert_eq!(parse_vram(""), None);
    assert_eq!(parse_vram("\n1, 2"), None);
}

#[test]
fn poll_decisions() {
    assert!(matches!(poll_decision("completed", Some("QUJD"), None), PollDecision::Decode(b) if b == "QUJD"));
    assert!(matches!(poll_decision("completed", None, Some("x")), PollDecision::NoImage));
    assert!(matches!(poll_decision("failed", None, Some("boom")), PollDecision::Fail(m) if m == "boom"));
    assert!(matches!(poll_decision("cancelled", None, None), PollDecision::Fail(m) if m == "generation failed"));
    assert!(matches!(poll_decision("running", Some("x"), None), PollDecision::Wait));
    assert!(matches!(poll_decision("", None, None), PollDecision::Wait));
}

#[test]
fn image_decoding() {
    assert_eq!(decode_image("aGVsbG8=").unwrap(), b"hello".to_vec());
    assert!(decode_image("!!!").is_err());
}

#[test]
fn request_body() {
    let b = job_body(GenRequest {
        prompt: "p".into(),
        negative: "n".into(),
        width: 512,
        height: 768,
        steps: 20,
        seed: -1,
        refs: vec![],
    });
    assert_eq!(b.sample_method, "euler");
    assert_eq!(b.output_format, "png");
    assert_eq!(b.batch_count, 1);
    assert!(b.ref_images.is_none() && b.increase_ref_index.is_none());
    let b = job_body(GenRequest {
        prompt: "p".into(),
        negative: String::new(),
        width: 1024,
        height: 1024,
        steps: 20,
        seed: 7,
        refs: vec!["AAA".into()],
    });
    assert_eq!(b.ref_images, Some(vec!["AAA".to_string()]));
    assert_eq!(b.increase_ref_index, Some(true));
    assert_eq!(b.seed, 7);
}

#[test]
fn waiting_for_the_engine() {
    assert!(matches!(wait_step(true, true), WaitStep::Ready));
    assert!(matches!(wait_step(false, true), WaitStep::TimedOut(m) if m == "Engine did not come up in time. Show log"));
    assert!(matches!(wait_step(false, false), WaitStep::Again));
}

#[test]
fn engine_life_cycle() {
    let mut e: Engine<u32, u64> = Engine::new();
    assert!(matches!(e.status, Status::Off));
    assert!(!e.begin_stop());
    assert!(e.begin_start(10));
    assert!(matches!(e.status, Status::Loading));
    assert_eq!(e.load_started, Some(10));
    e.set_child(99);
    assert!(e.has_child());
    assert!(!e.begin_start(11));
    assert_eq!(e.load_started, Some(10));
    e.loaded("Q6_K".into(), 41);
    assert!(matches!(e.status, Status::Ready));
    assert_eq!(e.loaded_tier.as_deref(), Some("Q6_K"));
    assert_eq!(e.load_secs, Some(41));
    e.set_busy(Some("Generating 1024×1024".into()), Some(56), 12);
    assert_eq!(e.busy_since, Some(12));
    assert!(e.begin_stop());
    assert!(matches!(e.status, Status::Stopping));
    assert_eq!(e.take_child(), Some(99));
    e.stopped();
    assert!(matches!(e.status, Status::Off));
    assert!(e.loaded_tier.is_none() && e.busy.is_none() && !e.has_child());
    assert_eq!(e.load_secs, Some(41));
}

#[test]
fn failed_start_and_oom_note() {
    let mut e: Engine<u32, u64> = Engine::new();
    e.note_failure("engine returned no image".into());
    assert!(e.last_oom.is_none());
    e.note_failure(OOM_MESSAGE.into());
    assert_eq!(e.last_oom.as_deref(), Some(OOM_MESSAGE));
    e.note_failure("engine returned no image".into());
    assert_eq!(e.last_oom.as_deref(), Some(OOM_MESSAGE));
    e.note_success();
    assert!(e.last_oom.is_none());
    e.note_failure(OOM_MESSAGE.into());
    assert!(e.begin_start(1));
    assert!(e.last_oom.is_none());
    e.fail_start("Couldn't start".into());
    assert!(matches!(&e.status, Status::Error { message } if message == "Couldn't start"));
    assert!(e.load_started.is_none());
    e.set_busy(None, None, 3);
    assert!(e.busy_since.is_none());
}

#[test]
fn defaults_are_off() {
    assert!(matches!(Status::default(), Status::Off));
    let e: Engine<u8, u64> = Engine::default();
    assert!(matches!(e.status, Status::Off));
    assert!(e.child.is_none() && e.loaded_tier.is_none() && e.busy.is_none() && e.last_oom.is_none());
}

#[test]
fn args_depend_on_root_and_tier_only() {
    let a = cfg("Q4_K");
    let mut b = cfg("Q4_K");
    b.secret = "another".into();
    b.tunnel_enabled = true;
    b.hf_endpoint = "https://hf-mirror.com".into();
    b.last_load_secs = Some(40);
    assert_eq!(args(&a, '/'), args(&b, '/'));
}

#[test]
fn engine_runs_the_downloaded_files() {
    let c = cfg("Q8_0");
    let a = args(&c, '/');
    for it in plan(&c, '/').iter().filter(|it| !it.unzip) {
        assert!(a.contains(&it.dest), "{} missing from the launch arguments", it.dest);
    }
}

#[test]
fn plan_and_args_agree_on_windows_paths() {
    use_windows_paths(cfg_at("C:\\Qwen Image Studio", "Q6_K"));
    use_windows_paths(cfg_at("C:", "Q8_0"));
}

fn cfg_at(root: &str, tier: &str) -> Config {
    let mut c = cfg(tier);
    c.root = root.to_string();
    c
}

fn use_windows_paths(c: Config) {
    let a = args(&c, '\\');
    let p = plan(&c, '\\');
    for it in p.iter() {
        let dir = if it.unzip { c.bin_dir('\\') } else { c.models_dir('\\') };
        assert!(it.dest.starts_with(&dir) && it.dest[dir.len()..].starts_with('\\'));
        if !it.unzip {
            assert!(a.contains(&it.dest), "{} missing from the launch arguments", it.dest);
        }
    }
}
