use qwen_image_studio::config::{
    assets, default_root_for, install_size, random_secret, tier, tier_slot, tiers, Config,
    DEFAULT_TIER, ENGINE_PORT, MCP_PORT,
};

fn cfg(root: &str) -> Config {
    Config {
        root: root.to_string(),
        secret: "0123456789abcdef0123456789abcdef".to_string(),
        tier: "Q6_K".to_string(),
        tunnel_enabled: false,
        hf_endpoint: String::new(),
        last_load_secs: None,
    }
}

#[test]
fn tiers_in_display_order() {
    let ids: Vec<&str> = tiers().iter().map(|t| t.id).collect();
    assert_eq!(ids, vec!["Q6_K", "Q4_K", "Q8_0"]);
    let fits: Vec<bool> = tiers().iter().map(|t| t.fits_16gb).collect();
    assert_eq!(fits, vec![true, true, false]);
}

#[test]
fn tier_by_id() {
    let t = tier("Q4_K");
    assert_eq!(t.label, "Q4_K_M");
    assert_eq!(t.size, 4_197_494_816);
    assert_eq!(tier("Q8_0").file, "qwen_image_2.1-Q8_0.gguf");
    assert_eq!(tier_slot("Q8_0"), 2);
}

#[test]
fn unknown_tier_falls_back_to_default() {
    assert_eq!(tier("Q5_X").id, DEFAULT_TIER);
    assert_eq!(tier("").id, "Q6_K");
    assert_eq!(tier("q6_k").id, "Q6_K");
    assert_eq!(tier_slot("nope"), 0);
}

#[test]
fn install_size_is_tier_plus_assets() {
    let assets_total: u64 = 7_758_817_035;
    assert_eq!(assets().iter().map(|a| a.size).sum::<u64>(), assets_total);
    assert_eq!(install_size("Q6_K"), 5_996_851_232 + assets_total);
    assert_eq!(install_size("Q4_K"), 4_197_494_816 + assets_total);
    assert_eq!(install_size("Q8_0"), 7_687_155_744 + assets_total);
    assert_eq!(install_size("bogus"), install_size("Q6_K"));
}

#[test]
fn ports() {
    assert_eq!(MCP_PORT, 8765);
    assert_eq!(ENGINE_PORT, 7860);
}

#[test]
fn dirs_under_root() {
    let c = cfg("/data/qis");
    assert_eq!(c.models_dir('/'), "/data/qis/models");
    assert_eq!(c.bin_dir('/'), "/data/qis/bin");
    assert_eq!(c.outputs_dir('/'), "/data/qis/outputs");
    assert_eq!(c.sd_server('/'), "/data/qis/bin/sd-server.exe");
    assert_eq!(c.log_path('/'), "/data/qis/outputs/sd-server.log");
}

#[test]
fn dirs_root_with_trailing_separator_or_empty() {
    assert_eq!(cfg("/data/").models_dir('/'), "/data/models");
    assert_eq!(cfg("").bin_dir('/'), "bin");
    // Unix takes only `/` as a separator; Windows takes both, and a bare drive.
    assert_eq!(cfg("C:\\x\\").outputs_dir('/'), "C:\\x\\/outputs");
    assert_eq!(cfg("C:\\x\\").outputs_dir('\\'), "C:\\x\\outputs");
    assert_eq!(cfg("C:/x/").outputs_dir('\\'), "C:/x/outputs");
    assert_eq!(cfg("C:").models_dir('\\'), "C:models");
    assert_eq!(cfg("C:").models_dir('/'), "C:/models");
    assert_eq!(cfg("C:\\q").sd_server('\\'), "C:\\q\\bin\\sd-server.exe");
}

#[test]
fn load_keeps_saved_config() {
    let saved = cfg("/saved");
    let c = Config::load(Some(saved), "/default".to_string());
    assert_eq!(c.root, "/saved");
    assert_eq!(c.secret, "0123456789abcdef0123456789abcdef");
}

#[test]
fn load_without_saved_config_is_initial() {
    let c = Config::load(None, "/default".to_string());
    assert_eq!(c.root, "/default");
    assert_eq!(c.tier, "Q6_K");
    assert!(!c.tunnel_enabled);
    assert_eq!(c.hf_endpoint, "");
    assert_eq!(c.last_load_secs, None);
    assert_eq!(c.secret.len(), 32);
    assert!(c.secret.chars().all(|ch| ch.is_ascii_digit() || ('a'..='f').contains(&ch)));
}

#[test]
fn secrets_are_hex_and_fresh() {
    let a = random_secret();
    let b = random_secret();
    assert_eq!(a.len(), 32);
    assert!(a.chars().all(|ch| ch.is_ascii_hexdigit() && !ch.is_ascii_uppercase()));
    assert_ne!(a, b);
}

#[test]
fn default_root_from_exe_drive() {
    assert_eq!(
        default_root_for(Some("G:\\Apps\\Qwen Image Studio\\qis.exe"), Some("C:\\Users\\u\\AppData\\Local"), '\\'),
        "G:\\Qwen Image Studio"
    );
}

#[test]
fn default_root_falls_back_to_local_app_data() {
    let p = default_root_for(Some("\\\\server\\share\\qis.exe"), Some("/home/u/.local"), '/');
    assert_eq!(p, "/home/u/.local/Qwen Image Studio");
    assert_eq!(default_root_for(None, None, '\\'), "Qwen Image Studio");
    // A non-ASCII first character is not a drive letter.
    assert_eq!(default_root_for(Some("é:\\x"), None, '\\'), "Qwen Image Studio");
}
