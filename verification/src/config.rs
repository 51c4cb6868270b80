//! The fixed download table, the persisted configuration, and the paths under it.
use crate::codec::{hex_encode, hex_lower, is_hex_lower_char, lemma_hex_lower, random_bytes};
use crate::text::{join_with, joined, str_eq};
use vstd::prelude::*;

verus! {

pub const MCP_PORT: u16 = 8765;
pub const ENGINE_PORT: u16 = 7860;
pub const DEFAULT_TIER: &'static str = "Q6_K";

/// A downloadable DiT quantisation. Order in the table is display order, left to right.
#[derive(Clone, Copy)]
pub struct Tier {
    pub id: &'static str,
    pub label: &'static str,
    pub file: &'static str,
    pub url: &'static str,
    pub size: u64,
    pub desc: &'static str,
    /// False when the tier cannot actually run on a 16 GB card.
    pub fits_16gb: bool,
}

/// Everything that is not the DiT. `unzip` items land in `bin/`, the rest in `models/`.
#[derive(Clone, Copy)]
pub struct Asset {
    pub id: &'static str,
    pub name: &'static str,
    pub url: &'static str,
    pub file: &'static str,
    pub size: u64,
    pub unzip: bool,
}

pub open spec fn tier_table() -> Seq<Tier> {
    seq![
        Tier {
            id: "Q6_K",
            label: "Q6_K",
            file: "qwen_image_2.1-Q6_K.gguf",
            url: "https://huggingface.co/leejet/Qwen-Image-2.1-GGUF/resolve/main/qwen_image_2.1-Q6_K.gguf",
            size: 5_996_851_232,
            desc: "Best that fits 16 GB.",
            fits_16gb: true,
        },
        Tier {
            id: "Q4_K",
            label: "Q4_K_M",
            file: "qwen_image_2.1-Q4_K.gguf",
            url: "https://huggingface.co/leejet/Qwen-Image-2.1-GGUF/resolve/main/qwen_image_2.1-Q4_K.gguf",
            size: 4_197_494_816,
            desc: "Smallest. Visibly lower quality.",
            fits_16gb: true,
        },
        Tier {
            id: "Q8_0",
            label: "Q8_0",
            file: "qwen_image_2.1-Q8_0.gguf",
            url: "https://huggingface.co/leejet/Qwen-Image-2.1-GGUF/resolve/main/qwen_image_2.1-Q8_0.gguf",
            size: 7_687_155_744,
            desc: "Needs more than 16 GB at 1024².",
            fits_16gb: false,
        },
    ]
}

/// The tiers, in display order.
pub fn tiers() -> (v: Vec<Tier>)
    ensures
        v@ == tier_table(),
{
    let v = vec![
        Tier {
            id: "Q6_K",
            label: "Q6_K",
            file: "qwen_image_2.1-Q6_K.gguf",
            url: "https://huggingface.co/leejet/Qwen-Image-2.1-GGUF/resolve/main/qwen_image_2.1-Q6_K.gguf",
            size: 5_996_851_232,
            desc: "Best that fits 16 GB.",
            fits_16gb: true,
        },
        Tier {
            id: "Q4_K",
            label: "Q4_K_M",
            file: "qwen_image_2.1-Q4_K.gguf",
            url: "https://huggingface.co/leejet/Qwen-Image-2.1-GGUF/resolve/main/qwen_image_2.1-Q4_K.gguf",
            size: 4_197_494_816,
            desc: "Smallest. Visibly lower quality.",
            fits_16gb: true,
        },
        Tier {
            id: "Q8_0",
            label: "Q8_0",
            file: "qwen_image_2.1-Q8_0.gguf",
            url: "https://huggingface.co/leejet/Qwen-Image-2.1-GGUF/resolve/main/qwen_image_2.1-Q8_0.gguf",
            size: 7_687_155_744,
            desc: "Needs more than 16 GB at 1024².",
            fits_16gb: false,
        },
    ];
    assert(v@ =~= tier_table());
    v
}

pub open spec fn asset_table() -> Seq<Asset> {
    seq![
        Asset {
            id: "text_encoder",
            name: "Text encoder",
            url: "https://huggingface.co/pottokao/Qwen-Image-2.1-Text-Encoder-Heretic-GGUF/resolve/main/qwen3vl_8b_heretic-Q4_K_M.gguf",
            file: "qwen3vl_8b_heretic-Q4_K_M.gguf",
            size: 5_027_785_376,
            unzip: false,
        },
        Asset {
            id: "vision",
            name: "Vision projector",
            url: "https://huggingface.co/pottokao/Qwen-Image-2.1-Text-Encoder-Heretic-GGUF/resolve/main/mmproj-qwen3vl_8b_heretic-f16.gguf",
            file: "mmproj-qwen3vl_8b_heretic-f16.gguf",
            size: 1_159_030_464,
            unzip: false,
        },
        Asset {
            id: "vae",
            name: "VAE",
            url: "https://huggingface.co/Comfy-Org/Qwen-Image-2.1/resolve/main/vae/qwen_image_2.1_vae_bf16.safetensors",
            file: "qwen_image_2.1_vae_bf16.safetensors",
            size: 675_509_688,
            unzip: false,
        },
        Asset {
            id: "engine",
            name: "Engine",
            url: "https://github.com/leejet/stable-diffusion.cpp/releases/download/master-890-74988b2/sd-master-74988b2-bin-win-cuda12-x64.zip",
            file: "sd-win-cuda12.zip",
            size: 333_039_461,
            unzip: true,
        },
        Asset {
            id: "cudart",
            name: "CUDA runtime",
            url: "https://github.com/leejet/stable-diffusion.cpp/releases/download/master-890-74988b2/cudart-sd-bin-win-cu12-x64.zip",
            file: "cudart.zip",
            size: 563_452_046,
            unzip: true,
        },
    ]
}

/// The shared assets, in display order.
pub fn assets() -> (v: Vec<Asset>)
    ensures
        v@ == asset_table(),
{
    let v = vec![
        Asset {
            id: "text_encoder",
            name: "Text encoder",
            url: "https://huggingface.co/pottokao/Qwen-Image-2.1-Text-Encoder-Heretic-GGUF/resolve/main/qwen3vl_8b_heretic-Q4_K_M.gguf",
            file: "qwen3vl_8b_heretic-Q4_K_M.gguf",
            size: 5_027_785_376,
            unzip: false,
        },
        Asset {
            id: "vision",
            name: "Vision projector",
            url: "https://huggingface.co/pottokao/Qwen-Image-2.1-Text-Encoder-Heretic-GGUF/resolve/main/mmproj-qwen3vl_8b_heretic-f16.gguf",
            file: "mmproj-qwen3vl_8b_heretic-f16.gguf",
            size: 1_159_030_464,
            unzip: false,
        },
        Asset {
            id: "vae",
            name: "VAE",
            url: "https://huggingface.co/Comfy-Org/Qwen-Image-2.1/resolve/main/vae/qwen_image_2.1_vae_bf16.safetensors",
            file: "qwen_image_2.1_vae_bf16.safetensors",
            size: 675_509_688,
            unzip: false,
        },
        Asset {
            id: "engine",
            name: "Engine",
            url: "https://github.com/leejet/stable-diffusion.cpp/releases/download/master-890-74988b2/sd-master-74988b2-bin-win-cuda12-x64.zip",
            file: "sd-win-cuda12.zip",
            size: 333_039_461,
            unzip: true,
        },
        Asset {
            id: "cudart",
            name: "CUDA runtime",
            url: "https://github.com/leejet/stable-diffusion.cpp/releases/download/master-890-74988b2/cudart-sd-bin-win-cu12-x64.zip",
            file: "cudart.zip",
            size: 563_452_046,
            unzip: true,
        },
    ];
    assert(v@ =~= asset_table());
    v
}

/// The first index at or after `i` of a tier whose id is `id`.
pub open spec fn tier_index_from(id: Seq<char>, i: int) -> Option<int>
    decreases tier_table().len() - i,
{
    if i < 0 || i >= tier_table().len() {
        None
    } else if tier_table()[i].id@ == id {
        Some(i)
    } else {
        tier_index_from(id, i + 1)
    }
}

/// The index of the tier whose id is `id`, if one is listed.
pub open spec fn tier_index(id: Seq<char>) -> Option<int> {
    tier_index_from(id, 0)
}

/// The tier that `id` selects: the listed one, or else the default tier.
pub open spec fn tier_for(id: Seq<char>) -> Tier {
    match tier_index(id) {
        Some(i) => tier_table()[i],
        None => tier_table()[tier_index(DEFAULT_TIER@)->0],
    }
}

pub proof fn lemma_tier_index_from(id: Seq<char>, i: int)
    ensures
        tier_index_from(id, i) matches Some(j) ==> 0 <= i <= j < tier_table().len()
            && tier_table()[j].id@ == id,
    decreases tier_table().len() - i,
{
    if 0 <= i < tier_table().len() && tier_table()[i].id@ != id {
        lemma_tier_index_from(id, i + 1);
    }
}

/// The default tier is listed: it is the first one.
pub proof fn lemma_default_tier_listed()
    ensures
        tier_index(DEFAULT_TIER@) == Some(0int),
        tier_for(DEFAULT_TIER@) == tier_table()[0],
{
    reveal_strlit("Q6_K");
    assert(tier_table()[0].id@ == DEFAULT_TIER@);
}

/// Whatever `id` is, the selected tier is one of the table's.
pub proof fn lemma_tier_for_listed(id: Seq<char>)
    ensures
        exists|i: int| 0 <= i < tier_table().len() && tier_for(id) == tier_table()[i],
{
    lemma_tier_index_from(id, 0);
    lemma_default_tier_listed();
    match tier_index(id) {
        Some(i) => { assert(tier_for(id) == tier_table()[i]); }
        None => { assert(tier_for(id) == tier_table()[0]); }
    }
}

/// Selecting a tier by its own id gives that tier back: ids are distinct.
pub proof fn law_tier_roundtrip(k: int)
    requires
        0 <= k < tier_table().len(),
    ensures
        tier_for(tier_table()[k].id@) == tier_table()[k],
{
    reveal_strlit("Q6_K");
    reveal_strlit("Q4_K");
    reveal_strlit("Q8_0");
    let id = tier_table()[k].id@;
    assert(tier_table()[0].id@[1] == '6');
    assert(tier_table()[1].id@[1] == '4');
    assert(tier_table()[2].id@[1] == '8');
    if k == 0 {
        assert(tier_index_from(id, 0) == Some(0int));
    } else if k == 1 {
        assert(tier_table()[0].id@ != id);
        assert(tier_index_from(id, 1) == Some(1int));
        assert(tier_index_from(id, 0) == Some(1int));
    } else {
        assert(tier_table()[0].id@ != id);
        assert(tier_table()[1].id@ != id);
        assert(tier_index_from(id, 2) == Some(2int));
        assert(tier_index_from(id, 1) == Some(2int));
        assert(tier_index_from(id, 0) == Some(2int));
    }
}

/// An id that names no tier selects the default tier, Q6_K; the install size counts
/// every asset, the zips included; the MCP server listens on 8765 and the engine on 7860.
pub proof fn law_default_tier_and_sizes(id: Seq<char>)
    ensures
        tier_index(id) is None ==> tier_for(id).id@ == "Q6_K"@,
        sizes_total(asset_table()) == asset_table()[0].size + asset_table()[1].size + asset_table()[2].size
            + asset_table()[3].size + asset_table()[4].size,
        sizes_total(asset_table()) == 7_758_817_035,
        MCP_PORT == 8765,
        ENGINE_PORT == 7860,
{
    lemma_default_tier_listed();
    reveal_with_fuel(sizes_total, 6);
    assert(asset_table().drop_last().drop_last().drop_last().drop_last().drop_last() =~= Seq::<Asset>::empty());
}

/// The index in `v` (the tier table) of the tier whose id is `id`.
fn find_tier(v: &Vec<Tier>, id: &str) -> (r: Option<usize>)
    requires
        v@ == tier_table(),
    ensures
        r matches Some(i) ==> tier_index(id@) == Some(i as int),
        r is None ==> tier_index(id@) is None,
{
    let mut i: usize = 0;
    while i < v.len()
        invariant
            v@ == tier_table(),
            i <= v@.len(),
            tier_index(id@) == tier_index_from(id@, i as int),
        decreases v@.len() - i,
    {
        if str_eq(v[i].id, id) {
            return Some(i);
        }
        i = i + 1;
    }
    None
}

/// The tier whose id is `id`, or the default tier (Q6_K) when no tier has that id.
pub fn tier(id: &str) -> (t: Tier)
    ensures
        t == tier_for(id@),
        tier_index(id@) is Some ==> t.id@ == id@,
        tier_index(id@) is None ==> t.id@ == DEFAULT_TIER@,
{
    let v = tiers();
    proof {
        lemma_tier_index_from(id@, 0);
    }
    match find_tier(&v, id) {
        Some(i) => v[i],
        None => {
            proof {
                lemma_default_tier_listed();
            }
            let d = find_tier(&v, DEFAULT_TIER);
            v[d.unwrap()]
        },
    }
}

/// The position in the tier table of the tier that `id` selects.
pub fn tier_slot(id: &str) -> (i: usize)
    ensures
        i < tier_table().len(),
        tier_table()[i as int] == tier_for(id@),
{
    let v = tiers();
    proof {
        lemma_tier_index_from(id@, 0);
        lemma_default_tier_listed();
    }
    match find_tier(&v, id) {
        Some(i) => i,
        None => 0,
    }
}

/// Total size of the listed assets.
pub open spec fn sizes_total(a: Seq<Asset>) -> nat
    decreases a.len(),
{
    if a.len() == 0 {
        0
    } else {
        sizes_total(a.drop_last()) + a.last().size as nat
    }
}

/// Total bytes the given tier plus every shared asset will occupy.
pub fn install_size(tier_id: &str) -> (n: u64)
    ensures
        n == tier_for(tier_id@).size + sizes_total(asset_table()),
{
    let t = tier(tier_id);
    let a = assets();
    proof {
        lemma_tier_for_listed(tier_id@);
    }
    assert(t.size <= 8_000_000_000);
    proof {
        reveal_with_fuel(sizes_total, 6);
        assert(asset_table().take(5) == asset_table());
    }
    let mut sum: u64 = 0;
    let mut i: usize = 0;
    while i < a.len()
        invariant
            a@ == asset_table(),
            i <= a@.len(),
            sum == sizes_total(a@.take(i as int)),
            sum <= 12_000_000_000,
        decreases a@.len() - i,
    {
        proof {
            assert(a@.take(i + 1).drop_last() =~= a@.take(i as int));
            reveal_with_fuel(sizes_total, 6);
            assert(sizes_total(a@.take(i + 1)) <= sizes_total(asset_table()));
        }
        sum = sum + a[i].size;
        i = i + 1;
    }
    assert(a@.take(a@.len() as int) =~= a@);
    t.size + sum
}

/// The persisted settings. `root` is the install folder, as the platform writes paths.
#[derive(Clone)]
pub struct Config {
    pub root: String,
    pub secret: String,
    pub tier: String,
    pub tunnel_enabled: bool,
    /// A stand-in for huggingface.co, for networks that block it. Empty means direct.
    pub hf_endpoint: String,
    /// Seconds the last successful engine load took; drives the "loads in about N s" subline.
    pub last_load_secs: Option<u64>,
}

/// A secret as `random_secret` makes them: 32 lowercase hex digits.
pub open spec fn is_secret(s: Seq<char>) -> bool {
    &&& s.len() == 32
    &&& forall|i: int| 0 <= i < s.len() ==> is_hex_lower_char(#[trigger] s[i])
}

/// A fresh random secret for the MCP URL: 16 random bytes in lowercase hex.
pub fn random_secret() -> (s: String)
    ensures
        is_secret(s@),
        exists|b: Seq<u8>| b.len() == 16 && s@ == #[trigger] hex_lower(b),
{
    let b = random_bytes();
    let s = hex_encode(b.as_slice());
    proof {
        lemma_hex_lower(b@);
        assert(b@.len() == 16 && s@ == hex_lower(b@));
    }
    s
}

/// What a configuration holds before anything was saved: the given root, a fresh
/// secret, the default tier, the tunnel off, no mirror, no load time yet.
pub open spec fn is_initial(c: Config, root: Seq<char>) -> bool {
    &&& c.root@ == root
    &&& is_secret(c.secret@)
    &&& c.tier@ == DEFAULT_TIER@
    &&& !c.tunnel_enabled
    &&& c.hf_endpoint@.len() == 0
    &&& c.last_load_secs is None
}

impl Config {
    /// The configuration read from disk (`saved`, already parsed), or the initial one
    /// under `default_root` when there was nothing readable.
    pub fn load(saved: Option<Config>, default_root: String) -> (c: Config)
        ensures
            saved matches Some(s) ==> c == s,
            saved is None ==> is_initial(c, default_root@),
    {
        match saved {
            Some(s) => s,
            None => Config {
                root: default_root,
                secret: random_secret(),
                tier: DEFAULT_TIER.to_owned(),
                tunnel_enabled: false,
                hf_endpoint: String::new(),
                last_load_secs: None,
            },
        }
    }

    /// The model folder, paths joined on the platform whose main separator is `sep`
    /// (as for every path below).
    pub fn models_dir(&self, sep: char) -> (p: String)
        ensures
            p@ == joined(self.root@, "models"@, sep),
    {
        join_with(self.root.as_str(), "models", sep)
    }

    pub fn bin_dir(&self, sep: char) -> (p: String)
        ensures
            p@ == joined(self.root@, "bin"@, sep),
    {
        join_with(self.root.as_str(), "bin", sep)
    }

    pub fn outputs_dir(&self, sep: char) -> (p: String)
        ensures
            p@ == joined(self.root@, "outputs"@, sep),
    {
        join_with(self.root.as_str(), "outputs", sep)
    }

    /// The engine binary, inside `bin/`.
    pub fn sd_server(&self, sep: char) -> (p: String)
        ensures
            p@ == joined(joined(self.root@, "bin"@, sep), "sd-server.exe"@, sep),
    {
        let b = self.bin_dir(sep);
        join_with(b.as_str(), "sd-server.exe", sep)
    }

    /// The engine's log file, inside `outputs/`.
    pub fn log_path(&self, sep: char) -> (p: String)
        ensures
            p@ == joined(joined(self.root@, "outputs"@, sep), "sd-server.log"@, sep),
    {
        let o = self.outputs_dir(sep);
        join_with(o.as_str(), "sd-server.log", sep)
    }
}

/// The drive prefix (`G:\`) that `exe` starts with: its first three bytes, when they
/// are whole characters and the second is a colon.
pub open spec fn exe_drive(exe: Seq<char>) -> Option<Seq<char>> {
    if exe.len() >= 3 && (exe[0] as u32) < 0x80 && exe[1] == ':' && (exe[2] as u32) < 0x80 {
        Some(exe.take(3))
    } else {
        None
    }
}

pub open spec fn exe_drive_of(exe: Option<&str>) -> Option<Seq<char>> {
    match exe {
        Some(e) => exe_drive(e@),
        None => None,
    }
}

/// Where the 15 GB belong on Windows: a "Qwen Image Studio" folder at the root of the
/// drive the executable runs from; failing that, under `%LOCALAPPDATA%`; failing that,
/// relative to the working directory.
pub fn default_root_for(exe: Option<&str>, local_app_data: Option<&str>, sep: char) -> (p: String)
    ensures
        match exe_drive_of(exe) {
            Some(drive) => p@ == joined(drive, "Qwen Image Studio"@, sep),
            None => match local_app_data {
                Some(d) => p@ == joined(d@, "Qwen Image Studio"@, sep),
                None => p@ == "Qwen Image Studio"@,
            },
        },
{
    if let Some(e) = exe {
        let c = crate::text::chars_of(e);
        if c.len() >= 3 && (c[0] as u32) < 0x80 && c[1] == ':' && (c[2] as u32) < 0x80 {
            let d = crate::text::slice_chars(c.as_slice(), 0, 3);
            let drive = crate::text::string_of(d.as_slice());
            assert(d@ =~= e@.take(3));
            return join_with(drive.as_str(), "Qwen Image Studio", sep);
        }
    }
    match local_app_data {
        Some(d) => join_with(d, "Qwen Image Studio", sep),
        None => "Qwen Image Studio".to_owned(),
    }
}

} // verus!
