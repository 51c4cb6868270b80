//! The sd-server engine: how it is launched, what its answers mean, and the
//! life cycle the panel follows (Off → Loading → Ready → Stopping → Off).
use crate::codec::{base64_decode, base64_std, decode_error_text};
use crate::config::{asset_table, tier, tier_for, Config, ENGINE_PORT};
use crate::download::{entry_dest, plan_len};
use crate::text::{
    after_char, before_char, chars_of, decimal, first_line, first_line_chars, has_infix,
    join_with, joined, lowercase, lowercase_of, parse_u64_chars, parse_u64_spec, push_decimal, push_str,
    contains_str, split_once_char, str_eq, trim_chars, trim_ws, all_digits, is_digit, trim_start_ws, trim_end_ws, lemma_decimal_digits,
};
use vstd::prelude::*;

verus! {

#[derive(Clone, Debug)]
pub enum Status {
    Off,
    Loading,
    Ready,
    Stopping,
    Error { message: String },
}

/// The engine as the app tracks it. `C` is the running child process and `I` an
/// instant in time; the library only keeps them.
pub struct Engine<C, I> {
    pub child: Option<C>,
    pub status: Status,
    pub loaded_tier: Option<String>,
    pub load_started: Option<I>,
    pub load_secs: Option<u64>,
    /// Set when a generation fails for lack of VRAM; cleared on the next success, and
    /// on the next start.
    pub last_oom: Option<String>,
    pub busy: Option<String>,
    pub busy_since: Option<I>,
    /// Seconds this job is expected to take, from the measured 1024² baseline.
    pub busy_eta: Option<u64>,
}

impl Default for Status {
    /// An engine starts out off.
    fn default() -> (s: Status)
        ensures
            s is Off,
    {
        Status::Off
    }
}

/// The engine after Start at `now`, and whether it was accepted: not while a process
/// runs; otherwise Loading from `now`, with any earlier out-of-memory note cleared.
pub open spec fn start_spec<C, I>(e: Engine<C, I>, now: I) -> (Engine<C, I>, bool) {
    if e.child is Some {
        (e, false)
    } else {
        (Engine { status: Status::Loading, load_started: Some(now), last_oom: None, ..e }, true)
    }
}

/// The engine after Stop, and whether it was accepted: only while a process runs.
pub open spec fn stop_spec<C, I>(e: Engine<C, I>) -> (Engine<C, I>, bool) {
    if e.child is None {
        (e, false)
    } else {
        (Engine { status: Status::Stopping, ..e }, true)
    }
}

/// The engine once its process is gone.
pub open spec fn stopped_spec<C, I>(e: Engine<C, I>) -> Engine<C, I> {
    Engine { status: Status::Off, loaded_tier: None, busy: None, ..e }
}

/// The engine after its process was handed out (to be killed).
pub open spec fn taken_spec<C, I>(e: Engine<C, I>) -> Engine<C, I> {
    Engine { child: None, ..e }
}

/// The engine after launching or loading failed with `message`.
pub open spec fn failed_spec<C, I>(e: Engine<C, I>, message: String) -> Engine<C, I> {
    Engine { status: Status::Error { message }, load_started: None, ..e }
}

/// The engine once `tier` loaded in `secs` seconds.
pub open spec fn loaded_spec<C, I>(e: Engine<C, I>, tier: String, secs: u64) -> Engine<C, I> {
    Engine { status: Status::Ready, loaded_tier: Some(tier), load_started: None, load_secs: Some(secs), ..e }
}

impl<C, I> Default for Engine<C, I> {
    /// The same engine as `Engine::new`.
    fn default() -> (e: Self)
        ensures
            e.child is None,
            e.status is Off,
            e.loaded_tier is None,
            e.load_started is None,
            e.load_secs is None,
            e.last_oom is None,
            e.busy is None,
            e.busy_since is None,
            e.busy_eta is None,
    {
        Engine::new()
    }
}

impl<C, I> Engine<C, I> {
    /// An engine that is off, with nothing running.
    pub fn new() -> (e: Self)
        ensures
            e.child is None,
            e.status is Off,
            e.loaded_tier is None,
            e.load_started is None,
            e.load_secs is None,
            e.last_oom is None,
            e.busy is None,
            e.busy_since is None,
            e.busy_eta is None,
    {
        Engine {
            child: None,
            status: Status::Off,
            loaded_tier: None,
            load_started: None,
            load_secs: None,
            last_oom: None,
            busy: None,
            busy_since: None,
            busy_eta: None,
        }
    }

    pub fn take_child(&mut self) -> (c: Option<C>)
        ensures
            c == old(self).child,
            *final(self) == taken_spec(*old(self)),
    {
        self.child.take()
    }

    pub fn set_child(&mut self, c: C)
        ensures
            *final(self) == (Engine { child: Some(c), ..*old(self) }),
    {
        self.child = Some(c);
    }

    pub fn has_child(&self) -> (b: bool)
        ensures
            b == self.child is Some,
    {
        self.child.is_some()
    }

    /// Start pressed at `now`. With a process already running nothing changes and the
    /// answer is `false`; otherwise the engine is Loading from `now` and any earlier
    /// out-of-memory note is cleared.
    pub fn begin_start(&mut self, now: I) -> (started: bool)
        ensures
            (*final(self), started) == start_spec(*old(self), now),
    {
        if self.child.is_some() {
            return false;
        }
        self.status = Status::Loading;
        self.load_started = Some(now);
        self.last_oom = None;
        true
    }

    /// Launching or loading failed with `message`.
    pub fn fail_start(&mut self, message: String)
        ensures
            *final(self) == failed_spec(*old(self), message),
    {
        self.status = Status::Error { message };
        self.load_started = None;
    }

    /// The weights are in: `tier` loaded in `secs` seconds.
    pub fn loaded(&mut self, tier: String, secs: u64)
        ensures
            *final(self) == loaded_spec(*old(self), tier, secs),
    {
        self.status = Status::Ready;
        self.loaded_tier = Some(tier);
        self.load_started = None;
        self.load_secs = Some(secs);
    }

    /// Stop pressed. With nothing running nothing changes and the answer is `false`;
    /// otherwise the engine is Stopping until the process is gone.
    pub fn begin_stop(&mut self) -> (stopping: bool)
        ensures
            (*final(self), stopping) == stop_spec(*old(self)),
    {
        if self.child.is_none() {
            return false;
        }
        self.status = Status::Stopping;
        true
    }

    /// The process is gone: the engine is Off with nothing loaded and no job.
    pub fn stopped(&mut self)
        ensures
            *final(self) == stopped_spec(*old(self)),
    {
        self.status = Status::Off;
        self.loaded_tier = None;
        self.busy = None;
    }

    /// A job starts (`what` names it) or ends (`None`) at `now`.
    pub fn set_busy(&mut self, what: Option<String>, eta: Option<u64>, now: I)
        ensures
            *final(self) == (Engine {
                busy_since: if what is Some { Some(now) } else { None },
                busy_eta: eta,
                busy: what,
                ..*old(self)
            }),
    {
        self.busy_since = if what.is_some() { Some(now) } else { None };
        self.busy_eta = eta;
        self.busy = what;
    }

    /// A generation failed with `message`. A failure for lack of VRAM (the message
    /// `friendly` gives for one) is kept for the panel; any other leaves the note as it was.
    pub fn note_failure(&mut self, message: String)
        ensures
            message@ == OOM_MESSAGE@ ==> *final(self) == (Engine { last_oom: Some(message), ..*old(self) }),
            message@ != OOM_MESSAGE@ ==> *final(self) == *old(self),
    {
        if str_eq(message.as_str(), OOM_MESSAGE) {
            self.last_oom = Some(message);
        }
    }

    /// A generation succeeded: any out-of-memory note is cleared.
    pub fn note_success(&mut self)
        ensures
            *final(self) == (Engine { last_oom: None, ..*old(self) }),
    {
        self.last_oom = None;
    }
}

/// Stopping a running engine — Stop, its process handed out and killed, gone — leaves
/// it Off with no process, nothing loaded and no job, keeping the last load time for
/// the "loads in about N s" line; a Start after that is accepted.
pub proof fn law_stop_leaves_off<C, I>(e: Engine<C, I>, now: I)
    requires
        e.child is Some,
    ensures
        ({
            let (stopping, accepted) = stop_spec(e);
            let off = stopped_spec(taken_spec(stopping));
            &&& accepted
            &&& off.status is Off
            &&& off.child is None
            &&& off.loaded_tier is None
            &&& off.busy is None
            &&& off.load_secs == e.load_secs
            &&& start_spec(off, now).1
        }),
{
}

/// A Start with no process running makes the engine Loading from that moment with any
/// out-of-memory note cleared; a Start while a process runs is refused and changes
/// nothing, so at most one sd-server runs; launching it, loading `tier` and stopping
/// again returns to Off.
pub proof fn law_one_engine_at_a_time<C, I>(e: Engine<C, I>, now: I, later: I, c: C, tier: String, secs: u64)
    requires
        e.child is None,
    ensures
        ({
            let (loading, accepted) = start_spec(e, now);
            let running = Engine { child: Some(c), ..loading };
            let ready = loaded_spec(running, tier, secs);
            &&& accepted
            &&& loading.status is Loading
            &&& loading.load_started == Some(now)
            &&& loading.last_oom is None
            &&& loading.loaded_tier == e.loaded_tier
            &&& loading.child is None
            &&& ready.status is Ready
            &&& ready.load_started is None
            &&& ready.loaded_tier == Some(tier)
            &&& ready.load_secs == Some(secs)
            &&& start_spec(running, later) == (running, false)
            &&& start_spec(ready, later) == (ready, false)
            &&& stopped_spec(taken_spec(stop_spec(ready).0)).status is Off
        }),
{
}

/// A failed load leaves an error to show and no process, and Start can be pressed again.
pub proof fn law_failed_load_can_retry<C, I>(e: Engine<C, I>, now: I, c: C, message: String, again: I)
    requires
        e.child is None,
    ensures
        ({
            let running = Engine { child: Some(c), ..start_spec(e, now).0 };
            let failed = failed_spec(taken_spec(running), message);
            &&& failed.status == (Status::Error { message })
            &&& failed.child is None
            &&& failed.load_started is None
            &&& start_spec(failed, again).1
        }),
{
}

/// The engine's address: `http://127.0.0.1:7860`.
pub fn base() -> (s: String)
    ensures
        s@ == "http://127.0.0.1:"@ + decimal(ENGINE_PORT as nat),
{
    let mut s = String::new();
    push_str(&mut s, "http://127.0.0.1:");
    push_decimal(&mut s, ENGINE_PORT as u64);
    assert(s@ =~= "http://127.0.0.1:"@ + decimal(ENGINE_PORT as nat));
    s
}

/// The launch arguments for `cfg`, paths joined on the platform of `sep`: the one configuration proven
/// to fit a 16 GB card (text encoder on the CPU, weights loaded up front, no CPU offload).
pub open spec fn launch_args(cfg: Config, sep: char) -> Seq<Seq<char>> {
    let m = joined(cfg.root@, "models"@, sep);
    seq![
        "--diffusion-model"@,
        joined(m, tier_for(cfg.tier@).file@, sep),
        "--llm"@,
        joined(m, "qwen3vl_8b_heretic-Q4_K_M.gguf"@, sep),
        "--llm_vision"@,
        joined(m, "mmproj-qwen3vl_8b_heretic-f16.gguf"@, sep),
        "--vae"@,
        joined(m, "qwen_image_2.1_vae_bf16.safetensors"@, sep),
        "--params-backend"@,
        "te=cpu,diffusion=cuda0,vae=cuda0"@,
        "--backend"@,
        "te=cpu"@,
        "--sage-attn"@,
        "--vae-tiling"@,
        "--eager-load"@,
        "--cfg-scale"@,
        "6.0"@,
        "--listen-ip"@,
        "127.0.0.1"@,
        "--listen-port"@,
        decimal(ENGINE_PORT as nat),
        "-v"@,
    ]
}

/// The characters of each string of `a`.
pub open spec fn texts(a: Seq<String>) -> Seq<Seq<char>> {
    a.map_values(|s: String| s@)
}

/// The command-line arguments sd-server is started with, paths joined on the platform
/// whose main separator is `sep`.
pub fn args(cfg: &Config, sep: char) -> (a: Vec<String>)
    ensures
        texts(a@) == launch_args(*cfg, sep),
{
    let m = cfg.models_dir(sep);
    let t = tier(cfg.tier.as_str());
    let mut a: Vec<String> = Vec::new();
    a.push("--diffusion-model".to_owned());
    a.push(join_with(m.as_str(), t.file, sep));
    a.push("--llm".to_owned());
    a.push(join_with(m.as_str(), "qwen3vl_8b_heretic-Q4_K_M.gguf", sep));
    a.push("--llm_vision".to_owned());
    a.push(join_with(m.as_str(), "mmproj-qwen3vl_8b_heretic-f16.gguf", sep));
    a.push("--vae".to_owned());
    a.push(join_with(m.as_str(), "qwen_image_2.1_vae_bf16.safetensors", sep));
    a.push("--params-backend".to_owned());
    a.push("te=cpu,diffusion=cuda0,vae=cuda0".to_owned());
    a.push("--backend".to_owned());
    a.push("te=cpu".to_owned());
    // SageAttention measured 56.1 s against flash attention's 65.1 s at 1024² / 20
    // steps, with the two images visually indistinguishable at the same seed.
    a.push("--sage-attn".to_owned());
    a.push("--vae-tiling".to_owned());
    // Without this sd.cpp reads the weights lazily, on the first generation, and the
    // whole disk cost lands on the first image instead of in the Loading state.
    a.push("--eager-load".to_owned());
    a.push("--cfg-scale".to_owned());
    a.push("6.0".to_owned());
    a.push("--listen-ip".to_owned());
    a.push("127.0.0.1".to_owned());
    a.push("--listen-port".to_owned());
    a.push(crate::text::decimal_string(ENGINE_PORT as u64));
    a.push("-v".to_owned());
    assert(texts(a@) =~= launch_args(*cfg, sep));
    a
}

/// The engine's command line depends on the install root and the tier alone: the MCP
/// secret, the tunnel setting, the hub endpoint and the last load time never reach it.
pub proof fn law_args_depend_on_root_and_tier(c1: Config, c2: Config, sep: char)
    requires
        c1.root@ == c2.root@,
        c1.tier@ == c2.tier@,
    ensures
        launch_args(c1, sep) == launch_args(c2, sep),
{
}

/// Each model file is handed over behind its own flag — the DiT the plan fetches first
/// behind `--diffusion-model`, the text encoder behind `--llm`, the vision projector
/// behind `--llm_vision`, the VAE behind `--vae` — and each setting follows its flag:
/// the text encoder on the CPU and the rest on the GPU, no CPU offload, loopback on
/// port 7860.
pub proof fn law_model_paths_follow_their_flags(cfg: Config, sep: char)
    ensures
        ({
            let a = launch_args(cfg, sep);
            &&& a.len() == 22
            &&& a[0] == "--diffusion-model"@ && a[1] == entry_dest(cfg, 0, sep)
            &&& a[2] == "--llm"@ && a[3] == entry_dest(cfg, 1, sep)
            &&& a[4] == "--llm_vision"@ && a[5] == entry_dest(cfg, 2, sep)
            &&& a[6] == "--vae"@ && a[7] == entry_dest(cfg, 3, sep)
            &&& a[8] == "--params-backend"@ && a[9] == "te=cpu,diffusion=cuda0,vae=cuda0"@
            &&& a[10] == "--backend"@ && a[11] == "te=cpu"@
            &&& a[15] == "--cfg-scale"@ && a[16] == "6.0"@
            &&& a[17] == "--listen-ip"@ && a[18] == "127.0.0.1"@
            &&& a[19] == "--listen-port"@ && a[20] == "7860"@
            &&& a.subrange(12, 15) == seq!["--sage-attn"@, "--vae-tiling"@, "--eager-load"@]
            &&& a[21] == "-v"@
        }),
        asset_table()[0].id@ == "text_encoder"@,
        asset_table()[1].id@ == "vision"@,
        asset_table()[2].id@ == "vae"@,
{
    let a = launch_args(cfg, sep);
    assert(a.subrange(12, 15) =~= seq!["--sage-attn"@, "--vae-tiling"@, "--eager-load"@]);
    reveal_strlit("7860");
    reveal_with_fuel(decimal, 5);
    assert(decimal(7860) =~= seq!['7', '8', '6', '0']);
}

/// The engine is launched on the files the installer fetches: every plan file that is
/// not a zip (the model, text encoder, vision projector and VAE) is one of the launch
/// arguments.
pub proof fn law_engine_runs_downloaded_files(cfg: Config, sep: char, i: int)
    requires
        0 <= i < plan_len(),
        !(i > 0 && asset_table()[i - 1].unzip),
    ensures
        launch_args(cfg, sep).contains(entry_dest(cfg, i, sep)),
{
    let a = launch_args(cfg, sep);
    if i == 0 {
        assert(a[1] == entry_dest(cfg, i, sep));
    } else if i == 1 {
        assert(a[3] == entry_dest(cfg, i, sep));
    } else if i == 2 {
        assert(a[5] == entry_dest(cfg, i, sep));
    } else if i == 3 {
        assert(a[7] == entry_dest(cfg, i, sep));
    } else {
        reveal_strlit("engine");
        assert(asset_table()[i - 1].unzip);
    }
}

/// Estimated seconds for a job: 1024² at 20 steps takes 56 s and the cost tracks pixel
/// count linearly; rounded half up, at least 5 s, and at most `u64::MAX`.
pub open spec fn eta_spec(w: u32, h: u32, steps: u32) -> u64 {
    let n = w as int * h as int * 56 * steps as int;
    let d: int = 20971520int;
    let r: int = (2 * n + d) / (2 * d);
    if r < 5 {
        5
    } else if r > u64::MAX {
        u64::MAX
    } else {
        r as u64
    }
}

/// Seconds a `w`×`h` job of `steps` steps is expected to take.
pub fn eta_secs(w: u32, h: u32, steps: u32) -> (s: u64)
    ensures
        s == eta_spec(w, h, steps),
{
    assert(w as int * h as int <= 0xffff_ffff_ffff_ffff) by (nonlinear_arith)
        requires w <= 0xffff_ffff, h <= 0xffff_ffff;
    let wh: u128 = w as u128 * h as u128;
    assert(wh as int * 56 * steps as int <= 0xffff_ffff_ffff_ffff * 56 * 0xffff_ffff) by (nonlinear_arith)
        requires wh <= 0xffff_ffff_ffff_ffff, steps <= 0xffff_ffff;
    let n: u128 = wh * 56 * steps as u128;
    let d: u128 = 1024 * 1024 * 20;
    let r: u128 = (2 * n + d) / (2 * d);
    if r < 5 {
        5
    } else if r > 0xffff_ffff_ffff_ffff {
        0xffff_ffff_ffff_ffff
    } else {
        r as u64
    }
}

/// The estimate scales the measured 56 s for 1024×1024 at 20 steps by pixel count and
/// steps, rounded to the nearest second with halves up, and is never under 5 s.
pub proof fn law_eta_scales_the_baseline(w: u32, h: u32, steps: u32)
    ensures
        eta_spec(1024, 1024, 20) == 56,
        eta_spec(w, h, steps) >= 5,
        ({
            let r = eta_spec(w, h, steps) as int;
            let x = w as int * h as int * steps as int * 56;
            let d = 1024 * 1024 * 20;
            &&& 5 < r < u64::MAX ==> 2 * r * d - d <= 2 * x < 2 * r * d + d
            &&& r == 5 ==> 2 * x < 11 * d
        }),
{
    let n = w as int * h as int * 56 * steps as int;
    let x = w as int * h as int * steps as int * 56;
    assert(n == x) by (nonlinear_arith)
        requires n == w as int * h as int * 56 * steps as int, x == w as int * h as int * steps as int * 56;
    let d: int = 20971520int;
    let q: int = (2 * n + d) / (2 * d);
    assert(q * 41943040 <= 2 * n + 20971520 < q * 41943040 + 41943040) by (nonlinear_arith)
        requires q == (2 * n + 20971520) / 41943040;
    assert(1024 * 1024 * 20 == d);
    if q < 5 {
        assert(eta_spec(w, h, steps) == 5);
        assert(2 * x < 11 * d);
    } else if q <= u64::MAX {
        assert(eta_spec(w, h, steps) as int == q);
        if q == 5 {
            assert(2 * x < 11 * d);
        }
    }
    assert((2 * 1174405120int + d) / (2 * d) == 56) by (nonlinear_arith) requires d == 20971520;
    assert(1024int * 1024 * 56 * 20 == 1174405120);
}

/// A failed job's message becomes the out-of-memory advice exactly when sd.cpp said it
/// "returned no results" or the message mentions memory in any case; any other message
/// is passed on as it came.
pub proof fn law_friendly_message(raw: Seq<char>, lowered: Seq<char>)
    ensures
        has_infix(raw, "no results"@) ==> friendly_text(raw, lowered) == "Out of memory. Try a smaller size, or switch to Q4_K_M."@,
        has_infix(lowered, "memory"@) ==> friendly_text(raw, lowered) == "Out of memory. Try a smaller size, or switch to Q4_K_M."@,
        !has_infix(raw, "no results"@) && !has_infix(lowered, "memory"@) ==> friendly_text(raw, lowered) == raw,
{
}

pub const OOM_MESSAGE: &'static str = "Out of memory. Try a smaller size, or switch to Q4_K_M.";

/// sd.cpp reports every VRAM shortfall as "returned no results": such a message, or one
/// that mentions memory in any case (`lowered` is `raw` lowercased), becomes a useful one.
pub open spec fn friendly_text(raw: Seq<char>, lowered: Seq<char>) -> Seq<char> {
    if has_infix(raw, "no results"@) || has_infix(lowered, "memory"@) {
        OOM_MESSAGE@
    } else {
        raw
    }
}

/// The message for a failed job, given its lowercased form.
pub fn friendly_from(raw: &str, lowered: &str) -> (s: String)
    ensures
        s@ == friendly_text(raw@, lowered@),
{
    if contains_str(raw, "no results") || contains_str(lowered, "memory") {
        OOM_MESSAGE.to_owned()
    } else {
        raw.to_owned()
    }
}

/// The message for a failed job.
pub fn friendly(raw: &str) -> (s: String)
    ensures
        s@ == friendly_text(raw@, lowercase_of(raw@)),
{
    let lowered = lowercase(raw);
    friendly_from(raw, lowered.as_str())
}

/// The two numbers nvidia-smi prints on its first line, `used, total` in MiB.
pub open spec fn vram_spec(out: Seq<char>) -> Option<(u64, u64)> {
    match first_line(out) {
        None => None,
        Some(l) => match after_char(l, ',') {
            None => None,
            Some(rest) => match (
                parse_u64_spec(trim_ws(before_char(l, ','))),
                parse_u64_spec(trim_ws(before_char(rest, ','))),
            ) {
                (Some(a), Some(b)) => Some((a, b)),
                _ => None,
            },
        },
    }
}

proof fn lemma_digits_trimmed(d: Seq<char>)
    requires
        d.len() > 0,
        all_digits(d),
    ensures
        trim_ws(d) == d,
        !d.contains(','),
        !d.contains('\n'),
        d[0] != '+',
        d.last() != '\r',
{
    assert(is_digit(d[0]));
    assert(is_digit(d[d.len() - 1]));
    assert(trim_start_ws(d) == d);
    assert(trim_end_ws(d) == d);
    assert(!d.contains(',')) by {
        if d.contains(',') {
            let j = choose|j: int| 0 <= j < d.len() && d[j] == ',';
            assert(is_digit(d[j]));
        }
    }
    assert(!d.contains('\n')) by {
        if d.contains('\n') {
            let j = choose|j: int| 0 <= j < d.len() && d[j] == '\n';
            assert(is_digit(d[j]));
        }
    }
}

/// nvidia-smi's answer reads as (used, total): the first field of its first line is the
/// memory in use, the second the card's total, in MiB.
pub proof fn law_vram_reads_used_then_total(used: u64, total: u64, rest: Seq<char>)
    ensures
        vram_spec(decimal(used as nat) + ", "@ + decimal(total as nat) + "\n"@ + rest) == Some((used, total)),
{
    reveal_strlit(", ");
    reveal_strlit("\n");
    let du = decimal(used as nat);
    let dt = decimal(total as nat);
    lemma_decimal_digits(used as nat);
    lemma_decimal_digits(total as nat);
    lemma_digits_trimmed(du);
    lemma_digits_trimmed(dt);
    let l = du + ", "@ + dt;
    let s = du + ", "@ + dt + "\n"@ + rest;
    // The first line is `l`.
    assert(s =~= l + ("\n"@ + rest));
    assert(s[l.len() as int] == '\n');
    assert forall|j: int| 0 <= j < l.len() implies s[j] != '\n' by {
        assert(s[j] == l[j]);
        if j < du.len() {
            assert(l[j] == du[j]);
            assert(is_digit(du[j]));
        } else if j >= du.len() + 2 {
            assert(l[j] == dt[j - du.len() - 2]);
            assert(is_digit(dt[j - du.len() - 2]));
        }
    }
    crate::text::lemma_first_char_at(s, '\n', l.len() as int, 0);
    assert(s.take(l.len() as int) =~= l);
    assert(l.last() == dt.last());
    assert(first_line(s) == Some(l));
    // The first field is `du`, what follows its comma is " " + dt.
    assert(l[du.len() as int] == ',');
    assert forall|j: int| 0 <= j < du.len() implies l[j] != ',' by {
        assert(l[j] == du[j]);
        assert(is_digit(du[j]));
    }
    crate::text::lemma_first_char_at(l, ',', du.len() as int, 0);
    assert(l.take(du.len() as int) =~= du);
    let r = l.skip(du.len() as int + 1);
    assert(r =~= seq![' '] + dt);
    assert(!r.contains(',')) by {
        if r.contains(',') {
            let j = choose|j: int| 0 <= j < r.len() && r[j] == ',';
            if j > 0 {
                assert(r[j] == dt[j - 1]);
                assert(dt.contains(','));
            }
        }
    }
    crate::text::lemma_char_absent(r, ',');
    assert(before_char(r, ',') == r);
    assert(r.drop_first() =~= dt);
    assert(trim_start_ws(r) == trim_start_ws(dt));
    assert(trim_start_ws(dt) == dt);
    assert(trim_ws(r) == dt);
    assert(parse_u64_spec(du) == Some(used));
    assert(parse_u64_spec(dt) == Some(total));
}

/// (used MiB, total MiB) from the output of
/// `nvidia-smi --query-gpu=memory.used,memory.total --format=csv,noheader,nounits`.
pub fn parse_vram(out: &str) -> (r: Option<(u64, u64)>)
    ensures
        r == vram_spec(out@),
{
    let c = chars_of(out);
    let line = match first_line_chars(c.as_slice()) {
        Some(l) => l,
        None => return None,
    };
    let (f0, rest) = split_once_char(line.as_slice(), ',');
    let rest = match rest {
        Some(r) => r,
        None => return None,
    };
    let (f1, _) = split_once_char(rest.as_slice(), ',');
    let t0 = trim_chars(f0.as_slice());
    let t1 = trim_chars(f1.as_slice());
    match (parse_u64_chars(t0.as_slice()), parse_u64_chars(t1.as_slice())) {
        (Some(a), Some(b)) => Some((a, b)),
        _ => None,
    }
}

/// What a poll of a job's status means.
#[derive(Clone, Debug)]
pub enum PollDecision {
    /// Still running: poll again.
    Wait,
    /// Completed: decode this base64 PNG.
    Decode(String),
    /// Completed without an image.
    NoImage,
    /// Failed or cancelled with this message.
    Fail(String),
}

/// The decision for a poll that reported `status`, the first image as base64 (if any)
/// and an error message (if any).
pub fn poll_decision(status: &str, image_b64: Option<&str>, error_message: Option<&str>) -> (d: PollDecision)
    ensures
        status@ == "completed"@ ==> match image_b64 {
            Some(b) => d matches PollDecision::Decode(x) && x@ == b@,
            None => d is NoImage,
        },
        status@ != "completed"@ && (status@ == "failed"@ || status@ == "cancelled"@) ==> match error_message {
            Some(m) => d matches PollDecision::Fail(x) && x@ == m@,
            None => d matches PollDecision::Fail(x) && x@ == "generation failed"@,
        },
        status@ != "completed"@ && status@ != "failed"@ && status@ != "cancelled"@ ==> d is Wait,
{
    if str_eq(status, "completed") {
        match image_b64 {
            Some(b) => PollDecision::Decode(b.to_owned()),
            None => PollDecision::NoImage,
        }
    } else if str_eq(status, "failed") || str_eq(status, "cancelled") {
        match error_message {
            Some(m) => PollDecision::Fail(m.to_owned()),
            None => PollDecision::Fail("generation failed".to_owned()),
        }
    } else {
        PollDecision::Wait
    }
}

/// The PNG bytes of a completed job, or the decoder's complaint.
pub fn decode_image(b64: &str) -> (r: Result<Vec<u8>, String>)
    ensures
        r is Ok <==> exists|b: Seq<u8>| #[trigger] base64_std(b) == b64@,
        r matches Ok(v) ==> base64_std(v@) == b64@,
{
    match base64_decode(b64) {
        Ok(v) => Ok(v),
        Err(e) => Err(decode_error_text(&e)),
    }
}

/// What waiting for the engine does after one probe of its capabilities endpoint.
#[derive(Clone, Debug)]
pub enum WaitStep {
    Ready,
    TimedOut(String),
    Again,
}

/// The engine answered (`up`), or the deadline passed, or it is polled again.
pub fn wait_step(up: bool, past_deadline: bool) -> (s: WaitStep)
    ensures
        up ==> s is Ready,
        !up && past_deadline ==> (s matches WaitStep::TimedOut(m) && m@ == "Engine did not come up in time. Show log"@),
        !up && !past_deadline ==> s is Again,
{
    if up {
        WaitStep::Ready
    } else if past_deadline {
        WaitStep::TimedOut("Engine did not come up in time. Show log".to_owned())
    } else {
        WaitStep::Again
    }
}

/// One image job for the engine.
pub struct GenRequest {
    pub prompt: String,
    pub negative: String,
    pub width: u32,
    pub height: u32,
    pub steps: u32,
    pub seed: i64,
    pub refs: Vec<String>,
}

/// The `img_gen` request body, field for field as the engine's JSON takes it. The
/// guidance (`txt_cfg` 6.0) is a constant the app adds when it writes the JSON.
pub struct ImgGenBody {
    pub prompt: String,
    pub negative_prompt: String,
    pub width: u32,
    pub height: u32,
    pub seed: i64,
    pub batch_count: u32,
    pub sample_method: String,
    pub sample_steps: u32,
    pub output_format: String,
    pub ref_images: Option<Vec<String>>,
    pub increase_ref_index: Option<bool>,
}

/// The body for `req`: one euler-sampled PNG; reference images, and the flag that
/// numbers them, only when there are any.
pub fn job_body(req: GenRequest) -> (b: ImgGenBody)
    ensures
        b.prompt == req.prompt,
        b.negative_prompt == req.negative,
        b.width == req.width,
        b.height == req.height,
        b.seed == req.seed,
        b.batch_count == 1,
        b.sample_method@ == "euler"@,
        b.sample_steps == req.steps,
        b.output_format@ == "png"@,
        req.refs@.len() == 0 ==> b.ref_images is None && b.increase_ref_index is None,
        req.refs@.len() > 0 ==> b.ref_images == Some(req.refs) && b.increase_ref_index == Some(true),
{
    let has_refs = req.refs.len() > 0;
    ImgGenBody {
        prompt: req.prompt,
        negative_prompt: req.negative,
        width: req.width,
        height: req.height,
        seed: req.seed,
        batch_count: 1,
        sample_method: "euler".to_owned(),
        sample_steps: req.steps,
        output_format: "png".to_owned(),
        ref_images: if has_refs { Some(req.refs) } else { None },
        increase_ref_index: if has_refs { Some(true) } else { None },
    }
}

} // verus!
