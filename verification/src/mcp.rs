//! The two MCP tools, `qwen_generate` and `qwen_edit`: how their arguments become an
//! engine job. Serving them over HTTP happens in the app.
use crate::codec::{base64_encode, base64_std};
use crate::engine::{eta_secs, eta_spec, GenRequest, Status};
use crate::state::GalleryItem;
use crate::text::{
    after_char, chars_of, contains_str, decimal, first_match, has_infix, has_prefix, has_suffix, lowercase, lowercase_of,
    matches_at, push_decimal, push_str, slice_chars, string_of, trim_end_in, trim_end_set,
};
use vstd::prelude::*;
use vstd::utf8::encode_utf8;

verus! {

/// Arguments of `qwen_generate`.
pub struct GenerateArgs {
    /// What to draw. English prompts follow the model's training most closely.
    pub prompt: String,
    /// Width in pixels. Rounded to a multiple of 32. Default 1024.
    pub width: Option<u32>,
    /// Height in pixels. Rounded to a multiple of 32. Default 1024.
    pub height: Option<u32>,
    /// Sampling steps. Default 20; above ~30 rarely pays for itself.
    pub steps: Option<u32>,
    /// Seed. Omit or pass -1 for a random one.
    pub seed: Option<i64>,
    /// What to avoid.
    pub negative_prompt: Option<String>,
    /// Cut the subject out on a transparent background (RGBA PNG).
    pub transparent: Option<bool>,
}

/// Arguments of `qwen_edit`.
pub struct EditArgs {
    /// The change to make, e.g. "change the sign text to 'OPEN'".
    pub prompt: String,
    /// Up to 10 reference images: absolute file paths, or raw base64 PNG/JPEG.
    pub images: Vec<String>,
    pub width: Option<u32>,
    pub height: Option<u32>,
    pub steps: Option<u32>,
    pub seed: Option<i64>,
    /// Cut the result out on a transparent background (RGBA PNG).
    pub transparent: Option<bool>,
}

/// Most reference images an edit takes.
pub const MAX_REFS: usize = 10;

pub open spec fn snap_spec(v: u32) -> u32 {
    let c = if v < 256 { 256 } else if v > 2048 { 2048 } else { v };
    ((c / 32) * 32) as u32
}

/// A side length the engine takes: clamped to 256..=2048 and rounded down to a
/// multiple of 32.
pub fn snap(v: u32) -> (r: u32)
    ensures
        r == snap_spec(v),
        256 <= r <= 2048,
        r % 32 == 0,
{
    let c = if v < 256 { 256 } else if v > 2048 { 2048 } else { v };
    (c / 32) * 32
}

/// Snapping is idempotent: a snapped size is a multiple of 32 in 256..=2048, and
/// snapping it again changes nothing.
pub proof fn law_snap_idempotent(v: u32)
    ensures
        256 <= snap_spec(v) <= 2048,
        snap_spec(v) % 32 == 0,
        snap_spec(snap_spec(v)) == snap_spec(v),
        snap_spec(v) <= v || v < 256,
{
}

/// A requested side becomes the largest multiple of 32 not above it, kept within
/// 256..=2048; sampling steps default to 20 and are kept within 1..=60; an edit takes
/// at most ten references.
pub proof fn law_sizes_and_steps(v: u32, n: u32)
    ensures
        snap_spec(v) % 32 == 0,
        256 <= snap_spec(v) <= 2048,
        256 <= v <= 2048 ==> snap_spec(v) <= v < snap_spec(v) + 32,
        v < 256 ==> snap_spec(v) == 256,
        v >= 2048 ==> snap_spec(v) == 2048,
        steps_spec(None) == 20,
        1 <= n <= 60 ==> steps_spec(Some(n)) == n,
        n == 0 ==> steps_spec(Some(n)) == 1,
        n > 60 ==> steps_spec(Some(n)) == 60,
        MAX_REFS == 10,
{
}

pub open spec fn steps_spec(steps: Option<u32>) -> u32 {
    let s = match steps { Some(n) => n, None => 20 };
    if s < 1 { 1 } else if s > 60 { 60 } else { s }
}

/// Sampling steps: default 20, clamped to 1..=60.
pub fn resolve_steps(steps: Option<u32>) -> (r: u32)
    ensures
        r == steps_spec(steps),
        1 <= r <= 60,
{
    let s = match steps { Some(n) => n, None => 20 };
    if s < 1 { 1 } else if s > 60 { 60 } else { s }
}

pub const RGBA_LEAD: &'static str = "This is an RGBA image with transparency. ";
pub const RGBA_TAIL: &'static str = " The image has alpha channel and          the background is transparent.";

/// The prompt that asks Qwen-Image-2.1 for its own alpha, the phrasing its model card
/// prescribes; a prompt that already asks for it (`lowered` is `prompt` lowercased) is
/// left alone. Trailing dots and spaces give way to one full stop.
pub open spec fn rgba_text(prompt: Seq<char>, lowered: Seq<char>) -> Seq<char> {
    if has_infix(lowered, "rgba"@) || has_infix(lowered, "transparent background"@) {
        prompt
    } else {
        RGBA_LEAD@ + trim_end_set(prompt, seq!['.', ' ']) + "."@ + RGBA_TAIL@
    }
}

/// The RGBA phrasing is added exactly when the prompt does not already ask for alpha.
/// A prompt whose lowercase form mentions "rgba" or "transparent background" goes out
/// as written; every other prompt — one that merely says "transparent" included — goes
/// out wrapped: the lead sentence, the prompt without trailing dots and spaces, one full
/// stop, and the alpha-channel sentence.
pub proof fn law_rgba_phrasing_unless_asked(prompt: Seq<char>, lowered: Seq<char>)
    ensures
        has_infix(lowered, "rgba"@) ==> rgba_text(prompt, lowered) == prompt,
        has_infix(lowered, "transparent background"@) ==> rgba_text(prompt, lowered) == prompt,
        !has_infix(lowered, "rgba"@) && !has_infix(lowered, "transparent background"@) ==> {
            let s = rgba_text(prompt, lowered);
            let body = trim_end_set(prompt, seq!['.', ' ']);
            &&& has_prefix(s, "This is an RGBA image with transparency. "@)
            &&& has_suffix(s, " The image has alpha channel and          the background is transparent."@)
            &&& s == "This is an RGBA image with transparency. "@ + body + "."@
                + " The image has alpha channel and          the background is transparent."@
        },
{
    if !has_infix(lowered, "rgba"@) && !has_infix(lowered, "transparent background"@) {
        let lead = "This is an RGBA image with transparency. "@;
        let tail = " The image has alpha channel and          the background is transparent."@;
        let body = trim_end_set(prompt, seq!['.', ' ']);
        let s = rgba_text(prompt, lowered);
        assert(s == lead + body + "."@ + tail);
        assert(s.take(lead.len() as int) =~= lead);
        assert(s.skip(s.len() - tail.len()) =~= tail);
    }
}

/// The transparent-background prompt for `prompt`, given its lowercased form.
pub fn as_rgba_from(prompt: &str, lowered: &str) -> (s: String)
    ensures
        s@ == rgba_text(prompt@, lowered@),
{
    if contains_str(lowered, "rgba") || contains_str(lowered, "transparent background") {
        return prompt.to_owned();
    }
    let c = chars_of(prompt);
    let set: Vec<char> = vec!['.', ' '];
    assert(set@ =~= seq!['.', ' ']);
    let t = trim_end_in(c.as_slice(), set.as_slice());
    let mut s = String::new();
    push_str(&mut s, RGBA_LEAD);
    crate::text::push_chars(&mut s, t.as_slice());
    push_str(&mut s, ".");
    push_str(&mut s, RGBA_TAIL);
    assert(s@ =~= rgba_text(prompt@, lowered@));
    s
}

/// The transparent-background prompt for `prompt`.
pub fn as_rgba(prompt: &str) -> (s: String)
    ensures
        s@ == rgba_text(prompt@, lowercase_of(prompt@)),
{
    let lowered = lowercase(prompt);
    as_rgba_from(prompt, lowered.as_str())
}

/// The prompt sent to the engine: the RGBA phrasing when transparency was asked for.
pub open spec fn sent_prompt(prompt: Seq<char>, transparent: Option<bool>) -> Seq<char> {
    if transparent == Some(true) {
        rgba_text(prompt, lowercase_of(prompt))
    } else {
        prompt
    }
}

/// Whether a job may run now: only a Ready engine takes one; otherwise the caller is
/// told why not.
pub fn ready_check(status: &Status) -> (r: Result<(), String>)
    ensures
        status is Ready ==> r is Ok,
        status is Loading ==> (r matches Err(m) && m@ == "The engine is still loading. Try again in a moment."@),
        status matches Status::Error { message } ==> (r matches Err(m)
            && m@ == "The engine is in an error state: "@ + message@),
        (status is Off || status is Stopping) ==> (r matches Err(m)
            && m@ == "The engine is off. Open Qwen Image Studio and press Start."@),
{
    match status {
        Status::Ready => Ok(()),
        Status::Loading => Err("The engine is still loading. Try again in a moment.".to_owned()),
        Status::Error { message } => {
            let mut m = String::new();
            push_str(&mut m, "The engine is in an error state: ");
            push_str(&mut m, message.as_str());
            assert(m@ =~= "The engine is in an error state: "@ + message@);
            Err(m)
        },
        _ => Err("The engine is off. Open Qwen Image Studio and press Start.".to_owned()),
    }
}

/// A job ready for the engine, with what the panel shows while it runs.
pub struct JobPlan {
    pub request: GenRequest,
    /// The prompt as the user wrote it, for the gallery.
    pub prompt: String,
    /// The panel's busy line.
    pub busy: String,
    /// Expected seconds.
    pub eta: u64,
}

/// The job `qwen_generate` runs for `a`: sizes default to 1024 and are snapped, steps
/// default to 20 within 1..=60, the seed defaults to -1 (random), no references.
pub fn plan_generate(a: GenerateArgs) -> (p: JobPlan)
    ensures
        p.request.width == snap_spec(match a.width { Some(w) => w, None => 1024 }),
        p.request.height == snap_spec(match a.height { Some(h) => h, None => 1024 }),
        p.request.steps == steps_spec(a.steps),
        p.request.seed == match a.seed { Some(s) => s, None => -1i64 },
        p.request.negative@ == match a.negative_prompt { Some(n) => n@, None => Seq::<char>::empty() },
        p.request.prompt@ == sent_prompt(a.prompt@, a.transparent),
        p.request.refs@.len() == 0,
        p.prompt@ == a.prompt@,
        p.busy@ == "Generating "@ + decimal(p.request.width as nat) + "×"@ + decimal(p.request.height as nat),
        p.eta == eta_spec(p.request.width, p.request.height, p.request.steps),
{
    let w = snap(match a.width { Some(w) => w, None => 1024 });
    let h = snap(match a.height { Some(h) => h, None => 1024 });
    let steps = resolve_steps(a.steps);
    let sent = if a.transparent == Some(true) { as_rgba(a.prompt.as_str()) } else { a.prompt.clone() };
    let mut busy = String::new();
    push_str(&mut busy, "Generating ");
    push_decimal(&mut busy, w as u64);
    push_str(&mut busy, "×");
    push_decimal(&mut busy, h as u64);
    assert(busy@ =~= "Generating "@ + decimal(w as nat) + "×"@ + decimal(h as nat));
    let negative = match a.negative_prompt { Some(n) => n, None => String::new() };
    JobPlan {
        request: GenRequest {
            prompt: sent,
            negative,
            width: w,
            height: h,
            steps,
            seed: match a.seed { Some(s) => s, None => -1 },
            refs: Vec::new(),
        },
        prompt: a.prompt,
        busy,
        eta: eta_secs(w, h, steps),
    }
}

/// Where a reference image comes from.
#[derive(Clone, Debug)]
pub enum RefSource {
    /// A file to read and encode.
    File(String),
    /// Base64 already, as sent.
    Inline(String),
}

/// A reference is a path when it is short (under 1024 bytes, as `str::len` counts them) and holds a slash or a
/// backslash; otherwise it is base64, from which a data-URL prefix up to `;base64,` is cut.
pub open spec fn ref_source_spec(img: Seq<char>) -> (bool, Seq<char>) {
    if (encode_utf8(img).len() as usize) < 1024 && (img.contains('/') || img.contains('\\')) {
        (true, img)
    } else {
        match first_match(img, ";base64,"@) {
            Some(i) => (false, img.skip(i + 8)),
            None => (false, img),
        }
    }
}

/// A reference shorter than 1024 bytes that holds a `/` or `\\` is a file path, read
/// as written; one without either, or of 1024 bytes or more, is base64, whose text is
/// what follows the first `;base64,` (all of it when there is none).
pub proof fn law_short_paths_are_files(img: Seq<char>)
    ensures
        encode_utf8(img).len() < 1024 && (img.contains('/') || img.contains('\\')) ==> ref_source_spec(img) == (true, img),
        !img.contains('/') && !img.contains('\\') ==> !ref_source_spec(img).0,
        1024 <= encode_utf8(img).len() <= usize::MAX ==> !ref_source_spec(img).0,
        !ref_source_spec(img).0 && !has_infix(img, ";base64,"@) ==> ref_source_spec(img).1 == img,
        !ref_source_spec(img).0 && has_infix(img, ";base64,"@) ==> exists|i: int| {
            &&& 0 <= i
            &&& img == img.take(i) + ";base64,"@ + ref_source_spec(img).1
            &&& !has_infix(img.take(i), ";base64,"@)
        },
{
    if !ref_source_spec(img).0 && has_infix(img, ";base64,"@) {
        crate::text::lemma_first_match_bounds(img, ";base64,"@, 0);
        let i = first_match(img, ";base64,"@)->0;
        reveal_strlit(";base64,");
        assert(img =~= img.take(i) + img.subrange(i, i + 8) + img.skip(i + 8));
        crate::text::lemma_first_match_is_first(img, ";base64,"@, 0, i);
        crate::text::lemma_no_match_in_prefix(img, ";base64,"@, i, 0);
    }
}

/// How the reference `img` is read.
pub fn ref_source(img: &str) -> (r: RefSource)
    ensures
        ref_source_spec(img@).0 ==> (r matches RefSource::File(p) && p@ == ref_source_spec(img@).1),
        !ref_source_spec(img@).0 ==> (r matches RefSource::Inline(b) && b@ == ref_source_spec(img@).1),
{
    let c = chars_of(img);
    let has_sep = crate::text::in_set(c.as_slice(), '/') || crate::text::in_set(c.as_slice(), '\\');
    if img.len() < 1024 && has_sep {
        return RefSource::File(img.to_owned());
    }
    let marker = chars_of(";base64,");
    proof {
        reveal_strlit(";base64,");
        crate::text::lemma_first_match_bounds(img@, ";base64,"@, 0);
    }
    match crate::text::find_chars(c.as_slice(), marker.as_slice()) {
        Some(i) => {
            assert(crate::text::match_at(c@, marker@, i as int));
            assert(i + 8 <= c.len());
            let rest = slice_chars(c.as_slice(), i + 8, c.len());
            assert(rest@ =~= img@.skip(i + 8));
            RefSource::Inline(string_of(rest.as_slice()))
        },
        None => RefSource::Inline(img.to_owned()),
    }
}

/// An edit job, before the file references are read.
pub struct EditPlan {
    /// The references in order; the app reads and base64-encodes the files into
    /// `job.request.refs`.
    pub sources: Vec<RefSource>,
    pub job: JobPlan,
}

/// The job `qwen_edit` runs for `a`, or why it cannot: at least one and at most ten
/// references. Sizes, steps and seed default as for a generate, the negative prompt is
/// empty, and the estimate is 4.5 times a generate's (the vision encoder runs on the CPU).
pub fn plan_edit(a: EditArgs) -> (r: Result<EditPlan, String>)
    ensures
        a.images@.len() == 0 ==> (r matches Err(m) && m@ == "qwen_edit needs at least one reference image."@),
        a.images@.len() > MAX_REFS ==> (r matches Err(m) && m@ == "Qwen-Image-2.1 takes at most 10 reference images."@),
        1 <= a.images@.len() <= MAX_REFS ==> (r matches Ok(p) && {
            &&& p.sources@.len() == a.images@.len()
            &&& forall|i: int| 0 <= i < p.sources@.len() ==> {
                let (is_file, text) = ref_source_spec(a.images@[i]@);
                match #[trigger] p.sources@[i] {
                    RefSource::File(f) => is_file && f@ == text,
                    RefSource::Inline(b) => !is_file && b@ == text,
                }
            }
            &&& p.job.request.width == snap_spec(match a.width { Some(w) => w, None => 1024 })
            &&& p.job.request.height == snap_spec(match a.height { Some(h) => h, None => 1024 })
            &&& p.job.request.steps == steps_spec(a.steps)
            &&& p.job.request.seed == match a.seed { Some(s) => s, None => -1i64 }
            &&& p.job.request.negative@.len() == 0
            &&& p.job.request.prompt@ == sent_prompt(a.prompt@, a.transparent)
            &&& p.job.request.refs@.len() == 0
            &&& p.job.prompt@ == a.prompt@
            &&& p.job.busy@ == "Editing"@
            &&& p.job.eta == eta_spec(p.job.request.width, p.job.request.height, p.job.request.steps) * 9 / 2
        }),
{
    if a.images.len() == 0 {
        return Err("qwen_edit needs at least one reference image.".to_owned());
    }
    if a.images.len() > MAX_REFS {
        return Err("Qwen-Image-2.1 takes at most 10 reference images.".to_owned());
    }
    let mut sources: Vec<RefSource> = Vec::new();
    let mut i: usize = 0;
    while i < a.images.len()
        invariant
            i <= a.images@.len(),
            sources@.len() == i,
            forall|j: int| 0 <= j < i ==> {
                let (is_file, text) = ref_source_spec(a.images@[j]@);
                match #[trigger] sources@[j] {
                    RefSource::File(f) => is_file && f@ == text,
                    RefSource::Inline(b) => !is_file && b@ == text,
                }
            },
        decreases a.images@.len() - i,
    {
        sources.push(ref_source(a.images[i].as_str()));
        i = i + 1;
    }
    let w = snap(match a.width { Some(w) => w, None => 1024 });
    let h = snap(match a.height { Some(h) => h, None => 1024 });
    let steps = resolve_steps(a.steps);
    let sent = if a.transparent == Some(true) { as_rgba(a.prompt.as_str()) } else { a.prompt.clone() };
    let eta = eta_secs(w, h, steps);
    proof {
        lemma_eta_small(w, h, steps);
    }
    Ok(EditPlan {
        sources,
        job: JobPlan {
            request: GenRequest {
                prompt: sent,
                negative: String::new(),
                width: w,
                height: h,
                steps,
                seed: match a.seed { Some(s) => s, None => -1 },
                refs: Vec::new(),
            },
            prompt: a.prompt,
            busy: "Editing".to_owned(),
            eta: eta * 9 / 2,
        },
    })
}

/// What the engine receives for one reference: a file's bytes in standard base64, or
/// the inline text as it came.
pub open spec fn ref_payload(source: RefSource, bytes: Seq<u8>) -> Seq<char> {
    match source {
        RefSource::File(_) => base64_std(bytes),
        RefSource::Inline(b) => b@,
    }
}

/// The edit job with its references filled in. `files[i]` holds the bytes read for
/// `p.sources[i]` where that is a file; for inline references it is not looked at.
pub fn attach_refs(p: EditPlan, files: Vec<Vec<u8>>) -> (job: JobPlan)
    requires
        files@.len() == p.sources@.len(),
    ensures
        job.request.refs@.len() == p.sources@.len(),
        forall|i: int| 0 <= i < p.sources@.len() ==>
            (#[trigger] job.request.refs@[i])@ == ref_payload(p.sources@[i], files@[i]@),
        job.request.prompt == p.job.request.prompt,
        job.request.negative == p.job.request.negative,
        job.request.width == p.job.request.width,
        job.request.height == p.job.request.height,
        job.request.steps == p.job.request.steps,
        job.request.seed == p.job.request.seed,
        job.prompt == p.job.prompt,
        job.busy == p.job.busy,
        job.eta == p.job.eta,
{
    let EditPlan { sources, job } = p;
    let mut refs: Vec<String> = Vec::new();
    let mut i: usize = 0;
    while i < sources.len()
        invariant
            i <= sources@.len(),
            files@.len() == sources@.len(),
            refs@.len() == i,
            forall|j: int| 0 <= j < i ==> (#[trigger] refs@[j])@ == ref_payload(sources@[j], files@[j]@),
        decreases sources@.len() - i,
    {
        let r = match &sources[i] {
            RefSource::File(_) => base64_encode(files[i].as_slice()),
            RefSource::Inline(b) => b.clone(),
        };
        refs.push(r);
        i = i + 1;
    }
    JobPlan {
        request: GenRequest {
            prompt: job.request.prompt,
            negative: job.request.negative,
            width: job.request.width,
            height: job.request.height,
            steps: job.request.steps,
            seed: job.request.seed,
            refs,
        },
        prompt: job.prompt,
        busy: job.busy,
        eta: job.eta,
    }
}

/// A finished image as a tool hands it back: the PNG in standard base64 for the MCP
/// image block, and the gallery entry for the file it was saved to.
pub struct Delivery {
    pub image: String,
    pub item: GalleryItem,
}

/// What a tool returns for `png`, saved at `path`, made from `prompt` at `width` x
/// `height` at the clock time `at`.
pub fn delivered(png: &[u8], path: String, prompt: String, width: u32, height: u32, at: String) -> (d: Delivery)
    ensures
        d.image@ == base64_std(png@),
        d.item.path == path,
        d.item.prompt == prompt,
        d.item.width == width,
        d.item.height == height,
        d.item.at == at,
{
    Delivery {
        image: base64_encode(png),
        item: GalleryItem { path, prompt, width, height, at },
    }
}

/// Snapped sizes and clamped steps keep the estimate far from overflow.
proof fn lemma_eta_small(w: u32, h: u32, steps: u32)
    requires
        w <= 2048,
        h <= 2048,
        steps <= 60,
    ensures
        eta_spec(w, h, steps) <= 1000,
{
    let n = w as int * h as int * 56 * steps as int;
    assert(n <= 2048 * 2048 * 56 * 60) by (nonlinear_arith)
        requires n == w as int * h as int * 56 * steps as int, w <= 2048, h <= 2048, steps <= 60, 0 <= w, 0 <= h, 0 <= steps;
    let d: int = 20971520int;
    let r: int = (2 * n + d) / (2 * d);
    assert(r <= 1000) by (nonlinear_arith)
        requires r == (2 * n + d) / (2 * d), d == 20971520, 0 <= n <= 2048 * 2048 * 56 * 60;
}

} // verus!
