//! The install plan and the decisions of a resumable, checksum-verified download.
//! Network and disk work happen in the app; each decision it meets is a method here.
use crate::codec::{hasher_input, hex_lower, sha256_hex, sha256_new, sha256_of, sha256_update, Hasher};
use crate::config::{asset_table, assets, tier, tier_for, tier_table, Config};
use crate::state::{DlRow, DlState, RowChange};
use crate::text::{chars_of, decimal, has_prefix, join_with, joined, lowercase, slice_chars, starts_with_chars, lowercase_of, push_decimal, push_str, str_eq, string_of, trim_end_set, trim_in, trim_start_set};
use vstd::prelude::*;

verus! {

/// Connection attempts per file before it is marked failed.
pub const ATTEMPTS: u32 = 3;
/// No bytes for this many seconds counts as a stall.
pub const STALL_SECS: u64 = 30;

/// One file to fetch.
pub struct Item {
    pub id: String,
    pub name: String,
    pub url: String,
    pub dest: String,
    pub size: u64,
    pub unzip: bool,
}

/// Number of files an install fetches: the selected tier and every asset.
pub open spec fn plan_len() -> nat {
    1 + asset_table().len()
}

/// The id of the `i`-th file of the plan for `cfg`.
pub open spec fn entry_id(cfg: Config, i: int) -> Seq<char> {
    if i == 0 {
        tier_for(cfg.tier@).id@
    } else {
        asset_table()[i - 1].id@
    }
}

/// Where huggingface.co downloads come from when `endpoint` names a stand-in for it:
/// `https://huggingface.co/x` becomes `<endpoint>/x`. Other urls, and every url when no
/// endpoint is set, are fetched as listed.
pub open spec fn mirrored(url: Seq<char>, endpoint: Seq<char>) -> Seq<char> {
    if endpoint.len() > 0 && has_prefix(url, "https://huggingface.co/"@) {
        endpoint + url.skip(22)
    } else {
        url
    }
}

/// With a hub endpoint set, a huggingface.co download comes from the endpoint with the
/// same path; every other download, and every download when no endpoint is set, comes
/// from where it is listed.
pub proof fn law_hub_endpoint(path: Seq<char>, url: Seq<char>, endpoint: Seq<char>)
    ensures
        endpoint.len() > 0 ==> mirrored("https://huggingface.co/"@ + path, endpoint) == endpoint + "/"@ + path,
        endpoint.len() == 0 ==> mirrored(url, endpoint) == url,
        !has_prefix(url, "https://huggingface.co/"@) ==> mirrored(url, endpoint) == url,
{
    reveal_strlit("https://huggingface.co/");
    reveal_strlit("/");
    let u = "https://huggingface.co/"@ + path;
    assert(u.take(23) =~= "https://huggingface.co/"@);
    assert(u.skip(22) =~= "/"@ + path);
}

/// Three attempts per file, a stall after 30 s without bytes; what a stalled attempt's
/// row says, how long the app waits before the next one, and
/// what a change that finishes a file sets: the whole size fetched, done, no note.
pub proof fn law_row_notes(attempt: u32, c: RowChange, size: u64)
    ensures
        retry_note(attempt) == "stalled · retrying ("@ + decimal(attempt as nat) + "/3)"@,
        backoff_secs(attempt) == 3 * attempt,
        ATTEMPTS == 3,
        STALL_SECS == 30,
        is_done_change(c, size) <==> {
            &&& c.got == Some(size)
            &&& c.state == Some(DlState::Done)
            &&& c.note matches Some(n) && n@.len() == 0
        },
{
    reveal_with_fuel(decimal, 2);
    assert(decimal(3) =~= seq!['3']);
    reveal_strlit("/3)");
    reveal_strlit("/");
    reveal_strlit(")");
    assert("/"@ + seq!['3'] + ")"@ =~= "/3)"@);
    assert(retry_note(attempt) =~= "stalled · retrying ("@ + decimal(attempt as nat) + ("/"@ + decimal(3) + ")"@));
    if c.note is Some {
        assert(c.note->0@.len() == 0 ==> c.note->0@ =~= Seq::<char>::empty());
    }
}

/// The folder under the root that the `i`-th plan file goes to.
pub open spec fn entry_dir(i: int) -> Seq<char> {
    if i > 0 && asset_table()[i - 1].unzip { "bin"@ } else { "models"@ }
}

/// Where the `i`-th plan file of `cfg` lands, paths joined on the platform whose main
/// separator is `sep`.
pub open spec fn entry_dest(cfg: Config, i: int, sep: char) -> Seq<char> {
    let file = if i == 0 { tier_for(cfg.tier@).file@ } else { asset_table()[i - 1].file@ };
    joined(joined(cfg.root@, entry_dir(i), sep), file, sep)
}

/// `it` is the `i`-th file of the plan for `cfg`: first the selected tier's model into
/// `models/`, then each asset in table order, zips into `bin/` and the rest into `models/`.
pub open spec fn is_plan_entry(cfg: Config, i: int, it: Item, sep: char) -> bool {
    &&& it.dest@ == entry_dest(cfg, i, sep)
    &&& if i == 0 {
        let t = tier_for(cfg.tier@);
        &&& it.id@ == t.id@
        &&& it.name@ == "Model "@ + t.label@
        &&& it.url@ == mirrored(t.url@, cfg.hf_endpoint@)
        &&& it.size == t.size
        &&& !it.unzip
    } else {
        let a = asset_table()[i - 1];
        &&& it.id@ == a.id@
        &&& it.name@ == a.name@
        &&& it.url@ == mirrored(a.url@, cfg.hf_endpoint@)
        &&& it.size == a.size
        &&& it.unzip == a.unzip
    }
}

/// `v` is the whole plan for `cfg`, paths joined on the platform of `sep`.
pub open spec fn is_plan(cfg: Config, v: Seq<Item>, sep: char) -> bool {
    &&& v.len() == plan_len()
    &&& forall|i: int| 0 <= i < v.len() ==> is_plan_entry(cfg, i, #[trigger] v[i], sep)
}

/// The url to fetch for `url` with the hub endpoint `endpoint`.
pub fn mirror_url(url: &str, endpoint: &str) -> (r: String)
    ensures
        r@ == mirrored(url@, endpoint@),
{
    let u = chars_of(url);
    let e = chars_of(endpoint);
    let hub = chars_of("https://huggingface.co/");
    proof {
        reveal_strlit("https://huggingface.co/");
    }
    if e.len() > 0 && starts_with_chars(u.as_slice(), hub.as_slice()) {
        let rest = slice_chars(u.as_slice(), 22, u.len());
        assert(rest@ =~= url@.skip(22));
        let mut r = endpoint.to_owned();
        push_str(&mut r, string_of(rest.as_slice()).as_str());
        r
    } else {
        url.to_owned()
    }
}

/// The files an install of `cfg` fetches, in display order, with paths joined on the
/// platform whose main separator is `sep`.
pub fn plan(cfg: &Config, sep: char) -> (v: Vec<Item>)
    ensures
        is_plan(*cfg, v@, sep),
{
    let t = tier(cfg.tier.as_str());
    let m = cfg.models_dir(sep);
    let b = cfg.bin_dir(sep);
    let mut v: Vec<Item> = Vec::new();
    let first = Item {
        id: t.id.to_owned(),
        name: crate::text::concat_str("Model ", t.label),
        url: mirror_url(t.url, cfg.hf_endpoint.as_str()),
        dest: join_with(m.as_str(), t.file, sep),
        size: t.size,
        unzip: false,
    };
    assert(is_plan_entry(*cfg, 0, first, sep));
    v.push(first);
    let a = assets();
    let mut i: usize = 0;
    while i < a.len()
        invariant
            a@ == asset_table(),
            i <= a@.len(),
            v@.len() == i + 1,
            m@ == joined(cfg.root@, "models"@, sep),
            b@ == joined(cfg.root@, "bin"@, sep),
            forall|j: int| 0 <= j < v@.len() ==> is_plan_entry(*cfg, j, #[trigger] v@[j], sep),
        decreases a@.len() - i,
    {
        let x = a[i];
        let dir = if x.unzip { &b } else { &m };
        let it = Item {
            id: x.id.to_owned(),
            name: x.name.to_owned(),
            url: mirror_url(x.url, cfg.hf_endpoint.as_str()),
            dest: join_with(dir.as_str(), x.file, sep),
            size: x.size,
            unzip: x.unzip,
        };
        assert(asset_table()[(i + 1) - 1] == x);
        assert(dir@ == joined(cfg.root@, entry_dir(i + 1), sep));
        assert(is_plan_entry(*cfg, i + 1, it, sep));
        v.push(it);
        i = i + 1;
    }
    assert(is_plan(*cfg, v@, sep));
    v
}

/// The first index at or after `i` of a plan file whose id is `id`.
pub open spec fn entry_index_from(cfg: Config, id: Seq<char>, i: int) -> Option<int>
    decreases plan_len() - i,
{
    if i < 0 || i >= plan_len() {
        None
    } else if entry_id(cfg, i) == id {
        Some(i)
    } else {
        entry_index_from(cfg, id, i + 1)
    }
}

pub proof fn lemma_entry_index_from(cfg: Config, id: Seq<char>, i: int)
    ensures
        entry_index_from(cfg, id, i) matches Some(j) ==> 0 <= i <= j < plan_len() && entry_id(cfg, j) == id,
    decreases plan_len() - i,
{
    if 0 <= i < plan_len() && entry_id(cfg, i) != id {
        lemma_entry_index_from(cfg, id, i + 1);
    }
}

/// The files of a plan have distinct ids, whatever tier is selected.
pub proof fn lemma_plan_ids_distinct(cfg: Config, i: int, j: int)
    requires
        0 <= i < plan_len(),
        0 <= j < plan_len(),
        i != j,
    ensures
        entry_id(cfg, i) != entry_id(cfg, j),
{
    crate::config::lemma_tier_for_listed(cfg.tier@);
    lemma_id_signatures();
    let a = entry_id(cfg, i);
    let b = entry_id(cfg, j);
    if a == b {
        assert(a.len() == b.len() && a[0] == b[0] && a[1] == b[1]);
        if i > 0 && j > 0 {
            assert(false);
        } else {
            assert(false);
        }
    }
}

/// Length and first two characters of each id: enough to tell them all apart.
pub(crate) proof fn lemma_id_signatures()
    ensures
        forall|k: int| 0 <= k < tier_table().len() ==> {
            let id = #[trigger] tier_table()[k].id@;
            &&& id.len() == 4
            &&& id[0] == 'Q'
            &&& (k == 0 ==> id[1] == '6')
            &&& (k == 1 ==> id[1] == '4')
            &&& (k == 2 ==> id[1] == '8')
        },
        asset_table()[0].id@.len() == 12,
        asset_table()[1].id@.len() == 6 && asset_table()[1].id@[0] == 'v',
        asset_table()[2].id@.len() == 3,
        asset_table()[3].id@.len() == 6 && asset_table()[3].id@[0] == 'e',
        asset_table()[4].id@.len() == 6 && asset_table()[4].id@[0] == 'c',
{
    reveal_strlit("Q6_K");
    reveal_strlit("Q4_K");
    reveal_strlit("Q8_0");
    reveal_strlit("text_encoder");
    reveal_strlit("vision");
    reveal_strlit("vae");
    reveal_strlit("engine");
    reveal_strlit("cudart");
}

/// Retrying the row of the `i`-th file fetches that same file again: ids pick out
/// exactly one plan file.
pub proof fn law_retry_finds_its_file(cfg: Config, i: int)
    requires
        0 <= i < plan_len(),
    ensures
        entry_index_from(cfg, entry_id(cfg, i), 0) == Some(i),
{
    lemma_entry_index_from(cfg, entry_id(cfg, i), 0);
    assert forall|k: int| 0 <= k < i implies entry_id(cfg, k) != entry_id(cfg, i) by {
        lemma_plan_ids_distinct(cfg, k, i);
    }
    lemma_entry_index_walk(cfg, entry_id(cfg, i), 0, i);
}

proof fn lemma_entry_index_walk(cfg: Config, id: Seq<char>, k: int, i: int)
    requires
        0 <= k <= i < plan_len(),
        entry_id(cfg, i) == id,
        forall|m: int| k <= m < i ==> entry_id(cfg, m) != id,
    ensures
        entry_index_from(cfg, id, k) == Some(i),
    decreases i - k,
{
    if k < i {
        lemma_entry_index_walk(cfg, id, k + 1, i);
    }
}

/// The plan file whose id is `id`, for retrying that one download.
pub fn plan_item(cfg: &Config, id: &str, sep: char) -> (r: Option<Item>)
    ensures
        match entry_index_from(*cfg, id@, 0) {
            Some(i) => r matches Some(it) && is_plan_entry(*cfg, i, it, sep),
            None => r is None,
        },
{
    let mut v = plan(cfg, sep);
    proof {
        lemma_entry_index_from(*cfg, id@, 0);
    }
    let mut i: usize = 0;
    while i < v.len()
        invariant
            v@.len() == plan_len(),
            i <= v@.len(),
            forall|j: int| 0 <= j < v@.len() ==> is_plan_entry(*cfg, j, #[trigger] v@[j], sep),
            entry_index_from(*cfg, id@, 0) == entry_index_from(*cfg, id@, i as int),
        decreases v@.len() - i,
    {
        assert(is_plan_entry(*cfg, i as int, v@[i as int], sep));
        assert(v@[i as int].id@ == entry_id(*cfg, i as int));
        if str_eq(v[i].id.as_str(), id) {
            let it = v.remove(i);
            assert(entry_index_from(*cfg, id@, i as int) == Some(i as int));
            assert(is_plan_entry(*cfg, i as int, it, sep));
            return Some(it);
        }
        i = i + 1;
    }
    None
}

/// The rows an install starts with: one per file, nothing fetched yet.
pub fn pending_rows(items: &Vec<Item>) -> (rows: Vec<DlRow>)
    ensures
        rows@.len() == items@.len(),
        forall|i: int| 0 <= i < rows@.len() ==> {
            let r = #[trigger] rows@[i];
            &&& r.id@ == items@[i].id@
            &&& r.name@ == items@[i].name@
            &&& r.got == 0
            &&& r.total == items@[i].size
            &&& r.state == DlState::Pending
            &&& r.note@.len() == 0
        },
{
    let mut rows: Vec<DlRow> = Vec::new();
    let mut i: usize = 0;
    while i < items.len()
        invariant
            i <= items@.len(),
            rows@.len() == i,
            forall|j: int| 0 <= j < i ==> {
                let r = #[trigger] rows@[j];
                &&& r.id@ == items@[j].id@
                &&& r.name@ == items@[j].name@
                &&& r.got == 0
                &&& r.total == items@[j].size
                &&& r.state == DlState::Pending
                &&& r.note@.len() == 0
            },
        decreases items@.len() - i,
    {
        rows.push(DlRow {
            id: items[i].id.clone(),
            name: items[i].name.clone(),
            got: 0,
            total: items[i].size,
            state: DlState::Pending,
            note: String::new(),
        });
        i = i + 1;
    }
    rows
}

/// The sha256 Hugging Face publishes in its `x-linked-etag` header, as the download
/// check compares it: surrounding quotes removed, lowercased.
pub fn etag_sha(raw: &str) -> (s: String)
    ensures
        s@ == lowercase_of(trim_end_set(trim_start_set(raw@, seq!['"']), seq!['"'])),
{
    let c = chars_of(raw);
    let q: Vec<char> = vec!['"'];
    assert(q@ =~= seq!['"']);
    let t = trim_in(c.as_slice(), q.as_slice());
    let ts = string_of(t.as_slice());
    lowercase(ts.as_str())
}

/// The running SHA-256 of a downloaded file, fed chunk by chunk as the app reads it.
pub struct Checksum {
    h: Hasher,
}

impl Checksum {
    /// The bytes fed so far.
    pub closed spec fn fed(&self) -> Seq<u8> {
        hasher_input(self.h)
    }

    pub fn new() -> (c: Checksum)
        ensures
            c.fed() == Seq::<u8>::empty(),
    {
        Checksum { h: sha256_new() }
    }

    /// Feeds the next bytes of the file.
    pub fn feed(&mut self, data: &[u8])
        ensures
            final(self).fed() == old(self).fed() + data@,
    {
        sha256_update(&mut self.h, data);
    }

    /// The lowercase hex digest of everything fed, as `etag_sha` gives the published one.
    pub fn hex(self) -> (s: String)
        ensures
            s@ == hex_lower(sha256_of(self.fed())),
    {
        sha256_hex(self.h)
    }
}

/// Whether the computed checksum is the published one.
pub fn checksum_matches(got: &str, want: &str) -> (b: bool)
    ensures
        b == (got@ == want@),
{
    str_eq(got, want)
}

/// Where a download stands between two events.
#[derive(Clone, Copy, Debug, PartialEq, Eq, Structural)]
pub enum FetchPhase {
    /// Before a request is sent, or waiting to send the next one.
    Connecting,
    /// Bytes are arriving.
    Streaming,
    /// The whole file is on disk; its checksum is being computed.
    Verifying,
    /// The checksum (if any) matched; the zip is being unpacked.
    Unpacking,
    /// Nothing more happens for this file.
    Finished,
}

/// What the app does next after a download event.
#[derive(Clone, Copy, Debug, PartialEq, Eq, Structural)]
pub enum FetchNext {
    /// Go round to the next attempt (after `next_attempt`), without waiting.
    Retry,
    /// Hash the file and report with `checksum`.
    Verify,
    /// Unpack the zip, delete it, and report with `unpacked`.
    Unpack,
    /// Done: the file is complete.
    Finish,
    /// Delete the file; the download failed.
    DiscardAndFail,
}

/// The state of one file's download.
pub struct Fetch {
    pub size: u64,
    pub unzip: bool,
    /// Whether the server published a checksum for the file.
    pub sha_known: bool,
    /// The current attempt, from 1 to `ATTEMPTS`.
    pub attempt: u32,
    /// Bytes of the file on disk.
    pub got: u64,
    pub phase: FetchPhase,
}

/// `c` sets exactly the given fields.
pub open spec fn change_is(c: RowChange, got: Option<u64>, state: Option<DlState>, note: Option<Seq<char>>) -> bool {
    &&& c.got == got
    &&& c.state == state
    &&& match (c.note, note) {
        (Some(a), Some(b)) => a@ == b,
        (None, None) => true,
        _ => false,
    }
}

/// The row change that marks a file complete.
pub open spec fn is_done_change(c: RowChange, size: u64) -> bool {
    change_is(c, Some(size), Some(DlState::Done), Some(Seq::empty()))
}

/// The note a stalled attempt shows: `stalled · retrying (2/3)`.
pub open spec fn retry_note(attempt: u32) -> Seq<char> {
    "stalled · retrying ("@ + decimal(attempt as nat) + "/"@ + decimal(ATTEMPTS as nat) + ")"@
}

/// Seconds to wait after a stall on `attempt`.
pub open spec fn backoff_secs(attempt: u32) -> u64 {
    (3 * attempt) as u64
}

fn note_change(state: DlState, note: &str) -> (c: RowChange)
    ensures
        change_is(c, None, Some(state), Some(note@)),
{
    RowChange { got: None, state: Some(state), note: Some(note.to_owned()) }
}

fn retry_change(attempt: u32) -> (c: RowChange)
    ensures
        change_is(c, None, Some(DlState::Stalled), Some(retry_note(attempt))),
{
    let mut n = String::new();
    push_str(&mut n, "stalled · retrying (");
    push_decimal(&mut n, attempt as u64);
    push_str(&mut n, "/");
    push_decimal(&mut n, ATTEMPTS as u64);
    push_str(&mut n, ")");
    assert(n@ =~= retry_note(attempt));
    RowChange { got: None, state: Some(DlState::Stalled), note: Some(n) }
}

fn done_change(size: u64) -> (c: RowChange)
    ensures
        is_done_change(c, size),
{
    RowChange { got: Some(size), state: Some(DlState::Done), note: Some(String::new()) }
}

/// A file already on disk at its full size needs no download: the change that marks it
/// done, or `None` when it has to be fetched.
pub fn already_complete(size: u64, on_disk: Option<u64>) -> (r: Option<RowChange>)
    ensures
        r is Some <==> on_disk == Some(size),
        r matches Some(c) ==> is_done_change(c, size),
{
    match on_disk {
        Some(n) if n == size => Some(done_change(size)),
        _ => None,
    }
}

/// A partial file longer than the whole is wrong and is deleted before resuming.
pub fn oversized(have: u64, size: u64) -> (b: bool)
    ensures
        b == (have > size),
{
    have > size
}

/// The `Range` header that resumes from byte `have`: none when starting from zero.
pub fn range_header(have: u64) -> (r: Option<String>)
    ensures
        have == 0 ==> r is None,
        have > 0 ==> (r matches Some(h) && h@ == "bytes="@ + decimal(have as nat) + "-"@),
{
    if have > 0 {
        let mut h = String::new();
        push_str(&mut h, "bytes=");
        push_decimal(&mut h, have);
        push_str(&mut h, "-");
        assert(h@ =~= "bytes="@ + decimal(have as nat) + "-"@);
        Some(h)
    } else {
        None
    }
}

/// The download after a stall, and whether it gives up: the next attempt while fewer
/// than `ATTEMPTS` were made, otherwise finished.
pub open spec fn next_attempt_spec(f: Fetch) -> (Fetch, bool) {
    if f.attempt < ATTEMPTS {
        (Fetch { attempt: (f.attempt + 1) as u32, ..f }, false)
    } else {
        (Fetch { phase: FetchPhase::Finished, ..f }, true)
    }
}

/// A fresh download that keeps stalling is retried with waits of 3 s and 6 s, and gives
/// up on its third stall — never a fourth connection.
pub proof fn law_three_attempts(size: u64, unzip: bool, sha_known: bool)
    ensures
        ({
            let f1 = Fetch { size, unzip, sha_known, attempt: 1, got: 0, phase: FetchPhase::Connecting };
            let (f2, g1) = next_attempt_spec(f1);
            let (f3, g2) = next_attempt_spec(f2);
            let (f4, g3) = next_attempt_spec(f3);
            &&& !g1 && f2.attempt == 2
            &&& !g2 && f3.attempt == 3
            &&& g3 && f4.phase == FetchPhase::Finished
            &&& backoff_secs(f1.attempt) == 3
            &&& backoff_secs(f2.attempt) == 6
            &&& backoff_secs(f3.attempt) == 9
        }),
{
}

/// Whatever happens, the attempt counter stays within 1..=ATTEMPTS.
pub proof fn law_attempts_bounded(f: Fetch)
    requires
        f.wf(),
    ensures
        next_attempt_spec(f).0.wf(),
        next_attempt_spec(f).1 <==> f.attempt == ATTEMPTS,
{
}

impl Fetch {
    pub open spec fn wf(&self) -> bool {
        1 <= self.attempt <= ATTEMPTS
    }

    /// A download of a file of `size` bytes, on its first attempt.
    pub fn new(size: u64, unzip: bool, sha_known: bool) -> (f: Fetch)
        ensures
            f.wf(),
            f.size == size,
            f.unzip == unzip,
            f.sha_known == sha_known,
            f.attempt == 1,
            f.got == 0,
            f.phase == FetchPhase::Connecting,
    {
        Fetch { size, unzip, sha_known, attempt: 1, got: 0, phase: FetchPhase::Connecting }
    }

    /// An attempt starts with `have` bytes on disk: the row shows them and "connecting",
    /// and the request asks for the rest.
    pub fn begin_attempt(&mut self, have: u64) -> (r: (RowChange, Option<String>))
        requires
            old(self).wf(),
            old(self).phase == FetchPhase::Connecting,
        ensures
            final(self).wf(),
            *final(self) == (Fetch { got: have, ..*old(self) }),
            change_is(r.0, Some(have), Some(DlState::Connecting), Some(Seq::empty())),
            have == 0 ==> r.1 is None,
            have > 0 ==> (r.1 matches Some(h) && h@ == "bytes="@ + decimal(have as nat) + "-"@),
    {
        self.got = have;
        (RowChange { got: Some(have), state: Some(DlState::Connecting), note: Some(String::new()) }, range_header(have))
    }

    /// The request could not be sent: the row shows the stall, and the app waits
    /// `3 × attempt` seconds before `next_attempt`.
    pub fn send_failed(&mut self) -> (r: (RowChange, u64))
        requires
            old(self).wf(),
            old(self).phase == FetchPhase::Connecting,
        ensures
            *final(self) == *old(self),
            change_is(r.0, None, Some(DlState::Stalled), Some(retry_note(old(self).attempt))),
            r.1 == backoff_secs(old(self).attempt),
    {
        (retry_change(self.attempt), 3 * self.attempt as u64)
    }

    /// The server answered with a non-success status: the file fails for good.
    pub fn bad_status(&mut self, code: u16) -> (r: (RowChange, String))
        requires
            old(self).wf(),
            old(self).phase == FetchPhase::Connecting,
        ensures
            *final(self) == (Fetch { phase: FetchPhase::Finished, ..*old(self) }),
            change_is(r.0, None, Some(DlState::Failed), Some("failed · server error "@ + decimal(code as nat))),
            r.1@ == "server error "@ + decimal(code as nat),
    {
        self.phase = FetchPhase::Finished;
        let mut n = String::new();
        push_str(&mut n, "failed · server error ");
        push_decimal(&mut n, code as u64);
        let mut e = String::new();
        push_str(&mut e, "server error ");
        push_decimal(&mut e, code as u64);
        assert(n@ =~= "failed · server error "@ + decimal(code as nat));
        assert(e@ =~= "server error "@ + decimal(code as nat));
        (RowChange { got: None, state: Some(DlState::Failed), note: Some(n) }, e)
    }

    /// The response is open and bytes begin to arrive.
    pub fn streaming(&mut self) -> (c: RowChange)
        requires
            old(self).wf(),
            old(self).phase == FetchPhase::Connecting,
        ensures
            *final(self) == (Fetch { phase: FetchPhase::Streaming, ..*old(self) }),
            change_is(c, None, Some(DlState::Downloading), None),
    {
        self.phase = FetchPhase::Streaming;
        RowChange { got: None, state: Some(DlState::Downloading), note: None }
    }

    /// `len` more bytes were written to the file.
    pub fn chunk(&mut self, len: u64) -> (c: RowChange)
        requires
            old(self).wf(),
            old(self).phase == FetchPhase::Streaming,
            old(self).got + len <= u64::MAX,
        ensures
            *final(self) == (Fetch { got: (old(self).got + len) as u64, ..*old(self) }),
            change_is(c, Some((old(self).got + len) as u64), None, None),
    {
        self.got = self.got + len;
        RowChange { got: Some(self.got), state: None, note: None }
    }

    /// Writing to the file failed because the disk is full: the file fails, and the
    /// row says why.
    pub fn disk_full(&mut self) -> (r: (RowChange, String))
        requires
            old(self).wf(),
            old(self).phase == FetchPhase::Streaming,
        ensures
            *final(self) == (Fetch { phase: FetchPhase::Finished, ..*old(self) }),
            change_is(r.0, None, Some(DlState::Failed), Some("failed · not enough disk space"@)),
            r.1@ == "not enough disk space"@,
    {
        self.phase = FetchPhase::Finished;
        (note_change(DlState::Failed, "failed · not enough disk space"), "not enough disk space".to_owned())
    }

    /// The user paused the install: the file stays as it is, to be resumed later.
    pub fn pause(&mut self) -> (c: RowChange)
        requires
            old(self).wf(),
            old(self).phase == FetchPhase::Streaming,
        ensures
            *final(self) == (Fetch { phase: FetchPhase::Finished, ..*old(self) }),
            change_is(c, None, Some(DlState::Paused), Some("paused"@)),
    {
        self.phase = FetchPhase::Finished;
        note_change(DlState::Paused, "paused")
    }

    /// No bytes for `STALL_SECS`, or the stream broke: the row shows the stall, and the
    /// app waits `3 × attempt` seconds before `next_attempt`.
    pub fn stream_stalled(&mut self) -> (r: (RowChange, u64))
        requires
            old(self).wf(),
            old(self).phase == FetchPhase::Streaming,
        ensures
            *final(self) == (Fetch { phase: FetchPhase::Connecting, ..*old(self) }),
            change_is(r.0, None, Some(DlState::Stalled), Some(retry_note(old(self).attempt))),
            r.1 == backoff_secs(old(self).attempt),
    {
        self.phase = FetchPhase::Connecting;
        (retry_change(self.attempt), 3 * self.attempt as u64)
    }

    /// The stream ended and the file holds `on_disk` bytes. A short file is retried at
    /// once; a whole one is verified when a checksum is known, then unpacked when it is a
    /// zip, and otherwise done.
    pub fn stream_ended(&mut self, on_disk: u64) -> (r: (RowChange, FetchNext))
        requires
            old(self).wf(),
            old(self).phase == FetchPhase::Streaming,
        ensures
            final(self).wf(),
            on_disk != old(self).size ==> {
                &&& *final(self) == (Fetch { phase: FetchPhase::Connecting, ..*old(self) })
                &&& change_is(r.0, None, Some(DlState::Stalled), Some("stalled · retrying"@))
                &&& r.1 == FetchNext::Retry
            },
            on_disk == old(self).size && old(self).sha_known ==> {
                &&& *final(self) == (Fetch { phase: FetchPhase::Verifying, ..*old(self) })
                &&& change_is(r.0, None, Some(DlState::Verifying), Some("verifying"@))
                &&& r.1 == FetchNext::Verify
            },
            on_disk == old(self).size && !old(self).sha_known && old(self).unzip ==> {
                &&& *final(self) == (Fetch { phase: FetchPhase::Unpacking, ..*old(self) })
                &&& change_is(r.0, None, Some(DlState::Unpacking), Some("unpacking"@))
                &&& r.1 == FetchNext::Unpack
            },
            on_disk == old(self).size && !old(self).sha_known && !old(self).unzip ==> {
                &&& *final(self) == (Fetch { phase: FetchPhase::Finished, got: old(self).size, ..*old(self) })
                &&& is_done_change(r.0, old(self).size)
                &&& r.1 == FetchNext::Finish
            },
    {
        if on_disk != self.size {
            self.phase = FetchPhase::Connecting;
            (note_change(DlState::Stalled, "stalled · retrying"), FetchNext::Retry)
        } else if self.sha_known {
            self.phase = FetchPhase::Verifying;
            (note_change(DlState::Verifying, "verifying"), FetchNext::Verify)
        } else if self.unzip {
            self.phase = FetchPhase::Unpacking;
            (note_change(DlState::Unpacking, "unpacking"), FetchNext::Unpack)
        } else {
            self.phase = FetchPhase::Finished;
            self.got = self.size;
            (done_change(self.size), FetchNext::Finish)
        }
    }

    /// The checksum was computed: a mismatch means the bytes are wrong, not incomplete,
    /// so the file is deleted and the download fails from zero; a match goes on.
    pub fn checksum(&mut self, matches: bool) -> (r: (RowChange, FetchNext))
        requires
            old(self).wf(),
            old(self).phase == FetchPhase::Verifying,
        ensures
            final(self).wf(),
            !matches ==> {
                &&& *final(self) == (Fetch { phase: FetchPhase::Finished, got: 0, ..*old(self) })
                &&& change_is(r.0, Some(0), Some(DlState::Failed), Some("failed · checksum didn't match"@))
                &&& r.1 == FetchNext::DiscardAndFail
            },
            matches && old(self).unzip ==> {
                &&& *final(self) == (Fetch { phase: FetchPhase::Unpacking, ..*old(self) })
                &&& change_is(r.0, None, Some(DlState::Unpacking), Some("unpacking"@))
                &&& r.1 == FetchNext::Unpack
            },
            matches && !old(self).unzip ==> {
                &&& *final(self) == (Fetch { phase: FetchPhase::Finished, got: old(self).size, ..*old(self) })
                &&& is_done_change(r.0, old(self).size)
                &&& r.1 == FetchNext::Finish
            },
    {
        if !matches {
            self.phase = FetchPhase::Finished;
            self.got = 0;
            (RowChange { got: Some(0), state: Some(DlState::Failed), note: Some("failed · checksum didn't match".to_owned()) }, FetchNext::DiscardAndFail)
        } else if self.unzip {
            self.phase = FetchPhase::Unpacking;
            (note_change(DlState::Unpacking, "unpacking"), FetchNext::Unpack)
        } else {
            self.phase = FetchPhase::Finished;
            self.got = self.size;
            (done_change(self.size), FetchNext::Finish)
        }
    }

    /// The zip was unpacked and deleted: the file is done.
    pub fn unpacked(&mut self) -> (c: RowChange)
        requires
            old(self).wf(),
            old(self).phase == FetchPhase::Unpacking,
        ensures
            *final(self) == (Fetch { phase: FetchPhase::Finished, got: old(self).size, ..*old(self) }),
            is_done_change(c, old(self).size),
    {
        self.phase = FetchPhase::Finished;
        self.got = self.size;
        done_change(self.size)
    }

    /// After a stall: `None` to go on with the next attempt, or, when all `ATTEMPTS` are
    /// spent, the change that marks the file failed and the error to report.
    pub fn next_attempt(&mut self) -> (r: Option<(RowChange, String)>)
        requires
            old(self).wf(),
            old(self).phase == FetchPhase::Connecting,
        ensures
            final(self).wf(),
            *final(self) == next_attempt_spec(*old(self)).0,
            r is Some <==> next_attempt_spec(*old(self)).1,
            old(self).attempt < ATTEMPTS ==> r is None
                && *final(self) == (Fetch { attempt: (old(self).attempt + 1) as u32, ..*old(self) }),
            old(self).attempt == ATTEMPTS ==> (r matches Some(p) && {
                &&& *final(self) == (Fetch { phase: FetchPhase::Finished, ..*old(self) })
                &&& change_is(p.0, None, Some(DlState::Failed),
                    Some("failed · stalled "@ + decimal(ATTEMPTS as nat) + " times"@))
                &&& p.1@ == "gave up after "@ + decimal(ATTEMPTS as nat) + " attempts"@
            }),
    {
        if self.attempt < ATTEMPTS {
            self.attempt = self.attempt + 1;
            None
        } else {
            self.phase = FetchPhase::Finished;
            let mut n = String::new();
            push_str(&mut n, "failed · stalled ");
            push_decimal(&mut n, ATTEMPTS as u64);
            push_str(&mut n, " times");
            let mut e = String::new();
            push_str(&mut e, "gave up after ");
            push_decimal(&mut e, ATTEMPTS as u64);
            push_str(&mut e, " attempts");
            assert(n@ =~= "failed · stalled "@ + decimal(ATTEMPTS as nat) + " times"@);
            assert(e@ =~= "gave up after "@ + decimal(ATTEMPTS as nat) + " attempts"@);
            Some((RowChange { got: None, state: Some(DlState::Failed), note: Some(n) }, e))
        }
    }
}

} // verus!
