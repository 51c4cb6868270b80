//! What the panel shows: download rows, the gallery, tier cells, and the snapshot
//! that is sent to the window.
use crate::config::{asset_table, assets, install_size, sizes_total, tier, tier_for, tier_slot, tier_table, tiers, Config, Tier, MCP_PORT};
use crate::engine::{Engine, Status};
use crate::text::{decimal, push_decimal, push_str, str_eq};
use crate::tunnel::Tunnel;
use vstd::prelude::*;

verus! {

#[derive(Clone, Copy, Debug, PartialEq, Eq, Structural)]
pub enum DlState {
    Pending,
    Connecting,
    Downloading,
    Stalled,
    Verifying,
    Unpacking,
    Done,
    Paused,
    Failed,
}

#[derive(Clone, Debug)]
pub struct DlRow {
    pub id: String,
    pub name: String,
    pub got: u64,
    pub total: u64,
    pub state: DlState,
    pub note: String,
}

/// A change to one download row: each field that is `Some` is overwritten.
#[derive(Clone, Debug)]
pub struct RowChange {
    pub got: Option<u64>,
    pub state: Option<DlState>,
    pub note: Option<String>,
}

/// `r` after `c` was applied to it.
pub open spec fn changed(r: DlRow, c: RowChange) -> DlRow {
    DlRow {
        id: r.id,
        name: r.name,
        got: match c.got { Some(g) => g, None => r.got },
        total: r.total,
        state: match c.state { Some(s) => s, None => r.state },
        note: match c.note { Some(n) => n, None => r.note },
    }
}

/// The first index at or after `i` of a row whose id is `id`.
pub open spec fn row_index_from(rows: Seq<DlRow>, id: Seq<char>, i: int) -> Option<int>
    decreases rows.len() - i,
{
    if i < 0 || i >= rows.len() {
        None
    } else if rows[i].id@ == id {
        Some(i)
    } else {
        row_index_from(rows, id, i + 1)
    }
}

pub proof fn lemma_row_index_from(rows: Seq<DlRow>, id: Seq<char>, i: int)
    ensures
        row_index_from(rows, id, i) matches Some(j) ==> 0 <= i <= j < rows.len() && rows[j].id@ == id,
    decreases rows.len() - i,
{
    if 0 <= i < rows.len() && rows[i].id@ != id {
        lemma_row_index_from(rows, id, i + 1);
    }
}

/// The rows after `c` was applied to the first row whose id is `id`.
pub open spec fn rows_changed(rows: Seq<DlRow>, id: Seq<char>, c: RowChange) -> Seq<DlRow> {
    match row_index_from(rows, id, 0) {
        Some(i) => rows.update(i, changed(rows[i], c)),
        None => rows,
    }
}

/// The rows after each change of `cs`, in order, was applied to the row `id`.
pub open spec fn rows_after(rows: Seq<DlRow>, id: Seq<char>, cs: Seq<RowChange>) -> Seq<DlRow>
    decreases cs.len(),
{
    if cs.len() == 0 {
        rows
    } else {
        rows_changed(rows_after(rows, id, cs.drop_last()), id, cs.last())
    }
}

/// However many changes one download makes to its row, the list keeps its length and
/// order, no row's id, name or size changes, and every other file's row is untouched.
pub proof fn law_changes_touch_only_their_row(rows: Seq<DlRow>, id: Seq<char>, cs: Seq<RowChange>)
    ensures
        rows_after(rows, id, cs).len() == rows.len(),
        forall|j: int| 0 <= j < rows.len() ==> {
            let r = #[trigger] rows_after(rows, id, cs)[j];
            &&& r.id == rows[j].id
            &&& r.name == rows[j].name
            &&& r.total == rows[j].total
            &&& (rows[j].id@ != id ==> r == rows[j])
        },
    decreases cs.len(),
{
    if cs.len() > 0 {
        law_changes_touch_only_their_row(rows, id, cs.drop_last());
        let before = rows_after(rows, id, cs.drop_last());
        lemma_row_index_from(before, id, 0);
        assert forall|j: int| 0 <= j < rows.len() implies {
            let r = #[trigger] rows_after(rows, id, cs)[j];
            &&& r.id == rows[j].id
            &&& r.name == rows[j].name
            &&& r.total == rows[j].total
            &&& (rows[j].id@ != id ==> r == rows[j])
        } by {
            assert(before[j].id == rows[j].id);
        }
    }
}

/// A change lands on the first row with its id: each field it carries replaces that
/// row's, the others stay; a change for an id no row has does nothing.
pub proof fn law_change_lands_on_its_row(rows: Seq<DlRow>, id: Seq<char>, c: RowChange)
    ensures
        (forall|j: int| 0 <= j < rows.len() ==> #[trigger] rows[j].id@ != id) ==> rows_changed(rows, id, c) == rows,
        forall|i: int| 0 <= i < rows.len() && #[trigger] rows[i].id@ == id
            && (forall|j: int| 0 <= j < i ==> rows[j].id@ != id) ==> {
            let r = rows_changed(rows, id, c)[i];
            &&& r.got == (if c.got is Some { c.got->0 } else { rows[i].got })
            &&& r.state == (if c.state is Some { c.state->0 } else { rows[i].state })
            &&& r.note == (if c.note is Some { c.note->0 } else { rows[i].note })
            &&& r.id == rows[i].id
            &&& r.name == rows[i].name
            &&& r.total == rows[i].total
        },
{
    lemma_row_index_from(rows, id, 0);
    assert forall|i: int| 0 <= i < rows.len() && #[trigger] rows[i].id@ == id
        && (forall|j: int| 0 <= j < i ==> rows[j].id@ != id) implies row_index_from(rows, id, 0) == Some(i) by {
        lemma_row_index_walk(rows, id, 0, i);
    }
}

proof fn lemma_row_index_walk(rows: Seq<DlRow>, id: Seq<char>, k: int, i: int)
    requires
        0 <= k <= i < rows.len(),
        rows[i].id@ == id,
        forall|j: int| 0 <= j < i ==> rows[j].id@ != id,
    ensures
        row_index_from(rows, id, k) == Some(i),
    decreases i - k,
{
    if k < i {
        lemma_row_index_walk(rows, id, k + 1, i);
    }
}

/// The index of the first row whose id is `id`.
pub fn row_index(rows: &Vec<DlRow>, id: &str) -> (r: Option<usize>)
    ensures
        r matches Some(i) ==> row_index_from(rows@, id@, 0) == Some(i as int),
        r is None ==> row_index_from(rows@, id@, 0) is None,
{
    let mut i: usize = 0;
    while i < rows.len()
        invariant
            i <= rows@.len(),
            row_index_from(rows@, id@, 0) == row_index_from(rows@, id@, i as int),
        decreases rows@.len() - i,
    {
        if str_eq(rows[i].id.as_str(), id) {
            return Some(i);
        }
        i = i + 1;
    }
    None
}

/// Applies `c` to the first row whose id is `id`; does nothing when there is none.
pub fn apply_change(rows: &mut Vec<DlRow>, id: &str, c: &RowChange)
    ensures
        final(rows)@ == rows_changed(old(rows)@, id@, *c),
{
    proof {
        lemma_row_index_from(old(rows)@, id@, 0);
    }
    match row_index(rows, id) {
        Some(i) => {
            let r = DlRow {
                id: rows[i].id.clone(),
                name: rows[i].name.clone(),
                got: match c.got { Some(g) => g, None => rows[i].got },
                total: rows[i].total,
                state: match c.state { Some(s) => s, None => rows[i].state },
                note: match &c.note { Some(n) => n.clone(), None => rows[i].note.clone() },
            };
            rows.set(i, r);
        },
        None => {},
    }
}

#[derive(Clone, Debug)]
pub struct GalleryItem {
    pub path: String,
    pub prompt: String,
    pub width: u32,
    pub height: u32,
    pub at: String,
}

/// How many recent images the panel keeps.
pub const GALLERY_SIZE: usize = 8;

/// The gallery after `item` arrived: newest first, the oldest beyond eight dropped.
pub open spec fn gallery_after(g: Seq<GalleryItem>, item: GalleryItem) -> Seq<GalleryItem> {
    let s = seq![item] + g;
    if s.len() > GALLERY_SIZE { s.take(GALLERY_SIZE as int) } else { s }
}

/// Puts a new image first in the gallery, keeping the latest eight.
pub fn push_gallery(gallery: &mut Vec<GalleryItem>, item: GalleryItem)
    ensures
        final(gallery)@ == gallery_after(old(gallery)@, item),
{
    gallery.insert(0, item);
    gallery.truncate(GALLERY_SIZE);
    assert(final(gallery)@ =~= gallery_after(old(gallery)@, item));
}

/// However many images arrive, the gallery holds at most eight, the newest first, and
/// each earlier one moves one place back.
pub proof fn law_gallery_newest_first(g: Seq<GalleryItem>, item: GalleryItem)
    requires
        g.len() <= GALLERY_SIZE,
    ensures
        GALLERY_SIZE == 8,
        gallery_after(g, item).len() <= GALLERY_SIZE,
        gallery_after(g, item).len() == if g.len() < GALLERY_SIZE { g.len() + 1 } else { GALLERY_SIZE as nat },
        gallery_after(g, item)[0] == item,
        forall|i: int| 1 <= i < gallery_after(g, item).len() ==> #[trigger] gallery_after(g, item)[i] == g[i - 1],
{
}

/// One cell of the tier selector.
#[derive(Clone, Copy, Debug)]
pub struct TierView {
    pub id: &'static str,
    pub label: &'static str,
    pub size: u64,
    pub desc: &'static str,
    pub fits: bool,
    pub on_disk: bool,
}

/// What the app found on disk, as plain values.
pub struct DiskProbe {
    /// Length of each asset's file where the plan puts it (zips in `bin/`, the rest in
    /// `models/`), in asset-table order; `None` when there is no such file.
    pub asset_len: Vec<Option<u64>>,
    /// Length of each tier's model file in `models/`, in tier-table order.
    pub tier_len: Vec<Option<u64>>,
    /// Whether `bin/sd-server.exe` exists.
    pub engine_present: bool,
}

impl DiskProbe {
    pub open spec fn wf(&self) -> bool {
        &&& self.asset_len@.len() == asset_table().len()
        &&& self.tier_len@.len() == tier_table().len()
    }
}

/// The `i`-th asset is installed: for a zip, the engine binary it unpacks to exists (the
/// zip itself is deleted after unpacking); otherwise its file has the full size.
pub open spec fn asset_present(p: DiskProbe, i: int) -> bool {
    if asset_table()[i].unzip {
        p.engine_present
    } else {
        p.asset_len@[i] == Some(asset_table()[i].size)
    }
}

/// The ids of the first `n` assets that are not installed, in table order.
pub open spec fn missing_assets(p: DiskProbe, n: int) -> Seq<Seq<char>>
    decreases n,
{
    if n <= 0 {
        Seq::empty()
    } else if asset_present(p, n - 1) {
        missing_assets(p, n - 1)
    } else {
        missing_assets(p, n - 1).push(asset_table()[n - 1].id@)
    }
}

/// The ids of what an install still has to fetch: each missing asset, then the
/// selected tier when its model file is not complete.
pub open spec fn missing_spec(p: DiskProbe, tier_id: Seq<char>) -> Seq<Seq<char>> {
    let t = tier_for(tier_id);
    let k = choose|k: int| 0 <= k < tier_table().len() && tier_table()[k] == t;
    if p.tier_len@[k] == Some(t.size) {
        missing_assets(p, asset_table().len() as int)
    } else {
        missing_assets(p, asset_table().len() as int).push(t.id@)
    }
}

proof fn lemma_tier_slot_unique(k: int, j: int)
    requires
        0 <= k < tier_table().len(),
        0 <= j < tier_table().len(),
        tier_table()[k] == tier_table()[j],
    ensures
        k == j,
{
    reveal_strlit("Q6_K");
    reveal_strlit("Q4_K");
    reveal_strlit("Q8_0");
    if k != j {
        assert(tier_table()[k].id@ != tier_table()[j].id@);
    }
}

/// What an install still has to fetch for `tier_id`.
pub fn missing_files(p: &DiskProbe, tier_id: &str) -> (out: Vec<&'static str>)
    requires
        p.wf(),
    ensures
        out@.len() == missing_spec(*p, tier_id@).len(),
        forall|i: int| 0 <= i < out@.len() ==> (#[trigger] out@[i])@ == missing_spec(*p, tier_id@)[i],
{
    let a = assets();
    let mut out: Vec<&'static str> = Vec::new();
    let mut i: usize = 0;
    while i < a.len()
        invariant
            a@ == asset_table(),
            p.wf(),
            i <= a@.len(),
            out@.len() == missing_assets(*p, i as int).len(),
            forall|j: int| 0 <= j < out@.len() ==> (#[trigger] out@[j])@ == missing_assets(*p, i as int)[j],
        decreases a@.len() - i,
    {
        let present = if a[i].unzip {
            p.engine_present
        } else {
            match p.asset_len[i] {
                Some(n) => n == a[i].size,
                None => false,
            }
        };
        if !present {
            out.push(a[i].id);
        }
        i = i + 1;
    }
    let t = tier(tier_id);
    let k = tier_slot(tier_id);
    proof {
        let kk = choose|kk: int| 0 <= kk < tier_table().len() && tier_table()[kk] == tier_for(tier_id@);
        lemma_tier_slot_unique(k as int, kk);
    }
    let complete = match p.tier_len[k] {
        Some(n) => n == t.size,
        None => false,
    };
    if !complete {
        out.push(t.id);
    }
    out
}

proof fn lemma_missing_assets(p: DiskProbe, n: int)
    requires
        p.wf(),
        0 <= n <= asset_table().len(),
    ensures
        forall|i: int| 0 <= i < asset_table().len() ==>
            (missing_assets(p, n).contains(#[trigger] asset_table()[i].id@) <==> (i < n && !asset_present(p, i))),
        forall|j: int| 0 <= j < missing_assets(p, n).len() ==>
            exists|i: int| 0 <= i < n && #[trigger] missing_assets(p, n)[j] == asset_table()[i].id@,
    decreases n,
{
    crate::download::lemma_id_signatures();
    if n > 0 {
        lemma_missing_assets(p, n - 1);
        let prev = missing_assets(p, n - 1);
        let id = asset_table()[n - 1].id@;
        assert forall|i: int| 0 <= i < asset_table().len() && i != n - 1 implies #[trigger] asset_table()[i].id@ != id by {
            assert(asset_table()[i].id@.len() != id.len() || asset_table()[i].id@[0] != id[0]);
        }
        if !asset_present(p, n - 1) {
            assert(missing_assets(p, n) == prev.push(id));
            assert forall|i: int| 0 <= i < asset_table().len() implies
                (missing_assets(p, n).contains(#[trigger] asset_table()[i].id@) <==> (i < n && !asset_present(p, i))) by {
                if i == n - 1 {
                    assert(missing_assets(p, n)[prev.len() as int] == id);
                } else {
                    if missing_assets(p, n).contains(asset_table()[i].id@) {
                        let j = choose|j: int| 0 <= j < missing_assets(p, n).len() && missing_assets(p, n)[j] == asset_table()[i].id@;
                        assert(j < prev.len());
                        assert(prev[j] == asset_table()[i].id@);
                    }
                    if prev.contains(asset_table()[i].id@) {
                        let j = choose|j: int| 0 <= j < prev.len() && prev[j] == asset_table()[i].id@;
                        assert(missing_assets(p, n)[j] == prev[j]);
                    }
                }
            }
            assert forall|j: int| 0 <= j < missing_assets(p, n).len() implies
                exists|i: int| 0 <= i < n && #[trigger] missing_assets(p, n)[j] == asset_table()[i].id@ by {
                if j < prev.len() {
                    assert(missing_assets(p, n)[j] == prev[j]);
                    let i = choose|i: int| 0 <= i < n - 1 && #[trigger] prev[j] == asset_table()[i].id@;
                    assert(missing_assets(p, n)[j] == asset_table()[i].id@);
                } else {
                    assert(missing_assets(p, n)[j] == asset_table()[n - 1].id@);
                }
            }
        } else {
            assert(missing_assets(p, n) == prev);
        }
    }
}

/// An install still needs exactly the files that are not complete. An asset is needed
/// when its file is not there at full size — for a zip, when the engine binary it
/// unpacks to is absent — and the selected tier's model when its file is not there at
/// full size. Nothing else is listed.
pub proof fn law_missing_files(p: DiskProbe, tier_id: Seq<char>)
    requires
        p.wf(),
    ensures
        forall|i: int| 0 <= i < asset_table().len() ==>
            (missing_spec(p, tier_id).contains(#[trigger] asset_table()[i].id@) <==> if asset_table()[i].unzip {
                !p.engine_present
            } else {
                p.asset_len@[i] != Some(asset_table()[i].size)
            }),
        forall|k: int| 0 <= k < tier_table().len() && #[trigger] tier_table()[k] == tier_for(tier_id) ==>
            (missing_spec(p, tier_id).contains(tier_for(tier_id).id@) <==> p.tier_len@[k] != Some(tier_table()[k].size)),
        forall|j: int| 0 <= j < missing_spec(p, tier_id).len() ==> {
            ||| #[trigger] missing_spec(p, tier_id)[j] == tier_for(tier_id).id@
            ||| exists|i: int| 0 <= i < asset_table().len() && missing_spec(p, tier_id)[j] == asset_table()[i].id@
        },
{
    let n = asset_table().len() as int;
    lemma_missing_assets(p, n);
    crate::download::lemma_id_signatures();
    crate::config::lemma_tier_for_listed(tier_id);
    let t = tier_for(tier_id);
    let k0 = choose|k: int| 0 <= k < tier_table().len() && tier_table()[k] == t;
    let ma = missing_assets(p, n);
    assert forall|i: int| 0 <= i < n implies #[trigger] asset_table()[i].id@ != t.id@ by {
        assert(asset_table()[i].id@.len() != t.id@.len());
    }
    assert(!ma.contains(t.id@)) by {
        if ma.contains(t.id@) {
            let j = choose|j: int| 0 <= j < ma.len() && ma[j] == t.id@;
            let i = choose|i: int| 0 <= i < n && #[trigger] ma[j] == asset_table()[i].id@;
            assert(asset_table()[i].id@ != t.id@);
        }
    }
    assert forall|k: int| 0 <= k < tier_table().len() && #[trigger] tier_table()[k] == t implies k == k0 by {
        lemma_tier_slot_unique(k, k0);
    }
    if p.tier_len@[k0] != Some(t.size) {
        let m = ma.push(t.id@);
        assert(missing_spec(p, tier_id) == m);
        assert(m[ma.len() as int] == t.id@);
        assert forall|i: int| 0 <= i < n implies
            (m.contains(#[trigger] asset_table()[i].id@) <==> ma.contains(asset_table()[i].id@)) by {
            if m.contains(asset_table()[i].id@) {
                let j = choose|j: int| 0 <= j < m.len() && m[j] == asset_table()[i].id@;
                if j == ma.len() {
                    assert(asset_table()[i].id@ != t.id@);
                }
                assert(ma[j] == m[j]);
            }
            if ma.contains(asset_table()[i].id@) {
                let j = choose|j: int| 0 <= j < ma.len() && ma[j] == asset_table()[i].id@;
                assert(m[j] == ma[j]);
            }
        }
        assert forall|j: int| 0 <= j < m.len() implies {
            ||| #[trigger] m[j] == t.id@
            ||| exists|i: int| 0 <= i < n && m[j] == asset_table()[i].id@
        } by {
            if j < ma.len() {
                assert(m[j] == ma[j]);
                let i = choose|i: int| 0 <= i < n && #[trigger] ma[j] == asset_table()[i].id@;
            }
        }
    } else {
        assert(missing_spec(p, tier_id) == ma);
        assert forall|j: int| 0 <= j < ma.len() implies {
            ||| #[trigger] ma[j] == t.id@
            ||| exists|i: int| 0 <= i < n && ma[j] == asset_table()[i].id@
        } by {
            let i = choose|i: int| 0 <= i < n && #[trigger] ma[j] == asset_table()[i].id@;
        }
    }
}

/// A file of `want` bytes that is on disk but incomplete.
pub open spec fn partial(len: Option<u64>, want: u64) -> bool {
    len matches Some(n) && n > 0 && n < want
}

/// Some file of the install for `tier_id` is on disk but incomplete: a download that was
/// interrupted rather than one never started. Only the selected tier's file counts.
pub open spec fn in_progress_spec(p: DiskProbe, tier_id: Seq<char>) -> bool {
    let t = tier_for(tier_id);
    let k = choose|k: int| 0 <= k < tier_table().len() && tier_table()[k] == t;
    ||| exists|i: int| 0 <= i < asset_table().len() && partial(p.asset_len@[i], asset_table()[i].size)
    ||| partial(p.tier_len@[k], t.size)
}

fn is_partial(len: Option<u64>, want: u64) -> (b: bool)
    ensures
        b == partial(len, want),
{
    match len {
        Some(n) => n > 0 && n < want,
        None => false,
    }
}

/// An install counts as interrupted exactly when some file it fetches is on disk with
/// some but not all of its bytes: an asset's file, or the selected tier's model (other
/// tiers' leftovers do not count).
pub proof fn law_interrupted_install(p: DiskProbe, tier_id: Seq<char>)
    requires
        p.wf(),
    ensures
        in_progress_spec(p, tier_id) <==> {
            ||| exists|i: int| 0 <= i < asset_table().len() && (#[trigger] p.asset_len@[i] matches Some(n)
                    && 0 < n < asset_table()[i].size)
            ||| exists|k: int| 0 <= k < tier_table().len() && #[trigger] tier_table()[k] == tier_for(tier_id)
                    && (p.tier_len@[k] matches Some(n) && 0 < n < tier_table()[k].size)
        },
{
    crate::config::lemma_tier_for_listed(tier_id);
    let t = tier_for(tier_id);
    let k0 = choose|k: int| 0 <= k < tier_table().len() && tier_table()[k] == t;
    assert forall|k: int| 0 <= k < tier_table().len() && #[trigger] tier_table()[k] == t implies k == k0 by {
        lemma_tier_slot_unique(k, k0);
    }
    assert forall|i: int| 0 <= i < asset_table().len() implies
        (#[trigger] p.asset_len@[i] matches Some(n) && 0 < n < asset_table()[i].size) == partial(p.asset_len@[i], asset_table()[i].size) by {}
}

/// Whether an interrupted install for `tier_id` is on disk.
pub fn install_in_progress(p: &DiskProbe, tier_id: &str) -> (b: bool)
    requires
        p.wf(),
    ensures
        b == in_progress_spec(*p, tier_id@),
{
    let a = assets();
    let mut i: usize = 0;
    while i < a.len()
        invariant
            a@ == asset_table(),
            p.wf(),
            i <= a@.len(),
            forall|j: int| 0 <= j < i ==> !partial(p.asset_len@[j], asset_table()[j].size),
        decreases a@.len() - i,
    {
        if is_partial(p.asset_len[i], a[i].size) {
            return true;
        }
        i = i + 1;
    }
    let t = tier(tier_id);
    let k = tier_slot(tier_id);
    proof {
        let kk = choose|kk: int| 0 <= kk < tier_table().len() && tier_table()[kk] == tier_for(tier_id@);
        lemma_tier_slot_unique(k as int, kk);
    }
    is_partial(p.tier_len[k], t.size)
}

/// The tier selector's cells: every tier, whether it can run on 16 GB, and whether its
/// model file is complete on disk.
pub fn tier_views(p: &DiskProbe) -> (v: Vec<TierView>)
    requires
        p.wf(),
    ensures
        v@.len() == tier_table().len(),
        forall|j: int| 0 <= j < v@.len() ==> {
            let t = tier_table()[j];
            let c = #[trigger] v@[j];
            &&& c.id == t.id
            &&& c.label == t.label
            &&& c.size == t.size
            &&& c.desc == t.desc
            &&& c.fits == t.fits_16gb
            &&& c.on_disk == (p.tier_len@[j] == Some(t.size))
        },
{
    let ts = tiers();
    let mut v: Vec<TierView> = Vec::new();
    let mut j: usize = 0;
    while j < ts.len()
        invariant
            ts@ == tier_table(),
            p.wf(),
            j <= ts@.len(),
            v@.len() == j,
            forall|i: int| 0 <= i < j ==> {
                let t = tier_table()[i];
                let c = #[trigger] v@[i];
                &&& c.id == t.id
                &&& c.label == t.label
                &&& c.size == t.size
                &&& c.desc == t.desc
                &&& c.fits == t.fits_16gb
                &&& c.on_disk == (p.tier_len@[i] == Some(t.size))
            },
        decreases ts@.len() - j,
    {
        let t: Tier = ts[j];
        let on_disk = match p.tier_len[j] {
            Some(n) => n == t.size,
            None => false,
        };
        v.push(TierView { id: t.id, label: t.label, size: t.size, desc: t.desc, fits: t.fits_16gb, on_disk });
        j = j + 1;
    }
    v
}

/// Which screen the window shows: the installer while an install runs or anything is
/// missing, the control panel otherwise.
pub fn screen(installing: bool, nothing_missing: bool) -> (s: &'static str)
    ensures
        (installing || !nothing_missing) ==> s@ == "install"@,
        !(installing || !nothing_missing) ==> s@ == "panel"@,
{
    if installing || !nothing_missing { "install" } else { "panel" }
}

/// Bytes fetched over all rows.
pub open spec fn got_sum(rows: Seq<DlRow>) -> nat
    decreases rows.len(),
{
    if rows.len() == 0 { 0 } else { got_sum(rows.drop_last()) + rows.last().got as nat }
}

/// Bytes to fetch over all rows.
pub open spec fn total_sum(rows: Seq<DlRow>) -> nat
    decreases rows.len(),
{
    if rows.len() == 0 { 0 } else { total_sum(rows.drop_last()) + rows.last().total as nat }
}

/// Some download row has failed.
pub open spec fn any_failed(rows: Seq<DlRow>) -> bool {
    exists|i: int| 0 <= i < rows.len() && #[trigger] rows[i].state == DlState::Failed
}

/// The install percentage counts every row, whatever its state: the fetched and total
/// byte sums add up over any split of the rows, and one row counts its own `got` and
/// `total` — a finished file included.
pub proof fn law_sums_count_every_row(rows: Seq<DlRow>, more: Seq<DlRow>, r: DlRow)
    ensures
        got_sum(rows + more) == got_sum(rows) + got_sum(more),
        total_sum(rows + more) == total_sum(rows) + total_sum(more),
        got_sum(seq![r]) == r.got,
        total_sum(seq![r]) == r.total,
        got_sum(rows.push(r)) == got_sum(rows) + r.got,
        total_sum(rows.push(r)) == total_sum(rows) + r.total,
    decreases more.len(),
{
    assert(seq![r].drop_last() =~= Seq::<DlRow>::empty());
    assert(got_sum(Seq::<DlRow>::empty()) == 0);
    assert(total_sum(Seq::<DlRow>::empty()) == 0);
    assert(seq![r].last() == r);
    assert(got_sum(seq![r]) == got_sum(seq![r].drop_last()) + r.got);
    assert(total_sum(seq![r]) == total_sum(seq![r].drop_last()) + r.total);
    if more.len() > 0 {
        law_sums_count_every_row(rows, more.drop_last(), r);
        assert((rows + more).drop_last() =~= rows + more.drop_last());
    } else {
        assert(rows + more =~= rows);
    }
    assert(rows.push(r).drop_last() =~= rows);
}

/// The window title, which carries the state to the taskbar. On the install screen it
/// says the install stopped when nothing is downloading any more and a file failed.
pub open spec fn title_spec(status: Status, screen: Seq<char>, installing: bool, rows: Seq<DlRow>) -> Seq<char> {
    if screen == "install"@ && !installing && any_failed(rows) {
        "Install stopped — Qwen Image Studio"@
    } else if screen == "install"@ {
        let done = got_sum(rows);
        let all = total_sum(rows);
        if all > 0 && done < all {
            "Installing "@ + decimal(done * 100 / all) + "% — Qwen Image Studio"@
        } else {
            "Install — Qwen Image Studio"@
        }
    } else {
        match status {
            Status::Off => "Off — Qwen Image Studio"@,
            Status::Loading => "Loading — Qwen Image Studio"@,
            Status::Ready => "Ready — Qwen Image Studio"@,
            Status::Stopping => "Off — Qwen Image Studio"@,
            Status::Error { .. } => "Error — Qwen Image Studio"@,
        }
    }
}

/// The window title. On the install screen: "Install stopped" once nothing downloads
/// any more and some file failed; otherwise, while bytes remain, the share of all bytes
/// fetched over all rows in whole percent, rounded down; else "Install". On the panel,
/// the engine's state, with Stopping read as Off.
pub proof fn law_window_title(status: Status, screen: Seq<char>, installing: bool, rows: Seq<DlRow>)
    ensures
        screen == "install"@ && !installing && (exists|i: int| 0 <= i < rows.len() && #[trigger] rows[i].state == DlState::Failed)
            ==> title_spec(status, screen, installing, rows) == "Install stopped — Qwen Image Studio"@,
        screen == "install"@ && (installing || forall|i: int| 0 <= i < rows.len() ==> #[trigger] rows[i].state != DlState::Failed)
            && 0 < total_sum(rows) && got_sum(rows) < total_sum(rows) ==> exists|p: nat| {
                &&& title_spec(status, screen, installing, rows) == "Installing "@ + #[trigger] decimal(p) + "% — Qwen Image Studio"@
                &&& p * total_sum(rows) <= got_sum(rows) * 100 < (p + 1) * total_sum(rows)
            },
        screen == "install"@ && (installing || forall|i: int| 0 <= i < rows.len() ==> #[trigger] rows[i].state != DlState::Failed)
            && !(0 < total_sum(rows) && got_sum(rows) < total_sum(rows))
            ==> title_spec(status, screen, installing, rows) == "Install — Qwen Image Studio"@,
        screen != "install"@ ==> title_spec(status, screen, installing, rows) == match status {
            Status::Off => "Off — Qwen Image Studio"@,
            Status::Loading => "Loading — Qwen Image Studio"@,
            Status::Ready => "Ready — Qwen Image Studio"@,
            Status::Stopping => "Off — Qwen Image Studio"@,
            Status::Error { .. } => "Error — Qwen Image Studio"@,
        },
{
    let g = got_sum(rows);
    let t = total_sum(rows);
    if screen == "install"@ && (installing || forall|i: int| 0 <= i < rows.len() ==> #[trigger] rows[i].state != DlState::Failed)
        && 0 < t && g < t {
        let p: nat = (g * 100 / t) as nat;
        assert(p * t <= g * 100 < (p + 1) * t) by (nonlinear_arith)
            requires p == g * 100 / t, t > 0, g >= 0;
        assert(!any_failed(rows) || installing);
        assert(title_spec(status, screen, installing, rows) == "Installing "@ + decimal(p) + "% — Qwen Image Studio"@);
    }
}

/// Whether the byte counts of `rows` can be summed, and the install percentage taken,
/// in `u64` arithmetic without overflow.
pub open spec fn title_fits(rows: Seq<DlRow>) -> bool {
    &&& total_sum(rows) <= u64::MAX
    &&& got_sum(rows) <= u64::MAX
    &&& (total_sum(rows) > 0 && got_sum(rows) < total_sum(rows) ==> got_sum(rows) * 100 <= u64::MAX)
}

/// The window title for the given state.
pub fn window_title(status: &Status, screen: &str, installing: bool, rows: &Vec<DlRow>) -> (t: String)
    requires
        title_fits(rows@),
    ensures
        t@ == title_spec(*status, screen@, installing, rows@),
{
    let mut t = String::new();
    let mut failed = false;
    let mut k: usize = 0;
    while k < rows.len()
        invariant
            k <= rows@.len(),
            failed == exists|j: int| 0 <= j < k && #[trigger] rows@[j].state == DlState::Failed,
        decreases rows@.len() - k,
    {
        if rows[k].state == DlState::Failed {
            failed = true;
        }
        k = k + 1;
    }
    let install = str_eq(screen, "install");
    if install && !installing && failed {
        push_str(&mut t, "Install stopped — Qwen Image Studio");
    } else if install {
        let mut done: u64 = 0;
        let mut all: u64 = 0;
        let mut i: usize = 0;
        while i < rows.len()
            invariant
                i <= rows@.len(),
                title_fits(rows@),
                done == got_sum(rows@.take(i as int)),
                all == total_sum(rows@.take(i as int)),
            decreases rows@.len() - i,
        {
            proof {
                assert(rows@.take(i + 1).drop_last() =~= rows@.take(i as int));
                lemma_sums_prefix(rows@, i + 1);
            }
            done = done + rows[i].got;
            all = all + rows[i].total;
            i = i + 1;
        }
        assert(rows@.take(rows@.len() as int) =~= rows@);
        if all > 0 && done < all {
            push_str(&mut t, "Installing ");
            push_decimal(&mut t, done * 100 / all);
            push_str(&mut t, "% — Qwen Image Studio");
        } else {
            push_str(&mut t, "Install — Qwen Image Studio");
        }
    } else {
        match status {
            Status::Off => push_str(&mut t, "Off — Qwen Image Studio"),
            Status::Loading => push_str(&mut t, "Loading — Qwen Image Studio"),
            Status::Ready => push_str(&mut t, "Ready — Qwen Image Studio"),
            Status::Stopping => push_str(&mut t, "Off — Qwen Image Studio"),
            Status::Error { .. } => push_str(&mut t, "Error — Qwen Image Studio"),
        }
    }
    assert(t@ =~= title_spec(*status, screen@, installing, rows@));
    t
}

proof fn lemma_sums_prefix(rows: Seq<DlRow>, n: int)
    requires
        0 <= n <= rows.len(),
    ensures
        got_sum(rows.take(n)) <= got_sum(rows),
        total_sum(rows.take(n)) <= total_sum(rows),
    decreases rows.len() - n,
{
    if n < rows.len() {
        lemma_sums_prefix(rows.drop_last(), n);
        assert(rows.drop_last().take(n) =~= rows.take(n));
    } else {
        assert(rows.take(n) =~= rows);
    }
}

/// The VRAM gauge's memory: what the desktop used before the engine started (the
/// "other" segment), and the highest reading of the session.
#[derive(Clone, Copy, Debug)]
pub struct VramGauge {
    pub baseline: u64,
    pub peak: u64,
}

/// One reading of the gauge, in MiB.
#[derive(Clone, Copy, Debug)]
pub struct VramReading {
    pub used: u64,
    pub total: u64,
    /// What the engine uses: the reading above the baseline.
    pub engine: u64,
}

impl VramGauge {
    pub fn new() -> (g: VramGauge)
        ensures
            g.baseline == 0,
            g.peak == 0,
    {
        VramGauge { baseline: 0, peak: 0 }
    }

    /// Takes a reading (`None` when nvidia-smi is unavailable, read as 0 of 16 GiB). A
    /// baseline of 0 means none was taken yet: this reading becomes it. The peak only
    /// rises.
    pub fn observe(&mut self, reading: Option<(u64, u64)>) -> (r: VramReading)
        ensures
            reading matches Some(x) ==> r.used == x.0 && r.total == x.1,
            reading is None ==> r.used == 0 && r.total == 16384,
            *final(self) == observed_gauge(*old(self), reading),
            final(self).baseline == if old(self).baseline == 0 { r.used } else { old(self).baseline },
            final(self).peak == if r.used > old(self).peak { r.used } else { old(self).peak },
            r.engine == if r.used >= final(self).baseline { (r.used - final(self).baseline) as u64 } else { 0 },
    {
        let (used, total) = match reading {
            Some(x) => x,
            None => (0, 16384),
        };
        if self.baseline == 0 {
            self.baseline = used;
        }
        if used > self.peak {
            self.peak = used;
        }
        let engine = if used >= self.baseline { used - self.baseline } else { 0 };
        VramReading { used, total, engine }
    }

    /// The engine is starting: whatever is in use now is the "other" segment, and the
    /// peak starts over from it. Without a reading nothing changes.
    pub fn engine_starting(&mut self, reading: Option<(u64, u64)>)
        ensures
            reading matches Some(x) ==> final(self).baseline == x.0 && final(self).peak == x.0,
            reading is None ==> *final(self) == *old(self),
    {
        if let Some((used, _)) = reading {
            self.baseline = used;
            self.peak = used;
        }
    }

    /// The engine stopped: the peak tick resets.
    pub fn engine_stopped(&mut self)
        ensures
            final(self).baseline == old(self).baseline,
            final(self).peak == 0,
    {
        self.peak = 0;
    }
}

/// The gauge after a reading, as `VramGauge::observe` leaves it.
pub open spec fn observed_gauge(g: VramGauge, reading: Option<(u64, u64)>) -> VramGauge {
    let used = match reading { Some(x) => x.0, None => 0 };
    VramGauge {
        baseline: if g.baseline == 0 { used } else { g.baseline },
        peak: if used > g.peak { used } else { g.peak },
    }
}

/// The gauge after a run of readings.
pub open spec fn observed_all(g: VramGauge, readings: Seq<Option<(u64, u64)>>) -> VramGauge
    decreases readings.len(),
{
    if readings.len() == 0 {
        g
    } else {
        observed_gauge(observed_all(g, readings.drop_last()), readings.last())
    }
}

/// The peak tick marks the session's highest reading: after any run of readings it is
/// at least every one of them, and never below where it started.
pub proof fn law_peak_covers_readings(g: VramGauge, readings: Seq<Option<(u64, u64)>>)
    ensures
        observed_all(g, readings).peak >= g.peak,
        forall|i: int| 0 <= i < readings.len() ==> (#[trigger] readings[i] matches Some(x) ==> observed_all(g, readings).peak >= x.0),
    decreases readings.len(),
{
    if readings.len() > 0 {
        law_peak_covers_readings(g, readings.drop_last());
        assert forall|i: int| 0 <= i < readings.len() implies (#[trigger] readings[i] matches Some(x) ==> observed_all(g, readings).peak >= x.0) by {
            if i < readings.len() - 1 {
                assert(readings.drop_last()[i] == readings[i]);
            }
        }
    }
}

/// The local MCP endpoint: `http://localhost:8765/<secret>/mcp`.
pub fn local_url(secret: &str) -> (u: String)
    ensures
        u@ == "http://localhost:"@ + decimal(MCP_PORT as nat) + "/"@ + secret@ + "/mcp"@,
{
    let mut u = String::new();
    push_str(&mut u, "http://localhost:");
    push_decimal(&mut u, MCP_PORT as u64);
    push_str(&mut u, "/");
    push_str(&mut u, secret);
    push_str(&mut u, "/mcp");
    assert(u@ =~= "http://localhost:"@ + decimal(MCP_PORT as nat) + "/"@ + secret@ + "/mcp"@);
    u
}

/// The path the MCP service is mounted at: `/<secret>/mcp`. Anything else is a 404.
pub fn mcp_path(secret: &str) -> (p: String)
    ensures
        p@ == "/"@ + secret@ + "/mcp"@,
{
    let mut p = String::new();
    push_str(&mut p, "/");
    push_str(&mut p, secret);
    push_str(&mut p, "/mcp");
    assert(p@ =~= "/"@ + secret@ + "/mcp"@);
    p
}

/// The engine error shown when the MCP port cannot be bound.
pub fn port_in_use() -> (m: String)
    ensures
        m@ == "Port "@ + decimal(MCP_PORT as nat) + " is in use by another program."@,
{
    let mut m = String::new();
    push_str(&mut m, "Port ");
    push_decimal(&mut m, MCP_PORT as u64);
    push_str(&mut m, " is in use by another program.");
    assert(m@ =~= "Port "@ + decimal(MCP_PORT as nat) + " is in use by another program."@);
    m
}

fn copy_opt(o: &Option<String>) -> (r: Option<String>)
    ensures
        r == *o,
{
    match o {
        Some(s) => Some(s.clone()),
        None => None,
    }
}

/// A copy of `s`.
pub fn copy_status(s: &Status) -> (r: Status)
    ensures
        r == *s,
{
    match s {
        Status::Off => Status::Off,
        Status::Loading => Status::Loading,
        Status::Ready => Status::Ready,
        Status::Stopping => Status::Stopping,
        Status::Error { message } => Status::Error { message: message.clone() },
    }
}

/// Everything the window renders, sent once a second and after every change.
pub struct Snapshot {
    pub screen: &'static str,
    pub status: Status,
    pub loaded_tier: Option<String>,
    pub selected_tier: String,
    pub busy: Option<String>,
    pub busy_elapsed: Option<u64>,
    pub busy_eta: Option<u64>,
    pub load_elapsed: Option<u64>,
    pub last_load_secs: Option<u64>,
    pub last_oom: Option<String>,
    pub vram_used: u64,
    pub vram_total: u64,
    pub vram_engine: u64,
    pub vram_peak: u64,
    pub tiers: Vec<TierView>,
    pub local_url: String,
    pub tunnel: Tunnel,
    pub downloads: Vec<DlRow>,
    pub gallery: Vec<GalleryItem>,
    pub root: String,
    /// Free space on the volume holding `root`, and what the install needs.
    pub free_bytes: u64,
    pub needed_bytes: u64,
}

/// The snapshot of the app's state. The app supplies what it measured: seconds since
/// the job and the load began, a VRAM reading, the disk probe and the free space.
pub fn snapshot<C, I>(
    cfg: &Config,
    engine: &Engine<C, I>,
    busy_elapsed: Option<u64>,
    load_elapsed: Option<u64>,
    gauge: &mut VramGauge,
    reading: Option<(u64, u64)>,
    tunnel: Tunnel,
    downloads: Vec<DlRow>,
    gallery: Vec<GalleryItem>,
    probe: &DiskProbe,
    installing: bool,
    free_bytes: Option<u64>,
) -> (s: Snapshot)
    requires
        probe.wf(),
    ensures
        (installing || missing_spec(*probe, cfg.tier@).len() > 0) ==> s.screen@ == "install"@,
        !(installing || missing_spec(*probe, cfg.tier@).len() > 0) ==> s.screen@ == "panel"@,
        s.status == engine.status,
        s.loaded_tier == engine.loaded_tier,
        s.selected_tier == cfg.tier,
        s.busy == engine.busy,
        s.busy_elapsed == busy_elapsed,
        s.busy_eta == engine.busy_eta,
        s.load_elapsed == load_elapsed,
        s.last_load_secs == cfg.last_load_secs,
        s.last_oom == engine.last_oom,
        reading matches Some(x) ==> s.vram_used == x.0 && s.vram_total == x.1,
        reading is None ==> s.vram_used == 0 && s.vram_total == 16384,
        final(gauge).baseline == if old(gauge).baseline == 0 { s.vram_used } else { old(gauge).baseline },
        final(gauge).peak == if s.vram_used > old(gauge).peak { s.vram_used } else { old(gauge).peak },
        s.vram_engine == if s.vram_used >= final(gauge).baseline { (s.vram_used - final(gauge).baseline) as u64 } else { 0 },
        s.vram_peak == final(gauge).peak,
        s.tiers@.len() == tier_table().len(),
        forall|j: int| 0 <= j < s.tiers@.len() ==> {
            let t = tier_table()[j];
            let c = #[trigger] s.tiers@[j];
            &&& c.id == t.id
            &&& c.label == t.label
            &&& c.size == t.size
            &&& c.desc == t.desc
            &&& c.fits == t.fits_16gb
            &&& c.on_disk == (probe.tier_len@[j] == Some(t.size))
        },
        s.local_url@ == "http://localhost:"@ + decimal(MCP_PORT as nat) + "/"@ + cfg.secret@ + "/mcp"@,
        s.tunnel == tunnel,
        s.downloads == downloads,
        s.gallery == gallery,
        s.root == cfg.root,
        s.free_bytes == match free_bytes { Some(n) => n, None => 0 },
        s.needed_bytes == tier_for(cfg.tier@).size + sizes_total(asset_table()),
{
    let r = gauge.observe(reading);
    let missing = missing_files(probe, cfg.tier.as_str());
    Snapshot {
        screen: screen(installing, missing.len() == 0),
        status: copy_status(&engine.status),
        loaded_tier: copy_opt(&engine.loaded_tier),
        selected_tier: cfg.tier.clone(),
        busy: copy_opt(&engine.busy),
        busy_elapsed,
        busy_eta: engine.busy_eta,
        load_elapsed,
        last_load_secs: cfg.last_load_secs,
        last_oom: copy_opt(&engine.last_oom),
        vram_used: r.used,
        vram_total: r.total,
        vram_engine: r.engine,
        vram_peak: gauge.peak,
        tiers: tier_views(probe),
        local_url: local_url(cfg.secret.as_str()),
        tunnel,
        downloads,
        gallery,
        root: cfg.root.clone(),
        free_bytes: match free_bytes { Some(n) => n, None => 0 },
        needed_bytes: install_size(cfg.tier.as_str()),
    }
}

} // verus!
