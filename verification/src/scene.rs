use vstd::prelude::*;
use crate::focus::FocusState;
use crate::magnitude::{is_nan_bits, rank_key, spec_is_nan, spec_rank_key};
use crate::grid::{eligible_cells, spec_eligible_cells, GridCell, GRID_RADIUS, MANHATTAN_THRESHOLD};
use crate::outline::{mk_cube, Cube};
use crate::ranking::{is_ranking, lemma_ranking_exists, lists, precedes, rank, ranking};

verus! {

/// No scene shows more cubes than this, however many cells there are.
pub const MAX_CUBES: usize = 25;

/// One named entity of the dataset. `total_bits` is the sum of its
/// magnitudes as the bit pattern of a single-precision number, `segments`
/// the number of magnitudes, one per stacked segment of its cube.
#[derive(Debug)]
pub struct DatasetEntry {
    pub name: String,
    pub total_bits: u32,
    pub segments: usize,
}

/// The dataset as of one polling instant. The order of the entries decides
/// between entries of equal weight and nothing else.
#[derive(Debug)]
pub struct DatasetSnapshot {
    pub entries: Vec<DatasetEntry>,
}

/// An entry of the snapshot, by position, and the cell it stands on.
#[derive(Clone, Copy, Debug, PartialEq, Eq, Structural)]
pub struct LayoutAssignment {
    pub entry: usize,
    pub cell: GridCell,
}

/// What is drawn for one entry.
#[derive(Debug)]
pub struct CubeRecord {
    /// Position of the entry in the snapshot.
    pub entry: usize,
    /// The entry's name: the label, and what a click on the cube reports.
    pub name: String,
    pub cell: GridCell,
    pub cube: Cube,
    /// Whether the entry is the one in focus.
    pub highlighted: bool,
}

/// The weights of the entries, position by position: the rank keys of
/// their totals, so that the larger total weighs more.
pub open spec fn spec_weights(entries: Seq<DatasetEntry>) -> Seq<u64> {
    Seq::new(entries.len(), |i: int| spec_rank_key(entries[i].total_bits) as u64)
}

/// How many cubes a scene shows: one per entry while cells last, and never
/// more than [`MAX_CUBES`].
pub open spec fn spec_cube_count(entries: nat, cells: nat) -> nat {
    vstd::math::min(vstd::math::min(entries as int, cells as int), MAX_CUBES as int) as nat
}

/// The assignment of entries to cells: the entry of rank `k` stands on the
/// `k`-th cell, for as many ranks as the scene shows cubes.
pub open spec fn spec_layout(weights: Seq<u64>, cells: Seq<GridCell>) -> Seq<LayoutAssignment> {
    Seq::new(
        spec_cube_count(weights.len(), cells.len()),
        |k: int| LayoutAssignment { entry: ranking(weights)[k], cell: cells[k] },
    )
}

/// The cells of the scene's own grid.
pub open spec fn spec_scene_cells() -> Seq<GridCell> {
    spec_eligible_cells(GRID_RADIUS as int, MANHATTAN_THRESHOLD as int)
}

impl DatasetEntry {
    /// The total is a number, and the cube's paths can be counted in a
    /// `usize`.
    pub open spec fn wf(&self) -> bool {
        !spec_is_nan(self.total_bits) && 2 * self.segments + 1 <= usize::MAX
    }

    /// Tests whether the entry is well-formed.
    pub fn is_wf(&self) -> (ok: bool)
        ensures
            ok == self.wf(),
    {
        !is_nan_bits(self.total_bits) && self.segments <= (usize::MAX - 1) / 2
    }
}

impl DatasetSnapshot {
    /// Every entry is well-formed.
    pub open spec fn wf(&self) -> bool {
        forall|i: int| 0 <= i < self.entries@.len() ==> (#[trigger] self.entries@[i]).wf()
    }

    /// Tests whether every entry is well-formed.
    pub fn is_wf(&self) -> (ok: bool)
        ensures
            ok == self.wf(),
    {
        let mut i: usize = 0;
        while i < self.entries.len()
            invariant
                i <= self.entries@.len(),
                forall|j: int| 0 <= j < i ==> (#[trigger] self.entries@[j]).wf(),
            decreases self.entries@.len() - i,
        {
            if !self.entries[i].is_wf() {
                return false;
            }
            i = i + 1;
        }
        true
    }

    /// A snapshot without entries: a scene without cubes.
    pub fn new() -> (snapshot: DatasetSnapshot)
        ensures
            snapshot.entries@.len() == 0,
            snapshot.wf(),
    {
        DatasetSnapshot { entries: Vec::new() }
    }

    /// The weights of the entries, position by position.
    pub fn weights(&self) -> (weights: Vec<u64>)
        ensures
            weights@ == spec_weights(self.entries@),
    {
        let mut weights: Vec<u64> = Vec::new();
        let mut i: usize = 0;
        while i < self.entries.len()
            invariant
                i <= self.entries@.len(),
                weights@ == spec_weights(self.entries@.take(i as int)),
            decreases self.entries@.len() - i,
        {
            weights.push(rank_key(self.entries[i].total_bits));
            assert(weights@ =~= spec_weights(self.entries@.take(i + 1)));
            i = i + 1;
        }
        assert(self.entries@.take(i as int) =~= self.entries@);
        weights
    }
}

/// `record` is what the scene draws for the entry of rank `rank`.
pub open spec fn depicts(
    record: CubeRecord,
    entries: Seq<DatasetEntry>,
    focus: Option<Seq<char>>,
    rank: int,
) -> bool {
    let assigned = spec_layout(spec_weights(entries), spec_scene_cells())[rank];
    let entry = entries[assigned.entry as int];
    &&& record.entry == assigned.entry
    &&& record.cell == assigned.cell
    &&& record.name@ == entry.name@
    &&& record.cube.is_outline_of(entry.segments as nat)
    &&& record.highlighted == (focus == Some(entry.name@))
}

/// Gives the heaviest entries a cell each: the `k`-th heaviest gets the
/// `k`-th cell. Entries of equal weight rank in input order. Entries that
/// find no cell, or come after the first [`MAX_CUBES`], are left out.
pub fn layout(weights: &Vec<u64>, cells: &Vec<GridCell>) -> (assignments: Vec<LayoutAssignment>)
    ensures
        assignments@ == spec_layout(weights@, cells@),
{
    let order = rank(weights);
    let mut count: usize = weights.len();
    if cells.len() < count {
        count = cells.len();
    }
    if MAX_CUBES < count {
        count = MAX_CUBES;
    }
    let mut assignments: Vec<LayoutAssignment> = Vec::new();
    let mut k: usize = 0;
    while k < count
        invariant
            k <= count,
            count == spec_cube_count(weights@.len(), cells@.len()),
            order@ == ranking(weights@),
            order@.len() == weights@.len(),
            assignments@ == spec_layout(weights@, cells@).take(k as int),
        decreases count - k,
    {
        assignments.push(LayoutAssignment { entry: order[k], cell: cells[k] });
        assert(assignments@ =~= spec_layout(weights@, cells@).take(k + 1));
        k = k + 1;
    }
    assert(spec_layout(weights@, cells@).take(k as int) =~= spec_layout(weights@, cells@));
    assignments
}

/// Every assignment names a position of `weights` and a cell of `cells`,
/// and no position is named twice.
pub proof fn lemma_layout_places_each_entry_once(weights: Seq<u64>, cells: Seq<GridCell>)
    requires
        weights.len() <= usize::MAX,
    ensures
        spec_layout(weights, cells).len() <= cells.len(),
        forall|k: int|
            0 <= k < spec_layout(weights, cells).len() ==> {
                let assigned = #[trigger] spec_layout(weights, cells)[k];
                assigned.entry < weights.len() && assigned.cell == cells[k]
            },
        forall|j: int, k: int|
            0 <= j < k < spec_layout(weights, cells).len() ==> (#[trigger] spec_layout(
                weights,
                cells,
            )[j]).entry != (#[trigger] spec_layout(weights, cells)[k]).entry,
{
    lemma_ranking_exists(weights);
    let order = ranking(weights);
    assert forall|j: int, k: int| 0 <= j < k < spec_layout(weights, cells).len() implies (
    #[trigger] spec_layout(weights, cells)[j]).entry != (#[trigger] spec_layout(
        weights,
        cells,
    )[k]).entry by {
        assert(precedes(weights, order[j] as int, order[k] as int));
    }
}

/// On the scene's own grid no cell is given out twice.
pub proof fn lemma_scene_cells_are_distinct(weights: Seq<u64>)
    ensures
        forall|j: int, k: int|
            0 <= j < k < spec_layout(weights, spec_scene_cells()).len() ==> (#[trigger] spec_layout(
                weights,
                spec_scene_cells(),
            )[j]).cell != (#[trigger] spec_layout(weights, spec_scene_cells())[k]).cell,
{
    crate::grid::lemma_eligible_cells_exact(GRID_RADIUS as int, MANHATTAN_THRESHOLD as int);
    let cells = spec_scene_cells();
    assert forall|j: int, k: int|
        0 <= j < k < spec_layout(weights, cells).len() implies (#[trigger] spec_layout(
        weights,
        cells,
    )[j]).cell != (#[trigger] spec_layout(weights, cells)[k]).cell by {
        assert(crate::grid::scanned_before(cells[j], cells[k]));
    }
}

/// What is left out ranks behind all that is placed: a position without a
/// cell is lighter than every placed one, or as heavy and later in the
/// input.
pub proof fn lemma_layout_keeps_the_heaviest(
    weights: Seq<u64>,
    cells: Seq<GridCell>,
    k: int,
    left_out: int,
)
    requires
        weights.len() <= usize::MAX,
        0 <= k < spec_layout(weights, cells).len(),
        0 <= left_out < weights.len(),
        forall|j: int|
            0 <= j < spec_layout(weights, cells).len() ==> (#[trigger] spec_layout(
                weights,
                cells,
            )[j]).entry != left_out,
    ensures
        precedes(weights, spec_layout(weights, cells)[k].entry as int, left_out),
{
    lemma_ranking_exists(weights);
    let order = ranking(weights);
    assert(is_ranking(weights, order));
    assert(lists(order, left_out));
    let at = choose|i: int| 0 <= i < order.len() && order[i] == left_out;
    if at < spec_layout(weights, cells).len() {
        assert(spec_layout(weights, cells)[at].entry == left_out);
    }
    assert(precedes(weights, order[k] as int, order[at] as int));
}

/// No two entries share a name.
pub open spec fn names_distinct(entries: Seq<DatasetEntry>) -> bool {
    forall|i: int, j: int|
        0 <= i < j < entries.len() ==> (#[trigger] entries[i]).name@ != (#[trigger] entries[j]).name@
}

/// Where names are distinct, the scene highlights at most one cube: of two
/// different ranks, one at least is not that of the entry in focus.
pub proof fn lemma_at_most_one_highlight(
    entries: Seq<DatasetEntry>,
    cells: Seq<GridCell>,
    focus: Option<Seq<char>>,
    j: int,
    k: int,
)
    requires
        entries.len() <= usize::MAX,
        names_distinct(entries),
        0 <= j < k < spec_layout(spec_weights(entries), cells).len(),
    ensures
        ({
            let placed = spec_layout(spec_weights(entries), cells);
            focus != Some(entries[placed[j].entry as int].name@) || focus != Some(
                entries[placed[k].entry as int].name@,
            )
        }),
{
    lemma_layout_places_each_entry_once(spec_weights(entries), cells);
    let placed = spec_layout(spec_weights(entries), cells);
    let a = placed[j].entry as int;
    let b = placed[k].entry as int;
    assert(a != b);
    if a < b {
        assert(entries[a].name@ != entries[b].name@);
    } else {
        assert(entries[b].name@ != entries[a].name@);
    }
}

/// Assembles the scene for a snapshot and a focus: ranks the entries, gives
/// the heaviest a cell each on the scene's grid, and lists what to draw for
/// them in paint order, which is rank order reversed, so that the heaviest
/// entry is painted last.
pub fn render_scene(snapshot: &DatasetSnapshot, focus: &FocusState) -> (records: Vec<CubeRecord>)
    requires
        snapshot.wf(),
    ensures
        records@.len() == spec_cube_count(snapshot.entries@.len(), spec_scene_cells().len()),
        records@.len() == vstd::math::min(snapshot.entries@.len() as int, MAX_CUBES as int),
        forall|k: int|
            0 <= k < records@.len() ==> depicts(
                #[trigger] records@[k],
                snapshot.entries@,
                focus@,
                records@.len() - 1 - k,
            ),
{
    let weights = snapshot.weights();
    let cells = eligible_cells(GRID_RADIUS, MANHATTAN_THRESHOLD);
    let assignments = layout(&weights, &cells);
    let count = assignments.len();
    proof {
        assert(weights@.len() == weights.len());
        lemma_ranking_exists(weights@);
        crate::grid::lemma_scene_cell_count();
    }
    let mut records: Vec<CubeRecord> = Vec::new();
    let mut k: usize = 0;
    while k < count
        invariant
            k <= count,
            count == assignments@.len(),
            snapshot.wf(),
            weights@ == spec_weights(snapshot.entries@),
            cells@ == spec_scene_cells(),
            assignments@ == spec_layout(weights@, cells@),
            is_ranking(weights@, ranking(weights@)),
            records@.len() == k,
            forall|j: int|
                0 <= j < k ==> depicts(
                    #[trigger] records@[j],
                    snapshot.entries@,
                    focus@,
                    count - 1 - j,
                ),
        decreases count - k,
    {
        let assigned = assignments[count - 1 - k];
        assert(assigned.entry == ranking(weights@)[count - 1 - k]);
        let entry = &snapshot.entries[assigned.entry];
        let name = entry.name.clone();
        let highlighted = focus.is_focused(&name);
        let cube = mk_cube(entry.segments);
        records.push(CubeRecord { entry: assigned.entry, name, cell: assigned.cell, cube, highlighted });
        k = k + 1;
    }
    records
}

} // verus!
