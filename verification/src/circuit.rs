//! The fixed shape of the circuit and the witness it is built from.
//!
//! The circuit itself is assembled by a proving backend.  What is decided
//! here is what that assembly depends on: how large the circuit is, which
//! message it carries, when a layout pass may assign cells, and which cell is
//! tied to which row of which public column.

use vstd::prelude::*;
use vstd::string::*;
use vstd::utf8::*;

verus! {

/// The number of message bytes the circuit has room for.
pub const MAX_STRING_LEN: usize = 128;

/// The circuit has `2^K` rows.
pub const K: usize = 14;

/// The number of advice columns of the arithmetic gate.
pub const NUM_ADVICE: usize = 2;

/// The number of fixed columns of the arithmetic gate.
pub const NUM_FIXED: usize = 1;

/// The witness of the circuit: the bytes of the secret message.
#[derive(Clone, Debug)]
pub struct RegexCircuit {
    characters: Vec<u8>,
}

impl View for RegexCircuit {
    type V = Seq<u8>;

    closed spec fn view(&self) -> Seq<u8> {
        self.characters@
    }
}

impl RegexCircuit {
    /// The circuit that carries the bytes of `text` as its message.
    pub fn from_message(text: &str) -> (r: Self)
        ensures
            r@ == encode_utf8(text@),
    {
        RegexCircuit { characters: text.as_bytes_vec() }
    }

    /// The same circuit with no message in it.  Keys are generated from it, so
    /// that they depend on no secret.
    pub fn without_witnesses(&self) -> (r: Self)
        ensures
            r@ == Seq::<u8>::empty(),
    {
        RegexCircuit { characters: Vec::new() }
    }

    /// The bytes of the message.
    pub fn characters(&self) -> (r: &Vec<u8>)
        ensures
            r@ == self@,
    {
        &self.characters
    }

    /// Whether the message fits into the circuit.
    pub fn fits(&self) -> (r: bool)
        ensures
            r == (self@.len() <= MAX_STRING_LEN),
    {
        self.characters.len() <= MAX_STRING_LEN
    }
}

impl Default for RegexCircuit {
    fn default() -> (r: Self)
        ensures
            r@ == Seq::<u8>::empty(),
    {
        RegexCircuit { characters: Vec::new() }
    }
}

/// Builds the circuit that carries `characters` as its message.
pub fn create_circuit(characters: Vec<u8>) -> (r: RegexCircuit)
    ensures
        r@ == characters@,
{
    RegexCircuit { characters }
}

/// What a call of the region-assignment step is for.
#[derive(Clone, Copy, Debug, PartialEq, Eq, Structural)]
pub enum Pass {
    /// The planner only measures the region: nothing may be assigned.
    Sizing,
    /// The planner lays the region out: cells are assigned.
    Assignment,
}

/// Tells the passes of a floor planner apart.  A planner that measures a
/// region before laying it out calls the assignment step twice; the first of
/// the two calls must assign nothing.
#[derive(Clone, Copy, Debug, PartialEq, Eq, Structural)]
pub struct RegionPasses {
    sizing_ahead: bool,
}

impl RegionPasses {
    /// Whether the next call of the assignment step is a sizing pass.
    pub closed spec fn sizing_ahead(&self) -> bool {
        self.sizing_ahead
    }

    /// Starts counting.  `sizing_first` says whether the planner measures
    /// before it lays out.
    pub fn new(sizing_first: bool) -> (r: Self)
        ensures
            r.sizing_ahead() == sizing_first,
    {
        RegionPasses { sizing_ahead: sizing_first }
    }

    /// Records a call of the assignment step and says what the call is for.
    /// Only the first call can be a sizing pass.
    pub fn enter(&mut self) -> (pass: Pass)
        ensures
            pass == if old(self).sizing_ahead() {
                Pass::Sizing
            } else {
                Pass::Assignment
            },
            !final(self).sizing_ahead(),
    {
        if self.sizing_ahead {
            self.sizing_ahead = false;
            Pass::Sizing
        } else {
            Pass::Assignment
        }
    }
}

/// One of the two public columns of the circuit.
#[derive(Clone, Copy, Debug, PartialEq, Eq, Structural)]
pub enum InstanceColumn {
    /// The column of the masked characters.
    MaskedChars,
    /// The column of the tags.
    SubstrIds,
}

/// An equality constraint between an assigned cell and a row of a public
/// column.
#[derive(Clone, Copy, Debug, PartialEq, Eq, Structural)]
pub struct Binding {
    /// The column that the cell is tied to.
    pub column: InstanceColumn,
    /// The position of the cell among the cells assigned for that column.
    pub cell: usize,
    /// The row of the column.
    pub row: usize,
}

/// The number of cells that get bound in each column: the gadget's two
/// outputs are walked in step, so the shorter one decides.
pub open spec fn bound_cells(masked_cells: int, id_cells: int) -> int {
    if masked_cells <= id_cells {
        masked_cells
    } else {
        id_cells
    }
}

/// The `j`-th constraint of the plan for `n` cells per column: first the
/// masked characters, then the tags, each cell to the row of its own index.
pub open spec fn binding_at(n: int, j: int) -> Binding {
    if j < n {
        Binding { column: InstanceColumn::MaskedChars, cell: j as usize, row: j as usize }
    } else {
        Binding { column: InstanceColumn::SubstrIds, cell: (j - n) as usize, row: (j - n) as usize }
    }
}

/// Plans the constraints that tie the gadget's output to the public columns.
///
/// Of `masked_cells` masked characters and `id_cells` tags, the first
/// `min(masked_cells, id_cells)` of each are bound, every cell to the row of
/// its own index: all masked characters first, then all tags.
pub fn instance_bindings(masked_cells: usize, id_cells: usize) -> (plan: Vec<Binding>)
    requires
        2 * bound_cells(masked_cells as int, id_cells as int) <= usize::MAX,
    ensures
        plan@.len() == 2 * bound_cells(masked_cells as int, id_cells as int),
        forall|j: int|
            0 <= j < plan@.len() ==> #[trigger] plan@[j] == binding_at(
                bound_cells(masked_cells as int, id_cells as int),
                j,
            ),
{
    let n = if masked_cells <= id_cells {
        masked_cells
    } else {
        id_cells
    };
    let mut plan: Vec<Binding> = Vec::new();
    let mut i: usize = 0;
    while i < n
        invariant
            i <= n,
            plan@.len() == i,
            forall|j: int| 0 <= j < i ==> #[trigger] plan@[j] == binding_at(n as int, j),
        decreases n - i,
    {
        plan.push(Binding { column: InstanceColumn::MaskedChars, cell: i, row: i });
        i += 1;
    }
    let mut i: usize = 0;
    while i < n
        invariant
            i <= n,
            2 * n <= usize::MAX,
            plan@.len() == n + i,
            forall|j: int| 0 <= j < n + i ==> #[trigger] plan@[j] == binding_at(n as int, j),
        decreases n - i,
    {
        plan.push(Binding { column: InstanceColumn::SubstrIds, cell: i, row: i });
        i += 1;
    }
    plan
}

} // verus!
