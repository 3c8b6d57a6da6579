use crate::utils::{
    get_left_neighbour_index_wrapping,
    get_right_neighbour_index_wrapping,
    wrapped_index,
};
use bit_set::BitSet;
use vstd::prelude::*;
use vstd::string::StringExecFns;

verus! {

/// Which single cell is alive in a freshly seeded row.
#[derive(Clone, Copy, Debug)]
pub enum RowStartPosition {
    Left,
    Right,
    Center,
}

/// What an edge cell sees where it has no neighbour.
#[derive(Clone, Copy, Debug)]
pub enum BorderHandling {
    Alive,
    Dead,
    Wrapping,
}

/// Bit `position` of `byte`, counting from the most significant bit
/// (position 0) down to the least significant one (position 7).
pub open spec fn byte_bit_msb_first(byte: u8, position: int) -> bool {
    ((byte >> ((7 - position) as u8)) & 1u8) == 1u8
}

/// Which bit of a rule number governs a neighbourhood: 0 for `111`,
/// 1 for `110`, and so on down to 7 for `000`.
pub open spec fn pattern_index(left: bool, center: bool, right: bool) -> int {
    7 - ((if left { 4int } else { 0int }) + (if center { 2int } else { 0int }) + (if right {
        1int
    } else {
        0int
    }))
}

/// The next state of a cell whose neighbourhood is `left`, `center`,
/// `right` under the rule numbered `rules`.
pub open spec fn next_state(left: bool, center: bool, right: bool, rules: u8) -> bool {
    byte_bit_msb_first(rules, pattern_index(left, center, right))
}

/// Relies on `bit_set::BitSet::from_bytes`, which turns each byte into
/// eight bits, most significant bit first, and on `BitSet::contains`, which
/// reports such a bit and is false past the last one.
#[verifier::external_body]
fn rule_contains(rules: u8, position: usize) -> (r: bool)
    ensures
        r == (position < 8 && byte_bit_msb_first(rules, position as int)),
{
    BitSet::from_bytes(&[rules]).contains(position)
}

/// The next state of a cell from its neighbourhood and the rule number.
pub fn get_next_cell_state(
    left_neighbour: bool,
    current_state: bool,
    right_neighbour: bool,
    rules: u8,
) -> (r: bool)
    ensures
        r == next_state(left_neighbour, current_state, right_neighbour, rules),
{
    match (left_neighbour, current_state, right_neighbour) {
        (true, true, true) => rule_contains(rules, 0),
        (true, true, false) => rule_contains(rules, 1),
        (true, false, true) => rule_contains(rules, 2),
        (true, false, false) => rule_contains(rules, 3),
        (false, true, true) => rule_contains(rules, 4),
        (false, true, false) => rule_contains(rules, 5),
        (false, false, true) => rule_contains(rules, 6),
        (false, false, false) => rule_contains(rules, 7),
    }
}

/// The index of the living cell in a seed row of `width` cells.
pub open spec fn seed_index(width: nat, start_position: RowStartPosition) -> int {
    match start_position {
        RowStartPosition::Left => 0,
        RowStartPosition::Right => width - 1,
        RowStartPosition::Center => width as int / 2,
    }
}

/// A seed row: `width` cells, only the one at `seed_index` alive.
pub open spec fn seed_row(width: nat, start_position: RowStartPosition) -> Seq<bool> {
    Seq::new(width, |i: int| i == seed_index(width, start_position))
}

/// What cell `i` of `cells` sees on its left.
pub open spec fn left_neighbour(cells: Seq<bool>, i: int, border_handling: BorderHandling) -> bool {
    match border_handling {
        BorderHandling::Wrapping => cells[wrapped_index(i - 1, cells.len() as int)],
        BorderHandling::Alive => if i == 0 { true } else { cells[i - 1] },
        BorderHandling::Dead => if i == 0 { false } else { cells[i - 1] },
    }
}

/// What cell `i` of `cells` sees on its right.
pub open spec fn right_neighbour(cells: Seq<bool>, i: int, border_handling: BorderHandling) -> bool {
    match border_handling {
        BorderHandling::Wrapping => cells[wrapped_index(i + 1, cells.len() as int)],
        BorderHandling::Alive => if i + 1 >= cells.len() { true } else { cells[i + 1] },
        BorderHandling::Dead => if i + 1 >= cells.len() { false } else { cells[i + 1] },
    }
}

/// The state of cell `i` in the generation that follows `cells`.
pub open spec fn next_cell(cells: Seq<bool>, i: int, rules: u8, border_handling: BorderHandling) -> bool {
    next_state(
        left_neighbour(cells, i, border_handling),
        cells[i],
        right_neighbour(cells, i, border_handling),
        rules,
    )
}

/// The generation that follows `cells`: every cell updated at once from the
/// old states.
pub open spec fn next_row(cells: Seq<bool>, rules: u8, border_handling: BorderHandling) -> Seq<bool> {
    Seq::new(cells.len(), |i: int| next_cell(cells, i, rules, border_handling))
}

/// With a ring border the two ends of a row are neighbours: the first cell
/// sees the last on its left, and the last sees the first on its right.
pub proof fn lemma_wrapping_joins_ends(cells: Seq<bool>)
    requires
        0 < cells.len(),
    ensures
        left_neighbour(cells, 0, BorderHandling::Wrapping) == cells[cells.len() - 1],
        right_neighbour(cells, cells.len() - 1, BorderHandling::Wrapping) == cells[0],
{
    let n = cells.len() as int;
    vstd::arithmetic::div_mod::lemma_mod_multiples_vanish(-1, n - 1, n);
    assert(n * -1 + (n - 1) == -1) by (nonlinear_arith);
    vstd::arithmetic::div_mod::lemma_small_mod((n - 1) as nat, n as nat);
    vstd::arithmetic::div_mod::lemma_mod_self_0(n);
}

/// The glyph that shows a cell: a filled square when alive, a hollow one
/// when dead.
pub open spec fn glyph(alive: bool) -> char {
    if alive { '\u{25A0}' } else { '\u{25A1}' }
}

/// A row written out as one glyph per cell.
pub open spec fn row_text(cells: Seq<bool>) -> Seq<char> {
    cells.map_values(|c: bool| glyph(c))
}

/// Rows written out one per line, separated by newlines.
pub open spec fn rows_text(rows: Seq<Seq<bool>>) -> Seq<char>
    decreases rows.len(),
{
    if rows.len() == 0 {
        Seq::empty()
    } else if rows.len() == 1 {
        row_text(rows[0])
    } else {
        rows_text(rows.drop_last()) + seq!['\n'] + row_text(rows.last())
    }
}

/// One generation of the automaton: a fixed-length row of cell states.
pub struct Generation {
    cells: Vec<bool>,
}

impl View for Generation {
    type V = Seq<bool>;

    closed spec fn view(&self) -> Seq<bool> {
        self.cells@
    }
}

impl Generation {
    /// A row is never empty, and short enough to be indexed by `isize`.
    pub open spec fn wf(&self) -> bool {
        0 < self@.len() <= isize::MAX
    }

    /// A row of `width` dead cells but one, placed by `start_position`.
    pub fn new(width: usize, start_position: RowStartPosition) -> (r: Self)
        requires
            width > 0,
            width <= isize::MAX,
        ensures
            r.wf(),
            r@ == seed_row(width as nat, start_position),
            r@.len() == width,
            forall|i: int| 0 <= i < width ==> r@[i] == (i == seed_index(width as nat, start_position)),
    {
        let start_point: usize = match start_position {
            RowStartPosition::Left => 0,
            RowStartPosition::Right => width - 1,
            RowStartPosition::Center => width / 2,
        };
        let mut cells: Vec<bool> = Vec::with_capacity(width);
        let mut index: usize = 0;
        while index < width
            invariant
                index <= width,
                start_point as int == seed_index(width as nat, start_position),
                cells@.len() == index,
                forall|j: int| 0 <= j < index ==> cells@[j] == (j == start_point),
            decreases width - index,
        {
            cells.push(index == start_point);
            index = index + 1;
        }
        let r = Generation { cells };
        assert(r@ =~= seed_row(width as nat, start_position));
        r
    }

    /// The row as text, one glyph per cell.
    pub fn to_text(&self) -> (r: String)
        ensures
            r@ == row_text(self@),
    {
        let mut text: String = String::new();
        let mut index: usize = 0;
        while index < self.cells.len()
            invariant
                index <= self@.len(),
                text@ =~= row_text(self@.take(index as int)),
            decreases self@.len() - index,
        {
            proof {
                reveal_strlit("\u{25A0}");
                reveal_strlit("\u{25A1}");
            }
            if self.cells[index] {
                text.append("\u{25A0}");
            } else {
                text.append("\u{25A1}");
            }
            assert(self@.take(index + 1) =~= self@.take(index as int).push(self@[index as int]));
            index = index + 1;
        }
        assert(self@.take(self@.len() as int) =~= self@);
        text
    }

    /// The state of the cell at `cell_index`, or `None` at or past the end of
    /// the row. Every cell of the row, the last one included, can be read.
    pub fn get_cell_state(&self, cell_index: usize) -> (r: Option<bool>)
        ensures
            r == (if cell_index < self@.len() { Some(self@[cell_index as int]) } else { None::<bool> }),
    {
        if cell_index >= self.cells.len() {
            return None;
        }
        Some(self.cells[cell_index])
    }

    /// The generation that follows this one under the rule numbered
    /// `rules`, edges resolved by `border_handling`; the row itself is left
    /// as it is.
    pub fn get_next_generation(&self, rules: u8, border_handling: &BorderHandling) -> (r: Self)
        requires
            self.wf(),
        ensures
            r.wf(),
            r@.len() == self@.len(),
            r@ == next_row(self@, rules, *border_handling),
    {
        let len: usize = self.cells.len();
        let mut cells: Vec<bool> = Vec::with_capacity(len);
        let mut index: usize = 0;
        while index < len
            invariant
                self.wf(),
                len == self@.len(),
                index <= len,
                cells@.len() == index,
                forall|j: int|
                    0 <= j < index ==> cells@[j] == next_cell(self@, j, rules, *border_handling),
            decreases len - index,
        {
            cells.push(self.get_next_cell_state(index, rules, border_handling));
            index = index + 1;
        }
        let r = Generation { cells };
        assert(r@ =~= next_row(self@, rules, *border_handling));
        r
    }

    /// The next state of the cell at `cell_index`.
    pub fn get_next_cell_state(
        &self,
        cell_index: usize,
        rules: u8,
        border_handling: &BorderHandling,
    ) -> (r: bool)
        requires
            self.wf(),
            cell_index < self@.len(),
        ensures
            r == next_cell(self@, cell_index as int, rules, *border_handling),
    {
        let (left_neighbour, current_state, right_neighbour) = match border_handling {
            BorderHandling::Wrapping => self.get_cell_and_neighbours_wrapping(cell_index),
            BorderHandling::Alive => self.get_cell_and_neighbours(cell_index, true),
            BorderHandling::Dead => self.get_cell_and_neighbours(cell_index, false),
        };
        get_next_cell_state(left_neighbour, current_state, right_neighbour, rules)
    }

    /// The cell at `cell_index` with its two neighbours, the row read as a
    /// ring.
    pub fn get_cell_and_neighbours_wrapping(&self, cell_index: usize) -> (r: (bool, bool, bool))
        requires
            self.wf(),
            cell_index < self@.len(),
        ensures
            r == (
                left_neighbour(self@, cell_index as int, BorderHandling::Wrapping),
                self@[cell_index as int],
                right_neighbour(self@, cell_index as int, BorderHandling::Wrapping),
            ),
    {
        let left_neighbour_index: usize = get_left_neighbour_index_wrapping(
            cell_index,
            self.cells.len(),
        );
        let right_neighbour_index: usize = get_right_neighbour_index_wrapping(
            cell_index,
            self.cells.len(),
        );
        (
            self.cells[left_neighbour_index],
            self.cells[cell_index],
            self.cells[right_neighbour_index],
        )
    }

    /// The cell at `cell_index` with its two neighbours, where a neighbour
    /// beyond either edge reads as `neighbour_default`.
    pub fn get_cell_and_neighbours(&self, cell_index: usize, neighbour_default: bool) -> (r: (
        bool,
        bool,
        bool,
    ))
        requires
            self.wf(),
            cell_index < self@.len(),
        ensures
            r == (
                if cell_index == 0 { neighbour_default } else { self@[cell_index - 1] },
                self@[cell_index as int],
                if cell_index + 1 >= self@.len() { neighbour_default } else { self@[cell_index + 1] },
            ),
    {
        let left_neighbour: bool = if cell_index == 0 {
            neighbour_default
        } else {
            self.cells[cell_index - 1]
        };
        let right_neighbour_index: usize = cell_index + 1;
        let right_neighbour: bool = if right_neighbour_index >= self.cells.len() {
            neighbour_default
        } else {
            self.cells[right_neighbour_index]
        };
        (left_neighbour, self.cells[cell_index], right_neighbour)
    }
}

/// Row `n` of the evolution that starts from `seed`: `seed` itself for
/// `n == 0`, else the successor of row `n - 1`.
pub open spec fn evolve(seed: Seq<bool>, rules: u8, border_handling: BorderHandling, n: nat) -> Seq<
    bool,
>
    decreases n,
{
    if n == 0 {
        seed
    } else {
        next_row(evolve(seed, rules, border_handling, (n - 1) as nat), rules, border_handling)
    }
}

/// The first `n + 1` rows of the evolution that starts from `seed`.
pub open spec fn run(seed: Seq<bool>, rules: u8, border_handling: BorderHandling, n: nat) -> Seq<
    Seq<bool>,
> {
    Seq::new(n + 1, |k: int| evolve(seed, rules, border_handling, k as nat))
}

/// An elementary cellular automaton together with every generation it has
/// gone through, oldest first.
pub struct ElementaryCellularAutomata {
    generations: Vec<Generation>,
    width: usize,
    rule: u8,
    border_handling: BorderHandling,
}

impl ElementaryCellularAutomata {
    /// The generations so far, oldest first, each as its cell states.
    pub closed spec fn history(&self) -> Seq<Seq<bool>> {
        self.generations@.map_values(|g: Generation| g@)
    }

    /// The number of cells in each row.
    pub closed spec fn row_width(&self) -> nat {
        self.width as nat
    }

    /// The rule number the automaton runs.
    pub closed spec fn rule_number(&self) -> u8 {
        self.rule
    }

    /// How the automaton treats the edges of a row.
    pub closed spec fn border(&self) -> BorderHandling {
        self.border_handling
    }

    /// The history is never empty, every row has `row_width` cells, and each
    /// row follows from the one before under the automaton's rule and border
    /// handling.
    pub closed spec fn wf(&self) -> bool {
        &&& 0 < self.width <= isize::MAX
        &&& self.generations@.len() >= 1
        &&& forall|k: int|
            0 <= k < self.generations@.len() ==> (#[trigger] self.generations@[k])@.len()
                == self.width
        &&& self.history() == run(
            self.history()[0],
            self.rule,
            self.border_handling,
            (self.history().len() - 1) as nat,
        )
    }

    /// An automaton whose history holds the single seed row of `width`
    /// cells placed by `start_position`.
    pub fn new(
        rule: u8,
        width: usize,
        start_position: RowStartPosition,
        border_handling: BorderHandling,
    ) -> (r: Self)
        requires
            width > 0,
            width <= isize::MAX,
        ensures
            r.wf(),
            r.history() == run(seed_row(width as nat, start_position), rule, border_handling, 0),
            r.history().len() == 1,
            r.history()[0] == seed_row(width as nat, start_position),
            r.row_width() == width,
            r.rule_number() == rule,
            r.border() == border_handling,
    {
        let seed = Generation::new(width, start_position);
        let mut generations: Vec<Generation> = Vec::new();
        generations.push(seed);
        let r = ElementaryCellularAutomata { generations, width, rule, border_handling };
        assert(r.history() =~= run(seed_row(width as nat, start_position), rule, border_handling, 0));
        r
    }

    /// Appends the successor of the latest generation to the history.
    pub fn update(&mut self)
        requires
            old(self).wf(),
        ensures
            final(self).wf(),
            final(self).history() == old(self).history().push(
                next_row(old(self).history().last(), old(self).rule_number(), old(self).border()),
            ),
            final(self).history() == run(
                old(self).history()[0],
                old(self).rule_number(),
                old(self).border(),
                old(self).history().len(),
            ),
            final(self).row_width() == old(self).row_width(),
            final(self).rule_number() == old(self).rule_number(),
            final(self).border() == old(self).border(),
    {
        let next = self.get_next_generation();
        match next {
            Some(next_generation) => {
                let ghost before = self.history();
                self.generations.push(next_generation);
                proof {
                    let n = (before.len() - 1) as nat;
                    assert(self.history() =~= before.push(next_generation@));
                    assert(before[n as int] == evolve(before[0], self.rule, self.border_handling, n));
                    assert(self.history() =~= run(
                        before[0],
                        self.rule,
                        self.border_handling,
                        before.len(),
                    ));
                }
            },
            None => {},
        }
    }

    /// The successor of the latest generation; always present, since the
    /// history is never empty.
    fn get_next_generation(&self) -> (r: Option<Generation>)
        requires
            self.wf(),
        ensures
            r.is_some(),
            r.unwrap()@ == next_row(self.history().last(), self.rule, self.border_handling),
            r.unwrap()@.len() == self.width,
    {
        let last: usize = self.generations.len() - 1;
        let current_generation = &self.generations[last];
        assert(current_generation@ == self.history().last());
        Some(current_generation.get_next_generation(self.rule, &self.border_handling))
    }

    /// The colour of pixel (`x`, `y`) in a picture of the history, one row
    /// of pixels per generation: black where the cell is alive, white where
    /// it is dead or `x` lies past the end of the row.
    pub fn pixel_rgb(&self, x: usize, y: usize) -> (r: [u8; 3])
        requires
            self.wf(),
            y < self.history().len(),
        ensures
            r@ == (if x < self.row_width() && self.history()[y as int][x as int] {
                seq![0u8, 0u8, 0u8]
            } else {
                seq![255u8, 255u8, 255u8]
            }),
    {
        let generation = &self.generations[y];
        assert(generation@ == self.history()[y as int]);
        let r: [u8; 3] = match generation.get_cell_state(x) {
            Some(true) => [0u8, 0u8, 0u8],
            _ => [255u8, 255u8, 255u8],
        };
        assert(r@ =~= (if x < self.row_width() && self.history()[y as int][x as int] {
            seq![0u8, 0u8, 0u8]
        } else {
            seq![255u8, 255u8, 255u8]
        }));
        r
    }

    /// The whole history as text: one line of glyphs per generation, oldest
    /// first, lines separated by newlines.
    pub fn to_text(&self) -> (r: String)
        requires
            self.wf(),
        ensures
            r@ == rows_text(self.history()),
    {
        let mut text: String = String::new();
        let mut index: usize = 0;
        while index < self.generations.len()
            invariant
                index <= self.history().len(),
                self.history().len() == self.generations@.len(),
                forall|k: int| 0 <= k < self.generations@.len() ==> #[trigger] self.generations@[k]@
                    == self.history()[k],
                text@ =~= rows_text(self.history().take(index as int)),
            decreases self.history().len() - index,
        {
            proof {
                reveal_strlit("\n");
            }
            if index > 0 {
                text.append("\n");
            }
            let line = self.generations[index].to_text();
            text.append(line.as_str());
            proof {
                let h = self.history();
                assert(h.take(index + 1).drop_last() =~= h.take(index as int));
                assert(h.take(index + 1).last() == h[index as int]);
                if index == 0 {
                    assert(h.take(1)[0] == h[0]);
                }
            }
            index = index + 1;
        }
        assert(self.history().take(self.history().len() as int) =~= self.history());
        text
    }

    /// The number of cells in each row.
    pub fn width(&self) -> (r: usize)
        ensures
            r == self.row_width(),
    {
        self.width
    }

    /// The rule number the automaton runs.
    pub fn rule(&self) -> (r: u8)
        ensures
            r == self.rule_number(),
    {
        self.rule
    }

    /// How the automaton treats the edges of a row.
    pub fn border_handling(&self) -> (r: BorderHandling)
        ensures
            r == self.border(),
    {
        self.border_handling
    }

    /// The generations so far, oldest first.
    pub fn generations(&self) -> (r: &Vec<Generation>)
        ensures
            r@.map_values(|g: Generation| g@) == self.history(),
    {
        &self.generations
    }

    /// Two automata with the same rule and border handling whose histories
    /// start from the same seed and have the same length have the same
    /// history: the evolution is deterministic.
    pub proof fn lemma_same_parameters_same_history(a: &Self, b: &Self)
        requires
            a.wf(),
            b.wf(),
            a.rule_number() == b.rule_number(),
            a.border() == b.border(),
            a.history()[0] == b.history()[0],
            a.history().len() == b.history().len(),
        ensures
            a.history() == b.history(),
    {
    }
}

impl Default for ElementaryCellularAutomata {
    /// Rule 110 on rows of 100 cells, seeded in the middle, with dead borders.
    fn default() -> (r: Self)
        ensures
            r.wf(),
            r.history() == run(seed_row(100, RowStartPosition::Center), 110, BorderHandling::Dead, 0),
            r.row_width() == 100,
            r.rule_number() == 110,
            r.border() == BorderHandling::Dead,
    {
        ElementaryCellularAutomata::new(110, 100, RowStartPosition::Center, BorderHandling::Dead)
    }
}

} // verus!
