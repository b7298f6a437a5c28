//! Key matrix scanning.
//!
//! A keypad is scanned by driving one line at a time and reading the lines
//! that cross it. The coordinates of a key are `(row, col)`: `col` counts the
//! driven lines and `row` the lines read.

use vstd::prelude::*;

verus! {

/// One scan of a key matrix with `COLS` driven lines and `ROWS` lines read.
#[derive(Clone, Copy, Debug)]
pub struct Keypad<const ROWS: usize, const COLS: usize> {
    levels: [[bool; ROWS]; COLS],
}

/// The keys found closed on the first `rows` lines read while line `col` was
/// driven, in the order of the scan.
pub open spec fn keys_in_column(column: Seq<bool>, col: int, rows: int) -> Seq<(u8, u8)>
    decreases rows,
{
    if rows <= 0 {
        Seq::empty()
    } else if column[rows - 1] {
        keys_in_column(column, col, rows - 1).push(((rows - 1) as u8, col as u8))
    } else {
        keys_in_column(column, col, rows - 1)
    }
}

/// The keys found closed while the first `cols` lines were driven, in the
/// order of the scan.
pub open spec fn keys_in_columns(levels: Seq<Seq<bool>>, cols: int) -> Seq<(u8, u8)>
    decreases cols,
{
    if cols <= 0 {
        Seq::empty()
    } else {
        keys_in_columns(levels, cols - 1) + keys_in_column(
            levels[cols - 1],
            cols - 1,
            levels[cols - 1].len() as int,
        )
    }
}

impl<const ROWS: usize, const COLS: usize> View for Keypad<ROWS, COLS> {
    type V = Seq<Seq<bool>>;

    /// The sampled levels: `self@[col][row]` tells whether line `row` read
    /// high while line `col` was driven.
    closed spec fn view(&self) -> Seq<Seq<bool>> {
        Seq::new(COLS as nat, |col: int| self.levels@[col]@)
    }
}

impl<const ROWS: usize, const COLS: usize> Keypad<ROWS, COLS> {
    /// A scan holds one sample for each crossing of a driven line and a
    /// line read.
    pub proof fn lemma_shape(&self)
        ensures
            self@.len() == COLS,
            forall|col: int| 0 <= col < COLS ==> (#[trigger] self@[col]).len() == ROWS,
    {
    }

    /// Every closed key, in the order of the scan.
    pub open spec fn pressed(&self) -> Seq<(u8, u8)> {
        keys_in_columns(self@, COLS as int)
    }

    /// Whether the key at `(row, col)` was found closed.
    pub open spec fn closed_at(&self, row: int, col: int) -> bool {
        0 <= col < COLS && 0 <= row < ROWS && self@[col][row]
    }

    /// Whether the key at `(row, col)` is closed and no key sampled before
    /// it is.
    pub open spec fn first_closed(&self, row: int, col: int) -> bool {
        &&& self.closed_at(row, col)
        &&& forall|r: int, c: int| #[trigger]
            self.closed_at(r, c) ==> col < c || (col == c && row <= r)
    }

    /// Whether the key sampled first, if there is one, is closed.
    pub open spec fn first_sample(&self) -> bool {
        ROWS > 0 && COLS > 0 && self@[0][0]
    }

    /// A scan whose samples are `levels`, indexed by driven line first.
    pub fn new(levels: [[bool; ROWS]; COLS]) -> (keypad: Self)
        ensures
            keypad@ == Seq::new(COLS as nat, |col: int| levels@[col]@),
    {
        Self { levels }
    }

    /// Writes the coordinates of the closed keys to the front of `buffer`, in
    /// the order of the scan, until the buffer is full, and returns how many
    /// were written. An empty buffer can take no key: with one, the key
    /// sampled first must be open.
    pub fn read_all_coords(&self, buffer: &mut [(u8, u8)]) -> (count: usize)
        requires
            old(buffer)@.len() == 0 ==> !self.first_sample(),
        ensures
            count == if self.pressed().len() <= old(buffer)@.len() {
                self.pressed().len()
            } else {
                old(buffer)@.len()
            },
            final(buffer)@ == self.pressed().take(count as int) + old(buffer)@.skip(count as int),
    {
        let ghost levels = self@;
        let ghost before = buffer@;
        let mut current_index: usize = 0;
        let mut ci: usize = 0;
        while ci < COLS
            invariant
                ci <= COLS,
                levels == self@,
                before == old(buffer)@,
                buffer@.len() == before.len(),
                before.len() == 0 ==> !self.first_sample(),
                before.len() == 0 ==> ROWS == 0 || ci == 0,
                before.len() > 0 ==> current_index < before.len(),
                current_index == keys_in_columns(levels, ci as int).len(),
                buffer@ == keys_in_columns(levels, ci as int) + before.skip(current_index as int),
            decreases COLS - ci,
        {
            let ghost earlier = keys_in_columns(levels, ci as int);
            let ghost column = levels[ci as int];
            let mut ri: usize = 0;
            while ri < ROWS
                invariant
                    ci < COLS,
                    ri <= ROWS,
                    levels == self@,
                    before == old(buffer)@,
                    column == levels[ci as int],
                    earlier == keys_in_columns(levels, ci as int),
                    buffer@.len() == before.len(),
                    before.len() == 0 ==> !self.first_sample(),
                    before.len() == 0 ==> ROWS == 0 || (ci == 0 && ri == 0),
                    before.len() > 0 ==> current_index < before.len(),
                    current_index == earlier.len() + keys_in_column(column, ci as int, ri as int).len(),
                    buffer@ == earlier + keys_in_column(column, ci as int, ri as int) + before.skip(
                        current_index as int,
                    ),
                decreases ROWS - ri,
            {
                let ghost found = earlier + keys_in_column(column, ci as int, ri as int);
                if self.levels[ci][ri] {
                    let key = (#[verifier::truncate] (ri as u8), #[verifier::truncate] (ci as u8));
                    buffer[current_index] = key;
                    assert(buffer@ =~= found.push(key) + before.skip(current_index + 1));
                    current_index += 1;
                }
                ri += 1;
                assert(earlier + keys_in_column(column, ci as int, ri as int) =~= if column[ri - 1] {
                    found.push(((ri - 1) as u8, ci as u8))
                } else {
                    found
                });
                if current_index >= buffer.len() {
                    proof {
                        let taken = earlier + keys_in_column(column, ci as int, ri as int);
                        lemma_keys_prefix(levels, ci as int, ri as int, COLS as int);
                        assert(taken =~= self.pressed().take(current_index as int));
                    }
                    return current_index;
                }
            }
            ci += 1;
        }
        proof {
            assert(self.pressed().take(current_index as int) =~= self.pressed());
        }
        current_index
    }

    /// The first closed key in the order of the scan, if any key is closed.
    pub fn read_first_key(&self) -> (key: Option<(u8, u8)>)
        ensures
            key == if self.pressed().len() > 0 {
                Some(self.pressed()[0])
            } else {
                None
            },
            match key {
                Some(coords) => exists|row: int, col: int| #[trigger]
                    self.first_closed(row, col) && coords == (row as u8, col as u8),
                None => forall|row: int, col: int| !#[trigger] self.closed_at(row, col),
            },
    {
        let mut buffer: [(u8, u8); 1] = [(0, 0)];
        let amount = self.read_all_coords(&mut buffer);
        proof {
            let levels = self@;
            lemma_matrix_none(levels, COLS as int);
            if self.pressed().len() > 0 {
                let (row, col) = lemma_matrix_first(levels, COLS as int);
                assert(self.first_closed(row, col));
            }
        }
        if amount != 0 {
            Some(buffer[0])
        } else {
            None
        }
    }
}

/// A line holds no closed key exactly when the scan finds none on it.
proof fn lemma_column_none(column: Seq<bool>, col: int, rows: int)
    ensures
        keys_in_column(column, col, rows).len() == 0 <==> forall|r: int|
            0 <= r < rows ==> !column[r],
    decreases rows,
{
    if rows > 0 {
        lemma_column_none(column, col, rows - 1);
    }
}

/// Where the scan finds a key on a line, the first it finds is the closed
/// key read first.
proof fn lemma_column_first(column: Seq<bool>, col: int, rows: int) -> (row: int)
    requires
        keys_in_column(column, col, rows).len() > 0,
    ensures
        0 <= row < rows,
        column[row],
        forall|r: int| 0 <= r < row ==> !column[r],
        keys_in_column(column, col, rows)[0] == (row as u8, col as u8),
    decreases rows,
{
    if keys_in_column(column, col, rows - 1).len() > 0 {
        lemma_column_first(column, col, rows - 1)
    } else {
        lemma_column_none(column, col, rows - 1);
        rows - 1
    }
}

/// A matrix holds no closed key exactly when the scan finds none.
proof fn lemma_matrix_none(levels: Seq<Seq<bool>>, cols: int)
    ensures
        keys_in_columns(levels, cols).len() == 0 <==> forall|c: int, r: int|
            0 <= c < cols && 0 <= r < levels[c].len() ==> !levels[c][r],
    decreases cols,
{
    if cols > 0 {
        lemma_matrix_none(levels, cols - 1);
        lemma_column_none(levels[cols - 1], cols - 1, levels[cols - 1].len() as int);
    }
}

/// Where the scan finds a key, the first it finds is the closed key sampled
/// first.
proof fn lemma_matrix_first(levels: Seq<Seq<bool>>, cols: int) -> (key: (int, int))
    requires
        keys_in_columns(levels, cols).len() > 0,
    ensures
        0 <= key.1 < cols,
        0 <= key.0 < levels[key.1].len(),
        levels[key.1][key.0],
        forall|c: int, r: int| 0 <= c < key.1 && 0 <= r < levels[c].len() ==> !levels[c][r],
        forall|r: int| 0 <= r < key.0 ==> !levels[key.1][r],
        keys_in_columns(levels, cols)[0] == (key.0 as u8, key.1 as u8),
    decreases cols,
{
    if keys_in_columns(levels, cols - 1).len() > 0 {
        lemma_matrix_first(levels, cols - 1)
    } else {
        lemma_matrix_none(levels, cols - 1);
        let column = levels[cols - 1];
        let row = lemma_column_first(column, cols - 1, column.len() as int);
        (row, cols - 1)
    }
}

/// The keys found on the first lines read are the first of the keys found on
/// more of them.
proof fn lemma_column_prefix(column: Seq<bool>, col: int, rows: int, upto: int)
    requires
        0 <= rows <= upto,
    ensures
        keys_in_column(column, col, rows).is_prefix_of(keys_in_column(column, col, upto)),
    decreases upto - rows,
{
    if rows < upto {
        lemma_column_prefix(column, col, rows, upto - 1);
    }
}

/// The keys found while the first lines were driven are the first of the
/// keys found while more of them were.
proof fn lemma_columns_prefix(levels: Seq<Seq<bool>>, col: int, cols: int)
    requires
        0 <= col <= cols,
    ensures
        keys_in_columns(levels, col).is_prefix_of(keys_in_columns(levels, cols)),
    decreases cols - col,
{
    if col < cols {
        lemma_columns_prefix(levels, col, cols - 1);
    }
}

/// The keys found part-way through a scan are the first of all the keys
/// found by the whole scan.
pub proof fn lemma_keys_prefix(levels: Seq<Seq<bool>>, col: int, rows: int, cols: int)
    requires
        0 <= col < cols,
        0 <= rows <= levels[col].len(),
    ensures
        (keys_in_columns(levels, col) + keys_in_column(levels[col], col, rows)).is_prefix_of(
            keys_in_columns(levels, cols),
        ),
{
    lemma_column_prefix(levels[col], col, rows, levels[col].len() as int);
    lemma_columns_prefix(levels, col + 1, cols);
}

/// The character that the key at `coords`, given as `(row, col)`, produces
/// in the legend `table`, which is indexed by `col` first. The legend
/// must hold the key: a key off the legend has no character.
pub fn translate_coordinate(coords: (u8, u8), table: &[&[char]]) -> (key: char)
    requires
        (coords.1 as int) < table@.len(),
        (coords.0 as int) < table@[coords.1 as int]@.len(),
    ensures
        key == table@[coords.1 as int]@[coords.0 as int],
{
    let (row, col) = coords;
    table[col as usize][row as usize]
}

} // verus!
