//! The legend of the keypad: which character each key produces.

use vstd::prelude::*;

verus! {

/// The characters of the keys, one row per driven line.
pub const KEYMAP_DATA: [[char; 3]; 4] = [
    ['1', '2', '3'],
    ['4', '5', '6'],
    ['7', '8', '9'],
    ['a', '0', 'b'],
];

/// The character at `row` of the driven line `col` of the legend.
pub open spec fn legend(row: int, col: int) -> char {
    KEYMAP_DATA@[col]@[row]
}

/// The legend as a table of slices, the form the coordinate lookup takes.
pub fn keymap() -> (table: [&'static [char]; 4])
    ensures
        table@.len() == 4,
        forall|col: int| 0 <= col < 4 ==> (#[trigger] table@[col])@ == KEYMAP_DATA@[col]@,
{
    [&KEYMAP_DATA[0], &KEYMAP_DATA[1], &KEYMAP_DATA[2], &KEYMAP_DATA[3]]
}

} // verus!
