//! How matrices and vectors are laid out as text.

use vstd::prelude::*;
use vstd::string::StringExecFns;
use vstd::string::to_string_from_display_ensures;
use std::fmt::Display;
use crate::matrix::Matrix;
use crate::vector::Vector;

verus! {

/// The characters of each string of `cells`.
pub open spec fn texts_of(cells: &Vec<String>) -> Seq<Seq<char>> {
    Seq::new(cells@.len(), |i: int| cells@[i]@)
}

/// The characters of each string of each row of `cells`.
pub open spec fn grid_texts_of(cells: &Vec<Vec<String>>) -> Seq<Seq<Seq<char>>> {
    Seq::new(cells@.len(), |i: int| texts_of(&cells@[i]))
}

/// The first `n` cells of a matrix row, each between two spaces.
pub open spec fn row_text(cells: Seq<Seq<char>>, n: nat) -> Seq<char>
    decreases n,
{
    if n == 0 {
        Seq::empty()
    } else {
        row_text(cells, (n - 1) as nat) + " "@ + cells[n - 1] + " "@
    }
}

/// The first `n` rows of a matrix, each laid out by `row_text` and ended by
/// a line feed.
pub open spec fn grid_text(cells: Seq<Seq<Seq<char>>>, n: nat) -> Seq<char>
    decreases n,
{
    if n == 0 {
        Seq::empty()
    } else {
        grid_text(cells, (n - 1) as nat) + row_text(cells[n - 1], cells[n - 1].len()) + "\n"@
    }
}

/// The first `n` cells of a vector, each followed by a space.
pub open spec fn items_text(cells: Seq<Seq<char>>, n: nat) -> Seq<char>
    decreases n,
{
    if n == 0 {
        Seq::empty()
    } else {
        items_text(cells, (n - 1) as nat) + cells[n - 1] + " "@
    }
}

/// A vector between square brackets, ended by a line feed.
pub open spec fn list_text(cells: Seq<Seq<char>>) -> Seq<char> {
    "[ "@ + items_text(cells, cells.len()) + " ]\n"@
}

/// Lays out the rendered elements of a matrix: one line for each row, every
/// element between two spaces.
pub fn grid_to_text(cells: &Vec<Vec<String>>) -> (s: String)
    ensures
        s@ == grid_text(grid_texts_of(cells), cells.len() as nat),
{
    let ghost all = grid_texts_of(cells);
    let mut s = String::new();
    for i in 0..cells.len()
        invariant
            all == grid_texts_of(cells),
            s@ == grid_text(all, i as nat),
    {
        let row = &cells[i];
        let ghost done = s@;
        for j in 0..row.len()
            invariant
                i < cells.len(),
                row == &cells[i as int],
                all == grid_texts_of(cells),
                s@ == done + row_text(all[i as int], j as nat),
        {
            let ghost before = s@;
            s.append(" ");
            s.append(row[j].as_str());
            s.append(" ");
            assert(s@ =~= done + row_text(all[i as int], (j + 1) as nat)) by {
                assert(all[i as int][j as int] == row@[j as int]@);
                assert(s@ == before + " "@ + row@[j as int]@ + " "@);
            }
        }
        s.append("\n");
    }
    s
}

/// Lays out the rendered elements of a vector: between square brackets,
/// every element followed by a space.
pub fn list_to_text(cells: &Vec<String>) -> (s: String)
    ensures
        s@ == list_text(texts_of(cells)),
{
    let ghost all = texts_of(cells);
    let mut s = String::new();
    s.append("[ ");
    assert(s@ =~= "[ "@);
    for i in 0..cells.len()
        invariant
            all == texts_of(cells),
            s@ == "[ "@ + items_text(all, i as nat),
    {
        let ghost before = s@;
        s.append(cells[i].as_str());
        s.append(" ");
        assert(s@ =~= "[ "@ + items_text(all, (i + 1) as nat)) by {
            assert(all[i as int] == cells@[i as int]@);
            assert(s@ == before + cells@[i as int]@ + " "@);
        }
    }
    s.append(" ]\n");
    s
}

/// `cells` holds, position by position, a rendering of each element of
/// `values`.
pub open spec fn renders_grid<T: Display>(values: Seq<Seq<T>>, cells: &Vec<Vec<String>>) -> bool {
    &&& cells@.len() == values.len()
    &&& forall|i: int| 0 <= i < values.len() ==> renders_list(values[i], #[trigger] &cells@[i])
}

/// `cells` holds, position by position, a rendering of each element of
/// `values`.
pub open spec fn renders_list<T: Display>(values: Seq<T>, cells: &Vec<String>) -> bool {
    &&& cells@.len() == values.len()
    &&& forall|i: int|
        0 <= i < values.len() ==> to_string_from_display_ensures::<T>(
            &values[i],
            #[trigger] cells@[i],
        )
}

impl<T: Copy + Display, const N: usize, const M: usize> Matrix<T, N, M> {
    /// The matrix as text: `N` lines, on each the `M` elements of the row as
    /// `T` displays them, every one between two spaces.
    pub fn to_text(&self) -> (s: String)
        ensures
            exists|cells: Vec<Vec<String>>| #[trigger]
                renders_grid(self@, &cells) && s@ == grid_text(grid_texts_of(&cells), N as nat),
    {
        let mut cells = Vec::<Vec<String>>::with_capacity(N);
        for i in 0..N
            invariant
                cells.len() == i,
                forall|r: int| 0 <= r < i ==> renders_list(self@[r], #[trigger] &cells@[r]),
        {
            let mut row = Vec::<String>::with_capacity(M);
            for j in 0..M
                invariant
                    i < N,
                    row.len() == j,
                    forall|c: int|
                        0 <= c < j ==> to_string_from_display_ensures::<T>(
                            &self@[i as int][c],
                            #[trigger] row@[c],
                        ),
            {
                let value = self.at(i, j);
                row.push(value.to_string());
            }
            cells.push(row);
        }
        let s = grid_to_text(&cells);
        assert(renders_grid(self@, &cells));
        s
    }
}

impl<T: Copy + Default + Display, const N: usize> Vector<T, N> {
    /// The vector as text: between square brackets the elements as `T`
    /// displays them, every one followed by a space.
    pub fn to_text(&self) -> (s: String)
        ensures
            exists|cells: Vec<String>| #[trigger]
                renders_list(self@, &cells) && s@ == list_text(texts_of(&cells)),
    {
        let mut cells = Vec::<String>::with_capacity(N);
        for i in 0..N
            invariant
                cells.len() == i,
                forall|c: int|
                    0 <= c < i ==> to_string_from_display_ensures::<T>(
                        &self@[c],
                        #[trigger] cells@[c],
                    ),
        {
            let value = self[i];
            cells.push(value.to_string());
        }
        let s = list_to_text(&cells);
        assert(renders_list(self@, &cells));
        s
    }
}

} // verus!
