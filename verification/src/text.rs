//! The textual layout of a matrix whose entries are already rendered.

use vstd::prelude::*;
use vstd::string::*;

verus! {

/// The first `n` cells of a line, each followed by two spaces.
pub open spec fn line_text(cells: Seq<Seq<char>>, n: nat) -> Seq<char>
    decreases n,
{
    if n == 0 {
        Seq::empty()
    } else {
        line_text(cells, (n - 1) as nat) + cells[n - 1] + seq![' ', ' ']
    }
}

/// The first `n` rows, each laid out as a line and closed by a line feed.
pub open spec fn grid_text(rows: Seq<Seq<Seq<char>>>, n: nat) -> Seq<char>
    decreases n,
{
    if n == 0 {
        Seq::empty()
    } else {
        grid_text(rows, (n - 1) as nat) + line_text(rows[n - 1], rows[n - 1].len()) + seq!['\n']
    }
}

/// Lays out rendered entries as a block of text: one line per row, two
/// spaces after every entry, a line feed after every row.
pub fn render(cells: &Vec<Vec<String>>) -> (text: String)
    ensures
        text@ == grid_text(cells.deep_view(), cells.len() as nat),
{
    let ghost rows = cells.deep_view();
    let mut text = String::new();
    proof {
        reveal_strlit("  ");
        reveal_strlit("\n");
    }
    for i in 0..cells.len()
        invariant
            rows == cells.deep_view(),
            "  "@ == seq![' ', ' '],
            "\n"@ == seq!['\n'],
            text@ == grid_text(rows, i as nat),
    {
        let row = &cells[i];
        for j in 0..row.len()
            invariant
                rows == cells.deep_view(),
                0 <= i < cells.len(),
                rows[i as int] == row.deep_view(),
                "  "@ == seq![' ', ' '],
                text@ == grid_text(rows, i as nat) + line_text(rows[i as int], j as nat),
        {
            text.append(row[j].as_str());
            text.append("  ");
        }
        text.append("\n");
    }
    text
}

} // verus!
