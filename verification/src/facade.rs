//! The query façade's pure parts: mapping a logical line to its physical
//! instance digit and building the legacy composite cell key under which
//! the record source stores each cell's rows.
use crate::registry::{get_cells, lines, station_cells};
use crate::text::str_eq;
use vstd::prelude::*;

verus! {

broadcast use vstd::string::group_string_axioms;

/// Whether a logical line is one of the two FST instances.
pub open spec fn is_fst_line(line: Seq<char>) -> bool {
    line == "fst1"@ || line == "fst2"@
}

/// The physical instance digit of a line: `2` for the second FST instance,
/// `1` otherwise.
pub open spec fn line_digit(line: Seq<char>) -> Seq<char> {
    if line == "fst2"@ {
        "2"@
    } else {
        "1"@
    }
}

/// The composite key the record source stores for a cell, in its legacy
/// format `<source>|<area>|<station>-<instance>|<cell>`.
pub open spec fn legacy_cell_key(line: Seq<char>, station: Seq<char>, cell: Seq<char>) -> Seq<
    char,
> {
    if is_fst_line(line) {
        "Bgibest Auto FST "@ + line_digit(line) + "|PCBINT|"@ + station + "-"@ + line_digit(line)
            + "|"@ + cell
    } else {
        "UCEBU Automatic BST New|PCBDG|"@ + station + "-01|"@ + cell
    }
}

/// Builds the legacy composite key for one cell of a station on a line.
pub fn cell_key(line: &str, station: &str, cell: &str) -> (r: String)
    ensures
        r@ == legacy_cell_key(line@, station@, cell@),
{
    let fst = str_eq(line, "fst1") || str_eq(line, "fst2");
    if fst {
        let digit = if str_eq(line, "fst2") {
            "2"
        } else {
            "1"
        };
        let mut s = String::new();
        s.append("Bgibest Auto FST ");
        s.append(digit);
        s.append("|PCBINT|");
        s.append(station);
        s.append("-");
        s.append(digit);
        s.append("|");
        s.append(cell);
        proof {
            assert(s@ =~= legacy_cell_key(line@, station@, cell@));
        }
        s
    } else {
        let mut s = String::new();
        s.append("UCEBU Automatic BST New|PCBDG|");
        s.append(station);
        s.append("-01|");
        s.append(cell);
        proof {
            assert(s@ =~= legacy_cell_key(line@, station@, cell@));
        }
        s
    }
}

/// The legacy composite keys of every cell of a station, in registry order.
pub fn station_cell_keys(line: &str, station: &str) -> (r: Vec<String>)
    ensures
        r@.len() == station_cells(station@).len(),
        forall|i: int| 0 <= i < r@.len() ==> (#[trigger] r@[i])@ == legacy_cell_key(
            line@,
            station@,
            station_cells(station@)[i],
        ),
{
    let cells = get_cells(station);
    let n = cells.len();
    let mut r: Vec<String> = Vec::new();
    let mut i: usize = 0;
    while i < n
        invariant
            i <= n,
            n == cells@.len(),
            cells.deep_view() == station_cells(station@),
            cells.deep_view().len() == cells@.len(),
            forall|j: int| 0 <= j < cells@.len() ==> cells.deep_view()[j] == (#[trigger] cells@[j])@,
            r@.len() == i as int,
            forall|j: int| 0 <= j < i as int ==> (#[trigger] r@[j])@ == legacy_cell_key(
                line@,
                station@,
                station_cells(station@)[j],
            ),
        decreases n - i,
    {
        r.push(cell_key(line, station, cells[i]));
        i += 1;
    }
    r
}

/// Extracting the displayed cell id from a legacy composite key gives back
/// exactly the cell the key was built for, for any cell id free of `|`:
/// key construction and cell extraction are inverse.
pub proof fn lemma_cell_key_roundtrip(line: Seq<char>, station: Seq<char>, cell: Seq<char>)
    requires
        forall|i: int| 0 <= i < cell.len() ==> cell[i] != '|',
    ensures
        crate::tally::cell_of(legacy_cell_key(line, station, cell)) == cell,
{
    reveal_strlit("|");
    reveal_strlit("-01|");
    assert("|"@.len() == 1 && "|"@[0] == '|');
    assert("-01|"@.len() == 4 && "-01|"@[3] == '|');
    if is_fst_line(line) {
        let head = "Bgibest Auto FST "@ + line_digit(line) + "|PCBINT|"@ + station + "-"@
            + line_digit(line) + "|"@;
        assert(head.last() == '|');
        assert(legacy_cell_key(line, station, cell) =~= head + cell);
        crate::tally::lemma_after_last_bar_append(head, cell);
    } else {
        let head = "UCEBU Automatic BST New|PCBDG|"@ + station + "-01|"@;
        assert(head.last() == '|');
        assert(legacy_cell_key(line, station, cell) =~= head + cell);
        crate::tally::lemma_after_last_bar_append(head, cell);
    }
}

/// Whether a string names one of the four logical lines.
pub fn is_line(line: &str) -> (r: bool)
    ensures
        r == lines().contains(line@),
{
    let r = str_eq(line, "bst1") || str_eq(line, "bst2") || str_eq(line, "fst1") || str_eq(
        line,
        "fst2",
    );
    proof {
        if lines().contains(line@) {
            let w = choose|w: int| 0 <= w < lines().len() && lines()[w] == line@;
        }
    }
    r
}

} // verus!
