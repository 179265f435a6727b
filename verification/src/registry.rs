//! The cell/station registry: four fixed, ordered cell lists, the station
//! each cell belongs to, and a cell's position within its station.
use crate::text::str_eq;
use vstd::prelude::*;

verus! {

broadcast use vstd::string::group_string_axioms;

/// The four logical lines, in their fixed order.
pub open spec fn lines() -> Seq<Seq<char>> {
    seq!["bst1"@, "bst2"@, "fst1"@, "fst2"@]
}

pub open spec fn lcdled_cells() -> Seq<Seq<char>> {
    seq!["CELL_81"@, "CELL_82"@, "CELL_83"@, "CELL_84"@, "CELL_85"@, "CELL_86"@]
}

pub open spec fn diag_cells() -> Seq<Seq<char>> {
    seq![
        "CELL_53"@,
        "CELL_55"@,
        "CELL_57"@,
        "CELL_59"@,
        "CELL_61"@,
        "CELL_63"@,
        "CELL_65"@,
        "CELL_67"@,
    ]
}

pub open spec fn keypad_cells() -> Seq<Seq<char>> {
    seq!["CELL_69"@, "CELL_71"@, "CELL_73"@, "CELL_75"@, "CELL_77"@, "CELL_79"@]
}

pub open spec fn bst_cells() -> Seq<Seq<char>> {
    seq![
        "BST_01:DUT_01"@,
        "BST_01:DUT_02"@,
        "BST_01:DUT_03"@,
        "BST_01:DUT_04"@,
        "BST_01:DUT_05"@,
        "BST_01:DUT_06"@,
        "BST_01:DUT_07"@,
        "BST_01:DUT_08"@,
    ]
}

/// The ordered cell list of a station; empty for an unknown station name.
pub open spec fn station_cells(station: Seq<char>) -> Seq<Seq<char>> {
    if station == "BST"@ {
        bst_cells()
    } else if station == "LCDLED"@ {
        lcdled_cells()
    } else if station == "DIAG"@ {
        diag_cells()
    } else if station == "KEYPAD"@ {
        keypad_cells()
    } else {
        Seq::empty()
    }
}

/// The station a cell belongs to, checking the four fixed lists in their
/// fixed order.
pub open spec fn spec_cell2station(cell: Seq<char>) -> Option<Seq<char>> {
    if lcdled_cells().contains(cell) {
        Some("LCDLED"@)
    } else if diag_cells().contains(cell) {
        Some("DIAG"@)
    } else if keypad_cells().contains(cell) {
        Some("KEYPAD"@)
    } else if bst_cells().contains(cell) {
        Some("BST"@)
    } else {
        None
    }
}

/// Whether one of the listed strings equals `x`.
pub fn contains_str(v: &Vec<&str>, x: &str) -> (r: bool)
    ensures
        r == v.deep_view().contains(x@),
{
    let n = v.len();
    let mut i: usize = 0;
    while i < n
        invariant
            i <= n,
            n == v@.len(),
            v.deep_view().len() == v@.len(),
            forall|j: int| 0 <= j < v@.len() ==> v.deep_view()[j] == (#[trigger] v@[j])@,
            forall|j: int| 0 <= j < i as int ==> v.deep_view()[j] != x@,
        decreases n - i,
    {
        if str_eq(v[i], x) {
            return true;
        }
        i += 1;
    }
    false
}

/// The ordered cell list of a station, as string slices.
pub fn get_cells(station: &str) -> (r: Vec<&'static str>)
    ensures
        r.deep_view() == station_cells(station@),
{
    let r: Vec<&'static str> = if str_eq(station, "BST") {
        vec![
            "BST_01:DUT_01",
            "BST_01:DUT_02",
            "BST_01:DUT_03",
            "BST_01:DUT_04",
            "BST_01:DUT_05",
            "BST_01:DUT_06",
            "BST_01:DUT_07",
            "BST_01:DUT_08",
        ]
    } else if str_eq(station, "LCDLED") {
        vec!["CELL_81", "CELL_82", "CELL_83", "CELL_84", "CELL_85", "CELL_86"]
    } else if str_eq(station, "DIAG") {
        vec![
            "CELL_53",
            "CELL_55",
            "CELL_57",
            "CELL_59",
            "CELL_61",
            "CELL_63",
            "CELL_65",
            "CELL_67",
        ]
    } else if str_eq(station, "KEYPAD") {
        vec!["CELL_69", "CELL_71", "CELL_73", "CELL_75", "CELL_77", "CELL_79"]
    } else {
        Vec::new()
    };
    proof {
        assert(r.deep_view() =~~= station_cells(station@));
    }
    r
}

/// The station a cell belongs to.
pub fn cell2station(cell: &str) -> (r: Option<&'static str>)
    ensures
        r is Some ==> spec_cell2station(cell@) == Some(r->Some_0@),
        r is None ==> spec_cell2station(cell@) is None,
{
    let lcdled = get_cells("LCDLED");
    let diag = get_cells("DIAG");
    let keypad = get_cells("KEYPAD");
    let bst = get_cells("BST");
    proof {
        reveal_strlit("LCDLED");
        reveal_strlit("DIAG");
        reveal_strlit("KEYPAD");
        reveal_strlit("BST");
        assert("LCDLED"@.len() == 6 && "DIAG"@.len() == 4 && "KEYPAD"@.len() == 6 && "BST"@.len()
            == 3);
        assert("LCDLED"@ != "BST"@ && "DIAG"@ != "BST"@ && "KEYPAD"@ != "BST"@);
        assert("LCDLED"@[0] == 'L' && "KEYPAD"@[0] == 'K' && "DIAG"@[0] == 'D');
        assert("LCDLED"@ != "DIAG"@ && "LCDLED"@ != "KEYPAD"@ && "DIAG"@ != "KEYPAD"@);
        assert(station_cells("LCDLED"@) == lcdled_cells());
        assert(station_cells("DIAG"@) == diag_cells());
        assert(station_cells("KEYPAD"@) == keypad_cells());
        assert(station_cells("BST"@) == bst_cells());
    }
    if contains_str(&lcdled, cell) {
        Some("LCDLED")
    } else if contains_str(&diag, cell) {
        Some("DIAG")
    } else if contains_str(&keypad, cell) {
        Some("KEYPAD")
    } else if contains_str(&bst, cell) {
        Some("BST")
    } else {
        None
    }
}

/// The position of a cell within its station's ordered cell list.
pub fn get_cell_index(cell: &str, station: &str) -> (r: usize)
    requires
        station_cells(station@).contains(cell@),
    ensures
        r < station_cells(station@).len(),
        station_cells(station@)[r as int] == cell@,
        forall|j: int| 0 <= j < r as int ==> station_cells(station@)[j] != cell@,
{
    let cells = get_cells(station);
    let n = cells.len();
    let mut i: usize = 0;
    while i < n
        invariant
            i <= n,
            n == cells@.len(),
            cells.deep_view() == station_cells(station@),
            cells.deep_view().len() == cells@.len(),
            forall|j: int| 0 <= j < cells@.len() ==> cells.deep_view()[j] == (#[trigger] cells@[j])@,
            station_cells(station@).contains(cell@),
            forall|j: int| 0 <= j < i as int ==> station_cells(station@)[j] != cell@,
        decreases n - i,
    {
        if str_eq(cells[i], cell) {
            return i;
        }
        i += 1;
    }
    proof {
        let w = choose|w: int| 0 <= w < station_cells(station@).len() && station_cells(station@)[w]
            == cell@;
        assert(false);
    }
    unreached()
}

} // verus!
