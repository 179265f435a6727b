//! Request query parameters and their strict validation: the `YYYY-MM-DD`
//! date pattern restricted to the 2020s, the DAY/NIGHT shift words, cell
//! names, and serial-number normalization.
use crate::calendar::{DateShift, Shift};
use crate::registry::spec_cell2station;
use crate::registry::cell2station;
use crate::text::{digit_val, is_digit, str_eq};
use vstd::prelude::*;

verus! {

broadcast use vstd::string::group_string_axioms;

/// Whether a string matches the strict date pattern `202x-mm-dd`: a year in
/// the 2020s, a month `01`..`12`, and a day `01`..`31`.
pub open spec fn is_query_date(s: Seq<char>) -> bool {
    &&& s.len() == 10
    &&& s[0] == '2' && s[1] == '0' && s[2] == '2' && is_digit(s[3])
    &&& s[4] == '-'
    &&& is_digit(s[5]) && is_digit(s[6])
    &&& ((s[5] == '0' && s[6] != '0') || (s[5] == '1' && (s[6] == '0' || s[6] == '1' || s[6]
        == '2')))
    &&& s[7] == '-'
    &&& is_digit(s[8]) && is_digit(s[9])
    &&& ((s[8] == '0' && s[9] != '0') || s[8] == '1' || s[8] == '2' || (s[8] == '3' && (s[9] == '0'
        || s[9] == '1')))
}

pub open spec fn qd_year(s: Seq<char>) -> int {
    2020 + digit_val(s[3])
}

pub open spec fn qd_month(s: Seq<char>) -> int {
    10 * digit_val(s[5]) + digit_val(s[6])
}

pub open spec fn qd_day(s: Seq<char>) -> int {
    10 * digit_val(s[8]) + digit_val(s[9])
}

/// Decides whether a character is a decimal digit.
pub fn is_digit_char(c: char) -> (r: bool)
    ensures
        r == is_digit(c),
{
    let u = c as u32;
    48 <= u && u <= 57
}

/// Parses a strict query date into its numeric year, month and day; rejects
/// everything the pattern does not admit.
pub fn parse_query_date(s: &str) -> (r: Option<(i32, u32, u32)>)
    ensures
        is_query_date(s@) ==> r == Some(
            ((qd_year(s@) as i32, qd_month(s@) as u32, qd_day(s@) as u32)),
        ),
        !is_query_date(s@) ==> r is None,
{
    if s.unicode_len() != 10 {
        return None;
    }
    let c0 = s.get_char(0);
    let c1 = s.get_char(1);
    let c2 = s.get_char(2);
    let c3 = s.get_char(3);
    let c4 = s.get_char(4);
    let c5 = s.get_char(5);
    let c6 = s.get_char(6);
    let c7 = s.get_char(7);
    let c8 = s.get_char(8);
    let c9 = s.get_char(9);
    if !(c0 == '2' && c1 == '0' && c2 == '2' && is_digit_char(c3)) {
        return None;
    }
    if c4 != '-' {
        return None;
    }
    if !(is_digit_char(c5) && is_digit_char(c6)) {
        return None;
    }
    if !((c5 == '0' && c6 != '0') || (c5 == '1' && (c6 == '0' || c6 == '1' || c6 == '2'))) {
        return None;
    }
    if c7 != '-' {
        return None;
    }
    if !(is_digit_char(c8) && is_digit_char(c9)) {
        return None;
    }
    if !((c8 == '0' && c9 != '0') || c8 == '1' || c8 == '2' || (c8 == '3' && (c9 == '0' || c9
        == '1'))) {
        return None;
    }
    let year: i32 = 2020 + ((c3 as u32) - 48) as i32;
    let month: u32 = 10 * ((c5 as u32) - 48) + ((c6 as u32) - 48);
    let day: u32 = 10 * ((c8 as u32) - 48) + ((c9 as u32) - 48);
    Some((year, month, day))
}

/// The shift a request parameter names: the literal `DAY` or `NIGHT`.
pub open spec fn spec_shift_of_str(s: Seq<char>) -> Option<Shift> {
    if s == "DAY"@ {
        Some(Shift::Day)
    } else if s == "NIGHT"@ {
        Some(Shift::Night)
    } else {
        None
    }
}

/// Parses a shift parameter word.
pub fn shift_of_str(s: &str) -> (r: Option<Shift>)
    ensures
        r == spec_shift_of_str(s@),
{
    if str_eq(s, "DAY") {
        Some(Shift::Day)
    } else if str_eq(s, "NIGHT") {
        Some(Shift::Night)
    } else {
        None
    }
}

/// The date+shift query parameters of the reporting pages.
pub struct QueryDateParams {
    pub querydate: Option<String>,
    pub shift: Option<String>,
}

impl QueryDateParams {
    /// The window the parameters name, when the shift is a literal `DAY` or
    /// `NIGHT` and the date matches the strict pattern.
    pub open spec fn spec_des(&self) -> Option<DateShift> {
        if self.shift is Some && spec_shift_of_str(self.shift->0@) is Some && self.querydate
            is Some && is_query_date(self.querydate->0@) {
            Some(
                DateShift(
                    qd_year(self.querydate->0@) as i32,
                    qd_month(self.querydate->0@) as u32,
                    qd_day(self.querydate->0@) as u32,
                    spec_shift_of_str(self.shift->0@)->0,
                ),
            )
        } else {
            None
        }
    }

    /// Decodes the parameters into a window, or nothing when either is
    /// absent or malformed.
    pub fn des(&self) -> (r: Option<DateShift>)
        ensures
            r == self.spec_des(),
    {
        let shift = match &self.shift {
            Some(s) => {
                match shift_of_str(s.as_str()) {
                    Some(sh) => sh,
                    None => {
                        return None;
                    },
                }
            },
            None => {
                return None;
            },
        };
        match &self.querydate {
            Some(date) => {
                match parse_query_date(date.as_str()) {
                    Some((y, m, d)) => Some(DateShift(y, m, d, shift)),
                    None => None,
                }
            },
            None => None,
        }
    }

    /// Whether the parameters are well-formed: a date matching the strict
    /// pattern together with a literal `DAY` or `NIGHT` shift word.
    pub fn valid(&self) -> (r: bool)
        ensures
            r == (self.querydate is Some && is_query_date(self.querydate->0@) && self.shift
                is Some && (self.shift->0@ == "DAY"@ || self.shift->0@ == "NIGHT"@)),
    {
        let flag1: bool = match &self.querydate {
            Some(querydate) => parse_query_date(querydate.as_str()).is_some(),
            None => false,
        };
        let flag2: bool = match &self.shift {
            Some(shift) => str_eq(shift.as_str(), "DAY") || str_eq(shift.as_str(), "NIGHT"),
            None => false,
        };
        flag1 && flag2
    }
}

/// The cell query parameter of the per-cell record page.
pub struct QueryCellParams {
    pub cell: Option<String>,
}

impl QueryCellParams {
    /// Whether a cell was given and names a cell of some station.
    pub fn valid(&self) -> (r: bool)
        ensures
            r == (self.cell is Some && spec_cell2station(self.cell->0@) is Some),
    {
        match &self.cell {
            Some(cell) => cell2station(cell.as_str()).is_some(),
            None => false,
        }
    }
}

/// The serial-number query parameter of the history page.
pub struct QuerySnParams {
    pub sn: Option<String>,
}

/// What `str::trim` returns for a string, named: it depends on the
/// characters alone.
pub uninterp spec fn trimmed(s: Seq<char>) -> Seq<char>;

/// Relies on `str::trim`: removes leading and trailing whitespace, so the
/// result is a function of the characters alone, no longer than the input,
/// and empty input stays empty.
#[verifier::external_body]
fn trim_str(s: &str) -> (r: &str)
    ensures
        r@ == trimmed(s@),
        r@.len() <= s@.len(),
        s@.len() == 0 ==> r@.len() == 0,
{
    s.trim()
}

/// What `str::to_uppercase` returns for a string, named: it depends on the
/// characters alone.
pub uninterp spec fn uppercased(s: Seq<char>) -> Seq<char>;

/// Relies on `str::to_uppercase`: Unicode uppercasing, a function of the
/// characters alone; empty input stays empty.
#[verifier::external_body]
fn upper_str(s: &str) -> (r: String)
    ensures
        r@ == uppercased(s@),
        s@.len() == 0 ==> r@.len() == 0,
{
    s.to_uppercase()
}

/// Whether a serial is exactly eleven characters of `A`-`Z` or `0`-`9`.
pub open spec fn is_sn_pattern(s: Seq<char>) -> bool {
    s.len() == 11 && forall|i: int|
        0 <= i < 11 ==> ('A' <= #[trigger] s[i] <= 'Z' || '0' <= s[i] <= '9')
}

/// Decides the serial pattern.
pub fn sn_pattern(s: &str) -> (r: bool)
    ensures
        r == is_sn_pattern(s@),
{
    let n = s.unicode_len();
    if n != 11 {
        return false;
    }
    let mut i: usize = 0;
    while i < 11
        invariant
            i <= 11,
            s@.len() == 11,
            forall|j: int| 0 <= j < i as int ==> ('A' <= #[trigger] s@[j] <= 'Z' || '0' <= s@[j]
                <= '9'),
        decreases 11 - i,
    {
        let c = s.get_char(i);
        let u = c as u32;
        if !((65 <= u && u <= 90) || (48 <= u && u <= 57)) {
            return false;
        }
        i += 1;
    }
    true
}

/// The acceptance test applied to a normalized serial: exactly eleven
/// characters of `A`-`Z` or `0`-`9`, and neither of the two placeholder
/// serials the record source writes for non-serialized units.
pub open spec fn spec_sn_accepted(sn: Seq<char>) -> bool {
    is_sn_pattern(sn) && sn != "FCH11111111"@ && sn != "FCH12345678"@
}

/// Normalizes a raw serial parameter (trimmed, uppercased) and applies the
/// acceptance test.
pub fn normalize_sn(raw: &str) -> (r: Option<String>)
    ensures
        r is Some ==> r->0@ == uppercased(trimmed(raw@)) && spec_sn_accepted(
            uppercased(trimmed(raw@)),
        ),
        r is None ==> !spec_sn_accepted(uppercased(trimmed(raw@))),
{
    let t = trim_str(raw);
    let sn = upper_str(t);
    let ok = sn_pattern(sn.as_str());
    if ok && !str_eq(sn.as_str(), "FCH11111111") && !str_eq(sn.as_str(), "FCH12345678") {
        Some(sn)
    } else {
        None
    }
}

} // verus!
