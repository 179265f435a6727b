//! The record aggregator: counts raw test records by result code, buckets
//! them into the twelve hour slots of a shift plus a SUM row, builds the
//! per-cell pass/fail matrix, and normalizes the fields that are surfaced
//! raw (serial-number redaction, composite-key cell extraction).
use crate::registry::{get_cell_index, station_cells};
use crate::text::{dec_str, digit_char, digit_str, str_eq, u64_to_string};
use vstd::prelude::*;

verus! {

broadcast use vstd::string::group_string_axioms;

/// One raw test-record row, as the query layer hands it over.
pub struct RawRow {
    pub beijing_str: String,
    pub sn: String,
    pub pid: String,
    pub pn: String,
    pub result: String,
    pub cell: String,
    pub msg: String,
    pub msg_detail: String,
}

/// A serial number after redaction: the record source writes one of two
/// placeholder serials on non-serialized units; those render empty, all
/// others pass through unchanged.
pub open spec fn spec_redact_sn(s: Seq<char>) -> Seq<char> {
    if s == "FCH11111111"@ || s == "FCH12345678"@ {
        Seq::empty()
    } else {
        s
    }
}

/// Blanks the two placeholder serial numbers.
pub fn redact_sn(sn: String) -> (r: String)
    ensures
        r@ == spec_redact_sn(sn@),
{
    if str_eq(sn.as_str(), "FCH11111111") || str_eq(sn.as_str(), "FCH12345678") {
        String::new()
    } else {
        sn
    }
}

/// The index just past the last `|` of a key; 0 when it has none.
pub open spec fn after_last_bar(s: Seq<char>) -> int
    decreases s.len(),
{
    if s.len() == 0 {
        0
    } else if s.last() == '|' {
        s.len() as int
    } else {
        after_last_bar(s.drop_last())
    }
}

/// The displayed cell id: the part of the composite key after its last `|`,
/// or the whole key when it has none.
pub open spec fn cell_of(s: Seq<char>) -> Seq<char> {
    s.subrange(after_last_bar(s), s.len() as int)
}

/// Appending a `|`-free tail to a string that ends in `|` leaves the
/// position after the last `|` at the tail's start.
pub proof fn lemma_after_last_bar_append(a: Seq<char>, c: Seq<char>)
    requires
        a.len() > 0,
        a.last() == '|',
        forall|i: int| 0 <= i < c.len() ==> c[i] != '|',
    ensures
        after_last_bar(a + c) == a.len(),
        cell_of(a + c) == c,
    decreases c.len(),
{
    if c.len() == 0 {
        assert(a + c =~= a);
    } else {
        assert((a + c).last() == c.last());
        assert((a + c).drop_last() =~= a + c.drop_last());
        assert forall|i: int| 0 <= i < c.drop_last().len() implies c.drop_last()[i] != '|' by {
            assert(c.drop_last()[i] == c[i]);
        }
        lemma_after_last_bar_append(a, c.drop_last());
    }
    assert((a + c).subrange(a.len() as int, (a + c).len() as int) =~= c);
}

/// Extracts the displayed cell id from a composite key.
pub fn extract_cell(s: &str) -> (r: String)
    ensures
        r@ == cell_of(s@),
{
    let n = s.unicode_len();
    let mut i: usize = 0;
    let mut cut: usize = 0;
    proof {
        assert(s@.subrange(0, 0) =~= Seq::<char>::empty());
    }
    while i < n
        invariant
            i <= n,
            n == s@.len(),
            cut <= i,
            cut as int == after_last_bar(s@.subrange(0, i as int)),
        decreases n - i,
    {
        proof {
            assert(s@.subrange(0, i + 1).drop_last() =~= s@.subrange(0, i as int));
            assert(s@.subrange(0, i + 1).last() == s@[i as int]);
        }
        if s.get_char(i) == '|' {
            cut = i + 1;
        }
        i += 1;
    }
    proof {
        assert(s@.subrange(0, n as int) =~= s@);
    }
    let tail = s.substring_char(cut, n);
    tail.to_owned()
}

/// The template filter that blanks a bare `0`.
pub open spec fn spec_zero2space(s: Seq<char>) -> Seq<char> {
    if s == "0"@ {
        Seq::empty()
    } else {
        s
    }
}

/// Blanks a rendered count of exactly `0`.
pub fn zero2space(s: &str) -> (r: String)
    ensures
        r@ == spec_zero2space(s@),
{
    if str_eq(s, "0") {
        String::new()
    } else {
        s.to_owned()
    }
}

/// The four result codes are pairwise distinct strings.
pub proof fn lemma_codes_distinct()
    ensures
        "S"@ != "P"@,
        "S"@ != "F"@,
        "S"@ != "U"@,
        "P"@ != "F"@,
        "P"@ != "U"@,
        "F"@ != "U"@,
{
    reveal_strlit("S");
    reveal_strlit("P");
    reveal_strlit("F");
    reveal_strlit("U");
    assert("S"@.len() == 1 && "P"@.len() == 1 && "F"@.len() == 1 && "U"@.len() == 1);
    assert("S"@[0] == 'S' && "P"@[0] == 'P' && "F"@[0] == 'F' && "U"@[0] == 'U');
}

/// The yield ratio in tenths of a percent, rounded to nearest, half away
/// from zero: `1000 * fail / skip` rounded.
pub open spec fn percent_tenths(fail: int, skip: int) -> int {
    (2000 * fail + skip) / (2 * skip)
}

/// The yield string: the ratio to one decimal place with a ` %` suffix.
pub open spec fn yield_str(fail: int, skip: int) -> Seq<char> {
    dec_str(percent_tenths(fail, skip) / 10) + "."@ + seq![
        digit_char(percent_tenths(fail, skip) % 10),
    ] + " %"@
}

/// Renders `100 * fail / skip` to one decimal place, with a ` %` suffix.
pub fn percent_str(fail: u16, skip: u16) -> (r: String)
    requires
        skip > 0,
    ensures
        r@ == yield_str(fail as int, skip as int),
{
    let t: u64 = (2000 * (fail as u64) + (skip as u64)) / (2 * (skip as u64));
    let mut s = u64_to_string(t / 10);
    s.append(".");
    s.append(digit_str(t % 10));
    s.append(" %");
    proof {
        reveal_strlit(".");
        reveal_strlit(" %");
        assert(" %"@.len() == 2);
        assert(s@ =~= yield_str(fail as int, skip as int));
    }
    s
}

/// The count a grouped `(result, count)` result set reports for a code: the
/// last row with that code wins, 0 when the code does not occur (later rows
/// overwrite earlier ones, as the row reader does).
pub open spec fn last_count(rows: Seq<(String, u16)>, code: Seq<char>) -> int
    decreases rows.len(),
{
    if rows.len() == 0 {
        0
    } else if rows.last().0@ == code {
        rows.last().1 as int
    } else {
        last_count(rows.drop_last(), code)
    }
}

/// One station cell's tally from grouped `(result, count)` rows: the skip,
/// pass, fail and unknown counts, and the yield string. The yield string is
/// rendered only when both the skip and the fail count are nonzero, and its
/// ratio is `100 * fail / skip`: a deliberate quirk of this report, kept
/// exactly as its consumers expect it.
pub fn rows_to_station_yield<'a>(cell_name: &'a str, rows: &Vec<(String, u16)>) -> (r: (
    &'a str,
    u16,
    u16,
    u16,
    u16,
    String,
))
    ensures
        r.0@ == cell_name@,
        r.1 as int == last_count(rows@, "S"@),
        r.2 as int == last_count(rows@, "P"@),
        r.3 as int == last_count(rows@, "F"@),
        r.4 as int == last_count(rows@, "U"@),
        r.1 != 0 && r.3 != 0 ==> r.5@ == yield_str(r.3 as int, r.1 as int),
        r.1 == 0 || r.3 == 0 ==> r.5@ == Seq::<char>::empty(),
{
    proof {
        lemma_codes_distinct();
    }
    let n = rows.len();
    let mut s: u16 = 0;
    let mut p: u16 = 0;
    let mut f: u16 = 0;
    let mut u: u16 = 0;
    let mut i: usize = 0;
    proof {
        assert(rows@.subrange(0, 0) =~= Seq::<(String, u16)>::empty());
    }
    while i < n
        invariant
            i <= n,
            n == rows@.len(),
            s as int == last_count(rows@.subrange(0, i as int), "S"@),
            p as int == last_count(rows@.subrange(0, i as int), "P"@),
            f as int == last_count(rows@.subrange(0, i as int), "F"@),
            u as int == last_count(rows@.subrange(0, i as int), "U"@),
            "S"@ != "P"@ && "S"@ != "F"@ && "S"@ != "U"@ && "P"@ != "F"@ && "P"@ != "U"@ && "F"@
                != "U"@,
        decreases n - i,
    {
        let row = &rows[i];
        let q = row.1;
        proof {
            assert(rows@.subrange(0, i + 1).drop_last() =~= rows@.subrange(0, i as int));
            assert(rows@.subrange(0, i + 1).last() == rows@[i as int]);
        }
        if str_eq(row.0.as_str(), "S") {
            s = q;
        } else if str_eq(row.0.as_str(), "P") {
            p = q;
        } else if str_eq(row.0.as_str(), "F") {
            f = q;
        } else if str_eq(row.0.as_str(), "U") {
            u = q;
        }
        i += 1;
    }
    proof {
        assert(rows@.subrange(0, n as int) =~= rows@);
    }
    let ys = if s != 0 && f != 0 {
        percent_str(f, s)
    } else {
        String::new()
    };
    (cell_name, s, p, f, u, ys)
}

/// Whether an epoch second falls in a half-open bucket.
pub open spec fn in_span(b: (u32, u32), ts: int) -> bool {
    b.0 as int <= ts < b.1 as int
}

pub open spec fn has_bucket(bs: Seq<(u32, u32)>, ts: int) -> bool {
    exists|i: int| 0 <= i < bs.len() && in_span(#[trigger] bs[i], ts)
}

/// Whether bucket `i` is the one a timestamp is assigned to: the first
/// bucket that contains it.
pub open spec fn assigned_to(bs: Seq<(u32, u32)>, ts: int, i: int) -> bool {
    0 <= i < bs.len() && in_span(bs[i], ts) && forall|j: int|
        0 <= j < i ==> !in_span(#[trigger] bs[j], ts)
}

proof fn lemma_assigned_exists_from(bs: Seq<(u32, u32)>, ts: int, w: int)
    requires
        0 <= w < bs.len(),
        in_span(bs[w], ts),
    ensures
        exists|i: int| #[trigger] assigned_to(bs, ts, i),
    decreases w,
{
    if forall|j: int| 0 <= j < w ==> !in_span(#[trigger] bs[j], ts) {
        assert(assigned_to(bs, ts, w));
    } else {
        let j = choose|j: int| 0 <= j < w && in_span(#[trigger] bs[j], ts);
        lemma_assigned_exists_from(bs, ts, j);
    }
}

/// A timestamp that falls in some bucket is assigned to exactly one.
pub proof fn lemma_assigned_exists(bs: Seq<(u32, u32)>, ts: int)
    requires
        has_bucket(bs, ts),
    ensures
        exists|i: int| #[trigger] assigned_to(bs, ts, i),
{
    let w = choose|w: int| 0 <= w < bs.len() && in_span(#[trigger] bs[w], ts);
    lemma_assigned_exists_from(bs, ts, w);
}

pub proof fn lemma_assigned_unique(bs: Seq<(u32, u32)>, ts: int, i: int, j: int)
    requires
        assigned_to(bs, ts, i),
        assigned_to(bs, ts, j),
    ensures
        i == j,
{
    if i < j {
        assert(!in_span(bs[i], ts));
    } else if j < i {
        assert(!in_span(bs[j], ts));
    }
}

/// The first bucket of the list that contains the timestamp. The caller
/// must only pass timestamps inside the window the buckets tile.
pub fn get_index(ts_per_hour: &Vec<(u32, u32)>, ts: u32) -> (r: usize)
    requires
        has_bucket(ts_per_hour@, ts as int),
    ensures
        assigned_to(ts_per_hour@, ts as int, r as int),
{
    let n = ts_per_hour.len();
    let mut i: usize = 0;
    while i < n
        invariant
            i <= n,
            n == ts_per_hour@.len(),
            has_bucket(ts_per_hour@, ts as int),
            forall|j: int| 0 <= j < i as int ==> !in_span(#[trigger] ts_per_hour@[j], ts as int),
        decreases n - i,
    {
        let x = ts_per_hour[i];
        if x.0 <= ts && ts < x.1 {
            return i;
        }
        i += 1;
    }
    proof {
        let w = choose|w: int|
            0 <= w < ts_per_hour@.len() && in_span(#[trigger] ts_per_hour@[w], ts as int);
        assert(false);
    }
    unreached()
}

/// Rows of a set carrying a result code.
pub open spec fn count_code(rows: Seq<(String, u32)>, code: Seq<char>) -> int
    decreases rows.len(),
{
    if rows.len() == 0 {
        0
    } else {
        count_code(rows.drop_last(), code) + if rows.last().0@ == code {
            1int
        } else {
            0
        }
    }
}

/// Rows of a set carrying a result code and assigned to hour bucket `i`.
pub open spec fn count_code_bucket(
    rows: Seq<(String, u32)>,
    code: Seq<char>,
    bs: Seq<(u32, u32)>,
    i: int,
) -> int
    decreases rows.len(),
{
    if rows.len() == 0 {
        0
    } else {
        count_code_bucket(rows.drop_last(), code, bs, i) + if rows.last().0@ == code
            && assigned_to(bs, rows.last().1 as int, i) {
            1int
        } else {
            0
        }
    }
}

proof fn lemma_push_counts(
    rows: Seq<(String, u32)>,
    row: (String, u32),
    code: Seq<char>,
    bs: Seq<(u32, u32)>,
)
    ensures
        count_code(rows.push(row), code) == count_code(rows, code) + if row.0@ == code {
            1int
        } else {
            0
        },
        forall|i: int| #[trigger]
            count_code_bucket(rows.push(row), code, bs, i) == count_code_bucket(rows, code, bs, i)
                + if row.0@ == code && assigned_to(bs, row.1 as int, i) {
                1int
            } else {
                0
            },
{
    assert(rows.push(row).drop_last() =~= rows);
    assert(rows.push(row).last() == row);
}

/// The counts of one code: the running invariant of the bucketing loop.
pub open spec fn tally_inv(
    rows: Seq<(String, u32)>,
    bs: Seq<(u32, u32)>,
    cnt: Seq<u16>,
    code: Seq<char>,
) -> bool {
    &&& cnt.len() == 13
    &&& forall|i: int| 0 <= i < 12 ==> (#[trigger] cnt[i]) as int == count_code_bucket(
        rows,
        code,
        bs,
        i,
    )
    &&& cnt[12] as int == count_code(rows, code)
    &&& forall|i: int| 0 <= i < 13 ==> (#[trigger] cnt[i]) as int <= rows.len()
}

/// Buckets windowed rows into 13 tally rows: one per hour slot, and a
/// trailing SUM row counting the whole window, each labelled with the given
/// hour label. Every row's timestamp must fall inside one of the buckets:
/// the caller only passes rows the query already restricted to the window.
pub fn row_to_yield(
    rows: &Vec<(String, u32)>,
    ts_per_hour: &Vec<(u32, u32)>,
    hours_str: &Vec<String>,
) -> (r: Vec<(String, u16, u16, u16, u16)>)
    requires
        ts_per_hour@.len() == 12,
        hours_str@.len() >= 13,
        rows@.len() <= 65535,
        forall|k: int|
            0 <= k < rows@.len() ==> has_bucket(ts_per_hour@, (#[trigger] rows@[k]).1 as int),
    ensures
        r@.len() == 13,
        forall|i: int| 0 <= i < 13 ==> (#[trigger] r@[i]).0@ == hours_str@[i]@,
        forall|i: int|
            0 <= i < 12 ==> {
                &&& (#[trigger] r@[i]).1 as int == count_code_bucket(rows@, "S"@, ts_per_hour@, i)
                &&& r@[i].2 as int == count_code_bucket(rows@, "P"@, ts_per_hour@, i)
                &&& r@[i].3 as int == count_code_bucket(rows@, "F"@, ts_per_hour@, i)
                &&& r@[i].4 as int == count_code_bucket(rows@, "U"@, ts_per_hour@, i)
            },
        r@[12].1 as int == count_code(rows@, "S"@),
        r@[12].2 as int == count_code(rows@, "P"@),
        r@[12].3 as int == count_code(rows@, "F"@),
        r@[12].4 as int == count_code(rows@, "U"@),
{
    proof {
        lemma_codes_distinct();
    }
    let mut s_cnt: Vec<u16> = Vec::new();
    let mut p_cnt: Vec<u16> = Vec::new();
    let mut f_cnt: Vec<u16> = Vec::new();
    let mut u_cnt: Vec<u16> = Vec::new();
    let mut t: usize = 0;
    while t < 13
        invariant
            t <= 13,
            s_cnt@.len() == t as int,
            p_cnt@.len() == t as int,
            f_cnt@.len() == t as int,
            u_cnt@.len() == t as int,
            forall|i: int| 0 <= i < t as int ==> (#[trigger] s_cnt@[i]) == 0u16,
            forall|i: int| 0 <= i < t as int ==> (#[trigger] p_cnt@[i]) == 0u16,
            forall|i: int| 0 <= i < t as int ==> (#[trigger] f_cnt@[i]) == 0u16,
            forall|i: int| 0 <= i < t as int ==> (#[trigger] u_cnt@[i]) == 0u16,
        decreases 13 - t,
    {
        s_cnt.push(0);
        p_cnt.push(0);
        f_cnt.push(0);
        u_cnt.push(0);
        t += 1;
    }
    let n = rows.len();
    let mut k: usize = 0;
    proof {
        assert(rows@.subrange(0, 0) =~= Seq::<(String, u32)>::empty());
    }
    while k < n
        invariant
            k <= n,
            n == rows@.len(),
            n <= 65535,
            ts_per_hour@.len() == 12,
            forall|j: int|
                0 <= j < rows@.len() ==> has_bucket(ts_per_hour@, (#[trigger] rows@[j]).1 as int),
            tally_inv(rows@.subrange(0, k as int), ts_per_hour@, s_cnt@, "S"@),
            tally_inv(rows@.subrange(0, k as int), ts_per_hour@, p_cnt@, "P"@),
            tally_inv(rows@.subrange(0, k as int), ts_per_hour@, f_cnt@, "F"@),
            tally_inv(rows@.subrange(0, k as int), ts_per_hour@, u_cnt@, "U"@),
            "S"@ != "P"@ && "S"@ != "F"@ && "S"@ != "U"@ && "P"@ != "F"@ && "P"@ != "U"@ && "F"@
                != "U"@,
        decreases n - k,
    {
        let ghost prefix = rows@.subrange(0, k as int);
        let row = &rows[k];
        let idx = get_index(ts_per_hour, row.1);
        proof {
            assert(rows@.subrange(0, k + 1) =~= prefix.push(rows@[k as int]));
            lemma_push_counts(prefix, rows@[k as int], "S"@, ts_per_hour@);
            lemma_push_counts(prefix, rows@[k as int], "P"@, ts_per_hour@);
            lemma_push_counts(prefix, rows@[k as int], "F"@, ts_per_hour@);
            lemma_push_counts(prefix, rows@[k as int], "U"@, ts_per_hour@);
            assert forall|i: int| 0 <= i < 12 && i != idx as int implies !assigned_to(
                ts_per_hour@,
                rows@[k as int].1 as int,
                i,
            ) by {
                if assigned_to(ts_per_hour@, rows@[k as int].1 as int, i) {
                    lemma_assigned_unique(
                        ts_per_hour@,
                        rows@[k as int].1 as int,
                        i,
                        idx as int,
                    );
                }
            }
        }
        if str_eq(row.0.as_str(), "S") {
            let v = s_cnt[idx];
            s_cnt.set(idx, v + 1);
            let w = s_cnt[12];
            s_cnt.set(12, w + 1);
        } else if str_eq(row.0.as_str(), "P") {
            let v = p_cnt[idx];
            p_cnt.set(idx, v + 1);
            let w = p_cnt[12];
            p_cnt.set(12, w + 1);
        } else if str_eq(row.0.as_str(), "F") {
            let v = f_cnt[idx];
            f_cnt.set(idx, v + 1);
            let w = f_cnt[12];
            f_cnt.set(12, w + 1);
        } else if str_eq(row.0.as_str(), "U") {
            let v = u_cnt[idx];
            u_cnt.set(idx, v + 1);
            let w = u_cnt[12];
            u_cnt.set(12, w + 1);
        }
        k += 1;
    }
    proof {
        assert(rows@.subrange(0, n as int) =~= rows@);
    }
    let mut r: Vec<(String, u16, u16, u16, u16)> = Vec::new();
    let mut i: usize = 0;
    while i < 13
        invariant
            i <= 13,
            r@.len() == i as int,
            hours_str@.len() >= 13,
            s_cnt@.len() == 13,
            p_cnt@.len() == 13,
            f_cnt@.len() == 13,
            u_cnt@.len() == 13,
            forall|j: int|
                0 <= j < i as int ==> {
                    &&& (#[trigger] r@[j]).0@ == hours_str@[j]@
                    &&& r@[j].1 == s_cnt@[j]
                    &&& r@[j].2 == p_cnt@[j]
                    &&& r@[j].3 == f_cnt@[j]
                    &&& r@[j].4 == u_cnt@[j]
                },
        decreases 13 - i,
    {
        r.push((hours_str[i].clone(), s_cnt[i], p_cnt[i], f_cnt[i], u_cnt[i]));
        i += 1;
    }
    r
}

/// The first index of `x` in `s`, or the length of `s` when absent.
pub open spec fn first_index(s: Seq<Seq<char>>, x: Seq<char>) -> int
    decreases s.len(),
{
    if s.len() == 0 {
        0
    } else if s[0] == x {
        0
    } else {
        1 + first_index(s.drop_first(), x)
    }
}

/// An index that holds `x` with no earlier occurrence is the first index.
pub proof fn lemma_first_index_of(s: Seq<Seq<char>>, x: Seq<char>, r: int)
    requires
        0 <= r < s.len(),
        s[r] == x,
        forall|j: int| 0 <= j < r ==> s[j] != x,
    ensures
        first_index(s, x) == r,
    decreases r,
{
    if s[0] == x {
        assert(r == 0);
    } else {
        assert(s.drop_first()[r - 1] == x);
        assert forall|j: int| 0 <= j < r - 1 implies s.drop_first()[j] != x by {
            assert(s.drop_first()[j] == s[j + 1]);
        }
        lemma_first_index_of(s.drop_first(), x, r - 1);
    }
}

/// Every station's cell list holds at most eight cells.
pub proof fn lemma_station_cells_len(station: Seq<char>)
    ensures
        station_cells(station).len() <= 8,
{
}

/// Whether a row lands in matrix row `i`: its hour bucket, or any for the
/// SUM row 12.
pub open spec fn slot_ok(bs: Seq<(u32, u32)>, ts: int, i: int) -> bool {
    if i == 12 {
        true
    } else {
        assigned_to(bs, ts, i)
    }
}

/// Whether a row lands in matrix column `j`: its cell's registry position
/// is `j - 1`, or any cell for the row-total column 0.
pub open spec fn col_ok(station: Seq<char>, key: Seq<char>, j: int) -> bool {
    if j == 0 {
        true
    } else {
        first_index(station_cells(station), cell_of(key)) == j - 1
    }
}

/// Rows `(result, timestamp, composite key)` with the result code that land
/// in matrix slot `(i, j)`.
pub open spec fn pf_count(
    rows: Seq<(String, u32, String)>,
    code: Seq<char>,
    bs: Seq<(u32, u32)>,
    station: Seq<char>,
    i: int,
    j: int,
) -> int
    decreases rows.len(),
{
    if rows.len() == 0 {
        0
    } else {
        pf_count(rows.drop_last(), code, bs, station, i, j) + if rows.last().0@ == code && slot_ok(
            bs,
            rows.last().1 as int,
            i,
        ) && col_ok(station, rows.last().2@, j) {
            1int
        } else {
            0
        }
    }
}

proof fn lemma_pf_push(
    rows: Seq<(String, u32, String)>,
    row: (String, u32, String),
    code: Seq<char>,
    bs: Seq<(u32, u32)>,
    station: Seq<char>,
)
    ensures
        forall|i: int, j: int| #[trigger]
            pf_count(rows.push(row), code, bs, station, i, j) == pf_count(
                rows,
                code,
                bs,
                station,
                i,
                j,
            ) + if row.0@ == code && slot_ok(bs, row.1 as int, i) && col_ok(station, row.2@, j) {
                1int
            } else {
                0
            },
{
    assert(rows.push(row).drop_last() =~= rows);
    assert(rows.push(row).last() == row);
}

/// The empty 13×9 pass/fail grid, row-major: 12 hour rows and a SUM row,
/// a row-total column and one column per possible cell.
pub fn rpft_default() -> (r: Vec<(u16, u16)>)
    ensures
        r@.len() == 117,
        forall|t: int| 0 <= t < 117 ==> (#[trigger] r@[t]) == (0u16, 0u16),
{
    let mut r: Vec<(u16, u16)> = Vec::new();
    let mut t: usize = 0;
    while t < 117
        invariant
            t <= 117,
            r@.len() == t as int,
            forall|q: int| 0 <= q < t as int ==> (#[trigger] r@[q]) == (0u16, 0u16),
        decreases 117 - t,
    {
        r.push((0, 0));
        t += 1;
    }
    r
}

/// Renders one matrix slot: blank when both counts are zero, the pass
/// count alone when only it is nonzero, ` | fail` when only the fail count
/// is, and `pass | fail` when both are.
pub open spec fn pf_cell_str(l: int, r: int) -> Seq<char> {
    if l == 0 && r == 0 {
        Seq::<char>::empty()
    } else if l != 0 && r == 0 {
        dec_str(l)
    } else if l == 0 {
        " | "@ + dec_str(r)
    } else {
        dec_str(l) + " | "@ + dec_str(r)
    }
}

/// Renders every slot of a pass/fail grid.
pub fn array2str(a: &Vec<(u16, u16)>) -> (r: Vec<String>)
    ensures
        r@.len() == a@.len(),
        forall|t: int|
            0 <= t < a@.len() ==> (#[trigger] r@[t])@ == pf_cell_str(
                a@[t].0 as int,
                a@[t].1 as int,
            ),
{
    let n = a.len();
    let mut r: Vec<String> = Vec::new();
    let mut t: usize = 0;
    while t < n
        invariant
            t <= n,
            n == a@.len(),
            r@.len() == t as int,
            forall|q: int|
                0 <= q < t as int ==> (#[trigger] r@[q])@ == pf_cell_str(
                    a@[q].0 as int,
                    a@[q].1 as int,
                ),
        decreases n - t,
    {
        let l = a[t].0;
        let w = a[t].1;
        let s: String = if l == 0 && w == 0 {
            String::new()
        } else if l != 0 && w == 0 {
            u64_to_string(l as u64)
        } else if l == 0 {
            let mut s = String::new();
            s.append(" | ");
            let d = u64_to_string(w as u64);
            s.append(d.as_str());
            proof {
                reveal_strlit(" | ");
                assert(" | "@.len() == 3);
                assert(s@ =~= pf_cell_str(a@[t as int].0 as int, a@[t as int].1 as int));
            }
            s
        } else {
            let mut s = u64_to_string(l as u64);
            s.append(" | ");
            let d = u64_to_string(w as u64);
            s.append(d.as_str());
            proof {
                reveal_strlit(" | ");
                assert(" | "@.len() == 3);
                assert(s@ =~= pf_cell_str(a@[t as int].0 as int, a@[t as int].1 as int));
            }
            s
        };
        r.push(s);
        t += 1;
    }
    r
}

/// Attaches the hour labels: turns the flat rendered grid into 13 labelled
/// rows of 9 columns.
pub fn array2rfp(array_str: &Vec<String>, hours_str: &Vec<String>) -> (r: Vec<(String, Vec<String>)>)
    requires
        array_str@.len() == 117,
        hours_str@.len() >= 13,
    ensures
        r@.len() == 13,
        forall|i: int|
            0 <= i < 13 ==> (#[trigger] r@[i]).0@ == hours_str@[i]@ && r@[i].1@.len() == 9,
        forall|i: int, j: int|
            0 <= i < 13 && 0 <= j < 9 ==> ((#[trigger] r@[i].1@[j]))@ == array_str@[9 * i + j]@,
{
    let mut r: Vec<(String, Vec<String>)> = Vec::new();
    let mut i: usize = 0;
    while i < 13
        invariant
            i <= 13,
            array_str@.len() == 117,
            hours_str@.len() >= 13,
            r@.len() == i as int,
            forall|q: int|
                0 <= q < i as int ==> (#[trigger] r@[q]).0@ == hours_str@[q]@ && r@[q].1@.len()
                    == 9,
            forall|q: int, j: int|
                0 <= q < i as int && 0 <= j < 9 ==> ((#[trigger] r@[q].1@[j]))@ == array_str@[9 * q
                    + j]@,
        decreases 13 - i,
    {
        let mut cols: Vec<String> = Vec::new();
        let mut j: usize = 0;
        while j < 9
            invariant
                j <= 9,
                i < 13,
                array_str@.len() == 117,
                cols@.len() == j as int,
                forall|q: int|
                    0 <= q < j as int ==> (#[trigger] cols@[q])@ == array_str@[9 * (i as int)
                        + q]@,
            decreases 9 - j,
        {
            cols.push(array_str[9 * i + j].clone());
            j += 1;
        }
        r.push((hours_str[i].clone(), cols));
        i += 1;
    }
    r
}

/// Builds the rendered 13×9 per-cell pass/fail matrix from windowed rows:
/// only P and F rows are tallied, each into its hour row and cell column
/// and into the row-total column and SUM row; every slot is then rendered.
/// Each row's timestamp must fall in some bucket, and its cell must belong
/// to the station.
#[verifier::rlimit(100)]
pub fn row_to_pf(
    rows: &Vec<(String, u32, String)>,
    station: &str,
    ts_per_hour: &Vec<(u32, u32)>,
    hours_str: &Vec<String>,
) -> (r: Vec<(String, Vec<String>)>)
    requires
        ts_per_hour@.len() == 12,
        hours_str@.len() >= 13,
        rows@.len() <= 65535,
        forall|k: int|
            0 <= k < rows@.len() ==> has_bucket(ts_per_hour@, (#[trigger] rows@[k]).1 as int),
        forall|k: int|
            0 <= k < rows@.len() ==> station_cells(station@).contains(
                cell_of((#[trigger] rows@[k]).2@),
            ),
    ensures
        r@.len() == 13,
        forall|i: int|
            0 <= i < 13 ==> (#[trigger] r@[i]).0@ == hours_str@[i]@ && r@[i].1@.len() == 9,
        forall|i: int, j: int|
            0 <= i < 13 && 0 <= j < 9 ==> ((#[trigger] r@[i].1@[j]))@ == pf_cell_str(
                pf_count(rows@, "P"@, ts_per_hour@, station@, i, j),
                pf_count(rows@, "F"@, ts_per_hour@, station@, i, j),
            ),
{
    proof {
        lemma_codes_distinct();
        lemma_station_cells_len(station@);
    }
    let mut grid = rpft_default();
    let n = rows.len();
    let mut k: usize = 0;
    proof {
        assert(rows@.subrange(0, 0) =~= Seq::<(String, u32, String)>::empty());
    }
    while k < n
        invariant
            k <= n,
            n == rows@.len(),
            n <= 65535,
            ts_per_hour@.len() == 12,
            station_cells(station@).len() <= 8,
            grid@.len() == 117,
            forall|j: int|
                0 <= j < rows@.len() ==> has_bucket(ts_per_hour@, (#[trigger] rows@[j]).1 as int),
            forall|j: int|
                0 <= j < rows@.len() ==> station_cells(station@).contains(
                    cell_of((#[trigger] rows@[j]).2@),
                ),
            forall|i: int, j: int|
                0 <= i < 13 && 0 <= j < 9 ==> (#[trigger] pf_count(
                    rows@.subrange(0, k as int),
                    "P"@,
                    ts_per_hour@,
                    station@,
                    i,
                    j,
                )) == grid@[9 * i + j].0 as int && pf_count(
                    rows@.subrange(0, k as int),
                    "F"@,
                    ts_per_hour@,
                    station@,
                    i,
                    j,
                ) == grid@[9 * i + j].1 as int && grid@[9 * i + j].0 as int <= k as int && grid@[9
                    * i + j].1 as int <= k as int,
            "S"@ != "P"@ && "S"@ != "F"@ && "S"@ != "U"@ && "P"@ != "F"@ && "P"@ != "U"@ && "F"@
                != "U"@,
        decreases n - k,
    {
        let ghost prefix = rows@.subrange(0, k as int);
        let ghost oldgrid = grid@;
        let row = &rows[k];
        let idx = get_index(ts_per_hour, row.1);
        let cell = extract_cell(row.2.as_str());
        let jc = get_cell_index(cell.as_str(), station);
        proof {
            assert(rows@.subrange(0, k + 1) =~= prefix.push(rows@[k as int]));
            lemma_pf_push(prefix, rows@[k as int], "P"@, ts_per_hour@, station@);
            lemma_pf_push(prefix, rows@[k as int], "F"@, ts_per_hour@, station@);
            lemma_first_index_of(station_cells(station@), cell@, jc as int);
            assert forall|i: int| 0 <= i < 12 && i != idx as int implies !assigned_to(
                ts_per_hour@,
                rows@[k as int].1 as int,
                i,
            ) by {
                if assigned_to(ts_per_hour@, rows@[k as int].1 as int, i) {
                    lemma_assigned_unique(ts_per_hour@, rows@[k as int].1 as int, i, idx as int);
                }
            }
        }
        let is_p = str_eq(row.0.as_str(), "P");
        let is_f = str_eq(row.0.as_str(), "F");
        if is_p || is_f {
            let t1: usize = 9 * idx + jc + 1;
            let t2: usize = 9 * idx;
            let t3: usize = 108 + jc + 1;
            let t4: usize = 108;
            proof {
                assert(pf_count(prefix, "P"@, ts_per_hour@, station@, idx as int, jc as int + 1)
                    == grid@[t1 as int].0 as int);
                assert(pf_count(prefix, "P"@, ts_per_hour@, station@, idx as int, 0)
                    == grid@[t2 as int].0 as int);
                assert(pf_count(prefix, "P"@, ts_per_hour@, station@, 12, jc as int + 1)
                    == grid@[t3 as int].0 as int);
                assert(pf_count(prefix, "P"@, ts_per_hour@, station@, 12, 0) == grid@[t4 as int].0
                    as int);
                assert(pf_count(prefix, "F"@, ts_per_hour@, station@, idx as int, jc as int + 1)
                    == grid@[t1 as int].1 as int);
                assert(pf_count(prefix, "F"@, ts_per_hour@, station@, idx as int, 0)
                    == grid@[t2 as int].1 as int);
                assert(pf_count(prefix, "F"@, ts_per_hour@, station@, 12, jc as int + 1)
                    == grid@[t3 as int].1 as int);
                assert(pf_count(prefix, "F"@, ts_per_hour@, station@, 12, 0) == grid@[t4 as int].1
                    as int);
            }
            if is_p {
                let v = grid[t1];
                grid.set(t1, (v.0 + 1, v.1));
                let v = grid[t2];
                grid.set(t2, (v.0 + 1, v.1));
                let v = grid[t3];
                grid.set(t3, (v.0 + 1, v.1));
                let v = grid[t4];
                grid.set(t4, (v.0 + 1, v.1));
            } else {
                let v = grid[t1];
                grid.set(t1, (v.0, v.1 + 1));
                let v = grid[t2];
                grid.set(t2, (v.0, v.1 + 1));
                let v = grid[t3];
                grid.set(t3, (v.0, v.1 + 1));
                let v = grid[t4];
                grid.set(t4, (v.0, v.1 + 1));
            }
            proof {
                assert forall|i: int, j: int| 0 <= i < 13 && 0 <= j < 9 implies (#[trigger]
                pf_count(rows@.subrange(0, k as int + 1), "P"@, ts_per_hour@, station@, i, j))
                    == grid@[9 * i + j].0 as int && pf_count(
                    rows@.subrange(0, k as int + 1),
                    "F"@,
                    ts_per_hour@,
                    station@,
                    i,
                    j,
                ) == grid@[9 * i + j].1 as int && grid@[9 * i + j].0 as int <= k as int + 1
                    && grid@[9 * i + j].1 as int <= k as int + 1 by {
                    let t = 9 * i + j;
                    let rowg = rows@[k as int];
                    assert(0 <= t < 117);
                    assert(t == t1 as int <==> i == idx as int && j == jc as int + 1);
                    assert(t == t2 as int <==> i == idx as int && j == 0);
                    assert(t == t3 as int <==> i == 12 && j == jc as int + 1);
                    assert(t == t4 as int <==> i == 12 && j == 0);
                    assert(pf_count(rows@.subrange(0, k as int), "P"@, ts_per_hour@, station@, i, j)
                        == oldgrid[9 * i + j].0 as int);
                    assert(oldgrid[9 * i + j].0 as int <= k as int);
                    assert(pf_count(rows@.subrange(0, k as int), "F"@, ts_per_hour@, station@, i, j)
                        == oldgrid[9 * i + j].1 as int);
                    assert(oldgrid[9 * i + j].1 as int <= k as int);
                    assert(pf_count(rows@.subrange(0, k as int + 1), "P"@, ts_per_hour@, station@, i, j)
                        == pf_count(prefix, "P"@, ts_per_hour@, station@, i, j) + if rowg.0@
                        == "P"@ && slot_ok(ts_per_hour@, rowg.1 as int, i) && col_ok(
                        station@,
                        rowg.2@,
                        j,
                    ) {
                        1int
                    } else {
                        0
                    });
                    assert(pf_count(rows@.subrange(0, k as int + 1), "F"@, ts_per_hour@, station@, i, j)
                        == pf_count(prefix, "F"@, ts_per_hour@, station@, i, j) + if rowg.0@
                        == "F"@ && slot_ok(ts_per_hour@, rowg.1 as int, i) && col_ok(
                        station@,
                        rowg.2@,
                        j,
                    ) {
                        1int
                    } else {
                        0
                    });
                    assert((t == t1 as int || t == t2 as int || t == t3 as int || t == t4 as int)
                        <==> (slot_ok(ts_per_hour@, rowg.1 as int, i) && col_ok(
                        station@,
                        rowg.2@,
                        j,
                    )));
                }
            }
        }
        k += 1;
    }
    proof {
        assert(rows@.subrange(0, n as int) =~= rows@);
    }
    let strs = array2str(&grid);
    let r = array2rfp(&strs, hours_str);
    proof {
        assert forall|i: int, j: int| 0 <= i < 13 && 0 <= j < 9 implies ((r@[i].1@[j]))@
            == pf_cell_str(
            pf_count(rows@, "P"@, ts_per_hour@, station@, i, j),
            pf_count(rows@, "F"@, ts_per_hour@, station@, i, j),
        ) by {
            assert(0 <= 9 * i + j < 117);
            assert(strs@[9 * i + j]@ == pf_cell_str(
                grid@[9 * i + j].0 as int,
                grid@[9 * i + j].1 as int,
            ));
        }
    }
    r
}

/// A fail-record line of the per-cell view: the 1-based position within
/// the fetched set, and the displayed row fields.
pub struct CellRecord {
    pub seq: u16,
    pub beijing_str: String,
    pub sn: String,
    pub pid: String,
    pub pn: String,
    pub result: String,
    pub cell: String,
    pub msg: String,
    pub msg_detail: String,
}

impl CellRecord {
    /// Whether this line renders source row `row` met at 1-based position
    /// `n`: the serial redacted, the cell id extracted, the rest verbatim.
    pub open spec fn renders(self, row: RawRow, n: int) -> bool {
        &&& self.seq as int == n
        &&& self.beijing_str@ == row.beijing_str@
        &&& self.sn@ == spec_redact_sn(row.sn@)
        &&& self.pid@ == row.pid@
        &&& self.pn@ == row.pn@
        &&& self.result@ == row.result@
        &&& self.cell@ == cell_of(row.cell@)
        &&& self.msg@ == row.msg@
        &&& self.msg_detail@ == row.msg_detail@
    }
}

/// Rows among the given ones whose result equals the code.
pub open spec fn count_result(rows: Seq<RawRow>, code: Seq<char>) -> int
    decreases rows.len(),
{
    if rows.len() == 0 {
        0
    } else {
        count_result(rows.drop_last(), code) + if rows.last().result@ == code {
            1int
        } else {
            0
        }
    }
}

/// Whether `out` is exactly the rendered list of the F and U rows of
/// `rows`, in order, each numbered by its 1-based position in `rows`.
pub open spec fn is_fail_list(rows: Seq<RawRow>, out: Seq<CellRecord>) -> bool
    decreases rows.len(),
{
    if rows.len() == 0 {
        out.len() == 0
    } else if rows.last().result@ == "F"@ || rows.last().result@ == "U"@ {
        out.len() > 0 && out.last().renders(rows.last(), rows.len() as int) && is_fail_list(
            rows.drop_last(),
            out.drop_last(),
        )
    } else {
        is_fail_list(rows.drop_last(), out)
    }
}

/// Tallies the fetched rows of one cell by result code and collects its
/// fail records: each F or U row, rendered with the serial redacted and the
/// cell id extracted, numbered by its position in the fetched order.
pub fn row_to_cell(rows: &Vec<RawRow>) -> (r: ((u16, u16, u16, u16), Vec<CellRecord>))
    requires
        rows@.len() <= 65535,
    ensures
        r.0.0 as int == count_result(rows@, "S"@),
        r.0.1 as int == count_result(rows@, "P"@),
        r.0.2 as int == count_result(rows@, "F"@),
        r.0.3 as int == count_result(rows@, "U"@),
        is_fail_list(rows@, r.1@),
{
    proof {
        lemma_codes_distinct();
    }
    let n = rows.len();
    let mut s: u16 = 0;
    let mut p: u16 = 0;
    let mut f: u16 = 0;
    let mut u: u16 = 0;
    let mut seq_no: u16 = 0;
    let mut fail_data: Vec<CellRecord> = Vec::new();
    let mut k: usize = 0;
    proof {
        assert(rows@.subrange(0, 0) =~= Seq::<RawRow>::empty());
    }
    while k < n
        invariant
            k <= n,
            n == rows@.len(),
            n <= 65535,
            seq_no as int == k as int,
            s as int == count_result(rows@.subrange(0, k as int), "S"@),
            p as int == count_result(rows@.subrange(0, k as int), "P"@),
            f as int == count_result(rows@.subrange(0, k as int), "F"@),
            u as int == count_result(rows@.subrange(0, k as int), "U"@),
            s as int <= k as int && p as int <= k as int && f as int <= k as int && u as int
                <= k as int,
            is_fail_list(rows@.subrange(0, k as int), fail_data@),
            "S"@ != "P"@ && "S"@ != "F"@ && "S"@ != "U"@ && "P"@ != "F"@ && "P"@ != "U"@ && "F"@
                != "U"@,
        decreases n - k,
    {
        let ghost prefix = rows@.subrange(0, k as int);
        let ghost old_fail = fail_data@;
        seq_no += 1;
        let row = &rows[k];
        proof {
            assert(rows@.subrange(0, k + 1).drop_last() =~= prefix);
            assert(rows@.subrange(0, k + 1).last() == rows@[k as int]);
        }
        if str_eq(row.result.as_str(), "S") {
            s += 1;
        } else if str_eq(row.result.as_str(), "P") {
            p += 1;
        } else if str_eq(row.result.as_str(), "F") {
            f += 1;
        } else if str_eq(row.result.as_str(), "U") {
            u += 1;
        }
        let is_f = str_eq(row.result.as_str(), "F");
        let is_u = str_eq(row.result.as_str(), "U");
        if is_f || is_u {
            let rec = CellRecord {
                seq: seq_no,
                beijing_str: row.beijing_str.clone(),
                sn: redact_sn(row.sn.clone()),
                pid: row.pid.clone(),
                pn: row.pn.clone(),
                result: row.result.clone(),
                cell: extract_cell(row.cell.as_str()),
                msg: row.msg.clone(),
                msg_detail: row.msg_detail.clone(),
            };
            fail_data.push(rec);
            proof {
                assert(fail_data@.drop_last() =~= old_fail);
            }
        }
        k += 1;
    }
    proof {
        assert(rows@.subrange(0, n as int) =~= rows@);
    }
    ((s, p, f, u), fail_data)
}

/// Whether `outr` renders `row` for the detail views: the serial redacted,
/// the cell id extracted, every other field verbatim.
pub open spec fn detail_renders(outr: RawRow, row: RawRow) -> bool {
    &&& outr.beijing_str@ == row.beijing_str@
    &&& outr.sn@ == spec_redact_sn(row.sn@)
    &&& outr.pid@ == row.pid@
    &&& outr.pn@ == row.pn@
    &&& outr.result@ == row.result@
    &&& outr.cell@ == cell_of(row.cell@)
    &&& outr.msg@ == row.msg@
    &&& outr.msg_detail@ == row.msg_detail@
}

/// Renders fetched rows for the fail-detail view, in order.
pub fn row_to_detail(rows: &Vec<RawRow>) -> (r: Vec<RawRow>)
    ensures
        r@.len() == rows@.len(),
        forall|k: int| 0 <= k < rows@.len() ==> detail_renders(#[trigger] r@[k], rows@[k]),
{
    let n = rows.len();
    let mut out: Vec<RawRow> = Vec::new();
    let mut k: usize = 0;
    while k < n
        invariant
            k <= n,
            n == rows@.len(),
            out@.len() == k as int,
            forall|j: int| 0 <= j < k as int ==> detail_renders(#[trigger] out@[j], rows@[j]),
        decreases n - k,
    {
        let row = &rows[k];
        out.push(
            RawRow {
                beijing_str: row.beijing_str.clone(),
                sn: redact_sn(row.sn.clone()),
                pid: row.pid.clone(),
                pn: row.pn.clone(),
                result: row.result.clone(),
                cell: extract_cell(row.cell.as_str()),
                msg: row.msg.clone(),
                msg_detail: row.msg_detail.clone(),
            },
        );
        k += 1;
    }
    out
}

/// One line of the serial-number history view, tagged with the area and
/// hostname of the store it came from.
pub struct SnRecord {
    pub beijing_str: String,
    pub sn: String,
    pub pid: String,
    pub pn: String,
    pub area: String,
    pub result: String,
    pub hostname: String,
    pub cell: String,
    pub msg: String,
    pub msg_detail: String,
}

/// Whether an `SnRecord` renders `row` from the store at `area`/`hostname`:
/// the serial redacted (placeholder serials render empty everywhere a raw
/// serial field is surfaced), the cell id extracted, the rest verbatim.
pub open spec fn rec_renders(
    outr: SnRecord,
    row: RawRow,
    area: Seq<char>,
    hostname: Seq<char>,
) -> bool {
    &&& outr.beijing_str@ == row.beijing_str@
    &&& outr.sn@ == spec_redact_sn(row.sn@)
    &&& outr.pid@ == row.pid@
    &&& outr.pn@ == row.pn@
    &&& outr.area@ == area
    &&& outr.result@ == row.result@
    &&& outr.hostname@ == hostname
    &&& outr.cell@ == cell_of(row.cell@)
    &&& outr.msg@ == row.msg@
    &&& outr.msg_detail@ == row.msg_detail@
}

/// Renders one store's rows for the serial-number history view, in order.
pub fn row_to_rec(rows: &Vec<RawRow>, area: &str, hostname: &str) -> (r: Vec<SnRecord>)
    ensures
        r@.len() == rows@.len(),
        forall|k: int|
            0 <= k < rows@.len() ==> rec_renders(#[trigger] r@[k], rows@[k], area@, hostname@),
{
    let n = rows.len();
    let mut out: Vec<SnRecord> = Vec::new();
    let mut k: usize = 0;
    while k < n
        invariant
            k <= n,
            n == rows@.len(),
            out@.len() == k as int,
            forall|j: int|
                0 <= j < k as int ==> rec_renders(#[trigger] out@[j], rows@[j], area@, hostname@),
        decreases n - k,
    {
        let row = &rows[k];
        out.push(
            SnRecord {
                beijing_str: row.beijing_str.clone(),
                sn: redact_sn(row.sn.clone()),
                pid: row.pid.clone(),
                pn: row.pn.clone(),
                area: area.to_owned(),
                result: row.result.clone(),
                hostname: hostname.to_owned(),
                cell: extract_cell(row.cell.as_str()),
                msg: row.msg.clone(),
                msg_detail: row.msg_detail.clone(),
            },
        );
        k += 1;
    }
    out
}

/// The sum of the per-bucket counts over the first `n` buckets.
pub open spec fn sum_buckets(
    rows: Seq<(String, u32)>,
    code: Seq<char>,
    bs: Seq<(u32, u32)>,
    n: int,
) -> int
    decreases n,
{
    if n <= 0 {
        0
    } else {
        sum_buckets(rows, code, bs, n - 1) + count_code_bucket(rows, code, bs, n - 1)
    }
}

proof fn lemma_sum_empty(code: Seq<char>, bs: Seq<(u32, u32)>, n: int)
    ensures
        sum_buckets(Seq::<(String, u32)>::empty(), code, bs, n) == 0,
    decreases n,
{
    if n > 0 {
        lemma_sum_empty(code, bs, n - 1);
    }
}

proof fn lemma_sum_push(
    pre: Seq<(String, u32)>,
    row: (String, u32),
    code: Seq<char>,
    bs: Seq<(u32, u32)>,
    n: int,
)
    ensures
        sum_buckets(pre.push(row), code, bs, n) == sum_buckets(pre, code, bs, n) + if row.0@
            == code && exists|i: int| 0 <= i < n && #[trigger] assigned_to(bs, row.1 as int, i) {
            1int
        } else {
            0
        },
    decreases n,
{
    lemma_push_counts(pre, row, code, bs);
    if n > 0 {
        lemma_sum_push(pre, row, code, bs, n - 1);
        if row.0@ == code && assigned_to(bs, row.1 as int, n - 1) {
            assert forall|i: int| 0 <= i < n - 1 implies !assigned_to(bs, row.1 as int, i) by {
                if assigned_to(bs, row.1 as int, i) {
                    lemma_assigned_unique(bs, row.1 as int, i, n - 1);
                }
            }
        }
    }
}

/// Bucketing neither drops nor double-counts: when every row falls in some
/// bucket, the per-bucket counts of a result code sum to the count of that
/// code over the whole set.
pub proof fn lemma_bucket_partition(
    rows: Seq<(String, u32)>,
    code: Seq<char>,
    bs: Seq<(u32, u32)>,
)
    requires
        forall|k: int| 0 <= k < rows.len() ==> has_bucket(bs, (#[trigger] rows[k]).1 as int),
    ensures
        sum_buckets(rows, code, bs, bs.len() as int) == count_code(rows, code),
    decreases rows.len(),
{
    if rows.len() == 0 {
        lemma_sum_empty(code, bs, bs.len() as int);
        assert(rows =~= Seq::<(String, u32)>::empty());
    } else {
        let pre = rows.drop_last();
        let row = rows.last();
        assert(pre.push(row) =~= rows);
        assert forall|k: int| 0 <= k < pre.len() implies has_bucket(
            bs,
            (#[trigger] pre[k]).1 as int,
        ) by {
            assert(pre[k] == rows[k]);
        }
        lemma_bucket_partition(pre, code, bs);
        lemma_sum_push(pre, row, code, bs, bs.len() as int);
        lemma_push_counts(pre, row, code, bs);
        if row.0@ == code {
            assert(has_bucket(bs, rows[rows.len() - 1].1 as int));
            lemma_assigned_exists(bs, row.1 as int);
            let i = choose|i: int| #[trigger] assigned_to(bs, row.1 as int, i);
            assert(0 <= i < bs.len());
        }
    }
}

} // verus!
