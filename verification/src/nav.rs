//! Previous-day / previous-shift navigation: decodes the window a
//! referring page carried in its query string, steps the window back, and
//! renders the redirect target; an absent or malformed referer falls back
//! to stepping the window the caller passes in (normally the current
//! shift).
use crate::calendar::{date_str, prev_date, valid_date, DateShift, Shift, month_length,
    pre_day_str2date, pre_shift_str2date};
use crate::params::{is_query_date, qd_day, qd_month, qd_year};
use crate::text::{all_digits, dec_str, digit_char, digit_val, digits_val, is_digit,
    lemma_dec_str4, lemma_digits_val4, parse_uint, str_eq};
use vstd::prelude::*;

verus! {

broadcast use vstd::string::group_string_axioms;

/// A word character of the URL grammar: an ASCII letter, digit or
/// underscore.
pub open spec fn is_w(c: char) -> bool {
    ('a' <= c && c <= 'z') || ('A' <= c && c <= 'Z') || ('0' <= c && c <= '9') || c == '_'
}

/// A host character: a word character or a dot.
pub open spec fn is_wd(c: char) -> bool {
    is_w(c) || c == '.'
}

/// The end of the run of characters satisfying `p` that starts at `i`.
pub open spec fn run_end(s: Seq<char>, i: int, p: spec_fn(char) -> bool) -> int
    decreases s.len() - i,
{
    if i < s.len() && p(s[i]) {
        run_end(s, i + 1, p)
    } else {
        i
    }
}

/// A run's end never precedes its start and never passes the string's end.
pub proof fn lemma_run_end_bounds(s: Seq<char>, i: int, p: spec_fn(char) -> bool)
    requires
        0 <= i <= s.len(),
    ensures
        i <= run_end(s, i, p) <= s.len(),
    decreases s.len() - i,
{
    if i < s.len() && p(s[i]) {
        lemma_run_end_bounds(s, i + 1, p);
    }
}

/// The literal `http://` at position `i`.
pub open spec fn scheme_at(s: Seq<char>, i: int) -> bool {
    &&& i + 7 <= s.len()
    &&& s[i] == 'h' && s[i + 1] == 't' && s[i + 2] == 't' && s[i + 3] == 'p' && s[i + 4] == ':'
        && s[i + 5] == '/' && s[i + 6] == '/'
}

/// A query date at position `d`: `20xx-` then a month `00`..`09`, `11` or
/// `12`, then `-` and a day `00`..`31` (the grammar the referring pages
/// carry; note it has no month `10`).
pub open spec fn ref_date_at(s: Seq<char>, d: int) -> bool {
    &&& s[d] == '2' && s[d + 1] == '0' && is_digit(s[d + 2]) && is_digit(s[d + 3])
    &&& s[d + 4] == '-'
    &&& ((s[d + 5] == '0' && is_digit(s[d + 6])) || (s[d + 5] == '1' && (s[d + 6] == '1' || s[d
        + 6] == '2')))
    &&& s[d + 7] == '-'
    &&& (((s[d + 8] == '0' || s[d + 8] == '1' || s[d + 8] == '2') && is_digit(s[d + 9])) || (s[d
        + 8] == '3' && (s[d + 9] == '0' || s[d + 9] == '1')))
}

/// The literal `/?querydate=` at position `q`.
pub open spec fn query_lit_at(s: Seq<char>, q: int) -> bool {
    &&& s[q] == '/' && s[q + 1] == '?' && s[q + 2] == 'q' && s[q + 3] == 'u' && s[q + 4] == 'e'
    &&& s[q + 5] == 'r' && s[q + 6] == 'y' && s[q + 7] == 'd' && s[q + 8] == 'a' && s[q + 9] == 't'
    &&& s[q + 10] == 'e' && s[q + 11] == '='
}

/// The literal `&shift=` at position `a`.
pub open spec fn shift_lit_at(s: Seq<char>, a: int) -> bool {
    &&& s[a] == '&' && s[a + 1] == 's' && s[a + 2] == 'h' && s[a + 3] == 'i' && s[a + 4] == 'f'
    &&& s[a + 5] == 't' && s[a + 6] == '='
}

/// The referring-URL grammar matched at start position `i` through to the
/// end of the string:
/// `http://<host>:<port>/<ll-ll>/<line>/<item>[/?querydate=<date>&shift=<word>]`
/// with host a run of word characters and dots, port a run of digits, the
/// language tag two word characters, a dash and two more, line, item and
/// the shift word runs of word characters, and the date as `ref_date_at`
/// says. Yields `(lang, line, item, query)` with the query fields
/// `(year, month, day, shift)` when the query part is present.
pub open spec fn parse_ref_at(s: Seq<char>, i: int) -> Option<
    (Seq<char>, Seq<char>, Seq<char>, Option<(Seq<char>, Seq<char>, Seq<char>, Seq<char>)>),
> {
    if !scheme_at(s, i) {
        None
    } else {
        let h_end = run_end(s, i + 7, |c: char| is_wd(c));
        if h_end == i + 7 || h_end >= s.len() || s[h_end] != ':' {
            None
        } else {
            let p_end = run_end(s, h_end + 1, |c: char| is_digit(c));
            if p_end == h_end + 1 || p_end >= s.len() || s[p_end] != '/' {
                None
            } else {
                let l0 = p_end + 1;
                if !(l0 + 6 <= s.len() && is_w(s[l0]) && is_w(s[l0 + 1]) && s[l0 + 2] == '-'
                    && is_w(s[l0 + 3]) && is_w(s[l0 + 4]) && s[l0 + 5] == '/') {
                    None
                } else {
                    let ln0 = l0 + 6;
                    let ln_end = run_end(s, ln0, |c: char| is_w(c));
                    if ln_end == ln0 || ln_end >= s.len() || s[ln_end] != '/' {
                        None
                    } else {
                        let it0 = ln_end + 1;
                        let it_end = run_end(s, it0, |c: char| is_w(c));
                        if it_end == it0 {
                            None
                        } else {
                            let lang = s.subrange(l0, l0 + 5);
                            let line = s.subrange(ln0, ln_end);
                            let item = s.subrange(it0, it_end);
                            if it_end == s.len() {
                                Some((lang, line, item, None))
                            } else {
                                let d0 = it_end + 12;
                                let sh0 = it_end + 29;
                                if sh0 < s.len() && query_lit_at(s, it_end) && ref_date_at(s, d0)
                                    && shift_lit_at(s, d0 + 10) && run_end(
                                    s,
                                    sh0,
                                    |c: char| is_w(c),
                                ) == s.len() {
                                    Some(
                                        (
                                            lang,
                                            line,
                                            item,
                                            Some(
                                                (
                                                    s.subrange(d0, d0 + 4),
                                                    s.subrange(d0 + 5, d0 + 7),
                                                    s.subrange(d0 + 8, d0 + 10),
                                                    s.subrange(sh0, s.len() as int),
                                                ),
                                            ),
                                        ),
                                    )
                                } else {
                                    None
                                }
                            }
                        }
                    }
                }
            }
        }
    }
}

/// The grammar matched at the earliest start position at or after `i` that
/// carries a full match: the leftmost-match rule.
pub open spec fn parse_ref_from(s: Seq<char>, i: int) -> Option<
    (Seq<char>, Seq<char>, Seq<char>, Option<(Seq<char>, Seq<char>, Seq<char>, Seq<char>)>),
>
    decreases s.len() - i,
{
    if parse_ref_at(s, i) is Some {
        parse_ref_at(s, i)
    } else if i < s.len() {
        parse_ref_from(s, i + 1)
    } else {
        None
    }
}

/// The fields decoded from a referring URL.
pub struct RefererTarget {
    pub lang: String,
    pub line: String,
    pub item: String,
    pub query: Option<(String, String, String, String)>,
}

impl RefererTarget {
    /// Whether these fields carry the decoded values `t`.
    pub open spec fn models(
        &self,
        t: (Seq<char>, Seq<char>, Seq<char>, Option<(Seq<char>, Seq<char>, Seq<char>, Seq<char>)>),
    ) -> bool {
        &&& self.lang@ == t.0
        &&& self.line@ == t.1
        &&& self.item@ == t.2
        &&& (self.query is Some <==> t.3 is Some)
        &&& self.query is Some ==> ((self.query->0).0)@ == (t.3->0).0 && ((self.query->0).1)@ == (
        t.3->0).1 && ((self.query->0).2)@ == (t.3->0).2 && ((self.query->0).3)@ == (t.3->0).3
    }
}

/// Decides a word character.
fn is_w_char(c: char) -> (r: bool)
    ensures
        r == is_w(c),
{
    let u = c as u32;
    (97 <= u && u <= 122) || (65 <= u && u <= 90) || (48 <= u && u <= 57) || u == 95
}

/// Decides a host character.
fn is_wd_char(c: char) -> (r: bool)
    ensures
        r == is_wd(c),
{
    let u = c as u32;
    is_w_char(c) || u == 46
}

/// Decides a digit character.
fn is_d_char(c: char) -> (r: bool)
    ensures
        r == is_digit(c),
{
    let u = c as u32;
    48 <= u && u <= 57
}

/// The end of the word-character run starting at `from`.
fn run_w(s: &str, from: usize) -> (r: usize)
    requires
        from <= s@.len(),
    ensures
        r as int == run_end(s@, from as int, |c: char| is_w(c)),
        from <= r <= s@.len(),
    decreases s@.len() - from,
{
    let n = s.unicode_len();
    let mut i = from;
    while i < n && is_w_char(s.get_char(i))
        invariant
            from <= i <= n,
            n == s@.len(),
            run_end(s@, from as int, |c: char| is_w(c)) == run_end(s@, i as int, |c: char| is_w(c)),
        decreases n - i,
    {
        i += 1;
    }
    i
}

/// The end of the host-character run starting at `from`.
fn run_wd(s: &str, from: usize) -> (r: usize)
    requires
        from <= s@.len(),
    ensures
        r as int == run_end(s@, from as int, |c: char| is_wd(c)),
        from <= r <= s@.len(),
{
    let n = s.unicode_len();
    let mut i = from;
    while i < n && is_wd_char(s.get_char(i))
        invariant
            from <= i <= n,
            n == s@.len(),
            run_end(s@, from as int, |c: char| is_wd(c)) == run_end(
                s@,
                i as int,
                |c: char| is_wd(c),
            ),
        decreases n - i,
    {
        i += 1;
    }
    i
}

/// The end of the digit run starting at `from`.
fn run_d(s: &str, from: usize) -> (r: usize)
    requires
        from <= s@.len(),
    ensures
        r as int == run_end(s@, from as int, |c: char| is_digit(c)),
        from <= r <= s@.len(),
{
    let n = s.unicode_len();
    let mut i = from;
    while i < n && is_d_char(s.get_char(i))
        invariant
            from <= i <= n,
            n == s@.len(),
            run_end(s@, from as int, |c: char| is_digit(c)) == run_end(
                s@,
                i as int,
                |c: char| is_digit(c),
            ),
        decreases n - i,
    {
        i += 1;
    }
    i
}

/// Tries the grammar at one start position.
fn match_at(s: &str, i: usize) -> (r: Option<RefererTarget>)
    requires
        i <= s@.len(),
    ensures
        r is Some ==> parse_ref_at(s@, i as int) is Some && r->0.models(
            parse_ref_at(s@, i as int)->0,
        ),
        r is None ==> parse_ref_at(s@, i as int) is None,
{
    let n = s.unicode_len();
    if n - i < 7 {
        return None;
    }
    if !(s.get_char(i) == 'h' && s.get_char(i + 1) == 't' && s.get_char(i + 2) == 't'
        && s.get_char(i + 3) == 'p' && s.get_char(i + 4) == ':' && s.get_char(i + 5) == '/'
        && s.get_char(i + 6) == '/') {
        return None;
    }
    let h_end = run_wd(s, i + 7);
    if h_end == i + 7 || h_end == n {
        return None;
    }
    if s.get_char(h_end) != ':' {
        return None;
    }
    let p_end = run_d(s, h_end + 1);
    if p_end == h_end + 1 || p_end == n {
        return None;
    }
    if s.get_char(p_end) != '/' {
        return None;
    }
    let l0 = p_end + 1;
    if n - l0 < 6 {
        return None;
    }
    if !(is_w_char(s.get_char(l0)) && is_w_char(s.get_char(l0 + 1)) && s.get_char(l0 + 2) == '-'
        && is_w_char(s.get_char(l0 + 3)) && is_w_char(s.get_char(l0 + 4)) && s.get_char(l0 + 5)
        == '/') {
        return None;
    }
    let ln0 = l0 + 6;
    let ln_end = run_w(s, ln0);
    if ln_end == ln0 || ln_end == n {
        return None;
    }
    if s.get_char(ln_end) != '/' {
        return None;
    }
    let it0 = ln_end + 1;
    let it_end = run_w(s, it0);
    if it_end == it0 {
        return None;
    }
    let lang = s.substring_char(l0, l0 + 5).to_owned();
    let line = s.substring_char(ln0, ln_end).to_owned();
    let item = s.substring_char(it0, it_end).to_owned();
    if it_end == n {
        return Some(RefererTarget { lang, line, item, query: None });
    }
    if n - it_end < 30 {
        return None;
    }
    if !(s.get_char(it_end) == '/' && s.get_char(it_end + 1) == '?' && s.get_char(it_end + 2)
        == 'q' && s.get_char(it_end + 3) == 'u' && s.get_char(it_end + 4) == 'e' && s.get_char(
        it_end + 5,
    ) == 'r' && s.get_char(it_end + 6) == 'y' && s.get_char(it_end + 7) == 'd' && s.get_char(
        it_end + 8,
    ) == 'a' && s.get_char(it_end + 9) == 't' && s.get_char(it_end + 10) == 'e' && s.get_char(
        it_end + 11,
    ) == '=') {
        return None;
    }
    let d0 = it_end + 12;
    if !(s.get_char(d0) == '2' && s.get_char(d0 + 1) == '0' && is_d_char(s.get_char(d0 + 2))
        && is_d_char(s.get_char(d0 + 3))) {
        return None;
    }
    if s.get_char(d0 + 4) != '-' {
        return None;
    }
    let m1 = s.get_char(d0 + 5);
    let m2 = s.get_char(d0 + 6);
    if !((m1 == '0' && is_d_char(m2)) || (m1 == '1' && (m2 == '1' || m2 == '2'))) {
        return None;
    }
    if s.get_char(d0 + 7) != '-' {
        return None;
    }
    let y1 = s.get_char(d0 + 8);
    let y2 = s.get_char(d0 + 9);
    if !(((y1 == '0' || y1 == '1' || y1 == '2') && is_d_char(y2)) || (y1 == '3' && (y2 == '0' || y2
        == '1'))) {
        return None;
    }
    let a0 = d0 + 10;
    if !(s.get_char(a0) == '&' && s.get_char(a0 + 1) == 's' && s.get_char(a0 + 2) == 'h'
        && s.get_char(a0 + 3) == 'i' && s.get_char(a0 + 4) == 'f' && s.get_char(a0 + 5) == 't'
        && s.get_char(a0 + 6) == '=') {
        return None;
    }
    let sh0 = a0 + 7;
    let sh_end = run_w(s, sh0);
    if sh_end != n {
        return None;
    }
    let year = s.substring_char(d0, d0 + 4).to_owned();
    let month = s.substring_char(d0 + 5, d0 + 7).to_owned();
    let day = s.substring_char(d0 + 8, d0 + 10).to_owned();
    let shiftw = s.substring_char(sh0, n).to_owned();
    Some(RefererTarget { lang, line, item, query: Some((year, month, day, shiftw)) })
}

/// The date fields a parsed referer's query carries are digit strings of
/// widths four, two and two, with the year in the 2000s.
pub proof fn lemma_ref_query_fields(s: Seq<char>, i: int)
    requires
        0 <= i,
        parse_ref_at(s, i) is Some,
        (parse_ref_at(s, i)->0).3 is Some,
    ensures
        ({
            let q = (parse_ref_at(s, i)->0).3->0;
            all_digits(q.0) && q.0.len() == 4 && 2000 <= digits_val(q.0) <= 2099 && all_digits(q.1)
                && q.1.len() == 2 && all_digits(q.2) && q.2.len() == 2
        }),
{
    let h_end = run_end(s, i + 7, |c: char| is_wd(c));
    lemma_run_end_bounds(s, i + 7, |c: char| is_wd(c));
    let p_end = run_end(s, h_end + 1, |c: char| is_digit(c));
    lemma_run_end_bounds(s, h_end + 1, |c: char| is_digit(c));
    let l0 = p_end + 1;
    let ln0 = l0 + 6;
    let ln_end = run_end(s, ln0, |c: char| is_w(c));
    lemma_run_end_bounds(s, ln0, |c: char| is_w(c));
    let it0 = ln_end + 1;
    let it_end = run_end(s, it0, |c: char| is_w(c));
    lemma_run_end_bounds(s, it0, |c: char| is_w(c));
    let d0 = it_end + 12;
    let sh0 = it_end + 29;
    let q = (parse_ref_at(s, i)->0).3->0;
    assert(0 <= d0 && d0 + 10 < s.len());
    assert(ref_date_at(s, d0));
    assert(q.0 == s.subrange(d0, d0 + 4));
    assert(q.1 == s.subrange(d0 + 5, d0 + 7));
    assert(q.2 == s.subrange(d0 + 8, d0 + 10));
    assert(sh0 < s.len());
    assert(q.0[0] == s[d0] && q.0[1] == s[d0 + 1] && q.0[2] == s[d0 + 2] && q.0[3] == s[d0 + 3]);
    assert(q.1[0] == s[d0 + 5] && q.1[1] == s[d0 + 6]);
    assert(q.2[0] == s[d0 + 8] && q.2[1] == s[d0 + 9]);
    assert(is_digit('0') && is_digit('1') && is_digit('2') && is_digit('3'));
    assert forall|k: int| 0 <= k < q.0.len() implies is_digit(#[trigger] q.0[k]) by {
        if k == 0 {
            assert(q.0[k] == s[d0]);
        } else if k == 1 {
            assert(q.0[k] == s[d0 + 1]);
        } else if k == 2 {
            assert(q.0[k] == s[d0 + 2]);
        } else {
            assert(q.0[k] == s[d0 + 3]);
        }
    }
    assert forall|k: int| 0 <= k < q.1.len() implies is_digit(#[trigger] q.1[k]) by {
        if k == 0 {
            assert(q.1[k] == s[d0 + 5]);
        } else {
            assert(q.1[k] == s[d0 + 6]);
        }
    }
    assert forall|k: int| 0 <= k < q.2.len() implies is_digit(#[trigger] q.2[k]) by {
        if k == 0 {
            assert(q.2[k] == s[d0 + 8]);
        } else {
            assert(q.2[k] == s[d0 + 9]);
        }
    }
    lemma_digits_val4(q.0);
    assert(digit_val(q.0[0]) == 2 && digit_val(q.0[1]) == 0);
    assert(0 <= digit_val(q.0[2]) <= 9 && 0 <= digit_val(q.0[3]) <= 9);
}

/// The same fields facts, for the leftmost match.
pub proof fn lemma_ref_from_fields(s: Seq<char>, i: int)
    requires
        0 <= i,
        parse_ref_from(s, i) is Some,
        (parse_ref_from(s, i)->0).3 is Some,
    ensures
        ({
            let q = (parse_ref_from(s, i)->0).3->0;
            all_digits(q.0) && q.0.len() == 4 && 2000 <= digits_val(q.0) <= 2099 && all_digits(q.1)
                && q.1.len() == 2 && all_digits(q.2) && q.2.len() == 2
        }),
    decreases s.len() - i,
{
    if parse_ref_at(s, i) is Some {
        lemma_ref_query_fields(s, i);
    } else {
        lemma_ref_from_fields(s, i + 1);
    }
}

/// The path-and-query target a navigation redirect renders.
pub open spec fn nav_url(
    lang: Seq<char>,
    line: Seq<char>,
    item: Seq<char>,
    date: Seq<char>,
    shift: Seq<char>,
) -> Seq<char> {
    "/"@ + lang + "/"@ + line + "/"@ + item + "/?querydate="@ + date + "&shift="@ + shift
}

/// Renders a navigation redirect target.
pub fn render_nav_url(lang: &str, line: &str, item: &str, date: &str, shift: &str) -> (r: String)
    ensures
        r@ == nav_url(lang@, line@, item@, date@, shift@),
{
    let mut s = String::new();
    s.append("/");
    s.append(lang);
    s.append("/");
    s.append(line);
    s.append("/");
    s.append(item);
    s.append("/?querydate=");
    s.append(date);
    s.append("&shift=");
    s.append(shift);
    proof {
        assert(s@ =~= nav_url(lang@, line@, item@, date@, shift@));
    }
    s
}

/// Decodes a referring URL: the grammar, matched at the leftmost start
/// position that carries a full match.
pub fn parse_referer(s: &str) -> (r: Option<RefererTarget>)
    ensures
        r is Some ==> parse_ref_from(s@, 0) is Some && r->0.models(parse_ref_from(s@, 0)->0),
        r is None ==> parse_ref_from(s@, 0) is None,
{
    let n = s.unicode_len();
    let mut i: usize = 0;
    while i < n
        invariant
            i <= n,
            n == s@.len(),
            parse_ref_from(s@, 0) == parse_ref_from(s@, i as int),
        decreases n - i,
    {
        let m = match_at(s, i);
        if m.is_some() {
            return m;
        }
        i += 1;
    }
    None
}

/// The date the previous-day fallback redirect carries: the current
/// window's date stepped back one calendar day.
pub open spec fn cur_pre_day_date(cur: DateShift) -> Seq<char> {
    date_str(
        prev_date(cur.0 as int, cur.1 as int, cur.2 as int).0,
        prev_date(cur.0 as int, cur.1 as int, cur.2 as int).1,
        prev_date(cur.0 as int, cur.1 as int, cur.2 as int).2,
    )
}

/// The redirect target of the "previous day" action. `cur` is the window of
/// the current instant. A referring URL that carries a window steps that
/// window back one day, keeping the referer's path fields and shift word.
/// Everything else falls back to computing from the current instant: an
/// absent or undecodable referer redirects under the caller's own path
/// fields, and a decoded referer without a usable window (no query part, or
/// a date that is no real calendar date) under the referer's path fields.
pub fn pre_day_url_from(
    cur: &DateShift,
    lang: &str,
    line: &str,
    item: &str,
    referer: Option<&String>,
) -> (r: String)
    requires
        cur.wf(),
        1 <= cur.0,
    ensures
        referer is None ==> r@ == nav_url(
            lang@,
            line@,
            item@,
            cur_pre_day_date(*cur),
            cur.3.spec_name(),
        ),
        referer is Some && parse_ref_from(referer->0@, 0) is None ==> r@ == nav_url(
            lang@,
            line@,
            item@,
            cur_pre_day_date(*cur),
            cur.3.spec_name(),
        ),
        referer is Some && parse_ref_from(referer->0@, 0) is Some ==> ({
            let t = parse_ref_from(referer->0@, 0)->0;
            if t.3 is Some && valid_date(
                digits_val((t.3->0).0),
                digits_val((t.3->0).1),
                digits_val((t.3->0).2),
            ) {
                r@ == nav_url(
                    t.0,
                    t.1,
                    t.2,
                    date_str(
                        prev_date(
                            digits_val((t.3->0).0),
                            digits_val((t.3->0).1),
                            digits_val((t.3->0).2),
                        ).0,
                        prev_date(
                            digits_val((t.3->0).0),
                            digits_val((t.3->0).1),
                            digits_val((t.3->0).2),
                        ).1,
                        prev_date(
                            digits_val((t.3->0).0),
                            digits_val((t.3->0).1),
                            digits_val((t.3->0).2),
                        ).2,
                    ),
                    (t.3->0).3,
                )
            } else {
                r@ == nav_url(t.0, t.1, t.2, cur_pre_day_date(*cur), cur.3.spec_name())
            }
        }),
{
    let pre = cur.pre_day();
    let fb_date = pre.date();
    let fb_shift = pre.shift().to_string();
    match referer {
        None => render_nav_url(lang, line, item, fb_date.as_str(), fb_shift.as_str()),
        Some(rs) => {
            match parse_referer(rs.as_str()) {
                None => render_nav_url(lang, line, item, fb_date.as_str(), fb_shift.as_str()),
                Some(t) => {
                    match t.query {
                        None => render_nav_url(
                            t.lang.as_str(),
                            t.line.as_str(),
                            t.item.as_str(),
                            fb_date.as_str(),
                            fb_shift.as_str(),
                        ),
                        Some((y, mo, d, sh)) => {
                            proof {
                                lemma_ref_from_fields(rs@, 0);
                            }
                            let yu = parse_uint(y.as_str());
                            let mv = parse_uint(mo.as_str());
                            let dv = parse_uint(d.as_str());
                            let yv = yu as i32;
                            let date_ok: bool = if 1 <= mv && mv <= 12 {
                                let ml = month_length(yv, mv);
                                1 <= dv && dv <= ml
                            } else {
                                false
                            };
                            if date_ok {
                                let date = pre_day_str2date(y.as_str(), mo.as_str(), d.as_str());
                                render_nav_url(
                                    t.lang.as_str(),
                                    t.line.as_str(),
                                    t.item.as_str(),
                                    date.as_str(),
                                    sh.as_str(),
                                )
                            } else {
                                render_nav_url(
                                    t.lang.as_str(),
                                    t.line.as_str(),
                                    t.item.as_str(),
                                    fb_date.as_str(),
                                    fb_shift.as_str(),
                                )
                            }
                        },
                    }
                },
            }
        },
    }
}

/// The date the previous-shift fallback redirect carries: the previous date
/// for a DAY window, the same date for a NIGHT window.
pub open spec fn cur_pre_shift_date(cur: DateShift) -> Seq<char> {
    if cur.3 is Day {
        cur_pre_day_date(cur)
    } else {
        date_str(cur.0 as int, cur.1 as int, cur.2 as int)
    }
}

/// The shift word the previous-shift fallback redirect carries.
pub open spec fn cur_pre_shift_name(cur: DateShift) -> Seq<char> {
    if cur.3 is Day {
        "NIGHT"@
    } else {
        "DAY"@
    }
}

/// The redirect target of the "previous shift" action. Mirrors the
/// previous-day action, but steps back one shift: a DAY window is preceded
/// by the NIGHT keyed to the previous date, a NIGHT window by the DAY of
/// the same date (its date fields are kept verbatim). A referring URL
/// without a usable window - undecodable, no query part, an unknown shift
/// word, or an impossible calendar date - falls back to stepping the
/// current instant's window back one shift.
pub fn pre_shift_url_from(
    cur: &DateShift,
    lang: &str,
    line: &str,
    item: &str,
    referer: Option<&String>,
) -> (r: String)
    requires
        cur.wf(),
        1 <= cur.0,
    ensures
        referer is None ==> r@ == nav_url(
            lang@,
            line@,
            item@,
            cur_pre_shift_date(*cur),
            cur_pre_shift_name(*cur),
        ),
        referer is Some && parse_ref_from(referer->0@, 0) is None ==> r@ == nav_url(
            lang@,
            line@,
            item@,
            cur_pre_shift_date(*cur),
            cur_pre_shift_name(*cur),
        ),
        referer is Some && parse_ref_from(referer->0@, 0) is Some ==> ({
            let t = parse_ref_from(referer->0@, 0)->0;
            if t.3 is Some && (t.3->0).3 == "NIGHT"@ {
                r@ == nav_url(
                    t.0,
                    t.1,
                    t.2,
                    (t.3->0).0 + seq!['-'] + (t.3->0).1 + seq!['-'] + (t.3->0).2,
                    "DAY"@,
                )
            } else if t.3 is Some && (t.3->0).3 == "DAY"@ && valid_date(
                digits_val((t.3->0).0),
                digits_val((t.3->0).1),
                digits_val((t.3->0).2),
            ) {
                r@ == nav_url(
                    t.0,
                    t.1,
                    t.2,
                    date_str(
                        prev_date(
                            digits_val((t.3->0).0),
                            digits_val((t.3->0).1),
                            digits_val((t.3->0).2),
                        ).0,
                        prev_date(
                            digits_val((t.3->0).0),
                            digits_val((t.3->0).1),
                            digits_val((t.3->0).2),
                        ).1,
                        prev_date(
                            digits_val((t.3->0).0),
                            digits_val((t.3->0).1),
                            digits_val((t.3->0).2),
                        ).2,
                    ),
                    "NIGHT"@,
                )
            } else {
                r@ == nav_url(t.0, t.1, t.2, cur_pre_shift_date(*cur), cur_pre_shift_name(*cur))
            }
        }),
{
    proof {
        reveal_strlit("DAY");
        reveal_strlit("NIGHT");
        assert("DAY"@.len() == 3 && "NIGHT"@.len() == 5);
    }
    let pre = cur.pre_shift();
    let fb_date = pre.date();
    let fb_shift = pre.shift().to_string();
    match referer {
        None => render_nav_url(lang, line, item, fb_date.as_str(), fb_shift.as_str()),
        Some(rs) => {
            match parse_referer(rs.as_str()) {
                None => render_nav_url(lang, line, item, fb_date.as_str(), fb_shift.as_str()),
                Some(t) => {
                    match t.query {
                        None => render_nav_url(
                            t.lang.as_str(),
                            t.line.as_str(),
                            t.item.as_str(),
                            fb_date.as_str(),
                            fb_shift.as_str(),
                        ),
                        Some((y, mo, d, sh)) => {
                            proof {
                                lemma_ref_from_fields(rs@, 0);
                            }
                            if str_eq(sh.as_str(), "NIGHT") {
                                let (date, nshift) = pre_shift_str2date(
                                    y.as_str(),
                                    mo.as_str(),
                                    d.as_str(),
                                    sh.as_str(),
                                );
                                return render_nav_url(
                                    t.lang.as_str(),
                                    t.line.as_str(),
                                    t.item.as_str(),
                                    date.as_str(),
                                    nshift,
                                );
                            }
                            let is_day = str_eq(sh.as_str(), "DAY");
                            let yu = parse_uint(y.as_str());
                            let mv = parse_uint(mo.as_str());
                            let dv = parse_uint(d.as_str());
                            let yv = yu as i32;
                            let date_ok: bool = if 1 <= mv && mv <= 12 {
                                let ml = month_length(yv, mv);
                                1 <= dv && dv <= ml
                            } else {
                                false
                            };
                            if is_day && date_ok {
                                let (date, nshift) = pre_shift_str2date(
                                    y.as_str(),
                                    mo.as_str(),
                                    d.as_str(),
                                    sh.as_str(),
                                );
                                render_nav_url(
                                    t.lang.as_str(),
                                    t.line.as_str(),
                                    t.item.as_str(),
                                    date.as_str(),
                                    nshift,
                                )
                            } else {
                                render_nav_url(
                                    t.lang.as_str(),
                                    t.line.as_str(),
                                    t.item.as_str(),
                                    fb_date.as_str(),
                                    fb_shift.as_str(),
                                )
                            }
                        },
                    }
                },
            }
        },
    }
}

/// The payload of the current-shift endpoint: the window's date and shift
/// words.
pub struct CurShift {
    pub date: String,
    pub shift: String,
}

impl CurShift {
    /// Builds the payload naming a window.
    pub fn of(ds: &DateShift) -> (r: CurShift)
        requires
            0 <= ds.0,
            ds.1 < 100,
            ds.2 < 100,
        ensures
            r.date@ == date_str(ds.0 as int, ds.1 as int, ds.2 as int),
            r.shift@ == ds.3.spec_name(),
    {
        CurShift { date: ds.date(), shift: ds.3.to_string() }
    }
}

/// A shift's rendered name decodes back to the same shift.
pub proof fn lemma_shift_name_roundtrip(sh: Shift)
    ensures
        crate::params::spec_shift_of_str(sh.spec_name()) == Some(sh),
{
    reveal_strlit("DAY");
    reveal_strlit("NIGHT");
    assert("DAY"@.len() == 3 && "NIGHT"@.len() == 5);
}

/// A rendered "previous day" target re-parses to exactly the previous-day
/// window: stepping back and re-reading the carried date round-trips, so
/// the navigation does not depend on the referer once the window itself is
/// carried. The one window left out is the first day the strict date
/// pattern can name, whose predecessor leaves the pattern's decade.
pub proof fn lemma_pre_day_roundtrip(y: int, m: int, d: int)
    requires
        valid_date(y, m, d),
        2020 <= y <= 2029,
        !(y == 2020 && m == 1 && d == 1),
    ensures
        ({
            let p = prev_date(y, m, d);
            let s = date_str(p.0, p.1, p.2);
            is_query_date(s) && qd_year(s) == p.0 && qd_month(s) == p.1 && qd_day(s) == p.2
        }),
{
    let p = prev_date(y, m, d);
    let py = p.0;
    let pm = p.1;
    let pd = p.2;
    crate::calendar::lemma_prev_date_one_day_back(y, m, d);
    assert(2020 <= py <= 2029);
    vstd::arithmetic::div_mod::lemma_fundamental_div_mod_converse(py, 1000, 2, py - 2000);
    vstd::arithmetic::div_mod::lemma_fundamental_div_mod_converse(py, 100, 20, py - 2000);
    vstd::arithmetic::div_mod::lemma_fundamental_div_mod_converse(py, 10, 202, py - 2020);
    assert(py / 1000 == 2 && (py / 100) % 10 == 0 && (py / 10) % 10 == 2 && py % 10 == py - 2020);
    lemma_dec_str4(py);
    let s = date_str(py, pm, pd);
    reveal_strlit("-");
    assert("-"@.len() == 1);
    assert(dec_str(py).len() == 4);
    assert(s.len() == 10);
    assert(s[0] == '2' && s[1] == '0' && s[2] == '2' && s[3] == digit_char(py - 2020));
    assert(s[4] == '-');
    assert(s[5] == digit_char(pm / 10) && s[6] == digit_char(pm % 10));
    assert(s[7] == '-');
    assert(s[8] == digit_char(pd / 10) && s[9] == digit_char(pd % 10));
    assert(qd_year(s) == 2020 + (py - 2020));
    assert(qd_month(s) == 10 * (pm / 10) + pm % 10);
    assert(qd_day(s) == 10 * (pd / 10) + pd % 10);
}

} // verus!
