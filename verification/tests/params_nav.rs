use shiftboard::calendar::{DateShift, Shift};
use shiftboard::nav::{parse_referer, pre_day_url_from, pre_shift_url_from, render_nav_url,
    CurShift};
use shiftboard::params::{normalize_sn, parse_query_date, QueryCellParams, QueryDateParams};

fn qd(date: Option<&str>, shift: Option<&str>) -> QueryDateParams {
    QueryDateParams {
        querydate: date.map(|s| s.to_string()),
        shift: shift.map(|s| s.to_string()),
    }
}

#[test]
fn date_parameter_decoding() {
    let p = qd(Some("2024-01-06"), Some("DAY"));
    assert_eq!(p.des(), Some(DateShift(2024, 1, 6, Shift::Day)));
    let p = qd(Some("2029-12-31"), Some("NIGHT"));
    assert_eq!(p.des(), Some(DateShift(2029, 12, 31, Shift::Night)));
    // the year must be in the 2020s
    assert_eq!(qd(Some("2019-01-06"), Some("DAY")).des(), None);
    assert_eq!(qd(Some("2030-01-06"), Some("DAY")).des(), None);
    // months and days outside the pattern
    assert_eq!(qd(Some("2024-13-06"), Some("DAY")).des(), None);
    assert_eq!(qd(Some("2024-00-06"), Some("DAY")).des(), None);
    assert_eq!(qd(Some("2024-01-32"), Some("DAY")).des(), None);
    assert_eq!(qd(Some("2024-01-00"), Some("DAY")).des(), None);
    // shift word must be the exact literal
    assert_eq!(qd(Some("2024-01-06"), Some("day")).des(), None);
    assert_eq!(qd(Some("2024-01-06"), None).des(), None);
    assert_eq!(qd(None, Some("DAY")).des(), None);
    // the pattern admits a calendar-impossible day; decoding keeps it
    assert_eq!(
        qd(Some("2024-02-31"), Some("DAY")).des(),
        Some(DateShift(2024, 2, 31, Shift::Day))
    );
}

#[test]
fn date_parameter_validity_flag() {
    // well-formed date together with a DAY/NIGHT shift word
    assert!(qd(Some("2024-01-06"), Some("DAY")).valid());
    assert!(qd(Some("2024-01-06"), Some("NIGHT")).valid());
    assert!(!qd(Some("garbage"), Some("DAY")).valid());
    assert!(!qd(Some("2024-01-06"), Some("dusk")).valid());
    assert!(!qd(None, Some("DAY")).valid());
    assert!(!qd(Some("2024-01-06"), None).valid());
}

#[test]
fn query_date_values() {
    assert_eq!(parse_query_date("2024-01-06"), Some((2024, 1, 6)));
    assert_eq!(parse_query_date("2027-10-30"), Some((2027, 10, 30)));
    assert_eq!(parse_query_date("2024-1-6"), None);
    assert_eq!(parse_query_date(""), None);
}

#[test]
fn cell_parameter() {
    let p = QueryCellParams { cell: Some("CELL_85".to_string()) };
    assert!(p.valid());
    let p = QueryCellParams { cell: Some("CELL_99".to_string()) };
    assert!(!p.valid());
    let p = QueryCellParams { cell: None };
    assert!(!p.valid());
}

#[test]
fn serial_normalization() {
    // trimmed and uppercased
    assert_eq!(normalize_sn(" abc0123456z "), Some("ABC0123456Z".to_string()));
    assert_eq!(normalize_sn("fch99999999"), Some("FCH99999999".to_string()));
    // the two placeholder serials are rejected, as is anything outside the
    // eleven-character pattern
    assert_eq!(normalize_sn("FCH11111111"), None);
    assert_eq!(normalize_sn(" fch12345678 "), None);
    assert_eq!(normalize_sn("!!"), None);
    assert_eq!(normalize_sn("ABC123"), None);
    assert_eq!(normalize_sn(""), None);
}

#[test]
fn referer_decoding() {
    let r = parse_referer("http://localhost:7890/en-US/fst2/fail_detail").unwrap();
    assert_eq!(r.lang, "en-US");
    assert_eq!(r.line, "fst2");
    assert_eq!(r.item, "fail_detail");
    assert!(r.query.is_none());

    let r = parse_referer(
        "http://localhost:7890/en-US/fst2/fail_detail/?querydate=2024-01-04&shift=DAY",
    )
    .unwrap();
    assert_eq!(r.lang, "en-US");
    assert_eq!(r.line, "fst2");
    assert_eq!(r.item, "fail_detail");
    let (y, m, d, s) = r.query.unwrap();
    assert_eq!((y.as_str(), m.as_str(), d.as_str(), s.as_str()), ("2024", "01", "04", "DAY"));

    assert!(parse_referer("not a url").is_none());
    assert!(parse_referer("http://host/en-US/fst2/pf_data").is_none());  // no port
    // the grammar has no month 10: such a referer does not decode
    assert!(parse_referer(
        "http://localhost:7890/en-US/fst2/pf_data/?querydate=2024-10-04&shift=DAY"
    )
    .is_none());
}

#[test]
fn previous_day_navigation() {
    let cur = DateShift(2024, 1, 5, Shift::Day);
    // no referer: the current window steps back a day, same shift
    let url = pre_day_url_from(&cur, "en-US", "fst1", "pf_data", None);
    assert_eq!(url, "/en-US/fst1/pf_data/?querydate=2024-01-04&shift=DAY");
    // a referer without a query falls back to the current window but keeps
    // the referer's path fields
    let referer = "http://localhost:7890/zh-CN/bst2/day_yield".to_string();
    let url = pre_day_url_from(&cur, "en-US", "fst1", "pf_data", Some(&referer));
    assert_eq!(url, "/zh-CN/bst2/day_yield/?querydate=2024-01-04&shift=DAY");
    // a referer with a window steps that window back
    let referer =
        "http://localhost:7890/en-US/fst2/fail_detail/?querydate=2024-03-01&shift=NIGHT"
            .to_string();
    let url = pre_day_url_from(&cur, "en-US", "fst1", "pf_data", Some(&referer));
    assert_eq!(url, "/en-US/fst2/fail_detail/?querydate=2024-02-29&shift=NIGHT");
    // an unreadable referer falls back to the current instant under the
    // caller's own path fields
    let url = pre_day_url_from(&cur, "en-US", "fst1", "pf_data", Some(&"??".to_string()));
    assert_eq!(url, "/en-US/fst1/pf_data/?querydate=2024-01-04&shift=DAY");
    // a decodable referer with a calendar-impossible date falls back too,
    // under the referer's path fields
    let referer =
        "http://localhost:7890/en-US/fst2/fail_detail/?querydate=2024-00-04&shift=DAY"
            .to_string();
    let url = pre_day_url_from(&cur, "en-US", "fst1", "pf_data", Some(&referer));
    assert_eq!(url, "/en-US/fst2/fail_detail/?querydate=2024-01-04&shift=DAY");
}

#[test]
fn previous_shift_navigation() {
    let cur = DateShift(2024, 1, 5, Shift::Day);
    let url = pre_shift_url_from(&cur, "en-US", "fst1", "pf_data", None);
    assert_eq!(url, "/en-US/fst1/pf_data/?querydate=2024-01-04&shift=NIGHT");
    let cur_night = DateShift(2024, 1, 5, Shift::Night);
    let url = pre_shift_url_from(&cur_night, "en-US", "fst1", "pf_data", None);
    assert_eq!(url, "/en-US/fst1/pf_data/?querydate=2024-01-05&shift=DAY");
    // a NIGHT referer window keeps its date fields verbatim
    let referer =
        "http://localhost:7890/vi-VN/fst2/pf_data/?querydate=2024-01-04&shift=NIGHT".to_string();
    let url = pre_shift_url_from(&cur, "en-US", "fst1", "pf_data", Some(&referer));
    assert_eq!(url, "/vi-VN/fst2/pf_data/?querydate=2024-01-04&shift=DAY");
    // a DAY referer window steps back a day and flips to NIGHT
    let referer =
        "http://localhost:7890/vi-VN/fst2/pf_data/?querydate=2024-01-04&shift=DAY".to_string();
    let url = pre_shift_url_from(&cur, "en-US", "fst1", "pf_data", Some(&referer));
    assert_eq!(url, "/vi-VN/fst2/pf_data/?querydate=2024-01-03&shift=NIGHT");
    // an unknown shift word falls back to stepping the current window,
    // under the referer's path fields
    let referer =
        "http://localhost:7890/vi-VN/fst2/pf_data/?querydate=2024-01-04&shift=DUSK".to_string();
    let url = pre_shift_url_from(&cur, "en-US", "fst1", "pf_data", Some(&referer));
    assert_eq!(url, "/vi-VN/fst2/pf_data/?querydate=2024-01-04&shift=NIGHT");
    // so does an undecodable referer, under the caller's path fields
    let url = pre_shift_url_from(&cur, "en-US", "fst1", "pf_data", Some(&"x".to_string()));
    assert_eq!(url, "/en-US/fst1/pf_data/?querydate=2024-01-04&shift=NIGHT");
}

#[test]
fn previous_day_round_trip() {
    // the rendered target, re-parsed, equals the direct computation
    let cur = DateShift(2024, 3, 1, Shift::Day);
    let url = pre_day_url_from(&cur, "en-US", "fst1", "pf_data", None);
    let date = url.split("querydate=").nth(1).unwrap().split('&').next().unwrap();
    let shift = url.split("shift=").nth(1).unwrap();
    let p = qd(Some(date), Some(shift));
    assert_eq!(p.des(), Some(cur.pre_day()));
}

#[test]
fn current_shift_payload() {
    let c = CurShift::of(&DateShift(2024, 1, 5, Shift::Night));
    assert_eq!(c.date, "2024-01-05");
    assert_eq!(c.shift, "NIGHT");
    let url = render_nav_url("en-US", "bst1", "pf_data", "2024-01-05", "DAY");
    assert_eq!(url, "/en-US/bst1/pf_data/?querydate=2024-01-05&shift=DAY");
}
