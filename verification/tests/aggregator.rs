use shiftboard::tally::{array2rfp, array2str, extract_cell, get_index, redact_sn, row_to_cell,
    row_to_detail, row_to_pf, row_to_rec, row_to_yield, rows_to_station_yield, rpft_default,
    zero2space, RawRow};

fn buckets() -> Vec<(u32, u32)> {
    (0..12u32).map(|i| (1000 + i * 3600, 1000 + i * 3600 + 3600)).collect()
}

fn labels() -> Vec<String> {
    let mut v: Vec<String> = (0..12).map(|i| format!("h{i}")).collect();
    v.push("SUM".to_string());
    v
}

fn raw(sn: &str, result: &str, cell: &str) -> RawRow {
    RawRow {
        beijing_str: "2024-01-05 08:00:00".to_string(),
        sn: sn.to_string(),
        pid: "PID1".to_string(),
        pn: "PN1".to_string(),
        result: result.to_string(),
        cell: cell.to_string(),
        msg: "msg".to_string(),
        msg_detail: "detail".to_string(),
    }
}

#[test]
fn serial_redaction() {
    assert_eq!(redact_sn("FCH11111111".to_string()), "");
    assert_eq!(redact_sn("FCH12345678".to_string()), "");
    assert_eq!(redact_sn("FCH99999999".to_string()), "FCH99999999");
    assert_eq!(redact_sn("".to_string()), "");
}

#[test]
fn cell_id_extraction() {
    assert_eq!(extract_cell("SRC|AREA|STATION-1|CELL_85"), "CELL_85");
    assert_eq!(
        extract_cell("UCEBU Automatic BST New|PCBDG|BST-01|BST_01:DUT_02"),
        "BST_01:DUT_02"
    );
    assert_eq!(extract_cell("no_bars_here"), "no_bars_here");
    assert_eq!(extract_cell("trailing|"), "");
    assert_eq!(extract_cell(""), "");
}

#[test]
fn zero_blanking() {
    assert_eq!(zero2space("0"), "");
    assert_eq!(zero2space("5"), "5");
    assert_eq!(zero2space("00"), "00");
}

#[test]
fn station_yield_counts_and_ratio() {
    let rows = vec![
        ("S".to_string(), 399u16),
        ("P".to_string(), 348u16),
        ("F".to_string(), 51u16),
        ("U".to_string(), 2u16),
    ];
    let r = rows_to_station_yield("CELL_85", &rows);
    assert_eq!(r, ("CELL_85", 399, 348, 51, 2, "12.8 %".to_string()));
}

#[test]
fn station_yield_blank_when_gated() {
    // no skip count: the yield stays blank
    let rows = vec![("P".to_string(), 10u16), ("F".to_string(), 5u16)];
    let r = rows_to_station_yield("CELL_81", &rows);
    assert_eq!(r.5, "");
    // no fail count: blank too
    let rows = vec![("S".to_string(), 10u16), ("P".to_string(), 5u16)];
    let r = rows_to_station_yield("CELL_81", &rows);
    assert_eq!(r.5, "");
    // later rows overwrite earlier ones
    let rows = vec![("S".to_string(), 3u16), ("S".to_string(), 1u16), ("F".to_string(), 1u16)];
    let r = rows_to_station_yield("CELL_81", &rows);
    assert_eq!((r.1, r.3), (1, 1));
    assert_eq!(r.5, "100.0 %");
}

#[test]
fn bucket_index_is_first_match() {
    let bs = buckets();
    assert_eq!(get_index(&bs, 1000), 0);
    assert_eq!(get_index(&bs, 4599), 0);
    assert_eq!(get_index(&bs, 4600), 1);
    assert_eq!(get_index(&bs, 1000 + 11 * 3600), 11);
}

#[test]
fn hourly_tallies_sum_to_window_tally() {
    let bs = buckets();
    let rows = vec![
        ("P".to_string(), 1000u32),
        ("P".to_string(), 1000 + 3600),
        ("F".to_string(), 1000 + 3600),
        ("S".to_string(), 1000 + 5 * 3600),
        ("U".to_string(), 1000 + 11 * 3600),
        ("P".to_string(), 1000 + 11 * 3600 + 3599),
        ("X".to_string(), 1000),
    ];
    let r = row_to_yield(&rows, &bs, &labels());
    assert_eq!(r.len(), 13);
    assert_eq!(r[0].0, "h0");
    assert_eq!(r[12].0, "SUM");
    // per-bucket counts
    assert_eq!((r[0].1, r[0].2, r[0].3, r[0].4), (0, 1, 0, 0));
    assert_eq!((r[1].1, r[1].2, r[1].3, r[1].4), (0, 1, 1, 0));
    assert_eq!((r[5].1, r[5].2, r[5].3, r[5].4), (1, 0, 0, 0));
    assert_eq!((r[11].1, r[11].2, r[11].3, r[11].4), (0, 1, 0, 1));
    // the SUM row equals the sum of the hour rows, column by column
    let mut sums = (0u32, 0u32, 0u32, 0u32);
    for i in 0..12 {
        sums.0 += r[i].1 as u32;
        sums.1 += r[i].2 as u32;
        sums.2 += r[i].3 as u32;
        sums.3 += r[i].4 as u32;
    }
    assert_eq!(
        (r[12].1 as u32, r[12].2 as u32, r[12].3 as u32, r[12].4 as u32),
        sums
    );
    // an unrecognized result code is counted nowhere
    assert_eq!(sums, (1, 3, 1, 1));
}

#[test]
fn pass_fail_matrix() {
    let bs = buckets();
    let key = |cell: &str| format!("Bgibest Auto FST 1|PCBINT|LCDLED-1|{cell}");
    let rows = vec![
        ("P".to_string(), 1000u32, key("CELL_81")),
        ("F".to_string(), 1200u32, key("CELL_82")),
        ("P".to_string(), 1000 + 2 * 3600, key("CELL_81")),
        ("S".to_string(), 1000u32, key("CELL_81")),
    ];
    let r = row_to_pf(&rows, "LCDLED", &bs, &labels());
    assert_eq!(r.len(), 13);
    assert_eq!(r[0].0, "h0");
    assert_eq!(r[0].1.len(), 9);
    // hour row 0: CELL_81 one pass, CELL_82 one fail, row total one of each
    assert_eq!(r[0].1[1], "1");
    assert_eq!(r[0].1[2], " | 1");
    assert_eq!(r[0].1[0], "1 | 1");
    // hour row 2: the second CELL_81 pass
    assert_eq!(r[2].1[1], "1");
    // SUM row: CELL_81 two passes, total 2 | 1; skips are ignored here
    assert_eq!(r[12].1[1], "2");
    assert_eq!(r[12].1[0], "2 | 1");
    // untouched slots stay blank
    assert_eq!(r[5].1[3], "");
}

#[test]
fn matrix_helpers() {
    let grid = rpft_default();
    assert_eq!(grid.len(), 117);
    assert!(grid.iter().all(|&c| c == (0, 0)));
    let mut grid = grid;
    grid[0] = (2, 3);
    grid[1] = (4, 0);
    grid[2] = (0, 7);
    let strs = array2str(&grid);
    assert_eq!(strs[0], "2 | 3");
    assert_eq!(strs[1], "4");
    assert_eq!(strs[2], " | 7");
    assert_eq!(strs[3], "");
    let rows = array2rfp(&strs, &labels());
    assert_eq!(rows.len(), 13);
    assert_eq!(rows[0].0, "h0");
    assert_eq!(rows[0].1[0], "2 | 3");
    assert_eq!(rows[1].1[0], "");
}

#[test]
fn cell_records() {
    let rows = vec![
        raw("FCH00000001", "P", "A|B|LCDLED-1|CELL_81"),
        raw("FCH11111111", "F", "A|B|LCDLED-1|CELL_82"),
        raw("FCH00000003", "U", "A|B|LCDLED-1|CELL_83"),
        raw("FCH00000004", "S", "A|B|LCDLED-1|CELL_84"),
    ];
    let ((s, p, f, u), fails) = row_to_cell(&rows);
    assert_eq!((s, p, f, u), (1, 1, 1, 1));
    assert_eq!(fails.len(), 2);
    assert_eq!(fails[0].seq, 2);
    assert_eq!(fails[0].sn, "");
    assert_eq!(fails[0].result, "F");
    assert_eq!(fails[0].cell, "CELL_82");
    assert_eq!(fails[1].seq, 3);
    assert_eq!(fails[1].sn, "FCH00000003");
    assert_eq!(fails[1].cell, "CELL_83");
}

#[test]
fn detail_and_sn_records() {
    let rows = vec![raw("FCH12345678", "F", "A|B|DIAG-1|CELL_53")];
    let det = row_to_detail(&rows);
    assert_eq!(det.len(), 1);
    assert_eq!(det[0].sn, "");
    assert_eq!(det[0].cell, "CELL_53");
    assert_eq!(det[0].msg, "msg");
    let rec = row_to_rec(&rows, "PCBINT", "host-1");
    assert_eq!(rec.len(), 1);
    // placeholder serials render empty in the serial history view too
    assert_eq!(rec[0].sn, "");
    assert_eq!(rec[0].area, "PCBINT");
    assert_eq!(rec[0].hostname, "host-1");
    assert_eq!(rec[0].cell, "CELL_53");
}
