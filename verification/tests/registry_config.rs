use shiftboard::config::{Bst, Fst, TomlConfig};
use shiftboard::facade::{cell_key, is_line, station_cell_keys};
use shiftboard::registry::{cell2station, get_cell_index, get_cells};

#[test]
fn cell_to_station() {
    assert_eq!(cell2station("CELL_85"), Some("LCDLED"));
    assert_eq!(cell2station("CELL_53"), Some("DIAG"));
    assert_eq!(cell2station("CELL_79"), Some("KEYPAD"));
    assert_eq!(cell2station("BST_01:DUT_08"), Some("BST"));
    assert_eq!(cell2station("CELL_99"), None);
    assert_eq!(cell2station(""), None);
}

#[test]
fn station_cell_lists() {
    assert_eq!(get_cells("BST").len(), 8);
    assert_eq!(get_cells("LCDLED").len(), 6);
    assert_eq!(get_cells("DIAG").len(), 8);
    assert_eq!(get_cells("KEYPAD").len(), 6);
    assert_eq!(get_cells("SOMETHING").len(), 0);
    assert_eq!(get_cells("LCDLED")[0], "CELL_81");
    assert_eq!(get_cells("DIAG")[7], "CELL_67");
}

#[test]
fn cell_positions() {
    assert_eq!(get_cell_index("CELL_85", "LCDLED"), 4);
    assert_eq!(get_cell_index("CELL_53", "DIAG"), 0);
    assert_eq!(get_cell_index("BST_01:DUT_03", "BST"), 2);
}

#[test]
fn legacy_keys() {
    assert_eq!(
        cell_key("fst1", "LCDLED", "CELL_81"),
        "Bgibest Auto FST 1|PCBINT|LCDLED-1|CELL_81"
    );
    assert_eq!(
        cell_key("fst2", "KEYPAD", "CELL_69"),
        "Bgibest Auto FST 2|PCBINT|KEYPAD-2|CELL_69"
    );
    assert_eq!(
        cell_key("bst1", "BST", "BST_01:DUT_01"),
        "UCEBU Automatic BST New|PCBDG|BST-01|BST_01:DUT_01"
    );
    let keys = station_cell_keys("fst1", "DIAG");
    assert_eq!(keys.len(), 8);
    assert_eq!(keys[1], "Bgibest Auto FST 1|PCBINT|DIAG-1|CELL_55");
    // key construction and cell extraction are inverse
    assert_eq!(shiftboard::tally::extract_cell(&keys[0]), "CELL_53");
    assert_eq!(shiftboard::tally::extract_cell(&keys[7]), "CELL_67");
}

#[test]
fn line_names() {
    assert!(is_line("bst1"));
    assert!(is_line("fst2"));
    assert!(!is_line("fst3"));
    assert!(!is_line(""));
}

fn sample_config() -> TomlConfig {
    TomlConfig {
        current_exe_path: "/srv/app".to_string(),
        current_config_path: "/srv/app/config.toml".to_string(),
        current_db_path: "/srv/app/db".to_string(),
        port: 7890,
        bst1: Bst { hostname: "bst1-host".to_string(), bst_db: "/db/bst1/b.db".to_string() },
        bst2: Bst { hostname: "bst2-host".to_string(), bst_db: "/db/bst2/b.db".to_string() },
        fst1: Fst {
            hostname: "fst1-host".to_string(),
            lcd_db: "/db/fst1/lcd.db".to_string(),
            diag_db: "/db/fst1/diag.db".to_string(),
            key_db: "/db/fst1/key.db".to_string(),
        },
        fst2: Fst {
            hostname: "fst2-host".to_string(),
            lcd_db: "/db/fst2/lcd.db".to_string(),
            diag_db: "/db/fst2/diag.db".to_string(),
            key_db: "/db/fst2/key.db".to_string(),
        },
    }
}

#[test]
fn config_lookups() {
    let c = sample_config();
    assert_eq!(c.get_hostname("bst1"), Some(&"bst1-host".to_string()));
    assert_eq!(c.get_hostname("fst2"), Some(&"fst2-host".to_string()));
    assert_eq!(c.get_hostname("nope"), None);
    assert_eq!(c.get_db("bst1", "BST"), Some(&"/db/bst1/b.db".to_string()));
    assert_eq!(c.get_db("fst1", "DIAG"), Some(&"/db/fst1/diag.db".to_string()));
    assert_eq!(c.get_db("fst2", "KEYPAD"), Some(&"/db/fst2/key.db".to_string()));
    assert_eq!(c.get_db("bst1", "LCDLED"), None);
    assert_eq!(c.get_db("fst1", "BST"), None);
    let all = c.get_all_db();
    assert_eq!(all.len(), 8);
    assert_eq!(all[0].0, "PCBDG");
    assert_eq!(all[0].1, "bst1-host");
    assert_eq!(all[2].0, "PCBINT");
    assert_eq!(all[7].2, "/db/fst2/key.db");
}
