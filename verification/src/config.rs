//! The per-line configuration: hostnames and the database file path of each
//! station store, with the lookup tables the query layer uses. Paths are
//! held as plain strings; reading and resolving the configuration file is
//! the caller's concern.
use crate::text::str_eq;
use vstd::prelude::*;

verus! {

/// Configuration of one BST line instance.
pub struct Bst {
    pub hostname: String,
    pub bst_db: String,
}

/// Configuration of one FST line instance, with one store per station.
pub struct Fst {
    pub hostname: String,
    pub lcd_db: String,
    pub diag_db: String,
    pub key_db: String,
}

/// The whole process configuration.
pub struct TomlConfig {
    pub current_exe_path: String,
    pub current_config_path: String,
    pub current_db_path: String,
    pub port: i32,
    pub bst1: Bst,
    pub bst2: Bst,
    pub fst1: Fst,
    pub fst2: Fst,
}

/// The hostname configured for a line, if the line is known.
pub open spec fn spec_hostname(c: &TomlConfig, line: Seq<char>) -> Option<Seq<char>> {
    if line == "bst1"@ {
        Some(c.bst1.hostname@)
    } else if line == "bst2"@ {
        Some(c.bst2.hostname@)
    } else if line == "fst1"@ {
        Some(c.fst1.hostname@)
    } else if line == "fst2"@ {
        Some(c.fst2.hostname@)
    } else {
        None
    }
}

/// The database path configured for a line and station, if that pair has a
/// physical store.
pub open spec fn spec_db(c: &TomlConfig, line: Seq<char>, station: Seq<char>) -> Option<
    Seq<char>,
> {
    if line == "bst1"@ && station == "BST"@ {
        Some(c.bst1.bst_db@)
    } else if line == "bst2"@ && station == "BST"@ {
        Some(c.bst2.bst_db@)
    } else if line == "fst1"@ && station == "LCDLED"@ {
        Some(c.fst1.lcd_db@)
    } else if line == "fst1"@ && station == "DIAG"@ {
        Some(c.fst1.diag_db@)
    } else if line == "fst1"@ && station == "KEYPAD"@ {
        Some(c.fst1.key_db@)
    } else if line == "fst2"@ && station == "LCDLED"@ {
        Some(c.fst2.lcd_db@)
    } else if line == "fst2"@ && station == "DIAG"@ {
        Some(c.fst2.diag_db@)
    } else if line == "fst2"@ && station == "KEYPAD"@ {
        Some(c.fst2.key_db@)
    } else {
        None
    }
}

impl TomlConfig {
    /// The hostname of a line.
    pub fn get_hostname(&self, line: &str) -> (r: Option<&String>)
        ensures
            r is Some ==> spec_hostname(self, line@) == Some(r->Some_0@),
            r is None ==> spec_hostname(self, line@) is None,
    {
        if str_eq(line, "bst1") {
            Some(&self.bst1.hostname)
        } else if str_eq(line, "bst2") {
            Some(&self.bst2.hostname)
        } else if str_eq(line, "fst1") {
            Some(&self.fst1.hostname)
        } else if str_eq(line, "fst2") {
            Some(&self.fst2.hostname)
        } else {
            None
        }
    }

    /// The database path of the store behind a line and station.
    pub fn get_db(&self, line: &str, station: &str) -> (r: Option<&String>)
        ensures
            r is Some ==> spec_db(self, line@, station@) == Some(r->Some_0@),
            r is None ==> spec_db(self, line@, station@) is None,
    {
        let bst = str_eq(station, "BST");
        let lcd = str_eq(station, "LCDLED");
        let diag = str_eq(station, "DIAG");
        let key = str_eq(station, "KEYPAD");
        if str_eq(line, "bst1") && bst {
            Some(&self.bst1.bst_db)
        } else if str_eq(line, "bst2") && bst {
            Some(&self.bst2.bst_db)
        } else if str_eq(line, "fst1") && lcd {
            Some(&self.fst1.lcd_db)
        } else if str_eq(line, "fst1") && diag {
            Some(&self.fst1.diag_db)
        } else if str_eq(line, "fst1") && key {
            Some(&self.fst1.key_db)
        } else if str_eq(line, "fst2") && lcd {
            Some(&self.fst2.lcd_db)
        } else if str_eq(line, "fst2") && diag {
            Some(&self.fst2.diag_db)
        } else if str_eq(line, "fst2") && key {
            Some(&self.fst2.key_db)
        } else {
            None
        }
    }

    /// All eight physical stores, as `(area, hostname, path)`, in the fixed
    /// scan order the cross-store serial lookup uses.
    pub fn get_all_db(&self) -> (r: [(&str, &String, &String); 8])
        ensures
            r@.len() == 8,
            r@[0].0@ == "PCBDG"@ && r@[0].1@ == self.bst1.hostname@ && r@[0].2@
                == self.bst1.bst_db@,
            r@[1].0@ == "PCBDG"@ && r@[1].1@ == self.bst2.hostname@ && r@[1].2@
                == self.bst2.bst_db@,
            r@[2].0@ == "PCBINT"@ && r@[2].1@ == self.fst1.hostname@ && r@[2].2@
                == self.fst1.lcd_db@,
            r@[3].0@ == "PCBINT"@ && r@[3].1@ == self.fst1.hostname@ && r@[3].2@
                == self.fst1.diag_db@,
            r@[4].0@ == "PCBINT"@ && r@[4].1@ == self.fst1.hostname@ && r@[4].2@
                == self.fst1.key_db@,
            r@[5].0@ == "PCBINT"@ && r@[5].1@ == self.fst2.hostname@ && r@[5].2@
                == self.fst2.lcd_db@,
            r@[6].0@ == "PCBINT"@ && r@[6].1@ == self.fst2.hostname@ && r@[6].2@
                == self.fst2.diag_db@,
            r@[7].0@ == "PCBINT"@ && r@[7].1@ == self.fst2.hostname@ && r@[7].2@
                == self.fst2.key_db@,
    {
        [
            ("PCBDG", &self.bst1.hostname, &self.bst1.bst_db),
            ("PCBDG", &self.bst2.hostname, &self.bst2.bst_db),
            ("PCBINT", &self.fst1.hostname, &self.fst1.lcd_db),
            ("PCBINT", &self.fst1.hostname, &self.fst1.diag_db),
            ("PCBINT", &self.fst1.hostname, &self.fst1.key_db),
            ("PCBINT", &self.fst2.hostname, &self.fst2.lcd_db),
            ("PCBINT", &self.fst2.hostname, &self.fst2.diag_db),
            ("PCBINT", &self.fst2.hostname, &self.fst2.key_db),
        ]
    }
}

} // verus!
