//! The PTSG YAML manifest schema as raw data, deliberately tolerant: every
//! field optional where real-world files omit it, booleans accept
//! `true`/`True`/strings, `Keys` items may be ints or strings. Reading YAML
//! into these types happens outside the verified core; everything derived
//! from them is defined here.

use vstd::prelude::*;

use crate::text::{chars_eq_str, chars_of, lower_chars, lower_seq, trim, trim_chars};

verus! {

/// Bool that tolerates YAML bools, "true"/"yes"/"on"/"1" strings (any case,
/// surrounding whitespace ignored), integers, and null. Missing = false.
#[derive(Debug, Clone, Copy, PartialEq, Eq, Structural)]
pub struct LaxBool(pub bool);

impl LaxBool {
    /// A string is true when, trimmed and lowercased, it is one of
    /// "true", "yes", "on", "1".
    pub open spec fn str_truth(s: Seq<char>) -> bool {
        let t = lower_seq(trim(s));
        t == "true"@ || t == "yes"@ || t == "on"@ || t == "1"@
    }

    pub fn from_str_value(s: &str) -> (r: LaxBool)
        ensures
            r.0 == Self::str_truth(s@),
    {
        let v = chars_of(s);
        let t0 = trim_chars(&v);
        let t = lower_chars(&t0);
        LaxBool(
            chars_eq_str(&t, "true") || chars_eq_str(&t, "yes") || chars_eq_str(&t, "on")
                || chars_eq_str(&t, "1"),
        )
    }

    pub fn from_i64(v: i64) -> (r: LaxBool)
        ensures
            r.0 == (v != 0),
    {
        LaxBool(v != 0)
    }

    pub fn from_u64(v: u64) -> (r: LaxBool)
        ensures
            r.0 == (v != 0),
    {
        LaxBool(v != 0)
    }

    /// YAML null / missing.
    pub fn absent() -> (r: LaxBool)
        ensures
            !r.0,
    {
        LaxBool(false)
    }
}

/// String-or-list field: `TitleMatch: "- Gmail"` and
/// `TitleMatch: ["- Gmail", "– Gmail"]` both parse. Null/missing = empty.
#[derive(Debug, PartialEq)]
pub struct LaxStringList(pub Vec<String>);

impl LaxStringList {
    pub fn single(s: String) -> (r: LaxStringList)
        ensures
            r.0@.len() == 1,
            r.0@[0] == s,
    {
        let mut v = Vec::new();
        v.push(s);
        LaxStringList(v)
    }

    pub fn empty() -> (r: LaxStringList)
        ensures
            r.0@.len() == 0,
    {
        LaxStringList(Vec::new())
    }
}

/// A `Keys` list item: YAML may give an unquoted int (`91`) or a string
/// (`"A"`, `"91"`, `"<Enter>"`). A bare `~` in YAML parses as null (the
/// tilde key written unquoted); it is treated as the literal "~" key.
#[derive(Debug, PartialEq)]
pub enum RawKeyToken {
    Num(u64),
    Str(String),
    Null,
}

pub enum RawKeyTokenV {
    Num(u64),
    Str(Seq<char>),
    Null,
}

impl View for RawKeyToken {
    type V = RawKeyTokenV;

    open spec fn view(&self) -> RawKeyTokenV {
        match self {
            RawKeyToken::Num(n) => RawKeyTokenV::Num(*n),
            RawKeyToken::Str(s) => RawKeyTokenV::Str(s@),
            RawKeyToken::Null => RawKeyTokenV::Null,
        }
    }
}

#[derive(Debug)]
pub struct RawKeyCombo {
    pub win: LaxBool,
    pub ctrl: LaxBool,
    pub shift: LaxBool,
    pub alt: LaxBool,
    pub keys: Option<Vec<RawKeyToken>>,
}

#[derive(Debug)]
pub struct RawEntry {
    pub name: Option<String>,
    pub description: Option<String>,
    pub recommended: LaxBool,
    pub shortcut: Option<Vec<RawKeyCombo>>,
}

#[derive(Debug)]
pub struct RawCategory {
    pub section_name: Option<String>,
    pub properties: Option<Vec<RawEntry>>,
}

#[derive(Debug)]
pub struct RawManifest {
    pub package_name: Option<String>,
    pub name: Option<String>,
    /// One identity or a list of them.
    pub window_filter: LaxStringList,
    pub background_process: LaxBool,
    /// Host class ("browser") for hosted collections — apps living inside a
    /// host app instead of their own exe.
    pub host: Option<String>,
    /// Case-insensitive substring(s) matched against the foreground window
    /// title to auto-detect the hosted app (experimental).
    pub title_match: LaxStringList,
    /// Image file next to the manifest for the rail icon.
    pub icon: Option<String>,
    pub shortcuts: Option<Vec<RawCategory>>,
}

pub open spec fn opt_seq(o: Option<String>) -> Option<Seq<char>> {
    match o {
        Some(s) => Some(s@),
        None => None,
    }
}

pub open spec fn tokens_view(v: Seq<RawKeyToken>) -> Seq<RawKeyTokenV> {
    v.map_values(|t: RawKeyToken| t@)
}

pub struct RawKeyComboV {
    pub win: bool,
    pub ctrl: bool,
    pub shift: bool,
    pub alt: bool,
    pub keys: Option<Seq<RawKeyTokenV>>,
}

impl View for RawKeyCombo {
    type V = RawKeyComboV;

    open spec fn view(&self) -> RawKeyComboV {
        RawKeyComboV {
            win: self.win.0,
            ctrl: self.ctrl.0,
            shift: self.shift.0,
            alt: self.alt.0,
            keys: match self.keys {
                Some(k) => Some(tokens_view(k@)),
                None => None,
            },
        }
    }
}

pub open spec fn raw_combos_view(v: Seq<RawKeyCombo>) -> Seq<RawKeyComboV> {
    v.map_values(|c: RawKeyCombo| c@)
}

pub struct RawEntryV {
    pub name: Option<Seq<char>>,
    pub description: Option<Seq<char>>,
    pub recommended: bool,
    pub shortcut: Option<Seq<RawKeyComboV>>,
}

impl View for RawEntry {
    type V = RawEntryV;

    open spec fn view(&self) -> RawEntryV {
        RawEntryV {
            name: opt_seq(self.name),
            description: opt_seq(self.description),
            recommended: self.recommended.0,
            shortcut: match self.shortcut {
                Some(c) => Some(raw_combos_view(c@)),
                None => None,
            },
        }
    }
}

pub open spec fn raw_entries_view(v: Seq<RawEntry>) -> Seq<RawEntryV> {
    v.map_values(|e: RawEntry| e@)
}

pub struct RawCategoryV {
    pub section_name: Option<Seq<char>>,
    pub properties: Option<Seq<RawEntryV>>,
}

impl View for RawCategory {
    type V = RawCategoryV;

    open spec fn view(&self) -> RawCategoryV {
        RawCategoryV {
            section_name: opt_seq(self.section_name),
            properties: match self.properties {
                Some(p) => Some(raw_entries_view(p@)),
                None => None,
            },
        }
    }
}

pub open spec fn raw_categories_view(v: Seq<RawCategory>) -> Seq<RawCategoryV> {
    v.map_values(|c: RawCategory| c@)
}

pub struct RawManifestV {
    pub package_name: Option<Seq<char>>,
    pub name: Option<Seq<char>>,
    pub window_filter: Seq<Seq<char>>,
    pub background_process: bool,
    pub host: Option<Seq<char>>,
    pub title_match: Seq<Seq<char>>,
    pub icon: Option<Seq<char>>,
    pub shortcuts: Option<Seq<RawCategoryV>>,
}

impl View for RawManifest {
    type V = RawManifestV;

    open spec fn view(&self) -> RawManifestV {
        RawManifestV {
            package_name: opt_seq(self.package_name),
            name: opt_seq(self.name),
            window_filter: self.window_filter.0@.map_values(|s: String| s@),
            background_process: self.background_process.0,
            host: opt_seq(self.host),
            title_match: self.title_match.0@.map_values(|s: String| s@),
            icon: opt_seq(self.icon),
            shortcuts: match self.shortcuts {
                Some(c) => Some(raw_categories_view(c@)),
                None => None,
            },
        }
    }
}

} // verus!
