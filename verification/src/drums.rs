//! Parsing of percussive tokens: a drum name from a fixed vocabulary,
//! optional duration digits, and the fixed synonym table that maps the
//! input vocabulary to the output one.

use vstd::prelude::*;

use crate::chars::has_alpha;
use crate::chars::is_digit;
use crate::chars::skip_alpha;
use crate::chars::skip_digits;
use crate::chars::spec_read_u32;
use crate::chars::spec_trim;
use crate::chars::push_range;
use crate::chars::read_u32;
use crate::chars::scan_alpha;
use crate::chars::scan_digits;
use crate::chars::string_of;
use crate::chars::trim_chars;
use crate::chars::unicode_eq;
use crate::events::DrumHit;

verus! {

/// The drum-name vocabulary this parser recognises.
pub open spec fn is_drum_name(s: Seq<char>) -> bool {
    ||| s == "bd"@
    ||| s == "sn"@
    ||| s == "hh"@
    ||| s == "hhc"@
    ||| s == "hho"@
    ||| s == "hhp"@
    ||| s == "cymc"@
    ||| s == "cymr"@
    ||| s == "cymca"@
    ||| s == "cymcb"@
    ||| s == "tom"@
    ||| s == "tomh"@
    ||| s == "tomm"@
    ||| s == "toml"@
    ||| s == "tomfl"@
    ||| s == "tomfh"@
    ||| s == "cb"@
    ||| s == "cl"@
    ||| s == "cp"@
    ||| s == "cr"@
    ||| s == "gui"@
    ||| s == "hc"@
    ||| s == "lc"@
    ||| s == "mc"@
    ||| s == "rc"@
    ||| s == "ride"@
    ||| s == "rb"@
    ||| s == "ss"@
    ||| s == "tamb"@
    ||| s == "tri"@
    ||| s == "whl"@
    ||| s == "whs"@
    ||| s == "pedalhihat"@
    ||| s == "hihat"@
    ||| s == "openhat"@
    ||| s == "closehat"@
}

/// The synonym table from the input vocabulary to the output one; names
/// without an entry pass through unchanged.
pub open spec fn drum_synonym(s: Seq<char>) -> Seq<char> {
    if s == "sn"@ {
        "sd"@
    } else if s == "hhc"@ {
        "hh"@
    } else if s == "hho"@ {
        "oh"@
    } else if s == "cymc"@ {
        "cr"@
    } else if s == "cymr"@ {
        "rd"@
    } else if s == "tomh"@ {
        "ht"@
    } else if s == "tomm"@ {
        "mt"@
    } else if s == "toml"@ {
        "lt"@
    } else if s == "ss"@ {
        "rim"@
    } else {
        s
    }
}

/// Ghost model of a parsed drum hit: output-vocabulary name and duration.
pub ghost struct GHit {
    pub name: Seq<char>,
    pub duration: u32,
}

pub open spec fn hit_matches(h: DrumHit, g: GHit) -> bool {
    h.name@ == g.name && h.duration == g.duration
}

pub open spec fn hit_opt_matches(r: Option<DrumHit>, g: Option<GHit>) -> bool {
    match (r, g) {
        (Option::None, Option::None) => true,
        (Option::Some(h), Option::Some(m)) => hit_matches(h, m),
        _ => false,
    }
}

/// Model of parsing a drum token: the leading alphabetic run must be a
/// known drum name; digits give the duration (default 4); anything after
/// the digits is ignored.
pub open spec fn spec_parse_drum_hit(t0: Seq<char>) -> Option<GHit> {
    let t = spec_trim(t0);
    if t.len() > 0 && (t[0] == '|' || t[0] == '\\') {
        None
    } else {
        let a = skip_alpha(t, 0);
        let name = t.subrange(0, a);
        if !is_drum_name(name) {
            None
        } else {
            let j = skip_digits(t, a);
            Some(GHit { name: drum_synonym(name), duration: spec_read_u32(t, a, j, 4) })
        }
    }
}

fn drum_name_known(name: &Vec<char>) -> (r: bool)
    ensures
        r == is_drum_name(name@),
{
    unicode_eq(name, "bd") || unicode_eq(name, "sn") || unicode_eq(name, "hh") || unicode_eq(
        name,
        "hhc",
    ) || unicode_eq(name, "hho") || unicode_eq(name, "hhp") || unicode_eq(name, "cymc")
        || unicode_eq(name, "cymr") || unicode_eq(name, "cymca") || unicode_eq(name, "cymcb")
        || unicode_eq(name, "tom") || unicode_eq(name, "tomh") || unicode_eq(name, "tomm")
        || unicode_eq(name, "toml") || unicode_eq(name, "tomfl") || unicode_eq(name, "tomfh")
        || unicode_eq(name, "cb") || unicode_eq(name, "cl") || unicode_eq(name, "cp") || unicode_eq(
        name,
        "cr",
    ) || unicode_eq(name, "gui") || unicode_eq(name, "hc") || unicode_eq(name, "lc") || unicode_eq(
        name,
        "mc",
    ) || unicode_eq(name, "rc") || unicode_eq(name, "ride") || unicode_eq(name, "rb")
        || unicode_eq(name, "ss") || unicode_eq(name, "tamb") || unicode_eq(name, "tri")
        || unicode_eq(name, "whl") || unicode_eq(name, "whs") || unicode_eq(name, "pedalhihat")
        || unicode_eq(name, "hihat") || unicode_eq(name, "openhat") || unicode_eq(name, "closehat")
}

/// Map a drum name through the synonym table. Mirrors `drum_synonym`.
pub fn lilypond_to_strudel_drum(name: &Vec<char>) -> (r: String)
    ensures
        r@ == drum_synonym(name@),
{
    if unicode_eq(name, "sn") {
        String::from_str("sd")
    } else if unicode_eq(name, "hhc") {
        String::from_str("hh")
    } else if unicode_eq(name, "hho") {
        String::from_str("oh")
    } else if unicode_eq(name, "cymc") {
        String::from_str("cr")
    } else if unicode_eq(name, "cymr") {
        String::from_str("rd")
    } else if unicode_eq(name, "tomh") {
        String::from_str("ht")
    } else if unicode_eq(name, "tomm") {
        String::from_str("mt")
    } else if unicode_eq(name, "toml") {
        String::from_str("lt")
    } else if unicode_eq(name, "ss") {
        String::from_str("rim")
    } else {
        string_of(name)
    }
}

/// Parse a drum token. Mirrors `spec_parse_drum_hit`.
pub fn parse_drum_hit(token: &Vec<char>) -> (r: Option<DrumHit>)
    ensures
        hit_opt_matches(r, spec_parse_drum_hit(token@)),
{
    let t = trim_chars(token);
    if t.len() > 0 && (t[0] == '|' || t[0] == '\\') {
        return None;
    }
    let a = scan_alpha(&t, 0);
    let mut name: Vec<char> = Vec::new();
    push_range(&mut name, &t, 0, a);
    proof {
        assert(name@ =~= t@.subrange(0, a as int));
    }
    if !drum_name_known(&name) {
        return None;
    }
    let j = scan_digits(&t, a);
    let duration = read_u32(&t, a, j, 4);
    Some(DrumHit { name: lilypond_to_strudel_drum(&name), duration })
}

} // verus!
