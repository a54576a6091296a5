//! Rendering of single items into the target pattern syntax: note names,
//! duration weights, rests, chords, drum hits, modifier values, and the
//! tempo-to-cycles expression.

use vstd::prelude::*;

use crate::chars::spec_i32_str;
use crate::chars::spec_u32_str;
use crate::chars::i32_chars;
use crate::chars::push_chars;
use crate::chars::push_str_chars;
use crate::chars::lemma_u32_str_len;
use crate::chars::str_eq;
use crate::chars::u32_chars;
use crate::events::DrumHit;
use crate::events::Note;

verus! {

/// The accidental mark of a rendered note: `#` for `is`, `b` for `es`.
pub open spec fn acc_mark(a: Option<String>) -> Seq<char> {
    match a {
        Option::Some(s) => if s@ == "is"@ {
            "#"@
        } else if s@ == "es"@ {
            "b"@
        } else {
            Seq::empty()
        },
        Option::None => Seq::empty(),
    }
}

/// A rendered note name: letter, accidental mark, octave number.
pub open spec fn spec_format_note(n: Note) -> Seq<char> {
    seq![n.name] + acc_mark(n.accidental) + spec_i32_str(n.octave)
}

/// Render a note name. Mirrors `spec_format_note`.
pub fn format_note(n: &Note) -> (r: Vec<char>)
    ensures
        r@ == spec_format_note(*n),
{
    let mut out: Vec<char> = Vec::new();
    out.push(n.name);
    match &n.accidental {
        Some(a) => {
            if str_eq(a.as_str(), "is") {
                out.push('#');
                proof {
                    reveal_strlit("#");
                    assert(out@ =~= seq![n.name] + acc_mark(n.accidental));
                }
            } else if str_eq(a.as_str(), "es") {
                out.push('b');
                proof {
                    reveal_strlit("b");
                    assert(out@ =~= seq![n.name] + acc_mark(n.accidental));
                }
            } else {
                proof {
                    assert(out@ =~= seq![n.name] + acc_mark(n.accidental));
                }
            }
        },
        None => {
            proof {
                assert(out@ =~= seq![n.name] + acc_mark(n.accidental));
            }
        },
    }
    let oct = i32_chars(n.octave);
    push_chars(&mut out, &oct);
    proof {
        assert(out@ =~= spec_format_note(*n));
    }
    out
}

/// Zeroes to pad a digit string to seven places.
pub open spec fn zeros(n: int) -> Seq<char>
    decreases n,
{
    if n <= 0 {
        Seq::empty()
    } else {
        seq!['0'] + zeros(n - 1)
    }
}

/// A fraction-digit string with its trailing zeroes removed.
pub open spec fn trim_zeros(s: Seq<char>) -> Seq<char>
    decreases s.len(),
{
    if s.len() > 0 && s.last() == '0' {
        trim_zeros(s.drop_last())
    } else {
        s
    }
}

/// Decimal rendering of `4 / d` to seven fractional places, trailing
/// zeroes dropped (used for denominators outside the fixed table).
pub open spec fn weight_str(d: u32) -> Seq<char> {
    let sc = 40000000int / d as int;
    let ip = sc / 10000000;
    let fr = sc % 10000000;
    let digits = spec_u32_str(fr as u32);
    let frac = trim_zeros(zeros(7 - digits.len()) + digits);
    if frac.len() == 0 {
        spec_u32_str(ip as u32)
    } else {
        spec_u32_str(ip as u32) + "."@ + frac
    }
}

/// The duration weight suffix: whole 4, half 2, quarter none (the
/// default), eighth 0.5, sixteenth 0.25; any other denominator renders
/// `4/d` as a decimal. A zero denominator renders as `inf`.
pub open spec fn spec_format_weight(d: u32) -> Option<Seq<char>> {
    if d == 1 {
        Some("4"@)
    } else if d == 2 {
        Some("2"@)
    } else if d == 4 {
        None
    } else if d == 8 {
        Some("0.5"@)
    } else if d == 16 {
        Some("0.25"@)
    } else if d == 0 {
        Some("inf"@)
    } else {
        Some(weight_str(d))
    }
}

fn trim_zeros_exec(s: Vec<char>) -> (r: Vec<char>)
    ensures
        r@ == trim_zeros(s@),
    decreases s@.len(),
{
    let mut v = s;
    if v.len() > 0 && v[v.len() - 1] == '0' {
        let ghost pre = v@;
        v.pop();
        proof {
            assert(v@ =~= pre.drop_last());
        }
        trim_zeros_exec(v)
    } else {
        v
    }
}

/// Render the weight suffix. Mirrors `spec_format_weight`.
pub fn format_weight(d: u32) -> (r: Option<Vec<char>>)
    ensures
        match r {
            Some(v) => spec_format_weight(d) == Some(v@),
            None => spec_format_weight(d) is None,
        },
{
    if d == 1 {
        let mut v: Vec<char> = Vec::new();
        push_str_chars(&mut v, "4");
        Some(v)
    } else if d == 2 {
        let mut v: Vec<char> = Vec::new();
        push_str_chars(&mut v, "2");
        Some(v)
    } else if d == 4 {
        None
    } else if d == 8 {
        let mut v: Vec<char> = Vec::new();
        push_str_chars(&mut v, "0.5");
        Some(v)
    } else if d == 16 {
        let mut v: Vec<char> = Vec::new();
        push_str_chars(&mut v, "0.25");
        Some(v)
    } else if d == 0 {
        let mut v: Vec<char> = Vec::new();
        push_str_chars(&mut v, "inf");
        Some(v)
    } else {
        let sc: u32 = 40000000u32 / d;
        let ip: u32 = sc / 10000000;
        let fr: u32 = sc % 10000000;
        let digits = u32_chars(fr);
        let mut padded: Vec<char> = Vec::new();
        let mut z: usize = 0;
        let dl = digits.len();
        proof {
            lemma_u32_str_len(fr);
        }
        while z + dl < 7
            invariant
                dl == digits@.len(),
                1 <= dl <= 7,
                z + dl <= 7,
                padded@ == zeros(z as int),
            decreases 7 - z - dl,
        {
            padded.push('0');
            z = z + 1;
            proof {
                lemma_zeros_snoc(z as int);
                assert(padded@ =~= zeros(z as int));
            }
        }
        proof {
            assert(z as int == 7 - digits@.len());
        }
        push_chars(&mut padded, &digits);
        let frac = trim_zeros_exec(padded);
        let mut out = u32_chars(ip);
        if frac.len() == 0 {
            proof {
                assert(out@ =~= weight_str(d));
            }
            Some(out)
        } else {
            push_str_chars(&mut out, ".");
            push_chars(&mut out, &frac);
            proof {
                assert(out@ =~= weight_str(d));
            }
            Some(out)
        }
    }
}

proof fn lemma_zeros_snoc(n: int)
    requires
        n >= 1,
    ensures
        zeros(n) == zeros(n - 1).push('0'),
    decreases n,
{
    if n == 1 {
        assert(zeros(1) =~= zeros(0).push('0'));
    } else {
        lemma_zeros_snoc(n - 1);
        assert(zeros(n) == seq!['0'] + zeros(n - 1));
        assert(zeros(n - 1) == zeros(n - 2).push('0'));
        assert(seq!['0'] + zeros(n - 2).push('0') =~= (seq!['0'] + zeros(n - 2)).push('0'));
    }
}

/// A rest as quarter-note placeholders: `4 / d` of them (at least one),
/// space-separated.
pub open spec fn tildes(n: int) -> Seq<char>
    decreases n,
{
    if n <= 1 {
        "~"@
    } else {
        tildes(n - 1) + " ~"@
    }
}

pub open spec fn spec_format_rest(d: u32) -> Seq<char> {
    tildes(4int / d as int)
}

/// Render a rest. Mirrors `spec_format_rest`; the denominator must be
/// positive (the quarter-count division is by it).
pub fn format_rest(d: u32) -> (r: Vec<char>)
    requires
        d >= 1,
    ensures
        r@ == spec_format_rest(d),
{
    let q: u32 = 4 / d;
    let mut out: Vec<char> = Vec::new();
    push_str_chars(&mut out, "~");
    if q <= 1 {
        return out;
    }
    let mut k: u32 = 1;
    while k < q
        invariant
            1 <= k <= q <= 4,
            out@ == tildes(k as int),
        decreases q - k,
    {
        push_str_chars(&mut out, " ~");
        k = k + 1;
    }
    out
}

/// The comma-joined names of the chord partners.
pub open spec fn chord_tail(v: Seq<Note>, i: int) -> Seq<char>
    decreases v.len() - i,
{
    if i < 0 || i >= v.len() {
        Seq::empty()
    } else {
        ","@ + spec_format_note(v[i]) + chord_tail(v, i + 1)
    }
}

/// A rendered pitched item: the note name, or `[rep,partner,...]` for a
/// chord, with the weight suffix applied once.
pub open spec fn spec_format_pitched_note(n: Note) -> Seq<char> {
    let base = match n.chord_notes {
        Option::Some(v) => "["@ + spec_format_note(n) + chord_tail(v@, 0) + "]"@,
        Option::None => spec_format_note(n),
    };
    match spec_format_weight(n.duration) {
        Option::Some(w) => base + "@"@ + w,
        Option::None => base,
    }
}

/// Render a pitched item. Mirrors `spec_format_pitched_note`.
pub fn format_pitched_note(n: &Note) -> (r: Vec<char>)
    ensures
        r@ == spec_format_pitched_note(*n),
{
    let mut base: Vec<char> = Vec::new();
    match &n.chord_notes {
        Some(v) => {
            push_str_chars(&mut base, "[");
            let rep = format_note(n);
            push_chars(&mut base, &rep);
            let mut j: usize = 0;
            while j < v.len()
                invariant
                    j <= v@.len(),
                    base@ + chord_tail(v@, j as int) == "["@ + spec_format_note(*n) + chord_tail(
                        v@,
                        0,
                    ),
                decreases v@.len() - j,
            {
                let ghost pre = base@;
                push_str_chars(&mut base, ",");
                let pn = format_note(&v[j]);
                push_chars(&mut base, &pn);
                j = j + 1;
                proof {
                    assert(base@ =~= pre + (","@ + spec_format_note(v@[j - 1])));
                    assert(chord_tail(v@, j - 1) == ","@ + spec_format_note(v@[j - 1])
                        + chord_tail(v@, j as int));
                    assert(base@ + chord_tail(v@, j as int) =~= pre + chord_tail(v@, j - 1));
                }
            }
            proof {
                assert(chord_tail(v@, v@.len() as int) =~= Seq::<char>::empty());
                assert(base@ + chord_tail(v@, v@.len() as int) =~= base@);
                assert(base@ =~= "["@ + spec_format_note(*n) + chord_tail(v@, 0));
            }
            push_str_chars(&mut base, "]");
        },
        None => {
            let rep = format_note(n);
            base = rep;
        },
    }
    let ghost sbase = match &n.chord_notes {
        Option::Some(v) => "["@ + spec_format_note(*n) + chord_tail(v@, 0) + "]"@,
        Option::None => spec_format_note(*n),
    };
    proof {
        assert(base@ =~= sbase);
    }
    match format_weight(n.duration) {
        Some(w) => {
            push_str_chars(&mut base, "@");
            push_chars(&mut base, &w);
            proof {
                assert(base@ =~= spec_format_pitched_note(*n));
            }
            base
        },
        None => {
            proof {
                assert(base@ =~= spec_format_pitched_note(*n));
            }
            base
        },
    }
}

/// A rendered drum item: the hit name with the weight suffix.
pub open spec fn spec_format_drum_hit(h: DrumHit) -> Seq<char> {
    match spec_format_weight(h.duration) {
        Option::Some(w) => h.name@ + "@"@ + w,
        Option::None => h.name@,
    }
}

/// Render a drum item. Mirrors `spec_format_drum_hit`.
pub fn format_drum_hit(h: &DrumHit) -> (r: Vec<char>)
    ensures
        r@ == spec_format_drum_hit(*h),
{
    let mut out = crate::chars::chars_of(h.name.as_str());
    match format_weight(h.duration) {
        Some(w) => {
            push_str_chars(&mut out, "@");
            push_chars(&mut out, &w);
            proof {
                assert(out@ =~= spec_format_drum_hit(*h));
            }
            out
        },
        None => out,
    }
}

/// A modifier value: quoted when it holds a `<` (a small sub-pattern),
/// plain otherwise.
pub open spec fn spec_format_pattern_value(v: Seq<char>) -> Seq<char> {
    if exists|i: int| 0 <= i < v.len() && v[i] == '<' {
        "\""@ + v + "\""@
    } else {
        v
    }
}

/// Render a modifier value. Mirrors `spec_format_pattern_value`.
pub fn format_pattern_value(v: &Vec<char>) -> (r: Vec<char>)
    ensures
        r@ == spec_format_pattern_value(v@),
{
    let mut has: bool = false;
    let mut i: usize = 0;
    while i < v.len()
        invariant
            i <= v@.len(),
            has == exists|j: int| 0 <= j < i && v@[j] == '<',
        decreases v@.len() - i,
    {
        if v[i] == '<' {
            has = true;
        }
        i = i + 1;
    }
    if has {
        let mut out: Vec<char> = Vec::new();
        push_str_chars(&mut out, "\"");
        push_chars(&mut out, v);
        push_str_chars(&mut out, "\"");
        proof {
            assert(out@ =~= spec_format_pattern_value(v@));
        }
        out
    } else {
        let out = crate::tokenize::clone_chars(v);
        out
    }
}

/// The symbolic tempo-to-cycles expression for a bar count.
pub open spec fn spec_cpm_expression(bars: u32) -> Seq<char> {
    "tempo/4/"@ + spec_u32_str(bars)
}

/// Render the tempo-to-cycles expression. Mirrors `spec_cpm_expression`.
pub fn format_cpm_expression(bars: u32) -> (r: Vec<char>)
    ensures
        r@ == spec_cpm_expression(bars),
{
    let mut out: Vec<char> = Vec::new();
    push_str_chars(&mut out, "tempo/4/");
    let digits = u32_chars(bars);
    push_chars(&mut out, &digits);
    out
}

} // verus!
