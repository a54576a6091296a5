//! Parsing of single pitched-note tokens, rests, and chords, with the ghost
//! note model the contracts are stated over.
//!
//! A note token is a lowercase letter `a`–`g`, an optional `is`/`es`
//! accidental directly after the letter, octave marks (`'` raises, `,`
//! lowers, base octave 3), optional duration digits (default 4), and
//! trailing `.`/`~` marks which are consumed but do not alter the duration.

use vstd::prelude::*;

use crate::chars::has_alpha;
use crate::chars::is_digit;
use crate::chars::is_space;
use crate::chars::match_at;
use crate::chars::read_digits;
use crate::chars::skip_digits;
use crate::chars::skip_dots;
use crate::chars::spec_find;
use crate::chars::spec_read_u32;
use crate::chars::spec_trim;
use crate::chars::alpha_from;
use crate::chars::lit_at;
use crate::chars::find_from;
use crate::chars::read_all_u32;
use crate::chars::read_u32;
use crate::chars::scan_digits;
use crate::chars::scan_dots;
use crate::chars::space_char;
use crate::chars::trim_chars;
use crate::events::Note;

verus! {

/// Ghost model of a parsed note. `chord` holds the chord partners of a
/// representative note and is empty for a plain note; partners themselves
/// carry an empty `chord`.
pub ghost struct GNote {
    pub name: char,
    pub octave: int,
    pub acc: Option<Seq<char>>,
    pub duration: u32,
    pub midi: int,
    pub chord: Seq<GNote>,
}

pub open spec fn acc_matches(a: Option<String>, g: Option<Seq<char>>) -> bool {
    match (a, g) {
        (Option::None, Option::None) => true,
        (Option::Some(x), Option::Some(y)) => x@ == y,
        _ => false,
    }
}

/// `n` realises the model `g`, chord list aside.
pub open spec fn note_fields_match(n: Note, g: GNote) -> bool {
    n.name == g.name && n.octave as int == g.octave && n.duration == g.duration && n.midi as int
        == g.midi && acc_matches(n.accidental, g.acc)
}

/// `n` realises the chord-partner model `g` (no nested chord on either side).
pub open spec fn gsub_matches(n: Note, g: GNote) -> bool {
    note_fields_match(n, g) && n.chord_notes is None && g.chord.len() == 0
}

/// `n` realises the model `g`, chord partners included.
pub open spec fn note_matches(n: Note, g: GNote) -> bool {
    note_fields_match(n, g) && match n.chord_notes {
        Option::None => g.chord.len() == 0,
        Option::Some(v) => g.chord.len() > 0 && v@.len() == g.chord.len() && forall|i: int|
            0 <= i < v@.len() ==> gsub_matches(#[trigger] v@[i], g.chord[i]),
    }
}

pub open spec fn note_opt_matches(r: Option<Note>, g: Option<GNote>) -> bool {
    match (r, g) {
        (Option::None, Option::None) => true,
        (Option::Some(n), Option::Some(m)) => note_matches(n, m),
        _ => false,
    }
}

/// Semitone of a note letter within the octave.
pub open spec fn note_base(c: char) -> int {
    if c == 'c' {
        0
    } else if c == 'd' {
        2
    } else if c == 'e' {
        4
    } else if c == 'f' {
        5
    } else if c == 'g' {
        7
    } else if c == 'a' {
        9
    } else {
        11
    }
}

pub open spec fn is_note_name(c: char) -> bool {
    c == 'a' || c == 'b' || c == 'c' || c == 'd' || c == 'e' || c == 'f' || c == 'g'
}

/// Pitch shift of an accidental: `is` raises, `es` lowers.
pub open spec fn acc_shift(a: Option<Seq<char>>) -> int {
    match a {
        Option::None => 0,
        Option::Some(s) => if s.len() == 2 && s[0] == 'i' {
            1
        } else if s.len() == 2 && s[0] == 'e' {
            -1
        } else {
            0
        },
    }
}

/// The accidental directly after the note letter and the position that
/// follows it. A lone `i` or `e` not followed by `s` is consumed without
/// yielding an accidental.
pub open spec fn spec_accidental(t: Seq<char>) -> (Option<Seq<char>>, int) {
    if t.len() >= 2 && (t[1] == 'i' || t[1] == 'e') {
        if t.len() >= 3 && t[2] == 's' {
            (Some(seq![t[1], 's']), 3)
        } else {
            (None, 2)
        }
    } else {
        (None, 1)
    }
}

/// First index `>= i` whose character is not an octave mark.
pub open spec fn skip_marks(s: Seq<char>, i: int) -> int
    decreases s.len() - i,
{
    if i < 0 || i >= s.len() {
        i
    } else if s[i] == '\'' || s[i] == ',' {
        skip_marks(s, i + 1)
    } else {
        i
    }
}

/// Number of occurrences of `c` in `s[i..j]`.
pub open spec fn count_in(s: Seq<char>, i: int, j: int, c: char) -> int
    decreases j - i,
{
    if i >= j || i < 0 || j > s.len() {
        0
    } else {
        (if s[i] == c {
            1int
        } else {
            0int
        }) + count_in(s, i + 1, j, c)
    }
}

/// Octave marks beyond this many in one direction no longer shift the
/// octave (they would leave any playable range; capping keeps the
/// arithmetic within machine bounds).
pub open spec fn clamp_marks(n: int) -> int {
    if n > 1000000 {
        1000000
    } else {
        n
    }
}

/// Model of parsing one note token (`override_duration` is set when the
/// token stands inside a chord bracket).
pub open spec fn spec_single_note(t0: Seq<char>, od: Option<u32>) -> Option<GNote> {
    let t = spec_trim(t0);
    if t.len() == 0 || !is_note_name(t[0]) {
        None
    } else {
        let name = t[0];
        let (acc, pos) = spec_accidental(t);
        let m = skip_marks(t, pos);
        let ups = clamp_marks(count_in(t, pos, m, '\''));
        let downs = clamp_marks(count_in(t, pos, m, ','));
        let octave = 3 + ups - downs;
        let j = skip_digits(t, m);
        let k = skip_dots(t, j);
        if has_alpha(t, k) {
            None
        } else {
            let duration = match od {
                Option::Some(d) => d,
                Option::None => spec_read_u32(t, m, j, 4),
            };
            let midi = note_base(name) + acc_shift(acc) + (octave + 1) * 12;
            Some(GNote { name, octave, acc, duration, midi, chord: Seq::empty() })
        }
    }
}

proof fn lemma_count_in_bound(s: Seq<char>, i: int, j: int, c: char)
    ensures
        0 <= count_in(s, i, j, c) <= (if j - i >= 0 {
            j - i
        } else {
            0
        }),
    decreases j - i,
{
    if !(i >= j || i < 0 || j > s.len()) {
        lemma_count_in_bound(s, i + 1, j, c);
    }
}

fn note_name_char(c: char) -> (r: bool)
    ensures
        r == is_note_name(c),
{
    c == 'a' || c == 'b' || c == 'c' || c == 'd' || c == 'e' || c == 'f' || c == 'g'
}

fn note_base_of(c: char) -> (r: i32)
    ensures
        r as int == note_base(c),
        0 <= r <= 11,
{
    if c == 'c' {
        0
    } else if c == 'd' {
        2
    } else if c == 'e' {
        4
    } else if c == 'f' {
        5
    } else if c == 'g' {
        7
    } else if c == 'a' {
        9
    } else {
        11
    }
}

/// Parse one note token. Mirrors `spec_single_note`.
pub fn parse_single_note(token: &Vec<char>, override_duration: Option<u32>) -> (r: Option<Note>)
    ensures
        note_opt_matches(r, spec_single_note(token@, override_duration)),
{
    let t = trim_chars(token);
    if t.len() == 0 {
        return None;
    }
    let name = t[0];
    if !note_name_char(name) {
        return None;
    }
    let (acc, pos, shift): (Option<String>, usize, i32) = if t.len() >= 2 && (t[1] == 'i' || t[1]
        == 'e') {
        if t.len() >= 3 && t[2] == 's' {
            let a = if t[1] == 'i' {
                String::from_str("is")
            } else {
                String::from_str("es")
            };
            let sh: i32 = if t[1] == 'i' {
                1
            } else {
                -1
            };
            proof {
                reveal_strlit("is");
                reveal_strlit("es");
                assert(a@ =~= seq![t@[1], 's']);
            }
            (Some(a), 3, sh)
        } else {
            (None, 2, 0)
        }
    } else {
        (None, 1, 0)
    };
    let ghost spec_acc = spec_accidental(t@).0;
    proof {
        assert(acc_matches(acc, spec_acc));
        assert(pos as int == spec_accidental(t@).1);
        assert(shift as int == acc_shift(spec_acc));
    }
    let mut i: usize = pos;
    let mut ups: usize = 0;
    let mut downs: usize = 0;
    while i < t.len() && (t[i] == '\'' || t[i] == ',')
        invariant
            pos <= i <= t@.len(),
            skip_marks(t@, pos as int) == skip_marks(t@, i as int),
            ups == clamp_marks(count_in(t@, pos as int, i as int, '\'')) || (ups == 1000000
                && count_in(t@, pos as int, i as int, '\'') >= 1000000),
            downs == clamp_marks(count_in(t@, pos as int, i as int, ',')) || (downs == 1000000
                && count_in(t@, pos as int, i as int, ',') >= 1000000),
            ups <= 1000000,
            downs <= 1000000,
        decreases t@.len() - i,
    {
        proof {
            lemma_count_in_split(t@, pos as int, i as int, '\'');
            lemma_count_in_split(t@, pos as int, i as int, ',');
            lemma_count_in_bound(t@, pos as int, i as int, '\'');
            lemma_count_in_bound(t@, pos as int, i as int, ',');
        }
        if t[i] == '\'' {
            if ups < 1000000 {
                ups = ups + 1;
            }
        } else {
            if downs < 1000000 {
                downs = downs + 1;
            }
        }
        i = i + 1;
    }
    let m = i;
    proof {
        assert(m as int == skip_marks(t@, pos as int));
        lemma_count_in_bound(t@, pos as int, m as int, '\'');
        lemma_count_in_bound(t@, pos as int, m as int, ',');
        assert(ups == clamp_marks(count_in(t@, pos as int, m as int, '\'')));
        assert(downs == clamp_marks(count_in(t@, pos as int, m as int, ',')));
    }
    let octave: i32 = 3 + ups as i32 - downs as i32;
    let j = scan_digits(&t, m);
    let k = scan_dots(&t, j);
    if alpha_from(&t, k) {
        return None;
    }
    let duration: u32 = match override_duration {
        Some(d) => d,
        None => read_u32(&t, m, j, 4),
    };
    let base = note_base_of(name);
    let midi: i32 = base + shift + (octave + 1) * 12;
    Some(
        Note {
            name,
            octave,
            accidental: acc,
            duration,
            midi,
            chord_notes: None,
        },
    )
}

proof fn lemma_count_in_split(s: Seq<char>, i: int, j: int, c: char)
    requires
        0 <= i <= j < s.len(),
    ensures
        count_in(s, i, j + 1, c) == count_in(s, i, j, c) + (if s[j] == c {
            1int
        } else {
            0int
        }),
    decreases j - i,
{
    if i < j {
        lemma_count_in_split(s, i + 1, j, c);
    } else {
        assert(count_in(s, j + 1, j + 1, c) == 0);
        assert(count_in(s, i, j, c) == 0);
    }
}

/// Model of parsing a rest token: `r`, optional duration digits (default 4),
/// then nothing alphabetic.
pub open spec fn spec_parse_rest(t0: Seq<char>) -> Option<u32> {
    let t = spec_trim(t0);
    if t.len() == 0 || t[0] != 'r' || match_at(t, 0, "repeat"@) {
        None
    } else {
        let j = skip_digits(t, 1);
        if has_alpha(t, j) {
            None
        } else {
            Some(spec_read_u32(t, 1, j, 4))
        }
    }
}

/// Parse a rest token. Mirrors `spec_parse_rest`.
pub fn parse_rest(token: &Vec<char>) -> (r: Option<u32>)
    ensures
        r == spec_parse_rest(token@),
{
    let t = trim_chars(token);
    if t.len() == 0 || t[0] != 'r' || lit_at(&t, 0, "repeat") {
        return None;
    }
    let j = scan_digits(&t, 1);
    if alpha_from(&t, j) {
        return None;
    }
    Some(read_u32(&t, 1, j, 4))
}

/// The duration digits after a chord's closing bracket: digits accumulate,
/// `.` and `~` are stepped over, anything else ends the scan.
pub open spec fn chord_dur_digits(t: Seq<char>, i: int, acc: Seq<char>) -> Seq<char>
    decreases t.len() - i,
{
    if i < 0 || i >= t.len() {
        acc
    } else if is_digit(t[i]) {
        chord_dur_digits(t, i + 1, acc.push(t[i]))
    } else if t[i] == '.' || t[i] == '~' {
        chord_dur_digits(t, i + 1, acc)
    } else {
        acc
    }
}

fn scan_chord_dur_digits(t: &Vec<char>, i: usize, acc: Vec<char>) -> (r: Vec<char>)
    requires
        i <= t@.len(),
        forall|j: int| 0 <= j < acc@.len() ==> is_digit(acc@[j]),
    ensures
        r@ == chord_dur_digits(t@, i as int, acc@),
        forall|j: int| 0 <= j < r@.len() ==> is_digit(#[trigger] r@[j]),
    decreases t@.len() - i,
{
    if i >= t.len() {
        return acc;
    }
    let c = t[i];
    if crate::chars::digit_char(c) {
        let mut acc2 = acc;
        acc2.push(c);
        scan_chord_dur_digits(t, i + 1, acc2)
    } else if c == '.' || c == '~' {
        scan_chord_dur_digits(t, i + 1, acc)
    } else {
        acc
    }
}

/// The whitespace-separated sub-tokens of `t[i..j]`.
pub open spec fn split_ws_range(
    t: Seq<char>,
    i: int,
    j: int,
    cur: Seq<char>,
    acc: Seq<Seq<char>>,
) -> Seq<Seq<char>>
    decreases j - i,
{
    if i < 0 || i >= j || j > t.len() {
        if cur.len() > 0 {
            acc.push(cur)
        } else {
            acc
        }
    } else if is_space(t[i]) {
        if cur.len() > 0 {
            split_ws_range(t, i + 1, j, Seq::empty(), acc.push(cur))
        } else {
            split_ws_range(t, i + 1, j, cur, acc)
        }
    } else {
        split_ws_range(t, i + 1, j, cur.push(t[i]), acc)
    }
}

fn split_ws_exec(t: &Vec<char>, i: usize, j: usize, cur: Vec<char>, acc: Vec<Vec<char>>) -> (r: Vec<
    Vec<char>,
>)
    requires
        j <= t@.len(),
    ensures
        r.deep_view() == split_ws_range(t@, i as int, j as int, cur@, acc.deep_view()),
    decreases t@.len() + 1 - i,
{
    if i >= j {
        if cur.len() > 0 {
            let mut acc2 = acc;
            let ghost av = acc2.deep_view();
            acc2.push(cur);
            proof {
                assert(acc2.deep_view() =~~= av.push(cur@));
            }
            acc2
        } else {
            acc
        }
    } else if space_char(t[i]) {
        if cur.len() > 0 {
            let mut acc2 = acc;
            let ghost av = acc2.deep_view();
            acc2.push(cur);
            proof {
                assert(acc2.deep_view() =~~= av.push(cur@));
            }
            split_ws_exec(t, i + 1, j, Vec::new(), acc2)
        } else {
            split_ws_exec(t, i + 1, j, cur, acc)
        }
    } else {
        let mut cur2 = cur;
        cur2.push(t[i]);
        split_ws_exec(t, i + 1, j, cur2, acc)
    }
}

/// The chord-partner models collected from the sub-tokens, each parsed with
/// the shared duration `d`; tokens that parse to nothing are dropped.
pub open spec fn chord_collect(toks: Seq<Seq<char>>, i: int, d: u32, acc: Seq<GNote>) -> Seq<GNote>
    decreases toks.len() - i,
{
    if i < 0 || i >= toks.len() {
        acc
    } else {
        match spec_single_note(toks[i], Some(d)) {
            Option::Some(g) => chord_collect(toks, i + 1, d, acc.push(g)),
            Option::None => chord_collect(toks, i + 1, d, acc),
        }
    }
}

/// Model of parsing a chord token `<a c e>4`: the notes inside the bracket
/// share the duration written after it; the first becomes the
/// representative, the rest its chord partners.
pub open spec fn spec_parse_chord(t: Seq<char>) -> Option<GNote> {
    match spec_find(t, 0, ">"@) {
        Option::None => None,
        Option::Some(close) => {
            let digits = chord_dur_digits(t, close + 1, Seq::empty());
            let duration = read_digits(digits, 4);
            let toks = split_ws_range(t, 1, close, Seq::empty(), Seq::empty());
            let gs = chord_collect(toks, 0, duration, Seq::empty());
            if gs.len() == 0 {
                None
            } else {
                Some(
                    GNote {
                        name: gs[0].name,
                        octave: gs[0].octave,
                        acc: gs[0].acc,
                        duration: gs[0].duration,
                        midi: gs[0].midi,
                        chord: gs.drop_first(),
                    },
                )
            }
        },
    }
}

/// Parse a chord token. Mirrors `spec_parse_chord`.
pub fn parse_chord(token: &Vec<char>) -> (r: Option<Note>)
    ensures
        note_opt_matches(r, spec_parse_chord(token@)),
{
    let close = match find_from(token, 0, ">") {
        None => {
            return None;
        },
        Some(c) => c,
    };
    let tlen = token.len();
    proof {
        reveal_strlit(">");
        assert(close + 1 <= tlen);
    }
    let digits = scan_chord_dur_digits(token, close + 1, Vec::new());
    let duration = read_all_u32(&digits, 4);
    let toks = if close >= 1 {
        let e: Vec<Vec<char>> = Vec::new();
        proof {
            assert(e.deep_view() =~= Seq::<Seq<char>>::empty());
        }
        split_ws_exec(token, 1, close, Vec::new(), e)
    } else {
        let empty_toks: Vec<Vec<char>> = Vec::new();
        proof {
            assert(empty_toks.deep_view() =~= split_ws_range(
                token@,
                1,
                close as int,
                Seq::empty(),
                Seq::empty(),
            ));
        }
        empty_toks
    };
    let ghost gtoks = split_ws_range(token@, 1, close as int, Seq::empty(), Seq::empty());
    let ghost full = chord_collect(gtoks, 0, duration, Seq::empty());
    let mut ns: Vec<Note> = Vec::new();
    let mut i: usize = 0;
    while i < toks.len()
        invariant
            toks.deep_view() == gtoks,
            full == chord_collect(gtoks, 0, duration, Seq::empty()),
            i <= toks@.len(),
            ns@.len() + chord_collect(gtoks, i as int, duration, Seq::empty()).len() == full.len(),
            full == full.subrange(0, ns@.len() as int) + chord_collect(
                gtoks,
                i as int,
                duration,
                Seq::empty(),
            ),
            forall|k: int|
                0 <= k < ns@.len() ==> note_matches(#[trigger] ns@[k], full[k])
                    && ns@[k].chord_notes is None && full[k].chord.len() == 0,
        decreases toks@.len() - i,
    {
        proof {
            assert(toks@[i as int]@ =~= toks.deep_view()[i as int]);
            lemma_chord_collect_unfold(gtoks, i as int, duration);
        }
        let ghost len0 = ns@.len() as int;
        match parse_single_note(&toks[i], Some(duration)) {
            Some(n) => {
                proof {
                    let g = spec_single_note(gtoks[i as int], Some(duration)).unwrap();
                    let rest = chord_collect(gtoks, i + 1 as int, duration, Seq::empty());
                    assert(chord_collect(gtoks, i as int, duration, Seq::empty()) == seq![g]
                        + rest);
                    assert(full == full.subrange(0, len0) + (seq![g] + rest));
                    assert(full[len0] == g);
                    assert(full =~= full.subrange(0, len0 + 1) + rest);
                }
                ns.push(n);
            },
            None => {},
        }
        i = i + 1;
    }
    proof {
        assert(chord_collect(gtoks, toks@.len() as int, duration, Seq::empty()) =~= Seq::<
            GNote,
        >::empty());
        assert(full =~= full.subrange(0, ns@.len() as int));
        assert(ns@.len() == full.len());
    }
    if ns.len() == 0 {
        return None;
    }
    let mut first = ns.remove(0);
    let rest = ns;
    proof {
        assert(note_matches(first, full[0]));
    }
    if rest.len() == 0 {
        proof {
            assert(full.drop_first() =~= Seq::<GNote>::empty());
        }
        Some(first)
    } else {
        first.chord_notes = Some(rest);
        proof {
            assert(forall|k: int|
                0 <= k < full.len() - 1 ==> #[trigger] full.drop_first()[k] == full[k + 1]);
        }
        Some(first)
    }
}

proof fn lemma_chord_collect_unfold(toks: Seq<Seq<char>>, i: int, d: u32)
    requires
        0 <= i < toks.len(),
    ensures
        chord_collect(toks, i, d, Seq::empty()) == (match spec_single_note(toks[i], Some(d)) {
            Option::Some(g) => seq![g] + chord_collect(toks, i + 1, d, Seq::empty()),
            Option::None => chord_collect(toks, i + 1, d, Seq::empty()),
        }),
{
    match spec_single_note(toks[i], Some(d)) {
        Option::Some(g) => {
            lemma_chord_collect_acc(toks, i + 1, d, Seq::empty().push(g));
            assert(chord_collect(toks, i, d, Seq::empty()) == chord_collect(
                toks,
                i + 1,
                d,
                Seq::empty().push(g),
            ));
            assert(Seq::<GNote>::empty().push(g) =~= seq![g]);
        },
        Option::None => {},
    }
}

/// The accumulator only prefixes the collected result.
proof fn lemma_chord_collect_acc(toks: Seq<Seq<char>>, i: int, d: u32, acc: Seq<GNote>)
    ensures
        chord_collect(toks, i, d, acc) == acc + chord_collect(toks, i, d, Seq::empty()),
    decreases toks.len() - i,
{
    if i < 0 || i >= toks.len() {
        assert(acc + Seq::<GNote>::empty() =~= acc);
    } else {
        match spec_single_note(toks[i], Some(d)) {
            Option::Some(g) => {
                lemma_chord_collect_acc(toks, i + 1, d, acc.push(g));
                lemma_chord_collect_acc(toks, i + 1, d, Seq::empty().push(g));
                assert(acc.push(g) =~= acc + seq![g]);
                assert(Seq::<GNote>::empty().push(g) =~= seq![g]);
                assert(acc + seq![g] + chord_collect(toks, i + 1, d, Seq::empty()) =~= acc + (
                seq![g] + chord_collect(toks, i + 1, d, Seq::empty())));
            },
            Option::None => {
                lemma_chord_collect_acc(toks, i + 1, d, acc);
            },
        }
    }
}

/// Model of parsing a pitched token: bar lines and commands yield nothing,
/// a `<` starts a chord, anything else is tried as a single note.
pub open spec fn spec_parse_note(t0: Seq<char>) -> Option<GNote> {
    let t = spec_trim(t0);
    if t.len() > 0 && (t[0] == '|' || t[0] == '\\') {
        None
    } else if t.len() > 0 && t[0] == '<' {
        spec_parse_chord(t)
    } else {
        spec_single_note(t, None)
    }
}

/// Parse a pitched token. Mirrors `spec_parse_note`.
pub fn parse_note(token: &Vec<char>) -> (r: Option<Note>)
    ensures
        note_opt_matches(r, spec_parse_note(token@)),
{
    let t = trim_chars(token);
    if t.len() > 0 && (t[0] == '|' || t[0] == '\\') {
        None
    } else if t.len() > 0 && t[0] == '<' {
        parse_chord(&t)
    } else {
        parse_single_note(&t, None)
    }
}

} // verus!
