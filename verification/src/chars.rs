//! Character-level primitives: conversions between `&str`/`String` and
//! `Vec<char>`, character classification, substring search, and decimal
//! number reading and rendering.
//!
//! All scanning specifications are index-based recursive spec functions so
//! that executable scanners mirror them directly.

use vstd::prelude::*;

verus! {

/// Whitespace, as this library understands it (the ASCII whitespace set).
pub open spec fn is_space(c: char) -> bool {
    c == ' ' || c == '\t' || c == '\n' || c == '\r' || c == '\u{b}' || c == '\u{c}'
}

pub open spec fn is_digit(c: char) -> bool {
    '0' <= c && c <= '9'
}

pub open spec fn is_alpha(c: char) -> bool {
    ('a' <= c && c <= 'z') || ('A' <= c && c <= 'Z')
}

pub open spec fn is_ident_start(c: char) -> bool {
    is_alpha(c) || c == '_'
}

pub open spec fn is_ident_char(c: char) -> bool {
    is_alpha(c) || is_digit(c) || c == '_'
}

pub fn space_char(c: char) -> (r: bool)
    ensures
        r == is_space(c),
{
    c == ' ' || c == '\t' || c == '\n' || c == '\r' || c == '\u{b}' || c == '\u{c}'
}

pub fn digit_char(c: char) -> (r: bool)
    ensures
        r == is_digit(c),
{
    '0' <= c && c <= '9'
}

pub fn alpha_char(c: char) -> (r: bool)
    ensures
        r == is_alpha(c),
{
    ('a' <= c && c <= 'z') || ('A' <= c && c <= 'Z')
}

pub fn ident_start_char(c: char) -> (r: bool)
    ensures
        r == is_ident_start(c),
{
    alpha_char(c) || c == '_'
}

pub fn ident_char(c: char) -> (r: bool)
    ensures
        r == is_ident_char(c),
{
    alpha_char(c) || digit_char(c) || c == '_'
}

/// The characters of a `&str`, in order.
pub fn chars_of(s: &str) -> (r: Vec<char>)
    ensures
        r@ == s@,
{
    let n = s.unicode_len();
    let mut r: Vec<char> = Vec::new();
    let mut i: usize = 0;
    while i < n
        invariant
            n == s@.len(),
            i <= n,
            r@ == s@.subrange(0, i as int),
        decreases n - i,
    {
        r.push(s.get_char(i));
        i = i + 1;
        proof {
            assert(r@ =~= s@.subrange(0, i as int));
        }
    }
    proof {
        assert(r@ =~= s@);
    }
    r
}

/// Relies on std's `FromIterator for String`: collecting a sequence of
/// `char`s yields the string of exactly those characters in order.
#[verifier::external_body]
pub fn string_of(v: &Vec<char>) -> (r: String)
    ensures
        r@ == v@,
{
    v.iter().collect()
}

/// Append the characters of `s` to `v`.
pub fn push_str_chars(v: &mut Vec<char>, s: &str)
    ensures
        final(v)@ == old(v)@ + s@,
{
    let n = s.unicode_len();
    let mut i: usize = 0;
    while i < n
        invariant
            n == s@.len(),
            i <= n,
            v@ == old(v)@ + s@.subrange(0, i as int),
        decreases n - i,
    {
        v.push(s.get_char(i));
        i = i + 1;
        proof {
            assert(v@ =~= old(v)@ + s@.subrange(0, i as int));
        }
    }
    proof {
        assert(v@ =~= old(v)@ + s@);
    }
}

/// Append `src[from..to]` to `v`.
pub fn push_range(v: &mut Vec<char>, src: &Vec<char>, from: usize, to: usize)
    requires
        from <= to <= src@.len(),
    ensures
        final(v)@ == old(v)@ + src@.subrange(from as int, to as int),
{
    let mut i: usize = from;
    while i < to
        invariant
            from <= i <= to <= src@.len(),
            v@ == old(v)@ + src@.subrange(from as int, i as int),
        decreases to - i,
    {
        v.push(src[i]);
        i = i + 1;
        proof {
            assert(v@ =~= old(v)@ + src@.subrange(from as int, i as int));
        }
    }
}

/// Does `lit` occur in `hay` starting exactly at position `pos`?
pub open spec fn match_at(hay: Seq<char>, pos: int, lit: Seq<char>) -> bool {
    0 <= pos && pos + lit.len() <= hay.len() && hay.subrange(pos, pos + lit.len()) == lit
}

pub fn lit_at(hay: &Vec<char>, pos: usize, lit: &str) -> (r: bool)
    ensures
        r == match_at(hay@, pos as int, lit@),
{
    let n = lit.unicode_len();
    if pos > hay.len() || n > hay.len() - pos {
        return false;
    }
    let hlen = hay.len();
    let mut i: usize = 0;
    while i < n
        invariant
            n == lit@.len(),
            hlen == hay@.len(),
            pos + n <= hay@.len(),
            i <= n,
            forall|j: int| 0 <= j < i ==> hay@[pos + j] == lit@[j],
        decreases n - i,
    {
        proof {
            assert(pos + i < hay@.len());
        }
        if hay[pos + i] != lit.get_char(i) {
            proof {
                assert(hay@.subrange(pos as int, pos + lit@.len())[i as int] == hay@[pos + i]);
            }
            return false;
        }
        i = i + 1;
    }
    proof {
        assert(hay@.subrange(pos as int, pos + lit@.len()) =~= lit@);
    }
    true
}

/// Append all of `src` to `v`.
pub fn push_chars(v: &mut Vec<char>, src: &Vec<char>)
    ensures
        final(v)@ == old(v)@ + src@,
{
    let n = src.len();
    push_range(v, src, 0, n);
    proof {
        assert(src@.subrange(0, src@.len() as int) =~= src@);
    }
}

/// Are two string slices equal, character for character?
pub fn str_eq(a: &str, b: &str) -> (r: bool)
    ensures
        r == (a@ == b@),
{
    let n = a.unicode_len();
    if b.unicode_len() != n {
        return false;
    }
    let mut i: usize = 0;
    while i < n
        invariant
            n == a@.len() == b@.len(),
            i <= n,
            forall|j: int| 0 <= j < i ==> a@[j] == b@[j],
        decreases n - i,
    {
        if a.get_char(i) != b.get_char(i) {
            return false;
        }
        i = i + 1;
    }
    proof {
        assert(a@ =~= b@);
    }
    true
}

/// A decimal rendering has one digit per factor of ten.
pub proof fn lemma_u32_str_len(n: u32)
    ensures
        1 <= spec_u32_str(n).len(),
        n < 10 ==> spec_u32_str(n).len() == 1,
        n < 100 ==> spec_u32_str(n).len() <= 2,
        n < 1000 ==> spec_u32_str(n).len() <= 3,
        n < 10000 ==> spec_u32_str(n).len() <= 4,
        n < 100000 ==> spec_u32_str(n).len() <= 5,
        n < 1000000 ==> spec_u32_str(n).len() <= 6,
        n < 10000000 ==> spec_u32_str(n).len() <= 7,
    decreases n,
{
    if n >= 10 {
        lemma_u32_str_len(n / 10);
    }
}

/// Does `lit` occur in `hay` starting exactly at position `pos`?
pub fn vec_at(hay: &Vec<char>, pos: usize, lit: &Vec<char>) -> (r: bool)
    ensures
        r == match_at(hay@, pos as int, lit@),
{
    let n = lit.len();
    if pos > hay.len() || n > hay.len() - pos {
        return false;
    }
    let hlen = hay.len();
    let mut i: usize = 0;
    while i < n
        invariant
            n == lit@.len(),
            hlen == hay@.len(),
            pos + n <= hay@.len(),
            i <= n,
            forall|j: int| 0 <= j < i ==> hay@[pos + j] == lit@[j],
        decreases n - i,
    {
        proof {
            assert(pos + i < hay@.len());
        }
        if hay[pos + i] != lit[i] {
            proof {
                assert(hay@.subrange(pos as int, pos + lit@.len())[i as int] == hay@[pos + i]);
            }
            return false;
        }
        i = i + 1;
    }
    proof {
        assert(hay@.subrange(pos as int, pos + lit@.len()) =~= lit@);
    }
    true
}

/// Are the characters of `v` exactly those of `s`?
pub fn unicode_eq(v: &Vec<char>, s: &str) -> (r: bool)
    ensures
        r == (v@ == s@),
{
    let n = s.unicode_len();
    if v.len() != n {
        return false;
    }
    if lit_at(v, 0, s) {
        proof {
            assert(v@.subrange(0, s@.len() as int) =~= v@);
        }
        true
    } else {
        proof {
            assert(v@.subrange(0, s@.len() as int) =~= v@);
        }
        false
    }
}

/// First position `p >= pos` where `lit` occurs in `hay`, if any.
pub open spec fn spec_find(hay: Seq<char>, pos: int, lit: Seq<char>) -> Option<int>
    decreases hay.len() + 1 - pos,
{
    if pos < 0 || pos + lit.len() > hay.len() {
        None
    } else if match_at(hay, pos, lit) {
        Some(pos)
    } else {
        spec_find(hay, pos + 1, lit)
    }
}

pub fn find_from(hay: &Vec<char>, pos: usize, lit: &str) -> (r: Option<usize>)
    ensures
        match r {
            Some(p) => pos <= p && spec_find(hay@, pos as int, lit@) == Some(p as int) && match_at(
                hay@,
                p as int,
                lit@,
            ),
            None => spec_find(hay@, pos as int, lit@) is None,
        },
{
    let n = lit.unicode_len();
    let mut i: usize = pos;
    loop
        invariant
            n == lit@.len(),
            pos <= i,
            spec_find(hay@, pos as int, lit@) == spec_find(hay@, i as int, lit@),
        decreases hay@.len() + 1 - i,
    {
        if i > hay.len() || n > hay.len() - i {
            return None;
        }
        proof {
            if lit@.len() == 0 {
                assert(hay@.subrange(i as int, i as int) =~= lit@);
            }
        }
        if lit_at(hay, i, lit) {
            return Some(i);
        }
        i = i + 1;
    }
}

/// Last position where `lit` occurs in `hay`, if any (searching from `pos` downward).
pub open spec fn spec_rfind_below(hay: Seq<char>, pos: int, lit: Seq<char>) -> Option<int>
    decreases pos + 1,
{
    if pos < 0 {
        None
    } else if match_at(hay, pos, lit) {
        Some(pos)
    } else {
        spec_rfind_below(hay, pos - 1, lit)
    }
}

pub open spec fn spec_rfind(hay: Seq<char>, lit: Seq<char>) -> Option<int> {
    spec_rfind_below(hay, hay.len() as int - lit.len() as int, lit)
}

pub fn rfind(hay: &Vec<char>, lit: &str) -> (r: Option<usize>)
    ensures
        match r {
            Some(p) => spec_rfind(hay@, lit@) == Some(p as int) && match_at(hay@, p as int, lit@),
            None => spec_rfind(hay@, lit@) is None,
        },
{
    let n = lit.unicode_len();
    if n > hay.len() {
        proof {
            lemma_rfind_below_none(hay@, hay@.len() as int - lit@.len() as int, lit@);
        }
        return None;
    }
    let mut i: usize = hay.len() - n;
    loop
        invariant
            n == lit@.len(),
            n <= hay@.len(),
            i <= hay@.len() - n,
            spec_rfind(hay@, lit@) == spec_rfind_below(hay@, i as int, lit@),
        decreases i,
    {
        if lit_at(hay, i, lit) {
            return Some(i);
        }
        if i == 0 {
            proof {
                assert(spec_rfind_below(hay@, -1, lit@) is None);
            }
            return None;
        }
        i = i - 1;
    }
}

proof fn lemma_rfind_below_none(hay: Seq<char>, pos: int, lit: Seq<char>)
    requires
        lit.len() > hay.len(),
    ensures
        spec_rfind_below(hay, pos, lit) is None,
    decreases pos + 1,
{
    if pos >= 0 {
        lemma_rfind_below_none(hay, pos - 1, lit);
    }
}

/// First index `>= i` whose character is not a decimal digit.
pub open spec fn skip_digits(s: Seq<char>, i: int) -> int
    decreases s.len() - i,
{
    if i < 0 || i >= s.len() {
        i
    } else if is_digit(s[i]) {
        skip_digits(s, i + 1)
    } else {
        i
    }
}

pub fn scan_digits(s: &Vec<char>, i: usize) -> (r: usize)
    requires
        i <= s@.len(),
    ensures
        r == skip_digits(s@, i as int),
        i <= r <= s@.len(),
        forall|x: int| i <= x < r ==> is_digit(s@[x]),
    decreases s@.len() - i,
{
    if i < s.len() && digit_char(s[i]) {
        scan_digits(s, i + 1)
    } else {
        i
    }
}

/// First index `>= i` whose character is not whitespace.
pub open spec fn skip_spaces(s: Seq<char>, i: int) -> int
    decreases s.len() - i,
{
    if i < 0 || i >= s.len() {
        i
    } else if is_space(s[i]) {
        skip_spaces(s, i + 1)
    } else {
        i
    }
}

pub fn scan_spaces(s: &Vec<char>, i: usize) -> (r: usize)
    requires
        i <= s@.len(),
    ensures
        r == skip_spaces(s@, i as int),
        i <= r <= s@.len(),
    decreases s@.len() - i,
{
    if i < s.len() && space_char(s[i]) {
        scan_spaces(s, i + 1)
    } else {
        i
    }
}

pub proof fn lemma_skip_spaces_not_space(s: Seq<char>, i: int)
    requires
        0 <= i,
    ensures
        skip_spaces(s, i) < s.len() ==> !is_space(s[skip_spaces(s, i)]),
    decreases s.len() - i,
{
    if 0 <= i < s.len() && is_space(s[i]) {
        lemma_skip_spaces_not_space(s, i + 1);
    }
}

/// First index `>= i` whose character is not an identifier character.
pub open spec fn skip_ident(s: Seq<char>, i: int) -> int
    decreases s.len() - i,
{
    if i < 0 || i >= s.len() {
        i
    } else if is_ident_char(s[i]) {
        skip_ident(s, i + 1)
    } else {
        i
    }
}

pub fn scan_ident(s: &Vec<char>, i: usize) -> (r: usize)
    requires
        i <= s@.len(),
    ensures
        r == skip_ident(s@, i as int),
        i <= r <= s@.len(),
    decreases s@.len() - i,
{
    if i < s.len() && ident_char(s[i]) {
        scan_ident(s, i + 1)
    } else {
        i
    }
}

/// First index `>= i` whose character is not alphabetic.
pub open spec fn skip_alpha(s: Seq<char>, i: int) -> int
    decreases s.len() - i,
{
    if i < 0 || i >= s.len() {
        i
    } else if is_alpha(s[i]) {
        skip_alpha(s, i + 1)
    } else {
        i
    }
}

pub fn scan_alpha(s: &Vec<char>, i: usize) -> (r: usize)
    requires
        i <= s@.len(),
    ensures
        r == skip_alpha(s@, i as int),
        i <= r <= s@.len(),
    decreases s@.len() - i,
{
    if i < s.len() && alpha_char(s[i]) {
        scan_alpha(s, i + 1)
    } else {
        i
    }
}

pub open spec fn digit_val(c: char) -> int {
    c as int - '0' as int
}

/// Numeric value of a digit string (unbounded).
pub open spec fn digits_nat(s: Seq<char>) -> int
    decreases s.len(),
{
    if s.len() == 0 {
        0
    } else {
        digits_nat(s.drop_last()) * 10 + digit_val(s.last())
    }
}

/// The value of the digit run `s[from..to]`, read as a `u32`; `default` when
/// the run is empty or its value does not fit.
pub open spec fn spec_read_u32(s: Seq<char>, from: int, to: int, default: u32) -> u32 {
    if from >= to {
        default
    } else if digits_nat(s.subrange(from, to)) <= u32::MAX {
        digits_nat(s.subrange(from, to)) as u32
    } else {
        default
    }
}

pub proof fn lemma_digits_nat_nonneg(s: Seq<char>)
    requires
        forall|j: int| 0 <= j < s.len() ==> is_digit(s[j]),
    ensures
        digits_nat(s) >= 0,
    decreases s.len(),
{
    if s.len() > 0 {
        lemma_digits_nat_nonneg(s.drop_last());
    }
}

/// Read the digit run `s[from..to]` as a `u32`, with `default` for an empty
/// or overflowing run.
pub fn read_u32(s: &Vec<char>, from: usize, to: usize, default: u32) -> (r: u32)
    requires
        from <= to <= s@.len(),
        forall|j: int| from <= j < to ==> is_digit(s@[j]),
    ensures
        r == spec_read_u32(s@, from as int, to as int, default),
{
    if from >= to {
        return default;
    }
    let ghost digits = s@.subrange(from as int, to as int);
    let mut acc: u64 = 0;
    let mut over: bool = false;
    let mut i: usize = from;
    while i < to
        invariant
            from <= i <= to <= s@.len(),
            digits == s@.subrange(from as int, to as int),
            forall|j: int| from <= j < to ==> is_digit(s@[j]),
            !over ==> acc == digits_nat(s@.subrange(from as int, i as int)) && acc <= u32::MAX,
            over ==> digits_nat(s@.subrange(from as int, i as int)) > u32::MAX,
        decreases to - i,
    {
        let ghost pre = s@.subrange(from as int, i as int);
        let ghost post = s@.subrange(from as int, i + 1 as int);
        proof {
            assert(post.drop_last() =~= pre);
            assert(post.last() == s@[i as int]);
            lemma_digits_nat_nonneg(pre);
        }
        let c = s[i];
        let d: u64 = (c as u32 - '0' as u32) as u64;
        if !over {
            let next: u64 = acc * 10 + d;
            if next > u32::MAX as u64 {
                over = true;
            } else {
                acc = next;
            }
        } else {
            proof {
                assert(digits_nat(post) == digits_nat(pre) * 10 + digit_val(s@[i as int]));
            }
        }
        i = i + 1;
    }
    proof {
        assert(s@.subrange(from as int, to as int) =~= digits);
    }
    if over {
        default
    } else {
        acc as u32
    }
}

/// The value of a whole digit string as a `u32`; `default` when it is
/// empty or its value does not fit.
pub open spec fn read_digits(s: Seq<char>, default: u32) -> u32 {
    if s.len() == 0 {
        default
    } else if digits_nat(s) <= u32::MAX {
        digits_nat(s) as u32
    } else {
        default
    }
}

pub fn read_all_u32(v: &Vec<char>, default: u32) -> (r: u32)
    requires
        forall|j: int| 0 <= j < v@.len() ==> is_digit(v@[j]),
    ensures
        r == read_digits(v@, default),
{
    let r = read_u32(v, 0, v.len(), default);
    proof {
        assert(v@.subrange(0, v@.len() as int) =~= v@);
    }
    r
}

/// Does an alphabetic character occur at or after position `i`?
pub open spec fn has_alpha(s: Seq<char>, i: int) -> bool {
    exists|k: int| i <= k < s.len() && is_alpha(s[k])
}

pub fn alpha_from(s: &Vec<char>, i: usize) -> (r: bool)
    requires
        i <= s@.len(),
    ensures
        r == has_alpha(s@, i as int),
{
    let mut k: usize = i;
    while k < s.len()
        invariant
            i <= k <= s@.len(),
            forall|j: int| i <= j < k ==> !is_alpha(s@[j]),
        decreases s@.len() - k,
    {
        if alpha_char(s[k]) {
            return true;
        }
        k = k + 1;
    }
    false
}

/// Decimal rendering of `n`.
pub open spec fn spec_u32_str(n: u32) -> Seq<char>
    decreases n,
{
    let last = ((n % 10) + ('0' as u32)) as char;
    if n < 10 {
        seq![last]
    } else {
        spec_u32_str(n / 10).push(last)
    }
}

fn digit_to_char(d: u32) -> (c: char)
    requires
        d < 10,
    ensures
        c == ((d + ('0' as u32)) as char),
{
    match d {
        0 => '0',
        1 => '1',
        2 => '2',
        3 => '3',
        4 => '4',
        5 => '5',
        6 => '6',
        7 => '7',
        8 => '8',
        _ => '9',
    }
}

pub fn u32_chars(n: u32) -> (r: Vec<char>)
    ensures
        r@ == spec_u32_str(n),
    decreases n,
{
    let c: char = digit_to_char(n % 10);
    if n < 10 {
        let mut r: Vec<char> = Vec::new();
        r.push(c);
        proof {
            assert(r@ =~= spec_u32_str(n));
        }
        r
    } else {
        let mut r = u32_chars(n / 10);
        r.push(c);
        proof {
            assert(r@ =~= spec_u32_str(n));
        }
        r
    }
}

/// The value of the digit run `s[from..to]`, read as a `u64`; `default`
/// when the run is empty or its value does not fit.
pub open spec fn spec_read_u64(s: Seq<char>, from: int, to: int, default: u64) -> u64 {
    if from >= to {
        default
    } else if digits_nat(s.subrange(from, to)) <= u64::MAX {
        digits_nat(s.subrange(from, to)) as u64
    } else {
        default
    }
}

/// Read the digit run `s[from..to]` as a `u64`, with `default` for an
/// empty or overflowing run.
pub fn read_u64(s: &Vec<char>, from: usize, to: usize, default: u64) -> (r: u64)
    requires
        from <= to <= s@.len(),
        forall|j: int| from <= j < to ==> is_digit(s@[j]),
    ensures
        r == spec_read_u64(s@, from as int, to as int, default),
{
    if from >= to {
        return default;
    }
    let ghost digits = s@.subrange(from as int, to as int);
    let mut acc: u64 = 0;
    let mut over: bool = false;
    let mut i: usize = from;
    while i < to
        invariant
            from <= i <= to <= s@.len(),
            digits == s@.subrange(from as int, to as int),
            forall|j: int| from <= j < to ==> is_digit(s@[j]),
            !over ==> acc == digits_nat(s@.subrange(from as int, i as int)),
            over ==> digits_nat(s@.subrange(from as int, i as int)) > u64::MAX,
        decreases to - i,
    {
        let ghost pre = s@.subrange(from as int, i as int);
        let ghost post = s@.subrange(from as int, i + 1 as int);
        proof {
            assert(post.drop_last() =~= pre);
            assert(post.last() == s@[i as int]);
            lemma_digits_nat_nonneg(pre);
        }
        let c = s[i];
        let d: u64 = (c as u32 - '0' as u32) as u64;
        if !over {
            if acc > (u64::MAX - d) / 10 {
                over = true;
                proof {
                    assert(digits_nat(post) == digits_nat(pre) * 10 + digit_val(s@[i as int]));
                    assert(acc * 10 + d > u64::MAX) by (nonlinear_arith)
                        requires
                            acc > (u64::MAX - d) / 10,
                            0 <= d <= 9,
                    ;
                }
            } else {
                proof {
                    assert(acc * 10 + d <= u64::MAX) by (nonlinear_arith)
                        requires
                            acc <= (u64::MAX - d) / 10,
                            0 <= d <= 9,
                    ;
                }
                acc = acc * 10 + d;
            }
        } else {
            proof {
                assert(digits_nat(post) == digits_nat(pre) * 10 + digit_val(s@[i as int]));
            }
        }
        i = i + 1;
    }
    proof {
        assert(s@.subrange(from as int, to as int) =~= digits);
    }
    if over {
        default
    } else {
        acc
    }
}

/// Decimal rendering of `n`.
pub open spec fn spec_u64_str(n: u64) -> Seq<char>
    decreases n,
{
    let last = (((n % 10) as u32) + ('0' as u32)) as char;
    if n < 10 {
        seq![last]
    } else {
        spec_u64_str(n / 10).push(last)
    }
}

pub fn u64_chars(n: u64) -> (r: Vec<char>)
    ensures
        r@ == spec_u64_str(n),
    decreases n,
{
    let c: char = digit_to_char((n % 10) as u32);
    if n < 10 {
        let mut r: Vec<char> = Vec::new();
        r.push(c);
        proof {
            assert(r@ =~= spec_u64_str(n));
        }
        r
    } else {
        let mut r = u64_chars(n / 10);
        r.push(c);
        proof {
            assert(r@ =~= spec_u64_str(n));
        }
        r
    }
}

/// Are two character vectors equal?
pub fn chars_eq(a: &Vec<char>, b: &Vec<char>) -> (r: bool)
    ensures
        r == (a@ == b@),
{
    if a.len() != b.len() {
        return false;
    }
    let mut i: usize = 0;
    while i < a.len()
        invariant
            a@.len() == b@.len(),
            i <= a@.len(),
            forall|j: int| 0 <= j < i ==> a@[j] == b@[j],
        decreases a@.len() - i,
    {
        if a[i] != b[i] {
            return false;
        }
        i = i + 1;
    }
    proof {
        assert(a@ =~= b@);
    }
    true
}

/// First index `>= i` holding a newline, or the length.
pub open spec fn line_end(s: Seq<char>, i: int) -> int
    decreases s.len() - i,
{
    if i < 0 || i >= s.len() {
        i
    } else if s[i] == '\n' {
        i
    } else {
        line_end(s, i + 1)
    }
}

pub proof fn lemma_line_end_bounds(s: Seq<char>, i: int)
    requires
        0 <= i <= s.len(),
    ensures
        i <= line_end(s, i) <= s.len(),
    decreases s.len() - i,
{
    if i < s.len() && s[i] != '\n' {
        lemma_line_end_bounds(s, i + 1);
    }
}

pub fn scan_line_end(s: &Vec<char>, i: usize) -> (r: usize)
    requires
        i <= s@.len(),
    ensures
        r == line_end(s@, i as int),
        i <= r <= s@.len(),
    decreases s@.len() - i,
{
    if i < s.len() && s[i] != '\n' {
        scan_line_end(s, i + 1)
    } else {
        i
    }
}

/// Decimal rendering of `n`, with a leading minus sign when negative.
pub open spec fn spec_i32_str(n: i32) -> Seq<char> {
    if n >= 0 {
        spec_u32_str(n as u32)
    } else {
        seq!['-'] + spec_u32_str((-(n as int)) as u32)
    }
}

pub fn i32_chars(n: i32) -> (r: Vec<char>)
    ensures
        r@ == spec_i32_str(n),
{
    if n >= 0 {
        u32_chars(n as u32)
    } else {
        let m: i64 = -(n as i64);
        let mut r: Vec<char> = Vec::new();
        r.push('-');
        let digits = u32_chars(m as u32);
        let mut i: usize = 0;
        while i < digits.len()
            invariant
                i <= digits@.len(),
                r@ == seq!['-'] + digits@.subrange(0, i as int),
            decreases digits@.len() - i,
        {
            r.push(digits[i]);
            i = i + 1;
            proof {
                assert(r@ =~= seq!['-'] + digits@.subrange(0, i as int));
            }
        }
        proof {
            assert(r@ =~= seq!['-'] + digits@);
        }
        r
    }
}

/// First index `>= i` whose character is neither `.` nor `~`.
pub open spec fn skip_dots(s: Seq<char>, i: int) -> int
    decreases s.len() - i,
{
    if i < 0 || i >= s.len() {
        i
    } else if s[i] == '.' || s[i] == '~' {
        skip_dots(s, i + 1)
    } else {
        i
    }
}

pub fn scan_dots(s: &Vec<char>, i: usize) -> (r: usize)
    requires
        i <= s@.len(),
    ensures
        r == skip_dots(s@, i as int),
        i <= r <= s@.len(),
    decreases s@.len() - i,
{
    if i < s.len() && (s[i] == '.' || s[i] == '~') {
        scan_dots(s, i + 1)
    } else {
        i
    }
}

/// `s` with leading and trailing whitespace removed.
pub open spec fn last_non_space(s: Seq<char>, i: int) -> int
    decreases i + 1,
{
    if i < 0 {
        -1
    } else if 0 <= i < s.len() && !is_space(s[i]) {
        i
    } else {
        last_non_space(s, i - 1)
    }
}

pub open spec fn spec_trim(s: Seq<char>) -> Seq<char> {
    let a = skip_spaces(s, 0);
    let b = last_non_space(s, s.len() - 1);
    if a <= b {
        s.subrange(a, b + 1)
    } else {
        Seq::empty()
    }
}

fn scan_last_non_space(s: &Vec<char>, i: usize) -> (r: (bool, usize))
    requires
        i < s@.len(),
    ensures
        r.0 ==> last_non_space(s@, i as int) == r.1 && r.1 <= i,
        !r.0 ==> last_non_space(s@, i as int) == -1,
    decreases i,
{
    if !space_char(s[i]) {
        (true, i)
    } else if i == 0 {
        proof {
            assert(last_non_space(s@, -1) == -1);
        }
        (false, 0)
    } else {
        scan_last_non_space(s, i - 1)
    }
}

pub fn trim_chars(s: &Vec<char>) -> (r: Vec<char>)
    ensures
        r@ == spec_trim(s@),
{
    let mut r: Vec<char> = Vec::new();
    if s.len() == 0 {
        proof {
            assert(spec_trim(s@) =~= Seq::<char>::empty());
        }
        return r;
    }
    let a = scan_spaces(s, 0);
    let (found, b) = scan_last_non_space(s, s.len() - 1);
    if !found {
        proof {
            assert(spec_trim(s@) =~= Seq::<char>::empty());
        }
        return r;
    }
    if a <= b {
        push_range(&mut r, s, a, b + 1);
        proof {
            assert(r@ =~= spec_trim(s@));
        }
        r
    } else {
        proof {
            assert(spec_trim(s@) =~= Seq::<char>::empty());
        }
        r
    }
}

} // verus!
