//! Version-string ordering. A version string is tokenized into runs of
//! digits (numeric tokens, read as unsigned 64-bit values) and runs of
//! letters (text tokens, lowercased); every other character separates runs
//! and is discarded. Token sequences are compared position by position, the
//! shorter one padded with numeric zero at the tail; a numeric token orders
//! below any text token.

use vstd::prelude::*;
use core::cmp::Ordering;
use crate::strutil::{to_char_vec, chars_to_string};

verus! {

/// Spec-level form of one token.
pub enum VersionToken {
    Number(u64),
    Text(Seq<char>),
}

/// One token of a version string: a run of digits or a run of letters.
pub enum VersionPart {
    Number(u64),
    Text(String),
}

impl View for VersionPart {
    type V = VersionToken;

    open spec fn view(&self) -> VersionToken {
        match self {
            VersionPart::Number(n) => VersionToken::Number(*n),
            VersionPart::Text(s) => VersionToken::Text(s@),
        }
    }
}

pub open spec fn part_views(s: Seq<VersionPart>) -> Seq<VersionToken> {
    s.map_values(|p: VersionPart| p@)
}

pub open spec fn is_digit_char(c: char) -> bool {
    48 <= c as u32 <= 57
}

pub open spec fn is_alpha_char(c: char) -> bool {
    (65 <= c as u32 <= 90) || (97 <= c as u32 <= 122)
}

pub open spec fn lower_char(c: char) -> char {
    if 65 <= c as u32 <= 90 {
        ((c as u32) + 32) as char
    } else {
        c
    }
}

pub open spec fn lower_seq(s: Seq<char>) -> Seq<char> {
    s.map_values(|c: char| lower_char(c))
}

/// The value of a run of decimal digits, most significant first.
pub open spec fn digits_val(s: Seq<char>) -> int
    decreases s.len(),
{
    if s.len() == 0 {
        0
    } else {
        digits_val(s.drop_last()) * 10 + (s.last() as u32 - 48)
    }
}

/// The token produced by closing a digit run: none when the run is empty or
/// its value does not fit in 64 bits (such a run is dropped).
pub open spec fn flush_num(num: Seq<char>) -> Seq<VersionToken> {
    if num.len() == 0 {
        Seq::empty()
    } else if digits_val(num) <= u64::MAX {
        seq![VersionToken::Number(digits_val(num) as u64)]
    } else {
        Seq::empty()
    }
}

/// The token produced by closing a letter run: its lowercased text, or none
/// when the run is empty.
pub open spec fn flush_text(text: Seq<char>) -> Seq<VersionToken> {
    if text.len() == 0 {
        Seq::empty()
    } else {
        seq![VersionToken::Text(lower_seq(text))]
    }
}

/// Tokenization, one character at a time from position `i`, carrying the
/// open digit run `num`, the open letter run `text`, and the tokens already
/// produced.
pub open spec fn tokens_from(
    s: Seq<char>,
    i: int,
    num: Seq<char>,
    text: Seq<char>,
    acc: Seq<VersionToken>,
) -> Seq<VersionToken>
    decreases s.len() - i,
{
    if i < 0 || i >= s.len() {
        acc + flush_num(num) + flush_text(text)
    } else if is_digit_char(s[i]) {
        tokens_from(s, i + 1, num.push(s[i]), Seq::empty(), acc + flush_text(text))
    } else if is_alpha_char(s[i]) {
        tokens_from(s, i + 1, Seq::empty(), text.push(s[i]), acc + flush_num(num))
    } else {
        tokens_from(s, i + 1, Seq::empty(), Seq::empty(), acc + flush_num(num) + flush_text(text))
    }
}

pub open spec fn spec_parse_version(s: Seq<char>) -> Seq<VersionToken> {
    tokens_from(s, 0, Seq::empty(), Seq::empty(), Seq::empty())
}

fn is_digit(c: char) -> (r: bool)
    ensures
        r == is_digit_char(c),
{
    let u: u32 = c as u32;
    48 <= u && u <= 57
}

fn is_alpha(c: char) -> (r: bool)
    ensures
        r == is_alpha_char(c),
{
    let u: u32 = c as u32;
    (65 <= u && u <= 90) || (97 <= u && u <= 122)
}

fn lower(c: char) -> (r: char)
    ensures
        r == lower_char(c),
{
    let u: u32 = c as u32;
    if 65 <= u && u <= 90 {
        ((u as u8) + 32) as char
    } else {
        c
    }
}

proof fn lemma_digits_val_nonneg(s: Seq<char>)
    requires
        forall|j: int| 0 <= j < s.len() ==> is_digit_char(#[trigger] s[j]),
    ensures
        digits_val(s) >= 0,
    decreases s.len(),
{
    if s.len() > 0 {
        lemma_digits_val_nonneg(s.drop_last());
    }
}

/// The value of a digit run, or `None` when it exceeds 64 bits.
fn digits_to_u64(ds: &Vec<char>) -> (r: Option<u64>)
    requires
        forall|j: int| 0 <= j < ds@.len() ==> is_digit_char(#[trigger] ds@[j]),
    ensures
        match r {
            Some(n) => digits_val(ds@) == n,
            None => digits_val(ds@) > u64::MAX,
        },
{
    let mut val: u64 = 0;
    let mut over: bool = false;
    let mut i: usize = 0;
    assert(ds@.subrange(0, 0) =~= Seq::<char>::empty());
    while i < ds.len()
        invariant
            i <= ds.len(),
            forall|j: int| 0 <= j < ds@.len() ==> is_digit_char(#[trigger] ds@[j]),
            !over ==> val == digits_val(ds@.subrange(0, i as int)),
            over ==> digits_val(ds@.subrange(0, i as int)) > u64::MAX,
        decreases ds.len() - i,
    {
        let ghost pre = ds@.subrange(0, i as int);
        let ghost post = ds@.subrange(0, i + 1 as int);
        assert(post.drop_last() =~= pre);
        assert(post.last() == ds@[i as int]);
        let c: char = ds[i];
        let d: u64 = ((c as u32) - 48) as u64;
        if over {
            proof {
                lemma_digits_val_nonneg(pre);
            }
        } else {
            if val > (u64::MAX - d) / 10 {
                assert(10 * ((u64::MAX - d) / 10) + ((u64::MAX - d) % 10) == u64::MAX - d);
                assert(10 * (val as int) + d > u64::MAX);
                over = true;
            } else {
                assert(10 * (val as int) + d <= u64::MAX) by {
                    assert(10 * ((u64::MAX - d) / 10) + ((u64::MAX - d) % 10) == u64::MAX - d);
                }
                val = val * 10 + d;
            }
        }
        i = i + 1;
    }
    assert(ds@.subrange(0, ds@.len() as int) =~= ds@);
    if over {
        None
    } else {
        Some(val)
    }
}

/// Closes a digit run, appending its token (if any) to `parts`.
fn close_number(parts: &mut Vec<VersionPart>, num: &Vec<char>)
    requires
        forall|j: int| 0 <= j < num@.len() ==> is_digit_char(#[trigger] num@[j]),
    ensures
        part_views(final(parts)@) == part_views(old(parts)@) + flush_num(num@),
{
    let ghost old_parts = parts@;
    if num.len() == 0 {
        assert(part_views(parts@) =~= part_views(old_parts) + flush_num(num@));
        return ;
    }
    match digits_to_u64(num) {
        Some(n) => {
            parts.push(VersionPart::Number(n));
            assert(part_views(parts@) =~= part_views(old_parts) + flush_num(num@));
        },
        None => {
            assert(part_views(parts@) =~= part_views(old_parts) + flush_num(num@));
        },
    }
}

/// Closes a letter run, appending its lowercased token (if any) to `parts`.
fn close_text(parts: &mut Vec<VersionPart>, text: &Vec<char>)
    ensures
        part_views(final(parts)@) == part_views(old(parts)@) + flush_text(text@),
{
    let ghost old_parts = parts@;
    if text.len() == 0 {
        assert(part_views(parts@) =~= part_views(old_parts) + flush_text(text@));
        return ;
    }
    let mut lowered: Vec<char> = Vec::new();
    let mut i: usize = 0;
    while i < text.len()
        invariant
            i <= text.len(),
            lowered@ == lower_seq(text@).subrange(0, i as int),
        decreases text.len() - i,
    {
        lowered.push(lower(text[i]));
        i = i + 1;
        assert(lowered@ =~= lower_seq(text@).subrange(0, i as int));
    }
    assert(lowered@ =~= lower_seq(text@));
    let s: String = chars_to_string(&lowered);
    parts.push(VersionPart::Text(s));
    assert(part_views(parts@) =~= part_views(old_parts) + flush_text(text@));
}

/// Tokenizes a version string.
pub fn parse_version(version: &str) -> (r: Vec<VersionPart>)
    ensures
        part_views(r@) == spec_parse_version(version@),
{
    let v: Vec<char> = to_char_vec(version);
    let mut parts: Vec<VersionPart> = Vec::new();
    let mut num: Vec<char> = Vec::new();
    let mut text: Vec<char> = Vec::new();
    let mut i: usize = 0;
    assert(part_views(parts@) =~= Seq::<VersionToken>::empty());
    while i < v.len()
        invariant
            i <= v.len(),
            v@ == version@,
            forall|j: int| 0 <= j < num@.len() ==> is_digit_char(#[trigger] num@[j]),
            tokens_from(v@, i as int, num@, text@, part_views(parts@)) == spec_parse_version(
                version@,
            ),
        decreases v.len() - i,
    {
        let c: char = v[i];
        if is_digit(c) {
            close_text(&mut parts, &text);
            text = Vec::new();
            num.push(c);
        } else if is_alpha(c) {
            close_number(&mut parts, &num);
            num = Vec::new();
            text.push(c);
        } else {
            close_number(&mut parts, &num);
            num = Vec::new();
            close_text(&mut parts, &text);
            text = Vec::new();
        }
        i = i + 1;
    }
    close_number(&mut parts, &num);
    close_text(&mut parts, &text);
    assert(part_views(parts@) =~= spec_parse_version(version@));
    parts
}

pub open spec fn spec_flip(o: Ordering) -> Ordering {
    match o {
        Ordering::Less => Ordering::Greater,
        Ordering::Equal => Ordering::Equal,
        Ordering::Greater => Ordering::Less,
    }
}

pub open spec fn cmp_int(a: int, b: int) -> Ordering {
    if a < b {
        Ordering::Less
    } else if a == b {
        Ordering::Equal
    } else {
        Ordering::Greater
    }
}

/// Lexicographic order on character sequences, by code point.
pub open spec fn lex_cmp(x: Seq<char>, y: Seq<char>) -> Ordering
    decreases x.len(),
{
    if x.len() == 0 && y.len() == 0 {
        Ordering::Equal
    } else if x.len() == 0 {
        Ordering::Less
    } else if y.len() == 0 {
        Ordering::Greater
    } else if x[0] != y[0] {
        cmp_int(x[0] as u32 as int, y[0] as u32 as int)
    } else {
        lex_cmp(x.drop_first(), y.drop_first())
    }
}

/// Token order: numbers by value, texts lexicographically, and a number
/// below any text.
pub open spec fn cmp_token(a: VersionToken, b: VersionToken) -> Ordering {
    match (a, b) {
        (VersionToken::Number(x), VersionToken::Number(y)) => cmp_int(x as int, y as int),
        (VersionToken::Text(x), VersionToken::Text(y)) => lex_cmp(x, y),
        (VersionToken::Number(_), VersionToken::Text(_)) => Ordering::Less,
        (VersionToken::Text(_), VersionToken::Number(_)) => Ordering::Greater,
    }
}

/// The token at position `i`, padding past the end with numeric zero.
pub open spec fn token_at(ts: Seq<VersionToken>, i: int) -> VersionToken {
    if 0 <= i < ts.len() {
        ts[i]
    } else {
        VersionToken::Number(0)
    }
}

pub open spec fn max_len(a: int, b: int) -> int {
    if a > b {
        a
    } else {
        b
    }
}

/// Position-wise comparison from index `i` on; the first unequal pair of
/// tokens decides.
pub open spec fn cmp_from(ta: Seq<VersionToken>, tb: Seq<VersionToken>, i: int) -> Ordering
    decreases max_len(ta.len() as int, tb.len() as int) - i,
{
    if i < 0 || (i >= ta.len() && i >= tb.len()) {
        Ordering::Equal
    } else {
        let c = cmp_token(token_at(ta, i), token_at(tb, i));
        if c != Ordering::Equal {
            c
        } else {
            cmp_from(ta, tb, i + 1)
        }
    }
}

/// What `compare_versions` returns for the two character sequences.
pub open spec fn spec_compare_versions(a: Seq<char>, b: Seq<char>) -> Ordering {
    cmp_from(spec_parse_version(a), spec_parse_version(b), 0)
}

fn lex_cmp_exec(x: &Vec<char>, y: &Vec<char>) -> (r: Ordering)
    ensures
        r == lex_cmp(x@, y@),
{
    let mut i: usize = 0;
    assert(x@.skip(0) =~= x@);
    assert(y@.skip(0) =~= y@);
    while i < x.len() && i < y.len()
        invariant
            i <= x.len(),
            i <= y.len(),
            lex_cmp(x@.skip(i as int), y@.skip(i as int)) == lex_cmp(x@, y@),
        decreases x.len() - i,
    {
        let ghost rx = x@.skip(i as int);
        let ghost ry = y@.skip(i as int);
        let a: char = x[i];
        let b: char = y[i];
        if a != b {
            assert(rx[0] == a && ry[0] == b);
            assert(lex_cmp(rx, ry) == cmp_int(a as u32 as int, b as u32 as int));
            proof {
                vstd::utf8::char_u32_cast(a, a as u32);
                vstd::utf8::char_u32_cast(b, b as u32);
            }
            let au: u32 = a as u32;
            let bu: u32 = b as u32;
            if au < bu {
                return Ordering::Less;
            } else {
                return Ordering::Greater;
            }
        }
        assert(rx.drop_first() =~= x@.skip(i + 1));
        assert(ry.drop_first() =~= y@.skip(i + 1));
        i = i + 1;
    }
    let ghost rx = x@.skip(i as int);
    let ghost ry = y@.skip(i as int);
    if i < y.len() {
        assert(rx.len() == 0 && ry.len() > 0);
        Ordering::Less
    } else if i < x.len() {
        assert(rx.len() > 0 && ry.len() == 0);
        Ordering::Greater
    } else {
        assert(rx.len() == 0 && ry.len() == 0);
        Ordering::Equal
    }
}

fn cmp_part(a: &VersionPart, b: &VersionPart) -> (r: Ordering)
    ensures
        r == cmp_token(a@, b@),
{
    match (a, b) {
        (VersionPart::Number(x), VersionPart::Number(y)) => {
            if *x < *y {
                Ordering::Less
            } else if *x == *y {
                Ordering::Equal
            } else {
                Ordering::Greater
            }
        },
        (VersionPart::Text(x), VersionPart::Text(y)) => {
            let xv: Vec<char> = to_char_vec(x.as_str());
            let yv: Vec<char> = to_char_vec(y.as_str());
            lex_cmp_exec(&xv, &yv)
        },
        (VersionPart::Number(_), VersionPart::Text(_)) => Ordering::Less,
        (VersionPart::Text(_), VersionPart::Number(_)) => Ordering::Greater,
    }
}

/// Compares two version strings as the tokenization orders them.
pub fn compare_versions(version1: &str, version2: &str) -> (r: Ordering)
    ensures
        r == spec_compare_versions(version1@, version2@),
{
    let p1: Vec<VersionPart> = parse_version(version1);
    let p2: Vec<VersionPart> = parse_version(version2);
    let ghost ta = spec_parse_version(version1@);
    let ghost tb = spec_parse_version(version2@);
    let n1: usize = p1.len();
    let n2: usize = p2.len();
    let n: usize = if n1 > n2 {
        n1
    } else {
        n2
    };
    let mut i: usize = 0;
    while i < n
        invariant
            i <= n,
            n1 == p1@.len(),
            n2 == p2@.len(),
            n == max_len(n1 as int, n2 as int),
            ta == spec_parse_version(version1@),
            tb == spec_parse_version(version2@),
            part_views(p1@) == ta,
            part_views(p2@) == tb,
            cmp_from(ta, tb, i as int) == cmp_from(ta, tb, 0),
        decreases n - i,
    {
        let zero: VersionPart = VersionPart::Number(0);
        let av: &VersionPart = if i < n1 {
            &p1[i]
        } else {
            &zero
        };
        let bv: &VersionPart = if i < n2 {
            &p2[i]
        } else {
            &zero
        };
        assert(av@ == token_at(ta, i as int));
        assert(bv@ == token_at(tb, i as int));
        let c: Ordering = cmp_part(av, bv);
        match c {
            Ordering::Equal => {},
            _ => {
                assert(cmp_from(ta, tb, i as int) == c);
                return c;
            },
        }
        i = i + 1;
    }
    Ordering::Equal
}

proof fn lemma_lex_cmp_self(x: Seq<char>)
    ensures
        lex_cmp(x, x) == Ordering::Equal,
    decreases x.len(),
{
    if x.len() > 0 {
        lemma_lex_cmp_self(x.drop_first());
    }
}

proof fn lemma_cmp_from_self(t: Seq<VersionToken>, i: int)
    ensures
        cmp_from(t, t, i) == Ordering::Equal,
    decreases t.len() - i,
{
    if 0 <= i && i < t.len() {
        match token_at(t, i) {
            VersionToken::Number(_) => {},
            VersionToken::Text(x) => {
                lemma_lex_cmp_self(x);
            },
        }
        lemma_cmp_from_self(t, i + 1);
    }
}

/// A version compares equal to itself.
pub proof fn lemma_compare_versions_self(v: Seq<char>)
    ensures
        spec_compare_versions(v, v) == Ordering::Equal,
{
    lemma_cmp_from_self(spec_parse_version(v), 0);
}

proof fn lemma_lex_cmp_flip(x: Seq<char>, y: Seq<char>)
    ensures
        lex_cmp(y, x) == spec_flip(lex_cmp(x, y)),
    decreases x.len(),
{
    if x.len() > 0 && y.len() > 0 && x[0] == y[0] {
        lemma_lex_cmp_flip(x.drop_first(), y.drop_first());
    }
}

proof fn lemma_cmp_token_flip(a: VersionToken, b: VersionToken)
    ensures
        cmp_token(b, a) == spec_flip(cmp_token(a, b)),
{
    match (a, b) {
        (VersionToken::Text(x), VersionToken::Text(y)) => {
            lemma_lex_cmp_flip(x, y);
        },
        _ => {},
    }
}

proof fn lemma_cmp_from_flip(ta: Seq<VersionToken>, tb: Seq<VersionToken>, i: int)
    ensures
        cmp_from(tb, ta, i) == spec_flip(cmp_from(ta, tb, i)),
    decreases max_len(ta.len() as int, tb.len() as int) - i,
{
    if i < 0 || (i >= ta.len() && i >= tb.len()) {
    } else {
        lemma_cmp_token_flip(token_at(ta, i), token_at(tb, i));
        lemma_cmp_from_flip(ta, tb, i + 1);
    }
}

/// Swapping the arguments of the comparison inverts its result.
pub proof fn lemma_compare_versions_antisymmetric(a: Seq<char>, b: Seq<char>)
    ensures
        spec_compare_versions(b, a) == spec_flip(spec_compare_versions(a, b)),
{
    lemma_cmp_from_flip(spec_parse_version(a), spec_parse_version(b), 0);
}

} // verus!
