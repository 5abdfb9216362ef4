//! Character-sequence utilities shared by the filename codec, the version
//! comparator, the size formatter and the registry: conversions between
//! `String` and `Vec<char>`, split/join on a delimiter, affix tests,
//! substring search, and decimal rendering of integers.

use vstd::prelude::*;
use vstd::string::*;

verus! {

/// What `str::to_lowercase` returns for a given character sequence.
pub uninterp spec fn lower_of(s: Seq<char>) -> Seq<char>;

/// Relies on str::to_lowercase: the result depends on the characters alone,
/// and an empty string stays empty.
#[verifier::external_body]
pub(crate) fn lowercase(s: &str) -> (r: String)
    ensures
        r@ == lower_of(s@),
        s@.len() == 0 ==> r@.len() == 0,
{
    s.to_lowercase()
}

/// Relies on String::push: appends the given character to the end.
#[verifier::external_body]
pub(crate) fn push_char(s: &mut String, c: char)
    ensures
        final(s)@ == old(s)@.push(c),
{
    s.push(c);
}

/// The characters of a string slice, collected one by one.
pub fn to_char_vec(s: &str) -> (r: Vec<char>)
    ensures
        r@ == s@,
{
    let n: usize = s.unicode_len();
    let mut r: Vec<char> = Vec::new();
    let mut i: usize = 0;
    while i < n
        invariant
            i <= n,
            n == s@.len(),
            r@ == s@.subrange(0, i as int),
        decreases n - i,
    {
        let c: char = s.get_char(i);
        r.push(c);
        i = i + 1;
        assert(r@ =~= s@.subrange(0, i as int));
    }
    assert(r@ =~= s@);
    r
}

/// A `String` holding exactly the given characters.
pub fn chars_to_string(v: &Vec<char>) -> (r: String)
    ensures
        r@ == v@,
{
    let mut r: String = String::new();
    let mut i: usize = 0;
    while i < v.len()
        invariant
            i <= v.len(),
            r@ == v@.subrange(0, i as int),
        decreases v.len() - i,
    {
        push_char(&mut r, v[i]);
        i = i + 1;
        assert(r@ =~= v@.subrange(0, i as int));
    }
    assert(r@ =~= v@);
    r
}

pub open spec fn spec_starts_with(s: Seq<char>, prefix: Seq<char>) -> bool {
    s.len() >= prefix.len() && s.subrange(0, prefix.len() as int) == prefix
}

pub open spec fn spec_ends_with(s: Seq<char>, suffix: Seq<char>) -> bool {
    s.len() >= suffix.len() && s.subrange(s.len() - suffix.len(), s.len() as int) == suffix
}

pub fn starts_with(s: &Vec<char>, prefix: &Vec<char>) -> (r: bool)
    ensures
        r == spec_starts_with(s@, prefix@),
{
    if s.len() < prefix.len() {
        return false;
    }
    let mut i: usize = 0;
    while i < prefix.len()
        invariant
            i <= prefix.len(),
            prefix.len() <= s.len(),
            forall|j: int| 0 <= j < i ==> s@[j] == prefix@[j],
        decreases prefix.len() - i,
    {
        if s[i] != prefix[i] {
            assert(s@.subrange(0, prefix@.len() as int)[i as int] != prefix@[i as int]);
            return false;
        }
        i = i + 1;
    }
    assert(s@.subrange(0, prefix@.len() as int) =~= prefix@);
    true
}

pub fn ends_with(s: &Vec<char>, suffix: &Vec<char>) -> (r: bool)
    ensures
        r == spec_ends_with(s@, suffix@),
{
    if s.len() < suffix.len() {
        return false;
    }
    let off: usize = s.len() - suffix.len();
    let mut i: usize = 0;
    while i < suffix.len()
        invariant
            i <= suffix.len(),
            off + suffix@.len() == s@.len(),
            s@.len() <= usize::MAX,
            off == s@.len() - suffix@.len(),
            forall|j: int| 0 <= j < i ==> s@[off + j] == suffix@[j],
        decreases suffix.len() - i,
    {
        if s[off + i] != suffix[i] {
            assert(s@.subrange(off as int, s@.len() as int)[i as int] != suffix@[i as int]);
            return false;
        }
        i = i + 1;
    }
    assert(s@.subrange(off as int, s@.len() as int) =~= suffix@);
    true
}

/// The string with a recognized suffix removed, if it ends with that suffix.
pub fn strip_suffix(s: &Vec<char>, suffix: &Vec<char>) -> (r: Option<Vec<char>>)
    ensures
        spec_ends_with(s@, suffix@) ==> (r matches Some(v) && v@ == s@.subrange(
            0,
            s@.len() - suffix@.len(),
        )),
        !spec_ends_with(s@, suffix@) ==> r is None,
{
    if !ends_with(s, suffix) {
        return None;
    }
    let keep: usize = s.len() - suffix.len();
    let mut r: Vec<char> = Vec::new();
    let mut i: usize = 0;
    while i < keep
        invariant
            i <= keep,
            keep <= s@.len(),
            r@ == s@.subrange(0, i as int),
        decreases keep - i,
    {
        r.push(s[i]);
        i = i + 1;
        assert(r@ =~= s@.subrange(0, i as int));
    }
    Some(r)
}

/// Appends all characters of `src` to `dst`.
pub fn append_chars(dst: &mut Vec<char>, src: &Vec<char>)
    ensures
        final(dst)@ == old(dst)@ + src@,
{
    let mut i: usize = 0;
    while i < src.len()
        invariant
            i <= src.len(),
            dst@ == old(dst)@ + src@.subrange(0, i as int),
        decreases src.len() - i,
    {
        dst.push(src[i]);
        i = i + 1;
        assert(dst@ =~= old(dst)@ + src@.subrange(0, i as int));
    }
    assert(dst@ =~= old(dst)@ + src@);
}

/// One step at a time, the fields produced by splitting `s` on the delimiter
/// `d`, starting at position `i` with a partial field `cur` and the fields
/// `acc` already complete. Splitting an empty string yields one empty field,
/// as `str::split` does.
pub open spec fn split_from(
    s: Seq<char>,
    d: char,
    i: int,
    cur: Seq<char>,
    acc: Seq<Seq<char>>,
) -> Seq<Seq<char>>
    decreases s.len() - i,
{
    if i < 0 || i >= s.len() {
        acc.push(cur)
    } else if s[i] == d {
        split_from(s, d, i + 1, Seq::empty(), acc.push(cur))
    } else {
        split_from(s, d, i + 1, cur.push(s[i]), acc)
    }
}

pub open spec fn spec_split(s: Seq<char>, d: char) -> Seq<Seq<char>> {
    split_from(s, d, 0, Seq::empty(), Seq::empty())
}

/// Splitting passes over a delimiter-free run in one piece: the run extends
/// the open field and produces no new field.
pub proof fn lemma_split_from_run(
    s: Seq<char>,
    d: char,
    i: int,
    m: int,
    cur: Seq<char>,
    acc: Seq<Seq<char>>,
)
    requires
        0 <= i,
        0 <= m,
        i + m <= s.len(),
        forall|j: int| i <= j < i + m ==> s[j] != d,
    ensures
        split_from(s, d, i, cur, acc) == split_from(s, d, i + m, cur + s.subrange(i, i + m), acc),
    decreases m,
{
    if m == 0 {
        assert(cur + s.subrange(i, i) =~= cur);
    } else {
        assert(s[i] != d);
        lemma_split_from_run(s, d, i + 1, m - 1, cur.push(s[i]), acc);
        assert(cur.push(s[i]) + s.subrange(i + 1, i + m) =~= cur + s.subrange(i, i + m));
    }
}

pub open spec fn views_of(vs: Seq<Vec<char>>) -> Seq<Seq<char>> {
    vs.map_values(|v: Vec<char>| v@)
}

/// The fields of `s` separated by `d`, in order.
pub fn split_chars(s: &Vec<char>, d: char) -> (r: Vec<Vec<char>>)
    ensures
        views_of(r@) == spec_split(s@, d),
        r@.len() >= 1,
{
    let mut acc: Vec<Vec<char>> = Vec::new();
    let mut cur: Vec<char> = Vec::new();
    let mut i: usize = 0;
    assert(views_of(acc@) =~= Seq::<Seq<char>>::empty());
    while i < s.len()
        invariant
            i <= s.len(),
            split_from(s@, d, i as int, cur@, views_of(acc@)) == spec_split(s@, d),
        decreases s.len() - i,
    {
        let c: char = s[i];
        if c == d {
            let ghost prev_acc = acc@;
            acc.push(cur);
            cur = Vec::new();
            assert(views_of(acc@) =~= views_of(prev_acc).push(acc@.last()@));
        } else {
            cur.push(c);
        }
        i = i + 1;
    }
    let ghost prev_acc = acc@;
    let ghost last_cur = cur@;
    acc.push(cur);
    assert(views_of(acc@) =~= views_of(prev_acc).push(last_cur));
    acc
}

/// The fields joined with the delimiter `d`, written back to front.
pub open spec fn spec_join(parts: Seq<Seq<char>>, d: char) -> Seq<char>
    decreases parts.len(),
{
    if parts.len() == 0 {
        Seq::empty()
    } else if parts.len() == 1 {
        parts[0]
    } else {
        spec_join(parts.drop_last(), d).push(d) + parts.last()
    }
}

/// Joins the fields of `parts` from position `start` on, separated by `d`.
pub fn join_from(parts: &Vec<Vec<char>>, start: usize, d: char) -> (r: Vec<char>)
    requires
        start as int <= parts@.len(),
    ensures
        r@ == spec_join(views_of(parts@).skip(start as int), d),
{
    let mut r: Vec<char> = Vec::new();
    let mut i: usize = start;
    assert(r@ =~= spec_join(views_of(parts@).subrange(start as int, start as int), d));
    while i < parts.len()
        invariant
            start <= i <= parts.len(),
            r@ == spec_join(views_of(parts@).subrange(start as int, i as int), d),
        decreases parts.len() - i,
    {
        let ghost pre = views_of(parts@).subrange(start as int, i as int);
        let ghost post = views_of(parts@).subrange(start as int, i + 1 as int);
        assert(post.drop_last() =~= pre);
        assert(post.last() == parts@[i as int]@);
        if i > start {
            r.push(d);
        }
        append_chars(&mut r, &parts[i]);
        i = i + 1;
    }
    assert(views_of(parts@).subrange(start as int, parts@.len() as int) =~= views_of(
        parts@,
    ).skip(start as int));
    r
}

pub open spec fn spec_contains_seq(hay: Seq<char>, needle: Seq<char>) -> bool {
    exists|i: int|
        0 <= i && i + needle.len() <= hay.len() && #[trigger] hay.subrange(i, i + needle.len())
            == needle
}

/// Whether `s` holds `needle` starting at position `i`.
fn match_at(s: &Vec<char>, needle: &Vec<char>, i: usize) -> (r: bool)
    requires
        i + needle@.len() <= s@.len(),
    ensures
        r == (s@.subrange(i as int, i + needle@.len()) == needle@),
{
    let n: usize = s.len();
    let mut k: usize = 0;
    while k < needle.len()
        invariant
            k <= needle.len(),
            i + needle@.len() <= s@.len(),
            n == s@.len(),
            forall|j: int| 0 <= j < k ==> s@[i + j] == needle@[j],
        decreases needle.len() - k,
    {
        if s[i + k] != needle[k] {
            assert(s@.subrange(i as int, i + needle@.len())[k as int] != needle@[k as int]);
            return false;
        }
        k = k + 1;
    }
    assert(s@.subrange(i as int, i + needle@.len()) =~= needle@);
    true
}

/// Case-sensitive substring search.
pub fn contains_seq(hay: &Vec<char>, needle: &Vec<char>) -> (r: bool)
    ensures
        r == spec_contains_seq(hay@, needle@),
{
    if needle.len() > hay.len() {
        return false;
    }
    if needle.len() == 0 {
        assert(spec_contains_seq(hay@, needle@)) by {
            assert(hay@.subrange(0, 0 + needle@.len() as int) =~= needle@);
        }
        return true;
    }
    let limit: usize = hay.len() - needle.len();
    let mut i: usize = 0;
    while i <= limit
        invariant
            i <= limit + 1,
            limit + 1 <= usize::MAX,
            limit + needle@.len() == hay@.len(),
            forall|j: int|
                0 <= j < i ==> #[trigger] hay@.subrange(j, j + needle@.len()) != needle@,
        decreases limit + 1 - i,
    {
        if match_at(hay, needle, i) {
            assert(spec_contains_seq(hay@, needle@));
            return true;
        }
        i = i + 1;
    }
    false
}

/// A copy of the characters.
pub fn copy_chars(s: &Vec<char>) -> (r: Vec<char>)
    ensures
        r@ == s@,
{
    let mut r: Vec<char> = Vec::new();
    append_chars(&mut r, s);
    assert(r@ =~= s@);
    r
}

/// The string with every trailing repetition of `pat` removed, as
/// `str::trim_end_matches` does for a string pattern.
pub open spec fn spec_trim_end_matches(s: Seq<char>, pat: Seq<char>) -> Seq<char>
    decreases s.len(),
{
    if pat.len() > 0 && spec_ends_with(s, pat) {
        spec_trim_end_matches(s.take(s.len() - pat.len()), pat)
    } else {
        s
    }
}

pub fn trim_end_matches_chars(s: &Vec<char>, pat: &Vec<char>) -> (r: Vec<char>)
    requires
        pat@.len() > 0,
    ensures
        r@ == spec_trim_end_matches(s@, pat@),
{
    let mut cur: Vec<char> = copy_chars(s);
    loop
        invariant
            pat@.len() > 0,
            spec_trim_end_matches(cur@, pat@) == spec_trim_end_matches(s@, pat@),
        ensures
            !spec_ends_with(cur@, pat@),
            spec_trim_end_matches(cur@, pat@) == spec_trim_end_matches(s@, pat@),
        decreases cur@.len(),
    {
        match strip_suffix(&cur, pat) {
            Some(v) => {
                cur = v;
            },
            None => {
                break ;
            },
        }
    }
    cur
}

pub open spec fn digit_char(d: int) -> char {
    ((48 + d) as u8) as char
}

/// The decimal digits of `n`, most significant first, no sign and no padding.
pub open spec fn spec_dec_nat(n: nat) -> Seq<char>
    decreases n,
{
    if n < 10 {
        seq![digit_char(n as int)]
    } else {
        spec_dec_nat(n / 10).push(digit_char((n % 10) as int))
    }
}

/// The decimal form of `v`, with a leading minus sign when negative.
pub open spec fn spec_dec_int(v: int) -> Seq<char> {
    if v < 0 {
        seq!['-'] + spec_dec_nat((-v) as nat)
    } else {
        spec_dec_nat(v as nat)
    }
}

fn digit_to_char(d: u64) -> (c: char)
    requires
        d < 10,
    ensures
        c == digit_char(d as int),
{
    (48u8 + (d as u8)) as char
}

/// The decimal rendering of an unsigned integer.
pub fn u64_to_chars(n: u64) -> (r: Vec<char>)
    ensures
        r@ == spec_dec_nat(n as nat),
{
    let mut tail: Vec<char> = Vec::new();
    let mut m: u64 = n;
    while m >= 10
        invariant
            spec_dec_nat(n as nat) == spec_dec_nat(m as nat) + tail@,
        decreases m,
    {
        let ghost old_tail = tail@;
        let d: u64 = m % 10;
        tail.insert(0, digit_to_char(d));
        m = m / 10;
        assert(spec_dec_nat(m as nat) + tail@ =~= (spec_dec_nat(m as nat).push(
            digit_char(d as int),
        )) + old_tail);
    }
    let mut r: Vec<char> = Vec::new();
    r.push(digit_to_char(m));
    append_chars(&mut r, &tail);
    assert(r@ =~= seq![digit_char(m as int)] + tail@);
    r
}

/// The decimal rendering of a signed integer.
pub fn i64_to_chars(v: i64) -> (r: Vec<char>)
    ensures
        r@ == spec_dec_int(v as int),
{
    if v >= 0 {
        u64_to_chars(v as u64)
    } else {
        let wide: i128 = v as i128;
        let mag: u64 = (-wide) as u64;
        let mut r: Vec<char> = Vec::new();
        r.push('-');
        let digits: Vec<char> = u64_to_chars(mag);
        append_chars(&mut r, &digits);
        assert(r@ =~= seq!['-'] + digits@);
        r
    }
}

} // verus!
