//! Filename codec. Each ecosystem writes a plugin's fields into its on-disk
//! file name in a fixed order joined by underscores, and marks the enabled
//! or disabled state with its own suffix. Decoding strips the recognized
//! suffix, splits on the delimiter and assigns fields by position; a name
//! with too few fields is not a plugin file. Encoding first replaces a fixed
//! set of path-unsafe characters in the description with underscores.

use vstd::prelude::*;
use crate::mode::PluginMode;
use crate::plugin::{Plugin, PluginData};
use crate::strutil::{
    to_char_vec, chars_to_string, copy_chars, append_chars, split_chars, join_from, strip_suffix,
    views_of, spec_split, spec_join, spec_ends_with, split_from, lemma_split_from_run,
};
use crate::sizefmt::{format_file_size, spec_format_file_size};

verus! {

/// The characters never allowed in an encoded description.
pub open spec fn is_unsafe_char(c: char) -> bool {
    c == ' ' || c == '/' || c == '\\' || c == ':' || c == '*' || c == '?' || c == '"' || c == '<'
        || c == '>' || c == '|'
}

/// The description with every path-unsafe character replaced by an
/// underscore.
pub open spec fn spec_sanitize(s: Seq<char>) -> Seq<char> {
    s.map_values(
        |c: char|
            if is_unsafe_char(c) {
                '_'
            } else {
                c
            },
    )
}

fn sanitize(s: &String) -> (r: Vec<char>)
    ensures
        r@ == spec_sanitize(s@),
{
    let v: Vec<char> = to_char_vec(s.as_str());
    let mut r: Vec<char> = Vec::new();
    let mut i: usize = 0;
    while i < v.len()
        invariant
            i <= v.len(),
            v@ == s@,
            r@ == spec_sanitize(s@).subrange(0, i as int),
        decreases v.len() - i,
    {
        let c: char = v[i];
        let unsafe_c: bool = c == ' ' || c == '/' || c == '\\' || c == ':' || c == '*' || c == '?'
            || c == '"' || c == '<' || c == '>' || c == '|';
        if unsafe_c {
            r.push('_');
        } else {
            r.push(c);
        }
        i = i + 1;
        assert(r@ =~= spec_sanitize(s@).subrange(0, i as int));
    }
    assert(r@ =~= spec_sanitize(s@));
    r
}

/// The canonical file base name (no extension) of a plugin under a mode's
/// grammar. One mode writes the plugin name in place of an empty
/// description, so that no trailing field is empty.
pub open spec fn spec_generate_filename(mode: PluginMode, p: Plugin) -> Seq<char> {
    let sd = spec_sanitize(p.describe@);
    match mode {
        PluginMode::CloudPE => p.name@ + seq!['_'] + p.version@ + seq!['_'] + p.author@
            + seq!['_'] + sd,
        PluginMode::HotPE => if sd.len() == 0 {
            p.name@ + seq!['_'] + p.author@ + seq!['_'] + p.version@ + seq!['_'] + p.name@
        } else {
            p.name@ + seq!['_'] + p.author@ + seq!['_'] + p.version@ + seq!['_'] + sd
        },
        PluginMode::Edgeless => p.name@ + seq!['_'] + p.version@ + seq!['_'] + p.author@,
        PluginMode::Select => Seq::empty(),
    }
}

/// Encodes a plugin into its canonical file base name.
pub fn generate_plugin_filename(mode: PluginMode, plugin: &Plugin) -> (r: String)
    ensures
        r@ == spec_generate_filename(mode, *plugin),
{
    let sd: Vec<char> = sanitize(&plugin.describe);
    let name: Vec<char> = to_char_vec(plugin.name.as_str());
    let version: Vec<char> = to_char_vec(plugin.version.as_str());
    let author: Vec<char> = to_char_vec(plugin.author.as_str());
    let mut v: Vec<char> = Vec::new();
    match mode {
        PluginMode::CloudPE => {
            append_chars(&mut v, &name);
            v.push('_');
            append_chars(&mut v, &version);
            v.push('_');
            append_chars(&mut v, &author);
            v.push('_');
            append_chars(&mut v, &sd);
            assert(v@ =~= spec_generate_filename(mode, *plugin));
        },
        PluginMode::HotPE => {
            append_chars(&mut v, &name);
            v.push('_');
            append_chars(&mut v, &author);
            v.push('_');
            append_chars(&mut v, &version);
            v.push('_');
            if sd.len() == 0 {
                append_chars(&mut v, &name);
            } else {
                append_chars(&mut v, &sd);
            }
            assert(v@ =~= spec_generate_filename(mode, *plugin));
        },
        PluginMode::Edgeless => {
            append_chars(&mut v, &name);
            v.push('_');
            append_chars(&mut v, &version);
            v.push('_');
            append_chars(&mut v, &author);
            assert(v@ =~= spec_generate_filename(mode, *plugin));
        },
        PluginMode::Select => {
            assert(v@ =~= spec_generate_filename(mode, *plugin));
        },
    }
    chars_to_string(&v)
}

/// The canonical on-disk name of an enabled plugin: the encoded base name
/// with the mode's enabled extension appended after a dot.
pub fn full_plugin_filename(mode: PluginMode, plugin: &Plugin) -> (r: String)
    ensures
        r@ == spec_generate_filename(mode, *plugin) + seq!['.'] + mode.spec_enabled_extension(),
{
    proof {
        reveal_strlit(".");
    }
    let mut r: String = generate_plugin_filename(mode, plugin);
    r.append(".");
    r.append(mode.get_enabled_extension());
    assert(r@ =~= spec_generate_filename(mode, *plugin) + seq!['.']
        + mode.spec_enabled_extension());
    r
}

/// The fields read out of a file name, before any are given to a `Plugin`.
pub struct DecodedName {
    pub name: Seq<char>,
    pub version: Seq<char>,
    pub author: Seq<char>,
    pub describe: Seq<char>,
}

pub open spec fn suffix_ce() -> Seq<char> {
    seq!['.', 'c', 'e']
}

pub open spec fn suffix_cbk() -> Seq<char> {
    seq!['.', 'C', 'B', 'K']
}

pub open spec fn suffix_hpm() -> Seq<char> {
    seq!['.', 'H', 'P', 'M']
}

pub open spec fn suffix_hpm_off() -> Seq<char> {
    seq!['.', 'h', 'p', 'm', '.', 'o', 'f', 'f']
}

pub open spec fn suffix_7z() -> Seq<char> {
    seq!['.', '7', 'z']
}

pub open spec fn suffix_7zf() -> Seq<char> {
    seq!['.', '7', 'z', 'f']
}

/// The string with `suffix` removed when it ends with it, else unchanged.
pub open spec fn spec_strip_or_keep(s: Seq<char>, suffix: Seq<char>) -> Seq<char> {
    if spec_ends_with(s, suffix) {
        s.take(s.len() - suffix.len())
    } else {
        s
    }
}

/// The fields decoded from a file name under a mode's grammar, or nothing
/// when the name has too few fields for that grammar.
pub open spec fn spec_decode_filename(mode: PluginMode, n: Seq<char>) -> Option<DecodedName> {
    match mode {
        PluginMode::CloudPE => {
            let parts = spec_split(n, '_');
            if parts.len() >= 4 {
                let dwe = spec_join(parts.skip(3), '_');
                let describe = if spec_ends_with(dwe, suffix_ce()) {
                    dwe.take(dwe.len() - 3)
                } else {
                    spec_strip_or_keep(dwe, suffix_cbk())
                };
                Some(
                    DecodedName {
                        name: parts[0],
                        version: parts[1],
                        author: parts[2],
                        describe,
                    },
                )
            } else {
                None
            }
        },
        PluginMode::HotPE => {
            let base = if spec_ends_with(n, suffix_hpm()) {
                n.take(n.len() - 4)
            } else {
                spec_strip_or_keep(n, suffix_hpm_off())
            };
            let parts = spec_split(base, '_');
            if parts.len() >= 3 {
                Some(
                    DecodedName {
                        name: parts[0],
                        author: parts[1],
                        version: parts[2],
                        describe: if parts.len() > 3 {
                            spec_join(parts.skip(3), '_')
                        } else {
                            Seq::empty()
                        },
                    },
                )
            } else {
                None
            }
        },
        PluginMode::Edgeless => {
            let base = if spec_ends_with(n, suffix_7z()) {
                n.take(n.len() - 3)
            } else {
                spec_strip_or_keep(n, suffix_7zf())
            };
            let parts = spec_split(base, '_');
            if parts.len() >= 3 {
                Some(
                    DecodedName {
                        name: parts[0],
                        version: parts[1],
                        author: spec_join(parts.skip(2), '_'),
                        describe: Seq::empty(),
                    },
                )
            } else {
                None
            }
        },
        PluginMode::Select => None,
    }
}

/// The plugin a local file decodes to: the decoded fields, the original
/// file name, the size rendered from the actual file length, and no link.
pub open spec fn spec_local_plugin(mode: PluginMode, n: Seq<char>, size: int) -> Option<
    PluginData,
> {
    match spec_decode_filename(mode, n) {
        Some(d) => Some(
            PluginData {
                name: d.name,
                size: spec_format_file_size(size),
                version: d.version,
                author: d.author,
                describe: d.describe,
                file: n,
                link: Seq::empty(),
            },
        ),
        None => None,
    }
}

/// Decodes a local file name into a plugin, with `size` the file's actual
/// length in bytes. A name that does not fit the mode's grammar yields
/// nothing.
pub fn parse_plugin_file(mode: PluginMode, file_name: &str, size: u64) -> (r: Option<Plugin>)
    ensures
        match r {
            Some(p) => spec_local_plugin(mode, file_name@, size as int) == Some(p@),
            None => spec_local_plugin(mode, file_name@, size as int) is None,
        },
{
    let n: Vec<char> = to_char_vec(file_name);
    match mode {
        PluginMode::CloudPE => {
            let parts: Vec<Vec<char>> = split_chars(&n, '_');
            let ghost sparts = spec_split(file_name@, '_');
            if parts.len() >= 4 {
                let dwe: Vec<char> = join_from(&parts, 3, '_');
                assert(views_of(parts@).skip(3) =~= sparts.skip(3));
                let ce: Vec<char> = to_char_vec(".ce");
                let cbk: Vec<char> = to_char_vec(".CBK");
                proof {
                    reveal_strlit(".ce");
                    reveal_strlit(".CBK");
                    assert(ce@ =~= suffix_ce());
                    assert(cbk@ =~= suffix_cbk());
                }
                let describe: Vec<char> = match strip_suffix(&dwe, &ce) {
                    Some(v) => v,
                    None => match strip_suffix(&dwe, &cbk) {
                        Some(v) => v,
                        None => dwe,
                    },
                };
                assert(parts@[0]@ == sparts[0]);
                assert(parts@[1]@ == sparts[1]);
                assert(parts@[2]@ == sparts[2]);
                Some(
                    Plugin {
                        name: chars_to_string(&parts[0]),
                        size: format_file_size(size),
                        version: chars_to_string(&parts[1]),
                        author: chars_to_string(&parts[2]),
                        describe: chars_to_string(&describe),
                        file: chars_to_string(&n),
                        link: String::new(),
                    },
                )
            } else {
                None
            }
        },
        PluginMode::HotPE => {
            let hpm: Vec<char> = to_char_vec(".HPM");
            let hpm_off: Vec<char> = to_char_vec(".hpm.off");
            proof {
                reveal_strlit(".HPM");
                reveal_strlit(".hpm.off");
                assert(hpm@ =~= suffix_hpm());
                assert(hpm_off@ =~= suffix_hpm_off());
            }
            let base: Vec<char> = match strip_suffix(&n, &hpm) {
                Some(v) => v,
                None => match strip_suffix(&n, &hpm_off) {
                    Some(v) => v,
                    None => n.clone(),
                },
            };
            let ghost sbase = base@;
            let parts: Vec<Vec<char>> = split_chars(&base, '_');
            let ghost sparts = spec_split(sbase, '_');
            if parts.len() >= 3 {
                let describe: Vec<char> = if parts.len() > 3 {
                    let d: Vec<char> = join_from(&parts, 3, '_');
                    assert(views_of(parts@).skip(3) =~= sparts.skip(3));
                    d
                } else {
                    Vec::new()
                };
                assert(parts@[0]@ == sparts[0]);
                assert(parts@[1]@ == sparts[1]);
                assert(parts@[2]@ == sparts[2]);
                Some(
                    Plugin {
                        name: chars_to_string(&parts[0]),
                        size: format_file_size(size),
                        version: chars_to_string(&parts[2]),
                        author: chars_to_string(&parts[1]),
                        describe: chars_to_string(&describe),
                        file: chars_to_string(&n),
                        link: String::new(),
                    },
                )
            } else {
                None
            }
        },
        PluginMode::Edgeless => {
            let sz: Vec<char> = to_char_vec(".7z");
            let szf: Vec<char> = to_char_vec(".7zf");
            proof {
                reveal_strlit(".7z");
                reveal_strlit(".7zf");
                assert(sz@ =~= suffix_7z());
                assert(szf@ =~= suffix_7zf());
            }
            let base: Vec<char> = match strip_suffix(&n, &sz) {
                Some(v) => v,
                None => match strip_suffix(&n, &szf) {
                    Some(v) => v,
                    None => n.clone(),
                },
            };
            let ghost sbase = base@;
            let parts: Vec<Vec<char>> = split_chars(&base, '_');
            let ghost sparts = spec_split(sbase, '_');
            if parts.len() >= 3 {
                let author: Vec<char> = join_from(&parts, 2, '_');
                assert(views_of(parts@).skip(2) =~= sparts.skip(2));
                assert(parts@[0]@ == sparts[0]);
                assert(parts@[1]@ == sparts[1]);
                Some(
                    Plugin {
                        name: chars_to_string(&parts[0]),
                        size: format_file_size(size),
                        version: chars_to_string(&parts[1]),
                        author: chars_to_string(&author),
                        describe: String::new(),
                        file: chars_to_string(&n),
                        link: String::new(),
                    },
                )
            } else {
                None
            }
        },
        PluginMode::Select => None,
    }
}

/// The name with a trailing `from` suffix exchanged for `to`; a name that
/// does not end with `from` is unchanged.
pub open spec fn spec_swap_suffix(n: Seq<char>, from: Seq<char>, to: Seq<char>) -> Seq<char> {
    if spec_ends_with(n, from) {
        n.take(n.len() - from.len()) + to
    } else {
        n
    }
}

/// Exchanges a trailing suffix, leaving any other occurrence of the suffix
/// string — mid-name, or earlier in a repeated tail — untouched.
fn swap_suffix(n: &Vec<char>, from: &Vec<char>, to: &Vec<char>) -> (r: Vec<char>)
    ensures
        r@ == spec_swap_suffix(n@, from@, to@),
{
    match strip_suffix(n, from) {
        Some(stem) => {
            let mut r: Vec<char> = stem;
            append_chars(&mut r, to);
            assert(r@ =~= n@.take(n@.len() - from@.len()) + to@);
            r
        },
        None => copy_chars(n),
    }
}

/// The file name an enabled plugin gets: the trailing disabled suffix
/// exchanged for the enabled one; a name without it is unchanged.
pub open spec fn spec_enabled_name(mode: PluginMode, n: Seq<char>) -> Seq<char> {
    match mode {
        PluginMode::CloudPE => spec_swap_suffix(n, suffix_cbk(), suffix_ce()),
        PluginMode::HotPE => spec_swap_suffix(n, suffix_hpm_off(), suffix_hpm()),
        PluginMode::Edgeless => spec_swap_suffix(n, suffix_7zf(), suffix_7z()),
        PluginMode::Select => n,
    }
}

/// The file name a disabled plugin gets: the trailing enabled suffix
/// exchanged for the disabled one. One mode appends a generic `.off`
/// suffix when the expected enabled suffix is absent.
pub open spec fn spec_disabled_name(mode: PluginMode, n: Seq<char>) -> Seq<char> {
    match mode {
        PluginMode::CloudPE => spec_swap_suffix(n, suffix_ce(), suffix_cbk()),
        PluginMode::HotPE => if spec_ends_with(n, suffix_hpm()) {
            spec_swap_suffix(n, suffix_hpm(), suffix_hpm_off())
        } else {
            n + seq!['.', 'o', 'f', 'f']
        },
        PluginMode::Edgeless => spec_swap_suffix(n, suffix_7z(), suffix_7zf()),
        PluginMode::Select => n,
    }
}

/// Computes the name a file takes when enabled.
pub fn enabled_file_name(mode: PluginMode, file_name: &str) -> (r: String)
    ensures
        r@ == spec_enabled_name(mode, file_name@),
{
    let n: Vec<char> = to_char_vec(file_name);
    match mode {
        PluginMode::CloudPE => {
            let from: Vec<char> = to_char_vec(".CBK");
            let to: Vec<char> = to_char_vec(".ce");
            proof {
                reveal_strlit(".CBK");
                reveal_strlit(".ce");
                assert(from@ =~= suffix_cbk());
                assert(to@ =~= suffix_ce());
            }
            chars_to_string(&swap_suffix(&n, &from, &to))
        },
        PluginMode::HotPE => {
            let from: Vec<char> = to_char_vec(".hpm.off");
            let to: Vec<char> = to_char_vec(".HPM");
            proof {
                reveal_strlit(".hpm.off");
                reveal_strlit(".HPM");
                assert(from@ =~= suffix_hpm_off());
                assert(to@ =~= suffix_hpm());
            }
            chars_to_string(&swap_suffix(&n, &from, &to))
        },
        PluginMode::Edgeless => {
            let from: Vec<char> = to_char_vec(".7zf");
            let to: Vec<char> = to_char_vec(".7z");
            proof {
                reveal_strlit(".7zf");
                reveal_strlit(".7z");
                assert(from@ =~= suffix_7zf());
                assert(to@ =~= suffix_7z());
            }
            chars_to_string(&swap_suffix(&n, &from, &to))
        },
        PluginMode::Select => chars_to_string(&n),
    }
}

/// Computes the name a file takes when disabled.
pub fn disabled_file_name(mode: PluginMode, file_name: &str) -> (r: String)
    ensures
        r@ == spec_disabled_name(mode, file_name@),
{
    let n: Vec<char> = to_char_vec(file_name);
    match mode {
        PluginMode::CloudPE => {
            let from: Vec<char> = to_char_vec(".ce");
            let to: Vec<char> = to_char_vec(".CBK");
            proof {
                reveal_strlit(".ce");
                reveal_strlit(".CBK");
                assert(from@ =~= suffix_ce());
                assert(to@ =~= suffix_cbk());
            }
            chars_to_string(&swap_suffix(&n, &from, &to))
        },
        PluginMode::HotPE => {
            let hpm: Vec<char> = to_char_vec(".HPM");
            proof {
                reveal_strlit(".HPM");
                assert(hpm@ =~= suffix_hpm());
            }
            match strip_suffix(&n, &hpm) {
                Some(stem) => {
                    let off: Vec<char> = to_char_vec(".hpm.off");
                    proof {
                        reveal_strlit(".hpm.off");
                        assert(off@ =~= suffix_hpm_off());
                    }
                    let mut v: Vec<char> = stem;
                    append_chars(&mut v, &off);
                    assert(v@ =~= n@.take(n@.len() - suffix_hpm().len()) + suffix_hpm_off());
                    chars_to_string(&v)
                },
                None => {
                    let off: Vec<char> = to_char_vec(".off");
                    proof {
                        reveal_strlit(".off");
                        assert(off@ =~= seq!['.', 'o', 'f', 'f']);
                    }
                    let mut v: Vec<char> = n;
                    append_chars(&mut v, &off);
                    chars_to_string(&v)
                },
            }
        },
        PluginMode::Edgeless => {
            let from: Vec<char> = to_char_vec(".7z");
            let to: Vec<char> = to_char_vec(".7zf");
            proof {
                reveal_strlit(".7z");
                reveal_strlit(".7zf");
                assert(from@ =~= suffix_7z());
                assert(to@ =~= suffix_7zf());
            }
            chars_to_string(&swap_suffix(&n, &from, &to))
        },
        PluginMode::Select => chars_to_string(&n),
    }
}

pub open spec fn no_delim(s: Seq<char>) -> bool {
    forall|j: int| 0 <= j < s.len() ==> s[j] != '_'
}

/// Splitting three delimiter-free fields joined by underscores gives the
/// fields back.
proof fn lemma_split_three_fields(a: Seq<char>, b: Seq<char>, c: Seq<char>)
    requires
        no_delim(a),
        no_delim(b),
        no_delim(c),
    ensures
        spec_split(a + seq!['_'] + b + seq!['_'] + c, '_') == seq![a, b, c],
{
    let d = '_';
    let s = a + seq!['_'] + b + seq!['_'] + c;
    let la = a.len() as int;
    let lb = b.len() as int;
    let lc = c.len() as int;
    let e = Seq::<char>::empty();
    let ea = Seq::<Seq<char>>::empty();
    lemma_split_from_run(s, d, 0, la, e, ea);
    assert(e + s.subrange(0, la) =~= a);
    assert(s[la] == d);
    assert(split_from(s, d, la, a, ea) == split_from(s, d, la + 1, e, ea.push(a)));
    lemma_split_from_run(s, d, la + 1, lb, e, ea.push(a));
    assert(e + s.subrange(la + 1, la + 1 + lb) =~= b);
    assert(s[la + 1 + lb] == d);
    assert(split_from(s, d, la + 1 + lb, b, ea.push(a)) == split_from(
        s,
        d,
        la + 1 + lb + 1,
        e,
        ea.push(a).push(b),
    ));
    lemma_split_from_run(s, d, la + 1 + lb + 1, lc, e, ea.push(a).push(b));
    assert(e + s.subrange(la + 1 + lb + 1, la + 1 + lb + 1 + lc) =~= c);
    assert(la + 1 + lb + 1 + lc == s.len());
    assert(split_from(s, d, s.len() as int, c, ea.push(a).push(b)) == ea.push(a).push(b).push(c));
    assert(ea.push(a).push(b).push(c) =~= seq![a, b, c]);
}

/// Splitting four delimiter-free fields joined by underscores gives the
/// fields back.
proof fn lemma_split_four_fields(a: Seq<char>, b: Seq<char>, c: Seq<char>, x: Seq<char>)
    requires
        no_delim(a),
        no_delim(b),
        no_delim(c),
        no_delim(x),
    ensures
        spec_split(a + seq!['_'] + b + seq!['_'] + c + seq!['_'] + x, '_') == seq![a, b, c, x],
{
    let d = '_';
    let s = a + seq!['_'] + b + seq!['_'] + c + seq!['_'] + x;
    let la = a.len() as int;
    let lb = b.len() as int;
    let lc = c.len() as int;
    let lx = x.len() as int;
    let e = Seq::<char>::empty();
    let ea = Seq::<Seq<char>>::empty();
    lemma_split_from_run(s, d, 0, la, e, ea);
    assert(e + s.subrange(0, la) =~= a);
    assert(s[la] == d);
    assert(split_from(s, d, la, a, ea) == split_from(s, d, la + 1, e, ea.push(a)));
    lemma_split_from_run(s, d, la + 1, lb, e, ea.push(a));
    assert(e + s.subrange(la + 1, la + 1 + lb) =~= b);
    assert(s[la + 1 + lb] == d);
    assert(split_from(s, d, la + 1 + lb, b, ea.push(a)) == split_from(
        s,
        d,
        la + 1 + lb + 1,
        e,
        ea.push(a).push(b),
    ));
    lemma_split_from_run(s, d, la + 1 + lb + 1, lc, e, ea.push(a).push(b));
    assert(e + s.subrange(la + 1 + lb + 1, la + 1 + lb + 1 + lc) =~= c);
    assert(s[la + 1 + lb + 1 + lc] == d);
    assert(split_from(s, d, la + 1 + lb + 1 + lc, c, ea.push(a).push(b)) == split_from(
        s,
        d,
        la + 1 + lb + 1 + lc + 1,
        e,
        ea.push(a).push(b).push(c),
    ));
    lemma_split_from_run(s, d, la + 1 + lb + 1 + lc + 1, lx, e, ea.push(a).push(b).push(c));
    assert(e + s.subrange(la + 1 + lb + 1 + lc + 1, la + 1 + lb + 1 + lc + 1 + lx) =~= x);
    assert(la + 1 + lb + 1 + lc + 1 + lx == s.len());
    assert(split_from(s, d, s.len() as int, x, ea.push(a).push(b).push(c)) == ea.push(a).push(
        b,
    ).push(c).push(x));
    assert(ea.push(a).push(b).push(c).push(x) =~= seq![a, b, c, x]);
}

/// A description without path-unsafe characters is unchanged by
/// sanitization.
proof fn lemma_sanitize_identity(s: Seq<char>)
    requires
        forall|j: int| 0 <= j < s.len() ==> !is_unsafe_char(#[trigger] s[j]),
    ensures
        spec_sanitize(s) == s,
{
    assert(spec_sanitize(s) =~= s);
}

/// What decoding the canonical file name of `p` (with the enabled suffix
/// appended) must give back: name, version and author, and the description
/// where the grammar carries one — with one grammar substituting the name
/// for an empty description.
pub open spec fn spec_round_trip_ok(mode: PluginMode, p: Plugin) -> bool {
    let full = spec_generate_filename(mode, p) + seq!['.'] + mode.spec_enabled_extension();
    match spec_decode_filename(mode, full) {
        Some(dec) => {
            &&& dec.name == p.name@
            &&& dec.version == p.version@
            &&& dec.author == p.author@
            &&& dec.describe == if mode == PluginMode::Edgeless {
                Seq::<char>::empty()
            } else if mode == PluginMode::HotPE && p.describe@.len() == 0 {
                p.name@
            } else {
                p.describe@
            }
        },
        None => false,
    }
}

/// Round trip: decoding the canonical file name written for a plugin (with
/// the enabled suffix appended) gives back the plugin's name, version and
/// author, and its description where the grammar carries one. The one
/// exception is deliberate: with an empty description, one grammar writes
/// the plugin's name in the description field, so that name is what decodes.
/// Fields may not contain the underscore delimiter, and the description may
/// not contain a character that sanitization would rewrite.
pub proof fn lemma_codec_round_trip(mode: PluginMode, p: Plugin)
    requires
        mode != PluginMode::Select,
        no_delim(p.name@),
        no_delim(p.version@),
        no_delim(p.author@),
        no_delim(p.describe@),
        forall|j: int| 0 <= j < p.describe@.len() ==> !is_unsafe_char(#[trigger] p.describe@[j]),
    ensures
        spec_round_trip_ok(mode, p),
{
    lemma_sanitize_identity(p.describe@);
    let full = spec_generate_filename(mode, p) + seq!['.'] + mode.spec_enabled_extension();
    match mode {
        PluginMode::CloudPE => {
            reveal_strlit("ce");
            let x = p.describe@ + suffix_ce();
            assert(full =~= p.name@ + seq!['_'] + p.version@ + seq!['_'] + p.author@ + seq!['_']
                + x);
            assert(no_delim(x)) by {
                assert(forall|j: int|
                    0 <= j < suffix_ce().len() ==> #[trigger] suffix_ce()[j] != '_');
            }
            lemma_split_four_fields(p.name@, p.version@, p.author@, x);
            let parts = spec_split(full, '_');
            assert(parts == seq![p.name@, p.version@, p.author@, x]);
            assert(parts.skip(3) =~= seq![x]);
            assert(spec_join(parts.skip(3), '_') == x);
            assert(spec_ends_with(x, suffix_ce())) by {
                assert(x.subrange(x.len() - 3, x.len() as int) =~= suffix_ce());
            }
            assert(x.take(x.len() - 3) =~= p.describe@);
        },
        PluginMode::HotPE => {
            reveal_strlit("HPM");
            let y = if p.describe@.len() == 0 {
                p.name@
            } else {
                p.describe@
            };
            let base = p.name@ + seq!['_'] + p.author@ + seq!['_'] + p.version@ + seq!['_'] + y;
            assert(full =~= base + suffix_hpm());
            assert(spec_ends_with(full, suffix_hpm())) by {
                assert(full.subrange(full.len() - 4, full.len() as int) =~= suffix_hpm());
            }
            assert(full.take(full.len() - 4) =~= base);
            lemma_split_four_fields(p.name@, p.author@, p.version@, y);
            let parts = spec_split(base, '_');
            assert(parts == seq![p.name@, p.author@, p.version@, y]);
            assert(parts.skip(3) =~= seq![y]);
            assert(spec_join(parts.skip(3), '_') == y);
        },
        PluginMode::Edgeless => {
            reveal_strlit("7z");
            let base = p.name@ + seq!['_'] + p.version@ + seq!['_'] + p.author@;
            assert(full =~= base + suffix_7z());
            assert(spec_ends_with(full, suffix_7z())) by {
                assert(full.subrange(full.len() - 3, full.len() as int) =~= suffix_7z());
            }
            assert(full.take(full.len() - 3) =~= base);
            lemma_split_three_fields(p.name@, p.version@, p.author@);
            let parts = spec_split(base, '_');
            assert(parts == seq![p.name@, p.version@, p.author@]);
            assert(parts.skip(2) =~= seq![p.author@]);
            assert(spec_join(parts.skip(2), '_') == p.author@);
        },
        PluginMode::Select => {
        },
    }
}

} // verus!
