//! Local plugin discovery. A directory listing (plain files with their
//! sizes) is classified per mode — by plain extension, or for the compound
//! suffix mode by a suffix test that excludes the plain-extension class —
//! decoded through the filename codec, and deduplicated. Directory order is
//! whatever the platform hands back; the set of dedup keys that a scan
//! yields does not depend on it.

use vstd::prelude::*;
use vstd::string::*;
use crate::mode::PluginMode;
use crate::plugin::{PluginData, spec_unique_key, spec_dedup, lemma_dedup_key_membership};
use crate::codec::{spec_local_plugin, suffix_hpm_off};
use crate::strutil::{lower_of, lowercase, chars_to_string, to_char_vec, ends_with, spec_ends_with};

verus! {

/// One plain file seen in the plugin directory: its name and its length in
/// bytes.
pub struct ScanFile {
    pub name: String,
    pub size: u64,
}

impl Clone for ScanFile {
    fn clone(&self) -> (r: Self)
        ensures
            r == *self,
    {
        ScanFile { name: self.name.clone(), size: self.size }
    }
}

/// The extension of a file name: what follows the last dot, provided that
/// dot is not the leading character. A name without such a dot has none; a
/// trailing dot gives an empty extension.
pub open spec fn spec_ext_of(n: Seq<char>) -> Option<Seq<char>>
    decreases n.len(),
{
    if n.len() <= 1 {
        None
    } else if n.last() == '.' {
        Some(Seq::empty())
    } else {
        match spec_ext_of(n.drop_last()) {
            Some(e) => Some(e.push(n.last())),
            None => None,
        }
    }
}

/// When the last dot of `n` sits at position `j >= 1`, the extension is
/// everything after it.
proof fn lemma_ext_of_last_dot(n: Seq<char>, j: int)
    requires
        1 <= j < n.len(),
        n[j] == '.',
        forall|k: int| j < k < n.len() ==> n[k] != '.',
    ensures
        spec_ext_of(n) == Some(n.subrange(j + 1, n.len() as int)),
    decreases n.len(),
{
    if j == n.len() - 1 {
        assert(n.subrange(j + 1, n.len() as int) =~= Seq::<char>::empty());
    } else {
        assert(n.last() != '.');
        let pre = n.drop_last();
        assert(forall|k: int| j < k < pre.len() ==> pre[k] != '.');
        lemma_ext_of_last_dot(pre, j);
        assert(pre.subrange(j + 1, pre.len() as int).push(n.last()) =~= n.subrange(
            j + 1,
            n.len() as int,
        ));
    }
}

/// A name whose only dot, if any, is the leading character has no
/// extension.
proof fn lemma_ext_of_none(n: Seq<char>)
    requires
        forall|k: int| 1 <= k < n.len() ==> n[k] != '.',
    ensures
        spec_ext_of(n) is None,
    decreases n.len(),
{
    if n.len() > 1 {
        let pre = n.drop_last();
        assert(forall|k: int| 1 <= k < pre.len() ==> pre[k] != '.');
        lemma_ext_of_none(pre);
    }
}

/// The extension of a file name, as `Path::extension` reads it.
pub fn ext_of(n: &Vec<char>) -> (r: Option<Vec<char>>)
    ensures
        match r {
            Some(e) => spec_ext_of(n@) == Some(e@),
            None => spec_ext_of(n@) is None,
        },
{
    let mut i: usize = n.len();
    while i > 0
        invariant
            i <= n@.len(),
            forall|k: int| i <= k < n@.len() ==> n@[k] != '.',
        decreases i,
    {
        i = i - 1;
        if n[i] == '.' {
            if i == 0 {
                proof {
                    lemma_ext_of_none(n@);
                }
                return None;
            }
            let mut e: Vec<char> = Vec::new();
            let mut k: usize = i + 1;
            while k < n.len()
                invariant
                    i + 1 <= k <= n@.len(),
                    e@ == n@.subrange(i + 1, k as int),
                decreases n@.len() - k,
            {
                e.push(n[k]);
                k = k + 1;
                assert(e@ =~= n@.subrange(i + 1, k as int));
            }
            proof {
                lemma_ext_of_last_dot(n@, i as int);
            }
            return Some(e);
        }
    }
    proof {
        lemma_ext_of_none(n@);
    }
    None
}

/// The state a file's name assigns it: an enabled plugin, a disabled one,
/// or not a plugin file at all.
#[derive(Debug, Clone, Copy, PartialEq, Eq, Structural)]
pub enum FileClass {
    Enabled,
    Disabled,
    Ignored,
}

/// Classification per mode: the compound-suffix mode tests the full name's
/// suffix (a disabled file keeps its plain extension under the appended
/// marker), every other mode compares the lowercased extension against the
/// mode's lowercased extensions, enabled first.
pub open spec fn spec_classify_file(mode: PluginMode, n: Seq<char>) -> FileClass {
    match spec_ext_of(n) {
        None => FileClass::Ignored,
        Some(ext) => {
            let le = lower_of(ext);
            match mode {
                PluginMode::HotPE => {
                    if le == "hpm"@ && !spec_ends_with(n, suffix_hpm_off()) {
                        FileClass::Enabled
                    } else if spec_ends_with(n, suffix_hpm_off()) {
                        FileClass::Disabled
                    } else {
                        FileClass::Ignored
                    }
                },
                _ => {
                    if le == lower_of(mode.spec_enabled_extension()) {
                        FileClass::Enabled
                    } else if le == lower_of(mode.spec_disabled_extension()) {
                        FileClass::Disabled
                    } else {
                        FileClass::Ignored
                    }
                },
            }
        },
    }
}

/// Classifies one file name.
pub fn classify_file(mode: PluginMode, file_name: &str) -> (r: FileClass)
    ensures
        r == spec_classify_file(mode, file_name@),
{
    let n: Vec<char> = to_char_vec(file_name);
    let ext: Vec<char> = match ext_of(&n) {
        Some(e) => e,
        None => {
            return FileClass::Ignored;
        },
    };
    let ext_s: String = chars_to_string(&ext);
    let le: String = lowercase(ext_s.as_str());
    match mode {
        PluginMode::HotPE => {
            let off: Vec<char> = to_char_vec(".hpm.off");
            proof {
                reveal_strlit(".hpm.off");
                assert(off@ =~= suffix_hpm_off());
            }
            let is_off: bool = ends_with(&n, &off);
            let hpm: String = String::from_str("hpm");
            if le == hpm && !is_off {
                FileClass::Enabled
            } else if is_off {
                FileClass::Disabled
            } else {
                FileClass::Ignored
            }
        },
        _ => {
            let en: String = lowercase(mode.get_enabled_extension());
            let dis: String = lowercase(mode.get_disabled_extension());
            if le == en {
                FileClass::Enabled
            } else if le == dis {
                FileClass::Disabled
            } else {
                FileClass::Ignored
            }
        },
    }
}

/// The plugins that the files of one class decode to, in listing order,
/// before deduplication. Files of other classes and undecodable names
/// contribute nothing.
pub open spec fn spec_scan_list(mode: PluginMode, files: Seq<ScanFile>, cls: FileClass) -> Seq<
    PluginData,
>
    decreases files.len(),
{
    if files.len() == 0 {
        Seq::empty()
    } else {
        let pre = spec_scan_list(mode, files.drop_last(), cls);
        let f = files.last();
        if spec_classify_file(mode, f.name@) == cls {
            match spec_local_plugin(mode, f.name@, f.size as int) {
                Some(p) => pre.push(p),
                None => pre,
            }
        } else {
            pre
        }
    }
}

/// Whether one file contributes a plugin with dedup key `k` to the given
/// class.
pub open spec fn spec_file_yields_key(
    mode: PluginMode,
    f: ScanFile,
    cls: FileClass,
    k: Seq<char>,
) -> bool {
    &&& spec_classify_file(mode, f.name@) == cls
    &&& match spec_local_plugin(mode, f.name@, f.size as int) {
        Some(p) => spec_unique_key(p) == k,
        None => false,
    }
}

proof fn lemma_scan_list_key_membership(
    mode: PluginMode,
    files: Seq<ScanFile>,
    cls: FileClass,
    k: Seq<char>,
)
    ensures
        (exists|m: int|
            0 <= m < spec_scan_list(mode, files, cls).len() && spec_unique_key(
                #[trigger] spec_scan_list(mode, files, cls)[m],
            ) == k) <==> (exists|j: int|
            0 <= j < files.len() && spec_file_yields_key(mode, #[trigger] files[j], cls, k)),
    decreases files.len(),
{
    if files.len() > 0 {
        let pre = files.drop_last();
        lemma_scan_list_key_membership(mode, pre, cls, k);
        assert(forall|j: int| 0 <= j < pre.len() ==> pre[j] == files[j]);
        let sl = spec_scan_list(mode, files, cls);
        let slp = spec_scan_list(mode, pre, cls);
        if exists|j: int|
            0 <= j < files.len() && spec_file_yields_key(mode, #[trigger] files[j], cls, k) {
            let j = choose|j: int|
                0 <= j < files.len() && spec_file_yields_key(mode, #[trigger] files[j], cls, k);
            if j == files.len() - 1 {
                assert(spec_unique_key(sl[sl.len() - 1]) == k);
            } else {
                let m = choose|m: int|
                    0 <= m < slp.len() && spec_unique_key(#[trigger] slp[m]) == k;
                assert(spec_unique_key(sl[m]) == k);
            }
        }
        if exists|m: int|
            0 <= m < sl.len() && spec_unique_key(#[trigger] sl[m]) == k {
            let m = choose|m: int| 0 <= m < sl.len() && spec_unique_key(#[trigger] sl[m]) == k;
            if m < slp.len() {
                assert(spec_unique_key(slp[m]) == k);
            } else {
                assert(spec_file_yields_key(mode, files[files.len() - 1], cls, k));
            }
        }
    }
}

/// The set of dedup keys in a plugin list.
pub open spec fn spec_key_set(l: Seq<PluginData>) -> Set<Seq<char>> {
    Set::new(|k: Seq<char>| exists|j: int| 0 <= j < l.len() && spec_unique_key(l[j]) == k)
}

/// Two listings of the same files — in any order, as a directory may hand
/// them back differently on each read — yield the same set of dedup keys
/// for each class, after deduplication. Which duplicate of a shared key
/// survives may differ, so equality holds of the key sets.
pub proof fn lemma_scan_keys_order_independent(
    mode: PluginMode,
    files1: Seq<ScanFile>,
    files2: Seq<ScanFile>,
    cls: FileClass,
)
    requires
        files1.to_multiset() == files2.to_multiset(),
    ensures
        spec_key_set(spec_dedup(spec_scan_list(mode, files1, cls))) == spec_key_set(
            spec_dedup(spec_scan_list(mode, files2, cls)),
        ),
{
    let s1 = spec_key_set(spec_dedup(spec_scan_list(mode, files1, cls)));
    let s2 = spec_key_set(spec_dedup(spec_scan_list(mode, files2, cls)));
    assert forall|k: Seq<char>| s1.contains(k) implies s2.contains(k) by {
        lemma_key_set_transfer(mode, files1, files2, cls, k);
    }
    assert forall|k: Seq<char>| s2.contains(k) implies s1.contains(k) by {
        lemma_key_set_transfer(mode, files2, files1, cls, k);
    }
    assert(s1 =~= s2);
}

proof fn lemma_key_set_transfer(
    mode: PluginMode,
    files1: Seq<ScanFile>,
    files2: Seq<ScanFile>,
    cls: FileClass,
    k: Seq<char>,
)
    requires
        files1.to_multiset() == files2.to_multiset(),
        spec_key_set(spec_dedup(spec_scan_list(mode, files1, cls))).contains(k),
    ensures
        spec_key_set(spec_dedup(spec_scan_list(mode, files2, cls))).contains(k),
{
    lemma_dedup_key_membership(spec_scan_list(mode, files1, cls), k);
    lemma_scan_list_key_membership(mode, files1, cls, k);
    let j = choose|j: int|
        0 <= j < files1.len() && spec_file_yields_key(mode, #[trigger] files1[j], cls, k);
    let f = files1[j];
    assert(files1.contains(f));
    files1.to_multiset_ensures();
    files2.to_multiset_ensures();
    assert(files1.to_multiset().count(f) > 0);
    assert(files2.contains(f));
    let j2 = choose|j2: int| 0 <= j2 < files2.len() && files2[j2] == f;
    assert(spec_file_yields_key(mode, files2[j2], cls, k));
    lemma_scan_list_key_membership(mode, files2, cls, k);
    lemma_dedup_key_membership(spec_scan_list(mode, files2, cls), k);
}

} // verus!
