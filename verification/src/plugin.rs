//! The canonical plugin model shared by all three ecosystems, the two keys
//! derived from it, and order-preserving deduplication by the composite key.
//!
//! Identity key: (name, author) — correlates a remote catalog entry with a
//! locally installed file. Dedup key: (name, version, author, size) —
//! collapses duplicate entries within one list, first occurrence winning.

use vstd::prelude::*;
use vstd::string::*;

verus! {

/// One plugin, remote (from a catalog) or local (from a directory scan).
/// `file` is empty for pure-remote entries, `link` for pure-local ones.
pub struct Plugin {
    pub name: String,
    pub size: String,
    pub version: String,
    pub author: String,
    pub describe: String,
    pub file: String,
    pub link: String,
}

/// The mathematical value of a plugin: its fields as character sequences.
#[verifier::ext_equal]
pub struct PluginData {
    pub name: Seq<char>,
    pub size: Seq<char>,
    pub version: Seq<char>,
    pub author: Seq<char>,
    pub describe: Seq<char>,
    pub file: Seq<char>,
    pub link: Seq<char>,
}

impl View for Plugin {
    type V = PluginData;

    open spec fn view(&self) -> PluginData {
        PluginData {
            name: self.name@,
            size: self.size@,
            version: self.version@,
            author: self.author@,
            describe: self.describe@,
            file: self.file@,
            link: self.link@,
        }
    }
}

pub open spec fn plugin_views(s: Seq<Plugin>) -> Seq<PluginData> {
    s.map_values(|p: Plugin| p@)
}

impl Clone for Plugin {
    fn clone(&self) -> (r: Self)
        ensures
            r == *self,
    {
        Plugin {
            name: self.name.clone(),
            size: self.size.clone(),
            version: self.version.clone(),
            author: self.author.clone(),
            describe: self.describe.clone(),
            file: self.file.clone(),
            link: self.link.clone(),
        }
    }
}

/// The dedup key: name, version, author and size joined by underscores.
pub open spec fn spec_unique_key(p: PluginData) -> Seq<char> {
    p.name + seq!['_'] + p.version + seq!['_'] + p.author + seq!['_'] + p.size
}

/// The identity key: name and author joined by an underscore.
pub open spec fn spec_plugin_id(p: PluginData) -> Seq<char> {
    p.name + seq!['_'] + p.author
}

impl Plugin {
    /// The dedup key of this plugin.
    pub fn get_unique_key(&self) -> (r: String)
        ensures
            r@ == spec_unique_key(self@),
    {
        proof {
            reveal_strlit("_");
        }
        let mut r: String = String::from_str(self.name.as_str());
        r.append("_");
        r.append(self.version.as_str());
        r.append("_");
        r.append(self.author.as_str());
        r.append("_");
        r.append(self.size.as_str());
        assert(r@ =~= spec_unique_key(self@));
        r
    }

    /// The identity key of this plugin.
    pub fn get_plugin_id(&self) -> (r: String)
        ensures
            r@ == spec_plugin_id(self@),
    {
        proof {
            reveal_strlit("_");
        }
        let mut r: String = String::from_str(self.name.as_str());
        r.append("_");
        r.append(self.author.as_str());
        assert(r@ =~= spec_plugin_id(self@));
        r
    }
}

/// One category of a catalog: a label, an optional icon, and its plugins in
/// catalog order.
pub struct PluginCategory {
    pub class: String,
    pub icon: Option<String>,
    pub list: Vec<Plugin>,
}

/// The mathematical value of a category.
#[verifier::ext_equal]
pub struct CategoryData {
    pub class: Seq<char>,
    pub icon: Option<Seq<char>>,
    pub list: Seq<PluginData>,
}

impl View for PluginCategory {
    type V = CategoryData;

    open spec fn view(&self) -> CategoryData {
        CategoryData {
            class: self.class@,
            icon: match self.icon {
                Some(s) => Some(s@),
                None => None,
            },
            list: plugin_views(self.list@),
        }
    }
}

pub open spec fn category_views(s: Seq<PluginCategory>) -> Seq<CategoryData> {
    s.map_values(|c: PluginCategory| c@)
}

impl Clone for PluginCategory {
    fn clone(&self) -> (r: Self)
        ensures
            r@ == self@,
    {
        let icon: Option<String> = match &self.icon {
            Some(s) => Some(s.clone()),
            None => None,
        };
        let mut list: Vec<Plugin> = Vec::new();
        let mut i: usize = 0;
        while i < self.list.len()
            invariant
                i <= self.list@.len(),
                list@ == self.list@.subrange(0, i as int),
            decreases self.list@.len() - i,
        {
            list.push(self.list[i].clone());
            i = i + 1;
            assert(list@ =~= self.list@.subrange(0, i as int));
        }
        assert(list@ =~= self.list@);
        let r = PluginCategory { class: self.class.clone(), icon, list };
        assert(r@.list =~= self@.list);
        r
    }
}

/// How a remote catalog entry relates to the local installation.
#[derive(Debug, Clone, Copy, PartialEq, Eq, Structural)]
pub enum PluginStatus {
    NotInstalled,
    Installed,
    UpdateAvailable,
}

/// Whether some entry before position `i` shares the dedup key of `l[i]`.
pub open spec fn has_earlier_dup(l: Seq<PluginData>, i: int) -> bool {
    exists|j: int| 0 <= j < i && spec_unique_key(#[trigger] l[j]) == spec_unique_key(l[i])
}

/// The list with every entry whose dedup key already occurred removed;
/// first occurrences stay, in their original order.
pub open spec fn spec_dedup(l: Seq<PluginData>) -> Seq<PluginData>
    decreases l.len(),
{
    if l.len() == 0 {
        l
    } else {
        let pre = spec_dedup(l.drop_last());
        if has_earlier_dup(l, l.len() - 1) {
            pre
        } else {
            pre.push(l.last())
        }
    }
}

/// Whether some entry of `list` has the given dedup key.
fn contains_unique_key(list: &Vec<Plugin>, key: &String) -> (r: bool)
    ensures
        r == exists|m: int|
            0 <= m < list@.len() && spec_unique_key(#[trigger] plugin_views(list@)[m]) == key@,
{
    let mut m: usize = 0;
    while m < list.len()
        invariant
            m <= list@.len(),
            forall|j: int|
                0 <= j < m ==> spec_unique_key(#[trigger] plugin_views(list@)[j]) != key@,
        decreases list@.len() - m,
    {
        let k: String = list[m].get_unique_key();
        if k == *key {
            assert(spec_unique_key(plugin_views(list@)[m as int]) == key@);
            return true;
        }
        m = m + 1;
    }
    false
}

/// A dedup key occurs in the deduplicated list exactly when it occurs in the
/// original.
pub proof fn lemma_dedup_key_membership(l: Seq<PluginData>, k: Seq<char>)
    ensures
        (exists|m: int|
            0 <= m < spec_dedup(l).len() && spec_unique_key(#[trigger] spec_dedup(l)[m]) == k)
            <==> (exists|j: int| 0 <= j < l.len() && spec_unique_key(#[trigger] l[j]) == k),
    decreases l.len(),
{
    if l.len() > 0 {
        let pre = l.drop_last();
        lemma_dedup_key_membership(pre, k);
        assert(forall|j: int| 0 <= j < pre.len() ==> pre[j] == l[j]);
        let d = spec_dedup(l);
        let dp = spec_dedup(pre);
        if has_earlier_dup(l, l.len() - 1) {
            // The last entry's key already occurs earlier, so dropping it
            // loses no key.
            if exists|j: int| 0 <= j < l.len() && spec_unique_key(#[trigger] l[j]) == k {
                let j = choose|j: int| 0 <= j < l.len() && spec_unique_key(#[trigger] l[j]) == k;
                if j == l.len() - 1 {
                    let j2 = choose|j2: int|
                        0 <= j2 < l.len() - 1 && spec_unique_key(#[trigger] l[j2])
                            == spec_unique_key(l[l.len() - 1]);
                    assert(spec_unique_key(pre[j2]) == k);
                }
            }
        } else {
            assert(d == dp.push(l.last()));
            if exists|j: int| 0 <= j < l.len() && spec_unique_key(#[trigger] l[j]) == k {
                let j = choose|j: int| 0 <= j < l.len() && spec_unique_key(#[trigger] l[j]) == k;
                if j == l.len() - 1 {
                    assert(spec_unique_key(d[d.len() - 1]) == k);
                } else {
                    assert(spec_unique_key(pre[j]) == k);
                    let m = choose|m: int|
                        0 <= m < dp.len() && spec_unique_key(#[trigger] dp[m]) == k;
                    assert(spec_unique_key(d[m]) == k);
                }
            }
            if exists|m: int| 0 <= m < d.len() && spec_unique_key(#[trigger] d[m]) == k {
                let m = choose|m: int| 0 <= m < d.len() && spec_unique_key(#[trigger] d[m]) == k;
                if m == d.len() - 1 {
                    assert(spec_unique_key(l[l.len() - 1]) == k);
                } else {
                    assert(spec_unique_key(dp[m]) == k);
                }
            }
        }
    }
}

/// Deduplicates a plugin list by dedup key, keeping first occurrences in
/// order.
pub fn dedup_plugins(list: &Vec<Plugin>) -> (r: Vec<Plugin>)
    ensures
        plugin_views(r@) == spec_dedup(plugin_views(list@)),
{
    let ghost lv = plugin_views(list@);
    let mut r: Vec<Plugin> = Vec::new();
    let mut i: usize = 0;
    assert(plugin_views(r@) =~= spec_dedup(lv.subrange(0, 0)));
    while i < list.len()
        invariant
            i <= list@.len(),
            lv == plugin_views(list@),
            lv.len() == list@.len(),
            plugin_views(r@) == spec_dedup(lv.subrange(0, i as int)),
        decreases list@.len() - i,
    {
        let ghost pre_sub = lv.subrange(0, i as int);
        let ghost post_sub = lv.subrange(0, i + 1 as int);
        assert(post_sub.drop_last() =~= pre_sub);
        assert(post_sub.last() == lv[i as int]);
        assert(forall|j: int| 0 <= j < i ==> post_sub[j] == lv[j]);
        let key: String = list[i].get_unique_key();
        assert(key@ == spec_unique_key(lv[i as int]));
        let dup: bool = contains_unique_key(&r, &key);
        proof {
            lemma_dedup_key_membership(pre_sub, key@);
        }
        if dup {
            assert(has_earlier_dup(post_sub, i as int)) by {
                let j = choose|j: int|
                    0 <= j < pre_sub.len() && spec_unique_key(#[trigger] pre_sub[j]) == key@;
                assert(spec_unique_key(post_sub[j]) == spec_unique_key(post_sub[i as int]));
            }
        } else {
            assert(!has_earlier_dup(post_sub, i as int)) by {
                if has_earlier_dup(post_sub, i as int) {
                    let j = choose|j: int|
                        0 <= j < i && spec_unique_key(#[trigger] post_sub[j]) == spec_unique_key(
                            post_sub[i as int],
                        );
                    assert(spec_unique_key(pre_sub[j]) == key@);
                }
            }
            let ghost old_rv = plugin_views(r@);
            r.push(list[i].clone());
            assert(plugin_views(r@) =~= old_rv.push(lv[i as int]));
        }
        i = i + 1;
    }
    assert(lv.subrange(0, lv.len() as int) =~= lv);
    r
}

} // verus!
