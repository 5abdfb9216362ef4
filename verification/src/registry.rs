//! The in-memory registry: the current catalog, the enabled and disabled
//! local snapshots, and the queries a caller reads them through. Catalog and
//! snapshots are replaced wholesale — never merged — and the identity index
//! is derived from the enabled snapshot, the last entry with a given
//! identity winning, as repeated map insertion would leave it.

use vstd::prelude::*;
use vstd::string::*;
use core::cmp::Ordering;
use crate::mode::PluginMode;
use crate::plugin::{
    Plugin, PluginData, PluginCategory, CategoryData, PluginStatus, plugin_views, category_views,
    spec_dedup, spec_plugin_id, dedup_plugins,
};
use crate::scanner::{ScanFile, FileClass, spec_scan_list, classify_file};
use crate::codec::parse_plugin_file;
use crate::version::{spec_compare_versions, compare_versions};
use crate::strutil::{
    lower_of, lowercase, to_char_vec, contains_seq, spec_contains_seq,
};

verus! {

/// All plugins of a catalog in catalog order, category after category.
pub open spec fn spec_flatten(cats: Seq<CategoryData>) -> Seq<PluginData>
    decreases cats.len(),
{
    if cats.len() == 0 {
        Seq::empty()
    } else {
        spec_flatten(cats.drop_last()) + cats.last().list
    }
}

proof fn lemma_flatten_concat(a: Seq<CategoryData>, b: Seq<CategoryData>)
    ensures
        spec_flatten(a + b) == spec_flatten(a) + spec_flatten(b),
    decreases b.len(),
{
    if b.len() == 0 {
        assert(a + b =~= a);
        assert(spec_flatten(a) + spec_flatten(b) =~= spec_flatten(a));
    } else {
        assert((a + b).drop_last() =~= a + b.drop_last());
        lemma_flatten_concat(a, b.drop_last());
        assert((a + b).last() == b.last());
        assert(spec_flatten(a) + spec_flatten(b.drop_last()) + b.last().list =~= spec_flatten(a)
            + spec_flatten(b));
    }
}

/// One category taken off the front of a flattened catalog.
proof fn lemma_flatten_skip(cats: Seq<CategoryData>, i: int)
    requires
        0 <= i < cats.len(),
    ensures
        spec_flatten(cats.skip(i)) == cats[i].list + spec_flatten(cats.skip(i + 1)),
{
    assert(cats.skip(i) =~= seq![cats[i]] + cats.skip(i + 1));
    lemma_flatten_concat(seq![cats[i]], cats.skip(i + 1));
    let single = seq![cats[i]];
    assert(single.len() == 1);
    assert(single.drop_last() =~= Seq::<CategoryData>::empty());
    assert(spec_flatten(single) == spec_flatten(single.drop_last()) + single.last().list);
    assert(spec_flatten(Seq::<CategoryData>::empty()) == Seq::<PluginData>::empty());
    assert(single.last() == cats[i]);
    assert(spec_flatten(single) =~= cats[i].list);
}

/// The text a plugin is searched in: name, author, description and version
/// joined by spaces.
pub open spec fn spec_search_text(p: PluginData) -> Seq<char> {
    p.name + seq![' '] + p.author + seq![' '] + p.describe + seq![' '] + p.version
}

/// Case-insensitive substring match of the keyword against the search text.
pub open spec fn spec_matches_keyword(p: PluginData, kw: Seq<char>) -> bool {
    spec_contains_seq(lower_of(spec_search_text(p)), lower_of(kw))
}

/// The matching plugins, in order.
pub open spec fn spec_filter_matches(l: Seq<PluginData>, kw: Seq<char>) -> Seq<PluginData>
    decreases l.len(),
{
    if l.len() == 0 {
        Seq::empty()
    } else {
        spec_filter_matches(l.drop_last(), kw) + (if spec_matches_keyword(l.last(), kw) {
            seq![l.last()]
        } else {
            Seq::empty()
        })
    }
}

/// What a search returns: the matches over the whole catalog in order,
/// deduplicated by the composite key.
pub open spec fn spec_search(cats: Seq<CategoryData>, kw: Seq<char>) -> Seq<PluginData> {
    spec_dedup(spec_filter_matches(spec_flatten(cats), kw))
}

/// The last entry with the given identity, as an index built by repeated
/// insertion would hold it.
pub open spec fn spec_find_last_by_id(l: Seq<PluginData>, id: Seq<char>) -> Option<PluginData>
    decreases l.len(),
{
    if l.len() == 0 {
        None
    } else if spec_plugin_id(l.last()) == id {
        Some(l.last())
    } else {
        spec_find_last_by_id(l.drop_last(), id)
    }
}

/// The first entry with the given identity, in catalog order.
pub open spec fn spec_find_first_by_id(l: Seq<PluginData>, id: Seq<char>) -> Option<PluginData>
    decreases l.len(),
{
    if l.len() == 0 {
        None
    } else if spec_plugin_id(l[0]) == id {
        Some(l[0])
    } else {
        spec_find_first_by_id(l.drop_first(), id)
    }
}

/// The first category with the given label.
pub open spec fn spec_find_category(cats: Seq<CategoryData>, class: Seq<char>) -> Option<
    CategoryData,
>
    decreases cats.len(),
{
    if cats.len() == 0 {
        None
    } else if cats[0].class == class {
        Some(cats[0])
    } else {
        spec_find_category(cats.drop_first(), class)
    }
}

/// How a remote plugin relates to what is installed: absent locally, or
/// compared by version — only a strictly older local copy calls for an
/// update.
pub open spec fn spec_status_of(local: Option<PluginData>, remote: PluginData) -> PluginStatus {
    match local {
        None => PluginStatus::NotInstalled,
        Some(lp) => {
            if spec_compare_versions(lp.version, remote.version) == Ordering::Less {
                PluginStatus::UpdateAvailable
            } else {
                PluginStatus::Installed
            }
        },
    }
}

/// The registry. The catalog and both snapshots are replaced wholesale by
/// `fetch` and `scan` results; no method merges into them.
pub struct PluginManager {
    pub categories: Vec<PluginCategory>,
    enabled_plugins: Vec<Plugin>,
    disabled_plugins: Vec<Plugin>,
    mode: PluginMode,
}

impl PluginManager {
    pub closed spec fn spec_mode(self) -> PluginMode {
        self.mode
    }

    pub closed spec fn spec_enabled(self) -> Seq<PluginData> {
        plugin_views(self.enabled_plugins@)
    }

    pub closed spec fn spec_disabled(self) -> Seq<PluginData> {
        plugin_views(self.disabled_plugins@)
    }

    pub closed spec fn spec_catalog(self) -> Seq<CategoryData> {
        category_views(self.categories@)
    }

    /// An empty registry for one mode.
    pub fn new(mode: PluginMode) -> (r: Self)
        ensures
            r.spec_mode() == mode,
            r.spec_catalog().len() == 0,
            r.spec_enabled().len() == 0,
            r.spec_disabled().len() == 0,
    {
        let r = PluginManager {
            categories: Vec::new(),
            enabled_plugins: Vec::new(),
            disabled_plugins: Vec::new(),
            mode,
        };
        assert(r.spec_catalog() =~= Seq::<CategoryData>::empty());
        assert(r.spec_enabled() =~= Seq::<PluginData>::empty());
        assert(r.spec_disabled() =~= Seq::<PluginData>::empty());
        r
    }

    pub fn get_categories(&self) -> (r: &Vec<PluginCategory>)
        ensures
            category_views(r@) == self.spec_catalog(),
    {
        &self.categories
    }

    /// Replaces the whole catalog, as each fetch does.
    pub fn set_categories(&mut self, categories: Vec<PluginCategory>)
        ensures
            final(self).spec_catalog() == category_views(categories@),
            final(self).spec_mode() == old(self).spec_mode(),
            final(self).spec_enabled() == old(self).spec_enabled(),
            final(self).spec_disabled() == old(self).spec_disabled(),
    {
        self.categories = categories;
    }

    /// Replaces both local snapshots with what the given directory listing
    /// scans to: per class, the decodable files in listing order,
    /// deduplicated. The catalog is untouched.
    pub fn load_local_plugins(&mut self, files: &Vec<ScanFile>)
        ensures
            final(self).spec_mode() == old(self).spec_mode(),
            final(self).spec_catalog() == old(self).spec_catalog(),
            final(self).spec_enabled() == spec_dedup(
                spec_scan_list(old(self).spec_mode(), files@, FileClass::Enabled),
            ),
            final(self).spec_disabled() == spec_dedup(
                spec_scan_list(old(self).spec_mode(), files@, FileClass::Disabled),
            ),
    {
        let mode: PluginMode = self.mode;
        let mut en: Vec<Plugin> = Vec::new();
        let mut dis: Vec<Plugin> = Vec::new();
        let mut i: usize = 0;
        assert(plugin_views(en@) =~= spec_scan_list(mode, files@.subrange(0, 0), FileClass::Enabled));
        assert(plugin_views(dis@) =~= spec_scan_list(
            mode,
            files@.subrange(0, 0),
            FileClass::Disabled,
        ));
        while i < files.len()
            invariant
                i <= files@.len(),
                plugin_views(en@) == spec_scan_list(
                    mode,
                    files@.subrange(0, i as int),
                    FileClass::Enabled,
                ),
                plugin_views(dis@) == spec_scan_list(
                    mode,
                    files@.subrange(0, i as int),
                    FileClass::Disabled,
                ),
            decreases files@.len() - i,
        {
            let ghost pre_sub = files@.subrange(0, i as int);
            let ghost post_sub = files@.subrange(0, i + 1 as int);
            assert(post_sub.drop_last() =~= pre_sub);
            assert(post_sub.last() == files@[i as int]);
            let f: &ScanFile = &files[i];
            let cls: FileClass = classify_file(mode, f.name.as_str());
            if cls == FileClass::Enabled || cls == FileClass::Disabled {
                match parse_plugin_file(mode, f.name.as_str(), f.size) {
                    Some(p) => {
                        if cls == FileClass::Enabled {
                            let ghost old_env = plugin_views(en@);
                            en.push(p);
                            assert(plugin_views(en@) =~= old_env.push(en@.last()@));
                        } else {
                            let ghost old_disv = plugin_views(dis@);
                            dis.push(p);
                            assert(plugin_views(dis@) =~= old_disv.push(dis@.last()@));
                        }
                    },
                    None => {},
                }
            }
            i = i + 1;
        }
        assert(files@.subrange(0, files@.len() as int) =~= files@);
        self.enabled_plugins = dedup_plugins(&en);
        self.disabled_plugins = dedup_plugins(&dis);
    }

    pub fn get_enabled_plugins(&self) -> (r: &Vec<Plugin>)
        ensures
            plugin_views(r@) == self.spec_enabled(),
    {
        &self.enabled_plugins
    }

    pub fn get_disabled_plugins(&self) -> (r: &Vec<Plugin>)
        ensures
            plugin_views(r@) == self.spec_disabled(),
    {
        &self.disabled_plugins
    }

    /// The enabled plugin the identity index holds for this identity: the
    /// last enabled entry carrying it.
    pub fn get_enabled_plugin_by_id(&self, plugin_id: &str) -> (r: Option<&Plugin>)
        ensures
            match r {
                Some(p) => spec_find_last_by_id(self.spec_enabled(), plugin_id@) == Some(p@),
                None => spec_find_last_by_id(self.spec_enabled(), plugin_id@) is None,
            },
    {
        let ghost ev = self.spec_enabled();
        let id: String = String::from_str(plugin_id);
        let mut i: usize = self.enabled_plugins.len();
        assert(ev.take(i as int) =~= ev);
        while i > 0
            invariant
                i <= self.enabled_plugins@.len(),
                ev == self.spec_enabled(),
                ev.len() == self.enabled_plugins@.len(),
                id@ == plugin_id@,
                spec_find_last_by_id(ev, plugin_id@) == spec_find_last_by_id(
                    ev.take(i as int),
                    plugin_id@,
                ),
            decreases i,
        {
            i = i - 1;
            let ghost cur = ev.take(i + 1 as int);
            assert(cur.drop_last() =~= ev.take(i as int));
            assert(cur.last() == ev[i as int]);
            let p: &Plugin = &self.enabled_plugins[i];
            let pid: String = p.get_plugin_id();
            if pid == id {
                return Some(p);
            }
        }
        assert(ev.take(0) =~= Seq::<PluginData>::empty());
        None
    }

    /// Version-string comparison under the tokenizing order.
    pub fn compare_versions(&self, version1: &str, version2: &str) -> (r: Ordering)
        ensures
            r == spec_compare_versions(version1@, version2@),
    {
        compare_versions(version1, version2)
    }

    /// The status of a remote plugin against the enabled snapshot: not
    /// installed, installed, or update available exactly when the local
    /// version orders strictly below the remote one.
    pub fn check_plugin_status(&self, plugin: &Plugin) -> (r: PluginStatus)
        ensures
            r == spec_status_of(
                spec_find_last_by_id(self.spec_enabled(), spec_plugin_id(plugin@)),
                plugin@,
            ),
    {
        let id: String = plugin.get_plugin_id();
        match self.get_enabled_plugin_by_id(id.as_str()) {
            Some(local) => {
                let c: Ordering = compare_versions(local.version.as_str(), plugin.version.as_str());
                match c {
                    Ordering::Less => PluginStatus::UpdateAvailable,
                    _ => PluginStatus::Installed,
                }
            },
            None => PluginStatus::NotInstalled,
        }
    }

    /// The first catalog entry with this identity, if any.
    pub fn find_market_plugin_by_id(&self, plugin_id: &str) -> (r: Option<Plugin>)
        ensures
            match r {
                Some(p) => spec_find_first_by_id(spec_flatten(self.spec_catalog()), plugin_id@)
                    == Some(p@),
                None => spec_find_first_by_id(spec_flatten(self.spec_catalog()), plugin_id@)
                    is None,
            },
    {
        let ghost cats = self.spec_catalog();
        let ghost flat = spec_flatten(cats);
        let id: String = String::from_str(plugin_id);
        let mut i: usize = 0;
        assert(cats.skip(0) =~= cats);
        while i < self.categories.len()
            invariant
                i <= self.categories@.len(),
                cats == self.spec_catalog(),
                flat == spec_flatten(cats),
                cats.len() == self.categories@.len(),
                id@ == plugin_id@,
                spec_find_first_by_id(flat, plugin_id@) == spec_find_first_by_id(
                    spec_flatten(cats.skip(i as int)),
                    plugin_id@,
                ),
            decreases self.categories@.len() - i,
        {
            proof {
                lemma_flatten_skip(cats, i as int);
            }
            let ghost list = cats[i as int].list;
            let ghost rest = spec_flatten(cats.skip(i + 1));
            let cat: &PluginCategory = &self.categories[i];
            assert(cat@ == cats[i as int]);
            let mut k: usize = 0;
            assert(list.skip(0) + rest =~= list + rest);
            while k < cat.list.len()
                invariant
                    k <= cat.list@.len(),
                    cat@ == cats[i as int],
                    list == cats[i as int].list,
                    list.len() == cat.list@.len(),
                    rest == spec_flatten(cats.skip(i + 1)),
                    flat == spec_flatten(cats),
                    cats == self.spec_catalog(),
                    id@ == plugin_id@,
                    spec_find_first_by_id(flat, plugin_id@) == spec_find_first_by_id(
                        list.skip(k as int) + rest,
                        plugin_id@,
                    ),
                decreases cat.list@.len() - k,
            {
                let ghost seg = list.skip(k as int) + rest;
                assert(seg[0] == list[k as int]);
                let p: &Plugin = &cat.list[k];
                assert(p@ == list[k as int]);
                let pid: String = p.get_plugin_id();
                if pid == id {
                    assert(spec_find_first_by_id(seg, plugin_id@) == Some(list[k as int]));
                    return Some(p.clone());
                }
                assert(seg.drop_first() =~= list.skip(k + 1) + rest);
                k = k + 1;
            }
            assert(list.skip(list.len() as int) + rest =~= rest);
            i = i + 1;
        }
        assert(spec_flatten(cats.skip(cats.len() as int)) =~= Seq::<PluginData>::empty());
        None
    }

    /// Whether the catalog offers a strictly newer version of an installed
    /// plugin.
    pub fn check_update_available(&self, local_plugin: &Plugin) -> (r: bool)
        ensures
            r == match spec_find_first_by_id(
                spec_flatten(self.spec_catalog()),
                spec_plugin_id(local_plugin@),
            ) {
                Some(mp) => spec_compare_versions(local_plugin@.version, mp.version)
                    == Ordering::Less,
                None => false,
            },
    {
        let id: String = local_plugin.get_plugin_id();
        match self.find_market_plugin_by_id(id.as_str()) {
            Some(market) => {
                let c: Ordering = compare_versions(
                    local_plugin.version.as_str(),
                    market.version.as_str(),
                );
                match c {
                    Ordering::Less => true,
                    _ => false,
                }
            },
            None => false,
        }
    }

    /// The plugins of the first category with the given label, or none.
    pub fn get_category_plugins(&self, category: &str) -> (r: Vec<Plugin>)
        ensures
            plugin_views(r@) == match spec_find_category(self.spec_catalog(), category@) {
                Some(c) => c.list,
                None => Seq::<PluginData>::empty(),
            },
    {
        let ghost cats = self.spec_catalog();
        let class: String = String::from_str(category);
        let mut i: usize = 0;
        assert(cats.skip(0) =~= cats);
        while i < self.categories.len()
            invariant
                i <= self.categories@.len(),
                cats == self.spec_catalog(),
                cats.len() == self.categories@.len(),
                class@ == category@,
                spec_find_category(cats, category@) == spec_find_category(
                    cats.skip(i as int),
                    category@,
                ),
            decreases self.categories@.len() - i,
        {
            let ghost seg = cats.skip(i as int);
            assert(seg[0] == cats[i as int]);
            let cat: &PluginCategory = &self.categories[i];
            assert(cat@ == cats[i as int]);
            if cat.class == class {
                assert(spec_find_category(seg, category@) == Some(cats[i as int]));
                let copy: PluginCategory = cat.clone();
                return copy.list;
            }
            assert(seg.drop_first() =~= cats.skip(i + 1));
            i = i + 1;
        }
        assert(cats.skip(cats.len() as int) =~= Seq::<CategoryData>::empty());
        let r: Vec<Plugin> = Vec::new();
        assert(plugin_views(r@) =~= Seq::<PluginData>::empty());
        r
    }

    /// The catalog entries matching a keyword, case-insensitively, in
    /// catalog order, deduplicated by the composite key.
    pub fn search_plugins(&self, keyword: &str) -> (r: Vec<Plugin>)
        ensures
            plugin_views(r@) == spec_search(self.spec_catalog(), keyword@),
    {
        let ghost cats = self.spec_catalog();
        let kw: String = lowercase(keyword);
        let kwv: Vec<char> = to_char_vec(kw.as_str());
        let mut matched: Vec<Plugin> = Vec::new();
        let mut i: usize = 0;
        assert(plugin_views(matched@) =~= spec_filter_matches(
            spec_flatten(cats.subrange(0, 0)),
            keyword@,
        ));
        while i < self.categories.len()
            invariant
                i <= self.categories@.len(),
                cats == self.spec_catalog(),
                cats.len() == self.categories@.len(),
                kwv@ == lower_of(keyword@),
                plugin_views(matched@) == spec_filter_matches(
                    spec_flatten(cats.subrange(0, i as int)),
                    keyword@,
                ),
            decreases self.categories@.len() - i,
        {
            let ghost flat_pre = spec_flatten(cats.subrange(0, i as int));
            let ghost list = cats[i as int].list;
            let cat: &PluginCategory = &self.categories[i];
            assert(cat@ == cats[i as int]);
            let mut k: usize = 0;
            assert(flat_pre + list.subrange(0, 0) =~= flat_pre);
            assert(spec_filter_matches(flat_pre + list.subrange(0, 0), keyword@)
                == spec_filter_matches(flat_pre, keyword@));
            while k < cat.list.len()
                invariant
                    k <= cat.list@.len(),
                    cat@ == cats[i as int],
                    list == cats[i as int].list,
                    list.len() == cat.list@.len(),
                    kwv@ == lower_of(keyword@),
                    flat_pre == spec_flatten(cats.subrange(0, i as int)),
                    plugin_views(matched@) == spec_filter_matches(
                        flat_pre + list.subrange(0, k as int),
                        keyword@,
                    ),
                decreases cat.list@.len() - k,
            {
                let ghost seg_pre = flat_pre + list.subrange(0, k as int);
                let ghost seg_post = flat_pre + list.subrange(0, k + 1 as int);
                assert(seg_post.drop_last() =~= seg_pre);
                assert(seg_post.last() == list[k as int]);
                let p: &Plugin = &cat.list[k];
                assert(p@ == list[k as int]);
                let text: String = search_text(p);
                let lowered: String = lowercase(text.as_str());
                let hay: Vec<char> = to_char_vec(lowered.as_str());
                let hit: bool = contains_seq(&hay, &kwv);
                assert(hit == spec_matches_keyword(list[k as int], keyword@));
                if hit {
                    let ghost old_mv = plugin_views(matched@);
                    matched.push(p.clone());
                    assert(plugin_views(matched@) =~= old_mv.push(list[k as int]));
                }
                k = k + 1;
            }
            assert(flat_pre + list.subrange(0, list.len() as int) =~= flat_pre + list);
            assert(cats.subrange(0, i + 1 as int).drop_last() =~= cats.subrange(0, i as int));
            assert(cats.subrange(0, i + 1 as int).last() == cats[i as int]);
            assert(spec_flatten(cats.subrange(0, i + 1 as int)) == flat_pre + list);
            i = i + 1;
        }
        assert(cats.subrange(0, cats.len() as int) =~= cats);
        dedup_plugins(&matched)
    }
}

/// The text a plugin is searched in.
fn search_text(p: &Plugin) -> (r: String)
    ensures
        r@ == spec_search_text(p@),
{
    proof {
        reveal_strlit(" ");
    }
    let mut r: String = String::from_str(p.name.as_str());
    r.append(" ");
    r.append(p.author.as_str());
    r.append(" ");
    r.append(p.describe.as_str());
    r.append(" ");
    r.append(p.version.as_str());
    assert(r@ =~= spec_search_text(p@));
    r
}

} // verus!
