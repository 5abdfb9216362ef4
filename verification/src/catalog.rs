//! Remote catalog normalization. Two response schemas exist: schema A
//! carries ready plugin records behind a numeric status code; schema B
//! carries raw file entries (full filename, size as number or string,
//! modification time) behind a textual state, and each entry's filename is
//! split into fields here. After either parse, every category is
//! deduplicated by the composite key, first occurrence winning, order kept.

use vstd::prelude::*;
use vstd::string::*;
use crate::mode::PluginMode;
use crate::plugin::{
    Plugin, PluginData, PluginCategory, CategoryData, plugin_views, category_views, spec_dedup,
    dedup_plugins,
};
use crate::error::PluginError;
use crate::strutil::{
    to_char_vec, chars_to_string, i64_to_chars, spec_dec_int, spec_split, spec_join,
    spec_trim_end_matches, trim_end_matches_chars, split_chars, join_from, views_of,
};
use crate::sizefmt::{format_file_size, spec_format_file_size};
use crate::codec::suffix_hpm;

verus! {

/// Which wire schema a mode's catalog endpoint speaks.
#[derive(Debug, Clone, Copy, PartialEq, Eq, Structural)]
pub enum CatalogSchema {
    SchemaA,
    SchemaB,
    Unsupported,
}

/// The schema used by each mode's catalog endpoint.
pub fn catalog_schema(mode: PluginMode) -> (r: CatalogSchema)
    ensures
        r == match mode {
            PluginMode::CloudPE => CatalogSchema::SchemaA,
            PluginMode::Edgeless => CatalogSchema::SchemaA,
            PluginMode::HotPE => CatalogSchema::SchemaB,
            PluginMode::Select => CatalogSchema::Unsupported,
        },
{
    match mode {
        PluginMode::CloudPE => CatalogSchema::SchemaA,
        PluginMode::Edgeless => CatalogSchema::SchemaA,
        PluginMode::HotPE => CatalogSchema::SchemaB,
        PluginMode::Select => CatalogSchema::Unsupported,
    }
}

/// A schema-A response: ready plugin records behind a numeric code.
pub struct CloudPEResponse {
    pub code: i32,
    pub message: String,
    pub data: Vec<PluginCategory>,
}

/// A schema-B size: a byte count, a ready display string, or neither.
pub enum RawSize {
    Bytes(u64),
    Text(String),
    Unknown,
}

/// One raw schema-B entry. `name` is the full on-disk filename; `modified`
/// has already been rendered to text (see `format_timestamp`).
pub struct HotPEPlugin {
    pub name: String,
    pub size: RawSize,
    pub modified: String,
    pub link: String,
}

/// One raw schema-B category.
pub struct HotPECategory {
    pub class: String,
    pub icon: Option<String>,
    pub list: Vec<HotPEPlugin>,
}

/// A schema-B response: raw categories behind a textual state.
pub struct HotPEResponse {
    pub state: String,
    pub data: Vec<HotPECategory>,
}

/// What `DateTime::from_timestamp(ts, 0)` formatted as
/// `"%Y-%m-%d %H:%M:%S"` yields for a given number of epoch seconds, or
/// `None` when that number is out of chrono's range.
pub uninterp spec fn utc_datetime_text(ts: int) -> Option<Seq<char>>;

/// Relies on chrono's `DateTime::<Utc>::from_timestamp` and `format` with
/// the fixed pattern `"%Y-%m-%d %H:%M:%S"`: the outcome depends on the
/// seconds value alone, and an out-of-range value gives `None`.
#[verifier::external_body]
fn utc_datetime_string(ts: i64) -> (r: Option<String>)
    ensures
        match r {
            Some(s) => utc_datetime_text(ts as int) == Some(s@),
            None => utc_datetime_text(ts as int) is None,
        },
{
    match chrono::DateTime::from_timestamp(ts, 0) {
        Some(dt) => Some(dt.format("%Y-%m-%d %H:%M:%S").to_string()),
        None => None,
    }
}

/// Epoch seconds rendered as `"YYYY-MM-DD HH:MM:SS"` UTC, falling back to
/// the plain decimal form when out of range.
pub open spec fn spec_format_timestamp(ts: int) -> Seq<char> {
    match utc_datetime_text(ts) {
        Some(s) => s,
        None => spec_dec_int(ts),
    }
}

/// Renders epoch seconds for display.
pub fn format_timestamp(timestamp: i64) -> (r: String)
    ensures
        r@ == spec_format_timestamp(timestamp as int),
{
    match utc_datetime_string(timestamp) {
        Some(s) => s,
        None => chars_to_string(&i64_to_chars(timestamp)),
    }
}

/// The display text of a schema-B size value.
pub open spec fn spec_size_text(s: RawSize) -> Seq<char> {
    match s {
        RawSize::Bytes(n) => spec_format_file_size(n as int),
        RawSize::Text(t) => t@,
        RawSize::Unknown => "未知大小"@,
    }
}

/// The fields a schema-B entry name splits into, after every trailing
/// enabled suffix is trimmed: four or more fields give (name, author,
/// version, rest joined); exactly three give an empty description; fewer
/// leave the whole untrimmed name as the plugin name.
pub open spec fn spec_hotpe_plugin(item: HotPEPlugin) -> PluginData {
    let trimmed = spec_trim_end_matches(item.name@, suffix_hpm());
    let parts = spec_split(trimmed, '_');
    let f = if parts.len() >= 4 {
        (parts[0], parts[1], parts[2], spec_join(parts.skip(3), '_'))
    } else if parts.len() == 3 {
        (parts[0], parts[1], parts[2], Seq::<char>::empty())
    } else {
        (item.name@, Seq::<char>::empty(), Seq::<char>::empty(), Seq::<char>::empty())
    };
    PluginData {
        name: f.0,
        author: f.1,
        version: f.2,
        describe: f.3,
        size: spec_size_text(item.size),
        file: item.name@,
        link: item.link@,
    }
}

pub open spec fn spec_hotpe_plugins(items: Seq<HotPEPlugin>) -> Seq<PluginData> {
    items.map_values(|it: HotPEPlugin| spec_hotpe_plugin(it))
}

fn convert_hotpe_item(item: &HotPEPlugin) -> (p: Plugin)
    ensures
        p@ == spec_hotpe_plugin(*item),
{
    let n: Vec<char> = to_char_vec(item.name.as_str());
    let hpm: Vec<char> = to_char_vec(".HPM");
    proof {
        reveal_strlit(".HPM");
        assert(hpm@ =~= suffix_hpm());
    }
    let trimmed: Vec<char> = trim_end_matches_chars(&n, &hpm);
    let parts: Vec<Vec<char>> = split_chars(&trimmed, '_');
    let ghost sparts = spec_split(trimmed@, '_');
    let size: String = match &item.size {
        RawSize::Bytes(b) => format_file_size(*b),
        RawSize::Text(t) => t.clone(),
        RawSize::Unknown => String::from_str("未知大小"),
    };
    if parts.len() >= 4 {
        let describe: Vec<char> = join_from(&parts, 3, '_');
        assert(views_of(parts@).skip(3) =~= sparts.skip(3));
        assert(parts@[0]@ == sparts[0]);
        assert(parts@[1]@ == sparts[1]);
        assert(parts@[2]@ == sparts[2]);
        Plugin {
            name: chars_to_string(&parts[0]),
            size,
            version: chars_to_string(&parts[2]),
            author: chars_to_string(&parts[1]),
            describe: chars_to_string(&describe),
            file: item.name.clone(),
            link: item.link.clone(),
        }
    } else if parts.len() == 3 {
        assert(parts@[0]@ == sparts[0]);
        assert(parts@[1]@ == sparts[1]);
        assert(parts@[2]@ == sparts[2]);
        Plugin {
            name: chars_to_string(&parts[0]),
            size,
            version: chars_to_string(&parts[2]),
            author: chars_to_string(&parts[1]),
            describe: String::new(),
            file: item.name.clone(),
            link: item.link.clone(),
        }
    } else {
        Plugin {
            name: item.name.clone(),
            size,
            version: String::new(),
            author: String::new(),
            describe: String::new(),
            file: item.name.clone(),
            link: item.link.clone(),
        }
    }
}

/// Each output category carries the input category's label and icon, and
/// its list deduplicated, first occurrence winning.
pub open spec fn deduped_catalog_ok(out: Seq<PluginCategory>, input: Seq<CategoryData>) -> bool {
    &&& out.len() == input.len()
    &&& forall|i: int|
        0 <= i < input.len() ==> {
            &&& (#[trigger] out[i])@.class == input[i].class
            &&& out[i]@.icon == input[i].icon
            &&& out[i]@.list == spec_dedup(input[i].list)
        }
}

/// Normalizes a schema-A response: success exactly when the code is 200,
/// with every category deduplicated; any other code is rejected with the
/// embedded message.
pub fn process_cloudpe_response(resp: CloudPEResponse) -> (r: Result<
    Vec<PluginCategory>,
    PluginError,
>)
    ensures
        resp.code == 200 ==> (r matches Ok(cats) && deduped_catalog_ok(
            cats@,
            category_views(resp.data@),
        )),
        resp.code != 200 ==> (r matches Err(e) && e matches PluginError::Protocol(m) && m@
            == "获取插件列表失败: "@ + resp.message@),
{
    if resp.code == 200 {
        let mut cats: Vec<PluginCategory> = Vec::new();
        let mut i: usize = 0;
        while i < resp.data.len()
            invariant
                i <= resp.data@.len(),
                cats@.len() == i,
                forall|j: int|
                    0 <= j < i ==> {
                        &&& (#[trigger] cats@[j])@.class == resp.data@[j]@.class
                        &&& cats@[j]@.icon == resp.data@[j]@.icon
                        &&& cats@[j]@.list == spec_dedup(resp.data@[j]@.list)
                    },
            decreases resp.data@.len() - i,
        {
            let cat: &PluginCategory = &resp.data[i];
            let list: Vec<Plugin> = dedup_plugins(&cat.list);
            let icon: Option<String> = match &cat.icon {
                Some(s) => Some(s.clone()),
                None => None,
            };
            cats.push(PluginCategory { class: cat.class.clone(), icon, list });
            i = i + 1;
        }
        assert(forall|j: int|
            0 <= j < resp.data@.len() ==> category_views(resp.data@)[j] == resp.data@[j]@);
        Ok(cats)
    } else {
        let mut m: String = String::from_str("获取插件列表失败: ");
        m.append(resp.message.as_str());
        Err(PluginError::Protocol(m))
    }
}

/// Normalizes a schema-B response: success exactly when the state reads
/// `"success"`; each raw entry becomes a plugin by splitting its filename,
/// and every category is deduplicated.
pub fn process_hotpe_response(resp: HotPEResponse) -> (r: Result<Vec<PluginCategory>, PluginError>)
    ensures
        resp.state@ == "success"@ ==> (r matches Ok(cats) && cats@.len() == resp.data@.len()
            && forall|i: int|
            0 <= i < resp.data@.len() ==> {
                &&& (#[trigger] cats@[i])@.class == resp.data@[i].class@
                &&& cats@[i]@.icon == (match resp.data@[i].icon {
                    Some(s) => Some(s@),
                    None => None,
                })
                &&& cats@[i]@.list == spec_dedup(spec_hotpe_plugins(resp.data@[i].list@))
            }),
        resp.state@ != "success"@ ==> (r matches Err(e) && e matches PluginError::Protocol(m)
            && m@ == "获取HotPE模块列表失败"@),
{
    let success: String = String::from_str("success");
    if resp.state == success {
        let mut cats: Vec<PluginCategory> = Vec::new();
        let mut i: usize = 0;
        while i < resp.data.len()
            invariant
                i <= resp.data@.len(),
                cats@.len() == i,
                forall|j: int|
                    0 <= j < i ==> {
                        &&& (#[trigger] cats@[j])@.class == resp.data@[j].class@
                        &&& cats@[j]@.icon == (match resp.data@[j].icon {
                            Some(s) => Some(s@),
                            None => None,
                        })
                        &&& cats@[j]@.list == spec_dedup(spec_hotpe_plugins(resp.data@[j].list@))
                    },
            decreases resp.data@.len() - i,
        {
            let cat: &HotPECategory = &resp.data[i];
            let mut converted: Vec<Plugin> = Vec::new();
            let mut k: usize = 0;
            while k < cat.list.len()
                invariant
                    k <= cat.list@.len(),
                    plugin_views(converted@) == spec_hotpe_plugins(cat.list@).subrange(
                        0,
                        k as int,
                    ),
                decreases cat.list@.len() - k,
            {
                let ghost old_cv = plugin_views(converted@);
                converted.push(convert_hotpe_item(&cat.list[k]));
                assert(plugin_views(converted@) =~= old_cv.push(
                    spec_hotpe_plugin(cat.list@[k as int]),
                ));
                assert(spec_hotpe_plugins(cat.list@)[k as int] == spec_hotpe_plugin(
                    cat.list@[k as int],
                ));
                k = k + 1;
                assert(plugin_views(converted@) =~= spec_hotpe_plugins(cat.list@).subrange(
                    0,
                    k as int,
                ));
            }
            assert(plugin_views(converted@) =~= spec_hotpe_plugins(cat.list@));
            let list: Vec<Plugin> = dedup_plugins(&converted);
            let icon: Option<String> = match &cat.icon {
                Some(s) => Some(s.clone()),
                None => None,
            };
            cats.push(PluginCategory { class: cat.class.clone(), icon, list });
            i = i + 1;
        }
        Ok(cats)
    } else {
        Err(PluginError::Protocol(String::from_str("获取HotPE模块列表失败")))
    }
}

} // verus!
