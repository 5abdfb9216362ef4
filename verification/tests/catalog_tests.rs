use plugin_market::catalog::{
    process_cloudpe_response, process_hotpe_response, format_timestamp, catalog_schema,
    CatalogSchema, CloudPEResponse, HotPEResponse, HotPECategory, HotPEPlugin, RawSize,
};
use plugin_market::error::PluginError;
use plugin_market::mode::PluginMode;
use plugin_market::plugin::{Plugin, PluginCategory};

fn plugin(name: &str, version: &str, author: &str, size: &str) -> Plugin {
    Plugin {
        name: name.to_string(),
        size: size.to_string(),
        version: version.to_string(),
        author: author.to_string(),
        describe: String::new(),
        file: String::new(),
        link: String::new(),
    }
}

#[test]
fn each_mode_speaks_its_schema() {
    assert_eq!(catalog_schema(PluginMode::CloudPE), CatalogSchema::SchemaA);
    assert_eq!(catalog_schema(PluginMode::Edgeless), CatalogSchema::SchemaA);
    assert_eq!(catalog_schema(PluginMode::HotPE), CatalogSchema::SchemaB);
    assert_eq!(catalog_schema(PluginMode::Select), CatalogSchema::Unsupported);
}

#[test]
fn duplicate_entries_collapse_to_the_first() {
    let a1 = plugin("A", "1.0", "x", "1 KB");
    let mut a2 = plugin("A", "1.0", "x", "1 KB");
    a2.describe = "second copy".to_string();
    let b = plugin("B", "1.0", "x", "1 KB");
    let resp = CloudPEResponse {
        code: 200,
        message: String::new(),
        data: vec![PluginCategory {
            class: "tools".to_string(),
            icon: None,
            list: vec![a1, a2, b],
        }],
    };
    let cats = process_cloudpe_response(resp).expect("code 200 succeeds");
    assert_eq!(cats.len(), 1);
    assert_eq!(cats[0].list.len(), 2);
    assert_eq!(cats[0].list[0].name.as_str(), "A");
    // First occurrence wins: its description survives.
    assert_eq!(cats[0].list[0].describe.as_str(), "");
    assert_eq!(cats[0].list[1].name.as_str(), "B");
}

#[test]
fn differing_dedup_keys_all_survive() {
    let v1 = plugin("A", "1.0", "x", "1 KB");
    let v2 = plugin("A", "2.0", "x", "1 KB");
    let resp = CloudPEResponse {
        code: 200,
        message: String::new(),
        data: vec![PluginCategory {
            class: "tools".to_string(),
            icon: None,
            list: vec![v1, v2],
        }],
    };
    let cats = process_cloudpe_response(resp).expect("code 200 succeeds");
    assert_eq!(cats[0].list.len(), 2);
}

#[test]
fn non_success_code_is_rejected_with_the_embedded_message() {
    let resp = CloudPEResponse {
        code: 500,
        message: "backend down".to_string(),
        data: Vec::new(),
    };
    match process_cloudpe_response(resp) {
        Err(PluginError::Protocol(m)) => {
            assert_eq!(m.as_str(), "获取插件列表失败: backend down");
        }
        _ => panic!("expected a protocol error"),
    }
}

fn raw_item(name: &str, size: RawSize, link: &str) -> HotPEPlugin {
    HotPEPlugin {
        name: name.to_string(),
        size,
        modified: String::new(),
        link: link.to_string(),
    }
}

#[test]
fn hotpe_entry_names_split_into_fields() {
    let resp = HotPEResponse {
        state: "success".to_string(),
        data: vec![HotPECategory {
            class: "mods".to_string(),
            icon: None,
            list: vec![
                raw_item("Tool_bob_2.1_does_things.HPM", RawSize::Bytes(2048), "http://x/1"),
                raw_item("Tiny_ann_1.0.HPM", RawSize::Text("3 MB".to_string()), "http://x/2"),
                raw_item("justonefield.HPM", RawSize::Unknown, "http://x/3"),
            ],
        }],
    };
    let cats = process_hotpe_response(resp).expect("success state succeeds");
    assert_eq!(cats.len(), 1);
    let list = &cats[0].list;
    assert_eq!(list.len(), 3);

    assert_eq!(list[0].name.as_str(), "Tool");
    assert_eq!(list[0].author.as_str(), "bob");
    assert_eq!(list[0].version.as_str(), "2.1");
    assert_eq!(list[0].describe.as_str(), "does_things");
    assert_eq!(list[0].size.as_str(), "2.00 KB");
    assert_eq!(list[0].file.as_str(), "Tool_bob_2.1_does_things.HPM");
    assert_eq!(list[0].link.as_str(), "http://x/1");

    assert_eq!(list[1].name.as_str(), "Tiny");
    assert_eq!(list[1].author.as_str(), "ann");
    assert_eq!(list[1].version.as_str(), "1.0");
    assert_eq!(list[1].describe.as_str(), "");
    assert_eq!(list[1].size.as_str(), "3 MB");

    // Fewer than three fields: the whole untrimmed name stands as the
    // plugin name.
    assert_eq!(list[2].name.as_str(), "justonefield.HPM");
    assert_eq!(list[2].author.as_str(), "");
    assert_eq!(list[2].version.as_str(), "");
    assert_eq!(list[2].size.as_str(), "未知大小");
}

#[test]
fn hotpe_duplicates_collapse_too() {
    let resp = HotPEResponse {
        state: "success".to_string(),
        data: vec![HotPECategory {
            class: "mods".to_string(),
            icon: None,
            list: vec![
                raw_item("Tool_bob_2.1.HPM", RawSize::Bytes(100), "http://x/1"),
                raw_item("Tool_bob_2.1.HPM", RawSize::Bytes(100), "http://x/1"),
            ],
        }],
    };
    let cats = process_hotpe_response(resp).expect("success state succeeds");
    assert_eq!(cats[0].list.len(), 1);
}

#[test]
fn hotpe_non_success_state_is_rejected() {
    let resp = HotPEResponse { state: "error".to_string(), data: Vec::new() };
    match process_hotpe_response(resp) {
        Err(PluginError::Protocol(m)) => assert_eq!(m.as_str(), "获取HotPE模块列表失败"),
        _ => panic!("expected a protocol error"),
    }
}

#[test]
fn epoch_seconds_render_as_utc_datetime() {
    assert_eq!(format_timestamp(0).as_str(), "1970-01-01 00:00:00");
    assert_eq!(format_timestamp(1431648000).as_str(), "2015-05-15 00:00:00");
    assert_eq!(format_timestamp(86399).as_str(), "1970-01-01 23:59:59");
}

#[test]
fn out_of_range_seconds_fall_back_to_decimal() {
    assert_eq!(format_timestamp(i64::MAX).as_str(), i64::MAX.to_string().as_str());
}

#[test]
fn error_messages_read_back() {
    assert_eq!(PluginError::NotFound.message().as_str(), "文件不存在");
    assert_eq!(
        PluginError::Network("no route".to_string()).message().as_str(),
        "no route"
    );
    assert_eq!(PluginError::Io("disk full".to_string()).message().as_str(), "disk full");
}
