use plugin_market::mode::PluginMode;
use plugin_market::plugin::{Plugin, PluginCategory, PluginStatus};
use plugin_market::registry::PluginManager;
use plugin_market::scanner::{ScanFile, classify_file, FileClass};

fn remote(name: &str, version: &str, author: &str) -> Plugin {
    Plugin {
        name: name.to_string(),
        size: "1.00 KB".to_string(),
        version: version.to_string(),
        author: author.to_string(),
        describe: "a tool".to_string(),
        file: String::new(),
        link: "http://example/dl".to_string(),
    }
}

fn catalog_with(list: Vec<Plugin>) -> Vec<PluginCategory> {
    vec![PluginCategory { class: "tools".to_string(), icon: None, list }]
}

fn scan_file(name: &str, size: u64) -> ScanFile {
    ScanFile { name: name.to_string(), size }
}

#[test]
fn classification_follows_the_mode() {
    assert_eq!(classify_file(PluginMode::CloudPE, "a_1_b_c.ce"), FileClass::Enabled);
    assert_eq!(classify_file(PluginMode::CloudPE, "a_1_b_c.CE"), FileClass::Enabled);
    assert_eq!(classify_file(PluginMode::CloudPE, "a_1_b_c.CBK"), FileClass::Disabled);
    assert_eq!(classify_file(PluginMode::CloudPE, "a_1_b_c.cbk"), FileClass::Disabled);
    assert_eq!(classify_file(PluginMode::CloudPE, "readme.txt"), FileClass::Ignored);
    assert_eq!(classify_file(PluginMode::CloudPE, "no-extension"), FileClass::Ignored);

    assert_eq!(classify_file(PluginMode::HotPE, "a_b_1.HPM"), FileClass::Enabled);
    assert_eq!(classify_file(PluginMode::HotPE, "a_b_1.hpm"), FileClass::Enabled);
    assert_eq!(classify_file(PluginMode::HotPE, "a_b_1.hpm.off"), FileClass::Disabled);
    assert_eq!(classify_file(PluginMode::HotPE, "a_b_1.zip"), FileClass::Ignored);

    assert_eq!(classify_file(PluginMode::Edgeless, "a_1_b.7z"), FileClass::Enabled);
    assert_eq!(classify_file(PluginMode::Edgeless, "a_1_b.7zf"), FileClass::Disabled);
}

#[test]
fn scan_splits_enabled_and_disabled_and_skips_the_rest() {
    let mut m = PluginManager::new(PluginMode::CloudPE);
    let files = vec![
        scan_file("Alpha_1.0_ann_first.ce", 2048),
        scan_file("Beta_2.0_bob_second.CBK", 500),
        scan_file("notes.txt", 7),
        scan_file("short.ce", 9),
    ];
    m.load_local_plugins(&files);
    let enabled = m.get_enabled_plugins();
    let disabled = m.get_disabled_plugins();
    assert_eq!(enabled.len(), 1);
    assert_eq!(enabled[0].name.as_str(), "Alpha");
    assert_eq!(enabled[0].size.as_str(), "2.00 KB");
    assert_eq!(enabled[0].file.as_str(), "Alpha_1.0_ann_first.ce");
    assert_eq!(disabled.len(), 1);
    assert_eq!(disabled[0].name.as_str(), "Beta");
    assert_eq!(disabled[0].size.as_str(), "500 B");
}

#[test]
fn rescanning_reordered_files_keeps_the_same_sets() {
    let files1 = vec![
        scan_file("Alpha_1.0_ann_first.ce", 2048),
        scan_file("Beta_2.0_bob_second.ce", 500),
        scan_file("Gamma_3.0_cy_third.CBK", 10),
    ];
    let files2 = vec![
        scan_file("Gamma_3.0_cy_third.CBK", 10),
        scan_file("Beta_2.0_bob_second.ce", 500),
        scan_file("Alpha_1.0_ann_first.ce", 2048),
    ];
    let mut m1 = PluginManager::new(PluginMode::CloudPE);
    let mut m2 = PluginManager::new(PluginMode::CloudPE);
    m1.load_local_plugins(&files1);
    m2.load_local_plugins(&files2);
    let mut keys1: Vec<String> =
        m1.get_enabled_plugins().iter().map(|p| p.get_unique_key()).collect();
    let mut keys2: Vec<String> =
        m2.get_enabled_plugins().iter().map(|p| p.get_unique_key()).collect();
    keys1.sort();
    keys2.sort();
    assert_eq!(keys1, keys2);
    let d1: Vec<String> = m1.get_disabled_plugins().iter().map(|p| p.get_unique_key()).collect();
    let d2: Vec<String> = m2.get_disabled_plugins().iter().map(|p| p.get_unique_key()).collect();
    assert_eq!(d1, d2);
}

#[test]
fn identity_index_holds_the_last_enabled_entry() {
    let mut m = PluginManager::new(PluginMode::CloudPE);
    // Same identity (name, author) in two versions: the index keeps the
    // later entry, as repeated insertion would.
    let files = vec![
        scan_file("Tool_1.0_ann_x.ce", 100),
        scan_file("Tool_2.0_ann_x.ce", 100),
    ];
    m.load_local_plugins(&files);
    assert_eq!(m.get_enabled_plugins().len(), 2);
    let hit = m.get_enabled_plugin_by_id("Tool_ann").expect("identity present");
    assert_eq!(hit.version.as_str(), "2.0");
    assert!(m.get_enabled_plugin_by_id("Other_ann").is_none());
}

#[test]
fn status_reflects_the_version_comparison() {
    let mut m = PluginManager::new(PluginMode::CloudPE);
    m.load_local_plugins(&vec![scan_file("Tool_1.5_ann_x.ce", 100)]);

    let newer = remote("Tool", "2.0", "ann");
    assert_eq!(m.check_plugin_status(&newer), PluginStatus::UpdateAvailable);

    let same = remote("Tool", "1.5", "ann");
    assert_eq!(m.check_plugin_status(&same), PluginStatus::Installed);

    let older = remote("Tool", "1.0", "ann");
    assert_eq!(m.check_plugin_status(&older), PluginStatus::Installed);

    let absent = remote("Missing", "1.0", "ann");
    assert_eq!(m.check_plugin_status(&absent), PluginStatus::NotInstalled);
}

#[test]
fn search_is_case_insensitive_and_deduplicated() {
    let mut m = PluginManager::new(PluginMode::CloudPE);
    let a = remote("Alpha", "1.0", "ann");
    let duplicate = remote("Alpha", "1.0", "ann");
    let b = remote("Beta", "1.0", "bob");
    m.set_categories(catalog_with(vec![a, duplicate, b]));

    let hits = m.search_plugins("ALPHA");
    assert_eq!(hits.len(), 1);
    assert_eq!(hits[0].name.as_str(), "Alpha");

    // The description is searched too.
    let hits = m.search_plugins("a tool");
    assert_eq!(hits.len(), 2);

    assert_eq!(m.search_plugins("nothing-like-this").len(), 0);

    // An empty keyword matches everything; duplicates still collapse.
    assert_eq!(m.search_plugins("").len(), 2);
}

#[test]
fn market_lookup_finds_the_first_entry_in_catalog_order() {
    let mut m = PluginManager::new(PluginMode::CloudPE);
    let first = remote("Tool", "1.0", "ann");
    let second = remote("Tool", "2.0", "ann");
    m.set_categories(catalog_with(vec![first, second]));
    let hit = m.find_market_plugin_by_id("Tool_ann").expect("present");
    assert_eq!(hit.version.as_str(), "1.0");
    assert!(m.find_market_plugin_by_id("Tool_bob").is_none());
}

#[test]
fn update_is_available_when_the_catalog_is_newer() {
    let mut m = PluginManager::new(PluginMode::CloudPE);
    m.set_categories(catalog_with(vec![remote("Tool", "1.10", "ann")]));
    let local_old = remote("Tool", "1.2", "ann");
    assert!(m.check_update_available(&local_old));
    let local_current = remote("Tool", "1.10", "ann");
    assert!(!m.check_update_available(&local_current));
    let unknown = remote("Other", "1.0", "ann");
    assert!(!m.check_update_available(&unknown));
}

#[test]
fn category_lookup_returns_its_plugins() {
    let mut m = PluginManager::new(PluginMode::CloudPE);
    let cats = vec![
        PluginCategory {
            class: "tools".to_string(),
            icon: None,
            list: vec![remote("Alpha", "1.0", "ann")],
        },
        PluginCategory {
            class: "games".to_string(),
            icon: Some("icon.png".to_string()),
            list: vec![remote("Beta", "1.0", "bob")],
        },
    ];
    m.set_categories(cats);
    let tools = m.get_category_plugins("tools");
    assert_eq!(tools.len(), 1);
    assert_eq!(tools[0].name.as_str(), "Alpha");
    assert_eq!(m.get_category_plugins("absent").len(), 0);
}

#[test]
fn keys_join_the_identifying_fields() {
    let p = remote("Tool", "1.0", "ann");
    assert_eq!(p.get_unique_key().as_str(), "Tool_1.0_ann_1.00 KB");
    assert_eq!(p.get_plugin_id().as_str(), "Tool_ann");
}
