use plugin_market::codec::{
    generate_plugin_filename, parse_plugin_file, enabled_file_name, disabled_file_name,
    full_plugin_filename,
};
use plugin_market::mode::PluginMode;
use plugin_market::plugin::Plugin;

fn plugin(name: &str, version: &str, author: &str, describe: &str) -> Plugin {
    Plugin {
        name: name.to_string(),
        size: String::new(),
        version: version.to_string(),
        author: author.to_string(),
        describe: describe.to_string(),
        file: String::new(),
        link: String::new(),
    }
}

#[test]
fn decodes_mode_one_filename() {
    let p = parse_plugin_file(PluginMode::CloudPE, "MyTool_1.0_alice_A_cool_tool.ce", 2048)
        .expect("should decode");
    assert_eq!(p.name.as_str(), "MyTool");
    assert_eq!(p.version.as_str(), "1.0");
    assert_eq!(p.author.as_str(), "alice");
    assert_eq!(p.describe.as_str(), "A_cool_tool");
    assert_eq!(p.file.as_str(), "MyTool_1.0_alice_A_cool_tool.ce");
    assert_eq!(p.size.as_str(), "2.00 KB");
    assert_eq!(p.link.as_str(), "");
}

#[test]
fn too_few_fields_is_not_a_plugin_file() {
    assert!(parse_plugin_file(PluginMode::CloudPE, "NoFields.ce", 10).is_none());
    assert!(parse_plugin_file(PluginMode::CloudPE, "a_b_c.ce", 10).is_none());
    assert!(parse_plugin_file(PluginMode::HotPE, "a_b.HPM", 10).is_none());
    assert!(parse_plugin_file(PluginMode::Edgeless, "a_b.7z", 10).is_none());
}

#[test]
fn decodes_hotpe_filename_with_its_field_order() {
    // name, author, version, description — author before version.
    let p = parse_plugin_file(PluginMode::HotPE, "Tool_bob_2.1_does_things.HPM", 500)
        .expect("should decode");
    assert_eq!(p.name.as_str(), "Tool");
    assert_eq!(p.author.as_str(), "bob");
    assert_eq!(p.version.as_str(), "2.1");
    assert_eq!(p.describe.as_str(), "does_things");
    assert_eq!(p.size.as_str(), "500 B");
}

#[test]
fn decodes_disabled_hotpe_filename() {
    let p = parse_plugin_file(PluginMode::HotPE, "Tool_bob_2.1.hpm.off", 500)
        .expect("should decode");
    assert_eq!(p.name.as_str(), "Tool");
    assert_eq!(p.author.as_str(), "bob");
    assert_eq!(p.version.as_str(), "2.1");
    assert_eq!(p.describe.as_str(), "");
}

#[test]
fn decodes_edgeless_filename_without_description() {
    let p = parse_plugin_file(PluginMode::Edgeless, "Pack_3.2_carol.7z", 1024)
        .expect("should decode");
    assert_eq!(p.name.as_str(), "Pack");
    assert_eq!(p.version.as_str(), "3.2");
    assert_eq!(p.author.as_str(), "carol");
    assert_eq!(p.describe.as_str(), "");
    assert_eq!(p.size.as_str(), "1.00 KB");
}

#[test]
fn encodes_per_mode_field_order() {
    let p = plugin("Tool", "1.0", "alice", "neat");
    assert_eq!(
        generate_plugin_filename(PluginMode::CloudPE, &p).as_str(),
        "Tool_1.0_alice_neat"
    );
    assert_eq!(generate_plugin_filename(PluginMode::HotPE, &p).as_str(), "Tool_alice_1.0_neat");
    assert_eq!(generate_plugin_filename(PluginMode::Edgeless, &p).as_str(), "Tool_1.0_alice");
}

#[test]
fn encoding_replaces_path_unsafe_characters() {
    let p = plugin("Tool", "1.0", "alice", r#"a b/c\d:e*f?g"h<i>j|k"#);
    assert_eq!(
        generate_plugin_filename(PluginMode::CloudPE, &p).as_str(),
        "Tool_1.0_alice_a_b_c_d_e_f_g_h_i_j_k"
    );
}

#[test]
fn hotpe_writes_the_name_for_an_empty_description() {
    let p = plugin("Tool", "1.0", "alice", "");
    assert_eq!(generate_plugin_filename(PluginMode::HotPE, &p).as_str(), "Tool_alice_1.0_Tool");
}

#[test]
fn encode_then_decode_reproduces_the_fields() {
    let p = plugin("MyTool", "1.0", "alice", "cool");
    let full = full_plugin_filename(PluginMode::CloudPE, &p);
    assert_eq!(full.as_str(), "MyTool_1.0_alice_cool.ce");
    let back = parse_plugin_file(PluginMode::CloudPE, full.as_str(), 77).expect("round trip");
    assert_eq!(back.name.as_str(), "MyTool");
    assert_eq!(back.version.as_str(), "1.0");
    assert_eq!(back.author.as_str(), "alice");
    assert_eq!(back.describe.as_str(), "cool");

    let full = full_plugin_filename(PluginMode::Edgeless, &p);
    let back = parse_plugin_file(PluginMode::Edgeless, full.as_str(), 77).expect("round trip");
    assert_eq!(back.name.as_str(), "MyTool");
    assert_eq!(back.version.as_str(), "1.0");
    assert_eq!(back.author.as_str(), "alice");
}

#[test]
fn enable_swaps_the_disabled_suffix() {
    assert_eq!(
        enabled_file_name(PluginMode::CloudPE, "Tool_1.0_a_d.CBK").as_str(),
        "Tool_1.0_a_d.ce"
    );
    assert_eq!(
        enabled_file_name(PluginMode::HotPE, "Tool_a_1.0_d.hpm.off").as_str(),
        "Tool_a_1.0_d.HPM"
    );
    assert_eq!(enabled_file_name(PluginMode::Edgeless, "T_1_a.7zf").as_str(), "T_1_a.7z");
}

#[test]
fn disable_swaps_the_enabled_suffix() {
    assert_eq!(
        disabled_file_name(PluginMode::CloudPE, "Tool_1.0_a_d.ce").as_str(),
        "Tool_1.0_a_d.CBK"
    );
    assert_eq!(
        disabled_file_name(PluginMode::HotPE, "Tool_a_1.0_d.HPM").as_str(),
        "Tool_a_1.0_d.hpm.off"
    );
    assert_eq!(disabled_file_name(PluginMode::Edgeless, "T_1_a.7z").as_str(), "T_1_a.7zf");
}

#[test]
fn disabling_without_the_expected_suffix_appends_a_generic_marker() {
    // The compound-suffix mode falls back to appending ".off" when the
    // expected enabled suffix is absent.
    assert_eq!(disabled_file_name(PluginMode::HotPE, "odd_name.zip").as_str(), "odd_name.zip.off");
}

#[test]
fn rename_touches_only_the_trailing_suffix() {
    // A suffix string occurring mid-name, or earlier in a repeated tail,
    // is left alone: only the trailing suffix is exchanged.
    assert_eq!(
        disabled_file_name(PluginMode::CloudPE, "Tool_1.0_a_nice.cert.ce").as_str(),
        "Tool_1.0_a_nice.cert.CBK"
    );
    assert_eq!(disabled_file_name(PluginMode::CloudPE, "x.ce.ce").as_str(), "x.ce.CBK");
    assert_eq!(enabled_file_name(PluginMode::CloudPE, "x.CBK.CBK").as_str(), "x.CBK.ce");
    assert_eq!(
        enabled_file_name(PluginMode::HotPE, "a.hpm.off.hpm.off").as_str(),
        "a.hpm.off.HPM"
    );
    assert_eq!(disabled_file_name(PluginMode::Edgeless, "b.7z.7z").as_str(), "b.7z.7zf");
}

#[test]
fn rename_without_the_suffix_changes_nothing() {
    assert_eq!(enabled_file_name(PluginMode::CloudPE, "plain.txt").as_str(), "plain.txt");
    assert_eq!(enabled_file_name(PluginMode::HotPE, "plain.txt").as_str(), "plain.txt");
    assert_eq!(disabled_file_name(PluginMode::CloudPE, "plain.txt").as_str(), "plain.txt");
    assert_eq!(disabled_file_name(PluginMode::Edgeless, "plain.txt").as_str(), "plain.txt");
}
