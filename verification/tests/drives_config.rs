use plugin_market::config::{AppConfig, ColorMode};
use plugin_market::downloader::DownloadProgress;
use plugin_market::drives::{BootDriveManager, DriveProbe, classify_drive};
use plugin_market::mode::PluginMode;

fn probe(letter: &str, marker: bool, version: Option<&str>, folder: bool) -> DriveProbe {
    DriveProbe {
        letter: letter.to_string(),
        has_boot_marker: marker,
        marker_version: version.map(|v| v.to_string()),
        has_mode_folder: folder,
    }
}

#[test]
fn cloudpe_needs_marker_files_and_a_readable_version() {
    let d = classify_drive(PluginMode::CloudPE, &probe("E:", true, Some("1.3"), false))
        .expect("recognized");
    assert_eq!(d.letter.as_str(), "E:");
    assert_eq!(d.version.as_str(), "1.3");
    assert!(classify_drive(PluginMode::CloudPE, &probe("E:", true, None, false)).is_none());
    assert!(classify_drive(PluginMode::CloudPE, &probe("E:", false, Some("1.3"), true)).is_none());
}

#[test]
fn other_modes_accept_their_folder_or_fall_back_to_the_marker() {
    let d = classify_drive(PluginMode::HotPE, &probe("F:", false, None, true)).expect("folder");
    assert_eq!(d.version.as_str(), "HotPE");
    let d = classify_drive(PluginMode::HotPE, &probe("F:", true, None, false)).expect("marker");
    assert_eq!(d.version.as_str(), "Cloud-PE (HotPE兼容)");
    assert!(classify_drive(PluginMode::HotPE, &probe("F:", false, None, false)).is_none());

    let d = classify_drive(PluginMode::Edgeless, &probe("G:", false, None, true)).expect("folder");
    assert_eq!(d.version.as_str(), "Edgeless");
    let d = classify_drive(PluginMode::Edgeless, &probe("G:", true, Some("2"), false))
        .expect("marker");
    assert_eq!(d.version.as_str(), "Cloud-PE (Edgeless兼容)");
}

#[test]
fn manager_scans_selects_and_reloads() {
    let mut m = BootDriveManager::new(PluginMode::HotPE);
    assert!(m.get_all_drives().is_empty());
    assert!(m.get_current_drive().is_none());

    let probes = vec![
        probe("C:", false, None, false),
        probe("E:", false, None, true),
        probe("F:", true, None, false),
    ];
    m.reload(&probes);
    let drives = m.get_all_drives();
    assert_eq!(drives.len(), 2);
    assert_eq!(drives[0].letter.as_str(), "E:");
    assert_eq!(drives[1].letter.as_str(), "F:");

    m.set_current_drive("E:".to_string());
    assert_eq!(m.get_current_drive().expect("selected").as_str(), "E:");
}

#[test]
fn defaults_are_system_theme_and_eight_threads() {
    assert_eq!(ColorMode::default(), ColorMode::System);
    let c = AppConfig::default();
    assert_eq!(c.color_mode, ColorMode::System);
    assert_eq!(c.download_threads, 8);
    assert!(c.default_boot_drive.is_none());
    assert!(c.default_download_path.is_none());
}

#[test]
fn progress_counts_received_bytes() {
    let mut p = DownloadProgress::new();
    assert_eq!(p.current, 0);
    p.start(10_000);
    assert_eq!(p.total, 10_000);
    p.record_chunk(4_000);
    p.record_chunk(1_500);
    assert_eq!(p.current, 5_500);
    assert_eq!(p.total, 10_000);
}

#[test]
fn mode_profile_reads_back_its_table() {
    assert_eq!(PluginMode::CloudPE.get_enabled_extension(), "ce");
    assert_eq!(PluginMode::CloudPE.get_disabled_extension(), "CBK");
    assert_eq!(PluginMode::HotPE.get_enabled_extension(), "HPM");
    assert_eq!(PluginMode::HotPE.get_disabled_extension(), "hpm.off");
    assert_eq!(PluginMode::Edgeless.get_enabled_extension(), "7z");
    assert_eq!(PluginMode::Edgeless.get_disabled_extension(), "7zf");
    assert_eq!(PluginMode::CloudPE.get_plugin_folder(), "ce-apps");
    assert_eq!(PluginMode::HotPE.get_plugin_folder(), "HotPEModule");
    assert_eq!(PluginMode::Edgeless.get_plugin_folder(), "Edgeless\\Resource");
    assert_eq!(PluginMode::CloudPE.get_api_url(), "https://api.cloud-pe.cn/GetPlugins/");
    assert_eq!(PluginMode::HotPE.get_plugin_market_name(), "模块市场");
    assert_eq!(PluginMode::CloudPE.get_plugin_market_name(), "插件市场");
    assert_eq!(PluginMode::HotPE.get_server_name(), "HotPE");
    assert_eq!(PluginMode::Select.get_title(), "选择插件源");
}
