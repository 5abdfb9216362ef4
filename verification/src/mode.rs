//! Per-ecosystem profile: remote URLs, local folder name, the enabled and
//! disabled filename suffixes, and display strings. A pure lookup table with
//! no state; every other component is parameterized by it.

use vstd::prelude::*;

verus! {

/// The three supported ecosystems, plus the placeholder shown while the user
/// has not picked one yet.
#[derive(Debug, Clone, Copy, PartialEq, Eq, Hash, Structural)]
pub enum PluginMode {
    CloudPE,
    HotPE,
    Edgeless,
    Select,
}

impl PluginMode {
    pub open spec fn spec_api_url(self) -> Seq<char> {
        match self {
            PluginMode::CloudPE => "https://api.cloud-pe.cn/GetPlugins/"@,
            PluginMode::HotPE => "https://api.hotpe.top/API/HotPE/GetHPMList/"@,
            PluginMode::Edgeless => "https://api.cloud-pe.cn/EdgelessPlugins/"@,
            PluginMode::Select => ""@,
        }
    }

    pub fn get_api_url(&self) -> (r: &'static str)
        ensures
            r@ == self.spec_api_url(),
    {
        match self {
            PluginMode::CloudPE => "https://api.cloud-pe.cn/GetPlugins/",
            PluginMode::HotPE => "https://api.hotpe.top/API/HotPE/GetHPMList/",
            PluginMode::Edgeless => "https://api.cloud-pe.cn/EdgelessPlugins/",
            PluginMode::Select => "",
        }
    }

    pub open spec fn spec_connect_test_url(self) -> Seq<char> {
        match self {
            PluginMode::CloudPE => "https://api.cloud-pe.cn/connecttest/"@,
            PluginMode::HotPE => "https://api.hotpe.top/API/HotPE/GetHPMList/"@,
            PluginMode::Edgeless => "https://api.cloud-pe.cn/EdgelessPlugins/"@,
            PluginMode::Select => ""@,
        }
    }

    pub fn get_connect_test_url(&self) -> (r: &'static str)
        ensures
            r@ == self.spec_connect_test_url(),
    {
        match self {
            PluginMode::CloudPE => "https://api.cloud-pe.cn/connecttest/",
            PluginMode::HotPE => "https://api.hotpe.top/API/HotPE/GetHPMList/",
            PluginMode::Edgeless => "https://api.cloud-pe.cn/EdgelessPlugins/",
            PluginMode::Select => "",
        }
    }

    pub open spec fn spec_plugin_folder(self) -> Seq<char> {
        match self {
            PluginMode::CloudPE => "ce-apps"@,
            PluginMode::HotPE => "HotPEModule"@,
            PluginMode::Edgeless => "Edgeless\\Resource"@,
            PluginMode::Select => ""@,
        }
    }

    pub fn get_plugin_folder(&self) -> (r: &'static str)
        ensures
            r@ == self.spec_plugin_folder(),
    {
        match self {
            PluginMode::CloudPE => "ce-apps",
            PluginMode::HotPE => "HotPEModule",
            PluginMode::Edgeless => "Edgeless\\Resource",
            PluginMode::Select => "",
        }
    }

    pub open spec fn spec_enabled_extension(self) -> Seq<char> {
        match self {
            PluginMode::CloudPE => "ce"@,
            PluginMode::HotPE => "HPM"@,
            PluginMode::Edgeless => "7z"@,
            PluginMode::Select => ""@,
        }
    }

    pub fn get_enabled_extension(&self) -> (r: &'static str)
        ensures
            r@ == self.spec_enabled_extension(),
    {
        match self {
            PluginMode::CloudPE => "ce",
            PluginMode::HotPE => "HPM",
            PluginMode::Edgeless => "7z",
            PluginMode::Select => "",
        }
    }

    pub open spec fn spec_disabled_extension(self) -> Seq<char> {
        match self {
            PluginMode::CloudPE => "CBK"@,
            PluginMode::HotPE => "hpm.off"@,
            PluginMode::Edgeless => "7zf"@,
            PluginMode::Select => ""@,
        }
    }

    pub fn get_disabled_extension(&self) -> (r: &'static str)
        ensures
            r@ == self.spec_disabled_extension(),
    {
        match self {
            PluginMode::CloudPE => "CBK",
            PluginMode::HotPE => "hpm.off",
            PluginMode::Edgeless => "7zf",
            PluginMode::Select => "",
        }
    }

    pub open spec fn spec_plugin_market_name(self) -> Seq<char> {
        match self {
            PluginMode::HotPE => "模块市场"@,
            _ => "插件市场"@,
        }
    }

    pub fn get_plugin_market_name(&self) -> (r: &'static str)
        ensures
            r@ == self.spec_plugin_market_name(),
    {
        match self {
            PluginMode::HotPE => "模块市场",
            _ => "插件市场",
        }
    }

    pub open spec fn spec_plugin_manage_name(self) -> Seq<char> {
        match self {
            PluginMode::HotPE => "模块管理"@,
            _ => "插件管理"@,
        }
    }

    pub fn get_plugin_manage_name(&self) -> (r: &'static str)
        ensures
            r@ == self.spec_plugin_manage_name(),
    {
        match self {
            PluginMode::HotPE => "模块管理",
            _ => "插件管理",
        }
    }

    pub open spec fn spec_title(self) -> Seq<char> {
        match self {
            PluginMode::CloudPE => "Cloud-PE 插件市场"@,
            PluginMode::HotPE => "HotPE 模块下载"@,
            PluginMode::Edgeless => "Edgeless 插件下载"@,
            PluginMode::Select => "选择插件源"@,
        }
    }

    pub fn get_title(&self) -> (r: &'static str)
        ensures
            r@ == self.spec_title(),
    {
        match self {
            PluginMode::CloudPE => "Cloud-PE 插件市场",
            PluginMode::HotPE => "HotPE 模块下载",
            PluginMode::Edgeless => "Edgeless 插件下载",
            PluginMode::Select => "选择插件源",
        }
    }

    pub open spec fn spec_server_name(self) -> Seq<char> {
        match self {
            PluginMode::CloudPE => "Cloud-PE"@,
            PluginMode::HotPE => "HotPE"@,
            PluginMode::Edgeless => "Edgeless"@,
            PluginMode::Select => ""@,
        }
    }

    pub fn get_server_name(&self) -> (r: &'static str)
        ensures
            r@ == self.spec_server_name(),
    {
        match self {
            PluginMode::CloudPE => "Cloud-PE",
            PluginMode::HotPE => "HotPE",
            PluginMode::Edgeless => "Edgeless",
            PluginMode::Select => "",
        }
    }
}

} // verus!
