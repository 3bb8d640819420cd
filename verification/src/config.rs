//! Settings of the plugin, with the defaults that stand where a file says nothing.
use vstd::prelude::*;

verus! {

/// The settings.
#[derive(Debug, Clone, PartialEq)]
pub struct Config {
    pub gpu: GpuConfig,
    pub nvswitch: NvswitchConfig,
    pub plugin: PluginConfig,
}

#[derive(Debug, Clone, PartialEq)]
pub struct GpuConfig {
    pub resource_name: String,
}

#[derive(Debug, Clone, PartialEq)]
pub struct NvswitchConfig {
    pub enabled: bool,
    pub resource_name: String,
}

#[derive(Debug, Clone, PartialEq)]
pub struct PluginConfig {
    pub cdi_dir: String,
}

/// What a configuration file says, section by section and field by field.
#[derive(Debug, Clone, PartialEq)]
pub struct ConfigOverrides {
    pub gpu: Option<GpuOverrides>,
    pub nvswitch: Option<NvswitchOverrides>,
    pub plugin: Option<PluginOverrides>,
}

#[derive(Debug, Clone, PartialEq)]
pub struct GpuOverrides {
    pub resource_name: Option<String>,
}

#[derive(Debug, Clone, PartialEq)]
pub struct NvswitchOverrides {
    pub enabled: Option<bool>,
    pub resource_name: Option<String>,
}

#[derive(Debug, Clone, PartialEq)]
pub struct PluginOverrides {
    pub cdi_dir: Option<String>,
}

/// What came of reading a configuration file.
#[derive(Debug, Clone, PartialEq)]
pub enum ConfigFile {
    /// There is no such file.
    Missing,
    /// It could not be read.
    Unreadable,
    /// It is not valid.
    Invalid,
    /// It says this.
    Parsed(ConfigOverrides),
}

/// What a `Config` says.
pub struct ConfigView {
    pub gpu_resource_name: Seq<char>,
    pub nvswitch_enabled: bool,
    pub nvswitch_resource_name: Seq<char>,
    pub cdi_dir: Seq<char>,
}

impl View for Config {
    type V = ConfigView;

    open spec fn view(&self) -> ConfigView {
        ConfigView {
            gpu_resource_name: self.gpu.resource_name@,
            nvswitch_enabled: self.nvswitch.enabled,
            nvswitch_resource_name: self.nvswitch.resource_name@,
            cdi_dir: self.plugin.cdi_dir@,
        }
    }
}

impl ConfigView {
    /// The compiled-in settings.
    pub open spec fn defaults() -> ConfigView {
        ConfigView {
            gpu_resource_name: "nvidia.com/gpu"@,
            nvswitch_enabled: false,
            nvswitch_resource_name: "nvidia.com/nvswitch"@,
            cdi_dir: "/var/run/cdi"@,
        }
    }

    /// The settings with what a file says put over them.
    pub open spec fn with(self, file: ConfigOverrides) -> ConfigView {
        ConfigView {
            gpu_resource_name: match file.gpu {
                Some(gpu) => text_or(gpu.resource_name, self.gpu_resource_name),
                None => self.gpu_resource_name,
            },
            nvswitch_enabled: match file.nvswitch {
                Some(nvswitch) => match nvswitch.enabled {
                    Some(enabled) => enabled,
                    None => self.nvswitch_enabled,
                },
                None => self.nvswitch_enabled,
            },
            nvswitch_resource_name: match file.nvswitch {
                Some(nvswitch) => text_or(nvswitch.resource_name, self.nvswitch_resource_name),
                None => self.nvswitch_resource_name,
            },
            cdi_dir: match file.plugin {
                Some(plugin) => text_or(plugin.cdi_dir, self.cdi_dir),
                None => self.cdi_dir,
            },
        }
    }

    /// The settings after a file was read. Only a valid file says anything.
    pub open spec fn loaded(file: ConfigFile) -> ConfigView {
        match file {
            ConfigFile::Parsed(overrides) => ConfigView::defaults().with(overrides),
            _ => ConfigView::defaults(),
        }
    }
}

/// The text, where there is one, else `default`.
pub open spec fn text_or(text: Option<String>, default: Seq<char>) -> Seq<char> {
    match text {
        Some(s) => s@,
        None => default,
    }
}

impl Default for GpuConfig {
    fn default() -> (r: Self)
        ensures
            r.resource_name@ == ConfigView::defaults().gpu_resource_name,
    {
        GpuConfig { resource_name: "nvidia.com/gpu".to_owned() }
    }
}

impl Default for NvswitchConfig {
    fn default() -> (r: Self)
        ensures
            r.enabled == ConfigView::defaults().nvswitch_enabled,
            r.resource_name@ == ConfigView::defaults().nvswitch_resource_name,
    {
        NvswitchConfig { enabled: false, resource_name: "nvidia.com/nvswitch".to_owned() }
    }
}

impl Default for PluginConfig {
    fn default() -> (r: Self)
        ensures
            r.cdi_dir@ == ConfigView::defaults().cdi_dir,
    {
        PluginConfig { cdi_dir: "/var/run/cdi".to_owned() }
    }
}

impl Default for Config {
    fn default() -> (r: Self)
        ensures
            r@ == ConfigView::defaults(),
    {
        Config {
            gpu: GpuConfig::default(),
            nvswitch: NvswitchConfig::default(),
            plugin: PluginConfig::default(),
        }
    }
}

impl Config {
    /// The settings that a file gives, falling back to defaults on any error. A missing file is
    /// not an error: compiled-in defaults are used.
    pub fn load(file: ConfigFile) -> (r: Self)
        ensures
            r@ == ConfigView::loaded(file),
            r.gpu.resource_name@ == ConfigView::loaded(file).gpu_resource_name,
            r.nvswitch.enabled == ConfigView::loaded(file).nvswitch_enabled,
            r.nvswitch.resource_name@ == ConfigView::loaded(file).nvswitch_resource_name,
            r.plugin.cdi_dir@ == ConfigView::loaded(file).cdi_dir,
    {
        let mut config = Config::default();
        if let ConfigFile::Parsed(overrides) = file {
            if let Some(gpu) = overrides.gpu {
                if let Some(name) = gpu.resource_name {
                    config.gpu.resource_name = name;
                }
            }
            if let Some(nvswitch) = overrides.nvswitch {
                if let Some(enabled) = nvswitch.enabled {
                    config.nvswitch.enabled = enabled;
                }
                if let Some(name) = nvswitch.resource_name {
                    config.nvswitch.resource_name = name;
                }
            }
            if let Some(plugin) = overrides.plugin {
                if let Some(dir) = plugin.cdi_dir {
                    config.plugin.cdi_dir = dir;
                }
            }
        }
        config
    }
}

/// What a file does not mention keeps its default: unmentioned sections as a whole, and
/// unmentioned fields within a section.
pub proof fn law_unmentioned_keeps_default(file: ConfigOverrides)
    ensures
        ({
            let loaded = ConfigView::loaded(ConfigFile::Parsed(file));
            let defaults = ConfigView::defaults();
            &&& file.gpu is None || file.gpu->0.resource_name is None ==> loaded.gpu_resource_name
                == defaults.gpu_resource_name
            &&& file.nvswitch is None || file.nvswitch->0.enabled is None
                ==> loaded.nvswitch_enabled == defaults.nvswitch_enabled
            &&& file.nvswitch is None || file.nvswitch->0.resource_name is None
                ==> loaded.nvswitch_resource_name == defaults.nvswitch_resource_name
            &&& file.plugin is None || file.plugin->0.cdi_dir is None ==> loaded.cdi_dir
                == defaults.cdi_dir
        }),
{
}

/// A file that says nothing valid counts for nothing, whatever is wrong with it.
pub proof fn law_errors_give_defaults(file: ConfigFile)
    requires
        !(file is Parsed),
    ensures
        ConfigView::loaded(file) == ConfigView::defaults(),
{
}

/// What a valid file mentions is taken as it is, each field from its own section.
pub proof fn law_mentioned_is_taken(file: ConfigOverrides)
    ensures
        ({
            let loaded = ConfigView::loaded(ConfigFile::Parsed(file));
            &&& file.gpu matches Some(gpu) ==> (gpu.resource_name matches Some(name)
                ==> loaded.gpu_resource_name == name@)
            &&& file.nvswitch matches Some(nvswitch) ==> (nvswitch.enabled matches Some(enabled)
                ==> loaded.nvswitch_enabled == enabled)
            &&& file.nvswitch matches Some(nvswitch) ==> (nvswitch.resource_name matches Some(name)
                ==> loaded.nvswitch_resource_name == name@)
            &&& file.plugin matches Some(plugin) ==> (plugin.cdi_dir matches Some(dir)
                ==> loaded.cdi_dir == dir@)
        }),
{
}

/// Where a file is missing, unreadable or invalid, or does not mention a setting, the setting is
/// the compiled-in one: the names of NVIDIA's GPUs and NVSwitches, the latter not enabled, and
/// the registry of the host.
pub proof fn law_defaults_by_name(file: ConfigFile)
    ensures
        ({
            let loaded = ConfigView::loaded(file);
            let said = file->Parsed_0;
            &&& !(file is Parsed) || said.gpu is None || said.gpu->0.resource_name is None
                ==> loaded.gpu_resource_name == "nvidia.com/gpu"@
            &&& !(file is Parsed) || said.nvswitch is None || said.nvswitch->0.enabled is None
                ==> !loaded.nvswitch_enabled
            &&& !(file is Parsed) || said.nvswitch is None || said.nvswitch->0.resource_name is None
                ==> loaded.nvswitch_resource_name == "nvidia.com/nvswitch"@
            &&& !(file is Parsed) || said.plugin is None || said.plugin->0.cdi_dir is None
                ==> loaded.cdi_dir == "/var/run/cdi"@
        }),
{
}

} // verus!
