use kata_device_plugin::config::{
    Config, ConfigFile, ConfigOverrides, GpuConfig, GpuOverrides, NvswitchConfig,
    NvswitchOverrides, PluginConfig, PluginOverrides,
};

/// The value of a key, if it is given; none at all where it is of the wrong type.
fn get<T>(
    table: &toml::Table,
    key: &str,
    read: impl Fn(&toml::Value) -> Option<T>,
) -> Option<Option<T>> {
    match table.get(key) {
        Some(value) => read(value).map(Some),
        None => Some(None),
    }
}

fn text(table: &toml::Table, key: &str) -> Option<Option<String>> {
    get(table, key, |v| v.as_str().map(|s| s.to_owned()))
}

fn flag(table: &toml::Table, key: &str) -> Option<Option<bool>> {
    get(table, key, |v| v.as_bool())
}

/// What the sections of a file give; none at all where any of it is of the wrong type.
fn overrides(table: &toml::Table) -> Option<ConfigOverrides> {
    let section = |key| get(table, key, |v| v.as_table().cloned());
    let gpu = match section("gpu")? {
        Some(t) => Some(GpuOverrides {
            resource_name: text(&t, "resource_name")?,
        }),
        None => None,
    };
    let nvswitch = match section("nvswitch")? {
        Some(t) => Some(NvswitchOverrides {
            enabled: flag(&t, "enabled")?,
            resource_name: text(&t, "resource_name")?,
        }),
        None => None,
    };
    let plugin = match section("plugin")? {
        Some(t) => Some(PluginOverrides {
            cdi_dir: text(&t, "cdi_dir")?,
        }),
        None => None,
    };
    Some(ConfigOverrides { gpu, nvswitch, plugin })
}

/// What a reader of a configuration file hands to the library.
fn file(contents: &str) -> ConfigFile {
    let table: toml::Table = match toml::from_str(contents) {
        Ok(table) => table,
        Err(_) => return ConfigFile::Invalid,
    };
    match overrides(&table) {
        Some(overrides) => ConfigFile::Parsed(overrides),
        None => ConfigFile::Invalid,
    }
}

#[test]
fn defaults_when_file_missing() {
    let cfg = Config::load(ConfigFile::Missing);
    assert_eq!(cfg, Config::default());
}

#[test]
fn defaults_when_file_unreadable() {
    assert_eq!(Config::load(ConfigFile::Unreadable), Config::default());
}

#[test]
fn compiled_in_defaults() {
    let cfg = Config::default();
    assert_eq!(cfg.gpu.resource_name, "nvidia.com/gpu");
    assert!(!cfg.nvswitch.enabled);
    assert_eq!(cfg.nvswitch.resource_name, "nvidia.com/nvswitch");
    assert_eq!(cfg.plugin.cdi_dir, "/var/run/cdi");
}

#[test]
fn full_override() {
    let cfg = Config::load(file(
        r#"
            [gpu]
            resource_name = "example.com/gpu"

            [nvswitch]
            enabled = true
            resource_name = "example.com/nvswitch"

            [plugin]
            cdi_dir = "/tmp/cdi"
        "#,
    ));
    assert_eq!(cfg.gpu.resource_name, "example.com/gpu");
    assert!(cfg.nvswitch.enabled);
    assert_eq!(cfg.nvswitch.resource_name, "example.com/nvswitch");
    assert_eq!(cfg.plugin.cdi_dir, "/tmp/cdi");
}

#[test]
fn partial_override_keeps_defaults() {
    let cfg = Config::load(file(
        r#"
            [nvswitch]
            enabled = true
        "#,
    ));
    // Unmentioned sections keep their defaults.
    assert_eq!(cfg.gpu, GpuConfig::default());
    assert_eq!(cfg.plugin, PluginConfig::default());
    assert!(cfg.nvswitch.enabled);
    // Unmentioned fields within the section keep their defaults.
    assert_eq!(
        cfg.nvswitch.resource_name,
        NvswitchConfig::default().resource_name
    );
}

#[test]
fn empty_file_is_all_defaults() {
    assert_eq!(Config::load(file("")), Config::default());
}

#[test]
fn bad_toml_falls_back_to_defaults() {
    let cfg = Config::load(file("this is not valid toml ][[["));
    assert_eq!(cfg, Config::default());
}

#[test]
fn a_value_of_the_wrong_type_spoils_the_whole_file() {
    let gpu = "[gpu]\nresource_name = \"example.com/gpu\"\n";
    assert_eq!(Config::load(file(gpu)).gpu.resource_name, "example.com/gpu");
    for wrong in [
        "[nvswitch]\nenabled = \"yes\"",
        "[nvswitch]\nresource_name = 7",
        "[plugin]\ncdi_dir = true",
    ] {
        let contents = format!("{gpu}{wrong}");
        assert!(matches!(file(&contents), ConfigFile::Invalid));
        assert_eq!(Config::load(file(&contents)), Config::default());
    }
}

#[test]
fn hot_reload_detects_change() {
    let cfg1 = Config::load(file("[gpu]\nresource_name = \"a.com/gpu\""));
    let cfg2 = Config::load(file("[gpu]\nresource_name = \"b.com/gpu\""));
    assert_ne!(cfg1, cfg2);
    assert_eq!(cfg2.gpu.resource_name, "b.com/gpu");
}
