use graph_builder::catalog::{
    build_plugins, deserialize_config, plugin_for_name, ConfigError, ConfigValue, PluginKind,
    PluginRecord,
};

fn to_record(value: &toml::Value) -> PluginRecord {
    let entries = match value.as_table() {
        Some(table) => table
            .iter()
            .map(|(k, v)| {
                let v = match v.as_str() {
                    Some(s) => ConfigValue::Str(s.to_string()),
                    None => ConfigValue::Other,
                };
                (k.clone(), v)
            })
            .collect(),
        None => Vec::new(),
    };
    PluginRecord { entries }
}

fn value(text: &str) -> PluginRecord {
    to_record(&toml::from_str(text).unwrap())
}

#[test]
fn record_without_name_is_refused() {
    assert!(matches!(deserialize_config(value("")), Err(ConfigError::MissingPluginName)));
    assert!(matches!(
        deserialize_config(value("foo = 'bar'")),
        Err(ConfigError::MissingPluginName)
    ));
    assert!(matches!(deserialize_config(value("name = 3")), Err(ConfigError::InvalidPluginName)));
}

#[test]
fn known_plugins_deserialize_and_build() {
    let nr = deserialize_config(value("name = 'node-remove'")).ok().unwrap();
    assert!(matches!(nr.kind, PluginKind::NodeRemove));
    nr.build_plugin().ok().unwrap();
    let qm = deserialize_config(value("name = \"quay-metadata\"\nrepository = \"mytest\"\n"))
        .ok()
        .unwrap();
    assert!(matches!(qm.kind, PluginKind::QuayMetadata));
    let plugins = build_plugins(&vec![nr, qm]).ok().unwrap();
    assert_eq!(plugins.len(), 2);
    assert!(matches!(plugins[1].kind, PluginKind::QuayMetadata));
}

#[test]
fn unknown_plugin_is_refused() {
    match deserialize_config(value("name = 'does-not-exist'")) {
        Err(ConfigError::UnknownPlugin(n)) => assert_eq!(n, "does-not-exist"),
        _ => panic!("expected an unknown plugin"),
    }
    assert!(matches!(plugin_for_name(None), Err(ConfigError::MissingPluginName)));
}

#[test]
fn deserialize_basic() {
    let empty: toml::Value = toml::from_str("").unwrap();
    assert!(deserialize_config(to_record(&empty)).is_err());

    let no_name: toml::Value = toml::from_str("foo = 'bar'").unwrap();
    assert!(deserialize_config(to_record(&no_name)).is_err());

    let node_remove_default: toml::Value = toml::from_str("name = 'node-remove'").unwrap();
    let nr_settings = deserialize_config(to_record(&node_remove_default)).ok().unwrap();
    assert!(nr_settings.build_plugin().is_ok());

    let cfg = r#"
            name = "quay-metadata"
            repository = "mytest"
        "#;
    let quay_metadata_repo: toml::Value = toml::from_str(cfg).unwrap();
    let qm_settings = deserialize_config(to_record(&quay_metadata_repo)).ok().unwrap();
    assert!(qm_settings.build_plugin().is_ok());
}

#[test]
fn first_name_entry_decides() {
    let record = PluginRecord {
        entries: vec![
            ("repository".to_string(), ConfigValue::Str("x".to_string())),
            ("name".to_string(), ConfigValue::Str("channel-filter".to_string())),
        ],
    };
    let s = deserialize_config(record).ok().unwrap();
    assert!(matches!(s.kind, PluginKind::ChannelFilter));
    assert_eq!(s.config.entries.len(), 2);
    let bad = PluginRecord { entries: vec![("name".to_string(), ConfigValue::Other)] };
    assert!(matches!(deserialize_config(bad), Err(ConfigError::InvalidPluginName)));
}
