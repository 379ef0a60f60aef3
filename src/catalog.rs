use crate::state::str_equal;
use vstd::prelude::*;

verus! {

/// Key of a configuration record that names its plugin.
pub const CONFIG_PLUGIN_NAME_KEY: &'static str = "name";

/// A value of a plugin configuration record, as far as the catalog reads it.
#[derive(Clone, Debug)]
pub enum ConfigValue {
    Str(String),
    /// A value of any other type.
    Other,
}

/// A plugin configuration record: its entries, each a key and a value.
#[derive(Clone, Debug)]
pub struct PluginRecord {
    pub entries: Vec<(String, ConfigValue)>,
}

/// The position of the first entry at or after `k` whose key is `key`.
pub open spec fn first_key_from(es: Seq<(String, ConfigValue)>, key: Seq<char>, k: int) -> Option<int>
    decreases es.len() - k,
{
    if k < 0 || k >= es.len() {
        None
    } else if es[k].0@ == key {
        Some(k)
    } else {
        first_key_from(es, key, k + 1)
    }
}

/// The value of a record's `name` entry, if it has one.
pub open spec fn name_value(cfg: PluginRecord) -> Option<ConfigValue> {
    match first_key_from(cfg.entries@, CONFIG_PLUGIN_NAME_KEY@, 0) {
        Some(i) => Some(cfg.entries@[i].1),
        None => None,
    }
}

/// Finds the first entry of a record whose key is `key`.
pub fn find_key(cfg: &PluginRecord, key: &str) -> (r: Option<usize>)
    ensures
        r matches Some(i) ==> i < cfg.entries@.len() && first_key_from(cfg.entries@, key@, 0) == Some(
            i as int,
        ),
        r is None ==> first_key_from(cfg.entries@, key@, 0) is None,
{
    let mut i: usize = 0;
    while i < cfg.entries.len()
        invariant
            i <= cfg.entries@.len(),
            first_key_from(cfg.entries@, key@, 0) == first_key_from(cfg.entries@, key@, i as int),
        decreases cfg.entries@.len() - i,
    {
        if str_equal(cfg.entries[i].0.as_str(), key) {
            return Some(i);
        }
        i = i + 1;
    }
    None
}

/// The plugins of the catalog.
pub enum PluginKind {
    AssignWariness,
    ChannelFilter,
    EdgeAddRemove,
    NodeRemove,
    QuayMetadata,
    CincinnatiGraphFetch,
}

/// The plugin that a name selects, if any.
pub open spec fn plugin_kind_spec(name: Seq<char>) -> Option<PluginKind> {
    if name == "assign-wariness"@ {
        Some(PluginKind::AssignWariness)
    } else if name == "channel-filter"@ {
        Some(PluginKind::ChannelFilter)
    } else if name == "edge-add-remove"@ {
        Some(PluginKind::EdgeAddRemove)
    } else if name == "node-remove"@ {
        Some(PluginKind::NodeRemove)
    } else if name == "quay-metadata"@ {
        Some(PluginKind::QuayMetadata)
    } else if name == "cincinnati-graph-fetch"@ {
        Some(PluginKind::CincinnatiGraphFetch)
    } else {
        None
    }
}

/// Looks a plugin up by name.
pub fn plugin_kind(name: &str) -> (r: Option<PluginKind>)
    ensures
        r == plugin_kind_spec(name@),
{
    if str_equal(name, "assign-wariness") {
        Some(PluginKind::AssignWariness)
    } else if str_equal(name, "channel-filter") {
        Some(PluginKind::ChannelFilter)
    } else if str_equal(name, "edge-add-remove") {
        Some(PluginKind::EdgeAddRemove)
    } else if str_equal(name, "node-remove") {
        Some(PluginKind::NodeRemove)
    } else if str_equal(name, "quay-metadata") {
        Some(PluginKind::QuayMetadata)
    } else if str_equal(name, "cincinnati-graph-fetch") {
        Some(PluginKind::CincinnatiGraphFetch)
    } else {
        None
    }
}

/// Why a plugin configuration record was refused.
pub enum ConfigError {
    /// The record has no `name` entry.
    MissingPluginName,
    /// The `name` entry is not a string.
    InvalidPluginName,
    /// No plugin of the catalog has this name.
    UnknownPlugin(String),
}

/// The plugin selected by the `name` entry of a configuration record: `None`
/// when the record has no such entry, `Some(None)` when it is not a string.
pub fn plugin_for_name(name: Option<Option<String>>) -> (r: Result<PluginKind, ConfigError>)
    ensures
        name is None <==> r == Err::<PluginKind, ConfigError>(ConfigError::MissingPluginName),
        name == Some(None::<String>) <==> r == Err::<PluginKind, ConfigError>(
            ConfigError::InvalidPluginName,
        ),
        name matches Some(Some(n)) ==> match plugin_kind_spec(n@) {
            Some(k) => r == Ok::<PluginKind, ConfigError>(k),
            None => r == Err::<PluginKind, ConfigError>(ConfigError::UnknownPlugin(n)),
        },
{
    match name {
        None => Err(ConfigError::MissingPluginName),
        Some(None) => Err(ConfigError::InvalidPluginName),
        Some(Some(n)) => match plugin_kind(n.as_str()) {
            Some(k) => Ok(k),
            None => Err(ConfigError::UnknownPlugin(n)),
        },
    }
}

/// A validated plugin configuration: the plugin it selects and its record.
pub struct PluginSettings {
    pub kind: PluginKind,
    pub config: PluginRecord,
}

/// A plugin ready to run, built from its settings.
pub struct Plugin {
    pub kind: PluginKind,
}

impl PluginSettings {
    /// Builds the plugin that these settings describe.
    pub fn build_plugin(&self) -> (r: Result<Plugin, ConfigError>)
        ensures
            r matches Ok(p) && p.kind == self.kind,
    {
        let kind = match self.kind {
            PluginKind::AssignWariness => PluginKind::AssignWariness,
            PluginKind::ChannelFilter => PluginKind::ChannelFilter,
            PluginKind::EdgeAddRemove => PluginKind::EdgeAddRemove,
            PluginKind::NodeRemove => PluginKind::NodeRemove,
            PluginKind::QuayMetadata => PluginKind::QuayMetadata,
            PluginKind::CincinnatiGraphFetch => PluginKind::CincinnatiGraphFetch,
        };
        Ok(Plugin { kind })
    }
}

/// Validates a plugin configuration record: its `name` entry
/// (`CONFIG_PLUGIN_NAME_KEY`) must be a string naming a plugin of the catalog.
pub fn deserialize_config(cfg: PluginRecord) -> (r: Result<PluginSettings, ConfigError>)
    ensures
        name_value(cfg) is None ==> r == Err::<PluginSettings, ConfigError>(
            ConfigError::MissingPluginName,
        ),
        name_value(cfg) == Some(ConfigValue::Other) ==> r == Err::<PluginSettings, ConfigError>(
            ConfigError::InvalidPluginName,
        ),
        name_value(cfg) matches Some(ConfigValue::Str(n)) ==> match plugin_kind_spec(n@) {
            Some(k) => r matches Ok(s) && s.kind == k && s.config == cfg,
            None => r == Err::<PluginSettings, ConfigError>(ConfigError::UnknownPlugin(n)),
        },
{
    let name = match find_key(&cfg, CONFIG_PLUGIN_NAME_KEY) {
        None => None,
        Some(i) => match &cfg.entries[i].1 {
            ConfigValue::Str(n) => Some(Some(n.clone())),
            ConfigValue::Other => Some(None),
        },
    };
    match plugin_for_name(name) {
        Ok(kind) => Ok(PluginSettings { kind, config: cfg }),
        Err(e) => Err(e),
    }
}

/// Builds the plugins of a list of settings, in order.
pub fn build_plugins(policies: &Vec<PluginSettings>) -> (r: Result<Vec<Plugin>, ConfigError>)
    ensures
        r matches Ok(ps) ==> ps@.len() == policies@.len() && forall|i: int|
            0 <= i < ps@.len() ==> (#[trigger] ps@[i]).kind == policies@[i].kind,
        r is Ok,
{
    let mut plugins: Vec<Plugin> = Vec::new();
    let mut i: usize = 0;
    while i < policies.len()
        invariant
            i <= policies@.len(),
            plugins@.len() == i,
            forall|k: int| 0 <= k < i ==> (#[trigger] plugins@[k]).kind == policies@[k].kind,
        decreases policies@.len() - i,
    {
        match policies[i].build_plugin() {
            Ok(p) => plugins.push(p),
            Err(e) => return Err(e),
        }
        i = i + 1;
    }
    Ok(plugins)
}

} // verus!
