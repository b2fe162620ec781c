use vstd::prelude::*;

verus! {

/// Settings of the shell: bar height, clock format and layout spacing.
#[derive(Debug, Clone)]
pub struct Config {
    pub bar_height: i32,
    pub time_format: String,
    pub margin: i32,
    pub spacing: i32,
}

/// The clock format used when nothing else is configured.
pub open spec fn default_time_format() -> Seq<char> {
    "%b %e %l:%M %p"@
}

impl Config {
    /// The values of a freshly created configuration.
    pub open spec fn is_default(&self) -> bool {
        &&& self.bar_height == 30
        &&& self.time_format@ == default_time_format()
        &&& self.margin == 5
        &&& self.spacing == 15
    }
}

impl Default for Config {
    fn default() -> (c: Self)
        ensures
            c.is_default(),
    {
        Config {
            bar_height: 30,
            time_format: String::from_str("%b %e %l:%M %p"),
            margin: 5,
            spacing: 15,
        }
    }
}

/// A slot that is written once with the configuration and read afterwards.
pub struct ConfigStore {
    config: Option<Config>,
}

impl View for ConfigStore {
    type V = Option<Config>;

    closed spec fn view(&self) -> Option<Config> {
        self.config
    }
}

impl ConfigStore {
    /// An empty slot.
    pub fn new() -> (s: Self)
        ensures
            s@ is None,
    {
        ConfigStore { config: None }
    }

    /// Whether the configuration has been stored.
    pub fn is_initialized(&self) -> (b: bool)
        ensures
            b == self@ is Some,
    {
        self.config.is_some()
    }
}

/// The contents of the store after `cfg` was stored in an empty one.
pub open spec fn store_config(cfg: Config) -> Option<Config> {
    Some(cfg)
}

/// The configuration that a read of a filled store gives back.
pub open spec fn stored_config(contents: Option<Config>) -> Config {
    contents->0
}

/// Stores the loaded configuration; it may be stored only once.
pub fn init_config(store: &mut ConfigStore, cfg: Config)
    requires
        old(store)@ is None,
    ensures
        final(store)@ == store_config(cfg),
{
    store.config = Some(cfg);
}

/// The stored configuration; it must have been stored before.
pub fn get_config(store: &ConfigStore) -> (c: &Config)
    requires
        store@ is Some,
    ensures
        *c == stored_config(store@),
{
    store.config.as_ref().unwrap()
}

/// Reading the store after the configuration was stored gives back that configuration.
pub proof fn lemma_read_after_store(cfg: Config)
    ensures
        stored_config(store_config(cfg)) == cfg,
{
}

} // verus!
