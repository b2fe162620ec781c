use grr::config::{get_config, init_config, Config, ConfigStore};

#[test]
fn default_config_values() {
    let c = Config::default();
    assert_eq!(c.bar_height, 30);
    assert_eq!(c.time_format, "%b %e %l:%M %p");
    assert_eq!(c.margin, 5);
    assert_eq!(c.spacing, 15);
}

#[test]
fn store_gives_back_stored_config() {
    let mut store = ConfigStore::new();
    assert!(!store.is_initialized());
    let mut c = Config::default();
    c.bar_height = 42;
    c.time_format = String::from("%H:%M");
    init_config(&mut store, c);
    assert!(store.is_initialized());
    let got = get_config(&store);
    assert_eq!(got.bar_height, 42);
    assert_eq!(got.time_format, "%H:%M");
    assert_eq!(got.margin, 5);
}
