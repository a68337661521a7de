use dat_store::{get_settings, store_settings_in_global_state, Settings, SettingsCache};

fn settings(host: &str, port: u16) -> Settings {
    Settings { websocket_port: port + 1, http_port: port, host: host.to_string() }
}

#[test]
fn a_new_cache_is_empty() {
    let cache = SettingsCache::new();
    assert_eq!(get_settings(&cache), None);
}

#[test]
fn a_stored_value_is_read_back() {
    let mut cache = SettingsCache::new();
    store_settings_in_global_state(&mut cache, settings("10.0.0.5", 9000));
    assert_eq!(get_settings(&cache), Some(settings("10.0.0.5", 9000)));
}

#[test]
fn the_last_write_wins() {
    let mut cache = SettingsCache::new();
    store_settings_in_global_state(&mut cache, settings("first", 1));
    store_settings_in_global_state(&mut cache, settings("second", 2));
    assert_eq!(get_settings(&cache), Some(settings("second", 2)));
}

#[test]
fn a_reader_gets_a_copy() {
    let mut cache = SettingsCache::new();
    store_settings_in_global_state(&mut cache, settings("host", 80));
    let mut copy = get_settings(&cache).unwrap();
    copy.host.push_str(".changed");
    copy.http_port = 81;
    assert_eq!(get_settings(&cache), Some(settings("host", 80)));
}

#[test]
fn a_copy_of_settings_equals_what_was_copied() {
    let first = settings("example.org", 443);
    assert_eq!(first.duplicate(), first);
}

#[test]
fn caches_are_independent() {
    let mut one = SettingsCache::new();
    let two = SettingsCache::new();
    store_settings_in_global_state(&mut one, settings("one", 1));
    assert_eq!(get_settings(&two), None);
}
