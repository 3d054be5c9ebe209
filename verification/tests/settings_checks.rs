use thumbor_rust::settings::{conf, Settings, SettingsStore};

#[test]
fn test_settings() {
    let mut store = SettingsStore::new(Settings::default());
    Settings::start(&mut store);
    let conf = Settings::current(&store);
    assert_eq!(conf.debug, false);
    assert_eq!(conf.secret_key, "");
}

#[test]
fn test_settings_from_file() {
    let mut store = SettingsStore::new(Settings::default());
    let conf = Settings::current(&store);

    Settings { secret_key: "ANY_KEY".to_string(), debug: true }.make_current(&mut store);
    let new_conf = Settings::current(&store);

    assert_eq!(conf.debug, false);
    assert_eq!(conf.secret_key, "");

    assert_eq!(new_conf.debug, true);
    assert_eq!(new_conf.secret_key, "ANY_KEY");
}

#[test]
fn start_restores_the_boot_settings() {
    let boot = Settings { secret_key: "BOOT_KEY".to_string(), debug: true };
    let mut store = SettingsStore::new(boot);
    // Until start, the defaults are in force.
    assert_eq!(conf(&store).secret_key, "");
    Settings::start(&mut store);
    assert_eq!(conf(&store).secret_key, "BOOT_KEY");
    assert_eq!(conf(&store).debug, true);
    // A replacement holds until the next start.
    Settings::default().make_current(&mut store);
    assert_eq!(conf(&store).secret_key, "");
    Settings::start(&mut store);
    assert_eq!(conf(&store).secret_key, "BOOT_KEY");
}
