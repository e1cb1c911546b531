//! Settings and credentials.

use appear_x_gateway::config::{
    default_10, default_15, default_30, default_5, default_alarms_mmi_version,
    default_cards_mmi_version, default_chassis_mmi_version, default_credentials_file,
    default_rx_threshold, default_temp_threshold, default_true, AppConfig, AppearXConfig,
    ConfigError, ManagerConfig, PollingConfig,
};
use appear_x_gateway::credentials::Credentials;

fn manager(urls: Vec<String>) -> ManagerConfig {
    ManagerConfig {
        urls,
        registration_token: Some("token".to_string()),
        credentials_file: default_credentials_file(),
        accept_self_signed_cert: false,
        cert_fingerprint: None,
    }
}

fn config(urls: Vec<String>, address: &str) -> AppConfig {
    AppConfig {
        manager: manager(urls),
        appear_x: AppearXConfig {
            address: address.to_string(),
            username: "admin".to_string(),
            password: "secret".to_string(),
            accept_self_signed_cert: default_true(),
            cert_fingerprint: None,
            reachability_failure_threshold: 2,
            reachability_event_dwell_secs: 30,
        },
        polling: PollingConfig {
            alarms_interval_secs: default_10(),
            chassis_interval_secs: default_30(),
            inputs_interval_secs: default_15(),
            outputs_interval_secs: default_15(),
            alarms_mmi_version: default_alarms_mmi_version(),
            chassis_mmi_version: default_chassis_mmi_version(),
            cards_mmi_version: default_cards_mmi_version(),
            cards_interval_secs: default_30(),
            card_status_interval_secs: default_5(),
            xger_config_interval_secs: default_30(),
            sfp_low_rx_dbm_threshold: default_rx_threshold(),
            sfp_high_temp_c_threshold: default_temp_threshold(),
        },
    }
}

fn urls(list: &[&str]) -> Vec<String> {
    list.iter().map(|s| s.to_string()).collect()
}

fn refusal(c: AppConfig) -> String {
    AppConfig::load_for_command(c, false).unwrap_err().message()
}

#[test]
fn defaults() {
    assert_eq!(default_credentials_file(), "credentials.json");
    assert!(default_true());
    assert_eq!((default_5(), default_10(), default_15(), default_30()), (5, 10, 15, 30));
    assert_eq!(default_alarms_mmi_version(), "2.8");
    assert_eq!(default_chassis_mmi_version(), "4.1");
    assert_eq!(default_cards_mmi_version(), "2.8");
    assert_eq!(f64::from_bits(default_rx_threshold().bits), -18.0);
    assert_eq!(f64::from_bits(default_temp_threshold().bits), 70.0);
}

#[test]
fn good_settings_are_accepted() {
    let c = config(urls(&["wss://a:8443/ws/node", "wss://b:8443/ws/node"]), "192.168.1.100");
    let c = AppConfig::load_for_command(c, false).unwrap();
    assert_eq!(c.manager.urls.len(), 2);
    assert_eq!(c.appear_x.address, "192.168.1.100");
}

#[test]
fn the_probe_needs_no_manager() {
    assert!(AppConfig::load_for_command(config(vec![], "unit"), true).is_ok());
    let e = AppConfig::load_for_command(config(vec![], ""), true).unwrap_err();
    assert!(matches!(e, ConfigError::NoAddress));
    assert_eq!(e.message(), "Appear X address must not be empty");
}

#[test]
fn each_refusal_has_its_words() {
    assert_eq!(refusal(config(vec![], "u")), "Manager urls[] cannot be empty");
    let many: Vec<String> = (0..17).map(|i| format!("wss://{i}")).collect();
    assert_eq!(
        refusal(config(many, "u")),
        "Manager urls[] may contain at most 16 entries (got 17)"
    );
    assert_eq!(
        refusal(config(urls(&["wss://a", "ws://\"b\""]), "u")),
        "Manager urls[1] = \"ws://\\\"b\\\"\" must use wss:// (TLS). Plaintext ws:// connections \
         are not allowed."
    );
    let long = format!("wss://{}", "x".repeat(2043));
    assert_eq!(
        refusal(config(vec![long], "u")),
        "Manager urls[0] must be at most 2048 characters"
    );
    assert_eq!(
        refusal(config(urls(&["wss://a", "wss://b", "wss://a"]), "u")),
        "Manager urls[2] = \"wss://a\" is a duplicate"
    );
    assert_eq!(refusal(config(urls(&["wss://a"]), "")), "Appear X address must not be empty");
}

#[test]
fn the_first_fault_is_told() {
    assert!(matches!(
        AppConfig::load_for_command(config(urls(&["wss://a", "http://b", "wss://a"]), ""), false),
        Err(ConfigError::NotEncrypted { index: 1, .. })
    ));
}

#[test]
fn sixteen_addresses_of_full_length_are_accepted() {
    let list: Vec<String> =
        (0..16).map(|i| format!("wss://{}{i:02}", "x".repeat(2040))).collect();
    assert!(list.iter().all(|u| u.len() == 2048));
    assert!(AppConfig::load_for_command(config(list, "u"), false).is_ok());
}

#[test]
fn the_length_is_counted_in_bytes() {
    let wide = format!("wss://{}", "é".repeat(1022));
    assert!(matches!(
        AppConfig::load_for_command(config(vec![wide], "u"), false),
        Err(ConfigError::UrlTooLong { index: 0 })
    ));
}

#[test]
fn stored_credentials_count_only_if_complete() {
    let m = manager(urls(&["wss://a"]));
    let full = Credentials {
        node_id: Some("n".to_string()),
        node_secret: Some("s".to_string()),
        registration_token: None,
    };
    let c = Credentials::load_or_default(&m, Some(full));
    assert!(c.has_credentials());
    assert_eq!(c.node_id.as_deref(), Some("n"));
    let half = Credentials {
        node_id: Some("n".to_string()),
        node_secret: None,
        registration_token: None,
    };
    assert!(!half.has_credentials());
    let c = Credentials::load_or_default(&m, Some(half));
    assert!(!c.has_credentials());
    assert_eq!(c.node_id, None);
    assert_eq!(c.registration_token.as_deref(), Some("token"));
    let mut c = Credentials::load_or_default(&m, None);
    c.register("id", "sec");
    assert!(c.has_credentials());
    assert_eq!(c.registration_token, None);
}
