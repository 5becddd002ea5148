use t212_portfolio_analytics::currency::Currency;
use t212_portfolio_analytics::settings::{
    default_timeout, settings_view, Config, Mode, UpdateSettingsForm,
};

/// Test that Config has correct default values
#[test]
fn test_config_default() {
    let config = Config::default();
    assert_eq!(config.mode, Mode::Demo);
    assert_eq!(config.api_key, None);
    assert_eq!(config.currency, Currency::GBP);
    assert_eq!(config.portfolio_update_interval, default_timeout());
}

#[test]
fn test_default_timeout_is_one_hour() {
    assert_eq!(default_timeout(), 3600);
}

#[test]
fn test_mode_names() {
    assert_eq!(Mode::Live.as_str(), "Live");
    assert_eq!(Mode::Demo.as_str(), "Demo");
    assert_eq!(Mode::default(), Mode::Demo);
}

#[test]
fn test_apply_update_sets_every_field() {
    let form = UpdateSettingsForm {
        api_key: Some("k-123".to_string()),
        currency: "usd".to_string(),
        mode: "Live".to_string(),
        portfolio_update_interval_secs: 1800,
    };
    let config = Config::apply_update(&form);
    assert_eq!(config.mode, Mode::Live);
    assert_eq!(config.api_key, Some("k-123".to_string()));
    assert_eq!(config.currency, Currency::USD);
    assert_eq!(config.portfolio_update_interval, 1800);
}

#[test]
fn test_apply_update_unknown_mode_falls_back_to_demo() {
    let form = UpdateSettingsForm {
        api_key: None,
        currency: "XYZ".to_string(),
        mode: "Weird".to_string(),
        portfolio_update_interval_secs: 0,
    };
    let config = Config::apply_update(&form);
    assert_eq!(config.mode, Mode::Demo);
    assert_eq!(config.currency, Currency::UnSupported);
    assert_eq!(config.portfolio_update_interval, 0);
}

#[test]
fn test_live_key_missing() {
    let mut config = Config::default();
    assert!(!config.live_key_missing());

    config.mode = Mode::Live;
    assert!(config.live_key_missing());

    config.api_key = Some("   ".to_string());
    assert!(config.live_key_missing());

    config.api_key = Some("real-key".to_string());
    assert!(!config.live_key_missing());
}

#[test]
fn test_settings_view_warns_about_missing_key() {
    let mut config = Config::default();
    config.mode = Mode::Live;
    let view = settings_view(&config);
    assert_eq!(view.settings, config);
    let message = view.error_message.expect("a warning is owed");
    assert_eq!(
        message,
        "Trading212 API key is missing or invalid. Please enter a valid API key to use Live mode."
    );

    config.api_key = Some("real-key".to_string());
    let view = settings_view(&config);
    assert!(view.error_message.is_none());
}
