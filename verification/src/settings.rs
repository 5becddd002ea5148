//! Application configuration.
//!
//! The configuration file itself is read and written outside this crate;
//! here live the configuration values, their defaults, and the rules that
//! turn a submitted settings form into a new configuration.

use vstd::prelude::*;

use crate::currency::{spec_currency_from_code, Currency};

verus! {

/// Default portfolio update interval in seconds (one hour).
pub const DEFAULT_PORTFOLIO_UPDATE_TIME_S: u64 = 60 * 60;

/// Whether the application trades live or replays canned demo data.
#[derive(Debug, Clone, Copy, PartialEq, Eq, Structural)]
pub enum Mode {
    /// Live mode.
    Live,
    /// Demo mode.
    Demo,
}

/// The name of a mode, as a character sequence.
pub open spec fn spec_mode_name(m: Mode) -> Seq<char> {
    match m {
        Mode::Live => "Live"@,
        Mode::Demo => "Demo"@,
    }
}

impl Mode {
    /// The name of the mode.
    pub fn as_str(&self) -> (r: &'static str)
        ensures
            r@ == spec_mode_name(*self),
    {
        match self {
            Mode::Live => "Live",
            Mode::Demo => "Demo",
        }
    }
}

impl Default for Mode {
    /// Demo mode, so the application works without an account.
    fn default() -> (r: Self)
        ensures
            r == Mode::Demo,
    {
        Mode::Demo
    }
}

/// Configuration of the running application.
#[derive(Debug, PartialEq)]
pub struct Config {
    /// Application mode (live or demo).
    pub mode: Mode,
    /// API key for broker authentication (optional in demo mode).
    pub api_key: Option<String>,
    /// Reference currency for portfolio valuations.
    pub currency: Currency,
    /// Seconds between automatic portfolio refreshes; zero disables the
    /// timer and leaves only explicit update signals.
    pub portfolio_update_interval: u64,
}

impl Clone for Config {
    /// A field-for-field copy.
    fn clone(&self) -> (r: Self)
        ensures
            r == *self,
    {
        Config {
            mode: self.mode,
            api_key: match &self.api_key {
                Option::Some(k) => Option::Some(k.clone()),
                Option::None => Option::None,
            },
            currency: self.currency,
            portfolio_update_interval: self.portfolio_update_interval,
        }
    }
}

/// Returns the default portfolio update interval in seconds.
pub fn default_timeout() -> (r: u64)
    ensures
        r == DEFAULT_PORTFOLIO_UPDATE_TIME_S,
{
    DEFAULT_PORTFOLIO_UPDATE_TIME_S
}

impl Default for Config {
    /// Demo mode, no API key, reference currency, hourly refresh.
    fn default() -> (r: Self)
        ensures
            r.mode == Mode::Demo,
            r.api_key is None,
            r.currency == Currency::GBP,
            r.portfolio_update_interval == DEFAULT_PORTFOLIO_UPDATE_TIME_S,
    {
        Config {
            mode: Mode::default(),
            api_key: Option::None,
            currency: Currency::default(),
            portfolio_update_interval: default_timeout(),
        }
    }
}

/// A submitted settings form, already decoded into plain values.
#[derive(Debug, Clone)]
pub struct UpdateSettingsForm {
    /// New API key, if one was entered.
    pub api_key: Option<String>,
    /// Currency code text.
    pub currency: String,
    /// Mode name text.
    pub mode: String,
    /// New refresh interval in seconds.
    pub portfolio_update_interval_secs: u64,
}

/// The mode a form names: exactly `Live` selects live mode, anything
/// else falls back to demo mode.
pub open spec fn spec_mode_from_form(s: Seq<char>) -> Mode {
    if s == "Live"@ {
        Mode::Live
    } else {
        Mode::Demo
    }
}

/// The configuration has live mode selected but no usable API key: the
/// key is absent or blank.
pub open spec fn spec_live_key_missing(c: Config) -> bool {
    c.mode == Mode::Live && match c.api_key {
        Option::Some(k) => crate::text::spec_is_blank(k@),
        Option::None => true,
    }
}

impl Config {
    /// The configuration a submitted settings form describes.  Every field
    /// comes from the form: an unknown currency code is kept as
    /// `UnSupported` and an unknown mode name falls back to demo mode.
    pub fn apply_update(form: &UpdateSettingsForm) -> (r: Config)
        ensures
            r.api_key == form.api_key,
            r.currency == spec_currency_from_code(form.currency@),
            r.mode == spec_mode_from_form(form.mode@),
            r.portfolio_update_interval == form.portfolio_update_interval_secs,
    {
        let mode = if crate::text::str_eq(form.mode.as_str(), "Live") {
            Mode::Live
        } else {
            Mode::Demo
        };
        Config {
            mode,
            api_key: match &form.api_key {
                Option::Some(k) => Option::Some(k.clone()),
                Option::None => Option::None,
            },
            currency: Currency::from_code(form.currency.as_str()),
            portfolio_update_interval: form.portfolio_update_interval_secs,
        }
    }

    /// Live mode is selected but no usable API key is configured.  Such a
    /// configuration must be surfaced distinctly from a transient failure.
    pub fn live_key_missing(&self) -> (r: bool)
        ensures
            r == spec_live_key_missing(*self),
    {
        match self.mode {
            Mode::Live => match &self.api_key {
                Option::Some(k) => crate::text::str_is_blank(k.as_str()),
                Option::None => true,
            },
            Mode::Demo => false,
        }
    }
}

/// Everything the settings page shows: the configuration and, when live
/// mode lacks a usable API key, the warning to display.
#[derive(Debug)]
pub struct SettingsTemplate {
    /// The configuration being shown.
    pub settings: Config,
    /// Warning about a missing API key, present exactly when live mode
    /// is selected without one.
    pub error_message: Option<String>,
}

/// Builds the settings page data for a configuration.
pub fn settings_view(config: &Config) -> (r: SettingsTemplate)
    ensures
        r.settings == *config,
        match r.error_message {
            Option::Some(m) => spec_live_key_missing(*config) && m@
                == "Trading212 API key is missing or invalid. Please enter a valid API key to use Live mode."@,
            Option::None => !spec_live_key_missing(*config),
        },
{
    let error_message = if config.live_key_missing() {
        Option::Some(
            "Trading212 API key is missing or invalid. Please enter a valid API key to use Live mode.".to_owned(),
        )
    } else {
        Option::None
    };
    SettingsTemplate { settings: config.clone(), error_message }
}

} // verus!
