//! Monitor targets: the settings of one URL that is checked periodically.

use crate::method::{spec_from_uppercase, spec_invalid_method_message, uppercase_of, Method};
use vstd::prelude::*;

verus! {

/// Seconds between two checks of a target that names no interval.
pub const DEFAULT_INTERVAL_SECS: usize = 60;

/// The shortest period a check loop runs at, in seconds.
pub const MIN_PERIOD_SECS: u64 = 1;

/// A URL to check, with how often and by which method.
#[derive(Debug)]
pub struct UptimeSetting {
    pub url: String,
    pub interval: Option<usize>,
    pub method: Option<Method>,
    pub enabled: Option<bool>,
    pub name: String,
}

/// What an `UptimeSetting` holds, with its strings as sequences.
pub struct SettingView {
    pub url: Seq<char>,
    pub interval: Option<usize>,
    pub method: Option<Method>,
    pub enabled: Option<bool>,
    pub name: Seq<char>,
}

impl View for UptimeSetting {
    type V = SettingView;

    open spec fn view(&self) -> SettingView {
        SettingView {
            url: self.url@,
            interval: self.interval,
            method: self.method,
            enabled: self.enabled,
            name: self.name@,
        }
    }
}

impl DeepView for UptimeSetting {
    type V = SettingView;

    open spec fn deep_view(&self) -> SettingView {
        self@
    }
}

impl Clone for UptimeSetting {
    fn clone(&self) -> (copy: Self)
        ensures
            copy == *self,
    {
        UptimeSetting {
            url: self.url.clone(),
            interval: self.interval,
            method: self.method,
            enabled: self.enabled,
            name: self.name.clone(),
        }
    }
}

impl SettingView {
    /// Seconds between two checks as the target asks for them.
    pub open spec fn interval_secs(self) -> usize {
        match self.interval {
            Some(secs) => secs,
            None => DEFAULT_INTERVAL_SECS,
        }
    }

    /// Seconds between two checks as the check loop runs: never under one.
    pub open spec fn period_secs(self) -> u64 {
        if self.interval_secs() < MIN_PERIOD_SECS {
            MIN_PERIOD_SECS
        } else {
            self.interval_secs() as u64
        }
    }

    /// The method of the check: `GET` where the target names none.
    pub open spec fn method_or_default(self) -> Method {
        match self.method {
            Some(method) => method,
            None => Method::GET,
        }
    }

    /// Whether the target is stored as enabled: yes where it does not say.
    pub open spec fn enabled_or_default(self) -> bool {
        match self.enabled {
            Some(enabled) => enabled,
            None => true,
        }
    }

    /// Whether the target says that it is enabled.
    pub open spec fn is_enabled(self) -> bool {
        self.enabled == Some(true)
    }

    /// The stored row of the target, with every default filled in.
    pub open spec fn to_row(self) -> RowView {
        RowView {
            url: self.url,
            interval: Some(self.interval_secs()),
            method: self.method_or_default().spec_name(),
            enabled: Some(self.enabled_or_default()),
            name: self.name,
        }
    }
}

impl UptimeSetting {
    /// Seconds between two checks as the target asks for them.
    pub fn interval_secs(&self) -> (secs: usize)
        ensures
            secs == self@.interval_secs(),
    {
        match self.interval {
            Some(secs) => secs,
            None => DEFAULT_INTERVAL_SECS,
        }
    }

    /// Seconds between two checks as the check loop runs: never under one.
    pub fn period_secs(&self) -> (secs: u64)
        ensures
            secs == self@.period_secs(),
            secs >= MIN_PERIOD_SECS,
    {
        let asked = self.interval_secs();
        if asked < 1 {
            MIN_PERIOD_SECS
        } else {
            asked as u64
        }
    }

    /// The method of the check: `GET` where the target names none.
    pub fn method_or_default(&self) -> (method: Method)
        ensures
            method == self@.method_or_default(),
    {
        match self.method {
            Some(method) => method,
            None => Method::GET,
        }
    }

    /// Whether the target is stored as enabled: yes where it does not say.
    pub fn enabled_or_default(&self) -> (enabled: bool)
        ensures
            enabled == self@.enabled_or_default(),
    {
        match self.enabled {
            Some(enabled) => enabled,
            None => true,
        }
    }

    /// Whether the target says that it is enabled.
    pub fn is_enabled(&self) -> (enabled: bool)
        ensures
            enabled == self@.is_enabled(),
    {
        match self.enabled {
            Some(enabled) => enabled,
            None => false,
        }
    }

    /// Whether two targets hold the same settings.
    pub fn same_as(&self, other: &UptimeSetting) -> (same: bool)
        ensures
            same == (self@ == other@),
    {
        let same_interval = match (self.interval, other.interval) {
            (Some(a), Some(b)) => a == b,
            (None, None) => true,
            _ => false,
        };
        let same_method = match (self.method, other.method) {
            (Some(a), Some(b)) => a == b,
            (None, None) => true,
            _ => false,
        };
        let same_enabled = match (self.enabled, other.enabled) {
            (Some(a), Some(b)) => a == b,
            (None, None) => true,
            _ => false,
        };
        self.url == other.url && same_interval && same_method && same_enabled && self.name
            == other.name
    }

    /// The row under which the target is stored, with every default filled
    /// in.
    pub fn to_row(&self) -> (row: SettingRow)
        ensures
            row@ == self@.to_row(),
    {
        SettingRow {
            url: self.url.clone(),
            interval: Some(self.interval_secs()),
            method: self.method_or_default().to_string(),
            enabled: Some(self.enabled_or_default()),
            name: self.name.clone(),
        }
    }

    /// Reads a target back from its stored row. The row's method must be one
    /// of the four names, in any case.
    pub fn from_row(row: SettingRow) -> (read: Result<UptimeSetting, ConfigError>)
        ensures
            spec_from_row(row@) == match read {
                Ok(setting) => Ok::<SettingView, ConfigErrorView>(setting@),
                Err(error) => Err::<SettingView, ConfigErrorView>(error@),
            },
    {
        match Method::from_str(row.method.as_str()) {
            Ok(method) => Ok(
                UptimeSetting {
                    url: row.url,
                    interval: row.interval,
                    method: Some(method),
                    enabled: row.enabled,
                    name: row.name,
                },
            ),
            Err(message) => Err(ConfigError::InvalidMethod(message)),
        }
    }

    /// Checks what a setup call sent and makes a target of it. A payload
    /// without URL or name, or with a method that is none of the four, is
    /// rejected, and nothing is made of it.
    pub fn from_payload(payload: SetupPayload) -> (made: Result<UptimeSetting, ConfigError>)
        ensures
            spec_from_payload(payload@) == match made {
                Ok(setting) => Ok::<SettingView, ConfigErrorView>(setting@),
                Err(error) => Err::<SettingView, ConfigErrorView>(error@),
            },
    {
        let url = match payload.url {
            Some(url) => url,
            None => {
                return Err(ConfigError::MissingUrl);
            },
        };
        let name = match payload.name {
            Some(name) => name,
            None => {
                return Err(ConfigError::MissingName);
            },
        };
        let method = match payload.method {
            Some(text) => match Method::from_str(text.as_str()) {
                Ok(method) => Some(method),
                Err(message) => {
                    return Err(ConfigError::InvalidMethod(message));
                },
            },
            None => None,
        };
        Ok(UptimeSetting { url, interval: payload.interval, method, enabled: payload.enabled, name })
    }
}

/// A target as the settings table holds it.
#[derive(Debug)]
pub struct SettingRow {
    pub url: String,
    pub interval: Option<usize>,
    pub method: String,
    pub enabled: Option<bool>,
    pub name: String,
}

/// What a `SettingRow` holds, with its strings as sequences.
pub struct RowView {
    pub url: Seq<char>,
    pub interval: Option<usize>,
    pub method: Seq<char>,
    pub enabled: Option<bool>,
    pub name: Seq<char>,
}

impl View for SettingRow {
    type V = RowView;

    open spec fn view(&self) -> RowView {
        RowView {
            url: self.url@,
            interval: self.interval,
            method: self.method@,
            enabled: self.enabled,
            name: self.name@,
        }
    }
}

/// The fields of a setup call, each of which the caller may have left out.
#[derive(Debug)]
pub struct SetupPayload {
    pub url: Option<String>,
    pub interval: Option<usize>,
    pub method: Option<String>,
    pub enabled: Option<bool>,
    pub name: Option<String>,
}

/// What a `SetupPayload` holds, with its strings as sequences.
pub struct PayloadView {
    pub url: Option<Seq<char>>,
    pub interval: Option<usize>,
    pub method: Option<Seq<char>>,
    pub enabled: Option<bool>,
    pub name: Option<Seq<char>>,
}

impl View for SetupPayload {
    type V = PayloadView;

    open spec fn view(&self) -> PayloadView {
        PayloadView {
            url: match self.url {
                Some(url) => Some(url@),
                None => None,
            },
            interval: self.interval,
            method: match self.method {
                Some(method) => Some(method@),
                None => None,
            },
            enabled: self.enabled,
            name: match self.name {
                Some(name) => Some(name@),
                None => None,
            },
        }
    }
}

/// Why settings were rejected.
#[derive(Debug)]
pub enum ConfigError {
    /// The setup call names no URL.
    MissingUrl,
    /// The setup call names no display name.
    MissingName,
    /// The method is none of the four; the message quotes it.
    InvalidMethod(String),
}

/// What a `ConfigError` holds, with its message as a sequence.
pub enum ConfigErrorView {
    MissingUrl,
    MissingName,
    InvalidMethod(Seq<char>),
}

impl View for ConfigError {
    type V = ConfigErrorView;

    open spec fn view(&self) -> ConfigErrorView {
        match self {
            ConfigError::MissingUrl => ConfigErrorView::MissingUrl,
            ConfigError::MissingName => ConfigErrorView::MissingName,
            ConfigError::InvalidMethod(message) => ConfigErrorView::InvalidMethod(message@),
        }
    }
}

impl ConfigError {
    /// The error in words.
    pub fn message(&self) -> (text: String)
        ensures
            text@ == match self@ {
                ConfigErrorView::MissingUrl => "missing field `url`"@,
                ConfigErrorView::MissingName => "missing field `name`"@,
                ConfigErrorView::InvalidMethod(message) => message,
            },
    {
        match self {
            ConfigError::MissingUrl => "missing field `url`".to_owned(),
            ConfigError::MissingName => "missing field `name`".to_owned(),
            ConfigError::InvalidMethod(message) => message.clone(),
        }
    }
}

/// The target that a stored row stands for, or why it stands for none.
pub open spec fn spec_from_row(row: RowView) -> Result<SettingView, ConfigErrorView> {
    match spec_from_uppercase(uppercase_of(row.method)) {
        Some(method) => Ok(
            SettingView {
                url: row.url,
                interval: row.interval,
                method: Some(method),
                enabled: row.enabled,
                name: row.name,
            },
        ),
        None => Err(ConfigErrorView::InvalidMethod(spec_invalid_method_message(row.method))),
    }
}

/// The target that a setup call asks for, or why it is rejected.
pub open spec fn spec_from_payload(payload: PayloadView) -> Result<SettingView, ConfigErrorView> {
    if payload.url is None {
        Err(ConfigErrorView::MissingUrl)
    } else if payload.name is None {
        Err(ConfigErrorView::MissingName)
    } else if payload.method is Some && spec_from_uppercase(uppercase_of(payload.method->0))
        is None {
        Err(ConfigErrorView::InvalidMethod(spec_invalid_method_message(payload.method->0)))
    } else {
        Ok(
            SettingView {
                url: payload.url->0,
                interval: payload.interval,
                method: match payload.method {
                    Some(text) => spec_from_uppercase(uppercase_of(text)),
                    None => None,
                },
                enabled: payload.enabled,
                name: payload.name->0,
            },
        )
    }
}

} // verus!
