//! Alert classifier: maps a decoded alert's significance tier to a
//! presentation prefix and a target channel.
//!
//! Test-tier alerts go to the test channel and are suppressed entirely when
//! no test channel is configured; every other tier — including an unknown
//! one, which fails safe to the most visible marker — goes to the alert
//! channel with a tier-specific prefix.

use vstd::prelude::*;

use crate::text::{
    prefix_caution, prefix_caution_bytes, prefix_statement, prefix_statement_bytes, prefix_urgent,
    prefix_urgent_bytes, received_test, received_test_bytes,
};

verus! {

/// The severity classification of a decoded alert.
#[derive(Clone, Copy, PartialEq, Eq, Structural, Debug)]
pub enum SignificanceTier {
    Test,
    Statement,
    Watch,
    Warning,
    Emergency,
    Unknown,
}

/// The two configured mesh channels. A channel is a broadcast group in the
/// range 0 to 7; `test_channel` is `None` when test alerts are to be
/// suppressed.
#[derive(Clone, Copy, PartialEq, Eq, Structural, Debug)]
pub struct ChannelConfig {
    pub alert_channel: u8,
    pub test_channel: Option<u8>,
}

/// Both configured channels lie in the valid range.
pub open spec fn config_wf(c: ChannelConfig) -> bool {
    c.alert_channel <= 7 && match c.test_channel {
        Some(t) => t <= 7,
        None => true,
    }
}

/// An invalid configuration value, fatal at startup.
#[derive(Clone, Copy, PartialEq, Eq, Structural, Debug)]
pub enum ConfigError {
    AlertChannelOutOfRange,
    TestChannelOutOfRange,
}

/// Validate the operator-supplied channel numbers. A missing alert channel
/// defaults to 0; a missing test channel suppresses test alerts.
pub fn make_channel_config(alert_channel: Option<u32>, test_channel: Option<u32>) -> (r: Result<
    ChannelConfig,
    ConfigError,
>)
    ensures
        match r {
            Ok(c) => config_wf(c) && c.alert_channel == match alert_channel {
                Some(a) => a as int,
                None => 0int,
            } && match (c.test_channel, test_channel) {
                (Some(ct), Some(t)) => ct == t,
                (None, None) => true,
                _ => false,
            },
            Err(e) => (e == ConfigError::AlertChannelOutOfRange <==> match alert_channel {
                Some(a) => a > 7,
                None => false,
            }) && (e == ConfigError::TestChannelOutOfRange <==> (match alert_channel {
                Some(a) => a <= 7,
                None => true,
            } && match test_channel {
                Some(t) => t > 7,
                None => false,
            })),
        },
        r is Err <==> (match alert_channel {
            Some(a) => a > 7,
            None => false,
        } || match test_channel {
            Some(t) => t > 7,
            None => false,
        }),
{
    let alert: u8 = match alert_channel {
        Some(a) => {
            if a > 7 {
                return Err(ConfigError::AlertChannelOutOfRange);
            }
            a as u8
        },
        None => 0,
    };
    let test: Option<u8> = match test_channel {
        Some(t) => {
            if t > 7 {
                return Err(ConfigError::TestChannelOutOfRange);
            }
            Some(t as u8)
        },
        None => None,
    };
    Ok(ChannelConfig { alert_channel: alert, test_channel: test })
}

/// The presentation prefix of a tier. Warning, Emergency and an unknown
/// tier share the urgent marker; the Test prefix is completed by the
/// composer with the reporting station's callsign.
pub open spec fn spec_prefix(tier: SignificanceTier) -> Seq<u8> {
    match tier {
        SignificanceTier::Test => received_test(),
        SignificanceTier::Statement => prefix_statement(),
        SignificanceTier::Watch => prefix_caution(),
        SignificanceTier::Warning => prefix_urgent(),
        SignificanceTier::Emergency => prefix_urgent(),
        SignificanceTier::Unknown => prefix_urgent(),
    }
}

/// The channel a tier is sent on: the test channel for Test (none means the
/// alert is suppressed), the alert channel for everything else.
pub open spec fn spec_channel(tier: SignificanceTier, cfg: ChannelConfig) -> Option<u8> {
    match tier {
        SignificanceTier::Test => cfg.test_channel,
        _ => Some(cfg.alert_channel),
    }
}

/// A classified alert: how it is presented and where it is sent.
#[derive(Debug)]
pub struct Classification {
    pub prefix: Vec<u8>,
    pub channel: u8,
    pub is_test: bool,
}

/// Classify a tier under a channel configuration. `None` means the alert is
/// suppressed: a Test-tier alert with no test channel configured.
pub fn classify(tier: SignificanceTier, cfg: &ChannelConfig) -> (r: Option<Classification>)
    ensures
        match r {
            Some(c) => spec_channel(tier, *cfg) == Some(c.channel) && c.prefix@ == spec_prefix(
                tier,
            ) && c.is_test == (tier is Test),
            None => spec_channel(tier, *cfg) is None,
        },
        r is None <==> (tier is Test && cfg.test_channel is None),
{
    match tier {
        SignificanceTier::Test => {
            match cfg.test_channel {
                Some(t) => Some(
                    Classification { prefix: received_test_bytes(), channel: t, is_test: true },
                ),
                None => None,
            }
        },
        SignificanceTier::Statement => Some(
            Classification {
                prefix: prefix_statement_bytes(),
                channel: cfg.alert_channel,
                is_test: false,
            },
        ),
        SignificanceTier::Watch => Some(
            Classification {
                prefix: prefix_caution_bytes(),
                channel: cfg.alert_channel,
                is_test: false,
            },
        ),
        SignificanceTier::Warning => Some(
            Classification {
                prefix: prefix_urgent_bytes(),
                channel: cfg.alert_channel,
                is_test: false,
            },
        ),
        SignificanceTier::Emergency => Some(
            Classification {
                prefix: prefix_urgent_bytes(),
                channel: cfg.alert_channel,
                is_test: false,
            },
        ),
        SignificanceTier::Unknown => Some(
            Classification {
                prefix: prefix_urgent_bytes(),
                channel: cfg.alert_channel,
                is_test: false,
            },
        ),
    }
}

} // verus!
