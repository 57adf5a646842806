//! The per-alert pipeline: classify, filter, resolve locations, compose,
//! and chunk — everything between a decoded alert header arriving and its
//! fragments being handed to the delivery engine.

use vstd::prelude::*;

use crate::chunk::{chunk_message, first_word_len, has_space, space, FRAGMENT_LIMIT};
use crate::classify::{classify, spec_channel, spec_prefix, ChannelConfig, SignificanceTier};
use crate::compose::{
    compose_text, passes_location_filter, resolve_labels, spec_compose, spec_passes_filter,
    spec_resolved_labels,
};
use crate::bytes::{join_sep, views_of};
use crate::location::{LocationEntry, LocationTable};

verus! {

/// A decoded alert header, as the external demodulator hands it over:
/// originator detail, event description, the reporting station's callsign,
/// the significance tier, the raw geographic codes, and the national flag.
#[derive(Debug)]
pub struct DecodedAlert {
    pub originator: Vec<u8>,
    pub event: Vec<u8>,
    pub callsign: Vec<u8>,
    pub tier: SignificanceTier,
    pub codes: Vec<Vec<u8>>,
    pub national: bool,
}

/// Everything the delivery engine needs for one alert: the target channel,
/// the composed text, and its fragments in send order.
#[derive(Debug)]
pub struct AlertPlan {
    pub channel: u8,
    pub message: Vec<u8>,
    pub fragments: Vec<Vec<u8>>,
}

/// The composed text of an alert: the tier's prefix, the event description,
/// the callsign for test alerts, the originator detail, and the nationwide
/// marker or the resolved location labels.
pub open spec fn spec_alert_message(entries: Seq<LocationEntry>, alert: DecodedAlert) -> Seq<u8> {
    spec_compose(
        spec_prefix(alert.tier),
        alert.event@,
        alert.callsign@,
        alert.originator@,
        alert.tier is Test,
        alert.national,
        spec_resolved_labels(entries, views_of(alert.codes@)),
    )
}

/// An alert produces no message when its tier is suppressed (a test alert
/// with no test channel) or when a non-national alert misses the
/// locations-of-interest filter.
pub open spec fn spec_alert_dropped(
    cfg: ChannelConfig,
    filter: Seq<Seq<u8>>,
    alert: DecodedAlert,
) -> bool {
    spec_channel(alert.tier, cfg) is None || (!alert.national && !spec_passes_filter(
        filter,
        views_of(alert.codes@),
    ))
}

/// Run one decoded alert through the pipeline. `None` means the alert is
/// dropped by design — suppressed or filtered — never an error. A plan
/// carries the composed message on the tier's channel, chunked into
/// fragments that rejoin (with single spaces at the split points) to exactly
/// the message, each within the transport budget unless it is a single
/// oversized word.
pub fn plan_alert(
    table: &LocationTable,
    cfg: &ChannelConfig,
    filter: &Vec<Vec<u8>>,
    alert: &DecodedAlert,
) -> (r: Option<AlertPlan>)
    ensures
        r is None <==> spec_alert_dropped(*cfg, views_of(filter@), *alert),
        match r {
            Some(p) => {
                &&& spec_channel(alert.tier, *cfg) == Some(p.channel)
                &&& p.message@ == spec_alert_message(table.entries@, *alert)
                &&& join_sep(views_of(p.fragments@), space()) == p.message@
                &&& forall|i: int|
                    0 <= i < p.fragments@.len() ==> p.fragments@[i]@.len()
                        <= FRAGMENT_LIMIT as int || !has_space(#[trigger] p.fragments@[i]@)
                &&& forall|i: int|
                    0 <= i < p.fragments@.len() - 1 ==> #[trigger] p.fragments@[i]@.len() + 1
                        + first_word_len(p.fragments@[i + 1]@) > FRAGMENT_LIMIT as int
                &&& p.fragments@.len() > 0
            },
            None => true,
        },
{
    let classification = match classify(alert.tier, cfg) {
        Some(c) => c,
        None => {
            return None;
        },
    };
    if !alert.national {
        if !passes_location_filter(filter, &alert.codes) {
            return None;
        }
    }
    let labels = resolve_labels(table, &alert.codes);
    let message = compose_text(
        &classification.prefix,
        &alert.event,
        &alert.callsign,
        &alert.originator,
        classification.is_test,
        alert.national,
        &labels,
    );
    proof {
        assert(message@.len() > 0) by {
            assert(spec_prefix(alert.tier).len() > 0);
        }
    }
    let fragments = chunk_message(&message);
    Some(AlertPlan { channel: classification.channel, message, fragments })
}

} // verus!
