use same_alerter::classify::{classify, make_channel_config, ChannelConfig, ConfigError, SignificanceTier};
use same_alerter::compose::{compose_text, passes_location_filter};
use same_alerter::dataset::load_locations;
use same_alerter::location::LocationTable;
use same_alerter::node::{classify_node_info, NodeStatus};
use same_alerter::pipeline::{plan_alert, DecodedAlert};

fn v(s: &str) -> Vec<u8> {
    s.as_bytes().to_vec()
}

fn vv(items: &[&str]) -> Vec<Vec<u8>> {
    items.iter().map(|s| v(s)).collect()
}

fn sample_table() -> LocationTable {
    let data = v("048081,Exampleton,ExampleState\n048013,Aransas,Texas\n");
    load_locations(&data).expect("sample dataset parses")
}

fn warning_alert(codes: &[&str], national: bool) -> DecodedAlert {
    DecodedAlert {
        originator: v("National Weather Service"),
        event: v("Flash Flood Warning"),
        callsign: v("KABC/FM "),
        tier: SignificanceTier::Warning,
        codes: vv(codes),
        national,
    }
}

const URGENT: &str = "\u{1F6A8}";
const BOOK: &str = "\u{1F4D6}";

#[test]
fn warning_alert_composes_and_targets_alert_channel() {
    let table = sample_table();
    let cfg = make_channel_config(None, None).unwrap();
    let alert = warning_alert(&["048081"], false);
    let plan = plan_alert(&table, &cfg, &Vec::new(), &alert).expect("warning is delivered");
    assert_eq!(plan.channel, 0);
    let expected = format!(
        "{}Flash Flood Warning, Issued By: National Weather Service, Location: Exampleton",
        URGENT
    );
    assert_eq!(plan.message, v(&expected));
    let text = String::from_utf8(plan.message.clone()).unwrap();
    assert!(text.contains(URGENT));
    assert!(text.contains("National Weather Service"));
    assert!(text.contains(", Location: Exampleton"));
}

#[test]
fn test_alert_without_test_channel_is_suppressed() {
    let table = sample_table();
    let cfg = make_channel_config(Some(2), None).unwrap();
    let mut alert = warning_alert(&["048081"], false);
    alert.tier = SignificanceTier::Test;
    assert!(plan_alert(&table, &cfg, &Vec::new(), &alert).is_none());
}

#[test]
fn test_alert_with_test_channel_carries_callsign() {
    let table = sample_table();
    let cfg = make_channel_config(Some(2), Some(5)).unwrap();
    let mut alert = warning_alert(&[], false);
    alert.tier = SignificanceTier::Test;
    alert.event = v("Required Weekly Test");
    let plan = plan_alert(&table, &cfg, &Vec::new(), &alert).expect("test channel configured");
    assert_eq!(plan.channel, 5);
    let expected = format!(
        "{}Received Required Weekly Test from KABC/FM , Issued By: National Weather Service",
        BOOK
    );
    assert_eq!(plan.message, v(&expected));
}

#[test]
fn national_alert_ends_in_nationwide_marker() {
    let table = sample_table();
    let cfg = make_channel_config(None, None).unwrap();
    let alert = warning_alert(&["048081", "048013"], true);
    let plan = plan_alert(&table, &cfg, &Vec::new(), &alert).expect("national alert goes out");
    let text = String::from_utf8(plan.message.clone()).unwrap();
    assert!(text.ends_with(" Nationwide Alert"));
    assert!(!text.contains("Location"));
}

#[test]
fn national_alert_bypasses_the_location_filter() {
    let table = sample_table();
    let cfg = make_channel_config(None, None).unwrap();
    let alert = warning_alert(&["048081"], true);
    let filter = vv(&["012345"]);
    assert!(plan_alert(&table, &cfg, &filter, &alert).is_some());
}

#[test]
fn filter_mismatch_drops_the_alert() {
    let table = sample_table();
    let cfg = make_channel_config(None, None).unwrap();
    let alert = warning_alert(&["048081"], false);
    let filter = vv(&["012345", "099999"]);
    assert!(plan_alert(&table, &cfg, &filter, &alert).is_none());
}

#[test]
fn filter_match_keeps_the_alert() {
    let table = sample_table();
    let cfg = make_channel_config(Some(3), None).unwrap();
    let alert = warning_alert(&["048013", "048081"], false);
    let filter = vv(&["048081"]);
    let plan = plan_alert(&table, &cfg, &filter, &alert).expect("one code matches");
    assert_eq!(plan.channel, 3);
    let text = String::from_utf8(plan.message.clone()).unwrap();
    assert!(text.contains(", Locations: Aransas, Exampleton"));
}

#[test]
fn filter_rules_on_plain_code_lists() {
    assert!(passes_location_filter(&Vec::new(), &vv(&["048081"])));
    assert!(passes_location_filter(&vv(&["048081"]), &Vec::new()));
    assert!(passes_location_filter(&vv(&["048081"]), &vv(&["048081"])));
    assert!(!passes_location_filter(&vv(&["048082"]), &vv(&["048081"])));
}

#[test]
fn unresolved_codes_are_omitted_from_the_message() {
    let table = sample_table();
    let cfg = make_channel_config(None, None).unwrap();
    let alert = warning_alert(&["099999", "048081"], false);
    let plan = plan_alert(&table, &cfg, &Vec::new(), &alert).expect("alert goes out");
    let text = String::from_utf8(plan.message.clone()).unwrap();
    assert!(text.contains(", Location: Exampleton"));
    assert!(!text.contains("Locations:"));
}

#[test]
fn subdivision_digit_shows_in_the_location_label() {
    let table = sample_table();
    let cfg = make_channel_config(None, None).unwrap();
    let alert = warning_alert(&["748081"], false);
    let plan = plan_alert(&table, &cfg, &Vec::new(), &alert).expect("alert goes out");
    let text = String::from_utf8(plan.message.clone()).unwrap();
    assert!(text.contains(", Location: Southwest Exampleton"));
}

#[test]
fn classifier_prefixes_follow_the_policy_table() {
    let cfg = ChannelConfig { alert_channel: 1, test_channel: Some(6) };
    let statement = classify(SignificanceTier::Statement, &cfg).unwrap();
    assert_eq!(statement.prefix, v("\u{1F4DF}"));
    assert_eq!(statement.channel, 1);
    let watch = classify(SignificanceTier::Watch, &cfg).unwrap();
    assert_eq!(watch.prefix, v("\u{26A0}\u{FE0F}"));
    let warning = classify(SignificanceTier::Warning, &cfg).unwrap();
    assert_eq!(warning.prefix, v(URGENT));
    let emergency = classify(SignificanceTier::Emergency, &cfg).unwrap();
    assert_eq!(emergency.prefix, v(URGENT));
    let unknown = classify(SignificanceTier::Unknown, &cfg).unwrap();
    assert_eq!(unknown.prefix, v(URGENT));
    assert_eq!(unknown.channel, 1);
    let test = classify(SignificanceTier::Test, &cfg).unwrap();
    assert_eq!(test.channel, 6);
    assert!(test.is_test);
}

#[test]
fn channel_validation_accepts_the_radio_range() {
    let cfg = make_channel_config(Some(7), Some(0)).unwrap();
    assert_eq!(cfg.alert_channel, 7);
    assert_eq!(cfg.test_channel, Some(0));
    let defaults = make_channel_config(None, None).unwrap();
    assert_eq!(defaults.alert_channel, 0);
    assert_eq!(defaults.test_channel, None);
}

#[test]
fn out_of_range_channels_are_fatal() {
    assert_eq!(
        make_channel_config(Some(8), None).unwrap_err(),
        ConfigError::AlertChannelOutOfRange
    );
    assert_eq!(
        make_channel_config(Some(0), Some(42)).unwrap_err(),
        ConfigError::TestChannelOutOfRange
    );
}

#[test]
fn compose_joins_several_locations_with_commas() {
    let msg = compose_text(
        &v("!"),
        &v("Event"),
        &v("CALL"),
        &v("Origin"),
        false,
        false,
        &vv(&["North A", "B", "C"]),
    );
    assert_eq!(msg, v("!Event, Issued By: Origin, Locations: North A, B, C"));
}

#[test]
fn node_output_classification() {
    assert_eq!(
        classify_node_info(&v("Connected to radio\nOwner: x")),
        NodeStatus::Connected
    );
    assert_eq!(
        classify_node_info(&v("Connected to radio\r\nOwner: x")),
        NodeStatus::Connected
    );
    assert_eq!(classify_node_info(&v("Connected to radio")), NodeStatus::Connected);
    assert_eq!(
        classify_node_info(&v("Connected to radio\nError: late")),
        NodeStatus::ErrorReported
    );
    assert_eq!(classify_node_info(&v("")), NodeStatus::EmptyOutput);
    assert_eq!(
        classify_node_info(&v("Warning: no radio found\n")),
        NodeStatus::UnexpectedFirstLine
    );
}
