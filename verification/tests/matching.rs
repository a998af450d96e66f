use kanshi::backend::ConnectedOutput;
use kanshi::store::{Decimal, SavedConfiguration, SavedOutput, Transform};
use kanshi::{connector_type, patterns_wf, resolve};

fn display(name: &str, vendor: &str, product: u16, serial: u32) -> ConnectedOutput {
    ConnectedOutput {
        name: name.to_string(),
        vendor: vendor.to_string(),
        product,
        serial,
        product_text: None,
        serial_text: None,
    }
}

fn pattern(name: &str) -> SavedOutput {
    let mut o = SavedOutput::default();
    o.name = name.to_string();
    o.enabled = true;
    o
}

#[test]
fn full_wildcard_matches_any_display() {
    let d = display("DP-3", "DEL", 0x1234, 42);
    let s = pattern("");
    assert!(d.matches_saved(&s));
    let d2 = display("weird-connector", "AAA", 0, 0);
    assert!(d2.matches_saved(&s));
}

#[test]
fn serial_hex_mismatch_defeats_any_match() {
    let d = display("DP-3", "DEL", 0x1234, 42);
    let mut s = pattern("");
    s.serial = "0x2B".to_string(); // 43, not 42
    assert!(!d.matches_saved(&s));
    s.serial = "0x2A".to_string(); // 42
    assert!(d.matches_saved(&s));
}

#[test]
fn product_hex_pattern_compares_the_code() {
    let d = display("DP-1", "DEL", 0x1A2B, 0);
    let mut s = pattern("");
    s.product = "0x1A2B".to_string();
    assert!(d.matches_saved(&s));
    s.product = "0x1A2C".to_string();
    assert!(!d.matches_saved(&s));
}

#[test]
fn literal_product_pattern_needs_descriptor_text() {
    let mut d = display("DP-1", "DEL", 0x1A2B, 0);
    let mut s = pattern("");
    s.product = "U2720Q".to_string();
    // no product text on the display: a literal pattern cannot match
    assert!(!d.matches_saved(&s));
    d.product_text = Some("U2720Q".to_string());
    assert!(d.matches_saved(&s));
    d.product_text = Some("other".to_string());
    assert!(!d.matches_saved(&s));
}

#[test]
fn vendor_pattern_is_exact() {
    let d = display("DP-1", "DEL", 0, 0);
    let mut s = pattern("");
    s.vendor = "DEL".to_string();
    assert!(d.matches_saved(&s));
    s.vendor = "DEk".to_string();
    assert!(!d.matches_saved(&s));
}

#[test]
fn connector_matching_is_by_class_not_by_full_name() {
    let d = display("DP-2", "DEL", 0, 0);
    // a pattern naming another port of the same class still matches
    assert!(d.matches_saved(&pattern("DP-1")));
    assert!(!d.matches_saved(&pattern("HDMI-A-1")));
    // an unclassifiable pattern never matches a classifiable display
    assert!(!d.matches_saved(&pattern("garbage-7")));
}

#[test]
fn connector_type_classifies_known_prefixes() {
    assert_eq!(connector_type("DP-1"), Some("DP".to_string()));
    assert_eq!(connector_type("dp-1"), Some("DP".to_string()));
    assert_eq!(connector_type("eDP-1"), Some("eDP".to_string()));
    assert_eq!(connector_type("HDMI-A-2"), Some("HDMI".to_string()));
    assert_eq!(connector_type("hdmi-a-2"), Some("HDMI".to_string()));
    assert_eq!(connector_type("VGA-1"), Some("VGA".to_string()));
    assert_eq!(connector_type("LVDS-1"), Some("LVDS".to_string()));
    assert_eq!(connector_type("DVI-D-1"), Some("DVI".to_string()));
    assert_eq!(connector_type("Virtual-1"), Some("Virtual".to_string()));
    assert_eq!(connector_type("DSI-1"), Some("DSI".to_string()));
    assert_eq!(connector_type("something"), None);
}

fn config(outputs: Vec<SavedOutput>) -> SavedConfiguration {
    SavedConfiguration { outputs, exec_cmds: Vec::new() }
}

#[test]
fn resolver_rejects_profiles_with_wrong_entry_count() {
    let connected = vec![display("DP-1", "DEL", 0, 0), display("HDMI-A-1", "DEL", 0, 0)];
    let configurations = vec![
        config(vec![pattern("")]),
        config(vec![pattern(""), pattern(""), pattern("")]),
    ];
    assert!(patterns_wf(&configurations));
    assert!(resolve(&connected, &configurations).is_none());
}

#[test]
fn resolver_returns_none_when_nothing_matches() {
    let connected = vec![display("DP-1", "DEL", 0, 0)];
    let configurations = vec![config(vec![pattern("VGA-1")])];
    assert!(resolve(&connected, &configurations).is_none());
}

#[test]
fn resolver_picks_the_first_applicable_profile() {
    let connected = vec![display("DP-1", "DEL", 0, 0)];
    let mut first = pattern("");
    first.vendor = "ZZZ".to_string();
    let configurations = vec![
        config(vec![first]),
        config(vec![pattern("DP-1")]),
        config(vec![pattern("")]),
    ];
    let mc = resolve(&connected, &configurations).unwrap();
    assert_eq!(mc.saved.outputs[0].name, "DP-1");
}

#[test]
fn first_fit_binds_wildcard_to_the_leftover_display() {
    let connected = vec![display("HDMI-A-1", "AAA", 0, 0), display("DP-1", "BBB", 0, 0)];
    let configurations = vec![config(vec![pattern("DP-1"), pattern("")])];
    assert!(patterns_wf(&configurations));
    let mc = resolve(&connected, &configurations).unwrap();
    assert_eq!(mc.outputs.len(), 2);
    // the explicit entry consumed DP-1, the wildcard took what was left
    assert_eq!(mc.outputs[0].saved.name, "DP-1");
    assert_eq!(mc.outputs[0].connected.name, "DP-1");
    assert_eq!(mc.outputs[1].saved.name, "");
    assert_eq!(mc.outputs[1].connected.name, "HDMI-A-1");
    // stable across repeated runs on identical input order
    for _ in 0..3 {
        let again = resolve(&connected, &configurations).unwrap();
        assert_eq!(again.outputs[0].connected.name, "DP-1");
        assert_eq!(again.outputs[1].connected.name, "HDMI-A-1");
    }
}

#[test]
fn resolver_never_pairs_one_display_twice() {
    let connected = vec![display("DP-1", "AAA", 1, 1), display("DP-2", "BBB", 2, 2)];
    let configurations = vec![config(vec![pattern(""), pattern("")])];
    let mc = resolve(&connected, &configurations).unwrap();
    assert_eq!(mc.outputs.len(), 2);
    assert_ne!(mc.outputs[0].connected.name, mc.outputs[1].connected.name);
}

#[test]
fn patterns_wf_spots_malformed_hex() {
    let mut bad = pattern("");
    bad.product = "0xZZ".to_string();
    assert!(!patterns_wf(&vec![config(vec![bad])]));
    let mut too_big = pattern("");
    too_big.product = "0x10000".to_string(); // beyond a 16-bit code
    assert!(!patterns_wf(&vec![config(vec![too_big])]));
    let mut ok = pattern("");
    ok.product = "0xFFFF".to_string();
    ok.serial = "0xFFFFFFFF".to_string();
    assert!(patterns_wf(&vec![config(vec![ok])]));
    let mut empty_hex = pattern("");
    empty_hex.serial = "0x".to_string();
    assert!(!patterns_wf(&vec![config(vec![empty_hex])]));
}

#[test]
fn display_descriptors_fall_back_to_hex_codes() {
    let d = display("DP-1", "DEL", 0x1A2B, 0xDEADBEEF);
    assert_eq!(d.vendor(), "DEL");
    assert_eq!(d.product(), "0x1A2B");
    assert_eq!(d.serial(), "0xDEADBEEF");
    let mut named = display("DP-1", "DEL", 0x1A2B, 0);
    named.product_text = Some("U2720Q".to_string());
    named.serial_text = Some("SN123".to_string());
    assert_eq!(named.product(), "U2720Q");
    assert_eq!(named.serial(), "SN123");
    assert_eq!(
        d.describe(),
        "output DP-1 vendor DEL product 0x1A2B serial 0xDEADBEEF"
    );
}

#[test]
fn decimal_positivity() {
    assert!(Decimal { negative: false, mantissa: 15, exponent: 1 }.is_positive());
    assert!(!Decimal { negative: true, mantissa: 15, exponent: 1 }.is_positive());
    assert!(!Decimal::zero().is_positive());
    assert_eq!(Transform::default(), Transform::Rotation(0));
    assert!(kanshi::store::parse_bool("yes"));
    assert!(!kanshi::store::parse_bool("no"));
    assert!(!kanshi::store::parse_bool("Yes"));
}
