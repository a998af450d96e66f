use kanshi::backend::SysFsBackend;
use kanshi::gnome::{GnomeError, GnomeStore};
use kanshi::store::{Decimal, Transform};

#[test]
fn sysfs_entry_names_are_filtered_and_stripped() {
    assert_eq!(SysFsBackend::entry_output_name("card0-DP-1"), Some("DP-1".to_string()));
    assert_eq!(
        SysFsBackend::entry_output_name("card0-HDMI-A-2"),
        Some("HDMI-A-2".to_string())
    );
    assert_eq!(SysFsBackend::entry_output_name("version"), None);
    assert_eq!(SysFsBackend::entry_output_name("card1-DP-1"), None);
    // the prefix is stripped however often it repeats
    assert_eq!(SysFsBackend::entry_output_name("card0-card0-X"), Some("X".to_string()));
}

#[test]
fn sysfs_status_test_trims_the_trailing_newline() {
    assert!(SysFsBackend::status_is_connected("connected\n"));
    assert!(SysFsBackend::status_is_connected("connected"));
    assert!(SysFsBackend::status_is_connected("  connected  \n"));
    assert!(!SysFsBackend::status_is_connected("disconnected\n"));
    assert!(!SysFsBackend::status_is_connected(""));
}

fn text_descriptor(tag: u8, text: &str) -> Vec<u8> {
    let mut d = vec![0u8, 0, 0, tag, 0];
    let mut chars: Vec<u8> = text.bytes().collect();
    chars.push(0x0A);
    while chars.len() < 13 {
        chars.push(b' ');
    }
    d.extend_from_slice(&chars);
    assert_eq!(d.len(), 18);
    d
}

fn dummy_descriptor() -> Vec<u8> {
    let mut d = vec![0u8, 0, 0, 0x10, 0];
    d.extend_from_slice(&[0u8; 13]);
    d
}

fn sample_edid() -> Vec<u8> {
    let mut b: Vec<u8> = Vec::new();
    b.extend_from_slice(&[0x00, 0xFF, 0xFF, 0xFF, 0xFF, 0xFF, 0xFF, 0x00]);
    // vendor "DEL": three 5-bit letters, big endian
    b.extend_from_slice(&[0x10, 0xAC]);
    // product code, little endian
    b.extend_from_slice(&[0x34, 0x12]);
    // serial code, little endian
    b.extend_from_slice(&[0x34, 0x12, 0xCD, 0xAB]);
    // week, year, version, revision
    b.extend_from_slice(&[1, 30, 1, 4]);
    // basic display parameters
    b.extend_from_slice(&[0x80, 60, 34, 120, 0x0A]);
    // chromaticity, established timings, standard timings
    b.extend_from_slice(&[0u8; 10]);
    b.extend_from_slice(&[0u8; 3]);
    b.extend_from_slice(&[0u8; 16]);
    // four 18-byte descriptors
    b.extend_from_slice(&text_descriptor(0xFC, "U2720Q"));
    b.extend_from_slice(&text_descriptor(0xFF, "SN123"));
    b.extend_from_slice(&dummy_descriptor());
    b.extend_from_slice(&dummy_descriptor());
    // extension count and checksum
    b.extend_from_slice(&[0, 0]);
    assert_eq!(b.len(), 128);
    b
}

#[test]
fn identity_block_decodes_to_a_display_record() {
    let raw = sample_edid();
    let o = SysFsBackend::parse_connected_output("DP-1".to_string(), &raw).unwrap();
    assert_eq!(o.name, "DP-1");
    assert_eq!(o.vendor(), "DEL");
    assert_eq!(o.product, 0x1234);
    assert_eq!(o.serial, 0xABCD1234);
    assert_eq!(o.product(), "U2720Q");
    assert_eq!(o.serial(), "SN123");
}

#[test]
fn identity_block_without_text_descriptors_reports_hex_codes() {
    let mut raw = sample_edid();
    // replace both text descriptors with dummies
    raw.splice(54..90, dummy_descriptor().into_iter().chain(dummy_descriptor()));
    let o = SysFsBackend::parse_connected_output("DP-1".to_string(), &raw).unwrap();
    assert_eq!(o.product(), "0x1234");
    assert_eq!(o.serial(), "0xABCD1234");
}

#[test]
fn malformed_identity_block_is_rejected() {
    assert!(SysFsBackend::parse_connected_output("DP-1".to_string(), &vec![1, 2, 3]).is_none());
}

fn gnome_doc(output_body: &str) -> Vec<u8> {
    format!(
        "<monitors version=\"1\"><configuration><clone>no</clone>{}</configuration></monitors>",
        output_body
    )
    .into_bytes()
}

#[test]
fn legacy_document_decodes_outputs() {
    let buf = gnome_doc(
        "<output name=\"DP-1\"><vendor>DEL</vendor><product>U2720Q</product><serial>SN123</serial>\
         <width>1920</width><height>1080</height><rate>59.95</rate><x>0</x><y>0</y>\
         <rotation>right</rotation><primary>yes</primary></output>",
    );
    let cfgs = GnomeStore::parse_configurations(&buf).unwrap();
    assert_eq!(cfgs.len(), 1);
    assert_eq!(cfgs[0].exec_cmds.len(), 0);
    let o = &cfgs[0].outputs[0];
    assert_eq!(o.name, "DP-1");
    assert_eq!(o.vendor, "DEL");
    assert_eq!(o.product, "U2720Q");
    assert_eq!(o.serial, "SN123");
    assert!(o.enabled);
    assert_eq!(o.width, 1920);
    assert_eq!(o.height, 1080);
    assert_eq!(o.rate, Decimal { negative: false, mantissa: 5995, exponent: 2 });
    assert_eq!(o.transform, Transform::Rotation(90));
    assert!(o.primary);
}

#[test]
fn legacy_output_without_geometry_counts_as_disabled() {
    let buf = gnome_doc(
        "<output name=\"DP-1\"><vendor>DEL</vendor><product>P</product><serial>S</serial></output>",
    );
    let cfgs = GnomeStore::parse_configurations(&buf).unwrap();
    let o = &cfgs[0].outputs[0];
    assert!(!o.enabled);
    assert_eq!(o.width, 0);
    assert_eq!(o.height, 0);
}

#[test]
fn legacy_rotation_wordings() {
    for (word, t) in [
        ("right", Transform::Rotation(90)),
        ("inverted", Transform::Rotation(180)),
        ("left", Transform::Rotation(270)),
        ("normal", Transform::Rotation(0)),
        ("diagonal", Transform::Rotation(0)),
    ] {
        let buf = gnome_doc(&format!(
            "<output name=\"X\"><vendor>V</vendor><product>P</product><serial>S</serial>\
             <rotation>{}</rotation></output>",
            word
        ));
        let cfgs = GnomeStore::parse_configurations(&buf).unwrap();
        assert_eq!(cfgs[0].outputs[0].transform, t);
    }
}

#[test]
fn legacy_document_errors() {
    assert_eq!(
        GnomeStore::parse_configurations(&b"not xml at all".to_vec()).unwrap_err(),
        GnomeError::BadXml
    );
    let missing = gnome_doc("<output name=\"X\"><product>P</product><serial>S</serial></output>");
    assert_eq!(
        GnomeStore::parse_configurations(&missing).unwrap_err(),
        GnomeError::MissingField
    );
    let unnamed = gnome_doc(
        "<output><vendor>V</vendor><product>P</product><serial>S</serial></output>",
    );
    assert_eq!(
        GnomeStore::parse_configurations(&unnamed).unwrap_err(),
        GnomeError::MissingField
    );
    let bad_number = gnome_doc(
        "<output name=\"X\"><vendor>V</vendor><product>P</product><serial>S</serial>\
         <width>abc</width></output>",
    );
    assert_eq!(
        GnomeStore::parse_configurations(&bad_number).unwrap_err(),
        GnomeError::BadNumber
    );
}

#[test]
fn legacy_document_with_several_configurations() {
    let buf = "<monitors version=\"1\">\
        <configuration><output name=\"A\"><vendor>V</vendor><product>P</product><serial>S</serial>\
        <width>800</width><height>600</height></output></configuration>\
        <configuration></configuration>\
        </monitors>"
        .as_bytes()
        .to_vec();
    let cfgs = GnomeStore::parse_configurations(&buf).unwrap();
    assert_eq!(cfgs.len(), 2);
    assert_eq!(cfgs[0].outputs.len(), 1);
    assert!(cfgs[0].outputs[0].enabled);
    assert_eq!(cfgs[1].outputs.len(), 0);
}
