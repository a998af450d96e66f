use kanshi::kanshi::{line_of, ErrKind, KanshiStore};
use kanshi::store::{Decimal, Transform};

#[test]
fn round_trip_every_directive_kind() {
    let src = "{\n\toutput DP-1 vendor DEL product 0x1234 position 1920,0 resolution 2560x1440 transform 90 scale 1.5\n\texec notify-send reconfigured\n}\n";
    let cfgs = KanshiStore::parse_configurations(src).unwrap();
    assert_eq!(cfgs.len(), 1);
    let cfg = &cfgs[0];
    assert_eq!(cfg.outputs.len(), 1);
    let o = &cfg.outputs[0];
    assert_eq!(o.name, "DP-1");
    assert_eq!(o.vendor, "DEL");
    assert_eq!(o.product, "0x1234");
    assert_eq!(o.serial, "");
    assert_eq!(o.x, 1920);
    assert_eq!(o.y, 0);
    assert_eq!(o.width, 2560);
    assert_eq!(o.height, 1440);
    assert_eq!(o.transform, Transform::Rotation(90));
    assert_eq!(o.scale, Decimal { negative: false, mantissa: 15, exponent: 1 });
    assert!(o.enabled);
    assert!(!o.primary);
    assert_eq!(cfg.exec_cmds, vec![vec!["notify-send".to_string(), "reconfigured".to_string()]]);
}

#[test]
fn unrecognized_transform_token_falls_back_to_none() {
    let src = "{ output DP-1 transform sideways }";
    let cfgs = KanshiStore::parse_configurations(src).unwrap();
    assert_eq!(cfgs.len(), 1);
    assert_eq!(cfgs[0].outputs[0].transform, Transform::Rotation(0));
}

#[test]
fn transform_from_str_recognized_tokens() {
    assert_eq!(Transform::from_str("90"), Transform::Rotation(90));
    assert_eq!(Transform::from_str("180"), Transform::Rotation(180));
    assert_eq!(Transform::from_str("270"), Transform::Rotation(270));
    assert_eq!(Transform::from_str("flipped"), Transform::FlippedRotation(0));
    assert_eq!(Transform::from_str("flipped-90"), Transform::FlippedRotation(90));
    assert_eq!(Transform::from_str("flipped-180"), Transform::FlippedRotation(180));
    assert_eq!(Transform::from_str("flipped-270"), Transform::FlippedRotation(270));
    assert_eq!(Transform::from_str("sideways"), Transform::Rotation(0));
    assert_eq!(Transform::from_str(""), Transform::Rotation(0));
}

#[test]
fn unterminated_block_fails_with_position() {
    let src = "{ output DP-1\n";
    let err = KanshiStore::parse_configurations(src).unwrap_err();
    assert_eq!(err.kind, ErrKind::UnterminatedBlock);
    assert_eq!(err.pos, src.len());
}

#[test]
fn error_positions_carry_a_line() {
    let src = "{\n output DP-1\n bogus x\n}";
    let err = KanshiStore::parse_configurations(src).unwrap_err();
    assert_eq!(err.kind, ErrKind::UnknownDirective);
    assert_eq!(err.pos, 16);
    assert_eq!(line_of(src, err.pos), 3);
    assert_eq!(line_of(src, 0), 1);
    assert_eq!(line_of("", 5), 1);
}

#[test]
fn empty_source_yields_no_profiles() {
    assert_eq!(KanshiStore::parse_configurations("").unwrap().len(), 0);
    assert_eq!(KanshiStore::parse_configurations(" \n\t\n").unwrap().len(), 0);
}

#[test]
fn empty_block_is_an_empty_profile() {
    let cfgs = KanshiStore::parse_configurations("{}").unwrap();
    assert_eq!(cfgs.len(), 1);
    assert_eq!(cfgs[0].outputs.len(), 0);
    assert_eq!(cfgs[0].exec_cmds.len(), 0);
}

#[test]
fn wildcard_target_becomes_empty_pattern() {
    let cfgs = KanshiStore::parse_configurations("{ output * }").unwrap();
    assert_eq!(cfgs[0].outputs[0].name, "");
}

#[test]
fn disable_marks_entry_disabled_but_keeps_geometry() {
    let cfgs =
        KanshiStore::parse_configurations("{ output DP-1 resolution 800x600 disable }").unwrap();
    let o = &cfgs[0].outputs[0];
    assert!(!o.enabled);
    assert_eq!(o.width, 800);
    assert_eq!(o.height, 600);
}

#[test]
fn last_occurrence_of_an_argument_wins() {
    let cfgs =
        KanshiStore::parse_configurations("{ output DP-1 vendor AAA vendor BBB }").unwrap();
    assert_eq!(cfgs[0].outputs[0].vendor, "BBB");
}

#[test]
fn directives_keep_declaration_order() {
    let src = "{\noutput A\nexec first hook\noutput B\nexec second\n}\n{\noutput C\n}";
    let cfgs = KanshiStore::parse_configurations(src).unwrap();
    assert_eq!(cfgs.len(), 2);
    assert_eq!(cfgs[0].outputs.len(), 2);
    assert_eq!(cfgs[0].outputs[0].name, "A");
    assert_eq!(cfgs[0].outputs[1].name, "B");
    assert_eq!(
        cfgs[0].exec_cmds,
        vec![
            vec!["first".to_string(), "hook".to_string()],
            vec!["second".to_string()],
        ]
    );
    assert_eq!(cfgs[1].outputs[0].name, "C");
}

#[test]
fn top_level_garbage_is_rejected() {
    let err = KanshiStore::parse_configurations("foo").unwrap_err();
    assert_eq!(err.kind, ErrKind::ExpectedBlock);
    assert_eq!(err.pos, 0);
}

#[test]
fn unknown_directive_is_rejected() {
    let err = KanshiStore::parse_configurations("{\nfoo bar\n}").unwrap_err();
    assert_eq!(err.kind, ErrKind::UnknownDirective);
    assert_eq!(err.pos, 2);
}

#[test]
fn unknown_output_argument_is_rejected() {
    let err = KanshiStore::parse_configurations("{ output DP-1 bogus }").unwrap_err();
    assert_eq!(err.kind, ErrKind::UnknownOutputArg);
}

#[test]
fn missing_output_target_is_rejected() {
    let err = KanshiStore::parse_configurations("{\noutput\n}").unwrap_err();
    assert_eq!(err.kind, ErrKind::MissingArgument);
}

#[test]
fn missing_exec_command_is_rejected() {
    let err = KanshiStore::parse_configurations("{\nexec\n}").unwrap_err();
    assert_eq!(err.kind, ErrKind::MissingArgument);
}

#[test]
fn malformed_resolution_is_rejected() {
    let err = KanshiStore::parse_configurations("{ output DP-1 resolution 12x }").unwrap_err();
    assert_eq!(err.kind, ErrKind::BadInt);
    let err = KanshiStore::parse_configurations("{ output DP-1 resolution ax b }").unwrap_err();
    assert_eq!(err.kind, ErrKind::BadInt);
}

#[test]
fn malformed_position_is_rejected() {
    let err = KanshiStore::parse_configurations("{ output DP-1 position 1920 }").unwrap_err();
    assert_eq!(err.kind, ErrKind::BadInt);
}

#[test]
fn malformed_scale_is_rejected() {
    let err = KanshiStore::parse_configurations("{ output DP-1 scale abc }").unwrap_err();
    assert_eq!(err.kind, ErrKind::BadFloat);
    let err = KanshiStore::parse_configurations("{ output DP-1 scale 1. }").unwrap_err();
    assert_eq!(err.kind, ErrKind::BadFloat);
}

#[test]
fn integer_overflow_is_a_parse_error() {
    let err =
        KanshiStore::parse_configurations("{ output DP-1 resolution 99999999999x100 }").unwrap_err();
    assert_eq!(err.kind, ErrKind::BadInt);
}

#[test]
fn scale_without_fraction_and_with_trailing_zero() {
    let cfgs = KanshiStore::parse_configurations("{ output A scale 2 }").unwrap();
    assert_eq!(
        cfgs[0].outputs[0].scale,
        Decimal { negative: false, mantissa: 2, exponent: 0 }
    );
    let cfgs = KanshiStore::parse_configurations("{ output A scale 2.0 }").unwrap();
    assert_eq!(
        cfgs[0].outputs[0].scale,
        Decimal { negative: false, mantissa: 2, exponent: 0 }
    );
    let cfgs = KanshiStore::parse_configurations("{ output A scale 0.25 }").unwrap();
    assert_eq!(
        cfgs[0].outputs[0].scale,
        Decimal { negative: false, mantissa: 25, exponent: 2 }
    );
}
