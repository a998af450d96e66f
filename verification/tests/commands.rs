use kanshi::backend::ConnectedOutput;
use kanshi::frontend::{MatchedOutput, SwayFrontend};
use kanshi::kanshi::KanshiStore;
use kanshi::store::{Decimal, SavedConfiguration, SavedOutput, Transform};
use kanshi::{plan_cycle, resolve};

fn display(name: &str) -> ConnectedOutput {
    ConnectedOutput {
        name: name.to_string(),
        vendor: "DEL".to_string(),
        product: 0,
        serial: 0,
        product_text: None,
        serial_text: None,
    }
}

fn entry(name: &str) -> SavedOutput {
    let mut o = SavedOutput::default();
    o.name = name.to_string();
    o.enabled = true;
    o
}

fn pair(connected: ConnectedOutput, saved: SavedOutput) -> MatchedOutput {
    MatchedOutput { connected, saved }
}

#[test]
fn enable_command_with_all_fields() {
    let mut s = entry("DP-1");
    s.x = 1920;
    s.y = 0;
    s.width = 2560;
    s.height = 1440;
    s.transform = Transform::Rotation(90);
    s.scale = Decimal { negative: false, mantissa: 15, exponent: 1 };
    let f = SwayFrontend::new(None);
    let cmds = f.get_commands(Some(&vec![pair(display("DP-1"), s)]));
    assert_eq!(
        cmds,
        vec!["output DP-1 enable position 1920 0 resolution 2560x1440 transform 90 scale 1.5"]
    );
}

#[test]
fn minimal_enable_command_skips_unset_fields() {
    let s = entry("DP-1");
    let f = SwayFrontend::new(None);
    let cmds = f.get_commands(Some(&vec![pair(display("DP-1"), s)]));
    assert_eq!(cmds, vec!["output DP-1 enable position 0 0 transform normal"]);
}

#[test]
fn negative_position_is_rendered_with_a_sign() {
    let mut s = entry("DP-1");
    s.x = -1920;
    s.y = -1;
    let f = SwayFrontend::new(None);
    let cmds = f.get_commands(Some(&vec![pair(display("DP-1"), s)]));
    assert_eq!(cmds, vec!["output DP-1 enable position -1920 -1 transform normal"]);
}

#[test]
fn disabled_entry_emits_only_a_disable_command() {
    let mut s = entry("HDMI-A-1");
    s.enabled = false;
    s.width = 800;
    s.height = 600;
    let f = SwayFrontend::new(None);
    let cmds = f.get_commands(Some(&vec![pair(display("HDMI-A-1"), s)]));
    assert_eq!(cmds, vec!["output HDMI-A-1 disable"]);
}

#[test]
fn primary_entry_adds_workspace_affinity_after_its_enable() {
    let mut s = entry("DP-1");
    s.primary = true;
    let with_ws = SwayFrontend::new(Some("main".to_string()));
    let cmds = with_ws.get_commands(Some(&vec![pair(display("DP-1"), s)]));
    assert_eq!(
        cmds,
        vec![
            "output DP-1 enable position 0 0 transform normal",
            "workspace main output DP-1",
        ]
    );
    // without a configured workspace the affinity command is not emitted
    let mut s2 = entry("DP-1");
    s2.primary = true;
    let without = SwayFrontend::new(None);
    let cmds2 = without.get_commands(Some(&vec![pair(display("DP-1"), s2)]));
    assert_eq!(cmds2, vec!["output DP-1 enable position 0 0 transform normal"]);
}

#[test]
fn flipped_transforms_render_their_tokens() {
    for (t, tok) in [
        (Transform::Rotation(0), "normal"),
        (Transform::Rotation(180), "180"),
        (Transform::Rotation(270), "270"),
        (Transform::FlippedRotation(0), "flipped"),
        (Transform::FlippedRotation(90), "flipped-90"),
        (Transform::FlippedRotation(180), "flipped-180"),
        (Transform::FlippedRotation(270), "flipped-270"),
        (Transform::Rotation(45), "normal"),
    ] {
        let mut s = entry("X");
        s.transform = t;
        let f = SwayFrontend::new(None);
        let cmds = f.get_commands(Some(&vec![pair(display("X"), s)]));
        assert_eq!(cmds[0], format!("output X enable position 0 0 transform {}", tok));
    }
}

#[test]
fn no_configuration_means_no_commands() {
    let f = SwayFrontend::new(None);
    assert_eq!(f.get_commands(None).len(), 0);
}

#[test]
fn zero_applicable_profiles_plan_nothing() {
    let connected = vec![display("DP-1")];
    let configurations: Vec<SavedConfiguration> =
        KanshiStore::parse_configurations("{ output VGA-1\nexec hook }").unwrap();
    let f = SwayFrontend::new(None);
    assert!(resolve(&connected, &configurations).is_none());
    let plan = plan_cycle(&f, &connected, &configurations);
    assert!(plan.commands.is_empty());
    assert!(plan.hooks.is_empty());
}

#[test]
fn applicable_profile_plans_commands_and_hooks() {
    let connected = vec![display("DP-1"), display("HDMI-A-1")];
    let src = "{\noutput DP-1 position 0,0 resolution 1920x1080\noutput HDMI-A-1 disable\nexec notify-send done\n}";
    let configurations = KanshiStore::parse_configurations(src).unwrap();
    let f = SwayFrontend::new(None);
    let plan = plan_cycle(&f, &connected, &configurations);
    assert_eq!(
        plan.commands,
        vec![
            "output DP-1 enable position 0 0 resolution 1920x1080 transform normal",
            "output HDMI-A-1 disable",
        ]
    );
    assert_eq!(plan.hooks, vec![vec!["notify-send".to_string(), "done".to_string()]]);
}
