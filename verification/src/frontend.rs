//! The compositor frontend: pairs each attached display with the profile
//! entry it satisfied and renders the command sequence that applies a
//! resolved profile.

use vstd::prelude::*;
use vstd::string::*;

use crate::backend::{ConnectedOutput, ConnectedOutputV};
use crate::store::{dec_str, spec_dec_str, SavedOutput, SavedOutputV, Transform};
use crate::text::{i32_str, spec_i32_str};

verus! {

/// An attached display bound to the profile entry it satisfied.
#[derive(Debug)]
pub struct MatchedOutput {
    pub connected: ConnectedOutput,
    pub saved: SavedOutput,
}

/// Mathematical image of a `MatchedOutput`.
pub struct MatchedOutputV {
    pub connected: ConnectedOutputV,
    pub saved: SavedOutputV,
}

impl View for MatchedOutput {
    type V = MatchedOutputV;

    open spec fn view(&self) -> MatchedOutputV {
        MatchedOutputV { connected: self.connected@, saved: self.saved@ }
    }
}

impl Clone for MatchedOutput {
    fn clone(&self) -> (r: MatchedOutput)
        ensures
            r@ == self@,
    {
        MatchedOutput { connected: self.connected.clone(), saved: self.saved.clone() }
    }
}

/// The transform token the compositor understands; every rotation outside
/// the recognized set falls back to the identity.
pub open spec fn spec_transform_name(t: Transform) -> Seq<char> {
    match t {
        Transform::Rotation(r) => if r == 90 {
            "90"@
        } else if r == 180 {
            "180"@
        } else if r == 270 {
            "270"@
        } else {
            "normal"@
        },
        Transform::FlippedRotation(r) => if r == 0 {
            "flipped"@
        } else if r == 90 {
            "flipped-90"@
        } else if r == 180 {
            "flipped-180"@
        } else if r == 270 {
            "flipped-270"@
        } else {
            "normal"@
        },
    }
}

pub fn transform_name(t: Transform) -> (r: &'static str)
    ensures
        r@ == spec_transform_name(t),
{
    match t {
        Transform::Rotation(r) => if r == 90 {
            "90"
        } else if r == 180 {
            "180"
        } else if r == 270 {
            "270"
        } else {
            "normal"
        },
        Transform::FlippedRotation(r) => if r == 0 {
            "flipped"
        } else if r == 90 {
            "flipped-90"
        } else if r == 180 {
            "flipped-180"
        } else if r == 270 {
            "flipped-270"
        } else {
            "normal"
        },
    }
}

/// The enable command for one matched pair: position always, resolution
/// only when both sides are set, the transform token always, the scale
/// only when strictly positive.
pub open spec fn spec_enable_cmd(m: MatchedOutputV) -> Seq<char> {
    let base = "output "@ + m.connected.name + " enable"@ + " position "@ + spec_i32_str(m.saved.x)
        + " "@ + spec_i32_str(m.saved.y);
    let with_res = if m.saved.width > 0 && m.saved.height > 0 {
        base + " resolution "@ + spec_i32_str(m.saved.width) + "x"@ + spec_i32_str(m.saved.height)
    } else {
        base
    };
    let with_transform = with_res + " transform "@ + spec_transform_name(m.saved.transform);
    if m.saved.scale.spec_is_positive() {
        with_transform + " scale "@ + spec_dec_str(m.saved.scale)
    } else {
        with_transform
    }
}

/// The commands one matched pair contributes: a disable command for a
/// disabled entry; otherwise the enable command, followed by the
/// workspace-affinity command when the entry is primary and a primary
/// workspace is configured.
pub open spec fn spec_cmds_for(m: MatchedOutputV, ws: Option<Seq<char>>) -> Seq<Seq<char>> {
    if m.saved.enabled {
        let head = seq![spec_enable_cmd(m)];
        if m.saved.primary && ws is Some {
            head.push("workspace "@ + ws.unwrap() + " output "@ + m.connected.name)
        } else {
            head
        }
    } else {
        seq!["output "@ + m.connected.name + " disable"@]
    }
}

/// All commands of a resolved profile, pair by pair in entry order.
pub open spec fn spec_commands(ms: Seq<MatchedOutputV>, ws: Option<Seq<char>>) -> Seq<Seq<char>>
    decreases ms.len(),
{
    if ms.len() == 0 {
        Seq::empty()
    } else {
        spec_cmds_for(ms[0], ws) + spec_commands(ms.drop_first(), ws)
    }
}

proof fn lemma_commands_push(ms: Seq<MatchedOutputV>, m: MatchedOutputV, ws: Option<Seq<char>>)
    ensures
        spec_commands(ms.push(m), ws) == spec_commands(ms, ws) + spec_cmds_for(m, ws),
    decreases ms.len(),
{
    if ms.len() == 0 {
        assert(ms.push(m)[0] == m);
        assert(ms.push(m).drop_first() =~= ms);
        assert(spec_commands(ms.push(m), ws) == spec_cmds_for(m, ws) + spec_commands(ms, ws));
        assert(spec_commands(ms.push(m), ws) =~~= spec_commands(ms, ws) + spec_cmds_for(m, ws));
    } else {
        assert(ms.push(m).drop_first() =~= ms.drop_first().push(m));
        assert(ms.push(m)[0] == ms[0]);
        lemma_commands_push(ms.drop_first(), m, ws);
        assert(spec_commands(ms.push(m), ws) == spec_cmds_for(ms[0], ws) + (spec_commands(
            ms.drop_first(),
            ws,
        ) + spec_cmds_for(m, ws)));
        assert(spec_commands(ms.push(m), ws) =~~= spec_commands(ms, ws) + spec_cmds_for(m, ws));
    }
}

/// Emits the layout commands for the compositor. The socket connection that
/// carries them is the caller's affair; building the command text is the
/// verified part.
pub struct SwayFrontend {
    pub primary_workspace: Option<String>,
}

impl SwayFrontend {
    /// The configured primary workspace name, if any.
    pub open spec fn spec_workspace(&self) -> Option<Seq<char>> {
        match self.primary_workspace {
            Option::Some(s) => Some(s@),
            Option::None => None,
        }
    }

    pub fn new(primary_workspace: Option<String>) -> (r: SwayFrontend)
        ensures
            r.spec_workspace() == (match primary_workspace {
                Option::Some(s) => Some::<Seq<char>>(s@),
                Option::None => None::<Seq<char>>,
            }),
    {
        SwayFrontend { primary_workspace }
    }

    /// The full command sequence for a resolved profile, in entry order;
    /// no profile means no commands at all.
    pub fn get_commands(&self, config: Option<&Vec<MatchedOutput>>) -> (r: Vec<String>)
        ensures
            match config {
                Option::Some(c) => r@.map_values(|s: String| s@) == spec_commands(
                    c@.map_values(|m: MatchedOutput| m@),
                    self.spec_workspace(),
                ),
                Option::None => r@.len() == 0,
            },
    {
        let config = match config {
            Option::Some(c) => c,
            Option::None => {
                return Vec::new();
            },
        };
        let ghost mviews = config@.map_values(|m: MatchedOutput| m@);
        let ghost ws = self.spec_workspace();
        let mut cmds: Vec<String> = Vec::new();
        let mut i: usize = 0;
        while i < config.len()
            invariant
                i <= config.len(),
                mviews == config@.map_values(|m: MatchedOutput| m@),
                ws == self.spec_workspace(),
                cmds@.map_values(|s: String| s@) == spec_commands(mviews.take(i as int), ws),
            decreases config.len() - i,
        {
            let ghost cmds_pre = cmds@.map_values(|s: String| s@);
            let m = &config[i];
            if m.saved.enabled {
                let mut l = String::new();
                l.append("output ");
                l.append(m.connected.name.as_str());
                l.append(" enable");
                l.append(" position ");
                let xs = i32_str(m.saved.x);
                l.append(xs.as_str());
                l.append(" ");
                let ys = i32_str(m.saved.y);
                l.append(ys.as_str());
                if m.saved.width > 0 && m.saved.height > 0 {
                    l.append(" resolution ");
                    let wd = i32_str(m.saved.width);
                    l.append(wd.as_str());
                    l.append("x");
                    let ht = i32_str(m.saved.height);
                    l.append(ht.as_str());
                }
                l.append(" transform ");
                l.append(transform_name(m.saved.transform));
                if m.saved.scale.is_positive() {
                    l.append(" scale ");
                    let sc = dec_str(&m.saved.scale);
                    l.append(sc.as_str());
                }
                proof {
                    assert(l@ =~= spec_enable_cmd(m@));
                }
                cmds.push(l);
                if m.saved.primary {
                    match &self.primary_workspace {
                        Option::Some(wname) => {
                            let mut w = String::new();
                            w.append("workspace ");
                            w.append(wname.as_str());
                            w.append(" output ");
                            w.append(m.connected.name.as_str());
                            proof {
                                assert(w@ =~= "workspace "@ + ws.unwrap() + " output "@
                                    + m@.connected.name);
                            }
                            cmds.push(w);
                        },
                        Option::None => {},
                    }
                }
            } else {
                let mut l = String::new();
                l.append("output ");
                l.append(m.connected.name.as_str());
                l.append(" disable");
                proof {
                    assert(l@ =~= "output "@ + m@.connected.name + " disable"@);
                }
                cmds.push(l);
            }
            proof {
                assert(cmds@.map_values(|s: String| s@) =~= cmds_pre + spec_cmds_for(m@, ws));
                lemma_commands_push(mviews.take(i as int), mviews[i as int], ws);
                assert(mviews.take(i as int).push(mviews[i as int]) =~= mviews.take(i + 1));
            }
            i += 1;
        }
        proof {
            assert(mviews.take(config@.len() as int) =~= mviews);
        }
        cmds
    }
}

} // verus!
