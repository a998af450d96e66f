//! Automatic display configuration: parse profile definitions, match them
//! against the attached displays, and plan the compositor commands and hooks
//! to run for the first applicable profile.
//!
//! The root module holds the identity matcher and the profile resolver: a
//! profile applies when its entries can be paired one-to-one with the
//! attached displays, first-fit in declaration order.

pub mod backend;
pub mod frontend;
pub mod gnome;
pub mod kanshi;
pub mod store;
pub mod text;

use vstd::prelude::*;
use vstd::string::*;

use crate::backend::{ConnectedOutput, ConnectedOutputV};
use crate::frontend::{MatchedOutput, MatchedOutputV};
use crate::store::{SavedConfiguration, SavedConfigurationV, SavedOutput, SavedOutputV};
use crate::text::{hex_val_range, spec_hex_val, spec_lower_char, str_eq};

verus! {

// ------------------------------------------------------------------
// Connector classes
// ------------------------------------------------------------------
/// Case-insensitive prefix test: every character of `tag` agrees with the
/// front of `name` up to ASCII case.
pub open spec fn spec_ci_prefix(name: Seq<char>, tag: Seq<char>) -> bool {
    name.len() >= tag.len() && forall|k: int|
        0 <= k < tag.len() ==> spec_lower_char(name[k]) == spec_lower_char(tag[k])
}

/// The coarse connector class of a connector name: the first tag of the
/// fixed list below that is a case-insensitive prefix of the name.
pub open spec fn spec_connector_type(name: Seq<char>) -> Option<Seq<char>> {
    if spec_ci_prefix(name, "VGA"@) {
        Some("VGA"@)
    } else if spec_ci_prefix(name, "Unknown"@) {
        Some("Unknown"@)
    } else if spec_ci_prefix(name, "DVI"@) {
        Some("DVI"@)
    } else if spec_ci_prefix(name, "Composite"@) {
        Some("Composite"@)
    } else if spec_ci_prefix(name, "SVIDEO"@) {
        Some("SVIDEO"@)
    } else if spec_ci_prefix(name, "LVDS"@) {
        Some("LVDS"@)
    } else if spec_ci_prefix(name, "Component"@) {
        Some("Component"@)
    } else if spec_ci_prefix(name, "DIN"@) {
        Some("DIN"@)
    } else if spec_ci_prefix(name, "DP"@) {
        Some("DP"@)
    } else if spec_ci_prefix(name, "HDMI"@) {
        Some("HDMI"@)
    } else if spec_ci_prefix(name, "TV"@) {
        Some("TV"@)
    } else if spec_ci_prefix(name, "eDP"@) {
        Some("eDP"@)
    } else if spec_ci_prefix(name, "Virtual"@) {
        Some("Virtual"@)
    } else if spec_ci_prefix(name, "DSI"@) {
        Some("DSI"@)
    } else {
        None
    }
}

fn ci_prefix(name: &str, tag: &str) -> (r: bool)
    ensures
        r == spec_ci_prefix(name@, tag@),
{
    let nlen = name.unicode_len();
    let tlen = tag.unicode_len();
    if nlen < tlen {
        return false;
    }
    let mut i: usize = 0;
    while i < tlen
        invariant
            tlen <= nlen,
            nlen == name@.len(),
            tlen == tag@.len(),
            i <= tlen,
            forall|k: int| 0 <= k < i ==> spec_lower_char(name@[k]) == spec_lower_char(tag@[k]),
        decreases tlen - i,
    {
        let a = crate::text::lower_char(name.get_char(i));
        let b = crate::text::lower_char(tag.get_char(i));
        if a != b {
            return false;
        }
        i += 1;
    }
    true
}

/// The connector class of a connector name, as a tag from the fixed list.
pub fn connector_type(name: &str) -> (r: Option<String>)
    ensures
        match r {
            Option::Some(t) => spec_connector_type(name@) == Some(t@),
            Option::None => spec_connector_type(name@) is None,
        },
{
    if ci_prefix(name, "VGA") {
        Some("VGA".to_owned())
    } else if ci_prefix(name, "Unknown") {
        Some("Unknown".to_owned())
    } else if ci_prefix(name, "DVI") {
        Some("DVI".to_owned())
    } else if ci_prefix(name, "Composite") {
        Some("Composite".to_owned())
    } else if ci_prefix(name, "SVIDEO") {
        Some("SVIDEO".to_owned())
    } else if ci_prefix(name, "LVDS") {
        Some("LVDS".to_owned())
    } else if ci_prefix(name, "Component") {
        Some("Component".to_owned())
    } else if ci_prefix(name, "DIN") {
        Some("DIN".to_owned())
    } else if ci_prefix(name, "DP") {
        Some("DP".to_owned())
    } else if ci_prefix(name, "HDMI") {
        Some("HDMI".to_owned())
    } else if ci_prefix(name, "TV") {
        Some("TV".to_owned())
    } else if ci_prefix(name, "eDP") {
        Some("eDP".to_owned())
    } else if ci_prefix(name, "Virtual") {
        Some("Virtual".to_owned())
    } else if ci_prefix(name, "DSI") {
        Some("DSI".to_owned())
    } else {
        None
    }
}

// ------------------------------------------------------------------
// Identity matching
// ------------------------------------------------------------------
/// Whether a pattern is the hexadecimal form: the two-character prefix
/// followed by the digits of a code.
pub open spec fn spec_hex_pattern(s: Seq<char>) -> bool {
    s.len() >= 2 && s[0] == '0' && s[1] == 'x'
}

/// A hexadecimal pattern is well formed when its digits parse and the value
/// fits the compared code. A malformed one is a fatal input error for the
/// caller, never a silent non-match.
pub open spec fn spec_pattern_ok(s: Seq<char>, max: int) -> bool {
    spec_hex_pattern(s) ==> match spec_hex_val(s.skip(2)) {
        Option::Some(v) => v <= max,
        Option::None => false,
    }
}

/// Both numeric patterns of a profile entry are well formed: the product
/// against a 16-bit code, the serial against a 32-bit code.
pub open spec fn spec_saved_wf(s: SavedOutputV) -> bool {
    spec_pattern_ok(s.product, 0xFFFF) && spec_pattern_ok(s.serial, 0xFFFF_FFFF)
}

/// The connector criterion: an empty pattern passes; otherwise both names
/// must resolve to the same connector class.
pub open spec fn spec_connector_ok(cname: Seq<char>, sname: Seq<char>) -> bool {
    sname.len() == 0 || (spec_connector_type(cname) is Some && spec_connector_type(sname) is Some
        && spec_connector_type(cname) == spec_connector_type(sname))
}

/// Identity matching: all four criteria pass; an empty pattern is a free
/// pass for its criterion only.
pub open spec fn spec_matches(c: ConnectedOutputV, s: SavedOutputV) -> bool {
    &&& spec_connector_ok(c.name, s.name)
    &&& (s.vendor.len() > 0 ==> c.vendor == s.vendor)
    &&& (if spec_hex_pattern(s.product) {
        spec_hex_val(s.product.skip(2)) == Some(c.product as int)
    } else if s.product.len() > 0 {
        c.product_text is Some && c.product_text.unwrap() == s.product
    } else {
        true
    })
    &&& (if spec_hex_pattern(s.serial) {
        spec_hex_val(s.serial.skip(2)) == Some(c.serial as int)
    } else if s.serial.len() > 0 {
        c.serial_text is Some && c.serial_text.unwrap() == s.serial
    } else {
        true
    })
}

impl ConnectedOutput {
    /// Whether this display satisfies a profile entry's patterns.
    pub fn matches_saved(&self, saved: &SavedOutput) -> (r: bool)
        requires
            spec_saved_wf(saved@),
        ensures
            r == spec_matches(self@, saved@),
    {
        // Connector class
        if !saved.name.as_str().is_empty() {
            match connector_type(self.name.as_str()) {
                Option::Some(t) => {
                    match connector_type(saved.name.as_str()) {
                        Option::Some(st) => {
                            if !str_eq(t.as_str(), st.as_str()) {
                                return false;
                            }
                        },
                        Option::None => {
                            return false;
                        },
                    }
                },
                Option::None => {
                    return false;
                },
            }
        }
        // Vendor
        if !saved.vendor.as_str().is_empty() {
            if !str_eq(self.vendor.as_str(), saved.vendor.as_str()) {
                return false;
            }
        }
        // Product
        let ps = saved.product.as_str();
        let plen = ps.unicode_len();
        if plen >= 2 && ps.get_char(0) == '0' && ps.get_char(1) == 'x' {
            proof {
                assert(saved@.product.skip(2) =~= saved@.product.subrange(2, plen as int));
            }
            match hex_val_range(ps, 2, plen) {
                Option::Some(v) => {
                    if v != self.product as u64 {
                        return false;
                    }
                },
                Option::None => {
                    proof {
                        assert(false);
                    }
                    return false;
                },
            }
        } else if plen > 0 {
            match &self.product_text {
                Option::Some(t) => {
                    if !str_eq(t.as_str(), ps) {
                        return false;
                    }
                },
                Option::None => {
                    return false;
                },
            }
        }
        // Serial
        let ss = saved.serial.as_str();
        let slen = ss.unicode_len();
        if slen >= 2 && ss.get_char(0) == '0' && ss.get_char(1) == 'x' {
            proof {
                assert(saved@.serial.skip(2) =~= saved@.serial.subrange(2, slen as int));
            }
            match hex_val_range(ss, 2, slen) {
                Option::Some(v) => {
                    if v != self.serial as u64 {
                        return false;
                    }
                },
                Option::None => {
                    proof {
                        assert(false);
                    }
                    return false;
                },
            }
        } else if slen > 0 {
            match &self.serial_text {
                Option::Some(t) => {
                    if !str_eq(t.as_str(), ss) {
                        return false;
                    }
                },
                Option::None => {
                    return false;
                },
            }
        }
        true
    }
}

/// With every pattern field empty, every display matches: the full
/// wildcard entry.
pub proof fn lemma_wildcard_matches(c: ConnectedOutputV, s: SavedOutputV)
    requires
        s.name.len() == 0,
        s.vendor.len() == 0,
        s.product.len() == 0,
        s.serial.len() == 0,
    ensures
        spec_matches(c, s),
{
}

/// A serial pattern in hexadecimal form whose value differs from the
/// display's serial code defeats the match, whatever the other fields say.
pub proof fn lemma_serial_hex_mismatch(c: ConnectedOutputV, s: SavedOutputV)
    requires
        spec_hex_pattern(s.serial),
        spec_hex_val(s.serial.skip(2)) != Some(c.serial as int),
    ensures
        !spec_matches(c, s),
{
}

// ------------------------------------------------------------------
// Profile resolution
// ------------------------------------------------------------------
pub open spec fn spec_output_views(s: Seq<ConnectedOutput>) -> Seq<ConnectedOutputV> {
    s.map_values(|o: ConnectedOutput| o@)
}

pub open spec fn spec_config_views(s: Seq<SavedConfiguration>) -> Seq<SavedConfigurationV> {
    s.map_values(|c: SavedConfiguration| c@)
}

/// Every entry of every profile has well-formed numeric patterns.
pub open spec fn spec_config_wf(c: SavedConfigurationV) -> bool {
    forall|i: int| 0 <= i < c.outputs.len() ==> spec_saved_wf(#[trigger] c.outputs[i])
}

pub open spec fn spec_configs_wf(cs: Seq<SavedConfigurationV>) -> bool {
    forall|i: int| 0 <= i < cs.len() ==> spec_config_wf(#[trigger] cs[i])
}

/// The first display at or after `j` that is still free and matches `s`.
pub open spec fn spec_find_free(
    c: Seq<ConnectedOutputV>,
    used: Seq<bool>,
    s: SavedOutputV,
    j: int,
) -> Option<int>
    decreases c.len() - j
        when 0 <= j
{
    if j >= c.len() {
        None
    } else if !used[j] && spec_matches(c[j], s) {
        Some(j)
    } else {
        spec_find_free(c, used, s, j + 1)
    }
}

/// Greedy first-fit pairing: entry after entry, in declaration order, each
/// takes the first free display that matches it; no backtracking.
pub open spec fn spec_assign(
    c: Seq<ConnectedOutputV>,
    used: Seq<bool>,
    specs: Seq<SavedOutputV>,
    k: int,
) -> Option<Seq<int>>
    decreases specs.len() - k
        when 0 <= k
{
    if k >= specs.len() {
        Some(Seq::empty())
    } else {
        match spec_find_free(c, used, specs[k], 0) {
            Option::None => None,
            Option::Some(j) => match spec_assign(c, used.update(j, true), specs, k + 1) {
                Option::None => None,
                Option::Some(rest) => Some(seq![j] + rest),
            },
        }
    }
}

pub open spec fn spec_all_free(n: int) -> Seq<bool> {
    Seq::new(n as nat, |i: int| false)
}

/// A profile applies when it has exactly one entry per attached display and
/// the first-fit pairing succeeds.
pub open spec fn spec_applicable(c: Seq<ConnectedOutputV>, cfg: SavedConfigurationV) -> bool {
    cfg.outputs.len() == c.len() && spec_assign(c, spec_all_free(c.len() as int), cfg.outputs, 0)
        is Some
}

/// The first applicable profile at or after `i`, by declaration order.
pub open spec fn spec_resolve_from(
    c: Seq<ConnectedOutputV>,
    cfgs: Seq<SavedConfigurationV>,
    i: int,
) -> Option<int>
    decreases cfgs.len() - i
        when 0 <= i
{
    if i >= cfgs.len() {
        None
    } else if spec_applicable(c, cfgs[i]) {
        Some(i)
    } else {
        spec_resolve_from(c, cfgs, i + 1)
    }
}

/// The chosen profile together with its display pairing.
#[derive(Debug)]
pub struct MatchedConfiguration {
    pub outputs: Vec<MatchedOutput>,
    pub saved: SavedConfiguration,
}

/// Mathematical image of a `MatchedConfiguration`.
pub struct MatchedConfigurationV {
    pub outputs: Seq<MatchedOutputV>,
    pub saved: SavedConfigurationV,
}

impl View for MatchedConfiguration {
    type V = MatchedConfigurationV;

    open spec fn view(&self) -> MatchedConfigurationV {
        MatchedConfigurationV {
            outputs: self.outputs@.map_values(|m: MatchedOutput| m@),
            saved: self.saved@,
        }
    }
}

/// What `resolve` promises: nothing is chosen exactly when no profile is
/// applicable, and a chosen profile is the first applicable one, paired
/// entry by entry with the displays the first-fit search selected.
pub open spec fn spec_resolution_ok(
    cv: Seq<ConnectedOutputV>,
    gv: Seq<SavedConfigurationV>,
    r: Option<MatchedConfigurationV>,
) -> bool {
    match spec_resolve_from(cv, gv, 0) {
        Option::None => r is None,
        Option::Some(i) => match r {
            Option::None => false,
            Option::Some(mc) => {
                let asg = spec_assign(cv, spec_all_free(cv.len() as int), gv[i].outputs, 0).unwrap();
                &&& mc.saved == gv[i]
                &&& mc.outputs.len() == gv[i].outputs.len()
                &&& forall|k: int|
                    0 <= k < mc.outputs.len() ==> (#[trigger] mc.outputs[k]).saved == gv[i].outputs[k]
                        && mc.outputs[k].connected == cv[asg[k]]
            },
        },
    }
}

/// The first display, in enumeration order, that is still free and matches
/// the given profile entry.
fn find_free(connected: &Vec<ConnectedOutput>, used: &Vec<bool>, saved: &SavedOutput) -> (r: Option<
    usize,
>)
    requires
        spec_saved_wf(saved@),
        used@.len() == connected@.len(),
    ensures
        match r {
            Option::Some(j) => spec_find_free(spec_output_views(connected@), used@, saved@, 0)
                == Some(j as int) && j < connected@.len(),
            Option::None => spec_find_free(spec_output_views(connected@), used@, saved@, 0) is None,
        },
{
    let ghost cv = spec_output_views(connected@);
    let mut j: usize = 0;
    while j < connected.len()
        invariant
            spec_saved_wf(saved@),
            cv == spec_output_views(connected@),
            used@.len() == connected@.len(),
            j <= connected.len(),
            spec_find_free(cv, used@, saved@, 0) == spec_find_free(cv, used@, saved@, j as int),
        decreases connected.len() - j,
    {
        if !used[j] && connected[j].matches_saved(saved) {
            return Some(j);
        }
        j += 1;
    }
    None
}

/// The first-fit pairing of one profile's entries against the displays.
fn try_config(connected: &Vec<ConnectedOutput>, cfg: &SavedConfiguration) -> (r: Option<Vec<usize>>)
    requires
        spec_config_wf(cfg@),
    ensures
        match r {
            Option::Some(idxs) => spec_assign(
                spec_output_views(connected@),
                spec_all_free(connected@.len() as int),
                cfg@.outputs,
                0,
            ) == Some(idxs@.map_values(|u: usize| u as int)) && idxs@.len() == cfg@.outputs.len()
                && (forall|m: int| 0 <= m < idxs@.len() ==> #[trigger] idxs@[m] < connected@.len()),
            Option::None => spec_assign(
                spec_output_views(connected@),
                spec_all_free(connected@.len() as int),
                cfg@.outputs,
                0,
            ) is None,
        },
{
    let ghost cv = spec_output_views(connected@);
    let ghost sv = cfg@.outputs;
    let mut used: Vec<bool> = Vec::new();
    let mut n: usize = 0;
    while n < connected.len()
        invariant
            n <= connected.len(),
            used@ =~= spec_all_free(n as int),
        decreases connected.len() - n,
    {
        used.push(false);
        n += 1;
    }
    proof {
        assert(used@ =~= spec_all_free(connected@.len() as int));
    }
    let mut idxs: Vec<usize> = Vec::new();
    let mut k: usize = 0;
    while k < cfg.outputs.len()
        invariant
            spec_config_wf(cfg@),
            cv == spec_output_views(connected@),
            sv == cfg@.outputs,
            k <= cfg.outputs.len(),
            sv.len() == cfg.outputs.len(),
            used@.len() == connected@.len(),
            idxs@.len() == k as int,
            forall|m: int| 0 <= m < k ==> #[trigger] idxs@[m] < connected@.len(),
            match spec_assign(cv, used@, sv, k as int) {
                Option::None => spec_assign(cv, spec_all_free(cv.len() as int), sv, 0) is None,
                Option::Some(rest) => spec_assign(cv, spec_all_free(cv.len() as int), sv, 0)
                    == Some(idxs@.map_values(|u: usize| u as int) + rest),
            },
        decreases cfg.outputs.len() - k,
    {
        let found = find_free(connected, &used, &cfg.outputs[k]);
        match found {
            Option::None => {
                proof {
                    assert(spec_find_free(cv, used@, sv[k as int], 0) is None);
                    assert(spec_assign(cv, used@, sv, k as int) is None);
                }
                return None;
            },
            Option::Some(j) => {
                proof {
                    assert(spec_find_free(cv, used@, sv[k as int], 0) == Some(j as int));
                }
                let ghost used_old = used@;
                let ghost idxs_old = idxs@;
                used.set(j, true);
                idxs.push(j);
                proof {
                    assert(used@ =~= used_old.update(j as int, true));
                    assert(idxs@.map_values(|u: usize| u as int) =~= idxs_old.map_values(
                        |u: usize| u as int,
                    ).push(j as int));
                    if spec_assign(cv, used@, sv, k + 1) is Some {
                        let rest = spec_assign(cv, used@, sv, k + 1).unwrap();
                        assert(spec_assign(cv, used_old, sv, k as int) == Some(
                            seq![j as int] + rest,
                        ));
                        assert(idxs_old.map_values(|u: usize| u as int) + (seq![j as int] + rest)
                            =~= idxs@.map_values(|u: usize| u as int) + rest);
                    } else {
                        assert(spec_assign(cv, used_old, sv, k as int) is None);
                    }
                }
                k += 1;
            },
        }
    }
    proof {
        assert(spec_assign(cv, used@, sv, k as int) == Some(Seq::<int>::empty()));
        assert(idxs@.map_values(|u: usize| u as int) + Seq::<int>::empty() =~= idxs@.map_values(
            |u: usize| u as int,
        ));
    }
    Some(idxs)
}

/// Finds the first applicable profile and its display pairing: profiles are
/// tried in declaration order; a profile whose entry count differs from the
/// display count is rejected outright; the first success wins.
pub fn resolve(connected: &Vec<ConnectedOutput>, configurations: &Vec<SavedConfiguration>) -> (r:
    Option<MatchedConfiguration>)
    requires
        spec_configs_wf(spec_config_views(configurations@)),
    ensures
        spec_resolution_ok(
            spec_output_views(connected@),
            spec_config_views(configurations@),
            match r {
                Option::Some(mc) => Some(mc@),
                Option::None => None,
            },
        ),
{
    let ghost cv = spec_output_views(connected@);
    let ghost gv = spec_config_views(configurations@);
    let mut i: usize = 0;
    while i < configurations.len()
        invariant
            spec_configs_wf(gv),
            cv == spec_output_views(connected@),
            gv == spec_config_views(configurations@),
            i <= configurations.len(),
            gv.len() == configurations.len(),
            spec_resolve_from(cv, gv, 0) == spec_resolve_from(cv, gv, i as int),
        decreases configurations.len() - i,
    {
        let cfg = &configurations[i];
        proof {
            assert(gv[i as int] == cfg@);
        }
        if cfg.outputs.len() == connected.len() {
            match try_config(connected, cfg) {
                Option::Some(idxs) => {
                    proof {
                        assert(spec_applicable(cv, gv[i as int]));
                        assert(spec_resolve_from(cv, gv, i as int) == Some(i as int));
                    }
                    let mut outs: Vec<MatchedOutput> = Vec::new();
                    let mut k: usize = 0;
                    let ghost asg = spec_assign(
                        cv,
                        spec_all_free(cv.len() as int),
                        gv[i as int].outputs,
                        0,
                    ).unwrap();
                    while k < idxs.len()
                        invariant
                            k <= idxs.len(),
                            i < configurations.len(),
                            gv == spec_config_views(configurations@),
                            cv == spec_output_views(connected@),
                            idxs@.len() == cfg@.outputs.len(),
                            cfg == &configurations[i as int],
                            asg == idxs@.map_values(|u: usize| u as int),
                            forall|m: int| 0 <= m < idxs@.len() ==> #[trigger] idxs@[m]
                                < connected@.len(),
                            outs@.len() == k as int,
                            forall|m: int|
                                0 <= m < k ==> (#[trigger] outs@[m]@).saved == cfg@.outputs[m]
                                    && outs@[m]@.connected == cv[idxs@[m] as int],
                        decreases idxs.len() - k,
                    {
                        let j = idxs[k];
                        outs.push(
                            MatchedOutput {
                                connected: connected[j].clone(),
                                saved: cfg.outputs[k].clone(),
                            },
                        );
                        k += 1;
                    }
                    let mc = MatchedConfiguration { outputs: outs, saved: cfg.clone() };
                    proof {
                        assert(mc@.saved == gv[i as int]);
                        assert forall|m: int| 0 <= m < mc@.outputs.len() implies (#[trigger] mc@
                            .outputs[m]).saved == gv[i as int].outputs[m] && mc@.outputs[m].connected
                            == cv[asg[m]] by {
                            assert(mc@.outputs[m] == outs@[m]@);
                        }
                    }
                    return Some(mc);
                },
                Option::None => {
                    proof {
                        assert(!spec_applicable(cv, gv[i as int]));
                    }
                },
            }
        } else {
            proof {
                assert(!spec_applicable(cv, gv[i as int]));
            }
        }
        i += 1;
    }
    proof {
        assert(spec_resolve_from(cv, gv, i as int) is None);
    }
    None
}

/// Checks ahead of resolution that every numeric pattern of every profile
/// is well formed, so that a malformed pattern can be reported as the
/// fatal input error it is instead of being compared.
pub fn patterns_wf(configurations: &Vec<SavedConfiguration>) -> (r: bool)
    ensures
        r == spec_configs_wf(spec_config_views(configurations@)),
{
    let ghost gv = spec_config_views(configurations@);
    let mut i: usize = 0;
    while i < configurations.len()
        invariant
            i <= configurations.len(),
            gv == spec_config_views(configurations@),
            gv.len() == configurations.len(),
            forall|a: int| 0 <= a < i ==> spec_config_wf(#[trigger] gv[a]),
        decreases configurations.len() - i,
    {
        let cfg = &configurations[i];
        let mut k: usize = 0;
        while k < cfg.outputs.len()
            invariant
                i < configurations.len(),
                gv == spec_config_views(configurations@),
                cfg == &configurations[i as int],
                k <= cfg.outputs.len(),
                forall|b: int| 0 <= b < k ==> spec_saved_wf(#[trigger] cfg@.outputs[b]),
            decreases cfg.outputs.len() - k,
        {
            let o = &cfg.outputs[k];
            if !pattern_ok(o.product.as_str(), 0xFFFFu64) {
                proof {
                    assert(!spec_saved_wf(cfg@.outputs[k as int]));
                    assert(!spec_config_wf(gv[i as int]));
                }
                return false;
            }
            if !pattern_ok(o.serial.as_str(), 0xFFFF_FFFFu64) {
                proof {
                    assert(!spec_saved_wf(cfg@.outputs[k as int]));
                    assert(!spec_config_wf(gv[i as int]));
                }
                return false;
            }
            k += 1;
        }
        proof {
            assert(spec_config_wf(gv[i as int]));
        }
        i += 1;
    }
    true
}

fn pattern_ok(s: &str, max: u64) -> (r: bool)
    ensures
        r == spec_pattern_ok(s@, max as int),
{
    let len = s.unicode_len();
    if len >= 2 && s.get_char(0) == '0' && s.get_char(1) == 'x' {
        proof {
            assert(s@.skip(2) =~= s@.subrange(2, len as int));
        }
        match hex_val_range(s, 2, len) {
            Option::Some(v) => v <= max,
            Option::None => false,
        }
    } else {
        true
    }
}

// ------------------------------------------------------------------
// Resolution laws
// ------------------------------------------------------------------
proof fn lemma_resolve_len_mismatch_from(
    cv: Seq<ConnectedOutputV>,
    gv: Seq<SavedConfigurationV>,
    i: int,
)
    requires
        0 <= i,
        forall|a: int| 0 <= a < gv.len() ==> (#[trigger] gv[a]).outputs.len() != cv.len(),
    ensures
        spec_resolve_from(cv, gv, i) is None,
    decreases gv.len() - i,
{
    if i < gv.len() {
        lemma_resolve_len_mismatch_from(cv, gv, i + 1);
    }
}

/// When every profile's entry count differs from the display count, the
/// resolver chooses nothing.
pub proof fn lemma_resolve_len_mismatch(cv: Seq<ConnectedOutputV>, gv: Seq<SavedConfigurationV>)
    requires
        forall|a: int| 0 <= a < gv.len() ==> (#[trigger] gv[a]).outputs.len() != cv.len(),
    ensures
        spec_resolve_from(cv, gv, 0) is None,
{
    lemma_resolve_len_mismatch_from(cv, gv, 0);
}

proof fn lemma_find_free_props(c: Seq<ConnectedOutputV>, used: Seq<bool>, s: SavedOutputV, j: int)
    requires
        0 <= j,
    ensures
        match spec_find_free(c, used, s, j) {
            Option::Some(x) => j <= x < c.len() && !used[x] && spec_matches(c[x], s),
            Option::None => true,
        },
    decreases c.len() - j,
{
    if j < c.len() && !(!used[j] && spec_matches(c[j], s)) {
        lemma_find_free_props(c, used, s, j + 1);
    }
}

proof fn lemma_assign_props(
    c: Seq<ConnectedOutputV>,
    used: Seq<bool>,
    specs: Seq<SavedOutputV>,
    k: int,
)
    requires
        0 <= k,
        used.len() == c.len(),
    ensures
        match spec_assign(c, used, specs, k) {
            Option::Some(asg) => {
                &&& asg.len() == if k <= specs.len() {
                    specs.len() - k
                } else {
                    0
                }
                &&& forall|m: int|
                    0 <= m < asg.len() ==> 0 <= #[trigger] asg[m] < c.len() && !used[asg[m]]
                        && spec_matches(c[asg[m]], specs[k + m])
                &&& forall|a: int, b: int| 0 <= a < b < asg.len() ==> asg[a] != asg[b]
            },
            Option::None => true,
        },
    decreases specs.len() - k,
{
    if k >= specs.len() {
    } else {
        match spec_find_free(c, used, specs[k], 0) {
            Option::None => {},
            Option::Some(j) => {
                lemma_find_free_props(c, used, specs[k], 0);
                lemma_assign_props(c, used.update(j, true), specs, k + 1);
            },
        }
    }
}

/// The pairing the resolver returns is a bijection: exactly one entry per
/// display, every index in range, and no display used twice.
pub proof fn lemma_resolve_bijection(cv: Seq<ConnectedOutputV>, gv: Seq<SavedConfigurationV>)
    ensures
        match spec_resolve_from(cv, gv, 0) {
            Option::Some(i) => {
                let asg = spec_assign(cv, spec_all_free(cv.len() as int), gv[i].outputs, 0).unwrap();
                &&& 0 <= i < gv.len()
                &&& gv[i].outputs.len() == cv.len()
                &&& asg.len() == gv[i].outputs.len()
                &&& forall|m: int|
                    0 <= m < asg.len() ==> 0 <= #[trigger] asg[m] < cv.len() && spec_matches(
                        cv[asg[m]],
                        gv[i].outputs[m],
                    )
                &&& forall|a: int, b: int| 0 <= a < b < asg.len() ==> asg[a] != asg[b]
            },
            Option::None => true,
        },
{
    lemma_resolve_first_applicable(cv, gv, 0);
    match spec_resolve_from(cv, gv, 0) {
        Option::Some(i) => {
            lemma_assign_props(cv, spec_all_free(cv.len() as int), gv[i].outputs, 0);
        },
        Option::None => {},
    }
}

// ------------------------------------------------------------------
// Cycle planning
// ------------------------------------------------------------------
/// What one control-loop cycle does after enumeration and reload: the
/// layout commands to send, then the hook command lines to launch.
pub struct CyclePlan {
    pub commands: Vec<String>,
    pub hooks: Vec<Vec<String>>,
}

/// The display pairing of the resolved profile `i`, as matched pairs in
/// entry order.
pub open spec fn spec_resolved_pairs(
    cv: Seq<ConnectedOutputV>,
    gv: Seq<SavedConfigurationV>,
    i: int,
) -> Seq<MatchedOutputV> {
    let asg = spec_assign(cv, spec_all_free(cv.len() as int), gv[i].outputs, 0).unwrap();
    Seq::new(
        gv[i].outputs.len() as nat,
        |k: int| MatchedOutputV { connected: cv[asg[k]], saved: gv[i].outputs[k] },
    )
}

/// Decides one cycle: when no profile is applicable nothing at all is
/// emitted and no hook runs; when one is, the commands are exactly those
/// of its pairing and the hooks are exactly its post-apply commands.
pub fn plan_cycle(
    frontend: &frontend::SwayFrontend,
    connected: &Vec<ConnectedOutput>,
    configurations: &Vec<SavedConfiguration>,
) -> (r: CyclePlan)
    requires
        spec_configs_wf(spec_config_views(configurations@)),
    ensures
        spec_resolve_from(spec_output_views(connected@), spec_config_views(configurations@), 0)
            is None ==> r.commands@.len() == 0 && r.hooks@.len() == 0,
        match spec_resolve_from(
            spec_output_views(connected@),
            spec_config_views(configurations@),
            0,
        ) {
            Option::Some(i) => r.commands@.map_values(|s: String| s@) == frontend::spec_commands(
                spec_resolved_pairs(
                    spec_output_views(connected@),
                    spec_config_views(configurations@),
                    i,
                ),
                frontend.spec_workspace(),
            ) && r.hooks@.map_values(|e: Vec<String>| e@.map_values(|s: String| s@))
                == spec_config_views(configurations@)[i].exec_cmds,
            Option::None => true,
        },
{
    let ghost cv = spec_output_views(connected@);
    let ghost gv = spec_config_views(configurations@);
    match resolve(connected, configurations) {
        Option::Some(mc) => {
            proof {
                let i = spec_resolve_from(cv, gv, 0).unwrap();
                assert(mc@.outputs =~= spec_resolved_pairs(cv, gv, i));
            }
            let commands = frontend.get_commands(Some(&mc.outputs));
            let hooks = mc.saved.exec_cmds;
            proof {
                if spec_resolve_from(cv, gv, 0) is None {
                    assert(false);
                }
            }
            CyclePlan { commands, hooks }
        },
        Option::None => CyclePlan { commands: Vec::new(), hooks: Vec::new() },
    }
}

/// Profiles are tried in declaration order and the first applicable one
/// wins: everything before the chosen profile is inapplicable, and when
/// nothing is chosen, nothing was applicable.
pub proof fn lemma_resolve_first_applicable(
    cv: Seq<ConnectedOutputV>,
    gv: Seq<SavedConfigurationV>,
    i: int,
)
    requires
        0 <= i,
    ensures
        match spec_resolve_from(cv, gv, i) {
            Option::Some(x) => i <= x < gv.len() && spec_applicable(cv, gv[x]) && forall|a: int|
                i <= a < x ==> !spec_applicable(cv, #[trigger] gv[a]),
            Option::None => forall|a: int| i <= a < gv.len() ==> !spec_applicable(cv, #[trigger] gv[a]),
        },
    decreases gv.len() - i,
{
    if i < gv.len() && !spec_applicable(cv, gv[i]) {
        lemma_resolve_first_applicable(cv, gv, i + 1);
    }
}

} // verus!
