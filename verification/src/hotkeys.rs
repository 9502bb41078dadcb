//! Global hotkeys: the actions, the saved configuration, the rule a binding must satisfy, and
//! the volume arithmetic of the volume keys. Registering keys with the operating system happens
//! outside the library.

use vstd::prelude::*;

use crate::codec::decimal_i64;
use crate::text::{chars_of, push_text, slice_to_vec, string_of, trim, trim_bounds};

verus! {

/// The settings key the configuration is saved under.
pub const SETTINGS_KEY: &'static str = "global_hotkeys";

/// Playback and application actions a hotkey can trigger.
#[derive(Debug, Clone, Copy, PartialEq, Eq, Hash, Structural)]
pub enum HotkeyAction {
    PlayPause,
    NextTrack,
    PrevTrack,
    VolumeUp,
    VolumeDown,
    MuteToggle,
    SeekForward,
    SeekBackward,
    ToggleShuffle,
    ToggleRepeat,
    ShowApp,
}

/// Whether some binding is for `a`.
pub open spec fn bound(b: Seq<(HotkeyAction, String)>, a: HotkeyAction) -> bool {
    exists|i: int| 0 <= i < b.len() && (#[trigger] b[i]).0 == a
}

/// Each action bound at most once.
pub open spec fn unique_actions(b: Seq<(HotkeyAction, String)>) -> bool {
    forall|i: int, j: int|
        0 <= i < b.len() && 0 <= j < b.len() && i != j ==> (#[trigger] b[i]).0 != (#[trigger] b[j]).0
}

/// The hotkey configuration saved in the settings.
#[derive(Debug, Clone)]
pub struct HotkeysConfig {
    pub enabled: bool,
    /// Action to shortcut text, such as `Ctrl+Alt+Space`; each action at most once.
    pub bindings: Vec<(HotkeyAction, String)>,
}

/// What registering a configuration gave: whether every binding took, the configuration, and
/// the error of each binding that did not.
#[derive(Debug, Clone)]
pub struct HotkeyRegisterResult {
    pub success: bool,
    pub config: HotkeysConfig,
    pub errors: Vec<(HotkeyAction, String)>,
}

/// The default bindings. Mute, shuffle and repeat start unbound: Windows sends AltGr as
/// Ctrl+Alt, so a Ctrl+Alt+letter default would take a character from every app.
pub open spec fn default_bindings() -> Seq<(HotkeyAction, Seq<char>)> {
    seq![
        (HotkeyAction::PlayPause, "Ctrl+Alt+Space"@),
        (HotkeyAction::NextTrack, "Ctrl+Alt+Right"@),
        (HotkeyAction::PrevTrack, "Ctrl+Alt+Left"@),
        (HotkeyAction::VolumeUp, "Ctrl+Alt+Up"@),
        (HotkeyAction::VolumeDown, "Ctrl+Alt+Down"@),
        (HotkeyAction::SeekForward, "Ctrl+Alt+PageUp"@),
        (HotkeyAction::SeekBackward, "Ctrl+Alt+PageDown"@),
        (HotkeyAction::ShowApp, "Ctrl+Alt+Home"@),
    ]
}

pub open spec fn bindings_view(b: Seq<(HotkeyAction, String)>) -> Seq<(HotkeyAction, Seq<char>)> {
    b.map_values(|e: (HotkeyAction, String)| (e.0, e.1@))
}

impl HotkeysConfig {
    /// Each action bound at most once.
    pub open spec fn wf(&self) -> bool {
        unique_actions(self.bindings@)
    }

    /// The default configuration: off, with the default bindings.
    pub fn default_config() -> (r: HotkeysConfig)
        ensures
            r.wf(),
            !r.enabled,
            bindings_view(r.bindings@) == default_bindings(),
    {
        let mut b: Vec<(HotkeyAction, String)> = Vec::new();
        b.push((HotkeyAction::PlayPause, "Ctrl+Alt+Space".to_owned()));
        b.push((HotkeyAction::NextTrack, "Ctrl+Alt+Right".to_owned()));
        b.push((HotkeyAction::PrevTrack, "Ctrl+Alt+Left".to_owned()));
        b.push((HotkeyAction::VolumeUp, "Ctrl+Alt+Up".to_owned()));
        b.push((HotkeyAction::VolumeDown, "Ctrl+Alt+Down".to_owned()));
        b.push((HotkeyAction::SeekForward, "Ctrl+Alt+PageUp".to_owned()));
        b.push((HotkeyAction::SeekBackward, "Ctrl+Alt+PageDown".to_owned()));
        b.push((HotkeyAction::ShowApp, "Ctrl+Alt+Home".to_owned()));
        assert(bindings_view(b@) =~= default_bindings());
        HotkeysConfig { enabled: false, bindings: b }
    }

    /// The shortcut text bound to an action.
    pub fn binding(&self, a: HotkeyAction) -> (r: Option<&String>)
        requires
            self.wf(),
        ensures
            match r {
                Some(s) => exists|i: int|
                    0 <= i < self.bindings@.len() && (#[trigger] self.bindings@[i]).0 == a
                        && self.bindings@[i].1 == *s,
                None => !bound(self.bindings@, a),
            },
    {
        let mut i: usize = 0;
        while i < self.bindings.len()
            invariant
                0 <= i <= self.bindings@.len(),
                forall|j: int| 0 <= j < i ==> (#[trigger] self.bindings@[j]).0 != a,
            decreases self.bindings.len() - i,
        {
            if self.bindings[i].0 == a {
                return Some(&self.bindings[i].1);
            }
            i += 1;
        }
        None
    }
}

/// The shortcuts to register: with hotkeys on, every binding whose text is not blank, trimmed,
/// in order; with hotkeys off, none.
pub open spec fn plan_of(enabled: bool, b: Seq<(HotkeyAction, Seq<char>)>) -> Seq<(HotkeyAction, Seq<char>)>
    decreases b.len(),
{
    if !enabled || b.len() == 0 {
        seq![]
    } else {
        let rest = plan_of(enabled, b.drop_last());
        let t = trim(b.last().1);
        if t.len() > 0 {
            rest.push((b.last().0, t))
        } else {
            rest
        }
    }
}

/// The shortcuts a configuration asks to register.
pub fn registration_plan(config: &HotkeysConfig) -> (r: Vec<(HotkeyAction, String)>)
    ensures
        bindings_view(r@) == plan_of(config.enabled, bindings_view(config.bindings@)),
{
    let mut out: Vec<(HotkeyAction, String)> = Vec::new();
    let ghost bv = bindings_view(config.bindings@);
    if !config.enabled {
        assert(bindings_view(out@) =~= Seq::<(HotkeyAction, Seq<char>)>::empty());
        return out;
    }
    let mut i: usize = 0;
    assert(bv.take(0) =~= Seq::<(HotkeyAction, Seq<char>)>::empty());
    assert(bindings_view(out@) =~= Seq::<(HotkeyAction, Seq<char>)>::empty());
    while i < config.bindings.len()
        invariant
            config.enabled,
            bv == bindings_view(config.bindings@),
            0 <= i <= config.bindings@.len(),
            bindings_view(out@) == plan_of(true, bv.take(i as int)),
        decreases config.bindings.len() - i,
    {
        assert(bv.take(i + 1).drop_last() == bv.take(i as int));
        assert(bv.take(i + 1).last() == (config.bindings@[i as int].0, config.bindings@[i as int].1@));
        let v = chars_of(config.bindings[i].1.as_str());
        let (a, b) = trim_bounds(v.as_slice(), 0, v.len());
        assert(v@.subrange(0, v@.len() as int) == v@);
        if a < b {
            let t = slice_to_vec(v.as_slice(), a, b);
            let ghost before = out@;
            out.push((config.bindings[i].0, string_of(t.as_slice())));
            assert(bindings_view(out@) =~= bindings_view(before).push(
                (config.bindings@[i as int].0, t@),
            ));
        }
        i += 1;
    }
    assert(bv.take(config.bindings@.len() as int) == bv);
    out
}

/// What the shortcut parser saw in a binding: its modifiers and whether the key is F1-F24.
#[derive(Debug, Clone, Copy)]
pub struct ShortcutShape {
    pub ctrl: bool,
    pub alt: bool,
    pub super_key: bool,
    pub function_key: bool,
}

/// The message for a bare key.
pub open spec fn needs_modifier_text(input: Seq<char>) -> Seq<char> {
    "'"@ + input + "' needs Ctrl, Alt or Super"@
}

/// A global grab on a bare key would take it from every app: a binding needs Ctrl, Alt or
/// Super, unless its key is a function key.
pub fn check_shortcut(input: &str, shape: ShortcutShape) -> (r: Result<(), String>)
    ensures
        (shape.ctrl || shape.alt || shape.super_key || shape.function_key) <==> r is Ok,
        r matches Err(e) ==> e@ == needs_modifier_text(input@),
{
    if shape.ctrl || shape.alt || shape.super_key || shape.function_key {
        return Ok(());
    }
    let mut out: Vec<char> = Vec::new();
    push_text(&mut out, "'");
    push_text(&mut out, input);
    push_text(&mut out, "' needs Ctrl, Alt or Super");
    Err(string_of(out.as_slice()))
}

/// The outcome of registering a configuration, given the error of each binding that failed.
pub fn register_result(config: HotkeysConfig, errors: Vec<(HotkeyAction, String)>) -> (r:
    HotkeyRegisterResult)
    ensures
        r.success == (errors@.len() == 0),
        r.config == config,
        r.errors == errors,
{
    let success = errors.len() == 0;
    HotkeyRegisterResult { success, config, errors }
}

/// A configuration as values: whether it is on, and its bindings.
pub open spec fn config_view(c: HotkeysConfig) -> (bool, Seq<(HotkeyAction, Seq<char>)>) {
    (c.enabled, bindings_view(c.bindings@))
}

/// A copy of a configuration.
fn copy_config(c: &HotkeysConfig) -> (r: HotkeysConfig)
    ensures
        config_view(r) == config_view(*c),
{
    let mut bindings: Vec<(HotkeyAction, String)> = Vec::new();
    let mut k: usize = 0;
    while k < c.bindings.len()
        invariant
            0 <= k <= c.bindings@.len(),
            bindings@.len() == k,
            forall|j: int|
                0 <= j < k ==> (#[trigger] bindings@[j]).0 == c.bindings@[j].0 && bindings@[j].1@
                    == c.bindings@[j].1@,
        decreases c.bindings.len() - k,
    {
        let a = c.bindings[k].0;
        let t = c.bindings[k].1.clone();
        bindings.push((a, t));
        k += 1;
    }
    assert(bindings_view(bindings@) =~= bindings_view(c.bindings@));
    HotkeysConfig { enabled: c.enabled, bindings }
}

/// The registration errors of a plan: for each planned binding whose registration gave an error
/// message (`outcomes[k]`, one outcome per planned binding), its action and that message, in
/// plan order.
pub open spec fn failures(
    plan: Seq<(HotkeyAction, Seq<char>)>,
    outcomes: Seq<Option<String>>,
) -> Seq<(HotkeyAction, Seq<char>)>
    decreases outcomes.len(),
{
    if outcomes.len() == 0 {
        seq![]
    } else {
        let rest = failures(plan, outcomes.drop_last());
        match outcomes.last() {
            Some(m) => rest.push((plan[outcomes.len() - 1].0, m@)),
            None => rest,
        }
    }
}

/// Apply a new configuration once the shortcuts registered before were to be cleared. When
/// clearing them failed, the configuration in force stays as it was, and the result reports
/// failure with that configuration and no binding errors. Otherwise the new configuration is in
/// force; each binding of its `registration_plan` was tried, with outcome `outcomes[k]` (`None`
/// registered, `Some` the parse or registration error); the result lists the failed bindings
/// with their messages, in plan order, and succeeds exactly when there are none. So a
/// configuration that is off, or has only blank bindings, always succeeds.
pub fn apply_config(
    current: &mut HotkeysConfig,
    new_config: HotkeysConfig,
    cleared: bool,
    outcomes: Vec<Option<String>>,
) -> (r: HotkeyRegisterResult)
    requires
        cleared ==> outcomes@.len() == plan_of(
            new_config.enabled,
            bindings_view(new_config.bindings@),
        ).len(),
    ensures
        !cleared ==> *final(current) == *old(current) && !r.success && config_view(r.config)
            == config_view(*old(current)) && r.errors@.len() == 0,
        cleared ==> *final(current) == new_config && config_view(r.config) == config_view(
            new_config,
        ) && bindings_view(r.errors@) == failures(
            plan_of(new_config.enabled, bindings_view(new_config.bindings@)),
            outcomes@,
        ) && r.success == (r.errors@.len() == 0),
        cleared && plan_of(new_config.enabled, bindings_view(new_config.bindings@)).len() == 0
            ==> r.success && r.errors@.len() == 0,
        cleared && !new_config.enabled ==> r.success && r.errors@.len() == 0,
{
    if !cleared {
        return HotkeyRegisterResult { success: false, config: copy_config(current), errors: Vec::new() };
    }
    let plan = registration_plan(&new_config);
    let ghost pv = bindings_view(plan@);
    let mut errors: Vec<(HotkeyAction, String)> = Vec::new();
    let mut k: usize = 0;
    while k < outcomes.len()
        invariant
            0 <= k <= outcomes@.len(),
            outcomes@.len() == pv.len(),
            pv == bindings_view(plan@),
            bindings_view(errors@) == failures(pv, outcomes@.take(k as int)),
        decreases outcomes.len() - k,
    {
        assert(outcomes@.take(k + 1).drop_last() =~= outcomes@.take(k as int));
        match &outcomes[k] {
            Some(m) => {
                let ghost before = errors@;
                errors.push((plan[k].0, m.clone()));
                assert(bindings_view(errors@) =~= bindings_view(before).push((pv[k as int].0, m@)));
            },
            None => {},
        }
        k += 1;
    }
    assert(outcomes@.take(outcomes@.len() as int) =~= outcomes@);
    let shown = copy_config(&new_config);
    *current = new_config;
    register_result(shown, errors)
}

/// A volume clamped to `0..=100`.
pub open spec fn clamp_volume(v: int) -> i64 {
    if v < 0 {
        0
    } else if v > 100 {
        100
    } else {
        v as i64
    }
}

/// What a volume key asks for from the current level and the level mute returns to: the level
/// to set, and the remembered level afterwards. Five up, five down, or mute toggled (to 0,
/// remembering a non-zero level; back to the remembered level). `None` for other keys.
pub open spec fn volume_key(action: HotkeyAction, current: i64, remembered: i64) -> (
    Option<i64>,
    i64,
) {
    match action {
        HotkeyAction::VolumeUp => (Some((current + 5) as i64), remembered),
        HotkeyAction::VolumeDown => (Some((current - 5) as i64), remembered),
        HotkeyAction::MuteToggle => if current > 0 {
            (Some(0i64), current)
        } else {
            (Some(remembered), remembered)
        },
        _ => (None, remembered),
    }
}

/// A requested level as set: clamped to `0..=100`, and the remembered level afterwards (a
/// non-zero level becomes the one mute returns to).
pub open spec fn volume_commit(requested: i64, remembered: i64) -> (i64, i64) {
    let v = clamp_volume(requested as int);
    (v, if v > 0 {
        v
    } else {
        remembered
    })
}

/// The level mute-toggle returns to; `set_volume` records every non-zero level in it.
#[derive(Debug, Clone, Copy)]
pub struct VolumeMemory {
    pub last_nonzero: i64,
}

impl VolumeMemory {
    /// At start the level to return to is full volume.
    pub fn new() -> (r: VolumeMemory)
        ensures
            r.last_nonzero == 100,
    {
        VolumeMemory { last_nonzero: 100 }
    }

    /// The volume a volume key asks for from the current one: five up, five down, or mute
    /// toggled (to 0, remembering the level; back to the remembered level). `None` for keys
    /// that are not about volume.
    pub fn target(&mut self, action: HotkeyAction, current: i64) -> (r: Option<i64>)
        requires
            i64::MIN + 5 <= current <= i64::MAX - 5,
        ensures
            (r, final(self).last_nonzero) == volume_key(action, current, old(self).last_nonzero),
    {
        match action {
            HotkeyAction::VolumeUp => Some(current + 5),
            HotkeyAction::VolumeDown => Some(current - 5),
            HotkeyAction::MuteToggle => {
                if current > 0 {
                    self.last_nonzero = current;
                    Some(0)
                } else {
                    Some(self.last_nonzero)
                }
            },
            _ => None,
        }
    }

    /// The level a volume request sets (clamped to `0..=100`); a non-zero level becomes the
    /// one mute returns to.
    pub fn commit(&mut self, requested: i64) -> (v: i64)
        ensures
            (v, final(self).last_nonzero) == volume_commit(requested, old(self).last_nonzero),
    {
        let v = if requested < 0 {
            0
        } else if requested > 100 {
            100
        } else {
            requested
        };
        if v > 0 {
            self.last_nonzero = v;
        }
        v
    }
}

/// The volume keys go their own way by five: volume down asks for five less than the current
/// level and volume up for five more, and neither touches the level mute returns to; once the
/// request is set, volume down never leaves the player louder (and makes it quieter unless it
/// was silent), volume up never quieter (and louder unless it was at full volume). Keys that are
/// not about volume ask for nothing.
pub proof fn law_volume_keys_step(current: i64, remembered: i64, other: HotkeyAction)
    requires
        i64::MIN + 5 <= current <= i64::MAX - 5,
        !(other is VolumeUp || other is VolumeDown || other is MuteToggle),
    ensures
        volume_key(HotkeyAction::VolumeDown, current, remembered).0 == Some((current - 5) as i64),
        volume_key(HotkeyAction::VolumeUp, current, remembered).0 == Some((current + 5) as i64),
        volume_key(HotkeyAction::VolumeDown, current, remembered).1 == remembered,
        volume_key(HotkeyAction::VolumeUp, current, remembered).1 == remembered,
        volume_key(other, current, remembered).0 is None,
        0 <= current <= 100 ==> ({
            let down = volume_commit(
                volume_key(HotkeyAction::VolumeDown, current, remembered).0.unwrap(),
                remembered,
            ).0;
            let up = volume_commit(
                volume_key(HotkeyAction::VolumeUp, current, remembered).0.unwrap(),
                remembered,
            ).0;
            &&& down <= current
            &&& (current > 0 ==> down < current)
            &&& up >= current
            &&& (current < 100 ==> up > current)
        }),
{
}

/// Mute is undone by mute: from any audible level, pressing the mute key and committing its
/// level, then pressing it again and committing, comes back to that level, whatever was
/// remembered before.
pub proof fn law_mute_twice_restores(level: i64, remembered: i64)
    requires
        0 < level <= 100,
    ensures
        ({
            let (t1, m1) = volume_key(HotkeyAction::MuteToggle, level, remembered);
            let (v1, m2) = volume_commit(t1.unwrap(), m1);
            let (t2, m3) = volume_key(HotkeyAction::MuteToggle, v1, m2);
            let (v2, m4) = volume_commit(t2.unwrap(), m3);
            v1 == 0 && v2 == level && m4 == level
        }),
{
}

} // verus!
