//! Global hotkeys management.
//!
//! By default, the application registers these hotkeys:
//! - **Alt + [**: Move focus to the left Taskbar button ([`HotkeyAction::CycleLeft`])
//! - **Alt + ]**: Move focus to the right Taskbar button ([`HotkeyAction::CycleRight`])
//! - **Alt + 1** to **Alt + 9**: Switch to a desktop ([`HotkeyAction::SwitchVirtualDesktop`])
//!
//! The manager says which hotkeys to register and unregister; the caller does it, and hands back
//! how each registration went.

use vstd::prelude::*;
use vstd::string::*;

use crate::config::AppConfig;
use crate::text;
use crate::text::signed_decimal_text;

verus! {

/// Actions that can be triggered by global hotkeys.
#[derive(Copy, Clone, Debug, PartialEq, Eq, Structural)]
pub enum HotkeyAction {
    /// Cycle focus to the left window on the Taskbar.
    CycleLeft,
    /// Cycle focus to the right window on the Taskbar.
    CycleRight,
    /// Switch to the Virtual Desktop with the specified index (0-based).
    SwitchVirtualDesktop(u32),
}

/// The details of a specific hotkey.
#[derive(Copy, Clone, Debug, PartialEq, Eq, Structural)]
pub struct Hotkey {
    /// Unique identifier (ID) of the hotkey within the application scope.
    pub id: i32,
    /// The action to be executed when this hotkey is pressed.
    pub action: HotkeyAction,
    /// Accompanying modifier keys (such as Alt, Ctrl, Shift).
    pub modifiers: u32,
    /// Virtual Key Code of the main key.
    pub vk: u32,
}

/// The two hotkeys that cycle along the taskbar.
pub open spec fn cycle_hotkeys(config: AppConfig) -> Seq<Hotkey> {
    if config.cycle_taskbar_based {
        seq![
            Hotkey {
                id: 1,
                action: HotkeyAction::CycleLeft,
                modifiers: config.hotkey_left_modifiers,
                vk: config.hotkey_left_vk,
            },
            Hotkey {
                id: 2,
                action: HotkeyAction::CycleRight,
                modifiers: config.hotkey_right_modifiers,
                vk: config.hotkey_right_vk,
            },
        ]
    } else {
        Seq::empty()
    }
}

/// The hotkey of the digit `n`, which switches to the desktop before: the desktops count from zero.
pub open spec fn jump_hotkey(config: AppConfig, n: int) -> Hotkey {
    Hotkey {
        id: (10 + n) as i32,
        action: HotkeyAction::SwitchVirtualDesktop((n - 1) as u32),
        modifiers: config.jump_desktop_modifiers,
        vk: (0x30 + n) as u32,
    }
}

/// The nine hotkeys that switch to a desktop; none where no modifier key is set.
pub open spec fn jump_hotkeys(config: AppConfig) -> Seq<Hotkey> {
    if config.jump_desktop_modifiers != 0 {
        Seq::new(9, |i: int| jump_hotkey(config, i + 1))
    } else {
        Seq::empty()
    }
}

/// The hotkeys of a configuration.
pub open spec fn hotkeys_of(config: AppConfig) -> Seq<Hotkey> {
    cycle_hotkeys(config) + jump_hotkeys(config)
}

/// The identifiers of some hotkeys.
pub open spec fn ids_of(hotkeys: Seq<Hotkey>) -> Seq<i32> {
    hotkeys.map_values(|h: Hotkey| h.id)
}

/// The position of the first hotkey from `i` on with this identifier.
pub open spec fn find_id(hotkeys: Seq<Hotkey>, id: i32, i: int) -> Option<int>
    decreases hotkeys.len() - i,
{
    if i >= hotkeys.len() {
        None
    } else if hotkeys[i].id == id {
        Some(i)
    } else {
        find_id(hotkeys, id, i + 1)
    }
}

/// The hotkeys of a configuration.
pub fn plan_hotkeys(config: &AppConfig) -> (hotkeys: Vec<Hotkey>)
    ensures
        hotkeys@ == hotkeys_of(*config),
{
    let mut hotkeys: Vec<Hotkey> = Vec::new();
    if config.cycle_taskbar_based {
        hotkeys.push(
            Hotkey {
                id: 1,
                action: HotkeyAction::CycleLeft,
                modifiers: config.hotkey_left_modifiers,
                vk: config.hotkey_left_vk,
            },
        );
        hotkeys.push(
            Hotkey {
                id: 2,
                action: HotkeyAction::CycleRight,
                modifiers: config.hotkey_right_modifiers,
                vk: config.hotkey_right_vk,
            },
        );
    }
    assert(hotkeys@ =~= cycle_hotkeys(*config));
    let ghost cycle = hotkeys@;
    if config.jump_desktop_modifiers != 0 {
        for i in 1u32..10
            invariant
                config.jump_desktop_modifiers != 0,
                hotkeys@ == cycle + jump_hotkeys(*config).take(i - 1),
        {
            hotkeys.push(
                Hotkey {
                    id: 10 + i as i32,
                    action: HotkeyAction::SwitchVirtualDesktop(i - 1),
                    modifiers: config.jump_desktop_modifiers,
                    vk: 0x30 + i,
                },
            );
            assert(hotkeys@.last() == jump_hotkeys(*config)[i - 1]);
            assert(hotkeys@ =~= cycle + jump_hotkeys(*config).take(i as int));
        }
        assert(jump_hotkeys(*config).take(9) =~= jump_hotkeys(*config));
    }
    assert(hotkeys@ =~= hotkeys_of(*config));
    hotkeys
}

/// What became of a registration: nothing where it succeeded, otherwise the error in words.
pub type Registration = Option<String>;

/// The registrations that failed.
pub open spec fn failed(results: Seq<Registration>) -> Seq<Registration> {
    results.filter(|r: Registration| r is Some)
}

/// Some hotkeys could not be registered, so the manager was not made.
#[derive(Debug)]
pub struct RegisterError {
    /// The errors, in the order of the hotkeys.
    pub errors: Vec<String>,
    /// The identifiers of the hotkeys that are to be unregistered.
    pub unregister: Vec<i32>,
}

/// Manager for the application's global hotkeys.
#[derive(Debug)]
pub struct HotkeyManager {
    /// List of managed hotkeys.
    hotkeys: Vec<Hotkey>,
}

fn collect_errors(results: &[Registration]) -> (errors: Vec<String>)
    ensures
        errors@.len() == failed(results@).len(),
        forall|i: int| 0 <= i < errors@.len() ==> failed(results@)[i] == Some(#[trigger] errors@[i]),
{
    let ghost pred = |r: Registration| r is Some;
    let mut errors: Vec<String> = Vec::new();
    for i in 0..results.len()
        invariant
            pred == (|r: Registration| r is Some),
            errors@.len() == results@.take(i as int).filter(pred).len(),
            forall|k: int|
                0 <= k < errors@.len() ==> results@.take(i as int).filter(pred)[k] == Some(
                    #[trigger] errors@[k],
                ),
    {
        proof {
            crate::lists::lemma_filter_step(results@, i as int, pred);
        }
        if let Some(error) = &results[i] {
            errors.push(error.clone());
        }
    }
    assert(results@.take(results@.len() as int) =~= results@);
    errors
}

impl HotkeyManager {
    /// The managed hotkeys.
    pub closed spec fn managed(&self) -> Seq<Hotkey> {
        self.hotkeys@
    }

    /// Makes the manager of the hotkeys of a configuration, once they have been registered;
    /// `results` tells of each hotkey of [`plan_hotkeys`] how its registration went.
    ///
    /// # Errors
    ///
    /// Returns an error if one or more hotkeys failed to register (usually due to a conflict with
    /// another software). All of them are to be unregistered again.
    pub fn new(config: &AppConfig, results: &[Registration]) -> (made: Result<
        HotkeyManager,
        RegisterError,
    >)
        ensures
            made is Ok <==> failed(results@).len() == 0,
            made matches Ok(manager) ==> manager.managed() == hotkeys_of(*config),
            made matches Err(e) ==> {
                &&& e.errors@.len() == failed(results@).len()
                &&& forall|i: int|
                    0 <= i < e.errors@.len() ==> failed(results@)[i] == Some(
                        #[trigger] e.errors@[i],
                    )
                &&& e.unregister@ == ids_of(hotkeys_of(*config))
            },
    {
        let manager = HotkeyManager { hotkeys: plan_hotkeys(config) };
        let errors = collect_errors(results);
        if errors.len() > 0 {
            return Err(RegisterError { errors, unregister: manager.unregister_all() });
        }
        Ok(manager)
    }

    /// The identifiers of all managed hotkeys, which are to be unregistered.
    ///
    /// To be done, too, when the manager is no longer used.
    pub fn unregister_all(&self) -> (ids: Vec<i32>)
        ensures
            ids@ == ids_of(self.managed()),
    {
        let mut ids: Vec<i32> = Vec::new();
        for i in 0..self.hotkeys.len()
            invariant
                ids@ == ids_of(self.hotkeys@.take(i as int)),
        {
            ids.push(self.hotkeys[i].id);
            assert(ids@ =~= ids_of(self.hotkeys@.take(i + 1)));
        }
        assert(self.hotkeys@.take(self.hotkeys@.len() as int) =~= self.hotkeys@);
        ids
    }

    /// Looks up the action corresponding to the hotkey ID received from the system message.
    pub fn action_from_id(&self, id: i32) -> (action: Option<HotkeyAction>)
        ensures
            action == match find_id(self.managed(), id, 0) {
                Some(i) => Some(self.managed()[i].action),
                None => None,
            },
    {
        for i in 0..self.hotkeys.len()
            invariant
                find_id(self.hotkeys@, id, 0) == find_id(self.hotkeys@, id, i as int),
        {
            if self.hotkeys[i].id == id {
                return Some(self.hotkeys[i].action);
            }
        }
        None
    }

    /// Reloads the hotkey configuration.
    ///
    /// Returns the identifiers of the hotkeys that are to be unregistered first; the ones of
    /// [`Self::hotkeys`] are to be registered then.
    pub fn reload(&mut self, config: &AppConfig) -> (unregister: Vec<i32>)
        ensures
            unregister@ == ids_of(old(self).managed()),
            final(self).managed() == hotkeys_of(*config),
    {
        let unregister = self.unregister_all();
        self.hotkeys = plan_hotkeys(config);
        unregister
    }

    /// The managed hotkeys.
    pub fn hotkeys(&self) -> (hotkeys: &[Hotkey])
        ensures
            hotkeys@ == self.managed(),
    {
        self.hotkeys.as_slice()
    }

    /// The warnings after a reload, one for each registration that failed: the identifier of the
    /// hotkey and the error.
    pub fn reload_warnings(&self, results: &[Registration]) -> (warnings: Vec<String>)
        requires
            results@.len() == self.managed().len(),
        ensures
            text_views(warnings@) == warnings_upto(self.managed(), results@, results@.len() as int),
    {
        let mut warnings: Vec<String> = Vec::new();
        assert(text_views(warnings@) =~= warnings_upto(self.hotkeys@, results@, 0));
        for i in 0..results.len()
            invariant
                results@.len() == self.hotkeys@.len(),
                text_views(warnings@) == warnings_upto(self.hotkeys@, results@, i as int),
        {
            let ghost before = warnings@;
            if let Some(error) = &results[i] {
                let mut warning: String = "ID ".to_owned();
                warning.append(signed_decimal_text(self.hotkeys[i].id as isize).as_str());
                warning.append(": ");
                warning.append(error.as_str());
                assert(warning@ =~= warning_of(self.hotkeys@[i as int], error@));
                warnings.push(warning);
                assert(text_views(warnings@) =~= text_views(before).push(warning@));
            }
        }
        warnings
    }
}

/// The characters of some texts.
pub open spec fn text_views(texts: Seq<String>) -> Seq<Seq<char>> {
    texts.map_values(|s: String| s@)
}

/// The warning on a hotkey that failed to register.
pub open spec fn warning_of(hotkey: Hotkey, error: Seq<char>) -> Seq<char> {
    "ID "@ + text::signed_decimal(hotkey.id as int) + ": "@ + error
}

/// The warnings on the first `n` hotkeys.
pub open spec fn warnings_upto(
    hotkeys: Seq<Hotkey>,
    results: Seq<Registration>,
    n: int,
) -> Seq<Seq<char>>
    decreases n,
{
    if n <= 0 {
        Seq::empty()
    } else {
        let before = warnings_upto(hotkeys, results, n - 1);
        match results[n - 1] {
            Some(error) => before.push(warning_of(hotkeys[n - 1], error@)),
            None => before,
        }
    }
}

proof fn lemma_find_id(hotkeys: Seq<Hotkey>, id: i32, from: int, i: int)
    requires
        0 <= from <= i < hotkeys.len(),
        hotkeys[i].id == id,
        forall|j: int| from <= j < i ==> (#[trigger] hotkeys[j]).id != id,
    ensures
        find_id(hotkeys, id, from) == Some(i),
    decreases i - from,
{
    if from < i {
        lemma_find_id(hotkeys, id, from + 1, i);
    }
}

/// No two hotkeys of a configuration have the same identifier.
pub proof fn law_ids_are_distinct(config: AppConfig, i: int, j: int)
    requires
        0 <= i < j < hotkeys_of(config).len(),
    ensures
        hotkeys_of(config)[i].id != hotkeys_of(config)[j].id,
{
}

/// Each hotkey of a configuration triggers its own action.
pub proof fn law_hotkey_triggers_its_action(config: AppConfig, i: int)
    requires
        0 <= i < hotkeys_of(config).len(),
    ensures
        find_id(hotkeys_of(config), hotkeys_of(config)[i].id, 0) == Some(i),
{
    let hotkeys = hotkeys_of(config);
    assert forall|j: int| 0 <= j < i implies (#[trigger] hotkeys[j]).id != hotkeys[i].id by {
        law_ids_are_distinct(config, j, i);
    }
    lemma_find_id(hotkeys, hotkeys[i].id, 0, i);
}

/// With a modifier set, each digit from 1 to 9 jumps to the desktop of that number.
pub proof fn law_digit_jumps_to_desktop(config: AppConfig, n: int)
    requires
        config.jump_desktop_modifiers != 0,
        1 <= n <= 9,
    ensures
        exists|i: int|
            0 <= i < hotkeys_of(config).len() && #[trigger] hotkeys_of(config)[i] == (Hotkey {
                id: (10 + n) as i32,
                action: HotkeyAction::SwitchVirtualDesktop((n - 1) as u32),
                modifiers: config.jump_desktop_modifiers,
                vk: (0x30 + n) as u32,
            }),
{
    let i = cycle_hotkeys(config).len() + n - 1;
    assert(hotkeys_of(config)[i] == jump_hotkey(config, n));
}

/// Without cycling no hotkey cycles, and without a modifier none switches desktops.
pub proof fn law_disabled_actions_have_no_hotkey(config: AppConfig, i: int)
    requires
        0 <= i < hotkeys_of(config).len(),
    ensures
        !config.cycle_taskbar_based ==> hotkeys_of(config)[i].action is SwitchVirtualDesktop,
        config.jump_desktop_modifiers == 0 ==> !(
        hotkeys_of(config)[i].action is SwitchVirtualDesktop),
{
}

/// With cycling enabled, the configured left hotkey cycles left and the configured right hotkey
/// cycles right, and no other hotkey cycles.
pub proof fn law_configured_hotkeys_cycle(config: AppConfig)
    requires
        config.cycle_taskbar_based,
    ensures
        exists|i: int|
            0 <= i < hotkeys_of(config).len() && {
                &&& (#[trigger] hotkeys_of(config)[i]).action == HotkeyAction::CycleLeft
                &&& hotkeys_of(config)[i].modifiers == config.hotkey_left_modifiers
                &&& hotkeys_of(config)[i].vk == config.hotkey_left_vk
            },
        exists|i: int|
            0 <= i < hotkeys_of(config).len() && {
                &&& (#[trigger] hotkeys_of(config)[i]).action == HotkeyAction::CycleRight
                &&& hotkeys_of(config)[i].modifiers == config.hotkey_right_modifiers
                &&& hotkeys_of(config)[i].vk == config.hotkey_right_vk
            },
{
    let hotkeys = hotkeys_of(config);
    assert(hotkeys[0].action == HotkeyAction::CycleLeft);
    assert(hotkeys[1].action == HotkeyAction::CycleRight);
}

/// Every hotkey has its keys from the configuration: one that cycles left the left hotkey, one that
/// cycles right the right hotkey, and one that switches to the desktop with index `d` the jump
/// modifiers and the digit after `d`.
pub proof fn law_hotkeys_follow_the_configuration(config: AppConfig, i: int)
    requires
        0 <= i < hotkeys_of(config).len(),
    ensures
        match hotkeys_of(config)[i].action {
            HotkeyAction::CycleLeft => {
                &&& config.cycle_taskbar_based
                &&& hotkeys_of(config)[i].modifiers == config.hotkey_left_modifiers
                &&& hotkeys_of(config)[i].vk == config.hotkey_left_vk
            },
            HotkeyAction::CycleRight => {
                &&& config.cycle_taskbar_based
                &&& hotkeys_of(config)[i].modifiers == config.hotkey_right_modifiers
                &&& hotkeys_of(config)[i].vk == config.hotkey_right_vk
            },
            HotkeyAction::SwitchVirtualDesktop(d) => {
                &&& config.jump_desktop_modifiers != 0
                &&& hotkeys_of(config)[i].modifiers == config.jump_desktop_modifiers
                &&& d < 9
                &&& hotkeys_of(config)[i].vk == '1' as u32 + d
            },
        },
{
}

/// No two hotkeys trigger the same action, and there are two for cycling and nine for jumping, each
/// only where it is enabled.
pub proof fn law_each_action_has_one_hotkey(config: AppConfig, i: int, j: int)
    requires
        0 <= i < j < hotkeys_of(config).len(),
    ensures
        hotkeys_of(config)[i].action != hotkeys_of(config)[j].action,
        hotkeys_of(config).len() == (if config.cycle_taskbar_based {
            2int
        } else {
            0
        }) + (if config.jump_desktop_modifiers != 0 {
            9int
        } else {
            0
        }),
{
}

/// The default hotkeys are Alt+[ for left and Alt+] for right, and every desktop hotkey is pressed
/// with Alt.
pub proof fn law_default_hotkeys(config: AppConfig, i: int)
    requires
        config == crate::config::default_config(),
        0 <= i < hotkeys_of(config).len(),
    ensures
        hotkeys_of(config)[i].modifiers == 1,
        hotkeys_of(config)[i].action == HotkeyAction::CycleLeft <==> hotkeys_of(config)[i].vk
            == 219,
        hotkeys_of(config)[i].action == HotkeyAction::CycleRight <==> hotkeys_of(config)[i].vk
            == 221,
        hotkeys_of(config).len() == 11,
{
}

/// A hotkey is found exactly if one has the identifier, and it is the first such one.
pub proof fn law_hotkey_is_found_by_its_id(hotkeys: Seq<Hotkey>, id: i32)
    ensures
        find_id(hotkeys, id, 0) is None <==> forall|k: int|
            0 <= k < hotkeys.len() ==> (#[trigger] hotkeys[k]).id != id,
        find_id(hotkeys, id, 0) matches Some(i) ==> {
            &&& 0 <= i < hotkeys.len()
            &&& hotkeys[i].id == id
            &&& forall|k: int| 0 <= k < i ==> (#[trigger] hotkeys[k]).id != id
        },
{
    lemma_find_id_from(hotkeys, id, 0);
}

proof fn lemma_find_id_from(hotkeys: Seq<Hotkey>, id: i32, from: int)
    requires
        0 <= from,
    ensures
        find_id(hotkeys, id, from) is None <==> forall|k: int|
            from <= k < hotkeys.len() ==> (#[trigger] hotkeys[k]).id != id,
        find_id(hotkeys, id, from) matches Some(i) ==> {
            &&& from <= i < hotkeys.len()
            &&& hotkeys[i].id == id
            &&& forall|k: int| from <= k < i ==> (#[trigger] hotkeys[k]).id != id
        },
    decreases hotkeys.len() - from,
{
    if from < hotkeys.len() && hotkeys[from].id != id {
        lemma_find_id_from(hotkeys, id, from + 1);
    }
}

/// The manager is made exactly if every registration succeeded.
pub proof fn law_one_failure_is_enough(results: Seq<Registration>)
    ensures
        failed(results).len() == 0 <==> forall|i: int|
            0 <= i < results.len() ==> (#[trigger] results[i]) is None,
        forall|r: Registration| #[trigger]
            failed(results).contains(r) <==> r is Some && results.contains(r),
{
    let pred = |r: Registration| r is Some;
    crate::lists::lemma_filter_members(results, pred);
    if failed(results).len() == 0 {
        assert forall|i: int| 0 <= i < results.len() implies (#[trigger] results[i]) is None by {
            if results[i] is Some {
                assert(results.contains(results[i]));
                assert(failed(results).contains(results[i]));
            }
        }
    } else {
        let r = failed(results)[0];
        assert(failed(results).contains(r));
        let k = choose|k: int| 0 <= k < results.len() && results[k] == r;
        assert(results[k] is Some);
    }
}

/// Each failed registration has its warning, with the identifier of the hotkey and the error; the
/// others have none.
pub proof fn law_failures_are_warned_of(
    hotkeys: Seq<Hotkey>,
    results: Seq<Registration>,
    n: int,
    i: int,
)
    requires
        0 <= i < n <= results.len(),
        results.len() == hotkeys.len(),
    ensures
        results[i] matches Some(error) ==> warnings_upto(hotkeys, results, n).contains(
            "ID "@ + text::signed_decimal(hotkeys[i].id as int) + ": "@ + error@,
        ),
        (forall|k: int| 0 <= k < n ==> (#[trigger] results[k]) is None) ==> warnings_upto(
            hotkeys,
            results,
            n,
        ).len() == 0,
        (forall|k: int| 0 <= k < n ==> (#[trigger] results[k]) is Some) ==> warnings_upto(
            hotkeys,
            results,
            n,
        ).len() == n,
    decreases n,
{
    let all = warnings_upto(hotkeys, results, n);
    let before = warnings_upto(hotkeys, results, n - 1);
    if n - 1 > i {
        law_failures_are_warned_of(hotkeys, results, n - 1, i);
        if let Some(error) = results[i] {
            let w = "ID "@ + text::signed_decimal(hotkeys[i].id as int) + ": "@ + error@;
            let k = choose|k: int| 0 <= k < before.len() && before[k] == w;
            assert(all[k] == w);
        }
    } else {
        if let Some(error) = results[i] {
            assert(all.last() == warning_of(hotkeys[i], error@));
            assert(all[all.len() - 1] == all.last());
        }
        if n > 1 {
            law_failures_are_warned_of(hotkeys, results, n - 1, 0);
        }
    }
}

/// Unregistering names every hotkey by its identifier, in order.
pub proof fn law_every_hotkey_is_unregistered(hotkeys: Seq<Hotkey>, i: int)
    ensures
        ids_of(hotkeys).len() == hotkeys.len(),
        0 <= i < hotkeys.len() ==> ids_of(hotkeys)[i] == hotkeys[i].id,
{
}

/// The warnings follow the hotkeys in order: one more hotkey adds its warning at the end where it
/// failed, and nothing where it did not.
pub proof fn law_warnings_follow_the_hotkeys(
    hotkeys: Seq<Hotkey>,
    results: Seq<Registration>,
    n: int,
)
    requires
        0 <= n < results.len(),
        results.len() == hotkeys.len(),
    ensures
        warnings_upto(hotkeys, results, 0).len() == 0,
        results[n] is None ==> warnings_upto(hotkeys, results, n + 1) == warnings_upto(
            hotkeys,
            results,
            n,
        ),
        results[n] matches Some(error) ==> warnings_upto(hotkeys, results, n + 1) == warnings_upto(
            hotkeys,
            results,
            n,
        ).push("ID "@ + text::signed_decimal(hotkeys[n].id as int) + ": "@ + error@),
{
}

/// The failures among two rows of registrations are those of the first row and then those of the
/// second.
pub proof fn law_failures_keep_their_order(a: Seq<Registration>, b: Seq<Registration>)
    ensures
        failed(a + b) == failed(a) + failed(b),
{
    Seq::filter_distributes_over_add(a, b, |r: Registration| r is Some);
}

/// A list of texts is as long as its contents, which stand in the same order.
pub proof fn law_text_views(texts: Seq<String>, i: int)
    ensures
        text_views(texts).len() == texts.len(),
        0 <= i < texts.len() ==> text_views(texts)[i] == texts[i]@,
{
}

} // verus!
