//! What holds of the shortcut state machine as a whole.

use crate::clock::Instant;
use crate::keys;
use crate::keys::{KeyCode, ShortcutError};
use crate::shortcuts;
use crate::shortcuts::{
    BindingView, ConfigView, ShortcutEvent, ShortcutInput, ShortcutKind, ShortcutPhase,
    ShortcutsConfig, BACKDATE_NANOS, DEBOUNCE_NANOS,
};
use vstd::prelude::*;

verus! {

/// Configured shortcuts are well formed.
pub proof fn law_configurations_are_well_formed(
    config: ConfigView,
    press_at: Instant,
    hold_at: Instant,
)
    ensures
        shortcuts::configuration(config, press_at, hold_at) matches Ok(bindings)
            ==> shortcuts::well_formed(bindings),
{
}

/// Every step keeps the shortcuts well formed.
pub proof fn law_steps_keep_well_formed(
    before: Seq<BindingView>,
    input: ShortcutInput,
    press_at: Instant,
    hold_at: Instant,
)
    requires
        shortcuts::well_formed(before),
    ensures
        shortcuts::step(before, input, press_at, hold_at) matches Ok((after, events))
            ==> shortcuts::well_formed(after),
{
    if let ShortcutInput::ConfigChanged { shortcuts: config, pressed_keys, now } = input {
        law_configurations_are_well_formed(config@, press_at, hold_at);
    }
}

/// A shortcut that is in use watches at least one key, so it is not pressed
/// while no key is down.
pub proof fn law_no_keys_press_nothing(bindings: Seq<BindingView>, i: int)
    requires
        shortcuts::well_formed(bindings),
        0 <= i < bindings.len(),
    ensures
        !shortcuts::pressed(bindings[i], Set::empty()),
{
    let b = bindings[i];
    crate::keys_laws::law_shortcuts_are_not_empty(b.name);
    let key = b.keys.choose();
    assert(b.keys.contains(key)) by {
        if b.keys.is_empty() {
            assert(b.keys =~= Set::empty());
        }
    }
    if shortcuts::pressed(b, Set::empty()) {
        assert(Set::<KeyCode>::empty().contains(key));
    }
}

/// Every event of a step bears the time of its input.
pub proof fn law_events_bear_the_time(
    before: Seq<BindingView>,
    input: ShortcutInput,
    press_at: Instant,
    hold_at: Instant,
)
    ensures
        shortcuts::step(before, input, press_at, hold_at) matches Ok((after, events))
            ==> forall|i: int|
            0 <= i < events.len() ==> (#[trigger] events[i]).triggered_at == time_of(input),
    decreases before.len(),
{
    match input {
        ShortcutInput::KeyStateChanged { pressed_keys, now } => {
            lemma_key_event_times(before, pressed_keys@, now);
        },
        ShortcutInput::DeviceSetChanged { pressed_keys, now } => {
            law_device_change(before, now);
        },
        ShortcutInput::ConfigChanged { shortcuts: config, pressed_keys, now } => {
            if let Ok(next) = shortcuts::configuration(config@, press_at, hold_at) {
                lemma_release_events(before, next, now);
            }
        },
    }
}

/// The time that an input bears.
pub open spec fn time_of(input: ShortcutInput) -> Instant {
    match input {
        ShortcutInput::KeyStateChanged { pressed_keys, now } => now,
        ShortcutInput::DeviceSetChanged { pressed_keys, now } => now,
        ShortcutInput::ConfigChanged { shortcuts, pressed_keys, now } => now,
    }
}

proof fn lemma_key_event_times(before: Seq<BindingView>, down: Set<KeyCode>, now: Instant)
    ensures
        forall|i: int|
            0 <= i < shortcuts::key_events(before, down, now).len() ==> (
            #[trigger] shortcuts::key_events(before, down, now)[i]).triggered_at == now,
    decreases before.len(),
{
    if before.len() > 0 {
        lemma_key_event_times(before.drop_last(), down, now);
    }
}

/// The number of shortcuts that are held.
pub open spec fn holds(bindings: Seq<BindingView>) -> nat
    decreases bindings.len(),
{
    if bindings.len() == 0 {
        0
    } else {
        holds(bindings.drop_last()) + if bindings.last().kind == ShortcutKind::Hold {
            1nat
        } else {
            0
        }
    }
}

/// When a keyboard comes or goes, each hold is cancelled once, whether it was
/// active or not, and nothing else is reported. No hold is active then, and
/// the press shortcuts are as they were.
pub proof fn law_device_change(before: Seq<BindingView>, now: Instant)
    ensures
        shortcuts::cancel_events(before, now) == Seq::new(
            holds(before),
            |i: int|
                ShortcutEvent {
                    triggered_at: now,
                    kind: ShortcutKind::Hold,
                    phase: ShortcutPhase::Cancel,
                },
        ),
        forall|i: int|
            #![trigger before[i]]
            0 <= i < before.len() ==> if before[i].kind == ShortcutKind::Hold {
                !shortcuts::after_cancel(before[i]).active
            } else {
                shortcuts::after_cancel(before[i]) == before[i]
            },
    decreases before.len(),
{
    if before.len() > 0 {
        law_device_change(before.drop_last(), now);
    }
    assert(shortcuts::cancel_events(before, now) =~= Seq::new(
        holds(before),
        |i: int|
            ShortcutEvent {
                triggered_at: now,
                kind: ShortcutKind::Hold,
                phase: ShortcutPhase::Cancel,
            },
    ));
}

/// Looking at the same keys again at the same time reports nothing and changes
/// nothing.
pub proof fn law_key_state_settles(before: Seq<BindingView>, down: Set<KeyCode>, now: Instant)
    ensures
        ({
            let after = before.map_values(|b: BindingView| shortcuts::after_keys(b, down, now));
            &&& shortcuts::key_events(after, down, now) == Seq::<ShortcutEvent>::empty()
            &&& after.map_values(|b: BindingView| shortcuts::after_keys(b, down, now)) == after
        }),
    decreases before.len(),
{
    let after = before.map_values(|b: BindingView| shortcuts::after_keys(b, down, now));
    if before.len() > 0 {
        law_key_state_settles(before.drop_last(), down, now);
        assert(after.drop_last() =~= before.drop_last().map_values(
            |b: BindingView| shortcuts::after_keys(b, down, now),
        ));
    }
    assert(shortcuts::key_events(after, down, now) =~= Seq::<ShortcutEvent>::empty());
    assert(after.map_values(|b: BindingView| shortcuts::after_keys(b, down, now)) =~= after);
}

/// A hold is active exactly while its keys are down, and a press shortcut only
/// while they are.
pub proof fn law_activity_follows_keys(b: BindingView, down: Set<KeyCode>, now: Instant)
    ensures
        b.kind == ShortcutKind::Hold ==> shortcuts::after_keys(b, down, now).active
            == shortcuts::pressed(b, down),
        shortcuts::after_keys(b, down, now).active ==> shortcuts::pressed(b, down),
{
}

proof fn lemma_release_events(before: Seq<BindingView>, next: Seq<BindingView>, now: Instant)
    ensures
        forall|i: int|
            0 <= i < shortcuts::release_events(before, next, now).len() ==> (
            #[trigger] shortcuts::release_events(before, next, now)[i]) == (ShortcutEvent {
                triggered_at: now,
                kind: ShortcutKind::Hold,
                phase: ShortcutPhase::End,
            }),
    decreases before.len(),
{
    if before.len() > 0 {
        lemma_release_events(before.drop_last(), next, now);
    }
}

/// When the shortcuts are replaced, the end of a hold is reported, once, if and
/// only if an active hold is not among the new shortcuts. Nothing else is
/// reported.
pub proof fn law_replaced_holds_end(
    before: Seq<BindingView>,
    next: Seq<BindingView>,
    now: Instant,
)
    requires
        shortcuts::well_formed(before),
    ensures
        shortcuts::release_events(before, next, now) == if exists|i: int|
            0 <= i < before.len() && (#[trigger] before[i]).kind == ShortcutKind::Hold
                && before[i].active && !shortcuts::includes(next, before[i]) {
            seq![
                ShortcutEvent {
                    triggered_at: now,
                    kind: ShortcutKind::Hold,
                    phase: ShortcutPhase::End,
                },
            ]
        } else {
            seq![]
        },
{
    reveal_with_fuel(shortcuts::release_events, 3);
    let released = shortcuts::release_events(before, next, now);
    if before.len() == 1 {
        assert(before.drop_last() =~= Seq::empty());
    }
    if before.len() == 2 {
        assert(before.drop_last().drop_last() =~= Seq::empty());
        assert(before.drop_last().last() == before[0]);
    }
    if exists|i: int|
        0 <= i < before.len() && (#[trigger] before[i]).kind == ShortcutKind::Hold
            && before[i].active && !shortcuts::includes(next, before[i]) {
        let i = choose|i: int|
            0 <= i < before.len() && (#[trigger] before[i]).kind == ShortcutKind::Hold
                && before[i].active && !shortcuts::includes(next, before[i]);
        assert(i == before.len() - 1);
        assert(released =~= seq![
            ShortcutEvent {
                triggered_at: now,
                kind: ShortcutKind::Hold,
                phase: ShortcutPhase::End,
            },
        ]);
    } else {
        assert(released =~= Seq::empty());
    }
}

/// Whether a configuration is accepted, what is wrong with it, and what is
/// reported does not depend on the clock; nor do the shortcuts, but for when
/// the new ones are taken to have fired.
pub proof fn law_configuration_and_clock(
    before: Seq<BindingView>,
    config: ConfigView,
    down: Set<KeyCode>,
    now: Instant,
    press_at: Instant,
    hold_at: Instant,
    other_press_at: Instant,
    other_hold_at: Instant,
)
    ensures
        match (
            shortcuts::reconfigured(before, config, down, now, press_at, hold_at),
            shortcuts::reconfigured(before, config, down, now, other_press_at, other_hold_at),
        ) {
            (Ok((a, a_events)), Ok((b, b_events))) => {
                &&& a_events == b_events
                &&& a.len() == b.len()
                &&& forall|i: int|
                    #![trigger a[i]]
                    #![trigger b[i]]
                    0 <= i < a.len() ==> a[i] == (BindingView {
                        last_trigger: a[i].last_trigger,
                        ..b[i]
                    })
            },
            (Err(a), Err(b)) => a == b,
            _ => false,
        },
{
    let one = shortcuts::configuration(config, press_at, hold_at);
    let other = shortcuts::configuration(config, other_press_at, other_hold_at);
    if let (Ok(next), Ok(other_next)) = (one, other) {
        assert forall|i: int| 0 <= i < next.len() implies shortcuts::same_shortcut(
            #[trigger] next[i],
            other_next[i],
        ) && shortcuts::find(before, next[i]) == shortcuts::find(before, other_next[i]) by {
            lemma_find_by_name(before, next[i], other_next[i]);
        }
        lemma_release_by_name(before, next, other_next, now);
    }
}

proof fn lemma_find_by_name(bindings: Seq<BindingView>, a: BindingView, b: BindingView)
    requires
        shortcuts::same_shortcut(a, b),
    ensures
        shortcuts::find(bindings, a) == shortcuts::find(bindings, b),
    decreases bindings.len(),
{
    if bindings.len() > 0 {
        lemma_find_by_name(bindings.drop_first(), a, b);
    }
}

proof fn lemma_release_by_name(
    before: Seq<BindingView>,
    a: Seq<BindingView>,
    b: Seq<BindingView>,
    now: Instant,
)
    requires
        a.len() == b.len(),
        forall|i: int| 0 <= i < a.len() ==> shortcuts::same_shortcut(#[trigger] a[i], b[i]),
    ensures
        shortcuts::release_events(before, a, now) == shortcuts::release_events(before, b, now),
    decreases before.len(),
{
    if before.len() > 0 {
        lemma_release_by_name(before.drop_last(), a, b, now);
        let last = before.last();
        if shortcuts::includes(a, last) {
            let i = choose|i: int|
                0 <= i < a.len() && shortcuts::same_shortcut(#[trigger] a[i], last);
            assert(shortcuts::same_shortcut(b[i], last));
        }
        if shortcuts::includes(b, last) {
            let i = choose|i: int|
                0 <= i < b.len() && shortcuts::same_shortcut(#[trigger] b[i], last);
            assert(shortcuts::same_shortcut(a[i], last));
        }
    }
}

/// Configuring the same shortcuts again, while the keys of the active ones are
/// down, reports nothing and changes nothing.
pub proof fn law_same_configuration(
    before: Seq<BindingView>,
    config: ConfigView,
    down: Set<KeyCode>,
    now: Instant,
    press_at: Instant,
    hold_at: Instant,
)
    requires
        shortcuts::well_formed(before),
        shortcuts::configuration(config, press_at, hold_at) matches Ok(next) && next.len()
            == before.len() && forall|i: int|
            0 <= i < next.len() ==> shortcuts::same_shortcut(#[trigger] next[i], before[i]),
        forall|i: int|
            0 <= i < before.len() ==> ((#[trigger] before[i]).active ==> shortcuts::pressed(
                before[i],
                down,
            )),
    ensures
        shortcuts::reconfigured(before, config, down, now, press_at, hold_at) == Ok::<
            (Seq<BindingView>, Seq<ShortcutEvent>),
            Seq<char>,
        >((before, Seq::empty())),
{
    let next = shortcuts::configuration(config, press_at, hold_at)->Ok_0;
    law_configurations_are_well_formed(config, press_at, hold_at);
    reveal_with_fuel(shortcuts::find, 3);
    assert forall|i: int| 0 <= i < next.len() implies shortcuts::carried_over(
        #[trigger] next[i],
        before,
        down,
    ) == before[i] && shortcuts::includes(next, before[i]) by {
        assert(shortcuts::same_shortcut(next[i], before[i]));
        if i == 1 {
            assert(before.drop_first().first() == before[1]);
        }
    }
    law_replaced_holds_end(before, next, now);
    assert(next.map_values(|b: BindingView| shortcuts::carried_over(b, before, down)) =~= before);
    assert(shortcuts::release_events(before, next, now) =~= Seq::empty());
}

/// A hold shortcut that has just been configured fires whenever its keys are
/// down, and a press shortcut does unless that was long before it was
/// configured.
pub proof fn law_fresh_shortcuts_fire(
    kind: ShortcutKind,
    name: Seq<char>,
    keys: Set<KeyCode>,
    created_at: Instant,
    down: Set<KeyCode>,
    now: Instant,
)
    requires
        kind == ShortcutKind::Press ==> now.nanos - created_at.nanos > DEBOUNCE_NANOS
            - BACKDATE_NANOS,
        keys.subset_of(down),
    ensures
        shortcuts::key_event(shortcuts::fresh(kind, name, keys, created_at), down, now) == seq![
            ShortcutEvent { triggered_at: now, kind, phase: ShortcutPhase::Start },
        ],
{
}

/// Every shortcut of a configuration fires when its keys are down: the hold at
/// any time, the press unless that was long before it was configured.
pub proof fn law_configured_shortcuts_fire(
    config: ConfigView,
    press_at: Instant,
    hold_at: Instant,
    i: int,
    down: Set<KeyCode>,
    now: Instant,
)
    requires
        shortcuts::configuration(config, press_at, hold_at) is Ok,
        0 <= i < shortcuts::configuration(config, press_at, hold_at)->Ok_0.len(),
        shortcuts::pressed(shortcuts::configuration(config, press_at, hold_at)->Ok_0[i], down),
        shortcuts::configuration(config, press_at, hold_at)->Ok_0[i].kind == ShortcutKind::Press
            ==> now.nanos - press_at.nanos > DEBOUNCE_NANOS - BACKDATE_NANOS,
    ensures
        shortcuts::key_event(
            shortcuts::configuration(config, press_at, hold_at)->Ok_0[i],
            down,
            now,
        ) == seq![
            ShortcutEvent {
                triggered_at: now,
                kind: shortcuts::configuration(config, press_at, hold_at)->Ok_0[i].kind,
                phase: ShortcutPhase::Start,
            },
        ],
{
}

/// The two sets of pressed keys agree on the keys of all shortcuts.
pub open spec fn agree(bindings: Seq<BindingView>, a: Set<KeyCode>, b: Set<KeyCode>) -> bool {
    forall|i: int, key: KeyCode|
        0 <= i < bindings.len() && #[trigger] bindings[i].keys.contains(key) ==> (a.contains(key)
            <==> b.contains(key))
}

proof fn lemma_agree(bindings: Seq<BindingView>, a: Set<KeyCode>, b: Set<KeyCode>, i: int)
    requires
        agree(bindings, a, b),
        0 <= i < bindings.len(),
    ensures
        shortcuts::pressed(bindings[i], a) == shortcuts::pressed(bindings[i], b),
{
    assert forall|key: KeyCode| #[trigger] bindings[i].keys.contains(key) implies (a.contains(key)
        <==> b.contains(key)) by {}
}

/// Keys that no shortcut in use watches never matter when the pressed keys are
/// looked at.
pub proof fn law_other_keys_never_matter(
    before: Seq<BindingView>,
    a: Set<KeyCode>,
    b: Set<KeyCode>,
    now: Instant,
)
    requires
        agree(before, a, b),
    ensures
        shortcuts::key_events(before, a, now) == shortcuts::key_events(before, b, now),
        before.map_values(|s: BindingView| shortcuts::after_keys(s, a, now)) == before.map_values(
            |s: BindingView| shortcuts::after_keys(s, b, now),
        ),
    decreases before.len(),
{
    assert forall|i: int| 0 <= i < before.len() implies shortcuts::after_keys(
        #[trigger] before[i],
        a,
        now,
    ) == shortcuts::after_keys(before[i], b, now) by {
        lemma_agree(before, a, b, i);
    }
    assert(before.map_values(|s: BindingView| shortcuts::after_keys(s, a, now))
        =~= before.map_values(|s: BindingView| shortcuts::after_keys(s, b, now)));
    if before.len() > 0 {
        let front = before.drop_last();
        lemma_agree(before, a, b, before.len() - 1);
        assert forall|i: int, key: KeyCode|
            0 <= i < front.len() && #[trigger] front[i].keys.contains(key) implies (a.contains(key)
            <==> b.contains(key)) by {
            assert(before[i].keys.contains(key));
        }
        law_other_keys_never_matter(front, a, b, now);
    }
}

/// Keys that no new shortcut watches never matter when the shortcuts are
/// replaced.
pub proof fn law_other_keys_never_matter_to_replacing(
    before: Seq<BindingView>,
    config: ConfigView,
    a: Set<KeyCode>,
    b: Set<KeyCode>,
    now: Instant,
    press_at: Instant,
    hold_at: Instant,
)
    requires
        shortcuts::configuration(config, press_at, hold_at) matches Ok(next) ==> agree(next, a, b),
    ensures
        shortcuts::reconfigured(before, config, a, now, press_at, hold_at)
            == shortcuts::reconfigured(before, config, b, now, press_at, hold_at),
{
    if let Ok(next) = shortcuts::configuration(config, press_at, hold_at) {
        assert forall|i: int| 0 <= i < next.len() implies shortcuts::carried_over(
            #[trigger] next[i],
            before,
            a,
        ) == shortcuts::carried_over(next[i], before, b) by {
            lemma_agree(next, a, b, i);
        }
        assert(next.map_values(|s: BindingView| shortcuts::carried_over(s, before, a))
            =~= next.map_values(|s: BindingView| shortcuts::carried_over(s, before, b)));
    }
}

/// What can happen to a shortcut while it is in use.
pub enum Happening {
    /// The pressed keys are looked at.
    Keys { down: Set<KeyCode>, now: Instant },
    /// A keyboard comes or goes.
    Devices { now: Instant },
    /// The shortcuts are replaced, and this one is among the new ones.
    Kept { down: Set<KeyCode> },
}

/// The shortcut after something happened to it.
pub open spec fn after(b: BindingView, h: Happening) -> BindingView {
    match h {
        Happening::Keys { down, now } => shortcuts::after_keys(b, down, now),
        Happening::Devices { now } => shortcuts::after_cancel(b),
        Happening::Kept { down } => BindingView {
            active: b.active && shortcuts::pressed(b, down),
            ..b
        },
    }
}

/// What is reported of the shortcut when something happens to it.
pub open spec fn reported(b: BindingView, h: Happening) -> Seq<ShortcutEvent> {
    match h {
        Happening::Keys { down, now } => shortcuts::key_event(b, down, now),
        Happening::Devices { now } => shortcuts::cancel_events(seq![b], now),
        Happening::Kept { down } => seq![],
    }
}

/// The shortcut after all that happened to it.
pub open spec fn lived(b: BindingView, history: Seq<Happening>) -> BindingView
    decreases history.len(),
{
    if history.len() == 0 {
        b
    } else {
        after(lived(b, history.drop_last()), history.last())
    }
}

/// The phase that was last reported of the shortcut.
pub open spec fn last_phase(b: BindingView, history: Seq<Happening>) -> Option<ShortcutPhase>
    decreases history.len(),
{
    if history.len() == 0 {
        None
    } else {
        let events = reported(lived(b, history.drop_last()), history.last());
        if events.len() > 0 {
            Some(events.last().phase)
        } else {
            last_phase(b, history.drop_last())
        }
    }
}

/// The pressed keys are looked at, at the given time, and the shortcut starts.
pub open spec fn starts(b: BindingView, h: Happening, at: Instant) -> bool {
    h matches Happening::Keys { down, now } && now == at && reported(b, h) == seq![
        ShortcutEvent { triggered_at: now, kind: b.kind, phase: ShortcutPhase::Start },
    ]
}

/// What an input means to a shortcut that stays in use.
pub open spec fn happening(input: ShortcutInput) -> Happening {
    match input {
        ShortcutInput::KeyStateChanged { pressed_keys, now } => Happening::Keys {
            down: pressed_keys@,
            now,
        },
        ShortcutInput::DeviceSetChanged { pressed_keys, now } => Happening::Devices { now },
        ShortcutInput::ConfigChanged { shortcuts, pressed_keys, now } => Happening::Kept {
            down: pressed_keys@,
        },
    }
}

/// What is reported of all shortcuts, in their order.
pub open spec fn all_reported(bindings: Seq<BindingView>, h: Happening) -> Seq<ShortcutEvent>
    decreases bindings.len(),
{
    if bindings.len() == 0 {
        seq![]
    } else {
        all_reported(bindings.drop_last(), h) + reported(bindings.last(), h)
    }
}

proof fn lemma_all_reported(bindings: Seq<BindingView>, h: Happening)
    ensures
        match h {
            Happening::Keys { down, now } => all_reported(bindings, h) == shortcuts::key_events(
                bindings,
                down,
                now,
            ),
            Happening::Devices { now } => all_reported(bindings, h) == shortcuts::cancel_events(
                bindings,
                now,
            ),
            Happening::Kept { down } => true,
        },
    decreases bindings.len(),
{
    if bindings.len() > 0 {
        let b = bindings.last();
        lemma_all_reported(bindings.drop_last(), h);
        if let Happening::Devices { now } = h {
            reveal_with_fuel(shortcuts::cancel_events, 2);
            assert(seq![b].drop_last() =~= Seq::empty());
            assert(seq![b].last() == b);
            assert(all_reported(bindings, h) =~= shortcuts::cancel_events(bindings, now));
        }
    }
}

/// Unless it replaces them, an input happens to each shortcut by itself, and
/// what is reported of them is reported in their order.
pub proof fn law_shortcuts_are_independent(
    before: Seq<BindingView>,
    input: ShortcutInput,
    press_at: Instant,
    hold_at: Instant,
)
    requires
        !(input is ConfigChanged),
    ensures
        shortcuts::step(before, input, press_at, hold_at) == Ok::<
            (Seq<BindingView>, Seq<ShortcutEvent>),
            Seq<char>,
        >(
            (
                before.map_values(|b: BindingView| after(b, happening(input))),
                all_reported(before, happening(input)),
            ),
        ),
{
    lemma_all_reported(before, happening(input));
    let (bindings, events) = shortcuts::step(before, input, press_at, hold_at)->Ok_0;
    assert(bindings =~= before.map_values(|b: BindingView| after(b, happening(input))));
}

/// A shortcut that is kept when the shortcuts are replaced keeps its keys and
/// when it last fired, and stays active only while its keys are down, as
/// `Happening::Kept` says.
pub proof fn law_kept_shortcuts(
    before: Seq<BindingView>,
    j: int,
    config: ConfigView,
    press_at: Instant,
    hold_at: Instant,
    i: int,
    down: Set<KeyCode>,
)
    requires
        shortcuts::well_formed(before),
        0 <= j < before.len(),
        shortcuts::configuration(config, press_at, hold_at) matches Ok(next) && 0 <= i < next.len()
            && shortcuts::same_shortcut(next[i], before[j]),
    ensures
        shortcuts::carried_over(
            shortcuts::configuration(config, press_at, hold_at)->Ok_0[i],
            before,
            down,
        ) == after(before[j], Happening::Kept { down }),
{
    let next = shortcuts::configuration(config, press_at, hold_at)->Ok_0;
    law_configurations_are_well_formed(config, press_at, hold_at);
    assert(keys::shortcut_keys(next[i].name) == keys::shortcut_keys(before[j].name));
    reveal_with_fuel(shortcuts::find, 3);
    if j == 1 {
        assert(before.drop_first().first() == before[1]);
    }
}

proof fn lemma_lived_kind(b: BindingView, history: Seq<Happening>)
    ensures
        lived(b, history).kind == b.kind,
    decreases history.len(),
{
    if history.len() > 0 {
        lemma_lived_kind(b, history.drop_last());
    }
}

/// Once a press shortcut fired at `at`, it is never taken to have fired before.
proof fn lemma_last_trigger(b: BindingView, history: Seq<Happening>, i: int, at: Instant)
    requires
        b.kind == ShortcutKind::Press,
        0 <= i < history.len(),
        starts(lived(b, history.take(i)), history[i], at),
    ensures
        lived(b, history).last_trigger >= at.nanos,
    decreases history.len(),
{
    let front = history.drop_last();
    lemma_lived_kind(b, front);
    if i == history.len() - 1 {
        assert(history.take(i) =~= front);
        assert(reported(lived(b, front), history[i]).len() == 1);
    } else {
        assert(front.take(i) =~= history.take(i));
        lemma_last_trigger(b, front, i, at);
    }
}

/// A press shortcut never fires twice within the debounce time, whatever
/// happens to it in between.
pub proof fn law_debounce(
    b: BindingView,
    history: Seq<Happening>,
    i: int,
    at: Instant,
    j: int,
    again_at: Instant,
)
    requires
        b.kind == ShortcutKind::Press,
        0 <= i < j < history.len(),
        starts(lived(b, history.take(i)), history[i], at),
        starts(lived(b, history.take(j)), history[j], again_at),
    ensures
        again_at.nanos - at.nanos > DEBOUNCE_NANOS,
{
    let front = history.take(j);
    lemma_lived_kind(b, front);
    assert(front.take(i) =~= history.take(i));
    lemma_last_trigger(b, front, i, at);
    assert(reported(lived(b, front), history[j]).len() == 1);
}

/// While it is not replaced, a hold that began inactive is active exactly when
/// the last that was reported of it is its start.
pub proof fn law_holds_are_reported(b: BindingView, history: Seq<Happening>)
    requires
        b.kind == ShortcutKind::Hold,
        !b.active,
        forall|i: int| 0 <= i < history.len() ==> !((#[trigger] history[i]) is Kept),
    ensures
        lived(b, history).active <==> last_phase(b, history) == Some(ShortcutPhase::Start),
    decreases history.len(),
{
    if history.len() > 0 {
        let front = history.drop_last();
        assert forall|i: int| 0 <= i < front.len() implies !((#[trigger] front[i]) is Kept) by {
            assert(front[i] == history[i]);
        }
        law_holds_are_reported(b, front);
        lemma_lived_kind(b, front);
        let was = lived(b, front);
        assert(!(history[history.len() - 1] is Kept));
        if let Happening::Devices { now } = history.last() {
            law_device_change(seq![was], now);
            assert(seq![was].drop_last() =~= Seq::empty());
            assert(seq![was].last() == was);
        }
    }
}

/// While it is not replaced, the start of a hold is reported only when its last
/// start was followed by an end or a cancel, and its end only after a start
/// that nothing followed.
pub proof fn law_starts_and_ends_alternate(
    b: BindingView,
    history: Seq<Happening>,
    down: Set<KeyCode>,
    now: Instant,
)
    requires
        b.kind == ShortcutKind::Hold,
        !b.active,
        forall|i: int| 0 <= i < history.len() ==> !((#[trigger] history[i]) is Kept),
    ensures
        forall|i: int|
            #![trigger reported(lived(b, history), Happening::Keys { down, now })[i]]
            0 <= i < reported(lived(b, history), Happening::Keys { down, now }).len() ==> match (
            reported(lived(b, history), Happening::Keys { down, now })[i].phase) {
                ShortcutPhase::Start => last_phase(b, history) != Some(ShortcutPhase::Start),
                ShortcutPhase::End => last_phase(b, history) == Some(ShortcutPhase::Start),
                ShortcutPhase::Cancel => false,
            },
{
    law_holds_are_reported(b, history);
    lemma_lived_kind(b, history);
}

/// What looking at the pressed keys does to a shortcut. It starts if and only if
/// all its keys are down, it was not active, and it is a hold or has not fired
/// within the last half second. When it last fired changes only where it starts,
/// and is then the time of the look. It is active while its keys stay down after
/// a start, and all else is as it was.
pub proof fn law_look_at_keys(b: BindingView, down: Set<KeyCode>, now: Instant)
    ensures
        ({
            let after = shortcuts::after_keys(b, down, now);
            let all_down = b.keys.subset_of(down);
            let fires = all_down && !b.active && (b.kind == ShortcutKind::Hold || now.nanos
                - b.last_trigger > 500_000_000);
            &&& after.kind == b.kind
            &&& after.name == b.name
            &&& after.keys == b.keys
            &&& fires ==> after.last_trigger == now.nanos
            &&& !fires ==> after.last_trigger == b.last_trigger
            &&& after.active <==> fires || b.active && all_down
            &&& fires <==> shortcuts::key_event(b, down, now) == seq![
                ShortcutEvent { triggered_at: now, kind: b.kind, phase: ShortcutPhase::Start },
            ]
            &&& b.kind == ShortcutKind::Hold && b.active && !all_down <==> shortcuts::key_event(
                b,
                down,
                now,
            ) == seq![
                ShortcutEvent { triggered_at: now, kind: b.kind, phase: ShortcutPhase::End },
            ]
            &&& !fires && !(b.kind == ShortcutKind::Hold && b.active && !all_down)
                <==> shortcuts::key_event(b, down, now).len() == 0
        }),
{
    let start = ShortcutEvent { triggered_at: now, kind: b.kind, phase: ShortcutPhase::Start };
    let end = ShortcutEvent { triggered_at: now, kind: b.kind, phase: ShortcutPhase::End };
    assert(seq![start][0] != seq![end][0]);
    assert(seq![start].len() == 1 && seq![end].len() == 1);
}

/// What is reported of shortcuts is what is reported of each, in their order.
pub proof fn law_look_at_keys_in_order(
    bindings: Seq<BindingView>,
    b: BindingView,
    down: Set<KeyCode>,
    now: Instant,
)
    ensures
        shortcuts::key_events(Seq::empty(), down, now) == Seq::<ShortcutEvent>::empty(),
        shortcuts::key_events(bindings.push(b), down, now) == shortcuts::key_events(
            bindings,
            down,
            now,
        ) + shortcuts::key_event(b, down, now),
{
    assert(bindings.push(b).drop_last() =~= bindings);
}

/// When a keyboard comes or goes, a hold is no longer active. All else of a
/// shortcut is as it was, among it when it last fired.
pub proof fn law_device_change_of_one(b: BindingView)
    ensures
        ({
            let after = shortcuts::after_cancel(b);
            &&& after.kind == b.kind
            &&& after.name == b.name
            &&& after.keys == b.keys
            &&& after.last_trigger == b.last_trigger
            &&& after.active <==> b.active && b.kind == ShortcutKind::Press
        }),
{
}

/// What a configuration asks for: the press before the hold, each with the keys
/// that its name gives, inactive, and taken to have fired ten seconds before it
/// was created. It is refused if and only if a name is bad, the press before the
/// hold.
pub proof fn law_configuration(config: ConfigView, press_at: Instant, hold_at: Instant)
    ensures
        ({
            let good = |name: Option<Seq<char>>|
                name matches Some(name) ==> keys::shortcut_keys(name) is Ok;
            let made = shortcuts::configuration(config, press_at, hold_at);
            &&& made is Ok <==> good(config.press) && good(config.hold)
            &&& !good(config.press) ==> made == Err::<Seq<BindingView>, _>(
                keys::shortcut_keys(config.press->0)->Err_0,
            )
            &&& good(config.press) && !good(config.hold) ==> made == Err::<Seq<BindingView>, _>(
                keys::shortcut_keys(config.hold->0)->Err_0,
            )
            &&& made matches Ok(next) ==> {
                &&& next.len() == (if config.press is Some {
                    1int
                } else {
                    0
                }) + (if config.hold is Some {
                    1int
                } else {
                    0
                })
                &&& config.press matches Some(name) ==> next[0] == (BindingView {
                    kind: ShortcutKind::Press,
                    name,
                    keys: keys::shortcut_keys(name)->Ok_0,
                    active: false,
                    last_trigger: press_at.nanos - 10_000_000_000,
                })
                &&& config.hold matches Some(name) ==> next[next.len() - 1] == (BindingView {
                    kind: ShortcutKind::Hold,
                    name,
                    keys: keys::shortcut_keys(name)->Ok_0,
                    active: false,
                    last_trigger: hold_at.nanos - 10_000_000_000,
                })
            }
        }),
{
}

proof fn lemma_find(bindings: Seq<BindingView>, b: BindingView, j: int)
    requires
        0 <= j <= bindings.len(),
        forall|k: int|
            0 <= k < j ==> (#[trigger] bindings[k]).kind != b.kind || bindings[k].name != b.name,
        j < bindings.len() ==> bindings[j].kind == b.kind && bindings[j].name == b.name,
    ensures
        shortcuts::find(bindings, b) == if j < bindings.len() {
            Some(bindings[j])
        } else {
            None
        },
    decreases bindings.len(),
{
    if j > 0 {
        let rest = bindings.drop_first();
        assert(bindings[0].kind != b.kind || bindings[0].name != b.name);
        assert forall|k: int| 0 <= k < j - 1 implies (#[trigger] rest[k]).kind != b.kind
            || rest[k].name != b.name by {
            assert(rest[k] == bindings[k + 1]);
        }
        lemma_find(rest, b, j - 1);
    }
}

/// When the shortcuts are replaced, those of the configuration are in use
/// afterwards, and a bad configuration is refused for the same part. One that
/// was not in use before, whatever else was, is in use exactly as it was
/// configured.
pub proof fn law_new_shortcuts_are_as_configured(
    before: Seq<BindingView>,
    config: ConfigView,
    down: Set<KeyCode>,
    now: Instant,
    press_at: Instant,
    hold_at: Instant,
)
    ensures
        match shortcuts::configuration(config, press_at, hold_at) {
            Ok(next) => shortcuts::reconfigured(before, config, down, now, press_at, hold_at)
                matches Ok((after, events)) && after.len() == next.len() && forall|i: int|
                0 <= i < next.len() && (forall|j: int|
                    0 <= j < before.len() ==> (#[trigger] before[j]).kind != next[i].kind
                        || before[j].name != next[i].name) ==> #[trigger] after[i] == next[i],
            Err(part) => shortcuts::reconfigured(before, config, down, now, press_at, hold_at)
                == Err::<(Seq<BindingView>, Seq<ShortcutEvent>), _>(part),
        },
{
    if let Ok(next) = shortcuts::configuration(config, press_at, hold_at) {
        let after = shortcuts::reconfigured(
            before,
            config,
            down,
            now,
            press_at,
            hold_at,
        )->Ok_0.0;
        assert forall|i: int|
            0 <= i < next.len() && (forall|j: int|
                0 <= j < before.len() ==> (#[trigger] before[j]).kind != next[i].kind
                    || before[j].name != next[i].name) implies #[trigger] after[i] == next[i] by {
            lemma_find(before, next[i], before.len() as int);
        }
    }
}

/// A shortcut of the new configuration that was in use before, where it first
/// was, takes over when it last fired. It stays active if it was and its keys
/// are down. All else is as configured.
pub proof fn law_old_shortcuts_go_on(
    before: Seq<BindingView>,
    config: ConfigView,
    down: Set<KeyCode>,
    now: Instant,
    press_at: Instant,
    hold_at: Instant,
    i: int,
    j: int,
)
    requires
        shortcuts::configuration(config, press_at, hold_at) matches Ok(next) && {
            &&& 0 <= i < next.len()
            &&& 0 <= j < before.len()
            &&& before[j].kind == next[i].kind
            &&& before[j].name == next[i].name
            &&& forall|k: int|
                0 <= k < j ==> (#[trigger] before[k]).kind != next[i].kind || before[k].name
                    != next[i].name
        },
    ensures
        shortcuts::reconfigured(before, config, down, now, press_at, hold_at) matches Ok(
            (after, events),
        ) && {
            let next = shortcuts::configuration(config, press_at, hold_at)->Ok_0;
            &&& after[i].kind == next[i].kind
            &&& after[i].name == next[i].name
            &&& after[i].keys == next[i].keys
            &&& after[i].last_trigger == before[j].last_trigger
            &&& after[i].active <==> before[j].active && next[i].keys.subset_of(down)
        },
{
    let next = shortcuts::configuration(config, press_at, hold_at)->Ok_0;
    lemma_find(before, next[i], j);
}

/// A shortcut that was not in use before the configuration fires when its keys
/// are down: a hold at any time, a press unless that was long before it was
/// configured.
pub proof fn law_new_shortcuts_fire(
    before: Seq<BindingView>,
    config: ConfigView,
    down: Set<KeyCode>,
    now: Instant,
    press_at: Instant,
    hold_at: Instant,
    i: int,
    then_down: Set<KeyCode>,
    then: Instant,
)
    requires
        shortcuts::configuration(config, press_at, hold_at) matches Ok(next) && {
            &&& 0 <= i < next.len()
            &&& forall|j: int|
                0 <= j < before.len() ==> (#[trigger] before[j]).kind != next[i].kind
                    || before[j].name != next[i].name
            &&& next[i].keys.subset_of(then_down)
            &&& next[i].kind == ShortcutKind::Press ==> then.nanos - press_at.nanos > 500_000_000
                - 10_000_000_000
        },
    ensures
        shortcuts::reconfigured(before, config, down, now, press_at, hold_at) matches Ok(
            (after, events),
        ) && shortcuts::key_event(after[i], then_down, then) == seq![
            ShortcutEvent {
                triggered_at: then,
                kind: shortcuts::configuration(config, press_at, hold_at)->Ok_0[i].kind,
                phase: ShortcutPhase::Start,
            },
        ],
{
    let next = shortcuts::configuration(config, press_at, hold_at)->Ok_0;
    law_new_shortcuts_are_as_configured(before, config, down, now, press_at, hold_at);
    let after = shortcuts::reconfigured(before, config, down, now, press_at, hold_at)->Ok_0.0;
    assert(after[i] == next[i]);
    law_look_at_keys(next[i], then_down, then);
}

/// What is reported when the shortcuts are replaced is, for each active hold
/// that is not the hold of the new configuration, its end, in their order.
pub proof fn law_ends_of_removed_holds(
    before: Seq<BindingView>,
    b: BindingView,
    config: ConfigView,
    down: Set<KeyCode>,
    now: Instant,
    press_at: Instant,
    hold_at: Instant,
)
    requires
        shortcuts::configuration(config, press_at, hold_at) is Ok,
    ensures
        ({
            let events = |all: Seq<BindingView>|
                shortcuts::reconfigured(all, config, down, now, press_at, hold_at)->Ok_0.1;
            &&& events(Seq::empty()) == Seq::<ShortcutEvent>::empty()
            &&& events(before.push(b)) == if b.kind == ShortcutKind::Hold && b.active && config.hold
                != Some(b.name) {
                events(before).push(
                    ShortcutEvent {
                        triggered_at: now,
                        kind: ShortcutKind::Hold,
                        phase: ShortcutPhase::End,
                    },
                )
            } else {
                events(before)
            }
        }),
{
    let next = shortcuts::configuration(config, press_at, hold_at)->Ok_0;
    assert(before.push(b).drop_last() =~= before);
    if b.kind == ShortcutKind::Hold {
        if config.hold == Some(b.name) {
            assert(shortcuts::same_shortcut(next[next.len() - 1], b));
        }
        if shortcuts::includes(next, b) {
            let i = choose|i: int|
                0 <= i < next.len() && shortcuts::same_shortcut(#[trigger] next[i], b);
            assert(next[i].kind == ShortcutKind::Hold);
        }
    }
}

/// What comes of an input: of pressed keys and of keyboards that come or go, what
/// comes of each shortcut by itself; of a configuration, what replaces them.
pub proof fn law_inputs(
    before: Seq<BindingView>,
    input: ShortcutInput,
    press_at: Instant,
    hold_at: Instant,
)
    ensures
        match input {
            ShortcutInput::KeyStateChanged { pressed_keys, now } => shortcuts::step(
                before,
                input,
                press_at,
                hold_at,
            ) matches Ok((after, events)) && {
                &&& after.len() == before.len()
                &&& forall|i: int|
                    0 <= i < before.len() ==> #[trigger] after[i] == shortcuts::after_keys(
                        before[i],
                        pressed_keys@,
                        now,
                    )
                &&& events == shortcuts::key_events(before, pressed_keys@, now)
            },
            ShortcutInput::DeviceSetChanged { pressed_keys, now } => shortcuts::step(
                before,
                input,
                press_at,
                hold_at,
            ) matches Ok((after, events)) && {
                &&& after.len() == before.len()
                &&& forall|i: int|
                    0 <= i < before.len() ==> #[trigger] after[i] == shortcuts::after_cancel(
                        before[i],
                    )
                &&& events == shortcuts::cancel_events(before, now)
            },
            ShortcutInput::ConfigChanged { shortcuts: config, pressed_keys, now } => shortcuts::step(
                before,
                input,
                press_at,
                hold_at,
            ) == shortcuts::reconfigured(
                before,
                config@,
                pressed_keys@,
                now,
                press_at,
                hold_at,
            ),
        },
{
}

/// A step that is accepted gives its shortcuts and its events. One that is
/// refused leaves the shortcuts as they were, and gives the bad part.
pub proof fn law_carried_out(
    step: Result<(Seq<BindingView>, Seq<ShortcutEvent>), Seq<char>>,
    before: Seq<BindingView>,
    after: Seq<BindingView>,
    r: Result<Vec<ShortcutEvent>, ShortcutError>,
)
    requires
        shortcuts::carried_out(step, before, after, shortcuts::outcome(r)),
    ensures
        r is Ok <==> step is Ok,
        step matches Ok((bindings, events)) ==> after == bindings && r->Ok_0@ == events,
        step matches Err(part) ==> after == before && r->Err_0.part@ == part
            && r->Err_0.cause.key@ == part,
{
}

/// The view of a configuration is what it holds.
pub proof fn law_config_view(config: ShortcutsConfig)
    ensures
        config.press matches Some(name) ==> config@.press == Some(name@),
        config.press is None ==> config@.press is None,
        config.hold matches Some(name) ==> config@.hold == Some(name@),
        config.hold is None ==> config@.hold is None,
{
}

/// When a shortcut last fired: the time of its last start, or what it began with
/// where it never started.
pub open spec fn last_fired(b: BindingView, history: Seq<Happening>) -> int
    decreases history.len(),
{
    if history.len() == 0 {
        b.last_trigger
    } else {
        let front = history.drop_last();
        match history.last() {
            Happening::Keys { down, now } => if starts(lived(b, front), history.last(), now) {
                now.nanos as int
            } else {
                last_fired(b, front)
            },
            _ => last_fired(b, front),
        }
    }
}

/// Over any history, a shortcut keeps its kind, its name and its keys, and is
/// taken to have last fired when it last started, whatever keys were looked at
/// since.
pub proof fn law_last_fired(b: BindingView, history: Seq<Happening>)
    ensures
        lived(b, history).kind == b.kind,
        lived(b, history).name == b.name,
        lived(b, history).keys == b.keys,
        lived(b, history).last_trigger == last_fired(b, history),
    decreases history.len(),
{
    if history.len() > 0 {
        let front = history.drop_last();
        law_last_fired(b, front);
        let was = lived(b, front);
        match history.last() {
            Happening::Keys { down, now } => law_look_at_keys(was, down, now),
            Happening::Devices { now } => law_device_change_of_one(was),
            Happening::Kept { down } => {},
        }
    }
}

/// Over any history, a press shortcut that was last seen with not all its keys
/// down fires, when its keys are looked at next, if and only if they are all
/// down and more than half a second has passed since it last started.
pub proof fn law_released_press_fires(
    b: BindingView,
    history: Seq<Happening>,
    down: Set<KeyCode>,
    now: Instant,
)
    requires
        b.kind == ShortcutKind::Press,
        history.len() > 0,
        history.last() matches Happening::Keys { down: seen, now: at } && !b.keys.subset_of(seen),
    ensures
        starts(lived(b, history), Happening::Keys { down, now }, now) <==> b.keys.subset_of(down)
            && now.nanos - last_fired(b, history) > 500_000_000,
{
    let front = history.drop_last();
    law_last_fired(b, front);
    law_last_fired(b, history);
    if let Happening::Keys { down: seen, now: at } = history.last() {
        law_look_at_keys(lived(b, front), seen, at);
    }
    law_look_at_keys(lived(b, history), down, now);
}

/// Over any history, a hold that was last seen with not all its keys down fires
/// whenever they are all down at the next look.
pub proof fn law_released_hold_fires(
    b: BindingView,
    history: Seq<Happening>,
    down: Set<KeyCode>,
    now: Instant,
)
    requires
        b.kind == ShortcutKind::Hold,
        history.len() > 0,
        history.last() is Devices || (history.last() matches Happening::Keys { down: seen, now: at }
            && !b.keys.subset_of(seen)),
    ensures
        starts(lived(b, history), Happening::Keys { down, now }, now) <==> b.keys.subset_of(down),
{
    let front = history.drop_last();
    law_last_fired(b, front);
    law_last_fired(b, history);
    if let Happening::Keys { down: seen, now: at } = history.last() {
        law_look_at_keys(lived(b, front), seen, at);
    }
    law_look_at_keys(lived(b, history), down, now);
}

/// What is said of well-formed shortcuts: at most a press and a hold, in this
/// order, each with the keys of its name.
pub proof fn law_well_formed(bindings: Seq<BindingView>, i: int)
    requires
        shortcuts::well_formed(bindings),
        0 <= i < bindings.len(),
    ensures
        bindings.len() <= 2,
        bindings.len() == 2 ==> bindings[i].kind == if i == 0 {
            ShortcutKind::Press
        } else {
            ShortcutKind::Hold
        },
        keys::shortcut_keys(bindings[i].name) == Ok::<_, Seq<char>>(bindings[i].keys),
{
}

} // verus!
