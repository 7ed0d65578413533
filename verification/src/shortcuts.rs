//! The state machine that turns pressed keys into shortcut events.

use crate::clock;
use crate::clock::{Clock, Instant};
use crate::keys;
use crate::keys::{KeyCode, ShortcutError, ShortcutErrorView};
use crate::shortcuts_laws;
use std::collections::HashSet;
use vstd::prelude::*;

verus! {

broadcast use vstd::std_specs::hash::group_hash_axioms;

/// A press shortcut fires again only when more than this has passed since it
/// last fired.
pub const DEBOUNCE_NANOS: i128 = 500_000_000;

/// How far back a new shortcut is taken to have fired, so that it can fire at
/// once.
pub const BACKDATE_NANOS: i128 = 10_000_000_000;

/// How a shortcut is used: held down while recording, or pressed once.
#[derive(Debug, Clone, Copy, PartialEq, Eq, Structural)]
pub enum ShortcutKind {
    Hold,
    Press,
}

/// What happened to a shortcut.
#[derive(Debug, Clone, Copy, PartialEq, Eq, Structural)]
pub enum ShortcutPhase {
    Start,
    End,
    Cancel,
}

/// Something that happened to a shortcut, and when.
#[derive(Debug, Clone, Copy, PartialEq, Eq, Structural)]
pub struct ShortcutEvent {
    pub triggered_at: Instant,
    pub kind: ShortcutKind,
    pub phase: ShortcutPhase,
}

/// A shortcut that is in use, and whether its keys are down.
#[derive(Debug, Clone, PartialEq, Eq)]
pub struct ShortcutSummary {
    pub kind: ShortcutKind,
    pub name: String,
    pub active: bool,
}

/// The shortcuts that the user configured.
#[derive(Debug, Clone, PartialEq, Eq)]
pub struct ShortcutsConfig {
    pub press: Option<String>,
    pub hold: Option<String>,
}

/// What the controller is told.
pub enum ShortcutInput<'a> {
    /// The set of pressed keys may have changed.
    KeyStateChanged { pressed_keys: &'a HashSet<KeyCode>, now: Instant },
    /// A keyboard came or went.
    DeviceSetChanged { pressed_keys: &'a HashSet<KeyCode>, now: Instant },
    /// The user configured other shortcuts.
    ConfigChanged {
        shortcuts: ShortcutsConfig,
        pressed_keys: &'a HashSet<KeyCode>,
        now: Instant,
    },
}

/// Watches the pressed keys for the configured shortcuts.
#[derive(Debug)]
pub struct ShortcutController {
    bindings: Vec<ShortcutBinding>,
}

/// A shortcut in use.
#[derive(Debug)]
struct ShortcutBinding {
    kind: ShortcutKind,
    name: String,
    keys: HashSet<KeyCode>,
    active: bool,
    last_trigger: Instant,
}

/// The mathematical value of a shortcut in use.
pub struct BindingView {
    pub kind: ShortcutKind,
    pub name: Seq<char>,
    pub keys: Set<KeyCode>,
    pub active: bool,
    pub last_trigger: int,
}

/// The mathematical value of a configuration.
pub struct ConfigView {
    pub press: Option<Seq<char>>,
    pub hold: Option<Seq<char>>,
}

impl ShortcutBinding {
    spec fn view(&self) -> BindingView {
        BindingView {
            kind: self.kind,
            name: self.name@,
            keys: self.keys@,
            active: self.active,
            last_trigger: self.last_trigger.nanos as int,
        }
    }
}

spec fn binding_views(bindings: Seq<ShortcutBinding>) -> Seq<BindingView> {
    bindings.map_values(|b: ShortcutBinding| b.view())
}

impl View for ShortcutController {
    type V = Seq<BindingView>;

    closed spec fn view(&self) -> Seq<BindingView> {
        binding_views(self.bindings@)
    }
}

impl View for ShortcutsConfig {
    type V = ConfigView;

    open spec fn view(&self) -> ConfigView {
        ConfigView {
            press: match self.press {
                Some(name) => Some(name@),
                None => None,
            },
            hold: match self.hold {
                Some(name) => Some(name@),
                None => None,
            },
        }
    }
}

/// All keys of the shortcut are down.
pub open spec fn pressed(b: BindingView, down: Set<KeyCode>) -> bool {
    b.keys.subset_of(down)
}

/// The shortcut may fire: a hold at any time, a press once it has been quiet
/// for longer than the debounce time.
pub open spec fn ready(b: BindingView, now: Instant) -> bool {
    b.kind == ShortcutKind::Hold || now.nanos - b.last_trigger > DEBOUNCE_NANOS
}

/// The shortcut after the pressed keys were looked at.
pub open spec fn after_keys(b: BindingView, down: Set<KeyCode>, now: Instant) -> BindingView {
    if pressed(b, down) && !b.active && ready(b, now) {
        BindingView { active: true, last_trigger: now.nanos as int, ..b }
    } else if !pressed(b, down) {
        BindingView { active: false, ..b }
    } else {
        b
    }
}

/// What is reported of the shortcut when the pressed keys are looked at: the
/// start of any shortcut, and the end of one that is held.
pub open spec fn key_event(b: BindingView, down: Set<KeyCode>, now: Instant) -> Seq<ShortcutEvent> {
    if pressed(b, down) && !b.active && ready(b, now) {
        seq![ShortcutEvent { triggered_at: now, kind: b.kind, phase: ShortcutPhase::Start }]
    } else if !pressed(b, down) && b.active && b.kind == ShortcutKind::Hold {
        seq![ShortcutEvent { triggered_at: now, kind: b.kind, phase: ShortcutPhase::End }]
    } else {
        seq![]
    }
}

/// What is reported of all shortcuts when the pressed keys are looked at.
pub open spec fn key_events(
    bindings: Seq<BindingView>,
    down: Set<KeyCode>,
    now: Instant,
) -> Seq<ShortcutEvent>
    decreases bindings.len(),
{
    if bindings.len() == 0 {
        seq![]
    } else {
        key_events(bindings.drop_last(), down, now) + key_event(bindings.last(), down, now)
    }
}

/// The shortcut after a keyboard came or went: a hold is given up.
pub open spec fn after_cancel(b: BindingView) -> BindingView {
    if b.kind == ShortcutKind::Hold {
        BindingView { active: false, ..b }
    } else {
        b
    }
}

/// What is reported when a keyboard came or went: every hold is cancelled,
/// whether it was active or not.
pub open spec fn cancel_events(bindings: Seq<BindingView>, now: Instant) -> Seq<ShortcutEvent>
    decreases bindings.len(),
{
    if bindings.len() == 0 {
        seq![]
    } else if bindings.last().kind == ShortcutKind::Hold {
        cancel_events(bindings.drop_last(), now).push(
            ShortcutEvent {
                triggered_at: now,
                kind: ShortcutKind::Hold,
                phase: ShortcutPhase::Cancel,
            },
        )
    } else {
        cancel_events(bindings.drop_last(), now)
    }
}

/// Two shortcuts are of one kind and go by one name.
pub open spec fn same_shortcut(a: BindingView, b: BindingView) -> bool {
    a.kind == b.kind && a.name == b.name
}

/// One of the shortcuts is `b`.
pub open spec fn includes(bindings: Seq<BindingView>, b: BindingView) -> bool {
    exists|i: int| 0 <= i < bindings.len() && same_shortcut(#[trigger] bindings[i], b)
}

/// The first of the shortcuts that is `b`.
pub open spec fn find(bindings: Seq<BindingView>, b: BindingView) -> Option<BindingView>
    decreases bindings.len(),
{
    if bindings.len() == 0 {
        None
    } else if same_shortcut(bindings.first(), b) {
        Some(bindings.first())
    } else {
        find(bindings.drop_first(), b)
    }
}

/// A shortcut that has just been configured.
pub open spec fn fresh(
    kind: ShortcutKind,
    name: Seq<char>,
    keys: Set<KeyCode>,
    created_at: Instant,
) -> BindingView {
    BindingView {
        kind,
        name,
        keys,
        active: false,
        last_trigger: created_at.nanos - BACKDATE_NANOS,
    }
}

/// The shortcut that one entry of a configuration asks for, or the part of it
/// that names no key.
pub open spec fn configured(
    kind: ShortcutKind,
    name: Option<Seq<char>>,
    created_at: Instant,
) -> Result<Seq<BindingView>, Seq<char>> {
    match name {
        Some(name) => match keys::shortcut_keys(name) {
            Ok(keys) => Ok(seq![fresh(kind, name, keys, created_at)]),
            Err(part) => Err(part),
        },
        None => Ok(seq![]),
    }
}

/// The shortcuts that a configuration asks for, the press before the hold, or
/// the part of the first bad one that names no key.
pub open spec fn configuration(
    config: ConfigView,
    press_at: Instant,
    hold_at: Instant,
) -> Result<Seq<BindingView>, Seq<char>> {
    match (
        configured(ShortcutKind::Press, config.press, press_at),
        configured(ShortcutKind::Hold, config.hold, hold_at),
    ) {
        (Ok(press), Ok(hold)) => Ok(press + hold),
        (Err(part), _) => Err(part),
        (Ok(_), Err(part)) => Err(part),
    }
}

/// A configured shortcut that was in use before takes over when it last fired,
/// and stays active while its keys are down.
pub open spec fn carried_over(
    b: BindingView,
    before: Seq<BindingView>,
    down: Set<KeyCode>,
) -> BindingView {
    match find(before, b) {
        Some(old) => BindingView {
            active: old.active && pressed(b, down),
            last_trigger: old.last_trigger,
            ..b
        },
        None => b,
    }
}

/// What is reported when the shortcuts are replaced: the end of every active
/// hold that is gone.
pub open spec fn release_events(
    before: Seq<BindingView>,
    next: Seq<BindingView>,
    now: Instant,
) -> Seq<ShortcutEvent>
    decreases before.len(),
{
    if before.len() == 0 {
        seq![]
    } else {
        let b = before.last();
        let rest = release_events(before.drop_last(), next, now);
        if b.kind == ShortcutKind::Hold && b.active && !includes(next, b) {
            rest.push(
                ShortcutEvent {
                    triggered_at: now,
                    kind: ShortcutKind::Hold,
                    phase: ShortcutPhase::End,
                },
            )
        } else {
            rest
        }
    }
}

/// The shortcuts and the events after a configuration with the entries created
/// at the given times, or the part of it that names no key.
pub open spec fn reconfigured(
    before: Seq<BindingView>,
    config: ConfigView,
    down: Set<KeyCode>,
    now: Instant,
    press_at: Instant,
    hold_at: Instant,
) -> Result<(Seq<BindingView>, Seq<ShortcutEvent>), Seq<char>> {
    match configuration(config, press_at, hold_at) {
        Ok(next) => Ok(
            (
                next.map_values(|b: BindingView| carried_over(b, before, down)),
                release_events(before, next, now),
            ),
        ),
        Err(part) => Err(part),
    }
}

/// What holds of the shortcuts in use: there is at most one of each kind, the
/// press before the hold, and each watches the keys that its name gives.
pub open spec fn well_formed(bindings: Seq<BindingView>) -> bool {
    &&& bindings.len() <= 2
    &&& bindings.len() == 2 ==> {
        &&& bindings[0].kind == ShortcutKind::Press
        &&& bindings[1].kind == ShortcutKind::Hold
    }
    &&& forall|i: int|
        0 <= i < bindings.len() ==> keys::shortcut_keys((#[trigger] bindings[i]).name) == Ok::<
            Set<KeyCode>,
            Seq<char>,
        >(bindings[i].keys)
}

/// Tells whether all of `keys` are in `down`.
fn all_down(keys: &HashSet<KeyCode>, down: &HashSet<KeyCode>) -> (r: bool)
    ensures
        r == keys@.subset_of(down@),
{
    for key in it: keys.iter()
        invariant
            it.seq().unref().to_set() == keys@,
            forall|i: int| 0 <= i < it.index() ==> down@.contains(*#[trigger] it.seq()[i]),
    {
        if !down.contains(key) {
            proof {
                assert(it.seq().unref()[it.index() as int] == *key);
                assert(it.seq().unref().contains(*key));
            }
            return false;
        }
    }
    true
}

impl ShortcutBinding {
    /// The shortcut that `name` gives, dated back from the time when it was
    /// created.
    fn new(kind: ShortcutKind, name: String, created_at: Instant) -> (r: Result<
        Self,
        ShortcutError,
    >)
        requires
            created_at.nanos - BACKDATE_NANOS >= i128::MIN,
        ensures
            match r {
                Ok(b) => configured(kind, Some(name@), created_at) == Ok::<
                    Seq<BindingView>,
                    Seq<char>,
                >(seq![b.view()]),
                Err(error) => {
                    &&& configured(kind, Some(name@), created_at) == Err::<
                        Seq<BindingView>,
                        Seq<char>,
                    >(error@.part)
                    &&& error@ == keys::bad_part(error@.part)
                },
            },
    {
        let keys = match keys::parse_shortcut(name.as_str()) {
            Ok(keys) => keys,
            Err(error) => return Err(error),
        };
        Ok(
            ShortcutBinding {
                kind,
                name,
                keys,
                active: false,
                last_trigger: Instant { nanos: created_at.nanos - BACKDATE_NANOS },
            },
        )
    }
}

/// Where `b` first is among the shortcuts.
fn position(bindings: &Vec<ShortcutBinding>, b: &ShortcutBinding) -> (r: Option<usize>)
    ensures
        match r {
            Some(i) => {
                &&& i < bindings@.len()
                &&& find(binding_views(bindings@), b.view()) == Some(bindings@[i as int].view())
                &&& includes(binding_views(bindings@), b.view())
            },
            None => {
                &&& find(binding_views(bindings@), b.view()) is None
                &&& !includes(binding_views(bindings@), b.view())
            },
        },
{
    let ghost all = binding_views(bindings@);
    let mut i: usize = 0;
    assert(all.skip(0) =~= all);
    while i < bindings.len()
        invariant
            i <= bindings@.len(),
            all == binding_views(bindings@),
            find(all, b.view()) == find(all.skip(i as int), b.view()),
            forall|j: int| 0 <= j < i ==> !same_shortcut(#[trigger] all[j], b.view()),
        decreases bindings@.len() - i,
    {
        assert(all.skip(i as int).first() == bindings@[i as int].view());
        if bindings[i].kind == b.kind && bindings[i].name == b.name {
            assert(same_shortcut(all[i as int], b.view()));
            return Some(i);
        }
        assert(all.skip(i as int).drop_first() =~= all.skip(i + 1));
        i += 1;
    }
    None
}

/// The mathematical value of a result of the controller.
pub open spec fn outcome(r: Result<Vec<ShortcutEvent>, ShortcutError>) -> Result<
    Seq<ShortcutEvent>,
    ShortcutErrorView,
> {
    match r {
        Ok(events) => Ok(events@),
        Err(error) => Err(error@),
    }
}

/// What is configured first is in use as it is configured.
proof fn lemma_first_configuration(
    config: ConfigView,
    down: Set<KeyCode>,
    now: Instant,
    press_at: Instant,
    hold_at: Instant,
)
    ensures
        match configuration(config, press_at, hold_at) {
            Ok(bindings) => reconfigured(Seq::empty(), config, down, now, press_at, hold_at) == Ok::<
                (Seq<BindingView>, Seq<ShortcutEvent>),
                Seq<char>,
            >((bindings, Seq::empty())),
            Err(part) => reconfigured(Seq::empty(), config, down, now, press_at, hold_at) == Err::<
                (Seq<BindingView>, Seq<ShortcutEvent>),
                Seq<char>,
            >(part),
        },
{
    if let Ok(bindings) = configuration(config, press_at, hold_at) {
        assert(bindings.map_values(|b: BindingView| carried_over(b, Seq::empty(), down))
            =~= bindings);
    }
}

/// What is to come of a step came of it: the new shortcuts and the events, or
/// an error that changes nothing.
pub open spec fn carried_out(
    step: Result<(Seq<BindingView>, Seq<ShortcutEvent>), Seq<char>>,
    before: Seq<BindingView>,
    after: Seq<BindingView>,
    r: Result<Seq<ShortcutEvent>, ShortcutErrorView>,
) -> bool {
    match step {
        Ok((bindings, events)) => after == bindings && r == Ok::<
            Seq<ShortcutEvent>,
            ShortcutErrorView,
        >(events),
        Err(part) => after == before && r == Err::<Seq<ShortcutEvent>, ShortcutErrorView>(
            keys::bad_part(part),
        ),
    }
}

/// What is to come of an input, where the shortcuts that it configures are
/// created at the given times.
pub open spec fn step(
    before: Seq<BindingView>,
    input: ShortcutInput,
    press_at: Instant,
    hold_at: Instant,
) -> Result<(Seq<BindingView>, Seq<ShortcutEvent>), Seq<char>> {
    match input {
        ShortcutInput::KeyStateChanged { pressed_keys, now } => Ok(
            (
                before.map_values(|b: BindingView| after_keys(b, pressed_keys@, now)),
                key_events(before, pressed_keys@, now),
            ),
        ),
        ShortcutInput::DeviceSetChanged { pressed_keys, now } => Ok(
            (
                before.map_values(|b: BindingView| after_cancel(b)),
                cancel_events(before, now),
            ),
        ),
        ShortcutInput::ConfigChanged { shortcuts, pressed_keys, now } => reconfigured(
            before,
            shortcuts@,
            pressed_keys@,
            now,
            press_at,
            hold_at,
        ),
    }
}

impl ShortcutController {
    /// A controller for the configured shortcuts, which are dated back from
    /// what the clock reads.
    pub fn new(shortcuts: ShortcutsConfig, clock: &mut Clock) -> (r: Result<Self, ShortcutError>)
        ensures
            clock::read_on(*old(clock), *final(clock), 3),
            match (
                configuration(shortcuts@, final(clock).reading(1), final(clock).reading(0)),
                r,
            ) {
                (Ok(bindings), Ok(controller)) => controller@ == bindings && well_formed(bindings),
                (Err(part), Err(error)) => error@ == keys::bad_part(part),
                _ => false,
            },
    {
        let mut controller = ShortcutController { bindings: Vec::new() };
        assert(controller@ =~= Seq::<BindingView>::empty());
        let ghost config = shortcuts@;
        let now = clock.now();
        let ghost read = *clock;
        let r = controller.replace_shortcuts(shortcuts, &HashSet::new(), now, clock);
        proof {
            clock::law_readings_go_on(*old(clock), read, *clock, 1, 2);
            let press_at = clock.reading(1);
            let hold_at = clock.reading(0);
            lemma_first_configuration(config, Set::empty(), now, press_at, hold_at);
            shortcuts_laws::law_configurations_are_well_formed(config, press_at, hold_at);
        }
        match r {
            Ok(_) => Ok(controller),
            Err(error) => Err(error),
        }
    }

    /// Takes in what has happened, and reports what comes of it. The clock is
    /// read for shortcuts that are configured, and not otherwise.
    pub fn transition(&mut self, input: ShortcutInput<'_>, clock: &mut Clock) -> (r: Result<
        Vec<ShortcutEvent>,
        ShortcutError,
    >)
        ensures
            carried_out(
                step(old(self)@, input, final(clock).reading(1), final(clock).reading(0)),
                old(self)@,
                final(self)@,
                outcome(r),
            ),
            if input is ConfigChanged {
                clock::read_on(*old(clock), *final(clock), 2)
            } else {
                *final(clock) == *old(clock)
            },
            well_formed(old(self)@) ==> well_formed(final(self)@),
    {
        let ghost before = self@;
        let ghost given = input;
        let r = match input {
            ShortcutInput::KeyStateChanged { pressed_keys, now } => Ok(
                self.apply_key_state(pressed_keys, now),
            ),
            ShortcutInput::DeviceSetChanged { pressed_keys: _, now } => Ok(self.cancel_holds(now)),
            ShortcutInput::ConfigChanged { shortcuts, pressed_keys, now } => self.replace_shortcuts(
                shortcuts,
                pressed_keys,
                now,
                clock,
            ),
        };
        proof {
            if well_formed(before) {
                shortcuts_laws::law_steps_keep_well_formed(
                    before,
                    given,
                    clock.reading(1),
                    clock.reading(0),
                );
            }
        }
        r
    }

    /// Looks at the pressed keys.
    pub fn apply_key_state(
        &mut self,
        pressed_keys: &HashSet<KeyCode>,
        now: Instant,
    ) -> (r: Vec<ShortcutEvent>)
        ensures
            final(self)@ == old(self)@.map_values(
                |b: BindingView| after_keys(b, pressed_keys@, now),
            ),
            r@ == key_events(old(self)@, pressed_keys@, now),
    {
        let ghost before = self@;
        let mut events: Vec<ShortcutEvent> = Vec::new();
        let mut i: usize = 0;
        assert(before.take(0) =~= Seq::<BindingView>::empty());
        while i < self.bindings.len()
            invariant
                i <= self.bindings@.len() == before.len(),
                forall|j: int|
                    0 <= j < i ==> (#[trigger] self@[j]) == after_keys(
                        before[j],
                        pressed_keys@,
                        now,
                    ),
                forall|j: int| i <= j < before.len() ==> (#[trigger] self@[j]) == before[j],
                events@ == key_events(before.take(i as int), pressed_keys@, now),
            decreases self.bindings@.len() - i,
        {
            let ghost b = before[i as int];
            proof {
                assert(self@[i as int] == b);
                assert(before.take(i + 1).drop_last() =~= before.take(i as int));
                assert(before.take(i + 1).last() == b);
            }
            let ghost bindings = self.bindings@;
            let combination_pressed = all_down(&self.bindings[i].keys, pressed_keys);

            if combination_pressed && !self.bindings[i].active {
                let should_trigger = match self.bindings[i].kind {
                    ShortcutKind::Hold => true,
                    ShortcutKind::Press => now.is_later_by_more_than(
                        self.bindings[i].last_trigger,
                        DEBOUNCE_NANOS,
                    ),
                };
                if should_trigger {
                    self.bindings[i].active = true;
                    self.bindings[i].last_trigger = now;
                    events.push(
                        ShortcutEvent {
                            triggered_at: now,
                            kind: self.bindings[i].kind,
                            phase: ShortcutPhase::Start,
                        },
                    );
                }
            } else if !combination_pressed && self.bindings[i].active {
                self.bindings[i].active = false;
                if self.bindings[i].kind == ShortcutKind::Hold {
                    events.push(
                        ShortcutEvent {
                            triggered_at: now,
                            kind: ShortcutKind::Hold,
                            phase: ShortcutPhase::End,
                        },
                    );
                }
            }
            proof {
                assert forall|j: int| 0 <= j < before.len() && j != i implies (#[trigger] self@[j])
                    == binding_views(bindings)[j] by {
                    assert(self.bindings@[j] == bindings[j]);
                }
                assert(events@ =~= key_events(before.take(i + 1), pressed_keys@, now));
            }
            i += 1;
        }
        assert(before.take(i as int) =~= before);
        assert(self@ =~= before.map_values(|b: BindingView| after_keys(b, pressed_keys@, now)));
        events
    }

    /// Gives up every hold.
    pub fn cancel_holds(&mut self, now: Instant) -> (r: Vec<ShortcutEvent>)
        ensures
            final(self)@ == old(self)@.map_values(|b: BindingView| after_cancel(b)),
            r@ == cancel_events(old(self)@, now),
    {
        let ghost before = self@;
        let mut events: Vec<ShortcutEvent> = Vec::new();
        let mut i: usize = 0;
        assert(before.take(0) =~= Seq::<BindingView>::empty());
        while i < self.bindings.len()
            invariant
                i <= self.bindings@.len() == before.len(),
                forall|j: int| 0 <= j < i ==> (#[trigger] self@[j]) == after_cancel(before[j]),
                forall|j: int| i <= j < before.len() ==> (#[trigger] self@[j]) == before[j],
                events@ == cancel_events(before.take(i as int), now),
            decreases self.bindings@.len() - i,
        {
            let ghost b = before[i as int];
            let ghost bindings = self.bindings@;
            proof {
                assert(self@[i as int] == b);
                assert(before.take(i + 1).drop_last() =~= before.take(i as int));
                assert(before.take(i + 1).last() == b);
            }
            if self.bindings[i].kind == ShortcutKind::Hold {
                self.bindings[i].active = false;
                events.push(
                    ShortcutEvent {
                        triggered_at: now,
                        kind: ShortcutKind::Hold,
                        phase: ShortcutPhase::Cancel,
                    },
                );
            }
            proof {
                assert forall|j: int| 0 <= j < before.len() && j != i implies (#[trigger] self@[j])
                    == binding_views(bindings)[j] by {
                    assert(self.bindings@[j] == bindings[j]);
                }
            }
            i += 1;
        }
        assert(before.take(i as int) =~= before);
        assert(self@ =~= before.map_values(|b: BindingView| after_cancel(b)));
        events
    }

    /// Replaces the shortcuts. The new ones are dated back from `press_at` and
    /// `hold_at`. Where the configuration is bad, nothing changes.
    pub fn replace_shortcuts_at(
        &mut self,
        shortcuts: ShortcutsConfig,
        pressed_keys: &HashSet<KeyCode>,
        now: Instant,
        press_at: Instant,
        hold_at: Instant,
    ) -> (r: Result<Vec<ShortcutEvent>, ShortcutError>)
        requires
            press_at.nanos - BACKDATE_NANOS >= i128::MIN,
            hold_at.nanos - BACKDATE_NANOS >= i128::MIN,
        ensures
            carried_out(
                reconfigured(old(self)@, shortcuts@, pressed_keys@, now, press_at, hold_at),
                old(self)@,
                final(self)@,
                outcome(r),
            ),
    {
        let ghost before = self@;
        let mut releases: Vec<ShortcutEvent> = Vec::new();
        let mut next: Vec<ShortcutBinding> = Vec::new();

        if let Some(shortcut) = shortcuts.press {
            match ShortcutBinding::new(ShortcutKind::Press, shortcut, press_at) {
                Ok(binding) => next.push(binding),
                Err(error) => return Err(error),
            }
        }
        if let Some(shortcut) = shortcuts.hold {
            match ShortcutBinding::new(ShortcutKind::Hold, shortcut, hold_at) {
                Ok(binding) => next.push(binding),
                Err(error) => return Err(error),
            }
        }
        let ghost wanted = binding_views(next@);
        assert(configuration(shortcuts@, press_at, hold_at)->Ok_0 =~= wanted);

        let mut i: usize = 0;
        assert(before.take(0) =~= Seq::<BindingView>::empty());
        while i < self.bindings.len()
            invariant
                i <= self.bindings@.len(),
                before == self@,
                wanted == binding_views(next@),
                releases@ == release_events(before.take(i as int), wanted, now),
            decreases self.bindings@.len() - i,
        {
            let old_binding = &self.bindings[i];
            proof {
                assert(before.take(i + 1).drop_last() =~= before.take(i as int));
                assert(before.take(i + 1).last() == old_binding.view());
            }
            if old_binding.kind == ShortcutKind::Hold && old_binding.active && position(
                &next,
                old_binding,
            ).is_none() {
                releases.push(
                    ShortcutEvent {
                        triggered_at: now,
                        kind: ShortcutKind::Hold,
                        phase: ShortcutPhase::End,
                    },
                );
            }
            i += 1;
        }
        assert(before.take(i as int) =~= before);

        let mut k: usize = 0;
        while k < next.len()
            invariant
                k <= next@.len() == wanted.len(),
                before == self@,
                forall|j: int|
                    0 <= j < k ==> (#[trigger] binding_views(next@)[j]) == carried_over(
                        wanted[j],
                        before,
                        pressed_keys@,
                    ),
                forall|j: int|
                    k <= j < next@.len() ==> (#[trigger] binding_views(next@)[j]) == wanted[j],
            decreases next@.len() - k,
        {
            let ghost bindings = next@;
            assert(binding_views(next@)[k as int] == wanted[k as int]);
            if let Some(o) = position(&self.bindings, &next[k]) {
                let active = self.bindings[o].active && all_down(&next[k].keys, pressed_keys);
                next[k].active = active;
                next[k].last_trigger = self.bindings[o].last_trigger;
            }
            proof {
                assert forall|j: int| 0 <= j < wanted.len() && j != k implies (
                    #[trigger] binding_views(next@)[j]) == binding_views(bindings)[j] by {
                    assert(next@[j] == bindings[j]);
                }
            }
            k += 1;
        }
        self.bindings = next;
        assert(self@ =~= wanted.map_values(
            |b: BindingView| carried_over(b, before, pressed_keys@),
        ));
        Ok(releases)
    }

    /// Replaces the shortcuts. The new ones are dated back from what the clock
    /// reads. Where the configuration is bad, nothing changes.
    pub fn replace_shortcuts(
        &mut self,
        shortcuts: ShortcutsConfig,
        pressed_keys: &HashSet<KeyCode>,
        now: Instant,
        clock: &mut Clock,
    ) -> (r: Result<Vec<ShortcutEvent>, ShortcutError>)
        ensures
            clock::read_on(*old(clock), *final(clock), 2),
            carried_out(
                reconfigured(
                    old(self)@,
                    shortcuts@,
                    pressed_keys@,
                    now,
                    final(clock).reading(1),
                    final(clock).reading(0),
                ),
                old(self)@,
                final(self)@,
                outcome(r),
            ),
    {
        let press_at = clock.now();
        let ghost read = *clock;
        let hold_at = clock.now();
        proof {
            clock::law_readings_go_on(*old(clock), read, *clock, 1, 1);
        }
        self.replace_shortcuts_at(shortcuts, pressed_keys, now, press_at, hold_at)
    }

    /// The shortcuts in use.
    pub fn summaries(&self) -> (r: Vec<ShortcutSummary>)
        ensures
            r@.len() == self@.len(),
            forall|i: int|
                0 <= i < r@.len() ==> {
                    &&& (#[trigger] r@[i]).kind == self@[i].kind
                    &&& r@[i].name@ == self@[i].name
                    &&& r@[i].active == self@[i].active
                },
    {
        let mut out: Vec<ShortcutSummary> = Vec::new();
        let mut i: usize = 0;
        while i < self.bindings.len()
            invariant
                i <= self.bindings@.len(),
                out@.len() == i,
                forall|j: int|
                    0 <= j < i ==> {
                        &&& (#[trigger] out@[j]).kind == self@[j].kind
                        &&& out@[j].name@ == self@[j].name
                        &&& out@[j].active == self@[j].active
                    },
            decreases self.bindings@.len() - i,
        {
            let binding = &self.bindings[i];
            out.push(
                ShortcutSummary {
                    kind: binding.kind,
                    name: binding.name.clone(),
                    active: binding.active,
                },
            );
            i += 1;
        }
        out
    }
}

} // verus!
