//! Edge-aware button states driven by raw press and release events.
//!
//! Every control of every input device has one [`ButtonState`]. A control that
//! has never produced an event is `Open(0)`; each press or release event moves
//! the control through a fixed transition table.

use std::collections::HashMap;
use vstd::prelude::*;
use vstd::std_specs::iter::IteratorSpec;

verus! {

broadcast use vstd::std_specs::hash::group_hash_axioms;

/// Identity of one physical control: the device it sits on, then the code of
/// the control on that device.
#[derive(PartialEq, Eq, Structural, Hash, Clone, Copy, Debug)]
pub enum Button {
    /// A key named by its virtual key code.
    Key(u64, u32),
    /// A mouse or gamepad button named by its button id.
    Button(u64, u32),
    /// A key named by its hardware scan code.
    KeyButton(u64, u32),
}

/// One raw event of an input device, reduced to what the tracker reads.
#[derive(PartialEq, Eq, Structural, Clone, Copy, Debug)]
pub enum DeviceInput {
    /// The key with this virtual key code went down (`pressed`) or up.
    Key { key: u32, pressed: bool },
    /// The button with this id went down (`pressed`) or up.
    Button { button: u32, pressed: bool },
    /// The key with this hardware scan code went down (`pressed`) or up.
    KeyButton { scancode: u32, pressed: bool },
    /// Any other device event; the tracker ignores it.
    Other,
}

impl DeviceInput {
    /// The control of `device` that the event belongs to, and whether it was
    /// pressed; `None` for an event that belongs to no control.
    pub open spec fn control_spec(self, device: u64) -> Option<(Button, bool)> {
        match self {
            DeviceInput::Key { key, pressed } => Some((Button::Key(device, key), pressed)),
            DeviceInput::Button { button, pressed } => Some(
                (Button::Button(device, button), pressed),
            ),
            DeviceInput::KeyButton { scancode, pressed } => Some(
                (Button::KeyButton(device, scancode), pressed),
            ),
            DeviceInput::Other => None,
        }
    }

    /// The control of `device` that the event belongs to, and whether it was
    /// pressed.
    pub fn control(self, device: u64) -> (r: Option<(Button, bool)>)
        ensures
            r == self.control_spec(device),
    {
        match self {
            DeviceInput::Key { key, pressed } => Some((Button::Key(device, key), pressed)),
            DeviceInput::Button { button, pressed } => Some(
                (Button::Button(device, button), pressed),
            ),
            DeviceInput::KeyButton { scancode, pressed } => Some(
                (Button::KeyButton(device, scancode), pressed),
            ),
            DeviceInput::Other => None,
        }
    }
}

/// The state of one control, with the tick count that belongs to it.
#[derive(PartialEq, Eq, Structural, Clone, Copy, Debug)]
pub enum ButtonState {
    /// The button has just been pressed, and was open for this many ticks
    /// before.
    Pressed(u32),
    /// The button has been down for this many ticks; `Held(1)` follows
    /// `Pressed`, and `Held(0)` never occurs.
    Held(u32),
    /// The button has just been released, and was held for this many ticks
    /// before; `Released(0)` is a one-tick press.
    Released(u32),
    /// The button has been up for this many ticks since its last release;
    /// `Open(0)` means it has never been pressed.
    Open(u32),
}

impl ButtonState {
    /// The tick count that the state carries.
    pub open spec fn count(self) -> u32 {
        match self {
            ButtonState::Pressed(n) => n,
            ButtonState::Held(n) => n,
            ButtonState::Released(n) => n,
            ButtonState::Open(n) => n,
        }
    }

    /// The control is physically down: `Pressed` or `Held`.
    pub open spec fn is_down(self) -> bool {
        self is Pressed || self is Held
    }

    /// The event makes the state count one further: a press while `Held`, a
    /// release while `Open`.
    pub open spec fn counts_up(self, pressed: bool) -> bool {
        (self is Held && pressed) || (self is Open && !pressed)
    }

    /// The event can be applied: where it counts one further, the count has
    /// room for it.
    pub open spec fn can_step(self, pressed: bool) -> bool {
        self.counts_up(pressed) ==> self.count() < u32::MAX
    }

    /// The transition table: the state after a press (`pressed`) or a release.
    pub open spec fn step(self, pressed: bool) -> ButtonState {
        if pressed {
            match self {
                ButtonState::Pressed(_) => ButtonState::Held(1),
                ButtonState::Held(n) => ButtonState::Held((n + 1) as u32),
                ButtonState::Open(n) => ButtonState::Pressed(n),
                ButtonState::Released(_) => ButtonState::Pressed(0),
            }
        } else {
            match self {
                ButtonState::Pressed(_) => ButtonState::Released(0),
                ButtonState::Held(n) => ButtonState::Released(n),
                ButtonState::Open(n) => ButtonState::Open((n + 1) as u32),
                ButtonState::Released(_) => ButtonState::Open(1),
            }
        }
    }

    /// Whether the control is down.
    pub fn down(self) -> (r: bool)
        ensures
            r == self.is_down(),
    {
        match self {
            ButtonState::Pressed(_) => true,
            ButtonState::Held(_) => true,
            ButtonState::Released(_) => false,
            ButtonState::Open(_) => false,
        }
    }

    /// Whether `next` may be called with this event.
    pub fn accepts(self, pressed: bool) -> (r: bool)
        ensures
            r == self.can_step(pressed),
    {
        match self {
            ButtonState::Held(n) => !pressed || n < u32::MAX,
            ButtonState::Open(n) => pressed || n < u32::MAX,
            _ => true,
        }
    }

    /// Applies one press or release event.
    pub fn next(self, pressed: bool) -> (r: ButtonState)
        requires
            self.can_step(pressed),
        ensures
            r == self.step(pressed),
    {
        if pressed {
            match self {
                ButtonState::Pressed(_) => ButtonState::Held(1),
                ButtonState::Held(n) => ButtonState::Held(n + 1),
                ButtonState::Open(n) => ButtonState::Pressed(n),
                ButtonState::Released(_) => ButtonState::Pressed(0),
            }
        } else {
            match self {
                ButtonState::Pressed(_) => ButtonState::Released(0),
                ButtonState::Held(n) => ButtonState::Released(n),
                ButtonState::Open(n) => ButtonState::Open(n + 1),
                ButtonState::Released(_) => ButtonState::Open(1),
            }
        }
    }
}

/// The number of keys that one device takes: one for each code.
const CODES_PER_DEVICE: u128 = 0x1_0000_0000;

/// The number of keys that one kind of control takes: one for each code of
/// each device.
const KEYS_PER_KIND: u128 = 0x1_0000_0000_0000_0000_0000_0000;

impl Button {
    /// The number under which the table keeps this control: the kind, the
    /// device and the code, side by side.
    closed spec fn key_spec(self) -> u128 {
        match self {
            Button::Key(device, code) => {
                (device * CODES_PER_DEVICE + code) as u128
            },
            Button::Button(device, code) => {
                (KEYS_PER_KIND + device * CODES_PER_DEVICE + code) as u128
            },
            Button::KeyButton(device, code) => {
                (2 * KEYS_PER_KIND + device * CODES_PER_DEVICE + code) as u128
            },
        }
    }

    /// Computes the key of this control.
    fn key(self) -> (key: u128)
        ensures
            key == self.key_spec(),
    {
        match self {
            Button::Key(device, code) => {
                (device as u128) * CODES_PER_DEVICE + (code as u128)
            },
            Button::Button(device, code) => {
                KEYS_PER_KIND + (device as u128) * CODES_PER_DEVICE + (code as u128)
            },
            Button::KeyButton(device, code) => {
                2 * KEYS_PER_KIND + (device as u128) * CODES_PER_DEVICE + (code as u128)
            },
        }
    }
}

/// Two controls with one key are one control.
proof fn lemma_key_injective(a: Button, b: Button)
    ensures
        a.key_spec() == b.key_spec() <==> a == b,
{
}

/// What the table keeps under a key: the control and its current state.
struct Entry {
    button: Button,
    state: ButtonState,
}

/// The states of all controls that have produced an event so far.
pub struct ControlsState {
    button_states: HashMap<u128, Entry>,
}

/// The state of `button` in a table of recorded states: what the table holds
/// for it, and `Open(0)` where it holds nothing.
pub open spec fn state_in(table: Map<Button, ButtonState>, button: Button) -> ButtonState {
    if table.dom().contains(button) {
        table[button]
    } else {
        ButtonState::Open(0)
    }
}

/// The table after the events `events`, each a control and whether it was
/// pressed, taken in this order.
pub open spec fn after_events(
    start: Map<Button, ButtonState>,
    events: Seq<(Button, bool)>,
) -> Map<Button, ButtonState>
    decreases events.len(),
{
    if events.len() == 0 {
        start
    } else {
        let table = after_events(start, events.drop_last());
        let (button, pressed) = events.last();
        table.insert(button, state_in(table, button).step(pressed))
    }
}

/// Whether the last event of `button` among `events` was a press; `None`
/// where `button` has no event among them.
pub open spec fn last_event_of(events: Seq<(Button, bool)>, button: Button) -> Option<bool>
    decreases events.len(),
{
    if events.len() == 0 {
        None
    } else if events.last().0 == button {
        Some(events.last().1)
    } else {
        last_event_of(events.drop_last(), button)
    }
}


impl ControlsState {
    /// Every entry stands under the key of its own control.
    pub closed spec fn wf(&self) -> bool {
        forall|key: u128| #[trigger]
            self.button_states@.contains_key(key) ==> self.button_states@[key].button.key_spec()
                == key
    }

    /// The recorded states: a control is in the domain once it has produced
    /// an event.
    pub closed spec fn view(&self) -> Map<Button, ButtonState> {
        Map::new(
            |b: Button| self.button_states@.contains_key(b.key_spec()),
            |b: Button| self.button_states@[b.key_spec()].state,
        )
    }

    /// The state of `button`: what is recorded for it, and `Open(0)` for a
    /// control without any event yet.
    pub open spec fn state_of(&self, button: Button) -> ButtonState {
        state_in(self@, button)
    }

    /// The control is currently down.
    pub open spec fn is_active(&self, button: Button) -> bool {
        self.state_of(button).is_down()
    }

    /// A table without any control.
    pub fn new() -> (s: ControlsState)
        ensures
            s.wf(),
            s@ == Map::<Button, ButtonState>::empty(),
    {
        let s = ControlsState { button_states: HashMap::new() };
        assert(s@ =~= Map::<Button, ButtonState>::empty());
        s
    }

    /// The state of `button`; `Open(0)` where it has never produced an event.
    pub fn get_button_state(&self, button: Button) -> (state: ButtonState)
        requires
            self.wf(),
        ensures
            state == self.state_of(button),
    {
        let key = button.key();
        match self.button_states.get(&key) {
            Some(entry) => entry.state,
            None => ButtonState::Open(0),
        }
    }

    /// Whether `on_event` may be called for this control and event.
    pub fn accepts(&self, button: Button, pressed: bool) -> (r: bool)
        requires
            self.wf(),
        ensures
            r == self.state_of(button).can_step(pressed),
    {
        self.get_button_state(button).accepts(pressed)
    }

    /// Records a press (`pressed`) or a release of `button`: its state moves
    /// by the transition table, and every other control keeps its state.
    pub fn on_event(&mut self, button: Button, pressed: bool)
        requires
            old(self).wf(),
            old(self).state_of(button).can_step(pressed),
        ensures
            final(self).wf(),
            final(self)@ == old(self)@.insert(button, old(self).state_of(button).step(pressed)),
    {
        let next = self.get_button_state(button).next(pressed);
        self.button_states.insert(button.key(), Entry { button, state: next });
        proof {
            assert forall|b: Button| b.key_spec() == button.key_spec() <==> b == button by {
                lemma_key_injective(b, button);
            }
            assert(self@ =~= old(self)@.insert(button, next));
        }
    }

    /// Whether `handle_device_event` may be called for this device and event.
    pub fn accepts_device_event(&self, device: u64, event: DeviceInput) -> (r: bool)
        requires
            self.wf(),
        ensures
            r == self.can_handle(device, event),
    {
        match event.control(device) {
            Some((button, pressed)) => self.accepts(button, pressed),
            None => true,
        }
    }

    /// The event of `device` can be applied to its control.
    pub open spec fn can_handle(&self, device: u64, event: DeviceInput) -> bool {
        match event.control_spec(device) {
            Some((button, pressed)) => self.state_of(button).can_step(pressed),
            None => true,
        }
    }

    /// The recorded states after an event of `device`: the control that the
    /// event belongs to has moved by the transition table.
    pub open spec fn after_device_event(&self, device: u64, event: DeviceInput) -> Map<
        Button,
        ButtonState,
    > {
        match event.control_spec(device) {
            Some((button, pressed)) => self@.insert(button, self.state_of(button).step(pressed)),
            None => self@,
        }
    }

    /// Takes one raw event of `device`: a press or release of a key, a
    /// button or a scan code moves that control of the device by the
    /// transition table, any other event changes nothing.
    pub fn handle_device_event(&mut self, device: u64, event: DeviceInput)
        requires
            old(self).wf(),
            old(self).can_handle(device, event),
        ensures
            final(self).wf(),
            final(self)@ == old(self).after_device_event(device, event),
    {
        match event.control(device) {
            Some((button, pressed)) => {
                self.on_event(button, pressed);
            },
            None => {},
        }
    }

    /// The controls that are down: each one in `Pressed` or `Held`, once, and
    /// no other.
    pub fn get_pressed_buttons(&self) -> (buttons: Vec<Button>)
        requires
            self.wf(),
        ensures
            buttons@.no_duplicates(),
            forall|b: Button| buttons@.contains(b) <==> self.is_active(b),
    {
        let mut buttons: Vec<Button> = Vec::new();
        let ghost table = self.button_states@;
        let ghost keys = self.button_states.keys().remaining();
        let ghost mut done: int = 0;
        for key in it: self.button_states.keys()
            invariant
                self.wf(),
                table == self.button_states@,
                it.seq() == keys,
                done == it.index(),
                keys.no_duplicates(),
                keys.unref().to_set() == table.dom(),
                buttons@.no_duplicates(),
                forall|b: Button|
                    buttons@.contains(b) <==> exists|j: int|
                        0 <= j < done && #[trigger] keys[j] == &b.key_spec() && table.contains_key(
                            b.key_spec(),
                        ) && table[b.key_spec()].state.is_down(),
        {
            let ghost before = buttons@;
            proof {
                assert(keys[done] == key);
                assert(keys.unref()[done] == *key);
                assert(keys.unref().to_set().contains(*key));
            }
            match self.button_states.get(key) {
                Some(entry) => {
                    if entry.state.down() {
                        buttons.push(entry.button);
                        proof {
                            assert(!before.contains(entry.button));
                            assert(buttons@ =~= before.push(entry.button));
                        }
                    }
                },
                None => {},
            }
            proof {
                let held = table[*key];
                assert forall|b: Button| buttons@.contains(b) <==> exists|j: int|
                    0 <= j < done + 1 && #[trigger] keys[j] == &b.key_spec() && table.contains_key(
                        b.key_spec(),
                    ) && table[b.key_spec()].state.is_down() by {
                    lemma_key_injective(b, held.button);
                    if buttons@.contains(b) && !before.contains(b) {
                        assert(b == held.button);
                        assert(keys[done] == &b.key_spec());
                    }
                    if exists|j: int|
                        0 <= j < done + 1 && #[trigger] keys[j] == &b.key_spec()
                            && table.contains_key(b.key_spec())
                            && table[b.key_spec()].state.is_down() {
                        let j = choose|j: int|
                            0 <= j < done + 1 && #[trigger] keys[j] == &b.key_spec()
                                && table.contains_key(b.key_spec())
                                && table[b.key_spec()].state.is_down();
                        if j < done {
                            assert(before.contains(b));
                            let at = choose|at: int| 0 <= at < before.len() && before[at] == b;
                            assert(buttons@[at] == b);
                        } else {
                            assert(b == held.button);
                            assert(buttons@[before.len() as int] == b);
                        }
                    }
                }
                done = done + 1;
            }
        }
        proof {
            assert(done == keys.len());
            assert forall|b: Button| buttons@.contains(b) <==> self.is_active(b) by {
                if self.is_active(b) {
                    assert(keys.unref().to_set().contains(b.key_spec()));
                    let j = choose|j: int|
                        0 <= j < keys.unref().len() && keys.unref()[j] == b.key_spec();
                    assert(keys[j] == &b.key_spec());
                }
            }
        }
        buttons
    }
}

/// Whatever the state before, a control is down after an event exactly when
/// the event was a press.
pub proof fn lemma_down_after_event(state: ButtonState, pressed: bool)
    ensures
        state.step(pressed).is_down() == pressed,
{
}

/// The set of controls that are down follows the events. After an event of
/// one control, that control is down exactly when the event was a press, and
/// every other control is down exactly when it was before.
pub proof fn lemma_active_after_event(
    before: ControlsState,
    after: ControlsState,
    button: Button,
    pressed: bool,
)
    requires
        after@ == before@.insert(button, before.state_of(button).step(pressed)),
    ensures
        after.is_active(button) == pressed,
        forall|other: Button| other != button ==> after.is_active(other) == before.is_active(other),
{
}

/// After any events of any controls, in any order, a control is down exactly
/// when its own last event was a press; a control without an event among them
/// is down exactly when it was before.
pub proof fn lemma_active_after_events(
    start: Map<Button, ButtonState>,
    events: Seq<(Button, bool)>,
    button: Button,
)
    ensures
        state_in(after_events(start, events), button).is_down() == match last_event_of(
            events,
            button,
        ) {
            Some(pressed) => pressed,
            None => state_in(start, button).is_down(),
        },
    decreases events.len(),
{
    if events.len() > 0 {
        lemma_active_after_events(start, events.drop_last(), button);
    }
}

/// A control without any event yet is `Open(0)`.
pub proof fn lemma_default_state(controls: ControlsState, button: Button)
    requires
        !controls@.dom().contains(button),
    ensures
        controls.state_of(button) == ButtonState::Open(0),
        !controls.is_active(button),
{
}

/// The transition table covers every state and both events, entry by entry.
/// The two entries that count one further do so where the count has room.
pub proof fn lemma_transition_table(n: u32)
    ensures
        ButtonState::Pressed(n).step(true) == ButtonState::Held(1),
        ButtonState::Pressed(n).step(false) == ButtonState::Released(0),
        ButtonState::Held(n).step(true) is Held,
        n < u32::MAX ==> ButtonState::Held(n).step(true).count() == n + 1,
        ButtonState::Held(n).step(false) == ButtonState::Released(n),
        ButtonState::Open(n).step(true) == ButtonState::Pressed(n),
        ButtonState::Open(n).step(false) is Open,
        n < u32::MAX ==> ButtonState::Open(n).step(false).count() == n + 1,
        ButtonState::Released(n).step(true) == ButtonState::Pressed(0),
        ButtonState::Released(n).step(false) == ButtonState::Open(1),
{
}

} // verus!
