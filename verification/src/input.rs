//! Keyboard and mouse state: what is pressed in the current frame, and for
//! how many frames in a row each key and button has been held.

use vstd::prelude::*;

verus! {

/// The keys the engine reacts to; `NA` stands for every other key.
#[derive(PartialEq, Eq, Hash, Clone, Copy, Debug, Structural)]
pub enum KeyCode {
    W,
    A,
    S,
    D,
    Up,
    Down,
    Left,
    Right,
    Space,
    NA,
}

/// The mouse buttons the engine reacts to; `NA` stands for every other
/// button.
#[derive(PartialEq, Eq, Hash, Clone, Copy, Debug, Structural)]
pub enum MouseInput {
    LeftMouse,
    RightMouse,
    MiddleMouse,
    NA,
}

impl KeyCode {
    /// The position of a key in the table of held keys.
    pub open spec fn slot(self) -> int {
        match self {
            KeyCode::W => 0,
            KeyCode::A => 1,
            KeyCode::S => 2,
            KeyCode::D => 3,
            KeyCode::Up => 4,
            KeyCode::Down => 5,
            KeyCode::Left => 6,
            KeyCode::Right => 7,
            KeyCode::Space => 8,
            KeyCode::NA => 9,
        }
    }

    fn table_slot(&self) -> (slot: usize)
        ensures
            slot == self.slot(),
        no_unwind
    {
        match self {
            KeyCode::W => 0,
            KeyCode::A => 1,
            KeyCode::S => 2,
            KeyCode::D => 3,
            KeyCode::Up => 4,
            KeyCode::Down => 5,
            KeyCode::Left => 6,
            KeyCode::Right => 7,
            KeyCode::Space => 8,
            KeyCode::NA => 9,
        }
    }
}

impl MouseInput {
    /// The position of a button in the table of held buttons.
    pub open spec fn slot(self) -> int {
        match self {
            MouseInput::LeftMouse => 0,
            MouseInput::RightMouse => 1,
            MouseInput::MiddleMouse => 2,
            MouseInput::NA => 3,
        }
    }

    fn table_slot(&self) -> (slot: usize)
        ensures
            slot == self.slot(),
        no_unwind
    {
        match self {
            MouseInput::LeftMouse => 0,
            MouseInput::RightMouse => 1,
            MouseInput::MiddleMouse => 2,
            MouseInput::NA => 3,
        }
    }
}

/// Whether `code` is a key the engine reacts to.
pub fn is_registered_input(code: &KeyCode) -> (registered: bool)
    ensures
        registered == (*code != KeyCode::NA),
{
    *code != KeyCode::NA
}

/// Whether `code` is a mouse button the engine reacts to.
pub fn is_registered_mouse_input(code: &MouseInput) -> (registered: bool)
    ensures
        registered == (*code != MouseInput::NA),
{
    *code != MouseInput::NA
}

/// The registered keys among `keys`, in their order.
pub open spec fn registered_keys(keys: Seq<KeyCode>) -> Seq<KeyCode>
    decreases keys.len(),
{
    if keys.len() == 0 {
        Seq::empty()
    } else if keys.last() != KeyCode::NA {
        registered_keys(keys.drop_last()).push(keys.last())
    } else {
        registered_keys(keys.drop_last())
    }
}

/// The registered buttons among `buttons`, in their order.
pub open spec fn registered_buttons(buttons: Seq<MouseInput>) -> Seq<MouseInput>
    decreases buttons.len(),
{
    if buttons.len() == 0 {
        Seq::empty()
    } else if buttons.last() != MouseInput::NA {
        registered_buttons(buttons.drop_last()).push(buttons.last())
    } else {
        registered_buttons(buttons.drop_last())
    }
}

/// How often `key` occurs in `keys`.
pub open spec fn key_occurrences(keys: Seq<KeyCode>, key: KeyCode) -> nat
    decreases keys.len(),
{
    if keys.len() == 0 {
        0
    } else {
        key_occurrences(keys.drop_last(), key) + if keys.last() == key {
            1nat
        } else {
            0nat
        }
    }
}

/// How often `button` occurs in `buttons`.
pub open spec fn button_occurrences(buttons: Seq<MouseInput>, button: MouseInput) -> nat
    decreases buttons.len(),
{
    if buttons.len() == 0 {
        0
    } else {
        button_occurrences(buttons.drop_last(), button) + if buttons.last() == button {
            1nat
        } else {
            0nat
        }
    }
}

/// A frame count raised by `frames`, held at the largest `i32`.
pub open spec fn raised(count: int, frames: nat) -> int {
    if count + frames > i32::MAX {
        i32::MAX as int
    } else {
        count + frames
    }
}

/// The mathematical state of an [`InputHandler`]: the keys and buttons
/// pressed in the current frame, and for every key and button the number of
/// frames it has been held.
pub struct InputModel {
    pub keyboard_pressed: Seq<KeyCode>,
    pub mouse_pressed: Seq<MouseInput>,
    pub held_keys: Map<KeyCode, int>,
    pub held_mouse_buttons: Map<MouseInput, int>,
}

impl InputModel {
    /// Nothing pressed, nothing held.
    pub open spec fn initial() -> InputModel {
        InputModel {
            keyboard_pressed: Seq::empty(),
            mouse_pressed: Seq::empty(),
            held_keys: Map::total(|key: KeyCode| 0int),
            held_mouse_buttons: Map::total(|button: MouseInput| 0int),
        }
    }

    /// The state after a frame in which `keys` and `buttons` were found
    /// pressed: the registered ones among them are the pressed ones, and each
    /// has its frame count raised once per occurrence.
    pub open spec fn updated(self, keys: Seq<KeyCode>, buttons: Seq<MouseInput>) -> InputModel {
        InputModel {
            keyboard_pressed: registered_keys(keys),
            mouse_pressed: registered_buttons(buttons),
            held_keys: Map::total(
                |key: KeyCode|
                    raised(self.held_keys[key], key_occurrences(registered_keys(keys), key)),
            ),
            held_mouse_buttons: Map::total(
                |button: MouseInput|
                    raised(
                        self.held_mouse_buttons[button],
                        button_occurrences(registered_buttons(buttons), button),
                    ),
            ),
        }
    }

    /// The state with the frame count of `key` back at 0.
    pub open spec fn key_cleared(self, key: KeyCode) -> InputModel {
        InputModel { held_keys: self.held_keys.insert(key, 0), ..self }
    }

    /// The state with the frame count of `button` back at 0.
    pub open spec fn button_cleared(self, button: MouseInput) -> InputModel {
        InputModel { held_mouse_buttons: self.held_mouse_buttons.insert(button, 0), ..self }
    }
}

/// Copies the registered keys out of `keys`.
fn keep_registered_keys(keys: &Vec<KeyCode>) -> (kept: Vec<KeyCode>)
    ensures
        kept@ == registered_keys(keys@),
{
    let mut kept: Vec<KeyCode> = Vec::new();
    let mut at: usize = 0;
    while at < keys.len()
        invariant
            at <= keys.len(),
            kept@ == registered_keys(keys@.take(at as int)),
        decreases keys.len() - at,
    {
        assert(keys@.take(at + 1).drop_last() =~= keys@.take(at as int));
        if is_registered_input(&keys[at]) {
            kept.push(keys[at]);
        }
        at += 1;
    }
    assert(keys@.take(at as int) =~= keys@);
    kept
}

/// Copies the registered buttons out of `buttons`.
fn keep_registered_buttons(buttons: &Vec<MouseInput>) -> (kept: Vec<MouseInput>)
    ensures
        kept@ == registered_buttons(buttons@),
{
    let mut kept: Vec<MouseInput> = Vec::new();
    let mut at: usize = 0;
    while at < buttons.len()
        invariant
            at <= buttons.len(),
            kept@ == registered_buttons(buttons@.take(at as int)),
        decreases buttons.len() - at,
    {
        assert(buttons@.take(at + 1).drop_last() =~= buttons@.take(at as int));
        if is_registered_mouse_input(&buttons[at]) {
            kept.push(buttons[at]);
        }
        at += 1;
    }
    assert(buttons@.take(at as int) =~= buttons@);
    kept
}

/// Raises the frame count of every key in `pressed`, once per occurrence.
fn raise_key_counts(table: &mut Vec<i32>, pressed: &Vec<KeyCode>)
    requires
        old(table)@.len() == 10,
    ensures
        final(table)@.len() == 10,
        forall|key: KeyCode| #[trigger]
            final(table)@[key.slot()] == raised(
                old(table)@[key.slot()] as int,
                key_occurrences(pressed@, key),
            ),
    no_unwind
{
    let mut at: usize = 0;
    while at < pressed.len()
        invariant
            at <= pressed.len(),
            table@.len() == 10,
            forall|key: KeyCode| #[trigger]
                table@[key.slot()] == raised(
                    old(table)@[key.slot()] as int,
                    key_occurrences(pressed@.take(at as int), key),
                ),
        decreases pressed.len() - at,
    {
        assert(pressed@.take(at + 1).drop_last() =~= pressed@.take(at as int));
        let slot: usize = pressed[at].table_slot();
        let count: i32 = table[slot];
        if count < i32::MAX {
            table[slot] = count + 1;
        }
        at += 1;
    }
    assert(pressed@.take(at as int) =~= pressed@);
}

/// Raises the frame count of every button in `pressed`, once per
/// occurrence.
fn raise_button_counts(table: &mut Vec<i32>, pressed: &Vec<MouseInput>)
    requires
        old(table)@.len() == 4,
    ensures
        final(table)@.len() == 4,
        forall|button: MouseInput| #[trigger]
            final(table)@[button.slot()] == raised(
                old(table)@[button.slot()] as int,
                button_occurrences(pressed@, button),
            ),
    no_unwind
{
    let mut at: usize = 0;
    while at < pressed.len()
        invariant
            at <= pressed.len(),
            table@.len() == 4,
            forall|button: MouseInput| #[trigger]
                table@[button.slot()] == raised(
                    old(table)@[button.slot()] as int,
                    button_occurrences(pressed@.take(at as int), button),
                ),
        decreases pressed.len() - at,
    {
        assert(pressed@.take(at + 1).drop_last() =~= pressed@.take(at as int));
        let slot: usize = pressed[at].table_slot();
        let count: i32 = table[slot];
        if count < i32::MAX {
            table[slot] = count + 1;
        }
        at += 1;
    }
    assert(pressed@.take(at as int) =~= pressed@);
}

/// Keeps the input state from frame to frame.
pub struct InputHandler {
    keyboard_pressed: Vec<KeyCode>,
    mouse_pressed: Vec<MouseInput>,
    held_mouse_buttons: Vec<i32>,
    held_keys: Vec<i32>,
}

impl View for InputHandler {
    type V = InputModel;

    closed spec fn view(&self) -> InputModel {
        InputModel {
            keyboard_pressed: self.keyboard_pressed@,
            mouse_pressed: self.mouse_pressed@,
            held_keys: Map::total(|key: KeyCode| self.held_keys@[key.slot()] as int),
            held_mouse_buttons: Map::total(
                |button: MouseInput| self.held_mouse_buttons@[button.slot()] as int,
            ),
        }
    }
}

impl InputHandler {
    #[verifier::type_invariant]
    closed spec fn inv(&self) -> bool {
        self.held_keys@.len() == 10 && self.held_mouse_buttons@.len() == 4
    }

    pub fn new() -> (handler: InputHandler)
        ensures
            handler@ == InputModel::initial(),
    {
        let handler = InputHandler {
            keyboard_pressed: Vec::new(),
            mouse_pressed: Vec::new(),
            held_mouse_buttons: vec![0, 0, 0, 0],
            held_keys: vec![0, 0, 0, 0, 0, 0, 0, 0, 0, 0],
        };
        assert(handler@.held_keys =~= InputModel::initial().held_keys);
        assert(handler@.held_mouse_buttons =~= InputModel::initial().held_mouse_buttons);
        handler
    }

    /// Takes in what the devices report for a new frame: `keys` and
    /// `buttons` are the keys and buttons found pressed. The registered ones
    /// among them become the pressed ones, and the frame count of each goes
    /// up by one per occurrence, up to the largest `i32`.
    pub fn update_input_state(&mut self, keys: &Vec<KeyCode>, buttons: &Vec<MouseInput>)
        ensures
            final(self)@ == old(self)@.updated(keys@, buttons@),
    {
        proof {
            use_type_invariant(&*self);
        }
        let pressed_keys = keep_registered_keys(keys);
        let pressed_buttons = keep_registered_buttons(buttons);
        raise_button_counts(&mut self.held_mouse_buttons, &pressed_buttons);
        raise_key_counts(&mut self.held_keys, &pressed_keys);
        self.keyboard_pressed = pressed_keys;
        self.mouse_pressed = pressed_buttons;
        assert(self@.held_keys =~= old(self)@.updated(keys@, buttons@).held_keys);
        assert(self@.held_mouse_buttons =~= old(self)@.updated(
            keys@,
            buttons@,
        ).held_mouse_buttons);
    }

    /// Sets the frame count of `button` back to 0.
    pub fn clear_mouse_input(&mut self, button: &MouseInput)
        ensures
            final(self)@ == old(self)@.button_cleared(*button),
    {
        proof {
            use_type_invariant(&*self);
        }
        self.held_mouse_buttons[button.table_slot()] = 0;
        assert(self@.held_mouse_buttons =~= old(self)@.button_cleared(*button).held_mouse_buttons);
    }

    /// Sets the frame count of `key` back to 0.
    pub fn clear_keyboard_input(&mut self, key: &KeyCode)
        ensures
            final(self)@ == old(self)@.key_cleared(*key),
    {
        proof {
            use_type_invariant(&*self);
        }
        self.held_keys[key.table_slot()] = 0;
        assert(self@.held_keys =~= old(self)@.key_cleared(*key).held_keys);
    }

    /// Whether `code` is pressed in the current frame.
    pub fn get_keycode_down(&self, code: &KeyCode) -> (down: bool)
        ensures
            down == self@.keyboard_pressed.contains(*code),
    {
        let mut at: usize = 0;
        while at < self.keyboard_pressed.len()
            invariant
                forall|j: int| 0 <= j < at ==> self.keyboard_pressed@[j] != *code,
            decreases self.keyboard_pressed.len() - at,
        {
            if self.keyboard_pressed[at] == *code {
                return true;
            }
            at += 1;
        }
        false
    }

    /// Whether `key` has been held for exactly one frame: it went down in
    /// the current frame.
    pub fn get_keycode(&self, key: &KeyCode) -> (pressed: bool)
        ensures
            pressed == (self@.held_keys[*key] == 1),
    {
        proof {
            use_type_invariant(self);
        }
        self.held_keys[key.table_slot()] == 1
    }

    /// Whether `button` has been held for exactly one frame: it went down in
    /// the current frame.
    pub fn get_mouse_button(&self, button: &MouseInput) -> (pressed: bool)
        ensures
            pressed == (self@.held_mouse_buttons[*button] == 1),
    {
        proof {
            use_type_invariant(self);
        }
        self.held_mouse_buttons[button.table_slot()] == 1
    }

    /// Whether `button` is pressed in the current frame.
    pub fn get_mouse_down(&self, button: &MouseInput) -> (down: bool)
        ensures
            down == self@.mouse_pressed.contains(*button),
    {
        let mut at: usize = 0;
        while at < self.mouse_pressed.len()
            invariant
                forall|j: int| 0 <= j < at ==> self.mouse_pressed@[j] != *button,
            decreases self.mouse_pressed.len() - at,
        {
            if self.mouse_pressed[at] == *button {
                return true;
            }
            at += 1;
        }
        false
    }
}

} // verus!
