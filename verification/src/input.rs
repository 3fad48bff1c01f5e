//! Input state: which keys and mouse buttons are held, what they were
//! before the last input, the pointer position, and actions bound to keys.
use vstd::prelude::*;

use crate::text::str_equal;

verus! {

/// Number of keyboard keys tracked.
pub const KEY_COUNT: usize = 59;

/// Number of mouse buttons tracked.
pub const BUTTON_COUNT: usize = 3;

/// A keyboard key.
#[derive(Clone, Copy, Debug, PartialEq, Eq, Hash, Structural)]
pub enum Key {
    A,
    B,
    C,
    D,
    E,
    F,
    G,
    H,
    I,
    J,
    K,
    L,
    M,
    N,
    O,
    P,
    Q,
    R,
    S,
    T,
    U,
    V,
    W,
    X,
    Y,
    Z,
    Number0,
    Number1,
    Number2,
    Number3,
    Number4,
    Number5,
    Number6,
    Number7,
    Number8,
    Number9,
    Spacebar,
    Return,
    LShift,
    RShift,
    LControl,
    RControl,
    Escape,
    UpArrow,
    DownArrow,
    LeftArrow,
    RightArrow,
    F1,
    F2,
    F3,
    F4,
    F5,
    F6,
    F7,
    F8,
    F9,
    F10,
    F11,
    F12,
}

impl Key {
    /// The key's name, as key bindings spell it.
    pub open spec fn spec_name(self) -> Seq<char> {
        match self {
            Key::A => "A"@,
            Key::B => "B"@,
            Key::C => "C"@,
            Key::D => "D"@,
            Key::E => "E"@,
            Key::F => "F"@,
            Key::G => "G"@,
            Key::H => "H"@,
            Key::I => "I"@,
            Key::J => "J"@,
            Key::K => "K"@,
            Key::L => "L"@,
            Key::M => "M"@,
            Key::N => "N"@,
            Key::O => "O"@,
            Key::P => "P"@,
            Key::Q => "Q"@,
            Key::R => "R"@,
            Key::S => "S"@,
            Key::T => "T"@,
            Key::U => "U"@,
            Key::V => "V"@,
            Key::W => "W"@,
            Key::X => "X"@,
            Key::Y => "Y"@,
            Key::Z => "Z"@,
            Key::Number0 => "Number0"@,
            Key::Number1 => "Number1"@,
            Key::Number2 => "Number2"@,
            Key::Number3 => "Number3"@,
            Key::Number4 => "Number4"@,
            Key::Number5 => "Number5"@,
            Key::Number6 => "Number6"@,
            Key::Number7 => "Number7"@,
            Key::Number8 => "Number8"@,
            Key::Number9 => "Number9"@,
            Key::Spacebar => "Spacebar"@,
            Key::Return => "Return"@,
            Key::LShift => "LShift"@,
            Key::RShift => "RShift"@,
            Key::LControl => "LControl"@,
            Key::RControl => "RControl"@,
            Key::Escape => "Escape"@,
            Key::UpArrow => "UpArrow"@,
            Key::DownArrow => "DownArrow"@,
            Key::LeftArrow => "LeftArrow"@,
            Key::RightArrow => "RightArrow"@,
            Key::F1 => "F1"@,
            Key::F2 => "F2"@,
            Key::F3 => "F3"@,
            Key::F4 => "F4"@,
            Key::F5 => "F5"@,
            Key::F6 => "F6"@,
            Key::F7 => "F7"@,
            Key::F8 => "F8"@,
            Key::F9 => "F9"@,
            Key::F10 => "F10"@,
            Key::F11 => "F11"@,
            Key::F12 => "F12"@,
        }
    }

    /// The key named `name`, as key bindings spell it, if any.
    pub fn from_name(name: &str) -> (r: Option<Key>)
        ensures
            match r {
                Some(k) => k.spec_name() == name@,
                None => forall|k: Key| #[trigger] k.spec_name() != name@,
            },
    {
        if str_equal(name, "A") {
            Some(Key::A)
        } else if str_equal(name, "B") {
            Some(Key::B)
        } else if str_equal(name, "C") {
            Some(Key::C)
        } else if str_equal(name, "D") {
            Some(Key::D)
        } else if str_equal(name, "E") {
            Some(Key::E)
        } else if str_equal(name, "F") {
            Some(Key::F)
        } else if str_equal(name, "G") {
            Some(Key::G)
        } else if str_equal(name, "H") {
            Some(Key::H)
        } else if str_equal(name, "I") {
            Some(Key::I)
        } else if str_equal(name, "J") {
            Some(Key::J)
        } else if str_equal(name, "K") {
            Some(Key::K)
        } else if str_equal(name, "L") {
            Some(Key::L)
        } else if str_equal(name, "M") {
            Some(Key::M)
        } else if str_equal(name, "N") {
            Some(Key::N)
        } else if str_equal(name, "O") {
            Some(Key::O)
        } else if str_equal(name, "P") {
            Some(Key::P)
        } else if str_equal(name, "Q") {
            Some(Key::Q)
        } else if str_equal(name, "R") {
            Some(Key::R)
        } else if str_equal(name, "S") {
            Some(Key::S)
        } else if str_equal(name, "T") {
            Some(Key::T)
        } else if str_equal(name, "U") {
            Some(Key::U)
        } else if str_equal(name, "V") {
            Some(Key::V)
        } else if str_equal(name, "W") {
            Some(Key::W)
        } else if str_equal(name, "X") {
            Some(Key::X)
        } else if str_equal(name, "Y") {
            Some(Key::Y)
        } else if str_equal(name, "Z") {
            Some(Key::Z)
        } else if str_equal(name, "Number0") {
            Some(Key::Number0)
        } else if str_equal(name, "Number1") {
            Some(Key::Number1)
        } else if str_equal(name, "Number2") {
            Some(Key::Number2)
        } else if str_equal(name, "Number3") {
            Some(Key::Number3)
        } else if str_equal(name, "Number4") {
            Some(Key::Number4)
        } else if str_equal(name, "Number5") {
            Some(Key::Number5)
        } else if str_equal(name, "Number6") {
            Some(Key::Number6)
        } else if str_equal(name, "Number7") {
            Some(Key::Number7)
        } else if str_equal(name, "Number8") {
            Some(Key::Number8)
        } else if str_equal(name, "Number9") {
            Some(Key::Number9)
        } else if str_equal(name, "Spacebar") {
            Some(Key::Spacebar)
        } else if str_equal(name, "Return") {
            Some(Key::Return)
        } else if str_equal(name, "LShift") {
            Some(Key::LShift)
        } else if str_equal(name, "RShift") {
            Some(Key::RShift)
        } else if str_equal(name, "LControl") {
            Some(Key::LControl)
        } else if str_equal(name, "RControl") {
            Some(Key::RControl)
        } else if str_equal(name, "Escape") {
            Some(Key::Escape)
        } else if str_equal(name, "UpArrow") {
            Some(Key::UpArrow)
        } else if str_equal(name, "DownArrow") {
            Some(Key::DownArrow)
        } else if str_equal(name, "LeftArrow") {
            Some(Key::LeftArrow)
        } else if str_equal(name, "RightArrow") {
            Some(Key::RightArrow)
        } else if str_equal(name, "F1") {
            Some(Key::F1)
        } else if str_equal(name, "F2") {
            Some(Key::F2)
        } else if str_equal(name, "F3") {
            Some(Key::F3)
        } else if str_equal(name, "F4") {
            Some(Key::F4)
        } else if str_equal(name, "F5") {
            Some(Key::F5)
        } else if str_equal(name, "F6") {
            Some(Key::F6)
        } else if str_equal(name, "F7") {
            Some(Key::F7)
        } else if str_equal(name, "F8") {
            Some(Key::F8)
        } else if str_equal(name, "F9") {
            Some(Key::F9)
        } else if str_equal(name, "F10") {
            Some(Key::F10)
        } else if str_equal(name, "F11") {
            Some(Key::F11)
        } else if str_equal(name, "F12") {
            Some(Key::F12)
        } else {
            None
        }
    }

    /// The position of the key in the key list.
    pub open spec fn spec_index(self) -> nat {
        match self {
            Key::A => 0,
            Key::B => 1,
            Key::C => 2,
            Key::D => 3,
            Key::E => 4,
            Key::F => 5,
            Key::G => 6,
            Key::H => 7,
            Key::I => 8,
            Key::J => 9,
            Key::K => 10,
            Key::L => 11,
            Key::M => 12,
            Key::N => 13,
            Key::O => 14,
            Key::P => 15,
            Key::Q => 16,
            Key::R => 17,
            Key::S => 18,
            Key::T => 19,
            Key::U => 20,
            Key::V => 21,
            Key::W => 22,
            Key::X => 23,
            Key::Y => 24,
            Key::Z => 25,
            Key::Number0 => 26,
            Key::Number1 => 27,
            Key::Number2 => 28,
            Key::Number3 => 29,
            Key::Number4 => 30,
            Key::Number5 => 31,
            Key::Number6 => 32,
            Key::Number7 => 33,
            Key::Number8 => 34,
            Key::Number9 => 35,
            Key::Spacebar => 36,
            Key::Return => 37,
            Key::LShift => 38,
            Key::RShift => 39,
            Key::LControl => 40,
            Key::RControl => 41,
            Key::Escape => 42,
            Key::UpArrow => 43,
            Key::DownArrow => 44,
            Key::LeftArrow => 45,
            Key::RightArrow => 46,
            Key::F1 => 47,
            Key::F2 => 48,
            Key::F3 => 49,
            Key::F4 => 50,
            Key::F5 => 51,
            Key::F6 => 52,
            Key::F7 => 53,
            Key::F8 => 54,
            Key::F9 => 55,
            Key::F10 => 56,
            Key::F11 => 57,
            Key::F12 => 58,
        }
    }

    /// The position of the key in the key list.
    pub fn index(self) -> (i: usize)
        ensures
            i == self.spec_index(),
            i < KEY_COUNT,
    {
        match self {
            Key::A => 0,
            Key::B => 1,
            Key::C => 2,
            Key::D => 3,
            Key::E => 4,
            Key::F => 5,
            Key::G => 6,
            Key::H => 7,
            Key::I => 8,
            Key::J => 9,
            Key::K => 10,
            Key::L => 11,
            Key::M => 12,
            Key::N => 13,
            Key::O => 14,
            Key::P => 15,
            Key::Q => 16,
            Key::R => 17,
            Key::S => 18,
            Key::T => 19,
            Key::U => 20,
            Key::V => 21,
            Key::W => 22,
            Key::X => 23,
            Key::Y => 24,
            Key::Z => 25,
            Key::Number0 => 26,
            Key::Number1 => 27,
            Key::Number2 => 28,
            Key::Number3 => 29,
            Key::Number4 => 30,
            Key::Number5 => 31,
            Key::Number6 => 32,
            Key::Number7 => 33,
            Key::Number8 => 34,
            Key::Number9 => 35,
            Key::Spacebar => 36,
            Key::Return => 37,
            Key::LShift => 38,
            Key::RShift => 39,
            Key::LControl => 40,
            Key::RControl => 41,
            Key::Escape => 42,
            Key::UpArrow => 43,
            Key::DownArrow => 44,
            Key::LeftArrow => 45,
            Key::RightArrow => 46,
            Key::F1 => 47,
            Key::F2 => 48,
            Key::F3 => 49,
            Key::F4 => 50,
            Key::F5 => 51,
            Key::F6 => 52,
            Key::F7 => 53,
            Key::F8 => 54,
            Key::F9 => 55,
            Key::F10 => 56,
            Key::F11 => 57,
            Key::F12 => 58,
        }
    }
}

/// A mouse button.
#[derive(Clone, Copy, Debug, PartialEq, Eq, Hash, Structural)]
pub enum Button {
    Left,
    Right,
    Middle,
}

impl Button {
    /// The position of the button in the button list.
    pub open spec fn spec_index(self) -> nat {
        match self {
            Button::Left => 0,
            Button::Right => 1,
            Button::Middle => 2,
        }
    }

    /// The position of the button in the button list.
    pub fn index(self) -> (i: usize)
        ensures
            i == self.spec_index(),
            i < BUTTON_COUNT,
    {
        match self {
            Button::Left => 0,
            Button::Right => 1,
            Button::Middle => 2,
        }
    }
}

/// A named action that a key can be bound to.
#[derive(Clone, Debug)]
pub struct Action(String);

impl Action {
    /// The action's name.
    pub closed spec fn name(&self) -> Seq<char> {
        self.0@
    }

    /// The action named `name`.
    pub fn new(name: &str) -> (a: Action)
        ensures
            a.name() == name@,
    {
        Action(name.to_owned())
    }

    /// The action's name.
    pub fn as_str(&self) -> (s: &str)
        ensures
            s@ == self.name(),
    {
        self.0.as_str()
    }
}

/// The bindings of keys to actions.
pub struct Keymap {
    keymap: Vec<(Key, Action)>,
}

/// The key of each action after binding `bindings` in order: an action bound
/// to several keys keeps the last.
pub open spec fn reversed(bindings: Seq<(Key, Action)>) -> Map<Seq<char>, Key>
    decreases bindings.len(),
{
    if bindings.len() == 0 {
        Map::empty()
    } else {
        reversed(bindings.drop_last()).insert(bindings.last().1.name(), bindings.last().0)
    }
}

/// The bound action name of an input, if it names an action.
pub open spec fn action_name<P>(input: Input<P>) -> Option<Seq<char>> {
    match input {
        Input::ActionDown(a) => Some(a@),
        Input::ActionUp(a) => Some(a@),
        _ => None,
    }
}

impl Keymap {
    /// The bindings, in order.
    pub closed spec fn bindings(&self) -> Seq<(Key, Action)> {
        self.keymap@
    }

    /// The key of each bound action.
    pub open spec fn reversed_keymap(&self) -> Map<Seq<char>, Key> {
        reversed(self.bindings())
    }

    /// A keymap with the bindings `bindings`, in order.
    pub fn from_bindings(bindings: Vec<(Key, Action)>) -> (k: Keymap)
        ensures
            k.bindings() == bindings@,
    {
        Keymap { keymap: bindings }
    }

    /// The key bound to action `action`, if any; where several keys are bound
    /// to it, the last binding.
    pub fn key_of(&self, action: &str) -> (r: Option<Key>)
        ensures
            match r {
                Some(k) => self.reversed_keymap().contains_key(action@) && self.reversed_keymap()[action@] == k,
                None => !self.reversed_keymap().contains_key(action@),
            },
    {
        let ghost b = self.keymap@;
        let mut i: usize = self.keymap.len();
        assert(b.take(i as int) =~= b);
        while i > 0
            invariant
                i <= b.len(),
                b == self.keymap@,
                reversed(b).contains_key(action@) == reversed(b.take(i as int)).contains_key(action@),
                reversed(b).contains_key(action@) ==> reversed(b)[action@] == reversed(b.take(i as int))[action@],
            decreases i,
        {
            let ghost t = b.take(i as int);
            assert(t.drop_last() =~= b.take(i - 1));
            if str_equal(self.keymap[i - 1].1.as_str(), action) {
                return Some(self.keymap[i - 1].0);
            }
            i = i - 1;
        }
        None
    }
}

impl Default for Keymap {
    fn default() -> (k: Self)
        ensures
            k.bindings() == Seq::<(Key, Action)>::empty(),
    {
        Keymap { keymap: Vec::new() }
    }
}

/// One input event.
pub enum Input<P> {
    ActionDown(String),
    ActionUp(String),
    KeyDown(Key),
    KeyUp(Key),
    MouseMotion(P),
    MouseButtonDown(Button),
    MouseButtonUp(Button),
}

/// Which keys and buttons are held now and were held before the last input,
/// where the pointer is, and whether the last input moved it.
pub struct InputState<P> {
    key_state: Vec<bool>,
    previous_key_state: Vec<bool>,
    mouse_button_state: Vec<bool>,
    previous_mouse_button_state: Vec<bool>,
    last_mouse_position: P,
    mouse_moved: bool,
    keymap: Keymap,
}

/// Whether an input is about a bound action (or not about an action).
pub open spec fn action_bound<P>(keymap: Keymap, input: Input<P>) -> bool {
    action_name(input) matches Some(n) ==> keymap.reversed_keymap().contains_key(n)
}

impl<P: Copy> InputState<P> {
    /// Held keys, by key index.
    pub closed spec fn keys(&self) -> Seq<bool> {
        self.key_state@
    }

    /// Keys held before the last input.
    pub closed spec fn previous_keys(&self) -> Seq<bool> {
        self.previous_key_state@
    }

    /// Held buttons, by button index.
    pub closed spec fn buttons(&self) -> Seq<bool> {
        self.mouse_button_state@
    }

    /// Buttons held before the last input.
    pub closed spec fn previous_buttons(&self) -> Seq<bool> {
        self.previous_mouse_button_state@
    }

    /// The last pointer position.
    pub closed spec fn position(&self) -> P {
        self.last_mouse_position
    }

    /// Whether the last input moved the pointer.
    pub closed spec fn moved(&self) -> bool {
        self.mouse_moved
    }

    /// The keymap.
    pub closed spec fn spec_keymap(&self) -> Keymap {
        self.keymap
    }

    /// The state tables have their sizes.
    pub open spec fn wf(&self) -> bool {
        &&& self.keys().len() == KEY_COUNT
        &&& self.previous_keys().len() == KEY_COUNT
        &&& self.buttons().len() == BUTTON_COUNT
        &&& self.previous_buttons().len() == BUTTON_COUNT
    }

    /// Whether `input` describes the state now (`keys`, `buttons`).
    pub open spec fn holds_in(&self, input: Input<P>, keys: Seq<bool>, buttons: Seq<bool>) -> bool {
        match input {
            Input::KeyDown(k) => keys[k.spec_index() as int],
            Input::KeyUp(k) => !keys[k.spec_index() as int],
            Input::MouseButtonDown(b) => buttons[b.spec_index() as int],
            Input::MouseButtonUp(b) => !buttons[b.spec_index() as int],
            Input::MouseMotion(_) => self.moved(),
            Input::ActionDown(a) => keys[self.spec_keymap().reversed_keymap()[a@].spec_index() as int],
            Input::ActionUp(a) => !keys[self.spec_keymap().reversed_keymap()[a@].spec_index() as int],
        }
    }

    /// A state with nothing held, the pointer at `origin` and keymap `keymap`.
    pub fn new(keymap: Keymap, origin: P) -> (s: Self)
        ensures
            s.wf(),
            s.keys() == Seq::new(KEY_COUNT as nat, |i: int| false),
            s.previous_keys() == Seq::new(KEY_COUNT as nat, |i: int| false),
            s.buttons() == Seq::new(BUTTON_COUNT as nat, |i: int| false),
            s.previous_buttons() == Seq::new(BUTTON_COUNT as nat, |i: int| false),
            s.position() == origin,
            !s.moved(),
            s.spec_keymap() == keymap,
    {
        let s = InputState {
            key_state: falses(KEY_COUNT),
            previous_key_state: falses(KEY_COUNT),
            mouse_button_state: falses(BUTTON_COUNT),
            previous_mouse_button_state: falses(BUTTON_COUNT),
            last_mouse_position: origin,
            mouse_moved: false,
            keymap,
        };
        s
    }

    fn key_of_action(&self, action: &String) -> (k: Key)
        requires
            self.spec_keymap().reversed_keymap().contains_key(action@),
        ensures
            k == self.spec_keymap().reversed_keymap()[action@],
    {
        self.keymap.key_of(action.as_str()).unwrap()
    }

    /// Whether `input` describes the current state: a key or button held
    /// (down) or not (up), an action's key held or not, or the pointer moved
    /// by the last input.
    pub fn is(&self, input: Input<P>) -> (b: bool)
        requires
            self.wf(),
            action_bound(self.spec_keymap(), input),
        ensures
            b == self.holds_in(input, self.keys(), self.buttons()),
    {
        match input {
            Input::KeyDown(key) => self.key_state[key.index()],
            Input::KeyUp(key) => !self.key_state[key.index()],
            Input::MouseButtonDown(button) => self.mouse_button_state[button.index()],
            Input::MouseButtonUp(button) => !self.mouse_button_state[button.index()],
            Input::MouseMotion(_) => self.mouse_moved,
            Input::ActionDown(action) => self.key_state[self.key_of_action(&action).index()],
            Input::ActionUp(action) => !self.key_state[self.key_of_action(&action).index()],
        }
    }

    /// Whether `input` described the state before the last input.
    pub fn was(&self, input: Input<P>) -> (b: bool)
        requires
            self.wf(),
            action_bound(self.spec_keymap(), input),
            !(input is MouseMotion),
        ensures
            b == self.holds_in(input, self.previous_keys(), self.previous_buttons()),
    {
        match input {
            Input::KeyDown(key) => self.previous_key_state[key.index()],
            Input::KeyUp(key) => !self.previous_key_state[key.index()],
            Input::MouseButtonDown(button) => self.previous_mouse_button_state[button.index()],
            Input::MouseButtonUp(button) => !self.previous_mouse_button_state[button.index()],
            Input::MouseMotion(_) => false,
            Input::ActionDown(action) => self.previous_key_state[self.key_of_action(&action).index()],
            Input::ActionUp(action) => !self.previous_key_state[self.key_of_action(&action).index()],
        }
    }

    /// Applies one input: the current state becomes the previous one, then a
    /// key or button goes down or up, or the pointer moves.
    pub fn handle_input(&mut self, input: Input<P>)
        requires
            old(self).wf(),
        ensures
            final(self).wf(),
            final(self).previous_keys() == old(self).keys(),
            final(self).previous_buttons() == old(self).buttons(),
            final(self).spec_keymap() == old(self).spec_keymap(),
            final(self).keys() == match input {
                Input::KeyDown(k) => old(self).keys().update(k.spec_index() as int, true),
                Input::KeyUp(k) => old(self).keys().update(k.spec_index() as int, false),
                _ => old(self).keys(),
            },
            final(self).buttons() == match input {
                Input::MouseButtonDown(b) => old(self).buttons().update(b.spec_index() as int, true),
                Input::MouseButtonUp(b) => old(self).buttons().update(b.spec_index() as int, false),
                _ => old(self).buttons(),
            },
            final(self).moved() == (input is MouseMotion),
            final(self).position() == match input {
                Input::MouseMotion(p) => p,
                _ => old(self).position(),
            },
    {
        self.mouse_moved = false;
        self.previous_key_state = copy_flags(&self.key_state);
        self.previous_mouse_button_state = copy_flags(&self.mouse_button_state);
        match input {
            Input::KeyDown(key) => self.key_state.set(key.index(), true),
            Input::KeyUp(key) => self.key_state.set(key.index(), false),
            Input::MouseButtonDown(button) => self.mouse_button_state.set(button.index(), true),
            Input::MouseButtonUp(button) => self.mouse_button_state.set(button.index(), false),
            Input::MouseMotion(new_position) => {
                self.last_mouse_position = new_position;
                self.mouse_moved = true;
            },
            _ => {},
        }
    }

    /// The last pointer position.
    pub fn mouse_position(&self) -> (p: P)
        ensures
            p == self.position(),
    {
        self.last_mouse_position
    }
}

/// After a key goes down, the key is held; after it goes up, it is not.
pub proof fn law_key_press_is_held<P: Copy>(a: InputState<P>, b: InputState<P>, key: Key, down: bool)
    requires
        a.wf(),
        b.keys() == a.keys().update(key.spec_index() as int, down),
    ensures
        b.holds_in(Input::KeyDown(key), b.keys(), b.buttons()) == down,
        b.holds_in(Input::KeyUp(key), b.keys(), b.buttons()) == !down,
{
}

/// After an input is handled, `was` reports of any key, button or action what
/// `is` reported of it before the input.
pub proof fn law_was_reports_previous_is<P: Copy>(
    a: InputState<P>,
    b: InputState<P>,
    query: Input<P>,
)
    requires
        b.previous_keys() == a.keys(),
        b.previous_buttons() == a.buttons(),
        b.spec_keymap() == a.spec_keymap(),
        !(query is MouseMotion),
    ensures
        b.holds_in(query, b.previous_keys(), b.previous_buttons()) == a.holds_in(
            query,
            a.keys(),
            a.buttons(),
        ),
{
}

fn falses(n: usize) -> (v: Vec<bool>)
    ensures
        v@ == Seq::new(n as nat, |i: int| false),
{
    let mut v: Vec<bool> = Vec::new();
    while v.len() < n
        invariant
            v@.len() <= n,
            forall|i: int| 0 <= i < v@.len() ==> !v@[i],
        decreases n - v@.len(),
    {
        v.push(false);
    }
    assert(v@ =~= Seq::new(n as nat, |i: int| false));
    v
}

fn copy_flags(src: &Vec<bool>) -> (v: Vec<bool>)
    ensures
        v@ == src@,
{
    let mut v: Vec<bool> = Vec::new();
    let mut i: usize = 0;
    while i < src.len()
        invariant
            i <= src@.len(),
            v@ == src@.take(i as int),
        decreases src@.len() - i,
    {
        v.push(src[i]);
        assert(v@ =~= src@.take(i + 1));
        i = i + 1;
    }
    assert(src@.take(src@.len() as int) =~= src@);
    v
}


/// A name's length with its first and last characters.
spec fn name_code(name: Seq<char>) -> (int, char, char) {
    (name.len() as int, name[0], name.last())
}

/// The key whose name has code `code`.
spec fn key_of_code(code: (int, char, char)) -> Key {
    if code == (1int, 'A', 'A') {
        Key::A
    } else if code == (1int, 'B', 'B') {
        Key::B
    } else if code == (1int, 'C', 'C') {
        Key::C
    } else if code == (1int, 'D', 'D') {
        Key::D
    } else if code == (1int, 'E', 'E') {
        Key::E
    } else if code == (1int, 'F', 'F') {
        Key::F
    } else if code == (1int, 'G', 'G') {
        Key::G
    } else if code == (1int, 'H', 'H') {
        Key::H
    } else if code == (1int, 'I', 'I') {
        Key::I
    } else if code == (1int, 'J', 'J') {
        Key::J
    } else if code == (1int, 'K', 'K') {
        Key::K
    } else if code == (1int, 'L', 'L') {
        Key::L
    } else if code == (1int, 'M', 'M') {
        Key::M
    } else if code == (1int, 'N', 'N') {
        Key::N
    } else if code == (1int, 'O', 'O') {
        Key::O
    } else if code == (1int, 'P', 'P') {
        Key::P
    } else if code == (1int, 'Q', 'Q') {
        Key::Q
    } else if code == (1int, 'R', 'R') {
        Key::R
    } else if code == (1int, 'S', 'S') {
        Key::S
    } else if code == (1int, 'T', 'T') {
        Key::T
    } else if code == (1int, 'U', 'U') {
        Key::U
    } else if code == (1int, 'V', 'V') {
        Key::V
    } else if code == (1int, 'W', 'W') {
        Key::W
    } else if code == (1int, 'X', 'X') {
        Key::X
    } else if code == (1int, 'Y', 'Y') {
        Key::Y
    } else if code == (1int, 'Z', 'Z') {
        Key::Z
    } else if code == (7int, 'N', '0') {
        Key::Number0
    } else if code == (7int, 'N', '1') {
        Key::Number1
    } else if code == (7int, 'N', '2') {
        Key::Number2
    } else if code == (7int, 'N', '3') {
        Key::Number3
    } else if code == (7int, 'N', '4') {
        Key::Number4
    } else if code == (7int, 'N', '5') {
        Key::Number5
    } else if code == (7int, 'N', '6') {
        Key::Number6
    } else if code == (7int, 'N', '7') {
        Key::Number7
    } else if code == (7int, 'N', '8') {
        Key::Number8
    } else if code == (7int, 'N', '9') {
        Key::Number9
    } else if code == (8int, 'S', 'r') {
        Key::Spacebar
    } else if code == (6int, 'R', 'n') {
        Key::Return
    } else if code == (6int, 'L', 't') {
        Key::LShift
    } else if code == (6int, 'R', 't') {
        Key::RShift
    } else if code == (8int, 'L', 'l') {
        Key::LControl
    } else if code == (8int, 'R', 'l') {
        Key::RControl
    } else if code == (6int, 'E', 'e') {
        Key::Escape
    } else if code == (7int, 'U', 'w') {
        Key::UpArrow
    } else if code == (9int, 'D', 'w') {
        Key::DownArrow
    } else if code == (9int, 'L', 'w') {
        Key::LeftArrow
    } else if code == (10int, 'R', 'w') {
        Key::RightArrow
    } else if code == (2int, 'F', '1') {
        Key::F1
    } else if code == (2int, 'F', '2') {
        Key::F2
    } else if code == (2int, 'F', '3') {
        Key::F3
    } else if code == (2int, 'F', '4') {
        Key::F4
    } else if code == (2int, 'F', '5') {
        Key::F5
    } else if code == (2int, 'F', '6') {
        Key::F6
    } else if code == (2int, 'F', '7') {
        Key::F7
    } else if code == (2int, 'F', '8') {
        Key::F8
    } else if code == (2int, 'F', '9') {
        Key::F9
    } else if code == (3int, 'F', '0') {
        Key::F10
    } else if code == (3int, 'F', '1') {
        Key::F11
    } else if code == (3int, 'F', '2') {
        Key::F12
    } else {
        Key::A
    }
}

proof fn lemma_key_name_code(k: Key)
    ensures
        key_of_code(name_code(k.spec_name())) == k,
{
    match k {
        Key::A => {
            reveal_strlit("A");
        },
        Key::B => {
            reveal_strlit("B");
        },
        Key::C => {
            reveal_strlit("C");
        },
        Key::D => {
            reveal_strlit("D");
        },
        Key::E => {
            reveal_strlit("E");
        },
        Key::F => {
            reveal_strlit("F");
        },
        Key::G => {
            reveal_strlit("G");
        },
        Key::H => {
            reveal_strlit("H");
        },
        Key::I => {
            reveal_strlit("I");
        },
        Key::J => {
            reveal_strlit("J");
        },
        Key::K => {
            reveal_strlit("K");
        },
        Key::L => {
            reveal_strlit("L");
        },
        Key::M => {
            reveal_strlit("M");
        },
        Key::N => {
            reveal_strlit("N");
        },
        Key::O => {
            reveal_strlit("O");
        },
        Key::P => {
            reveal_strlit("P");
        },
        Key::Q => {
            reveal_strlit("Q");
        },
        Key::R => {
            reveal_strlit("R");
        },
        Key::S => {
            reveal_strlit("S");
        },
        Key::T => {
            reveal_strlit("T");
        },
        Key::U => {
            reveal_strlit("U");
        },
        Key::V => {
            reveal_strlit("V");
        },
        Key::W => {
            reveal_strlit("W");
        },
        Key::X => {
            reveal_strlit("X");
        },
        Key::Y => {
            reveal_strlit("Y");
        },
        Key::Z => {
            reveal_strlit("Z");
        },
        Key::Number0 => {
            reveal_strlit("Number0");
        },
        Key::Number1 => {
            reveal_strlit("Number1");
        },
        Key::Number2 => {
            reveal_strlit("Number2");
        },
        Key::Number3 => {
            reveal_strlit("Number3");
        },
        Key::Number4 => {
            reveal_strlit("Number4");
        },
        Key::Number5 => {
            reveal_strlit("Number5");
        },
        Key::Number6 => {
            reveal_strlit("Number6");
        },
        Key::Number7 => {
            reveal_strlit("Number7");
        },
        Key::Number8 => {
            reveal_strlit("Number8");
        },
        Key::Number9 => {
            reveal_strlit("Number9");
        },
        Key::Spacebar => {
            reveal_strlit("Spacebar");
        },
        Key::Return => {
            reveal_strlit("Return");
        },
        Key::LShift => {
            reveal_strlit("LShift");
        },
        Key::RShift => {
            reveal_strlit("RShift");
        },
        Key::LControl => {
            reveal_strlit("LControl");
        },
        Key::RControl => {
            reveal_strlit("RControl");
        },
        Key::Escape => {
            reveal_strlit("Escape");
        },
        Key::UpArrow => {
            reveal_strlit("UpArrow");
        },
        Key::DownArrow => {
            reveal_strlit("DownArrow");
        },
        Key::LeftArrow => {
            reveal_strlit("LeftArrow");
        },
        Key::RightArrow => {
            reveal_strlit("RightArrow");
        },
        Key::F1 => {
            reveal_strlit("F1");
        },
        Key::F2 => {
            reveal_strlit("F2");
        },
        Key::F3 => {
            reveal_strlit("F3");
        },
        Key::F4 => {
            reveal_strlit("F4");
        },
        Key::F5 => {
            reveal_strlit("F5");
        },
        Key::F6 => {
            reveal_strlit("F6");
        },
        Key::F7 => {
            reveal_strlit("F7");
        },
        Key::F8 => {
            reveal_strlit("F8");
        },
        Key::F9 => {
            reveal_strlit("F9");
        },
        Key::F10 => {
            reveal_strlit("F10");
        },
        Key::F11 => {
            reveal_strlit("F11");
        },
        Key::F12 => {
            reveal_strlit("F12");
        },
    }
}

proof fn lemma_key_names_differ(k1: Key, k2: Key)
    requires
        k1.spec_name() == k2.spec_name(),
    ensures
        k1 == k2,
{
    lemma_key_name_code(k1);
    lemma_key_name_code(k2);
}

/// Keys are named as their variants are spelled (the key `W` by "W", the
/// key `Number0` by "Number0"), and no two keys share a name: the key that
/// `from_name` gives for a key's spelling is that key.
pub proof fn law_key_names_are_variant_spellings()
    ensures
        Key::A.spec_name() == "A"@,
        Key::B.spec_name() == "B"@,
        Key::C.spec_name() == "C"@,
        Key::D.spec_name() == "D"@,
        Key::E.spec_name() == "E"@,
        Key::F.spec_name() == "F"@,
        Key::G.spec_name() == "G"@,
        Key::H.spec_name() == "H"@,
        Key::I.spec_name() == "I"@,
        Key::J.spec_name() == "J"@,
        Key::K.spec_name() == "K"@,
        Key::L.spec_name() == "L"@,
        Key::M.spec_name() == "M"@,
        Key::N.spec_name() == "N"@,
        Key::O.spec_name() == "O"@,
        Key::P.spec_name() == "P"@,
        Key::Q.spec_name() == "Q"@,
        Key::R.spec_name() == "R"@,
        Key::S.spec_name() == "S"@,
        Key::T.spec_name() == "T"@,
        Key::U.spec_name() == "U"@,
        Key::V.spec_name() == "V"@,
        Key::W.spec_name() == "W"@,
        Key::X.spec_name() == "X"@,
        Key::Y.spec_name() == "Y"@,
        Key::Z.spec_name() == "Z"@,
        Key::Number0.spec_name() == "Number0"@,
        Key::Number1.spec_name() == "Number1"@,
        Key::Number2.spec_name() == "Number2"@,
        Key::Number3.spec_name() == "Number3"@,
        Key::Number4.spec_name() == "Number4"@,
        Key::Number5.spec_name() == "Number5"@,
        Key::Number6.spec_name() == "Number6"@,
        Key::Number7.spec_name() == "Number7"@,
        Key::Number8.spec_name() == "Number8"@,
        Key::Number9.spec_name() == "Number9"@,
        Key::Spacebar.spec_name() == "Spacebar"@,
        Key::Return.spec_name() == "Return"@,
        Key::LShift.spec_name() == "LShift"@,
        Key::RShift.spec_name() == "RShift"@,
        Key::LControl.spec_name() == "LControl"@,
        Key::RControl.spec_name() == "RControl"@,
        Key::Escape.spec_name() == "Escape"@,
        Key::UpArrow.spec_name() == "UpArrow"@,
        Key::DownArrow.spec_name() == "DownArrow"@,
        Key::LeftArrow.spec_name() == "LeftArrow"@,
        Key::RightArrow.spec_name() == "RightArrow"@,
        Key::F1.spec_name() == "F1"@,
        Key::F2.spec_name() == "F2"@,
        Key::F3.spec_name() == "F3"@,
        Key::F4.spec_name() == "F4"@,
        Key::F5.spec_name() == "F5"@,
        Key::F6.spec_name() == "F6"@,
        Key::F7.spec_name() == "F7"@,
        Key::F8.spec_name() == "F8"@,
        Key::F9.spec_name() == "F9"@,
        Key::F10.spec_name() == "F10"@,
        Key::F11.spec_name() == "F11"@,
        Key::F12.spec_name() == "F12"@,
        forall|k1: Key, k2: Key| #[trigger] k1.spec_name() == #[trigger] k2.spec_name() ==> k1 == k2,
{
    assert forall|k1: Key, k2: Key| #[trigger] k1.spec_name() == #[trigger] k2.spec_name() implies k1 == k2 by {
        lemma_key_names_differ(k1, k2);
    }
}

} // verus!
