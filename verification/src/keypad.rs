//! The sixteen-key keypad. The machine only ever asks whether a logical
//! key, `0` to `F`, is down; the host fills a `Keypad` in from its own
//! keyboard, by the fixed table that `keymap` gives.

use vstd::prelude::*;

verus! {

/// Number of keys on the keypad.
pub const KEY_COUNT: usize = 16;

/// The keys of the host's keyboard that stand for the keypad.
#[derive(Clone, Copy, Debug, PartialEq, Eq, Structural)]
pub enum HostKey {
    X,
    Key1,
    Key2,
    Key3,
    Q,
    W,
    E,
    A,
    S,
    D,
    Z,
    C,
    Key4,
    R,
    F,
    V,
}

/// The host key of each logical key, in the order of the logical keys
/// `0` to `F`.
pub open spec fn keymap_spec() -> Seq<HostKey> {
    seq![
        HostKey::X,
        HostKey::Key1,
        HostKey::Key2,
        HostKey::Key3,
        HostKey::Q,
        HostKey::W,
        HostKey::E,
        HostKey::A,
        HostKey::S,
        HostKey::D,
        HostKey::Z,
        HostKey::C,
        HostKey::Key4,
        HostKey::R,
        HostKey::F,
        HostKey::V,
    ]
}

/// The table from logical keys to host keys: entry `k` is the host key
/// of logical key `k`.
pub fn keymap() -> (table: Vec<HostKey>)
    ensures
        table@ == keymap_spec(),
{
    let table = vec![
        HostKey::X,
        HostKey::Key1,
        HostKey::Key2,
        HostKey::Key3,
        HostKey::Q,
        HostKey::W,
        HostKey::E,
        HostKey::A,
        HostKey::S,
        HostKey::D,
        HostKey::Z,
        HostKey::C,
        HostKey::Key4,
        HostKey::R,
        HostKey::F,
        HostKey::V,
    ];
    assert(table@ =~= keymap_spec());
    table
}

/// Which of the sixteen logical keys are down.
pub struct Keypad {
    down: [bool; 16],
}

impl View for Keypad {
    type V = Seq<bool>;

    closed spec fn view(&self) -> Seq<bool> {
        self.down@
    }
}

impl Keypad {
    /// Every keypad has exactly sixteen keys.
    pub proof fn lemma_size(&self)
        ensures
            self@.len() == KEY_COUNT,
    {
    }

    /// A keypad with every key up.
    pub fn new() -> (keypad: Keypad)
        ensures
            keypad@ == Seq::new(KEY_COUNT as nat, |k: int| false),
    {
        let keypad = Keypad { down: [false; 16] };
        assert(keypad@ =~= Seq::new(KEY_COUNT as nat, |k: int| false));
        keypad
    }

    /// Records that logical key `key` is down or up.
    pub fn set(&mut self, key: u8, down: bool)
        requires
            key < KEY_COUNT,
        ensures
            final(self)@ == old(self)@.update(key as int, down),
    {
        self.down[key as usize] = down;
        assert(self@ =~= old(self)@.update(key as int, down));
    }

    /// Whether logical key `key` is down.
    pub fn is_down(&self, key: u8) -> (down: bool)
        requires
            key < KEY_COUNT,
        ensures
            down == self@[key as int],
    {
        self.down[key as usize]
    }
}

} // verus!
