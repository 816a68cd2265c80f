use vstd::prelude::*;

verus! {

/// The keys the game reacts to: W, A, S and D move the camera, R cycles the
/// block type to place.
#[derive(Clone, Copy, Debug, PartialEq, Eq, Hash, Structural)]
pub enum Key {
    W,
    A,
    S,
    D,
    R,
}

/// A mouse button, as far as block editing cares.
#[derive(Clone, Copy, Debug, PartialEq, Eq, Hash, Structural)]
pub enum Button {
    Primary,
    Secondary,
    Other,
}

/// The browser key code of a key.
pub open spec fn spec_key_code(k: Key) -> u32 {
    match k {
        Key::W => 87,
        Key::A => 65,
        Key::S => 83,
        Key::D => 68,
        Key::R => 82,
    }
}

/// The key whose browser key code is `code`, if any.
pub open spec fn spec_key_of(code: u32) -> Option<Key> {
    if code == 87 {
        Some(Key::W)
    } else if code == 65 {
        Some(Key::A)
    } else if code == 83 {
        Some(Key::S)
    } else if code == 68 {
        Some(Key::D)
    } else if code == 82 {
        Some(Key::R)
    } else {
        None
    }
}

/// The button that a browser mouse button number stands for: 0 is the
/// primary button, 2 the secondary one.
pub open spec fn spec_button_of(code: i16) -> Button {
    if code == 0 {
        Button::Primary
    } else if code == 2 {
        Button::Secondary
    } else {
        Button::Other
    }
}

impl Key {
    /// Every key, in declaration order.
    pub fn keys() -> (r: [Key; 5])
        ensures
            r@ == seq![Key::W, Key::A, Key::S, Key::D, Key::R],
    {
        let r = [Key::W, Key::A, Key::S, Key::D, Key::R];
        assert(r@ =~= seq![Key::W, Key::A, Key::S, Key::D, Key::R]);
        r
    }

    pub fn key_code(&self) -> (r: u32)
        ensures
            r == spec_key_code(*self),
    {
        match *self {
            Key::W => 87,
            Key::A => 65,
            Key::S => 83,
            Key::D => 68,
            Key::R => 82,
        }
    }

    /// The key whose code is `code`, if any.
    pub fn from_key_code(code: u32) -> (r: Option<Key>)
        ensures
            r == spec_key_of(code),
            r matches Some(k) ==> spec_key_code(k) == code,
            r is None ==> forall|k: Key| spec_key_code(k) != code,
    {
        let keys = Key::keys();
        let mut i: usize = 0;
        while i < 5
            invariant
                i <= 5,
                keys@ == seq![Key::W, Key::A, Key::S, Key::D, Key::R],
                forall|j: int| 0 <= j < i ==> spec_key_code(#[trigger] keys@[j]) != code,
            decreases 5 - i,
        {
            if keys[i].key_code() == code {
                return Some(keys[i]);
            }
            i += 1;
        }
        proof {
            assert forall|k: Key| spec_key_code(k) != code by {
                match k {
                    Key::W => assert(keys@[0] == k),
                    Key::A => assert(keys@[1] == k),
                    Key::S => assert(keys@[2] == k),
                    Key::D => assert(keys@[3] == k),
                    Key::R => assert(keys@[4] == k),
                }
            }
        }
        None
    }
}

impl Button {
    pub fn from_code(code: i16) -> (r: Button)
        ensures
            r == spec_button_of(code),
    {
        if code == 0 {
            Button::Primary
        } else if code == 2 {
            Button::Secondary
        } else {
            Button::Other
        }
    }
}

} // verus!
