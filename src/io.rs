use vstd::prelude::*;

verus! {

/// The key state shared between the capture side and the machine: the
/// locally pressed keys and the keys a remote client reported, bit `i`
/// for key `i`.
#[derive(Debug, PartialEq, Eq, Structural, Clone, Copy)]
pub struct InputState {
    pub quit: bool,
    pub keys: u16,
    pub client: u16,
}

impl Default for InputState {
    fn default() -> (r: InputState)
        ensures
            r == (InputState { quit: false, keys: 0, client: 0 }),
    {
        InputState { quit: false, keys: 0, client: 0 }
    }
}

impl InputState {
    /// The keys pressed locally or by the client.
    pub fn pressed(self) -> (r: u16)
        ensures
            r == self.keys | self.client,
    {
        self.keys | self.client
    }

    /// Records one capture event for key `key`: a press sets its bit, a
    /// release clears it (a press and a release together leave it clear).
    pub fn update_key(&mut self, key: u16, pressed: bool, released: bool)
        requires
            key < 16,
        ensures
            final(self).keys == ({
                let set = if pressed { old(self).keys | (1u16 << key) } else { old(self).keys };
                if released { set & !(1u16 << key) } else { set }
            }),
            final(self).client == old(self).client,
            final(self).quit == old(self).quit,
    {
        if pressed {
            self.keys = self.keys | (1u16 << key);
        }
        if released {
            self.keys = self.keys & !(1u16 << key);
        }
    }

    /// Replaces the keys reported by the client.
    pub fn set_client_keys(&mut self, other: u16)
        ensures
            *final(self) == (InputState { client: other, ..*old(self) }),
    {
        self.client = other;
    }
}

} // verus!
