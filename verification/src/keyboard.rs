//! The 16-key input device: one boolean flag per key `0x0`..=`0xF`,
//! mutated only by press/release and queried by the skip-on-key opcodes.

use vstd::prelude::*;

verus! {

/// All sixteen keys unpressed.
pub open spec fn blank_keys() -> Seq<bool> {
    Seq::new(16, |i: int| false)
}

pub struct Keyboard {
    keys: Vec<bool>,
}

impl View for Keyboard {
    type V = Seq<bool>;

    closed spec fn view(&self) -> Seq<bool> {
        self.keys@
    }
}

impl Keyboard {
    pub closed spec fn wf(&self) -> bool {
        self.keys@.len() == 16
    }

    pub fn new() -> (kb: Keyboard)
        ensures
            kb.wf(),
            kb@ == blank_keys(),
    {
        let kb = Keyboard { keys: vec![false; 16] };
        proof {
            assert(kb@ =~= blank_keys());
        }
        kb
    }

    /// Whether the key at `index` is currently pressed; the state is unchanged.
    pub fn pressed(&mut self, index: usize) -> (r: bool)
        requires
            old(self).wf(),
            index < 16,
        ensures
            *final(self) == *old(self),
            r == old(self)@[index as int],
    {
        self.keys[index]
    }

    /// Reset every key to unpressed.
    pub fn clear(&mut self)
        ensures
            final(self).wf(),
            final(self)@ == blank_keys(),
    {
        self.keys = vec![false; 16];
        proof {
            assert(self@ =~= blank_keys());
        }
    }

    pub fn key_press(&mut self, key: u8)
        requires
            old(self).wf(),
            key < 16,
        ensures
            final(self).wf(),
            final(self)@ == old(self)@.update(key as int, true),
    {
        self.set_key(key as usize, true)
    }

    pub fn key_release(&mut self, key: u8)
        requires
            old(self).wf(),
            key < 16,
        ensures
            final(self).wf(),
            final(self)@ == old(self)@.update(key as int, false),
    {
        self.set_key(key as usize, false)
    }

    fn set_key(&mut self, index: usize, state: bool)
        requires
            old(self).wf(),
            index < 16,
        ensures
            final(self).wf(),
            final(self)@ == old(self)@.update(index as int, state),
    {
        self.keys[index] = state;
    }
}

} // verus!
