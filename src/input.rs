use vstd::prelude::*;

verus! {

/// The held state of the sixteen keys 0x0..0xF.
#[derive(Debug)]
pub struct Chip8Input {
    pub keys_status: [bool; 16],
}

/// Whether any key is held.
pub open spec fn any_key_held(keys: Seq<bool>) -> bool {
    exists|k: int| 0 <= k < keys.len() && keys[k]
}

/// The lowest index of a held key, if any key is held.
pub open spec fn first_held_key(keys: Seq<bool>) -> Option<usize> {
    if any_key_held(keys) {
        Some(choose|k: usize| k < keys.len() && keys[k as int] && forall|j: int| 0 <= j < k ==> !keys[j])
    } else {
        None
    }
}

/// A key that is held, with no held key below it, is the first held key.
pub proof fn lemma_first_held_key(keys: Seq<bool>, k: usize)
    requires
        k < keys.len(),
        keys[k as int],
        forall|j: int| 0 <= j < k ==> !keys[j],
    ensures
        first_held_key(keys) == Some(k),
{
    let c = choose|c: usize| c < keys.len() && keys[c as int] && forall|j: int| 0 <= j < c ==> !keys[j];
    assert(keys[c as int]);
    if c < k {
        assert(!keys[c as int]);
    }
    if k < c {
        assert(!keys[k as int]);
    }
}

impl Chip8Input {
    /// No key held.
    pub fn new() -> (r: Chip8Input)
        ensures
            forall|k: int| 0 <= k < 16 ==> !r.keys_status[k],
    {
        Chip8Input { keys_status: [false; 16] }
    }

    pub fn get_keys_status(&self) -> (r: &[bool; 16])
        ensures
            *r == self.keys_status,
    {
        &self.keys_status
    }

    pub fn get_keys_status_mut(&mut self) -> (r: &mut [bool; 16])
        ensures
            *r == old(self).keys_status,
            final(self).keys_status == *final(r),
    {
        &mut self.keys_status
    }

    /// The lowest index of a held key, or `None` when no key is held.
    pub fn get_current_key(&self) -> (r: Option<usize>)
        ensures
            r == first_held_key(self.keys_status@),
    {
        let mut k: usize = 0;
        while k < 16
            invariant
                k <= 16,
                forall|j: int| 0 <= j < k ==> !self.keys_status[j],
            decreases 16 - k,
        {
            if self.keys_status[k] {
                proof {
                    lemma_first_held_key(self.keys_status@, k);
                }
                return Some(k);
            }
            k = k + 1;
        }
        assert(!any_key_held(self.keys_status@));
        None
    }

    /// The first held key, for a keypad on which a key is held.
    pub fn await_key_press(&self) -> (r: usize)
        requires
            any_key_held(self.keys_status@),
        ensures
            Some(r) == first_held_key(self.keys_status@),
    {
        match self.get_current_key() {
            Some(k) => k,
            None => 0,
        }
    }
}

} // verus!
