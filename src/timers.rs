use vstd::prelude::*;

verus! {

/// The delay and sound timers, each counting down toward zero.
#[derive(Debug)]
pub struct Chip8Timers {
    pub delay: u8,
    pub sound: u8,
}

/// One countdown step of a timer: down by one, never below zero.
pub open spec fn count_down(t: u8) -> u8 {
    if t > 0 {
        (t - 1) as u8
    } else {
        0
    }
}

impl Chip8Timers {
    /// Both timers at zero.
    pub fn new() -> (r: Chip8Timers)
        ensures
            r.delay == 0,
            r.sound == 0,
    {
        Chip8Timers { delay: 0, sound: 0 }
    }

    pub fn get_delay(&self) -> (r: &u8)
        ensures
            *r == self.delay,
    {
        &self.delay
    }

    pub fn get_delay_mut(&mut self) -> (r: &mut u8)
        ensures
            *r == old(self).delay,
            final(self).delay == *final(r),
            final(self).sound == old(self).sound,
    {
        &mut self.delay
    }

    pub fn get_sound(&self) -> (r: &u8)
        ensures
            *r == self.sound,
    {
        &self.sound
    }

    pub fn get_sound_mut(&mut self) -> (r: &mut u8)
        ensures
            *r == old(self).sound,
            final(self).sound == *final(r),
            final(self).delay == old(self).delay,
    {
        &mut self.sound
    }

    /// Decrements each timer that is above zero, independently of the other.
    pub fn timer_tick(&mut self)
        ensures
            final(self).delay == count_down(old(self).delay),
            final(self).sound == count_down(old(self).sound),
    {
        if self.delay > 0 {
            self.delay -= 1;
        }
        if self.sound > 0 {
            self.sound -= 1;
        }
    }
}

} // verus!
