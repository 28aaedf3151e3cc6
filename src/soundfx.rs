//! The volume setting, in steps.
use vstd::prelude::*;

verus! {

pub const VOL_STEPS: i32 = 10;

/// Mixer volume of one step: the mixer's full volume, 128, over the steps.
pub const VOL_STEP: i32 = 12;

pub struct SoundControl {
    pub volume: i32,
}

impl SoundControl {
    pub open spec fn wf(&self) -> bool {
        0 <= self.volume <= VOL_STEPS
    }

    /// Half volume.
    pub fn new() -> (r: SoundControl)
        ensures
            r.wf(),
            r.volume == VOL_STEPS / 2,
    {
        SoundControl { volume: VOL_STEPS / 2 }
    }

    /// One step louder, up to the top; returns the volume now.
    pub fn increase_volume(&mut self) -> (r: i32)
        requires
            old(self).wf(),
        ensures
            final(self).wf(),
            final(self).volume == if old(self).volume < VOL_STEPS { old(self).volume + 1 } else { old(self).volume as int },
            r == final(self).volume,
    {
        if self.volume < VOL_STEPS {
            self.volume += 1;
        }
        self.volume
    }

    /// One step quieter, down to silence; returns the volume now.
    pub fn decrease_volume(&mut self) -> (r: i32)
        requires
            old(self).wf(),
        ensures
            final(self).wf(),
            final(self).volume == if old(self).volume > 0 { old(self).volume - 1 } else { old(self).volume as int },
            r == final(self).volume,
    {
        if self.volume > 0 {
            self.volume -= 1;
        }
        self.volume
    }

    /// The mixer volume for the current setting.
    pub fn channel_volume(&self) -> (r: i32)
        requires
            self.wf(),
        ensures
            r == self.volume * VOL_STEP,
    {
        self.volume * VOL_STEP
    }
}

} // verus!
