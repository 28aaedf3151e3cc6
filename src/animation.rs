//! Timed visual effects: what is showing and for how many more frames.
use vstd::prelude::*;

verus! {

#[derive(Clone, Copy, PartialEq, Eq, Structural, Debug)]
pub enum AnimationSeq {
    ShipExplosion(i32, i32),
    SpiderExplosion(i32, i32),
    BonusBombHit(i32, i32, usize),
    ScreenStart(u32),
    ExtraLife,
    VolumeChange(i32),
}

/// Frames each kind of effect lasts.
pub open spec fn duration(seq: AnimationSeq) -> u32 {
    match seq {
        AnimationSeq::ShipExplosion(_, _) => 32,
        AnimationSeq::SpiderExplosion(_, _) => 20,
        AnimationSeq::BonusBombHit(_, _, _) => 100,
        AnimationSeq::ScreenStart(_) => 100,
        AnimationSeq::ExtraLife => 50,
        AnimationSeq::VolumeChange(_) => 100,
    }
}

#[derive(Clone, Copy, PartialEq, Eq, Structural, Debug)]
pub struct Animation {
    pub animation_seq: AnimationSeq,
    pub frames_left: u32,
}

impl Animation {
    pub fn new(animation_seq: AnimationSeq) -> (r: Animation)
        ensures
            r.animation_seq == animation_seq,
            r.frames_left == duration(animation_seq),
    {
        let frames_left = match animation_seq {
            AnimationSeq::ShipExplosion(_, _) => 32,
            AnimationSeq::SpiderExplosion(_, _) => 20,
            AnimationSeq::BonusBombHit(_, _, _) => 100,
            AnimationSeq::ScreenStart(_) => 100,
            AnimationSeq::ExtraLife => 50,
            AnimationSeq::VolumeChange(_) => 100,
        };
        Animation { animation_seq, frames_left }
    }

    pub fn finished(&self) -> (r: bool)
        ensures
            r == (self.frames_left == 0),
    {
        self.frames_left == 0
    }
}

/// The effects of `s` that satisfy `keep`, in order.
pub open spec fn kept(s: Seq<Animation>, keep: spec_fn(Animation) -> bool) -> Seq<Animation>
    decreases s.len(),
{
    if s.len() == 0 {
        Seq::empty()
    } else {
        let prev = kept(s.drop_last(), keep);
        if keep(s.last()) {
            prev.push(s.last())
        } else {
            prev
        }
    }
}

pub open spec fn unfinished() -> spec_fn(Animation) -> bool {
    |a: Animation| a.frames_left != 0
}

pub open spec fn not_volume() -> spec_fn(Animation) -> bool {
    |a: Animation| !(a.animation_seq is VolumeChange)
}

pub proof fn lemma_kept(s: Seq<Animation>, keep: spec_fn(Animation) -> bool)
    ensures
        kept(s, keep).len() <= s.len(),
        forall|i: int| 0 <= i < kept(s, keep).len() ==> keep(#[trigger] kept(s, keep)[i]) && s.contains(kept(s, keep)[i]),
    decreases s.len(),
{
    if s.len() > 0 {
        lemma_kept(s.drop_last(), keep);
        let prev = kept(s.drop_last(), keep);
        assert forall|i: int| 0 <= i < kept(s, keep).len() implies keep(#[trigger] kept(s, keep)[i]) && s.contains(kept(s, keep)[i]) by {
            if i < prev.len() {
                assert(kept(s, keep)[i] == prev[i]);
                let j = choose|j: int| 0 <= j < s.drop_last().len() && s.drop_last()[j] == prev[i];
                assert(s[j] == prev[i]);
            } else {
                assert(s[s.len() - 1] == s.last());
            }
        }
    }
}

/// The effects that are showing.
pub struct Animations {
    pub animation: Vec<Animation>,
}

impl Animations {
    /// Every effect showing has frames left.
    pub open spec fn wf(&self) -> bool {
        forall|i: int| 0 <= i < self.animation@.len() ==> (#[trigger] self.animation@[i]).frames_left > 0
    }

    pub fn new() -> (r: Animations)
        ensures
            r.wf(),
            r.animation@.len() == 0,
    {
        Animations { animation: Vec::new() }
    }

    fn retain_where_unfinished(v: &Vec<Animation>) -> (r: Vec<Animation>)
        ensures
            r@ == kept(v@, unfinished()),
    {
        let mut out: Vec<Animation> = Vec::new();
        let mut i: usize = 0;
        while i < v.len()
            invariant
                i <= v@.len(),
                out@ == kept(v@.take(i as int), unfinished()),
            decreases v@.len() - i,
        {
            assert(v@.take(i as int + 1).drop_last() =~= v@.take(i as int));
            if !v[i].finished() {
                out.push(v[i]);
            }
            i += 1;
        }
        assert(v@.take(v@.len() as int) =~= v@);
        out
    }

    fn retain_where_not_volume(v: &Vec<Animation>) -> (r: Vec<Animation>)
        ensures
            r@ == kept(v@, not_volume()),
    {
        let mut out: Vec<Animation> = Vec::new();
        let mut i: usize = 0;
        while i < v.len()
            invariant
                i <= v@.len(),
                out@ == kept(v@.take(i as int), not_volume()),
            decreases v@.len() - i,
        {
            assert(v@.take(i as int + 1).drop_last() =~= v@.take(i as int));
            let is_volume = match v[i].animation_seq {
                AnimationSeq::VolumeChange(_) => true,
                _ => false,
            };
            if !is_volume {
                out.push(v[i]);
            }
            i += 1;
        }
        assert(v@.take(v@.len() as int) =~= v@);
        out
    }

    /// Drops the effects that have run their course.
    pub fn unregister_finished(&mut self)
        ensures
            final(self).animation@ == kept(old(self).animation@, unfinished()),
            final(self).wf(),
    {
        self.animation = Animations::retain_where_unfinished(&self.animation);
        proof {
            lemma_kept(old(self).animation@, unfinished());
        }
    }

    /// Shows a new effect; a volume display replaces any volume display
    /// still showing.
    pub fn register(&mut self, animation: Animation)
        requires
            old(self).wf(),
            animation.frames_left > 0,
        ensures
            final(self).wf(),
            animation.animation_seq is VolumeChange ==> final(self).animation@ == kept(old(self).animation@, not_volume()).push(animation),
            !(animation.animation_seq is VolumeChange) ==> final(self).animation@ == old(self).animation@.push(animation),
    {
        if let AnimationSeq::VolumeChange(_) = animation.animation_seq {
            self.animation = Animations::retain_where_not_volume(&self.animation);
            proof {
                lemma_kept(old(self).animation@, not_volume());
                assert forall|i: int| 0 <= i < self.animation@.len() implies (#[trigger] self.animation@[i]).frames_left > 0 by {
                    let j = choose|j: int| 0 <= j < old(self).animation@.len() && old(self).animation@[j] == self.animation@[i];
                }
            }
        }
        self.animation.push(animation);
    }

    /// One frame passes for every effect; those that end are dropped.
    pub fn update(&mut self)
        requires
            old(self).wf(),
        ensures
            final(self).wf(),
            final(self).animation@ == kept(
                old(self).animation@.map_values(|a: Animation| Animation { frames_left: (a.frames_left - 1) as u32, ..a }),
                unfinished(),
            ),
    {
        let mut i: usize = 0;
        while i < self.animation.len()
            invariant
                i <= self.animation@.len(),
                self.animation@.len() == old(self).animation@.len(),
                forall|k: int|
                    0 <= k < self.animation@.len() ==> #[trigger] self.animation@[k] == if k < i {
                        Animation { frames_left: (old(self).animation@[k].frames_left - 1) as u32, ..old(self).animation@[k] }
                    } else {
                        old(self).animation@[k]
                    },
                old(self).wf(),
            decreases self.animation@.len() - i,
        {
            let mut a = self.animation[i];
            a.frames_left -= 1;
            self.animation.set(i, a);
            i += 1;
        }
        assert(self.animation@ =~= old(self).animation@.map_values(
            |a: Animation| Animation { frames_left: (a.frames_left - 1) as u32, ..a },
        ));
        self.unregister_finished();
    }
}

} // verus!
