//! Explosions: how a request becomes one, and how it plays and ends.

use vstd::prelude::*;
use vstd::arithmetic::div_mod::lemma_div_is_ordered_by_denominator;
use vstd::arithmetic::div_mod::lemma_div_pos_is_pos;
use vstd::arithmetic::div_mod::lemma_mod_bound;
use crate::entity::Explosion;
use crate::entity::ExplosionToSpawn;
use crate::rules::EXPLOSION_FRAME_PERIOD;
use crate::timer::lemma_ticks_add_up;
use crate::timer::spec_left_over;
use crate::timer::spec_periods;
use crate::timer::Timer;
use crate::world::World;
use crate::world::WorldView;

verus! {

/// The frame an explosion shows once `periods` more frame periods are over,
/// if it showed frame `index` of `frames`: one frame further for each
/// period, but not past the end of the sheet.
pub open spec fn spec_frame_after(index: int, periods: int, frames: int) -> int {
    if index >= frames {
        index
    } else if periods >= frames - index {
        frames
    } else {
        index + periods
    }
}

impl ExplosionToSpawn {
    /// The explosion that the request becomes: at the place asked for, on
    /// its first frame, with a fresh timer of period
    /// [`EXPLOSION_FRAME_PERIOD`].
    pub open spec fn spec_explosion(self) -> Explosion {
        Explosion {
            translation: self.0,
            timer: Timer { duration: EXPLOSION_FRAME_PERIOD, elapsed: 0, times_finished: 0 },
            index: 0,
        }
    }

    /// Computes [`ExplosionToSpawn::spec_explosion`].
    pub fn explosion(&self) -> (e: Explosion)
        ensures
            e == self.spec_explosion(),
            e.wf(),
    {
        Explosion { translation: self.0, timer: Timer::new(EXPLOSION_FRAME_PERIOD), index: 0 }
    }
}

impl Explosion {
    /// The explosion after `delta` more microseconds, on a sheet of
    /// `frames` frames: its timer has ticked, and it has gone one frame
    /// further for each period the tick completed, up to the end of the
    /// sheet.
    pub open spec fn spec_animated(self, delta: u64, frames: usize) -> Explosion {
        Explosion {
            translation: self.translation,
            timer: self.timer.spec_tick(delta),
            index: spec_frame_after(
                self.index as int,
                spec_periods(self.timer.duration as int, self.timer.elapsed as int, delta as int),
                frames as int,
            ) as usize,
        }
    }

    /// Whether the explosion is over, on a sheet of `frames` frames: its
    /// latest tick completed a period and it has reached the end of the
    /// sheet.
    pub open spec fn spec_is_over(self, frames: usize) -> bool {
        self.timer.spec_finished() && self.index >= frames
    }

    /// Computes [`Explosion::spec_animated`].
    pub fn animated(&self, delta: u64, frames: usize) -> (e: Explosion)
        requires
            self.wf(),
        ensures
            e == self.spec_animated(delta, frames),
            e.wf(),
    {
        let mut timer = self.timer;
        timer.tick(delta);
        let index: usize = if self.index >= frames {
            self.index
        } else if timer.times_finished >= (frames - self.index) as u64 {
            frames
        } else {
            self.index + timer.times_finished as usize
        };
        Explosion { translation: self.translation, timer, index }
    }

    /// Decides [`Explosion::spec_is_over`].
    pub fn is_over(&self, frames: usize) -> (b: bool)
        ensures
            b == self.spec_is_over(frames),
    {
        self.timer.finished() && self.index >= frames
    }

    /// The frame goes up by one for each period, and the explosion ends
    /// exactly when the frame reaches the number of frames. After a tick
    /// that completed `periods` periods an explosion that had not reached
    /// the end shows the frame `periods` further, or the end of the sheet
    /// if that comes first; and it is over exactly if a period was
    /// completed and it has reached the end.
    pub proof fn lemma_frame_follows_periods(self, delta: u64, frames: usize)
        requires
            self.wf(),
            self.index <= frames,
        ensures
            ({
                let periods = spec_periods(
                    self.timer.duration as int,
                    self.timer.elapsed as int,
                    delta as int,
                );
                let after = self.spec_animated(delta, frames);
                &&& periods >= 0
                &&& self.index + periods <= frames ==> after.index == self.index + periods
                &&& self.index + periods > frames ==> after.index == frames
                &&& periods == 1 && self.index < frames ==> after.index == self.index + 1
                &&& after.spec_is_over(frames) <==> periods > 0 && after.index == frames
            }),
    {
        lemma_periods_bounded(
            self.timer.duration as int,
            self.timer.elapsed as int,
            delta as int,
        );
    }

    /// How time is cut into ticks makes no difference to an explosion: it
    /// is over after one tick exactly if it is over after the first or the
    /// second of two ticks that together are as long, and if it outlasts
    /// them it shows the same frame with the same time on its timer.
    pub proof fn lemma_ticks_compose(self, first: u64, second: u64, frames: usize)
        requires
            self.wf(),
            first + second <= u64::MAX,
        ensures
            ({
                let whole = self.spec_animated((first + second) as u64, frames);
                let half = self.spec_animated(first, frames);
                let both = half.spec_animated(second, frames);
                &&& whole.spec_is_over(frames) <==> half.spec_is_over(frames) || both.spec_is_over(
                    frames,
                )
                &&& whole.index == both.index
                &&& whole.timer.elapsed == both.timer.elapsed
            }),
    {
        let d = self.timer.duration as int;
        let e = self.timer.elapsed as int;
        lemma_ticks_add_up(d, e, first as int, second as int);
        lemma_periods_bounded(d, e, first as int);
        lemma_periods_bounded(d, e, first + second);
        lemma_periods_bounded(d, spec_left_over(d, e, first as int), second as int);
    }
}

/// The periods completed by a tick are not negative, no more than fit in
/// the time, and the time left over is less than a period.
proof fn lemma_periods_bounded(duration: int, elapsed: int, delta: int)
    requires
        0 < duration <= u64::MAX,
        0 <= elapsed < duration,
        0 <= delta <= u64::MAX,
    ensures
        0 <= spec_periods(duration, elapsed, delta) <= u64::MAX,
        0 <= spec_left_over(duration, elapsed, delta) < duration,
{
    let total = elapsed + delta;
    lemma_div_pos_is_pos(total, duration);
    lemma_mod_bound(total, duration);
    if duration >= 2 {
        lemma_div_is_ordered_by_denominator(total, 2, duration);
    }
}

impl WorldView {
    /// The world after the requests for explosions have been taken up:
    /// each has become an explosion, in their order, and none is left.
    pub open spec fn spec_explosion_to_spawn(self) -> WorldView {
        WorldView {
            explosions: self.explosions + self.explosions_to_spawn.map_values(
                |r: ExplosionToSpawn| r.spec_explosion(),
            ),
            explosions_to_spawn: Seq::empty(),
            ..self
        }
    }

    /// The world after the explosions have played for `delta` more
    /// microseconds: each has been animated, and those that are over are
    /// gone. The rest keep their order.
    pub open spec fn spec_animate_explosion(self, delta: u64) -> WorldView {
        WorldView {
            explosions: self.explosions.map_values(
                |e: Explosion| e.spec_animated(delta, self.sprite_infos.explosion_frames),
            ).filter(|e: Explosion| !e.spec_is_over(self.sprite_infos.explosion_frames)),
            ..self
        }
    }
}

/// Turns every request for an explosion into an explosion: see
/// [`WorldView::spec_explosion_to_spawn`].
pub fn explosion_to_spawn(world: &mut World)
    requires
        old(world).wf(),
    ensures
        final(world)@ == old(world)@.spec_explosion_to_spawn(),
        final(world).wf(),
{
    let ghost pre = world@;
    let ghost spawned = |r: ExplosionToSpawn| r.spec_explosion();
    let mut i: usize = 0;
    while i < world.explosions_to_spawn.len()
        invariant
            i <= pre.explosions_to_spawn.len(),
            pre.wf(),
            spawned == |r: ExplosionToSpawn| r.spec_explosion(),
            world@ == (WorldView {
                explosions: pre.explosions + pre.explosions_to_spawn.take(i as int).map_values(
                    spawned,
                ),
                ..pre
            }),
            forall|k: int|
                0 <= k < world.explosions@.len() ==> (#[trigger] world.explosions@[k]).wf(),
        decreases pre.explosions_to_spawn.len() - i,
    {
        let explosion = world.explosions_to_spawn[i].explosion();
        world.explosions.push(explosion);
        proof {
            assert(world.explosions@ =~= pre.explosions + pre.explosions_to_spawn.take(
                i + 1,
            ).map_values(spawned));
        }
        i += 1;
    }
    assert(pre.explosions_to_spawn.take(pre.explosions_to_spawn.len() as int)
        =~= pre.explosions_to_spawn);
    world.explosions_to_spawn.clear();
}

/// Plays every explosion for `delta` more microseconds and removes those
/// that are over: see [`WorldView::spec_animate_explosion`].
pub fn animate_explosion(world: &mut World, delta: u64)
    requires
        old(world).wf(),
    ensures
        final(world)@ == old(world)@.spec_animate_explosion(delta),
        final(world).wf(),
{
    let ghost pre = world@;
    let frames: usize = world.sprite_infos.explosion_frames;
    let ghost animated = |e: Explosion| e.spec_animated(delta, frames);
    let ghost playing = |e: Explosion| !e.spec_is_over(frames);
    let mut kept: Vec<Explosion> = Vec::new();
    let mut i: usize = 0;
    while i < world.explosions.len()
        invariant
            world@ == pre,
            pre.wf(),
            frames == pre.sprite_infos.explosion_frames,
            i <= pre.explosions.len(),
            animated == |e: Explosion| e.spec_animated(delta, frames),
            playing == |e: Explosion| !e.spec_is_over(frames),
            kept@ == pre.explosions.take(i as int).map_values(animated).filter(playing),
            forall|k: int| 0 <= k < kept@.len() ==> (#[trigger] kept@[k]).wf(),
        decreases pre.explosions.len() - i,
    {
        let next = world.explosions[i].animated(delta, frames);
        proof {
            let before = pre.explosions.take(i as int);
            assert(pre.explosions.take(i + 1) =~= before.push(pre.explosions[i as int]));
            assert(before.push(pre.explosions[i as int]).map_values(animated)
                =~= before.map_values(animated).push(next));
            before.map_values(animated).lemma_filter_push(next, playing);
        }
        if !next.is_over(frames) {
            kept.push(next);
        }
        i += 1;
    }
    assert(pre.explosions.take(pre.explosions.len() as int) =~= pre.explosions);
    world.explosions = kept;
}

} // verus!
