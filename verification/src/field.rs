use vstd::prelude::*;
use crate::drops::{DrawCmd, Drop};
use crate::rng;
use crate::settings::Settings;

verus! {

/// The frame orchestrator: the active drops, the tracked terminal size,
/// and the live settings.
pub struct Matrix {
    pub drops: Vec<Drop>,
    pub width: u16,
    pub height: u16,
    pub settings: Settings,
}

impl Matrix {
    /// Every active drop is well formed, with its head no farther below
    /// the screen than one retirement check can have left it.
    pub open spec fn wf(self) -> bool {
        &&& self.settings.wf()
        &&& (forall|i: int|
            0 <= i < self.drops@.len() ==> (#[trigger] self.drops@[i]).wf() && self.drops@[i].y
                <= 70000)
    }

    /// A field with no drops yet, at the given terminal size.
    pub fn new(settings: Settings, width: u16, height: u16) -> (m: Matrix)
        requires
            settings.wf(),
        ensures
            m.wf(),
            m.settings == settings,
            m.width == width,
            m.height == height,
            m.drops@.len() == 0,
    {
        Matrix { drops: Vec::new(), width, height, settings }
    }

    /// Track a terminal resize; the drops are untouched.
    pub fn set_size(&mut self, width: u16, height: u16)
        ensures
            *final(self) == (Matrix { width, height, ..*old(self) }),
    {
        self.width = width;
        self.height = height;
    }

    /// One frame's spawn phase: between 1 and `spawns_per_frame` attempts,
    /// each succeeding with probability `density_pct` percent, each
    /// appending a fresh drop at a random visible column. With a zero-width
    /// terminal nothing can spawn.
    pub fn spawn_drops(&mut self)
        requires
            old(self).wf(),
        ensures
            final(self).wf(),
            final(self).width == old(self).width,
            final(self).height == old(self).height,
            final(self).settings == old(self).settings,
            final(self).drops@.len() >= old(self).drops@.len(),
            final(self).drops@.len() <= old(self).drops@.len()
                + old(self).settings.spawns_per_frame,
            final(self).drops@.subrange(0, old(self).drops@.len() as int) == old(self).drops@,
            forall|i: int|
                old(self).drops@.len() <= i < final(self).drops@.len() ==> {
                    let d = #[trigger] final(self).drops@[i];
                    d.wf() && -30 <= d.y < 0 && d.x < old(self).width && d.tick == 0
                        && old(self).settings.min_length <= d.length
                        <= old(self).settings.max_length
                },
            old(self).settings.density_pct == 100 && old(self).width > 0
                ==> final(self).drops@.len() > old(self).drops@.len(),
            old(self).width == 0 ==> final(self).drops@.len() == old(self).drops@.len(),
    {
        let count = rng::rand_between(1, self.settings.spawns_per_frame as u64);
        let ghost pre = *self;
        let mut a: u64 = 0;
        while a < count
            invariant
                a <= count,
                1 <= count <= pre.settings.spawns_per_frame,
                self.wf(),
                self.width == pre.width,
                self.height == pre.height,
                self.settings == pre.settings,
                pre.drops@.len() <= self.drops@.len() <= pre.drops@.len() + a,
                self.drops@.subrange(0, pre.drops@.len() as int) == pre.drops@,
                forall|i: int|
                    pre.drops@.len() <= i < self.drops@.len() ==> {
                        let d = #[trigger] self.drops@[i];
                        d.wf() && -30 <= d.y < 0 && d.x < pre.width && d.tick == 0
                            && pre.settings.min_length <= d.length <= pre.settings.max_length
                    },
                pre.settings.density_pct == 100 && pre.width > 0 ==> self.drops@.len()
                    == pre.drops@.len() + a,
                pre.width == 0 ==> self.drops@.len() == pre.drops@.len(),
            decreases count - a,
        {
            let roll = rng::rand_between(0, 99);
            if roll < self.settings.density_pct as u64 && self.width > 0 {
                let x = rng::rand_between(0, (self.width - 1) as u64) as u16;
                let d = Drop::new(x, &self.settings);
                self.drops.push(d);
                proof {
                    assert(self.drops@.subrange(0, pre.drops@.len() as int) =~= pre.drops@);
                }
            }
            a += 1;
        }
    }

    /// One full frame after input handling: spawn, advance every drop,
    /// collect the cell writes, and retire the drops whose tails have
    /// passed below the screen. Every returned write lies on screen.
    pub fn advance_frame(&mut self) -> (draws: Vec<DrawCmd>)
        requires
            old(self).wf(),
        ensures
            final(self).wf(),
            final(self).width == old(self).width,
            final(self).height == old(self).height,
            final(self).settings == old(self).settings,
            final(self).drops@.len() <= old(self).drops@.len()
                + old(self).settings.spawns_per_frame,
            forall|i: int|
                0 <= i < final(self).drops@.len() ==> !(#[trigger] final(self).drops@[i]).done_spec(
                    old(self).height,
                ),
            old(self).settings.density_pct == 100 && old(self).width > 0
                ==> final(self).drops@.len() >= 1,
            forall|i: int| 0 <= i < draws@.len() ==> (#[trigger] draws@[i]).y < old(self).height,
    {
        self.spawn_drops();
        let ghost mid = *self;
        let mut pending: Vec<Drop> = Vec::new();
        core::mem::swap(&mut pending, &mut self.drops);
        let ghost spawned_fresh = mid.drops@.len() > 0 && mid.drops@[mid.drops@.len() - 1].y < 0;
        let mut all_draws: Vec<DrawCmd> = Vec::new();
        let scheme = self.settings.color_scheme;
        while pending.len() > 0
            invariant
                self.settings == mid.settings,
                self.width == mid.width,
                self.height == mid.height,
                self.wf(),
                self.drops@.len() + pending@.len() <= mid.drops@.len(),
                forall|i: int|
                    0 <= i < pending@.len() ==> (#[trigger] pending@[i]).wf() && pending@[i].y
                        <= 70000,
                forall|i: int|
                    0 <= i < self.drops@.len() ==> !(#[trigger] self.drops@[i]).done_spec(
                        mid.height,
                    ),
                forall|i: int| 0 <= i < all_draws@.len() ==> (#[trigger] all_draws@[i]).y
                    < mid.height,
                spawned_fresh ==> ((pending@.len() > 0 && pending@[pending@.len() - 1].y < 0)
                    || self.drops@.len() >= 1),
            decreases pending@.len(),
        {
            let mut d = pending.remove(0);
            let mut draws = d.update(self.height, scheme);
            proof {
                crate::drops::lemma_frame_draws_on_screen(d, scheme, self.height);
            }
            all_draws.append(&mut draws);
            if !d.is_done(self.height) {
                self.drops.push(d);
            }
        }
        all_draws
    }
}

} // verus!
