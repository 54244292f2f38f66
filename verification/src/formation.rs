//! Formations: the elliptical flight paths that groups of enemies share, and
//! the maker that hands them out.

use vstd::prelude::*;
use rand::Rng;
use rand::rngs::ThreadRng;
use crate::angle::Angle;
use crate::angle::Direction;
use crate::angle::MICRO;
use crate::resources::WinSize;
use crate::rules::FORMATION_RADIUS_END;
use crate::rules::FORMATION_RADIUS_MIN;
use crate::rules::FORMATION_RADIUS_Y;
use crate::rules::MAX_FORMATION_MEMBERS;
use crate::units::spec_abs;
use crate::units::spec_trunc_div;
use crate::units::Vec2;
use crate::units::COORD_MAX;

verus! {

/// The flight path of one group of enemies: an ellipse of the given radii
/// about `offset`, entered from `start`, with the angle the group has
/// reached on it.
#[derive(Clone, Copy, Debug, PartialEq, Eq)]
pub struct Formation {
    pub start: Vec2,
    pub radius: Vec2,
    pub offset: Vec2,
    pub angle: Angle,
    pub group_id: u32,
}

/// The values that a new formation takes from chance.
#[derive(Clone, Copy, Debug, PartialEq, Eq)]
pub struct FormationDraw {
    /// Whether the group enters from the right.
    pub right: bool,
    pub start_y: i64,
    pub offset: Vec2,
    pub radius_x: i64,
}

/// Hands out formations, a new one whenever the current one is full.
#[derive(Clone, Copy, Debug, PartialEq, Eq)]
pub struct FormationMaker {
    pub group_seq: u32,
    pub current_formation: Option<Formation>,
    pub current_formation_members: u32,
}

impl Formation {
    /// The start lies in the simulated space, the radii are positive, the
    /// whole ellipse lies in the simulated space, and the angle is well
    /// formed.
    pub open spec fn wf(self) -> bool {
        &&& self.start.in_space()
        &&& 0 < self.radius.x
        &&& 0 < self.radius.y
        &&& self.radius.x + spec_abs(self.offset.x as int) <= COORD_MAX
        &&& self.radius.y + spec_abs(self.offset.y as int) <= COORD_MAX
        &&& self.angle.wf()
    }

    /// Decides [`Formation::wf`].
    pub fn is_wf(&self) -> (b: bool)
        ensures
            b == self.wf(),
    {
        self.start.check_in_space() && 0 < self.radius.x && 0 < self.radius.y
            && self.offset.check_in_space() && self.radius.x <= COORD_MAX && self.radius.y
            <= COORD_MAX && self.radius.x + crate::units::abs(self.offset.x) <= COORD_MAX
            && self.radius.y + crate::units::abs(self.offset.y) <= COORD_MAX
            && self.angle.is_wf()
    }

    /// `+1` for a group that entered from the right, `-1` otherwise: the
    /// sense in which the group goes round its path.
    pub open spec fn spec_sense(self) -> int {
        if self.start.x > 0 {
            1
        } else {
            -1
        }
    }

    /// The lesser of the two radii.
    pub open spec fn spec_min_radius(self) -> int {
        if self.radius.x < self.radius.y {
            self.radius.x as int
        } else {
            self.radius.y as int
        }
    }

    /// The point of the ellipse in direction `dir`:
    /// `(rx * cos + ox, ry * sin + oy)`, each product rounded toward zero.
    pub open spec fn spec_point(self, dir: Direction) -> Vec2 {
        Vec2 {
            x: (spec_trunc_div(self.radius.x * dir.cos, MICRO as int) + self.offset.x) as i64,
            y: (spec_trunc_div(self.radius.y * dir.sin, MICRO as int) + self.offset.y) as i64,
        }
    }

    /// Computes [`Formation::spec_point`].
    pub fn point(&self, dir: &Direction) -> (p: Vec2)
        requires
            self.wf(),
            dir.wf(),
        ensures
            p == self.spec_point(*dir),
            p.in_space(),
    {
        let x: i64 = scaled(self.radius.x, dir.cos) + self.offset.x;
        let y: i64 = scaled(self.radius.y, dir.sin) + self.offset.y;
        Vec2 { x, y }
    }
}

/// `length` times `part` millionths, rounded toward zero.
fn scaled(length: i64, part: i64) -> (r: i64)
    requires
        0 <= length <= COORD_MAX,
        -MICRO <= part <= MICRO,
    ensures
        r == spec_trunc_div(length * part, MICRO as int),
        -length <= r <= length,
{
    assert(-length * 1_000_000 <= length * part <= length * 1_000_000) by (nonlinear_arith)
        requires
            0 <= length,
            -1_000_000 <= part <= 1_000_000,
    ;
    let product: i64 = length * part;
    product / MICRO
}

impl FormationDraw {
    /// Each value lies in the range it is drawn from on a playfield of size
    /// `win`: the start height within the vertical span either way, the
    /// centre within the horizontal span either way and in the upper vertical
    /// span, the horizontal radius between its two bounds.
    pub open spec fn in_range(self, win: WinSize) -> bool {
        &&& -win.spec_h_span() <= self.start_y < win.spec_h_span()
        &&& -win.spec_w_span() <= self.offset.x < win.spec_w_span()
        &&& 0 <= self.offset.y < win.spec_h_span()
        &&& FORMATION_RADIUS_MIN <= self.radius_x < FORMATION_RADIUS_END
    }

    /// Decides [`FormationDraw::in_range`].
    pub fn is_in_range(&self, win: &WinSize) -> (b: bool)
        requires
            win.wf(),
        ensures
            b == self.in_range(*win),
    {
        let h: i64 = win.h_span();
        let w: i64 = win.w_span();
        -h <= self.start_y && self.start_y < h && -w <= self.offset.x && self.offset.x < w && 0
            <= self.offset.y && self.offset.y < h && FORMATION_RADIUS_MIN <= self.radius_x
            && self.radius_x < FORMATION_RADIUS_END
    }

    /// The formation these values give on a playfield of size `win`. It
    /// starts off-screen, a full width to the left or right of the centre.
    /// Its angle is the direction from the centre to the start, with the
    /// centre's coordinates taken crosswise: the start's height against the
    /// centre's abscissa, the start's abscissa against the centre's height.
    pub open spec fn spec_formation(self, win: WinSize, group_id: u32) -> Formation {
        let x = if self.right {
            win.width
        } else {
            (-win.width) as i64
        };
        Formation {
            start: Vec2 { x, y: self.start_y },
            radius: Vec2 { x: self.radius_x, y: FORMATION_RADIUS_Y },
            offset: self.offset,
            angle: Angle {
                rise: (self.start_y - self.offset.x) as i64,
                run: (x - self.offset.y) as i64,
                turn: 0,
            },
            group_id,
        }
    }

    /// Computes [`FormationDraw::spec_formation`].
    pub fn formation(&self, win: &WinSize, group_id: u32) -> (f: Formation)
        requires
            win.wf(),
            self.in_range(*win),
        ensures
            f == self.spec_formation(*win, group_id),
            f.wf(),
    {
        let x: i64 = if self.right {
            win.width
        } else {
            -win.width
        };
        Formation {
            start: Vec2 { x, y: self.start_y },
            radius: Vec2 { x: self.radius_x, y: FORMATION_RADIUS_Y },
            offset: self.offset,
            angle: Angle::of_vector(self.start_y - self.offset.x, x - self.offset.y),
            group_id,
        }
    }
}

/// The generator that the calling thread draws from, seeded by the system:
/// `rand::thread_rng`. Nothing is claimed of it.
pub assume_specification[ rand::thread_rng ]() -> (rng: ThreadRng);

/// The handle to that generator, `rand::rngs::ThreadRng`. It is only
/// carried from the call that gets it to the calls that draw from it.
#[verifier::external_type_specification]
#[verifier::external_body]
pub struct ExThreadRng(ThreadRng);

/// One fair draw of a truth value: `Rng::gen::<bool>`. Nothing is claimed of
/// the outcome.
#[verifier::external_body]
fn random_bool(rng: &mut ThreadRng) -> (b: bool) {
    rng.gen::<bool>()
}

/// One uniform draw from a half-open range of whole numbers:
/// `Rng::gen_range(low..high)`, which panics on an empty range and otherwise
/// returns a value of the range.
#[verifier::external_body]
fn random_in_range(rng: &mut ThreadRng, low: i64, high: i64) -> (r: i64)
    requires
        low < high,
    ensures
        low <= r < high,
{
    rng.gen_range(low..high)
}

impl FormationDraw {
    /// Draws the values of a new formation for a playfield of size `win`.
    pub fn draw(win: &WinSize) -> (d: FormationDraw)
        requires
            win.wf(),
            win.has_room(),
        ensures
            d.in_range(*win),
    {
        let mut rng = rand::thread_rng();
        let h_span: i64 = win.h_span();
        let w_span: i64 = win.w_span();
        let right = random_bool(&mut rng);
        let start_y: i64 = random_in_range(&mut rng, -h_span, h_span);
        let offset_x: i64 = random_in_range(&mut rng, -w_span, w_span);
        let offset_y: i64 = random_in_range(&mut rng, 0, h_span);
        let radius_x: i64 = random_in_range(&mut rng, FORMATION_RADIUS_MIN, FORMATION_RADIUS_END);
        FormationDraw { right, start_y, offset: Vec2 { x: offset_x, y: offset_y }, radius_x }
    }
}

impl FormationMaker {
    /// The maker's count is in step with what it has handed out: the
    /// current formation, if there is one, carries the latest group number
    /// and has between one and [`MAX_FORMATION_MEMBERS`] members.
    pub open spec fn in_step(self) -> bool {
        match self.current_formation {
            Some(f) => {
                &&& f.group_id == self.group_seq
                &&& 1 <= self.current_formation_members <= MAX_FORMATION_MEMBERS
            },
            None => true,
        }
    }

    /// The maker is in step, and the current formation, if there is one,
    /// is well formed.
    pub open spec fn wf(self) -> bool {
        &&& self.in_step()
        &&& self.current_formation matches Some(f) ==> f.wf()
    }

    /// Decides [`FormationMaker::wf`].
    pub fn is_wf(&self) -> (b: bool)
        ensures
            b == self.wf(),
    {
        match &self.current_formation {
            Some(f) => f.is_wf() && f.group_id == self.group_seq && 1
                <= self.current_formation_members && self.current_formation_members
                <= MAX_FORMATION_MEMBERS,
            None => true,
        }
    }

    /// Whether the next formation handed out is a new one: there is none
    /// yet, or the current one has all its members.
    pub open spec fn spec_is_full(self) -> bool {
        self.current_formation is None || self.current_formation_members
            >= MAX_FORMATION_MEMBERS
    }

    /// Decides [`FormationMaker::spec_is_full`].
    pub fn is_full(&self) -> (b: bool)
        ensures
            b == self.spec_is_full(),
    {
        self.current_formation.is_none() || self.current_formation_members
            >= MAX_FORMATION_MEMBERS
    }

    /// Whether another formation can be handed out: a new one needs a group
    /// number that has not been used.
    pub open spec fn can_make(self) -> bool {
        self.spec_is_full() ==> self.group_seq < u32::MAX
    }

    /// Decides [`FormationMaker::can_make`].
    pub fn check_can_make(&self) -> (b: bool)
        ensures
            b == self.can_make(),
    {
        !self.is_full() || self.group_seq < u32::MAX
    }

    /// The formation handed out next, where `draw` holds what a new one
    /// would take from chance.
    pub open spec fn spec_made(self, win: WinSize, draw: FormationDraw) -> Formation {
        if self.spec_is_full() {
            draw.spec_formation(win, (self.group_seq + 1) as u32)
        } else {
            self.current_formation->0
        }
    }

    /// The maker after it has handed out its next formation.
    pub open spec fn spec_after_make(self, win: WinSize, draw: FormationDraw) -> FormationMaker {
        if self.spec_is_full() {
            FormationMaker {
                group_seq: (self.group_seq + 1) as u32,
                current_formation: Some(self.spec_made(win, draw)),
                current_formation_members: 1,
            }
        } else {
            FormationMaker {
                group_seq: self.group_seq,
                current_formation: self.current_formation,
                current_formation_members: (self.current_formation_members + 1) as u32,
            }
        }
    }

    /// A maker that has handed out nothing.
    pub fn new() -> (m: FormationMaker)
        ensures
            m == (FormationMaker {
                group_seq: 0,
                current_formation: None,
                current_formation_members: 0,
            }),
            m.wf(),
    {
        FormationMaker { group_seq: 0, current_formation: None, current_formation_members: 0 }
    }

    /// Hands out the next formation, building a new one from `draw` if the
    /// current one is full. A new formation takes the next group number
    /// and becomes the current one, with one member; otherwise the current
    /// formation is handed out again and has one member more.
    pub fn make_from(&mut self, win: &WinSize, draw: &FormationDraw) -> (f: Formation)
        requires
            old(self).can_make(),
            old(self).spec_is_full() ==> win.wf() && draw.in_range(*win),
        ensures
            f == old(self).spec_made(*win, *draw),
            *final(self) == old(self).spec_after_make(*win, *draw),
            final(self).current_formation == Some(f),
            old(self).spec_is_full() ==> f.group_id == old(self).group_seq + 1
                && final(self).group_seq == f.group_id && final(self).current_formation_members
                == 1 && f.wf(),
            !old(self).spec_is_full() ==> f == old(self).current_formation->0
                && final(self).group_seq == old(self).group_seq
                && final(self).current_formation_members
                == old(self).current_formation_members + 1,
            old(self).in_step() ==> final(self).in_step(),
            old(self).wf() ==> final(self).wf() && f.wf(),
    {
        match self.current_formation {
            Some(formation) if self.current_formation_members < MAX_FORMATION_MEMBERS => {
                self.current_formation_members += 1;
                formation
            },
            _ => {
                self.group_seq += 1;
                let formation = draw.formation(win, self.group_seq);
                self.current_formation = Some(formation);
                self.current_formation_members = 1;
                formation
            },
        }
    }

    /// Hands out the next formation: the current one while it has room for
    /// another member, else a new one whose start, centre and horizontal
    /// radius are drawn at random. A new formation takes the next group
    /// number and becomes the current one, with one member.
    pub fn make(&mut self, win_size: &WinSize) -> (f: Formation)
        requires
            old(self).can_make(),
            old(self).spec_is_full() ==> win_size.wf() && win_size.has_room(),
        ensures
            exists|draw: FormationDraw|
                {
                    &&& old(self).spec_is_full() ==> draw.in_range(*win_size)
                    &&& f == #[trigger] old(self).spec_made(*win_size, draw)
                    &&& *final(self) == old(self).spec_after_make(*win_size, draw)
                },
            final(self).current_formation == Some(f),
            old(self).spec_is_full() ==> f.group_id == old(self).group_seq + 1
                && final(self).group_seq == f.group_id && final(self).current_formation_members
                == 1 && f.wf(),
            !old(self).spec_is_full() ==> f == old(self).current_formation->0
                && final(self).group_seq == old(self).group_seq
                && final(self).current_formation_members
                == old(self).current_formation_members + 1,
            old(self).in_step() ==> final(self).in_step(),
            old(self).wf() ==> final(self).wf() && f.wf(),
    {
        if self.is_full() {
            let draw = FormationDraw::draw(win_size);
            self.make_from(win_size, &draw)
        } else {
            let ghost any = FormationDraw {
                right: false,
                start_y: 0,
                offset: Vec2 { x: 0, y: 0 },
                radius_x: 0,
            };
            let f = self.reuse();
            assert(f == old(self).spec_made(*win_size, any));
            f
        }
    }

    /// Hands out the current formation once more.
    fn reuse(&mut self) -> (f: Formation)
        requires
            !old(self).spec_is_full(),
        ensures
            forall|win: WinSize, draw: FormationDraw|
                f == #[trigger] old(self).spec_made(win, draw) && *final(self) == old(
                    self,
                ).spec_after_make(win, draw),
    {
        self.current_formation_members += 1;
        self.current_formation.unwrap()
    }

    /// A new formation takes the next group number: when the maker is full
    /// and a group number is left, the formation handed out carries the
    /// number after the latest and becomes the current one, with one
    /// member, whatever the playfield and the draw.
    pub proof fn lemma_new_formation_takes_next_number(self, win: WinSize, draw: FormationDraw)
        requires
            self.spec_is_full(),
            self.group_seq < u32::MAX,
        ensures
            self.spec_made(win, draw).group_id == self.group_seq + 1,
            self.spec_after_make(win, draw) == (FormationMaker {
                group_seq: (self.group_seq + 1) as u32,
                current_formation: Some(self.spec_made(win, draw)),
                current_formation_members: 1,
            }),
    {
    }

    /// Handing out a formation keeps the maker in step and leaves it with
    /// a current formation, whatever the playfield and the draw.
    pub proof fn lemma_make_keeps_in_step(self, win: WinSize, draw: FormationDraw)
        requires
            self.in_step(),
            self.can_make(),
        ensures
            self.spec_after_make(win, draw).in_step(),
            self.spec_after_make(win, draw).current_formation == Some(self.spec_made(win, draw)),
    {
    }

    /// The maker after it has handed out `count` formations, the `i`-th of
    /// them built from `draws[i]` if it is a new one.
    pub open spec fn spec_after_makes(
        self,
        win: WinSize,
        draws: Seq<FormationDraw>,
        count: nat,
    ) -> FormationMaker
        decreases count,
    {
        if count == 0 {
            self
        } else {
            self.spec_after_makes(win, draws, (count - 1) as nat).spec_after_make(
                win,
                draws[count - 1],
            )
        }
    }

    /// The `i`-th formation handed out, counting from zero.
    pub open spec fn spec_nth_made(self, win: WinSize, draws: Seq<FormationDraw>, i: nat) -> Formation {
        self.spec_after_makes(win, draws, i).spec_made(win, draws[i as int])
    }

    /// How far a maker has come: its group number times the size of a group,
    /// plus the members of the current group.
    spec fn progress(self) -> int {
        self.group_seq * MAX_FORMATION_MEMBERS + self.current_formation_members
    }

    /// Handing out formations keeps the maker in step, and each one handed
    /// out takes it further.
    proof fn lemma_progress(self, win: WinSize, draws: Seq<FormationDraw>, from: nat, to: nat)
        requires
            self.in_step(),
            1 <= from <= to <= draws.len(),
            self.group_seq + draws.len() <= u32::MAX,
        ensures
            self.spec_after_makes(win, draws, to).in_step(),
            self.spec_after_makes(win, draws, to).current_formation is Some,
            self.spec_after_makes(win, draws, to).group_seq <= self.group_seq + to,
            self.spec_after_makes(win, draws, to).progress() >= self.spec_after_makes(
                win,
                draws,
                from,
            ).progress() + (to - from),
            self.spec_nth_made(win, draws, (to - 1) as nat).group_id == self.spec_after_makes(
                win,
                draws,
                to,
            ).group_seq,
        decreases to,
    {
        let before = self.spec_after_makes(win, draws, (to - 1) as nat);
        if to == 1 {
            assert(before == self);
        } else {
            let earlier = if from < to {
                from
            } else {
                (to - 1) as nat
            };
            self.lemma_progress(win, draws, earlier, (to - 1) as nat);
        }
        assert(before.in_step());
        assert(before.group_seq <= self.group_seq + to - 1);
    }

    /// A formation takes at most [`MAX_FORMATION_MEMBERS`] enemies: of any
    /// run of formations handed out, the one that comes
    /// [`MAX_FORMATION_MEMBERS`] places after another belongs to a later
    /// group, with a strictly greater group number. This holds on every
    /// playfield and for every draw, as long as group numbers are left.
    pub proof fn lemma_group_turnover(self, win: WinSize, draws: Seq<FormationDraw>, i: nat)
        requires
            self.in_step(),
            i + MAX_FORMATION_MEMBERS < draws.len(),
            self.group_seq + draws.len() <= u32::MAX,
        ensures
            self.spec_nth_made(win, draws, i + MAX_FORMATION_MEMBERS as nat).group_id
                > self.spec_nth_made(win, draws, i).group_id,
    {
        let later = (i + MAX_FORMATION_MEMBERS + 1) as nat;
        self.lemma_progress(win, draws, i + 1, i + 1);
        self.lemma_progress(win, draws, i + 1, later);
    }

    /// Group numbers never go down: a formation handed out later carries a
    /// group number at least as great.
    pub proof fn lemma_group_ids_ascend(self, win: WinSize, draws: Seq<FormationDraw>, i: nat, j: nat)
        requires
            self.in_step(),
            i <= j < draws.len(),
            self.group_seq + draws.len() <= u32::MAX,
        ensures
            self.spec_nth_made(win, draws, i).group_id <= self.spec_nth_made(win, draws, j).group_id,
        decreases j - i,
    {
        if i < j {
            self.lemma_group_ids_ascend(win, draws, i, (j - 1) as nat);
            self.lemma_progress(win, draws, j, j);
            self.lemma_progress(win, draws, j + 1, j + 1);
            let at = self.spec_after_makes(win, draws, j);
            assert(self.spec_after_makes(win, draws, j + 1) == at.spec_after_make(win, draws[j as int]));
        }
    }
}

} // verus!
