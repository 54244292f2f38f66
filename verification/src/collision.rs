//! Hits: which boxes overlap, and what a hit does to the two sides.

use vstd::prelude::*;
use std::collections::HashSet;
use crate::entity::Enemy;
use crate::entity::ExplosionToSpawn;
use crate::entity::Faction;
use crate::entity::Laser;
use crate::entity::Player;
use crate::resources::SpriteInfos;
use crate::units::abs;
use crate::units::spec_abs;
use crate::units::spec_trunc_div;
use crate::units::Vec2;
use crate::units::COORD_MAX;
use crate::units::SCALE_ONE;
use crate::world::ActiveEnemies;
use crate::world::PlayerState;
use crate::world::World;
use crate::world::WorldView;

verus! {

/// No scaled extent exceeds this in magnitude.
pub const EXTENT_MAX: i64 = 1_000_000_000_000;

/// The extent of a sprite of extent `size` drawn at `scale`: along each
/// axis the extent times the scale, rounded toward zero. A negative scale
/// gives a negative extent.
pub open spec fn spec_scaled(size: Vec2, scale: Vec2) -> Vec2 {
    Vec2 {
        x: spec_trunc_div(size.x * scale.x, SCALE_ONE as int) as i64,
        y: spec_trunc_div(size.y * scale.y, SCALE_ONE as int) as i64,
    }
}

/// `extent` times `scale` thousandths, rounded toward zero.
fn scaled_by(extent: i64, scale: i64) -> (r: i64)
    requires
        0 <= extent <= COORD_MAX,
        -crate::units::SCALE_MAX <= scale <= crate::units::SCALE_MAX,
    ensures
        r == spec_trunc_div(extent * scale, SCALE_ONE as int),
        -EXTENT_MAX <= r <= EXTENT_MAX,
{
    assert(-1_000_000_000_000_000 <= extent * scale <= 1_000_000_000_000_000)
        by (nonlinear_arith)
        requires
            0 <= extent <= 1_000_000_000,
            -1_000_000 <= scale <= 1_000_000,
    ;
    (extent * scale) / SCALE_ONE
}

/// Computes [`spec_scaled`].
pub fn scaled(size: &Vec2, scale: &Vec2) -> (r: Vec2)
    requires
        size.is_extent(),
        scale.is_scale(),
    ensures
        r == spec_scaled(*size, *scale),
        -EXTENT_MAX <= r.x <= EXTENT_MAX,
        -EXTENT_MAX <= r.y <= EXTENT_MAX,
{
    Vec2 { x: scaled_by(size.x, scale.x), y: scaled_by(size.y, scale.y) }
}

/// Whether two boxes overlap, each given by its centre and its extent: on
/// both axes each box begins before the other ends. Boxes that only touch
/// do not overlap.
pub open spec fn spec_collide(a_pos: Vec2, a_size: Vec2, b_pos: Vec2, b_size: Vec2) -> bool {
    &&& 2 * a_pos.x - a_size.x < 2 * b_pos.x + b_size.x
    &&& 2 * a_pos.x + a_size.x > 2 * b_pos.x - b_size.x
    &&& 2 * a_pos.y - a_size.y < 2 * b_pos.y + b_size.y
    &&& 2 * a_pos.y + a_size.y > 2 * b_pos.y - b_size.y
}

/// Decides [`spec_collide`].
pub fn collide(a_pos: &Vec2, a_size: &Vec2, b_pos: &Vec2, b_size: &Vec2) -> (hit: bool)
    requires
        -2 * COORD_MAX <= a_pos.x <= 2 * COORD_MAX,
        -2 * COORD_MAX <= a_pos.y <= 2 * COORD_MAX,
        -2 * COORD_MAX <= b_pos.x <= 2 * COORD_MAX,
        -2 * COORD_MAX <= b_pos.y <= 2 * COORD_MAX,
        -EXTENT_MAX <= a_size.x <= EXTENT_MAX,
        -EXTENT_MAX <= a_size.y <= EXTENT_MAX,
        -EXTENT_MAX <= b_size.x <= EXTENT_MAX,
        -EXTENT_MAX <= b_size.y <= EXTENT_MAX,
    ensures
        hit == spec_collide(*a_pos, *a_size, *b_pos, *b_size),
{
    2 * a_pos.x - a_size.x < 2 * b_pos.x + b_size.x && 2 * a_pos.x + a_size.x > 2 * b_pos.x
        - b_size.x && 2 * a_pos.y - a_size.y < 2 * b_pos.y + b_size.y && 2 * a_pos.y + a_size.y
        > 2 * b_pos.y - b_size.y
}

impl Laser {
    /// The extent of the projectile's box: that of its faction's sprite,
    /// scaled by the magnitude of its scale.
    pub open spec fn spec_extent(self, sprites: SpriteInfos) -> Vec2 {
        let size = match self.faction {
            Faction::FromPlayer => sprites.player_laser,
            Faction::FromEnemy => sprites.enemy_laser,
        };
        spec_scaled(
            size,
            Vec2 {
                x: spec_abs(self.transform.scale.x as int) as i64,
                y: spec_abs(self.transform.scale.y as int) as i64,
            },
        )
    }

    /// Computes [`Laser::spec_extent`].
    pub fn extent(&self, sprites: &SpriteInfos) -> (r: Vec2)
        requires
            self.wf(),
            sprites.wf(),
        ensures
            r == self.spec_extent(*sprites),
            -EXTENT_MAX <= r.x <= EXTENT_MAX,
            -EXTENT_MAX <= r.y <= EXTENT_MAX,
    {
        let magnitude = Vec2 { x: abs(self.transform.scale.x), y: abs(self.transform.scale.y) };
        match self.faction {
            Faction::FromPlayer => scaled(&sprites.player_laser, &magnitude),
            Faction::FromEnemy => scaled(&sprites.enemy_laser, &magnitude),
        }
    }

    /// Whether the projectile's box overlaps that of `enemy`.
    pub open spec fn spec_hits_enemy(self, enemy: Enemy, sprites: SpriteInfos) -> bool {
        spec_collide(
            self.transform.translation,
            self.spec_extent(sprites),
            enemy.transform.translation,
            spec_scaled(sprites.enemy, enemy.transform.scale),
        )
    }

    /// Decides [`Laser::spec_hits_enemy`].
    pub fn hits_enemy(&self, enemy: &Enemy, sprites: &SpriteInfos) -> (hit: bool)
        requires
            self.wf(),
            enemy.wf(),
            sprites.wf(),
        ensures
            hit == self.spec_hits_enemy(*enemy, *sprites),
    {
        let size = self.extent(sprites);
        let enemy_size = scaled(&sprites.enemy, &enemy.transform.scale);
        collide(&self.transform.translation, &size, &enemy.transform.translation, &enemy_size)
    }

    /// Whether the projectile's box overlaps that of `player`.
    pub open spec fn spec_hits_player(self, player: Player, sprites: SpriteInfos) -> bool {
        spec_collide(
            self.transform.translation,
            self.spec_extent(sprites),
            player.transform.translation,
            spec_scaled(sprites.player, player.transform.scale),
        )
    }

    /// Whether the projectile is an enemy's and its box overlaps that of
    /// `player`.
    pub open spec fn spec_strikes(self, player: Player, sprites: SpriteInfos) -> bool {
        self.faction == Faction::FromEnemy && self.spec_hits_player(player, sprites)
    }

    /// Decides [`Laser::spec_strikes`].
    pub fn strikes(&self, player: &Player, sprites: &SpriteInfos) -> (hit: bool)
        requires
            self.wf(),
            player.wf(),
            sprites.wf(),
        ensures
            hit == self.spec_strikes(*player, *sprites),
    {
        match self.faction {
            Faction::FromEnemy => self.hits_player(player, sprites),
            Faction::FromPlayer => false,
        }
    }

    /// Decides [`Laser::spec_hits_player`].
    pub fn hits_player(&self, player: &Player, sprites: &SpriteInfos) -> (hit: bool)
        requires
            self.wf(),
            player.wf(),
            sprites.wf(),
        ensures
            hit == self.spec_hits_player(*player, *sprites),
    {
        let size = self.extent(sprites);
        let player_size = scaled(&sprites.player, &player.transform.scale);
        collide(&self.transform.translation, &size, &player.transform.translation, &player_size)
    }
}

impl WorldView {
    /// Whether the `j`-th projectile is the player's and overlaps `enemy`.
    pub open spec fn spec_blasts(self, j: int, enemy: Enemy) -> bool {
        self.lasers[j].faction == Faction::FromPlayer && self.lasers[j].spec_hits_enemy(
            enemy,
            self.sprite_infos,
        )
    }

    /// Whether one of the first `upto` projectiles is the player's and
    /// overlaps `enemy`.
    pub open spec fn spec_is_blasted_by(self, enemy: Enemy, upto: int) -> bool {
        exists|j: int| 0 <= j < upto && #[trigger] self.spec_blasts(j, enemy)
    }

    /// Whether some projectile of the player overlaps `enemy`.
    pub open spec fn spec_is_blasted(self, enemy: Enemy) -> bool {
        self.spec_is_blasted_by(enemy, self.lasers.len() as int)
    }

    /// Whether `laser` is the player's and overlaps one of the first `upto`
    /// enemies.
    pub open spec fn spec_is_spent_on(self, laser: Laser, upto: int) -> bool {
        laser.faction == Faction::FromPlayer && exists|i: int|
            0 <= i < upto && #[trigger] laser.spec_hits_enemy(self.enemies[i], self.sprite_infos)
    }

    /// Whether `laser` is the player's and overlaps some enemy.
    pub open spec fn spec_is_spent(self, laser: Laser) -> bool {
        self.spec_is_spent_on(laser, self.enemies.len() as int)
    }

    /// The enemies that some projectile of the player overlaps, in their
    /// order.
    pub open spec fn spec_blasted_enemies(self) -> Seq<Enemy> {
        self.enemies.filter(|e: Enemy| self.spec_is_blasted(e))
    }

    /// The world after the player's projectiles have been held against the
    /// enemies. Every enemy that some projectile of the player overlaps is
    /// gone, however many overlap it; the counter has gone down by the
    /// number of those enemies; each has left a request for an explosion
    /// where it was, in the order of the enemies. Every projectile of the
    /// player that overlaps some enemy is gone, and one projectile may take
    /// several enemies with it. The rest keep their order.
    pub open spec fn spec_player_laser_hit_enemy(self) -> WorldView {
        WorldView {
            active_enemies: ActiveEnemies(
                (self.active_enemies.0 - self.spec_blasted_enemies().len()) as u32,
            ),
            enemies: self.enemies.filter(|e: Enemy| !self.spec_is_blasted(e)),
            lasers: self.lasers.filter(|l: Laser| !self.spec_is_spent(l)),
            explosions_to_spawn: self.explosions_to_spawn + self.spec_blasted_enemies().map_values(
                |e: Enemy| ExplosionToSpawn(e.transform.translation),
            ),
            ..self
        }
    }

    /// Whether one of the first `upto` projectiles is an enemy's and
    /// overlaps `player`.
    pub open spec fn spec_is_struck_by(self, player: Player, upto: int) -> bool {
        exists|j: int|
            0 <= j < upto && (#[trigger] self.lasers[j]).spec_strikes(player, self.sprite_infos)
    }

    /// Whether some projectile of an enemy overlaps `player`.
    pub open spec fn spec_is_struck(self, player: Player) -> bool {
        self.spec_is_struck_by(player, self.lasers.len() as int)
    }

    /// The world after the enemies' projectiles have been held against the
    /// player at time `now`. If there is a player and some projectile of an
    /// enemy overlaps it, every such projectile and the player are gone,
    /// the player is recorded as shot down at `now`, and one request for
    /// an explosion is left where it was, however many projectiles
    /// overlapped it. The other projectiles keep their order. Otherwise
    /// nothing changes.
    pub open spec fn spec_enemy_laser_hit_player(self, now: u64) -> WorldView {
        match self.player {
            Some(p) => {
                if self.spec_is_struck(p) {
                    WorldView {
                        lasers: self.lasers.filter(
                            |l: Laser| !l.spec_strikes(p, self.sprite_infos),
                        ),
                        player: None,
                        player_state: PlayerState { on: false, last_shot: now },
                        explosions_to_spawn: self.explosions_to_spawn.push(
                            ExplosionToSpawn(p.transform.translation),
                        ),
                        ..self
                    }
                } else {
                    self
                }
            },
            None => self,
        }
    }

    /// A hit on the player takes every projectile that hit it and no
    /// other: after the enemies' projectiles have been held against a
    /// player that some of them overlap, none that is left is an enemy's
    /// and overlaps where the player was, and every projectile that is the
    /// player's or does not overlap it is still there.
    pub proof fn lemma_player_hit_takes_what_hit_it(self, now: u64)
        requires
            self.player matches Some(p) && self.spec_is_struck(p),
        ensures
            ({
                let p = self.player->0;
                let after = self.spec_enemy_laser_hit_player(now);
                &&& after.player is None
                &&& after.player_state == (PlayerState { on: false, last_shot: now })
                &&& after.explosions_to_spawn.len() == self.explosions_to_spawn.len() + 1
                &&& forall|k: int|
                    0 <= k < after.lasers.len() ==> !(#[trigger] after.lasers[k]).spec_strikes(
                        p,
                        self.sprite_infos,
                    )
                &&& forall|k: int|
                    0 <= k < self.lasers.len() && !(#[trigger] self.lasers[k]).spec_strikes(
                        p,
                        self.sprite_infos,
                    ) ==> after.lasers.contains(self.lasers[k])
            }),
    {
        let p = self.player->0;
        let missed = |l: Laser| !l.spec_strikes(p, self.sprite_infos);
        let after = self.spec_enemy_laser_hit_player(now);
        assert forall|k: int| 0 <= k < after.lasers.len() implies !(
        #[trigger] after.lasers[k]).spec_strikes(p, self.sprite_infos) by {
            self.lasers.lemma_filter_pred(missed, k);
        }
        assert forall|k: int|
            0 <= k < self.lasers.len() && !(#[trigger] self.lasers[k]).spec_strikes(
                p,
                self.sprite_infos,
            ) implies after.lasers.contains(self.lasers[k]) by {
            self.lasers.lemma_filter_contains(missed, k);
        }
    }
}

/// Two predicates that agree on every element of a sequence keep the same
/// elements of it.
proof fn lemma_filter_agrees<A>(s: Seq<A>, p: spec_fn(A) -> bool, q: spec_fn(A) -> bool)
    requires
        forall|i: int| 0 <= i < s.len() ==> p(#[trigger] s[i]) == q(s[i]),
    ensures
        s.filter(p) == s.filter(q),
    decreases s.len(),
{
    reveal(Seq::filter);
    if s.len() > 0 {
        lemma_filter_agrees(s.drop_last(), p, q);
    }
}

/// What a predicate keeps of a sequence and what its negation keeps make up
/// the sequence.
proof fn lemma_filter_splits<A>(s: Seq<A>, p: spec_fn(A) -> bool, q: spec_fn(A) -> bool)
    requires
        forall|a: A| #[trigger] q(a) == !p(a),
    ensures
        s.filter(p).len() + s.filter(q).len() == s.len(),
    decreases s.len(),
{
    reveal(Seq::filter);
    if s.len() > 0 {
        lemma_filter_splits(s.drop_last(), p, q);
    }
}

impl WorldView {
    /// An enemy that is hit counts once. The enemies that go and those that
    /// stay make up the enemies there were; the counter goes down by
    /// exactly the number that go, and so does not depend on how many
    /// projectiles overlap each; and each of them leaves exactly one
    /// request for an explosion.
    pub proof fn lemma_hit_enemy_counts_once(self)
        ensures
            self.spec_player_laser_hit_enemy().enemies.len() + self.spec_blasted_enemies().len()
                == self.enemies.len(),
            self.spec_player_laser_hit_enemy().active_enemies.0 == (self.active_enemies.0
                - self.spec_blasted_enemies().len()) as u32,
            self.spec_player_laser_hit_enemy().explosions_to_spawn.len()
                == self.explosions_to_spawn.len() + self.spec_blasted_enemies().len(),
            self.active_enemies.0 == self.enemies.len()
                ==> self.spec_player_laser_hit_enemy().active_enemies.0
                == self.spec_player_laser_hit_enemy().enemies.len(),
    {
        lemma_filter_splits(
            self.enemies,
            |e: Enemy| self.spec_is_blasted(e),
            |e: Enemy| !self.spec_is_blasted(e),
        );
    }

    /// A further projectile on enemies that are hit already makes no
    /// difference to the enemies: if every enemy that `laser` overlaps is
    /// overlapped by some projectile of the player anyway, then with
    /// `laser` added the same enemies go, the counter goes down by as much,
    /// and the same requests for explosions are left.
    pub proof fn lemma_second_hit_changes_nothing(self, laser: Laser)
        requires
            laser.faction == Faction::FromPlayer,
            forall|i: int|
                0 <= i < self.enemies.len() && laser.spec_hits_enemy(
                    #[trigger] self.enemies[i],
                    self.sprite_infos,
                ) ==> self.spec_is_blasted(self.enemies[i]),
        ensures
            ({
                let with = WorldView { lasers: self.lasers.push(laser), ..self };
                &&& with.spec_player_laser_hit_enemy().enemies
                    == self.spec_player_laser_hit_enemy().enemies
                &&& with.spec_player_laser_hit_enemy().active_enemies
                    == self.spec_player_laser_hit_enemy().active_enemies
                &&& with.spec_player_laser_hit_enemy().explosions_to_spawn
                    == self.spec_player_laser_hit_enemy().explosions_to_spawn
            }),
    {
        let with = WorldView { lasers: self.lasers.push(laser), ..self };
        assert forall|i: int| 0 <= i < self.enemies.len() implies with.spec_is_blasted(
            #[trigger] self.enemies[i],
        ) == self.spec_is_blasted(self.enemies[i]) by {
            let e = self.enemies[i];
            if with.spec_is_blasted(e) {
                let j = choose|j: int| 0 <= j < with.lasers.len() && #[trigger] with.spec_blasts(j, e);
                if j < self.lasers.len() {
                    assert(self.spec_blasts(j, e));
                }
            }
            if self.spec_is_blasted(e) {
                let j = choose|j: int| 0 <= j < self.lasers.len() && #[trigger] self.spec_blasts(j, e);
                assert(with.spec_blasts(j, e));
            }
        }
        lemma_filter_agrees(
            self.enemies,
            |e: Enemy| with.spec_is_blasted(e),
            |e: Enemy| self.spec_is_blasted(e),
        );
        lemma_filter_agrees(
            self.enemies,
            |e: Enemy| !with.spec_is_blasted(e),
            |e: Enemy| !self.spec_is_blasted(e),
        );
    }
}

/// Holds the player's projectiles against the enemies and removes what is
/// hit: see [`WorldView::spec_player_laser_hit_enemy`]. A set of the enemies
/// already found hit, kept for this one pass, sees to it that an enemy
/// under several projectiles is marked once.
pub fn player_laser_hit_enemy(world: &mut World)
    requires
        old(world).wf(),
    ensures
        final(world)@ == old(world)@.spec_player_laser_hit_enemy(),
        final(world).wf(),
        final(world).active_enemies.0 == final(world).enemies@.len(),
{
    let ghost pre = world@;
    let ghost blasted = |e: Enemy| pre.spec_is_blasted(e);
    let ghost spared = |e: Enemy| !pre.spec_is_blasted(e);
    let ghost unspent = |l: Laser| !pre.spec_is_spent(l);
    let ghost request = |e: Enemy| ExplosionToSpawn(e.transform.translation);
    let mut enemies_blasted: HashSet<usize> = HashSet::new();
    let mut lasers_left: Vec<Laser> = Vec::new();
    let mut at: usize = 0;
    while at < world.lasers.len()
        invariant
            world@ == pre,
            pre.wf(),
            at <= pre.lasers.len(),
            unspent == |l: Laser| !pre.spec_is_spent(l),
            forall|i: int|
                0 <= i < pre.enemies.len() ==> (enemies_blasted@.contains(i as usize)
                    <==> pre.spec_is_blasted_by(#[trigger] pre.enemies[i], at as int)),
            lasers_left@ == pre.lasers.take(at as int).filter(unspent),
            forall|k: int| 0 <= k < lasers_left@.len() ==> (#[trigger] lasers_left@[k]).wf(),
        decreases pre.lasers.len() - at,
    {
        let laser = world.lasers[at];
        let mut spent = false;
        if let Faction::FromPlayer = laser.faction {
            let mut i: usize = 0;
            while i < world.enemies.len()
                invariant
                    world@ == pre,
                    pre.wf(),
                    at < pre.lasers.len(),
                    laser == pre.lasers[at as int],
                    laser.wf(),
                    laser.faction == Faction::FromPlayer,
                    i <= pre.enemies.len(),
                    forall|k: int|
                        0 <= k < pre.enemies.len() ==> (enemies_blasted@.contains(k as usize)
                            <==> pre.spec_is_blasted_by(#[trigger] pre.enemies[k], at as int) || (k
                            < i && laser.spec_hits_enemy(pre.enemies[k], pre.sprite_infos))),
                    spent == pre.spec_is_spent_on(laser, i as int),
                decreases pre.enemies.len() - i,
            {
                if laser.hits_enemy(&world.enemies[i], &world.sprite_infos) {
                    if !enemies_blasted.contains(&i) {
                        enemies_blasted.insert(i);
                    }
                    spent = true;
                }
                i += 1;
            }
        }
        proof {
            assert forall|k: int| 0 <= k < pre.enemies.len() implies (enemies_blasted@.contains(
                k as usize,
            ) <==> pre.spec_is_blasted_by(#[trigger] pre.enemies[k], at + 1)) by {
                let e = pre.enemies[k];
                if enemies_blasted@.contains(k as usize) && !pre.spec_is_blasted_by(e, at as int) {
                    assert(pre.spec_blasts(at as int, e));
                }
            }
            let before = pre.lasers.take(at as int);
            assert(pre.lasers.take(at + 1) =~= before.push(laser));
            before.lemma_filter_push(laser, unspent);
        }
        if !spent {
            lasers_left.push(laser);
        }
        at += 1;
    }
    assert(pre.lasers.take(pre.lasers.len() as int) =~= pre.lasers);
    let mut survivors: Vec<Enemy> = Vec::new();
    let mut i: usize = 0;
    while i < world.enemies.len()
        invariant
            pre.wf(),
            i <= pre.enemies.len(),
            blasted == |e: Enemy| pre.spec_is_blasted(e),
            spared == |e: Enemy| !pre.spec_is_blasted(e),
            request == |e: Enemy| ExplosionToSpawn(e.transform.translation),
            forall|k: int|
                0 <= k < pre.enemies.len() ==> (enemies_blasted@.contains(k as usize)
                    <==> pre.spec_is_blasted(#[trigger] pre.enemies[k])),
            world@ == (WorldView {
                active_enemies: world.active_enemies,
                explosions_to_spawn: world.explosions_to_spawn@,
                ..pre
            }),
            survivors@ == pre.enemies.take(i as int).filter(spared),
            world.explosions_to_spawn@ == pre.explosions_to_spawn + pre.enemies.take(
                i as int,
            ).filter(blasted).map_values(request),
            world.active_enemies.0 == pre.active_enemies.0 - pre.enemies.take(i as int).filter(
                blasted,
            ).len(),
            survivors@.len() + pre.enemies.take(i as int).filter(blasted).len() == i,
            forall|k: int| 0 <= k < survivors@.len() ==> (#[trigger] survivors@[k]).wf(),
        decreases pre.enemies.len() - i,
    {
        let enemy = world.enemies[i];
        proof {
            let before = pre.enemies.take(i as int);
            assert(pre.enemies.take(i + 1) =~= before.push(enemy));
            before.lemma_filter_push(enemy, blasted);
            before.lemma_filter_push(enemy, spared);
        }
        if enemies_blasted.contains(&i) {
            world.active_enemies.0 -= 1;
            world.explosions_to_spawn.push(ExplosionToSpawn(enemy.transform.translation));
        } else {
            survivors.push(enemy);
        }
        i += 1;
    }
    assert(pre.enemies.take(pre.enemies.len() as int) =~= pre.enemies);
    world.enemies = survivors;
    world.lasers = lasers_left;
}

/// Holds the enemies' projectiles against the player at time `now`: see
/// [`WorldView::spec_enemy_laser_hit_player`].
pub fn enemy_laser_hit_player(world: &mut World, now: u64)
    requires
        old(world).wf(),
    ensures
        final(world)@ == old(world)@.spec_enemy_laser_hit_player(now),
        final(world).wf(),
{
    let ghost pre = world@;
    match world.player {
        Some(player) => {
            let ghost missed = |l: Laser| !l.spec_strikes(player, pre.sprite_infos);
            let mut lasers_left: Vec<Laser> = Vec::new();
            let mut struck = false;
            let mut j: usize = 0;
            while j < world.lasers.len()
                invariant
                    world@ == pre,
                    pre.wf(),
                    pre.player == Some(player),
                    j <= pre.lasers.len(),
                    missed == |l: Laser| !l.spec_strikes(player, pre.sprite_infos),
                    struck == pre.spec_is_struck_by(player, j as int),
                    lasers_left@ == pre.lasers.take(j as int).filter(missed),
                    forall|k: int|
                        0 <= k < lasers_left@.len() ==> (#[trigger] lasers_left@[k]).wf(),
                decreases pre.lasers.len() - j,
            {
                let laser = world.lasers[j];
                let strikes = laser.strikes(&player, &world.sprite_infos);
                proof {
                    let before = pre.lasers.take(j as int);
                    assert(pre.lasers.take(j + 1) =~= before.push(laser));
                    before.lemma_filter_push(laser, missed);
                    if strikes {
                        assert(pre.lasers[j as int].spec_strikes(player, pre.sprite_infos));
                    }
                }
                if strikes {
                    struck = true;
                } else {
                    lasers_left.push(laser);
                }
                j += 1;
            }
            assert(pre.lasers.take(pre.lasers.len() as int) =~= pre.lasers);
            if struck {
                world.lasers = lasers_left;
                world.player = None;
                world.player_state.shot(now);
                world.explosions_to_spawn.push(ExplosionToSpawn(player.transform.translation));
            }
        },
        None => {},
    }
}

} // verus!
