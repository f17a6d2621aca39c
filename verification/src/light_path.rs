use vstd::prelude::*;

use crate::color::LightColor;
use crate::merge_tile::GridCoords;
use crate::platform::trunc_div;

verus! {

/// A light beam may cast at most this many segments.
pub const LIGHT_MAX_SEGMENTS: usize = 15;

/// A beam of `color` that has cast `cast` segments, `mirror_hits` of them ending on a mirror, may
/// cast another.
pub open spec fn spec_may_cast(color: LightColor, cast: int, mirror_hits: int) -> bool {
    cast < color.spec_num_bounces() + 1 + mirror_hits && cast < LIGHT_MAX_SEGMENTS
}

/// Whether a beam of `color` that has cast `cast` segments, `mirror_hits` of which ended on a
/// mirror, may cast another one: each mirror grants one extra bounce, up to the segment limit.
pub fn may_cast_segment(color: LightColor, cast: usize, mirror_hits: usize) -> (b: bool)
    ensures
        b == spec_may_cast(color, cast as int, mirror_hits as int),
{
    if cast >= LIGHT_MAX_SEGMENTS {
        return false;
    }
    let bounces = color.num_bounces();
    cast < bounces + 1 || cast - (bounces + 1) < mirror_hits
}

/// Where a light beam hit an entity; `data` carries the point and the travel time of the hit.
#[derive(Clone, Copy, Debug)]
pub struct BeamHit<T> {
    pub entity: u64,
    pub data: T,
}

/// Both playbacks have a hit at index `i`, on the same entity.
pub open spec fn same_hit_at<T>(prev: Seq<BeamHit<T>>, new: Seq<BeamHit<T>>, i: int) -> bool {
    0 <= i < prev.len() && i < new.len() && prev[i].entity == new[i].entity
}

/// The first index at which the two playbacks differ: a different entity, or one of them has
/// ended and the other has not.
pub open spec fn is_divergence<T>(prev: Seq<BeamHit<T>>, new: Seq<BeamHit<T>>, i: int) -> bool {
    &&& 0 <= i
    &&& i <= prev.len()
    &&& i <= new.len()
    &&& (i < prev.len() || i < new.len())
    &&& !same_hit_at(prev, new, i)
    &&& forall|k: int| 0 <= k < i ==> #[trigger] same_hit_at(prev, new, k)
}

/// The entities of `hits` from index `from` on.
pub open spec fn hit_entities<T>(hits: Seq<BeamHit<T>>, from: int) -> Seq<u64> {
    hits.subrange(from, hits.len() as int).map_values(|h: BeamHit<T>| h.entity)
}

/// What changed at the first index where a beam's new playback differs from the recorded one.
#[derive(Clone, Debug, PartialEq, Eq)]
pub struct HitChange {
    /// The index of the first differing hit.
    pub index: usize,
    /// The recorded hit at `index` was dropped, with every recorded hit after it.
    pub removed: bool,
    /// The entities that are no longer hit, in path order.
    pub unhit: Vec<u64>,
    /// The entity newly hit at `index`, recorded in place of the dropped ones.
    pub hit: Option<u64>,
    /// A bounce sound plays: the beam reached a new hit where nothing was recorded.
    pub sound: bool,
    /// Which of the three bounce sounds plays.
    pub sound_slot: usize,
}

/// Updates the recorded hits of a light beam from the hits of its latest playback.
///
/// Matching hits (same entity at the same index) are refreshed. At the first index where the two
/// differ, the recorded hits from there on are dropped (when there are any), and the new hit is
/// recorded when nothing was recorded there or when it is closer than the recorded one; the
/// update stops there. `closer[k]` says whether the new hit `k` is closer than the recorded hit
/// `k`. Gives `None` when the playbacks agree throughout.
pub fn update_hits<T: Copy>(
    prev: &mut Vec<BeamHit<T>>,
    new: &Vec<BeamHit<T>>,
    closer: &Vec<bool>,
) -> (change: Option<HitChange>)
    requires
        closer.len() >= old(prev).len() || closer.len() >= new.len(),
    ensures
        final(prev).len() <= new.len(),
        final(prev)@ == new@.subrange(0, final(prev).len() as int),
        match change {
            None => {
                &&& old(prev).len() == new.len()
                &&& forall|k: int| 0 <= k < new.len() ==> #[trigger] same_hit_at(old(prev)@, new@, k)
                &&& final(prev)@ == new@
            },
            Some(ch) => {
                let i = ch.index as int;
                let had = i < old(prev).len();
                let add = !had || (i < new.len() && closer@[i]);
                &&& is_divergence(old(prev)@, new@, i)
                &&& ch.removed == had
                &&& ch.unhit@ == (if had { hit_entities(old(prev)@, i) } else { Seq::empty() })
                &&& ch.hit == (if add { Some(new@[i].entity) } else { None })
                &&& final(prev)@ == (if add { new@.subrange(0, i + 1) } else { new@.subrange(0, i) })
                &&& ch.sound == !had
                &&& ch.sound_slot == (if i < 2 { i } else { 2 })
            },
        },
{
    let ghost p0 = prev@;
    let mut i: usize = 0;
    loop
        invariant
            p0 == old(prev)@,
            closer.len() >= p0.len() || closer.len() >= new.len(),
            prev@.len() == p0.len(),
            0 <= i <= p0.len(),
            i <= new.len(),
            forall|k: int| 0 <= k < i ==> #[trigger] same_hit_at(p0, new@, k),
            forall|k: int| 0 <= k < i ==> prev@[k] == new@[k],
            forall|k: int| i <= k < p0.len() ==> prev@[k] == p0[k],
        decreases p0.len() - i,
    {
        if i >= prev.len() && i >= new.len() {
            assert(prev@ =~= new@);
            return None;
        }
        let same = i < prev.len() && i < new.len() && prev[i].entity == new[i].entity;
        if !same {
            let had = i < prev.len();
            let has_new = i < new.len();
            let is_closer = if !had { true } else if !has_new { false } else { closer[i] };
            let add = !had || is_closer;
            let mut unhit: Vec<u64> = Vec::new();
            if had {
                let mut j: usize = i;
                while j < prev.len()
                    invariant
                        prev@.len() == p0.len(),
                        i <= j <= p0.len(),
                        forall|k: int| i <= k < p0.len() ==> prev@[k] == p0[k],
                        unhit@ == p0.subrange(i as int, j as int).map_values(|h: BeamHit<T>| h.entity),
                    decreases p0.len() - j,
                {
                    unhit.push(prev[j].entity);
                    proof {
                        assert(p0.subrange(i as int, j + 1).map_values(|h: BeamHit<T>| h.entity)
                            =~= p0.subrange(i as int, j as int).map_values(|h: BeamHit<T>| h.entity).push(p0[j as int].entity));
                    }
                    j += 1;
                }
                prev.truncate(i);
            }
            let ghost kept = prev@;
            let mut hit: Option<u64> = None;
            if add {
                let h = new[i];
                prev.push(h);
                hit = Some(h.entity);
            }
            proof {
                assert(kept =~= new@.subrange(0, i as int));
                if add {
                    assert(prev@ =~= new@.subrange(0, i + 1));
                }
            }
            let sound_slot = if i < 2 { i } else { 2 };
            return Some(HitChange { index: i, removed: had, unhit, hit, sound: !had, sound_slot });
        }
        // same entity: refresh the recorded hit, it may sit on a moving platform
        let h = new[i];
        prev.set(i, h);
        i += 1;
    }
}

/// The most segment entities kept for one beam color.
pub const MAX_CACHED_SEGMENTS: usize = 10;

/// How many more segment entities a beam color needs, in integers.
pub open spec fn spec_segments_needed(cached: int, points: int) -> int {
    let wanted = if points - 1 < MAX_CACHED_SEGMENTS { points - 1 } else { MAX_CACHED_SEGMENTS as int };
    if cached >= wanted { 0 } else { wanted - cached }
}

/// How many more segment entities a beam color needs: enough for the segments between its
/// `points` path points, up to the cache's limit, beyond the `cached` ones it has.
pub fn segments_needed(cached: usize, points: usize) -> (n: usize)
    requires
        points >= 1,
    ensures
        n == spec_segments_needed(cached as int, points as int),
{
    let wanted = if points - 1 < MAX_CACHED_SEGMENTS { points - 1 } else { MAX_CACHED_SEGMENTS };
    if cached >= wanted {
        0
    } else {
        wanted - cached
    }
}

/// The grid cell a level's light source shoots from: its own cell, moved down to the bottom row
/// of an entity `height` pixels tall, in blocks of eight pixels.
pub fn beam_source_cell(grid: GridCoords, height: i32) -> (cell: GridCoords)
    requires
        i32::MIN + 1 <= grid.y + trunc_div(height as int, 8) <= i32::MAX,
    ensures
        cell == (GridCoords { x: grid.x, y: (grid.y + trunc_div(height as int, 8) - 1) as i32 }),
{
    GridCoords { x: grid.x, y: grid.y + height.checked_div(8).unwrap() - 1 }
}

/// The physics layers of the game's bodies.
#[derive(Clone, Copy, Debug, PartialEq, Eq, Structural)]
pub enum Layer {
    Default,
    PlayerCollider,
    PlayerHurtbox,
    LightRay,
    WhiteRay,
    BlueRay,
    DangerBox,
    Spike,
    Terrain,
    Platform,
    BlueCrystal,
    LightSensor,
    SensorBox,
}

/// The layer a beam of `color` belongs to.
pub open spec fn spec_beam_layer(color: LightColor) -> Layer {
    match color {
        LightColor::White => Layer::WhiteRay,
        LightColor::Blue => Layer::BlueRay,
        _ => Layer::LightRay,
    }
}

/// The layers a beam of `color` stops at: terrain, sensors, spikes and platforms for every beam;
/// white beams for all but white ones; blue crystals for all but blue ones.
pub open spec fn spec_beam_stops_at(color: LightColor, layer: Layer) -> bool {
    match layer {
        Layer::Terrain | Layer::LightSensor | Layer::Spike | Layer::Platform => true,
        Layer::WhiteRay => color != LightColor::White,
        Layer::BlueCrystal => color != LightColor::Blue,
        _ => false,
    }
}

/// The layer a beam of `color` belongs to.
pub fn beam_layer(color: LightColor) -> (l: Layer)
    ensures
        l == spec_beam_layer(color),
{
    match color {
        LightColor::White => Layer::WhiteRay,
        LightColor::Blue => Layer::BlueRay,
        _ => Layer::LightRay,
    }
}

/// Whether a beam of `color` stops at a body of `layer`.
pub fn beam_stops_at(color: LightColor, layer: Layer) -> (b: bool)
    ensures
        b == spec_beam_stops_at(color, layer),
{
    match layer {
        Layer::Terrain | Layer::LightSensor | Layer::Spike | Layer::Platform => true,
        Layer::WhiteRay => color != LightColor::White,
        Layer::BlueCrystal => color != LightColor::Blue,
        _ => false,
    }
}

/// A drawn segment of a beam, as the segment cache keys it: the beam's color and the segment's
/// place along the beam.
#[derive(Clone, Copy, Debug, PartialEq, Eq, Structural)]
pub struct SegmentKey {
    pub color: LightColor,
    pub index: usize,
}

/// What to do with the segment entities in one frame.
#[derive(Clone, Debug)]
pub struct SegmentPlan {
    /// Segments drawn that have no entity yet: spawn one, in drawing order.
    pub spawn: Vec<SegmentKey>,
    /// Segments with an entity whose placement changed: move it, in drawing order.
    pub update: Vec<SegmentKey>,
    /// Cached segments that are no longer drawn: despawn them, in cache order.
    pub despawn: Vec<SegmentKey>,
}

/// The keys of the drawn segments.
pub open spec fn keys_of(drawn: Seq<(SegmentKey, bool)>) -> Seq<SegmentKey> {
    drawn.map_values(|d: (SegmentKey, bool)| d.0)
}

/// Drawn segment `i` already has an entity when it is reached: it was cached, or drawn before.
pub open spec fn has_entity(cached: Seq<SegmentKey>, drawn: Seq<(SegmentKey, bool)>, i: int) -> bool {
    cached.contains(drawn[i].0) || keys_of(drawn).take(i).contains(drawn[i].0)
}

/// The segments among the first `n` drawn ones that get a new entity.
pub open spec fn spawned(cached: Seq<SegmentKey>, drawn: Seq<(SegmentKey, bool)>, n: int) -> Seq<SegmentKey>
    decreases n,
{
    if n <= 0 {
        Seq::empty()
    } else if has_entity(cached, drawn, n - 1) {
        spawned(cached, drawn, n - 1)
    } else {
        spawned(cached, drawn, n - 1).push(drawn[n - 1].0)
    }
}

/// The segments among the first `n` drawn ones whose entity is moved: those with an entity whose
/// placement changed.
pub open spec fn updated(cached: Seq<SegmentKey>, drawn: Seq<(SegmentKey, bool)>, n: int) -> Seq<SegmentKey>
    decreases n,
{
    if n <= 0 {
        Seq::empty()
    } else if has_entity(cached, drawn, n - 1) && drawn[n - 1].1 {
        updated(cached, drawn, n - 1).push(drawn[n - 1].0)
    } else {
        updated(cached, drawn, n - 1)
    }
}

/// The first `n` cached segments that are not drawn any more.
pub open spec fn stale(cached: Seq<SegmentKey>, drawn: Seq<(SegmentKey, bool)>, n: int) -> Seq<SegmentKey>
    decreases n,
{
    if n <= 0 {
        Seq::empty()
    } else if keys_of(drawn).contains(cached[n - 1]) {
        stale(cached, drawn, n - 1)
    } else {
        stale(cached, drawn, n - 1).push(cached[n - 1])
    }
}

/// Whether `keys` holds `k`.
fn holds_key(keys: &Vec<SegmentKey>, k: SegmentKey) -> (b: bool)
    ensures
        b == keys@.contains(k),
{
    let mut i: usize = 0;
    while i < keys.len()
        invariant
            0 <= i <= keys.len(),
            forall|j: int| 0 <= j < i ==> keys@[j] != k,
        decreases keys.len() - i,
    {
        if keys[i] == k {
            assert(keys@[i as int] == k);
            return true;
        }
        i = i + 1;
    }
    false
}

/// Plans the segment entities of a frame. `cached` lists the segments that have an entity;
/// `drawn` lists the segments the beams draw this frame, in drawing order, each with whether its
/// placement differs from the one its entity holds when it is reached. A drawn segment without an
/// entity gets one; one with an entity is moved only when its placement changed; cached segments
/// no beam draws any more are despawned.
pub fn plan_segments(cached: &Vec<SegmentKey>, drawn: &Vec<(SegmentKey, bool)>) -> (plan: SegmentPlan)
    ensures
        plan.spawn@ == spawned(cached@, drawn@, drawn.len() as int),
        plan.update@ == updated(cached@, drawn@, drawn.len() as int),
        plan.despawn@ == stale(cached@, drawn@, cached.len() as int),
{
    let mut seen: Vec<SegmentKey> = Vec::new();
    let mut spawn: Vec<SegmentKey> = Vec::new();
    let mut update: Vec<SegmentKey> = Vec::new();
    let mut i: usize = 0;
    while i < drawn.len()
        invariant
            0 <= i <= drawn.len(),
            seen@ == keys_of(drawn@).take(i as int),
            spawn@ == spawned(cached@, drawn@, i as int),
            update@ == updated(cached@, drawn@, i as int),
        decreases drawn.len() - i,
    {
        let (key, changed) = drawn[i];
        let known = holds_key(cached, key) || holds_key(&seen, key);
        assert(known == has_entity(cached@, drawn@, i as int));
        if !known {
            spawn.push(key);
        } else if changed {
            update.push(key);
        }
        seen.push(key);
        assert(seen@ =~= keys_of(drawn@).take(i + 1));
        i = i + 1;
    }
    assert(seen@ =~= keys_of(drawn@));
    let mut despawn: Vec<SegmentKey> = Vec::new();
    let mut j: usize = 0;
    while j < cached.len()
        invariant
            0 <= j <= cached.len(),
            seen@ == keys_of(drawn@),
            despawn@ == stale(cached@, drawn@, j as int),
        decreases cached.len() - j,
    {
        if !holds_key(&seen, cached[j]) {
            despawn.push(cached[j]);
        }
        j = j + 1;
    }
    SegmentPlan { spawn, update, despawn }
}

proof fn lemma_spawned_props(cached: Seq<SegmentKey>, drawn: Seq<(SegmentKey, bool)>, n: int)
    requires
        0 <= n <= drawn.len(),
    ensures
        forall|k: SegmentKey| #[trigger] spawned(cached, drawn, n).contains(k) ==> !cached.contains(k)
            && keys_of(drawn).take(n).contains(k),
        spawned(cached, drawn, n).no_duplicates(),
    decreases n,
{
    if n > 0 {
        lemma_spawned_props(cached, drawn, n - 1);
        let prev = spawned(cached, drawn, n - 1);
        let k = drawn[n - 1].0;
        assert(keys_of(drawn).take(n) =~= keys_of(drawn).take(n - 1).push(k));
        assert forall|x: SegmentKey| #[trigger] spawned(cached, drawn, n).contains(x) implies !cached.contains(x)
            && keys_of(drawn).take(n).contains(x) by {
            if prev.contains(x) {
                let j = choose|j: int| 0 <= j < n - 1 && #[trigger] keys_of(drawn).take(n - 1)[j] == x;
                assert(keys_of(drawn).take(n)[j] == x);
            } else {
                assert(keys_of(drawn).take(n)[n - 1] == x);
            }
        }
        if !has_entity(cached, drawn, n - 1) {
            assert forall|a: int, b: int| 0 <= a < b < prev.len() + 1 implies prev.push(k)[a] != prev.push(k)[b] by {
                if b == prev.len() {
                    assert(prev.contains(prev[a]));
                }
            }
        }
    }
}

proof fn lemma_stale_props(cached: Seq<SegmentKey>, drawn: Seq<(SegmentKey, bool)>, n: int)
    requires
        0 <= n <= cached.len(),
    ensures
        forall|k: SegmentKey| #[trigger] stale(cached, drawn, n).contains(k) ==> cached.contains(k)
            && !keys_of(drawn).contains(k),
    decreases n,
{
    if n > 0 {
        lemma_stale_props(cached, drawn, n - 1);
        assert forall|x: SegmentKey| #[trigger] stale(cached, drawn, n).contains(x) implies cached.contains(x)
            && !keys_of(drawn).contains(x) by {
            if !stale(cached, drawn, n - 1).contains(x) {
                assert(x == cached[n - 1]);
            }
        }
    }
}

/// The segment cache spawns an entity only for a drawn segment it does not hold, never twice for
/// one segment, and despawns only cached segments that no beam draws any more.
pub proof fn lemma_segment_plan_sound(cached: Seq<SegmentKey>, drawn: Seq<(SegmentKey, bool)>)
    ensures
        forall|k: SegmentKey| #[trigger] spawned(cached, drawn, drawn.len() as int).contains(k)
            ==> !cached.contains(k) && keys_of(drawn).contains(k),
        spawned(cached, drawn, drawn.len() as int).no_duplicates(),
        forall|k: SegmentKey| #[trigger] stale(cached, drawn, cached.len() as int).contains(k)
            ==> cached.contains(k) && !keys_of(drawn).contains(k),
{
    lemma_spawned_props(cached, drawn, drawn.len() as int);
    lemma_stale_props(cached, drawn, cached.len() as int);
    assert(keys_of(drawn).take(drawn.len() as int) =~= keys_of(drawn));
}

/// Every beam, whatever its color, is stopped by terrain, light sensors, spikes and platforms, so
/// every color can hit a sensor; and no beam is stopped by the layer beams of its own color
/// belong to.
pub proof fn lemma_beams_stop_at_solid_layers(color: LightColor)
    ensures
        spec_beam_stops_at(color, Layer::Terrain),
        spec_beam_stops_at(color, Layer::LightSensor),
        spec_beam_stops_at(color, Layer::Spike),
        spec_beam_stops_at(color, Layer::Platform),
        !spec_beam_stops_at(color, spec_beam_layer(color)),
        !spec_beam_stops_at(color, Layer::PlayerCollider),
        !spec_beam_stops_at(color, Layer::PlayerHurtbox),
{
}

/// The bounce budget of the beams: no beam ever casts more than the segment limit; a purple beam
/// bounces twice, black beams never bounce and the other colors bounce once; every mirror hit
/// grants one more segment, and a beam allowed a segment is allowed every earlier one.
pub proof fn lemma_bounce_budget(color: LightColor, cast: int, mirror_hits: int)
    requires
        0 <= cast,
        0 <= mirror_hits,
    ensures
        cast >= LIGHT_MAX_SEGMENTS ==> !spec_may_cast(color, cast, mirror_hits),
        spec_may_cast(color, cast, mirror_hits) && cast + 1 < LIGHT_MAX_SEGMENTS ==> spec_may_cast(color, cast, mirror_hits + 1),
        cast > 0 && spec_may_cast(color, cast, mirror_hits) ==> spec_may_cast(color, cast - 1, mirror_hits),
        cast < LIGHT_MAX_SEGMENTS && cast < mirror_hits + 1 ==> spec_may_cast(color, cast, mirror_hits),
        spec_may_cast(LightColor::Purple, mirror_hits + 2, mirror_hits) <==> mirror_hits + 2 < LIGHT_MAX_SEGMENTS,
        !spec_may_cast(LightColor::Purple, mirror_hits + 3, mirror_hits),
        !spec_may_cast(LightColor::Black, mirror_hits + 1, mirror_hits),
        color != LightColor::Purple && color != LightColor::Black ==> !spec_may_cast(color, mirror_hits + 2, mirror_hits)
            && (mirror_hits + 1 < LIGHT_MAX_SEGMENTS ==> spec_may_cast(color, mirror_hits + 1, mirror_hits)),
{
}

} // verus!
