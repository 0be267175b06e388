//! The entity synchroniser: per-tick unit snapshots become a registry of
//! tracked entities keyed by the engine's tag, with a full-replace diff on
//! every tick and the effects that a view needs to follow along.
use std::collections::{HashMap, HashSet};
use vstd::prelude::*;

verus! {

broadcast use vstd::std_specs::hash::group_hash_axioms;

/// Build progress and the fractions of bars are given in thousandths.
pub const PROGRESS_DONE: u32 = 1000;

/// A point of the map in thousandths of a cell.
#[derive(Clone, Copy, Debug, PartialEq, Eq, Structural)]
pub struct Point {
    pub x: i32,
    pub y: i32,
}

/// One unit of a snapshot as the engine reports it; every field may be
/// missing. Health and shield are in thousandths of a point, build progress
/// in thousandths of completion.
#[derive(Clone, Copy, Debug, PartialEq, Eq, Structural)]
pub struct UnitRecord {
    pub tag: Option<u64>,
    pub unit_type: Option<u32>,
    pub pos: Option<Point>,
    pub health: Option<u32>,
    pub health_max: Option<u32>,
    pub shield: Option<u32>,
    pub shield_max: Option<u32>,
    pub build_progress: Option<u32>,
    pub alliance: Option<i32>,
    pub first_order_ability: Option<u32>,
}

#[derive(Clone, Copy, Debug, PartialEq, Eq, Structural)]
pub struct UnitHealth {
    pub current: u32,
    pub max: u32,
}

#[derive(Clone, Copy, Debug, PartialEq, Eq, Structural)]
pub struct UnitShield {
    pub current: u32,
    pub max: u32,
}

/// Completion in thousandths; below 1000 the unit is under construction.
#[derive(Clone, Copy, Debug, PartialEq, Eq, Structural)]
pub struct UnitBuildProgress(pub u32);

/// The engine's alliance code: 1 own, 2 ally, 3 neutral, 4 enemy.
#[derive(Clone, Copy, Debug, PartialEq, Eq, Structural)]
pub struct UnitAlliance(pub i32);

/// The ability of the unit's first pending order, if it has one.
#[derive(Clone, Copy, Debug, PartialEq, Eq, Structural)]
pub struct CurrentOrderAbility(pub Option<u32>);

/// `part` of `whole` in thousandths, or 0 where `whole` is 0.
pub open spec fn fraction(part: u32, whole: u32) -> int {
    if whole == 0 {
        0
    } else {
        part * 1000 / (whole as int)
    }
}

fn fraction_of(part: u32, whole: u32) -> (r: u64)
    ensures
        r == fraction(part, whole),
{
    if whole == 0 {
        0
    } else {
        part as u64 * 1000 / whole as u64
    }
}

impl UnitHealth {
    /// The fill of a health bar, in thousandths.
    pub fn value(&self) -> (r: u64)
        ensures
            r == fraction(self.current, self.max),
    {
        fraction_of(self.current, self.max)
    }
}

impl UnitShield {
    /// The fill of a shield bar, in thousandths.
    pub fn value(&self) -> (r: u64)
        ensures
            r == fraction(self.current, self.max),
    {
        fraction_of(self.current, self.max)
    }
}

impl UnitBuildProgress {
    /// The fill of a build progress bar, in thousandths.
    pub fn value(&self) -> (r: u32)
        ensures
            r == self.0,
    {
        self.0
    }

    pub fn under_construction(&self) -> (r: bool)
        ensures
            r == (self.0 < PROGRESS_DONE),
    {
        self.0 < PROGRESS_DONE
    }
}

impl UnitAlliance {
    pub fn is_enemy(&self) -> (r: bool)
        ensures
            r == (self.0 == 4),
    {
        self.0 == 4
    }
}

/// The map that positions are placed on: the side of one cell in world
/// units and the map's extent in cells, whose centre is the world origin.
#[derive(Clone, Copy, Debug, PartialEq, Eq, Structural)]
pub struct WorldFrame {
    pub tile_size: u16,
    pub map_width: u32,
    pub map_height: u32,
}

/// A coordinate in thousandths of a world unit: the cell coordinate scaled
/// by the tile size and shifted so that the map is centred on the origin.
pub open spec fn world_coord(p: i32, extent: u32, tile_size: u16) -> int {
    (p - extent * 500) * tile_size
}

fn to_world(p: i32, extent: u32, tile_size: u16) -> (r: i64)
    ensures
        r == world_coord(p, extent, tile_size),
{
    let shifted = p as i64 - extent as i64 * 500;
    assert(-5_000_000_000_000 <= shifted <= 5_000_000_000_000);
    assert(-5_000_000_000_000 * 65535 <= shifted * tile_size <= 5_000_000_000_000 * 65535)
        by (nonlinear_arith)
        requires -5_000_000_000_000 <= shifted <= 5_000_000_000_000, 0 <= tile_size <= 65535;
    shifted * tile_size as i64
}

/// What the registry keeps of one unit.
#[derive(Clone, Copy, Debug, PartialEq, Eq, Structural)]
pub struct TrackedEntity {
    pub tag: u64,
    pub unit_type: u32,
    pub world_x: i64,
    pub world_y: i64,
    pub health: UnitHealth,
    pub shield: UnitShield,
    pub build_progress: UnitBuildProgress,
    pub alliance: UnitAlliance,
    pub current_order: CurrentOrderAbility,
}

/// A change that one synchronisation pass made to the registry.
#[derive(Clone, Copy, Debug, PartialEq, Eq, Structural)]
pub enum SyncEffect {
    /// A tag seen for the first time got an entry.
    Spawned(u64),
    /// An entry was overwritten; `construction_finished` when its build
    /// progress crossed to complete on this update.
    Updated { tag: u64, construction_finished: bool },
    /// An entry whose tag was missing from the snapshot was removed.
    Despawned(u64),
}

pub open spec fn or_zero(v: Option<u32>) -> u32 {
    match v {
        Some(x) => x,
        None => 0,
    }
}

/// A record carries what an entry needs: a tag, a type and a position.
pub open spec fn complete(r: UnitRecord) -> bool {
    r.tag is Some && r.unit_type is Some && r.pos is Some
}

/// The entry that a complete record describes.
pub open spec fn entity_of(r: UnitRecord, frame: WorldFrame) -> TrackedEntity {
    TrackedEntity {
        tag: r.tag.unwrap(),
        unit_type: r.unit_type.unwrap(),
        world_x: world_coord(r.pos.unwrap().x, frame.map_width, frame.tile_size) as i64,
        world_y: world_coord(r.pos.unwrap().y, frame.map_height, frame.tile_size) as i64,
        health: UnitHealth { current: or_zero(r.health), max: or_zero(r.health_max) },
        shield: UnitShield { current: or_zero(r.shield), max: or_zero(r.shield_max) },
        build_progress: UnitBuildProgress(or_zero(r.build_progress)),
        alliance: UnitAlliance(
            match r.alliance {
                Some(a) => a,
                None => 0,
            },
        ),
        current_order: CurrentOrderAbility(r.first_order_ability),
    }
}

/// The registry after writing, in order, the entry of every complete record.
pub open spec fn upserted(m: Map<u64, TrackedEntity>, s: Seq<UnitRecord>, frame: WorldFrame) -> Map<
    u64,
    TrackedEntity,
>
    decreases s.len(),
{
    if s.len() == 0 {
        m
    } else {
        let before = upserted(m, s.drop_last(), frame);
        let r = s.last();
        if complete(r) {
            before.insert(r.tag.unwrap(), entity_of(r, frame))
        } else {
            before
        }
    }
}

/// The tags that a snapshot names, complete records or not.
pub open spec fn seen_tags(s: Seq<UnitRecord>) -> Set<u64> {
    Set::new(|t: u64| exists|i: int| 0 <= i < s.len() && s[i].tag == Some(t))
}

/// The registry after a pass: every complete record written, then every
/// entry whose tag the snapshot does not name dropped.
pub open spec fn synced(m: Map<u64, TrackedEntity>, s: Seq<UnitRecord>, frame: WorldFrame) -> Map<
    u64,
    TrackedEntity,
> {
    upserted(m, s, frame).restrict(seen_tags(s))
}

/// The effect of writing the entry of a complete record into `m`.
pub open spec fn upsert_effect(m: Map<u64, TrackedEntity>, r: UnitRecord, frame: WorldFrame) -> SyncEffect {
    let t = r.tag.unwrap();
    if m.contains_key(t) {
        SyncEffect::Updated {
            tag: t,
            construction_finished: m[t].build_progress.0 < PROGRESS_DONE && entity_of(
                r,
                frame,
            ).build_progress.0 >= PROGRESS_DONE,
        }
    } else {
        SyncEffect::Spawned(t)
    }
}

/// The effects of the writing half of a pass, in record order.
pub open spec fn upsert_effects(m: Map<u64, TrackedEntity>, s: Seq<UnitRecord>, frame: WorldFrame) -> Seq<
    SyncEffect,
>
    decreases s.len(),
{
    if s.len() == 0 {
        Seq::empty()
    } else {
        let before = upsert_effects(m, s.drop_last(), frame);
        let r = s.last();
        if complete(r) {
            before.push(upsert_effect(upserted(m, s.drop_last(), frame), r, frame))
        } else {
            before
        }
    }
}

/// The tags that got a new entry while writing, in record order.
pub open spec fn spawned_tags(m: Map<u64, TrackedEntity>, s: Seq<UnitRecord>, frame: WorldFrame) -> Seq<
    u64,
>
    decreases s.len(),
{
    if s.len() == 0 {
        Seq::empty()
    } else {
        let before = spawned_tags(m, s.drop_last(), frame);
        let r = s.last();
        if complete(r) && !upserted(m, s.drop_last(), frame).contains_key(r.tag.unwrap()) {
            before.push(r.tag.unwrap())
        } else {
            before
        }
    }
}

/// The tags of `order` that `keep` holds, in order.
pub open spec fn kept(order: Seq<u64>, keep: Set<u64>) -> Seq<u64>
    decreases order.len(),
{
    if order.len() == 0 {
        Seq::empty()
    } else if keep.contains(order.last()) {
        kept(order.drop_last(), keep).push(order.last())
    } else {
        kept(order.drop_last(), keep)
    }
}

/// A removal for each tag of `order` that `keep` does not hold, in order.
pub open spec fn despawns(order: Seq<u64>, keep: Set<u64>) -> Seq<SyncEffect>
    decreases order.len(),
{
    if order.len() == 0 {
        Seq::empty()
    } else if keep.contains(order.last()) {
        despawns(order.drop_last(), keep)
    } else {
        despawns(order.drop_last(), keep).push(SyncEffect::Despawned(order.last()))
    }
}

proof fn lemma_kept(order: Seq<u64>, keep: Set<u64>)
    requires
        order.no_duplicates(),
    ensures
        kept(order, keep).no_duplicates(),
        forall|t: u64| #[trigger]
            kept(order, keep).contains(t) <==> (order.contains(t) && keep.contains(t)),
    decreases order.len(),
{
    if order.len() > 0 {
        let rest = order.drop_last();
        assert(rest.no_duplicates()) by {
            assert forall|a: int, b: int| 0 <= a < rest.len() && 0 <= b < rest.len() && a != b implies rest[a]
                != rest[b] by {
                assert(rest[a] == order[a] && rest[b] == order[b]);
            }
        }
        lemma_kept(rest, keep);
        let x = order.last();
        assert(!rest.contains(x)) by {
            if rest.contains(x) {
                let k = choose|k: int| 0 <= k < rest.len() && rest[k] == x;
                assert(order[k] == order[order.len() - 1]);
            }
        }
        assert forall|t: u64| #[trigger] order.contains(t) <==> (rest.contains(t) || t == x) by {
            if order.contains(t) {
                let k = choose|k: int| 0 <= k < order.len() && order[k] == t;
                if k < rest.len() {
                    assert(rest[k] == t);
                }
            }
            if rest.contains(t) {
                let k = choose|k: int| 0 <= k < rest.len() && rest[k] == t;
                assert(order[k] == t);
            }
            if t == x {
                assert(order[order.len() - 1] == t);
            }
        }
        let kr = kept(rest, keep);
        if keep.contains(x) {
            let kk = kr.push(x);
            assert forall|t: u64| #[trigger] kk.contains(t) <==> (kr.contains(t) || t == x) by {
                if kk.contains(t) {
                    let k = choose|k: int| 0 <= k < kk.len() && kk[k] == t;
                    if k < kr.len() {
                        assert(kr[k] == t);
                    }
                }
                if kr.contains(t) {
                    let k = choose|k: int| 0 <= k < kr.len() && kr[k] == t;
                    assert(kk[k] == t);
                }
                if t == x {
                    assert(kk[kr.len() as int] == t);
                }
            }
            assert forall|a: int, b: int| 0 <= a < kk.len() && 0 <= b < kk.len() && a != b implies kk[a]
                != kk[b] by {
                if a == kr.len() && b < kr.len() {
                    assert(kr.contains(kk[b]));
                }
                if b == kr.len() && a < kr.len() {
                    assert(kr.contains(kk[a]));
                }
            }
        }
    }
}

proof fn lemma_seen_step(s: Seq<UnitRecord>, i: int)
    requires
        0 <= i < s.len(),
    ensures
        seen_tags(s.subrange(0, i + 1)) == (match s[i].tag {
            Some(t) => seen_tags(s.subrange(0, i)).insert(t),
            None => seen_tags(s.subrange(0, i)),
        }),
{
    let a = s.subrange(0, i);
    let b = s.subrange(0, i + 1);
    let expect = match s[i].tag {
        Some(t) => seen_tags(a).insert(t),
        None => seen_tags(a),
    };
    assert forall|t: u64| #[trigger] seen_tags(b).contains(t) <==> expect.contains(t) by {
        if seen_tags(b).contains(t) {
            let k = choose|k: int| 0 <= k < b.len() && b[k].tag == Some(t);
            if k < i {
                assert(a[k].tag == Some(t));
            }
        }
        if seen_tags(a).contains(t) {
            let k = choose|k: int| 0 <= k < a.len() && a[k].tag == Some(t);
            assert(b[k].tag == Some(t));
        }
        if s[i].tag == Some(t) {
            assert(b[i].tag == Some(t));
        }
    }
    assert(seen_tags(b) =~= expect);
}

/// The tags that a type index lists under `ty`.
pub open spec fn index_set(index: Map<u32, HashSet<u64>>, ty: u32) -> Set<u64> {
    if index.contains_key(ty) {
        index[ty]@
    } else {
        Set::empty()
    }
}

/// The index lists under each type exactly the tags of the entries of that type.
pub open spec fn index_matches(index: Map<u32, HashSet<u64>>, map: Map<u64, TrackedEntity>) -> bool {
    forall|ty: u32, t: u64|
        #![trigger index_set(index, ty).contains(t)]
        index_set(index, ty).contains(t) <==> (map.contains_key(t) && map[t].unit_type == ty)
}

fn index_insert(index: &mut HashMap<u32, HashSet<u64>>, ty: u32, t: u64)
    ensures
        index_set(final(index)@, ty) == index_set(old(index)@, ty).insert(t),
        forall|k: u32| k != ty ==> index_set(final(index)@, k) == index_set(old(index)@, k),
{
    let mut set = match index.remove(&ty) {
        Some(s) => s,
        None => HashSet::new(),
    };
    set.insert(t);
    index.insert(ty, set);
}

fn index_remove(index: &mut HashMap<u32, HashSet<u64>>, ty: u32, t: u64)
    ensures
        index_set(final(index)@, ty) == index_set(old(index)@, ty).remove(t),
        forall|k: u32| k != ty ==> index_set(final(index)@, k) == index_set(old(index)@, k),
{
    let mut set = match index.remove(&ty) {
        Some(s) => s,
        None => HashSet::new(),
    };
    set.remove(&t);
    index.insert(ty, set);
}

/// Tracked entities keyed by tag, the order in which their tags first
/// appeared, and an index from unit type to the tags of that type.
pub struct UnitRegistry {
    map: HashMap<u64, TrackedEntity>,
    order: Vec<u64>,
    by_type: HashMap<u32, HashSet<u64>>,
}

impl UnitRegistry {
    /// The entries, by tag.
    pub closed spec fn entities(&self) -> Map<u64, TrackedEntity> {
        self.map@
    }

    /// The tags of the entries, oldest first.
    pub closed spec fn tag_order(&self) -> Seq<u64> {
        self.order@
    }

    closed spec fn type_set(&self, ty: u32) -> Set<u64> {
        index_set(self.by_type@, ty)
    }

    /// The tags whose entry has unit type `ty`.
    pub open spec fn tags_of_type(&self, ty: u32) -> Set<u64> {
        self.entities().dom().filter(|t: u64| self.entities()[t].unit_type == ty)
    }

    closed spec fn index_ok(&self) -> bool {
        index_matches(self.by_type@, self.map@)
    }

    /// Each entry sits under its own tag, the order lists each tag once,
    /// and the type index agrees with the entries.
    pub closed spec fn wf(&self) -> bool {
        &&& self.order@.no_duplicates()
        &&& forall|t: u64| #[trigger] self.map@.contains_key(t) <==> self.order@.contains(t)
        &&& forall|t: u64| #[trigger] self.map@.contains_key(t) ==> self.map@[t].tag == t
        &&& self.index_ok()
    }

    pub fn new() -> (r: Self)
        ensures
            r.wf(),
            r.entities() == Map::<u64, TrackedEntity>::empty(),
            r.tag_order() == Seq::<u64>::empty(),
    {
        let r = UnitRegistry { map: HashMap::new(), order: Vec::new(), by_type: HashMap::new() };
        assert(r.map@ =~= Map::<u64, TrackedEntity>::empty());
        r
    }

    pub fn len(&self) -> (r: usize)
        requires
            self.wf(),
        ensures
            r == self.entities().len(),
    {
        proof {
            self.order@.unique_seq_to_set();
            assert(self.order@.to_set() =~= self.map@.dom());
        }
        self.order.len()
    }

    /// The entry of a tag, if it has one.
    pub fn get(&self, tag: u64) -> (r: Option<TrackedEntity>)
        ensures
            r == (if self.entities().contains_key(tag) {
                Some(self.entities()[tag])
            } else {
                None
            }),
    {
        match self.map.get(&tag) {
            Some(e) => Some(*e),
            None => None,
        }
    }

    /// Writes the entry of a complete record, keeping the order and the type
    /// index in step.
    fn upsert(&mut self, r: &UnitRecord, frame: &WorldFrame) -> (e: SyncEffect)
        requires
            old(self).wf(),
            complete(*r),
        ensures
            final(self).wf(),
            final(self).entities() == old(self).entities().insert(r.tag.unwrap(), entity_of(*r, *frame)),
            final(self).tag_order() == (if old(self).entities().contains_key(r.tag.unwrap()) {
                old(self).tag_order()
            } else {
                old(self).tag_order().push(r.tag.unwrap())
            }),
            e == upsert_effect(old(self).entities(), *r, *frame),
    {
        let tag = r.tag.unwrap();
        let ty = r.unit_type.unwrap();
        let pos = r.pos.unwrap();
        let entity = TrackedEntity {
            tag,
            unit_type: ty,
            world_x: to_world(pos.x, frame.map_width, frame.tile_size),
            world_y: to_world(pos.y, frame.map_height, frame.tile_size),
            health: UnitHealth { current: r.health.unwrap_or(0), max: r.health_max.unwrap_or(0) },
            shield: UnitShield { current: r.shield.unwrap_or(0), max: r.shield_max.unwrap_or(0) },
            build_progress: UnitBuildProgress(r.build_progress.unwrap_or(0)),
            alliance: UnitAlliance(r.alliance.unwrap_or(0)),
            current_order: CurrentOrderAbility(r.first_order_ability),
        };
        assert(entity == entity_of(*r, *frame));
        let ghost old_map = self.map@;
        let ghost old_index = self.by_type@;
        let previous = self.map.insert(tag, entity);
        match previous {
            Some(prev) => {
                if prev.unit_type != ty {
                    index_remove(&mut self.by_type, prev.unit_type, tag);
                    index_insert(&mut self.by_type, ty, tag);
                }
                proof {
                    assert forall|k: u32, u: u64|
                        #![trigger index_set(self.by_type@, k).contains(u)]
                        index_set(self.by_type@, k).contains(u) <==> (self.map@.contains_key(u)
                            && self.map@[u].unit_type == k) by {
                        assert(index_set(old_index, k).contains(u) <==> (old_map.contains_key(u)
                            && old_map[u].unit_type == k));
                    }
                }
                let finished = prev.build_progress.0 < PROGRESS_DONE && entity.build_progress.0
                    >= PROGRESS_DONE;
                SyncEffect::Updated { tag, construction_finished: finished }
            },
            None => {
                index_insert(&mut self.by_type, ty, tag);
                let ghost old_order = self.order@;
                self.order.push(tag);
                proof {
                    assert forall|k: u32, u: u64|
                        #![trigger index_set(self.by_type@, k).contains(u)]
                        index_set(self.by_type@, k).contains(u) <==> (self.map@.contains_key(u)
                            && self.map@[u].unit_type == k) by {
                        assert(index_set(old_index, k).contains(u) <==> (old_map.contains_key(u)
                            && old_map[u].unit_type == k));
                    }
                    assert forall|u: u64| #[trigger]
                        self.map@.contains_key(u) <==> self.order@.contains(u) by {
                        if u != tag {
                            assert(old_order.contains(u) ==> self.order@.contains(u)) by {
                                if old_order.contains(u) {
                                    let k = choose|k: int| 0 <= k < old_order.len() && old_order[k] == u;
                                    assert(self.order@[k] == u);
                                }
                            }
                            assert(self.order@.contains(u) ==> old_order.contains(u)) by {
                                if self.order@.contains(u) {
                                    let k = choose|k: int| 0 <= k < self.order@.len() && self.order@[k] == u;
                                    assert(k < old_order.len());
                                    assert(old_order[k] == u);
                                }
                            }
                        } else {
                            assert(self.order@[old_order.len() as int] == u);
                        }
                    }
                    assert forall|a: int, b: int|
                        0 <= a < self.order@.len() && 0 <= b < self.order@.len() && a != b implies
                        self.order@[a] != self.order@[b] by {
                        if a == old_order.len() as int && b < old_order.len() {
                            assert(old_order.contains(self.order@[b]));
                        }
                        if b == old_order.len() as int && a < old_order.len() {
                            assert(old_order.contains(self.order@[a]));
                        }
                    }
                }
                SyncEffect::Spawned(tag)
            },
        }
    }

    /// Synchronises the registry with one tick's snapshot. Every complete
    /// record (tag, type and position present) writes its entry, in record
    /// order, creating it if the tag is new; an incomplete record changes
    /// nothing. Then every entry whose tag the snapshot does not name is
    /// removed. The effects list the writes in record order, then the
    /// removals from oldest to newest.
    pub fn handle_observation(&mut self, units: &[UnitRecord], frame: &WorldFrame) -> (effects: Vec<
        SyncEffect,
    >)
        requires
            old(self).wf(),
        ensures
            final(self).wf(),
            final(self).entities() == synced(old(self).entities(), units@, *frame),
            final(self).tag_order() == kept(
                old(self).tag_order() + spawned_tags(old(self).entities(), units@, *frame),
                seen_tags(units@),
            ),
            effects@ == upsert_effects(old(self).entities(), units@, *frame) + despawns(
                old(self).tag_order() + spawned_tags(old(self).entities(), units@, *frame),
                seen_tags(units@),
            ),
    {
        let ghost m0 = self.map@;
        let ghost o0 = self.order@;
        let mut effects: Vec<SyncEffect> = Vec::new();
        let mut seen: HashSet<u64> = HashSet::new();
        let mut i: usize = 0;
        proof {
            assert(units@.subrange(0, 0) =~= Seq::<UnitRecord>::empty());
            assert(seen_tags(units@.subrange(0, 0)) =~= Set::<u64>::empty());
            assert(o0 + Seq::<u64>::empty() =~= o0);
        }
        while i < units.len()
            invariant
                self.wf(),
                i <= units@.len(),
                self.map@ == upserted(m0, units@.subrange(0, i as int), *frame),
                self.order@ == o0 + spawned_tags(m0, units@.subrange(0, i as int), *frame),
                effects@ == upsert_effects(m0, units@.subrange(0, i as int), *frame),
                seen@ == seen_tags(units@.subrange(0, i as int)),
            decreases units@.len() - i,
        {
            let r = &units[i];
            let ghost before = units@.subrange(0, i as int);
            proof {
                let next = units@.subrange(0, i + 1);
                assert(next.drop_last() =~= before);
                assert(next.last() == units@[i as int]);
                lemma_seen_step(units@, i as int);
            }
            match r.tag {
                Some(t) => {
                    seen.insert(t);
                },
                None => {},
            }
            if r.tag.is_some() && r.unit_type.is_some() && r.pos.is_some() {
                let ghost o_before = self.order@;
                let e = self.upsert(r, frame);
                effects.push(e);
                proof {
                    if !upserted(m0, before, *frame).contains_key(r.tag.unwrap()) {
                        assert(o0 + spawned_tags(m0, before, *frame).push(r.tag.unwrap()) =~= o_before.push(
                            r.tag.unwrap(),
                        ));
                    }
                }
            }
            i = i + 1;
        }
        proof {
            assert(units@.subrange(0, units@.len() as int) =~= units@);
        }
        let ghost mu = self.map@;
        let ghost ou = self.order@;
        let ghost eu = effects@;
        let ghost keep = seen@;
        let mut remaining: Vec<u64> = Vec::new();
        let mut j: usize = 0;
        proof {
            assert(ou.subrange(0, 0) =~= Seq::<u64>::empty());
            assert(eu + Seq::<SyncEffect>::empty() =~= eu);
        }
        while j < self.order.len()
            invariant
                self.order@ == ou,
                j <= ou.len(),
                ou.no_duplicates(),
                forall|t: u64| #[trigger] mu.contains_key(t) <==> ou.contains(t),
                forall|t: u64| #[trigger] mu.contains_key(t) ==> mu[t].tag == t,
                remaining@ == kept(ou.subrange(0, j as int), keep),
                effects@ == eu + despawns(ou.subrange(0, j as int), keep),
                forall|t: u64| #[trigger]
                    self.map@.contains_key(t) <==> (mu.contains_key(t) && (keep.contains(t) || exists|
                        k: int,
                    | j <= k < ou.len() && ou[k] == t)),
                forall|t: u64| #[trigger] self.map@.contains_key(t) ==> self.map@[t] == mu[t],
                self.index_ok(),
                seen@ == keep,
            decreases ou.len() - j,
        {
            let t = self.order[j];
            proof {
                let next = ou.subrange(0, j + 1);
                assert(next.drop_last() =~= ou.subrange(0, j as int));
                assert(next.last() == t);
            }
            if seen.contains(&t) {
                remaining.push(t);
                proof {
                    assert forall|u: u64| #[trigger]
                        self.map@.contains_key(u) <==> (mu.contains_key(u) && (keep.contains(u) || exists|
                            k: int,
                        | j + 1 <= k < ou.len() && ou[k] == u)) by {
                        if u != t && mu.contains_key(u) && !keep.contains(u) && (exists|k: int|
                            j <= k < ou.len() && ou[k] == u) {
                            let k = choose|k: int| j <= k < ou.len() && ou[k] == u;
                            assert(k != j);
                        }
                    }
                }
            } else {
                let ghost map_before = self.map@;
                assert(ou.contains(t)) by {
                    assert(ou[j as int] == t);
                }
                assert(self.map@.contains_key(t));
                let removed = self.map.remove(&t);
                match removed {
                    Some(e) => {
                        let ghost index_before = self.by_type@;
                        index_remove(&mut self.by_type, e.unit_type, t);
                        proof {
                            assert forall|k: u32, u: u64|
                                #![trigger index_set(self.by_type@, k).contains(u)]
                                index_set(self.by_type@, k).contains(u) <==> (self.map@.contains_key(u)
                                    && self.map@[u].unit_type == k) by {
                                assert(index_set(index_before, k).contains(u) <==> (
                                map_before.contains_key(u) && map_before[u].unit_type == k));
                            }
                        }
                    },
                    None => {},
                }
                effects.push(SyncEffect::Despawned(t));
                proof {
                    assert forall|u: u64| #[trigger]
                        self.map@.contains_key(u) <==> (mu.contains_key(u) && (keep.contains(u) || exists|
                            k: int,
                        | j + 1 <= k < ou.len() && ou[k] == u)) by {
                        if u == t {
                            if exists|k: int| j + 1 <= k < ou.len() && ou[k] == u {
                                let k = choose|k: int| j + 1 <= k < ou.len() && ou[k] == u;
                                assert(ou[k] == ou[j as int]);
                            }
                        } else if mu.contains_key(u) && !keep.contains(u) && (exists|k: int|
                            j <= k < ou.len() && ou[k] == u) {
                            let k = choose|k: int| j <= k < ou.len() && ou[k] == u;
                            assert(k != j);
                        }
                    }
                }
            }
            j = j + 1;
        }
        proof {
            assert(ou.subrange(0, ou.len() as int) =~= ou);
            lemma_kept(ou, keep);
            assert(self.map@ =~= mu.restrict(keep));
        }
        self.order = remaining;
        effects
    }

    /// The tags of every entry, oldest first.
    pub fn tags(&self) -> (r: Vec<u64>)
        ensures
            r@ == self.tag_order(),
    {
        let mut r: Vec<u64> = Vec::new();
        let mut i: usize = 0;
        while i < self.order.len()
            invariant
                i <= self.order@.len(),
                r@ == self.order@.subrange(0, i as int),
            decreases self.order@.len() - i,
        {
            r.push(self.order[i]);
            i = i + 1;
            assert(r@ =~= self.order@.subrange(0, i as int));
        }
        assert(r@ =~= self.order@);
        r
    }

    /// The tags whose entry has unit type `ty`, each once.
    pub fn tags_of(&self, ty: u32) -> (r: Vec<u64>)
        requires
            self.wf(),
        ensures
            r@.to_set() == self.tags_of_type(ty),
            r@.no_duplicates(),
    {
        let set = self.by_type.get(&ty);
        let mut r: Vec<u64> = Vec::new();
        let mut i: usize = 0;
        while i < self.order.len()
            invariant
                self.wf(),
                set == (if self.by_type@.contains_key(ty) {
                    Some(&self.by_type@[ty])
                } else {
                    None
                }),
                i <= self.order@.len(),
                r@.no_duplicates(),
                forall|t: u64| #[trigger]
                    r@.contains(t) <==> (exists|j: int|
                        0 <= j < i && self.order@[j] == t && self.type_set(ty).contains(t)),
            decreases self.order@.len() - i,
        {
            let t = self.order[i];
            let ghost r0 = r@;
            let member = match set {
                Some(s) => s.contains(&t),
                None => false,
            };
            assert(member == self.type_set(ty).contains(t));
            if member {
                proof {
                    assert(!r@.contains(t)) by {
                        if r@.contains(t) {
                            let j = choose|j: int| 0 <= j < i && self.order@[j] == t;
                            assert(self.order@[j] == self.order@[i as int]);
                        }
                    }
                }
                r.push(t);
            }
            proof {
                assert(r@ == r0 || r@ == r0.push(t));
                assert forall|u: u64| #[trigger]
                    r@.contains(u) <==> (exists|j: int|
                        0 <= j < i + 1 && self.order@[j] == u && self.type_set(ty).contains(u)) by {
                    if r@.contains(u) {
                        if r0.contains(u) {
                        } else {
                            let k = choose|k: int| 0 <= k < r@.len() && r@[k] == u;
                            if k < r0.len() {
                                assert(r0[k] == u);
                            }
                            assert(u == t && member);
                            assert(self.order@[i as int] == u);
                        }
                    }
                    if exists|j: int|
                        0 <= j < i + 1 && self.order@[j] == u && self.type_set(ty).contains(u) {
                        let j = choose|j: int|
                            0 <= j < i + 1 && self.order@[j] == u && self.type_set(ty).contains(u);
                        if j < i {
                            assert(r0.contains(u));
                            let k = choose|k: int| 0 <= k < r0.len() && r0[k] == u;
                            assert(r@[k] == u);
                        } else {
                            assert(r@.last() == u);
                        }
                    }
                }
            }
            i = i + 1;
        }
        proof {
            assert forall|t: u64| #[trigger] r@.to_set().contains(t) <==> self.tags_of_type(ty).contains(t) by {
                if self.map@.contains_key(t) && self.map@[t].unit_type == ty {
                    assert(self.order@.contains(t));
                    let j = choose|j: int| 0 <= j < self.order@.len() && self.order@[j] == t;
                    assert(self.type_set(ty).contains(t));
                }
            }
            assert(r@.to_set() =~= self.tags_of_type(ty));
        }
        r
    }
}

} // verus!

verus! {

/// The tags of the complete records of a snapshot.
pub open spec fn complete_tags(s: Seq<UnitRecord>) -> Set<u64> {
    Set::new(|t: u64| exists|i: int| 0 <= i < s.len() && complete(s[i]) && s[i].tag == Some(t))
}

proof fn lemma_complete_tags_step(s: Seq<UnitRecord>)
    requires
        s.len() > 0,
    ensures
        forall|t: u64| #[trigger]
            complete_tags(s).contains(t) <==> (complete_tags(s.drop_last()).contains(t) || (complete(
                s.last(),
            ) && s.last().tag == Some(t))),
{
    let p = s.drop_last();
    assert forall|t: u64| #[trigger]
        complete_tags(s).contains(t) <==> (complete_tags(p).contains(t) || (complete(s.last())
            && s.last().tag == Some(t))) by {
        if complete_tags(s).contains(t) {
            let k = choose|k: int| 0 <= k < s.len() && complete(s[k]) && s[k].tag == Some(t);
            if k < p.len() {
                assert(p[k] == s[k]);
            }
        }
        if complete_tags(p).contains(t) {
            let k = choose|k: int| 0 <= k < p.len() && complete(p[k]) && p[k].tag == Some(t);
            assert(s[k] == p[k]);
        }
        if complete(s.last()) && s.last().tag == Some(t) {
            assert(s[s.len() - 1] == s.last());
        }
    }
}

/// What writing a snapshot leaves: the old entries, plus one for every tag
/// of a complete record, whose value does not depend on the old entries.
proof fn lemma_upserted(m1: Map<u64, TrackedEntity>, m2: Map<u64, TrackedEntity>, s: Seq<UnitRecord>, frame: WorldFrame)
    ensures
        forall|t: u64| #[trigger]
            upserted(m1, s, frame).contains_key(t) <==> (m1.contains_key(t) || complete_tags(s).contains(t)),
        forall|t: u64| #[trigger]
            complete_tags(s).contains(t) ==> upserted(m1, s, frame)[t] == upserted(m2, s, frame)[t],
        forall|t: u64| #[trigger]
            upserted(m1, s, frame).contains_key(t) && !complete_tags(s).contains(t) ==> upserted(
                m1,
                s,
                frame,
            )[t] == m1[t],
    decreases s.len(),
{
    if s.len() > 0 {
        let p = s.drop_last();
        lemma_upserted(m1, m2, p, frame);
        lemma_complete_tags_step(s);
        let r = s.last();
        let u1 = upserted(m1, s, frame);
        let b1 = upserted(m1, p, frame);
        assert(u1 == (if complete(r) {
            b1.insert(r.tag.unwrap(), entity_of(r, frame))
        } else {
            b1
        }));
        assert forall|t: u64| #[trigger] u1.contains_key(t) <==> (m1.contains_key(t)
            || complete_tags(s).contains(t)) by {
            assert(b1.contains_key(t) <==> (m1.contains_key(t) || complete_tags(p).contains(t)));
            assert(complete_tags(s).contains(t) <==> (complete_tags(p).contains(t) || (complete(r)
                && r.tag == Some(t))));
        }
        assert forall|t: u64| #[trigger]
            u1.contains_key(t) && !complete_tags(s).contains(t) implies u1[t] == m1[t] by {
            assert(b1.contains_key(t) <==> (m1.contains_key(t) || complete_tags(p).contains(t)));
            assert(b1.contains_key(t) && !complete_tags(p).contains(t) ==> b1[t] == m1[t]);
            assert(complete_tags(s).contains(t) <==> (complete_tags(p).contains(t) || (complete(r)
                && r.tag == Some(t))));
        }
    } else {
        assert forall|t: u64| !#[trigger] complete_tags(s).contains(t) by {}
    }
}

/// Feeding the same snapshot twice in a row leaves the registry as the
/// first pass left it: the same tags, with the same field values.
pub proof fn lemma_sync_idempotent(m: Map<u64, TrackedEntity>, s: Seq<UnitRecord>, frame: WorldFrame)
    ensures
        synced(synced(m, s, frame), s, frame) == synced(m, s, frame),
{
    let m1 = synced(m, s, frame);
    lemma_upserted(m, m1, s, frame);
    lemma_upserted(m1, m, s, frame);
    let seen = seen_tags(s);
    assert forall|t: u64| complete_tags(s).contains(t) implies #[trigger] seen.contains(t) by {
        let k = choose|k: int| 0 <= k < s.len() && complete(s[k]) && s[k].tag == Some(t);
    }
    assert(synced(m1, s, frame) =~= m1);
}

/// A tag that a snapshot does not name has no entry after that snapshot's
/// pass, whatever the registry held before.
pub proof fn lemma_sync_removes_missing(m: Map<u64, TrackedEntity>, s: Seq<UnitRecord>, frame: WorldFrame, tag: u64)
    requires
        !seen_tags(s).contains(tag),
    ensures
        !synced(m, s, frame).contains_key(tag),
{
}

/// How many times an effect list creates an entry for `tag`.
pub open spec fn spawn_count(e: Seq<SyncEffect>, tag: u64) -> nat
    decreases e.len(),
{
    if e.len() == 0 {
        0
    } else {
        spawn_count(e.drop_last(), tag) + if e.last() == SyncEffect::Spawned(tag) {
            1nat
        } else {
            0nat
        }
    }
}

proof fn lemma_spawn_count_append(a: Seq<SyncEffect>, b: Seq<SyncEffect>, tag: u64)
    ensures
        spawn_count(a + b, tag) == spawn_count(a, tag) + spawn_count(b, tag),
    decreases b.len(),
{
    if b.len() > 0 {
        assert((a + b).drop_last() =~= a + b.drop_last());
        lemma_spawn_count_append(a, b.drop_last(), tag);
    } else {
        assert(a + b =~= a);
    }
}

proof fn lemma_despawns_spawn_nothing(order: Seq<u64>, keep: Set<u64>, tag: u64)
    ensures
        spawn_count(despawns(order, keep), tag) == 0,
    decreases order.len(),
{
    if order.len() > 0 {
        lemma_despawns_spawn_nothing(order.drop_last(), keep, tag);
        let d = despawns(order.drop_last(), keep);
        let x = SyncEffect::Despawned(order.last());
        assert(d.push(x).drop_last() =~= d);
    }
}

proof fn lemma_upsert_spawns(m: Map<u64, TrackedEntity>, s: Seq<UnitRecord>, frame: WorldFrame, tag: u64)
    ensures
        spawn_count(upsert_effects(m, s, frame), tag) == (if !m.contains_key(tag) && complete_tags(
            s,
        ).contains(tag) {
            1nat
        } else {
            0nat
        }),
    decreases s.len(),
{
    if s.len() > 0 {
        let p = s.drop_last();
        lemma_upsert_spawns(m, p, frame, tag);
        lemma_complete_tags_step(s);
        lemma_upserted(m, m, p, frame);
        let r = s.last();
        if complete(r) {
            let e = upsert_effect(upserted(m, p, frame), r, frame);
            assert(upsert_effects(m, s, frame).drop_last() == upsert_effects(m, p, frame));
            assert(upsert_effects(m, s, frame).last() == e);
        }
    } else {
        assert(!complete_tags(s).contains(tag));
    }
}

/// A tag that the registry does not hold and that a complete record of the
/// snapshot names gets exactly one new entry, however often the snapshot
/// lists it; any other tag gets none.
pub proof fn lemma_sync_spawns_once(
    m: Map<u64, TrackedEntity>,
    order: Seq<u64>,
    s: Seq<UnitRecord>,
    frame: WorldFrame,
    tag: u64,
)
    ensures
        spawn_count(
            upsert_effects(m, s, frame) + despawns(order + spawned_tags(m, s, frame), seen_tags(s)),
            tag,
        ) == (if !m.contains_key(tag) && complete_tags(s).contains(tag) {
            1nat
        } else {
            0nat
        }),
        !m.contains_key(tag) && complete_tags(s).contains(tag) ==> synced(m, s, frame).contains_key(
            tag,
        ),
{
    lemma_upsert_spawns(m, s, frame, tag);
    lemma_despawns_spawn_nothing(order + spawned_tags(m, s, frame), seen_tags(s), tag);
    lemma_spawn_count_append(
        upsert_effects(m, s, frame),
        despawns(order + spawned_tags(m, s, frame), seen_tags(s)),
        tag,
    );
    lemma_upserted(m, m, s, frame);
    if complete_tags(s).contains(tag) {
        let k = choose|k: int| 0 <= k < s.len() && complete(s[k]) && s[k].tag == Some(tag);
        assert(seen_tags(s).contains(tag));
    }
}

} // verus!
