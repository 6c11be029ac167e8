//! The world store: one table per component kind, keyed by entity.

use vstd::prelude::*;
use crate::components::{CombatStats, Entity, FieldOfView, Position, Renderable, Tags};

verus! {

/// The entities and their components.
///
/// An entity is the number of its slot. A slot is never handed out twice, so
/// an identifier never comes to mean another entity. Whether an entity has a
/// component is whether that component's table holds a value in its slot.
pub struct World {
    pub live: Vec<bool>,
    pub tags: Vec<Tags>,
    pub positions: Vec<Option<Position>>,
    pub stats: Vec<Option<CombatStats>>,
    pub fovs: Vec<Option<FieldOfView>>,
    pub names: Vec<Option<String>>,
    pub renderables: Vec<Option<Renderable>>,
}

impl World {
    /// Whether slot `i` holds nothing at all.
    pub open spec fn spec_slot_empty(&self, i: int) -> bool {
        &&& self.tags[i] == Tags::spec_none()
        &&& self.positions[i].is_none()
        &&& self.stats[i].is_none()
        &&& self.fovs[i].is_none()
        &&& self.names[i].is_none()
        &&& self.renderables[i].is_none()
    }

    /// All tables have one slot per entity ever created, the slot of a
    /// destroyed entity holds nothing, and every component is sound.
    pub open spec fn wf(&self) -> bool {
        &&& self.tags.len() == self.live.len()
        &&& self.positions.len() == self.live.len()
        &&& self.stats.len() == self.live.len()
        &&& self.fovs.len() == self.live.len()
        &&& self.names.len() == self.live.len()
        &&& self.renderables.len() == self.live.len()
        &&& forall|i: int|
            0 <= i < self.live.len() && !(#[trigger] self.live[i]) ==> self.spec_slot_empty(i)
        &&& forall|i: int|
            0 <= i < self.live.len() && (#[trigger] self.stats[i]).is_some()
                ==> self.stats[i].unwrap().wf()
        &&& forall|i: int|
            0 <= i < self.live.len() && (#[trigger] self.fovs[i]).is_some()
                ==> self.fovs[i].unwrap().wf()
    }

    /// Whether `e` was created and not destroyed since.
    pub open spec fn spec_contains(&self, e: Entity) -> bool {
        e.0 < self.live.len() && self.live[e.0 as int]
    }

    /// The roles of `e`; none for an entity that the world does not hold.
    pub open spec fn spec_tags(&self, e: Entity) -> Tags {
        if e.0 < self.tags.len() {
            self.tags[e.0 as int]
        } else {
            Tags::spec_none()
        }
    }

    /// The position of `e`, if it has one.
    pub open spec fn spec_position(&self, e: Entity) -> Option<Position> {
        if e.0 < self.positions.len() {
            self.positions[e.0 as int]
        } else {
            None
        }
    }

    /// The combat stats of `e`, if it has any.
    pub open spec fn spec_stats(&self, e: Entity) -> Option<CombatStats> {
        if e.0 < self.stats.len() {
            self.stats[e.0 as int]
        } else {
            None
        }
    }

    /// The field of view of `e`, if it has one.
    pub open spec fn spec_fov(&self, e: Entity) -> Option<FieldOfView> {
        if e.0 < self.fovs.len() {
            self.fovs[e.0 as int]
        } else {
            None
        }
    }

    /// The name of `e`, if it has one.
    pub open spec fn spec_name(&self, e: Entity) -> Option<Seq<char>> {
        if e.0 < self.names.len() && self.names[e.0 as int].is_some() {
            Some(self.names[e.0 as int].unwrap()@)
        } else {
            None
        }
    }

    /// The glyph and colours of `e`, if it has any.
    pub open spec fn spec_renderable(&self, e: Entity) -> Option<Renderable> {
        if e.0 < self.renderables.len() {
            self.renderables[e.0 as int]
        } else {
            None
        }
    }

    /// Whether `e` is the same in both worlds: held by both or by neither,
    /// with the same roles and the same components.
    pub open spec fn spec_same_entity(&self, other: &World, e: Entity) -> bool {
        &&& self.spec_contains(e) == other.spec_contains(e)
        &&& self.spec_tags(e) == other.spec_tags(e)
        &&& self.spec_position(e) == other.spec_position(e)
        &&& self.spec_stats(e) == other.spec_stats(e)
        &&& self.spec_fov(e) == other.spec_fov(e)
        &&& self.spec_name(e) == other.spec_name(e)
        &&& self.spec_renderable(e) == other.spec_renderable(e)
    }

    /// A world without entities.
    pub fn new() -> (w: World)
        ensures
            w.wf(),
            w.live.len() == 0,
    {
        World {
            live: Vec::new(),
            tags: Vec::new(),
            positions: Vec::new(),
            stats: Vec::new(),
            fovs: Vec::new(),
            names: Vec::new(),
            renderables: Vec::new(),
        }
    }

    /// The number of entities ever created.
    pub fn len(&self) -> (n: usize)
        ensures
            n == self.live.len(),
    {
        self.live.len()
    }

    /// Creates an entity without any component.
    pub fn create(&mut self) -> (e: Entity)
        requires
            old(self).wf(),
        ensures
            final(self).wf(),
            e.0 == old(self).live.len(),
            final(self).spec_contains(e),
            final(self).live@ == old(self).live@.push(true),
            final(self).tags@ == old(self).tags@.push(Tags::spec_none()),
            final(self).positions@ == old(self).positions@.push(None),
            final(self).stats@ == old(self).stats@.push(None),
            final(self).fovs@ == old(self).fovs@.push(None),
            final(self).names@ == old(self).names@.push(None),
            final(self).renderables@ == old(self).renderables@.push(None),
    {
        let e = Entity(self.live.len());
        self.live.push(true);
        self.tags.push(Tags::none());
        self.positions.push(None);
        self.stats.push(None);
        self.fovs.push(None);
        self.names.push(None);
        self.renderables.push(None);
        e
    }

    /// Destroys `e`: drops its components and forgets it. An entity that the
    /// world does not hold is left alone.
    pub fn destroy(&mut self, e: Entity)
        requires
            old(self).wf(),
        ensures
            final(self).wf(),
            !final(self).spec_contains(e),
            final(self).live.len() == old(self).live.len(),
            !old(self).spec_contains(e) ==> *final(self) == *old(self),
            final(self).spec_position(e).is_none(),
            final(self).spec_stats(e).is_none(),
            final(self).spec_fov(e).is_none(),
            final(self).spec_name(e).is_none(),
            final(self).spec_renderable(e).is_none(),
            final(self).spec_tags(e) == Tags::spec_none(),
            forall|o: Entity| o != e ==> final(self).spec_same_entity(old(self), o),
    {
        if e.0 < self.live.len() && self.live[e.0] {
            self.live.set(e.0, false);
            self.tags.set(e.0, Tags::none());
            self.positions.set(e.0, None);
            self.stats.set(e.0, None);
            self.fovs.set(e.0, None);
            self.names.set(e.0, None);
            self.renderables.set(e.0, None);
        }
    }

    /// Whether `e` was created and not destroyed since.
    pub fn contains(&self, e: Entity) -> (b: bool)
        ensures
            b == self.spec_contains(e),
    {
        e.0 < self.live.len() && self.live[e.0]
    }

    /// The roles of `e`.
    pub fn tags(&self, e: Entity) -> (t: Tags)
        ensures
            t == self.spec_tags(e),
    {
        if e.0 < self.tags.len() {
            self.tags[e.0]
        } else {
            Tags::none()
        }
    }

    /// The position of `e`, if it has one.
    pub fn position(&self, e: Entity) -> (p: Option<Position>)
        ensures
            p == self.spec_position(e),
    {
        if e.0 < self.positions.len() {
            self.positions[e.0]
        } else {
            None
        }
    }

    /// The combat stats of `e`, if it has any.
    pub fn stats(&self, e: Entity) -> (s: Option<CombatStats>)
        ensures
            s == self.spec_stats(e),
    {
        if e.0 < self.stats.len() {
            self.stats[e.0]
        } else {
            None
        }
    }

    /// The name of `e`, if it has one.
    pub fn name(&self, e: Entity) -> (n: Option<String>)
        ensures
            n.is_some() == self.spec_name(e).is_some(),
            n.is_some() ==> n.unwrap()@ == self.spec_name(e).unwrap(),
    {
        if e.0 < self.names.len() {
            match &self.names[e.0] {
                Some(s) => Some(s.clone()),
                None => None,
            }
        } else {
            None
        }
    }

    /// The glyph and colours of `e`, if it has any.
    pub fn renderable(&self, e: Entity) -> (r: Option<Renderable>)
        ensures
            r == self.spec_renderable(e),
    {
        if e.0 < self.renderables.len() {
            self.renderables[e.0]
        } else {
            None
        }
    }

    /// Whether `e` has a field of view.
    pub fn has_fov(&self, e: Entity) -> (b: bool)
        ensures
            b == self.spec_fov(e).is_some(),
    {
        e.0 < self.fovs.len() && self.fovs[e.0].is_some()
    }

    /// Whether `e` sees tile `(x, y)` right now; an entity without a field
    /// of view sees nothing.
    pub fn sees(&self, e: Entity, x: i32, y: i32) -> (b: bool)
        requires
            self.wf(),
        ensures
            b == (self.spec_fov(e).is_some() && self.spec_fov(e).unwrap().visible@.contains(
                (x as int, y as int),
            )),
    {
        if e.0 < self.fovs.len() {
            match &self.fovs[e.0] {
                Some(f) => f.is_visible(x, y),
                None => false,
            }
        } else {
            false
        }
    }

    /// Whether `e` has ever seen tile `(x, y)`.
    pub fn has_seen(&self, e: Entity, x: i32, y: i32) -> (b: bool)
        requires
            self.wf(),
        ensures
            b == (self.spec_fov(e).is_some() && self.spec_fov(e).unwrap().seen@.contains(
                (x as int, y as int),
            )),
    {
        if e.0 < self.fovs.len() {
            match &self.fovs[e.0] {
                Some(f) => f.is_seen(x, y),
                None => false,
            }
        } else {
            false
        }
    }

    /// Gives `e` the roles `t`.
    pub fn set_tags(&mut self, e: Entity, t: Tags)
        requires
            old(self).wf(),
            old(self).spec_contains(e),
        ensures
            final(self).wf(),
            final(self).tags@ == old(self).tags@.update(e.0 as int, t),
            final(self).live == old(self).live,
            final(self).positions == old(self).positions,
            final(self).stats == old(self).stats,
            final(self).fovs == old(self).fovs,
            final(self).names == old(self).names,
            final(self).renderables == old(self).renderables,
    {
        self.tags.set(e.0, t);
    }

    /// Puts `e` at `p`, or takes its position away.
    pub fn set_position(&mut self, e: Entity, p: Option<Position>)
        requires
            old(self).wf(),
            old(self).spec_contains(e),
        ensures
            final(self).wf(),
            final(self).positions@ == old(self).positions@.update(e.0 as int, p),
            final(self).live == old(self).live,
            final(self).tags == old(self).tags,
            final(self).stats == old(self).stats,
            final(self).fovs == old(self).fovs,
            final(self).names == old(self).names,
            final(self).renderables == old(self).renderables,
    {
        self.positions.set(e.0, p);
    }

    /// Gives `e` the combat stats `s`, or takes its stats away.
    pub fn set_stats(&mut self, e: Entity, s: Option<CombatStats>)
        requires
            old(self).wf(),
            old(self).spec_contains(e),
            s.is_some() ==> s.unwrap().wf(),
        ensures
            final(self).wf(),
            final(self).stats@ == old(self).stats@.update(e.0 as int, s),
            final(self).live == old(self).live,
            final(self).tags == old(self).tags,
            final(self).positions == old(self).positions,
            final(self).fovs == old(self).fovs,
            final(self).names == old(self).names,
            final(self).renderables == old(self).renderables,
    {
        self.stats.set(e.0, s);
    }

    /// Gives `e` the field of view `f`, or takes its field of view away.
    pub fn set_fov(&mut self, e: Entity, f: Option<FieldOfView>)
        requires
            old(self).wf(),
            old(self).spec_contains(e),
            f.is_some() ==> f.unwrap().wf(),
        ensures
            final(self).wf(),
            final(self).fovs@ == old(self).fovs@.update(e.0 as int, f),
            final(self).live == old(self).live,
            final(self).tags == old(self).tags,
            final(self).positions == old(self).positions,
            final(self).stats == old(self).stats,
            final(self).names == old(self).names,
            final(self).renderables == old(self).renderables,
    {
        self.fovs.set(e.0, f);
    }

    /// Gives `e` the name `n`, or takes its name away.
    pub fn set_name(&mut self, e: Entity, n: Option<String>)
        requires
            old(self).wf(),
            old(self).spec_contains(e),
        ensures
            final(self).wf(),
            final(self).names@ == old(self).names@.update(e.0 as int, n),
            final(self).live == old(self).live,
            final(self).tags == old(self).tags,
            final(self).positions == old(self).positions,
            final(self).stats == old(self).stats,
            final(self).fovs == old(self).fovs,
            final(self).renderables == old(self).renderables,
    {
        self.names.set(e.0, n);
    }

    /// Gives `e` the glyph and colours `r`, or takes them away.
    pub fn set_renderable(&mut self, e: Entity, r: Option<Renderable>)
        requires
            old(self).wf(),
            old(self).spec_contains(e),
        ensures
            final(self).wf(),
            final(self).renderables@ == old(self).renderables@.update(e.0 as int, r),
            final(self).live == old(self).live,
            final(self).tags == old(self).tags,
            final(self).positions == old(self).positions,
            final(self).stats == old(self).stats,
            final(self).fovs == old(self).fovs,
            final(self).names == old(self).names,
    {
        self.renderables.set(e.0, r);
    }
}

/// Whether no entity occurs twice in `s`.
pub open spec fn spec_distinct(s: Seq<Entity>) -> bool {
    forall|i: int, j: int| 0 <= i < j < s.len() ==> s[i] != s[j]
}

/// The entities whose hit points ran out this turn and that are not removed
/// yet.
pub struct DeadEntities {
    pub ids: Vec<Entity>,
}

impl DeadEntities {
    /// No entity is recorded twice.
    pub open spec fn wf(&self) -> bool {
        spec_distinct(self.ids@)
    }

    /// The set of recorded entities.
    pub open spec fn view(&self) -> Set<Entity> {
        Set::new(|e: Entity| self.ids@.contains(e))
    }

    /// An empty set.
    pub fn new() -> (d: DeadEntities)
        ensures
            d.wf(),
            d@ == Set::<Entity>::empty(),
            d.ids@.len() == 0,
    {
        let d = DeadEntities { ids: Vec::new() };
        d
    }

    /// Whether `e` is recorded.
    pub fn contains(&self, e: Entity) -> (b: bool)
        ensures
            b == self@.contains(e),
    {
        let mut i: usize = 0;
        while i < self.ids.len()
            invariant
                i <= self.ids.len(),
                forall|k: int| 0 <= k < i ==> self.ids[k] != e,
            decreases self.ids.len() - i,
        {
            if self.ids[i] == e {
                return true;
            }
            i = i + 1;
        }
        false
    }

    /// Records `e`; recording an entity again changes nothing.
    pub fn insert(&mut self, e: Entity)
        requires
            old(self).wf(),
        ensures
            final(self).wf(),
            final(self)@ == old(self)@.insert(e),
            old(self)@.contains(e) ==> final(self).ids == old(self).ids,
            !old(self)@.contains(e) ==> final(self).ids@ == old(self).ids@.push(e),
    {
        if !self.contains(e) {
            self.ids.push(e);
            proof {
                assert forall|o: Entity| self@.contains(o) == old(self)@.insert(e).contains(o) by {
                    if old(self).ids@.contains(o) {
                        let k = choose|k: int| 0 <= k < old(self).ids@.len() && old(self).ids@[k]
                            == o;
                        assert(self.ids@[k] == o);
                    }
                    if o == e {
                        assert(self.ids@[self.ids@.len() - 1] == e);
                    }
                }
            }
        }
    }
}

/// The monsters that are still owed a turn in the current pass, the next one
/// first.
pub struct MonsterTurns {
    pub queue: Vec<Entity>,
}

impl MonsterTurns {
    /// The monsters that are still owed a turn, the next one first.
    pub open spec fn view(&self) -> Seq<Entity> {
        self.queue@
    }

    /// A registry that owes nobody a turn.
    pub fn new() -> (t: MonsterTurns)
        ensures
            t@ == Seq::<Entity>::empty(),
    {
        MonsterTurns { queue: Vec::new() }
    }
}

} // verus!
