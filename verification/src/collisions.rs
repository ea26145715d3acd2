//! What physics reports of collisions, told in terms of entities.
use vstd::prelude::*;
use crate::entity::Entity;
use crate::events::{EventBus, GameEvent};

verus! {

/// What happened between two entities; `F` is the type of a contact force.
#[derive(Clone, Copy)]
pub enum CollisionEventKind<F> {
    Started,
    Stopped,
    Force(F),
}

/// Two colliders that began or ceased to touch.
#[derive(Clone, Copy)]
pub struct TouchReport {
    pub first: u64,
    pub second: u64,
    pub started: bool,
    /// Whether one of the two only senses.
    pub sensor: bool,
}

/// Two colliders that press on each other.
#[derive(Clone, Copy)]
pub struct ForceReport<F> {
    pub first: u64,
    pub second: u64,
    pub force: F,
}

/// Which entity a collider belongs to.
pub struct ColliderEntities {
    pub rows: Vec<(u64, Entity)>,
}

/// The entity of a collider among the first `n` rows: the row that came last counts.
pub open spec fn owner_among(rows: Seq<(u64, Entity)>, collider: u64, n: int) -> Option<Entity>
    decreases n,
{
    if n <= 0 {
        None
    } else if rows[n - 1].0 == collider {
        Some(rows[n - 1].1)
    } else {
        owner_among(rows, collider, n - 1)
    }
}

proof fn lemma_owner_of_other(rows: Seq<(u64, Entity)>, new: (u64, Entity), collider: u64, n: int)
    requires
        0 <= n <= rows.len(),
    ensures
        owner_among(rows.push(new), collider, n) == owner_among(rows, collider, n),
    decreases n,
{
    if n > 0 {
        lemma_owner_of_other(rows, new, collider, n - 1);
    }
}

/// The rows among the first `n` that are not of a collider.
pub open spec fn rows_without(rows: Seq<(u64, Entity)>, collider: u64, n: int) -> Seq<(u64, Entity)>
    decreases n,
{
    if n <= 0 {
        Seq::empty()
    } else if rows[n - 1].0 == collider {
        rows_without(rows, collider, n - 1)
    } else {
        rows_without(rows, collider, n - 1).push(rows[n - 1])
    }
}

proof fn lemma_owner_without(rows: Seq<(u64, Entity)>, gone: u64, collider: u64, n: int)
    requires
        0 <= n <= rows.len(),
    ensures
        ({
            let left = rows_without(rows, gone, n);
            owner_among(left, collider, left.len() as int) == (if collider == gone {
                None
            } else {
                owner_among(rows, collider, n)
            })
        }),
    decreases n,
{
    if n > 0 {
        lemma_owner_without(rows, gone, collider, n - 1);
        let before = rows_without(rows, gone, n - 1);
        if rows[n - 1].0 != gone {
            lemma_owner_of_other(before, rows[n - 1], collider, before.len() as int);
        }
    }
}

impl ColliderEntities {
    pub open spec fn owner(self, collider: u64) -> Option<Entity> {
        owner_among(self.rows@, collider, self.rows@.len() as int)
    }

    pub fn new() -> (r: Self)
        ensures
            forall|c: u64| (#[trigger] r.owner(c)) is None,
    {
        ColliderEntities { rows: Vec::new() }
    }

    pub fn register_collider_entity(&mut self, collider: u64, entity: Entity)
        ensures
            forall|c: u64|
                (#[trigger] final(self).owner(c)) == (if c == collider {
                    Some(entity)
                } else {
                    old(self).owner(c)
                }),
    {
        self.unregister_collider(collider);
        let ghost left = *self;
        self.rows.push((collider, entity));
        proof {
            assert forall|c: u64| (#[trigger] self.owner(c)) == (if c == collider {
                Some(entity)
            } else {
                old(self).owner(c)
            }) by {
                lemma_owner_of_other(left.rows@, (collider, entity), c, left.rows@.len() as int);
                assert(c != collider ==> left.owner(c) == old(self).owner(c));
            }
        }
    }

    pub fn unregister_collider(&mut self, collider: u64)
        ensures
            forall|c: u64|
                (#[trigger] final(self).owner(c)) == (if c == collider {
                    None
                } else {
                    old(self).owner(c)
                }),
    {
        let mut left: Vec<(u64, Entity)> = Vec::new();
        let mut i: usize = 0;
        while i < self.rows.len()
            invariant
                i <= self.rows@.len(),
                self.rows == old(self).rows,
                left@ == rows_without(self.rows@, collider, i as int),
            decreases self.rows@.len() - i,
        {
            let row = self.rows[i];
            if row.0 != collider {
                left.push(row);
            }
            i = i + 1;
        }
        self.rows = left;
        proof {
            assert forall|c: u64| (#[trigger] self.owner(c)) == (if c == collider {
                None
            } else {
                old(self).owner(c)
            }) by {
                lemma_owner_without(old(self).rows@, collider, c, old(self).rows@.len() as int);
            }
        }
    }

    pub fn find(&self, collider: u64) -> (r: Option<Entity>)
        ensures
            r == self.owner(collider),
    {
        let mut n: usize = self.rows.len();
        while n > 0
            invariant
                n <= self.rows@.len(),
                self.owner(collider) == owner_among(self.rows@, collider, n as int),
            decreases n,
        {
            if self.rows[n - 1].0 == collider {
                return Some(self.rows[n - 1].1);
            }
            n = n - 1;
        }
        None
    }
}

/// What a touch means for entities: nothing where one only senses or belongs to none.
pub open spec fn touch_told<F>(owners: ColliderEntities, t: TouchReport) -> Option<
    (CollisionEventKind<F>, Entity, Entity),
> {
    match (owners.owner(t.first), owners.owner(t.second)) {
        (Some(a), Some(b)) => if t.sensor {
            None
        } else {
            Some(
                (
                    if t.started {
                        CollisionEventKind::Started
                    } else {
                        CollisionEventKind::Stopped
                    },
                    a,
                    b,
                ),
            )
        },
        _ => None,
    }
}

pub open spec fn force_told<F>(owners: ColliderEntities, f: ForceReport<F>) -> Option<
    (CollisionEventKind<F>, Entity, Entity),
> {
    match (owners.owner(f.first), owners.owner(f.second)) {
        (Some(a), Some(b)) => Some((CollisionEventKind::Force(f.force), a, b)),
        _ => None,
    }
}

pub open spec fn touches_told<F>(owners: ColliderEntities, touches: Seq<TouchReport>, n: int) -> Seq<
    (CollisionEventKind<F>, Entity, Entity),
>
    decreases n,
{
    if n <= 0 {
        Seq::empty()
    } else {
        match touch_told::<F>(owners, touches[n - 1]) {
            Some(told) => touches_told(owners, touches, n - 1).push(told),
            None => touches_told(owners, touches, n - 1),
        }
    }
}

pub open spec fn forces_told<F>(
    owners: ColliderEntities,
    start: Seq<(CollisionEventKind<F>, Entity, Entity)>,
    forces: Seq<ForceReport<F>>,
    n: int,
) -> Seq<(CollisionEventKind<F>, Entity, Entity)>
    decreases n,
{
    if n <= 0 {
        start
    } else {
        match force_told(owners, forces[n - 1]) {
            Some(told) => forces_told(owners, start, forces, n - 1).push(told),
            None => forces_told(owners, start, forces, n - 1),
        }
    }
}

/// Tells in terms of entities what physics reports: touches first, then forces.
pub fn drain_collision_events<F: Copy>(
    owners: &ColliderEntities,
    touches: &Vec<TouchReport>,
    forces: &Vec<ForceReport<F>>,
) -> (r: Vec<(CollisionEventKind<F>, Entity, Entity)>)
    ensures
        r@ == forces_told(
            *owners,
            touches_told::<F>(*owners, touches@, touches@.len() as int),
            forces@,
            forces@.len() as int,
        ),
{
    let mut out: Vec<(CollisionEventKind<F>, Entity, Entity)> = Vec::new();
    let mut i: usize = 0;
    while i < touches.len()
        invariant
            i <= touches@.len(),
            out@ == touches_told::<F>(*owners, touches@, i as int),
        decreases touches@.len() - i,
    {
        let t = touches[i];
        let kind = if t.started {
            CollisionEventKind::Started
        } else {
            CollisionEventKind::Stopped
        };
        match (owners.find(t.first), owners.find(t.second)) {
            (Some(a), Some(b)) => {
                if !t.sensor {
                    out.push((kind, a, b));
                }
            },
            _ => {},
        }
        i = i + 1;
    }
    let ghost start = out@;
    let mut k: usize = 0;
    while k < forces.len()
        invariant
            k <= forces@.len(),
            out@ == forces_told(*owners, start, forces@, k as int),
        decreases forces@.len() - k,
    {
        let f = forces[k];
        match (owners.find(f.first), owners.find(f.second)) {
            (Some(a), Some(b)) => {
                out.push((CollisionEventKind::Force(f.force), a, b));
            },
            _ => {},
        }
        k = k + 1;
    }
    out
}

/// The event that a collision is.
pub open spec fn collision_event<F>(told: (CollisionEventKind<F>, Entity, Entity)) -> GameEvent<F> {
    let (a, b) = crate::events::pair_of(told.1, told.2);
    match told.0 {
        CollisionEventKind::Started => GameEvent::CollisionStarted { a, b },
        CollisionEventKind::Stopped => GameEvent::CollisionEnded { a, b },
        CollisionEventKind::Force(force) => GameEvent::CollisionForce { a, b, force },
    }
}

/// Puts collisions on the bus.
pub fn publish_collisions<F: Copy>(
    told: &Vec<(CollisionEventKind<F>, Entity, Entity)>,
    bus: &mut EventBus<F>,
)
    ensures
        final(bus).events@ == old(bus).events@ + Seq::new(
            told@.len(),
            |i: int| collision_event(told@[i]),
        ),
{
    let mut i: usize = 0;
    assert(bus.events@ =~= old(bus).events@ + Seq::new(0, |i: int| collision_event(told@[i])));
    while i < told.len()
        invariant
            i <= told@.len(),
            bus.events@ == old(bus).events@ + Seq::new(
                i as nat,
                |i: int| collision_event(told@[i]),
            ),
        decreases told@.len() - i,
    {
        let (kind, a, b) = told[i];
        let ghost before = bus.events@;
        match kind {
            CollisionEventKind::Started => bus.push(GameEvent::collision_started(a, b)),
            CollisionEventKind::Stopped => bus.push(GameEvent::collision_ended(a, b)),
            CollisionEventKind::Force(force) => bus.push(GameEvent::collision_force(a, b, force)),
        }
        assert(bus.events@ =~= old(bus).events@ + Seq::new(
            (i + 1) as nat,
            |i: int| collision_event(told@[i]),
        ));
        i = i + 1;
    }
}

/// A collider that only senses never leads to an event of touching.
pub proof fn law_sensors_are_silent<F>(owners: ColliderEntities, touches: Seq<TouchReport>, n: int)
    requires
        0 <= n <= touches.len(),
        forall|i: int| 0 <= i < n ==> (#[trigger] touches[i]).sensor,
    ensures
        touches_told::<F>(owners, touches, n) == Seq::<
            (CollisionEventKind<F>, Entity, Entity),
        >::empty(),
    decreases n,
{
    if n > 0 {
        law_sensors_are_silent::<F>(owners, touches, n - 1);
    }
}

} // verus!
