//! What happened in the world during a frame.
use std::sync::Arc;
use vstd::prelude::*;
use vstd::string::StringExecFns;
use crate::entity::Entity;
use crate::text::{decimal, join3, to_decimal};

verus! {

/// An event; `F` is the type of a contact force.
pub enum GameEvent<F> {
    SpriteSpawned { entity: Entity, atlas: Arc<String>, region: Arc<String> },
    SpriteAnimationEvent { entity: Entity, timeline: Arc<String>, event: Arc<String> },
    EntityDespawned { entity: Entity },
    CollisionStarted { a: Entity, b: Entity },
    CollisionEnded { a: Entity, b: Entity },
    CollisionForce { a: Entity, b: Entity, force: F },
    ScriptMessage { message: String },
}

/// Two entities, the one with the smaller index first.
pub open spec fn pair_of(a: Entity, b: Entity) -> (Entity, Entity) {
    if a.index_of() <= b.index_of() {
        (a, b)
    } else {
        (b, a)
    }
}

/// For entities of different rows the order in which they are named does not matter.
pub proof fn law_pair_is_unordered(a: Entity, b: Entity)
    requires
        a.index_of() != b.index_of() || a == b,
    ensures
        pair_of(a, b) == pair_of(b, a),
{
}

pub fn ordered_pair(a: Entity, b: Entity) -> (r: (Entity, Entity))
    ensures
        r == pair_of(a, b),
{
    if a.index() <= b.index() {
        (a, b)
    } else {
        (b, a)
    }
}

/// An event in words; `force` is its contact force in words.
pub open spec fn event_text<F>(event: GameEvent<F>, force: Seq<char>) -> Seq<char> {
    match event {
        GameEvent::SpriteSpawned { entity, atlas, region } => "SpriteSpawned entity="@ + decimal(
            entity.index_of() as int,
        ) + " atlas="@ + atlas@ + " region="@ + region@,
        GameEvent::SpriteAnimationEvent { entity, timeline, event } =>
            "SpriteAnimationEvent entity="@ + decimal(entity.index_of() as int) + " timeline="@
            + timeline@ + " event="@ + event@,
        GameEvent::EntityDespawned { entity } => "EntityDespawned entity="@ + decimal(
            entity.index_of() as int,
        ),
        GameEvent::CollisionStarted { a, b } => "CollisionStarted a="@ + decimal(
            a.index_of() as int,
        ) + " b="@ + decimal(b.index_of() as int),
        GameEvent::CollisionEnded { a, b } => "CollisionEnded a="@ + decimal(a.index_of() as int)
            + " b="@ + decimal(b.index_of() as int),
        GameEvent::CollisionForce { a, b, .. } => "CollisionForce a="@ + decimal(
            a.index_of() as int,
        ) + " b="@ + decimal(b.index_of() as int) + " force="@ + force,
        GameEvent::ScriptMessage { message } => "ScriptMessage "@ + message@,
    }
}

fn index_text(entity: Entity) -> (r: String)
    ensures
        r@ == decimal(entity.index_of() as int),
{
    to_decimal(entity.index() as u64)
}

impl<F> GameEvent<F> {
    pub fn describe(&self, force: &str) -> (r: String)
        ensures
            r@ == event_text(*self, force@),
    {
        match self {
            GameEvent::SpriteSpawned { entity, atlas, region } => {
                let mut out = join3("SpriteSpawned entity=", index_text(*entity).as_str(), " atlas=");
                out.append(atlas.as_str());
                out.append(" region=");
                out.append(region.as_str());
                out
            },
            GameEvent::SpriteAnimationEvent { entity, timeline, event } => {
                let mut out = join3(
                    "SpriteAnimationEvent entity=",
                    index_text(*entity).as_str(),
                    " timeline=",
                );
                out.append(timeline.as_str());
                out.append(" event=");
                out.append(event.as_str());
                out
            },
            GameEvent::EntityDespawned { entity } => {
                let mut out = "EntityDespawned entity=".to_owned();
                out.append(index_text(*entity).as_str());
                out
            },
            GameEvent::CollisionStarted { a, b } => {
                let mut out = join3("CollisionStarted a=", index_text(*a).as_str(), " b=");
                out.append(index_text(*b).as_str());
                out
            },
            GameEvent::CollisionEnded { a, b } => {
                let mut out = join3("CollisionEnded a=", index_text(*a).as_str(), " b=");
                out.append(index_text(*b).as_str());
                out
            },
            GameEvent::CollisionForce { a, b, .. } => {
                let mut out = join3("CollisionForce a=", index_text(*a).as_str(), " b=");
                out.append(index_text(*b).as_str());
                out.append(" force=");
                out.append(force);
                out
            },
            GameEvent::ScriptMessage { message } => {
                let mut out = "ScriptMessage ".to_owned();
                out.append(message.as_str());
                out
            },
        }
    }

    pub fn collision_started(a: Entity, b: Entity) -> (r: Self)
        ensures
            r == (GameEvent::<F>::CollisionStarted { a: pair_of(a, b).0, b: pair_of(a, b).1 }),
    {
        let (a, b) = ordered_pair(a, b);
        GameEvent::CollisionStarted { a, b }
    }

    pub fn collision_ended(a: Entity, b: Entity) -> (r: Self)
        ensures
            r == (GameEvent::<F>::CollisionEnded { a: pair_of(a, b).0, b: pair_of(a, b).1 }),
    {
        let (a, b) = ordered_pair(a, b);
        GameEvent::CollisionEnded { a, b }
    }

    pub fn collision_force(a: Entity, b: Entity, force: F) -> (r: Self)
        ensures
            r == (GameEvent::CollisionForce { a: pair_of(a, b).0, b: pair_of(a, b).1, force }),
    {
        let (a, b) = ordered_pair(a, b);
        GameEvent::CollisionForce { a, b, force }
    }
}

/// The events since they were last taken, in the order in which they came.
pub struct EventBus<F> {
    pub events: Vec<GameEvent<F>>,
}

impl<F> View for EventBus<F> {
    type V = Seq<GameEvent<F>>;

    open spec fn view(&self) -> Seq<GameEvent<F>> {
        self.events@
    }
}

impl<F> EventBus<F> {
    pub fn new() -> (r: Self)
        ensures
            r@ == Seq::<GameEvent<F>>::empty(),
    {
        EventBus { events: Vec::new() }
    }

    pub fn push(&mut self, event: GameEvent<F>)
        ensures
            final(self)@ == old(self)@.push(event),
    {
        self.events.push(event);
    }

    /// Hands out every event and keeps none.
    pub fn drain(&mut self) -> (r: Vec<GameEvent<F>>)
        ensures
            r@ == old(self)@,
            final(self)@ == Seq::<GameEvent<F>>::empty(),
    {
        let mut taken: Vec<GameEvent<F>> = Vec::new();
        std::mem::swap(&mut taken, &mut self.events);
        taken
    }
}

} // verus!
