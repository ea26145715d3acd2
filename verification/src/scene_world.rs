//! Whole scenes: how they come into the world and how the world is written down.
use vstd::prelude::*;
use crate::anim_stats::AnimationRecorder;
use crate::entity::Entity;
use crate::hierarchy::{
    attach_child_to_parent, attached, collect_scene_entity, find_scene_roots, joins_scene,
    lemma_member_row, listed_with, listed_with_all, member_row, row, scene_roots, views, Listed,
    Member, MemberView,
};
use crate::scalar::Scalar;
use crate::scene::{
    describe_entity, entity_spawned, parent_missing, parent_place, place_of_id, resolve_parents,
    resolve_prefab_parents, row_described, spawn_scene_entity, AtlasRegion, EmitterLook,
    EntityRow, SceneEntity, SceneError,
};
use crate::sprite_timeline::AtlasTimeline;

verus! {

/// What is known of an entity of a scene from elsewhere: the region of its sprite, the timeline of
/// its animation, and the share of the timeline at which a random start begins.
pub struct SceneSource<S> {
    pub region: Option<AtlasRegion<S>>,
    pub timeline: Option<AtlasTimeline<S>>,
    pub random_fraction: S,
}

/// Whether the sprite of an entity of a scene has a region that nothing is known of.
pub open spec fn region_unknown<S>(data: SceneEntity<S>, source: SceneSource<S>) -> bool {
    data.sprite is Some && source.region is None
}

/// Whether rows are the first `n` entities of a scene come to life one after the other; `records`
/// is what was recorded before each of them and after the last.
pub open spec fn come_to_life<S: Scalar>(
    entities: Seq<SceneEntity<S>>,
    look: EmitterLook,
    sources: Seq<SceneSource<S>>,
    ids: Seq<Entity>,
    rows: Seq<EntityRow<S>>,
    records: Seq<AnimationRecorder<S>>,
    n: int,
) -> bool {
    &&& rows.len() == n
    &&& records.len() == n + 1
    &&& forall|i: int|
        0 <= i < n ==> entity_spawned(
            entities[i],
            look,
            sources[i].region,
            sources[i].timeline,
            ids[i],
            sources[i].random_fraction,
            records[i],
            #[trigger] rows[i],
            records[i + 1],
        )
}

/// Whether rows are all entities of a scene come to life one after the other.
pub open spec fn all_come_to_life<S: Scalar>(
    entities: Seq<SceneEntity<S>>,
    look: EmitterLook,
    sources: Seq<SceneSource<S>>,
    ids: Seq<Entity>,
    rows: Seq<EntityRow<S>>,
    before: AnimationRecorder<S>,
    after: AnimationRecorder<S>,
) -> bool {
    exists|records: Seq<AnimationRecorder<S>>|
        #[trigger] come_to_life(
            entities,
            look,
            sources,
            ids,
            rows,
            records,
            entities.len() as int,
        ) && records[0] == before && records[entities.len() as int] == after
}

/// The first entity of a scene whose region is not known, and what was recorded until then.
pub open spec fn stops_at<S: Scalar>(
    entities: Seq<SceneEntity<S>>,
    look: EmitterLook,
    sources: Seq<SceneSource<S>>,
    ids: Seq<Entity>,
    before: AnimationRecorder<S>,
    after: AnimationRecorder<S>,
    i: int,
    e: SceneError,
) -> bool {
    &&& 0 <= i < entities.len()
    &&& region_unknown(entities[i], sources[i])
    &&& forall|j: int| 0 <= j < i ==> !region_unknown(#[trigger] entities[j], sources[j])
    &&& e == (SceneError::UnknownRegion {
        atlas: entities[i].sprite->0.atlas,
        region: entities[i].sprite->0.region,
    })
    &&& exists|rows: Seq<EntityRow<S>>, records: Seq<AnimationRecorder<S>>|
        #[trigger] come_to_life(entities, look, sources, ids, rows, records, i) && records[0]
            == before && records[i] == after
}

fn spawn_all<S: Scalar>(
    entities: Vec<SceneEntity<S>>,
    look: &EmitterLook,
    sources: &Vec<SceneSource<S>>,
    ids: &Vec<Entity>,
    recorder: &mut AnimationRecorder<S>,
) -> (r: Result<Vec<EntityRow<S>>, SceneError>)
    requires
        sources@.len() == entities@.len(),
        ids@.len() == entities@.len(),
        forall|i: int|
            0 <= i < sources@.len() ==> ((#[trigger] sources@[i]).timeline is Some
                ==> sources@[i].timeline->0.wf()),
    ensures
        match r {
            Ok(rows) => all_come_to_life(
                entities@,
                *look,
                sources@,
                ids@,
                rows@,
                *old(recorder),
                *final(recorder),
            ),
            Err(e) => exists|i: int|
                #[trigger] stops_at(
                    entities@,
                    *look,
                    sources@,
                    ids@,
                    *old(recorder),
                    *final(recorder),
                    i,
                    e,
                ),
        },
{
    let ghost all = entities@;
    let mut rest = entities;
    let mut rows: Vec<EntityRow<S>> = Vec::new();
    let ghost mut records = seq![*recorder];
    let count: usize = rest.len();
    let mut i: usize = 0;
    while i < count
        invariant
            i <= count,
            all == entities@,
            count == all.len(),
            sources@.len() == all.len(),
            ids@.len() == all.len(),
            forall|k: int|
                0 <= k < sources@.len() ==> ((#[trigger] sources@[k]).timeline is Some
                    ==> sources@[k].timeline->0.wf()),
            rest@ == all.skip(i as int),
            come_to_life(all, *look, sources@, ids@, rows@, records, i as int),
            records[0] == *old(recorder),
            records[i as int] == *recorder,
            forall|j: int| 0 <= j < i ==> !region_unknown(#[trigger] all[j], sources@[j]),
        decreases count - i,
    {
        let data = rest.remove(0);
        proof {
            assert(data == all[i as int]);
            assert(rest@ =~= all.skip(i + 1));
        }
        let ghost before = rows@;
        match spawn_scene_entity(
            data,
            look,
            &sources[i].region,
            &sources[i].timeline,
            ids[i],
            sources[i].random_fraction,
            recorder,
        ) {
            Ok(made) => {
                rows.push(made);
                proof {
                    let past = records;
                    records = records.push(*recorder);
                    assert forall|k: int| 0 <= k < i + 1 implies entity_spawned(
                        all[k],
                        *look,
                        sources@[k].region,
                        sources@[k].timeline,
                        ids@[k],
                        sources@[k].random_fraction,
                        records[k],
                        #[trigger] rows@[k],
                        records[k + 1],
                    ) by {
                        if k < i {
                            assert(rows@[k] == before[k]);
                            assert(records[k] == past[k] && records[k + 1] == past[k + 1]);
                        }
                    }
                }
            },
            Err(e) => {
                proof {
                    assert(come_to_life(all, *look, sources@, ids@, rows@, records, i as int));
                    assert(stops_at(
                        all,
                        *look,
                        sources@,
                        ids@,
                        *old(recorder),
                        *recorder,
                        i as int,
                        e,
                    ));
                }
                return Err(e);
            },
        }
        i = i + 1;
    }
    assert(come_to_life(
        entities@,
        *look,
        sources@,
        ids@,
        rows@,
        records,
        entities@.len() as int,
    ));
    Ok(rows)
}

/// A member that belongs to nobody yet.
pub open spec fn loose(entity: Entity) -> MemberView {
    MemberView { entity, parent: None, children: None, placed: true, is_particle: false }
}

pub open spec fn all_loose(ids: Seq<Entity>) -> Seq<MemberView> {
    ids.map_values(|e: Entity| loose(e))
}

fn make_members(ids: &Vec<Entity>) -> (r: Vec<Member>)
    ensures
        views(r@) == all_loose(ids@),
{
    let mut out: Vec<Member> = Vec::new();
    let mut i: usize = 0;
    while i < ids.len()
        invariant
            i <= ids@.len(),
            out@.len() == i,
            forall|k: int| 0 <= k < i ==> (#[trigger] out@[k])@ == loose(ids@[k]),
        decreases ids@.len() - i,
    {
        out.push(
            Member {
                entity: ids[i],
                parent: None,
                children: None,
                placed: true,
                is_particle: false,
            },
        );
        i = i + 1;
    }
    assert(views(out@) =~= all_loose(ids@));
    out
}

/// The first `n` entities made the children of their parents, in order.
pub open spec fn linked(
    members: Seq<MemberView>,
    ids: Seq<Entity>,
    parents: Seq<Option<usize>>,
    n: int,
) -> Seq<MemberView>
    decreases n,
{
    if n <= 0 {
        members
    } else {
        let before = linked(members, ids, parents, n - 1);
        match parents[n - 1] {
            Some(p) => attached(before, ids[n - 1], ids[p as int]),
            None => before,
        }
    }
}

proof fn lemma_same_rows(a: Seq<Member>, b: Seq<Member>, entity: Entity, n: int)
    requires
        a.len() == b.len(),
        0 <= n <= a.len(),
        forall|i: int| 0 <= i < a.len() ==> (#[trigger] a[i]).entity == b[i].entity,
    ensures
        member_row(a, entity, n) == member_row(b, entity, n),
    decreases n,
{
    if n > 0 {
        lemma_same_rows(a, b, entity, n - 1);
        assert(a[n - 1].entity == b[n - 1].entity);
    }
}

fn link_parents(members: &mut Vec<Member>, ids: &Vec<Entity>, parents: &Vec<Option<usize>>)
    requires
        parents@.len() == ids@.len(),
        forall|i: int|
            0 <= i < parents@.len() ==> ((#[trigger] parents@[i]) is Some ==> parents@[i]->0
                < ids@.len()),
        forall|i: int| 0 <= i < ids@.len() ==> row(old(members)@, #[trigger] ids@[i]) >= 0,
    ensures
        views(final(members)@) == linked(
            views(old(members)@),
            ids@,
            parents@,
            ids@.len() as int,
        ),
{
    let ghost start = members@;
    let mut i: usize = 0;
    while i < ids.len()
        invariant
            i <= ids@.len(),
            parents@.len() == ids@.len(),
            forall|k: int|
                0 <= k < parents@.len() ==> ((#[trigger] parents@[k]) is Some ==> parents@[k]->0
                    < ids@.len()),
            start == old(members)@,
            forall|k: int| 0 <= k < ids@.len() ==> row(start, #[trigger] ids@[k]) >= 0,
            members@.len() == start.len(),
            forall|k: int| 0 <= k < start.len() ==> (#[trigger] members@[k]).entity
                == start[k].entity,
            views(members@) == linked(views(start), ids@, parents@, i as int),
        decreases ids@.len() - i,
    {
        if let Some(p) = parents[i] {
            let ghost before = members@;
            proof {
                assert(parents@[i as int] is Some);
                lemma_same_rows(before, start, ids@[i as int], start.len() as int);
                lemma_same_rows(before, start, ids@[p as int], start.len() as int);
                lemma_member_row(before, ids@[i as int], before.len() as int);
                lemma_member_row(before, ids@[p as int], before.len() as int);
            }
            attach_child_to_parent(members, ids[i], ids[p]);
            proof {
                assert forall|k: int| 0 <= k < start.len() implies (#[trigger] members@[k]).entity
                    == start[k].entity by {
                    assert(before[k].entity == start[k].entity);
                }
            }
        }
        i = i + 1;
    }
}

/// A scene in the world: its entities and who belongs to whom.
pub struct LoadedScene<S> {
    pub rows: Vec<EntityRow<S>>,
    pub members: Vec<Member>,
}

proof fn lemma_made_members_have_rows(members: Seq<Member>, ids: Seq<Entity>)
    requires
        views(members) == all_loose(ids),
    ensures
        forall|i: int| 0 <= i < ids.len() ==> row(members, #[trigger] ids[i]) >= 0,
{
    assert(members.len() == views(members).len());
    assert forall|i: int| 0 <= i < ids.len() implies row(members, #[trigger] ids[i]) >= 0 by {
        lemma_member_row(members, ids[i], members.len() as int);
        assert(views(members)[i] == loose(ids[i]));
        assert(members[i].entity == ids[i]);
    }
}

/// Whether a parent of a scene is not there, and none before it.
pub open spec fn first_parent_missing<S>(
    entities: Seq<SceneEntity<S>>,
    i: int,
    e: SceneError,
) -> bool {
    &&& 0 <= i < entities.len()
    &&& parent_missing(entities, i)
    &&& e == (SceneError::ParentOutOfBounds { index: parent_place(entities, i)->0 })
    &&& forall|j: int| 0 <= j < i ==> !#[trigger] parent_missing(entities, j)
}

/// The places of the parents of all entities of a scene.
pub open spec fn parent_places<S>(entities: Seq<SceneEntity<S>>) -> Seq<Option<usize>> {
    Seq::new(entities.len(), |i: int| parent_place(entities, i))
}

/// The same for a prefab, where a parent that is not there is none.
pub open spec fn prefab_places<S>(entities: Seq<SceneEntity<S>>) -> Seq<Option<usize>> {
    Seq::new(
        entities.len(),
        |i: int|
            if parent_missing(entities, i) {
                None
            } else {
                parent_place(entities, i)
            },
    )
}

/// Brings a scene to life under given identities. All entities come to life before any gets its
/// parent, so an unknown region is told of before a missing parent.
pub fn load_scene_internal<S: Scalar>(
    entities: Vec<SceneEntity<S>>,
    look: &EmitterLook,
    sources: &Vec<SceneSource<S>>,
    ids: &Vec<Entity>,
    recorder: &mut AnimationRecorder<S>,
) -> (r: Result<LoadedScene<S>, SceneError>)
    requires
        sources@.len() == entities@.len(),
        ids@.len() == entities@.len(),
        forall|i: int|
            0 <= i < sources@.len() ==> ((#[trigger] sources@[i]).timeline is Some
                ==> sources@[i].timeline->0.wf()),
    ensures
        match r {
            Ok(scene) => {
                &&& forall|i: int|
                    0 <= i < entities@.len() ==> !#[trigger] parent_missing(entities@, i)
                &&& all_come_to_life(
                    entities@,
                    *look,
                    sources@,
                    ids@,
                    scene.rows@,
                    *old(recorder),
                    *final(recorder),
                )
                &&& views(scene.members@) == linked(
                    all_loose(ids@),
                    ids@,
                    parent_places(entities@),
                    ids@.len() as int,
                )
            },
            Err(e) => {
                ||| exists|i: int|
                    #[trigger] stops_at(
                        entities@,
                        *look,
                        sources@,
                        ids@,
                        *old(recorder),
                        *final(recorder),
                        i,
                        e,
                    )
                ||| (forall|j: int|
                    0 <= j < entities@.len() ==> !region_unknown(
                        #[trigger] entities@[j],
                        sources@[j],
                    )) && exists|i: int| #[trigger] first_parent_missing(entities@, i, e)
            },
        },
{
    let ghost all = entities@;
    let resolved = resolve_parents(&entities);
    let rows = match spawn_all(entities, look, sources, ids, recorder) {
        Ok(rows) => rows,
        Err(e) => {
            return Err(e);
        },
    };
    proof {
        let records = choose|records: Seq<AnimationRecorder<S>>| #[trigger]
            come_to_life(all, *look, sources@, ids@, rows@, records, all.len() as int)
                && records[0] == *old(recorder) && records[all.len() as int] == *recorder;
        assert forall|j: int| 0 <= j < all.len() implies !region_unknown(
            #[trigger] all[j],
            sources@[j],
        ) by {
            assert(entity_spawned(
                all[j],
                *look,
                sources@[j].region,
                sources@[j].timeline,
                ids@[j],
                sources@[j].random_fraction,
                records[j],
                rows@[j],
                records[j + 1],
            ));
        }
    }
    match resolved {
        Err(e) => {
            proof {
                let i = choose|i: int|
                    0 <= i < all.len() && #[trigger] parent_missing(all, i) && e == (
                    SceneError::ParentOutOfBounds { index: parent_place(all, i)->0 })
                        && forall|j: int| 0 <= j < i ==> !#[trigger] parent_missing(all, j);
                assert(first_parent_missing(all, i, e));
            }
            Err(e)
        },
        Ok(parents) => {
            let mut members = make_members(ids);
            proof {
                assert(parents@ =~= parent_places(all));
                lemma_made_members_have_rows(members@, ids@);
                assert forall|i: int| 0 <= i < parents@.len() implies ((
                #[trigger] parents@[i]) is Some ==> parents@[i]->0 < ids@.len()) by {
                    assert(!parent_missing(all, i));
                }
                assert forall|i: int| 0 <= i < all.len() implies !#[trigger] parent_missing(
                    all,
                    i,
                ) by {
                    assert(parents@[i] == parent_place(all, i));
                }
            }
            link_parents(&mut members, ids, &parents);
            Ok(LoadedScene { rows, members })
        },
    }
}

/// Brings a prefab to life under given identities. A parent that is not there is none.
pub fn instantiate_scene_entities<S: Scalar>(
    entities: Vec<SceneEntity<S>>,
    look: &EmitterLook,
    sources: &Vec<SceneSource<S>>,
    ids: &Vec<Entity>,
    recorder: &mut AnimationRecorder<S>,
) -> (r: Result<LoadedScene<S>, SceneError>)
    requires
        sources@.len() == entities@.len(),
        ids@.len() == entities@.len(),
        forall|i: int|
            0 <= i < sources@.len() ==> ((#[trigger] sources@[i]).timeline is Some
                ==> sources@[i].timeline->0.wf()),
    ensures
        match r {
            Ok(scene) => {
                &&& all_come_to_life(
                    entities@,
                    *look,
                    sources@,
                    ids@,
                    scene.rows@,
                    *old(recorder),
                    *final(recorder),
                )
                &&& views(scene.members@) == linked(
                    all_loose(ids@),
                    ids@,
                    prefab_places(entities@),
                    ids@.len() as int,
                )
            },
            Err(e) => exists|i: int|
                #[trigger] stops_at(
                    entities@,
                    *look,
                    sources@,
                    ids@,
                    *old(recorder),
                    *final(recorder),
                    i,
                    e,
                ),
        },
{
    let ghost all = entities@;
    let parents = resolve_prefab_parents(&entities);
    let rows = match spawn_all(entities, look, sources, ids, recorder) {
        Ok(rows) => rows,
        Err(e) => {
            return Err(e);
        },
    };
    let mut members = make_members(ids);
    proof {
        assert(parents@ =~= prefab_places(all));
        lemma_made_members_have_rows(members@, ids@);
        assert forall|i: int| 0 <= i < parents@.len() implies ((#[trigger] parents@[i]) is Some
            ==> parents@[i]->0 < ids@.len()) by {
            assert(parents@[i] == prefab_places(all)[i]);
        }
    }
    link_parents(&mut members, ids, &parents);
    Ok(LoadedScene { rows, members })
}

/// The first `n` roots listed with all below them.
pub open spec fn listed_roots(
    members: Seq<Member>,
    roots: Seq<Entity>,
    n: int,
) -> Seq<Listed>
    decreases n,
{
    if n <= 0 {
        Seq::empty()
    } else {
        listed_with(
            members,
            roots[n - 1],
            None,
            listed_roots(members, roots, n - 1),
            (members.len() + 1) as nat,
        )
    }
}

/// Whether every entity of a list joins the scene and comes after the one that it belongs to.
pub open spec fn well_listed(members: Seq<Member>, list: Seq<Listed>) -> bool {
    forall|i: int|
        0 <= i < list.len() ==> joins_scene(members, (#[trigger] list[i]).entity) && (
        list[i].parent is Some ==> list[i].parent->0 < i)
}

proof fn lemma_listing_grows(
    members: Seq<Member>,
    entity: Entity,
    parent: Option<usize>,
    out: Seq<Listed>,
    depth: nat,
)
    ensures
        out.len() <= listed_with(members, entity, parent, out, depth).len(),
    decreases depth, 1int, 0int,
{
    if depth > 0 && joins_scene(members, entity) {
        let children = members[row(members, entity)].child_seq();
        lemma_listings_grow(
            members,
            children,
            children.len(),
            out.len() as usize,
            out.push(Listed { entity, parent }),
            (depth - 1) as nat,
        );
    }
}

proof fn lemma_listings_grow(
    members: Seq<Member>,
    list: Seq<Entity>,
    n: nat,
    parent: usize,
    out: Seq<Listed>,
    depth: nat,
)
    ensures
        out.len() <= listed_with_all(members, list, n, parent, out, depth).len(),
    decreases depth, 2int, n,
{
    if n > 0 {
        lemma_listings_grow(members, list, (n - 1) as nat, parent, out, depth);
        let before = listed_with_all(members, list, (n - 1) as nat, parent, out, depth);
        lemma_listing_grows(members, list[n - 1], Some(parent), before, depth);
    }
}

proof fn lemma_listing_is_well(
    members: Seq<Member>,
    entity: Entity,
    parent: Option<usize>,
    out: Seq<Listed>,
    depth: nat,
)
    requires
        well_listed(members, out),
        parent is Some ==> parent->0 < out.len(),
        listed_with(members, entity, parent, out, depth).len() <= usize::MAX,
    ensures
        well_listed(members, listed_with(members, entity, parent, out, depth)),
    decreases depth, 1int, 0int,
{
    if depth > 0 && joins_scene(members, entity) {
        let children = members[row(members, entity)].child_seq();
        let more = out.push(Listed { entity, parent });
        lemma_listings_grow(
            members,
            children,
            children.len(),
            out.len() as usize,
            more,
            (depth - 1) as nat,
        );
        assert forall|i: int| 0 <= i < more.len() implies joins_scene(
            members,
            (#[trigger] more[i]).entity,
        ) && (more[i].parent is Some ==> more[i].parent->0 < i) by {
            if i < out.len() {
                assert(more[i] == out[i]);
            }
        }
        lemma_listings_are_well(
            members,
            children,
            children.len(),
            out.len() as usize,
            more,
            (depth - 1) as nat,
        );
    }
}

proof fn lemma_listings_are_well(
    members: Seq<Member>,
    list: Seq<Entity>,
    n: nat,
    parent: usize,
    out: Seq<Listed>,
    depth: nat,
)
    requires
        well_listed(members, out),
        parent < out.len(),
        listed_with_all(members, list, n, parent, out, depth).len() <= usize::MAX,
    ensures
        well_listed(members, listed_with_all(members, list, n, parent, out, depth)),
    decreases depth, 2int, n,
{
    if n > 0 {
        let before = listed_with_all(members, list, (n - 1) as nat, parent, out, depth);
        lemma_listing_grows(members, list[n - 1], Some(parent), before, depth);
        lemma_listings_grow(members, list, (n - 1) as nat, parent, out, depth);
        lemma_listings_are_well(members, list, (n - 1) as nat, parent, out, depth);
        lemma_listing_is_well(members, list[n - 1], Some(parent), before, depth);
    }
}

/// The row of an entity among the first `n`, or -1.
pub open spec fn row_place<S>(rows: Seq<EntityRow<S>>, entity: Entity, n: int) -> int
    decreases n,
{
    if n <= 0 {
        -1
    } else if rows[n - 1].entity == entity {
        n - 1
    } else {
        row_place(rows, entity, n - 1)
    }
}

pub open spec fn row_at<S>(rows: Seq<EntityRow<S>>, entity: Entity) -> int {
    row_place(rows, entity, rows.len() as int)
}

fn find_row<S>(rows: &Vec<EntityRow<S>>, entity: Entity) -> (r: usize)
    requires
        row_at(rows@, entity) >= 0,
    ensures
        r == row_at(rows@, entity),
        r < rows@.len(),
{
    let mut n: usize = rows.len();
    while n > 0
        invariant
            n <= rows@.len(),
            row_at(rows@, entity) >= 0,
            row_at(rows@, entity) == row_place(rows@, entity, n as int),
        decreases n,
    {
        if rows[n - 1].entity == entity {
            return n - 1;
        }
        n = n - 1;
    }
    0
}

/// Every entity that joins the scene has a row.
pub open spec fn rows_there<S>(members: Seq<Member>, rows: Seq<EntityRow<S>>) -> bool {
    forall|e: Entity| #[trigger] joins_scene(members, e) ==> row_at(rows, e) >= 0
}

/// How an entity of a list is written down: as its row is, with the place and the identity of the
/// entity above it.
pub open spec fn listed_written<S: Scalar>(
    rows: Seq<EntityRow<S>>,
    list: Seq<Listed>,
    i: int,
    d: SceneEntity<S>,
) -> bool {
    let own = rows[row_at(rows, list[i].entity)];
    &&& row_described(own, d)
    &&& d.id@ == own.scene_id@
    &&& d.parent == list[i].parent
    &&& match list[i].parent {
        Some(p) => d.parent_id is Some && d.parent_id->0@ == rows[row_at(
            rows,
            list[p as int].entity,
        )].scene_id@,
        None => d.parent_id is None,
    }
}

/// How a list of entities is written down.
pub open spec fn scene_written<S: Scalar>(
    rows: Seq<EntityRow<S>>,
    list: Seq<Listed>,
    scene: Seq<SceneEntity<S>>,
) -> bool {
    &&& scene.len() == list.len()
    &&& forall|i: int| 0 <= i < list.len() ==> listed_written(rows, list, i, #[trigger] scene[i])
}

fn write_listed<S: Scalar>(
    members: Ghost<Seq<Member>>,
    rows: &Vec<EntityRow<S>>,
    list: &Vec<Listed>,
) -> (r: Vec<SceneEntity<S>>)
    requires
        rows_there(members@, rows@),
        well_listed(members@, list@),
    ensures
        scene_written(rows@, list@, r@),
{
    let mut out: Vec<SceneEntity<S>> = Vec::new();
    let mut i: usize = 0;
    while i < list.len()
        invariant
            i <= list@.len(),
            rows_there(members@, rows@),
            well_listed(members@, list@),
            out@.len() == i,
            forall|k: int| 0 <= k < i ==> listed_written(rows@, list@, k, #[trigger] out@[k]),
        decreases list@.len() - i,
    {
        let at = list[i];
        proof {
            assert(joins_scene(members@, list@[i as int].entity));
        }
        let own: usize = find_row(rows, at.entity);
        let parent_id = match at.parent {
            Some(p) => {
                proof {
                    assert(joins_scene(members@, list@[p as int].entity));
                }
                let above: usize = find_row(rows, list[p].entity);
                Some(rows[above].scene_id.as_str().to_owned())
            },
            None => None,
        };
        let written = describe_entity(&rows[own], at.parent, parent_id);
        out.push(written);
        i = i + 1;
    }
    out
}

/// Writes the world down: every entity that belongs to none, and what belongs to it, in order.
pub fn export_scene<S: Scalar>(members: &Vec<Member>, rows: &Vec<EntityRow<S>>) -> (r: Vec<
    SceneEntity<S>,
>)
    requires
        members@.len() < usize::MAX,
        rows_there(members@, rows@),
    ensures
        ({
            let roots = scene_roots(members@, members@.len() as int);
            scene_written(rows@, listed_roots(members@, roots, roots.len() as int), r@)
        }),
{
    let roots = find_scene_roots(members);
    let mut list: Vec<Listed> = Vec::new();
    let mut i: usize = 0;
    while i < roots.len()
        invariant
            i <= roots@.len(),
            members@.len() < usize::MAX,
            list@ == listed_roots(members@, roots@, i as int),
            well_listed(members@, list@),
        decreases roots@.len() - i,
    {
        let ghost before = list@;
        collect_scene_entity(members, roots[i], &mut list);
        proof {
            assert(list@.len() == list.len());
            lemma_listing_is_well(
                members@,
                roots@[i as int],
                None,
                before,
                (members@.len() + 1) as nat,
            );
        }
        i = i + 1;
    }
    write_listed(Ghost(members@), rows, &list)
}

/// Writes an entity down with all that belongs to it; none where it does not join a scene.
pub fn export_prefab<S: Scalar>(
    members: &Vec<Member>,
    rows: &Vec<EntityRow<S>>,
    root: Entity,
) -> (r: Option<Vec<SceneEntity<S>>>)
    requires
        members@.len() < usize::MAX,
        rows_there(members@, rows@),
    ensures
        ({
            let list = listed_with(
                members@,
                root,
                None,
                Seq::empty(),
                (members@.len() + 1) as nat,
            );
            match r {
                Some(scene) => joins_scene(members@, root) && scene_written(rows@, list, scene@),
                None => !joins_scene(members@, root),
            }
        }),
{
    let mut list: Vec<Listed> = Vec::new();
    collect_scene_entity(members, root, &mut list);
    proof {
        assert(list@.len() == list.len());
        lemma_listing_is_well(members@, root, None, Seq::empty(), (members@.len() + 1) as nat);
        if joins_scene(members@, root) {
            let children = members@[row(members@, root)].child_seq();
            lemma_listings_grow(
                members@,
                children,
                children.len(),
                0,
                seq![Listed { entity: root, parent: None }],
                members@.len(),
            );
            assert(Seq::<Listed>::empty().push(Listed { entity: root, parent: None })
                =~= seq![Listed { entity: root, parent: None }]);
        }
    }
    if list.len() == 0 {
        return None;
    }
    Some(write_listed(Ghost(members@), rows, &list))
}

/// No two entities of a scene have the same identity.
pub open spec fn identities_differ<S>(scene: Seq<SceneEntity<S>>) -> bool {
    forall|i: int, j: int|
        0 <= i < scene.len() && 0 <= j < scene.len() && i != j ==> (#[trigger] scene[i]).id@ != (
        #[trigger] scene[j]).id@
}

proof fn lemma_identity_found<S>(scene: Seq<SceneEntity<S>>, p: int, n: int)
    requires
        identities_differ(scene),
        0 <= p < n <= scene.len(),
    ensures
        place_of_id(scene, scene[p].id@, n) == p,
    decreases n,
{
    if p != n - 1 {
        assert(scene[n - 1].id@ != scene[p].id@);
        lemma_identity_found(scene, p, n - 1);
    }
}

/// A scene that was written down is read back with every entity below the one that it belonged to:
/// every parent is found, and it is the right one.
pub proof fn law_written_parents_are_read_back<S: Scalar>(
    members: Seq<Member>,
    rows: Seq<EntityRow<S>>,
    list: Seq<Listed>,
    scene: Seq<SceneEntity<S>>,
)
    requires
        well_listed(members, list),
        list.len() <= usize::MAX,
        scene_written(rows, list, scene),
        identities_differ(scene),
    ensures
        forall|i: int|
            0 <= i < list.len() ==> #[trigger] parent_place(scene, i) == list[i].parent
                && !parent_missing(scene, i),
{
    assert forall|i: int| 0 <= i < list.len() implies #[trigger] parent_place(scene, i)
        == list[i].parent && !parent_missing(scene, i) by {
        assert(listed_written(rows, list, i, scene[i]));
        assert(joins_scene(members, list[i].entity));
        match list[i].parent {
            Some(p) => {
                assert(listed_written(rows, list, p as int, scene[p as int]));
                lemma_identity_found(scene, p as int, scene.len() as int);
            },
            None => {},
        }
    }
}

/// Of a scene that was written down and comes to life again, every entity is written down the same
/// but for its sprite and for its place in space where a mesh had none.
pub proof fn law_scene_round_trip<S: Scalar>(
    scene: Seq<SceneEntity<S>>,
    look: EmitterLook,
    sources: Seq<SceneSource<S>>,
    ids: Seq<Entity>,
    rows: Seq<EntityRow<S>>,
    before: AnimationRecorder<S>,
    after: AnimationRecorder<S>,
    again: Seq<SceneEntity<S>>,
)
    requires
        all_come_to_life(scene, look, sources, ids, rows, before, after),
        again.len() == rows.len(),
        forall|i: int|
            0 <= i < rows.len() ==> row_described(rows[i], #[trigger] again[i]) && again[i].id@
                == rows[i].scene_id@,
    ensures
        again.len() == scene.len(),
        forall|i: int|
            0 <= i < scene.len() ==> crate::scene::same_plain_parts(scene[i], #[trigger] again[i]),
{
    let records = choose|records: Seq<AnimationRecorder<S>>| #[trigger]
        come_to_life(scene, look, sources, ids, rows, records, scene.len() as int) && records[0]
            == before && records[scene.len() as int] == after;
    assert forall|i: int| 0 <= i < scene.len() implies crate::scene::same_plain_parts(
        scene[i],
        #[trigger] again[i],
    ) by {
        assert(entity_spawned(
            scene[i],
            look,
            sources[i].region,
            sources[i].timeline,
            ids[i],
            sources[i].random_fraction,
            records[i],
            rows[i],
            records[i + 1],
        ));
        crate::scene::law_scene_entity_round_trip(scene[i], look, ids[i], rows[i], again[i]);
    }
}

} // verus!
