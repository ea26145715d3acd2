//! Who belongs to whom: parents, children, and what goes with them.
use vstd::prelude::*;
use crate::entity::Entity;

verus! {

/// An entity with its place in the hierarchy.
pub struct Member {
    pub entity: Entity,
    pub parent: Option<Entity>,
    pub children: Option<Vec<Entity>>,
    /// It has a place in the plane.
    pub placed: bool,
    pub is_particle: bool,
}

impl Member {
    /// The children; none where it never had any.
    pub open spec fn child_seq(self) -> Seq<Entity> {
        match self.children {
            Some(list) => list@,
            None => Seq::empty(),
        }
    }
}

/// The row of an entity among the first `n`, or -1.
pub open spec fn member_row(members: Seq<Member>, entity: Entity, n: int) -> int
    decreases n,
{
    if n <= 0 {
        -1
    } else if members[n - 1].entity == entity {
        n - 1
    } else {
        member_row(members, entity, n - 1)
    }
}

pub open spec fn row(members: Seq<Member>, entity: Entity) -> int {
    member_row(members, entity, members.len() as int)
}

pub proof fn lemma_member_row(members: Seq<Member>, entity: Entity, n: int)
    requires
        0 <= n <= members.len(),
    ensures
        -1 <= member_row(members, entity, n) < members.len(),
        member_row(members, entity, n) >= 0 ==> members[member_row(members, entity, n)].entity
            == entity && member_row(members, entity, n) < n,
        member_row(members, entity, n) < 0 ==> forall|i: int|
            0 <= i < n ==> (#[trigger] members[i]).entity != entity,
    decreases n,
{
    if n > 0 {
        lemma_member_row(members, entity, n - 1);
    }
}

pub fn find_member(members: &Vec<Member>, entity: Entity) -> (r: Option<usize>)
    ensures
        match r {
            Some(i) => i == row(members@, entity) && i < members@.len()
                && members@[i as int].entity == entity,
            None => row(members@, entity) == -1,
        },
{
    let mut n: usize = members.len();
    while n > 0
        invariant
            n <= members@.len(),
            row(members@, entity) == member_row(members@, entity, n as int),
        decreases n,
    {
        if members[n - 1].entity == entity {
            return Some(n - 1);
        }
        n = n - 1;
    }
    None
}

/// A member with one more child; a child that is there already is not added again.
pub open spec fn with_child(before: Member, after: Member, child: Entity) -> bool {
    &&& after == (Member { children: after.children, ..before })
    &&& after.children is Some
    &&& after.children->0@ == (if before.child_seq().contains(child) {
        before.child_seq()
    } else {
        before.child_seq().push(child)
    })
}

fn has_entity(list: &Vec<Entity>, entity: Entity) -> (r: bool)
    ensures
        r == list@.contains(entity),
{
    let mut i: usize = 0;
    while i < list.len()
        invariant
            i <= list@.len(),
            forall|j: int| 0 <= j < i ==> list@[j] != entity,
        decreases list@.len() - i,
    {
        if list[i] == entity {
            assert(list@[i as int] == entity);
            return true;
        }
        i = i + 1;
    }
    false
}

fn add_child(member: &mut Member, child: Entity)
    ensures
        with_child(*old(member), *final(member), child),
{
    match member.children.take() {
        Some(list) => {
            let mut list = list;
            if !has_entity(&list, child) {
                list.push(child);
            }
            member.children = Some(list);
        },
        None => {
            let mut list: Vec<Entity> = Vec::new();
            list.push(child);
            assert(list@ =~= Seq::<Entity>::empty().push(child));
            member.children = Some(list);
        },
    }
}

/// A list with an entity, which is not added again where it is there already.
pub open spec fn joined_by(list: Seq<Entity>, entity: Entity) -> Seq<Entity> {
    if list.contains(entity) {
        list
    } else {
        list.push(entity)
    }
}

/// The hierarchy after an entity was made the child of another one.
pub open spec fn attached(members: Seq<MemberView>, child: Entity, parent: Entity) -> Seq<
    MemberView,
> {
    let c = view_row(members, child);
    let p = view_row(members, parent);
    let named = members.update(c, MemberView { parent: Some(parent), ..members[c] });
    named.update(
        p,
        MemberView { children: Some(joined_by(named[p].child_seq(), child)), ..named[p] },
    )
}

/// A child knows its parent, and the parent knows the child.
pub proof fn law_attached_child_is_known(members: Seq<MemberView>, child: Entity, parent: Entity)
    requires
        view_row(members, child) >= 0,
        view_row(members, parent) >= 0,
    ensures
        ({
            let after = attached(members, child, parent);
            &&& after.len() == members.len()
            &&& after[view_row(members, child)].parent == Some(parent)
            &&& after[view_row(members, parent)].child_seq().contains(child)
        }),
{
    lemma_view_row_range(members, child, members.len() as int);
    lemma_view_row_range(members, parent, members.len() as int);
    let c = view_row(members, child);
    let p = view_row(members, parent);
    let named = members.update(c, MemberView { parent: Some(parent), ..members[c] });
    let list = named[p].child_seq();
    if !list.contains(child) {
        assert(list.push(child)[list.len() as int] == child);
    }
}

/// Makes an entity the child of another one. A former parent keeps it among its children.
pub fn attach_child_to_parent(members: &mut Vec<Member>, child: Entity, parent: Entity)
    requires
        row(old(members)@, child) >= 0,
        row(old(members)@, parent) >= 0,
    ensures
        views(final(members)@) == attached(views(old(members)@), child, parent),
        final(members)@.len() == old(members)@.len(),
        ({
            let c = row(old(members)@, child);
            let p = row(old(members)@, parent);
            let named = old(members)@.update(
                c,
                Member { parent: Some(parent), ..old(members)@[c] },
            );
            &&& with_child(named[p], final(members)@[p], child)
            &&& forall|i: int|
                0 <= i < named.len() && i != p ==> #[trigger] final(members)@[i] == named[i]
        }),
{
    proof {
        lemma_member_row(members@, child, members@.len() as int);
        lemma_member_row(members@, parent, members@.len() as int);
    }
    if let (Some(c), Some(p)) = (find_member(members, child), find_member(members, parent)) {
        members[c].parent = Some(parent);
        add_child(&mut members[p], child);
        proof {
            lemma_view_row(old(members)@, child, old(members)@.len() as int);
            lemma_view_row(old(members)@, parent, old(members)@.len() as int);
            let after = attached(views(old(members)@), child, parent);
            assert forall|i: int| 0 <= i < members@.len() implies #[trigger] views(members@)[i]
                == after[i] by {}
            assert(views(members@) =~= after);
        }
    }
}

/// A list without an entity.
pub open spec fn without(list: Seq<Entity>, entity: Entity) -> Seq<Entity>
    decreases list.len(),
{
    if list.len() == 0 {
        list
    } else if list.last() == entity {
        without(list.drop_last(), entity)
    } else {
        without(list.drop_last(), entity).push(list.last())
    }
}

fn filter_out(list: &Vec<Entity>, entity: Entity) -> (r: Vec<Entity>)
    ensures
        r@ == without(list@, entity),
{
    let mut out: Vec<Entity> = Vec::new();
    let mut i: usize = 0;
    while i < list.len()
        invariant
            i <= list@.len(),
            out@ == without(list@.take(i as int), entity),
        decreases list@.len() - i,
    {
        proof {
            assert(list@.take(i + 1).drop_last() =~= list@.take(i as int));
            assert(list@.take(i + 1).last() == list@[i as int]);
        }
        if list[i] != entity {
            out.push(list[i]);
        }
        i = i + 1;
    }
    assert(list@.take(i as int) =~= list@);
    out
}

/// A hierarchy as plain values: what belongs to whom.
pub struct MemberView {
    pub entity: Entity,
    pub parent: Option<Entity>,
    pub children: Option<Seq<Entity>>,
    pub placed: bool,
    pub is_particle: bool,
}

impl View for Member {
    type V = MemberView;

    open spec fn view(&self) -> MemberView {
        MemberView {
            entity: self.entity,
            parent: self.parent,
            children: match self.children {
                Some(list) => Some(list@),
                None => None,
            },
            placed: self.placed,
            is_particle: self.is_particle,
        }
    }
}

pub open spec fn views(members: Seq<Member>) -> Seq<MemberView> {
    members.map_values(|m: Member| m@)
}

impl MemberView {
    pub open spec fn child_seq(self) -> Seq<Entity> {
        match self.children {
            Some(list) => list,
            None => Seq::empty(),
        }
    }
}

pub open spec fn view_row_of(members: Seq<MemberView>, entity: Entity, n: int) -> int
    decreases n,
{
    if n <= 0 {
        -1
    } else if members[n - 1].entity == entity {
        n - 1
    } else {
        view_row_of(members, entity, n - 1)
    }
}

pub open spec fn view_row(members: Seq<MemberView>, entity: Entity) -> int {
    view_row_of(members, entity, members.len() as int)
}

proof fn lemma_view_row(members: Seq<Member>, entity: Entity, n: int)
    requires
        0 <= n <= members.len(),
    ensures
        view_row_of(views(members), entity, n) == member_row(members, entity, n),
    decreases n,
{
    if n > 0 {
        lemma_view_row(members, entity, n - 1);
    }
}

pub proof fn lemma_view_row_range(members: Seq<MemberView>, entity: Entity, n: int)
    requires
        0 <= n <= members.len(),
    ensures
        -1 <= view_row_of(members, entity, n) < members.len(),
        view_row_of(members, entity, n) >= 0 ==> members[view_row_of(members, entity, n)].entity
            == entity,
        view_row_of(members, entity, n) < 0 ==> forall|i: int|
            0 <= i < n ==> (#[trigger] members[i]).entity != entity,
    decreases n,
{
    if n > 0 {
        lemma_view_row_range(members, entity, n - 1);
    }
}

/// The hierarchy after an entity has left the children of its parent.
pub open spec fn left_parent(members: Seq<MemberView>, entity: Entity) -> Seq<MemberView> {
    let i = view_row(members, entity);
    if i < 0 || members[i].parent is None {
        members
    } else {
        let p = view_row(members, members[i].parent->0);
        if p < 0 || members[p].children is None {
            members
        } else {
            members.update(
                p,
                MemberView {
                    children: Some(without(members[p].children->0, entity)),
                    ..members[p]
                },
            )
        }
    }
}

/// The hierarchy without an entity.
pub open spec fn struck(members: Seq<MemberView>, entity: Entity) -> Seq<MemberView> {
    let i = view_row(members, entity);
    if i < 0 {
        members
    } else {
        members.remove(i)
    }
}

/// What is left after entities were removed, and which they were, in order.
pub struct Removal {
    pub members: Seq<MemberView>,
    pub removed: Seq<Entity>,
}

/// An entity removed with all that belongs to it, what belongs to it first. `depth` bounds how
/// deep that goes.
pub open spec fn removal(members: Seq<MemberView>, entity: Entity, depth: nat) -> Removal
    decreases depth, 1int, 0int,
{
    if depth == 0 {
        Removal { members, removed: Seq::empty() }
    } else {
        let apart = left_parent(members, entity);
        let i = view_row(apart, entity);
        let children = if i < 0 {
            Seq::empty()
        } else {
            apart[i].child_seq()
        };
        let below = removal_of_all(apart, children, children.len(), (depth - 1) as nat);
        if view_row(below.members, entity) < 0 {
            below
        } else {
            Removal {
                members: struck(below.members, entity),
                removed: below.removed.push(entity),
            }
        }
    }
}

/// The first `n` entities of a list removed one after the other.
pub open spec fn removal_of_all(
    members: Seq<MemberView>,
    list: Seq<Entity>,
    n: nat,
    depth: nat,
) -> Removal
    decreases depth, 2int, n,
{
    if n == 0 {
        Removal { members, removed: Seq::empty() }
    } else {
        let before = removal_of_all(members, list, (n - 1) as nat, depth);
        let last = removal(before.members, list[n - 1], depth);
        Removal { members: last.members, removed: before.removed + last.removed }
    }
}

fn leave_parent(members: &mut Vec<Member>, entity: Entity)
    ensures
        views(final(members)@) == left_parent(views(old(members)@), entity),
{
    proof {
        lemma_view_row(members@, entity, members@.len() as int);
    }
    if let Some(i) = find_member(members, entity) {
        if let Some(parent) = members[i].parent {
            proof {
                lemma_view_row(members@, parent, members@.len() as int);
            }
            if let Some(p) = find_member(members, parent) {
                let kept = match &members[p].children {
                    Some(list) => Some(filter_out(list, entity)),
                    None => None,
                };
                members[p].children = kept;
            }
        }
    }
    assert(views(members@) =~= left_parent(views(old(members)@), entity));
}

fn copied(list: &Vec<Entity>) -> (r: Vec<Entity>)
    ensures
        r@ == list@,
{
    let mut out: Vec<Entity> = Vec::new();
    let mut i: usize = 0;
    while i < list.len()
        invariant
            i <= list@.len(),
            out@ == list@.take(i as int),
        decreases list@.len() - i,
    {
        out.push(list[i]);
        assert(list@.take(i + 1) =~= list@.take(i as int).push(list@[i as int]));
        i = i + 1;
    }
    assert(list@.take(i as int) =~= list@);
    out
}

fn children_of(members: &Vec<Member>, entity: Entity) -> (r: Vec<Entity>)
    ensures
        r@ == (if view_row(views(members@), entity) < 0 {
            Seq::empty()
        } else {
            views(members@)[view_row(views(members@), entity)].child_seq()
        }),
{
    proof {
        lemma_view_row(members@, entity, members@.len() as int);
    }
    match find_member(members, entity) {
        Some(i) => match &members[i].children {
            Some(list) => copied(list),
            None => Vec::new(),
        },
        None => Vec::new(),
    }
}

fn strike(members: &mut Vec<Member>, entity: Entity) -> (r: bool)
    ensures
        views(final(members)@) == struck(views(old(members)@), entity),
        r == (view_row(views(old(members)@), entity) >= 0),
{
    proof {
        lemma_view_row(members@, entity, members@.len() as int);
    }
    match find_member(members, entity) {
        Some(i) => {
            members.remove(i);
            assert(views(members@) =~= struck(views(old(members)@), entity));
            true
        },
        None => false,
    }
}

fn remove_below(members: &mut Vec<Member>, entity: Entity, depth: usize, removed: &mut Vec<Entity>)
    ensures
        ({
            let done = removal(views(old(members)@), entity, depth as nat);
            &&& views(final(members)@) == done.members
            &&& final(removed)@ == old(removed)@ + done.removed
        }),
    decreases depth,
{
    if depth == 0 {
        assert(removed@ =~= old(removed)@ + Seq::<Entity>::empty());
        return ;
    }
    leave_parent(members, entity);
    let children = children_of(members, entity);
    let ghost apart = views(members@);
    let mut k: usize = 0;
    while k < children.len()
        invariant
            depth > 0,
            k <= children@.len(),
            ({
                let done = removal_of_all(apart, children@, k as nat, (depth - 1) as nat);
                &&& views(members@) == done.members
                &&& removed@ == old(removed)@ + done.removed
            }),
        decreases children@.len() - k,
    {
        let ghost before = removal_of_all(apart, children@, k as nat, (depth - 1) as nat);
        let ghost so_far = removed@;
        remove_below(members, children[k], depth - 1, removed);
        proof {
            let last = removal(before.members, children@[k as int], (depth - 1) as nat);
            assert(removed@ =~= so_far + last.removed);
            assert(removed@ =~= old(removed)@ + (before.removed + last.removed));
        }
        k = k + 1;
    }
    let ghost below = removal_of_all(apart, children@, k as nat, (depth - 1) as nat);
    if strike(members, entity) {
        removed.push(entity);
        assert(removed@ =~= old(removed)@ + below.removed.push(entity));
    } else {
        assert(views(members@) =~= below.members);
    }
}

/// Removes an entity with all that belongs to it, and says what was removed, in order. Children
/// are followed as deep as there are entities, so that entities that are their own ancestors come
/// to an end.
pub fn despawn_entity(members: &mut Vec<Member>, entity: Entity) -> (removed: Vec<Entity>)
    requires
        old(members)@.len() < usize::MAX,
    ensures
        ({
            let done = removal(
                views(old(members)@),
                entity,
                (old(members)@.len() + 1) as nat,
            );
            &&& views(final(members)@) == done.members
            &&& removed@ == done.removed
        }),
{
    let mut removed: Vec<Entity> = Vec::new();
    let depth: usize = members.len() + 1;
    remove_below(members, entity, depth, &mut removed);
    assert(removed@ =~= Seq::<Entity>::empty() + removed@);
    removed
}

/// No entity has two rows.
pub open spec fn distinct_views(members: Seq<MemberView>) -> bool {
    forall|i: int, j: int|
        0 <= i < members.len() && 0 <= j < members.len() && i != j ==> (
        #[trigger] members[i]).entity != (#[trigger] members[j]).entity
}

/// Removing an entity leaves no row of it behind.
pub proof fn law_removed_entity_is_gone(members: Seq<MemberView>, entity: Entity, depth: nat)
    requires
        distinct_views(members),
        depth > 0,
    ensures
        view_row(removal(members, entity, depth).members, entity) == -1,
        distinct_views(removal(members, entity, depth).members),
{
    lemma_removal_distinct(members, entity, depth);
    let apart = left_parent(members, entity);
    let i = view_row(apart, entity);
    let children = if i < 0 {
        Seq::empty()
    } else {
        apart[i].child_seq()
    };
    lemma_left_parent_distinct(members, entity);
    lemma_removals_distinct(apart, children, children.len(), (depth - 1) as nat);
    let below = removal_of_all(apart, children, children.len(), (depth - 1) as nat);
    let at = view_row(below.members, entity);
    lemma_view_row_range(below.members, entity, below.members.len() as int);
    if at >= 0 {
        let after = struck(below.members, entity);
        lemma_view_row_range(after, entity, after.len() as int);
        let r = view_row(after, entity);
        if r >= 0 {
            let j = if r < at {
                r
            } else {
                r + 1
            };
            assert(after[r] == below.members[j]);
            assert(below.members[j].entity != below.members[at].entity);
        }
    }
}

pub proof fn lemma_left_parent_distinct(members: Seq<MemberView>, entity: Entity)
    requires
        distinct_views(members),
    ensures
        distinct_views(left_parent(members, entity)),
{
    let r = left_parent(members, entity);
    let i = view_row(members, entity);
    lemma_view_row_range(members, entity, members.len() as int);
    if i >= 0 && members[i].parent is Some {
        lemma_view_row_range(members, members[i].parent->0, members.len() as int);
    }
    assert forall|a: int, b: int| 0 <= a < r.len() && 0 <= b < r.len() && a != b implies (
    #[trigger] r[a]).entity != (#[trigger] r[b]).entity by {
        assert(r[a].entity == members[a].entity && r[b].entity == members[b].entity);
    }
}

proof fn lemma_struck_distinct(members: Seq<MemberView>, entity: Entity)
    requires
        distinct_views(members),
    ensures
        distinct_views(struck(members, entity)),
{
    let at = view_row(members, entity);
    lemma_view_row_range(members, entity, members.len() as int);
    let r = struck(members, entity);
    assert forall|a: int, b: int| 0 <= a < r.len() && 0 <= b < r.len() && a != b implies (
    #[trigger] r[a]).entity != (#[trigger] r[b]).entity by {
        if at >= 0 {
            let a0 = if a < at {
                a
            } else {
                a + 1
            };
            let b0 = if b < at {
                b
            } else {
                b + 1
            };
            assert(r[a] == members[a0] && r[b] == members[b0]);
        }
    }
}

pub proof fn lemma_removal_distinct(members: Seq<MemberView>, entity: Entity, depth: nat)
    requires
        distinct_views(members),
    ensures
        distinct_views(removal(members, entity, depth).members),
    decreases depth, 1int, 0int,
{
    if depth > 0 {
        let apart = left_parent(members, entity);
        lemma_left_parent_distinct(members, entity);
        let i = view_row(apart, entity);
        let children = if i < 0 {
            Seq::empty()
        } else {
            apart[i].child_seq()
        };
        lemma_removals_distinct(apart, children, children.len(), (depth - 1) as nat);
        let below = removal_of_all(apart, children, children.len(), (depth - 1) as nat);
        lemma_struck_distinct(below.members, entity);
    }
}

pub proof fn lemma_removals_distinct(members: Seq<MemberView>, list: Seq<Entity>, n: nat, depth: nat)
    requires
        distinct_views(members),
    ensures
        distinct_views(removal_of_all(members, list, n, depth).members),
    decreases depth, 2int, n,
{
    if n > 0 {
        lemma_removals_distinct(members, list, (n - 1) as nat, depth);
        let before = removal_of_all(members, list, (n - 1) as nat, depth);
        lemma_removal_distinct(before.members, list[n - 1], depth);
    }
}

/// An entity on its way into a scene, with the place in the scene of the entity above it.
#[derive(Clone, Copy)]
pub struct Listed {
    pub entity: Entity,
    pub parent: Option<usize>,
}

/// Whether an entity becomes part of a scene: it has a place and is no particle.
pub open spec fn joins_scene(members: Seq<Member>, entity: Entity) -> bool {
    let i = row(members, entity);
    i >= 0 && members[i].placed && !members[i].is_particle
}

/// The list with an entity and all below it, an entity before its children. `depth` bounds how
/// deep that goes.
pub open spec fn listed_with(
    members: Seq<Member>,
    entity: Entity,
    parent: Option<usize>,
    out: Seq<Listed>,
    depth: nat,
) -> Seq<Listed>
    decreases depth, 1int, 0int,
{
    if depth == 0 || !joins_scene(members, entity) {
        out
    } else {
        let children = members[row(members, entity)].child_seq();
        listed_with_all(
            members,
            children,
            children.len(),
            out.len() as usize,
            out.push(Listed { entity, parent }),
            (depth - 1) as nat,
        )
    }
}

pub open spec fn listed_with_all(
    members: Seq<Member>,
    list: Seq<Entity>,
    n: nat,
    parent: usize,
    out: Seq<Listed>,
    depth: nat,
) -> Seq<Listed>
    decreases depth, 2int, n,
{
    if n == 0 {
        out
    } else {
        listed_with(
            members,
            list[n - 1],
            Some(parent),
            listed_with_all(members, list, (n - 1) as nat, parent, out, depth),
            depth,
        )
    }
}

fn collect_below(
    members: &Vec<Member>,
    entity: Entity,
    parent: Option<usize>,
    out: &mut Vec<Listed>,
    depth: usize,
)
    ensures
        final(out)@ == listed_with(members@, entity, parent, old(out)@, depth as nat),
    decreases depth,
{
    if depth == 0 {
        return ;
    }
    let i: usize = match find_member(members, entity) {
        Some(i) => i,
        None => {
            return ;
        },
    };
    if !members[i].placed || members[i].is_particle {
        return ;
    }
    let at: usize = out.len();
    out.push(Listed { entity, parent });
    let ghost start = out@;
    let n: usize = match &members[i].children {
        Some(list) => list.len(),
        None => 0,
    };
    let mut k: usize = 0;
    while k < n
        invariant
            depth > 0,
            i < members@.len(),
            n == members@[i as int].child_seq().len(),
            k <= n,
            out@ == listed_with_all(
                members@,
                members@[i as int].child_seq(),
                k as nat,
                at,
                start,
                (depth - 1) as nat,
            ),
        decreases n - k,
    {
        if let Some(list) = &members[i].children {
            collect_below(members, list[k], Some(at), out, depth - 1);
        }
        k = k + 1;
    }
}

/// The entities that a scene with this root holds, in the scene's order. Children are followed as
/// deep as there are entities.
pub fn collect_scene_entity(members: &Vec<Member>, root: Entity, out: &mut Vec<Listed>)
    requires
        members@.len() < usize::MAX,
    ensures
        final(out)@ == listed_with(
            members@,
            root,
            None,
            old(out)@,
            (members@.len() + 1) as nat,
        ),
{
    let depth: usize = members.len() + 1;
    collect_below(members, root, None, out, depth);
}

/// The entities without a parent that have a place, among the first `n`.
pub open spec fn scene_roots(members: Seq<Member>, n: int) -> Seq<Entity>
    decreases n,
{
    if n <= 0 {
        Seq::empty()
    } else if members[n - 1].parent is None && members[n - 1].placed {
        scene_roots(members, n - 1).push(members[n - 1].entity)
    } else {
        scene_roots(members, n - 1)
    }
}

pub fn find_scene_roots(members: &Vec<Member>) -> (r: Vec<Entity>)
    ensures
        r@ == scene_roots(members@, members@.len() as int),
{
    let mut out: Vec<Entity> = Vec::new();
    let mut i: usize = 0;
    while i < members.len()
        invariant
            i <= members@.len(),
            out@ == scene_roots(members@, i as int),
        decreases members@.len() - i,
    {
        if members[i].parent.is_none() && members[i].placed {
            out.push(members[i].entity);
        }
        i = i + 1;
    }
    out
}

/// The entities without a parent that a scene is cleared of, among the first `n`: all but the one
/// that stands for the bounds.
pub open spec fn cleared_roots(members: Seq<Member>, boundary: Entity, n: int) -> Seq<Entity>
    decreases n,
{
    if n <= 0 {
        Seq::empty()
    } else if members[n - 1].parent is None && members[n - 1].entity != boundary {
        cleared_roots(members, boundary, n - 1).push(members[n - 1].entity)
    } else {
        cleared_roots(members, boundary, n - 1)
    }
}

pub fn find_cleared_roots(members: &Vec<Member>, boundary: Entity) -> (r: Vec<Entity>)
    ensures
        r@ == cleared_roots(members@, boundary, members@.len() as int),
{
    let mut out: Vec<Entity> = Vec::new();
    let mut i: usize = 0;
    while i < members.len()
        invariant
            i <= members@.len(),
            out@ == cleared_roots(members@, boundary, i as int),
        decreases members@.len() - i,
    {
        if members[i].parent.is_none() && members[i].entity != boundary {
            out.push(members[i].entity);
        }
        i = i + 1;
    }
    out
}

proof fn lemma_removal_shrinks(members: Seq<MemberView>, entity: Entity, depth: nat)
    ensures
        removal(members, entity, depth).members.len() <= members.len(),
    decreases depth, 1int, 0int,
{
    if depth > 0 {
        let apart = left_parent(members, entity);
        let at = view_row(members, entity);
        lemma_view_row_range(members, entity, members.len() as int);
        if at >= 0 && members[at].parent is Some {
            lemma_view_row_range(members, members[at].parent->0, members.len() as int);
        }
        let i = view_row(apart, entity);
        let children = if i < 0 {
            Seq::empty()
        } else {
            apart[i].child_seq()
        };
        lemma_removals_shrink(apart, children, children.len(), (depth - 1) as nat);
        let below = removal_of_all(apart, children, children.len(), (depth - 1) as nat);
        lemma_view_row_range(below.members, entity, below.members.len() as int);
    }
}

proof fn lemma_removals_shrink(members: Seq<MemberView>, list: Seq<Entity>, n: nat, depth: nat)
    ensures
        removal_of_all(members, list, n, depth).members.len() <= members.len(),
    decreases depth, 2int, n,
{
    if n > 0 {
        lemma_removals_shrink(members, list, (n - 1) as nat, depth);
        let before = removal_of_all(members, list, (n - 1) as nat, depth);
        lemma_removal_shrinks(before.members, list[n - 1], depth);
    }
}

/// The first `n` entities of a list removed, each with all that belongs to it by then.
pub open spec fn cleared_of(members: Seq<MemberView>, list: Seq<Entity>, n: nat) -> Removal
    decreases n,
{
    if n == 0 {
        Removal { members, removed: Seq::empty() }
    } else {
        let before = cleared_of(members, list, (n - 1) as nat);
        let last = removal(before.members, list[n - 1], (before.members.len() + 1) as nat);
        Removal { members: last.members, removed: before.removed + last.removed }
    }
}

/// Removes what is in a scene: all but what stands for the bounds. Says what was removed, in order.
pub fn clear_scene_entities(members: &mut Vec<Member>, boundary: Entity) -> (removed: Vec<Entity>)
    requires
        old(members)@.len() < usize::MAX,
    ensures
        ({
            let roots = cleared_roots(old(members)@, boundary, old(members)@.len() as int);
            let done = cleared_of(views(old(members)@), roots, roots.len());
            &&& views(final(members)@) == done.members
            &&& removed@ == done.removed
        }),
{
    let roots = find_cleared_roots(members, boundary);
    let mut removed: Vec<Entity> = Vec::new();
    let mut i: usize = 0;
    while i < roots.len()
        invariant
            i <= roots@.len(),
            members@.len() < usize::MAX,
            ({
                let done = cleared_of(views(old(members)@), roots@, i as nat);
                &&& views(members@) == done.members
                &&& removed@ == done.removed
            }),
        decreases roots@.len() - i,
    {
        let ghost before = views(members@);
        let mut gone = despawn_entity(members, roots[i]);
        proof {
            lemma_removal_shrinks(before, roots@[i as int], (before.len() + 1) as nat);
            assert(members@.len() == views(members@).len());
        }
        removed.append(&mut gone);
        i = i + 1;
    }
    removed
}

} // verus!
