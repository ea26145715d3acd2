//! What the poses of a skeleton come to: every joint within its parent, the palette from the pose
//! and the bind pose, and joints that go through their keyframes.
use vstd::prelude::*;
use crate::scalar::{Fixed, Scalar, TrackValue};
use crate::skeleton::{
    children_of, curve_for, joint_value, local_poses_at, JointCurve, Pose, PoseState,
    PoseTree, SkeletalClip, SkeletonInstance, SkeletonJoint,
};

verus! {

/// Every joint that was reached has a palette entry that takes a vertex from the bind pose to the
/// pose of the joint.
pub open spec fn palette_takes_from_bind<V, Q, M: Pose<V, Q>>(
    state: PoseState<M>,
    joints: Seq<SkeletonJoint<V, Q, M>>,
) -> bool {
    &&& state.model.len() == joints.len()
    &&& state.palette.len() == joints.len()
    &&& state.visited.len() == joints.len()
    &&& forall|j: int|
        0 <= j < joints.len() && #[trigger] state.visited[j] ==> {
            let bind = joints[j].inverse_bind;
            state.palette[j] == state.model[j].within_spec(bind)
        }
}

/// What was reached before is reached after.
pub open spec fn reaches_on<M>(before: PoseState<M>, after: PoseState<M>) -> bool {
    &&& after.visited.len() == before.visited.len()
    &&& forall|j: int| 0 <= j < before.visited.len() && before.visited[j] ==> #[trigger] after.visited[j]
}

proof fn lemma_children_exist<V, Q, M>(joints: Seq<SkeletonJoint<V, Q, M>>, p: int, k: int)
    requires
        0 <= k <= joints.len() <= usize::MAX,
    ensures
        forall|i: int|
            0 <= i < crate::skeleton::children_among(joints, p, k).len() ==> {
                let c = #[trigger] crate::skeleton::children_among(joints, p, k)[i] as int;
                c < k && joints[c].parent is Some && joints[c].parent->0 == p
            },
        forall|c: int|
            0 <= c < k && (#[trigger] joints[c]).parent is Some && joints[c].parent->0 == p
                ==> crate::skeleton::children_among(joints, p, k).contains(c as usize),
    decreases k,
{
    if k > 0 {
        lemma_children_exist(joints, p, k - 1);
        let before = crate::skeleton::children_among(joints, p, k - 1);
        let now = crate::skeleton::children_among(joints, p, k);
        assert forall|c: int|
            0 <= c < k && (#[trigger] joints[c]).parent is Some && joints[c].parent->0
                == p implies now.contains(c as usize) by {
            if c < k - 1 {
                let i = before.index_of(c as usize);
                assert(now[i] == c as usize);
            } else {
                assert(now[before.len() as int] == c as usize);
            }
        }
    }
}

proof fn lemma_passing_down_keeps_palette<V, Q, M: Pose<V, Q>>(
    state: PoseState<M>,
    tree: PoseTree<V, Q, M>,
    j: int,
    parent: M,
    depth: nat,
)
    requires
        palette_takes_from_bind(state, tree.joints),
        0 <= j < tree.joints.len() <= usize::MAX,
    ensures
        palette_takes_from_bind(state.passed_down(tree, j, parent, depth), tree.joints),
        reaches_on(state, state.passed_down(tree, j, parent, depth)),
        depth > 0 ==> state.passed_down(tree, j, parent, depth).visited[j],
    decreases depth, 0nat,
{
    if depth > 0 {
        let pose = parent.within_spec(tree.local[j]);
        let after = state.passed_down(tree, j, parent, depth);
        let here = PoseState {
            model: state.model.update(j, pose),
            palette: state.palette.update(j, pose.within_spec(tree.joints[j].inverse_bind)),
            visited: state.visited.update(j, true),
        };
        assert(palette_takes_from_bind(here, tree.joints));
        lemma_children_keep_palette(
            here,
            tree,
            j,
            children_of(tree.joints, j),
            0,
            pose,
            (depth - 1) as nat,
        );
        assert(here.visited[j]);
    }
}

proof fn lemma_children_keep_palette<V, Q, M: Pose<V, Q>>(
    state: PoseState<M>,
    tree: PoseTree<V, Q, M>,
    j: int,
    kids: Seq<usize>,
    k: int,
    parent: M,
    depth: nat,
)
    requires
        palette_takes_from_bind(state, tree.joints),
        tree.joints.len() <= usize::MAX,
        kids == children_of(tree.joints, j),
        0 <= k <= kids.len(),
    ensures
        palette_takes_from_bind(state.children_posed(tree, kids, k, parent, depth), tree.joints),
        reaches_on(state, state.children_posed(tree, kids, k, parent, depth)),
    decreases depth, 1 + kids.len() - k,
{
    if k < kids.len() {
        lemma_children_exist(tree.joints, j, tree.joints.len() as int);
        lemma_passing_down_keeps_palette(state, tree, kids[k] as int, parent, depth);
        let next = state.passed_down(tree, kids[k] as int, parent, depth);
        lemma_children_keep_palette(next, tree, j, kids, k + 1, parent, depth);
    }
}

proof fn lemma_roots_keep_palette<V, Q, M: Pose<V, Q>>(
    state: PoseState<M>,
    tree: PoseTree<V, Q, M>,
    roots: Seq<u32>,
    k: int,
)
    requires
        palette_takes_from_bind(state, tree.joints),
        tree.joints.len() <= usize::MAX,
        0 <= k <= roots.len(),
    ensures
        palette_takes_from_bind(state.roots_posed(tree, roots, k), tree.joints),
    decreases roots.len() - k,
{
    if k < roots.len() {
        if roots[k] < tree.joints.len() {
            let root = roots[k] as int;
            lemma_passing_down_keeps_palette(
                state,
                tree,
                root,
                M::identity_spec(),
                tree.joints.len(),
            );
            let next = state.passed_down(tree, root, M::identity_spec(), tree.joints.len());
            lemma_roots_keep_palette(next, tree, roots, k + 1);
        } else {
            lemma_roots_keep_palette(state, tree, roots, k + 1);
        }
    }
}

proof fn lemma_strays_keep_palette<V, Q, M: Pose<V, Q>>(
    state: PoseState<M>,
    tree: PoseTree<V, Q, M>,
    j: int,
)
    requires
        palette_takes_from_bind(state, tree.joints),
        tree.joints.len() <= usize::MAX,
        0 <= j <= tree.joints.len(),
    ensures
        ({
            let after = state.strays_posed(tree, j);
            &&& palette_takes_from_bind(after, tree.joints)
            &&& reaches_on(state, after)
            &&& forall|i: int| j <= i < tree.joints.len() ==> #[trigger] after.visited[i]
        }),
    decreases tree.joints.len() - j,
{
    if j < tree.joints.len() {
        if state.visited[j] {
            lemma_strays_keep_palette(state, tree, j + 1);
        } else {
            lemma_passing_down_keeps_palette(
                state,
                tree,
                j,
                M::identity_spec(),
                tree.joints.len(),
            );
            let next = state.passed_down(tree, j, M::identity_spec(), tree.joints.len());
            lemma_strays_keep_palette(next, tree, j + 1);
        }
    }
}

/// Every joint, reached from a root or not, has a palette entry that is its pose within the model
/// after the inverse of its bind pose: what is skinned to it goes from the bind pose to that pose.
pub proof fn law_palette_takes_from_bind_to_pose<
    S: Scalar,
    V: TrackValue<S>,
    Q: TrackValue<S>,
    M: Pose<V, Q>,
>(instance: SkeletonInstance<S, V, Q, M>, clip: SkeletalClip<S, V, Q>, time: S, j: int)
    requires
        0 <= j < instance.joints().len() <= usize::MAX,
    ensures
        ({
            let (_, poses) = instance.poses_at(clip, time);
            let bind = instance.joints()[j].inverse_bind;
            poses.palette[j] == poses.model[j].within_spec(bind)
        }),
{
    let joints = instance.joints();
    let n = joints.len();
    let tree = PoseTree { joints, local: local_poses_at(joints, clip, time) };
    let start = PoseState {
        model: crate::skeleton::sized(instance.model_poses@, n as int, M::identity_spec()),
        palette: crate::skeleton::sized(instance.palette@, n as int, M::identity_spec()),
        visited: Seq::new(n, |i: int| false),
    };
    lemma_roots_keep_palette(start, tree, instance.skeleton.roots@, 0);
    let rooted = start.roots_posed(tree, instance.skeleton.roots@, 0);
    lemma_strays_keep_palette(rooted, tree, 0);
    assert(rooted.strays_posed(tree, 0).visited[j]);
}

/// Whether the joints hang from their roots as branches of trees: a parent is a joint of a lower
/// rank, and the roots are the joints without a parent.
pub open spec fn is_rooted<V, Q, M>(
    joints: Seq<SkeletonJoint<V, Q, M>>,
    roots: Seq<u32>,
    rank: spec_fn(int) -> nat,
) -> bool {
    &&& joints.len() <= usize::MAX
    &&& forall|j: int|
        0 <= j < joints.len() ==> rank(j) < joints.len() && ((#[trigger] joints[j]).parent is Some
            ==> joints[j].parent->0 < joints.len() && rank(joints[j].parent->0 as int) < rank(j))
    &&& forall|k: int|
        0 <= k < roots.len() && #[trigger] roots[k] < joints.len() ==> joints[roots[k] as int].parent is None
    &&& forall|j: int|
        0 <= j < joints.len() && (#[trigger] joints[j]).parent is None ==> exists|k: int|
            0 <= k < roots.len() && #[trigger] roots[k] == j
}

/// The pose that a joint is to have within the model.
spec fn placed<V, Q, M: Pose<V, Q>>(tree: PoseTree<V, Q, M>, j: int, steps: nat) -> M
    decreases steps,
{
    let outer = if steps > 0 && tree.joints[j].parent is Some {
        placed(tree, tree.joints[j].parent->0 as int, (steps - 1) as nat)
    } else {
        M::identity_spec()
    };
    outer.within_spec(tree.local[j])
}

/// Once there are steps enough, more of them change nothing.
proof fn lemma_steps_enough<V, Q, M: Pose<V, Q>>(
    tree: PoseTree<V, Q, M>,
    roots: Seq<u32>,
    rank: spec_fn(int) -> nat,
    j: int,
    a: nat,
    b: nat,
)
    requires
        is_rooted(tree.joints, roots, rank),
        0 <= j < tree.joints.len(),
        rank(j) <= a,
        rank(j) <= b,
    ensures
        placed(tree, j, a) == placed(tree, j, b),
    decreases rank(j),
{
    if tree.joints[j].parent is Some {
        let p = tree.joints[j].parent->0 as int;
        lemma_steps_enough(tree, roots, rank, p, (a - 1) as nat, (b - 1) as nat);
    }
}

/// What was reached stands where it is to be.
spec fn well_posed<V, Q, M: Pose<V, Q>>(
    state: PoseState<M>,
    tree: PoseTree<V, Q, M>,
    rank: spec_fn(int) -> nat,
) -> bool {
    &&& state.model.len() == tree.joints.len()
    &&& state.palette.len() == tree.joints.len()
    &&& state.visited.len() == tree.joints.len()
    &&& forall|j: int|
        0 <= j < tree.joints.len() && #[trigger] state.visited[j] ==> state.model[j] == placed(
            tree,
            j,
            rank(j),
        )
}

/// The children of what was reached since `before` are reached.
spec fn leaves_no_child<V, Q, M: Pose<V, Q>>(
    before: PoseState<M>,
    after: PoseState<M>,
    joints: Seq<SkeletonJoint<V, Q, M>>,
) -> bool {
    forall|c: int|
        0 <= c < joints.len() && (#[trigger] joints[c]).parent is Some && ({
            let p = joints[c].parent->0 as int;
            p < joints.len() && after.visited[p] && !before.visited[p]
        }) ==> after.visited[c]
}

proof fn lemma_passing_down_places<V, Q, M: Pose<V, Q>>(
    state: PoseState<M>,
    tree: PoseTree<V, Q, M>,
    roots: Seq<u32>,
    rank: spec_fn(int) -> nat,
    j: int,
    parent: M,
    depth: nat,
)
    requires
        is_rooted(tree.joints, roots, rank),
        well_posed(state, tree, rank),
        0 <= j < tree.joints.len(),
        tree.joints.len() <= depth + rank(j),
        parent.within_spec(tree.local[j]) == placed(tree, j, rank(j)),
    ensures
        ({
            let after = state.passed_down(tree, j, parent, depth);
            &&& well_posed(after, tree, rank)
            &&& reaches_on(state, after)
            &&& after.visited[j]
            &&& leaves_no_child(state, after, tree.joints)
        }),
    decreases depth, 0nat,
{
    let pose = parent.within_spec(tree.local[j]);
    let here = PoseState {
        model: state.model.update(j, pose),
        palette: state.palette.update(j, pose.within_spec(tree.joints[j].inverse_bind)),
        visited: state.visited.update(j, true),
    };
    assert(depth > 0) by {
        assert(rank(j) < tree.joints.len()) by {
            assert(tree.joints[j] == tree.joints[j]);
        }
    }
    assert(well_posed(here, tree, rank));
    let kids = children_of(tree.joints, j);
    lemma_children_exist(tree.joints, j, tree.joints.len() as int);
    lemma_children_are_placed(here, tree, roots, rank, j, kids, 0, pose, (depth - 1) as nat);
    let after = state.passed_down(tree, j, parent, depth);
    assert(after == here.children_posed(tree, kids, 0, pose, (depth - 1) as nat));
    assert(here.visited[j]);
    assert forall|i: int| 0 <= i < state.visited.len() && state.visited[i] implies
        #[trigger] after.visited[i] by {
        assert(here.visited[i]);
    }
    assert forall|c: int|
        0 <= c < tree.joints.len() && (#[trigger] tree.joints[c]).parent is Some && ({
            let p = tree.joints[c].parent->0 as int;
            p < tree.joints.len() && after.visited[p] && !state.visited[p]
        }) implies after.visited[c] by {
        let p = tree.joints[c].parent->0 as int;
        if p == j {
            let m = kids.index_of(c as usize);
            assert(kids[m] == c as usize);
            assert(after.visited[kids[m] as int]);
        } else {
            assert(!here.visited[p]);
        }
    }
}

proof fn lemma_children_are_placed<V, Q, M: Pose<V, Q>>(
    state: PoseState<M>,
    tree: PoseTree<V, Q, M>,
    roots: Seq<u32>,
    rank: spec_fn(int) -> nat,
    j: int,
    kids: Seq<usize>,
    k: int,
    pose: M,
    depth: nat,
)
    requires
        is_rooted(tree.joints, roots, rank),
        well_posed(state, tree, rank),
        0 <= j < tree.joints.len(),
        kids == children_of(tree.joints, j),
        0 <= k <= kids.len(),
        tree.joints.len() <= depth + 1 + rank(j),
        pose == placed(tree, j, rank(j)),
    ensures
        ({
            let after = state.children_posed(tree, kids, k, pose, depth);
            &&& well_posed(after, tree, rank)
            &&& reaches_on(state, after)
            &&& forall|m: int| k <= m < kids.len() ==> after.visited[(#[trigger] kids[m]) as int]
            &&& leaves_no_child(state, after, tree.joints)
        }),
    decreases depth, 1 + kids.len() - k,
{
    if k < kids.len() {
        lemma_children_exist(tree.joints, j, tree.joints.len() as int);
        let c = kids[k] as int;
        assert(tree.joints[c].parent is Some && tree.joints[c].parent->0 == j);
        lemma_steps_enough(tree, roots, rank, j, rank(j), (rank(c) - 1) as nat);
        lemma_passing_down_places(state, tree, roots, rank, c, pose, depth);
        let next = state.passed_down(tree, c, pose, depth);
        lemma_children_are_placed(next, tree, roots, rank, j, kids, k + 1, pose, depth);
        let after = state.children_posed(tree, kids, k, pose, depth);
        assert(after == next.children_posed(tree, kids, k + 1, pose, depth));
        assert(next.visited[c]);
        assert(after.visited[c]);
        assert forall|i: int| 0 <= i < state.visited.len() && state.visited[i] implies
            #[trigger] after.visited[i] by {
            assert(next.visited[i]);
        }
        assert forall|d: int|
            0 <= d < tree.joints.len() && (#[trigger] tree.joints[d]).parent is Some && ({
                let p = tree.joints[d].parent->0 as int;
                p < tree.joints.len() && after.visited[p] && !state.visited[p]
            }) implies after.visited[d] by {
            let p = tree.joints[d].parent->0 as int;
            if next.visited[p] {
                assert(next.visited[d]);
            }
        }
    }
}

proof fn lemma_roots_are_placed<V, Q, M: Pose<V, Q>>(
    state: PoseState<M>,
    tree: PoseTree<V, Q, M>,
    roots: Seq<u32>,
    rank: spec_fn(int) -> nat,
    k: int,
)
    requires
        is_rooted(tree.joints, roots, rank),
        well_posed(state, tree, rank),
        0 <= k <= roots.len(),
    ensures
        ({
            let after = state.roots_posed(tree, roots, k);
            &&& well_posed(after, tree, rank)
            &&& reaches_on(state, after)
            &&& forall|m: int|
                k <= m < roots.len() && #[trigger] roots[m] < tree.joints.len()
                    ==> after.visited[roots[m] as int]
            &&& leaves_no_child(state, after, tree.joints)
        }),
    decreases roots.len() - k,
{
    if k < roots.len() {
        if roots[k] < tree.joints.len() {
            let root = roots[k] as int;
            let one = M::identity_spec();
            assert(tree.joints[root].parent is None);
            lemma_passing_down_places(state, tree, roots, rank, root, one, tree.joints.len());
            let next = state.passed_down(tree, root, one, tree.joints.len());
            lemma_roots_are_placed(next, tree, roots, rank, k + 1);
            let after = state.roots_posed(tree, roots, k);
            assert(after == next.roots_posed(tree, roots, k + 1));
            assert(next.visited[root]);
            assert(after.visited[root]);
            assert forall|i: int| 0 <= i < state.visited.len() && state.visited[i] implies
                #[trigger] after.visited[i] by {
                assert(next.visited[i]);
            }
            assert forall|d: int|
                0 <= d < tree.joints.len() && (#[trigger] tree.joints[d]).parent is Some && ({
                    let p = tree.joints[d].parent->0 as int;
                    p < tree.joints.len() && after.visited[p] && !state.visited[p]
                }) implies after.visited[d] by {
                let p = tree.joints[d].parent->0 as int;
                if next.visited[p] {
                    assert(next.visited[d]);
                }
            }
        } else {
            lemma_roots_are_placed(state, tree, roots, rank, k + 1);
        }
    }
}

proof fn lemma_all_reached<V, Q, M: Pose<V, Q>>(
    before: PoseState<M>,
    after: PoseState<M>,
    joints: Seq<SkeletonJoint<V, Q, M>>,
    roots: Seq<u32>,
    rank: spec_fn(int) -> nat,
    j: int,
)
    requires
        is_rooted(joints, roots, rank),
        0 <= j < joints.len(),
        forall|i: int| 0 <= i < joints.len() ==> !(#[trigger] before.visited[i]),
        forall|m: int|
            0 <= m < roots.len() && #[trigger] roots[m] < joints.len() ==> after.visited[roots[m] as int],
        leaves_no_child(before, after, joints),
    ensures
        after.visited[j],
    decreases rank(j),
{
    if joints[j].parent is Some {
        lemma_all_reached(before, after, joints, roots, rank, joints[j].parent->0 as int);
    } else {
        let k = choose|k: int| 0 <= k < roots.len() && #[trigger] roots[k] == j;
        assert(roots[k] < joints.len());
    }
}

proof fn lemma_no_strays<V, Q, M: Pose<V, Q>>(
    state: PoseState<M>,
    tree: PoseTree<V, Q, M>,
    j: int,
)
    requires
        0 <= j <= tree.joints.len(),
        forall|i: int| 0 <= i < tree.joints.len() ==> #[trigger] state.visited[i],
    ensures
        state.strays_posed(tree, j) == state,
    decreases tree.joints.len() - j,
{
    if j < tree.joints.len() {
        lemma_no_strays(state, tree, j + 1);
    }
}

/// In a skeleton whose joints hang from its roots, a root stands in the model as its own pose says,
/// and every other joint stands within the pose of its parent as its own pose says.
pub proof fn law_joints_stand_within_their_parents<
    S: Scalar,
    V: TrackValue<S>,
    Q: TrackValue<S>,
    M: Pose<V, Q>,
>(
    instance: SkeletonInstance<S, V, Q, M>,
    clip: SkeletalClip<S, V, Q>,
    time: S,
    rank: spec_fn(int) -> nat,
    j: int,
)
    requires
        is_rooted(instance.joints(), instance.skeleton.roots@, rank),
        0 <= j < instance.joints().len(),
    ensures
        ({
            let (local, poses) = instance.poses_at(clip, time);
            match instance.joints()[j].parent {
                Some(p) => poses.model[j] == poses.model[p as int].within_spec(local[j]),
                None => poses.model[j] == M::identity_spec().within_spec(local[j]),
            }
        }),
{
    let joints = instance.joints();
    let roots = instance.skeleton.roots@;
    let n = joints.len();
    let tree = PoseTree { joints, local: local_poses_at(joints, clip, time) };
    let start = PoseState {
        model: crate::skeleton::sized(instance.model_poses@, n as int, M::identity_spec()),
        palette: crate::skeleton::sized(instance.palette@, n as int, M::identity_spec()),
        visited: Seq::new(n, |i: int| false),
    };
    lemma_roots_are_placed(start, tree, roots, rank, 0);
    let rooted = start.roots_posed(tree, roots, 0);
    assert forall|i: int| 0 <= i < n implies #[trigger] rooted.visited[i] by {
        lemma_all_reached(start, rooted, joints, roots, rank, i);
    }
    lemma_no_strays(rooted, tree, 0);
    assert(rooted.visited[j]);
    if let Some(p) = joints[j].parent {
        assert(rooted.visited[p as int]);
        lemma_steps_enough(tree, roots, rank, p as int, rank(p as int), (rank(j) - 1) as nat);
    }
}

/// A joint that no curve moves has the pose that its rest gives: its scale, its rotation and its
/// translation in these roles.
pub proof fn law_unmoved_joint_rests<
    S: Scalar,
    V: TrackValue<S>,
    Q: TrackValue<S>,
    M: Pose<V, Q>,
>(instance: SkeletonInstance<S, V, Q, M>, clip: SkeletalClip<S, V, Q>, time: S, j: int)
    requires
        0 <= j < instance.joints().len(),
        forall|k: int|
            0 <= k < clip.channels@.len() ==> (#[trigger] clip.channels@[k]).joint_index != j,
    ensures
        ({
            let joint = instance.joints()[j];
            instance.poses_at(clip, time).0[j] == M::of_parts_spec(
                joint.rest_scale,
                joint.rest_rotation,
                joint.rest_translation,
            )
        }),
{
    lemma_no_curve(clip.channels@, j, clip.channels@.len() as int);
}

proof fn lemma_no_curve<S, V, Q>(channels: Seq<JointCurve<S, V, Q>>, j: int, k: int)
    requires
        0 <= k <= channels.len(),
        forall|i: int| 0 <= i < channels.len() ==> (#[trigger] channels[i]).joint_index != j,
    ensures
        curve_for(channels, j, k) is None,
    decreases k,
{
    if k > 0 {
        lemma_no_curve(channels, j, k - 1);
    }
}

proof fn lemma_last_curve<S, V, Q>(channels: Seq<JointCurve<S, V, Q>>, j: int, at: int, k: int)
    requires
        0 <= at < k <= channels.len() <= usize::MAX,
        channels[at].joint_index == j,
        forall|i: int| at < i < channels.len() ==> (#[trigger] channels[i]).joint_index != j,
    ensures
        curve_for(channels, j, k) == Some(at as usize),
    decreases k,
{
    if at < k - 1 {
        lemma_last_curve(channels, j, at, k - 1);
    }
}

/// A joint on a line that a curve moves stands where the curve's translation is at the time, and
/// at its rest where the curve has none; the last curve for a joint counts.
pub proof fn law_moved_joint_stands_where_its_curve_is(
    instance: SkeletonInstance<Fixed, Fixed, Fixed, Fixed>,
    clip: SkeletalClip<Fixed, Fixed, Fixed>,
    time: Fixed,
    j: int,
    at: int,
)
    requires
        0 <= j < instance.joints().len(),
        0 <= at < clip.channels@.len() <= usize::MAX,
        clip.channels@[at].joint_index == j,
        forall|i: int|
            at < i < clip.channels@.len() ==> (#[trigger] clip.channels@[i]).joint_index != j,
    ensures
        instance.poses_at(clip, time).0[j] == (match clip.channels@[at].translation {
            Some(track) => joint_value(track, time, clip.looped),
            None => instance.joints()[j].rest_translation,
        }),
{
    lemma_last_curve(clip.channels@, j, at, clip.channels@.len() as int);
}

} // verus!
