//! The kinematic chain: a validated link/joint tree with joint limits and
//! forward kinematics.
//!
//! `Kin::from_model` checks a parsed model (resolvable names, a unique root,
//! no link with two parent joints, no cycles, a known end-effector) and builds
//! an arena of links indexed by position, a depth map for the tree, and the
//! degree-of-freedom vector of movable joints with resolved limits.
//! `link_pose_s` is the specification of forward kinematics: every executable
//! result is pinned to it exactly.

use vstd::prelude::*;
use crate::fx::{FX_PI, fx_clamp, fx_clamp_s};
use crate::geom::{
    Pose, V3, m3_identity, m3_identity_s, pose_compose, pose_compose_s, pose_identity,
    pose_identity_s, v3_scale, v3_scale_s, v3_zero, v3_zero_s,
};
use crate::trig::{rot_axis_angle, rot_axis_angle_s};
use crate::model::{JointType, LinkSpec, RobotModel};

verus! {

/// Sentinel for an absent lower bound: any representable value is admitted.
pub const Q_LOWER_UNBOUNDED: i64 = i64::MIN;

/// Sentinel for an absent upper bound.
pub const Q_UPPER_UNBOUNDED: i64 = i64::MAX;

/// -pi in fixed point.
pub const FX_NEG_PI: i64 = -FX_PI;

/// Errors of chain construction and chain queries.
#[derive(Clone, Copy, PartialEq, Eq, Structural, Debug)]
pub enum KinError {
    /// Malformed or disconnected tree, or unknown end-effector at construction.
    StructureError,
    /// A joint-configuration vector of the wrong length.
    DimensionError,
    /// The end-effector index does not name a link (defensive; unreachable
    /// for a chain built by `from_model`).
    UnknownLinkError,
}

/// A joint resolved against the link arena: `parent` and `child` are link
/// indices, `dof` the joint's position in the degree-of-freedom vector
/// (`None` for fixed joints).
pub struct JointNode {
    pub name: String,
    pub jtype: JointType,
    pub axis: V3,
    pub origin: Pose,
    pub parent: usize,
    pub child: usize,
    pub dof: Option<usize>,
    pub lower: i64,
    pub upper: i64,
}

/// A validated kinematic chain.
pub struct Kin {
    pub link_names: Vec<String>,
    pub link_offsets: Vec<Pose>,
    /// For each link, the joint whose child it is; `None` only for the root.
    pub parent_joint: Vec<Option<usize>>,
    /// Distance from the root, in links.
    pub depth: Vec<usize>,
    pub joints: Vec<JointNode>,
    pub root: usize,
    /// Movable joints in document order; the layout of configuration vectors.
    pub dof_joints: Vec<usize>,
    /// Names of the movable joints, aligned with `dof_joints`.
    pub joint_names: Vec<String>,
    /// Resolved lower limits, aligned with `dof_joints`.
    pub q_min: Vec<i64>,
    /// Resolved upper limits, aligned with `dof_joints`.
    pub q_max: Vec<i64>,
    /// End-effector link index.
    pub ee: usize,
}

/// Resolve a joint's declared limits: a properly ordered declaration is kept;
/// a degenerate one (lower >= upper) means unbounded; a revolute joint that
/// ends up unbounded on both sides defaults to `[-pi, pi]` so that it always
/// has a usable range.
pub open spec fn resolve_limits_s(jtype: JointType, lower: i64, upper: i64) -> (i64, i64) {
    let lo = if lower < upper { lower } else { Q_LOWER_UNBOUNDED };
    let hi = if lower < upper { upper } else { Q_UPPER_UNBOUNDED };
    if lo == Q_LOWER_UNBOUNDED && hi == Q_UPPER_UNBOUNDED && jtype == JointType::Revolute {
        (FX_NEG_PI, FX_PI)
    } else {
        (lo, hi)
    }
}

/// Resolved limits are always properly ordered.
pub proof fn lemma_resolve_limits_ordered(jtype: JointType, lower: i64, upper: i64)
    ensures
        resolve_limits_s(jtype, lower, upper).0 < resolve_limits_s(jtype, lower, upper).1,
{
}

/// A revolute joint declared with equal bounds resolves to `[-pi, pi]`.
pub proof fn lemma_degenerate_revolute(v: i64)
    ensures
        resolve_limits_s(JointType::Revolute, v, v) == (FX_NEG_PI, FX_PI),
{
}

/// A prismatic joint declared with equal bounds resolves to unbounded.
pub proof fn lemma_degenerate_prismatic(v: i64)
    ensures
        resolve_limits_s(JointType::Prismatic, v, v) == (Q_LOWER_UNBOUNDED, Q_UPPER_UNBOUNDED),
{
}

pub fn resolve_limits(jtype: JointType, lower: i64, upper: i64) -> (r: (i64, i64))
    ensures
        r == resolve_limits_s(jtype, lower, upper),
{
    let lo = if lower < upper { lower } else { Q_LOWER_UNBOUNDED };
    let hi = if lower < upper { upper } else { Q_UPPER_UNBOUNDED };
    if lo == Q_LOWER_UNBOUNDED && hi == Q_UPPER_UNBOUNDED && jtype == JointType::Revolute {
        (FX_NEG_PI, FX_PI)
    } else {
        (lo, hi)
    }
}

/// First link whose name equals `name`, if any.
fn find_link_idx(links: &Vec<LinkSpec>, name: &String) -> (r: Option<usize>)
    ensures
        match r {
            Some(i) => {
                &&& (i as int) < links@.len()
                &&& links@[i as int].name@ == name@
                &&& forall|k: int| 0 <= k < i as int ==> links@[k].name@ != name@
            },
            None => forall|k: int| 0 <= k < links@.len() ==> links@[k].name@ != name@,
        },
{
    let mut i: usize = 0;
    while i < links.len()
        invariant
            i <= links@.len(),
            forall|k: int| 0 <= k < i as int ==> links@[k].name@ != name@,
        decreases links@.len() - i,
    {
        if links[i].name.eq(name) {
            return Some(i);
        }
        i += 1;
    }
    None
}

/// First link index at or after position `k` whose name is `name`, or -1.
pub open spec fn link_idx_from(m: RobotModel, name: Seq<char>, k: int) -> int
    decreases m.links@.len() - k,
{
    if k < 0 || k >= m.links@.len() {
        -1
    } else if m.links@[k].name@ == name {
        k
    } else {
        link_idx_from(m, name, k + 1)
    }
}

/// First link index named `name`, or -1 when no link has that name. Joint
/// parent/child identities and the end-effector resolve through this.
pub open spec fn link_idx_s(m: RobotModel, name: Seq<char>) -> int {
    link_idx_from(m, name, 0)
}

proof fn lemma_link_idx_from_char(m: RobotModel, name: Seq<char>, k: int)
    requires
        0 <= k,
    ensures
        link_idx_from(m, name, k) >= 0 ==> {
            let i = link_idx_from(m, name, k);
            &&& k <= i < m.links@.len()
            &&& m.links@[i].name@ == name
            &&& forall|t: int| #![trigger m.links@[t]] k <= t < i ==> m.links@[t].name@ != name
        },
        link_idx_from(m, name, k) < 0 ==> link_idx_from(m, name, k) == -1 && forall|t: int|
            #![trigger m.links@[t]]
            k <= t < m.links@.len() ==> m.links@[t].name@ != name,
    decreases m.links@.len() - k,
{
    if k < m.links@.len() && m.links@[k].name@ != name {
        lemma_link_idx_from_char(m, name, k + 1);
    }
}

/// The first-match characterization pins `link_idx_s` to the index the
/// executable lookup finds.
pub proof fn lemma_first_match_is_link_idx(m: RobotModel, name: Seq<char>, i: int)
    requires
        0 <= i < m.links@.len(),
        m.links@[i].name@ == name,
        forall|t: int| 0 <= t < i ==> m.links@[t].name@ != name,
    ensures
        link_idx_s(m, name) == i,
{
    lemma_link_idx_from_char(m, name, 0);
}

/// When no link bears the name, `link_idx_s` is -1.
pub proof fn lemma_no_match_link_idx(m: RobotModel, name: Seq<char>)
    requires
        forall|t: int| 0 <= t < m.links@.len() ==> m.links@[t].name@ != name,
    ensures
        link_idx_s(m, name) == -1,
{
    lemma_link_idx_from_char(m, name, 0);
    let r = link_idx_from(m, name, 0);
    if r >= 0 {
        assert(m.links@[r].name@ == name);
        assert(false);
    }
}

/// Some joint's child resolves to link `i`.
pub open spec fn model_has_parent(m: RobotModel, i: int) -> bool {
    exists|j: int|
        #![trigger m.joints@[j]]
        0 <= j < m.joints@.len() && link_idx_s(m, m.joints@[j].child@) == i
}

/// A consistent depth assignment for the resolved link tree: parentless links
/// at depth 0, each joint's child one deeper than its parent link, and all
/// depths below the link count. One exists exactly when the tree is
/// single-rooted, connected and acyclic.
pub open spec fn depth_witness_ok(m: RobotModel, dw: Seq<int>) -> bool {
    &&& dw.len() == m.links@.len()
    &&& forall|i: int| #![trigger dw[i]] 0 <= i < m.links@.len() ==> 0 <= dw[i] < m.links@.len()
    &&& forall|i: int|
        #![trigger dw[i]]
        0 <= i < m.links@.len() && !model_has_parent(m, i) ==> dw[i] == 0
    &&& forall|j: int|
        #![trigger m.joints@[j]]
        0 <= j < m.joints@.len() ==> dw[link_idx_s(m, m.joints@[j].child@)] == dw[link_idx_s(
            m,
            m.joints@[j].parent@,
        )] + 1
}

/// The structural validity that construction checks: the end-effector and
/// every joint's parent and child name a link; no link is the child of two
/// joints; exactly one link is no joint's child; and a consistent depth
/// assignment exists (the tree is connected and acyclic).
pub open spec fn valid_model(m: RobotModel, ee_name: Seq<char>) -> bool {
    &&& link_idx_s(m, ee_name) >= 0
    &&& forall|j: int|
        #![trigger m.joints@[j]]
        0 <= j < m.joints@.len() ==> link_idx_s(m, m.joints@[j].parent@) >= 0 && link_idx_s(
            m,
            m.joints@[j].child@,
        ) >= 0
    &&& forall|j1: int, j2: int|
        #![trigger m.joints@[j1], m.joints@[j2]]
        0 <= j1 < j2 < m.joints@.len() ==> link_idx_s(m, m.joints@[j1].child@) != link_idx_s(
            m,
            m.joints@[j2].child@,
        )
    &&& exists|r: int|
        #![trigger model_has_parent(m, r)]
        0 <= r < m.links@.len() && !model_has_parent(m, r) && forall|i: int|
            #![trigger model_has_parent(m, i)]
            0 <= i < m.links@.len() && i != r ==> model_has_parent(m, i)
    &&& exists|dw: Seq<int>| depth_witness_ok(m, dw)
}

/// A link whose parent-joint slot is empty is no joint's child, provided the
/// slots record every joint under its resolved child index.
proof fn lemma_parentless_links(
    m: RobotModel,
    joints: Seq<JointNode>,
    pj: Seq<Option<usize>>,
    x: int,
)
    requires
        joints.len() == m.joints@.len(),
        forall|jj: int|
            #![trigger joints[jj]]
            0 <= jj < joints.len() ==> link_idx_s(m, m.joints@[jj].child@) == joints[jj].child
                as int,
        forall|jj: int|
            #![trigger joints[jj].child]
            0 <= jj < joints.len() ==> 0 <= (joints[jj].child as int) < pj.len() && pj[joints[jj].child
                as int] == Some(jj as usize),
        0 <= x < pj.len(),
        pj[x] is None,
    ensures
        !model_has_parent(m, x),
{
    if model_has_parent(m, x) {
        let j = choose|j: int|
            #![trigger m.joints@[j]]
            0 <= j < m.joints@.len() && link_idx_s(m, m.joints@[j].child@) == x;
        assert(joints[j].child as int == x);
        assert(pj[joints[j].child as int] == Some(j as usize));
        assert(false);
    }
}

/// A link with a recorded parent joint is some joint's child.
proof fn lemma_parented_links(m: RobotModel, joints: Seq<JointNode>, pj: Seq<Option<usize>>, x: int)
    requires
        joints.len() == m.joints@.len(),
        forall|jj: int|
            #![trigger joints[jj]]
            0 <= jj < joints.len() ==> link_idx_s(m, m.joints@[jj].child@) == joints[jj].child
                as int,
        forall|k: int|
            #![trigger pj[k]]
            0 <= k < pj.len() ==> match pj[k] {
                Some(jj) => (jj as int) < joints.len() && joints[jj as int].child as int == k,
                None => true,
            },
        0 <= x < pj.len(),
        pj[x] is Some,
    ensures
        model_has_parent(m, x),
{
    match pj[x] {
        Some(jj) => {
            assert(0 <= (jj as int) < m.joints@.len() && link_idx_s(m, m.joints@[jj as int].child@)
                == x);
        },
        None => {},
    }
}

impl Kin {
    pub open spec fn nlinks(self) -> int {
        self.link_names@.len() as int
    }

    pub open spec fn njoints(self) -> int {
        self.joints@.len() as int
    }

    pub open spec fn dof_n(self) -> int {
        self.dof_joints@.len() as int
    }

    pub open spec fn wf_links(self) -> bool {
        &&& self.link_offsets@.len() == self.nlinks()
        &&& self.parent_joint@.len() == self.nlinks()
        &&& self.depth@.len() == self.nlinks()
        &&& 0 <= (self.root as int) < self.nlinks()
        &&& 0 <= (self.ee as int) < self.nlinks()
    }

    pub open spec fn wf_tree(self) -> bool {
        &&& self.depth@[self.root as int] == 0
        &&& forall|i: int|
            #![trigger self.parent_joint@[i]]
            0 <= i < self.nlinks() ==> match self.parent_joint@[i] {
                None => i == self.root as int && self.depth@[i] == 0,
                Some(j) => {
                    &&& (j as int) < self.njoints()
                    &&& self.joints@[j as int].child as int == i
                    &&& (self.joints@[j as int].parent as int) < self.nlinks()
                    &&& self.depth@[self.joints@[j as int].parent as int] as int + 1
                        == self.depth@[i] as int
                    &&& i != self.root as int
                },
            }
        &&& forall|i: int|
            #![trigger self.depth@[i]]
            0 <= i < self.nlinks() ==> (self.depth@[i] as int) < self.nlinks()
    }

    pub open spec fn wf_dofs(self) -> bool {
        &&& self.q_min@.len() == self.dof_n()
        &&& self.q_max@.len() == self.dof_n()
        &&& self.joint_names@.len() == self.dof_n()
        &&& forall|d: int|
            #![trigger self.dof_joints@[d]]
            0 <= d < self.dof_n() ==> {
                let j = self.dof_joints@[d] as int;
                &&& j < self.njoints()
                &&& self.joints@[j].jtype != JointType::Fixed
                &&& (match self.joints@[j].dof {
                    Some(dd) => dd as int == d,
                    None => false,
                })
                &&& (self.q_min@[d], self.q_max@[d]) == resolve_limits_s(
                    self.joints@[j].jtype,
                    self.joints@[j].lower,
                    self.joints@[j].upper,
                )
                &&& self.q_min@[d] < self.q_max@[d]
                &&& self.joint_names@[d]@ == self.joints@[j].name@
            }
        &&& forall|j: int|
            #![trigger self.joints@[j].dof]
            0 <= j < self.njoints() ==> match self.joints@[j].dof {
                None => self.joints@[j].jtype == JointType::Fixed,
                Some(d) => {
                    &&& (d as int) < self.dof_n()
                    &&& self.dof_joints@[d as int] as int == j
                    &&& self.joints@[j].jtype != JointType::Fixed
                },
            }
        &&& forall|j: int|
            #![trigger self.joints@[j]]
            0 <= j < self.njoints() ==> (self.joints@[j].parent as int) < self.nlinks()
                && (self.joints@[j].child as int) < self.nlinks()
        &&& forall|d1: int, d2: int|
            #![trigger self.dof_joints@[d1], self.dof_joints@[d2]]
            0 <= d1 < d2 < self.dof_n() ==> (self.dof_joints@[d1] as int) < (self.dof_joints@[d2]
                as int)
    }

    /// Every joint is recorded as the parent joint of its child link.
    pub open spec fn wf_children(self) -> bool {
        forall|j: int|
            #![trigger self.joints@[j].child]
            0 <= j < self.njoints() ==> self.parent_joint@[self.joints@[j].child as int] == Some(
                j as usize,
            )
    }

    /// The chain invariant: established by `from_model`, preserved by every
    /// method (none mutates the structure).
    pub open spec fn wf(self) -> bool {
        self.wf_links() && self.wf_tree() && self.wf_dofs() && self.wf_children()
    }

    /// The chain corresponds, entry for entry, to the model it was built
    /// from: same links, same joints with names resolved to first-match
    /// indices, and the end-effector resolved to the first link named
    /// `ee_name`.
    pub open spec fn corresponds(self, m: RobotModel, ee_name: Seq<char>) -> bool {
        &&& self.link_names@.len() == m.links@.len()
        &&& forall|i: int|
            #![trigger m.links@[i]]
            0 <= i < m.links@.len() ==> self.link_names@[i]@ == m.links@[i].name@
                && self.link_offsets@[i] == m.links@[i].offset
        &&& self.joints@.len() == m.joints@.len()
        &&& forall|j: int|
            #![trigger m.joints@[j]]
            0 <= j < m.joints@.len() ==> {
                let jn = self.joints@[j];
                let js = m.joints@[j];
                &&& jn.name@ == js.name@
                &&& jn.jtype == js.jtype
                &&& jn.axis == js.axis
                &&& jn.origin == js.origin
                &&& jn.lower == js.lower
                &&& jn.upper == js.upper
                &&& (jn.parent as int) < m.links@.len()
                &&& m.links@[jn.parent as int].name@ == js.parent@
                &&& (forall|k: int| 0 <= k < jn.parent as int ==> m.links@[k].name@ != js.parent@)
                &&& (jn.child as int) < m.links@.len()
                &&& m.links@[jn.child as int].name@ == js.child@
                &&& (forall|k: int| 0 <= k < jn.child as int ==> m.links@[k].name@ != js.child@)
            }
        &&& self.link_names@[self.ee as int]@ == ee_name
        &&& forall|k: int| 0 <= k < self.ee as int ==> m.links@[k].name@ != ee_name
    }

    /// Number of degrees of freedom.
    pub fn dof(&self) -> (r: usize)
        ensures
            r as int == self.dof_n(),
    {
        self.dof_joints.len()
    }

    /// Build a validated chain from a parsed model and an end-effector link
    /// name. Construction fails with `StructureError` when a joint names an
    /// unknown link, a link has two parent joints, the tree has no unique
    /// root, the tree is disconnected or cyclic, or no link is named
    /// `ee_name`.
    #[verifier::rlimit(100)]
    pub fn from_model(model: &RobotModel, ee_name: &String) -> (r: Result<Kin, KinError>)
        ensures
            match r {
                Ok(k) => k.wf() && k.corresponds(*model, ee_name@),
                Err(e) => e == KinError::StructureError,
            },
            r is Ok <==> valid_model(*model, ee_name@),
    {
        let n = model.links.len();

        // End-effector resolution.
        let ee = match find_link_idx(&model.links, ee_name) {
            Some(i) => i,
            None => {
                proof {
                    lemma_no_match_link_idx(*model, ee_name@);
                }
                return Err(KinError::StructureError);
            },
        };
        proof {
            lemma_first_match_is_link_idx(*model, ee_name@, ee as int);
        }

        // Copy the link arena.
        let mut link_names: Vec<String> = Vec::new();
        let mut link_offsets: Vec<Pose> = Vec::new();
        let mut i: usize = 0;
        while i < n
            invariant
                i <= n,
                n == model.links@.len(),
                link_names@.len() == i as int,
                link_offsets@.len() == i as int,
                forall|k: int|
                    #![trigger link_names@[k]]
                    0 <= k < i as int ==> link_names@[k]@ == model.links@[k].name@,
                forall|k: int|
                    #![trigger link_offsets@[k]]
                    0 <= k < i as int ==> link_offsets@[k] == model.links@[k].offset,
            decreases n - i,
        {
            let nm = model.links[i].name.clone();
            proof {
                assert(nm@ == model.links@[i as int].name@);
            }
            link_names.push(nm);
            link_offsets.push(model.links[i].offset);
            i += 1;
        }

        // Resolve joints and build the degree-of-freedom vector.
        let nj = model.joints.len();
        let mut joints: Vec<JointNode> = Vec::new();
        let mut dof_joints: Vec<usize> = Vec::new();
        let mut joint_names: Vec<String> = Vec::new();
        let mut q_min: Vec<i64> = Vec::new();
        let mut q_max: Vec<i64> = Vec::new();
        let mut j: usize = 0;
        while j < nj
            invariant
                j <= nj,
                nj == model.joints@.len(),
                n == model.links@.len(),
                joints@.len() == j as int,
                joint_names@.len() == dof_joints@.len(),
                q_min@.len() == dof_joints@.len(),
                q_max@.len() == dof_joints@.len(),
                forall|jj: int|
                    #![trigger joints@[jj]]
                    0 <= jj < j as int ==> {
                        let jn = joints@[jj];
                        let js = model.joints@[jj];
                        &&& jn.name@ == js.name@
                        &&& jn.jtype == js.jtype
                        &&& jn.axis == js.axis
                        &&& jn.origin == js.origin
                        &&& jn.lower == js.lower
                        &&& jn.upper == js.upper
                        &&& (jn.parent as int) < n as int
                        &&& model.links@[jn.parent as int].name@ == js.parent@
                        &&& (forall|k: int|
                            0 <= k < jn.parent as int ==> model.links@[k].name@ != js.parent@)
                        &&& (jn.child as int) < n as int
                        &&& model.links@[jn.child as int].name@ == js.child@
                        &&& (forall|k: int|
                            0 <= k < jn.child as int ==> model.links@[k].name@ != js.child@)
                    },
                forall|jj: int|
                    #![trigger joints@[jj].dof]
                    0 <= jj < j as int ==> match joints@[jj].dof {
                        None => joints@[jj].jtype == JointType::Fixed,
                        Some(d) => {
                            &&& (d as int) < dof_joints@.len()
                            &&& dof_joints@[d as int] as int == jj
                            &&& joints@[jj].jtype != JointType::Fixed
                        },
                    },
                forall|d: int|
                    #![trigger dof_joints@[d]]
                    0 <= d < dof_joints@.len() ==> {
                        let jx = dof_joints@[d] as int;
                        &&& jx < j as int
                        &&& joints@[jx].jtype != JointType::Fixed
                        &&& (match joints@[jx].dof {
                            Some(dd) => dd as int == d,
                            None => false,
                        })
                        &&& (q_min@[d], q_max@[d]) == resolve_limits_s(
                            joints@[jx].jtype,
                            joints@[jx].lower,
                            joints@[jx].upper,
                        )
                        &&& q_min@[d] < q_max@[d]
                        &&& joint_names@[d]@ == joints@[jx].name@
                    },
                forall|d1: int, d2: int|
                    #![trigger dof_joints@[d1], dof_joints@[d2]]
                    0 <= d1 < d2 < dof_joints@.len() ==> (dof_joints@[d1] as int) < (dof_joints@[d2]
                        as int),
            decreases nj - j,
        {
            let parent = match find_link_idx(&model.links, &model.joints[j].parent) {
                Some(p) => p,
                None => {
                    proof {
                        lemma_no_match_link_idx(*model, model.joints@[j as int].parent@);
                    }
                    return Err(KinError::StructureError);
                },
            };
            let child = match find_link_idx(&model.links, &model.joints[j].child) {
                Some(c) => c,
                None => {
                    proof {
                        lemma_no_match_link_idx(*model, model.joints@[j as int].child@);
                    }
                    return Err(KinError::StructureError);
                },
            };
            let is_fixed = model.joints[j].jtype == JointType::Fixed;
            let dof_opt: Option<usize> = if is_fixed {
                None
            } else {
                let d = dof_joints.len();
                let lim = resolve_limits(
                    model.joints[j].jtype,
                    model.joints[j].lower,
                    model.joints[j].upper,
                );
                proof {
                    lemma_resolve_limits_ordered(
                        model.joints@[j as int].jtype,
                        model.joints@[j as int].lower,
                        model.joints@[j as int].upper,
                    );
                }
                dof_joints.push(j);
                joint_names.push(model.joints[j].name.clone());
                q_min.push(lim.0);
                q_max.push(lim.1);
                Some(d)
            };
            joints.push(JointNode {
                name: model.joints[j].name.clone(),
                jtype: model.joints[j].jtype,
                axis: model.joints[j].axis,
                origin: model.joints[j].origin,
                parent,
                child,
                dof: dof_opt,
                lower: model.joints[j].lower,
                upper: model.joints[j].upper,
            });
            j += 1;
        }

        proof {
            assert forall|jj: int| #![trigger model.joints@[jj]] 0 <= jj < joints@.len() implies {
                &&& link_idx_s(*model, model.joints@[jj].parent@) == joints@[jj].parent as int
                &&& link_idx_s(*model, model.joints@[jj].child@) == joints@[jj].child as int
            } by {
                assert(joints@[jj] == joints@[jj]);
                lemma_first_match_is_link_idx(
                    *model,
                    model.joints@[jj].parent@,
                    joints@[jj].parent as int,
                );
                lemma_first_match_is_link_idx(
                    *model,
                    model.joints@[jj].child@,
                    joints@[jj].child as int,
                );
            };
        }

        // Each link gets at most one parent joint.
        let mut parent_joint: Vec<Option<usize>> = Vec::new();
        let mut i2: usize = 0;
        while i2 < n
            invariant
                i2 <= n,
                parent_joint@.len() == i2 as int,
                forall|k: int| 0 <= k < i2 as int ==> parent_joint@[k] is None,
            decreases n - i2,
        {
            parent_joint.push(None);
            i2 += 1;
        }
        let mut j2: usize = 0;
        while j2 < joints.len()
            invariant
                j2 <= joints@.len(),
                n == model.links@.len(),
                joints@.len() == model.joints@.len(),
                parent_joint@.len() == n as int,
                forall|jj: int|
                    #![trigger model.joints@[jj]]
                    0 <= jj < joints@.len() ==> link_idx_s(*model, model.joints@[jj].parent@)
                        == joints@[jj].parent as int && link_idx_s(*model, model.joints@[jj].child@)
                        == joints@[jj].child as int,
                forall|jj: int|
                    #![trigger joints@[jj]]
                    0 <= jj < joints@.len() ==> (joints@[jj].child as int) < n as int
                        && (joints@[jj].parent as int) < n as int,
                forall|k: int|
                    #![trigger parent_joint@[k]]
                    0 <= k < n as int ==> match parent_joint@[k] {
                        None => true,
                        Some(jj) => {
                            &&& (jj as int) < j2 as int
                            &&& joints@[jj as int].child as int == k
                        },
                    },
                forall|jj: int|
                    #![trigger joints@[jj].child]
                    0 <= jj < j2 as int ==> parent_joint@[joints@[jj].child as int] == Some(
                        jj as usize,
                    ),
            decreases joints@.len() - j2,
        {
            let c = joints[j2].child;
            match parent_joint[c] {
                Some(prev) => {
                    proof {
                        // Joints `prev` and `j2` both resolve their child to
                        // `c`: no valid model allows that.
                        assert(model.joints@[prev as int] == model.joints@[prev as int]);
                        assert(model.joints@[j2 as int] == model.joints@[j2 as int]);
                        assert(link_idx_s(*model, model.joints@[prev as int].child@) == c as int);
                        assert(link_idx_s(*model, model.joints@[j2 as int].child@) == c as int);
                        assert(!valid_model(*model, ee_name@));
                    }
                    return Err(KinError::StructureError);
                },
                None => {
                    parent_joint.set(c, Some(j2));
                },
            }
            j2 += 1;
        }

        // Exactly one root link (a link that is no joint's child).
        let mut root: usize = 0;
        let mut root_count: usize = 0;
        let mut i3: usize = 0;
        while i3 < n
            invariant
                i3 <= n,
                n == model.links@.len(),
                joints@.len() == model.joints@.len(),
                parent_joint@.len() == n as int,
                forall|jj: int|
                    #![trigger model.joints@[jj]]
                    0 <= jj < joints@.len() ==> link_idx_s(*model, model.joints@[jj].child@)
                        == joints@[jj].child as int,
                forall|jj: int|
                    #![trigger joints@[jj].child]
                    0 <= jj < joints@.len() ==> 0 <= (joints@[jj].child as int) < n as int
                        && parent_joint@[joints@[jj].child as int] == Some(jj as usize),
                forall|k: int|
                    #![trigger parent_joint@[k]]
                    0 <= k < n as int ==> match parent_joint@[k] {
                        None => true,
                        Some(jj) => (jj as int) < joints@.len() && joints@[jj as int].child as int
                            == k,
                    },
                root_count <= 1,
                root_count == 0 ==> forall|k: int| 0 <= k < i3 as int ==> parent_joint@[k] is Some,
                root_count == 1 ==> {
                    &&& (root as int) < i3 as int
                    &&& parent_joint@[root as int] is None
                    &&& forall|k: int|
                        0 <= k < i3 as int && k != root as int ==> parent_joint@[k] is Some
                },
            decreases n - i3,
        {
            if parent_joint[i3].is_none() {
                if root_count == 1 {
                    proof {
                        // Two distinct parentless links contradict the unique
                        // root a valid model has.
                        if valid_model(*model, ee_name@) {
                            lemma_parentless_links(*model, joints@, parent_joint@, root as int);
                            lemma_parentless_links(*model, joints@, parent_joint@, i3 as int);
                            let r = choose|r: int|
                                #![trigger model_has_parent(*model, r)]
                                0 <= r < model.links@.len() && !model_has_parent(*model, r)
                                    && forall|i: int|
                                    #![trigger model_has_parent(*model, i)]
                                    0 <= i < model.links@.len() && i != r ==> model_has_parent(
                                        *model,
                                        i,
                                    );
                            assert(root as int == r);
                            assert(i3 as int == r);
                            assert(false);
                        }
                    }
                    return Err(KinError::StructureError);
                }
                root = i3;
                root_count = 1;
            }
            i3 += 1;
        }
        if root_count != 1 {
            proof {
                // No parentless link at all: a valid model's root would still
                // have to be some joint's child, which it cannot be.
                if valid_model(*model, ee_name@) {
                    let r = choose|r: int|
                        #![trigger model_has_parent(*model, r)]
                        0 <= r < model.links@.len() && !model_has_parent(*model, r) && forall|i: int|
                            #![trigger model_has_parent(*model, i)]
                            0 <= i < model.links@.len() && i != r ==> model_has_parent(*model, i);
                    assert(parent_joint@[r] is Some);
                    lemma_parented_links(*model, joints@, parent_joint@, r);
                    assert(false);
                }
            }
            return Err(KinError::StructureError);
        }

        // Depths by waves from the root; a link left without a depth means a
        // disconnected or cyclic model.
        let mut dep: Vec<Option<usize>> = Vec::new();
        let mut i4: usize = 0;
        while i4 < n
            invariant
                i4 <= n,
                dep@.len() == i4 as int,
                forall|k: int| 0 <= k < i4 as int ==> dep@[k] is None,
            decreases n - i4,
        {
            dep.push(None);
            i4 += 1;
        }
        dep.set(root, Some(0));
        let ghost vm = valid_model(*model, ee_name@);
        let ghost dw: Seq<int> = if vm {
            choose|dws: Seq<int>| depth_witness_ok(*model, dws)
        } else {
            Seq::empty()
        };
        proof {
            if vm {
                assert(depth_witness_ok(*model, dw));
                // Witness depths agree with the recorded parent slots: 0 for
                // the parentless link, one more than the parent elsewhere.
                assert forall|i: int| 0 <= i < n as int implies match #[trigger] parent_joint@[i] {
                    Some(jj) => dw[i] == dw[joints@[jj as int].parent as int] + 1,
                    None => dw[i] == 0,
                } by {
                    match parent_joint@[i] {
                        Some(jj) => {
                            assert(model.joints@[jj as int] == model.joints@[jj as int]);
                            assert(dw[link_idx_s(*model, model.joints@[jj as int].child@)] == dw[
                                link_idx_s(*model, model.joints@[jj as int].parent@)] + 1);
                        },
                        None => {
                            lemma_parentless_links(*model, joints@, parent_joint@, i);
                        },
                    }
                };
                assert forall|k: int| 0 <= k < n as int && #[trigger] dw[k] <= 0 implies dep@[k]
                    is Some by {
                    assert(0 <= dw[k]);
                    match parent_joint@[k] {
                        Some(jj) => {
                            assert(0 <= dw[joints@[jj as int].parent as int]);
                            assert(false);
                        },
                        None => {
                            assert(k == root as int);
                        },
                    }
                };
            }
        }
        let mut w: usize = 0;
        while w < n
            invariant
                w <= n,
                n == model.links@.len(),
                dep@.len() == n as int,
                parent_joint@.len() == n as int,
                (root as int) < n as int,
                dep@[root as int] == Some(0usize),
                parent_joint@[root as int] is None,
                forall|jj: int|
                    #![trigger joints@[jj]]
                    0 <= jj < joints@.len() ==> (joints@[jj].child as int) < n as int
                        && (joints@[jj].parent as int) < n as int,
                forall|k: int|
                    #![trigger parent_joint@[k]]
                    0 <= k < n as int ==> match parent_joint@[k] {
                        None => k == root as int,
                        Some(jj) => (jj as int) < joints@.len() && joints@[jj as int].child as int
                            == k,
                    },
                forall|k: int|
                    #![trigger dep@[k]]
                    0 <= k < n as int ==> match dep@[k] {
                        None => true,
                        Some(d) => {
                            &&& (d as int) < n as int
                            &&& (k == root as int ==> d == 0)
                            &&& (k != root as int ==> match parent_joint@[k] {
                                Some(jj) => match dep@[joints@[jj as int].parent as int] {
                                    Some(pd) => pd as int + 1 == d as int,
                                    None => false,
                                },
                                None => false,
                            })
                        },
                    },
                vm == valid_model(*model, ee_name@),
                vm ==> depth_witness_ok(*model, dw),
                vm ==> forall|k: int|
                    #![trigger parent_joint@[k]]
                    0 <= k < n as int ==> match parent_joint@[k] {
                        Some(jj) => dw[k] == dw[joints@[jj as int].parent as int] + 1,
                        None => dw[k] == 0,
                    },
                vm ==> forall|k: int|
                    #![trigger dep@[k]]
                    0 <= k < n as int ==> match dep@[k] {
                        Some(d) => d as int == dw[k],
                        None => true,
                    },
                vm ==> forall|k: int|
                    #![trigger dw[k]]
                    0 <= k < n as int && dw[k] <= w as int ==> dep@[k] is Some,
            decreases n - w,
        {
            let mut i5: usize = 0;
            while i5 < n
                invariant
                    i5 <= n,
                    n == model.links@.len(),
                    dep@.len() == n as int,
                    parent_joint@.len() == n as int,
                    (root as int) < n as int,
                    dep@[root as int] == Some(0usize),
                    parent_joint@[root as int] is None,
                    forall|jj: int|
                        #![trigger joints@[jj]]
                        0 <= jj < joints@.len() ==> (joints@[jj].child as int) < n as int
                            && (joints@[jj].parent as int) < n as int,
                    forall|k: int|
                        #![trigger parent_joint@[k]]
                        0 <= k < n as int ==> match parent_joint@[k] {
                            None => k == root as int,
                            Some(jj) => (jj as int) < joints@.len()
                                && joints@[jj as int].child as int == k,
                        },
                    forall|k: int|
                        #![trigger dep@[k]]
                        0 <= k < n as int ==> match dep@[k] {
                            None => true,
                            Some(d) => {
                                &&& (d as int) < n as int
                                &&& (k == root as int ==> d == 0)
                                &&& (k != root as int ==> match parent_joint@[k] {
                                    Some(jj) => match dep@[joints@[jj as int].parent as int] {
                                        Some(pd) => pd as int + 1 == d as int,
                                        None => false,
                                    },
                                    None => false,
                                })
                            },
                        },
                    vm == valid_model(*model, ee_name@),
                    vm ==> depth_witness_ok(*model, dw),
                    vm ==> forall|k: int|
                        #![trigger parent_joint@[k]]
                        0 <= k < n as int ==> match parent_joint@[k] {
                            Some(jj) => dw[k] == dw[joints@[jj as int].parent as int] + 1,
                            None => dw[k] == 0,
                        },
                    vm ==> forall|k: int|
                        #![trigger dep@[k]]
                        0 <= k < n as int ==> match dep@[k] {
                            Some(d) => d as int == dw[k],
                            None => true,
                        },
                    vm ==> forall|k: int|
                        #![trigger dw[k]]
                        0 <= k < n as int && dw[k] <= w as int ==> dep@[k] is Some,
                    vm ==> forall|k: int|
                        #![trigger dw[k]]
                        0 <= k < i5 as int && dw[k] <= w as int + 1 ==> dep@[k] is Some,
                decreases n - i5,
            {
                if dep[i5].is_none() {
                    match parent_joint[i5] {
                        Some(jj) => {
                            let p = joints[jj].parent;
                            match dep[p] {
                                Some(pd) => {
                                    if pd + 1 < n {
                                        dep.set(i5, Some(pd + 1));
                                    } else {
                                        proof {
                                            // Under a valid witness the new
                                            // depth is below the link count,
                                            // so this branch cannot be taken.
                                            if vm {
                                                assert(pd as int == dw[p as int]);
                                                assert(dw[i5 as int] == dw[p as int] + 1);
                                                assert(0 <= dw[i5 as int] < n as int);
                                                assert(false);
                                            }
                                        }
                                    }
                                },
                                None => {
                                    proof {
                                        // The parent sits one wave earlier,
                                        // so it already has a depth.
                                        if vm && dw[i5 as int] <= w as int + 1 {
                                            assert(dw[i5 as int] == dw[p as int] + 1);
                                            assert(dw[p as int] <= w as int);
                                            assert(dep@[p as int] is Some);
                                            assert(false);
                                        }
                                    }
                                },
                            }
                        },
                        None => {
                            proof {
                                assert(i5 as int == root as int);
                                assert(false);
                            }
                        },
                    }
                }
                i5 += 1;
            }
            w += 1;
        }
        proof {
            if vm {
                assert forall|k: int| 0 <= k < n as int implies #[trigger] dep@[k] is Some by {
                    assert(0 <= dw[k] < n as int);
                };
            }
        }
        let mut depth: Vec<usize> = Vec::new();
        let mut i6: usize = 0;
        while i6 < n
            invariant
                i6 <= n,
                dep@.len() == n as int,
                depth@.len() == i6 as int,
                forall|k: int|
                    #![trigger depth@[k]]
                    0 <= k < i6 as int ==> dep@[k] == Some(depth@[k]),
                vm == valid_model(*model, ee_name@),
                vm ==> forall|k: int| #![trigger dep@[k]] 0 <= k < n as int ==> dep@[k] is Some,
            decreases n - i6,
        {
            match dep[i6] {
                Some(d) => {
                    depth.push(d);
                },
                None => {
                    proof {
                        // A link without a depth means the model is
                        // disconnected or cyclic: no valid witness exists.
                        if vm {
                            assert(dep@[i6 as int] is Some);
                            assert(false);
                        }
                    }
                    return Err(KinError::StructureError);
                },
            }
            i6 += 1;
        }

        proof {
            // A fully constructed chain certifies the model's validity: no
            // two joints share a resolved child ...
            assert forall|j1: int, j2: int|
                #![trigger model.joints@[j1], model.joints@[j2]]
                0 <= j1 < j2 < model.joints@.len() implies link_idx_s(
                *model,
                model.joints@[j1].child@,
            ) != link_idx_s(*model, model.joints@[j2].child@) by {
                assert(parent_joint@[joints@[j1].child as int] == Some(j1 as usize));
                assert(parent_joint@[joints@[j2].child as int] == Some(j2 as usize));
            };
            // ... the recorded root is the one parentless link ...
            lemma_parentless_links(*model, joints@, parent_joint@, root as int);
            assert forall|i: int|
                #![trigger model_has_parent(*model, i)]
                0 <= i < model.links@.len() && i != root as int implies model_has_parent(
                *model,
                i,
            ) by {
                assert(parent_joint@[i] is Some);
                lemma_parented_links(*model, joints@, parent_joint@, i);
            };
            assert(0 <= (root as int) < model.links@.len() && !model_has_parent(*model, root as int)
                && forall|i: int|
                #![trigger model_has_parent(*model, i)]
                0 <= i < model.links@.len() && i != root as int ==> model_has_parent(*model, i));
            // ... and the computed depths witness connectedness and
            // acyclicity.
            let dwf = depth@.map_values(|d: usize| d as int);
            assert forall|i: int| #![trigger dwf[i]] 0 <= i < model.links@.len() implies 0 <= dwf[i]
                < model.links@.len() by {
                assert(dep@[i] == Some(depth@[i]));
            };
            assert forall|i: int|
                #![trigger dwf[i]]
                0 <= i < model.links@.len() && !model_has_parent(*model, i) implies dwf[i] == 0 by {
                if parent_joint@[i] is Some {
                    lemma_parented_links(*model, joints@, parent_joint@, i);
                }
                assert(i == root as int);
                assert(dep@[i] == Some(depth@[i]));
            };
            assert forall|j: int|
                #![trigger model.joints@[j]]
                0 <= j < model.joints@.len() implies dwf[link_idx_s(*model, model.joints@[j].child@)]
                == dwf[link_idx_s(*model, model.joints@[j].parent@)] + 1 by {
                let c = joints@[j].child as int;
                let p = joints@[j].parent as int;
                assert(parent_joint@[c] == Some(j as usize));
                assert(c != root as int);
                assert(dep@[c] == Some(depth@[c]));
                assert(dep@[p] == Some(depth@[p]));
            };
            assert(depth_witness_ok(*model, dwf));
            assert(valid_model(*model, ee_name@));
        }
        let kin = Kin {
            link_names,
            link_offsets,
            parent_joint,
            depth,
            joints,
            root,
            dof_joints,
            joint_names,
            q_min,
            q_max,
            ee,
        };
        Ok(kin)
    }
}

/// The motion contributed by a joint at position `v`: identity for fixed
/// joints, rotation about the axis for revolute and continuous joints,
/// translation along the axis for prismatic joints.
pub open spec fn jt_transform_s(jt: JointType, axis: V3, v: i64) -> Pose {
    match jt {
        JointType::Fixed => pose_identity_s(),
        JointType::Revolute => Pose { rot: rot_axis_angle_s(axis, v), pos: v3_zero_s() },
        JointType::Continuous => Pose { rot: rot_axis_angle_s(axis, v), pos: v3_zero_s() },
        JointType::Prismatic => Pose { rot: m3_identity_s(), pos: v3_scale_s(axis, v) },
    }
}

pub fn joint_transform(jt: JointType, axis: V3, v: i64) -> (r: Pose)
    ensures
        r == jt_transform_s(jt, axis, v),
{
    match jt {
        JointType::Fixed => pose_identity(),
        JointType::Revolute => Pose { rot: rot_axis_angle(axis, v), pos: v3_zero() },
        JointType::Continuous => Pose { rot: rot_axis_angle(axis, v), pos: v3_zero() },
        JointType::Prismatic => Pose { rot: m3_identity(), pos: v3_scale(axis, v) },
    }
}

impl Kin {
    /// The position of joint `j` under configuration `q`: its entry of the
    /// degree-of-freedom vector, or 0 for a fixed joint.
    pub open spec fn joint_value_s(self, q: Seq<i64>, j: int) -> i64 {
        match self.joints@[j].dof {
            Some(d) => if (d as int) < q.len() {
                q[d as int]
            } else {
                0
            },
            None => 0,
        }
    }

    /// Forward kinematics, one link at a time: the root link's world pose is
    /// its own static offset; every other link's pose is its parent link's
    /// pose composed with the parent joint's origin, the joint's motion, and
    /// the link's static offset.
    pub open spec fn link_pose_s(self, q: Seq<i64>, i: int) -> Pose
        decreases self.depth@[i]
            when self.wf() && 0 <= i < self.nlinks()
    {
        match self.parent_joint@[i] {
            None => self.link_offsets@[i],
            Some(j) => {
                let jn = self.joints@[j as int];
                pose_compose_s(
                    pose_compose_s(
                        pose_compose_s(self.link_pose_s(q, jn.parent as int), jn.origin),
                        jt_transform_s(jn.jtype, jn.axis, self.joint_value_s(q, j as int)),
                    ),
                    self.link_offsets@[i],
                )
            },
        }
    }

    /// World poses of all links, in link order. Only the configuration's
    /// length is checked; the values may be any fixed-point numbers.
    pub(crate) fn compute_poses(&self, q: &Vec<i64>) -> (r: Vec<Pose>)
        requires
            self.wf(),
            q@.len() == self.dof_n(),
        ensures
            r@.len() == self.nlinks(),
            forall|i: int| 0 <= i < self.nlinks() ==> r@[i] == self.link_pose_s(q@, i),
    {
        let n = self.link_names.len();
        let mut poses: Vec<Pose> = Vec::new();
        let mut i0: usize = 0;
        while i0 < n
            invariant
                i0 <= n,
                poses@.len() == i0 as int,
            decreases n - i0,
        {
            poses.push(pose_identity());
            i0 += 1;
        }
        let mut d: usize = 0;
        while d < n
            invariant
                d <= n,
                self.wf(),
                q@.len() == self.dof_n(),
                n as int == self.nlinks(),
                poses@.len() == n as int,
                forall|k: int|
                    #![trigger poses@[k]]
                    0 <= k < n as int && (self.depth@[k] as int) < d as int ==> poses@[k]
                        == self.link_pose_s(q@, k),
            decreases n - d,
        {
            let mut i: usize = 0;
            while i < n
                invariant
                    i <= n,
                    d < n,
                    self.wf(),
                    q@.len() == self.dof_n(),
                    n as int == self.nlinks(),
                    poses@.len() == n as int,
                    forall|k: int|
                        #![trigger poses@[k]]
                        0 <= k < n as int && ((self.depth@[k] as int) < d as int || (
                        self.depth@[k] as int == d as int && k < i as int)) ==> poses@[k]
                            == self.link_pose_s(q@, k),
                decreases n - i,
            {
                if self.depth[i] == d {
                    match self.parent_joint[i] {
                        None => {
                            poses.set(i, self.link_offsets[i]);
                        },
                        Some(j) => {
                            let jn = &self.joints[j];
                            let parent_pose = poses[jn.parent];
                            let v: i64 = match jn.dof {
                                Some(dd) => q[dd],
                                None => 0,
                            };
                            let motion = joint_transform(jn.jtype, jn.axis, v);
                            let pose = pose_compose(
                                &pose_compose(&pose_compose(&parent_pose, &jn.origin), &motion),
                                &self.link_offsets[i],
                            );
                            poses.set(i, pose);
                        },
                    }
                }
                i += 1;
            }
            d += 1;
        }
        poses
    }

    /// World poses of every link under configuration `q`, keyed by link name.
    /// Fails with `DimensionError` exactly when `q` has the wrong length.
    pub fn link_poses(&self, q: &Vec<i64>) -> (r: Result<Vec<(String, Pose)>, KinError>)
        requires
            self.wf(),
        ensures
            match r {
                Ok(ps) => {
                    &&& q@.len() == self.dof_n()
                    &&& ps@.len() == self.nlinks()
                    &&& forall|i: int|
                        #![trigger ps@[i]]
                        0 <= i < self.nlinks() ==> ps@[i].0@ == self.link_names@[i]@ && ps@[i].1
                            == self.link_pose_s(q@, i)
                },
                Err(e) => e == KinError::DimensionError && q@.len() != self.dof_n(),
            },
    {
        if q.len() != self.dof_joints.len() {
            return Err(KinError::DimensionError);
        }
        let poses = self.compute_poses(q);
        let n = self.link_names.len();
        let mut out: Vec<(String, Pose)> = Vec::new();
        let mut i: usize = 0;
        while i < n
            invariant
                i <= n,
                self.wf(),
                n as int == self.nlinks(),
                poses@.len() == n as int,
                forall|k: int| 0 <= k < n as int ==> poses@[k] == self.link_pose_s(q@, k),
                out@.len() == i as int,
                forall|k: int|
                    #![trigger out@[k]]
                    0 <= k < i as int ==> out@[k].0@ == self.link_names@[k]@ && out@[k].1
                        == self.link_pose_s(q@, k),
            decreases n - i,
        {
            out.push((self.link_names[i].clone(), poses[i]));
            i += 1;
        }
        Ok(out)
    }

    /// World pose of the end-effector link under configuration `q`.
    /// Fails with `DimensionError` exactly when `q` has the wrong length;
    /// the `UnknownLinkError` arm is defensive and unreachable for a chain
    /// built by `from_model`.
    pub fn fk(&self, q: &Vec<i64>) -> (r: Result<Pose, KinError>)
        requires
            self.wf(),
        ensures
            match r {
                Ok(p) => q@.len() == self.dof_n() && p == self.link_pose_s(q@, self.ee as int),
                Err(e) => e == KinError::DimensionError && q@.len() != self.dof_n(),
            },
    {
        if q.len() != self.dof_joints.len() {
            return Err(KinError::DimensionError);
        }
        let poses = self.compute_poses(q);
        if self.ee >= poses.len() {
            return Err(KinError::UnknownLinkError);
        }
        Ok(poses[self.ee])
    }

    /// Configuration `q` respects every resolved joint limit.
    pub open spec fn in_limits_s(self, q: Seq<i64>) -> bool {
        &&& q.len() == self.dof_n()
        &&& forall|d: int|
            #![trigger q[d]]
            0 <= d < self.dof_n() ==> self.q_min@[d] <= q[d] <= self.q_max@[d]
    }

    /// Clip each entry of a configuration into its limit interval.
    pub open spec fn clamp_seq_s(self, q: Seq<i64>) -> Seq<i64> {
        Seq::new(q.len(), |d: int| fx_clamp_s(q[d], self.q_min@[d], self.q_max@[d]))
    }

    /// Clip `q` into the joint limits, entry by entry. Out-of-range input is
    /// not an error: it is silently corrected.
    pub fn clamp(&self, q: &mut Vec<i64>)
        requires
            self.wf(),
            old(q)@.len() == self.dof_n(),
        ensures
            final(q)@ == self.clamp_seq_s(old(q)@),
            self.in_limits_s(final(q)@),
    {
        let nd = self.dof_joints.len();
        let mut d: usize = 0;
        while d < nd
            invariant
                d <= nd,
                self.wf(),
                nd as int == self.dof_n(),
                q@.len() == nd as int,
                forall|k: int|
                    #![trigger q@[k]]
                    0 <= k < d as int ==> q@[k] == fx_clamp_s(old(q)@[k], self.q_min@[k],
                    self.q_max@[k]),
                forall|k: int| d as int <= k < nd as int ==> q@[k] == old(q)@[k],
            decreases nd - d,
        {
            let c = fx_clamp(q[d], self.q_min[d], self.q_max[d]);
            q.set(d, c);
            d += 1;
        }
        proof {
            assert(q@ =~= self.clamp_seq_s(old(q)@));
            assert forall|k: int| 0 <= k < self.dof_n() implies self.q_min@[k] <= #[trigger] q@[k]
                <= self.q_max@[k] by {
                let jx = self.dof_joints@[k];
                assert(self.q_min@[k] < self.q_max@[k]);
            }
        }
    }

    /// The root link's world pose is its own static offset, under every
    /// configuration: no joint stands above the root.
    pub proof fn lemma_root_pose(self, q: Seq<i64>)
        requires
            self.wf(),
        ensures
            self.link_pose_s(q, self.root as int) == self.link_offsets@[self.root as int],
    {
    }

    /// The exact composition law of forward kinematics: a link's world pose
    /// is its parent link's world pose composed with the parent joint's
    /// origin, the joint's motion at its configured value, and the link's
    /// static offset.
    pub proof fn lemma_pose_composition(self, q: Seq<i64>, i: int, j: usize)
        requires
            self.wf(),
            0 <= i < self.nlinks(),
            self.parent_joint@[i] == Some(j),
        ensures
            self.link_pose_s(q, i) == pose_compose_s(
                pose_compose_s(
                    pose_compose_s(
                        self.link_pose_s(q, self.joints@[j as int].parent as int),
                        self.joints@[j as int].origin,
                    ),
                    jt_transform_s(
                        self.joints@[j as int].jtype,
                        self.joints@[j as int].axis,
                        self.joint_value_s(q, j as int),
                    ),
                ),
                self.link_offsets@[i],
            ),
    {
    }

    /// Forward kinematics is deterministic: any two pose vectors that both
    /// satisfy the contract of `compute_poses` for the same chain and the
    /// same configuration are identical, bit for bit.
    pub proof fn lemma_fk_deterministic(self, q: Seq<i64>, ps1: Seq<Pose>, ps2: Seq<Pose>)
        requires
            self.wf(),
            ps1.len() == self.nlinks(),
            ps2.len() == self.nlinks(),
            forall|i: int| 0 <= i < self.nlinks() ==> ps1[i] == self.link_pose_s(q, i),
            forall|i: int| 0 <= i < self.nlinks() ==> ps2[i] == self.link_pose_s(q, i),
        ensures
            ps1 == ps2,
    {
        assert(ps1 =~= ps2);
    }

    /// Clamping is idempotent, and a no-op on a configuration already within
    /// the limits.
    pub proof fn lemma_clamp_idempotent(self, q: Seq<i64>)
        requires
            self.wf(),
            q.len() == self.dof_n(),
        ensures
            self.clamp_seq_s(self.clamp_seq_s(q)) == self.clamp_seq_s(q),
            self.in_limits_s(q) ==> self.clamp_seq_s(q) == q,
            self.in_limits_s(self.clamp_seq_s(q)),
    {
        assert forall|d: int| 0 <= d < self.dof_n() implies self.q_min@[d]
            < #[trigger] self.q_max@[d] by {
            let jx = self.dof_joints@[d];
        }
        let c = self.clamp_seq_s(q);
        assert(self.clamp_seq_s(c) =~= c);
        if self.in_limits_s(q) {
            assert(c =~= q);
        }
        assert forall|d: int| 0 <= d < self.dof_n() implies self.q_min@[d] <= #[trigger] c[d]
            <= self.q_max@[d] by {
            let jx = self.dof_joints@[d];
        }
    }
}

} // verus!
