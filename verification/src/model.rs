//! The parsed structural description of a robot: a list of links and a list
//! of joints, with names, geometric offsets and declared position limits.
//! A model-loading collaborator (outside this library) produces these plain
//! values; the chain in `kin` validates them and builds its tree.

use vstd::prelude::*;
use crate::geom::{Pose, V3};

verus! {

/// The kind of a joint. Fixed joints carry no degree of freedom.
#[derive(Clone, Copy, PartialEq, Eq, Structural, Debug)]
pub enum JointType {
    Revolute,
    Prismatic,
    Continuous,
    Fixed,
}

/// A joint as declared in the model: it connects the link named `parent` to
/// the link named `child`, sits at `origin` within the parent link's frame,
/// moves along or about `axis`, and declares raw `lower`/`upper` limits
/// (fixed point; see `kin::resolve_limits_s` for how they are interpreted).
pub struct JointSpec {
    pub name: String,
    pub jtype: JointType,
    pub parent: String,
    pub child: String,
    pub axis: V3,
    pub origin: Pose,
    pub lower: i64,
    pub upper: i64,
}

/// A link as declared in the model: a name and the static offset from its
/// parent joint's frame to the link's own frame (for the root link: from the
/// world frame).
pub struct LinkSpec {
    pub name: String,
    pub offset: Pose,
}

/// A parsed robot model: links and joints in document order.
pub struct RobotModel {
    pub links: Vec<LinkSpec>,
    pub joints: Vec<JointSpec>,
}

/// Pick the end-effector link name: an explicit argument wins; otherwise the
/// last link in declaration order; for an empty model, a conventional default.
pub fn end_effector_name(cli_arg: Option<String>, model: &RobotModel) -> (r: String)
    ensures
        match cli_arg {
            Some(s) => r@ == s@,
            None => {
                if model.links@.len() == 0 {
                    r@ == "tool0"@
                } else {
                    r@ == model.links@[model.links@.len() - 1].name@
                }
            },
        },
{
    match cli_arg {
        Some(s) => s,
        None => {
            let n = model.links.len();
            if n == 0 {
                "tool0".to_owned()
            } else {
                model.links[n - 1].name.clone()
            }
        },
    }
}

} // verus!
