use armkin::fx::{FX_HALF_PI, FX_ONE, FX_PI, FX_QUARTER_PI};
use armkin::geom::{m3_identity, pose_compose, pose_identity, Pose, V3};
use armkin::kin::{joint_transform, Kin, KinError, Q_LOWER_UNBOUNDED, Q_UPPER_UNBOUNDED};
use armkin::model::{end_effector_name, JointSpec, JointType, LinkSpec, RobotModel};

fn fx(v: f64) -> i64 {
    (v * 4294967296.0).round() as i64
}

fn to_f(v: i64) -> f64 {
    v as f64 / 4294967296.0
}

fn axis_z() -> V3 {
    V3 { x: 0, y: 0, z: FX_ONE }
}

fn trans_x(x: i64) -> Pose {
    Pose {
        rot: m3_identity(),
        pos: V3 { x, y: 0, z: 0 },
    }
}

/// A planar 2-link arm: both joints revolute about z, link lengths 1 and 1.
fn two_link_model() -> RobotModel {
    RobotModel {
        links: vec![
            LinkSpec { name: "base".to_string(), offset: pose_identity() },
            LinkSpec { name: "l1".to_string(), offset: pose_identity() },
            LinkSpec { name: "l2".to_string(), offset: trans_x(FX_ONE) },
        ],
        joints: vec![
            JointSpec {
                name: "j1".to_string(),
                jtype: JointType::Revolute,
                parent: "base".to_string(),
                child: "l1".to_string(),
                axis: axis_z(),
                origin: pose_identity(),
                lower: 0,
                upper: 0,
            },
            JointSpec {
                name: "j2".to_string(),
                jtype: JointType::Revolute,
                parent: "l1".to_string(),
                child: "l2".to_string(),
                axis: axis_z(),
                origin: trans_x(FX_ONE),
                lower: 0,
                upper: 0,
            },
        ],
    }
}

fn two_link_chain() -> Kin {
    Kin::from_model(&two_link_model(), &"l2".to_string()).unwrap()
}

const TOL: i64 = 429497; // about 1e-4 in fixed point

#[test]
fn construction_and_dof() {
    let kin = two_link_chain();
    assert_eq!(kin.dof(), 2);
    assert_eq!(kin.joint_names.len(), 2);
    assert_eq!(kin.joint_names[0], "j1");
    assert_eq!(kin.joint_names[1], "j2");
}

#[test]
fn degenerate_revolute_limits_default_to_pi() {
    // Both joints declare lower == upper == 0, so each resolves to [-pi, pi].
    let kin = two_link_chain();
    assert_eq!(kin.q_min[0], -FX_PI);
    assert_eq!(kin.q_max[0], FX_PI);
    assert_eq!(kin.q_min[1], -FX_PI);
    assert_eq!(kin.q_max[1], FX_PI);
}

#[test]
fn degenerate_prismatic_limits_stay_unbounded() {
    let mut model = two_link_model();
    model.joints[0].jtype = JointType::Prismatic;
    let kin = Kin::from_model(&model, &"l2".to_string()).unwrap();
    assert_eq!(kin.q_min[0], Q_LOWER_UNBOUNDED);
    assert_eq!(kin.q_max[0], Q_UPPER_UNBOUNDED);
}

#[test]
fn declared_ordered_limits_are_kept() {
    let mut model = two_link_model();
    model.joints[0].lower = fx(-1.0);
    model.joints[0].upper = fx(2.0);
    let kin = Kin::from_model(&model, &"l2".to_string()).unwrap();
    assert_eq!(kin.q_min[0], fx(-1.0));
    assert_eq!(kin.q_max[0], fx(2.0));
}

#[test]
fn unknown_end_effector_is_structure_error() {
    let model = two_link_model();
    let r = Kin::from_model(&model, &"missing".to_string());
    assert_eq!(r.err().unwrap(), KinError::StructureError);
}

#[test]
fn unknown_joint_link_is_structure_error() {
    let mut model = two_link_model();
    model.joints[1].parent = "nowhere".to_string();
    let r = Kin::from_model(&model, &"l2".to_string());
    assert_eq!(r.err().unwrap(), KinError::StructureError);
}

#[test]
fn two_parent_joints_is_structure_error() {
    let mut model = two_link_model();
    model.joints[1].child = "l1".to_string(); // l1 now child of both joints
    let r = Kin::from_model(&model, &"l1".to_string());
    assert_eq!(r.err().unwrap(), KinError::StructureError);
}

#[test]
fn cyclic_model_is_structure_error() {
    let mut model = two_link_model();
    // j2 closes a loop back onto base: base has a parent, no root remains.
    model.joints[1].child = "base".to_string();
    let r = Kin::from_model(&model, &"l1".to_string());
    assert_eq!(r.err().unwrap(), KinError::StructureError);
}

#[test]
fn disconnected_model_is_structure_error() {
    let mut model = two_link_model();
    model.joints.pop(); // l2 is now attached to nothing: two roots
    let r = Kin::from_model(&model, &"l2".to_string());
    assert_eq!(r.err().unwrap(), KinError::StructureError);
}

#[test]
fn fk_dimension_error() {
    let kin = two_link_chain();
    let q = vec![0i64];
    assert_eq!(kin.fk(&q).err().unwrap(), KinError::DimensionError);
    assert_eq!(kin.link_poses(&q).err().unwrap(), KinError::DimensionError);
}

#[test]
fn fk_root_pose_is_its_static_offset() {
    let kin = two_link_chain();
    let q = vec![fx(0.3), fx(-0.8)];
    let poses = kin.link_poses(&q).unwrap();
    assert_eq!(poses[0].0, "base");
    assert_eq!(poses[0].1, pose_identity());
}

#[test]
fn fk_two_link_position() {
    let kin = two_link_chain();
    // Joints at 45 and -90 degrees: tip at (sqrt(2), 0, 0).
    let q = vec![FX_QUARTER_PI, -FX_HALF_PI];
    let p = kin.fk(&q).unwrap();
    assert!((to_f(p.pos.x) - 1.41421356).abs() < 1e-4);
    assert!(to_f(p.pos.y).abs() < 1e-4);
    assert_eq!(p.pos.z, 0);
    // Orientation is a rotation by -45 degrees about z.
    assert!((to_f(p.rot.m00) - 0.70710678).abs() < 1e-4);
    assert!((to_f(p.rot.m01) - 0.70710678).abs() < 1e-4);
    assert!((to_f(p.rot.m10) + 0.70710678).abs() < 1e-4);
    assert!((to_f(p.rot.m22) - 1.0).abs() < 1e-4);
}

#[test]
fn fk_zero_configuration_stretches_along_x() {
    let kin = two_link_chain();
    let q = vec![0i64, 0i64];
    let p = kin.fk(&q).unwrap();
    assert!((to_f(p.pos.x) - 2.0).abs() < 1e-5);
    assert!(to_f(p.pos.y).abs() < 1e-5);
}

#[test]
fn fk_composition_law_concrete() {
    // pose(l2) == pose(l1) . origin(j2) . jointTransform(j2, q2) . offset(l2)
    let kin = two_link_chain();
    let q = vec![fx(0.5), fx(-1.1)];
    let poses = kin.link_poses(&q).unwrap();
    let p1 = poses[1].1;
    let p2 = poses[2].1;
    let motion = joint_transform(JointType::Revolute, axis_z(), fx(-1.1));
    let expect = pose_compose(
        &pose_compose(&pose_compose(&p1, &trans_x(FX_ONE)), &motion),
        &trans_x(FX_ONE),
    );
    assert_eq!(p2, expect);
}

#[test]
fn fk_is_deterministic_bit_for_bit() {
    let kin = two_link_chain();
    let q = vec![fx(0.37), fx(-2.2)];
    let a = kin.link_poses(&q).unwrap();
    let b = kin.link_poses(&q).unwrap();
    assert_eq!(a.len(), b.len());
    for i in 0..a.len() {
        assert_eq!(a[i].0, b[i].0);
        assert_eq!(a[i].1, b[i].1);
    }
}

#[test]
fn clamp_corrects_and_is_idempotent() {
    let kin = two_link_chain();
    let mut q = vec![fx(10.0), fx(-10.0)];
    kin.clamp(&mut q);
    assert_eq!(q[0], FX_PI);
    assert_eq!(q[1], -FX_PI);
    let once = q.clone();
    kin.clamp(&mut q);
    assert_eq!(q, once);
}

#[test]
fn clamp_is_noop_on_valid_input() {
    let kin = two_link_chain();
    let mut q = vec![fx(0.5), fx(-0.5)];
    let orig = q.clone();
    kin.clamp(&mut q);
    assert_eq!(q, orig);
}

#[test]
fn ik_dimension_error() {
    let kin = two_link_chain();
    let target = pose_identity();
    let q0 = vec![0i64];
    assert_eq!(
        kin.ik(&q0, &target, 10, TOL).err().unwrap(),
        KinError::DimensionError
    );
}

#[test]
fn ik_zero_dof_fails_fast_with_structure_error() {
    // All joints fixed: no degree of freedom.
    let mut model = two_link_model();
    model.joints[0].jtype = JointType::Fixed;
    model.joints[1].jtype = JointType::Fixed;
    let kin = Kin::from_model(&model, &"l2".to_string()).unwrap();
    let q0: Vec<i64> = vec![];
    let r = kin.ik(&q0, &pose_identity(), 10, TOL);
    assert_eq!(r.err().unwrap(), KinError::StructureError);
}

#[test]
fn ik_end_effector_at_root_fails_fast() {
    // The end-effector is the root link: the path holds no degree of freedom.
    let kin = Kin::from_model(&two_link_model(), &"base".to_string()).unwrap();
    let q0 = vec![0i64, 0i64];
    let r = kin.ik(&q0, &pose_identity(), 10, TOL);
    assert_eq!(r.err().unwrap(), KinError::StructureError);
}

#[test]
fn ik_two_link_converges_to_reachable_target() {
    let kin = two_link_chain();
    // A reachable target: the pose of the known configuration (45, -90) deg,
    // whose position is (1.414, 0, 0).
    let q_known = vec![FX_QUARTER_PI, -FX_HALF_PI];
    let target = kin.fk(&q_known).unwrap();
    let q0 = vec![0i64, 0i64];
    let (q, res) = kin.ik(&q0, &target, 50, TOL).unwrap();
    assert!(res < TOL, "residual {} not below {}", res, TOL);
    // Re-running forward kinematics on the result reproduces the target.
    let p = kin.fk(&q).unwrap();
    assert!((to_f(p.pos.x) - to_f(target.pos.x)).abs() < 2e-4);
    assert!((to_f(p.pos.y) - to_f(target.pos.y)).abs() < 2e-4);
    assert!((to_f(p.pos.z) - to_f(target.pos.z)).abs() < 2e-4);
    // The result respects the joint limits.
    assert!(q[0] >= kin.q_min[0] && q[0] <= kin.q_max[0]);
    assert!(q[1] >= kin.q_min[1] && q[1] <= kin.q_max[1]);
}

#[test]
fn ik_returns_best_effort_on_unreachable_target() {
    let kin = two_link_chain();
    // Far outside the arm's reach: no convergence, but a result and a
    // truthful residual still come back.
    let target = trans_x(fx(5.0));
    let q0 = vec![fx(0.1), fx(0.1)];
    let (q, res) = kin.ik(&q0, &target, 20, TOL).unwrap();
    assert!(res >= TOL);
    assert_eq!(q.len(), 2);
    assert!(q[0] >= kin.q_min[0] && q[0] <= kin.q_max[0]);
    assert!(q[1] >= kin.q_min[1] && q[1] <= kin.q_max[1]);
}

#[test]
fn end_effector_name_prefers_explicit_argument() {
    let model = two_link_model();
    let n = end_effector_name(Some("l1".to_string()), &model);
    assert_eq!(n, "l1");
}

#[test]
fn end_effector_name_defaults_to_last_link() {
    let model = two_link_model();
    let n = end_effector_name(None, &model);
    assert_eq!(n, "l2");
}

#[test]
fn end_effector_name_default_for_empty_model() {
    let model = RobotModel { links: vec![], joints: vec![] };
    let n = end_effector_name(None, &model);
    assert_eq!(n, "tool0");
}

#[test]
fn dof_vector_keeps_document_order_and_skips_fixed_joints() {
    let mut model = two_link_model();
    // Interleave a fixed joint: base -j1- l1 -jf(fixed)- lm -j2- l2.
    model.links.insert(2, LinkSpec { name: "lm".to_string(), offset: pose_identity() });
    model.joints[1].parent = "lm".to_string();
    model.joints.insert(
        1,
        JointSpec {
            name: "jf".to_string(),
            jtype: JointType::Fixed,
            parent: "l1".to_string(),
            child: "lm".to_string(),
            axis: axis_z(),
            origin: pose_identity(),
            lower: 0,
            upper: 0,
        },
    );
    let kin = Kin::from_model(&model, &"l2".to_string()).unwrap();
    assert_eq!(kin.dof(), 2);
    assert_eq!(kin.joint_names, vec!["j1".to_string(), "j2".to_string()]);
    assert!(kin.dof_joints[0] < kin.dof_joints[1]);
}

#[test]
fn prismatic_joint_translates_along_axis() {
    let mut model = two_link_model();
    model.joints[0].jtype = JointType::Prismatic;
    let kin = Kin::from_model(&model, &"l2".to_string()).unwrap();
    // Slide 0.5 along z, keep the elbow straight.
    let q = vec![fx(0.5), 0i64];
    // The prismatic axis is z, so the tip lifts by 0.5.
    let p = kin.fk(&q).unwrap();
    assert!((to_f(p.pos.x) - 2.0).abs() < 1e-5);
    assert!((to_f(p.pos.z) - 0.5).abs() < 1e-5);
}
