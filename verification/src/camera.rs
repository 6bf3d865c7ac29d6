//! The camera: a position that flies with inertia between the walls of the
//! play area, and a look direction that the mouse turns.

use crate::fixed::{
    clamp, clamp_i128, lemma_mul_bounds, lemma_trunc_div_exact, magnitude, mul_fx, step, trunc_div,
    ONE, ONE_SQUARED,
};
use crate::input::{InputModel, InputState};
use crate::motion::{
    accelerate, acceleration_for, before_cut, bounced_loc, bounced_vel, component_along, displace,
    displacement, friction_step, idle_axis, lemma_idle_axis_decay, lemma_idle_axis_on_world_axis,
    horizontal_friction, horizontal_speed, in_play_area, integrate_velocity, into_play_area,
    lemma_horizontal_decay, lemma_shrink_shortens, lemma_vertical_decay, limit_acceleration,
    limit_velocity,
    nudge_velocity, ramp_speed, shrink_velocity, vertical_friction, ACCELERATION, ACC_LIMIT,
    DEACCELERATION, MAX_POS_X, MAX_POS_Y, MAX_POS_Z, MIN_POS, SPEED_RAMP, SPRINT_SPEED, VEL_LIMIT,
    WALK_SPEED,
};
use crate::orientation::{
    basis, basis_forward, basis_right, basis_up, lemma_basis_orthonormal, nearly_orthonormal,
    tilt_pitch, tilted_pitch, turn_yaw, turned_yaw, PITCH_LIMIT, SENS,
};
use crate::projection::{view_projection, view_projection_matrix};
use crate::trig::{
    lemma_sin_cos_quarter_turns, lemma_sin_cos_unit, sin_cos_at, wrap_degrees, FULL_TURN,
};
use crate::vector::{Mat4, SpecMat4, SpecVec3, Vec3};
use vstd::prelude::*;

verus! {

/// A camera that flies.
#[derive(Clone, Copy, Debug)]
pub struct Camera {
    loc: Vec3,
    vel: Vec3,
    acc: Vec3,
    forward: Vec3,
    up: Vec3,
    right: Vec3,
    yaw: i64,
    pitch: i64,
    aspect: i64,
    speed: i64,
}

/// The mathematical value of a [`Camera`].
pub struct CameraModel {
    /// Where the camera is, in world axes.
    pub loc: SpecVec3,
    /// How it moves, in world axes, as a multiple of its speed.
    pub vel: SpecVec3,
    /// What the held keys ask for, in the camera's own axes.
    pub acc: SpecVec3,
    /// The axis that it looks along.
    pub forward: SpecVec3,
    /// The axis above it.
    pub up: SpecVec3,
    /// The axis to its side.
    pub right: SpecVec3,
    /// The turn about the vertical, in millionths of a degree.
    pub yaw: int,
    /// The tilt against the horizontal, in millionths of a degree.
    pub pitch: int,
    /// The ratio of the width of the picture to its height.
    pub aspect: int,
    /// The speed that the velocity is a multiple of.
    pub speed: int,
}

impl CameraModel {
    /// What holds of every camera: it is between the walls, its velocity and
    /// acceleration are within their limits, its yaw is within one turn, its
    /// pitch within the limit, its frame is the frame of its yaw and pitch,
    /// its picture has a width, and its speed is between walk and sprint.
    pub open spec fn wf(self) -> bool {
        &&& in_play_area(self.loc)
        &&& self.vel.within(VEL_LIMIT as int)
        &&& self.acc.within(ACC_LIMIT as int)
        &&& 0 <= self.yaw < FULL_TURN
        &&& -PITCH_LIMIT <= self.pitch <= PITCH_LIMIT
        &&& self.forward == basis_forward(self.yaw, self.pitch)
        &&& self.right == basis_right(self.yaw)
        &&& self.up == basis_up(self.yaw, self.pitch)
        &&& self.aspect > 0
        &&& WALK_SPEED <= self.speed <= SPRINT_SPEED
    }

    /// A camera at rest at the point of the play area nearest to `loc`, with
    /// the yaw wrapped into one turn and the pitch held within the limit.
    pub open spec fn new(loc: SpecVec3, yaw: int, pitch: int, aspect: int) -> CameraModel {
        let yaw = yaw % (FULL_TURN as int);
        let pitch = clamp(pitch, -PITCH_LIMIT, PITCH_LIMIT as int);
        CameraModel {
            loc: into_play_area(loc),
            vel: SpecVec3::zero(),
            acc: SpecVec3::zero(),
            forward: basis_forward(yaw, pitch),
            up: basis_up(yaw, pitch),
            right: basis_right(yaw),
            yaw,
            pitch,
            aspect,
            speed: WALK_SPEED as int,
        }
    }

    /// The camera with the acceleration that the held keys ask for.
    pub open spec fn update_acc(self, input: InputModel) -> CameraModel {
        CameraModel { acc: acceleration_for(input.movement_intent()), ..self }
    }

    /// The camera after its velocity has followed acceleration and friction
    /// for `dt` microseconds.
    pub open spec fn update_vel(self, dt: int) -> CameraModel {
        CameraModel { vel: integrate_velocity(self.vel, self.acc, self.right, dt), ..self }
    }

    /// The camera after its speed has risen or fallen for `dt` microseconds:
    /// it rises while the sprint modifier is held together with a key that
    /// moves.
    pub open spec fn update_speed(self, dt: int, input: InputModel) -> CameraModel {
        CameraModel {
            speed: ramp_speed(self.speed, input.ctrl_pressed && input.movement_key_pressed(), dt),
            ..self
        }
    }

    /// The camera after `dt` microseconds of flight, walls not yet
    /// considered.
    pub open spec fn update_loc(self, dt: int) -> CameraModel {
        CameraModel { loc: displace(self.loc, self.vel, self.speed, dt), ..self }
    }

    /// The camera thrown back by the walls that it has passed.
    pub open spec fn enforce_bounds(self) -> CameraModel {
        CameraModel {
            loc: bounced_loc(self.loc, self.vel),
            vel: bounced_vel(self.loc, self.vel),
            ..self
        }
    }

    /// The camera after one step of `dt` microseconds with the given keys
    /// held.
    pub open spec fn update_pos(self, dt: int, input: InputModel) -> CameraModel {
        self.update_acc(input).update_vel(dt).update_speed(dt, input).update_loc(
            dt,
        ).enforce_bounds()
    }

    /// The camera with the frame of its yaw and pitch.
    pub open spec fn calc_vecs(self) -> CameraModel {
        CameraModel {
            forward: basis_forward(self.yaw, self.pitch),
            up: basis_up(self.yaw, self.pitch),
            right: basis_right(self.yaw),
            ..self
        }
    }

    /// The camera after the mouse has moved by `look`, in millionths of a
    /// pixel, within `dt` microseconds.
    pub open spec fn update_look(self, look: (int, int), dt: int) -> CameraModel {
        CameraModel {
            yaw: turned_yaw(self.yaw, look.0, dt),
            pitch: tilted_pitch(self.pitch, look.1, dt),
            ..self
        }.calc_vecs()
    }

    /// The camera with another ratio of width to height.
    pub open spec fn set_aspect(self, aspect: int) -> CameraModel {
        CameraModel { aspect, ..self }
    }

    /// The camera moved to the point of the play area nearest to `loc`.
    pub open spec fn set_loc(self, loc: SpecVec3) -> CameraModel {
        CameraModel { loc: into_play_area(loc), ..self }
    }

    /// The camera with the velocity `vel`, cut to the limit.
    pub open spec fn set_vel(self, vel: SpecVec3) -> CameraModel {
        CameraModel { vel: limit_velocity(vel), ..self }
    }

    /// The camera with the acceleration `acc`, cut to the limit.
    pub open spec fn set_acc(self, acc: SpecVec3) -> CameraModel {
        CameraModel { acc: limit_acceleration(acc), ..self }
    }

    /// The camera after one frame: a step of `dt` microseconds with the given
    /// keys held, and then a turn by the mouse motion `look`.
    pub open spec fn frame(self, dt: int, input: InputModel, look: (int, int)) -> CameraModel {
        self.update_pos(dt, input).update_look(look, dt)
    }

    /// The matrix from world to clip space.
    pub open spec fn build_view_proj(self) -> SpecMat4 {
        view_projection(self.loc, self.forward, self.right, self.up, self.aspect)
    }
}

/// A camera on the wall at the high end of `x` whose velocity carries it
/// outward stays on the wall, and the `x` component of its velocity is
/// reversed and keeps its size.
pub proof fn lemma_bounce_at_max_x(cam: CameraModel, dt: int)
    requires
        cam.loc.x == MAX_POS_X,
        cam.vel.x > 0,
        displacement(cam.speed, cam.vel.x, dt) > 0,
    ensures
        cam.update_loc(dt).enforce_bounds().loc.x == MAX_POS_X,
        cam.update_loc(dt).enforce_bounds().vel.x == -cam.vel.x,
{
}

/// At every wall: after a step of flight the camera is between the walls,
/// each component of its velocity has kept its size, and a component is
/// reversed if, and only if, the step has carried the camera beyond a wall of
/// its axis.
pub proof fn lemma_walls_hold(cam: CameraModel, dt: int)
    ensures
        in_play_area(cam.update_loc(dt).enforce_bounds().loc),
        magnitude(cam.update_loc(dt).enforce_bounds().vel.x) == magnitude(cam.vel.x),
        magnitude(cam.update_loc(dt).enforce_bounds().vel.y) == magnitude(cam.vel.y),
        magnitude(cam.update_loc(dt).enforce_bounds().vel.z) == magnitude(cam.vel.z),
        MIN_POS <= cam.loc.x + displacement(cam.speed, cam.vel.x, dt) <= MAX_POS_X
            ==> cam.update_loc(dt).enforce_bounds().vel.x == cam.vel.x,
        MIN_POS <= cam.loc.y + displacement(cam.speed, cam.vel.y, dt) <= MAX_POS_Y
            ==> cam.update_loc(dt).enforce_bounds().vel.y == cam.vel.y,
        MIN_POS <= cam.loc.z + displacement(cam.speed, cam.vel.z, dt) <= MAX_POS_Z
            ==> cam.update_loc(dt).enforce_bounds().vel.z == cam.vel.z,
        !(MIN_POS <= cam.loc.x + displacement(cam.speed, cam.vel.x, dt) <= MAX_POS_X)
            ==> cam.update_loc(dt).enforce_bounds().vel.x == -cam.vel.x,
        !(MIN_POS <= cam.loc.y + displacement(cam.speed, cam.vel.y, dt) <= MAX_POS_Y)
            ==> cam.update_loc(dt).enforce_bounds().vel.y == -cam.vel.y,
        !(MIN_POS <= cam.loc.z + displacement(cam.speed, cam.vel.z, dt) <= MAX_POS_Z)
            ==> cam.update_loc(dt).enforce_bounds().vel.z == -cam.vel.z,
{
}

/// While the keys ask for no movement, because none is held or because those
/// that are held cancel, a step lets no component of the velocity grow, and
/// makes each one smaller that was not zero, if time has passed. A wall may
/// reverse a component; it does not change its size.
pub proof fn lemma_idle_camera_slows(cam: CameraModel, dt: int, input: InputModel)
    requires
        input.movement_intent() == SpecVec3::zero(),
        dt >= 0,
    ensures
        magnitude(cam.update_pos(dt, input).vel.x) <= magnitude(cam.vel.x),
        magnitude(cam.update_pos(dt, input).vel.y) <= magnitude(cam.vel.y),
        magnitude(cam.update_pos(dt, input).vel.z) <= magnitude(cam.vel.z),
        dt > 0 && cam.vel.x != 0 ==> magnitude(cam.update_pos(dt, input).vel.x) < magnitude(
            cam.vel.x,
        ),
        dt > 0 && cam.vel.y != 0 ==> magnitude(cam.update_pos(dt, input).vel.y) < magnitude(
            cam.vel.y,
        ),
        dt > 0 && cam.vel.z != 0 ==> magnitude(cam.update_pos(dt, input).vel.z) < magnitude(
            cam.vel.z,
        ),
{
    let acc = acceleration_for(input.movement_intent());
    assert(acc == SpecVec3::zero());
    lemma_vertical_decay(cam.vel, acc, cam.right, dt);
    lemma_horizontal_decay(cam.vel, acc, cam.right, dt);
    let moving = cam.update_acc(input).update_vel(dt).update_speed(dt, input);
    assert(moving.vel == integrate_velocity(cam.vel, acc, cam.right, dt));
    lemma_walls_hold(moving, dt);
}

/// The frame of every camera is orthonormal up to rounding, before and after
/// every turn of the look direction.
pub proof fn lemma_frame_orthonormal(cam: CameraModel, look: (int, int), dt: int)
    requires
        cam.wf(),
    ensures
        nearly_orthonormal(cam.forward, cam.right, cam.up),
        nearly_orthonormal(
            cam.update_look(look, dt).forward,
            cam.update_look(look, dt).right,
            cam.update_look(look, dt).up,
        ),
{
    lemma_basis_orthonormal(cam.yaw, cam.pitch);
    let turned = cam.update_look(look, dt);
    lemma_basis_orthonormal(turned.yaw, turned.pitch);
}

/// Every step and every turn keeps a camera well formed: the yaw stays
/// within one turn and the pitch within the limit.
pub proof fn lemma_steps_keep_wf(cam: CameraModel, look: (int, int), dt: int, input: InputModel)
    requires
        cam.wf(),
    ensures
        cam.update_look(look, dt).wf(),
        0 <= cam.update_look(look, dt).yaw < FULL_TURN,
        -PITCH_LIMIT <= cam.update_look(look, dt).pitch <= PITCH_LIMIT,
        cam.update_pos(dt, input).wf(),
{
    let acc = acceleration_for(input.movement_intent());
    assert(acc.within(ACC_LIMIT as int));
    lemma_walls_hold(cam.update_acc(input).update_vel(dt).update_speed(dt, input), dt);
}

/// With a key held on one horizontal axis of the camera only, a step lets the
/// velocity along the other axis decay: it does not grow and does not pass
/// zero, but for the rounding of the acceleration, which is less than two
/// millionths. The step is one that the cut to the limit leaves alone.
pub proof fn lemma_camera_idle_axis_decays(cam: CameraModel, dt: int)
    requires
        cam.wf(),
        dt >= 0,
        (cam.acc.x == 0) != (cam.acc.z == 0),
        before_cut(cam.vel, cam.acc, cam.right, dt).within(VEL_LIMIT as int),
    ensures
        magnitude(
            component_along(
                cam.update_vel(dt).vel.x,
                cam.update_vel(dt).vel.z,
                idle_axis(cam.acc, cam.right).0,
                idle_axis(cam.acc, cam.right).1,
            ),
        ) < magnitude(
            component_along(
                cam.vel.x,
                cam.vel.z,
                idle_axis(cam.acc, cam.right).0,
                idle_axis(cam.acc, cam.right).1,
            ),
        ) + 2 * ONE,
        component_along(
            cam.vel.x,
            cam.vel.z,
            idle_axis(cam.acc, cam.right).0,
            idle_axis(cam.acc, cam.right).1,
        ) >= 2 * ONE ==> component_along(
            cam.update_vel(dt).vel.x,
            cam.update_vel(dt).vel.z,
            idle_axis(cam.acc, cam.right).0,
            idle_axis(cam.acc, cam.right).1,
        ) >= 0,
        component_along(
            cam.vel.x,
            cam.vel.z,
            idle_axis(cam.acc, cam.right).0,
            idle_axis(cam.acc, cam.right).1,
        ) <= -2 * ONE ==> component_along(
            cam.update_vel(dt).vel.x,
            cam.update_vel(dt).vel.z,
            idle_axis(cam.acc, cam.right).0,
            idle_axis(cam.acc, cam.right).1,
        ) <= 0,
{
    lemma_sin_cos_unit(cam.yaw);
    let (s, c) = sin_cos_at(cam.yaw);
    assert(cam.right.x * cam.right.x + cam.right.z * cam.right.z <= ONE * ONE) by (nonlinear_arith)
        requires
            cam.right.x == -s,
            cam.right.z == c,
            s * s + c * c <= ONE * ONE,
    ;
    lemma_idle_axis_decay(cam.vel, cam.acc, cam.right, dt);
}

/// A camera that looks along the world's `x` axis and has no sideways
/// velocity flies straight while only the keys for forward and backward ask
/// for movement: it gains no sideways velocity and does not move sideways.
pub proof fn lemma_straight_flight(cam: CameraModel, dt: int, input: InputModel)
    requires
        cam.wf(),
        cam.yaw == 0,
        cam.vel.z == 0,
        dt >= 0,
        input.movement_intent().x != 0,
        input.movement_intent().z == 0,
    ensures
        cam.update_pos(dt, input).vel.z == 0,
        cam.update_pos(dt, input).loc.z == cam.loc.z,
{
    lemma_sin_cos_quarter_turns();
    let keyed = cam.update_acc(input);
    assert(keyed.acc.z == 0 && keyed.acc.x != 0);
    assert(cam.right == (SpecVec3 { x: 0, y: 0, z: ONE as int }));
    lemma_idle_axis_on_world_axis(cam.vel, keyed.acc, cam.right, dt);
    assert(friction_step(dt) == 5 * dt);
    let moving = keyed.update_vel(dt).update_speed(dt, input);
    assert(moving.vel.z == 0);
    assert(moving.speed * 0 * dt == 0) by (nonlinear_arith);
}

/// A step or a turn that takes no time changes nothing but the acceleration,
/// which follows the keys at once.
pub proof fn lemma_no_time_no_change(cam: CameraModel, look: (int, int), input: InputModel)
    requires
        cam.wf(),
    ensures
        cam.update_look(look, 0) == cam,
        cam.update_pos(0, input) == cam.update_acc(input),
{
    assert(SENS * look.0 * 0 == 0 && SENS * (-look.1) * 0 == 0) by (nonlinear_arith);
    let keyed = cam.update_acc(input);
    let acc = keyed.acc;
    let right = cam.right;
    let vel = cam.vel;
    assert((acc.x * right.z + acc.z * right.x) * 0 == 0 && acc.y * 0 == 0 && (acc.z * right.z
        - acc.x * right.x) * 0 == 0) by (nonlinear_arith);
    assert(accelerate(vel, acc, right, 0) == vel);
    assert(friction_step(0) == 0);
    assert(mul_fx(right.x, 0) == 0 && mul_fx(right.z, 0) == 0 && mul_fx(-right.x, 0) == 0) by {
        assert(right.x * 0 == 0 && right.z * 0 == 0 && (-right.x) * 0 == 0) by (nonlinear_arith);
    }
    if vel.x != 0 || vel.z != 0 {
        lemma_shrink_shortens(vel.x, vel.z, 0);
        let len = horizontal_speed(vel.x, vel.z);
        assert(trunc_div(vel.x * len, len) == vel.x && trunc_div(vel.z * len, len) == vel.z) by {
            lemma_trunc_div_exact(vel.x, len);
            lemma_trunc_div_exact(vel.z, len);
        }
    }
    assert(horizontal_friction(vel, acc, right, 0) == vel);
    assert(integrate_velocity(vel, acc, right, 0) == vel);
    assert(keyed.update_vel(0) == keyed);
    assert(keyed.update_speed(0, input) == keyed);
    assert(cam.speed * vel.x * 0 == 0 && cam.speed * vel.y * 0 == 0 && cam.speed * vel.z * 0
        == 0) by (nonlinear_arith);
    assert(keyed.update_loc(0) == keyed);
}

impl View for Camera {
    type V = CameraModel;

    closed spec fn view(&self) -> CameraModel {
        CameraModel {
            loc: self.loc@,
            vel: self.vel@,
            acc: self.acc@,
            forward: self.forward@,
            up: self.up@,
            right: self.right@,
            yaw: self.yaw as int,
            pitch: self.pitch as int,
            aspect: self.aspect as int,
            speed: self.speed as int,
        }
    }
}

impl Camera {
    /// A camera at rest at `loc`, or at the nearest point between the walls,
    /// that looks along the given yaw and pitch, in millionths of a degree.
    /// `aspect` is the ratio of the width of the picture to its height.
    pub fn new(loc: Vec3, yaw: i64, pitch: i64, aspect: i64) -> (cam: Self)
        requires
            aspect > 0,
        ensures
            cam@ == CameraModel::new(loc@, yaw as int, pitch as int, aspect as int),
            cam@.wf(),
    {
        let mut cam = Camera {
            loc: Vec3 {
                x: clamp_i128(loc.x as i128, MIN_POS, MAX_POS_X),
                y: clamp_i128(loc.y as i128, MIN_POS, MAX_POS_Y),
                z: clamp_i128(loc.z as i128, MIN_POS, MAX_POS_Z),
            },
            vel: Vec3 { x: 0, y: 0, z: 0 },
            acc: Vec3 { x: 0, y: 0, z: 0 },
            forward: Vec3 { x: 0, y: 0, z: 0 },
            up: Vec3 { x: 0, y: 0, z: 0 },
            right: Vec3 { x: 0, y: 0, z: 0 },
            yaw: wrap_degrees(yaw as i128),
            pitch: clamp_i128(pitch as i128, -PITCH_LIMIT, PITCH_LIMIT),
            aspect,
            speed: WALK_SPEED,
        };
        cam.calc_vecs();
        cam
    }

    /// Builds the matrix from world to clip space.
    pub fn build_view_proj(&self) -> (m: Mat4)
        requires
            self@.wf(),
        ensures
            m@ == self@.build_view_proj(),
    {
        proof {
            lemma_basis_orthonormal(self.yaw as int, self.pitch as int);
        }
        view_projection_matrix(&self.loc, &self.forward, &self.right, &self.up, self.aspect)
    }

    /// Advances the position by one step of `dt` microseconds with the given
    /// keys held: the keys set the acceleration, acceleration and friction
    /// change the velocity, the speed rises or falls, the velocity moves the
    /// position, and the walls throw it back.
    pub fn update_pos(&mut self, dt: u32, input: &InputState)
        requires
            old(self)@.wf(),
        ensures
            final(self)@ == old(self)@.update_pos(dt as int, input@),
            final(self)@.wf(),
    {
        self.update_acc(input);
        self.update_vel(dt);
        self.update_speed(dt, input);
        self.update_loc(dt);

        if self.loc.x > MAX_POS_X {
            self.loc.x = MAX_POS_X;
            self.vel.x = -self.vel.x;
        }
        if self.loc.y > MAX_POS_Y {
            self.loc.y = MAX_POS_Y;
            self.vel.y = -self.vel.y;
        }
        if self.loc.z > MAX_POS_Z {
            self.loc.z = MAX_POS_Z;
            self.vel.z = -self.vel.z;
        }
        if self.loc.x < MIN_POS {
            self.loc.x = MIN_POS;
            self.vel.x = -self.vel.x;
        }
        if self.loc.y < MIN_POS {
            self.loc.y = MIN_POS;
            self.vel.y = -self.vel.y;
        }
        if self.loc.z < MIN_POS {
            self.loc.z = MIN_POS;
            self.vel.z = -self.vel.z;
        }
    }

    /// Moves the position along the velocity.
    fn update_loc(&mut self, dt: u32)
        requires
            old(self)@.wf(),
        ensures
            final(self)@ == old(self)@.update_loc(dt as int),
    {
        let s: i128 = self.speed as i128;
        let t: i128 = dt as i128;
        proof {
            lemma_mul_bounds(s as int, self.vel.x as int, SPRINT_SPEED as int, VEL_LIMIT as int);
            lemma_mul_bounds(s as int, self.vel.y as int, SPRINT_SPEED as int, VEL_LIMIT as int);
            lemma_mul_bounds(s as int, self.vel.z as int, SPRINT_SPEED as int, VEL_LIMIT as int);
            lemma_mul_bounds(
                s * self.vel.x,
                t as int,
                SPRINT_SPEED * VEL_LIMIT,
                0x1_0000_0000int,
            );
            lemma_mul_bounds(
                s * self.vel.y,
                t as int,
                SPRINT_SPEED * VEL_LIMIT,
                0x1_0000_0000int,
            );
            lemma_mul_bounds(
                s * self.vel.z,
                t as int,
                SPRINT_SPEED * VEL_LIMIT,
                0x1_0000_0000int,
            );
        }
        let dx: i128 = s * (self.vel.x as i128) * t / ONE_SQUARED;
        let dy: i128 = s * (self.vel.y as i128) * t / ONE_SQUARED;
        let dz: i128 = s * (self.vel.z as i128) * t / ONE_SQUARED;
        self.loc.x = (self.loc.x as i128 + dx) as i64;
        self.loc.y = (self.loc.y as i128 + dy) as i64;
        self.loc.z = (self.loc.z as i128 + dz) as i64;
    }

    /// Lets the speed rise while sprinting and fall otherwise.
    fn update_speed(&mut self, dt: u32, input: &InputState)
        requires
            old(self)@.wf(),
        ensures
            final(self)@ == old(self)@.update_speed(dt as int, input@),
            final(self)@.wf(),
    {
        let change: i128 = (dt as i128) * (SPEED_RAMP as i128) / (ONE as i128);
        let target: i128 = if input.ctrl_pressed && input.movement_key_pressed() {
            self.speed as i128 + change
        } else {
            self.speed as i128 - change
        };
        self.speed = clamp_i128(target, WALK_SPEED, SPRINT_SPEED);
    }

    /// Lets the velocity follow acceleration and friction.
    fn update_vel(&mut self, dt: u32)
        requires
            old(self)@.wf(),
        ensures
            final(self)@ == old(self)@.update_vel(dt as int),
            final(self)@.wf(),
    {
        proof {
            lemma_basis_orthonormal(self.yaw as int, self.pitch as int);
        }
        let rx: i128 = self.right.x as i128;
        let rz: i128 = self.right.z as i128;
        let ax: i128 = self.acc.x as i128;
        let ay: i128 = self.acc.y as i128;
        let az: i128 = self.acc.z as i128;
        let t: i128 = dt as i128;
        proof {
            lemma_mul_bounds(ax as int, rz as int, ACC_LIMIT as int, ONE as int);
            lemma_mul_bounds(az as int, rx as int, ACC_LIMIT as int, ONE as int);
            lemma_mul_bounds(az as int, rz as int, ACC_LIMIT as int, ONE as int);
            lemma_mul_bounds(ax as int, rx as int, ACC_LIMIT as int, ONE as int);
            lemma_mul_bounds(ax * rz + az * rx, t as int, 2 * ACC_LIMIT * ONE, 0x1_0000_0000int);
            lemma_mul_bounds(az * rz - ax * rx, t as int, 2 * ACC_LIMIT * ONE, 0x1_0000_0000int);
            lemma_mul_bounds(ay as int, t as int, ACC_LIMIT as int, 0x1_0000_0000int);
        }
        let vx: i128 = self.vel.x as i128 + (ax * rz + az * rx) * t / ONE_SQUARED;
        let vy: i128 = self.vel.y as i128 + ay * t / (ONE as i128);
        let vz: i128 = self.vel.z as i128 + (az * rz - ax * rx) * t / ONE_SQUARED;
        let ghost pushed = accelerate(self.vel@, self.acc@, self.right@, dt as int);
        assert(pushed == (SpecVec3 { x: vx as int, y: vy as int, z: vz as int }));

        let amp: i128 = t * (DEACCELERATION as i128) / (ONE as i128);
        assert(amp == friction_step(dt as int));
        assert(amp == 5 * t) by {
            assert(t * DEACCELERATION == 5_000_000 * t) by (nonlinear_arith)
                requires
                    DEACCELERATION == 5_000_000,
            ;
        }

        // With a key held on one horizontal axis only, slow the velocity
        // along the other; with none, shorten it.
        let (hx, hz) = if self.acc.x == 0 && self.acc.z != 0 {
            nudge_velocity(vx, vz, self.right.z, -self.right.x, amp)
        } else if self.acc.x != 0 && self.acc.z == 0 {
            nudge_velocity(vx, vz, self.right.x, self.right.z, amp)
        } else if self.acc.x == 0 && self.acc.z == 0 {
            shrink_velocity(vx, vz, amp)
        } else {
            (vx, vz)
        };
        let ghost slowed = horizontal_friction(pushed, self.acc@, self.right@, amp as int);
        assert(slowed == (SpecVec3 { x: hx as int, y: vy as int, z: hz as int }));

        let mut y: i64 = vy as i64;
        if self.acc.y == 0 {
            step(&mut y, 0, amp as u64);
        }
        let ghost braked = vertical_friction(slowed, self.acc@, amp as int);
        assert(braked == (SpecVec3 { x: hx as int, y: y as int, z: hz as int }));

        self.vel = Vec3 {
            x: clamp_i128(hx, -VEL_LIMIT, VEL_LIMIT),
            y: clamp_i128(y as i128, -VEL_LIMIT, VEL_LIMIT),
            z: clamp_i128(hz, -VEL_LIMIT, VEL_LIMIT),
        };
        assert(self.vel@ == limit_velocity(braked));
    }

    /// Sets the acceleration that the held keys ask for.
    fn update_acc(&mut self, input: &InputState)
        requires
            old(self)@.wf(),
        ensures
            final(self)@ == old(self)@.update_acc(input@),
            final(self)@.wf(),
    {
        let intent = input.movement_intent();
        let acc: i128 = (ACCELERATION + DEACCELERATION) as i128;
        self.acc = Vec3 {
            x: ((intent.x as i128) * acc / (ONE as i128)) as i64,
            y: ((intent.y as i128) * acc / (ONE as i128)) as i64,
            z: ((intent.z as i128) * acc / (ONE as i128)) as i64,
        };
    }

    /// Turns and tilts the camera by a mouse motion of `look`, in millionths
    /// of a pixel, within `dt` microseconds. A motion to the right turns the
    /// yaw up, a motion downward tilts the pitch down.
    pub fn update_look(&mut self, look: (i64, i64), dt: u32)
        requires
            old(self)@.wf(),
        ensures
            final(self)@ == old(self)@.update_look((look.0 as int, look.1 as int), dt as int),
            final(self)@.wf(),
            0 <= final(self)@.yaw < FULL_TURN,
            -PITCH_LIMIT <= final(self)@.pitch <= PITCH_LIMIT,
    {
        self.yaw = turn_yaw(self.yaw, look.0, dt);
        self.pitch = tilt_pitch(self.pitch, look.1, dt);
        self.calc_vecs();
    }

    /// Changes the ratio of the width of the picture to its height.
    pub fn set_aspect(&mut self, aspect: i64)
        requires
            old(self)@.wf(),
            aspect > 0,
        ensures
            final(self)@ == old(self)@.set_aspect(aspect as int),
            final(self)@.wf(),
    {
        self.aspect = aspect;
    }

    /// Computes the frame of the yaw and the pitch.
    fn calc_vecs(&mut self)
        ensures
            final(self)@ == old(self)@.calc_vecs(),
    {
        let (forward, right, up) = basis(self.yaw, self.pitch);
        self.forward = forward;
        self.right = right;
        self.up = up;
    }

    /// Moves the camera to `loc`, or to the nearest point between the walls.
    pub fn set_loc(&mut self, loc: Vec3)
        requires
            old(self)@.wf(),
        ensures
            final(self)@ == old(self)@.set_loc(loc@),
            final(self)@.wf(),
    {
        self.loc = Vec3 {
            x: clamp_i128(loc.x as i128, MIN_POS, MAX_POS_X),
            y: clamp_i128(loc.y as i128, MIN_POS, MAX_POS_Y),
            z: clamp_i128(loc.z as i128, MIN_POS, MAX_POS_Z),
        };
    }

    /// Gives the camera the velocity `vel`, each component cut to `VEL_LIMIT`.
    pub fn set_vel(&mut self, vel: Vec3)
        requires
            old(self)@.wf(),
        ensures
            final(self)@ == old(self)@.set_vel(vel@),
            final(self)@.wf(),
    {
        self.vel = Vec3 {
            x: clamp_i128(vel.x as i128, -VEL_LIMIT, VEL_LIMIT),
            y: clamp_i128(vel.y as i128, -VEL_LIMIT, VEL_LIMIT),
            z: clamp_i128(vel.z as i128, -VEL_LIMIT, VEL_LIMIT),
        };
    }

    /// Gives the camera the acceleration `acc`, each component cut to
    /// `ACC_LIMIT`. The next step replaces it by what the keys ask for.
    pub fn set_acc(&mut self, acc: Vec3)
        requires
            old(self)@.wf(),
        ensures
            final(self)@ == old(self)@.set_acc(acc@),
            final(self)@.wf(),
    {
        self.acc = Vec3 {
            x: clamp_i128(acc.x as i128, -ACC_LIMIT, ACC_LIMIT),
            y: clamp_i128(acc.y as i128, -ACC_LIMIT, ACC_LIMIT),
            z: clamp_i128(acc.z as i128, -ACC_LIMIT, ACC_LIMIT),
        };
    }

    /// Where the camera is.
    pub fn loc(&self) -> (loc: Vec3)
        ensures
            loc@ == self@.loc,
    {
        self.loc
    }

    /// How the camera moves.
    pub fn vel(&self) -> (vel: Vec3)
        ensures
            vel@ == self@.vel,
    {
        self.vel
    }

    /// What the held keys asked for at the last step.
    pub fn acc(&self) -> (acc: Vec3)
        ensures
            acc@ == self@.acc,
    {
        self.acc
    }

    /// The axis that the camera looks along.
    pub fn forward(&self) -> (forward: Vec3)
        ensures
            forward@ == self@.forward,
    {
        self.forward
    }

    /// The axis above the camera.
    pub fn up(&self) -> (up: Vec3)
        ensures
            up@ == self@.up,
    {
        self.up
    }

    /// The axis to the side of the camera.
    pub fn right(&self) -> (right: Vec3)
        ensures
            right@ == self@.right,
    {
        self.right
    }

    /// The yaw, in millionths of a degree.
    pub fn yaw(&self) -> (yaw: i64)
        ensures
            yaw == self@.yaw,
    {
        self.yaw
    }

    /// The pitch, in millionths of a degree.
    pub fn pitch(&self) -> (pitch: i64)
        ensures
            pitch == self@.pitch,
    {
        self.pitch
    }

    /// The ratio of the width of the picture to its height.
    pub fn aspect(&self) -> (aspect: i64)
        ensures
            aspect == self@.aspect,
    {
        self.aspect
    }

    /// The speed that the velocity is a multiple of.
    pub fn speed(&self) -> (speed: i64)
        ensures
            speed == self@.speed,
    {
        self.speed
    }
}

/// One frame: takes the pending mouse motion, advances the camera by a step of
/// `dt` microseconds with the held keys, turns it by the motion taken, and
/// builds the matrix from world to clip space. Returns the matrix and the
/// motion that was taken.
pub fn frame(cam: &mut Camera, input: &mut InputState, dt: u32) -> (r: (Mat4, (i64, i64)))
    requires
        old(cam)@.wf(),
    ensures
        final(input)@ == old(input)@.consume().0,
        (r.1.0 as int, r.1.1 as int) == old(input)@.consume().1,
        final(cam)@ == old(cam)@.frame(
            dt as int,
            old(input)@.consume().0,
            old(input)@.consume().1,
        ),
        final(cam)@.wf(),
        r.0@ == final(cam)@.build_view_proj(),
{
    let look = input.get_unhandled_mouse_move();
    cam.update_pos(dt, input);
    cam.update_look(look, dt);
    (cam.build_view_proj(), look)
}

} // verus!
