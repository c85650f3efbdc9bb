//! Struct-of-arrays body storage and the per-tick integration passes.
use crate::num::{exact_mul, mul_in_range, trunc_div, Num, ONE_BITS};
use crate::vector::{is_root_bits, lemma_root_unique, root_bits, Vec2};
use vstd::prelude::*;

verus! {

/// Every attribute of one body, as stored at one handle of a `Physics`.
#[derive(Clone, Copy, Debug, PartialEq, Eq, Structural)]
pub struct Body {
    pub pos: Vec2,
    pub vel: Vec2,
    pub accel: Vec2,
    pub force: Vec2,
    pub height: Num,
    pub height_vel: Num,
    pub height_accel: Num,
    pub height_force: Num,
    pub angle: Num,
    pub ang_vel: Num,
    pub ang_accel: Num,
    pub torque: Num,
    pub radius: Num,
    pub surface: Num,
    pub volume: Num,
    pub weight: Num,
    pub drag: Num,
    pub friction: Num,
}

/// `4 * pi * r^2`.
pub open spec fn surface_spec(radius: Num) -> Num {
    radius.mul_spec(radius).mul_spec(Num { bits: 13493037704 }.mul_int_spec(4))
}

/// `(4 / 3) * pi * r^3`.
pub open spec fn volume_spec(radius: Num) -> Num {
    radius.mul_spec(radius).mul_spec(radius).mul_spec(Num { bits: 4497679234 }.mul_int_spec(4))
}

/// Surface of a sphere of the given radius.
pub fn surface(radius: Num) -> (r: Num)
    ensures
        r == surface_spec(radius),
{
    radius.mul(radius).mul(Num::pi().mul_int(4))
}

/// Volume of a sphere of the given radius.
pub fn volume(radius: Num) -> (r: Num)
    ensures
        r == volume_spec(radius),
{
    radius.mul(radius).mul(radius).mul(Num::frac_pi_3().mul_int(4))
}

/// One third of the surface: the area term of drag and friction.
pub open spec fn third_surface(b: Body) -> Num {
    b.surface.div_int_spec(3)
}

/// Drag pass: `force -= vel * drag * dt * (surface / 3)`.
pub open spec fn drag_step(b: Body, dt: Num) -> Body {
    Body {
        force: b.force.sub_spec(
            b.vel.scale_spec(b.drag).scale_spec(dt).scale_spec(third_surface(b)),
        ),
        ..b
    }
}

/// Friction pass: `accel = accel.shrink(friction * dt * (surface / 3))`.
pub open spec fn friction_step(b: Body, dt: Num) -> Body {
    Body { accel: b.accel.shrink_spec(b.friction.mul_spec(dt).mul_spec(third_surface(b))), ..b }
}

/// Force pass, for the linear, height and angular groups alike: the acceleration
/// takes `force / weight`, the velocity `accel * dt`, the position
/// `accel * (dt / 2)`; then the accumulators and accelerations are cleared.
pub open spec fn force_step(b: Body, dt: Num) -> Body {
    let half = dt.div_int_spec(2);
    let accel = b.accel.add_spec(b.force.div_num_spec(b.weight));
    let height_accel = b.height_accel.add_spec(b.height_force.div_spec(b.weight));
    let ang_accel = b.ang_accel.add_spec(b.torque.div_spec(b.weight));
    Body {
        vel: b.vel.add_spec(accel.scale_spec(dt)),
        pos: b.pos.add_spec(accel.scale_spec(half)),
        force: Vec2::zero_spec(),
        accel: Vec2::zero_spec(),
        height_vel: b.height_vel.add_spec(height_accel.mul_spec(dt)),
        height: b.height.add_spec(height_accel.mul_spec(half)),
        height_force: Num { bits: 0 },
        height_accel: Num { bits: 0 },
        ang_vel: b.ang_vel.add_spec(ang_accel.mul_spec(dt)),
        angle: b.angle.add_spec(ang_accel.mul_spec(half)),
        torque: Num { bits: 0 },
        ang_accel: Num { bits: 0 },
        ..b
    }
}

/// Velocity pass: `pos += vel * dt`.
pub open spec fn vel_step(b: Body, dt: Num) -> Body {
    Body { pos: b.pos.add_spec(b.vel.scale_spec(dt)), ..b }
}

/// Angle pass: `angle += ang_vel * dt`.
pub open spec fn angle_step(b: Body, dt: Num) -> Body {
    Body { angle: b.angle.add_spec(b.ang_vel.mul_spec(dt)), ..b }
}

/// Geometry pass: surface and volume recomputed from the radius.
pub open spec fn geometry_step(b: Body) -> Body {
    Body { surface: surface_spec(b.radius), volume: volume_spec(b.radius), ..b }
}

/// One whole tick of one body: drag, friction, force, then angle.
pub open spec fn tick_step(b: Body, dt: Num) -> Body {
    angle_step(force_step(friction_step(drag_step(b, dt), dt), dt), dt)
}

/// What a tick needs of a body: a non-zero weight and an acceleration whose
/// length is in range.
pub open spec fn tickable(b: Body) -> bool {
    b.weight.bits != 0 && b.accel.fits()
}

/// A tick of a whole collection, body by body.
pub open spec fn tick_all(bodies: Seq<Body>, dt: Num) -> Seq<Body> {
    bodies.map_values(|b: Body| tick_step(b, dt))
}

/// Bodies do not interact: a tick of a two-body collection leaves each body as a
/// tick of a collection holding that body alone leaves it.
pub proof fn lemma_no_coupling(a: Body, b: Body, dt: Num)
    ensures
        tick_all(seq![a, b], dt) == seq![tick_all(seq![a], dt)[0], tick_all(seq![b], dt)[0]],
{
    assert(tick_all(seq![a, b], dt) =~= seq![tick_all(seq![a], dt)[0], tick_all(seq![b], dt)[0]]);
}

/// The zero vector has length zero, so shrinking it gives the zero vector.
proof fn lemma_zero_shrink(by: Num)
    ensures
        Vec2::zero_spec().shrink_spec(by) == Vec2::zero_spec(),
{
    let z = Vec2::zero_spec();
    assert(mul_in_range(0, 0) && exact_mul(0, 0) == 0);
    assert(z.length_sq_spec().bits == 0);
    assert(is_root_bits(0, 0));
    lemma_root_unique(root_bits(0), 0, 0);
}

/// Bound on the magnitude of the values in `lemma_drag_opposes_motion`: 64 units.
pub open spec fn drag_bound() -> int {
    0x40_0000_0000
}

/// One velocity component after a tick of a body with no force and no
/// acceleration: `v + ((0 - v * drag * dt * s3) / w) * dt`.
pub open spec fn dragged_component(v: Num, drag: Num, dt: Num, s3: Num, w: Num) -> Num {
    let zero = Num { bits: 0 };
    let f = zero.sub_spec(v.mul_spec(drag).mul_spec(dt).mul_spec(s3));
    v.add_spec(zero.add_spec(f.div_spec(w)).mul_spec(dt))
}

proof fn lemma_dragged_component(v: Num, drag: Num, dt: Num, s3: Num, w: Num)
    requires
        ONE_BITS <= w.bits,
        0 <= drag.bits <= drag_bound(),
        0 <= dt.bits <= drag_bound(),
        0 <= s3.bits <= drag_bound(),
        -drag_bound() <= v.bits <= drag_bound(),
    ensures
        drag.bits == 0 ==> dragged_component(v, drag, dt, s3, w) == v,
        v.bits >= 0 ==> dragged_component(v, drag, dt, s3, w).bits <= v.bits,
        v.bits <= 0 ==> dragged_component(v, drag, dt, s3, w).bits >= v.bits,
{
    let q = ONE_BITS as int;
    let bd = drag_bound();
    let (vv, dg, t, s) = (v.bits as int, drag.bits as int, dt.bits as int, s3.bits as int);
    // v * drag
    let pa = vv * dg;
    assert(-bd * bd <= pa <= bd * bd && (vv >= 0 ==> pa >= 0) && (vv <= 0 ==> pa <= 0))
        by (nonlinear_arith)
        requires
            pa == vv * dg,
            -bd <= vv <= bd,
            0 <= dg <= bd,
    ;
    assert(mul_in_range(vv, dg)) by (nonlinear_arith)
        requires
            -bd * bd <= vv * dg <= bd * bd,
            bd == 0x40_0000_0000,
    ;
    let m1 = pa / q;
    assert(-bd * bd / q - 1 <= m1 <= bd * bd / q && (pa >= 0 ==> m1 >= 0) && (pa <= 0 ==> m1
        <= 0)) by (nonlinear_arith)
        requires
            m1 == pa / q,
            -bd * bd <= pa <= bd * bd,
            q == 0x1_0000_0000,
    ;
    assert(v.mul_spec(drag).bits == m1);
    // * dt
    let pb = m1 * t;
    assert(-0x1000_0000_0001 <= m1 <= 0x1000_0000_0001) by (nonlinear_arith)
        requires
            -bd * bd / q - 1 <= m1 <= bd * bd / q,
            bd == 0x40_0000_0000,
            q == 0x1_0000_0000,
    ;
    assert(-0x4_0000_0000_0040_0000_0000 <= pb <= 0x4_0000_0000_0040_0000_0000 && (m1 >= 0 ==> pb >= 0) && (m1 <= 0 ==> pb <= 0))
        by (nonlinear_arith)
        requires
            pb == m1 * t,
            -0x1000_0000_0001 <= m1 <= 0x1000_0000_0001,
            0 <= t <= 0x40_0000_0000,
    ;
    assert(mul_in_range(m1, t));
    let m2 = pb / q;
    assert(-0x4_0000_0000_0080 <= m2 <= 0x4_0000_0000_0080 && (pb >= 0 ==> m2 >= 0) && (pb <= 0 ==> m2 <= 0))
        by (nonlinear_arith)
        requires
            m2 == pb / q,
            -0x4_0000_0000_0040_0000_0000 <= pb <= 0x4_0000_0000_0040_0000_0000,
            q == 0x1_0000_0000,
    ;
    assert(v.mul_spec(drag).mul_spec(dt).bits == m2);
    // * s3
    let pc = m2 * s;
    assert(-0x100_0000_0000_2000_0000_0000 <= pc <= 0x100_0000_0000_2000_0000_0000 && (m2 >= 0 ==> pc >= 0) && (m2 <= 0 ==> pc <= 0))
        by (nonlinear_arith)
        requires
            pc == m2 * s,
            -0x4_0000_0000_0080 <= m2 <= 0x4_0000_0000_0080,
            0 <= s <= 0x40_0000_0000,
    ;
    assert(mul_in_range(m2, s));
    let d = pc / q;
    assert(-0x100_0000_0000_4000 <= d <= 0x100_0000_0000_4000 && (pc >= 0 ==> d >= 0) && (pc <= 0 ==> d <= 0))
        by (nonlinear_arith)
        requires
            d == pc / q,
            -0x100_0000_0000_2000_0000_0000 <= pc <= 0x100_0000_0000_2000_0000_0000,
            q == 0x1_0000_0000,
    ;
    let dn = v.mul_spec(drag).mul_spec(dt).mul_spec(s3);
    assert(dn.bits == d);
    // force = 0 - d, then / w
    let zero = Num { bits: 0 };
    let f = zero.sub_spec(dn);
    assert(f.bits == -d);
    let fq = -d * q;
    assert(-0x100_0000_0000_4000_0000_0000 <= fq <= 0x100_0000_0000_4000_0000_0000 && (d >= 0 ==> fq <= 0) && (d <= 0 ==> fq >= 0))
        by (nonlinear_arith)
        requires
            fq == -d * q,
            -0x100_0000_0000_4000 <= d <= 0x100_0000_0000_4000,
            q == 0x1_0000_0000,
    ;
    let w2 = w.bits as int;
    let afq = if fq < 0 { -fq } else { fq };
    let aq = afq / w2;
    assert(0 <= aq <= 0x100_0000_0000_4000) by (nonlinear_arith)
        requires
            aq == afq / w2,
            0 <= afq <= 0x100_0000_0000_4000_0000_0000,
            q == 0x1_0000_0000,
            q <= w2,
    {
        assert(afq / w2 <= afq / q) by (nonlinear_arith)
            requires
                0 <= afq,
                0 < q <= w2,
        ;
    }
    let a = trunc_div(fq, w2);
    assert(a == if fq < 0 { -aq } else { aq });
    assert(-0x100_0000_0000_4000 <= a <= 0x100_0000_0000_4000 && (fq <= 0 ==> a <= 0) && (fq >= 0 ==> a >= 0));
    assert(f.div_spec(w).bits == a);
    let acc = zero.add_spec(f.div_spec(w));
    assert(acc.bits == a);
    // * dt
    let pd = a * t;
    assert(-0x4000_0000_0010_0000_0000_0000 <= pd <= 0x4000_0000_0010_0000_0000_0000 && (a >= 0 ==> pd >= 0) && (a <= 0 ==> pd <= 0))
        by (nonlinear_arith)
        requires
            pd == a * t,
            -0x100_0000_0000_4000 <= a <= 0x100_0000_0000_4000,
            0 <= t <= 0x40_0000_0000,
    ;
    assert(mul_in_range(a, t));
    let e = pd / q;
    assert(-0x4000_0000_0010_0000 <= e <= 0x4000_0000_0010_0000 && (pd >= 0 ==> e >= 0) && (pd <= 0 ==> e <= 0))
        by (nonlinear_arith)
        requires
            e == pd / q,
            -0x4000_0000_0010_0000_0000_0000 <= pd <= 0x4000_0000_0010_0000_0000_0000,
            q == 0x1_0000_0000,
    ;
    assert(acc.mul_spec(dt).bits == e);
    if drag.bits == 0 {
        assert(pa == 0) by (nonlinear_arith)
            requires
                pa == vv * dg,
                dg == 0,
        ;
    }
}

/// Drag opposes motion. For a body with no accumulated force or acceleration, a
/// weight of at least one, and drag, step, surface and velocity components of
/// magnitude at most 64 (drag, step and surface non-negative), so that nothing
/// overflows: a tick without drag leaves the velocity as it is, and a tick with
/// drag moves no velocity component away from zero.
pub proof fn lemma_drag_opposes_motion(b: Body, dt: Num)
    requires
        b.accel == Vec2::zero_spec(),
        b.force == Vec2::zero_spec(),
        ONE_BITS <= b.weight.bits,
        0 <= b.drag.bits <= drag_bound(),
        0 <= dt.bits <= drag_bound(),
        0 <= b.surface.bits <= drag_bound(),
        -drag_bound() <= b.vel.x.bits <= drag_bound(),
        -drag_bound() <= b.vel.y.bits <= drag_bound(),
    ensures
        tick_step(Body { drag: Num { bits: 0 }, ..b }, dt).vel == b.vel,
        b.vel.x.bits >= 0 ==> tick_step(b, dt).vel.x.bits <= b.vel.x.bits,
        b.vel.x.bits <= 0 ==> tick_step(b, dt).vel.x.bits >= b.vel.x.bits,
        b.vel.y.bits >= 0 ==> tick_step(b, dt).vel.y.bits <= b.vel.y.bits,
        b.vel.y.bits <= 0 ==> tick_step(b, dt).vel.y.bits >= b.vel.y.bits,
{
    let s3 = third_surface(b);
    assert(0 <= s3.bits <= drag_bound());
    let nd = Body { drag: Num { bits: 0 }, ..b };
    lemma_zero_shrink(b.friction.mul_spec(dt).mul_spec(s3));
    lemma_dragged_component(b.vel.x, b.drag, dt, s3, b.weight);
    lemma_dragged_component(b.vel.y, b.drag, dt, s3, b.weight);
    lemma_dragged_component(b.vel.x, nd.drag, dt, s3, b.weight);
    lemma_dragged_component(b.vel.y, nd.drag, dt, s3, b.weight);
    assert(tick_step(b, dt).vel.x == dragged_component(b.vel.x, b.drag, dt, s3, b.weight));
    assert(tick_step(b, dt).vel.y == dragged_component(b.vel.y, b.drag, dt, s3, b.weight));
    assert(tick_step(nd, dt).vel.x == dragged_component(b.vel.x, nd.drag, dt, s3, b.weight));
    assert(tick_step(nd, dt).vel.y == dragged_component(b.vel.y, nd.drag, dt, s3, b.weight));
}

impl Body {
    fn dragged(&self, dt: Num) -> (r: Body)
        ensures
            r == drag_step(*self, dt),
    {
        let d = self.vel.scale(self.drag).scale(dt).scale(self.surface.div_int(3));
        Body { force: self.force.sub(d), ..*self }
    }

    fn with_friction(&self, dt: Num) -> (r: Body)
        requires
            self.accel.fits(),
        ensures
            r == friction_step(*self, dt),
    {
        let by = self.friction.mul(dt).mul(self.surface.div_int(3));
        Body { accel: self.accel.shrink(by), ..*self }
    }

    fn integrated(&self, dt: Num) -> (r: Body)
        requires
            self.weight.bits != 0,
        ensures
            r == force_step(*self, dt),
    {
        let half = dt.div_int(2);
        let accel = self.accel.add(self.force.div_num(self.weight));
        let height_accel = self.height_accel.add(self.height_force.div(self.weight));
        let ang_accel = self.ang_accel.add(self.torque.div(self.weight));
        Body {
            vel: self.vel.add(accel.scale(dt)),
            pos: self.pos.add(accel.scale(half)),
            force: Vec2::zero(),
            accel: Vec2::zero(),
            height_vel: self.height_vel.add(height_accel.mul(dt)),
            height: self.height.add(height_accel.mul(half)),
            height_force: Num::zero(),
            height_accel: Num::zero(),
            ang_vel: self.ang_vel.add(ang_accel.mul(dt)),
            angle: self.angle.add(ang_accel.mul(half)),
            torque: Num::zero(),
            ang_accel: Num::zero(),
            ..*self
        }
    }
}

/// A collection of bodies stored as parallel arrays, one slot per handle.
pub struct Physics {
    pos: Vec<Vec2>,
    vel: Vec<Vec2>,
    height: Vec<Num>,
    height_vel: Vec<Num>,
    height_accel: Vec<Num>,
    radius: Vec<Num>,
    surface: Vec<Num>,
    volume: Vec<Num>,
    angle: Vec<Num>,
    ang_vel: Vec<Num>,
    ang_accel: Vec<Num>,
    weight: Vec<Num>,
    drag: Vec<Num>,
    friction: Vec<Num>,
    accel: Vec<Vec2>,
    torque: Vec<Num>,
    force: Vec<Vec2>,
    height_force: Vec<Num>,
}

impl View for Physics {
    type V = Seq<Body>;

    /// The bodies in handle order.
    closed spec fn view(&self) -> Seq<Body> {
        Seq::new(self.len(), |i: int| self.body(i))
    }
}

impl Physics {
    pub closed spec fn wf(&self) -> bool {
        let n = self.pos@.len();
        &&& self.vel@.len() == n
        &&& self.height@.len() == n
        &&& self.height_vel@.len() == n
        &&& self.height_accel@.len() == n
        &&& self.radius@.len() == n
        &&& self.surface@.len() == n
        &&& self.volume@.len() == n
        &&& self.angle@.len() == n
        &&& self.ang_vel@.len() == n
        &&& self.ang_accel@.len() == n
        &&& self.weight@.len() == n
        &&& self.drag@.len() == n
        &&& self.friction@.len() == n
        &&& self.accel@.len() == n
        &&& self.torque@.len() == n
        &&& self.force@.len() == n
        &&& self.height_force@.len() == n
    }

    pub closed spec fn len(&self) -> nat {
        self.pos@.len()
    }

    /// The body at handle `i`.
    pub closed spec fn body(&self, i: int) -> Body {
        Body {
            pos: self.pos@[i],
            vel: self.vel@[i],
            accel: self.accel@[i],
            force: self.force@[i],
            height: self.height@[i],
            height_vel: self.height_vel@[i],
            height_accel: self.height_accel@[i],
            height_force: self.height_force@[i],
            angle: self.angle@[i],
            ang_vel: self.ang_vel@[i],
            ang_accel: self.ang_accel@[i],
            torque: self.torque@[i],
            radius: self.radius@[i],
            surface: self.surface@[i],
            volume: self.volume@[i],
            weight: self.weight@[i],
            drag: self.drag@[i],
            friction: self.friction@[i],
        }
    }

    /// An empty collection.
    pub fn new() -> (r: Physics)
        ensures
            r.wf(),
            r@ == Seq::<Body>::empty(),
    {
        let r = Physics {
            pos: Vec::new(),
            vel: Vec::new(),
            height: Vec::new(),
            height_vel: Vec::new(),
            height_accel: Vec::new(),
            radius: Vec::new(),
            surface: Vec::new(),
            volume: Vec::new(),
            angle: Vec::new(),
            ang_vel: Vec::new(),
            ang_accel: Vec::new(),
            weight: Vec::new(),
            drag: Vec::new(),
            friction: Vec::new(),
            accel: Vec::new(),
            torque: Vec::new(),
            force: Vec::new(),
            height_force: Vec::new(),
        };
        assert(r@ =~= Seq::<Body>::empty());
        r
    }

    /// Appends a body with every attribute given; its handle is returned.
    pub fn push_body(&mut self, b: Body) -> (handle: usize)
        requires
            old(self).wf(),
        ensures
            final(self).wf(),
            handle == old(self)@.len(),
            final(self)@ == old(self)@.push(b),
    {
        self.pos.push(b.pos);
        self.vel.push(b.vel);
        self.height.push(b.height);
        self.height_vel.push(b.height_vel);
        self.height_accel.push(b.height_accel);
        self.radius.push(b.radius);
        self.surface.push(b.surface);
        self.volume.push(b.volume);
        self.angle.push(b.angle);
        self.ang_vel.push(b.ang_vel);
        self.ang_accel.push(b.ang_accel);
        self.weight.push(b.weight);
        self.drag.push(b.drag);
        self.friction.push(b.friction);
        self.accel.push(b.accel);
        self.torque.push(b.torque);
        self.force.push(b.force);
        self.height_force.push(b.height_force);
        assert(self@ =~= old(self)@.push(b));
        self.pos.len() - 1
    }

    /// Number of bodies; handles run from zero up to it.
    pub fn num_bodies(&self) -> (r: usize)
        requires
            self.wf(),
        ensures
            r == self@.len(),
    {
        self.pos.len()
    }

    /// The body at a handle.
    pub fn get_body(&self, handle: usize) -> (r: Body)
        requires
            self.wf(),
            handle < self@.len(),
        ensures
            r == self@[handle as int],
    {
        Body {
            pos: self.pos[handle],
            vel: self.vel[handle],
            accel: self.accel[handle],
            force: self.force[handle],
            height: self.height[handle],
            height_vel: self.height_vel[handle],
            height_accel: self.height_accel[handle],
            height_force: self.height_force[handle],
            angle: self.angle[handle],
            ang_vel: self.ang_vel[handle],
            ang_accel: self.ang_accel[handle],
            torque: self.torque[handle],
            radius: self.radius[handle],
            surface: self.surface[handle],
            volume: self.volume[handle],
            weight: self.weight[handle],
            drag: self.drag[handle],
            friction: self.friction[handle],
        }
    }

    /// Overwrites every attribute of the body at a handle.
    fn store(&mut self, handle: usize, b: Body)
        requires
            old(self).wf(),
            handle < old(self)@.len(),
        ensures
            final(self).wf(),
            final(self)@ == old(self)@.update(handle as int, b),
    {
        self.pos.set(handle, b.pos);
        self.vel.set(handle, b.vel);
        self.height.set(handle, b.height);
        self.height_vel.set(handle, b.height_vel);
        self.height_accel.set(handle, b.height_accel);
        self.radius.set(handle, b.radius);
        self.surface.set(handle, b.surface);
        self.volume.set(handle, b.volume);
        self.angle.set(handle, b.angle);
        self.ang_vel.set(handle, b.ang_vel);
        self.ang_accel.set(handle, b.ang_accel);
        self.weight.set(handle, b.weight);
        self.drag.set(handle, b.drag);
        self.friction.set(handle, b.friction);
        self.accel.set(handle, b.accel);
        self.torque.set(handle, b.torque);
        self.force.set(handle, b.force);
        self.height_force.set(handle, b.height_force);
        assert(self@ =~= old(self)@.update(handle as int, b));
    }

    /// Drag pass over every body.
    pub fn phys_drag(&mut self, delta_time: Num)
        requires
            old(self).wf(),
        ensures
            final(self).wf(),
            final(self)@ == old(self)@.map_values(|b: Body| drag_step(b, delta_time)),
    {
        let n = self.pos.len();
        let mut i: usize = 0;
        while i < n
            invariant
                self.wf(),
                n == self@.len(),
                n == old(self)@.len(),
                0 <= i <= n,
                forall|j: int| 0 <= j < i ==> self@[j] == drag_step(old(self)@[j], delta_time),
                forall|j: int| i <= j < n ==> self@[j] == old(self)@[j],
            decreases n - i,
        {
            let b = self.get_body(i);
            self.store(i, b.dragged(delta_time));
            i += 1;
        }
        assert(self@ =~= old(self)@.map_values(|b: Body| drag_step(b, delta_time)));
    }

    /// Friction pass over every body.
    pub fn phys_friction(&mut self, delta_time: Num)
        requires
            old(self).wf(),
            forall|j: int| 0 <= j < old(self)@.len() ==> old(self)@[j].accel.fits(),
        ensures
            final(self).wf(),
            final(self)@ == old(self)@.map_values(|b: Body| friction_step(b, delta_time)),
    {
        let n = self.pos.len();
        let mut i: usize = 0;
        while i < n
            invariant
                self.wf(),
                n == self@.len(),
                n == old(self)@.len(),
                0 <= i <= n,
                forall|j: int| 0 <= j < n ==> old(self)@[j].accel.fits(),
                forall|j: int| 0 <= j < i ==> self@[j] == friction_step(old(self)@[j], delta_time),
                forall|j: int| i <= j < n ==> self@[j] == old(self)@[j],
            decreases n - i,
        {
            let b = self.get_body(i);
            self.store(i, b.with_friction(delta_time));
            i += 1;
        }
        assert(self@ =~= old(self)@.map_values(|b: Body| friction_step(b, delta_time)));
    }

    /// Force and torque integration over every body, clearing the accumulators.
    pub fn phys_force(&mut self, delta_time: Num)
        requires
            old(self).wf(),
            forall|j: int| 0 <= j < old(self)@.len() ==> old(self)@[j].weight.bits != 0,
        ensures
            final(self).wf(),
            final(self)@ == old(self)@.map_values(|b: Body| force_step(b, delta_time)),
    {
        let n = self.pos.len();
        let mut i: usize = 0;
        while i < n
            invariant
                self.wf(),
                n == self@.len(),
                n == old(self)@.len(),
                0 <= i <= n,
                forall|j: int| 0 <= j < n ==> old(self)@[j].weight.bits != 0,
                forall|j: int| 0 <= j < i ==> self@[j] == force_step(old(self)@[j], delta_time),
                forall|j: int| i <= j < n ==> self@[j] == old(self)@[j],
            decreases n - i,
        {
            let b = self.get_body(i);
            self.store(i, b.integrated(delta_time));
            i += 1;
        }
        assert(self@ =~= old(self)@.map_values(|b: Body| force_step(b, delta_time)));
    }

    /// Moves every body by its velocity over the step.
    pub fn phys_vel(&mut self, delta_time: Num)
        requires
            old(self).wf(),
        ensures
            final(self).wf(),
            final(self)@ == old(self)@.map_values(|b: Body| vel_step(b, delta_time)),
    {
        let n = self.pos.len();
        let mut i: usize = 0;
        while i < n
            invariant
                self.wf(),
                n == self@.len(),
                n == old(self)@.len(),
                0 <= i <= n,
                forall|j: int| 0 <= j < i ==> self@[j] == vel_step(old(self)@[j], delta_time),
                forall|j: int| i <= j < n ==> self@[j] == old(self)@[j],
            decreases n - i,
        {
            let b = self.get_body(i);
            self.store(i, Body { pos: b.pos.add(b.vel.scale(delta_time)), ..b });
            i += 1;
        }
        assert(self@ =~= old(self)@.map_values(|b: Body| vel_step(b, delta_time)));
    }

    /// Turns every body by its angular velocity over the step.
    pub fn phys_angle(&mut self, delta_time: Num)
        requires
            old(self).wf(),
        ensures
            final(self).wf(),
            final(self)@ == old(self)@.map_values(|b: Body| angle_step(b, delta_time)),
    {
        let n = self.pos.len();
        let mut i: usize = 0;
        while i < n
            invariant
                self.wf(),
                n == self@.len(),
                n == old(self)@.len(),
                0 <= i <= n,
                forall|j: int| 0 <= j < i ==> self@[j] == angle_step(old(self)@[j], delta_time),
                forall|j: int| i <= j < n ==> self@[j] == old(self)@[j],
            decreases n - i,
        {
            let b = self.get_body(i);
            self.store(i, Body { angle: b.angle.add(b.ang_vel.mul(delta_time)), ..b });
            i += 1;
        }
        assert(self@ =~= old(self)@.map_values(|b: Body| angle_step(b, delta_time)));
    }

    /// One tick: drag, friction, force and torque integration, then angle.
    pub fn tick_phys(&mut self, delta_time: Num)
        requires
            old(self).wf(),
            forall|j: int| 0 <= j < old(self)@.len() ==> tickable(#[trigger] old(self)@[j]),
        ensures
            final(self).wf(),
            final(self)@ == tick_all(old(self)@, delta_time),
            forall|j: int|
                0 <= j < final(self)@.len() ==> {
                    let b = #[trigger] final(self)@[j];
                    &&& b.force == Vec2::zero_spec()
                    &&& b.accel == Vec2::zero_spec()
                    &&& b.height_force.bits == 0
                    &&& b.height_accel.bits == 0
                    &&& b.torque.bits == 0
                    &&& b.ang_accel.bits == 0
                },
    {
        self.phys_drag(delta_time);
        self.phys_friction(delta_time);
        self.phys_force(delta_time);
        self.phys_angle(delta_time);
        assert(self@ =~= tick_all(old(self)@, delta_time));
    }

    /// Recomputes surface and volume of one body from its radius.
    pub fn update_geometry(&mut self, idx: usize)
        requires
            old(self).wf(),
            idx < old(self)@.len(),
        ensures
            final(self).wf(),
            final(self)@ == old(self)@.update(idx as int, geometry_step(old(self)@[idx as int])),
    {
        let radius = self.radius[idx];
        self.surface.set(idx, surface(radius));
        self.volume.set(idx, volume(radius));
        assert(self@ =~= old(self)@.update(idx as int, geometry_step(old(self)@[idx as int])));
    }

    pub fn get_position(&self, handle: usize) -> (r: Vec2)
        requires
            self.wf(),
            handle < self@.len(),
        ensures
            r == self@[handle as int].pos,
    {
        self.pos[handle]
    }

    pub fn get_velocity(&self, handle: usize) -> (r: Vec2)
        requires
            self.wf(),
            handle < self@.len(),
        ensures
            r == self@[handle as int].vel,
    {
        self.vel[handle]
    }

    /// Adds to the force accumulator of a body.
    pub fn add_force(&mut self, handle: usize, v: Vec2)
        requires
            old(self).wf(),
            handle < old(self)@.len(),
        ensures
            final(self).wf(),
            final(self)@ == old(self)@.update(
                handle as int,
                (Body { force: old(self)@[handle as int].force.add_spec(v), ..old(self)@[handle as int] }),
            ),
    {
        let cur = self.force[handle];
        self.force.set(handle, cur.add(v));
        assert(self@ =~= old(self)@.update(
            handle as int,
            (Body { force: old(self)@[handle as int].force.add_spec(v), ..old(self)@[handle as int] }),
        ));
    }

    /// Adds to the height force accumulator of a body.
    pub fn add_height_force(&mut self, handle: usize, v: Num)
        requires
            old(self).wf(),
            handle < old(self)@.len(),
        ensures
            final(self).wf(),
            final(self)@ == old(self)@.update(
                handle as int,
                (Body { height_force: old(self)@[handle as int].height_force.add_spec(v), ..old(self)@[handle as int] }),
            ),
    {
        let cur = self.height_force[handle];
        self.height_force.set(handle, cur.add(v));
        assert(self@ =~= old(self)@.update(
            handle as int,
            (Body { height_force: old(self)@[handle as int].height_force.add_spec(v), ..old(self)@[handle as int] }),
        ));
    }

    /// Adds to the torque accumulator of a body.
    pub fn add_torque(&mut self, handle: usize, v: Num)
        requires
            old(self).wf(),
            handle < old(self)@.len(),
        ensures
            final(self).wf(),
            final(self)@ == old(self)@.update(
                handle as int,
                (Body { torque: old(self)@[handle as int].torque.add_spec(v), ..old(self)@[handle as int] }),
            ),
    {
        let cur = self.torque[handle];
        self.torque.set(handle, cur.add(v));
        assert(self@ =~= old(self)@.update(
            handle as int,
            (Body { torque: old(self)@[handle as int].torque.add_spec(v), ..old(self)@[handle as int] }),
        ));
    }

    /// Sets the radius of a body; `update_geometry` must follow before the next tick.
    pub fn set_radius(&mut self, handle: usize, v: Num)
        requires
            old(self).wf(),
            handle < old(self)@.len(),
        ensures
            final(self).wf(),
            final(self)@ == old(self)@.update(
                handle as int,
                (Body { radius: v, ..old(self)@[handle as int] }),
            ),
    {
        self.radius.set(handle, v);
        assert(self@ =~= old(self)@.update(
            handle as int,
            (Body { radius: v, ..old(self)@[handle as int] }),
        ));
    }

    /// Sets the weight of a body.
    pub fn set_weight(&mut self, handle: usize, v: Num)
        requires
            old(self).wf(),
            handle < old(self)@.len(),
        ensures
            final(self).wf(),
            final(self)@ == old(self)@.update(
                handle as int,
                (Body { weight: v, ..old(self)@[handle as int] }),
            ),
    {
        self.weight.set(handle, v);
        assert(self@ =~= old(self)@.update(
            handle as int,
            (Body { weight: v, ..old(self)@[handle as int] }),
        ));
    }

    /// Sets the drag coefficient of a body.
    pub fn set_drag(&mut self, handle: usize, v: Num)
        requires
            old(self).wf(),
            handle < old(self)@.len(),
        ensures
            final(self).wf(),
            final(self)@ == old(self)@.update(
                handle as int,
                (Body { drag: v, ..old(self)@[handle as int] }),
            ),
    {
        self.drag.set(handle, v);
        assert(self@ =~= old(self)@.update(
            handle as int,
            (Body { drag: v, ..old(self)@[handle as int] }),
        ));
    }

    /// Sets the friction coefficient of a body.
    pub fn set_friction(&mut self, handle: usize, v: Num)
        requires
            old(self).wf(),
            handle < old(self)@.len(),
        ensures
            final(self).wf(),
            final(self)@ == old(self)@.update(
                handle as int,
                (Body { friction: v, ..old(self)@[handle as int] }),
            ),
    {
        self.friction.set(handle, v);
        assert(self@ =~= old(self)@.update(
            handle as int,
            (Body { friction: v, ..old(self)@[handle as int] }),
        ));
    }
}

} // verus!
