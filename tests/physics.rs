use fixed::types::I32F32;
use phys::num::Num;
use phys::physics::{surface, volume, Body, Physics};
use phys::vector::Vec2;

fn n(v: f64) -> Num {
    Num::from_bits(I32F32::from_num(v).to_bits())
}

fn close(a: Num, b: Num, delta: f64) -> bool {
    (a.bits - b.bits).abs() < n(delta).bits
}

fn body_at_rest() -> Body {
    let z = Num::zero();
    let v = Vec2::zero();
    Body {
        pos: v,
        vel: v,
        accel: v,
        force: v,
        height: z,
        height_vel: z,
        height_accel: z,
        height_force: z,
        angle: z,
        ang_vel: z,
        ang_accel: z,
        torque: z,
        radius: z,
        surface: z,
        volume: z,
        weight: n(1.0),
        drag: z,
        friction: z,
    }
}

#[test]
fn end_to_end_one_tick() {
    let mut p = Physics::new();
    let h = p.push_body(body_at_rest());
    p.add_force(h, Vec2::on_x(n(1.0)));
    p.tick_phys(n(1.0));
    let b = p.get_body(h);
    assert_eq!(b.vel, Vec2::xy(n(1.0), n(0.0)));
    assert_eq!(b.pos, Vec2::xy(n(0.5), n(0.0)));
    assert_eq!(b.accel, Vec2::zero());
    assert_eq!(b.force, Vec2::zero());
    assert_eq!(p.get_position(h), Vec2::xy(n(0.5), n(0.0)));
    assert_eq!(p.get_velocity(h), Vec2::xy(n(1.0), n(0.0)));
}

#[test]
fn accumulators_read_zero_after_tick() {
    let mut p = Physics::new();
    let mut b = body_at_rest();
    b.accel = Vec2::xy(n(0.5), n(-2.0));
    b.height_accel = n(3.0);
    b.ang_accel = n(-1.0);
    b.weight = n(2.0);
    let h = p.push_body(b);
    p.add_force(h, Vec2::xy(n(4.0), n(1.0)));
    p.add_force(h, Vec2::xy(n(1.0), n(1.0)));
    p.add_height_force(h, n(2.0));
    p.add_torque(h, n(6.0));
    p.tick_phys(n(0.5));
    let r = p.get_body(h);
    assert_eq!(r.force, Vec2::zero());
    assert_eq!(r.accel, Vec2::zero());
    assert_eq!(r.height_force, Num::zero());
    assert_eq!(r.height_accel, Num::zero());
    assert_eq!(r.torque, Num::zero());
    assert_eq!(r.ang_accel, Num::zero());
    // accel = 0.5 + 5 / 2, vel = accel * 0.5, pos = accel * 0.25
    assert_eq!(r.vel.x, n(1.5));
    assert_eq!(r.pos.x, n(0.75));
    // height: 3 + 2 / 2 = 4
    assert_eq!(r.height_vel, n(2.0));
    assert_eq!(r.height, n(1.0));
    // angular: -1 + 6 / 2 = 2; angle takes the half step, then ang_vel * dt
    assert_eq!(r.ang_vel, n(1.0));
    assert_eq!(r.angle, n(0.5).add(n(0.5)));
}

#[test]
fn geometry_from_radius() {
    let mut p = Physics::new();
    let h = p.push_body(body_at_rest());
    p.set_radius(h, n(2.0));
    p.update_geometry(h);
    let b = p.get_body(h);
    assert!(close(b.surface, n(50.26548245), 0.0001));
    assert!(close(b.volume, n(33.51032164), 0.0001));
    assert_eq!(b.surface, surface(n(2.0)));
    assert_eq!(b.volume, volume(n(2.0)));
    assert!(close(surface(n(1.0)), n(12.56637061), 0.0001));
    assert!(close(volume(n(1.0)), n(4.18879020), 0.0001));
}

#[test]
fn geometry_is_not_refreshed_by_a_tick() {
    let mut p = Physics::new();
    let h = p.push_body(body_at_rest());
    p.set_radius(h, n(1.0));
    p.tick_phys(n(1.0));
    assert_eq!(p.get_body(h).surface, Num::zero());
}

fn moving_body(drag: Num) -> Body {
    let mut b = body_at_rest();
    b.vel = Vec2::xy(n(2.0), n(-1.0));
    b.drag = drag;
    b.radius = n(0.5);
    b.surface = surface(n(0.5));
    b.volume = volume(n(0.5));
    b
}

#[test]
fn drag_attenuates_velocity() {
    let mut with_drag = Physics::new();
    let h1 = with_drag.push_body(moving_body(n(0.2)));
    let mut without = Physics::new();
    let h2 = without.push_body(moving_body(Num::zero()));
    with_drag.tick_phys(n(0.1));
    without.tick_phys(n(0.1));
    let a = with_drag.get_velocity(h1);
    let b = without.get_velocity(h2);
    assert_eq!(b, Vec2::xy(n(2.0), n(-1.0)));
    assert!(a.length_sq().bits < b.length_sq().bits);
    assert!(a.x.bits < b.x.bits && a.x.bits > 0);
    assert!(a.y.bits > b.y.bits && a.y.bits < 0);
}

#[test]
fn friction_removes_acceleration() {
    let mut p = Physics::new();
    let mut b = body_at_rest();
    b.accel = Vec2::xy(n(3.0), n(4.0));
    b.friction = n(1.0);
    b.surface = n(3.0);
    let h = p.push_body(b);
    p.phys_friction(n(1.0));
    let r = p.get_body(h);
    assert!(close(r.accel.x, n(2.4), 0.0001));
    assert!(close(r.accel.y, n(3.2), 0.0001));
    p.set_friction(h, n(10.0));
    p.phys_friction(n(1.0));
    assert_eq!(p.get_body(h).accel, Vec2::zero());
}

#[test]
fn bodies_do_not_interact() {
    let mut a = moving_body(n(0.3));
    a.accel = Vec2::xy(n(1.0), n(1.0));
    a.friction = n(0.1);
    a.ang_vel = n(0.7);
    let mut b = body_at_rest();
    b.weight = n(3.0);
    b.force = Vec2::xy(n(-2.0), n(5.0));
    b.torque = n(1.5);
    let mut both = Physics::new();
    both.push_body(a);
    both.push_body(b);
    let mut only_a = Physics::new();
    only_a.push_body(a);
    let mut only_b = Physics::new();
    only_b.push_body(b);
    both.tick_phys(n(0.25));
    only_a.tick_phys(n(0.25));
    only_b.tick_phys(n(0.25));
    assert_eq!(both.get_body(0), only_a.get_body(0));
    assert_eq!(both.get_body(1), only_b.get_body(0));
}

#[test]
fn angle_uses_angular_velocity() {
    let mut p = Physics::new();
    let mut b = body_at_rest();
    b.ang_vel = n(2.0);
    let h = p.push_body(b);
    p.tick_phys(n(0.5));
    assert_eq!(p.get_body(h).angle, n(1.0));
    p.phys_angle(n(0.25));
    assert_eq!(p.get_body(h).angle, n(1.5));
}

#[test]
fn velocity_pass_moves_position() {
    let mut p = Physics::new();
    let mut b = body_at_rest();
    b.vel = Vec2::xy(n(2.0), n(-4.0));
    let h = p.push_body(b);
    p.phys_vel(n(0.5));
    assert_eq!(p.get_position(h), Vec2::xy(n(1.0), n(-2.0)));
    p.phys_drag(n(1.0));
    assert_eq!(p.get_body(h).force, Vec2::zero());
}

#[test]
fn setters_write_one_body() {
    let mut p = Physics::new();
    let h0 = p.push_body(body_at_rest());
    let h1 = p.push_body(body_at_rest());
    assert_eq!(h1, 1);
    p.set_weight(h1, n(5.0));
    p.set_drag(h1, n(0.5));
    p.set_friction(h1, n(0.25));
    p.set_radius(h1, n(3.0));
    let b = p.get_body(h1);
    assert_eq!((b.weight, b.drag, b.friction, b.radius), (n(5.0), n(0.5), n(0.25), n(3.0)));
    assert_eq!(p.get_body(h0), body_at_rest());
    p.phys_force(n(1.0));
    assert_eq!(p.get_body(h0), body_at_rest());
}
