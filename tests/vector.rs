use fixed::types::I32F32;
use phys::num::Num;
use phys::vector::Vec2;

fn n(v: f64) -> Num {
    Num::from_bits(I32F32::from_num(v).to_bits())
}

fn close(a: Num, b: Num, delta: f64) -> bool {
    let d = (a.bits - b.bits).abs();
    d < n(delta).bits
}

#[test]
fn vec_scale() {
    let vec = Vec2::on_x(n(2.0));
    assert_eq!(vec.scale(n(3.0)), Vec2::on_x(n(6.0)));
}

#[test]
fn vec_angle() {
    let vec = Vec2::diagonal(Num::from_int(1));
    let x = vec.angle();
    let y = Num::frac_pi_4();
    let delta = n(0.01);
    if !(x.sub(y).bits < delta.bits || y.sub(x).bits < delta.bits) {
        panic!();
    }
}

#[test]
fn constants_are_those_of_fixed() {
    assert_eq!(Num::pi().bits, I32F32::PI.to_bits());
    assert_eq!(Num::frac_pi_3().bits, I32F32::FRAC_PI_3.to_bits());
    assert_eq!(Num::frac_pi_4().bits, I32F32::FRAC_PI_4.to_bits());
    assert_eq!(Num::frac_1_sqrt_2().bits, I32F32::FRAC_1_SQRT_2.to_bits());
    assert_eq!(Num::one().bits, I32F32::ONE.to_bits());
    assert_eq!(Num::from_int(-7), n(-7.0));
}

#[test]
fn num_arithmetic() {
    assert_eq!(n(1.5).mul(n(2.0)), n(3.0));
    assert_eq!(n(-1.5).mul(n(0.5)), n(-0.75));
    assert_eq!(n(3.0).div(n(2.0)), n(1.5));
    assert_eq!(n(-3.0).div(n(4.0)), n(-0.75));
    assert_eq!(n(1.0).add(n(2.5)), n(3.5));
    assert_eq!(n(1.0).sub(n(2.5)), n(-1.5));
    assert_eq!(n(1.0).neg(), n(-1.0));
    assert_eq!(n(1.5).mul_int(4), n(6.0));
    assert_eq!(n(3.0).div_int(2), n(1.5));
    assert_eq!(Num::from_bits(-3).div_int(2).bits, -1);
    assert_eq!(Num::from_bits(-7).div_int(3).bits, -2);
    assert_eq!(Num::from_bits(i64::MIN).div_int(2).bits, i64::MIN / 2);
    assert_eq!(n(9.0).sqrt(), n(3.0));
    assert_eq!(n(2.0).sqrt(), Num::from_bits(I32F32::from_num(2.0).sqrt().to_bits()));
}

#[test]
fn mul_rounds_down() {
    // 2^-32 * 0.5 is half of the smallest step: rounded down, to 0 and to -2^-32
    assert_eq!(Num::from_bits(1).mul(n(0.5)).bits, 0);
    assert_eq!(Num::from_bits(-1).mul(n(0.5)).bits, -1);
}

#[test]
fn length_and_length_sq() {
    let v = Vec2::xy(n(3.0), n(4.0));
    assert_eq!(v.length_sq(), n(25.0));
    assert_eq!(v.length(), n(5.0));
    assert_eq!(Vec2::zero().length(), Num::zero());
}

#[test]
fn scaling_multiplies_length_sq_by_square() {
    let v = Vec2::xy(n(3.0), n(4.0));
    let s = n(2.0);
    assert_eq!(v.scale(s).length_sq(), v.length_sq().mul(s).mul(s));
    assert_eq!(v.scale(s).length_sq(), n(100.0));
    let w = Vec2::xy(n(0.3), n(-1.7));
    let t = n(1.25);
    assert!(close(w.scale(t).length_sq(), w.length_sq().mul(t).mul(t), 0.0001));
}

#[test]
fn shrink_clamps_at_zero() {
    let v = Vec2::xy(n(3.0), n(4.0));
    assert_eq!(v.shrink(n(5.0)), Vec2::zero());
    assert_eq!(v.shrink(n(7.0)), Vec2::zero());
    assert_eq!(Vec2::zero().shrink(n(0.0)), Vec2::zero());
    assert_eq!(Vec2::zero().shrink(n(-1.0)), Vec2::zero());
    let s = v.shrink(n(1.0));
    assert!(close(s.x, n(2.4), 0.0001));
    assert!(close(s.y, n(3.2), 0.0001));
}

#[test]
fn norm_and_rescale() {
    let v = Vec2::xy(n(3.0), n(4.0));
    let u = v.norm();
    assert!(close(u.x, n(0.6), 0.0001));
    assert!(close(u.y, n(0.8), 0.0001));
    assert_eq!(Vec2::zero().norm(), Vec2::zero());
    let r = v.rescale(n(10.0));
    assert!(close(r.x, n(6.0), 0.001));
    assert!(close(r.y, n(8.0), 0.001));
}

#[test]
fn rotation_and_polar() {
    let v = Vec2::on_x(n(1.0));
    let half_pi = Num::pi().div_int(2);
    let r = v.rotated(half_pi);
    assert!(close(r.x, n(0.0), 0.001));
    assert!(close(r.y, n(1.0), 0.001));
    // a whole turn further gives the same direction
    let r2 = v.rotated(half_pi.add(Num::pi().mul_int(2)));
    assert!(close(r2.x, n(0.0), 0.001));
    assert!(close(r2.y, n(1.0), 0.001));
    let p = Vec2::polar(n(2.0), Num::pi());
    assert!(close(p.x, n(-2.0), 0.001));
    assert!(close(p.y, n(0.0), 0.001));
    let u = Vec2::unit(Num::zero());
    assert!(close(u.x, n(1.0), 0.001));
    assert!(close(u.y, n(0.0), 0.001));
}

#[test]
fn angle_quadrants() {
    assert_eq!(Vec2::on_x(n(1.0)).angle(), Num::zero());
    assert!(close(Vec2::on_y(n(1.0)).angle(), Num::pi().div_int(2), 0.001));
    assert!(close(Vec2::on_x(n(-1.0)).angle(), Num::pi(), 0.001));
    assert!(close(Vec2::xy(n(-1.0), n(-1.0)).angle(), n(-2.35619449), 0.01));
}

#[test]
fn constructors() {
    assert_eq!(Vec2::xy(n(1.0), n(2.0)), Vec2 { x: n(1.0), y: n(2.0) });
    assert_eq!(Vec2::diagonal(n(1.5)), Vec2::xy(n(1.5), n(1.5)));
    let d = Vec2::diagonal_len(n(2.0));
    assert!(close(d.length(), n(2.0), 0.0001));
    assert_eq!(Vec2::on_x(n(2.0)), Vec2::xy(n(2.0), n(0.0)));
    assert_eq!(Vec2::on_y(n(2.0)), Vec2::xy(n(0.0), n(2.0)));
    assert_eq!(Vec2::default(), Vec2::zero());
}

#[test]
fn component_operations() {
    let a = Vec2::xy(n(1.0), n(2.0));
    let b = Vec2::xy(n(4.0), n(-8.0));
    assert_eq!(a.add(b), Vec2::xy(n(5.0), n(-6.0)));
    assert_eq!(a.sub(b), Vec2::xy(n(-3.0), n(10.0)));
    assert_eq!(a.mul(b), Vec2::xy(n(4.0), n(-16.0)));
    assert_eq!(a.div(b), Vec2::xy(n(0.25), n(-0.25)));
    assert_eq!(b.div_num(n(2.0)), Vec2::xy(n(2.0), n(-4.0)));
    let mut c = a;
    c.add_assign(b);
    assert_eq!(c, Vec2::xy(n(5.0), n(-6.0)));
    c.sub_assign(b);
    assert_eq!(c, a);
    c.mul_assign(b);
    assert_eq!(c, Vec2::xy(n(4.0), n(-16.0)));
    c.div_assign(b);
    assert_eq!(c, a);
    c.scale_assign(n(2.0));
    assert_eq!(c, Vec2::xy(n(2.0), n(4.0)));
    c.div_num_assign(n(4.0));
    assert_eq!(c, Vec2::xy(n(0.5), n(1.0)));
}
