//! Tests of the map model types.

use rust_ed::map_data::{calc_new_angle, LineDef, Sector, SideDef, Thing, Vertex};

#[test]
fn vertex_new_and_dist() {
    let v1 = Vertex::new(0, 0);
    let v2 = Vertex::new(3, 4);
    assert_eq!(v1.x, 0);
    assert_eq!(v1.y, 0);
    assert_eq!(v1.dist_squared(&v2), 25);
    assert_eq!(v2.dist_squared(&v1), 25);
}

#[test]
fn vertex_set_defaults() {
    let mut v = Vertex::new(1, 2);
    v.set_defaults(128, -64);
    assert_eq!(v, Vertex::new(128, -64));
}

#[test]
fn linedef_two_sided_flag() {
    let mut ld = LineDef::new(0, 1, 0x0001, 0, 0, 0, -1);
    assert!(!ld.is_two_sided());
    ld.set_two_sided(true);
    assert!(ld.is_two_sided());
    assert_eq!(ld.flags, 0x0005);
    ld.set_two_sided(false);
    assert!(!ld.is_two_sided());
    assert_eq!(ld.flags, 0x0001);
}

#[test]
fn sector_headroom_and_defaults() {
    let mut s = Sector::new(0, 64, String::new(), String::new(), 160, 0, 0);
    assert_eq!(s.headroom(), 64);
    s.set_defaults("floor4_8", "ceil3_5", 144, 9, 7);
    assert_eq!(s.floor_height, 0);
    assert_eq!(s.ceiling_height, 64);
    assert_eq!(s.floor_tex, "FLOOR4_8");
    assert_eq!(s.ceiling_tex, "CEIL3_5");
    assert_eq!(s.light, 144);
    assert_eq!(s.special, 9);
    assert_eq!(s.tag, 7);
}

#[test]
fn sidedef_defaults_two_sided() {
    let mut sd = SideDef::new(0, 0, String::new(), String::new(), String::new(), 3);
    sd.set_defaults("startan2", true);
    assert_eq!(sd.upper_tex, "STARTAN2");
    assert_eq!(sd.lower_tex, "STARTAN2");
    assert_eq!(sd.mid_tex, "-");
    assert_eq!(sd.sector, 0);
}

#[test]
fn sidedef_defaults_one_sided() {
    let mut sd = SideDef::new(5, 7, String::new(), String::new(), String::new(), 3);
    sd.set_defaults("startan2", false);
    assert_eq!(sd.upper_tex, "-");
    assert_eq!(sd.lower_tex, "-");
    assert_eq!(sd.mid_tex, "STARTAN2");
    assert_eq!(sd.x_offset, 0);
    assert_eq!(sd.y_offset, 0);
}

#[test]
fn thing_defaults_wrap_angle() {
    let mut th = Thing::new(100, 200, 90, 3004, 0);
    th.set_defaults(3002, 180, 4);
    assert_eq!(th.doom_type, 3002);
    assert_eq!(th.angle, 180);
    assert_eq!(th.flags, 4);
    assert_eq!(th.x, 100);
    assert_eq!(th.y, 200);
    th.set_defaults(1, 725, 0);
    assert_eq!(th.angle, 5);
    // A truncating remainder keeps the sign of the input angle.
    th.set_defaults(1, -90, 0);
    assert_eq!(th.angle, -90);
}

#[test]
fn calc_new_angle_wraps() {
    assert_eq!(calc_new_angle(350, 20), 10);
    assert_eq!(calc_new_angle(0, -30), 330);
    assert_eq!(calc_new_angle(0, 0), 0);
    assert_eq!(calc_new_angle(90, -450), 0);
    assert_eq!(calc_new_angle(0, -720), 0);
}
