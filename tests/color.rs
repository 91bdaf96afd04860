use hue_mosaic::color::{add_hue_offset, hue_step, tile_offset, ColorBase, Hsv, HUE_TURN, UNIT};

fn deg(d: u32) -> u32 {
    d * 1_000_000
}

#[test]
fn hue_wraps_past_full_turn() {
    let base = Hsv::new(deg(350), UNIT, UNIT);
    let offset = Hsv::new(deg(20), 0, 0);
    let r = add_hue_offset(base, offset);
    assert_eq!(r.hue, deg(10));
    assert_eq!(r.saturation, UNIT);
    assert_eq!(r.value, UNIT);
}

#[test]
fn hue_sum_below_turn_is_plain_sum() {
    let r = add_hue_offset(Hsv::new(deg(100), 0, 0), Hsv::new(deg(20), 0, 0));
    assert_eq!(r.hue, deg(120));
}

#[test]
fn hue_sum_of_exactly_one_turn_is_zero() {
    let r = add_hue_offset(Hsv::new(deg(180), 0, 0), Hsv::new(deg(180), 0, 0));
    assert_eq!(r.hue, 0);
}

#[test]
fn saturation_and_value_are_capped_at_one() {
    let base = Hsv::new(0, 900_000, 300_000);
    let offset = Hsv::new(0, 200_000, 100_000);
    let r = add_hue_offset(base, offset);
    assert_eq!(r.saturation, UNIT);
    assert_eq!(r.value, 400_000);
}

#[test]
fn new_wraps_hue_and_caps_components() {
    let c = Hsv::new(HUE_TURN + 5, UNIT + 1, 7);
    assert_eq!(c, Hsv { hue: 5, saturation: UNIT, value: 7 });
}

#[test]
fn color_bases_are_saturated_primaries() {
    assert_eq!(ColorBase::Red.to_hsv(), Hsv { hue: 0, saturation: UNIT, value: UNIT });
    assert_eq!(ColorBase::Green.to_hsv(), Hsv { hue: deg(120), saturation: UNIT, value: UNIT });
    assert_eq!(ColorBase::Blue.to_hsv(), Hsv { hue: deg(240), saturation: UNIT, value: UNIT });
}

#[test]
fn color_bases_cycle() {
    assert_eq!(ColorBase::Red.next(), ColorBase::Green);
    assert_eq!(ColorBase::Green.next(), ColorBase::Blue);
    assert_eq!(ColorBase::Blue.next(), ColorBase::Red);
}

#[test]
fn hue_step_turns_sixty_degrees_a_second() {
    assert_eq!(hue_step(60), Hsv { hue: deg(1), saturation: 0, value: 0 });
    assert_eq!(hue_step(30), Hsv { hue: deg(2), saturation: 0, value: 0 });
    assert_eq!(hue_step(7).hue, 8_571_428);
}

#[test]
fn tile_offset_spans_half_turn_per_axis() {
    assert_eq!(tile_offset(0, 0, 2, 2).hue, 0);
    assert_eq!(tile_offset(1, 0, 2, 2).hue, deg(90));
    assert_eq!(tile_offset(1, 1, 2, 2).hue, deg(180));
    assert_eq!(tile_offset(2, 0, 3, 1).hue, deg(120));
}
