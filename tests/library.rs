use raytracer::frame::render_frame;
use raytracer::nearest::{nearest_hit, Hit};
use raytracer::pixel::{channel_from_level, Rgb8};
use raytracer::shading::{light_reaches, plan_reflection, ReflectionPlan};

fn red() -> Rgb8 {
    Rgb8 { red: 200, green: 10, blue: 10 }
}

#[test]
fn channel_above_max_is_capped() {
    assert_eq!(channel_from_level(256), 255);
    assert_eq!(channel_from_level(300), 255);
    assert_eq!(channel_from_level(i64::MAX), 255);
}

#[test]
fn channel_in_range_is_kept() {
    assert_eq!(channel_from_level(0), 0);
    assert_eq!(channel_from_level(128), 128);
    assert_eq!(channel_from_level(255), 255);
}

#[test]
fn channel_below_zero_is_zero() {
    assert_eq!(channel_from_level(-1), 0);
    assert_eq!(channel_from_level(i64::MIN), 0);
}

#[test]
fn pixel_from_levels_clamps_each_channel() {
    let p = Rgb8::from_levels(1000, 17, -3);
    assert_eq!(p, Rgb8 { red: 255, green: 17, blue: 0 });
}

#[test]
fn default_background_is_dark_blue_grey() {
    assert_eq!(Rgb8::default_background(), Rgb8 { red: 40, green: 40, blue: 60 });
}

#[test]
fn nearest_of_no_geometry_is_none() {
    assert_eq!(nearest_hit(&vec![]), None);
}

#[test]
fn nearest_when_all_missed_is_none() {
    assert_eq!(nearest_hit(&vec![None, None, None]), None);
}

#[test]
fn nearest_picks_smallest_distance() {
    let keys = vec![Some(9), None, Some(4), Some(7)];
    assert_eq!(nearest_hit(&keys), Some(Hit { index: 2, key: 4 }));
}

#[test]
fn nearest_tie_goes_to_first_in_order() {
    let keys = vec![Some(5), Some(3), None, Some(3)];
    assert_eq!(nearest_hit(&keys), Some(Hit { index: 1, key: 3 }));
}

#[test]
fn nearest_orders_float_distances_by_bit_pattern() {
    let keys = vec![Some(4.5f32.to_bits()), Some(4.0f32.to_bits()), Some(10.0f32.to_bits())];
    let h = nearest_hit(&keys).unwrap();
    assert_eq!(h.index, 1);
    assert_eq!(f32::from_bits(h.key), 4.0);
}

#[test]
fn light_reached_without_occluder() {
    assert!(light_reaches(None, Some(9)));
    assert!(light_reaches(None, None));
}

#[test]
fn occluder_before_point_light_blocks_it() {
    assert!(!light_reaches(Some(4), Some(9)));
    assert!(!light_reaches(Some(9), Some(9)));
}

#[test]
fn occluder_beyond_point_light_does_not_block() {
    assert!(light_reaches(Some(10), Some(9)));
}

#[test]
fn any_occluder_blocks_directional_light() {
    assert!(!light_reaches(Some(u32::MAX), None));
}

#[test]
fn reflection_spends_one_level_of_budget() {
    assert_eq!(plan_reflection(1, true), ReflectionPlan::Reflect { remaining: 0 });
    assert_eq!(plan_reflection(5, true), ReflectionPlan::Reflect { remaining: 4 });
}

#[test]
fn no_reflection_without_budget() {
    assert_eq!(plan_reflection(0, true), ReflectionPlan::LocalOnly);
}

#[test]
fn no_reflection_without_reflectivity() {
    assert_eq!(plan_reflection(0, false), ReflectionPlan::LocalOnly);
    assert_eq!(plan_reflection(1, false), ReflectionPlan::LocalOnly);
    assert_eq!(plan_reflection(u32::MAX, false), ReflectionPlan::LocalOnly);
}

#[test]
fn missed_pixels_get_background() {
    let bg = Rgb8::default_background();
    let frame = render_frame(4, 3, bg, |_x: u32, _y: u32| None);
    assert_eq!(frame.width(), 4);
    assert_eq!(frame.height(), 3);
    for y in 0..3 {
        for x in 0..4 {
            assert_eq!(frame.pixel(x, y), bg);
        }
    }
}

#[test]
fn hit_pixel_gets_its_own_color() {
    let bg = Rgb8::default_background();
    let frame = render_frame(3, 2, bg, |x: u32, y: u32| if x == 2 && y == 1 { Some(red()) } else { None });
    assert_eq!(frame.pixel(2, 1), red());
    assert_eq!(frame.pixel(1, 1), bg);
    assert_eq!(frame.pixel(2, 0), bg);
    assert_eq!(frame.pixel(0, 0), bg);
}

#[test]
fn pixels_follow_their_coordinates() {
    let bg = Rgb8::default_background();
    let frame = render_frame(5, 4, bg, |x: u32, y: u32| Some(Rgb8 { red: x as u8, green: y as u8, blue: 7 }));
    for y in 0..4u32 {
        for x in 0..5u32 {
            assert_eq!(frame.pixel(x, y), Rgb8 { red: x as u8, green: y as u8, blue: 7 });
        }
    }
}

#[test]
fn rendering_twice_gives_identical_pixels() {
    let bg = Rgb8::default_background();
    let shade = |x: u32, y: u32| if (x + y) % 3 == 0 { Some(Rgb8 { red: (x * 10) as u8, green: 0, blue: y as u8 }) } else { None };
    let a = render_frame(7, 5, bg, shade);
    let b = render_frame(7, 5, bg, shade);
    for y in 0..5 {
        for x in 0..7 {
            assert_eq!(a.pixel(x, y), b.pixel(x, y));
        }
    }
}

#[test]
fn empty_image_has_no_pixels() {
    let frame = render_frame(0, 0, Rgb8::default_background(), |_x: u32, _y: u32| Some(red()));
    assert_eq!(frame.width(), 0);
    assert_eq!(frame.height(), 0);
}
