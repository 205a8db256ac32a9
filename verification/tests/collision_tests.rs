//! Tests of the collision resolver: no-overlap behaviour, the tie-break
//! rule, displacement by the intersection depth, and the bounce signs.
use breakout_core::geom::{Rect, Vec2i};
use breakout_core::collision::resolve;
use breakout_core::rng::RandomSource;

fn rect(x: i64, y: i64, w: i64, h: i64) -> Rect {
    Rect { x, y, w, h }
}

#[test]
fn no_overlap_returns_false_and_mutates_nothing() {
    let mut a = rect(0, 0, 50_000, 50_000);
    let mut vel = Vec2i { x: 1000, y: 500 };
    let b = rect(100_000, 0, 120_000, 40_000);
    let mut rng = RandomSource::from_draws(vec![7, 8, 9]);
    let hit = resolve(&mut a, &mut vel, &b, &mut rng);
    assert!(!hit);
    assert_eq!(a, rect(0, 0, 50_000, 50_000));
    assert_eq!(vel, Vec2i { x: 1000, y: 500 });
    assert_eq!(rng.idx, 0);
}

#[test]
fn touching_edges_count_as_no_overlap() {
    // The rectangles share only a zero-area edge: no collision.
    let mut a = rect(0, 0, 50_000, 50_000);
    let mut vel = Vec2i { x: 1000, y: 500 };
    let b = rect(50_000, 0, 120_000, 40_000);
    let mut rng = RandomSource::from_draws(vec![0]);
    let hit = resolve(&mut a, &mut vel, &b, &mut rng);
    assert!(!hit);
    assert_eq!(a, rect(0, 0, 50_000, 50_000));
    assert_eq!(vel, Vec2i { x: 1000, y: 500 });
}

#[test]
fn taller_intersection_bounces_on_x_only() {
    // Intersection 10_000 wide by 40_000 tall: horizontal collision.
    let mut a = rect(0, 0, 50_000, 50_000);
    let mut vel = Vec2i { x: 1000, y: 500 };
    let b = rect(40_000, 10_000, 120_000, 40_000);
    let mut rng = RandomSource::from_draws(vec![0]);
    let hit = resolve(&mut a, &mut vel, &b, &mut rng);
    assert!(hit);
    // Pushed left by exactly the intersection width; Y untouched.
    assert_eq!(a, rect(-10_000, 0, 50_000, 50_000));
    // X velocity flips to strictly opposite sign; Y velocity untouched.
    assert_eq!(vel, Vec2i { x: -1000, y: 500 });
    // A horizontal bounce spends no random draw.
    assert_eq!(rng.idx, 0);
}

#[test]
fn square_intersection_ties_break_to_x() {
    // Width equals height: the tie goes to a horizontal collision.
    let mut a = rect(0, 0, 50_000, 50_000);
    let mut vel = Vec2i { x: 700, y: 700 };
    let b = rect(30_000, 30_000, 120_000, 40_000);
    let mut rng = RandomSource::from_draws(vec![0, 0]);
    let hit = resolve(&mut a, &mut vel, &b, &mut rng);
    assert!(hit);
    assert_eq!(a, rect(-20_000, 0, 50_000, 50_000));
    assert_eq!(vel, Vec2i { x: -700, y: 700 });
    assert_eq!(rng.idx, 0);
}

#[test]
fn wider_intersection_bounces_on_y_and_perturbs_x() {
    // Intersection 40_000 wide by 10_000 tall: vertical collision.
    let mut a = rect(0, 0, 50_000, 50_000);
    let mut vel = Vec2i { x: 1000, y: 500 };
    let b = rect(10_000, 40_000, 120_000, 40_000);
    // Raw draw 0 maps to the lowest nudge, -200.
    let mut rng = RandomSource::from_draws(vec![0, 0]);
    let hit = resolve(&mut a, &mut vel, &b, &mut rng);
    assert!(hit);
    // Pushed up by exactly the intersection height; X untouched.
    assert_eq!(a, rect(0, -10_000, 50_000, 50_000));
    // Y velocity flips to strictly opposite sign; X velocity is nudged.
    assert_eq!(vel, Vec2i { x: 800, y: -500 });
    // The vertical bounce spent exactly one draw.
    assert_eq!(rng.idx, 1);
}

#[test]
fn bounce_pushes_away_from_static_centre() {
    // The static rectangle sits above the moving one: the push goes down.
    let mut a = rect(0, 30_000, 50_000, 50_000);
    let mut vel = Vec2i { x: 300, y: -900 };
    let b = rect(-40_000, 0, 120_000, 40_000);
    let mut rng = RandomSource::from_draws(vec![400]);
    let hit = resolve(&mut a, &mut vel, &b, &mut rng);
    assert!(hit);
    // Intersection is 50_000 wide, 10_000 tall: vertical bounce, and the
    // static centre is above, so the ball moves down and bounces down.
    assert_eq!(a.y, 40_000);
    assert_eq!(vel.y, 900);
    // Nudge: -200 + 400 % 401 == 200 gives 300 + 200.
    assert_eq!(vel.x, 500);
}
