//! The collision resolver: axis-aligned overlap detection and the bounce
//! response.
//!
//! A moving rectangle that overlaps a static one is pushed out along the
//! axis of shallower penetration and has that axis of its velocity set to
//! point away from the static rectangle's centre — a direction override,
//! not a reflection. Resolving along the shallower axis approximates
//! "which face was hit first" without swept collision detection; it is a
//! deliberate, known-inexact heuristic for fast or small colliders, and is
//! preserved as such. A vertical bounce additionally perturbs the
//! horizontal velocity by a small random offset so trajectories do not
//! repeat forever; the direction is not renormalized afterwards, so the
//! speed scalar is a nominal multiplier, not an exact magnitude.
use vstd::prelude::*;

use crate::geom::{
    clamp_vel_spec, rect_within, sign, vel_within, Rect, Vec2i, POS_SLACK_LIMIT, SIZE_LIMIT,
};
use crate::geom::clamp_vel;
use crate::rng::{rng_adv_spec, rng_next_spec, rng_wf, RandomSource, RngModel};

verus! {

/// Largest magnitude of the random horizontal nudge a vertical bounce
/// adds, in thousandths of a unit.
pub const PERTURB: i64 = 200;

/// Absolute value.
pub open spec fn abs_i(v: int) -> int {
    if v >= 0 {
        v
    } else {
        -v
    }
}

/// Width of the intersection of `a` and `b` (non-positive when the
/// rectangles do not overlap horizontally).
pub open spec fn inter_w(a: Rect, b: Rect) -> int {
    let ir = if a.x + a.w < b.x + b.w {
        a.x + a.w as int
    } else {
        b.x + b.w as int
    };
    let il = if a.x > b.x {
        a.x as int
    } else {
        b.x as int
    };
    ir - il
}

/// Height of the intersection of `a` and `b` (non-positive when the
/// rectangles do not overlap vertically).
pub open spec fn inter_h(a: Rect, b: Rect) -> int {
    let ib = if a.y + a.h < b.y + b.h {
        a.y + a.h as int
    } else {
        b.y + b.h as int
    };
    let it = if a.y > b.y {
        a.y as int
    } else {
        b.y as int
    };
    ib - it
}

/// The rectangles share an intersection of positive width and height.
/// An empty or degenerate (zero-area) intersection counts as no overlap.
pub open spec fn rects_overlap(a: Rect, b: Rect) -> bool {
    inter_w(a, b) > 0 && inter_h(a, b) > 0
}

/// Horizontal sign from `a`'s centre toward `b`'s centre.
pub open spec fn to_sign_x(a: Rect, b: Rect) -> int {
    sign((b.x + b.w / 2) - (a.x + a.w / 2))
}

/// Vertical sign from `a`'s centre toward `b`'s centre.
pub open spec fn to_sign_y(a: Rect, b: Rect) -> int {
    sign((b.y + b.h / 2) - (a.y + a.h / 2))
}

/// The intersection is wider than tall, so the collision counts as
/// vertical and the bounce happens on the Y axis.
pub open spec fn bounces_on_y(a: Rect, b: Rect) -> bool {
    inter_w(a, b) > inter_h(a, b)
}

/// What resolving `a` (moving, with velocity `vel`) against the static
/// `b` yields: the new rectangle, the new velocity, the random source
/// after the resolution, and whether a collision happened at all.
///
/// On a vertical collision `a` is pushed along Y by the intersection
/// height away from `b`'s centre, the Y velocity is set strictly away
/// from `b`'s centre at its old magnitude, and the X velocity is nudged
/// by a random offset in `[-PERTURB, PERTURB]` (then kept inside the
/// velocity bound). On a horizontal collision the same happens on X,
/// with no nudge.
pub open spec fn resolve_spec(a: Rect, vel: Vec2i, b: Rect, m: RngModel) -> (Rect, Vec2i, RngModel, bool) {
    if !rects_overlap(a, b) {
        (a, vel, m, false)
    } else {
        let iw = inter_w(a, b);
        let ih = inter_h(a, b);
        if bounces_on_y(a, b) {
            let sy = to_sign_y(a, b);
            let ny = if sy > 0 {
                a.y - ih
            } else if sy < 0 {
                a.y + ih
            } else {
                a.y as int
            };
            let nvy = if sy > 0 {
                -abs_i(vel.y as int)
            } else if sy < 0 {
                abs_i(vel.y as int)
            } else {
                0
            };
            let p = rng_next_spec(m, -PERTURB as int, PERTURB as int);
            let nvx = clamp_vel_spec(vel.x + p);
            (
                Rect { y: ny as i64, ..a },
                Vec2i { x: nvx as i64, y: nvy as i64 },
                rng_adv_spec(m),
                true,
            )
        } else {
            let sx = to_sign_x(a, b);
            let nx = if sx > 0 {
                a.x - iw
            } else if sx < 0 {
                a.x + iw
            } else {
                a.x as int
            };
            let nvx = if sx > 0 {
                -abs_i(vel.x as int)
            } else if sx < 0 {
                abs_i(vel.x as int)
            } else {
                0
            };
            (Rect { x: nx as i64, ..a }, Vec2i { x: nvx as i64, y: vel.y }, m, true)
        }
    }
}

/// Resolve a collision between the moving rectangle `a` (with velocity
/// `vel`) and the static rectangle `b`, in place. Returns whether a
/// collision occurred; without one, nothing changes, not even the random
/// source. The static rectangle never moves.
pub fn resolve(a: &mut Rect, vel: &mut Vec2i, b: &Rect, rng: &mut RandomSource) -> (hit: bool)
    requires
        rect_within(*old(a), POS_SLACK_LIMIT as int),
        rect_within(*b, POS_SLACK_LIMIT as int),
        vel_within(*old(vel)),
        rng_wf(old(rng)@),
    ensures
        (*final(a), *final(vel), final(rng)@, hit) == resolve_spec(
            *old(a),
            *old(vel),
            *b,
            old(rng)@,
        ),
        hit == rects_overlap(*old(a), *b),
        !hit ==> *final(a) == *old(a) && *final(vel) == *old(vel) && final(rng)@ == old(rng)@,
        final(a).w == old(a).w && final(a).h == old(a).h,
        -SIZE_LIMIT <= final(a).x - old(a).x <= SIZE_LIMIT,
        -SIZE_LIMIT <= final(a).y - old(a).y <= SIZE_LIMIT,
        vel_within(*final(vel)),
        rng_wf(final(rng)@),
{
    let il = if a.x > b.x {
        a.x
    } else {
        b.x
    };
    let ar = a.x + a.w;
    let br = b.x + b.w;
    let ir = if ar < br {
        ar
    } else {
        br
    };
    let it = if a.y > b.y {
        a.y
    } else {
        b.y
    };
    let ab = a.y + a.h;
    let bb = b.y + b.h;
    let ib = if ab < bb {
        ab
    } else {
        bb
    };
    if ir <= il || ib <= it {
        return false;
    }
    let iw = ir - il;
    let ih = ib - it;
    let acx = a.x + a.w / 2;
    let acy = a.y + a.h / 2;
    let bcx = b.x + b.w / 2;
    let bcy = b.y + b.h / 2;
    let tox = bcx - acx;
    let toy = bcy - acy;
    if iw > ih {
        let vy_abs = if vel.y >= 0 {
            vel.y
        } else {
            -vel.y
        };
        if toy > 0 {
            a.y = a.y - ih;
            vel.y = -vy_abs;
        } else if toy < 0 {
            a.y = a.y + ih;
            vel.y = vy_abs;
        } else {
            vel.y = 0;
        }
        let p = rng.next_in(-PERTURB, PERTURB);
        vel.x = clamp_vel(vel.x + p);
        true
    } else {
        let vx_abs = if vel.x >= 0 {
            vel.x
        } else {
            -vel.x
        };
        if tox > 0 {
            a.x = a.x - iw;
            vel.x = -vx_abs;
        } else if tox < 0 {
            a.x = a.x + iw;
            vel.x = vx_abs;
        } else {
            vel.x = 0;
        }
        true
    }
}

/// Rectangles with no (or only a degenerate) intersection resolve to no
/// collision: nothing moves, no velocity changes, no random draw is
/// spent.
pub proof fn lemma_resolve_no_overlap(a: Rect, vel: Vec2i, b: Rect, m: RngModel)
    requires
        !rects_overlap(a, b),
    ensures
        resolve_spec(a, vel, b, m) == (a, vel, m, false),
{
}

/// Tie-break rule: a wider-than-tall intersection bounces on Y (the Y
/// velocity is set away from the static centre, X is only nudged); a
/// taller-or-square intersection bounces on X (the X velocity is set
/// away from the static centre and Y is untouched). In either case the
/// moving rectangle is displaced by exactly the intersection depth along
/// the bounced axis and not at all along the other.
pub proof fn lemma_resolve_tie_break(a: Rect, vel: Vec2i, b: Rect, m: RngModel)
    requires
        rects_overlap(a, b),
        rect_within(a, POS_SLACK_LIMIT as int),
        rect_within(b, POS_SLACK_LIMIT as int),
        vel_within(vel),
    ensures
        bounces_on_y(a, b) ==> {
            let (ra, rv, rm, rh) = resolve_spec(a, vel, b, m);
            &&& rv.y == -to_sign_y(a, b) * abs_i(vel.y as int)
            &&& ra.y == a.y - to_sign_y(a, b) * inter_h(a, b)
            &&& ra.x == a.x
            &&& rh
        },
        !bounces_on_y(a, b) ==> {
            let (ra, rv, rm, rh) = resolve_spec(a, vel, b, m);
            &&& rv.x == -to_sign_x(a, b) * abs_i(vel.x as int)
            &&& rv.y == vel.y
            &&& ra.x == a.x - to_sign_x(a, b) * inter_w(a, b)
            &&& ra.y == a.y
            &&& rh
        },
{
    if bounces_on_y(a, b) {
        let sy = to_sign_y(a, b);
        let ih = inter_h(a, b);
        let av = abs_i(vel.y as int);
        if sy > 0 {
            assert(sy * ih == ih && (-sy) * av == -av) by (nonlinear_arith)
                requires
                    sy == 1,
            ;
        } else if sy < 0 {
            assert(sy * ih == -ih && (-sy) * av == av) by (nonlinear_arith)
                requires
                    sy == -1,
            ;
        } else {
            assert(sy * ih == 0 && (-sy) * av == 0) by (nonlinear_arith)
                requires
                    sy == 0,
            ;
        }
    } else {
        let sx = to_sign_x(a, b);
        let iw = inter_w(a, b);
        let av = abs_i(vel.x as int);
        if sx > 0 {
            assert(sx * iw == iw && (-sx) * av == -av) by (nonlinear_arith)
                requires
                    sx == 1,
            ;
        } else if sx < 0 {
            assert(sx * iw == -iw && (-sx) * av == av) by (nonlinear_arith)
                requires
                    sx == -1,
            ;
        } else {
            assert(sx * iw == 0 && (-sx) * av == 0) by (nonlinear_arith)
                requires
                    sx == 0,
            ;
        }
    }
}

/// On overlap, with the moving rectangle heading toward the static one's
/// centre on the bounce axis (and, for a vertical bounce, a horizontal
/// velocity too large for the nudge to cross zero), exactly one axis of
/// the velocity flips to the strictly opposite sign, and the rectangle
/// moves by exactly the intersection depth along that axis only.
pub proof fn lemma_resolve_one_axis_flips(a: Rect, vel: Vec2i, b: Rect, m: RngModel)
    requires
        rects_overlap(a, b),
        rect_within(a, POS_SLACK_LIMIT as int),
        rect_within(b, POS_SLACK_LIMIT as int),
        vel_within(vel),
        bounces_on_y(a, b) ==> {
            &&& to_sign_y(a, b) != 0
            &&& sign(vel.y as int) == to_sign_y(a, b)
            &&& PERTURB < abs_i(vel.x as int)
        },
        !bounces_on_y(a, b) ==> {
            &&& to_sign_x(a, b) != 0
            &&& sign(vel.x as int) == to_sign_x(a, b)
        },
    ensures
        ({
            let (ra, rv, rm, rh) = resolve_spec(a, vel, b, m);
            &&& rh
            &&& bounces_on_y(a, b) ==> {
                &&& sign(rv.y as int) == -sign(vel.y as int)
                &&& sign(rv.x as int) == sign(vel.x as int)
                &&& abs_i(ra.y - a.y) == inter_h(a, b)
                &&& ra.x == a.x
            }
            &&& !bounces_on_y(a, b) ==> {
                &&& sign(rv.x as int) == -sign(vel.x as int)
                &&& rv.y == vel.y
                &&& abs_i(ra.x - a.x) == inter_w(a, b)
                &&& ra.y == a.y
            }
        }),
{
    if bounces_on_y(a, b) {
        let p = rng_next_spec(m, -PERTURB as int, PERTURB as int);
        if m.draws.len() > 0 {
            vstd::arithmetic::div_mod::lemma_mod_bound(m.draws[m.idx] as int, 401);
        }
        assert(-200 <= p <= 200);
        let nvx = clamp_vel_spec(vel.x + p);
        assert(sign(nvx) == sign(vel.x as int));
    }
}

} // verus!
