//! General laws of the renderer, stated and proved over the spec-level
//! models: what the tracer returns when nothing is hit, how the closest
//! query treats root order, tangent and missed spheres, ambient-only
//! scenes, blocked lights, the recursion budget, and reflection.

use vstd::prelude::*;
use crate::color::{cmul3, C3};
use crate::fixed::{
    lemma_sqrt_floor_unique, lemma_tz_div_nonneg, lemma_tz_div_nonpos, sfx_mul, sqrt_floor,
    COORD_LIMIT, SCALE, T_FAR,
};
use crate::scene::{Scene, SceneEntity, SphereEntity, LightType};
use crate::tracer::{
    shade_term, spec_closest, spec_closest_upto, spec_intersect, spec_lighting, spec_lighting_upto,
    spec_trace, step_entity, step_root, lemma_closest_props, SHADOW_T_MIN,
};
use crate::vec3::{
    bnd3, lemma_dot3_self_nonneg, lemma_sqrt_floor_exists, sdot3, snorm3, vadd3, vneg3, vscale3,
    vsub3, V3,
};

verus! {

/// The ray from `o` along `d` starts outside the sphere `s` and points
/// away from it, in fixed-point terms: the centre-offset coefficient `c`
/// of the intersection quadratic is positive and the mixed coefficient is
/// non-negative.
pub open spec fn points_away_from(o: V3, d: V3, s: SphereEntity) -> bool {
    let oc = vsub3(o, s.center@);
    sdot3(oc, d) >= 0 && sdot3(oc, oc) - sfx_mul(s.radius as int, s.radius as int) > 0
}

/// A sphere the ray starts outside of and points away from offers no root
/// inside a forward window: folding it into the closest-hit accumulator
/// changes nothing.
pub proof fn lemma_away_sphere_rejected(
    acc: (Option<SphereEntity>, int),
    s: SphereEntity,
    o: V3,
    d: V3,
    tmin: int,
    tmax: int,
)
    requires
        points_away_from(o, d, s),
        0 <= tmin,
        tmax <= T_FAR,
    ensures
        step_entity(acc, SceneEntity::Sphere(s), o, d, tmin, tmax) == acc,
{
    let oc = vsub3(o, s.center@);
    let a = sdot3(d, d);
    let b = 2 * sdot3(oc, d);
    let c = sdot3(oc, oc) - sfx_mul(s.radius as int, s.radius as int);
    let disc = sfx_mul(b, b) - 4 * sfx_mul(a, c);
    lemma_dot3_self_nonneg(d);
    if disc < 0 || a == 0 {
        // Both roots are the sentinel, which no window accepts.
    } else {
        assert(a * c >= 0) by (nonlinear_arith)
            requires
                a >= 0,
                c > 0,
        ;
        lemma_tz_div_nonneg(a * c, SCALE as int);
        assert(b * b >= 0) by (nonlinear_arith);
        lemma_tz_div_nonneg(b * b, SCALE as int);
        let bb = sfx_mul(b, b);
        assert(disc <= bb);
        lemma_sqrt_floor_exists(disc * SCALE);
        let sq = sqrt_floor(disc * SCALE);
        vstd::arithmetic::div_mod::lemma_remainder_lower(b * b, SCALE as int);
        assert(disc * SCALE <= bb * SCALE);
        assert(sq * sq <= b * b);
        assert(sq <= b) by (nonlinear_arith)
            requires
                0 <= sq,
                0 <= b,
                sq * sq <= b * b,
        ;
        assert((-b + sq) * SCALE <= 0);
        assert((-b - sq) * SCALE <= 0);
        lemma_tz_div_nonpos((-b + sq) * SCALE, 2 * a);
        lemma_tz_div_nonpos((-b - sq) * SCALE, 2 * a);
    }
}

/// A ray whose origin is outside every sphere and whose direction points
/// away from all of them hits nothing.
pub proof fn lemma_away_ray_misses(
    ents: Seq<SceneEntity>,
    k: int,
    o: V3,
    d: V3,
    tmin: int,
    tmax: int,
)
    requires
        0 <= k <= ents.len(),
        0 <= tmin,
        tmax <= T_FAR,
        forall|j: int|
            0 <= j < ents.len() ==> match #[trigger] ents[j] {
                SceneEntity::Sphere(s) => points_away_from(o, d, s),
                SceneEntity::Light(_) => true,
            },
    ensures
        spec_closest_upto(ents, k, o, d, tmin, tmax) == (None::<SphereEntity>, T_FAR as int),
    decreases k,
{
    if k > 0 {
        lemma_away_ray_misses(ents, k - 1, o, d, tmin, tmax);
        match ents[k - 1] {
            SceneEntity::Sphere(s) => {
                lemma_away_sphere_rejected(
                    spec_closest_upto(ents, k - 1, o, d, tmin, tmax),
                    s,
                    o,
                    d,
                    tmin,
                    tmax,
                );
            },
            SceneEntity::Light(_) => {},
        }
    }
}

/// For a ray whose origin is outside every sphere and whose direction
/// points away from all geometry, tracing returns exactly the scene's
/// background colour, whatever the recursion budget.
pub proof fn lemma_away_ray_traces_background(
    scene: Scene,
    o: V3,
    d: V3,
    tmin: int,
    tmax: int,
    depth: nat,
)
    requires
        0 <= tmin,
        tmax <= T_FAR,
        forall|j: int|
            0 <= j < scene.entities@.len() ==> match #[trigger] scene.entities@[j] {
                SceneEntity::Sphere(s) => points_away_from(o, d, s),
                SceneEntity::Light(_) => true,
            },
    ensures
        spec_trace(scene, o, d, tmin, tmax, depth) == scene.background_color@,
{
    let ents = scene.entities@;
    lemma_away_ray_misses(ents, ents.len() as int, o, d, tmin, tmax);
}

/// Folding a sphere's two roots into the closest-hit accumulator does not
/// depend on the order the roots are offered in: the query selects the
/// minimum in-range root either way.
pub proof fn lemma_root_order_irrelevant(
    acc: (Option<SphereEntity>, int),
    s: SphereEntity,
    t1: int,
    t2: int,
    tmin: int,
    tmax: int,
)
    ensures
        step_root(step_root(acc, s, t1, tmin, tmax), s, t2, tmin, tmax) == step_root(
            step_root(acc, s, t2, tmin, tmax),
            s,
            t1,
            tmin,
            tmax,
        ),
{
}

/// A sphere tangent to a ray — a discriminant of exactly zero — yields two
/// equal roots.
pub proof fn lemma_tangent_equal_roots(o: V3, d: V3, s: SphereEntity)
    requires
        ({
            let oc = vsub3(o, s.center@);
            let a = sdot3(d, d);
            let b = 2 * sdot3(oc, d);
            let c = sdot3(oc, oc) - sfx_mul(s.radius as int, s.radius as int);
            sfx_mul(b, b) - 4 * sfx_mul(a, c) == 0
        }),
    ensures
        spec_intersect(o, d, s).0 == spec_intersect(o, d, s).1,
{
    lemma_sqrt_floor_unique(0, 0);
}

/// A sphere missed entirely — a negative discriminant — yields the no-hit
/// sentinel for both roots, and the sentinel is never selected as the
/// closest hit by any window the query accepts.
pub proof fn lemma_missed_sphere_never_selected(
    acc: (Option<SphereEntity>, int),
    o: V3,
    d: V3,
    s: SphereEntity,
    tmin: int,
    tmax: int,
)
    requires
        ({
            let oc = vsub3(o, s.center@);
            let a = sdot3(d, d);
            let b = 2 * sdot3(oc, d);
            let c = sdot3(oc, oc) - sfx_mul(s.radius as int, s.radius as int);
            sfx_mul(b, b) - 4 * sfx_mul(a, c) < 0
        }),
        tmax <= T_FAR,
    ensures
        spec_intersect(o, d, s) == (T_FAR as int, T_FAR as int),
        step_entity(acc, SceneEntity::Sphere(s), o, d, tmin, tmax) == acc,
{
}

/// No entity of the scene is a point or directional light.
pub open spec fn ambient_only(ents: Seq<SceneEntity>) -> bool {
    forall|j: int|
        0 <= j < ents.len() ==> match #[trigger] ents[j] {
            SceneEntity::Light(l) => l is Ambient,
            SceneEntity::Sphere(_) => true,
        }
}

/// The summed intensity of the ambient lights among the first `k`
/// entities.
pub open spec fn ambient_total_upto(ents: Seq<SceneEntity>, k: int) -> int
    decreases k,
{
    if k <= 0 {
        0
    } else {
        ambient_total_upto(ents, k - 1) + match ents[k - 1] {
            SceneEntity::Light(LightType::Ambient(a)) => a.intensity as int,
            _ => 0,
        }
    }
}

/// In a scene whose only lights are ambient, the shading engine returns
/// exactly the summed ambient intensity: no diffuse or specular term can
/// arise.
pub proof fn lemma_ambient_only_lighting(
    ents: Seq<SceneEntity>,
    k: int,
    p: V3,
    n: V3,
    v: V3,
    se: int,
)
    requires
        0 <= k <= ents.len(),
        ambient_only(ents),
    ensures
        spec_lighting_upto(ents, k, p, n, v, se) == ambient_total_upto(ents, k),
    decreases k,
{
    if k > 0 {
        lemma_ambient_only_lighting(ents, k - 1, p, n, v, se);
    }
}

/// In a scene whose only lights are ambient with summed intensity `I`, a
/// traced ray that hits a sphere taking the local-colour path returns
/// exactly `sphere.color * I`.
pub proof fn lemma_ambient_only_trace(
    scene: Scene,
    o: V3,
    d: V3,
    tmin: int,
    tmax: int,
    depth: nat,
)
    requires
        ambient_only(scene.entities@),
    ensures
        ({
            let ents = scene.entities@;
            let hit = spec_closest(ents, o, d, tmin, tmax);
            hit.0 matches Some(s) ==> ((bnd3(vadd3(o, vscale3(d, hit.1)), COORD_LIMIT as int) && (
            s.reflective <= 0 || depth == 0)) ==> spec_trace(scene, o, d, tmin, tmax, depth)
                == cmul3(s.color@, ambient_total_upto(ents, ents.len() as int)))
        }),
{
    let ents = scene.entities@;
    let hit = spec_closest(ents, o, d, tmin, tmax);
    match hit.0 {
        Some(s) => {
            let pos = vadd3(o, vscale3(d, hit.1));
            if bnd3(pos, COORD_LIMIT as int) && (s.reflective <= 0 || depth == 0) {
                let n = snorm3(vsub3(pos, s.center@));
                lemma_ambient_only_lighting(
                    ents,
                    ents.len() as int,
                    pos,
                    n,
                    vneg3(d),
                    s.specular as int,
                );
            }
        },
        None => {},
    }
}

/// A light whose shadow ray hits any sphere within its window — a point
/// blocked from the light by geometry — contributes neither a diffuse nor
/// a specular term.  (The ambient contribution of other lights is
/// unaffected: it is a separate summand of `spec_lighting`.)
pub proof fn lemma_blocked_light_adds_nothing(
    ents: Seq<SceneEntity>,
    p: V3,
    n: V3,
    v: V3,
    se: int,
    ld: V3,
    li: int,
    tmx: int,
)
    requires
        spec_closest(ents, p, ld, SHADOW_T_MIN as int, tmx).0 is Some,
    ensures
        shade_term(ents, p, n, v, se, ld, li, tmx) == 0,
{
}

/// The colour of a traced ray when no reflection bounce is taken: the
/// background on a miss, else the locally shaded colour.
pub open spec fn spec_trace_local(scene: Scene, o: V3, d: V3, tmin: int, tmax: int) -> C3 {
    let hit = spec_closest(scene.entities@, o, d, tmin, tmax);
    match hit.0 {
        None => scene.background_color@,
        Some(s) => {
            let pos = vadd3(o, vscale3(d, hit.1));
            if !bnd3(pos, COORD_LIMIT as int) {
                scene.background_color@
            } else {
                let n = snorm3(vsub3(pos, s.center@));
                cmul3(
                    s.color@,
                    spec_lighting(scene.entities@, pos, n, vneg3(d), s.specular as int),
                )
            }
        },
    }
}

/// With a recursion budget of zero the tracer never issues a secondary
/// trace, whatever the hit sphere's reflectiveness: the result is exactly
/// the local colour.
pub proof fn lemma_budget_zero_no_bounce(scene: Scene, o: V3, d: V3, tmin: int, tmax: int)
    ensures
        spec_trace(scene, o, d, tmin, tmax, 0) == spec_trace_local(scene, o, d, tmin, tmax),
{
}

/// No sphere of the scene is reflective.
pub open spec fn no_reflective(ents: Seq<SceneEntity>) -> bool {
    forall|j: int|
        0 <= j < ents.len() ==> match #[trigger] ents[j] {
            SceneEntity::Sphere(s) => s.reflective <= 0,
            SceneEntity::Light(_) => true,
        }
}

/// In a scene with no reflective sphere the recursion budget is
/// irrelevant: every budget produces the local colour, so any two budgets
/// produce identical output.
pub proof fn lemma_no_reflective_budget_irrelevant(
    scene: Scene,
    o: V3,
    d: V3,
    tmin: int,
    tmax: int,
    depth: nat,
)
    requires
        no_reflective(scene.entities@),
    ensures
        spec_trace(scene, o, d, tmin, tmax, depth) == spec_trace_local(scene, o, d, tmin, tmax),
{
    let ents = scene.entities@;
    let hit = spec_closest(ents, o, d, tmin, tmax);
    match hit.0 {
        Some(s) => {
            lemma_closest_props(ents, ents.len() as int, o, d, tmin, tmax);
            let j = choose|j: int| 0 <= j < ents.len() && ents[j] == SceneEntity::Sphere(s);
            assert(s.reflective <= 0);
        },
        None => {},
    }
}

/// The raw (unrescaled) dot product of two fixed-point vectors.
pub open spec fn dot_raw(u: V3, v: V3) -> int {
    u.x * v.x + u.y * v.y + u.z * v.z
}

/// Mirror reflection computed without any rounding, scaled by `SCALE`
/// squared: the exact value the executable `reflect_ray` approximates to
/// within one fixed-point unit per component.
pub open spec fn refl_exact(v: V3, n: V3) -> V3 {
    V3 {
        x: 2 * n.x * dot_raw(n, v) - v.x * SCALE * SCALE,
        y: 2 * n.y * dot_raw(n, v) - v.y * SCALE * SCALE,
        z: 2 * n.z * dot_raw(n, v) - v.z * SCALE * SCALE,
    }
}

/// The component of an exactly reflected vector along the normal:
/// `refl(v, n) . n == (2 |n|^2 - 1) (v . n)` over the raw integers.  In
/// particular reflection about a non-unit normal is not an involution —
/// the reflected vector is rescaled by the normal's squared length — so
/// `reflect(reflect(v, n), n)` is not generally `v`.
pub proof fn lemma_reflection_normal_component(v: V3, n: V3)
    ensures
        dot_raw(refl_exact(v, n), n) == (2 * dot_raw(n, n) - SCALE * SCALE) * dot_raw(n, v),
{
    let dd = dot_raw(n, v);
    let nn = dot_raw(n, n);
    let s2 = (SCALE as int) * (SCALE as int);
    assert((2 * n.x * dd - v.x * SCALE * SCALE) * n.x == 2 * dd * (n.x * n.x) - s2 * (n.x * v.x))
        by (nonlinear_arith)
        requires
            s2 == (SCALE as int) * (SCALE as int),
    ;
    assert((2 * n.y * dd - v.y * SCALE * SCALE) * n.y == 2 * dd * (n.y * n.y) - s2 * (n.y * v.y))
        by (nonlinear_arith)
        requires
            s2 == (SCALE as int) * (SCALE as int),
    ;
    assert((2 * n.z * dd - v.z * SCALE * SCALE) * n.z == 2 * dd * (n.z * n.z) - s2 * (n.z * v.z))
        by (nonlinear_arith)
        requires
            s2 == (SCALE as int) * (SCALE as int),
    ;
    assert(2 * dd * (n.x * n.x) + 2 * dd * (n.y * n.y) + 2 * dd * (n.z * n.z) == 2 * dd * nn)
        by (nonlinear_arith)
        requires
            nn == n.x * n.x + n.y * n.y + n.z * n.z,
    ;
    assert(s2 * (n.x * v.x) + s2 * (n.y * v.y) + s2 * (n.z * v.z) == s2 * dd) by (nonlinear_arith)
        requires
            dd == n.x * v.x + n.y * v.y + n.z * v.z,
    ;
    assert(2 * dd * nn - s2 * dd == (2 * nn - s2) * dd) by (nonlinear_arith);
    assert((2 * nn - s2) * dd == (2 * dot_raw(n, n) - SCALE * SCALE) * dot_raw(n, v))
        by (nonlinear_arith)
        requires
            nn == dot_raw(n, n),
            dd == dot_raw(n, v),
            s2 == (SCALE as int) * (SCALE as int),
    ;
}

/// For an exactly unit normal, reflection preserves the component of the
/// vector along the normal: `refl(v, n) . n == v . n` up to the `SCALE`
/// squared factor that `refl_exact` carries.
pub proof fn lemma_unit_reflection_preserves_normal_dot(v: V3, n: V3)
    requires
        dot_raw(n, n) == SCALE * SCALE,
    ensures
        dot_raw(refl_exact(v, n), n) == SCALE * SCALE * dot_raw(n, v),
{
    lemma_reflection_normal_component(v, n);
    assert((2 * (SCALE * SCALE) - SCALE * SCALE) * dot_raw(n, v) == SCALE * SCALE * dot_raw(n, v))
        by (nonlinear_arith);
}

} // verus!
