//! The ray-tracing pipeline: ray/sphere intersection, the closest-hit
//! query, the shading engine with shadow tests, and the recursive tracer.
//!
//! Every executable function is pinned to an exact spec-level model
//! (`spec_intersect`, `spec_closest`, `spec_lighting`, `spec_trace`), so a
//! caller knows the returned value, not merely a property of it.

use vstd::prelude::*;
use crate::color::{cbnd, cadd3, cmul3, Rgb, C3};
use crate::fixed::{
    cap_one, cap_ratio, fx_div, fx_mul, fx_pow, fx_sqrt, iabs, lemma_sfx_mul_bnd,
    lemma_sfx_pow_range, lemma_tz_div_nonneg, sfx_div, sfx_mul, sfx_pow, sfx_sqrt,
    COLOR_LIMIT, COORD_LIMIT, INTENSITY_LIMIT, NORMAL_LIMIT, SCALE, T_FAR,
};
use crate::scene::{Scene, SceneEntity, SphereEntity, LightType, wf_entity, wf_scene, wf_sphere};
use crate::vec3::{
    bnd3, lemma_dot3_bnd, lemma_dot3_self_nonneg, lemma_srefl3_bnd, lemma_vscale3_bnd, sdot3,
    slen3, snorm3, srefl3, vadd3, vneg3, vscale3, vsub3, in_coord_range, Vec3, V3,
};

verus! {

/// Lower window bound of a shadow ray (one thousandth in real terms),
/// keeping a surface from shadowing itself.
pub const SHADOW_T_MIN: i128 = 10;

/// Lower window bound of a reflected ray: the smallest positive step,
/// keeping a reflection from immediately re-hitting its own surface.
pub const TRACE_EPSILON: i128 = 1;

/// How many mirror bounces a primary ray may take.
pub const RECURSION_LIMIT: i32 = 3;

/// Exact model of the intersection of a ray and a sphere: the two roots of
/// `|O + tD - C|^2 = r^2`, computed over fixed-point scalars.  A negative
/// discriminant — no real intersection — yields the `T_FAR` sentinel for
/// both roots, as does a direction whose fixed-point square rounds to
/// zero (the degenerate near-zero direction the quadratic cannot handle;
/// over unbounded reals it would divide by zero).
pub open spec fn spec_intersect(o: V3, d: V3, s: SphereEntity) -> (int, int) {
    let oc = vsub3(o, s.center@);
    let a = sdot3(d, d);
    let b = 2 * sdot3(oc, d);
    let c = sdot3(oc, oc) - sfx_mul(s.radius as int, s.radius as int);
    let disc = sfx_mul(b, b) - 4 * sfx_mul(a, c);
    if disc < 0 {
        (T_FAR as int, T_FAR as int)
    } else if a == 0 {
        (T_FAR as int, T_FAR as int)
    } else {
        let sq = sfx_sqrt(disc);
        (sfx_div(-b + sq, 2 * a), sfx_div(-b - sq, 2 * a))
    }
}

/// Compute the two parametric hit distances of a ray against one sphere.
/// The pair is unordered: callers must consider both roots.
pub fn intersect_ray_sphere(origin: Vec3, direction: Vec3, sphere: &SphereEntity) -> (r: (
    i128,
    i128,
))
    requires
        wf_sphere(*sphere),
        bnd3(origin@, COORD_LIMIT as int),
        bnd3(direction@, 2 * COORD_LIMIT),
    ensures
        r.0 as int == spec_intersect(origin@, direction@, *sphere).0,
        r.1 as int == spec_intersect(origin@, direction@, *sphere).1,
{
    let oc = origin.minus(sphere.center);
    let a = direction.dot(direction);
    let ocd = oc.dot(direction);
    proof {
        lemma_dot3_self_nonneg(direction@);
        lemma_dot3_bnd(direction@, direction@, 2 * COORD_LIMIT, 2 * COORD_LIMIT);
        lemma_dot3_bnd(oc@, direction@, 2 * COORD_LIMIT, 2 * COORD_LIMIT);
        lemma_dot3_bnd(oc@, oc@, 2 * COORD_LIMIT, 2 * COORD_LIMIT);
        lemma_sfx_mul_bnd(sphere.radius as int, sphere.radius as int, COORD_LIMIT as int, COORD_LIMIT as int);
        assert(bnd3(oc@, 2 * COORD_LIMIT));
        assert(3 * (2 * COORD_LIMIT as int) * (2 * COORD_LIMIT as int) == 885443715538058477568)
            by (nonlinear_arith);
        assert(885443715538058477568int / 10000int == 88544371553805847int);
        assert((COORD_LIMIT as int) * (COORD_LIMIT as int) == 73786976294838206464)
            by (nonlinear_arith);
        assert(73786976294838206464int / 10000int == 7378697629483820int);
        assert(iabs(ocd as int) <= 88544371553805847);
    }
    let b = 2 * ocd;
    let rr = fx_mul(sphere.radius, sphere.radius);
    let occ = oc.dot(oc);
    let c = occ - rr;
    proof {
        lemma_sfx_mul_bnd(b as int, b as int, 177088743107611694, 177088743107611694);
        lemma_sfx_mul_bnd(a as int, c as int, 88544371553805847, 95923069183289667);
        assert(177088743107611694int * 177088743107611694int
            == 31360422935433688256701560685549636int) by (nonlinear_arith);
        assert(31360422935433688256701560685549636int / 10000int
            == 3136042293543368825670156068554int);
        assert(88544371553805847int * 95923069183289667int
            == 8493447878346623851205789279282949int) by (nonlinear_arith);
        assert(8493447878346623851205789279282949int / 10000int
            == 849344787834662385120578927928int);
    }
    let bb = fx_mul(b, b);
    let ac = fx_mul(a, c);
    let disc = bb - 4 * ac;
    if disc < 0 {
        (T_FAR, T_FAR)
    } else if a == 0 {
        (T_FAR, T_FAR)
    } else {
        let sq = fx_sqrt(disc);
        let t1 = fx_div(-b + sq, 2 * a);
        let t2 = fx_div(-b - sq, 2 * a);
        (t1, t2)
    }
}

/// One candidate root folded into the running closest hit: it wins only
/// when it lies strictly inside the `(t_min, t_max)` window and is
/// strictly closer than the best so far — so among equally close hits the
/// entity scanned first is kept.
pub open spec fn step_root(
    acc: (Option<SphereEntity>, int),
    s: SphereEntity,
    t: int,
    tmin: int,
    tmax: int,
) -> (Option<SphereEntity>, int) {
    if t > tmin && t < tmax && t < acc.1 {
        (Some(s), t)
    } else {
        acc
    }
}

/// One entity folded into the running closest hit: a sphere offers both
/// of its roots, in order; a light offers nothing.
pub open spec fn step_entity(
    acc: (Option<SphereEntity>, int),
    e: SceneEntity,
    o: V3,
    d: V3,
    tmin: int,
    tmax: int,
) -> (Option<SphereEntity>, int) {
    match e {
        SceneEntity::Sphere(s) => {
            let roots = spec_intersect(o, d, s);
            step_root(step_root(acc, s, roots.0, tmin, tmax), s, roots.1, tmin, tmax)
        },
        SceneEntity::Light(_) => acc,
    }
}

/// The closest hit among the first `k` entities.
pub open spec fn spec_closest_upto(
    ents: Seq<SceneEntity>,
    k: int,
    o: V3,
    d: V3,
    tmin: int,
    tmax: int,
) -> (Option<SphereEntity>, int)
    decreases k,
{
    if k <= 0 {
        (None::<SphereEntity>, T_FAR as int)
    } else {
        step_entity(spec_closest_upto(ents, k - 1, o, d, tmin, tmax), ents[k - 1], o, d, tmin, tmax)
    }
}

/// Exact model of the closest-intersection query over a whole scene.
pub open spec fn spec_closest(
    ents: Seq<SceneEntity>,
    o: V3,
    d: V3,
    tmin: int,
    tmax: int,
) -> (Option<SphereEntity>, int) {
    spec_closest_upto(ents, ents.len() as int, o, d, tmin, tmax)
}

/// A hit reported by the query lies strictly inside the window and names a
/// sphere of the scene; no hit leaves the `T_FAR` sentinel distance.
pub proof fn lemma_closest_props(ents: Seq<SceneEntity>, k: int, o: V3, d: V3, tmin: int, tmax: int)
    requires
        0 <= k <= ents.len(),
    ensures
        ({
            let r = spec_closest_upto(ents, k, o, d, tmin, tmax);
            match r.0 {
                Some(s) => tmin < r.1 < tmax && exists|j: int|
                    0 <= j < k && ents[j] == SceneEntity::Sphere(s),
                None => r.1 == T_FAR,
            }
        }),
    decreases k,
{
    if k > 0 {
        lemma_closest_props(ents, k - 1, o, d, tmin, tmax);
    }
}

/// The reported distance is at most every root of every sphere that lies
/// inside the window: the query selects the minimum in-range `t`.
pub proof fn lemma_closest_minimal(
    ents: Seq<SceneEntity>,
    k: int,
    o: V3,
    d: V3,
    tmin: int,
    tmax: int,
    j: int,
    s: SphereEntity,
)
    requires
        0 <= j < k <= ents.len(),
        ents[j] == SceneEntity::Sphere(s),
    ensures
        ({
            let r = spec_closest_upto(ents, k, o, d, tmin, tmax);
            let roots = spec_intersect(o, d, s);
            &&& (tmin < roots.0 < tmax ==> r.1 <= roots.0)
            &&& (tmin < roots.1 < tmax ==> r.1 <= roots.1)
        }),
    decreases k,
{
    if j < k - 1 {
        lemma_closest_minimal(ents, k - 1, o, d, tmin, tmax, j, s);
    }
}

/// Scan every sphere of the scene and keep the sphere and root minimising
/// `t` inside the open window `(t_min, t_max)`.  Returns the winning
/// sphere (or `None`) together with its distance (or the `T_FAR`
/// sentinel).  Ties between equally close roots go to the entity scanned
/// first; a scene permutation can only change which of two exactly
/// equidistant spheres is reported.
pub fn closest_intersection(
    origin: Vec3,
    direction: Vec3,
    t_min: i128,
    t_max: i128,
    scene: &Scene,
) -> (r: (Option<SphereEntity>, i128))
    requires
        wf_scene(*scene),
        bnd3(origin@, COORD_LIMIT as int),
        bnd3(direction@, 2 * COORD_LIMIT),
        0 <= t_min,
        t_max <= T_FAR,
    ensures
        r.0 == spec_closest(scene.entities@, origin@, direction@, t_min as int, t_max as int).0,
        r.1 as int == spec_closest(scene.entities@, origin@, direction@, t_min as int, t_max as int).1,
{
    let ghost ents = scene.entities@;
    let mut closest_t: i128 = T_FAR;
    let mut closest_sphere: Option<SphereEntity> = None;
    let n = scene.entities.len();
    let mut i: usize = 0;
    while i < n
        invariant
            i <= n,
            n == ents.len(),
            ents == scene.entities@,
            wf_scene(*scene),
            bnd3(origin@, COORD_LIMIT as int),
            bnd3(direction@, 2 * COORD_LIMIT),
            closest_sphere == spec_closest_upto(ents, i as int, origin@, direction@, t_min as int, t_max as int).0,
            closest_t as int == spec_closest_upto(ents, i as int, origin@, direction@, t_min as int, t_max as int).1,
        decreases n - i,
    {
        let entity = scene.entities[i];
        match entity {
            SceneEntity::Sphere(sphere) => {
                assert(wf_entity(ents[i as int]));
                let (t1, t2) = intersect_ray_sphere(origin, direction, &sphere);
                if t1 > t_min && t1 < t_max && t1 < closest_t {
                    closest_t = t1;
                    closest_sphere = Some(sphere);
                }
                if t2 > t_min && t2 < t_max && t2 < closest_t {
                    closest_t = t2;
                    closest_sphere = Some(sphere);
                }
            },
            SceneEntity::Light(_) => {},
        }
        i = i + 1;
    }
    (closest_sphere, closest_t)
}

/// Mirror-reflect a vector about a surface normal: `R = 2 n (n . ray) - ray`.
/// The same formula serves the specular highlight and the recursive
/// reflection bounce.
pub fn reflect_ray(ray: Vec3, normal: Vec3) -> (r: Vec3)
    requires
        bnd3(ray@, 0x20000000000),
        bnd3(normal@, 0x100000),
    ensures
        r@ == srefl3(ray@, normal@),
{
    let normal_dot_ray = normal.dot(ray);
    proof {
        lemma_dot3_bnd(normal@, ray@, 0x100000, 0x20000000000);
        assert(3 * 0x100000int * 0x20000000000int == 6917529027641081856int) by (nonlinear_arith);
        assert(6917529027641081856int / 10000int == 691752902764108int);
        lemma_sfx_mul_bnd(normal@.x, 2 * normal_dot_ray as int, 0x100000, 1383505805528216);
        lemma_sfx_mul_bnd(normal@.y, 2 * normal_dot_ray as int, 0x100000, 1383505805528216);
        lemma_sfx_mul_bnd(normal@.z, 2 * normal_dot_ray as int, 0x100000, 1383505805528216);
        assert(0x100000int * 1383505805528216int == 1450710983537554620416int)
            by (nonlinear_arith);
        assert(1450710983537554620416int / 10000int == 145071098353755462int);
    }
    let two_ndr: i128 = 2 * normal_dot_ray;
    Vec3 {
        x: fx_mul(normal.x, two_ndr) - ray.x,
        y: fx_mul(normal.y, two_ndr) - ray.y,
        z: fx_mul(normal.z, two_ndr) - ray.z,
    }
}

/// Diffuse lighting of one light: the intensity scaled by the cosine of
/// the angle between the surface normal and the direction toward the
/// light, when that cosine is positive.  Degenerate near-zero vectors,
/// whose fixed-point length product rounds to zero, contribute nothing
/// (the same division over the reals would be unbounded).
pub open spec fn diffuse_term(n: V3, ld: V3, li: int) -> int {
    let ndl = sdot3(n, ld);
    if ndl > 0 {
        let den = sfx_mul(slen3(n), slen3(ld));
        if den > 0 {
            sfx_mul(li, cap_ratio(sfx_div(ndl, den)))
        } else {
            0
        }
    } else {
        0
    }
}

/// Specular lighting of one light: the intensity scaled by the cosine of
/// the angle between the mirrored light direction and the viewer, raised
/// to the specular exponent; an exponent of -1 turns the term off.
pub open spec fn specular_term(n: V3, ld: V3, v: V3, se: int, li: int) -> int {
    if se != -1 {
        let r = srefl3(ld, n);
        let rdv = sdot3(r, v);
        if rdv > 0 {
            let den = sfx_mul(slen3(r), slen3(v));
            if den > 0 {
                sfx_mul(li, sfx_pow(cap_ratio(sfx_div(rdv, den)), se as nat))
            } else {
                0
            }
        } else {
            0
        }
    } else {
        0
    }
}

/// What one point or directional light adds to the intensity at a surface
/// point: nothing when a shadow ray toward the light hits any sphere
/// within its window, else the diffuse plus the specular term.
pub open spec fn shade_term(
    ents: Seq<SceneEntity>,
    p: V3,
    n: V3,
    v: V3,
    se: int,
    ld: V3,
    li: int,
    tmx: int,
) -> int {
    if spec_closest(ents, p, ld, SHADOW_T_MIN as int, tmx).0 is Some {
        0
    } else {
        diffuse_term(n, ld, li) + specular_term(n, ld, v, se, li)
    }
}

/// What one scene entity adds to the intensity at a surface point.  A
/// point light's window ends at the light itself; a directional light's
/// window is unbounded.
pub open spec fn light_contrib(
    ents: Seq<SceneEntity>,
    e: SceneEntity,
    p: V3,
    n: V3,
    v: V3,
    se: int,
) -> int {
    match e {
        SceneEntity::Sphere(_) => 0,
        SceneEntity::Light(l) => match l {
            LightType::Ambient(a) => a.intensity as int,
            LightType::Point(pl) => shade_term(
                ents,
                p,
                n,
                v,
                se,
                vsub3(pl.position@, p),
                pl.intensity as int,
                SCALE as int,
            ),
            LightType::Directional(dl) => shade_term(
                ents,
                p,
                n,
                v,
                se,
                dl.direction@,
                dl.intensity as int,
                T_FAR as int,
            ),
        },
    }
}

/// The summed intensity contributed by the first `k` entities.
pub open spec fn spec_lighting_upto(
    ents: Seq<SceneEntity>,
    k: int,
    p: V3,
    n: V3,
    v: V3,
    se: int,
) -> int
    decreases k,
{
    if k <= 0 {
        0
    } else {
        spec_lighting_upto(ents, k - 1, p, n, v, se) + light_contrib(ents, ents[k - 1], p, n, v, se)
    }
}

/// Exact model of the shading engine over a whole scene.
pub open spec fn spec_lighting(ents: Seq<SceneEntity>, p: V3, n: V3, v: V3, se: int) -> int {
    spec_lighting_upto(ents, ents.len() as int, p, n, v, se)
}

/// The diffuse term lies between zero and the light's intensity.
pub proof fn lemma_diffuse_bnd(n: V3, ld: V3, li: int)
    requires
        0 <= li,
    ensures
        0 <= diffuse_term(n, ld, li),
        diffuse_term(n, ld, li) <= li,
{
    let ndl = sdot3(n, ld);
    if ndl > 0 {
        let den = sfx_mul(slen3(n), slen3(ld));
        if den > 0 {
            lemma_tz_div_nonneg(ndl * SCALE, den);
            let cr = cap_ratio(sfx_div(ndl, den));
            assert(0 <= li * cr) by (nonlinear_arith)
                requires
                    0 <= li,
                    0 <= cr,
            ;
            lemma_tz_div_nonneg(li * cr, SCALE as int);
            lemma_sfx_mul_bnd(li, cr, li, SCALE as int);
            vstd::arithmetic::div_mod::lemma_div_multiples_vanish(li, SCALE as int);
        }
    }
}

/// The specular term lies between zero and the light's intensity.
pub proof fn lemma_specular_bnd(n: V3, ld: V3, v: V3, se: int, li: int)
    requires
        0 <= li,
    ensures
        0 <= specular_term(n, ld, v, se, li),
        specular_term(n, ld, v, se, li) <= li,
{
    if se != -1 {
        let r = srefl3(ld, n);
        let rdv = sdot3(r, v);
        if rdv > 0 {
            let den = sfx_mul(slen3(r), slen3(v));
            if den > 0 {
                lemma_tz_div_nonneg(rdv * SCALE, den);
                let pw = sfx_pow(cap_ratio(sfx_div(rdv, den)), se as nat);
                lemma_sfx_pow_range(cap_ratio(sfx_div(rdv, den)), se as nat);
                assert(0 <= li * pw) by (nonlinear_arith)
                    requires
                        0 <= li,
                        0 <= pw,
                ;
                lemma_tz_div_nonneg(li * pw, SCALE as int);
                lemma_sfx_mul_bnd(li, pw, li, SCALE as int);
                vstd::arithmetic::div_mod::lemma_div_multiples_vanish(li, SCALE as int);
            }
        }
    }
}

/// One entity's contribution lies between zero and twice the intensity
/// limit.
pub proof fn lemma_contrib_bnd(ents: Seq<SceneEntity>, e: SceneEntity, p: V3, n: V3, v: V3, se: int)
    requires
        wf_entity(e),
    ensures
        0 <= light_contrib(ents, e, p, n, v, se),
        light_contrib(ents, e, p, n, v, se) <= 2 * INTENSITY_LIMIT,
{
    match e {
        SceneEntity::Sphere(_) => {},
        SceneEntity::Light(l) => match l {
            LightType::Ambient(_) => {},
            LightType::Point(pl) => {
                lemma_diffuse_bnd(n, vsub3(pl.position@, p), pl.intensity as int);
                lemma_specular_bnd(n, vsub3(pl.position@, p), v, se, pl.intensity as int);
            },
            LightType::Directional(dl) => {
                lemma_diffuse_bnd(n, dl.direction@, dl.intensity as int);
                lemma_specular_bnd(n, dl.direction@, v, se, dl.intensity as int);
            },
        },
    }
}

/// The summed intensity over a prefix is non-negative and grows at most
/// linearly in the prefix length, by twice the intensity limit per
/// entity.
pub proof fn lemma_lighting_upto_bnd(
    ents: Seq<SceneEntity>,
    k: int,
    p: V3,
    n: V3,
    v: V3,
    se: int,
)
    requires
        0 <= k <= ents.len(),
        forall|i: int| 0 <= i < ents.len() ==> wf_entity(#[trigger] ents[i]),
    ensures
        0 <= spec_lighting_upto(ents, k, p, n, v, se),
        spec_lighting_upto(ents, k, p, n, v, se) <= 2000000 * k,
    decreases k,
{
    if k > 0 {
        lemma_lighting_upto_bnd(ents, k - 1, p, n, v, se);
        lemma_contrib_bnd(ents, ents[k - 1], p, n, v, se);
    }
}

/// The contribution of one point or directional light, given the direction
/// toward it, its intensity and its shadow-window end: zero when the
/// shadow ray hits a sphere, else diffuse plus specular.
fn shade_one_light(
    point: Vec3,
    normal: Vec3,
    view: Vec3,
    specular: i32,
    light_dir: Vec3,
    light_int: i128,
    t_max_l: i128,
    scene: &Scene,
) -> (c: i128)
    requires
        wf_scene(*scene),
        bnd3(point@, COORD_LIMIT as int),
        bnd3(normal@, NORMAL_LIMIT as int),
        bnd3(view@, COORD_LIMIT as int),
        specular >= -1,
        bnd3(light_dir@, 2 * COORD_LIMIT),
        0 <= light_int <= INTENSITY_LIMIT,
        t_max_l <= T_FAR,
    ensures
        c as int == shade_term(
            scene.entities@,
            point@,
            normal@,
            view@,
            specular as int,
            light_dir@,
            light_int as int,
            t_max_l as int,
        ),
        0 <= c <= 2 * INTENSITY_LIMIT,
{
    proof {
        lemma_diffuse_bnd(normal@, light_dir@, light_int as int);
        lemma_specular_bnd(normal@, light_dir@, view@, specular as int, light_int as int);
    }
    let (shadow_sphere, _shadow_t) = closest_intersection(
        point,
        light_dir,
        SHADOW_T_MIN,
        t_max_l,
        scene,
    );
    if shadow_sphere.is_some() {
        return 0;
    }
    let mut c: i128 = 0;

    // Diffuse
    let n_dot_l = normal.dot(light_dir);
    proof {
        lemma_dot3_bnd(normal@, light_dir@, NORMAL_LIMIT as int, 2 * COORD_LIMIT);
        assert(3 * (NORMAL_LIMIT as int) * (2 * COORD_LIMIT as int) == 1688849860263936)
            by (nonlinear_arith);
        assert(1688849860263936int / 10000int == 168884986026int);
    }
    if n_dot_l > 0 {
        let nlen = normal.length();
        let llen = light_dir.length();
        let den = fx_mul(nlen, llen);
        if den > 0 {
            proof {
                lemma_tz_div_nonneg((n_dot_l as int) * SCALE, den as int);
            }
            let ratio = cap_one(fx_div(n_dot_l, den));
            c = c + fx_mul(light_int, ratio);
        }
    }

    // Specular
    if specular != -1 {
        let reflection = reflect_ray(light_dir, normal);
        proof {
            lemma_srefl3_bnd(light_dir@, normal@, 2 * COORD_LIMIT, NORMAL_LIMIT as int);
            assert((NORMAL_LIMIT as int) * (2 * 168884986026int) == 11068046444199936int)
                by (nonlinear_arith);
            assert(11068046444199936int / 10000int == 1106804644419int);
            assert(bnd3(reflection@, 1123984513603));
            lemma_dot3_bnd(reflection@, view@, 1123984513603, COORD_LIMIT as int);
            assert(3 * 1123984513603int * (COORD_LIMIT as int) == 28964860362812112764928int)
                by (nonlinear_arith);
            assert(28964860362812112764928int / 10000int == 2896486036281211276int);
        }
        let r_dot_v = reflection.dot(view);
        if r_dot_v > 0 {
            let rlen = reflection.length();
            let vlen = view.length();
            let den = fx_mul(rlen, vlen);
            if den > 0 {
                proof {
                    lemma_tz_div_nonneg((r_dot_v as int) * SCALE, den as int);
                }
                let ratio = cap_one(fx_div(r_dot_v, den));
                let pw = fx_pow(ratio, specular as u32);
                c = c + fx_mul(light_int, pw);
            }
        }
    }
    c
}

/// Compute the scalar light intensity at a surface point: ambient lights
/// add their intensity outright; point and directional lights add diffuse
/// and specular terms unless a shadow ray toward them hits a sphere.  The
/// result is bounded by twice the intensity limit times the entity cap
/// (`2 * INTENSITY_LIMIT * MAX_ENTITIES`).
pub fn compute_lighting(point: Vec3, normal: Vec3, view: Vec3, specular: i32, scene: &Scene) -> (i:
    i128)
    requires
        wf_scene(*scene),
        bnd3(point@, COORD_LIMIT as int),
        bnd3(normal@, NORMAL_LIMIT as int),
        bnd3(view@, COORD_LIMIT as int),
        specular >= -1,
    ensures
        i as int == spec_lighting(scene.entities@, point@, normal@, view@, specular as int),
        0 <= i <= 131072000000,
{
    let ghost ents = scene.entities@;
    let mut i: i128 = 0;
    let n = scene.entities.len();
    let mut k: usize = 0;
    while k < n
        invariant
            k <= n,
            n == ents.len(),
            ents == scene.entities@,
            wf_scene(*scene),
            bnd3(point@, COORD_LIMIT as int),
            bnd3(normal@, NORMAL_LIMIT as int),
            bnd3(view@, COORD_LIMIT as int),
            specular >= -1,
            i as int == spec_lighting_upto(ents, k as int, point@, normal@, view@, specular as int),
            0 <= i <= 2000000 * k,
        decreases n - k,
    {
        let entity = scene.entities[k];
        proof {
            assert(wf_entity(ents[k as int]));
            lemma_contrib_bnd(ents, ents[k as int], point@, normal@, view@, specular as int);
        }
        match entity {
            SceneEntity::Sphere(_) => {},
            SceneEntity::Light(light) => match light {
                LightType::Ambient(ambient_light) => {
                    i = i + ambient_light.intensity;
                },
                LightType::Point(point_light) => {
                    let light_dir = point_light.position.minus(point);
                    i = i + shade_one_light(
                        point,
                        normal,
                        view,
                        specular,
                        light_dir,
                        point_light.intensity,
                        SCALE,
                        scene,
                    );
                },
                LightType::Directional(directional_light) => {
                    i = i + shade_one_light(
                        point,
                        normal,
                        view,
                        specular,
                        directional_light.direction,
                        directional_light.intensity,
                        T_FAR,
                        scene,
                    );
                },
            },
        }
        k = k + 1;
    }
    i
}

/// Exact model of the recursive ray tracer.
///
/// No hit inside the window yields the background colour.  A hit is shaded
/// at the surface point; a reflective sphere with recursion budget left
/// blends the local colour with a recursively traced mirror bounce.  A
/// surface point or reflected direction outside the representable world
/// (`COORD_LIMIT`) ends the ray early — the fixed-point stand-in for the
/// unbounded values the same arithmetic would produce over the reals.
pub open spec fn spec_trace(
    scene: Scene,
    o: V3,
    d: V3,
    tmin: int,
    tmax: int,
    depth: nat,
) -> C3
    decreases depth,
{
    let hit = spec_closest(scene.entities@, o, d, tmin, tmax);
    match hit.0 {
        None => scene.background_color@,
        Some(s) => {
            let pos = vadd3(o, vscale3(d, hit.1));
            if !bnd3(pos, COORD_LIMIT as int) {
                scene.background_color@
            } else {
                let n = snorm3(vsub3(pos, s.center@));
                let inten = spec_lighting(scene.entities@, pos, n, vneg3(d), s.specular as int);
                let local = cmul3(s.color@, inten);
                if s.reflective <= 0 || depth == 0 {
                    local
                } else {
                    let refl = srefl3(vneg3(d), n);
                    if !bnd3(refl, COORD_LIMIT as int) {
                        local
                    } else {
                        let rc = spec_trace(
                            scene,
                            pos,
                            refl,
                            TRACE_EPSILON as int,
                            T_FAR as int,
                            (depth - 1) as nat,
                        );
                        cadd3(
                            cmul3(local, SCALE - s.reflective),
                            cmul3(rc, s.reflective as int),
                        )
                    }
                }
            }
        },
    }
}

/// Every channel of a traced colour stays within a fixed magnitude — the
/// bound of a locally shaded colour, `COLOR_LIMIT` times the greatest
/// intensity rescaled — which convex reflective blending cannot exceed.
pub proof fn lemma_trace_bnd(scene: Scene, o: V3, d: V3, tmin: int, tmax: int, depth: nat)
    requires
        wf_scene(scene),
    ensures
        cbnd(spec_trace(scene, o, d, tmin, tmax, depth), 7036874417766400),
    decreases depth,
{
    let ents = scene.entities@;
    let hit = spec_closest(ents, o, d, tmin, tmax);
    match hit.0 {
        None => {},
        Some(s) => {
            let pos = vadd3(o, vscale3(d, hit.1));
            if bnd3(pos, COORD_LIMIT as int) {
                lemma_closest_props(ents, ents.len() as int, o, d, tmin, tmax);
                let n = snorm3(vsub3(pos, s.center@));
                let inten = spec_lighting(ents, pos, n, vneg3(d), s.specular as int);
                lemma_lighting_upto_bnd(ents, ents.len() as int, pos, n, vneg3(d), s.specular as int);
                assert(iabs(inten) <= 131072000000);
                let local = cmul3(s.color@, inten);
                let j = choose|j: int| 0 <= j < ents.len() && ents[j] == SceneEntity::Sphere(s);
                assert(wf_entity(ents[j]));
                crate::color::lemma_cmul3_bnd(s.color@, inten, COLOR_LIMIT as int, 131072000000);
                assert((COLOR_LIMIT as int) * 131072000000int == 70368744177664000000int)
                    by (nonlinear_arith);
                assert(70368744177664000000int / 10000int == 7036874417766400int);
                if s.reflective <= 0 || depth == 0 {
                } else {
                    let refl = srefl3(vneg3(d), n);
                    if bnd3(refl, COORD_LIMIT as int) {
                        let rc = spec_trace(
                            scene,
                            pos,
                            refl,
                            TRACE_EPSILON as int,
                            T_FAR as int,
                            (depth - 1) as nat,
                        );
                        lemma_trace_bnd(
                            scene,
                            pos,
                            refl,
                            TRACE_EPSILON as int,
                            T_FAR as int,
                            (depth - 1) as nat,
                        );
                        crate::color::lemma_cblend_bnd(local, rc, s.reflective as int, 7036874417766400);
                    }
                }
            }
        },
    }
}

/// Trace one ray through the scene and return its colour, following at
/// most `recursion_depth` mirror bounces.  The result is exactly
/// `spec_trace` of the arguments.
pub fn trace_ray(
    origin: Vec3,
    direction: Vec3,
    t_min: i128,
    t_max: i128,
    recursion_depth: i32,
    scene: &Scene,
) -> (c: Rgb)
    requires
        wf_scene(*scene),
        bnd3(origin@, COORD_LIMIT as int),
        bnd3(direction@, COORD_LIMIT as int),
        0 <= t_min,
        t_max <= T_FAR,
        recursion_depth >= 0,
    ensures
        c@ == spec_trace(
            *scene,
            origin@,
            direction@,
            t_min as int,
            t_max as int,
            recursion_depth as nat,
        ),
    decreases recursion_depth,
{
    let ghost ents = scene.entities@;
    let (closest_sphere, closest_t) = closest_intersection(origin, direction, t_min, t_max, scene);
    if let Some(sphere) = closest_sphere {
        proof {
            lemma_closest_props(ents, ents.len() as int, origin@, direction@, t_min as int, t_max as int);
            let j = choose|j: int|
                0 <= j < ents.len() && ents[j] == SceneEntity::Sphere(sphere);
            assert(wf_entity(ents[j]));
            lemma_vscale3_bnd(direction@, closest_t as int, COORD_LIMIT as int, T_FAR as int);
            assert((COORD_LIMIT as int) * (T_FAR as int) == 73786976294838206464int)
                by (nonlinear_arith);
            assert(73786976294838206464int / 10000int == 7378697629483820int);
        }
        let position = origin.plus(direction.scale(closest_t));
        if !in_coord_range(position) {
            return scene.background_color;
        }
        let normal = position.minus(sphere.center).normalize();
        let view = direction.negate();
        let intensity = compute_lighting(position, normal, view, sphere.specular, scene);
        let local_color = sphere.color.multiply_by(intensity);

        // At the recursion limit, or for a sphere that is not reflective,
        // the local colour stands.
        if sphere.reflective <= 0 || recursion_depth <= 0 {
            return local_color;
        }

        // Compute the reflected colour.
        let reflected_ray = reflect_ray(view, normal);
        if !in_coord_range(reflected_ray) {
            return local_color;
        }
        let reflected_color = trace_ray(
            position,
            reflected_ray,
            TRACE_EPSILON,
            T_FAR,
            recursion_depth - 1,
            scene,
        );
        proof {
            lemma_trace_bnd(
                *scene,
                position@,
                reflected_ray@,
                TRACE_EPSILON as int,
                T_FAR as int,
                (recursion_depth - 1) as nat,
            );
            crate::color::lemma_cmul3_bnd(
                sphere.color@,
                intensity as int,
                COLOR_LIMIT as int,
                131072000000,
            );
            assert((COLOR_LIMIT as int) * 131072000000int == 70368744177664000000int)
                by (nonlinear_arith);
            assert(70368744177664000000int / 10000int == 7036874417766400int);
            crate::color::lemma_cmul3_bnd(
                local_color@,
                (SCALE - sphere.reflective) as int,
                7036874417766400,
                SCALE as int,
            );
            crate::color::lemma_cmul3_bnd(
                reflected_color@,
                sphere.reflective as int,
                7036874417766400,
                SCALE as int,
            );
            assert(7036874417766400int * (SCALE as int) == 70368744177664000000int)
                by (nonlinear_arith);
        }
        local_color.multiply_by(SCALE - sphere.reflective).add(
            &reflected_color.multiply_by(sphere.reflective),
        )
    } else {
        scene.background_color
    }
}

} // verus!
