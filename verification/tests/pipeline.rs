//! Tests of the ray-tracing pipeline: intersection, the closest-hit
//! query, shading with shadows, recursive reflection, and whole frames.

use raytracer::color::Rgb;
use raytracer::fixed::{SCALE, T_FAR};
use raytracer::framebuffer::FrameBuffer;
use raytracer::render::render_frame;
use raytracer::scene::{
    create_scene, AmbientLightEntity, DirectionalLightEntity, LightType, PointLightEntity, Scene,
    SceneEntity, SphereEntity,
};
use raytracer::tracer::{
    closest_intersection, compute_lighting, intersect_ray_sphere, trace_ray, RECURSION_LIMIT,
};
use raytracer::vec3::Vec3;

const S: i128 = SCALE;

fn plain_sphere(cx: i128, cy: i128, cz: i128, radius: i128, color: Rgb) -> SphereEntity {
    SphereEntity { center: Vec3::new(cx, cy, cz), radius, color, specular: -1, reflective: 0 }
}

fn scene_of(background: Rgb, entities: Vec<SceneEntity>) -> Scene {
    Scene { background_color: background, entities }
}

#[test]
fn intersect_two_roots_exact() {
    let s = plain_sphere(0, 0, 3 * S, S, Rgb::from_ints(255, 0, 0));
    let (t1, t2) = intersect_ray_sphere(Vec3::new(0, 0, 0), Vec3::new(0, 0, S), &s);
    assert_eq!((t1, t2), (4 * S, 2 * S));
}

#[test]
fn intersect_tangent_equal_roots() {
    let s = plain_sphere(0, S, 3 * S, S, Rgb::from_ints(255, 0, 0));
    let (t1, t2) = intersect_ray_sphere(Vec3::new(0, 0, 0), Vec3::new(0, 0, S), &s);
    assert_eq!(t1, t2);
    assert_eq!(t1, 3 * S);
}

#[test]
fn intersect_miss_gives_sentinel() {
    let s = plain_sphere(0, 3 * S, 3 * S, S, Rgb::from_ints(255, 0, 0));
    let (t1, t2) = intersect_ray_sphere(Vec3::new(0, 0, 0), Vec3::new(0, 0, S), &s);
    assert_eq!((t1, t2), (T_FAR, T_FAR));
}

#[test]
fn closest_picks_minimum_root() {
    let near = plain_sphere(0, 0, 3 * S, S, Rgb::from_ints(255, 0, 0));
    let far = plain_sphere(0, 0, 6 * S, S, Rgb::from_ints(0, 0, 255));
    let scene = scene_of(
        Rgb::from_ints(0, 0, 0),
        vec![SceneEntity::Sphere(near), SceneEntity::Sphere(far)],
    );
    let (hit, t) = closest_intersection(Vec3::new(0, 0, 0), Vec3::new(0, 0, S), S, T_FAR, &scene);
    assert_eq!(hit, Some(near));
    assert_eq!(t, 2 * S);
}

#[test]
fn closest_entity_order_does_not_change_distance() {
    let near = plain_sphere(0, 0, 3 * S, S, Rgb::from_ints(255, 0, 0));
    let far = plain_sphere(0, 0, 6 * S, S, Rgb::from_ints(0, 0, 255));
    let swapped = scene_of(
        Rgb::from_ints(0, 0, 0),
        vec![SceneEntity::Sphere(far), SceneEntity::Sphere(near)],
    );
    let (hit, t) = closest_intersection(Vec3::new(0, 0, 0), Vec3::new(0, 0, S), S, T_FAR, &swapped);
    assert_eq!(hit, Some(near));
    assert_eq!(t, 2 * S);
}

#[test]
fn closest_reports_none_on_miss() {
    let s = plain_sphere(0, 3 * S, 3 * S, S, Rgb::from_ints(255, 0, 0));
    let scene = scene_of(Rgb::from_ints(0, 0, 0), vec![SceneEntity::Sphere(s)]);
    let (hit, t) = closest_intersection(Vec3::new(0, 0, 0), Vec3::new(0, 0, S), S, T_FAR, &scene);
    assert_eq!(hit, None);
    assert_eq!(t, T_FAR);
}

#[test]
fn trace_away_ray_returns_background() {
    let background = Rgb::from_ints(10, 20, 30);
    let s = plain_sphere(0, 0, 3 * S, S, Rgb::from_ints(255, 0, 0));
    let scene = scene_of(background, vec![SceneEntity::Sphere(s)]);
    let c = trace_ray(Vec3::new(0, 0, 0), Vec3::new(0, 0, -S), S, T_FAR, RECURSION_LIMIT, &scene);
    assert_eq!(c, background);
}

#[test]
fn single_sphere_ambient_trace_is_color_times_intensity() {
    // One sphere at the centre of view, one ambient light of intensity
    // 0.2: the traced colour is exactly red * 0.2.
    let s = plain_sphere(0, 0, 3 * S, S, Rgb::from_ints(255, 0, 0));
    let scene = scene_of(
        Rgb::from_ints(0, 0, 0),
        vec![
            SceneEntity::Sphere(s),
            SceneEntity::Light(LightType::Ambient(AmbientLightEntity { intensity: 2000 })),
        ],
    );
    let (hit, _) = closest_intersection(Vec3::new(0, 0, 0), Vec3::new(0, 0, S), S, T_FAR, &scene);
    assert_eq!(hit, Some(s));
    let c = trace_ray(Vec3::new(0, 0, 0), Vec3::new(0, 0, S), S, T_FAR, RECURSION_LIMIT, &scene);
    assert_eq!(c, Rgb { red: 51 * S, green: 0, blue: 0 });
}

#[test]
fn blocked_point_light_leaves_only_ambient() {
    // The point light sits behind the sphere relative to the lit surface
    // point, so its shadow ray is blocked and only the ambient term
    // remains.
    let s = plain_sphere(0, 0, 3 * S, S, Rgb::from_ints(255, 0, 0));
    let scene = scene_of(
        Rgb::from_ints(0, 0, 0),
        vec![
            SceneEntity::Sphere(s),
            SceneEntity::Light(LightType::Ambient(AmbientLightEntity { intensity: 2000 })),
            SceneEntity::Light(
                LightType::Point(PointLightEntity {
                    intensity: 6000,
                    position: Vec3::new(0, 0, 6 * S),
                }),
            ),
        ],
    );
    let c = trace_ray(Vec3::new(0, 0, 0), Vec3::new(0, 0, S), S, T_FAR, RECURSION_LIMIT, &scene);
    assert_eq!(c, Rgb { red: 51 * S, green: 0, blue: 0 });
}

#[test]
fn unblocked_point_light_adds_diffuse() {
    // The same scene with the light in front of the sphere: the diffuse
    // term fires at full strength (the normal points straight at the
    // light), so the intensity is 0.2 + 0.6.
    let s = plain_sphere(0, 0, 3 * S, S, Rgb::from_ints(255, 0, 0));
    let scene = scene_of(
        Rgb::from_ints(0, 0, 0),
        vec![
            SceneEntity::Sphere(s),
            SceneEntity::Light(LightType::Ambient(AmbientLightEntity { intensity: 2000 })),
            SceneEntity::Light(
                LightType::Point(PointLightEntity {
                    intensity: 6000,
                    position: Vec3::new(0, 0, 0),
                }),
            ),
        ],
    );
    let c = trace_ray(Vec3::new(0, 0, 0), Vec3::new(0, 0, S), S, T_FAR, RECURSION_LIMIT, &scene);
    assert_eq!(c, Rgb { red: 204 * S, green: 0, blue: 0 });
}

#[test]
fn directional_light_adds_diffuse() {
    let s = plain_sphere(0, 0, 3 * S, S, Rgb::from_ints(255, 0, 0));
    let scene = scene_of(
        Rgb::from_ints(0, 0, 0),
        vec![
            SceneEntity::Sphere(s),
            SceneEntity::Light(
                LightType::Directional(DirectionalLightEntity {
                    intensity: 2000,
                    direction: Vec3::new(0, 0, -S),
                }),
            ),
        ],
    );
    let c = trace_ray(Vec3::new(0, 0, 0), Vec3::new(0, 0, S), S, T_FAR, RECURSION_LIMIT, &scene);
    assert_eq!(c, Rgb { red: 51 * S, green: 0, blue: 0 });
}

#[test]
fn specular_exponent_one_adds_highlight() {
    let mut s = plain_sphere(0, 0, 3 * S, S, Rgb::from_ints(255, 0, 0));
    s.specular = 1;
    let scene = scene_of(
        Rgb::from_ints(0, 0, 0),
        vec![
            SceneEntity::Sphere(s),
            SceneEntity::Light(
                LightType::Point(PointLightEntity {
                    intensity: 6000,
                    position: Vec3::new(0, 0, 0),
                }),
            ),
        ],
    );
    // Head-on geometry: both the diffuse and the specular cosine are one,
    // so the intensity is 0.6 + 0.6.
    let c = trace_ray(Vec3::new(0, 0, 0), Vec3::new(0, 0, S), S, T_FAR, RECURSION_LIMIT, &scene);
    assert_eq!(c, Rgb { red: 306 * S, green: 0, blue: 0 });
}

#[test]
fn compute_lighting_sums_ambient_lights() {
    let scene = scene_of(
        Rgb::from_ints(0, 0, 0),
        vec![
            SceneEntity::Light(LightType::Ambient(AmbientLightEntity { intensity: 2000 })),
            SceneEntity::Light(LightType::Ambient(AmbientLightEntity { intensity: 300 })),
        ],
    );
    let i = compute_lighting(
        Vec3::new(0, 0, 2 * S),
        Vec3::new(0, 0, -S),
        Vec3::new(0, 0, -S),
        -1,
        &scene,
    );
    assert_eq!(i, 2300);
}

#[test]
fn budget_zero_never_bounces() {
    // A perfectly mirrored sphere in front of a bright backdrop sphere:
    // with budget zero the mirror's own (black) local colour stands; any
    // budget above zero blends the backdrop in.
    let mut mirror = plain_sphere(0, 0, 3 * S, S, Rgb::from_ints(0, 0, 0));
    mirror.reflective = S;
    let backdrop = plain_sphere(0, 0, -4 * S, S, Rgb::from_ints(0, 255, 0));
    let scene = scene_of(
        Rgb::from_ints(0, 0, 255),
        vec![
            SceneEntity::Sphere(mirror),
            SceneEntity::Sphere(backdrop),
            SceneEntity::Light(LightType::Ambient(AmbientLightEntity { intensity: S })),
        ],
    );
    let origin = Vec3::new(0, 0, 0);
    let dir = Vec3::new(0, 0, S);
    let no_bounce = trace_ray(origin, dir, S, T_FAR, 0, &scene);
    assert_eq!(no_bounce, Rgb { red: 0, green: 0, blue: 0 });
    let bounced = trace_ray(origin, dir, S, T_FAR, 1, &scene);
    assert_eq!(bounced, Rgb { red: 0, green: 255 * S, blue: 0 });
}

#[test]
fn budget_is_irrelevant_without_reflective_spheres() {
    let s = plain_sphere(0, 0, 3 * S, S, Rgb::from_ints(255, 0, 0));
    let scene = scene_of(
        Rgb::from_ints(0, 0, 0),
        vec![
            SceneEntity::Sphere(s),
            SceneEntity::Light(LightType::Ambient(AmbientLightEntity { intensity: 2000 })),
            SceneEntity::Light(
                LightType::Point(PointLightEntity {
                    intensity: 6000,
                    position: Vec3::new(2 * S, S, 0),
                }),
            ),
        ],
    );
    let origin = Vec3::new(0, 0, 0);
    for x in [-40i32, 0, 25] {
        for y in [-10i32, 0, 30] {
            let dir = raytracer::render::canvas_to_viewport(x, y);
            let lo = trace_ray(origin, dir, S, T_FAR, 0, &scene);
            let hi = trace_ray(origin, dir, S, T_FAR, 7, &scene);
            assert_eq!(lo, hi);
        }
    }
}

#[test]
fn create_scene_holds_expected_entities() {
    let scene = create_scene();
    assert_eq!(scene.background_color, Rgb { red: 0, green: 0, blue: 0 });
    assert_eq!(scene.entities.len(), 7);
    assert_eq!(
        scene.entities[0],
        SceneEntity::Sphere(SphereEntity {
            center: Vec3::new(0, -S, 3 * S),
            radius: S,
            color: Rgb::from_ints(255, 0, 0),
            specular: 500,
            reflective: 2000,
        })
    );
    assert_eq!(
        scene.entities[4],
        SceneEntity::Light(LightType::Ambient(AmbientLightEntity { intensity: 2000 }))
    );
}

#[test]
fn render_frame_writes_every_pixel() {
    let s = plain_sphere(0, 0, 3 * S, S, Rgb::from_ints(255, 0, 0));
    let scene = scene_of(
        Rgb::from_ints(0, 0, 0),
        vec![
            SceneEntity::Sphere(s),
            SceneEntity::Light(LightType::Ambient(AmbientLightEntity { intensity: 2000 })),
        ],
    );
    let mut fb = FrameBuffer::new(400, 400);
    render_frame(&mut fb, &scene, Vec3::new(0, 0, 0));
    // The centre pixel sees the sphere: red * 0.2 packs to 0x330000.
    assert_eq!(fb.pixel_word(200, 199), 0x330000);
    // A corner ray misses everything: background black.
    assert_eq!(fb.pixel_word(0, 0), 0);
    assert_eq!(fb.pixel_word(399, 399), 0);
}
