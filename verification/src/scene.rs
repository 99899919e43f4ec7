//! Scene data: spheres, lights, and the scene container.
//!
//! A scene is a background colour plus an ordered sequence of entities.
//! The order carries no meaning for the rendered result, except that ties
//! between equally close intersections go to the entity scanned first.
//! `wf_scene` states the representation bounds every renderer entry point
//! assumes of a scene.

use vstd::prelude::*;
use crate::color::{cbnd, Rgb, C3};
use crate::fixed::{COLOR_LIMIT, COORD_LIMIT, INTENSITY_LIMIT, SCALE};
use crate::vec3::{bnd3, Vec3, V3};

verus! {

/// Most entities a scene may hold.
pub const MAX_ENTITIES: usize = 65_536;

/// A sphere: centre, radius, surface colour, specular exponent (-1 turns
/// the specular highlight off) and reflectiveness (0 fully diffuse,
/// `SCALE` a perfect mirror).
#[derive(Clone, Copy, Debug, PartialEq, Eq, Structural)]
pub struct SphereEntity {
    pub center: Vec3,
    pub radius: i128,
    pub color: Rgb,
    pub specular: i32,
    pub reflective: i128,
}

/// An ambient light: illuminates every point equally.
#[derive(Clone, Copy, Debug, PartialEq, Eq, Structural)]
pub struct AmbientLightEntity {
    pub intensity: i128,
}

/// A point light at a position in the world.
#[derive(Clone, Copy, Debug, PartialEq, Eq, Structural)]
pub struct PointLightEntity {
    pub intensity: i128,
    pub position: Vec3,
}

/// A directional light: parallel rays along a fixed direction.
#[derive(Clone, Copy, Debug, PartialEq, Eq, Structural)]
pub struct DirectionalLightEntity {
    pub intensity: i128,
    pub direction: Vec3,
}

/// The three mutually exclusive kinds of light.
#[derive(Clone, Copy, Debug, PartialEq, Eq, Structural)]
pub enum LightType {
    Ambient(AmbientLightEntity),
    Point(PointLightEntity),
    Directional(DirectionalLightEntity),
}

/// A scene entity is a sphere or a light.
#[derive(Clone, Copy, Debug, PartialEq, Eq, Structural)]
pub enum SceneEntity {
    Sphere(SphereEntity),
    Light(LightType),
}

/// A scene: background colour plus entities; immutable during a render
/// pass.
#[derive(Clone, Debug)]
pub struct Scene {
    pub background_color: Rgb,
    pub entities: Vec<SceneEntity>,
}

/// Representation bounds of a sphere.
pub open spec fn wf_sphere(s: SphereEntity) -> bool {
    &&& bnd3(s.center@, COORD_LIMIT as int)
    &&& 0 < s.radius <= COORD_LIMIT
    &&& cbnd(s.color@, COLOR_LIMIT as int)
    &&& s.specular >= -1
    &&& 0 <= s.reflective <= SCALE
}

/// Representation bounds of a light.
pub open spec fn wf_light(l: LightType) -> bool {
    match l {
        LightType::Ambient(a) => 0 <= a.intensity <= INTENSITY_LIMIT,
        LightType::Point(p) => 0 <= p.intensity <= INTENSITY_LIMIT && bnd3(
            p.position@,
            COORD_LIMIT as int,
        ),
        LightType::Directional(d) => 0 <= d.intensity <= INTENSITY_LIMIT && bnd3(
            d.direction@,
            COORD_LIMIT as int,
        ),
    }
}

pub open spec fn wf_entity(e: SceneEntity) -> bool {
    match e {
        SceneEntity::Sphere(s) => wf_sphere(s),
        SceneEntity::Light(l) => wf_light(l),
    }
}

/// Representation bounds of a whole scene.
pub open spec fn wf_scene(s: Scene) -> bool {
    &&& cbnd(s.background_color@, COLOR_LIMIT as int)
    &&& s.entities@.len() <= MAX_ENTITIES
    &&& forall|i: int| 0 <= i < s.entities@.len() ==> wf_entity(#[trigger] s.entities@[i])
}

/// Builds the fixed demonstration scene: a red, a blue and a green sphere
/// above a large yellow floor sphere, lit by one ambient, one point and
/// one directional light.
pub fn create_scene() -> (s: Scene)
    ensures
        wf_scene(s),
        s.background_color@ == (C3 { red: 0, green: 0, blue: 0 }),
        s.entities@.len() == 7,
        s.entities@[0] == SceneEntity::Sphere(
            SphereEntity {
                center: Vec3 { x: 0, y: -10000i128, z: 30000 },
                radius: 10000,
                color: Rgb { red: 2550000, green: 0, blue: 0 },
                specular: 500,
                reflective: 2000,
            },
        ),
        s.entities@[1] == SceneEntity::Sphere(
            SphereEntity {
                center: Vec3 { x: 20000, y: 0, z: 40000 },
                radius: 10000,
                color: Rgb { red: 0, green: 0, blue: 2550000 },
                specular: 500,
                reflective: 3000,
            },
        ),
        s.entities@[2] == SceneEntity::Sphere(
            SphereEntity {
                center: Vec3 { x: -20000i128, y: 0, z: 40000 },
                radius: 10000,
                color: Rgb { red: 0, green: 2550000, blue: 0 },
                specular: 10,
                reflective: 4000,
            },
        ),
        s.entities@[3] == SceneEntity::Sphere(
            SphereEntity {
                center: Vec3 { x: 0, y: -50010000i128, z: 0 },
                radius: 50000000,
                color: Rgb { red: 2550000, green: 2550000, blue: 0 },
                specular: 0,
                reflective: 5000,
            },
        ),
        s.entities@[4] == SceneEntity::Light(
            LightType::Ambient(AmbientLightEntity { intensity: 2000 }),
        ),
        s.entities@[5] == SceneEntity::Light(
            LightType::Point(
                PointLightEntity {
                    intensity: 6000,
                    position: Vec3 { x: 20000, y: 10000, z: 0 },
                },
            ),
        ),
        s.entities@[6] == SceneEntity::Light(
            LightType::Directional(
                DirectionalLightEntity {
                    intensity: 2000,
                    direction: Vec3 { x: 10000, y: 40000, z: 40000 },
                },
            ),
        ),
{
    let mut entities: Vec<SceneEntity> = Vec::new();
    entities.push(
        SceneEntity::Sphere(
            SphereEntity {
                center: Vec3 { x: 0, y: -10000, z: 30000 },
                radius: 10000,
                color: Rgb::from_ints(255, 0, 0),
                specular: 500,
                reflective: 2000,
            },
        ),
    );
    entities.push(
        SceneEntity::Sphere(
            SphereEntity {
                center: Vec3 { x: 20000, y: 0, z: 40000 },
                radius: 10000,
                color: Rgb::from_ints(0, 0, 255),
                specular: 500,
                reflective: 3000,
            },
        ),
    );
    entities.push(
        SceneEntity::Sphere(
            SphereEntity {
                center: Vec3 { x: -20000, y: 0, z: 40000 },
                radius: 10000,
                color: Rgb::from_ints(0, 255, 0),
                specular: 10,
                reflective: 4000,
            },
        ),
    );
    entities.push(
        SceneEntity::Sphere(
            SphereEntity {
                center: Vec3 { x: 0, y: -50010000, z: 0 },
                radius: 50000000,
                color: Rgb::from_ints(255, 255, 0),
                specular: 0,
                reflective: 5000,
            },
        ),
    );
    entities.push(SceneEntity::Light(LightType::Ambient(AmbientLightEntity { intensity: 2000 })));
    entities.push(
        SceneEntity::Light(
            LightType::Point(
                PointLightEntity {
                    intensity: 6000,
                    position: Vec3 { x: 20000, y: 10000, z: 0 },
                },
            ),
        ),
    );
    entities.push(
        SceneEntity::Light(
            LightType::Directional(
                DirectionalLightEntity {
                    intensity: 2000,
                    direction: Vec3 { x: 10000, y: 40000, z: 40000 },
                },
            ),
        ),
    );
    Scene { background_color: Rgb::from_ints(0, 0, 0), entities }
}

} // verus!
