//! What entities are made of.
use std::sync::Arc;
use vstd::prelude::*;
use crate::scalar::{clamped, ratio, Scalar};
use crate::vectors::{Vec2, Vec3, Vec4};

verus! {

/// Where an entity lies in the plane, relative to its parent.
#[derive(Clone, Copy)]
pub struct Transform<S> {
    pub translation: Vec2<S>,
    pub rotation: S,
    pub scale: Vec2<S>,
}

impl<S: Scalar> Transform<S> {
    pub open spec fn rest() -> Self {
        Transform {
            translation: Vec2::zero_spec(),
            rotation: S::zero_spec(),
            scale: Vec2::both(S::one_spec()),
        }
    }

    pub fn default() -> (r: Self)
        ensures
            r == Self::rest(),
    {
        let one = S::one();
        Transform { translation: Vec2::zero(), rotation: S::zero(), scale: Vec2 { x: one, y: one } }
    }
}

/// Where an entity lies in space; the rotation is a quaternion.
#[derive(Clone, Copy)]
pub struct Transform3D<S> {
    pub translation: Vec3<S>,
    pub rotation: Vec4<S>,
    pub scale: Vec3<S>,
}

impl<S: Scalar> Transform3D<S> {
    /// At a place, not turned and not scaled.
    pub open spec fn placed(translation: Vec3<S>) -> Self {
        let zero = S::zero_spec();
        let one = S::one_spec();
        Transform3D {
            translation,
            rotation: Vec4 { x: zero, y: zero, z: zero, w: one },
            scale: Vec3 { x: one, y: one, z: one },
        }
    }

    pub fn at(translation: Vec3<S>) -> (r: Self)
        ensures
            r == Self::placed(translation),
    {
        let zero = S::zero();
        let one = S::one();
        Transform3D {
            translation,
            rotation: Vec4 { x: zero, y: zero, z: zero, w: one },
            scale: Vec3 { x: one, y: one, z: one },
        }
    }
}

#[derive(Clone, Copy)]
pub struct OrbitController<S> {
    pub center: Vec2<S>,
    pub angular_speed: S,
}

#[derive(Clone, Copy)]
pub struct ParticleTrail<S> {
    pub length_scale: S,
    pub min_length: S,
    pub max_length: S,
    pub width: S,
    pub fade: S,
}

pub struct ParticleEmitter<S> {
    pub rate: S,
    pub spread: S,
    pub speed: S,
    pub lifetime: S,
    pub accumulator: S,
    pub start_color: Vec4<S>,
    pub end_color: Vec4<S>,
    pub start_size: S,
    pub end_size: S,
    pub atlas: Arc<String>,
    pub region: Arc<String>,
    pub source: Option<Arc<String>>,
    pub trail: Option<ParticleTrail<S>>,
}

impl<S: Scalar> ParticleEmitter<S> {
    pub fn set_emitter_rate(&mut self, rate: S)
        ensures
            *final(self) == (ParticleEmitter { rate: rate.larger_spec(S::zero_spec()), ..*old(self) }),
    {
        self.rate = rate.larger(S::zero());
    }

    /// `half_turn` is the widest spread.
    pub fn set_emitter_spread(&mut self, spread: S, half_turn: S)
        ensures
            *final(self) == (ParticleEmitter {
                spread: crate::scalar::clamped_spec(spread, S::zero_spec(), half_turn),
                ..*old(self)
            }),
    {
        self.spread = clamped(spread, S::zero(), half_turn);
    }

    pub fn set_emitter_speed(&mut self, speed: S)
        ensures
            *final(self) == (ParticleEmitter {
                speed: speed.larger_spec(S::zero_spec()),
                ..*old(self)
            }),
    {
        self.speed = speed.larger(S::zero());
    }

    pub fn set_emitter_lifetime(&mut self, lifetime: S)
        ensures
            *final(self) == (ParticleEmitter {
                lifetime: lifetime.larger_spec(crate::scalar::ratio_spec(5, 100)),
                ..*old(self)
            }),
    {
        self.lifetime = lifetime.larger(ratio(5, 100));
    }

    pub fn set_emitter_colors(&mut self, start: Vec4<S>, end: Vec4<S>)
        ensures
            *final(self) == (ParticleEmitter { start_color: start, end_color: end, ..*old(self) }),
    {
        self.start_color = start;
        self.end_color = end;
    }

    pub fn set_emitter_sizes(&mut self, start: S, end: S)
        ensures
            *final(self) == (ParticleEmitter {
                start_size: start.larger_spec(crate::scalar::ratio_spec(1, 100)),
                end_size: end.larger_spec(crate::scalar::ratio_spec(1, 100)),
                ..*old(self)
            }),
    {
        self.start_size = start.larger(ratio(1, 100));
        self.end_size = end.larger(ratio(1, 100));
    }
}

/// What of an emitter an editor shows.
#[derive(Clone, Copy)]
pub struct EmitterSnapshot<S> {
    pub rate: S,
    pub spread: S,
    pub speed: S,
    pub lifetime: S,
    pub start_color: Vec4<S>,
    pub end_color: Vec4<S>,
    pub start_size: S,
    pub end_size: S,
}

impl<S: Scalar> ParticleEmitter<S> {
    pub open spec fn shown(self) -> EmitterSnapshot<S> {
        EmitterSnapshot {
            rate: self.rate,
            spread: self.spread,
            speed: self.speed,
            lifetime: self.lifetime,
            start_color: self.start_color,
            end_color: self.end_color,
            start_size: self.start_size,
            end_size: self.end_size,
        }
    }

    pub fn emitter_snapshot(&self) -> (r: EmitterSnapshot<S>)
        ensures
            r == self.shown(),
    {
        EmitterSnapshot {
            rate: self.rate,
            spread: self.spread,
            speed: self.speed,
            lifetime: self.lifetime,
            start_color: self.start_color,
            end_color: self.end_color,
            start_size: self.start_size,
            end_size: self.end_size,
        }
    }
}

#[derive(Clone, Copy)]
pub struct Particle<S> {
    pub lifetime: S,
    pub max_lifetime: S,
}

#[derive(Clone, Copy)]
pub struct ParticleVisual<S> {
    pub start_color: Vec4<S>,
    pub end_color: Vec4<S>,
    pub start_size: S,
    pub end_size: S,
}

/// How a mesh takes part in lighting.
#[derive(Clone, Copy)]
pub struct MeshLighting<S> {
    pub cast_shadows: bool,
    pub receive_shadows: bool,
    pub base_color: Vec3<S>,
    pub emissive: Option<Vec3<S>>,
    pub metallic: S,
    pub roughness: S,
}

impl<S: Scalar> MeshLighting<S> {
    pub open spec fn plain() -> Self {
        MeshLighting {
            cast_shadows: false,
            receive_shadows: true,
            base_color: Vec3 { x: S::one_spec(), y: S::one_spec(), z: S::one_spec() },
            emissive: None,
            metallic: S::zero_spec(),
            roughness: crate::scalar::ratio_spec(1, 2),
        }
    }

    pub fn default() -> (r: Self)
        ensures
            r == Self::plain(),
    {
        let one = S::one();
        MeshLighting {
            cast_shadows: false,
            receive_shadows: true,
            base_color: Vec3 { x: one, y: one, z: one },
            emissive: None,
            metallic: S::zero(),
            roughness: ratio(1, 2),
        }
    }
}

pub struct MeshSurface<S> {
    pub material: Option<String>,
    pub lighting: MeshLighting<S>,
}

impl<S: Scalar> MeshSurface<S> {
    pub fn set_mesh_material(&mut self, material: Option<String>)
        ensures
            *final(self) == (MeshSurface { material, ..*old(self) }),
    {
        self.material = material;
    }

    pub fn set_mesh_shadow_flags(&mut self, cast: bool, receive: bool)
        ensures
            *final(self) == (MeshSurface {
                lighting: MeshLighting {
                    cast_shadows: cast,
                    receive_shadows: receive,
                    ..old(self).lighting
                },
                ..*old(self)
            }),
    {
        self.lighting.cast_shadows = cast;
        self.lighting.receive_shadows = receive;
    }

    /// Colours and factors are held within their ranges; a roughness of zero is not allowed.
    pub fn set_mesh_material_params(
        &mut self,
        base_color: Vec3<S>,
        metallic: S,
        roughness: S,
        emissive: Option<Vec3<S>>,
    )
        ensures
            ({
                let zero = Vec3::<S>::zero_spec();
                let one = S::one_spec();
                *final(self) == (MeshSurface {
                    lighting: MeshLighting {
                        base_color: base_color.larger_spec(zero).smaller_spec(
                            Vec3 { x: one, y: one, z: one },
                        ),
                        metallic: crate::scalar::clamped_spec(metallic, S::zero_spec(), one),
                        roughness: crate::scalar::clamped_spec(
                            roughness,
                            crate::scalar::ratio_spec(4, 100),
                            one,
                        ),
                        emissive,
                        ..old(self).lighting
                    },
                    ..*old(self)
                })
            }),
    {
        let one = S::one();
        self.lighting.base_color =
        base_color.larger(Vec3::zero()).smaller(Vec3 { x: one, y: one, z: one });
        self.lighting.metallic = clamped(metallic, S::zero(), one);
        self.lighting.roughness = clamped(roughness, ratio(4, 100), one);
        self.lighting.emissive = emissive;
    }
}

} // verus!
