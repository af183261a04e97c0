//! The closed set of surface shaders and the planets that use them.
//!
//! A shader is a tag here: what it computes for a vertex or a pixel is
//! numeric work on real-valued vectors and is supplied by the program that
//! renders. This module fixes which shaders exist, which shader a planet
//! has, and which companions (rings, a moon) are drawn with it.

use vstd::prelude::*;

verus! {

/// Ridged mountains, craters and mineral veins.
#[derive(Clone, Copy, Debug, PartialEq, Eq, Structural)]
pub struct RockyPlanetShader;

/// Bands, turbulence, a moving storm and lightning.
#[derive(Clone, Copy, Debug, PartialEq, Eq, Structural)]
pub struct GasGiantShader;

/// Facets, rim light and pulsing veins.
#[derive(Clone, Copy, Debug, PartialEq, Eq, Structural)]
pub struct CrystalPlanetShader;

/// A temperature field with flicker and glowing cracks.
#[derive(Clone, Copy, Debug, PartialEq, Eq, Structural)]
pub struct LavaPlanetShader;

/// Concentric rings with gaps and sparkle.
#[derive(Clone, Copy, Debug, PartialEq, Eq, Structural)]
pub struct RingShader;

/// A cratered moon on its own orbit.
#[derive(Clone, Copy, Debug, PartialEq, Eq, Structural)]
pub struct MoonShader;

/// One of the six shaders.
#[derive(Clone, Copy, Debug, PartialEq, Eq, Structural)]
pub enum Shader {
    Rocky(RockyPlanetShader),
    GasGiant(GasGiantShader),
    Crystal(CrystalPlanetShader),
    Lava(LavaPlanetShader),
    Ring(RingShader),
    Moon(MoonShader),
}

/// The four planets that can be shown.
#[derive(Clone, Copy, Debug, PartialEq, Eq, Structural)]
pub enum PlanetType {
    Rocky,
    GasGiant,
    Crystal,
    Lava,
}

impl PlanetType {
    /// The shader of the planet's surface, as a specification value.
    pub open spec fn spec_shader(self) -> Shader {
        match self {
            PlanetType::Rocky => Shader::Rocky(RockyPlanetShader),
            PlanetType::GasGiant => Shader::GasGiant(GasGiantShader),
            PlanetType::Crystal => Shader::Crystal(CrystalPlanetShader),
            PlanetType::Lava => Shader::Lava(LavaPlanetShader),
        }
    }

    /// The planet that key `1` to `4` selects, as a specification value.
    pub open spec fn spec_from_key(key: u8) -> Option<PlanetType> {
        if key == 1 {
            Some(PlanetType::Rocky)
        } else if key == 2 {
            Some(PlanetType::GasGiant)
        } else if key == 3 {
            Some(PlanetType::Crystal)
        } else if key == 4 {
            Some(PlanetType::Lava)
        } else {
            None
        }
    }

    /// The position of the planet in the list of planets.
    pub open spec fn spec_index(self) -> usize {
        match self {
            PlanetType::Rocky => 0,
            PlanetType::GasGiant => 1,
            PlanetType::Crystal => 2,
            PlanetType::Lava => 3,
        }
    }

    /// The shader of the planet's surface.
    pub fn shader(&self) -> (s: Shader)
        ensures
            s == self.spec_shader(),
    {
        match self {
            PlanetType::Rocky => Shader::Rocky(RockyPlanetShader),
            PlanetType::GasGiant => Shader::GasGiant(GasGiantShader),
            PlanetType::Crystal => Shader::Crystal(CrystalPlanetShader),
            PlanetType::Lava => Shader::Lava(LavaPlanetShader),
        }
    }

    /// Whether rings are drawn round the planet: round the gas giant and the
    /// crystal planet.
    pub fn has_rings(&self) -> (r: bool)
        ensures
            r == (*self == PlanetType::GasGiant || *self == PlanetType::Crystal),
    {
        match self {
            PlanetType::GasGiant => true,
            PlanetType::Crystal => true,
            _ => false,
        }
    }

    /// Whether a moon is drawn with the planet: with the rocky planet only.
    pub fn has_moon(&self) -> (m: bool)
        ensures
            m == (*self == PlanetType::Rocky),
    {
        match self {
            PlanetType::Rocky => true,
            _ => false,
        }
    }

    /// The planet that the number key `key` selects: `1` to `4` select the
    /// four planets in order, any other key selects none.
    pub fn from_key(key: u8) -> (p: Option<PlanetType>)
        ensures
            p == PlanetType::spec_from_key(key),
    {
        if key == 1 {
            Some(PlanetType::Rocky)
        } else if key == 2 {
            Some(PlanetType::GasGiant)
        } else if key == 3 {
            Some(PlanetType::Crystal)
        } else if key == 4 {
            Some(PlanetType::Lava)
        } else {
            None
        }
    }

    /// The position of the planet in the list of planets, from 0.
    pub fn index(&self) -> (i: usize)
        ensures
            i == self.spec_index(),
            i < 4,
    {
        match self {
            PlanetType::Rocky => 0,
            PlanetType::GasGiant => 1,
            PlanetType::Crystal => 2,
            PlanetType::Lava => 3,
        }
    }
}

/// The keys `1` to `4` select a planet and no other key does; key `k`
/// selects the planet at position `k - 1`.
pub proof fn lemma_key_selects_position(key: u8)
    ensures
        PlanetType::spec_from_key(key).is_some() <==> 1 <= key <= 4,
        PlanetType::spec_from_key(key).is_some() ==> PlanetType::spec_from_key(
            key,
        ).unwrap().spec_index() == key - 1,
{
}

} // verus!
