//! Small graphics records: window sizes, material descriptions, quad groups,
//! and values that are set up later than they are declared.
use vstd::prelude::*;

verus! {

/// The size of a window in pixels.
#[derive(Clone, Copy, Debug, PartialEq, Eq, Structural)]
pub struct WindowSize {
    pub width: u32,
    pub height: u32,
}

/// A run of quads drawn with one global uniform.
#[derive(Clone, Copy, Debug, PartialEq, Eq, Structural)]
pub struct QuadGroup {
    pub start_quad: u64,
    pub end_quad: u64,
    pub global_uniform: u64,
}

/// The textures of a material, by identifier.
#[derive(Clone, Debug)]
pub struct MaterialDescriptor {
    pub albedo_map: String,
    pub normal_map: Option<String>,
    pub emission_map: Option<String>,
}

impl Default for MaterialDescriptor {
    fn default() -> (m: Self)
        ensures
            m.albedo_map@ == "albedo_texture"@,
            m.normal_map is None,
            m.emission_map is None,
    {
        MaterialDescriptor { albedo_map: String::from_str("albedo_texture"), normal_map: None, emission_map: None }
    }
}

/// A value that is set up after its owner is created.
pub enum MaybeUninitialized<T> {
    Initialized(T),
    Uninitialized,
}

impl<T> MaybeUninitialized<T> {
    /// The value, which must have been set up.
    pub fn assume_initialized(&self) -> (v: &T)
        requires
            *self is Initialized,
        ensures
            *self == MaybeUninitialized::Initialized(*v),
    {
        match self {
            MaybeUninitialized::Initialized(value) => value,
            MaybeUninitialized::Uninitialized => {
                assert(false);
                unreached()
            },
        }
    }

    /// The value, for change, which must have been set up.
    pub fn assume_initialized_mut(&mut self) -> (v: &mut T)
        requires
            *old(self) is Initialized,
        ensures
            *old(self) == MaybeUninitialized::Initialized(*v),
            *final(self) == MaybeUninitialized::Initialized(*final(v)),
    {
        match self {
            MaybeUninitialized::Initialized(value) => value,
            MaybeUninitialized::Uninitialized => {
                assert(false);
                unreached()
            },
        }
    }
}

/// The prefix of the identifier given to a texture loaded on the GPU.
pub fn create_wgpu_texture_identifier(texture_identifier: &str) -> (s: String)
    ensures
        s@ == "wgputexture_"@ + texture_identifier@,
{
    let prefix = String::from_str("wgputexture_");
    prefix.concat(texture_identifier)
}

} // verus!
