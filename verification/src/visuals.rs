//! The registry of subject effects and the discrete settings of the
//! ambient light stage. Rendering itself is floating-point work outside
//! this library.

use vstd::prelude::*;

verus! {

/// Maximum number of independently positioned light sources.
pub const MAX_LIGHT_SOURCES: usize = 4;

/// Number of built-in subject effects.
pub const PRESET_COUNT: usize = 11;

/// Rendering strategy of a subject effect.
#[derive(Debug, Clone, Copy, PartialEq, Eq, Structural)]
pub enum VisualKind {
    ParticleVeil,
    PulseTunnel,
    OrbitalCore,
    SpectralVoid,
    VinylHalo,
    StarRiver,
    PrismRibbons,
    LuminousBloom,
    RippleField,
    ParticleTerrain,
    CoverRelief,
}

/// The rendering strategy of effect `index` (`index < 11`).
pub open spec fn preset_kind_spec(index: int) -> VisualKind {
    if index == 0 {
        VisualKind::ParticleVeil
    } else if index == 1 {
        VisualKind::PulseTunnel
    } else if index == 2 {
        VisualKind::OrbitalCore
    } else if index == 3 {
        VisualKind::SpectralVoid
    } else if index == 4 {
        VisualKind::VinylHalo
    } else if index == 5 {
        VisualKind::StarRiver
    } else if index == 6 {
        VisualKind::PrismRibbons
    } else if index == 7 {
        VisualKind::LuminousBloom
    } else if index == 8 {
        VisualKind::RippleField
    } else if index == 9 {
        VisualKind::ParticleTerrain
    } else {
        VisualKind::CoverRelief
    }
}

/// The accent colour of effect `index` (`index < 11`).
pub open spec fn preset_accent_spec(index: int) -> [u8; 3] {
    if index == 0 {
        [112, 246, 218]
    } else if index == 1 {
        [255, 92, 112]
    } else if index == 2 {
        [104, 205, 255]
    } else if index == 3 {
        [174, 111, 255]
    } else if index == 4 {
        [244, 210, 138]
    } else if index == 5 {
        [125, 232, 203]
    } else if index == 6 {
        [255, 111, 199]
    } else if index == 7 {
        [255, 183, 92]
    } else if index == 8 {
        [155, 184, 207]
    } else if index == 9 {
        [244, 142, 75]
    } else {
        [244, 210, 138]
    }
}

/// The secondary colour of effect `index` (`index < 11`).
pub open spec fn preset_secondary_spec(index: int) -> [u8; 3] {
    if index == 0 {
        [108, 149, 255]
    } else if index == 1 {
        [244, 210, 138]
    } else if index == 2 {
        [139, 109, 255]
    } else if index == 3 {
        [72, 218, 255]
    } else if index == 4 {
        [255, 126, 91]
    } else if index == 5 {
        [126, 151, 255]
    } else if index == 6 {
        [89, 214, 255]
    } else if index == 7 {
        [164, 116, 255]
    } else if index == 8 {
        [111, 231, 255]
    } else if index == 9 {
        [57, 128, 232]
    } else {
        [104, 205, 255]
    }
}

/// The kind and colours of one built-in subject effect.
#[derive(Debug, Clone, Copy, PartialEq, Eq)]
pub struct PresetColors {
    pub kind: VisualKind,
    pub accent: [u8; 3],
    pub secondary: [u8; 3],
}

/// The registry entry of effect `index`, counted modulo the number of
/// effects (as every selection of an effect is).
pub fn preset(index: usize) -> (entry: PresetColors)
    ensures
        entry.kind == preset_kind_spec((index % PRESET_COUNT) as int),
        entry.accent == preset_accent_spec((index % PRESET_COUNT) as int),
        entry.secondary == preset_secondary_spec((index % PRESET_COUNT) as int),
{
    let i = index % PRESET_COUNT;
    if i == 0 {
        PresetColors { kind: VisualKind::ParticleVeil, accent: [112, 246, 218], secondary: [108, 149, 255] }
    } else if i == 1 {
        PresetColors { kind: VisualKind::PulseTunnel, accent: [255, 92, 112], secondary: [244, 210, 138] }
    } else if i == 2 {
        PresetColors { kind: VisualKind::OrbitalCore, accent: [104, 205, 255], secondary: [139, 109, 255] }
    } else if i == 3 {
        PresetColors { kind: VisualKind::SpectralVoid, accent: [174, 111, 255], secondary: [72, 218, 255] }
    } else if i == 4 {
        PresetColors { kind: VisualKind::VinylHalo, accent: [244, 210, 138], secondary: [255, 126, 91] }
    } else if i == 5 {
        PresetColors { kind: VisualKind::StarRiver, accent: [125, 232, 203], secondary: [126, 151, 255] }
    } else if i == 6 {
        PresetColors { kind: VisualKind::PrismRibbons, accent: [255, 111, 199], secondary: [89, 214, 255] }
    } else if i == 7 {
        PresetColors { kind: VisualKind::LuminousBloom, accent: [255, 183, 92], secondary: [164, 116, 255] }
    } else if i == 8 {
        PresetColors { kind: VisualKind::RippleField, accent: [155, 184, 207], secondary: [111, 231, 255] }
    } else if i == 9 {
        PresetColors { kind: VisualKind::ParticleTerrain, accent: [244, 142, 75], secondary: [57, 128, 232] }
    } else {
        PresetColors { kind: VisualKind::CoverRelief, accent: [244, 210, 138], secondary: [104, 205, 255] }
    }
}

/// How a light source chooses its two gradient colours.
#[derive(Debug, Clone, Copy, PartialEq, Eq, Structural)]
pub enum LightPalette {
    /// Follow the active subject's accent and secondary colours.
    Preset,
    /// Derive a private two-colour ramp from the source hue and saturation.
    Custom,
}

impl Default for LightPalette {
    fn default() -> (palette: LightPalette)
        ensures
            palette == LightPalette::Preset,
    {
        LightPalette::Preset
    }
}

/// Radial opacity profile of one light source.
#[derive(Debug, Clone, Copy, PartialEq, Eq, Structural)]
pub enum LightFalloff {
    /// Wide, low-contrast light suited to off-window placement.
    Diffuse,
    /// Brighter centre with a soft edge.
    Focused,
    /// A restrained ring with a dim centre.
    Halo,
}

impl Default for LightFalloff {
    fn default() -> (falloff: LightFalloff)
        ensures
            falloff == LightFalloff::Diffuse,
    {
        LightFalloff::Diffuse
    }
}

/// Geometric footprint of one light source.
#[derive(Debug, Clone, Copy, PartialEq, Eq, Structural)]
pub enum LightSourceShape {
    /// A single isotropic light.
    Circle,
    /// A soft elongated area light whose long axis follows the rotation.
    Oval,
    /// A directional, capsule-like wash.
    Beam,
}

impl Default for LightSourceShape {
    fn default() -> (shape: LightSourceShape)
        ensures
            shape == LightSourceShape::Circle,
    {
        LightSourceShape::Circle
    }
}

/// Audio feature that drives one light source.
#[derive(Debug, Clone, Copy, PartialEq, Eq, Structural)]
pub enum LightAudioResponse {
    /// Static apart from optional drift.
    NoResponse,
    /// Broad perceptual energy.
    Energy,
    /// Low-frequency energy.
    Bass,
    /// Mid-frequency energy.
    Mid,
    /// High-frequency energy.
    Treble,
    /// Short attacks and beat-like transients.
    Onset,
}

impl Default for LightAudioResponse {
    fn default() -> (response: LightAudioResponse)
        ensures
            response == LightAudioResponse::Energy,
    {
        LightAudioResponse::Energy
    }
}

/// Procedural material field beneath the light sources.
#[derive(Debug, Clone, Copy, PartialEq, Eq, Structural)]
pub enum LightMaterialKind {
    /// No texture field.
    NoMaterial,
    /// Soft, granulated pigment plumes.
    Watercolor,
    /// A refracted, line-like light field.
    Caustics,
    /// Broad vertical curtains with slow spectral folds.
    Aurora,
    /// Layered, cloud-like colour with granular depth.
    Nebula,
}

impl Default for LightMaterialKind {
    fn default() -> (kind: LightMaterialKind)
        ensures
            kind == LightMaterialKind::NoMaterial,
    {
        LightMaterialKind::NoMaterial
    }
}

} // verus!
