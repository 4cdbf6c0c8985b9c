use vstd::prelude::*;

verus! {

pub const CL_ADDRESS_NONE: u32 = 0x1130;

pub const CL_ADDRESS_CLAMP_TO_EDGE: u32 = 0x1131;

pub const CL_ADDRESS_CLAMP: u32 = 0x1132;

pub const CL_ADDRESS_REPEAT: u32 = 0x1133;

pub const CL_ADDRESS_MIRRORED_REPEAT: u32 = 0x1134;

pub const CL_FILTER_NEAREST: u32 = 0x1140;

pub const CL_FILTER_LINEAR: u32 = 0x1141;

pub const SAMPLER_ADDRESSING_MODE_NONE: u32 = 0;

pub const SAMPLER_ADDRESSING_MODE_CLAMP_TO_EDGE: u32 = 1;

pub const SAMPLER_ADDRESSING_MODE_CLAMP: u32 = 2;

pub const SAMPLER_ADDRESSING_MODE_REPEAT: u32 = 3;

pub const SAMPLER_ADDRESSING_MODE_REPEAT_MIRRORED: u32 = 4;

pub const SAMPLER_FILTER_MODE_NEAREST: u32 = 0;

pub const SAMPLER_FILTER_MODE_LINEAR: u32 = 1;

/// How the hardware treats a coordinate outside of a texture.
#[derive(Clone, Copy, Debug, PartialEq, Eq, Structural)]
pub enum TexWrap {
    ClampToEdge,
    ClampToBorder,
    Repeat,
    MirrorRepeat,
}

/// How the hardware picks the colour between pixels.
#[derive(Clone, Copy, Debug, PartialEq, Eq, Structural)]
pub enum TexFilter {
    Nearest,
    Linear,
}

/// The state of a sampler as the hardware takes it.
#[derive(Clone, Copy, Debug, PartialEq, Eq, Structural)]
pub struct SamplerState {
    pub min_img_filter: TexFilter,
    pub mag_img_filter: TexFilter,
    pub unnormalized_coords: bool,
    pub wrap_r: TexWrap,
    pub wrap_s: TexWrap,
    pub wrap_t: TexWrap,
}

/// A sampler: how an image is addressed and filtered when it is read.
pub struct Sampler {
    pub id: u64,
    pub normalized_coords: bool,
    pub addressing_mode: u32,
    pub filter_mode: u32,
    pub props: Option<Vec<u64>>,
}

/// The addressing mode that the compiler's number `mode` stands for, where
/// it stands for one.
pub open spec fn spec_addressing_mode(mode: u32) -> Option<u32> {
    if mode == SAMPLER_ADDRESSING_MODE_NONE {
        Some(CL_ADDRESS_NONE)
    } else if mode == SAMPLER_ADDRESSING_MODE_CLAMP_TO_EDGE {
        Some(CL_ADDRESS_CLAMP_TO_EDGE)
    } else if mode == SAMPLER_ADDRESSING_MODE_CLAMP {
        Some(CL_ADDRESS_CLAMP)
    } else if mode == SAMPLER_ADDRESSING_MODE_REPEAT {
        Some(CL_ADDRESS_REPEAT)
    } else if mode == SAMPLER_ADDRESSING_MODE_REPEAT_MIRRORED {
        Some(CL_ADDRESS_MIRRORED_REPEAT)
    } else {
        None
    }
}

/// The filter mode that the compiler's number `mode` stands for, where it
/// stands for one.
pub open spec fn spec_filter_mode(mode: u32) -> Option<u32> {
    if mode == SAMPLER_FILTER_MODE_NEAREST {
        Some(CL_FILTER_NEAREST)
    } else if mode == SAMPLER_FILTER_MODE_LINEAR {
        Some(CL_FILTER_LINEAR)
    } else {
        None
    }
}

/// How the hardware wraps for an addressing mode: any mode that is none of
/// the four known ones clamps to the edge.
pub open spec fn spec_wrap(addressing_mode: u32) -> TexWrap {
    if addressing_mode == CL_ADDRESS_CLAMP {
        TexWrap::ClampToBorder
    } else if addressing_mode == CL_ADDRESS_REPEAT {
        TexWrap::Repeat
    } else if addressing_mode == CL_ADDRESS_MIRRORED_REPEAT {
        TexWrap::MirrorRepeat
    } else {
        TexWrap::ClampToEdge
    }
}

/// The state that the hardware takes for a sampler.
pub open spec fn spec_cl_to_pipe(addressing_mode: u32, filter_mode: u32, normalized_coords: bool)
    -> SamplerState {
    let filter = if filter_mode == CL_FILTER_NEAREST {
        TexFilter::Nearest
    } else {
        TexFilter::Linear
    };
    SamplerState {
        min_img_filter: filter,
        mag_img_filter: filter,
        unnormalized_coords: !normalized_coords,
        wrap_r: spec_wrap(addressing_mode),
        wrap_s: spec_wrap(addressing_mode),
        wrap_t: spec_wrap(addressing_mode),
    }
}

impl Sampler {
    pub fn new(
        id: u64,
        normalized_coords: bool,
        addressing_mode: u32,
        filter_mode: u32,
        props: Option<Vec<u64>>,
    ) -> (s: Sampler)
        ensures
            s == (Sampler { id, normalized_coords, addressing_mode, filter_mode, props }),
    {
        Sampler { id, normalized_coords, addressing_mode, filter_mode, props }
    }

    /// Turns the numbers that the compiler gives for a sampler into an
    /// addressing mode, a filter mode, and whether coordinates are
    /// normalized: they are iff the third number is not zero.
    pub fn nir_to_cl(addressing_mode: u32, filter_mode: u32, normalized_coords: u32) -> (r: (
        u32,
        u32,
        bool,
    ))
        requires
            spec_addressing_mode(addressing_mode).is_some(),
            spec_filter_mode(filter_mode).is_some(),
        ensures
            Some(r.0) == spec_addressing_mode(addressing_mode),
            Some(r.1) == spec_filter_mode(filter_mode),
            r.2 == (normalized_coords != 0),
    {
        let addr_mode = if addressing_mode == SAMPLER_ADDRESSING_MODE_NONE {
            CL_ADDRESS_NONE
        } else if addressing_mode == SAMPLER_ADDRESSING_MODE_CLAMP_TO_EDGE {
            CL_ADDRESS_CLAMP_TO_EDGE
        } else if addressing_mode == SAMPLER_ADDRESSING_MODE_CLAMP {
            CL_ADDRESS_CLAMP
        } else if addressing_mode == SAMPLER_ADDRESSING_MODE_REPEAT {
            CL_ADDRESS_REPEAT
        } else {
            CL_ADDRESS_MIRRORED_REPEAT
        };
        let filter = if filter_mode == SAMPLER_FILTER_MODE_NEAREST {
            CL_FILTER_NEAREST
        } else {
            CL_FILTER_LINEAR
        };
        (addr_mode, filter, normalized_coords != 0)
    }

    /// The state that the hardware takes for an addressing mode, a filter
    /// mode and whether coordinates are normalized.
    pub fn cl_to_pipe(mode: (u32, u32, bool)) -> (r: SamplerState)
        requires
            mode.1 == CL_FILTER_NEAREST || mode.1 == CL_FILTER_LINEAR,
        ensures
            r == spec_cl_to_pipe(mode.0, mode.1, mode.2),
    {
        let (addressing_mode, filter_mode, normalized_coords) = mode;
        let wrap = if addressing_mode == CL_ADDRESS_CLAMP_TO_EDGE {
            TexWrap::ClampToEdge
        } else if addressing_mode == CL_ADDRESS_CLAMP {
            TexWrap::ClampToBorder
        } else if addressing_mode == CL_ADDRESS_REPEAT {
            TexWrap::Repeat
        } else if addressing_mode == CL_ADDRESS_MIRRORED_REPEAT {
            TexWrap::MirrorRepeat
        } else {
            TexWrap::ClampToEdge
        };
        let img_filter = if filter_mode == CL_FILTER_NEAREST {
            TexFilter::Nearest
        } else {
            TexFilter::Linear
        };
        SamplerState {
            min_img_filter: img_filter,
            mag_img_filter: img_filter,
            unnormalized_coords: !normalized_coords,
            wrap_r: wrap,
            wrap_s: wrap,
            wrap_t: wrap,
        }
    }

    /// The state that the hardware takes for the sampler.
    pub fn pipe(&self) -> (r: SamplerState)
        requires
            self.filter_mode == CL_FILTER_NEAREST || self.filter_mode == CL_FILTER_LINEAR,
        ensures
            r == spec_cl_to_pipe(self.addressing_mode, self.filter_mode, self.normalized_coords),
    {
        Sampler::cl_to_pipe((self.addressing_mode, self.filter_mode, self.normalized_coords))
    }
}

} // verus!
