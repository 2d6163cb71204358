//! Platforms, and which of them has a decoder.

use vstd::prelude::*;

verus! {

/// A platform as it is selected: each platform by its name or by its
/// abbreviation.
#[derive(Clone, Copy, Debug, PartialEq, Eq, Structural)]
pub enum Mode {
    GameBoy,
    GB,
    GameGear,
    GG,
    MasterSystem,
    SMS,
    Genesis,
    SG,
    MegaDrive,
    MD,
    Nintendo,
    NES,
    SuperNintendo,
    SNES,
}

/// A platform.
#[derive(Clone, Copy, Debug, PartialEq, Eq, Structural)]
pub enum Platform {
    GameBoy,
    GameGear,
    MasterSystem,
    Genesis,
    MegaDrive,
    Nintendo,
    SuperNintendo,
}

/// The code format of a platform.
#[derive(Clone, Copy, Debug, PartialEq, Eq, Structural)]
pub enum Codec {
    /// Codes of six or eight letters, as this crate decodes them.
    Nes,
    /// No decoder exists for the platform.
    Unsupported(Platform),
}

impl Mode {
    /// The platform that this selector names.
    pub open spec fn spec_platform(self) -> Platform {
        match self {
            Mode::GameBoy | Mode::GB => Platform::GameBoy,
            Mode::GameGear | Mode::GG => Platform::GameGear,
            Mode::MasterSystem | Mode::SMS => Platform::MasterSystem,
            Mode::Genesis | Mode::SG => Platform::Genesis,
            Mode::MegaDrive | Mode::MD => Platform::MegaDrive,
            Mode::Nintendo | Mode::NES => Platform::Nintendo,
            Mode::SuperNintendo | Mode::SNES => Platform::SuperNintendo,
        }
    }

    /// The platform that this selector names.
    pub fn platform(self) -> (platform: Platform)
        ensures
            platform == self.spec_platform(),
    {
        match self {
            Mode::GameBoy | Mode::GB => Platform::GameBoy,
            Mode::GameGear | Mode::GG => Platform::GameGear,
            Mode::MasterSystem | Mode::SMS => Platform::MasterSystem,
            Mode::Genesis | Mode::SG => Platform::Genesis,
            Mode::MegaDrive | Mode::MD => Platform::MegaDrive,
            Mode::Nintendo | Mode::NES => Platform::Nintendo,
            Mode::SuperNintendo | Mode::SNES => Platform::SuperNintendo,
        }
    }
}

impl Platform {
    /// The code format of this platform: only `Nintendo` has one.
    pub open spec fn spec_codec(self) -> Codec {
        if self == Platform::Nintendo {
            Codec::Nes
        } else {
            Codec::Unsupported(self)
        }
    }

    /// The code format of this platform.
    pub fn codec(self) -> (codec: Codec)
        ensures
            codec == self.spec_codec(),
    {
        match self {
            Platform::Nintendo => Codec::Nes,
            other => Codec::Unsupported(other),
        }
    }
}

} // verus!
