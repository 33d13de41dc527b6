//! Modes of colour vision, the dichromat families and their parameters.

use vstd::prelude::*;

verus! {

/// The colour vision to simulate.
///
/// The modes ending in "-opia" stand for the complete form of a deficiency,
/// those ending in "-omaly" for its partial (anomalous) form.
#[derive(Clone, Copy, PartialEq, Eq, Structural, Debug)]
pub enum Mode {
    Normal,
    Protanopia,
    Protanomaly,
    Deuteranopia,
    Deuteranomaly,
    Tritanopia,
    Tritanomaly,
    Achromatopsia,
    Achromatomaly,
}

/// A family of dichromacy, named after the cone that is missing or shifted.
#[derive(Clone, Copy, PartialEq, Eq, Structural, Debug)]
pub enum Family {
    Protan,
    Deutan,
    Tritan,
}

/// The parameters of one dichromat family, each in millionths.
///
/// `cpu` and `cpv` are the chromaticity of the confusion point; `am` and `ayi`
/// are the slope and the intercept of the alychne, the line of achromatic
/// points in chromaticity space.
#[derive(Clone, Copy, PartialEq, Eq, Structural, Debug)]
pub struct DeficiencyModel {
    pub cpu: i32,
    pub cpv: i32,
    pub am: i32,
    pub ayi: i32,
}

/// The number of units of a `DeficiencyModel` field that make one.
pub const MODEL_SCALE: i32 = 1_000_000;

impl Family {
    /// The parameters of this family.
    pub open spec fn spec_model(self) -> DeficiencyModel {
        match self {
            Family::Protan => DeficiencyModel {
                cpu: 735_000,
                cpv: 265_000,
                am: 1_273_463,
                ayi: -73_894i32,
            },
            Family::Deutan => DeficiencyModel {
                cpu: 1_140_000,
                cpv: -140_000i32,
                am: 968_437,
                ayi: 3_331,
            },
            Family::Tritan => DeficiencyModel {
                cpu: 171_000,
                cpv: -3_000i32,
                am: 62_921,
                ayi: 292_119,
            },
        }
    }

    /// Returns the parameters of this family.
    pub fn model(self) -> (m: DeficiencyModel)
        ensures
            m == self.spec_model(),
    {
        let (cpu, cpv, am, ayi): (i32, i32, i32, i32) = match self {
            Family::Protan => (735_000, 265_000, 1_273_463, -73_894),
            Family::Deutan => (1_140_000, -140_000, 968_437, 3_331),
            Family::Tritan => (171_000, -3_000, 62_921, 292_119),
        };
        DeficiencyModel { cpu, cpv, am, ayi }
    }
}

impl Mode {
    /// The position of this mode in the order of declaration, from 0 to 8.
    pub open spec fn index(self) -> int {
        match self {
            Mode::Normal => 0,
            Mode::Protanopia => 1,
            Mode::Protanomaly => 2,
            Mode::Deuteranopia => 3,
            Mode::Deuteranomaly => 4,
            Mode::Tritanopia => 5,
            Mode::Tritanomaly => 6,
            Mode::Achromatopsia => 7,
            Mode::Achromatomaly => 8,
        }
    }

    /// The mode that a byte selects: the mode at that position for 0 to 8,
    /// and `Protanopia` for every other byte.
    pub open spec fn of_byte(b: u8) -> Mode {
        if b == 0 {
            Mode::Normal
        } else if b == 1 {
            Mode::Protanopia
        } else if b == 2 {
            Mode::Protanomaly
        } else if b == 3 {
            Mode::Deuteranopia
        } else if b == 4 {
            Mode::Deuteranomaly
        } else if b == 5 {
            Mode::Tritanopia
        } else if b == 6 {
            Mode::Tritanomaly
        } else if b == 7 {
            Mode::Achromatopsia
        } else if b == 8 {
            Mode::Achromatomaly
        } else {
            Mode::Protanopia
        }
    }

    /// The family whose confusion line this mode projects onto; `None` for
    /// normal and for achromatic vision.
    pub open spec fn spec_family(self) -> Option<Family> {
        match self {
            Mode::Protanopia | Mode::Protanomaly => Some(Family::Protan),
            Mode::Deuteranopia | Mode::Deuteranomaly => Some(Family::Deutan),
            Mode::Tritanopia | Mode::Tritanomaly => Some(Family::Tritan),
            Mode::Normal | Mode::Achromatopsia | Mode::Achromatomaly => None,
        }
    }

    /// Whether this mode is the partial form of a deficiency, whose result is
    /// blended with the colour itself.
    pub open spec fn spec_is_anomalous(self) -> bool {
        self is Protanomaly || self is Deuteranomaly || self is Tritanomaly
            || self is Achromatomaly
    }

    /// Whether this mode reduces a colour to its luminance.
    pub open spec fn spec_is_achromatic(self) -> bool {
        self is Achromatopsia || self is Achromatomaly
    }

    /// Decodes a mode byte. A byte above 8 names no mode and is read as
    /// `Protanopia`.
    pub fn from_byte(b: u8) -> (mode: Mode)
        ensures
            mode == Mode::of_byte(b),
            b <= 8 ==> mode.index() == b,
            b > 8 ==> mode == Mode::Protanopia,
    {
        match b {
            0 => Mode::Normal,
            1 => Mode::Protanopia,
            2 => Mode::Protanomaly,
            3 => Mode::Deuteranopia,
            4 => Mode::Deuteranomaly,
            5 => Mode::Tritanopia,
            6 => Mode::Tritanomaly,
            7 => Mode::Achromatopsia,
            8 => Mode::Achromatomaly,
            _ => Mode::Protanopia,
        }
    }

    /// Encodes this mode as the byte that `from_byte` decodes to it.
    pub fn to_byte(self) -> (b: u8)
        ensures
            b == self.index(),
            Mode::of_byte(b) == self,
    {
        match self {
            Mode::Normal => 0,
            Mode::Protanopia => 1,
            Mode::Protanomaly => 2,
            Mode::Deuteranopia => 3,
            Mode::Deuteranomaly => 4,
            Mode::Tritanopia => 5,
            Mode::Tritanomaly => 6,
            Mode::Achromatopsia => 7,
            Mode::Achromatomaly => 8,
        }
    }

    /// Returns the family whose confusion line this mode projects onto, if
    /// it projects at all.
    pub fn family(self) -> (f: Option<Family>)
        ensures
            f == self.spec_family(),
    {
        match self {
            Mode::Protanopia => Some(Family::Protan),
            Mode::Protanomaly => Some(Family::Protan),
            Mode::Deuteranopia => Some(Family::Deutan),
            Mode::Deuteranomaly => Some(Family::Deutan),
            Mode::Tritanopia => Some(Family::Tritan),
            Mode::Tritanomaly => Some(Family::Tritan),
            _ => None,
        }
    }

    /// Returns whether this mode is the partial form of a deficiency.
    pub fn is_anomalous(self) -> (a: bool)
        ensures
            a == self.spec_is_anomalous(),
    {
        match self {
            Mode::Protanomaly => true,
            Mode::Deuteranomaly => true,
            Mode::Tritanomaly => true,
            Mode::Achromatomaly => true,
            _ => false,
        }
    }

    /// Returns whether this mode reduces a colour to its luminance.
    pub fn is_achromatic(self) -> (a: bool)
        ensures
            a == self.spec_is_achromatic(),
    {
        self == Mode::Achromatopsia || self == Mode::Achromatomaly
    }
}

} // verus!
