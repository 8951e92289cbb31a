//! One table describing how every gridded field layer is colored, and what its colors mean.
//!
//! The table is the single source for both the color table the renderer samples and the legend the
//! user reads, so a scale can't drift from its own key. Values are whole numbers: bounds and stops
//! in thousandths, the input scale in millionths.

use crate::render::FieldLayer;
use crate::settings::TempUnit;
use vstd::prelude::*;

verus! {

/// How raw grid values map onto the 2..=255 index range the color table is baked over.
#[derive(Debug, Clone, Copy, PartialEq, Eq, Structural)]
pub enum RampScale {
    /// `(v - lo) / (hi - lo)`.
    Linear,
    /// Linear on `|v|`: signed fields (azimuthal shear) whose sign is direction, not magnitude.
    Abs,
    /// `log10` between `lo` and `hi`; rainfall and recurrence intervals span decades.
    Log,
}

/// A color.
pub type Rgb = (u8, u8, u8);

/// A continuous color scale, or a set of labeled category slots.
#[derive(Debug)]
pub enum FieldScale {
    Ramp {
        /// Thousandths of the ramp's units.
        lo: i32,
        hi: i32,
        scale: RampScale,
        /// `(t, rgb)` with `t` in thousandths, 0 to 1000, interpolated.
        stops: Vec<(u16, Rgb)>,
    },
    /// `(raw grid value, rgb, label)`: drawn as discrete swatches, no interpolation.
    Categorical(Vec<(u8, Rgb, &'static str)>),
}

/// How one field layer is colored and labeled.
#[derive(Debug)]
pub struct FieldRamp {
    /// Legend heading.
    pub label: &'static str,
    /// Physical units, empty when the values are categories or already unitless.
    pub units: &'static str,
    pub scale: FieldScale,
    /// Opacity for non-zero indices; environment overlays sit translucent over the basemap.
    pub alpha: u8,
    /// Multiplier, in millionths, applied to raw grid values before anything else, when the wire
    /// units aren't the units anyone reads (smoke arrives in kg/m³; people talk in µg/m³).
    pub input_scale: u64,
    /// This ramp's bounds and units are Kelvin, a wire unit nobody reads: the legend converts
    /// them for display. The color mapping stays in Kelvin.
    pub is_temp_kelvin: bool,
}

impl FieldRamp {
    /// The ramp is continuous, with this heading, units, bounds, scale, opacity and stops.
    pub open spec fn is_ramp(
        self,
        label: Seq<char>,
        units: Seq<char>,
        lo: int,
        hi: int,
        scale: RampScale,
        alpha: u8,
        stops: Seq<(u16, Rgb)>,
    ) -> bool {
        &&& self.label@ == label
        &&& self.units@ == units
        &&& self.alpha == alpha
        &&& match self.scale {
            FieldScale::Ramp { lo: l, hi: h, scale: s, stops: ts } => {
                &&& l == lo
                &&& h == hi
                &&& s == scale
                &&& ts@ == stops
            },
            FieldScale::Categorical(_) => false,
        }
    }

    /// The ramp is a set of category slots with this heading and opacity.
    pub open spec fn is_categorical(
        self,
        label: Seq<char>,
        alpha: u8,
        slots: Seq<(u8, Rgb, Seq<char>)>,
    ) -> bool {
        &&& self.label@ == label
        &&& self.units@ == ""@
        &&& self.alpha == alpha
        &&& match self.scale {
            FieldScale::Ramp { .. } => false,
            FieldScale::Categorical(cs) => {
                &&& cs@.len() == slots.len()
                &&& forall|i: int|
                    0 <= i < slots.len() ==> (#[trigger] cs@[i]).0 == slots[i].0 && cs@[i].1
                        == slots[i].1 && cs@[i].2@ == slots[i].2
            },
        }
    }

    /// How raw values are read: the multiplier, and whether the legend converts from Kelvin.
    pub open spec fn reads(self, input_scale: u64, kelvin: bool) -> bool {
        self.input_scale == input_scale && self.is_temp_kelvin == kelvin
    }
}

impl FieldRamp {
    /// What the legend prints for the ends of the ramp, in ten-thousandths, and in which units.
    pub open spec fn legend(self, unit: TempUnit) -> (int, int, Seq<char>) {
        match self.scale {
            FieldScale::Categorical(_) => (0, 0, self.units@),
            FieldScale::Ramp { lo, hi, .. } => if self.is_temp_kelvin {
                (
                    unit.of_celsius(lo - 273_150),
                    unit.of_celsius(hi - 273_150),
                    unit.label_text(),
                )
            } else {
                (lo * 10, hi * 10, self.units@)
            },
        }
    }

    /// What the legend prints for this ramp's ends, in ten-thousandths of the units it names.
    /// Every ramp but the Kelvin ones hands its own numbers back; those convert to the reader's unit (an
    /// offset, not a scale, so the multiplier cannot express it). The color mapping never calls
    /// this: it stays in Kelvin regardless of what the reader sees.
    pub fn legend_bounds(&self, unit: TempUnit) -> (r: (i64, i64, &'static str))
        ensures
            r.0 == self.legend(unit).0,
            r.1 == self.legend(unit).1,
            r.2@ == self.legend(unit).2,
    {
        match &self.scale {
            FieldScale::Categorical(_) => (0, 0, self.units),
            FieldScale::Ramp { lo, hi, .. } => {
                if self.is_temp_kelvin {
                    (
                        unit.from_c(*lo as i64 - 273_150),
                        unit.from_c(*hi as i64 - 273_150),
                        unit.label(),
                    )
                } else {
                    (*lo as i64 * 10, *hi as i64 * 10, self.units)
                }
            },
        }
    }
}

pub open spec fn is_rotation(r: FieldRamp) -> bool {
    r.reads(1000000, false) && r.is_ramp(
        "Rotation"@,
        "\u{d7}10\u{207b}\u{b3} s\u{207b}\u{b9}"@,
        4000,
        40000,
        RampScale::Abs,
        255,
        seq![
            (0u16, (40u8, 90u8, 200u8)),
            (400u16, (40u8, 200u8, 200u8)),
            (700u16, (240u8, 230u8, 60u8)),
            (1000u16, (230u8, 40u8, 40u8)),
        ],
    )
}

/// Rotation.
pub fn rotation() -> (r: FieldRamp)
    ensures
        is_rotation(r),
{
    let stops: Vec<(u16, Rgb)> = vec![
            (0u16, (40u8, 90u8, 200u8)),
            (400u16, (40u8, 200u8, 200u8)),
            (700u16, (240u8, 230u8, 60u8)),
            (1000u16, (230u8, 40u8, 40u8)),
    ];
    assert(stops@ =~= seq![
            (0u16, (40u8, 90u8, 200u8)),
            (400u16, (40u8, 200u8, 200u8)),
            (700u16, (240u8, 230u8, 60u8)),
            (1000u16, (230u8, 40u8, 40u8)),
    ]);
    FieldRamp {
        label: "Rotation",
        units: "\u{d7}10\u{207b}\u{b3} s\u{207b}\u{b9}",
        scale: FieldScale::Ramp { lo: 4000, hi: 40000, scale: RampScale::Abs, stops },
        alpha: 255,
        input_scale: 1000000,
        is_temp_kelvin: false,
    }
}

pub open spec fn is_wind(r: FieldRamp) -> bool {
    r.reads(1943844, false) && r.is_ramp(
        "Wind"@,
        "kt"@,
        0,
        50000,
        RampScale::Linear,
        255,
        seq![
            (0u16, (120u8, 165u8, 205u8)),
            (250u16, (95u8, 200u8, 175u8)),
            (500u16, (235u8, 225u8, 120u8)),
            (700u16, (240u8, 155u8, 70u8)),
            (850u16, (225u8, 80u8, 70u8)),
            (1000u16, (230u8, 95u8, 200u8)),
        ],
    )
}

/// Wind speed, for the animated particle layer. Wind is not a [`FieldLayer`], but the particles
/// still need a value-to-color rule and the legend still needs to explain it. The input scale
/// converts the model's m/s to the knots people actually read.
pub fn wind() -> (r: FieldRamp)
    ensures
        is_wind(r),
{
    let stops: Vec<(u16, Rgb)> = vec![
            (0u16, (120u8, 165u8, 205u8)),
            (250u16, (95u8, 200u8, 175u8)),
            (500u16, (235u8, 225u8, 120u8)),
            (700u16, (240u8, 155u8, 70u8)),
            (850u16, (225u8, 80u8, 70u8)),
            (1000u16, (230u8, 95u8, 200u8)),
    ];
    assert(stops@ =~= seq![
            (0u16, (120u8, 165u8, 205u8)),
            (250u16, (95u8, 200u8, 175u8)),
            (500u16, (235u8, 225u8, 120u8)),
            (700u16, (240u8, 155u8, 70u8)),
            (850u16, (225u8, 80u8, 70u8)),
            (1000u16, (230u8, 95u8, 200u8)),
    ]);
    FieldRamp {
        label: "Wind",
        units: "kt",
        scale: FieldScale::Ramp { lo: 0, hi: 50000, scale: RampScale::Linear, stops },
        alpha: 255,
        input_scale: 1943844,
        is_temp_kelvin: false,
    }
}

pub open spec fn is_mesh(r: FieldRamp) -> bool {
    r.reads(1000000, false) && r.is_ramp(
        "Hail size"@,
        "mm"@,
        10000,
        75000,
        RampScale::Linear,
        255,
        seq![
            (0u16, (60u8, 200u8, 90u8)),
            (400u16, (240u8, 230u8, 60u8)),
            (700u16, (240u8, 150u8, 30u8)),
            (1000u16, (230u8, 60u8, 200u8)),
        ],
    )
}

/// Hail size.
pub fn mesh() -> (r: FieldRamp)
    ensures
        is_mesh(r),
{
    let stops: Vec<(u16, Rgb)> = vec![
            (0u16, (60u8, 200u8, 90u8)),
            (400u16, (240u8, 230u8, 60u8)),
            (700u16, (240u8, 150u8, 30u8)),
            (1000u16, (230u8, 60u8, 200u8)),
    ];
    assert(stops@ =~= seq![
            (0u16, (60u8, 200u8, 90u8)),
            (400u16, (240u8, 230u8, 60u8)),
            (700u16, (240u8, 150u8, 30u8)),
            (1000u16, (230u8, 60u8, 200u8)),
    ]);
    FieldRamp {
        label: "Hail size",
        units: "mm",
        scale: FieldScale::Ramp { lo: 10000, hi: 75000, scale: RampScale::Linear, stops },
        alpha: 255,
        input_scale: 1000000,
        is_temp_kelvin: false,
    }
}

pub open spec fn is_hail_swath(r: FieldRamp) -> bool {
    r.reads(1000000, false) && r.is_ramp(
        "Hail swaths (24 h)"@,
        "mm"@,
        19000,
        75000,
        RampScale::Linear,
        255,
        seq![
            (0u16, (60u8, 200u8, 90u8)),
            (400u16, (240u8, 230u8, 60u8)),
            (700u16, (240u8, 150u8, 30u8)),
            (1000u16, (230u8, 60u8, 200u8)),
        ],
    )
}

/// Hail swaths (24 h).
pub fn hail_swath() -> (r: FieldRamp)
    ensures
        is_hail_swath(r),
{
    let stops: Vec<(u16, Rgb)> = vec![
            (0u16, (60u8, 200u8, 90u8)),
            (400u16, (240u8, 230u8, 60u8)),
            (700u16, (240u8, 150u8, 30u8)),
            (1000u16, (230u8, 60u8, 200u8)),
    ];
    assert(stops@ =~= seq![
            (0u16, (60u8, 200u8, 90u8)),
            (400u16, (240u8, 230u8, 60u8)),
            (700u16, (240u8, 150u8, 30u8)),
            (1000u16, (230u8, 60u8, 200u8)),
    ]);
    FieldRamp {
        label: "Hail swaths (24 h)",
        units: "mm",
        scale: FieldScale::Ramp { lo: 19000, hi: 75000, scale: RampScale::Linear, stops },
        alpha: 255,
        input_scale: 1000000,
        is_temp_kelvin: false,
    }
}

pub open spec fn is_precip_rate(r: FieldRamp) -> bool {
    r.reads(1000000, false) && r.is_ramp(
        "Rain rate"@,
        "mm/hr"@,
        250,
        100000,
        RampScale::Log,
        255,
        seq![
            (0u16, (40u8, 180u8, 90u8)),
            (300u16, (230u8, 220u8, 60u8)),
            (550u16, (230u8, 110u8, 40u8)),
            (800u16, (220u8, 40u8, 60u8)),
            (1000u16, (230u8, 220u8, 240u8)),
        ],
    )
}

/// Rain rate.
pub fn precip_rate() -> (r: FieldRamp)
    ensures
        is_precip_rate(r),
{
    let stops: Vec<(u16, Rgb)> = vec![
            (0u16, (40u8, 180u8, 90u8)),
            (300u16, (230u8, 220u8, 60u8)),
            (550u16, (230u8, 110u8, 40u8)),
            (800u16, (220u8, 40u8, 60u8)),
            (1000u16, (230u8, 220u8, 240u8)),
    ];
    assert(stops@ =~= seq![
            (0u16, (40u8, 180u8, 90u8)),
            (300u16, (230u8, 220u8, 60u8)),
            (550u16, (230u8, 110u8, 40u8)),
            (800u16, (220u8, 40u8, 60u8)),
            (1000u16, (230u8, 220u8, 240u8)),
    ]);
    FieldRamp {
        label: "Rain rate",
        units: "mm/hr",
        scale: FieldScale::Ramp { lo: 250, hi: 100000, scale: RampScale::Log, stops },
        alpha: 255,
        input_scale: 1000000,
        is_temp_kelvin: false,
    }
}

pub open spec fn is_qpe_1h(r: FieldRamp) -> bool {
    r.reads(1000000, false) && r.is_ramp(
        "Rain (1 h)"@,
        "mm"@,
        250,
        100000,
        RampScale::Log,
        255,
        seq![
            (0u16, (40u8, 180u8, 90u8)),
            (300u16, (230u8, 220u8, 60u8)),
            (550u16, (230u8, 110u8, 40u8)),
            (800u16, (220u8, 40u8, 60u8)),
            (1000u16, (230u8, 220u8, 240u8)),
        ],
    )
}

/// Rain (1 h).
pub fn qpe_1h() -> (r: FieldRamp)
    ensures
        is_qpe_1h(r),
{
    let stops: Vec<(u16, Rgb)> = vec![
            (0u16, (40u8, 180u8, 90u8)),
            (300u16, (230u8, 220u8, 60u8)),
            (550u16, (230u8, 110u8, 40u8)),
            (800u16, (220u8, 40u8, 60u8)),
            (1000u16, (230u8, 220u8, 240u8)),
    ];
    assert(stops@ =~= seq![
            (0u16, (40u8, 180u8, 90u8)),
            (300u16, (230u8, 220u8, 60u8)),
            (550u16, (230u8, 110u8, 40u8)),
            (800u16, (220u8, 40u8, 60u8)),
            (1000u16, (230u8, 220u8, 240u8)),
    ]);
    FieldRamp {
        label: "Rain (1 h)",
        units: "mm",
        scale: FieldScale::Ramp { lo: 250, hi: 100000, scale: RampScale::Log, stops },
        alpha: 255,
        input_scale: 1000000,
        is_temp_kelvin: false,
    }
}

pub open spec fn is_qpe_24h(r: FieldRamp) -> bool {
    r.reads(1000000, false) && r.is_ramp(
        "Rain (24 h)"@,
        "mm"@,
        250,
        250000,
        RampScale::Log,
        255,
        seq![
            (0u16, (40u8, 180u8, 90u8)),
            (300u16, (230u8, 220u8, 60u8)),
            (550u16, (230u8, 110u8, 40u8)),
            (800u16, (220u8, 40u8, 60u8)),
            (1000u16, (230u8, 220u8, 240u8)),
        ],
    )
}

/// Rain (24 h).
pub fn qpe_24h() -> (r: FieldRamp)
    ensures
        is_qpe_24h(r),
{
    let stops: Vec<(u16, Rgb)> = vec![
            (0u16, (40u8, 180u8, 90u8)),
            (300u16, (230u8, 220u8, 60u8)),
            (550u16, (230u8, 110u8, 40u8)),
            (800u16, (220u8, 40u8, 60u8)),
            (1000u16, (230u8, 220u8, 240u8)),
    ];
    assert(stops@ =~= seq![
            (0u16, (40u8, 180u8, 90u8)),
            (300u16, (230u8, 220u8, 60u8)),
            (550u16, (230u8, 110u8, 40u8)),
            (800u16, (220u8, 40u8, 60u8)),
            (1000u16, (230u8, 220u8, 240u8)),
    ]);
    FieldRamp {
        label: "Rain (24 h)",
        units: "mm",
        scale: FieldScale::Ramp { lo: 250, hi: 250000, scale: RampScale::Log, stops },
        alpha: 255,
        input_scale: 1000000,
        is_temp_kelvin: false,
    }
}

pub open spec fn is_cape(r: FieldRamp) -> bool {
    r.reads(1000000, false) && r.is_ramp(
        "CAPE"@,
        "J/kg"@,
        100000,
        5000000,
        RampScale::Linear,
        150,
        seq![
            (0u16, (0u8, 200u8, 200u8)),
            (250u16, (40u8, 200u8, 90u8)),
            (500u16, (240u8, 230u8, 60u8)),
            (750u16, (240u8, 150u8, 30u8)),
            (1000u16, (230u8, 60u8, 200u8)),
        ],
    )
}

/// CAPE.
pub fn cape() -> (r: FieldRamp)
    ensures
        is_cape(r),
{
    let stops: Vec<(u16, Rgb)> = vec![
            (0u16, (0u8, 200u8, 200u8)),
            (250u16, (40u8, 200u8, 90u8)),
            (500u16, (240u8, 230u8, 60u8)),
            (750u16, (240u8, 150u8, 30u8)),
            (1000u16, (230u8, 60u8, 200u8)),
    ];
    assert(stops@ =~= seq![
            (0u16, (0u8, 200u8, 200u8)),
            (250u16, (40u8, 200u8, 90u8)),
            (500u16, (240u8, 230u8, 60u8)),
            (750u16, (240u8, 150u8, 30u8)),
            (1000u16, (230u8, 60u8, 200u8)),
    ]);
    FieldRamp {
        label: "CAPE",
        units: "J/kg",
        scale: FieldScale::Ramp { lo: 100000, hi: 5000000, scale: RampScale::Linear, stops },
        alpha: 150,
        input_scale: 1000000,
        is_temp_kelvin: false,
    }
}

pub open spec fn is_srh(r: FieldRamp) -> bool {
    r.reads(1000000, false) && r.is_ramp(
        "Helicity"@,
        "m\u{b2}/s\u{b2}"@,
        50000,
        500000,
        RampScale::Linear,
        150,
        seq![
            (0u16, (40u8, 90u8, 200u8)),
            (500u16, (240u8, 230u8, 60u8)),
            (1000u16, (230u8, 40u8, 40u8)),
        ],
    )
}

/// Helicity.
pub fn srh() -> (r: FieldRamp)
    ensures
        is_srh(r),
{
    let stops: Vec<(u16, Rgb)> = vec![
            (0u16, (40u8, 90u8, 200u8)),
            (500u16, (240u8, 230u8, 60u8)),
            (1000u16, (230u8, 40u8, 40u8)),
    ];
    assert(stops@ =~= seq![
            (0u16, (40u8, 90u8, 200u8)),
            (500u16, (240u8, 230u8, 60u8)),
            (1000u16, (230u8, 40u8, 40u8)),
    ]);
    FieldRamp {
        label: "Helicity",
        units: "m\u{b2}/s\u{b2}",
        scale: FieldScale::Ramp { lo: 50000, hi: 500000, scale: RampScale::Linear, stops },
        alpha: 150,
        input_scale: 1000000,
        is_temp_kelvin: false,
    }
}

pub open spec fn is_flash_flood(r: FieldRamp) -> bool {
    r.reads(1000000, false) && r.is_ramp(
        "Flood recurrence"@,
        "yr"@,
        1000,
        100000,
        RampScale::Log,
        255,
        seq![
            (0u16, (240u8, 230u8, 60u8)),
            (300u16, (240u8, 150u8, 30u8)),
            (600u16, (230u8, 40u8, 40u8)),
            (850u16, (150u8, 40u8, 200u8)),
            (1000u16, (240u8, 240u8, 240u8)),
        ],
    )
}

/// Flood recurrence.
pub fn flash_flood() -> (r: FieldRamp)
    ensures
        is_flash_flood(r),
{
    let stops: Vec<(u16, Rgb)> = vec![
            (0u16, (240u8, 230u8, 60u8)),
            (300u16, (240u8, 150u8, 30u8)),
            (600u16, (230u8, 40u8, 40u8)),
            (850u16, (150u8, 40u8, 200u8)),
            (1000u16, (240u8, 240u8, 240u8)),
    ];
    assert(stops@ =~= seq![
            (0u16, (240u8, 230u8, 60u8)),
            (300u16, (240u8, 150u8, 30u8)),
            (600u16, (230u8, 40u8, 40u8)),
            (850u16, (150u8, 40u8, 200u8)),
            (1000u16, (240u8, 240u8, 240u8)),
    ]);
    FieldRamp {
        label: "Flood recurrence",
        units: "yr",
        scale: FieldScale::Ramp { lo: 1000, hi: 100000, scale: RampScale::Log, stops },
        alpha: 255,
        input_scale: 1000000,
        is_temp_kelvin: false,
    }
}

pub open spec fn is_vil(r: FieldRamp) -> bool {
    r.reads(1000000, false) && r.is_ramp(
        "Water aloft (VIL)"@,
        "kg/m\u{b2}"@,
        100,
        80000,
        RampScale::Linear,
        255,
        seq![
            (0u16, (60u8, 200u8, 90u8)),
            (350u16, (240u8, 230u8, 60u8)),
            (600u16, (240u8, 150u8, 30u8)),
            (850u16, (230u8, 60u8, 200u8)),
            (1000u16, (240u8, 240u8, 240u8)),
        ],
    )
}

/// Water aloft (vil).
pub fn vil() -> (r: FieldRamp)
    ensures
        is_vil(r),
{
    let stops: Vec<(u16, Rgb)> = vec![
            (0u16, (60u8, 200u8, 90u8)),
            (350u16, (240u8, 230u8, 60u8)),
            (600u16, (240u8, 150u8, 30u8)),
            (850u16, (230u8, 60u8, 200u8)),
            (1000u16, (240u8, 240u8, 240u8)),
    ];
    assert(stops@ =~= seq![
            (0u16, (60u8, 200u8, 90u8)),
            (350u16, (240u8, 230u8, 60u8)),
            (600u16, (240u8, 150u8, 30u8)),
            (850u16, (230u8, 60u8, 200u8)),
            (1000u16, (240u8, 240u8, 240u8)),
    ]);
    FieldRamp {
        label: "Water aloft (VIL)",
        units: "kg/m\u{b2}",
        scale: FieldScale::Ramp { lo: 100, hi: 80000, scale: RampScale::Linear, stops },
        alpha: 255,
        input_scale: 1000000,
        is_temp_kelvin: false,
    }
}

pub open spec fn is_echo_tops(r: FieldRamp) -> bool {
    r.reads(1000000, false) && r.is_ramp(
        "Storm tops"@,
        "kft"@,
        5000,
        70000,
        RampScale::Linear,
        255,
        seq![
            (0u16, (40u8, 90u8, 200u8)),
            (400u16, (40u8, 200u8, 90u8)),
            (750u16, (240u8, 230u8, 60u8)),
            (1000u16, (240u8, 240u8, 240u8)),
        ],
    )
}

/// Storm tops.
pub fn echo_tops() -> (r: FieldRamp)
    ensures
        is_echo_tops(r),
{
    let stops: Vec<(u16, Rgb)> = vec![
            (0u16, (40u8, 90u8, 200u8)),
            (400u16, (40u8, 200u8, 90u8)),
            (750u16, (240u8, 230u8, 60u8)),
            (1000u16, (240u8, 240u8, 240u8)),
    ];
    assert(stops@ =~= seq![
            (0u16, (40u8, 90u8, 200u8)),
            (400u16, (40u8, 200u8, 90u8)),
            (750u16, (240u8, 230u8, 60u8)),
            (1000u16, (240u8, 240u8, 240u8)),
    ]);
    FieldRamp {
        label: "Storm tops",
        units: "kft",
        scale: FieldScale::Ramp { lo: 5000, hi: 70000, scale: RampScale::Linear, stops },
        alpha: 255,
        input_scale: 1000000,
        is_temp_kelvin: false,
    }
}

pub open spec fn is_vil_density(r: FieldRamp) -> bool {
    r.reads(1000000, false) && r.is_ramp(
        "VIL density"@,
        "g/m\u{b3}"@,
        500,
        5000,
        RampScale::Linear,
        255,
        seq![
            (0u16, (40u8, 90u8, 200u8)),
            (450u16, (60u8, 200u8, 90u8)),
            (650u16, (240u8, 230u8, 60u8)),
            (800u16, (240u8, 150u8, 30u8)),
            (1000u16, (230u8, 60u8, 200u8)),
        ],
    )
}

/// VIL density: water aloft per unit storm depth. Above ~3.5 g/m³ is the classic large-hail
/// signature, so the scale turns hot exactly there rather than spending its range on drizzle.
pub fn vil_density() -> (r: FieldRamp)
    ensures
        is_vil_density(r),
{
    let stops: Vec<(u16, Rgb)> = vec![
            (0u16, (40u8, 90u8, 200u8)),
            (450u16, (60u8, 200u8, 90u8)),
            (650u16, (240u8, 230u8, 60u8)),
            (800u16, (240u8, 150u8, 30u8)),
            (1000u16, (230u8, 60u8, 200u8)),
    ];
    assert(stops@ =~= seq![
            (0u16, (40u8, 90u8, 200u8)),
            (450u16, (60u8, 200u8, 90u8)),
            (650u16, (240u8, 230u8, 60u8)),
            (800u16, (240u8, 150u8, 30u8)),
            (1000u16, (230u8, 60u8, 200u8)),
    ]);
    FieldRamp {
        label: "VIL density",
        units: "g/m\u{b3}",
        scale: FieldScale::Ramp { lo: 500, hi: 5000, scale: RampScale::Linear, stops },
        alpha: 255,
        input_scale: 1000000,
        is_temp_kelvin: false,
    }
}

pub open spec fn is_glm_fed(r: FieldRamp) -> bool {
    r.reads(1000000, false) && r.is_ramp(
        "Flash density"@,
        "flashes/15 min"@,
        1000,
        30000,
        RampScale::Linear,
        220,
        seq![
            (0u16, (60u8, 60u8, 160u8)),
            (350u16, (90u8, 180u8, 230u8)),
            (600u16, (240u8, 230u8, 60u8)),
            (800u16, (240u8, 140u8, 40u8)),
            (1000u16, (255u8, 60u8, 60u8)),
        ],
    )
}

/// GLM flash-extent density: flashes per cell over the last 15 minutes. One flash is worth
/// showing (it is the first one), and a vigorous updraft runs into the tens, so the scale is
/// short and warms fast.
pub fn glm_fed() -> (r: FieldRamp)
    ensures
        is_glm_fed(r),
{
    let stops: Vec<(u16, Rgb)> = vec![
            (0u16, (60u8, 60u8, 160u8)),
            (350u16, (90u8, 180u8, 230u8)),
            (600u16, (240u8, 230u8, 60u8)),
            (800u16, (240u8, 140u8, 40u8)),
            (1000u16, (255u8, 60u8, 60u8)),
    ];
    assert(stops@ =~= seq![
            (0u16, (60u8, 60u8, 160u8)),
            (350u16, (90u8, 180u8, 230u8)),
            (600u16, (240u8, 230u8, 60u8)),
            (800u16, (240u8, 140u8, 40u8)),
            (1000u16, (255u8, 60u8, 60u8)),
    ]);
    FieldRamp {
        label: "Flash density",
        units: "flashes/15 min",
        scale: FieldScale::Ramp { lo: 1000, hi: 30000, scale: RampScale::Linear, stops },
        alpha: 220,
        input_scale: 1000000,
        is_temp_kelvin: false,
    }
}

pub open spec fn is_posh(r: FieldRamp) -> bool {
    r.reads(1000000, false) && r.is_ramp(
        "Severe hail probability"@,
        "%"@,
        10000,
        100000,
        RampScale::Linear,
        255,
        seq![
            (0u16, (40u8, 90u8, 200u8)),
            (450u16, (240u8, 230u8, 60u8)),
            (750u16, (240u8, 150u8, 30u8)),
            (1000u16, (230u8, 60u8, 200u8)),
        ],
    )
}

/// Probability of severe hail. 50% is Witt's warning threshold, so the scale turns warm there.
pub fn posh() -> (r: FieldRamp)
    ensures
        is_posh(r),
{
    let stops: Vec<(u16, Rgb)> = vec![
            (0u16, (40u8, 90u8, 200u8)),
            (450u16, (240u8, 230u8, 60u8)),
            (750u16, (240u8, 150u8, 30u8)),
            (1000u16, (230u8, 60u8, 200u8)),
    ];
    assert(stops@ =~= seq![
            (0u16, (40u8, 90u8, 200u8)),
            (450u16, (240u8, 230u8, 60u8)),
            (750u16, (240u8, 150u8, 30u8)),
            (1000u16, (230u8, 60u8, 200u8)),
    ]);
    FieldRamp {
        label: "Severe hail probability",
        units: "%",
        scale: FieldScale::Ramp { lo: 10000, hi: 100000, scale: RampScale::Linear, stops },
        alpha: 255,
        input_scale: 1000000,
        is_temp_kelvin: false,
    }
}

pub open spec fn is_global_mslp(r: FieldRamp) -> bool {
    r.reads(10000, false) && r.is_ramp(
        "MSLP"@,
        "hPa"@,
        960000,
        1040000,
        RampScale::Linear,
        170,
        seq![
            (0u16, (150u8, 60u8, 200u8)),
            (350u16, (60u8, 120u8, 220u8)),
            (500u16, (230u8, 230u8, 230u8)),
            (700u16, (240u8, 170u8, 60u8)),
            (1000u16, (200u8, 60u8, 60u8)),
        ],
    )
}

/// Global-model mean sea-level pressure. The band is wide because this is a whole-planet field:
/// a deep low and a summer ridge have to share one scale.
pub fn global_mslp() -> (r: FieldRamp)
    ensures
        is_global_mslp(r),
{
    let stops: Vec<(u16, Rgb)> = vec![
            (0u16, (150u8, 60u8, 200u8)),
            (350u16, (60u8, 120u8, 220u8)),
            (500u16, (230u8, 230u8, 230u8)),
            (700u16, (240u8, 170u8, 60u8)),
            (1000u16, (200u8, 60u8, 60u8)),
    ];
    assert(stops@ =~= seq![
            (0u16, (150u8, 60u8, 200u8)),
            (350u16, (60u8, 120u8, 220u8)),
            (500u16, (230u8, 230u8, 230u8)),
            (700u16, (240u8, 170u8, 60u8)),
            (1000u16, (200u8, 60u8, 60u8)),
    ]);
    FieldRamp {
        label: "MSLP",
        units: "hPa",
        scale: FieldScale::Ramp { lo: 960000, hi: 1040000, scale: RampScale::Linear, stops },
        alpha: 170,
        input_scale: 10000,
        is_temp_kelvin: false,
    }
}

pub open spec fn is_global_height_500(r: FieldRamp) -> bool {
    r.reads(100000, false) && r.is_ramp(
        "500 hPa height"@,
        "dam"@,
        492000,
        600000,
        RampScale::Linear,
        170,
        seq![
            (0u16, (120u8, 60u8, 190u8)),
            (300u16, (60u8, 110u8, 220u8)),
            (550u16, (90u8, 200u8, 160u8)),
            (800u16, (240u8, 200u8, 70u8)),
            (1000u16, (220u8, 70u8, 50u8)),
        ],
    )
}

/// 500 hPa geopotential height — the steering flow, in decametres the way charts label it.
pub fn global_height_500() -> (r: FieldRamp)
    ensures
        is_global_height_500(r),
{
    let stops: Vec<(u16, Rgb)> = vec![
            (0u16, (120u8, 60u8, 190u8)),
            (300u16, (60u8, 110u8, 220u8)),
            (550u16, (90u8, 200u8, 160u8)),
            (800u16, (240u8, 200u8, 70u8)),
            (1000u16, (220u8, 70u8, 50u8)),
    ];
    assert(stops@ =~= seq![
            (0u16, (120u8, 60u8, 190u8)),
            (300u16, (60u8, 110u8, 220u8)),
            (550u16, (90u8, 200u8, 160u8)),
            (800u16, (240u8, 200u8, 70u8)),
            (1000u16, (220u8, 70u8, 50u8)),
    ]);
    FieldRamp {
        label: "500 hPa height",
        units: "dam",
        scale: FieldScale::Ramp { lo: 492000, hi: 600000, scale: RampScale::Linear, stops },
        alpha: 170,
        input_scale: 100000,
        is_temp_kelvin: false,
    }
}

pub open spec fn is_global_dewpoint_2m(r: FieldRamp) -> bool {
    r.reads(1000000, true) && r.is_ramp(
        "2 m dewpoint"@,
        "K"@,
        243000,
        300000,
        RampScale::Linear,
        170,
        seq![
            (0u16, (120u8, 90u8, 60u8)),
            (350u16, (210u8, 200u8, 170u8)),
            (600u16, (110u8, 190u8, 130u8)),
            (800u16, (30u8, 140u8, 90u8)),
            (1000u16, (20u8, 80u8, 110u8)),
        ],
    )
}

/// Global 2 m dewpoint: a moisture scale rather than a thermal one, brown and dry at the bottom,
/// green and soupy at the top.
pub fn global_dewpoint_2m() -> (r: FieldRamp)
    ensures
        is_global_dewpoint_2m(r),
{
    let stops: Vec<(u16, Rgb)> = vec![
            (0u16, (120u8, 90u8, 60u8)),
            (350u16, (210u8, 200u8, 170u8)),
            (600u16, (110u8, 190u8, 130u8)),
            (800u16, (30u8, 140u8, 90u8)),
            (1000u16, (20u8, 80u8, 110u8)),
    ];
    assert(stops@ =~= seq![
            (0u16, (120u8, 90u8, 60u8)),
            (350u16, (210u8, 200u8, 170u8)),
            (600u16, (110u8, 190u8, 130u8)),
            (800u16, (30u8, 140u8, 90u8)),
            (1000u16, (20u8, 80u8, 110u8)),
    ]);
    FieldRamp {
        label: "2 m dewpoint",
        units: "K",
        scale: FieldScale::Ramp { lo: 243000, hi: 300000, scale: RampScale::Linear, stops },
        alpha: 170,
        input_scale: 1000000,
        is_temp_kelvin: true,
    }
}

pub open spec fn is_global_temp_2m(r: FieldRamp) -> bool {
    r.reads(1000000, true) && r.is_ramp(
        "2 m temp"@,
        "K"@,
        233000,
        318000,
        RampScale::Linear,
        170,
        seq![
            (0u16, (80u8, 40u8, 160u8)),
            (250u16, (60u8, 140u8, 220u8)),
            (500u16, (230u8, 230u8, 210u8)),
            (750u16, (240u8, 160u8, 50u8)),
            (1000u16, (190u8, 40u8, 40u8)),
        ],
    )
}

/// 2 m temp.
pub fn global_temp_2m() -> (r: FieldRamp)
    ensures
        is_global_temp_2m(r),
{
    let stops: Vec<(u16, Rgb)> = vec![
            (0u16, (80u8, 40u8, 160u8)),
            (250u16, (60u8, 140u8, 220u8)),
            (500u16, (230u8, 230u8, 210u8)),
            (750u16, (240u8, 160u8, 50u8)),
            (1000u16, (190u8, 40u8, 40u8)),
    ];
    assert(stops@ =~= seq![
            (0u16, (80u8, 40u8, 160u8)),
            (250u16, (60u8, 140u8, 220u8)),
            (500u16, (230u8, 230u8, 210u8)),
            (750u16, (240u8, 160u8, 50u8)),
            (1000u16, (190u8, 40u8, 40u8)),
    ]);
    FieldRamp {
        label: "2 m temp",
        units: "K",
        scale: FieldScale::Ramp { lo: 233000, hi: 318000, scale: RampScale::Linear, stops },
        alpha: 170,
        input_scale: 1000000,
        is_temp_kelvin: true,
    }
}

pub open spec fn is_global_wind_10m(r: FieldRamp) -> bool {
    r.reads(1943844, false) && r.is_ramp(
        "10 m wind"@,
        "kt"@,
        5000,
        80000,
        RampScale::Abs,
        170,
        seq![
            (0u16, (70u8, 130u8, 180u8)),
            (400u16, (90u8, 200u8, 140u8)),
            (700u16, (240u8, 200u8, 60u8)),
            (1000u16, (220u8, 60u8, 60u8)),
        ],
    )
}

/// Global 10 m wind speed (the U component's magnitude band, which is what the layer draws).
pub fn global_wind_10m() -> (r: FieldRamp)
    ensures
        is_global_wind_10m(r),
{
    let stops: Vec<(u16, Rgb)> = vec![
            (0u16, (70u8, 130u8, 180u8)),
            (400u16, (90u8, 200u8, 140u8)),
            (700u16, (240u8, 200u8, 60u8)),
            (1000u16, (220u8, 60u8, 60u8)),
    ];
    assert(stops@ =~= seq![
            (0u16, (70u8, 130u8, 180u8)),
            (400u16, (90u8, 200u8, 140u8)),
            (700u16, (240u8, 200u8, 60u8)),
            (1000u16, (220u8, 60u8, 60u8)),
    ]);
    FieldRamp {
        label: "10 m wind",
        units: "kt",
        scale: FieldScale::Ramp { lo: 5000, hi: 80000, scale: RampScale::Abs, stops },
        alpha: 170,
        input_scale: 1943844,
        is_temp_kelvin: false,
    }
}

pub open spec fn is_global_precip(r: FieldRamp) -> bool {
    r.reads(1000000, false) && r.is_ramp(
        "Precipitable water"@,
        "mm"@,
        1000,
        70000,
        RampScale::Log,
        170,
        seq![
            (0u16, (60u8, 80u8, 120u8)),
            (400u16, (70u8, 170u8, 190u8)),
            (700u16, (90u8, 210u8, 110u8)),
            (1000u16, (240u8, 230u8, 90u8)),
        ],
    )
}

/// Global moisture: GFS publishes precipitable water, ECMWF total precipitation. Both are
/// millimetres of water and both answer "how wet is this air mass".
pub fn global_precip() -> (r: FieldRamp)
    ensures
        is_global_precip(r),
{
    let stops: Vec<(u16, Rgb)> = vec![
            (0u16, (60u8, 80u8, 120u8)),
            (400u16, (70u8, 170u8, 190u8)),
            (700u16, (90u8, 210u8, 110u8)),
            (1000u16, (240u8, 230u8, 90u8)),
    ];
    assert(stops@ =~= seq![
            (0u16, (60u8, 80u8, 120u8)),
            (400u16, (70u8, 170u8, 190u8)),
            (700u16, (90u8, 210u8, 110u8)),
            (1000u16, (240u8, 230u8, 90u8)),
    ]);
    FieldRamp {
        label: "Precipitable water",
        units: "mm",
        scale: FieldScale::Ramp { lo: 1000, hi: 70000, scale: RampScale::Log, stops },
        alpha: 170,
        input_scale: 1000000,
        is_temp_kelvin: false,
    }
}

pub open spec fn is_snowfall(r: FieldRamp) -> bool {
    r.reads(39370080, false) && r.is_ramp(
        "Snowfall"@,
        "in"@,
        100,
        24000,
        RampScale::Log,
        220,
        seq![
            (0u16, (200u8, 235u8, 255u8)),
            (350u16, (90u8, 170u8, 235u8)),
            (600u16, (60u8, 90u8, 210u8)),
            (800u16, (140u8, 60u8, 200u8)),
            (1000u16, (240u8, 240u8, 255u8)),
        ],
    )
}

/// Forecast snowfall accumulation. The model reports metres; nobody talks in metres of snow.
pub fn snowfall() -> (r: FieldRamp)
    ensures
        is_snowfall(r),
{
    let stops: Vec<(u16, Rgb)> = vec![
            (0u16, (200u8, 235u8, 255u8)),
            (350u16, (90u8, 170u8, 235u8)),
            (600u16, (60u8, 90u8, 210u8)),
            (800u16, (140u8, 60u8, 200u8)),
            (1000u16, (240u8, 240u8, 255u8)),
    ];
    assert(stops@ =~= seq![
            (0u16, (200u8, 235u8, 255u8)),
            (350u16, (90u8, 170u8, 235u8)),
            (600u16, (60u8, 90u8, 210u8)),
            (800u16, (140u8, 60u8, 200u8)),
            (1000u16, (240u8, 240u8, 255u8)),
    ]);
    FieldRamp {
        label: "Snowfall",
        units: "in",
        scale: FieldScale::Ramp { lo: 100, hi: 24000, scale: RampScale::Log, stops },
        alpha: 220,
        input_scale: 39370080,
        is_temp_kelvin: false,
    }
}

pub open spec fn is_snow_analysis(r: FieldRamp) -> bool {
    r.reads(39370080, false) && r.is_ramp(
        "Snowfall (observed)"@,
        "in"@,
        100,
        48000,
        RampScale::Log,
        220,
        seq![
            (0u16, (200u8, 235u8, 255u8)),
            (350u16, (90u8, 170u8, 235u8)),
            (600u16, (60u8, 90u8, 210u8)),
            (800u16, (140u8, 60u8, 200u8)),
            (1000u16, (240u8, 240u8, 255u8)),
        ],
    )
}

/// Observed snowfall. Same units and shape as the forecast scale, one decade taller: a 72-hour
/// analysis of a lake-effect band goes places a model run does not.
pub fn snow_analysis() -> (r: FieldRamp)
    ensures
        is_snow_analysis(r),
{
    let stops: Vec<(u16, Rgb)> = vec![
            (0u16, (200u8, 235u8, 255u8)),
            (350u16, (90u8, 170u8, 235u8)),
            (600u16, (60u8, 90u8, 210u8)),
            (800u16, (140u8, 60u8, 200u8)),
            (1000u16, (240u8, 240u8, 255u8)),
    ];
    assert(stops@ =~= seq![
            (0u16, (200u8, 235u8, 255u8)),
            (350u16, (90u8, 170u8, 235u8)),
            (600u16, (60u8, 90u8, 210u8)),
            (800u16, (140u8, 60u8, 200u8)),
            (1000u16, (240u8, 240u8, 255u8)),
    ]);
    FieldRamp {
        label: "Snowfall (observed)",
        units: "in",
        scale: FieldScale::Ramp { lo: 100, hi: 48000, scale: RampScale::Log, stops },
        alpha: 220,
        input_scale: 39370080,
        is_temp_kelvin: false,
    }
}

pub open spec fn is_snow_bands(r: FieldRamp) -> bool {
    r.reads(1000000, false) && r.is_ramp(
        "Snow bands"@,
        "dBZ"@,
        10000,
        45000,
        RampScale::Linear,
        230,
        seq![
            (0u16, (120u8, 160u8, 210u8)),
            (500u16, (180u8, 215u8, 250u8)),
            (1000u16, (255u8, 255u8, 255u8)),
        ],
    )
}

/// Banded snow. The values are reflectivity, but the scale is not the reflectivity palette: what
/// the layer says is "this echo is organised into a line", and it has to read as that against the
/// mosaic it was cut out of.
pub fn snow_bands() -> (r: FieldRamp)
    ensures
        is_snow_bands(r),
{
    let stops: Vec<(u16, Rgb)> = vec![
            (0u16, (120u8, 160u8, 210u8)),
            (500u16, (180u8, 215u8, 250u8)),
            (1000u16, (255u8, 255u8, 255u8)),
    ];
    assert(stops@ =~= seq![
            (0u16, (120u8, 160u8, 210u8)),
            (500u16, (180u8, 215u8, 250u8)),
            (1000u16, (255u8, 255u8, 255u8)),
    ]);
    FieldRamp {
        label: "Snow bands",
        units: "dBZ",
        scale: FieldScale::Ramp { lo: 10000, hi: 45000, scale: RampScale::Linear, stops },
        alpha: 230,
        input_scale: 1000000,
        is_temp_kelvin: false,
    }
}

pub open spec fn is_thunder_prob(r: FieldRamp) -> bool {
    r.reads(1000000, false) && r.is_ramp(
        "Chance of thunder"@,
        "%"@,
        5000,
        100000,
        RampScale::Linear,
        150,
        seq![
            (0u16, (70u8, 100u8, 140u8)),
            (350u16, (90u8, 180u8, 190u8)),
            (700u16, (240u8, 200u8, 90u8)),
            (1000u16, (235u8, 90u8, 70u8)),
        ],
    )
}

/// Calibrated chance of a thunderstorm. A probability, so the scale is linear and the numbers on
/// the legend are the forecast: 30 means thirty percent.
pub fn thunder_prob() -> (r: FieldRamp)
    ensures
        is_thunder_prob(r),
{
    let stops: Vec<(u16, Rgb)> = vec![
            (0u16, (70u8, 100u8, 140u8)),
            (350u16, (90u8, 180u8, 190u8)),
            (700u16, (240u8, 200u8, 90u8)),
            (1000u16, (235u8, 90u8, 70u8)),
    ];
    assert(stops@ =~= seq![
            (0u16, (70u8, 100u8, 140u8)),
            (350u16, (90u8, 180u8, 190u8)),
            (700u16, (240u8, 200u8, 90u8)),
            (1000u16, (235u8, 90u8, 70u8)),
    ]);
    FieldRamp {
        label: "Chance of thunder",
        units: "%",
        scale: FieldScale::Ramp { lo: 5000, hi: 100000, scale: RampScale::Linear, stops },
        alpha: 150,
        input_scale: 1000000,
        is_temp_kelvin: false,
    }
}

pub open spec fn is_precip_type(r: FieldRamp) -> bool {
    r.reads(1000000, false) && r.is_categorical(
        "Precip type"@,
        200,
        seq![
            (1u8, (60u8, 200u8, 90u8), "Rain"@),
            (3u8, (90u8, 150u8, 240u8), "Snow"@),
            (6u8, (240u8, 230u8, 60u8), "Convective"@),
            (7u8, (230u8, 40u8, 40u8), "Hail"@),
            (10u8, (40u8, 200u8, 200u8), "Cold rain"@),
            (91u8, (80u8, 220u8, 120u8), "Tropical rain"@),
            (96u8, (80u8, 220u8, 120u8), "Tropical convective"@),
        ],
    )
}

/// Precip type.
pub fn precip_type() -> (r: FieldRamp)
    ensures
        is_precip_type(r),
{
    let slots: Vec<(u8, Rgb, &'static str)> = vec![
            (1u8, (60u8, 200u8, 90u8), "Rain"),
            (3u8, (90u8, 150u8, 240u8), "Snow"),
            (6u8, (240u8, 230u8, 60u8), "Convective"),
            (7u8, (230u8, 40u8, 40u8), "Hail"),
            (10u8, (40u8, 200u8, 200u8), "Cold rain"),
            (91u8, (80u8, 220u8, 120u8), "Tropical rain"),
            (96u8, (80u8, 220u8, 120u8), "Tropical convective"),
    ];
    FieldRamp {
        label: "Precip type",
        units: "",
        scale: FieldScale::Categorical(slots),
        alpha: 200,
        input_scale: 1000000,
        is_temp_kelvin: false,
    }
}

pub open spec fn is_hca(r: FieldRamp) -> bool {
    r.reads(1000000, false) && r.is_categorical(
        "Hydrometeor class"@,
        200,
        seq![
            (10u8, (140u8, 110u8, 90u8), "Biological"@),
            (20u8, (95u8, 95u8, 95u8), "Clutter"@),
            (30u8, (185u8, 220u8, 255u8), "Ice crystals"@),
            (40u8, (110u8, 160u8, 240u8), "Dry snow"@),
            (50u8, (0u8, 200u8, 255u8), "Wet snow"@),
            (60u8, (90u8, 200u8, 90u8), "Light rain"@),
            (70u8, (25u8, 145u8, 50u8), "Heavy rain"@),
            (80u8, (240u8, 200u8, 60u8), "Big drops"@),
            (90u8, (200u8, 120u8, 220u8), "Graupel"@),
            (100u8, (230u8, 50u8, 50u8), "Hail"@),
            (110u8, (170u8, 0u8, 0u8), "Large hail"@),
            (120u8, (120u8, 0u8, 60u8), "Giant hail"@),
            (140u8, (160u8, 160u8, 160u8), "Unknown"@),
            (150u8, (240u8, 150u8, 200u8), "Range folded"@),
        ],
    )
}

/// Hydrometeor class.
pub fn hca() -> (r: FieldRamp)
    ensures
        is_hca(r),
{
    let slots: Vec<(u8, Rgb, &'static str)> = vec![
            (10u8, (140u8, 110u8, 90u8), "Biological"),
            (20u8, (95u8, 95u8, 95u8), "Clutter"),
            (30u8, (185u8, 220u8, 255u8), "Ice crystals"),
            (40u8, (110u8, 160u8, 240u8), "Dry snow"),
            (50u8, (0u8, 200u8, 255u8), "Wet snow"),
            (60u8, (90u8, 200u8, 90u8), "Light rain"),
            (70u8, (25u8, 145u8, 50u8), "Heavy rain"),
            (80u8, (240u8, 200u8, 60u8), "Big drops"),
            (90u8, (200u8, 120u8, 220u8), "Graupel"),
            (100u8, (230u8, 50u8, 50u8), "Hail"),
            (110u8, (170u8, 0u8, 0u8), "Large hail"),
            (120u8, (120u8, 0u8, 60u8), "Giant hail"),
            (140u8, (160u8, 160u8, 160u8), "Unknown"),
            (150u8, (240u8, 150u8, 200u8), "Range folded"),
    ];
    FieldRamp {
        label: "Hydrometeor class",
        units: "",
        scale: FieldScale::Categorical(slots),
        alpha: 200,
        input_scale: 1000000,
        is_temp_kelvin: false,
    }
}

pub open spec fn is_updraft_helicity(r: FieldRamp) -> bool {
    r.reads(1000000, false) && r.is_ramp(
        "Forecast rotation"@,
        "m\u{b2}/s\u{b2}"@,
        25000,
        200000,
        RampScale::Linear,
        220,
        seq![
            (0u16, (90u8, 60u8, 190u8)),
            (350u16, (160u8, 60u8, 220u8)),
            (700u16, (230u8, 70u8, 200u8)),
            (1000u16, (255u8, 210u8, 245u8)),
        ],
    )
}

/// Forecast rotation.
pub fn updraft_helicity() -> (r: FieldRamp)
    ensures
        is_updraft_helicity(r),
{
    let stops: Vec<(u16, Rgb)> = vec![
            (0u16, (90u8, 60u8, 190u8)),
            (350u16, (160u8, 60u8, 220u8)),
            (700u16, (230u8, 70u8, 200u8)),
            (1000u16, (255u8, 210u8, 245u8)),
    ];
    assert(stops@ =~= seq![
            (0u16, (90u8, 60u8, 190u8)),
            (350u16, (160u8, 60u8, 220u8)),
            (700u16, (230u8, 70u8, 200u8)),
            (1000u16, (255u8, 210u8, 245u8)),
    ]);
    FieldRamp {
        label: "Forecast rotation",
        units: "m\u{b2}/s\u{b2}",
        scale: FieldScale::Ramp { lo: 25000, hi: 200000, scale: RampScale::Linear, stops },
        alpha: 220,
        input_scale: 1000000,
        is_temp_kelvin: false,
    }
}

pub open spec fn is_smoke(r: FieldRamp) -> bool {
    r.reads(1000000000000000, false) && r.is_ramp(
        "Smoke"@,
        "\u{b5}g/m\u{b3}"@,
        2000,
        150000,
        RampScale::Log,
        170,
        seq![
            (0u16, (170u8, 170u8, 165u8)),
            (400u16, (160u8, 135u8, 100u8)),
            (700u16, (140u8, 95u8, 60u8)),
            (1000u16, (90u8, 50u8, 30u8)),
        ],
    )
}

/// Smoke.
pub fn smoke() -> (r: FieldRamp)
    ensures
        is_smoke(r),
{
    let stops: Vec<(u16, Rgb)> = vec![
            (0u16, (170u8, 170u8, 165u8)),
            (400u16, (160u8, 135u8, 100u8)),
            (700u16, (140u8, 95u8, 60u8)),
            (1000u16, (90u8, 50u8, 30u8)),
    ];
    assert(stops@ =~= seq![
            (0u16, (170u8, 170u8, 165u8)),
            (400u16, (160u8, 135u8, 100u8)),
            (700u16, (140u8, 95u8, 60u8)),
            (1000u16, (90u8, 50u8, 30u8)),
    ]);
    FieldRamp {
        label: "Smoke",
        units: "\u{b5}g/m\u{b3}",
        scale: FieldScale::Ramp { lo: 2000, hi: 150000, scale: RampScale::Log, stops },
        alpha: 170,
        input_scale: 1000000000000000,
        is_temp_kelvin: false,
    }
}

/// Layers colored some other way: those in reflectivity, which follow the user's own palette;
/// lightning; the difference layer, whose ramp is rebuilt whenever its field changes, and the two
/// sides of a comparison, colored as their field; and satellite brightness temperature.
pub open spec fn has_no_ramp(layer: FieldLayer) -> bool {
    matches!(layer, FieldLayer::Mrms
        | FieldLayer::Mosaic
        | FieldLayer::CompositeLocal
        | FieldLayer::Hrrr
        | FieldLayer::Lightning
        | FieldLayer::ModelDiff
        | FieldLayer::CompareA
        | FieldLayer::CompareB
        | FieldLayer::GoesIr)
}

/// `r` is how `layer` is colored.
pub open spec fn colors(layer: FieldLayer, r: FieldRamp) -> bool {
    match layer {
        FieldLayer::Rotation | FieldLayer::AzShear => is_rotation(r),
        FieldLayer::Mesh => is_mesh(r),
        FieldLayer::HailSwath => is_hail_swath(r),
        FieldLayer::PrecipRate => is_precip_rate(r),
        FieldLayer::Qpe1h => is_qpe_1h(r),
        FieldLayer::Qpe24h => is_qpe_24h(r),
        FieldLayer::Cape => is_cape(r),
        FieldLayer::Srh => is_srh(r),
        FieldLayer::FlashFlood => is_flash_flood(r),
        FieldLayer::Vil | FieldLayer::VilLocal => is_vil(r),
        FieldLayer::EchoTops | FieldLayer::EtopLocal => is_echo_tops(r),
        FieldLayer::VilDensity => is_vil_density(r),
        FieldLayer::HailMehs => is_mesh(r),
        FieldLayer::HailPosh => is_posh(r),
        FieldLayer::PrecipType => is_precip_type(r),
        FieldLayer::UpdraftHelicity => is_updraft_helicity(r),
        FieldLayer::Smoke => is_smoke(r),
        FieldLayer::Snowfall => is_snowfall(r),
        FieldLayer::SnowAnalysis => is_snow_analysis(r),
        FieldLayer::GlobalMslp => is_global_mslp(r),
        FieldLayer::GlobalHeight500 => is_global_height_500(r),
        FieldLayer::GlobalTemp2m => is_global_temp_2m(r),
        FieldLayer::GlobalDewpoint2m => is_global_dewpoint_2m(r),
        FieldLayer::GlobalWind10m => is_global_wind_10m(r),
        FieldLayer::GlobalPrecip => is_global_precip(r),
        FieldLayer::Hca => is_hca(r),
        FieldLayer::GlmFed => is_glm_fed(r),
        FieldLayer::SnowBands => is_snow_bands(r),
        FieldLayer::ThunderProb => is_thunder_prob(r),
        _ => false,
    }
}

/// The color scale for `layer`, or `None` for layers colored some other way.
///
/// Locally derived twins share the scale of their counterparts, and there is one hail scale: a
/// number means the same thing whichever source drew it.
pub fn ramp_for(layer: FieldLayer) -> (r: Option<FieldRamp>)
    ensures
        r is None <==> has_no_ramp(layer),
        r is Some ==> colors(layer, r->0),
{
    match layer {
        FieldLayer::Rotation | FieldLayer::AzShear => Some(rotation()),
        FieldLayer::Mesh => Some(mesh()),
        FieldLayer::HailSwath => Some(hail_swath()),
        FieldLayer::PrecipRate => Some(precip_rate()),
        FieldLayer::Qpe1h => Some(qpe_1h()),
        FieldLayer::Qpe24h => Some(qpe_24h()),
        FieldLayer::Cape => Some(cape()),
        FieldLayer::Srh => Some(srh()),
        FieldLayer::FlashFlood => Some(flash_flood()),
        FieldLayer::Vil | FieldLayer::VilLocal => Some(vil()),
        FieldLayer::EchoTops | FieldLayer::EtopLocal => Some(echo_tops()),
        FieldLayer::VilDensity => Some(vil_density()),
        FieldLayer::HailMehs => Some(mesh()),
        FieldLayer::HailPosh => Some(posh()),
        FieldLayer::PrecipType => Some(precip_type()),
        FieldLayer::UpdraftHelicity => Some(updraft_helicity()),
        FieldLayer::Smoke => Some(smoke()),
        FieldLayer::Snowfall => Some(snowfall()),
        FieldLayer::SnowAnalysis => Some(snow_analysis()),
        FieldLayer::GlobalMslp => Some(global_mslp()),
        FieldLayer::GlobalHeight500 => Some(global_height_500()),
        FieldLayer::GlobalTemp2m => Some(global_temp_2m()),
        FieldLayer::GlobalDewpoint2m => Some(global_dewpoint_2m()),
        FieldLayer::GlobalWind10m => Some(global_wind_10m()),
        FieldLayer::GlobalPrecip => Some(global_precip()),
        FieldLayer::Hca => Some(hca()),
        FieldLayer::GlmFed => Some(glm_fed()),
        FieldLayer::SnowBands => Some(snow_bands()),
        FieldLayer::ThunderProb => Some(thunder_prob()),
        FieldLayer::Mrms
        | FieldLayer::Mosaic
        | FieldLayer::CompositeLocal
        | FieldLayer::Hrrr
        | FieldLayer::Lightning
        | FieldLayer::ModelDiff
        | FieldLayer::CompareA
        | FieldLayer::CompareB
        | FieldLayer::GoesIr => None,
    }
}

/// The stops of a scale run from 0 to 1 in ascending order.
pub open spec fn stops_ascend(stops: Seq<(u16, Rgb)>) -> bool {
    &&& stops.len() >= 2
    &&& stops[0].0 == 0
    &&& stops.last().0 == 1000
    &&& forall|i: int| 0 <= i < stops.len() - 1 ==> #[trigger] stops[i].0 < stops[i + 1].0
}

/// Every ramp has its bounds in order and stops that cover the whole scale.
pub proof fn ramps_are_ordered(layer: FieldLayer, r: FieldRamp)
    requires
        colors(layer, r),
    ensures
        r.scale is Ramp ==> r.scale->lo < r.scale->hi && stops_ascend(r.scale->stops@),
{
}

/// Every ramp has a heading.
pub proof fn ramps_are_labeled(layer: FieldLayer, r: FieldRamp)
    requires
        colors(layer, r),
    ensures
        r.label@.len() > 0,
{
    reveal_strlit("10 m wind");
    reveal_strlit("2 m dewpoint");
    reveal_strlit("2 m temp");
    reveal_strlit("500 hPa height");
    reveal_strlit("CAPE");
    reveal_strlit("Chance of thunder");
    reveal_strlit("Flash density");
    reveal_strlit("Flood recurrence");
    reveal_strlit("Forecast rotation");
    reveal_strlit("Hail size");
    reveal_strlit("Hail swaths (24 h)");
    reveal_strlit("Helicity");
    reveal_strlit("Hydrometeor class");
    reveal_strlit("MSLP");
    reveal_strlit("Precip type");
    reveal_strlit("Precipitable water");
    reveal_strlit("Rain (1 h)");
    reveal_strlit("Rain (24 h)");
    reveal_strlit("Rain rate");
    reveal_strlit("Rotation");
    reveal_strlit("Severe hail probability");
    reveal_strlit("Smoke");
    reveal_strlit("Snow bands");
    reveal_strlit("Snowfall (observed)");
    reveal_strlit("Snowfall");
    reveal_strlit("Storm tops");
    reveal_strlit("VIL density");
    reveal_strlit("Water aloft (VIL)");
    reveal_strlit("Wind");
}

/// Only the two Kelvin fields ask the legend to convert.
pub proof fn only_kelvin_ramps_convert(layer: FieldLayer, r: FieldRamp)
    requires
        colors(layer, r),
    ensures
        r.is_temp_kelvin <==> layer == FieldLayer::GlobalTemp2m || layer
            == FieldLayer::GlobalDewpoint2m,
        r.is_temp_kelvin ==> r.units@ == "K"@,
{
}

/// A legend gives its bounds in tens of thousandths: a temperature counts from absolute zero and is
/// told in the chosen unit, anything else in its own.
pub proof fn legends_are_in_their_unit(r: FieldRamp, lo: i64, hi: i64)
    requires
        r.scale matches FieldScale::Ramp { lo: l, hi: h, .. } && l == lo && h == hi,
    ensures
        r.is_temp_kelvin ==> {
            let c = r.legend(TempUnit::Celsius);
            let f = r.legend(TempUnit::Fahrenheit);
            &&& c.0 == 10 * (lo - 273_150) && c.1 == 10 * (hi - 273_150)
            &&& 5 * (f.0 - 320_000) == 9 * c.0 && 5 * (f.1 - 320_000) == 9 * c.1
        },
        !r.is_temp_kelvin ==> r.legend(TempUnit::Celsius) == (10 * lo, 10 * hi, r.units@),
        !r.is_temp_kelvin ==> r.legend(TempUnit::Fahrenheit) == r.legend(TempUnit::Celsius),
{
}

} // verus!
