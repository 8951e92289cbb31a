//! The gridded field layers, the names they are saved under, and the order they are painted in.

use crate::text;
use vstd::prelude::*;

verus! {

/// A national gridded field layer. They share one warp pipeline and differ in data, colors and
/// draw order; the layers of the context band paint under the single-site radar, the rest above.
#[derive(Debug, Clone, Copy, PartialEq, Eq, Hash, Structural)]
pub enum FieldLayer {
    Mrms,
    Hrrr,
    Rotation,
    Mesh,
    AzShear,
    Lightning,
    /// Instantaneous precipitation rate (mm/hr) — how hard it is coming down right now,
    /// as against the QPE layers' how much has fallen.
    PrecipRate,
    Qpe1h,
    Qpe24h,
    /// HRRR surface CAPE (environment suite).
    Cape,
    /// HRRR storm-relative helicity (environment suite).
    Srh,
    /// MRMS surface precipitation type (categorical context layer).
    PrecipType,
    /// MRMS FLASH flash-flood average recurrence interval.
    FlashFlood,
    /// Gridded Digital VIL (L3 DVL packet-16 product).
    Vil,
    /// Enhanced Echo Tops (L3 EET packet-16 product).
    EchoTops,
    /// 24-hour MESH max — hail swaths / damage tracks (MRMS).
    HailSwath,
    /// Hybrid Hydrometeor Classification (L3 HHC packet-16 product, categorical).
    Hca,
    /// HRRR max updraft helicity — forecast rotation tracks.
    UpdraftHelicity,
    /// HRRR near-surface smoke (mass density).
    Smoke,
    /// Multi-radar base-reflectivity composite (L3 N0B from every radar covering the view).
    Mosaic,
    /// Column-maximum reflectivity from this radar's own volume — the strongest echo anywhere
    /// above each point. Unlike the MRMS composite this is one site at its own resolution, and
    /// it works in archive replay.
    CompositeLocal,
    /// VIL integrated locally from the Level 2 volume (works in archive replay, unlike L3 DVL).
    VilLocal,
    /// VIL density — VIL over echo-top height, the classic large-hail discriminator.
    VilDensity,
    /// Echo tops integrated locally from the Level 2 volume, at a user-set dBZ threshold.
    EtopLocal,
    /// Maximum Expected Hail Size derived from the volume (Witt et al. 1998).
    HailMehs,
    /// Probability of Severe Hail derived from the volume (Witt et al. 1998).
    HailPosh,
    /// HRRR accumulated snowfall through the scrubbed forecast hour.
    Snowfall,
    /// NOHRSC observed snowfall analysis over the last 6/24/48/72 hours.
    SnowAnalysis,
    /// Global model mean sea-level pressure (GFS or ECMWF — see `settings.global_model`).
    GlobalMslp,
    /// Global model 500 hPa geopotential height.
    GlobalHeight500,
    /// Global model 2 m temperature.
    GlobalTemp2m,
    /// Global model 2 m dewpoint.
    GlobalDewpoint2m,
    /// Global model 10 m wind speed.
    GlobalWind10m,
    /// Global model precipitable water / total precipitation.
    GlobalPrecip,
    /// Banded precipitation from the MRMS mosaic, narrowed to snow — the snow-squall layer.
    SnowBands,
    /// NBM calibrated probability of thunder over the hour ending at the scrubbed forecast hour.
    ThunderProb,
    /// GLM flash-extent density — the recent satellite flashes gridded into a density field.
    GlmFed,
    /// One model minus another — which field, and therefore which pair, is `app.diff_field`.
    ModelDiff,
    /// Model-comparison side A (`app.diff_field.pair().0`'s own field, unsubtracted) — meant for
    /// a pane of its own, next to a `CompareB` pane, rather than one subtracted layer.
    CompareA,
    /// Model-comparison side B (`app.diff_field.pair().1`'s own field).
    CompareB,
    /// GOES-East ABI Band 13 (clean IR) brightness temperature, CONUS sector — read directly from
    /// the satellite's own S3 bucket rather than GIBS' pre-rendered tiles.
    GoesIr,
}

impl FieldLayer {
    /// Whether the layer belongs to the context band under the single-site radar.
    pub open spec fn is_context(self) -> bool {
        matches!(self, FieldLayer::Mrms
            | FieldLayer::Mosaic
            | FieldLayer::Hrrr
            | FieldLayer::Cape
            | FieldLayer::Srh
            | FieldLayer::PrecipType
            | FieldLayer::ThunderProb
            | FieldLayer::Smoke
            | FieldLayer::Snowfall
            | FieldLayer::SnowAnalysis
            | FieldLayer::GlobalMslp
            | FieldLayer::GlobalHeight500
            | FieldLayer::GlobalTemp2m
            | FieldLayer::GlobalDewpoint2m
            | FieldLayer::GlobalWind10m
            | FieldLayer::GlobalPrecip
            | FieldLayer::ModelDiff
            | FieldLayer::CompareA
            | FieldLayer::CompareB
            | FieldLayer::GoesIr)
    }

    /// Painting under the single-site radar (national context) vs. over it (severe signals).
    pub fn below_radar(self) -> (r: bool)
        ensures
            r == self.is_context(),
    {
        matches!(self, FieldLayer::Mrms
            | FieldLayer::Mosaic
            | FieldLayer::Hrrr
            | FieldLayer::Cape
            | FieldLayer::Srh
            | FieldLayer::PrecipType
            | FieldLayer::ThunderProb
            | FieldLayer::Smoke
            | FieldLayer::Snowfall
            | FieldLayer::SnowAnalysis
            | FieldLayer::GlobalMslp
            | FieldLayer::GlobalHeight500
            | FieldLayer::GlobalTemp2m
            | FieldLayer::GlobalDewpoint2m
            | FieldLayer::GlobalWind10m
            | FieldLayer::GlobalPrecip
            | FieldLayer::ModelDiff
            | FieldLayer::CompareA
            | FieldLayer::CompareB
            | FieldLayer::GoesIr)
    }

    /// Fixed bottom-to-top paint order within each band.
    pub const DRAW_ORDER: [FieldLayer; 41] = [
        FieldLayer::GoesIr,
        FieldLayer::GlobalMslp,
        FieldLayer::GlobalHeight500,
        FieldLayer::GlobalTemp2m,
        FieldLayer::GlobalDewpoint2m,
        FieldLayer::GlobalWind10m,
        FieldLayer::GlobalPrecip,
        FieldLayer::ModelDiff,
        FieldLayer::CompareA,
        FieldLayer::CompareB,
        FieldLayer::Mrms,
        FieldLayer::Mosaic,
        FieldLayer::Hrrr,
        FieldLayer::Cape,
        FieldLayer::Srh,
        FieldLayer::Smoke,
        FieldLayer::Snowfall,
        FieldLayer::SnowAnalysis,
        FieldLayer::PrecipType,
        FieldLayer::ThunderProb,
        FieldLayer::SnowBands,
        FieldLayer::PrecipRate,
        FieldLayer::Qpe1h,
        FieldLayer::Qpe24h,
        FieldLayer::FlashFlood,
        FieldLayer::HailSwath,
        FieldLayer::CompositeLocal,
        FieldLayer::Vil,
        FieldLayer::VilLocal,
        FieldLayer::EchoTops,
        FieldLayer::EtopLocal,
        FieldLayer::VilDensity,
        FieldLayer::HailMehs,
        FieldLayer::HailPosh,
        FieldLayer::Hca,
        FieldLayer::UpdraftHelicity,
        FieldLayer::Rotation,
        FieldLayer::Mesh,
        FieldLayer::AzShear,
        FieldLayer::Lightning,
        FieldLayer::GlmFed,
    ];

    /// The name under which the layer is saved.
    pub open spec fn slug_text(self) -> Seq<char> {
        match self {
            FieldLayer::Mrms => "mrms"@,
            FieldLayer::Hrrr => "hrrr"@,
            FieldLayer::Rotation => "rotation"@,
            FieldLayer::Mesh => "mesh"@,
            FieldLayer::AzShear => "azshear"@,
            FieldLayer::Lightning => "lightning"@,
            FieldLayer::PrecipRate => "preciprate"@,
            FieldLayer::Qpe1h => "qpe1h"@,
            FieldLayer::Qpe24h => "qpe24h"@,
            FieldLayer::Cape => "cape"@,
            FieldLayer::Srh => "srh"@,
            FieldLayer::PrecipType => "preciptype"@,
            FieldLayer::FlashFlood => "flashflood"@,
            FieldLayer::Vil => "vil"@,
            FieldLayer::EchoTops => "echotops"@,
            FieldLayer::HailSwath => "hailswath"@,
            FieldLayer::SnowBands => "snowbands"@,
            FieldLayer::ThunderProb => "thunderprob"@,
            FieldLayer::Hca => "hca"@,
            FieldLayer::UpdraftHelicity => "updrafthelicity"@,
            FieldLayer::Smoke => "smoke"@,
            FieldLayer::Mosaic => "mosaic"@,
            FieldLayer::CompositeLocal => "composite-local"@,
            FieldLayer::VilLocal => "vil-local"@,
            FieldLayer::VilDensity => "vil-density"@,
            FieldLayer::EtopLocal => "etop-local"@,
            FieldLayer::HailMehs => "hail-mehs"@,
            FieldLayer::HailPosh => "hail-posh"@,
            FieldLayer::Snowfall => "snowfall"@,
            FieldLayer::SnowAnalysis => "snow-analysis"@,
            FieldLayer::GlobalMslp => "global-mslp"@,
            FieldLayer::GlobalHeight500 => "global-height500"@,
            FieldLayer::GlobalTemp2m => "global-temp2m"@,
            FieldLayer::GlobalDewpoint2m => "global-dewpoint2m"@,
            FieldLayer::GlobalWind10m => "global-wind10m"@,
            FieldLayer::GlobalPrecip => "global-precip"@,
            FieldLayer::ModelDiff => "model-diff"@,
            FieldLayer::CompareA => "compare-a"@,
            FieldLayer::CompareB => "compare-b"@,
            FieldLayer::GlmFed => "glm-fed"@,
            FieldLayer::GoesIr => "goes-ir"@,
        }
    }

    /// Stable name for saved files: a workspace records which layers were on by slug, so a file
    /// written by a newer build names a layer this one skips rather than failing to load.
    pub fn slug(self) -> (r: &'static str)
        ensures
            r@ == self.slug_text(),
    {
        match self {
            FieldLayer::Mrms => "mrms",
            FieldLayer::Hrrr => "hrrr",
            FieldLayer::Rotation => "rotation",
            FieldLayer::Mesh => "mesh",
            FieldLayer::AzShear => "azshear",
            FieldLayer::Lightning => "lightning",
            FieldLayer::PrecipRate => "preciprate",
            FieldLayer::Qpe1h => "qpe1h",
            FieldLayer::Qpe24h => "qpe24h",
            FieldLayer::Cape => "cape",
            FieldLayer::Srh => "srh",
            FieldLayer::PrecipType => "preciptype",
            FieldLayer::FlashFlood => "flashflood",
            FieldLayer::Vil => "vil",
            FieldLayer::EchoTops => "echotops",
            FieldLayer::HailSwath => "hailswath",
            FieldLayer::SnowBands => "snowbands",
            FieldLayer::ThunderProb => "thunderprob",
            FieldLayer::Hca => "hca",
            FieldLayer::UpdraftHelicity => "updrafthelicity",
            FieldLayer::Smoke => "smoke",
            FieldLayer::Mosaic => "mosaic",
            FieldLayer::CompositeLocal => "composite-local",
            FieldLayer::VilLocal => "vil-local",
            FieldLayer::VilDensity => "vil-density",
            FieldLayer::EtopLocal => "etop-local",
            FieldLayer::HailMehs => "hail-mehs",
            FieldLayer::HailPosh => "hail-posh",
            FieldLayer::Snowfall => "snowfall",
            FieldLayer::SnowAnalysis => "snow-analysis",
            FieldLayer::GlobalMslp => "global-mslp",
            FieldLayer::GlobalHeight500 => "global-height500",
            FieldLayer::GlobalTemp2m => "global-temp2m",
            FieldLayer::GlobalDewpoint2m => "global-dewpoint2m",
            FieldLayer::GlobalWind10m => "global-wind10m",
            FieldLayer::GlobalPrecip => "global-precip",
            FieldLayer::ModelDiff => "model-diff",
            FieldLayer::CompareA => "compare-a",
            FieldLayer::CompareB => "compare-b",
            FieldLayer::GlmFed => "glm-fed",
            FieldLayer::GoesIr => "goes-ir",
        }
    }

    /// The place of the layer in the paint order.
    pub open spec fn paint_rank(self) -> int {
        match self {
            FieldLayer::GoesIr => 0,
            FieldLayer::GlobalMslp => 1,
            FieldLayer::GlobalHeight500 => 2,
            FieldLayer::GlobalTemp2m => 3,
            FieldLayer::GlobalDewpoint2m => 4,
            FieldLayer::GlobalWind10m => 5,
            FieldLayer::GlobalPrecip => 6,
            FieldLayer::ModelDiff => 7,
            FieldLayer::CompareA => 8,
            FieldLayer::CompareB => 9,
            FieldLayer::Mrms => 10,
            FieldLayer::Mosaic => 11,
            FieldLayer::Hrrr => 12,
            FieldLayer::Cape => 13,
            FieldLayer::Srh => 14,
            FieldLayer::Smoke => 15,
            FieldLayer::Snowfall => 16,
            FieldLayer::SnowAnalysis => 17,
            FieldLayer::PrecipType => 18,
            FieldLayer::ThunderProb => 19,
            FieldLayer::SnowBands => 20,
            FieldLayer::PrecipRate => 21,
            FieldLayer::Qpe1h => 22,
            FieldLayer::Qpe24h => 23,
            FieldLayer::FlashFlood => 24,
            FieldLayer::HailSwath => 25,
            FieldLayer::CompositeLocal => 26,
            FieldLayer::Vil => 27,
            FieldLayer::VilLocal => 28,
            FieldLayer::EchoTops => 29,
            FieldLayer::EtopLocal => 30,
            FieldLayer::VilDensity => 31,
            FieldLayer::HailMehs => 32,
            FieldLayer::HailPosh => 33,
            FieldLayer::Hca => 34,
            FieldLayer::UpdraftHelicity => 35,
            FieldLayer::Rotation => 36,
            FieldLayer::Mesh => 37,
            FieldLayer::AzShear => 38,
            FieldLayer::Lightning => 39,
            FieldLayer::GlmFed => 40,
        }
    }

    /// The layer saved under the name `s`, or `None` for a name this build doesn't have.
    pub fn from_slug(s: &str) -> (r: Option<FieldLayer>)
        ensures
            match r {
                Some(f) => f.slug_text() == s@,
                None => forall|f: FieldLayer| #[trigger] f.slug_text() != s@,
            },
    {
        let order = FieldLayer::DRAW_ORDER;
        let mut i: usize = 0;
        while i < 41
            invariant
                order@ == FieldLayer::DRAW_ORDER@,
                i <= 41,
                forall|j: int| 0 <= j < i ==> (#[trigger] order@[j]).slug_text() != s@,
            decreases 41 - i,
        {
            if text::same(order[i].slug(), s) {
                return Some(order[i]);
            }
            i = i + 1;
        }
        proof {
            assert forall|f: FieldLayer| #[trigger] f.slug_text() != s@ by {
                draw_order_holds_every_layer(f);
                assert(order@[f.paint_rank()] == f);
            }
        }
        None
    }
}

/// Every layer stands in the paint order, at its own place.
pub proof fn draw_order_holds_every_layer(f: FieldLayer)
    ensures
        0 <= f.paint_rank() < 41,
        FieldLayer::DRAW_ORDER@.len() == 41,
        FieldLayer::DRAW_ORDER@[f.paint_rank()] == f,
{
}

/// Saving a layer by name and reading the name back gives the layer: no two layers share a slug.
pub proof fn slugs_tell_layers_apart(a: FieldLayer, b: FieldLayer)
    requires
        a.slug_text() == b.slug_text(),
    ensures
        a == b,
{
    reveal_strlit("mrms");
    reveal_strlit("hrrr");
    reveal_strlit("rotation");
    reveal_strlit("mesh");
    reveal_strlit("azshear");
    reveal_strlit("lightning");
    reveal_strlit("preciprate");
    reveal_strlit("qpe1h");
    reveal_strlit("qpe24h");
    reveal_strlit("cape");
    reveal_strlit("srh");
    reveal_strlit("preciptype");
    reveal_strlit("flashflood");
    reveal_strlit("vil");
    reveal_strlit("echotops");
    reveal_strlit("hailswath");
    reveal_strlit("snowbands");
    reveal_strlit("thunderprob");
    reveal_strlit("hca");
    reveal_strlit("updrafthelicity");
    reveal_strlit("smoke");
    reveal_strlit("mosaic");
    reveal_strlit("composite-local");
    reveal_strlit("vil-local");
    reveal_strlit("vil-density");
    reveal_strlit("etop-local");
    reveal_strlit("hail-mehs");
    reveal_strlit("hail-posh");
    reveal_strlit("snowfall");
    reveal_strlit("snow-analysis");
    reveal_strlit("global-mslp");
    reveal_strlit("global-height500");
    reveal_strlit("global-temp2m");
    reveal_strlit("global-dewpoint2m");
    reveal_strlit("global-wind10m");
    reveal_strlit("global-precip");
    reveal_strlit("model-diff");
    reveal_strlit("compare-a");
    reveal_strlit("compare-b");
    reveal_strlit("glm-fed");
    reveal_strlit("goes-ir");
    let x = a.slug_text();
    let y = b.slug_text();
    assert(x.len() == y.len() && x[0] == y[0] && x[6] == y[6] && x[8] == y[8] && x[1] == y[1]);
}

/// The context band comes first in the paint order, the layers above the radar after it.
pub proof fn context_is_painted_first(a: FieldLayer, b: FieldLayer)
    requires
        a.is_context(),
        !b.is_context(),
    ensures
        a.paint_rank() < b.paint_rank(),
{
}

/// The layers from the bottom to the top, by the names they are saved under.
pub open spec fn names_bottom_to_top() -> Seq<Seq<char>> {
    seq![
        "goes-ir"@,
        "global-mslp"@,
        "global-height500"@,
        "global-temp2m"@,
        "global-dewpoint2m"@,
        "global-wind10m"@,
        "global-precip"@,
        "model-diff"@,
        "compare-a"@,
        "compare-b"@,
        "mrms"@,
        "mosaic"@,
        "hrrr"@,
        "cape"@,
        "srh"@,
        "smoke"@,
        "snowfall"@,
        "snow-analysis"@,
        "preciptype"@,
        "thunderprob"@,
        "snowbands"@,
        "preciprate"@,
        "qpe1h"@,
        "qpe24h"@,
        "flashflood"@,
        "hailswath"@,
        "composite-local"@,
        "vil"@,
        "vil-local"@,
        "echotops"@,
        "etop-local"@,
        "vil-density"@,
        "hail-mehs"@,
        "hail-posh"@,
        "hca"@,
        "updrafthelicity"@,
        "rotation"@,
        "mesh"@,
        "azshear"@,
        "lightning"@,
        "glm-fed"@,
    ]
}

/// Layers are painted in the order of this list of names: satellite and model fields at the bottom,
/// then mosaics and the model's own fields, and from the bands of snow on the severe signals, which
/// alone lie over the radar.
pub proof fn layers_are_painted_by_name(f: FieldLayer)
    ensures
        0 <= f.paint_rank() < 41,
        f.slug_text() == names_bottom_to_top()[f.paint_rank()],
        f.is_context() <==> f.paint_rank() < 20,
{
}

} // verus!
