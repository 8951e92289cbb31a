//! Which upstream failure domain each source uses.
//!
//! A source's display name answers "which layer is this?"; an endpoint family answers "which
//! upstream does it depend on?". The health view must not reverse-engineer providers from labels.

use crate::render::FieldLayer;
use vstd::prelude::*;

verus! {

/// A stable, coarse upstream family: a service rather than a single URL. Hosts and paths change,
/// while the useful fact is that several failed rows all depend on the same service.
#[derive(Debug, Clone, Copy, PartialEq, Eq, Structural)]
pub enum EndpointFamily {
    RadarLevel2,
    RadarProducts,
    NoaaMrms,
    NoaaNcepModels,
    GlobalModels,
    MixedModels,
    GoesOpenData,
    NwsApi,
    NoaaMapServices,
    NoaaOperationalFiles,
    IowaMesonet,
    AviationWeather,
    CommunityFeed,
    PublicPartnerApi,
    MultiProvider,
    UserConfigured,
    LocalProcessing,
}

/// The registry that a gridded product comes from.
#[derive(Debug, Clone, Copy, PartialEq, Eq, Structural)]
pub enum DataSource {
    NoaaMrms,
    NoaaNcepModels,
    GlobalModels,
}

impl EndpointFamily {
    /// Stable machine-readable identifier.
    pub open spec fn id_text(self) -> Seq<char> {
        match self {
            EndpointFamily::RadarLevel2 => "radar-level2"@,
            EndpointFamily::RadarProducts => "radar-products"@,
            EndpointFamily::NoaaMrms => "noaa-mrms"@,
            EndpointFamily::NoaaNcepModels => "noaa-ncep-models"@,
            EndpointFamily::GlobalModels => "global-models"@,
            EndpointFamily::MixedModels => "mixed-models"@,
            EndpointFamily::GoesOpenData => "goes-open-data"@,
            EndpointFamily::NwsApi => "nws-api"@,
            EndpointFamily::NoaaMapServices => "noaa-map-services"@,
            EndpointFamily::NoaaOperationalFiles => "noaa-operational-files"@,
            EndpointFamily::IowaMesonet => "iowa-mesonet"@,
            EndpointFamily::AviationWeather => "aviation-weather"@,
            EndpointFamily::CommunityFeed => "community-feed"@,
            EndpointFamily::PublicPartnerApi => "public-partner-api"@,
            EndpointFamily::MultiProvider => "multi-provider"@,
            EndpointFamily::UserConfigured => "user-configured"@,
            EndpointFamily::LocalProcessing => "local-processing"@,
        }
    }

    /// Stable machine-readable identifier.
    pub fn id(self) -> (r: &'static str)
        ensures
            r@ == self.id_text(),
    {
        match self {
            EndpointFamily::RadarLevel2 => "radar-level2",
            EndpointFamily::RadarProducts => "radar-products",
            EndpointFamily::NoaaMrms => "noaa-mrms",
            EndpointFamily::NoaaNcepModels => "noaa-ncep-models",
            EndpointFamily::GlobalModels => "global-models",
            EndpointFamily::MixedModels => "mixed-models",
            EndpointFamily::GoesOpenData => "goes-open-data",
            EndpointFamily::NwsApi => "nws-api",
            EndpointFamily::NoaaMapServices => "noaa-map-services",
            EndpointFamily::NoaaOperationalFiles => "noaa-operational-files",
            EndpointFamily::IowaMesonet => "iowa-mesonet",
            EndpointFamily::AviationWeather => "aviation-weather",
            EndpointFamily::CommunityFeed => "community-feed",
            EndpointFamily::PublicPartnerApi => "public-partner-api",
            EndpointFamily::MultiProvider => "multi-provider",
            EndpointFamily::UserConfigured => "user-configured",
            EndpointFamily::LocalProcessing => "local-processing",
        }
    }

    /// What the family is called.
    pub open spec fn label_text(self) -> Seq<char> {
        match self {
            EndpointFamily::RadarLevel2 => "Level II radar providers"@,
            EndpointFamily::RadarProducts => "NOAA radar products"@,
            EndpointFamily::NoaaMrms => "NOAA MRMS"@,
            EndpointFamily::NoaaNcepModels => "NOAA/NCEP model grids"@,
            EndpointFamily::GlobalModels => "Global model providers"@,
            EndpointFamily::MixedModels => "Multiple model providers"@,
            EndpointFamily::GoesOpenData => "NOAA GOES Open Data"@,
            EndpointFamily::NwsApi => "NWS API"@,
            EndpointFamily::NoaaMapServices => "NOAA map services"@,
            EndpointFamily::NoaaOperationalFiles => "NOAA operational files"@,
            EndpointFamily::IowaMesonet => "Iowa Environmental Mesonet"@,
            EndpointFamily::AviationWeather => "AviationWeather.gov"@,
            EndpointFamily::CommunityFeed => "Community network"@,
            EndpointFamily::PublicPartnerApi => "Public partner API"@,
            EndpointFamily::MultiProvider => "Multiple providers"@,
            EndpointFamily::UserConfigured => "User-configured endpoint"@,
            EndpointFamily::LocalProcessing => "Local processing"@,
        }
    }

    /// What the family is called.
    pub fn label(self) -> (r: &'static str)
        ensures
            r@ == self.label_text(),
    {
        match self {
            EndpointFamily::RadarLevel2 => "Level II radar providers",
            EndpointFamily::RadarProducts => "NOAA radar products",
            EndpointFamily::NoaaMrms => "NOAA MRMS",
            EndpointFamily::NoaaNcepModels => "NOAA/NCEP model grids",
            EndpointFamily::GlobalModels => "Global model providers",
            EndpointFamily::MixedModels => "Multiple model providers",
            EndpointFamily::GoesOpenData => "NOAA GOES Open Data",
            EndpointFamily::NwsApi => "NWS API",
            EndpointFamily::NoaaMapServices => "NOAA map services",
            EndpointFamily::NoaaOperationalFiles => "NOAA operational files",
            EndpointFamily::IowaMesonet => "Iowa Environmental Mesonet",
            EndpointFamily::AviationWeather => "AviationWeather.gov",
            EndpointFamily::CommunityFeed => "Community network",
            EndpointFamily::PublicPartnerApi => "Public partner API",
            EndpointFamily::MultiProvider => "Multiple providers",
            EndpointFamily::UserConfigured => "User-configured endpoint",
            EndpointFamily::LocalProcessing => "Local processing",
        }
    }

}

/// A non-grid request lane. Its label, its cadence and its endpoint family are chosen together, so
/// source health never has to infer provider metadata from a human-facing string.
#[derive(Debug, Clone, Copy, PartialEq, Eq, Hash, Structural)]
pub enum FeedSource {
    WeatherAlerts,
    MesoscaleDiscussions,
    WatchBoxes,
    WinterStormSeverity,
    ExcessiveRainfallOutlook,
    FireWeatherOutlook,
    MpingReports,
    PilotReports,
    HurricaneReconnaissance,
    SpcOutlook,
    StormCells,
    ArchivedStormReports,
    StormReports,
    SpotterNetwork,
    ProbSevere,
    SurfaceAnalysis,
    FreezingLevels,
    RadarObservations,
    VadProfile,
    ArchivedWarnings,
    AviationAdvisories,
    TemporaryFlightRestrictions,
    SurfaceObservations,
    Webcams,
    Wildfires,
    AirQuality,
    LiveStations,
    ElectricField,
    HighwayCameras,
    FieldMill,
    DamageSurveys,
    RiverGauges,
    ModelContours,
    PowerOutages,
    TropicalCyclones,
    WindParticles,
    DerivedRadarFields,
}

impl FeedSource {
    /// What the feed is called.
    pub open spec fn label_text(self) -> Seq<char> {
        match self {
            FeedSource::WeatherAlerts => "Weather alerts"@,
            FeedSource::MesoscaleDiscussions => "Mesoscale discussions"@,
            FeedSource::WatchBoxes => "Watch boxes"@,
            FeedSource::WinterStormSeverity => "Winter storm severity"@,
            FeedSource::ExcessiveRainfallOutlook => "Excessive rainfall outlook"@,
            FeedSource::FireWeatherOutlook => "Fire weather outlook"@,
            FeedSource::MpingReports => "mPING reports"@,
            FeedSource::PilotReports => "Pilot reports"@,
            FeedSource::HurricaneReconnaissance => "Hurricane reconnaissance"@,
            FeedSource::SpcOutlook => "SPC outlook"@,
            FeedSource::StormCells => "Storm cells"@,
            FeedSource::ArchivedStormReports => "Archived storm reports"@,
            FeedSource::StormReports => "Storm reports"@,
            FeedSource::SpotterNetwork => "Spotter Network"@,
            FeedSource::ProbSevere => "ProbSevere"@,
            FeedSource::SurfaceAnalysis => "Surface analysis"@,
            FeedSource::FreezingLevels => "Freezing levels"@,
            FeedSource::RadarObservations => "Radar observations"@,
            FeedSource::VadProfile => "VAD profile"@,
            FeedSource::ArchivedWarnings => "Archived warnings"@,
            FeedSource::AviationAdvisories => "Aviation advisories"@,
            FeedSource::TemporaryFlightRestrictions => "Temporary flight restrictions"@,
            FeedSource::SurfaceObservations => "Surface observations"@,
            FeedSource::Webcams => "Webcams"@,
            FeedSource::Wildfires => "Wildfires"@,
            FeedSource::AirQuality => "Air quality"@,
            FeedSource::LiveStations => "Live stations"@,
            FeedSource::ElectricField => "Electric field"@,
            FeedSource::HighwayCameras => "Highway cameras"@,
            FeedSource::FieldMill => "Field mill"@,
            FeedSource::DamageSurveys => "Damage surveys"@,
            FeedSource::RiverGauges => "River gauges"@,
            FeedSource::ModelContours => "Model contours"@,
            FeedSource::PowerOutages => "Power outages"@,
            FeedSource::TropicalCyclones => "Tropical cyclones"@,
            FeedSource::WindParticles => "Wind particles"@,
            FeedSource::DerivedRadarFields => "Derived radar fields"@,
        }
    }

    /// What the feed is called.
    pub fn label(self) -> (r: &'static str)
        ensures
            r@ == self.label_text(),
    {
        match self {
            FeedSource::WeatherAlerts => "Weather alerts",
            FeedSource::MesoscaleDiscussions => "Mesoscale discussions",
            FeedSource::WatchBoxes => "Watch boxes",
            FeedSource::WinterStormSeverity => "Winter storm severity",
            FeedSource::ExcessiveRainfallOutlook => "Excessive rainfall outlook",
            FeedSource::FireWeatherOutlook => "Fire weather outlook",
            FeedSource::MpingReports => "mPING reports",
            FeedSource::PilotReports => "Pilot reports",
            FeedSource::HurricaneReconnaissance => "Hurricane reconnaissance",
            FeedSource::SpcOutlook => "SPC outlook",
            FeedSource::StormCells => "Storm cells",
            FeedSource::ArchivedStormReports => "Archived storm reports",
            FeedSource::StormReports => "Storm reports",
            FeedSource::SpotterNetwork => "Spotter Network",
            FeedSource::ProbSevere => "ProbSevere",
            FeedSource::SurfaceAnalysis => "Surface analysis",
            FeedSource::FreezingLevels => "Freezing levels",
            FeedSource::RadarObservations => "Radar observations",
            FeedSource::VadProfile => "VAD profile",
            FeedSource::ArchivedWarnings => "Archived warnings",
            FeedSource::AviationAdvisories => "Aviation advisories",
            FeedSource::TemporaryFlightRestrictions => "Temporary flight restrictions",
            FeedSource::SurfaceObservations => "Surface observations",
            FeedSource::Webcams => "Webcams",
            FeedSource::Wildfires => "Wildfires",
            FeedSource::AirQuality => "Air quality",
            FeedSource::LiveStations => "Live stations",
            FeedSource::ElectricField => "Electric field",
            FeedSource::HighwayCameras => "Highway cameras",
            FeedSource::FieldMill => "Field mill",
            FeedSource::DamageSurveys => "Damage surveys",
            FeedSource::RiverGauges => "River gauges",
            FeedSource::ModelContours => "Model contours",
            FeedSource::PowerOutages => "Power outages",
            FeedSource::TropicalCyclones => "Tropical cyclones",
            FeedSource::WindParticles => "Wind particles",
            FeedSource::DerivedRadarFields => "Derived radar fields",
        }
    }

    /// How often the feed is asked, in seconds.
    pub open spec fn cadence(self) -> u64 {
        match self {
            FeedSource::SpotterNetwork
            | FeedSource::LiveStations
            | FeedSource::FieldMill
            | FeedSource::DerivedRadarFields => 60,
            FeedSource::SurfaceObservations => 75,
            FeedSource::MpingReports
            | FeedSource::PowerOutages
            | FeedSource::RiverGauges
            | FeedSource::ElectricField
            | FeedSource::VadProfile
            | FeedSource::ArchivedWarnings => 300,
            FeedSource::Webcams => 480,
            FeedSource::HurricaneReconnaissance
            | FeedSource::AviationAdvisories
            | FeedSource::RadarObservations => 600,
            FeedSource::TropicalCyclones
            | FeedSource::Wildfires
            | FeedSource::AirQuality
            | FeedSource::TemporaryFlightRestrictions
            | FeedSource::WindParticles
            | FeedSource::FreezingLevels
            | FeedSource::ModelContours => 900,
            FeedSource::SurfaceAnalysis
            | FeedSource::ArchivedStormReports => 1_800,
            FeedSource::HighwayCameras
            | FeedSource::DamageSurveys => 3_600,
            _ => 120,
        }
    }

    /// How often the feed is asked, in seconds.
    pub fn cadence_secs(self) -> (r: u64)
        ensures
            r == self.cadence(),
    {
        match self {
            FeedSource::SpotterNetwork
            | FeedSource::LiveStations
            | FeedSource::FieldMill
            | FeedSource::DerivedRadarFields => 60,
            FeedSource::SurfaceObservations => 75,
            FeedSource::MpingReports
            | FeedSource::PowerOutages
            | FeedSource::RiverGauges
            | FeedSource::ElectricField
            | FeedSource::VadProfile
            | FeedSource::ArchivedWarnings => 300,
            FeedSource::Webcams => 480,
            FeedSource::HurricaneReconnaissance
            | FeedSource::AviationAdvisories
            | FeedSource::RadarObservations => 600,
            FeedSource::TropicalCyclones
            | FeedSource::Wildfires
            | FeedSource::AirQuality
            | FeedSource::TemporaryFlightRestrictions
            | FeedSource::WindParticles
            | FeedSource::FreezingLevels
            | FeedSource::ModelContours => 900,
            FeedSource::SurfaceAnalysis
            | FeedSource::ArchivedStormReports => 1_800,
            FeedSource::HighwayCameras
            | FeedSource::DamageSurveys => 3_600,
            _ => 120,
        }
    }

    /// The upstream that the feed depends on.
    pub open spec fn family(self) -> EndpointFamily {
        match self {
            FeedSource::WeatherAlerts
            | FeedSource::SurfaceAnalysis => EndpointFamily::NwsApi,
            FeedSource::MesoscaleDiscussions
            | FeedSource::WatchBoxes
            | FeedSource::WinterStormSeverity
            | FeedSource::ExcessiveRainfallOutlook
            | FeedSource::FireWeatherOutlook
            | FeedSource::DamageSurveys => EndpointFamily::NoaaMapServices,
            FeedSource::SpcOutlook
            | FeedSource::HurricaneReconnaissance
            | FeedSource::TropicalCyclones => EndpointFamily::NoaaOperationalFiles,
            FeedSource::StormReports
            | FeedSource::ArchivedStormReports
            | FeedSource::ArchivedWarnings => EndpointFamily::IowaMesonet,
            FeedSource::PilotReports
            | FeedSource::AviationAdvisories
            | FeedSource::SurfaceObservations => EndpointFamily::AviationWeather,
            FeedSource::StormCells
            | FeedSource::RadarObservations
            | FeedSource::VadProfile => EndpointFamily::RadarProducts,
            FeedSource::ProbSevere => EndpointFamily::NoaaMrms,
            FeedSource::FreezingLevels
            | FeedSource::ModelContours
            | FeedSource::WindParticles => EndpointFamily::NoaaNcepModels,
            FeedSource::SpotterNetwork => EndpointFamily::CommunityFeed,
            FeedSource::Webcams
            | FeedSource::LiveStations
            | FeedSource::HighwayCameras => EndpointFamily::MultiProvider,
            FeedSource::MpingReports
            | FeedSource::Wildfires
            | FeedSource::AirQuality
            | FeedSource::TemporaryFlightRestrictions
            | FeedSource::ElectricField
            | FeedSource::PowerOutages
            | FeedSource::RiverGauges => EndpointFamily::PublicPartnerApi,
            FeedSource::DerivedRadarFields => EndpointFamily::LocalProcessing,
            FeedSource::FieldMill => EndpointFamily::UserConfigured,
        }
    }

    /// The upstream that the feed depends on.
    pub fn endpoint_family(self) -> (r: EndpointFamily)
        ensures
            r == self.family(),
    {
        match self {
            FeedSource::WeatherAlerts
            | FeedSource::SurfaceAnalysis => EndpointFamily::NwsApi,
            FeedSource::MesoscaleDiscussions
            | FeedSource::WatchBoxes
            | FeedSource::WinterStormSeverity
            | FeedSource::ExcessiveRainfallOutlook
            | FeedSource::FireWeatherOutlook
            | FeedSource::DamageSurveys => EndpointFamily::NoaaMapServices,
            FeedSource::SpcOutlook
            | FeedSource::HurricaneReconnaissance
            | FeedSource::TropicalCyclones => EndpointFamily::NoaaOperationalFiles,
            FeedSource::StormReports
            | FeedSource::ArchivedStormReports
            | FeedSource::ArchivedWarnings => EndpointFamily::IowaMesonet,
            FeedSource::PilotReports
            | FeedSource::AviationAdvisories
            | FeedSource::SurfaceObservations => EndpointFamily::AviationWeather,
            FeedSource::StormCells
            | FeedSource::RadarObservations
            | FeedSource::VadProfile => EndpointFamily::RadarProducts,
            FeedSource::ProbSevere => EndpointFamily::NoaaMrms,
            FeedSource::FreezingLevels
            | FeedSource::ModelContours
            | FeedSource::WindParticles => EndpointFamily::NoaaNcepModels,
            FeedSource::SpotterNetwork => EndpointFamily::CommunityFeed,
            FeedSource::Webcams
            | FeedSource::LiveStations
            | FeedSource::HighwayCameras => EndpointFamily::MultiProvider,
            FeedSource::MpingReports
            | FeedSource::Wildfires
            | FeedSource::AirQuality
            | FeedSource::TemporaryFlightRestrictions
            | FeedSource::ElectricField
            | FeedSource::PowerOutages
            | FeedSource::RiverGauges => EndpointFamily::PublicPartnerApi,
            FeedSource::DerivedRadarFields => EndpointFamily::LocalProcessing,
            FeedSource::FieldMill => EndpointFamily::UserConfigured,
        }
    }
}

/// The upstream that a gridded layer depends on: that of its registry, where it has one.
pub open spec fn field_family(layer: FieldLayer, source: Option<DataSource>) -> EndpointFamily {
    match source {
        Some(DataSource::NoaaMrms) => EndpointFamily::NoaaMrms,
        Some(DataSource::NoaaNcepModels) => EndpointFamily::NoaaNcepModels,
        Some(DataSource::GlobalModels) => EndpointFamily::GlobalModels,
        None => match layer {
            FieldLayer::Mosaic | FieldLayer::Vil | FieldLayer::EchoTops | FieldLayer::Hca => {
                EndpointFamily::RadarProducts
            },
            FieldLayer::SnowBands => EndpointFamily::NoaaMrms,
            FieldLayer::GlmFed | FieldLayer::GoesIr => EndpointFamily::GoesOpenData,
            FieldLayer::ModelDiff | FieldLayer::CompareA | FieldLayer::CompareB => {
                EndpointFamily::MixedModels
            },
            FieldLayer::SnowAnalysis => EndpointFamily::NoaaOperationalFiles,
            _ => EndpointFamily::LocalProcessing,
        },
    }
}

/// Endpoint family for a gridded layer. A layer with an entry in the product registry inherits the
/// registry's source, so adding another product classifies its health row too. Locally derived
/// fields normally have no request of their own.
pub fn field_endpoint_family(layer: FieldLayer, source: Option<DataSource>) -> (r: EndpointFamily)
    ensures
        r == field_family(layer, source),
{
    match source {
        Some(DataSource::NoaaMrms) => EndpointFamily::NoaaMrms,
        Some(DataSource::NoaaNcepModels) => EndpointFamily::NoaaNcepModels,
        Some(DataSource::GlobalModels) => EndpointFamily::GlobalModels,
        None => match layer {
            FieldLayer::Mosaic | FieldLayer::Vil | FieldLayer::EchoTops | FieldLayer::Hca => {
                EndpointFamily::RadarProducts
            },
            FieldLayer::SnowBands => EndpointFamily::NoaaMrms,
            FieldLayer::GlmFed | FieldLayer::GoesIr => EndpointFamily::GoesOpenData,
            FieldLayer::ModelDiff | FieldLayer::CompareA | FieldLayer::CompareB => {
                EndpointFamily::MixedModels
            },
            FieldLayer::SnowAnalysis => EndpointFamily::NoaaOperationalFiles,
            _ => EndpointFamily::LocalProcessing,
        },
    }
}

/// No two families share an identifier.
pub proof fn ids_tell_families_apart(a: EndpointFamily, b: EndpointFamily)
    requires
        a.id_text() == b.id_text(),
    ensures
        a == b,
{
    reveal_strlit("radar-level2");
    reveal_strlit("radar-products");
    reveal_strlit("noaa-mrms");
    reveal_strlit("noaa-ncep-models");
    reveal_strlit("global-models");
    reveal_strlit("mixed-models");
    reveal_strlit("goes-open-data");
    reveal_strlit("nws-api");
    reveal_strlit("noaa-map-services");
    reveal_strlit("noaa-operational-files");
    reveal_strlit("iowa-mesonet");
    reveal_strlit("aviation-weather");
    reveal_strlit("community-feed");
    reveal_strlit("public-partner-api");
    reveal_strlit("multi-provider");
    reveal_strlit("user-configured");
    reveal_strlit("local-processing");
    let x = a.id_text();
    let y = b.id_text();
    assert(x.len() == y.len() && x[0] == y[0]);
}

/// A feed is asked at least once an hour and at most once a minute.
pub proof fn cadences_are_sane(f: FeedSource)
    ensures
        60 <= f.cadence() <= 3600,
{
}

/// No two families share a name.
pub proof fn family_names_differ(a: EndpointFamily, b: EndpointFamily)
    requires
        a.label_text() == b.label_text(),
    ensures
        a == b,
{
    reveal_strlit("Level II radar providers");
    reveal_strlit("NOAA radar products");
    reveal_strlit("NOAA MRMS");
    reveal_strlit("NOAA/NCEP model grids");
    reveal_strlit("Global model providers");
    reveal_strlit("Multiple model providers");
    reveal_strlit("NOAA GOES Open Data");
    reveal_strlit("NWS API");
    reveal_strlit("NOAA map services");
    reveal_strlit("NOAA operational files");
    reveal_strlit("Iowa Environmental Mesonet");
    reveal_strlit("AviationWeather.gov");
    reveal_strlit("Community network");
    reveal_strlit("Public partner API");
    reveal_strlit("Multiple providers");
    reveal_strlit("User-configured endpoint");
    reveal_strlit("Local processing");
    let x = a.label_text();
    let y = b.label_text();
    assert(x.len() == y.len() && x[5] == y[5]);
}

/// No two feeds share a name.
pub proof fn feed_names_differ(a: FeedSource, b: FeedSource)
    requires
        a.label_text() == b.label_text(),
    ensures
        a == b,
{
    reveal_strlit("Weather alerts");
    reveal_strlit("Mesoscale discussions");
    reveal_strlit("Watch boxes");
    reveal_strlit("Winter storm severity");
    reveal_strlit("Excessive rainfall outlook");
    reveal_strlit("Fire weather outlook");
    reveal_strlit("mPING reports");
    reveal_strlit("Pilot reports");
    reveal_strlit("Hurricane reconnaissance");
    reveal_strlit("SPC outlook");
    reveal_strlit("Storm cells");
    reveal_strlit("Archived storm reports");
    reveal_strlit("Storm reports");
    reveal_strlit("Spotter Network");
    reveal_strlit("ProbSevere");
    reveal_strlit("Surface analysis");
    reveal_strlit("Freezing levels");
    reveal_strlit("Radar observations");
    reveal_strlit("VAD profile");
    reveal_strlit("Archived warnings");
    reveal_strlit("Aviation advisories");
    reveal_strlit("Temporary flight restrictions");
    reveal_strlit("Surface observations");
    reveal_strlit("Webcams");
    reveal_strlit("Wildfires");
    reveal_strlit("Air quality");
    reveal_strlit("Live stations");
    reveal_strlit("Electric field");
    reveal_strlit("Highway cameras");
    reveal_strlit("Field mill");
    reveal_strlit("Damage surveys");
    reveal_strlit("River gauges");
    reveal_strlit("Model contours");
    reveal_strlit("Power outages");
    reveal_strlit("Tropical cyclones");
    reveal_strlit("Wind particles");
    reveal_strlit("Derived radar fields");
    let x = a.label_text();
    let y = b.label_text();
    assert(x.len() == y.len() && x[0] == y[0] && x[1] == y[1]);
}

/// A layer of the registry depends on the upstream of its registry, whatever layer it is, and each
/// registry has its own; a layer that is computed here depends on none.
pub proof fn registries_decide_the_upstream(
    a: FieldLayer,
    b: FieldLayer,
    s: DataSource,
    t: DataSource,
)
    ensures
        field_family(a, Some(s)) == field_family(b, Some(s)),
        field_family(a, Some(s)) == field_family(b, Some(t)) ==> s == t,
        field_family(a, Some(DataSource::NoaaMrms)) == EndpointFamily::NoaaMrms,
        field_family(a, Some(DataSource::GlobalModels)) == EndpointFamily::GlobalModels,
        field_family(a, Some(s)) != EndpointFamily::LocalProcessing,
{
}

/// Warnings are asked for every two minutes, and what is measured once an hour no more often.
pub proof fn urgent_feeds_are_asked_often()
    ensures
        FeedSource::WeatherAlerts.cadence() == 120,
        FeedSource::HighwayCameras.cadence() == 60 * 60,
        FeedSource::DamageSurveys.cadence() == 60 * 60,
        FeedSource::SpotterNetwork.cadence() < FeedSource::WeatherAlerts.cadence(),
        FeedSource::DerivedRadarFields.family() == EndpointFamily::LocalProcessing,
        FeedSource::WeatherAlerts.family() == EndpointFamily::NwsApi,
{
}

} // verus!
