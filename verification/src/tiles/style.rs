//! The basemaps that can lie under the radar: what they are called, where they come from, and what
//! each source serves.

use crate::text;
use vstd::prelude::*;

verus! {

/// Which provider (if any) a style needs an API key for.
#[derive(Debug, Clone, Copy, PartialEq, Eq, Structural)]
pub enum Provider {
    /// No key needed.
    Builtin,
    Mapbox,
    MapTiler,
}

/// Picker grouping for a [`BasemapStyle`].
#[derive(Debug, Clone, Copy, PartialEq, Eq, Structural)]
pub enum Category {
    Vector,
    Streets,
    Satellite,
    Topo,
    /// Rendered weather fields (national radar composites), not a map of the ground.
    Weather,
    Other,
}

impl Category {
    /// Groups in picker order.
    pub const ALL: [Category; 6] = [
        Category::Vector,
        Category::Streets,
        Category::Satellite,
        Category::Topo,
        Category::Weather,
        Category::Other,
    ];

    pub open spec fn label_text(self) -> Seq<char> {
        match self {
            Category::Vector => "Vector"@,
            Category::Streets => "Streets"@,
            Category::Satellite => "Satellite"@,
            Category::Topo => "Terrain"@,
            Category::Weather => "Weather"@,
            Category::Other => "Other"@,
        }
    }

    pub fn label(self) -> (r: &'static str)
        ensures
            r@ == self.label_text(),
    {
        match self {
            Category::Vector => "Vector",
            Category::Streets => "Streets",
            Category::Satellite => "Satellite",
            Category::Topo => "Terrain",
            Category::Weather => "Weather",
            Category::Other => "Other",
        }
    }
}

/// A look of the vector basemap.
#[derive(Debug, Clone, Copy, PartialEq, Eq, Structural)]
pub enum Palette {
    Dark,
    Light,
    Liberty,
    Bright,
    Positron,
    Midnight,
    /// Roads and boundaries alone, over imagery.
    HybridOverlay,
}

impl Palette {
    pub const ALL: [Palette; 7] = [
        Palette::Dark,
        Palette::Light,
        Palette::Liberty,
        Palette::Bright,
        Palette::Positron,
        Palette::Midnight,
        Palette::HybridOverlay,
    ];
}

/// A selectable basemap under the radar. Dark/Light are the vector basemap; Satellite is raster
/// imagery. The Mapbox and MapTiler styles are provider raster tiles, available only when the
/// matching API key is set.
#[derive(Debug, Clone, Copy, PartialEq, Eq, Structural)]
pub enum BasemapStyle {
    Dark,
    Light,
    Satellite,
    /// No basemap at all.
    Blank,
    /// NOAA GOES-East GeoColor via NASA GIBS (near-real-time satellite).
    GoesEast,
    /// NOAA GOES-West GeoColor via NASA GIBS.
    GoesWest,
    /// GOES-East Band 13 clean longwave infrared (works at night).
    GoesEastIR,
    /// GOES-West Band 13 clean longwave infrared.
    GoesWestIR,
    /// GOES-East Air Mass RGB (jet/dry-air structure).
    GoesEastAirMass,
    GoesWestAirMass,
    /// GOES-East Dust RGB (blowing dust / haboobs).
    GoesEastDust,
    GoesWestDust,
    /// GOES-East Fire Temperature RGB (hot spots / wildfire).
    GoesEastFire,
    GoesWestFire,
    /// Himawari-9 Band 13 clean longwave infrared (the western Pacific and Australia).
    HimawariIR,
    /// Himawari-9 Air Mass RGB.
    HimawariAirMass,
    /// Himawari-9 Band 3 red visible, 1 km.
    HimawariVisible,
    /// GPM IMERG half-hourly precipitation rate: global, including the oceans and everywhere
    /// without a radar.
    ImergRate,
    /// DWD's German radar composite: the RV product, which is the analysis followed by a
    /// two-hour nowcast, in 5-minute steps.
    DwdRadarRV,
    /// DWD's German radar composite, analysis only (the WN product).
    DwdRadarWN,
    /// ECCC's North American 1-km radar composite, rain field.
    EcccRadarRain,
    /// ECCC's North American 1-km radar composite, snow field.
    EcccRadarSnow,
    MapboxStreets,
    MapboxSatellite,
    MapboxSatelliteStreets,
    MapboxOutdoors,
    MapboxDark,
    MapboxLight,
    MapboxNavDay,
    MapboxNavNight,
    MapTilerStreets,
    MapTilerSatellite,
    MapTilerOutdoor,
    MapTilerTopo,
    MapTilerBasic,
    MapTilerDatavizDark,
    // Keyless raster providers (no API key). Street/road emphasis noted where relevant.
    OsmStandard,
    OpenTopoMap,
    CartoPositron,
    CartoDarkMatter,
    CartoVoyager,
    EsriImagery,
    EsriStreets,
    EsriTopo,
    UsgsTopo,
    /// USGS aerial imagery with the topographic map drawn over it.
    UsgsImageryTopo,
    OsmHot,
    CyclOsm,
    /// Vector basemap, OSM Liberty look.
    VectorLiberty,
    /// Vector basemap, pale low-ink look.
    VectorBright,
    /// Vector basemap, near-monochrome look.
    VectorPositron,
    /// Vector basemap, night-drive look.
    VectorMidnight,
    EsriDarkGray,
    EsriLightGray,
    EsriNatGeo,
    EsriOcean,
    /// Esri World Imagery with our own vector roads/boundaries/labels drawn over it. Keyless, and
    /// the closest thing to the "hybrid" layer every commercial provider charges for.
    HybridSatellite,
    /// Follows the app theme: resolves to [`Self::Dark`] or [`Self::Light`]. Never rendered
    /// directly — see [`Self::resolve`].
    Auto,
    /// User-supplied `{z}/{x}/{y}` URL template from settings. Desktop and Android only; the web
    /// build's proxy is exact-host allowlisted, so an arbitrary host cannot be fetched there.
    CustomXyz,
}

impl Default for BasemapStyle {
    fn default() -> (r: BasemapStyle)
        ensures
            r == BasemapStyle::Dark,
    {
        BasemapStyle::Dark
    }
}

impl BasemapStyle {
    /// Cycle order for the `z` hotkey; provider styles trail the built-ins.
    pub const ALL: [BasemapStyle; 59] = [
        BasemapStyle::Dark,
        BasemapStyle::Light,
        BasemapStyle::Satellite,
        BasemapStyle::Blank,
        BasemapStyle::OsmStandard,
        BasemapStyle::OpenTopoMap,
        BasemapStyle::CartoPositron,
        BasemapStyle::CartoDarkMatter,
        BasemapStyle::CartoVoyager,
        BasemapStyle::EsriImagery,
        BasemapStyle::EsriStreets,
        BasemapStyle::EsriTopo,
        BasemapStyle::UsgsTopo,
        BasemapStyle::UsgsImageryTopo,
        BasemapStyle::OsmHot,
        BasemapStyle::CyclOsm,
        BasemapStyle::VectorLiberty,
        BasemapStyle::VectorBright,
        BasemapStyle::VectorPositron,
        BasemapStyle::VectorMidnight,
        BasemapStyle::HybridSatellite,
        BasemapStyle::EsriDarkGray,
        BasemapStyle::EsriLightGray,
        BasemapStyle::EsriNatGeo,
        BasemapStyle::EsriOcean,
        BasemapStyle::Auto,
        BasemapStyle::CustomXyz,
        BasemapStyle::GoesEast,
        BasemapStyle::GoesWest,
        BasemapStyle::GoesEastIR,
        BasemapStyle::GoesWestIR,
        BasemapStyle::GoesEastAirMass,
        BasemapStyle::GoesWestAirMass,
        BasemapStyle::GoesEastDust,
        BasemapStyle::GoesWestDust,
        BasemapStyle::GoesEastFire,
        BasemapStyle::GoesWestFire,
        BasemapStyle::HimawariIR,
        BasemapStyle::HimawariAirMass,
        BasemapStyle::HimawariVisible,
        BasemapStyle::ImergRate,
        BasemapStyle::DwdRadarRV,
        BasemapStyle::DwdRadarWN,
        BasemapStyle::EcccRadarRain,
        BasemapStyle::EcccRadarSnow,
        BasemapStyle::MapboxStreets,
        BasemapStyle::MapboxSatellite,
        BasemapStyle::MapboxSatelliteStreets,
        BasemapStyle::MapboxOutdoors,
        BasemapStyle::MapboxDark,
        BasemapStyle::MapboxLight,
        BasemapStyle::MapboxNavDay,
        BasemapStyle::MapboxNavNight,
        BasemapStyle::MapTilerStreets,
        BasemapStyle::MapTilerSatellite,
        BasemapStyle::MapTilerOutdoor,
        BasemapStyle::MapTilerTopo,
        BasemapStyle::MapTilerBasic,
        BasemapStyle::MapTilerDatavizDark,
    ];

    /// The handful worth a one-tap chip on a phone: two vector styles, three ways of seeing the
    /// ground, roads, terrain, live satellite, and nothing at all. The shipped default leads.
    pub const COMMON: [BasemapStyle; 8] = [
        BasemapStyle::Dark,
        BasemapStyle::UsgsImageryTopo,
        BasemapStyle::Light,
        BasemapStyle::EsriImagery,
        BasemapStyle::OsmStandard,
        BasemapStyle::OpenTopoMap,
        BasemapStyle::GoesEast,
        BasemapStyle::Blank,
    ];

    /// The full name.
    pub open spec fn label_text(self) -> Seq<char> {
        match self {
            BasemapStyle::Dark => "Dark Streets"@,
            BasemapStyle::Light => "Light"@,
            BasemapStyle::Satellite => "USGS Imagery"@,
            BasemapStyle::Blank => "None"@,
            BasemapStyle::GoesEast => "GOES-East (GeoColor)"@,
            BasemapStyle::GoesWest => "GOES-West (GeoColor)"@,
            BasemapStyle::GoesEastIR => "GOES-East (infrared)"@,
            BasemapStyle::GoesWestIR => "GOES-West (infrared)"@,
            BasemapStyle::GoesEastAirMass => "GOES-East (air mass)"@,
            BasemapStyle::GoesWestAirMass => "GOES-West (air mass)"@,
            BasemapStyle::GoesEastDust => "GOES-East (dust)"@,
            BasemapStyle::GoesWestDust => "GOES-West (dust)"@,
            BasemapStyle::GoesEastFire => "GOES-East (fire temp)"@,
            BasemapStyle::GoesWestFire => "GOES-West (fire temp)"@,
            BasemapStyle::HimawariIR => "Himawari (infrared)"@,
            BasemapStyle::HimawariAirMass => "Himawari (air mass)"@,
            BasemapStyle::HimawariVisible => "Himawari (visible)"@,
            BasemapStyle::ImergRate => "IMERG precipitation rate"@,
            BasemapStyle::DwdRadarRV => "DWD radar (RV nowcast)"@,
            BasemapStyle::DwdRadarWN => "DWD radar (analysis)"@,
            BasemapStyle::EcccRadarRain => "ECCC radar (rain)"@,
            BasemapStyle::EcccRadarSnow => "ECCC radar (snow)"@,
            BasemapStyle::MapboxStreets => "Mapbox Streets"@,
            BasemapStyle::MapboxSatellite => "Mapbox Satellite"@,
            BasemapStyle::MapboxSatelliteStreets => "Mapbox Satellite Streets"@,
            BasemapStyle::MapboxOutdoors => "Mapbox Outdoors"@,
            BasemapStyle::MapboxDark => "Mapbox Dark"@,
            BasemapStyle::MapboxLight => "Mapbox Light"@,
            BasemapStyle::MapboxNavDay => "Mapbox Navigation (day)"@,
            BasemapStyle::MapboxNavNight => "Mapbox Navigation (night)"@,
            BasemapStyle::OsmStandard => "OpenStreetMap"@,
            BasemapStyle::OpenTopoMap => "OpenTopoMap"@,
            BasemapStyle::CartoPositron => "Carto Positron"@,
            BasemapStyle::CartoDarkMatter => "Carto Dark Matter"@,
            BasemapStyle::CartoVoyager => "Carto Voyager"@,
            BasemapStyle::EsriImagery => "Esri World Imagery"@,
            BasemapStyle::EsriStreets => "Esri Streets"@,
            BasemapStyle::EsriTopo => "Esri Topographic"@,
            BasemapStyle::UsgsTopo => "USGS Topo"@,
            BasemapStyle::UsgsImageryTopo => "USGS Imagery Topo"@,
            BasemapStyle::OsmHot => "OSM Humanitarian"@,
            BasemapStyle::CyclOsm => "CyclOSM"@,
            BasemapStyle::VectorLiberty => "Liberty"@,
            BasemapStyle::VectorBright => "Bright"@,
            BasemapStyle::VectorPositron => "Positron"@,
            BasemapStyle::VectorMidnight => "Midnight"@,
            BasemapStyle::EsriDarkGray => "Esri Dark Gray Canvas"@,
            BasemapStyle::EsriLightGray => "Esri Light Gray Canvas"@,
            BasemapStyle::EsriNatGeo => "Esri National Geographic"@,
            BasemapStyle::EsriOcean => "Esri Ocean"@,
            BasemapStyle::HybridSatellite => "Hybrid Satellite"@,
            BasemapStyle::Auto => "Auto (follow theme)"@,
            BasemapStyle::CustomXyz => "Custom (XYZ URL)"@,
            BasemapStyle::MapTilerStreets => "MapTiler Streets"@,
            BasemapStyle::MapTilerSatellite => "MapTiler Satellite"@,
            BasemapStyle::MapTilerOutdoor => "MapTiler Outdoor"@,
            BasemapStyle::MapTilerTopo => "MapTiler Topo"@,
            BasemapStyle::MapTilerBasic => "MapTiler Basic"@,
            BasemapStyle::MapTilerDatavizDark => "MapTiler Dataviz Dark"@,
        }
    }

    /// The full name.
    pub fn label(self) -> (r: &'static str)
        ensures
            r@ == self.label_text(),
    {
        match self {
            BasemapStyle::Dark => "Dark Streets",
            BasemapStyle::Light => "Light",
            BasemapStyle::Satellite => "USGS Imagery",
            BasemapStyle::Blank => "None",
            BasemapStyle::GoesEast => "GOES-East (GeoColor)",
            BasemapStyle::GoesWest => "GOES-West (GeoColor)",
            BasemapStyle::GoesEastIR => "GOES-East (infrared)",
            BasemapStyle::GoesWestIR => "GOES-West (infrared)",
            BasemapStyle::GoesEastAirMass => "GOES-East (air mass)",
            BasemapStyle::GoesWestAirMass => "GOES-West (air mass)",
            BasemapStyle::GoesEastDust => "GOES-East (dust)",
            BasemapStyle::GoesWestDust => "GOES-West (dust)",
            BasemapStyle::GoesEastFire => "GOES-East (fire temp)",
            BasemapStyle::GoesWestFire => "GOES-West (fire temp)",
            BasemapStyle::HimawariIR => "Himawari (infrared)",
            BasemapStyle::HimawariAirMass => "Himawari (air mass)",
            BasemapStyle::HimawariVisible => "Himawari (visible)",
            BasemapStyle::ImergRate => "IMERG precipitation rate",
            BasemapStyle::DwdRadarRV => "DWD radar (RV nowcast)",
            BasemapStyle::DwdRadarWN => "DWD radar (analysis)",
            BasemapStyle::EcccRadarRain => "ECCC radar (rain)",
            BasemapStyle::EcccRadarSnow => "ECCC radar (snow)",
            BasemapStyle::MapboxStreets => "Mapbox Streets",
            BasemapStyle::MapboxSatellite => "Mapbox Satellite",
            BasemapStyle::MapboxSatelliteStreets => "Mapbox Satellite Streets",
            BasemapStyle::MapboxOutdoors => "Mapbox Outdoors",
            BasemapStyle::MapboxDark => "Mapbox Dark",
            BasemapStyle::MapboxLight => "Mapbox Light",
            BasemapStyle::MapboxNavDay => "Mapbox Navigation (day)",
            BasemapStyle::MapboxNavNight => "Mapbox Navigation (night)",
            BasemapStyle::OsmStandard => "OpenStreetMap",
            BasemapStyle::OpenTopoMap => "OpenTopoMap",
            BasemapStyle::CartoPositron => "Carto Positron",
            BasemapStyle::CartoDarkMatter => "Carto Dark Matter",
            BasemapStyle::CartoVoyager => "Carto Voyager",
            BasemapStyle::EsriImagery => "Esri World Imagery",
            BasemapStyle::EsriStreets => "Esri Streets",
            BasemapStyle::EsriTopo => "Esri Topographic",
            BasemapStyle::UsgsTopo => "USGS Topo",
            BasemapStyle::UsgsImageryTopo => "USGS Imagery Topo",
            BasemapStyle::OsmHot => "OSM Humanitarian",
            BasemapStyle::CyclOsm => "CyclOSM",
            BasemapStyle::VectorLiberty => "Liberty",
            BasemapStyle::VectorBright => "Bright",
            BasemapStyle::VectorPositron => "Positron",
            BasemapStyle::VectorMidnight => "Midnight",
            BasemapStyle::EsriDarkGray => "Esri Dark Gray Canvas",
            BasemapStyle::EsriLightGray => "Esri Light Gray Canvas",
            BasemapStyle::EsriNatGeo => "Esri National Geographic",
            BasemapStyle::EsriOcean => "Esri Ocean",
            BasemapStyle::HybridSatellite => "Hybrid Satellite",
            BasemapStyle::Auto => "Auto (follow theme)",
            BasemapStyle::CustomXyz => "Custom (XYZ URL)",
            BasemapStyle::MapTilerStreets => "MapTiler Streets",
            BasemapStyle::MapTilerSatellite => "MapTiler Satellite",
            BasemapStyle::MapTilerOutdoor => "MapTiler Outdoor",
            BasemapStyle::MapTilerTopo => "MapTiler Topo",
            BasemapStyle::MapTilerBasic => "MapTiler Basic",
            BasemapStyle::MapTilerDatavizDark => "MapTiler Dataviz Dark",
        }
    }

    /// A chip-sized name.
    pub open spec fn short_label_text(self) -> Seq<char> {
        match self {
            BasemapStyle::Satellite => "USGS"@,
            BasemapStyle::UsgsImageryTopo => "Imagery Topo"@,
            BasemapStyle::EsriImagery => "Satellite"@,
            BasemapStyle::HybridSatellite => "Hybrid"@,
            BasemapStyle::EsriDarkGray => "Dark Gray"@,
            BasemapStyle::EsriLightGray => "Light Gray"@,
            BasemapStyle::EsriNatGeo => "NatGeo"@,
            BasemapStyle::EsriOcean => "Ocean"@,
            BasemapStyle::CustomXyz => "Custom"@,
            BasemapStyle::OsmStandard => "Streets"@,
            BasemapStyle::OpenTopoMap => "Topo"@,
            BasemapStyle::GoesEast => "GOES-East"@,
            BasemapStyle::GoesWest => "GOES-West"@,
            _ => self.label_text(),
        }
    }

    /// A chip-sized name.
    pub fn short_label(self) -> (r: &'static str)
        ensures
            r@ == self.short_label_text(),
    {
        match self {
            BasemapStyle::Satellite => "USGS",
            BasemapStyle::UsgsImageryTopo => "Imagery Topo",
            BasemapStyle::EsriImagery => "Satellite",
            BasemapStyle::HybridSatellite => "Hybrid",
            BasemapStyle::EsriDarkGray => "Dark Gray",
            BasemapStyle::EsriLightGray => "Light Gray",
            BasemapStyle::EsriNatGeo => "NatGeo",
            BasemapStyle::EsriOcean => "Ocean",
            BasemapStyle::CustomXyz => "Custom",
            BasemapStyle::OsmStandard => "Streets",
            BasemapStyle::OpenTopoMap => "Topo",
            BasemapStyle::GoesEast => "GOES-East",
            BasemapStyle::GoesWest => "GOES-West",
            _ => self.label(),
        }
    }

    /// Command-line and settings name of the style.
    pub open spec fn slug_text(self) -> Seq<char> {
        match self {
            BasemapStyle::Dark => "dark"@,
            BasemapStyle::Light => "light"@,
            BasemapStyle::Satellite => "satellite"@,
            BasemapStyle::Blank => "none"@,
            BasemapStyle::GoesEast => "goes-east"@,
            BasemapStyle::GoesWest => "goes-west"@,
            BasemapStyle::GoesEastIR => "goes-east-ir"@,
            BasemapStyle::GoesWestIR => "goes-west-ir"@,
            BasemapStyle::GoesEastAirMass => "goes-east-airmass"@,
            BasemapStyle::GoesWestAirMass => "goes-west-airmass"@,
            BasemapStyle::GoesEastDust => "goes-east-dust"@,
            BasemapStyle::GoesWestDust => "goes-west-dust"@,
            BasemapStyle::GoesEastFire => "goes-east-fire"@,
            BasemapStyle::GoesWestFire => "goes-west-fire"@,
            BasemapStyle::HimawariIR => "himawari-ir"@,
            BasemapStyle::HimawariAirMass => "himawari-air-mass"@,
            BasemapStyle::HimawariVisible => "himawari-visible"@,
            BasemapStyle::ImergRate => "imerg-rate"@,
            BasemapStyle::DwdRadarRV => "dwd-radar-rv"@,
            BasemapStyle::DwdRadarWN => "dwd-radar-wn"@,
            BasemapStyle::EcccRadarRain => "eccc-radar-rain"@,
            BasemapStyle::EcccRadarSnow => "eccc-radar-snow"@,
            BasemapStyle::MapboxStreets => "mapbox-streets"@,
            BasemapStyle::MapboxSatellite => "mapbox-satellite"@,
            BasemapStyle::MapboxSatelliteStreets => "mapbox-satellite-streets"@,
            BasemapStyle::MapboxOutdoors => "mapbox-outdoors"@,
            BasemapStyle::MapboxDark => "mapbox-dark"@,
            BasemapStyle::MapboxLight => "mapbox-light"@,
            BasemapStyle::MapboxNavDay => "mapbox-nav-day"@,
            BasemapStyle::MapboxNavNight => "mapbox-nav-night"@,
            BasemapStyle::OsmStandard => "osm"@,
            BasemapStyle::OpenTopoMap => "opentopo"@,
            BasemapStyle::CartoPositron => "carto-positron"@,
            BasemapStyle::CartoDarkMatter => "carto-dark"@,
            BasemapStyle::CartoVoyager => "carto-voyager"@,
            BasemapStyle::EsriImagery => "esri-imagery"@,
            BasemapStyle::EsriStreets => "esri-streets"@,
            BasemapStyle::EsriTopo => "esri-topo"@,
            BasemapStyle::UsgsTopo => "usgs-topo"@,
            BasemapStyle::UsgsImageryTopo => "usgs-imagery-topo"@,
            BasemapStyle::OsmHot => "osm-hot"@,
            BasemapStyle::CyclOsm => "cyclosm"@,
            BasemapStyle::VectorLiberty => "liberty"@,
            BasemapStyle::VectorBright => "bright"@,
            BasemapStyle::VectorPositron => "positron"@,
            BasemapStyle::VectorMidnight => "midnight"@,
            BasemapStyle::EsriDarkGray => "esri-dark-gray"@,
            BasemapStyle::EsriLightGray => "esri-light-gray"@,
            BasemapStyle::EsriNatGeo => "esri-natgeo"@,
            BasemapStyle::EsriOcean => "esri-ocean"@,
            BasemapStyle::HybridSatellite => "hybrid-satellite"@,
            BasemapStyle::Auto => "auto"@,
            BasemapStyle::CustomXyz => "custom"@,
            BasemapStyle::MapTilerStreets => "maptiler-streets"@,
            BasemapStyle::MapTilerSatellite => "maptiler-satellite"@,
            BasemapStyle::MapTilerOutdoor => "maptiler-outdoor"@,
            BasemapStyle::MapTilerTopo => "maptiler-topo"@,
            BasemapStyle::MapTilerBasic => "maptiler-basic"@,
            BasemapStyle::MapTilerDatavizDark => "maptiler-dataviz-dark"@,
        }
    }

    /// Command-line and settings name of the style.
    pub fn slug(self) -> (r: &'static str)
        ensures
            r@ == self.slug_text(),
    {
        match self {
            BasemapStyle::Dark => "dark",
            BasemapStyle::Light => "light",
            BasemapStyle::Satellite => "satellite",
            BasemapStyle::Blank => "none",
            BasemapStyle::GoesEast => "goes-east",
            BasemapStyle::GoesWest => "goes-west",
            BasemapStyle::GoesEastIR => "goes-east-ir",
            BasemapStyle::GoesWestIR => "goes-west-ir",
            BasemapStyle::GoesEastAirMass => "goes-east-airmass",
            BasemapStyle::GoesWestAirMass => "goes-west-airmass",
            BasemapStyle::GoesEastDust => "goes-east-dust",
            BasemapStyle::GoesWestDust => "goes-west-dust",
            BasemapStyle::GoesEastFire => "goes-east-fire",
            BasemapStyle::GoesWestFire => "goes-west-fire",
            BasemapStyle::HimawariIR => "himawari-ir",
            BasemapStyle::HimawariAirMass => "himawari-air-mass",
            BasemapStyle::HimawariVisible => "himawari-visible",
            BasemapStyle::ImergRate => "imerg-rate",
            BasemapStyle::DwdRadarRV => "dwd-radar-rv",
            BasemapStyle::DwdRadarWN => "dwd-radar-wn",
            BasemapStyle::EcccRadarRain => "eccc-radar-rain",
            BasemapStyle::EcccRadarSnow => "eccc-radar-snow",
            BasemapStyle::MapboxStreets => "mapbox-streets",
            BasemapStyle::MapboxSatellite => "mapbox-satellite",
            BasemapStyle::MapboxSatelliteStreets => "mapbox-satellite-streets",
            BasemapStyle::MapboxOutdoors => "mapbox-outdoors",
            BasemapStyle::MapboxDark => "mapbox-dark",
            BasemapStyle::MapboxLight => "mapbox-light",
            BasemapStyle::MapboxNavDay => "mapbox-nav-day",
            BasemapStyle::MapboxNavNight => "mapbox-nav-night",
            BasemapStyle::OsmStandard => "osm",
            BasemapStyle::OpenTopoMap => "opentopo",
            BasemapStyle::CartoPositron => "carto-positron",
            BasemapStyle::CartoDarkMatter => "carto-dark",
            BasemapStyle::CartoVoyager => "carto-voyager",
            BasemapStyle::EsriImagery => "esri-imagery",
            BasemapStyle::EsriStreets => "esri-streets",
            BasemapStyle::EsriTopo => "esri-topo",
            BasemapStyle::UsgsTopo => "usgs-topo",
            BasemapStyle::UsgsImageryTopo => "usgs-imagery-topo",
            BasemapStyle::OsmHot => "osm-hot",
            BasemapStyle::CyclOsm => "cyclosm",
            BasemapStyle::VectorLiberty => "liberty",
            BasemapStyle::VectorBright => "bright",
            BasemapStyle::VectorPositron => "positron",
            BasemapStyle::VectorMidnight => "midnight",
            BasemapStyle::EsriDarkGray => "esri-dark-gray",
            BasemapStyle::EsriLightGray => "esri-light-gray",
            BasemapStyle::EsriNatGeo => "esri-natgeo",
            BasemapStyle::EsriOcean => "esri-ocean",
            BasemapStyle::HybridSatellite => "hybrid-satellite",
            BasemapStyle::Auto => "auto",
            BasemapStyle::CustomXyz => "custom",
            BasemapStyle::MapTilerStreets => "maptiler-streets",
            BasemapStyle::MapTilerSatellite => "maptiler-satellite",
            BasemapStyle::MapTilerOutdoor => "maptiler-outdoor",
            BasemapStyle::MapTilerTopo => "maptiler-topo",
            BasemapStyle::MapTilerBasic => "maptiler-basic",
            BasemapStyle::MapTilerDatavizDark => "maptiler-dataviz-dark",
        }
    }

    /// The provider's own name for the style, as it stands in a tile URL.
    pub open spec fn style_id_text(self) -> Seq<char> {
        match self {
            BasemapStyle::MapboxStreets => "streets-v12"@,
            BasemapStyle::MapboxSatellite => "satellite-v9"@,
            BasemapStyle::MapboxSatelliteStreets => "satellite-streets-v12"@,
            BasemapStyle::MapboxOutdoors => "outdoors-v12"@,
            BasemapStyle::MapboxDark => "dark-v11"@,
            BasemapStyle::MapboxLight => "light-v11"@,
            BasemapStyle::MapboxNavDay => "navigation-day-v1"@,
            BasemapStyle::MapboxNavNight => "navigation-night-v1"@,
            BasemapStyle::MapTilerStreets => "streets-v2"@,
            BasemapStyle::MapTilerSatellite => "satellite"@,
            BasemapStyle::MapTilerOutdoor => "outdoor-v2"@,
            BasemapStyle::MapTilerTopo => "topo-v2"@,
            BasemapStyle::MapTilerBasic => "basic-v2"@,
            BasemapStyle::MapTilerDatavizDark => "dataviz-dark"@,
            _ => ""@,
        }
    }

    /// The provider's own name for the style, as it stands in a tile URL.
    pub fn style_id(self) -> (r: &'static str)
        ensures
            r@ == self.style_id_text(),
    {
        match self {
            BasemapStyle::MapboxStreets => "streets-v12",
            BasemapStyle::MapboxSatellite => "satellite-v9",
            BasemapStyle::MapboxSatelliteStreets => "satellite-streets-v12",
            BasemapStyle::MapboxOutdoors => "outdoors-v12",
            BasemapStyle::MapboxDark => "dark-v11",
            BasemapStyle::MapboxLight => "light-v11",
            BasemapStyle::MapboxNavDay => "navigation-day-v1",
            BasemapStyle::MapboxNavNight => "navigation-night-v1",
            BasemapStyle::MapTilerStreets => "streets-v2",
            BasemapStyle::MapTilerSatellite => "satellite",
            BasemapStyle::MapTilerOutdoor => "outdoor-v2",
            BasemapStyle::MapTilerTopo => "topo-v2",
            BasemapStyle::MapTilerBasic => "basic-v2",
            BasemapStyle::MapTilerDatavizDark => "dataviz-dark",
            _ => "",
        }
    }

    /// The place of the style in [`Self::ALL`].
    pub open spec fn place(self) -> int {
        match self {
            BasemapStyle::Dark => 0,
            BasemapStyle::Light => 1,
            BasemapStyle::Satellite => 2,
            BasemapStyle::Blank => 3,
            BasemapStyle::OsmStandard => 4,
            BasemapStyle::OpenTopoMap => 5,
            BasemapStyle::CartoPositron => 6,
            BasemapStyle::CartoDarkMatter => 7,
            BasemapStyle::CartoVoyager => 8,
            BasemapStyle::EsriImagery => 9,
            BasemapStyle::EsriStreets => 10,
            BasemapStyle::EsriTopo => 11,
            BasemapStyle::UsgsTopo => 12,
            BasemapStyle::UsgsImageryTopo => 13,
            BasemapStyle::OsmHot => 14,
            BasemapStyle::CyclOsm => 15,
            BasemapStyle::VectorLiberty => 16,
            BasemapStyle::VectorBright => 17,
            BasemapStyle::VectorPositron => 18,
            BasemapStyle::VectorMidnight => 19,
            BasemapStyle::HybridSatellite => 20,
            BasemapStyle::EsriDarkGray => 21,
            BasemapStyle::EsriLightGray => 22,
            BasemapStyle::EsriNatGeo => 23,
            BasemapStyle::EsriOcean => 24,
            BasemapStyle::Auto => 25,
            BasemapStyle::CustomXyz => 26,
            BasemapStyle::GoesEast => 27,
            BasemapStyle::GoesWest => 28,
            BasemapStyle::GoesEastIR => 29,
            BasemapStyle::GoesWestIR => 30,
            BasemapStyle::GoesEastAirMass => 31,
            BasemapStyle::GoesWestAirMass => 32,
            BasemapStyle::GoesEastDust => 33,
            BasemapStyle::GoesWestDust => 34,
            BasemapStyle::GoesEastFire => 35,
            BasemapStyle::GoesWestFire => 36,
            BasemapStyle::HimawariIR => 37,
            BasemapStyle::HimawariAirMass => 38,
            BasemapStyle::HimawariVisible => 39,
            BasemapStyle::ImergRate => 40,
            BasemapStyle::DwdRadarRV => 41,
            BasemapStyle::DwdRadarWN => 42,
            BasemapStyle::EcccRadarRain => 43,
            BasemapStyle::EcccRadarSnow => 44,
            BasemapStyle::MapboxStreets => 45,
            BasemapStyle::MapboxSatellite => 46,
            BasemapStyle::MapboxSatelliteStreets => 47,
            BasemapStyle::MapboxOutdoors => 48,
            BasemapStyle::MapboxDark => 49,
            BasemapStyle::MapboxLight => 50,
            BasemapStyle::MapboxNavDay => 51,
            BasemapStyle::MapboxNavNight => 52,
            BasemapStyle::MapTilerStreets => 53,
            BasemapStyle::MapTilerSatellite => 54,
            BasemapStyle::MapTilerOutdoor => 55,
            BasemapStyle::MapTilerTopo => 56,
            BasemapStyle::MapTilerBasic => 57,
            BasemapStyle::MapTilerDatavizDark => 58,
        }
    }

    /// The style with this name; unknown names are [`Self::Blank`].
    pub fn from_slug(s: &str) -> (r: BasemapStyle)
        ensures
            r.slug_text() == s@ || (r == BasemapStyle::Blank && forall|st: BasemapStyle|
                #[trigger] st.slug_text() != s@),
    {
        let all = BasemapStyle::ALL;
        let mut i: usize = 0;
        while i < 59
            invariant
                all@ == BasemapStyle::ALL@,
                i <= 59,
                forall|j: int| 0 <= j < i ==> (#[trigger] all@[j]).slug_text() != s@,
            decreases 59 - i,
        {
            if text::same(all[i].slug(), s) {
                return all[i];
            }
            i = i + 1;
        }
        proof {
            assert forall|st: BasemapStyle| #[trigger] st.slug_text() != s@ by {
                every_style_is_listed(st);
                assert(all@[st.place()] == st);
            }
        }
        BasemapStyle::Blank
    }

    /// Which provider key this style requires.
    pub open spec fn needs(self) -> Provider {
        match self {
            BasemapStyle::MapboxStreets
            | BasemapStyle::MapboxSatellite
            | BasemapStyle::MapboxSatelliteStreets
            | BasemapStyle::MapboxOutdoors
            | BasemapStyle::MapboxDark
            | BasemapStyle::MapboxLight
            | BasemapStyle::MapboxNavDay
            | BasemapStyle::MapboxNavNight => Provider::Mapbox,
            BasemapStyle::MapTilerStreets
            | BasemapStyle::MapTilerSatellite
            | BasemapStyle::MapTilerOutdoor
            | BasemapStyle::MapTilerTopo
            | BasemapStyle::MapTilerBasic
            | BasemapStyle::MapTilerDatavizDark => Provider::MapTiler,
            _ => Provider::Builtin,
        }
    }

    /// Which provider key this style requires.
    pub fn provider_kind(self) -> (r: Provider)
        ensures
            r == self.needs(),
    {
        match self {
            BasemapStyle::MapboxStreets
            | BasemapStyle::MapboxSatellite
            | BasemapStyle::MapboxSatelliteStreets
            | BasemapStyle::MapboxOutdoors
            | BasemapStyle::MapboxDark
            | BasemapStyle::MapboxLight
            | BasemapStyle::MapboxNavDay
            | BasemapStyle::MapboxNavNight => Provider::Mapbox,
            BasemapStyle::MapTilerStreets
            | BasemapStyle::MapTilerSatellite
            | BasemapStyle::MapTilerOutdoor
            | BasemapStyle::MapTilerTopo
            | BasemapStyle::MapTilerBasic
            | BasemapStyle::MapTilerDatavizDark => Provider::MapTiler,
            _ => Provider::Builtin,
        }
    }

    /// Attribution line for the map corner.
    pub open spec fn attribution_text(self) -> Seq<char> {
        match self.needs() {
            Provider::Mapbox => "© Mapbox © OpenStreetMap"@,
            Provider::MapTiler => "© MapTiler © OpenStreetMap"@,
            Provider::Builtin => match self {
                BasemapStyle::Satellite | BasemapStyle::UsgsTopo | BasemapStyle::UsgsImageryTopo => "USGS The National Map"@,
                BasemapStyle::OsmStandard | BasemapStyle::OsmHot | BasemapStyle::CyclOsm => "© OpenStreetMap contributors"@,
                BasemapStyle::OpenTopoMap => "© OpenTopoMap (CC-BY-SA) © OpenStreetMap"@,
                BasemapStyle::CartoPositron | BasemapStyle::CartoDarkMatter | BasemapStyle::CartoVoyager => "© CARTO © OpenStreetMap"@,
                BasemapStyle::EsriImagery | BasemapStyle::HybridSatellite => "© Esri, Maxar, Earthstar Geographics"@,
                BasemapStyle::EsriStreets | BasemapStyle::EsriTopo => "© Esri © OpenStreetMap"@,
                BasemapStyle::EsriDarkGray | BasemapStyle::EsriLightGray => "© Esri © OpenStreetMap, HERE, Garmin"@,
                BasemapStyle::EsriNatGeo => "© Esri, National Geographic"@,
                BasemapStyle::EsriOcean => "© Esri, GEBCO, NOAA"@,
                BasemapStyle::CustomXyz => "Custom tile source"@,
                BasemapStyle::DwdRadarRV | BasemapStyle::DwdRadarWN => "Radar data © Deutscher Wetterdienst (DL-DE/BY-2.0)"@,
                BasemapStyle::EcccRadarRain | BasemapStyle::EcccRadarSnow => "Radar data © Environment and Climate Change Canada (Open Government Licence – Canada)"@,
                BasemapStyle::HimawariIR | BasemapStyle::HimawariAirMass | BasemapStyle::HimawariVisible => "NASA GIBS · JMA Himawari"@,
                BasemapStyle::ImergRate => "NASA GIBS · NASA/JAXA GPM IMERG"@,
                _ => if self.gibs() is Some {
                    "NASA GIBS · NOAA GOES"@
                } else {
                    "© OpenMapTiles © OpenStreetMap"@
                },
            },
        }
    }

    /// Attribution line for the map corner.
    pub fn attribution(self) -> (r: &'static str)
        ensures
            r@ == self.attribution_text(),
    {
        match self.provider_kind() {
            Provider::Mapbox => "© Mapbox © OpenStreetMap",
            Provider::MapTiler => "© MapTiler © OpenStreetMap",
            Provider::Builtin => match self {
                BasemapStyle::Satellite | BasemapStyle::UsgsTopo | BasemapStyle::UsgsImageryTopo => "USGS The National Map",
                BasemapStyle::OsmStandard | BasemapStyle::OsmHot | BasemapStyle::CyclOsm => "© OpenStreetMap contributors",
                BasemapStyle::OpenTopoMap => "© OpenTopoMap (CC-BY-SA) © OpenStreetMap",
                BasemapStyle::CartoPositron | BasemapStyle::CartoDarkMatter | BasemapStyle::CartoVoyager => "© CARTO © OpenStreetMap",
                BasemapStyle::EsriImagery | BasemapStyle::HybridSatellite => "© Esri, Maxar, Earthstar Geographics",
                BasemapStyle::EsriStreets | BasemapStyle::EsriTopo => "© Esri © OpenStreetMap",
                BasemapStyle::EsriDarkGray | BasemapStyle::EsriLightGray => "© Esri © OpenStreetMap, HERE, Garmin",
                BasemapStyle::EsriNatGeo => "© Esri, National Geographic",
                BasemapStyle::EsriOcean => "© Esri, GEBCO, NOAA",
                BasemapStyle::CustomXyz => "Custom tile source",
                BasemapStyle::DwdRadarRV | BasemapStyle::DwdRadarWN => "Radar data © Deutscher Wetterdienst (DL-DE/BY-2.0)",
                BasemapStyle::EcccRadarRain | BasemapStyle::EcccRadarSnow => "Radar data © Environment and Climate Change Canada (Open Government Licence – Canada)",
                BasemapStyle::HimawariIR | BasemapStyle::HimawariAirMass | BasemapStyle::HimawariVisible => "NASA GIBS · JMA Himawari",
                BasemapStyle::ImergRate => "NASA GIBS · NASA/JAXA GPM IMERG",
                _ => if self.goes_layer().is_some() {
                    "NASA GIBS · NOAA GOES"
                } else {
                    "© OpenMapTiles © OpenStreetMap"
                },
            },
        }
    }

    /// For a style that NASA GIBS serves, its layer id and tile-matrix level (each layer serves a
    /// fixed max zoom).
    pub open spec fn gibs(self) -> Option<(Seq<char>, u8)> {
        match self {
            BasemapStyle::GoesEast => Some(("GOES-East_ABI_GeoColor"@, 7u8)),
            BasemapStyle::GoesWest => Some(("GOES-West_ABI_GeoColor"@, 7u8)),
            BasemapStyle::GoesEastIR => Some(("GOES-East_ABI_Band13_Clean_Infrared"@, 6u8)),
            BasemapStyle::GoesWestIR => Some(("GOES-West_ABI_Band13_Clean_Infrared"@, 6u8)),
            BasemapStyle::GoesEastAirMass => Some(("GOES-East_ABI_Air_Mass"@, 6u8)),
            BasemapStyle::GoesWestAirMass => Some(("GOES-West_ABI_Air_Mass"@, 6u8)),
            BasemapStyle::GoesEastDust => Some(("GOES-East_ABI_Dust"@, 7u8)),
            BasemapStyle::GoesWestDust => Some(("GOES-West_ABI_Dust"@, 7u8)),
            BasemapStyle::GoesEastFire => Some(("GOES-East_ABI_FireTemp"@, 7u8)),
            BasemapStyle::GoesWestFire => Some(("GOES-West_ABI_FireTemp"@, 7u8)),
            BasemapStyle::HimawariIR => Some(("Himawari_AHI_Band13_Clean_Infrared"@, 6u8)),
            BasemapStyle::HimawariAirMass => Some(("Himawari_AHI_Air_Mass"@, 6u8)),
            BasemapStyle::HimawariVisible => Some(("Himawari_AHI_Band3_Red_Visible_1km"@, 7u8)),
            BasemapStyle::ImergRate => Some(("IMERG_Precipitation_Rate_30min"@, 6u8)),
            _ => None,
        }
    }

    /// For a style that NASA GIBS serves, its layer id and tile-matrix level.
    pub fn goes_layer(self) -> (r: Option<(&'static str, u8)>)
        ensures
            match self.gibs() {
                Some((layer, level)) => r is Some && (r->0).0@ == layer && (r->0).1 == level,
                None => r is None,
            },
    {
        match self {
            BasemapStyle::GoesEast => Some(("GOES-East_ABI_GeoColor", 7)),
            BasemapStyle::GoesWest => Some(("GOES-West_ABI_GeoColor", 7)),
            BasemapStyle::GoesEastIR => Some(("GOES-East_ABI_Band13_Clean_Infrared", 6)),
            BasemapStyle::GoesWestIR => Some(("GOES-West_ABI_Band13_Clean_Infrared", 6)),
            BasemapStyle::GoesEastAirMass => Some(("GOES-East_ABI_Air_Mass", 6)),
            BasemapStyle::GoesWestAirMass => Some(("GOES-West_ABI_Air_Mass", 6)),
            BasemapStyle::GoesEastDust => Some(("GOES-East_ABI_Dust", 7)),
            BasemapStyle::GoesWestDust => Some(("GOES-West_ABI_Dust", 7)),
            BasemapStyle::GoesEastFire => Some(("GOES-East_ABI_FireTemp", 7)),
            BasemapStyle::GoesWestFire => Some(("GOES-West_ABI_FireTemp", 7)),
            BasemapStyle::HimawariIR => Some(("Himawari_AHI_Band13_Clean_Infrared", 6)),
            BasemapStyle::HimawariAirMass => Some(("Himawari_AHI_Air_Mass", 6)),
            BasemapStyle::HimawariVisible => Some(("Himawari_AHI_Band3_Red_Visible_1km", 7)),
            BasemapStyle::ImergRate => Some(("IMERG_Precipitation_Rate_30min", 6)),
            _ => None,
        }
    }

    /// For a style that a map server renders on request, its `(endpoint, layer, step, lag)`: the
    /// publishing interval a `TIME=` must land on, and how far behind the clock the newest
    /// published frame is, both in minutes.
    pub open spec fn wms(self) -> Option<(Seq<char>, Seq<char>, i64, i64)> {
        match self {
            BasemapStyle::DwdRadarRV => Some(("https://maps.dwd.de/geoserver/dwd/wms"@, "Radar_rv_product_1x1km_ger"@, 5i64, 10i64)),
            BasemapStyle::DwdRadarWN => Some(("https://maps.dwd.de/geoserver/dwd/wms"@, "Radar_wn-analysis_1x1km_ger"@, 5i64, 10i64)),
            BasemapStyle::EcccRadarRain => Some(("https://geo.weather.gc.ca/geomet"@, "RADAR_1KM_RRAI"@, 6i64, 6i64)),
            BasemapStyle::EcccRadarSnow => Some(("https://geo.weather.gc.ca/geomet"@, "RADAR_1KM_RSNO"@, 6i64, 6i64)),
            _ => None,
        }
    }

    /// For a style that a map server renders on request, its `(endpoint, layer, step, lag)`.
    pub fn wms_layer(self) -> (r: Option<(&'static str, &'static str, i64, i64)>)
        ensures
            match self.wms() {
                Some((base, layer, step, lag)) => r is Some && (r->0).0@ == base && (r->0).1@
                    == layer && (r->0).2 == step && (r->0).3 == lag,
                None => r is None,
            },
    {
        match self {
            BasemapStyle::DwdRadarRV => Some(("https://maps.dwd.de/geoserver/dwd/wms", "Radar_rv_product_1x1km_ger", 5, 10)),
            BasemapStyle::DwdRadarWN => Some(("https://maps.dwd.de/geoserver/dwd/wms", "Radar_wn-analysis_1x1km_ger", 5, 10)),
            BasemapStyle::EcccRadarRain => Some(("https://geo.weather.gc.ca/geomet", "RADAR_1KM_RRAI", 6, 6)),
            BasemapStyle::EcccRadarSnow => Some(("https://geo.weather.gc.ca/geomet", "RADAR_1KM_RSNO", 6, 6)),
            _ => None,
        }
    }

    /// The style has a time dimension the frame bar can step through.
    pub open spec fn is_timed(self) -> bool {
        self.gibs() is Some || self.wms() is Some
    }

    /// Does this style have a time dimension the frame bar can step through?
    pub fn timed(self) -> (r: bool)
        ensures
            r == self.is_timed(),
    {
        self.goes_layer().is_some() || self.wms_layer().is_some()
    }

    /// The style is a raster-tile source.
    pub open spec fn raster(self) -> bool {
        !matches!(self, BasemapStyle::Dark
            | BasemapStyle::Light
            | BasemapStyle::Blank
            | BasemapStyle::Auto
            | BasemapStyle::VectorLiberty
            | BasemapStyle::VectorBright
            | BasemapStyle::VectorPositron
            | BasemapStyle::VectorMidnight)
    }

    /// Is this style a raster-tile source? Everything except the vector looks, no map at all, and `Auto`,
    /// which stands for one of those looks.
    pub fn is_raster(self) -> (r: bool)
        ensures
            r == self.raster(),
    {
        !matches!(self, BasemapStyle::Dark
            | BasemapStyle::Light
            | BasemapStyle::Blank
            | BasemapStyle::Auto
            | BasemapStyle::VectorLiberty
            | BasemapStyle::VectorBright
            | BasemapStyle::VectorPositron
            | BasemapStyle::VectorMidnight)
    }

    /// Max zoom the raster source serves.
    pub open spec fn deepest(self) -> u8 {
        match self.gibs() {
            Some((_, level)) => level,
            None => if self.wms() is Some {
                12
            } else {
                match self {
                    BasemapStyle::Satellite
                    | BasemapStyle::UsgsTopo
                    | BasemapStyle::UsgsImageryTopo
                    | BasemapStyle::EsriDarkGray
                    | BasemapStyle::EsriLightGray
                    | BasemapStyle::EsriNatGeo => 16,
                    BasemapStyle::OpenTopoMap => 17,
                    BasemapStyle::EsriOcean => 10,
                    BasemapStyle::CustomXyz => 22,
                    BasemapStyle::OsmHot => 18,
                    BasemapStyle::OsmStandard | BasemapStyle::CyclOsm => 19,
                    _ => 20,
                }
            },
        }
    }

    /// Max zoom the raster source serves; deeper views upscale rather than fetch what is not
    /// there. Guessing high is not free: a missing tile leaves a hole until an ancestor tile
    /// happens to be resident. The composites are 1-km grids: past 12 the server is upscaling its
    /// own pixels. Of a custom source only the user knows.
    pub fn max_raster_z(self) -> (r: u8)
        ensures
            r == self.deepest(),
    {
        if let Some((_, level)) = self.goes_layer() {
            return level;
        }
        if self.wms_layer().is_some() {
            return 12;
        }
        match self {
            BasemapStyle::Satellite
            | BasemapStyle::UsgsTopo
            | BasemapStyle::UsgsImageryTopo
            | BasemapStyle::EsriDarkGray
            | BasemapStyle::EsriLightGray
            | BasemapStyle::EsriNatGeo => 16,
            BasemapStyle::OpenTopoMap => 17,
            BasemapStyle::EsriOcean => 10,
            BasemapStyle::CustomXyz => 22,
            BasemapStyle::OsmHot => 18,
            BasemapStyle::OsmStandard | BasemapStyle::CyclOsm => 19,
            _ => 20,
        }
    }

    /// The source serves a true double-resolution tile at the same grid position.
    pub open spec fn double(self) -> bool {
        matches!(self, BasemapStyle::CartoPositron
            | BasemapStyle::CartoDarkMatter
            | BasemapStyle::CartoVoyager)
    }

    /// Whether this source serves a true double-resolution tile at the same grid position (the
    /// `@2x` suffix): same tile count, twice the pixels, and the labels drawn for the density.
    pub fn has_2x(self) -> (r: bool)
        ensures
            r == self.double(),
    {
        matches!(self, BasemapStyle::CartoPositron
            | BasemapStyle::CartoDarkMatter
            | BasemapStyle::CartoVoyager)
    }

    /// Whether this style's tiles are 512 px rather than 256: one of them replaces the four tiles
    /// a high-DPI screen would otherwise fetch a level deeper.
    pub fn tiles_are_512(self) -> (r: bool)
        ensures
            r == (self.needs() != Provider::Builtin),
    {
        match self.provider_kind() {
            Provider::Mapbox | Provider::MapTiler => true,
            Provider::Builtin => false,
        }
    }

    /// The style can be selected with these keys and templates at hand.
    pub open spec fn selectable(self, mapbox_key: bool, maptiler_key: bool, custom: bool) -> bool {
        if self == BasemapStyle::CustomXyz {
            custom
        } else {
            match self.needs() {
                Provider::Mapbox => mapbox_key,
                Provider::MapTiler => maptiler_key,
                Provider::Builtin => true,
            }
        }
    }

    /// Is this style selectable given which provider keys are set and whether the user has
    /// configured a custom tile template?
    pub fn available(self, mapbox_key: bool, maptiler_key: bool, custom: bool) -> (r: bool)
        ensures
            r == self.selectable(mapbox_key, maptiler_key, custom),
    {
        if self == BasemapStyle::CustomXyz {
            return custom;
        }
        match self.provider_kind() {
            Provider::Mapbox => mapbox_key,
            Provider::MapTiler => maptiler_key,
            Provider::Builtin => true,
        }
    }

    /// The style `step` places after this one in the cycle.
    pub open spec fn later(self, step: int) -> BasemapStyle {
        BasemapStyle::ALL@[(self.place() + step) % 59]
    }

    /// How many places on the first available style lies, from `step` on; the whole way round where
    /// none comes before that.
    pub open spec fn first_step(
        self,
        step: int,
        mapbox_key: bool,
        maptiler_key: bool,
        custom: bool,
    ) -> int
        decreases 59 - step,
    {
        if step >= 59 || self.later(step).selectable(mapbox_key, maptiler_key, custom) {
            step
        } else {
            self.first_step(step + 1, mapbox_key, maptiler_key, custom)
        }
    }

    /// The first available style after this one in the cycle.
    pub open spec fn next_available(
        self,
        mapbox_key: bool,
        maptiler_key: bool,
        custom: bool,
    ) -> BasemapStyle {
        self.later(self.first_step(1, mapbox_key, maptiler_key, custom))
    }

    /// Next *available* style in [`Self::ALL`] (wraps): the step of the `z` hotkey.
    pub fn next(self, mapbox_key: bool, maptiler_key: bool, custom: bool) -> (r: BasemapStyle)
        ensures
            r == self.next_available(mapbox_key, maptiler_key, custom),
            r.selectable(mapbox_key, maptiler_key, custom),
            exists|step: int|
                {
                    &&& 1 <= step <= 59
                    &&& r == #[trigger] self.later(step)
                    &&& forall|k: int|
                        1 <= k < step ==> !(#[trigger] self.later(k)).selectable(
                            mapbox_key,
                            maptiler_key,
                            custom,
                        )
                },
    {
        let all = BasemapStyle::ALL;
        let i: usize = self.key() as usize;
        let mut step: usize = 1;
        while step <= 59
            invariant
                all@ == BasemapStyle::ALL@,
                all@.len() == 59,
                i == self.place(),
                i < 59,
                1 <= step <= 60,
                step <= 59 ==> self.first_step(1, mapbox_key, maptiler_key, custom)
                    == self.first_step(step as int, mapbox_key, maptiler_key, custom),
                forall|k: int|
                    1 <= k < step ==> !(#[trigger] self.later(k)).selectable(
                        mapbox_key,
                        maptiler_key,
                        custom,
                    ),
            decreases 60 - step,
        {
            let cand = all[(i + step) % 59];
            assert(cand == self.later(step as int));
            if cand.available(mapbox_key, maptiler_key, custom) {
                return cand;
            }
            step = step + 1;
        }
        proof {
            let k: int = if i == 0 {
                59
            } else {
                59 - i
            };
            assert((i + k) % 59 == 0);
            assert(self.later(k) == BasemapStyle::Dark);
        }
        self
    }

    /// Which group this style belongs to in the picker.
    pub open spec fn group(self) -> Category {
        if self == BasemapStyle::ImergRate {
            Category::Weather
        } else if self.gibs() is Some {
            Category::Satellite
        } else if self.wms() is Some {
            Category::Weather
        } else {
            match self {
                BasemapStyle::Blank | BasemapStyle::Auto | BasemapStyle::CustomXyz => Category::Other,
            BasemapStyle::Dark
            | BasemapStyle::Light
            | BasemapStyle::VectorLiberty
            | BasemapStyle::VectorBright
            | BasemapStyle::VectorPositron
            | BasemapStyle::VectorMidnight => Category::Vector,
            BasemapStyle::Satellite
            | BasemapStyle::EsriImagery
            | BasemapStyle::HybridSatellite
            | BasemapStyle::MapboxSatellite
            | BasemapStyle::MapboxSatelliteStreets
            | BasemapStyle::MapTilerSatellite => Category::Satellite,
            BasemapStyle::OpenTopoMap
            | BasemapStyle::UsgsTopo
            | BasemapStyle::UsgsImageryTopo
            | BasemapStyle::EsriTopo
            | BasemapStyle::MapboxOutdoors
            | BasemapStyle::MapTilerOutdoor
            | BasemapStyle::MapTilerTopo
            | BasemapStyle::EsriOcean => Category::Topo,
                _ => Category::Streets,
            }
        }
    }

    /// Which group this style belongs to in the picker. A satellite product that shows
    /// precipitation belongs next to the radar composites rather than next to the imagery.
    pub fn category(self) -> (r: Category)
        ensures
            r == self.group(),
    {
        if self == BasemapStyle::ImergRate {
            return Category::Weather;
        }
        if self.goes_layer().is_some() {
            return Category::Satellite;
        }
        if self.wms_layer().is_some() {
            return Category::Weather;
        }
        match self {
                BasemapStyle::Blank | BasemapStyle::Auto | BasemapStyle::CustomXyz => Category::Other,
            BasemapStyle::Dark
            | BasemapStyle::Light
            | BasemapStyle::VectorLiberty
            | BasemapStyle::VectorBright
            | BasemapStyle::VectorPositron
            | BasemapStyle::VectorMidnight => Category::Vector,
            BasemapStyle::Satellite
            | BasemapStyle::EsriImagery
            | BasemapStyle::HybridSatellite
            | BasemapStyle::MapboxSatellite
            | BasemapStyle::MapboxSatelliteStreets
            | BasemapStyle::MapTilerSatellite => Category::Satellite,
            BasemapStyle::OpenTopoMap
            | BasemapStyle::UsgsTopo
            | BasemapStyle::UsgsImageryTopo
            | BasemapStyle::EsriTopo
            | BasemapStyle::MapboxOutdoors
            | BasemapStyle::MapTilerOutdoor
            | BasemapStyle::MapTilerTopo
            | BasemapStyle::EsriOcean => Category::Topo,
            _ => Category::Streets,
        }
    }

    /// The style as it is drawn: `Auto` follows the theme, every other style is itself.
    pub open spec fn resolved(self, dark_theme: bool) -> BasemapStyle {
        if self == BasemapStyle::Auto {
            if dark_theme {
                BasemapStyle::Dark
            } else {
                BasemapStyle::Light
            }
        } else {
            self
        }
    }

    /// [`Self::Auto`] resolved against the current theme; every other style is itself.
    ///
    /// Call this at the point a style is about to be *rendered or fetched*, not where it is
    /// stored: the stored value has to stay `Auto` or it would stop following the theme.
    pub fn resolve(self, dark_theme: bool) -> (r: BasemapStyle)
        ensures
            r == self.resolved(dark_theme),
            r != BasemapStyle::Auto,
    {
        match self {
            BasemapStyle::Auto => if dark_theme {
                BasemapStyle::Dark
            } else {
                BasemapStyle::Light
            },
            other => other,
        }
    }

    /// Which vector look this style draws.
    pub open spec fn look(self) -> Option<Palette> {
        match self {
            BasemapStyle::Dark => Some(Palette::Dark),
            BasemapStyle::Light => Some(Palette::Light),
            BasemapStyle::VectorLiberty => Some(Palette::Liberty),
            BasemapStyle::VectorBright => Some(Palette::Bright),
            BasemapStyle::VectorPositron => Some(Palette::Positron),
            BasemapStyle::VectorMidnight => Some(Palette::Midnight),
            BasemapStyle::HybridSatellite => Some(Palette::HybridOverlay),
            _ => None,
        }
    }

    /// Which vector look this style draws, or `None` if it draws no vector geometry (raster
    /// basemaps other than hybrid, and no map at all).
    pub fn vector_palette(self) -> (r: Option<Palette>)
        ensures
            r == self.look(),
    {
        match self {
            BasemapStyle::Dark => Some(Palette::Dark),
            BasemapStyle::Light => Some(Palette::Light),
            BasemapStyle::VectorLiberty => Some(Palette::Liberty),
            BasemapStyle::VectorBright => Some(Palette::Bright),
            BasemapStyle::VectorPositron => Some(Palette::Positron),
            BasemapStyle::VectorMidnight => Some(Palette::Midnight),
            BasemapStyle::HybridSatellite => Some(Palette::HybridOverlay),
            _ => None,
        }
    }

    /// Stable small id for this style, used to key caches so panes showing different basemaps
    /// don't overwrite each other's tiles: its place in [`Self::ALL`].
    pub fn key(self) -> (r: u8)
        ensures
            r == self.place(),
            r < 59,
    {
        let all = BasemapStyle::ALL;
        let mut i: usize = 0;
        while i < 59
            invariant
                all@ == BasemapStyle::ALL@,
                all@.len() == 59,
                i <= self.place(),
                self.place() < 59,
                all@[self.place()] == self,
                forall|k: int| 0 <= k < 59 ==> (#[trigger] all@[k]).place() == k,
            decreases 59 - i,
        {
            if all[i] == self {
                return i as u8;
            }
            assert(all@[i as int] != self);
            i = i + 1;
        }
        0
    }
}

/// Every style stands in the list, at its own place, and only there: no two share a key.
pub proof fn every_style_is_listed(s: BasemapStyle)
    ensures
        0 <= s.place() < 59,
        BasemapStyle::ALL@.len() == 59,
        BasemapStyle::ALL@[s.place()] == s,
{
}

pub(crate) proof fn lemma_listed_in_place(i: int)
    requires
        0 <= i < 59,
    ensures
        BasemapStyle::ALL@[i].place() == i,
{
}

/// Two styles never collapse onto the same key.
pub proof fn keys_tell_styles_apart(a: BasemapStyle, b: BasemapStyle)
    requires
        a.place() == b.place(),
    ensures
        a == b,
{
    every_style_is_listed(a);
    every_style_is_listed(b);
}

/// A saved name is read back as the style it was: no two styles share a slug.
pub proof fn slugs_tell_styles_apart(a: BasemapStyle, b: BasemapStyle)
    requires
        a.slug_text() == b.slug_text(),
    ensures
        a == b,
{
    reveal_strlit("dark");
    reveal_strlit("light");
    reveal_strlit("satellite");
    reveal_strlit("none");
    reveal_strlit("goes-east");
    reveal_strlit("goes-west");
    reveal_strlit("goes-east-ir");
    reveal_strlit("goes-west-ir");
    reveal_strlit("goes-east-airmass");
    reveal_strlit("goes-west-airmass");
    reveal_strlit("goes-east-dust");
    reveal_strlit("goes-west-dust");
    reveal_strlit("goes-east-fire");
    reveal_strlit("goes-west-fire");
    reveal_strlit("himawari-ir");
    reveal_strlit("himawari-air-mass");
    reveal_strlit("himawari-visible");
    reveal_strlit("imerg-rate");
    reveal_strlit("dwd-radar-rv");
    reveal_strlit("dwd-radar-wn");
    reveal_strlit("eccc-radar-rain");
    reveal_strlit("eccc-radar-snow");
    reveal_strlit("mapbox-streets");
    reveal_strlit("mapbox-satellite");
    reveal_strlit("mapbox-satellite-streets");
    reveal_strlit("mapbox-outdoors");
    reveal_strlit("mapbox-dark");
    reveal_strlit("mapbox-light");
    reveal_strlit("mapbox-nav-day");
    reveal_strlit("mapbox-nav-night");
    reveal_strlit("osm");
    reveal_strlit("opentopo");
    reveal_strlit("carto-positron");
    reveal_strlit("carto-dark");
    reveal_strlit("carto-voyager");
    reveal_strlit("esri-imagery");
    reveal_strlit("esri-streets");
    reveal_strlit("esri-topo");
    reveal_strlit("usgs-topo");
    reveal_strlit("usgs-imagery-topo");
    reveal_strlit("osm-hot");
    reveal_strlit("cyclosm");
    reveal_strlit("liberty");
    reveal_strlit("bright");
    reveal_strlit("positron");
    reveal_strlit("midnight");
    reveal_strlit("esri-dark-gray");
    reveal_strlit("esri-light-gray");
    reveal_strlit("esri-natgeo");
    reveal_strlit("esri-ocean");
    reveal_strlit("hybrid-satellite");
    reveal_strlit("auto");
    reveal_strlit("custom");
    reveal_strlit("maptiler-streets");
    reveal_strlit("maptiler-satellite");
    reveal_strlit("maptiler-outdoor");
    reveal_strlit("maptiler-topo");
    reveal_strlit("maptiler-basic");
    reveal_strlit("maptiler-dataviz-dark");
    let x = a.slug_text();
    let y = b.slug_text();
    assert(x.len() == y.len() && x[5] == y[5] && x[11] == y[11] && x[0] == y[0]);
}

/// Hybrid satellite is the one style that is raster and draws vector geometry.
pub proof fn only_hybrid_is_both(s: BasemapStyle)
    ensures
        (s.raster() && s.look() is Some) <==> s == BasemapStyle::HybridSatellite,
{
}

/// Every vector look can be selected by some style.
pub proof fn every_look_is_reachable(p: Palette)
    ensures
        exists|s: BasemapStyle| #[trigger] s.look() == Some(p),
{
    let s = match p {
        Palette::Dark => BasemapStyle::Dark,
        Palette::Light => BasemapStyle::Light,
        Palette::Liberty => BasemapStyle::VectorLiberty,
        Palette::Bright => BasemapStyle::VectorBright,
        Palette::Positron => BasemapStyle::VectorPositron,
        Palette::Midnight => BasemapStyle::VectorMidnight,
        Palette::HybridOverlay => BasemapStyle::HybridSatellite,
    };
    assert(s.look() == Some(p));
}

/// Every group of the picker has a style, and every imagery product of GIBS is satellite imagery.
pub proof fn groups_partition_the_styles(c: Category, s: BasemapStyle)
    ensures
        exists|t: BasemapStyle| #[trigger] t.group() == c,
        s.gibs() is Some && s != BasemapStyle::ImergRate ==> s.group() == Category::Satellite,
{
    let t = match c {
        Category::Vector => BasemapStyle::Dark,
        Category::Streets => BasemapStyle::OsmStandard,
        Category::Satellite => BasemapStyle::Satellite,
        Category::Topo => BasemapStyle::UsgsTopo,
        Category::Weather => BasemapStyle::ImergRate,
        Category::Other => BasemapStyle::Blank,
    };
    assert(t.group() == c);
}

/// What a fresh start shows needs no key, is one vector source, and leads the quick choices.
pub proof fn the_default_needs_nothing()
    ensures
        BasemapStyle::Dark.selectable(false, false, false),
        !BasemapStyle::Dark.raster(),
        BasemapStyle::Dark.look() == Some(Palette::Dark),
        BasemapStyle::COMMON@[0] == BasemapStyle::Dark,
{
}

/// No two styles share a name.
pub proof fn names_tell_styles_apart(a: BasemapStyle, b: BasemapStyle)
    requires
        a.label_text() == b.label_text(),
    ensures
        a == b,
{
    reveal_strlit("Dark Streets");
    reveal_strlit("Light");
    reveal_strlit("USGS Imagery");
    reveal_strlit("None");
    reveal_strlit("GOES-East (GeoColor)");
    reveal_strlit("GOES-West (GeoColor)");
    reveal_strlit("GOES-East (infrared)");
    reveal_strlit("GOES-West (infrared)");
    reveal_strlit("GOES-East (air mass)");
    reveal_strlit("GOES-West (air mass)");
    reveal_strlit("GOES-East (dust)");
    reveal_strlit("GOES-West (dust)");
    reveal_strlit("GOES-East (fire temp)");
    reveal_strlit("GOES-West (fire temp)");
    reveal_strlit("Himawari (infrared)");
    reveal_strlit("Himawari (air mass)");
    reveal_strlit("Himawari (visible)");
    reveal_strlit("IMERG precipitation rate");
    reveal_strlit("DWD radar (RV nowcast)");
    reveal_strlit("DWD radar (analysis)");
    reveal_strlit("ECCC radar (rain)");
    reveal_strlit("ECCC radar (snow)");
    reveal_strlit("Mapbox Streets");
    reveal_strlit("Mapbox Satellite");
    reveal_strlit("Mapbox Satellite Streets");
    reveal_strlit("Mapbox Outdoors");
    reveal_strlit("Mapbox Dark");
    reveal_strlit("Mapbox Light");
    reveal_strlit("Mapbox Navigation (day)");
    reveal_strlit("Mapbox Navigation (night)");
    reveal_strlit("OpenStreetMap");
    reveal_strlit("OpenTopoMap");
    reveal_strlit("Carto Positron");
    reveal_strlit("Carto Dark Matter");
    reveal_strlit("Carto Voyager");
    reveal_strlit("Esri World Imagery");
    reveal_strlit("Esri Streets");
    reveal_strlit("Esri Topographic");
    reveal_strlit("USGS Topo");
    reveal_strlit("USGS Imagery Topo");
    reveal_strlit("OSM Humanitarian");
    reveal_strlit("CyclOSM");
    reveal_strlit("Liberty");
    reveal_strlit("Bright");
    reveal_strlit("Positron");
    reveal_strlit("Midnight");
    reveal_strlit("Esri Dark Gray Canvas");
    reveal_strlit("Esri Light Gray Canvas");
    reveal_strlit("Esri National Geographic");
    reveal_strlit("Esri Ocean");
    reveal_strlit("Hybrid Satellite");
    reveal_strlit("Auto (follow theme)");
    reveal_strlit("Custom (XYZ URL)");
    reveal_strlit("MapTiler Streets");
    reveal_strlit("MapTiler Satellite");
    reveal_strlit("MapTiler Outdoor");
    reveal_strlit("MapTiler Topo");
    reveal_strlit("MapTiler Basic");
    reveal_strlit("MapTiler Dataviz Dark");
    let x = a.label_text();
    let y = b.label_text();
    assert(x.len() == y.len() && x[0] == y[0] && x[5] == y[5] && x[12] == y[12]);
}

/// No two styles show the same layer of an imagery service.
pub proof fn layers_tell_styles_apart(a: BasemapStyle, b: BasemapStyle)
    ensures
        a.gibs() is Some && b.gibs() is Some && (a.gibs()->0).0 == (b.gibs()->0).0 ==> a == b,
        a.wms() is Some && b.wms() is Some && (a.wms()->0).1 == (b.wms()->0).1 ==> a == b,
{
    reveal_strlit("GOES-East_ABI_GeoColor");
    reveal_strlit("GOES-West_ABI_GeoColor");
    reveal_strlit("GOES-East_ABI_Band13_Clean_Infrared");
    reveal_strlit("GOES-West_ABI_Band13_Clean_Infrared");
    reveal_strlit("GOES-East_ABI_Air_Mass");
    reveal_strlit("GOES-West_ABI_Air_Mass");
    reveal_strlit("GOES-East_ABI_Dust");
    reveal_strlit("GOES-West_ABI_Dust");
    reveal_strlit("GOES-East_ABI_FireTemp");
    reveal_strlit("GOES-West_ABI_FireTemp");
    reveal_strlit("Himawari_AHI_Band13_Clean_Infrared");
    reveal_strlit("Himawari_AHI_Air_Mass");
    reveal_strlit("Himawari_AHI_Band3_Red_Visible_1km");
    reveal_strlit("IMERG_Precipitation_Rate_30min");
    reveal_strlit("Radar_rv_product_1x1km_ger");
    reveal_strlit("Radar_wn-analysis_1x1km_ger");
    reveal_strlit("RADAR_1KM_RRAI");
    reveal_strlit("RADAR_1KM_RSNO");
    if a.gibs() is Some && b.gibs() is Some && (a.gibs()->0).0 == (b.gibs()->0).0 {
        let x = (a.gibs()->0).0;
        let y = (b.gibs()->0).0;
        assert(x.len() == y.len() && x[5] == y[5] && x[17] == y[17]);
    }
    if a.wms() is Some && b.wms() is Some && (a.wms()->0).1 == (b.wms()->0).1 {
        let x = (a.wms()->0).1;
        let y = (b.wms()->0).1;
        assert(x.len() == y.len() && x[11] == y[11]);
    }
}

/// A provider's own name stands for one style, and only the styles of a provider have one.
pub proof fn provider_names_tell_styles_apart(a: BasemapStyle, b: BasemapStyle)
    ensures
        a.style_id_text().len() > 0 <==> a.needs() != Provider::Builtin,
        a.style_id_text() == b.style_id_text() && a.needs() != Provider::Builtin ==> a == b,
{
    reveal_strlit("");
    reveal_strlit("streets-v12");
    reveal_strlit("satellite-v9");
    reveal_strlit("satellite-streets-v12");
    reveal_strlit("outdoors-v12");
    reveal_strlit("dark-v11");
    reveal_strlit("light-v11");
    reveal_strlit("navigation-day-v1");
    reveal_strlit("navigation-night-v1");
    reveal_strlit("streets-v2");
    reveal_strlit("satellite");
    reveal_strlit("outdoor-v2");
    reveal_strlit("topo-v2");
    reveal_strlit("basic-v2");
    reveal_strlit("dataviz-dark");
    if a.style_id_text() == b.style_id_text() {
        let x = a.style_id_text();
        let y = b.style_id_text();
        assert(x.len() == y.len() && x[0] == y[0]);
    }
}

proof fn lemma_slug_begins(s: BasemapStyle, head: Seq<char>, rest: Seq<char>)
    requires
        s.slug_text() == head + rest,
    ensures
        text::starts(s.slug_text(), head),
{
    text::lemma_starts_join(head, rest);
}

proof fn lemma_slug_differs(slug: Seq<char>, head: Seq<char>, i: int)
    requires
        0 <= i < head.len(),
        slug.len() <= i || slug[i] != head[i],
    ensures
        !text::starts(slug, head),
{
    if text::starts(slug, head) {
        assert(slug.take(head.len() as int)[i] == head[i]);
    }
}

/// The styles of a provider that wants a key are those whose names begin with the provider's.
pub proof fn providers_stand_in_their_slugs(s: BasemapStyle)
    ensures
        s.needs() == Provider::Mapbox <==> text::starts(s.slug_text(), "mapbox-"@),
        s.needs() == Provider::MapTiler <==> text::starts(s.slug_text(), "maptiler-"@),
{
    reveal_strlit("mapbox-");
    reveal_strlit("maptiler-");
    match s {
        BasemapStyle::Dark => {
            reveal_strlit("dark");
            lemma_slug_differs("dark"@, "mapbox-"@, 0);
            lemma_slug_differs("dark"@, "maptiler-"@, 0);
        },
        BasemapStyle::Light => {
            reveal_strlit("light");
            lemma_slug_differs("light"@, "mapbox-"@, 0);
            lemma_slug_differs("light"@, "maptiler-"@, 0);
        },
        BasemapStyle::Satellite => {
            reveal_strlit("satellite");
            lemma_slug_differs("satellite"@, "mapbox-"@, 0);
            lemma_slug_differs("satellite"@, "maptiler-"@, 0);
        },
        BasemapStyle::Blank => {
            reveal_strlit("none");
            lemma_slug_differs("none"@, "mapbox-"@, 0);
            lemma_slug_differs("none"@, "maptiler-"@, 0);
        },
        BasemapStyle::GoesEast => {
            reveal_strlit("goes-east");
            lemma_slug_differs("goes-east"@, "mapbox-"@, 0);
            lemma_slug_differs("goes-east"@, "maptiler-"@, 0);
        },
        BasemapStyle::GoesWest => {
            reveal_strlit("goes-west");
            lemma_slug_differs("goes-west"@, "mapbox-"@, 0);
            lemma_slug_differs("goes-west"@, "maptiler-"@, 0);
        },
        BasemapStyle::GoesEastIR => {
            reveal_strlit("goes-east-ir");
            lemma_slug_differs("goes-east-ir"@, "mapbox-"@, 0);
            lemma_slug_differs("goes-east-ir"@, "maptiler-"@, 0);
        },
        BasemapStyle::GoesWestIR => {
            reveal_strlit("goes-west-ir");
            lemma_slug_differs("goes-west-ir"@, "mapbox-"@, 0);
            lemma_slug_differs("goes-west-ir"@, "maptiler-"@, 0);
        },
        BasemapStyle::GoesEastAirMass => {
            reveal_strlit("goes-east-airmass");
            lemma_slug_differs("goes-east-airmass"@, "mapbox-"@, 0);
            lemma_slug_differs("goes-east-airmass"@, "maptiler-"@, 0);
        },
        BasemapStyle::GoesWestAirMass => {
            reveal_strlit("goes-west-airmass");
            lemma_slug_differs("goes-west-airmass"@, "mapbox-"@, 0);
            lemma_slug_differs("goes-west-airmass"@, "maptiler-"@, 0);
        },
        BasemapStyle::GoesEastDust => {
            reveal_strlit("goes-east-dust");
            lemma_slug_differs("goes-east-dust"@, "mapbox-"@, 0);
            lemma_slug_differs("goes-east-dust"@, "maptiler-"@, 0);
        },
        BasemapStyle::GoesWestDust => {
            reveal_strlit("goes-west-dust");
            lemma_slug_differs("goes-west-dust"@, "mapbox-"@, 0);
            lemma_slug_differs("goes-west-dust"@, "maptiler-"@, 0);
        },
        BasemapStyle::GoesEastFire => {
            reveal_strlit("goes-east-fire");
            lemma_slug_differs("goes-east-fire"@, "mapbox-"@, 0);
            lemma_slug_differs("goes-east-fire"@, "maptiler-"@, 0);
        },
        BasemapStyle::GoesWestFire => {
            reveal_strlit("goes-west-fire");
            lemma_slug_differs("goes-west-fire"@, "mapbox-"@, 0);
            lemma_slug_differs("goes-west-fire"@, "maptiler-"@, 0);
        },
        BasemapStyle::HimawariIR => {
            reveal_strlit("himawari-ir");
            lemma_slug_differs("himawari-ir"@, "mapbox-"@, 0);
            lemma_slug_differs("himawari-ir"@, "maptiler-"@, 0);
        },
        BasemapStyle::HimawariAirMass => {
            reveal_strlit("himawari-air-mass");
            lemma_slug_differs("himawari-air-mass"@, "mapbox-"@, 0);
            lemma_slug_differs("himawari-air-mass"@, "maptiler-"@, 0);
        },
        BasemapStyle::HimawariVisible => {
            reveal_strlit("himawari-visible");
            lemma_slug_differs("himawari-visible"@, "mapbox-"@, 0);
            lemma_slug_differs("himawari-visible"@, "maptiler-"@, 0);
        },
        BasemapStyle::ImergRate => {
            reveal_strlit("imerg-rate");
            lemma_slug_differs("imerg-rate"@, "mapbox-"@, 0);
            lemma_slug_differs("imerg-rate"@, "maptiler-"@, 0);
        },
        BasemapStyle::DwdRadarRV => {
            reveal_strlit("dwd-radar-rv");
            lemma_slug_differs("dwd-radar-rv"@, "mapbox-"@, 0);
            lemma_slug_differs("dwd-radar-rv"@, "maptiler-"@, 0);
        },
        BasemapStyle::DwdRadarWN => {
            reveal_strlit("dwd-radar-wn");
            lemma_slug_differs("dwd-radar-wn"@, "mapbox-"@, 0);
            lemma_slug_differs("dwd-radar-wn"@, "maptiler-"@, 0);
        },
        BasemapStyle::EcccRadarRain => {
            reveal_strlit("eccc-radar-rain");
            lemma_slug_differs("eccc-radar-rain"@, "mapbox-"@, 0);
            lemma_slug_differs("eccc-radar-rain"@, "maptiler-"@, 0);
        },
        BasemapStyle::EcccRadarSnow => {
            reveal_strlit("eccc-radar-snow");
            lemma_slug_differs("eccc-radar-snow"@, "mapbox-"@, 0);
            lemma_slug_differs("eccc-radar-snow"@, "maptiler-"@, 0);
        },
        BasemapStyle::MapboxStreets => {
            reveal_strlit("mapbox-streets");
            reveal_strlit("streets");
            assert("mapbox-streets"@ =~= "mapbox-"@ + "streets"@);
            lemma_slug_begins(s, "mapbox-"@, "streets"@);
            lemma_slug_differs("mapbox-streets"@, "maptiler-"@, 3);
        },
        BasemapStyle::MapboxSatellite => {
            reveal_strlit("mapbox-satellite");
            reveal_strlit("satellite");
            assert("mapbox-satellite"@ =~= "mapbox-"@ + "satellite"@);
            lemma_slug_begins(s, "mapbox-"@, "satellite"@);
            lemma_slug_differs("mapbox-satellite"@, "maptiler-"@, 3);
        },
        BasemapStyle::MapboxSatelliteStreets => {
            reveal_strlit("mapbox-satellite-streets");
            reveal_strlit("satellite-streets");
            assert("mapbox-satellite-streets"@ =~= "mapbox-"@ + "satellite-streets"@);
            lemma_slug_begins(s, "mapbox-"@, "satellite-streets"@);
            lemma_slug_differs("mapbox-satellite-streets"@, "maptiler-"@, 3);
        },
        BasemapStyle::MapboxOutdoors => {
            reveal_strlit("mapbox-outdoors");
            reveal_strlit("outdoors");
            assert("mapbox-outdoors"@ =~= "mapbox-"@ + "outdoors"@);
            lemma_slug_begins(s, "mapbox-"@, "outdoors"@);
            lemma_slug_differs("mapbox-outdoors"@, "maptiler-"@, 3);
        },
        BasemapStyle::MapboxDark => {
            reveal_strlit("mapbox-dark");
            reveal_strlit("dark");
            assert("mapbox-dark"@ =~= "mapbox-"@ + "dark"@);
            lemma_slug_begins(s, "mapbox-"@, "dark"@);
            lemma_slug_differs("mapbox-dark"@, "maptiler-"@, 3);
        },
        BasemapStyle::MapboxLight => {
            reveal_strlit("mapbox-light");
            reveal_strlit("light");
            assert("mapbox-light"@ =~= "mapbox-"@ + "light"@);
            lemma_slug_begins(s, "mapbox-"@, "light"@);
            lemma_slug_differs("mapbox-light"@, "maptiler-"@, 3);
        },
        BasemapStyle::MapboxNavDay => {
            reveal_strlit("mapbox-nav-day");
            reveal_strlit("nav-day");
            assert("mapbox-nav-day"@ =~= "mapbox-"@ + "nav-day"@);
            lemma_slug_begins(s, "mapbox-"@, "nav-day"@);
            lemma_slug_differs("mapbox-nav-day"@, "maptiler-"@, 3);
        },
        BasemapStyle::MapboxNavNight => {
            reveal_strlit("mapbox-nav-night");
            reveal_strlit("nav-night");
            assert("mapbox-nav-night"@ =~= "mapbox-"@ + "nav-night"@);
            lemma_slug_begins(s, "mapbox-"@, "nav-night"@);
            lemma_slug_differs("mapbox-nav-night"@, "maptiler-"@, 3);
        },
        BasemapStyle::OsmStandard => {
            reveal_strlit("osm");
            lemma_slug_differs("osm"@, "mapbox-"@, 0);
            lemma_slug_differs("osm"@, "maptiler-"@, 0);
        },
        BasemapStyle::OpenTopoMap => {
            reveal_strlit("opentopo");
            lemma_slug_differs("opentopo"@, "mapbox-"@, 0);
            lemma_slug_differs("opentopo"@, "maptiler-"@, 0);
        },
        BasemapStyle::CartoPositron => {
            reveal_strlit("carto-positron");
            lemma_slug_differs("carto-positron"@, "mapbox-"@, 0);
            lemma_slug_differs("carto-positron"@, "maptiler-"@, 0);
        },
        BasemapStyle::CartoDarkMatter => {
            reveal_strlit("carto-dark");
            lemma_slug_differs("carto-dark"@, "mapbox-"@, 0);
            lemma_slug_differs("carto-dark"@, "maptiler-"@, 0);
        },
        BasemapStyle::CartoVoyager => {
            reveal_strlit("carto-voyager");
            lemma_slug_differs("carto-voyager"@, "mapbox-"@, 0);
            lemma_slug_differs("carto-voyager"@, "maptiler-"@, 0);
        },
        BasemapStyle::EsriImagery => {
            reveal_strlit("esri-imagery");
            lemma_slug_differs("esri-imagery"@, "mapbox-"@, 0);
            lemma_slug_differs("esri-imagery"@, "maptiler-"@, 0);
        },
        BasemapStyle::EsriStreets => {
            reveal_strlit("esri-streets");
            lemma_slug_differs("esri-streets"@, "mapbox-"@, 0);
            lemma_slug_differs("esri-streets"@, "maptiler-"@, 0);
        },
        BasemapStyle::EsriTopo => {
            reveal_strlit("esri-topo");
            lemma_slug_differs("esri-topo"@, "mapbox-"@, 0);
            lemma_slug_differs("esri-topo"@, "maptiler-"@, 0);
        },
        BasemapStyle::UsgsTopo => {
            reveal_strlit("usgs-topo");
            lemma_slug_differs("usgs-topo"@, "mapbox-"@, 0);
            lemma_slug_differs("usgs-topo"@, "maptiler-"@, 0);
        },
        BasemapStyle::UsgsImageryTopo => {
            reveal_strlit("usgs-imagery-topo");
            lemma_slug_differs("usgs-imagery-topo"@, "mapbox-"@, 0);
            lemma_slug_differs("usgs-imagery-topo"@, "maptiler-"@, 0);
        },
        BasemapStyle::OsmHot => {
            reveal_strlit("osm-hot");
            lemma_slug_differs("osm-hot"@, "mapbox-"@, 0);
            lemma_slug_differs("osm-hot"@, "maptiler-"@, 0);
        },
        BasemapStyle::CyclOsm => {
            reveal_strlit("cyclosm");
            lemma_slug_differs("cyclosm"@, "mapbox-"@, 0);
            lemma_slug_differs("cyclosm"@, "maptiler-"@, 0);
        },
        BasemapStyle::VectorLiberty => {
            reveal_strlit("liberty");
            lemma_slug_differs("liberty"@, "mapbox-"@, 0);
            lemma_slug_differs("liberty"@, "maptiler-"@, 0);
        },
        BasemapStyle::VectorBright => {
            reveal_strlit("bright");
            lemma_slug_differs("bright"@, "mapbox-"@, 0);
            lemma_slug_differs("bright"@, "maptiler-"@, 0);
        },
        BasemapStyle::VectorPositron => {
            reveal_strlit("positron");
            lemma_slug_differs("positron"@, "mapbox-"@, 0);
            lemma_slug_differs("positron"@, "maptiler-"@, 0);
        },
        BasemapStyle::VectorMidnight => {
            reveal_strlit("midnight");
            lemma_slug_differs("midnight"@, "mapbox-"@, 1);
            lemma_slug_differs("midnight"@, "maptiler-"@, 1);
        },
        BasemapStyle::EsriDarkGray => {
            reveal_strlit("esri-dark-gray");
            lemma_slug_differs("esri-dark-gray"@, "mapbox-"@, 0);
            lemma_slug_differs("esri-dark-gray"@, "maptiler-"@, 0);
        },
        BasemapStyle::EsriLightGray => {
            reveal_strlit("esri-light-gray");
            lemma_slug_differs("esri-light-gray"@, "mapbox-"@, 0);
            lemma_slug_differs("esri-light-gray"@, "maptiler-"@, 0);
        },
        BasemapStyle::EsriNatGeo => {
            reveal_strlit("esri-natgeo");
            lemma_slug_differs("esri-natgeo"@, "mapbox-"@, 0);
            lemma_slug_differs("esri-natgeo"@, "maptiler-"@, 0);
        },
        BasemapStyle::EsriOcean => {
            reveal_strlit("esri-ocean");
            lemma_slug_differs("esri-ocean"@, "mapbox-"@, 0);
            lemma_slug_differs("esri-ocean"@, "maptiler-"@, 0);
        },
        BasemapStyle::HybridSatellite => {
            reveal_strlit("hybrid-satellite");
            lemma_slug_differs("hybrid-satellite"@, "mapbox-"@, 0);
            lemma_slug_differs("hybrid-satellite"@, "maptiler-"@, 0);
        },
        BasemapStyle::Auto => {
            reveal_strlit("auto");
            lemma_slug_differs("auto"@, "mapbox-"@, 0);
            lemma_slug_differs("auto"@, "maptiler-"@, 0);
        },
        BasemapStyle::CustomXyz => {
            reveal_strlit("custom");
            lemma_slug_differs("custom"@, "mapbox-"@, 0);
            lemma_slug_differs("custom"@, "maptiler-"@, 0);
        },
        BasemapStyle::MapTilerStreets => {
            reveal_strlit("maptiler-streets");
            lemma_slug_differs("maptiler-streets"@, "mapbox-"@, 3);
            reveal_strlit("streets");
            assert("maptiler-streets"@ =~= "maptiler-"@ + "streets"@);
            lemma_slug_begins(s, "maptiler-"@, "streets"@);
        },
        BasemapStyle::MapTilerSatellite => {
            reveal_strlit("maptiler-satellite");
            lemma_slug_differs("maptiler-satellite"@, "mapbox-"@, 3);
            reveal_strlit("satellite");
            assert("maptiler-satellite"@ =~= "maptiler-"@ + "satellite"@);
            lemma_slug_begins(s, "maptiler-"@, "satellite"@);
        },
        BasemapStyle::MapTilerOutdoor => {
            reveal_strlit("maptiler-outdoor");
            lemma_slug_differs("maptiler-outdoor"@, "mapbox-"@, 3);
            reveal_strlit("outdoor");
            assert("maptiler-outdoor"@ =~= "maptiler-"@ + "outdoor"@);
            lemma_slug_begins(s, "maptiler-"@, "outdoor"@);
        },
        BasemapStyle::MapTilerTopo => {
            reveal_strlit("maptiler-topo");
            lemma_slug_differs("maptiler-topo"@, "mapbox-"@, 3);
            reveal_strlit("topo");
            assert("maptiler-topo"@ =~= "maptiler-"@ + "topo"@);
            lemma_slug_begins(s, "maptiler-"@, "topo"@);
        },
        BasemapStyle::MapTilerBasic => {
            reveal_strlit("maptiler-basic");
            lemma_slug_differs("maptiler-basic"@, "mapbox-"@, 3);
            reveal_strlit("basic");
            assert("maptiler-basic"@ =~= "maptiler-"@ + "basic"@);
            lemma_slug_begins(s, "maptiler-"@, "basic"@);
        },
        BasemapStyle::MapTilerDatavizDark => {
            reveal_strlit("maptiler-dataviz-dark");
            lemma_slug_differs("maptiler-dataviz-dark"@, "mapbox-"@, 3);
            reveal_strlit("dataviz-dark");
            assert("maptiler-dataviz-dark"@ =~= "maptiler-"@ + "dataviz-dark"@);
            lemma_slug_begins(s, "maptiler-"@, "dataviz-dark"@);
        },
    }
}

/// A key opens the styles of its provider and no others; the custom source wants a template.
pub proof fn keys_open_their_styles(s: BasemapStyle, mapbox: bool, maptiler: bool, custom: bool)
    ensures
        text::starts(s.slug_text(), "mapbox-"@) ==> s.selectable(mapbox, maptiler, custom)
            == mapbox,
        text::starts(s.slug_text(), "maptiler-"@) ==> s.selectable(mapbox, maptiler, custom)
            == maptiler,
        s == BasemapStyle::CustomXyz ==> s.selectable(mapbox, maptiler, custom) == custom,
        !text::starts(s.slug_text(), "mapbox-"@) && !text::starts(s.slug_text(), "maptiler-"@) && s
            != BasemapStyle::CustomXyz ==> s.selectable(mapbox, maptiler, custom),
{
    providers_stand_in_their_slugs(s);
}

/// Every vector look is drawn by one style; what follows the theme is drawn dark on a dark theme and
/// light on a light one, and every other style is drawn as itself.
pub proof fn looks_belong_to_one_style(a: BasemapStyle, b: BasemapStyle, dark: bool)
    ensures
        a.look() is Some && a.look() == b.look() ==> a == b,
        BasemapStyle::Auto.resolved(true).look() == Some(Palette::Dark),
        BasemapStyle::Auto.resolved(false).look() == Some(Palette::Light),
        a != BasemapStyle::Auto ==> a.resolved(dark) == a,
        a.resolved(dark).resolved(!dark) == a.resolved(dark),
{
}

/// A style with vector geometry alone stands among the vector styles; one that a map server renders
/// stands with the weather. What can be stepped through in time is a raster.
pub proof fn groups_go_by_what_is_drawn(s: BasemapStyle)
    ensures
        s.group() == Category::Vector <==> s.look() is Some && !s.raster(),
        s.wms() is Some ==> s.group() == Category::Weather && s.raster(),
        s.gibs() is Some ==> s.raster(),
        s.group() == Category::Weather ==> s.is_timed(),
        s.gibs() is Some || s.wms() is Some <==> s.is_timed(),
        !(s.gibs() is Some && s.wms() is Some),
        s.needs() != Provider::Builtin ==> s.raster() && !s.is_timed(),
{
}

/// A style is fetched as deep as it is served: the layers of an imagery service to their own level,
/// the radar composites to the twelfth, a provider's styles to the twentieth.
pub proof fn styles_are_fetched_as_deep_as_served(s: BasemapStyle)
    ensures
        s.gibs() is Some ==> s.deepest() == (s.gibs()->0).1 && 6 <= s.deepest() <= 7,
        s.wms() is Some ==> s.deepest() == 12,
        s.needs() != Provider::Builtin ==> s.deepest() == 20,
        s != BasemapStyle::CustomXyz ==> s.deepest() <= 20,
        s.double() ==> s.raster() && s.needs() == Provider::Builtin && !s.is_timed(),
        s.wms() matches Some(w) ==> 0 < w.2 <= w.3,
{
}

/// A map credits whoever makes it.
pub proof fn maps_credit_their_makers(s: BasemapStyle)
    ensures
        s.needs() == Provider::Mapbox ==> text::holds_text(s.attribution_text(), "Mapbox"@),
        s.needs() == Provider::MapTiler ==> text::holds_text(s.attribution_text(), "MapTiler"@),
        s.gibs() is Some ==> text::holds_text(s.attribution_text(), "NASA GIBS"@),
        s.look() is Some && !s.raster() ==> text::holds_text(s.attribution_text(), "OpenStreetMap"@),
        s == BasemapStyle::DwdRadarRV || s == BasemapStyle::DwdRadarWN ==> text::holds_text(
            s.attribution_text(),
            "Deutscher Wetterdienst"@,
        ),
        s == BasemapStyle::EcccRadarRain || s == BasemapStyle::EcccRadarSnow ==> text::holds_text(
            s.attribution_text(),
            "Environment and Climate Change Canada"@,
        ),
{
    reveal_strlit("© Mapbox © OpenStreetMap");
    reveal_strlit("Mapbox");
    reveal_strlit("© ");
    reveal_strlit(" © OpenStreetMap");
    assert("© Mapbox © OpenStreetMap"@ =~= "© "@ + "Mapbox"@ + " © OpenStreetMap"@);
    text::lemma_holds_join("© "@, "Mapbox"@, " © OpenStreetMap"@);
    reveal_strlit("© MapTiler © OpenStreetMap");
    reveal_strlit("MapTiler");
    reveal_strlit("© ");
    reveal_strlit(" © OpenStreetMap");
    assert("© MapTiler © OpenStreetMap"@ =~= "© "@ + "MapTiler"@ + " © OpenStreetMap"@);
    text::lemma_holds_join("© "@, "MapTiler"@, " © OpenStreetMap"@);
    reveal_strlit("NASA GIBS · JMA Himawari");
    reveal_strlit("NASA GIBS");
    reveal_strlit("");
    reveal_strlit(" · JMA Himawari");
    assert("NASA GIBS · JMA Himawari"@ =~= ""@ + "NASA GIBS"@ + " · JMA Himawari"@);
    text::lemma_holds_join(""@, "NASA GIBS"@, " · JMA Himawari"@);
    reveal_strlit("NASA GIBS · NASA/JAXA GPM IMERG");
    reveal_strlit("NASA GIBS");
    reveal_strlit("");
    reveal_strlit(" · NASA/JAXA GPM IMERG");
    assert("NASA GIBS · NASA/JAXA GPM IMERG"@ =~= ""@ + "NASA GIBS"@ + " · NASA/JAXA GPM IMERG"@);
    text::lemma_holds_join(""@, "NASA GIBS"@, " · NASA/JAXA GPM IMERG"@);
    reveal_strlit("NASA GIBS · NOAA GOES");
    reveal_strlit("NASA GIBS");
    reveal_strlit("");
    reveal_strlit(" · NOAA GOES");
    assert("NASA GIBS · NOAA GOES"@ =~= ""@ + "NASA GIBS"@ + " · NOAA GOES"@);
    text::lemma_holds_join(""@, "NASA GIBS"@, " · NOAA GOES"@);
    reveal_strlit("© OpenMapTiles © OpenStreetMap");
    reveal_strlit("OpenStreetMap");
    reveal_strlit("© OpenMapTiles © ");
    reveal_strlit("");
    assert("© OpenMapTiles © OpenStreetMap"@ =~= "© OpenMapTiles © "@ + "OpenStreetMap"@ + ""@);
    text::lemma_holds_join("© OpenMapTiles © "@, "OpenStreetMap"@, ""@);
    reveal_strlit("Radar data © Deutscher Wetterdienst (DL-DE/BY-2.0)");
    reveal_strlit("Deutscher Wetterdienst");
    reveal_strlit("Radar data © ");
    reveal_strlit(" (DL-DE/BY-2.0)");
    assert("Radar data © Deutscher Wetterdienst (DL-DE/BY-2.0)"@ =~= "Radar data © "@ + "Deutscher Wetterdienst"@ + " (DL-DE/BY-2.0)"@);
    text::lemma_holds_join("Radar data © "@, "Deutscher Wetterdienst"@, " (DL-DE/BY-2.0)"@);
    reveal_strlit("Radar data © Environment and Climate Change Canada (Open Government Licence – Canada)");
    reveal_strlit("Environment and Climate Change Canada");
    reveal_strlit("Radar data © ");
    reveal_strlit(" (Open Government Licence – Canada)");
    assert("Radar data © Environment and Climate Change Canada (Open Government Licence – Canada)"@ =~= "Radar data © "@ + "Environment and Climate Change Canada"@ + " (Open Government Licence – Canada)"@);
    text::lemma_holds_join("Radar data © "@, "Environment and Climate Change Canada"@, " (Open Government Licence – Canada)"@);
}

/// A layer is of the satellite that its style is named after.
pub proof fn layers_are_of_their_satellite(s: BasemapStyle)
    ensures
        text::starts(s.slug_text(), "goes-east"@) ==> s.gibs() is Some && text::starts(
            (s.gibs()->0).0,
            "GOES-East_"@,
        ),
        text::starts(s.slug_text(), "goes-west"@) ==> s.gibs() is Some && text::starts(
            (s.gibs()->0).0,
            "GOES-West_"@,
        ),
        text::starts(s.slug_text(), "himawari-"@) ==> s.gibs() is Some && text::starts(
            (s.gibs()->0).0,
            "Himawari_"@,
        ),
        text::starts(s.slug_text(), "imerg-"@) ==> s.gibs() is Some && text::starts(
            (s.gibs()->0).0,
            "IMERG_"@,
        ),
{
    reveal_strlit("goes-east");
    reveal_strlit("GOES-East_");
    reveal_strlit("goes-west");
    reveal_strlit("GOES-West_");
    reveal_strlit("himawari-");
    reveal_strlit("Himawari_");
    reveal_strlit("imerg-");
    reveal_strlit("IMERG_");
    match s {
        BasemapStyle::Dark => {
            reveal_strlit("dark");
            lemma_slug_differs("dark"@, "goes-east"@, 0);
            lemma_slug_differs("dark"@, "goes-west"@, 0);
            lemma_slug_differs("dark"@, "himawari-"@, 0);
            lemma_slug_differs("dark"@, "imerg-"@, 0);
        },
        BasemapStyle::Light => {
            reveal_strlit("light");
            lemma_slug_differs("light"@, "goes-east"@, 0);
            lemma_slug_differs("light"@, "goes-west"@, 0);
            lemma_slug_differs("light"@, "himawari-"@, 0);
            lemma_slug_differs("light"@, "imerg-"@, 0);
        },
        BasemapStyle::Satellite => {
            reveal_strlit("satellite");
            lemma_slug_differs("satellite"@, "goes-east"@, 0);
            lemma_slug_differs("satellite"@, "goes-west"@, 0);
            lemma_slug_differs("satellite"@, "himawari-"@, 0);
            lemma_slug_differs("satellite"@, "imerg-"@, 0);
        },
        BasemapStyle::Blank => {
            reveal_strlit("none");
            lemma_slug_differs("none"@, "goes-east"@, 0);
            lemma_slug_differs("none"@, "goes-west"@, 0);
            lemma_slug_differs("none"@, "himawari-"@, 0);
            lemma_slug_differs("none"@, "imerg-"@, 0);
        },
        BasemapStyle::GoesEast => {
            reveal_strlit("goes-east");
            reveal_strlit("GOES-East_ABI_GeoColor");
            reveal_strlit("ABI_GeoColor");
            assert("GOES-East_ABI_GeoColor"@ =~= "GOES-East_"@ + "ABI_GeoColor"@);
            text::lemma_starts_join("GOES-East_"@, "ABI_GeoColor"@);
            lemma_slug_differs("goes-east"@, "goes-west"@, 5);
            lemma_slug_differs("goes-east"@, "himawari-"@, 0);
            lemma_slug_differs("goes-east"@, "imerg-"@, 0);
        },
        BasemapStyle::GoesWest => {
            reveal_strlit("goes-west");
            lemma_slug_differs("goes-west"@, "goes-east"@, 5);
            reveal_strlit("GOES-West_ABI_GeoColor");
            reveal_strlit("ABI_GeoColor");
            assert("GOES-West_ABI_GeoColor"@ =~= "GOES-West_"@ + "ABI_GeoColor"@);
            text::lemma_starts_join("GOES-West_"@, "ABI_GeoColor"@);
            lemma_slug_differs("goes-west"@, "himawari-"@, 0);
            lemma_slug_differs("goes-west"@, "imerg-"@, 0);
        },
        BasemapStyle::GoesEastIR => {
            reveal_strlit("goes-east-ir");
            reveal_strlit("GOES-East_ABI_Band13_Clean_Infrared");
            reveal_strlit("ABI_Band13_Clean_Infrared");
            assert("GOES-East_ABI_Band13_Clean_Infrared"@ =~= "GOES-East_"@ + "ABI_Band13_Clean_Infrared"@);
            text::lemma_starts_join("GOES-East_"@, "ABI_Band13_Clean_Infrared"@);
            lemma_slug_differs("goes-east-ir"@, "goes-west"@, 5);
            lemma_slug_differs("goes-east-ir"@, "himawari-"@, 0);
            lemma_slug_differs("goes-east-ir"@, "imerg-"@, 0);
        },
        BasemapStyle::GoesWestIR => {
            reveal_strlit("goes-west-ir");
            lemma_slug_differs("goes-west-ir"@, "goes-east"@, 5);
            reveal_strlit("GOES-West_ABI_Band13_Clean_Infrared");
            reveal_strlit("ABI_Band13_Clean_Infrared");
            assert("GOES-West_ABI_Band13_Clean_Infrared"@ =~= "GOES-West_"@ + "ABI_Band13_Clean_Infrared"@);
            text::lemma_starts_join("GOES-West_"@, "ABI_Band13_Clean_Infrared"@);
            lemma_slug_differs("goes-west-ir"@, "himawari-"@, 0);
            lemma_slug_differs("goes-west-ir"@, "imerg-"@, 0);
        },
        BasemapStyle::GoesEastAirMass => {
            reveal_strlit("goes-east-airmass");
            reveal_strlit("GOES-East_ABI_Air_Mass");
            reveal_strlit("ABI_Air_Mass");
            assert("GOES-East_ABI_Air_Mass"@ =~= "GOES-East_"@ + "ABI_Air_Mass"@);
            text::lemma_starts_join("GOES-East_"@, "ABI_Air_Mass"@);
            lemma_slug_differs("goes-east-airmass"@, "goes-west"@, 5);
            lemma_slug_differs("goes-east-airmass"@, "himawari-"@, 0);
            lemma_slug_differs("goes-east-airmass"@, "imerg-"@, 0);
        },
        BasemapStyle::GoesWestAirMass => {
            reveal_strlit("goes-west-airmass");
            lemma_slug_differs("goes-west-airmass"@, "goes-east"@, 5);
            reveal_strlit("GOES-West_ABI_Air_Mass");
            reveal_strlit("ABI_Air_Mass");
            assert("GOES-West_ABI_Air_Mass"@ =~= "GOES-West_"@ + "ABI_Air_Mass"@);
            text::lemma_starts_join("GOES-West_"@, "ABI_Air_Mass"@);
            lemma_slug_differs("goes-west-airmass"@, "himawari-"@, 0);
            lemma_slug_differs("goes-west-airmass"@, "imerg-"@, 0);
        },
        BasemapStyle::GoesEastDust => {
            reveal_strlit("goes-east-dust");
            reveal_strlit("GOES-East_ABI_Dust");
            reveal_strlit("ABI_Dust");
            assert("GOES-East_ABI_Dust"@ =~= "GOES-East_"@ + "ABI_Dust"@);
            text::lemma_starts_join("GOES-East_"@, "ABI_Dust"@);
            lemma_slug_differs("goes-east-dust"@, "goes-west"@, 5);
            lemma_slug_differs("goes-east-dust"@, "himawari-"@, 0);
            lemma_slug_differs("goes-east-dust"@, "imerg-"@, 0);
        },
        BasemapStyle::GoesWestDust => {
            reveal_strlit("goes-west-dust");
            lemma_slug_differs("goes-west-dust"@, "goes-east"@, 5);
            reveal_strlit("GOES-West_ABI_Dust");
            reveal_strlit("ABI_Dust");
            assert("GOES-West_ABI_Dust"@ =~= "GOES-West_"@ + "ABI_Dust"@);
            text::lemma_starts_join("GOES-West_"@, "ABI_Dust"@);
            lemma_slug_differs("goes-west-dust"@, "himawari-"@, 0);
            lemma_slug_differs("goes-west-dust"@, "imerg-"@, 0);
        },
        BasemapStyle::GoesEastFire => {
            reveal_strlit("goes-east-fire");
            reveal_strlit("GOES-East_ABI_FireTemp");
            reveal_strlit("ABI_FireTemp");
            assert("GOES-East_ABI_FireTemp"@ =~= "GOES-East_"@ + "ABI_FireTemp"@);
            text::lemma_starts_join("GOES-East_"@, "ABI_FireTemp"@);
            lemma_slug_differs("goes-east-fire"@, "goes-west"@, 5);
            lemma_slug_differs("goes-east-fire"@, "himawari-"@, 0);
            lemma_slug_differs("goes-east-fire"@, "imerg-"@, 0);
        },
        BasemapStyle::GoesWestFire => {
            reveal_strlit("goes-west-fire");
            lemma_slug_differs("goes-west-fire"@, "goes-east"@, 5);
            reveal_strlit("GOES-West_ABI_FireTemp");
            reveal_strlit("ABI_FireTemp");
            assert("GOES-West_ABI_FireTemp"@ =~= "GOES-West_"@ + "ABI_FireTemp"@);
            text::lemma_starts_join("GOES-West_"@, "ABI_FireTemp"@);
            lemma_slug_differs("goes-west-fire"@, "himawari-"@, 0);
            lemma_slug_differs("goes-west-fire"@, "imerg-"@, 0);
        },
        BasemapStyle::HimawariIR => {
            reveal_strlit("himawari-ir");
            lemma_slug_differs("himawari-ir"@, "goes-east"@, 0);
            lemma_slug_differs("himawari-ir"@, "goes-west"@, 0);
            reveal_strlit("Himawari_AHI_Band13_Clean_Infrared");
            reveal_strlit("AHI_Band13_Clean_Infrared");
            assert("Himawari_AHI_Band13_Clean_Infrared"@ =~= "Himawari_"@ + "AHI_Band13_Clean_Infrared"@);
            text::lemma_starts_join("Himawari_"@, "AHI_Band13_Clean_Infrared"@);
            lemma_slug_differs("himawari-ir"@, "imerg-"@, 0);
        },
        BasemapStyle::HimawariAirMass => {
            reveal_strlit("himawari-air-mass");
            lemma_slug_differs("himawari-air-mass"@, "goes-east"@, 0);
            lemma_slug_differs("himawari-air-mass"@, "goes-west"@, 0);
            reveal_strlit("Himawari_AHI_Air_Mass");
            reveal_strlit("AHI_Air_Mass");
            assert("Himawari_AHI_Air_Mass"@ =~= "Himawari_"@ + "AHI_Air_Mass"@);
            text::lemma_starts_join("Himawari_"@, "AHI_Air_Mass"@);
            lemma_slug_differs("himawari-air-mass"@, "imerg-"@, 0);
        },
        BasemapStyle::HimawariVisible => {
            reveal_strlit("himawari-visible");
            lemma_slug_differs("himawari-visible"@, "goes-east"@, 0);
            lemma_slug_differs("himawari-visible"@, "goes-west"@, 0);
            reveal_strlit("Himawari_AHI_Band3_Red_Visible_1km");
            reveal_strlit("AHI_Band3_Red_Visible_1km");
            assert("Himawari_AHI_Band3_Red_Visible_1km"@ =~= "Himawari_"@ + "AHI_Band3_Red_Visible_1km"@);
            text::lemma_starts_join("Himawari_"@, "AHI_Band3_Red_Visible_1km"@);
            lemma_slug_differs("himawari-visible"@, "imerg-"@, 0);
        },
        BasemapStyle::ImergRate => {
            reveal_strlit("imerg-rate");
            lemma_slug_differs("imerg-rate"@, "goes-east"@, 0);
            lemma_slug_differs("imerg-rate"@, "goes-west"@, 0);
            lemma_slug_differs("imerg-rate"@, "himawari-"@, 0);
            reveal_strlit("IMERG_Precipitation_Rate_30min");
            reveal_strlit("Precipitation_Rate_30min");
            assert("IMERG_Precipitation_Rate_30min"@ =~= "IMERG_"@ + "Precipitation_Rate_30min"@);
            text::lemma_starts_join("IMERG_"@, "Precipitation_Rate_30min"@);
        },
        BasemapStyle::DwdRadarRV => {
            reveal_strlit("dwd-radar-rv");
            lemma_slug_differs("dwd-radar-rv"@, "goes-east"@, 0);
            lemma_slug_differs("dwd-radar-rv"@, "goes-west"@, 0);
            lemma_slug_differs("dwd-radar-rv"@, "himawari-"@, 0);
            lemma_slug_differs("dwd-radar-rv"@, "imerg-"@, 0);
        },
        BasemapStyle::DwdRadarWN => {
            reveal_strlit("dwd-radar-wn");
            lemma_slug_differs("dwd-radar-wn"@, "goes-east"@, 0);
            lemma_slug_differs("dwd-radar-wn"@, "goes-west"@, 0);
            lemma_slug_differs("dwd-radar-wn"@, "himawari-"@, 0);
            lemma_slug_differs("dwd-radar-wn"@, "imerg-"@, 0);
        },
        BasemapStyle::EcccRadarRain => {
            reveal_strlit("eccc-radar-rain");
            lemma_slug_differs("eccc-radar-rain"@, "goes-east"@, 0);
            lemma_slug_differs("eccc-radar-rain"@, "goes-west"@, 0);
            lemma_slug_differs("eccc-radar-rain"@, "himawari-"@, 0);
            lemma_slug_differs("eccc-radar-rain"@, "imerg-"@, 0);
        },
        BasemapStyle::EcccRadarSnow => {
            reveal_strlit("eccc-radar-snow");
            lemma_slug_differs("eccc-radar-snow"@, "goes-east"@, 0);
            lemma_slug_differs("eccc-radar-snow"@, "goes-west"@, 0);
            lemma_slug_differs("eccc-radar-snow"@, "himawari-"@, 0);
            lemma_slug_differs("eccc-radar-snow"@, "imerg-"@, 0);
        },
        BasemapStyle::MapboxStreets => {
            reveal_strlit("mapbox-streets");
            lemma_slug_differs("mapbox-streets"@, "goes-east"@, 0);
            lemma_slug_differs("mapbox-streets"@, "goes-west"@, 0);
            lemma_slug_differs("mapbox-streets"@, "himawari-"@, 0);
            lemma_slug_differs("mapbox-streets"@, "imerg-"@, 0);
        },
        BasemapStyle::MapboxSatellite => {
            reveal_strlit("mapbox-satellite");
            lemma_slug_differs("mapbox-satellite"@, "goes-east"@, 0);
            lemma_slug_differs("mapbox-satellite"@, "goes-west"@, 0);
            lemma_slug_differs("mapbox-satellite"@, "himawari-"@, 0);
            lemma_slug_differs("mapbox-satellite"@, "imerg-"@, 0);
        },
        BasemapStyle::MapboxSatelliteStreets => {
            reveal_strlit("mapbox-satellite-streets");
            lemma_slug_differs("mapbox-satellite-streets"@, "goes-east"@, 0);
            lemma_slug_differs("mapbox-satellite-streets"@, "goes-west"@, 0);
            lemma_slug_differs("mapbox-satellite-streets"@, "himawari-"@, 0);
            lemma_slug_differs("mapbox-satellite-streets"@, "imerg-"@, 0);
        },
        BasemapStyle::MapboxOutdoors => {
            reveal_strlit("mapbox-outdoors");
            lemma_slug_differs("mapbox-outdoors"@, "goes-east"@, 0);
            lemma_slug_differs("mapbox-outdoors"@, "goes-west"@, 0);
            lemma_slug_differs("mapbox-outdoors"@, "himawari-"@, 0);
            lemma_slug_differs("mapbox-outdoors"@, "imerg-"@, 0);
        },
        BasemapStyle::MapboxDark => {
            reveal_strlit("mapbox-dark");
            lemma_slug_differs("mapbox-dark"@, "goes-east"@, 0);
            lemma_slug_differs("mapbox-dark"@, "goes-west"@, 0);
            lemma_slug_differs("mapbox-dark"@, "himawari-"@, 0);
            lemma_slug_differs("mapbox-dark"@, "imerg-"@, 0);
        },
        BasemapStyle::MapboxLight => {
            reveal_strlit("mapbox-light");
            lemma_slug_differs("mapbox-light"@, "goes-east"@, 0);
            lemma_slug_differs("mapbox-light"@, "goes-west"@, 0);
            lemma_slug_differs("mapbox-light"@, "himawari-"@, 0);
            lemma_slug_differs("mapbox-light"@, "imerg-"@, 0);
        },
        BasemapStyle::MapboxNavDay => {
            reveal_strlit("mapbox-nav-day");
            lemma_slug_differs("mapbox-nav-day"@, "goes-east"@, 0);
            lemma_slug_differs("mapbox-nav-day"@, "goes-west"@, 0);
            lemma_slug_differs("mapbox-nav-day"@, "himawari-"@, 0);
            lemma_slug_differs("mapbox-nav-day"@, "imerg-"@, 0);
        },
        BasemapStyle::MapboxNavNight => {
            reveal_strlit("mapbox-nav-night");
            lemma_slug_differs("mapbox-nav-night"@, "goes-east"@, 0);
            lemma_slug_differs("mapbox-nav-night"@, "goes-west"@, 0);
            lemma_slug_differs("mapbox-nav-night"@, "himawari-"@, 0);
            lemma_slug_differs("mapbox-nav-night"@, "imerg-"@, 0);
        },
        BasemapStyle::OsmStandard => {
            reveal_strlit("osm");
            lemma_slug_differs("osm"@, "goes-east"@, 0);
            lemma_slug_differs("osm"@, "goes-west"@, 0);
            lemma_slug_differs("osm"@, "himawari-"@, 0);
            lemma_slug_differs("osm"@, "imerg-"@, 0);
        },
        BasemapStyle::OpenTopoMap => {
            reveal_strlit("opentopo");
            lemma_slug_differs("opentopo"@, "goes-east"@, 0);
            lemma_slug_differs("opentopo"@, "goes-west"@, 0);
            lemma_slug_differs("opentopo"@, "himawari-"@, 0);
            lemma_slug_differs("opentopo"@, "imerg-"@, 0);
        },
        BasemapStyle::CartoPositron => {
            reveal_strlit("carto-positron");
            lemma_slug_differs("carto-positron"@, "goes-east"@, 0);
            lemma_slug_differs("carto-positron"@, "goes-west"@, 0);
            lemma_slug_differs("carto-positron"@, "himawari-"@, 0);
            lemma_slug_differs("carto-positron"@, "imerg-"@, 0);
        },
        BasemapStyle::CartoDarkMatter => {
            reveal_strlit("carto-dark");
            lemma_slug_differs("carto-dark"@, "goes-east"@, 0);
            lemma_slug_differs("carto-dark"@, "goes-west"@, 0);
            lemma_slug_differs("carto-dark"@, "himawari-"@, 0);
            lemma_slug_differs("carto-dark"@, "imerg-"@, 0);
        },
        BasemapStyle::CartoVoyager => {
            reveal_strlit("carto-voyager");
            lemma_slug_differs("carto-voyager"@, "goes-east"@, 0);
            lemma_slug_differs("carto-voyager"@, "goes-west"@, 0);
            lemma_slug_differs("carto-voyager"@, "himawari-"@, 0);
            lemma_slug_differs("carto-voyager"@, "imerg-"@, 0);
        },
        BasemapStyle::EsriImagery => {
            reveal_strlit("esri-imagery");
            lemma_slug_differs("esri-imagery"@, "goes-east"@, 0);
            lemma_slug_differs("esri-imagery"@, "goes-west"@, 0);
            lemma_slug_differs("esri-imagery"@, "himawari-"@, 0);
            lemma_slug_differs("esri-imagery"@, "imerg-"@, 0);
        },
        BasemapStyle::EsriStreets => {
            reveal_strlit("esri-streets");
            lemma_slug_differs("esri-streets"@, "goes-east"@, 0);
            lemma_slug_differs("esri-streets"@, "goes-west"@, 0);
            lemma_slug_differs("esri-streets"@, "himawari-"@, 0);
            lemma_slug_differs("esri-streets"@, "imerg-"@, 0);
        },
        BasemapStyle::EsriTopo => {
            reveal_strlit("esri-topo");
            lemma_slug_differs("esri-topo"@, "goes-east"@, 0);
            lemma_slug_differs("esri-topo"@, "goes-west"@, 0);
            lemma_slug_differs("esri-topo"@, "himawari-"@, 0);
            lemma_slug_differs("esri-topo"@, "imerg-"@, 0);
        },
        BasemapStyle::UsgsTopo => {
            reveal_strlit("usgs-topo");
            lemma_slug_differs("usgs-topo"@, "goes-east"@, 0);
            lemma_slug_differs("usgs-topo"@, "goes-west"@, 0);
            lemma_slug_differs("usgs-topo"@, "himawari-"@, 0);
            lemma_slug_differs("usgs-topo"@, "imerg-"@, 0);
        },
        BasemapStyle::UsgsImageryTopo => {
            reveal_strlit("usgs-imagery-topo");
            lemma_slug_differs("usgs-imagery-topo"@, "goes-east"@, 0);
            lemma_slug_differs("usgs-imagery-topo"@, "goes-west"@, 0);
            lemma_slug_differs("usgs-imagery-topo"@, "himawari-"@, 0);
            lemma_slug_differs("usgs-imagery-topo"@, "imerg-"@, 0);
        },
        BasemapStyle::OsmHot => {
            reveal_strlit("osm-hot");
            lemma_slug_differs("osm-hot"@, "goes-east"@, 0);
            lemma_slug_differs("osm-hot"@, "goes-west"@, 0);
            lemma_slug_differs("osm-hot"@, "himawari-"@, 0);
            lemma_slug_differs("osm-hot"@, "imerg-"@, 0);
        },
        BasemapStyle::CyclOsm => {
            reveal_strlit("cyclosm");
            lemma_slug_differs("cyclosm"@, "goes-east"@, 0);
            lemma_slug_differs("cyclosm"@, "goes-west"@, 0);
            lemma_slug_differs("cyclosm"@, "himawari-"@, 0);
            lemma_slug_differs("cyclosm"@, "imerg-"@, 0);
        },
        BasemapStyle::VectorLiberty => {
            reveal_strlit("liberty");
            lemma_slug_differs("liberty"@, "goes-east"@, 0);
            lemma_slug_differs("liberty"@, "goes-west"@, 0);
            lemma_slug_differs("liberty"@, "himawari-"@, 0);
            lemma_slug_differs("liberty"@, "imerg-"@, 0);
        },
        BasemapStyle::VectorBright => {
            reveal_strlit("bright");
            lemma_slug_differs("bright"@, "goes-east"@, 0);
            lemma_slug_differs("bright"@, "goes-west"@, 0);
            lemma_slug_differs("bright"@, "himawari-"@, 0);
            lemma_slug_differs("bright"@, "imerg-"@, 0);
        },
        BasemapStyle::VectorPositron => {
            reveal_strlit("positron");
            lemma_slug_differs("positron"@, "goes-east"@, 0);
            lemma_slug_differs("positron"@, "goes-west"@, 0);
            lemma_slug_differs("positron"@, "himawari-"@, 0);
            lemma_slug_differs("positron"@, "imerg-"@, 0);
        },
        BasemapStyle::VectorMidnight => {
            reveal_strlit("midnight");
            lemma_slug_differs("midnight"@, "goes-east"@, 0);
            lemma_slug_differs("midnight"@, "goes-west"@, 0);
            lemma_slug_differs("midnight"@, "himawari-"@, 0);
            lemma_slug_differs("midnight"@, "imerg-"@, 0);
        },
        BasemapStyle::EsriDarkGray => {
            reveal_strlit("esri-dark-gray");
            lemma_slug_differs("esri-dark-gray"@, "goes-east"@, 0);
            lemma_slug_differs("esri-dark-gray"@, "goes-west"@, 0);
            lemma_slug_differs("esri-dark-gray"@, "himawari-"@, 0);
            lemma_slug_differs("esri-dark-gray"@, "imerg-"@, 0);
        },
        BasemapStyle::EsriLightGray => {
            reveal_strlit("esri-light-gray");
            lemma_slug_differs("esri-light-gray"@, "goes-east"@, 0);
            lemma_slug_differs("esri-light-gray"@, "goes-west"@, 0);
            lemma_slug_differs("esri-light-gray"@, "himawari-"@, 0);
            lemma_slug_differs("esri-light-gray"@, "imerg-"@, 0);
        },
        BasemapStyle::EsriNatGeo => {
            reveal_strlit("esri-natgeo");
            lemma_slug_differs("esri-natgeo"@, "goes-east"@, 0);
            lemma_slug_differs("esri-natgeo"@, "goes-west"@, 0);
            lemma_slug_differs("esri-natgeo"@, "himawari-"@, 0);
            lemma_slug_differs("esri-natgeo"@, "imerg-"@, 0);
        },
        BasemapStyle::EsriOcean => {
            reveal_strlit("esri-ocean");
            lemma_slug_differs("esri-ocean"@, "goes-east"@, 0);
            lemma_slug_differs("esri-ocean"@, "goes-west"@, 0);
            lemma_slug_differs("esri-ocean"@, "himawari-"@, 0);
            lemma_slug_differs("esri-ocean"@, "imerg-"@, 0);
        },
        BasemapStyle::HybridSatellite => {
            reveal_strlit("hybrid-satellite");
            lemma_slug_differs("hybrid-satellite"@, "goes-east"@, 0);
            lemma_slug_differs("hybrid-satellite"@, "goes-west"@, 0);
            lemma_slug_differs("hybrid-satellite"@, "himawari-"@, 1);
            lemma_slug_differs("hybrid-satellite"@, "imerg-"@, 0);
        },
        BasemapStyle::Auto => {
            reveal_strlit("auto");
            lemma_slug_differs("auto"@, "goes-east"@, 0);
            lemma_slug_differs("auto"@, "goes-west"@, 0);
            lemma_slug_differs("auto"@, "himawari-"@, 0);
            lemma_slug_differs("auto"@, "imerg-"@, 0);
        },
        BasemapStyle::CustomXyz => {
            reveal_strlit("custom");
            lemma_slug_differs("custom"@, "goes-east"@, 0);
            lemma_slug_differs("custom"@, "goes-west"@, 0);
            lemma_slug_differs("custom"@, "himawari-"@, 0);
            lemma_slug_differs("custom"@, "imerg-"@, 0);
        },
        BasemapStyle::MapTilerStreets => {
            reveal_strlit("maptiler-streets");
            lemma_slug_differs("maptiler-streets"@, "goes-east"@, 0);
            lemma_slug_differs("maptiler-streets"@, "goes-west"@, 0);
            lemma_slug_differs("maptiler-streets"@, "himawari-"@, 0);
            lemma_slug_differs("maptiler-streets"@, "imerg-"@, 0);
        },
        BasemapStyle::MapTilerSatellite => {
            reveal_strlit("maptiler-satellite");
            lemma_slug_differs("maptiler-satellite"@, "goes-east"@, 0);
            lemma_slug_differs("maptiler-satellite"@, "goes-west"@, 0);
            lemma_slug_differs("maptiler-satellite"@, "himawari-"@, 0);
            lemma_slug_differs("maptiler-satellite"@, "imerg-"@, 0);
        },
        BasemapStyle::MapTilerOutdoor => {
            reveal_strlit("maptiler-outdoor");
            lemma_slug_differs("maptiler-outdoor"@, "goes-east"@, 0);
            lemma_slug_differs("maptiler-outdoor"@, "goes-west"@, 0);
            lemma_slug_differs("maptiler-outdoor"@, "himawari-"@, 0);
            lemma_slug_differs("maptiler-outdoor"@, "imerg-"@, 0);
        },
        BasemapStyle::MapTilerTopo => {
            reveal_strlit("maptiler-topo");
            lemma_slug_differs("maptiler-topo"@, "goes-east"@, 0);
            lemma_slug_differs("maptiler-topo"@, "goes-west"@, 0);
            lemma_slug_differs("maptiler-topo"@, "himawari-"@, 0);
            lemma_slug_differs("maptiler-topo"@, "imerg-"@, 0);
        },
        BasemapStyle::MapTilerBasic => {
            reveal_strlit("maptiler-basic");
            lemma_slug_differs("maptiler-basic"@, "goes-east"@, 0);
            lemma_slug_differs("maptiler-basic"@, "goes-west"@, 0);
            lemma_slug_differs("maptiler-basic"@, "himawari-"@, 0);
            lemma_slug_differs("maptiler-basic"@, "imerg-"@, 0);
        },
        BasemapStyle::MapTilerDatavizDark => {
            reveal_strlit("maptiler-dataviz-dark");
            lemma_slug_differs("maptiler-dataviz-dark"@, "goes-east"@, 0);
            lemma_slug_differs("maptiler-dataviz-dark"@, "goes-west"@, 0);
            lemma_slug_differs("maptiler-dataviz-dark"@, "himawari-"@, 0);
            lemma_slug_differs("maptiler-dataviz-dark"@, "imerg-"@, 0);
        },
    }
}

} // verus!
