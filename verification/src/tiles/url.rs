//! Where a tile is fetched from, and the directory it is kept in.

use crate::text;
use crate::tiles::bbox::{metres, metres_text, tile_bbox_3857, tile_box};
use crate::tiles::style::{BasemapStyle, Provider};
use vstd::prelude::*;

verus! {

/// A number as text.
pub open spec fn num(n: int) -> Seq<char> {
    text::decimal_text(n as nat)
}

/// Three numbers between slashes.
pub open spec fn path3(a: int, b: int, c: int) -> Seq<char> {
    num(a) + "/"@ + num(b) + "/"@ + num(c)
}

fn push_path3(out: &mut String, a: u64, b: u64, c: u64)
    ensures
        final(out)@ == old(out)@ + path3(a as int, b as int, c as int),
{
    let ghost before = out@;
    let sa = text::decimal(a);
    let sb = text::decimal(b);
    let sc = text::decimal(c);
    out.append(sa.as_str());
    out.append("/");
    out.append(sb.as_str());
    out.append("/");
    out.append(sc.as_str());
    assert(out@ =~= before + path3(a as int, b as int, c as int));
}

/// Three numbers between slashes.
pub fn tile_path(a: u64, b: u64, c: u64) -> (r: String)
    ensures
        r@ == path3(a as int, b as int, c as int),
{
    let mut s = String::new();
    push_path3(&mut s, a, b, c);
    assert(s@ =~= path3(a as int, b as int, c as int));
    s
}

impl BasemapStyle {
    /// For a style with a fixed pyramid and no key: what its tile URLs start with, whether the row
    /// comes before the column, and what they end with.
    pub open spec fn pyramid_text(self) -> Option<(Seq<char>, bool, Seq<char>)> {
        match self {
            BasemapStyle::Satellite => Some(
                ("https://basemap.nationalmap.gov/arcgis/rest/services/USGSImageryOnly/MapServer/tile/"@, true, ""@),
            ),
            BasemapStyle::UsgsTopo => Some(
                ("https://basemap.nationalmap.gov/arcgis/rest/services/USGSTopo/MapServer/tile/"@, true, ""@),
            ),
            BasemapStyle::UsgsImageryTopo => Some(
                ("https://basemap.nationalmap.gov/arcgis/rest/services/USGSImageryTopo/MapServer/tile/"@, true, ""@),
            ),
            BasemapStyle::EsriImagery => Some(
                ("https://server.arcgisonline.com/ArcGIS/rest/services/World_Imagery/MapServer/tile/"@, true, ""@),
            ),
            BasemapStyle::EsriStreets => Some(
                ("https://server.arcgisonline.com/ArcGIS/rest/services/World_Street_Map/MapServer/tile/"@, true, ""@),
            ),
            BasemapStyle::EsriTopo => Some(
                ("https://server.arcgisonline.com/ArcGIS/rest/services/World_Topo_Map/MapServer/tile/"@, true, ""@),
            ),
            BasemapStyle::HybridSatellite => Some(
                ("https://server.arcgisonline.com/ArcGIS/rest/services/World_Imagery/MapServer/tile/"@, true, ""@),
            ),
            BasemapStyle::EsriDarkGray => Some(
                ("https://server.arcgisonline.com/ArcGIS/rest/services/Canvas/World_Dark_Gray_Base/MapServer/tile/"@, true, ""@),
            ),
            BasemapStyle::EsriLightGray => Some(
                ("https://server.arcgisonline.com/ArcGIS/rest/services/Canvas/World_Light_Gray_Base/MapServer/tile/"@, true, ""@),
            ),
            BasemapStyle::EsriNatGeo => Some(
                ("https://server.arcgisonline.com/ArcGIS/rest/services/NatGeo_World_Map/MapServer/tile/"@, true, ""@),
            ),
            BasemapStyle::EsriOcean => Some(
                ("https://server.arcgisonline.com/ArcGIS/rest/services/Ocean/World_Ocean_Base/MapServer/tile/"@, true, ""@),
            ),
            BasemapStyle::OsmStandard => Some(
                ("https://tile.openstreetmap.org/"@, false, ".png"@),
            ),
            BasemapStyle::OpenTopoMap => Some(
                ("https://a.tile.opentopomap.org/"@, false, ".png"@),
            ),
            BasemapStyle::CartoPositron => Some(
                ("https://basemaps.cartocdn.com/light_all/"@, false, ".png"@),
            ),
            BasemapStyle::CartoDarkMatter => Some(
                ("https://basemaps.cartocdn.com/dark_all/"@, false, ".png"@),
            ),
            BasemapStyle::CartoVoyager => Some(
                ("https://basemaps.cartocdn.com/rastertiles/voyager/"@, false, ".png"@),
            ),
            BasemapStyle::OsmHot => Some(
                ("https://a.tile.openstreetmap.fr/hot/"@, false, ".png"@),
            ),
            BasemapStyle::CyclOsm => Some(
                ("https://a.tile-cyclosm.openstreetmap.fr/cyclosm/"@, false, ".png"@),
            ),
            _ => None,
        }
    }

    /// For a style with a fixed pyramid and no key: what its tile URLs start with, whether the row
    /// comes before the column, and what they end with.
    fn pyramid(self) -> (r: Option<(&'static str, bool, &'static str)>)
        ensures
            match self.pyramid_text() {
                Some((a, b, c)) => r is Some && (r->0).0@ == a && (r->0).1 == b && (r->0).2@ == c,
                None => r is None,
            },
    {
        match self {
            BasemapStyle::Satellite => Some(
                ("https://basemap.nationalmap.gov/arcgis/rest/services/USGSImageryOnly/MapServer/tile/", true, ""),
            ),
            BasemapStyle::UsgsTopo => Some(
                ("https://basemap.nationalmap.gov/arcgis/rest/services/USGSTopo/MapServer/tile/", true, ""),
            ),
            BasemapStyle::UsgsImageryTopo => Some(
                ("https://basemap.nationalmap.gov/arcgis/rest/services/USGSImageryTopo/MapServer/tile/", true, ""),
            ),
            BasemapStyle::EsriImagery => Some(
                ("https://server.arcgisonline.com/ArcGIS/rest/services/World_Imagery/MapServer/tile/", true, ""),
            ),
            BasemapStyle::EsriStreets => Some(
                ("https://server.arcgisonline.com/ArcGIS/rest/services/World_Street_Map/MapServer/tile/", true, ""),
            ),
            BasemapStyle::EsriTopo => Some(
                ("https://server.arcgisonline.com/ArcGIS/rest/services/World_Topo_Map/MapServer/tile/", true, ""),
            ),
            BasemapStyle::HybridSatellite => Some(
                ("https://server.arcgisonline.com/ArcGIS/rest/services/World_Imagery/MapServer/tile/", true, ""),
            ),
            BasemapStyle::EsriDarkGray => Some(
                ("https://server.arcgisonline.com/ArcGIS/rest/services/Canvas/World_Dark_Gray_Base/MapServer/tile/", true, ""),
            ),
            BasemapStyle::EsriLightGray => Some(
                ("https://server.arcgisonline.com/ArcGIS/rest/services/Canvas/World_Light_Gray_Base/MapServer/tile/", true, ""),
            ),
            BasemapStyle::EsriNatGeo => Some(
                ("https://server.arcgisonline.com/ArcGIS/rest/services/NatGeo_World_Map/MapServer/tile/", true, ""),
            ),
            BasemapStyle::EsriOcean => Some(
                ("https://server.arcgisonline.com/ArcGIS/rest/services/Ocean/World_Ocean_Base/MapServer/tile/", true, ""),
            ),
            BasemapStyle::OsmStandard => Some(
                ("https://tile.openstreetmap.org/", false, ".png"),
            ),
            BasemapStyle::OpenTopoMap => Some(
                ("https://a.tile.opentopomap.org/", false, ".png"),
            ),
            BasemapStyle::CartoPositron => Some(
                ("https://basemaps.cartocdn.com/light_all/", false, ".png"),
            ),
            BasemapStyle::CartoDarkMatter => Some(
                ("https://basemaps.cartocdn.com/dark_all/", false, ".png"),
            ),
            BasemapStyle::CartoVoyager => Some(
                ("https://basemaps.cartocdn.com/rastertiles/voyager/", false, ".png"),
            ),
            BasemapStyle::OsmHot => Some(
                ("https://a.tile.openstreetmap.fr/hot/", false, ".png"),
            ),
            BasemapStyle::CyclOsm => Some(
                ("https://a.tile-cyclosm.openstreetmap.fr/cyclosm/", false, ".png"),
            ),
            _ => None,
        }
    }

    /// What asks for a double-resolution tile, on the sources that serve one.
    pub open spec fn density_mark(self, retina: bool) -> Seq<char> {
        if retina && self.double() {
            "@2x"@
        } else {
            ""@
        }
    }

    /// Raster tile URL for `(z, x, y)`, with `time` in the slot that GIBS has for it.
    pub open spec fn url_at(
        self,
        z: u8,
        x: u32,
        y: u32,
        retina: bool,
        mapbox_key: Seq<char>,
        maptiler_key: Seq<char>,
        custom: Seq<char>,
        time: Seq<char>,
    ) -> Option<Seq<char>> {
        match self.needs() {
            Provider::Mapbox => if mapbox_key.len() == 0 {
                None
            } else {
                Some(
                    "https://api.mapbox.com/styles/v1/mapbox/"@ + self.style_id_text()
                        + "/tiles/512/"@ + path3(z as int, x as int, y as int) + "?access_token="@
                        + mapbox_key,
                )
            },
            Provider::MapTiler => if maptiler_key.len() == 0 {
                None
            } else {
                Some(
                    "https://api.maptiler.com/maps/"@ + self.style_id_text() + "/"@ + path3(
                        z as int,
                        x as int,
                        y as int,
                    ) + (if self == BasemapStyle::MapTilerSatellite {
                        ".jpg?key="@
                    } else {
                        ".png?key="@
                    }) + maptiler_key,
                )
            },
            Provider::Builtin => if self == BasemapStyle::CustomXyz {
                if is_xyz_template(custom) {
                    Some(filled_template(custom, z, x, y))
                } else {
                    None
                }
            } else {
                match self.pyramid_text() {
                    Some((start, row_first, end)) => Some(
                        start + (if row_first {
                            path3(z as int, y as int, x as int)
                        } else {
                            path3(z as int, x as int, y as int)
                        }) + self.density_mark(retina) + end,
                    ),
                    None => match self.wms() {
                        Some((base, layer, _, _)) => Some(wms_text(base, layer, z, x, y, ""@)),
                        None => match self.gibs() {
                            Some((layer, level)) => Some(gibs_text(layer, level, time, z, x, y)),
                            None => None,
                        },
                    },
                }
            },
        }
    }

    /// Raster tile URL for `(z, x, y)` in the newest frame.
    pub open spec fn url_text(
        self,
        z: u8,
        x: u32,
        y: u32,
        retina: bool,
        mapbox_key: Seq<char>,
        maptiler_key: Seq<char>,
        custom: Seq<char>,
    ) -> Option<Seq<char>> {
        self.url_at(z, x, y, retina, mapbox_key, maptiler_key, custom, "default"@)
    }

    fn url_with_time(
        self,
        z: u8,
        x: u32,
        y: u32,
        retina: bool,
        mapbox_key: &str,
        maptiler_key: &str,
        custom: &str,
        time: &str,
    ) -> (r: Option<String>)
        ensures
            same_text(
                r,
                self.url_at(z, x, y, retina, mapbox_key@, maptiler_key@, custom@, time@),
            ),
    {
        match self.provider_kind() {
            Provider::Mapbox => {
                if mapbox_key.is_empty() {
                    return None;
                }
                let mut s = "https://api.mapbox.com/styles/v1/mapbox/".to_owned();
                s.append(self.style_id());
                s.append("/tiles/512/");
                push_path3(&mut s, z as u64, x as u64, y as u64);
                s.append("?access_token=");
                s.append(mapbox_key);
                Some(s)
            },
            Provider::MapTiler => {
                if maptiler_key.is_empty() {
                    return None;
                }
                let mut s = "https://api.maptiler.com/maps/".to_owned();
                s.append(self.style_id());
                s.append("/");
                push_path3(&mut s, z as u64, x as u64, y as u64);
                if self == BasemapStyle::MapTilerSatellite {
                    s.append(".jpg?key=");
                } else {
                    s.append(".png?key=");
                }
                s.append(maptiler_key);
                Some(s)
            },
            Provider::Builtin => {
                if self == BasemapStyle::CustomXyz {
                    return if valid_xyz_template(custom) {
                        Some(fill_template(custom, z, x, y))
                    } else {
                        None
                    };
                }
                if let Some((start, row_first, end)) = self.pyramid() {
                    let mut s = start.to_owned();
                    if row_first {
                        push_path3(&mut s, z as u64, y as u64, x as u64);
                    } else {
                        push_path3(&mut s, z as u64, x as u64, y as u64);
                    }
                    s.append(if retina && self.has_2x() { "@2x" } else { "" });
                    s.append(end);
                    return Some(s);
                }
                if let Some((base, layer, _, _)) = self.wms_layer() {
                    return Some(wms_url(base, layer, z, x, y, ""));
                }
                match self.goes_layer() {
                    Some((layer, level)) => Some(gibs_url(layer, level, time, z, x, y)),
                    None => None,
                }
            },
        }
    }

    /// Raster tile URL for `(z, x, y)`. The vector looks have none. Provider styles carry the
    /// matching key, and have none without it.
    pub fn url(
        self,
        z: u8,
        x: u32,
        y: u32,
        retina: bool,
        mapbox_key: &str,
        maptiler_key: &str,
        custom: &str,
    ) -> (r: Option<String>)
        ensures
            same_text(r, self.url_text(z, x, y, retina, mapbox_key@, maptiler_key@, custom@)),
    {
        self.url_with_time(z, x, y, retina, mapbox_key, maptiler_key, custom, "default")
    }

    /// Raster tile URL for `(z, x, y)` in the frame of the instant `iso`: GIBS has a slot for it,
    /// a map server takes it as a parameter.
    pub open spec fn timed_url_text(
        self,
        z: u8,
        x: u32,
        y: u32,
        iso: Seq<char>,
    ) -> Option<Seq<char>> {
        match self.wms() {
            Some((base, layer, _, _)) => Some(
                wms_text(base, layer, z, x, y, ""@) + "&TIME="@ + iso,
            ),
            None => match self.gibs() {
                Some((layer, level)) => Some(gibs_text(layer, level, iso, z, x, y)),
                None => None,
            },
        }
    }

    /// Raster tile URL for `(z, x, y)` in the frame of the instant `iso`.
    pub fn timed_url(self, z: u8, x: u32, y: u32, iso: &str) -> (r: Option<String>)
        ensures
            same_text(r, self.timed_url_text(z, x, y, iso@)),
    {
        if let Some((base, layer, _, _)) = self.wms_layer() {
            let mut s = wms_url(base, layer, z, x, y, "");
            s.append("&TIME=");
            s.append(iso);
            return Some(s);
        }
        match self.goes_layer() {
            Some((layer, level)) => Some(gibs_url(layer, level, iso, z, x, y)),
            None => None,
        }
    }

    /// URL of the one tile used as this style's picker thumbnail: over the middle of CONUS, which
    /// is the view the app opens on.
    pub fn thumb_url(self, mapbox: &str, maptiler: &str, custom: &str) -> (r: Option<String>)
        ensures
            same_text(r, self.url_text(6, 14, 24, false, mapbox@, maptiler@, custom@)),
    {
        self.url(6, 14, 24, false, mapbox, maptiler, custom)
    }

    /// The directory that the style's tiles are kept in.
    pub open spec fn provider_text(self, retina: bool, custom: Seq<char>) -> Seq<char> {
        if self == BasemapStyle::CustomXyz {
            "custom-"@ + text::hex_text(fnv(vstd::utf8::encode_utf8(custom)) as nat, 8)
        } else if self.needs() != Provider::Builtin {
            self.slug_text() + "-512"@
        } else if retina && self.double() {
            self.slug_text() + "-2x"@
        } else {
            self.slug_text()
        }
    }

    /// Per-style cache directory so sources don't collide on disk. Keys never appear here.
    ///
    /// The user can repoint the custom slot at a different server; hashing the template keeps the
    /// old server's tiles from being served for the new one. Larger tiles share the tile grid with
    /// the ones they replace, so they get a directory of their own.
    pub fn provider(self, retina: bool, custom: &str) -> (r: String)
        ensures
            r@ == self.provider_text(retina, custom@),
    {
        if self == BasemapStyle::CustomXyz {
            let digits = text::hex(template_hash(custom) as u64, 8);
            return text::join2("custom-", digits.as_str());
        }
        if self.tiles_are_512() {
            text::join2(self.slug(), "-512")
        } else if retina && self.has_2x() {
            text::join2(self.slug(), "-2x")
        } else {
            self.slug().to_owned()
        }
    }
}

/// `r` is the text `t`.
pub open spec fn same_text(r: Option<String>, t: Option<Seq<char>>) -> bool {
    match t {
        Some(s) => r is Some && (r->0)@ == s,
        None => r is None,
    }
}

/// A tile of NASA GIBS, in the frame `time`.
pub open spec fn gibs_text(layer: Seq<char>, level: u8, time: Seq<char>, z: u8, x: u32, y: u32) -> Seq<
    char,
> {
    "https://gibs.earthdata.nasa.gov/wmts/epsg3857/best/"@ + layer + "/default/"@ + time
        + "/GoogleMapsCompatible_Level"@ + num(level as int) + "/"@ + path3(
        z as int,
        y as int,
        x as int,
    ) + ".png"@
}

fn gibs_url(layer: &str, level: u8, time: &str, z: u8, x: u32, y: u32) -> (r: String)
    ensures
        r@ == gibs_text(layer@, level, time@, z, x, y),
{
    let mut s = "https://gibs.earthdata.nasa.gov/wmts/epsg3857/best/".to_owned();
    s.append(layer);
    s.append("/default/");
    s.append(time);
    s.append("/GoogleMapsCompatible_Level");
    let n = text::decimal(level as u64);
    s.append(n.as_str());
    s.append("/");
    push_path3(&mut s, z as u64, y as u64, x as u64);
    s.append(".png");
    s
}

/// A GetMap request for exactly the square that the tile covers. `time` is an instant the server's
/// time dimension accepts, or empty for the layer's default.
pub open spec fn wms_text(
    base: Seq<char>,
    layer: Seq<char>,
    z: u8,
    x: u32,
    y: u32,
    time: Seq<char>,
) -> Seq<char> {
    let b = tile_box(z, x, y);
    base + "?SERVICE=WMS&VERSION=1.3.0&REQUEST=GetMap&CRS=EPSG:3857&BBOX="@ + metres_text(b.0)
        + ","@ + metres_text(b.1) + ","@ + metres_text(b.2) + ","@ + metres_text(b.3)
        + "&WIDTH=256&HEIGHT=256&LAYERS="@ + layer + "&FORMAT=image/png&TRANSPARENT=TRUE"@ + (
    if time.len() == 0 {
        ""@
    } else {
        "&TIME="@ + time
    })
}

/// A WMS 1.3.0 GetMap URL rendering exactly the square that XYZ tile `(z, x, y)` covers.
///
/// EPSG:3857 is an easting/northing system, so the box stands as x, y. Servers reject an instant
/// that is not on their published step, so the caller picks one that is.
pub fn wms_url(base: &str, layer: &str, z: u8, x: u32, y: u32, time: &str) -> (r: String)
    ensures
        r@ == wms_text(base@, layer@, z, x, y, time@),
{
    let (x0, y0, x1, y1) = tile_bbox_3857(z, x, y);
    let mut s = base.to_owned();
    s.append("?SERVICE=WMS&VERSION=1.3.0&REQUEST=GetMap&CRS=EPSG:3857&BBOX=");
    let m = metres(x0);
    s.append(m.as_str());
    s.append(",");
    let m = metres(y0);
    s.append(m.as_str());
    s.append(",");
    let m = metres(x1);
    s.append(m.as_str());
    s.append(",");
    let m = metres(y1);
    s.append(m.as_str());
    s.append("&WIDTH=256&HEIGHT=256&LAYERS=");
    s.append(layer);
    s.append("&FORMAT=image/png&TRANSPARENT=TRUE");
    proof {
        reveal_strlit("");
    }
    if time.is_empty() {
        assert(s@ =~= wms_text(base@, layer@, z, x, y, time@));
    } else {
        s.append("&TIME=");
        s.append(time);
        assert(s@ =~= wms_text(base@, layer@, z, x, y, time@));
    }
    s
}

/// A tile-URL template that is fetched from: `https`, and with a slot for each coordinate.
pub open spec fn is_xyz_template(t: Seq<char>) -> bool {
    text::starts(t, "https://"@) && text::holds_text(t, "{z}"@) && text::holds_text(t, "{x}"@)
        && text::holds_text(t, "{y}"@)
}

/// Is this a tile-URL template we are willing to fetch?
///
/// The string comes from the user's settings file, and whatever it points at gets fetched. `https`
/// only: a plain-http template would silently downgrade every tile request. And it has to actually
/// be a slippy template, or every tile would be the same URL.
pub fn valid_xyz_template(t: &str) -> (r: bool)
    ensures
        r == is_xyz_template(t@),
{
    text::starts_with(t, "https://") && text::holds(t, "{z}") && text::holds(t, "{x}")
        && text::holds(t, "{y}")
}

/// A template with its slots filled.
pub open spec fn filled_template(t: Seq<char>, z: u8, x: u32, y: u32) -> Seq<char> {
    text::replaced(
        text::replaced(text::replaced(t, "{z}"@, num(z as int)), "{x}"@, num(x as int)),
        "{y}"@,
        num(y as int),
    )
}

/// A template with its slots filled.
pub fn fill_template(t: &str, z: u8, x: u32, y: u32) -> (r: String)
    ensures
        r@ == filled_template(t@, z, x, y),
{
    let n = text::decimal(z as u64);
    let s = text::replace(t, "{z}", n.as_str());
    let n = text::decimal(x as u64);
    let s = text::replace(s.as_str(), "{x}", n.as_str());
    let n = text::decimal(y as u64);
    text::replace(s.as_str(), "{y}", n.as_str())
}

/// The FNV-1a hash of the bytes.
pub open spec fn fnv(bytes: Seq<u8>) -> u32
    decreases bytes.len(),
{
    if bytes.len() == 0 {
        0x811c9dc5u32
    } else {
        (((fnv(bytes.drop_last()) ^ (bytes.last() as u32)) * 0x0100_0193) % 0x1_0000_0000) as u32
    }
}

/// Short stable hash of a custom template, for its cache directory name. Not a cryptographic one:
/// a collision would serve one custom source's tiles for another, which is why it is 32 bits and
/// not 8.
pub fn template_hash(t: &str) -> (h: u32)
    ensures
        h == fnv(vstd::utf8::encode_utf8(t@)),
{
    let bs = t.as_bytes();
    let mut h: u32 = 0x811c9dc5;
    let mut i: usize = 0;
    assert(bs@.take(0) =~= Seq::<u8>::empty());
    while i < bs.len()
        invariant
            i <= bs.len(),
            h == fnv(bs@.take(i as int)),
        decreases bs.len() - i,
    {
        proof {
            assert(bs@.take(i + 1).drop_last() =~= bs@.take(i as int));
            assert(bs@.take(i + 1).last() == bs@[i as int]);
        }
        let x: u32 = h ^ (bs[i] as u32);
        h = (x as u64 * 0x0100_0193 % 0x1_0000_0000) as u32;
        i = i + 1;
    }
    assert(bs@.take(bs.len() as int) =~= bs@);
    h
}

/// A double-resolution tile and a plain one never overwrite each other on disk, and where the
/// source serves no double-resolution tile nothing changes.
pub proof fn retina_has_its_own_directory(s: BasemapStyle, custom: Seq<char>)
    ensures
        s.double() ==> s.provider_text(true, custom) != s.provider_text(false, custom),
        !s.double() ==> s.provider_text(true, custom) == s.provider_text(false, custom),
        !s.double() ==> s.density_mark(true) == s.density_mark(false),
{
    reveal_strlit("-2x");
    if s.double() {
        assert(s.provider_text(true, custom).len() == s.provider_text(false, custom).len() + 3);
    }
}

proof fn lemma_replace_keeps_start(s: Seq<char>, p: Seq<char>, from: Seq<char>, to: Seq<char>)
    requires
        text::starts(s, p),
        from.len() > 0,
        !p.contains(from[0]),
    ensures
        text::starts(text::replaced(s, from, to), p),
{
    let i = text::text_place(s, from);
    text::lemma_text_place_from(s, from, 0);
    if i >= 0 {
        assert(s.subrange(i, i + from.len())[0] == from[0]);
        assert(s[i] == from[0]);
        if i < p.len() {
            assert(s.subrange(0, p.len() as int)[i] == p[i]);
            assert(p.contains(from[0]));
        }
        let r = text::replaced(s, from, to);
        assert(r.subrange(0, p.len() as int) =~= s.subrange(0, p.len() as int));
    }
}

proof fn lemma_starts_join(a: Seq<char>, b: Seq<char>, p: Seq<char>)
    requires
        text::starts(a, p),
    ensures
        text::starts(a + b, p),
{
    assert((a + b).subrange(0, p.len() as int) =~= a.subrange(0, p.len() as int));
}

proof fn lemma_pyramids_are_https(s: BasemapStyle)
    requires
        s.pyramid_text() is Some,
    ensures
        text::starts((s.pyramid_text()->0).0, "https://"@),
{
    reveal_strlit("https://");
    let p = "https://"@;
    match s {
        BasemapStyle::Satellite => {
            reveal_strlit("https://basemap.nationalmap.gov/arcgis/rest/services/USGSImageryOnly/MapServer/tile/");
            assert("https://basemap.nationalmap.gov/arcgis/rest/services/USGSImageryOnly/MapServer/tile/"@.subrange(0, 8) =~= p);
        },
        BasemapStyle::UsgsTopo => {
            reveal_strlit("https://basemap.nationalmap.gov/arcgis/rest/services/USGSTopo/MapServer/tile/");
            assert("https://basemap.nationalmap.gov/arcgis/rest/services/USGSTopo/MapServer/tile/"@.subrange(0, 8) =~= p);
        },
        BasemapStyle::UsgsImageryTopo => {
            reveal_strlit("https://basemap.nationalmap.gov/arcgis/rest/services/USGSImageryTopo/MapServer/tile/");
            assert("https://basemap.nationalmap.gov/arcgis/rest/services/USGSImageryTopo/MapServer/tile/"@.subrange(0, 8) =~= p);
        },
        BasemapStyle::EsriImagery => {
            reveal_strlit("https://server.arcgisonline.com/ArcGIS/rest/services/World_Imagery/MapServer/tile/");
            assert("https://server.arcgisonline.com/ArcGIS/rest/services/World_Imagery/MapServer/tile/"@.subrange(0, 8) =~= p);
        },
        BasemapStyle::EsriStreets => {
            reveal_strlit("https://server.arcgisonline.com/ArcGIS/rest/services/World_Street_Map/MapServer/tile/");
            assert("https://server.arcgisonline.com/ArcGIS/rest/services/World_Street_Map/MapServer/tile/"@.subrange(0, 8) =~= p);
        },
        BasemapStyle::EsriTopo => {
            reveal_strlit("https://server.arcgisonline.com/ArcGIS/rest/services/World_Topo_Map/MapServer/tile/");
            assert("https://server.arcgisonline.com/ArcGIS/rest/services/World_Topo_Map/MapServer/tile/"@.subrange(0, 8) =~= p);
        },
        BasemapStyle::HybridSatellite => {
            reveal_strlit("https://server.arcgisonline.com/ArcGIS/rest/services/World_Imagery/MapServer/tile/");
            assert("https://server.arcgisonline.com/ArcGIS/rest/services/World_Imagery/MapServer/tile/"@.subrange(0, 8) =~= p);
        },
        BasemapStyle::EsriDarkGray => {
            reveal_strlit("https://server.arcgisonline.com/ArcGIS/rest/services/Canvas/World_Dark_Gray_Base/MapServer/tile/");
            assert("https://server.arcgisonline.com/ArcGIS/rest/services/Canvas/World_Dark_Gray_Base/MapServer/tile/"@.subrange(0, 8) =~= p);
        },
        BasemapStyle::EsriLightGray => {
            reveal_strlit("https://server.arcgisonline.com/ArcGIS/rest/services/Canvas/World_Light_Gray_Base/MapServer/tile/");
            assert("https://server.arcgisonline.com/ArcGIS/rest/services/Canvas/World_Light_Gray_Base/MapServer/tile/"@.subrange(0, 8) =~= p);
        },
        BasemapStyle::EsriNatGeo => {
            reveal_strlit("https://server.arcgisonline.com/ArcGIS/rest/services/NatGeo_World_Map/MapServer/tile/");
            assert("https://server.arcgisonline.com/ArcGIS/rest/services/NatGeo_World_Map/MapServer/tile/"@.subrange(0, 8) =~= p);
        },
        BasemapStyle::EsriOcean => {
            reveal_strlit("https://server.arcgisonline.com/ArcGIS/rest/services/Ocean/World_Ocean_Base/MapServer/tile/");
            assert("https://server.arcgisonline.com/ArcGIS/rest/services/Ocean/World_Ocean_Base/MapServer/tile/"@.subrange(0, 8) =~= p);
        },
        BasemapStyle::OsmStandard => {
            reveal_strlit("https://tile.openstreetmap.org/");
            assert("https://tile.openstreetmap.org/"@.subrange(0, 8) =~= p);
        },
        BasemapStyle::OpenTopoMap => {
            reveal_strlit("https://a.tile.opentopomap.org/");
            assert("https://a.tile.opentopomap.org/"@.subrange(0, 8) =~= p);
        },
        BasemapStyle::CartoPositron => {
            reveal_strlit("https://basemaps.cartocdn.com/light_all/");
            assert("https://basemaps.cartocdn.com/light_all/"@.subrange(0, 8) =~= p);
        },
        BasemapStyle::CartoDarkMatter => {
            reveal_strlit("https://basemaps.cartocdn.com/dark_all/");
            assert("https://basemaps.cartocdn.com/dark_all/"@.subrange(0, 8) =~= p);
        },
        BasemapStyle::CartoVoyager => {
            reveal_strlit("https://basemaps.cartocdn.com/rastertiles/voyager/");
            assert("https://basemaps.cartocdn.com/rastertiles/voyager/"@.subrange(0, 8) =~= p);
        },
        BasemapStyle::OsmHot => {
            reveal_strlit("https://a.tile.openstreetmap.fr/hot/");
            assert("https://a.tile.openstreetmap.fr/hot/"@.subrange(0, 8) =~= p);
        },
        BasemapStyle::CyclOsm => {
            reveal_strlit("https://a.tile-cyclosm.openstreetmap.fr/cyclosm/");
            assert("https://a.tile-cyclosm.openstreetmap.fr/cyclosm/"@.subrange(0, 8) =~= p);
        },
        _ => {},
    }
}

proof fn lemma_servers_are_https(s: BasemapStyle)
    ensures
        text::starts("https://api.mapbox.com/styles/v1/mapbox/"@, "https://"@),
        text::starts("https://api.maptiler.com/maps/"@, "https://"@),
        text::starts("https://gibs.earthdata.nasa.gov/wmts/epsg3857/best/"@, "https://"@),
        s.wms() is Some ==> text::starts((s.wms()->0).0, "https://"@),
{
    reveal_strlit("https://");
    reveal_strlit("https://api.mapbox.com/styles/v1/mapbox/");
    reveal_strlit("https://api.maptiler.com/maps/");
    reveal_strlit("https://gibs.earthdata.nasa.gov/wmts/epsg3857/best/");
    reveal_strlit("https://maps.dwd.de/geoserver/dwd/wms");
    reveal_strlit("https://geo.weather.gc.ca/geomet");
    let p = "https://"@;
    assert("https://api.mapbox.com/styles/v1/mapbox/"@.subrange(0, 8) =~= p);
    assert("https://api.maptiler.com/maps/"@.subrange(0, 8) =~= p);
    assert("https://gibs.earthdata.nasa.gov/wmts/epsg3857/best/"@.subrange(0, 8) =~= p);
    assert("https://maps.dwd.de/geoserver/dwd/wms"@.subrange(0, 8) =~= p);
    assert("https://geo.weather.gc.ca/geomet"@.subrange(0, 8) =~= p);
}

/// Every tile is fetched over `https`, whatever the keys, the template or the frame.
pub proof fn tiles_come_over_https(
    s: BasemapStyle,
    z: u8,
    x: u32,
    y: u32,
    retina: bool,
    mapbox_key: Seq<char>,
    maptiler_key: Seq<char>,
    custom: Seq<char>,
    time: Seq<char>,
)
    requires
        s.url_at(z, x, y, retina, mapbox_key, maptiler_key, custom, time) is Some,
    ensures
        text::starts(
            s.url_at(z, x, y, retina, mapbox_key, maptiler_key, custom, time)->0,
            "https://"@,
        ),
{
    let url = s.url_at(z, x, y, retina, mapbox_key, maptiler_key, custom, time)->0;
    let p = "https://"@;
    lemma_servers_are_https(s);
    if s.needs() == Provider::Mapbox {
        let a = "https://api.mapbox.com/styles/v1/mapbox/"@;
        lemma_starts_join(a, url.skip(a.len() as int), p);
        assert(a + url.skip(a.len() as int) =~= url);
    } else if s.needs() == Provider::MapTiler {
        let a = "https://api.maptiler.com/maps/"@;
        lemma_starts_join(a, url.skip(a.len() as int), p);
        assert(a + url.skip(a.len() as int) =~= url);
    } else if s == BasemapStyle::CustomXyz {
        reveal_strlit("https://");
        reveal_strlit("{z}");
        reveal_strlit("{x}");
        reveal_strlit("{y}");
        let a = text::replaced(custom, "{z}"@, num(z as int));
        let b = text::replaced(a, "{x}"@, num(x as int));
        lemma_replace_keeps_start(custom, p, "{z}"@, num(z as int));
        lemma_replace_keeps_start(a, p, "{x}"@, num(x as int));
        lemma_replace_keeps_start(b, p, "{y}"@, num(y as int));
    } else if s.pyramid_text() is Some {
        lemma_pyramids_are_https(s);
        let a = (s.pyramid_text()->0).0;
        lemma_starts_join(a, url.skip(a.len() as int), p);
        assert(a + url.skip(a.len() as int) =~= url);
    } else if s.wms() is Some {
        let a = (s.wms()->0).0;
        lemma_starts_join(a, url.skip(a.len() as int), p);
        assert(a + url.skip(a.len() as int) =~= url);
    } else {
        let a = "https://gibs.earthdata.nasa.gov/wmts/epsg3857/best/"@;
        lemma_starts_join(a, url.skip(a.len() as int), p);
        assert(a + url.skip(a.len() as int) =~= url);
    }
}

// ---------------------------------------------------------------------------------------------
// What an address tells.

/// Three numbers between slashes tell the numbers.
pub proof fn paths_tell_their_numbers(a: nat, b: nat, c: nat, d: nat, e: nat, f: nat)
    requires
        path3(a as int, b as int, c as int) == path3(d as int, e as int, f as int),
    ensures
        a == d,
        b == e,
        c == f,
{
    reveal_strlit("/");
    assert("/"@ =~= seq!['/']);
    let (x, y, z) = (text::decimal_text(a), text::decimal_text(b), text::decimal_text(c));
    let (u, v, w) = (text::decimal_text(d), text::decimal_text(e), text::decimal_text(f));
    lemma_number_has_no_slash(a);
    lemma_number_has_no_slash(b);
    lemma_number_has_no_slash(d);
    lemma_number_has_no_slash(e);
    assert(path3(a as int, b as int, c as int) =~= x + seq!['/'] + (y + seq!['/'] + z));
    assert(path3(d as int, e as int, f as int) =~= u + seq!['/'] + (v + seq!['/'] + w));
    text::cutting_undoes_joining(x, y + seq!['/'] + z, '/');
    text::cutting_undoes_joining(u, v + seq!['/'] + w, '/');
    text::cutting_undoes_joining(y, z, '/');
    text::cutting_undoes_joining(v, w, '/');
    text::decimals_read_back(a);
    text::decimals_read_back(b);
    text::decimals_read_back(c);
    text::decimals_read_back(d);
    text::decimals_read_back(e);
    text::decimals_read_back(f);
}

proof fn lemma_number_has_no_slash(n: nat)
    ensures
        !text::decimal_text(n).contains('/'),
        !text::decimal_text(n).contains('{'),
{
    text::decimals_read_back(n);
    let t = text::decimal_text(n);
    if t.contains('/') {
        assert(text::is_digit_char(t[t.index_of('/')]));
    }
    if t.contains('{') {
        assert(text::is_digit_char(t[t.index_of('{')]));
    }
}

/// A frame of a timed layer has addresses of its own: the address of a tile holds the instant that
/// was asked for, and two instants never share one. Every timed style has such addresses, and no
/// other style has.
pub proof fn timed_addresses_tell_their_frame(
    s: BasemapStyle,
    z: u8,
    x: u32,
    y: u32,
    iso: Seq<char>,
    other: Seq<char>,
)
    ensures
        s.timed_url_text(z, x, y, iso) is Some <==> s.is_timed(),
        s.is_timed() ==> text::holds_text(s.timed_url_text(z, x, y, iso)->0, iso),
        s.is_timed() && s.timed_url_text(z, x, y, iso) == s.timed_url_text(z, x, y, other) ==> iso
            == other,
{
    if let Some((base, layer, _, _)) = s.wms() {
        let a = wms_text(base, layer, z, x, y, ""@) + "&TIME="@;
        text::lemma_holds_join(a, iso, Seq::empty());
        assert(a + iso + Seq::<char>::empty() =~= a + iso);
        assert((a + iso).skip(a.len() as int) =~= iso);
        assert((a + other).skip(a.len() as int) =~= other);
    } else if let Some((layer, level)) = s.gibs() {
        let a = "https://gibs.earthdata.nasa.gov/wmts/epsg3857/best/"@ + layer + "/default/"@;
        let b = "/GoogleMapsCompatible_Level"@ + num(level as int) + "/"@ + path3(
            z as int,
            y as int,
            x as int,
        ) + ".png"@;
        let u = gibs_text(layer, level, iso, z, x, y);
        let v = gibs_text(layer, level, other, z, x, y);
        assert(u =~= a + iso + b);
        assert(v =~= a + other + b);
        text::lemma_holds_join(a, iso, b);
        assert(u.subrange(a.len() as int, u.len() - b.len()) =~= iso);
        assert(v.subrange(a.len() as int, v.len() - b.len()) =~= other);
    }
}

/// A server that is asked for an instant is told it; one that is not asked for any is told none.
pub proof fn map_servers_are_told_the_instant(
    base: Seq<char>,
    layer: Seq<char>,
    z: u8,
    x: u32,
    y: u32,
    time: Seq<char>,
)
    ensures
        time.len() > 0 ==> wms_text(base, layer, z, x, y, time) == wms_text(
            base,
            layer,
            z,
            x,
            y,
            Seq::empty(),
        ) + "&TIME="@ + time,
        text::starts(wms_text(base, layer, z, x, y, time), base + "?SERVICE=WMS"@),
        text::holds_text(wms_text(base, layer, z, x, y, time), "&LAYERS="@ + layer + "&"@),
        text::holds_text(
            wms_text(base, layer, z, x, y, time),
            "&CRS=EPSG:3857&BBOX="@ + metres_text(tile_box(z, x, y).0) + ","@ + metres_text(
                tile_box(z, x, y).1,
            ) + ","@ + metres_text(tile_box(z, x, y).2) + ","@ + metres_text(tile_box(z, x, y).3)
                + "&WIDTH=256&HEIGHT=256"@,
        ),
{
    reveal_strlit("");
    let u = wms_text(base, layer, z, x, y, time);
    let plain = wms_text(base, layer, z, x, y, Seq::empty());
    if time.len() > 0 {
        assert(u =~= plain + "&TIME="@ + time);
    }
    let b = tile_box(z, x, y);
    let tail = if time.len() == 0 {
        ""@
    } else {
        "&TIME="@ + time
    };
    lemma_wms_words();
    lemma_wms_parts(
        base,
        "?SERVICE=WMS"@,
        "&VERSION=1.3.0&REQUEST=GetMap"@,
        "&CRS=EPSG:3857&BBOX="@,
        metres_text(b.0) + ","@ + metres_text(b.1) + ","@ + metres_text(b.2) + ","@ + metres_text(
            b.3,
        ),
        "&WIDTH=256&HEIGHT=256"@,
        "&LAYERS="@,
        layer,
        "&"@,
        "FORMAT=image/png&TRANSPARENT=TRUE"@,
        tail,
    );
    lemma_box_first(
        base + "?SERVICE=WMS&VERSION=1.3.0&REQUEST=GetMap&CRS=EPSG:3857&BBOX="@,
        "&CRS=EPSG:3857&BBOX="@,
        metres_text(b.0),
        metres_text(b.1),
        metres_text(b.2),
        metres_text(b.3),
        "&WIDTH=256&HEIGHT=256"@,
    );
}

proof fn lemma_wms_words()
    ensures
        "?SERVICE=WMS&VERSION=1.3.0&REQUEST=GetMap&CRS=EPSG:3857&BBOX="@ == "?SERVICE=WMS"@
            + "&VERSION=1.3.0&REQUEST=GetMap"@ + "&CRS=EPSG:3857&BBOX="@,
        "&WIDTH=256&HEIGHT=256&LAYERS="@ == "&WIDTH=256&HEIGHT=256"@ + "&LAYERS="@,
        "&FORMAT=image/png&TRANSPARENT=TRUE"@ == "&"@ + "FORMAT=image/png&TRANSPARENT=TRUE"@,
{
    reveal_strlit("?SERVICE=WMS&VERSION=1.3.0&REQUEST=GetMap&CRS=EPSG:3857&BBOX=");
    reveal_strlit("?SERVICE=WMS");
    reveal_strlit("&VERSION=1.3.0&REQUEST=GetMap");
    reveal_strlit("&CRS=EPSG:3857&BBOX=");
    reveal_strlit("&WIDTH=256&HEIGHT=256&LAYERS=");
    reveal_strlit("&WIDTH=256&HEIGHT=256");
    reveal_strlit("&LAYERS=");
    reveal_strlit("&FORMAT=image/png&TRANSPARENT=TRUE");
    reveal_strlit("&");
    reveal_strlit("FORMAT=image/png&TRANSPARENT=TRUE");
    assert("?SERVICE=WMS&VERSION=1.3.0&REQUEST=GetMap&CRS=EPSG:3857&BBOX="@ =~= "?SERVICE=WMS"@
        + "&VERSION=1.3.0&REQUEST=GetMap"@ + "&CRS=EPSG:3857&BBOX="@);
    assert("&WIDTH=256&HEIGHT=256&LAYERS="@ =~= "&WIDTH=256&HEIGHT=256"@ + "&LAYERS="@);
    assert("&FORMAT=image/png&TRANSPARENT=TRUE"@ =~= "&"@ + "FORMAT=image/png&TRANSPARENT=TRUE"@);
}

proof fn lemma_box_first(
    start: Seq<char>,
    mark: Seq<char>,
    a: Seq<char>,
    b: Seq<char>,
    c: Seq<char>,
    d: Seq<char>,
    end: Seq<char>,
)
    ensures
        start + a + ","@ + b + ","@ + c + ","@ + d == start + (a + ","@ + b + ","@ + c + ","@ + d),
        mark + a + ","@ + b + ","@ + c + ","@ + d + end == mark + (a + ","@ + b + ","@ + c + ","@
            + d) + end,
{
    assert(start + a + ","@ + b + ","@ + c + ","@ + d =~= start + (a + ","@ + b + ","@ + c + ","@
        + d));
    assert(mark + a + ","@ + b + ","@ + c + ","@ + d =~= mark + (a + ","@ + b + ","@ + c + ","@
        + d));
}

/// The parts of a request to a map server.
proof fn lemma_wms_parts(
    base: Seq<char>,
    service: Seq<char>,
    version: Seq<char>,
    crs: Seq<char>,
    m: Seq<char>,
    size: Seq<char>,
    layers: Seq<char>,
    layer: Seq<char>,
    amp: Seq<char>,
    form: Seq<char>,
    tail: Seq<char>,
)
    ensures
        ({
            let u = base + (service + version + crs) + m + (size + layers) + layer + (amp + form)
                + tail;
            &&& text::starts(u, base + service)
            &&& text::holds_text(u, layers + layer + amp)
            &&& text::holds_text(u, crs + m + size)
        }),
{
    let u = base + (service + version + crs) + m + (size + layers) + layer + (amp + form) + tail;
    let rest = version + crs + m + size + layers + layer + amp + form + tail;
    assert(u =~= (base + service) + rest);
    text::lemma_starts_join(base + service, rest);
    let before = base + service + version + crs + m + size;
    assert(u =~= before + (layers + layer + amp) + (form + tail));
    text::lemma_holds_join(before, layers + layer + amp, form + tail);
    let first = base + service + version;
    let last = layers + layer + amp + form + tail;
    assert(u =~= first + (crs + m + size) + last);
    text::lemma_holds_join(first, crs + m + size, last);
}

proof fn lemma_pyramid_starts(s: BasemapStyle)
    requires
        s.pyramid_text() is Some,
    ensures
        (s.pyramid_text()->0).1 ==> text::ends((s.pyramid_text()->0).0, "/MapServer/tile/"@)
            && (s.pyramid_text()->0).2.len() == 0 && !s.double(),
        !(s.pyramid_text()->0).1 ==> text::ends((s.pyramid_text()->0).0, "/"@) && (
        s.pyramid_text()->0).2 == ".png"@,
{
    reveal_strlit("/MapServer/tile/");
    reveal_strlit("/");
    reveal_strlit("");
    let arc = "/MapServer/tile/"@;
    let slash = "/"@;
    match s {
        BasemapStyle::Satellite => {
            reveal_strlit("https://basemap.nationalmap.gov/arcgis/rest/services/USGSImageryOnly/MapServer/tile/");
            assert("https://basemap.nationalmap.gov/arcgis/rest/services/USGSImageryOnly/MapServer/tile/"@.skip(68) =~= arc);
        },
        BasemapStyle::UsgsTopo => {
            reveal_strlit("https://basemap.nationalmap.gov/arcgis/rest/services/USGSTopo/MapServer/tile/");
            assert("https://basemap.nationalmap.gov/arcgis/rest/services/USGSTopo/MapServer/tile/"@.skip(61) =~= arc);
        },
        BasemapStyle::UsgsImageryTopo => {
            reveal_strlit("https://basemap.nationalmap.gov/arcgis/rest/services/USGSImageryTopo/MapServer/tile/");
            assert("https://basemap.nationalmap.gov/arcgis/rest/services/USGSImageryTopo/MapServer/tile/"@.skip(68) =~= arc);
        },
        BasemapStyle::EsriImagery => {
            reveal_strlit("https://server.arcgisonline.com/ArcGIS/rest/services/World_Imagery/MapServer/tile/");
            assert("https://server.arcgisonline.com/ArcGIS/rest/services/World_Imagery/MapServer/tile/"@.skip(66) =~= arc);
        },
        BasemapStyle::EsriStreets => {
            reveal_strlit("https://server.arcgisonline.com/ArcGIS/rest/services/World_Street_Map/MapServer/tile/");
            assert("https://server.arcgisonline.com/ArcGIS/rest/services/World_Street_Map/MapServer/tile/"@.skip(69) =~= arc);
        },
        BasemapStyle::EsriTopo => {
            reveal_strlit("https://server.arcgisonline.com/ArcGIS/rest/services/World_Topo_Map/MapServer/tile/");
            assert("https://server.arcgisonline.com/ArcGIS/rest/services/World_Topo_Map/MapServer/tile/"@.skip(67) =~= arc);
        },
        BasemapStyle::HybridSatellite => {
            reveal_strlit("https://server.arcgisonline.com/ArcGIS/rest/services/World_Imagery/MapServer/tile/");
            assert("https://server.arcgisonline.com/ArcGIS/rest/services/World_Imagery/MapServer/tile/"@.skip(66) =~= arc);
        },
        BasemapStyle::EsriDarkGray => {
            reveal_strlit("https://server.arcgisonline.com/ArcGIS/rest/services/Canvas/World_Dark_Gray_Base/MapServer/tile/");
            assert("https://server.arcgisonline.com/ArcGIS/rest/services/Canvas/World_Dark_Gray_Base/MapServer/tile/"@.skip(80) =~= arc);
        },
        BasemapStyle::EsriLightGray => {
            reveal_strlit("https://server.arcgisonline.com/ArcGIS/rest/services/Canvas/World_Light_Gray_Base/MapServer/tile/");
            assert("https://server.arcgisonline.com/ArcGIS/rest/services/Canvas/World_Light_Gray_Base/MapServer/tile/"@.skip(81) =~= arc);
        },
        BasemapStyle::EsriNatGeo => {
            reveal_strlit("https://server.arcgisonline.com/ArcGIS/rest/services/NatGeo_World_Map/MapServer/tile/");
            assert("https://server.arcgisonline.com/ArcGIS/rest/services/NatGeo_World_Map/MapServer/tile/"@.skip(69) =~= arc);
        },
        BasemapStyle::EsriOcean => {
            reveal_strlit("https://server.arcgisonline.com/ArcGIS/rest/services/Ocean/World_Ocean_Base/MapServer/tile/");
            assert("https://server.arcgisonline.com/ArcGIS/rest/services/Ocean/World_Ocean_Base/MapServer/tile/"@.skip(75) =~= arc);
        },
        BasemapStyle::OsmStandard => {
            reveal_strlit("https://tile.openstreetmap.org/");
            assert("https://tile.openstreetmap.org/"@.skip(30) =~= slash);
        },
        BasemapStyle::OpenTopoMap => {
            reveal_strlit("https://a.tile.opentopomap.org/");
            assert("https://a.tile.opentopomap.org/"@.skip(30) =~= slash);
        },
        BasemapStyle::CartoPositron => {
            reveal_strlit("https://basemaps.cartocdn.com/light_all/");
            assert("https://basemaps.cartocdn.com/light_all/"@.skip(39) =~= slash);
        },
        BasemapStyle::CartoDarkMatter => {
            reveal_strlit("https://basemaps.cartocdn.com/dark_all/");
            assert("https://basemaps.cartocdn.com/dark_all/"@.skip(38) =~= slash);
        },
        BasemapStyle::CartoVoyager => {
            reveal_strlit("https://basemaps.cartocdn.com/rastertiles/voyager/");
            assert("https://basemaps.cartocdn.com/rastertiles/voyager/"@.skip(49) =~= slash);
        },
        BasemapStyle::OsmHot => {
            reveal_strlit("https://a.tile.openstreetmap.fr/hot/");
            assert("https://a.tile.openstreetmap.fr/hot/"@.skip(35) =~= slash);
        },
        BasemapStyle::CyclOsm => {
            reveal_strlit("https://a.tile-cyclosm.openstreetmap.fr/cyclosm/");
            assert("https://a.tile-cyclosm.openstreetmap.fr/cyclosm/"@.skip(47) =~= slash);
        },
        _ => {},
    }
}

/// A tile, column before row, and the other way round.
pub open spec fn column_first(z: u8, x: u32, y: u32) -> Seq<char> {
    "/"@ + text::decimal_text(z as nat) + "/"@ + text::decimal_text(x as nat) + "/"@
        + text::decimal_text(y as nat)
}

pub open spec fn row_first(z: u8, x: u32, y: u32) -> Seq<char> {
    "/"@ + text::decimal_text(z as nat) + "/"@ + text::decimal_text(y as nat) + "/"@
        + text::decimal_text(x as nat)
}

/// The address of a tile ends with the tile, in the order that its server takes: ArcGIS and GIBS
/// take the row before the column, all others the column before the row. GIBS is told the instant.
pub open spec fn ends_with_the_tile(
    s: BasemapStyle,
    z: u8,
    x: u32,
    y: u32,
    retina: bool,
    mapbox_key: Seq<char>,
    maptiler_key: Seq<char>,
    time: Seq<char>,
    url: Seq<char>,
) -> bool {
    let zxy = column_first(z, x, y);
    let zyx = row_first(z, x, y);
    match s.needs() {
        Provider::Mapbox => text::ends(url, zxy + "?access_token="@ + mapbox_key),
        Provider::MapTiler => text::ends(url, zxy + ".jpg?key="@ + maptiler_key) || text::ends(
            url,
            zxy + ".png?key="@ + maptiler_key,
        ),
        Provider::Builtin => {
            ||| text::ends(url, "/MapServer/tile"@ + zyx)
            ||| text::ends(url, zxy + s.density_mark(retina) + ".png"@)
            ||| (text::ends(url, zyx + ".png"@) && text::holds_text(
                url,
                "/default/"@ + time + "/GoogleMapsCompatible_Level"@,
            ))
        },
    }
}

/// Every address of a style but the custom one and the map servers ends with its tile.
pub proof fn addresses_end_with_the_tile(
    s: BasemapStyle,
    z: u8,
    x: u32,
    y: u32,
    retina: bool,
    mapbox_key: Seq<char>,
    maptiler_key: Seq<char>,
    custom: Seq<char>,
    time: Seq<char>,
)
    requires
        s.url_at(z, x, y, retina, mapbox_key, maptiler_key, custom, time) is Some,
        s != BasemapStyle::CustomXyz,
        s.wms() is None,
    ensures
        ends_with_the_tile(
            s,
            z,
            x,
            y,
            retina,
            mapbox_key,
            maptiler_key,
            time,
            s.url_at(z, x, y, retina, mapbox_key, maptiler_key, custom, time)->0,
        ),
{
    let url = s.url_at(z, x, y, retina, mapbox_key, maptiler_key, custom, time)->0;
    lemma_paths_are_tiles(z, x, y);
    if s.needs() == Provider::Mapbox {
        lemma_mapbox_tail(s.style_id_text(), path3(z as int, x as int, y as int), mapbox_key);
    } else if s.needs() == Provider::MapTiler {
        let mark = if s == BasemapStyle::MapTilerSatellite {
            ".jpg?key="@
        } else {
            ".png?key="@
        };
        lemma_maptiler_tail(
            s.style_id_text(),
            path3(z as int, x as int, y as int),
            mark,
            maptiler_key,
        );
    } else if s.pyramid_text() is Some {
        lemma_pyramid_tail(
            s,
            path3(z as int, x as int, y as int),
            path3(z as int, y as int, x as int),
            retina,
        );
    } else {
        let (layer, level) = s.gibs()->0;
        lemma_gibs_tail(layer, level, time, z, x, y);
    }
}

proof fn lemma_paths_are_tiles(z: u8, x: u32, y: u32)
    ensures
        column_first(z, x, y) == "/"@ + path3(z as int, x as int, y as int),
        row_first(z, x, y) == "/"@ + path3(z as int, y as int, x as int),
{
    lemma_slash_first(
        text::decimal_text(z as nat),
        text::decimal_text(x as nat),
        text::decimal_text(y as nat),
    );
    lemma_slash_first(
        text::decimal_text(z as nat),
        text::decimal_text(y as nat),
        text::decimal_text(x as nat),
    );
}

proof fn lemma_mapbox_tail(id: Seq<char>, p: Seq<char>, key: Seq<char>)
    ensures
        text::ends(
            "https://api.mapbox.com/styles/v1/mapbox/"@ + id + "/tiles/512/"@ + p
                + "?access_token="@ + key,
            ("/"@ + p) + "?access_token="@ + key,
        ),
{
    assert("/tiles/512/"@ == "/tiles/512"@ + "/"@) by {
        reveal_strlit("/tiles/512/");
        reveal_strlit("/tiles/512");
        reveal_strlit("/");
        assert("/tiles/512/"@ =~= "/tiles/512"@ + "/"@);
    }
    lemma_tail(
        "https://api.mapbox.com/styles/v1/mapbox/"@,
        id,
        "/tiles/512"@,
        "/"@,
        p,
        "?access_token="@,
        key,
    );
}

proof fn lemma_maptiler_tail(id: Seq<char>, p: Seq<char>, mark: Seq<char>, key: Seq<char>)
    ensures
        text::ends(
            "https://api.maptiler.com/maps/"@ + id + "/"@ + p + mark + key,
            ("/"@ + p) + mark + key,
        ),
{
    lemma_tail("https://api.maptiler.com/maps/"@, id, Seq::empty(), "/"@, p, mark, key);
    assert(Seq::<char>::empty() + "/"@ =~= "/"@);
}

proof fn lemma_pyramid_tail(s: BasemapStyle, p: Seq<char>, q: Seq<char>, retina: bool)
    requires
        s.pyramid_text() is Some,
    ensures
        ({
            let (start, row_first, end) = s.pyramid_text()->0;
            let url = start + (if row_first {
                q
            } else {
                p
            }) + s.density_mark(retina) + end;
            if row_first {
                text::ends(url, "/MapServer/tile"@ + ("/"@ + q))
            } else {
                text::ends(url, ("/"@ + p) + s.density_mark(retina) + ".png"@)
            }
        }),
{
    let (start, row_first, end) = s.pyramid_text()->0;
    lemma_pyramid_starts(s);
    if row_first {
        assert(s.density_mark(retina).len() == 0) by {
            reveal_strlit("");
        }
        lemma_arc_tail(start, q, s.density_mark(retina), end);
    } else {
        lemma_slash_tail(start, p, s.density_mark(retina), end);
    }
}

proof fn lemma_arc_tail(start: Seq<char>, q: Seq<char>, mark: Seq<char>, end: Seq<char>)
    requires
        text::ends(start, "/MapServer/tile/"@),
        mark.len() == 0,
        end.len() == 0,
    ensures
        text::ends(start + q + mark + end, "/MapServer/tile"@ + ("/"@ + q)),
{
    text::lemma_ends_split(start, "/MapServer/tile/"@);
    let a = start.take(start.len() - "/MapServer/tile/"@.len());
    assert("/MapServer/tile/"@ == "/MapServer/tile"@ + "/"@) by {
        reveal_strlit("/MapServer/tile/");
        reveal_strlit("/MapServer/tile");
        reveal_strlit("/");
        assert("/MapServer/tile/"@ =~= "/MapServer/tile"@ + "/"@);
    }
    lemma_last(a, "/MapServer/tile"@, "/"@, q);
    assert(start + q + mark + end =~= start + q);
}

proof fn lemma_slash_tail(start: Seq<char>, p: Seq<char>, mark: Seq<char>, end: Seq<char>)
    requires
        text::ends(start, "/"@),
    ensures
        text::ends(start + p + mark + end, ("/"@ + p) + mark + end),
{
    text::lemma_ends_split(start, "/"@);
    let a = start.take(start.len() - "/"@.len());
    let none = Seq::<char>::empty();
    lemma_tail(a, none, none, "/"@, p, mark, end);
    assert(a + none + (none + "/"@) =~= a + "/"@);
}

proof fn lemma_gibs_tail(layer: Seq<char>, level: u8, time: Seq<char>, z: u8, x: u32, y: u32)
    ensures
        text::ends(
            gibs_text(layer, level, time, z, x, y),
            ("/"@ + path3(z as int, y as int, x as int)) + ".png"@,
        ),
        text::holds_text(
            gibs_text(layer, level, time, z, x, y),
            "/default/"@ + time + "/GoogleMapsCompatible_Level"@,
        ),
{
    let best = "https://gibs.earthdata.nasa.gov/wmts/epsg3857/best/"@;
    let q = path3(z as int, y as int, x as int);
    let n = num(level as int);
    let a = best + layer;
    let t = "/default/"@ + time + "/GoogleMapsCompatible_Level"@;
    assert(best + layer + "/default/"@ + time + "/GoogleMapsCompatible_Level"@ =~= a + t);
    lemma_middle(a, t, n, "/"@, q, ".png"@);
}

proof fn lemma_middle(
    a: Seq<char>,
    t: Seq<char>,
    n: Seq<char>,
    slash: Seq<char>,
    q: Seq<char>,
    png: Seq<char>,
)
    ensures
        text::ends(a + t + n + slash + q + png, (slash + q) + png),
        text::holds_text(a + t + n + slash + q + png, t),
{
    let u = a + t + n + slash + q + png;
    assert(u =~= (a + t + n) + ((slash + q) + png));
    text::lemma_ends_join(a + t + n, (slash + q) + png);
    assert(u =~= a + t + (n + slash + q + png));
    text::lemma_holds_join(a, t, n + slash + q + png);
}

proof fn lemma_slash_first(a: Seq<char>, b: Seq<char>, c: Seq<char>)
    ensures
        "/"@ + a + "/"@ + b + "/"@ + c == "/"@ + (a + "/"@ + b + "/"@ + c),
{
    assert("/"@ + a + "/"@ + b + "/"@ + c =~= "/"@ + (a + "/"@ + b + "/"@ + c));
}

proof fn lemma_tail(
    a: Seq<char>,
    id: Seq<char>,
    t: Seq<char>,
    slash: Seq<char>,
    p: Seq<char>,
    mark: Seq<char>,
    key: Seq<char>,
)
    ensures
        text::ends(a + id + (t + slash) + p + mark + key, (slash + p) + mark + key),
{
    let e = (slash + p) + mark + key;
    assert(a + id + (t + slash) + p + mark + key =~= (a + id + t) + e);
    text::lemma_ends_join(a + id + t, e);
}

proof fn lemma_last(a: Seq<char>, t: Seq<char>, slash: Seq<char>, q: Seq<char>)
    ensures
        text::ends(a + (t + slash) + q, t + (slash + q)),
{
    assert(a + (t + slash) + q =~= a + (t + (slash + q)));
    text::lemma_ends_join(a, t + (slash + q));
}

/// A key goes to its own provider alone: no address but those of the provider's styles changes with
/// it, and those are had only with it.
pub proof fn keys_go_to_their_provider(
    s: BasemapStyle,
    z: u8,
    x: u32,
    y: u32,
    retina: bool,
    mapbox: Seq<char>,
    maptiler: Seq<char>,
    other: Seq<char>,
    custom: Seq<char>,
)
    ensures
        s.needs() != Provider::Mapbox ==> s.url_text(z, x, y, retina, mapbox, maptiler, custom)
            == s.url_text(z, x, y, retina, other, maptiler, custom),
        s.needs() != Provider::MapTiler ==> s.url_text(z, x, y, retina, mapbox, maptiler, custom)
            == s.url_text(z, x, y, retina, mapbox, other, custom),
        s != BasemapStyle::CustomXyz ==> s.url_text(z, x, y, retina, mapbox, maptiler, custom)
            == s.url_text(z, x, y, retina, mapbox, maptiler, other),
        s.needs() == Provider::Mapbox ==> (s.url_text(z, x, y, retina, mapbox, maptiler, custom)
            is Some <==> mapbox.len() > 0),
        s.needs() == Provider::MapTiler ==> (s.url_text(z, x, y, retina, mapbox, maptiler, custom)
            is Some <==> maptiler.len() > 0),
{
}

/// Replacing the one slot of a text.
proof fn lemma_fill_one(a: Seq<char>, slot: Seq<char>, b: Seq<char>, n: nat)
    requires
        slot.len() > 0,
        slot[0] == '{',
        forall|k: int|
            0 <= k < a.len() + slot.len() + b.len() && k != a.len() ==> !#[trigger] text::stands_at(
                a + slot + b,
                slot,
                k,
            ),
    ensures
        text::replaced(a + slot + b, slot, text::decimal_text(n)) == a + text::decimal_text(n) + b,
{
    text::replacing_goes_left_to_right(a, slot, text::decimal_text(n), b);
    let s = a + slot + b;
    if text::holds_text(b, slot) {
        let k = choose|k: int| text::stands_at(b, slot, k);
        assert(text::stands_at(b, slot, k));
        let m = a.len() + slot.len() + k;
        assert(s.subrange(m, m + slot.len()) =~= b.subrange(k, k + slot.len()));
        assert(text::stands_at(s, slot, m));
    }
}

/// A template is filled slot by slot: the level, the column and the row stand where their slots
/// were, and the rest of the template stays.
pub proof fn templates_are_filled(
    a: Seq<char>,
    b: Seq<char>,
    c: Seq<char>,
    d: Seq<char>,
    z: u8,
    x: u32,
    y: u32,
)
    requires
        !a.contains('{'),
        !b.contains('{'),
        !c.contains('{'),
        !d.contains('{'),
    ensures
        filled_template(a + "{z}"@ + b + "{x}"@ + c + "{y}"@ + d, z, x, y) == a
            + text::decimal_text(z as nat) + b + text::decimal_text(x as nat) + c
            + text::decimal_text(y as nat) + d,
{
    reveal_strlit("{z}");
    reveal_strlit("{x}");
    reveal_strlit("{y}");
    let (sz, sx, sy) = ("{z}"@, "{x}"@, "{y}"@);
    let (nz, nx, ny) = (
        text::decimal_text(z as nat),
        text::decimal_text(x as nat),
        text::decimal_text(y as nat),
    );
    lemma_number_has_no_slash(z as nat);
    lemma_number_has_no_slash(x as nat);
    lemma_number_has_no_slash(y as nat);
    let t0 = a + sz + b + sx + c + sy + d;
    let b0 = b + sx + c + sy + d;
    assert(t0 =~= a + sz + b0);
    assert forall|k: int| 0 <= k < t0.len() && k != a.len() implies !#[trigger] text::stands_at(
        a + sz + b0,
        sz,
        k,
    ) by {
        lemma_slot_places(a, sz, b, sx, c, sy, d, k);
    }
    lemma_fill_one(a, sz, b0, z as nat);
    let t1 = a + nz + b + sx + c + sy + d;
    assert(a + nz + b0 =~= t1);
    let a1 = a + nz + b;
    let b1 = c + sy + d;
    assert(t1 =~= a1 + sx + b1);
    assert forall|k: int| 0 <= k < t1.len() && k != a1.len() implies !#[trigger] text::stands_at(
        a1 + sx + b1,
        sx,
        k,
    ) by {
        lemma_slot_places(a, nz, b, sx, c, sy, d, k);
    }
    lemma_fill_one(a1, sx, b1, x as nat);
    let t2 = a + nz + b + nx + c + sy + d;
    assert(a1 + nx + b1 =~= t2);
    let a2 = a + nz + b + nx + c;
    assert(t2 =~= a2 + sy + d);
    assert forall|k: int| 0 <= k < t2.len() && k != a2.len() implies !#[trigger] text::stands_at(
        a2 + sy + d,
        sy,
        k,
    ) by {
        lemma_slot_places(a, nz, b, nx, c, sy, d, k);
    }
    lemma_fill_one(a2, sy, d, y as nat);
    assert(filled_template(t0, z, x, y) =~= a + nz + b + nx + c + ny + d);
}

/// In a text of seven parts whose second, fourth and sixth are slots or filled ones, a slot stands
/// only where it was put.
proof fn lemma_slot_places(
    a: Seq<char>,
    p: Seq<char>,
    b: Seq<char>,
    q: Seq<char>,
    c: Seq<char>,
    r: Seq<char>,
    d: Seq<char>,
    k: int,
)
    requires
        !a.contains('{') && !b.contains('{') && !c.contains('{') && !d.contains('{'),
        p == "{z}"@ || !p.contains('{'),
        q == "{x}"@ || !q.contains('{'),
        r == "{y}"@,
        0 <= k < (a + p + b + q + c + r + d).len(),
    ensures
        text::stands_at(a + p + b + q + c + r + d, "{z}"@, k) ==> k == a.len() && p == "{z}"@,
        text::stands_at(a + p + b + q + c + r + d, "{x}"@, k) ==> k == (a + p + b).len() && q
            == "{x}"@,
        text::stands_at(a + p + b + q + c + r + d, "{y}"@, k) ==> k == (a + p + b + q + c).len(),
{
    reveal_strlit("{z}");
    reveal_strlit("{x}");
    reveal_strlit("{y}");
    let s = a + p + b + q + c + r + d;
    let i = a.len() as int;
    let j = i + p.len();
    let l = j + b.len();
    let m = l + q.len();
    let n = m + c.len();
    let o = n + r.len();
    if k < i {
        assert(s[k] == a[k]);
    } else if k < j {
        assert(s[k] == p[k - i]);
        if k == i && j == i + 3 {
            assert(s[k + 1] == p[1]);
        }
    } else if k < l {
        assert(s[k] == b[k - j]);
    } else if k < m {
        assert(s[k] == q[k - l]);
        if k == l && m == l + 3 {
            assert(s[k + 1] == q[1]);
        }
    } else if k < n {
        assert(s[k] == c[k - m]);
    } else if k < o {
        assert(s[k] == r[k - n]);
        if k == n {
            assert(s[k + 1] == r[1]);
        }
    } else {
        assert(s[k] == d[k - o]);
    }
    if text::stands_at(s, "{z}"@, k) {
        assert(s.subrange(k, k + 3)[0] == '{' && s.subrange(k, k + 3)[1] == 'z');
        assert(s[k] == '{' && s[k + 1] == 'z');
    }
    if text::stands_at(s, "{x}"@, k) {
        assert(s.subrange(k, k + 3)[0] == '{' && s.subrange(k, k + 3)[1] == 'x');
        assert(s[k] == '{' && s[k + 1] == 'x');
    }
    if text::stands_at(s, "{y}"@, k) {
        assert(s.subrange(k, k + 3)[0] == '{' && s.subrange(k, k + 3)[1] == 'y');
        assert(s[k] == '{' && s[k + 1] == 'y');
    }
}

/// The template hash is the 32-bit FNV-1a: from the offset basis on, each byte is mixed in and the
/// sum is multiplied by the prime.
pub proof fn template_hash_is_fnv(bytes: Seq<u8>, b: u8)
    ensures
        fnv(Seq::empty()) == 2166136261,
        fnv(bytes.push(b)) == ((fnv(bytes) ^ (b as u32)) * 16777619) % 4294967296,
{
    assert(bytes.push(b).drop_last() =~= bytes);
}

/// A template is one where it goes over a secure connection and has a place for the level, the
/// column and the row.
pub proof fn templates_have_a_place_for_the_tile(
    a: Seq<char>,
    b: Seq<char>,
    c: Seq<char>,
    d: Seq<char>,
    t: Seq<char>,
)
    ensures
        is_xyz_template("https://"@ + a + "{z}"@ + b + "{x}"@ + c + "{y}"@ + d),
        !text::starts(t, "https://"@) ==> !is_xyz_template(t),
        !text::holds_text(t, "{z}"@) ==> !is_xyz_template(t),
        !text::holds_text(t, "{x}"@) ==> !is_xyz_template(t),
        !text::holds_text(t, "{y}"@) ==> !is_xyz_template(t),
{
    let h = "https://"@;
    let s = h + a + "{z}"@ + b + "{x}"@ + c + "{y}"@ + d;
    let z = b + "{x}"@ + c + "{y}"@ + d;
    assert(s =~= h + (a + "{z}"@ + z));
    text::lemma_starts_join(h, a + "{z}"@ + z);
    assert(s =~= (h + a) + "{z}"@ + z);
    text::lemma_holds_join(h + a, "{z}"@, z);
    let x = h + a + "{z}"@ + b;
    assert(s =~= x + "{x}"@ + (c + "{y}"@ + d));
    text::lemma_holds_join(x, "{x}"@, c + "{y}"@ + d);
    let y = x + "{x}"@ + c;
    text::lemma_holds_join(y, "{y}"@, d);
}

} // verus!
