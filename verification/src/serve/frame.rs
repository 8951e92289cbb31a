//! The render knobs that every image endpoint shares, read out of a query string.

use crate::cloud;
use crate::settings::Number;
use crate::text;
use crate::tiles::style::BasemapStyle;
use vstd::prelude::*;

verus! {

/// A product that can be rendered: its code, the short name it goes by in file names, and the
/// alternate palettes it has.
#[derive(Debug)]
pub struct Product {
    pub code: String,
    pub short_name: String,
    pub palettes: Vec<String>,
}

/// The text can stand between two dashes of a file name.
pub open spec fn is_part(s: Seq<char>) -> bool {
    is_name(s) && undashed(s)
}

/// The palettes of a product differ in their letters and digits, from each other and from `std`.
pub open spec fn well_named_palettes(p: Product) -> bool {
    &&& forall|i: int, j: int|
        0 <= i < j < p.palettes@.len() ==> plain_name((#[trigger] p.palettes@[i])@) != plain_name(
            (#[trigger] p.palettes@[j])@,
        )
    &&& forall|i: int|
        0 <= i < p.palettes@.len() ==> plain_name((#[trigger] p.palettes@[i])@) != "std"@
}

/// The products can be told apart in file names: their short names can stand there and differ, and
/// so do the letters and digits of the palettes that one product has, none of which reads like the
/// default.
pub open spec fn well_named(products: Seq<Product>) -> bool {
    &&& forall|i: int| 0 <= i < products.len() ==> is_part((#[trigger] products[i]).short_name@)
    &&& forall|i: int, j: int|
        0 <= i < j < products.len() ==> (#[trigger] products[i]).short_name@ != (
        #[trigger] products[j]).short_name@
    &&& forall|i: int| 0 <= i < products.len() ==> well_named_palettes(#[trigger] products[i])
}

/// The products that can be rendered. Whatever is in a catalog can be told apart in file names.
#[derive(Debug)]
pub struct Catalog {
    products: Vec<Product>,
}

impl Catalog {
    /// The products, in order.
    pub closed spec fn products(self) -> Seq<Product> {
        self.products@
    }

    /// What holds of every catalog.
    pub open spec fn valid(self) -> bool {
        well_named(self.products())
    }

    #[verifier::type_invariant]
    spec fn told_apart(self) -> bool {
        self.valid()
    }

    /// The catalog of these products; `None` where file names would not tell them apart.
    pub fn new(products: Vec<Product>) -> (r: Option<Catalog>)
        ensures
            r is Some <==> well_named(products@),
            r matches Some(c) ==> c.products() == products@ && c.valid(),
    {
        let mut i: usize = 0;
        while i < products.len()
            invariant
                i <= products.len(),
                forall|k: int| 0 <= k < i ==> is_part((#[trigger] products@[k]).short_name@),
                forall|k: int| 0 <= k < i ==> well_named_palettes(#[trigger] products@[k]),
                forall|k: int, l: int|
                    0 <= k < l < i ==> (#[trigger] products@[k]).short_name@ != (
                    #[trigger] products@[l]).short_name@,
            decreases products.len() - i,
        {
            if !can_stand(products[i].short_name.as_str()) {
                assert(!is_part(products@[i as int].short_name@));
                return None;
            }
            if !palettes_differ(&products[i]) {
                assert(!well_named_palettes(products@[i as int]));
                return None;
            }
            let mut j: usize = 0;
            while j < i
                invariant
                    j <= i < products.len(),
                    forall|k: int|
                        0 <= k < j ==> (#[trigger] products@[k]).short_name@
                            != products@[i as int].short_name@,
                decreases i - j,
            {
                if text::same(
                    products[j].short_name.as_str(),
                    products[i].short_name.as_str(),
                ) {
                    assert(products@[j as int].short_name@ == products@[i as int].short_name@);
                    return None;
                }
                j = j + 1;
            }
            i = i + 1;
        }
        Some(Catalog { products })
    }
}

/// Whether the text can stand between two dashes of a file name.
fn can_stand(s: &str) -> (r: bool)
    ensures
        r == is_part(s@),
{
    let cs = text::chars_of(s);
    let mut i: usize = 0;
    while i < cs.len()
        invariant
            i <= cs.len(),
            cs@ == s@,
            forall|k: int| 0 <= k < i ==> is_name_char(#[trigger] s@[k]) && s@[k] != '-',
        decreases cs.len() - i,
    {
        let c = cs[i];
        if c == '/' || c == '\\' || c == ' ' || c == '-' {
            assert(!is_name_char(s@[i as int]) || s@[i as int] == '-');
            return false;
        }
        i = i + 1;
    }
    true
}

fn palettes_differ(p: &Product) -> (r: bool)
    ensures
        r == well_named_palettes(*p),
{
    let mut i: usize = 0;
    while i < p.palettes.len()
        invariant
            i <= p.palettes.len(),
            forall|k: int| 0 <= k < i ==> plain_name((#[trigger] p.palettes@[k])@) != "std"@,
            forall|k: int, l: int|
                0 <= k < l < i ==> plain_name((#[trigger] p.palettes@[k])@) != plain_name(
                    (#[trigger] p.palettes@[l])@,
                ),
        decreases p.palettes.len() - i,
    {
        let plain = plain_name_of(p.palettes[i].as_str());
        if text::same(plain.as_str(), "std") {
            assert(plain_name(p.palettes@[i as int]@) == "std"@);
            return false;
        }
        let mut j: usize = 0;
        while j < i
            invariant
                j <= i < p.palettes.len(),
                plain@ == plain_name(p.palettes@[i as int]@),
                forall|k: int| 0 <= k < j ==> plain_name((#[trigger] p.palettes@[k])@) != plain@,
            decreases i - j,
        {
            let other = plain_name_of(p.palettes[j].as_str());
            if text::same(other.as_str(), plain.as_str()) {
                assert(plain_name(p.palettes@[j as int]@) == plain_name(p.palettes@[i as int]@));
                return false;
            }
            j = j + 1;
        }
        i = i + 1;
    }
    true
}

/// Why a query asks for no frame.
#[derive(Debug)]
pub enum FrameError {
    BadSite,
    UnknownProduct(String),
    /// The palette asked for, and the product that does not have it.
    UnknownPalette(String, String),
}

impl FrameError {
    pub open spec fn reason(self) -> Seq<char> {
        match self {
            FrameError::BadSite => "bad site"@,
            FrameError::UnknownProduct(p) => "unknown product '"@ + p@ + "'"@,
            FrameError::UnknownPalette(n, p) => "unknown palette '"@ + n@ + "' for "@ + p@,
        }
    }

    /// The reason, for whoever asked.
    pub fn text(&self) -> (r: String)
        ensures
            r@ == self.reason(),
    {
        match self {
            FrameError::BadSite => "bad site".to_owned(),
            FrameError::UnknownProduct(p) => {
                let mut s = "unknown product '".to_owned();
                s.append(p.as_str());
                s.append("'");
                s
            },
            FrameError::UnknownPalette(n, p) => {
                let mut s = "unknown palette '".to_owned();
                s.append(n.as_str());
                s.append("' for ");
                s.append(p.as_str());
                s
            },
        }
    }
}

/// One frame to render.
#[derive(Debug)]
pub struct Frame {
    pub site: String,
    /// The place of the product in the catalog.
    pub product: usize,
    pub short_name: String,
    pub basemap: BasemapStyle,
    pub px: u32,
    /// The zoom asked for, if any.
    pub zoom: Option<Number>,
    /// The zoom in a file name: the digits of its bits, or `auto`. A rounded number would let two
    /// zooms share one file.
    pub zoom_tag: String,
    pub tilt: usize,
    /// Built-in alternate palette by name, or `None` for the product's default table.
    pub palette: Option<String>,
}

/// The value of a parameter, or what stands for it where it is absent.
pub open spec fn param_or(query: Seq<char>, name: Seq<char>, fallback: Seq<char>) -> Seq<char> {
    match cloud::param_text(query, name) {
        Some(v) => v,
        None => fallback,
    }
}

pub(crate) fn param_or_else(query: &str, name: &str, fallback: &str) -> (r: String)
    ensures
        r@ == param_or(query@, name@, fallback@),
{
    match cloud::param(query, name) {
        Some(v) => v,
        None => fallback.to_owned(),
    }
}

/// The number that a parameter writes, no larger than `max`; `None` where it is absent or writes
/// none.
pub open spec fn number_param(query: Seq<char>, name: Seq<char>, max: nat) -> Option<nat> {
    match cloud::param_text(query, name) {
        Some(v) => text::at_most(text::signed_number(v), max),
        None => None,
    }
}

fn number(query: &str, name: &str, max: u64) -> (r: Option<u64>)
    ensures
        match number_param(query@, name@, max as nat) {
            Some(n) => r is Some && r->0 == n,
            None => r is None,
        },
{
    match cloud::param(query, name) {
        Some(v) => text::parse_number(v.as_str(), max),
        None => None,
    }
}

/// `n` or its fallback, between `lo` and `hi`.
pub open spec fn clamped(n: Option<nat>, fallback: nat, lo: nat, hi: nat) -> nat {
    let v = match n {
        Some(v) => v,
        None => fallback,
    };
    if v < lo {
        lo
    } else if v > hi {
        hi
    } else {
        v
    }
}

fn clamp(n: Option<u64>, fallback: u64, lo: u64, hi: u64) -> (r: u64)
    ensures
        r == clamped(
            match n {
                Some(v) => Some(v as nat),
                None => None,
            },
            fallback as nat,
            lo as nat,
            hi as nat,
        ),
{
    let v: u64 = match n {
        Some(v) => v,
        None => fallback,
    };
    if v < lo {
        lo
    } else if v > hi {
        hi
    } else {
        v
    }
}

/// The first product with this code from place `i` on, or the length of the catalog.
pub open spec fn product_place(catalog: Seq<Product>, code: Seq<char>, i: int) -> int
    decreases catalog.len() - i,
{
    if i < 0 || i >= catalog.len() {
        catalog.len() as int
    } else if catalog[i].code@ == code {
        i
    } else {
        product_place(catalog, code, i + 1)
    }
}

/// The product that a query asks for: reflectivity unless it says otherwise, in any case.
pub open spec fn asked_product(query: Seq<char>, catalog: Seq<Product>) -> int {
    product_place(catalog, text::upper_text(param_or(query, "product"@, "REF"@)), 0)
}

/// The product has an alternate palette of this name.
pub open spec fn has_palette(p: Product, name: Seq<char>) -> bool {
    exists|i: int| 0 <= i < p.palettes@.len() && (#[trigger] p.palettes@[i])@ == name
}

/// The zoom in a file name.
pub open spec fn zoom_text(zoom: Option<Number>) -> Seq<char> {
    match zoom {
        Some(z) => text::hex_text(z.bits as nat, 16),
        None => "auto"@,
    }
}

/// The query asks for the frame `f`, with the zoom `zoom`.
pub open spec fn is_asked(
    query: Seq<char>,
    catalog: Seq<Product>,
    zoom: Option<Number>,
    f: Frame,
) -> bool {
    &&& f.site@ == param_or(query, "site"@, "KTLX"@)
    &&& text::all_alnum(f.site@)
    &&& f.product == asked_product(query, catalog)
    &&& f.product < catalog.len()
    &&& f.short_name@ == catalog[f.product as int].short_name@
    &&& f.basemap.slug_text() == param_or(query, "basemap"@, "dark"@) || (f.basemap
        == BasemapStyle::Blank && forall|s: BasemapStyle|
        #[trigger] s.slug_text() != param_or(query, "basemap"@, "dark"@))
    &&& f.px == clamped(number_param(query, "size"@, u32::MAX as nat), 1000, 256, 2048)
    &&& f.zoom == zoom
    &&& f.zoom_tag@ == zoom_text(zoom)
    &&& f.tilt == clamped(number_param(query, "tilt"@, u64::MAX as nat), 0, 0, 30)
    &&& cloud::opt_text(f.palette) == cloud::param_text(query, "palette"@)
    &&& f.palette matches Some(n) ==> has_palette(catalog[f.product as int], n@)
}

/// Why the query asks for no frame: the site is checked first, then the product, then the palette.
pub open spec fn is_refused(query: Seq<char>, catalog: Seq<Product>, e: FrameError) -> bool {
    let site = param_or(query, "site"@, "KTLX"@);
    let product = asked_product(query, catalog);
    match e {
        FrameError::BadSite => !text::all_alnum(site),
        FrameError::UnknownProduct(p) => text::all_alnum(site) && product >= catalog.len() && p@
            == param_or(query, "product"@, "REF"@),
        FrameError::UnknownPalette(n, p) => {
            &&& text::all_alnum(site)
            &&& 0 <= product < catalog.len()
            &&& cloud::param_text(query, "palette"@) == Some(n@)
            &&& !has_palette(catalog[product], n@)
            &&& p@ == catalog[product].short_name@
        },
    }
}

fn find_product(catalog: &Vec<Product>, code: &str) -> (r: usize)
    ensures
        r == product_place(catalog@, code@, 0),
        r <= catalog@.len(),
{
    let mut i: usize = 0;
    while i < catalog.len()
        invariant
            i <= catalog.len(),
            product_place(catalog@, code@, 0) == product_place(catalog@, code@, i as int),
        decreases catalog.len() - i,
    {
        if text::same(catalog[i].code.as_str(), code) {
            return i;
        }
        i = i + 1;
    }
    i
}

fn offers(p: &Product, name: &str) -> (r: bool)
    ensures
        r == has_palette(*p, name@),
{
    let mut i: usize = 0;
    while i < p.palettes.len()
        invariant
            i <= p.palettes.len(),
            forall|j: int| 0 <= j < i ==> (#[trigger] p.palettes@[j])@ != name@,
        decreases p.palettes.len() - i,
    {
        if text::same(p.palettes[i].as_str(), name) {
            assert(p.palettes@[i as int]@ == name@);
            return true;
        }
        i = i + 1;
    }
    false
}

impl Frame {
    /// The frame that a query asks for. `zoom` is the number that its `zoom` reads as, if any.
    ///
    /// Palettes are chosen by exact name from the built-in alternates for the product, and an
    /// unknown one is refused rather than silently replaced: the caller asked for a specific
    /// picture. A name is never a path. Asking for a tilt past the end is a missing render.
    pub fn parse(query: &str, catalog: &Catalog, zoom: Option<Number>) -> (r: Result<
        Frame,
        FrameError,
    >)
        ensures
            catalog.valid(),
            match r {
                Ok(f) => is_asked(query@, catalog.products(), zoom, f),
                Err(e) => is_refused(query@, catalog.products(), e),
            },
    {
        proof {
            use_type_invariant(catalog);
        }
        let catalog = &catalog.products;
        let site = param_or_else(query, "site", "KTLX");
        let product = param_or_else(query, "product", "REF");
        if !text::is_alnum(site.as_str()) {
            return Err(FrameError::BadSite);
        }
        let code = text::upper(product.as_str());
        let place = find_product(catalog, code.as_str());
        if place >= catalog.len() {
            return Err(FrameError::UnknownProduct(product));
        }
        let slug = param_or_else(query, "basemap", "dark");
        let basemap = BasemapStyle::from_slug(slug.as_str());
        let px: u32 = clamp(number(query, "size", 4_294_967_295), 1000, 256, 2048) as u32;
        let tilt: usize = clamp(number(query, "tilt", u64::MAX), 0, 0, 30) as usize;
        let palette = cloud::param(query, "palette");
        if let Some(name) = &palette {
            if !offers(&catalog[place], name.as_str()) {
                return Err(
                    FrameError::UnknownPalette(name.clone(), catalog[place].short_name.clone()),
                );
            }
        }
        Ok(
            Frame {
                site,
                product: place,
                short_name: catalog[place].short_name.clone(),
                basemap,
                px,
                zoom,
                zoom_tag: match zoom {
                    Some(z) => text::hex(z.bits, 16),
                    None => "auto".to_owned(),
                },
                tilt,
                palette,
            },
        )
    }

    /// Everything that changes the pixels, in one text.
    pub open spec fn tag_text(self) -> Seq<char> {
        self.site@ + "-"@ + self.short_name@ + "-"@ + self.basemap.slug_text() + "-"@
            + text::decimal_text(self.px as nat) + "-"@ + self.zoom_tag@ + "-"@
            + text::decimal_text(self.tilt as nat) + "-"@ + match self.palette {
            Some(p) => plain_name(p@),
            None => "std"@,
        }
    }

    /// Everything that changes the pixels, in one string: the cache key and the file name both
    /// have to carry all of it, or two callers asking for different pictures of the same site
    /// would race over one file on disk.
    pub fn tag(&self) -> (r: String)
        ensures
            r@ == self.tag_text(),
    {
        let mut s = self.site.clone();
        s.append("-");
        s.append(self.short_name.as_str());
        s.append("-");
        s.append(self.basemap.slug());
        s.append("-");
        let n = text::decimal(self.px as u64);
        s.append(n.as_str());
        s.append("-");
        s.append(self.zoom_tag.as_str());
        s.append("-");
        let n = text::decimal(self.tilt as u64);
        s.append(n.as_str());
        s.append("-");
        match &self.palette {
            Some(p) => {
                let plain = plain_name_of(p.as_str());
                s.append(plain.as_str());
            },
            None => {
                s.append("std");
            },
        }
        s
    }
}

/// `s` with everything but letters and digits of ASCII replaced by a dash.
pub open spec fn plain_name(s: Seq<char>) -> Seq<char> {
    s.map_values(
        |c: char|
            if text::is_ascii_alnum(c) {
                c
            } else {
                '-'
            },
    )
}

fn plain_name_of(s: &str) -> (r: String)
    ensures
        r@ == plain_name(s@),
{
    let cs = text::chars_of(s);
    let mut out = String::new();
    let mut i: usize = 0;
    assert(out@ =~= plain_name(cs@.take(0)));
    while i < cs.len()
        invariant
            i <= cs.len(),
            out@ == plain_name(cs@.take(i as int)),
        decreases cs.len() - i,
    {
        if text::ascii_alnum(cs[i]) {
            out.push(cs[i]);
        } else {
            out.push('-');
        }
        i = i + 1;
        assert(out@ =~= plain_name(cs@.take(i as int)));
    }
    assert(cs@.take(cs@.len() as int) =~= s@);
    out
}

// ---------------------------------------------------------------------------------------------
// What holds of every tag.

/// Characters that a tag may hold, so that it can stand in a file name: no separator and no space.
pub open spec fn is_name_char(c: char) -> bool {
    c != '/' && c != '\\' && c != ' '
}

/// A text that can stand in a file name.
pub open spec fn is_name(s: Seq<char>) -> bool {
    forall|i: int| 0 <= i < s.len() ==> is_name_char(#[trigger] s[i])
}

proof fn lemma_join_names(a: Seq<char>, b: Seq<char>)
    requires
        is_name(a),
        is_name(b),
    ensures
        is_name(a + b),
{
    assert forall|i: int| 0 <= i < (a + b).len() implies is_name_char(#[trigger] (a + b)[i]) by {
        if i < a.len() {
            assert((a + b)[i] == a[i]);
        } else {
            assert((a + b)[i] == b[i - a.len()]);
        }
    }
}

proof fn lemma_decimal(n: nat)
    ensures
        text::all_digits(text::decimal_text(n)),
        text::digits_value(text::decimal_text(n)) == n,
        text::decimal_text(n).len() > 0,
    decreases n,
{
    reveal_with_fuel(text::digits_value, 2);
    let t = text::decimal_text(n);
    if n >= 10 {
        lemma_decimal(n / 10);
        assert(t.drop_last() =~= text::decimal_text(n / 10));
    } else {
        assert(t.drop_last() =~= Seq::<char>::empty());
    }
}

proof fn lemma_decimal_is_name(n: nat)
    ensures
        is_name(text::decimal_text(n)),
{
    lemma_decimal(n);
}

proof fn lemma_slug_is_name(s: BasemapStyle)
    ensures
        is_name(s.slug_text()),
        forall|i: int|
            0 <= i < s.slug_text().len() ==> !text::is_digit_char(#[trigger] s.slug_text()[i]),
{
    match s {
        BasemapStyle::Dark => {
            reveal_strlit("dark");
        },
        BasemapStyle::Light => {
            reveal_strlit("light");
        },
        BasemapStyle::Satellite => {
            reveal_strlit("satellite");
        },
        BasemapStyle::Blank => {
            reveal_strlit("none");
        },
        BasemapStyle::GoesEast => {
            reveal_strlit("goes-east");
        },
        BasemapStyle::GoesWest => {
            reveal_strlit("goes-west");
        },
        BasemapStyle::GoesEastIR => {
            reveal_strlit("goes-east-ir");
        },
        BasemapStyle::GoesWestIR => {
            reveal_strlit("goes-west-ir");
        },
        BasemapStyle::GoesEastAirMass => {
            reveal_strlit("goes-east-airmass");
        },
        BasemapStyle::GoesWestAirMass => {
            reveal_strlit("goes-west-airmass");
        },
        BasemapStyle::GoesEastDust => {
            reveal_strlit("goes-east-dust");
        },
        BasemapStyle::GoesWestDust => {
            reveal_strlit("goes-west-dust");
        },
        BasemapStyle::GoesEastFire => {
            reveal_strlit("goes-east-fire");
        },
        BasemapStyle::GoesWestFire => {
            reveal_strlit("goes-west-fire");
        },
        BasemapStyle::HimawariIR => {
            reveal_strlit("himawari-ir");
        },
        BasemapStyle::HimawariAirMass => {
            reveal_strlit("himawari-air-mass");
        },
        BasemapStyle::HimawariVisible => {
            reveal_strlit("himawari-visible");
        },
        BasemapStyle::ImergRate => {
            reveal_strlit("imerg-rate");
        },
        BasemapStyle::DwdRadarRV => {
            reveal_strlit("dwd-radar-rv");
        },
        BasemapStyle::DwdRadarWN => {
            reveal_strlit("dwd-radar-wn");
        },
        BasemapStyle::EcccRadarRain => {
            reveal_strlit("eccc-radar-rain");
        },
        BasemapStyle::EcccRadarSnow => {
            reveal_strlit("eccc-radar-snow");
        },
        BasemapStyle::MapboxStreets => {
            reveal_strlit("mapbox-streets");
        },
        BasemapStyle::MapboxSatellite => {
            reveal_strlit("mapbox-satellite");
        },
        BasemapStyle::MapboxSatelliteStreets => {
            reveal_strlit("mapbox-satellite-streets");
        },
        BasemapStyle::MapboxOutdoors => {
            reveal_strlit("mapbox-outdoors");
        },
        BasemapStyle::MapboxDark => {
            reveal_strlit("mapbox-dark");
        },
        BasemapStyle::MapboxLight => {
            reveal_strlit("mapbox-light");
        },
        BasemapStyle::MapboxNavDay => {
            reveal_strlit("mapbox-nav-day");
        },
        BasemapStyle::MapboxNavNight => {
            reveal_strlit("mapbox-nav-night");
        },
        BasemapStyle::OsmStandard => {
            reveal_strlit("osm");
        },
        BasemapStyle::OpenTopoMap => {
            reveal_strlit("opentopo");
        },
        BasemapStyle::CartoPositron => {
            reveal_strlit("carto-positron");
        },
        BasemapStyle::CartoDarkMatter => {
            reveal_strlit("carto-dark");
        },
        BasemapStyle::CartoVoyager => {
            reveal_strlit("carto-voyager");
        },
        BasemapStyle::EsriImagery => {
            reveal_strlit("esri-imagery");
        },
        BasemapStyle::EsriStreets => {
            reveal_strlit("esri-streets");
        },
        BasemapStyle::EsriTopo => {
            reveal_strlit("esri-topo");
        },
        BasemapStyle::UsgsTopo => {
            reveal_strlit("usgs-topo");
        },
        BasemapStyle::UsgsImageryTopo => {
            reveal_strlit("usgs-imagery-topo");
        },
        BasemapStyle::OsmHot => {
            reveal_strlit("osm-hot");
        },
        BasemapStyle::CyclOsm => {
            reveal_strlit("cyclosm");
        },
        BasemapStyle::VectorLiberty => {
            reveal_strlit("liberty");
        },
        BasemapStyle::VectorBright => {
            reveal_strlit("bright");
        },
        BasemapStyle::VectorPositron => {
            reveal_strlit("positron");
        },
        BasemapStyle::VectorMidnight => {
            reveal_strlit("midnight");
        },
        BasemapStyle::EsriDarkGray => {
            reveal_strlit("esri-dark-gray");
        },
        BasemapStyle::EsriLightGray => {
            reveal_strlit("esri-light-gray");
        },
        BasemapStyle::EsriNatGeo => {
            reveal_strlit("esri-natgeo");
        },
        BasemapStyle::EsriOcean => {
            reveal_strlit("esri-ocean");
        },
        BasemapStyle::HybridSatellite => {
            reveal_strlit("hybrid-satellite");
        },
        BasemapStyle::Auto => {
            reveal_strlit("auto");
        },
        BasemapStyle::CustomXyz => {
            reveal_strlit("custom");
        },
        BasemapStyle::MapTilerStreets => {
            reveal_strlit("maptiler-streets");
        },
        BasemapStyle::MapTilerSatellite => {
            reveal_strlit("maptiler-satellite");
        },
        BasemapStyle::MapTilerOutdoor => {
            reveal_strlit("maptiler-outdoor");
        },
        BasemapStyle::MapTilerTopo => {
            reveal_strlit("maptiler-topo");
        },
        BasemapStyle::MapTilerBasic => {
            reveal_strlit("maptiler-basic");
        },
        BasemapStyle::MapTilerDatavizDark => {
            reveal_strlit("maptiler-dataviz-dark");
        },
    }
}

/// A tag can stand in a file name: no separator and no space, whatever the query asked for.
pub proof fn tags_are_file_names(
    query: Seq<char>,
    catalog: Catalog,
    zoom: Option<Number>,
    f: Frame,
)
    requires
        catalog.valid(),
        is_asked(query, catalog.products(), zoom, f),
    ensures
        is_name(f.tag_text()),
{
    reveal_strlit("-");
    reveal_strlit("std");
    lemma_zoom_is_plain(zoom);
    assert(is_part(catalog.products()[f.product as int].short_name@));
    assert(is_name(f.zoom_tag@)) by {
        assert forall|i: int| 0 <= i < f.zoom_tag@.len() implies is_name_char(
            #[trigger] f.zoom_tag@[i],
        ) by {
            assert(text::is_ascii_alnum(zoom_text(zoom)[i]));
        }
    }
    let dash = "-"@;
    let end = match f.palette {
        Some(p) => plain_name(p@),
        None => "std"@,
    };
    assert(is_name(f.site@));
    assert(is_name(end));
    lemma_slug_is_name(f.basemap);
    lemma_decimal_is_name(f.px as nat);
    lemma_decimal_is_name(f.tilt as nat);
    let a = f.site@ + dash;
    lemma_join_names(f.site@, dash);
    lemma_join_names(a, f.short_name@);
    let a = a + f.short_name@;
    lemma_join_names(a, dash);
    let a = a + dash;
    lemma_join_names(a, f.basemap.slug_text());
    let a = a + f.basemap.slug_text();
    lemma_join_names(a, dash);
    let a = a + dash;
    lemma_join_names(a, text::decimal_text(f.px as nat));
    let a = a + text::decimal_text(f.px as nat);
    lemma_join_names(a, dash);
    let a = a + dash;
    lemma_join_names(a, f.zoom_tag@);
    let a = a + f.zoom_tag@;
    lemma_join_names(a, dash);
    let a = a + dash;
    lemma_join_names(a, text::decimal_text(f.tilt as nat));
    let a = a + text::decimal_text(f.tilt as nat);
    lemma_join_names(a, dash);
    let a = a + dash;
    lemma_join_names(a, end);
}

/// No dash is in the text.
pub open spec fn undashed(s: Seq<char>) -> bool {
    forall|i: int| 0 <= i < s.len() ==> #[trigger] s[i] != '-'
}

/// Two texts that start with something undashed and go on with a dash tell what they start with.
proof fn lemma_start_is_told(s: Seq<char>, x: Seq<char>, t: Seq<char>, y: Seq<char>)
    requires
        undashed(s),
        undashed(t),
        s + seq!['-'] + x == t + seq!['-'] + y,
    ensures
        s == t,
        x == y,
{
    let u = s + seq!['-'] + x;
    let v = t + seq!['-'] + y;
    if s.len() < t.len() {
        assert(u[s.len() as int] == '-');
        assert(v[s.len() as int] == t[s.len() as int]);
    } else if t.len() < s.len() {
        assert(v[t.len() as int] == '-');
        assert(u[t.len() as int] == s[t.len() as int]);
    } else {
        assert(u.take(s.len() as int) =~= s);
        assert(v.take(t.len() as int) =~= t);
        assert(u.skip(s.len() as int + 1) =~= x);
        assert(v.skip(t.len() as int + 1) =~= y);
    }
}

proof fn lemma_number_is_undashed(n: nat)
    ensures
        undashed(text::decimal_text(n)),
{
    lemma_decimal(n);
    assert forall|i: int| 0 <= i < text::decimal_text(n).len() implies #[trigger] text::decimal_text(
        n,
    )[i] != '-' by {
        assert(text::is_digit_char(text::decimal_text(n)[i]));
    }
}

/// Two texts that start with the slug of a style and go on with a dash and a number tell the style.
proof fn lemma_style_is_told(
    a: BasemapStyle,
    m: nat,
    x: Seq<char>,
    b: BasemapStyle,
    n: nat,
    y: Seq<char>,
)
    requires
        a.slug_text() + seq!['-'] + (text::decimal_text(m) + x) == b.slug_text() + seq!['-'] + (
        text::decimal_text(n) + y),
    ensures
        a == b,
        text::decimal_text(m) + x == text::decimal_text(n) + y,
{
    lemma_slug_is_name(a);
    lemma_slug_is_name(b);
    lemma_decimal(m);
    lemma_decimal(n);
    let s = a.slug_text();
    let t = b.slug_text();
    let dm = text::decimal_text(m);
    let dn = text::decimal_text(n);
    let u = s + seq!['-'] + (dm + x);
    let v = t + seq!['-'] + (dn + y);
    if s.len() < t.len() {
        assert(u[s.len() as int + 1] == dm[0]);
        assert(text::is_digit_char(dm[0]));
        if s.len() + 1 < t.len() {
            assert(v[s.len() as int + 1] == t[s.len() as int + 1]);
        } else {
            assert(v[t.len() as int] == '-');
        }
    } else if t.len() < s.len() {
        assert(v[t.len() as int + 1] == dn[0]);
        assert(text::is_digit_char(dn[0]));
        if t.len() + 1 < s.len() {
            assert(u[t.len() as int + 1] == s[t.len() as int + 1]);
        } else {
            assert(u[s.len() as int] == '-');
        }
    } else {
        assert(u.take(s.len() as int) =~= s);
        assert(v.take(t.len() as int) =~= t);
        crate::tiles::style::slugs_tell_styles_apart(a, b);
        assert(u.skip(s.len() as int + 1) =~= dm + x);
        assert(v.skip(t.len() as int + 1) =~= dn + y);
    }
}

proof fn lemma_zoom_is_plain(zoom: Option<Number>)
    ensures
        text::all_alnum(zoom_text(zoom)),
        undashed(zoom_text(zoom)),
{
    reveal_strlit("auto");
    let s = zoom_text(zoom);
    if let Some(z) = zoom {
        text::lemma_hex_len(z.bits as nat, 16);
    }
    assert forall|i: int| 0 <= i < s.len() implies text::is_ascii_alnum(#[trigger] s[i]) by {
        if zoom is Some {
            assert(text::is_hex_char(s[i]));
        }
    }
    lemma_alnum_is_undashed(s);
}

proof fn lemma_alnum_is_undashed(s: Seq<char>)
    requires
        text::all_alnum(s),
    ensures
        undashed(s),
{
    assert forall|i: int| 0 <= i < s.len() implies #[trigger] s[i] != '-' by {
        assert(text::is_ascii_alnum(s[i]));
    }
}

/// A zoom is told by its text.
proof fn lemma_zoom_is_told(a: Option<Number>, b: Option<Number>)
    requires
        zoom_text(a) == zoom_text(b),
    ensures
        a == b,
{
    reveal_strlit("auto");
    if let Some(z) = a {
        text::lemma_hex_len(z.bits as nat, 16);
        text::lemma_hex_fits(z.bits);
    }
    if let Some(z) = b {
        text::lemma_hex_len(z.bits as nat, 16);
        text::lemma_hex_fits(z.bits);
    }
    if a is Some && b is Some {
        text::lemma_hex_tells((a->0).bits as nat, (b->0).bits as nat, 16);
    }
}

proof fn lemma_palette_is_told(p: Product, a: Option<Seq<char>>, b: Option<Seq<char>>)
    requires
        well_named_palettes(p),
        a matches Some(n) ==> has_palette(p, n),
        b matches Some(n) ==> has_palette(p, n),
        (match a {
            Some(n) => plain_name(n),
            None => "std"@,
        }) == (match b {
            Some(n) => plain_name(n),
            None => "std"@,
        }),
    ensures
        a == b,
{
    if let Some(n) = a {
        let i = choose|i: int| 0 <= i < p.palettes@.len() && (#[trigger] p.palettes@[i])@ == n;
        if let Some(m) = b {
            let j = choose|j: int| 0 <= j < p.palettes@.len() && (#[trigger] p.palettes@[j])@ == m;
            if i < j {
                assert(plain_name(p.palettes@[i]@) != plain_name(p.palettes@[j]@));
            } else if j < i {
                assert(plain_name(p.palettes@[j]@) != plain_name(p.palettes@[i]@));
            }
        } else {
            assert(plain_name(p.palettes@[i]@) != "std"@);
        }
    } else if let Some(m) = b {
        let j = choose|j: int| 0 <= j < p.palettes@.len() && (#[trigger] p.palettes@[j])@ == m;
        assert(plain_name(p.palettes@[j]@) != "std"@);
    }
}

/// What stands for the palette in a tag.
pub open spec fn palette_tag(f: Frame) -> Seq<char> {
    match f.palette {
        Some(p) => plain_name(p@),
        None => "std"@,
    }
}

/// Two frames that queries ask for and that differ in any knob never share a tag, so they share
/// neither a cache key nor a file: the tag tells the site, the product, the basemap, the size, the
/// zoom, the tilt and the palette.
pub proof fn every_knob_changes_the_tag(
    catalog: Catalog,
    query_a: Seq<char>,
    zoom_a: Option<Number>,
    a: Frame,
    query_b: Seq<char>,
    zoom_b: Option<Number>,
    b: Frame,
)
    requires
        catalog.valid(),
        is_asked(query_a, catalog.products(), zoom_a, a),
        is_asked(query_b, catalog.products(), zoom_b, b),
        a.tag_text() == b.tag_text(),
    ensures
        a.site@ == b.site@,
        a.product == b.product,
        a.basemap == b.basemap,
        a.px == b.px,
        a.zoom == b.zoom,
        a.tilt == b.tilt,
        cloud::opt_text(a.palette) == cloud::opt_text(b.palette),
{
    reveal_strlit("-");
    assert("-"@ =~= seq!['-']);
    lemma_tag_parts(a);
    lemma_tag_parts(b);
    let (i, j) = (a.product as int, b.product as int);
    let products = catalog.products();
    assert(is_part(products[i].short_name@) && is_part(products[j].short_name@));
    lemma_zoom_is_plain(zoom_a);
    lemma_zoom_is_plain(zoom_b);
    let dash = seq!['-'];
    let ta = text::decimal_text(a.tilt as nat) + dash + palette_tag(a);
    let tb = text::decimal_text(b.tilt as nat) + dash + palette_tag(b);
    let za = a.zoom_tag@ + dash + ta;
    let zb = b.zoom_tag@ + dash + tb;
    let pa = text::decimal_text(a.px as nat) + (dash + za);
    let pb = text::decimal_text(b.px as nat) + (dash + zb);
    let ba = a.basemap.slug_text() + dash + pa;
    let bb = b.basemap.slug_text() + dash + pb;
    let na = a.short_name@ + dash + ba;
    let nb = b.short_name@ + dash + bb;
    lemma_start_is_told(a.site@, na, b.site@, nb);
    lemma_start_is_told(a.short_name@, ba, b.short_name@, bb);
    lemma_style_is_told(a.basemap, a.px as nat, dash + za, b.basemap, b.px as nat, dash + zb);
    assert(pa =~= text::decimal_text(a.px as nat) + dash + za);
    assert(pb =~= text::decimal_text(b.px as nat) + dash + zb);
    lemma_number_is_undashed(a.px as nat);
    lemma_number_is_undashed(b.px as nat);
    lemma_start_is_told(text::decimal_text(a.px as nat), za, text::decimal_text(b.px as nat), zb);
    lemma_decimal(a.px as nat);
    lemma_decimal(b.px as nat);
    lemma_start_is_told(a.zoom_tag@, ta, b.zoom_tag@, tb);
    lemma_zoom_is_told(zoom_a, zoom_b);
    lemma_number_is_undashed(a.tilt as nat);
    lemma_number_is_undashed(b.tilt as nat);
    lemma_start_is_told(
        text::decimal_text(a.tilt as nat),
        palette_tag(a),
        text::decimal_text(b.tilt as nat),
        palette_tag(b),
    );
    lemma_decimal(a.tilt as nat);
    lemma_decimal(b.tilt as nat);
    if i < j {
        assert(products[i].short_name@ != products[j].short_name@);
    } else if j < i {
        assert(products[j].short_name@ != products[i].short_name@);
    }
    lemma_palette_is_told(
        products[i],
        cloud::opt_text(a.palette),
        cloud::opt_text(b.palette),
    );
}

/// A tag, part by part.
proof fn lemma_tag_parts(a: Frame)
    ensures
        ({
            let dash = seq!['-'];
            let t = text::decimal_text(a.tilt as nat) + dash + palette_tag(a);
            let z = a.zoom_tag@ + dash + t;
            let p = text::decimal_text(a.px as nat) + (dash + z);
            let b = a.basemap.slug_text() + dash + p;
            let n = a.short_name@ + dash + b;
            a.tag_text() == a.site@ + dash + n
        }),
        text::all_alnum(a.site@) ==> undashed(a.site@),
{
    reveal_strlit("-");
    assert("-"@ =~= seq!['-']);
    let dash = seq!['-'];
    let t = text::decimal_text(a.tilt as nat) + dash + palette_tag(a);
    let z = a.zoom_tag@ + dash + t;
    let p = text::decimal_text(a.px as nat) + (dash + z);
    let b = a.basemap.slug_text() + dash + p;
    let n = a.short_name@ + dash + b;
    assert(a.tag_text() =~= a.site@ + dash + n);
    if text::all_alnum(a.site@) {
        assert forall|i: int| 0 <= i < a.site@.len() implies #[trigger] a.site@[i] != '-' by {
            assert(text::is_ascii_alnum(a.site@[i]));
        }
    }
}

// ---------------------------------------------------------------------------------------------
// Loops.

/// The two forms a loop is encoded in.
#[derive(Clone, Copy, Debug, PartialEq, Eq, Structural)]
pub enum LoopFormat {
    Gif,
    Mp4,
}

/// How far apart the frames of a loop are asked for, in minutes.
pub const LOOP_STEP_MIN: i128 = 5;

/// How many frames a loop has and how fast they go.
#[derive(Clone, Copy, Debug, PartialEq, Eq, Structural)]
pub struct LoopKnobs {
    pub frames: u64,
    pub fps: u64,
}

/// How many frames a loop has and how fast they go. Six frames are half an hour of storm, and the
/// ceiling is there because each one is a full render.
pub fn loop_knobs(query: &str) -> (r: LoopKnobs)
    ensures
        r.frames == clamped(number_param(query@, "frames"@, u64::MAX as nat), 6, 2, 12),
        r.fps == clamped(number_param(query@, "fps"@, u32::MAX as nat), 2, 1, 10),
{
    LoopKnobs {
        frames: clamp(number(query, "frames", u64::MAX), 6, 2, 12),
        fps: clamp(number(query, "fps", 4_294_967_295), 2, 1, 10),
    }
}

/// The extension of a loop.
pub open spec fn loop_extension(format: LoopFormat) -> Seq<char> {
    match format {
        LoopFormat::Gif => "gif"@,
        LoopFormat::Mp4 => "mp4"@,
    }
}

/// The text a loop's answer is kept under.
pub open spec fn loop_key_text(format: LoopFormat, tag: Seq<char>, k: LoopKnobs) -> Seq<char> {
    "/loop."@ + loop_extension(format) + "?"@ + tag + "-"@ + text::decimal_text(k.frames as nat)
        + "-"@ + text::decimal_text(k.fps as nat)
}

/// Two texts that end with a dash and something undashed tell both parts.
proof fn lemma_end_is_told(x: Seq<char>, s: Seq<char>, y: Seq<char>, t: Seq<char>)
    requires
        undashed(s),
        undashed(t),
        x + seq!['-'] + s == y + seq!['-'] + t,
    ensures
        x == y,
        s == t,
{
    let u = x + seq!['-'] + s;
    let v = y + seq!['-'] + t;
    assert(u.len() == x.len() + 1 + s.len());
    assert(v.len() == y.len() + 1 + t.len());
    if x.len() < y.len() {
        assert(v[y.len() as int] == '-');
        assert(u[y.len() as int] == s[y.len() - x.len() - 1]);
    } else if y.len() < x.len() {
        assert(u[x.len() as int] == '-');
        assert(v[x.len() as int] == t[x.len() - y.len() - 1]);
    } else {
        assert(u.take(x.len() as int) =~= x);
        assert(v.take(y.len() as int) =~= y);
        assert(u.skip(x.len() as int + 1) =~= s);
        assert(v.skip(y.len() as int + 1) =~= t);
    }
}

/// Two loops that differ in their frames, in how many those are, in how fast they go or in their
/// form are kept apart.
pub proof fn loop_keys_tell_loops(
    f: LoopFormat,
    tag: Seq<char>,
    k: LoopKnobs,
    g: LoopFormat,
    other: Seq<char>,
    l: LoopKnobs,
)
    requires
        loop_key_text(f, tag, k) == loop_key_text(g, other, l),
    ensures
        f == g,
        tag == other,
        k == l,
{
    reveal_strlit("/loop.");
    reveal_strlit("gif");
    reveal_strlit("mp4");
    reveal_strlit("?");
    reveal_strlit("-");
    let dash = seq!['-'];
    assert("-"@ =~= dash);
    let (kf, kp) = (text::decimal_text(k.frames as nat), text::decimal_text(k.fps as nat));
    let (lf, lp) = (text::decimal_text(l.frames as nat), text::decimal_text(l.fps as nat));
    lemma_number_is_undashed(k.frames as nat);
    lemma_number_is_undashed(k.fps as nat);
    lemma_number_is_undashed(l.frames as nat);
    lemma_number_is_undashed(l.fps as nat);
    lemma_decimal(k.frames as nat);
    lemma_decimal(k.fps as nat);
    lemma_decimal(l.frames as nat);
    lemma_decimal(l.fps as nat);
    let a = "/loop."@ + loop_extension(f) + "?"@ + tag;
    let b = "/loop."@ + loop_extension(g) + "?"@ + other;
    assert(loop_key_text(f, tag, k) =~= (a + dash + kf) + dash + kp);
    assert(loop_key_text(g, other, l) =~= (b + dash + lf) + dash + lp);
    lemma_end_is_told(a + dash + kf, kp, b + dash + lf, lp);
    lemma_end_is_told(a, kf, b, lf);
    assert(a[6] == loop_extension(f)[0]);
    assert(b[6] == loop_extension(g)[0]);
    assert(a.skip(10) =~= tag);
    assert(b.skip(10) =~= other);
}

/// The text a loop's answer is kept under.
pub fn loop_key(format: LoopFormat, tag: &str, k: LoopKnobs) -> (r: String)
    ensures
        r@ == loop_key_text(format, tag@, k),
{
    let mut s = "/loop.".to_owned();
    s.append(
        match format {
            LoopFormat::Gif => "gif",
            LoopFormat::Mp4 => "mp4",
        },
    );
    s.append("?");
    s.append(tag);
    s.append("-");
    let n = text::decimal(k.frames);
    s.append(n.as_str());
    s.append("-");
    let n = text::decimal(k.fps);
    s.append(n.as_str());
    s
}

/// The text a still's answer is kept under.
pub fn snapshot_key(tag: &str) -> (r: String)
    ensures
        r@ == "/snapshot.png?"@ + tag@,
{
    text::join2("/snapshot.png?", tag)
}

/// The instants of a loop's frames, oldest first: a step apart, up to `now`.
pub fn loop_instants(now: i128, frames: u64) -> (r: Vec<i128>)
    requires
        crate::clock::is_instant(now as int),
        frames <= 12,
    ensures
        r@.len() == frames,
        forall|i: int|
            0 <= i < frames ==> #[trigger] r@[i] == now - (frames - 1 - i) * LOOP_STEP_MIN
                * crate::clock::MINUTE,
        frames > 0 ==> r@[frames - 1] == now,
        forall|i: int, j: int|
            0 <= i < j < frames ==> (#[trigger] r@[j]) - (#[trigger] r@[i]) == (j - i)
                * 300_000_000_000,
{
    let mut out: Vec<i128> = Vec::new();
    let mut i: u64 = 0;
    while i < frames
        invariant
            i <= frames <= 12,
            crate::clock::is_instant(now as int),
            out@.len() == i,
            forall|j: int|
                0 <= j < i ==> #[trigger] out@[j] == now - (frames - 1 - j) * LOOP_STEP_MIN
                    * crate::clock::MINUTE,
        decreases frames - i,
    {
        let back: i128 = (frames - 1 - i) as i128;
        out.push(now - back * LOOP_STEP_MIN * crate::clock::MINUTE);
        i = i + 1;
    }
    out
}

/// How long a frame of a GIF stays, in milliseconds.
pub fn gif_delay(fps: u64) -> (r: u16)
    requires
        1 <= fps <= 10,
    ensures
        r == 1000int / fps as int,
        r * fps <= 1000 < r * fps + fps,
{
    let r: u64 = 1000 / fps;
    proof {
        vstd::arithmetic::div_mod::lemma_fundamental_div_mod(1000, fps as int);
        assert(fps * r == r * fps) by (nonlinear_arith);
    }
    r as u16
}

fn same_bytes(a: &Vec<u8>, b: &Vec<u8>) -> (r: bool)
    ensures
        r == (a@ == b@),
{
    if a.len() != b.len() {
        return false;
    }
    let mut i: usize = 0;
    while i < a.len()
        invariant
            i <= a.len(),
            a@.len() == b@.len(),
            forall|j: int| 0 <= j < i ==> a@[j] == b@[j],
        decreases a.len() - i,
    {
        if a[i] != b[i] {
            return false;
        }
        i = i + 1;
    }
    assert(a@ =~= b@);
    true
}

/// The places of the first `n` renders that differ from the one before them.
pub open spec fn moving(pngs: Seq<Vec<u8>>, n: nat) -> Seq<usize>
    decreases n,
{
    if n == 0 {
        Seq::empty()
    } else if n >= 2 && pngs[n - 1]@ == pngs[n - 2]@ {
        moving(pngs, (n - 1) as nat)
    } else {
        moving(pngs, (n - 1) as nat).push((n - 1) as usize)
    }
}

/// Which renders of a loop are shown. Two steps can land on the same volume; identical consecutive
/// frames are a stutter in the loop, not information.
pub fn moving_frames(pngs: &Vec<Vec<u8>>) -> (r: Vec<usize>)
    ensures
        r@ == moving(pngs@, pngs@.len()),
{
    let mut out: Vec<usize> = Vec::new();
    let mut i: usize = 0;
    assert(out@ =~= moving(pngs@, 0));
    while i < pngs.len()
        invariant
            i <= pngs.len(),
            out@ == moving(pngs@, i as nat),
        decreases pngs.len() - i,
    {
        if i == 0 || !same_bytes(&pngs[i], &pngs[i - 1]) {
            out.push(i);
        }
        i = i + 1;
    }
    out
}

// ---------------------------------------------------------------------------------------------
// What a query gets.

/// A knob stays in its range: a value within it is taken as it is, one outside at the nearer end,
/// and its fallback where there is none.
pub proof fn knobs_stay_in_their_range(n: Option<nat>, fallback: nat, lo: nat, hi: nat)
    requires
        lo <= fallback <= hi,
    ensures
        lo <= clamped(n, fallback, lo, hi) <= hi,
        n is None ==> clamped(n, fallback, lo, hi) == fallback,
        n matches Some(v) ==> {
            &&& lo <= v <= hi ==> clamped(n, fallback, lo, hi) == v
            &&& v < lo ==> clamped(n, fallback, lo, hi) == lo
            &&& v > hi ==> clamped(n, fallback, lo, hi) == hi
        },
{
}

/// A frame is of the site, the size, the tilt and the palette that its query names.
pub proof fn frames_are_what_was_asked(
    query: Seq<char>,
    catalog: Seq<Product>,
    zoom: Option<Number>,
    f: Frame,
    site: Seq<char>,
    px: nat,
    tilt: nat,
)
    requires
        is_asked(query, catalog, zoom, f),
    ensures
        cloud::param_text(query, "site"@) == Some(site) ==> f.site@ == site,
        cloud::param_text(query, "size"@) == Some(text::decimal_text(px)) && 256 <= px <= 2048
            ==> f.px == px,
        cloud::param_text(query, "tilt"@) == Some(text::decimal_text(tilt)) && tilt <= 30 ==> f.tilt
            == tilt,
        cloud::param_text(query, "basemap"@) == Some(f.basemap.slug_text()) || f.basemap
            == BasemapStyle::Blank || cloud::param_text(query, "basemap"@) is None,
        f.palette matches Some(p) ==> cloud::param_text(query, "palette"@) == Some(p@),
        256 <= f.px <= 2048,
        f.tilt <= 30,
        f.zoom == zoom,
{
    text::decimals_read_back(px);
    text::decimals_read_back(tilt);
    assert(text::is_digit_char(text::decimal_text(px)[0]));
    assert(text::is_digit_char(text::decimal_text(tilt)[0]));
}

/// A query that names nothing asks for the plain frame: KTLX on the dark map, a thousand pixels
/// wide, the lowest tilt, and the standard colors.
pub proof fn a_bare_query_asks_for_the_plain_frame(
    query: Seq<char>,
    catalog: Seq<Product>,
    zoom: Option<Number>,
    f: Frame,
)
    requires
        is_asked(query, catalog, zoom, f),
        forall|name: Seq<char>| #[trigger] cloud::param_text(query, name) is None,
    ensures
        f.site@ == "KTLX"@,
        f.px == 1000,
        f.tilt == 0,
        f.palette is None,
        f.basemap.slug_text() == "dark"@ || f.basemap == BasemapStyle::Blank,
        catalog[f.product as int].code@ == "REF"@,
{
    reveal_strlit("REF");
    assert(text::upper_text("REF"@) =~= "REF"@);
    lemma_first_product(catalog, "REF"@, 0);
}

proof fn lemma_first_product(catalog: Seq<Product>, code: Seq<char>, i: int)
    requires
        0 <= i <= catalog.len(),
    ensures
        ({
            let k = product_place(catalog, code, i);
            &&& i <= k <= catalog.len()
            &&& k < catalog.len() ==> catalog[k].code@ == code
            &&& forall|j: int| i <= j < k ==> (#[trigger] catalog[j]).code@ != code
        }),
    decreases catalog.len() - i,
{
    if i < catalog.len() && catalog[i].code@ != code {
        lemma_first_product(catalog, code, i + 1);
    }
}

/// A product is found by its code, in any case, and is the first of that code.
pub proof fn products_are_found_by_code(query: Seq<char>, catalog: Seq<Product>, given: Seq<char>)
    requires
        cloud::param_text(query, "product"@) == Some(given),
    ensures
        ({
            let k = asked_product(query, catalog);
            &&& 0 <= k <= catalog.len()
            &&& k < catalog.len() ==> catalog[k].code@ == text::upper_text(given)
            &&& forall|j: int|
                0 <= j < k ==> (#[trigger] catalog[j]).code@ != text::upper_text(given)
        }),
{
    lemma_first_product(catalog, text::upper_text(given), 0);
}

/// What can be rendered is not refused, and a refusal tells what was wrong: a site that is not
/// letters and digits, a product that is not there, or a palette that the product has not.
pub proof fn refusals_have_a_reason(
    query: Seq<char>,
    catalog: Seq<Product>,
    zoom: Option<Number>,
    f: Frame,
    e: FrameError,
)
    requires
        is_refused(query, catalog, e),
    ensures
        !is_asked(query, catalog, zoom, f),
        e matches FrameError::UnknownProduct(p) ==> text::holds_text(e.reason(), p@),
        e matches FrameError::UnknownPalette(n, p) ==> text::holds_text(e.reason(), n@)
            && text::ends(e.reason(), p@),
{
    match e {
        FrameError::UnknownProduct(p) => {
            text::lemma_holds_join("unknown product '"@, p@, "'"@);
        },
        FrameError::UnknownPalette(n, p) => {
            text::lemma_holds_join("unknown palette '"@, n@, "' for "@);
            text::lemma_holds_grow("unknown palette '"@ + n@ + "' for "@, n@, p@);
            text::lemma_ends_join("unknown palette '"@ + n@ + "' for "@, p@);
            if is_asked(query, catalog, zoom, f) {
                assert(f.palette is Some);
                assert((f.palette->0)@ == n@);
            }
        },
        FrameError::BadSite => {},
    }
}

/// A loop shows the first render and every one that differs from the one before it, in order.
pub proof fn loops_show_what_moves(pngs: Seq<Vec<u8>>, n: nat, i: usize)
    requires
        n <= pngs.len(),
        n <= usize::MAX,
    ensures
        moving(pngs, n).contains(i) <==> i < n && (i == 0 || pngs[i as int]@ != pngs[i - 1]@),
        forall|j: int, k: int|
            0 <= j < k < moving(pngs, n).len() ==> #[trigger] moving(pngs, n)[j]
                < #[trigger] moving(pngs, n)[k],
        forall|j: int| 0 <= j < moving(pngs, n).len() ==> #[trigger] moving(pngs, n)[j] < n,
    decreases n,
{
    if n > 0 {
        let m = (n - 1) as nat;
        loops_show_what_moves(pngs, m, i);
        let was = moving(pngs, m);
        let now = moving(pngs, n);
        if now.len() > was.len() {
            assert(now =~= was.push(m as usize));
            if was.contains(i) {
                let k = was.index_of(i);
                assert(now[k] == i);
            }
            if i == m {
                assert(now[was.len() as int] == i);
            }
            if now.contains(i) && i != m {
                let k = now.index_of(i);
                assert(was[k] == i);
            }
        }
    }
}

/// A loop is kept under its form.
pub proof fn loops_are_kept_by_their_form(tag: Seq<char>, k: LoopKnobs)
    ensures
        text::starts(loop_key_text(LoopFormat::Gif, tag, k), "/loop.gif?"@ + tag),
        text::starts(loop_key_text(LoopFormat::Mp4, tag, k), "/loop.mp4?"@ + tag),
        LOOP_STEP_MIN == 5,
{
    reveal_strlit("/loop.");
    reveal_strlit("gif");
    reveal_strlit("mp4");
    reveal_strlit("?");
    reveal_strlit("/loop.gif?");
    reveal_strlit("/loop.mp4?");
    let g = "/loop.gif?"@ + tag;
    let m = "/loop.mp4?"@ + tag;
    assert("/loop."@ + "gif"@ + "?"@ + tag =~= g);
    assert("/loop."@ + "mp4"@ + "?"@ + tag =~= m);
    let e = "-"@ + text::decimal_text(k.frames as nat) + "-"@ + text::decimal_text(k.fps as nat);
    assert(loop_key_text(LoopFormat::Gif, tag, k) =~= g + e);
    assert(loop_key_text(LoopFormat::Mp4, tag, k) =~= m + e);
    text::lemma_starts_join(g, e);
    text::lemma_starts_join(m, e);
}

} // verus!
