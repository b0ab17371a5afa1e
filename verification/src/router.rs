//! Upstream provider routing: the set of configured styles, the load-spreading
//! shard labels, the per-style URL templates (with their access tokens), and
//! the disk-cache path convention.

use vstd::prelude::*;

verus! {

use crate::digits::{dec_str, u64_to_string};

/// Compares two strings character by character.
pub fn str_eq(a: &str, b: &str) -> (r: bool)
    ensures
        r == (a@ == b@),
{
    let na = a.unicode_len();
    let nb = b.unicode_len();
    if na != nb {
        return false;
    }
    let mut i: usize = 0;
    while i < na
        invariant
            na == a@.len(),
            nb == b@.len(),
            na == nb,
            0 <= i <= na,
            forall|k: int| 0 <= k < i ==> a@[k] == b@[k],
        decreases na - i,
    {
        if a.get_char(i) != b.get_char(i) {
            return false;
        }
        i = i + 1;
    }
    proof {
        assert(a@ =~= b@);
    }
    true
}

/// One of the configured upstream tile providers.
#[derive(Clone, Copy, PartialEq, Eq, Structural, Debug)]
pub enum Style {
    /// Plain OpenStreetMap imagery, addressed as `_` in request paths.
    Osm,
    /// Thunderforest's transport-dark theme.
    TransportDark,
    /// Jawg's matrix theme.
    Matrix,
}

/// The path segment naming a style, as it appears in request URLs and in the
/// cache directory layout.
pub open spec fn style_name_spec(s: Style) -> Seq<char> {
    match s {
        Style::Osm => "_"@,
        Style::TransportDark => "transportdark"@,
        Style::Matrix => "matrix"@,
    }
}

/// Whether `s` names a configured style.
pub open spec fn is_known_style(s: Seq<char>) -> bool {
    s == "_"@ || s == "transportdark"@ || s == "matrix"@
}

/// The style a known name stands for.
pub open spec fn style_for_name(s: Seq<char>) -> Style {
    if s == "_"@ {
        Style::Osm
    } else if s == "transportdark"@ {
        Style::TransportDark
    } else {
        Style::Matrix
    }
}

impl Style {
    /// The style's path-segment name.
    pub fn name(&self) -> (r: &'static str)
        ensures
            r@ == style_name_spec(*self),
    {
        match self {
            Style::Osm => "_",
            Style::TransportDark => "transportdark",
            Style::Matrix => "matrix",
        }
    }

    /// Validates a style name against the configured set; unknown names are
    /// rejected here, before any request handling happens on their behalf.
    pub fn from_name(name: &str) -> (r: Option<Style>)
        ensures
            r is Some <==> is_known_style(name@),
            r is Some ==> r->0 == style_for_name(name@) && style_name_spec(r->0) == name@,
    {
        if str_eq(name, "_") {
            Some(Style::Osm)
        } else if str_eq(name, "transportdark") {
            Some(Style::TransportDark)
        } else if str_eq(name, "matrix") {
            Some(Style::Matrix)
        } else {
            None
        }
    }

}

/// The identifying `User-Agent` every upstream request carries.
pub fn user_agent() -> (r: &'static str)
    ensures
        r@
            == "pothole-detection-frontend/0.1, +https://github.com/imaginary-units-pfur/pothole-detection-frontend"@,
{
    "pothole-detection-frontend/0.1, +https://github.com/imaginary-units-pfur/pothole-detection-frontend"
}

/// The `Referer` sent with upstream requests, as the providers' usage
/// policies ask.
pub fn referer() -> (r: &'static str)
    ensures
        r@ == "http://leaflet-extras.github.io"@,
{
    "http://leaflet-extras.github.io"
}

/// The shard label used for the `i`-th fetch of a round-robin sequence: the
/// upstream subdomains `a`, `b`, `c` in rotation.
pub open spec fn shard_spec(i: nat) -> Seq<char> {
    if i % 3 == 0 {
        "a"@
    } else if i % 3 == 1 {
        "b"@
    } else {
        "c"@
    }
}

/// The `i`-th round-robin shard label.
pub fn shard_name(i: u64) -> (r: &'static str)
    ensures
        r@ == shard_spec(i as nat),
{
    let m = i % 3;
    if m == 0 {
        "a"
    } else if m == 1 {
        "b"
    } else {
        "c"
    }
}

/// The OpenStreetMap tile URL (no sharding, no token).
pub open spec fn osm_url_spec(zoom: nat, x: nat, y: nat) -> Seq<char> {
    "https://tile.openstreetmap.org/"@ + dec_str(zoom) + "/"@ + dec_str(x) + "/"@ + dec_str(y)
        + ".png"@
}

/// The Thunderforest transport-dark tile URL for shard `idx`, with the
/// provider's API key.
pub open spec fn transport_dark_url_spec(idx: Seq<char>, zoom: nat, x: nat, y: nat) -> Seq<char> {
    "https://"@ + idx + ".tile.thunderforest.com/transport-dark/"@ + dec_str(zoom) + "/"@ + dec_str(
        x,
    ) + "/"@ + dec_str(y) + ".png?apikey=db5ae1f5778a448ca662554581f283c5"@
}

/// The Jawg matrix tile URL for shard `idx`, with the provider's access token.
pub open spec fn matrix_url_spec(idx: Seq<char>, zoom: nat, x: nat, y: nat) -> Seq<char> {
    "https://"@ + idx + ".tile.jawg.io/jawg-matrix/"@ + dec_str(zoom) + "/"@ + dec_str(x) + "/"@
        + dec_str(y)
        + ".png?access-token=PyTJUlEU1OPJwCJlW1k0NC8JIt2CALpyuj7uc066O7XbdZCjWEL3WYJIk6dnXtps"@
}

/// The upstream URL a known style name resolves to.
pub open spec fn tile_url_spec(style: Seq<char>, idx: Seq<char>, zoom: nat, x: nat, y: nat) -> Seq<
    char,
> {
    if style == "_"@ {
        osm_url_spec(zoom, x, y)
    } else if style == "transportdark"@ {
        transport_dark_url_spec(idx, zoom, x, y)
    } else {
        matrix_url_spec(idx, zoom, x, y)
    }
}

/// Resolves a style name and shard to the upstream tile URL. Only configured
/// style names are accepted; validation happens at the edge, not here.
pub fn get_tile_url(style: &str, idx: &str, zoom: u8, x: u32, y: u32) -> (r: String)
    requires
        is_known_style(style@),
    ensures
        r@ == tile_url_spec(style@, idx@, zoom as nat, x as nat, y as nat),
{
    let mut url = String::new();
    if str_eq(style, "_") {
        url.append("https://tile.openstreetmap.org/");
        url.append(u64_to_string(zoom as u64).as_str());
        url.append("/");
        url.append(u64_to_string(x as u64).as_str());
        url.append("/");
        url.append(u64_to_string(y as u64).as_str());
        url.append(".png");
    } else if str_eq(style, "transportdark") {
        url.append("https://");
        url.append(idx);
        url.append(".tile.thunderforest.com/transport-dark/");
        url.append(u64_to_string(zoom as u64).as_str());
        url.append("/");
        url.append(u64_to_string(x as u64).as_str());
        url.append("/");
        url.append(u64_to_string(y as u64).as_str());
        url.append(".png?apikey=db5ae1f5778a448ca662554581f283c5");
    } else {
        url.append("https://");
        url.append(idx);
        url.append(".tile.jawg.io/jawg-matrix/");
        url.append(u64_to_string(zoom as u64).as_str());
        url.append("/");
        url.append(u64_to_string(x as u64).as_str());
        url.append("/");
        url.append(u64_to_string(y as u64).as_str());
        url.append(".png?access-token=PyTJUlEU1OPJwCJlW1k0NC8JIt2CALpyuj7uc066O7XbdZCjWEL3WYJIk6dnXtps");
    }
    url
}

/// The cache file holding a tile: `tile-cache/{style}/{zoom}/{x}/{y}.png`.
pub open spec fn cache_path_spec(style: Style, zoom: nat, x: nat, y: nat) -> Seq<char> {
    "tile-cache/"@ + style_name_spec(style) + "/"@ + dec_str(zoom) + "/"@ + dec_str(x) + "/"@
        + dec_str(y) + ".png"@
}

/// The directory that must exist before the tile file is written:
/// `tile-cache/{style}/{zoom}/{x}`.
pub open spec fn cache_dir_spec(style: Style, zoom: nat, x: nat) -> Seq<char> {
    "tile-cache/"@ + style_name_spec(style) + "/"@ + dec_str(zoom) + "/"@ + dec_str(x)
}

/// Renders the cache file path for a tile.
pub fn cache_path(style: Style, zoom: u8, x: u32, y: u32) -> (r: String)
    ensures
        r@ == cache_path_spec(style, zoom as nat, x as nat, y as nat),
{
    let mut p = String::new();
    p.append("tile-cache/");
    p.append(style.name());
    p.append("/");
    p.append(u64_to_string(zoom as u64).as_str());
    p.append("/");
    p.append(u64_to_string(x as u64).as_str());
    p.append("/");
    p.append(u64_to_string(y as u64).as_str());
    p.append(".png");
    p
}

/// Renders the cache directory path for a tile.
pub fn cache_dir(style: Style, zoom: u8, x: u32) -> (r: String)
    ensures
        r@ == cache_dir_spec(style, zoom as nat, x as nat),
{
    let mut p = String::new();
    p.append("tile-cache/");
    p.append(style.name());
    p.append("/");
    p.append(u64_to_string(zoom as u64).as_str());
    p.append("/");
    p.append(u64_to_string(x as u64).as_str());
    p
}

} // verus!
