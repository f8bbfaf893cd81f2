//! Properties of a source under the names that clients see, with their values
//! as JSON text.
use vstd::prelude::*;

use crate::number::{decimal, decimal_of};
use crate::raster::ImageProps;
use crate::text::owned;
use crate::text_map::TextMap;

verus! {

/// JSON text of a truth value.
pub open spec fn bool_json(b: bool) -> Seq<char> {
    if b {
        "true"@
    } else {
        "false"@
    }
}

/// The map with one more entry, where there is a value.
pub open spec fn with_entry(
    m: Map<Seq<char>, Seq<char>>,
    key: Seq<char>,
    value: Option<Seq<char>>,
) -> Map<Seq<char>, Seq<char>> {
    match value {
        Some(v) => m.insert(key, v),
        None => m,
    }
}

/// JSON text of a number that may be unknown.
pub open spec fn number_json(n: Option<u32>) -> Option<Seq<char>> {
    match n {
        Some(n) => Some(decimal(n as nat)),
        None => None,
    }
}

/// JSON text of a truth value that may be unknown.
pub open spec fn maybe_bool_json(b: Option<bool>) -> Option<Seq<char>> {
    match b {
        Some(b) => Some(bool_json(b)),
        None => None,
    }
}

/// The entries of an image: what is unknown is left out.
pub open spec fn image_entries(p: ImageProps) -> Map<Seq<char>, Seq<char>> {
    let size = Map::<Seq<char>, Seq<char>>::empty().insert(
        "width"@,
        decimal(p.width as nat),
    ).insert("height"@, decimal(p.height as nat));
    with_entry(
        with_entry(
            with_entry(size, "bpp"@, number_json(p.bpp)),
            "alpha"@,
            maybe_bool_json(p.alpha),
        ),
        "lossless"@,
        maybe_bool_json(p.lossless),
    )
}

/// Writes a truth value as JSON.
pub fn bool_text(b: bool) -> (r: String)
    ensures
        r@ == bool_json(b),
{
    if b {
        owned("true")
    } else {
        owned("false")
    }
}

/// The entries of an image's properties.
pub fn image_props_map(p: ImageProps) -> (r: TextMap)
    ensures
        r@ == image_entries(p),
{
    let mut m = TextMap::new();
    m.insert(owned("width"), decimal_of(p.width as u64));
    m.insert(owned("height"), decimal_of(p.height as u64));
    if let Some(b) = p.bpp {
        m.insert(owned("bpp"), decimal_of(b as u64));
    }
    if let Some(a) = p.alpha {
        m.insert(owned("alpha"), bool_text(a));
    }
    if let Some(l) = p.lossless {
        m.insert(owned("lossless"), bool_text(l));
    }
    m
}

} // verus!
