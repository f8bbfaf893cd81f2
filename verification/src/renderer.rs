//! What a renderer hands back, and how it enters the cook.
use vstd::prelude::*;

use crate::bytes::copy_range;
use crate::cook::ThumbCook;
use crate::text_map::TextMap;

verus! {

/// What a decode function reports beside the pixels.
#[derive(Debug)]
pub struct RenderOutput {
    pub renderer: Option<String>,
    /// Properties of the source: names and their values as JSON text.
    pub properties: Option<TextMap>,
}

/// The properties after new ones have come: a new value replaces an old one of
/// the same name, the others stay.
pub open spec fn merged(old_props: Option<TextMap>, new_props: TextMap) -> Map<
    Seq<char>,
    Seq<char>,
> {
    match old_props {
        Some(m) => m@.union_prefer_right(new_props@),
        None => new_props@,
    }
}

impl ThumbCook {
    /// Takes properties of the source, beside those that it has.
    pub fn set_media_properties(&mut self, props: TextMap)
        ensures
            final(self).media.properties matches Some(m) && m@ == merged(
                old(self).media.properties,
                props,
            ),
            *final(self) == (ThumbCook {
                media: crate::cook::MediaInfo {
                    properties: final(self).media.properties,
                    ..old(self).media
                },
                ..*old(self)
            }),
    {
        let taken = self.media.properties.take();
        self.media.properties = match taken {
            Some(mut m) => {
                m.merge(&props);
                Some(m)
            },
            None => Some(props),
        };
    }

    /// Takes the bytes that the renderer consumed.
    pub fn set_bytes_consumed(&mut self, n: u64)
        ensures
            *final(self) == (ThumbCook { render_bytes_consumed: Some(n), ..*old(self) }),
    {
        self.render_bytes_consumed = Some(n);
    }
}

/// The cook holds an image and what was reported of it.
pub open spec fn output_applied(before: ThumbCook, after: ThumbCook, out: RenderOutput) -> bool {
    &&& match out.properties {
        Some(p) => after.media.properties matches Some(m) && m@ == merged(
            before.media.properties,
            p,
        ),
        None => after.media.properties == before.media.properties,
    }
    &&& after == ThumbCook {
        has_image: true,
        render_renderer: match out.renderer {
            Some(r) => Some(r),
            None => before.render_renderer,
        },
        media: crate::cook::MediaInfo { properties: after.media.properties, ..before.media },
        ..before
    }
}

/// Takes an image and what was reported of it.
pub fn apply_render_output(cook: &mut ThumbCook, out: RenderOutput)
    ensures
        output_applied(*old(cook), *final(cook), out),
{
    cook.has_image = true;
    if let Some(r) = out.renderer {
        cook.render_renderer = Some(r);
    }
    if let Some(p) = out.properties {
        cook.set_media_properties(p);
    }
}

/// The first `len` bytes of the cached first page, if it holds as many.
pub fn peek_bytes(page: Option<&[u8]>, len: usize) -> (r: Option<Vec<u8>>)
    ensures
        match r {
            Some(b) => page is Some && page->0@.len() >= len && b@ == page->0@.subrange(
                0,
                len as int,
            ),
            None => page is None || page->0@.len() < len,
        },
{
    match page {
        Some(p) => if p.len() >= len {
            Some(copy_range(p, 0, len))
        } else {
            None
        },
        None => None,
    }
}

} // verus!
