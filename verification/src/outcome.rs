//! What the steps of a run leave in the cook: the inspection, a shortcut that
//! worked, and the thumbnail that was delivered.
use vstd::prelude::*;

use crate::cook::{closed_cook, CookStatus, MediaInfo, PlaceholderIcons, ThumbCook};
use crate::inspect::Inspection;
use crate::number::{decimal, decimal_of};
use crate::pipeline::is_finished;
use crate::props::{bool_json, bool_text, image_entries, image_props_map, with_entry};
use crate::raster::ImageProps;
use crate::result::RenderHandler;
use crate::shortcut::steps::Attempt;
use crate::text::{opt_text, owned};
use crate::text_map::TextMap;

verus! {

/// The properties that an inspection found: those of an image, or for audio
/// whether it is lossless.
pub open spec fn inspected_entries(found: Inspection) -> Map<Seq<char>, Seq<char>> {
    match (found.image, found.audio_lossless) {
        (Some(p), _) => image_entries(p),
        (None, Some(l)) => Map::<Seq<char>, Seq<char>>::empty().insert("lossless"@, bool_json(l)),
        (None, None) => Map::<Seq<char>, Seq<char>>::empty(),
    }
}

/// The properties of an audio file: its channels and its length in seconds, as
/// far as they are known.
pub open spec fn audio_entries(channel_count: u32, duration: Option<Seq<char>>) -> Map<
    Seq<char>,
    Seq<char>,
> {
    with_entry(
        with_entry(
            Map::<Seq<char>, Seq<char>>::empty(),
            "channels"@,
            if channel_count > 0 {
                Some(decimal(channel_count as nat))
            } else {
                None
            },
        ),
        "duration"@,
        duration,
    )
}

/// The entries of an audio file's properties.
pub fn audio_props_map(channel_count: u32, duration: Option<String>) -> (r: TextMap)
    ensures
        r@ == audio_entries(channel_count, opt_text(duration)),
{
    let mut m = TextMap::new();
    if channel_count > 0 {
        m.insert(owned("channels"), decimal_of(channel_count as u64));
    }
    if let Some(d) = duration {
        m.insert(owned("duration"), d);
    }
    m
}

/// The properties are these entries.
pub open spec fn holds_entries(
    properties: Option<TextMap>,
    entries: Map<Seq<char>, Seq<char>>,
) -> bool {
    match properties {
        Some(m) => m@ == entries,
        None => false,
    }
}

impl ThumbCook {
    /// Takes over what an inspection found.
    pub fn apply_inspection(&mut self, found: Inspection)
        ensures
            holds_entries(final(self).media.properties, inspected_entries(found)),
            *final(self) == (ThumbCook {
                media: MediaInfo {
                    mime: Some(found.mime),
                    kind: Some(found.kind),
                    extension: Some(found.extension),
                    properties: final(self).media.properties,
                    file_size: old(self).media.file_size,
                },
                ..*old(self)
            }),
    {
        let properties = match (found.image, found.audio_lossless) {
            (Some(p), _) => image_props_map(p),
            (None, Some(l)) => {
                let mut m = TextMap::new();
                m.insert(owned("lossless"), bool_text(l));
                m
            },
            (None, None) => TextMap::new(),
        };
        self.media.mime = Some(found.mime);
        self.media.kind = Some(found.kind);
        self.media.extension = Some(found.extension);
        self.media.properties = Some(properties);
    }

    /// Takes over a shortcut that gave an image: the connection is closed, the
    /// bytes that it took are noted, and properties that it found replace the
    /// earlier ones.
    pub fn apply_shortcut(
        &mut self,
        attempt: Attempt,
        props: Option<ImageProps>,
        is_partial: bool,
        tail_bytes: u64,
    )
        ensures
            match props {
                Some(p) => holds_entries(final(self).media.properties, image_entries(p)),
                None => final(self).media.properties == old(self).media.properties,
            },
            opt_text(final(self).render_renderer) == Some(attempt.spec_renderer()),
            *final(self) == (ThumbCook {
                has_image: true,
                render_handler: RenderHandler::Builtin,
                render_renderer: final(self).render_renderer,
                render_is_progressive_partial: is_partial,
                out_download_bytes: old(self).http_fetched,
                tel_download_tail_bytes: tail_bytes,
                media: MediaInfo { properties: final(self).media.properties, ..old(self).media },
                ..closed_cook(*old(self))
            }),
    {
        let fetched: u64 = self.close();
        self.out_download_bytes = fetched;
        self.tel_download_tail_bytes = tail_bytes;
        self.render_renderer = Some(owned(attempt.renderer()));
        self.render_handler = RenderHandler::Builtin;
        self.render_is_progressive_partial = is_partial;
        if let Some(p) = props {
            self.media.properties = Some(image_props_map(p));
        }
        self.has_image = true;
    }

    /// Notes the properties of an audio file in place of the earlier ones.
    pub fn apply_audio(&mut self, channel_count: u32, duration: Option<String>)
        ensures
            holds_entries(
                final(self).media.properties,
                audio_entries(channel_count, opt_text(duration)),
            ),
            *final(self) == (ThumbCook {
                media: MediaInfo { properties: final(self).media.properties, ..old(self).media },
                ..*old(self)
            }),
    {
        self.media.properties = Some(audio_props_map(channel_count, duration));
    }

    /// Takes over the encoded thumbnail, which ends the cook; without one only
    /// the image is given up.
    pub fn apply_delivery(&mut self, thumbnail: Option<Vec<u8>>)
        ensures
            *final(self) == (match thumbnail {
                Some(t) => ThumbCook {
                    has_image: false,
                    out_thumbnail: t,
                    tel_thumbnail_bytes: Some(t@.len() as u64),
                    status: CookStatus::Complete,
                    ..*old(self)
                },
                None => ThumbCook { has_image: false, ..*old(self) },
            }),
    {
        self.has_image = false;
        if let Some(t) = thumbnail {
            let len: usize = t.len();
            self.tel_thumbnail_bytes = Some(len as u64);
            self.out_thumbnail = t;
            self.status = CookStatus::Complete;
        }
    }
}

/// A delivered thumbnail is the one that the run ends with: no placeholder takes
/// its place.
pub proof fn law_delivered_stays(
    delivered: ThumbCook,
    end: ThumbCook,
    icons: PlaceholderIcons,
    now: u64,
)
    requires
        delivered.out_thumbnail@.len() > 0,
        is_finished(end, delivered, icons, now),
    ensures
        end.out_thumbnail@ == delivered.out_thumbnail@,
        end.out_placeholder == delivered.out_placeholder,
        end.status == delivered.status,
{
}

} // verus!
