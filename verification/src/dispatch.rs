//! Dispatch routing: from category and extension to a processing tier.
//!
//! Each tier can do what the ones below it can. Tier 1 decodes common raster
//! formats, tier 2 adds video, vector and raw formats, tier 3 adds subprocess
//! renderers.
use vstd::prelude::*;

use crate::media::FileKind;
use crate::text::{list_has, lists_text, same};

verus! {

/// Dispatch result for one item: the tier that should process it. It is a
/// recommendation; a cook may still escalate to a higher tier.
#[derive(Clone, Copy, Debug, PartialEq, Eq, Structural)]
pub struct ThumbRoute {
    pub tier: u8,
}

/// A single format entry in the dispatch manifest.
#[derive(Clone, Copy, Debug)]
pub struct FormatEntry {
    /// Canonical file extension.
    pub extension: &'static str,
    /// Human-readable label.
    pub label: &'static str,
    pub kind: FileKind,
    /// Tier that processes this format.
    pub tier: u8,
    /// Renderer name for trace attribution.
    pub renderer: &'static str,
    /// Whether an embedded thumbnail can be extracted without a full decode.
    pub shortcut: bool,
}

/// A manifest entry by its values.
pub struct FormatRow {
    pub extension: Seq<char>,
    pub label: Seq<char>,
    pub kind: FileKind,
    pub tier: u8,
    pub renderer: Seq<char>,
    pub shortcut: bool,
}

impl View for FormatEntry {
    type V = FormatRow;

    open spec fn view(&self) -> FormatRow {
        FormatRow {
            extension: self.extension@,
            label: self.label@,
            kind: self.kind,
            tier: self.tier,
            renderer: self.renderer@,
            shortcut: self.shortcut,
        }
    }
}

/// A manifest entry made of its values.
pub open spec fn row(
    extension: Seq<char>,
    label: Seq<char>,
    kind: FileKind,
    tier: u8,
    renderer: Seq<char>,
    shortcut: bool,
) -> FormatRow {
    FormatRow { extension, label, kind, tier, renderer, shortcut }
}

/// How many formats the manifest lists.
pub const FORMAT_COUNT: usize = 116;

/// Entries 0 to 23 of the manifest.
pub open spec fn first_rows(i: int) -> FormatRow {
    if i == 0 {
        row("png"@, "PNG"@, FileKind::Image, 1, "image_crate"@, true)
    } else if i == 1 {
        row("gif"@, "GIF"@, FileKind::Image, 1, "image_crate"@, true)
    } else if i == 2 {
        row("webp"@, "Google"@, FileKind::Image, 1, "image_crate"@, true)
    } else if i == 3 {
        row("bmp"@, "Windows Bitmap"@, FileKind::Image, 1, "image_crate"@, true)
    } else if i == 4 {
        row("tiff"@, "Tagged interchange"@, FileKind::Image, 1, "image_crate"@, true)
    } else if i == 5 {
        row("ico"@, "Windows Icon"@, FileKind::Image, 1, "image_crate"@, true)
    } else if i == 6 {
        row("jpeg"@, "JPEG"@, FileKind::Image, 2, "libav"@, true)
    } else if i == 7 {
        row("svg"@, "Scalable Vector"@, FileKind::Vector, 2, "resvg"@, false)
    } else if i == 8 {
        row("jxl"@, "JPEG XL"@, FileKind::Image, 2, "jxl_oxide"@, false)
    } else if i == 9 {
        row("exr"@, "OpenEXR"@, FileKind::Image, 2, "libav"@, false)
    } else if i == 10 {
        row("hdr"@, "Radiance"@, FileKind::Image, 2, "libav"@, false)
    } else if i == 11 {
        row("avif"@, "AVIF"@, FileKind::Image, 2, "libav"@, false)
    } else if i == 12 {
        row("heic"@, "HEIC"@, FileKind::Image, 2, "libav"@, false)
    } else if i == 13 {
        row("dng"@, "DNG (raw)"@, FileKind::Image, 2, "raw_preview"@, true)
    } else if i == 14 {
        row("cr2"@, "Canon (raw)"@, FileKind::Image, 2, "raw_preview"@, true)
    } else if i == 15 {
        row("nef"@, "Nikon (raw)"@, FileKind::Image, 2, "raw_preview"@, true)
    } else if i == 16 {
        row("arw"@, "Sony (raw)"@, FileKind::Image, 2, "raw_preview"@, true)
    } else if i == 17 {
        row("orf"@, "Olympus (raw)"@, FileKind::Image, 2, "raw_preview"@, true)
    } else if i == 18 {
        row("rw2"@, "Panasonic (raw)"@, FileKind::Image, 2, "raw_preview"@, true)
    } else if i == 19 {
        row("pef"@, "Pentax (raw)"@, FileKind::Image, 2, "raw_preview"@, true)
    } else if i == 20 {
        row("srw"@, "Samsung (raw)"@, FileKind::Image, 2, "raw_preview"@, true)
    } else if i == 21 {
        row("raf"@, "Fuji (raw)"@, FileKind::Image, 2, "raw_preview"@, true)
    } else if i == 22 {
        row("3fr"@, "Hasselblad (raw)"@, FileKind::Image, 2, "raw_preview"@, true)
    } else {
        row("fff"@, "Hasselblad (raw)"@, FileKind::Image, 2, "raw_preview"@, true)
    }
}

/// Entries 24 to 47 of the manifest.
pub open spec fn second_rows(i: int) -> FormatRow {
    if i == 24 {
        row("iiq"@, "Phase One (raw)"@, FileKind::Image, 2, "raw_preview"@, true)
    } else if i == 25 {
        row("mef"@, "Mamiya (raw)"@, FileKind::Image, 2, "raw_preview"@, true)
    } else if i == 26 {
        row("rwl"@, "Leica (raw)"@, FileKind::Image, 2, "raw_preview"@, true)
    } else if i == 27 {
        row("raw"@, "Generic (raw)"@, FileKind::Image, 2, "raw_preview"@, true)
    } else if i == 28 {
        row("psd"@, "Photoshop"@, FileKind::Image, 2, "libav"@, false)
    } else if i == 29 {
        row("pbm"@, "NetPBM"@, FileKind::Image, 2, "libav"@, false)
    } else if i == 30 {
        row("tga"@, "Targa"@, FileKind::Image, 2, "libav"@, false)
    } else if i == 31 {
        row("mp4"@, "MPEG-4"@, FileKind::Video, 2, "libav"@, false)
    } else if i == 32 {
        row("mov"@, "QuickTime"@, FileKind::Video, 2, "libav"@, false)
    } else if i == 33 {
        row("avi"@, "Windows"@, FileKind::Video, 2, "libav"@, false)
    } else if i == 34 {
        row("webm"@, "Google"@, FileKind::Video, 2, "libav"@, false)
    } else if i == 35 {
        row("mkv"@, "Matroska"@, FileKind::Video, 2, "libav"@, false)
    } else if i == 36 {
        row("flv"@, "Flash Video"@, FileKind::Video, 2, "libav"@, false)
    } else if i == 37 {
        row("ts"@, "MPEG Transport Stream"@, FileKind::Video, 2, "libav"@, false)
    } else if i == 38 {
        row("3gp"@, "3GPP"@, FileKind::Video, 2, "libav"@, false)
    } else if i == 39 {
        row("ogv"@, "Ogg"@, FileKind::Video, 2, "libav"@, false)
    } else if i == 40 {
        row("wmv"@, "Windows Media"@, FileKind::Video, 2, "libav"@, false)
    } else if i == 41 {
        row("mpeg"@, "MPEG"@, FileKind::Video, 2, "libav"@, false)
    } else if i == 42 {
        row("m2ts"@, "Blu-ray Transport Stream"@, FileKind::Video, 2, "libav"@, false)
    } else if i == 43 {
        row("mxf"@, "Material Exchange Format"@, FileKind::Video, 2, "libav"@, false)
    } else if i == 44 {
        row("av1"@, "AV1 bitstream"@, FileKind::Video, 2, "libav"@, false)
    } else if i == 45 {
        row("mp3"@, "MPEG"@, FileKind::Audio, 2, "libav"@, true)
    } else if i == 46 {
        row("wav"@, "Windows"@, FileKind::Audio, 2, "libav"@, false)
    } else {
        row("flac"@, "Free Lossless"@, FileKind::Audio, 2, "libav"@, false)
    }
}

/// Entries 48 to 71 of the manifest.
pub open spec fn third_rows(i: int) -> FormatRow {
    if i == 48 {
        row("ogg"@, "Vorbis"@, FileKind::Audio, 2, "libav"@, false)
    } else if i == 49 {
        row("m4a"@, "MPEG-4"@, FileKind::Audio, 2, "libav"@, false)
    } else if i == 50 {
        row("aac"@, "Apple"@, FileKind::Audio, 2, "libav"@, false)
    } else if i == 51 {
        row("wma"@, "Windows Media"@, FileKind::Audio, 2, "libav"@, false)
    } else if i == 52 {
        row("aiff"@, "Interchange"@, FileKind::Audio, 2, "libav"@, false)
    } else if i == 53 {
        row("opus"@, "Opus"@, FileKind::Audio, 2, "libav"@, false)
    } else if i == 54 {
        row("odt"@, "OpenOffice Document"@, FileKind::Document, 2, "builtin"@, true)
    } else if i == 55 {
        row("ods"@, "OpenOffice Spreadsheet"@, FileKind::Document, 2, "builtin"@, true)
    } else if i == 56 {
        row("odp"@, "OpenOffice Presentation"@, FileKind::Document, 2, "builtin"@, true)
    } else if i == 57 {
        row("docx"@, "Office Document"@, FileKind::Document, 2, "builtin"@, true)
    } else if i == 58 {
        row("xlsx"@, "Office Spreadsheet"@, FileKind::Document, 2, "builtin"@, true)
    } else if i == 59 {
        row("pptx"@, "Office presentation"@, FileKind::Document, 2, "builtin"@, true)
    } else if i == 60 {
        row("jpeg"@, "JPEG (arithmetic)"@, FileKind::Image, 3, "ffmpeg_cli"@, false)
    } else if i == 61 {
        row("png"@, "PNG (via ffmpeg)"@, FileKind::Image, 3, "ffmpeg_cli"@, false)
    } else if i == 62 {
        row("webp"@, "WebP (via ffmpeg)"@, FileKind::Image, 3, "ffmpeg_cli"@, false)
    } else if i == 63 {
        row("bmp"@, "BMP (via ffmpeg)"@, FileKind::Image, 3, "ffmpeg_cli"@, false)
    } else if i == 64 {
        row("tiff"@, "TIFF (via ffmpeg)"@, FileKind::Image, 3, "ffmpeg_cli"@, false)
    } else if i == 65 {
        row("psd"@, "PSD (via ffmpeg)"@, FileKind::Image, 3, "ffmpeg_cli"@, false)
    } else if i == 66 {
        row("gif"@, "GIF (via ffmpeg)"@, FileKind::Image, 3, "ffmpeg_cli"@, false)
    } else if i == 67 {
        row("jp2"@, "JPEG 2000"@, FileKind::Image, 3, "ffmpeg_cli"@, false)
    } else if i == 68 {
        row("pcx"@, "PCX"@, FileKind::Image, 3, "ffmpeg_cli"@, false)
    } else if i == 69 {
        row("qoi"@, "QOI"@, FileKind::Image, 3, "ffmpeg_cli"@, false)
    } else if i == 70 {
        row("xbm"@, "XBM"@, FileKind::Image, 3, "ffmpeg_cli"@, false)
    } else {
        row("xpm"@, "XPM"@, FileKind::Image, 3, "ffmpeg_cli"@, false)
    }
}

/// Entries 72 to 95 of the manifest.
pub open spec fn fourth_rows(i: int) -> FormatRow {
    if i == 72 {
        row("xwd"@, "XWD"@, FileKind::Image, 3, "ffmpeg_cli"@, false)
    } else if i == 73 {
        row("pam"@, "PAM"@, FileKind::Image, 3, "ffmpeg_cli"@, false)
    } else if i == 74 {
        row("svg"@, "SVG (via ffmpeg)"@, FileKind::Vector, 3, "ffmpeg_cli"@, false)
    } else if i == 75 {
        row("avif"@, "AVIF (via ffmpeg)"@, FileKind::Image, 3, "ffmpeg_cli"@, false)
    } else if i == 76 {
        row("heic"@, "HEIC (via ffmpeg)"@, FileKind::Image, 3, "ffmpeg_cli"@, false)
    } else if i == 77 {
        row("heic"@, "HEIC (via ffmpeg)"@, FileKind::Image, 3, "ffmpeg_cli"@, false)
    } else if i == 78 {
        row("exr"@, "OpenEXR"@, FileKind::Image, 3, "oiiotool"@, false)
    } else if i == 79 {
        row("hdr"@, "Radiance HDR"@, FileKind::Image, 3, "oiiotool"@, false)
    } else if i == 80 {
        row("dpx"@, "DPX"@, FileKind::Image, 3, "oiiotool"@, false)
    } else if i == 81 {
        row("cin"@, "Cineon"@, FileKind::Image, 3, "oiiotool"@, false)
    } else if i == 82 {
        row("dds"@, "DirectDraw Surface"@, FileKind::Image, 3, "oiiotool"@, false)
    } else if i == 83 {
        row("dcm"@, "DICOM"@, FileKind::Image, 3, "oiiotool"@, false)
    } else if i == 84 {
        row("fits"@, "FITS"@, FileKind::Image, 3, "oiiotool"@, false)
    } else if i == 85 {
        row("iff"@, "Interchange"@, FileKind::Image, 3, "oiiotool"@, false)
    } else if i == 86 {
        row("pic"@, "Softimage"@, FileKind::Image, 3, "oiiotool"@, false)
    } else if i == 87 {
        row("rla"@, "Wavefront image"@, FileKind::Image, 3, "oiiotool"@, false)
    } else if i == 88 {
        row("sgi"@, "Silicon Graphics"@, FileKind::Image, 3, "oiiotool"@, false)
    } else if i == 89 {
        row("zfile"@, "RenderMan Depth"@, FileKind::Image, 3, "oiiotool"@, false)
    } else if i == 90 {
        row("glb"@, "Khronos Binary"@, FileKind::Geometry, 3, "f3d"@, false)
    } else if i == 91 {
        row("gltf"@, "Khronos Asset"@, FileKind::Geometry, 3, "f3d"@, false)
    } else if i == 92 {
        row("fbx"@, "Filmbox"@, FileKind::Geometry, 3, "f3d"@, false)
    } else if i == 93 {
        row("dae"@, "Collada"@, FileKind::Geometry, 3, "f3d"@, false)
    } else if i == 94 {
        row("dxf"@, "AutoCAD"@, FileKind::Geometry, 3, "f3d"@, false)
    } else {
        row("off"@, "Object File Format"@, FileKind::Geometry, 3, "f3d"@, false)
    }
}

/// Entries 96 to 115 of the manifest.
pub open spec fn fifth_rows(i: int) -> FormatRow {
    if i == 96 {
        row("exo"@, "Exodus II"@, FileKind::Geometry, 3, "f3d"@, false)
    } else if i == 97 {
        row("3ds"@, "Autodesk 3D Studio"@, FileKind::Geometry, 3, "f3d"@, false)
    } else if i == 98 {
        row("gml"@, "CityGML"@, FileKind::Geometry, 3, "f3d"@, false)
    } else if i == 99 {
        row("ply"@, "Stanford Polygon"@, FileKind::Geometry, 3, "f3d"@, false)
    } else if i == 100 {
        row("pts"@, "Point Cloud"@, FileKind::Geometry, 3, "f3d"@, false)
    } else if i == 101 {
        row("usdz"@, "OpenUSD Archive"@, FileKind::Geometry, 3, "usdz"@, false)
    } else if i == 102 {
        row("usd"@, "OpenUSD"@, FileKind::Geometry, 3, "usdz"@, false)
    } else if i == 103 {
        row("stl"@, "Stereolithography"@, FileKind::Geometry, 3, "f3d"@, false)
    } else if i == 104 {
        row("obj"@, "Wavefront"@, FileKind::Geometry, 3, "f3d"@, false)
    } else if i == 105 {
        row("vrml"@, "Virtual Reality Markup"@, FileKind::Geometry, 3, "f3d"@, false)
    } else if i == 106 {
        row("vtk"@, "VTK Legacy"@, FileKind::Geometry, 3, "f3d"@, false)
    } else if i == 107 {
        row("vtu"@, "VTK XML UnstructuredGrid"@, FileKind::Geometry, 3, "f3d"@, false)
    } else if i == 108 {
        row("vtp"@, "VTK XML PolyData"@, FileKind::Geometry, 3, "f3d"@, false)
    } else if i == 109 {
        row("vti"@, "VTK XML ImageData"@, FileKind::Geometry, 3, "f3d"@, false)
    } else if i == 110 {
        row("vtr"@, "VTK XML RectGrid"@, FileKind::Geometry, 3, "f3d"@, false)
    } else if i == 111 {
        row("vts"@, "VTK XML StructGrid"@, FileKind::Geometry, 3, "f3d"@, false)
    } else if i == 112 {
        row("vtm"@, "VTK XML MultiBlock"@, FileKind::Geometry, 3, "f3d"@, false)
    } else if i == 113 {
        row("step"@, "CAD"@, FileKind::Geometry, 3, "f3d"@, false)
    } else if i == 114 {
        row("iges"@, "Graphics Exchange"@, FileKind::Geometry, 3, "f3d"@, false)
    } else {
        row("brep"@, "CASCADE"@, FileKind::Geometry, 3, "f3d"@, false)
    }
}

/// Entry `i` of the manifest.
#[verifier::opaque]
pub open spec fn manifest_row(i: int) -> FormatRow {
    if i < 24 {
        first_rows(i)
    } else if i < 48 {
        second_rows(i)
    } else if i < 72 {
        third_rows(i)
    } else if i < 96 {
        fourth_rows(i)
    } else {
        fifth_rows(i)
    }
}

fn entry(
    extension: &'static str,
    label: &'static str,
    kind: FileKind,
    tier: u8,
    renderer: &'static str,
    shortcut: bool,
) -> (r: FormatEntry)
    ensures
        r@ == row(extension@, label@, kind, tier, renderer@, shortcut),
{
    FormatEntry { extension, label, kind, tier, renderer, shortcut }
}

fn first_entries(i: usize) -> (r: FormatEntry)
    requires
        0 <= i < 24,
    ensures
        r@ == first_rows(i as int),
{
    match i {
        0 => entry("png", "PNG", FileKind::Image, 1, "image_crate", true),
        1 => entry("gif", "GIF", FileKind::Image, 1, "image_crate", true),
        2 => entry("webp", "Google", FileKind::Image, 1, "image_crate", true),
        3 => entry("bmp", "Windows Bitmap", FileKind::Image, 1, "image_crate", true),
        4 => entry("tiff", "Tagged interchange", FileKind::Image, 1, "image_crate", true),
        5 => entry("ico", "Windows Icon", FileKind::Image, 1, "image_crate", true),
        6 => entry("jpeg", "JPEG", FileKind::Image, 2, "libav", true),
        7 => entry("svg", "Scalable Vector", FileKind::Vector, 2, "resvg", false),
        8 => entry("jxl", "JPEG XL", FileKind::Image, 2, "jxl_oxide", false),
        9 => entry("exr", "OpenEXR", FileKind::Image, 2, "libav", false),
        10 => entry("hdr", "Radiance", FileKind::Image, 2, "libav", false),
        11 => entry("avif", "AVIF", FileKind::Image, 2, "libav", false),
        12 => entry("heic", "HEIC", FileKind::Image, 2, "libav", false),
        13 => entry("dng", "DNG (raw)", FileKind::Image, 2, "raw_preview", true),
        14 => entry("cr2", "Canon (raw)", FileKind::Image, 2, "raw_preview", true),
        15 => entry("nef", "Nikon (raw)", FileKind::Image, 2, "raw_preview", true),
        16 => entry("arw", "Sony (raw)", FileKind::Image, 2, "raw_preview", true),
        17 => entry("orf", "Olympus (raw)", FileKind::Image, 2, "raw_preview", true),
        18 => entry("rw2", "Panasonic (raw)", FileKind::Image, 2, "raw_preview", true),
        19 => entry("pef", "Pentax (raw)", FileKind::Image, 2, "raw_preview", true),
        20 => entry("srw", "Samsung (raw)", FileKind::Image, 2, "raw_preview", true),
        21 => entry("raf", "Fuji (raw)", FileKind::Image, 2, "raw_preview", true),
        22 => entry("3fr", "Hasselblad (raw)", FileKind::Image, 2, "raw_preview", true),
        _ => entry("fff", "Hasselblad (raw)", FileKind::Image, 2, "raw_preview", true),
    }
}

fn second_entries(i: usize) -> (r: FormatEntry)
    requires
        24 <= i < 48,
    ensures
        r@ == second_rows(i as int),
{
    match i {
        24 => entry("iiq", "Phase One (raw)", FileKind::Image, 2, "raw_preview", true),
        25 => entry("mef", "Mamiya (raw)", FileKind::Image, 2, "raw_preview", true),
        26 => entry("rwl", "Leica (raw)", FileKind::Image, 2, "raw_preview", true),
        27 => entry("raw", "Generic (raw)", FileKind::Image, 2, "raw_preview", true),
        28 => entry("psd", "Photoshop", FileKind::Image, 2, "libav", false),
        29 => entry("pbm", "NetPBM", FileKind::Image, 2, "libav", false),
        30 => entry("tga", "Targa", FileKind::Image, 2, "libav", false),
        31 => entry("mp4", "MPEG-4", FileKind::Video, 2, "libav", false),
        32 => entry("mov", "QuickTime", FileKind::Video, 2, "libav", false),
        33 => entry("avi", "Windows", FileKind::Video, 2, "libav", false),
        34 => entry("webm", "Google", FileKind::Video, 2, "libav", false),
        35 => entry("mkv", "Matroska", FileKind::Video, 2, "libav", false),
        36 => entry("flv", "Flash Video", FileKind::Video, 2, "libav", false),
        37 => entry("ts", "MPEG Transport Stream", FileKind::Video, 2, "libav", false),
        38 => entry("3gp", "3GPP", FileKind::Video, 2, "libav", false),
        39 => entry("ogv", "Ogg", FileKind::Video, 2, "libav", false),
        40 => entry("wmv", "Windows Media", FileKind::Video, 2, "libav", false),
        41 => entry("mpeg", "MPEG", FileKind::Video, 2, "libav", false),
        42 => entry("m2ts", "Blu-ray Transport Stream", FileKind::Video, 2, "libav", false),
        43 => entry("mxf", "Material Exchange Format", FileKind::Video, 2, "libav", false),
        44 => entry("av1", "AV1 bitstream", FileKind::Video, 2, "libav", false),
        45 => entry("mp3", "MPEG", FileKind::Audio, 2, "libav", true),
        46 => entry("wav", "Windows", FileKind::Audio, 2, "libav", false),
        _ => entry("flac", "Free Lossless", FileKind::Audio, 2, "libav", false),
    }
}

fn third_entries(i: usize) -> (r: FormatEntry)
    requires
        48 <= i < 72,
    ensures
        r@ == third_rows(i as int),
{
    match i {
        48 => entry("ogg", "Vorbis", FileKind::Audio, 2, "libav", false),
        49 => entry("m4a", "MPEG-4", FileKind::Audio, 2, "libav", false),
        50 => entry("aac", "Apple", FileKind::Audio, 2, "libav", false),
        51 => entry("wma", "Windows Media", FileKind::Audio, 2, "libav", false),
        52 => entry("aiff", "Interchange", FileKind::Audio, 2, "libav", false),
        53 => entry("opus", "Opus", FileKind::Audio, 2, "libav", false),
        54 => entry("odt", "OpenOffice Document", FileKind::Document, 2, "builtin", true),
        55 => entry("ods", "OpenOffice Spreadsheet", FileKind::Document, 2, "builtin", true),
        56 => entry("odp", "OpenOffice Presentation", FileKind::Document, 2, "builtin", true),
        57 => entry("docx", "Office Document", FileKind::Document, 2, "builtin", true),
        58 => entry("xlsx", "Office Spreadsheet", FileKind::Document, 2, "builtin", true),
        59 => entry("pptx", "Office presentation", FileKind::Document, 2, "builtin", true),
        60 => entry("jpeg", "JPEG (arithmetic)", FileKind::Image, 3, "ffmpeg_cli", false),
        61 => entry("png", "PNG (via ffmpeg)", FileKind::Image, 3, "ffmpeg_cli", false),
        62 => entry("webp", "WebP (via ffmpeg)", FileKind::Image, 3, "ffmpeg_cli", false),
        63 => entry("bmp", "BMP (via ffmpeg)", FileKind::Image, 3, "ffmpeg_cli", false),
        64 => entry("tiff", "TIFF (via ffmpeg)", FileKind::Image, 3, "ffmpeg_cli", false),
        65 => entry("psd", "PSD (via ffmpeg)", FileKind::Image, 3, "ffmpeg_cli", false),
        66 => entry("gif", "GIF (via ffmpeg)", FileKind::Image, 3, "ffmpeg_cli", false),
        67 => entry("jp2", "JPEG 2000", FileKind::Image, 3, "ffmpeg_cli", false),
        68 => entry("pcx", "PCX", FileKind::Image, 3, "ffmpeg_cli", false),
        69 => entry("qoi", "QOI", FileKind::Image, 3, "ffmpeg_cli", false),
        70 => entry("xbm", "XBM", FileKind::Image, 3, "ffmpeg_cli", false),
        _ => entry("xpm", "XPM", FileKind::Image, 3, "ffmpeg_cli", false),
    }
}

fn fourth_entries(i: usize) -> (r: FormatEntry)
    requires
        72 <= i < 96,
    ensures
        r@ == fourth_rows(i as int),
{
    match i {
        72 => entry("xwd", "XWD", FileKind::Image, 3, "ffmpeg_cli", false),
        73 => entry("pam", "PAM", FileKind::Image, 3, "ffmpeg_cli", false),
        74 => entry("svg", "SVG (via ffmpeg)", FileKind::Vector, 3, "ffmpeg_cli", false),
        75 => entry("avif", "AVIF (via ffmpeg)", FileKind::Image, 3, "ffmpeg_cli", false),
        76 => entry("heic", "HEIC (via ffmpeg)", FileKind::Image, 3, "ffmpeg_cli", false),
        77 => entry("heic", "HEIC (via ffmpeg)", FileKind::Image, 3, "ffmpeg_cli", false),
        78 => entry("exr", "OpenEXR", FileKind::Image, 3, "oiiotool", false),
        79 => entry("hdr", "Radiance HDR", FileKind::Image, 3, "oiiotool", false),
        80 => entry("dpx", "DPX", FileKind::Image, 3, "oiiotool", false),
        81 => entry("cin", "Cineon", FileKind::Image, 3, "oiiotool", false),
        82 => entry("dds", "DirectDraw Surface", FileKind::Image, 3, "oiiotool", false),
        83 => entry("dcm", "DICOM", FileKind::Image, 3, "oiiotool", false),
        84 => entry("fits", "FITS", FileKind::Image, 3, "oiiotool", false),
        85 => entry("iff", "Interchange", FileKind::Image, 3, "oiiotool", false),
        86 => entry("pic", "Softimage", FileKind::Image, 3, "oiiotool", false),
        87 => entry("rla", "Wavefront image", FileKind::Image, 3, "oiiotool", false),
        88 => entry("sgi", "Silicon Graphics", FileKind::Image, 3, "oiiotool", false),
        89 => entry("zfile", "RenderMan Depth", FileKind::Image, 3, "oiiotool", false),
        90 => entry("glb", "Khronos Binary", FileKind::Geometry, 3, "f3d", false),
        91 => entry("gltf", "Khronos Asset", FileKind::Geometry, 3, "f3d", false),
        92 => entry("fbx", "Filmbox", FileKind::Geometry, 3, "f3d", false),
        93 => entry("dae", "Collada", FileKind::Geometry, 3, "f3d", false),
        94 => entry("dxf", "AutoCAD", FileKind::Geometry, 3, "f3d", false),
        _ => entry("off", "Object File Format", FileKind::Geometry, 3, "f3d", false),
    }
}

fn fifth_entries(i: usize) -> (r: FormatEntry)
    requires
        96 <= i < 116,
    ensures
        r@ == fifth_rows(i as int),
{
    match i {
        96 => entry("exo", "Exodus II", FileKind::Geometry, 3, "f3d", false),
        97 => entry("3ds", "Autodesk 3D Studio", FileKind::Geometry, 3, "f3d", false),
        98 => entry("gml", "CityGML", FileKind::Geometry, 3, "f3d", false),
        99 => entry("ply", "Stanford Polygon", FileKind::Geometry, 3, "f3d", false),
        100 => entry("pts", "Point Cloud", FileKind::Geometry, 3, "f3d", false),
        101 => entry("usdz", "OpenUSD Archive", FileKind::Geometry, 3, "usdz", false),
        102 => entry("usd", "OpenUSD", FileKind::Geometry, 3, "usdz", false),
        103 => entry("stl", "Stereolithography", FileKind::Geometry, 3, "f3d", false),
        104 => entry("obj", "Wavefront", FileKind::Geometry, 3, "f3d", false),
        105 => entry("vrml", "Virtual Reality Markup", FileKind::Geometry, 3, "f3d", false),
        106 => entry("vtk", "VTK Legacy", FileKind::Geometry, 3, "f3d", false),
        107 => entry("vtu", "VTK XML UnstructuredGrid", FileKind::Geometry, 3, "f3d", false),
        108 => entry("vtp", "VTK XML PolyData", FileKind::Geometry, 3, "f3d", false),
        109 => entry("vti", "VTK XML ImageData", FileKind::Geometry, 3, "f3d", false),
        110 => entry("vtr", "VTK XML RectGrid", FileKind::Geometry, 3, "f3d", false),
        111 => entry("vts", "VTK XML StructGrid", FileKind::Geometry, 3, "f3d", false),
        112 => entry("vtm", "VTK XML MultiBlock", FileKind::Geometry, 3, "f3d", false),
        113 => entry("step", "CAD", FileKind::Geometry, 3, "f3d", false),
        114 => entry("iges", "Graphics Exchange", FileKind::Geometry, 3, "f3d", false),
        _ => entry("brep", "CASCADE", FileKind::Geometry, 3, "f3d", false),
    }
}

/// Entry `i` of the manifest.
fn manifest_entry(i: usize) -> (r: FormatEntry)
    requires
        i < FORMAT_COUNT,
    ensures
        r@ == manifest_row(i as int),
{
    proof {
        reveal(manifest_row);
    }
    if i < 24 {
        first_entries(i)
    } else if i < 48 {
        second_entries(i)
    } else if i < 72 {
        third_entries(i)
    } else if i < 96 {
        fourth_entries(i)
    } else {
        fifth_entries(i)
    }
}

/// Every format that is known, with the tier responsible for it. A format may
/// be listed under several tiers.
pub fn format_manifest() -> (r: Vec<FormatEntry>)
    ensures
        r@.len() == FORMAT_COUNT,
        forall|i: int| 0 <= i < FORMAT_COUNT ==> (#[trigger] r@[i])@ == manifest_row(i),
{
    let mut out: Vec<FormatEntry> = Vec::new();
    let mut i: usize = 0;
    while i < FORMAT_COUNT
        invariant
            i <= FORMAT_COUNT,
            out@.len() == i,
            forall|j: int| 0 <= j < i ==> (#[trigger] out@[j])@ == manifest_row(j),
        decreases FORMAT_COUNT - i,
    {
        out.push(manifest_entry(i));
        i += 1;
    }
    out
}

/// Manifest entry `i` is for this category and extension.
pub open spec fn lists(i: int, kind: FileKind, ext: Seq<char>) -> bool {
    0 <= i < FORMAT_COUNT && manifest_row(i).kind == kind && manifest_row(i).extension == ext
}

/// The tier of a category whose extension the manifest does not list.
pub open spec fn default_tier(kind: FileKind) -> u8 {
    match kind {
        FileKind::Archive | FileKind::Text | FileKind::Binary | FileKind::Unknown => 1,
        FileKind::Image => 1,
        FileKind::Vector | FileKind::Video | FileKind::Audio | FileKind::Document => 2,
        FileKind::Geometry => 3,
    }
}

/// `tier` is where an item goes: the lowest tier that the manifest lists for
/// it, or else its category's default.
pub open spec fn routes_to(kind: FileKind, ext: Option<Seq<char>>, tier: u8) -> bool {
    match ext {
        Some(e) => if exists|i: int| lists(i, kind, e) {
            &&& exists|i: int| #[trigger] lists(i, kind, e) && manifest_row(i).tier == tier
            &&& forall|i: int| #[trigger] lists(i, kind, e) ==> tier <= manifest_row(i).tier
        } else {
            tier == default_tier(kind)
        },
        None => tier == default_tier(kind),
    }
}

/// Routes a category and extension to the lowest tier that handles them.
pub fn route(kind: FileKind, extension: Option<&str>) -> (r: ThumbRoute)
    ensures
        routes_to(
            kind,
            match extension {
                Some(e) => Some(e@),
                None => None,
            },
            r.tier,
        ),
{
    if let Some(ext) = extension {
        let manifest = format_manifest();
        let mut best: Option<u8> = None;
        let mut i: usize = 0;
        while i < FORMAT_COUNT
            invariant
                i <= FORMAT_COUNT,
                manifest@.len() == FORMAT_COUNT,
                forall|j: int| 0 <= j < FORMAT_COUNT ==> (#[trigger] manifest@[j])@ == manifest_row(j),
                match best {
                    Some(t) => (exists|j: int|
                        0 <= j < i && #[trigger] lists(j, kind, ext@) && manifest_row(j).tier == t)
                        && forall|j: int|
                        0 <= j < i && #[trigger] lists(j, kind, ext@) ==> t <= manifest_row(j).tier,
                    None => forall|j: int| 0 <= j < i ==> !#[trigger] lists(j, kind, ext@),
                },
            decreases FORMAT_COUNT - i,
        {
            let e = &manifest[i];
            assert(manifest@[i as int]@ == manifest_row(i as int));
            if e.kind == kind && same(e.extension, ext) {
                assert(lists(i as int, kind, ext@));
                let lower = match best {
                    Some(t) => e.tier < t,
                    None => true,
                };
                if lower {
                    best = Some(e.tier);
                }
            }
            i += 1;
        }
        if let Some(t) = best {
            proof {
                let j = choose|j: int|
                    0 <= j < i && #[trigger] lists(j, kind, ext@) && manifest_row(j).tier == t;
                assert(lists(j, kind, ext@));
            }
            return ThumbRoute { tier: t };
        }
    }
    let tier: u8 = match kind {
        FileKind::Archive | FileKind::Text | FileKind::Binary | FileKind::Unknown => 1,
        FileKind::Image => 1,
        FileKind::Vector | FileKind::Video | FileKind::Audio | FileKind::Document => 2,
        FileKind::Geometry => 3,
    };
    ThumbRoute { tier }
}

/// Every manifest entry names one of the three tiers.
#[verifier::rlimit(40)]
pub proof fn law_manifest_tiers(i: int)
    requires
        0 <= i < FORMAT_COUNT,
    ensures
        1 <= manifest_row(i).tier <= 3,
{
    reveal(manifest_row);
}

/// Every item is routed to one of the three tiers, and to one tier only.
pub proof fn law_route_tier(kind: FileKind, ext: Option<Seq<char>>, a: u8, b: u8)
    requires
        routes_to(kind, ext, a),
        routes_to(kind, ext, b),
    ensures
        a == b,
        1 <= a <= 3,
{
    if let Some(e) = ext {
        if exists|i: int| lists(i, kind, e) {
            let i = choose|i: int| #[trigger] lists(i, kind, e) && manifest_row(i).tier == a;
            let j = choose|j: int| #[trigger] lists(j, kind, e) && manifest_row(j).tier == b;
            law_manifest_tiers(i);
            assert(lists(i, kind, e) && lists(j, kind, e));
        }
    }
}

/// The route of a request that skips sniffing: always tier 2.
pub fn bypass() -> (r: ThumbRoute)
    ensures
        r == (ThumbRoute { tier: 2 }),
{
    ThumbRoute { tier: 2 }
}

/// Which extensions tier 3 can handle in this process. Never populated, tier 3
/// is a separate server that is taken to handle everything.
#[derive(Debug)]
pub struct Tier3Registry {
    pub extensions: Option<Vec<String>>,
}

impl Tier3Registry {
    /// Whether tier 3 handles the extension.
    pub open spec fn handles(&self, ext: Seq<char>) -> bool {
        match self.extensions {
            Some(list) => lists_text(list@, ext),
            None => true,
        }
    }

    /// A registry that was never populated.
    pub fn new() -> (r: Tier3Registry)
        ensures
            r.extensions is None,
    {
        Tier3Registry { extensions: None }
    }
}

/// Registers the extensions that tier 3 can handle in this process. An empty
/// list means that it handles nothing.
pub fn set_tier3_available_extensions(registry: &mut Tier3Registry, exts: Vec<String>)
    ensures
        final(registry).extensions == Some(exts),
        forall|e: Seq<char>| final(registry).handles(e) == lists_text(exts@, e),
{
    registry.extensions = Some(exts);
}

/// Whether tier 3 can handle `extension`.
pub fn tier3_can_handle(registry: &Tier3Registry, extension: &str) -> (r: bool)
    ensures
        r == registry.handles(extension@),
{
    match &registry.extensions {
        None => true,
        Some(list) => list_has(list, extension),
    }
}

} // verus!
