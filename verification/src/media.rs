//! Media categories, and the tables between extensions, MIME types and
//! categories.
use vstd::prelude::*;

use crate::text::{owned, same};

verus! {

/// Coarse category of a media source.
#[derive(Clone, Copy, Debug, PartialEq, Eq, Hash, PartialOrd, Ord, Structural)]
pub enum FileKind {
    /// Raster still pixel data.
    Image,
    /// Video with or without audio.
    Video,
    /// Audio only.
    Audio,
    /// Vector graphics.
    Vector,
    /// Rich text and media document.
    Document,
    /// 3-D model or scene.
    Geometry,
    /// Collection of files and directories.
    Archive,
    /// Plain or marked up text.
    Text,
    /// Executable, font, or other binary not in the above categories.
    Binary,
    /// Could not be determined.
    Unknown,
}

impl Default for FileKind {
    fn default() -> (r: FileKind)
        ensures
            r == FileKind::Unknown,
    {
        FileKind::Unknown
    }
}

/// The canonical form of an extension: common aliases are replaced, others stay.
pub open spec fn canonical_ext(raw: Seq<char>) -> Seq<char> {
    if raw == "jpg"@ || raw == "jpe"@ {
        "jpeg"@
    } else if raw == "tif"@ {
        "tiff"@
    } else if raw == "j2k"@ {
        "jp2"@
    } else if raw == "sxr"@ || raw == "mxr"@ {
        "exr"@
    } else if raw == "rgbe"@ {
        "hdr"@
    } else if raw == "rgb"@ || raw == "rgba"@ || raw == "int"@ || raw == "inta"@ {
        "sgi"@
    } else if raw == "pgm"@ || raw == "ppm"@ || raw == "pfm"@ {
        "pbm"@
    } else if raw == "heics"@ {
        "heic"@
    } else if raw == "heif"@ {
        "heic"@
    } else if raw == "mpg"@ || raw == "mpe"@ {
        "mpeg"@
    } else if raw == "m4v"@ {
        "mp4"@
    } else if raw == "mid"@ {
        "midi"@
    } else if raw == "aifc"@ {
        "aiff"@
    } else if raw == "doc"@ {
        "docx"@
    } else if raw == "xls"@ {
        "xlsx"@
    } else if raw == "xlsm"@ {
        "xlsx"@
    } else if raw == "ppt"@ {
        "pptx"@
    } else if raw == "svg"@ || raw == "svgz"@ {
        "svg"@
    } else if raw == "wrl"@ {
        "vrml"@
    } else if raw == "stp"@ || raw == "stpnc"@ || raw == "p21"@ || raw == "210"@ {
        "step"@
    } else if raw == "igs"@ {
        "iges"@
    } else if raw == "ex2"@ || raw == "e"@ {
        "exo"@
    } else if raw == "usda"@ || raw == "usdc"@ {
        "usd"@
    } else if raw == "crw"@ {
        "cr2"@
    } else if raw == "htm"@ {
        "html"@
    } else {
        raw
    }
}

/// The canonical form of an extension: common aliases are replaced, others stay.
pub fn canonical_extension(raw: &str) -> (r: String)
    ensures
        r@ == canonical_ext(raw@),
        canonical_ext(r@) == r@,
{
    proof {
        law_canonical_once(raw@);
    }
    if same(raw, "jpg") || same(raw, "jpe") {
        return owned("jpeg");
    }
    if same(raw, "tif") {
        return owned("tiff");
    }
    if same(raw, "j2k") {
        return owned("jp2");
    }
    if same(raw, "sxr") || same(raw, "mxr") {
        return owned("exr");
    }
    if same(raw, "rgbe") {
        return owned("hdr");
    }
    if same(raw, "rgb") || same(raw, "rgba") || same(raw, "int") || same(raw, "inta") {
        return owned("sgi");
    }
    if same(raw, "pgm") || same(raw, "ppm") || same(raw, "pfm") {
        return owned("pbm");
    }
    if same(raw, "heics") {
        return owned("heic");
    }
    if same(raw, "heif") {
        return owned("heic");
    }
    if same(raw, "mpg") || same(raw, "mpe") {
        return owned("mpeg");
    }
    if same(raw, "m4v") {
        return owned("mp4");
    }
    if same(raw, "mid") {
        return owned("midi");
    }
    if same(raw, "aifc") {
        return owned("aiff");
    }
    if same(raw, "doc") {
        return owned("docx");
    }
    if same(raw, "xls") {
        return owned("xlsx");
    }
    if same(raw, "xlsm") {
        return owned("xlsx");
    }
    if same(raw, "ppt") {
        return owned("pptx");
    }
    if same(raw, "svg") || same(raw, "svgz") {
        return owned("svg");
    }
    if same(raw, "wrl") {
        return owned("vrml");
    }
    if same(raw, "stp") || same(raw, "stpnc") || same(raw, "p21") || same(raw, "210") {
        return owned("step");
    }
    if same(raw, "igs") {
        return owned("iges");
    }
    if same(raw, "ex2") || same(raw, "e") {
        return owned("exo");
    }
    if same(raw, "usda") || same(raw, "usdc") {
        return owned("usd");
    }
    if same(raw, "crw") {
        return owned("cr2");
    }
    if same(raw, "htm") {
        return owned("html");
    }
    owned(raw)
}

/// Canonical forms stay as they are: naming the canonical form of an extension
/// twice changes nothing more.
pub proof fn law_canonical_once(raw: Seq<char>)
    ensures
        canonical_ext(canonical_ext(raw)) == canonical_ext(raw),
{
    reveal_strlit("210");
    reveal_strlit("aifc");
    reveal_strlit("aiff");
    reveal_strlit("cr2");
    reveal_strlit("crw");
    reveal_strlit("doc");
    reveal_strlit("docx");
    reveal_strlit("e");
    reveal_strlit("ex2");
    reveal_strlit("exo");
    reveal_strlit("exr");
    reveal_strlit("hdr");
    reveal_strlit("heic");
    reveal_strlit("heics");
    reveal_strlit("heif");
    reveal_strlit("htm");
    reveal_strlit("html");
    reveal_strlit("iges");
    reveal_strlit("igs");
    reveal_strlit("int");
    reveal_strlit("inta");
    reveal_strlit("j2k");
    reveal_strlit("jp2");
    reveal_strlit("jpe");
    reveal_strlit("jpeg");
    reveal_strlit("jpg");
    reveal_strlit("m4v");
    reveal_strlit("mid");
    reveal_strlit("midi");
    reveal_strlit("mp4");
    reveal_strlit("mpe");
    reveal_strlit("mpeg");
    reveal_strlit("mpg");
    reveal_strlit("mxr");
    reveal_strlit("p21");
    reveal_strlit("pbm");
    reveal_strlit("pfm");
    reveal_strlit("pgm");
    reveal_strlit("ppm");
    reveal_strlit("ppt");
    reveal_strlit("pptx");
    reveal_strlit("rgb");
    reveal_strlit("rgba");
    reveal_strlit("rgbe");
    reveal_strlit("sgi");
    reveal_strlit("step");
    reveal_strlit("stp");
    reveal_strlit("stpnc");
    reveal_strlit("svg");
    reveal_strlit("svgz");
    reveal_strlit("sxr");
    reveal_strlit("tif");
    reveal_strlit("tiff");
    reveal_strlit("usd");
    reveal_strlit("usda");
    reveal_strlit("usdc");
    reveal_strlit("vrml");
    reveal_strlit("wrl");
    reveal_strlit("xls");
    reveal_strlit("xlsm");
    reveal_strlit("xlsx");
    assert("e"@.len() == 1 && "e"@[0] == 'e');
    assert("210"@.len() == 3 && "210"@[0] == '2' && "210"@[1] == '1' && "210"@[2] == '0');
    assert("cr2"@.len() == 3 && "cr2"@[0] == 'c' && "cr2"@[1] == 'r' && "cr2"@[2] == '2');
    assert("crw"@.len() == 3 && "crw"@[0] == 'c' && "crw"@[1] == 'r' && "crw"@[2] == 'w');
    assert("doc"@.len() == 3 && "doc"@[0] == 'd' && "doc"@[1] == 'o' && "doc"@[2] == 'c');
    assert("ex2"@.len() == 3 && "ex2"@[0] == 'e' && "ex2"@[1] == 'x' && "ex2"@[2] == '2');
    assert("exo"@.len() == 3 && "exo"@[0] == 'e' && "exo"@[1] == 'x' && "exo"@[2] == 'o');
    assert("exr"@.len() == 3 && "exr"@[0] == 'e' && "exr"@[1] == 'x' && "exr"@[2] == 'r');
    assert("hdr"@.len() == 3 && "hdr"@[0] == 'h' && "hdr"@[1] == 'd' && "hdr"@[2] == 'r');
    assert("htm"@.len() == 3 && "htm"@[0] == 'h' && "htm"@[1] == 't' && "htm"@[2] == 'm');
    assert("igs"@.len() == 3 && "igs"@[0] == 'i' && "igs"@[1] == 'g' && "igs"@[2] == 's');
    assert("int"@.len() == 3 && "int"@[0] == 'i' && "int"@[1] == 'n' && "int"@[2] == 't');
    assert("j2k"@.len() == 3 && "j2k"@[0] == 'j' && "j2k"@[1] == '2' && "j2k"@[2] == 'k');
    assert("jp2"@.len() == 3 && "jp2"@[0] == 'j' && "jp2"@[1] == 'p' && "jp2"@[2] == '2');
    assert("jpe"@.len() == 3 && "jpe"@[0] == 'j' && "jpe"@[1] == 'p' && "jpe"@[2] == 'e');
    assert("jpg"@.len() == 3 && "jpg"@[0] == 'j' && "jpg"@[1] == 'p' && "jpg"@[2] == 'g');
    assert("m4v"@.len() == 3 && "m4v"@[0] == 'm' && "m4v"@[1] == '4' && "m4v"@[2] == 'v');
    assert("mid"@.len() == 3 && "mid"@[0] == 'm' && "mid"@[1] == 'i' && "mid"@[2] == 'd');
    assert("mp4"@.len() == 3 && "mp4"@[0] == 'm' && "mp4"@[1] == 'p' && "mp4"@[2] == '4');
    assert("mpe"@.len() == 3 && "mpe"@[0] == 'm' && "mpe"@[1] == 'p' && "mpe"@[2] == 'e');
    assert("mpg"@.len() == 3 && "mpg"@[0] == 'm' && "mpg"@[1] == 'p' && "mpg"@[2] == 'g');
    assert("mxr"@.len() == 3 && "mxr"@[0] == 'm' && "mxr"@[1] == 'x' && "mxr"@[2] == 'r');
    assert("p21"@.len() == 3 && "p21"@[0] == 'p' && "p21"@[1] == '2' && "p21"@[2] == '1');
    assert("pbm"@.len() == 3 && "pbm"@[0] == 'p' && "pbm"@[1] == 'b' && "pbm"@[2] == 'm');
    assert("pfm"@.len() == 3 && "pfm"@[0] == 'p' && "pfm"@[1] == 'f' && "pfm"@[2] == 'm');
    assert("pgm"@.len() == 3 && "pgm"@[0] == 'p' && "pgm"@[1] == 'g' && "pgm"@[2] == 'm');
    assert("ppm"@.len() == 3 && "ppm"@[0] == 'p' && "ppm"@[1] == 'p' && "ppm"@[2] == 'm');
    assert("ppt"@.len() == 3 && "ppt"@[0] == 'p' && "ppt"@[1] == 'p' && "ppt"@[2] == 't');
    assert("rgb"@.len() == 3 && "rgb"@[0] == 'r' && "rgb"@[1] == 'g' && "rgb"@[2] == 'b');
    assert("sgi"@.len() == 3 && "sgi"@[0] == 's' && "sgi"@[1] == 'g' && "sgi"@[2] == 'i');
    assert("stp"@.len() == 3 && "stp"@[0] == 's' && "stp"@[1] == 't' && "stp"@[2] == 'p');
    assert("svg"@.len() == 3 && "svg"@[0] == 's' && "svg"@[1] == 'v' && "svg"@[2] == 'g');
    assert("sxr"@.len() == 3 && "sxr"@[0] == 's' && "sxr"@[1] == 'x' && "sxr"@[2] == 'r');
    assert("tif"@.len() == 3 && "tif"@[0] == 't' && "tif"@[1] == 'i' && "tif"@[2] == 'f');
    assert("usd"@.len() == 3 && "usd"@[0] == 'u' && "usd"@[1] == 's' && "usd"@[2] == 'd');
    assert("wrl"@.len() == 3 && "wrl"@[0] == 'w' && "wrl"@[1] == 'r' && "wrl"@[2] == 'l');
    assert("xls"@.len() == 3 && "xls"@[0] == 'x' && "xls"@[1] == 'l' && "xls"@[2] == 's');
    assert("aifc"@.len() == 4 && "aifc"@[0] == 'a' && "aifc"@[1] == 'i' && "aifc"@[2] == 'f' && "aifc"@[3] == 'c');
    assert("aiff"@.len() == 4 && "aiff"@[0] == 'a' && "aiff"@[1] == 'i' && "aiff"@[2] == 'f' && "aiff"@[3] == 'f');
    assert("docx"@.len() == 4 && "docx"@[0] == 'd' && "docx"@[1] == 'o' && "docx"@[2] == 'c' && "docx"@[3] == 'x');
    assert("heic"@.len() == 4 && "heic"@[0] == 'h' && "heic"@[1] == 'e' && "heic"@[2] == 'i' && "heic"@[3] == 'c');
    assert("heif"@.len() == 4 && "heif"@[0] == 'h' && "heif"@[1] == 'e' && "heif"@[2] == 'i' && "heif"@[3] == 'f');
    assert("html"@.len() == 4 && "html"@[0] == 'h' && "html"@[1] == 't' && "html"@[2] == 'm' && "html"@[3] == 'l');
    assert("iges"@.len() == 4 && "iges"@[0] == 'i' && "iges"@[1] == 'g' && "iges"@[2] == 'e' && "iges"@[3] == 's');
    assert("inta"@.len() == 4 && "inta"@[0] == 'i' && "inta"@[1] == 'n' && "inta"@[2] == 't' && "inta"@[3] == 'a');
    assert("jpeg"@.len() == 4 && "jpeg"@[0] == 'j' && "jpeg"@[1] == 'p' && "jpeg"@[2] == 'e' && "jpeg"@[3] == 'g');
    assert("midi"@.len() == 4 && "midi"@[0] == 'm' && "midi"@[1] == 'i' && "midi"@[2] == 'd' && "midi"@[3] == 'i');
    assert("mpeg"@.len() == 4 && "mpeg"@[0] == 'm' && "mpeg"@[1] == 'p' && "mpeg"@[2] == 'e' && "mpeg"@[3] == 'g');
    assert("pptx"@.len() == 4 && "pptx"@[0] == 'p' && "pptx"@[1] == 'p' && "pptx"@[2] == 't' && "pptx"@[3] == 'x');
    assert("rgba"@.len() == 4 && "rgba"@[0] == 'r' && "rgba"@[1] == 'g' && "rgba"@[2] == 'b' && "rgba"@[3] == 'a');
    assert("rgbe"@.len() == 4 && "rgbe"@[0] == 'r' && "rgbe"@[1] == 'g' && "rgbe"@[2] == 'b' && "rgbe"@[3] == 'e');
    assert("step"@.len() == 4 && "step"@[0] == 's' && "step"@[1] == 't' && "step"@[2] == 'e' && "step"@[3] == 'p');
    assert("svgz"@.len() == 4 && "svgz"@[0] == 's' && "svgz"@[1] == 'v' && "svgz"@[2] == 'g' && "svgz"@[3] == 'z');
    assert("tiff"@.len() == 4 && "tiff"@[0] == 't' && "tiff"@[1] == 'i' && "tiff"@[2] == 'f' && "tiff"@[3] == 'f');
    assert("usda"@.len() == 4 && "usda"@[0] == 'u' && "usda"@[1] == 's' && "usda"@[2] == 'd' && "usda"@[3] == 'a');
    assert("usdc"@.len() == 4 && "usdc"@[0] == 'u' && "usdc"@[1] == 's' && "usdc"@[2] == 'd' && "usdc"@[3] == 'c');
    assert("vrml"@.len() == 4 && "vrml"@[0] == 'v' && "vrml"@[1] == 'r' && "vrml"@[2] == 'm' && "vrml"@[3] == 'l');
    assert("xlsm"@.len() == 4 && "xlsm"@[0] == 'x' && "xlsm"@[1] == 'l' && "xlsm"@[2] == 's' && "xlsm"@[3] == 'm');
    assert("xlsx"@.len() == 4 && "xlsx"@[0] == 'x' && "xlsx"@[1] == 'l' && "xlsx"@[2] == 's' && "xlsx"@[3] == 'x');
    assert("heics"@.len() == 5 && "heics"@[0] == 'h' && "heics"@[1] == 'e' && "heics"@[2] == 'i'
        && "heics"@[3] == 'c' && "heics"@[4] == 's');
    assert("stpnc"@.len() == 5 && "stpnc"@[0] == 's' && "stpnc"@[1] == 't' && "stpnc"@[2] == 'p'
        && "stpnc"@[3] == 'n' && "stpnc"@[4] == 'c');
}

/// The media category that an extension stands for.
pub open spec fn kind_of_ext(ext: Seq<char>) -> FileKind {
    if ext == "jpeg"@ || ext == "png"@ || ext == "gif"@ || ext == "webp"@ || ext == "bmp"@
        || ext == "tiff"@ || ext == "avif"@ || ext == "heic"@ || ext == "exr"@ || ext == "hdr"@
        || ext == "apng"@ || ext == "ico"@ || ext == "xcf"@ || ext == "jxl"@ || ext == "psd"@
        || ext == "pbm"@ || ext == "tga"@ {
        FileKind::Image
    } else if ext == "jp2"@ {
        FileKind::Image
    } else if ext == "sgi"@ || ext == "dpx"@ || ext == "cin"@ || ext == "dds"@ || ext == "fits"@
        || ext == "iff"@ || ext == "pic"@ || ext == "rla"@ || ext == "zfile"@ {
        FileKind::Image
    } else if ext == "dng"@ || ext == "cr2"@ || ext == "nef"@ || ext == "arw"@ || ext == "orf"@
        || ext == "rw2"@ || ext == "pef"@ || ext == "srw"@ || ext == "3fr"@ || ext == "mef"@
        || ext == "rwl"@ || ext == "raf"@ || ext == "fff"@ || ext == "iiq"@ || ext == "raw"@ {
        FileKind::Image
    } else if ext == "svg"@ || ext == "emf"@ || ext == "wmf"@ {
        FileKind::Vector
    } else if ext == "mp4"@ || ext == "mov"@ || ext == "mkv"@ || ext == "avi"@ || ext == "webm"@
        || ext == "mpeg"@ || ext == "ogv"@ || ext == "flv"@ || ext == "ts"@ || ext == "3gp"@
        || ext == "wmv"@ || ext == "m2ts"@ || ext == "mxf"@ || ext == "av1"@ {
        FileKind::Video
    } else if ext == "mp3"@ || ext == "ogg"@ || ext == "flac"@ || ext == "wav"@ || ext == "m4a"@
        || ext == "aac"@ || ext == "midi"@ || ext == "opus"@ || ext == "oga"@ || ext == "weba"@
        || ext == "wma"@ || ext == "aiff"@ {
        FileKind::Audio
    } else if ext == "pdf"@ || ext == "docx"@ || ext == "xlsx"@ || ext == "pptx"@
        || ext == "odt"@ || ext == "doc"@ || ext == "xls"@ || ext == "ppt"@ || ext == "odp"@
        || ext == "ods"@ || ext == "epub"@ || ext == "rtf"@ || ext == "html"@
        || ext == "xhtml"@ {
        FileKind::Document
    } else if ext == "usdz"@ || ext == "usd"@ || ext == "glb"@ || ext == "gltf"@
        || ext == "obj"@ || ext == "stl"@ || ext == "fbx"@ || ext == "dae"@ || ext == "dxf"@
        || ext == "off"@ || ext == "3ds"@ || ext == "gml"@ || ext == "ply"@ || ext == "pts"@
        || ext == "vrml"@ || ext == "vtk"@ || ext == "vtu"@ || ext == "vtp"@ || ext == "vti"@
        || ext == "vtr"@ || ext == "vts"@ || ext == "vtm"@ || ext == "step"@ || ext == "iges"@
        || ext == "brep"@ || ext == "exo"@ {
        FileKind::Geometry
    } else if ext == "zip"@ || ext == "tar"@ || ext == "gz"@ || ext == "bz2"@ || ext == "xz"@
        || ext == "rar"@ || ext == "7z"@ {
        FileKind::Archive
    } else if ext == "xml"@ || ext == "json"@ || ext == "txt"@ || ext == "csv"@ || ext == "md"@ {
        FileKind::Text
    } else {
        FileKind::Unknown
    }
}

/// The media category that an extension stands for.
pub fn ext_to_kind(ext: &str) -> (r: FileKind)
    ensures
        r == kind_of_ext(ext@),
{
    if same(ext, "jpeg") || same(ext, "png") || same(ext, "gif") || same(ext, "webp")
        || same(ext, "bmp") || same(ext, "tiff") || same(ext, "avif") || same(ext, "heic")
        || same(ext, "exr") || same(ext, "hdr") || same(ext, "apng") || same(ext, "ico")
        || same(ext, "xcf") || same(ext, "jxl") || same(ext, "psd") || same(ext, "pbm")
        || same(ext, "tga") {
        return FileKind::Image;
    }
    if same(ext, "jp2") {
        return FileKind::Image;
    }
    if same(ext, "sgi") || same(ext, "dpx") || same(ext, "cin") || same(ext, "dds")
        || same(ext, "fits") || same(ext, "iff") || same(ext, "pic") || same(ext, "rla")
        || same(ext, "zfile") {
        return FileKind::Image;
    }
    if same(ext, "dng") || same(ext, "cr2") || same(ext, "nef") || same(ext, "arw")
        || same(ext, "orf") || same(ext, "rw2") || same(ext, "pef") || same(ext, "srw")
        || same(ext, "3fr") || same(ext, "mef") || same(ext, "rwl") || same(ext, "raf")
        || same(ext, "fff") || same(ext, "iiq") || same(ext, "raw") {
        return FileKind::Image;
    }
    if same(ext, "svg") || same(ext, "emf") || same(ext, "wmf") {
        return FileKind::Vector;
    }
    if same(ext, "mp4") || same(ext, "mov") || same(ext, "mkv") || same(ext, "avi")
        || same(ext, "webm") || same(ext, "mpeg") || same(ext, "ogv") || same(ext, "flv")
        || same(ext, "ts") || same(ext, "3gp") || same(ext, "wmv") || same(ext, "m2ts")
        || same(ext, "mxf") || same(ext, "av1") {
        return FileKind::Video;
    }
    if same(ext, "mp3") || same(ext, "ogg") || same(ext, "flac") || same(ext, "wav")
        || same(ext, "m4a") || same(ext, "aac") || same(ext, "midi") || same(ext, "opus")
        || same(ext, "oga") || same(ext, "weba") || same(ext, "wma") || same(ext, "aiff") {
        return FileKind::Audio;
    }
    if same(ext, "pdf") || same(ext, "docx") || same(ext, "xlsx") || same(ext, "pptx")
        || same(ext, "odt") || same(ext, "doc") || same(ext, "xls") || same(ext, "ppt")
        || same(ext, "odp") || same(ext, "ods") || same(ext, "epub") || same(ext, "rtf")
        || same(ext, "html") || same(ext, "xhtml") {
        return FileKind::Document;
    }
    if same(ext, "usdz") || same(ext, "usd") || same(ext, "glb") || same(ext, "gltf")
        || same(ext, "obj") || same(ext, "stl") || same(ext, "fbx") || same(ext, "dae")
        || same(ext, "dxf") || same(ext, "off") || same(ext, "3ds") || same(ext, "gml")
        || same(ext, "ply") || same(ext, "pts") || same(ext, "vrml") || same(ext, "vtk")
        || same(ext, "vtu") || same(ext, "vtp") || same(ext, "vti") || same(ext, "vtr")
        || same(ext, "vts") || same(ext, "vtm") || same(ext, "step") || same(ext, "iges")
        || same(ext, "brep") || same(ext, "exo") {
        return FileKind::Geometry;
    }
    if same(ext, "zip") || same(ext, "tar") || same(ext, "gz") || same(ext, "bz2")
        || same(ext, "xz") || same(ext, "rar") || same(ext, "7z") {
        return FileKind::Archive;
    }
    if same(ext, "xml") || same(ext, "json") || same(ext, "txt") || same(ext, "csv")
        || same(ext, "md") {
        return FileKind::Text;
    }
    FileKind::Unknown
}

/// Best-guess extension for a MIME type.
pub open spec fn ext_of_mime(mime: Seq<char>) -> Seq<char> {
    if mime == "image/jpeg"@ {
        "jpeg"@
    } else if mime == "image/png"@ {
        "png"@
    } else if mime == "image/gif"@ {
        "gif"@
    } else if mime == "image/webp"@ {
        "webp"@
    } else if mime == "image/bmp"@ {
        "bmp"@
    } else if mime == "image/tiff"@ {
        "tiff"@
    } else if mime == "image/avif"@ {
        "avif"@
    } else if mime == "image/heic"@ {
        "heic"@
    } else if mime == "image/heif"@ {
        "heic"@
    } else if mime == "image/svg+xml"@ {
        "svg"@
    } else if mime == "image/emf"@ {
        "emf"@
    } else if mime == "image/x-xcf"@ {
        "xcf"@
    } else if mime == "image/apng"@ {
        "apng"@
    } else if mime == "image/vnd.microsoft.icon"@ {
        "ico"@
    } else if mime == "image/jxl"@ {
        "jxl"@
    } else if mime == "image/vnd.adobe.photoshop"@ {
        "psd"@
    } else if mime == "image/jp2"@ {
        "jp2"@
    } else if mime == "video/mp4"@ {
        "mp4"@
    } else if mime == "video/quicktime"@ {
        "mov"@
    } else if mime == "video/webm"@ {
        "webm"@
    } else if mime == "video/mpeg"@ {
        "mpeg"@
    } else if mime == "video/ogg"@ {
        "ogv"@
    } else if mime == "video/x-flv"@ {
        "flv"@
    } else if mime == "video/mp2t"@ {
        "ts"@
    } else if mime == "video/3gpp"@ {
        "3gp"@
    } else if mime == "video/x-ms-wmv"@ {
        "wmv"@
    } else if mime == "video/mxf"@ {
        "mxf"@
    } else if mime == "video/av1"@ {
        "av1"@
    } else if mime == "audio/mpeg"@ {
        "mp3"@
    } else if mime == "audio/ogg"@ {
        "ogg"@
    } else if mime == "audio/flac"@ {
        "flac"@
    } else if mime == "audio/wav"@ {
        "wav"@
    } else if mime == "audio/mp4"@ {
        "m4a"@
    } else if mime == "audio/aac"@ {
        "aac"@
    } else if mime == "audio/midi"@ || mime == "audio/x-midi"@ {
        "midi"@
    } else if mime == "audio/webm"@ {
        "weba"@
    } else if mime == "audio/x-ms-wma"@ {
        "wma"@
    } else if mime == "audio/aiff"@ {
        "aiff"@
    } else if mime == "application/pdf"@ {
        "pdf"@
    } else if mime == "application/zip"@ {
        "zip"@
    } else if mime == "application/gzip"@ {
        "gz"@
    } else if mime == "application/vnd.openxmlformats-officedocument.wordprocessingml.document"@ {
        "docx"@
    } else if mime == "application/vnd.openxmlformats-officedocument.spreadsheetml.sheet"@ {
        "xlsx"@
    } else if mime == "application/vnd.openxmlformats-officedocument.presentationml.presentation"@ {
        "pptx"@
    } else if mime == "application/vnd.oasis.opendocument.text"@ {
        "odt"@
    } else if mime == "application/vnd.oasis.opendocument.presentation"@ {
        "odp"@
    } else if mime == "application/vnd.oasis.opendocument.spreadsheet"@ {
        "ods"@
    } else if mime == "application/msword"@ {
        "doc"@
    } else if mime == "application/vnd.ms-excel"@ {
        "xls"@
    } else if mime == "application/vnd.ms-powerpoint"@ {
        "ppt"@
    } else if mime == "application/epub+zip"@ {
        "epub"@
    } else if mime == "application/rtf"@ {
        "rtf"@
    } else if mime == "model/vnd.usdz+zip"@ {
        "usdz"@
    } else if mime == "model/gltf-binary"@ {
        "glb"@
    } else if mime == "model/gltf+json"@ {
        "gltf"@
    } else if mime == "model/obj"@ {
        "obj"@
    } else if mime == "application/vnd.fbx"@ {
        "fbx"@
    } else if mime == "model/vnd.collada+xml"@ {
        "dae"@
    } else if mime == "model/stl"@ {
        "stl"@
    } else if mime == "text/html"@ {
        "html"@
    } else if mime == "text/xml"@ {
        "xml"@
    } else if mime == "text/plain"@ {
        "txt"@
    } else if mime == "text/csv"@ {
        "csv"@
    } else if mime == "text/markdown"@ {
        "md"@
    } else if mime == "application/json"@ {
        "json"@
    } else {
        "bin"@
    }
}

/// Best-guess extension for a MIME type.
pub fn mime_to_extension(mime: &str) -> (r: &'static str)
    ensures
        r@ == ext_of_mime(mime@),
{
    if same(mime, "image/jpeg") {
        return "jpeg";
    }
    if same(mime, "image/png") {
        return "png";
    }
    if same(mime, "image/gif") {
        return "gif";
    }
    if same(mime, "image/webp") {
        return "webp";
    }
    if same(mime, "image/bmp") {
        return "bmp";
    }
    if same(mime, "image/tiff") {
        return "tiff";
    }
    if same(mime, "image/avif") {
        return "avif";
    }
    if same(mime, "image/heic") {
        return "heic";
    }
    if same(mime, "image/heif") {
        return "heic";
    }
    if same(mime, "image/svg+xml") {
        return "svg";
    }
    if same(mime, "image/emf") {
        return "emf";
    }
    if same(mime, "image/x-xcf") {
        return "xcf";
    }
    if same(mime, "image/apng") {
        return "apng";
    }
    if same(mime, "image/vnd.microsoft.icon") {
        return "ico";
    }
    if same(mime, "image/jxl") {
        return "jxl";
    }
    if same(mime, "image/vnd.adobe.photoshop") {
        return "psd";
    }
    if same(mime, "image/jp2") {
        return "jp2";
    }
    if same(mime, "video/mp4") {
        return "mp4";
    }
    if same(mime, "video/quicktime") {
        return "mov";
    }
    if same(mime, "video/webm") {
        return "webm";
    }
    if same(mime, "video/mpeg") {
        return "mpeg";
    }
    if same(mime, "video/ogg") {
        return "ogv";
    }
    if same(mime, "video/x-flv") {
        return "flv";
    }
    if same(mime, "video/mp2t") {
        return "ts";
    }
    if same(mime, "video/3gpp") {
        return "3gp";
    }
    if same(mime, "video/x-ms-wmv") {
        return "wmv";
    }
    if same(mime, "video/mxf") {
        return "mxf";
    }
    if same(mime, "video/av1") {
        return "av1";
    }
    if same(mime, "audio/mpeg") {
        return "mp3";
    }
    if same(mime, "audio/ogg") {
        return "ogg";
    }
    if same(mime, "audio/flac") {
        return "flac";
    }
    if same(mime, "audio/wav") {
        return "wav";
    }
    if same(mime, "audio/mp4") {
        return "m4a";
    }
    if same(mime, "audio/aac") {
        return "aac";
    }
    if same(mime, "audio/midi") || same(mime, "audio/x-midi") {
        return "midi";
    }
    if same(mime, "audio/webm") {
        return "weba";
    }
    if same(mime, "audio/x-ms-wma") {
        return "wma";
    }
    if same(mime, "audio/aiff") {
        return "aiff";
    }
    if same(mime, "application/pdf") {
        return "pdf";
    }
    if same(mime, "application/zip") {
        return "zip";
    }
    if same(mime, "application/gzip") {
        return "gz";
    }
    if same(mime, "application/vnd.openxmlformats-officedocument.wordprocessingml.document") {
        return "docx";
    }
    if same(mime, "application/vnd.openxmlformats-officedocument.spreadsheetml.sheet") {
        return "xlsx";
    }
    if same(mime, "application/vnd.openxmlformats-officedocument.presentationml.presentation") {
        return "pptx";
    }
    if same(mime, "application/vnd.oasis.opendocument.text") {
        return "odt";
    }
    if same(mime, "application/vnd.oasis.opendocument.presentation") {
        return "odp";
    }
    if same(mime, "application/vnd.oasis.opendocument.spreadsheet") {
        return "ods";
    }
    if same(mime, "application/msword") {
        return "doc";
    }
    if same(mime, "application/vnd.ms-excel") {
        return "xls";
    }
    if same(mime, "application/vnd.ms-powerpoint") {
        return "ppt";
    }
    if same(mime, "application/epub+zip") {
        return "epub";
    }
    if same(mime, "application/rtf") {
        return "rtf";
    }
    if same(mime, "model/vnd.usdz+zip") {
        return "usdz";
    }
    if same(mime, "model/gltf-binary") {
        return "glb";
    }
    if same(mime, "model/gltf+json") {
        return "gltf";
    }
    if same(mime, "model/obj") {
        return "obj";
    }
    if same(mime, "application/vnd.fbx") {
        return "fbx";
    }
    if same(mime, "model/vnd.collada+xml") {
        return "dae";
    }
    if same(mime, "model/stl") {
        return "stl";
    }
    if same(mime, "text/html") {
        return "html";
    }
    if same(mime, "text/xml") {
        return "xml";
    }
    if same(mime, "text/plain") {
        return "txt";
    }
    if same(mime, "text/csv") {
        return "csv";
    }
    if same(mime, "text/markdown") {
        return "md";
    }
    if same(mime, "application/json") {
        return "json";
    }
    "bin"
}

/// The MIME type that an extension stands for.
pub open spec fn mime_of_ext(ext: Seq<char>) -> Seq<char> {
    if ext == "jpeg"@ {
        "image/jpeg"@
    } else if ext == "png"@ {
        "image/png"@
    } else if ext == "gif"@ {
        "image/gif"@
    } else if ext == "webp"@ {
        "image/webp"@
    } else if ext == "bmp"@ {
        "image/bmp"@
    } else if ext == "tiff"@ {
        "image/tiff"@
    } else if ext == "avif"@ {
        "image/avif"@
    } else if ext == "heic"@ {
        "image/heic"@
    } else if ext == "exr"@ {
        "image/x-exr"@
    } else if ext == "hdr"@ {
        "image/vnd.radiance"@
    } else if ext == "jxl"@ {
        "image/jxl"@
    } else if ext == "psd"@ {
        "image/vnd.adobe.photoshop"@
    } else if ext == "jp2"@ {
        "image/jp2"@
    } else if ext == "pbm"@ {
        "image/x-portable-bitmap"@
    } else if ext == "tga"@ {
        "image/x-tga"@
    } else if ext == "xcf"@ {
        "image/x-xcf"@
    } else if ext == "sgi"@ {
        "image/x-sgi"@
    } else if ext == "dpx"@ {
        "image/x-dpx"@
    } else if ext == "cin"@ {
        "image/x-cineon"@
    } else if ext == "dds"@ {
        "image/vnd-ms.dds"@
    } else if ext == "fits"@ {
        "image/fits"@
    } else if ext == "iff"@ {
        "image/x-iff"@
    } else if ext == "dng"@ {
        "image/x-adobe-dng"@
    } else if ext == "cr2"@ {
        "image/x-canon-cr2"@
    } else if ext == "nef"@ {
        "image/x-nikon-nef"@
    } else if ext == "arw"@ {
        "image/x-sony-arw"@
    } else if ext == "orf"@ {
        "image/x-olympus-orf"@
    } else if ext == "rw2"@ {
        "image/x-panasonic-rw2"@
    } else if ext == "pef"@ {
        "image/x-pentax-pef"@
    } else if ext == "srw"@ {
        "image/x-samsung-srw"@
    } else if ext == "3fr"@ {
        "image/x-hasselblad-3fr"@
    } else if ext == "mef"@ {
        "image/x-mamiya-mef"@
    } else if ext == "rwl"@ {
        "image/x-leica-rwl"@
    } else if ext == "raf"@ {
        "image/x-fuji-raf"@
    } else if ext == "fff"@ {
        "image/x-hasselblad-fff"@
    } else if ext == "iiq"@ {
        "image/x-phaseone-iiq"@
    } else if ext == "raw"@ {
        "image/x-raw"@
    } else if ext == "svg"@ {
        "image/svg+xml"@
    } else if ext == "emf"@ {
        "image/emf"@
    } else if ext == "wmf"@ {
        "image/wmf"@
    } else if ext == "apng"@ {
        "image/apng"@
    } else if ext == "ico"@ {
        "image/vnd.microsoft.icon"@
    } else if ext == "mp4"@ {
        "video/mp4"@
    } else if ext == "mov"@ {
        "video/quicktime"@
    } else if ext == "mkv"@ {
        "video/x-matroska"@
    } else if ext == "avi"@ {
        "video/x-msvideo"@
    } else if ext == "webm"@ {
        "video/webm"@
    } else if ext == "mpeg"@ {
        "video/mpeg"@
    } else if ext == "ogv"@ {
        "video/ogg"@
    } else if ext == "flv"@ {
        "video/x-flv"@
    } else if ext == "ts"@ {
        "video/mp2t"@
    } else if ext == "3gp"@ {
        "video/3gpp"@
    } else if ext == "wmv"@ {
        "video/x-ms-wmv"@
    } else if ext == "m2ts"@ {
        "video/mp2t"@
    } else if ext == "mxf"@ {
        "video/mxf"@
    } else if ext == "av1"@ {
        "video/av1"@
    } else if ext == "mp3"@ {
        "audio/mpeg"@
    } else if ext == "ogg"@ {
        "audio/ogg"@
    } else if ext == "flac"@ {
        "audio/flac"@
    } else if ext == "wav"@ {
        "audio/wav"@
    } else if ext == "m4a"@ {
        "audio/mp4"@
    } else if ext == "aac"@ {
        "audio/aac"@
    } else if ext == "midi"@ {
        "audio/midi"@
    } else if ext == "opus"@ {
        "audio/ogg"@
    } else if ext == "oga"@ {
        "audio/ogg"@
    } else if ext == "weba"@ {
        "audio/webm"@
    } else if ext == "wma"@ {
        "audio/x-ms-wma"@
    } else if ext == "aiff"@ {
        "audio/aiff"@
    } else if ext == "pdf"@ {
        "application/pdf"@
    } else if ext == "docx"@ {
        "application/vnd.openxmlformats-officedocument.wordprocessingml.document"@
    } else if ext == "xlsx"@ {
        "application/vnd.openxmlformats-officedocument.spreadsheetml.sheet"@
    } else if ext == "pptx"@ {
        "application/vnd.openxmlformats-officedocument.presentationml.presentation"@
    } else if ext == "odt"@ {
        "application/vnd.oasis.opendocument.text"@
    } else if ext == "odp"@ {
        "application/vnd.oasis.opendocument.presentation"@
    } else if ext == "ods"@ {
        "application/vnd.oasis.opendocument.spreadsheet"@
    } else if ext == "doc"@ {
        "application/msword"@
    } else if ext == "xls"@ {
        "application/vnd.ms-excel"@
    } else if ext == "ppt"@ {
        "application/vnd.ms-powerpoint"@
    } else if ext == "epub"@ {
        "application/epub+zip"@
    } else if ext == "rtf"@ {
        "application/rtf"@
    } else if ext == "html"@ {
        "text/html"@
    } else if ext == "xhtml"@ {
        "application/xhtml+xml"@
    } else if ext == "zip"@ {
        "application/zip"@
    } else if ext == "tar"@ {
        "application/x-tar"@
    } else if ext == "gz"@ {
        "application/gzip"@
    } else if ext == "rar"@ {
        "application/vnd.rar"@
    } else if ext == "7z"@ {
        "application/x-7z-compressed"@
    } else if ext == "xml"@ {
        "text/xml"@
    } else if ext == "json"@ {
        "application/json"@
    } else if ext == "txt"@ {
        "text/plain"@
    } else if ext == "csv"@ {
        "text/csv"@
    } else if ext == "md"@ {
        "text/markdown"@
    } else if ext == "usdz"@ {
        "model/vnd.usdz+zip"@
    } else if ext == "usd"@ {
        "model/vnd.usdz+zip"@
    } else if ext == "glb"@ {
        "model/gltf-binary"@
    } else if ext == "gltf"@ {
        "model/gltf+json"@
    } else if ext == "obj"@ {
        "model/obj"@
    } else if ext == "fbx"@ {
        "application/vnd.fbx"@
    } else if ext == "dae"@ {
        "model/vnd.collada+xml"@
    } else if ext == "stl"@ {
        "model/stl"@
    } else if ext == "vrml"@ {
        "model/vrml"@
    } else if ext == "step"@ {
        "model/step"@
    } else if ext == "iges"@ {
        "model/iges"@
    } else {
        "application/octet-stream"@
    }
}

/// The MIME type that an extension stands for.
pub fn ext_to_mime(ext: &str) -> (r: &'static str)
    ensures
        r@ == mime_of_ext(ext@),
{
    if same(ext, "jpeg") {
        return "image/jpeg";
    }
    if same(ext, "png") {
        return "image/png";
    }
    if same(ext, "gif") {
        return "image/gif";
    }
    if same(ext, "webp") {
        return "image/webp";
    }
    if same(ext, "bmp") {
        return "image/bmp";
    }
    if same(ext, "tiff") {
        return "image/tiff";
    }
    if same(ext, "avif") {
        return "image/avif";
    }
    if same(ext, "heic") {
        return "image/heic";
    }
    if same(ext, "exr") {
        return "image/x-exr";
    }
    if same(ext, "hdr") {
        return "image/vnd.radiance";
    }
    if same(ext, "jxl") {
        return "image/jxl";
    }
    if same(ext, "psd") {
        return "image/vnd.adobe.photoshop";
    }
    if same(ext, "jp2") {
        return "image/jp2";
    }
    if same(ext, "pbm") {
        return "image/x-portable-bitmap";
    }
    if same(ext, "tga") {
        return "image/x-tga";
    }
    if same(ext, "xcf") {
        return "image/x-xcf";
    }
    if same(ext, "sgi") {
        return "image/x-sgi";
    }
    if same(ext, "dpx") {
        return "image/x-dpx";
    }
    if same(ext, "cin") {
        return "image/x-cineon";
    }
    if same(ext, "dds") {
        return "image/vnd-ms.dds";
    }
    if same(ext, "fits") {
        return "image/fits";
    }
    if same(ext, "iff") {
        return "image/x-iff";
    }
    if same(ext, "dng") {
        return "image/x-adobe-dng";
    }
    if same(ext, "cr2") {
        return "image/x-canon-cr2";
    }
    if same(ext, "nef") {
        return "image/x-nikon-nef";
    }
    if same(ext, "arw") {
        return "image/x-sony-arw";
    }
    if same(ext, "orf") {
        return "image/x-olympus-orf";
    }
    if same(ext, "rw2") {
        return "image/x-panasonic-rw2";
    }
    if same(ext, "pef") {
        return "image/x-pentax-pef";
    }
    if same(ext, "srw") {
        return "image/x-samsung-srw";
    }
    if same(ext, "3fr") {
        return "image/x-hasselblad-3fr";
    }
    if same(ext, "mef") {
        return "image/x-mamiya-mef";
    }
    if same(ext, "rwl") {
        return "image/x-leica-rwl";
    }
    if same(ext, "raf") {
        return "image/x-fuji-raf";
    }
    if same(ext, "fff") {
        return "image/x-hasselblad-fff";
    }
    if same(ext, "iiq") {
        return "image/x-phaseone-iiq";
    }
    if same(ext, "raw") {
        return "image/x-raw";
    }
    if same(ext, "svg") {
        return "image/svg+xml";
    }
    if same(ext, "emf") {
        return "image/emf";
    }
    if same(ext, "wmf") {
        return "image/wmf";
    }
    if same(ext, "apng") {
        return "image/apng";
    }
    if same(ext, "ico") {
        return "image/vnd.microsoft.icon";
    }
    if same(ext, "mp4") {
        return "video/mp4";
    }
    if same(ext, "mov") {
        return "video/quicktime";
    }
    if same(ext, "mkv") {
        return "video/x-matroska";
    }
    if same(ext, "avi") {
        return "video/x-msvideo";
    }
    if same(ext, "webm") {
        return "video/webm";
    }
    if same(ext, "mpeg") {
        return "video/mpeg";
    }
    if same(ext, "ogv") {
        return "video/ogg";
    }
    if same(ext, "flv") {
        return "video/x-flv";
    }
    if same(ext, "ts") {
        return "video/mp2t";
    }
    if same(ext, "3gp") {
        return "video/3gpp";
    }
    if same(ext, "wmv") {
        return "video/x-ms-wmv";
    }
    if same(ext, "m2ts") {
        return "video/mp2t";
    }
    if same(ext, "mxf") {
        return "video/mxf";
    }
    if same(ext, "av1") {
        return "video/av1";
    }
    if same(ext, "mp3") {
        return "audio/mpeg";
    }
    if same(ext, "ogg") {
        return "audio/ogg";
    }
    if same(ext, "flac") {
        return "audio/flac";
    }
    if same(ext, "wav") {
        return "audio/wav";
    }
    if same(ext, "m4a") {
        return "audio/mp4";
    }
    if same(ext, "aac") {
        return "audio/aac";
    }
    if same(ext, "midi") {
        return "audio/midi";
    }
    if same(ext, "opus") {
        return "audio/ogg";
    }
    if same(ext, "oga") {
        return "audio/ogg";
    }
    if same(ext, "weba") {
        return "audio/webm";
    }
    if same(ext, "wma") {
        return "audio/x-ms-wma";
    }
    if same(ext, "aiff") {
        return "audio/aiff";
    }
    if same(ext, "pdf") {
        return "application/pdf";
    }
    if same(ext, "docx") {
        return "application/vnd.openxmlformats-officedocument.wordprocessingml.document";
    }
    if same(ext, "xlsx") {
        return "application/vnd.openxmlformats-officedocument.spreadsheetml.sheet";
    }
    if same(ext, "pptx") {
        return "application/vnd.openxmlformats-officedocument.presentationml.presentation";
    }
    if same(ext, "odt") {
        return "application/vnd.oasis.opendocument.text";
    }
    if same(ext, "odp") {
        return "application/vnd.oasis.opendocument.presentation";
    }
    if same(ext, "ods") {
        return "application/vnd.oasis.opendocument.spreadsheet";
    }
    if same(ext, "doc") {
        return "application/msword";
    }
    if same(ext, "xls") {
        return "application/vnd.ms-excel";
    }
    if same(ext, "ppt") {
        return "application/vnd.ms-powerpoint";
    }
    if same(ext, "epub") {
        return "application/epub+zip";
    }
    if same(ext, "rtf") {
        return "application/rtf";
    }
    if same(ext, "html") {
        return "text/html";
    }
    if same(ext, "xhtml") {
        return "application/xhtml+xml";
    }
    if same(ext, "zip") {
        return "application/zip";
    }
    if same(ext, "tar") {
        return "application/x-tar";
    }
    if same(ext, "gz") {
        return "application/gzip";
    }
    if same(ext, "rar") {
        return "application/vnd.rar";
    }
    if same(ext, "7z") {
        return "application/x-7z-compressed";
    }
    if same(ext, "xml") {
        return "text/xml";
    }
    if same(ext, "json") {
        return "application/json";
    }
    if same(ext, "txt") {
        return "text/plain";
    }
    if same(ext, "csv") {
        return "text/csv";
    }
    if same(ext, "md") {
        return "text/markdown";
    }
    if same(ext, "usdz") {
        return "model/vnd.usdz+zip";
    }
    if same(ext, "usd") {
        return "model/vnd.usdz+zip";
    }
    if same(ext, "glb") {
        return "model/gltf-binary";
    }
    if same(ext, "gltf") {
        return "model/gltf+json";
    }
    if same(ext, "obj") {
        return "model/obj";
    }
    if same(ext, "fbx") {
        return "application/vnd.fbx";
    }
    if same(ext, "dae") {
        return "model/vnd.collada+xml";
    }
    if same(ext, "stl") {
        return "model/stl";
    }
    if same(ext, "vrml") {
        return "model/vrml";
    }
    if same(ext, "step") {
        return "model/step";
    }
    if same(ext, "iges") {
        return "model/iges";
    }
    "application/octet-stream"
}

} // verus!
