//! What the tables of extensions, MIME types and formats agree on.
use vstd::prelude::*;

use crate::dispatch::{manifest_row, FORMAT_COUNT};
use crate::inspect::kind_of_mime;
use crate::media::{canonical_ext, ext_of_mime, kind_of_ext, mime_of_ext, FileKind};
use crate::text::has_prefix;

verus! {

/// The character at `i` as a number other than 0, and 0 behind the end.
spec fn digit(s: Seq<char>, i: int) -> int {
    if i < s.len() {
        s[i] as int + 1
    } else {
        0
    }
}

/// A number that tells the extensions of the tables apart, of which none is longer
/// than five characters.
spec fn ext_code(s: Seq<char>) -> int {
    digit(s, 0) + 256 * digit(s, 1) + 65536 * digit(s, 2) + 16777216 * digit(s, 3) + 4294967296
        * digit(s, 4)
}

/// A number that tells the MIME types of the tables apart.
spec fn mime_code(s: Seq<char>) -> int {
    s.len() + 256 * (s[0] as int) + 65536 * (s[6] as int) + 16777216 * (s[s.len() - 3] as int)
        + 4294967296 * (s[s.len() - 1] as int)
}

/// The numbers of all extensions.
#[verifier::rlimit(60)]
proof fn lemma_ext_codes()
    ensures
        ext_code("210"@) == 3224115,
        ext_code("3ds"@) == 7628084,
        ext_code("3fr"@) == 7563060,
        ext_code("3gp"@) == 7432244,
        ext_code("7z"@) == 31544,
        ext_code("aac"@) == 6578786,
        ext_code("aifc"@) == 1684499042,
        ext_code("aiff"@) == 1734830690,
        ext_code("apng"@) == 1752133986,
        ext_code("arw"@) == 7893858,
        ext_code("av1"@) == 3307362,
        ext_code("avi"@) == 6977378,
        ext_code("avif"@) == 1735030626,
        ext_code("bin"@) == 7301731,
        ext_code("bmp"@) == 7433827,
        ext_code("brep"@) == 1902539619,
        ext_code("bz2"@) == 3373923,
        ext_code("cin"@) == 7301732,
        ext_code("cr2"@) == 3371876,
        ext_code("crw"@) == 7893860,
        ext_code("csv"@) == 7828580,
        ext_code("dae"@) == 6709861,
        ext_code("dcm"@) == 7234661,
        ext_code("dds"@) == 7628133,
        ext_code("dng"@) == 6844261,
        ext_code("doc"@) == 6582373,
        ext_code("docx"@) == 2036625509,
        ext_code("dpx"@) == 7958885,
        ext_code("dxf"@) == 6781285,
        ext_code("e"@) == 102,
        ext_code("emf"@) == 6778470,
        ext_code("epub"@) == 1668706662,
        ext_code("ex2"@) == 3373414,
        ext_code("exo"@) == 7371110,
        ext_code("exr"@) == 7567718,
        ext_code("fbx"@) == 7955303,
        ext_code("fff"@) == 6776679,
        ext_code("fits"@) == 1953852007,
        ext_code("flac"@) == 1684172135,
        ext_code("flv"@) == 7826791,
        ext_code("gif"@) == 6777448,
        ext_code("glb"@) == 6516072,
        ext_code("gltf"@) == 1735748968,
        ext_code("gml"@) == 7171688,
        ext_code("gz"@) == 31592,
        ext_code("hdr"@) == 7562601,
        ext_code("heic"@) == 1684694633,
        ext_code("heics"@) == 499900900969,
        ext_code("heif"@) == 1735026281,
        ext_code("htm"@) == 7239017,
        ext_code("html"@) == 1835955561,
        ext_code("ico"@) == 7365738,
        ext_code("iff"@) == 6776682,
        ext_code("iges"@) == 1952868458,
        ext_code("igs"@) == 7628906,
        ext_code("iiq"@) == 7498346,
        ext_code("int"@) == 7696234,
        ext_code("inta"@) == 1651863402,
        ext_code("j2k"@) == 7091051,
        ext_code("jp2"@) == 3371371,
        ext_code("jpe"@) == 6713707,
        ext_code("jpeg"@) == 1751544171,
        ext_code("jpg"@) == 6844779,
        ext_code("json"@) == 1869640811,
        ext_code("jxl"@) == 7174507,
        ext_code("m2ts"@) == 1953837934,
        ext_code("m4a"@) == 6436206,
        ext_code("m4v"@) == 7812462,
        ext_code("md"@) == 25966,
        ext_code("mef"@) == 6776430,
        ext_code("mid"@) == 6646382,
        ext_code("midi"@) == 1785031278,
        ext_code("mkv"@) == 7826542,
        ext_code("mov"@) == 7827566,
        ext_code("mp3"@) == 3436910,
        ext_code("mp4"@) == 3502446,
        ext_code("mpe"@) == 6713710,
        ext_code("mpeg"@) == 1751544174,
        ext_code("mpg"@) == 6844782,
        ext_code("mxf"@) == 6781294,
        ext_code("mxr"@) == 7567726,
        ext_code("nef"@) == 6776431,
        ext_code("obj"@) == 7037808,
        ext_code("odp"@) == 7431536,
        ext_code("ods"@) == 7628144,
        ext_code("odt"@) == 7693680,
        ext_code("off"@) == 6776688,
        ext_code("oga"@) == 6449264,
        ext_code("ogg"@) == 6842480,
        ext_code("ogv"@) == 7825520,
        ext_code("opus"@) == 1953919344,
        ext_code("orf"@) == 6779760,
        ext_code("p21"@) == 3289969,
        ext_code("pam"@) == 7234161,
        ext_code("pbm"@) == 7234417,
        ext_code("pcx"@) == 7955569,
        ext_code("pdf"@) == 6776177,
        ext_code("pef"@) == 6776433,
        ext_code("pfm"@) == 7235441,
        ext_code("pgm"@) == 7235697,
        ext_code("pic"@) == 6580849,
        ext_code("ply"@) == 8023409,
        ext_code("png"@) == 6844273,
        ext_code("ppm"@) == 7238001,
        ext_code("ppt"@) == 7696753,
        ext_code("pptx"@) == 2037739889,
        ext_code("psd"@) == 6648945,
        ext_code("pts"@) == 7632241,
        ext_code("qoi"@) == 6975602,
        ext_code("raf"@) == 6775411,
        ext_code("rar"@) == 7561843,
        ext_code("raw"@) == 7889523,
        ext_code("rgb"@) == 6514803,
        ext_code("rgba"@) == 1650681971,
        ext_code("rgbe"@) == 1717790835,
        ext_code("rla"@) == 6450547,
        ext_code("rtf"@) == 6780275,
        ext_code("rw2"@) == 3373171,
        ext_code("rwl"@) == 7174259,
        ext_code("sgi"@) == 6973556,
        ext_code("srw"@) == 7893876,
        ext_code("step"@) == 1902540148,
        ext_code("stl"@) == 7173492,
        ext_code("stp"@) == 7435636,
        ext_code("stpnc"@) == 431366436212,
        ext_code("svg"@) == 6846324,
        ext_code("svgz"@) == 2070443892,
        ext_code("sxr"@) == 7567732,
        ext_code("tar"@) == 7561845,
        ext_code("tga"@) == 6449269,
        ext_code("tif"@) == 6777461,
        ext_code("tiff"@) == 1734830709,
        ext_code("ts"@) == 29813,
        ext_code("txt"@) == 7698805,
        ext_code("usd"@) == 6648950,
        ext_code("usda"@) == 1650816118,
        ext_code("usdc"@) == 1684370550,
        ext_code("usdz"@) == 2070246518,
        ext_code("vrml"@) == 1835955063,
        ext_code("vti"@) == 6976887,
        ext_code("vtk"@) == 7107959,
        ext_code("vtm"@) == 7239031,
        ext_code("vtp"@) == 7435639,
        ext_code("vtr"@) == 7566711,
        ext_code("vts"@) == 7632247,
        ext_code("vtu"@) == 7763319,
        ext_code("wav"@) == 7823992,
        ext_code("weba"@) == 1650681464,
        ext_code("webm"@) == 1852008056,
        ext_code("webp"@) == 1902339704,
        ext_code("wma"@) == 6450808,
        ext_code("wmf"@) == 6778488,
        ext_code("wmv"@) == 7827064,
        ext_code("wrl"@) == 7172984,
        ext_code("xbm"@) == 7234425,
        ext_code("xcf"@) == 6775929,
        ext_code("xhtml"@) == 470004623737,
        ext_code("xls"@) == 7630201,
        ext_code("xlsm"@) == 1853123961,
        ext_code("xlsx"@) == 2037673337,
        ext_code("xml"@) == 7171705,
        ext_code("xpm"@) == 7238009,
        ext_code("xwd"@) == 6649977,
        ext_code("xz"@) == 31609,
        ext_code("zfile"@) == 439922354043,
        ext_code("zip"@) == 7432827,
{
    reveal_strlit("210");
    reveal_strlit("3ds");
    reveal_strlit("3fr");
    reveal_strlit("3gp");
    reveal_strlit("7z");
    reveal_strlit("aac");
    reveal_strlit("aifc");
    reveal_strlit("aiff");
    reveal_strlit("apng");
    reveal_strlit("arw");
    reveal_strlit("av1");
    reveal_strlit("avi");
    reveal_strlit("avif");
    reveal_strlit("bin");
    reveal_strlit("bmp");
    reveal_strlit("brep");
    reveal_strlit("bz2");
    reveal_strlit("cin");
    reveal_strlit("cr2");
    reveal_strlit("crw");
    reveal_strlit("csv");
    reveal_strlit("dae");
    reveal_strlit("dcm");
    reveal_strlit("dds");
    reveal_strlit("dng");
    reveal_strlit("doc");
    reveal_strlit("docx");
    reveal_strlit("dpx");
    reveal_strlit("dxf");
    reveal_strlit("e");
    reveal_strlit("emf");
    reveal_strlit("epub");
    reveal_strlit("ex2");
    reveal_strlit("exo");
    reveal_strlit("exr");
    reveal_strlit("fbx");
    reveal_strlit("fff");
    reveal_strlit("fits");
    reveal_strlit("flac");
    reveal_strlit("flv");
    reveal_strlit("gif");
    reveal_strlit("glb");
    reveal_strlit("gltf");
    reveal_strlit("gml");
    reveal_strlit("gz");
    reveal_strlit("hdr");
    reveal_strlit("heic");
    reveal_strlit("heics");
    reveal_strlit("heif");
    reveal_strlit("htm");
    reveal_strlit("html");
    reveal_strlit("ico");
    reveal_strlit("iff");
    reveal_strlit("iges");
    reveal_strlit("igs");
    reveal_strlit("iiq");
    reveal_strlit("int");
    reveal_strlit("inta");
    reveal_strlit("j2k");
    reveal_strlit("jp2");
    reveal_strlit("jpe");
    reveal_strlit("jpeg");
    reveal_strlit("jpg");
    reveal_strlit("json");
    reveal_strlit("jxl");
    reveal_strlit("m2ts");
    reveal_strlit("m4a");
    reveal_strlit("m4v");
    reveal_strlit("md");
    reveal_strlit("mef");
    reveal_strlit("mid");
    reveal_strlit("midi");
    reveal_strlit("mkv");
    reveal_strlit("mov");
    reveal_strlit("mp3");
    reveal_strlit("mp4");
    reveal_strlit("mpe");
    reveal_strlit("mpeg");
    reveal_strlit("mpg");
    reveal_strlit("mxf");
    reveal_strlit("mxr");
    reveal_strlit("nef");
    reveal_strlit("obj");
    reveal_strlit("odp");
    reveal_strlit("ods");
    reveal_strlit("odt");
    reveal_strlit("off");
    reveal_strlit("oga");
    reveal_strlit("ogg");
    reveal_strlit("ogv");
    reveal_strlit("opus");
    reveal_strlit("orf");
    reveal_strlit("p21");
    reveal_strlit("pam");
    reveal_strlit("pbm");
    reveal_strlit("pcx");
    reveal_strlit("pdf");
    reveal_strlit("pef");
    reveal_strlit("pfm");
    reveal_strlit("pgm");
    reveal_strlit("pic");
    reveal_strlit("ply");
    reveal_strlit("png");
    reveal_strlit("ppm");
    reveal_strlit("ppt");
    reveal_strlit("pptx");
    reveal_strlit("psd");
    reveal_strlit("pts");
    reveal_strlit("qoi");
    reveal_strlit("raf");
    reveal_strlit("rar");
    reveal_strlit("raw");
    reveal_strlit("rgb");
    reveal_strlit("rgba");
    reveal_strlit("rgbe");
    reveal_strlit("rla");
    reveal_strlit("rtf");
    reveal_strlit("rw2");
    reveal_strlit("rwl");
    reveal_strlit("sgi");
    reveal_strlit("srw");
    reveal_strlit("step");
    reveal_strlit("stl");
    reveal_strlit("stp");
    reveal_strlit("stpnc");
    reveal_strlit("svg");
    reveal_strlit("svgz");
    reveal_strlit("sxr");
    reveal_strlit("tar");
    reveal_strlit("tga");
    reveal_strlit("tif");
    reveal_strlit("tiff");
    reveal_strlit("ts");
    reveal_strlit("txt");
    reveal_strlit("usd");
    reveal_strlit("usda");
    reveal_strlit("usdc");
    reveal_strlit("usdz");
    reveal_strlit("vrml");
    reveal_strlit("vti");
    reveal_strlit("vtk");
    reveal_strlit("vtm");
    reveal_strlit("vtp");
    reveal_strlit("vtr");
    reveal_strlit("vts");
    reveal_strlit("vtu");
    reveal_strlit("wav");
    reveal_strlit("weba");
    reveal_strlit("webm");
    reveal_strlit("webp");
    reveal_strlit("wma");
    reveal_strlit("wmf");
    reveal_strlit("wmv");
    reveal_strlit("wrl");
    reveal_strlit("xbm");
    reveal_strlit("xcf");
    reveal_strlit("xhtml");
    reveal_strlit("xls");
    reveal_strlit("xlsm");
    reveal_strlit("xlsx");
    reveal_strlit("xml");
    reveal_strlit("xpm");
    reveal_strlit("xwd");
    reveal_strlit("xz");
    reveal_strlit("zfile");
    reveal_strlit("zip");
}

/// The numbers of all MIME types.
#[verifier::rlimit(60)]
proof fn lemma_mime_codes()
    ensures
        mime_code("application/epub+zip"@) == 483089539348,
        mime_code("application/gzip"@) == 483089539344,
        mime_code("application/json"@) == 474382164240,
        mime_code("application/msword"@) == 431365382418,
        mime_code("application/octet-stream"@) == 469852315928,
        mime_code("application/pdf"@) == 439972094223,
        mime_code("application/rtf"@) == 440005648655,
        mime_code("application/vnd.fbx"@) == 517113733395,
        mime_code("application/vnd.ms-excel"@) == 465523794200,
        mime_code("application/vnd.ms-powerpoint"@) == 499984195869,
        mime_code("application/vnd.oasis.opendocument.presentation"@) == 474214392111,
        mime_code("application/vnd.oasis.opendocument.spreadsheet"@) == 499917087022,
        mime_code("application/vnd.oasis.opendocument.text"@) == 499917087015,
        mime_code("application/vnd.openxmlformats-officedocument.presentationml.presentation"@) == 474214392137,
        mime_code("application/vnd.openxmlformats-officedocument.spreadsheetml.sheet"@) == 499917087041,
        mime_code("application/vnd.openxmlformats-officedocument.wordprocessingml.document"@) == 499917087047,
        mime_code("application/vnd.rar"@) == 491545256211,
        mime_code("application/x-7z-compressed"@) == 431432491291,
        mime_code("application/x-bzip2"@) == 216516354323,
        mime_code("application/x-tar"@) == 491578810641,
        mime_code("application/x-xz"@) == 524747366672,
        mime_code("application/xhtml+xml"@) == 465876115733,
        mime_code("application/zip"@) == 483089539343,
        mime_code("audio/aac"@) == 426835534089,
        mime_code("audio/aiff"@) == 439854653706,
        mime_code("audio/flac"@) == 427020411146,
        mime_code("audio/midi"@) == 452740342026,
        mime_code("audio/mp4"@) == 225174184201,
        mime_code("audio/mpeg"@) == 444267847946,
        mime_code("audio/ogg"@) == 444251201801,
        mime_code("audio/wav"@) == 508810453257,
        mime_code("audio/webm"@) == 469853757706,
        mime_code("audio/x-midi"@) == 452741062924,
        mime_code("audio/x-ms-wma"@) == 418616205582,
        mime_code("image/apng"@) == 444267063562,
        mime_code("image/avif"@) == 440072759562,
        mime_code("image/bmp"@) == 482686953737,
        mime_code("image/emf"@) == 439787809033,
        mime_code("image/fits"@) == 495689558282,
        mime_code("image/gif"@) == 439821494537,
        mime_code("image/heic"@) == 426903103754,
        mime_code("image/heif"@) == 439788005642,
        mime_code("image/jp2"@) == 216533723401,
        mime_code("image/jpeg"@) == 444267653386,
        mime_code("image/jxl"@) == 465641826569,
        mime_code("image/png"@) == 444268046601,
        mime_code("image/svg+xml"@) == 465877297421,
        mime_code("image/tiff"@) == 439855900938,
        mime_code("image/vnd-ms.dds"@) == 495606720784,
        mime_code("image/vnd.adobe.photoshop"@) == 482788927769,
        mime_code("image/vnd.microsoft.icon"@) == 474115107096,
        mime_code("image/vnd.radiance"@) == 435644950802,
        mime_code("image/webp"@) == 482738661642,
        mime_code("image/wmf"@) == 440090978569,
        mime_code("image/x-adobe-dng"@) == 444067244305,
        mime_code("image/x-canon-cr2"@) == 216417200401,
        mime_code("image/x-cineon"@) == 474148792590,
        mime_code("image/x-dpx"@) == 517081688331,
        mime_code("image/x-exr"@) == 491328661771,
        mime_code("image/x-fuji-raf"@) == 440007158032,
        mime_code("image/x-hasselblad-3fr"@) == 490489800982,
        mime_code("image/x-hasselblad-fff"@) == 439805831446,
        mime_code("image/x-iff"@) == 439856163083,
        mime_code("image/x-leica-rwl"@) == 465776961809,
        mime_code("image/x-mamiya-mef"@) == 439923271954,
        mime_code("image/x-nikon-nef"@) == 439940049169,
        mime_code("image/x-olympus-orf"@) == 439956826387,
        mime_code("image/x-panasonic-rw2"@) == 216668858645,
        mime_code("image/x-pentax-pef"@) == 439973603602,
        mime_code("image/x-phaseone-iiq"@) == 487100803348,
        mime_code("image/x-portable-bitmap"@) == 482872944919,
        mime_code("image/x-raw"@) == 513021602059,
        mime_code("image/x-samsung-srw"@) == 513038379283,
        mime_code("image/x-sgi"@) == 452908837131,
        mime_code("image/x-sony-arw"@) == 512736389392,
        mime_code("image/x-tga"@) == 418565875979,
        mime_code("image/x-xcf"@) == 440107821323,
        mime_code("model/gltf+json"@) == 474382560527,
        mime_code("model/gltf-binary"@) == 521325210897,
        mime_code("model/iges"@) == 495656201482,
        mime_code("model/obj"@) == 457136106761,
        mime_code("model/step"@) == 482990058762,
        mime_code("model/stl"@) == 465793412361,
        mime_code("model/vnd.collada+xml"@) == 465877495061,
        mime_code("model/vnd.usdz+zip"@) == 483090918674,
        mime_code("model/vrml"@) == 465776831754,
        mime_code("text/csv"@) == 508474651656,
        mime_code("text/html"@) == 465810256905,
        mime_code("text/markdown"@) == 474315060237,
        mime_code("text/plain"@) == 474080900106,
        mime_code("text/xml"@) == 465876907016,
        mime_code("video/3gpp"@) == 482767762954,
        mime_code("video/av1"@) == 212087174665,
        mime_code("video/mp2t"@) == 500102428170,
        mime_code("video/mp4"@) == 225174189577,
        mime_code("video/mpeg"@) == 444267853322,
        mime_code("video/mxf"@) == 439922554377,
        mime_code("video/ogg"@) == 444251207177,
        mime_code("video/quicktime"@) == 435560740367,
        mime_code("video/webm"@) == 469853763082,
        mime_code("video/x-flv"@) == 508525311499,
        mime_code("video/x-matroska"@) == 418549102096,
        mime_code("video/x-ms-wmv"@) == 508810524174,
        mime_code("video/x-msvideo"@) == 478426985999,
{
    reveal_strlit("application/epub+zip");
    reveal_strlit("application/gzip");
    reveal_strlit("application/json");
    reveal_strlit("application/msword");
    reveal_strlit("application/octet-stream");
    reveal_strlit("application/pdf");
    reveal_strlit("application/rtf");
    reveal_strlit("application/vnd.fbx");
    reveal_strlit("application/vnd.ms-excel");
    reveal_strlit("application/vnd.ms-powerpoint");
    reveal_strlit("application/vnd.oasis.opendocument.presentation");
    reveal_strlit("application/vnd.oasis.opendocument.spreadsheet");
    reveal_strlit("application/vnd.oasis.opendocument.text");
    reveal_strlit("application/vnd.openxmlformats-officedocument.presentationml.presentation");
    reveal_strlit("application/vnd.openxmlformats-officedocument.spreadsheetml.sheet");
    reveal_strlit("application/vnd.openxmlformats-officedocument.wordprocessingml.document");
    reveal_strlit("application/vnd.rar");
    reveal_strlit("application/x-7z-compressed");
    reveal_strlit("application/x-bzip2");
    reveal_strlit("application/x-tar");
    reveal_strlit("application/x-xz");
    reveal_strlit("application/xhtml+xml");
    reveal_strlit("application/zip");
    reveal_strlit("audio/aac");
    reveal_strlit("audio/aiff");
    reveal_strlit("audio/flac");
    reveal_strlit("audio/midi");
    reveal_strlit("audio/mp4");
    reveal_strlit("audio/mpeg");
    reveal_strlit("audio/ogg");
    reveal_strlit("audio/wav");
    reveal_strlit("audio/webm");
    reveal_strlit("audio/x-midi");
    reveal_strlit("audio/x-ms-wma");
    reveal_strlit("image/apng");
    reveal_strlit("image/avif");
    reveal_strlit("image/bmp");
    reveal_strlit("image/emf");
    reveal_strlit("image/fits");
    reveal_strlit("image/gif");
    reveal_strlit("image/heic");
    reveal_strlit("image/heif");
    reveal_strlit("image/jp2");
    reveal_strlit("image/jpeg");
    reveal_strlit("image/jxl");
    reveal_strlit("image/png");
    reveal_strlit("image/svg+xml");
    reveal_strlit("image/tiff");
    reveal_strlit("image/vnd-ms.dds");
    reveal_strlit("image/vnd.adobe.photoshop");
    reveal_strlit("image/vnd.microsoft.icon");
    reveal_strlit("image/vnd.radiance");
    reveal_strlit("image/webp");
    reveal_strlit("image/wmf");
    reveal_strlit("image/x-adobe-dng");
    reveal_strlit("image/x-canon-cr2");
    reveal_strlit("image/x-cineon");
    reveal_strlit("image/x-dpx");
    reveal_strlit("image/x-exr");
    reveal_strlit("image/x-fuji-raf");
    reveal_strlit("image/x-hasselblad-3fr");
    reveal_strlit("image/x-hasselblad-fff");
    reveal_strlit("image/x-iff");
    reveal_strlit("image/x-leica-rwl");
    reveal_strlit("image/x-mamiya-mef");
    reveal_strlit("image/x-nikon-nef");
    reveal_strlit("image/x-olympus-orf");
    reveal_strlit("image/x-panasonic-rw2");
    reveal_strlit("image/x-pentax-pef");
    reveal_strlit("image/x-phaseone-iiq");
    reveal_strlit("image/x-portable-bitmap");
    reveal_strlit("image/x-raw");
    reveal_strlit("image/x-samsung-srw");
    reveal_strlit("image/x-sgi");
    reveal_strlit("image/x-sony-arw");
    reveal_strlit("image/x-tga");
    reveal_strlit("image/x-xcf");
    reveal_strlit("model/gltf+json");
    reveal_strlit("model/gltf-binary");
    reveal_strlit("model/iges");
    reveal_strlit("model/obj");
    reveal_strlit("model/step");
    reveal_strlit("model/stl");
    reveal_strlit("model/vnd.collada+xml");
    reveal_strlit("model/vnd.usdz+zip");
    reveal_strlit("model/vrml");
    reveal_strlit("text/csv");
    reveal_strlit("text/html");
    reveal_strlit("text/markdown");
    reveal_strlit("text/plain");
    reveal_strlit("text/xml");
    reveal_strlit("video/3gpp");
    reveal_strlit("video/av1");
    reveal_strlit("video/mp2t");
    reveal_strlit("video/mp4");
    reveal_strlit("video/mpeg");
    reveal_strlit("video/mxf");
    reveal_strlit("video/ogg");
    reveal_strlit("video/quicktime");
    reveal_strlit("video/webm");
    reveal_strlit("video/x-flv");
    reveal_strlit("video/x-matroska");
    reveal_strlit("video/x-ms-wmv");
    reveal_strlit("video/x-msvideo");
}

/// An extension survives the trip through its MIME type.
#[verifier::opaque]
spec fn survives(ext: Seq<char>) -> bool {
    ext_of_mime(mime_of_ext(ext)) == ext
}

#[verifier::spinoff_prover]
proof fn lemma_survive_a()
    ensures
        survives("jpeg"@),
        survives("png"@),
        survives("gif"@),
        survives("webp"@),
        survives("bmp"@),
        survives("tiff"@),
        survives("avif"@),
        survives("heic"@),
        survives("svg"@),
        survives("emf"@),
        survives("xcf"@),
{
    reveal(survives);
    lemma_ext_codes();
    lemma_mime_codes();
}

#[verifier::spinoff_prover]
proof fn lemma_survive_b()
    ensures
        survives("apng"@),
        survives("ico"@),
        survives("jxl"@),
        survives("psd"@),
        survives("jp2"@),
        survives("mp4"@),
        survives("mov"@),
        survives("webm"@),
        survives("mpeg"@),
        survives("ogv"@),
        survives("flv"@),
{
    reveal(survives);
    lemma_ext_codes();
    lemma_mime_codes();
}

#[verifier::spinoff_prover]
proof fn lemma_survive_c()
    ensures
        survives("ts"@),
        survives("3gp"@),
        survives("wmv"@),
        survives("mxf"@),
        survives("av1"@),
        survives("mp3"@),
        survives("ogg"@),
        survives("flac"@),
        survives("wav"@),
        survives("m4a"@),
        survives("aac"@),
{
    reveal(survives);
    lemma_ext_codes();
    lemma_mime_codes();
}

#[verifier::spinoff_prover]
proof fn lemma_survive_d()
    ensures
        survives("midi"@),
        survives("weba"@),
        survives("wma"@),
        survives("aiff"@),
        survives("pdf"@),
        survives("zip"@),
        survives("gz"@),
        survives("docx"@),
        survives("xlsx"@),
        survives("pptx"@),
        survives("odt"@),
{
    reveal(survives);
    lemma_ext_codes();
    lemma_mime_codes();
}

#[verifier::spinoff_prover]
proof fn lemma_survive_e()
    ensures
        survives("odp"@),
        survives("ods"@),
        survives("doc"@),
        survives("xls"@),
        survives("ppt"@),
        survives("epub"@),
        survives("rtf"@),
        survives("usdz"@),
        survives("glb"@),
        survives("gltf"@),
        survives("obj"@),
{
    reveal(survives);
    lemma_ext_codes();
    lemma_mime_codes();
}

#[verifier::spinoff_prover]
proof fn lemma_survive_f()
    ensures
        survives("fbx"@),
        survives("dae"@),
        survives("stl"@),
        survives("html"@),
        survives("xml"@),
        survives("txt"@),
        survives("csv"@),
        survives("md"@),
        survives("json"@),
        survives("bin"@),
{
    reveal(survives);
    lemma_ext_codes();
    lemma_mime_codes();
}

/// The extension that a MIME type is given survives the trip through the MIME type
/// that belongs to it.
pub proof fn law_ext_through_mime(mime: Seq<char>)
    ensures
        ext_of_mime(mime_of_ext(ext_of_mime(mime))) == ext_of_mime(mime),
{
    lemma_survive_a();
    lemma_survive_b();
    lemma_survive_c();
    lemma_survive_d();
    lemma_survive_e();
    lemma_survive_f();
    assert(survives(ext_of_mime(mime)));
    reveal(survives);
}

/// Which MIME types start with the name of a category, character by character.
proof fn lemma_prefixes()
    ensures
        forall|s: Seq<char>| #[trigger]
            has_prefix(s, "image/"@) == (s.len() >= 6 && s[0] == 'i' && s[1] == 'm' && s[2] == 'a'
                && s[3] == 'g' && s[4] == 'e' && s[5] == '/'),
        forall|s: Seq<char>| #[trigger]
            has_prefix(s, "video/"@) == (s.len() >= 6 && s[0] == 'v' && s[1] == 'i' && s[2] == 'd'
                && s[3] == 'e' && s[4] == 'o' && s[5] == '/'),
        forall|s: Seq<char>| #[trigger]
            has_prefix(s, "audio/"@) == (s.len() >= 6 && s[0] == 'a' && s[1] == 'u' && s[2] == 'd'
                && s[3] == 'i' && s[4] == 'o' && s[5] == '/'),
        forall|s: Seq<char>| #[trigger]
            has_prefix(s, "text/"@) == (s.len() >= 5 && s[0] == 't' && s[1] == 'e' && s[2] == 'x'
                && s[3] == 't' && s[4] == '/'),
{
    reveal_strlit("image/");
    reveal_strlit("video/");
    reveal_strlit("audio/");
    reveal_strlit("text/");
    assert("image/"@ =~= seq!['i', 'm', 'a', 'g', 'e', '/']);
    assert("video/"@ =~= seq!['v', 'i', 'd', 'e', 'o', '/']);
    assert("audio/"@ =~= seq!['a', 'u', 'd', 'i', 'o', '/']);
    assert("text/"@ =~= seq!['t', 'e', 'x', 't', '/']);
    assert forall|s: Seq<char>| #[trigger]
        has_prefix(s, "image/"@) == (s.len() >= 6 && s[0] == 'i' && s[1] == 'm' && s[2] == 'a'
            && s[3] == 'g' && s[4] == 'e' && s[5] == '/') by {
        lemma_prefix(s, "image/"@);
    }
    assert forall|s: Seq<char>| #[trigger]
        has_prefix(s, "video/"@) == (s.len() >= 6 && s[0] == 'v' && s[1] == 'i' && s[2] == 'd'
            && s[3] == 'e' && s[4] == 'o' && s[5] == '/') by {
        lemma_prefix(s, "video/"@);
    }
    assert forall|s: Seq<char>| #[trigger]
        has_prefix(s, "audio/"@) == (s.len() >= 6 && s[0] == 'a' && s[1] == 'u' && s[2] == 'd'
            && s[3] == 'i' && s[4] == 'o' && s[5] == '/') by {
        lemma_prefix(s, "audio/"@);
    }
    assert forall|s: Seq<char>| #[trigger]
        has_prefix(s, "text/"@) == (s.len() >= 5 && s[0] == 't' && s[1] == 'e' && s[2] == 'x'
            && s[3] == 't' && s[4] == '/') by {
        lemma_prefix(s, "text/"@);
    }
}

/// A prefix agrees character by character.
proof fn lemma_prefix(s: Seq<char>, p: Seq<char>)
    ensures
        has_prefix(s, p) == (p.len() <= s.len() && forall|i: int| 0 <= i < p.len() ==> s[i] == #[trigger] p[i]),
{
    if p.len() <= s.len() {
        let head = s.subrange(0, p.len() as int);
        if head == p {
            assert forall|i: int| 0 <= i < p.len() implies s[i] == #[trigger] p[i] by {
                assert(head[i] == s[i]);
            }
        }
        if forall|i: int| 0 <= i < p.len() ==> s[i] == #[trigger] p[i] {
            assert(head =~= p);
        }
    }
}

/// Classifying by the MIME type of an extension agrees with classifying by the
/// extension.
#[verifier::opaque]
spec fn classified_alike(ext: Seq<char>) -> bool {
    kind_of_mime(mime_of_ext(ext), ext) == kind_of_ext(ext)
}

#[verifier::spinoff_prover]
proof fn lemma_alike_a()
    ensures
        classified_alike("jpeg"@),
        classified_alike("png"@),
        classified_alike("gif"@),
        classified_alike("webp"@),
        classified_alike("bmp"@),
        classified_alike("tiff"@),
        classified_alike("avif"@),
        classified_alike("heic"@),
        classified_alike("exr"@),
        classified_alike("hdr"@),
        classified_alike("jxl"@),
        classified_alike("psd"@),
{
    reveal(classified_alike);
    lemma_ext_codes();
    lemma_mime_codes();
    lemma_prefixes();
    reveal_strlit("image/avif");
    reveal_strlit("image/bmp");
    reveal_strlit("image/gif");
    reveal_strlit("image/heic");
    reveal_strlit("image/jpeg");
    reveal_strlit("image/jxl");
    reveal_strlit("image/png");
    reveal_strlit("image/tiff");
    reveal_strlit("image/vnd.adobe.photoshop");
    reveal_strlit("image/vnd.radiance");
    reveal_strlit("image/webp");
    reveal_strlit("image/x-exr");
}

#[verifier::spinoff_prover]
proof fn lemma_alike_b()
    ensures
        classified_alike("jp2"@),
        classified_alike("pbm"@),
        classified_alike("tga"@),
        classified_alike("xcf"@),
        classified_alike("sgi"@),
        classified_alike("dpx"@),
        classified_alike("cin"@),
        classified_alike("dds"@),
        classified_alike("fits"@),
        classified_alike("iff"@),
        classified_alike("dng"@),
        classified_alike("cr2"@),
{
    reveal(classified_alike);
    lemma_ext_codes();
    lemma_mime_codes();
    lemma_prefixes();
    reveal_strlit("image/fits");
    reveal_strlit("image/jp2");
    reveal_strlit("image/vnd-ms.dds");
    reveal_strlit("image/x-adobe-dng");
    reveal_strlit("image/x-canon-cr2");
    reveal_strlit("image/x-cineon");
    reveal_strlit("image/x-dpx");
    reveal_strlit("image/x-iff");
    reveal_strlit("image/x-portable-bitmap");
    reveal_strlit("image/x-sgi");
    reveal_strlit("image/x-tga");
    reveal_strlit("image/x-xcf");
}

#[verifier::spinoff_prover]
proof fn lemma_alike_c()
    ensures
        classified_alike("nef"@),
        classified_alike("arw"@),
        classified_alike("orf"@),
        classified_alike("rw2"@),
        classified_alike("pef"@),
        classified_alike("srw"@),
        classified_alike("3fr"@),
        classified_alike("mef"@),
        classified_alike("rwl"@),
        classified_alike("raf"@),
        classified_alike("fff"@),
        classified_alike("iiq"@),
{
    reveal(classified_alike);
    lemma_ext_codes();
    lemma_mime_codes();
    lemma_prefixes();
    reveal_strlit("image/x-fuji-raf");
    reveal_strlit("image/x-hasselblad-3fr");
    reveal_strlit("image/x-hasselblad-fff");
    reveal_strlit("image/x-leica-rwl");
    reveal_strlit("image/x-mamiya-mef");
    reveal_strlit("image/x-nikon-nef");
    reveal_strlit("image/x-olympus-orf");
    reveal_strlit("image/x-panasonic-rw2");
    reveal_strlit("image/x-pentax-pef");
    reveal_strlit("image/x-phaseone-iiq");
    reveal_strlit("image/x-samsung-srw");
    reveal_strlit("image/x-sony-arw");
}

#[verifier::spinoff_prover]
proof fn lemma_alike_d()
    ensures
        classified_alike("raw"@),
        classified_alike("svg"@),
        classified_alike("apng"@),
        classified_alike("ico"@),
        classified_alike("mp4"@),
        classified_alike("mov"@),
        classified_alike("mkv"@),
        classified_alike("avi"@),
        classified_alike("webm"@),
        classified_alike("mpeg"@),
        classified_alike("ogv"@),
        classified_alike("flv"@),
{
    reveal(classified_alike);
    lemma_ext_codes();
    lemma_mime_codes();
    lemma_prefixes();
    reveal_strlit("image/apng");
    reveal_strlit("image/svg+xml");
    reveal_strlit("image/vnd.microsoft.icon");
    reveal_strlit("image/x-raw");
    reveal_strlit("video/mp4");
    reveal_strlit("video/mpeg");
    reveal_strlit("video/ogg");
    reveal_strlit("video/quicktime");
    reveal_strlit("video/webm");
    reveal_strlit("video/x-flv");
    reveal_strlit("video/x-matroska");
    reveal_strlit("video/x-msvideo");
}

#[verifier::spinoff_prover]
proof fn lemma_alike_e()
    ensures
        classified_alike("ts"@),
        classified_alike("3gp"@),
        classified_alike("wmv"@),
        classified_alike("m2ts"@),
        classified_alike("mxf"@),
        classified_alike("av1"@),
        classified_alike("mp3"@),
        classified_alike("ogg"@),
        classified_alike("flac"@),
        classified_alike("wav"@),
        classified_alike("m4a"@),
        classified_alike("aac"@),
{
    reveal(classified_alike);
    lemma_ext_codes();
    lemma_mime_codes();
    lemma_prefixes();
    reveal_strlit("audio/aac");
    reveal_strlit("audio/flac");
    reveal_strlit("audio/mp4");
    reveal_strlit("audio/mpeg");
    reveal_strlit("audio/ogg");
    reveal_strlit("audio/wav");
    reveal_strlit("video/3gpp");
    reveal_strlit("video/av1");
    reveal_strlit("video/mp2t");
    reveal_strlit("video/mxf");
    reveal_strlit("video/x-ms-wmv");
}

#[verifier::spinoff_prover]
proof fn lemma_alike_f()
    ensures
        classified_alike("midi"@),
        classified_alike("opus"@),
        classified_alike("oga"@),
        classified_alike("weba"@),
        classified_alike("wma"@),
        classified_alike("aiff"@),
        classified_alike("pdf"@),
        classified_alike("docx"@),
        classified_alike("xlsx"@),
        classified_alike("pptx"@),
        classified_alike("odt"@),
        classified_alike("odp"@),
{
    reveal(classified_alike);
    lemma_ext_codes();
    lemma_mime_codes();
    lemma_prefixes();
    reveal_strlit("application/pdf");
    reveal_strlit("application/vnd.oasis.opendocument.presentation");
    reveal_strlit("application/vnd.oasis.opendocument.text");
    reveal_strlit("application/vnd.openxmlformats-officedocument.presentationml.presentation");
    reveal_strlit("application/vnd.openxmlformats-officedocument.spreadsheetml.sheet");
    reveal_strlit("application/vnd.openxmlformats-officedocument.wordprocessingml.document");
    reveal_strlit("audio/aiff");
    reveal_strlit("audio/midi");
    reveal_strlit("audio/ogg");
    reveal_strlit("audio/webm");
    reveal_strlit("audio/x-ms-wma");
}

#[verifier::spinoff_prover]
proof fn lemma_alike_g()
    ensures
        classified_alike("ods"@),
        classified_alike("doc"@),
        classified_alike("xls"@),
        classified_alike("ppt"@),
        classified_alike("epub"@),
        classified_alike("rtf"@),
        classified_alike("html"@),
        classified_alike("xhtml"@),
        classified_alike("zip"@),
        classified_alike("tar"@),
        classified_alike("gz"@),
        classified_alike("rar"@),
{
    reveal(classified_alike);
    lemma_ext_codes();
    lemma_mime_codes();
    lemma_prefixes();
    reveal_strlit("application/epub+zip");
    reveal_strlit("application/gzip");
    reveal_strlit("application/msword");
    reveal_strlit("application/rtf");
    reveal_strlit("application/vnd.ms-excel");
    reveal_strlit("application/vnd.ms-powerpoint");
    reveal_strlit("application/vnd.oasis.opendocument.spreadsheet");
    reveal_strlit("application/vnd.rar");
    reveal_strlit("application/x-tar");
    reveal_strlit("application/xhtml+xml");
    reveal_strlit("application/zip");
    reveal_strlit("text/html");
}

#[verifier::spinoff_prover]
proof fn lemma_alike_h()
    ensures
        classified_alike("7z"@),
        classified_alike("xml"@),
        classified_alike("json"@),
        classified_alike("txt"@),
        classified_alike("csv"@),
        classified_alike("md"@),
        classified_alike("usdz"@),
        classified_alike("usd"@),
        classified_alike("glb"@),
        classified_alike("gltf"@),
        classified_alike("obj"@),
        classified_alike("fbx"@),
{
    reveal(classified_alike);
    lemma_ext_codes();
    lemma_mime_codes();
    lemma_prefixes();
    reveal_strlit("application/json");
    reveal_strlit("application/vnd.fbx");
    reveal_strlit("application/x-7z-compressed");
    reveal_strlit("model/gltf+json");
    reveal_strlit("model/gltf-binary");
    reveal_strlit("model/obj");
    reveal_strlit("model/vnd.usdz+zip");
    reveal_strlit("text/csv");
    reveal_strlit("text/markdown");
    reveal_strlit("text/plain");
    reveal_strlit("text/xml");
}

#[verifier::spinoff_prover]
proof fn lemma_alike_i()
    ensures
        classified_alike("dae"@),
        classified_alike("stl"@),
        classified_alike("vrml"@),
        classified_alike("step"@),
        classified_alike("iges"@),
{
    reveal(classified_alike);
    lemma_ext_codes();
    lemma_mime_codes();
    lemma_prefixes();
    reveal_strlit("model/iges");
    reveal_strlit("model/step");
    reveal_strlit("model/stl");
    reveal_strlit("model/vnd.collada+xml");
    reveal_strlit("model/vrml");
}

#[verifier::spinoff_prover]
proof fn lemma_unknown_alike(ext: Seq<char>)
    requires
        mime_of_ext(ext) == "application/octet-stream"@,
    ensures
        classified_alike(ext),
{
    reveal(classified_alike);
    lemma_mime_codes();
    lemma_prefixes();
    reveal_strlit("application/octet-stream");
}

/// Classifying by the MIME type that belongs to an extension gives the same
/// category as classifying by the extension. The two Windows metafile formats are
/// the exception: their MIME types are those of images, while they are vectors.
pub proof fn law_classified_alike(ext: Seq<char>)
    requires
        ext != "emf"@,
        ext != "wmf"@,
    ensures
        kind_of_mime(mime_of_ext(ext), ext) == kind_of_ext(ext),
{
    lemma_alike_a();
    lemma_alike_b();
    lemma_alike_c();
    lemma_alike_d();
    lemma_alike_e();
    lemma_alike_f();
    lemma_alike_g();
    lemma_alike_h();
    lemma_alike_i();
    if mime_of_ext(ext) == "application/octet-stream"@ {
        lemma_unknown_alike(ext);
    }
    assert(classified_alike(ext));
    reveal(classified_alike);
}

/// Entry `k` of those manifest entries whose extension no earlier entry has.
pub open spec fn nth_new(k: int) -> int {
    if k < 60 {
        k
    } else if k < 67 {
        k + 7
    } else {
        k + 13
    }
}

/// The place among the new extensions that a number stands for.
spec fn place_of(code: int) -> int {
    if code == 6844273 {
        0
    } else if code == 6777448 {
        1
    } else if code == 1902339704 {
        2
    } else if code == 7433827 {
        3
    } else if code == 1734830709 {
        4
    } else if code == 7365738 {
        5
    } else if code == 1751544171 {
        6
    } else if code == 6846324 {
        7
    } else if code == 7174507 {
        8
    } else if code == 7567718 {
        9
    } else if code == 7562601 {
        10
    } else if code == 1735030626 {
        11
    } else if code == 1684694633 {
        12
    } else if code == 6844261 {
        13
    } else if code == 3371876 {
        14
    } else if code == 6776431 {
        15
    } else if code == 7893858 {
        16
    } else if code == 6779760 {
        17
    } else if code == 3373171 {
        18
    } else if code == 6776433 {
        19
    } else if code == 7893876 {
        20
    } else if code == 6775411 {
        21
    } else if code == 7563060 {
        22
    } else if code == 6776679 {
        23
    } else if code == 7498346 {
        24
    } else if code == 6776430 {
        25
    } else if code == 7174259 {
        26
    } else if code == 7889523 {
        27
    } else if code == 6648945 {
        28
    } else if code == 7234417 {
        29
    } else if code == 6449269 {
        30
    } else if code == 3502446 {
        31
    } else if code == 7827566 {
        32
    } else if code == 6977378 {
        33
    } else if code == 1852008056 {
        34
    } else if code == 7826542 {
        35
    } else if code == 7826791 {
        36
    } else if code == 29813 {
        37
    } else if code == 7432244 {
        38
    } else if code == 7825520 {
        39
    } else if code == 7827064 {
        40
    } else if code == 1751544174 {
        41
    } else if code == 1953837934 {
        42
    } else if code == 6781294 {
        43
    } else if code == 3307362 {
        44
    } else if code == 3436910 {
        45
    } else if code == 7823992 {
        46
    } else if code == 1684172135 {
        47
    } else if code == 6842480 {
        48
    } else if code == 6436206 {
        49
    } else if code == 6578786 {
        50
    } else if code == 6450808 {
        51
    } else if code == 1734830690 {
        52
    } else if code == 1953919344 {
        53
    } else if code == 7693680 {
        54
    } else if code == 7628144 {
        55
    } else if code == 7431536 {
        56
    } else if code == 2036625509 {
        57
    } else if code == 2037673337 {
        58
    } else if code == 2037739889 {
        59
    } else if code == 3371371 {
        60
    } else if code == 7955569 {
        61
    } else if code == 6975602 {
        62
    } else if code == 7234425 {
        63
    } else if code == 7238009 {
        64
    } else if code == 6649977 {
        65
    } else if code == 7234161 {
        66
    } else if code == 7958885 {
        67
    } else if code == 7301732 {
        68
    } else if code == 7628133 {
        69
    } else if code == 7234661 {
        70
    } else if code == 1953852007 {
        71
    } else if code == 6776682 {
        72
    } else if code == 6580849 {
        73
    } else if code == 6450547 {
        74
    } else if code == 6973556 {
        75
    } else if code == 439922354043 {
        76
    } else if code == 6516072 {
        77
    } else if code == 1735748968 {
        78
    } else if code == 7955303 {
        79
    } else if code == 6709861 {
        80
    } else if code == 6781285 {
        81
    } else if code == 6776688 {
        82
    } else if code == 7371110 {
        83
    } else if code == 7628084 {
        84
    } else if code == 7171688 {
        85
    } else if code == 8023409 {
        86
    } else if code == 7632241 {
        87
    } else if code == 2070246518 {
        88
    } else if code == 6648950 {
        89
    } else if code == 7173492 {
        90
    } else if code == 7037808 {
        91
    } else if code == 1835955063 {
        92
    } else if code == 7107959 {
        93
    } else if code == 7763319 {
        94
    } else if code == 7435639 {
        95
    } else if code == 6976887 {
        96
    } else if code == 7566711 {
        97
    } else if code == 7632247 {
        98
    } else if code == 7239031 {
        99
    } else if code == 1902540148 {
        100
    } else if code == 1952868458 {
        101
    } else {
        102
    }
}

#[verifier::spinoff_prover]
#[verifier::rlimit(60)]
proof fn lemma_first_new(k: int)
    requires
        0 <= k <= 23,
    ensures
        place_of(ext_code(manifest_row(nth_new(k)).extension)) == k,
{
    reveal(manifest_row);
    lemma_ext_codes();
}

#[verifier::spinoff_prover]
#[verifier::rlimit(60)]
proof fn lemma_second_new(k: int)
    requires
        24 <= k <= 47,
    ensures
        place_of(ext_code(manifest_row(nth_new(k)).extension)) == k,
{
    reveal(manifest_row);
    lemma_ext_codes();
}

#[verifier::spinoff_prover]
#[verifier::rlimit(60)]
proof fn lemma_third_new(k: int)
    requires
        48 <= k <= 64,
    ensures
        place_of(ext_code(manifest_row(nth_new(k)).extension)) == k,
{
    reveal(manifest_row);
    lemma_ext_codes();
}

#[verifier::spinoff_prover]
#[verifier::rlimit(60)]
proof fn lemma_fourth_new(k: int)
    requires
        65 <= k <= 82,
    ensures
        place_of(ext_code(manifest_row(nth_new(k)).extension)) == k,
{
    reveal(manifest_row);
    lemma_ext_codes();
}

#[verifier::spinoff_prover]
#[verifier::rlimit(60)]
proof fn lemma_fifth_new(k: int)
    requires
        83 <= k <= 102,
    ensures
        place_of(ext_code(manifest_row(nth_new(k)).extension)) == k,
{
    reveal(manifest_row);
    lemma_ext_codes();
}

/// The manifest lists an extension.
pub open spec fn is_listed_ext(ext: Seq<char>) -> bool {
    exists|i: int| 0 <= i < FORMAT_COUNT && #[trigger] manifest_row(i).extension == ext
}

/// The manifest lists more than a hundred extensions: the new ones among its
/// entries, of which no two are the same.
pub proof fn law_over_a_hundred_formats()
    ensures
        exists|exts: Seq<Seq<char>>|
            {
                &&& exts.len() > 100
                &&& #[trigger] exts.no_duplicates()
                &&& forall|k: int| 0 <= k < exts.len() ==> is_listed_ext(#[trigger] exts[k])
            },
{
    let exts = Seq::new(103, |k: int| manifest_row(nth_new(k)).extension);
    assert forall|k: int| 0 <= k < 103 implies place_of(ext_code(#[trigger] exts[k])) == k by {
        if k <= 23 {
            lemma_first_new(k);
        } else if k <= 47 {
            lemma_second_new(k);
        } else if k <= 64 {
            lemma_third_new(k);
        } else if k <= 82 {
            lemma_fourth_new(k);
        } else {
            lemma_fifth_new(k);
        }
    }
    assert forall|k: int| 0 <= k < exts.len() implies is_listed_ext(#[trigger] exts[k]) by {
        let i = nth_new(k);
        assert(0 <= i < FORMAT_COUNT && manifest_row(i).extension == exts[k]);
    }
    assert(exts.no_duplicates());
}

#[verifier::spinoff_prover]
#[verifier::rlimit(60)]
proof fn lemma_first_facts(i: int)
    requires
        0 <= i < 24,
    ensures
        canonical_ext(manifest_row(i).extension) == manifest_row(i).extension,
        manifest_row(i).tier == 1 ==> manifest_row(i).kind == FileKind::Image && manifest_row(
            i,
        ).renderer == "image_crate"@,
        manifest_row(i).kind == FileKind::Geometry ==> manifest_row(i).tier == 3,
{
    reveal(manifest_row);
    lemma_ext_codes();
}

#[verifier::spinoff_prover]
#[verifier::rlimit(60)]
proof fn lemma_second_facts(i: int)
    requires
        24 <= i < 48,
    ensures
        canonical_ext(manifest_row(i).extension) == manifest_row(i).extension,
        manifest_row(i).tier == 1 ==> manifest_row(i).kind == FileKind::Image && manifest_row(
            i,
        ).renderer == "image_crate"@,
        manifest_row(i).kind == FileKind::Geometry ==> manifest_row(i).tier == 3,
{
    reveal(manifest_row);
    lemma_ext_codes();
}

#[verifier::spinoff_prover]
#[verifier::rlimit(60)]
proof fn lemma_third_facts(i: int)
    requires
        48 <= i < 72,
    ensures
        canonical_ext(manifest_row(i).extension) == manifest_row(i).extension,
        manifest_row(i).tier == 1 ==> manifest_row(i).kind == FileKind::Image && manifest_row(
            i,
        ).renderer == "image_crate"@,
        manifest_row(i).kind == FileKind::Geometry ==> manifest_row(i).tier == 3,
{
    reveal(manifest_row);
    lemma_ext_codes();
}

#[verifier::spinoff_prover]
#[verifier::rlimit(60)]
proof fn lemma_fourth_facts(i: int)
    requires
        72 <= i < 96,
    ensures
        canonical_ext(manifest_row(i).extension) == manifest_row(i).extension,
        manifest_row(i).tier == 1 ==> manifest_row(i).kind == FileKind::Image && manifest_row(
            i,
        ).renderer == "image_crate"@,
        manifest_row(i).kind == FileKind::Geometry ==> manifest_row(i).tier == 3,
{
    reveal(manifest_row);
    lemma_ext_codes();
}

#[verifier::spinoff_prover]
#[verifier::rlimit(60)]
proof fn lemma_fifth_facts(i: int)
    requires
        96 <= i < 116,
    ensures
        canonical_ext(manifest_row(i).extension) == manifest_row(i).extension,
        manifest_row(i).tier == 1 ==> manifest_row(i).kind == FileKind::Image && manifest_row(
            i,
        ).renderer == "image_crate"@,
        manifest_row(i).kind == FileKind::Geometry ==> manifest_row(i).tier == 3,
{
    reveal(manifest_row);
    lemma_ext_codes();
}

/// Every extension in the manifest is canonical, what the first tier renders is an
/// image of the image crate, and 3-D models are left to the third tier.
pub proof fn law_manifest_facts(i: int)
    requires
        0 <= i < FORMAT_COUNT,
    ensures
        canonical_ext(manifest_row(i).extension) == manifest_row(i).extension,
        manifest_row(i).tier == 1 ==> manifest_row(i).kind == FileKind::Image && manifest_row(
            i,
        ).renderer == "image_crate"@,
        manifest_row(i).kind == FileKind::Geometry ==> manifest_row(i).tier == 3,
{
    if i < 24 {
        lemma_first_facts(i);
    } else if i < 48 {
        lemma_second_facts(i);
    } else if i < 72 {
        lemma_third_facts(i);
    } else if i < 96 {
        lemma_fourth_facts(i);
    } else {
        lemma_fifth_facts(i);
    }
}

} // verus!
