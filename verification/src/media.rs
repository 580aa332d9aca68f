//! Which wallpapers are static images and which are live videos.
use vstd::prelude::*;
use crate::path::{extension, path_extension};
use crate::text::{ascii_lowercase, lower_seq, str_eq, cat};

verus! {

#[derive(Debug, Clone, Copy, PartialEq, Eq, Structural)]
pub enum MediaKind {
    Static,
    Live,
}

/// The kind that a (case-insensitive) file extension names.
pub open spec fn extension_kind(ext: Seq<char>) -> Option<MediaKind> {
    let e = lower_seq(ext);
    if e == "jpg"@ || e == "jpeg"@ || e == "png"@ || e == "webp"@ || e == "bmp"@ || e == "gif"@ {
        Some(MediaKind::Static)
    } else if e == "mp4"@ || e == "webm"@ || e == "mkv"@ || e == "mov"@ || e == "avi"@ {
        Some(MediaKind::Live)
    } else {
        None
    }
}

/// The kind named by a path's extension.
pub open spec fn path_kind(path: Seq<char>) -> Option<MediaKind> {
    match extension(path) {
        Some(e) => extension_kind(e),
        None => None,
    }
}

/// The extension of a file name or path.
pub fn classify_extension(ext: &str) -> (r: Option<MediaKind>)
    ensures
        r == extension_kind(ext@),
{
    let e = ascii_lowercase(ext);
    let e = e.as_str();
    if str_eq(e, "jpg") || str_eq(e, "jpeg") || str_eq(e, "png") || str_eq(e, "webp") || str_eq(
        e,
        "bmp",
    ) || str_eq(e, "gif") {
        Some(MediaKind::Static)
    } else if str_eq(e, "mp4") || str_eq(e, "webm") || str_eq(e, "mkv") || str_eq(e, "mov")
        || str_eq(e, "avi") {
        Some(MediaKind::Live)
    } else {
        None
    }
}

/// Whether a path's extension names a static or live wallpaper.
pub fn has_supported_extension(path: &str) -> (b: bool)
    ensures
        b == (path_kind(path@) is Some),
{
    match path_extension(path) {
        Some(ext) => classify_extension(&ext).is_some(),
        None => false,
    }
}

pub open spec fn seq_starts_with(b: Seq<u8>, p: Seq<u8>) -> bool {
    p.len() <= b.len() && b.take(p.len() as int) == p
}

/// A RIFF container of the given four-byte form type.
pub open spec fn riff_type(b: Seq<u8>, kind: Seq<u8>) -> bool {
    b.len() >= 12 && seq_starts_with(b, seq![0x52u8, 0x49u8, 0x46u8, 0x46u8]) && b.subrange(8, 12)
        == kind
}

/// An ISO base media file whose major brand is one of the video brands.
pub open spec fn isobmff_video(b: Seq<u8>) -> bool {
    b.len() >= 12 && b.subrange(4, 8) == seq![0x66u8, 0x74u8, 0x79u8, 0x70u8] && {
        let m = b.subrange(8, 12);
        m == seq![0x61u8, 0x76u8, 0x69u8, 0x66u8]  // avif
         || m == seq![0x69u8, 0x73u8, 0x6fu8, 0x32u8]  // iso2
         || m == seq![0x69u8, 0x73u8, 0x6fu8, 0x6du8]  // isom
         || m == seq![0x6du8, 0x70u8, 0x34u8, 0x31u8]  // mp41
         || m == seq![0x6du8, 0x70u8, 0x34u8, 0x32u8]  // mp42
         || m == seq![0x71u8, 0x74u8, 0x20u8, 0x20u8]  // "qt  "
    }
}

/// The kind that a file's first bytes reveal.
pub open spec fn signature_kind(b: Seq<u8>) -> Option<MediaKind> {
    if seq_starts_with(b, seq![0xffu8, 0xd8u8, 0xffu8]) || seq_starts_with(
        b,
        seq![0x89u8, 0x50u8, 0x4eu8, 0x47u8, 0x0du8, 0x0au8, 0x1au8, 0x0au8],
    ) || seq_starts_with(b, seq![0x47u8, 0x49u8, 0x46u8, 0x38u8, 0x37u8, 0x61u8])
        || seq_starts_with(b, seq![0x47u8, 0x49u8, 0x46u8, 0x38u8, 0x39u8, 0x61u8])
        || seq_starts_with(b, seq![0x42u8, 0x4du8]) || riff_type(
        b,
        seq![0x57u8, 0x45u8, 0x42u8, 0x50u8],
    ) {
        Some(MediaKind::Static)
    } else if isobmff_video(b) || seq_starts_with(b, seq![0x1au8, 0x45u8, 0xdfu8, 0xa3u8]) {
        Some(MediaKind::Live)
    } else {
        None
    }
}

fn bytes_start_with(b: &[u8], p: &[u8]) -> (r: bool)
    ensures
        r == seq_starts_with(b@, p@),
{
    bytes_match_at(b, 0, p)
}

/// Whether `b[at..at + p.len()]` equals `p`.
fn bytes_match_at(b: &[u8], at: usize, p: &[u8]) -> (r: bool)
    ensures
        r == (at + p@.len() <= b@.len() && b@.subrange(at as int, at + p@.len()) == p@),
        at == 0 ==> (r == seq_starts_with(b@, p@)),
{
    if at > b.len() || p.len() > b.len() - at {
        return false;
    }
    let mut i: usize = 0;
    while i < p.len()
        invariant
            at + p.len() <= b.len(),
            0 <= i <= p.len(),
            forall|k: int| 0 <= k < i ==> b@[at + k] == p@[k],
        decreases p.len() - i,
    {
        if b[at + i] != p[i] {
            assert(b@.subrange(at as int, at + p@.len())[i as int] != p@[i as int]);
            return false;
        }
        i += 1;
    }
    assert(b@.subrange(at as int, at + p@.len()) =~= p@);
    assert(at == 0 ==> b@.take(p@.len() as int) == b@.subrange(0, p@.len() as int));
    true
}

/// A RIFF container of the given form type (`b"WEBP"` for WebP).
pub fn is_riff_type(bytes: &[u8], kind: &[u8; 4]) -> (r: bool)
    ensures
        r == riff_type(bytes@, kind@),
{
    let riff: [u8; 4] = [0x52u8, 0x49u8, 0x46u8, 0x46u8];
    assert(riff@ =~= seq![0x52u8, 0x49u8, 0x46u8, 0x46u8]);
    bytes.len() >= 12 && bytes_start_with(bytes, &riff) && bytes_match_at(bytes, 8, kind)
}

/// An MP4/QuickTime file (an ISO base media file with a video brand).
pub fn is_isobmff_video(bytes: &[u8]) -> (r: bool)
    ensures
        r == isobmff_video(bytes@),
{
    let ftyp: [u8; 4] = [0x66u8, 0x74u8, 0x79u8, 0x70u8];
    assert(ftyp@ =~= seq![0x66u8, 0x74u8, 0x79u8, 0x70u8]);
    if bytes.len() < 12 || !bytes_match_at(bytes, 4, &ftyp) {
        return false;
    }
    let avif: [u8; 4] = [0x61u8, 0x76u8, 0x69u8, 0x66u8];
    let iso2: [u8; 4] = [0x69u8, 0x73u8, 0x6fu8, 0x32u8];
    let isom: [u8; 4] = [0x69u8, 0x73u8, 0x6fu8, 0x6du8];
    let mp41: [u8; 4] = [0x6du8, 0x70u8, 0x34u8, 0x31u8];
    let mp42: [u8; 4] = [0x6du8, 0x70u8, 0x34u8, 0x32u8];
    let qt: [u8; 4] = [0x71u8, 0x74u8, 0x20u8, 0x20u8];
    assert(avif@ =~= seq![0x61u8, 0x76u8, 0x69u8, 0x66u8]);
    assert(iso2@ =~= seq![0x69u8, 0x73u8, 0x6fu8, 0x32u8]);
    assert(isom@ =~= seq![0x69u8, 0x73u8, 0x6fu8, 0x6du8]);
    assert(mp41@ =~= seq![0x6du8, 0x70u8, 0x34u8, 0x31u8]);
    assert(mp42@ =~= seq![0x6du8, 0x70u8, 0x34u8, 0x32u8]);
    assert(qt@ =~= seq![0x71u8, 0x74u8, 0x20u8, 0x20u8]);
    bytes_match_at(bytes, 8, &avif) || bytes_match_at(bytes, 8, &iso2) || bytes_match_at(
        bytes,
        8,
        &isom,
    ) || bytes_match_at(bytes, 8, &mp41) || bytes_match_at(bytes, 8, &mp42) || bytes_match_at(
        bytes,
        8,
        &qt,
    )
}

/// The kind that a file's contents reveal, when its extension does not.
pub fn classify_signature(bytes: &[u8]) -> (r: Option<MediaKind>)
    ensures
        r == signature_kind(bytes@),
{
    let jpeg: [u8; 3] = [0xffu8, 0xd8u8, 0xffu8];
    let png: [u8; 8] = [0x89u8, 0x50u8, 0x4eu8, 0x47u8, 0x0du8, 0x0au8, 0x1au8, 0x0au8];
    let gif7: [u8; 6] = [0x47u8, 0x49u8, 0x46u8, 0x38u8, 0x37u8, 0x61u8];
    let gif9: [u8; 6] = [0x47u8, 0x49u8, 0x46u8, 0x38u8, 0x39u8, 0x61u8];
    let bmp: [u8; 2] = [0x42u8, 0x4du8];
    let webp: [u8; 4] = [0x57u8, 0x45u8, 0x42u8, 0x50u8];
    let mkv: [u8; 4] = [0x1au8, 0x45u8, 0xdfu8, 0xa3u8];
    assert(jpeg@ =~= seq![0xffu8, 0xd8u8, 0xffu8]);
    assert(png@ =~= seq![0x89u8, 0x50u8, 0x4eu8, 0x47u8, 0x0du8, 0x0au8, 0x1au8, 0x0au8]);
    assert(gif7@ =~= seq![0x47u8, 0x49u8, 0x46u8, 0x38u8, 0x37u8, 0x61u8]);
    assert(gif9@ =~= seq![0x47u8, 0x49u8, 0x46u8, 0x38u8, 0x39u8, 0x61u8]);
    assert(bmp@ =~= seq![0x42u8, 0x4du8]);
    assert(webp@ =~= seq![0x57u8, 0x45u8, 0x42u8, 0x50u8]);
    assert(mkv@ =~= seq![0x1au8, 0x45u8, 0xdfu8, 0xa3u8]);
    if bytes_start_with(bytes, &jpeg) || bytes_start_with(bytes, &png) || bytes_start_with(
        bytes,
        &gif7,
    ) || bytes_start_with(bytes, &gif9) || bytes_start_with(bytes, &bmp) || is_riff_type(
        bytes,
        &webp,
    ) {
        Some(MediaKind::Static)
    } else if is_isobmff_video(bytes) || bytes_start_with(bytes, &mkv) {
        Some(MediaKind::Live)
    } else {
        None
    }
}

/// What `classify_path` decides: the extension first, then the contents, if they could be read.
pub open spec fn classify_spec(path: Seq<char>, contents: Option<Seq<u8>>) -> Option<MediaKind> {
    match path_kind(path) {
        Some(k) => Some(k),
        None => match contents {
            Some(b) => signature_kind(b),
            None => None,
        },
    }
}

/// Classifies a wallpaper by its extension, or else by its contents.
///
/// `contents` is what reading the file gave, `None` when it could not be read;
/// it is only looked at when the extension names no kind.
pub fn classify_path(path: &str, contents: Option<&[u8]>) -> (r: Result<MediaKind, String>)
    ensures
        r is Ok <==> classify_spec(path@, match contents {
            Some(b) => Some(b@),
            None => None,
        }) is Some,
        r matches Ok(k) ==> Some(k) == classify_spec(path@, match contents {
            Some(b) => Some(b@),
            None => None,
        }),
        r matches Err(m) ==> m@ == "unsupported wallpaper media type: "@ + path@,
{
    if let Some(ext) = path_extension(path) {
        if let Some(kind) = classify_extension(&ext) {
            return Ok(kind);
        }
    }
    let found = match contents {
        Some(bytes) => classify_signature(bytes),
        None => None,
    };
    match found {
        Some(kind) => Ok(kind),
        None => Err(cat("unsupported wallpaper media type: ", path)),
    }
}


/// A path classifies by its extension, whatever its contents, and ignoring ASCII case: `mp4`,
/// `webm`, `mkv`, `mov` and `avi` are live wallpapers; `jpg`, `jpeg`, `png`, `webp`, `bmp` and
/// `gif` are still ones.
pub proof fn lemma_extension_decides_kind(path: Seq<char>, contents: Option<Seq<u8>>)
    ensures
        extension(path) matches Some(e) && ({
            let l = lower_seq(e);
            l == "mp4"@ || l == "webm"@ || l == "mkv"@ || l == "mov"@ || l == "avi"@
        }) ==> classify_spec(path, contents) == Some(MediaKind::Live),
        extension(path) matches Some(e) && ({
            let l = lower_seq(e);
            l == "jpg"@ || l == "jpeg"@ || l == "png"@ || l == "webp"@ || l == "bmp"@ || l == "gif"@
        }) ==> classify_spec(path, contents) == Some(MediaKind::Static),
{
    reveal_strlit("mp4");
    reveal_strlit("webm");
    reveal_strlit("mkv");
    reveal_strlit("mov");
    reveal_strlit("avi");
    reveal_strlit("jpg");
    reveal_strlit("jpeg");
    reveal_strlit("png");
    reveal_strlit("webp");
    reveal_strlit("bmp");
    reveal_strlit("gif");
    if let Some(e) = extension(path) {
        let l = lower_seq(e);
        if l == "mp4"@ || l == "webm"@ || l == "mkv"@ || l == "mov"@ || l == "avi"@ {
            assert(l.len() >= 3);
            assert(l[0] == 'm' || l[0] == 'w' || l[0] == 'a');
            assert(l[0] == 'w' ==> l.len() == 4 && l[3] == 'm');
            assert(!(l == "jpg"@ || l == "jpeg"@ || l == "png"@ || l == "webp"@ || l == "bmp"@ || l == "gif"@));
        }
    }
}

} // verus!
