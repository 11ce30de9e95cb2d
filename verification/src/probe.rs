//! The format probe: an ordered fallback chain that extracts at most one
//! clipboard snapshot per tick. Strategies are tried strictly in precedence
//! order — direct pixel buffer, legacy bitmap, dropped image files, plain
//! text — first success wins, and every failure falls through. The chain is
//! a state machine: each state names the native read the worker should
//! perform next, and each step function turns that read's result into a
//! snapshot, the next state, or "no snapshot". The native reads themselves
//! happen outside the library.

use vstd::prelude::*;
use crate::fingerprint::{compute_hash, fingerprint_of};
use crate::models::ContentType;
use crate::monitor::{ClipboardSnapshot, snapshot_wf};
use crate::text::{eq_ignore_ascii_upper, extension_of, matches_ci, path_extension};
use vstd::string::*;
use vstd::utf8::encode_utf8;

verus! {

/// The PNG container bytes that encoding an RGBA pixel buffer yields; a
/// function of the pixels and dimensions alone, and empty when the buffer
/// does not match the dimensions or encoding fails.
pub uninterp spec fn png_of_rgba(raw: Seq<u8>, width: u32, height: u32) -> Seq<u8>;

/// Relies on `image::ImageBuffer::from_raw` and `image::ImageBuffer::write_to`
/// with the PNG format: encode raw RGBA pixels into the portable PNG
/// container. The result depends on the pixels and dimensions alone; an
/// undersized buffer or an encoder failure yields no bytes.
#[verifier::external_body]
fn rgba_to_png(raw: &Vec<u8>, width: u32, height: u32) -> (r: Vec<u8>)
    ensures
        r@ == png_of_rgba(raw@, width, height),
{
    match image::ImageBuffer::<image::Rgba<u8>, std::vec::Vec<u8>>::from_raw(
        width,
        height,
        raw.clone(),
    ) {
        Some(img) => {
            let mut png: Vec<u8> = Vec::new();
            if img.write_to(&mut std::io::Cursor::new(&mut png), image::ImageFormat::Png).is_ok() {
                png
            } else {
                Vec::new()
            }
        },
        None => Vec::new(),
    }
}

/// The PNG container bytes that decoding an encoded image and re-encoding it
/// yields, or nothing when the bytes decode to no image; a function of the
/// input bytes alone.
pub uninterp spec fn png_recode_of(data: Seq<u8>) -> Option<Seq<u8>>;

/// Relies on `image::load_from_memory` and `image::DynamicImage::write_to`
/// with the PNG format: decode encoded image bytes and re-encode them into
/// the portable PNG container. The outcome depends on the input bytes alone.
#[verifier::external_body]
fn reencode_png(data: &Vec<u8>) -> (r: Option<Vec<u8>>)
    ensures
        r matches Some(v) ==> png_recode_of(data@) == Some(v@),
        r is None ==> png_recode_of(data@) is None,
{
    match image::load_from_memory(data.as_slice()) {
        Ok(img) => {
            let mut png: Vec<u8> = Vec::new();
            if img.write_to(&mut std::io::Cursor::new(&mut png), image::ImageFormat::Png).is_ok() {
                Some(png)
            } else {
                None
            }
        },
        Err(_) => None,
    }
}

/// The fixed set of file extensions accepted by the dropped-file strategy,
/// matched without regard to ASCII case.
pub open spec fn is_image_ext(e: Seq<char>) -> bool {
    ||| matches_ci(e, "png"@)
    ||| matches_ci(e, "jpg"@)
    ||| matches_ci(e, "jpeg"@)
    ||| matches_ci(e, "bmp"@)
    ||| matches_ci(e, "webp"@)
    ||| matches_ci(e, "ico"@)
    ||| matches_ci(e, "gif"@)
}

/// A path the dropped-file strategy will try: its extension is one of the
/// known image extensions.
pub open spec fn accepted_image_path(p: Seq<char>) -> bool {
    match path_extension(p) {
        Some(e) => is_image_ext(e),
        None => false,
    }
}

/// Whether this extension is in the accepted set.
fn is_image_ext_exec(e: &String) -> (r: bool)
    ensures
        r == is_image_ext(e@),
{
    eq_ignore_ascii_upper(e.as_str(), "png") || eq_ignore_ascii_upper(e.as_str(), "jpg")
        || eq_ignore_ascii_upper(e.as_str(), "jpeg") || eq_ignore_ascii_upper(e.as_str(), "bmp")
        || eq_ignore_ascii_upper(e.as_str(), "webp") || eq_ignore_ascii_upper(e.as_str(), "ico")
        || eq_ignore_ascii_upper(e.as_str(), "gif")
}

/// Index of the first path at or after `from` whose extension is accepted,
/// or the list's length when there is none.
pub open spec fn next_candidate(files: Seq<String>, from: int) -> int
    decreases files.len() - from,
{
    if !(0 <= from < files.len()) {
        files.len() as int
    } else if accepted_image_path(files[from]@) {
        from
    } else {
        next_candidate(files, from + 1)
    }
}

proof fn lemma_next_candidate(files: Seq<String>, from: int)
    requires
        0 <= from <= files.len(),
    ensures
        from <= next_candidate(files, from) <= files.len(),
        forall|k: int| from <= k < next_candidate(files, from) ==> !accepted_image_path(files[k]@),
        next_candidate(files, from) < files.len() ==> accepted_image_path(
            files[next_candidate(files, from)]@,
        ),
    decreases files.len() - from,
{
    if from < files.len() && !accepted_image_path(files[from]@) {
        lemma_next_candidate(files, from + 1);
    }
}

/// Find the first candidate path at or after `from`.
fn find_candidate(files: &Vec<String>, from: usize) -> (r: usize)
    requires
        from <= files@.len(),
    ensures
        r == next_candidate(files@, from as int),
{
    proof {
        lemma_next_candidate(files@, from as int);
    }
    let n = files.len();
    let mut i: usize = from;
    while i < n
        invariant
            from <= i <= n,
            n == files@.len(),
            forall|k: int| from <= k < i ==> !accepted_image_path(files@[k]@),
        decreases n - i,
    {
        let ok = match extension_of(files[i].as_str()) {
            Some(e) => is_image_ext_exec(&e),
            None => false,
        };
        if ok {
            proof {
                lemma_next_candidate(files@, from as int);
                if next_candidate(files@, from as int) < i {
                    assert(accepted_image_path(files@[next_candidate(files@, from as int)]@));
                }
                if i < next_candidate(files@, from as int) {
                    assert(!accepted_image_path(files@[i as int]@));
                }
            }
            return i;
        }
        i = i + 1;
    }
    proof {
        if next_candidate(files@, from as int) < n {
            assert(accepted_image_path(files@[next_candidate(files@, from as int)]@));
        }
    }
    n
}

/// What the native direct-image read produced: a raw RGBA pixel buffer, or
/// nothing — a missing format and a read error alike fall through.
pub enum DirectImageProbe {
    /// Raw RGBA bytes with the image's dimensions.
    Pixels { raw: Vec<u8>, width: u32, height: u32 },
    /// The format is absent or could not be read.
    Missing,
}

/// The native read the worker should perform next.
pub enum ProbeState {
    /// Query the direct pixel-buffer format.
    AwaitDirect,
    /// Read the legacy bitmap format used by some third-party capture tools.
    AwaitLegacy,
    /// Query the dropped-file list.
    AwaitFiles,
    /// Stat, read and decode the file at `files[idx]`, an accepted image
    /// path.
    AwaitFileData { files: Vec<String>, idx: usize },
    /// Read the plain-text format.
    AwaitText,
}

/// What a step decides: a capture, the next read to perform, or the end of
/// the chain with nothing found.
pub enum ProbeOutcome {
    /// First success: the chain stops here.
    Captured(ClipboardSnapshot),
    /// Fall through to the next strategy.
    Next(ProbeState),
    /// The chain is exhausted; no callback fires this tick.
    NoSnapshot,
}

/// Where every tick's chain begins.
pub fn probe_start() -> (s: ProbeState)
    ensures
        s == ProbeState::AwaitDirect,
{
    ProbeState::AwaitDirect
}

/// Step 1, the direct pixel buffer. On pixels, the fingerprint is computed
/// over the raw decoded pixel bytes — not the encoded output, so that
/// re-encoding is irrelevant to fingerprint stability — and the pixels are
/// encoded to the portable container. A failed encode falls through to the
/// dropped-file list; an absent format or failed read falls through to the
/// legacy bitmap.
pub fn on_direct(probe: DirectImageProbe) -> (r: ProbeOutcome)
    ensures
        probe matches DirectImageProbe::Pixels { raw, width, height } ==> {
            if png_of_rgba(raw@, width, height).len() > 0 {
                &&& r matches ProbeOutcome::Captured(s)
                &&& snapshot_wf(s)
                &&& s.content_type == ContentType::Image
                &&& s.image_data matches Some(d) && d@ == png_of_rgba(raw@, width, height)
                &&& s.hash@ == fingerprint_of(raw@)
            } else {
                r == ProbeOutcome::Next(ProbeState::AwaitFiles)
            }
        },
        probe is Missing ==> r == ProbeOutcome::Next(ProbeState::AwaitLegacy),
{
    match probe {
        DirectImageProbe::Pixels { raw, width, height } => {
            let hash = compute_hash(raw.as_slice());
            let png = rgba_to_png(&raw, width, height);
            if png.len() > 0 {
                ProbeOutcome::Captured(
                    ClipboardSnapshot {
                        content_type: ContentType::Image,
                        plain_text: None,
                        rich_text: None,
                        image_data: Some(png),
                        hash,
                    },
                )
            } else {
                ProbeOutcome::Next(ProbeState::AwaitFiles)
            }
        },
        DirectImageProbe::Missing => ProbeOutcome::Next(ProbeState::AwaitLegacy),
    }
}

/// Step 2, the legacy bitmap. The fingerprint is computed over the encoded
/// bitmap bytes themselves — deliberately a different fingerprint domain
/// than step 1 — and the bytes are decoded and re-encoded to the same
/// portable container. Absent data, empty data, or a failed decode falls
/// through to the dropped-file list.
pub fn on_legacy(data: Option<Vec<u8>>) -> (r: ProbeOutcome)
    ensures
        (data matches Some(b) && b@.len() > 0) ==> {
            match png_recode_of(data->0@) {
                Some(png) => {
                    &&& r matches ProbeOutcome::Captured(s)
                    &&& snapshot_wf(s)
                    &&& s.content_type == ContentType::Image
                    &&& s.image_data matches Some(d) && d@ == png
                    &&& s.hash@ == fingerprint_of(data->0@)
                },
                None => r == ProbeOutcome::Next(ProbeState::AwaitFiles),
            }
        },
        (data matches Some(b) && b@.len() == 0) ==> r == ProbeOutcome::Next(
            ProbeState::AwaitFiles,
        ),
        data is None ==> r == ProbeOutcome::Next(ProbeState::AwaitFiles),
{
    match data {
        Some(bytes) => {
            if bytes.len() == 0 {
                return ProbeOutcome::Next(ProbeState::AwaitFiles);
            }
            let hash = compute_hash(bytes.as_slice());
            match reencode_png(&bytes) {
                Some(png) => ProbeOutcome::Captured(
                    ClipboardSnapshot {
                        content_type: ContentType::Image,
                        plain_text: None,
                        rich_text: None,
                        image_data: Some(png),
                        hash,
                    },
                ),
                None => ProbeOutcome::Next(ProbeState::AwaitFiles),
            }
        },
        None => ProbeOutcome::Next(ProbeState::AwaitFiles),
    }
}

/// Step 3, entry: the dropped-file list. Paths are considered in their given
/// order; only files whose extension is in the fixed known-image set are
/// candidates. With no candidate — an empty or absent list included — the
/// chain falls through to plain text.
pub fn on_files(files: Vec<String>) -> (r: ProbeOutcome)
    ensures
        next_candidate(files@, 0) < files@.len() ==> r == ProbeOutcome::Next(
            ProbeState::AwaitFileData { files, idx: next_candidate(files@, 0) as usize },
        ),
        next_candidate(files@, 0) == files@.len() ==> r == ProbeOutcome::Next(
            ProbeState::AwaitText,
        ),
{
    proof {
        lemma_next_candidate(files@, 0);
    }
    let idx = find_candidate(&files, 0);
    if idx < files.len() {
        ProbeOutcome::Next(ProbeState::AwaitFileData { files, idx })
    } else {
        ProbeOutcome::Next(ProbeState::AwaitText)
    }
}

/// Step 3, per candidate: the worker hands back the file's decodable bytes,
/// or nothing for a missing path, a non-regular file, or an unreadable one.
/// The first candidate that decodes wins; its fingerprint is computed over
/// the final re-encoded bytes. Otherwise the chain moves to the next
/// candidate, or to plain text when none is left.
pub fn on_file_data(files: Vec<String>, idx: usize, data: Option<Vec<u8>>) -> (r: ProbeOutcome)
    requires
        idx < files@.len(),
    ensures
        data matches Some(b) ==> match png_recode_of(b@) {
            Some(png) => {
                &&& r matches ProbeOutcome::Captured(s)
                &&& snapshot_wf(s)
                &&& s.content_type == ContentType::Image
                &&& s.image_data matches Some(d) && d@ == png
                &&& s.hash@ == fingerprint_of(png)
            },
            None => r == if next_candidate(files@, idx + 1) < files@.len() {
                ProbeOutcome::Next(
                    ProbeState::AwaitFileData {
                        files,
                        idx: next_candidate(files@, idx + 1) as usize,
                    },
                )
            } else {
                ProbeOutcome::Next(ProbeState::AwaitText)
            },
        },
        data is None ==> r == if next_candidate(files@, idx + 1) < files@.len() {
            ProbeOutcome::Next(
                ProbeState::AwaitFileData { files, idx: next_candidate(files@, idx + 1) as usize },
            )
        } else {
            ProbeOutcome::Next(ProbeState::AwaitText)
        },
{
    let n = files.len();
    if let Some(bytes) = data {
        if let Some(png) = reencode_png(&bytes) {
            let hash = compute_hash(png.as_slice());
            return ProbeOutcome::Captured(
                ClipboardSnapshot {
                    content_type: ContentType::Image,
                    plain_text: None,
                    rich_text: None,
                    image_data: Some(png),
                    hash,
                },
            );
        }
    }
    proof {
        lemma_next_candidate(files@, idx + 1);
    }
    let nxt = find_candidate(&files, idx + 1);
    if nxt < n {
        ProbeOutcome::Next(ProbeState::AwaitFileData { files, idx: nxt })
    } else {
        ProbeOutcome::Next(ProbeState::AwaitText)
    }
}

/// Step 4, plain text. An empty string is "no content", not a capture. The
/// fingerprint is computed over the text's raw bytes. With no text either,
/// the chain is exhausted: no snapshot this tick.
pub fn on_text(text: Option<String>) -> (r: ProbeOutcome)
    ensures
        (text matches Some(t) && t@.len() > 0) ==> {
            &&& r matches ProbeOutcome::Captured(s)
            &&& snapshot_wf(s)
            &&& s.content_type == ContentType::Text
            &&& s.plain_text == Some(text->0)
            &&& s.hash@ == fingerprint_of(encode_utf8(text->0@))
        },
        (text matches Some(t) && t@.len() == 0) ==> r == ProbeOutcome::NoSnapshot,
        text is None ==> r == ProbeOutcome::NoSnapshot,
{
    match text {
        Some(t) => {
            if t.as_str().unicode_len() == 0 {
                return ProbeOutcome::NoSnapshot;
            }
            let hash = compute_hash(t.as_str().as_bytes());
            ProbeOutcome::Captured(
                ClipboardSnapshot {
                    content_type: ContentType::Text,
                    plain_text: Some(t),
                    rich_text: None,
                    image_data: None,
                    hash,
                },
            )
        },
        None => ProbeOutcome::NoSnapshot,
    }
}

} // verus!
