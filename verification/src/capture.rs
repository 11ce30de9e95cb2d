//! Handling one captured snapshot: the early duplicate check against the
//! store, record construction with a derived thumbnail for images, and the
//! insert followed by eviction. Saving image bytes durably is the caller's
//! half of the image path: the plan names the bytes to save, the caller
//! hands back the reference they resolve to.

use vstd::prelude::*;
use crate::models::{ClipboardItem, ContentType, PREVIEW_MAX_LEN};
use crate::monitor::ClipboardSnapshot;
use crate::storage::{
    HistoryStore,
    StoreError,
    contains_fp,
    spec_cleanup,
    spec_insert,
    with_id,
};
use crate::text::spec_preview;

verus! {

/// The PNG bytes of a small preview derived from an encoded image, or
/// nothing when the bytes decode to no image; a function of the input bytes
/// alone.
pub uninterp spec fn thumb_png_of(data: Seq<u8>) -> Option<Seq<u8>>;

/// Relies on `image::load_from_memory`, `image::DynamicImage::thumbnail` and
/// `image::DynamicImage::write_to` with the PNG format: decode the bytes,
/// shrink them to a small preview, and encode that as PNG. The outcome
/// depends on the input bytes alone.
#[verifier::external_body]
fn thumbnail_png(data: &Vec<u8>) -> (r: Option<Vec<u8>>)
    ensures
        r matches Some(v) ==> thumb_png_of(data@) == Some(v@),
        r is None ==> thumb_png_of(data@) is None,
{
    match image::load_from_memory(data.as_slice()) {
        Ok(img) => {
            let small = img.thumbnail(64, 64);
            let mut png: Vec<u8> = Vec::new();
            if small.write_to(
                &mut std::io::Cursor::new(&mut png),
                image::ImageFormat::Png,
            ).is_ok() {
                Some(png)
            } else {
                None
            }
        },
        Err(_) => None,
    }
}

/// The base64 rendering of a byte sequence, a function of the bytes alone.
pub uninterp spec fn base64_of(data: Seq<u8>) -> Seq<char>;

/// Relies on base64's `STANDARD` engine `encode`: RFC 4648 base64 with
/// padding, a function of the input bytes alone. The engine panics only when
/// the output length overflows `usize`, which the length bound excludes.
#[verifier::external_body]
fn base64_encode(data: &Vec<u8>) -> (r: String)
    requires
        data@.len() <= 0x1000_0000,
    ensures
        r@ == base64_of(data@),
{
    base64::Engine::encode(&base64::engine::general_purpose::STANDARD, data.as_slice())
}

/// The inline data URL under which a thumbnail is handed to display code, or
/// nothing when the image cannot be decoded or its preview is unreasonably
/// large.
pub open spec fn spec_thumbnail(data: Seq<u8>) -> Option<Seq<char>> {
    match thumb_png_of(data) {
        Some(png) => if png.len() <= 0x1000_0000 {
            Some("data:image/png;base64,"@ + base64_of(png))
        } else {
            None
        },
        None => None,
    }
}

/// Derive the inline thumbnail of an encoded image.
pub fn generate_thumbnail(data: &Vec<u8>) -> (r: Option<String>)
    ensures
        r matches Some(s) ==> spec_thumbnail(data@) == Some(s@),
        r is None ==> spec_thumbnail(data@) is None,
{
    match thumbnail_png(data) {
        Some(png) => {
            if png.len() > 0x1000_0000 {
                return None;
            }
            let b64 = base64_encode(&png);
            let prefix = String::from_str("data:image/png;base64,");
            Some(prefix.concat(b64.as_str()))
        },
        None => None,
    }
}

/// What to do with one captured snapshot.
pub enum CapturePlan {
    /// The fingerprint is already stored, or the snapshot carries no usable
    /// payload: the capture is abandoned before any expensive work.
    Skip,
    /// A text or rich-text record, ready to insert.
    Store(ClipboardItem),
    /// An image: save `png` durably, then build the record from the
    /// reference it resolves to and insert that.
    SaveImage { png: Vec<u8>, thumbnail: Option<String>, hash: String },
}

/// Decide what to do with a snapshot: abandon known fingerprints before any
/// expensive work, build the record for text content, and derive the
/// thumbnail for images, whose bytes the caller must first save durably.
pub fn plan_capture(store: &HistoryStore, snapshot: ClipboardSnapshot, created_at_ms: i64) -> (r:
    CapturePlan)
    ensures
        contains_fp(store@, snapshot.hash@) ==> r is Skip,
        !contains_fp(store@, snapshot.hash@) ==> match snapshot.content_type {
            ContentType::Text => match snapshot.plain_text {
                Some(t) => {
                    &&& r matches CapturePlan::Store(it)
                    &&& it.id == 0
                    &&& it.content_type == ContentType::Text
                    &&& it.plain_text == Some(t)
                    &&& it.rich_text is None
                    &&& it.image_path is None
                    &&& it.image_thumbnail is None
                    &&& it.preview@ == spec_preview(t@, PREVIEW_MAX_LEN as int)
                    &&& it.hash == snapshot.hash
                    &&& it.created_at == created_at_ms
                    &&& !it.is_pinned
                },
                None => r is Skip,
            },
            ContentType::RichText => {
                if snapshot.plain_text is Some && snapshot.rich_text is Some {
                    &&& r matches CapturePlan::Store(it)
                    &&& it.id == 0
                    &&& it.content_type == ContentType::RichText
                    &&& it.plain_text == snapshot.plain_text
                    &&& it.rich_text == snapshot.rich_text
                    &&& it.image_path is None
                    &&& it.image_thumbnail is None
                    &&& it.preview@ == spec_preview(
                        snapshot.plain_text->0@,
                        PREVIEW_MAX_LEN as int,
                    )
                    &&& it.hash == snapshot.hash
                    &&& it.created_at == created_at_ms
                    &&& !it.is_pinned
                } else {
                    r is Skip
                }
            },
            ContentType::Image => match snapshot.image_data {
                Some(d) => {
                    &&& r matches CapturePlan::SaveImage { png, thumbnail, hash }
                    &&& png == d
                    &&& hash == snapshot.hash
                    &&& (thumbnail matches Some(s) ==> spec_thumbnail(d@) == Some(s@))
                    &&& (thumbnail is None ==> spec_thumbnail(d@) is None)
                },
                None => r is Skip,
            },
        },
{
    if store.hash_exists(snapshot.hash.as_str()) {
        return CapturePlan::Skip;
    }
    match snapshot.content_type {
        ContentType::Text => match snapshot.plain_text {
            Some(text) => CapturePlan::Store(
                ClipboardItem::new_text(0, text, snapshot.hash, created_at_ms),
            ),
            None => CapturePlan::Skip,
        },
        ContentType::RichText => {
            if let (Some(plain), Some(html)) = (snapshot.plain_text, snapshot.rich_text) {
                CapturePlan::Store(
                    ClipboardItem::new_rich_text(0, plain, html, snapshot.hash, created_at_ms),
                )
            } else {
                CapturePlan::Skip
            }
        },
        ContentType::Image => match snapshot.image_data {
            Some(png) => {
                let thumbnail = generate_thumbnail(&png);
                CapturePlan::SaveImage { png, thumbnail, hash: snapshot.hash }
            },
            None => CapturePlan::Skip,
        },
    }
}

/// Persist one record and enforce the retention cap right after, as every
/// successful insert must. A duplicate fingerprint is rejected and leaves
/// the store untouched.
pub fn commit_capture(store: &mut HistoryStore, item: &ClipboardItem, limit: i32) -> (r: Result<
    i64,
    StoreError,
>)
    requires
        old(store).wf(),
        old(store).spec_next_id() < i64::MAX as int,
    ensures
        final(store).wf(),
        contains_fp(old(store)@, item.hash@) ==> r == Err::<i64, StoreError>(StoreError::Duplicate)
            && final(store)@ == old(store)@,
        !contains_fp(old(store)@, item.hash@) ==> r == Ok::<i64, StoreError>(
            old(store).spec_next_id() as i64,
        ) && final(store)@ == spec_cleanup(
            spec_insert(old(store)@, with_id(*item, old(store).spec_next_id())),
            limit as int,
        ),
{
    let inserted = store.insert_clipboard_item(item);
    match inserted {
        Ok(id) => {
            if limit > 0 {
                store.cleanup_old_items(limit);
            }
            Ok(id)
        },
        Err(e) => Err(e),
    }
}

} // verus!
