//! Data models for clipboard history: the closed set of content types and
//! the persisted history record, with its derived display preview.

use vstd::prelude::*;
use crate::text::{make_preview, spec_preview, str_eq};

verus! {

/// The longest preview kept for a record, in characters, before the text is
/// truncated with an ellipsis.
pub const PREVIEW_MAX_LEN: usize = 100;

/// The kind of content a clipboard capture carries. Exactly one payload field
/// of a snapshot or record is populated, matching this tag.
#[derive(Debug, Clone, Copy, PartialEq, Eq, Structural)]
pub enum ContentType {
    /// Plain text.
    Text,
    /// Rich text carrying HTML beside its plain rendering.
    RichText,
    /// An image, held as portably encoded bytes.
    Image,
}

/// The tag a content-type string denotes, if any.
pub open spec fn content_type_of(s: Seq<char>) -> Option<ContentType> {
    if s == "text"@ {
        Some(ContentType::Text)
    } else if s == "rich_text"@ {
        Some(ContentType::RichText)
    } else if s == "image"@ {
        Some(ContentType::Image)
    } else {
        None
    }
}

/// The string denoting a content type.
pub open spec fn content_type_str(t: ContentType) -> Seq<char> {
    match t {
        ContentType::Text => "text"@,
        ContentType::RichText => "rich_text"@,
        ContentType::Image => "image"@,
    }
}

impl ContentType {
    /// Parse a content-type tag from its string form.
    pub fn from_str(s: &str) -> (r: Option<Self>)
        ensures
            r == content_type_of(s@),
    {
        if str_eq(s, "text") {
            Some(ContentType::Text)
        } else if str_eq(s, "rich_text") {
            Some(ContentType::RichText)
        } else if str_eq(s, "image") {
            Some(ContentType::Image)
        } else {
            None
        }
    }

    /// The string form of this content type.
    pub fn as_str(&self) -> (r: &'static str)
        ensures
            r@ == content_type_str(*self),
    {
        match self {
            ContentType::Text => "text",
            ContentType::RichText => "rich_text",
            ContentType::Image => "image",
        }
    }
}

/// Parsing the string form of a content type gives the type back; the three
/// string forms are distinct.
pub proof fn lemma_content_type_round_trip(t: ContentType)
    ensures
        content_type_of(content_type_str(t)) == Some(t),
{
    reveal_strlit("text");
    reveal_strlit("rich_text");
    reveal_strlit("image");
    assert("text"@.len() == 4);
    assert("rich_text"@.len() == 9);
    assert("image"@.len() == 5);
}

/// A persisted clipboard history record.
pub struct ClipboardItem {
    /// Store-assigned identifier, unique for the record's lifetime and never
    /// reused after deletion.
    pub id: i64,
    /// Which payload the record carries.
    pub content_type: ContentType,
    /// Plain text content; populated for both text and rich text records.
    pub plain_text: Option<String>,
    /// Rich text HTML content.
    pub rich_text: Option<String>,
    /// Opaque reference resolving to the image bytes, relative to the asset
    /// store.
    pub image_path: Option<String>,
    /// Small encoded image preview for display.
    pub image_thumbnail: Option<String>,
    /// Truncated display string.
    pub preview: String,
    /// Content fingerprint, unique across the whole store.
    pub hash: String,
    /// Capture timestamp in milliseconds, immutable after insert.
    pub created_at: i64,
    /// Whether the record is protected from eviction.
    pub is_pinned: bool,
}

fn clone_opt_string(o: &Option<String>) -> (r: Option<String>)
    ensures
        r == *o,
{
    match o {
        Some(s) => Some(s.clone()),
        None => None,
    }
}

impl Clone for ClipboardItem {
    /// An exact copy of the record.
    fn clone(&self) -> (r: Self)
        ensures
            r == *self,
    {
        ClipboardItem {
            id: self.id,
            content_type: self.content_type,
            plain_text: clone_opt_string(&self.plain_text),
            rich_text: clone_opt_string(&self.rich_text),
            image_path: clone_opt_string(&self.image_path),
            image_thumbnail: clone_opt_string(&self.image_thumbnail),
            preview: self.preview.clone(),
            hash: self.hash.clone(),
            created_at: self.created_at,
            is_pinned: self.is_pinned,
        }
    }
}

impl ClipboardItem {
    /// A new plain-text record, unpinned, with its preview derived from the
    /// text.
    pub fn new_text(id: i64, text: String, hash: String, created_at: i64) -> (r: Self)
        ensures
            r.id == id,
            r.content_type == ContentType::Text,
            r.plain_text == Some(text),
            r.rich_text is None,
            r.image_path is None,
            r.image_thumbnail is None,
            r.preview@ == spec_preview(text@, PREVIEW_MAX_LEN as int),
            r.hash == hash,
            r.created_at == created_at,
            !r.is_pinned,
    {
        let preview = make_preview(text.as_str(), PREVIEW_MAX_LEN);
        ClipboardItem {
            id,
            content_type: ContentType::Text,
            plain_text: Some(text),
            rich_text: None,
            image_path: None,
            image_thumbnail: None,
            preview,
            hash,
            created_at,
            is_pinned: false,
        }
    }

    /// A new rich-text record, unpinned, with its preview derived from the
    /// plain rendering.
    pub fn new_rich_text(id: i64, plain: String, html: String, hash: String, created_at: i64) -> (r:
        Self)
        ensures
            r.id == id,
            r.content_type == ContentType::RichText,
            r.plain_text == Some(plain),
            r.rich_text == Some(html),
            r.image_path is None,
            r.image_thumbnail is None,
            r.preview@ == spec_preview(plain@, PREVIEW_MAX_LEN as int),
            r.hash == hash,
            r.created_at == created_at,
            !r.is_pinned,
    {
        let preview = make_preview(plain.as_str(), PREVIEW_MAX_LEN);
        ClipboardItem {
            id,
            content_type: ContentType::RichText,
            plain_text: Some(plain),
            rich_text: Some(html),
            image_path: None,
            image_thumbnail: None,
            preview,
            hash,
            created_at,
            is_pinned: false,
        }
    }

    /// A new image record, unpinned, whose preview is a fixed marker.
    pub fn new_image(
        id: i64,
        image_path: String,
        thumbnail: Option<String>,
        hash: String,
        created_at: i64,
    ) -> (r: Self)
        ensures
            r.id == id,
            r.content_type == ContentType::Image,
            r.plain_text is None,
            r.rich_text is None,
            r.image_path == Some(image_path),
            r.image_thumbnail == thumbnail,
            r.preview@ == "[Image]"@,
            r.hash == hash,
            r.created_at == created_at,
            !r.is_pinned,
    {
        ClipboardItem {
            id,
            content_type: ContentType::Image,
            plain_text: None,
            rich_text: None,
            image_path: Some(image_path),
            image_thumbnail: thumbnail,
            preview: String::from_str("[Image]"),
            hash,
            created_at,
            is_pinned: false,
        }
    }
}

/// The slimmed record handed to display code: everything a list view needs,
/// without the payloads.
pub struct ClipboardItemView {
    pub id: i64,
    pub content_type: ContentType,
    pub preview: String,
    pub image_thumbnail: Option<String>,
    pub created_at: i64,
    pub is_pinned: bool,
}

impl ClipboardItemView {
    /// Project a record down to its display fields.
    pub fn from_item(item: &ClipboardItem) -> (r: Self)
        ensures
            r.id == item.id,
            r.content_type == item.content_type,
            r.preview == item.preview,
            r.image_thumbnail == item.image_thumbnail,
            r.created_at == item.created_at,
            r.is_pinned == item.is_pinned,
    {
        ClipboardItemView {
            id: item.id,
            content_type: item.content_type,
            preview: item.preview.clone(),
            image_thumbnail: clone_opt_string(&item.image_thumbnail),
            created_at: item.created_at,
            is_pinned: item.is_pinned,
        }
    }
}

} // verus!
