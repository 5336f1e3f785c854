//! What is kept of an image.

use vstd::prelude::*;

use crate::text;
use crate::rows::Copied;

verus! {

/// An image that the narrator asked for.
#[derive(Debug, PartialEq)]
pub struct ImageRequest {
    pub description: String,
    pub character_ids: Vec<String>,
}

/// What an `ImageRequest` stands for.
#[verifier::ext_equal]
pub struct ImageRequestView {
    pub description: Seq<char>,
    pub character_ids: Seq<Seq<char>>,
}

impl View for ImageRequest {
    type V = ImageRequestView;

    open spec fn view(&self) -> ImageRequestView {
        ImageRequestView {
            description: self.description@,
            character_ids: self.character_ids.deep_view(),
        }
    }
}

impl DeepView for ImageRequest {
    type V = ImageRequestView;

    open spec fn deep_view(&self) -> ImageRequestView {
        self@
    }
}

impl ImageRequest {
    /// The same row.
    pub fn copy(&self) -> (r: ImageRequest)
        ensures
            r@ == self@,
    {
        ImageRequest {
            description: self.description.clone(),
            character_ids: text::copy_list(&self.character_ids),
        }
    }
}

/// An image of a scene.
#[derive(Debug, PartialEq)]
pub struct StoryImage {
    pub id: String,
    pub entry_id: String,
    pub path: String,
    pub prompt: String,
    pub created_at: String,
}

/// What a `StoryImage` stands for.
#[verifier::ext_equal]
pub struct StoryImageView {
    pub id: Seq<char>,
    pub entry_id: Seq<char>,
    pub path: Seq<char>,
    pub prompt: Seq<char>,
    pub created_at: Seq<char>,
}

impl View for StoryImage {
    type V = StoryImageView;

    open spec fn view(&self) -> StoryImageView {
        StoryImageView {
            id: self.id@,
            entry_id: self.entry_id@,
            path: self.path@,
            prompt: self.prompt@,
            created_at: self.created_at@,
        }
    }
}

impl DeepView for StoryImage {
    type V = StoryImageView;

    open spec fn deep_view(&self) -> StoryImageView {
        self@
    }
}

impl StoryImage {
    /// The same row.
    pub fn copy(&self) -> (r: StoryImage)
        ensures
            r@ == self@,
    {
        StoryImage {
            id: self.id.clone(),
            entry_id: self.entry_id.clone(),
            path: self.path.clone(),
            prompt: self.prompt.clone(),
            created_at: self.created_at.clone(),
        }
    }
}

/// The bytes of an image.
#[derive(Debug, PartialEq)]
pub struct ImageBlob {
    pub asset_id: String,
    pub media_type: String,
    pub bytes: Vec<u8>,
}

/// What an `ImageBlob` stands for.
#[verifier::ext_equal]
pub struct ImageBlobView {
    pub asset_id: Seq<char>,
    pub media_type: Seq<char>,
    pub bytes: Seq<u8>,
}

impl View for ImageBlob {
    type V = ImageBlobView;

    open spec fn view(&self) -> ImageBlobView {
        ImageBlobView {
            asset_id: self.asset_id@,
            media_type: self.media_type@,
            bytes: self.bytes@,
        }
    }
}

impl DeepView for ImageBlob {
    type V = ImageBlobView;

    open spec fn deep_view(&self) -> ImageBlobView {
        self@
    }
}

impl ImageBlob {
    /// The same row.
    pub fn copy(&self) -> (r: ImageBlob)
        ensures
            r@ == self@,
    {
        ImageBlob {
            asset_id: self.asset_id.clone(),
            media_type: self.media_type.clone(),
            bytes: copy_bytes(&self.bytes),
        }
    }
}

/// The same bytes.
pub fn copy_bytes(bytes: &Vec<u8>) -> (r: Vec<u8>)
    ensures
        r@ == bytes@,
{
    let mut out: Vec<u8> = Vec::new();
    let mut i: usize = 0;
    while i < bytes.len()
        invariant
            0 <= i <= bytes@.len(),
            out@ == bytes@.take(i as int),
        decreases bytes@.len() - i,
    {
        out.push(bytes[i]);
        i += 1;
        assert(out@ =~= bytes@.take(i as int));
    }
    assert(bytes@.take(i as int) =~= bytes@);
    out
}

impl Copied for StoryImage {
    fn copied(&self) -> (r: StoryImage) {
        self.copy()
    }
}

impl Copied for ImageBlob {
    fn copied(&self) -> (r: ImageBlob) {
        self.copy()
    }
}

} // verus!
