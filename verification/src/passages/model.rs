//! What a book of passages holds.

use vstd::prelude::*;

use crate::rows::Copied;
use crate::sorting::Keyed;
use crate::{rows, text};

verus! {

/// A line of the story.
#[derive(Debug, PartialEq)]
pub struct Branch {
    pub id: String,
    pub story_id: String,
}

/// What a `Branch` stands for.
#[verifier::ext_equal]
pub struct BranchView {
    pub id: Seq<char>,
    pub story_id: Seq<char>,
}

impl View for Branch {
    type V = BranchView;

    open spec fn view(&self) -> BranchView {
        BranchView {
            id: self.id@,
            story_id: self.story_id@,
        }
    }
}

impl DeepView for Branch {
    type V = BranchView;

    open spec fn deep_view(&self) -> BranchView {
        self@
    }
}

impl Branch {
    /// The same row.
    pub fn copy(&self) -> (r: Branch)
        ensures
            r@ == self@,
    {
        Branch {
            id: self.id.clone(),
            story_id: self.story_id.clone(),
        }
    }
}

/// A passage of a branch.
#[derive(Debug, PartialEq)]
pub struct Passage {
    pub id: String,
    pub branch_id: String,
    pub seq: i64,
    pub role: String,
    pub input_mode: String,
    pub content: String,
    pub thoughts: Option<String>,
    pub created_at: String,
    pub edited_at: Option<String>,
}

/// What a `Passage` stands for.
#[verifier::ext_equal]
pub struct PassageView {
    pub id: Seq<char>,
    pub branch_id: Seq<char>,
    pub seq: i64,
    pub role: Seq<char>,
    pub input_mode: Seq<char>,
    pub content: Seq<char>,
    pub thoughts: Option<Seq<char>>,
    pub created_at: Seq<char>,
    pub edited_at: Option<Seq<char>>,
}

impl View for Passage {
    type V = PassageView;

    open spec fn view(&self) -> PassageView {
        PassageView {
            id: self.id@,
            branch_id: self.branch_id@,
            seq: self.seq,
            role: self.role@,
            input_mode: self.input_mode@,
            content: self.content@,
            thoughts: self.thoughts.deep_view(),
            created_at: self.created_at@,
            edited_at: self.edited_at.deep_view(),
        }
    }
}

impl DeepView for Passage {
    type V = PassageView;

    open spec fn deep_view(&self) -> PassageView {
        self@
    }
}

impl Passage {
    /// The same row.
    pub fn copy(&self) -> (r: Passage)
        ensures
            r@ == self@,
    {
        Passage {
            id: self.id.clone(),
            branch_id: self.branch_id.clone(),
            seq: self.seq,
            role: self.role.clone(),
            input_mode: self.input_mode.clone(),
            content: self.content.clone(),
            thoughts: text::copy_option(&self.thoughts),
            created_at: self.created_at.clone(),
            edited_at: text::copy_option(&self.edited_at),
        }
    }
}

/// Another telling of a passage.
#[derive(Debug, PartialEq)]
pub struct PassageVariant {
    pub id: String,
    pub passage_id: String,
    pub content: String,
    pub is_selected: bool,
    pub created_at: String,
}

/// What a `PassageVariant` stands for.
#[verifier::ext_equal]
pub struct VariantView {
    pub id: Seq<char>,
    pub passage_id: Seq<char>,
    pub content: Seq<char>,
    pub is_selected: bool,
    pub created_at: Seq<char>,
}

impl View for PassageVariant {
    type V = VariantView;

    open spec fn view(&self) -> VariantView {
        VariantView {
            id: self.id@,
            passage_id: self.passage_id@,
            content: self.content@,
            is_selected: self.is_selected,
            created_at: self.created_at@,
        }
    }
}

impl DeepView for PassageVariant {
    type V = VariantView;

    open spec fn deep_view(&self) -> VariantView {
        self@
    }
}

impl PassageVariant {
    /// The same row.
    pub fn copy(&self) -> (r: PassageVariant)
        ensures
            r@ == self@,
    {
        PassageVariant {
            id: self.id.clone(),
            passage_id: self.passage_id.clone(),
            content: self.content.clone(),
            is_selected: self.is_selected,
            created_at: self.created_at.clone(),
        }
    }
}

/// An image of a passage.
#[derive(Debug, PartialEq)]
pub struct PassageImage {
    pub id: String,
    pub passage_id: String,
    pub path: String,
    pub prompt: String,
    pub seed: Option<i64>,
    pub provider: String,
    pub created_at: String,
}

/// What a `PassageImage` stands for.
#[verifier::ext_equal]
pub struct PassageImageView {
    pub id: Seq<char>,
    pub passage_id: Seq<char>,
    pub path: Seq<char>,
    pub prompt: Seq<char>,
    pub seed: Option<i64>,
    pub provider: Seq<char>,
    pub created_at: Seq<char>,
}

impl View for PassageImage {
    type V = PassageImageView;

    open spec fn view(&self) -> PassageImageView {
        PassageImageView {
            id: self.id@,
            passage_id: self.passage_id@,
            path: self.path@,
            prompt: self.prompt@,
            seed: self.seed,
            provider: self.provider@,
            created_at: self.created_at@,
        }
    }
}

impl DeepView for PassageImage {
    type V = PassageImageView;

    open spec fn deep_view(&self) -> PassageImageView {
        self@
    }
}

impl PassageImage {
    /// The same row.
    pub fn copy(&self) -> (r: PassageImage)
        ensures
            r@ == self@,
    {
        PassageImage {
            id: self.id.clone(),
            passage_id: self.passage_id.clone(),
            path: self.path.clone(),
            prompt: self.prompt.clone(),
            seed: self.seed,
            provider: self.provider.clone(),
            created_at: self.created_at.clone(),
        }
    }
}

/// The passages of all branches, with their variants and images. Passages of one branch stand in
/// the order of their sequence numbers, and every operation keeps that order.
#[derive(Debug, PartialEq)]
pub struct Book {
    pub branches: Vec<Branch>,
    pub passages: Vec<Passage>,
    pub variants: Vec<PassageVariant>,
    pub images: Vec<PassageImage>,
}

/// What a `Book` holds.
#[verifier::ext_equal]
pub struct BookView {
    pub branches: Seq<BranchView>,
    pub passages: Seq<PassageView>,
    pub variants: Seq<VariantView>,
    pub images: Seq<PassageImageView>,
}

impl View for Book {
    type V = BookView;

    open spec fn view(&self) -> BookView {
        BookView {
            branches: self.branches.deep_view(),
            passages: self.passages.deep_view(),
            variants: self.variants.deep_view(),
            images: self.images.deep_view(),
        }
    }
}

impl Book {
    /// The same book.
    pub fn copy(&self) -> (r: Book)
        ensures
            r@ == self@,
    {
        Book {
            branches: rows::copy_rows(&self.branches),
            passages: rows::copy_rows(&self.passages),
            variants: rows::copy_rows(&self.variants),
            images: rows::copy_rows(&self.images),
        }
    }
}

impl Keyed for PassageVariant {
    open spec fn key_of(row: VariantView) -> Seq<char> {
        row.created_at
    }

    fn key(&self) -> (r: &str) {
        self.created_at.as_str()
    }
}

impl Keyed for PassageImage {
    open spec fn key_of(row: PassageImageView) -> Seq<char> {
        row.created_at
    }

    fn key(&self) -> (r: &str) {
        self.created_at.as_str()
    }
}

impl Copied for Branch {
    fn copied(&self) -> (r: Branch) {
        self.copy()
    }
}

impl Copied for Passage {
    fn copied(&self) -> (r: Passage) {
        self.copy()
    }
}

impl Copied for PassageVariant {
    fn copied(&self) -> (r: PassageVariant) {
        self.copy()
    }
}

impl Copied for PassageImage {
    fn copied(&self) -> (r: PassageImage) {
        self.copy()
    }
}

} // verus!
