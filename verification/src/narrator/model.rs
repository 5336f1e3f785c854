//! What a narrator is asked for, and what it comes up with.

use vstd::prelude::*;

use crate::images::model::{ImageRequest, ImageRequestView};

verus! {

/// What a turn is there for.
#[derive(Debug, Clone, Copy, PartialEq, Eq, Structural)]
pub enum NarratorPurpose {
    Action,
    Illustrate,
}

/// What a narrator came up with: the passage, what it thought, and the images it asked for.
#[derive(Debug, PartialEq)]
pub struct Candidate {
    pub visible: String,
    pub thoughts: Option<String>,
    pub image_requests: Vec<ImageRequest>,
}

/// What a `Candidate` stands for.
#[verifier::ext_equal]
pub struct CandidateView {
    pub visible: Seq<char>,
    pub thoughts: Option<Seq<char>>,
    pub image_requests: Seq<ImageRequestView>,
}

impl View for Candidate {
    type V = CandidateView;

    open spec fn view(&self) -> CandidateView {
        CandidateView {
            visible: self.visible@,
            thoughts: self.thoughts.deep_view(),
            image_requests: self.image_requests.deep_view(),
        }
    }
}

} // verus!
