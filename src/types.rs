use vstd::prelude::*;

verus! {

/// A conversation of a realtime session.
#[derive(Debug, Clone)]
pub struct Conversation {
    /// The unique ID of the conversation.
    pub id: String,
    /// The object type, `realtime.conversation`.
    pub object: String,
}

/// How much detail the model sees in an image.
#[derive(Debug, Clone, Copy, PartialEq, Eq)]
pub enum ImageDetail {
    Auto,
    Low,
    High,
}

impl Default for ImageDetail {
    fn default() -> (r: Self)
        ensures
            r == ImageDetail::Auto,
    {
        ImageDetail::Auto
    }
}

/// How much effort a reasoning model spends.
#[derive(Debug, Clone, Copy, PartialEq, Eq)]
pub enum ReasoningEffort {
    /// No reasoning at all (written `none`).
    NoEffort,
    Minimal,
    Low,
    Medium,
    High,
    Xhigh,
}

impl Default for ReasoningEffort {
    fn default() -> (r: Self)
        ensures
            r == ReasoningEffort::Medium,
    {
        ReasoningEffort::Medium
    }
}

} // verus!
