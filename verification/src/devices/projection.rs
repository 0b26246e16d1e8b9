//! What a device offers to the media graph.

use vstd::prelude::*;

use crate::model::clone_opt;

verus! {

/// A stream that a device serves.
#[derive(Debug, PartialEq, Eq)]
pub struct SourceCandidate {
    /// Its id within the device.
    pub id: String,
    /// The transport.
    pub kind: String,
    /// Where it is served, where that is known.
    pub url: Option<String>,
    /// Whether the URL is unverified.
    pub unverified: bool,
}

/// A stream that a device serves, its texts as sequences.
pub struct CandidateView {
    /// Its id within the device.
    pub id: Seq<char>,
    /// The transport.
    pub kind: Seq<char>,
    /// Where it is served.
    pub url: Option<Seq<char>>,
    /// Whether the URL is unverified.
    pub unverified: bool,
}

impl SourceCandidate {
    /// The candidate, its texts as sequences.
    pub open spec fn view(self) -> CandidateView {
        CandidateView {
            id: self.id@,
            kind: self.kind@,
            url: crate::text::text_opt(self.url),
            unverified: self.unverified,
        }
    }
}

/// The candidates, their texts as sequences.
pub open spec fn candidate_views(list: Seq<SourceCandidate>) -> Seq<CandidateView> {
    list.map_values(|c: SourceCandidate| c@)
}

impl Clone for SourceCandidate {
    fn clone(&self) -> (r: Self)
        ensures
            r == *self,
    {
        SourceCandidate {
            id: self.id.clone(),
            kind: self.kind.clone(),
            url: clone_opt(&self.url),
            unverified: self.unverified,
        }
    }
}

/// A place on a device that decodes a stream.
#[derive(Debug, PartialEq, Eq)]
pub struct OutputTarget {
    /// Its id within the device.
    pub id: String,
    /// The transport.
    pub kind: String,
    /// What operators call it.
    pub label: Option<String>,
}

/// A place on a device that decodes a stream, its texts as sequences.
pub struct TargetView {
    /// Its id within the device.
    pub id: Seq<char>,
    /// The transport.
    pub kind: Seq<char>,
    /// What operators call it.
    pub label: Option<Seq<char>>,
}

impl OutputTarget {
    /// The target, its texts as sequences.
    pub open spec fn view(self) -> TargetView {
        TargetView { id: self.id@, kind: self.kind@, label: crate::text::text_opt(self.label) }
    }
}

/// The targets, their texts as sequences.
pub open spec fn target_views(list: Seq<OutputTarget>) -> Seq<TargetView> {
    list.map_values(|t: OutputTarget| t@)
}

impl Clone for OutputTarget {
    fn clone(&self) -> (r: Self)
        ensures
            r == *self,
    {
        OutputTarget { id: self.id.clone(), kind: self.kind.clone(), label: clone_opt(&self.label) }
    }
}

/// A copy of a list of candidates.
pub fn clone_candidates(list: &Vec<SourceCandidate>) -> (r: Vec<SourceCandidate>)
    ensures
        r@ == list@,
{
    let mut out: Vec<SourceCandidate> = Vec::new();
    let mut i: usize = 0;
    while i < list.len()
        invariant
            i <= list.len(),
            out@ == list@.take(i as int),
        decreases list.len() - i,
    {
        out.push(list[i].clone());
        assert(list@.take(i + 1) =~= list@.take(i as int).push(list@[i as int]));
        i += 1;
    }
    assert(list@.take(i as int) =~= list@);
    out
}

/// A copy of a list of targets.
pub fn clone_targets(list: &Vec<OutputTarget>) -> (r: Vec<OutputTarget>)
    ensures
        r@ == list@,
{
    let mut out: Vec<OutputTarget> = Vec::new();
    let mut i: usize = 0;
    while i < list.len()
        invariant
            i <= list.len(),
            out@ == list@.take(i as int),
        decreases list.len() - i,
    {
        out.push(list[i].clone());
        assert(list@.take(i + 1) =~= list@.take(i as int).push(list@[i as int]));
        i += 1;
    }
    assert(list@.take(i as int) =~= list@);
    out
}

} // verus!
