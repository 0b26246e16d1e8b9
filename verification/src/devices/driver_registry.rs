//! What the drivers have found their devices to offer. The latest finding wins.

use vstd::prelude::*;

use crate::devices::projection::{clone_candidates, clone_targets, OutputTarget, SourceCandidate};
use crate::table::Table;

verus! {

/// What one device offers.
pub struct DriverFacets {
    source_candidates: Vec<SourceCandidate>,
    output_targets: Vec<OutputTarget>,
}

/// What one device offers.
pub struct FacetsView {
    /// The streams that it serves.
    pub source_candidates: Seq<crate::devices::projection::CandidateView>,
    /// The places where it decodes.
    pub output_targets: Seq<crate::devices::projection::TargetView>,
}

impl DriverFacets {
    /// What the device offers.
    pub closed spec fn view(self) -> FacetsView {
        FacetsView {
            source_candidates: crate::devices::projection::candidate_views(
                self.source_candidates@,
            ),
            output_targets: crate::devices::projection::target_views(self.output_targets@),
        }
    }
}

/// What a device offers of which nothing was found.
pub open spec fn no_facets() -> FacetsView {
    FacetsView { source_candidates: Seq::empty(), output_targets: Seq::empty() }
}

/// The offer of a device in the registry.
pub open spec fn facets_in(m: Map<Seq<char>, FacetsView>, id: Seq<char>) -> FacetsView {
    if m.contains_key(id) {
        m[id]
    } else {
        no_facets()
    }
}

/// What the devices offer.
pub struct DeviceDriverRegistry {
    facets: Table<DriverFacets>,
}

impl DeviceDriverRegistry {
    /// What each device was found to offer.
    pub closed spec fn view(self) -> Map<Seq<char>, FacetsView> {
        self.facets@.map_values(|f: DriverFacets| f@)
    }

    /// The registry is one that the operations below can reach.
    pub closed spec fn wf(self) -> bool {
        self.facets.wf()
    }

    /// A registry in which nothing was found.
    pub fn new() -> (r: Self)
        ensures
            r.wf(),
            r@ == Map::<Seq<char>, FacetsView>::empty(),
    {
        let r = DeviceDriverRegistry { facets: Table::new() };
        assert(r@ =~= Map::<Seq<char>, FacetsView>::empty());
        r
    }

    /// The driver found these streams. What it found of the other kind stays.
    pub fn set_source_candidates(&mut self, device_id: &str, candidates: Vec<SourceCandidate>)
        requires
            old(self).wf(),
        ensures
            final(self).wf(),
            final(self)@ == old(self)@.insert(
                device_id@,
                (FacetsView {
                    source_candidates: crate::devices::projection::candidate_views(candidates@),
                    ..facets_in(old(self)@, device_id@)
                }),
            ),
    {
        let ghost before = self@;
        let facets = match self.facets.remove(device_id) {
            Some(f) => DriverFacets {
                source_candidates: candidates,
                output_targets: f.output_targets,
            },
            None => DriverFacets { source_candidates: candidates, output_targets: Vec::new() },
        };
        let ghost fv = facets@;
        assert(fv.output_targets =~= facets_in(before, device_id@).output_targets);
        self.facets.insert(device_id.to_owned(), facets);
        assert(self@ =~= before.insert(device_id@, fv));
    }

    /// The driver found these places. What it found of the other kind stays.
    pub fn set_output_targets(&mut self, device_id: &str, targets: Vec<OutputTarget>)
        requires
            old(self).wf(),
        ensures
            final(self).wf(),
            final(self)@ == old(self)@.insert(
                device_id@,
                (FacetsView {
                    output_targets: crate::devices::projection::target_views(targets@),
                    ..facets_in(old(self)@, device_id@)
                }),
            ),
    {
        let ghost before = self@;
        let facets = match self.facets.remove(device_id) {
            Some(f) => DriverFacets {
                source_candidates: f.source_candidates,
                output_targets: targets,
            },
            None => DriverFacets { source_candidates: Vec::new(), output_targets: targets },
        };
        let ghost fv = facets@;
        assert(fv.source_candidates =~= facets_in(before, device_id@).source_candidates);
        self.facets.insert(device_id.to_owned(), facets);
        assert(self@ =~= before.insert(device_id@, fv));
    }

    /// The streams that a device serves; none where nothing was found.
    pub fn source_candidates(&self, device_id: &str) -> (r: Vec<SourceCandidate>)
        requires
            self.wf(),
        ensures
            crate::devices::projection::candidate_views(r@) == facets_in(
                self@,
                device_id@,
            ).source_candidates,
    {
        match self.facets.get(device_id) {
            Some(f) => clone_candidates(&f.source_candidates),
            None => {
                let none: Vec<SourceCandidate> = Vec::new();
                assert(crate::devices::projection::candidate_views(none@) =~= Seq::empty());
                none
            },
        }
    }

    /// The places where a device decodes; none where nothing was found.
    pub fn output_targets(&self, device_id: &str) -> (r: Vec<OutputTarget>)
        requires
            self.wf(),
        ensures
            crate::devices::projection::target_views(r@) == facets_in(
                self@,
                device_id@,
            ).output_targets,
    {
        match self.facets.get(device_id) {
            Some(f) => clone_targets(&f.output_targets),
            None => {
                let none: Vec<OutputTarget> = Vec::new();
                assert(crate::devices::projection::target_views(none@) =~= Seq::empty());
                none
            },
        }
    }

    /// The device was removed.
    pub fn forget(&mut self, device_id: &str)
        requires
            old(self).wf(),
        ensures
            final(self).wf(),
            final(self)@ == old(self)@.remove(device_id@),
    {
        self.facets.remove(device_id);
        assert(self@ =~= old(self)@.remove(device_id@));
    }
}

impl Default for DeviceDriverRegistry {
    fn default() -> (r: Self)
        ensures
            r.wf(),
            r@ == Map::<Seq<char>, FacetsView>::empty(),
    {
        DeviceDriverRegistry::new()
    }
}

/// A device that nothing was said of has no facets, and what is said of one facet of
/// a device leaves its other facet and every other device alone.
pub proof fn law_facets_are_independent(
    m: Map<Seq<char>, FacetsView>,
    id: Seq<char>,
    other: Seq<char>,
    candidates: Seq<crate::devices::projection::CandidateView>,
    targets: Seq<crate::devices::projection::TargetView>,
)
    requires
        id != other,
    ensures
        !m.contains_key(id) ==> facets_in(m, id).source_candidates.len() == 0 && facets_in(
            m,
            id,
        ).output_targets.len() == 0,
        ({
            let a = m.insert(
                id,
                FacetsView { source_candidates: candidates, ..facets_in(m, id) },
            );
            let b = a.insert(id, FacetsView { output_targets: targets, ..facets_in(a, id) });
            &&& facets_in(a, id).source_candidates == candidates
            &&& facets_in(a, id).output_targets == facets_in(m, id).output_targets
            &&& facets_in(b, id).source_candidates == candidates
            &&& facets_in(b, id).output_targets == targets
            &&& facets_in(b, other) == facets_in(m, other)
            &&& facets_in(b.remove(id), id).source_candidates.len() == 0
        }),
{
}

} // verus!
