//! How the presentation-sync groups perform: the tier that each achieves, the
//! worst skew measured in it, and the drift alarms of its members.

use vstd::prelude::*;

use crate::devices::sync_drift::{DriftHysteresis, DriftMonitor, DriftTransition};
use crate::table::Table;
use crate::text::str_eq;
use crate::time::MediaTime;

verus! {

/// A synchronisation tier. A higher rank is a tighter one; rank zero is none.
#[derive(Debug, Clone, Copy, PartialEq, Eq, Structural)]
pub struct AchievedSync {
    /// The rank.
    pub rank: u8,
}

/// A member of a configured group.
#[derive(Debug, PartialEq, Eq)]
pub struct SyncMember {
    /// The device.
    pub device: String,
    /// Its presentation trim.
    pub offset_ms: u32,
}

/// A configured group.
#[derive(Debug, PartialEq, Eq)]
pub struct SyncGroup {
    /// Its id.
    pub id: String,
    /// The skew over which a member counts as drifting.
    pub target_skew_ms: u32,
    /// Its members.
    pub members: Vec<SyncMember>,
}

/// The status of one member.
#[derive(Debug, PartialEq, Eq)]
pub struct SyncMemberStatus {
    /// The device.
    pub device: String,
    /// Its configured presentation trim.
    pub offset_ms: u32,
    /// The tier that it achieves; none before the first observation.
    pub achieved: Option<AchievedSync>,
    /// Its measured skew in nanoseconds, where it was measured.
    pub measured_skew_ns: Option<i64>,
    /// Whether its drift alarm is raised.
    pub drift_alarm: bool,
}

impl Clone for SyncMemberStatus {
    fn clone(&self) -> (r: Self)
        ensures
            r == *self,
    {
        SyncMemberStatus {
            device: self.device.clone(),
            offset_ms: self.offset_ms,
            achieved: self.achieved,
            measured_skew_ns: self.measured_skew_ns,
            drift_alarm: self.drift_alarm,
        }
    }
}

/// The tier with which a member counts. One that was never observed counts as
/// unsynchronised.
pub open spec fn counted(m: SyncMemberStatus) -> AchievedSync {
    match m.achieved {
        Some(a) => a,
        None => AchievedSync { rank: 0 },
    }
}

impl SyncMemberStatus {
    /// The tier with which this member counts.
    fn contributed_tier(&self) -> (r: AchievedSync)
        ensures
            r == counted(*self),
    {
        match self.achieved {
            Some(a) => a,
            None => AchievedSync { rank: 0 },
        }
    }
}

/// The status of a group.
#[derive(Debug, PartialEq, Eq)]
pub struct SyncGroupStatus {
    /// Its id.
    pub group: String,
    /// The skew over which a member counts as drifting.
    pub target_skew_ms: u32,
    /// The tier that the group achieves: that of its weakest member.
    pub achieved: AchievedSync,
    /// The one member that holds the group back, where there is one.
    pub limited_by: Option<String>,
    /// The worst skew measured, in nanoseconds.
    pub measured_skew_ns: Option<i64>,
    /// Whether any member's drift alarm is raised.
    pub drift_alarm: bool,
    /// The members.
    pub members: Vec<SyncMemberStatus>,
}

/// The tier and the worst skew of a group.
#[derive(Debug, PartialEq, Eq)]
pub struct SyncGroupSkew {
    /// The group.
    pub group: String,
    /// The tier that it achieves.
    pub achieved: AchievedSync,
    /// The worst skew measured, in nanoseconds.
    pub measured_skew_ns: Option<i64>,
}

/// A member as the runtime holds it.
#[derive(Debug, PartialEq, Eq)]
pub struct MemberRuntime {
    /// Its status.
    pub status: SyncMemberStatus,
    /// Its drift alarm.
    pub drift: DriftMonitor,
}

impl Clone for MemberRuntime {
    fn clone(&self) -> (r: Self)
        ensures
            r == *self,
    {
        MemberRuntime { status: self.status.clone(), drift: self.drift }
    }
}

/// A group as the runtime holds it.
#[derive(Debug, PartialEq, Eq)]
pub struct GroupRuntime {
    target_skew_ms: u32,
    members: Vec<MemberRuntime>,
}

/// A group as the runtime holds it.
pub struct GroupView {
    /// The skew over which a member counts as drifting.
    pub target_skew_ms: u32,
    /// The members, in configured order.
    pub members: Seq<MemberRuntime>,
}

// ---- What a group achieves ---------------------------------------------------

/// The weakest tier among some members; none where there are no members.
pub open spec fn weakest(members: Seq<MemberRuntime>) -> AchievedSync
    decreases members.len(),
{
    if members.len() == 0 {
        AchievedSync { rank: 0 }
    } else if members.len() == 1 {
        counted(members[0].status)
    } else {
        let rest = weakest(members.drop_last());
        let last = counted(members.last().status);
        if last.rank < rest.rank {
            last
        } else {
            rest
        }
    }
}

/// Exactly this member has the tier `a`.
pub open spec fn sole_at(members: Seq<MemberRuntime>, a: AchievedSync, i: int) -> bool {
    &&& 0 <= i < members.len()
    &&& counted(members[i].status) == a
    &&& forall|j: int|
        0 <= j < members.len() && j != i ==> counted((#[trigger] members[j]).status) != a
}

/// The worse of two skews.
pub open spec fn worse(a: Option<i64>, b: Option<i64>) -> Option<i64> {
    match (a, b) {
        (Some(x), Some(y)) => Some(
            if x >= y {
                x
            } else {
                y
            },
        ),
        (None, b) => b,
        (a, None) => a,
    }
}

/// The worst skew measured among some members.
pub open spec fn worst(members: Seq<MemberRuntime>) -> Option<i64>
    decreases members.len(),
{
    if members.len() == 0 {
        None
    } else {
        worse(worst(members.drop_last()), members.last().status.measured_skew_ns)
    }
}

/// The statuses of some members.
pub open spec fn statuses(members: Seq<MemberRuntime>) -> Seq<SyncMemberStatus> {
    members.map_values(|m: MemberRuntime| m.status)
}

/// The member that holds the group back: the only one at the weakest tier of a
/// group with more than one member.
pub open spec fn limiter_is(members: Seq<MemberRuntime>, limited_by: Option<String>) -> bool {
    match limited_by {
        Some(d) => members.len() > 1 && exists|i: int| #[trigger]
            sole_at(members, weakest(members), i) && members[i].status.device == d,
        None => members.len() <= 1 || forall|i: int| !#[trigger]
            sole_at(members, weakest(members), i),
    }
}

/// A status says what a group achieves.
pub open spec fn describes(s: SyncGroupStatus, id: Seq<char>, g: GroupView) -> bool {
    &&& s.group@ == id
    &&& s.target_skew_ms == g.target_skew_ms
    &&& s.achieved == weakest(g.members)
    &&& limiter_is(g.members, s.limited_by)
    &&& s.measured_skew_ns == worst(g.members)
    &&& s.drift_alarm == (exists|i: int|
        0 <= i < g.members.len() && (#[trigger] g.members[i]).status.drift_alarm)
    &&& s.members@ == statuses(g.members)
}

/// No member counts with less than the weakest tier, and one counts with it.
proof fn lemma_weakest(members: Seq<MemberRuntime>)
    ensures
        forall|i: int|
            0 <= i < members.len() ==> weakest(members).rank <= counted(
                (#[trigger] members[i]).status,
            ).rank,
        members.len() > 0 ==> exists|i: int|
            0 <= i < members.len() && counted((#[trigger] members[i]).status) == weakest(members),
    decreases members.len(),
{
    if members.len() >= 2 {
        let init = members.drop_last();
        lemma_weakest(init);
        assert forall|i: int| 0 <= i < members.len() implies weakest(members).rank <= counted(
            (#[trigger] members[i]).status,
        ).rank by {
            if i < members.len() - 1 {
                assert(init[i] == members[i]);
            }
        }
        let w = choose|i: int|
            0 <= i < init.len() && counted((#[trigger] init[i]).status) == weakest(init);
        assert(init[w] == members[w]);
        if counted(members.last().status).rank < weakest(init).rank {
            assert(counted(members[members.len() - 1].status) == weakest(members));
        } else {
            assert(counted(members[w].status) == weakest(members));
        }
    } else if members.len() == 1 {
        assert(counted(members[0].status) == weakest(members));
    }
}

impl GroupRuntime {
    /// The group.
    pub closed spec fn view(self) -> GroupView {
        GroupView { target_skew_ms: self.target_skew_ms, members: self.members@ }
    }

    /// The tier of the weakest member, and the one member that holds the group
    /// back, where there is one.
    fn achieved_and_limiter(&self) -> (r: (AchievedSync, Option<String>))
        ensures
            r.0 == weakest(self@.members),
            limiter_is(self@.members, r.1),
    {
        let ghost ms = self.members@;
        let mut achieved = AchievedSync { rank: 0 };
        let mut i: usize = 0;
        while i < self.members.len()
            invariant
                i <= self.members.len(),
                ms == self.members@,
                achieved == weakest(ms.take(i as int)),
            decreases self.members.len() - i,
        {
            let t = self.members[i].status.contributed_tier();
            proof {
                let next = ms.take(i + 1);
                assert(next.drop_last() =~= ms.take(i as int));
                assert(next.last() == ms[i as int]);
                if i == 0 {
                    assert(next[0] == ms[0]);
                }
            }
            if i == 0 || t.rank < achieved.rank {
                achieved = t;
            }
            i += 1;
        }
        assert(ms.take(i as int) =~= ms);
        let mut found: usize = 0;
        let mut at: usize = 0;
        let mut k: usize = 0;
        while k < self.members.len()
            invariant
                k <= self.members.len(),
                ms == self.members@,
                found <= k,
                found == 0 ==> forall|j: int|
                    0 <= j < k ==> counted((#[trigger] ms[j]).status) != achieved,
                found == 1 ==> at < k && counted(ms[at as int].status) == achieved && forall|j: int|
                    0 <= j < k && j != at ==> counted((#[trigger] ms[j]).status) != achieved,
                found >= 2 ==> exists|a: int, b: int|
                    0 <= a < b < k && counted((#[trigger] ms[a]).status) == achieved && counted(
                        (#[trigger] ms[b]).status,
                    ) == achieved,
            decreases self.members.len() - k,
        {
            let t = self.members[k].status.contributed_tier();
            if t == achieved {
                proof {
                    if found >= 1 {
                        if found == 1 {
                            assert(counted(ms[at as int].status) == achieved && counted(
                                ms[k as int].status,
                            ) == achieved);
                        }
                    }
                }
                if found == 0 {
                    at = k;
                }
                found += 1;
            }
            k += 1;
        }
        let limited_by = if self.members.len() > 1 && found == 1 {
            assert(sole_at(ms, achieved, at as int));
            Some(self.members[at].status.device.clone())
        } else {
            proof {
                lemma_weakest(ms);
                if self.members.len() > 1 {
                    assert forall|i: int| !#[trigger] sole_at(ms, achieved, i) by {
                        if sole_at(ms, achieved, i) {
                            assert(counted(ms[i].status) == achieved);
                        }
                    }
                }
            }
            None
        };
        (achieved, limited_by)
    }

    /// The worst skew measured.
    fn worst_skew(&self) -> (r: Option<i64>)
        ensures
            r == worst(self@.members),
    {
        let ghost ms = self.members@;
        let mut acc: Option<i64> = None;
        let mut i: usize = 0;
        while i < self.members.len()
            invariant
                i <= self.members.len(),
                ms == self.members@,
                acc == worst(ms.take(i as int)),
            decreases self.members.len() - i,
        {
            proof {
                let next = ms.take(i + 1);
                assert(next.drop_last() =~= ms.take(i as int));
                assert(next.last() == ms[i as int]);
            }
            if let Some(skew) = self.members[i].status.measured_skew_ns {
                acc = match acc {
                    Some(w) => if w >= skew {
                        Some(w)
                    } else {
                        Some(skew)
                    },
                    None => Some(skew),
                };
            }
            i += 1;
        }
        assert(ms.take(i as int) =~= ms);
        acc
    }

    /// The status of this group, whose id is `group`.
    fn status(&self, group: &str) -> (r: SyncGroupStatus)
        ensures
            describes(r, group@, self@),
    {
        let ghost ms = self.members@;
        let (achieved, limited_by) = self.achieved_and_limiter();
        let mut members: Vec<SyncMemberStatus> = Vec::new();
        let mut drift_alarm = false;
        let mut i: usize = 0;
        while i < self.members.len()
            invariant
                i <= self.members.len(),
                ms == self.members@,
                members@ == statuses(ms.take(i as int)),
                drift_alarm == (exists|j: int|
                    0 <= j < i && (#[trigger] ms[j]).status.drift_alarm),
            decreases self.members.len() - i,
        {
            if self.members[i].status.drift_alarm {
                drift_alarm = true;
                assert(ms[i as int].status.drift_alarm);
            }
            members.push(self.members[i].status.clone());
            assert(statuses(ms.take(i + 1)) =~= statuses(ms.take(i as int)).push(
                ms[i as int].status,
            ));
            i += 1;
        }
        assert(ms.take(i as int) =~= ms);
        SyncGroupStatus {
            group: group.to_owned(),
            target_skew_ms: self.target_skew_ms,
            achieved,
            limited_by,
            measured_skew_ns: self.worst_skew(),
            drift_alarm,
            members,
        }
    }
}

// ---- Seeding -----------------------------------------------------------------

/// The first member with a device id.
pub open spec fn member_index(members: Seq<MemberRuntime>, device: Seq<char>) -> Option<int>
    decreases members.len(),
{
    if members.len() == 0 {
        None
    } else {
        match member_index(members.drop_last(), device) {
            Some(i) => Some(i),
            None => if members.last().status.device@ == device {
                Some(members.len() - 1)
            } else {
                None
            },
        }
    }
}

/// Where the first member with a device id is, the device is its, and no
/// earlier member has it; where there is none, no member has it.
pub proof fn lemma_member_index(members: Seq<MemberRuntime>, device: Seq<char>)
    ensures
        match member_index(members, device) {
            Some(i) => 0 <= i < members.len() && members[i].status.device@ == device && forall|
                j: int,
            |
                0 <= j < i ==> (#[trigger] members[j]).status.device@ != device,
            None => forall|j: int|
                0 <= j < members.len() ==> (#[trigger] members[j]).status.device@ != device,
        },
    decreases members.len(),
{
    if members.len() > 0 {
        let init = members.drop_last();
        lemma_member_index(init, device);
        assert forall|j: int| 0 <= j < members.len() - 1 implies (#[trigger] members[j])
            == init[j] by {}
    }
}

/// A member that stays keeps what was measured of it and takes the new trim; a
/// new one is unmeasured.
pub open spec fn seeded_member(
    prior: Option<GroupView>,
    h: DriftHysteresis,
    config: SyncMember,
    m: MemberRuntime,
) -> bool {
    let kept = match prior {
        Some(g) => match member_index(g.members, config.device@) {
            Some(i) => Some(g.members[i]),
            None => None,
        },
        None => None,
    };
    match kept {
        Some(k) => m == (MemberRuntime {
            status: SyncMemberStatus { offset_ms: config.offset_ms, ..k.status },
            drift: k.drift,
        }),
        None => {
            &&& m.status == (SyncMemberStatus {
                device: config.device,
                offset_ms: config.offset_ms,
                achieved: None,
                measured_skew_ns: None,
                drift_alarm: false,
            })
            &&& m.drift@ == crate::devices::sync_drift::DriftPhase::Clear
            &&& m.drift.dwells() == h
        },
    }
}

/// A group after a configuration was applied.
pub open spec fn seeded_group(
    prior: Option<GroupView>,
    h: DriftHysteresis,
    config: SyncGroup,
    g: GroupView,
) -> bool {
    &&& g.target_skew_ms == config.target_skew_ms
    &&& g.members.len() == config.members@.len()
    &&& forall|i: int|
        0 <= i < g.members.len() ==> seeded_member(prior, h, config.members@[i], #[trigger] g.members[i])
}

/// The last group of a configuration with an id.
pub open spec fn last_group(groups: Seq<SyncGroup>, id: Seq<char>, i: int) -> bool {
    &&& 0 <= i < groups.len()
    &&& groups[i].id@ == id
    &&& forall|j: int| i < j < groups.len() ==> (#[trigger] groups[j]).id@ != id
}

/// A group of a runtime.
pub open spec fn group_in(m: Map<Seq<char>, GroupView>, id: Seq<char>) -> Option<GroupView> {
    if m.contains_key(id) {
        Some(m[id])
    } else {
        None
    }
}

/// The groups after a configuration was applied: exactly those that it names,
/// each seeded from what was held before. Of groups with one id the last counts.
pub open spec fn seeded(
    before: Map<Seq<char>, GroupView>,
    h: DriftHysteresis,
    groups: Seq<SyncGroup>,
    after: Map<Seq<char>, GroupView>,
) -> bool {
    &&& forall|id: Seq<char>| #[trigger]
        after.contains_key(id) <==> exists|i: int|
            0 <= i < groups.len() && (#[trigger] groups[i]).id@ == id
    &&& forall|id: Seq<char>, i: int| #[trigger]
        last_group(groups, id, i) ==> seeded_group(group_in(before, id), h, groups[i], after[id])
}

/// Every alarm flag says what its monitor says.
pub open spec fn flags_agree(m: Map<Seq<char>, GroupView>) -> bool {
    forall|id: Seq<char>, i: int|
        m.contains_key(id) && 0 <= i < m[id].members.len()
            ==> #[trigger] m[id].members[i].status.drift_alarm
            == crate::devices::sync_drift::alarmed(m[id].members[i].drift@)
}

/// The member after an observation, and what the observation did to its alarm.
pub open spec fn member_observed(
    m: MemberRuntime,
    target_skew_ms: u32,
    achieved: AchievedSync,
    skew: Option<i64>,
    now: MediaTime,
    after: MemberRuntime,
    t: DriftTransition,
) -> bool {
    let (phase, moved) = crate::devices::sync_drift::observed(
        m.drift.dwells(),
        m.drift@,
        crate::devices::sync_drift::over_target(skew, target_skew_ms),
        now,
    );
    &&& t == moved
    &&& after.drift@ == phase
    &&& after.drift.dwells() == m.drift.dwells()
    &&& after.status == (SyncMemberStatus {
        achieved: Some(achieved),
        measured_skew_ns: skew,
        drift_alarm: crate::devices::sync_drift::alarmed(phase),
        ..m.status
    })
}

// ---- The runtime -------------------------------------------------------------

/// The runtime of every configured sync group.
pub struct SyncGroupRuntime {
    hysteresis: DriftHysteresis,
    groups: Table<GroupRuntime>,
}

/// The ids of a list of summaries.
pub open spec fn skew_ids(list: Seq<SyncGroupSkew>) -> Seq<Seq<char>> {
    list.map_values(|s: SyncGroupSkew| s.group@)
}

/// The trims of some members of a group.
pub open spec fn offsets_of(id: Seq<char>, members: Seq<MemberRuntime>) -> Seq<
    (Seq<char>, Seq<char>, u32),
> {
    members.map_values(|m: MemberRuntime| (id, m.status.device@, m.status.offset_ms))
}

/// The trims of every member of every group, group after group.
pub open spec fn all_offsets(ids: Seq<Seq<char>>, m: Map<Seq<char>, GroupView>) -> Seq<
    (Seq<char>, Seq<char>, u32),
>
    decreases ids.len(),
{
    if ids.len() == 0 {
        Seq::empty()
    } else {
        all_offsets(ids.drop_last(), m) + offsets_of(ids.last(), m[ids.last()].members)
    }
}

/// The trims as views.
pub open spec fn offset_views(list: Seq<(String, String, u32)>) -> Seq<
    (Seq<char>, Seq<char>, u32),
> {
    list.map_values(|t: (String, String, u32)| (t.0@, t.1@, t.2))
}

impl SyncGroupRuntime {
    /// The groups.
    pub closed spec fn view(self) -> Map<Seq<char>, GroupView> {
        self.groups@.map_values(|g: GroupRuntime| g@)
    }

    /// The dwells with which new members are watched.
    pub closed spec fn dwells(self) -> DriftHysteresis {
        self.hysteresis
    }

    /// The runtime is one that the operations below can reach.
    pub closed spec fn wf(self) -> bool {
        &&& self.groups.wf()
        &&& flags_agree(self@)
    }

    /// Every alarm flag says what its monitor says.
    pub proof fn lemma_wf(self)
        requires
            self.wf(),
        ensures
            flags_agree(self@),
    {
    }

    /// No group, and the default dwells.
    pub fn new() -> (r: Self)
        ensures
            r.wf(),
            r@ == Map::<Seq<char>, GroupView>::empty(),
            r.dwells().up() == 3_000_000_000,
            r.dwells().down() == 5_000_000_000,
    {
        SyncGroupRuntime::with_hysteresis(DriftHysteresis::default())
    }

    /// No group, and given dwells.
    pub fn with_hysteresis(hysteresis: DriftHysteresis) -> (r: Self)
        ensures
            r.wf(),
            r@ == Map::<Seq<char>, GroupView>::empty(),
            r.dwells() == hysteresis,
    {
        let r = SyncGroupRuntime { hysteresis, groups: Table::new() };
        assert(r@ =~= Map::<Seq<char>, GroupView>::empty());
        r
    }

    /// Build the runtime of one member.
    fn seed_member(&self, prior: Option<&GroupRuntime>, member: &SyncMember) -> (r: MemberRuntime)
        ensures
            seeded_member(
                match prior {
                    Some(g) => Some(g@),
                    None => None,
                },
                self.dwells(),
                *member,
                r,
            ),
    {
        if let Some(g) = prior {
            let ghost ms = g.members@;
            let mut i: usize = 0;
            while i < g.members.len()
                invariant
                    i <= g.members.len(),
                    prior == Some(g),
                    ms == g.members@,
                    forall|j: int| 0 <= j < i ==> (#[trigger] ms[j]).status.device@ != member.device@,
                decreases g.members.len() - i,
            {
                if str_eq(g.members[i].status.device.as_str(), member.device.as_str()) {
                    proof {
                        lemma_member_index(ms, member.device@);
                        assert(member_index(ms, member.device@) == Some(i as int));
                    }
                    let existing = g.members[i].clone();
                    return MemberRuntime {
                        status: SyncMemberStatus {
                            device: existing.status.device,
                            offset_ms: member.offset_ms,
                            achieved: existing.status.achieved,
                            measured_skew_ns: existing.status.measured_skew_ns,
                            drift_alarm: existing.status.drift_alarm,
                        },
                        drift: existing.drift,
                    };
                }
                i += 1;
            }
            proof {
                lemma_member_index(ms, member.device@);
            }
        }
        MemberRuntime {
            status: SyncMemberStatus {
                device: member.device.clone(),
                offset_ms: member.offset_ms,
                achieved: None,
                measured_skew_ns: None,
                drift_alarm: false,
            },
            drift: DriftMonitor::new(self.hysteresis),
        }
    }

    /// Build the runtime of one group.
    fn seed_group(&self, group: &SyncGroup) -> (r: GroupRuntime)
        requires
            self.wf(),
        ensures
            seeded_group(group_in(self@, group.id@), self.dwells(), *group, r@),
            forall|i: int|
                0 <= i < r@.members.len() ==> (#[trigger] r@.members[i]).status.drift_alarm
                    == crate::devices::sync_drift::alarmed(r@.members[i].drift@),
    {
        let prior = self.groups.get(group.id.as_str());
        let ghost pv = match prior {
            Some(g) => Some(g@),
            None => None,
        };
        assert(pv == group_in(self@, group.id@));
        let mut members: Vec<MemberRuntime> = Vec::new();
        let mut i: usize = 0;
        while i < group.members.len()
            invariant
                self.wf(),
                i <= group.members.len(),
                members.len() == i,
                pv == group_in(self@, group.id@),
                pv == (match prior {
                    Some(g) => Some(g@),
                    None => None,
                }),
                forall|j: int|
                    0 <= j < i ==> seeded_member(
                        pv,
                        self.dwells(),
                        group.members@[j],
                        #[trigger] members@[j],
                    ),
                forall|j: int|
                    0 <= j < i ==> (#[trigger] members@[j]).status.drift_alarm
                        == crate::devices::sync_drift::alarmed(members@[j].drift@),
            decreases group.members.len() - i,
        {
            let m = self.seed_member(prior, &group.members[i]);
            proof {
                if let Some(g) = pv {
                    lemma_member_index(g.members, group.members@[i as int].device@);
                    if let Some(k) = member_index(g.members, group.members@[i as int].device@) {
                        assert(self@.contains_key(group.id@));
                        assert(self@[group.id@].members[k].status.drift_alarm
                            == crate::devices::sync_drift::alarmed(
                            self@[group.id@].members[k].drift@,
                        ));
                    }
                }
            }
            members.push(m);
            i += 1;
        }
        GroupRuntime { target_skew_ms: group.target_skew_ms, members }
    }

    /// A configuration was applied. A group that it does not name is forgotten;
    /// a member that stays keeps what was measured of it.
    pub fn seed(&mut self, groups: &Vec<SyncGroup>)
        requires
            old(self).wf(),
        ensures
            final(self).wf(),
            final(self).dwells() == old(self).dwells(),
            seeded(old(self)@, old(self).dwells(), groups@, final(self)@),
    {
        let mut next: Table<GroupRuntime> = Table::new();
        let ghost gs = groups@;
        let mut i: usize = 0;
        while i < groups.len()
            invariant
                self.wf(),
                *self == *old(self),
                gs == groups@,
                i <= gs.len(),
                next.wf(),
                flags_agree(next@.map_values(|g: GroupRuntime| g@)),
                seeded(
                    self@,
                    self.dwells(),
                    gs.take(i as int),
                    next@.map_values(|g: GroupRuntime| g@),
                ),
            decreases gs.len() - i,
        {
            let ghost before = next@.map_values(|g: GroupRuntime| g@);
            let ghost prefix = gs.take(i as int);
            let g = self.seed_group(&groups[i]);
            let ghost gv = g@;
            next.insert(groups[i].id.clone(), g);
            proof {
                let ghost after = next@.map_values(|g: GroupRuntime| g@);
                let longer = gs.take(i + 1);
                let id0 = gs[i as int].id@;
                assert(after =~= before.insert(id0, gv));
                assert forall|id: Seq<char>| #[trigger]
                    after.contains_key(id) <==> exists|k: int|
                        0 <= k < longer.len() && (#[trigger] longer[k]).id@ == id by {
                    if after.contains_key(id) {
                        if id == id0 {
                            assert(longer[i as int].id@ == id);
                        } else {
                            assert(before.contains_key(id));
                            let k = choose|k: int|
                                0 <= k < prefix.len() && (#[trigger] prefix[k]).id@ == id;
                            assert(longer[k].id@ == id);
                        }
                    }
                    if exists|k: int| 0 <= k < longer.len() && (#[trigger] longer[k]).id@ == id {
                        let k = choose|k: int|
                            0 <= k < longer.len() && (#[trigger] longer[k]).id@ == id;
                        if k < i {
                            assert(prefix[k].id@ == id);
                            assert(before.contains_key(id));
                        }
                    }
                }
                assert forall|id: Seq<char>, k: int| #[trigger]
                    last_group(longer, id, k) implies seeded_group(
                    group_in(self@, id),
                    self.dwells(),
                    longer[k],
                    after[id],
                ) by {
                    if k == i {
                        assert(longer[k] == gs[i as int]);
                    } else {
                        assert(longer[i as int].id@ != id);
                        assert(last_group(prefix, id, k)) by {
                            assert forall|j: int| k < j < prefix.len() implies (#[trigger] prefix[j]).id@
                                != id by {
                                assert(longer[j] == prefix[j]);
                            }
                        }
                        assert(after[id] == before[id]);
                        assert(longer[k] == prefix[k]);
                    }
                }
            }
            i += 1;
        }
        assert(gs.take(i as int) =~= gs);
        self.groups = next;
    }

    /// Fold one observation of a member into the runtime: the tier that it
    /// achieves, its skew in nanoseconds where it was measured, and the time.
    /// An unknown group or member is no observation.
    pub fn observe(
        &mut self,
        group: &str,
        device: &str,
        achieved: AchievedSync,
        measured_skew_ns: Option<i64>,
        now: MediaTime,
    ) -> (r: DriftTransition)
        requires
            old(self).wf(),
        ensures
            final(self).wf(),
            final(self).dwells() == old(self).dwells(),
            match (match group_in(old(self)@, group@) {
                Some(g) => member_index(g.members, device@),
                None => None,
            }) {
                Some(i) => {
                    let g = old(self)@[group@];
                    let after = final(self)@[group@];
                    &&& final(self)@ == old(self)@.insert(group@, after)
                    &&& after.target_skew_ms == g.target_skew_ms
                    &&& after.members == g.members.update(i, after.members[i])
                    &&& member_observed(
                        g.members[i],
                        g.target_skew_ms,
                        achieved,
                        measured_skew_ns,
                        now,
                        after.members[i],
                        r,
                    )
                },
                None => final(self)@ == old(self)@ && r == DriftTransition::Unchanged,
            },
    {
        let ghost before = self@;
        let at: usize = match self.groups.get(group) {
            None => {
                return DriftTransition::Unchanged;
            },
            Some(g) => {
                let ghost ms = g.members@;
                let mut i: usize = 0;
                while i < g.members.len() && !str_eq(g.members[i].status.device.as_str(), device)
                    invariant
                        i <= g.members.len(),
                        ms == g.members@,
                        forall|j: int|
                            0 <= j < i ==> (#[trigger] ms[j]).status.device@ != device@,
                    decreases g.members.len() - i,
                {
                    i += 1;
                }
                proof {
                    lemma_member_index(ms, device@);
                }
                if i == g.members.len() {
                    return DriftTransition::Unchanged;
                }
                assert(member_index(ms, device@) == Some(i as int));
                i
            },
        };
        assert(before[group@].members[at as int].status.drift_alarm
            == crate::devices::sync_drift::alarmed(before[group@].members[at as int].drift@));
        match self.groups.remove(group) {
            None => DriftTransition::Unchanged,
            Some(g) => {
                let GroupRuntime { target_skew_ms, mut members } = g;
                let ghost ms = members@;
                let member = members[at].clone();
                let MemberRuntime { status, mut drift } = member;
                let transition = drift.observe(measured_skew_ns, target_skew_ms, now);
                let drift_alarm = drift.is_alarmed();
                members.set(
                    at,
                    MemberRuntime {
                        status: SyncMemberStatus {
                            device: status.device,
                            offset_ms: status.offset_ms,
                            achieved: Some(achieved),
                            measured_skew_ns,
                            drift_alarm,
                        },
                        drift,
                    },
                );
                let g2 = GroupRuntime { target_skew_ms, members };
                let ghost gv = g2@;
                self.groups.insert(group.to_owned(), g2);
                proof {
                    assert(self@ =~= before.insert(group@, gv));
                    assert(gv.members =~= ms.update(at as int, gv.members[at as int]));
                    assert(flags_agree(self@)) by {
                        assert forall|id: Seq<char>, i: int|
                            self@.contains_key(id) && 0 <= i
                                < self@[id].members.len() implies #[trigger] self@[id].members[i].status.drift_alarm
                            == crate::devices::sync_drift::alarmed(self@[id].members[i].drift@) by {
                            assert(before.contains_key(id));
                            assert(before[id].members[i].status.drift_alarm
                                == crate::devices::sync_drift::alarmed(
                                before[id].members[i].drift@,
                            ));
                        }
                    }
                }
                transition
            },
        }
    }

    /// The status of a group; `None` where it is not configured.
    pub fn status(&self, group: &str) -> (r: Option<SyncGroupStatus>)
        requires
            self.wf(),
        ensures
            match r {
                Some(s) => self@.contains_key(group@) && describes(s, group@, self@[group@]),
                None => !self@.contains_key(group@),
            },
    {
        match self.groups.get(group) {
            Some(g) => Some(g.status(group)),
            None => None,
        }
    }

    /// The tier and the worst skew of every group, in id order.
    pub fn all_skews(&self) -> (r: Vec<SyncGroupSkew>)
        requires
            self.wf(),
        ensures
            crate::table::strictly_sorted(skew_ids(r@)),
            forall|id: Seq<char>| skew_ids(r@).contains(id) <==> self@.contains_key(id),
            forall|i: int|
                0 <= i < r@.len() ==> (#[trigger] r@[i]).achieved == weakest(
                    self@[r@[i].group@].members,
                ) && r@[i].measured_skew_ns == worst(self@[r@[i].group@].members),
    {
        let mut out: Vec<SyncGroupSkew> = Vec::new();
        let mut i: usize = 0;
        proof {
            self.groups.lemma_rows();
        }
        while i < self.groups.len()
            invariant
                self.wf(),
                i <= self.groups.keys().len(),
                self.groups.keys().len() == self.groups.values().len(),
                forall|j: int|
                    0 <= j < self.groups.keys().len() ==> self.groups@.contains_key(
                        #[trigger] self.groups.keys()[j],
                    ) && self.groups@[self.groups.keys()[j]] == self.groups.values()[j],
                skew_ids(out@) == self.groups.keys().take(i as int),
                forall|j: int|
                    0 <= j < out@.len() ==> (#[trigger] out@[j]).achieved == weakest(
                        self@[out@[j].group@].members,
                    ) && out@[j].measured_skew_ns == worst(self@[out@[j].group@].members),
            decreases self.groups.keys().len() - i,
        {
            let ghost before = out@;
            let g = self.groups.value_at(i);
            let (achieved, _) = g.achieved_and_limiter();
            assert(self.groups@.contains_key(self.groups.keys()[i as int]));
            let s = SyncGroupSkew {
                group: self.groups.key_at(i).clone(),
                achieved,
                measured_skew_ns: g.worst_skew(),
            };
            out.push(s);
            assert(skew_ids(out@) =~= skew_ids(before).push(s.group@));
            assert(self.groups.keys().take(i + 1) =~= self.groups.keys().take(i as int).push(
                self.groups.keys()[i as int],
            ));
            i += 1;
        }
        assert(self.groups.keys().take(i as int) =~= self.groups.keys());
        out
    }

    /// The trim of every member of every group: groups in id order, members in
    /// configured order.
    pub fn member_offsets(&self) -> (r: Vec<(String, String, u32)>)
        requires
            self.wf(),
        ensures
            exists|ids: Seq<Seq<char>>|
                crate::table::strictly_sorted(ids) && (forall|id: Seq<char>| #[trigger]
                    ids.contains(id) <==> self@.contains_key(id)) && offset_views(r@)
                    == #[trigger] all_offsets(ids, self@),
    {
        let mut out: Vec<(String, String, u32)> = Vec::new();
        let ghost ids = self.groups.keys();
        let mut i: usize = 0;
        proof {
            self.groups.lemma_rows();
            assert(offset_views(out@) =~= all_offsets(ids.take(0), self@));
        }
        while i < self.groups.len()
            invariant
                self.wf(),
                ids == self.groups.keys(),
                i <= ids.len(),
                ids.len() == self.groups.values().len(),
                forall|j: int|
                    0 <= j < ids.len() ==> self.groups@.contains_key(#[trigger] ids[j])
                        && self.groups@[ids[j]] == self.groups.values()[j],
                offset_views(out@) == all_offsets(ids.take(i as int), self@),
            decreases ids.len() - i,
        {
            let ghost done = offset_views(out@);
            let g = self.groups.value_at(i);
            let ghost id = ids[i as int];
            assert(self.groups@.contains_key(ids[i as int]));
            let ghost ms = self@[id].members;
            let mut k: usize = 0;
            assert(offset_views(out@) =~= done + offsets_of(id, ms.take(0)));
            while k < g.members.len()
                invariant
                    i < ids.len(),
                    ids == self.groups.keys(),
                    ids.len() == self.groups.values().len(),
                    id == ids[i as int],
                    ms == g.members@,
                    k <= ms.len(),
                    offset_views(out@) == done + offsets_of(id, ms.take(k as int)),
                decreases ms.len() - k,
            {
                let ghost before = out@;
                let t = (
                    self.groups.key_at(i).clone(),
                    g.members[k].status.device.clone(),
                    g.members[k].status.offset_ms,
                );
                out.push(t);
                proof {
                    let v = (id, ms[k as int].status.device@, ms[k as int].status.offset_ms);
                    assert(offset_views(out@) =~= offset_views(before).push(v));
                    assert(offsets_of(id, ms.take(k + 1)) =~= offsets_of(id, ms.take(k as int)).push(
                        v,
                    ));
                    assert(done + offsets_of(id, ms.take(k + 1)) =~= (done + offsets_of(
                        id,
                        ms.take(k as int),
                    )).push(v));
                }
                k += 1;
            }
            assert(ms.take(k as int) =~= ms);
            proof {
                let next = ids.take(i + 1);
                assert(next.drop_last() =~= ids.take(i as int));
                assert(next.last() == id);
            }
            i += 1;
        }
        assert(ids.take(i as int) =~= ids);
        out
    }
}

impl Default for SyncGroupRuntime {
    fn default() -> (r: Self)
        ensures
            r.wf(),
            r@ == Map::<Seq<char>, GroupView>::empty(),
            r.dwells().up() == 3_000_000_000,
            r.dwells().down() == 5_000_000_000,
    {
        SyncGroupRuntime::new()
    }
}

// ---- Laws --------------------------------------------------------------------

/// A group never claims a tier that one of its members does not achieve, and
/// claims no less than its weakest one does.
pub proof fn law_group_achieves_its_weakest_member(s: SyncGroupStatus, id: Seq<char>, g: GroupView)
    requires
        describes(s, id, g),
        g.members.len() > 0,
    ensures
        forall|i: int|
            0 <= i < g.members.len() ==> s.achieved.rank <= counted(
                (#[trigger] g.members[i]).status,
            ).rank,
        exists|i: int|
            0 <= i < g.members.len() && counted((#[trigger] g.members[i]).status) == s.achieved,
{
    lemma_weakest(g.members);
}

/// The member that is named as holding the group back is strictly weaker than
/// every other.
pub proof fn law_limiter_is_strictly_weakest(s: SyncGroupStatus, id: Seq<char>, g: GroupView)
    requires
        describes(s, id, g),
        s.limited_by is Some,
    ensures
        exists|i: int|
            0 <= i < g.members.len() && (#[trigger] g.members[i]).status.device
                == s.limited_by->0 && forall|j: int|
                0 <= j < g.members.len() && j != i ==> counted(g.members[i].status).rank < counted(
                    (#[trigger] g.members[j]).status,
                ).rank,
{
    lemma_weakest(g.members);
    let ms = g.members;
    let i = choose|i: int| #[trigger]
        sole_at(ms, weakest(ms), i) && ms[i].status.device == s.limited_by->0;
    assert forall|j: int| 0 <= j < ms.len() && j != i implies counted(ms[i].status).rank < counted(
        (#[trigger] ms[j]).status,
    ).rank by {
        assert(counted(ms[j].status) != weakest(ms));
    }
    assert(ms[i].status.device == s.limited_by->0);
}

/// The worst skew is one that was measured, and no member has a larger one.
pub proof fn law_worst_skew_bounds_every_member(members: Seq<MemberRuntime>)
    ensures
        match worst(members) {
            Some(w) => (forall|i: int|
                0 <= i < members.len() ==> match (#[trigger] members[i]).status.measured_skew_ns {
                    Some(x) => x <= w,
                    None => true,
                }) && exists|i: int|
                0 <= i < members.len() && (#[trigger] members[i]).status.measured_skew_ns == Some(w),
            None => forall|i: int|
                0 <= i < members.len() ==> (#[trigger] members[i]).status.measured_skew_ns is None,
        },
    decreases members.len(),
{
    if members.len() > 0 {
        let init = members.drop_last();
        law_worst_skew_bounds_every_member(init);
        let last = members[members.len() - 1];
        assert forall|i: int| 0 <= i < init.len() implies #[trigger] members[i] == init[i] by {}
        if let Some(w) = worst(members) {
            if last.status.measured_skew_ns != Some(w) {
                let k = choose|i: int|
                    0 <= i < init.len() && (#[trigger] init[i]).status.measured_skew_ns == Some(w);
                assert(members[k].status.measured_skew_ns == Some(w));
            }
            assert forall|i: int| 0 <= i < members.len() implies match (
            #[trigger] members[i]).status.measured_skew_ns {
                Some(x) => x <= w,
                None => true,
            } by {
                if i < init.len() {
                    assert(members[i] == init[i]);
                }
            }
        } else {
            assert forall|i: int| 0 <= i < members.len() implies (
            #[trigger] members[i]).status.measured_skew_ns is None by {
                if i < init.len() {
                    assert(members[i] == init[i]);
                }
            }
        }
    }
}

/// Applying a configuration does not blank what was measured of a member that
/// it still names, nor its alarm.
pub proof fn law_seeding_keeps_measurements(
    before: Map<Seq<char>, GroupView>,
    h: DriftHysteresis,
    groups: Seq<SyncGroup>,
    after: Map<Seq<char>, GroupView>,
    id: Seq<char>,
    gi: int,
    mi: int,
)
    requires
        seeded(before, h, groups, after),
        last_group(groups, id, gi),
        0 <= mi < groups[gi].members@.len(),
        before.contains_key(id),
        member_index(before[id].members, groups[gi].members@[mi].device@) is Some,
    ensures
        after.contains_key(id),
        mi < after[id].members.len(),
        ({
            let k = member_index(before[id].members, groups[gi].members@[mi].device@)->0;
            let was = before[id].members[k];
            let is = after[id].members[mi];
            &&& is.drift == was.drift
            &&& is.status.device == was.status.device
            &&& is.status.achieved == was.status.achieved
            &&& is.status.measured_skew_ns == was.status.measured_skew_ns
            &&& is.status.drift_alarm == was.status.drift_alarm
            &&& is.status.offset_ms == groups[gi].members@[mi].offset_ms
        }),
{
    assert(groups[gi].id@ == id);
    assert(seeded_group(group_in(before, id), h, groups[gi], after[id]));
    assert(seeded_member(
        group_in(before, id),
        h,
        groups[gi].members@[mi],
        after[id].members[mi],
    ));
}

/// A seeded member is the configured device with the configured trim, whatever was
/// known of it; one that nothing was known of has no measurement and no alarm.
pub proof fn law_seeded_member_is_the_configured_one(
    prior: Option<GroupView>,
    h: DriftHysteresis,
    config: SyncMember,
    m: MemberRuntime,
)
    requires
        seeded_member(prior, h, config, m),
    ensures
        m.status.device@ == config.device@,
        m.status.offset_ms == config.offset_ms,
        prior is None ==> m.status.achieved is None && m.status.measured_skew_ns is None
            && !m.status.drift_alarm && m.drift.dwells() == h,
        prior is Some && (forall|j: int|
            0 <= j < prior->0.members.len() ==> (#[trigger] prior->0.members[j]).status.device@
                != config.device@) ==> m.status.achieved is None && m.status.measured_skew_ns is None
            && !m.status.drift_alarm,
{
    if let Some(g) = prior {
        lemma_member_index(g.members, config.device@);
    }
}

/// An observation is recorded of the member it was made of, and changes neither its
/// device nor its trim. The alarm is up exactly while the drift is held to be over.
pub proof fn law_observation_is_recorded(
    m: MemberRuntime,
    target_skew_ms: u32,
    achieved: AchievedSync,
    skew: Option<i64>,
    now: MediaTime,
    after: MemberRuntime,
    t: DriftTransition,
)
    requires
        member_observed(m, target_skew_ms, achieved, skew, now, after, t),
        m.status.drift_alarm == crate::devices::sync_drift::alarmed(m.drift@),
    ensures
        after.status.achieved == Some(achieved),
        after.status.measured_skew_ns == skew,
        after.status.device == m.status.device,
        after.status.offset_ms == m.status.offset_ms,
        t == DriftTransition::Raised ==> after.status.drift_alarm && !m.status.drift_alarm,
        t == DriftTransition::Cleared ==> !after.status.drift_alarm && m.status.drift_alarm,
        t == DriftTransition::Unchanged ==> after.status.drift_alarm == m.status.drift_alarm,
        skew is None ==> t != DriftTransition::Raised,
{
}

/// The trims that are listed are those of the members, group by group.
pub proof fn law_trims_are_those_of_the_members(
    ids: Seq<Seq<char>>,
    m: Map<Seq<char>, GroupView>,
    k: int,
    i: int,
)
    requires
        0 <= k < ids.len(),
        0 <= i < m[ids[k]].members.len(),
    ensures
        all_offsets(ids, m).contains(
            (
                ids[k],
                m[ids[k]].members[i].status.device@,
                m[ids[k]].members[i].status.offset_ms,
            ),
        ),
    decreases ids.len(),
{
    let item = (
        ids[k],
        m[ids[k]].members[i].status.device@,
        m[ids[k]].members[i].status.offset_ms,
    );
    let front = all_offsets(ids.drop_last(), m);
    let last = offsets_of(ids.last(), m[ids.last()].members);
    if k == ids.len() - 1 {
        assert(last[i] == item);
        assert((front + last)[front.len() + i] == item);
    } else {
        assert(ids.drop_last()[k] == ids[k]);
        law_trims_are_those_of_the_members(ids.drop_last(), m, k, i);
        let j = choose|j: int| 0 <= j < front.len() && front[j] == item;
        assert((front + last)[j] == item);
    }
}

/// Of two skews the larger counts, and one that was not measured does not.
pub proof fn law_larger_skew_counts(x: i64, y: i64, a: Option<i64>)
    ensures
        worse(Some(x), Some(y)) == Some(
            if x < y {
                y
            } else {
                x
            },
        ),
        worse(None, a) == a,
        worse(a, None) == a,
{
}

/// A group's status is that of its members: it achieves nothing while one of them has
/// not been measured, and no more than any of them does; it is in alarm where one of
/// them is; and a single member that was not measured, among others that achieve
/// something, is named as what holds it back.
pub proof fn law_group_status_is_that_of_its_members(
    s: SyncGroupStatus,
    id: Seq<char>,
    g: GroupView,
    k: int,
)
    requires
        describes(s, id, g),
        0 <= k < g.members.len(),
    ensures
        s.group@ == id,
        s.target_skew_ms == g.target_skew_ms,
        s.members@.len() == g.members.len(),
        s.members@[k] == g.members[k].status,
        g.members[k].status.achieved is None ==> s.achieved.rank == 0,
        g.members[k].status.achieved matches Some(a) ==> s.achieved.rank <= a.rank,
        g.members[k].status.drift_alarm ==> s.drift_alarm,
        (forall|i: int| 0 <= i < g.members.len() ==> !(#[trigger] g.members[i]).status.drift_alarm)
            ==> !s.drift_alarm,
        g.members.len() == 1 ==> s.limited_by is None,
        g.members.len() > 1 && g.members[k].status.achieved is None && (forall|i: int|
            0 <= i < g.members.len() && i != k ==> ((#[trigger] g.members[i]).status.achieved
                matches Some(a) && a.rank > 0)) ==> s.limited_by == Some(g.members[k].status.device),
{
    lemma_weakest(g.members);
    let ms = g.members;
    if ms.len() > 1 && ms[k].status.achieved is None && (forall|i: int|
        0 <= i < ms.len() && i != k ==> ((#[trigger] ms[i]).status.achieved matches Some(a)
            && a.rank > 0)) {
        assert(weakest(ms).rank == 0);
        assert(counted(ms[k].status) == weakest(ms));
        assert forall|j: int| 0 <= j < ms.len() && j != k implies counted(
            (#[trigger] ms[j]).status,
        ) != weakest(ms) by {
            assert(ms[j].status.achieved is Some);
        }
        assert(sole_at(ms, weakest(ms), k));
        let i = choose|i: int| #[trigger]
            sole_at(ms, weakest(ms), i) && ms[i].status.device == s.limited_by->0;
        if s.limited_by is Some {
            assert(sole_at(ms, weakest(ms), i));
            if i != k {
                assert(counted(ms[k].status) != weakest(ms));
            }
        }
    }
}

} // verus!
