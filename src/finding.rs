//! The finding model and the age rule that every "last used" signal goes
//! through.
//!
//! Timestamps are whole seconds since the Unix epoch (`i64`); `None` means
//! that no use was ever recorded.
use vstd::prelude::*;

verus! {

/// Seconds in one day of the age threshold.
pub const SECONDS_PER_DAY: i64 = 86400;

/// More than `age_days` whole days lie between `last` and `analyzed_at`.
pub open spec fn exceeds_age(last: int, analyzed_at: int, age_days: int) -> bool {
    analyzed_at - last > age_days * SECONDS_PER_DAY
}

/// The age rule: a signal is unused when it was never recorded, or when it
/// is older than the threshold. Exactly `age_days` old still counts as used.
pub open spec fn is_unused(last: Option<i64>, analyzed_at: i64, age_days: i64) -> bool {
    match last {
        None => true,
        Some(t) => exceeds_age(t as int, analyzed_at as int, age_days as int),
    }
}

/// A signal that was never recorded is unused, whatever the instant of the
/// analysis and the threshold.
pub proof fn lemma_never_used_is_unused(analyzed_at: i64, age_days: i64)
    ensures
        is_unused(None, analyzed_at, age_days),
{
}

/// A timestamp no later than the analysis is unused exactly when
/// more than `age_days` days separate the two; exactly `age_days` days is
/// still used.
pub proof fn lemma_unused_iff_older_than_threshold(last: i64, analyzed_at: i64, age_days: i64)
    requires
        last <= analyzed_at,
    ensures
        is_unused(Some(last), analyzed_at, age_days) == (analyzed_at - last > age_days * SECONDS_PER_DAY),
        analyzed_at - last == age_days * SECONDS_PER_DAY ==> !is_unused(Some(last), analyzed_at, age_days),
{
}

/// Whether more than `age_days` days separate `last` from `analyzed_at`.
pub fn elapsed_exceeds_age(last: i64, analyzed_at: i64, age_days: i64) -> (r: bool)
    ensures
        r == exceeds_age(last as int, analyzed_at as int, age_days as int),
{
    let elapsed: i128 = analyzed_at as i128 - last as i128;
    let days: i128 = age_days as i128;
    proof {
        assert(-0x8000_0000_0000_0000 * 86400 <= days * 86400 <= 0x7fff_ffff_ffff_ffff * 86400)
            by (nonlinear_arith)
            requires
                -0x8000_0000_0000_0000 <= days <= 0x7fff_ffff_ffff_ffff,
        ;
    }
    let limit: i128 = days * (SECONDS_PER_DAY as i128);
    elapsed > limit
}

/// The age rule on one signal (see `is_unused`).
pub fn duration_gt_age(last_accessed: Option<i64>, analyzed_at: i64, unused_access_age: i64) -> (r: bool)
    ensures
        r == is_unused(last_accessed, analyzed_at, unused_access_age),
{
    match last_accessed {
        None => true,
        Some(t) => elapsed_exceeds_age(t, analyzed_at, unused_access_age),
    }
}

#[derive(Clone, Copy, Debug, PartialEq, Eq, Structural)]
pub enum ResourceType {
    AwsIamRole,
    AwsIamUser,
}

#[derive(Clone, Copy, Debug, PartialEq, Eq, Structural)]
pub enum FindingType {
    UnusedIamRole,
    UnusedIamUserAccessKey,
    UnusedIamUserPassword,
    UnusedPermission,
}

/// One reportable issue for one identity.
#[derive(Debug)]
pub struct Finding {
    pub resource: String,
    pub resource_type: ResourceType,
    pub resource_owner_account: String,
    /// A fresh random identifier, drawn once per finding.
    pub id: String,
    pub finding_details: Vec<FindingDetails>,
    pub finding_type: FindingType,
}

#[derive(Debug)]
pub enum FindingDetails {
    UnusedIamRoleDetails(UnusedIamRoleDetails),
    UnusedIamUserAccessKeyDetails(UnusedIamUserAccessKeyDetails),
    UnusedIamUserPasswordDetails(UnusedIamUserPasswordDetails),
    UnusedPermissionDetails(UnusedPermissionDetails),
}

#[derive(Debug)]
pub struct UnusedIamRoleDetails {
    pub last_accessed: Option<i64>,
}

#[derive(Debug)]
pub struct UnusedIamUserAccessKeyDetails {
    pub last_accessed: Option<i64>,
    pub access_key_id: String,
}

#[derive(Debug)]
pub struct UnusedIamUserPasswordDetails {
    pub last_accessed: Option<i64>,
}

/// One service and, where the provider tracks them, its actions.
#[derive(Debug)]
pub struct UnusedPermissionDetails {
    pub actions: Option<Vec<UnusedAction>>,
    pub service_namespace: String,
    pub last_accessed: Option<i64>,
}

#[derive(Debug)]
pub struct UnusedAction {
    pub action: String,
    pub last_accessed: Option<i64>,
}

/// One tracked action as the access advisor reports it.
#[derive(Debug)]
pub struct TrackedActionRecord {
    pub action_name: Option<String>,
    pub last_accessed_time: Option<i64>,
}

/// One service as the access advisor reports it: `last_authenticated` is the
/// last use of the service as a whole.
#[derive(Debug)]
pub struct ServiceRecord {
    pub service_namespace: String,
    pub last_authenticated: Option<i64>,
    pub tracked_actions_last_accessed: Option<Vec<TrackedActionRecord>>,
}

pub struct ActionView {
    pub action: Seq<char>,
    pub last_accessed: Option<i64>,
}

pub struct PermissionView {
    pub actions: Option<Seq<ActionView>>,
    pub service_namespace: Seq<char>,
    pub last_accessed: Option<i64>,
}

pub enum DetailView {
    Role { last_accessed: Option<i64> },
    AccessKey { last_accessed: Option<i64>, access_key_id: Seq<char> },
    Password { last_accessed: Option<i64> },
    Permission(PermissionView),
}

/// A finding without its random identifier.
pub struct FindingView {
    pub resource: Seq<char>,
    pub resource_type: ResourceType,
    pub resource_owner_account: Seq<char>,
    pub finding_details: Seq<DetailView>,
    pub finding_type: FindingType,
}

impl View for UnusedAction {
    type V = ActionView;

    open spec fn view(&self) -> ActionView {
        ActionView { action: self.action@, last_accessed: self.last_accessed }
    }
}

pub open spec fn actions_view(actions: Seq<UnusedAction>) -> Seq<ActionView> {
    actions.map_values(|a: UnusedAction| a@)
}

impl View for UnusedPermissionDetails {
    type V = PermissionView;

    open spec fn view(&self) -> PermissionView {
        PermissionView {
            actions: match self.actions {
                Some(v) => Some(actions_view(v@)),
                None => None,
            },
            service_namespace: self.service_namespace@,
            last_accessed: self.last_accessed,
        }
    }
}

impl View for FindingDetails {
    type V = DetailView;

    open spec fn view(&self) -> DetailView {
        match self {
            FindingDetails::UnusedIamRoleDetails(d) => DetailView::Role { last_accessed: d.last_accessed },
            FindingDetails::UnusedIamUserAccessKeyDetails(d) => DetailView::AccessKey {
                last_accessed: d.last_accessed,
                access_key_id: d.access_key_id@,
            },
            FindingDetails::UnusedIamUserPasswordDetails(d) => DetailView::Password {
                last_accessed: d.last_accessed,
            },
            FindingDetails::UnusedPermissionDetails(d) => DetailView::Permission(d@),
        }
    }
}

pub open spec fn details_view(details: Seq<FindingDetails>) -> Seq<DetailView> {
    details.map_values(|d: FindingDetails| d@)
}

impl View for Finding {
    type V = FindingView;

    open spec fn view(&self) -> FindingView {
        FindingView {
            resource: self.resource@,
            resource_type: self.resource_type,
            resource_owner_account: self.resource_owner_account@,
            finding_details: details_view(self.finding_details@),
            finding_type: self.finding_type,
        }
    }
}

pub open spec fn findings_view(findings: Seq<Finding>) -> Seq<FindingView> {
    findings.map_values(|f: Finding| f@)
}

/// A tracked action as reported, in the shape of a finding: a missing name
/// becomes the empty string.
pub open spec fn action_of_record(a: TrackedActionRecord) -> ActionView {
    ActionView {
        action: match a.action_name {
            Some(name) => name@,
            None => Seq::empty(),
        },
        last_accessed: a.last_accessed_time,
    }
}

/// A service as reported, in the shape of a finding, actions in their order.
pub open spec fn permission_of_record(s: ServiceRecord) -> PermissionView {
    PermissionView {
        actions: match s.tracked_actions_last_accessed {
            Some(v) => Some(v@.map_values(|a: TrackedActionRecord| action_of_record(a))),
            None => None,
        },
        service_namespace: s.service_namespace@,
        last_accessed: s.last_authenticated,
    }
}

/// A service counts as unused when the service itself, or any of its tracked
/// actions, is unused.
pub open spec fn any_unused(p: PermissionView, analyzed_at: i64, age_days: i64) -> bool {
    is_unused(p.last_accessed, analyzed_at, age_days) || match p.actions {
        Some(actions) => exists|i: int|
            0 <= i < actions.len() && is_unused(#[trigger] actions[i].last_accessed, analyzed_at, age_days),
        None => false,
    }
}

impl UnusedAction {
    /// The finding entry of a tracked action; a missing name becomes empty.
    pub fn from_record(value: &TrackedActionRecord) -> (r: UnusedAction)
        ensures
            r@ == action_of_record(*value),
    {
        let action = match &value.action_name {
            Some(name) => name.clone(),
            None => String::new(),
        };
        UnusedAction { action, last_accessed: value.last_accessed_time }
    }
}

impl UnusedPermissionDetails {
    /// The finding entry of a reported service, its tracked actions in order.
    pub fn from_record(value: &ServiceRecord) -> (r: UnusedPermissionDetails)
        ensures
            r@ == permission_of_record(*value),
    {
        let actions = match &value.tracked_actions_last_accessed {
            None => None,
            Some(records) => {
                let mut out: Vec<UnusedAction> = Vec::new();
                let mut i: usize = 0;
                while i < records.len()
                    invariant
                        i <= records@.len(),
                        actions_view(out@) =~= records@.subrange(0, i as int).map_values(
                            |a: TrackedActionRecord| action_of_record(a),
                        ),
                    decreases records@.len() - i,
                {
                    let a = UnusedAction::from_record(&records[i]);
                    let ghost prev = out@;
                    out.push(a);
                    assert(actions_view(out@) =~= actions_view(prev).push(a@));
                    assert(records@.subrange(0, i + 1) =~= records@.subrange(0, i as int).push(records@[i as int]));
                    i = i + 1;
                }
                assert(records@.subrange(0, records@.len() as int) =~= records@);
                Some(out)
            },
        };
        UnusedPermissionDetails {
            actions,
            service_namespace: value.service_namespace.clone(),
            last_accessed: value.last_authenticated,
        }
    }

    /// Whether this service, or one of its tracked actions, is unused.
    pub fn any_not_used(&self, analyzed_at: i64, unused_access_age: i64) -> (r: bool)
        ensures
            r == any_unused(self@, analyzed_at, unused_access_age),
    {
        if duration_gt_age(self.last_accessed, analyzed_at, unused_access_age) {
            return true;
        }
        match &self.actions {
            None => false,
            Some(actions) => {
                let mut i: usize = 0;
                while i < actions.len()
                    invariant
                        self@.actions == Some(actions_view(actions@)),
                        i <= actions@.len(),
                        forall|j: int| 0 <= j < i ==> !is_unused(#[trigger] actions@[j].last_accessed, analyzed_at, unused_access_age),
                    decreases actions@.len() - i,
                {
                    if duration_gt_age(actions[i].last_accessed, analyzed_at, unused_access_age) {
                        let ghost av = actions_view(actions@);
                        assert(av[i as int].last_accessed == actions@[i as int].last_accessed);
                        assert(is_unused(av[i as int].last_accessed, analyzed_at, unused_access_age));
                        return true;
                    }
                    i = i + 1;
                }
                assert forall|j: int| 0 <= j < actions_view(actions@).len() implies !is_unused(
                    #[trigger] actions_view(actions@)[j].last_accessed, analyzed_at, unused_access_age) by {
                    assert(actions_view(actions@)[j].last_accessed == actions@[j].last_accessed);
                }
                false
            },
        }
    }
}

} // verus!
