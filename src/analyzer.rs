//! Assembly of findings for one user or one role from the signals that the
//! provider reported for it.
use vstd::prelude::*;
use vstd::string::*;

use crate::finding::{
    any_unused, details_view, duration_gt_age, exceeds_age, findings_view, is_unused, permission_of_record,
    DetailView, Finding, FindingDetails, FindingType, FindingView, ResourceType, ServiceRecord,
    UnusedIamRoleDetails, UnusedIamUserAccessKeyDetails, UnusedIamUserPasswordDetails,
    UnusedPermissionDetails,
};

verus! {

/// What the analysis is configured with.
pub struct MetaData {
    /// The threshold in days beyond which a signal counts as unused.
    pub unused_access_age: i64,
    /// The account stamped on every finding.
    pub owner_account: String,
}

/// A user as the provider lists it.
#[derive(Debug)]
pub struct UserRecord {
    pub user_name: String,
    pub arn: String,
    pub create_date: i64,
    pub password_last_used: Option<i64>,
}

/// An access key of a user. `last_used_date` is the date as the provider
/// reports it, where the epoch itself means "never used"; `None` where no
/// record was fetched.
#[derive(Debug)]
pub struct AccessKeyRecord {
    pub access_key_id: Option<String>,
    pub create_date: Option<i64>,
    pub last_used_date: Option<i64>,
}

/// What the provider reported for one user besides the user itself.
#[derive(Debug)]
pub struct UserActivity {
    /// When the console password was created; `None`: the user has none.
    pub login_profile_create_date: Option<i64>,
    pub access_keys: Vec<AccessKeyRecord>,
    pub services: Vec<ServiceRecord>,
}

/// A role as the provider describes it.
#[derive(Debug)]
pub struct RoleRecord {
    pub role_name: String,
    pub arn: String,
    pub path: String,
    pub create_date: i64,
    /// The last time the role was assumed.
    pub role_last_used: Option<i64>,
}

/// What to do after one page of a listing of users or roles.
#[derive(Debug)]
pub enum PageStep {
    /// Fetch the next page, from this marker.
    Fetch(Option<String>),
    /// The listing is complete.
    Done,
}

/// The next step of a listing: a truncated page is followed by the page at
/// its marker; any other page ends the listing.
pub fn next_page(is_truncated: bool, marker: Option<String>) -> (r: PageStep)
    ensures
        is_truncated ==> r == PageStep::Fetch(marker),
        !is_truncated ==> r == PageStep::Done,
{
    if is_truncated {
        PageStep::Fetch(marker)
    } else {
        PageStep::Done
    }
}

/// The path prefix of the roles that the provider manages itself.
pub open spec fn service_role_prefix() -> Seq<char> {
    seq!['/', 'a', 'w', 's', '-', 's', 'e', 'r', 'v', 'i', 'c', 'e', '-', 'r', 'o', 'l', 'e', '/']
}

pub open spec fn is_service_linked_path(path: Seq<char>) -> bool {
    path.len() >= service_role_prefix().len() && path.subrange(0, service_role_prefix().len() as int)
        == service_role_prefix()
}

/// The provider reports "never used" as the epoch itself.
pub open spec fn normalized_last_used(reported: Option<i64>) -> Option<i64> {
    match reported {
        Some(t) => if t == 0 {
            None
        } else {
            Some(t)
        },
        None => None,
    }
}

/// The entry for an access key, where the key is old enough, has an id and
/// is unused.
pub open spec fn key_detail(k: AccessKeyRecord, analyzed_at: i64, age_days: i64) -> Option<DetailView> {
    if is_unused(k.create_date, analyzed_at, age_days) && k.access_key_id is Some && is_unused(
        normalized_last_used(k.last_used_date),
        analyzed_at,
        age_days,
    ) {
        Some(
            DetailView::AccessKey {
                last_accessed: normalized_last_used(k.last_used_date),
                access_key_id: k.access_key_id->Some_0@,
            },
        )
    } else {
        None
    }
}

pub open spec fn key_details(keys: Seq<AccessKeyRecord>, analyzed_at: i64, age_days: i64) -> Seq<DetailView> {
    keys.filter_map(|k: AccessKeyRecord| key_detail(k, analyzed_at, age_days))
}

/// The entry for a service, where it or one of its actions is unused.
pub open spec fn service_detail(s: ServiceRecord, analyzed_at: i64, age_days: i64) -> Option<DetailView> {
    if any_unused(permission_of_record(s), analyzed_at, age_days) {
        Some(DetailView::Permission(permission_of_record(s)))
    } else {
        None
    }
}

pub open spec fn permission_details(services: Seq<ServiceRecord>, analyzed_at: i64, age_days: i64) -> Seq<DetailView> {
    services.filter_map(|s: ServiceRecord| service_detail(s, analyzed_at, age_days))
}

/// One finding carrying `details`, or none where there are no details.
pub open spec fn finding_for(
    meta: MetaData,
    resource: Seq<char>,
    resource_type: ResourceType,
    finding_type: FindingType,
    details: Seq<DetailView>,
) -> Seq<FindingView> {
    if details.len() > 0 {
        seq![
            FindingView {
                resource,
                resource_type,
                resource_owner_account: meta.owner_account@,
                finding_details: details,
                finding_type,
            },
        ]
    } else {
        Seq::empty()
    }
}

pub open spec fn password_unused(user: UserRecord, activity: UserActivity, analyzed_at: i64, age_days: i64) -> bool {
    match activity.login_profile_create_date {
        Some(created) => is_unused(Some(created), analyzed_at, age_days) && is_unused(
            user.password_last_used,
            analyzed_at,
            age_days,
        ),
        None => false,
    }
}

/// The findings for a user: none for a user younger than the threshold;
/// else an unused password, then the unused access keys, then the unused
/// services, each as one finding where there is something to report.
pub open spec fn user_findings(meta: MetaData, user: UserRecord, activity: UserActivity, analyzed_at: i64) -> Seq<FindingView> {
    let age = meta.unused_access_age;
    if !is_unused(Some(user.create_date), analyzed_at, age) {
        Seq::empty()
    } else {
        finding_for(
            meta,
            user.arn@,
            ResourceType::AwsIamUser,
            FindingType::UnusedIamUserPassword,
            if password_unused(user, activity, analyzed_at, age) {
                seq![DetailView::Password { last_accessed: user.password_last_used }]
            } else {
                Seq::empty()
            },
        ) + finding_for(
            meta,
            user.arn@,
            ResourceType::AwsIamUser,
            FindingType::UnusedIamUserAccessKey,
            key_details(activity.access_keys@, analyzed_at, age),
        ) + finding_for(
            meta,
            user.arn@,
            ResourceType::AwsIamUser,
            FindingType::UnusedPermission,
            permission_details(activity.services@, analyzed_at, age),
        )
    }
}

/// The findings for a role: none for a service-linked role or one younger
/// than the threshold; else the role itself where it is unused, then the
/// unused services as one finding.
pub open spec fn role_findings(meta: MetaData, role: RoleRecord, services: Seq<ServiceRecord>, analyzed_at: i64) -> Seq<FindingView> {
    let age = meta.unused_access_age;
    if is_service_linked_path(role.path@) || !is_unused(Some(role.create_date), analyzed_at, age) {
        Seq::empty()
    } else {
        finding_for(
            meta,
            role.arn@,
            ResourceType::AwsIamRole,
            FindingType::UnusedIamRole,
            if is_unused(role.role_last_used, analyzed_at, age) {
                seq![DetailView::Role { last_accessed: role.role_last_used }]
            } else {
                Seq::empty()
            },
        ) + finding_for(
            meta,
            role.arn@,
            ResourceType::AwsIamRole,
            FindingType::UnusedPermission,
            permission_details(services, analyzed_at, age),
        )
    }
}

/// An access key whose last use is reported as the epoch is treated as never
/// used: its entry, where it has one, says so, and the epoch is never
/// compared as a date.
pub proof fn lemma_epoch_last_use_is_never_used(k: AccessKeyRecord, analyzed_at: i64, age_days: i64)
    requires
        k.last_used_date == Some(0i64),
    ensures
        normalized_last_used(k.last_used_date) is None,
        key_detail(k, analyzed_at, age_days) == if is_unused(k.create_date, analyzed_at, age_days)
            && k.access_key_id is Some {
            Some(DetailView::AccessKey { last_accessed: None, access_key_id: k.access_key_id->Some_0@ })
        } else {
            None
        },
{
}

/// A user created no more than the threshold's days before the analysis has
/// no findings, whatever else was reported for it.
pub proof fn lemma_young_user_has_no_findings(
    meta: MetaData,
    user: UserRecord,
    activity: UserActivity,
    analyzed_at: i64,
)
    requires
        !exceeds_age(user.create_date as int, analyzed_at as int, meta.unused_access_age as int),
    ensures
        user_findings(meta, user, activity, analyzed_at).len() == 0,
{
}

/// A role created no more than the threshold's days before the analysis has
/// no findings, whatever else was reported for it.
pub proof fn lemma_young_role_has_no_findings(
    meta: MetaData,
    role: RoleRecord,
    services: Seq<ServiceRecord>,
    analyzed_at: i64,
)
    requires
        !exceeds_age(role.create_date as int, analyzed_at as int, meta.unused_access_age as int),
    ensures
        role_findings(meta, role, services, analyzed_at).len() == 0,
{
}

/// A service-linked role has no findings.
pub proof fn lemma_service_linked_role_has_no_findings(
    meta: MetaData,
    role: RoleRecord,
    services: Seq<ServiceRecord>,
    analyzed_at: i64,
)
    requires
        is_service_linked_path(role.path@),
    ensures
        role_findings(meta, role, services, analyzed_at).len() == 0,
{
}

/// The services that count as unused at `analyzed_at`.
pub open spec fn unused_service(analyzed_at: i64, age_days: i64) -> spec_fn(ServiceRecord) -> bool {
    |s: ServiceRecord| any_unused(permission_of_record(s), analyzed_at, age_days)
}

pub open spec fn permission_entry() -> spec_fn(ServiceRecord) -> DetailView {
    |s: ServiceRecord| DetailView::Permission(permission_of_record(s))
}

/// The permission entries are exactly one per unused service, in the order
/// of the services, and none for a service used within the threshold.
pub proof fn lemma_one_entry_per_unused_service(services: Seq<ServiceRecord>, analyzed_at: i64, age_days: i64)
    ensures
        permission_details(services, analyzed_at, age_days) == services.filter(
            unused_service(analyzed_at, age_days),
        ).map_values(permission_entry()),
    decreases services.len(),
{
    reveal_with_fuel(Seq::<ServiceRecord>::filter, 1);
    let pred = unused_service(analyzed_at, age_days);
    if services.len() == 0 {
        assert(services.filter(pred).map_values(permission_entry()) =~= Seq::empty());
    } else {
        let rest = services.drop_last();
        lemma_one_entry_per_unused_service(rest, analyzed_at, age_days);
        let last = services.last();
        if pred(last) {
            assert(rest.filter(pred).push(last).map_values(permission_entry()) =~= rest.filter(
                pred,
            ).map_values(permission_entry()).push(permission_entry()(last)));
            assert(permission_details(services, analyzed_at, age_days) =~= permission_details(
                rest,
                analyzed_at,
                age_days,
            ) + seq![permission_entry()(last)]);
        }
    }
}

/// An element that `f` keeps stays in the result of `filter_map`.
proof fn lemma_filter_map_keeps<A, B>(s: Seq<A>, f: spec_fn(A) -> Option<B>, j: int)
    requires
        0 <= j < s.len(),
        f(s[j]) is Some,
    ensures
        s.filter_map(f).contains(f(s[j])->Some_0),
    decreases s.len(),
{
    let rest = s.drop_last();
    let x = f(s[j])->Some_0;
    if j == s.len() - 1 {
        assert(s.filter_map(f) == rest.filter_map(f) + seq![x]);
        assert((rest.filter_map(f) + seq![x])[rest.filter_map(f).len() as int] == x);
    } else {
        assert(rest[j] == s[j]);
        lemma_filter_map_keeps(rest, f, j);
        let k = choose|k: int| 0 <= k < rest.filter_map(f).len() && rest.filter_map(f)[k] == x;
        match f(s.last()) {
            Some(y) => {
                assert((rest.filter_map(f) + seq![y])[k] == x);
            },
            None => {},
        }
    }
}

/// An analysed user with an old access key whose last use is reported as the
/// epoch gets an access-key finding whose entry for that key says "never
/// used".
pub proof fn lemma_epoch_key_reported_as_never_used(
    meta: MetaData,
    user: UserRecord,
    activity: UserActivity,
    analyzed_at: i64,
    j: int,
)
    requires
        is_unused(Some(user.create_date), analyzed_at, meta.unused_access_age),
        0 <= j < activity.access_keys@.len(),
        activity.access_keys@[j].last_used_date == Some(0i64),
        activity.access_keys@[j].access_key_id is Some,
        is_unused(activity.access_keys@[j].create_date, analyzed_at, meta.unused_access_age),
    ensures
        exists|i: int|
            0 <= i < user_findings(meta, user, activity, analyzed_at).len() && (#[trigger] user_findings(
                meta,
                user,
                activity,
                analyzed_at,
            )[i]).finding_type == FindingType::UnusedIamUserAccessKey && user_findings(
                meta,
                user,
                activity,
                analyzed_at,
            )[i].finding_details.contains(
                DetailView::AccessKey {
                    last_accessed: None,
                    access_key_id: activity.access_keys@[j].access_key_id->Some_0@,
                },
            ),
{
    let age = meta.unused_access_age;
    let keys = activity.access_keys@;
    let f = |k: AccessKeyRecord| key_detail(k, analyzed_at, age);
    lemma_filter_map_keeps(keys, f, j);
    let kd = key_details(keys, analyzed_at, age);
    assert(kd.len() > 0);
    let a = finding_for(
        meta,
        user.arn@,
        ResourceType::AwsIamUser,
        FindingType::UnusedIamUserPassword,
        if password_unused(user, activity, analyzed_at, age) {
            seq![DetailView::Password { last_accessed: user.password_last_used }]
        } else {
            Seq::empty()
        },
    );
    let b = finding_for(meta, user.arn@, ResourceType::AwsIamUser, FindingType::UnusedIamUserAccessKey, kd);
    let c = finding_for(
        meta,
        user.arn@,
        ResourceType::AwsIamUser,
        FindingType::UnusedPermission,
        permission_details(activity.services@, analyzed_at, age),
    );
    let fs = user_findings(meta, user, activity, analyzed_at);
    assert(fs == a + b + c);
    assert(fs[a.len() as int] == b[0]);
}

/// The findings of an analysed user hold one permission finding exactly when
/// some service is unused: it is the last finding, and its entries are the
/// unused services, one each, in order.
pub proof fn lemma_user_permission_finding(
    meta: MetaData,
    user: UserRecord,
    activity: UserActivity,
    analyzed_at: i64,
)
    requires
        is_unused(Some(user.create_date), analyzed_at, meta.unused_access_age),
    ensures
        ({
            let fs = user_findings(meta, user, activity, analyzed_at);
            let k = activity.services@.filter(unused_service(analyzed_at, meta.unused_access_age)).map_values(
                permission_entry(),
            );
            &&& forall|i: int|
                0 <= i < fs.len() ==> ((#[trigger] fs[i]).finding_type == FindingType::UnusedPermission <==> (
                k.len() > 0 && i == fs.len() - 1))
            &&& k.len() > 0 ==> fs.last().finding_details == k && fs.last().resource == user.arn@
                && fs.last().resource_type == ResourceType::AwsIamUser
        }),
{
    let age = meta.unused_access_age;
    lemma_one_entry_per_unused_service(activity.services@, analyzed_at, age);
    let a = finding_for(
        meta,
        user.arn@,
        ResourceType::AwsIamUser,
        FindingType::UnusedIamUserPassword,
        if password_unused(user, activity, analyzed_at, age) {
            seq![DetailView::Password { last_accessed: user.password_last_used }]
        } else {
            Seq::empty()
        },
    );
    let b = finding_for(
        meta,
        user.arn@,
        ResourceType::AwsIamUser,
        FindingType::UnusedIamUserAccessKey,
        key_details(activity.access_keys@, analyzed_at, age),
    );
    let c = finding_for(
        meta,
        user.arn@,
        ResourceType::AwsIamUser,
        FindingType::UnusedPermission,
        permission_details(activity.services@, analyzed_at, age),
    );
    let fs = user_findings(meta, user, activity, analyzed_at);
    assert(fs == a + b + c);
    assert forall|i: int| 0 <= i < fs.len() implies ((#[trigger] fs[i]).finding_type
        == FindingType::UnusedPermission <==> (c.len() > 0 && i == fs.len() - 1)) by {
        if i < a.len() {
            assert(fs[i] == a[i]);
        } else if i < a.len() + b.len() {
            assert(fs[i] == b[i - a.len()]);
        } else {
            assert(fs[i] == c[i - a.len() - b.len()]);
        }
    }
}

/// The findings of an analysed role hold one permission finding exactly when
/// some service is unused: it is the last finding, and its entries are the
/// unused services, one each, in order.
pub proof fn lemma_role_permission_finding(
    meta: MetaData,
    role: RoleRecord,
    services: Seq<ServiceRecord>,
    analyzed_at: i64,
)
    requires
        !is_service_linked_path(role.path@),
        is_unused(Some(role.create_date), analyzed_at, meta.unused_access_age),
    ensures
        ({
            let fs = role_findings(meta, role, services, analyzed_at);
            let k = services.filter(unused_service(analyzed_at, meta.unused_access_age)).map_values(
                permission_entry(),
            );
            &&& forall|i: int|
                0 <= i < fs.len() ==> ((#[trigger] fs[i]).finding_type == FindingType::UnusedPermission <==> (
                k.len() > 0 && i == fs.len() - 1))
            &&& k.len() > 0 ==> fs.last().finding_details == k && fs.last().resource == role.arn@
                && fs.last().resource_type == ResourceType::AwsIamRole
        }),
{
    let age = meta.unused_access_age;
    lemma_one_entry_per_unused_service(services, analyzed_at, age);
    let a = finding_for(
        meta,
        role.arn@,
        ResourceType::AwsIamRole,
        FindingType::UnusedIamRole,
        if is_unused(role.role_last_used, analyzed_at, age) {
            seq![DetailView::Role { last_accessed: role.role_last_used }]
        } else {
            Seq::empty()
        },
    );
    let c = finding_for(
        meta,
        role.arn@,
        ResourceType::AwsIamRole,
        FindingType::UnusedPermission,
        permission_details(services, analyzed_at, age),
    );
    let fs = role_findings(meta, role, services, analyzed_at);
    assert(fs == a + c);
    assert forall|i: int| 0 <= i < fs.len() implies ((#[trigger] fs[i]).finding_type
        == FindingType::UnusedPermission <==> (c.len() > 0 && i == fs.len() - 1)) by {
        if i < a.len() {
            assert(fs[i] == a[i]);
        } else {
            assert(fs[i] == c[i - a.len()]);
        }
    }
}

/// Relies on uuid::Uuid::new_v4 for a random identifier, and on its
/// `Display`, which writes the hyphenated form of 36 characters.
#[verifier::external_body]
fn random_finding_id() -> (r: String)
    ensures
        r@.len() == 36,
{
    uuid::Uuid::new_v4().to_string()
}

/// Maps the provider's epoch sentinel to "never used".
pub fn normalize_access_key_last_used(reported: Option<i64>) -> (r: Option<i64>)
    ensures
        r == normalized_last_used(reported),
{
    match reported {
        Some(t) => if t == 0 {
            None
        } else {
            Some(t)
        },
        None => None,
    }
}

/// Whether a role path marks a role that the provider manages itself.
pub fn is_service_linked_role_path(path: &str) -> (r: bool)
    ensures
        r == is_service_linked_path(path@),
{
    let prefix = "/aws-service-role/";
    proof {
        reveal_strlit("/aws-service-role/");
    }
    assert(prefix@ =~= service_role_prefix());
    let n = prefix.unicode_len();
    if path.unicode_len() < n {
        return false;
    }
    let mut i: usize = 0;
    while i < n
        invariant
            n == prefix@.len(),
            prefix@ == service_role_prefix(),
            n <= path@.len(),
            i <= n,
            forall|j: int| 0 <= j < i ==> path@[j] == prefix@[j],
        decreases n - i,
    {
        if path.get_char(i) != prefix.get_char(i) {
            assert(path@.subrange(0, n as int)[i as int] != prefix@[i as int]);
            return false;
        }
        i = i + 1;
    }
    assert(path@.subrange(0, n as int) =~= prefix@);
    true
}

impl MetaData {
    /// A finding with a fresh identifier.
    fn new_finding(
        &self,
        resource: &String,
        resource_type: ResourceType,
        finding_type: FindingType,
        finding_details: Vec<FindingDetails>,
    ) -> (r: Finding)
        ensures
            r@ == (FindingView {
                resource: resource@,
                resource_type,
                resource_owner_account: self.owner_account@,
                finding_details: details_view(finding_details@),
                finding_type,
            }),
            r.id@.len() == 36,
    {
        Finding {
            resource: resource.clone(),
            resource_type,
            resource_owner_account: self.owner_account.clone(),
            id: random_finding_id(),
            finding_details,
            finding_type,
        }
    }

    /// Appends the finding for `details` to `findings`, where there is any.
    fn push_finding(
        &self,
        findings: &mut Vec<Finding>,
        resource: &String,
        resource_type: ResourceType,
        finding_type: FindingType,
        details: Vec<FindingDetails>,
    )
        ensures
            findings_view(final(findings)@) == findings_view(old(findings)@) + finding_for(
                *self,
                resource@,
                resource_type,
                finding_type,
                details_view(details@),
            ),
            forall|i: int|
                0 <= i < old(findings)@.len() ==> #[trigger] final(findings)@[i] == old(findings)@[i],
            forall|i: int|
                old(findings)@.len() <= i < final(findings)@.len() ==> (#[trigger] final(findings)@[i]).id@.len() == 36,
    {
        if details.len() > 0 {
            let f = self.new_finding(resource, resource_type, finding_type, details);
            findings.push(f);
            assert(findings_view(findings@) =~= findings_view(old(findings)@).push(f@));
        } else {
            assert(findings_view(findings@) =~= findings_view(old(findings)@));
        }
    }

    /// The entries of the access keys that are old enough and unused, in
    /// order.
    fn unused_access_key_details(&self, keys: &Vec<AccessKeyRecord>, analyzed_at: i64) -> (r: Vec<FindingDetails>)
        ensures
            details_view(r@) == key_details(keys@, analyzed_at, self.unused_access_age),
    {
        let age = self.unused_access_age;
        let mut out: Vec<FindingDetails> = Vec::new();
        let mut i: usize = 0;
        while i < keys.len()
            invariant
                age == self.unused_access_age,
                i <= keys@.len(),
                details_view(out@) =~= key_details(keys@.subrange(0, i as int), analyzed_at, age),
            decreases keys@.len() - i,
        {
            let k = &keys[i];
            let ghost prev = out@;
            assert(keys@.subrange(0, i + 1).drop_last() =~= keys@.subrange(0, i as int));
            if duration_gt_age(k.create_date, analyzed_at, age) {
                if let Some(id) = &k.access_key_id {
                    let last = normalize_access_key_last_used(k.last_used_date);
                    if duration_gt_age(last, analyzed_at, age) {
                        let d = FindingDetails::UnusedIamUserAccessKeyDetails(
                            UnusedIamUserAccessKeyDetails { last_accessed: last, access_key_id: id.clone() },
                        );
                        out.push(d);
                        assert(details_view(out@) =~= details_view(prev).push(d@));
                    }
                }
            }
            i = i + 1;
        }
        assert(keys@.subrange(0, keys@.len() as int) =~= keys@);
        out
    }

    /// The entries of the services that are unused, or that have an unused
    /// action, in order.
    fn unused_permission_details(&self, services: &Vec<ServiceRecord>, analyzed_at: i64) -> (r: Vec<FindingDetails>)
        ensures
            details_view(r@) == permission_details(services@, analyzed_at, self.unused_access_age),
    {
        let age = self.unused_access_age;
        let mut out: Vec<FindingDetails> = Vec::new();
        let mut i: usize = 0;
        while i < services.len()
            invariant
                age == self.unused_access_age,
                i <= services@.len(),
                details_view(out@) =~= permission_details(services@.subrange(0, i as int), analyzed_at, age),
            decreases services@.len() - i,
        {
            let ghost prev = out@;
            assert(services@.subrange(0, i + 1).drop_last() =~= services@.subrange(0, i as int));
            let details = UnusedPermissionDetails::from_record(&services[i]);
            if details.any_not_used(analyzed_at, age) {
                let d = FindingDetails::UnusedPermissionDetails(details);
                out.push(d);
                assert(details_view(out@) =~= details_view(prev).push(d@));
            }
            i = i + 1;
        }
        assert(services@.subrange(0, services@.len() as int) =~= services@);
        out
    }

    /// Whether a listed user is old enough to be analyzed.
    pub fn should_analyze_user(&self, user: &UserRecord, analyzed_at: i64) -> (r: bool)
        ensures
            r == is_unused(Some(user.create_date), analyzed_at, self.unused_access_age),
    {
        duration_gt_age(Some(user.create_date), analyzed_at, self.unused_access_age)
    }

    /// Whether a listed role is analyzed: not service-linked, and old enough.
    pub fn should_analyze_role(&self, path: &str, create_date: i64, analyzed_at: i64) -> (r: bool)
        ensures
            r == (!is_service_linked_path(path@) && is_unused(Some(create_date), analyzed_at, self.unused_access_age)),
    {
        !is_service_linked_role_path(path) && duration_gt_age(Some(create_date), analyzed_at, self.unused_access_age)
    }

    /// The findings for one user, from what the provider reported for it at
    /// `analyzed_at`.
    pub fn analyze_user(&self, user: &UserRecord, activity: &UserActivity, analyzed_at: i64) -> (r: Vec<Finding>)
        ensures
            findings_view(r@) == user_findings(*self, *user, *activity, analyzed_at),
            forall|i: int| 0 <= i < r@.len() ==> (#[trigger] r@[i]).id@.len() == 36,
    {
        let age = self.unused_access_age;
        let mut result: Vec<Finding> = Vec::new();
        if !self.should_analyze_user(user, analyzed_at) {
            assert(findings_view(result@) =~= Seq::empty());
            return result;
        }
        let mut password: Vec<FindingDetails> = Vec::new();
        let password_due = match activity.login_profile_create_date {
            Some(created) => duration_gt_age(Some(created), analyzed_at, age),
            None => false,
        };
        if password_due && duration_gt_age(user.password_last_used, analyzed_at, age) {
            let d = FindingDetails::UnusedIamUserPasswordDetails(
                UnusedIamUserPasswordDetails { last_accessed: user.password_last_used },
            );
            password.push(d);
            assert(details_view(password@) =~= seq![d@]);
        } else {
            assert(details_view(password@) =~= Seq::empty());
        }
        self.push_finding(&mut result, &user.arn, ResourceType::AwsIamUser, FindingType::UnusedIamUserPassword, password);
        let keys = self.unused_access_key_details(&activity.access_keys, analyzed_at);
        self.push_finding(&mut result, &user.arn, ResourceType::AwsIamUser, FindingType::UnusedIamUserAccessKey, keys);
        let services = self.unused_permission_details(&activity.services, analyzed_at);
        self.push_finding(&mut result, &user.arn, ResourceType::AwsIamUser, FindingType::UnusedPermission, services);
        assert(findings_view(result@) =~= user_findings(*self, *user, *activity, analyzed_at));
        result
    }

    /// The findings for one role, from its description and its services as
    /// reported at `analyzed_at`.
    pub fn analyze_role(&self, role: &RoleRecord, services: &Vec<ServiceRecord>, analyzed_at: i64) -> (r: Vec<Finding>)
        ensures
            findings_view(r@) == role_findings(*self, *role, services@, analyzed_at),
            forall|i: int| 0 <= i < r@.len() ==> (#[trigger] r@[i]).id@.len() == 36,
    {
        let age = self.unused_access_age;
        let mut result: Vec<Finding> = Vec::new();
        if !self.should_analyze_role(role.path.as_str(), role.create_date, analyzed_at) {
            assert(findings_view(result@) =~= Seq::empty());
            return result;
        }
        let mut role_details: Vec<FindingDetails> = Vec::new();
        if duration_gt_age(role.role_last_used, analyzed_at, age) {
            let d = FindingDetails::UnusedIamRoleDetails(UnusedIamRoleDetails { last_accessed: role.role_last_used });
            role_details.push(d);
            assert(details_view(role_details@) =~= seq![d@]);
        } else {
            assert(details_view(role_details@) =~= Seq::empty());
        }
        self.push_finding(&mut result, &role.arn, ResourceType::AwsIamRole, FindingType::UnusedIamRole, role_details);
        let permissions = self.unused_permission_details(services, analyzed_at);
        self.push_finding(&mut result, &role.arn, ResourceType::AwsIamRole, FindingType::UnusedPermission, permissions);
        assert(findings_view(result@) =~= role_findings(*self, *role, services@, analyzed_at));
        result
    }
}

} // verus!
