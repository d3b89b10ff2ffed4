use aws_unused_analyzer::analyzer::{
    is_service_linked_role_path, next_page, normalize_access_key_last_used, AccessKeyRecord, PageStep,
    RoleRecord, UserActivity, UserRecord,
};
use aws_unused_analyzer::args::{Args, CredentialError, DEFAULT_UNUSED_ACCESS_AGE};
use aws_unused_analyzer::finding::{
    ServiceRecord, TrackedActionRecord, UnusedAction, UnusedPermissionDetails, SECONDS_PER_DAY,
};
use aws_unused_analyzer::{Finding, FindingDetails, FindingType, MetaData, ResourceType};

const NOW: i64 = 1_700_000_000;

fn days_ago(days: i64) -> i64 {
    NOW - days * SECONDS_PER_DAY
}

fn meta() -> MetaData {
    MetaData { unused_access_age: 90, owner_account: "123456789012".to_string() }
}

fn user(created_days_ago: i64, password_last_used: Option<i64>) -> UserRecord {
    UserRecord {
        user_name: "alice".to_string(),
        arn: "arn:aws:iam::123456789012:user/alice".to_string(),
        create_date: days_ago(created_days_ago),
        password_last_used,
    }
}

fn key(id: &str, created: i64, last_used: Option<i64>) -> AccessKeyRecord {
    AccessKeyRecord { access_key_id: Some(id.to_string()), create_date: Some(created), last_used_date: last_used }
}

fn service(name: &str, last: Option<i64>, actions: Option<Vec<TrackedActionRecord>>) -> ServiceRecord {
    ServiceRecord {
        service_namespace: name.to_string(),
        last_authenticated: last,
        tracked_actions_last_accessed: actions,
    }
}

fn role(path: &str, created_days_ago: i64, last_used: Option<i64>) -> RoleRecord {
    RoleRecord {
        role_name: "deployer".to_string(),
        arn: "arn:aws:iam::123456789012:role/deployer".to_string(),
        path: path.to_string(),
        create_date: days_ago(created_days_ago),
        role_last_used: last_used,
    }
}

fn check_common(f: &Finding, arn: &str, rt: ResourceType) {
    assert_eq!(f.resource, arn);
    assert_eq!(f.resource_type, rt);
    assert_eq!(f.resource_owner_account, "123456789012");
    assert_eq!(f.id.len(), 36);
}

#[test]
fn user_with_one_stale_key() {
    let u = user(200, None);
    let activity = UserActivity {
        login_profile_create_date: None,
        access_keys: vec![key("AKIAOLD", days_ago(150), Some(days_ago(100)))],
        services: vec![],
    };
    let findings = meta().analyze_user(&u, &activity, NOW);
    assert_eq!(findings.len(), 1);
    let f = &findings[0];
    check_common(f, &u.arn, ResourceType::AwsIamUser);
    assert_eq!(f.finding_type, FindingType::UnusedIamUserAccessKey);
    assert_eq!(f.finding_details.len(), 1);
    match &f.finding_details[0] {
        FindingDetails::UnusedIamUserAccessKeyDetails(d) => {
            assert_eq!(d.access_key_id, "AKIAOLD");
            assert_eq!(d.last_accessed, Some(days_ago(100)));
        }
        other => panic!("unexpected detail {:?}", other),
    }
}

#[test]
fn role_never_assumed() {
    let r = role("/", 200, None);
    let findings = meta().analyze_role(&r, &vec![], NOW);
    assert_eq!(findings.len(), 1);
    let f = &findings[0];
    check_common(f, &r.arn, ResourceType::AwsIamRole);
    assert_eq!(f.finding_type, FindingType::UnusedIamRole);
    assert_eq!(f.finding_details.len(), 1);
    match &f.finding_details[0] {
        FindingDetails::UnusedIamRoleDetails(d) => assert_eq!(d.last_accessed, None),
        other => panic!("unexpected detail {:?}", other),
    }
}

#[test]
fn young_user_has_no_findings() {
    let u = user(30, None);
    let activity = UserActivity {
        login_profile_create_date: Some(days_ago(30)),
        access_keys: vec![key("AKIA", days_ago(400), None)],
        services: vec![service("s3", None, None)],
    };
    assert!(!meta().should_analyze_user(&u, NOW));
    assert!(meta().analyze_user(&u, &activity, NOW).is_empty());
}

#[test]
fn young_role_has_no_findings() {
    let r = role("/", 90, None);
    assert!(!meta().should_analyze_role(&r.path, r.create_date, NOW));
    assert!(meta().analyze_role(&r, &vec![service("s3", None, None)], NOW).is_empty());
}

#[test]
fn service_linked_role_has_no_findings() {
    let r = role("/aws-service-role/elasticloadbalancing.amazonaws.com/", 400, None);
    assert!(!meta().should_analyze_role(&r.path, r.create_date, NOW));
    assert!(meta().analyze_role(&r, &vec![service("s3", None, None)], NOW).is_empty());
    let other = role("/service-role/", 400, None);
    assert!(meta().should_analyze_role(&other.path, other.create_date, NOW));
}

#[test]
fn service_linked_path_prefix() {
    assert!(is_service_linked_role_path("/aws-service-role/"));
    assert!(is_service_linked_role_path("/aws-service-role/x/"));
    assert!(!is_service_linked_role_path("/aws-service-role"));
    assert!(!is_service_linked_role_path("/"));
    assert!(!is_service_linked_role_path(""));
    assert!(!is_service_linked_role_path("/x/aws-service-role/"));
    assert!(!is_service_linked_role_path("/aws-service-rolé/"));
}

#[test]
fn stale_password_is_reported() {
    let u = user(200, Some(days_ago(120)));
    let activity = UserActivity { login_profile_create_date: Some(days_ago(180)), access_keys: vec![], services: vec![] };
    let findings = meta().analyze_user(&u, &activity, NOW);
    assert_eq!(findings.len(), 1);
    assert_eq!(findings[0].finding_type, FindingType::UnusedIamUserPassword);
    match &findings[0].finding_details[..] {
        [FindingDetails::UnusedIamUserPasswordDetails(d)] => assert_eq!(d.last_accessed, Some(days_ago(120))),
        other => panic!("unexpected details {:?}", other),
    }
}

#[test]
fn recent_password_or_young_profile_is_not_reported() {
    let u = user(200, Some(days_ago(10)));
    let activity = UserActivity { login_profile_create_date: Some(days_ago(180)), access_keys: vec![], services: vec![] };
    assert!(meta().analyze_user(&u, &activity, NOW).is_empty());
    let u = user(200, None);
    let activity = UserActivity { login_profile_create_date: Some(days_ago(20)), access_keys: vec![], services: vec![] };
    assert!(meta().analyze_user(&u, &activity, NOW).is_empty());
}

#[test]
fn epoch_last_use_means_never_used() {
    assert_eq!(normalize_access_key_last_used(Some(0)), None);
    assert_eq!(normalize_access_key_last_used(None), None);
    assert_eq!(normalize_access_key_last_used(Some(days_ago(1))), Some(days_ago(1)));
    let u = user(200, None);
    let activity = UserActivity {
        login_profile_create_date: None,
        access_keys: vec![
            key("AKIANEVER", days_ago(150), Some(0)),
            key("AKIAFRESH", days_ago(150), Some(days_ago(3))),
            key("AKIANEW", days_ago(5), None),
        ],
        services: vec![],
    };
    let findings = meta().analyze_user(&u, &activity, NOW);
    assert_eq!(findings.len(), 1);
    match &findings[0].finding_details[..] {
        [FindingDetails::UnusedIamUserAccessKeyDetails(d)] => {
            assert_eq!(d.access_key_id, "AKIANEVER");
            assert_eq!(d.last_accessed, None);
        }
        other => panic!("unexpected details {:?}", other),
    }
}

#[test]
fn several_stale_keys_share_one_finding() {
    let u = user(200, None);
    let activity = UserActivity {
        login_profile_create_date: None,
        access_keys: vec![
            key("K1", days_ago(150), None),
            AccessKeyRecord { access_key_id: None, create_date: Some(days_ago(150)), last_used_date: None },
            AccessKeyRecord { access_key_id: Some("K2".to_string()), create_date: None, last_used_date: Some(days_ago(95)) },
        ],
        services: vec![],
    };
    let findings = meta().analyze_user(&u, &activity, NOW);
    assert_eq!(findings.len(), 1);
    let ids: Vec<&str> = findings[0]
        .finding_details
        .iter()
        .map(|d| match d {
            FindingDetails::UnusedIamUserAccessKeyDetails(d) => d.access_key_id.as_str(),
            other => panic!("unexpected detail {:?}", other),
        })
        .collect();
    assert_eq!(ids, vec!["K1", "K2"]);
}

fn action(name: Option<&str>, last: Option<i64>) -> TrackedActionRecord {
    TrackedActionRecord { action_name: name.map(|n| n.to_string()), last_accessed_time: last }
}

#[test]
fn one_permission_entry_per_unused_service() {
    let services = vec![
        service("s3", Some(days_ago(200)), None),
        service("ec2", Some(days_ago(1)), Some(vec![action(Some("RunInstances"), Some(days_ago(2)))])),
        service("iam", Some(days_ago(1)), Some(vec![action(Some("GetRole"), Some(days_ago(1))), action(Some("ListRoles"), None)])),
        service("sqs", Some(days_ago(90)), Some(vec![])),
    ];
    let r = role("/", 200, Some(days_ago(5)));
    let findings = meta().analyze_role(&r, &services, NOW);
    assert_eq!(findings.len(), 1);
    let f = &findings[0];
    check_common(f, &r.arn, ResourceType::AwsIamRole);
    assert_eq!(f.finding_type, FindingType::UnusedPermission);
    let names: Vec<&str> = f
        .finding_details
        .iter()
        .map(|d| match d {
            FindingDetails::UnusedPermissionDetails(p) => p.service_namespace.as_str(),
            other => panic!("unexpected detail {:?}", other),
        })
        .collect();
    assert_eq!(names, vec!["s3", "iam"]);
    match &f.finding_details[1] {
        FindingDetails::UnusedPermissionDetails(p) => {
            assert_eq!(p.last_accessed, Some(days_ago(1)));
            let actions = p.actions.as_ref().unwrap();
            assert_eq!(actions.len(), 2);
            assert_eq!(actions[0].action, "GetRole");
            assert_eq!(actions[1].action, "ListRoles");
            assert_eq!(actions[1].last_accessed, None);
        }
        other => panic!("unexpected detail {:?}", other),
    }
}

#[test]
fn user_findings_come_in_order() {
    let u = user(365, None);
    let activity = UserActivity {
        login_profile_create_date: Some(days_ago(300)),
        access_keys: vec![key("K", days_ago(300), Some(days_ago(91)))],
        services: vec![service("s3", None, None)],
    };
    let findings = meta().analyze_user(&u, &activity, NOW);
    let kinds: Vec<FindingType> = findings.iter().map(|f| f.finding_type).collect();
    assert_eq!(
        kinds,
        vec![FindingType::UnusedIamUserPassword, FindingType::UnusedIamUserAccessKey, FindingType::UnusedPermission]
    );
    assert_ne!(findings[0].id, findings[1].id);
    assert_ne!(findings[1].id, findings[2].id);
}

#[test]
fn any_not_used_looks_at_actions() {
    let used = UnusedPermissionDetails::from_record(&service(
        "ec2",
        Some(days_ago(3)),
        Some(vec![action(Some("A"), Some(days_ago(3)))]),
    ));
    assert!(!used.any_not_used(NOW, 90));
    let stale_action = UnusedPermissionDetails::from_record(&service(
        "ec2",
        Some(days_ago(3)),
        Some(vec![action(Some("A"), Some(days_ago(3))), action(Some("B"), Some(days_ago(91)))]),
    ));
    assert!(stale_action.any_not_used(NOW, 90));
    let stale_service = UnusedPermissionDetails::from_record(&service("ec2", None, None));
    assert!(stale_service.any_not_used(NOW, 90));
}

#[test]
fn conversion_keeps_fields() {
    let a = UnusedAction::from_record(&action(None, Some(7)));
    assert_eq!(a.action, "");
    assert_eq!(a.last_accessed, Some(7));
    let p = UnusedPermissionDetails::from_record(&service("kms", Some(9), None));
    assert_eq!(p.service_namespace, "kms");
    assert_eq!(p.last_accessed, Some(9));
    assert!(p.actions.is_none());
}

#[test]
fn paging_follows_marker() {
    match next_page(true, Some("m2".to_string())) {
        PageStep::Fetch(m) => assert_eq!(m.as_deref(), Some("m2")),
        PageStep::Done => panic!("expected another page"),
    }
    assert!(matches!(next_page(false, Some("m3".to_string())), PageStep::Done));
}

#[test]
fn credentials_need_both_keys() {
    let mut args = Args { region: None, access_key: None, secret_key: Some("s".to_string()), unused_access_age: DEFAULT_UNUSED_ACCESS_AGE };
    assert_eq!(args.cred().unwrap_err(), CredentialError::AccessKeyNotFound);
    args.access_key = Some("a".to_string());
    assert_eq!(args.cred().unwrap(), ("a".to_string(), "s".to_string()));
    args.secret_key = None;
    assert_eq!(args.cred().unwrap_err(), CredentialError::SecretKeyNotFound);
    assert_eq!(DEFAULT_UNUSED_ACCESS_AGE, 90);
}

#[test]
fn far_past_instants_follow_the_same_rule() {
    let now = -377_705_116_800 + 1;
    let created = now - 200 * SECONDS_PER_DAY;
    let u = UserRecord { create_date: created, ..user(0, None) };
    let activity = UserActivity {
        login_profile_create_date: None,
        access_keys: vec![key("AKIAOLD", now - 150 * SECONDS_PER_DAY, Some(now - 100 * SECONDS_PER_DAY))],
        services: vec![],
    };
    let findings = meta().analyze_user(&u, &activity, now);
    assert_eq!(findings.len(), 1);
    assert_eq!(findings[0].finding_type, FindingType::UnusedIamUserAccessKey);
    let r = RoleRecord { create_date: created, ..role("/", 0, None) };
    let findings = meta().analyze_role(&r, &vec![], now);
    assert_eq!(findings.len(), 1);
    assert_eq!(findings[0].finding_type, FindingType::UnusedIamRole);
}
