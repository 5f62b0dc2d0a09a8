use sso_profiles::discovery::{account_of, AccountListing, DiscoveryError, RoleListing, SSOProfilesLister};
use sso_profiles::merge::AwsConfigMerger;
use sso_profiles::config_map::Document;

fn some(s: &str) -> Option<String> {
    Some(s.to_string())
}

fn listed(id: &str, name: &str, roles: &[&str]) -> AccountListing {
    AccountListing::Listed {
        account_id: some(id),
        account_name: some(name),
        roles: RoleListing::Listed(roles.iter().map(|r| some(r)).collect()),
    }
}

#[test]
fn lister_keeps_url_and_region() {
    let lister = SSOProfilesLister::new("https://x.awsapps.com/start", "eu-central-1");
    assert_eq!(lister.start_url(), "https://x.awsapps.com/start");
    assert_eq!(lister.sso_region(), "eu-central-1");
}

#[test]
fn end_to_end_two_accounts() {
    let lister = SSOProfilesLister::new("https://x.awsapps.com/start", "us-east-1");
    let ps = lister
        .discover(&vec![listed("111", "Dev Team", &["Admin"]), listed("222", "Prod", &["Viewer"])])
        .unwrap();
    assert_eq!(ps.len(), 2);
    assert_eq!(ps[0].account_id, "111");
    assert_eq!(ps[0].account_name, "Dev Team");
    assert_eq!(ps[0].role_name, "Admin");
    assert_eq!(ps[0].start_url, "https://x.awsapps.com/start");
    assert_eq!(ps[0].sso_region, "us-east-1");
    assert_eq!(ps[1].account_id, "222");
    assert_eq!(ps[1].account_name, "Prod");
    assert_eq!(ps[1].role_name, "Viewer");

    let merger = AwsConfigMerger { prefix: String::new(), clean: false };
    let mut doc: Document = Document::new();
    merger.merge(&ps, &mut doc);
    let names: Vec<String> = doc.keys().cloned().collect();
    assert_eq!(names, vec!["profile Dev-Team-Admin".to_string(), "profile Prod-Viewer".to_string()]);
    let prod = &doc["profile Prod-Viewer"];
    assert_eq!(prod["sso_start_url"].as_deref(), Some("https://x.awsapps.com/start"));
    assert_eq!(prod["sso_region"].as_deref(), Some("us-east-1"));
    assert_eq!(prod["sso_account_id"].as_deref(), Some("222"));
    assert_eq!(prod["sso_role_name"].as_deref(), Some("Viewer"));
}

#[test]
fn roles_follow_their_account_in_order() {
    let lister = SSOProfilesLister::new("u", "r");
    let ps = lister
        .discover(&vec![listed("1", "A", &["x", "y"]), listed("2", "B", &[]), listed("3", "C", &["z"])])
        .unwrap();
    let got: Vec<(String, String)> = ps.iter().map(|p| (p.account_id.clone(), p.role_name.clone())).collect();
    assert_eq!(
        got,
        vec![
            ("1".to_string(), "x".to_string()),
            ("1".to_string(), "y".to_string()),
            ("3".to_string(), "z".to_string())
        ]
    );
}

#[test]
fn no_accounts_no_profiles() {
    let lister = SSOProfilesLister::new("u", "r");
    assert_eq!(lister.discover(&vec![]).unwrap().len(), 0);
}

#[test]
fn role_listing_error_of_second_account_fails_all() {
    let lister = SSOProfilesLister::new("u", "r");
    let ls = vec![
        listed("1", "A", &["x"]),
        AccountListing::Listed {
            account_id: some("2"),
            account_name: some("B"),
            roles: RoleListing::Failed("throttled".to_string()),
        },
        listed("3", "C", &["z"]),
    ];
    assert_eq!(lister.discover(&ls).unwrap_err(), DiscoveryError::Fetch("throttled".to_string()));
}

#[test]
fn account_listing_error_fails() {
    let lister = SSOProfilesLister::new("u", "r");
    let ls = vec![listed("1", "A", &["x"]), AccountListing::Failed("offline".to_string())];
    assert_eq!(lister.discover(&ls).unwrap_err(), DiscoveryError::Fetch("offline".to_string()));
}

#[test]
fn first_error_wins() {
    let lister = SSOProfilesLister::new("u", "r");
    let ls = vec![
        AccountListing::Listed { account_id: None, account_name: some("A"), roles: RoleListing::Listed(vec![]) },
        AccountListing::Failed("later".to_string()),
    ];
    assert_eq!(lister.discover(&ls).unwrap_err(), DiscoveryError::MissingAccountId);
}

#[test]
fn missing_account_name_fails() {
    let lister = SSOProfilesLister::new("u", "r");
    let ls = vec![AccountListing::Listed {
        account_id: some("1"),
        account_name: None,
        roles: RoleListing::Listed(vec![some("x")]),
    }];
    assert_eq!(lister.discover(&ls).unwrap_err(), DiscoveryError::MissingAccountName);
}

#[test]
fn missing_or_empty_role_name_fails() {
    let lister = SSOProfilesLister::new("u", "r");
    let ls = vec![AccountListing::Listed {
        account_id: some("1"),
        account_name: some("A"),
        roles: RoleListing::Listed(vec![some("x"), None]),
    }];
    assert_eq!(lister.discover(&ls).unwrap_err(), DiscoveryError::MissingRoleName);
    let ls = vec![listed("1", "A", &["x", ""])];
    assert_eq!(lister.discover(&ls).unwrap_err(), DiscoveryError::MissingRoleName);
}

#[test]
fn account_checks() {
    let a = account_of(&some("1"), &some("Dev Team")).unwrap();
    assert_eq!(a.account_id, "1");
    assert_eq!(a.account_name, "Dev Team");
    assert_eq!(account_of(&some(""), &some("A")).unwrap_err(), DiscoveryError::MissingAccountId);
    assert_eq!(account_of(&None, &None).unwrap_err(), DiscoveryError::MissingAccountId);
    assert_eq!(account_of(&some("1"), &some("")).unwrap_err(), DiscoveryError::MissingAccountName);
}
