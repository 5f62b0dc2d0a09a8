use indexmap::IndexMap;
use sso_profiles::config_map::{Document, Section};
use sso_profiles::merge::AwsConfigMerger;
use sso_profiles::profile::SSOProfile;
use sso_profiles::text::keeps_name;

fn profile(id: &str, account: &str, role: &str) -> SSOProfile {
    SSOProfile {
        account_id: id.to_string(),
        account_name: account.to_string(),
        role_name: role.to_string(),
        start_url: "https://x.awsapps.com/start".to_string(),
        sso_region: "us-east-1".to_string(),
    }
}

fn section(pairs: &[(&str, &str)]) -> Section {
    let mut s: Section = IndexMap::new();
    for (k, v) in pairs {
        s.insert(k.to_string(), Some(v.to_string()));
    }
    s
}

fn names(d: &Document) -> Vec<String> {
    d.keys().cloned().collect()
}

fn value<'a>(d: &'a Document, sec: &str, key: &str) -> Option<&'a str> {
    d.get(sec)?.get(key)?.as_deref()
}

#[test]
fn merge_into_empty_document() {
    let merger = AwsConfigMerger { prefix: String::new(), clean: false };
    let mut doc: Document = IndexMap::new();
    let announced = merger.merge(&vec![profile("111", "Dev Team", "Admin")], &mut doc);
    assert_eq!(announced, vec!["Dev-Team-Admin".to_string()]);
    assert_eq!(names(&doc), vec!["profile Dev-Team-Admin".to_string()]);
    let keys: Vec<String> = doc["profile Dev-Team-Admin"].keys().cloned().collect();
    assert_eq!(keys, vec!["sso_start_url", "sso_region", "sso_account_id", "sso_role_name"]);
    assert_eq!(value(&doc, "profile Dev-Team-Admin", "sso_start_url"), Some("https://x.awsapps.com/start"));
    assert_eq!(value(&doc, "profile Dev-Team-Admin", "sso_region"), Some("us-east-1"));
    assert_eq!(value(&doc, "profile Dev-Team-Admin", "sso_account_id"), Some("111"));
    assert_eq!(value(&doc, "profile Dev-Team-Admin", "sso_role_name"), Some("Admin"));
}

#[test]
fn merge_applies_prefix() {
    let merger = AwsConfigMerger { prefix: "corp-".to_string(), clean: false };
    let mut doc: Document = IndexMap::new();
    let announced = merger.merge(&vec![profile("1", "My Big Account", "Read Only")], &mut doc);
    assert_eq!(announced, vec!["corp-My-Big-Account-Read Only".to_string()]);
    assert_eq!(names(&doc), vec!["profile corp-My-Big-Account-Read Only".to_string()]);
}

#[test]
fn merge_twice_keeps_one_section_per_profile() {
    let merger = AwsConfigMerger { prefix: String::new(), clean: false };
    let mut doc: Document = IndexMap::new();
    doc.insert("default".to_string(), section(&[("region", "eu-west-1")]));
    let ps = vec![profile("111", "Dev Team", "Admin"), profile("222", "Prod", "Viewer")];
    merger.merge(&ps, &mut doc);
    let once = doc.clone();
    merger.merge(&ps, &mut doc);
    assert_eq!(
        names(&doc),
        vec!["default".to_string(), "profile Dev-Team-Admin".to_string(), "profile Prod-Viewer".to_string()]
    );
    assert_eq!(doc, once);
}

#[test]
fn merge_second_content_wins() {
    let merger = AwsConfigMerger { prefix: String::new(), clean: false };
    let mut doc: Document = IndexMap::new();
    merger.merge(&vec![profile("111", "Dev Team", "Admin")], &mut doc);
    merger.merge(&vec![profile("999", "Dev Team", "Admin")], &mut doc);
    assert_eq!(doc.len(), 1);
    assert_eq!(value(&doc, "profile Dev-Team-Admin", "sso_account_id"), Some("999"));
}

#[test]
fn clean_is_scoped_to_prefix() {
    let merger = AwsConfigMerger { prefix: "a-".to_string(), clean: true };
    let mut doc: Document = IndexMap::new();
    doc.insert("profile a-x".to_string(), section(&[("k", "1")]));
    doc.insert("profile b-y".to_string(), section(&[("k", "2")]));
    doc.insert("other-section".to_string(), section(&[("k", "3")]));
    merger.merge(&vec![profile("5", "Acc", "Role")], &mut doc);
    assert_eq!(
        names(&doc),
        vec!["profile b-y".to_string(), "other-section".to_string(), "profile a-Acc-Role".to_string()]
    );
    assert_eq!(value(&doc, "profile b-y", "k"), Some("2"));
    assert_eq!(value(&doc, "other-section", "k"), Some("3"));
}

#[test]
fn clean_with_empty_prefix_removes_all_profiles() {
    let merger = AwsConfigMerger { prefix: String::new(), clean: true };
    let mut doc: Document = IndexMap::new();
    doc.insert("profile a-x".to_string(), section(&[("k", "1")]));
    doc.insert("default".to_string(), section(&[("k", "2")]));
    merger.merge(&vec![], &mut doc);
    assert_eq!(names(&doc), vec!["default".to_string()]);
}

#[test]
fn no_clean_keeps_stale_profiles() {
    let merger = AwsConfigMerger { prefix: "a-".to_string(), clean: false };
    let mut doc: Document = IndexMap::new();
    doc.insert("profile a-x".to_string(), section(&[("k", "1")]));
    merger.merge(&vec![], &mut doc);
    assert_eq!(names(&doc), vec!["profile a-x".to_string()]);
}

#[test]
fn overwrite_moves_section_to_end() {
    let merger = AwsConfigMerger { prefix: String::new(), clean: false };
    let mut doc: Document = IndexMap::new();
    doc.insert("profile Prod-Viewer".to_string(), section(&[("old", "1")]));
    doc.insert("first".to_string(), section(&[]));
    doc.insert("second".to_string(), section(&[]));
    merger.merge(&vec![profile("222", "Prod", "Viewer")], &mut doc);
    assert_eq!(
        names(&doc),
        vec!["first".to_string(), "second".to_string(), "profile Prod-Viewer".to_string()]
    );
    assert_eq!(value(&doc, "profile Prod-Viewer", "old"), None);
    assert_eq!(value(&doc, "profile Prod-Viewer", "sso_account_id"), Some("222"));
}

#[test]
fn colliding_profiles_in_one_run_last_wins() {
    let merger = AwsConfigMerger { prefix: String::new(), clean: false };
    let mut doc: Document = IndexMap::new();
    let ps = vec![profile("1", "A B", "R"), profile("2", "Other", "R"), profile("3", "A-B", "R")];
    let announced = merger.merge(&ps, &mut doc);
    assert_eq!(announced.len(), 3);
    assert_eq!(names(&doc), vec!["profile Other-R".to_string(), "profile A-B-R".to_string()]);
    assert_eq!(value(&doc, "profile A-B-R", "sso_account_id"), Some("3"));
}

#[test]
fn to_section_has_four_keys_in_order() {
    let s = profile("111", "Dev Team", "Admin").to_section();
    let pairs: Vec<(String, Option<String>)> = s.into_iter().collect();
    assert_eq!(
        pairs,
        vec![
            ("sso_start_url".to_string(), Some("https://x.awsapps.com/start".to_string())),
            ("sso_region".to_string(), Some("us-east-1".to_string())),
            ("sso_account_id".to_string(), Some("111".to_string())),
            ("sso_role_name".to_string(), Some("Admin".to_string())),
        ]
    );
}

#[test]
fn name_helpers() {
    let merger = AwsConfigMerger { prefix: "team-".to_string(), clean: false };
    assert_eq!(merger.prefix_name("Dev-Admin"), "team-Dev-Admin");
    assert_eq!(merger.section_name("team-Dev-Admin"), "profile team-Dev-Admin");
    assert_eq!(merger.section_name(""), "profile ");
}

#[test]
fn keeps_name_tests_the_prefix() {

    assert!(!keeps_name(&"profile a-x".to_string(), "profile a-"));
    assert!(keeps_name(&"profile b-y".to_string(), "profile a-"));
    assert!(keeps_name(&"other-section".to_string(), "profile a-"));
    assert!(keeps_name(&"profile a".to_string(), "profile a-"));
}
