use tempurview::config::{ConfigFile, InsightsSection, ProfileConfig};

fn empty_file() -> ConfigFile {
    ConfigFile { default_profile: None, profiles: Vec::new(), insights: InsightsSection { allowlist: Vec::new(), concurrency: None } }
}

fn profile(address: &str, key: Option<&str>) -> ProfileConfig {
    ProfileConfig { address: address.to_string(), namespace: "ns".to_string(), api_key: key.map(|k| k.to_string()) }
}

#[test]
fn first_profile_becomes_default() {
    let mut f = empty_file();
    assert!(f.add_profile("local".to_string(), profile("localhost:7233", None)));
    assert_eq!(f.default_profile, Some("local".to_string()));
    assert!(!f.add_profile("cloud".to_string(), profile("cloud:7233", Some("k"))));
    assert_eq!(f.default_profile, Some("local".to_string()));
    assert_eq!(f.profiles.len(), 2);
}

#[test]
fn adding_an_existing_name_replaces_it() {
    let mut f = empty_file();
    f.add_profile("a".to_string(), profile("one", None));
    f.add_profile("a".to_string(), profile("two", None));
    assert_eq!(f.profiles.len(), 1);
    assert_eq!(f.profiles[0].1.address, "two");
}

#[test]
fn removing_clears_default_and_reports_missing() {
    let mut f = empty_file();
    f.add_profile("a".to_string(), profile("one", None));
    f.add_profile("b".to_string(), profile("two", None));
    assert!(!f.remove_profile(&"zzz".to_string()));
    assert_eq!(f.profiles.len(), 2);
    assert!(f.remove_profile(&"a".to_string()));
    assert_eq!(f.default_profile, None);
    assert_eq!(f.profiles.len(), 1);
    assert_eq!(f.profiles[0].0, "b");
}

#[test]
fn set_default_needs_an_existing_profile() {
    let mut f = empty_file();
    f.add_profile("a".to_string(), profile("one", None));
    f.add_profile("b".to_string(), profile("two", None));
    assert!(f.set_default_profile(&"b".to_string()));
    assert_eq!(f.default_profile, Some("b".to_string()));
    assert!(!f.set_default_profile(&"c".to_string()));
    assert_eq!(f.default_profile, Some("b".to_string()));
}

#[test]
fn profile_rows_are_sorted_by_name() {
    let mut f = empty_file();
    f.add_profile("zeta".to_string(), profile("z", Some("k")));
    f.add_profile("alpha".to_string(), profile("a", None));
    f.add_profile("mid".to_string(), profile("m", None));
    let rows = f.profile_rows();
    let names: Vec<&str> = rows.iter().map(|r| r.name.as_str()).collect();
    assert_eq!(names, vec!["alpha", "mid", "zeta"]);
    assert!(rows[2].has_api_key);
    assert!(rows[2].is_default);
    assert!(!rows[0].is_default);
}
