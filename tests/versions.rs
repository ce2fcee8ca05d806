use faugus_launcher::versions::{
    filter_releases, parse_ge_version, proton_configs, sort_versions_descending, version_sort_key,
    ProtonAsset, ProtonConfig, ProtonRelease, VersionPart,
};

fn release(tag: &str) -> ProtonRelease {
    ProtonRelease {
        tag_name: tag.to_string(),
        name: tag.to_string(),
        html_url: format!("https://example.invalid/{}", tag),
        assets: vec![ProtonAsset {
            name: format!("{}.tar.gz", tag),
            browser_download_url: format!("https://example.invalid/{}.tar.gz", tag),
            size: 1,
        }],
    }
}

#[test]
fn versions_sort_numerically_descending() {
    let v: Vec<String> = ["GE-Proton8-1", "GE-Proton10-2", "GE-Proton9-15", "GE-Proton9-2"]
        .iter()
        .map(|s| s.to_string())
        .collect();
    assert_eq!(
        sort_versions_descending(v),
        vec!["GE-Proton10-2", "GE-Proton9-15", "GE-Proton9-2", "GE-Proton8-1"]
    );
}

#[test]
fn equal_keys_keep_their_order() {
    let v: Vec<String> = ["a1", "a01", "b", "a001"].iter().map(|s| s.to_string()).collect();
    assert_eq!(sort_versions_descending(v), vec!["b", "a1", "a01", "a001"]);
    assert!(sort_versions_descending(Vec::new()).is_empty());
}

#[test]
fn sort_key_splits_digit_runs() {
    let key = version_sort_key("EM-10.0-3");
    assert_eq!(key.len(), 6);
    assert!(matches!(&key[0], VersionPart::Text(s) if s == "EM-"));
    assert!(matches!(key[1], VersionPart::Number(10)));
    assert!(matches!(&key[2], VersionPart::Text(s) if s == "."));
    assert!(matches!(key[3], VersionPart::Number(0)));
    assert!(matches!(&key[4], VersionPart::Text(s) if s == "-"));
    assert!(matches!(key[5], VersionPart::Number(3)));
    let huge = version_sort_key("v99999999999999999999999");
    assert_eq!(huge.len(), 1);
}

#[test]
fn ge_versions_parse() {
    assert_eq!(parse_ge_version("8-25"), Some((8, 25)));
    assert_eq!(parse_ge_version("+8-1"), Some((8, 1)));
    assert_eq!(parse_ge_version("8"), None);
    assert_eq!(parse_ge_version("8-1-2"), None);
    assert_eq!(parse_ge_version("8-x"), None);
    assert_eq!(parse_ge_version("4294967296-1"), None);
}

#[test]
fn releases_are_filtered_by_family() {
    let releases = vec![
        release("GE-Proton7-55"),
        release("GE-Proton8-1"),
        release("GE-Proton9-20"),
        release("EM-10.0-3"),
        release("GE-Proton8-0"),
    ];
    let configs = proton_configs();
    let ge: Vec<String> = filter_releases(&releases, &configs[0]).into_iter().map(|r| r.tag_name).collect();
    assert_eq!(ge, vec!["GE-Proton8-1", "GE-Proton9-20"]);
    let em: Vec<String> = filter_releases(&releases, &configs[1]).into_iter().map(|r| r.tag_name).collect();
    assert_eq!(em, vec!["EM-10.0-3"]);
    let other = ProtonConfig {
        label: "Other".to_string(),
        dir: String::new(),
        api: String::new(),
        archive_ext: String::new(),
    };
    assert_eq!(filter_releases(&releases, &other).len(), 5);
}
