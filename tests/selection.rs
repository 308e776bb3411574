use release2gitee::model::{check_cli, mask_token, Assert, Cli, ConfigError, Release};
use release2gitee::releases::{get_tag_names, get_tags, gitee_releases, github_releases};
use release2gitee::version::{filter_github_releases, is_newer, max_tag};
use version_compare::Version;

fn cli(skip_not_newer: bool) -> Cli {
    Cli {
        github_owner: "hepengju".to_string(),
        github_repo: "redis-me".to_string(),
        github_token: None,
        gitee_owner: "hepengju".to_string(),
        gitee_repo: "redis-me".to_string(),
        gitee_token: "SECRET-REDACTED".to_string(),
        github_latest_release_count: 5,
        gitee_retain_release_count: 100,
        ignore_lt_gitee_max_version: skip_not_newer,
        release_body_url_replace: true,
        latest_json_url_replace: true,
    }
}

fn release(id: u64, tag: &str, body: Option<&str>) -> Release {
    Release {
        id,
        tag_name: tag.to_string(),
        name: tag.to_string(),
        body: body.map(|b| b.to_string()),
        prerelease: false,
        target_commitish: "main".to_string(),
        assets: vec![Assert {
            name: "app.tar.gz".to_string(),
            size: Some(10),
            browser_download_url: "https://example.com/app.tar.gz".to_string(),
        }],
    }
}

fn tags(releases: &[Release]) -> Vec<String> {
    releases.iter().map(|r| r.tag_name.clone()).collect()
}

#[test]
fn test_version() {
    assert_eq!(Version::from("1.2.3"), Version::from("v1.2.3"));
    assert_eq!(Version::from("v0.9.1") > Version::from("v0.9.0"), true);
    assert_eq!(Version::from("v0.9.11") > Version::from("v0.9.9"), true);

    println!("{:?}", Version::from("v0.9.1"));
    println!("{:?}", Version::from("v11.9.1"));
    println!("{:?}", Version::from("v9.9.1"));
    println!("{:?}", Version::from("11.9.1"));
    println!("{:?}", Version::from("9.9.1"));
}

#[test]
fn version_filter_keeps_only_newer_tags() {
    let origin = vec![
        release(3, "v1.0.0", Some("c")),
        release(2, "v0.9.2", Some("b")),
        release(1, "v0.9.0", Some("a")),
    ];
    let mirror = vec![release(20, "v0.9.2", Some("b")), release(10, "v0.9.0", Some("a"))];
    let selected = filter_github_releases(&cli(true), &mirror, &origin);
    assert_eq!(tags(&selected), vec!["v1.0.0"]);
    let all = filter_github_releases(&cli(false), &mirror, &origin);
    assert_eq!(tags(&all), vec!["v1.0.0", "v0.9.2", "v0.9.0"]);
}

#[test]
fn version_filter_keeps_everything_against_an_empty_mirror() {
    let origin = vec![release(2, "v0.9.2", None), release(1, "v0.9.0", None)];
    let selected = filter_github_releases(&cli(true), &Vec::new(), &origin);
    assert_eq!(tags(&selected), vec!["v0.9.2", "v0.9.0"]);
}

#[test]
fn version_filter_keeps_tags_that_do_not_parse() {
    let origin = vec![release(2, "nightly", None), release(1, "v0.1.0", None)];
    let mirror = vec![release(5, "v1.0.0", None)];
    let selected = filter_github_releases(&cli(true), &mirror, &origin);
    assert_eq!(tags(&selected), vec!["nightly"]);
}

#[test]
fn largest_tag_is_found_by_version_order() {
    let mirror = vec![
        release(3, "v0.9.9", None),
        release(2, "v0.9.11", None),
        release(1, "v0.9.2", None),
    ];
    assert_eq!(max_tag(&mirror), "v0.9.11");
    assert!(is_newer(&"v0.9.2".to_string(), &"v1.0.0".to_string()));
    assert!(!is_newer(&"v0.9.2".to_string(), &"0.9.2".to_string()));
    assert!(!is_newer(&"v0.9.2".to_string(), &"v0.9.0".to_string()));
}

#[test]
fn origin_list_is_newest_first_with_bodies_filled() {
    let fetched = vec![
        release(7, "v1.0.0", Some("")),
        release(9, "v2.0.0", None),
        release(8, "v1.5.0", Some("notes")),
    ];
    let r = github_releases(fetched);
    assert_eq!(tags(&r), vec!["v2.0.0", "v1.5.0", "v1.0.0"]);
    assert_eq!(r[0].body.as_deref(), Some("v2.0.0"));
    assert_eq!(r[1].body.as_deref(), Some("notes"));
    assert_eq!(r[2].body.as_deref(), Some("v1.0.0"));
}

#[test]
fn mirror_list_is_newest_first_and_untouched() {
    let fetched = vec![release(1, "a", None), release(3, "c", None), release(2, "b", Some(""))];
    let r = gitee_releases(fetched);
    assert_eq!(r.iter().map(|x| x.id).collect::<Vec<_>>(), vec![3, 2, 1]);
    assert_eq!(r[0].body, None);
    assert_eq!(r[1].body.as_deref(), Some(""));
}

#[test]
fn tag_lists_for_logs() {
    let list = vec![release(2, "v2", None), release(1, "v1", None)];
    assert_eq!(get_tags(&list), vec!["v2".to_string(), "v1".to_string()]);
    assert_eq!(get_tag_names(&list), "v2, v1");
    assert_eq!(get_tag_names(&Vec::new()), "");
}

#[test]
fn config_counts_are_checked() {
    let mut c = cli(true);
    assert_eq!(check_cli(&c), Ok(()));
    c.github_latest_release_count = 0;
    assert_eq!(check_cli(&c), Err(ConfigError::FetchCountZero));
    c.github_latest_release_count = 101;
    assert_eq!(check_cli(&c), Err(ConfigError::RetainBelowFetch));
    c.github_latest_release_count = 100;
    assert_eq!(check_cli(&c), Ok(()));
}

#[test]
fn tokens_are_masked() {
    assert_eq!(mask_token(None), "None");
    assert_eq!(mask_token(Some(String::new())), "");
    assert_eq!(mask_token(Some("abc".to_string())), "***");
    assert_eq!(mask_token(Some("abcdefgh".to_string())), "********");
    assert_eq!(mask_token(Some("abcdefghijk".to_string())), "abcdefgh***");
}

#[test]
fn tokens_are_masked_by_bytes() {
    // Ten bytes, the eighth ending a character: eight bytes stay readable.
    assert_eq!(mask_token(Some("ééééé".to_string())), "éééé**");
    // Nine bytes whose eighth falls inside a character: all stars.
    assert_eq!(mask_token(Some("aéééé".to_string())), "*********");
}

#[test]
fn leading_v_is_ignored_when_comparing_tags() {
    let origin = vec![release(2, "v10.0.0", None), release(1, "v9.9.8", None)];
    let mirror = vec![release(5, "v9.9.9", None)];
    let selected = filter_github_releases(&cli(true), &mirror, &origin);
    assert_eq!(tags(&selected), vec!["v10.0.0"]);
    let mixed = vec![release(3, "9.9.9", None), release(2, "v10.0.0", None), release(1, "v9.0.0", None)];
    assert_eq!(max_tag(&mixed), "v10.0.0");
    assert!(!is_newer(&"v10.0.0".to_string(), &"10.0.0".to_string()));
}
