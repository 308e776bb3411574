use release2gitee::model::{Assert, Cli, Release};
use release2gitee::sync::{Action, Event, SyncRun};
use release2gitee::model::ConfigError;

fn config(retain: usize) -> Cli {
    Cli {
        github_owner: "o".to_string(),
        github_repo: "r".to_string(),
        github_token: None,
        gitee_owner: "m".to_string(),
        gitee_repo: "r".to_string(),
        gitee_token: "SECRET-REDACTED".to_string(),
        github_latest_release_count: 5,
        gitee_retain_release_count: retain,
        ignore_lt_gitee_max_version: true,
        release_body_url_replace: true,
        latest_json_url_replace: true,
    }
}

fn asset(name: &str, size: u64) -> Assert {
    Assert {
        name: name.to_string(),
        size: Some(size),
        browser_download_url: format!("https://o/{}", name),
    }
}

fn release(id: u64, tag: &str, body: &str, assets: Vec<Assert>) -> Release {
    Release {
        id,
        tag_name: tag.to_string(),
        name: tag.to_string(),
        body: Some(body.to_string()),
        prerelease: false,
        target_commitish: "main".to_string(),
        assets,
    }
}

fn copy_all(list: &[Release]) -> Vec<Release> {
    list.iter().map(|r| r.copied()).collect()
}

/// An in-memory mirror registry and staging area.
#[derive(Default)]
struct World {
    mirror: Vec<Release>,
    next_id: u64,
    staged: Vec<(String, String, u64)>,
    creates: Vec<String>,
    updates: Vec<String>,
    downloads: Vec<String>,
    uploads: Vec<String>,
    deletes: Vec<u64>,
    fail_download: Option<String>,
    log: Vec<String>,
}

impl World {
    fn staged_size(&self, tag: &str, name: &str) -> Option<u64> {
        self.staged.iter().find(|s| s.0 == tag && s.1 == name).map(|s| s.2)
    }

    fn run(&mut self, cli: Cli, origin: &[Release]) -> SyncRun {
        let (mut run, mut action) = SyncRun::begin(cli).unwrap();
        loop {
            let event = match action {
                Action::FetchOrigin => Event::Fetched(copy_all(origin)),
                Action::FetchMirror => Event::Fetched(copy_all(&self.mirror)),
                Action::Create(p) => {
                    self.next_id += 1;
                    self.creates.push(p.tag_name.clone());
                    let mut stored = p.copied();
                    stored.id = 1000 + self.next_id;
                    stored.assets = Vec::new();
                    self.mirror.push(stored.copied());
                    Event::Created(stored)
                }
                Action::Update(p) => {
                    self.updates.push(p.tag_name.clone());
                    let slot = self.mirror.iter_mut().find(|m| m.id == p.id).unwrap();
                    *slot = p;
                    Event::Updated
                }
                Action::CheckStaged { tag, asset } => Event::Staged(self.staged_size(&tag, &asset.name)),
                Action::Download { tag, asset, .. } => {
                    if self.fail_download.as_deref() == Some(asset.name.as_str()) {
                        Event::Transferred(false)
                    } else {
                        self.downloads.push(asset.name.clone());
                        self.log.push(format!("download {}", asset.name));
                        self.staged.retain(|s| !(s.0 == tag && s.1 == asset.name));
                        self.staged.push((tag, asset.name.clone(), asset.size.unwrap_or(0)));
                        Event::Transferred(true)
                    }
                }
                Action::Upload { release_id, asset_name, .. } => {
                    self.uploads.push(asset_name.clone());
                    self.log.push(format!("upload {} to {}", asset_name, release_id));
                    let target = self.mirror.iter_mut().find(|m| m.id == release_id).unwrap();
                    target.assets.push(asset(&asset_name, 1));
                    Event::Transferred(true)
                }
                Action::Delete(id) => {
                    self.deletes.push(id);
                    self.mirror.retain(|m| m.id != id);
                    Event::Deleted
                }
                Action::Finished => return run,
            };
            assert!(run.awaits(&event));
            action = run.advance(event);
        }
    }
}

fn origin_releases() -> Vec<Release> {
    vec![
        release(3, "v1.0.0", "", vec![asset("a.zip", 10), asset("latest.json", 5)]),
        release(1, "v0.9.0", "first", vec![asset("a.zip", 8)]),
        release(2, "v0.9.2", "second", vec![]),
    ]
}

#[test]
fn first_run_creates_oldest_first_and_transfers_every_asset() {
    let mut world = World::default();
    let run = world.run(config(100), &origin_releases());
    assert_eq!(world.creates, vec!["v0.9.0", "v0.9.2", "v1.0.0"]);
    assert!(world.updates.is_empty());
    assert_eq!(world.downloads, vec!["a.zip", "a.zip", "latest.json"]);
    assert_eq!(world.uploads, vec!["a.zip", "a.zip", "latest.json"]);
    assert!(world.deletes.is_empty());
    assert!(run.failed.is_empty());
    let newest = world.mirror.iter().find(|m| m.tag_name == "v1.0.0").unwrap();
    assert_eq!(newest.body.as_deref(), Some("v1.0.0"));
}

#[test]
fn a_release_downloads_all_assets_before_uploading_to_the_created_id() {
    let mut world = World::default();
    world.run(config(100), &vec![release(3, "v1.0.0", "", vec![asset("a.zip", 10), asset("latest.json", 5)])]);
    assert_eq!(
        world.log,
        vec!["download a.zip", "download latest.json", "upload a.zip to 1001", "upload latest.json to 1001"]
    );
}

#[test]
fn uploads_of_an_existing_release_go_to_its_mirror_id() {
    let mut world = World::default();
    world.mirror.push(release(77, "v1.0.0", "v1.0.0", vec![asset("a.zip", 10)]));
    let mut unfiltered = config(100);
    unfiltered.ignore_lt_gitee_max_version = false;
    world.run(unfiltered, &vec![release(3, "v1.0.0", "", vec![asset("a.zip", 10), asset("b.zip", 5)])]);
    assert!(world.creates.is_empty());
    assert!(world.updates.is_empty());
    assert_eq!(world.log, vec!["download b.zip", "upload b.zip to 77"]);
}

#[test]
fn second_run_writes_and_transfers_nothing() {
    let mut world = World::default();
    world.run(config(100), &origin_releases());
    let (creates, updates, downloads, uploads) =
        (world.creates.len(), world.updates.len(), world.downloads.len(), world.uploads.len());
    let mut unfiltered = config(100);
    unfiltered.ignore_lt_gitee_max_version = false;
    world.run(unfiltered, &origin_releases());
    assert_eq!(world.creates.len(), creates);
    assert_eq!(world.updates.len(), updates);
    assert_eq!(world.downloads.len(), downloads);
    assert_eq!(world.uploads.len(), uploads);
}

#[test]
fn staged_files_are_reused_on_a_later_run() {
    let mut world = World::default();
    world.run(config(100), &origin_releases());
    let downloads = world.downloads.len();
    // The mirror lost its releases, but the staging area kept the files.
    world.mirror.clear();
    world.run(config(100), &origin_releases());
    assert_eq!(world.creates.len(), 6);
    assert_eq!(world.downloads.len(), downloads);
    assert_eq!(world.uploads.len(), 6);
}

#[test]
fn older_tags_than_the_mirror_are_skipped() {
    let mut world = World::default();
    world.mirror.push(release(500, "v0.9.2", "second", vec![]));
    world.run(config(100), &origin_releases());
    assert_eq!(world.creates, vec!["v1.0.0"]);
}

#[test]
fn failed_download_is_recorded_and_skipped() {
    let mut world = World::default();
    world.fail_download = Some("latest.json".to_string());
    let run = world.run(config(100), &origin_releases());
    assert_eq!(run.failed, vec!["latest.json".to_string()]);
    assert!(!world.uploads.contains(&"latest.json".to_string()));
    assert_eq!(world.downloads, vec!["a.zip", "a.zip"]);
    assert_eq!(world.creates.len(), 3);
}

#[test]
fn mirror_is_pruned_after_the_releases_are_synced() {
    let mut world = World::default();
    for id in 1..=4u64 {
        world.mirror.push(release(id, &format!("v0.0.{}", id), "old", vec![]));
    }
    world.run(config(5), &origin_releases());
    assert_eq!(world.creates.len(), 3);
    assert_eq!(world.deletes, vec![1, 2]);
    assert_eq!(world.mirror.len(), 5);
}

#[test]
fn invalid_counts_stop_the_run_before_any_fetch() {
    let mut c = config(3);
    assert!(matches!(SyncRun::begin(c), Err(ConfigError::RetainBelowFetch)));
    c = config(100);
    c.github_latest_release_count = 0;
    assert!(matches!(SyncRun::begin(c), Err(ConfigError::FetchCountZero)));
}

#[test]
fn a_failed_download_does_not_stop_the_following_ones() {
    let mut world = World::default();
    world.fail_download = Some("a.zip".to_string());
    let run = world.run(config(100), &vec![release(3, "v1.0.0", "", vec![asset("a.zip", 10), asset("latest.json", 5)])]);
    assert_eq!(run.failed, vec!["a.zip".to_string()]);
    assert_eq!(world.log, vec!["download latest.json", "upload latest.json to 1001"]);
}
