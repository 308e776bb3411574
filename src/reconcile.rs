//! What a sync run decides for one origin release: its mirror counterpart,
//! whether the mirror release is created, updated or left alone, and which
//! assets are transferred.
use crate::model::{asset_views, copy_assets, release_views, AssetView, Assert, Cli, Release, ReleaseView};
use crate::releases::{body_text, fill_body, with_body};
use crate::releases::sorted_by_id_desc;
use vstd::prelude::*;
use vstd::seq_lib::group_filter_ensures;

verus! {

/// `s` with every non-overlapping occurrence of the non-empty `from`, found
/// left to right, replaced by `to`.
pub open spec fn replaced(s: Seq<char>, from: Seq<char>, to: Seq<char>) -> Seq<char>
    decreases s.len(),
{
    if from.len() == 0 || s.len() < from.len() {
        s
    } else if s.take(from.len() as int) == from {
        to + replaced(s.skip(from.len() as int), from, to)
    } else {
        seq![s[0]] + replaced(s.skip(1), from, to)
    }
}

/// Relies on `str::replace`: every match of the pattern, taken left to right
/// without overlap, is replaced.
#[verifier::external_body]
fn replace_all(s: &str, from: &str, to: &str) -> (r: String)
    requires
        from@.len() > 0,
    ensures
        r@ == replaced(s@, from@, to@),
{
    s.replace(from, to)
}

/// The origin's canonical repository URL.
pub open spec fn github_url(cli: Cli) -> Seq<char> {
    "https://github.com/"@ + cli.github_owner@ + "/"@ + cli.github_repo@
}

/// The mirror's canonical repository URL.
pub open spec fn gitee_url(cli: Cli) -> Seq<char> {
    "https://gitee.com/"@ + cli.gitee_owner@ + "/"@ + cli.gitee_repo@
}

/// `prefix`, then `owner`, a slash and `repo`.
fn repo_url(prefix: &str, owner: &String, repo: &String) -> (r: String)
    ensures
        r@ == prefix@ + owner@ + "/"@ + repo@,
{
    let mut r = String::from_str(prefix);
    r.append(owner.as_str());
    r.append("/");
    r.append(repo.as_str());
    r
}

/// `content` with each origin repository URL pointed at the mirror.
pub fn replace_download_url(cli: &Cli, content: String) -> (r: String)
    ensures
        r@ == replaced(content@, github_url(*cli), gitee_url(*cli)),
{
    let src = repo_url("https://github.com/", &cli.github_owner, &cli.github_repo);
    let tar = repo_url("https://gitee.com/", &cli.gitee_owner, &cli.gitee_repo);
    proof {
        reveal_strlit("https://github.com/");
    }
    replace_all(content.as_str(), src.as_str(), tar.as_str())
}

/// A release body as the mirror should hold it.
pub open spec fn body_for_mirror(cli: Cli, body: Seq<char>) -> Seq<char> {
    if cli.release_body_url_replace {
        replaced(body, github_url(cli), gitee_url(cli))
    } else {
        body
    }
}

/// `content` with origin repository URLs pointed at the mirror, when the run
/// rewrites release bodies.
pub fn replace_release_body_url(cli: &Cli, content: String) -> (r: String)
    ensures
        r@ == body_for_mirror(*cli, content@),
{
    if cli.release_body_url_replace {
        replace_download_url(cli, content)
    } else {
        content
    }
}

/// The first index of `s` whose release carries `tag`.
pub open spec fn first_with_tag(s: Seq<ReleaseView>, tag: Seq<char>) -> Option<int>
    decreases s.len(),
{
    if s.len() == 0 {
        None
    } else {
        match first_with_tag(s.drop_last(), tag) {
            Some(i) => Some(i),
            None => if s.last().tag_name == tag {
                Some(s.len() - 1)
            } else {
                None
            },
        }
    }
}

/// The mirror release that correlates with an origin release tagged `tag`.
pub open spec fn counterpart(mirror: Seq<ReleaseView>, tag: Seq<char>) -> Option<ReleaseView> {
    match first_with_tag(mirror, tag) {
        Some(i) => Some(mirror[i]),
        None => None,
    }
}

/// The index of the first mirror release tagged `tag`; ids play no part.
pub fn find_by_tag(mirror: &Vec<Release>, tag: &String) -> (r: Option<usize>)
    ensures
        match r {
            Some(i) => first_with_tag(release_views(mirror@), tag@) == Some(i as int),
            None => first_with_tag(release_views(mirror@), tag@) is None,
        },
{
    let ghost views = release_views(mirror@);
    let mut i: usize = 0;
    while i < mirror.len()
        invariant
            i <= mirror@.len(),
            views == release_views(mirror@),
            first_with_tag(views.take(i as int), tag@) is None,
        decreases mirror@.len() - i,
    {
        assert(views.take(i + 1).drop_last() =~= views.take(i as int));
        if mirror[i].tag_name == *tag {
            proof {
                lemma_first_in_prefix(views, tag@, i as int + 1);
            }
            return Some(i);
        }
        i = i + 1;
    }
    assert(views.take(mirror@.len() as int) =~= views);
    None
}

/// A match found in a prefix is the first match of the whole sequence.
proof fn lemma_first_in_prefix(s: Seq<ReleaseView>, tag: Seq<char>, n: int)
    requires
        0 <= n <= s.len(),
        first_with_tag(s.take(n), tag) is Some,
    ensures
        first_with_tag(s, tag) == first_with_tag(s.take(n), tag),
    decreases s.len() - n,
{
    if n < s.len() {
        assert(s.take(n + 1).drop_last() =~= s.take(n));
        lemma_first_in_prefix(s, tag, n + 1);
    } else {
        assert(s.take(n) =~= s);
    }
}

/// Whether some asset of `assets` is named `name`.
pub open spec fn has_asset_named(assets: Seq<AssetView>, name: Seq<char>) -> bool {
    exists|i: int| 0 <= i < assets.len() && #[trigger] assets[i].name == name
}

/// The origin assets that no mirror asset matches by name.
pub open spec fn missing_assets(origin: Seq<AssetView>, mirror: Seq<AssetView>) -> Seq<AssetView> {
    origin.filter(lacked_by(mirror))
}

/// Whether an asset lacks a namesake in `mirror`.
pub open spec fn lacked_by(mirror: Seq<AssetView>) -> spec_fn(AssetView) -> bool {
    |a: AssetView| !has_asset_named(mirror, a.name)
}

/// The assets of `release` that `gitee_release` lacks by name, in order; size
/// and URL play no part.
pub fn release_asserts_diff(release: &Release, gitee_release: &Release) -> (r: Vec<Assert>)
    ensures
        asset_views(r@) == missing_assets(release@.assets, gitee_release@.assets),
{
    let ghost origin = asset_views(release.assets@);
    let ghost mirror = asset_views(gitee_release.assets@);
    let mut r: Vec<Assert> = Vec::new();
    let mut i: usize = 0;
    while i < release.assets.len()
        invariant
            i <= release.assets@.len(),
            origin == asset_views(release.assets@),
            mirror == asset_views(gitee_release.assets@),
            asset_views(r@) == origin.take(i as int).filter(lacked_by(mirror)),
        decreases release.assets@.len() - i,
    {
        let mut found = false;
        let mut j: usize = 0;
        while j < gitee_release.assets.len()
            invariant
                i < release.assets@.len(),
                j <= gitee_release.assets@.len(),
                mirror == asset_views(gitee_release.assets@),
                found <==> exists|k: int|
                    0 <= k < j && #[trigger] mirror[k].name == release.assets@[i as int].name@,
            decreases gitee_release.assets@.len() - j,
        {
            let ghost was = found;
            let same = gitee_release.assets[j].name == release.assets[i].name;
            if same {
                found = true;
            }
            proof {
                let name = release.assets@[i as int].name@;
                assert(mirror[j as int] == gitee_release.assets@[j as int]@);
                if same {
                    assert(mirror[j as int].name == name);
                }
                if exists|k: int| 0 <= k < j + 1 && #[trigger] mirror[k].name == name {
                    let k = choose|k: int| 0 <= k < j + 1 && #[trigger] mirror[k].name == name;
                    if k < j {
                        assert(was);
                    } else {
                        assert(same);
                    }
                }
            }
            j = j + 1;
        }
        let ghost before = r@;
        if !found {
            r.push(release.assets[i].copied());
            assert(asset_views(r@) =~= asset_views(before).push(release.assets@[i as int]@));
        }
        i = i + 1;
        proof {
            assert(origin.take(i as int).drop_last() =~= origin.take(i - 1));
            assert(origin.take(i as int).last() == release.assets@[i - 1]@);
            reveal(Seq::filter);
        }
    }
    assert(origin.take(release.assets@.len() as int) =~= origin);
    r
}

/// What the run does with the mirror for one origin release, and the
/// release it sends or keeps.
pub enum ReleaseAction {
    /// The mirror has no counterpart: create this release.
    Create(Release),
    /// The counterpart differs: send this release in its place.
    Update(Release),
    /// The counterpart already matches: keep it.
    Unchanged(Release),
}

pub enum PlanView {
    Create(ReleaseView),
    Update(ReleaseView),
    Unchanged(ReleaseView),
}

impl View for ReleaseAction {
    type V = PlanView;

    open spec fn view(&self) -> PlanView {
        match self {
            ReleaseAction::Create(r) => PlanView::Create(r@),
            ReleaseAction::Update(r) => PlanView::Update(r@),
            ReleaseAction::Unchanged(r) => PlanView::Unchanged(r@),
        }
    }
}

/// The body that the mirror should hold for an origin release: its body, or
/// its tag name when that is empty, with URLs rewritten when the run does so.
pub open spec fn mirror_body(cli: Cli, origin: ReleaseView) -> Seq<char> {
    body_for_mirror(cli, body_text(with_body(origin).body))
}

/// Whether the counterpart must be updated: name, body or prerelease flag
/// differ. The target commit is not compared, since the two registries
/// report it in different forms.
pub open spec fn differs(cli: Cli, origin: ReleaseView, mirror: ReleaseView) -> bool {
    origin.name != mirror.name || mirror_body(cli, origin) != body_text(mirror.body)
        || origin.prerelease != mirror.prerelease
}

pub open spec fn create_payload(cli: Cli, origin: ReleaseView) -> ReleaseView {
    ReleaseView { body: Some(mirror_body(cli, origin)), ..origin }
}

/// The counterpart with the origin's mutable fields.
pub open spec fn update_payload(cli: Cli, origin: ReleaseView, mirror: ReleaseView) -> ReleaseView {
    ReleaseView {
        id: mirror.id,
        tag_name: mirror.tag_name,
        name: origin.name,
        body: Some(mirror_body(cli, origin)),
        prerelease: origin.prerelease,
        target_commitish: origin.target_commitish,
        assets: mirror.assets,
    }
}

pub open spec fn plan(cli: Cli, origin: ReleaseView, mirror: Option<ReleaseView>) -> PlanView {
    match mirror {
        None => PlanView::Create(create_payload(cli, origin)),
        Some(m) => if differs(cli, origin, m) {
            PlanView::Update(update_payload(cli, origin, m))
        } else {
            PlanView::Unchanged(m)
        },
    }
}

/// The release that the mirror holds once the planned write is done.
pub open spec fn written(p: PlanView) -> ReleaseView {
    match p {
        PlanView::Create(r) => r,
        PlanView::Update(r) => r,
        PlanView::Unchanged(r) => r,
    }
}

pub open spec fn opt_view(r: Option<&Release>) -> Option<ReleaseView> {
    match r {
        Some(x) => Some(x@),
        None => None,
    }
}

/// The text of a body, empty when absent.
pub fn body_or_empty(body: &Option<String>) -> (r: String)
    ensures
        r@ == body_text(crate::model::text_view(*body)),
{
    match body {
        Some(b) => b.clone(),
        None => String::new(),
    }
}

/// Decides whether the mirror counterpart of `release` is created, updated or
/// kept.
pub fn gitee_release_create_or_update(
    cli: &Cli,
    release: &Release,
    gitee_release: Option<&Release>,
) -> (r: ReleaseAction)
    ensures
        r@ == plan(*cli, release@, opt_view(gitee_release)),
{
    let filled = fill_body(release.copied());
    let new_body = replace_release_body_url(cli, body_or_empty(&filled.body));
    match gitee_release {
        None => {
            let mut created = filled;
            created.body = Some(new_body);
            ReleaseAction::Create(created)
        },
        Some(er) => {
            let er_body = body_or_empty(&er.body);
            if release.name != er.name || new_body != er_body || release.prerelease
                != er.prerelease {
                ReleaseAction::Update(
                    Release {
                        id: er.id,
                        tag_name: er.tag_name.clone(),
                        name: release.name.clone(),
                        body: Some(new_body),
                        prerelease: release.prerelease,
                        target_commitish: release.target_commitish.clone(),
                        assets: copy_assets(&er.assets),
                    },
                )
            } else {
                ReleaseAction::Unchanged(er.copied())
            }
        },
    }
}

/// Whether a staged file of `staged` bytes already holds an asset declared at
/// `declared` bytes; never when either size is unknown.
pub open spec fn staged_matches(declared: Option<u64>, staged: Option<u64>) -> bool {
    staged is Some && declared == staged
}

/// Whether `asset` must be fetched, given the size of the file already staged
/// for it (`None` when there is none).
pub fn needs_download(asset: &Assert, staged_len: Option<u64>) -> (r: bool)
    ensures
        r == !staged_matches(asset.size, staged_len),
{
    match (asset.size, staged_len) {
        (Some(declared), Some(staged)) => declared != staged,
        _ => true,
    }
}

/// The one asset whose text is rewritten after download: an update manifest.
pub const UPDATE_MANIFEST: &'static str = "latest.json";

/// Whether a downloaded asset named `name` has its URLs rewritten.
pub fn is_rewritten_manifest(cli: &Cli, name: &String) -> (r: bool)
    ensures
        r == (cli.latest_json_url_replace && name@ == UPDATE_MANIFEST@),
{
    let manifest = String::from_str(UPDATE_MANIFEST);
    cli.latest_json_url_replace && *name == manifest
}

/// The ids that pruning deletes from a newest-first list: every release past
/// the first `retain`, the oldest first.
pub open spec fn pruned_ids(mirror: Seq<ReleaseView>, retain: nat) -> Seq<u64> {
    if mirror.len() <= retain {
        Seq::empty()
    } else {
        Seq::new((mirror.len() - retain) as nat, |k: int| mirror[mirror.len() - 1 - k].id)
    }
}

/// The ids of the mirror releases to delete so that only the first `retain`
/// of the newest-first list `gitee_releases` remain, in the order of deletion.
pub fn clean_oldest_gitee_releases(gitee_releases: &Vec<Release>, retain: usize) -> (r: Vec<u64>)
    requires
        sorted_by_id_desc(release_views(gitee_releases@)),
    ensures
        r@ == pruned_ids(release_views(gitee_releases@), retain as nat),
{
    let ghost views = release_views(gitee_releases@);
    let mut r: Vec<u64> = Vec::new();
    let mut i: usize = gitee_releases.len();
    while i > retain
        invariant
            retain <= i <= gitee_releases@.len() || (i == gitee_releases@.len() && i <= retain),
            views == release_views(gitee_releases@),
            r@.len() == gitee_releases@.len() - i,
            forall|k: int| 0 <= k < r@.len() ==> #[trigger] r@[k] == views[views.len() - 1 - k].id,
        decreases i,
    {
        r.push(gitee_releases[i - 1].id);
        i = i - 1;
    }
    assert(r@ =~= pruned_ids(views, retain as nat));
    r
}

/// A sequence with a release tagged `tag` has a first one, and it is tagged
/// `tag`.
pub proof fn lemma_first_with_tag_found(s: Seq<ReleaseView>, tag: Seq<char>, k: int)
    requires
        0 <= k < s.len(),
        s[k].tag_name == tag,
    ensures
        first_with_tag(s, tag) is Some,
        0 <= first_with_tag(s, tag)->Some_0 < s.len(),
        s[first_with_tag(s, tag)->Some_0].tag_name == tag,
    decreases s.len(),
{
    if k < s.len() - 1 {
        lemma_first_with_tag_found(s.drop_last(), tag, k);
    } else {
        lemma_first_with_tag_in_range(s.drop_last(), tag);
    }
}

/// What `first_with_tag` returns is an index of a release tagged `tag`.
pub proof fn lemma_first_with_tag_in_range(s: Seq<ReleaseView>, tag: Seq<char>)
    ensures
        first_with_tag(s, tag) is Some ==> 0 <= first_with_tag(s, tag)->Some_0 < s.len()
            && s[first_with_tag(s, tag)->Some_0].tag_name == tag,
    decreases s.len(),
{
    if s.len() > 0 {
        lemma_first_with_tag_in_range(s.drop_last(), tag);
    }
}

/// Releases correlate by tag alone: when the mirror holds a release with the
/// origin release's tag, whatever its id, the counterpart carries that tag and
/// the run does not create a second release for it.
pub proof fn lemma_tag_correlation(
    cli: Cli,
    origin: ReleaseView,
    mirror: Seq<ReleaseView>,
    k: int,
)
    requires
        0 <= k < mirror.len(),
        mirror[k].tag_name == origin.tag_name,
    ensures
        counterpart(mirror, origin.tag_name) is Some,
        counterpart(mirror, origin.tag_name)->Some_0.tag_name == origin.tag_name,
        !(plan(cli, origin, counterpart(mirror, origin.tag_name)) is Create),
{
    lemma_first_with_tag_found(mirror, origin.tag_name, k);
}

/// The asset diff goes by name alone: an origin asset is transferred exactly
/// when no mirror asset has its name, whatever the sizes and URLs.
pub proof fn lemma_diff_by_name(origin: Seq<AssetView>, mirror: Seq<AssetView>)
    ensures
        forall|a: AssetView|
            #[trigger] missing_assets(origin, mirror).contains(a) <==> (origin.contains(a)
                && !has_asset_named(mirror, a.name)),
{
    broadcast use group_filter_ensures;

    let pred = lacked_by(mirror);
    assert forall|a: AssetView|
        #[trigger] missing_assets(origin, mirror).contains(a) <==> (origin.contains(a)
            && !has_asset_named(mirror, a.name)) by {
        if missing_assets(origin, mirror).contains(a) {
            let i = choose|i: int|
                0 <= i < origin.filter(pred).len() && origin.filter(pred)[i] == a;
            assert(pred(origin.filter(pred)[i]));
            origin.lemma_filter_contains_rev(pred, a);
        }
        if origin.contains(a) && !has_asset_named(mirror, a.name) {
            let i = choose|i: int| 0 <= i < origin.len() && origin[i] == a;
            assert(origin.filter(pred).contains(origin[i]));
        }
    }
}

/// A second pass over an origin release finds nothing to do: once the mirror
/// release holds the name, body and prerelease flag that the first pass
/// wrote, and an asset of each origin asset's name, it is kept as it is and
/// no asset is transferred.
pub proof fn lemma_second_pass_is_quiet(
    cli: Cli,
    origin: ReleaseView,
    before: Option<ReleaseView>,
    after: ReleaseView,
)
    requires
        after.name == written(plan(cli, origin, before)).name,
        after.body == written(plan(cli, origin, before)).body,
        after.prerelease == written(plan(cli, origin, before)).prerelease,
        forall|i: int|
            0 <= i < origin.assets.len() ==> has_asset_named(after.assets, #[trigger] origin.assets[i].name),
    ensures
        plan(cli, origin, Some(after)) == PlanView::Unchanged(after),
        missing_assets(origin.assets, after.assets).len() == 0,
{
    lemma_nothing_missing(origin.assets, after.assets);
}

/// When the mirror has an asset of each origin asset's name, none is missing.
pub proof fn lemma_nothing_missing(origin: Seq<AssetView>, mirror: Seq<AssetView>)
    requires
        forall|i: int|
            0 <= i < origin.len() ==> has_asset_named(mirror, #[trigger] origin[i].name),
    ensures
        missing_assets(origin, mirror).len() == 0,
{
    broadcast use group_filter_ensures;

    let pred = lacked_by(mirror);
    let diff = origin.filter(pred);
    if diff.len() > 0 {
        assert(pred(diff[0]));
        assert(diff.contains(diff[0]));
        origin.lemma_filter_contains_rev(pred, diff[0]);
        assert(origin.contains(diff[0]));
        let i = choose|i: int| 0 <= i < origin.len() && origin[i] == diff[0];
        assert(has_asset_named(mirror, origin[i].name));
    }
}

/// Pruning a newest-first mirror list with distinct ids deletes exactly the
/// releases past the first `retain`: every one of them, and each older than
/// every release that stays.
pub proof fn lemma_pruning_keeps_newest(mirror: Seq<ReleaseView>, retain: nat)
    requires
        sorted_by_id_desc(mirror),
        forall|i: int, j: int| 0 <= i < j < mirror.len() ==> mirror[i].id != mirror[j].id,
    ensures
        pruned_ids(mirror, retain).len() == if mirror.len() > retain {
            mirror.len() - retain
        } else {
            0
        },
        forall|i: int|
            retain <= i < mirror.len() ==> pruned_ids(mirror, retain).contains(#[trigger] mirror[i].id),
        forall|i: int|
            0 <= i < retain && i < mirror.len() ==> !pruned_ids(mirror, retain).contains(
                #[trigger] mirror[i].id,
            ),
        forall|k: int, i: int|
            0 <= k < pruned_ids(mirror, retain).len() && 0 <= i < retain && i < mirror.len()
                ==> #[trigger] pruned_ids(mirror, retain)[k] < #[trigger] mirror[i].id,
{
    let del = pruned_ids(mirror, retain);
    let n = mirror.len();
    assert forall|i: int| retain <= i < n implies del.contains(#[trigger] mirror[i].id) by {
        assert(del[n - 1 - i] == mirror[i].id);
    }
    assert forall|k: int, i: int|
        0 <= k < del.len() && 0 <= i < retain && i < n implies #[trigger] del[k]
        < #[trigger] mirror[i].id by {
        assert(del[k] == mirror[n - 1 - k].id);
        assert(mirror[i].id >= mirror[n - 1 - k].id);
    }
    assert forall|i: int| 0 <= i < retain && i < n implies !del.contains(#[trigger] mirror[i].id) by {
        if del.contains(mirror[i].id) {
            let k = choose|k: int| 0 <= k < del.len() && del[k] == mirror[i].id;
            assert(del[k] < mirror[i].id);
        }
    }
}

} // verus!
