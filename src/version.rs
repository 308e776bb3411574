//! Version order of tags, and the choice of origin releases that a run syncs.
use crate::model::{release_views, Cli, Release, ReleaseView};
use vstd::prelude::*;

verus! {

/// How `version_compare` orders two tags; `None` when either does not parse
/// as a version.
pub uninterp spec fn version_order(a: Seq<char>, b: Seq<char>) -> Option<std::cmp::Ordering>;

/// Relies on `version_compare::compare`: it returns `Lt`, `Eq` or `Gt`, or an
/// error when either tag does not parse as a version, and its result depends
/// on the two texts alone.
#[verifier::external_body]
fn compare_versions(a: &str, b: &str) -> (r: Option<std::cmp::Ordering>)
    ensures
        r == version_order(a@, b@),
{
    match version_compare::compare(a, b) {
        Ok(version_compare::Cmp::Lt) => Some(std::cmp::Ordering::Less),
        Ok(version_compare::Cmp::Eq) => Some(std::cmp::Ordering::Equal),
        Ok(version_compare::Cmp::Gt) => Some(std::cmp::Ordering::Greater),
        _ => None,
    }
}

/// A tag with one leading `v` dropped: `v1.2.3` and `1.2.3` name one version.
pub open spec fn strip_v(s: Seq<char>) -> Seq<char> {
    if s.len() > 0 && s[0] == 'v' {
        s.skip(1)
    } else {
        s
    }
}

/// How two tags order as versions, after a leading `v` is dropped from each.
pub open spec fn tag_order(a: Seq<char>, b: Seq<char>) -> Option<std::cmp::Ordering> {
    version_order(strip_v(a), strip_v(b))
}

/// `s` without one leading `v`.
pub fn without_v(s: &str) -> (r: &str)
    ensures
        r@ == strip_v(s@),
{
    let n = s.unicode_len();
    if n > 0 && s.get_char(0) == 'v' {
        s.substring_char(1, n)
    } else {
        s
    }
}

/// Compares two tags as versions, a leading `v` aside; `None` when either
/// does not parse.
pub fn compare_tags(a: &str, b: &str) -> (r: Option<std::cmp::Ordering>)
    ensures
        r == tag_order(a@, b@),
{
    compare_versions(without_v(a), without_v(b))
}

/// The order used to find the largest tag: tags that cannot be compared
/// count as equal.
pub open spec fn order_or_equal(a: Seq<char>, b: Seq<char>) -> std::cmp::Ordering {
    match tag_order(a, b) {
        Some(o) => o,
        None => std::cmp::Ordering::Equal,
    }
}

/// The largest of `tags` in the order above, scanning left to right; a later
/// tag wins unless the one held so far is strictly greater.
pub open spec fn max_version(tags: Seq<Seq<char>>) -> Seq<char>
    decreases tags.len(),
{
    if tags.len() <= 1 {
        tags[0]
    } else {
        let held = max_version(tags.drop_last());
        if order_or_equal(held, tags.last()) == std::cmp::Ordering::Greater {
            held
        } else {
            tags.last()
        }
    }
}

/// Whether `tag` is worth syncing against the mirror's largest tag `max`:
/// yes, unless `max` is known to be greater or equal. A tag that cannot be
/// compared is kept.
pub open spec fn newer_than(max: Seq<char>, tag: Seq<char>) -> bool {
    match tag_order(max, tag) {
        Some(std::cmp::Ordering::Greater) | Some(std::cmp::Ordering::Equal) => false,
        _ => true,
    }
}

pub open spec fn view_tags(s: Seq<ReleaseView>) -> Seq<Seq<char>> {
    s.map_values(|r: ReleaseView| r.tag_name)
}

/// The mirror's largest tag, when the run skips origin releases that are not
/// newer and the mirror holds a release.
pub open spec fn mirror_max_tag(skip_not_newer: bool, mirror: Seq<ReleaseView>) -> Option<
    Seq<char>,
> {
    if skip_not_newer && mirror.len() > 0 {
        Some(max_version(view_tags(mirror)))
    } else {
        None
    }
}

/// The origin releases that a run syncs, in their order.
pub open spec fn selected_for_sync(
    skip_not_newer: bool,
    mirror: Seq<ReleaseView>,
    origin: Seq<ReleaseView>,
) -> Seq<ReleaseView> {
    match mirror_max_tag(skip_not_newer, mirror) {
        Some(m) => origin.filter(|r: ReleaseView| newer_than(m, r.tag_name)),
        None => origin,
    }
}

/// The largest tag of a non-empty list of releases.
pub fn max_tag(releases: &Vec<Release>) -> (r: String)
    requires
        releases@.len() > 0,
    ensures
        r@ == max_version(view_tags(release_views(releases@))),
{
    let ghost tags = view_tags(release_views(releases@));
    let mut held = releases[0].tag_name.clone();
    let mut i: usize = 1;
    assert(tags.take(1).len() == 1);
    while i < releases.len()
        invariant
            1 <= i <= releases@.len(),
            tags == view_tags(release_views(releases@)),
            held@ == max_version(tags.take(i as int)),
        decreases releases@.len() - i,
    {
        let o = compare_tags(held.as_str(), releases[i].tag_name.as_str());
        let greater = match o {
            Some(std::cmp::Ordering::Greater) => true,
            _ => false,
        };
        if !greater {
            held = releases[i].tag_name.clone();
        }
        i = i + 1;
        assert(tags.take(i as int).drop_last() =~= tags.take(i - 1));
    }
    assert(tags.take(releases@.len() as int) =~= tags);
    held
}

/// Whether an origin release tagged `tag` is synced against the mirror's
/// largest tag `max`.
pub fn is_newer(max: &String, tag: &String) -> (r: bool)
    ensures
        r == newer_than(max@, tag@),
{
    match compare_tags(max.as_str(), tag.as_str()) {
        Some(std::cmp::Ordering::Greater) => false,
        Some(std::cmp::Ordering::Equal) => false,
        _ => true,
    }
}

/// The origin releases that the run syncs: all of them, or, when the run
/// skips releases that are not newer than the mirror's largest tag, those
/// whose tag is newer or cannot be compared.
pub fn filter_github_releases(
    cli: &Cli,
    gitee_releases: &Vec<Release>,
    github_releases: &Vec<Release>,
) -> (r: Vec<Release>)
    ensures
        release_views(r@) == selected_for_sync(
            cli.ignore_lt_gitee_max_version,
            release_views(gitee_releases@),
            release_views(github_releases@),
        ),
{
    let ghost origin = release_views(github_releases@);
    let max = if cli.ignore_lt_gitee_max_version && gitee_releases.len() > 0 {
        Some(max_tag(gitee_releases))
    } else {
        None
    };
    let mut r: Vec<Release> = Vec::new();
    let mut i: usize = 0;
    while i < github_releases.len()
        invariant
            i <= github_releases@.len(),
            origin == release_views(github_releases@),
            max is Some <==> mirror_max_tag(
                cli.ignore_lt_gitee_max_version,
                release_views(gitee_releases@),
            ) is Some,
            max is Some ==> max->Some_0@ == mirror_max_tag(
                cli.ignore_lt_gitee_max_version,
                release_views(gitee_releases@),
            )->Some_0,
            release_views(r@) == match max {
                Some(m) => origin.take(i as int).filter(
                    |x: ReleaseView| newer_than(m@, x.tag_name),
                ),
                None => origin.take(i as int),
            },
        decreases github_releases@.len() - i,
    {
        let keep = match &max {
            Some(m) => is_newer(m, &github_releases[i].tag_name),
            None => true,
        };
        let ghost before = r@;
        if keep {
            r.push(github_releases[i].copied());
            assert(release_views(r@) =~= release_views(before).push(github_releases@[i as int]@));
        }
        i = i + 1;
        proof {
            assert(origin.take(i as int).drop_last() =~= origin.take(i - 1));
            assert(origin.take(i as int).last() == github_releases@[i - 1]@);
            reveal(Seq::filter);
            if max is None {
                assert(release_views(r@) =~= origin.take(i as int));
            }
        }
    }
    assert(origin.take(github_releases@.len() as int) =~= origin);
    r
}

} // verus!
