//! The release lists of both registries, as a sync run reads them.
use crate::model::{release_views, Release, ReleaseView};
use vstd::multiset::Multiset;
use vstd::prelude::*;
use vstd::seq_lib::group_to_multiset_ensures;

verus! {

broadcast use group_to_multiset_ensures;

/// Newest first: the ids never increase along the list.
pub open spec fn sorted_by_id_desc(s: Seq<ReleaseView>) -> bool {
    forall|i: int, j: int| 0 <= i < j < s.len() ==> s[i].id >= s[j].id
}

/// An absent body reads as empty text.
pub open spec fn body_text(b: Option<Seq<char>>) -> Seq<char> {
    match b {
        Some(t) => t,
        None => Seq::empty(),
    }
}

/// The mirror refuses an empty body, so an empty or absent body is replaced
/// by the tag name.
pub open spec fn with_body(r: ReleaseView) -> ReleaseView {
    if body_text(r.body).len() == 0 {
        ReleaseView { body: Some(r.tag_name), ..r }
    } else {
        r
    }
}

/// The releases of `v`, newest first.
pub fn sort_by_id_desc(v: Vec<Release>) -> (r: Vec<Release>)
    ensures
        release_views(r@).to_multiset() == release_views(v@).to_multiset(),
        sorted_by_id_desc(release_views(r@)),
{
    let ghost orig = release_views(v@);
    let mut rest = v;
    let mut out: Vec<Release> = Vec::new();
    while rest.len() > 0
        invariant
            release_views(out@).to_multiset().add(release_views(rest@).to_multiset()) == orig.to_multiset(),
            sorted_by_id_desc(release_views(out@)),
            forall|a: int, b: int|
                0 <= a < out@.len() && 0 <= b < rest@.len() ==> #[trigger] out@[a].id
                    >= #[trigger] rest@[b].id,
        decreases rest@.len(),
    {
        let mut best: usize = 0;
        let mut j: usize = 1;
        while j < rest.len()
            invariant
                0 <= best < j <= rest@.len(),
                forall|k: int| 0 <= k < j ==> #[trigger] rest@[k].id <= rest@[best as int].id,
            decreases rest@.len() - j,
        {
            if rest[j].id >= rest[best].id {
                best = j;
            }
            j = j + 1;
        }
        let ghost old_rest = rest@;
        let ghost old_out = out@;
        let x = rest.remove(best);
        out.push(x);
        proof {
            assert(release_views(out@) =~= release_views(old_out).push(x@));
            assert(release_views(rest@) =~= release_views(old_rest).remove(best as int));
            assert(release_views(old_rest)[best as int] == x@);
            assert(release_views(out@).to_multiset() =~= release_views(old_out).to_multiset().insert(x@));
            assert(release_views(rest@).to_multiset() =~= release_views(old_rest).to_multiset().remove(x@));
            assert(release_views(old_rest).to_multiset().contains(x@));
            assert(release_views(out@).to_multiset().add(release_views(rest@).to_multiset())
                =~= release_views(old_out).to_multiset().add(release_views(old_rest).to_multiset()));
            assert forall|a: int, b: int|
                0 <= a < out@.len() && 0 <= b < rest@.len() implies #[trigger] out@[a].id
                    >= #[trigger] rest@[b].id by {
                if a < old_out.len() {
                    assert(out@[a] == old_out[a]);
                    if b < best {
                        assert(rest@[b] == old_rest[b]);
                    } else {
                        assert(rest@[b] == old_rest[b + 1]);
                    }
                } else {
                    if b < best {
                        assert(rest@[b] == old_rest[b]);
                    } else {
                        assert(rest@[b] == old_rest[b + 1]);
                    }
                }
            }
            assert forall|a: int, b: int|
                0 <= a < b < release_views(out@).len() implies release_views(out@)[a].id
                    >= release_views(out@)[b].id by {
                assert(release_views(out@)[a] == out@[a]@);
                assert(release_views(out@)[b] == out@[b]@);
                if b < old_out.len() {
                    assert(release_views(old_out)[a] == old_out[a]@);
                    assert(release_views(old_out)[b] == old_out[b]@);
                } else {
                    assert(out@[a] == old_out[a]);
                }
            }
        }
    }
    assert(release_views(rest@).to_multiset() =~= Multiset::empty());
    assert(release_views(out@).to_multiset() =~= release_views(out@).to_multiset().add(
        release_views(rest@).to_multiset()));
    out
}

/// `r` with an empty or absent body replaced by its tag name.
pub fn fill_body(r: Release) -> (out: Release)
    ensures
        out@ == with_body(r@),
{
    let empty = match &r.body {
        Some(b) => b.as_str().is_empty(),
        None => true,
    };
    if empty {
        let mut out = r;
        out.body = Some(out.tag_name.clone());
        out
    } else {
        r
    }
}

/// Each release of `v` with its body filled in, in order.
pub fn fill_bodies(v: &Vec<Release>) -> (r: Vec<Release>)
    ensures
        release_views(r@) == release_views(v@).map_values(|x: ReleaseView| with_body(x)),
{
    let mut r: Vec<Release> = Vec::new();
    let mut i: usize = 0;
    while i < v.len()
        invariant
            i <= v@.len(),
            r@.len() == i,
            forall|k: int| 0 <= k < i ==> #[trigger] r@[k]@ == with_body(v@[k]@),
        decreases v@.len() - i,
    {
        r.push(fill_body(v[i].copied()));
        i = i + 1;
    }
    assert(release_views(r@) =~= release_views(v@).map_values(|x: ReleaseView| with_body(x)));
    r
}

/// The origin's releases as fetched, newest first, each body filled in.
pub fn github_releases(fetched: Vec<Release>) -> (r: Vec<Release>)
    ensures
        release_views(r@).to_multiset() == release_views(fetched@).map_values(
            |x: ReleaseView| with_body(x),
        ).to_multiset(),
        sorted_by_id_desc(release_views(r@)),
{
    sort_by_id_desc(fill_bodies(&fetched))
}

/// The mirror's releases as fetched, newest first.
pub fn gitee_releases(fetched: Vec<Release>) -> (r: Vec<Release>)
    ensures
        release_views(r@).to_multiset() == release_views(fetched@).to_multiset(),
        sorted_by_id_desc(release_views(r@)),
{
    sort_by_id_desc(fetched)
}

/// The tag names of `releases`, in order.
pub fn get_tags(releases: &Vec<Release>) -> (r: Vec<String>)
    ensures
        r@.len() == releases@.len(),
        forall|i: int| 0 <= i < r@.len() ==> #[trigger] r@[i]@ == releases@[i].tag_name@,
{
    let mut r: Vec<String> = Vec::new();
    let mut i: usize = 0;
    while i < releases.len()
        invariant
            i <= releases@.len(),
            r@.len() == i,
            forall|k: int| 0 <= k < i ==> #[trigger] r@[k]@ == releases@[k].tag_name@,
        decreases releases@.len() - i,
    {
        r.push(releases[i].tag_name.clone());
        i = i + 1;
    }
    r
}

/// The texts of `s` joined by a comma and a space.
pub open spec fn joined(s: Seq<Seq<char>>) -> Seq<char>
    decreases s.len(),
{
    if s.len() == 0 {
        Seq::empty()
    } else if s.len() == 1 {
        s[0]
    } else {
        joined(s.drop_last()) + ", "@ + s.last()
    }
}

pub open spec fn tag_names(s: Seq<Release>) -> Seq<Seq<char>> {
    s.map_values(|r: Release| r.tag_name@)
}

/// The tag names of `releases` in one line, as a log shows them.
pub fn get_tag_names(releases: &Vec<Release>) -> (r: String)
    ensures
        r@ == joined(tag_names(releases@)),
{
    let mut r = String::new();
    let mut i: usize = 0;
    while i < releases.len()
        invariant
            i <= releases@.len(),
            r@ == joined(tag_names(releases@.take(i as int))),
        decreases releases@.len() - i,
    {
        let ghost before = releases@.take(i as int);
        if i > 0 {
            r.append(", ");
        }
        r.append(releases[i].tag_name.as_str());
        i = i + 1;
        proof {
            let now = tag_names(releases@.take(i as int));
            assert(now.drop_last() =~= tag_names(before));
            assert(now.last() == releases@[i - 1].tag_name@);
            if i == 1 {
                assert(r@ =~= now[0]);
            }
        }
    }
    assert(releases@.take(releases@.len() as int) =~= releases@);
    r
}

} // verus!
