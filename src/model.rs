//! The data that a sync run reads: releases, their assets, and the run's
//! configuration.
use vstd::prelude::*;
use vstd::string::StringSliceAdditionalSpecFns;
use vstd::utf8::{decode_utf8, encode_utf8, encode_utf8_decode_utf8, encode_utf8_valid_utf8, is_char_boundary};

verus! {

/// A file attached to a release.
#[derive(Debug)]
pub struct Assert {
    pub name: String,
    /// Declared byte count, when the registry reports one.
    pub size: Option<u64>,
    pub browser_download_url: String,
}

/// A tagged publication of a repository on one registry.
#[derive(Debug)]
pub struct Release {
    /// Registry-local identity; never compared across registries.
    pub id: u64,
    /// The key that correlates releases across registries.
    pub tag_name: String,
    pub name: String,
    pub body: Option<String>,
    pub prerelease: bool,
    pub target_commitish: String,
    /// Mirrored through a separate attach operation, never sent in a write.
    pub assets: Vec<Assert>,
}

/// What a sync run reads of an asset.
pub struct AssetView {
    pub name: Seq<char>,
    pub size: Option<u64>,
    pub browser_download_url: Seq<char>,
}

/// What a sync run reads of a release.
pub struct ReleaseView {
    pub id: u64,
    pub tag_name: Seq<char>,
    pub name: Seq<char>,
    pub body: Option<Seq<char>>,
    pub prerelease: bool,
    pub target_commitish: Seq<char>,
    pub assets: Seq<AssetView>,
}

impl View for Assert {
    type V = AssetView;

    open spec fn view(&self) -> AssetView {
        AssetView {
            name: self.name@,
            size: self.size,
            browser_download_url: self.browser_download_url@,
        }
    }
}

pub open spec fn text_view(t: Option<String>) -> Option<Seq<char>> {
    match t {
        Some(s) => Some(s@),
        None => None,
    }
}

pub open spec fn asset_views(s: Seq<Assert>) -> Seq<AssetView> {
    s.map_values(|a: Assert| a@)
}

pub open spec fn release_views(s: Seq<Release>) -> Seq<ReleaseView> {
    s.map_values(|r: Release| r@)
}

impl View for Release {
    type V = ReleaseView;

    open spec fn view(&self) -> ReleaseView {
        ReleaseView {
            id: self.id,
            tag_name: self.tag_name@,
            name: self.name@,
            body: text_view(self.body),
            prerelease: self.prerelease,
            target_commitish: self.target_commitish@,
            assets: asset_views(self.assets@),
        }
    }
}

impl Assert {
    pub fn copied(&self) -> (r: Assert)
        ensures
            r@ == self@,
    {
        Assert {
            name: self.name.clone(),
            size: self.size,
            browser_download_url: self.browser_download_url.clone(),
        }
    }
}

/// A copy of every asset of `assets`, in order.
pub fn copy_assets(assets: &Vec<Assert>) -> (r: Vec<Assert>)
    ensures
        asset_views(r@) == asset_views(assets@),
{
    let mut r: Vec<Assert> = Vec::new();
    let mut i: usize = 0;
    while i < assets.len()
        invariant
            i <= assets@.len(),
            r@.len() == i,
            forall|k: int| 0 <= k < i ==> #[trigger] r@[k]@ == assets@[k]@,
        decreases assets@.len() - i,
    {
        r.push(assets[i].copied());
        i = i + 1;
    }
    assert(asset_views(r@) =~= asset_views(assets@));
    r
}

pub fn copy_text(s: &Option<String>) -> (r: Option<String>)
    ensures
        text_view(r) == text_view(*s),
{
    match s {
        Some(t) => Some(t.clone()),
        None => None,
    }
}

impl Release {
    pub fn copied(&self) -> (r: Release)
        ensures
            r@ == self@,
    {
        Release {
            id: self.id,
            tag_name: self.tag_name.clone(),
            name: self.name.clone(),
            body: copy_text(&self.body),
            prerelease: self.prerelease,
            target_commitish: self.target_commitish.clone(),
            assets: copy_assets(&self.assets),
        }
    }
}

/// The configuration of a sync run.
pub struct Cli {
    pub github_owner: String,
    pub github_repo: String,
    /// Optional on the origin: it only raises the rate limit.
    pub github_token: Option<String>,
    pub gitee_owner: String,
    pub gitee_repo: String,
    pub gitee_token: String,
    /// How many of the newest origin releases are fetched.
    pub github_latest_release_count: usize,
    /// How many of the newest mirror releases survive pruning.
    pub gitee_retain_release_count: usize,
    /// Skip origin releases whose tag is not newer than the mirror's largest tag.
    pub ignore_lt_gitee_max_version: bool,
    /// Point origin repository URLs in release bodies at the mirror.
    pub release_body_url_replace: bool,
    /// Point origin repository URLs in the update manifest at the mirror.
    pub latest_json_url_replace: bool,
}

/// Why a configuration is refused before any network call.
#[derive(Debug, PartialEq, Eq, Structural)]
pub enum ConfigError {
    /// The fetch count is zero.
    FetchCountZero,
    /// The retain count is below the fetch count.
    RetainBelowFetch,
}

/// A configuration is valid when retain count >= fetch count >= 1.
pub open spec fn valid_counts(fetch: usize, retain: usize) -> bool {
    retain >= fetch >= 1
}

/// Accepts the configuration exactly when its counts are valid.
pub fn check_cli(cli: &Cli) -> (r: Result<(), ConfigError>)
    ensures
        r is Ok <==> valid_counts(cli.github_latest_release_count, cli.gitee_retain_release_count),
        r == Err::<(), ConfigError>(ConfigError::FetchCountZero) <==> cli.github_latest_release_count
            == 0,
        r == Err::<(), ConfigError>(ConfigError::RetainBelowFetch) <==> (
        cli.github_latest_release_count >= 1 && cli.gitee_retain_release_count
            < cli.github_latest_release_count),
{
    if cli.github_latest_release_count == 0 {
        Err(ConfigError::FetchCountZero)
    } else if cli.gitee_retain_release_count < cli.github_latest_release_count {
        Err(ConfigError::RetainBelowFetch)
    } else {
        Ok(())
    }
}

/// How many bytes of a token stay readable when it is shown.
pub const VISIBLE_TOKEN_BYTES: usize = 8;

pub open spec fn stars(n: nat) -> Seq<char> {
    Seq::new(n, |i: int| '*')
}

/// A token as it may be shown: its first bytes, and a star for each byte
/// after them; a short token is all stars. A token whose first bytes end
/// inside a character is all stars too.
pub open spec fn masked(t: Seq<char>) -> Seq<char> {
    let b = encode_utf8(t);
    if b.len() > VISIBLE_TOKEN_BYTES && is_char_boundary(b, VISIBLE_TOKEN_BYTES as int) {
        decode_utf8(b.take(VISIBLE_TOKEN_BYTES as int)) + stars(
            (b.len() - VISIBLE_TOKEN_BYTES) as nat,
        )
    } else {
        stars(b.len())
    }
}

/// Appends `n` stars to `s`.
fn push_stars(s: &mut String, n: usize)
    ensures
        final(s)@ == old(s)@ + stars(n as nat),
{
    let mut i: usize = 0;
    while i < n
        invariant
            i <= n,
            s@ == old(s)@ + stars(i as nat),
        decreases n - i,
    {
        proof {
            reveal_strlit("*");
        }
        s.append("*");
        i = i + 1;
        assert(s@ =~= old(s)@ + stars(i as nat));
    }
}

/// The token as it may be shown in a log; `None` when there is no token.
pub fn mask_token(token: Option<String>) -> (r: String)
    ensures
        token is None ==> r@ == "None"@,
        token is Some ==> r@ == masked(token->Some_0@),
{
    match token {
        None => String::from_str("None"),
        Some(t) => {
            let s = t.as_str();
            let len = s.as_bytes().len();
            proof {
                encode_utf8_valid_utf8(t@);
            }
            assert(s.spec_bytes() == encode_utf8(t@));
            if len > VISIBLE_TOKEN_BYTES && s.is_char_boundary(VISIBLE_TOKEN_BYTES) {
                let (head, _) = s.split_at(VISIBLE_TOKEN_BYTES);
                proof {
                    encode_utf8_decode_utf8(head@);
                    assert(head.spec_bytes() =~= encode_utf8(t@).take(VISIBLE_TOKEN_BYTES as int));
                    assert(decode_utf8(head.spec_bytes()) == head@);
                }
                let mut r = String::from_str(head);
                push_stars(&mut r, len - VISIBLE_TOKEN_BYTES);
                r
            } else {
                let mut r = String::new();
                push_stars(&mut r, len);
                assert(r@ =~= stars(len as nat));
                r
            }
        },
    }
}

} // verus!
