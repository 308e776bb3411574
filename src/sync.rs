//! A whole sync run as a state machine. The caller performs each action that
//! the run hands out (a fetch, a write, a transfer, a deletion) and reports
//! what came of it; the run decides what comes next.
//!
//! Origin releases are handled oldest first, one at a time: the mirror
//! counterpart is created or updated when needed; then every missing asset is
//! staged, and downloaded unless a staged copy of the declared size exists;
//! then every staged asset is uploaded. A failed transfer is recorded and
//! skipped. When every release is handled, the mirror is listed afresh and
//! pruned to the retain count.
use crate::model::{
    asset_views, check_cli, release_views, Assert, AssetView, Cli, ConfigError, Release,
    ReleaseView,
};
use crate::reconcile::{
    clean_oldest_gitee_releases, counterpart, find_by_tag, gitee_release_create_or_update,
    is_rewritten_manifest, missing_assets, needs_download, plan, pruned_ids, release_asserts_diff,
    staged_matches, PlanView, ReleaseAction, UPDATE_MANIFEST,
};
use crate::releases::{github_releases, gitee_releases, sorted_by_id_desc, with_body};
use crate::version::{filter_github_releases, selected_for_sync};
use vstd::prelude::*;

verus! {

/// What the caller is asked to do next.
pub enum Action {
    /// List the origin's newest releases.
    FetchOrigin,
    /// List the mirror's releases.
    FetchMirror,
    /// Create this release on the mirror.
    Create(Release),
    /// Send this release to the mirror in place of the one with its id.
    Update(Release),
    /// Report the size of the file staged for this asset of the release
    /// tagged `tag`, if there is one.
    CheckStaged { tag: String, asset: Assert },
    /// Download the asset into its staged file; when `rewrite` holds, point
    /// the origin repository URLs in it at the mirror afterwards.
    Download { tag: String, asset: Assert, rewrite: bool },
    /// Attach the staged file named `asset_name` to mirror release `release_id`.
    Upload { tag: String, release_id: u64, asset_name: String },
    /// Delete mirror release `id`.
    Delete(u64),
    /// The run is over.
    Finished,
}

pub enum ActionView {
    FetchOrigin,
    FetchMirror,
    Create(ReleaseView),
    Update(ReleaseView),
    CheckStaged { tag: Seq<char>, asset: AssetView },
    Download { tag: Seq<char>, asset: AssetView, rewrite: bool },
    Upload { tag: Seq<char>, release_id: u64, asset_name: Seq<char> },
    Delete(u64),
    Finished,
}

impl View for Action {
    type V = ActionView;

    open spec fn view(&self) -> ActionView {
        match self {
            Action::FetchOrigin => ActionView::FetchOrigin,
            Action::FetchMirror => ActionView::FetchMirror,
            Action::Create(r) => ActionView::Create(r@),
            Action::Update(r) => ActionView::Update(r@),
            Action::CheckStaged { tag, asset } => ActionView::CheckStaged {
                tag: tag@,
                asset: asset@,
            },
            Action::Download { tag, asset, rewrite } => ActionView::Download {
                tag: tag@,
                asset: asset@,
                rewrite: *rewrite,
            },
            Action::Upload { tag, release_id, asset_name } => ActionView::Upload {
                tag: tag@,
                release_id: *release_id,
                asset_name: asset_name@,
            },
            Action::Delete(id) => ActionView::Delete(*id),
            Action::Finished => ActionView::Finished,
        }
    }
}

/// What came of an action.
pub enum Event {
    /// A fetch: the releases as the registry listed them.
    Fetched(Vec<Release>),
    /// A creation: the release that the mirror holds now.
    Created(Release),
    /// An update was accepted.
    Updated,
    /// The size of the staged file, `None` when there is none.
    Staged(Option<u64>),
    /// A download or an upload succeeded or failed.
    Transferred(bool),
    /// A deletion was accepted.
    Deleted,
}

/// An event without the listed releases, which a run takes in sorted.
pub enum EventView {
    Fetched,
    Created(ReleaseView),
    Updated,
    Staged(Option<u64>),
    Transferred(bool),
    Deleted,
}

impl View for Event {
    type V = EventView;

    open spec fn view(&self) -> EventView {
        match self {
            Event::Fetched(_) => EventView::Fetched,
            Event::Created(r) => EventView::Created(r@),
            Event::Updated => EventView::Updated,
            Event::Staged(s) => EventView::Staged(*s),
            Event::Transferred(ok) => EventView::Transferred(*ok),
            Event::Deleted => EventView::Deleted,
        }
    }
}

/// What the run waits for: the answer to the action it handed out last.
#[derive(PartialEq, Eq, Structural)]
pub enum Phase {
    AwaitOrigin,
    AwaitMirror,
    AwaitWrite,
    AwaitStaged,
    AwaitDownload,
    AwaitUpload,
    AwaitPruneList,
    AwaitDelete,
    Done,
}

/// The state of a sync run.
pub struct SyncRun {
    pub cli: Cli,
    pub phase: Phase,
    /// The origin releases, newest first; once the mirror is known, only
    /// those selected for sync.
    pub origin: Vec<Release>,
    /// The mirror releases, newest first: as listed at the start, and as
    /// listed again before pruning.
    pub mirror: Vec<Release>,
    /// `origin[..next]` is not handled yet; `origin[next]` is in hand.
    pub next: usize,
    /// The release that the mirror holds after a pending update.
    pub awaiting: Option<Release>,
    /// The mirror counterpart of the release in hand.
    pub target: Option<Release>,
    /// The assets of the release in hand that the counterpart lacks.
    pub pending: Vec<Assert>,
    /// `pending[..asset]` is staged or given up; `pending[asset]` is in hand.
    pub asset: usize,
    /// The staged assets of the release in hand, in order, to be uploaded.
    pub ready: Vec<Assert>,
    /// `ready[..sent]` is uploaded or given up.
    pub sent: usize,
    /// The names of the assets whose transfer failed.
    pub failed: Vec<String>,
    /// The ids that pruning deletes, in order.
    pub deletions: Vec<u64>,
    /// How many of `deletions` are done.
    pub deleted: usize,
}

/// A sync run as its decisions read it.
pub struct RunView {
    pub phase: Phase,
    pub origin: Seq<ReleaseView>,
    pub mirror: Seq<ReleaseView>,
    pub next: int,
    pub awaiting: Option<ReleaseView>,
    pub target: Option<ReleaseView>,
    pub pending: Seq<AssetView>,
    pub asset: int,
    pub ready: Seq<AssetView>,
    pub sent: int,
    pub failed: Seq<Seq<char>>,
    pub deletions: Seq<u64>,
    pub deleted: int,
}

pub open spec fn release_opt(r: Option<Release>) -> Option<ReleaseView> {
    match r {
        Some(x) => Some(x@),
        None => None,
    }
}

pub open spec fn texts(s: Seq<String>) -> Seq<Seq<char>> {
    s.map_values(|t: String| t@)
}

impl View for SyncRun {
    type V = RunView;

    open spec fn view(&self) -> RunView {
        RunView {
            phase: self.phase,
            origin: release_views(self.origin@),
            mirror: release_views(self.mirror@),
            next: self.next as int,
            awaiting: release_opt(self.awaiting),
            target: release_opt(self.target),
            pending: asset_views(self.pending@),
            asset: self.asset as int,
            ready: asset_views(self.ready@),
            sent: self.sent as int,
            failed: texts(self.failed@),
            deletions: self.deletions@,
            deleted: self.deleted as int,
        }
    }
}

/// The run takes `t` as the counterpart of the release in hand: every asset
/// that `t` lacks by name is pending.
pub open spec fn begin_transfer(v: RunView, t: ReleaseView) -> RunView {
    RunView {
        target: Some(t),
        pending: missing_assets(v.origin[v.next].assets, t.assets),
        asset: 0,
        ready: Seq::empty(),
        sent: 0,
        ..v
    }
}

/// The next action once nothing is awaited: stage the next pending asset;
/// else upload the next staged one; else take the next older release and
/// plan its write, going straight to its assets when the counterpart is kept;
/// else list the mirror for pruning.
pub open spec fn settle(cli: Cli, v: RunView) -> (RunView, ActionView)
    decreases 2 * v.next + (if v.asset < v.pending.len() || v.sent < v.ready.len() {
        1int
    } else {
        0int
    }),
{
    if v.asset < v.pending.len() {
        (
            RunView { phase: Phase::AwaitStaged, ..v },
            ActionView::CheckStaged { tag: v.origin[v.next].tag_name, asset: v.pending[v.asset] },
        )
    } else if v.sent < v.ready.len() {
        (
            RunView { phase: Phase::AwaitUpload, ..v },
            ActionView::Upload {
                tag: v.origin[v.next].tag_name,
                release_id: v.target->Some_0.id,
                asset_name: v.ready[v.sent].name,
            },
        )
    } else if v.next <= 0 {
        (RunView { phase: Phase::AwaitPruneList, ..v }, ActionView::FetchMirror)
    } else {
        let w = RunView {
            next: v.next - 1,
            pending: Seq::empty(),
            asset: 0,
            ready: Seq::empty(),
            sent: 0,
            ..v
        };
        let o = v.origin[v.next - 1];
        match plan(cli, o, counterpart(v.mirror, o.tag_name)) {
            PlanView::Create(p) => (
                RunView { phase: Phase::AwaitWrite, awaiting: None, ..w },
                ActionView::Create(p),
            ),
            PlanView::Update(p) => (
                RunView { phase: Phase::AwaitWrite, awaiting: Some(p), ..w },
                ActionView::Update(p),
            ),
            PlanView::Unchanged(m) => settle(cli, begin_transfer(w, m)),
        }
    }
}

/// The next deletion, or the end of the run.
pub open spec fn after_deletion(v: RunView) -> (RunView, ActionView) {
    if v.deleted < v.deletions.len() {
        (RunView { phase: Phase::AwaitDelete, ..v }, ActionView::Delete(v.deletions[v.deleted]))
    } else {
        (RunView { phase: Phase::Done, ..v }, ActionView::Finished)
    }
}

/// One step of a run: the state and the action after event `e`. A listing
/// is taken in as `listed_origin` or `listed_mirror`, the list sorted newest
/// first (and, for the origin, with bodies filled in).
pub open spec fn step(
    cli: Cli,
    v: RunView,
    e: EventView,
    listed_origin: Seq<ReleaseView>,
    listed_mirror: Seq<ReleaseView>,
) -> (RunView, ActionView) {
    match e {
        EventView::Fetched => if v.phase == Phase::AwaitOrigin {
            (
                RunView { phase: Phase::AwaitMirror, origin: listed_origin, next: 0, ..v },
                ActionView::FetchMirror,
            )
        } else if v.phase == Phase::AwaitMirror {
            let sel = selected_for_sync(cli.ignore_lt_gitee_max_version, listed_mirror, v.origin);
            settle(
                cli,
                RunView {
                    mirror: listed_mirror,
                    origin: sel,
                    next: sel.len() as int,
                    pending: Seq::empty(),
                    asset: 0,
                    ready: Seq::empty(),
                    sent: 0,
                    ..v
                },
            )
        } else {
            after_deletion(
                RunView {
                    mirror: listed_mirror,
                    deletions: pruned_ids(listed_mirror, cli.gitee_retain_release_count as nat),
                    deleted: 0,
                    ..v
                },
            )
        },
        EventView::Created(c) => settle(cli, begin_transfer(v, c)),
        EventView::Updated => settle(
            cli,
            begin_transfer(RunView { awaiting: None, ..v }, v.awaiting->Some_0),
        ),
        EventView::Staged(size) => {
            let a = v.pending[v.asset];
            if staged_matches(a.size, size) {
                settle(cli, RunView { asset: v.asset + 1, ready: v.ready.push(a), ..v })
            } else {
                (
                    RunView { phase: Phase::AwaitDownload, ..v },
                    ActionView::Download {
                        tag: v.origin[v.next].tag_name,
                        asset: a,
                        rewrite: cli.latest_json_url_replace && a.name == UPDATE_MANIFEST@,
                    },
                )
            }
        },
        EventView::Transferred(ok) => if v.phase == Phase::AwaitDownload {
            let a = v.pending[v.asset];
            if ok {
                settle(cli, RunView { asset: v.asset + 1, ready: v.ready.push(a), ..v })
            } else {
                settle(cli, RunView { asset: v.asset + 1, failed: v.failed.push(a.name), ..v })
            }
        } else {
            let a = v.ready[v.sent];
            settle(
                cli,
                RunView {
                    sent: v.sent + 1,
                    failed: if ok {
                        v.failed
                    } else {
                        v.failed.push(a.name)
                    },
                    ..v
                },
            )
        },
        EventView::Deleted => after_deletion(RunView { deleted: v.deleted + 1, ..v }),
    }
}

/// Whether the mirror already holds what a run would make of `origin`: a
/// release of its tag whose name, body and prerelease flag match, with an
/// asset of each origin asset's name.
pub open spec fn in_sync(cli: Cli, origin: ReleaseView, mirror: Seq<ReleaseView>) -> bool {
    match counterpart(mirror, origin.tag_name) {
        Some(m) => !crate::reconcile::differs(cli, origin, m) && forall|i: int|
            0 <= i < origin.assets.len() ==> crate::reconcile::has_asset_named(
                m.assets,
                #[trigger] origin.assets[i].name,
            ),
        None => false,
    }
}

/// A run over releases that the mirror already holds in sync writes and
/// transfers nothing: with no asset in hand, it goes straight to the
/// listing for pruning.
pub proof fn lemma_quiet_when_in_sync(cli: Cli, v: RunView)
    requires
        v.asset >= v.pending.len(),
        v.sent >= v.ready.len(),
        forall|i: int| 0 <= i < v.next ==> in_sync(cli, #[trigger] v.origin[i], v.mirror),
    ensures
        settle(cli, v).1 == ActionView::FetchMirror,
        settle(cli, v).0.phase == Phase::AwaitPruneList,
    decreases v.next,
{
    if v.next > 0 {
        let w = RunView {
            next: v.next - 1,
            pending: Seq::empty(),
            asset: 0,
            ready: Seq::empty(),
            sent: 0,
            ..v
        };
        let o = v.origin[v.next - 1];
        assert(in_sync(cli, o, v.mirror));
        let m = counterpart(v.mirror, o.tag_name)->Some_0;
        crate::reconcile::lemma_nothing_missing(o.assets, m.assets);
        lemma_quiet_when_in_sync(cli, begin_transfer(w, m));
    }
}

/// A run creates a release only for a tag that the mirror does not hold,
/// whatever the ids: the payload carries the tag of the release in hand, and
/// no mirror release has that tag.
pub proof fn lemma_creates_only_absent_tags(cli: Cli, v: RunView)
    ensures
        settle(cli, v).1 matches ActionView::Create(p) ==> {
            let o = v.origin[settle(cli, v).0.next];
            &&& p.tag_name == o.tag_name
            &&& forall|k: int|
                0 <= k < v.mirror.len() ==> #[trigger] v.mirror[k].tag_name != o.tag_name
        },
    decreases 2 * v.next + (if v.asset < v.pending.len() || v.sent < v.ready.len() {
        1int
    } else {
        0int
    }),
{
    if v.asset >= v.pending.len() && v.sent >= v.ready.len() && v.next > 0 {
        let w = RunView {
            next: v.next - 1,
            pending: Seq::empty(),
            asset: 0,
            ready: Seq::empty(),
            sent: 0,
            ..v
        };
        let o = v.origin[v.next - 1];
        match plan(cli, o, counterpart(v.mirror, o.tag_name)) {
            PlanView::Unchanged(m) => {
                lemma_creates_only_absent_tags(cli, begin_transfer(w, m));
            },
            PlanView::Create(p) => {
                assert forall|k: int|
                    0 <= k < v.mirror.len() implies #[trigger] v.mirror[k].tag_name
                    != o.tag_name by {
                    if v.mirror[k].tag_name == o.tag_name {
                        crate::reconcile::lemma_tag_correlation(cli, o, v.mirror, k);
                    }
                }
            },
            _ => {},
        }
    }
}

impl SyncRun {
    /// The bounds that hold between two steps of a run.
    pub open spec fn bounded(&self) -> bool {
        &&& self.next <= self.origin@.len()
        &&& self.asset <= self.pending@.len()
        &&& self.sent <= self.ready@.len()
        &&& self.deleted <= self.deletions@.len()
        &&& (self.asset < self.pending@.len() || self.sent < self.ready@.len()) ==> (self.next
            < self.origin@.len() && self.target is Some)
    }

    /// What holds of a run between two actions.
    pub open spec fn wf(&self) -> bool {
        &&& self.bounded()
        &&& match self.phase {
            Phase::AwaitStaged | Phase::AwaitDownload => self.asset < self.pending@.len(),
            Phase::AwaitUpload => self.sent < self.ready@.len(),
            Phase::AwaitDelete => self.deleted < self.deletions@.len() && self.idle(),
            Phase::AwaitWrite => self.next < self.origin@.len(),
            _ => self.idle(),
        }
    }

    /// No asset is in hand.
    pub open spec fn idle(&self) -> bool {
        self.asset == self.pending@.len() && self.sent == self.ready@.len()
    }

    /// Whether `e` answers the action that the run handed out last.
    pub open spec fn expects(&self, e: &Event) -> bool {
        match (self.phase, e) {
            (Phase::AwaitOrigin, Event::Fetched(_)) => true,
            (Phase::AwaitMirror, Event::Fetched(_)) => true,
            (Phase::AwaitPruneList, Event::Fetched(_)) => true,
            (Phase::AwaitWrite, Event::Created(_)) => self.awaiting is None,
            (Phase::AwaitWrite, Event::Updated) => self.awaiting is Some,
            (Phase::AwaitStaged, Event::Staged(_)) => true,
            (Phase::AwaitDownload, Event::Transferred(_)) => true,
            (Phase::AwaitUpload, Event::Transferred(_)) => true,
            (Phase::AwaitDelete, Event::Deleted) => true,
            _ => false,
        }
    }

    /// Starts a run, unless the configuration is refused; the first action
    /// lists the origin.
    pub fn begin(cli: Cli) -> (r: Result<(SyncRun, Action), ConfigError>)
        ensures
            r is Err <==> !crate::model::valid_counts(
                cli.github_latest_release_count,
                cli.gitee_retain_release_count,
            ),
            r matches Err(e) ==> (e == ConfigError::FetchCountZero
                <==> cli.github_latest_release_count == 0),
            r matches Ok((run, a)) ==> {
                &&& run.wf()
                &&& run.cli == cli
                &&& a@ == ActionView::FetchOrigin
                &&& run@ == RunView {
                    phase: Phase::AwaitOrigin,
                    origin: Seq::empty(),
                    mirror: Seq::empty(),
                    next: 0,
                    awaiting: None,
                    target: None,
                    pending: Seq::empty(),
                    asset: 0,
                    ready: Seq::empty(),
                    sent: 0,
                    failed: Seq::empty(),
                    deletions: Seq::empty(),
                    deleted: 0,
                }
            },
    {
        match check_cli(&cli) {
            Err(e) => Err(e),
            Ok(()) => {
                let run = SyncRun {
                    cli,
                    phase: Phase::AwaitOrigin,
                    origin: Vec::new(),
                    mirror: Vec::new(),
                    next: 0,
                    awaiting: None,
                    target: None,
                    pending: Vec::new(),
                    asset: 0,
                    ready: Vec::new(),
                    sent: 0,
                    failed: Vec::new(),
                    deletions: Vec::new(),
                    deleted: 0,
                };
                assert(release_views(run.origin@) =~= Seq::empty());
                assert(release_views(run.mirror@) =~= Seq::empty());
                assert(asset_views(run.pending@) =~= Seq::empty());
                assert(asset_views(run.ready@) =~= Seq::empty());
                assert(texts(run.failed@) =~= Seq::empty());
                Ok((run, Action::FetchOrigin))
            },
        }
    }

    /// Whether `e` answers the action that the run handed out last.
    pub fn awaits(&self, e: &Event) -> (r: bool)
        ensures
            r == self.expects(e),
    {
        match (&self.phase, e) {
            (Phase::AwaitOrigin, Event::Fetched(_)) => true,
            (Phase::AwaitMirror, Event::Fetched(_)) => true,
            (Phase::AwaitPruneList, Event::Fetched(_)) => true,
            (Phase::AwaitWrite, Event::Created(_)) => self.awaiting.is_none(),
            (Phase::AwaitWrite, Event::Updated) => self.awaiting.is_some(),
            (Phase::AwaitStaged, Event::Staged(_)) => true,
            (Phase::AwaitDownload, Event::Transferred(_)) => true,
            (Phase::AwaitUpload, Event::Transferred(_)) => true,
            (Phase::AwaitDelete, Event::Deleted) => true,
            _ => false,
        }
    }

    /// Takes `target` as the counterpart of the release in hand.
    fn start_transfer(&mut self, target: Release)
        requires
            old(self).next < old(self).origin@.len(),
            old(self).deleted <= old(self).deletions@.len(),
        ensures
            final(self).cli == old(self).cli,
            final(self)@ == begin_transfer(old(self)@, target@),
            final(self).bounded(),
            final(self).origin == old(self).origin,
            final(self).mirror == old(self).mirror,
    {
        self.pending = release_asserts_diff(&self.origin[self.next], &target);
        self.target = Some(target);
        self.asset = 0;
        self.ready = Vec::new();
        self.sent = 0;
        assert(asset_views(self.ready@) =~= Seq::empty());
    }

    /// The next deletion, or the end of the run.
    fn next_deletion(&mut self) -> (r: Action)
        requires
            old(self).bounded(),
            old(self).idle(),
        ensures
            final(self).wf(),
            final(self).cli == old(self).cli,
            (final(self)@, r@) == after_deletion(old(self)@),
    {
        if self.deleted < self.deletions.len() {
            self.phase = Phase::AwaitDelete;
            Action::Delete(self.deletions[self.deleted])
        } else {
            self.phase = Phase::Done;
            Action::Finished
        }
    }

    /// Takes in what came of the last action and hands out the next one.
    pub fn advance(&mut self, event: Event) -> (r: Action)
        requires
            old(self).wf(),
            old(self).expects(&event),
        ensures
            final(self).wf(),
            final(self).cli == old(self).cli,
            (final(self)@, r@) == step(
                old(self).cli,
                old(self)@,
                event@,
                release_views(final(self).origin@),
                release_views(final(self).mirror@),
            ),
            old(self).phase == Phase::AwaitOrigin ==> (event matches Event::Fetched(l)
                && release_views(final(self).origin@).to_multiset() == release_views(
                l@,
            ).map_values(|x: ReleaseView| with_body(x)).to_multiset() && sorted_by_id_desc(
                release_views(final(self).origin@),
            )),
            (old(self).phase == Phase::AwaitMirror || old(self).phase == Phase::AwaitPruneList)
                ==> (event matches Event::Fetched(l) && release_views(
                final(self).mirror@,
            ).to_multiset() == release_views(l@).to_multiset() && sorted_by_id_desc(
                release_views(final(self).mirror@),
            )),
    {
        match event {
            Event::Fetched(list) => {
                if self.phase == Phase::AwaitOrigin {
                    self.origin = github_releases(list);
                    self.next = 0;
                    self.phase = Phase::AwaitMirror;
                    Action::FetchMirror
                } else if self.phase == Phase::AwaitMirror {
                    self.mirror = gitee_releases(list);
                    self.origin = filter_github_releases(&self.cli, &self.mirror, &self.origin);
                    self.next = self.origin.len();
                    self.pending = Vec::new();
                    self.asset = 0;
                    self.ready = Vec::new();
                    self.sent = 0;
                    assert(asset_views(self.pending@) =~= Seq::empty());
                    assert(asset_views(self.ready@) =~= Seq::empty());
                    self.sync_release()
                } else {
                    self.mirror = gitee_releases(list);
                    self.deletions = clean_oldest_gitee_releases(
                        &self.mirror,
                        self.cli.gitee_retain_release_count,
                    );
                    self.deleted = 0;
                    self.next_deletion()
                }
            },
            Event::Created(created) => {
                self.start_transfer(created);
                self.sync_release()
            },
            Event::Updated => {
                let updated = self.awaiting.take().unwrap();
                self.start_transfer(updated);
                self.sync_release()
            },
            Event::Staged(size) => {
                let asset = self.pending[self.asset].copied();
                if needs_download(&asset, size) {
                    let rewrite = is_rewritten_manifest(&self.cli, &asset.name);
                    self.phase = Phase::AwaitDownload;
                    Action::Download { tag: self.origin[self.next].tag_name.clone(), asset, rewrite }
                } else {
                    self.stage_done(asset);
                    self.sync_release()
                }
            },
            Event::Transferred(ok) => {
                if self.phase == Phase::AwaitDownload {
                    let asset = self.pending[self.asset].copied();
                    if ok {
                        self.stage_done(asset);
                    } else {
                        self.give_up(asset.name);
                        let in_hand = self.pending.len();
                        assert(self.asset < in_hand);
                        self.asset = self.asset + 1;
                    }
                } else {
                    if !ok {
                        let name = self.ready[self.sent].name.clone();
                        self.give_up(name);
                    }
                    let staged = self.ready.len();
                    assert(self.sent < staged);
                    self.sent = self.sent + 1;
                }
                self.sync_release()
            },
            Event::Deleted => {
                let planned = self.deletions.len();
                assert(self.deleted < planned);
                self.deleted = self.deleted + 1;
                self.next_deletion()
            },
        }
    }

    /// The asset in hand is staged: it waits for upload.
    fn stage_done(&mut self, asset: Assert)
        requires
            old(self).bounded(),
            old(self).asset < old(self).pending@.len(),
        ensures
            final(self).cli == old(self).cli,
            final(self).bounded(),
            final(self)@ == (RunView {
                asset: old(self)@.asset + 1,
                ready: old(self)@.ready.push(asset@),
                ..old(self)@
            }),
    {
        let ghost before = self.ready@;
        self.ready.push(asset);
        assert(asset_views(self.ready@) =~= asset_views(before).push(asset@));
        let in_hand = self.pending.len();
        assert(self.asset < in_hand);
        self.asset = self.asset + 1;
    }

    /// Records a failed transfer.
    fn give_up(&mut self, name: String)
        ensures
            final(self).cli == old(self).cli,
            final(self)@ == (RunView { failed: old(self)@.failed.push(name@), ..old(self)@ }),
            final(self).phase == old(self).phase,
            final(self).next == old(self).next,
            final(self).origin == old(self).origin,
            final(self).target == old(self).target,
            final(self).pending == old(self).pending,
            final(self).asset == old(self).asset,
            final(self).ready == old(self).ready,
            final(self).sent == old(self).sent,
            final(self).deletions == old(self).deletions,
            final(self).deleted == old(self).deleted,
    {
        let ghost before = self.failed@;
        self.failed.push(name);
        assert(texts(self.failed@) =~= texts(before).push(name@));
    }

    /// Hands out the next action once nothing is awaited: see `settle`.
    fn sync_release(&mut self) -> (r: Action)
        requires
            old(self).bounded(),
        ensures
            final(self).wf(),
            final(self).cli == old(self).cli,
            (final(self)@, r@) == settle(old(self).cli, old(self)@),
            final(self).origin == old(self).origin,
            final(self).mirror == old(self).mirror,
    {
        loop
            invariant
                self.bounded(),
                self.cli == old(self).cli,
                self.origin == old(self).origin,
                self.mirror == old(self).mirror,
                settle(self.cli, self@) == settle(old(self).cli, old(self)@),
            decreases 2 * self.next + (if self.asset < self.pending@.len() || self.sent
                < self.ready@.len() {
                1int
            } else {
                0int
            }),
        {
            let ghost v = self@;
            if self.asset < self.pending.len() {
                self.phase = Phase::AwaitStaged;
                return Action::CheckStaged {
                    tag: self.origin[self.next].tag_name.clone(),
                    asset: self.pending[self.asset].copied(),
                };
            }
            if self.sent < self.ready.len() {
                self.phase = Phase::AwaitUpload;
                return Action::Upload {
                    tag: self.origin[self.next].tag_name.clone(),
                    release_id: self.target.as_ref().unwrap().id,
                    asset_name: self.ready[self.sent].name.clone(),
                };
            }
            if self.next == 0 {
                self.phase = Phase::AwaitPruneList;
                return Action::FetchMirror;
            }
            self.next = self.next - 1;
            self.pending = Vec::new();
            self.asset = 0;
            self.ready = Vec::new();
            self.sent = 0;
            assert(asset_views(self.pending@) =~= Seq::empty());
            assert(asset_views(self.ready@) =~= Seq::empty());
            let found = find_by_tag(&self.mirror, &self.origin[self.next].tag_name);
            proof {
                crate::reconcile::lemma_first_with_tag_in_range(
                    release_views(self.mirror@),
                    self.origin@[self.next as int].tag_name@,
                );
            }
            let action = match found {
                Some(i) => gitee_release_create_or_update(
                    &self.cli,
                    &self.origin[self.next],
                    Some(&self.mirror[i]),
                ),
                None => gitee_release_create_or_update(&self.cli, &self.origin[self.next], None),
            };
            let ghost o = self.origin@[self.next as int]@;
            assert(action@ == plan(self.cli, o, counterpart(release_views(self.mirror@), o.tag_name)));
            match action {
                ReleaseAction::Create(p) => {
                    self.awaiting = None;
                    self.phase = Phase::AwaitWrite;
                    return Action::Create(p);
                },
                ReleaseAction::Update(p) => {
                    self.awaiting = Some(p.copied());
                    self.phase = Phase::AwaitWrite;
                    return Action::Update(p);
                },
                ReleaseAction::Unchanged(m) => {
                    self.start_transfer(m);
                },
            }
        }
    }
}

} // verus!
