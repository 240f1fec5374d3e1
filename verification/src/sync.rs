//! One synchronisation, decision by decision.
//!
//! The caller does the work on the network and on disk; after each piece of
//! work it reports what came of it and is told what to do next.

use crate::archive::{extract, format_of, refused_extension, ArchiveFormat};
use crate::config::Package;
use crate::errors::{ErrorKind, ErrorView};
use crate::github::{latest_release_path, Asset, GithubAPIClient, Release, Request, RequestView};
use crate::hoist::{collides, collision_text, hoist_plan, hoist_steps, FsStep, StepView};
use crate::paths::{join, joined, without_extension};
use crate::promote::{copies, promotions, CopyJob, CopyView};
use crate::select::{first_match, select_asset};
use crate::tree::Entry;
use vstd::prelude::*;

verus! {

/// What the caller reports.
#[derive(Debug, PartialEq, Eq)]
pub enum SyncEvent {
    /// Nothing has been done yet.
    Started,
    /// The release service described the latest release.
    ReleaseFetched { release: Release },
    /// The asset was written to `archive`.
    Downloaded { archive: String },
    /// The archive was unpacked into `directory`.
    Unpacked { directory: String },
    /// `directory` holds `entries`, listed to every depth.
    Listed { directory: String, entries: Vec<Entry> },
    /// The steps that flatten `directory` were carried out.
    Flattened { directory: String },
    /// The top level of `directory` holds `entries`.
    Scanned { directory: String, entries: Vec<Entry> },
    /// Every copy was made.
    Promoted,
    /// The work that was asked for failed.
    Failed { error: ErrorKind },
}

/// What the caller is told to do.
#[derive(Debug, PartialEq, Eq)]
pub enum SyncAction {
    /// Send `request` and read the release from the answer.
    FetchRelease { request: Request },
    /// Send `request` and write the answer's body to `destination`.
    Download { request: Request, destination: String },
    /// Unpack `archive`, which has the format `format`, into `destination`.
    Unpack { archive: String, format: ArchiveFormat, destination: String },
    /// List `directory` to every depth.
    List { directory: String },
    /// Carry out `steps`, whose paths are relative to `directory`.
    Flatten { directory: String, steps: Vec<FsStep> },
    /// List the top level of `directory`, with the permission bits of files.
    Scan { directory: String },
    /// Make the copies `jobs`.
    Promote { jobs: Vec<CopyJob> },
    /// Stop: the synchronisation ended with `outcome`.
    Finish { outcome: Result<(), ErrorKind> },
}

/// A `SyncAction` with its texts as character sequences.
pub enum ActionView {
    FetchRelease { request: RequestView },
    Download { request: RequestView, destination: Seq<char> },
    Unpack { archive: Seq<char>, format: ArchiveFormat, destination: Seq<char> },
    List { directory: Seq<char> },
    Flatten { directory: Seq<char>, steps: Seq<StepView> },
    Scan { directory: Seq<char> },
    Promote { jobs: Seq<CopyView> },
    Finish { outcome: Result<(), ErrorView> },
}

impl DeepView for SyncAction {
    type V = ActionView;

    open spec fn deep_view(&self) -> ActionView {
        match self {
            SyncAction::FetchRelease { request } => ActionView::FetchRelease { request: request@ },
            SyncAction::Download { request, destination } => ActionView::Download {
                request: request@,
                destination: destination@,
            },
            SyncAction::Unpack { archive, format, destination } => ActionView::Unpack {
                archive: archive@,
                format: *format,
                destination: destination@,
            },
            SyncAction::List { directory } => ActionView::List { directory: directory@ },
            SyncAction::Flatten { directory, steps } => ActionView::Flatten {
                directory: directory@,
                steps: steps.deep_view(),
            },
            SyncAction::Scan { directory } => ActionView::Scan { directory: directory@ },
            SyncAction::Promote { jobs } => ActionView::Promote { jobs: jobs.deep_view() },
            SyncAction::Finish { outcome } => ActionView::Finish {
                outcome: match outcome {
                    Ok(_) => Ok(()),
                    Err(error) => Err(error@),
                },
            },
        }
    }
}

/// How far an event is along the pipeline.
pub open spec fn event_stage(event: SyncEvent) -> nat {
    match event {
        SyncEvent::Started => 0,
        SyncEvent::ReleaseFetched { .. } => 1,
        SyncEvent::Downloaded { .. } => 2,
        SyncEvent::Unpacked { .. } => 3,
        SyncEvent::Listed { .. } => 4,
        SyncEvent::Flattened { .. } => 5,
        SyncEvent::Scanned { .. } => 6,
        SyncEvent::Promoted => 7,
        SyncEvent::Failed { .. } => 8,
    }
}

/// How far an action is along the pipeline: the stage of the event that
/// reports its success.
pub open spec fn action_stage(action: ActionView) -> nat {
    match action {
        ActionView::FetchRelease { .. } => 1,
        ActionView::Download { .. } => 2,
        ActionView::Unpack { .. } => 3,
        ActionView::List { .. } => 4,
        ActionView::Flatten { .. } => 5,
        ActionView::Scan { .. } => 6,
        ActionView::Promote { .. } => 7,
        ActionView::Finish { .. } => 8,
    }
}

/// Whether `event` may follow `action`: it reports that the action failed,
/// or that the action was done.
pub open spec fn reports_on(event: SyncEvent, action: ActionView) -> bool {
    !(action is Finish) && (event is Failed || event_stage(event) == action_stage(action))
}

/// Synchronises packages: it knows the release service, the directory for
/// downloads and the directory for executables.
#[derive(Debug, Clone, PartialEq, Eq)]
pub struct Downloader {
    api: GithubAPIClient,
    download_path: String,
    bin_path: String,
}

impl Downloader {
    /// The client that builds the requests.
    pub closed spec fn api(&self) -> GithubAPIClient {
        self.api
    }

    /// The directory that receives archives and what is unpacked from them.
    pub closed spec fn download_dir(&self) -> Seq<char> {
        self.download_path@
    }

    /// The directory that executables are installed into.
    pub closed spec fn bin_dir(&self) -> Seq<char> {
        self.bin_path@
    }

    /// The download of `asset`: the request for its bytes, and the file
    /// named like the asset in the download directory.
    pub open spec fn download_of(&self, asset: Asset) -> ActionView {
        ActionView::Download {
            request: RequestView {
                url: asset.browser_download_url@,
                accept: "application/octet-stream"@,
                authorization: self.api().bearer(),
            },
            destination: joined(self.download_dir(), asset.name@),
        }
    }

    /// What is to be done after `event` in the synchronisation of
    /// `package`.
    pub open spec fn decided(&self, package: Package, event: SyncEvent) -> ActionView {
        match event {
            SyncEvent::Started => ActionView::FetchRelease {
                request: RequestView {
                    url: self.api().base_url() + latest_release_path(package.user@, package.repo@),
                    accept: "application/vnd.github+json"@,
                    authorization: self.api().bearer(),
                },
            },
            SyncEvent::ReleaseFetched { release } => match first_match(
                release.assets@,
                package.name@,
            ) {
                Some(at) => self.download_of(release.assets@[at]),
                None => ActionView::Finish {
                    outcome: Err(ErrorView::NoMatchingPattern(package.name@)),
                },
            },
            SyncEvent::Downloaded { archive } => match format_of(archive@) {
                Some(format) => ActionView::Unpack {
                    archive: archive@,
                    format,
                    destination: without_extension(archive@),
                },
                None => ActionView::Finish {
                    outcome: Err(ErrorView::UnsupportedFormat(refused_extension(archive@))),
                },
            },
            SyncEvent::Unpacked { directory } => ActionView::List { directory: directory@ },
            SyncEvent::Listed { directory, entries } => if collides(entries@) {
                ActionView::Finish {
                    outcome: Err(ErrorView::IO(collision_text())),
                }
            } else {
                ActionView::Flatten { directory: directory@, steps: hoist_steps(entries@) }
            },
            SyncEvent::Flattened { directory } => ActionView::Scan { directory: directory@ },
            SyncEvent::Scanned { directory, entries } => ActionView::Promote {
                jobs: copies(directory@, self.bin_dir(), entries@),
            },
            SyncEvent::Promoted => ActionView::Finish { outcome: Ok(()) },
            SyncEvent::Failed { error } => ActionView::Finish { outcome: Err(error@) },
        }
    }

    /// A downloader that presents `github_pat` to the release service,
    /// keeps archives in `download_path` and installs into `bin_path`.
    pub fn new(github_pat: &String, download_path: &str, bin_path: &str) -> (downloader: Self)
        ensures
            downloader.api().base_url() == "https://api.github.com"@,
            downloader.api().bearer() == "Bearer "@ + github_pat@,
            downloader.download_dir() == download_path@,
            downloader.bin_dir() == bin_path@,
    {
        Self {
            api: GithubAPIClient::new(github_pat.as_str()),
            download_path: download_path.to_string(),
            bin_path: bin_path.to_string(),
        }
    }

    /// The copies that install the executables among `entries`, the top
    /// level of the directory `src`, into the directory for executables.
    pub fn copy_exec_all(&self, src: &str, entries: &Vec<Entry>) -> (jobs: Vec<CopyJob>)
        ensures
            jobs.deep_view() == copies(src@, self.bin_dir(), entries@),
    {
        promotions(src, self.bin_path.as_str(), entries)
    }

    /// The download of `asset` into the download directory, under the
    /// asset's own name.
    pub fn download_asset(&self, asset: &Asset) -> (action: SyncAction)
        ensures
            action.deep_view() == self.download_of(*asset),
    {
        SyncAction::Download {
            request: self.api.download_asset(asset),
            destination: join(self.download_path.as_str(), asset.name.as_str()),
        }
    }

    /// Picks from `release` the asset that `package` asks for: the first,
    /// in the order of the release, whose name ends with the package's
    /// suffix. Where none does, the suffix comes back in the error.
    pub fn check_release(&self, release: Release, package: &Package) -> (picked: Result<
        Asset,
        ErrorKind,
    >)
        ensures
            match first_match(release.assets@, package.name@) {
                Some(at) => picked == Ok::<Asset, ErrorKind>(release.assets@[at]),
                None => picked == Err::<Asset, ErrorKind>(
                    ErrorKind::NoMatchingPattern(package.name),
                ),
            },
    {
        let mut assets = release.into_assets();
        match select_asset(&assets, package.name.as_str()) {
            Some(at) => Ok(assets.remove(at)),
            None => Err(ErrorKind::NoMatchingPattern(package.name.clone())),
        }
    }

    /// Decides the next step of the synchronisation of `package` from what
    /// the last step came to.
    ///
    /// The steps follow one another in a fixed order: fetch the latest
    /// release, download the asset that the package asks for, unpack it,
    /// list what was unpacked, flatten it, scan its top level, install the
    /// executables found there. A failure that is reported ends the
    /// synchronisation with that failure, and so does a release without a
    /// fitting asset, an archive of unknown format and a wrapper that
    /// collides with its own contents. Nothing is tried twice.
    pub fn sync(&self, package: &Package, event: SyncEvent) -> (action: SyncAction)
        ensures
            action.deep_view() == self.decided(*package, event),
    {
        match event {
            SyncEvent::Started => SyncAction::FetchRelease {
                request: self.api.get_the_latest_release(
                    package.user.as_str(),
                    package.repo.as_str(),
                ),
            },
            SyncEvent::ReleaseFetched { release } => match self.check_release(release, package) {
                Ok(asset) => self.download_asset(&asset),
                Err(error) => SyncAction::Finish { outcome: Err(error) },
            },
            SyncEvent::Downloaded { archive } => match extract(archive.as_str()) {
                Ok(extraction) => SyncAction::Unpack {
                    archive,
                    format: extraction.format,
                    destination: extraction.destination,
                },
                Err(error) => SyncAction::Finish { outcome: Err(error) },
            },
            SyncEvent::Unpacked { directory } => SyncAction::List { directory },
            SyncEvent::Listed { directory, entries } => match hoist_plan(&entries) {
                Ok(steps) => SyncAction::Flatten { directory, steps },
                Err(error) => SyncAction::Finish { outcome: Err(error) },
            },
            SyncEvent::Flattened { directory } => SyncAction::Scan { directory },
            SyncEvent::Scanned { directory, entries } => SyncAction::Promote {
                jobs: self.copy_exec_all(directory.as_str(), &entries),
            },
            SyncEvent::Promoted => SyncAction::Finish { outcome: Ok(()) },
            SyncEvent::Failed { error } => SyncAction::Finish { outcome: Err(error) },
        }
    }

    /// A failure that is reported ends the synchronisation, and comes back
    /// as it was reported.
    pub proof fn lemma_failure_ends(&self, package: Package, error: ErrorKind)
        ensures
            self.decided(package, SyncEvent::Failed { error }) == (ActionView::Finish {
                outcome: Err(error@),
            }),
    {
    }

    /// The synchronisation ends well only after the last step: success is
    /// declared for the report that every copy was made and for no other.
    pub proof fn lemma_success_only_at_the_end(&self, package: Package, event: SyncEvent)
        ensures
            self.decided(package, event) == (ActionView::Finish { outcome: Ok(()) }) <==> event
                is Promoted,
    {
    }

    /// No step is skipped or repeated: what is decided after an event is
    /// the step that follows it in the pipeline, or the end.
    pub proof fn lemma_one_stage_at_a_time(&self, package: Package, event: SyncEvent)
        ensures
            self.decided(package, event) is Finish || action_stage(self.decided(package, event))
                == event_stage(event) + 1,
    {
    }

    /// Every decision brings the end nearer: whatever is reported on an
    /// action, the next action is the end or lies one stage further along,
    /// so that a synchronisation never takes more than eight decisions.
    pub proof fn lemma_progress(&self, package: Package, action: ActionView, event: SyncEvent)
        requires
            reports_on(event, action),
        ensures
            self.decided(package, event) is Finish || action_stage(self.decided(package, event))
                == action_stage(action) + 1,
            action_stage(self.decided(package, event)) <= 8,
    {
    }
}

} // verus!
