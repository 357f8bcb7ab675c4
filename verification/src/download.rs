//! The fetching of a model's files, one after the other.
use crate::lists::{law_leading, leading};
use crate::model::InfoView;
use vstd::prelude::*;

verus! {

/// What a repository of the hub holds.
#[derive(Debug, Clone, Copy, PartialEq, Eq, Structural)]
pub enum RepoKind {
    Model,
    Dataset,
    Space,
}

/// A file to fetch, and what to report where it cannot be fetched.
pub struct FileRequest {
    pub path: String,
    pub failure: String,
}

/// A `FileRequest` with texts for strings.
pub struct FileView {
    pub path: Seq<char>,
    pub failure: Seq<char>,
}

impl View for FileRequest {
    type V = FileView;

    open spec fn view(&self) -> FileView {
        FileView { path: self.path@, failure: self.failure@ }
    }
}

/// What to fetch, in order, from where, and into which cache.
pub struct DownloadPlan {
    pub cache: String,
    pub endpoint: String,
    pub repo_kind: RepoKind,
    pub repo_id: String,
    pub revision: String,
    pub files: Vec<FileRequest>,
}

/// A `DownloadPlan` with texts for strings.
#[verifier::ext_equal]
pub struct DownloadView {
    pub cache: Seq<char>,
    pub endpoint: Seq<char>,
    pub repo_kind: RepoKind,
    pub repo_id: Seq<char>,
    pub revision: Seq<char>,
    pub files: Seq<FileView>,
}

impl View for DownloadPlan {
    type V = DownloadView;

    open spec fn view(&self) -> DownloadView {
        DownloadView {
            cache: self.cache@,
            endpoint: self.endpoint@,
            repo_kind: self.repo_kind,
            repo_id: self.repo_id@,
            revision: self.revision@,
            files: self.files@.map_values(|f: FileRequest| f@),
        }
    }
}

/// The files to fetch for a model into a cache: from the mirror, out of the model's repository, at
/// the model's revision.
pub open spec fn download_of(info: InfoView, cache: Seq<char>) -> DownloadView {
    DownloadView {
        cache,
        endpoint: "https://hf-mirror.com"@,
        repo_kind: RepoKind::Model,
        repo_id: info.id,
        revision: info.revision,
        files: seq![
            FileView { path: info.onnx_file, failure: "Failed to download onnx file"@ },
            FileView { path: info.config_file, failure: "Failed to download config file"@ },
            FileView { path: info.tokenizer_file, failure: "Failed to download tokenizer file"@ },
            FileView {
                path: info.special_tokens_map_file,
                failure: "Failed to download special tokens map file"@,
            },
            FileView {
                path: info.tokenizer_config_file,
                failure: "Failed to download tokenizer config file"@,
            },
        ],
    }
}

/// A plan shows what it holds.
pub proof fn law_download_plan_in_view(plan: DownloadPlan)
    ensures
        plan@.cache == plan.cache@,
        plan@.endpoint == plan.endpoint@,
        plan@.repo_kind == plan.repo_kind,
        plan@.repo_id == plan.repo_id@,
        plan@.revision == plan.revision@,
        plan@.files.len() == plan.files.len(),
        forall|i: int|
            0 <= i < plan.files.len() ==> (#[trigger] plan@.files[i]).path == plan.files@[i].path@
                && plan@.files[i].failure == plan.files@[i].failure@,
{
}

/// Each of a model's five files is fetched, whatever it is called, with the weights first and
/// with a message of its own.
pub proof fn law_every_file_is_fetched(info: InfoView, cache: Seq<char>)
    ensures
        ({
            let files = download_of(info, cache).files;
            &&& files.len() == 5
            &&& files[0].path == info.onnx_file
            &&& files[0].failure == "Failed to download onnx file"@
            &&& files[1].path == info.config_file
            &&& files[1].failure == "Failed to download config file"@
            &&& files[2].path == info.tokenizer_file
            &&& files[2].failure == "Failed to download tokenizer file"@
            &&& files[3].path == info.special_tokens_map_file
            &&& files[3].failure == "Failed to download special tokens map file"@
            &&& files[4].path == info.tokenizer_config_file
            &&& files[4].failure == "Failed to download tokenizer config file"@
        }),
{
}

/// Tells whether two plans are the same.
pub(crate) fn same_download(a: &DownloadPlan, b: &DownloadPlan) -> (same: bool)
    ensures
        same == (a@ == b@),
{
    if a.cache != b.cache || a.endpoint != b.endpoint || a.repo_kind != b.repo_kind || a.repo_id
        != b.repo_id || a.revision != b.revision || a.files.len() != b.files.len() {
        assert(a@.files.len() == a.files.len() && b@.files.len() == b.files.len());
        return false;
    }
    let mut i: usize = 0;
    while i < a.files.len()
        invariant
            i <= a.files.len(),
            a.files.len() == b.files.len(),
            a@.files.take(i as int) == b@.files.take(i as int),
        decreases a.files.len() - i,
    {
        assert(a@.files[i as int] == a.files@[i as int]@);
        assert(b@.files[i as int] == b.files@[i as int]@);
        if a.files[i].path != b.files[i].path || a.files[i].failure != b.files[i].failure {
            return false;
        }
        assert(a@.files.take(i + 1) =~= a@.files.take(i as int).push(a@.files[i as int]));
        assert(b@.files.take(i + 1) =~= b@.files.take(i as int).push(b@.files[i as int]));
        i += 1;
    }
    assert(a@.files.take(i as int) =~= a@.files);
    assert(b@.files.take(i as int) =~= b@.files);
    assert(a@ =~= b@);
    true
}

/// Where the fetching of files stands.
pub enum DownloadStageView {
    /// The pending files are to be fetched.
    Fetching { pending: Seq<FileView> },
    /// Every file was fetched.
    Complete,
    /// A file could not be fetched.
    Failed { failure: Seq<char> },
}

/// The fetching of files in progress.
pub struct DownloadingView {
    pub plan: DownloadView,
    pub stage: DownloadStageView,
}

/// The stage in which the given files are still to be fetched.
pub open spec fn fetching(pending: Seq<FileView>) -> DownloadStageView {
    if pending.len() == 0 {
        DownloadStageView::Complete
    } else {
        DownloadStageView::Fetching { pending }
    }
}

/// The fetching of files before anything was done.
pub open spec fn download_start(plan: DownloadView) -> DownloadingView {
    DownloadingView { plan, stage: fetching(plan.files) }
}

impl DownloadingView {
    /// Takes the answer whether the file in question was fetched. After the end it changes
    /// nothing.
    pub open spec fn answered(self, fetched: bool) -> DownloadingView {
        match self.stage {
            DownloadStageView::Fetching { pending } => DownloadingView {
                stage: if fetched {
                    fetching(pending.drop_first())
                } else {
                    DownloadStageView::Failed { failure: pending.first().failure }
                },
                ..self
            },
            _ => self,
        }
    }

    /// How many files are pending.
    pub open spec fn steps_left(self) -> nat {
        match self.stage {
            DownloadStageView::Fetching { pending } => pending.len(),
            _ => 0,
        }
    }

    /// Whether there is a file to fetch while files are fetched.
    pub open spec fn well_formed(self) -> bool {
        self.stage matches DownloadStageView::Fetching { pending } ==> pending.len() > 0
    }

    /// What is left when every question is answered from one repository, of which the paths of the
    /// available files are given.
    pub open spec fn driven(self, available: Set<Seq<char>>) -> DownloadingView
        decreases self.steps_left(),
        when self.well_formed()
    {
        match self.stage {
            DownloadStageView::Fetching { pending } => self.answered(
                available.contains(pending.first().path),
            ).driven(available),
            _ => self,
        }
    }

    /// The paths that are asked for, in order, when each question is answered from one repository.
    pub open spec fn asked(self, available: Set<Seq<char>>) -> Seq<Seq<char>>
        decreases self.steps_left(),
        when self.well_formed()
    {
        match self.stage {
            DownloadStageView::Fetching { pending } => seq![pending.first().path] + self.answered(
                available.contains(pending.first().path),
            ).asked(available),
            _ => Seq::empty(),
        }
    }
}

/// How many files of a list are available before one is not.
pub open spec fn available_count(files: Seq<FileView>, available: Set<Seq<char>>) -> nat {
    leading(files, |file: FileView| available.contains(file.path))
}

/// The paths of files.
pub open spec fn file_paths(files: Seq<FileView>) -> Seq<Seq<char>> {
    files.map_values(|file: FileView| file.path)
}

/// The paths that are asked for: all of them, or those up to the first file that is not available.
pub open spec fn download_questions(files: Seq<FileView>, available: Set<Seq<char>>) -> Seq<
    Seq<char>,
> {
    let n = available_count(files, available) as int;
    if n < files.len() {
        file_paths(files.take(n + 1))
    } else {
        file_paths(files)
    }
}

/// How the fetching of files ends: with the message of the first that is not available, if there
/// is one.
pub open spec fn download_end(
    files: Seq<FileView>,
    available: Set<Seq<char>>,
) -> DownloadStageView {
    let n = available_count(files, available) as int;
    if n < files.len() {
        DownloadStageView::Failed { failure: files[n].failure }
    } else {
        DownloadStageView::Complete
    }
}

proof fn lemma_fetching(plan: DownloadView, pending: Seq<FileView>, available: Set<Seq<char>>)
    ensures
        ({
            let state = DownloadingView { plan, stage: fetching(pending) };
            &&& state.driven(available) == (DownloadingView {
                plan,
                stage: download_end(pending, available),
            })
            &&& state.asked(available) == download_questions(pending, available)
        }),
    decreases pending.len(),
{
    let state = DownloadingView { plan, stage: fetching(pending) };
    law_leading(pending, |file: FileView| available.contains(file.path));
    if pending.len() == 0 {
        assert(download_questions(pending, available) =~= Seq::empty());
    } else {
        let first = pending.first();
        let rest = pending.drop_first();
        let next = state.answered(available.contains(first.path));
        if available.contains(first.path) {
            lemma_fetching(plan, rest, available);
            let n = available_count(pending, available) as int;
            assert(n == 1 + available_count(rest, available));
            if n < pending.len() {
                assert(rest[n - 1] == pending[n]);
            }
            assert(download_questions(pending, available) =~= seq![first.path]
                + download_questions(rest, available));
        } else {
            assert(next.driven(available) == next);
            assert(next.asked(available) =~= Seq::empty());
            assert(state.asked(available) =~= seq![first.path]);
            assert(download_questions(pending, available) =~= seq![first.path]);
        }
    }
}

/// Answering every question from one repository fetches the files in order, each once, and stops
/// at the first that is not available, with the message of that file. The plan stays, so every
/// file is asked for at one place and kept in one cache.
pub proof fn law_download_in_order(plan: DownloadView, available: Set<Seq<char>>)
    ensures
        download_start(plan).asked(available) == download_questions(plan.files, available),
        download_start(plan).driven(available) == (DownloadingView {
            plan,
            stage: download_end(plan.files, available),
        }),
{
    lemma_fetching(plan, plan.files, available);
}

/// The fetching of files is complete exactly where every file is available.
pub proof fn law_download_completes(plan: DownloadView, available: Set<Seq<char>>)
    ensures
        download_start(plan).driven(available).stage == DownloadStageView::Complete <==> (forall|
            i: int,
        |
            0 <= i < plan.files.len() ==> available.contains((#[trigger] plan.files[i]).path)),
{
    law_download_in_order(plan, available);
    law_leading(plan.files, |file: FileView| available.contains(file.path));
    let n = available_count(plan.files, available) as int;
    if n < plan.files.len() {
        assert(!available.contains(plan.files[n].path));
    }
}

/// A file that is not available ends the fetching with its own message, after every file in front
/// of it was asked for in order, and without any behind it being asked for.
pub proof fn law_missing_file_ends_download(
    plan: DownloadView,
    available: Set<Seq<char>>,
    bad: int,
)
    requires
        0 <= bad < plan.files.len(),
        !available.contains(plan.files[bad].path),
        forall|i: int| 0 <= i < bad ==> available.contains((#[trigger] plan.files[i]).path),
    ensures
        download_start(plan).asked(available).len() == bad + 1,
        forall|i: int|
            0 <= i <= bad ==> #[trigger] download_start(plan).asked(available)[i]
                == plan.files[i].path,
        download_start(plan).driven(available).plan == plan,
        download_start(plan).driven(available).stage == (DownloadStageView::Failed {
            failure: plan.files[bad].failure,
        }),
{
    let good = |file: FileView| available.contains(file.path);
    law_download_in_order(plan, available);
    law_leading(plan.files, good);
    let n = available_count(plan.files, available) as int;
    if n < bad {
        assert(available.contains(plan.files[n].path));
    } else if n > bad {
        assert(good(plan.files[bad]));
    }
    assert(n == bad);
}

/// Where every file is available, each is asked for once, in order.
pub proof fn law_available_files_are_fetched(plan: DownloadView, available: Set<Seq<char>>)
    requires
        forall|i: int|
            0 <= i < plan.files.len() ==> available.contains((#[trigger] plan.files[i]).path),
    ensures
        download_start(plan).asked(available).len() == plan.files.len(),
        forall|i: int|
            0 <= i < plan.files.len() ==> #[trigger] download_start(plan).asked(available)[i]
                == plan.files[i].path,
        download_start(plan).driven(available).plan == plan,
        download_start(plan).driven(available).stage == DownloadStageView::Complete,
{
    law_download_in_order(plan, available);
    law_download_completes(plan, available);
}

/// An answer after the end changes nothing, and none changes the plan.
pub proof fn law_download_answer(state: DownloadingView, fetched: bool)
    ensures
        !(state.stage is Fetching) ==> state.answered(fetched) == state,
        state.answered(fetched).plan == state.plan,
{
}

/// How the fetching of files ended.
pub enum DownloadEnd {
    /// Every file was fetched.
    Complete,
    /// A file could not be fetched; this is to be reported.
    Failed(String),
}

/// What to do next to fetch files.
pub enum DownloadAction {
    /// Fetch the file with this path.
    Fetch(String),
    /// Stop.
    Stop(DownloadEnd),
}

enum DownloadStage {
    Fetching(usize),
    Complete,
    Failed(usize),
}

/// The fetching of files.
pub struct Download {
    plan: DownloadPlan,
    stage: DownloadStage,
}

impl View for Download {
    type V = DownloadingView;

    closed spec fn view(&self) -> DownloadingView {
        DownloadingView {
            plan: self.plan@,
            stage: match self.stage {
                DownloadStage::Fetching(next) => DownloadStageView::Fetching {
                    pending: self.plan@.files.skip(next as int),
                },
                DownloadStage::Complete => DownloadStageView::Complete,
                DownloadStage::Failed(at) => DownloadStageView::Failed {
                    failure: self.plan@.files[at as int].failure,
                },
            },
        }
    }
}

impl Download {
    #[verifier::type_invariant]
    spec fn in_range(self) -> bool {
        match self.stage {
            DownloadStage::Fetching(next) => next < self.plan.files.len(),
            DownloadStage::Complete => true,
            DownloadStage::Failed(at) => at < self.plan.files.len(),
        }
    }

    /// Begins the fetching of files.
    pub fn begin(plan: DownloadPlan) -> (download: Self)
        ensures
            download@ == download_start(plan@),
    {
        assert(plan@.files.skip(0) =~= plan@.files);
        let stage = if plan.files.len() == 0 {
            DownloadStage::Complete
        } else {
            DownloadStage::Fetching(0)
        };
        Download { plan, stage }
    }

    /// The plan that is followed.
    pub fn plan(&self) -> (plan: &DownloadPlan)
        ensures
            plan@ == self@.plan,
    {
        &self.plan
    }

    /// What to do next.
    pub fn action(&self) -> (action: DownloadAction)
        ensures
            match (action, self@.stage) {
                (DownloadAction::Fetch(path), DownloadStageView::Fetching { pending }) => {
                    pending.len() > 0 && path@ == pending.first().path
                },
                (
                    DownloadAction::Stop(DownloadEnd::Complete),
                    DownloadStageView::Complete,
                ) => true,
                (
                    DownloadAction::Stop(DownloadEnd::Failed(message)),
                    DownloadStageView::Failed { failure },
                ) => message@ == failure,
                _ => false,
            },
    {
        proof {
            use_type_invariant(self);
        }
        match &self.stage {
            DownloadStage::Fetching(next) => DownloadAction::Fetch(
                self.plan.files[*next].path.clone(),
            ),
            DownloadStage::Complete => DownloadAction::Stop(DownloadEnd::Complete),
            DownloadStage::Failed(at) => DownloadAction::Stop(
                DownloadEnd::Failed(self.plan.files[*at].failure.clone()),
            ),
        }
    }

    /// Takes the answer whether the file was fetched. After the end it changes nothing.
    pub fn step(self, fetched: bool) -> (after: Self)
        ensures
            after@ == self@.answered(fetched),
    {
        proof {
            use_type_invariant(&self);
        }
        let Download { plan, stage } = self;
        let stage = match stage {
            DownloadStage::Fetching(next) => {
                assert(plan@.files.skip(next as int).drop_first() =~= plan@.files.skip(next + 1));
                if !fetched {
                    DownloadStage::Failed(next)
                } else if next + 1 == plan.files.len() {
                    DownloadStage::Complete
                } else {
                    DownloadStage::Fetching(next + 1)
                }
            },
            stage => stage,
        };
        Download { plan, stage }
    }

    /// Tells whether every file was fetched.
    pub(crate) fn is_complete(&self) -> (yes: bool)
        ensures
            yes == (self@.stage == DownloadStageView::Complete),
    {
        match &self.stage {
            DownloadStage::Complete => true,
            _ => false,
        }
    }
}

} // verus!
