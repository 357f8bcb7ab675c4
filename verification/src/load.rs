//! The building of a model, step by step: its files, then the execution providers, then the
//! session.
use crate::download::{download_of, file_paths};
use crate::lists::{law_leading, leading};
use crate::model::{snapshot_path, InfoView, Pooling, QuantizationMode};
use crate::paths::path_join;
use crate::providers::ExecutionMode;
use crate::text::{opt_string, opt_text};
use vstd::prelude::*;

verus! {

/// How to build a model: the files to read, in the order of the fields, and the options of the
/// session.
pub struct LoadPlan {
    pub onnx_file: String,
    pub tokenizer_file: String,
    pub config_file: String,
    pub special_tokens_map_file: String,
    pub tokenizer_config_file: String,
    pub execution_mode: ExecutionMode,
    pub parallel_execution: bool,
    pub profiling_output: Option<String>,
    pub pooling: Pooling,
    pub quantization: QuantizationMode,
}

/// What a file of a model holds.
#[derive(Debug, Clone, Copy, PartialEq, Eq, Structural)]
pub enum ModelFile {
    Onnx,
    Tokenizer,
    Config,
    SpecialTokensMap,
    TokenizerConfig,
}

/// A file to read: what it holds, and where it is.
pub struct ReadView {
    pub file: ModelFile,
    pub path: Seq<char>,
}

/// A `LoadPlan` with texts for strings; `reads` are the files in the order in which they are read.
#[verifier::ext_equal]
pub struct LoadView {
    pub reads: Seq<ReadView>,
    pub execution_mode: ExecutionMode,
    pub parallel_execution: bool,
    pub profiling_output: Option<Seq<char>>,
    pub pooling: Pooling,
    pub quantization: QuantizationMode,
}

impl View for LoadPlan {
    type V = LoadView;

    open spec fn view(&self) -> LoadView {
        LoadView {
            reads: seq![
                ReadView { file: ModelFile::Onnx, path: self.onnx_file@ },
                ReadView { file: ModelFile::Tokenizer, path: self.tokenizer_file@ },
                ReadView { file: ModelFile::Config, path: self.config_file@ },
                ReadView {
                    file: ModelFile::SpecialTokensMap,
                    path: self.special_tokens_map_file@,
                },
                ReadView { file: ModelFile::TokenizerConfig, path: self.tokenizer_config_file@ },
            ],
            execution_mode: self.execution_mode,
            parallel_execution: self.parallel_execution,
            profiling_output: opt_string(self.profiling_output),
            pooling: self.pooling,
            quantization: self.quantization,
        }
    }
}

/// How a model is built from the files under a directory. The session is told that the weights
/// are statically quantized, whatever they are: a dynamically quantized model is refused where it
/// embeds its texts in batches.
pub open spec fn load_of(
    info: InfoView,
    dir: Seq<char>,
    mode: ExecutionMode,
    profiling_output: Option<Seq<char>>,
) -> LoadView {
    LoadView {
        reads: seq![
            ReadView { file: ModelFile::Onnx, path: path_join(dir, info.onnx_file) },
            ReadView { file: ModelFile::Tokenizer, path: path_join(dir, info.tokenizer_file) },
            ReadView { file: ModelFile::Config, path: path_join(dir, info.config_file) },
            ReadView {
                file: ModelFile::SpecialTokensMap,
                path: path_join(dir, info.special_tokens_map_file),
            },
            ReadView {
                file: ModelFile::TokenizerConfig,
                path: path_join(dir, info.tokenizer_config_file),
            },
        ],
        execution_mode: mode,
        parallel_execution: false,
        profiling_output,
        pooling: info.pooling,
        quantization: QuantizationMode::Static,
    }
}

/// A plan shows its files in the order of its fields, each for what it holds, and its options as
/// they are.
pub proof fn law_load_plan_in_view(plan: LoadPlan)
    ensures
        plan@.reads.len() == 5,
        plan@.reads[0] == (ReadView { file: ModelFile::Onnx, path: plan.onnx_file@ }),
        plan@.reads[1] == (ReadView { file: ModelFile::Tokenizer, path: plan.tokenizer_file@ }),
        plan@.reads[2] == (ReadView { file: ModelFile::Config, path: plan.config_file@ }),
        plan@.reads[3] == (ReadView {
            file: ModelFile::SpecialTokensMap,
            path: plan.special_tokens_map_file@,
        }),
        plan@.reads[4] == (ReadView {
            file: ModelFile::TokenizerConfig,
            path: plan.tokenizer_config_file@,
        }),
        plan@.execution_mode == plan.execution_mode,
        plan@.parallel_execution == plan.parallel_execution,
        plan@.profiling_output == opt_string(plan.profiling_output),
        plan@.pooling == plan.pooling,
        plan@.quantization == plan.quantization,
{
}

/// A model is built as it was asked for: for the mode, the profile and the pooling that are given,
/// whatever they are, with its operators run in sequence and its weights taken as statically
/// quantized; and from each of its five files, under the directory.
pub proof fn law_model_is_built_as_asked(
    info: InfoView,
    dir: Seq<char>,
    mode: ExecutionMode,
    profiling_output: Option<Seq<char>>,
)
    ensures
        ({
            let plan = load_of(info, dir, mode, profiling_output);
            let read = |file: ModelFile, name: Seq<char>|
                ReadView { file, path: path_join(dir, name) };
            &&& plan.execution_mode == mode
            &&& plan.profiling_output == profiling_output
            &&& plan.pooling == info.pooling
            &&& plan.quantization == QuantizationMode::Static
            &&& !plan.parallel_execution
            &&& plan.reads.len() == 5
            &&& plan.reads[0] == read(ModelFile::Onnx, info.onnx_file)
            &&& plan.reads[1] == read(ModelFile::Tokenizer, info.tokenizer_file)
            &&& plan.reads[2] == read(ModelFile::Config, info.config_file)
            &&& plan.reads[3] == read(ModelFile::SpecialTokensMap, info.special_tokens_map_file)
            &&& plan.reads[4] == read(ModelFile::TokenizerConfig, info.tokenizer_config_file)
        }),
{
}

/// The paths of files to read.
pub open spec fn read_paths(reads: Seq<ReadView>) -> Seq<Seq<char>> {
    reads.map_values(|read: ReadView| read.path)
}

/// The files that are read to build a model are the ones that are fetched for it, each taken from
/// the folder of the fetched revision, below the cache that it was fetched into.
pub proof fn law_reads_what_is_fetched(
    info: InfoView,
    cache: Seq<char>,
    mode: ExecutionMode,
    profiling_output: Option<Seq<char>>,
)
    ensures
        ({
            let fetched = download_of(info, cache);
            let dir = path_join(fetched.cache, snapshot_path(fetched.repo_id, fetched.revision));
            file_paths(fetched.files).map_values(
                |path: Seq<char>| path_join(dir, path),
            ).to_multiset() == read_paths(
                load_of(info, dir, mode, profiling_output).reads,
            ).to_multiset()
        }),
{
    broadcast use vstd::seq_lib::group_to_multiset_ensures;

    let dir = path_join(cache, snapshot_path(info.id, info.revision));
    let fetched = file_paths(download_of(info, cache).files).map_values(
        |path: Seq<char>| path_join(dir, path),
    );
    let reads = read_paths(load_of(info, dir, mode, profiling_output).reads);
    let (a, b, c, d, e) = (reads[0], reads[1], reads[2], reads[3], reads[4]);
    let none = Seq::<Seq<char>>::empty();
    assert(fetched =~= none.push(a).push(c).push(b).push(d).push(e));
    assert(reads =~= none.push(a).push(b).push(c).push(d).push(e));
    assert(fetched.to_multiset() =~= reads.to_multiset());
}

/// Tells whether two optional strings hold the same text.
fn same_option(a: &Option<String>, b: &Option<String>) -> (same: bool)
    ensures
        same == (opt_string(*a) == opt_string(*b)),
{
    match (a, b) {
        (Some(a), Some(b)) => *a == *b,
        (None, None) => true,
        _ => false,
    }
}

/// Tells whether two plans are the same.
pub(crate) fn same_load(a: &LoadPlan, b: &LoadPlan) -> (same: bool)
    ensures
        same == (a@ == b@),
{
    let same = a.onnx_file == b.onnx_file && a.tokenizer_file == b.tokenizer_file && a.config_file
        == b.config_file && a.special_tokens_map_file == b.special_tokens_map_file
        && a.tokenizer_config_file == b.tokenizer_config_file && a.execution_mode
        == b.execution_mode && a.parallel_execution == b.parallel_execution && same_option(
        &a.profiling_output,
        &b.profiling_output,
    ) && a.pooling == b.pooling && a.quantization == b.quantization;
    proof {
        if a@ == b@ {
            assert(a@.reads[0] == b@.reads[0]);
            assert(a@.reads[1] == b@.reads[1]);
            assert(a@.reads[2] == b@.reads[2]);
            assert(a@.reads[3] == b@.reads[3]);
            assert(a@.reads[4] == b@.reads[4]);
        }
    }
    same
}

/// How the building of a model ended.
#[derive(Debug, Clone, Copy, PartialEq, Eq, Structural)]
pub enum LoadEnd {
    /// The model is built.
    Complete,
    /// A file could not be read.
    Unreadable,
    /// A provider that was asked for by name is missing.
    ProviderMissing,
    /// The session could not be made.
    Refused,
}

impl LoadEnd {
    /// What is reported in front of the cause, if anything is.
    pub open spec fn text(self) -> Option<Seq<char>> {
        match self {
            LoadEnd::Unreadable => Some("Failed to read model files"@),
            _ => None,
        }
    }

    /// Says what is reported in front of the cause, if anything is.
    pub fn context(self) -> (context: Option<&'static str>)
        ensures
            opt_text(context) == self.text(),
    {
        match self {
            LoadEnd::Unreadable => Some("Failed to read model files"),
            _ => None,
        }
    }
}

/// Only a file that could not be read is reported with words of its own.
pub proof fn law_load_reports(end: LoadEnd)
    ensures
        end == LoadEnd::Unreadable ==> end.text() == Some("Failed to read model files"@),
        end != LoadEnd::Unreadable ==> end.text() is None,
{
}

/// Where the building of a model stands.
pub enum LoadStageView {
    /// The pending files are to be read.
    Reading { pending: Seq<ReadView> },
    /// The files are read; the execution providers are to be set up.
    Providers,
    /// The providers are set up; the session is to be made.
    Building,
    /// It is over.
    Ended { end: LoadEnd },
}

/// The answer to a question of the building of a model: whether it went well.
pub enum LoadAnswer {
    Read(bool),
    Providers(bool),
    Built(bool),
}

/// A question of the building of a model.
pub enum LoadQuestion {
    Read { file: ModelFile, path: Seq<char> },
    Providers { mode: ExecutionMode },
    Build,
}

/// What a machine answers: which files can be read, whether the providers can be set up, and
/// whether a session can be made.
pub struct LoadSite {
    pub readable: Set<Seq<char>>,
    pub providers: bool,
    pub builds: bool,
}

/// The building of a model in progress.
pub struct LoadingView {
    pub plan: LoadView,
    pub stage: LoadStageView,
}

/// The stage in which the given files are still to be read.
pub open spec fn reading(pending: Seq<ReadView>) -> LoadStageView {
    if pending.len() == 0 {
        LoadStageView::Providers
    } else {
        LoadStageView::Reading { pending }
    }
}

/// The building of a model before anything was done.
pub open spec fn load_start(plan: LoadView) -> LoadingView {
    LoadingView { plan, stage: reading(plan.reads) }
}

impl LoadingView {
    /// Takes an answer. One that the stage did not ask for changes nothing.
    pub open spec fn answered(self, answer: LoadAnswer) -> LoadingView {
        match (self.stage, answer) {
            (LoadStageView::Reading { pending }, LoadAnswer::Read(well)) => LoadingView {
                stage: if well {
                    reading(pending.drop_first())
                } else {
                    LoadStageView::Ended { end: LoadEnd::Unreadable }
                },
                ..self
            },
            (LoadStageView::Providers, LoadAnswer::Providers(well)) => LoadingView {
                stage: if well {
                    LoadStageView::Building
                } else {
                    LoadStageView::Ended { end: LoadEnd::ProviderMissing }
                },
                ..self
            },
            (LoadStageView::Building, LoadAnswer::Built(well)) => LoadingView {
                stage: LoadStageView::Ended {
                    end: if well {
                        LoadEnd::Complete
                    } else {
                        LoadEnd::Refused
                    },
                },
                ..self
            },
            _ => self,
        }
    }

    /// How far the stage is from the end.
    pub open spec fn steps_left(self) -> nat {
        match self.stage {
            LoadStageView::Reading { pending } => pending.len() + 2,
            LoadStageView::Providers => 2,
            LoadStageView::Building => 1,
            LoadStageView::Ended { .. } => 0,
        }
    }

    /// Whether there is a file to read while files are read.
    pub open spec fn well_formed(self) -> bool {
        self.stage matches LoadStageView::Reading { pending } ==> pending.len() > 0
    }

    /// What is left when every question is answered from one machine.
    pub open spec fn driven(self, site: LoadSite) -> LoadingView
        decreases self.steps_left(),
        when self.well_formed()
    {
        match self.stage {
            LoadStageView::Reading { pending } => self.answered(
                LoadAnswer::Read(site.readable.contains(pending.first().path)),
            ).driven(site),
            LoadStageView::Providers => self.answered(
                LoadAnswer::Providers(site.providers),
            ).driven(site),
            LoadStageView::Building => self.answered(LoadAnswer::Built(site.builds)).driven(site),
            LoadStageView::Ended { .. } => self,
        }
    }

    /// The questions that are asked, in order, when each is answered from one machine.
    pub open spec fn asked(self, site: LoadSite) -> Seq<LoadQuestion>
        decreases self.steps_left(),
        when self.well_formed()
    {
        match self.stage {
            LoadStageView::Reading { pending } => seq![
                LoadQuestion::Read { file: pending.first().file, path: pending.first().path },
            ] + self.answered(
                LoadAnswer::Read(site.readable.contains(pending.first().path)),
            ).asked(site),
            LoadStageView::Providers => seq![
                LoadQuestion::Providers { mode: self.plan.execution_mode },
            ] + self.answered(LoadAnswer::Providers(site.providers)).asked(site),
            LoadStageView::Building => seq![LoadQuestion::Build] + self.answered(
                LoadAnswer::Built(site.builds),
            ).asked(site),
            LoadStageView::Ended { .. } => Seq::empty(),
        }
    }
}

/// How many files of a list can be read before one cannot.
pub open spec fn readable_count(reads: Seq<ReadView>, readable: Set<Seq<char>>) -> nat {
    leading(reads, |read: ReadView| readable.contains(read.path))
}

/// The questions for the contents of files.
pub open spec fn read_questions(reads: Seq<ReadView>) -> Seq<LoadQuestion> {
    reads.map_values(|read: ReadView| LoadQuestion::Read { file: read.file, path: read.path })
}

/// What is asked to build a model on a machine: the files in order, up to the first that cannot be
/// read; then, where all can be read, for the providers; then, where these can be set up, for the
/// session.
pub open spec fn load_questions(plan: LoadView, site: LoadSite) -> Seq<LoadQuestion> {
    let n = readable_count(plan.reads, site.readable) as int;
    let providers = LoadQuestion::Providers { mode: plan.execution_mode };
    if n < plan.reads.len() {
        read_questions(plan.reads.take(n + 1))
    } else if !site.providers {
        read_questions(plan.reads).push(providers)
    } else {
        read_questions(plan.reads).push(providers).push(LoadQuestion::Build)
    }
}

/// How the building of a model ends on a machine.
pub open spec fn load_end(plan: LoadView, site: LoadSite) -> LoadEnd {
    if readable_count(plan.reads, site.readable) < plan.reads.len() {
        LoadEnd::Unreadable
    } else if !site.providers {
        LoadEnd::ProviderMissing
    } else if !site.builds {
        LoadEnd::Refused
    } else {
        LoadEnd::Complete
    }
}

proof fn lemma_reading(plan: LoadView, pending: Seq<ReadView>, site: LoadSite)
    ensures
        ({
            let state = LoadingView { plan, stage: reading(pending) };
            let left = LoadView { reads: pending, ..plan };
            &&& state.driven(site) == (LoadingView {
                plan,
                stage: LoadStageView::Ended { end: load_end(left, site) },
            })
            &&& state.asked(site) == load_questions(left, site)
        }),
    decreases pending.len(),
{
    let state = LoadingView { plan, stage: reading(pending) };
    let left = LoadView { reads: pending, ..plan };
    if pending.len() == 0 {
        let made = LoadingView { plan, stage: LoadStageView::Building };
        let last = made.answered(LoadAnswer::Built(site.builds));
        assert(last.driven(site) == last);
        assert(last.asked(site) =~= Seq::empty());
        assert(made.driven(site) == last);
        assert(made.asked(site) =~= seq![LoadQuestion::Build]);
        let next = state.answered(LoadAnswer::Providers(site.providers));
        assert(state.driven(site) == next.driven(site));
        if !site.providers {
            assert(next.driven(site) == next);
            assert(next.asked(site) =~= Seq::empty());
        }
        assert(read_questions(pending) =~= Seq::empty());
        assert(state.asked(site) =~= load_questions(left, site));
    } else {
        let rest = pending.drop_first();
        let question = LoadQuestion::Read {
            file: pending.first().file,
            path: pending.first().path,
        };
        law_leading(pending, |read: ReadView| site.readable.contains(read.path));
        if site.readable.contains(pending.first().path) {
            lemma_reading(plan, rest, site);
            let after = LoadView { reads: rest, ..plan };
            assert(load_end(left, site) == load_end(after, site));
            assert(load_questions(left, site) =~= seq![question] + load_questions(after, site));
        } else {
            let last = state.answered(LoadAnswer::Read(false));
            assert(last.driven(site) == last);
            assert(last.asked(site) =~= Seq::empty());
            assert(state.asked(site) =~= seq![question]);
            assert(load_questions(left, site) =~= seq![question]);
        }
    }
}

/// Answering every question from one machine reads the files first, in order, and stops at the
/// first that cannot be read, without asking for the providers; then come the providers, and then
/// the session.
pub proof fn law_load_reads_first(plan: LoadView, site: LoadSite)
    ensures
        load_start(plan).asked(site) == load_questions(plan, site),
        load_start(plan).driven(site) == (LoadingView {
            plan,
            stage: LoadStageView::Ended { end: load_end(plan, site) },
        }),
{
    lemma_reading(plan, plan.reads, site);
}

/// Where a file cannot be read, the building ends there: everything that was asked for is a file of
/// the plan, in order, all of them readable but the last, and neither providers nor a session were
/// asked for.
pub proof fn law_unreadable_file_ends_build(plan: LoadView, site: LoadSite, bad: int)
    requires
        0 <= bad < plan.reads.len(),
        !site.readable.contains(plan.reads[bad].path),
        forall|i: int| 0 <= i < bad ==> site.readable.contains((#[trigger] plan.reads[i]).path),
    ensures
        ({
            let asked = load_start(plan).asked(site);
            &&& asked.len() == bad + 1
            &&& forall|i: int|
                0 <= i <= bad ==> #[trigger] asked[i] == (LoadQuestion::Read {
                    file: plan.reads[i].file,
                    path: plan.reads[i].path,
                })
            &&& load_start(plan).driven(site).plan == plan
            &&& load_start(plan).driven(site).stage == (LoadStageView::Ended {
                end: LoadEnd::Unreadable,
            })
        }),
{
    let good = |read: ReadView| site.readable.contains(read.path);
    law_load_reads_first(plan, site);
    law_leading(plan.reads, good);
    let n = readable_count(plan.reads, site.readable) as int;
    if n < bad {
        assert(site.readable.contains(plan.reads[n].path));
    } else if n > bad {
        assert(good(plan.reads[bad]));
    }
    assert(n == bad);
}

/// Where every file can be read, the building asks for each of them in order, then for the
/// providers of the very mode of its plan, and then, where these are there, for the session. It is
/// complete exactly where it gets both.
pub proof fn law_readable_files_lead_to_session(plan: LoadView, site: LoadSite)
    requires
        forall|i: int|
            0 <= i < plan.reads.len() ==> site.readable.contains((#[trigger] plan.reads[i]).path),
    ensures
        ({
            let asked = load_start(plan).asked(site);
            let n = plan.reads.len() as int;
            let stage = load_start(plan).driven(site).stage;
            &&& asked.len() == if site.providers {
                n + 2
            } else {
                n + 1
            }
            &&& forall|i: int|
                0 <= i < n ==> #[trigger] asked[i] == (LoadQuestion::Read {
                    file: plan.reads[i].file,
                    path: plan.reads[i].path,
                })
            &&& asked[n] == (LoadQuestion::Providers { mode: plan.execution_mode })
            &&& site.providers ==> asked[n + 1] == LoadQuestion::Build
            &&& load_start(plan).driven(site).plan == plan
            &&& !site.providers ==> stage == (LoadStageView::Ended {
                end: LoadEnd::ProviderMissing,
            })
            &&& site.providers && !site.builds ==> stage == (LoadStageView::Ended {
                end: LoadEnd::Refused,
            })
            &&& site.providers && site.builds ==> stage == (LoadStageView::Ended {
                end: LoadEnd::Complete,
            })
        }),
{
    let good = |read: ReadView| site.readable.contains(read.path);
    law_load_reads_first(plan, site);
    law_leading(plan.reads, good);
    let n = readable_count(plan.reads, site.readable) as int;
    if n < plan.reads.len() {
        assert(site.readable.contains(plan.reads[n].path));
    }
}

/// The providers are set up for the mode that the caller asked for, whatever the mode, once the
/// files of the model can be read.
pub proof fn law_providers_are_those_asked_for(
    info: InfoView,
    dir: Seq<char>,
    mode: ExecutionMode,
    profiling_output: Option<Seq<char>>,
    site: LoadSite,
)
    requires
        site.readable.contains(path_join(dir, info.onnx_file)),
        site.readable.contains(path_join(dir, info.tokenizer_file)),
        site.readable.contains(path_join(dir, info.config_file)),
        site.readable.contains(path_join(dir, info.special_tokens_map_file)),
        site.readable.contains(path_join(dir, info.tokenizer_config_file)),
    ensures
        ({
            let start = load_start(load_of(info, dir, mode, profiling_output));
            &&& start.asked(site).contains(LoadQuestion::Providers { mode })
            &&& forall|other: ExecutionMode|
                #[trigger] start.asked(site).contains(LoadQuestion::Providers { mode: other })
                    ==> other == mode
            &&& start.driven(site).plan.execution_mode == mode
            &&& site.providers && site.builds ==> start.driven(site).stage == (
            LoadStageView::Ended { end: LoadEnd::Complete })
        }),
{
    let plan = load_of(info, dir, mode, profiling_output);
    let asked = load_start(plan).asked(site);
    law_model_is_built_as_asked(info, dir, mode, profiling_output);
    assert forall|i: int| 0 <= i < plan.reads.len() implies site.readable.contains(
        (#[trigger] plan.reads[i]).path,
    ) by {
        assert(i == 0 || i == 1 || i == 2 || i == 3 || i == 4);
    }
    law_readable_files_lead_to_session(plan, site);
    assert(asked[5] == LoadQuestion::Providers { mode });
    assert forall|other: ExecutionMode| #[trigger]
        asked.contains(LoadQuestion::Providers { mode: other }) implies other == mode by {
        let i = choose|i: int|
            0 <= i < asked.len() && asked[i] == (LoadQuestion::Providers { mode: other });
        if i < 5 {
            assert(asked[i] is Read);
        }
    }
}

/// An answer to a question that was not asked changes nothing, and none changes the plan.
pub proof fn law_load_answer(state: LoadingView, well: bool)
    ensures
        !(state.stage is Reading) ==> state.answered(LoadAnswer::Read(well)) == state,
        !(state.stage is Providers) ==> state.answered(LoadAnswer::Providers(well)) == state,
        !(state.stage is Building) ==> state.answered(LoadAnswer::Built(well)) == state,
        state.answered(LoadAnswer::Read(well)).plan == state.plan,
        state.answered(LoadAnswer::Providers(well)).plan == state.plan,
        state.answered(LoadAnswer::Built(well)).plan == state.plan,
{
}

enum LoadStage {
    Reading(usize),
    Providers,
    Building,
    Ended(LoadEnd),
}

/// The options that a session is made with.
pub struct SessionOptions {
    pub parallel_execution: bool,
    pub profiling_output: Option<String>,
    pub pooling: Pooling,
    pub quantization: QuantizationMode,
}

/// What to do next to build a model.
pub enum LoadAction {
    /// Read a file.
    Read { file: ModelFile, path: String },
    /// Set up the execution providers for a mode.
    Providers(ExecutionMode),
    /// Make the session.
    Build(SessionOptions),
    /// Stop.
    Stop(LoadEnd),
}

/// The building of a model.
pub struct Load {
    plan: LoadPlan,
    stage: LoadStage,
}

impl View for Load {
    type V = LoadingView;

    closed spec fn view(&self) -> LoadingView {
        LoadingView {
            plan: self.plan@,
            stage: match self.stage {
                LoadStage::Reading(next) => LoadStageView::Reading {
                    pending: self.plan@.reads.skip(next as int),
                },
                LoadStage::Providers => LoadStageView::Providers,
                LoadStage::Building => LoadStageView::Building,
                LoadStage::Ended(end) => LoadStageView::Ended { end },
            },
        }
    }
}

impl Load {
    #[verifier::type_invariant]
    spec fn in_range(self) -> bool {
        self.stage matches LoadStage::Reading(next) ==> next < 5
    }

    /// Begins the building of a model.
    pub fn begin(plan: LoadPlan) -> (load: Self)
        ensures
            load@ == load_start(plan@),
    {
        assert(plan@.reads.skip(0) =~= plan@.reads);
        Load { plan, stage: LoadStage::Reading(0) }
    }

    /// The plan that is followed.
    pub fn plan(&self) -> (plan: &LoadPlan)
        ensures
            plan@ == self@.plan,
    {
        &self.plan
    }

    /// What to do next.
    pub fn action(&self) -> (action: LoadAction)
        ensures
            match (action, self@.stage) {
                (LoadAction::Read { file, path }, LoadStageView::Reading { pending }) => {
                    &&& pending.len() > 0
                    &&& file == pending.first().file
                    &&& path@ == pending.first().path
                },
                (LoadAction::Providers(mode), LoadStageView::Providers) => mode
                    == self@.plan.execution_mode,
                (LoadAction::Build(options), LoadStageView::Building) => {
                    &&& options.parallel_execution == self@.plan.parallel_execution
                    &&& opt_string(options.profiling_output) == self@.plan.profiling_output
                    &&& options.pooling == self@.plan.pooling
                    &&& options.quantization == self@.plan.quantization
                },
                (LoadAction::Stop(how), LoadStageView::Ended { end }) => how == end,
                _ => false,
            },
    {
        proof {
            use_type_invariant(self);
        }
        match &self.stage {
            LoadStage::Reading(next) => {
                let (file, path) = match *next {
                    0 => (ModelFile::Onnx, self.plan.onnx_file.clone()),
                    1 => (ModelFile::Tokenizer, self.plan.tokenizer_file.clone()),
                    2 => (ModelFile::Config, self.plan.config_file.clone()),
                    3 => (ModelFile::SpecialTokensMap, self.plan.special_tokens_map_file.clone()),
                    _ => (ModelFile::TokenizerConfig, self.plan.tokenizer_config_file.clone()),
                };
                LoadAction::Read { file, path }
            },
            LoadStage::Providers => LoadAction::Providers(self.plan.execution_mode),
            LoadStage::Building => {
                let profiling_output: Option<String> = match &self.plan.profiling_output {
                    Some(path) => Some(path.clone()),
                    None => None,
                };
                LoadAction::Build(
                    SessionOptions {
                        parallel_execution: self.plan.parallel_execution,
                        profiling_output,
                        pooling: self.plan.pooling,
                        quantization: self.plan.quantization,
                    },
                )
            },
            LoadStage::Ended(end) => LoadAction::Stop(*end),
        }
    }

    /// Takes the answer to the action. An answer to another action changes nothing.
    pub fn step(self, answer: LoadAnswer) -> (after: Self)
        ensures
            after@ == self@.answered(answer),
    {
        proof {
            use_type_invariant(&self);
        }
        let Load { plan, stage } = self;
        let stage = match (stage, answer) {
            (LoadStage::Reading(next), LoadAnswer::Read(well)) => {
                assert(plan@.reads.skip(next as int).drop_first() =~= plan@.reads.skip(next + 1));
                if !well {
                    LoadStage::Ended(LoadEnd::Unreadable)
                } else if next == 4 {
                    LoadStage::Providers
                } else {
                    LoadStage::Reading(next + 1)
                }
            },
            (LoadStage::Providers, LoadAnswer::Providers(well)) => if well {
                LoadStage::Building
            } else {
                LoadStage::Ended(LoadEnd::ProviderMissing)
            },
            (LoadStage::Building, LoadAnswer::Built(well)) => if well {
                LoadStage::Ended(LoadEnd::Complete)
            } else {
                LoadStage::Ended(LoadEnd::Refused)
            },
            (stage, _) => stage,
        };
        Load { plan, stage }
    }

    /// Tells whether the model was built.
    pub(crate) fn is_complete(&self) -> (yes: bool)
        ensures
            yes == (self@.stage == LoadStageView::Ended { end: LoadEnd::Complete }),
    {
        match &self.stage {
            LoadStage::Ended(LoadEnd::Complete) => true,
            _ => false,
        }
    }
}

} // verus!
