//! The start of the runtime, step by step: the CUDA libraries, then the runtime's own library,
//! then the runtime itself.
use crate::libraries::{runtime_plan, setup_onnxruntime, RuntimePlan, RuntimeSource};
use crate::providers::Platform;
use crate::text::opt_string;
use vstd::prelude::*;

verus! {

/// How the start of the runtime ended.
#[derive(Debug, Clone, Copy, PartialEq, Eq, Structural)]
pub enum StartEnd {
    /// The runtime is started.
    Complete,
    /// The CUDA libraries could not be loaded.
    PreloadFailed,
    /// The library of the runtime was not found.
    NotFound,
    /// The runtime refused to start.
    Refused,
}

/// Where the start of the runtime stands.
pub enum StartStageView {
    /// The CUDA libraries are to be loaded.
    Preloading,
    /// The library of the runtime is to be found.
    Finding,
    /// The runtime is to be started, from a library or from the program itself.
    Committing { library: Option<Seq<char>> },
    /// It is over.
    Ended { end: StartEnd },
}

/// The answer to a question of the start.
pub enum StartAnswerView {
    Preloaded { well: bool },
    Found { library: Option<Seq<char>> },
    Committed { well: bool },
}

/// A question of the start.
pub enum StartQuestion {
    Preload,
    Find,
    Commit { library: Option<Seq<char>>, inter_threads: usize, intra_threads: usize },
}

/// What a machine answers: whether the CUDA libraries can be loaded, where the library of the
/// runtime is, and whether the runtime can be started.
pub struct StartSite {
    pub preloads: bool,
    pub library: Option<Seq<char>>,
    pub commits: bool,
}

/// The start of the runtime in progress.
pub struct StartView {
    pub plan: RuntimePlan,
    pub stage: StartStageView,
}

/// The stage in which the CUDA libraries need nothing more.
pub open spec fn sourcing(plan: RuntimePlan) -> StartStageView {
    match plan.source {
        RuntimeSource::Library => StartStageView::Finding,
        RuntimeSource::Linked => StartStageView::Committing { library: None },
    }
}

/// The start of the runtime before anything was done.
pub open spec fn runtime_start(plan: RuntimePlan) -> StartView {
    StartView {
        plan,
        stage: if plan.preload_cuda {
            StartStageView::Preloading
        } else {
            sourcing(plan)
        },
    }
}

impl StartView {
    /// Takes an answer. One that the stage did not ask for changes nothing.
    pub open spec fn answered(self, answer: StartAnswerView) -> StartView {
        let stage = match (self.stage, answer) {
            (StartStageView::Preloading, StartAnswerView::Preloaded { well }) => if well {
                sourcing(self.plan)
            } else {
                StartStageView::Ended { end: StartEnd::PreloadFailed }
            },
            (StartStageView::Finding, StartAnswerView::Found { library }) => match library {
                Some(path) => StartStageView::Committing { library: Some(path) },
                None => StartStageView::Ended { end: StartEnd::NotFound },
            },
            (StartStageView::Committing { .. }, StartAnswerView::Committed { well }) => {
                StartStageView::Ended {
                    end: if well {
                        StartEnd::Complete
                    } else {
                        StartEnd::Refused
                    },
                }
            },
            (stage, _) => stage,
        };
        StartView { stage, ..self }
    }

    /// How far the stage is from the end.
    pub open spec fn steps_left(self) -> nat {
        match self.stage {
            StartStageView::Preloading => 3,
            StartStageView::Finding => 2,
            StartStageView::Committing { .. } => 1,
            StartStageView::Ended { .. } => 0,
        }
    }

    /// What is left when every question is answered from one machine.
    pub open spec fn driven(self, site: StartSite) -> StartView
        decreases self.steps_left(),
    {
        match self.stage {
            StartStageView::Preloading => self.answered(
                StartAnswerView::Preloaded { well: site.preloads },
            ).driven(site),
            StartStageView::Finding => self.answered(
                StartAnswerView::Found { library: site.library },
            ).driven(site),
            StartStageView::Committing { .. } => self.answered(
                StartAnswerView::Committed { well: site.commits },
            ).driven(site),
            StartStageView::Ended { .. } => self,
        }
    }

    /// The questions that are asked, in order, when each is answered from one machine.
    pub open spec fn asked(self, site: StartSite) -> Seq<StartQuestion>
        decreases self.steps_left(),
    {
        match self.stage {
            StartStageView::Preloading => seq![StartQuestion::Preload] + self.answered(
                StartAnswerView::Preloaded { well: site.preloads },
            ).asked(site),
            StartStageView::Finding => seq![StartQuestion::Find] + self.answered(
                StartAnswerView::Found { library: site.library },
            ).asked(site),
            StartStageView::Committing { library } => seq![
                StartQuestion::Commit {
                    library,
                    inter_threads: self.plan.inter_threads,
                    intra_threads: self.plan.intra_threads,
                },
            ] + self.answered(StartAnswerView::Committed { well: site.commits }).asked(site),
            StartStageView::Ended { .. } => Seq::empty(),
        }
    }
}

/// Whether a machine holds what has to be there before the runtime is started: the CUDA libraries
/// where they come first, and a library where the runtime comes from one.
pub open spec fn start_ready(plan: RuntimePlan, site: StartSite) -> bool {
    &&& plan.preload_cuda ==> site.preloads
    &&& plan.source == RuntimeSource::Library ==> site.library is Some
}

/// What is asked to start the runtime on a machine: for the CUDA libraries where they come first;
/// then, unless these failed, for the library where the runtime comes from one; then, where
/// nothing is missing, for the runtime itself, once.
pub open spec fn start_questions(plan: RuntimePlan, site: StartSite) -> Seq<StartQuestion> {
    let preload = if plan.preload_cuda {
        seq![StartQuestion::Preload]
    } else {
        Seq::empty()
    };
    let find = if plan.source == RuntimeSource::Library && (plan.preload_cuda ==> site.preloads) {
        seq![StartQuestion::Find]
    } else {
        Seq::empty()
    };
    let commit = if start_ready(plan, site) {
        seq![
            StartQuestion::Commit {
                library: match plan.source {
                    RuntimeSource::Library => site.library,
                    RuntimeSource::Linked => None,
                },
                inter_threads: plan.inter_threads,
                intra_threads: plan.intra_threads,
            },
        ]
    } else {
        Seq::empty()
    };
    preload + find + commit
}

/// How the start of the runtime ends on a machine.
pub open spec fn start_end(plan: RuntimePlan, site: StartSite) -> StartEnd {
    if plan.preload_cuda && !site.preloads {
        StartEnd::PreloadFailed
    } else if !start_ready(plan, site) {
        StartEnd::NotFound
    } else if !site.commits {
        StartEnd::Refused
    } else {
        StartEnd::Complete
    }
}

proof fn lemma_committing(state: StartView, site: StartSite)
    requires
        state.stage is Committing,
    ensures
        state.driven(site) == state.answered(StartAnswerView::Committed { well: site.commits }),
        state.asked(site) == seq![
            StartQuestion::Commit {
                library: state.stage->library,
                inter_threads: state.plan.inter_threads,
                intra_threads: state.plan.intra_threads,
            },
        ],
{
    let last = state.answered(StartAnswerView::Committed { well: site.commits });
    assert(last.driven(site) == last);
    assert(last.asked(site) =~= Seq::empty());
}

proof fn lemma_sourcing(plan: RuntimePlan, site: StartSite)
    ensures
        ({
            let state = StartView { plan, stage: sourcing(plan) };
            let late = RuntimePlan { preload_cuda: false, ..plan };
            &&& state.driven(site) == (StartView {
                plan,
                stage: StartStageView::Ended { end: start_end(late, site) },
            })
            &&& state.asked(site) == start_questions(late, site)
        }),
{
    let state = StartView { plan, stage: sourcing(plan) };
    let late = RuntimePlan { preload_cuda: false, ..plan };
    if plan.source == RuntimeSource::Library {
        let next = state.answered(StartAnswerView::Found { library: site.library });
        assert(state.driven(site) == next.driven(site));
        if site.library is Some {
            lemma_committing(next, site);
        } else {
            assert(next.driven(site) == next);
            assert(next.asked(site) =~= Seq::empty());
        }
    } else {
        lemma_committing(state, site);
    }
    assert(state.asked(site) =~= start_questions(late, site));
}

/// Answering every question from one machine starts the runtime in order: the CUDA libraries are
/// loaded before the library of the runtime is looked for, the runtime is started after both and
/// at most once, from the library that was found, and nothing is asked after a failure.
pub proof fn law_start_in_order(plan: RuntimePlan, site: StartSite)
    ensures
        runtime_start(plan).asked(site) == start_questions(plan, site),
        runtime_start(plan).driven(site) == (StartView {
            plan,
            stage: StartStageView::Ended { end: start_end(plan, site) },
        }),
{
    let start = runtime_start(plan);
    lemma_sourcing(plan, site);
    if plan.preload_cuda {
        let next = start.answered(StartAnswerView::Preloaded { well: site.preloads });
        assert(start.driven(site) == next.driven(site));
        if !site.preloads {
            assert(next.driven(site) == next);
            assert(next.asked(site) =~= Seq::empty());
        }
    }
    assert(start.asked(site) =~= start_questions(plan, site));
}

/// The runtime is started last and at most once: after the CUDA libraries were loaded where they
/// come first, and after its library was found where it comes from one.
pub proof fn law_commit_comes_last(plan: RuntimePlan, site: StartSite, i: int)
    requires
        0 <= i < runtime_start(plan).asked(site).len(),
        runtime_start(plan).asked(site)[i] is Commit,
    ensures
        ({
            let asked = runtime_start(plan).asked(site);
            &&& i == asked.len() - 1
            &&& plan.preload_cuda ==> i > 0 && asked[0] == StartQuestion::Preload && site.preloads
            &&& plan.source == RuntimeSource::Library ==> {
                &&& i > 0
                &&& asked[i - 1] == StartQuestion::Find
                &&& site.library is Some
                &&& asked[i]->library == site.library
            }
        }),
{
    law_start_in_order(plan, site);
}

/// Whatever is answered, the start stays where it is or comes nearer to its end, so that no stage
/// comes back.
pub proof fn law_start_goes_on(state: StartView, answer: StartAnswerView)
    ensures
        state.answered(answer) == state || state.answered(answer).steps_left() < state.steps_left(),
{
}

/// The runtime is asked to start wherever nothing is missing: with the threads of the plan, and
/// from the library that was found where it comes from one. It is started exactly where it agrees.
/// Where something is missing it is not asked, and the end says what was missing first.
pub proof fn law_start_reaches_commit(plan: RuntimePlan, site: StartSite)
    ensures
        ({
            let asked = runtime_start(plan).asked(site);
            let stage = runtime_start(plan).driven(site).stage;
            let loaded = plan.preload_cuda ==> site.preloads;
            let from_library = plan.source == RuntimeSource::Library;
            &&& asked.contains(StartQuestion::Preload) <==> plan.preload_cuda
            &&& asked.contains(StartQuestion::Find) <==> from_library && loaded
            &&& asked.len() > 0
            &&& asked.last() is Commit <==> loaded && (from_library ==> site.library is Some)
            &&& asked.last() is Commit ==> {
                &&& asked.last()->library == if from_library {
                    site.library
                } else {
                    None
                }
                &&& asked.last()->inter_threads == plan.inter_threads
                &&& asked.last()->intra_threads == plan.intra_threads
                &&& site.commits ==> stage == (StartStageView::Ended { end: StartEnd::Complete })
                &&& !site.commits ==> stage == (StartStageView::Ended { end: StartEnd::Refused })
            }
            &&& !loaded ==> stage == (StartStageView::Ended { end: StartEnd::PreloadFailed })
            &&& loaded && from_library && site.library is None ==> stage == (StartStageView::Ended {
                end: StartEnd::NotFound,
            })
        }),
{
    law_start_in_order(plan, site);
    let asked = start_questions(plan, site);
    if plan.preload_cuda {
        assert(asked[0] == StartQuestion::Preload);
    }
    if plan.source == RuntimeSource::Library && (plan.preload_cuda ==> site.preloads) {
        let at: int = if plan.preload_cuda {
            1
        } else {
            0
        };
        assert(asked[at] == StartQuestion::Find);
    }
}

/// An answer to a question that was not asked changes nothing, and none changes the plan.
pub proof fn law_start_answer(state: StartView, library: Option<Seq<char>>, well: bool)
    ensures
        ({
            let preloaded = state.answered(StartAnswerView::Preloaded { well });
            let found = state.answered(StartAnswerView::Found { library });
            let committed = state.answered(StartAnswerView::Committed { well });
            &&& !(state.stage is Preloading) ==> preloaded == state
            &&& !(state.stage is Finding) ==> found == state
            &&& !(state.stage is Committing) ==> committed == state
            &&& preloaded.plan == state.plan && found.plan == state.plan && committed.plan
                == state.plan
        }),
{
}

/// On macOS the runtime is started at once, with nothing loaded ahead of it.
pub proof fn law_start_on_macos(preload_cuda: bool, site: StartSite)
    ensures
        runtime_start(runtime_plan(Platform::MacOs, preload_cuda)).asked(site) == seq![
            StartQuestion::Commit { library: None, inter_threads: 2, intra_threads: 2 },
        ],
{
    let plan = runtime_plan(Platform::MacOs, preload_cuda);
    law_start_in_order(plan, site);
    assert(start_questions(plan, site) =~= seq![
        StartQuestion::Commit { library: None, inter_threads: 2, intra_threads: 2 },
    ]);
}

enum StartStage {
    Preloading,
    Finding,
    Committing(Option<String>),
    Ended(StartEnd),
}

impl StartStage {
    spec fn in_view(self) -> StartStageView {
        match self {
            StartStage::Preloading => StartStageView::Preloading,
            StartStage::Finding => StartStageView::Finding,
            StartStage::Committing(library) => StartStageView::Committing {
                library: opt_string(library),
            },
            StartStage::Ended(end) => StartStageView::Ended { end },
        }
    }

    fn sourcing(plan: RuntimePlan) -> (stage: StartStage)
        ensures
            stage.in_view() == sourcing(plan),
    {
        match plan.source {
            RuntimeSource::Library => StartStage::Finding,
            RuntimeSource::Linked => StartStage::Committing(None),
        }
    }
}

/// What to do next to start the runtime.
pub enum StartAction {
    /// Load the CUDA libraries.
    Preload,
    /// Look for the library of the runtime.
    Find,
    /// Start the runtime with a pool of threads, from a library where one is given.
    Commit { library: Option<String>, inter_threads: usize, intra_threads: usize },
    /// Stop.
    Stop(StartEnd),
}

/// The answer to an action.
pub enum StartAnswer {
    Preloaded(bool),
    Found(Option<String>),
    Committed(bool),
}

impl StartAnswer {
    /// The answer with texts for strings.
    pub open spec fn in_view(self) -> StartAnswerView {
        match self {
            StartAnswer::Preloaded(well) => StartAnswerView::Preloaded { well },
            StartAnswer::Found(library) => StartAnswerView::Found { library: opt_string(library) },
            StartAnswer::Committed(well) => StartAnswerView::Committed { well },
        }
    }
}

/// An answer is taken as it is given.
pub proof fn law_start_answers(library: Option<String>, well: bool)
    ensures
        StartAnswer::Preloaded(well).in_view() == (StartAnswerView::Preloaded { well }),
        StartAnswer::Found(library).in_view() == (StartAnswerView::Found {
            library: match library {
                Some(path) => Some(path@),
                None => None,
            },
        }),
        StartAnswer::Committed(well).in_view() == (StartAnswerView::Committed { well }),
{
}

/// The start of the runtime.
pub struct RuntimeStart {
    plan: RuntimePlan,
    stage: StartStage,
}

impl View for RuntimeStart {
    type V = StartView;

    closed spec fn view(&self) -> StartView {
        StartView { plan: self.plan, stage: self.stage.in_view() }
    }
}

/// Begins the start of the runtime on a platform.
pub fn begin_runtime(platform: Platform, should_preload_cuda: bool) -> (start: RuntimeStart)
    ensures
        start@ == runtime_start(runtime_plan(platform, should_preload_cuda)),
{
    let plan = setup_onnxruntime(platform, should_preload_cuda);
    let stage = if plan.preload_cuda {
        StartStage::Preloading
    } else {
        StartStage::sourcing(plan)
    };
    RuntimeStart { plan, stage }
}

impl RuntimeStart {
    /// What to do next.
    pub fn action(&self) -> (action: StartAction)
        ensures
            match (action, self@.stage) {
                (StartAction::Preload, StartStageView::Preloading) => true,
                (StartAction::Find, StartStageView::Finding) => true,
                (
                    StartAction::Commit { library: from, inter_threads, intra_threads },
                    StartStageView::Committing { library },
                ) => {
                    &&& opt_string(from) == library
                    &&& inter_threads == self@.plan.inter_threads
                    &&& intra_threads == self@.plan.intra_threads
                },
                (StartAction::Stop(how), StartStageView::Ended { end }) => how == end,
                _ => false,
            },
    {
        match &self.stage {
            StartStage::Preloading => StartAction::Preload,
            StartStage::Finding => StartAction::Find,
            StartStage::Committing(library) => {
                let library: Option<String> = match library {
                    Some(path) => Some(path.clone()),
                    None => None,
                };
                StartAction::Commit {
                    library,
                    inter_threads: self.plan.inter_threads,
                    intra_threads: self.plan.intra_threads,
                }
            },
            StartStage::Ended(end) => StartAction::Stop(*end),
        }
    }

    /// Takes the answer to the action. An answer to another action changes nothing.
    pub fn step(self, answer: StartAnswer) -> (after: Self)
        ensures
            after@ == self@.answered(answer.in_view()),
    {
        let RuntimeStart { plan, stage } = self;
        let stage = match (stage, answer) {
            (StartStage::Preloading, StartAnswer::Preloaded(well)) => if well {
                StartStage::sourcing(plan)
            } else {
                StartStage::Ended(StartEnd::PreloadFailed)
            },
            (StartStage::Finding, StartAnswer::Found(library)) => match library {
                Some(path) => StartStage::Committing(Some(path)),
                None => StartStage::Ended(StartEnd::NotFound),
            },
            (StartStage::Committing(_), StartAnswer::Committed(well)) => if well {
                StartStage::Ended(StartEnd::Complete)
            } else {
                StartStage::Ended(StartEnd::Refused)
            },
            (stage, _) => stage,
        };
        RuntimeStart { plan, stage }
    }
}

} // verus!
