//! Which execution providers a session is given, and in what order.
use vstd::prelude::*;

verus! {

/// The operating systems the benchmark is built for.
#[derive(Debug, Clone, Copy, PartialEq, Eq, Structural)]
pub enum Platform {
    Linux,
    MacOs,
    Windows,
}

/// How the caller wants the model to be executed.
#[derive(Debug, Clone, Copy, PartialEq, Eq, Structural)]
pub enum ExecutionMode {
    /// Whatever is available, best first.
    Fallback,
    Cuda,
    DirectML,
    XNNPack,
    CoreML,
    OpenVINO,
    Cpu,
}

impl Default for ExecutionMode {
    fn default() -> (mode: Self)
        ensures
            mode == ExecutionMode::Fallback,
    {
        ExecutionMode::Fallback
    }
}

impl ExecutionMode {
    /// The name of a mode on the command line and in reports.
    pub open spec fn name(self) -> Seq<char> {
        match self {
            ExecutionMode::Fallback => "fallback"@,
            ExecutionMode::Cuda => "cuda"@,
            ExecutionMode::DirectML => "directml"@,
            ExecutionMode::XNNPack => "xnnpack"@,
            ExecutionMode::CoreML => "coreml"@,
            ExecutionMode::OpenVINO => "openvino"@,
            ExecutionMode::Cpu => "cpu"@,
        }
    }

    /// Names a mode.
    pub fn value_name(self) -> (name: &'static str)
        ensures
            name@ == self.name(),
    {
        match self {
            ExecutionMode::Fallback => "fallback",
            ExecutionMode::Cuda => "cuda",
            ExecutionMode::DirectML => "directml",
            ExecutionMode::XNNPack => "xnnpack",
            ExecutionMode::CoreML => "coreml",
            ExecutionMode::OpenVINO => "openvino",
            ExecutionMode::Cpu => "cpu",
        }
    }

    /// Every mode, in the order in which they are listed to a user.
    pub fn all() -> (modes: Vec<ExecutionMode>)
        ensures
            modes@ == seq![
                ExecutionMode::Fallback,
                ExecutionMode::Cuda,
                ExecutionMode::DirectML,
                ExecutionMode::XNNPack,
                ExecutionMode::CoreML,
                ExecutionMode::OpenVINO,
                ExecutionMode::Cpu,
            ],
    {
        let modes: Vec<ExecutionMode> = vec![
            ExecutionMode::Fallback,
            ExecutionMode::Cuda,
            ExecutionMode::DirectML,
            ExecutionMode::XNNPack,
            ExecutionMode::CoreML,
            ExecutionMode::OpenVINO,
            ExecutionMode::Cpu,
        ];
        modes
    }

    /// The mode of a name; `None` where no mode has it.
    pub fn from_value_name(name: &str) -> (mode: Option<ExecutionMode>)
        ensures
            match mode {
                Some(mode) => mode.name() == name@,
                None => forall|mode: ExecutionMode| #[trigger] mode.name() != name@,
            },
    {
        let modes = ExecutionMode::all();
        let wanted: String = name.to_owned();
        let mut i: usize = 0;
        while i < modes.len()
            invariant
                i <= modes.len(),
                wanted@ == name@,
                forall|j: int| 0 <= j < i ==> (#[trigger] modes@[j]).name() != name@,
            decreases modes.len() - i,
        {
            if modes[i].value_name().to_owned() == wanted {
                return Some(modes[i]);
            }
            i += 1;
        }
        assert forall|mode: ExecutionMode| #[trigger] mode.name() != name@ by {
            let j: int = match mode {
                ExecutionMode::Fallback => 0,
                ExecutionMode::Cuda => 1,
                ExecutionMode::DirectML => 2,
                ExecutionMode::XNNPack => 3,
                ExecutionMode::CoreML => 4,
                ExecutionMode::OpenVINO => 5,
                ExecutionMode::Cpu => 6,
            };
            assert(modes@[j] == mode);
        }
        None
    }
}

/// What the modes are called.
pub proof fn law_mode_names()
    ensures
        ExecutionMode::Fallback.name() == "fallback"@,
        ExecutionMode::Cuda.name() == "cuda"@,
        ExecutionMode::DirectML.name() == "directml"@,
        ExecutionMode::XNNPack.name() == "xnnpack"@,
        ExecutionMode::CoreML.name() == "coreml"@,
        ExecutionMode::OpenVINO.name() == "openvino"@,
        ExecutionMode::Cpu.name() == "cpu"@,
{
}

/// No two modes share a name.
pub proof fn law_mode_names_differ(a: ExecutionMode, b: ExecutionMode)
    ensures
        a.name() == b.name() ==> a == b,
{
    reveal_strlit("fallback");
    reveal_strlit("cuda");
    reveal_strlit("directml");
    reveal_strlit("xnnpack");
    reveal_strlit("coreml");
    reveal_strlit("openvino");
    reveal_strlit("cpu");
    if a.name() == b.name() {
        assert(a.name()[0] == b.name()[0]);
        assert(a.name()[1] == b.name()[1]);
        assert(a.name()[2] == b.name()[2]);
        assert(a.name().len() == b.name().len());
    }
}

/// An execution provider of the runtime.
#[derive(Debug, Clone, Copy, PartialEq, Eq, Structural)]
pub enum Provider {
    Cuda,
    CoreML,
    OpenVINO,
    DirectML,
    XNNPack,
    Cpu,
}

impl Provider {
    /// What a provider is called in messages.
    pub open spec fn text(self) -> Seq<char> {
        match self {
            Provider::Cuda => "CUDA"@,
            Provider::CoreML => "CoreML"@,
            Provider::OpenVINO => "OpenVINO"@,
            Provider::DirectML => "DirectML"@,
            Provider::XNNPack => "XNNPack"@,
            Provider::Cpu => "CPU"@,
        }
    }

    /// Says what a provider is called in messages.
    pub fn label(self) -> (label: &'static str)
        ensures
            label@ == self.text(),
    {
        match self {
            Provider::Cuda => "CUDA",
            Provider::CoreML => "CoreML",
            Provider::OpenVINO => "OpenVINO",
            Provider::DirectML => "DirectML",
            Provider::XNNPack => "XNNPack",
            Provider::Cpu => "CPU",
        }
    }
}

/// How cuDNN looks for a convolution algorithm.
#[derive(Debug, Clone, Copy, PartialEq, Eq, Structural)]
pub enum ConvAlgorithmSearch {
    Exhaustive,
    Heuristic,
    Default,
}

/// The options of the CUDA provider.
#[derive(Debug, Clone, Copy, PartialEq, Eq, Structural)]
pub struct CudaOptions {
    pub tf32: bool,
    pub conv_algorithm_search: ConvAlgorithmSearch,
}

/// The options that CUDA is registered with.
pub fn cuda_options() -> (options: CudaOptions)
    ensures
        options == (CudaOptions {
            tf32: true,
            conv_algorithm_search: ConvAlgorithmSearch::Default,
        }),
{
    CudaOptions { tf32: true, conv_algorithm_search: ConvAlgorithmSearch::Default }
}

/// A provider to register, and whether a failure to register it is an error.
#[derive(Debug, Clone, Copy, PartialEq, Eq, Structural)]
pub struct ProviderChoice {
    pub provider: Provider,
    pub error_on_failure: bool,
}

/// The mode that asks for one provider by name.
pub open spec fn mode_of(provider: Provider) -> ExecutionMode {
    match provider {
        Provider::Cuda => ExecutionMode::Cuda,
        Provider::CoreML => ExecutionMode::CoreML,
        Provider::OpenVINO => ExecutionMode::OpenVINO,
        Provider::DirectML => ExecutionMode::DirectML,
        Provider::XNNPack => ExecutionMode::XNNPack,
        Provider::Cpu => ExecutionMode::Cpu,
    }
}

/// The providers that exist on a platform, in the order in which they are considered.
pub open spec fn platform_order(platform: Platform) -> Seq<Provider> {
    match platform {
        Platform::Linux => seq![
            Provider::Cuda,
            Provider::OpenVINO,
            Provider::XNNPack,
            Provider::Cpu,
        ],
        Platform::MacOs => seq![Provider::CoreML, Provider::XNNPack, Provider::Cpu],
        Platform::Windows => seq![
            Provider::Cuda,
            Provider::OpenVINO,
            Provider::DirectML,
            Provider::XNNPack,
            Provider::Cpu,
        ],
    }
}

/// The mode that asks for a provider is the one of its name.
pub proof fn law_mode_asks_for_its_provider()
    ensures
        mode_of(Provider::Cuda) == ExecutionMode::Cuda,
        mode_of(Provider::CoreML) == ExecutionMode::CoreML,
        mode_of(Provider::OpenVINO) == ExecutionMode::OpenVINO,
        mode_of(Provider::DirectML) == ExecutionMode::DirectML,
        mode_of(Provider::XNNPack) == ExecutionMode::XNNPack,
        mode_of(Provider::Cpu) == ExecutionMode::Cpu,
        Provider::Cuda.text() == "CUDA"@,
        Provider::CoreML.text() == "CoreML"@,
        Provider::OpenVINO.text() == "OpenVINO"@,
        Provider::DirectML.text() == "DirectML"@,
        Provider::XNNPack.text() == "XNNPack"@,
        Provider::Cpu.text() == "CPU"@,
{
}

/// How good a provider is against the others: the best has the lowest number.
pub open spec fn rank(provider: Provider) -> int {
    match provider {
        Provider::Cuda => 0,
        Provider::CoreML => 1,
        Provider::OpenVINO => 2,
        Provider::DirectML => 3,
        Provider::XNNPack => 4,
        Provider::Cpu => 5,
    }
}

/// A platform has these providers and no others: CoreML on macOS, CUDA and OpenVINO elsewhere,
/// DirectML on Windows, XNNPack and the CPU everywhere. Each is considered once, and the better
/// before the worse.
pub proof fn law_platform_order(platform: Platform)
    ensures
        ({
            let order = platform_order(platform);
            &&& order.contains(Provider::Cuda) <==> platform != Platform::MacOs
            &&& order.contains(Provider::OpenVINO) <==> platform != Platform::MacOs
            &&& order.contains(Provider::CoreML) <==> platform == Platform::MacOs
            &&& order.contains(Provider::DirectML) <==> platform == Platform::Windows
            &&& order.contains(Provider::XNNPack)
            &&& order.contains(Provider::Cpu)
            &&& forall|i: int, j: int|
                0 <= i < j < order.len() ==> rank(#[trigger] order[i]) < rank(#[trigger] order[j])
        }),
        rank(Provider::Cuda) < rank(Provider::OpenVINO) < rank(Provider::DirectML) < rank(
            Provider::XNNPack,
        ) < rank(Provider::Cpu),
        rank(Provider::CoreML) < rank(Provider::XNNPack),
{
    let order = platform_order(platform);
    match platform {
        Platform::Linux => {
            assert(order[0] == Provider::Cuda && order[1] == Provider::OpenVINO);
            assert(order[2] == Provider::XNNPack && order[3] == Provider::Cpu);
        },
        Platform::MacOs => {
            assert(order[0] == Provider::CoreML && order[1] == Provider::XNNPack);
            assert(order[2] == Provider::Cpu);
        },
        Platform::Windows => {
            assert(order[0] == Provider::Cuda && order[1] == Provider::OpenVINO);
            assert(order[2] == Provider::DirectML && order[3] == Provider::XNNPack);
            assert(order[4] == Provider::Cpu);
        },
    }
}

/// Whether a mode considers a provider at all.
pub open spec fn wanted(mode: ExecutionMode, provider: Provider) -> bool {
    mode == ExecutionMode::Fallback || mode == mode_of(provider)
}

/// Whether the runtime is asked if a provider is available; the others are taken as available.
pub open spec fn is_probed(provider: Provider) -> bool {
    provider == Provider::Cuda || provider == Provider::OpenVINO || provider == Provider::DirectML
        || provider == Provider::XNNPack
}

/// The registration of a provider. CUDA, CoreML and OpenVINO must not fail silently when they
/// were asked for by name.
pub open spec fn choice(mode: ExecutionMode, provider: Provider) -> ProviderChoice {
    ProviderChoice {
        provider,
        error_on_failure: mode == mode_of(provider) && (provider == Provider::Cuda || provider
            == Provider::CoreML || provider == Provider::OpenVINO),
    }
}

/// The runtime is asked about every provider but CoreML and the CPU.
pub proof fn law_probed_providers(provider: Provider)
    ensures
        is_probed(provider) <==> provider != Provider::CoreML && provider != Provider::Cpu,
{
}

/// A registration is that of the provider itself. It must not fail silently exactly where the mode
/// asked for CUDA, CoreML or OpenVINO by name.
pub proof fn law_registration(mode: ExecutionMode, provider: Provider)
    ensures
        choice(mode, provider).provider == provider,
        choice(mode, provider).error_on_failure <==> {
            ||| mode == ExecutionMode::Cuda && provider == Provider::Cuda
            ||| mode == ExecutionMode::CoreML && provider == Provider::CoreML
            ||| mode == ExecutionMode::OpenVINO && provider == Provider::OpenVINO
        },
{
}

/// The provider that a mode asks for by name.
pub open spec fn named_provider(mode: ExecutionMode) -> Option<Provider> {
    match mode {
        ExecutionMode::Fallback => None,
        ExecutionMode::Cuda => Some(Provider::Cuda),
        ExecutionMode::DirectML => Some(Provider::DirectML),
        ExecutionMode::XNNPack => Some(Provider::XNNPack),
        ExecutionMode::CoreML => Some(Provider::CoreML),
        ExecutionMode::OpenVINO => Some(Provider::OpenVINO),
        ExecutionMode::Cpu => Some(Provider::Cpu),
    }
}

/// Whether a provider was asked for by name, the runtime is asked about it, and it is missing.
pub open spec fn is_missing(
    mode: ExecutionMode,
    provider: Provider,
    available: Set<Provider>,
) -> bool {
    named_provider(mode) == Some(provider) && is_probed(provider) && !available.contains(provider)
}

/// Whether a provider is registered when `available` are the available ones.
pub open spec fn is_used(mode: ExecutionMode, provider: Provider, available: Set<Provider>) -> bool {
    wanted(mode, provider) && (!is_probed(provider) || available.contains(provider))
}

/// The registrations of a list of providers, in order.
pub open spec fn choices(
    mode: ExecutionMode,
    order: Seq<Provider>,
    available: Set<Provider>,
) -> Seq<ProviderChoice> {
    order.filter(|p: Provider| is_used(mode, p, available)).map_values(
        |p: Provider| choice(mode, p),
    )
}

/// What the set-up comes to when `available` are the available providers: the registrations in
/// order, or the provider that was asked for by name and is missing.
pub open spec fn setup_outcome(
    platform: Platform,
    mode: ExecutionMode,
    available: Set<Provider>,
) -> Result<Seq<ProviderChoice>, Provider> {
    let order = platform_order(platform);
    match named_provider(mode) {
        Some(provider) if order.contains(provider) && is_missing(mode, provider, available) => Err(
            provider,
        ),
        _ => Ok(choices(mode, order, available)),
    }
}

/// A set-up in progress: the providers still to consider, the registrations so far, and the
/// provider that ended it, if one did.
#[verifier::ext_equal]
pub struct SetupView {
    pub mode: ExecutionMode,
    pub pending: Seq<Provider>,
    pub chosen: Seq<ProviderChoice>,
    pub missing: Option<Provider>,
}

impl SetupView {
    /// Passes over providers that need no answer from the runtime: unwanted ones are dropped,
    /// wanted ones that are not probed are registered.
    pub open spec fn settled(self) -> SetupView
        decreases self.pending.len(),
    {
        if self.pending.len() == 0 {
            self
        } else {
            let provider = self.pending.first();
            if wanted(self.mode, provider) && is_probed(provider) {
                self
            } else {
                let chosen = if wanted(self.mode, provider) {
                    self.chosen.push(choice(self.mode, provider))
                } else {
                    self.chosen
                };
                SetupView { pending: self.pending.drop_first(), chosen, ..self }.settled()
            }
        }
    }

    /// Takes the runtime's answer about the first pending provider.
    pub open spec fn answered(self, available: bool) -> SetupView {
        if self.pending.len() == 0 {
            self
        } else {
            let provider = self.pending.first();
            let rest = self.pending.drop_first();
            if available {
                SetupView {
                    pending: rest,
                    chosen: self.chosen.push(choice(self.mode, provider)),
                    ..self
                }.settled()
            } else if self.mode == mode_of(provider) {
                SetupView { pending: Seq::empty(), missing: Some(provider), ..self }
            } else {
                SetupView { pending: rest, ..self }.settled()
            }
        }
    }

    /// Whether nothing can be decided without an answer of the runtime.
    pub open spec fn is_settled(self) -> bool {
        self.pending.len() > 0 ==> wanted(self.mode, self.pending.first()) && is_probed(
            self.pending.first(),
        )
    }

    /// What is left when every question is answered from one set of available providers.
    pub open spec fn driven(self, available: Set<Provider>) -> SetupView
        decreases self.pending.len(),
    {
        if self.pending.len() == 0 {
            self
        } else {
            proof {
                law_answers_make_progress(self, available.contains(self.pending.first()));
            }
            self.answered(available.contains(self.pending.first())).driven(available)
        }
    }

    /// The result of a set-up with nothing pending.
    pub open spec fn outcome(self) -> Result<Seq<ProviderChoice>, Provider> {
        match self.missing {
            Some(provider) => Err(provider),
            None => Ok(self.chosen),
        }
    }
}

/// The state before any provider was considered.
pub open spec fn setup_start(platform: Platform, mode: ExecutionMode) -> SetupView {
    SetupView { mode, pending: platform_order(platform), chosen: Seq::empty(), missing: None }
}

proof fn lemma_settled(state: SetupView)
    ensures
        state.settled().is_settled(),
        state.settled().pending.len() <= state.pending.len(),
        state.settled().mode == state.mode,
        state.settled().missing == state.missing,
    decreases state.pending.len(),
{
    if state.pending.len() > 0 {
        let provider = state.pending.first();
        if !(wanted(state.mode, provider) && is_probed(provider)) {
            let chosen = if wanted(state.mode, provider) {
                state.chosen.push(choice(state.mode, provider))
            } else {
                state.chosen
            };
            lemma_settled(SetupView { pending: state.pending.drop_first(), chosen, ..state });
        }
    }
}

/// Every answer leaves fewer providers to consider, so that a set-up ends.
pub proof fn law_answers_make_progress(state: SetupView, available: bool)
    requires
        state.pending.len() > 0,
    ensures
        state.answered(available).pending.len() < state.pending.len(),
{
    let provider = state.pending.first();
    let rest = state.pending.drop_first();
    lemma_settled(SetupView { pending: rest, ..state });
    lemma_settled(
        SetupView {
            pending: rest,
            chosen: state.chosen.push(choice(state.mode, provider)),
            ..state
        },
    );
}

proof fn lemma_choices_first(mode: ExecutionMode, order: Seq<Provider>, available: Set<Provider>)
    requires
        order.len() > 0,
    ensures
        choices(mode, order, available) == (if is_used(mode, order.first(), available) {
            seq![choice(mode, order.first())]
        } else {
            Seq::empty()
        }) + choices(mode, order.drop_first(), available),
{
    let used = |p: Provider| is_used(mode, p, available);
    let head = seq![order.first()];
    assert(order =~= head + order.drop_first());
    Seq::filter_distributes_over_add(head, order.drop_first(), used);
    assert(head.filter(used) =~= (if used(order.first()) {
        head
    } else {
        Seq::empty()
    })) by {
        reveal(Seq::filter);
        assert(head.drop_last() =~= Seq::empty());
        assert(head.drop_last().filter(used) =~= Seq::empty());
    }
    assert(choices(mode, order, available) =~= (if is_used(mode, order.first(), available) {
        seq![choice(mode, order.first())]
    } else {
        Seq::empty()
    }) + choices(mode, order.drop_first(), available));
}

proof fn lemma_driven(state: SetupView, available: Set<Provider>)
    requires
        state.missing is None,
    ensures
        ({
            let end = state.settled().driven(available);
            &&& end.pending.len() == 0
            &&& match end.missing {
                Some(provider) => state.pending.contains(provider) && is_missing(
                    state.mode,
                    provider,
                    available,
                ),
                None => {
                    &&& forall|p: Provider| #[trigger]
                        state.pending.contains(p) ==> !is_missing(state.mode, p, available)
                    &&& end.chosen == state.chosen + choices(state.mode, state.pending, available)
                },
            }
        }),
    decreases state.pending.len(),
{
    let mode = state.mode;
    let end = state.settled().driven(available);
    if state.pending.len() == 0 {
        reveal(Seq::filter);
        assert(choices(mode, state.pending, available) =~= Seq::empty());
        assert(end.chosen =~= state.chosen + choices(mode, state.pending, available));
    } else {
        let provider = state.pending.first();
        let rest = state.pending.drop_first();
        let used = is_used(mode, provider, available);
        let next = SetupView {
            pending: rest,
            chosen: if used {
                state.chosen.push(choice(mode, provider))
            } else {
                state.chosen
            },
            ..state
        };
        assert(state.pending[0] == provider);
        assert(state.pending.contains(provider));
        assert forall|p: Provider| #[trigger] state.pending.contains(p) implies p == provider
            || rest.contains(p) by {
            let i = choose|i: int| 0 <= i < state.pending.len() && state.pending[i] == p;
            if i > 0 {
                assert(rest[i - 1] == p);
            }
        }
        assert forall|p: Provider| #[trigger] rest.contains(p) implies state.pending.contains(
            p,
        ) by {
            let i = choose|i: int| 0 <= i < rest.len() && rest[i] == p;
            assert(state.pending[i + 1] == p);
        }
        lemma_settled(next);
        lemma_driven(next, available);
        lemma_choices_first(mode, state.pending, available);
        if is_missing(mode, provider, available) {
            assert(state.settled() == state);
            let last = state.answered(false);
            assert(last.driven(available) == last);
            assert(end == last);
        } else {
            assert(end == next.settled().driven(available));
            if end.missing is None {
                assert(end.chosen =~= state.chosen + choices(mode, state.pending, available));
            }
        }
    }
}

/// Answering every question of a set-up from one set of available providers leads to the outcome
/// for that set, on every platform and in every mode.
pub proof fn law_setup_reaches_outcome(
    platform: Platform,
    mode: ExecutionMode,
    available: Set<Provider>,
)
    ensures
        setup_start(platform, mode).settled().driven(available).pending.len() == 0,
        setup_start(platform, mode).settled().driven(available).outcome() == setup_outcome(
            platform,
            mode,
            available,
        ),
{
    let start = setup_start(platform, mode);
    let order = platform_order(platform);
    lemma_driven(start, available);
    let end = start.settled().driven(available);
    if end.missing is None {
        assert(start.chosen + choices(mode, order, available) =~= choices(mode, order, available));
    }
}

/// The fallback mode never fails: it ends with the CPU, and no registration in it may turn a
/// failure into an error.
pub proof fn law_fallback_always_succeeds(platform: Platform, available: Set<Provider>)
    ensures
        setup_outcome(platform, ExecutionMode::Fallback, available) matches Ok(list)
            && list.len() > 0 && list.last().provider == Provider::Cpu && forall|i: int|
            0 <= i < list.len() ==> !(#[trigger] list[i]).error_on_failure,
{
    let mode = ExecutionMode::Fallback;
    let order = platform_order(platform);
    let used = |p: Provider| is_used(mode, p, available);
    reveal(Seq::filter);
    assert(order.last() == Provider::Cpu);
    assert(order.filter(used).last() == Provider::Cpu);
    assert(choices(mode, order, available).last() == choice(mode, Provider::Cpu));
}

proof fn lemma_fallback_choices(order: Seq<Provider>, available: Set<Provider>)
    requires
        forall|i: int, j: int|
            0 <= i < j < order.len() ==> rank(#[trigger] order[i]) < rank(#[trigger] order[j]),
    ensures
        ({
            let list = choices(ExecutionMode::Fallback, order, available);
            &&& forall|i: int|
                #![trigger list[i]]
                0 <= i < list.len() ==> order.contains(list[i].provider) && (!is_probed(
                    list[i].provider,
                ) || available.contains(list[i].provider))
            &&& forall|k: int|
                #![trigger order[k]]
                0 <= k < order.len() && (!is_probed(order[k]) || available.contains(order[k]))
                    ==> exists|i: int|
                    0 <= i < list.len() && (#[trigger] list[i]).provider == order[k]
            &&& forall|i: int, j: int|
                0 <= i < j < list.len() ==> rank((#[trigger] list[i]).provider) < rank(
                    (#[trigger] list[j]).provider,
                )
        }),
    decreases order.len(),
{
    let mode = ExecutionMode::Fallback;
    let list = choices(mode, order, available);
    if order.len() == 0 {
        reveal(Seq::filter);
    } else {
        let rest = order.drop_first();
        let less = choices(mode, rest, available);
        assert forall|i: int, j: int| 0 <= i < j < rest.len() implies rank(#[trigger] rest[i])
            < rank(#[trigger] rest[j]) by {
            assert(rest[i] == order[i + 1] && rest[j] == order[j + 1]);
        }
        lemma_fallback_choices(rest, available);
        lemma_choices_first(mode, order, available);
        let used = is_used(mode, order.first(), available);
        let from: int = if used {
            1
        } else {
            0
        };
        assert(list.len() == less.len() + from);
        assert(order[0] == order.first());
        assert forall|i: int| #![trigger list[i]] 0 <= i < list.len() implies order.contains(
            list[i].provider,
        ) && (!is_probed(list[i].provider) || available.contains(list[i].provider)) by {
            if i >= from {
                assert(list[i] == less[i - from]);
                let k = choose|k: int| 0 <= k < rest.len() && rest[k] == less[i - from].provider;
                assert(order[k + 1] == list[i].provider);
            }
        }
        assert forall|k: int|
            #![trigger order[k]]
            0 <= k < order.len() && (!is_probed(order[k]) || available.contains(
                order[k],
            )) implies exists|i: int|
            0 <= i < list.len() && (#[trigger] list[i]).provider == order[k] by {
            if k == 0 {
                assert(used);
                assert(list[0].provider == order[0]);
            } else {
                assert(rest[k - 1] == order[k]);
                let i = choose|i: int|
                    0 <= i < less.len() && (#[trigger] less[i]).provider == rest[k - 1];
                assert(list[i + from] == less[i]);
            }
        }
        assert forall|i: int, j: int| 0 <= i < j < list.len() implies rank(
            (#[trigger] list[i]).provider,
        ) < rank((#[trigger] list[j]).provider) by {
            assert(list[j] == less[j - from]);
            let k = choose|k: int| 0 <= k < rest.len() && rest[k] == less[j - from].provider;
            assert(order[k + 1] == list[j].provider);
            if i >= from {
                assert(list[i] == less[i - from]);
            } else {
                assert(list[i].provider == order[0]);
            }
        }
    }
}

/// The fallback mode takes every provider that the platform has and that is available, best first,
/// each once and none of them strictly; CoreML and the CPU count as available. It takes no other.
pub proof fn law_fallback_takes_all_available(platform: Platform, available: Set<Provider>)
    ensures
        setup_outcome(platform, ExecutionMode::Fallback, available) is Ok,
        ({
            let list = setup_outcome(platform, ExecutionMode::Fallback, available)->Ok_0;
            let elsewhere = platform != Platform::MacOs;
            let takes = |p: Provider|
                exists|i: int| 0 <= i < list.len() && (#[trigger] list[i]).provider == p;
            &&& takes(Provider::Cuda) <==> elsewhere && available.contains(Provider::Cuda)
            &&& takes(Provider::OpenVINO) <==> elsewhere && available.contains(Provider::OpenVINO)
            &&& takes(Provider::DirectML) <==> platform == Platform::Windows && available.contains(
                Provider::DirectML,
            )
            &&& takes(Provider::XNNPack) <==> available.contains(Provider::XNNPack)
            &&& takes(Provider::CoreML) <==> platform == Platform::MacOs
            &&& takes(Provider::Cpu)
            &&& forall|i: int, j: int|
                0 <= i < j < list.len() ==> rank((#[trigger] list[i]).provider) < rank(
                    (#[trigger] list[j]).provider,
                )
            &&& forall|i: int| 0 <= i < list.len() ==> !(#[trigger] list[i]).error_on_failure
        }),
{
    let order = platform_order(platform);
    let list = choices(ExecutionMode::Fallback, order, available);
    law_platform_order(platform);
    lemma_fallback_choices(order, available);
    law_fallback_always_succeeds(platform, available);
    assert forall|p: Provider| #![trigger order.contains(p)] order.contains(p) && (!is_probed(p)
        || available.contains(p)) implies exists|i: int|
        0 <= i < list.len() && (#[trigger] list[i]).provider == p by {
        let k = choose|k: int| 0 <= k < order.len() && order[k] == p;
        assert(order[k] == p);
    }
}

/// A mode that names a provider registers that provider alone, or nothing where the platform
/// does not have it; it fails exactly when the platform has it, it is probed, and it is missing.
pub proof fn law_named_mode_uses_one_provider(
    platform: Platform,
    provider: Provider,
    available: Set<Provider>,
)
    ensures
        setup_outcome(platform, mode_of(provider), available) == if !platform_order(
            platform,
        ).contains(provider) {
            Ok(Seq::empty())
        } else if is_probed(provider) && !available.contains(provider) {
            Err(provider)
        } else {
            Ok(seq![choice(mode_of(provider), provider)])
        },
{
    let mode = mode_of(provider);
    let order = platform_order(platform);
    let used = |p: Provider| is_used(mode, p, available);
    assert forall|p: Provider| mode_of(p) == mode implies p == provider by {}
    reveal_with_fuel(Seq::filter, 6);
    if order.contains(provider) {
        if is_probed(provider) && !available.contains(provider) {
            assert(is_missing(mode, provider, available));
        } else {
            assert(order.filter(used) =~= seq![provider]);
            assert(choices(mode, order, available) =~= seq![choice(mode, provider)]);
        }
    } else {
        assert forall|i: int| 0 <= i < order.len() implies order[i] != provider by {
            assert(order.contains(order[i]));
        }
        assert(order.filter(used) =~= Seq::empty());
        assert(choices(mode, order, available) =~= Seq::empty());
    }
}

/// A mode that asks for a provider by name ends with an error exactly where the platform has that
/// provider, the runtime is asked about it, and it is not available.
pub proof fn law_named_mode_fails_where_missing(
    platform: Platform,
    mode: ExecutionMode,
    available: Set<Provider>,
)
    ensures
        ({
            let outcome = setup_outcome(platform, mode, available);
            let elsewhere = platform != Platform::MacOs;
            &&& outcome == Err::<Seq<ProviderChoice>, Provider>(Provider::Cuda) <==> mode
                == ExecutionMode::Cuda && elsewhere && !available.contains(Provider::Cuda)
            &&& outcome == Err::<Seq<ProviderChoice>, Provider>(Provider::OpenVINO) <==> mode
                == ExecutionMode::OpenVINO && elsewhere && !available.contains(Provider::OpenVINO)
            &&& outcome == Err::<Seq<ProviderChoice>, Provider>(Provider::DirectML) <==> mode
                == ExecutionMode::DirectML && platform == Platform::Windows
                && !available.contains(Provider::DirectML)
            &&& outcome == Err::<Seq<ProviderChoice>, Provider>(Provider::XNNPack) <==> mode
                == ExecutionMode::XNNPack && !available.contains(Provider::XNNPack)
            &&& outcome != Err::<Seq<ProviderChoice>, Provider>(Provider::CoreML)
            &&& outcome != Err::<Seq<ProviderChoice>, Provider>(Provider::Cpu)
        }),
{
    law_platform_order(platform);
}

/// A mode that asks for a provider by name registers at most that provider, whatever else is
/// available: none on a platform that does not have it, and otherwise that one where it is
/// available, strictly for CUDA, CoreML and OpenVINO.
pub proof fn law_named_mode_registers_its_provider(platform: Platform, available: Set<Provider>)
    ensures
        ({
            let elsewhere = platform != Platform::MacOs;
            let none = Ok::<Seq<ProviderChoice>, Provider>(Seq::empty());
            let one = |provider: Provider, error_on_failure: bool|
                Ok::<Seq<ProviderChoice>, Provider>(
                    seq![ProviderChoice { provider, error_on_failure }],
                );
            let outcome = |mode: ExecutionMode| setup_outcome(platform, mode, available);
            &&& !elsewhere ==> outcome(ExecutionMode::Cuda) == none
            &&& elsewhere && available.contains(Provider::Cuda) ==> outcome(ExecutionMode::Cuda)
                == one(Provider::Cuda, true)
            &&& !elsewhere ==> outcome(ExecutionMode::OpenVINO) == none
            &&& elsewhere && available.contains(Provider::OpenVINO) ==> outcome(
                ExecutionMode::OpenVINO,
            ) == one(Provider::OpenVINO, true)
            &&& platform != Platform::Windows ==> outcome(ExecutionMode::DirectML) == none
            &&& platform == Platform::Windows && available.contains(Provider::DirectML) ==> outcome(
                ExecutionMode::DirectML,
            ) == one(Provider::DirectML, false)
            &&& available.contains(Provider::XNNPack) ==> outcome(ExecutionMode::XNNPack) == one(
                Provider::XNNPack,
                false,
            )
            &&& elsewhere ==> outcome(ExecutionMode::CoreML) == none
            &&& !elsewhere ==> outcome(ExecutionMode::CoreML) == one(Provider::CoreML, true)
            &&& outcome(ExecutionMode::Cpu) == one(Provider::Cpu, false)
        }),
{
    law_platform_order(platform);
    law_named_mode_uses_one_provider(platform, Provider::Cuda, available);
    law_named_mode_uses_one_provider(platform, Provider::OpenVINO, available);
    law_named_mode_uses_one_provider(platform, Provider::DirectML, available);
    law_named_mode_uses_one_provider(platform, Provider::XNNPack, available);
    law_named_mode_uses_one_provider(platform, Provider::CoreML, available);
    law_named_mode_uses_one_provider(platform, Provider::Cpu, available);
}

/// The runtime is asked only about a provider that the mode considers and that is not taken as
/// available, at the start and after every answer; and an answer about it keeps the registrations
/// that were made before.
pub proof fn law_setup_asks_what_it_needs(
    platform: Platform,
    mode: ExecutionMode,
    state: SetupView,
    available: bool,
)
    ensures
        ({
            let start = setup_start(platform, mode).settled();
            let after = state.answered(available);
            &&& start.mode == mode
            &&& start.pending.len() > 0 ==> {
                &&& start.pending.first() != Provider::CoreML
                &&& start.pending.first() != Provider::Cpu
                &&& mode == ExecutionMode::Fallback || mode == mode_of(start.pending.first())
            }
            &&& after.mode == state.mode
            &&& state.pending.len() > 0 && after.pending.len() > 0 ==> {
                &&& after.pending.first() != Provider::CoreML
                &&& after.pending.first() != Provider::Cpu
                &&& state.mode == ExecutionMode::Fallback || state.mode == mode_of(
                    after.pending.first(),
                )
            }
            &&& state.chosen.is_prefix_of(after.chosen)
        }),
{
    lemma_settled(setup_start(platform, mode));
    if state.pending.len() > 0 {
        let provider = state.pending.first();
        let rest = state.pending.drop_first();
        let passed = SetupView { pending: rest, ..state };
        let taken = SetupView { chosen: state.chosen.push(choice(state.mode, provider)), ..passed };
        lemma_settled(passed);
        lemma_settled(taken);
        lemma_settled_keeps(passed);
        lemma_settled_keeps(taken);
    }
}

proof fn lemma_settled_keeps(state: SetupView)
    ensures
        state.chosen.is_prefix_of(state.settled().chosen),
    decreases state.pending.len(),
{
    if state.pending.len() > 0 {
        let provider = state.pending.first();
        if !(wanted(state.mode, provider) && is_probed(provider)) {
            let chosen = if wanted(state.mode, provider) {
                state.chosen.push(choice(state.mode, provider))
            } else {
                state.chosen
            };
            lemma_settled_keeps(SetupView { pending: state.pending.drop_first(), chosen, ..state });
        }
    }
}

/// An answer that nothing asked for changes nothing. One that was asked for registers the provider
/// in question where it is available, ends the set-up where it is missing and was asked for by name,
/// and otherwise passes it over.
pub proof fn law_answer_is_about_the_provider_in_question(state: SetupView, available: bool)
    ensures
        ({
            let after = state.answered(available);
            let n = state.chosen.len() as int;
            &&& state.pending.len() == 0 ==> after == state
            &&& state.pending.len() > 0 && available ==> {
                &&& after.chosen.len() > n
                &&& after.chosen[n].provider == state.pending.first()
                &&& after.missing == state.missing
            }
            &&& state.pending.len() > 0 && !available && state.mode == mode_of(
                state.pending.first(),
            ) ==> {
                &&& after.pending.len() == 0
                &&& after.missing == Some(state.pending.first())
            }
            &&& state.pending.len() > 0 && !available && state.mode != mode_of(
                state.pending.first(),
            ) ==> after.missing == state.missing
        }),
{
    if state.pending.len() > 0 {
        let provider = state.pending.first();
        let passed = SetupView { pending: state.pending.drop_first(), ..state };
        let taken = SetupView { chosen: state.chosen.push(choice(state.mode, provider)), ..passed };
        lemma_settled(passed);
        lemma_settled(taken);
        lemma_settled_keeps(taken);
        let n = state.chosen.len() as int;
        assert(taken.chosen[n] == choice(state.mode, provider));
        assert(taken.chosen.is_prefix_of(taken.settled().chosen));
        assert(taken.settled().chosen[n] == taken.chosen[n]);
    }
}

fn mode_for(provider: Provider) -> (mode: ExecutionMode)
    ensures
        mode == mode_of(provider),
{
    match provider {
        Provider::Cuda => ExecutionMode::Cuda,
        Provider::CoreML => ExecutionMode::CoreML,
        Provider::OpenVINO => ExecutionMode::OpenVINO,
        Provider::DirectML => ExecutionMode::DirectML,
        Provider::XNNPack => ExecutionMode::XNNPack,
        Provider::Cpu => ExecutionMode::Cpu,
    }
}

fn order_for(platform: Platform) -> (order: Vec<Provider>)
    ensures
        order@ == platform_order(platform),
{
    let order: Vec<Provider> = match platform {
        Platform::Linux => vec![
            Provider::Cuda,
            Provider::OpenVINO,
            Provider::XNNPack,
            Provider::Cpu,
        ],
        Platform::MacOs => vec![Provider::CoreML, Provider::XNNPack, Provider::Cpu],
        Platform::Windows => vec![
            Provider::Cuda,
            Provider::OpenVINO,
            Provider::DirectML,
            Provider::XNNPack,
            Provider::Cpu,
        ],
    };
    assert(order@ =~= platform_order(platform));
    order
}

fn registration(mode: ExecutionMode, provider: Provider) -> (registered: ProviderChoice)
    ensures
        registered == choice(mode, provider),
{
    let must_work: bool = match provider {
        Provider::Cuda | Provider::CoreML | Provider::OpenVINO => true,
        _ => false,
    };
    ProviderChoice { provider, error_on_failure: must_work && mode == mode_for(provider) }
}

/// A set-up of execution providers that waits for answers of the runtime.
pub struct ProviderSetup {
    mode: ExecutionMode,
    order: Vec<Provider>,
    next: usize,
    chosen: Vec<ProviderChoice>,
    missing: Option<Provider>,
}

impl View for ProviderSetup {
    type V = SetupView;

    closed spec fn view(&self) -> SetupView {
        SetupView {
            mode: self.mode,
            pending: self.order@.skip(self.next as int),
            chosen: self.chosen@,
            missing: self.missing,
        }
    }
}

impl ProviderSetup {
    #[verifier::type_invariant]
    spec fn in_range(self) -> bool {
        self.next <= self.order.len()
    }

    /// Passes over the providers that need no answer of the runtime.
    fn settle(self) -> (settled: Self)
        ensures
            settled@ == self@.settled(),
    {
        proof {
            use_type_invariant(&self);
        }
        let ProviderSetup { mode, order, next, chosen, missing } = self;
        let mut at: usize = next;
        let mut list: Vec<ProviderChoice> = chosen;
        let ghost goal = self@.settled();
        while at < order.len()
            invariant_except_break
                at <= order.len(),
                goal == (SetupView {
                    mode,
                    pending: order@.skip(at as int),
                    chosen: list@,
                    missing,
                }).settled(),
            ensures
                at <= order.len(),
                goal == (SetupView {
                    mode,
                    pending: order@.skip(at as int),
                    chosen: list@,
                    missing,
                }),
            decreases order.len() - at,
        {
            let provider = order[at];
            assert(order@.skip(at as int).drop_first() =~= order@.skip(at + 1));
            assert(order@.skip(at as int).first() == provider);
            if mode == ExecutionMode::Fallback || mode == mode_for(provider) {
                let probed: bool = match provider {
                    Provider::CoreML | Provider::Cpu => false,
                    _ => true,
                };
                if probed {
                    break;
                }
                list.push(registration(mode, provider));
            }
            at += 1;
        }
        ProviderSetup { mode, order, next: at, chosen: list, missing }
    }

    /// The provider the runtime is to be asked about, or `None` when the set-up has ended.
    pub fn probe(&self) -> (provider: Option<Provider>)
        ensures
            provider == if self@.pending.len() == 0 {
                None
            } else {
                Some(self@.pending.first())
            },
    {
        proof {
            use_type_invariant(self);
        }
        if self.next < self.order.len() {
            Some(self.order[self.next])
        } else {
            None
        }
    }

    /// Takes the runtime's answer about the provider that `probe` names. An answer that nothing
    /// asked for changes nothing.
    pub fn step(self, available: bool) -> (after: Self)
        ensures
            after@ == self@.answered(available),
    {
        proof {
            use_type_invariant(&self);
        }
        let ProviderSetup { mode, order, next, chosen, missing } = self;
        if next >= order.len() {
            return ProviderSetup { mode, order, next, chosen, missing };
        }
        let provider = order[next];
        let mut list: Vec<ProviderChoice> = chosen;
        assert(order@.skip(next as int).drop_first() =~= order@.skip(next + 1));
        assert(order@.skip(next as int).first() == provider);
        if available {
            list.push(registration(mode, provider));
            ProviderSetup { mode, order, next: next + 1, chosen: list, missing }.settle()
        } else if mode == mode_for(provider) {
            let end: usize = order.len();
            assert(order@.skip(end as int) =~= Seq::empty());
            ProviderSetup { mode, order, next: end, chosen: list, missing: Some(provider) }
        } else {
            ProviderSetup { mode, order, next: next + 1, chosen: list, missing }.settle()
        }
    }

    /// The registrations of a set-up that has ended, or the provider that was asked for by name
    /// and is missing.
    pub fn finish(self) -> (outcome: Result<Vec<ProviderChoice>, Provider>)
        ensures
            match outcome {
                Ok(list) => self@.outcome() == Ok::<Seq<ProviderChoice>, Provider>(list@),
                Err(provider) => self@.outcome() == Err::<Seq<ProviderChoice>, Provider>(provider),
            },
    {
        match self.missing {
            Some(provider) => Err(provider),
            None => Ok(self.chosen),
        }
    }
}

/// Begins the set-up of the execution providers for a mode.
pub fn setup_execution_providers(platform: Platform, mode: ExecutionMode) -> (setup: ProviderSetup)
    ensures
        setup@ == setup_start(platform, mode).settled(),
{
    let order = order_for(platform);
    assert(order@.skip(0) =~= order@);
    ProviderSetup { mode, order, next: 0, chosen: Vec::new(), missing: None }.settle()
}

} // verus!
