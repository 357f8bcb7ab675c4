use embed_bench::providers::{
    cuda_options, setup_execution_providers, ConvAlgorithmSearch, ExecutionMode, Platform, Provider,
    ProviderChoice,
};

type Outcome = (Vec<Provider>, Result<Vec<ProviderChoice>, Provider>);

fn run(platform: Platform, mode: ExecutionMode, available: &[Provider]) -> Outcome {
    let mut asked = Vec::new();
    let mut setup = setup_execution_providers(platform, mode);
    while let Some(provider) = setup.probe() {
        asked.push(provider);
        setup = setup.step(available.contains(&provider));
    }
    (asked, setup.finish())
}

fn quiet(provider: Provider) -> ProviderChoice {
    ProviderChoice { provider, error_on_failure: false }
}

fn strict(provider: Provider) -> ProviderChoice {
    ProviderChoice { provider, error_on_failure: true }
}

#[test]
fn fallback_takes_what_is_available_in_order() {
    let (asked, outcome) =
        run(Platform::Windows, ExecutionMode::Fallback, &[Provider::DirectML, Provider::Cuda]);
    assert_eq!(
        asked,
        vec![Provider::Cuda, Provider::OpenVINO, Provider::DirectML, Provider::XNNPack]
    );
    assert_eq!(
        outcome,
        Ok(vec![quiet(Provider::Cuda), quiet(Provider::DirectML), quiet(Provider::Cpu)])
    );
}

#[test]
fn fallback_ends_with_the_cpu_alone_where_nothing_is_available() {
    let (asked, outcome) = run(Platform::Linux, ExecutionMode::Fallback, &[]);
    assert_eq!(asked, vec![Provider::Cuda, Provider::OpenVINO, Provider::XNNPack]);
    assert_eq!(outcome, Ok(vec![quiet(Provider::Cpu)]));
}

#[test]
fn fallback_on_macos_begins_with_coreml() {
    let (asked, outcome) = run(Platform::MacOs, ExecutionMode::Fallback, &[Provider::XNNPack]);
    assert_eq!(asked, vec![Provider::XNNPack]);
    assert_eq!(
        outcome,
        Ok(vec![quiet(Provider::CoreML), quiet(Provider::XNNPack), quiet(Provider::Cpu)])
    );
}

#[test]
fn a_named_provider_is_registered_alone() {
    let all = [Provider::Cuda, Provider::OpenVINO, Provider::DirectML, Provider::XNNPack];
    let on_windows = |mode| run(Platform::Windows, mode, &all);
    assert_eq!(
        on_windows(ExecutionMode::Cuda),
        (vec![Provider::Cuda], Ok(vec![strict(Provider::Cuda)]))
    );
    assert_eq!(
        on_windows(ExecutionMode::OpenVINO),
        (vec![Provider::OpenVINO], Ok(vec![strict(Provider::OpenVINO)]))
    );
    assert_eq!(
        on_windows(ExecutionMode::DirectML),
        (vec![Provider::DirectML], Ok(vec![quiet(Provider::DirectML)]))
    );
    assert_eq!(
        on_windows(ExecutionMode::XNNPack),
        (vec![Provider::XNNPack], Ok(vec![quiet(Provider::XNNPack)]))
    );
    assert_eq!(on_windows(ExecutionMode::Cpu), (vec![], Ok(vec![quiet(Provider::Cpu)])));
    assert_eq!(
        run(Platform::MacOs, ExecutionMode::CoreML, &[]),
        (vec![], Ok(vec![strict(Provider::CoreML)]))
    );
}

#[test]
fn a_named_provider_that_is_missing_fails() {
    for (mode, provider) in [
        (ExecutionMode::Cuda, Provider::Cuda),
        (ExecutionMode::OpenVINO, Provider::OpenVINO),
        (ExecutionMode::DirectML, Provider::DirectML),
        (ExecutionMode::XNNPack, Provider::XNNPack),
    ] {
        assert_eq!(run(Platform::Windows, mode, &[]), (vec![provider], Err(provider)));
    }
}

#[test]
fn a_named_provider_of_another_platform_registers_nothing() {
    let all = [Provider::Cuda, Provider::OpenVINO, Provider::DirectML, Provider::XNNPack];
    assert_eq!(run(Platform::MacOs, ExecutionMode::Cuda, &all), (vec![], Ok(vec![])));
    assert_eq!(run(Platform::MacOs, ExecutionMode::OpenVINO, &all), (vec![], Ok(vec![])));
    assert_eq!(run(Platform::Linux, ExecutionMode::DirectML, &all), (vec![], Ok(vec![])));
    assert_eq!(run(Platform::Linux, ExecutionMode::CoreML, &all), (vec![], Ok(vec![])));
    assert_eq!(run(Platform::Windows, ExecutionMode::CoreML, &all), (vec![], Ok(vec![])));
}

#[test]
fn an_answer_after_the_end_changes_nothing() {
    let setup = setup_execution_providers(Platform::Linux, ExecutionMode::Cpu);
    assert_eq!(setup.probe(), None);
    assert_eq!(setup.step(false).step(true).finish(), Ok(vec![quiet(Provider::Cpu)]));
}

#[test]
fn mode_names() {
    let names = ["fallback", "cuda", "directml", "xnnpack", "coreml", "openvino", "cpu"];
    let modes = ExecutionMode::all();
    assert_eq!(modes.len(), names.len());
    for (mode, name) in modes.into_iter().zip(names) {
        assert_eq!(mode.value_name(), name);
        assert_eq!(ExecutionMode::from_value_name(name), Some(mode));
    }
    assert_eq!(ExecutionMode::from_value_name("Cuda"), None);
    assert_eq!(ExecutionMode::from_value_name(""), None);
    assert_eq!(ExecutionMode::default(), ExecutionMode::Fallback);
}

#[test]
fn provider_labels() {
    assert_eq!(Provider::Cuda.label(), "CUDA");
    assert_eq!(Provider::CoreML.label(), "CoreML");
    assert_eq!(Provider::OpenVINO.label(), "OpenVINO");
    assert_eq!(Provider::DirectML.label(), "DirectML");
    assert_eq!(Provider::XNNPack.label(), "XNNPack");
    assert_eq!(Provider::Cpu.label(), "CPU");
}

#[test]
fn cuda_is_registered_with_tf32() {
    let options = cuda_options();
    assert!(options.tf32);
    assert_eq!(options.conv_algorithm_search, ConvAlgorithmSearch::Default);
}
