use embed_bench::download::{Download, DownloadAction, DownloadEnd, DownloadPlan, RepoKind};
use embed_bench::load::{Load, LoadAction, LoadAnswer, LoadEnd, ModelFile};
use embed_bench::model::{
    get_embedding_model_info, snapshot_folder, EmbedStep, Model, ModelKind, Pooling,
    QuantizationMode, BATCH_SIZE,
};
use embed_bench::providers::ExecutionMode;

const SNAPSHOT: &str = "/cache/models--gety-ai--granite-embedding-107m-multilingual-onnx/snapshots/4713bc4053d578f45e263e5857262b69f1f4296f";

fn model(profiling: Option<&str>) -> Model {
    Model::new(get_embedding_model_info(ModelKind::Int8), "/cache", profiling)
}

/// Drives a fetching: the files that were asked for, and the fetching at its end.
fn fetch(mut download: Download, missing: Option<&str>) -> (Vec<String>, Download) {
    let mut asked = Vec::new();
    loop {
        match download.action() {
            DownloadAction::Fetch(path) => {
                let fetched = missing != Some(path.as_str());
                asked.push(path);
                download = download.step(fetched);
            }
            DownloadAction::Stop(_) => return (asked, download),
        }
    }
}

type Driven = (Vec<String>, bool, bool, LoadEnd);

/// Drives a build: the files that were read, whether providers and a session were asked for, and
/// the end.
fn drive(load: Load, unreadable: Option<&str>, providers: bool, builds: bool) -> Driven {
    let (reads, asked, built, load) = drive_to_end(load, unreadable, providers, builds);
    match load.action() {
        LoadAction::Stop(end) => (reads, asked, built, end),
        _ => panic!("the build has not ended"),
    }
}

fn drive_to_end(
    mut load: Load,
    unreadable: Option<&str>,
    providers: bool,
    builds: bool,
) -> (Vec<String>, bool, bool, Load) {
    let (mut reads, mut asked, mut built) = (Vec::new(), false, false);
    loop {
        let answer = match load.action() {
            LoadAction::Read { path, .. } => {
                let well = unreadable.map_or(true, |name| !path.ends_with(name));
                reads.push(path);
                LoadAnswer::Read(well)
            }
            LoadAction::Providers(_) => {
                asked = true;
                LoadAnswer::Providers(providers)
            }
            LoadAction::Build(_) => {
                built = true;
                LoadAnswer::Built(builds)
            }
            LoadAction::Stop(_) => return (reads, asked, built, load),
        };
        load = load.step(answer);
    }
}

#[test]
fn describes_the_model() {
    let info = get_embedding_model_info(ModelKind::default());
    assert_eq!(info.id, "gety-ai/granite-embedding-107m-multilingual-onnx");
    assert_eq!(info.revision, "4713bc4053d578f45e263e5857262b69f1f4296f");
    assert_eq!(info.onnx_file, "onnx/model_quint8_avx2.onnx");
    assert_eq!(info.tokenizer_file, "tokenizer.json");
    assert_eq!(info.config_file, "config.json");
    assert_eq!(info.special_tokens_map_file, "special_tokens_map.json");
    assert_eq!(info.tokenizer_config_file, "tokenizer_config.json");
    assert_eq!(info.pooling, Pooling::Cls);
    assert_eq!(info.quantization, QuantizationMode::Dynamic);
    assert_eq!(info.embedding_dims, 384);
}

#[test]
fn kinds_differ_in_the_weights_file() {
    let file = |kind| get_embedding_model_info(kind).onnx_file;
    assert_eq!(file(ModelKind::Int8), "onnx/model_quint8_avx2.onnx");
    assert_eq!(file(ModelKind::Fp16), "onnx/model_optimized.onnx");
    assert_eq!(file(ModelKind::Fp32), "onnx/model.onnx");
}

#[test]
fn kind_names() {
    for (kind, name) in
        [(ModelKind::Int8, "int8"), (ModelKind::Fp16, "fp16"), (ModelKind::Fp32, "fp32")]
    {
        assert_eq!(kind.value_name(), name);
        assert_eq!(ModelKind::from_value_name(name), Some(kind));
    }
    assert_eq!(ModelKind::from_value_name("int4"), None);
}

#[test]
fn model_directory_is_a_snapshot_below_the_cache() {
    let model = model(None);
    assert_eq!(model.cache_dir(), "/cache");
    assert_eq!(model.model_dir(), SNAPSHOT);
    assert_eq!(snapshot_folder("a/b/c", "r"), "models--a--b--c/snapshots/r");
}

#[test]
fn snapshot_folder_is_that_of_the_hub() {
    let info = get_embedding_model_info(ModelKind::Fp16);
    let repo = hf_hub::Repo::with_revision(
        info.id.clone(),
        hf_hub::RepoType::Model,
        info.revision.clone(),
    );
    assert_eq!(
        snapshot_folder(&info.id, &info.revision),
        format!("{}/snapshots/{}", repo.folder_name(), info.revision)
    );
}

#[test]
fn files_to_fetch_in_order() {
    let download = model(None).download_model().unwrap();
    let plan = download.plan();
    assert_eq!(plan.cache, "/cache");
    assert_eq!(plan.repo_kind, RepoKind::Model);
    assert_eq!(plan.endpoint, "https://hf-mirror.com");
    assert_eq!(plan.repo_id, "gety-ai/granite-embedding-107m-multilingual-onnx");
    assert_eq!(plan.revision, "4713bc4053d578f45e263e5857262b69f1f4296f");
    let files: Vec<(&str, &str)> =
        plan.files.iter().map(|f| (f.path.as_str(), f.failure.as_str())).collect();
    assert_eq!(
        files,
        vec![
            ("onnx/model_quint8_avx2.onnx", "Failed to download onnx file"),
            ("config.json", "Failed to download config file"),
            ("tokenizer.json", "Failed to download tokenizer file"),
            ("special_tokens_map.json", "Failed to download special tokens map file"),
            ("tokenizer_config.json", "Failed to download tokenizer config file"),
        ]
    );
    let (asked, download) = fetch(download, None);
    assert_eq!(
        asked,
        vec![
            "onnx/model_quint8_avx2.onnx",
            "config.json",
            "tokenizer.json",
            "special_tokens_map.json",
            "tokenizer_config.json",
        ]
    );
    assert!(matches!(download.action(), DownloadAction::Stop(DownloadEnd::Complete)));
}

#[test]
fn a_file_that_cannot_be_fetched_ends_the_fetching() {
    for (missing, count, message) in [
        ("onnx/model_quint8_avx2.onnx", 1, "Failed to download onnx file"),
        ("config.json", 2, "Failed to download config file"),
        ("tokenizer.json", 3, "Failed to download tokenizer file"),
        ("special_tokens_map.json", 4, "Failed to download special tokens map file"),
        ("tokenizer_config.json", 5, "Failed to download tokenizer config file"),
    ] {
        let mut model = model(None);
        let (asked, download) = fetch(model.download_model().unwrap(), Some(missing));
        assert_eq!(asked.len(), count);
        assert_eq!(asked.last().unwrap(), missing);
        let download = download.step(true);
        match download.action() {
            DownloadAction::Stop(DownloadEnd::Failed(failure)) => assert_eq!(failure, message),
            _ => panic!("a file is missing"),
        }
        model.finish_download(download);
        assert!(model.download_model().is_some());
    }
}

#[test]
fn nothing_to_fetch_is_complete() {
    let plan = DownloadPlan {
        cache: "/cache".to_string(),
        endpoint: "https://hf-mirror.com".to_string(),
        repo_kind: RepoKind::Model,
        repo_id: "a/b".to_string(),
        revision: "r".to_string(),
        files: Vec::new(),
    };
    let download = Download::begin(plan);
    assert!(matches!(download.action(), DownloadAction::Stop(DownloadEnd::Complete)));
    let mut model = model(None);
    model.finish_download(download);
    assert!(model.download_model().is_some());
}

#[test]
fn what_was_done_for_another_model_does_not_count() {
    let info = |kind| get_embedding_model_info(kind);
    let mut model = model(None);
    for other in [
        Model::new(info(ModelKind::Fp16), "/cache", None),
        Model::new(info(ModelKind::Int8), "/elsewhere", None),
    ] {
        model.finish_download(fetch(other.download_model().unwrap(), None).1);
        assert!(model.download_model().is_some());
    }
    let same = Model::new(info(ModelKind::Int8), "/cache", Some("/p.json"));
    model.finish_download(fetch(same.download_model().unwrap(), None).1);
    assert!(model.download_model().is_none());
    for other in [
        Model::new(info(ModelKind::Fp16), "/cache", None),
        Model::new(info(ModelKind::Int8), "/elsewhere", None),
        Model::new(info(ModelKind::Int8), "/cache", Some("/p.json")),
    ] {
        let load = other.get_model(ExecutionMode::Cpu).unwrap();
        model.finish_load(drive_to_end(load, None, true, true).3);
        assert!(model.get_model(ExecutionMode::Cpu).is_some());
    }
}

#[test]
fn files_to_read_and_session_options() {
    let load = model(Some("/out/profile.json")).get_model(ExecutionMode::Cuda).unwrap();
    let plan = load.plan();
    assert_eq!(plan.onnx_file, format!("{}/onnx/model_quint8_avx2.onnx", SNAPSHOT));
    assert_eq!(plan.tokenizer_file, format!("{}/tokenizer.json", SNAPSHOT));
    assert_eq!(plan.config_file, format!("{}/config.json", SNAPSHOT));
    assert_eq!(plan.special_tokens_map_file, format!("{}/special_tokens_map.json", SNAPSHOT));
    assert_eq!(plan.tokenizer_config_file, format!("{}/tokenizer_config.json", SNAPSHOT));
    assert_eq!(plan.execution_mode, ExecutionMode::Cuda);
    assert!(!plan.parallel_execution);
    assert_eq!(plan.profiling_output, Some("/out/profile.json".to_string()));
    assert_eq!(plan.pooling, Pooling::Cls);
    assert_eq!(plan.quantization, QuantizationMode::Static);
    assert_eq!(model(None).get_model(ExecutionMode::Cpu).unwrap().plan().profiling_output, None);
}

#[test]
fn reads_the_files_that_it_fetches() {
    let model = model(None);
    let dir = model.model_dir();
    let fetched = model.download_model().unwrap();
    let mut fetched: Vec<String> =
        fetched.plan().files.iter().map(|f| format!("{}/{}", dir, f.path)).collect();
    let load = model.get_model(ExecutionMode::Cpu).unwrap();
    let (mut read, _, _, end) = drive(load, None, true, true);
    assert_eq!(end, LoadEnd::Complete);
    fetched.sort();
    read.sort();
    assert_eq!(fetched, read);
}

#[test]
fn a_build_reads_then_asks_for_providers_then_makes_a_session() {
    let load = model(Some("/p.json")).get_model(ExecutionMode::Cuda).unwrap();
    let load = load.step(LoadAnswer::Built(true)).step(LoadAnswer::Providers(true));
    let mut load = load;
    for (due, name) in [
        (ModelFile::Onnx, "/onnx/model_quint8_avx2.onnx"),
        (ModelFile::Tokenizer, "/tokenizer.json"),
        (ModelFile::Config, "/config.json"),
        (ModelFile::SpecialTokensMap, "/special_tokens_map.json"),
        (ModelFile::TokenizerConfig, "/tokenizer_config.json"),
    ] {
        match load.action() {
            LoadAction::Read { file, path } => {
                assert_eq!(file, due);
                assert_eq!(path, format!("{}{}", SNAPSHOT, name));
            }
            _ => panic!("a file is due"),
        }
        load = load.step(LoadAnswer::Read(true));
    }
    assert!(matches!(load.action(), LoadAction::Providers(ExecutionMode::Cuda)));
    let load = load.step(LoadAnswer::Providers(true));
    match load.action() {
        LoadAction::Build(options) => {
            assert!(!options.parallel_execution);
            assert_eq!(options.profiling_output, Some("/p.json".to_string()));
            assert_eq!(options.pooling, Pooling::Cls);
            assert_eq!(options.quantization, QuantizationMode::Static);
        }
        _ => panic!("the session is due"),
    }
    let load = load.step(LoadAnswer::Built(true));
    assert!(matches!(load.action(), LoadAction::Stop(LoadEnd::Complete)));
    assert_eq!(LoadEnd::Complete.context(), None);
}

#[test]
fn an_unreadable_file_ends_a_build_before_the_providers() {
    let load = model(None).get_model(ExecutionMode::Cuda).unwrap();
    let (reads, asked, built, end) = drive(load, Some("/config.json"), true, true);
    assert_eq!(
        reads,
        vec![
            format!("{}/onnx/model_quint8_avx2.onnx", SNAPSHOT),
            format!("{}/tokenizer.json", SNAPSHOT),
            format!("{}/config.json", SNAPSHOT),
        ]
    );
    assert!(!asked && !built);
    assert_eq!(end, LoadEnd::Unreadable);
    assert_eq!(end.context(), Some("Failed to read model files"));
}

#[test]
fn a_missing_provider_and_a_refused_session_end_a_build() {
    let build = |providers, builds| {
        let load = model(None).get_model(ExecutionMode::Cuda).unwrap();
        let (reads, asked, built, end) = drive(load, None, providers, builds);
        (reads.len(), asked, built, end)
    };
    assert_eq!(build(false, true), (5, true, false, LoadEnd::ProviderMissing));
    assert_eq!(build(true, false), (5, true, true, LoadEnd::Refused));
    assert_eq!(LoadEnd::ProviderMissing.context(), None);
    assert_eq!(LoadEnd::Refused.context(), None);
}

#[test]
fn fetches_then_builds_then_embeds() {
    let mut model = model(None);
    let chunks = vec!["one".to_string(), "two".to_string()];
    for missing in [Some("config.json"), None] {
        match model.embed_chunks(&chunks, ExecutionMode::Cpu) {
            EmbedStep::Download(download) => model.finish_download(fetch(download, missing).1),
            _ => panic!("the model is not fetched yet"),
        }
    }
    assert!(model.download_model().is_none());
    let failed = match model.embed_chunks(&chunks, ExecutionMode::Cuda) {
        EmbedStep::Load(load) => drive_to_end(load, None, true, false).3,
        _ => panic!("the model is not built yet"),
    };
    model.finish_load(failed);
    let load = match model.embed_chunks(&chunks, ExecutionMode::Cpu) {
        EmbedStep::Load(load) => load,
        _ => panic!("a build that failed does not count"),
    };
    assert_eq!(load.plan().execution_mode, ExecutionMode::Cpu);
    let load = drive_to_end(load, None, true, true).3;
    model.finish_load(load);
    match model.embed_chunks(&chunks, ExecutionMode::Cuda) {
        EmbedStep::Embed(request) => {
            assert_eq!(request.chunks, chunks);
            assert_eq!(request.batch_size, BATCH_SIZE);
        }
        _ => panic!("the model is ready"),
    }
    assert!(model.get_model(ExecutionMode::Cuda).is_none());
}

#[test]
fn kinds_share_a_directory_below_the_cache() {
    let dir = |kind| Model::new(get_embedding_model_info(kind), "/cache", None).model_dir();
    assert_eq!(dir(ModelKind::Fp16), dir(ModelKind::Int8));
    assert_eq!(dir(ModelKind::Fp32), dir(ModelKind::Int8));
    assert!(dir(ModelKind::Int8).starts_with("/cache/"));
    let slashed = Model::new(get_embedding_model_info(ModelKind::Int8), "/cache/", None);
    assert_eq!(slashed.model_dir(), SNAPSHOT);
    assert!(std::path::Path::new(&slashed.model_dir()).starts_with(slashed.cache_dir()));
}

#[test]
fn a_model_tells_what_it_is_made_of() {
    let model = Model::new(get_embedding_model_info(ModelKind::Fp16), "/cache", None);
    assert_eq!(model.info().onnx_file, "onnx/model_optimized.onnx");
    let again = Model::new(get_embedding_model_info(ModelKind::Fp16), model.cache_dir(), None);
    assert_eq!(again.cache_dir(), model.cache_dir());
}

#[test]
fn batches_hold_128_texts() {
    assert_eq!(BATCH_SIZE, 128);
}
