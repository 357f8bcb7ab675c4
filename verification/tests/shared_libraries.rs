use embed_bench::libraries::{
    append_path_dirs, cuda_dirs, find_onnxruntime_lib, onnxruntime_dirs, preload_cuda, search_dir,
    setup_onnxruntime, should_preload_cuda, PreloadAction, PreloadAnswer, PreloadEnd,
    RuntimeSource, Search,
};
use embed_bench::providers::{ExecutionMode, Platform};

fn owned(parts: &[&str]) -> Vec<String> {
    parts.iter().map(|p| p.to_string()).collect()
}

fn drive(mut search: Search, on_disk: &[&str]) -> (Vec<String>, Option<String>) {
    let mut asked = Vec::new();
    while let Some(path) = search.probe() {
        let exists = on_disk.contains(&path.as_str());
        asked.push(path);
        search = search.step(exists);
    }
    (asked, search.finish())
}

#[test]
fn path_entries_are_split_and_trimmed() {
    let dirs = append_path_dirs(owned(&["/x"]), Some(" /a ;/b;;\t/c\u{3000}"));
    assert_eq!(dirs, owned(&["/x", "/a", "/b", "", "/c"]));
}

#[test]
fn an_unset_path_adds_nothing_and_an_empty_one_adds_an_empty_entry() {
    assert_eq!(append_path_dirs(owned(&["/x"]), None), owned(&["/x"]));
    assert_eq!(append_path_dirs(owned(&["/x"]), Some("")), owned(&["/x", ""]));
    assert_eq!(append_path_dirs(owned(&[]), Some("/a:/b")), owned(&["/a:/b"]));
}

#[test]
fn runtime_directories_in_order() {
    assert_eq!(
        onnxruntime_dirs("/opt/bench", Some("/usr/lib; /usr/local/lib")),
        owned(&[
            "/opt/bench",
            "/opt/bench/onnx",
            "/opt/bench/../onnx",
            "/opt/bench/../../onnx",
            "/usr/lib",
            "/usr/local/lib",
        ])
    );
}

#[test]
fn cuda_directories_in_order() {
    assert_eq!(
        cuda_dirs("/opt/bench", Some(" /cuda "), Some("/cudnn"), Some("/p")),
        owned(&["/opt/bench", "/opt/bench/cuda", "/opt/bench/../../cuda", " /cuda ", "/cudnn", "/p"])
    );
    assert_eq!(
        cuda_dirs("/opt/bench", None, Some("/cudnn"), None),
        owned(&["/opt/bench", "/opt/bench/cuda", "/opt/bench/../../cuda", "/cudnn"])
    );
    assert_eq!(
        cuda_dirs("/opt/bench", None, None, None),
        owned(&["/opt/bench", "/opt/bench/cuda", "/opt/bench/../../cuda"])
    );
}

#[test]
fn search_stops_at_the_first_hit() {
    let search = search_dir(&owned(&["/a", "/b", "/c"]), "lib.so");
    let (asked, found) = drive(search, &["/c/lib.so", "/b/lib.so"]);
    assert_eq!(asked, owned(&["/a/lib.so", "/b/lib.so"]));
    assert_eq!(found, Some("/b/lib.so".to_string()));
}

#[test]
fn search_without_a_hit_asks_everywhere() {
    let search = search_dir(&owned(&["/a", "/b"]), "lib.so");
    let (asked, found) = drive(search, &["/a", "/b"]);
    assert_eq!(asked, owned(&["/a/lib.so", "/b/lib.so"]));
    assert_eq!(found, None);
    assert_eq!(drive(search_dir(&[], "lib.so"), &["/a"]), (Vec::new(), None));
}

#[test]
fn an_answer_nobody_asked_for_is_ignored() {
    let ended = Search::along(owned(&["/a"])).step(true);
    assert_eq!(ended.probe(), None);
    assert_eq!(ended.step(false).finish(), Some("/a".to_string()));
}

#[test]
fn runtime_library_by_platform() {
    let linux = find_onnxruntime_lib(Platform::Linux, "/opt", None).unwrap();
    assert_eq!(linux.probe(), Some("/opt/libonnxruntime.so".to_string()));
    let windows = find_onnxruntime_lib(Platform::Windows, "/opt", Some("/p")).unwrap();
    let (asked, found) = drive(windows, &["/p/onnxruntime.dll"]);
    assert_eq!(asked.len(), 5);
    assert_eq!(found, Some("/p/onnxruntime.dll".to_string()));
    assert!(find_onnxruntime_lib(Platform::MacOs, "/opt", None).is_none());
}

struct Fake {
    on_disk: Vec<&'static str>,
    loadable: Vec<&'static str>,
    loaded: Vec<String>,
}

impl Fake {
    fn run(&mut self, dirs: &[&str], cuda: &[&str], cudnn: &[&str]) -> PreloadEnd {
        let mut preload = preload_cuda(owned(dirs), owned(cuda), owned(cudnn));
        loop {
            let answer = match preload.action() {
                PreloadAction::Probe(path) => {
                    PreloadAnswer::Exists(self.on_disk.contains(&path.as_str()))
                }
                PreloadAction::Resolve(dir) => PreloadAnswer::Resolved(format!("/real{}", dir)),
                PreloadAction::Load(path) => {
                    let ok = self.loadable.contains(&path.as_str());
                    if ok {
                        self.loaded.push(path);
                    }
                    PreloadAnswer::Loaded(ok)
                }
                PreloadAction::Stop(end) => return end,
            };
            preload = preload.step(answer);
        }
    }
}

#[test]
fn cuda_is_loaded_before_cudnn_from_resolved_directories() {
    let mut fake = Fake {
        on_disk: vec!["/b/one.so", "/a/two.so", "/b/two.so", "/b/dnn.so"],
        loadable: vec!["/real/b/one.so", "/real/a/two.so", "/real/b/dnn.so"],
        loaded: Vec::new(),
    };
    assert_eq!(fake.run(&["/a", "/b"], &["one.so", "two.so"], &["dnn.so"]), PreloadEnd::Complete);
    assert_eq!(fake.loaded, owned(&["/real/b/one.so", "/real/a/two.so", "/real/b/dnn.so"]));
}

#[test]
fn a_missing_library_ends_the_loading() {
    let mut fake =
        Fake { on_disk: vec!["/a/one.so"], loadable: vec!["/real/a/one.so"], loaded: Vec::new() };
    assert_eq!(fake.run(&["/a"], &["one.so", "two.so"], &["dnn.so"]), PreloadEnd::NotFound);
    assert_eq!(fake.loaded, owned(&["/real/a/one.so"]));
}

#[test]
fn a_library_that_fails_to_load_ends_the_loading() {
    let mut fake = Fake {
        on_disk: vec!["/a/one.so", "/a/two.so"],
        loadable: vec!["/real/a/two.so"],
        loaded: Vec::new(),
    };
    assert_eq!(fake.run(&["/a"], &["one.so", "two.so"], &[]), PreloadEnd::Rejected);
    assert!(fake.loaded.is_empty());
}

#[test]
fn a_library_without_a_parent_ends_the_loading() {
    let mut fake = Fake { on_disk: vec!["/"], loadable: Vec::new(), loaded: Vec::new() };
    assert_eq!(fake.run(&[""], &["/"], &[]), PreloadEnd::NoParent);
}

#[test]
fn nothing_to_load_is_complete() {
    let mut fake = Fake { on_disk: Vec::new(), loadable: Vec::new(), loaded: Vec::new() };
    assert_eq!(fake.run(&["/a"], &[], &[]), PreloadEnd::Complete);
    assert_eq!(fake.run(&[], &["one.so"], &[]), PreloadEnd::NotFound);
}

#[test]
fn a_wrong_answer_to_the_loading_is_ignored() {
    let preload = preload_cuda(owned(&["/a"]), owned(&["one.so"]), owned(&[]));
    let preload = preload.step(PreloadAnswer::Loaded(true));
    let preload = preload.step(PreloadAnswer::Resolved("/elsewhere".to_string()));
    assert!(matches!(preload.action(), PreloadAction::Probe(path) if path == "/a/one.so"));
}

#[test]
fn cuda_comes_first_in_the_modes_that_may_use_it() {
    assert!(should_preload_cuda(ExecutionMode::Cuda));
    assert!(should_preload_cuda(ExecutionMode::Fallback));
    for mode in [
        ExecutionMode::DirectML,
        ExecutionMode::XNNPack,
        ExecutionMode::CoreML,
        ExecutionMode::OpenVINO,
        ExecutionMode::Cpu,
    ] {
        assert!(!should_preload_cuda(mode));
    }
}

#[test]
fn runtime_plans() {
    let linux = setup_onnxruntime(Platform::Linux, true);
    assert!(linux.preload_cuda);
    assert_eq!(linux.source, RuntimeSource::Library);
    assert_eq!((linux.inter_threads, linux.intra_threads), (2, 2));
    assert!(!setup_onnxruntime(Platform::Windows, false).preload_cuda);
    let mac = setup_onnxruntime(Platform::MacOs, true);
    assert!(!mac.preload_cuda);
    assert_eq!(mac.source, RuntimeSource::Linked);
    assert_eq!((mac.inter_threads, mac.intra_threads), (2, 2));
}
