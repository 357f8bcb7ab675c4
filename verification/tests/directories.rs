use embed_bench::paths::{choose_working_dir, exe_dir, join_each, working_dir, Layout};

#[test]
fn directory_of_the_executable() {
    assert_eq!(exe_dir("/opt/bench/run"), Some("/opt/bench".to_string()));
    assert_eq!(exe_dir("/"), None);
}

#[test]
fn working_directory_is_that_of_the_executable() {
    assert_eq!(working_dir("/opt/bench".to_string()), "/opt/bench");
    assert_eq!(working_dir("/".to_string()), "/");
}

#[test]
fn working_directory_leaves_the_target_directory() {
    assert_eq!(working_dir("/work/bench/target/release".to_string()), "/work/bench");
    assert_eq!(working_dir("/work/target/x/release".to_string()), "/work/target/x/release");
    assert_eq!(working_dir("/work/target".to_string()), "/work/target");
}

#[test]
fn working_directory_is_chosen_by_the_name_between() {
    let choose = |name: Option<&str>| {
        choose_working_dir("d".to_string(), name.map(|n| n.to_string()), "up".to_string())
    };
    assert_eq!(choose(Some("target")), "up");
    assert_eq!(choose(Some("targets")), "d");
    assert_eq!(choose(None), "d");
}

#[test]
fn files_lie_under_the_working_directory() {
    let layout = Layout::new("/work/bench".to_string(), "cache");
    assert_eq!(layout.current_dir, "/work/bench");
    assert_eq!(layout.cache_dir, "/work/bench/cache");
    assert_eq!(layout.output_dir, "/work/bench/output");
    assert_eq!(layout.profiling_path, "/work/bench/model_profiling.json");
    assert_eq!(layout.chunks_path, "/work/bench/chunks.json");
}

#[test]
fn an_absolute_cache_directory_stays() {
    let layout = Layout::new("/work/bench".to_string(), "/var/cache");
    assert_eq!(layout.cache_dir, "/var/cache");
}

#[test]
fn one_name_in_each_directory() {
    let dirs = vec!["/a".to_string(), "/b/".to_string()];
    assert_eq!(join_each(&dirs, "f.so"), vec!["/a/f.so".to_string(), "/b/f.so".to_string()]);
}
