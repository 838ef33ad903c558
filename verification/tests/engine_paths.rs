use shiori_folio::paths::{
    engine_exe_candidates, exe_name, is_within, library_root, llama_server_candidates, lock_path,
    portable_bin_dir, project_root, resolve_engine_exe, search_root, whisper_server_exe_path,
    Platform,
};

/// A temporary build folder, as path components.
fn temp_build_dir(tag: &str) -> Vec<String> {
    v(&["", "tmp", tag])
}

#[test]
fn resolve_engine_exe_prefers_existing_release_dir() {
    let dir = temp_build_dir("shiori_test_resolve_engine_exe_release");
    let c = engine_exe_candidates(&v(&["", "nonexistent-root"]), &dir, "dummy-server", Platform::Linux);
    // Only `bin/Release/dummy-server` exists.
    let resolved = resolve_engine_exe(c, false, true, false);
    assert_eq!(resolved, [dir.clone(), v(&["bin", "Release", "dummy-server"])].concat());
}

#[test]
fn resolve_engine_exe_falls_back_to_bin_without_release() {
    let dir = temp_build_dir("shiori_test_resolve_engine_exe_norelease");
    let c = engine_exe_candidates(&v(&["", "nonexistent-root"]), &dir, "dummy-server", Platform::Linux);
    // Only `bin/dummy-server` exists.
    let resolved = resolve_engine_exe(c, false, false, true);
    assert_eq!(resolved, [dir.clone(), v(&["bin", "dummy-server"])].concat());
}

fn v(parts: &[&str]) -> Vec<String> {
    parts.iter().map(|s| s.to_string()).collect()
}

#[test]
fn resolve_engine_exe_order_of_preference() {
    let root = v(&["r"]);
    let build = v(&["r", "third_party", "x", "build"]);
    let c = || engine_exe_candidates(&root, &build, "srv", Platform::Windows);
    assert_eq!(resolve_engine_exe(c(), true, true, true), v(&["r", "bin", "win", "srv.exe"]));
    assert_eq!(
        resolve_engine_exe(c(), false, true, true),
        v(&["r", "third_party", "x", "build", "bin", "Release", "srv.exe"])
    );
    assert_eq!(
        resolve_engine_exe(c(), false, false, true),
        v(&["r", "third_party", "x", "build", "bin", "srv.exe"])
    );
    // Nothing exists: the bin/Release path is named in the error.
    assert_eq!(
        resolve_engine_exe(c(), false, false, false),
        v(&["r", "third_party", "x", "build", "bin", "Release", "srv.exe"])
    );
}

#[test]
fn engine_locations_and_executable_names() {
    assert_eq!(exe_name("llama-server", Platform::Windows), "llama-server.exe");
    assert_eq!(exe_name("llama-server", Platform::Linux), "llama-server");
    assert_eq!(exe_name("llama-server", Platform::Mac), "llama-server");
    let root = v(&["", "opt", "shiori"]);
    assert_eq!(portable_bin_dir(&root, Platform::Mac), v(&["", "opt", "shiori", "bin", "mac"]));
    assert_eq!(portable_bin_dir(&root, Platform::Linux), v(&["", "opt", "shiori", "bin", "linux"]));
    let l = llama_server_candidates(&root, Platform::Linux);
    assert_eq!(l.portable, v(&["", "opt", "shiori", "bin", "linux", "llama-server"]));
    assert_eq!(
        l.with_release,
        v(&["", "opt", "shiori", "third_party", "llama.cpp", "build", "bin", "Release", "llama-server"])
    );
    let w = whisper_server_exe_path(&root, Platform::Windows);
    assert_eq!(
        w.without_release,
        v(&["", "opt", "shiori", "third_party", "whisper.cpp", "build", "bin", "whisper-server.exe"])
    );
    assert_eq!(lock_path(&root, ".shiori-rag.lock"), v(&["", "opt", "shiori", "data", ".shiori-rag.lock"]));
}

#[test]
fn project_root_walks_up_to_the_first_config() {
    let exe = v(&["", "a", "b", "c"]);
    assert_eq!(project_root(&exe, &[false, true, true, false]), v(&["", "a", "b"]));
    assert_eq!(project_root(&exe, &[true, false, false, false]), exe);
    assert_eq!(project_root(&exe, &[false, false, false, false]), exe);
}

#[test]
fn library_root_and_document_lookup() {
    let root = v(&["", "opt", "shiori"]);
    assert_eq!(library_root(&root, true), v(&["", "opt", "shiori", "library"]));
    assert_eq!(library_root(&root, false), v(&["", "opt", "library"]));
    let lib = v(&["", "opt", "library"]);
    assert_eq!(search_root(&lib, "uncategorized"), lib);
    assert_eq!(search_root(&lib, "30-resources"), v(&["", "opt", "library", "30-resources"]));
    assert!(is_within(&lib, &v(&["", "opt", "library", "a.md"])));
    assert!(!is_within(&lib, &v(&["", "opt", "config.json"])));
    assert!(!is_within(&lib, &v(&["", "opt"])));
}
