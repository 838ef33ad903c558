//! Where things live: the portable folder, engine executables, the library.
//!
//! A path is modelled as its list of components (the first one is the root of
//! an absolute path); joining appends components and the parent drops the last
//! one. What exists on disk is asked by the caller and handed in as booleans.
use vstd::prelude::*;

use crate::text::strings_view;

verus! {

/// The operating system the program runs on.
#[derive(Clone, Copy, PartialEq, Eq, Structural, Debug)]
pub enum Platform {
    Windows,
    Mac,
    Linux,
}

/// The executable file name for a base name: `.exe` is added on Windows only.
pub open spec fn exe_name_spec(base: Seq<char>, platform: Platform) -> Seq<char> {
    if platform == Platform::Windows {
        base + ".exe"@
    } else {
        base
    }
}

/// The executable file name for a base name on the given platform.
pub fn exe_name(base: &str, platform: Platform) -> (s: String)
    ensures
        s@ == exe_name_spec(base@, platform),
{
    let mut s = base.to_string();
    match platform {
        Platform::Windows => s.append(".exe"),
        _ => {},
    }
    s
}

/// A path component from a literal.
fn component(c: &str) -> (s: String)
    ensures
        s@ == c@,
{
    c.to_string()
}

/// A path with components appended (`Path::join` of relative components).
pub fn join(base: &[String], more: Vec<String>) -> (p: Vec<String>)
    ensures
        strings_view(p@) == strings_view(base@) + strings_view(more@),
{
    let mut p: Vec<String> = Vec::new();
    let mut i: usize = 0;
    while i < base.len()
        invariant
            i <= base@.len(),
            p@.len() == i,
            forall|j: int| 0 <= j < i ==> #[trigger] p@[j]@ == base@[j]@,
        decreases base@.len() - i,
    {
        p.push(base[i].clone());
        i = i + 1;
    }
    let mut k: usize = 0;
    while k < more.len()
        invariant
            k <= more@.len(),
            p@.len() == base@.len() + k,
            forall|j: int| 0 <= j < base@.len() ==> #[trigger] p@[j]@ == base@[j]@,
            forall|j: int| 0 <= j < k ==> #[trigger] p@[base@.len() + j]@ == more@[j]@,
        decreases more@.len() - k,
    {
        p.push(more[k].clone());
        k = k + 1;
    }
    assert(strings_view(p@) =~= strings_view(base@) + strings_view(more@)) by {
        assert forall|j: int| base@.len() <= j < p@.len() implies #[trigger] p@[j]@ == more@[j
            - base@.len()]@ by {
            assert(p@[base@.len() + (j - base@.len())]@ == more@[j - base@.len()]@);
        }
    }
    p
}

/// The folder name of the platform under `bin/`.
pub open spec fn os_dir(platform: Platform) -> Seq<char> {
    match platform {
        Platform::Mac => "mac"@,
        Platform::Windows => "win"@,
        Platform::Linux => "linux"@,
    }
}

/// `<root>/bin/<os>`: where the portable package keeps its engine binaries.
pub fn portable_bin_dir(root: &[String], platform: Platform) -> (p: Vec<String>)
    ensures
        strings_view(p@) == strings_view(root@) + seq!["bin"@, os_dir(platform)],
{
    let os = match platform {
        Platform::Mac => component("mac"),
        Platform::Windows => component("win"),
        Platform::Linux => component("linux"),
    };
    let more = vec![component("bin"), os];
    let p = join(root, more);
    assert(strings_view(more@) =~= seq!["bin"@, os_dir(platform)]);
    p
}

/// The number of leading `false`s.
pub open spec fn first_true(v: Seq<bool>) -> nat
    decreases v.len(),
{
    if v.len() == 0 {
        0
    } else if v[0] {
        0
    } else {
        1 + first_true(v.drop_first())
    }
}

/// The project root: walking up from the executable's folder, the first folder
/// that holds a `config.json`; the executable's folder itself when none does.
/// `config_present[k]` says whether the ancestor `k` levels up (the first
/// `exe_dir.len() - k` components) holds one.
pub open spec fn project_root_spec(exe_dir: Seq<Seq<char>>, config_present: Seq<bool>) -> Seq<
    Seq<char>,
> {
    let k = first_true(config_present);
    if k < config_present.len() {
        exe_dir.take(exe_dir.len() - k)
    } else {
        exe_dir
    }
}

/// The project root (see `project_root_spec`).
pub fn project_root(exe_dir: &[String], config_present: &[bool]) -> (p: Vec<String>)
    requires
        exe_dir@.len() >= 1,
        config_present@.len() == exe_dir@.len(),
    ensures
        strings_view(p@) == project_root_spec(strings_view(exe_dir@), config_present@),
{
    let mut k: usize = 0;
    assert(config_present@.subrange(0, config_present@.len() as int) =~= config_present@);
    while k < config_present.len() && !config_present[k]
        invariant
            k <= config_present@.len(),
            first_true(config_present@) == k + first_true(config_present@.subrange(
                k as int,
                config_present@.len() as int,
            )),
        decreases config_present@.len() - k,
    {
        assert(config_present@.subrange(k as int, config_present@.len() as int).drop_first()
            =~= config_present@.subrange(k + 1, config_present@.len() as int));
        k = k + 1;
    }
    if k == config_present.len() {
        assert(config_present@.subrange(k as int, config_present@.len() as int).len() == 0);
        return join(exe_dir, Vec::new());
    }
    let n = exe_dir.len();
    let mut p: Vec<String> = Vec::new();
    let mut i: usize = 0;
    while i < n - k
        invariant
            k < n,
            n == exe_dir@.len(),
            i <= n - k,
            p@.len() == i,
            forall|j: int| 0 <= j < i ==> #[trigger] p@[j]@ == exe_dir@[j]@,
        decreases n - k - i,
    {
        p.push(exe_dir[i].clone());
        i = i + 1;
    }
    assert(strings_view(p@) =~= strings_view(exe_dir@).take(n - k));
    p
}

/// The three places an engine executable may be: the portable binary folder,
/// a multi-config build (`bin/Release`) and a single-config build (`bin`).
pub struct EngineExeCandidates {
    pub portable: Vec<String>,
    pub with_release: Vec<String>,
    pub without_release: Vec<String>,
}

/// Where to look for an engine executable.
pub fn engine_exe_candidates(root: &[String], build_dir: &[String], exe_base_name: &str, platform: Platform) -> (c: EngineExeCandidates)
    ensures
        strings_view(c.portable@) == strings_view(root@) + seq![
            "bin"@,
            os_dir(platform),
            exe_name_spec(exe_base_name@, platform),
        ],
        strings_view(c.with_release@) == strings_view(build_dir@) + seq![
            "bin"@,
            "Release"@,
            exe_name_spec(exe_base_name@, platform),
        ],
        strings_view(c.without_release@) == strings_view(build_dir@) + seq![
            "bin"@,
            exe_name_spec(exe_base_name@, platform),
        ],
{
    let name = exe_name(exe_base_name, platform);
    let bin_dir = portable_bin_dir(root, platform);
    let m1 = vec![name.clone()];
    let portable = join(bin_dir.as_slice(), m1);
    let m2 = vec![component("bin"), component("Release"), name.clone()];
    let with_release = join(build_dir, m2);
    let m3 = vec![component("bin"), name];
    let without_release = join(build_dir, m3);
    assert(strings_view(portable@) =~= strings_view(root@) + seq![
        "bin"@,
        os_dir(platform),
        exe_name_spec(exe_base_name@, platform),
    ]);
    assert(strings_view(m2@) =~= seq!["bin"@, "Release"@, exe_name_spec(exe_base_name@, platform)]);
    assert(strings_view(m3@) =~= seq!["bin"@, exe_name_spec(exe_base_name@, platform)]);
    EngineExeCandidates { portable, with_release, without_release }
}

/// The engine executable to run: the portable one if it exists, else the
/// `bin/Release` build, else the `bin` build; when none exists, the
/// `bin/Release` path (for the error message).
pub fn resolve_engine_exe(
    candidates: EngineExeCandidates,
    portable_exists: bool,
    release_exists: bool,
    bin_exists: bool,
) -> (p: Vec<String>)
    ensures
        portable_exists ==> p == candidates.portable,
        !portable_exists && release_exists ==> p == candidates.with_release,
        !portable_exists && !release_exists && bin_exists ==> p == candidates.without_release,
        !portable_exists && !release_exists && !bin_exists ==> p == candidates.with_release,
{
    if portable_exists {
        candidates.portable
    } else if release_exists {
        candidates.with_release
    } else if bin_exists {
        candidates.without_release
    } else {
        candidates.with_release
    }
}

/// `third_party/<engine>/build` under the project root.
fn third_party_build_dir(root: &[String], engine: &str) -> (p: Vec<String>)
    ensures
        strings_view(p@) == strings_view(root@) + seq!["third_party"@, engine@, "build"@],
{
    let m = vec![component("third_party"), component(engine), component("build")];
    assert(strings_view(m@) =~= seq!["third_party"@, engine@, "build"@]);
    join(root, m)
}

/// Where to look for `llama-server`.
pub fn llama_server_candidates(root: &[String], platform: Platform) -> (c: EngineExeCandidates)
    ensures
        strings_view(c.portable@) == strings_view(root@) + seq![
            "bin"@,
            os_dir(platform),
            exe_name_spec("llama-server"@, platform),
        ],
        strings_view(c.with_release@) == strings_view(root@) + seq![
            "third_party"@,
            "llama.cpp"@,
            "build"@,
            "bin"@,
            "Release"@,
            exe_name_spec("llama-server"@, platform),
        ],
        strings_view(c.without_release@) == strings_view(root@) + seq![
            "third_party"@,
            "llama.cpp"@,
            "build"@,
            "bin"@,
            exe_name_spec("llama-server"@, platform),
        ],
{
    let build = third_party_build_dir(root, "llama.cpp");
    let c = engine_exe_candidates(root, build.as_slice(), "llama-server", platform);
    assert(strings_view(c.with_release@) =~= strings_view(root@) + seq![
        "third_party"@,
        "llama.cpp"@,
        "build"@,
        "bin"@,
        "Release"@,
        exe_name_spec("llama-server"@, platform),
    ]);
    assert(strings_view(c.without_release@) =~= strings_view(root@) + seq![
        "third_party"@,
        "llama.cpp"@,
        "build"@,
        "bin"@,
        exe_name_spec("llama-server"@, platform),
    ]);
    c
}

/// Where to look for `whisper-server` (`whisper_server_exe_path` resolves among these).
pub fn whisper_server_exe_path(root: &[String], platform: Platform) -> (c: EngineExeCandidates)
    ensures
        strings_view(c.portable@) == strings_view(root@) + seq![
            "bin"@,
            os_dir(platform),
            exe_name_spec("whisper-server"@, platform),
        ],
        strings_view(c.with_release@) == strings_view(root@) + seq![
            "third_party"@,
            "whisper.cpp"@,
            "build"@,
            "bin"@,
            "Release"@,
            exe_name_spec("whisper-server"@, platform),
        ],
        strings_view(c.without_release@) == strings_view(root@) + seq![
            "third_party"@,
            "whisper.cpp"@,
            "build"@,
            "bin"@,
            exe_name_spec("whisper-server"@, platform),
        ],
{
    let build = third_party_build_dir(root, "whisper.cpp");
    let c = engine_exe_candidates(root, build.as_slice(), "whisper-server", platform);
    assert(strings_view(c.with_release@) =~= strings_view(root@) + seq![
        "third_party"@,
        "whisper.cpp"@,
        "build"@,
        "bin"@,
        "Release"@,
        exe_name_spec("whisper-server"@, platform),
    ]);
    assert(strings_view(c.without_release@) =~= strings_view(root@) + seq![
        "third_party"@,
        "whisper.cpp"@,
        "build"@,
        "bin"@,
        exe_name_spec("whisper-server"@, platform),
    ]);
    c
}

/// The library: `<root>/library` when it is a folder (the portable package),
/// else the `library` folder next to the project root (the development tree).
pub fn library_root(root: &[String], portable_library_is_dir: bool) -> (p: Vec<String>)
    requires
        portable_library_is_dir || root@.len() >= 2,
    ensures
        portable_library_is_dir ==> strings_view(p@) == strings_view(root@) + seq!["library"@],
        !portable_library_is_dir ==> strings_view(p@) == strings_view(root@).drop_last() + seq![
            "library"@,
        ],
{
    let lib = vec![component("library")];
    assert(strings_view(lib@) =~= seq!["library"@]);
    if portable_library_is_dir {
        join(root, lib)
    } else {
        let parent = &root[0..root.len() - 1];
        assert(parent@ =~= root@.drop_last());
        let p = join(parent, lib);
        assert(strings_view(parent@) =~= strings_view(root@).drop_last());
        p
    }
}

/// `<root>/<a>/<b>`.
fn under(root: &[String], a: &str, b: &str) -> (p: Vec<String>)
    ensures
        strings_view(p@) == strings_view(root@) + seq![a@, b@],
{
    let m = vec![component(a), component(b)];
    assert(strings_view(m@) =~= seq![a@, b@]);
    join(root, m)
}

/// The lock file of a shared daemon: `<root>/data/<name>`.
pub fn lock_path(root: &[String], lock_file_name: &str) -> (p: Vec<String>)
    ensures
        strings_view(p@) == strings_view(root@) + seq!["data"@, lock_file_name@],
{
    under(root, "data", lock_file_name)
}

/// The text-transformation rules: `<root>/prompts/transforms`.
pub fn transforms_dir(root: &[String]) -> (p: Vec<String>)
    ensures
        strings_view(p@) == strings_view(root@) + seq!["prompts"@, "transforms"@],
{
    under(root, "prompts", "transforms")
}

/// The prompts: `<root>/prompts`.
pub fn prompts_dir(root: &[String]) -> (p: Vec<String>)
    ensures
        strings_view(p@) == strings_view(root@) + seq!["prompts"@],
{
    let m = vec![component("prompts")];
    assert(strings_view(m@) =~= seq!["prompts"@]);
    join(root, m)
}

/// The measured VRAM figures: `<root>/models/vram_estimates.json`.
pub fn estimates_path(root: &[String]) -> (p: Vec<String>)
    ensures
        strings_view(p@) == strings_view(root@) + seq!["models"@, "vram_estimates.json"@],
{
    under(root, "models", "vram_estimates.json")
}

/// `Path::starts_with`: `root`'s components are the leading components of `p`.
pub open spec fn path_within(root: Seq<Seq<char>>, p: Seq<Seq<char>>) -> bool {
    root.len() <= p.len() && p.take(root.len() as int) == root
}

/// Whether a (canonical) path lies under a (canonical) root; a document outside
/// the library is refused.
pub fn is_within(root: &[String], p: &[String]) -> (b: bool)
    ensures
        b == path_within(strings_view(root@), strings_view(p@)),
{
    if root.len() > p.len() {
        return false;
    }
    let mut i: usize = 0;
    while i < root.len()
        invariant
            root@.len() <= p@.len(),
            i <= root@.len(),
            forall|j: int| 0 <= j < i ==> #[trigger] root@[j]@ == p@[j]@,
        decreases root@.len() - i,
    {
        if !crate::text::str_eq(root[i].as_str(), p[i].as_str()) {
            assert(strings_view(p@).take(root@.len() as int)[i as int] != strings_view(root@)[i as int]);
            return false;
        }
        i = i + 1;
    }
    assert(strings_view(p@).take(root@.len() as int) =~= strings_view(root@));
    true
}

/// The folder searched for a source document: the library itself for the
/// `uncategorized` category, else the category's folder.
pub fn search_root(library: &[String], source_category: &str) -> (p: Vec<String>)
    ensures
        source_category@ == "uncategorized"@ ==> strings_view(p@) == strings_view(library@),
        source_category@ != "uncategorized"@ ==> strings_view(p@) == strings_view(library@) + seq![
            source_category@,
        ],
{
    if crate::text::str_eq(source_category, "uncategorized") {
        let p = join(library, Vec::new());
        assert(strings_view(p@) =~= strings_view(library@));
        p
    } else {
        let m = vec![component(source_category)];
        assert(strings_view(m@) =~= seq![source_category@]);
        join(library, m)
    }
}

/// The first `true` of a list sits at the number of leading `false`s.
proof fn lemma_first_true_at(v: Seq<bool>, k: int)
    requires
        0 <= k < v.len(),
        v[k],
        forall|j: int| 0 <= j < k ==> !v[j],
    ensures
        first_true(v) == k,
    decreases k,
{
    if k > 0 {
        assert(!v[0]);
        lemma_first_true_at(v.drop_first(), k - 1);
    }
}

/// With no `true` in the list, every element is skipped.
proof fn lemma_first_true_none(v: Seq<bool>)
    requires
        forall|j: int| 0 <= j < v.len() ==> !v[j],
    ensures
        first_true(v) == v.len(),
    decreases v.len(),
{
    if v.len() > 0 {
        lemma_first_true_none(v.drop_first());
    }
}

/// The project root is the nearest folder holding `config.json`, at any
/// depth: when the ancestor `k` levels up holds one and none nearer does, the
/// root is that ancestor (the first `exe_dir.len() - k` components); when no
/// ancestor holds one, it is the executable's folder.
pub proof fn lemma_project_root_nearest(exe_dir: Seq<Seq<char>>, config_present: Seq<bool>, k: int)
    requires
        config_present.len() == exe_dir.len(),
    ensures
        0 <= k < config_present.len() && config_present[k] && (forall|j: int| 0 <= j < k ==> !config_present[j])
            ==> project_root_spec(exe_dir, config_present) == exe_dir.take(exe_dir.len() - k),
        (forall|j: int| 0 <= j < config_present.len() ==> !config_present[j]) ==> project_root_spec(
            exe_dir,
            config_present,
        ) == exe_dir,
{
    if 0 <= k < config_present.len() && config_present[k] && (forall|j: int| 0 <= j < k ==> !config_present[j]) {
        lemma_first_true_at(config_present, k);
    }
    if forall|j: int| 0 <= j < config_present.len() ==> !config_present[j] {
        lemma_first_true_none(config_present);
    }
}

} // verus!
