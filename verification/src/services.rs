//! The local servers (language model, embedding, search, speech recognition):
//! their command lines and addresses, and the readings of their state that the
//! control panel shows.
use vstd::prelude::*;

use std::collections::HashMap;

use crate::numbers::{decimal, parse_u32_chars, parse_u64_chars, parse_unsigned, u64_to_decimal};
use crate::paths::{join, os_dir, portable_bin_dir, Platform};
use crate::text::{
    chars_of, lines, lines_chars, split_char, split_chars, string_of, strings_view, trim,
    trim_class_chars, CharClass,
};

verus! {

broadcast use vstd::std_specs::hash::group_hash_axioms;

/// The start-up result of one service.
pub struct ServiceStatus {
    pub name: String,
    pub port: u16,
    pub started: bool,
    pub healthy: bool,
    pub error: Option<String>,
}

impl ServiceStatus {
    /// A service that started and answers its health check.
    pub fn running(name: &str, port: u16) -> (s: Self)
        ensures
            s.name@ == name@ && s.port == port && s.started && s.healthy && s.error is None,
    {
        ServiceStatus { name: name.to_string(), port, started: true, healthy: true, error: None }
    }

    /// A service whose process started; `healthy` says whether it answered in time.
    pub fn spawned(name: &str, port: u16, healthy: bool) -> (s: Self)
        ensures
            s.name@ == name@ && s.port == port && s.started && s.healthy == healthy && s.error is None,
    {
        ServiceStatus { name: name.to_string(), port, started: true, healthy, error: None }
    }

    /// A service that could not be started.
    pub fn failed(name: &str, port: u16, error: String) -> (s: Self)
        ensures
            s.name@ == name@ && s.port == port && !s.started && !s.healthy && s.error == Some(error),
    {
        ServiceStatus { name: name.to_string(), port, started: false, healthy: false, error: Some(error) }
    }
}

fn arg(s: &str) -> (r: String)
    ensures
        r@ == s@,
{
    s.to_string()
}

fn num_arg(n: u64) -> (r: String)
    ensures
        r@ == decimal(n as nat),
{
    u64_to_decimal(n)
}

/// The value of an optional number with its default.
pub open spec fn or_default(o: Option<u32>, d: nat) -> nat {
    match o {
        Some(v) => v as nat,
        None => d,
    }
}

/// The language model server's arguments (after `--model <file>`): the port on
/// localhost, the GPU layers (999 by default), the context size (8192 by
/// default) and `--jinja`.
pub fn llm_server_args(port: u16, context_size: Option<u32>, gpu_layers: Option<u32>) -> (v: Vec<String>)
    ensures
        strings_view(v@) == seq![
            "--port"@,
            decimal(port as nat),
            "--host"@,
            "127.0.0.1"@,
            "--n-gpu-layers"@,
            decimal(or_default(gpu_layers, 999)),
            "--ctx-size"@,
            decimal(or_default(context_size, 8192)),
            "--jinja"@,
        ],
{
    let ctx: u64 = match context_size {
        Some(c) => c as u64,
        None => 8192,
    };
    let layers: u64 = match gpu_layers {
        Some(g) => g as u64,
        None => 999,
    };
    let v = vec![
        arg("--port"),
        num_arg(port as u64),
        arg("--host"),
        arg("127.0.0.1"),
        arg("--n-gpu-layers"),
        num_arg(layers),
        arg("--ctx-size"),
        num_arg(ctx),
        arg("--jinja"),
    ];
    assert(strings_view(v@) =~= seq![
        "--port"@,
        decimal(port as nat),
        "--host"@,
        "127.0.0.1"@,
        "--n-gpu-layers"@,
        decimal(or_default(gpu_layers, 999)),
        "--ctx-size"@,
        decimal(or_default(context_size, 8192)),
        "--jinja"@,
    ]);
    v
}

/// The embedding server's arguments (after `--model <file>`): the port on
/// localhost, CPU only, embedding mode, one slot, and the context size (2048 by
/// default) as both batch and context size.
pub fn embedding_server_args(port: u16, context_size: Option<u32>) -> (v: Vec<String>)
    ensures
        strings_view(v@) == seq![
            "--port"@,
            decimal(port as nat),
            "--host"@,
            "127.0.0.1"@,
            "--n-gpu-layers"@,
            "0"@,
            "--embedding"@,
            "--ubatch-size"@,
            decimal(or_default(context_size, 2048)),
            "--ctx-size"@,
            decimal(or_default(context_size, 2048)),
            "--parallel"@,
            "1"@,
        ],
{
    let ctx: u64 = match context_size {
        Some(c) => c as u64,
        None => 2048,
    };
    let v = vec![
        arg("--port"),
        num_arg(port as u64),
        arg("--host"),
        arg("127.0.0.1"),
        arg("--n-gpu-layers"),
        arg("0"),
        arg("--embedding"),
        arg("--ubatch-size"),
        num_arg(ctx),
        arg("--ctx-size"),
        num_arg(ctx),
        arg("--parallel"),
        arg("1"),
    ];
    assert(strings_view(v@) =~= seq![
        "--port"@,
        decimal(port as nat),
        "--host"@,
        "127.0.0.1"@,
        "--n-gpu-layers"@,
        "0"@,
        "--embedding"@,
        "--ubatch-size"@,
        decimal(or_default(context_size, 2048)),
        "--ctx-size"@,
        decimal(or_default(context_size, 2048)),
        "--parallel"@,
        "1"@,
    ]);
    v
}

/// The search server's arguments: `python -m uvicorn app:app` on the port on localhost.
pub fn rag_server_args(port: u16) -> (v: Vec<String>)
    ensures
        strings_view(v@) == seq![
            "-m"@,
            "uvicorn"@,
            "app:app"@,
            "--port"@,
            decimal(port as nat),
            "--host"@,
            "127.0.0.1"@,
        ],
{
    let v = vec![
        arg("-m"),
        arg("uvicorn"),
        arg("app:app"),
        arg("--port"),
        num_arg(port as u64),
        arg("--host"),
        arg("127.0.0.1"),
    ];
    assert(strings_view(v@) =~= seq![
        "-m"@,
        "uvicorn"@,
        "app:app"@,
        "--port"@,
        decimal(port as nat),
        "--host"@,
        "127.0.0.1"@,
    ]);
    v
}

/// The prompt given to speech recognition: the proper nouns it should know.
pub const WHISPER_PROMPT: &'static str = "詩織、ふらる、huraru.com、ポートフォリオ、lab.huraru.com";

/// The speech recognition server's arguments (after `--model <file>`): the port
/// on localhost, Japanese, and the proper-noun prompt kept for every request.
pub fn whisper_server_args(port: u16) -> (v: Vec<String>)
    ensures
        strings_view(v@) == seq![
            "--port"@,
            decimal(port as nat),
            "--host"@,
            "127.0.0.1"@,
            "--language"@,
            "ja"@,
            "--prompt"@,
            WHISPER_PROMPT@,
            "--carry-initial-prompt"@,
        ],
{
    let v = vec![
        arg("--port"),
        num_arg(port as u64),
        arg("--host"),
        arg("127.0.0.1"),
        arg("--language"),
        arg("ja"),
        arg("--prompt"),
        arg(WHISPER_PROMPT),
        arg("--carry-initial-prompt"),
    ];
    assert(strings_view(v@) =~= seq![
        "--port"@,
        decimal(port as nat),
        "--host"@,
        "127.0.0.1"@,
        "--language"@,
        "ja"@,
        "--prompt"@,
        WHISPER_PROMPT@,
        "--carry-initial-prompt"@,
    ]);
    v
}

/// The Python of the search server: the portable one in `bin/<os>/rag-venv`
/// when it exists (`python.exe` on Windows, `bin/python` elsewhere), else the
/// development virtualenv `services/rag/.venv` (`Scripts/python.exe` on
/// Windows, `bin/python` elsewhere).
pub open spec fn rag_python_spec(root: Seq<Seq<char>>, platform: Platform, portable_exists: bool) -> Seq<Seq<char>> {
    if portable_exists {
        root + seq!["bin"@, os_dir(platform), "rag-venv"@] + if platform == Platform::Windows {
            seq!["python.exe"@]
        } else {
            seq!["bin"@, "python"@]
        }
    } else {
        root + seq!["services"@, "rag"@, ".venv"@] + if platform == Platform::Windows {
            seq!["Scripts"@, "python.exe"@]
        } else {
            seq!["bin"@, "python"@]
        }
    }
}

/// The portable Python of the search server (the caller checks whether it exists).
pub fn rag_portable_python(root: &[String], platform: Platform) -> (p: Vec<String>)
    ensures
        strings_view(p@) == rag_python_spec(strings_view(root@), platform, true),
{
    let bin = portable_bin_dir(root, platform);
    let more = match platform {
        Platform::Windows => vec![arg("rag-venv"), arg("python.exe")],
        _ => vec![arg("rag-venv"), arg("bin"), arg("python")],
    };
    let p = join(bin.as_slice(), more);
    assert(strings_view(p@) =~= rag_python_spec(strings_view(root@), platform, true));
    p
}

/// The Python the search server runs with (see `rag_python_spec`).
pub fn rag_python_exe(root: &[String], platform: Platform, portable_exists: bool) -> (p: Vec<String>)
    ensures
        strings_view(p@) == rag_python_spec(strings_view(root@), platform, portable_exists),
{
    if portable_exists {
        return rag_portable_python(root, platform);
    }
    let more = match platform {
        Platform::Windows => vec![arg("services"), arg("rag"), arg(".venv"), arg("Scripts"), arg("python.exe")],
        _ => vec![arg("services"), arg("rag"), arg(".venv"), arg("bin"), arg("python")],
    };
    let p = join(root, more);
    assert(strings_view(p@) =~= rag_python_spec(strings_view(root@), platform, portable_exists));
    p
}

/// The `PATH` separator of the platform.
pub open spec fn path_separator(platform: Platform) -> char {
    if platform == Platform::Windows {
        ';'
    } else {
        ':'
    }
}

/// The `PATH` for an engine: the portable library folder in front when it
/// exists, else the CUDA binaries when found, else the `PATH` as it is.
pub open spec fn extended_path_spec(
    existing: Seq<char>,
    platform: Platform,
    portable_libs: Option<Seq<char>>,
    cuda_bin: Option<Seq<char>>,
) -> Seq<char> {
    match portable_libs {
        Some(p) => p + seq![path_separator(platform)] + existing,
        None => match cuda_bin {
            Some(c) => c + seq![path_separator(platform)] + existing,
            None => existing,
        },
    }
}

/// The `PATH` an engine is started with (see `extended_path_spec`).
pub fn extended_path(existing: &str, platform: Platform, portable_libs: Option<&str>, cuda_bin: Option<&str>) -> (s: String)
    ensures
        s@ == extended_path_spec(
            existing@,
            platform,
            match portable_libs {
                Some(p) => Some(p@),
                None => None,
            },
            match cuda_bin {
                Some(c) => Some(c@),
                None => None,
            },
        ),
{
    let sep = match platform {
        Platform::Windows => ';',
        _ => ':',
    };
    let front = match portable_libs {
        Some(p) => p,
        None => match cuda_bin {
            Some(c) => c,
            None => return existing.to_string(),
        },
    };
    let mut s = front.to_string();
    crate::text::push_char(&mut s, sep);
    s.append(existing);
    s
}

/// `http://127.0.0.1:<port><path>`.
pub fn service_url(port: u16, path: &str) -> (s: String)
    ensures
        s@ == "http://127.0.0.1:"@ + decimal(port as nat) + path@,
{
    let mut s = String::from_str("http://127.0.0.1:");
    let d = u64_to_decimal(port as u64);
    s.append(d.as_str());
    s.append(path);
    s
}

/// A health check passes on any answer below 500.
pub fn health_ok(status: u16) -> (b: bool)
    ensures
        b == (status < 500),
{
    status < 500
}

/// The process id recorded in a daemon's lock file: the text, trimmed, as a
/// `u32`; `None` when it is not one.
pub fn parse_daemon_pid(text: &str) -> (r: Option<u32>)
    ensures
        match r {
            Some(p) => parse_unsigned(trim(text@), u32::MAX as nat) == Some(p as nat),
            None => parse_unsigned(trim(text@), u32::MAX as nat) is None,
        },
{
    let v = chars_of(text);
    let t = trim_class_chars(v.as_slice(), CharClass::Whitespace);
    parse_u32_chars(t.as_slice())
}

/// The GPU as `nvidia-smi` reports it.
pub struct GpuInfo {
    pub name: String,
    pub vram_used_mb: u64,
    pub vram_total_mb: u64,
    pub temperature_c: Option<u32>,
}

/// The comma-separated fields of a line, each trimmed.
pub open spec fn csv_fields(line: Seq<char>) -> Seq<Seq<char>> {
    split_char(line, ',').map_values(|f: Seq<char>| trim(f))
}

/// The GPU of `nvidia-smi --query-gpu=name,memory.used,memory.total,temperature.gpu
/// --format=csv,noheader,nounits`: from the first line, the name, the used and
/// total memory (which must parse) and the temperature (when it parses).
pub open spec fn gpu_info_spec(stdout: Seq<char>) -> Option<(Seq<char>, nat, nat, Option<nat>)> {
    if lines(stdout).len() == 0 {
        None
    } else {
        let parts = csv_fields(lines(stdout)[0]);
        if parts.len() < 3 {
            None
        } else {
            match (parse_unsigned(parts[1], u64::MAX as nat), parse_unsigned(parts[2], u64::MAX as nat)) {
                (Some(used), Some(total)) => Some(
                    (
                        parts[0],
                        used,
                        total,
                        if parts.len() > 3 {
                            parse_unsigned(parts[3], u32::MAX as nat)
                        } else {
                            None
                        },
                    ),
                ),
                _ => None,
            }
        }
    }
}

fn trimmed_fields(line: &[char]) -> (v: Vec<Vec<char>>)
    ensures
        v@.map_values(|f: Vec<char>| f@) == csv_fields(line@),
{
    let parts = split_chars(line, ',');
    let ghost pv = parts@.map_values(|f: Vec<char>| f@);
    let mut v: Vec<Vec<char>> = Vec::new();
    let mut i: usize = 0;
    while i < parts.len()
        invariant
            pv == parts@.map_values(|f: Vec<char>| f@),
            pv == split_char(line@, ','),
            i <= parts@.len(),
            v@.len() == i,
            forall|j: int| 0 <= j < i ==> #[trigger] v@[j]@ == trim(pv[j]),
        decreases parts@.len() - i,
    {
        v.push(trim_class_chars(parts[i].as_slice(), CharClass::Whitespace));
        i = i + 1;
    }
    assert(v@.map_values(|f: Vec<char>| f@) =~= csv_fields(line@));
    v
}

/// Reads the GPU line of `nvidia-smi` (see `gpu_info_spec`).
pub fn parse_gpu_info(stdout: &str) -> (r: Option<GpuInfo>)
    ensures
        match r {
            Some(g) => gpu_info_spec(stdout@) == Some(
                (
                    g.name@,
                    g.vram_used_mb as nat,
                    g.vram_total_mb as nat,
                    match g.temperature_c {
                        Some(t) => Some(t as nat),
                        None => None,
                    },
                ),
            ),
            None => gpu_info_spec(stdout@) is None,
        },
{
    let text = chars_of(stdout);
    let ls = lines_chars(text.as_slice());
    if ls.len() == 0 {
        return None;
    }
    assert(ls@[0]@ == lines(stdout@)[0]);
    let parts = trimmed_fields(ls[0].as_slice());
    if parts.len() < 3 {
        return None;
    }
    assert(parts@[1]@ == csv_fields(lines(stdout@)[0])[1]);
    assert(parts@[2]@ == csv_fields(lines(stdout@)[0])[2]);
    let used = match parse_u64_chars(parts[1].as_slice()) {
        Some(u) => u,
        None => return None,
    };
    let total = match parse_u64_chars(parts[2].as_slice()) {
        Some(t) => t,
        None => return None,
    };
    let temperature = if parts.len() > 3 {
        assert(parts@[3]@ == csv_fields(lines(stdout@)[0])[3]);
        parse_u32_chars(parts[3].as_slice())
    } else {
        None
    };
    Some(GpuInfo { name: string_of(parts[0].as_slice()), vram_used_mb: used, vram_total_mb: total, temperature_c: temperature })
}

/// The memory per process of `nvidia-smi --query-compute-apps=pid,used_memory
/// --format=csv,noheader,nounits`: every line whose first two fields parse as a
/// pid and a number of MB, a later line for the same pid replacing an earlier one.
pub open spec fn vram_map_spec(ls: Seq<Seq<char>>) -> Map<u32, u64>
    decreases ls.len(),
{
    if ls.len() == 0 {
        Map::empty()
    } else {
        let m = vram_map_spec(ls.drop_last());
        let parts = csv_fields(ls.last());
        if parts.len() >= 2 {
            match (parse_unsigned(parts[0], u32::MAX as nat), parse_unsigned(parts[1], u64::MAX as nat)) {
                (Some(pid), Some(mb)) => m.insert(pid as u32, mb as u64),
                _ => m,
            }
        } else {
            m
        }
    }
}

/// Reads the per-process memory lines of `nvidia-smi` (see `vram_map_spec`).
pub fn parse_vram_map(stdout: &str) -> (m: HashMap<u32, u64>)
    ensures
        m@ == vram_map_spec(lines(stdout@)),
{
    let text = chars_of(stdout);
    let ls = lines_chars(text.as_slice());
    let ghost lv = ls@.map_values(|v: Vec<char>| v@);
    let mut m: HashMap<u32, u64> = HashMap::new();
    let mut i: usize = 0;
    while i < ls.len()
        invariant
            lv == ls@.map_values(|v: Vec<char>| v@),
            lv == lines(stdout@),
            i <= ls@.len(),
            m@ == vram_map_spec(lv.take(i as int)),
        decreases ls@.len() - i,
    {
        assert(lv.take(i + 1).drop_last() =~= lv.take(i as int));
        assert(lv.take(i + 1).last() == ls@[i as int]@);
        let parts = trimmed_fields(ls[i].as_slice());
        if parts.len() >= 2 {
            let pid = parse_u32_chars(parts[0].as_slice());
            let mb = parse_u64_chars(parts[1].as_slice());
            match (pid, mb) {
                (Some(p), Some(v)) => {
                    m.insert(p, v);
                },
                _ => {},
            }
        }
        i = i + 1;
    }
    assert(lv.take(ls@.len() as int) =~= lv);
    m
}

/// The table of the evaluation history file.
pub struct RagasHistoryDto {
    pub headers: Vec<String>,
    pub rows: Vec<Vec<String>>,
}

/// The evaluation history CSV: the first line split at commas is the header,
/// every later line that is not blank a row (values hold no commas).
pub open spec fn ragas_history_spec(text: Seq<char>) -> (Seq<Seq<char>>, Seq<Seq<Seq<char>>>) {
    let ls = lines(text);
    if ls.len() == 0 {
        (Seq::empty(), Seq::empty())
    } else {
        (split_char(ls[0], ','), ragas_rows(ls.drop_first()))
    }
}

/// The rows of the history: the non-blank lines split at commas.
pub open spec fn ragas_rows(ls: Seq<Seq<char>>) -> Seq<Seq<Seq<char>>>
    decreases ls.len(),
{
    if ls.len() == 0 {
        Seq::empty()
    } else {
        let rest = ragas_rows(ls.drop_last());
        if trim(ls.last()).len() == 0 {
            rest
        } else {
            rest.push(split_char(ls.last(), ','))
        }
    }
}

fn strings_of(v: &[Vec<char>]) -> (out: Vec<String>)
    ensures
        strings_view(out@) == v@.map_values(|c: Vec<char>| c@),
{
    let mut out: Vec<String> = Vec::new();
    let mut i: usize = 0;
    while i < v.len()
        invariant
            i <= v@.len(),
            out@.len() == i,
            forall|j: int| 0 <= j < i ==> #[trigger] out@[j]@ == v@[j]@,
        decreases v@.len() - i,
    {
        out.push(string_of(v[i].as_slice()));
        i = i + 1;
    }
    assert(strings_view(out@) =~= v@.map_values(|c: Vec<char>| c@));
    out
}

/// Reads the evaluation history (see `ragas_history_spec`).
pub fn parse_ragas_history(text: &str) -> (r: RagasHistoryDto)
    ensures
        strings_view(r.headers@) == ragas_history_spec(text@).0,
        r.rows@.map_values(|row: Vec<String>| strings_view(row@)) == ragas_history_spec(text@).1,
{
    let t = chars_of(text);
    let ls = lines_chars(t.as_slice());
    let ghost lv = ls@.map_values(|v: Vec<char>| v@);
    if ls.len() == 0 {
        let headers: Vec<String> = Vec::new();
        let rows: Vec<Vec<String>> = Vec::new();
        assert(strings_view(headers@) =~= Seq::<Seq<char>>::empty());
        assert(rows@.map_values(|row: Vec<String>| strings_view(row@)) =~= Seq::<Seq<Seq<char>>>::empty());
        return RagasHistoryDto { headers, rows };
    }
    let headers = strings_of(split_chars(ls[0].as_slice(), ',').as_slice());
    let mut rows: Vec<Vec<String>> = Vec::new();
    let mut i: usize = 1;
    assert(lv.drop_first().take(0) =~= Seq::<Seq<char>>::empty());
    while i < ls.len()
        invariant
            lv == ls@.map_values(|v: Vec<char>| v@),
            lv == lines(text@),
            1 <= i <= ls@.len(),
            rows@.map_values(|row: Vec<String>| strings_view(row@)) == ragas_rows(lv.drop_first().take(i - 1)),
        decreases ls@.len() - i,
    {
        let ghost before = rows@.map_values(|row: Vec<String>| strings_view(row@));
        assert(lv.drop_first().take(i as int).drop_last() =~= lv.drop_first().take(i - 1));
        assert(lv.drop_first().take(i as int).last() == ls@[i as int]@);
        let trimmed = trim_class_chars(ls[i].as_slice(), CharClass::Whitespace);
        if trimmed.len() > 0 {
            let row = strings_of(split_chars(ls[i].as_slice(), ',').as_slice());
            rows.push(row);
            assert(rows@.map_values(|row: Vec<String>| strings_view(row@)) =~= before.push(split_char(ls@[i as int]@, ',')));
        }
        i = i + 1;
    }
    assert(lv.drop_first().take(ls@.len() - 1) =~= lv.drop_first());
    RagasHistoryDto { headers, rows }
}

/// The drive the project runs from: of the mounted disks whose mount point
/// contains the project root, the one with the longest mount point (the last
/// of equally long ones, as `max_by_key` picks). `within[i]` says whether disk
/// `i` contains the root and `mount_len[i]` is the length of its mount point.
pub open spec fn storage_disk_spec(within: Seq<bool>, mount_len: Seq<usize>, chosen: Option<int>) -> bool {
    match chosen {
        None => forall|i: int| 0 <= i < within.len() ==> !within[i],
        Some(k) => 0 <= k < within.len() && within[k] && (forall|i: int|
            0 <= i < within.len() && within[i] ==> mount_len[i] <= mount_len[k]) && (forall|i: int|
            k < i < within.len() && within[i] ==> mount_len[i] < mount_len[k]),
    }
}

/// Picks the disk the project runs from (see `storage_disk_spec`).
pub fn select_storage_disk(within: &[bool], mount_len: &[usize]) -> (r: Option<usize>)
    requires
        within@.len() == mount_len@.len(),
    ensures
        storage_disk_spec(within@, mount_len@, match r {
            Some(k) => Some(k as int),
            None => None,
        }),
{
    let mut best: Option<usize> = None;
    let mut i: usize = 0;
    while i < within.len()
        invariant
            within@.len() == mount_len@.len(),
            i <= within@.len(),
            storage_disk_spec(within@.take(i as int), mount_len@.take(i as int), match best {
                Some(k) => Some(k as int),
                None => None,
            }),
        decreases within@.len() - i,
    {
        if within[i] {
            match best {
                Some(k) => if mount_len[i] >= mount_len[k] {
                    best = Some(i);
                },
                None => {
                    best = Some(i);
                },
            }
        }
        i = i + 1;
        assert(within@.take(i as int).len() == i);
        assert forall|j: int| 0 <= j < i implies within@.take(i as int)[j] == within@[j] && mount_len@.take(i as int)[j] == mount_len@[j] by {
        }
    }
    assert(within@.take(within@.len() as int) =~= within@);
    assert(mount_len@.take(mount_len@.len() as int) =~= mount_len@);
    best
}

/// The bytes read and written since the previous poll, each counted as zero
/// when the counter went backwards; none on the first poll.
pub fn disk_counter_deltas(previous: Option<(i64, i64)>, current: (i64, i64)) -> (r: Option<(u64, u64)>)
    requires
        previous matches Some(p) ==> (i64::MIN <= current.0 - p.0 <= i64::MAX && i64::MIN <= current.1 - p.1 <= i64::MAX),
    ensures
        previous is None ==> r is None,
        previous matches Some(p) ==> (r matches Some(d) && d.0 == (if current.0 >= p.0 { current.0 - p.0 } else { 0 })
            && d.1 == (if current.1 >= p.1 { current.1 - p.1 } else { 0 })),
{
    match previous {
        None => None,
        Some((prev_read, prev_written)) => {
            let read = current.0 - prev_read;
            let written = current.1 - prev_written;
            let r: u64 = if read > 0 { read as u64 } else { 0 };
            let w: u64 = if written > 0 { written as u64 } else { 0 };
            Some((r, w))
        },
    }
}

/// One service of the control panel's list.
pub struct ServiceInfo {
    pub name: String,
    pub running: bool,
    pub vram_mb: Option<u64>,
    pub ram_mb: Option<u64>,
    pub model_name: Option<String>,
}

/// The video memory of a process: its entry in the per-process map, none for
/// an unknown pid or no pid.
pub open spec fn vram_of_spec(m: Map<u32, u64>, pid: Option<u32>) -> Option<u64> {
    match pid {
        Some(p) => if m.contains_key(p) {
            Some(m[p])
        } else {
            None
        },
        None => None,
    }
}

/// The video memory of a process (see `vram_of_spec`).
pub fn vram_of(m: &HashMap<u32, u64>, pid: Option<u32>) -> (r: Option<u64>)
    ensures
        r == vram_of_spec(m@, pid),
{
    match pid {
        Some(p) => match m.get(&p) {
            Some(v) => Some(*v),
            None => None,
        },
        None => None,
    }
}

/// What is known of a server process: its pid when it runs, whether it runs,
/// and its resident memory in MB.
pub struct ProcessReading {
    pub pid: Option<u32>,
    pub running: bool,
    pub ram_mb: Option<u64>,
}

/// The service list of the control panel, in this order: the language model
/// (with `llm_vram_mb` and the model's name), the embedding server, the search
/// server (no video memory shown), speech recognition, and speech synthesis,
/// which runs per utterance and is never listed as running.
pub fn service_list(
    llm: &ProcessReading,
    llm_vram_mb: Option<u64>,
    model_name: Option<String>,
    embedding: &ProcessReading,
    rag: &ProcessReading,
    stt: &ProcessReading,
    vram: &HashMap<u32, u64>,
) -> (v: Vec<ServiceInfo>)
    ensures
        v@.len() == 5,
        v@[0].name@ == "llama-server (LLM)"@ && v@[0].running == llm.running && v@[0].vram_mb == llm_vram_mb
            && v@[0].ram_mb == llm.ram_mb && v@[0].model_name == model_name,
        v@[1].name@ == "llama-server (embedding)"@ && v@[1].running == embedding.running && v@[1].vram_mb
            == vram_of_spec(vram@, embedding.pid) && v@[1].ram_mb == embedding.ram_mb && v@[1].model_name is None,
        v@[2].name@ == "uvicorn (RAG検索)"@ && v@[2].running == rag.running && v@[2].vram_mb is None
            && v@[2].ram_mb == rag.ram_mb && v@[2].model_name is None,
        v@[3].name@ == "whisper-server (STT)"@ && v@[3].running == stt.running && v@[3].vram_mb
            == vram_of_spec(vram@, stt.pid) && v@[3].ram_mb == stt.ram_mb && v@[3].model_name is None,
        v@[4].name@ == "piper-plus (TTS)"@ && !v@[4].running && v@[4].vram_mb is None && v@[4].ram_mb is None
            && v@[4].model_name is None,
{
    let mut v: Vec<ServiceInfo> = Vec::new();
    v.push(ServiceInfo {
        name: String::from_str("llama-server (LLM)"),
        running: llm.running,
        vram_mb: llm_vram_mb,
        ram_mb: llm.ram_mb,
        model_name,
    });
    v.push(ServiceInfo {
        name: String::from_str("llama-server (embedding)"),
        running: embedding.running,
        vram_mb: vram_of(vram, embedding.pid),
        ram_mb: embedding.ram_mb,
        model_name: None,
    });
    v.push(ServiceInfo {
        name: String::from_str("uvicorn (RAG検索)"),
        running: rag.running,
        vram_mb: None,
        ram_mb: rag.ram_mb,
        model_name: None,
    });
    v.push(ServiceInfo {
        name: String::from_str("whisper-server (STT)"),
        running: stt.running,
        vram_mb: vram_of(vram, stt.pid),
        ram_mb: stt.ram_mb,
        model_name: None,
    });
    v.push(ServiceInfo {
        name: String::from_str("piper-plus (TTS)"),
        running: false,
        vram_mb: None,
        ram_mb: None,
        model_name: None,
    });
    v
}

/// The CPU of the control panel.
pub struct CpuDetail {
    pub model: String,
    pub physical_cores: usize,
    pub logical_cores: usize,
    pub frequency_mhz: u64,
}

/// Bytes as whole MiB.
pub fn bytes_to_mb(bytes: u64) -> (mb: u64)
    ensures
        mb == bytes / 1048576u64,
{
    bytes / (1024 * 1024)
}

/// A recorded speech-synthesis failure.
pub struct TtsFailureDto {
    pub error: String,
    pub created_at: String,
}

/// How often the background recall found something, since start-up.
pub struct PassiveRecallStatsDto {
    pub hits: u32,
    pub total: u32,
}

impl PassiveRecallStatsDto {
    /// Counts one attempt of the background recall and, when it found
    /// something, one hit; the counters wrap around as atomic additions do.
    pub fn record(&mut self, hit: bool)
        ensures
            final(self).total == (if old(self).total == u32::MAX { 0 } else { old(self).total + 1 }),
            final(self).hits == (if !hit { old(self).hits as int } else if old(self).hits == u32::MAX {
                0
            } else {
                old(self).hits + 1
            }),
            // A hit is always also an attempt: hits never overtake attempts
            // while the attempt counter has not wrapped.
            old(self).hits <= old(self).total && old(self).total < u32::MAX ==> final(self).hits
                <= final(self).total,
    {
        self.total = self.total.wrapping_add(1);
        if hit {
            self.hits = self.hits.wrapping_add(1);
        }
    }
}

/// How a server is launched for a model file: in the model's folder, with
/// `--model <file name>` before the server's own arguments.
pub fn server_launch(model_path: &[String], extra_args: Vec<String>) -> (r: (Vec<String>, Vec<String>))
    requires
        model_path@.len() >= 1,
    ensures
        strings_view(r.0@) == strings_view(model_path@).drop_last(),
        strings_view(r.1@) == seq!["--model"@, model_path@.last()@] + strings_view(extra_args@),
{
    let n = model_path.len();
    let mut dir: Vec<String> = Vec::new();
    let mut i: usize = 0;
    while i + 1 < n
        invariant
            n == model_path@.len(),
            n >= 1,
            i < n,
            dir@.len() == i,
            forall|j: int| 0 <= j < i ==> #[trigger] dir@[j]@ == model_path@[j]@,
        decreases n - i,
    {
        dir.push(model_path[i].clone());
        i = i + 1;
    }
    assert(strings_view(dir@) =~= strings_view(model_path@).drop_last());
    let head = vec![arg("--model"), model_path[n - 1].clone()];
    let args = join(head.as_slice(), extra_args);
    assert(strings_view(head@) =~= seq!["--model"@, model_path@.last()@]);
    (dir, args)
}

} // verus!
