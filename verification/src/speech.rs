//! Speech synthesis with the piper-plus command line: where the program is,
//! its arguments, the file it writes and how a failure is reported.
use vstd::prelude::*;

use crate::numbers::{decimal, i64_to_decimal, signed_decimal, u64_to_decimal};
use crate::paths::{exe_name, exe_name_spec, join, Platform};
use crate::text::strings_view;

verus! {

fn text_of(s: &str) -> (r: String)
    ensures
        r@ == s@,
{
    s.to_string()
}

/// The synthesis program: `third_party/piper-plus/src/rust/target/release/piper-plus-cli`
/// under the root, with the platform's executable suffix.
pub fn piper_exe(root: &[String], platform: Platform) -> (p: Vec<String>)
    ensures
        strings_view(p@) == strings_view(root@) + seq![
            "third_party"@,
            "piper-plus"@,
            "src"@,
            "rust"@,
            "target"@,
            "release"@,
            exe_name_spec("piper-plus-cli"@, platform),
        ],
{
    let more = vec![
        text_of("third_party"),
        text_of("piper-plus"),
        text_of("src"),
        text_of("rust"),
        text_of("target"),
        text_of("release"),
        exe_name("piper-plus-cli", platform),
    ];
    let p = join(root, more);
    assert(strings_view(p@) =~= strings_view(root@) + seq![
        "third_party"@,
        "piper-plus"@,
        "src"@,
        "rust"@,
        "target"@,
        "release"@,
        exe_name_spec("piper-plus-cli"@, platform),
    ]);
    p
}

/// The file the synthesis writes, in the temporary folder, named after the
/// process: `shiori-tts-<pid>.wav`.
pub fn tts_output_filename(pid: u32) -> (s: String)
    ensures
        s@ == "shiori-tts-"@ + decimal(pid as nat) + ".wav"@,
{
    let mut s = String::from_str("shiori-tts-");
    let n = u64_to_decimal(pid as u64);
    s.append(n.as_str());
    s.append(".wav");
    s
}

/// The device synthesis runs on: Core ML on macOS, CUDA elsewhere.
pub open spec fn tts_device(platform: Platform) -> Seq<char> {
    if platform == Platform::Mac {
        "coreml"@
    } else {
        "cuda"@
    }
}

/// The voice settings as the command line takes them (their decimal texts).
pub struct VoiceArgs {
    pub length_scale: String,
    pub noise_scale: String,
    pub noise_w: String,
}

/// The arguments of one synthesis: model, its configuration, the text, the
/// output file, the device, Japanese, and the voice settings.
pub fn piper_args(
    model: &str,
    config: &str,
    text: &str,
    out_file: &str,
    platform: Platform,
    voice: &VoiceArgs,
) -> (v: Vec<String>)
    ensures
        strings_view(v@) == seq![
            "--model"@,
            model@,
            "--config"@,
            config@,
            "--text"@,
            text@,
            "--output-file"@,
            out_file@,
            "--device"@,
            tts_device(platform),
            "--language"@,
            "ja"@,
            "--length-scale"@,
            voice.length_scale@,
            "--noise-scale"@,
            voice.noise_scale@,
            "--noise-w"@,
            voice.noise_w@,
        ],
{
    let device = match platform {
        Platform::Mac => text_of("coreml"),
        _ => text_of("cuda"),
    };
    let v = vec![
        text_of("--model"),
        text_of(model),
        text_of("--config"),
        text_of(config),
        text_of("--text"),
        text_of(text),
        text_of("--output-file"),
        text_of(out_file),
        text_of("--device"),
        device,
        text_of("--language"),
        text_of("ja"),
        text_of("--length-scale"),
        voice.length_scale.clone(),
        text_of("--noise-scale"),
        voice.noise_scale.clone(),
        text_of("--noise-w"),
        voice.noise_w.clone(),
    ];
    assert(strings_view(v@) =~= seq![
        "--model"@,
        model@,
        "--config"@,
        config@,
        "--text"@,
        text@,
        "--output-file"@,
        out_file@,
        "--device"@,
        tts_device(platform),
        "--language"@,
        "ja"@,
        "--length-scale"@,
        voice.length_scale@,
        "--noise-scale"@,
        voice.noise_scale@,
        "--noise-w"@,
        voice.noise_w@,
    ]);
    v
}

/// An optional exit code as `{:?}` shows it: `Some(<code>)` or `None`.
pub open spec fn exit_code_debug(code: Option<i32>) -> Seq<char> {
    match code {
        Some(c) => "Some("@ + signed_decimal(c as int) + ")"@,
        None => "None"@,
    }
}

/// What a failed synthesis reports: the program's exit code, if it had one.
pub fn piper_failure_message(code: Option<i32>) -> (m: String)
    ensures
        m@ == "piper-plus-cliが失敗しました(exit code="@ + exit_code_debug(code) + ")"@,
{
    let mut m = String::from_str("piper-plus-cliが失敗しました(exit code=");
    match code {
        Some(c) => {
            m.append("Some(");
            let d = i64_to_decimal(c as i64);
            m.append(d.as_str());
            m.append(")");
        },
        None => {
            m.append("None");
        },
    }
    m.append(")");
    m
}

} // verus!
