//! The parts of `config.json` that the logic reads, and the checks made on a
//! settings change from the control panel.
use vstd::prelude::*;

use crate::numbers::{decimal, u64_to_decimal};
use crate::tool_call::{json_canonical_text, json_doc, json_member_text};
use crate::text::{chars_of, trim, trim_class_chars, CharClass};

verus! {

/// The language model server.
pub struct LlmConfig {
    pub model_path: String,
    pub port: u16,
    pub context_size: Option<u32>,
    pub gpu_layers: Option<u32>,
}

/// The embedding model server.
pub struct EmbeddingConfig {
    pub model_path: String,
    pub port: u16,
    pub context_size: Option<u32>,
}

/// The speech recognition server.
pub struct SttConfig {
    pub model_path: String,
    pub port: u16,
}

/// The search server. (Its recall threshold is a float and stays with the caller.)
pub struct RagConfig {
    pub port: u16,
}

/// The speech synthesis model. (Its voice parameters are floats and stay with the caller.)
pub struct TtsConfig {
    pub model_path: String,
    pub config_path: String,
}

/// Which parts of the date the header shows.
pub struct UiConfig {
    pub show_year: bool,
    pub show_month: bool,
    pub show_day: bool,
    pub show_weekday: bool,
}

impl Default for UiConfig {
    /// Year, month and day shown; the weekday hidden.
    fn default() -> (c: Self)
        ensures
            c.show_year && c.show_month && c.show_day && !c.show_weekday,
    {
        UiConfig { show_year: true, show_month: true, show_day: true, show_weekday: false }
    }
}

/// A boolean setting that defaults to on.
pub fn default_true() -> (b: bool)
    ensures
        b,
{
    true
}

/// The settings the application starts its services with.
pub struct AppConfig {
    pub llm: LlmConfig,
    pub embedding: EmbeddingConfig,
    pub stt: SttConfig,
    pub rag: RagConfig,
    pub tts: TtsConfig,
    pub hotkey: String,
    pub ui: UiConfig,
}

/// What the search back end needs, for programs other than the main window.
pub struct SearchBackendConfig {
    pub embedding_port: u16,
    pub embedding_model_path: String,
    pub embedding_context_size: Option<u32>,
    pub rag_port: u16,
}

/// The search back end's part of the configuration.
pub fn load_search_backend_config(config: &AppConfig) -> (c: SearchBackendConfig)
    ensures
        c.embedding_port == config.embedding.port,
        c.embedding_model_path@ == config.embedding.model_path@,
        c.embedding_context_size == config.embedding.context_size,
        c.rag_port == config.rag.port,
{
    SearchBackendConfig {
        embedding_port: config.embedding.port,
        embedding_model_path: config.embedding.model_path.clone(),
        embedding_context_size: config.embedding.context_size,
        rag_port: config.rag.port,
    }
}

/// A settings change as checked: the integer and text fields as given, and for
/// each floating-point field whether its value lies in its allowed range
/// (`None` when the field is not being changed).
pub struct ConfigUpdateCheck {
    pub hotkey: Option<String>,
    pub llm_port: Option<u16>,
    pub llm_context_size: Option<u32>,
    pub embedding_port: Option<u16>,
    pub stt_port: Option<u16>,
    pub rag_port: Option<u16>,
    pub passive_recall_threshold_in_range: Option<bool>,
    pub length_scale_in_range: Option<bool>,
    pub noise_scale_in_range: Option<bool>,
    pub noise_w_in_range: Option<bool>,
}

/// A port given below 1024.
pub open spec fn low_port(p: Option<u16>) -> bool {
    p matches Some(v) && v < 1024
}

/// The message for a port below 1024.
pub open spec fn port_message(p: u16) -> Seq<char> {
    "ポート番号は1024以上を指定してください(指定値: "@ + decimal(p as nat) + ")"@
}

/// The message for a voice parameter outside 0.1..=3.0.
pub open spec fn voice_message(label: Seq<char>) -> Seq<char> {
    label + "は0.1〜3.0の範囲で指定してください"@
}

/// The first problem with a settings change, checked in this order: the ports
/// (llm, embedding, stt, rag; each must be at least 1024), the recall threshold
/// (0.0..=2.0), the context size (512..=32768), the three voice parameters
/// (0.1..=3.0), and the hotkey (not blank).
pub open spec fn config_update_error(u: ConfigUpdateCheck) -> Option<Seq<char>> {
    if low_port(u.llm_port) {
        Some(port_message(u.llm_port->0))
    } else if low_port(u.embedding_port) {
        Some(port_message(u.embedding_port->0))
    } else if low_port(u.stt_port) {
        Some(port_message(u.stt_port->0))
    } else if low_port(u.rag_port) {
        Some(port_message(u.rag_port->0))
    } else if u.passive_recall_threshold_in_range == Some(false) {
        Some("類似度しきい値は0.0〜2.0の範囲で指定してください"@)
    } else if u.llm_context_size matches Some(cs) && !(512 <= cs && cs <= 32768) {
        Some("コンテキストサイズは512〜32768の範囲で指定してください"@)
    } else if u.length_scale_in_range == Some(false) {
        Some(voice_message("発話速度(length-scale)"@))
    } else if u.noise_scale_in_range == Some(false) {
        Some(voice_message("ノイズスケール(noise-scale)"@))
    } else if u.noise_w_in_range == Some(false) {
        Some(voice_message("音素幅ノイズ(noise-w)"@))
    } else if u.hotkey matches Some(h) && trim(h@).len() == 0 {
        Some("ホットキーを空にはできません"@)
    } else {
        None
    }
}

fn port_error(p: u16) -> (e: String)
    ensures
        e@ == port_message(p),
{
    let mut e = String::from_str("ポート番号は1024以上を指定してください(指定値: ");
    let d = u64_to_decimal(p as u64);
    e.append(d.as_str());
    e.append(")");
    e
}

fn voice_error(label: &str) -> (e: String)
    ensures
        e@ == voice_message(label@),
{
    let mut e = label.to_string();
    e.append("は0.1〜3.0の範囲で指定してください");
    e
}

fn check_port(p: Option<u16>) -> (r: Result<(), String>)
    ensures
        low_port(p) ==> (r matches Err(e) && e@ == port_message(p->0)),
        !low_port(p) ==> r is Ok,
{
    match p {
        Some(v) => if v < 1024 {
            Err(port_error(v))
        } else {
            Ok(())
        },
        None => Ok(()),
    }
}

/// Checks a settings change: `Ok` exactly when nothing is wrong, else the
/// message of the first problem.
pub fn validate_config_update(update: &ConfigUpdateCheck) -> (r: Result<(), String>)
    ensures
        match r {
            Ok(()) => config_update_error(*update) is None,
            Err(e) => config_update_error(*update) == Some(e@),
        },
{
    check_port(update.llm_port)?;
    check_port(update.embedding_port)?;
    check_port(update.stt_port)?;
    check_port(update.rag_port)?;
    if update.passive_recall_threshold_in_range == Some(false) {
        return Err(String::from_str("類似度しきい値は0.0〜2.0の範囲で指定してください"));
    }
    if let Some(cs) = update.llm_context_size {
        if !(512 <= cs && cs <= 32768) {
            return Err(String::from_str("コンテキストサイズは512〜32768の範囲で指定してください"));
        }
    }
    if update.length_scale_in_range == Some(false) {
        return Err(voice_error("発話速度(length-scale)"));
    }
    if update.noise_scale_in_range == Some(false) {
        return Err(voice_error("ノイズスケール(noise-scale)"));
    }
    if update.noise_w_in_range == Some(false) {
        return Err(voice_error("音素幅ノイズ(noise-w)"));
    }
    if let Some(h) = &update.hotkey {
        let hv = chars_of(h.as_str());
        let t = trim_class_chars(hv.as_slice(), CharClass::Whitespace);
        if t.len() == 0 {
            return Err(String::from_str("ホットキーを空にはできません"));
        }
    }
    Ok(())
}

/// The value written to `llm.modelPath` when switching to a model file.
pub fn llm_model_path_value(file_name: &str) -> (s: String)
    ensures
        s@ == "./models/llm/"@ + file_name@,
{
    let mut s = String::from_str("./models/llm/");
    s.append(file_name);
    s
}

/// What reading a setting back from a JSON text gives: the compact JSON text
/// of member `key` of object `section`, or of the top-level member `key` when
/// the section is empty.
pub open spec fn read_setting(text: Seq<char>, section: Seq<char>, key: Seq<char>) -> Option<Seq<char>> {
    if section.len() == 0 {
        json_member_text(text, key)
    } else {
        match json_member_text(text, section) {
            Some(st) => json_member_text(st, key),
            None => None,
        }
    }
}

/// A compact JSON text that parsing and serialising again gives back
/// unchanged. Integers, strings, booleans and `null` are; serde_json's
/// default float parsing is only nearly exact, so a float may not be.
pub open spec fn stable_json(c: Seq<char>) -> bool {
    json_canonical_text(c) == Some(c)
}

/// Whether writing member `m` (section, key, value) can change what reading
/// `(section, key)` gives: the same member, or the top-level member that
/// holds the section.
pub open spec fn touches(m: (Seq<char>, Seq<char>, Seq<char>), section: Seq<char>, key: Seq<char>) -> bool {
    if m.0.len() == 0 {
        if section.len() == 0 {
            m.1 == key
        } else {
            m.1 == section
        }
    } else {
        if section.len() == 0 {
            m.0 == key
        } else {
            m.0 == section && m.1 == key
        }
    }
}

/// The JSON text of a string (`serde_json::to_string` of a `str`): quoted,
/// with quotes, backslashes and control characters escaped.
pub uninterp spec fn json_str_text(s: Seq<char>) -> Seq<char>;

/// `serde_json::to_string` on a string slice. Serialising a string into
/// memory cannot fail (its only error source is the writer, here a `Vec`), so
/// the error arm is never taken. The contract claims that the result is the
/// named function of the text, and that it parses back unchanged: parsing
/// gives the same string, which `Value::to_string` escapes the same way.
#[verifier::external_body]
fn json_string(s: &str) -> (r: String)
    ensures
        r@ == json_str_text(s@),
        stable_json(r@),
{
    match serde_json::to_string(s) {
        Ok(t) => t,
        Err(_) => String::new(),
    }
}

/// What setting member `key` of a JSON object text to the JSON text `member`
/// gives, as compact JSON text (`Value::to_string`). `None` when the text or
/// the member is not JSON, or the text is not an object.
pub uninterp spec fn json_with_top_member(text: Seq<char>, key: Seq<char>, member: Seq<char>) -> Option<Seq<char>>;

/// Parses both texts with `serde_json::from_str::<Value>`, inserts the member
/// into the object with `Map::insert`, and serialises with
/// `Value::to_string` (see `json_with_top_member`). A text that does not
/// parse, or is not an object, gives `None`. The contract claims only that
/// the result is the named function of the arguments, and that, when the
/// result parses back, the member reads back as its compact JSON text and
/// every other member reads as before, for texts that parse back unchanged
/// (serde_json parses a member's text independently of what surrounds it).
#[verifier::external_body]
fn json_set_top_member(text: &str, key: &str, member: &str) -> (r: Option<String>)
    ensures
        match r {
            Some(t) => json_with_top_member(text@, key@, member@) == Some(t@),
            None => json_with_top_member(text@, key@, member@) is None,
        },
        r matches Some(t) ==> (json_doc(t@) is Some ==> ((json_canonical_text(member@) matches Some(c)
            ==> (stable_json(c) ==> read_setting(t@, Seq::empty(), key@) == Some(c))) && forall|s2: Seq<char>, k2: Seq<char>|
            !touches((Seq::empty(), key@, member@), s2, k2) && (read_setting(text@, s2, k2) matches Some(c2)
                && stable_json(c2)) ==> #[trigger] read_setting(t@, s2, k2) == read_setting(text@, s2, k2))),
{
    let mut value: serde_json::Value = serde_json::from_str(text).ok()?;
    let member: serde_json::Value = serde_json::from_str(member).ok()?;
    value.as_object_mut()?.insert(key.to_string(), member);
    Some(value.to_string())
}

/// What setting member `key` of object `section` of a JSON object text to the
/// JSON text `member` gives, as compact JSON text (`Value::to_string`); a
/// missing section is added as an object. `None` when the text or the member
/// is not JSON, the text is not an object, or the section is there but is not
/// an object.
pub uninterp spec fn json_with_section_member(
    text: Seq<char>,
    section: Seq<char>,
    key: Seq<char>,
    member: Seq<char>,
) -> Option<Seq<char>>;

/// Parses both texts with `serde_json::from_str::<Value>`, finds or adds the
/// section with `Map::entry(..).or_insert` (an empty object when missing),
/// inserts the member into it with `Map::insert`, and serialises with
/// `Value::to_string` (see `json_with_section_member`). Where `as_object_mut`
/// finds no object, the result is `None`. The contract claims that the
/// result is the named function of the arguments, and that, when the result
/// parses back, the member reads back as its compact JSON text and every
/// other member reads as before, for texts that parse back unchanged
/// (serde_json parses a member's text independently of what surrounds it).
#[verifier::external_body]
fn json_set_section_member(text: &str, section: &str, key: &str, member: &str) -> (r: Option<String>)
    requires
        section@.len() > 0,
    ensures
        r matches Some(t) ==> (json_doc(t@) is Some ==> ((json_canonical_text(member@) matches Some(c)
            ==> (stable_json(c) ==> read_setting(t@, section@, key@) == Some(c))) && forall|s2: Seq<char>, k2: Seq<char>|
            !touches((section@, key@, member@), s2, k2) && (read_setting(text@, s2, k2) matches Some(c2)
                && stable_json(c2)) ==> #[trigger] read_setting(t@, s2, k2) == read_setting(text@, s2, k2))),
        match r {
            Some(t) => json_with_section_member(text@, section@, key@, member@) == Some(t@),
            None => json_with_section_member(text@, section@, key@, member@) is None,
        },
{
    let mut value: serde_json::Value = serde_json::from_str(text).ok()?;
    let member: serde_json::Value = serde_json::from_str(member).ok()?;
    value.as_object_mut()?.entry(section).or_insert(serde_json::Value::Object(serde_json::Map::new())).as_object_mut()?.insert(
        key.to_string(),
        member,
    );
    Some(value.to_string())
}

/// The pretty-printed JSON text of a JSON text (`serde_json::to_string_pretty`
/// of its `Value`), or `None` when it is not JSON.
pub uninterp spec fn json_pretty_text(text: Seq<char>) -> Option<Seq<char>>;

/// Parses the text with `serde_json::from_str::<Value>` and pretty-prints it
/// with `serde_json::to_string_pretty`. The contract claims that the result
/// is the named function of the text, and that every member whose text
/// parses back unchanged reads the same from the pretty text (it differs from
/// the compact form only in white space).
#[verifier::external_body]
fn json_pretty(text: &str) -> (r: Option<String>)
    ensures
        r matches Some(p) ==> forall|s2: Seq<char>, k2: Seq<char>|
            (read_setting(text@, s2, k2) matches Some(c2) && stable_json(c2)) ==> #[trigger] read_setting(p@, s2, k2)
                == read_setting(text@, s2, k2),
        match r {
            Some(t) => json_pretty_text(text@) == Some(t@),
            None => json_pretty_text(text@) is None,
        },
{
    let value: serde_json::Value = serde_json::from_str(text).ok()?;
    serde_json::to_string_pretty(&value).ok()
}

/// The values a settings change writes to `config.json`, each `None` when it
/// is not being changed. The floating-point settings arrive as the JSON text
/// of their value.
pub struct ConfigWrite {
    pub hotkey: Option<String>,
    pub llm_port: Option<u16>,
    pub llm_context_size: Option<u32>,
    pub embedding_port: Option<u16>,
    pub stt_port: Option<u16>,
    pub rag_port: Option<u16>,
    pub passive_recall_threshold: Option<String>,
    pub length_scale: Option<String>,
    pub noise_scale: Option<String>,
    pub noise_w: Option<String>,
    pub show_year: Option<bool>,
    pub show_month: Option<bool>,
    pub show_day: Option<bool>,
    pub show_weekday: Option<bool>,
}

/// One member written to `config.json`: (section, key, JSON text of the
/// value); an empty section is the top level.
pub open spec fn member_view(m: (String, String, String)) -> (Seq<char>, Seq<char>, Seq<char>) {
    (m.0@, m.1@, m.2@)
}

/// The views of a list of members.
pub open spec fn members_view(ms: Seq<(String, String, String)>) -> Seq<(Seq<char>, Seq<char>, Seq<char>)> {
    ms.map_values(|m: (String, String, String)| member_view(m))
}

/// The member for an optional value already in JSON text: one member, or none.
pub open spec fn text_member(section: Seq<char>, key: Seq<char>, v: Option<String>) -> Seq<(Seq<char>, Seq<char>, Seq<char>)> {
    match v {
        Some(t) => seq![(section, key, t@)],
        None => Seq::empty(),
    }
}

/// The member for an optional port.
pub open spec fn port_member(section: Seq<char>, v: Option<u16>) -> Seq<(Seq<char>, Seq<char>, Seq<char>)> {
    match v {
        Some(p) => seq![(section, "port"@, decimal(p as nat))],
        None => Seq::empty(),
    }
}

/// The JSON text of a boolean.
pub open spec fn bool_text(b: bool) -> Seq<char> {
    if b {
        "true"@
    } else {
        "false"@
    }
}

/// The member for an optional date display setting of the `ui` section.
pub open spec fn flag_member(key: Seq<char>, v: Option<bool>) -> Seq<(Seq<char>, Seq<char>, Seq<char>)> {
    match v {
        Some(b) => seq![("ui"@, key, bool_text(b))],
        None => Seq::empty(),
    }
}

/// The members a settings change writes, in this order: `hotkey` (top
/// level), `llm.port`, `llm.contextSize`, `embedding.port`, `stt.port`,
/// `rag.port`, `rag.passiveRecallThreshold`, `tts.lengthScale`,
/// `tts.noiseScale`, `tts.noiseW`, `ui.showYear`, `ui.showMonth`,
/// `ui.showDay`, `ui.showWeekday`; each only when it is being changed.
pub open spec fn config_members_spec(w: ConfigWrite) -> Seq<(Seq<char>, Seq<char>, Seq<char>)> {
    (match w.hotkey {
        Some(h) => seq![(Seq::<char>::empty(), "hotkey"@, json_str_text(h@))],
        None => Seq::empty(),
    }) + port_member("llm"@, w.llm_port) + (match w.llm_context_size {
        Some(c) => seq![("llm"@, "contextSize"@, decimal(c as nat))],
        None => Seq::empty(),
    }) + port_member("embedding"@, w.embedding_port) + port_member("stt"@, w.stt_port) + port_member(
        "rag"@,
        w.rag_port,
    ) + text_member("rag"@, "passiveRecallThreshold"@, w.passive_recall_threshold) + text_member(
        "tts"@,
        "lengthScale"@,
        w.length_scale,
    ) + text_member("tts"@, "noiseScale"@, w.noise_scale) + text_member("tts"@, "noiseW"@, w.noise_w)
        + flag_member("showYear"@, w.show_year) + flag_member("showMonth"@, w.show_month) + flag_member(
        "showDay"@,
        w.show_day,
    ) + flag_member("showWeekday"@, w.show_weekday)
}

fn push_member(ms: &mut Vec<(String, String, String)>, section: &str, key: &str, value: String)
    ensures
        members_view(final(ms)@) == members_view(old(ms)@).push((section@, key@, value@)),
{
    let ghost before = ms@;
    ms.push((section.to_string(), key.to_string(), value));
    assert(members_view(ms@) =~= members_view(before).push((section@, key@, value@)));
}

fn push_text(ms: &mut Vec<(String, String, String)>, section: &str, key: &str, v: &Option<String>)
    ensures
        members_view(final(ms)@) == members_view(old(ms)@) + text_member(section@, key@, *v),
{
    match v {
        Some(t) => push_member(ms, section, key, t.clone()),
        None => assert(members_view(ms@) =~= members_view(ms@) + text_member(section@, key@, *v)),
    }
}

fn push_port(ms: &mut Vec<(String, String, String)>, section: &str, v: Option<u16>)
    ensures
        members_view(final(ms)@) == members_view(old(ms)@) + port_member(section@, v),
{
    proof {
        reveal_strlit("port");
    }
    match v {
        Some(p) => push_member(ms, section, "port", u64_to_decimal(p as u64)),
        None => assert(members_view(ms@) =~= members_view(ms@) + port_member(section@, v)),
    }
}

fn push_flag(ms: &mut Vec<(String, String, String)>, key: &str, v: Option<bool>)
    ensures
        members_view(final(ms)@) == members_view(old(ms)@) + flag_member(key@, v),
{
    match v {
        Some(b) => {
            let t = if b {
                String::from_str("true")
            } else {
                String::from_str("false")
            };
            push_member(ms, "ui", key, t);
        },
        None => assert(members_view(ms@) =~= members_view(ms@) + flag_member(key@, v)),
    }
}

/// The members a settings change writes (see `config_members_spec`).
pub fn config_update_members(w: &ConfigWrite) -> (ms: Vec<(String, String, String)>)
    ensures
        members_view(ms@) == config_members_spec(*w),
{
    let mut ms: Vec<(String, String, String)> = Vec::new();
    assert(members_view(ms@) =~= Seq::<(Seq<char>, Seq<char>, Seq<char>)>::empty());
    match &w.hotkey {
        Some(h) => push_member(&mut ms, "", "hotkey", json_string(h.as_str())),
        None => {},
    }
    proof {
        reveal_strlit("");
        assert(""@ =~= Seq::<char>::empty());
    }
    let ghost m0 = members_view(ms@);
    assert(m0 =~= (match w.hotkey {
        Some(h) => seq![(Seq::<char>::empty(), "hotkey"@, json_str_text(h@))],
        None => Seq::<(Seq<char>, Seq<char>, Seq<char>)>::empty(),
    }));
    push_port(&mut ms, "llm", w.llm_port);
    let ghost m1 = members_view(ms@);
    match w.llm_context_size {
        Some(c) => push_member(&mut ms, "llm", "contextSize", u64_to_decimal(c as u64)),
        None => {},
    }
    let ghost m2 = members_view(ms@);
    assert(m2 =~= m1 + (match w.llm_context_size {
        Some(c) => seq![("llm"@, "contextSize"@, decimal(c as nat))],
        None => Seq::<(Seq<char>, Seq<char>, Seq<char>)>::empty(),
    }));
    push_port(&mut ms, "embedding", w.embedding_port);
    push_port(&mut ms, "stt", w.stt_port);
    push_port(&mut ms, "rag", w.rag_port);
    push_text(&mut ms, "rag", "passiveRecallThreshold", &w.passive_recall_threshold);
    push_text(&mut ms, "tts", "lengthScale", &w.length_scale);
    push_text(&mut ms, "tts", "noiseScale", &w.noise_scale);
    push_text(&mut ms, "tts", "noiseW", &w.noise_w);
    push_flag(&mut ms, "showYear", w.show_year);
    push_flag(&mut ms, "showMonth", w.show_month);
    push_flag(&mut ms, "showDay", w.show_day);
    push_flag(&mut ms, "showWeekday", w.show_weekday);
    ms
}

/// One member written into a JSON object text: into the top level when the
/// section is empty, else into that section.
pub open spec fn member_applied(text: Seq<char>, m: (Seq<char>, Seq<char>, Seq<char>)) -> Option<Seq<char>> {
    if m.0.len() == 0 {
        json_with_top_member(text, m.1, m.2)
    } else {
        json_with_section_member(text, m.0, m.1, m.2)
    }
}

/// The members written one after the other, in order; `None` as soon as one
/// cannot be written.
pub open spec fn with_members(text: Seq<char>, ms: Seq<(Seq<char>, Seq<char>, Seq<char>)>) -> Option<Seq<char>>
    decreases ms.len(),
{
    if ms.len() == 0 {
        Some(text)
    } else {
        match member_applied(text, ms[0]) {
            Some(t) => with_members(t, ms.drop_first()),
            None => None,
        }
    }
}

/// Every intermediate text of writing the members in order parses back as
/// JSON.
pub open spec fn steps_parse(text: Seq<char>, ms: Seq<(Seq<char>, Seq<char>, Seq<char>)>) -> bool
    decreases ms.len(),
{
    ms.len() == 0 || (member_applied(text, ms[0]) matches Some(t) && json_doc(t) is Some && steps_parse(
        t,
        ms.drop_first(),
    ))
}

/// Member `j` of the list reads back from `text` as the compact JSON text of
/// its value, when that text parses back unchanged and no later member of
/// the list writes over it.
pub open spec fn reads_back(text: Seq<char>, ms: Seq<(Seq<char>, Seq<char>, Seq<char>)>, j: int) -> bool {
    (json_canonical_text(ms[j].2) matches Some(c) && stable_json(c) && forall|l: int|
        j < l < ms.len() ==> !touches(#[trigger] ms[l], ms[j].0, ms[j].1)) ==> read_setting(text, ms[j].0, ms[j].1)
        == json_canonical_text(ms[j].2)
}

/// Writing member `m` into the text `o` (when there is one) gives a text
/// that parses back as JSON.
pub open spec fn step_parses(o: Option<Seq<char>>, m: (Seq<char>, Seq<char>, Seq<char>)) -> bool {
    match o {
        Some(t) => match member_applied(t, m) {
            Some(u) => json_doc(u) is Some,
            None => false,
        },
        None => false,
    }
}

/// Writing one more member is writing the list, then that member.
pub proof fn lemma_with_members_push(text: Seq<char>, ms: Seq<(Seq<char>, Seq<char>, Seq<char>)>, m: (Seq<char>, Seq<char>, Seq<char>))
    ensures
        with_members(text, ms.push(m)) == match with_members(text, ms) {
            Some(t) => member_applied(t, m),
            None => None,
        },
        steps_parse(text, ms.push(m)) == (steps_parse(text, ms) && step_parses(with_members(text, ms), m)),
    decreases ms.len(),
{
    if ms.len() == 0 {
        assert(ms.push(m).drop_first() =~= Seq::<(Seq<char>, Seq<char>, Seq<char>)>::empty());
        match member_applied(text, m) {
            Some(t) => {
                assert(steps_parse(t, Seq::<(Seq<char>, Seq<char>, Seq<char>)>::empty()));
                assert(with_members(t, Seq::<(Seq<char>, Seq<char>, Seq<char>)>::empty()) == Some(t));
            },
            None => {},
        }
    } else {
        assert(ms.push(m).drop_first() =~= ms.drop_first().push(m));
        assert(ms.push(m)[0] == ms[0]);
        match member_applied(text, ms[0]) {
            Some(t) => lemma_with_members_push(t, ms.drop_first(), m),
            None => {},
        }
    }
}

/// The new `config.json`: the members written in order, then the whole
/// pretty-printed; `None` when the file or a member is not usable JSON.
pub open spec fn config_written(text: Seq<char>, ms: Seq<(Seq<char>, Seq<char>, Seq<char>)>) -> Option<Seq<char>> {
    match with_members(text, ms) {
        Some(t) => json_pretty_text(t),
        None => None,
    }
}

/// The error when `config.json` cannot be rewritten as JSON.
pub const CONFIG_PARSE_FAILED: &'static str = "config.jsonの解析に失敗しました";

fn apply_member(text: &str, m: &(String, String, String)) -> (r: Option<String>)
    ensures
        r matches Some(t) ==> (json_doc(t@) is Some ==> ((json_canonical_text(m.2@) matches Some(c) ==> (
        stable_json(c) ==> read_setting(t@, m.0@, m.1@) == Some(c))) && forall|s2: Seq<char>, k2: Seq<char>|
            !touches(member_view(*m), s2, k2) && (read_setting(text@, s2, k2) matches Some(c2) && stable_json(c2))
                ==> #[trigger] read_setting(t@, s2, k2) == read_setting(text@, s2, k2))),
        match r {
            Some(t) => member_applied(text@, member_view(*m)) == Some(t@),
            None => member_applied(text@, member_view(*m)) is None,
        },
{
    if chars_of(m.0.as_str()).len() == 0 {
        assert(m.0@ =~= Seq::<char>::empty());
        json_set_top_member(text, m.1.as_str(), m.2.as_str())
    } else {
        json_set_section_member(text, m.0.as_str(), m.1.as_str(), m.2.as_str())
    }
}

/// A settings change applied to the text of `config.json`: the first problem
/// with the change when there is one (see `validate_config_update`);
/// otherwise the members written in order and the file pretty-printed
/// (`config_written`), or `CONFIG_PARSE_FAILED` when that cannot be done.
/// When every intermediate text parses back, each member reads back from the
/// new file as the compact JSON text of its value, unless a later member
/// writes over it or its text does not parse back unchanged.
pub fn apply_config_update(
    config_text: &str,
    update: &ConfigUpdateCheck,
    members: &[(String, String, String)],
) -> (r: Result<String, String>)
    ensures
        config_update_error(*update) matches Some(e) ==> (r matches Err(x) && x@ == e),
        config_update_error(*update) is None ==> match config_written(config_text@, members_view(members@)) {
            Some(t) => r matches Ok(s) && s@ == t,
            None => r matches Err(x) && x@ == CONFIG_PARSE_FAILED@,
        },
        r matches Ok(s) ==> (steps_parse(config_text@, members_view(members@)) ==> forall|j: int|
            0 <= j < members@.len() ==> #[trigger] reads_back(s@, members_view(members@), j)),
{
    validate_config_update(update)?;
    let ghost mv = members_view(members@);
    let mut cur = config_text.to_owned();
    let mut i: usize = 0;
    assert(mv.skip(0) =~= mv);
    assert(mv.take(0) =~= Seq::<(Seq<char>, Seq<char>, Seq<char>)>::empty());
    while i < members.len()
        invariant
            i <= members@.len(),
            mv == members_view(members@),
            config_update_error(*update) is None,
            with_members(config_text@, mv) == with_members(cur@, mv.skip(i as int)),
            with_members(config_text@, mv.take(i as int)) == Some(cur@),
            steps_parse(config_text@, mv.take(i as int)) ==> forall|j: int|
                0 <= j < i ==> #[trigger] reads_back(cur@, mv.take(i as int), j),
        decreases members@.len() - i,
    {
        let ghost before = cur@;
        let ghost m = mv[i as int];
        assert(mv.skip(i as int)[0] == member_view(members@[i as int]));
        assert(mv.skip(i as int).drop_first() =~= mv.skip(i + 1));
        assert(mv.take(i + 1) =~= mv.take(i as int).push(m));
        proof {
            lemma_with_members_push(config_text@, mv.take(i as int), m);
        }
        match apply_member(cur.as_str(), &members[i]) {
            Some(t) => cur = t,
            None => return Err(String::from_str(CONFIG_PARSE_FAILED)),
        }
        proof {
            let pre = mv.take(i as int);
            let post = mv.take(i + 1);
            if steps_parse(config_text@, post) {
                assert forall|j: int| 0 <= j < i + 1 implies #[trigger] reads_back(cur@, post, j) by {
                    assert(post[j] == mv[j]);
                    if j < i {
                        assert(pre[j] == mv[j]);
                        if json_canonical_text(mv[j].2) matches Some(c) && stable_json(c) && forall|l: int|
                            j < l < post.len() ==> !touches(#[trigger] post[l], mv[j].0, mv[j].1) {
                            assert forall|l: int| j < l < pre.len() implies !touches(#[trigger] pre[l], mv[j].0, mv[j].1) by {
                                assert(pre[l] == post[l]);
                            }
                            assert(reads_back(before, pre, j));
                            assert(post[i as int] == m);
                            assert(!touches(m, mv[j].0, mv[j].1));
                            assert(read_setting(cur@, mv[j].0, mv[j].1) == read_setting(before, mv[j].0, mv[j].1));
                        }
                    }
                }
            }
        }
        i = i + 1;
    }
    assert(mv.skip(i as int) =~= Seq::<(Seq<char>, Seq<char>, Seq<char>)>::empty());
    assert(mv.take(i as int) =~= mv);
    match json_pretty(cur.as_str()) {
        Some(p) => {
            proof {
                if steps_parse(config_text@, mv) {
                    assert forall|j: int| 0 <= j < members@.len() implies #[trigger] reads_back(p@, mv, j) by {
                        assert(reads_back(cur@, mv, j));
                        if json_canonical_text(mv[j].2) matches Some(c) && stable_json(c) && forall|l: int|
                            j < l < mv.len() ==> !touches(#[trigger] mv[l], mv[j].0, mv[j].1) {
                            assert(read_setting(p@, mv[j].0, mv[j].1) == read_setting(cur@, mv[j].0, mv[j].1));
                        }
                    }
                }
            }
            Ok(p)
        },
        None => Err(String::from_str(CONFIG_PARSE_FAILED)),
    }
}

/// The new `config.json` for a model file: `llm.modelPath` set to the JSON
/// string of `./models/llm/<file>`, the whole pretty-printed.
pub open spec fn model_path_written(text: Seq<char>, file_name: Seq<char>) -> Option<Seq<char>> {
    match json_with_section_member(text, "llm"@, "modelPath"@, json_str_text("./models/llm/"@ + file_name)) {
        Some(t) => json_pretty_text(t),
        None => None,
    }
}

/// The text of `config.json` after switching the language model to a model
/// file: `llm.modelPath` set to the JSON string of `llm_model_path_value`,
/// the whole pretty-printed; `None` when the file is not usable JSON. When
/// the rewritten file parses back, `llm.modelPath` reads back as that string.
pub fn with_llm_model_path(config_text: &str, file_name: &str) -> (r: Option<String>)
    ensures
        match r {
            Some(t) => model_path_written(config_text@, file_name@) == Some(t@),
            None => model_path_written(config_text@, file_name@) is None,
        },
        r matches Some(p) ==> (steps_parse(
            config_text@,
            seq![("llm"@, "modelPath"@, json_str_text("./models/llm/"@ + file_name@))],
        ) ==> read_setting(p@, "llm"@, "modelPath"@) == Some(json_str_text("./models/llm/"@ + file_name@))),
{
    proof {
        reveal_strlit("llm");
    }
    let path = llm_model_path_value(file_name);
    let member = json_string(path.as_str());
    let ghost m = ("llm"@, "modelPath"@, member@);
    match json_set_section_member(config_text, "llm", "modelPath", member.as_str()) {
        Some(t) => {
            let r = json_pretty(t.as_str());
            proof {
                assert(seq![m].drop_first() =~= Seq::<(Seq<char>, Seq<char>, Seq<char>)>::empty());
                assert(member_applied(config_text@, m) == Some(t@));
            }
            r
        },
        None => None,
    }
}

/// No member of the list is written over by a later one.
pub open spec fn written_once(ms: Seq<(Seq<char>, Seq<char>, Seq<char>)>) -> bool {
    forall|i: int, j: int| 0 <= i < j < ms.len() ==> !touches(#[trigger] ms[j], ms[i].0, #[trigger] ms[i].1)
}

/// Every member of the list is written to one of the given (section, key) places.
pub open spec fn places_within(ms: Seq<(Seq<char>, Seq<char>, Seq<char>)>, places: Set<(Seq<char>, Seq<char>)>) -> bool {
    forall|i: int| 0 <= i < ms.len() ==> places.contains((#[trigger] ms[i].0, ms[i].1))
}

proof fn lemma_extend_written_once(
    prefix: Seq<(Seq<char>, Seq<char>, Seq<char>)>,
    piece: Seq<(Seq<char>, Seq<char>, Seq<char>)>,
    places: Set<(Seq<char>, Seq<char>)>,
    place: (Seq<char>, Seq<char>),
)
    requires
        written_once(prefix),
        places_within(prefix, places),
        piece.len() <= 1,
        forall|i: int| 0 <= i < piece.len() ==> (#[trigger] piece[i].0, piece[i].1) == place,
        forall|q: (Seq<char>, Seq<char>)| #[trigger] places.contains(q) ==> !touches((place.0, place.1, Seq::empty()), q.0, q.1),
    ensures
        written_once(prefix + piece),
        places_within(prefix + piece, places.insert(place)),
{
    let all = prefix + piece;
    assert forall|i: int, j: int| 0 <= i < j < all.len() implies !touches(#[trigger] all[j], all[i].0, #[trigger] all[i].1) by {
        if j < prefix.len() {
            assert(all[j] == prefix[j] && all[i] == prefix[i]);
        } else {
            assert(all[j] == piece[j - prefix.len()]);
            assert(i < prefix.len());
            assert(all[i] == prefix[i]);
            assert(places.contains((prefix[i].0, prefix[i].1)));
        }
    }
    assert forall|i: int| 0 <= i < all.len() implies places.insert(place).contains((#[trigger] all[i].0, all[i].1)) by {
        if i < prefix.len() {
            assert(all[i] == prefix[i]);
        } else {
            assert(all[i] == piece[i - prefix.len()]);
        }
    }
}

/// A settings change writes each setting once: no member of
/// `config_members_spec` is written over by a later one, so each reads back
/// from the new file (see `apply_config_update`).
pub proof fn lemma_config_members_written_once(w: ConfigWrite)
    ensures
        written_once(config_members_spec(w)),
{
    reveal_strlit("hotkey");
    reveal_strlit("llm");
    reveal_strlit("port");
    reveal_strlit("contextSize");
    reveal_strlit("embedding");
    reveal_strlit("stt");
    reveal_strlit("rag");
    reveal_strlit("passiveRecallThreshold");
    reveal_strlit("tts");
    reveal_strlit("lengthScale");
    reveal_strlit("noiseScale");
    reveal_strlit("noiseW");
    reveal_strlit("ui");
    reveal_strlit("showYear");
    reveal_strlit("showMonth");
    reveal_strlit("showDay");
    reveal_strlit("showWeekday");
    assert("llm"@[0] != "stt"@[0] && "llm"@[0] != "rag"@[0] && "stt"@[0] != "rag"@[0]);
    assert("contextSize"@.len() != "port"@.len());
    assert("passiveRecallThreshold"@.len() != "port"@.len());
    assert("lengthScale"@.len() != "noiseScale"@.len() && "lengthScale"@.len() != "noiseW"@.len());
    assert("noiseScale"@.len() != "noiseW"@.len());
    assert("showYear"@.len() != "showMonth"@.len() && "showYear"@.len() != "showDay"@.len());
    assert("showYear"@.len() != "showWeekday"@.len() && "showMonth"@.len() != "showDay"@.len());
    assert("showMonth"@.len() != "showWeekday"@.len() && "showDay"@.len() != "showWeekday"@.len());
    let e = Seq::<char>::empty();
    let p0: Seq<(Seq<char>, Seq<char>, Seq<char>)> = match w.hotkey {
        Some(h) => seq![(e, "hotkey"@, json_str_text(h@))],
        None => Seq::empty(),
    };
    let p2: Seq<(Seq<char>, Seq<char>, Seq<char>)> = match w.llm_context_size {
        Some(c) => seq![("llm"@, "contextSize"@, decimal(c as nat))],
        None => Seq::empty(),
    };
    let s0 = Set::<(Seq<char>, Seq<char>)>::empty();
    assert(written_once(Seq::<(Seq<char>, Seq<char>, Seq<char>)>::empty()));
    lemma_extend_written_once(Seq::empty(), p0, s0, (e, "hotkey"@));
    let a0 = Seq::empty() + p0;
    let s1 = s0.insert((e, "hotkey"@));
    let p1 = port_member("llm"@, w.llm_port);
    lemma_extend_written_once(a0, p1, s1, ("llm"@, "port"@));
    let a1 = a0 + p1;
    let s2 = s1.insert(("llm"@, "port"@));
    lemma_extend_written_once(a1, p2, s2, ("llm"@, "contextSize"@));
    let a2 = a1 + p2;
    let s3 = s2.insert(("llm"@, "contextSize"@));
    let p3 = port_member("embedding"@, w.embedding_port);
    lemma_extend_written_once(a2, p3, s3, ("embedding"@, "port"@));
    let a3 = a2 + p3;
    let s4 = s3.insert(("embedding"@, "port"@));
    let p4 = port_member("stt"@, w.stt_port);
    lemma_extend_written_once(a3, p4, s4, ("stt"@, "port"@));
    let a4 = a3 + p4;
    let s5 = s4.insert(("stt"@, "port"@));
    let p5 = port_member("rag"@, w.rag_port);
    lemma_extend_written_once(a4, p5, s5, ("rag"@, "port"@));
    let a5 = a4 + p5;
    let s6 = s5.insert(("rag"@, "port"@));
    let p6 = text_member("rag"@, "passiveRecallThreshold"@, w.passive_recall_threshold);
    lemma_extend_written_once(a5, p6, s6, ("rag"@, "passiveRecallThreshold"@));
    let a6 = a5 + p6;
    let s7 = s6.insert(("rag"@, "passiveRecallThreshold"@));
    let p7 = text_member("tts"@, "lengthScale"@, w.length_scale);
    lemma_extend_written_once(a6, p7, s7, ("tts"@, "lengthScale"@));
    let a7 = a6 + p7;
    let s8 = s7.insert(("tts"@, "lengthScale"@));
    let p8 = text_member("tts"@, "noiseScale"@, w.noise_scale);
    lemma_extend_written_once(a7, p8, s8, ("tts"@, "noiseScale"@));
    let a8 = a7 + p8;
    let s9 = s8.insert(("tts"@, "noiseScale"@));
    let p9 = text_member("tts"@, "noiseW"@, w.noise_w);
    lemma_extend_written_once(a8, p9, s9, ("tts"@, "noiseW"@));
    let a9 = a8 + p9;
    let s10 = s9.insert(("tts"@, "noiseW"@));
    let p10 = flag_member("showYear"@, w.show_year);
    lemma_extend_written_once(a9, p10, s10, ("ui"@, "showYear"@));
    let a10 = a9 + p10;
    let s11 = s10.insert(("ui"@, "showYear"@));
    let p11 = flag_member("showMonth"@, w.show_month);
    lemma_extend_written_once(a10, p11, s11, ("ui"@, "showMonth"@));
    let a11 = a10 + p11;
    let s12 = s11.insert(("ui"@, "showMonth"@));
    let p12 = flag_member("showDay"@, w.show_day);
    lemma_extend_written_once(a11, p12, s12, ("ui"@, "showDay"@));
    let a12 = a11 + p12;
    let s13 = s12.insert(("ui"@, "showDay"@));
    let p13 = flag_member("showWeekday"@, w.show_weekday);
    lemma_extend_written_once(a12, p13, s13, ("ui"@, "showWeekday"@));
    assert(a12 + p13 =~= config_members_spec(w));
}

/// Reading back a settings change: in a file where the change's members read
/// back (as `apply_config_update` ensures when every intermediate text
/// parses), each setting it writes reads back as the JSON text written,
/// whenever that text parses back unchanged.
pub proof fn lemma_settings_read_back(text: Seq<char>, w: ConfigWrite, j: int)
    requires
        0 <= j < config_members_spec(w).len(),
        reads_back(text, config_members_spec(w), j),
    ensures
        (json_canonical_text(config_members_spec(w)[j].2) matches Some(c) && stable_json(c)) ==> read_setting(
            text,
            config_members_spec(w)[j].0,
            config_members_spec(w)[j].1,
        ) == json_canonical_text(config_members_spec(w)[j].2),
{
    let ms = config_members_spec(w);
    lemma_config_members_written_once(w);
    assert forall|l: int| j < l < ms.len() implies !touches(#[trigger] ms[l], ms[j].0, ms[j].1) by {
        assert(!touches(ms[l], ms[j].0, ms[j].1));
    }
}

/// Ports below 1024 are refused: a settings change that gives any of the four
/// ports (language model, embedding, speech recognition, search) a value
/// below 1024 fails, and the first such port in that order is the one the
/// message names.
pub proof fn lemma_low_ports_refused(u: ConfigUpdateCheck)
    ensures
        u.llm_port is Some && u.llm_port->0 < 1024 ==> config_update_error(u) is Some,
        u.embedding_port is Some && u.embedding_port->0 < 1024 ==> config_update_error(u) is Some,
        u.stt_port is Some && u.stt_port->0 < 1024 ==> config_update_error(u) is Some,
        u.rag_port is Some && u.rag_port->0 < 1024 ==> config_update_error(u) is Some,
        u.llm_port is Some && u.llm_port->0 < 1024 ==> config_update_error(u) == Some(
            "ポート番号は1024以上を指定してください(指定値: "@ + decimal(u.llm_port->0 as nat) + ")"@,
        ),
        !(u.llm_port is Some && u.llm_port->0 < 1024) && u.embedding_port is Some && u.embedding_port->0 < 1024
            ==> config_update_error(u) == Some(
            "ポート番号は1024以上を指定してください(指定値: "@ + decimal(u.embedding_port->0 as nat) + ")"@,
        ),
        !(u.llm_port is Some && u.llm_port->0 < 1024) && !(u.embedding_port is Some && u.embedding_port->0
            < 1024) && u.stt_port is Some && u.stt_port->0 < 1024 ==> config_update_error(u) == Some(
            "ポート番号は1024以上を指定してください(指定値: "@ + decimal(u.stt_port->0 as nat) + ")"@,
        ),
        !(u.llm_port is Some && u.llm_port->0 < 1024) && !(u.embedding_port is Some && u.embedding_port->0
            < 1024) && !(u.stt_port is Some && u.stt_port->0 < 1024) && u.rag_port is Some && u.rag_port->0 < 1024
            ==> config_update_error(u) == Some(
            "ポート番号は1024以上を指定してください(指定値: "@ + decimal(u.rag_port->0 as nat) + ")"@,
        ),
{
}

/// The other checks of a settings change: a recall threshold, a voice
/// parameter out of range, a context size outside 512..=32768, or a blank
/// hotkey makes it fail; a change with none of these problems and no port
/// below 1024 passes.
pub proof fn lemma_settings_checks(u: ConfigUpdateCheck)
    ensures
        u.passive_recall_threshold_in_range == Some(false) ==> config_update_error(u) is Some,
        u.length_scale_in_range == Some(false) ==> config_update_error(u) is Some,
        u.noise_scale_in_range == Some(false) ==> config_update_error(u) is Some,
        u.noise_w_in_range == Some(false) ==> config_update_error(u) is Some,
        u.llm_context_size is Some && (u.llm_context_size->0 < 512 || u.llm_context_size->0 > 32768)
            ==> config_update_error(u) is Some,
        u.hotkey is Some && trim(u.hotkey->0@).len() == 0 ==> config_update_error(u) is Some,
        !(u.llm_port is Some && u.llm_port->0 < 1024) && !(u.embedding_port is Some && u.embedding_port->0 < 1024)
            && !(u.stt_port is Some && u.stt_port->0 < 1024) && !(u.rag_port is Some && u.rag_port->0 < 1024)
            && u.passive_recall_threshold_in_range != Some(false) && u.length_scale_in_range != Some(false)
            && u.noise_scale_in_range != Some(false) && u.noise_w_in_range != Some(false) && !(u.llm_context_size is Some
            && (u.llm_context_size->0 < 512 || u.llm_context_size->0 > 32768)) && !(u.hotkey is Some && trim(
            u.hotkey->0@,
        ).len() == 0) ==> config_update_error(u) is None,
{
}

} // verus!
