//! Switching the conversation model: the old server is stopped, the new model
//! is started, and when it does not come up the old model is started again.
//! Stopping, starting and probing happen outside; the decisions are here.
use vstd::prelude::*;

verus! {

/// How starting the server on the new model went.
pub enum NewModelStart {
    /// It started and answered the health probe.
    Healthy,
    /// It started but never answered.
    Unhealthy,
    /// It could not be started; the message says why.
    Failed(String),
}

/// What the switch reports when the new server never answered.
pub const HEALTH_TIMEOUT_MESSAGE: &'static str = "新モデルの起動に失敗しました(ヘルスチェックがタイムアウトしました)";

/// What precedes the message of a server that could not be started.
pub const START_FAILED_PREFIX: &'static str = "新モデルの起動に失敗: ";

/// What follows the start of the new model.
pub enum SwitchDecision {
    /// Keep the new model: record its measured size and make it the configured one.
    Commit,
    /// Go back to the old model, stopping the new server first when it runs,
    /// and report the error.
    RollBack { stop_new: bool, error: String },
}

/// A healthy new server is kept; otherwise the switch is rolled back, and a
/// server that started but never answered is stopped first.
pub fn switch_decision(start: NewModelStart) -> (d: SwitchDecision)
    ensures
        start is Healthy ==> d is Commit,
        start is Unhealthy ==> (d matches SwitchDecision::RollBack { stop_new, error } && stop_new
            && error@ == HEALTH_TIMEOUT_MESSAGE@),
        start matches NewModelStart::Failed(e) ==> (d matches SwitchDecision::RollBack {
            stop_new,
            error,
        } && !stop_new && error@ == START_FAILED_PREFIX@ + e@),
{
    match start {
        NewModelStart::Healthy => SwitchDecision::Commit,
        NewModelStart::Unhealthy => SwitchDecision::RollBack {
            stop_new: true,
            error: String::from_str(HEALTH_TIMEOUT_MESSAGE),
        },
        NewModelStart::Failed(e) => {
            let mut m = String::from_str(START_FAILED_PREFIX);
            m.append(e.as_str());
            SwitchDecision::RollBack { stop_new: false, error: m }
        },
    }
}

/// The result of a switch: whether the new model is in use, its measured
/// memory in MB when it is, whether the old model came back after a failure,
/// and the error of a failure.
pub struct SwitchReport {
    pub success: bool,
    pub measured_mb: Option<u64>,
    pub rolled_back: bool,
    pub error: Option<String>,
}

/// The report of a kept switch.
pub fn commit_report(measured_mb: u64) -> (r: SwitchReport)
    ensures
        r.success && r.measured_mb == Some(measured_mb) && !r.rolled_back && r.error is None,
{
    SwitchReport { success: true, measured_mb: Some(measured_mb), rolled_back: false, error: None }
}

/// The report of a rolled-back switch; `restored` says whether the old model
/// answered again.
pub fn rollback_report(error: String, restored: bool) -> (r: SwitchReport)
    ensures
        !r.success && r.measured_mb is None && r.rolled_back == restored && r.error == Some(error),
{
    SwitchReport { success: false, measured_mb: None, rolled_back: restored, error: Some(error) }
}

/// The video memory the new model took: what the card uses after the switch
/// less what it used with no model loaded, never below zero; an unreadable
/// reading after the switch counts as no growth.
pub fn vram_growth_mb(floor_mb: u64, after_mb: Option<u64>) -> (g: u64)
    ensures
        g == match after_mb {
            Some(a) => if a >= floor_mb {
                (a - floor_mb) as u64
            } else {
                0u64
            },
            None => 0u64,
        },
{
    match after_mb {
        Some(a) => a.saturating_sub(floor_mb),
        None => 0,
    }
}

/// The error of a model file that is not there.
pub fn missing_model_message(path_display: &str) -> (m: String)
    ensures
        m@ == "モデルファイルが見つかりません: "@ + path_display@,
{
    let mut m = String::from_str("モデルファイルが見つかりません: ");
    m.append(path_display);
    m
}

} // verus!
