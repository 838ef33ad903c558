//! Microphone recording: the recorder's state and the WAVE encoding of what
//! it captured. Opening the input device and collecting its samples happen
//! outside; the recorder decides on the outcome of each command.
use vstd::prelude::*;

use crate::chat::{hotkey_action, HotkeyAction};

verus! {

/// Whether a recording is in progress.
pub struct RecordingState {
    recording: bool,
}

impl View for RecordingState {
    type V = bool;

    closed spec fn view(&self) -> bool {
        self.recording
    }
}

impl RecordingState {
    /// A recorder that is not recording.
    pub fn new() -> (s: Self)
        ensures
            !s@,
    {
        RecordingState { recording: false }
    }

    /// Whether a recording is in progress.
    pub fn is_recording(&self) -> (r: bool)
        ensures
            r == self@,
    {
        self.recording
    }
}

impl Default for RecordingState {
    fn default() -> (s: Self)
        ensures
            !s@,
    {
        RecordingState::new()
    }
}

/// What stopping reports when no recording is in progress.
pub const NOT_RECORDING_MESSAGE: &'static str = "録音していません";

/// What precedes the encoder's own message when the capture could not be
/// encoded.
pub const ENCODE_FAILED_PREFIX: &'static str = "WAV確定に失敗: ";

/// A number as two little-endian bytes (the low 16 bits; for a negative
/// number, its two's complement).
pub open spec fn le16(x: int) -> Seq<u8> {
    seq![(x % 256) as u8, ((x / 256) % 256) as u8]
}

/// A number as four little-endian bytes (the low 32 bits).
pub open spec fn le32(x: int) -> Seq<u8> {
    seq![(x % 256) as u8, ((x / 256) % 256) as u8, ((x / 65536) % 256) as u8, ((x / 16777216) % 256) as u8]
}

/// The bytes of an ASCII text.
pub open spec fn ascii_bytes(s: Seq<char>) -> Seq<u8> {
    s.map_values(|c: char| c as u8)
}

/// The samples as 16-bit little-endian two's-complement values, in order.
pub open spec fn sample_bytes(samples: Seq<i16>) -> Seq<u8>
    decreases samples.len(),
{
    if samples.len() == 0 {
        Seq::empty()
    } else {
        le16(samples[0] as int) + sample_bytes(samples.drop_first())
    }
}

/// The speaker mask of the extensible format: one bit per channel, at most
/// the eighteen assigned positions.
pub open spec fn channel_mask(channels: int) -> int
    decreases channels,
{
    if channels <= 0 {
        0
    } else if channels > 18 {
        channel_mask(18)
    } else {
        2 * channel_mask(channels - 1) + 1
    }
}

/// The sub-format identifier of integer PCM in the extensible format.
pub open spec fn pcm_subformat_guid() -> Seq<u8> {
    seq![0x01u8, 0x00, 0x00, 0x00, 0x00, 0x00, 0x10, 0x00, 0x80, 0x00, 0x00, 0xaa, 0x00, 0x38, 0x9b, 0x71]
}

/// The bytes of the file after the RIFF size field, apart from the samples:
/// 36 for the plain PCM header (up to two channels), 60 for the extensible
/// one (more channels).
pub open spec fn wav_header_rest(channels: u16) -> int {
    if channels <= 2 {
        36
    } else {
        60
    }
}

/// The `fmt ` chunk's size and contents for 16-bit integer samples: the plain
/// PCM form for up to two channels, the extensible form above that.
pub open spec fn wav_fmt_chunk(sample_rate: u32, channels: u16) -> Seq<u8> {
    let byte_rate = sample_rate * 2 * channels;
    let common = le16(channels as int) + le32(sample_rate as int) + le32(byte_rate) + le16(2 * channels)
        + le16(16);
    if channels <= 2 {
        le32(16) + le16(1) + common
    } else {
        le32(40) + le16(0xfffe) + common + le16(22) + le16(16) + le32(channel_mask(channels as int))
            + pcm_subformat_guid()
    }
}

/// The 16-bit integer PCM WAVE file of the interleaved samples: the RIFF
/// header with the file size, the `fmt ` chunk, then the `data` chunk with
/// its length and the samples.
pub open spec fn wav_file_bytes(samples: Seq<i16>, sample_rate: u32, channels: u16) -> Seq<u8> {
    let data_len = 2 * samples.len() as int;
    ascii_bytes("RIFF"@) + le32(data_len + wav_header_rest(channels)) + ascii_bytes("WAVE"@) + ascii_bytes(
        "fmt "@,
    ) + wav_fmt_chunk(sample_rate, channels) + ascii_bytes("data"@) + le32(data_len) + sample_bytes(samples)
}

/// hound's message for a sample count that is not a multiple of the channel
/// count.
pub open spec fn unfinished_sample_text() -> Seq<char> {
    "The number of samples written is not a multiple of the number of channels."@
}

/// Writes the samples with `hound::WavWriter` (16-bit integer PCM) into an
/// in-memory buffer and returns the buffer, which holds `wav_file_bytes`:
/// hound writes the plain PCM header for up to two channels and the
/// extensible one above that, the samples little-endian, and then fills in
/// the two size fields. Writes into memory do not fail, so the one error
/// hound can report is `UnfinishedSample`, raised by `finalize` when the
/// sample count is not a multiple of the channel count; its `Display` text
/// is returned. hound divides by the channel count and by the sample rate,
/// and computes the byte rate, the data length and the file size (data
/// length plus 36 or 60) in `u32` arithmetic, hence the bounds.
#[verifier::external_body]
fn encode_wav_i16(samples: &[i16], sample_rate: u32, channels: u16) -> (r: Result<Vec<u8>, String>)
    requires
        channels >= 1,
        sample_rate >= 1,
        sample_rate * 2 * channels <= u32::MAX,
        samples@.len() * 2 + wav_header_rest(channels) <= u32::MAX,
    ensures
        r is Ok <==> (samples@.len() as int) % (channels as int) == 0,
        r matches Ok(b) ==> b@ == wav_file_bytes(samples@, sample_rate, channels),
        r matches Err(e) ==> e@ == unfinished_sample_text(),
{
    let spec = hound::WavSpec { channels, sample_rate, bits_per_sample: 16, sample_format: hound::SampleFormat::Int };
    let mut cursor = std::io::Cursor::new(Vec::new());
    {
        let mut writer = hound::WavWriter::new(&mut cursor, spec).map_err(|e| e.to_string())?;
        for &s in samples {
            writer.write_sample(s).map_err(|e| e.to_string())?;
        }
        writer.finalize().map_err(|e| e.to_string())?;
    }
    Ok(cursor.into_inner())
}

/// Starts a recording. `opened` is the outcome of opening the input device:
/// on success the recorder is recording, on failure the error is reported
/// and the recorder stays as it was.
pub fn start(state: &mut RecordingState, opened: Result<(), String>) -> (r: Result<(), String>)
    ensures
        r == opened,
        final(state)@ == (opened is Ok || old(state)@),
{
    if opened.is_ok() {
        state.recording = true;
    }
    opened
}

/// Stops the recording and encodes the captured interleaved samples as a
/// WAVE file. Without a recording in progress it reports so; either way the
/// recorder is no longer recording afterwards.
pub fn stop_and_encode_wav(
    state: &mut RecordingState,
    samples: &[i16],
    sample_rate: u32,
    channels: u16,
) -> (r: Result<Vec<u8>, String>)
    requires
        old(state)@ ==> channels >= 1 && sample_rate >= 1 && sample_rate * 2 * channels <= u32::MAX
            && samples@.len() * 2 + wav_header_rest(channels) <= u32::MAX,
    ensures
        !final(state)@,
        !old(state)@ ==> (r matches Err(e) && e@ == NOT_RECORDING_MESSAGE@),
        old(state)@ ==> (r is Ok <==> (samples@.len() as int) % (channels as int) == 0),
        old(state)@ ==> (r matches Ok(b) ==> b@ == wav_file_bytes(samples@, sample_rate, channels)),
        old(state)@ ==> (r matches Err(e) ==> e@ == ENCODE_FAILED_PREFIX@ + unfinished_sample_text()),
{
    if !state.recording {
        return Err(String::from_str(NOT_RECORDING_MESSAGE));
    }
    state.recording = false;
    match encode_wav_i16(samples, sample_rate, channels) {
        Ok(b) => Ok(b),
        Err(e) => {
            let mut m = String::from_str(ENCODE_FAILED_PREFIX);
            m.append(e.as_str());
            Err(m)
        },
    }
}

/// What a hotkey press did to the recorder.
pub enum HotkeyOutcome {
    /// A recording was asked to start, with the outcome of opening the device.
    Started(Result<(), String>),
    /// The recording was stopped, with its WAVE file or why there is none.
    Stopped(Result<Vec<u8>, String>),
}

/// A press of the recording hotkey (see `hotkey_action`). Without a
/// recording in progress it starts one, given the outcome of opening the
/// input device, and the recorder records exactly when that succeeded. With
/// one in progress it stops it and encodes the captured samples; the
/// recorder then never records, and the file is the WAVE file of the
/// samples exactly when their count is a multiple of the channel count.
pub fn toggle_recording(
    state: &mut RecordingState,
    opened: Result<(), String>,
    samples: &[i16],
    sample_rate: u32,
    channels: u16,
) -> (r: HotkeyOutcome)
    requires
        old(state)@ ==> channels >= 1 && sample_rate >= 1 && sample_rate * 2 * channels <= u32::MAX
            && samples@.len() * 2 + wav_header_rest(channels) <= u32::MAX,
    ensures
        !old(state)@ ==> (r matches HotkeyOutcome::Started(res) && res == opened && final(state)@ == (
        opened is Ok)),
        old(state)@ ==> (r matches HotkeyOutcome::Stopped(res) && !final(state)@ && (res is Ok <==> (
        samples@.len() as int) % (channels as int) == 0) && (res matches Ok(b) ==> b@ == wav_file_bytes(
            samples@,
            sample_rate,
            channels,
        )) && (res matches Err(e) ==> e@ == ENCODE_FAILED_PREFIX@ + unfinished_sample_text())),
{
    match hotkey_action(state.is_recording()) {
        HotkeyAction::StartRecording => HotkeyOutcome::Started(start(state, opened)),
        HotkeyAction::StopAndTranscribe => HotkeyOutcome::Stopped(
            stop_and_encode_wav(state, samples, sample_rate, channels),
        ),
    }
}

} // verus!
