//! Text-to-speech responses: a JSON document holding an answer text and
//! base64-encoded WAV audio.

use base64::Engine;
use vstd::prelude::*;

use crate::json::{json_parse_error, json_str_at, json_string_at};

verus! {

/// The bytes `RIFF`.
pub open spec fn riff_tag() -> Seq<u8> {
    seq![0x52u8, 0x49u8, 0x46u8, 0x46u8]
}

/// The bytes `WAVE`.
pub open spec fn wave_tag() -> Seq<u8> {
    seq![0x57u8, 0x41u8, 0x56u8, 0x45u8]
}

/// A WAV header: at least 44 bytes, `RIFF` at offset 0 and `WAVE` at offset 8.
pub open spec fn has_riff_tag(a: Seq<u8>) -> bool {
    a.len() >= 4 && a.take(4) == riff_tag()
}

pub open spec fn has_wave_tag(a: Seq<u8>) -> bool {
    a.len() >= 12 && a.subrange(8, 12) == wave_tag()
}

/// What `AudioProcessor::validate_wav_header` returns for `a`.
pub open spec fn wav_header_check(a: Seq<u8>) -> Result<(), Seq<char>> {
    if a.len() < 44 {
        Err("Audio data too short for WAV header"@)
    } else if !has_riff_tag(a) {
        Err("Missing RIFF header"@)
    } else if !has_wave_tag(a) {
        Err("Missing WAVE format"@)
    } else {
        Ok(())
    }
}

/// What `base64::engine::general_purpose::STANDARD.decode(text)` returns,
/// the error given by its `Display` text.
pub uninterp spec fn base64_decoded(text: Seq<char>) -> Result<Seq<u8>, Seq<char>>;

/// Calls `STANDARD.decode` of the base64 crate; the error becomes its message.
#[verifier::external_body]
pub(crate) fn base64_decode(text: &str) -> (res: Result<Vec<u8>, String>)
    ensures
        match (res, base64_decoded(text@)) {
            (Ok(v), Ok(w)) => v@ == w,
            (Err(e), Err(f)) => e@ == f,
            _ => false,
        },
{
    base64::engine::general_purpose::STANDARD.decode(text).map_err(|e| e.to_string())
}

/// The audio bytes of a response, given where its answer was found:
/// `data.audio` first, then `audio` at the root, each base64-decoded.
pub open spec fn response_audio(bytes: Seq<u8>) -> Result<Seq<u8>, Seq<char>> {
    match json_string_at(bytes, "/data/audio"@) {
        Some(t) => match base64_decoded(t) {
            Ok(v) => Ok(v),
            Err(e) => Err("Failed to decode base64 audio data from data.audio: "@ + e),
        },
        None => match json_string_at(bytes, "/audio"@) {
            Some(t) => match base64_decoded(t) {
                Ok(v) => Ok(v),
                Err(e) => Err("Failed to decode base64 audio data from root.audio: "@ + e),
            },
            None => Err("Audio data not found in JSON response"@),
        },
    }
}

/// The answer text of a response: `data.answer`, else `answer`.
pub open spec fn response_answer(bytes: Seq<u8>) -> Option<Seq<char>> {
    match json_string_at(bytes, "/data/answer"@) {
        Some(a) => Some(a),
        None => json_string_at(bytes, "/answer"@),
    }
}

/// What `AudioProcessor::process_json_response` returns for `bytes`.
pub open spec fn processed_response(bytes: Seq<u8>) -> Result<(Seq<char>, Seq<u8>), Seq<char>> {
    match json_parse_error(bytes) {
        Some(m) => Err("Failed to parse JSON response: "@ + m),
        None => match json_string_at(bytes, "/error"@) {
            Some(e) => Err("Error in JSON response: "@ + e),
            None => match response_answer(bytes) {
                None => Err("Text answer not found in JSON response"@),
                Some(a) => match response_audio(bytes) {
                    Err(e) => Err(e),
                    Ok(v) => if v.len() < 44 {
                        Err("Audio data too short"@)
                    } else if !has_riff_tag(v) || !has_wave_tag(v) {
                        Err("Invalid WAV header"@)
                    } else {
                        Ok((a, v))
                    },
                },
            },
        },
    }
}

/// `"{prefix}{detail}"`.
fn concat_message(prefix: &str, detail: &str) -> (res: String)
    ensures
        res@ == prefix@ + detail@,
{
    let mut s = String::from_str(prefix);
    s.append(detail);
    s
}

/// Checks bytes `[off, off + 4)` of `a` against `t0 t1 t2 t3`.
fn tag_at(a: &[u8], off: usize, t: (u8, u8, u8, u8)) -> (res: bool)
    requires
        off + 4 <= a.len(),
    ensures
        res == (a@.subrange(off as int, off + 4) == seq![t.0, t.1, t.2, t.3]),
{
    let r = a[off] == t.0 && a[off + 1] == t.1 && a[off + 2] == t.2 && a[off + 3] == t.3;
    proof {
        let w = a@.subrange(off as int, off + 4);
        if w == seq![t.0, t.1, t.2, t.3] {
            assert(w[0] == t.0 && w[1] == t.1 && w[2] == t.2 && w[3] == t.3);
        }
        if r {
            assert(w =~= seq![t.0, t.1, t.2, t.3]);
        }
    }
    r
}

/// Handles text-to-speech responses and their WAV audio.
pub struct AudioProcessor;

impl AudioProcessor {
    /// Checks that `audio_data` starts with a WAV header: 44 bytes or more,
    /// `RIFF` at offset 0 and `WAVE` at offset 8.
    pub fn validate_wav_header(audio_data: &[u8]) -> (res: Result<(), String>)
        ensures
            match (res, wav_header_check(audio_data@)) {
                (Ok(()), Ok(())) => true,
                (Err(e), Err(f)) => e@ == f,
                _ => false,
            },
    {
        if audio_data.len() < 44 {
            return Err(String::from_str("Audio data too short for WAV header"));
        }
        proof {
            assert(audio_data@.take(4) =~= audio_data@.subrange(0, 4));
        }
        if !tag_at(audio_data, 0, (0x52u8, 0x49u8, 0x46u8, 0x46u8)) {
            return Err(String::from_str("Missing RIFF header"));
        }
        if !tag_at(audio_data, 8, (0x57u8, 0x41u8, 0x56u8, 0x45u8)) {
            return Err(String::from_str("Missing WAVE format"));
        }
        Ok(())
    }

    /// Reads the answer text and the base64 WAV audio out of a JSON
    /// response. It refuses a document that is not JSON, one that carries an
    /// `error` string, one without an answer or audio, audio that is not
    /// base64, and audio without a WAV header.
    pub fn process_json_response(response_data: &[u8]) -> (res: Result<(String, Vec<u8>), String>)
        ensures
            match (res, processed_response(response_data@)) {
                (Ok((a, v)), Ok((sa, sv))) => a@ == sa && v@ == sv,
                (Err(e), Err(f)) => e@ == f,
                _ => false,
            },
    {
        let error_field = json_str_at(response_data, "/error");
        match error_field {
            Err(m) => {
                return Err(concat_message("Failed to parse JSON response: ", m.as_str()));
            },
            Ok(Some(e)) => {
                return Err(concat_message("Error in JSON response: ", e.as_str()));
            },
            Ok(None) => {},
        }
        let answer = match json_str_at(response_data, "/data/answer") {
            Ok(Some(a)) => a,
            Ok(None) => match json_str_at(response_data, "/answer") {
                Ok(Some(a)) => a,
                _ => {
                    return Err(String::from_str("Text answer not found in JSON response"));
                },
            },
            Err(_) => {
                return Err(String::from_str("Text answer not found in JSON response"));
            },
        };
        let audio_data = match json_str_at(response_data, "/data/audio") {
            Ok(Some(t)) => match base64_decode(t.as_str()) {
                Ok(v) => v,
                Err(e) => {
                    return Err(
                        concat_message(
                            "Failed to decode base64 audio data from data.audio: ",
                            e.as_str(),
                        ),
                    );
                },
            },
            _ => match json_str_at(response_data, "/audio") {
                Ok(Some(t)) => match base64_decode(t.as_str()) {
                    Ok(v) => v,
                    Err(e) => {
                        return Err(
                            concat_message(
                                "Failed to decode base64 audio data from root.audio: ",
                                e.as_str(),
                            ),
                        );
                    },
                },
                _ => {
                    return Err(String::from_str("Audio data not found in JSON response"));
                },
            },
        };
        if audio_data.len() < 44 {
            return Err(String::from_str("Audio data too short"));
        }
        proof {
            assert(audio_data@.take(4) =~= audio_data@.subrange(0, 4));
        }
        if !tag_at(&audio_data, 0, (0x52u8, 0x49u8, 0x46u8, 0x46u8)) || !tag_at(
            &audio_data,
            8,
            (0x57u8, 0x41u8, 0x56u8, 0x45u8),
        ) {
            return Err(String::from_str("Invalid WAV header"));
        }
        Ok((answer, audio_data))
    }
}

} // verus!
