//! The OpenAI realtime connection: its URL, and what is done with each
//! event that arrives on it.

use vstd::prelude::*;

use crate::audio_processor::{base64_decode, base64_decoded};
use crate::github_service::{decimal_digits, digits_u64};
use crate::json::{
    json_array_len, json_array_len_at, json_parse_error, json_str_at, json_string_at,
};
use crate::strings::{
    chars_eq, chars_of, has_prefix, push_all, starts_with, string_from_chars,
    trim_start_matches, trim_start_seq,
};

verus! {

// ----------------------------------------------------------------------
// The URL
// ----------------------------------------------------------------------

/// The WebSocket URL for a configured base URL: kept when it already is a
/// `wss://` or `ws://` URL; otherwise every leading `https://`, then every
/// leading `http://`, is removed and `wss://` put in front.
pub open spec fn realtime_url_text(base: Seq<char>) -> Seq<char> {
    if has_prefix(base, "wss://"@) || has_prefix(base, "ws://"@) {
        base
    } else {
        "wss://"@ + trim_start_seq(trim_start_seq(base, "https://"@), "http://"@)
    }
}

/// The WebSocket URL of the OpenAI realtime API for `base_url`.
pub fn realtime_url(base_url: &str) -> (res: String)
    ensures
        res@ == realtime_url_text(base_url@),
{
    let b = chars_of(base_url);
    let wss = chars_of("wss://");
    let ws = chars_of("ws://");
    if starts_with(&b, &wss) || starts_with(&b, &ws) {
        return string_from_chars(&b);
    }
    let https = chars_of("https://");
    let http = chars_of("http://");
    let rest = trim_start_matches(&trim_start_matches(&b, &https), &http);
    let mut out = wss;
    push_all(&mut out, &rest);
    string_from_chars(&out)
}

// ----------------------------------------------------------------------
// Responses to a text message
// ----------------------------------------------------------------------

/// What is done with one text frame of the realtime API while its reply to
/// a text message is awaited.
#[derive(Debug)]
pub enum RealtimeStep {
    /// Relay this base64 audio to the client.
    RelayAudio(String),
    /// The reply is complete: stop reading.
    Finish,
    /// Tell the client this error and read on.
    ReportError(String),
    /// Nothing to do; read on.
    Skip,
}

/// The step for the text frame `text`: a parse error is reported; else the
/// string at `delta.audio` is relayed; else a `response.text.done` event
/// ends the reply; anything else is skipped.
pub fn realtime_response_step(text: &[u8]) -> (res: RealtimeStep)
    ensures
        match json_parse_error(text@) {
            Some(e) => res matches RealtimeStep::ReportError(m) && m@
                == "Error parsing JSON response from OpenAI: "@ + e,
            None => match json_string_at(text@, "/delta/audio"@) {
                Some(a) => res matches RealtimeStep::RelayAudio(x) && x@ == a,
                None => if json_string_at(text@, "/type"@) == Some("response.text.done"@) {
                    res is Finish
                } else {
                    res is Skip
                },
            },
        },
{
    match json_str_at(text, "/delta/audio") {
        Err(e) => {
            let mut m = String::from_str("Error parsing JSON response from OpenAI: ");
            m.append(e.as_str());
            RealtimeStep::ReportError(m)
        },
        Ok(Some(a)) => RealtimeStep::RelayAudio(a),
        Ok(None) => match json_str_at(text, "/type") {
            Ok(Some(t)) => {
                let tc = chars_of(t.as_str());
                let done = chars_of("response.text.done");
                if chars_eq(&tc, &done) {
                    RealtimeStep::Finish
                } else {
                    RealtimeStep::Skip
                }
            },
            _ => RealtimeStep::Skip,
        },
    }
}

// ----------------------------------------------------------------------
// Events of the speech loop
// ----------------------------------------------------------------------

/// What the speech loop does with one server event.
#[derive(Debug)]
pub enum SpeechEventStep {
    /// Broadcast each of these audio clips to the clients, in order.
    Broadcast(Vec<Vec<u8>>),
    /// The response is over, or failed: stop reading.
    Stop,
    /// Nothing to do; read on.
    Continue,
}

/// The views of a sequence of byte vectors.
pub open spec fn byte_views(v: Seq<Vec<u8>>) -> Seq<Seq<u8>> {
    v.map_values(|x: Vec<u8>| x@)
}

/// The pointer to `field` of the `i`-th content item of the event's item.
pub open spec fn content_pointer(i: nat, field: Seq<char>) -> Seq<char> {
    "/item/content/"@ + decimal_digits(i) + "/"@ + field
}

/// The decoded audio of the first `n` content items: of each item whose
/// `type` is `audio` and whose `audio` string decodes as base64, in order.
pub open spec fn audio_clips(event: Seq<u8>, n: nat) -> Seq<Seq<u8>>
    decreases n,
{
    if n == 0 {
        Seq::empty()
    } else {
        let prev = audio_clips(event, (n - 1) as nat);
        let i = (n - 1) as nat;
        if json_string_at(event, content_pointer(i, "type"@)) == Some("audio"@) {
            match json_string_at(event, content_pointer(i, "audio"@)) {
                Some(a) => match base64_decoded(a) {
                    Ok(b) => prev.push(b),
                    Err(_) => prev,
                },
                None => prev,
            }
        } else {
            prev
        }
    }
}

/// The pointer text `/item/content/{i}/{field}`.
fn content_pointer_text(i: usize, field: &str) -> (res: String)
    ensures
        res@ == content_pointer(i as nat, field@),
{
    let mut p = chars_of("/item/content/");
    let d = digits_u64(i as u64);
    push_all(&mut p, &d);
    p.push('/');
    let f = chars_of(field);
    push_all(&mut p, &f);
    let ghost pv = p@;
    assert(pv =~= "/item/content/"@ + decimal_digits(i as nat) + "/"@ + field@) by {
        reveal_strlit("/");
    }
    string_from_chars(&p)
}

/// Whether `s` is exactly `lit`.
fn is_text(s: &str, lit: &str) -> (res: bool)
    ensures
        res == (s@ == lit@),
{
    let a = chars_of(s);
    let b = chars_of(lit);
    chars_eq(&a, &b)
}

/// The step for one server event of the speech loop: `Err` with the parse
/// error when the event is not JSON; `Stop` on an `error` or
/// `response.completed` event; on `conversation.item.created`, the audio
/// clips of its content items to broadcast (none when the content is not an
/// array); `Continue` otherwise.
pub fn speech_event_step(event: &[u8]) -> (res: Result<SpeechEventStep, String>)
    ensures
        res is Err <==> json_parse_error(event@) is Some,
        res matches Err(e) ==> json_parse_error(event@) == Some(e@),
        json_parse_error(event@) is None ==> {
            let t = json_string_at(event@, "/type"@);
            if t == Some("error"@) || t == Some("response.completed"@) {
                res matches Ok(SpeechEventStep::Stop)
            } else if t == Some("conversation.item.created"@) {
                res matches Ok(SpeechEventStep::Broadcast(v)) && byte_views(v@) == match json_array_len(
                    event@,
                    "/item/content"@,
                ) {
                    Some(n) => audio_clips(event@, n as nat),
                    None => Seq::<Seq<u8>>::empty(),
                }
            } else {
                res matches Ok(SpeechEventStep::Continue)
            }
        },
{
    let t = match json_str_at(event, "/type") {
        Err(e) => {
            return Err(e);
        },
        Ok(t) => t,
    };
    let kind = match t {
        Some(k) => k,
        None => {
            return Ok(SpeechEventStep::Continue);
        },
    };
    if is_text(kind.as_str(), "error") || is_text(kind.as_str(), "response.completed") {
        return Ok(SpeechEventStep::Stop);
    }
    if !is_text(kind.as_str(), "conversation.item.created") {
        return Ok(SpeechEventStep::Continue);
    }
    let n = match json_array_len_at(event, "/item/content") {
        Ok(Some(n)) => n,
        _ => {
            let empty: Vec<Vec<u8>> = Vec::new();
            assert(byte_views(empty@) =~= Seq::<Seq<u8>>::empty());
            return Ok(SpeechEventStep::Broadcast(empty));
        },
    };
    let mut clips: Vec<Vec<u8>> = Vec::new();
    let mut i: usize = 0;
    assert(byte_views(clips@) =~= audio_clips(event@, 0));
    while i < n
        invariant
            i <= n,
            json_parse_error(event@) is None,
            byte_views(clips@) == audio_clips(event@, i as nat),
        decreases n - i,
    {
        let ghost before = clips@;
        let tp = content_pointer_text(i, "type");
        let is_audio = match json_str_at(event, tp.as_str()) {
            Ok(Some(ty)) => is_text(ty.as_str(), "audio"),
            _ => false,
        };
        if is_audio {
            let ap = content_pointer_text(i, "audio");
            match json_str_at(event, ap.as_str()) {
                Ok(Some(a)) => match base64_decode(a.as_str()) {
                    Ok(bytes) => {
                        clips.push(bytes);
                        assert(byte_views(clips@) =~= byte_views(before).push(
                            clips@[before.len() as int]@,
                        ));
                    },
                    Err(_) => {},
                },
                _ => {},
            }
        }
        i = i + 1;
    }
    Ok(SpeechEventStep::Broadcast(clips))
}

} // verus!
