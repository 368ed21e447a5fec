use base64::{engine::general_purpose::STANDARD as BASE64, Engine as _};
use serde_json::Value;
use webxr_graph::audio_processor::AudioProcessor;

fn wav_bytes() -> Vec<u8> {
    vec![
        b'R', b'I', b'F', b'F', // ChunkID
        0x24, 0x00, 0x00, 0x00, // ChunkSize
        b'W', b'A', b'V', b'E', // Format
        b'f', b'm', b't', b' ', // Subchunk1ID
        0x10, 0x00, 0x00, 0x00, // Subchunk1Size
        0x01, 0x00, // AudioFormat (PCM)
        0x01, 0x00, // NumChannels (Mono)
        0x44, 0xAC, 0x00, 0x00, // SampleRate (44100)
        0x88, 0x58, 0x01, 0x00, // ByteRate
        0x02, 0x00, // BlockAlign
        0x10, 0x00, // BitsPerSample (16)
        b'd', b'a', b't', b'a', // Subchunk2ID
        0x00, 0x00, 0x00, 0x00, // Subchunk2Size
    ]
}

fn object(entries: Vec<(&str, Value)>) -> Value {
    let mut map = serde_json::Map::new();
    for (k, v) in entries {
        map.insert(k.to_string(), v);
    }
    Value::Object(map)
}

fn data_response(answer: &str, audio: &[u8]) -> Vec<u8> {
    let json_data = object(vec![(
        "data",
        object(vec![
            ("answer", Value::String(answer.to_string())),
            ("audio", Value::String(BASE64.encode(audio))),
        ]),
    )]);
    serde_json::to_vec(&json_data).unwrap()
}

#[test]
fn test_process_json_response_valid() {
    let test_wav = wav_bytes();
    let bytes = data_response("Test answer", &test_wav);
    let result = AudioProcessor::process_json_response(bytes.as_slice());

    assert!(result.is_ok());
    let (answer, audio) = result.unwrap();
    assert_eq!(answer, "Test answer");
    assert_eq!(&audio[..4], b"RIFF");
}

#[test]
fn test_process_json_response_invalid_wav() {
    let invalid_wav = vec![0x00; 44]; // Invalid WAV header
    let bytes = data_response("Test answer", &invalid_wav);
    let result = AudioProcessor::process_json_response(bytes.as_slice());

    assert!(result.is_err());
}

#[test]
fn process_json_response_decodes_audio() {
    let test_wav = wav_bytes();
    let bytes = data_response("Hi", &test_wav);
    let (_, audio) = AudioProcessor::process_json_response(&bytes).unwrap();
    assert_eq!(audio, test_wav);
}

#[test]
fn process_json_response_root_fields() {
    let test_wav = wav_bytes();
    let json = object(vec![
        ("answer", Value::String("root answer".to_string())),
        ("audio", Value::String(BASE64.encode(&test_wav))),
    ]);
    let bytes = serde_json::to_vec(&json).unwrap();
    let (answer, audio) = AudioProcessor::process_json_response(&bytes).unwrap();
    assert_eq!(answer, "root answer");
    assert_eq!(audio, test_wav);
}

#[test]
fn process_json_response_not_json() {
    let err = AudioProcessor::process_json_response(b"not json").unwrap_err();
    assert!(err.starts_with("Failed to parse JSON response: "));
}

#[test]
fn process_json_response_error_field() {
    let json = object(vec![("error", Value::String("boom".to_string()))]);
    let bytes = serde_json::to_vec(&json).unwrap();
    assert_eq!(
        AudioProcessor::process_json_response(&bytes).unwrap_err(),
        "Error in JSON response: boom"
    );
}

#[test]
fn process_json_response_missing_answer() {
    let json = object(vec![("audio", Value::String(BASE64.encode(wav_bytes())))]);
    let bytes = serde_json::to_vec(&json).unwrap();
    assert_eq!(
        AudioProcessor::process_json_response(&bytes).unwrap_err(),
        "Text answer not found in JSON response"
    );
}

#[test]
fn process_json_response_missing_audio() {
    let json = object(vec![("answer", Value::String("a".to_string()))]);
    let bytes = serde_json::to_vec(&json).unwrap();
    assert_eq!(
        AudioProcessor::process_json_response(&bytes).unwrap_err(),
        "Audio data not found in JSON response"
    );
}

#[test]
fn process_json_response_bad_base64() {
    let json = object(vec![(
        "data",
        object(vec![
            ("answer", Value::String("a".to_string())),
            ("audio", Value::String("***".to_string())),
        ]),
    )]);
    let bytes = serde_json::to_vec(&json).unwrap();
    let err = AudioProcessor::process_json_response(&bytes).unwrap_err();
    assert!(err.starts_with("Failed to decode base64 audio data from data.audio: "));
}

#[test]
fn process_json_response_short_audio() {
    let bytes = data_response("a", b"RIFF");
    assert_eq!(
        AudioProcessor::process_json_response(&bytes).unwrap_err(),
        "Audio data too short"
    );
}

#[test]
fn validate_wav_header_cases() {
    assert_eq!(AudioProcessor::validate_wav_header(&wav_bytes()), Ok(()));
    assert_eq!(
        AudioProcessor::validate_wav_header(&[0u8; 10]),
        Err("Audio data too short for WAV header".to_string())
    );
    assert_eq!(
        AudioProcessor::validate_wav_header(&[0u8; 44]),
        Err("Missing RIFF header".to_string())
    );
    let mut no_wave = wav_bytes();
    no_wave[8] = b'X';
    assert_eq!(
        AudioProcessor::validate_wav_header(&no_wave),
        Err("Missing WAVE format".to_string())
    );
}
