//! Verified core of the WebXR knowledge-graph server: message compression,
//! audio response handling, markdown block selection, Logseq file processing
//! and the small decision functions the server runs on.

pub mod strings;
pub mod compression;
pub mod json;
pub mod audio_processor;
pub mod websocket_messages;
pub mod markdown;
pub mod regex_ops;
pub mod perplexity;
pub mod file_service;
pub mod simulation;
pub mod sonata_service;
pub mod config;
pub mod ragflow;
pub mod github_service;
pub mod speech_service;
pub mod openai_realtime;
pub mod openwebui_service;
