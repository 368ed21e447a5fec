//! RAGFlow chat: request and response bodies, and the reading of answers
//! and conversation ids out of RAGFlow replies.

use vstd::prelude::*;

use crate::json::{json_parse_error, json_str_at, json_string_at};

verus! {

/// A chat message.
#[derive(Debug)]
pub struct Message {
    pub role: String,
    pub content: String,
}

/// A request to send messages to a conversation.
#[derive(Debug)]
pub struct MessageRequest {
    pub conversation_id: String,
    pub messages: Vec<Message>,
    pub quote: Option<bool>,
    pub doc_ids: Option<Vec<String>>,
    pub stream: Option<bool>,
}

/// A request to open a conversation for a user.
#[derive(Debug)]
pub struct InitChatRequest {
    pub user_id: String,
}

/// The answer to an `InitChatRequest`.
#[derive(Debug)]
pub struct InitChatResponse {
    pub success: bool,
    pub conversation_id: String,
    pub message: Option<String>,
}

impl InitChatResponse {
    /// The answer when the conversation `conversation_id` was opened.
    pub fn opened(conversation_id: String) -> (res: InitChatResponse)
        ensures
            res.success,
            res.conversation_id == conversation_id,
            res.message is None,
    {
        InitChatResponse { success: true, conversation_id, message: None }
    }

    /// The answer when opening failed with `error`: no conversation id and
    /// the message `Failed to initialize chat: {error}`.
    pub fn failed(error: &str) -> (res: InitChatResponse)
        ensures
            !res.success,
            res.conversation_id@ == Seq::<char>::empty(),
            res.message matches Some(m) && m@ == "Failed to initialize chat: "@ + error@,
    {
        let mut m = String::from_str("Failed to initialize chat: ");
        m.append(error);
        InitChatResponse { success: false, conversation_id: String::new(), message: Some(m) }
    }
}

/// What reading an answer chunk gives: the string at `data.answer`, else at
/// `answer`; the parse error or a missing answer otherwise.
pub open spec fn chunk_answer(chunk: Seq<u8>) -> Result<Seq<char>, Seq<char>> {
    match json_parse_error(chunk) {
        Some(e) => Err("Failed to parse JSON response: "@ + e),
        None => match json_string_at(chunk, "/data/answer"@) {
            Some(a) => Ok(a),
            None => match json_string_at(chunk, "/answer"@) {
                Some(a) => Ok(a),
                None => Err("No answer found in response"@),
            },
        },
    }
}

/// Reads the answer out of a chunk of a RAGFlow completion reply; the error
/// is the message of the parse error.
pub fn parse_answer_chunk(chunk: &[u8]) -> (res: Result<String, String>)
    ensures
        match (res, chunk_answer(chunk@)) {
            (Ok(a), Ok(b)) => a@ == b,
            (Err(e), Err(f)) => e@ == f,
            _ => false,
        },
{
    match json_str_at(chunk, "/data/answer") {
        Err(e) => {
            let mut m = String::from_str("Failed to parse JSON response: ");
            m.append(e.as_str());
            Err(m)
        },
        Ok(Some(a)) => Ok(a),
        Ok(None) => match json_str_at(chunk, "/answer") {
            Ok(Some(a)) => Ok(a),
            _ => Err(String::from_str("No answer found in response")),
        },
    }
}

/// The id of a new conversation: the string at `data.id`, empty when there
/// is none; the parse error when the reply is not JSON.
pub fn conversation_id_of(reply: &[u8]) -> (res: Result<String, String>)
    ensures
        json_parse_error(reply@) is Some <==> res is Err,
        res matches Err(e) ==> json_parse_error(reply@) == Some(e@),
        res matches Ok(id) ==> id@ == match json_string_at(reply@, "/data/id"@) {
            Some(s) => s,
            None => Seq::<char>::empty(),
        },
{
    match json_str_at(reply, "/data/id") {
        Err(e) => Err(e),
        Ok(Some(id)) => Ok(id),
        Ok(None) => Ok(String::new()),
    }
}

} // verus!
