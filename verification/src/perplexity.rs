//! Enriching Logseq markdown blocks with Perplexity answers: the request
//! messages, the reading of the answer, the retry rule, and the block text
//! written back into the page.

use vstd::prelude::*;

use crate::markdown::{context_blocks, context_window, markdown_blocks, split_markdown_blocks};
use crate::regex_ops::{
    regex_escape, regex_escaped, regex_replace_all, regex_replace_first, regex_replaced_all,
    regex_replaced_first, replaced_at_word, word_pattern,
};
use crate::strings::{
    chars_of, join, join_seqs, string_from_chars, trim, trim_end,
    trim_end_ws, trim_start_matches, trim_start_seq, trim_ws, views,
};

verus! {

/// A chat message sent to or received from the Perplexity API.
#[derive(Debug)]
pub struct Message {
    pub role: String,
    pub content: String,
}

/// A choice in a Perplexity completion.
#[derive(Debug)]
pub struct Choice {
    pub index: u32,
    pub finish_reason: Option<String>,
    pub message: Message,
    pub delta: Option<Delta>,
}

/// A streamed fragment of a choice.
#[derive(Debug)]
pub struct Delta {
    pub content: Option<String>,
}

/// Token accounting of a completion.
#[derive(Debug)]
pub struct Usage {
    pub prompt_tokens: u32,
    pub completion_tokens: u32,
    pub total_tokens: u32,
}

/// A Perplexity completion response.
#[derive(Debug)]
pub struct PerplexityResponse {
    pub id: Option<String>,
    pub model: Option<String>,
    pub object: Option<String>,
    pub created: Option<u64>,
    pub choices: Vec<Choice>,
    pub usage: Option<Usage>,
}

/// Failures of the Perplexity pipeline, each with its message.
#[derive(Debug)]
pub enum PerplexityError {
    Io(String),
    Reqwest(String),
    Api(String),
    Serialization(String),
    EnvVar(String),
    Config(String),
}

/// The Perplexity service; it holds no state.
pub struct PerplexityServiceImpl;

impl PerplexityServiceImpl {
    pub fn new() -> (res: Self) {
        PerplexityServiceImpl {  }
    }
}

// ----------------------------------------------------------------------
// Strings
// ----------------------------------------------------------------------

/// `a` followed by `b`.
fn concat2(a: &str, b: &str) -> (res: String)
    ensures
        res@ == a@ + b@,
{
    let mut s = String::from_str(a);
    s.append(b);
    s
}

/// `a`, `b` and `c` in a row.
fn concat3(a: &str, b: &str, c: &str) -> (res: String)
    ensures
        res@ == a@ + b@ + c@,
{
    let mut s = String::from_str(a);
    s.append(b);
    s.append(c);
    s
}

// ----------------------------------------------------------------------
// Request messages
// ----------------------------------------------------------------------

/// The system message: the trimmed prompt and the list of topics.
pub open spec fn system_message_text(prompt: Seq<char>, topics: Seq<Seq<char>>) -> Seq<char> {
    trim_ws(prompt) + "\nRelevant category topics are: "@ + join_seqs(topics, ", "@) + "."@
}

/// The user message: the context blocks, one per line.
pub open spec fn context_message_text(context: Seq<Seq<char>>) -> Seq<char> {
    "Context:\n"@ + join_seqs(context, "\n"@)
}

/// The two messages of a Perplexity request: the `system` message with the
/// prompt and topics, then the `user` message with the context.
pub fn request_messages(prompt: &str, context: &[String], topics: &[String]) -> (res: Vec<Message>)
    ensures
        res@.len() == 2,
        res@[0].role@ == "system"@,
        res@[0].content@ == system_message_text(prompt@, views(topics@)),
        res@[1].role@ == "user"@,
        res@[1].content@ == context_message_text(views(context@)),
{
    let p = chars_of(prompt);
    let tp = string_from_chars(&trim(&p));
    let joined_topics = join(topics, ", ");
    let mut system = concat3(tp.as_str(), "\nRelevant category topics are: ", joined_topics.as_str());
    system.append(".");
    let joined_context = join(context, "\n");
    let user = concat2("Context:\n", joined_context.as_str());
    let mut v: Vec<Message> = Vec::new();
    v.push(Message { role: String::from_str("system"), content: system });
    v.push(Message { role: String::from_str("user"), content: user });
    v
}

/// Whether a failed attempt is followed by another: attempts are numbered
/// from 1 and at most `max_retries` are made.
pub fn should_retry(attempt: u32, max_retries: u32) -> (res: bool)
    ensures
        res == (attempt < max_retries),
{
    attempt < max_retries
}

/// The answer of a completion: the content of its first choice.
pub fn response_content(response: &PerplexityResponse) -> (res: Result<String, PerplexityError>)
    ensures
        response.choices@.len() > 0 ==> (res matches Ok(s) && s@
            == response.choices@[0].message.content@),
        response.choices@.len() == 0 ==> (res matches Err(PerplexityError::Api(m)) && m@
            == "No content in API response"@),
{
    if response.choices.len() > 0 {
        Ok(response.choices[0].message.content.clone())
    } else {
        Err(PerplexityError::Api(String::from_str("No content in API response")))
    }
}

// ----------------------------------------------------------------------
// Blocks
// ----------------------------------------------------------------------

/// Whether a block is sent to the API: blocks that are blank or hold only
/// the `public:: true` property are kept as they are.
pub open spec fn block_needs_api(block: Seq<char>) -> bool {
    trim_ws(block).len() > 0 && trim_ws(block) != "public:: true"@
}

/// Whether `block` is sent to the Perplexity API.
pub fn block_needs_processing(block: &str) -> (res: bool)
    ensures
        res == block_needs_api(block@),
{
    let b = chars_of(block);
    let t = trim(&b);
    if t.len() == 0 {
        return false;
    }
    let marker = chars_of("public:: true");
    !crate::strings::chars_eq(&t, &marker)
}

/// The pattern of a Logseq page link `[[name]]`.
pub open spec fn logseq_link_pattern() -> Seq<char> {
    "\\[\\[(.*?)\\]\\]"@
}

/// `input` with every Logseq link `[[name]]` replaced by `name`.
pub open spec fn logseq_links_cleaned(input: Seq<char>) -> Option<Seq<char>> {
    regex_replaced_all(logseq_link_pattern(), input, "$1"@)
}

/// Replaces every Logseq link `[[name]]` in `input` by `name`.
pub fn clean_logseq_links(input: &str) -> (res: String)
    requires
        logseq_links_cleaned(input@) is Some,
    ensures
        logseq_links_cleaned(input@) == Some(res@),
{
    match regex_replace_all("\\[\\[(.*?)\\]\\]", input, "$1") {
        Some(s) => s,
        None => {
            assert(false);
            String::new()
        },
    }
}

/// `clean_logseq_links`, or `None` where the link pattern is refused.
pub fn clean_logseq_links_checked(input: &str) -> (res: Option<String>)
    ensures
        match res {
            Some(s) => logseq_links_cleaned(input@) == Some(s@),
            None => logseq_links_cleaned(input@) is None,
        },
{
    match regex_replace_all("\\[\\[(.*?)\\]\\]", input, "$1") {
        Some(_) => Some(clean_logseq_links(input)),
        None => None,
    }
}

/// The pattern of a topic as a whole word.
pub open spec fn topic_pattern(topic: Seq<char>) -> Seq<char> {
    "\\b"@ + regex_escaped(topic) + "\\b"@
}

/// A topic as a Logseq link.
pub open spec fn topic_link(topic: Seq<char>) -> Seq<char> {
    "[["@ + topic + "]]"@
}

/// `response` with the first whole-word occurrence of each topic turned
/// into a Logseq link, topic after topic.
pub open spec fn link_topics(response: Seq<char>, topics: Seq<Seq<char>>) -> Option<Seq<char>>
    decreases topics.len(),
{
    if topics.len() == 0 {
        Some(response)
    } else {
        match link_topics(response, topics.drop_last()) {
            None => None,
            Some(r) => regex_replaced_first(topic_pattern(topics.last()), r, topic_link(topics.last())),
        }
    }
}

/// `result` comes from `response` by linking the topics one after the
/// other, each either not linked or linked at one place where it occurs as
/// a whole word.
pub open spec fn links_topics_at_words(response: Seq<char>, topics: Seq<Seq<char>>, result: Seq<char>) -> bool {
    exists|chain: Seq<Seq<char>>|
        #![trigger chain.len()]
        chain.len() == topics.len() + 1 && chain[0] == response && chain[topics.len() as int] == result
            && forall|k: int|
            0 <= k < topics.len() ==> replaced_at_word(
                #[trigger] chain[k],
                topics[k],
                topic_link(topics[k]),
                chain[k + 1],
            )
}

/// A topic is linked only where it stands as a whole word: with one topic
/// `t` that begins with an ASCII letter, digit or `_`, the linked response is
/// the response itself, or the response with one occurrence of `t` turned
/// into `[[t]]`, that occurrence not preceded by an ASCII letter, digit or
/// `_` (so never the tail of a longer word).
pub proof fn lemma_topic_linked_as_whole_word(response: Seq<char>, t: Seq<char>, result: Seq<char>)
    requires
        links_topics_at_words(response, seq![t], result),
        t.len() > 0,
        crate::regex_ops::is_ascii_word(t[0]),
    ensures
        result == response || exists|i: int|
            0 <= i && i + t.len() <= response.len() && response.subrange(i, i + t.len()) == t
                && result == response.take(i) + "[["@ + t + "]]"@ + response.skip(i + t.len()) && (i
                == 0 || !crate::regex_ops::is_ascii_word(response[i - 1])),
{
    let chain = choose|chain: Seq<Seq<char>>|
        #![trigger chain.len()]
        chain.len() == seq![t].len() + 1 && chain[0] == response && chain[seq![t].len() as int]
            == result && forall|k: int|
            0 <= k < seq![t].len() ==> replaced_at_word(
                #[trigger] chain[k],
                seq![t][k],
                topic_link(seq![t][k]),
                chain[k + 1],
            );
    assert(seq![t][0] == t);
    assert(replaced_at_word(chain[0], t, topic_link(t), chain[1]));
    if result != response {
        let i = choose|i: int|
            crate::regex_ops::word_occurrence(response, t, i) && result == response.take(i)
                + topic_link(t) + response.skip(i + t.len());
        assert(response.subrange(i, i + t.len())[0] == response[i]);
        assert(response[i] == t[0]);
        if i > 0 {
            assert(crate::regex_ops::char_at(response, i - 1) == Some(response[i - 1]));
            assert(crate::regex_ops::char_at(response, i) == Some(response[i]));
        }
    }
}

proof fn lemma_link_topics_none(response: Seq<char>, topics: Seq<Seq<char>>, i: int)
    requires
        0 <= i <= topics.len(),
        link_topics(response, topics.take(i)) is None,
    ensures
        link_topics(response, topics) is None,
    decreases topics.len(),
{
    if topics.len() > i {
        assert(topics.drop_last().take(i) =~= topics.take(i));
        lemma_link_topics_none(response, topics.drop_last(), i);
    } else {
        assert(topics.take(i) =~= topics);
    }
}

/// Links the topics in `response`, or `None` where a topic pattern is refused.
fn link_topics_in(response: &str, topics: &[String]) -> (res: Option<String>)
    ensures
        match res {
            Some(s) => link_topics(response@, views(topics@)) == Some(s@),
            None => link_topics(response@, views(topics@)) is None,
        },
        res matches Some(s) ==> links_topics_at_words(response@, views(topics@), s@),
{
    let ghost tv = views(topics@);
    let mut cur = String::from_str(response);
    let mut i: usize = 0;
    let ghost mut chain: Seq<Seq<char>> = seq![response@];
    assert(tv.take(0) =~= Seq::<Seq<char>>::empty());
    while i < topics.len()
        invariant
            i <= topics.len(),
            tv == views(topics@),
            link_topics(response@, tv.take(i as int)) == Some(cur@),
            chain.len() == i + 1,
            chain[0] == response@,
            chain[i as int] == cur@,
            forall|k: int|
                0 <= k < i ==> replaced_at_word(
                    #[trigger] chain[k],
                    tv[k],
                    topic_link(tv[k]),
                    chain[k + 1],
                ),
        decreases topics.len() - i,
    {
        let ghost prefix = tv.take(i + 1);
        assert(prefix.drop_last() =~= tv.take(i as int));
        assert(prefix.last() == topics@[i as int]@);
        let esc = regex_escape(topics[i].as_str());
        let pattern = concat3("\\b", esc.as_str(), "\\b");
        let link = concat3("[[", topics[i].as_str(), "]]");
        assert(pattern@ == word_pattern(topics@[i as int]@));
        match regex_replace_first(pattern.as_str(), cur.as_str(), link.as_str()) {
            Some(next) => {
                proof {
                    assert(tv[i as int] == topics@[i as int]@);
                    assert(replaced_at_word(cur@, tv[i as int], topic_link(tv[i as int]), next@));
                    let old_chain = chain;
                    chain = chain.push(next@);
                    assert forall|k: int| 0 <= k < i + 1 implies replaced_at_word(
                        #[trigger] chain[k],
                        tv[k],
                        topic_link(tv[k]),
                        chain[k + 1],
                    ) by {
                        if k < i {
                            assert(chain[k] == old_chain[k]);
                            assert(chain[k + 1] == old_chain[k + 1]);
                        }
                    }
                }
                cur = next;
            },
            None => {
                proof {
                    lemma_link_topics_none(response@, tv, i + 1);
                }
                return None;
            },
        }
        i = i + 1;
    }
    assert(tv.take(topics@.len() as int) =~= tv);
    assert(links_topics_at_words(response@, tv, cur@)) by {
        assert(chain.len() == tv.len() + 1);
    }
    Some(cur)
}

/// The text that replaces a processed block: the cleaned block in a code
/// fence, then the prompt, the topics and the linked API response.
pub open spec fn block_report(
    input: Seq<char>,
    prompt: Seq<char>,
    topics: Seq<Seq<char>>,
    api_response: Seq<char>,
) -> Option<Seq<char>> {
    match (logseq_links_cleaned(input), link_topics(api_response, topics)) {
        (Some(c), Some(r)) => Some(
            "- ```\n"@ + trim_end_ws(trim_start_seq(c, "- "@)) + "```\nPrompt: "@ + prompt
                + "\nTopics: "@ + join_seqs(topics, ", "@) + "\nResponse: "@ + r,
        ),
        _ => None,
    }
}

/// The report, or `None` where a pattern is refused.
fn build_block_report(input: &str, prompt: &str, topics: &[String], api_response: &str) -> (res:
    Option<String>)
    ensures
        match res {
            Some(s) => block_report(input@, prompt@, views(topics@), api_response@) == Some(s@),
            None => block_report(input@, prompt@, views(topics@), api_response@) is None,
        },
        res matches Some(s) ==> exists|h: Seq<char>, r: Seq<char>|
            s@ == h + "\nResponse: "@ + r && links_topics_at_words(api_response@, views(topics@), r),
{
    let cleaned = match regex_replace_all("\\[\\[(.*?)\\]\\]", input, "$1") {
        Some(c) => c,
        None => {
            return None;
        },
    };
    let linked = match link_topics_in(api_response, topics) {
        Some(r) => r,
        None => {
            return None;
        },
    };
    let cc = chars_of(cleaned.as_str());
    let dash = chars_of("- ");
    let head = string_from_chars(&trim_end(&trim_start_matches(&cc, &dash)));
    let mut out = concat3("- ```\n", head.as_str(), "```\nPrompt: ");
    out.append(prompt);
    out.append("\nTopics: ");
    let joined = join(topics, ", ");
    out.append(joined.as_str());
    let ghost h = out@;
    out.append("\nResponse: ");
    out.append(linked.as_str());
    assert(out@ == h + "\nResponse: "@ + linked@);
    Some(out)
}

/// Rewrites a block after the API answered: the block with its Logseq
/// links cleaned, in a code fence, followed by the prompt, the topics and the
/// response in which the first whole-word mention of each topic is linked.
pub fn process_markdown_block(input: &str, prompt: &str, topics: &[String], api_response: &str) -> (res: String)
    requires
        block_report(input@, prompt@, views(topics@), api_response@) is Some,
    ensures
        block_report(input@, prompt@, views(topics@), api_response@) == Some(res@),
        exists|h: Seq<char>, r: Seq<char>|
            res@ == h + "\nResponse: "@ + r && links_topics_at_words(api_response@, views(topics@), r),
{
    match build_block_report(input, prompt, topics, api_response) {
        Some(s) => s,
        None => {
            assert(false);
            String::new()
        },
    }
}

/// `process_markdown_block`, or `None` where a pattern is refused.
pub fn process_markdown_block_checked(
    input: &str,
    prompt: &str,
    topics: &[String],
    api_response: &str,
) -> (res: Option<String>)
    ensures
        match res {
            Some(s) => block_report(input@, prompt@, views(topics@), api_response@) == Some(s@),
            None => block_report(input@, prompt@, views(topics@), api_response@) is None,
        },
        res matches Some(s) ==> exists|h: Seq<char>, r: Seq<char>|
            s@ == h + "\nResponse: "@ + r && links_topics_at_words(api_response@, views(topics@), r),
{
    match build_block_report(input, prompt, topics, api_response) {
        Some(_) => Some(process_markdown_block(input, prompt, topics, api_response)),
        None => None,
    }
}

// ----------------------------------------------------------------------
// Rewriting a page block by block
// ----------------------------------------------------------------------

/// What the page rewrite asks for next.
pub enum RewriteStep {
    /// Ask the API about `block`, with `context` as the surrounding blocks.
    Ask { block: String, context: Vec<String> },
    /// Every block is handled; this is the new page text.
    Finished(String),
}

/// The rewrite of a page: its blocks, how many are handled, and the new
/// text of each handled block.
pub struct PageRewrite {
    blocks: Vec<String>,
    next: usize,
    done: Vec<String>,
    waiting: bool,
}

impl PageRewrite {
    /// The blocks of the page.
    pub closed spec fn page_blocks(&self) -> Seq<Seq<char>> {
        views(self.blocks@)
    }

    /// The new texts of the blocks handled so far.
    pub closed spec fn rewritten(&self) -> Seq<Seq<char>> {
        views(self.done@)
    }

    /// Whether an answer for the block last asked about is awaited.
    pub closed spec fn is_waiting(&self) -> bool {
        self.waiting
    }

    /// The handled blocks are the first ones, each kept as it is unless it
    /// needed the API; a block is awaited only if it needs the API.
    pub closed spec fn wf(&self) -> bool {
        &&& self.next <= self.blocks@.len()
        &&& self.done@.len() == self.next
        &&& self.waiting ==> self.next < self.blocks@.len() && block_needs_api(
            self.blocks@[self.next as int]@,
        )
        &&& forall|k: int|
            0 <= k < self.next ==> !block_needs_api(#[trigger] self.blocks@[k]@) ==> self.done@[k]@
                == self.blocks@[k]@
    }

    /// Starts the rewrite of the page `content`.
    pub fn new(content: &str) -> (res: PageRewrite)
        ensures
            res.wf(),
            res.page_blocks() == markdown_blocks(content@),
            res.rewritten() == Seq::<Seq<char>>::empty(),
            !res.is_waiting(),
    {
        let blocks = split_markdown_blocks(content);
        let res = PageRewrite { blocks, next: 0, done: Vec::new(), waiting: false };
        assert(views(res.done@) =~= Seq::<Seq<char>>::empty());
        res
    }

    /// Keeps the blocks that need no API call, then asks about the next
    /// block that does, with its context; or, when none is left, gives the
    /// new page: the new blocks joined by blank lines.
    pub fn next_step(&mut self) -> (res: RewriteStep)
        requires
            old(self).wf(),
            !old(self).is_waiting(),
        ensures
            final(self).wf(),
            final(self).page_blocks() == old(self).page_blocks(),
            old(self).rewritten().is_prefix_of(final(self).rewritten()),
            forall|k: int|
                old(self).rewritten().len() <= k < final(self).rewritten().len()
                    ==> final(self).rewritten()[k] == old(self).page_blocks()[k]
                    && !block_needs_api(old(self).page_blocks()[k]),
            match res {
                RewriteStep::Ask { block, context } => {
                    &&& final(self).is_waiting()
                    &&& final(self).rewritten().len() < final(self).page_blocks().len()
                    &&& block@ == final(self).page_blocks()[final(self).rewritten().len() as int]
                    &&& block_needs_api(block@)
                    &&& views(context@) == context_window(final(self).page_blocks(), block@)
                },
                RewriteStep::Finished(text) => {
                    &&& !final(self).is_waiting()
                    &&& final(self).rewritten().len() == final(self).page_blocks().len()
                    &&& text@ == join_seqs(final(self).rewritten(), "\n\n"@)
                    &&& forall|k: int|
                        0 <= k < final(self).page_blocks().len() && !block_needs_api(
                            #[trigger] final(self).page_blocks()[k],
                        ) ==> final(self).rewritten()[k] == final(self).page_blocks()[k]
                },
            },
    {
        let ghost old_done = views(self.done@);
        while self.next < self.blocks.len() && !block_needs_processing(self.blocks[self.next].as_str())
            invariant
                self.wf(),
                !self.waiting,
                self.blocks@ == old(self).blocks@,
                old_done.is_prefix_of(views(self.done@)),
                old_done == views(old(self).done@),
                forall|k: int|
                    old_done.len() <= k < self.done@.len() ==> self.done@[k]@
                        == self.blocks@[k]@ && !block_needs_api(self.blocks@[k]@),
            decreases self.blocks@.len() - self.next,
        {
            let b = self.blocks[self.next].clone();
            self.done.push(b);
            self.next = self.next + 1;
            assert(old_done.is_prefix_of(views(self.done@))) by {
                assert(old_done.len() <= views(self.done@).len());
                assert forall|k: int| 0 <= k < old_done.len() implies old_done[k] == views(self.done@)[k] by {
                    assert(views(self.done@)[k] == self.done@[k]@);
                }
            }
        }
        if self.next == self.blocks.len() {
            let text = join(self.done.as_slice(), "\n\n");
            RewriteStep::Finished(text)
        } else {
            self.waiting = true;
            let block = self.blocks[self.next].clone();
            let context = context_blocks(&self.blocks, block.as_str());
            RewriteStep::Ask { block, context }
        }
    }

    /// Records the new text of the awaited block: `processed` when the API
    /// answered, the block unchanged otherwise.
    pub fn record_answer(&mut self, processed: Option<String>)
        requires
            old(self).wf(),
            old(self).is_waiting(),
        ensures
            final(self).wf(),
            !final(self).is_waiting(),
            final(self).page_blocks() == old(self).page_blocks(),
            final(self).rewritten() == old(self).rewritten().push(
                match processed {
                    Some(p) => p@,
                    None => old(self).page_blocks()[old(self).rewritten().len() as int],
                },
            ),
    {
        assert(self.next < self.blocks.len());
        let text = match processed {
            Some(p) => p,
            None => self.blocks[self.next].clone(),
        };
        let ghost old_done = self.done@;
        self.done.push(text);
        self.next = self.next + 1;
        self.waiting = false;
        assert(views(self.done@) =~= views(old_done).push(text@));
    }
}

} // verus!
