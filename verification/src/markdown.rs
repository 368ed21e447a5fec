//! Splitting a markdown page into blocks (paragraphs, list items, headings)
//! and choosing the blocks around one of them as context.

use pulldown_cmark::{Event, Parser, Tag, TagEnd};
use vstd::prelude::*;

use crate::strings::{chars_eq, chars_of, push_all, string_from_chars, views};

verus! {

/// The markdown parser events that block splitting distinguishes.
#[derive(Debug)]
pub enum MdEvent {
    StartHeading,
    StartItem,
    Text(String),
    EndParagraph,
    EndItem,
    EndHeading,
    Other,
}

/// `MdEvent` with its text as characters.
pub enum MdEventView {
    StartHeading,
    StartItem,
    Text(Seq<char>),
    EndParagraph,
    EndItem,
    EndHeading,
    Other,
}

impl View for MdEvent {
    type V = MdEventView;

    open spec fn view(&self) -> MdEventView {
        match self {
            MdEvent::StartHeading => MdEventView::StartHeading,
            MdEvent::StartItem => MdEventView::StartItem,
            MdEvent::Text(t) => MdEventView::Text(t@),
            MdEvent::EndParagraph => MdEventView::EndParagraph,
            MdEvent::EndItem => MdEventView::EndItem,
            MdEvent::EndHeading => MdEventView::EndHeading,
            MdEvent::Other => MdEventView::Other,
        }
    }
}

pub open spec fn event_views(events: Seq<MdEvent>) -> Seq<MdEventView> {
    events.map_values(|e: MdEvent| e@)
}

/// The events that `pulldown_cmark::Parser::new(content)` yields, each
/// reduced to the variant block splitting looks at.
pub uninterp spec fn markdown_events(content: Seq<char>) -> Seq<MdEventView>;

/// Runs `pulldown_cmark::Parser::new` over `content` and tells its events
/// apart: heading and item starts, text, paragraph/item/heading ends, and
/// everything else.
#[verifier::external_body]
fn parse_markdown(content: &str) -> (res: Vec<MdEvent>)
    ensures
        event_views(res@) == markdown_events(content@),
{
    Parser::new(content).map(|ev| match ev {
        Event::Start(Tag::Heading { .. }) => MdEvent::StartHeading,
        Event::Start(Tag::Item) => MdEvent::StartItem,
        Event::Text(t) => MdEvent::Text(t.to_string()),
        Event::End(TagEnd::Paragraph) => MdEvent::EndParagraph,
        Event::End(TagEnd::Item) => MdEvent::EndItem,
        Event::End(TagEnd::Heading(_)) => MdEvent::EndHeading,
        _ => MdEvent::Other,
    }).collect()
}

/// Blocks found so far and the text of the block being read.
pub type SplitState = (Seq<Seq<char>>, Seq<char>);

/// Closes the current block, if it holds any text.
pub open spec fn flush(st: SplitState) -> SplitState {
    if st.1.len() > 0 {
        (st.0.push(st.1), Seq::empty())
    } else {
        st
    }
}

/// One event: heading and item starts, and paragraph, item and heading
/// ends, close the current block; text is appended to it.
pub open spec fn split_step(st: SplitState, e: MdEventView) -> SplitState {
    match e {
        MdEventView::Text(t) => (st.0, st.1 + t),
        MdEventView::Other => st,
        _ => flush(st),
    }
}

pub open spec fn split_fold(events: Seq<MdEventView>) -> SplitState
    decreases events.len(),
{
    if events.len() == 0 {
        (Seq::empty(), Seq::empty())
    } else {
        split_step(split_fold(events.drop_last()), events.last())
    }
}

/// The blocks of a page given its parser events.
pub open spec fn blocks_of_events(events: Seq<MdEventView>) -> Seq<Seq<char>> {
    flush(split_fold(events)).0
}

/// The blocks of the page `content`.
pub open spec fn markdown_blocks(content: Seq<char>) -> Seq<Seq<char>> {
    blocks_of_events(markdown_events(content))
}

/// Groups the text of parser events into blocks: a block ends at the start
/// of a heading or list item and at the end of a paragraph, list item or
/// heading; empty blocks are dropped.
pub fn blocks_from_events(events: &Vec<MdEvent>) -> (res: Vec<String>)
    ensures
        views(res@) == blocks_of_events(event_views(events@)),
{
    let mut blocks: Vec<String> = Vec::new();
    let mut current: Vec<char> = Vec::new();
    let mut i: usize = 0;
    while i < events.len()
        invariant
            i <= events.len(),
            split_fold(event_views(events@).take(i as int)) == (views(blocks@), current@),
        decreases events.len() - i,
    {
        let ghost before = event_views(events@).take(i as int);
        assert(event_views(events@).take(i + 1).drop_last() =~= before);
        assert(event_views(events@).take(i + 1).last() == events@[i as int]@);
        match &events[i] {
            MdEvent::Text(t) => {
                let tc = chars_of(t.as_str());
                push_all(&mut current, &tc);
            },
            MdEvent::Other => {},
            _ => {
                if current.len() > 0 {
                    let block = string_from_chars(&current);
                    blocks.push(block);
                    current = Vec::new();
                    assert(views(blocks@) =~= split_fold(before).0.push(split_fold(before).1));
                }
            },
        }
        i = i + 1;
    }
    assert(event_views(events@).take(events@.len() as int) =~= event_views(events@));
    if current.len() > 0 {
        let block = string_from_chars(&current);
        blocks.push(block);
    }
    assert(views(blocks@) =~= blocks_of_events(event_views(events@)));
    blocks
}

/// Folding `e` from the state `st`.
spec fn split_from(st: SplitState, e: Seq<MdEventView>) -> SplitState
    decreases e.len(),
{
    if e.len() == 0 {
        st
    } else {
        split_step(split_from(st, e.drop_last()), e.last())
    }
}

proof fn lemma_split_fold_append(e1: Seq<MdEventView>, e2: Seq<MdEventView>)
    ensures
        split_fold(e1 + e2) == split_from(split_fold(e1), e2),
    decreases e2.len(),
{
    if e2.len() == 0 {
        assert(e1 + e2 =~= e1);
    } else {
        lemma_split_fold_append(e1, e2.drop_last());
        assert((e1 + e2).drop_last() =~= e1 + e2.drop_last());
        assert((e1 + e2).last() == e2.last());
    }
}

proof fn lemma_split_from_closed(b: Seq<Seq<char>>, e: Seq<MdEventView>)
    ensures
        split_from((b, Seq::empty()), e) == (b + split_fold(e).0, split_fold(e).1),
    decreases e.len(),
{
    if e.len() == 0 {
        assert(b + Seq::<Seq<char>>::empty() =~= b);
    } else {
        lemma_split_from_closed(b, e.drop_last());
        let f = split_fold(e.drop_last());
        if f.1.len() > 0 {
            assert(b + f.0.push(f.1) =~= (b + f.0).push(f.1));
        }
    }
}

/// Every block boundary closes the block being read: the blocks of
/// `e1`, a heading or item start, or a paragraph, item or heading end, then
/// `e2`, are the blocks of `e1` followed by the blocks of `e2`. No block
/// holds text from both sides of a boundary.
pub proof fn lemma_boundary_splits_blocks(e1: Seq<MdEventView>, b: MdEventView, e2: Seq<MdEventView>)
    requires
        b is StartHeading || b is StartItem || b is EndParagraph || b is EndItem || b is EndHeading,
    ensures
        blocks_of_events(e1 + seq![b] + e2) == blocks_of_events(e1) + blocks_of_events(e2),
{
    lemma_split_fold_append(e1 + seq![b], e2);
    lemma_split_fold_append(e1, seq![b]);
    assert(seq![b].drop_last() =~= Seq::<MdEventView>::empty());
    assert(seq![b].last() == b);
    assert(split_from(split_fold(e1), Seq::<MdEventView>::empty()) == split_fold(e1));
    let closed = flush(split_fold(e1));
    assert(split_step(split_fold(e1), b) == closed);
    assert(split_from(split_fold(e1), seq![b]) == closed);
    assert(closed.1 =~= Seq::<char>::empty());
    assert(closed == (blocks_of_events(e1), Seq::<char>::empty()));
    lemma_split_from_closed(blocks_of_events(e1), e2);
    let f2 = split_fold(e2);
    if f2.1.len() > 0 {
        assert((blocks_of_events(e1) + f2.0).push(f2.1) =~= blocks_of_events(e1) + f2.0.push(f2.1));
    }
}

/// Text read without a boundary between stays in one block, and events
/// other than text and boundaries change nothing: the blocks of `Text(a)`,
/// `Text(c)` (with anything but boundaries and text in between) are the one
/// block `a + c` when it is not empty.
pub proof fn lemma_text_joins_block(a: Seq<char>, c: Seq<char>)
    requires
        a.len() + c.len() > 0,
    ensures
        blocks_of_events(seq![MdEventView::Text(a), MdEventView::Other, MdEventView::Text(c)])
            == seq![a + c],
{
    let e = seq![MdEventView::Text(a), MdEventView::Other, MdEventView::Text(c)];
    assert(e.drop_last().drop_last().drop_last() =~= Seq::<MdEventView>::empty());
    assert(e.drop_last().drop_last() =~= seq![MdEventView::Text(a)]);
    assert(e.drop_last() =~= seq![MdEventView::Text(a), MdEventView::Other]);
    let s0 = split_fold(Seq::<MdEventView>::empty());
    assert(s0 == (Seq::<Seq<char>>::empty(), Seq::<char>::empty()));
    let s1 = split_fold(seq![MdEventView::Text(a)]);
    assert(seq![MdEventView::Text(a)].drop_last() =~= Seq::<MdEventView>::empty());
    assert(s1 == split_step(s0, MdEventView::Text(a)));
    assert(Seq::<char>::empty() + a =~= a);
    assert(s1 == (Seq::<Seq<char>>::empty(), a));
    let s2 = split_fold(seq![MdEventView::Text(a), MdEventView::Other]);
    assert(s2 == split_step(s1, MdEventView::Other));
    assert(s2 == s1);
    let s3 = split_fold(e);
    assert(s3 == split_step(s2, MdEventView::Text(c)));
    assert(s3 == (Seq::<Seq<char>>::empty(), a + c));
    assert(flush(s3).0 =~= seq![a + c]);
}

/// Splits the markdown page `content` into blocks.
pub fn split_markdown_blocks(content: &str) -> (res: Vec<String>)
    ensures
        views(res@) == markdown_blocks(content@),
{
    let events = parse_markdown(content);
    blocks_from_events(&events)
}

/// Index of the first block equal to `x`, or `blocks.len()` when none is.
pub open spec fn block_index(blocks: Seq<Seq<char>>, x: Seq<char>) -> int
    decreases blocks.len(),
{
    if blocks.len() == 0 || blocks[0] == x {
        0
    } else {
        1 + block_index(blocks.drop_first(), x)
    }
}

/// The blocks around the first one equal to `active`: up to two before it
/// and two after it; `[active]` alone when no block equals it.
pub open spec fn context_window(blocks: Seq<Seq<char>>, active: Seq<char>) -> Seq<Seq<char>> {
    let i = block_index(blocks, active);
    if i < blocks.len() {
        let start = if i > 2 { i - 2 } else { 0 };
        let end = if i + 3 < blocks.len() { i + 3 } else { blocks.len() as int };
        blocks.subrange(start, end)
    } else {
        seq![active]
    }
}

pub proof fn lemma_block_index(blocks: Seq<Seq<char>>, x: Seq<char>)
    ensures
        0 <= block_index(blocks, x) <= blocks.len(),
        block_index(blocks, x) < blocks.len() ==> blocks[block_index(blocks, x)] == x,
        forall|k: int| 0 <= k < block_index(blocks, x) ==> blocks[k] != x,
    decreases blocks.len(),
{
    if blocks.len() > 0 && blocks[0] != x {
        lemma_block_index(blocks.drop_first(), x);
        assert forall|k: int| 0 <= k < block_index(blocks, x) implies blocks[k] != x by {
            if k > 0 {
                assert(blocks[k] == blocks.drop_first()[k - 1]);
            }
        }
    }
}

/// Position of the first block equal to `active`, or `blocks.len()`.
fn find_block(blocks: &Vec<String>, active: &[char]) -> (idx: usize)
    ensures
        idx as int == block_index(views(blocks@), active@),
{
    let ghost bv = views(blocks@);
    let mut idx: usize = 0;
    assert(bv.subrange(0, bv.len() as int) =~= bv);
    while idx < blocks.len()
        invariant
            idx <= blocks.len(),
            bv == views(blocks@),
            block_index(bv, active@) == idx + block_index(
                bv.subrange(idx as int, bv.len() as int),
                active@,
            ),
        decreases blocks.len() - idx,
    {
        let b = chars_of(blocks[idx].as_str());
        let ghost sub = bv.subrange(idx as int, bv.len() as int);
        assert(sub[0] == blocks@[idx as int]@);
        if chars_eq(&b, active) {
            return idx;
        }
        assert(sub.drop_first() =~= bv.subrange(idx + 1, bv.len() as int));
        idx = idx + 1;
    }
    idx
}

/// Picks the context of `active_block` among `blocks`: the first block
/// equal to it with up to two blocks on each side, or `[active_block]`.
pub fn context_blocks(blocks: &Vec<String>, active_block: &str) -> (res: Vec<String>)
    ensures
        views(res@) == context_window(views(blocks@), active_block@),
{
    let active = chars_of(active_block);
    let idx = find_block(blocks, &active);
    let mut out: Vec<String> = Vec::new();
    if idx < blocks.len() {
        let start: usize = if idx > 2 { idx - 2 } else { 0 };
        let end: usize = if blocks.len() - idx > 3 { idx + 3 } else { blocks.len() };
        let mut k: usize = start;
        while k < end
            invariant
                start <= k <= end <= blocks.len(),
                views(out@) == views(blocks@).subrange(start as int, k as int),
            decreases end - k,
        {
            let ghost prev = out@;
            let b = blocks[k].clone();
            assert(b@ == views(blocks@)[k as int]);
            out.push(b);
            assert(views(out@) =~= views(prev).push(b@));
            k = k + 1;
            assert(views(out@) =~= views(blocks@).subrange(start as int, k as int));
        }
    } else {
        out.push(String::from_str(active_block));
        assert(views(out@) =~= seq![active_block@]);
    }
    out
}

/// Splits `content` into blocks and picks the context of `active_block`
/// among them: the first block equal to it with up to two blocks on each
/// side, or `[active_block]` when no block equals it.
pub fn select_context_blocks(content: &str, active_block: &str) -> (res: Vec<String>)
    ensures
        views(res@) == context_window(markdown_blocks(content@), active_block@),
{
    let blocks = split_markdown_blocks(content);
    context_blocks(&blocks, active_block)
}

/// The context of a block holds the block, and at most five blocks.
pub proof fn lemma_context_window_holds_active(blocks: Seq<Seq<char>>, active: Seq<char>)
    ensures
        context_window(blocks, active).contains(active),
        1 <= context_window(blocks, active).len() <= 5,
{
    lemma_block_index(blocks, active);
    let i = block_index(blocks, active);
    let w = context_window(blocks, active);
    if i < blocks.len() {
        let start = if i > 2 { i - 2 } else { 0 };
        assert(w[i - start] == blocks[i]);
    } else {
        assert(w[0] == active);
    }
}

} // verus!
