//! The calendar command: the first page of the club's Notion calendar,
//! its title in bold and the text of its paragraphs.
use vstd::prelude::*;
use vstd::string::*;

verus! {

/// The Notion database that holds the club's calendar.
pub const CALENDAR_DATABASE: &'static str = "bc689835f6904f83871cb67efe6b7d1e";

/// What comes before the calendar page.
pub const CALENDAR_INTRO: &'static str = "Here are the upcoming events for the week in our calendar:\n";

/// A block of a Notion page, as far as the command reads it.
pub enum NotionBlock {
    /// A paragraph, with the plain text of each of its rich-text runs.
    Paragraph(Vec<String>),
    /// Any other kind of block.
    Other,
}

/// Why no calendar answer can be written.
#[derive(Clone, Copy, Debug, PartialEq, Eq)]
pub enum NotionError {
    /// The calendar page has no title.
    Untitled,
}

impl NotionError {
    /// The error's text.
    pub fn message(&self) -> (r: String)
        ensures
            r@ == "Untitled"@,
    {
        String::from_str("Untitled")
    }
}

/// The text a block contributes: a paragraph's runs one after another.
pub open spec fn block_text(b: NotionBlock) -> Seq<char> {
    match b {
        NotionBlock::Paragraph(runs) => runs.deep_view().flatten_alt(),
        NotionBlock::Other => Seq::empty(),
    }
}

/// The text of all blocks, in order.
pub open spec fn blocks_text(blocks: Seq<NotionBlock>) -> Seq<char>
    decreases blocks.len(),
{
    if blocks.len() == 0 {
        Seq::empty()
    } else {
        blocks_text(blocks.drop_last()) + block_text(blocks.last())
    }
}

/// Every paragraph counts, wherever it stands: after any blocks, a
/// paragraph adds its runs one after another (and nothing else), and any
/// other block adds nothing.
pub proof fn law_paragraphs_add_their_runs(blocks: Seq<NotionBlock>, runs: Vec<String>)
    ensures
        blocks_text(blocks.push(NotionBlock::Paragraph(runs))) == blocks_text(blocks)
            + runs.deep_view().flatten(),
        blocks_text(blocks.push(NotionBlock::Other)) == blocks_text(blocks),
        blocks_text(seq![NotionBlock::Paragraph(runs)]) == runs.deep_view().flatten(),
{
    assert(blocks.push(NotionBlock::Paragraph(runs)).drop_last() =~= blocks);
    assert(blocks.push(NotionBlock::Other).drop_last() =~= blocks);
    let one = seq![NotionBlock::Paragraph(runs)];
    assert(one.drop_last() =~= Seq::<NotionBlock>::empty());
    assert(blocks_text(one.drop_last()) == Seq::<char>::empty());
    assert(one.last() == NotionBlock::Paragraph(runs));
    runs.deep_view().lemma_flatten_and_flatten_alt_are_equivalent();
    assert(blocks_text(one) =~= runs.deep_view().flatten());
}

/// The text of blocks put one after another is the text of the first blocks
/// followed by that of the others.
pub proof fn law_blocks_text_concat(first: Seq<NotionBlock>, rest: Seq<NotionBlock>)
    ensures
        blocks_text(first + rest) == blocks_text(first) + blocks_text(rest),
    decreases rest.len(),
{
    if rest.len() == 0 {
        assert(first + rest =~= first);
        assert(blocks_text(first) + Seq::<char>::empty() =~= blocks_text(first));
    } else {
        law_blocks_text_concat(first, rest.drop_last());
        assert((first + rest).drop_last() =~= first + rest.drop_last());
        assert((first + rest).last() == rest.last());
    }
}

/// The bold title line of the calendar page; the error where it has no title.
pub fn notion_heading(title: Option<&str>) -> (r: Result<String, NotionError>)
    ensures
        match title {
            Some(t) => r matches Ok(h) && h@ == "**"@ + t@ + "**\n"@,
            None => r == Err::<String, NotionError>(NotionError::Untitled),
        },
{
    match title {
        Some(t) => Ok(String::from_str("**").concat(t).concat("**\n")),
        None => Err(NotionError::Untitled),
    }
}

fn append_runs(body: &mut String, runs: &Vec<String>)
    ensures
        final(body)@ == old(body)@ + runs.deep_view().flatten_alt(),
{
    let ghost all = runs.deep_view();
    let mut i: usize = 0;
    assert(all.take(0) =~= Seq::<Seq<char>>::empty());
    assert(body@ =~= old(body)@ + all.take(0).flatten_alt());
    while i < runs.len()
        invariant
            all == runs.deep_view(),
            i <= runs.len(),
            body@ == old(body)@ + all.take(i as int).flatten_alt(),
        decreases runs.len() - i,
    {
        assert(all.take(i + 1).drop_last() =~= all.take(i as int));
        body.append(runs[i].as_str());
        i = i + 1;
    }
    assert(all.take(runs.len() as int) =~= all);
}

/// Lists upcoming events for the week: the heading of the calendar page,
/// then the text of its paragraphs.
pub fn notion(heading: &str, blocks: &Vec<NotionBlock>) -> (r: String)
    ensures
        r@ == CALENDAR_INTRO@ + heading@ + blocks_text(blocks@),
{
    let mut body = String::from_str(heading);
    let mut i: usize = 0;
    assert(blocks@.take(0) =~= Seq::<NotionBlock>::empty());
    while i < blocks.len()
        invariant
            i <= blocks.len(),
            body@ == heading@ + blocks_text(blocks@.take(i as int)),
        decreases blocks.len() - i,
    {
        assert(blocks@.take(i + 1).drop_last() =~= blocks@.take(i as int));
        match &blocks[i] {
            NotionBlock::Paragraph(runs) => append_runs(&mut body, runs),
            NotionBlock::Other => {},
        }
        i = i + 1;
    }
    assert(blocks@.take(blocks.len() as int) =~= blocks@);
    String::from_str(CALENDAR_INTRO).concat(body.as_str())
}

} // verus!
