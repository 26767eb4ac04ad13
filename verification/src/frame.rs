//! Model of a compiled document as handed over by the typesetting engine.
//!
//! A compiled document is an ordered sequence of pages; a page is an
//! ordered sequence of positioned drawable items.  The closed set of
//! drawable-item kinds (group, text, shape, image, link, tag) is an
//! explicit sum type, traversed by a recursive depth-first search for
//! the first attached source span.  Geometry is carried in fixed-point
//! thousandths of a typographic point; a rendered artifact is carried as
//! the string produced by rendering the item in isolation.

use vstd::prelude::*;

use crate::hash::spec_hash_str;
use crate::hash::hash_svg;
use crate::lines::SpanRange;
use crate::lines::spec_range_to_lines;
use crate::lines::range_to_lines;

verus! {

/// A half-open byte range into the source text.
#[derive(Clone, Copy, Debug)]
pub struct ByteRange {
    pub start: usize,
    pub end: usize,
}

/// An attached source span: the engine's raw span id plus the byte
/// range it resolves to in the source text, when it resolves at all.
#[derive(Clone, Copy, Debug)]
pub struct SrcSpan {
    pub raw: u64,
    pub range: Option<ByteRange>,
}

/// One drawable item of a frame.  A detached span is `None`.
pub enum FrameItem {
    Group(GroupItem),
    Text(TextItem),
    Shape(Option<SrcSpan>),
    Image(Option<SrcSpan>),
    Link,
    Tag,
}

/// A nested layout group.  `hard` marks a group that forms its own
/// independently cacheable block; `artifact` is the rendering of the
/// group in isolation.
pub struct GroupItem {
    pub frame: Frame,
    pub hard: bool,
    pub artifact: String,
    pub width: i64,
    pub height: i64,
}

/// A run of glyphs; only their source spans matter for block identity.
pub struct TextItem {
    pub glyph_spans: Vec<Option<SrcSpan>>,
}

/// An item together with its position on the page.
pub struct PlacedItem {
    pub x: i64,
    pub y: i64,
    pub item: FrameItem,
}

/// An ordered collection of positioned drawable items.
pub struct Frame {
    pub items: Vec<PlacedItem>,
}

/// One page of the compiled document.  `leftover_artifact` is the
/// rendering of all items that are not hard groups, merged in order.
pub struct PageModel {
    pub width: i64,
    pub height: i64,
    pub items: Vec<PlacedItem>,
    pub leftover_artifact: String,
}

/// Pixel/point size of a page, in thousandths of a point.
#[derive(Clone, Copy, PartialEq, Eq, Structural, Debug)]
pub struct PageSize {
    pub w: i64,
    pub h: i64,
}

/// Bounding box of a block, in thousandths of a point.
#[derive(Clone, Copy, PartialEq, Eq, Structural, Debug)]
pub struct BBox {
    pub x: i64,
    pub y: i64,
    pub w: i64,
    pub h: i64,
}

/// How a block id was derived when no source span was found.
#[derive(Clone, Copy, PartialEq, Eq, Structural, Debug, Hash)]
pub enum BlockTag {
    /// Derived from the raw id of the first attached source span.
    Spanned(u64),
    /// Fallback for a hard group: its sequence number on the page.
    Indexed(usize),
    /// Fallback for the page's merged leftover block.
    Misc,
}

/// Stable identity of a block: page index plus span-derived tag.
#[derive(Clone, Copy, PartialEq, Eq, Structural, Debug, Hash)]
pub struct BlockId {
    pub page: usize,
    pub tag: BlockTag,
}

/// A freshly rendered block as reported in a patch.
#[verifier::ext_equal]
pub struct BlockPatch {
    pub block_id: BlockId,
    pub hash: u64,
    pub svg: String,
    pub bbox: Option<BBox>,
    pub span: Option<SpanRange>,
}

/// The patch emitted for one page whose content changed.
#[verifier::ext_equal]
pub struct PagePatch {
    pub page_index: usize,
    pub page_hash: u64,
    pub page_size: PageSize,
    pub blocks: Vec<BlockPatch>,
    pub removed_blocks: Vec<BlockId>,
}

/// First attached span of a single item, searching depth-first.
pub open spec fn spec_item_first_span(item: FrameItem) -> Option<SrcSpan>
    decreases item, 0nat,
{
    match item {
        FrameItem::Group(g) => spec_seq_first_span(g.frame.items@, 0),
        FrameItem::Text(t) => spec_first_glyph_span(t.glyph_spans@, 0),
        FrameItem::Shape(s) => s,
        FrameItem::Image(s) => s,
        FrameItem::Link => None,
        FrameItem::Tag => None,
    }
}

/// First attached span among `items[i..]`, searching depth-first.
pub open spec fn spec_seq_first_span(items: Seq<PlacedItem>, i: int) -> Option<SrcSpan>
    decreases items, items.len() - i,
{
    if i < 0 || i >= items.len() {
        None
    } else {
        match spec_item_first_span(items[i].item) {
            Some(s) => Some(s),
            None => spec_seq_first_span(items, i + 1),
        }
    }
}

/// First attached glyph span among `spans[i..]`.
pub open spec fn spec_first_glyph_span(spans: Seq<Option<SrcSpan>>, i: int) -> Option<SrcSpan>
    decreases spans.len() - i,
{
    if i < 0 || i >= spans.len() {
        None
    } else {
        match spans[i] {
            Some(s) => Some(s),
            None => spec_first_glyph_span(spans, i + 1),
        }
    }
}

/// First attached span of a whole frame.
pub open spec fn spec_frame_first_span(f: Frame) -> Option<SrcSpan> {
    spec_seq_first_span(f.items@, 0)
}

/// First attached glyph span, by scan in glyph order.
fn first_glyph_span(spans: &Vec<Option<SrcSpan>>) -> (r: Option<SrcSpan>)
    ensures
        r == spec_first_glyph_span(spans@, 0),
{
    let n = spans.len();
    for i in 0..n
        invariant
            n == spans@.len(),
            spec_first_glyph_span(spans@, 0) == spec_first_glyph_span(spans@, i as int),
    {
        if let Some(s) = spans[i] {
            return Some(s);
        }
    }
    None
}

/// First attached span of one item: nested groups are searched
/// recursively, then glyphs, then shapes and images; links and tags
/// carry no span.
pub fn item_first_span(item: &FrameItem) -> (r: Option<SrcSpan>)
    ensures
        r == spec_item_first_span(*item),
    decreases *item, 0nat,
{
    match item {
        FrameItem::Group(g) => span_from_frame(&g.frame),
        FrameItem::Text(t) => first_glyph_span(&t.glyph_spans),
        FrameItem::Shape(s) => *s,
        FrameItem::Image(s) => *s,
        FrameItem::Link => None,
        FrameItem::Tag => None,
    }
}

/// Depth-first search for the first attached source span in a frame.
pub fn span_from_frame(frame: &Frame) -> (r: Option<SrcSpan>)
    ensures
        r == spec_frame_first_span(*frame),
    decreases *frame, frame.items@.len(),
{
    let n = frame.items.len();
    for i in 0..n
        invariant
            n == frame.items@.len(),
            spec_seq_first_span(frame.items@, 0) == spec_seq_first_span(frame.items@, i as int),
    {
        let found = item_first_span(&frame.items[i].item);
        if let Some(s) = found {
            return Some(s);
        }
    }
    None
}

/// Is this item a hard layout group, i.e. its own block?
pub open spec fn spec_is_hard_group(item: FrameItem) -> bool {
    match item {
        FrameItem::Group(g) => g.hard,
        _ => false,
    }
}

/// First attached span among the page items that are not hard groups,
/// i.e. among the items merged into the page's leftover block.
pub open spec fn spec_soft_first_span(items: Seq<PlacedItem>, i: int) -> Option<SrcSpan>
    decreases items, items.len() - i,
{
    if i < 0 || i >= items.len() {
        None
    } else if spec_is_hard_group(items[i].item) {
        spec_soft_first_span(items, i + 1)
    } else {
        match spec_item_first_span(items[i].item) {
            Some(s) => Some(s),
            None => spec_soft_first_span(items, i + 1),
        }
    }
}

/// Do the items contain anything besides hard groups?
pub open spec fn spec_has_leftover(items: Seq<PlacedItem>) -> bool {
    exists|j: int| 0 <= j < items.len() && !spec_is_hard_group(#[trigger] items[j].item)
}

/// Derive a block id from the first source span found, or fall back to
/// the given tag.  The same source construct yields the same id across
/// recompiles.
pub open spec fn spec_block_id(page_index: usize, span: Option<SrcSpan>, fallback: BlockTag) -> BlockId {
    BlockId {
        page: page_index,
        tag: match span {
            Some(s) => BlockTag::Spanned(s.raw),
            None => fallback,
        },
    }
}

/// Block id derivation; see [`spec_block_id`].
pub fn block_id_from_span(page_index: usize, span: Option<SrcSpan>, fallback: BlockTag) -> (r:
    BlockId)
    ensures
        r == spec_block_id(page_index, span, fallback),
{
    BlockId {
        page: page_index,
        tag: match span {
            Some(s) => BlockTag::Spanned(s.raw),
            None => fallback,
        },
    }
}

/// Line range of an optional span in the given source text.
pub open spec fn spec_span_to_lines(span: Option<SrcSpan>, src: Seq<u8>) -> Option<SpanRange> {
    match span {
        None => None,
        Some(s) => match s.range {
            None => None,
            Some(br) => spec_range_to_lines(src, br.start as int, br.end as int),
        },
    }
}

/// Map an optional span's byte range to 1-based source lines.
pub fn span_to_lines(span: Option<SrcSpan>, source: &[u8]) -> (r: Option<SpanRange>)
    requires
        source@.len() < usize::MAX,
    ensures
        r == spec_span_to_lines(span, source@),
{
    match span {
        None => None,
        Some(s) => match s.range {
            None => None,
            Some(br) => range_to_lines(source, br.start, br.end),
        },
    }
}

/// The block a hard group becomes: its own artifact, its span-derived
/// id (sequence-number fallback), its bounding box at its position.
pub open spec fn spec_block_from_group(
    page_index: usize,
    fallback_index: usize,
    x: i64,
    y: i64,
    g: GroupItem,
    src: Seq<u8>,
) -> BlockPatch {
    let sp = spec_frame_first_span(g.frame);
    BlockPatch {
        block_id: spec_block_id(page_index, sp, BlockTag::Indexed(fallback_index)),
        hash: spec_hash_str(g.artifact@),
        svg: g.artifact,
        bbox: Some(BBox { x, y, w: g.width, h: g.height }),
        span: spec_span_to_lines(sp, src),
    }
}

/// Build the block for one hard group; see [`spec_block_from_group`].
pub fn block_from_group(
    page_index: usize,
    fallback_index: usize,
    x: i64,
    y: i64,
    group: &GroupItem,
    source: &[u8],
) -> (r: BlockPatch)
    requires
        source@.len() < usize::MAX,
    ensures
        r == spec_block_from_group(page_index, fallback_index, x, y, *group, source@),
{
    let sp = span_from_frame(&group.frame);
    let svg = group.artifact.clone();
    let hash = hash_svg(svg.as_str());
    let span = span_to_lines(sp, source);
    let block_id = block_id_from_span(page_index, sp, BlockTag::Indexed(fallback_index));
    BlockPatch {
        block_id,
        hash,
        svg,
        bbox: Some(frame_bbox(x, y, group.width, group.height)),
        span,
    }
}

/// The single catch-all block a page's non-hard items merge into: the
/// merged artifact, a span searched among those items only, and the
/// whole page as bounding box.
pub open spec fn spec_block_from_items(page_index: usize, page: PageModel, src: Seq<u8>) -> BlockPatch {
    let sp = spec_soft_first_span(page.items@, 0);
    BlockPatch {
        block_id: spec_block_id(page_index, sp, BlockTag::Misc),
        hash: spec_hash_str(page.leftover_artifact@),
        svg: page.leftover_artifact,
        bbox: Some(BBox { x: 0, y: 0, w: page.width, h: page.height }),
        span: spec_span_to_lines(sp, src),
    }
}

/// Build the page's merged leftover block; see [`spec_block_from_items`].
pub fn block_from_items(page_index: usize, page: &PageModel, source: &[u8]) -> (r: BlockPatch)
    requires
        source@.len() < usize::MAX,
    ensures
        r == spec_block_from_items(page_index, *page, source@),
{
    let n = page.items.len();
    let mut sp: Option<SrcSpan> = None;
    let mut done = false;
    for i in 0..n
        invariant
            n == page.items@.len(),
            !done ==> sp is None && spec_soft_first_span(page.items@, 0) == spec_soft_first_span(
                page.items@,
                i as int,
            ),
            done ==> spec_soft_first_span(page.items@, 0) == sp && sp is Some,
    {
        if !done {
            let hard = match &page.items[i].item {
                FrameItem::Group(g) => g.hard,
                _ => false,
            };
            if !hard {
                let found = item_first_span(&page.items[i].item);
                if let Some(s) = found {
                    sp = Some(s);
                    done = true;
                }
            }
        }
    }
    let svg = page.leftover_artifact.clone();
    let hash = hash_svg(svg.as_str());
    let span = span_to_lines(sp, source);
    let block_id = block_id_from_span(page_index, sp, BlockTag::Misc);
    BlockPatch {
        block_id,
        hash,
        svg,
        bbox: Some(frame_bbox(0, 0, page.width, page.height)),
        span,
    }
}

/// The reported size of a page.
pub fn page_size(page: &PageModel) -> (r: PageSize)
    ensures
        r == (PageSize { w: page.width, h: page.height }),
{
    PageSize { w: page.width, h: page.height }
}

/// Bounding box from a position and a size.
pub fn frame_bbox(x: i64, y: i64, w: i64, h: i64) -> (r: BBox)
    ensures
        r == (BBox { x, y, w, h }),
{
    BBox { x, y, w, h }
}

} // verus!
