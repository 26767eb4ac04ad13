use preview_core::diff::{build_patch, build_patch_internal, page_hash_of_pairs, DiffCache};
use preview_core::frame::{
    BlockTag, ByteRange, Frame, FrameItem, GroupItem, PageModel, PlacedItem, SrcSpan,
};

fn hard_group(raw_span: u64, range: Option<(usize, usize)>, artifact: &str) -> PlacedItem {
    let span = SrcSpan {
        raw: raw_span,
        range: range.map(|(start, end)| ByteRange { start, end }),
    };
    PlacedItem {
        x: 0,
        y: 0,
        item: FrameItem::Group(GroupItem {
            frame: Frame {
                items: vec![PlacedItem {
                    x: 0,
                    y: 0,
                    item: FrameItem::Shape(Some(span)),
                }],
            },
            hard: true,
            artifact: artifact.to_string(),
            width: 100_000,
            height: 50_000,
        }),
    }
}

fn text_item(raw_span: u64) -> PlacedItem {
    PlacedItem {
        x: 0,
        y: 0,
        item: FrameItem::Text(preview_core::frame::TextItem {
            glyph_spans: vec![None, Some(SrcSpan { raw: raw_span, range: None })],
        }),
    }
}

fn page_with(items: Vec<PlacedItem>, leftover: &str) -> PageModel {
    PageModel {
        width: 595_000,
        height: 842_000,
        items,
        leftover_artifact: leftover.to_string(),
    }
}

/// First compile of a two-page document with an empty cache: two
/// patches, all blocks changed, nothing removed.
#[test]
fn scenario_first_compile_two_pages() {
    let doc = vec![
        page_with(vec![hard_group(11, Some((0, 5)), "<g>one</g>"), text_item(12)], "<rest1>"),
        page_with(vec![hard_group(21, Some((6, 9)), "<g>two</g>")], "<rest2>"),
    ];
    let mut cache = DiffCache::new();
    let (patches, total) = build_patch_internal(&doc, "hello\nworld\n", &mut cache);
    assert_eq!(total, 2);
    assert_eq!(patches.len(), 2);
    assert_eq!(patches[0].page_index, 0);
    assert_eq!(patches[1].page_index, 1);
    // page 0: one hard block plus the leftover block; page 1: hard only
    assert_eq!(patches[0].blocks.len(), 2);
    assert_eq!(patches[1].blocks.len(), 1);
    assert!(patches[0].removed_blocks.is_empty());
    assert!(patches[1].removed_blocks.is_empty());
}

/// Recompiling unchanged content produces an empty patch list.
#[test]
fn idempotent_recompile() {
    let doc = vec![
        page_with(vec![hard_group(11, Some((0, 5)), "<g>one</g>"), text_item(12)], "<rest1>"),
        page_with(vec![hard_group(21, Some((6, 9)), "<g>two</g>")], "<rest2>"),
    ];
    let mut cache = DiffCache::new();
    let first = build_patch(&doc, "hello\nworld\n", &mut cache);
    assert_eq!(first.len(), 2);
    let second = build_patch(&doc, "hello\nworld\n", &mut cache);
    assert!(second.is_empty());
}

/// An edit confined to page 2 yields exactly one patch, for page
/// index 1, holding only the blocks whose artifact bytes differ.
#[test]
fn scenario_edit_on_second_page() {
    let doc1 = vec![
        page_with(vec![hard_group(11, Some((0, 5)), "<g>one</g>"), text_item(12)], "<rest1>"),
        page_with(
            vec![hard_group(21, Some((6, 9)), "<g>two</g>"), hard_group(22, Some((10, 12)), "<g>keep</g>")],
            "<rest2>",
        ),
    ];
    let mut cache = DiffCache::new();
    build_patch(&doc1, "hello\nworld\n", &mut cache);
    let doc2 = vec![
        page_with(vec![hard_group(11, Some((0, 5)), "<g>one</g>"), text_item(12)], "<rest1>"),
        page_with(
            vec![hard_group(21, Some((6, 9)), "<g>twO</g>"), hard_group(22, Some((10, 12)), "<g>keep</g>")],
            "<rest2>",
        ),
    ];
    let patches = build_patch(&doc2, "hello\nworld\n", &mut cache);
    assert_eq!(patches.len(), 1);
    assert_eq!(patches[0].page_index, 1);
    assert_eq!(patches[0].blocks.len(), 1);
    assert_eq!(patches[0].blocks[0].svg, "<g>twO</g>");
    assert_eq!(patches[0].blocks[0].block_id.tag, BlockTag::Spanned(21));
    assert!(patches[0].removed_blocks.is_empty());
}

/// A block id present before and absent now appears exactly once in
/// the removed list.
#[test]
fn removed_block_listed_once() {
    let doc1 = vec![page_with(
        vec![hard_group(31, Some((0, 2)), "<a>"), hard_group(32, Some((3, 4)), "<b>")],
        "",
    )];
    let mut cache = DiffCache::new();
    build_patch(&doc1, "hello", &mut cache);
    let doc2 = vec![page_with(vec![hard_group(31, Some((0, 2)), "<a>")], "")];
    let patches = build_patch(&doc2, "hello", &mut cache);
    assert_eq!(patches.len(), 1);
    let removed = &patches[0].removed_blocks;
    let gone: Vec<_> = removed
        .iter()
        .filter(|id| id.tag == BlockTag::Spanned(32))
        .collect();
    assert_eq!(gone.len(), 1);
    assert_eq!(removed.len(), 1);
}

/// Fewer pages than before drops excess cache rows; more pages appends
/// empty rows with no crash.
#[test]
fn page_count_shrink_and_grow() {
    let three = vec![
        page_with(vec![hard_group(1, None, "<p1>")], ""),
        page_with(vec![hard_group(2, None, "<p2>")], ""),
        page_with(vec![hard_group(3, None, "<p3>")], ""),
    ];
    let mut cache = DiffCache::new();
    let (_, total) = build_patch_internal(&three, "x", &mut cache);
    assert_eq!(total, 3);
    assert_eq!(cache.page_hashes.len(), 3);
    assert_eq!(cache.page_blocks.len(), 3);

    let one = vec![page_with(vec![hard_group(1, None, "<p1>")], "")];
    let (patches, total) = build_patch_internal(&one, "x", &mut cache);
    assert_eq!(total, 1);
    assert_eq!(cache.page_hashes.len(), 1);
    assert_eq!(cache.page_blocks.len(), 1);
    assert!(patches.is_empty());

    let (patches, total) = build_patch_internal(&three, "x", &mut cache);
    assert_eq!(total, 3);
    assert_eq!(cache.page_hashes.len(), 3);
    // the re-grown pages are diffed against empty rows and so reappear
    assert_eq!(patches.len(), 2);
    assert_eq!(patches[0].page_index, 1);
    assert_eq!(patches[1].page_index, 2);
}

/// The reported page hash is recomputable from the reported
/// `(block_id, block_hash)` pairs alone.
#[test]
fn page_hash_recomputable() {
    let doc = vec![page_with(
        vec![hard_group(41, Some((0, 3)), "<x>"), hard_group(42, Some((4, 6)), "<y>")],
        "",
    )];
    let mut cache = DiffCache::new();
    let patches = build_patch(&doc, "abcdef", &mut cache);
    assert_eq!(patches.len(), 1);
    let pairs: Vec<_> = patches[0]
        .blocks
        .iter()
        .map(|b| (b.block_id, b.hash))
        .collect();
    assert_eq!(patches[0].page_hash, page_hash_of_pairs(&pairs));
}

/// The combined page hash depends on the order of its pairs.
#[test]
fn page_hash_is_order_sensitive() {
    let a = preview_core::frame::BlockId { page: 0, tag: BlockTag::Spanned(1) };
    let b = preview_core::frame::BlockId { page: 0, tag: BlockTag::Spanned(2) };
    let h1 = page_hash_of_pairs(&vec![(a, 10), (b, 20)]);
    let h2 = page_hash_of_pairs(&vec![(b, 20), (a, 10)]);
    assert_ne!(h1, h2);
    let h3 = page_hash_of_pairs(&vec![(a, 10), (b, 20)]);
    assert_eq!(h1, h3);
}

/// An empty page emits no patch but its hash row is still kept.
#[test]
fn empty_page_emits_nothing() {
    let doc = vec![page_with(vec![], "")];
    let mut cache = DiffCache::new();
    let (patches, total) = build_patch_internal(&doc, "", &mut cache);
    assert_eq!(total, 1);
    assert!(patches.is_empty());
    assert_eq!(cache.page_hashes.len(), 1);
    let no_pairs: Vec<(preview_core::frame::BlockId, u64)> = Vec::new();
    assert_eq!(cache.page_hashes[0], page_hash_of_pairs(&no_pairs));
}

/// Two blocks sharing a span id keep the cache consistent: the row
/// holds the id once, and recompiling reports the colliding block
/// again rather than crashing.
#[test]
fn duplicate_span_ids() {
    let doc = vec![page_with(
        vec![hard_group(7, None, "<first>"), hard_group(7, None, "<second>")],
        "",
    )];
    let mut cache = DiffCache::new();
    let patches = build_patch(&doc, "x", &mut cache);
    assert_eq!(patches.len(), 1);
    assert_eq!(patches[0].blocks.len(), 2);
    assert_eq!(cache.page_blocks[0].len(), 1);
}

/// Two blocks sharing an id with different artifacts defeat the cache:
/// the collision is re-reported on every compile, which bounds the
/// idempotence law to pages with distinct block ids.
#[test]
fn duplicate_ids_defeat_idempotence() {
    let doc = vec![page_with(
        vec![hard_group(7, None, "<first>"), hard_group(7, None, "<second>")],
        "",
    )];
    let mut cache = DiffCache::new();
    build_patch(&doc, "x", &mut cache);
    let second = build_patch(&doc, "x", &mut cache);
    assert_eq!(second.len(), 1);
    assert_eq!(second[0].blocks.len(), 1);
    assert_eq!(second[0].blocks[0].svg, "<first>");
}

/// A group without any attached span falls back to its sequence
/// number; the merged leftover block falls back to the misc tag.
#[test]
fn fallback_ids() {
    let no_span_group = PlacedItem {
        x: 0,
        y: 0,
        item: FrameItem::Group(GroupItem {
            frame: Frame { items: vec![] },
            hard: true,
            artifact: "<empty>".to_string(),
            width: 10,
            height: 10,
        }),
    };
    let leftover_only = PlacedItem { x: 0, y: 0, item: FrameItem::Link };
    let doc = vec![page_with(vec![no_span_group, leftover_only], "<tail>")];
    let mut cache = DiffCache::new();
    let patches = build_patch(&doc, "x", &mut cache);
    assert_eq!(patches.len(), 1);
    assert_eq!(patches[0].blocks.len(), 2);
    assert_eq!(patches[0].blocks[0].block_id.tag, BlockTag::Indexed(0));
    assert_eq!(patches[0].blocks[1].block_id.tag, BlockTag::Misc);
}

/// The span search is depth-first with nested groups searched before
/// later items, and detached glyphs skipped.
#[test]
fn span_search_order() {
    let nested = PlacedItem {
        x: 0,
        y: 0,
        item: FrameItem::Group(GroupItem {
            frame: Frame {
                items: vec![
                    PlacedItem { x: 0, y: 0, item: FrameItem::Tag },
                    text_item(99),
                ],
            },
            hard: false,
            artifact: String::new(),
            width: 1,
            height: 1,
        }),
    };
    let later = PlacedItem {
        x: 0,
        y: 0,
        item: FrameItem::Image(Some(SrcSpan { raw: 55, range: None })),
    };
    let outer = PlacedItem {
        x: 0,
        y: 0,
        item: FrameItem::Group(GroupItem {
            frame: Frame { items: vec![nested, later] },
            hard: true,
            artifact: "<outer>".to_string(),
            width: 1,
            height: 1,
        }),
    };
    let doc = vec![page_with(vec![outer], "")];
    let mut cache = DiffCache::new();
    let patches = build_patch(&doc, "x", &mut cache);
    assert_eq!(patches[0].blocks[0].block_id.tag, BlockTag::Spanned(99));
}
