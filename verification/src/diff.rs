//! The incremental block-diff engine.
//!
//! Each compile partitions every page into blocks, hashes each block's
//! rendered artifact, and diffs the result against the per-page cache of
//! the hashes last sent to the renderer.  Only pages with changed or
//! removed blocks produce a patch; the cache is resized to the current
//! page count on every compile, so stale per-page state never survives
//! a page-count shrink.

use vstd::prelude::*;
use vstd::string::StringSliceAdditionalSpecFns;

use crate::frame::BlockId;
use crate::frame::BlockTag;
use crate::frame::BlockPatch;
use crate::frame::FrameItem;
use crate::frame::PageModel;
use crate::frame::PagePatch;
use crate::frame::PageSize;
use crate::frame::PlacedItem;
use crate::frame::spec_block_from_group;
use crate::frame::spec_block_from_items;
use crate::frame::spec_has_leftover;
use crate::frame::spec_is_hard_group;
use crate::frame::block_from_group;
use crate::frame::block_from_items;
use crate::hash::FNV_OFFSET;
use crate::hash::fnv_from;
use crate::hash::fnv_extend;
use crate::hash::u64_le;
use crate::hash::append_u64_le;

verus! {

// ---------------------------------------------------------------------
// Per-page cache rows: block id -> last-sent hash, keys unique.
// ---------------------------------------------------------------------

/// No block id occurs twice in the row.
pub open spec fn row_keys_unique(row: Seq<(BlockId, u64)>) -> bool {
    forall|j: int, k: int| 0 <= j < k < row.len() ==> (#[trigger] row[j]).0 != (#[trigger] row[k]).0
}

/// Index of the first entry with key `id` in `row[i..]`, or `row.len()`.
pub open spec fn spec_row_find(row: Seq<(BlockId, u64)>, id: BlockId, i: int) -> int
    decreases row.len() - i,
{
    if i < 0 || i >= row.len() {
        row.len() as int
    } else if row[i].0 == id {
        i
    } else {
        spec_row_find(row, id, i + 1)
    }
}

/// The hash cached for `id`, if any.
pub open spec fn spec_row_get(row: Seq<(BlockId, u64)>, id: BlockId) -> Option<u64> {
    let j = spec_row_find(row, id, 0);
    if j < row.len() {
        Some(row[j].1)
    } else {
        None
    }
}

/// Is `id` a key of the row?
pub open spec fn row_has_key(row: Seq<(BlockId, u64)>, id: BlockId) -> bool {
    spec_row_get(row, id) is Some
}

/// Record `id -> h`: replace the value of an existing key in place,
/// else append a new entry.
pub open spec fn spec_row_insert(row: Seq<(BlockId, u64)>, id: BlockId, h: u64) -> Seq<
    (BlockId, u64),
> {
    let j = spec_row_find(row, id, 0);
    if j < row.len() {
        row.update(j, (id, h))
    } else {
        row.push((id, h))
    }
}

/// The find index is in range and hits the key, or the key is absent.
pub proof fn lemma_row_find(row: Seq<(BlockId, u64)>, id: BlockId, i: int)
    requires
        0 <= i <= row.len(),
    ensures
        i <= spec_row_find(row, id, i) <= row.len(),
        spec_row_find(row, id, i) < row.len() ==> row[spec_row_find(row, id, i)].0 == id,
        forall|j: int|
            i <= j < spec_row_find(row, id, i) ==> (#[trigger] row[j]).0 != id,
    decreases row.len() - i,
{
    if i < row.len() && row[i].0 != id {
        lemma_row_find(row, id, i + 1);
    }
}

/// An entry's key is always found at or before its own index.
pub proof fn lemma_row_get_present(row: Seq<(BlockId, u64)>, j: int)
    requires
        0 <= j < row.len(),
    ensures
        row_has_key(row, row[j].0),
{
    lemma_row_find(row, row[j].0, 0);
    if spec_row_find(row, row[j].0, 0) >= row.len() {
        assert(row[j].0 != row[j].0);
    }
}

/// What a lookup returns after an insert.
pub proof fn lemma_row_insert_get(row: Seq<(BlockId, u64)>, id: BlockId, h: u64, q: BlockId)
    ensures
        spec_row_get(spec_row_insert(row, id, h), q) == if q == id {
            Some(h)
        } else {
            spec_row_get(row, q)
        },
{
    lemma_row_find(row, id, 0);
    let row2 = spec_row_insert(row, id, h);
    let j = spec_row_find(row, id, 0);
    if q == id {
        lemma_row_find(row2, id, 0);
        let j2 = spec_row_find(row2, id, 0);
        if j < row.len() {
            // replaced in place: entries before j are unchanged and miss id
            assert forall|k: int| 0 <= k < j implies (#[trigger] row2[k]).0 != id by {}
            lemma_row_find_first(row2, id, j);
        } else {
            assert forall|k: int| 0 <= k < row.len() implies (#[trigger] row2[k]).0 != id by {}
            lemma_row_find_first(row2, id, row.len() as int);
        }
    } else {
        lemma_row_find(row2, q, 0);
        lemma_row_find(row, q, 0);
        lemma_row_find_agrees(row, row2, q);
    }
}

/// If entries before `j` miss the key and `row[j]` has it, find returns `j`.
proof fn lemma_row_find_first(row: Seq<(BlockId, u64)>, id: BlockId, j: int)
    requires
        0 <= j < row.len(),
        row[j].0 == id,
        forall|k: int| 0 <= k < j ==> (#[trigger] row[k]).0 != id,
    ensures
        spec_row_find(row, id, 0) == j,
{
    lemma_row_find_first_from(row, id, j, 0);
}

proof fn lemma_row_find_first_from(row: Seq<(BlockId, u64)>, id: BlockId, j: int, i: int)
    requires
        0 <= i <= j < row.len(),
        row[j].0 == id,
        forall|k: int| i <= k < j ==> (#[trigger] row[k]).0 != id,
    ensures
        spec_row_find(row, id, i) == j,
    decreases j - i,
{
    if i < j {
        lemma_row_find_first_from(row, id, j, i + 1);
    }
}

/// Two rows equal except at positions whose key is not `q` find `q` alike.
proof fn lemma_row_find_agrees(row: Seq<(BlockId, u64)>, row2: Seq<(BlockId, u64)>, q: BlockId)
    requires
        row2.len() == row.len() || row2.len() == row.len() + 1,
        forall|k: int|
            0 <= k < row.len() ==> (#[trigger] row2[k]).0 == row[k].0 && (row[k].0 == q
                ==> row2[k] == row[k]),
        row2.len() == row.len() + 1 ==> row2[row.len() as int].0 != q,
    ensures
        spec_row_get(row2, q) == spec_row_get(row, q),
{
    lemma_row_find_agrees_from(row, row2, q, 0);
    let j = spec_row_find(row, q, 0);
    let j2 = spec_row_find(row2, q, 0);
    lemma_row_find(row, q, 0);
    lemma_row_find(row2, q, 0);
}

proof fn lemma_row_find_agrees_from(
    row: Seq<(BlockId, u64)>,
    row2: Seq<(BlockId, u64)>,
    q: BlockId,
    i: int,
)
    requires
        0 <= i <= row.len(),
        row2.len() == row.len() || row2.len() == row.len() + 1,
        forall|k: int|
            0 <= k < row.len() ==> (#[trigger] row2[k]).0 == row[k].0 && (row[k].0 == q
                ==> row2[k] == row[k]),
        row2.len() == row.len() + 1 ==> row2[row.len() as int].0 != q,
    ensures
        ({
            let j = spec_row_find(row, q, i);
            let j2 = spec_row_find(row2, q, i);
            if j < row.len() {
                j2 == j && row2[j2] == row[j]
            } else {
                j2 >= row2.len()
            }
        }),
    decreases row.len() - i,
{
    if i < row.len() {
        if row[i].0 == q {
        } else {
            lemma_row_find_agrees_from(row, row2, q, i + 1);
        }
    } else {
        if row2.len() == row.len() + 1 {
            assert(spec_row_find(row2, q, i + 1) == row2.len());
            assert(spec_row_find(row2, q, i) == row2.len());
        }
    }
}

/// Inserting preserves key uniqueness.
pub proof fn lemma_row_insert_unique(row: Seq<(BlockId, u64)>, id: BlockId, h: u64)
    requires
        row_keys_unique(row),
    ensures
        row_keys_unique(spec_row_insert(row, id, h)),
{
    lemma_row_find(row, id, 0);
    let j = spec_row_find(row, id, 0);
    let row2 = spec_row_insert(row, id, h);
    if j < row.len() {
        assert forall|a: int, b: int| 0 <= a < b < row2.len() implies (#[trigger] row2[a]).0 != (
        #[trigger] row2[b]).0 by {
            assert(row2[a].0 == row[a].0);
            assert(row2[b].0 == row[b].0);
        }
    } else {
        assert forall|a: int, b: int| 0 <= a < b < row2.len() implies (#[trigger] row2[a]).0 != (
        #[trigger] row2[b]).0 by {
            if b == row.len() {
                assert(row2[a].0 == row[a].0);
            }
        }
    }
}

/// Cached hash lookup; see [`spec_row_get`].
pub fn row_get(row: &Vec<(BlockId, u64)>, id: BlockId) -> (r: Option<u64>)
    ensures
        r == spec_row_get(row@, id),
{
    let n = row.len();
    for i in 0..n
        invariant
            n == row@.len(),
            spec_row_find(row@, id, 0) == spec_row_find(row@, id, i as int),
    {
        if row[i].0 == id {
            return Some(row[i].1);
        }
    }
    None
}

/// Record `id -> h` in the row; see [`spec_row_insert`].
pub fn row_insert(row: &mut Vec<(BlockId, u64)>, id: BlockId, h: u64)
    ensures
        final(row)@ == spec_row_insert(old(row)@, id, h),
{
    let n = row.len();
    for i in 0..n
        invariant
            n == row@.len(),
            row == old(row),
            spec_row_find(row@, id, 0) == spec_row_find(row@, id, i as int),
    {
        if row[i].0 == id {
            let h0 = row.remove(i);
            row.insert(i, (id, h));
            proof {
                assert(row@ =~= old(row)@.update(i as int, (id, h)));
            }
            return ;
        }
    }
    row.push((id, h));
}

// ---------------------------------------------------------------------
// Combined page hash over (block id, block hash) pairs.
// ---------------------------------------------------------------------

/// Discriminant byte of a block id tag.
pub open spec fn spec_tag_code(tag: BlockTag) -> u8 {
    match tag {
        BlockTag::Spanned(_) => 1,
        BlockTag::Indexed(_) => 2,
        BlockTag::Misc => 3,
    }
}

/// Numeric payload of a block id tag.
pub open spec fn spec_tag_payload(tag: BlockTag) -> u64 {
    match tag {
        BlockTag::Spanned(raw) => raw,
        BlockTag::Indexed(k) => k as u64,
        BlockTag::Misc => 0,
    }
}

/// The bytes a block id contributes to the page hash.
pub open spec fn spec_id_bytes(id: BlockId) -> Seq<u8> {
    u64_le(id.page as u64).push(spec_tag_code(id.tag)) + u64_le(spec_tag_payload(id.tag))
}

/// Append the bytes of a block id.
pub fn append_id_bytes(out: &mut Vec<u8>, id: BlockId)
    ensures
        final(out)@ == old(out)@ + spec_id_bytes(id),
{
    append_u64_le(out, id.page as u64);
    let code: u8 = match id.tag {
        BlockTag::Spanned(_) => 1,
        BlockTag::Indexed(_) => 2,
        BlockTag::Misc => 3,
    };
    out.push(code);
    let payload: u64 = match id.tag {
        BlockTag::Spanned(raw) => raw,
        BlockTag::Indexed(k) => k as u64,
        BlockTag::Misc => 0,
    };
    append_u64_le(out, payload);
    proof {
        assert(out@ =~= old(out)@ + spec_id_bytes(id));
    }
}

/// Fold the pairs `pairs[i..]` into a running FNV-1a state: for each
/// pair, first the id's bytes, then the hash's little-endian bytes.
pub open spec fn spec_pairs_hash_from(h: u64, pairs: Seq<(BlockId, u64)>, i: int) -> u64
    decreases pairs.len() - i,
{
    if i < 0 || i >= pairs.len() {
        h
    } else {
        spec_pairs_hash_from(
            fnv_from(fnv_from(h, spec_id_bytes(pairs[i].0)), u64_le(pairs[i].1)),
            pairs,
            i + 1,
        )
    }
}

/// A page's hash is fully determined by the ordered sequence of its
/// `(block_id, block_hash)` pairs.
pub open spec fn spec_page_hash(pairs: Seq<(BlockId, u64)>) -> u64 {
    spec_pairs_hash_from(FNV_OFFSET, pairs, 0)
}

/// The `(block_id, block_hash)` pairs of a block sequence, in order.
pub open spec fn spec_pairs_of(blocks: Seq<BlockPatch>) -> Seq<(BlockId, u64)> {
    blocks.map_values(|b: BlockPatch| (b.block_id, b.hash))
}

/// Recompute a page hash from `(block_id, block_hash)` pairs alone.
pub fn page_hash_of_pairs(pairs: &Vec<(BlockId, u64)>) -> (r: u64)
    ensures
        r == spec_page_hash(pairs@),
{
    let mut h: u64 = FNV_OFFSET;
    let n = pairs.len();
    for i in 0..n
        invariant
            n == pairs@.len(),
            spec_page_hash(pairs@) == spec_pairs_hash_from(h, pairs@, i as int),
    {
        let mut buf: Vec<u8> = Vec::new();
        append_id_bytes(&mut buf, pairs[i].0);
        h = fnv_extend(h, buf.as_slice());
        let mut buf2: Vec<u8> = Vec::new();
        append_u64_le(&mut buf2, pairs[i].1);
        h = fnv_extend(h, buf2.as_slice());
    }
    h
}

// ---------------------------------------------------------------------
// Partitioning a page into blocks.
// ---------------------------------------------------------------------

/// The blocks formed by the hard groups among `items[i..]`, where `k`
/// hard groups stand before item `i`.
pub open spec fn spec_hard_blocks_from(
    items: Seq<PlacedItem>,
    i: int,
    k: int,
    page_index: usize,
    src: Seq<u8>,
) -> Seq<BlockPatch>
    decreases items.len() - i,
{
    if i < 0 || i >= items.len() {
        Seq::empty()
    } else {
        match items[i].item {
            FrameItem::Group(g) => {
                if g.hard {
                    seq![
                        spec_block_from_group(
                            page_index,
                            k as usize,
                            items[i].x,
                            items[i].y,
                            g,
                            src,
                        ),
                    ] + spec_hard_blocks_from(items, i + 1, k + 1, page_index, src)
                } else {
                    spec_hard_blocks_from(items, i + 1, k, page_index, src)
                }
            },
            _ => spec_hard_blocks_from(items, i + 1, k, page_index, src),
        }
    }
}

/// All blocks of a page, in order: one block per hard group, then one
/// merged catch-all block if any other item exists.
pub open spec fn spec_blocks_of_page(page: PageModel, index: usize, src: Seq<u8>) -> Seq<
    BlockPatch,
> {
    let hard = spec_hard_blocks_from(page.items@, 0, 0, index, src);
    if spec_has_leftover(page.items@) {
        hard.push(spec_block_from_items(index, page, src))
    } else {
        hard
    }
}

/// Partition one page into its blocks; see [`spec_blocks_of_page`].
pub fn blocks_of_page(page: &PageModel, index: usize, source: &[u8]) -> (r: Vec<BlockPatch>)
    requires
        source@.len() < usize::MAX,
    ensures
        r@ == spec_blocks_of_page(*page, index, source@),
{
    let mut blocks: Vec<BlockPatch> = Vec::new();
    let mut block_index: usize = 0;
    let mut found_soft = false;
    let n = page.items.len();
    for i in 0..n
        invariant
            n == page.items@.len(),
            source@.len() < usize::MAX,
            block_index <= i,
            block_index == blocks@.len(),
            spec_hard_blocks_from(page.items@, 0, 0, index, source@) =~= blocks@
                + spec_hard_blocks_from(page.items@, i as int, block_index as int, index, source@),
            found_soft == exists|j: int|
                0 <= j < i && !spec_is_hard_group(#[trigger] page.items@[j].item),
    {
        let placed = &page.items[i];
        let mut is_hard = false;
        match &placed.item {
            FrameItem::Group(g) => {
                if g.hard {
                    is_hard = true;
                    let block = block_from_group(
                        index,
                        block_index,
                        placed.x,
                        placed.y,
                        g,
                        source,
                    );
                    blocks.push(block);
                    block_index = block_index + 1;
                }
            },
            _ => {},
        }
        if !is_hard {
            proof {
                assert(!spec_is_hard_group(page.items@[i as int].item));
            }
            found_soft = true;
        }
    }
    if found_soft {
        let extra = block_from_items(index, page, source);
        blocks.push(extra);
        proof {
            assert(spec_has_leftover(page.items@));
        }
    } else {
        proof {
            assert(!spec_has_leftover(page.items@));
        }
    }
    blocks
}

// ---------------------------------------------------------------------
// Diffing one page against its cached row.
// ---------------------------------------------------------------------

/// The blocks of `blocks[i..]` that are changed against the cached row:
/// a block is changed iff its id is absent from the row or its cached
/// hash differs from its current hash.
pub open spec fn spec_changed_from(
    blocks: Seq<BlockPatch>,
    row: Seq<(BlockId, u64)>,
    i: int,
) -> Seq<BlockPatch>
    decreases blocks.len() - i,
{
    if i < 0 || i >= blocks.len() {
        Seq::empty()
    } else {
        let rest = spec_changed_from(blocks, row, i + 1);
        if spec_row_get(row, blocks[i].block_id) == Some(blocks[i].hash) {
            rest
        } else {
            seq![blocks[i]] + rest
        }
    }
}

/// The freshly observed row after recording `blocks[i..]` on top of `acc`.
pub open spec fn spec_new_row_from(
    acc: Seq<(BlockId, u64)>,
    blocks: Seq<BlockPatch>,
    i: int,
) -> Seq<(BlockId, u64)>
    decreases blocks.len() - i,
{
    if i < 0 || i >= blocks.len() {
        acc
    } else {
        spec_new_row_from(spec_row_insert(acc, blocks[i].block_id, blocks[i].hash), blocks, i + 1)
    }
}

/// The freshly observed id -> hash row of a block sequence.
pub open spec fn spec_new_row(blocks: Seq<BlockPatch>) -> Seq<(BlockId, u64)> {
    spec_new_row_from(Seq::empty(), blocks, 0)
}

/// Cached ids of `old_row[j..]` that were not re-observed, in row order.
pub open spec fn spec_removed_from(
    old_row: Seq<(BlockId, u64)>,
    new_row: Seq<(BlockId, u64)>,
    j: int,
) -> Seq<BlockId>
    decreases old_row.len() - j,
{
    if j < 0 || j >= old_row.len() {
        Seq::empty()
    } else {
        let rest = spec_removed_from(old_row, new_row, j + 1);
        if row_has_key(new_row, old_row[j].0) {
            rest
        } else {
            seq![old_row[j].0] + rest
        }
    }
}

/// Does this page produce a patch: anything changed or removed?
pub open spec fn spec_emit(page: PageModel, index: usize, old_row: Seq<(BlockId, u64)>, src: Seq<
    u8,
>) -> bool {
    let blocks = spec_blocks_of_page(page, index, src);
    spec_changed_from(blocks, old_row, 0).len() > 0 || spec_removed_from(
        old_row,
        spec_new_row(blocks),
        0,
    ).len() > 0
}

/// The cache row a page holds after a compile: replaced by the freshly
/// observed row when a patch was emitted, untouched otherwise.
pub open spec fn spec_final_row(
    page: PageModel,
    index: usize,
    old_row: Seq<(BlockId, u64)>,
    src: Seq<u8>,
) -> Seq<(BlockId, u64)> {
    if spec_emit(page, index, old_row, src) {
        spec_new_row(spec_blocks_of_page(page, index, src))
    } else {
        old_row
    }
}

/// Does `p` report exactly the diff of this page against `old_row`?
pub open spec fn spec_patch_matches(
    p: PagePatch,
    page: PageModel,
    index: usize,
    old_row: Seq<(BlockId, u64)>,
    src: Seq<u8>,
) -> bool {
    let blocks = spec_blocks_of_page(page, index, src);
    &&& p.page_index == index
    &&& p.page_hash == spec_page_hash(spec_pairs_of(blocks))
    &&& p.page_size == PageSize { w: page.width, h: page.height }
    &&& p.blocks@ == spec_changed_from(blocks, old_row, 0)
    &&& p.removed_blocks@ == spec_removed_from(old_row, spec_new_row(blocks), 0)
}

/// Diff one page against its cached row.  Returns the patch and the
/// freshly observed row when anything changed or was removed, and in
/// every case the page's new combined hash.
pub fn diff_page(
    page: &PageModel,
    index: usize,
    old_row: &Vec<(BlockId, u64)>,
    source: &[u8],
) -> (r: (Option<(PagePatch, Vec<(BlockId, u64)>)>, u64))
    requires
        source@.len() < usize::MAX,
    ensures
        ({
            let blocks = spec_blocks_of_page(*page, index, source@);
            &&& r.1 == spec_page_hash(spec_pairs_of(blocks))
            &&& (r.0 is Some <==> spec_emit(*page, index, old_row@, source@))
            &&& (r.0 is Some ==> {
                &&& spec_patch_matches(r.0->Some_0.0, *page, index, old_row@, source@)
                &&& r.0->Some_0.1@ == spec_new_row(blocks)
                &&& row_keys_unique(r.0->Some_0.1@)
            })
        }),
{
    let mut blocks = blocks_of_page(page, index, source);
    let ghost blocks0 = blocks@;
    let n = blocks.len();
    let mut current: Vec<(BlockId, u64)> = Vec::new();
    let mut changed_v: Vec<BlockPatch> = Vec::new();
    let mut h: u64 = FNV_OFFSET;
    for i in 0..n
        invariant
            n == blocks0.len(),
            blocks@ =~= blocks0.subrange(i as int, n as int),
            spec_new_row(blocks0) == spec_new_row_from(current@, blocks0, i as int),
            row_keys_unique(current@),
            spec_changed_from(blocks0, old_row@, 0) =~= changed_v@ + spec_changed_from(
                blocks0,
                old_row@,
                i as int,
            ),
            spec_page_hash(spec_pairs_of(blocks0)) == spec_pairs_hash_from(
                h,
                spec_pairs_of(blocks0),
                i as int,
            ),
    {
        proof {
            assert(blocks@[0] == blocks0[i as int]);
            let ghost bi = blocks0[i as int];
            assert(spec_pairs_of(blocks0)[i as int] == (bi.block_id, bi.hash));
        }
        let b = blocks.remove(0);
        let mut buf: Vec<u8> = Vec::new();
        append_id_bytes(&mut buf, b.block_id);
        h = fnv_extend(h, buf.as_slice());
        let mut buf2: Vec<u8> = Vec::new();
        append_u64_le(&mut buf2, b.hash);
        h = fnv_extend(h, buf2.as_slice());
        let cached = row_get(old_row, b.block_id);
        let is_changed = match cached {
            Some(ch) => ch != b.hash,
            None => true,
        };
        proof {
            lemma_row_insert_unique(current@, b.block_id, b.hash);
        }
        row_insert(&mut current, b.block_id, b.hash);
        if is_changed {
            proof {
                assert(seq![blocks0[i as int]] + spec_changed_from(blocks0, old_row@, i + 1)
                    =~= seq![blocks0[i as int]].add(spec_changed_from(blocks0, old_row@, i + 1)));
                assert(changed_v@ + (seq![blocks0[i as int]] + spec_changed_from(
                    blocks0,
                    old_row@,
                    i + 1,
                )) =~= changed_v@.push(blocks0[i as int]) + spec_changed_from(
                    blocks0,
                    old_row@,
                    i + 1,
                ));
            }
            changed_v.push(b);
        }
        proof {
            assert(blocks0.subrange(i as int, n as int).remove(0) =~= blocks0.subrange(
                i + 1,
                n as int,
            ));
        }
    }
    let ghost nr = current@;
    let mut removed_v: Vec<BlockId> = Vec::new();
    let m = old_row.len();
    for j in 0..m
        invariant
            m == old_row@.len(),
            current@ == nr,
            spec_removed_from(old_row@, nr, 0) =~= removed_v@ + spec_removed_from(
                old_row@,
                nr,
                j as int,
            ),
    {
        let id = old_row[j].0;
        let found = row_get(&current, id);
        if found.is_none() {
            proof {
                assert(removed_v@ + (seq![old_row@[j as int].0] + spec_removed_from(
                    old_row@,
                    nr,
                    j + 1,
                )) =~= removed_v@.push(old_row@[j as int].0) + spec_removed_from(
                    old_row@,
                    nr,
                    j + 1,
                ));
            }
            removed_v.push(id);
        }
    }
    if changed_v.len() == 0 && removed_v.len() == 0 {
        (None, h)
    } else {
        let size = crate::frame::page_size(page);
        let patch = PagePatch {
            page_index: index,
            page_hash: h,
            page_size: size,
            blocks: changed_v,
            removed_blocks: removed_v,
        };
        (Some((patch, current)), h)
    }
}

// ---------------------------------------------------------------------
// The whole-document diff against the session cache.
// ---------------------------------------------------------------------

/// Per-document diff state: for every page of the last diffed compile,
/// its combined hash and its block id -> hash row.  Replaced wholesale
/// on every successful diff; sized to the current page count.
pub struct DiffCache {
    pub page_hashes: Vec<u64>,
    pub page_blocks: Vec<Vec<(BlockId, u64)>>,
}

/// The rows of the cache, as sequences.
pub open spec fn cache_rows(c: DiffCache) -> Seq<Seq<(BlockId, u64)>> {
    c.page_blocks@.map_values(|v: Vec<(BlockId, u64)>| v@)
}

/// One hash and one row per page, every row with unique keys.
pub open spec fn spec_cache_wf(c: DiffCache) -> bool {
    &&& c.page_hashes@.len() == c.page_blocks@.len()
    &&& forall|i: int|
        0 <= i < c.page_blocks@.len() ==> row_keys_unique(#[trigger] cache_rows(c)[i])
}

/// The cached row for page `i`: empty where the cache has no row yet.
pub open spec fn spec_row_at(rows: Seq<Seq<(BlockId, u64)>>, i: int) -> Seq<(BlockId, u64)> {
    if 0 <= i < rows.len() {
        rows[i]
    } else {
        Seq::empty()
    }
}

/// The indices of the pages in `doc[i..]` that emit a patch against the
/// given cache rows, in page order.
pub open spec fn spec_emits(
    doc: Seq<PageModel>,
    rows: Seq<Seq<(BlockId, u64)>>,
    src: Seq<u8>,
    i: int,
) -> Seq<int>
    decreases doc.len() - i,
{
    if i < 0 || i >= doc.len() {
        Seq::empty()
    } else {
        let rest = spec_emits(doc, rows, src, i + 1);
        if spec_emit(doc[i], i as usize, spec_row_at(rows, i), src) {
            seq![i] + rest
        } else {
            rest
        }
    }
}

impl DiffCache {
    /// A fresh cache with no pages.
    pub fn new() -> (c: DiffCache)
        ensures
            c.page_hashes@.len() == 0,
            c.page_blocks@.len() == 0,
            spec_cache_wf(c),
    {
        DiffCache { page_hashes: Vec::new(), page_blocks: Vec::new() }
    }
}

/// Diff a freshly compiled document against the cache and replace the
/// cache with what was just observed.
///
/// Returns the patches of the pages with changed or removed blocks, in
/// page order, and the total page count.  The cache is resized to the
/// new page count: rows beyond it are dropped, missing rows are treated
/// as empty; every page's hash is refreshed, and a page's row is
/// replaced exactly when its patch is emitted.
pub fn build_patch_internal(doc: &Vec<PageModel>, content: &str, cache: &mut DiffCache) -> (r: (
    Vec<PagePatch>,
    usize,
))
    requires
        spec_cache_wf(*old(cache)),
        content.spec_bytes().len() < usize::MAX,
    ensures
        ({
            let src = content.spec_bytes();
            let rows0 = cache_rows(*old(cache));
            let n = doc@.len();
            let em = spec_emits(doc@, rows0, src, 0);
            &&& r.1 == n
            &&& spec_cache_wf(*final(cache))
            &&& final(cache).page_hashes@.len() == n
            &&& cache_rows(*final(cache)).len() == n
            &&& forall|i: int|
                0 <= i < n ==> final(cache).page_hashes@[i] == spec_page_hash(
                    spec_pairs_of(spec_blocks_of_page(#[trigger] doc@[i], i as usize, src)),
                )
            &&& forall|i: int|
                0 <= i < n ==> cache_rows(*final(cache))[i] == spec_final_row(
                    #[trigger] doc@[i],
                    i as usize,
                    spec_row_at(rows0, i),
                    src,
                )
            &&& r.0@.len() == em.len()
            &&& forall|k: int|
                0 <= k < em.len() ==> spec_patch_matches(
                    #[trigger] r.0@[k],
                    doc@[em[k]],
                    em[k] as usize,
                    spec_row_at(rows0, em[k]),
                    src,
                )
        }),
{
    let src = content.as_bytes();
    let total = doc.len();
    let ghost rows0 = cache_rows(*old(cache));
    let mut new_hashes: Vec<u64> = Vec::new();
    let mut new_rows: Vec<Vec<(BlockId, u64)>> = Vec::new();
    let mut patches: Vec<PagePatch> = Vec::new();
    let ghost mut emitted: Seq<int> = Seq::empty();
    for i in 0..total
        invariant
            total == doc@.len(),
            src@ == content.spec_bytes(),
            src@.len() < usize::MAX,
            cache.page_blocks@.len() == if rows0.len() >= i as int {
                rows0.len() - i as int
            } else {
                0
            },
            forall|k: int|
                0 <= k < cache.page_blocks@.len() ==> #[trigger] cache.page_blocks@[k]@ == rows0[k
                    + i] && row_keys_unique(cache.page_blocks@[k]@),
            new_hashes@.len() == i,
            new_rows@.len() == i,
            forall|k: int|
                0 <= k < i ==> new_hashes@[k] == spec_page_hash(
                    spec_pairs_of(spec_blocks_of_page(#[trigger] doc@[k], k as usize, src@)),
                ),
            forall|k: int|
                0 <= k < i ==> #[trigger] new_rows@[k]@ == spec_final_row(
                    doc@[k],
                    k as usize,
                    spec_row_at(rows0, k),
                    src@,
                ) && row_keys_unique(new_rows@[k]@),
            patches@.len() == emitted.len(),
            spec_emits(doc@, rows0, src@, 0) =~= emitted + spec_emits(doc@, rows0, src@, i as int),
            forall|k: int|
                0 <= k < emitted.len() ==> 0 <= #[trigger] emitted[k] < i && spec_patch_matches(
                    patches@[k],
                    doc@[emitted[k]],
                    emitted[k] as usize,
                    spec_row_at(rows0, emitted[k]),
                    src@,
                ),
    {
        let row_i: Vec<(BlockId, u64)> = if cache.page_blocks.len() > 0 {
            cache.page_blocks.remove(0)
        } else {
            Vec::new()
        };
        proof {
            assert(row_i@ == spec_row_at(rows0, i as int));
        }
        let (opt, ph) = diff_page(&doc[i], i, &row_i, src);
        new_hashes.push(ph);
        match opt {
            Some(pr) => {
                let (patch, nr) = pr;
                proof {
                    assert(seq![i as int] + spec_emits(doc@, rows0, src@, i + 1) =~= seq![
                        i as int,
                    ].add(spec_emits(doc@, rows0, src@, i + 1)));
                    assert(emitted + (seq![i as int] + spec_emits(doc@, rows0, src@, i + 1))
                        =~= emitted.push(i as int) + spec_emits(doc@, rows0, src@, i + 1));
                    emitted = emitted.push(i as int);
                }
                patches.push(patch);
                new_rows.push(nr);
            },
            None => {
                new_rows.push(row_i);
            },
        }
    }
    cache.page_hashes = new_hashes;
    cache.page_blocks = new_rows;
    proof {
        assert(forall|i: int|
            0 <= i < total ==> cache_rows(*cache)[i] == #[trigger] cache.page_blocks@[i]@);
    }
    (patches, total)
}

/// Diff a compiled document against the cache; the patches alone.
pub fn build_patch(doc: &Vec<PageModel>, content: &str, cache: &mut DiffCache) -> (r: Vec<
    PagePatch,
>)
    requires
        spec_cache_wf(*old(cache)),
        content.spec_bytes().len() < usize::MAX,
    ensures
        ({
            let src = content.spec_bytes();
            let rows0 = cache_rows(*old(cache));
            let em = spec_emits(doc@, rows0, src, 0);
            &&& spec_cache_wf(*final(cache))
            &&& r@.len() == em.len()
            &&& forall|k: int|
                0 <= k < em.len() ==> spec_patch_matches(
                    #[trigger] r@[k],
                    doc@[em[k]],
                    em[k] as usize,
                    spec_row_at(rows0, em[k]),
                    src,
                )
        }),
{
    let (patches, _total) = build_patch_internal(doc, content, cache);
    patches
}

// ---------------------------------------------------------------------
// Laws of the diff engine.
// ---------------------------------------------------------------------

/// No two blocks of the sequence share an id.
pub open spec fn spec_blocks_distinct(blocks: Seq<BlockPatch>) -> bool {
    forall|j: int, k: int|
        0 <= j < k < blocks.len() ==> (#[trigger] blocks[j]).block_id != (
        #[trigger] blocks[k]).block_id
}

/// First index at or after `i` whose block has id `q`, or `blocks.len()`.
pub open spec fn spec_blocks_find(blocks: Seq<BlockPatch>, q: BlockId, i: int) -> int
    decreases blocks.len() - i,
{
    if i < 0 || i >= blocks.len() {
        blocks.len() as int
    } else if blocks[i].block_id == q {
        i
    } else {
        spec_blocks_find(blocks, q, i + 1)
    }
}

proof fn lemma_blocks_find(blocks: Seq<BlockPatch>, q: BlockId, i: int)
    requires
        0 <= i <= blocks.len(),
    ensures
        i <= spec_blocks_find(blocks, q, i) <= blocks.len(),
        spec_blocks_find(blocks, q, i) < blocks.len() ==> blocks[spec_blocks_find(
            blocks,
            q,
            i,
        )].block_id == q,
        forall|j: int|
            i <= j < spec_blocks_find(blocks, q, i) ==> (#[trigger] blocks[j]).block_id != q,
    decreases blocks.len() - i,
{
    if i < blocks.len() && blocks[i].block_id != q {
        lemma_blocks_find(blocks, q, i + 1);
    }
}

/// What the freshly observed row answers for any id: the hash of the
/// block that carries it, else whatever the accumulator answered.
proof fn lemma_new_row_from_get(
    acc: Seq<(BlockId, u64)>,
    blocks: Seq<BlockPatch>,
    i: int,
    q: BlockId,
)
    requires
        0 <= i <= blocks.len(),
        spec_blocks_distinct(blocks),
    ensures
        ({
            let f = spec_blocks_find(blocks, q, i);
            spec_row_get(spec_new_row_from(acc, blocks, i), q) == if f < blocks.len() {
                Some(blocks[f].hash)
            } else {
                spec_row_get(acc, q)
            }
        }),
    decreases blocks.len() - i,
{
    if i < blocks.len() {
        let acc2 = spec_row_insert(acc, blocks[i].block_id, blocks[i].hash);
        lemma_new_row_from_get(acc2, blocks, i + 1, q);
        lemma_row_insert_get(acc, blocks[i].block_id, blocks[i].hash, q);
        if blocks[i].block_id == q {
            lemma_blocks_find(blocks, q, i + 1);
            assert(spec_blocks_find(blocks, q, i + 1) == blocks.len());
        }
    }
}

/// Every block of a distinct-id sequence is answered by the fresh row
/// with its own hash.
pub proof fn lemma_new_row_get(blocks: Seq<BlockPatch>, j: int)
    requires
        spec_blocks_distinct(blocks),
        0 <= j < blocks.len(),
    ensures
        spec_row_get(spec_new_row(blocks), blocks[j].block_id) == Some(blocks[j].hash),
{
    lemma_new_row_from_get(Seq::empty(), blocks, 0, blocks[j].block_id);
    lemma_blocks_find(blocks, blocks[j].block_id, 0);
    let f = spec_blocks_find(blocks, blocks[j].block_id, 0);
    if f != j {
        assert(blocks[f].block_id != blocks[j].block_id);
    }
}

proof fn lemma_changed_empty(blocks: Seq<BlockPatch>, row: Seq<(BlockId, u64)>, i: int)
    requires
        0 <= i <= blocks.len(),
        forall|j: int|
            i <= j < blocks.len() ==> spec_row_get(row, (#[trigger] blocks[j]).block_id) == Some(
                blocks[j].hash,
            ),
    ensures
        spec_changed_from(blocks, row, i).len() == 0,
    decreases blocks.len() - i,
{
    if i < blocks.len() {
        lemma_changed_empty(blocks, row, i + 1);
    }
}

proof fn lemma_removed_empty(old_row: Seq<(BlockId, u64)>, new_row: Seq<(BlockId, u64)>, j: int)
    requires
        0 <= j <= old_row.len(),
        forall|jj: int|
            j <= jj < old_row.len() ==> row_has_key(new_row, (#[trigger] old_row[jj]).0),
    ensures
        spec_removed_from(old_row, new_row, j).len() == 0,
    decreases old_row.len() - j,
{
    if j < old_row.len() {
        lemma_removed_empty(old_row, new_row, j + 1);
    }
}

/// Idempotence, one page: the row a compile leaves behind makes the
/// same compile emit nothing.  Requires the page's blocks to carry
/// pairwise distinct ids; two blocks sharing a span id with different
/// artifacts defeat the cache and are reported again.
pub proof fn lemma_page_recompile_emits_nothing(
    page: PageModel,
    index: usize,
    old_row: Seq<(BlockId, u64)>,
    src: Seq<u8>,
)
    requires
        spec_blocks_distinct(spec_blocks_of_page(page, index, src)),
    ensures
        !spec_emit(page, index, spec_final_row(page, index, old_row, src), src),
{
    let blocks = spec_blocks_of_page(page, index, src);
    let row1 = spec_final_row(page, index, old_row, src);
    if spec_emit(page, index, old_row, src) {
        assert(row1 == spec_new_row(blocks));
        assert forall|j: int| 0 <= j < blocks.len() implies spec_row_get(
            row1,
            (#[trigger] blocks[j]).block_id,
        ) == Some(blocks[j].hash) by {
            lemma_new_row_get(blocks, j);
        }
        lemma_changed_empty(blocks, row1, 0);
        assert forall|jj: int| 0 <= jj < row1.len() implies row_has_key(
            spec_new_row(blocks),
            (#[trigger] row1[jj]).0,
        ) by {
            lemma_row_get_present(row1, jj);
        }
        lemma_removed_empty(row1, spec_new_row(blocks), 0);
    }
}

proof fn lemma_emits_from_empty(
    doc: Seq<PageModel>,
    rows1: Seq<Seq<(BlockId, u64)>>,
    src: Seq<u8>,
    i: int,
)
    requires
        0 <= i <= doc.len(),
        forall|j: int|
            0 <= j < doc.len() ==> !spec_emit(
                #[trigger] doc[j],
                j as usize,
                spec_row_at(rows1, j),
                src,
            ),
    ensures
        spec_emits(doc, rows1, src, i).len() == 0,
    decreases doc.len() - i,
{
    if i < doc.len() {
        lemma_emits_from_empty(doc, rows1, src, i + 1);
    }
}

/// Idempotence: compiling unchanged content twice produces an empty
/// patch list the second time.  `rows1` is the cache state after the
/// first compile of `doc` against any prior cache `rows0`; the second
/// compile of the same `doc` against `rows1` emits no patch.  Requires
/// each page's blocks to carry pairwise distinct ids.
pub proof fn lemma_recompile_unchanged_is_empty(
    doc: Seq<PageModel>,
    rows0: Seq<Seq<(BlockId, u64)>>,
    rows1: Seq<Seq<(BlockId, u64)>>,
    src: Seq<u8>,
)
    requires
        rows1.len() == doc.len(),
        forall|i: int|
            0 <= i < doc.len() ==> rows1[i] == spec_final_row(
                #[trigger] doc[i],
                i as usize,
                spec_row_at(rows0, i),
                src,
            ),
        forall|i: int|
            0 <= i < doc.len() ==> spec_blocks_distinct(
                spec_blocks_of_page(#[trigger] doc[i], i as usize, src),
            ),
    ensures
        spec_emits(doc, rows1, src, 0).len() == 0,
{
    assert forall|j: int| 0 <= j < doc.len() implies !spec_emit(
        #[trigger] doc[j],
        j as usize,
        spec_row_at(rows1, j),
        src,
    ) by {
        lemma_page_recompile_emits_nothing(doc[j], j as usize, spec_row_at(rows0, j), src);
    }
    lemma_emits_from_empty(doc, rows1, src, 0);
}

/// Id stability: a block's id and hash depend only on its first source
/// span and its rendered bytes.  Two hard groups with the same first
/// span and the same artifact yield the same id and the same hash, at
/// any position and whatever the rest of their content.
pub proof fn lemma_block_id_stability(
    page_index: usize,
    fallback_index: usize,
    x1: i64,
    y1: i64,
    x2: i64,
    y2: i64,
    g1: crate::frame::GroupItem,
    g2: crate::frame::GroupItem,
    src1: Seq<u8>,
    src2: Seq<u8>,
)
    requires
        crate::frame::spec_frame_first_span(g1.frame) == crate::frame::spec_frame_first_span(
            g2.frame,
        ),
        g1.artifact@ == g2.artifact@,
    ensures
        spec_block_from_group(page_index, fallback_index, x1, y1, g1, src1).block_id
            == spec_block_from_group(page_index, fallback_index, x2, y2, g2, src2).block_id,
        spec_block_from_group(page_index, fallback_index, x1, y1, g1, src1).hash
            == spec_block_from_group(page_index, fallback_index, x2, y2, g2, src2).hash,
{
}

/// Id stability for the merged leftover block: its id and hash depend
/// only on the first span among the page's non-hard items and on the
/// merged rendering's bytes.
pub proof fn lemma_leftover_id_stability(
    page_index: usize,
    p1: PageModel,
    p2: PageModel,
    src1: Seq<u8>,
    src2: Seq<u8>,
)
    requires
        crate::frame::spec_soft_first_span(p1.items@, 0) == crate::frame::spec_soft_first_span(
            p2.items@,
            0,
        ),
        p1.leftover_artifact@ == p2.leftover_artifact@,
    ensures
        spec_block_from_items(page_index, p1, src1).block_id == spec_block_from_items(
            page_index,
            p2,
            src2,
        ).block_id,
        spec_block_from_items(page_index, p1, src1).hash == spec_block_from_items(
            page_index,
            p2,
            src2,
        ).hash,
{
}

/// Is this block stale against the cached row: id absent, or cached
/// hash different?
pub open spec fn spec_block_stale(row: Seq<(BlockId, u64)>, b: BlockPatch) -> bool {
    !(spec_row_get(row, b.block_id) == Some(b.hash))
}

proof fn lemma_changed_membership_from(blocks: Seq<BlockPatch>, row: Seq<(BlockId, u64)>, i: int)
    requires
        0 <= i <= blocks.len(),
    ensures
        forall|b: BlockPatch|
            #[trigger] spec_changed_from(blocks, row, i).contains(b) <==> ((exists|j: int|
                i <= j < blocks.len() && #[trigger] blocks[j] == b) && spec_block_stale(row, b)),
    decreases blocks.len() - i,
{
    if i < blocks.len() {
        lemma_changed_membership_from(blocks, row, i + 1);
        let changed = spec_changed_from(blocks, row, i);
        let rest = spec_changed_from(blocks, row, i + 1);
        if spec_block_stale(row, blocks[i]) {
            assert(changed == seq![blocks[i]] + rest);
            assert forall|b: BlockPatch| changed.contains(b) implies ((exists|j: int|
                i <= j < blocks.len() && #[trigger] blocks[j] == b) && spec_block_stale(
                row,
                b,
            )) by {
                let w = choose|w: int| 0 <= w < changed.len() && changed[w] == b;
                if w == 0 {
                    assert(blocks[i] == b);
                } else {
                    assert(rest[w - 1] == b);
                    assert(rest.contains(b));
                }
            }
            assert forall|b: BlockPatch|
                ((exists|j: int| i <= j < blocks.len() && #[trigger] blocks[j] == b)
                    && spec_block_stale(row, b)) implies changed.contains(b) by {
                let j = choose|j: int| i <= j < blocks.len() && #[trigger] blocks[j] == b;
                if j == i {
                    assert(changed[0] == b);
                } else {
                    assert(rest.contains(b));
                    let w = choose|w: int| 0 <= w < rest.len() && rest[w] == b;
                    assert(changed[w + 1] == b);
                }
            }
        } else {
            assert forall|b: BlockPatch|
                ((exists|j: int| i <= j < blocks.len() && #[trigger] blocks[j] == b)
                    && spec_block_stale(row, b)) implies changed.contains(b) by {
                let j = choose|j: int| i <= j < blocks.len() && #[trigger] blocks[j] == b;
                assert(j != i);
            }
        }
    }
}

/// Membership of the changed list: a block value is reported changed
/// exactly when it is one of the page's blocks and its id is absent
/// from the prior row or cached with a different hash.
pub proof fn lemma_changed_membership(blocks: Seq<BlockPatch>, row: Seq<(BlockId, u64)>)
    ensures
        forall|b: BlockPatch|
            spec_changed_from(blocks, row, 0).contains(b) <==> (blocks.contains(b)
                && spec_block_stale(row, b)),
{
    lemma_changed_membership_from(blocks, row, 0);
    assert forall|b: BlockPatch|
        spec_changed_from(blocks, row, 0).contains(b) <==> (blocks.contains(b)
            && spec_block_stale(row, b)) by {
        assert(spec_changed_from(blocks, row, 0).contains(b) <==> ((exists|j: int|
            0 <= j < blocks.len() && #[trigger] blocks[j] == b) && spec_block_stale(row, b)));
        if exists|j: int| 0 <= j < blocks.len() && #[trigger] blocks[j] == b {
            let j = choose|j: int| 0 <= j < blocks.len() && #[trigger] blocks[j] == b;
            assert(blocks[j] == b);
            assert(blocks.contains(b));
        }
        if blocks.contains(b) {
            let j = choose|j: int| 0 <= j < blocks.len() && blocks[j] == b;
            assert(0 <= j < blocks.len() && #[trigger] blocks[j] == b);
        }
    }
}

/// First compile of a page: against an empty prior row, a page with
/// any block at all emits a patch whose changed list is all of its
/// blocks and whose removed list is empty.
pub proof fn lemma_first_compile_emits(page: PageModel, index: usize, src: Seq<u8>)
    requires
        spec_blocks_of_page(page, index, src).len() > 0,
    ensures
        spec_emit(page, index, Seq::empty(), src),
        spec_changed_from(spec_blocks_of_page(page, index, src), Seq::empty(), 0)
            =~= spec_blocks_of_page(page, index, src),
        spec_removed_from(
            Seq::empty(),
            spec_new_row(spec_blocks_of_page(page, index, src)),
            0,
        ) == Seq::<BlockId>::empty(),
{
    let blocks = spec_blocks_of_page(page, index, src);
    lemma_first_compile_reports_all(blocks, 0);
    assert(blocks.subrange(0, blocks.len() as int) =~= blocks);
}

/// The emitted page indices: membership is exactly the emit decision,
/// and the list is strictly increasing.
pub proof fn lemma_emits_membership(
    doc: Seq<PageModel>,
    rows: Seq<Seq<(BlockId, u64)>>,
    src: Seq<u8>,
    i: int,
)
    requires
        0 <= i <= doc.len(),
    ensures
        forall|idx: int|
            spec_emits(doc, rows, src, i).contains(idx) <==> (i <= idx < doc.len() && spec_emit(
                doc[idx],
                idx as usize,
                spec_row_at(rows, idx),
                src,
            )),
        forall|a: int, b: int|
            0 <= a < b < spec_emits(doc, rows, src, i).len() ==> spec_emits(doc, rows, src, i)[a]
                < spec_emits(doc, rows, src, i)[b],
    decreases doc.len() - i,
{
    if i < doc.len() {
        lemma_emits_membership(doc, rows, src, i + 1);
        let em = spec_emits(doc, rows, src, i);
        let rest = spec_emits(doc, rows, src, i + 1);
        if spec_emit(doc[i], i as usize, spec_row_at(rows, i), src) {
            assert(em == seq![i] + rest);
            assert forall|idx: int| em.contains(idx) implies (i <= idx < doc.len() && spec_emit(
                doc[idx],
                idx as usize,
                spec_row_at(rows, idx),
                src,
            )) by {
                let w = choose|w: int| 0 <= w < em.len() && em[w] == idx;
                if w > 0 {
                    assert(rest[w - 1] == idx);
                    assert(rest.contains(idx));
                }
            }
            assert forall|idx: int|
                (i <= idx < doc.len() && spec_emit(
                    doc[idx],
                    idx as usize,
                    spec_row_at(rows, idx),
                    src,
                )) implies em.contains(idx) by {
                if idx == i {
                    assert(em[0] == i);
                } else {
                    assert(rest.contains(idx));
                    let w = choose|w: int| 0 <= w < rest.len() && rest[w] == idx;
                    assert(em[w + 1] == idx);
                }
            }
            assert forall|a: int, b: int| 0 <= a < b < em.len() implies em[a] < em[b] by {
                if a == 0 {
                    assert(rest[b - 1] == em[b]);
                    assert(rest.contains(em[b]));
                } else {
                    assert(rest[a - 1] == em[a]);
                    assert(rest[b - 1] == em[b]);
                }
            }
        } else {
            assert forall|idx: int|
                (i <= idx < doc.len() && spec_emit(
                    doc[idx],
                    idx as usize,
                    spec_row_at(rows, idx),
                    src,
                )) implies em.contains(idx) by {
                assert(idx != i);
            }
        }
    }
}

/// An edit confined to one page re-patches at most that page: when the
/// cache rows come from a compile of the prior document, and every
/// page but `k` yields the same blocks as before, the second compile
/// emits no patch for any page but `k` — at most one patch in all.
pub proof fn lemma_edit_confined_to_one_page(
    doc1: Seq<PageModel>,
    doc2: Seq<PageModel>,
    rows0: Seq<Seq<(BlockId, u64)>>,
    rows1: Seq<Seq<(BlockId, u64)>>,
    src1: Seq<u8>,
    src2: Seq<u8>,
    k: int,
)
    requires
        doc2.len() == doc1.len(),
        rows1.len() == doc1.len(),
        forall|i: int|
            0 <= i < doc1.len() ==> rows1[i] == spec_final_row(
                #[trigger] doc1[i],
                i as usize,
                spec_row_at(rows0, i),
                src1,
            ),
        forall|i: int|
            0 <= i < doc1.len() && i != k ==> spec_blocks_of_page(#[trigger] doc2[i], i as usize, src2)
                == spec_blocks_of_page(doc1[i], i as usize, src1),
        forall|i: int|
            0 <= i < doc1.len() ==> spec_blocks_distinct(
                spec_blocks_of_page(#[trigger] doc1[i], i as usize, src1),
            ),
    ensures
        forall|idx: int| spec_emits(doc2, rows1, src2, 0).contains(idx) ==> idx == k,
        spec_emits(doc2, rows1, src2, 0).len() <= 1,
{
    assert forall|i: int| 0 <= i < doc2.len() && i != k implies !spec_emit(
        #[trigger] doc2[i],
        i as usize,
        spec_row_at(rows1, i),
        src2,
    ) by {
        lemma_page_recompile_emits_nothing(doc1[i], i as usize, spec_row_at(rows0, i), src1);
        assert(spec_blocks_of_page(doc2[i], i as usize, src2) == spec_blocks_of_page(
            doc1[i],
            i as usize,
            src1,
        ));
    }
    lemma_emits_membership(doc2, rows1, src2, 0);
    let em = spec_emits(doc2, rows1, src2, 0);
    if em.len() > 1 {
        assert(em.contains(em[0]));
        assert(em.contains(em[1]));
        assert(em[0] < em[1]);
    }
}

/// Id stability, reporting side: a block whose id is cached with its
/// current hash never appears among the changed blocks.
pub proof fn lemma_unchanged_block_not_reported(
    blocks: Seq<BlockPatch>,
    row: Seq<(BlockId, u64)>,
    id: BlockId,
    h: u64,
    i: int,
)
    requires
        0 <= i <= blocks.len(),
        spec_row_get(row, id) == Some(h),
    ensures
        forall|k: int|
            0 <= k < spec_changed_from(blocks, row, i).len() ==> !((#[trigger] spec_changed_from(
                blocks,
                row,
                i,
            )[k]).block_id == id && spec_changed_from(blocks, row, i)[k].hash == h),
    decreases blocks.len() - i,
{
    if i < blocks.len() {
        lemma_unchanged_block_not_reported(blocks, row, id, h, i + 1);
    }
}

/// On an empty prior row every block is changed: the patch reports all
/// blocks of the page.
pub proof fn lemma_first_compile_reports_all(blocks: Seq<BlockPatch>, i: int)
    requires
        0 <= i <= blocks.len(),
    ensures
        spec_changed_from(blocks, Seq::empty(), i) =~= blocks.subrange(i, blocks.len() as int),
    decreases blocks.len() - i,
{
    if i < blocks.len() {
        lemma_first_compile_reports_all(blocks, i + 1);
        assert(seq![blocks[i]] + blocks.subrange(i + 1, blocks.len() as int) =~= blocks.subrange(
            i,
            blocks.len() as int,
        ));
    }
}

/// Hash consistency: for a patch diffed against an empty prior row —
/// a first compile — the reported page hash is the combined hash of
/// exactly the reported `(block_id, block_hash)` pairs.
pub proof fn lemma_page_hash_consistency(
    p: PagePatch,
    page: PageModel,
    index: usize,
    src: Seq<u8>,
)
    requires
        spec_patch_matches(p, page, index, Seq::empty(), src),
    ensures
        p.page_hash == spec_page_hash(spec_pairs_of(p.blocks@)),
{
    let blocks = spec_blocks_of_page(page, index, src);
    lemma_first_compile_reports_all(blocks, 0);
    assert(blocks.subrange(0, blocks.len() as int) =~= blocks);
}

proof fn lemma_removed_from_props(
    old_row: Seq<(BlockId, u64)>,
    new_row: Seq<(BlockId, u64)>,
    j: int,
)
    requires
        0 <= j <= old_row.len(),
        row_keys_unique(old_row),
    ensures
        ({
            let removed = spec_removed_from(old_row, new_row, j);
            &&& forall|id: BlockId|
                removed.contains(id) <==> ((exists|jj: int|
                    j <= jj < old_row.len() && (#[trigger] old_row[jj]).0 == id) && !row_has_key(
                    new_row,
                    id,
                ))
            &&& forall|a: int, b: int| 0 <= a < b < removed.len() ==> removed[a] != removed[b]
        }),
    decreases old_row.len() - j,
{
    if j < old_row.len() {
        lemma_removed_from_props(old_row, new_row, j + 1);
        let removed = spec_removed_from(old_row, new_row, j);
        let rest = spec_removed_from(old_row, new_row, j + 1);
        if row_has_key(new_row, old_row[j].0) {
            assert forall|id: BlockId| removed.contains(id) implies ((exists|jj: int|
                j <= jj < old_row.len() && (#[trigger] old_row[jj]).0 == id) && !row_has_key(
                new_row,
                id,
            )) by {}
            assert forall|id: BlockId|
                ((exists|jj: int| j <= jj < old_row.len() && (#[trigger] old_row[jj]).0 == id)
                    && !row_has_key(new_row, id)) implies removed.contains(id) by {
                let jj = choose|jj: int|
                    j <= jj < old_row.len() && (#[trigger] old_row[jj]).0 == id;
                assert(jj != j);
            }
        } else {
            assert(removed == seq![old_row[j].0] + rest);
            assert forall|id: BlockId| removed.contains(id) implies ((exists|jj: int|
                j <= jj < old_row.len() && (#[trigger] old_row[jj]).0 == id) && !row_has_key(
                new_row,
                id,
            )) by {
                let k = choose|k: int| 0 <= k < removed.len() && removed[k] == id;
                if k == 0 {
                    assert(old_row[j].0 == id);
                } else {
                    assert(rest[k - 1] == id);
                    assert(rest.contains(id));
                }
            }
            assert forall|id: BlockId|
                ((exists|jj: int| j <= jj < old_row.len() && (#[trigger] old_row[jj]).0 == id)
                    && !row_has_key(new_row, id)) implies removed.contains(id) by {
                let jj = choose|jj: int|
                    j <= jj < old_row.len() && (#[trigger] old_row[jj]).0 == id;
                if jj == j {
                    assert(removed[0] == id);
                } else {
                    assert(rest.contains(id));
                    let k = choose|k: int| 0 <= k < rest.len() && rest[k] == id;
                    assert(removed[k + 1] == id);
                }
            }
            assert forall|a: int, b: int| 0 <= a < b < removed.len() implies removed[a]
                != removed[b] by {
                if a == 0 {
                    assert(rest[b - 1] == removed[b]);
                    assert(rest.contains(removed[b]));
                    // removed[b] names some old_row entry past j, whose key
                    // differs from old_row[j].0 by uniqueness
                    let jj = choose|jj: int|
                        j + 1 <= jj < old_row.len() && (#[trigger] old_row[jj]).0 == removed[b];
                } else {
                    assert(rest[a - 1] == removed[a]);
                    assert(rest[b - 1] == removed[b]);
                }
            }
        }
    }
}

/// Removal correctness: a block id present in the prior row and absent
/// from the freshly observed row appears exactly once in the removed
/// list — it is listed, and the list has no duplicates.
pub proof fn lemma_removed_exactly_once(old_row: Seq<(BlockId, u64)>, new_row: Seq<
    (BlockId, u64),
>)
    requires
        row_keys_unique(old_row),
    ensures
        ({
            let removed = spec_removed_from(old_row, new_row, 0);
            &&& forall|id: BlockId|
                removed.contains(id) <==> (row_has_key(old_row, id) && !row_has_key(new_row, id))
            &&& forall|a: int, b: int| 0 <= a < b < removed.len() ==> removed[a] != removed[b]
        }),
{
    lemma_removed_from_props(old_row, new_row, 0);
    let removed = spec_removed_from(old_row, new_row, 0);
    assert forall|id: BlockId| (exists|jj: int|
        0 <= jj < old_row.len() && (#[trigger] old_row[jj]).0 == id) <==> row_has_key(
        old_row,
        id,
    ) by {
        if exists|jj: int| 0 <= jj < old_row.len() && (#[trigger] old_row[jj]).0 == id {
            let jj = choose|jj: int| 0 <= jj < old_row.len() && (#[trigger] old_row[jj]).0 == id;
            lemma_row_get_present(old_row, jj);
        }
        if row_has_key(old_row, id) {
            lemma_row_find(old_row, id, 0);
        }
    }
}

} // verus!
