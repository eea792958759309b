use vstd::prelude::*;

use crate::document::{
    block_item_members, block_item_text, item_block_members, item_block_text, item_set_json,
    item_set_members, item_set_text, object_text,
};
use crate::model::{BlockItem, ItemBlock, ItemSet};

verus! {

/// `s` after appending each element of `xs` in turn at its end, as repeated
/// calls of `ItemSet::add_block` or `ItemBlock::add_item` do.
pub open spec fn push_each<T>(s: Seq<T>, xs: Seq<T>) -> Seq<T>
    decreases xs.len(),
{
    if xs.len() == 0 {
        s
    } else {
        push_each(s.push(xs[0]), xs.drop_first())
    }
}

proof fn lemma_push_each<T>(s: Seq<T>, xs: Seq<T>)
    ensures
        push_each(s, xs) == s + xs,
    decreases xs.len(),
{
    if xs.len() > 0 {
        lemma_push_each(s.push(xs[0]), xs.drop_first());
        assert(s.push(xs[0]) + xs.drop_first() =~= s + xs);
    } else {
        assert(s + xs =~= s);
    }
}

/// Appending blocks one at a time keeps the earlier blocks and adds the new
/// ones after them in the order of the calls, so that `n` appends to a set
/// lengthen it by `n`; the document lists the rendered blocks in that order.
pub proof fn lemma_blocks_appended(start: Seq<ItemBlock>, appended: Seq<ItemBlock>)
    ensures
        push_each(start, appended) == start + appended,
        push_each(start, appended).len() == start.len() + appended.len(),
        push_each(start, appended).map_values(|b: ItemBlock| item_block_text(b, 2)) == start.map_values(
            |b: ItemBlock| item_block_text(b, 2),
        ) + appended.map_values(|b: ItemBlock| item_block_text(b, 2)),
{
    lemma_push_each(start, appended);
    assert((start + appended).map_values(|b: ItemBlock| item_block_text(b, 2)) =~= start.map_values(
        |b: ItemBlock| item_block_text(b, 2),
    ) + appended.map_values(|b: ItemBlock| item_block_text(b, 2)));
}

/// Appending items one at a time keeps the earlier items and adds the new
/// ones after them in the order of the calls, so that `n` appends to a block
/// lengthen it by `n`; the block's document lists the rendered items in that
/// order, wherever the block stands.
pub proof fn lemma_items_appended(start: Seq<BlockItem>, appended: Seq<BlockItem>, depth: nat)
    ensures
        push_each(start, appended) == start + appended,
        push_each(start, appended).len() == start.len() + appended.len(),
        push_each(start, appended).map_values(|i: BlockItem| block_item_text(i, depth))
            == start.map_values(|i: BlockItem| block_item_text(i, depth)) + appended.map_values(
            |i: BlockItem| block_item_text(i, depth),
        ),
{
    lemma_push_each(start, appended);
    assert((start + appended).map_values(|i: BlockItem| block_item_text(i, depth)) =~= start.map_values(
        |i: BlockItem| block_item_text(i, depth),
    ) + appended.map_values(|i: BlockItem| block_item_text(i, depth)));
}

/// The document of a set is one object whose keys are exactly those of the
/// item-set schema, in this order; a block's object has the four keys of a
/// block, and an item line's object `count` and `id`.
pub proof fn lemma_document_keys(s: ItemSet, slots: Seq<Seq<char>>, b: ItemBlock, i: BlockItem, depth: nat)
    ensures
        item_set_text(s, slots) == object_text(item_set_members(s, slots), 0),
        item_set_members(s, slots).map_values(|m: (Seq<char>, Seq<char>)| m.0) == seq![
            "associatedChampions"@,
            "associatedMaps"@,
            "blocks"@,
            "map"@,
            "mode"@,
            "preferredItemSlots"@,
            "sortrank"@,
            "startedFrom"@,
            "title"@,
            "type"@,
            "uid"@,
        ],
        item_block_text(b, depth) == object_text(item_block_members(b, depth), depth),
        item_block_members(b, depth).map_values(|m: (Seq<char>, Seq<char>)| m.0) == seq![
            "hideIfSummonerSpell"@,
            "items"@,
            "showIfSummonerSpell"@,
            "type"@,
        ],
        block_item_text(i, depth) == object_text(block_item_members(i), depth),
        block_item_members(i).map_values(|m: (Seq<char>, Seq<char>)| m.0) == seq!["count"@, "id"@],
{
    reveal(item_set_text);
    assert(item_set_members(s, slots).map_values(|m: (Seq<char>, Seq<char>)| m.0) =~= seq![
        "associatedChampions"@,
        "associatedMaps"@,
        "blocks"@,
        "map"@,
        "mode"@,
        "preferredItemSlots"@,
        "sortrank"@,
        "startedFrom"@,
        "title"@,
        "type"@,
        "uid"@,
    ]);
    assert(item_block_members(b, depth).map_values(|m: (Seq<char>, Seq<char>)| m.0) =~= seq![
        "hideIfSummonerSpell"@,
        "items"@,
        "showIfSummonerSpell"@,
        "type"@,
    ]);
    assert(block_item_members(i).map_values(|m: (Seq<char>, Seq<char>)| m.0) =~= seq!["count"@, "id"@]);
}

/// Serialising a set twice, with no change between, gives the same outcome:
/// both succeed with the same text, or both fail.
pub proof fn lemma_to_json_repeatable(
    s: ItemSet,
    first: Result<String, serde_json::Error>,
    second: Result<String, serde_json::Error>,
)
    requires
        match first {
            Ok(t) => item_set_json(s) == Some(t@),
            Err(_) => item_set_json(s) is None,
        },
        match second {
            Ok(t) => item_set_json(s) == Some(t@),
            Err(_) => item_set_json(s) is None,
        },
    ensures
        first is Ok <==> second is Ok,
        first is Ok ==> first->Ok_0@ == second->Ok_0@,
{
}

} // verus!
