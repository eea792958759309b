use vstd::prelude::*;

use crate::outside::fresh_uid;

verus! {

/// One recommended purchase: an item identifier (kept as text) and a quantity.
#[derive(Debug, Clone)]
pub struct BlockItem {
    pub count: i32,
    pub id: String,
}

/// A labelled group of recommended items, in display order.
#[derive(Debug, Clone)]
pub struct ItemBlock {
    pub hide_if_summoner_spell: String,
    pub items: Vec<BlockItem>,
    pub show_if_summoner_spell: String,
    pub block_type: String,
}

/// A named recommendation profile: the champions and maps it applies to and
/// its blocks, each sequence kept in insertion order.
#[derive(Debug, Clone)]
pub struct ItemSet {
    pub associated_champions: Vec<i32>,
    pub associated_maps: Vec<i32>,
    pub blocks: Vec<ItemBlock>,
    pub map: String,
    pub mode: String,
    /// Schema-free values handed through to the document as they are.
    pub preferred_item_slots: Vec<serde_json::Value>,
    pub sort_rank: i32,
    pub started_from: String,
    pub title: String,
    pub item_set_type: String,
    pub uid: String,
}

/// The map that a new set applies to.
pub const DEFAULT_MAP_ID: i32 = 11;

/// The rank that a new set sorts with.
pub const DEFAULT_SORT_RANK: i32 = 9999;

/// The defaults of a new set, given its champion, title and identifier.
pub open spec fn is_fresh_set(s: ItemSet, champion_id: i32, title: Seq<char>, uid: Seq<char>) -> bool {
    &&& s.associated_champions@ == seq![champion_id]
    &&& s.associated_maps@ == seq![DEFAULT_MAP_ID]
    &&& s.blocks@.len() == 0
    &&& s.map@ == "SR"@
    &&& s.mode@ == "any"@
    &&& s.preferred_item_slots@.len() == 0
    &&& s.sort_rank == DEFAULT_SORT_RANK
    &&& s.started_from@ == "blank"@
    &&& s.title@ == title
    &&& s.item_set_type@ == "custom"@
    &&& s.uid@ == uid
}

impl ItemSet {
    /// A new set for one champion, with a freshly generated identifier.
    pub fn new(champion_id: i32, title: String) -> (r: ItemSet)
        ensures
            is_fresh_set(r, champion_id, title@, r.uid@),
            r.uid@.len() == 36,
    {
        let uid = fresh_uid();
        ItemSet::with_uid(champion_id, title, uid)
    }

    /// A new set for one champion, identified by `uid`.
    pub fn with_uid(champion_id: i32, title: String, uid: String) -> (r: ItemSet)
        ensures
            is_fresh_set(r, champion_id, title@, uid@),
    {
        let associated_champions = vec![champion_id];
        let associated_maps = vec![DEFAULT_MAP_ID];
        assert(associated_champions@ =~= seq![champion_id]);
        assert(associated_maps@ =~= seq![DEFAULT_MAP_ID]);
        ItemSet {
            associated_champions,
            associated_maps,
            blocks: Vec::new(),
            map: String::from_str("SR"),
            mode: String::from_str("any"),
            preferred_item_slots: Vec::new(),
            sort_rank: DEFAULT_SORT_RANK,
            started_from: String::from_str("blank"),
            title,
            item_set_type: String::from_str("custom"),
            uid,
        }
    }

    /// Appends a block at the end of the set.
    pub fn add_block(&mut self, block: ItemBlock)
        ensures
            final(self).blocks@ == old(self).blocks@.push(block),
            final(self).associated_champions == old(self).associated_champions,
            final(self).associated_maps == old(self).associated_maps,
            final(self).map == old(self).map,
            final(self).mode == old(self).mode,
            final(self).preferred_item_slots == old(self).preferred_item_slots,
            final(self).sort_rank == old(self).sort_rank,
            final(self).started_from == old(self).started_from,
            final(self).title == old(self).title,
            final(self).item_set_type == old(self).item_set_type,
            final(self).uid == old(self).uid,
    {
        self.blocks.push(block);
    }
}

impl ItemBlock {
    /// An empty block with the given label and no visibility conditions.
    pub fn new(block_type: String) -> (r: ItemBlock)
        ensures
            r.block_type@ == block_type@,
            r.items@.len() == 0,
            r.hide_if_summoner_spell@.len() == 0,
            r.show_if_summoner_spell@.len() == 0,
    {
        ItemBlock {
            hide_if_summoner_spell: String::new(),
            items: Vec::new(),
            show_if_summoner_spell: String::new(),
            block_type,
        }
    }

    /// Appends one item line at the end of the block.
    pub fn add_item(&mut self, item_id: String, count: i32)
        ensures
            final(self).items@ == old(self).items@.push(BlockItem { id: item_id, count }),
            final(self).block_type == old(self).block_type,
            final(self).hide_if_summoner_spell == old(self).hide_if_summoner_spell,
            final(self).show_if_summoner_spell == old(self).show_if_summoner_spell,
    {
        self.items.push(BlockItem { id: item_id, count });
    }
}

} // verus!
