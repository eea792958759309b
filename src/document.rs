use vstd::prelude::*;

use crate::model::{BlockItem, ItemBlock, ItemSet};
use crate::outside::{pretty_value, value_to_pretty};
use crate::text::{indent, int_literal, nest, push_indent, push_int, push_nested, push_string_literal, string_literal};

verus! {

/// What precedes an entry of an array or object: a line break, after a comma
/// unless the entry is the first.
pub open spec fn entry_break(first: bool) -> Seq<char> {
    if first {
        seq!['\n']
    } else {
        seq![',', '\n']
    }
}

/// The entries one after the other, each on a line of its own at `depth`.
pub open spec fn entries_text(entries: Seq<Seq<char>>, depth: nat) -> Seq<char>
    decreases entries.len(),
{
    if entries.len() == 0 {
        Seq::empty()
    } else {
        entries_text(entries.drop_last(), depth) + entry_break(entries.len() == 1) + indent(depth)
            + entries.last()
    }
}

/// Entries between two brackets, the closing one on its own line at `depth`;
/// with no entries, the two brackets side by side.
pub open spec fn enclosed(open: char, close: char, entries: Seq<Seq<char>>, depth: nat) -> Seq<char> {
    if entries.len() == 0 {
        seq![open, close]
    } else {
        seq![open] + entries_text(entries, depth + 1) + seq!['\n'] + indent(depth) + seq![close]
    }
}

/// A JSON array of already rendered elements, closed at `depth`.
pub open spec fn array_text(elements: Seq<Seq<char>>, depth: nat) -> Seq<char> {
    enclosed('[', ']', elements, depth)
}

/// One member of a JSON object: its key, a colon and a space, its value.
pub open spec fn member(key: Seq<char>, value: Seq<char>) -> Seq<char> {
    string_literal(key) + seq![':', ' '] + value
}

/// Each (key, rendered value) pair as an object member.
pub open spec fn member_texts(members: Seq<(Seq<char>, Seq<char>)>) -> Seq<Seq<char>> {
    members.map_values(|m: (Seq<char>, Seq<char>)| member(m.0, m.1))
}

/// A JSON object of (key, rendered value) pairs in the given order, closed at `depth`.
pub open spec fn object_text(members: Seq<(Seq<char>, Seq<char>)>, depth: nat) -> Seq<char> {
    enclosed('{', '}', member_texts(members), depth)
}

/// A JSON array of integers, closed at `depth`.
pub open spec fn int_array_text(v: Seq<i32>, depth: nat) -> Seq<char> {
    array_text(v.map_values(|n: i32| int_literal(n as int)), depth)
}

/// The members of an item line.
pub open spec fn block_item_members(i: BlockItem) -> Seq<(Seq<char>, Seq<char>)> {
    seq![("count"@, int_literal(i.count as int)), ("id"@, string_literal(i.id@))]
}

/// An item line as a JSON object closed at `depth`.
pub open spec fn block_item_text(i: BlockItem, depth: nat) -> Seq<char> {
    object_text(block_item_members(i), depth)
}

/// The members of a block whose object is closed at `depth`.
pub open spec fn item_block_members(b: ItemBlock, depth: nat) -> Seq<(Seq<char>, Seq<char>)> {
    seq![
        ("hideIfSummonerSpell"@, string_literal(b.hide_if_summoner_spell@)),
        ("items"@, array_text(b.items@.map_values(|i: BlockItem| block_item_text(i, depth + 2)), depth + 1)),
        ("showIfSummonerSpell"@, string_literal(b.show_if_summoner_spell@)),
        ("type"@, string_literal(b.block_type@)),
    ]
}

/// A block as a JSON object closed at `depth`.
pub open spec fn item_block_text(b: ItemBlock, depth: nat) -> Seq<char> {
    object_text(item_block_members(b, depth), depth)
}

/// The members of a set's document, given the rendered form of each of its
/// preferred item slots.
pub open spec fn item_set_members(s: ItemSet, slots: Seq<Seq<char>>) -> Seq<(Seq<char>, Seq<char>)> {
    seq![
        ("associatedChampions"@, int_array_text(s.associated_champions@, 1)),
        ("associatedMaps"@, int_array_text(s.associated_maps@, 1)),
        ("blocks"@, array_text(s.blocks@.map_values(|b: ItemBlock| item_block_text(b, 2)), 1)),
        ("map"@, string_literal(s.map@)),
        ("mode"@, string_literal(s.mode@)),
        ("preferredItemSlots"@, array_text(slots.map_values(|t: Seq<char>| nest(t, 2)), 1)),
        ("sortrank"@, int_literal(s.sort_rank as int)),
        ("startedFrom"@, string_literal(s.started_from@)),
        ("title"@, string_literal(s.title@)),
        ("type"@, string_literal(s.item_set_type@)),
        ("uid"@, string_literal(s.uid@)),
    ]
}

/// A set's whole document, given the pretty-printed form of each of its
/// preferred item slots, which is indented to its place.
#[verifier::opaque]
pub open spec fn item_set_text(s: ItemSet, slots: Seq<Seq<char>>) -> Seq<char> {
    object_text(item_set_members(s, slots), 0)
}

/// Whether every preferred item slot of the set can be pretty-printed.
pub open spec fn slots_render(s: ItemSet) -> bool {
    forall|i: int|
        0 <= i < s.preferred_item_slots@.len() ==> (#[trigger] pretty_value(s.preferred_item_slots@[i])) is Some
}

/// The set's serialised document, or `None` where a preferred item slot
/// cannot be pretty-printed.
pub open spec fn item_set_json(s: ItemSet) -> Option<Seq<char>> {
    if slots_render(s) {
        Some(
            item_set_text(
                s,
                s.preferred_item_slots@.map_values(|v: serde_json::Value| pretty_value(v)->Some_0),
            ),
        )
    } else {
        None
    }
}

proof fn lemma_entries_push(entries: Seq<Seq<char>>, e: Seq<char>, depth: nat)
    ensures
        entries_text(entries.push(e), depth) == entries_text(entries, depth) + entry_break(
            entries.len() == 0,
        ) + indent(depth) + e,
{
    assert(entries.push(e).drop_last() =~= entries);
}

proof fn lemma_entry_step(
    entries: Seq<Seq<char>>,
    k: int,
    depth: nat,
    start: Seq<char>,
    before: Seq<char>,
    after: Seq<char>,
)
    requires
        0 <= k < entries.len(),
        before == start + entries_text(entries.take(k), depth),
        after == before + entry_break(k == 0) + indent(depth) + entries[k],
    ensures
        after == start + entries_text(entries.take(k + 1), depth),
{
    lemma_entries_push(entries.take(k), entries[k], depth);
    assert(entries.take(k + 1) =~= entries.take(k).push(entries[k]));
    assert(after =~= start + entries_text(entries.take(k + 1), depth));
}

proof fn lemma_member_step(
    members: Seq<(Seq<char>, Seq<char>)>,
    k: int,
    depth: nat,
    start: Seq<char>,
    before: Seq<char>,
    after: Seq<char>,
)
    requires
        0 <= k < members.len(),
        before == start + entries_text(member_texts(members).take(k), depth),
        after == before + entry_break(k == 0) + indent(depth) + string_literal(members[k].0) + seq![
            ':',
            ' ',
        ] + members[k].1,
    ensures
        after == start + entries_text(member_texts(members).take(k + 1), depth),
{
    let texts = member_texts(members);
    assert(after =~= before + entry_break(k == 0) + indent(depth) + texts[k]);
    lemma_entry_step(texts, k, depth, start, before, after);
}

/// What ends an array or object: the closing bracket, on a line of its own
/// after entries.
pub open spec fn closing(has_entries: bool, close: char, depth: nat) -> Seq<char> {
    if has_entries {
        seq!['\n'] + indent(depth) + seq![close]
    } else {
        seq![close]
    }
}

proof fn lemma_close(
    entries: Seq<Seq<char>>,
    open: char,
    close: char,
    depth: nat,
    prefix: Seq<char>,
    start: Seq<char>,
    body: Seq<char>,
)
    requires
        start == prefix.push(open),
        body == start + entries_text(entries.take(entries.len() as int), depth + 1),
    ensures
        body + closing(entries.len() > 0, close, depth) == prefix + enclosed(open, close, entries, depth),
{
    assert(entries.take(entries.len() as int) =~= entries);
    assert(body + closing(entries.len() > 0, close, depth) =~= prefix + enclosed(open, close, entries, depth));
}

/// Appends what precedes a member, its key, a colon and a space.
fn push_key(out: &mut String, first: bool, key: &str, depth: usize)
    ensures
        final(out)@ == old(out)@ + entry_break(first) + indent(depth as nat) + string_literal(key@) + seq![
            ':',
            ' ',
        ],
{
    push_entry_start(out, first, depth);
    push_string_literal(out, key);
    out.push(':');
    out.push(' ');
    assert(out@ =~= old(out)@ + entry_break(first) + indent(depth as nat) + string_literal(key@) + seq![
        ':',
        ' ',
    ]);
}

/// Appends an item line as a JSON object closed at `depth`.
fn push_block_item(out: &mut String, item: &BlockItem, depth: usize)
    requires
        depth < usize::MAX,
    ensures
        final(out)@ == old(out)@ + block_item_text(*item, depth as nat),
{
    let ghost members = block_item_members(*item);
    let ghost pre = out@;
    out.push('{');
    let ghost start = out@;
    let ghost b = out@;
    push_key(out, true, "count", depth + 1);
    push_int(out, item.count);
    proof {
        lemma_member_step(members, 0, depth as nat + 1, start, b, out@);
    }
    let ghost b = out@;
    push_key(out, false, "id", depth + 1);
    push_string_literal(out, item.id.as_str());
    proof {
        lemma_member_step(members, 1, depth as nat + 1, start, b, out@);
        lemma_close(member_texts(members), '{', '}', depth as nat, pre, start, out@);
    }
    push_close(out, true, '}', depth);
}

/// Appends what precedes an entry.
fn push_entry_start(out: &mut String, first: bool, depth: usize)
    ensures
        final(out)@ == old(out)@ + entry_break(first) + indent(depth as nat),
{
    if !first {
        out.push(',');
    }
    out.push('\n');
    push_indent(out, depth);
    assert(out@ =~= old(out)@ + entry_break(first) + indent(depth as nat));
}

/// Appends the closing bracket, on a line of its own after entries.
fn push_close(out: &mut String, has_entries: bool, close: char, depth: usize)
    ensures
        final(out)@ == old(out)@ + closing(has_entries, close, depth as nat),
{
    if has_entries {
        out.push('\n');
        push_indent(out, depth);
    }
    out.push(close);
    assert(out@ =~= old(out)@ + closing(has_entries, close, depth as nat));
}

/// Appends a JSON array of integers closed at `depth`.
fn push_int_array(out: &mut String, v: &Vec<i32>, depth: usize)
    requires
        depth < usize::MAX,
    ensures
        final(out)@ == old(out)@ + int_array_text(v@, depth as nat),
{
    let ghost entries = v@.map_values(|n: i32| int_literal(n as int));
    let ghost pre = out@;
    out.push('[');
    let ghost start = out@;
    for i in 0..v.len()
        invariant
            entries == v@.map_values(|n: i32| int_literal(n as int)),
            depth < usize::MAX,
            out@ == start + entries_text(entries.take(i as int), depth as nat + 1),
    {
        let ghost b = out@;
        push_entry_start(out, i == 0, depth + 1);
        push_int(out, v[i]);
        proof {
            lemma_entry_step(entries, i as int, depth as nat + 1, start, b, out@);
        }
    }
    proof {
        lemma_close(entries, '[', ']', depth as nat, pre, start, out@);
    }
    push_close(out, v.len() > 0, ']', depth);
}

/// Appends the item lines of a block as a JSON array closed at `depth`.
fn push_item_array(out: &mut String, v: &Vec<BlockItem>, depth: usize)
    requires
        depth < usize::MAX - 1,
    ensures
        final(out)@ == old(out)@ + array_text(
            v@.map_values(|i: BlockItem| block_item_text(i, depth as nat + 1)),
            depth as nat,
        ),
{
    let ghost entries = v@.map_values(|i: BlockItem| block_item_text(i, depth as nat + 1));
    let ghost pre = out@;
    out.push('[');
    let ghost start = out@;
    for k in 0..v.len()
        invariant
            entries == v@.map_values(|i: BlockItem| block_item_text(i, depth as nat + 1)),
            depth < usize::MAX - 1,
            out@ == start + entries_text(entries.take(k as int), depth as nat + 1),
    {
        let ghost b = out@;
        push_entry_start(out, k == 0, depth + 1);
        push_block_item(out, &v[k], depth + 1);
        proof {
            lemma_entry_step(entries, k as int, depth as nat + 1, start, b, out@);
        }
    }
    proof {
        lemma_close(entries, '[', ']', depth as nat, pre, start, out@);
    }
    push_close(out, v.len() > 0, ']', depth);
}

/// Appends a block as a JSON object closed at `depth`.
fn push_item_block(out: &mut String, block: &ItemBlock, depth: usize)
    requires
        depth < usize::MAX - 2,
    ensures
        final(out)@ == old(out)@ + item_block_text(*block, depth as nat),
{
    let ghost members = item_block_members(*block, depth as nat);
    let ghost d = depth as nat + 1;
    let ghost pre = out@;
    out.push('{');
    let ghost start = out@;
    let ghost b = out@;
    push_key(out, true, "hideIfSummonerSpell", depth + 1);
    push_string_literal(out, block.hide_if_summoner_spell.as_str());
    proof {
        lemma_member_step(members, 0, d, start, b, out@);
    }
    let ghost b = out@;
    push_key(out, false, "items", depth + 1);
    push_item_array(out, &block.items, depth + 1);
    proof {
        lemma_member_step(members, 1, d, start, b, out@);
    }
    let ghost b = out@;
    push_key(out, false, "showIfSummonerSpell", depth + 1);
    push_string_literal(out, block.show_if_summoner_spell.as_str());
    proof {
        lemma_member_step(members, 2, d, start, b, out@);
    }
    let ghost b = out@;
    push_key(out, false, "type", depth + 1);
    push_string_literal(out, block.block_type.as_str());
    proof {
        lemma_member_step(members, 3, d, start, b, out@);
        lemma_close(member_texts(members), '{', '}', depth as nat, pre, start, out@);
    }
    push_close(out, true, '}', depth);
}

/// Appends the blocks of a set as a JSON array closed at `depth`.
fn push_block_array(out: &mut String, v: &Vec<ItemBlock>, depth: usize)
    requires
        depth < usize::MAX - 3,
    ensures
        final(out)@ == old(out)@ + array_text(
            v@.map_values(|b: ItemBlock| item_block_text(b, depth as nat + 1)),
            depth as nat,
        ),
{
    let ghost entries = v@.map_values(|b: ItemBlock| item_block_text(b, depth as nat + 1));
    let ghost pre = out@;
    out.push('[');
    let ghost start = out@;
    for k in 0..v.len()
        invariant
            entries == v@.map_values(|b: ItemBlock| item_block_text(b, depth as nat + 1)),
            depth < usize::MAX - 3,
            out@ == start + entries_text(entries.take(k as int), depth as nat + 1),
    {
        let ghost b = out@;
        push_entry_start(out, k == 0, depth + 1);
        push_item_block(out, &v[k], depth + 1);
        proof {
            lemma_entry_step(entries, k as int, depth as nat + 1, start, b, out@);
        }
    }
    proof {
        lemma_close(entries, '[', ']', depth as nat, pre, start, out@);
    }
    push_close(out, v.len() > 0, ']', depth);
}

/// Appends pretty-printed values as a JSON array closed at `depth`, each value
/// indented to its place.
fn push_nested_array(out: &mut String, v: &Vec<String>, depth: usize)
    requires
        depth < usize::MAX,
    ensures
        final(out)@ == old(out)@ + array_text(
            v@.map_values(|t: String| nest(t@, depth as nat + 1)),
            depth as nat,
        ),
{
    let ghost entries = v@.map_values(|t: String| nest(t@, depth as nat + 1));
    let ghost pre = out@;
    out.push('[');
    let ghost start = out@;
    for k in 0..v.len()
        invariant
            entries == v@.map_values(|t: String| nest(t@, depth as nat + 1)),
            depth < usize::MAX,
            out@ == start + entries_text(entries.take(k as int), depth as nat + 1),
    {
        let ghost b = out@;
        push_entry_start(out, k == 0, depth + 1);
        push_nested(out, v[k].as_str(), depth + 1);
        proof {
            lemma_entry_step(entries, k as int, depth as nat + 1, start, b, out@);
        }
    }
    proof {
        lemma_close(entries, '[', ']', depth as nat, pre, start, out@);
    }
    push_close(out, v.len() > 0, ']', depth);
}

impl ItemSet {
    /// The set as a pretty-printed JSON document; fails only where one of the
    /// preferred item slots cannot be serialised.
    pub fn to_json(&self) -> (r: Result<String, serde_json::Error>)
        ensures
            match r {
                Ok(t) => item_set_json(*self) == Some(t@),
                Err(_) => item_set_json(*self) is None,
            },
    {
        let ghost values = self.preferred_item_slots@;
        let mut texts: Vec<String> = Vec::new();
        for i in 0..self.preferred_item_slots.len()
            invariant
                values == self.preferred_item_slots@,
                texts@.len() == i,
                forall|j: int|
                    0 <= j < i ==> pretty_value(values[j]) == Some(#[trigger] texts@[j]@),
        {
            match value_to_pretty(&self.preferred_item_slots[i]) {
                Ok(t) => texts.push(t),
                Err(e) => return Err(e),
            }
        }
        let r = self.to_json_with_slots(&texts);
        assert(slots_render(*self)) by {
            assert forall|j: int| 0 <= j < values.len() implies (#[trigger] pretty_value(values[j])) is Some by {
                assert(pretty_value(values[j]) == Some(texts@[j]@));
            }
        }
        assert(texts@.map_values(|t: String| t@) =~= values.map_values(
            |v: serde_json::Value| pretty_value(v)->Some_0,
        ));
        Ok(r)
    }

    /// The set's document, given the pretty-printed form of each of its
    /// preferred item slots, in order.
    pub fn to_json_with_slots(&self, slot_texts: &Vec<String>) -> (r: String)
        ensures
            r@ == item_set_text(*self, slot_texts@.map_values(|t: String| t@)),
    {
        let ghost slots = slot_texts@.map_values(|t: String| t@);
        let ghost members = item_set_members(*self, slots);
        let mut out = String::new();
        let ghost pre = out@;
        out.push('{');
        let ghost start = out@;
        let ghost b = out@;
        push_key(&mut out, true, "associatedChampions", 1);
        push_int_array(&mut out, &self.associated_champions, 1);
        proof {
            lemma_member_step(members, 0, 1, start, b, out@);
        }
        let ghost b = out@;
        push_key(&mut out, false, "associatedMaps", 1);
        push_int_array(&mut out, &self.associated_maps, 1);
        proof {
            lemma_member_step(members, 1, 1, start, b, out@);
        }
        let ghost b = out@;
        push_key(&mut out, false, "blocks", 1);
        push_block_array(&mut out, &self.blocks, 1);
        proof {
            lemma_member_step(members, 2, 1, start, b, out@);
        }
        let ghost b = out@;
        push_key(&mut out, false, "map", 1);
        push_string_literal(&mut out, self.map.as_str());
        proof {
            lemma_member_step(members, 3, 1, start, b, out@);
        }
        let ghost b = out@;
        push_key(&mut out, false, "mode", 1);
        push_string_literal(&mut out, self.mode.as_str());
        proof {
            lemma_member_step(members, 4, 1, start, b, out@);
        }
        let ghost b = out@;
        push_key(&mut out, false, "preferredItemSlots", 1);
        push_nested_array(&mut out, slot_texts, 1);
        proof {
            assert(slots.map_values(|t: Seq<char>| nest(t, 2)) =~= slot_texts@.map_values(
                |t: String| nest(t@, 2),
            ));
            lemma_member_step(members, 5, 1, start, b, out@);
        }
        let ghost b = out@;
        push_key(&mut out, false, "sortrank", 1);
        push_int(&mut out, self.sort_rank);
        proof {
            lemma_member_step(members, 6, 1, start, b, out@);
        }
        let ghost b = out@;
        push_key(&mut out, false, "startedFrom", 1);
        push_string_literal(&mut out, self.started_from.as_str());
        proof {
            lemma_member_step(members, 7, 1, start, b, out@);
        }
        let ghost b = out@;
        push_key(&mut out, false, "title", 1);
        push_string_literal(&mut out, self.title.as_str());
        proof {
            lemma_member_step(members, 8, 1, start, b, out@);
        }
        let ghost b = out@;
        push_key(&mut out, false, "type", 1);
        push_string_literal(&mut out, self.item_set_type.as_str());
        proof {
            lemma_member_step(members, 9, 1, start, b, out@);
        }
        let ghost b = out@;
        push_key(&mut out, false, "uid", 1);
        push_string_literal(&mut out, self.uid.as_str());
        proof {
            lemma_member_step(members, 10, 1, start, b, out@);
            lemma_close(member_texts(members), '{', '}', 0, pre, start, out@);
        }
        push_close(&mut out, true, '}', 0);
        proof {
            reveal(item_set_text);
        }
        out
    }
}

} // verus!
