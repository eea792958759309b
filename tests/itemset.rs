use itemset::{BlockItem, ItemBlock, ItemSet};
use serde_json::Value;

fn keys(v: &Value) -> Vec<String> {
    v.as_object().unwrap().keys().cloned().collect()
}

fn sample_set() -> ItemSet {
    let mut set = ItemSet::with_uid(
        157,
        "AP Carry".to_string(),
        "0f8fad5b-d9cb-469f-a165-70867728950e".to_string(),
    );
    let mut start = ItemBlock::new("Starting Items".to_string());
    start.add_item("1054".to_string(), 1);
    start.add_item("2003".to_string(), 2);
    set.add_block(start);
    set.add_block(ItemBlock::new("Core Items".to_string()));
    set
}

#[test]
fn construct_ap_carry() {
    let set = ItemSet::new(157, "AP Carry".to_string());
    assert_eq!(set.title, "AP Carry");
    assert_eq!(set.associated_champions, vec![157]);
    assert_eq!(set.associated_maps, vec![11]);
    assert!(set.blocks.is_empty());
    assert_eq!(set.map, "SR");
    assert_eq!(set.mode, "any");
    assert!(set.preferred_item_slots.is_empty());
    assert_eq!(set.sort_rank, 9999);
    assert_eq!(set.started_from, "blank");
    assert_eq!(set.item_set_type, "custom");
    assert_eq!(set.uid.len(), 36);
}

#[test]
fn construct_accepts_any_champion_and_empty_title() {
    let set = ItemSet::new(-5, String::new());
    assert_eq!(set.associated_champions, vec![-5]);
    assert_eq!(set.title, "");
}

#[test]
fn uids_are_distinct_across_constructions() {
    let mut seen: Vec<String> = Vec::new();
    for _ in 0..200 {
        let set = ItemSet::new(1, "x".to_string());
        assert!(!set.uid.is_empty());
        assert!(!seen.contains(&set.uid));
        let chars: Vec<char> = set.uid.chars().collect();
        assert_eq!(chars[8], '-');
        assert_eq!(chars[13], '-');
        assert_eq!(chars[14], '4');
        assert_eq!(chars[18], '-');
        assert_eq!(chars[23], '-');
        seen.push(set.uid);
    }
}

#[test]
fn with_uid_keeps_the_given_uid() {
    let set = ItemSet::with_uid(3, "t".to_string(), "abc".to_string());
    assert_eq!(set.uid, "abc");
    assert_eq!(set.associated_champions, vec![3]);
}

#[test]
fn construct_block_defaults() {
    let block = ItemBlock::new("Starting Items".to_string());
    assert_eq!(block.block_type, "Starting Items");
    assert!(block.items.is_empty());
    assert_eq!(block.hide_if_summoner_spell, "");
    assert_eq!(block.show_if_summoner_spell, "");
}

#[test]
fn add_items_in_order() {
    let mut block = ItemBlock::new("Starting Items".to_string());
    block.add_item("1054".to_string(), 1);
    block.add_item("2003".to_string(), 2);
    assert_eq!(block.items.len(), 2);
    assert_eq!(block.items[0].id, "1054");
    assert_eq!(block.items[0].count, 1);
    assert_eq!(block.items[1].id, "2003");
    assert_eq!(block.items[1].count, 2);
}

#[test]
fn add_item_keeps_zero_and_negative_counts() {
    let mut block = ItemBlock::new("b".to_string());
    block.add_item("1".to_string(), 0);
    block.add_item("2".to_string(), -3);
    let counts: Vec<i32> = block.items.iter().map(|i: &BlockItem| i.count).collect();
    assert_eq!(counts, vec![0, -3]);
}

#[test]
fn n_appends_give_n_blocks_in_order() {
    let mut set = ItemSet::with_uid(1, "t".to_string(), "u".to_string());
    for k in 0..5 {
        set.add_block(ItemBlock::new(format!("block {}", k)));
    }
    assert_eq!(set.blocks.len(), 5);
    let doc: Value = serde_json::from_str(&set.to_json().unwrap()).unwrap();
    let blocks = doc["blocks"].as_array().unwrap();
    assert_eq!(blocks.len(), 5);
    for (k, b) in blocks.iter().enumerate() {
        assert_eq!(b["type"], Value::String(format!("block {}", k)));
    }
}

#[test]
fn two_blocks_serialize_in_append_order() {
    let set = sample_set();
    let doc: Value = serde_json::from_str(&set.to_json().unwrap()).unwrap();
    let blocks = doc["blocks"].as_array().unwrap();
    assert_eq!(blocks.len(), 2);
    assert_eq!(blocks[0]["type"], "Starting Items");
    assert_eq!(blocks[1]["type"], "Core Items");
    for b in blocks {
        assert_eq!(keys(b), vec!["hideIfSummonerSpell", "items", "showIfSummonerSpell", "type"]);
    }
    let items = blocks[0]["items"].as_array().unwrap();
    assert_eq!(items.len(), 2);
    assert_eq!(items[0]["id"], "1054");
    assert_eq!(items[0]["count"], 1);
    assert_eq!(items[1]["id"], "2003");
    assert_eq!(items[1]["count"], 2);
    assert_eq!(keys(&items[0]), vec!["count", "id"]);
}

#[test]
fn empty_slots_serialize_as_empty_array() {
    let set = ItemSet::new(157, "AP Carry".to_string());
    let text = set.to_json().unwrap();
    assert!(text.contains("\"preferredItemSlots\": []"));
    let doc: Value = serde_json::from_str(&text).unwrap();
    assert_eq!(doc["preferredItemSlots"], Value::Array(Vec::new()));
}

#[test]
fn parsed_document_has_exactly_the_schema_keys() {
    let doc: Value = serde_json::from_str(&sample_set().to_json().unwrap()).unwrap();
    assert_eq!(
        keys(&doc),
        vec![
            "associatedChampions",
            "associatedMaps",
            "blocks",
            "map",
            "mode",
            "preferredItemSlots",
            "sortrank",
            "startedFrom",
            "title",
            "type",
            "uid",
        ]
    );
    assert_eq!(doc["associatedChampions"], serde_json::from_str::<Value>("[157]").unwrap());
    assert_eq!(doc["associatedMaps"], serde_json::from_str::<Value>("[11]").unwrap());
    assert_eq!(doc["sortrank"], 9999);
    assert_eq!(doc["type"], "custom");
    assert_eq!(doc["uid"], "0f8fad5b-d9cb-469f-a165-70867728950e");
}

#[test]
fn serialize_twice_is_byte_identical() {
    let mut set = sample_set();
    set.preferred_item_slots.push(serde_json::from_str("{\"b\": [1, 2], \"a\": null}").unwrap());
    let first = set.to_json().unwrap();
    let second = set.to_json().unwrap();
    assert_eq!(first, second);
}

#[test]
fn document_is_the_exact_pretty_text() {
    let set = sample_set();
    let expected = r#"{
  "associatedChampions": [
    157
  ],
  "associatedMaps": [
    11
  ],
  "blocks": [
    {
      "hideIfSummonerSpell": "",
      "items": [
        {
          "count": 1,
          "id": "1054"
        },
        {
          "count": 2,
          "id": "2003"
        }
      ],
      "showIfSummonerSpell": "",
      "type": "Starting Items"
    },
    {
      "hideIfSummonerSpell": "",
      "items": [],
      "showIfSummonerSpell": "",
      "type": "Core Items"
    }
  ],
  "map": "SR",
  "mode": "any",
  "preferredItemSlots": [],
  "sortrank": 9999,
  "startedFrom": "blank",
  "title": "AP Carry",
  "type": "custom",
  "uid": "0f8fad5b-d9cb-469f-a165-70867728950e"
}"#;
    assert_eq!(set.to_json().unwrap(), expected);
}

#[test]
fn document_matches_generic_pretty_printer() {
    let mut set = ItemSet::with_uid(i32::MIN, "q\"b\\s\n\t\u{1}\u{7f}\u{8}\u{c}\r é ✓".to_string(), "u".to_string());
    set.associated_maps.push(-1);
    set.associated_maps.push(i32::MAX);
    set.sort_rank = 0;
    let mut block = ItemBlock::new("x\u{1f}y".to_string());
    block.add_item("a\"b".to_string(), -42);
    set.add_block(block);
    set.preferred_item_slots.push(serde_json::from_str("{\"k\": [1, {\"z\": \"w\\n\"}], \"e\": {}}").unwrap());
    set.preferred_item_slots.push(Value::Null);
    set.preferred_item_slots.push(serde_json::from_str("[]").unwrap());
    let text = set.to_json().unwrap();
    let reparsed: Value = serde_json::from_str(&text).unwrap();
    assert_eq!(serde_json::to_string_pretty(&reparsed).unwrap(), text);
    assert_eq!(reparsed["associatedChampions"][0], i32::MIN as i64);
    assert_eq!(reparsed["title"], "q\"b\\s\n\t\u{1}\u{7f}\u{8}\u{c}\r é ✓");
}

#[test]
fn escapes_control_characters() {
    let set = ItemSet::with_uid(1, "\u{1}\u{1f}\"\\".to_string(), "u".to_string());
    let text = set.to_json().unwrap();
    assert!(text.contains(r#""title": "\u0001\u001f\"\\""#));
}

#[test]
fn slot_values_are_indented_to_their_place() {
    let mut set = ItemSet::with_uid(1, "t".to_string(), "u".to_string());
    set.preferred_item_slots.push(serde_json::from_str("{\"a\": [1]}").unwrap());
    let text = set.to_json().unwrap();
    let expected_slots = "  \"preferredItemSlots\": [\n    {\n      \"a\": [\n        1\n      ]\n    }\n  ],\n";
    assert!(text.contains(expected_slots));
}

#[test]
fn to_json_with_slots_nests_given_texts() {
    let set = ItemSet::with_uid(1, "t".to_string(), "u".to_string());
    let text = set.to_json_with_slots(&vec!["[\n  true\n]".to_string(), "7".to_string()]);
    let expected_slots = "  \"preferredItemSlots\": [\n    [\n      true\n    ],\n    7\n  ],\n";
    assert!(text.contains(expected_slots));
    let doc: Value = serde_json::from_str(&text).unwrap();
    assert_eq!(doc["preferredItemSlots"], serde_json::from_str::<Value>("[[true], 7]").unwrap());
}

#[test]
fn to_json_with_no_slots_matches_to_json() {
    let set = sample_set();
    assert_eq!(set.to_json_with_slots(&Vec::new()), set.to_json().unwrap());
}
