use promptosaurus::command::{process_input, TagLinesStyle};
use promptosaurus::field_map::FieldMap;
use promptosaurus::prompt_styles::FieldLayout;

#[test]
fn empty_map_holds_nothing() {
    let map = FieldMap::new();
    assert_eq!(map.get("Role"), None);
    assert_eq!(map.get(""), None);
}

#[test]
fn insert_then_get() {
    let mut map = FieldMap::new();
    assert_eq!(map.insert("Role".to_string(), "a".to_string()), None);
    assert_eq!(map.insert("Task".to_string(), "b".to_string()), None);
    assert_eq!(map.get("Role"), Some(&"a".to_string()));
    assert_eq!(map.get("Task"), Some(&"b".to_string()));
    assert_eq!(map.get("role"), None);
    assert_eq!(map.get("Context"), None);
}

#[test]
fn insert_replaces_and_hands_back_the_previous_value() {
    let mut map = FieldMap::new();
    map.insert("Role".to_string(), "a".to_string());
    map.insert("Task".to_string(), "b".to_string());
    assert_eq!(map.insert("Role".to_string(), "c".to_string()), Some("a".to_string()));
    assert_eq!(map.get("Role"), Some(&"c".to_string()));
    assert_eq!(map.get("Task"), Some(&"b".to_string()));
    assert_eq!(map.insert("Role".to_string(), "d".to_string()), Some("c".to_string()));
    assert_eq!(map.insert("Task".to_string(), "e".to_string()), Some("b".to_string()));
    assert_eq!(map.get("Role"), Some(&"d".to_string()));
    assert_eq!(map.get("Task"), Some(&"e".to_string()));
}

#[test]
fn insertion_order_does_not_show() {
    let mut one = FieldMap::new();
    one.insert("Role".to_string(), "a".to_string());
    one.insert("Task".to_string(), "b".to_string());
    let mut two = FieldMap::new();
    two.insert("Task".to_string(), "x".to_string());
    two.insert("Role".to_string(), "a".to_string());
    two.insert("Task".to_string(), "b".to_string());
    assert_eq!(process_input(&one), process_input(&two));
}

#[test]
fn command_writes_tags_on_lines_of_their_own() {
    let mut map = FieldMap::new();
    map.insert("Task".to_string(), " Explain photosynthesis \n".to_string());
    map.insert("Role".to_string(), "Educational content writer".to_string());
    map.insert("Context".to_string(), "   ".to_string());
    map.insert("Constraints".to_string(), "- a\n- b".to_string());
    map.insert("Other".to_string(), "left out".to_string());
    assert_eq!(
        process_input(&map),
        Ok("<Role>\nEducational content writer\n</Role>\n<Task>\nExplain photosynthesis\n</Task>\n<Constraints>\n- a\n- b\n</Constraints>"
            .to_string())
    );
}

#[test]
fn command_on_empty_input_gives_the_empty_string() {
    assert_eq!(process_input(&FieldMap::new()), Ok(String::new()));
}

#[test]
fn command_block() {
    assert_eq!(TagLinesStyle.encode_field("Role", "v"), "<Role>\nv\n</Role>\n");
}
