use if_parser::hebrew_handler::hebrew_str_to_non_hebrew;
use if_parser::json_to_xml::json_to_xml;
use if_parser::json_to_xml::models::{Field, FieldPositionNumForMap};
use if_parser::json_to_xml::state::State;
use if_parser::json_to_xml::xml_attributes::xml_attributes_end::remove_str_chunk_by_key;
use if_parser::json_to_xml::xml_attributes::xml_attributes_init::init_xml_attributes;

#[test]
fn simple_member_becomes_element() {
    let r = json_to_xml(&"{\"a\":\"b\"}".to_string(), false, "ROOT".to_string());
    assert_eq!(r, Ok("<parameters>\n <a >b</a>\n</parameters>".to_string()));
}

#[test]
fn blank_input_gives_empty_output() {
    let r = json_to_xml(&" \n\t".to_string(), false, String::new());
    assert_eq!(r, Ok(String::new()));
}

#[test]
fn hebrew_round_trip() {
    let mut s = "שלום abc".to_string();
    hebrew_str_to_non_hebrew(&mut s, true);
    assert!(!s.contains('ש'));
    assert!(s.contains("09d07874-5797-4255-a769-f900b047b3a2"));
    hebrew_str_to_non_hebrew(&mut s, false);
    assert_eq!(s, "שלום abc");
}

#[test]
fn hebrew_letters_all_replaced() {
    let mut s = "קראטוןםפףךלחיעכגדשזסבהנמצתץ".to_string();
    hebrew_str_to_non_hebrew(&mut s, true);
    assert!(s.chars().all(|c| c.is_ascii()));
    assert_eq!(s.len(), 27 * 36);
}

fn convert(json: &str) -> Result<String, String> {
    json_to_xml(&json.to_string(), false, "ROOT".to_string())
}

#[test]
fn nested_object_becomes_nested_element() {
    assert_eq!(convert("{\"a\":{\"b\":1}}"), Ok("<parameters>\n <a >\n  <b >1</b>\n </a>\n</parameters>".to_string()));
}

#[test]
fn array_of_numbers_repeats_the_element() {
    assert_eq!(convert("{\"a\":[1,2]}"), Ok("<parameters>\n <a >1\n </a>\n <a >2\n </a>\n</parameters>".to_string()));
}

#[test]
fn array_of_objects_repeats_the_element() {
    assert_eq!(
        convert("{\"list\":[{\"x\":\"y\"},{\"x\":\"z\"}]}"),
        Ok("<parameters>\n <list >\n  <x >y</x>\n </list>\n <list >\n  <x >z</x>\n </list>\n</parameters>".to_string())
    );
}

#[test]
fn empty_array_gives_null_element() {
    assert_eq!(convert("{\"a\":[]}"), Ok("<parameters>\n <a>null</a>\n</parameters>".to_string()));
}

#[test]
fn null_member_is_written_as_null() {
    assert_eq!(convert("{\"a\":null}"), Ok("<parameters>\n <a >null</a>\n</parameters>".to_string()));
}

#[test]
fn string_keeps_spaces_and_new_lines() {
    assert_eq!(convert("{\"a\": \"hello world\"}"), Ok("<parameters>\n <a >hello world</a>\n</parameters>".to_string()));
    assert_eq!(convert("{\"a\":\"x\ny\"}"), Ok("<parameters>\n <a >x\ny</a>\n</parameters>".to_string()));
}

#[test]
fn root_array_has_no_element_name() {
    assert_eq!(convert("[1]"), Ok("<unknown>1\n</parameters>".to_string()));
}

fn is_uuid_shaped(s: &str) -> bool {
    s.len() == 36
        && s.chars().enumerate().all(|(i, c)| {
            if i == 8 || i == 13 || i == 18 || i == 23 {
                c == '-'
            } else {
                c.is_ascii_digit() || ('a'..='f').contains(&c)
            }
        })
}

#[test]
fn empty_object_tag_carries_a_generated_mark() {
    let xml = convert("{\"a\":{}}").unwrap();
    assert!(xml.starts_with("<parameters>\n <a "));
    let mark = &xml["<parameters>\n <a ".len().."<parameters>\n <a ".len() + 36];
    assert!(is_uuid_shaped(mark));
    assert!(xml.ends_with("></a>"));
}

#[test]
fn attributes_key_names_its_element() {
    let mut state = State::new();
    let root = Field::new(&mut state.xml_attributes_map);
    state.fields.push(root);
    let mut member = Field::new(&mut state.xml_attributes_map);
    member.key = Some("item_Attributes".to_string());
    state.fields.push(member);
    let id = init_xml_attributes(&mut state, FieldPositionNumForMap { xml_attr_map_num: 2, xml_attr_type_num: 1 });
    assert!(id.map_or(false, |i| is_uuid_shaped(&i)));
    let info = state.xml_attributes.unwrap();
    assert_eq!(info.current_key.attribute_base_name, "item");
}

#[test]
fn chunk_between_group_ids_is_removed() {
    let id = "4e315479-9c93-4295-9b06-d604a4bdcc76".to_string();
    let mut text = format!("<a>\n {}<b>1</b>\n</b>{}\n</a>", id, id);
    assert_eq!(remove_str_chunk_by_key(&mut text, &id), Ok(()));
    assert_eq!(text, format!("<a>\n {}\n</a>", id));
    let mut once = format!("<a>{}</a>", id);
    assert!(remove_str_chunk_by_key(&mut once, &id).is_err());
    assert_eq!(once, format!("<a>{}</a>", id));
}

#[test]
fn output_has_no_surrounding_blanks() {
    let xml = convert(" \n {\"a\":1} \n ").unwrap();
    assert_eq!(xml, xml.trim());
    assert_eq!(xml, "<parameters>\n <a >1</a>\n</parameters>");
}
