use if_parser::if_to_json::close_tag::closed_tag_key_stage;
use if_parser::if_to_json::xml_attribute::{xml_attribute_key_closed, xml_attribute_key_open, xml_attribute_value_closed, xml_attribute_value_open};
use if_parser::if_to_json::json_build::{build_array_json as old_build_array_json, build_object_json as old_build_object_json, get_xml_attributes as old_get_xml_attributes};
use if_parser::if_to_json::open_tag::{open_tag_init, open_tag_key_stage_open, open_tag_value_stage};
use if_parser::if_to_json::{if_to_json, Node as OldNode, NodeStrResult, State as OldState, XmlAttribute};
use if_parser::if_to_json::cdata::open_tag_stage_cdata_closed;
use if_parser::if_to_json::{ChildNodesOrKeyVal, ClosedTagStage, NodeStage};
use if_parser::xml_to_json::json_build::{build_array_json, build_object_json, construct_last, get_xml_attributes};
use if_parser::xml_to_json::{Node, State};

fn sample_attributes() -> Vec<XmlAttribute> {
    vec![
        XmlAttribute { attribute_key: "name".to_string(), attribute_val: "Joshua".to_string() },
        XmlAttribute { attribute_key: "hobby".to_string(), attribute_val: "piano".to_string() },
        XmlAttribute { attribute_key: "age".to_string(), attribute_val: "29".to_string() },
    ]
}

fn sample_nodes(attr: &str) -> Vec<NodeStrResult> {
    let obj = "{\n \"a\": 1\n}".to_string();
    vec![
        NodeStrResult { str_value: obj.clone(), xml_attributes_str: attr.to_string(), key: "test".to_string(), is_object: true },
        NodeStrResult { str_value: obj, xml_attributes_str: "  null".to_string(), key: "test".to_string(), is_object: true },
    ]
}

#[test]
fn attributes_become_json_object() {
    let mut state = State::new();
    state.curr_indent = 2;
    state.nodes.push(Node::new());
    let mut attr_str = String::new();
    let found = get_xml_attributes(&sample_attributes(), &mut state, &mut attr_str);
    assert!(found);
    assert_eq!(attr_str, "\n  {\n\n   \"name\": \"Joshua\",\n\n   \"hobby\": \"piano\",\n\n   \"age\": \"29\"\n\n  }");
}

#[test]
fn no_attributes_leave_text_alone() {
    let mut state = State::new();
    let mut attr_str = "kept".to_string();
    assert!(!get_xml_attributes(&Vec::new(), &mut state, &mut attr_str));
    assert_eq!(attr_str, "kept");
}

#[test]
fn json_building_array_and_object() {
    let mut state = State::new();
    state.curr_indent = 2;
    state.nodes.push(Node::new());
    let mut attr_str = String::new();
    let _ = get_xml_attributes(&sample_attributes(), &mut state, &mut attr_str);
    let nodes = sample_nodes(&attr_str);
    let json_arr = build_array_json(&nodes, &mut state);
    assert_eq!(json_arr, "\n  \"test\": [\n  {\n  \"a\": 1\n },\n  {\n  \"a\": 1\n }\n\n  ],\n\n  \"test_attributes\": [\n\n  {\n\n   \"name\": \"Joshua\",\n\n   \"hobby\": \"piano\",\n\n   \"age\": \"29\"\n\n  },\n  null\n\n  ]");
    let json_obj = build_object_json(&nodes[0], &mut state);
    assert_eq!(json_obj, "\n  \"test\": {\n \"a\": 1\n},\n\n  \"test_attributes\": {\n\n   \"name\": \"Joshua\",\n\n   \"hobby\": \"piano\",\n\n   \"age\": \"29\"\n\n }");
}

#[test]
fn object_without_attributes() {
    let mut state = State::new();
    state.curr_indent = 2;
    let node = NodeStrResult { str_value: "{\n \"a\": 1\n}".to_string(), xml_attributes_str: String::new(), key: "test".to_string(), is_object: true };
    assert_eq!(build_object_json(&node, &mut state), "\n  \"test\": {\n \"a\": 1\n}");
}

#[test]
fn older_json_building() {
    let mut state = OldState::new();
    state.curr_indent = 2;
    state.nodes.push(OldNode::new());
    let mut attr_str = String::new();
    let _ = old_get_xml_attributes(&sample_attributes(), &mut state, &mut attr_str);
    assert_eq!(attr_str, "\n  {\n\n   \"name\": \"Joshua\",\n\n   \"hobby\": \"piano\",\n\n   \"age\": \"29\"\n\n  }");
    let nodes = sample_nodes(&attr_str);
    state.curr_indent = 1;
    assert_eq!(old_build_array_json(&nodes, &mut state), "\n\"test\": [\n{\n \"a\": 1\n},\n{\n \"a\": 1\n}\n\n],\n\n\"test_attributes\": [\n\n  {\n\n   \"name\": \"Joshua\",\n\n   \"hobby\": \"piano\",\n\n   \"age\": \"29\"\n\n  },\n  null\n\n]");
    assert_eq!(old_build_object_json(&nodes[0], &mut state), "\n\"test\": {\n \"a\": \n},\n\n\"test_attributes\": {\n\n   \"name\": \"Joshua\",\n\n   \"hobby\": \"piano\",\n\n   \"age\": \"29\"\n\n }");
}

#[test]
fn older_array_without_attributes() {
    let mut state = OldState::new();
    state.curr_indent = 1;
    let nodes = vec![
        NodeStrResult { str_value: "1".to_string(), xml_attributes_str: String::new(), key: "k".to_string(), is_object: false },
        NodeStrResult { str_value: "2".to_string(), xml_attributes_str: String::new(), key: "k".to_string(), is_object: false },
    ];
    assert_eq!(old_build_array_json(&nodes, &mut state), "\n\"k\": [\n1,\n2\n\n]");
}

#[test]
fn reading_starts_at_the_first_angle_bracket() {
    assert_eq!(if_to_json(&" \n<a>1</a>".to_string()), Ok(String::new()));
}

#[test]
fn closing_tag_matching_the_opening_tag_ends_it() {
    let mut state = OldState::new();
    state.nodes.push(OldNode::new());
    let ok = closed_tag_key_stage(&'>', &mut state, &"a".to_string(), &"a".to_string());
    assert_eq!(ok, Ok(()));
}

#[test]
fn tag_name_is_read_letter_by_letter() {
    let mut state = OldState::new();
    state.nodes.push(OldNode::new());
    assert_eq!(open_tag_init(&'a', &mut state), Ok(()));
    assert_eq!(open_tag_key_stage_open(&'b', &mut state, false), Ok(()));
    assert_eq!(state.nodes[0].node_key, Some("ab".to_string()));
}

fn value(key: &str, text: &str) -> NodeStrResult {
    NodeStrResult { str_value: format!("\n  {}", text), xml_attributes_str: String::new(), key: key.to_string(), is_object: false }
}

#[test]
fn repeated_children_become_an_array() {
    let mut state = State::new();
    state.curr_indent = 1;
    let mut root = Node::new();
    root.node_key = Some("root".to_string());
    root.child_node_result = ChildNodesOrKeyVal::ChildNodes(vec![value("a", "1"), value("a", "2"), value("b", "\"x\"")]);
    state.nodes.push(root);
    construct_last(&mut state);
    assert_eq!(
        state.str_json,
        Some("\"root\": {\n\n \"a\": [\n\n  1,\n\n  2\n\n ],\n\n \"b\": \"x\"\n\n}".to_string())
    );
}

#[test]
fn value_starting_with_a_letter_opens_a_child_without_name() {
    let mut state = OldState::new();
    state.nodes.push(OldNode::new());
    let indent = state.curr_indent;
    open_tag_value_stage(&'<', &mut state, &String::new());
    assert_eq!(state.nodes.len(), 1);
    open_tag_value_stage(&'h', &mut state, &String::new());
    assert_eq!(state.nodes.len(), 2);
    assert_eq!(state.nodes[1].node_key, Some(String::new()));
    assert!(state.nodes[1].is_nested);
    assert_eq!(state.curr_indent, indent + 1);
}

#[test]
fn camel_case_keys_when_asked() {
    let mut state = State::new();
    state.curr_indent = 1;
    state.to_camel_case = true;
    let node = value("my_key", "1");
    assert_eq!(build_object_json(&node, &mut state), "\n \"myKey\": 1");
}

#[test]
fn slash_after_cdata_starts_the_closing_tag() {
    let mut state = OldState::new();
    let mut node = OldNode::new();
    node.node_key = Some("a".to_string());
    state.nodes.push(node);
    assert_eq!(open_tag_stage_cdata_closed(&'/', &mut state), Ok(()));
    match &state.nodes[0].stage {
        NodeStage::ClosedTag(ClosedTagStage::Key(keys)) => {
            assert_eq!(keys.open_tag_key, "a");
            assert_eq!(keys.closed_tag_key, "");
        }
        _ => panic!("the closing tag's name is not being read"),
    }
}

fn read_attribute(state: &mut OldState, key: &str, value: &str) {
    let mut k = String::new();
    for c in key.chars() {
        assert_eq!(xml_attribute_key_open(&c, state, &k), Ok(()));
        k.push(c);
    }
    assert_eq!(xml_attribute_key_open(&'=', state, &k), Ok(()));
    assert_eq!(xml_attribute_key_closed(&'"', state), Ok(()));
    let mut v = String::new();
    for c in value.chars() {
        xml_attribute_value_open(&c, state, &v);
        v.push(c);
    }
    xml_attribute_value_open(&'"', state, &v);
}

#[test]
fn attributes_are_read_into_the_element() {
    let mut state = OldState::new();
    let mut node = OldNode::new();
    node.node_key = Some("x".to_string());
    state.nodes.push(node);
    read_attribute(&mut state, "id", "7");
    assert_eq!(state.nodes[0].xml_attributes.len(), 1);
    assert_eq!(state.nodes[0].xml_attributes[0].attribute_key, "id");
    assert_eq!(state.nodes[0].xml_attributes[0].attribute_val, "7");
    assert_eq!(xml_attribute_value_closed(&' ', &mut state, true), Ok(()));
    read_attribute(&mut state, "b", "2");
    assert_eq!(state.nodes[0].xml_attributes.len(), 1);
    assert_eq!(state.nodes[0].xml_attributes[0].attribute_key, "b");
    assert_eq!(state.nodes[0].xml_attributes[0].attribute_val, "2");
    assert_eq!(xml_attribute_value_closed(&'>', &mut state, false), Ok(()));
}
