pub mod cdata;
pub mod close_tag;
pub mod json_build;
pub mod open_tag;
pub mod xml_attribute;

use vstd::prelude::*;

use crate::json_to_xml::state::indentation;
use crate::json_to_xml::{unexpected_character_text, unexpected_message};
use crate::text::{char_to_string, chars_of, push_char};
use self::cdata::{open_tag_stage_cdata_open, open_tag_stage_cdata_open_post};
use self::close_tag::{
    closed_tag_angle_bracket, closed_tag_angle_bracket_post, closed_tag_key_stage, closed_tag_key_stage_post,
    closed_tag_sibling_or_closing, closed_tag_sibling_or_closing_post, closed_tag_value_stage_forward_slash,
    closed_tag_value_stage_forward_slash_post,
};
use self::open_tag::{
    attribute_key_start, closed_key_is_angle_bracket, closed_key_is_angle_bracket_post, closed_key_is_empty_value,
    closed_key_is_empty_value_post, open_tag_init, open_tag_init_post, open_tag_key_stage_open,
    open_tag_key_stage_open_post, open_tag_value_stage, open_tag_value_stage_post,
};
use self::xml_attribute::{
    xml_attribute_key_closed, xml_attribute_key_closed_post, xml_attribute_key_open, xml_attribute_key_open_post,
    xml_attribute_value_closed, xml_attribute_value_closed_post, xml_attribute_value_open,
    xml_attribute_value_open_post,
};

verus! {

/// The JSON text built for one element: its value, its attributes object (empty when it has
/// none) and its name.
#[derive(Clone)]
pub struct NodeStrResult {
    pub xml_attributes_str: String,
    pub str_value: String,
    pub key: String,
    pub is_object: bool,
}

/// The abstract value of a [`NodeStrResult`].
pub struct NodeStrResultView {
    pub xml_attributes_str: Seq<char>,
    pub str_value: Seq<char>,
    pub key: Seq<char>,
    pub is_object: bool,
}

impl View for NodeStrResult {
    type V = NodeStrResultView;

    open spec fn view(&self) -> NodeStrResultView {
        NodeStrResultView {
            xml_attributes_str: self.xml_attributes_str@,
            str_value: self.str_value@,
            key: self.key@,
            is_object: self.is_object,
        }
    }
}

/// The views of a list of results.
pub open spec fn results_view(v: Seq<NodeStrResult>) -> Seq<NodeStrResultView> {
    v.map_values(|r: NodeStrResult| r@)
}

/// What an element holds so far: a plain value or the results of its children.
pub enum ChildNodesOrKeyVal {
    KeyValue(NodeStrResult),
    ChildNodes(Vec<NodeStrResult>),
}

/// The abstract value of a [`ChildNodesOrKeyVal`].
pub enum ChildNodesOrKeyValView {
    KeyValue(NodeStrResultView),
    ChildNodes(Seq<NodeStrResultView>),
}

impl View for ChildNodesOrKeyVal {
    type V = ChildNodesOrKeyValView;

    open spec fn view(&self) -> ChildNodesOrKeyValView {
        match self {
            ChildNodesOrKeyVal::KeyValue(r) => ChildNodesOrKeyValView::KeyValue(r@),
            ChildNodesOrKeyVal::ChildNodes(v) => ChildNodesOrKeyValView::ChildNodes(results_view(v@)),
        }
    }
}

/// One attribute of an XML element.
pub struct XmlAttribute {
    pub attribute_key: String,
    pub attribute_val: String,
}

/// The abstract value of an [`XmlAttribute`].
pub struct XmlAttributeView {
    pub attribute_key: Seq<char>,
    pub attribute_val: Seq<char>,
}

impl View for XmlAttribute {
    type V = XmlAttributeView;

    open spec fn view(&self) -> XmlAttributeView {
        XmlAttributeView { attribute_key: self.attribute_key@, attribute_val: self.attribute_val@ }
    }
}

/// The views of a list of attributes.
pub open spec fn attributes_view(v: Seq<XmlAttribute>) -> Seq<XmlAttributeView> {
    v.map_values(|a: XmlAttribute| a@)
}

/// A text being read (with the characters so far) or just closed.
pub enum ValueStage {
    Open(String),
    Closed,
}

/// Reading an attribute's name or its value.
pub enum XmlAttributeStage {
    AttributeKey(ValueStage),
    AttributeValue(ValueStage),
}

/// The name of the opening tag and the name of the closing tag read so far.
pub struct InitEndKeys {
    pub open_tag_key: String,
    pub closed_tag_key: String,
}

/// Where the reader stands in an opening tag and the value after it.
pub enum OpenTagStage {
    Init,
    Key,
    Attributes(XmlAttributeStage),
    TagValueCData(String),
    TagValue(String),
    AngelBracket,
    IsEmptyValue,
}

/// Where the reader stands in a closing tag and after it.
pub enum ClosedTagStage {
    ForwardSlash,
    Key(InitEndKeys),
    AngelBracket,
    SibingOrClosing,
}

/// Where the reader stands in an element.
pub enum NodeStage {
    OpenTag(OpenTagStage),
    ClosedTag(ClosedTagStage),
}

/// One open XML element on the reader's stack.
pub struct Node {
    pub node_result: ChildNodesOrKeyVal,
    pub node_key: Option<String>,
    pub xml_attributes: Vec<XmlAttribute>,
    pub stage: NodeStage,
    pub is_nested: bool,
}

/// The abstract value of a [`Node`].
pub struct NodeView {
    pub node_result: ChildNodesOrKeyValView,
    pub node_key: Option<Seq<char>>,
    pub xml_attributes: Seq<XmlAttributeView>,
    pub stage: NodeStage,
    pub is_nested: bool,
}

/// The characters of an optional text.
pub open spec fn opt_view(o: Option<String>) -> Option<Seq<char>> {
    match o {
        Some(s) => Some(s@),
        None => None,
    }
}

impl View for Node {
    type V = NodeView;

    open spec fn view(&self) -> NodeView {
        NodeView {
            node_result: self.node_result@,
            node_key: opt_view(self.node_key),
            xml_attributes: attributes_view(self.xml_attributes@),
            stage: self.stage,
            is_nested: self.is_nested,
        }
    }
}

/// The views of a stack of elements.
pub open spec fn nodes_view(v: Seq<Node>) -> Seq<NodeView> {
    v.map_values(|n: Node| n@)
}

/// The empty result of an element that has none yet.
pub open spec fn empty_result() -> NodeStrResultView {
    NodeStrResultView { xml_attributes_str: Seq::empty(), str_value: Seq::empty(), key: Seq::empty(), is_object: false }
}

impl Node {
    /// A fresh element: no name, no attributes, an empty result, at the start of its opening tag.
    pub fn new() -> (r: Node)
        ensures
            r@ == (NodeView {
                node_result: ChildNodesOrKeyValView::KeyValue(empty_result()),
                node_key: None,
                xml_attributes: Seq::empty(),
                stage: NodeStage::OpenTag(OpenTagStage::Init),
                is_nested: false,
            }),
    {
        let r = Node {
            node_result: ChildNodesOrKeyVal::KeyValue(
                NodeStrResult {
                    xml_attributes_str: String::new(),
                    str_value: String::new(),
                    key: String::new(),
                    is_object: false,
                },
            ),
            stage: NodeStage::OpenTag(OpenTagStage::Init),
            xml_attributes: Vec::new(),
            node_key: None,
            is_nested: false,
        };
        proof {
            assert(r@.xml_attributes =~= Seq::<XmlAttributeView>::empty());
            assert(r@.node_result == ChildNodesOrKeyValView::KeyValue(empty_result()));
        }
        r
    }
}

/// The whole state of an XML to JSON reading.
pub struct State {
    pub nodes: Vec<Node>,
    pub curr_json: String,
    pub curr_row_num: i32,
    pub curr_indent: i32,
}

/// The abstract value of a [`State`].
pub struct StateView {
    pub nodes: Seq<NodeView>,
    pub curr_json: Seq<char>,
    pub curr_row_num: i32,
    pub curr_indent: i32,
}

impl View for State {
    type V = StateView;

    open spec fn view(&self) -> StateView {
        StateView {
            nodes: nodes_view(self.nodes@),
            curr_json: self.curr_json@,
            curr_row_num: self.curr_row_num,
            curr_indent: self.curr_indent,
        }
    }
}

/// The list `v` with `r` added at its end.
pub open spec fn results_pushed(v: ChildNodesOrKeyValView, r: NodeStrResultView) -> ChildNodesOrKeyValView {
    match v {
        ChildNodesOrKeyValView::ChildNodes(c) => ChildNodesOrKeyValView::ChildNodes(c.push(r)),
        ChildNodesOrKeyValView::KeyValue(_) => ChildNodesOrKeyValView::ChildNodes(seq![r]),
    }
}

/// The attributes `a` after attribute name `key` is given: to a new attribute when there is
/// none, else to the last one.
pub open spec fn attributes_with_key(a: Seq<XmlAttributeView>, key: Seq<char>) -> Seq<XmlAttributeView> {
    if a.len() == 0 {
        seq![XmlAttributeView { attribute_key: key, attribute_val: Seq::empty() }]
    } else {
        a.update(a.len() - 1, XmlAttributeView { attribute_key: key, ..a.last() })
    }
}

/// The attributes `a` after attribute value `val` is given: to a new attribute when there is
/// none, else to the last one.
pub open spec fn attributes_with_val(a: Seq<XmlAttributeView>, val: Seq<char>) -> Seq<XmlAttributeView> {
    if a.len() == 0 {
        seq![XmlAttributeView { attribute_key: Seq::empty(), attribute_val: val }]
    } else {
        a.update(a.len() - 1, XmlAttributeView { attribute_val: val, ..a.last() })
    }
}

impl StateView {
    /// The state with the innermost element replaced by `n`.
    pub open spec fn with_last(self, n: NodeView) -> StateView {
        StateView { nodes: self.nodes.update(self.nodes.len() - 1, n), ..self }
    }

    /// The state with the innermost element at stage `st`.
    pub open spec fn with_last_stage(self, st: NodeStage) -> StateView {
        self.with_last(NodeView { stage: st, ..self.nodes.last() })
    }

    /// `t` is this state with the innermost element moved to a stage that `ok` accepts.
    pub open spec fn restaged(self, t: StateView, ok: spec_fn(NodeStage) -> bool) -> bool {
        &&& t.nodes.len() == self.nodes.len()
        &&& ok(t.nodes.last().stage)
        &&& t == self.with_last_stage(t.nodes.last().stage)
    }

    /// The state with the innermost element's result set to the plain value `r`.
    pub open spec fn with_last_result(self, r: NodeStrResultView) -> StateView {
        self.with_last(NodeView { node_result: ChildNodesOrKeyValView::KeyValue(r), ..self.nodes.last() })
    }

    /// The state with `r` added to the results of the element under the innermost one.
    pub open spec fn with_parent_result(self, r: NodeStrResultView) -> StateView {
        let i = self.nodes.len() - 2;
        StateView {
            nodes: self.nodes.update(i, NodeView { node_result: results_pushed(self.nodes[i].node_result, r), ..self.nodes[i] }),
            ..self
        }
    }

    /// The state with the innermost element removed.
    pub open spec fn popped(self) -> StateView {
        StateView { nodes: self.nodes.drop_last(), ..self }
    }
}

impl State {
    /// The state before the first character.
    pub fn new() -> (r: State)
        ensures
            r@ == (StateView { nodes: Seq::empty(), curr_json: Seq::empty(), curr_row_num: 1, curr_indent: 0 }),
    {
        let r = State { nodes: Vec::new(), curr_json: String::new(), curr_row_num: 1, curr_indent: 0 };
        proof {
            assert(r@.nodes =~= Seq::<NodeView>::empty());
        }
        r
    }

    /// Moves the innermost element to stage `node_stage`.
    pub fn update_node_stage(&mut self, node_stage: NodeStage)
        requires
            old(self)@.nodes.len() > 0,
        ensures
            final(self)@ == old(self)@.with_last_stage(node_stage),
    {
        let len = self.nodes.len() - 1;
        self.nodes[len].stage = node_stage;
        proof {
            assert(self@.nodes =~= old(self)@.with_last_stage(node_stage).nodes);
        }
    }

    /// Marks whether the innermost element is nested in a value.
    pub fn update_is_nested(&mut self, is_nested: bool)
        requires
            old(self)@.nodes.len() > 0,
        ensures
            final(self)@ == old(self)@.with_last(NodeView { is_nested, ..old(self)@.nodes.last() }),
    {
        let len = self.nodes.len() - 1;
        self.nodes[len].is_nested = is_nested;
        proof {
            assert(self@.nodes =~= old(self)@.with_last(NodeView { is_nested, ..old(self)@.nodes.last() }).nodes);
        }
    }

    /// Sets the innermost element's result to the plain value `node_result`.
    pub fn update_node_result(&mut self, node_result: NodeStrResult)
        requires
            old(self)@.nodes.len() > 0,
        ensures
            final(self)@ == old(self)@.with_last_result(node_result@),
    {
        let len = self.nodes.len() - 1;
        self.nodes[len].node_result = ChildNodesOrKeyVal::KeyValue(node_result);
        proof {
            assert(self@.nodes =~= old(self)@.with_last_result(node_result@).nodes);
        }
    }

    /// Adds `node_result` to the results of the element under the innermost one.
    pub fn update_node_result_parent(&mut self, node_result: NodeStrResult)
        requires
            old(self)@.nodes.len() >= 2,
        ensures
            final(self)@ == old(self)@.with_parent_result(node_result@),
    {
        let pos = self.nodes.len() - 2;
        let ghost rv = node_result@;
        let new_result = match &self.nodes[pos].node_result {
            ChildNodesOrKeyVal::ChildNodes(child_nodes) => {
                let mut new_child_nodes = copy_results(child_nodes);
                new_child_nodes.push(node_result);
                proof {
                    assert(results_view(new_child_nodes@) =~= results_view(child_nodes@).push(rv));
                }
                ChildNodesOrKeyVal::ChildNodes(new_child_nodes)
            },
            ChildNodesOrKeyVal::KeyValue(_) => {
                let mut new_child_nodes: Vec<NodeStrResult> = Vec::new();
                new_child_nodes.push(node_result);
                proof {
                    assert(results_view(new_child_nodes@) =~= seq![rv]);
                }
                ChildNodesOrKeyVal::ChildNodes(new_child_nodes)
            },
        };
        self.nodes[pos].node_result = new_result;
        proof {
            assert(self@.nodes =~= old(self)@.with_parent_result(rv).nodes);
        }
    }

    /// Gives the innermost element's last attribute (a new one if it has none) the name `key`.
    pub fn update_attribute_key(&mut self, key: &String)
        requires
            old(self)@.nodes.len() > 0,
        ensures
            final(self)@ == old(self)@.with_last(
                NodeView {
                    xml_attributes: attributes_with_key(old(self)@.nodes.last().xml_attributes, key@),
                    ..old(self)@.nodes.last()
                },
            ),
    {
        let len = self.nodes.len() - 1;
        if self.nodes[len].xml_attributes.len() == 0 {
            self.nodes[len].xml_attributes.push(XmlAttribute { attribute_key: key.clone(), attribute_val: String::new() });
        } else {
            let len_xml_attr = self.nodes[len].xml_attributes.len() - 1;
            self.nodes[len].xml_attributes[len_xml_attr].attribute_key = key.clone();
        }
        proof {
            let a = old(self)@.nodes.last().xml_attributes;
            assert(self@.nodes.last().xml_attributes =~= attributes_with_key(a, key@));
            assert(self@.nodes =~= old(self)@.with_last(
                NodeView { xml_attributes: attributes_with_key(a, key@), ..old(self)@.nodes.last() },
            ).nodes);
        }
    }

    /// Gives the innermost element's last attribute (a new one if it has none) the value `str_val`.
    pub fn update_attribute_val(&mut self, str_val: &String)
        requires
            old(self)@.nodes.len() > 0,
        ensures
            final(self)@ == old(self)@.with_last(
                NodeView {
                    xml_attributes: attributes_with_val(old(self)@.nodes.last().xml_attributes, str_val@),
                    ..old(self)@.nodes.last()
                },
            ),
    {
        let len = self.nodes.len() - 1;
        if self.nodes[len].xml_attributes.len() == 0 {
            self.nodes[len].xml_attributes.push(XmlAttribute { attribute_key: String::new(), attribute_val: str_val.clone() });
        } else {
            let len_xml_attr = self.nodes[len].xml_attributes.len() - 1;
            self.nodes[len].xml_attributes[len_xml_attr].attribute_val = str_val.clone();
        }
        proof {
            let a = old(self)@.nodes.last().xml_attributes;
            assert(self@.nodes.last().xml_attributes =~= attributes_with_val(a, str_val@));
            assert(self@.nodes =~= old(self)@.with_last(
                NodeView { xml_attributes: attributes_with_val(a, str_val@), ..old(self)@.nodes.last() },
            ).nodes);
        }
    }

    /// The line break and indentation for the current depth.
    pub fn get_indentation_str(&self) -> (r: String)
        ensures
            r@ == indentation(self.curr_indent as int),
    {
        let mut tabs_as_str = String::new();
        let mut k: i32 = 1;
        while k < self.curr_indent
            invariant
                1 <= k,
                self.curr_indent > 1 ==> k <= self.curr_indent,
                self.curr_indent <= 1 ==> k == 1,
                tabs_as_str@ == crate::json_to_xml::state::spaces((k - 1) as nat),
            decreases self.curr_indent - k,
        {
            push_char(&mut tabs_as_str, ' ');
            k = k + 1;
        }
        let mut r = char_to_string('\n');
        crate::text::push_str(&mut r, tabs_as_str.as_str());
        proof {
            if self.curr_indent > 1 {
                assert(k == self.curr_indent);
            }
        }
        r
    }
}

/// What character `c` does inside an attribute at stage `a`.
pub open spec fn attribute_stage_step(s: StateView, c: char, a: XmlAttributeStage, r: Result<(), String>, t: StateView) -> bool {
    match a {
        XmlAttributeStage::AttributeKey(ValueStage::Open(k)) => xml_attribute_key_open_post(s, c, k@, r, t),
        XmlAttributeStage::AttributeKey(ValueStage::Closed) => xml_attribute_key_closed_post(s, c, r, t),
        XmlAttributeStage::AttributeValue(ValueStage::Open(v)) => r is Ok && xml_attribute_value_open_post(s, c, v@, t),
        XmlAttributeStage::AttributeValue(ValueStage::Closed) => xml_attribute_value_closed_post(s, c, false, r, t),
    }
}

/// What character `c` does, by the stage of the innermost element.
pub open spec fn stage_step(s: StateView, c: char, r: Result<(), String>, t: StateView) -> bool {
    match s.nodes.last().stage {
        NodeStage::OpenTag(o) => match o {
            OpenTagStage::Init => open_tag_init_post(s, c, r, t),
            OpenTagStage::Key => open_tag_key_stage_open_post(s, c, false, r, t),
            OpenTagStage::Attributes(a) => attribute_stage_step(s, c, a, r, t),
            OpenTagStage::TagValueCData(v) => r is Ok && open_tag_stage_cdata_open_post(s, c, v@, t),
            OpenTagStage::TagValue(v) => r is Ok && open_tag_value_stage_post(s, c, v@, t),
            OpenTagStage::AngelBracket => r is Ok && closed_key_is_angle_bracket_post(s, c, t),
            OpenTagStage::IsEmptyValue => r is Ok && closed_key_is_empty_value_post(s, c, t),
        },
        NodeStage::ClosedTag(cl) => match cl {
            ClosedTagStage::ForwardSlash => closed_tag_value_stage_forward_slash_post(s, c, r, t),
            ClosedTagStage::Key(keys) => closed_tag_key_stage_post(s, c, keys.open_tag_key@, keys.closed_tag_key@, r, t),
            ClosedTagStage::AngelBracket => closed_tag_angle_bracket_post(s, c, r, t),
            ClosedTagStage::SibingOrClosing => closed_tag_sibling_or_closing_post(s, c, r, t),
        },
    }
}

/// The blanks that may separate the parts of a tag: space, tab and carriage return.
pub open spec fn is_blank(c: char) -> bool {
    c == ' ' || c == '\t' || c == '\r'
}

/// Where a blank is meaningful: after a tag name that was read, or after an attribute value;
/// there it starts the next attribute name.
pub open spec fn blank_handled(s: StateView) -> bool {
    ||| (s.nodes.last().stage == NodeStage::OpenTag(OpenTagStage::Key) && s.nodes.last().node_key is Some)
    ||| s.nodes.last().stage == NodeStage::OpenTag(
        OpenTagStage::Attributes(XmlAttributeStage::AttributeValue(ValueStage::Closed)),
    )
}

/// The element a `<` opens: a fresh element without name, reading its name.
pub open spec fn root_node() -> NodeView {
    NodeView {
        node_result: ChildNodesOrKeyValView::KeyValue(empty_result()),
        node_key: None,
        xml_attributes: Seq::empty(),
        stage: NodeStage::OpenTag(OpenTagStage::Init),
        is_nested: false,
    }
}

/// What the reading does with one character `c` in state `s`: with result `r` the new state is
/// `t`. A new line only counts the row; before any element blanks are skipped and `<` opens
/// the outermost element; inside an element blanks are skipped where they mean nothing.
pub open spec fn single_step(s: StateView, c: char, r: Result<(), String>, t: StateView) -> bool {
    if c == '\n' {
        r is Ok && t == (StateView { curr_row_num: (s.curr_row_num + 1) as i32, ..s })
    } else if s.nodes.len() == 0 {
        if is_blank(c) {
            r is Ok && t == s
        } else if c == '<' {
            r is Ok && t == (StateView { nodes: s.nodes.push(root_node()), ..s })
        } else {
            r is Err && r->Err_0@ == unexpected_message(c, s.curr_row_num)
        }
    } else if is_blank(c) && blank_handled(s) {
        r is Ok && s.restaged(t, attribute_key_start())
    } else {
        stage_step(s, c, r, t)
    }
}

fn xml_attribute_stage_key_decision(char_val: &char, state: &mut State, xml_attribute_stage_key: ValueStage) -> (r: Result<(), String>)
    requires
        old(state)@.nodes.len() > 0,
        forall|e: Result<(), String>, t: StateView| #[trigger] attribute_stage_step(old(state)@, *char_val, XmlAttributeStage::AttributeKey(xml_attribute_stage_key), e, t) ==> e is Ok,
    ensures
        attribute_stage_step(old(state)@, *char_val, XmlAttributeStage::AttributeKey(xml_attribute_stage_key), r, final(state)@),
{
    let ghost a = XmlAttributeStage::AttributeKey(xml_attribute_stage_key);
    match xml_attribute_stage_key {
        ValueStage::Open(str_val) => {
            proof {
                assert forall|e: Result<(), String>, t: StateView| #[trigger] xml_attribute_key_open_post(old(state)@, *char_val, str_val@, e, t) implies e is Ok by {
                    assert(attribute_stage_step(old(state)@, *char_val, a, e, t));
                }
            }
            xml_attribute_key_open(char_val, state, &str_val)
        },
        ValueStage::Closed => {
            proof {
                assert forall|e: Result<(), String>, t: StateView| #[trigger] xml_attribute_key_closed_post(old(state)@, *char_val, e, t) implies e is Ok by {
                    assert(attribute_stage_step(old(state)@, *char_val, a, e, t));
                }
            }
            xml_attribute_key_closed(char_val, state)
        },
    }
}

fn xml_attribute_stage_val_decision(char_val: &char, state: &mut State, xml_attribute_stage_value: ValueStage) -> (r: Result<(), String>)
    requires
        old(state)@.nodes.len() > 0,
        forall|e: Result<(), String>, t: StateView| #[trigger] attribute_stage_step(old(state)@, *char_val, XmlAttributeStage::AttributeValue(xml_attribute_stage_value), e, t) ==> e is Ok,
    ensures
        attribute_stage_step(old(state)@, *char_val, XmlAttributeStage::AttributeValue(xml_attribute_stage_value), r, final(state)@),
{
    let ghost a = XmlAttributeStage::AttributeValue(xml_attribute_stage_value);
    match xml_attribute_stage_value {
        ValueStage::Open(str_val) => {
            xml_attribute_value_open(char_val, state, &str_val);
            Ok(())
        },
        ValueStage::Closed => {
            proof {
                assert forall|e: Result<(), String>, t: StateView| #[trigger] xml_attribute_value_closed_post(old(state)@, *char_val, false, e, t) implies e is Ok by {
                    assert(attribute_stage_step(old(state)@, *char_val, a, e, t));
                }
            }
            xml_attribute_value_closed(char_val, state, false)
        },
    }
}

fn open_tag_stage_attributes_decision(char_val: &char, state: &mut State, open_tag_stage_attributes: XmlAttributeStage) -> (r: Result<(), String>)
    requires
        old(state)@.nodes.len() > 0,
        forall|e: Result<(), String>, t: StateView| #[trigger] attribute_stage_step(old(state)@, *char_val, open_tag_stage_attributes, e, t) ==> e is Ok,
    ensures
        attribute_stage_step(old(state)@, *char_val, open_tag_stage_attributes, r, final(state)@),
{
    match open_tag_stage_attributes {
        XmlAttributeStage::AttributeKey(xml_attribute_stage_key) => {
            xml_attribute_stage_key_decision(char_val, state, xml_attribute_stage_key)
        },
        XmlAttributeStage::AttributeValue(xml_attribute_stage_val) => {
            xml_attribute_stage_val_decision(char_val, state, xml_attribute_stage_val)
        },
    }
}

fn is_blank_char(char_val: &char) -> (r: bool)
    ensures
        r == is_blank(*char_val),
{
    *char_val == ' ' || *char_val == '\t' || *char_val == '\r'
}

fn should_not_ignore_white_space(char_val: &char, state: &mut State) -> (r: bool)
    requires
        old(state)@.nodes.len() > 0,
    ensures
        r == (is_blank(*char_val) && blank_handled(old(state)@)),
        r ==> old(state)@.restaged(final(state)@, attribute_key_start()),
        !r ==> final(state)@ == old(state)@,
{
    if !is_blank_char(char_val) {
        return false;
    }
    let len = state.nodes.len() - 1;
    let has_key = state.nodes[len].node_key.is_some();
    match &state.nodes[len].stage {
        NodeStage::OpenTag(OpenTagStage::Key) => {
            if !has_key {
                return false;
            }
            proof {
                assert forall|e: Result<(), String>, t: StateView| #[trigger] open_tag_key_stage_open_post(old(state)@, *char_val, true, e, t) implies e is Ok by {}
            }
            let _ = open_tag_key_stage_open(char_val, state, true);
            true
        },
        NodeStage::OpenTag(OpenTagStage::Attributes(XmlAttributeStage::AttributeValue(ValueStage::Closed))) => {
            proof {
                assert forall|e: Result<(), String>, t: StateView| #[trigger] xml_attribute_value_closed_post(old(state)@, *char_val, true, e, t) implies e is Ok by {}
            }
            let _ = xml_attribute_value_closed(char_val, state, true);
            true
        },
        _ => false,
    }
}

fn copy_stage(st: &NodeStage) -> (r: NodeStage)
    ensures
        r == *st,
{
    match st {
        NodeStage::OpenTag(o) => NodeStage::OpenTag(
            match o {
                OpenTagStage::Init => OpenTagStage::Init,
                OpenTagStage::Key => OpenTagStage::Key,
                OpenTagStage::Attributes(a) => OpenTagStage::Attributes(
                    match a {
                        XmlAttributeStage::AttributeKey(v) => XmlAttributeStage::AttributeKey(copy_value_stage(v)),
                        XmlAttributeStage::AttributeValue(v) => XmlAttributeStage::AttributeValue(copy_value_stage(v)),
                    },
                ),
                OpenTagStage::TagValueCData(v) => OpenTagStage::TagValueCData(v.clone()),
                OpenTagStage::TagValue(v) => OpenTagStage::TagValue(v.clone()),
                OpenTagStage::AngelBracket => OpenTagStage::AngelBracket,
                OpenTagStage::IsEmptyValue => OpenTagStage::IsEmptyValue,
            },
        ),
        NodeStage::ClosedTag(c) => NodeStage::ClosedTag(
            match c {
                ClosedTagStage::ForwardSlash => ClosedTagStage::ForwardSlash,
                ClosedTagStage::Key(k) => ClosedTagStage::Key(
                    InitEndKeys { open_tag_key: k.open_tag_key.clone(), closed_tag_key: k.closed_tag_key.clone() },
                ),
                ClosedTagStage::AngelBracket => ClosedTagStage::AngelBracket,
                ClosedTagStage::SibingOrClosing => ClosedTagStage::SibingOrClosing,
            },
        ),
    }
}

fn copy_value_stage(v: &ValueStage) -> (r: ValueStage)
    ensures
        r == *v,
{
    match v {
        ValueStage::Open(s) => ValueStage::Open(s.clone()),
        ValueStage::Closed => ValueStage::Closed,
    }
}

/// The stage step `stage_step` changes the depth by at most one and keeps the row.
pub open spec fn step_moves(s: StateView, t: StateView) -> bool {
    &&& s.curr_indent - 1 <= t.curr_indent <= s.curr_indent + 1
    &&& t.curr_row_num == s.curr_row_num
}

fn to_if_req_single(char_val: &char, state: &mut State) -> (r: Result<(), String>)
    requires
        old(state)@.curr_row_num < i32::MAX,
        i32::MIN < old(state)@.curr_indent < i32::MAX,
        forall|e: Result<(), String>, t: StateView| #[trigger] single_step(old(state)@, *char_val, e, t) ==> e is Ok,
    ensures
        single_step(old(state)@, *char_val, r, final(state)@),
        old(state)@.curr_indent - 1 <= final(state)@.curr_indent <= old(state)@.curr_indent + 1,
        old(state)@.curr_row_num <= final(state)@.curr_row_num <= old(state)@.curr_row_num + 1,
{
    if *char_val == '\n' {
        state.curr_row_num = state.curr_row_num + 1;
        return Ok(());
    }
    if state.nodes.len() == 0 {
        if is_blank_char(char_val) {
            return Ok(());
        }
        if *char_val != '<' {
            return Err(unexpected_character_text(*char_val, state.curr_row_num));
        }
        state.nodes.push(Node::new());
        proof {
            assert(state@.nodes =~= old(state)@.nodes.push(root_node()));
        }
        return Ok(());
    }
    if should_not_ignore_white_space(char_val, state) {
        return Ok(());
    }
    let ghost s = state@;
    proof {
        assert forall|e: Result<(), String>, t: StateView| #[trigger] stage_step(s, *char_val, e, t) implies e is Ok by {
            assert(single_step(old(state)@, *char_val, e, t));
        }
    }
    let node_stage = copy_stage(&state.nodes[state.nodes.len() - 1].stage);
    let res = match node_stage {
        NodeStage::OpenTag(open_tag_options) => match open_tag_options {
            OpenTagStage::Init => {
                proof {
                    assert forall|e: Result<(), String>, t: StateView| #[trigger] open_tag_init_post(s, *char_val, e, t) implies e is Ok by {
                        assert(stage_step(s, *char_val, e, t));
                    }
                }
                open_tag_init(char_val, state)
            },
            OpenTagStage::Key => {
                proof {
                    assert forall|e: Result<(), String>, t: StateView| #[trigger] open_tag_key_stage_open_post(s, *char_val, false, e, t) implies e is Ok by {
                        assert(stage_step(s, *char_val, e, t));
                    }
                }
                open_tag_key_stage_open(char_val, state, false)
            },
            OpenTagStage::Attributes(open_tag_stage_attributes) => {
                proof {
                    assert forall|e: Result<(), String>, t: StateView| #[trigger] attribute_stage_step(s, *char_val, open_tag_stage_attributes, e, t) implies e is Ok by {
                        assert(stage_step(s, *char_val, e, t));
                    }
                }
                open_tag_stage_attributes_decision(char_val, state, open_tag_stage_attributes)
            },
            OpenTagStage::TagValueCData(curr_val) => {
                open_tag_stage_cdata_open(char_val, state, &curr_val);
                Ok(())
            },
            OpenTagStage::TagValue(node_val) => {
                open_tag_value_stage(char_val, state, &node_val);
                Ok(())
            },
            OpenTagStage::AngelBracket => {
                closed_key_is_angle_bracket(char_val, state);
                Ok(())
            },
            OpenTagStage::IsEmptyValue => {
                closed_key_is_empty_value(char_val, state);
                Ok(())
            },
        },
        NodeStage::ClosedTag(closed_tag_options) => match closed_tag_options {
            ClosedTagStage::ForwardSlash => {
                proof {
                    assert forall|e: Result<(), String>, t: StateView| #[trigger] closed_tag_value_stage_forward_slash_post(s, *char_val, e, t) implies e is Ok by {
                        assert(stage_step(s, *char_val, e, t));
                    }
                }
                closed_tag_value_stage_forward_slash(char_val, state)
            },
            ClosedTagStage::Key(init_end_keys) => {
                proof {
                    assert forall|e: Result<(), String>, t: StateView| #[trigger] closed_tag_key_stage_post(s, *char_val, init_end_keys.open_tag_key@, init_end_keys.closed_tag_key@, e, t) implies e is Ok by {
                        assert(stage_step(s, *char_val, e, t));
                    }
                }
                closed_tag_key_stage(char_val, state, &init_end_keys.open_tag_key, &init_end_keys.closed_tag_key)
            },
            ClosedTagStage::AngelBracket => {
                proof {
                    assert forall|e: Result<(), String>, t: StateView| #[trigger] closed_tag_angle_bracket_post(s, *char_val, e, t) implies e is Ok by {
                        assert(stage_step(s, *char_val, e, t));
                    }
                }
                closed_tag_angle_bracket(char_val, state)
            },
            ClosedTagStage::SibingOrClosing => {
                proof {
                    assert forall|e: Result<(), String>, t: StateView| #[trigger] closed_tag_sibling_or_closing_post(s, *char_val, e, t) implies e is Ok by {
                        assert(stage_step(s, *char_val, e, t));
                    }
                }
                closed_tag_sibling_or_closing(char_val, state)
            },
        },
    };
    proof {
        assert(stage_step(s, *char_val, res, state@));
        assert(res is Ok);
        assert(step_moves(s, state@));
    }
    res
}

/// One step of the reading from the state at `i` in the run `run` to the state at `i + 1`.
pub open spec fn step_at(input: Seq<char>, run: Seq<StateView>, i: int) -> bool {
    single_step(run[i], input[i], Ok(()), run[i + 1])
}

/// `run` is a run of successful steps over the first `run.len() - 1` characters of `input`.
pub open spec fn successful_run(input: Seq<char>, run: Seq<StateView>) -> bool {
    &&& 1 <= run.len() <= input.len() + 1
    &&& forall|i: int| 0 <= i < run.len() - 1 ==> #[trigger] step_at(input, run, i)
}

/// `input` is a text the reading accepts from state `init`: after any run of successful
/// steps over a part of it, the step on the next character cannot fail. On every other text
/// the reading stops with an error naming the character and its row.
pub open spec fn accepted_input(input: Seq<char>, init: StateView) -> bool {
    forall|run: Seq<StateView>, e: Result<(), String>, t: StateView|
        successful_run(input, run) && run[0] == init && run.len() <= input.len()
            && #[trigger] single_step(run.last(), input[run.len() - 1], e, t) ==> e is Ok
}

/// Reading `input` from state `init` can give the JSON text `x`: the JSON written by a run of
/// successful steps over all of `input`.
pub open spec fn reads_to(input: Seq<char>, init: StateView, x: Seq<char>) -> bool {
    exists|run: Seq<StateView>|
        #[trigger] successful_run(input, run) && run[0] == init && run.len() == input.len() + 1 && x
            == run.last().curr_json
}

/// The state before the first character of a reading.
pub open spec fn reading_start() -> StateView {
    StateView { nodes: Seq::empty(), curr_json: Seq::empty(), curr_row_num: 1, curr_indent: 0 }
}

/// Reads an XML text into JSON, one character at a time: the first `<` opens the outermost
/// element, tags, attributes and values are read by the stages of the innermost element, and
/// each finished element hands its JSON to the one around it; the outermost one writes the
/// result. It takes the texts that [`accepted_input`] admits and gives the JSON that
/// [`reads_to`] describes.
pub fn if_to_json(xml_str: &String) -> (r: Result<String, String>)
    requires
        xml_str@.len() < i32::MAX - 1,
        accepted_input(xml_str@, reading_start()),
    ensures
        r matches Ok(x) && reads_to(xml_str@, reading_start(), x@),
{
    let mut state = State::new();
    let chars = chars_of(xml_str.as_str());
    let ghost init = state@;
    let ghost mut run: Seq<StateView> = seq![state@];
    let mut i: usize = 0;
    while i < chars.len()
        invariant
            chars@ == xml_str@,
            xml_str@.len() < i32::MAX - 1,
            i <= chars.len(),
            init == reading_start(),
            run.len() == i + 1,
            run[0] == init,
            run.last() == state@,
            successful_run(xml_str@, run),
            accepted_input(xml_str@, init),
            -(i as int) <= state@.curr_indent <= i,
            1 <= state@.curr_row_num <= 1 + i,
        decreases chars.len() - i,
    {
        let c = chars[i];
        let ghost before = state@;
        proof {
            assert(c == xml_str@[i as int]);
            assert forall|e: Result<(), String>, t: StateView| #[trigger] single_step(before, c, e, t) implies e is Ok by {
                assert(single_step(run.last(), xml_str@[run.len() - 1], e, t));
            }
        }
        let res = to_if_req_single(&c, &mut state);
        let ghost res0 = res;
        match res {
            Ok(()) => {},
            Err(e) => {
                proof {
                    assert(single_step(run.last(), xml_str@[run.len() - 1], res0, state@));
                    assert(false);
                }
                return Err(e);
            },
        }
        proof {
            let run2 = run.push(state@);
            assert forall|j: int| 0 <= j < run2.len() - 1 implies #[trigger] step_at(xml_str@, run2, j) by {
                if j < run.len() - 1 {
                    assert(step_at(xml_str@, run, j));
                    assert(run2[j] == run[j] && run2[j + 1] == run[j + 1]);
                } else {
                    assert(run2[j] == before && run2[j + 1] == state@);
                    assert(res0 is Ok);
                    assert(res0->Ok_0 == ());
                    assert(res0 == Ok::<(), String>(()));
                }
            }
            run = run2;
        }
        i = i + 1;
    }
    proof {
        assert(successful_run(xml_str@, run));
    }
    Ok(state.curr_json)
}

pub fn copy_results(v: &Vec<NodeStrResult>) -> (r: Vec<NodeStrResult>)
    ensures
        results_view(r@) == results_view(v@),
{
    let mut r: Vec<NodeStrResult> = Vec::new();
    let mut i: usize = 0;
    while i < v.len()
        invariant
            i <= v.len(),
            r.len() == i,
            results_view(r@) =~= results_view(v@).take(i as int),
        decreases v.len() - i,
    {
        let x = NodeStrResult {
            xml_attributes_str: v[i].xml_attributes_str.clone(),
            str_value: v[i].str_value.clone(),
            key: v[i].key.clone(),
            is_object: v[i].is_object,
        };
        proof {
            assert(x@ == v@[i as int]@);
        }
        let ghost r0 = r@;
        r.push(x);
        proof {
            assert forall|j: int| 0 <= j < i + 1 implies #[trigger] results_view(r@)[j] == results_view(v@).take(i + 1)[j] by {
                if j < i {
                    assert(r@[j] == r0[j]);
                    assert(results_view(r0)[j] == results_view(v@).take(i as int)[j]);
                }
            }
            assert(results_view(r@) =~= results_view(v@).take(i + 1));
        }
        i = i + 1;
    }
    r
}

} // verus!
