pub mod cdata;
pub mod json_build;

use vstd::prelude::*;

use crate::if_to_json::{
    attributes_view, copy_results, empty_result, opt_view, results_pushed, ChildNodesOrKeyVal, ChildNodesOrKeyValView,
    NodeStage, NodeStrResult, NodeStrResultView, OpenTagStage, XmlAttribute, XmlAttributeView,
};
use crate::json_to_xml::state::{indentation, spaces};
use crate::text::{char_to_string, push_char, push_str};

verus! {

/// One open XML element on the reader's stack.
pub struct Node {
    pub child_node_result: ChildNodesOrKeyVal,
    pub node_key: Option<String>,
    pub xml_attributes: Vec<XmlAttribute>,
    pub stage: NodeStage,
    pub is_nested: bool,
}

/// The abstract value of a [`Node`].
pub struct NodeView {
    pub child_node_result: ChildNodesOrKeyValView,
    pub node_key: Option<Seq<char>>,
    pub xml_attributes: Seq<XmlAttributeView>,
    pub stage: NodeStage,
    pub is_nested: bool,
}

impl View for Node {
    type V = NodeView;

    open spec fn view(&self) -> NodeView {
        NodeView {
            child_node_result: self.child_node_result@,
            node_key: opt_view(self.node_key),
            xml_attributes: attributes_view(self.xml_attributes@),
            stage: self.stage,
            is_nested: self.is_nested,
        }
    }
}

/// The views of a stack of elements.
pub open spec fn nodes_view(v: Seq<Node>) -> Seq<NodeView> {
    v.map_values(|n: Node| n@)
}

impl Node {
    /// A fresh element: no name, no attributes, an empty result, at the start of its opening tag.
    pub fn new() -> (r: Node)
        ensures
            r@ == (NodeView {
                child_node_result: ChildNodesOrKeyValView::KeyValue(empty_result()),
                node_key: None,
                xml_attributes: Seq::empty(),
                stage: NodeStage::OpenTag(OpenTagStage::Init),
                is_nested: false,
            }),
    {
        let r = Node {
            child_node_result: ChildNodesOrKeyVal::KeyValue(
                NodeStrResult {
                    xml_attributes_str: String::new(),
                    str_value: String::new(),
                    key: String::new(),
                    is_object: false,
                },
            ),
            stage: NodeStage::OpenTag(OpenTagStage::Init),
            xml_attributes: Vec::new(),
            node_key: None,
            is_nested: false,
        };
        proof {
            assert(r@.xml_attributes =~= Seq::<XmlAttributeView>::empty());
        }
        r
    }
}

/// The state of an XML to JSON reading: the open elements, the JSON once built, the row,
/// the depth, and whether names are written in camel case.
pub struct State {
    pub nodes: Vec<Node>,
    pub str_json: Option<String>,
    pub curr_row_num: i32,
    pub curr_indent: i32,
    pub to_camel_case: bool,
}

/// The abstract value of a [`State`].
pub struct StateView {
    pub nodes: Seq<NodeView>,
    pub str_json: Option<Seq<char>>,
    pub curr_row_num: i32,
    pub curr_indent: i32,
    pub to_camel_case: bool,
}

impl View for State {
    type V = StateView;

    open spec fn view(&self) -> StateView {
        StateView {
            nodes: nodes_view(self.nodes@),
            str_json: opt_view(self.str_json),
            curr_row_num: self.curr_row_num,
            curr_indent: self.curr_indent,
            to_camel_case: self.to_camel_case,
        }
    }
}

impl StateView {
    /// The state with the innermost element replaced by `n`.
    pub open spec fn with_last(self, n: NodeView) -> StateView {
        StateView { nodes: self.nodes.update(self.nodes.len() - 1, n), ..self }
    }

    /// The state with the innermost element at stage `st`.
    pub open spec fn with_last_stage(self, st: NodeStage) -> StateView {
        self.with_last(NodeView { stage: st, ..self.nodes.last() })
    }

    /// `t` is this state with the innermost element moved to a stage that `ok` accepts.
    pub open spec fn restaged(self, t: StateView, ok: spec_fn(NodeStage) -> bool) -> bool {
        &&& t.nodes.len() == self.nodes.len()
        &&& ok(t.nodes.last().stage)
        &&& t == self.with_last_stage(t.nodes.last().stage)
    }

    /// The state with the innermost element's result set to the plain value `r`.
    pub open spec fn with_last_result(self, r: NodeStrResultView) -> StateView {
        self.with_last(NodeView { child_node_result: ChildNodesOrKeyValView::KeyValue(r), ..self.nodes.last() })
    }

    /// The state with `r` added to the results of the element under the innermost one.
    pub open spec fn with_parent_result(self, r: NodeStrResultView) -> StateView {
        let i = self.nodes.len() - 2;
        StateView {
            nodes: self.nodes.update(
                i,
                NodeView { child_node_result: results_pushed(self.nodes[i].child_node_result, r), ..self.nodes[i] },
            ),
            ..self
        }
    }

    /// The state with the innermost element removed.
    pub open spec fn popped(self) -> StateView {
        StateView { nodes: self.nodes.drop_last(), ..self }
    }
}

impl State {
    /// The state before the first character.
    pub fn new() -> (r: State)
        ensures
            r@ == (StateView {
                nodes: Seq::empty(),
                str_json: None,
                curr_row_num: 1,
                curr_indent: 0,
                to_camel_case: false,
            }),
    {
        let r = State { nodes: Vec::new(), str_json: None, curr_row_num: 1, curr_indent: 0, to_camel_case: false };
        proof {
            assert(r@.nodes =~= Seq::<NodeView>::empty());
        }
        r
    }

    /// Moves the innermost element to stage `node_stage`.
    pub fn update_node_stage(&mut self, node_stage: NodeStage)
        requires
            old(self)@.nodes.len() > 0,
        ensures
            final(self)@ == old(self)@.with_last_stage(node_stage),
    {
        let len = self.nodes.len() - 1;
        self.nodes[len].stage = node_stage;
        proof {
            assert(self@.nodes =~= old(self)@.with_last_stage(node_stage).nodes);
        }
    }

    /// Sets the innermost element's result to the plain value `node_result`.
    pub fn update_node_key_val(&mut self, node_result: NodeStrResult)
        requires
            old(self)@.nodes.len() > 0,
        ensures
            final(self)@ == old(self)@.with_last_result(node_result@),
    {
        let len = self.nodes.len() - 1;
        self.nodes[len].child_node_result = ChildNodesOrKeyVal::KeyValue(node_result);
        proof {
            assert(self@.nodes =~= old(self)@.with_last_result(node_result@).nodes);
        }
    }

    /// Adds `node_result` to the results of the element under the innermost one.
    pub fn update_node_result_parent(&mut self, node_result: NodeStrResult)
        requires
            old(self)@.nodes.len() >= 2,
        ensures
            final(self)@ == old(self)@.with_parent_result(node_result@),
    {
        let pos = self.nodes.len() - 2;
        let ghost rv = node_result@;
        let new_result = match &self.nodes[pos].child_node_result {
            ChildNodesOrKeyVal::ChildNodes(child_nodes) => {
                let mut new_child_nodes = copy_results(child_nodes);
                new_child_nodes.push(node_result);
                proof {
                    assert(crate::if_to_json::results_view(new_child_nodes@) =~= crate::if_to_json::results_view(
                        child_nodes@,
                    ).push(rv));
                }
                ChildNodesOrKeyVal::ChildNodes(new_child_nodes)
            },
            ChildNodesOrKeyVal::KeyValue(_) => {
                let mut new_child_nodes: Vec<NodeStrResult> = Vec::new();
                new_child_nodes.push(node_result);
                proof {
                    assert(crate::if_to_json::results_view(new_child_nodes@) =~= seq![rv]);
                }
                ChildNodesOrKeyVal::ChildNodes(new_child_nodes)
            },
        };
        self.nodes[pos].child_node_result = new_result;
        proof {
            assert(self@.nodes =~= old(self)@.with_parent_result(rv).nodes);
        }
    }

    /// The line break and indentation for the current depth.
    pub fn get_indentation_str(&self) -> (r: String)
        ensures
            r@ == indentation(self.curr_indent as int),
    {
        let mut tabs_as_str = String::new();
        let mut k: i32 = 1;
        while k < self.curr_indent
            invariant
                1 <= k,
                self.curr_indent > 1 ==> k <= self.curr_indent,
                self.curr_indent <= 1 ==> k == 1,
                tabs_as_str@ == spaces((k - 1) as nat),
            decreases self.curr_indent - k,
        {
            push_char(&mut tabs_as_str, ' ');
            k = k + 1;
        }
        let mut r = char_to_string('\n');
        push_str(&mut r, tabs_as_str.as_str());
        proof {
            if self.curr_indent > 1 {
                assert(k == self.curr_indent);
            }
        }
        r
    }
}

} // verus!
