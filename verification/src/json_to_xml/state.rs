use vstd::prelude::*;

use crate::bindings::is_uuid_text;
use crate::text::push_char;
use super::models::{Field, NestingState, TokenStage, TokenType};
use crate::text::opt_string_view;
use super::models::FieldPositionNumForMap;
use super::xml_attributes::{attr_type_of};
use super::xml_attributes::maps::{find_map_entry, remove_map_entry};
use super::xml_attributes::models::{
    map_entries_view, map_index, map_inserted, map_removed, XmlAttributesBasicInfo, XmlAttributesMapEntry,
    XmlAttributesMapEntryView, XmlAttributesStages, XmlAttributesType, XmlAttributesTypeView,
};
use super::xml_attributes::xml_attributes_abort::{abort_attributes, aborted};
use super::xml_attributes::xml_attributes_end::{
    array_end_text, check_end_xml_attributes_array_handling, check_end_xml_attributes_object_handling,
    check_end_xml_no_attributes_handling, ids_replaced, missing_group_id_message, object_end_text,
};
use super::xml_attributes::xml_attributes_init::{check_starts_attributes, init_xml_attributes, started_attributes};
use super::xml_attributes::xml_attributes_object_id::{
    closing_object_id, get_attributes_object_id_for_closing_tag, object_id_outcome,
};
use super::xml_attributes::xml_attributes_update::{
    state_with_type, type_with_key, type_with_value, update_xml_attribute_key, update_xml_attribute_value,
};

verus! {

/// The whole state of a JSON to XML conversion.
pub struct State {
    pub fields: Vec<Field>,
    pub curr_xml: String,
    pub curr_row_num: i32,
    pub curr_indent: i32,
    pub xml_attributes: Option<XmlAttributesBasicInfo>,
    pub xml_attributes_map: Vec<XmlAttributesMapEntry>,
    pub to_snake_case: bool,
    pub root_name: String,
}

/// The abstract value of a [`State`].
pub struct StateView {
    pub fields: Seq<Field>,
    pub curr_xml: Seq<char>,
    pub curr_row_num: i32,
    pub curr_indent: i32,
    pub xml_attributes: Option<XmlAttributesBasicInfo>,
    pub xml_attributes_map: Seq<XmlAttributesMapEntryView>,
    pub to_snake_case: bool,
    pub root_name: Seq<char>,
}

impl View for State {
    type V = StateView;

    open spec fn view(&self) -> StateView {
        StateView {
            fields: self.fields@,
            curr_xml: self.curr_xml@,
            curr_row_num: self.curr_row_num,
            curr_indent: self.curr_indent,
            xml_attributes: self.xml_attributes,
            xml_attributes_map: map_entries_view(self.xml_attributes_map@),
            to_snake_case: self.to_snake_case,
            root_name: self.root_name@,
        }
    }
}

/// `n` spaces.
pub open spec fn spaces(n: nat) -> Seq<char>
    decreases n,
{
    if n == 0 {
        Seq::empty()
    } else {
        spaces((n - 1) as nat).push(' ')
    }
}

/// The line break and indentation written before a tag at depth `indent`:
/// a new line and one space less than the depth.
pub open spec fn indentation(indent: int) -> Seq<char> {
    seq!['\n'] + spaces(if indent > 1 { (indent - 1) as nat } else { 0 })
}

impl StateView {
    /// The innermost field.
    pub open spec fn last_field(self) -> Field {
        self.fields.last()
    }

    /// The state with the innermost field's token type set to `t`.
    pub open spec fn with_last_token(self, t: TokenType) -> StateView {
        let f = self.fields.last();
        StateView {
            fields: self.fields.update(
                self.fields.len() - 1,
                Field { token_type: t, ..f },
            ),
            ..self
        }
    }

    /// The state with the innermost field's nesting state set to `n`.
    pub open spec fn with_last_nesting(self, n: NestingState) -> StateView {
        let f = self.fields.last();
        StateView {
            fields: self.fields.update(
                self.fields.len() - 1,
                Field { nesting_state: n, ..f },
            ),
            ..self
        }
    }

    /// The state after `update_to_item_separate_state`.
    pub open spec fn item_separated(self) -> StateView {
        match self.fields.last().nesting_state {
            NestingState::JsonArrayNestingState => self.with_last_token(
                TokenType::JsonArray(TokenStage::ItemSeparator),
            ),
            NestingState::JsonObjectNestinState => self.with_last_token(
                TokenType::JsonObject(TokenStage::ItemSeparator),
            ),
        }
    }

    /// The state after `update_to_closed_state`: an empty stack stays as it is; otherwise the
    /// innermost field is marked closed, with the container kind opposite to its nesting state.
    pub open spec fn closed(self) -> StateView {
        if self.fields.len() < 1 {
            self
        } else {
            match self.fields.last().nesting_state {
                NestingState::JsonObjectNestinState => self.with_last_token(
                    TokenType::JsonArray(TokenStage::Closing),
                ),
                NestingState::JsonArrayNestingState => self.with_last_token(
                    TokenType::JsonObject(TokenStage::Closing),
                ),
            }
        }
    }

    /// The state with the innermost field removed.
    pub open spec fn popped(self) -> StateView {
        StateView { fields: self.fields.drop_last(), ..self }
    }

    /// `t` is this state with a fresh field pushed on the stack: an object at its opening,
    /// nested in an object, with key `key` and a new random map id under which an empty
    /// attribute map is registered.
    pub open spec fn pushed_fresh(self, t: StateView, key: Option<String>) -> bool {
        let f = t.fields.last();
        &&& t.fields.len() == self.fields.len() + 1
        &&& f.token_type == TokenType::JsonObject(TokenStage::Opening)
        &&& f.key == key
        &&& f.nesting_state == NestingState::JsonObjectNestinState
        &&& is_uuid_text(f.xml_attributes_map_id@)
        &&& t == (StateView {
            fields: self.fields.push(f),
            xml_attributes_map: map_inserted(self.xml_attributes_map, f.xml_attributes_map_id@, Seq::empty()),
            ..self
        })
    }

    /// The state with `f` pushed on the stack.
    pub open spec fn pushed(self, f: Field) -> StateView {
        StateView { fields: self.fields.push(f), ..self }
    }

    /// The state after `update_state(stage)`.
    pub open spec fn staged(self, stage: XmlAttributesStages) -> StateView {
        StateView {
            xml_attributes: match self.xml_attributes {
                Some(b) => Some(XmlAttributesBasicInfo { curr_stage: stage, ..b }),
                None => None,
            },
            ..self
        }
    }

    /// `t` is this state with the attribute reading, if any, moved to a stage that `ok` accepts.
    pub open spec fn restaged(self, t: StateView, ok: spec_fn(XmlAttributesStages) -> bool) -> bool {
        match self.xml_attributes {
            Some(b) => t.xml_attributes matches Some(nb) && nb.current_key == b.current_key && nb.attr_id
                == b.attr_id && ok(nb.curr_stage) && t == (StateView { xml_attributes: Some(nb), ..self }),
            None => t == self,
        }
    }

    /// The state after `abort_xml_attributes`.
    pub open spec fn attributes_aborted(self) -> StateView {
        match self.xml_attributes {
            Some(b) => StateView { xml_attributes: None, ..aborted(self, b) },
            None => self,
        }
    }

    /// The state after `update_xml_attribute_key(key)`.
    pub open spec fn with_attribute_key(self, key: Seq<char>) -> StateView {
        match self.xml_attributes {
            Some(b) => state_with_type(self, b, |t: XmlAttributesTypeView| type_with_key(t, key)),
            None => self,
        }
    }

    /// The state after `update_xml_attribute_value(value)`.
    pub open spec fn with_attribute_value(self, value: Seq<char>) -> StateView {
        match self.xml_attributes {
            Some(b) => state_with_type(self, b, |t: XmlAttributesTypeView| type_with_value(t, value)),
            None => self,
        }
    }

    /// The state after the attribute groups of the top field are closed (see `end_text_of`)
    /// and its attribute map dropped, or `None` when a group's id is not found twice.
    pub open spec fn ended(self) -> Option<StateView> {
        attributes_ended(self)
    }

    /// The state with `s` appended to the output.
    pub open spec fn appended(self, s: Seq<char>) -> StateView {
        StateView { curr_xml: self.curr_xml + s, ..self }
    }
}

/// `t` keeps the field stack, the depth and the row of `s`.
pub open spec fn same_frame(s: StateView, t: StateView) -> bool {
    t.fields == s.fields && t.curr_indent == s.curr_indent && t.curr_row_num == s.curr_row_num
}

/// The output after the end of one attribute group, or `None` when its id is not found twice.
pub open spec fn end_text_of(x: Seq<char>, t: XmlAttributesTypeView) -> Option<Seq<char>> {
    match t {
        XmlAttributesTypeView::ArrayTypeAttributes(a) => array_end_text(x, a),
        XmlAttributesTypeView::ObjectAttributes(o) => object_end_text(x, o),
        XmlAttributesTypeView::NoAttribute(ids) => Some(ids_replaced(x, ids, Seq::empty(), ids.len() as int)),
    }
}

/// The output after the ends of the groups `ts`, in order, or `None` when one fails.
pub open spec fn ends_applied(x: Seq<char>, ts: Seq<XmlAttributesTypeView>) -> Option<Seq<char>>
    decreases ts.len(),
{
    if ts.len() == 0 {
        Some(x)
    } else {
        match ends_applied(x, ts.drop_last()) {
            Some(y) => end_text_of(y, ts.last()),
            None => None,
        }
    }
}

/// The attribute groups kept in the map of the top field, in map order.
pub open spec fn groups_of_top(s: StateView) -> Seq<XmlAttributesTypeView> {
    let i = map_index(s.xml_attributes_map, s.fields.last().xml_attributes_map_id@);
    if i >= 0 {
        s.xml_attributes_map[i].attributes.map_values(|e: super::xml_attributes::models::XmlAttributesTypeEntryView| e.value)
    } else {
        Seq::empty()
    }
}

/// The state after the attribute groups of the top field are closed (see `end_text_of`) and
/// its attribute map dropped, or `None` when a group's id is not found twice.
pub open spec fn attributes_ended(s: StateView) -> Option<StateView> {
    match ends_applied(s.curr_xml, groups_of_top(s)) {
        Some(x) => Some(
            StateView {
                curr_xml: x,
                xml_attributes_map: map_removed(s.xml_attributes_map, s.fields.last().xml_attributes_map_id@),
                ..s
            },
        ),
        None => None,
    }
}

impl State {
    /// The state before the first character.
    pub fn new() -> (r: State)
        ensures
            r@.fields.len() == 0,
            r@.curr_xml.len() == 0,
            r@.curr_row_num == 1,
            r@.curr_indent == 0,
            r@.xml_attributes is None,
            r@.xml_attributes_map.len() == 0,
            r@.to_snake_case == false,
            r@.root_name.len() == 0,
    {
        State {
            fields: Vec::new(),
            curr_xml: String::new(),
            curr_row_num: 1,
            curr_indent: 0,
            xml_attributes: None,
            xml_attributes_map: Vec::new(),
            to_snake_case: false,
            root_name: String::new(),
        }
    }

    /// Marks the innermost field as between two items.
    pub fn update_to_item_separate_state(&mut self)
        requires
            old(self)@.fields.len() > 0,
        ensures
            final(self)@ == old(self)@.item_separated(),
    {
        let len = self.fields.len() - 1;
        match self.fields[len].nesting_state {
            NestingState::JsonArrayNestingState => {
                self.update_token_type(TokenType::JsonArray(TokenStage::ItemSeparator));
            },
            NestingState::JsonObjectNestinState => {
                self.update_token_type(TokenType::JsonObject(TokenStage::ItemSeparator));
            },
        }
    }

    /// Marks the innermost field, if any, as closed.
    pub fn update_to_closed_state(&mut self)
        ensures
            final(self)@ == old(self)@.closed(),
    {
        if self.fields.len() < 1 {
            return;
        }
        let len = self.fields.len() - 1;
        match self.fields[len].nesting_state {
            NestingState::JsonObjectNestinState => {
                self.update_token_type(TokenType::JsonArray(TokenStage::Closing))
            },
            NestingState::JsonArrayNestingState => {
                self.update_token_type(TokenType::JsonObject(TokenStage::Closing))
            },
        }
    }

    /// Pushes a fresh field with key `key` (see [`StateView::pushed_fresh`]).
    pub fn push_field(&mut self, key: Option<String>)
        ensures
            old(self)@.pushed_fresh(final(self)@, key),
    {
        let mut field = Field::new(&mut self.xml_attributes_map);
        field.key = key;
        self.fields.push(field);
    }

    /// A copy of the innermost field's key.
    pub fn last_key(&self) -> (r: Option<String>)
        requires
            self@.fields.len() >= 1,
        ensures
            r == self@.fields.last().key,
    {
        match &self.fields[self.fields.len() - 1].key {
            Some(k) => Some(k.clone()),
            None => None,
        }
    }

    /// Sets the innermost field's token type.
    pub fn update_token_type(&mut self, token_type: TokenType)
        requires
            old(self)@.fields.len() > 0,
        ensures
            final(self)@ == old(self)@.with_last_token(token_type),
    {
        let len = self.fields.len() - 1;
        self.fields[len].token_type = token_type;
        proof {
            assert(self@.fields =~= old(self)@.with_last_token(token_type).fields);
        }
    }

    /// Sets the innermost field's nesting state.
    pub fn update_nesting_state(&mut self, nesting_state: NestingState)
        requires
            old(self)@.fields.len() > 0,
        ensures
            final(self)@ == old(self)@.with_last_nesting(nesting_state),
    {
        let len = self.fields.len() - 1;
        self.fields[len].nesting_state = nesting_state;
        proof {
            assert(self@.fields =~= old(self)@.with_last_nesting(nesting_state).fields);
        }
    }

    /// The line break and indentation for the current depth.
    pub fn get_indentation_str(&self) -> (r: String)
        ensures
            r@ == indentation(self.curr_indent as int),
    {
        let mut r = crate::text::char_to_string('\n');
        let mut k: i32 = 1;
        while k < self.curr_indent
            invariant
                1 <= k,
                k <= self.curr_indent || self.curr_indent <= 1,
                self.curr_indent <= 1 ==> k == 1,
                r@ == seq!['\n'] + spaces((k - 1) as nat),
            decreases self.curr_indent - k,
        {
            push_char(&mut r, ' ');
            proof {
                assert(seq!['\n'] + spaces(k as nat) =~= (seq!['\n'] + spaces((k - 1) as nat)).push(' '));
            }
            k = k + 1;
        }
        proof {
            if self.curr_indent > 1 {
                assert(k == self.curr_indent);
            } else {
                assert(k == 1);
                assert(spaces(0) =~= Seq::<char>::empty());
            }
        }
        r
    }

    /// While no attributes are being read, starts reading attributes when the top field's
    /// key announces them (see `init_xml_attributes`); while attributes are being read it
    /// returns `None` and changes nothing.
    pub fn check_init_xml_attributes(&mut self, field_pos_with_rel_map: FieldPositionNumForMap) -> (r: Option<String>)
        requires
            field_pos_with_rel_map.xml_attr_map_num >= 1,
        ensures
            !check_starts_attributes(old(self)@, field_pos_with_rel_map) ==> r is None && final(self)@ == old(self)@,
            check_starts_attributes(old(self)@, field_pos_with_rel_map) ==> (final(self)@.xml_attributes matches Some(b)
                && started_attributes(old(self)@, field_pos_with_rel_map, b) && object_id_outcome(
                StateView { xml_attributes: Some(b), ..old(self)@ },
                b,
                opt_string_view(r),
                final(self)@,
            )),
    {
        if self.xml_attributes.is_some() {
            return None;
        }
        init_xml_attributes(self, field_pos_with_rel_map)
    }

    /// The group id to write after a closing tag while attributes are being read.
    pub fn get_obj_id_for_closing_tag(&self) -> (r: Option<String>)
        ensures
            match self@.xml_attributes {
                Some(b) => opt_string_view(r) == closing_object_id(
                    attr_type_of(self@.xml_attributes_map, b.attr_id@, b.current_key@),
                ),
                None => r is None,
            },
    {
        match &self.xml_attributes {
            Some(xml_attr_info) => get_attributes_object_id_for_closing_tag(self, xml_attr_info),
            None => None,
        }
    }

    /// Closes the attribute groups kept for the top field: each group's attributes are written
    /// into its place-holders (see `end_text_of`), then the field's map is dropped. Fails when a
    /// group's id is not found twice; then only the output text may have changed.
    pub fn check_end_xml_attributes(&mut self) -> (r: Result<(), String>)
        requires
            old(self)@.fields.len() > 0,
        ensures
            attributes_ended(old(self)@) matches Some(t) ==> r is Ok && final(self)@ == t,
            attributes_ended(old(self)@) is None ==> r is Err && r->Err_0@ == missing_group_id_message()
                && final(self)@ == (StateView { curr_xml: final(self)@.curr_xml, ..old(self)@ }),
    {
        let last_indx = self.fields.len() - 1;
        let id = self.fields[last_indx].xml_attributes_map_id.clone();
        let ghost s0 = self@;
        match find_map_entry(&self.xml_attributes_map, &id) {
            Some(i) => {
                let n = self.xml_attributes_map[i].attributes.len();
                let ghost ts = groups_of_top(s0);
                proof {
                    assert(ts.len() == n);
                }
                let mut k: usize = 0;
                while k < n
                    invariant
                        k <= n,
                        i < self@.xml_attributes_map.len(),
                        n == self@.xml_attributes_map[i as int].attributes.len(),
                        ts == groups_of_top(s0),
                        s0 == old(self)@,
                        ts.len() == n,
                        forall|q: int| 0 <= q < n ==> ts[q] == (#[trigger] self@.xml_attributes_map[i as int].attributes[q]).value,
                        ends_applied(s0.curr_xml, ts.take(k as int)) == Some(self@.curr_xml),
                        self@ == (StateView { curr_xml: self@.curr_xml, ..s0 }),
                    decreases n - k,
                {
                    proof {
                        assert(ts.take(k + 1).drop_last() =~= ts.take(k as int));
                        assert(ts.take(k + 1).last() == ts[k as int]);
                        assert(self@.xml_attributes_map[i as int] == self.xml_attributes_map@[i as int]@);
                        assert(self@.xml_attributes_map[i as int].attributes == super::xml_attributes::models::type_entries_view(
                            self.xml_attributes_map@[i as int].attributes@,
                        ));
                        assert(self@.xml_attributes_map[i as int].attributes[k as int] == self.xml_attributes_map@[i as int].attributes@[k as int]@);
                        assert(ts[k as int] == self.xml_attributes_map@[i as int].attributes@[k as int].value@);
                    }
                    let res = match &self.xml_attributes_map[i].attributes[k].value {
                        XmlAttributesType::ArrayTypeAttributes(a) => {
                            let info = a.copy();
                            check_end_xml_attributes_array_handling(self, info)
                        },
                        XmlAttributesType::ObjectAttributes(o) => {
                            let info = o.copy();
                            check_end_xml_attributes_object_handling(self, info)
                        },
                        XmlAttributesType::NoAttribute(ids) => {
                            let info = ids.copy();
                            check_end_xml_no_attributes_handling(self, info);
                            Ok(())
                        },
                    };
                    if res.is_err() {
                        proof {
                            assert(ends_applied(s0.curr_xml, ts.take(k + 1)) is None);
                            lemma_ends_applied_none(s0.curr_xml, ts, (k + 1) as int);
                        }
                        return res;
                    }
                    k = k + 1;
                }
                proof {
                    assert(ts.take(n as int) =~= ts);
                }
            },
            None => {
                proof {
                    assert(groups_of_top(s0) =~= Seq::empty());
                }
            },
        }
        remove_map_entry(&mut self.xml_attributes_map, &id);
        Ok(())
    }

    /// Moves the attribute reading, if any, to stage `curr_stage`.
    pub fn update_state(&mut self, curr_stage: XmlAttributesStages)
        ensures
            final(self)@ == (StateView {
                xml_attributes: match old(self)@.xml_attributes {
                    Some(b) => Some(XmlAttributesBasicInfo { curr_stage: curr_stage, ..b }),
                    None => None,
                },
                ..old(self)@
            }),
    {
        match &self.xml_attributes {
            Some(b) => {
                let info = XmlAttributesBasicInfo {
                    curr_stage,
                    current_key: b.current_key.copy(),
                    attr_id: b.attr_id.clone(),
                };
                self.xml_attributes = Some(info);
            },
            None => {},
        }
    }

    /// Gives up the attribute reading, if any (see `aborted`).
    pub fn abort_xml_attributes(&mut self)
        ensures
            final(self)@ == match old(self)@.xml_attributes {
                Some(b) => StateView { xml_attributes: None, ..aborted(old(self)@, b) },
                None => old(self)@,
            },
    {
        match &self.xml_attributes {
            Some(b) => {
                let info = b.copy();
                abort_attributes(self, &info);
                self.xml_attributes = None;
            },
            None => {},
        }
    }

    /// Adds an attribute named `xml_atrribute_key` to the group being read, if any.
    pub fn update_xml_attribute_key(&mut self, xml_atrribute_key: &String)
        ensures
            final(self)@ == match old(self)@.xml_attributes {
                Some(b) => state_with_type(old(self)@, b, |t: XmlAttributesTypeView| type_with_key(t, xml_atrribute_key@)),
                None => old(self)@,
            },
    {
        match &self.xml_attributes {
            Some(b) => {
                let info = b.copy();
                update_xml_attribute_key(self, &info, xml_atrribute_key);
            },
            None => {},
        }
    }

    /// Gives the last attribute of the group being read, if any, the value `xml_atrribute_value`.
    pub fn update_xml_attribute_value(&mut self, xml_atrribute_value: &String)
        ensures
            final(self)@ == match old(self)@.xml_attributes {
                Some(b) => state_with_type(old(self)@, b, |t: XmlAttributesTypeView| type_with_value(t, xml_atrribute_value@)),
                None => old(self)@,
            },
    {
        match &self.xml_attributes {
            Some(b) => {
                let info = b.copy();
                update_xml_attribute_value(self, &info, xml_atrribute_value);
            },
            None => {},
        }
    }
}

proof fn lemma_ends_applied_none(x: Seq<char>, ts: Seq<XmlAttributesTypeView>, k: int)
    requires
        0 <= k <= ts.len(),
        ends_applied(x, ts.take(k)) is None,
    ensures
        ends_applied(x, ts) is None,
    decreases ts.len() - k,
{
    if k < ts.len() {
        assert(ts.take(k + 1).drop_last() =~= ts.take(k));
        lemma_ends_applied_none(x, ts, k + 1);
    } else {
        assert(ts.take(k) =~= ts);
    }
}

} // verus!
