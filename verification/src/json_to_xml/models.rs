use vstd::prelude::*;

use crate::bindings::{is_uuid_text, new_uuid_string};
use super::xml_attributes::models::{
    map_entries_view, map_inserted, type_entries_view, XmlAttributesMapEntry, XmlAttributesTypeEntry,
};
use super::xml_attributes::maps::insert_map_entry;

verus! {

/// One open JSON container or value on the parser's stack.
pub struct Field {
    pub token_type: TokenType,
    pub key: Option<String>,
    pub nesting_state: NestingState,
    pub xml_attributes_map_id: String,
}

impl Field {
    /// A fresh field: an object at its opening, without key, with a new random map id
    /// under which an empty attribute map is registered in `map`.
    pub fn new(map: &mut Vec<XmlAttributesMapEntry>) -> (r: Field)
        ensures
            r.token_type == TokenType::JsonObject(TokenStage::Opening),
            r.key is None,
            r.nesting_state == NestingState::JsonObjectNestinState,
            is_uuid_text(r.xml_attributes_map_id@),
            map_entries_view(final(map)@) == map_inserted(
                map_entries_view(old(map)@),
                r.xml_attributes_map_id@,
                Seq::empty(),
            ),
    {
        let id = new_uuid_string();
        let id_copy = id.clone();
        let empty: Vec<XmlAttributesTypeEntry> = Vec::new();
        proof {
            assert(type_entries_view(empty@) =~= Seq::empty());
        }
        insert_map_entry(map, id_copy, empty);
        Field {
            token_type: TokenType::JsonObject(TokenStage::Opening),
            key: None,
            nesting_state: NestingState::JsonObjectNestinState,
            xml_attributes_map_id: id,
        }
    }

    /// A copy of this field.
    pub fn copy(&self) -> (r: Field)
        ensures
            r == *self,
    {
        Field {
            token_type: self.token_type.copy(),
            key: match &self.key {
                Some(k) => Some(k.clone()),
                None => None,
            },
            nesting_state: self.nesting_state,
            xml_attributes_map_id: self.xml_attributes_map_id.clone(),
        }
    }
}

/// A JSON string: still being read (with the characters so far) or just closed.
pub enum JsonStr {
    Open(String),
    Closing,
}

/// The literal `null`: still being read (with the characters so far) or just closed.
pub enum JsonNull {
    Open(String),
    Closing,
}

/// The value of an object member.
pub enum KeyValType {
    JsonStr(JsonStr),
    JsonNumber(String),
    Null(JsonNull),
}

/// A plain value inside an array.
pub enum ArrayValType {
    JsonStr(JsonStr),
    JsonNumber(String),
    Null(JsonNull),
}

/// Where the parser stands inside a container.
pub enum TokenStage<T> {
    Opening,
    Content(T),
    ItemSeparator,
    Closing,
}

/// Where the parser stands inside a member's key.
#[derive(Clone, Copy, PartialEq, Eq, Structural)]
pub enum TokenStageKey {
    Opening,
    KeyValSeparator,
    Closing,
}

/// Inside an object member: reading its key or its value.
pub enum KeyValState {
    KeyState(TokenStageKey),
    ValState(KeyValType),
}

/// The kind of container being read and the stage within it.
pub enum TokenType {
    JsonObject(TokenStage<KeyValState>),
    JsonArray(TokenStage<ArrayValType>),
}

/// Whether a field sits directly in an object or in an array.
#[derive(Clone, Copy, PartialEq, Eq, Structural, Debug, Hash)]
pub enum NestingState {
    JsonObjectNestinState,
    JsonArrayNestingState,
}

/// How an opening XML tag is placed.
#[derive(Clone, Copy, PartialEq, Eq, Structural)]
pub enum XmlOpenTagOptions {
    ArraySimpleVal,
    ObjectSimpleVal,
    ObjectInObject,
    ObjectInArray,
}

/// How far down the field stack the attribute map and the attribute type are found.
#[derive(Clone, Copy, PartialEq, Eq, Structural)]
pub struct FieldPositionNumForMap {
    pub xml_attr_map_num: usize,
    pub xml_attr_type_num: usize,
}

impl JsonStr {
    pub fn copy(&self) -> (r: JsonStr)
        ensures
            r == *self,
    {
        match self {
            JsonStr::Open(s) => JsonStr::Open(s.clone()),
            JsonStr::Closing => JsonStr::Closing,
        }
    }
}

impl JsonNull {
    pub fn copy(&self) -> (r: JsonNull)
        ensures
            r == *self,
    {
        match self {
            JsonNull::Open(s) => JsonNull::Open(s.clone()),
            JsonNull::Closing => JsonNull::Closing,
        }
    }
}

impl KeyValType {
    pub fn copy(&self) -> (r: KeyValType)
        ensures
            r == *self,
    {
        match self {
            KeyValType::JsonStr(s) => KeyValType::JsonStr(s.copy()),
            KeyValType::JsonNumber(s) => KeyValType::JsonNumber(s.clone()),
            KeyValType::Null(n) => KeyValType::Null(n.copy()),
        }
    }
}

impl ArrayValType {
    pub fn copy(&self) -> (r: ArrayValType)
        ensures
            r == *self,
    {
        match self {
            ArrayValType::JsonStr(s) => ArrayValType::JsonStr(s.copy()),
            ArrayValType::JsonNumber(s) => ArrayValType::JsonNumber(s.clone()),
            ArrayValType::Null(n) => ArrayValType::Null(n.copy()),
        }
    }
}

impl KeyValState {
    pub fn copy(&self) -> (r: KeyValState)
        ensures
            r == *self,
    {
        match self {
            KeyValState::KeyState(k) => KeyValState::KeyState(*k),
            KeyValState::ValState(v) => KeyValState::ValState(v.copy()),
        }
    }
}

impl TokenType {
    pub fn copy(&self) -> (r: TokenType)
        ensures
            r == *self,
    {
        match self {
            TokenType::JsonObject(stage) => TokenType::JsonObject(
                match stage {
                    TokenStage::Opening => TokenStage::Opening,
                    TokenStage::Content(c) => TokenStage::Content(c.copy()),
                    TokenStage::ItemSeparator => TokenStage::ItemSeparator,
                    TokenStage::Closing => TokenStage::Closing,
                },
            ),
            TokenType::JsonArray(stage) => TokenType::JsonArray(
                match stage {
                    TokenStage::Opening => TokenStage::Opening,
                    TokenStage::Content(c) => TokenStage::Content(c.copy()),
                    TokenStage::ItemSeparator => TokenStage::ItemSeparator,
                    TokenStage::Closing => TokenStage::Closing,
                },
            ),
        }
    }
}

} // verus!
