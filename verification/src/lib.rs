pub mod text;
pub mod bindings;
pub mod hebrew_handler;
pub mod if_to_json;
pub mod json_to_xml;
pub mod stored_procedure_to_json;
pub mod xml_to_json;
