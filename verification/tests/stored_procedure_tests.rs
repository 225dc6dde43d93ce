use if_parser::stored_procedure_to_json::json_data_construction::construct_json_data;
use if_parser::stored_procedure_to_json::{
    stored_procedure_to_json, OracleDbType, ParameterDirection, StoredProcedure, StoredProcedureInfo,
    StoredProcedureParameter,
};

#[test]
fn one_procedure_with_one_parameter() {
    let r = stored_procedure_to_json(&"PROCEDURE get_x(i_id IN VARCHAR2)".to_string());
    assert_eq!(r, Ok("[\n {\n  \"metaData\": {\n   \"info\": {\n    \"procedureName\": \"get_x\"\n   },\n   \"params\": [\n    {\n     \"paramName\": \"i_id\",\n     \"paramValue\": \"\",\n     \"paramDirection\": \"Input\",\n     \"paramType\": \"Varchar2\",\n     \"position\": \"0\"\n    }\n   ]\n  },\n  \"class\": {\n    \"Id\": \"\"\n  }\n }\n]".to_string()));
}

#[test]
fn text_without_procedure_gives_empty_array() {
    let r = stored_procedure_to_json(&"nothing here".to_string());
    assert_eq!(r, Ok("[\n\n]".to_string()));
}

#[test]
fn comments_are_skipped_and_prefix_is_dropped_from_class_member() {
    let r = stored_procedure_to_json(&"/* PROCEDURE q(x IN VARCHAR2) */ PROCEDURE r(p_in_value IN VARCHAR2 DEFAULT NULL)".to_string());
    assert_eq!(r, Ok("[\n {\n  \"metaData\": {\n   \"info\": {\n    \"procedureName\": \"r\"\n   },\n   \"params\": [\n    {\n     \"paramName\": \"p_in_value\",\n     \"paramValue\": \"\",\n     \"paramDirection\": \"Input\",\n     \"paramType\": \"Varchar2\",\n     \"position\": \"0\"\n    }\n   ]\n  },\n  \"class\": {\n    \"value\": \"\"\n  }\n }\n]".to_string()));
}

#[test]
fn procedure_without_parameters() {
    let r = stored_procedure_to_json(&"PROCEDURE t()".to_string());
    assert_eq!(r, Ok("[\n {\n  \"metaData\": {\n   \"info\": {\n    \"procedureName\": \"t\"\n   },\n   \"params\": [\n\n   ]\n  },\n  \"class\": {\n\n  }\n }\n]".to_string()));
}

#[test]
fn procedure_without_bracket_is_not_listed() {
    assert_eq!(stored_procedure_to_json(&"PROCEDURE s".to_string()), Ok("[\n\n]".to_string()));
}

fn param(name: &str, direction: ParameterDirection, param_type: OracleDbType, position: usize) -> StoredProcedureParameter {
    StoredProcedureParameter { param_name: name.to_string(), param_value: String::new(), param_direction: direction, param_type, position }
}

#[test]
fn package_name_prefixes_each_procedure() {
    let first = StoredProcedure {
        info: StoredProcedureInfo { procedure_name: "get_a".to_string() },
        params: vec![
            param("ix_name", ParameterDirection::Input, OracleDbType::Varchar2, 0),
            param("o_cur", ParameterDirection::Output, OracleDbType::RefCursor, 1),
        ],
    };
    let second = StoredProcedure { info: StoredProcedureInfo { procedure_name: "get_b".to_string() }, params: vec![] };
    let r = construct_json_data(vec![first, second], &"pkg".to_string());
    assert_eq!(r, "[\n {\n  \"metaData\": {\n   \"info\": {\n    \"procedureName\": \"pkg.get_a\"\n   },\n   \"params\": [\n    {\n     \"paramName\": \"ix_name\",\n     \"paramValue\": \"\",\n     \"paramDirection\": \"Input\",\n     \"paramType\": \"Varchar2\",\n     \"position\": \"0\"\n    },\n    {\n     \"paramName\": \"o_cur\",\n     \"paramValue\": \"\",\n     \"paramDirection\": \"Output\",\n     \"paramType\": \"Refcursor\",\n     \"position\": \"1\"\n    }\n   ]\n  },\n  \"class\": {\n    \"xName\": \"\"\n  }\n },\n {\n  \"metaData\": {\n   \"info\": {\n    \"procedureName\": \"pkg.get_b\"\n   },\n   \"params\": [\n\n   ]\n  },\n  \"class\": {\n\n  }\n }\n]");
}

#[test]
fn one_line_comment_ends_at_the_new_line() {
    let r = stored_procedure_to_json(&"-- c\nPROCEDURE p(a IN VARCHAR2)".to_string());
    assert_eq!(r, Ok("[\n {\n  \"metaData\": {\n   \"info\": {\n    \"procedureName\": \"p\"\n   },\n   \"params\": [\n    {\n     \"paramName\": \"a\",\n     \"paramValue\": \"\",\n     \"paramDirection\": \"Input\",\n     \"paramType\": \"Varchar2\",\n     \"position\": \"0\"\n    }\n   ]\n  },\n  \"class\": {\n    \"a\": \"\"\n  }\n }\n]".to_string()));
}

#[test]
fn in_out_parameter_with_or_without_a_blank() {
    let expected = "[\n {\n  \"metaData\": {\n   \"info\": {\n    \"procedureName\": \"p\"\n   },\n   \"params\": [\n    {\n     \"paramName\": \"a\",\n     \"paramValue\": \"\",\n     \"paramDirection\": \"InputOutput\",\n     \"paramType\": \"Varchar2\",\n     \"position\": \"0\"\n    }\n   ]\n  },\n  \"class\": {\n    \"a\": \"\"\n  }\n }\n]".to_string();
    assert_eq!(stored_procedure_to_json(&"PROCEDURE p(a IN OUT VARCHAR2)".to_string()), Ok(expected.clone()));
    assert_eq!(stored_procedure_to_json(&"PROCEDURE p(a INOUT VARCHAR2)".to_string()), Ok(expected));
}
