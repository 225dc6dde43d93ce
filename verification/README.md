# if_parser

Converters between the JSON of a request and the XML of an IF (SOAP) envelope body, with
every step of the conversions stated and proved in Verus.

- `src/json_to_xml/`: JSON to XML, one character at a time through a stack of fields;
  members whose key ends in `_attributes` become XML attributes of their element.
- `src/if_to_json/` and `src/xml_to_json/`: the XML reader and the JSON builders that turn
  the elements it read into JSON objects and arrays.
- `src/stored_procedure_to_json/`: reads PL/SQL procedure declarations and describes each
  procedure and its parameters as JSON.
- `src/hebrew_handler.rs`: swaps Hebrew letters for GUID texts and back; the module
  `round_trip` proves that the way back restores the text.
- `src/text.rs`: the string operations the converters use, each with its contract.
- `src/bindings.rs`: the calls into `regex`, `uuid`, `convert_case` and `str::to_uppercase`,
  each with the contract that the rest of the library relies on.
- `app/`: the C interface of the converter.

The tests under `tests/` run the compiled library.
