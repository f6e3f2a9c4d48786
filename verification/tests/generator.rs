use schemagen::definition::DataDefinition;
use schemagen::generator::{
    blank_line, comment, comment_line, deserialize_definitions, function_name, generate, header,
    preamble, source_file, source_name,
};
use schemagen::naming::InvalidName;
use schemagen::schema::{Schema, SchemaProperties};
use std::collections::HashMap;

fn empty_schema() -> Schema {
    Schema {
        schema: String::new(),
        id: String::new(),
        tag: String::new(),
        title: String::new(),
        description: String::new(),
        schema_type: String::from("object"),
        properties: HashMap::new(),
        required: Vec::new(),
        additional_properties: false,
    }
}

fn neighbor_schema() -> Schema {
    let mut properties = HashMap::new();
    properties.insert(
        String::from("address"),
        SchemaProperties {
            schema_ref: None,
            data_type: Some(String::from("string")),
            description: Some(String::from("The address of the peer")),
            default: None,
        },
    );
    properties.insert(
        String::from("policy"),
        SchemaProperties {
            schema_ref: Some(String::from("routing-policy.yaml")),
            data_type: None,
            description: None,
            default: Some(String::from("accept")),
        },
    );
    Schema {
        schema: String::from("http://json-schema.org/draft-07/schema"),
        id: String::from("bgp-neighbor.yaml"),
        tag: String::from("!BgpNeighbor"),
        title: String::from("BGP neighbor"),
        description: String::from("One peer of a BGP speaker"),
        schema_type: String::from("object"),
        properties,
        required: vec![String::from("address")],
        additional_properties: false,
    }
}

fn expected_header(name: &str) -> String {
    let mut text = String::new();
    text += "//\n";
    text += "// ";
    text += name;
    text += "\n";
    text += "//\n";
    text += "// Copyright 2022, Ethan D. Twardy\n";
    text += "//\n";
    text += "// Permission is hereby granted, free of charge, to any person obtaining a copy\n";
    text += "// of this software and associated documentation files (the \"Software\"), to\n";
    text += "// deal in the Software without restriction, including without limitation the\n";
    text += "// rights to use, copy, modify, merge, publish, distribute, sublicense, and/or\n";
    text += "// sell copies of the Software, and to permit persons to whom the Software is\n";
    text += "// furnished to do so, subject to the following conditions:\n";
    text += "// \n";
    text += "// The above copyright notice and this permission notice shall be included in\n";
    text += "// all copies or substantial portions of the Software.\n";
    text += "// \n";
    text += "// THE SOFTWARE IS PROVIDED \"AS IS\", WITHOUT WARRANTY OF ANY KIND, EXPRESS OR\n";
    text += "// IMPLIED, INCLUDING BUT NOT LIMITED TO THE WARRANTIES OF MERCHANTABILITY,\n";
    text += "// FITNESS FOR A PARTICULAR PURPOSE AND NONINFRINGEMENT. IN NO EVENT SHALL THE\n";
    text += "// AUTHORS OR COPYRIGHT HOLDERS BE LIABLE FOR ANY CLAIM, DAMAGES OR OTHER\n";
    text += "// LIABILITY, WHETHER IN AN ACTION OF CONTRACT, TORT OR OTHERWISE, ARISING\n";
    text += "// FROM, OUT OF OR IN CONNECTION WITH THE SOFTWARE OR THE USE OR OTHER DEALINGS\n";
    text += "// IN THE SOFTWARE.\n";
    text += "//\n";
    text
}

const NEIGHBOR_STUB: &str =
    "int bgp_neighbor_deserialize_from_yaml_string(const char* string, BgpNeighbor* data) {\n}\n";

#[test]
fn comment_line_is_a_bare_marker() {
    let mut out = String::new();
    comment_line(&mut out);
    assert_eq!(out, "//\n");
}

#[test]
fn blank_line_is_a_line_feed() {
    let mut out = String::new();
    blank_line(&mut out);
    assert_eq!(out, "\n");
}

#[test]
fn preamble_includes_the_yaml_library() {
    let mut out = String::new();
    preamble(&mut out);
    assert_eq!(out, "#include <yaml/yaml.h>\n");
}

#[test]
fn comment_marks_one_line() {
    let mut out = String::new();
    comment(&mut out, "widget.c");
    assert_eq!(out, "// widget.c\n");
    comment(&mut out, "");
    assert_eq!(out, "// widget.c\n// \n");
}

#[test]
fn every_part_appends_to_what_is_there() {
    let mut out = String::from("int x;\n");
    comment_line(&mut out);
    blank_line(&mut out);
    preamble(&mut out);
    assert_eq!(out, "int x;\n//\n\n#include <yaml/yaml.h>\n");

    let mut out = String::from("/* kept */");
    header(&mut out, "widget.c");
    assert_eq!(out, String::from("/* kept */") + &expected_header("widget.c"));

    let definition = DataDefinition::new("bgp-neighbor", empty_schema()).unwrap();
    let mut out = String::from("/* kept */");
    deserialize_definitions(&mut out, &definition);
    assert_eq!(out, String::from("/* kept */") + NEIGHBOR_STUB);

    let mut out = String::from("/* kept */");
    source_file(&mut out, "bgp-neighbor.c", &definition);
    assert!(out.starts_with("/* kept *///\n// bgp-neighbor.c\n"));
    assert!(out.ends_with(NEIGHBOR_STUB));
}

#[test]
fn header_names_the_file_and_holds_the_license() {
    let mut out = String::new();
    header(&mut out, "bgp-neighbor.c");
    assert_eq!(out, expected_header("bgp-neighbor.c"));
    assert_eq!(out.lines().count(), 23);
    assert!(out.lines().all(|line| line.starts_with("//")));
}

#[test]
fn header_takes_any_name_as_it_is() {
    let mut out = String::new();
    header(&mut out, "");
    assert_eq!(out, expected_header(""));
    let mut out = String::new();
    header(&mut out, "dir/é name.c");
    assert_eq!(out, expected_header("dir/é name.c"));
}

#[test]
fn function_name_joins_its_parts_in_order() {
    assert_eq!(
        function_name("bgp_neighbor", "deserialize", "yaml", "string"),
        "bgp_neighbor_deserialize_from_yaml_string"
    );
    assert_eq!(function_name("w", "serialize", "json", "file"), "w_serialize_from_json_file");
    assert_eq!(function_name("", "", "", ""), "__from__");
}

#[test]
fn stub_of_hyphenated_stem() {
    let definition = DataDefinition::new("bgp-neighbor", neighbor_schema()).unwrap();
    let mut out = String::new();
    deserialize_definitions(&mut out, &definition);
    assert_eq!(out, NEIGHBOR_STUB);
}

#[test]
fn stub_of_single_word_stem() {
    let definition = DataDefinition::new("widget", empty_schema()).unwrap();
    let mut out = String::new();
    deserialize_definitions(&mut out, &definition);
    assert_eq!(
        out,
        "int widget_deserialize_from_yaml_string(const char* string, Widget* data) {\n}\n"
    );
}

#[test]
fn stub_uses_the_names_of_the_definition() {
    let definition = DataDefinition {
        identifier: String::from("struct peer"),
        prefix: String::from("p"),
        schema: neighbor_schema(),
    };
    let mut out = String::new();
    deserialize_definitions(&mut out, &definition);
    assert_eq!(
        out,
        "int p_deserialize_from_yaml_string(const char* string, struct peer* data) {\n}\n"
    );
}

#[test]
fn source_file_is_header_preamble_and_stub() {
    let definition = DataDefinition::new("bgp-neighbor", neighbor_schema()).unwrap();
    let mut out = String::new();
    source_file(&mut out, "bgp-neighbor.c", &definition);
    let expected =
        expected_header("bgp-neighbor.c") + "\n#include <yaml/yaml.h>\n\n" + NEIGHBOR_STUB;
    assert_eq!(out, expected);
}

#[test]
fn source_name_has_the_extension_of_c() {
    assert_eq!(source_name("bgp-neighbor"), "bgp-neighbor.c");
    assert_eq!(source_name("widget"), "widget.c");
    assert_eq!(source_name("archive.tar"), "archive.tar.c");
    assert_eq!(source_name(""), ".c");
}

#[test]
fn generate_gives_the_whole_file() {
    let text = generate("bgp-neighbor", neighbor_schema()).unwrap();
    let expected =
        expected_header("bgp-neighbor.c") + "\n#include <yaml/yaml.h>\n\n" + NEIGHBOR_STUB;
    assert_eq!(text, expected);
}

#[test]
fn generate_for_single_word_stem() {
    let text = generate("widget", empty_schema()).unwrap();
    let expected = expected_header("widget.c")
        + "\n#include <yaml/yaml.h>\n\n"
        + "int widget_deserialize_from_yaml_string(const char* string, Widget* data) {\n}\n";
    assert_eq!(text, expected);
}

#[test]
fn generate_twice_gives_the_same_bytes() {
    let first = generate("bgp-neighbor", neighbor_schema()).unwrap();
    let second = generate("bgp-neighbor", neighbor_schema()).unwrap();
    assert_eq!(first.as_bytes(), second.as_bytes());
    assert_eq!(generate("a--b", empty_schema()), generate("a--b", empty_schema()));
}

#[test]
fn generate_goes_by_the_stem_not_the_document() {
    let plain = generate("bgp-neighbor", empty_schema()).unwrap();
    let rich = generate("bgp-neighbor", neighbor_schema()).unwrap();
    assert_eq!(plain, rich);
    let other = generate("bgp-peer", neighbor_schema()).unwrap();
    assert_ne!(rich, other);
    assert!(other.contains("// bgp-peer.c\n"));
    assert!(other.contains("int bgp_peer_deserialize_from_yaml_string("));
    assert!(other.contains(", BgpPeer* data) {\n}\n"));
}

#[test]
fn generate_refuses_a_stem_with_an_empty_word() {
    assert_eq!(generate("-widget", empty_schema()), Err(InvalidName { word: 0 }));
    assert_eq!(generate("widget-", empty_schema()), Err(InvalidName { word: 1 }));
    assert_eq!(generate("bgp--neighbor", neighbor_schema()), Err(InvalidName { word: 1 }));
    assert_eq!(generate("", empty_schema()), Err(InvalidName { word: 0 }));
}
