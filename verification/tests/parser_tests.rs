use naldom::ir::Intent;
use naldom::parser::parse_to_intent_graph;

#[test]
fn test_parse_valid_json() {
    // Arrange: Define a mock inference output string.
    let llm_output = r#"
        <think>Some conversational text...</think>
        [
          {"intent": "CreateArray", "parameters": {"size": 10, "source": "random"}},
          {"intent": "SortArray", "parameters": {"order": "ascending"}},
          {"intent": "PrintArray"}
        ]
    "#;

    // Act: Call the parser function.
    let result = parse_to_intent_graph(llm_output);

    // Assert: Check if the parsing was successful and the structure is correct.
    assert!(result.is_ok());
    let intent_graph = result.unwrap();

    assert_eq!(intent_graph.len(), 3);

    match &intent_graph[0] {
        Intent::CreateArray(params) => {
            assert_eq!(params.size, 10);
        }
        _ => panic!("Expected first intent to be CreateArray"),
    }

    match &intent_graph[1] {
        Intent::SortArray(params) => {
            assert_eq!(params.order, "ascending");
        }
        _ => panic!("Expected second intent to be SortArray"),
    }

    assert!(matches!(intent_graph[2], Intent::PrintArray));
}

#[test]
fn test_parse_invalid_json() {
    // Arrange: Define a non-payload string.
    let llm_output = "This is not valid JSON.";

    // Act: Call the parser function.
    let result = parse_to_intent_graph(llm_output);

    // Assert: Check that the function correctly returns an error.
    assert!(result.is_err());
}

#[test]
fn test_parse_error_carries_raw_payload() {
    // Without any bracket, the whole text is handed to the decoder and
    // comes back inside the error.
    let llm_output = "no brackets here at all";
    let err = parse_to_intent_graph(llm_output).unwrap_err();
    assert_eq!(err.raw, llm_output);

    // With brackets, the error carries exactly the bracketed payload.
    let wrapped = "prose [ {\"intent\": \"Unknown\"} ] more prose";
    let err = parse_to_intent_graph(wrapped).unwrap_err();
    assert_eq!(err.raw, "[ {\"intent\": \"Unknown\"} ]");
}

#[test]
fn test_parse_wait_intent() {
    let llm_output = r#"[
        {"intent": "CreateArray", "parameters": {"size": 5}},
        {"intent": "Wait", "parameters": {"durationMs": 100}}
    ]"#;
    let intent_graph = parse_to_intent_graph(llm_output).expect("Parsing failed");
    assert_eq!(intent_graph.len(), 2);
    match &intent_graph[1] {
        Intent::Wait(params) => assert_eq!(params.duration_ms, 100),
        _ => panic!("Expected second intent to be Wait"),
    }
}

#[test]
fn test_parse_unknown_intent_fails() {
    let llm_output = r#"[{"intent": "DeleteArray"}]"#;
    assert!(parse_to_intent_graph(llm_output).is_err());
}

#[test]
fn test_parse_size_beyond_32_bits_fails() {
    let llm_output = r#"[{"intent": "CreateArray", "parameters": {"size": 4294967296}}]"#;
    assert!(parse_to_intent_graph(llm_output).is_err());
}

#[test]
fn test_parse_missing_parameters_fails() {
    let llm_output = r#"[{"intent": "SortArray"}]"#;
    assert!(parse_to_intent_graph(llm_output).is_err());
}

#[test]
fn test_parse_empty_array() {
    let intent_graph = parse_to_intent_graph("[]").expect("Parsing failed");
    assert_eq!(intent_graph.len(), 0);
}

#[test]
fn test_parse_trailing_garbage_inside_payload_fails() {
    // The last `]` closes the payload; what stands between the array
    // and it must be whitespace alone.
    let llm_output = r#"[{"intent": "PrintArray"}] and then ]"#;
    assert!(parse_to_intent_graph(llm_output).is_err());
}
