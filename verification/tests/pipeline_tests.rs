use naldom::codegen_llvm::generate_llvm_ir;
use naldom::ir::Intent;
use naldom::lowering::LoweringContext;
use naldom::lowering_hl_to_ll::lower_hl_to_ll;
use naldom::parser::parse_to_intent_graph;
use naldom::pipeline::compile_llm_output;
use naldom::semantic_analyzer::SemanticAnalyzer;

/// This test simulates the entire compiler pipeline from a mocked
/// inference response down to the final backend IR.
#[test]
fn test_full_pipeline_to_llvm_ir_for_wait_program() {
    // Arrange:
    // 1. Mock the JSON response we expect for a wait program.
    let mocked_llm_response = r#"
        [
            {
                "intent": "CreateArray",
                "parameters": { "size": 5 }
            },
            {
                "intent": "PrintArray"
            },
            {
                "intent": "Wait",
                "parameters": { "durationMs": 100 }
            },
            {
                "intent": "PrintArray"
            }
        ]
        "#;

    // Act & Assert (step-by-step)

    // 2. Parse to the intent sequence
    let intent_graph = parse_to_intent_graph(mocked_llm_response).expect("Parsing failed");
    assert_eq!(intent_graph.len(), 4);
    assert!(matches!(intent_graph[2], Intent::Wait(_)));

    // 3. Analyze
    let mut analyzer = SemanticAnalyzer::new();
    let validated_graph = analyzer.analyze(&intent_graph).expect("Analysis failed");

    // 4. Lower to the high-level IR
    let mut hl_context = LoweringContext::new();
    let hl_program = hl_context.lower(&validated_graph);
    assert_eq!(hl_program.statements.len(), 4);

    // 5. Lower to the low-level IR
    let ll_program = lower_hl_to_ll(&hl_program).expect("Lowering failed");
    assert_eq!(
        ll_program.functions[0].basic_blocks[0].instructions.len(),
        4
    );

    // 6. Generate the backend IR
    let target_triple = "arm64-apple-darwin"; // Example target
    let llvm_ir_result = generate_llvm_ir(&ll_program, target_triple);
    assert!(llvm_ir_result.is_ok());
    let llvm_ir = llvm_ir_result.unwrap();

    // 7. Assert that the final IR holds the call to the sleep function
    assert!(llvm_ir.contains("declare void @naldom_async_sleep(i64)"));
    assert!(llvm_ir.contains("call void @naldom_async_sleep(i64 100)"));
    assert!(llvm_ir.contains("call void @print_array"));
}

#[test]
fn test_compile_wait_program_in_one_call() {
    // The whole pipeline as one call, with prose around the payload:
    // the generated backend IR declares the sleep runtime function and
    // calls it with the requested duration.
    let llm_response = r#"Here is the program you asked for:
        [
            {"intent": "CreateArray", "parameters": {"size": 5}},
            {"intent": "SortArray", "parameters": {"order": "ascending"}},
            {"intent": "PrintArray"},
            {"intent": "Wait", "parameters": {"durationMs": 100}}
        ]
        Hope this helps!"#;
    let llvm_ir =
        compile_llm_output(llm_response, "x86_64-unknown-linux-gnu").expect("Compilation failed");
    assert!(llvm_ir.contains("declare void @naldom_async_sleep(i64)"));
    assert!(llvm_ir.contains("call void @naldom_async_sleep(i64 100)"));
    assert!(llvm_ir.contains("call void @sort_array(ptr %t1_0, i64 0)"));
    assert!(llvm_ir.contains("define void @main()"));
}

#[test]
fn test_compile_rejects_sort_before_create() {
    let llm_response = r#"[
        {"intent": "SortArray", "parameters": {"order": "ascending"}},
        {"intent": "CreateArray", "parameters": {"size": 5}}
    ]"#;
    let err = compile_llm_output(llm_response, "x86_64-unknown-linux-gnu").unwrap_err();
    assert_eq!(
        err,
        "Semantic Error: Attempted to sort, but no array has been created yet."
    );
}

#[test]
fn test_compile_rejects_unsupported_order() {
    let llm_response = r#"[
        {"intent": "CreateArray", "parameters": {"size": 5}},
        {"intent": "SortArray", "parameters": {"order": "sideways"}}
    ]"#;
    let err = compile_llm_output(llm_response, "x86_64-unknown-linux-gnu").unwrap_err();
    assert!(err.contains("string literal outside the supported vocabulary"));
}

#[test]
fn test_compile_reports_parse_failure_with_response() {
    let llm_response = "I could not produce a program.";
    let err = compile_llm_output(llm_response, "x86_64-unknown-linux-gnu").unwrap_err();
    assert!(err.contains("Error parsing LLM response into IntentGraph"));
    assert!(err.contains("I could not produce a program."));
}

#[test]
fn test_ensure_linked_is_callable() {
    naldom::ensure_linked();
}
