use naldom::ir::{
    CreateArrayParams, HLExpression, HLProgram, HLStatement, HLValue, Intent, SortArrayParams,
    WaitParams,
};
use naldom::lowering::LoweringContext;

#[test]
fn lowering_test_lowering_full_sequence() {
    // 1. Arrange: Create the input intent sequence manually.
    let intent_graph = vec![
        Intent::CreateArray(CreateArrayParams { size: 10 }),
        Intent::SortArray(SortArrayParams {
            order: "ascending".to_string(),
        }),
        Intent::PrintArray,
    ];

    let mut context = LoweringContext::default();

    // 2. Act: Call the function we want to test.
    let hl_program = context.lower(&intent_graph);

    // 3. Assert: Check if the generated high-level IR is correct.
    assert_eq!(hl_program.statements.len(), 3);

    // Check statement 1: Assignment
    let expected_assign = HLStatement::Assign {
        variable: "var_0".to_string(),
        expression: HLExpression::FunctionCall {
            function: "create_random_array".to_string(),
            arguments: vec![HLExpression::Literal(HLValue::Integer(10))],
        },
    };
    assert_eq!(hl_program.statements[0], expected_assign);

    // Check statement 2: Sort call
    let expected_sort = HLStatement::Call {
        function: "sort_array".to_string(),
        arguments: vec![
            HLExpression::Variable("var_0".to_string()),
            HLExpression::Literal(HLValue::String("ascending".to_string())),
        ],
    };
    assert_eq!(hl_program.statements[1], expected_sort);

    // Check statement 3: Print call
    let expected_print = HLStatement::Call {
        function: "print_array".to_string(),
        arguments: vec![HLExpression::Variable("var_0".to_string())],
    };
    assert_eq!(hl_program.statements[2], expected_print);
}

#[test]
fn naldom_core_tests_test_lowering_full_sequence() {
    // Arrange: Manually create an intent sequence.
    let intent_graph = vec![
        Intent::CreateArray(CreateArrayParams { size: 10 }),
        Intent::SortArray(SortArrayParams {
            order: "ascending".to_string(),
        }),
        Intent::PrintArray,
    ];

    let mut context = LoweringContext::default();

    // Act: Call the lowering function.
    let hl_program = context.lower(&intent_graph);

    // Assert: Check if the generated high-level IR is correct.
    let expected_program = HLProgram {
        statements: vec![
            HLStatement::Assign {
                variable: "var_0".to_string(),
                expression: HLExpression::FunctionCall {
                    function: "create_random_array".to_string(),
                    arguments: vec![HLExpression::Literal(HLValue::Integer(10))],
                },
            },
            HLStatement::Call {
                function: "sort_array".to_string(),
                arguments: vec![
                    HLExpression::Variable("var_0".to_string()),
                    HLExpression::Literal(HLValue::String("ascending".to_string())),
                ],
            },
            HLStatement::Call {
                function: "print_array".to_string(),
                arguments: vec![HLExpression::Variable("var_0".to_string())],
            },
        ],
    };

    assert_eq!(hl_program, expected_program);
}

#[test]
fn test_lowering_create_then_print_scenario() {
    // Intents [CreateArray(5), PrintArray] lower to exactly
    // `var_0 = create_random_array(5)` and `print_array(var_0)`.
    let intent_graph = vec![
        Intent::CreateArray(CreateArrayParams { size: 5 }),
        Intent::PrintArray,
    ];
    let mut context = LoweringContext::new();
    let hl_program = context.lower(&intent_graph);

    let expected = HLProgram {
        statements: vec![
            HLStatement::Assign {
                variable: "var_0".to_string(),
                expression: HLExpression::FunctionCall {
                    function: "create_random_array".to_string(),
                    arguments: vec![HLExpression::Literal(HLValue::Integer(5))],
                },
            },
            HLStatement::Call {
                function: "print_array".to_string(),
                arguments: vec![HLExpression::Variable("var_0".to_string())],
            },
        ],
    };
    assert_eq!(hl_program, expected);
}

#[test]
fn test_lowering_each_create_takes_fresh_name() {
    // A second creation becomes the subject of what follows it.
    let intent_graph = vec![
        Intent::CreateArray(CreateArrayParams { size: 7 }),
        Intent::CreateArray(CreateArrayParams { size: 9 }),
        Intent::PrintArray,
    ];
    let mut context = LoweringContext::new();
    let hl_program = context.lower(&intent_graph);
    assert_eq!(hl_program.statements.len(), 3);
    match &hl_program.statements[1] {
        HLStatement::Assign { variable, expression } => {
            assert_eq!(variable, "var_1");
            assert_eq!(
                *expression,
                HLExpression::FunctionCall {
                    function: "create_random_array".to_string(),
                    arguments: vec![HLExpression::Literal(HLValue::Integer(9))],
                }
            );
        }
        _ => panic!("Second statement was not an Assign"),
    }
    assert_eq!(
        hl_program.statements[2],
        HLStatement::Call {
            function: "print_array".to_string(),
            arguments: vec![HLExpression::Variable("var_1".to_string())],
        }
    );
}

#[test]
fn test_lowering_wait_becomes_sleep_call() {
    let intent_graph = vec![Intent::Wait(WaitParams { duration_ms: 100 })];
    let mut context = LoweringContext::new();
    let hl_program = context.lower(&intent_graph);
    assert_eq!(
        hl_program,
        HLProgram {
            statements: vec![HLStatement::Call {
                function: "naldom_async_sleep".to_string(),
                arguments: vec![HLExpression::Literal(HLValue::Integer(100))],
            }],
        }
    );
}

#[test]
fn test_lowering_sort_without_subject_is_omitted() {
    // The lowering pass itself silently omits a sort with no subject;
    // rejecting that sequence is the validator's job.
    let intent_graph = vec![Intent::SortArray(SortArrayParams {
        order: "ascending".to_string(),
    })];
    let mut context = LoweringContext::new();
    let hl_program = context.lower(&intent_graph);
    assert_eq!(hl_program.statements.len(), 0);
}
