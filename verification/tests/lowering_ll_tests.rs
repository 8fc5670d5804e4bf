use naldom::ir::{
    HLExpression, HLProgram, HLStatement, HLValue, LLConstant, LLInstruction, LLType, LLValue,
    Register, Terminator,
};
use naldom::lowering_hl_to_ll::{
    lower_expression_to_value, lower_hl_to_ll, string_literal_code, LoweringContext, LoweringError,
};

#[test]
fn test_lowering_simple_program() {
    // 1. Arrange: Create a mock high-level program
    let hl_program = HLProgram {
        statements: vec![
            HLStatement::Assign {
                variable: "var_0".to_string(),
                expression: HLExpression::FunctionCall {
                    function: "create_random_array".to_string(),
                    arguments: vec![HLExpression::Literal(HLValue::Integer(10))],
                },
            },
            HLStatement::Call {
                function: "sort_array".to_string(),
                arguments: vec![
                    HLExpression::Variable("var_0".to_string()),
                    HLExpression::Literal(HLValue::String("ascending".to_string())),
                ],
            },
            HLStatement::Call {
                function: "print_array".to_string(),
                arguments: vec![HLExpression::Variable("var_0".to_string())],
            },
        ],
    };

    // 2. Act: Run the lowering function
    let ll_program = lower_hl_to_ll(&hl_program).expect("Lowering failed");

    // 3. Assert: Check the structure of the output program
    assert_eq!(
        ll_program.functions.len(),
        1,
        "Should contain one main function"
    );
    let main_fn = &ll_program.functions[0];
    assert_eq!(main_fn.name, "main");
    assert_eq!(
        main_fn.basic_blocks.len(),
        1,
        "Main function should have one basic block"
    );

    let instructions = &main_fn.basic_blocks[0].instructions;
    assert_eq!(instructions.len(), 3, "Should have three call instructions");

    // Check the first call (create_random_array)
    if let LLInstruction::Call {
        dest,
        function_name,
        arguments,
    } = &instructions[0]
    {
        assert!(
            dest.is_some(),
            "CreateArray call should have a destination register"
        );
        assert_eq!(*function_name, "create_random_array");
        assert_eq!(arguments.len(), 1);
        assert_eq!(arguments[0], LLValue::Constant(LLConstant::I64(10)));
    } else {
        panic!("First instruction was not a Call");
    }

    // Check the second call (sort_array)
    if let LLInstruction::Call {
        dest,
        function_name,
        arguments,
    } = &instructions[1]
    {
        assert!(
            dest.is_none(),
            "SortArray call should not have a destination register"
        );
        assert_eq!(*function_name, "sort_array");
        assert_eq!(arguments.len(), 2);
        assert_eq!(arguments[0], LLValue::Register(Register(0))); // Uses the result of the first call
        assert_eq!(arguments[1], LLValue::Constant(LLConstant::I64(0))); // "ascending" -> 0
    } else {
        panic!("Second instruction was not a Call");
    }
}

#[test]
fn test_argument_lowering() {
    // Arrange
    let mut context = LoweringContext::new();
    let reg0 = context.new_register();
    context.bind_variable("var_0".to_string(), reg0);

    let var_expr = HLExpression::Variable("var_0".to_string());
    let int_expr = HLExpression::Literal(HLValue::Integer(42));
    let str_expr = HLExpression::Literal(HLValue::String("descending".to_string()));

    // Act
    let var_val = lower_expression_to_value(&var_expr, &mut context).unwrap();
    let int_val = lower_expression_to_value(&int_expr, &mut context).unwrap();
    let str_val = lower_expression_to_value(&str_expr, &mut context).unwrap();

    // Assert
    assert_eq!(var_val, LLValue::Register(Register(0)));
    assert_eq!(int_val, LLValue::Constant(LLConstant::I64(42)));
    assert_eq!(str_val, LLValue::Constant(LLConstant::I64(1))); // "descending" -> 1
}

#[test]
fn test_create_then_print_lowers_to_two_calls() {
    // The program [CreateArray(5), PrintArray], in its high-level form,
    // lowers to exactly two calls in one basic block of `main`, ending
    // in a void return; the second call's argument is the register the
    // first call defined.
    let hl_program = HLProgram {
        statements: vec![
            HLStatement::Assign {
                variable: "var_0".to_string(),
                expression: HLExpression::FunctionCall {
                    function: "create_random_array".to_string(),
                    arguments: vec![HLExpression::Literal(HLValue::Integer(5))],
                },
            },
            HLStatement::Call {
                function: "print_array".to_string(),
                arguments: vec![HLExpression::Variable("var_0".to_string())],
            },
        ],
    };
    let ll_program = lower_hl_to_ll(&hl_program).expect("Lowering failed");
    assert_eq!(ll_program.functions.len(), 1);
    let main_fn = &ll_program.functions[0];
    assert_eq!(main_fn.name, "main");
    assert!(main_fn.parameters.is_empty());
    assert_eq!(main_fn.return_type, LLType::Void);
    assert_eq!(main_fn.basic_blocks.len(), 1);
    let block = &main_fn.basic_blocks[0];
    assert_eq!(block.id, 0);
    assert_eq!(block.terminator, Terminator::Return(None));
    assert_eq!(block.instructions.len(), 2);
    let first_dest = match &block.instructions[0] {
        LLInstruction::Call { dest, .. } => {
            dest.expect("First call should have a destination register")
        }
        _ => panic!("First instruction was not a Call"),
    };
    match &block.instructions[1] {
        LLInstruction::Call {
            dest, arguments, ..
        } => {
            assert!(dest.is_none(), "Second call should be void");
            assert_eq!(arguments.len(), 1);
            assert_eq!(arguments[0], LLValue::Register(first_dest));
        }
        _ => panic!("Second instruction was not a Call"),
    }
}

#[test]
fn test_string_literal_codes() {
    assert_eq!(string_literal_code("ascending"), Some(0));
    assert_eq!(string_literal_code("descending"), Some(1));
    assert_eq!(string_literal_code("sideways"), None);
    assert_eq!(string_literal_code(""), None);
    // The table is exact: casing matters.
    assert_eq!(string_literal_code("Ascending"), None);
}

#[test]
fn test_unsupported_order_string_fails_lowering() {
    let hl_program = HLProgram {
        statements: vec![
            HLStatement::Assign {
                variable: "var_0".to_string(),
                expression: HLExpression::FunctionCall {
                    function: "create_random_array".to_string(),
                    arguments: vec![HLExpression::Literal(HLValue::Integer(5))],
                },
            },
            HLStatement::Call {
                function: "sort_array".to_string(),
                arguments: vec![
                    HLExpression::Variable("var_0".to_string()),
                    HLExpression::Literal(HLValue::String("sideways".to_string())),
                ],
            },
        ],
    };
    assert_eq!(
        lower_hl_to_ll(&hl_program),
        Err(LoweringError::UnsupportedStringLiteral)
    );
}

#[test]
fn test_unbound_variable_fails_lowering() {
    let hl_program = HLProgram {
        statements: vec![HLStatement::Call {
            function: "print_array".to_string(),
            arguments: vec![HLExpression::Variable("var_9".to_string())],
        }],
    };
    assert_eq!(
        lower_hl_to_ll(&hl_program),
        Err(LoweringError::UnboundVariable)
    );
}

#[test]
fn test_non_call_assignment_fails_lowering() {
    let hl_program = HLProgram {
        statements: vec![HLStatement::Assign {
            variable: "var_0".to_string(),
            expression: HLExpression::Literal(HLValue::Integer(1)),
        }],
    };
    assert_eq!(
        lower_hl_to_ll(&hl_program),
        Err(LoweringError::UnsupportedExpression)
    );
}
