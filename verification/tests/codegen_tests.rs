use naldom::codegen_llvm::generate_llvm_ir;
use naldom::codegen_python::PythonCodeGenerator;
use naldom::ir::{
    BasicBlock, HLExpression, HLProgram, HLStatement, HLValue, LLConstant, LLFunction,
    LLInstruction, LLProgram, LLType, LLValue, Register, Terminator,
};
use naldom::numfmt::{i64_to_dec_string, u64_to_dec_string};

#[test]
fn test_generate_python_code() {
    // Arrange: Manually create a high-level program.
    let hl_program = HLProgram {
        statements: vec![
            HLStatement::Assign {
                variable: "var_0".to_string(),
                expression: HLExpression::FunctionCall {
                    function: "create_random_array".to_string(),
                    arguments: vec![HLExpression::Literal(HLValue::Integer(10))],
                },
            },
            HLStatement::Call {
                function: "sort_array".to_string(),
                arguments: vec![
                    HLExpression::Variable("var_0".to_string()),
                    HLExpression::Literal(HLValue::String("ascending".to_string())),
                ],
            },
            HLStatement::Call {
                function: "print_array".to_string(),
                arguments: vec![HLExpression::Variable("var_0".to_string())],
            },
        ],
    };

    let generator = PythonCodeGenerator;

    // Act: Call the code generation function.
    let python_code = generator.generate(&hl_program);

    // Assert: Check if the generated string is correct.
    let expected_code = [
        "var_0 = create_random_array(10)",
        "sort_array(var_0, 'ascending')",
        "print_array(var_0)",
    ]
    .join("\n");

    assert_eq!(python_code, expected_code);
}

#[test]
fn test_decimal_formatting() {
    assert_eq!(u64_to_dec_string(0), "0");
    assert_eq!(u64_to_dec_string(907), "907");
    assert_eq!(u64_to_dec_string(u64::MAX), "18446744073709551615");
    assert_eq!(i64_to_dec_string(0), "0");
    assert_eq!(i64_to_dec_string(-1), "-1");
    assert_eq!(i64_to_dec_string(-907), "-907");
    assert_eq!(i64_to_dec_string(i64::MIN), "-9223372036854775808");
    assert_eq!(i64_to_dec_string(i64::MAX), "9223372036854775807");
}

fn two_call_program() -> LLProgram {
    LLProgram {
        functions: vec![LLFunction {
            name: "main".to_string(),
            parameters: vec![],
            return_type: LLType::Void,
            basic_blocks: vec![BasicBlock {
                id: 0,
                instructions: vec![
                    LLInstruction::Call {
                        dest: Some(Register(0)),
                        function_name: "create_random_array".to_string(),
                        arguments: vec![LLValue::Constant(LLConstant::I64(5))],
                    },
                    LLInstruction::Call {
                        dest: None,
                        function_name: "print_array".to_string(),
                        arguments: vec![LLValue::Register(Register(0))],
                    },
                ],
                terminator: Terminator::Return(None),
            }],
        }],
    }
}

#[test]
fn test_generate_llvm_ir_for_two_calls() {
    let text = generate_llvm_ir(&two_call_program(), "arm64-apple-darwin")
        .expect("Code generation failed");
    assert!(text.contains("target triple = \"arm64-apple-darwin\""));
    assert!(text.contains("define void @main()"));
    assert!(text.contains("= call ptr @create_random_array(i64 5)"));
    assert!(text.contains("declare ptr @create_random_array(i64)"));
    assert!(text.contains("call void @print_array(ptr"));
    assert!(text.contains("declare void @print_array(ptr)"));
    assert!(text.contains("ret void"));
}

#[test]
fn test_generate_llvm_ir_dangling_register_fails() {
    let program = LLProgram {
        functions: vec![LLFunction {
            name: "main".to_string(),
            parameters: vec![],
            return_type: LLType::Void,
            basic_blocks: vec![BasicBlock {
                id: 0,
                instructions: vec![LLInstruction::Call {
                    dest: None,
                    function_name: "print_array".to_string(),
                    arguments: vec![LLValue::Register(Register(7))],
                }],
                terminator: Terminator::Return(None),
            }],
        }],
    };
    let err = generate_llvm_ir(&program, "x86_64-unknown-linux-gnu").unwrap_err();
    assert!(err.contains("LLVM module verification failed:"));
    assert!(err.contains("register that was never assigned"));
    assert!(err.contains("Generated IR:"));
}

#[test]
fn test_generate_llvm_ir_missing_block_fails() {
    let program = LLProgram {
        functions: vec![LLFunction {
            name: "main".to_string(),
            parameters: vec![],
            return_type: LLType::Void,
            basic_blocks: vec![],
        }],
    };
    let err = generate_llvm_ir(&program, "x86_64-unknown-linux-gnu").unwrap_err();
    assert!(err.contains("LLVM module verification failed:"));
    assert!(err.contains("no basic block"));
}

#[test]
fn test_generate_llvm_ir_unsupported_instruction_fails() {
    let program = LLProgram {
        functions: vec![LLFunction {
            name: "main".to_string(),
            parameters: vec![],
            return_type: LLType::Void,
            basic_blocks: vec![BasicBlock {
                id: 0,
                instructions: vec![
                    LLInstruction::Alloc {
                        dest: Register(0),
                        ty: LLType::I64,
                    },
                    LLInstruction::Load {
                        dest: Register(1),
                        source_ptr: Register(0),
                    },
                ],
                terminator: Terminator::Return(None),
            }],
        }],
    };
    let err = generate_llvm_ir(&program, "x86_64-unknown-linux-gnu").unwrap_err();
    assert!(err.contains("instruction not supported by the backend"));
}

#[test]
fn test_generate_llvm_ir_void_destination_fails() {
    // The first call declares the callee void; the second then asks it
    // for a value.
    let program = LLProgram {
        functions: vec![LLFunction {
            name: "main".to_string(),
            parameters: vec![],
            return_type: LLType::Void,
            basic_blocks: vec![BasicBlock {
                id: 0,
                instructions: vec![
                    LLInstruction::Call {
                        dest: None,
                        function_name: "print_array".to_string(),
                        arguments: vec![LLValue::Constant(LLConstant::I64(1))],
                    },
                    LLInstruction::Call {
                        dest: Some(Register(0)),
                        function_name: "print_array".to_string(),
                        arguments: vec![LLValue::Constant(LLConstant::I64(1))],
                    },
                ],
                terminator: Terminator::Return(None),
            }],
        }],
    };
    let err = generate_llvm_ir(&program, "x86_64-unknown-linux-gnu").unwrap_err();
    assert!(err.contains("call with a destination returns no value"));
}

#[test]
fn test_generate_llvm_ir_alloca_and_return_value() {
    let program = LLProgram {
        functions: vec![LLFunction {
            name: "answer".to_string(),
            parameters: vec![],
            return_type: LLType::I64,
            basic_blocks: vec![BasicBlock {
                id: 0,
                instructions: vec![LLInstruction::Alloc {
                    dest: Register(0),
                    ty: LLType::I64,
                }],
                terminator: Terminator::Return(Some(LLValue::Register(Register(0)))),
            }],
        }],
    };
    let text = generate_llvm_ir(&program, "x86_64-unknown-linux-gnu")
        .expect("Code generation failed");
    assert!(text.contains("define i64 @answer()"));
    assert!(text.contains("%reg_0 = alloca i64"));
    assert!(text.contains("= load i64, ptr %reg_0"));
    assert!(text.contains("ret i64 %t"));
}
