//! The whole compilation pipeline as one verified composition: raw
//! inference text is parsed into intents, validated, lowered twice,
//! and emitted as textual backend IR.  Every stage fails fast, and the
//! first error aborts the run.

use vstd::prelude::*;
use crate::codegen_llvm::{generate_llvm_ir, spec_generate};
use crate::ir::{HLStatementModel, IntentModel, LLConstant, LLInstructionModel, LLValue};
use crate::lowering::{spec_lower, LoweringContext};
use crate::lowering_hl_to_ll::{
    initial_state, lower_hl_to_ll, spec_lower_statement, spec_lower_statements, LoweringError,
};
use crate::parser::{parse_to_intent_graph, spec_decode, spec_intents_loop, spec_payload};
use crate::semantic_analyzer::{spec_analyze, SemanticAnalyzer};

verus! {

/// The message reported when the inference text holds no intent array.
pub open spec fn parse_failure_text(text: Seq<char>) -> Seq<char> {
    "Error parsing LLM response into IntentGraph\n--- LLM Response ---\n"@ + text
        + "\n--------------------"@
}

/// The message reported for each internal lowering failure.
pub open spec fn lowering_failure_text(e: LoweringError) -> Seq<char> {
    match e {
        LoweringError::UnsupportedExpression => "Lowering Error: expression not supported in the low-level IR."@,
        LoweringError::UnboundVariable => "Lowering Error: variable referenced before it was bound."@,
        LoweringError::UnsupportedStringLiteral => "Lowering Error: string literal outside the supported vocabulary."@,
    }
}

/// The outcome of the whole pipeline on the given inference text and
/// target triple: the backend IR text, or the first stage's error.
pub open spec fn spec_compile(text: Seq<char>, triple: Seq<char>) -> Result<Seq<char>, Seq<char>> {
    match spec_decode(spec_payload(text)) {
        None => Err(parse_failure_text(text)),
        Some(intents) => match spec_analyze(intents, false) {
            Some(message) => Err(message),
            None => {
                let hl = spec_lower(intents, 0, None::<Seq<char>>).statements;
                match spec_lower_statements(hl, initial_state()) {
                    Err(e) => Err(lowering_failure_text(e)),
                    Ok(st) => spec_generate(
                        crate::lowering_hl_to_ll::main_program_model(st.instructions),
                        triple,
                    ),
                }
            },
        },
    }
}

/// An intent array holds no more intents than the payload has
/// characters.
proof fn lemma_intents_loop_count(s: Seq<char>, i: int, acc: Seq<IntentModel>)
    requires
        0 <= i <= s.len(),
    ensures
        spec_intents_loop(s, i, acc) matches Some((v, e)) ==> v.len() <= acc.len() + (s.len() - i),
    decreases s.len() - i,
{
    crate::parser::lemma_parse_intent_object(s, i);
    match crate::parser::spec_parse_intent(s, i) {
        Some((m, i1)) => {
            crate::parser::lemma_skip_ws(s, i1);
            let i2 = crate::parser::spec_skip_ws(s, i1);
            if 0 <= i2 < s.len() && s[i2] == ',' {
                let i3 = crate::parser::spec_skip_ws(s, i2 + 1);
                if i < i3 <= s.len() {
                    lemma_intents_loop_count(s, i3, acc.push(m));
                }
            }
        },
        None => {},
    }
}

/// A decoded payload holds no more intents than it has characters.
pub proof fn lemma_decode_count(s: Seq<char>)
    ensures
        spec_decode(s) matches Some(v) ==> v.len() <= s.len(),
{
    crate::parser::lemma_skip_ws(s, 0);
    let i = crate::parser::spec_skip_ws(s, 0);
    if 0 <= i < s.len() && s[i] == '[' {
        crate::parser::lemma_skip_ws(s, i + 1);
        let i1 = crate::parser::spec_skip_ws(s, i + 1);
        lemma_intents_loop_count(s, i1, Seq::empty());
    }
}

/// Lowering to the high-level IR emits at most one statement per
/// intent.
pub proof fn lemma_lower_count(intents: Seq<IntentModel>, counter: nat, last: Option<Seq<char>>)
    ensures
        spec_lower(intents, counter, last).statements.len() <= intents.len(),
    decreases intents.len(),
{
    if intents.len() > 0 {
        let (counter_after, last_after) = crate::lowering::step_state(intents[0], counter, last);
        lemma_lower_count(intents.drop_first(), counter_after, last_after);
    }
}

/// Compiles raw inference text down to backend IR text for the given
/// target triple.  The run succeeds exactly when the text holds a
/// well-formed intent array whose sequence passes validation, lowers
/// (every sort order in the supported vocabulary), and emits a
/// structurally sound module; otherwise the first stage's error comes
/// back.
pub fn compile_llm_output(llm_output: &str, target_triple: &str) -> (r: Result<String, String>)
    requires
        llm_output@.len() <= u32::MAX,
    ensures
        match spec_compile(llm_output@, target_triple@) {
            Ok(text) => r is Ok && r->Ok_0@ == text,
            Err(m) => r is Err && r->Err_0@ == m,
        },
{
    let intent_graph = match parse_to_intent_graph(llm_output) {
        Ok(intents) => intents,
        Err(_) => {
            let mut message = String::from_str(
                "Error parsing LLM response into IntentGraph\n--- LLM Response ---\n",
            );
            message.append(llm_output);
            message.append("\n--------------------");
            proof {
                assert(message@ =~= parse_failure_text(llm_output@));
            }
            return Err(message);
        },
    };
    proof {
        lemma_decode_count(spec_payload(llm_output@));
        crate::parser::lemma_payload_len(llm_output@);
    }

    let mut analyzer = SemanticAnalyzer::new();
    let validated_graph = match analyzer.analyze(intent_graph.as_slice()) {
        Ok(validated) => validated,
        Err(message) => {
            return Err(message);
        },
    };

    let mut lowering_context = LoweringContext::new();
    let hl_program = lowering_context.lower(validated_graph.as_slice());
    proof {
        lemma_lower_count(validated_graph.deep_view(), 0, None::<Seq<char>>);
        assert(hl_program.statements@.len() == hl_program.deep_view().len());
    }

    let ll_program = match lower_hl_to_ll(&hl_program) {
        Ok(ll) => ll,
        Err(e) => {
            return Err(
                match e {
                    LoweringError::UnsupportedExpression => String::from_str(
                        "Lowering Error: expression not supported in the low-level IR.",
                    ),
                    LoweringError::UnboundVariable => String::from_str(
                        "Lowering Error: variable referenced before it was bound.",
                    ),
                    LoweringError::UnsupportedStringLiteral => String::from_str(
                        "Lowering Error: string literal outside the supported vocabulary.",
                    ),
                },
            );
        },
    };

    generate_llvm_ir(&ll_program, target_triple)
}

} // verus!

verus! {

/// Whether every sort in the sequence asks for an order in the fixed
/// vocabulary the low-level IR can encode.
pub open spec fn orders_supported(intents: Seq<IntentModel>) -> bool {
    forall|i: int|
        0 <= i < intents.len() ==> match #[trigger] intents[i] {
            IntentModel::SortArray { order } => crate::lowering_hl_to_ll::spec_string_code(
                order,
            ) is Some,
            _ => true,
        }
}

/// The shape of every instruction the pipeline's lowering emits: a
/// call to one of the four runtime functions, with the argument forms
/// and destination the lowering gives it.
pub open spec fn runtime_call_shape(ins: LLInstructionModel) -> bool {
    match ins {
        LLInstructionModel::Call { dest, function_name, arguments } => {
            ||| (function_name == crate::lowering::create_call_name() && dest is Some
                && arguments.len() == 1 && (arguments[0] matches LLValue::Constant(
                LLConstant::I64(_),
            )))
            ||| (function_name == crate::lowering::sort_call_name() && dest is None
                && arguments.len() == 2 && (arguments[0] is Register) && (arguments[1]
                matches LLValue::Constant(LLConstant::I64(_))))
            ||| (function_name == crate::lowering::print_call_name() && dest is None
                && arguments.len() == 1 && (arguments[0] is Register))
            ||| (function_name == crate::lowering::sleep_call_name() && dest is None
                && arguments.len() == 1 && (arguments[0] matches LLValue::Constant(
                LLConstant::I64(_),
            )))
        },
        _ => false,
    }
}

/// A validated intent sequence whose sort orders stand in the supported
/// vocabulary always lowers to the low-level IR: validation guarantees
/// every emitted variable reference a binding, and the vocabulary
/// guarantees every string literal an encoding.
pub proof fn lemma_validated_program_lowers(
    intents: Seq<IntentModel>,
    counter: nat,
    last: Option<Seq<char>>,
    st: crate::lowering_hl_to_ll::LLLoweringState,
)
    requires
        spec_analyze(intents, last is Some) is None,
        orders_supported(intents),
        match last {
            Some(name) => st.variables.contains_key(name),
            None => true,
        },
    ensures
        ({
            let outcome = spec_lower(intents, counter, last);
            let result = spec_lower_statements(outcome.statements, st);
            &&& result is Ok
            &&& match outcome.last {
                Some(name) => result->Ok_0.variables.contains_key(name),
                None => true,
            }
            &&& result->Ok_0.instructions.len() >= st.instructions.len()
            &&& forall|j: int|
                0 <= j < st.instructions.len() ==> result->Ok_0.instructions[j]
                    == st.instructions[j]
            &&& forall|j: int|
                st.instructions.len() <= j < result->Ok_0.instructions.len()
                    ==> runtime_call_shape(#[trigger] result->Ok_0.instructions[j])
        }),
    decreases intents.len(),
{
    if intents.len() == 0 {
        assert(spec_lower(intents, counter, last).statements =~= Seq::<HLStatementModel>::empty());
    } else {
        let head = crate::lowering::step_statements(intents[0], counter, last);
        let (counter_after, last_after) = crate::lowering::step_state(intents[0], counter, last);
        let rest_outcome = spec_lower(intents.drop_first(), counter_after, last_after);
        crate::lowering_hl_to_ll::lemma_lower_statements_append(
            head,
            rest_outcome.statements,
            st,
        );
        assert(spec_analyze(intents.drop_first(), last_after is Some) is None);
        assert forall|i: int|
            0 <= i < intents.drop_first().len() implies match #[trigger] intents.drop_first()[i] {
            IntentModel::SortArray { order } => crate::lowering_hl_to_ll::spec_string_code(
                order,
            ) is Some,
            _ => true,
        } by {
            assert(intents.drop_first()[i] == intents[i + 1]);
        }
        let st_head = lower_head_statements(intents[0], counter, last, st);
        lemma_validated_program_lowers(
            intents.drop_first(),
            counter_after,
            last_after,
            st_head,
        );
        let result = spec_lower_statements(spec_lower(intents, counter, last).statements, st);
        let final_state = result->Ok_0;
        assert forall|j: int|
            0 <= j < st.instructions.len() implies final_state.instructions[j]
            == st.instructions[j] by {
            assert(j < st_head.instructions.len());
            assert(final_state.instructions[j] == st_head.instructions[j]);
        }
        assert forall|j: int|
            st.instructions.len() <= j < final_state.instructions.len()
            implies runtime_call_shape(#[trigger] final_state.instructions[j]) by {
            if j < st_head.instructions.len() {
                assert(final_state.instructions[j] == st_head.instructions[j]);
                assert(runtime_call_shape(st_head.instructions[j]));
            }
        }
    }
}

/// The state after lowering the statements of a single intent whose
/// preconditions hold; a helper for the induction above, proved to be
/// the `Ok` outcome as it is computed.
proof fn lower_head_statements(
    m: IntentModel,
    counter: nat,
    last: Option<Seq<char>>,
    st: crate::lowering_hl_to_ll::LLLoweringState,
) -> (st_head: crate::lowering_hl_to_ll::LLLoweringState)
    requires
        step_error_free(m, last),
        match last {
            Some(name) => st.variables.contains_key(name),
            None => true,
        },
    ensures
        spec_lower_statements(crate::lowering::step_statements(m, counter, last), st) == Ok::<
            crate::lowering_hl_to_ll::LLLoweringState,
            LoweringError,
        >(st_head),
        match crate::lowering::step_state(m, counter, last).1 {
            Some(name) => st_head.variables.contains_key(name),
            None => true,
        },
        st_head.instructions.len() >= st.instructions.len(),
        forall|j: int|
            0 <= j < st.instructions.len() ==> st_head.instructions[j] == st.instructions[j],
        forall|j: int|
            st.instructions.len() <= j < st_head.instructions.len() ==> runtime_call_shape(
                #[trigger] st_head.instructions[j],
            ),
{
    let head = crate::lowering::step_statements(m, counter, last);
    match m {
        IntentModel::CreateArray { size } => {
            let stmt = head[0];
            let arguments = stmt->Assign_expression->FunctionCall_arguments;
            assert(arguments.drop_first() =~= Seq::<crate::ir::HLExpressionModel>::empty());
            assert(head.drop_first() =~= Seq::<HLStatementModel>::empty());
            assert(crate::lowering_hl_to_ll::spec_lower_values(
                arguments.drop_first(),
                st.variables,
            ) is Ok);
            assert(crate::lowering_hl_to_ll::spec_lower_values(arguments, st.variables) is Ok);
            assert(crate::lowering_hl_to_ll::spec_lower_expression(
                stmt->Assign_expression,
                st,
            ) is Ok);
            let st1 = spec_lower_statement(stmt, st)->Ok_0;
            assert(spec_lower_statements(head.drop_first(), st1) == Ok::<
                crate::lowering_hl_to_ll::LLLoweringState,
                LoweringError,
            >(st1));
            assert(st1.variables.contains_key(crate::numfmt::var_name_seq(counter)));
            assert(spec_lower_statements(head, st) == Ok::<
                crate::lowering_hl_to_ll::LLLoweringState,
                LoweringError,
            >(st1));
            assert(crate::lowering::step_state(m, counter, last).1 == Some(
                crate::numfmt::var_name_seq(counter),
            ));
            st1
        },
        IntentModel::SortArray { order } => {
            let stmt = head[0];
            let arguments = stmt->Call_arguments;
            assert(arguments.drop_first().drop_first() =~= Seq::<
                crate::ir::HLExpressionModel,
            >::empty());
            assert(head.drop_first() =~= Seq::<HLStatementModel>::empty());
            assert(crate::lowering_hl_to_ll::spec_lower_values(
                arguments.drop_first().drop_first(),
                st.variables,
            ) is Ok);
            assert(crate::lowering_hl_to_ll::spec_lower_values(
                arguments.drop_first(),
                st.variables,
            ) is Ok);
            assert(crate::lowering_hl_to_ll::spec_lower_values(arguments, st.variables) is Ok);
            let st1 = spec_lower_statement(stmt, st)->Ok_0;
            assert(spec_lower_statements(head.drop_first(), st1) == Ok::<
                crate::lowering_hl_to_ll::LLLoweringState,
                LoweringError,
            >(st1));
            st1
        },
        IntentModel::PrintArray => {
            let stmt = head[0];
            let arguments = stmt->Call_arguments;
            assert(arguments.drop_first() =~= Seq::<crate::ir::HLExpressionModel>::empty());
            assert(head.drop_first() =~= Seq::<HLStatementModel>::empty());
            assert(crate::lowering_hl_to_ll::spec_lower_values(
                arguments.drop_first(),
                st.variables,
            ) is Ok);
            assert(crate::lowering_hl_to_ll::spec_lower_values(arguments, st.variables) is Ok);
            let st1 = spec_lower_statement(stmt, st)->Ok_0;
            assert(spec_lower_statements(head.drop_first(), st1) == Ok::<
                crate::lowering_hl_to_ll::LLLoweringState,
                LoweringError,
            >(st1));
            st1
        },
        IntentModel::Wait { duration_ms } => {
            let stmt = head[0];
            let arguments = stmt->Call_arguments;
            assert(arguments.drop_first() =~= Seq::<crate::ir::HLExpressionModel>::empty());
            assert(head.drop_first() =~= Seq::<HLStatementModel>::empty());
            assert(crate::lowering_hl_to_ll::spec_lower_values(
                arguments.drop_first(),
                st.variables,
            ) is Ok);
            assert(crate::lowering_hl_to_ll::spec_lower_values(arguments, st.variables) is Ok);
            let st1 = spec_lower_statement(stmt, st)->Ok_0;
            assert(spec_lower_statements(head.drop_first(), st1) == Ok::<
                crate::lowering_hl_to_ll::LLLoweringState,
                LoweringError,
            >(st1));
            st1
        },
    }
}

/// Whether one intent passes validation and, for a sort, carries a
/// supported order.
pub open spec fn step_error_free(m: IntentModel, last: Option<Seq<char>>) -> bool {
    &&& crate::semantic_analyzer::step_error(m, last is Some) is None
    &&& match m {
        IntentModel::SortArray { order } => crate::lowering_hl_to_ll::spec_string_code(
            order,
        ) is Some,
        _ => true,
    }
}

/// The pipeline's own starting point: a freshly validated sequence with
/// supported sort orders always lowers.
pub proof fn lemma_validated_pipeline_lowers(intents: Seq<IntentModel>)
    requires
        spec_analyze(intents, false) is None,
        orders_supported(intents),
    ensures
        spec_lower_statements(
            spec_lower(intents, 0, None::<Seq<char>>).statements,
            initial_state(),
        ) is Ok,
{
    lemma_validated_program_lowers(intents, 0, None::<Seq<char>>, initial_state());
}

} // verus!

verus! {

/// The signature under which each runtime function is declared.
pub open spec fn create_sig() -> crate::codegen_llvm::FnSigModel {
    crate::codegen_llvm::FnSigModel {
        params: seq![crate::codegen_llvm::BackendType::I64],
        ret: crate::codegen_llvm::BackendType::Ptr,
    }
}

/// The signature of the sort runtime function.
pub open spec fn sort_sig() -> crate::codegen_llvm::FnSigModel {
    crate::codegen_llvm::FnSigModel {
        params: seq![crate::codegen_llvm::BackendType::Ptr, crate::codegen_llvm::BackendType::I64],
        ret: crate::codegen_llvm::BackendType::Void,
    }
}

/// The signature of the print runtime function.
pub open spec fn print_sig() -> crate::codegen_llvm::FnSigModel {
    crate::codegen_llvm::FnSigModel {
        params: seq![crate::codegen_llvm::BackendType::Ptr],
        ret: crate::codegen_llvm::BackendType::Void,
    }
}

/// The signature of the sleep runtime function.
pub open spec fn sleep_sig() -> crate::codegen_llvm::FnSigModel {
    crate::codegen_llvm::FnSigModel {
        params: seq![crate::codegen_llvm::BackendType::I64],
        ret: crate::codegen_llvm::BackendType::Void,
    }
}

/// The five function names the emitted module ever mentions are
/// pairwise distinct.
proof fn lemma_runtime_names_distinct()
    ensures
        crate::lowering::create_call_name() != crate::lowering::sort_call_name(),
        crate::lowering::create_call_name() != crate::lowering::print_call_name(),
        crate::lowering::create_call_name() != crate::lowering::sleep_call_name(),
        crate::lowering::sort_call_name() != crate::lowering::print_call_name(),
        crate::lowering::sort_call_name() != crate::lowering::sleep_call_name(),
        crate::lowering::print_call_name() != crate::lowering::sleep_call_name(),
        "main"@ != crate::lowering::create_call_name(),
        "main"@ != crate::lowering::sort_call_name(),
        "main"@ != crate::lowering::print_call_name(),
        "main"@ != crate::lowering::sleep_call_name(),
{
    reveal_strlit("main");
    reveal_strlit("create_random_array");
    reveal_strlit("sort_array");
    reveal_strlit("print_array");
    reveal_strlit("naldom_async_sleep");
    assert("main"@.len() == 4);
    assert("create_random_array"@.len() == 19);
    assert("sort_array"@.len() == 10);
    assert("print_array"@.len() == 11);
    assert("naldom_async_sleep"@.len() == 18);
}

/// The emission invariant for pipeline programs: every register already
/// produced is tracked as a pointer slot, and every runtime function
/// the module knows carries its canonical signature.
pub open spec fn emission_inv(
    st: crate::codegen_llvm::CodeGenState,
    instrs: Seq<LLInstructionModel>,
    j: int,
) -> bool {
    &&& forall|r: crate::ir::Register| #[trigger]
        crate::lowering_hl_to_ll::register_defined_before(r, instrs, j)
            ==> st.registers.contains_key(r) && st.registers[r] == crate::ir::LLType::Pointer(
            Box::new(crate::ir::LLType::F64),
        )
    &&& (st.functions.contains_key(crate::lowering::create_call_name())
        ==> st.functions[crate::lowering::create_call_name()] == create_sig())
    &&& (st.functions.contains_key(crate::lowering::sort_call_name())
        ==> st.functions[crate::lowering::sort_call_name()] == sort_sig())
    &&& (st.functions.contains_key(crate::lowering::print_call_name())
        ==> st.functions[crate::lowering::print_call_name()] == print_sig())
    &&& (st.functions.contains_key(crate::lowering::sleep_call_name())
        ==> st.functions[crate::lowering::sleep_call_name()] == sleep_sig())
}

/// Emitting one runtime-shaped call always succeeds and keeps the
/// emission invariant.
proof fn lemma_gen_shaped_instruction(
    instrs: Seq<LLInstructionModel>,
    j: int,
    st: crate::codegen_llvm::CodeGenState,
)
    requires
        0 <= j < instrs.len(),
        runtime_call_shape(instrs[j]),
        crate::lowering_hl_to_ll::block_registers_defined(instrs),
        emission_inv(st, instrs, j),
    ensures
        crate::codegen_llvm::spec_gen_instruction(instrs[j], st, j as nat) matches Ok(st2)
            && emission_inv(st2, instrs, j + 1),
{
    lemma_runtime_names_distinct();
    let ins = instrs[j];
    let dest = ins->Call_dest;
    let name = ins->Call_function_name;
    let arguments = ins->Call_arguments;

    // Every operand evaluates: constants directly, registers through
    // the slots the invariant tracks.
    assert forall|k: int| 0 <= k < arguments.len() implies crate::lowering_hl_to_ll::value_defined_before(
        #[trigger] arguments[k],
        instrs,
        j,
    ) by {}
    let eval0 = crate::codegen_llvm::spec_eval_value(arguments[0], st, j as nat, 0);
    assert(eval0 is Ok);
    let st0 = eval0->Ok_0.2;
    assert(st0.registers == st.registers && st0.functions == st.functions);
    if arguments.len() == 2 {
        let eval1 = crate::codegen_llvm::spec_eval_value(arguments[1], st0, j as nat, 1);
        assert(eval1 is Ok);
        assert(arguments.drop_first()[0] == arguments[1]);
        assert(arguments.drop_first().drop_first() =~= Seq::<LLValue>::empty());
        assert(crate::codegen_llvm::spec_eval_values(
            arguments.drop_first().drop_first(),
            eval1->Ok_0.2,
            j as nat,
            2,
        ) is Ok);
        assert(crate::codegen_llvm::spec_eval_values(
            arguments.drop_first(),
            st0,
            j as nat,
            1,
        ) is Ok);
    } else {
        assert(arguments.drop_first() =~= Seq::<LLValue>::empty());
        assert(crate::codegen_llvm::spec_eval_values(
            arguments.drop_first(),
            st0,
            j as nat,
            1,
        ) is Ok);
    }
    let evals = crate::codegen_llvm::spec_eval_values(arguments, st, j as nat, 0);
    assert(evals is Ok);
    let items = evals->Ok_0.0;
    let st1 = evals->Ok_0.1;
    assert(st1.registers == st.registers && st1.functions == st.functions);

    // The argument types are the canonical ones for the callee.
    if name == crate::lowering::create_call_name() {
        assert(crate::codegen_llvm::spec_arg_types(items) =~= create_sig().params);
    } else if name == crate::lowering::sort_call_name() {
        assert(crate::codegen_llvm::spec_arg_types(items) =~= sort_sig().params);
    } else if name == crate::lowering::print_call_name() {
        assert(crate::codegen_llvm::spec_arg_types(items) =~= print_sig().params);
    } else {
        assert(crate::codegen_llvm::spec_arg_types(items) =~= sleep_sig().params);
    }

    let result = crate::codegen_llvm::spec_gen_call(dest, name, arguments, st, j as nat);
    assert(result is Ok);
    let st2 = result->Ok_0;

    // The invariant survives: a destination register is recorded as a
    // pointer slot, and any new declaration carries the canonical
    // signature of its name.
    assert forall|r: crate::ir::Register| #[trigger]
        crate::lowering_hl_to_ll::register_defined_before(r, instrs, j + 1)
            implies st2.registers.contains_key(r) && st2.registers[r]
            == crate::ir::LLType::Pointer(Box::new(crate::ir::LLType::F64)) by {
        let j2 = choose|j2: int|
            0 <= j2 < j + 1 && crate::lowering_hl_to_ll::instr_defines(
                #[trigger] instrs[j2],
                r,
            );
        if j2 < j {
            assert(crate::lowering_hl_to_ll::register_defined_before(r, instrs, j));
        } else {
            assert(dest == Some(r));
        }
    }
}

/// Emitting every runtime-shaped instruction from `j` on succeeds.
proof fn lemma_gen_shaped_instructions(
    instrs: Seq<LLInstructionModel>,
    j: int,
    st: crate::codegen_llvm::CodeGenState,
)
    requires
        0 <= j <= instrs.len(),
        forall|j2: int| 0 <= j2 < instrs.len() ==> runtime_call_shape(#[trigger] instrs[j2]),
        crate::lowering_hl_to_ll::block_registers_defined(instrs),
        emission_inv(st, instrs, j),
    ensures
        crate::codegen_llvm::spec_gen_instructions(instrs.skip(j), st, j as nat) is Ok,
    decreases instrs.len() - j,
{
    if j < instrs.len() {
        assert(instrs.skip(j)[0] == instrs[j]);
        lemma_gen_shaped_instruction(instrs, j, st);
        let st2 = crate::codegen_llvm::spec_gen_instruction(instrs[j], st, j as nat)->Ok_0;
        assert(instrs.skip(j).drop_first() =~= instrs.skip(j + 1));
        lemma_gen_shaped_instructions(instrs, j + 1, st2);
    } else {
        assert(instrs.skip(j) =~= Seq::<LLInstructionModel>::empty());
    }
}

/// Backend emission succeeds on the program the pipeline's lowering
/// builds: one `main` of runtime-shaped calls respecting the register
/// discipline.
pub proof fn lemma_generate_succeeds(instrs: Seq<LLInstructionModel>, triple: Seq<char>)
    requires
        forall|j: int| 0 <= j < instrs.len() ==> runtime_call_shape(#[trigger] instrs[j]),
        crate::lowering_hl_to_ll::block_registers_defined(instrs),
    ensures
        spec_generate(crate::lowering_hl_to_ll::main_program_model(instrs), triple) is Ok,
{
    lemma_runtime_names_distinct();
    let program = crate::lowering_hl_to_ll::main_program_model(instrs);
    let f = program[0];
    let st = crate::codegen_llvm::spec_initial_state(triple);
    assert(f.parameters =~= Seq::<(crate::ir::LLType, crate::ir::Register)>::empty());
    assert(!crate::codegen_llvm::spec_has_void_param(f.parameters));
    assert(crate::codegen_llvm::spec_def_params_text(f.parameters, false) =~= Seq::<
        char,
    >::empty());
    let sig = crate::codegen_llvm::FnSigModel {
        params: crate::codegen_llvm::spec_param_types(f.parameters),
        ret: crate::codegen_llvm::spec_backend_type(f.return_type),
    };
    let header = "\ndefine "@ + crate::codegen_llvm::spec_type_text(sig.ret) + " @"@ + f.name
        + "("@ + crate::codegen_llvm::spec_def_params_text(f.parameters, false) + ") {\nentry:\n"@;
    let st1 = crate::codegen_llvm::CodeGenState {
        functions: st.functions.insert(f.name, sig),
        text: st.text + header,
        ..st
    };
    assert(f.basic_blocks.len() == 1);
    assert(f.basic_blocks[0].instructions == instrs);
    assert(emission_inv(st1, instrs, 0)) by {
        assert forall|r: crate::ir::Register|
            !(#[trigger] crate::lowering_hl_to_ll::register_defined_before(r, instrs, 0)) by {}
    }
    lemma_gen_shaped_instructions(instrs, 0, st1);
    assert(instrs.skip(0) =~= instrs);
    let st2 = crate::codegen_llvm::spec_gen_instructions(instrs, st1, 0)->Ok_0;
    assert(crate::codegen_llvm::spec_gen_terminator(
        f.basic_blocks[0].terminator,
        st2,
        instrs.len() as nat,
    ) is Ok);
    assert(crate::codegen_llvm::spec_gen_function(f, st) is Ok);
    assert(program.drop_first() =~= Seq::<crate::ir::LLFunctionModel>::empty());
    assert(crate::codegen_llvm::spec_gen_functions(
        program.drop_first(),
        crate::codegen_llvm::spec_gen_function(f, st)->Ok_0,
    ) is Ok);
    assert(crate::codegen_llvm::spec_gen_functions(program, st) is Ok);
}

/// The pipeline succeeds end to end: whenever the inference text decodes
/// to an intent sequence that passes validation and asks only for
/// supported sort orders, compilation returns backend IR text.
pub proof fn lemma_compile_succeeds(text: Seq<char>, triple: Seq<char>)
    requires
        spec_decode(spec_payload(text)) is Some,
        spec_analyze(spec_decode(spec_payload(text))->Some_0, false) is None,
        orders_supported(spec_decode(spec_payload(text))->Some_0),
    ensures
        spec_compile(text, triple) is Ok,
{
    let intents = spec_decode(spec_payload(text))->Some_0;
    lemma_validated_program_lowers(intents, 0, None::<Seq<char>>, initial_state());
    crate::lowering_hl_to_ll::lemma_lowered_program_registers_defined(
        spec_lower(intents, 0, None::<Seq<char>>).statements,
    );
    let st = spec_lower_statements(
        spec_lower(intents, 0, None::<Seq<char>>).statements,
        initial_state(),
    )->Ok_0;
    lemma_generate_succeeds(st.instructions, triple);
}

} // verus!
