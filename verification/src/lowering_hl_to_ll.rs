//! Lowering from the high-level IR to the low-level IR: named variables
//! become virtual registers, statements become call instructions, and
//! the whole program becomes a single `main` function with one basic
//! block ending in a void return.

use vstd::prelude::*;
use crate::ir::{
    BasicBlock, BasicBlockModel, HLExpression, HLExpressionModel, HLProgram, HLStatementModel,
    HLStatement, HLValue, HLValueModel, LLConstant, LLFunction, LLFunctionModel, LLInstruction,
    LLInstructionModel, LLProgram, LLType, LLValue, Register, Terminator,
};

verus! {

broadcast use crate::ir::lemma_hl_exprs_model;

/// An internal consistency failure of the lowering pass.  These arise
/// only from inputs that the earlier stages never produce.
#[derive(Debug, Clone, Copy, PartialEq, Eq, Structural)]
pub enum LoweringError {
    /// An expression stood where only a function call is supported.
    UnsupportedExpression,
    /// A variable was referenced before being bound to a register.
    UnboundVariable,
    /// A string argument outside the fixed enumeration table.
    UnsupportedStringLiteral,
}

/// The fixed enumeration table encoding the string vocabulary the
/// low-level IR can carry: `"ascending"` is 0 and `"descending"` is 1;
/// every other string has no encoding.
pub open spec fn spec_string_code(s: Seq<char>) -> Option<i64> {
    if s == "ascending"@ {
        Some(0)
    } else if s == "descending"@ {
        Some(1)
    } else {
        None
    }
}

/// Looks a string up in the fixed enumeration table: `"ascending"`
/// encodes as 0 and `"descending"` as 1; any other string has no
/// integer encoding and fails lowering.
pub fn string_literal_code(s: &str) -> (r: Option<i64>)
    ensures
        r == spec_string_code(s@),
{
    let key = String::from_str(s);
    if key == String::from_str("ascending") {
        Some(0)
    } else if key == String::from_str("descending") {
        Some(1)
    } else {
        None
    }
}

/// The map described by a sequence of bindings, later entries winning.
pub open spec fn bindings_as_map(s: Seq<(Seq<char>, Register)>) -> Map<Seq<char>, Register>
    decreases s.len(),
{
    if s.len() == 0 {
        Map::empty()
    } else {
        bindings_as_map(s.drop_last()).insert(s.last().0, s.last().1)
    }
}

/// The state of one lowering run: the next free register id, the
/// variable bindings, and the instructions emitted so far.
#[verifier::ext_equal]
pub struct LLLoweringState {
    pub next_register: nat,
    pub variables: Map<Seq<char>, Register>,
    pub instructions: Seq<LLInstructionModel>,
}

/// The state in which a lowering run starts: no register allocated,
/// no variable bound, nothing emitted.
pub open spec fn initial_state() -> LLLoweringState {
    LLLoweringState {
        next_register: 0,
        variables: Map::<Seq<char>, Register>::empty(),
        instructions: Seq::<LLInstructionModel>::empty(),
    }
}

/// The operand, if any, that an expression lowers to under the given
/// variable bindings.
pub open spec fn spec_lower_value(e: HLExpressionModel, variables: Map<Seq<char>, Register>) -> Result<
    LLValue,
    LoweringError,
> {
    match e {
        HLExpressionModel::Variable(name) => if variables.contains_key(name) {
            Ok(LLValue::Register(variables[name]))
        } else {
            Err(LoweringError::UnboundVariable)
        },
        HLExpressionModel::Literal(HLValueModel::Integer(v)) => Ok(
            LLValue::Constant(LLConstant::I64(v)),
        ),
        HLExpressionModel::Literal(HLValueModel::String(s)) => match spec_string_code(s) {
            Some(code) => Ok(LLValue::Constant(LLConstant::I64(code))),
            None => Err(LoweringError::UnsupportedStringLiteral),
        },
        HLExpressionModel::FunctionCall { .. } => Err(LoweringError::UnsupportedExpression),
    }
}

/// The operands that an argument list lowers to, failing at the first
/// argument that has none.
pub open spec fn spec_lower_values(
    args: Seq<HLExpressionModel>,
    variables: Map<Seq<char>, Register>,
) -> Result<Seq<LLValue>, LoweringError>
    decreases args.len(),
{
    if args.len() == 0 {
        Ok(Seq::empty())
    } else {
        match spec_lower_value(args[0], variables) {
            Err(e) => Err(e),
            Ok(v) => match spec_lower_values(args.drop_first(), variables) {
                Err(e) => Err(e),
                Ok(rest) => Ok(seq![v] + rest),
            },
        }
    }
}

/// The context of one lowering run for a single function.
pub struct LoweringContext {
    next_register_id: u32,
    variable_map: Vec<(String, Register)>,
    instructions: Vec<LLInstruction>,
}

impl LoweringContext {
    /// The next free register id.
    pub closed spec fn next_register(&self) -> nat {
        self.next_register_id as nat
    }

    /// The variable bindings made so far.
    pub closed spec fn variables(&self) -> Map<Seq<char>, Register> {
        bindings_as_map(self.variable_map.deep_view())
    }

    /// The instructions emitted so far.
    pub closed spec fn emitted(&self) -> Seq<LLInstructionModel> {
        self.instructions.deep_view()
    }

    /// The whole state, as one value.
    pub open spec fn state(&self) -> LLLoweringState {
        LLLoweringState {
            next_register: self.next_register(),
            variables: self.variables(),
            instructions: self.emitted(),
        }
    }

    /// Creates a new, empty context.
    pub fn new() -> (r: Self)
        ensures
            r.state() == initial_state(),
    {
        let r = LoweringContext {
            next_register_id: 0,
            variable_map: Vec::new(),
            instructions: Vec::new(),
        };
        proof {
            assert(r.state() =~~= initial_state());
        }
        r
    }

    /// Allocates a fresh virtual register.
    pub fn new_register(&mut self) -> (r: Register)
        requires
            old(self).next_register() < u32::MAX,
        ensures
            r == Register(old(self).next_register() as u32),
            final(self).next_register() == old(self).next_register() + 1,
            final(self).variables() == old(self).variables(),
            final(self).emitted() == old(self).emitted(),
    {
        let reg = Register(self.next_register_id);
        self.next_register_id = self.next_register_id + 1;
        reg
    }

    /// Binds a variable name to the register holding its value.
    pub fn bind_variable(&mut self, name: String, register: Register)
        ensures
            final(self).variables() == old(self).variables().insert(name@, register),
            final(self).next_register() == old(self).next_register(),
            final(self).emitted() == old(self).emitted(),
    {
        let ghost before = self.variable_map.deep_view();
        self.variable_map.push((name, register));
        proof {
            assert(self.variable_map.deep_view().drop_last() =~= before);
        }
    }

    /// Appends one instruction to the stream.
    fn push_instruction(&mut self, instruction: LLInstruction)
        ensures
            final(self).emitted() == old(self).emitted().push(instruction.deep_view()),
            final(self).next_register() == old(self).next_register(),
            final(self).variables() == old(self).variables(),
    {
        let ghost before = self.instructions.deep_view();
        self.instructions.push(instruction);
        proof {
            assert(self.instructions.deep_view() =~= before.push(instruction.deep_view()));
        }
    }

    /// Looks a variable's register up in the bindings.
    fn resolve_variable(&self, name: &str) -> (r: Option<Register>)
        ensures
            match r {
                Some(register) => self.variables().contains_key(name@) && register
                    == self.variables()[name@],
                None => !self.variables().contains_key(name@),
            },
    {
        let key = String::from_str(name);
        let ghost all = self.variable_map.deep_view();
        let mut i: usize = self.variable_map.len();
        proof {
            assert(all.take(i as int) =~= all);
        }
        while i > 0
            invariant
                i <= self.variable_map.len(),
                key@ == name@,
                all == self.variable_map.deep_view(),
                bindings_as_map(all).contains_key(name@) == bindings_as_map(
                    all.take(i as int),
                ).contains_key(name@),
                bindings_as_map(all).contains_key(name@) ==> bindings_as_map(all)[name@]
                    == bindings_as_map(all.take(i as int))[name@],
            decreases i,
        {
            i = i - 1;
            proof {
                assert(all.take(i + 1).drop_last() =~= all.take(i as int));
                assert(all.take(i + 1).last() == all[i as int]);
            }
            if self.variable_map[i].0 == key {
                return Some(self.variable_map[i].1);
            }
        }
        proof {
            assert(all.take(0) =~= Seq::<(Seq<char>, Register)>::empty());
        }
        None
    }
}

/// Lowers an expression standing as an argument into an operand: a
/// variable resolves through the bindings, an integer literal becomes a
/// constant, and a string literal must stand in the fixed enumeration
/// table.  The context is left unchanged.
pub fn lower_expression_to_value(
    expression: &HLExpression,
    context: &mut LoweringContext,
) -> (r: Result<LLValue, LoweringError>)
    ensures
        *final(context) == *old(context),
        r == spec_lower_value(expression.deep_view(), old(context).variables()),
{
    match expression {
        HLExpression::Variable(name) => match context.resolve_variable(name.as_str()) {
            Some(register) => Ok(LLValue::Register(register)),
            None => Err(LoweringError::UnboundVariable),
        },
        HLExpression::Literal(value) => match value {
            HLValue::Integer(v) => Ok(LLValue::Constant(LLConstant::I64(*v))),
            HLValue::String(s) => match string_literal_code(s.as_str()) {
                Some(code) => Ok(LLValue::Constant(LLConstant::I64(code))),
                None => Err(LoweringError::UnsupportedStringLiteral),
            },
        },
        HLExpression::FunctionCall { .. } => Err(LoweringError::UnsupportedExpression),
    }
}

/// Lowers an argument list into operands, failing at the first argument
/// without one.  The context is left unchanged.
fn lower_values(
    arguments: &Vec<HLExpression>,
    context: &mut LoweringContext,
) -> (r: Result<Vec<LLValue>, LoweringError>)
    ensures
        *final(context) == *old(context),
        ({
            let spec_r = spec_lower_values(
                crate::ir::hl_exprs_model(arguments@),
                old(context).variables(),
            );
            match r {
                Ok(vals) => spec_r == Ok::<Seq<LLValue>, LoweringError>(vals@),
                Err(e) => spec_r == Err::<Seq<LLValue>, LoweringError>(e),
            }
        }),
{
    let ghost models = crate::ir::hl_exprs_model(arguments@);
    let mut values: Vec<LLValue> = Vec::new();
    let mut i: usize = 0;
    proof {
        assert(models.skip(0) =~= models);
    }
    while i < arguments.len()
        invariant
            i <= arguments@.len(),
            models == crate::ir::hl_exprs_model(arguments@),
            models.len() == arguments@.len(),
            *context == *old(context),
            ({
                let total = spec_lower_values(models, old(context).variables());
                let rest = spec_lower_values(models.skip(i as int), old(context).variables());
                match rest {
                    Ok(vals) => total == Ok::<Seq<LLValue>, LoweringError>(values@ + vals),
                    Err(e) => total == Err::<Seq<LLValue>, LoweringError>(e),
                }
            }),
        decreases arguments@.len() - i,
    {
        let ghost rem = models.skip(i as int);
        proof {
            assert(rem[0] == models[i as int]);
            assert(models[i as int] == crate::ir::hl_expr_model(arguments@[i as int]));
            assert(rem.drop_first() =~= models.skip(i + 1));
        }
        let ghost values_before = values@;
        match lower_expression_to_value(&arguments[i], context) {
            Ok(v) => {
                values.push(v);
                proof {
                    assert(values@ =~= values_before.push(v));
                    if spec_lower_values(models.skip(i + 1), old(context).variables()) is Ok {
                        let tail = spec_lower_values(
                            models.skip(i + 1),
                            old(context).variables(),
                        )->Ok_0;
                        assert(values_before + (seq![v] + tail) =~= values@ + tail);
                    }
                }
            },
            Err(e) => {
                return Err(e);
            },
        }
        i = i + 1;
    }
    proof {
        assert(models.skip(models.len() as int) =~= Seq::<HLExpressionModel>::empty());
        assert(values@ + Seq::<LLValue>::empty() =~= values@);
    }
    Ok(values)
}

} // verus!

verus! {

/// What lowering an expression on the right of an assignment yields:
/// the register holding the call's result, and the state after it.
pub open spec fn spec_lower_expression(e: HLExpressionModel, st: LLLoweringState) -> Result<
    (Register, LLLoweringState),
    LoweringError,
> {
    match e {
        HLExpressionModel::FunctionCall { function, arguments } => match spec_lower_values(
            arguments,
            st.variables,
        ) {
            Ok(vals) => {
                let register = Register(st.next_register as u32);
                Ok(
                    (
                        register,
                        LLLoweringState {
                            next_register: st.next_register + 1,
                            variables: st.variables,
                            instructions: st.instructions.push(
                                LLInstructionModel::Call {
                                    dest: Some(register),
                                    function_name: function,
                                    arguments: vals,
                                },
                            ),
                        },
                    ),
                )
            },
            Err(e) => Err(e),
        },
        _ => Err(LoweringError::UnsupportedExpression),
    }
}

/// The state after lowering one statement: an assignment lowers its
/// call and binds the variable to the result register; a void call
/// lowers its arguments and emits a call without a destination.
pub open spec fn spec_lower_statement(m: HLStatementModel, st: LLLoweringState) -> Result<
    LLLoweringState,
    LoweringError,
> {
    match m {
        HLStatementModel::Assign { variable, expression } => match spec_lower_expression(
            expression,
            st,
        ) {
            Ok((register, st2)) => Ok(
                LLLoweringState {
                    variables: st2.variables.insert(variable, register),
                    ..st2
                },
            ),
            Err(e) => Err(e),
        },
        HLStatementModel::Call { function, arguments } => match spec_lower_values(
            arguments,
            st.variables,
        ) {
            Ok(vals) => Ok(
                LLLoweringState {
                    instructions: st.instructions.push(
                        LLInstructionModel::Call {
                            dest: None,
                            function_name: function,
                            arguments: vals,
                        },
                    ),
                    ..st
                },
            ),
            Err(e) => Err(e),
        },
    }
}

/// The state after lowering a statement sequence, failing fast.
pub open spec fn spec_lower_statements(stmts: Seq<HLStatementModel>, st: LLLoweringState) -> Result<
    LLLoweringState,
    LoweringError,
>
    decreases stmts.len(),
{
    if stmts.len() == 0 {
        Ok(st)
    } else {
        match spec_lower_statement(stmts[0], st) {
            Ok(st2) => spec_lower_statements(stmts.drop_first(), st2),
            Err(e) => Err(e),
        }
    }
}

/// The low-level model of a whole program: one `main` function with no
/// parameters, void return, and a single basic block holding the given
/// instructions and ending in a void return.
pub open spec fn main_program_model(instructions: Seq<LLInstructionModel>) -> Seq<LLFunctionModel> {
    seq![
        LLFunctionModel {
            name: "main"@,
            parameters: Seq::empty(),
            return_type: LLType::Void,
            basic_blocks: seq![
                BasicBlockModel { id: 0, instructions, terminator: Terminator::Return(None) }
            ],
        },
    ]
}

/// Lowers an expression that must be a function call: the arguments are
/// lowered, a fresh register is allocated for the result, and the call
/// is emitted with that register as its destination.
fn lower_expression(
    expression: &HLExpression,
    context: &mut LoweringContext,
) -> (r: Result<Register, LoweringError>)
    requires
        old(context).next_register() < u32::MAX,
    ensures
        match spec_lower_expression(expression.deep_view(), old(context).state()) {
            Ok((register, st2)) => r == Ok::<Register, LoweringError>(register)
                && final(context).state() == st2,
            Err(e) => r == Err::<Register, LoweringError>(e) && *final(context) == *old(context),
        },
{
    match expression {
        HLExpression::FunctionCall { function, arguments } => {
            match lower_values(arguments, context) {
                Ok(args) => {
                    let dest_register = context.new_register();
                    let instruction = LLInstruction::Call {
                        dest: Some(dest_register),
                        function_name: function.clone(),
                        arguments: args,
                    };
                    context.push_instruction(instruction);
                    proof {
                        assert(final(context).state() =~~= spec_lower_expression(
                            expression.deep_view(),
                            old(context).state(),
                        )->Ok_0.1);
                    }
                    Ok(dest_register)
                },
                Err(e) => Err(e),
            }
        },
        _ => Err(LoweringError::UnsupportedExpression),
    }
}

/// Lowers a single statement into zero or more emitted instructions.
fn lower_statement(
    statement: &HLStatement,
    context: &mut LoweringContext,
) -> (r: Result<(), LoweringError>)
    requires
        old(context).next_register() < u32::MAX,
    ensures
        match spec_lower_statement(statement.deep_view(), old(context).state()) {
            Ok(st2) => r is Ok && final(context).state() == st2,
            Err(e) => r == Err::<(), LoweringError>(e) && *final(context) == *old(context),
        },
        final(context).next_register() <= old(context).next_register() + 1,
{
    match statement {
        HLStatement::Assign { variable, expression } => {
            match lower_expression(expression, context) {
                Ok(result_register) => {
                    context.bind_variable(variable.clone(), result_register);
                    proof {
                        assert(final(context).state() =~~= spec_lower_statement(
                            statement.deep_view(),
                            old(context).state(),
                        )->Ok_0);
                    }
                    Ok(())
                },
                Err(e) => Err(e),
            }
        },
        HLStatement::Call { function, arguments } => {
            match lower_values(arguments, context) {
                Ok(args) => {
                    let instruction = LLInstruction::Call {
                        dest: None,
                        function_name: function.clone(),
                        arguments: args,
                    };
                    context.push_instruction(instruction);
                    proof {
                        assert(final(context).state() =~~= spec_lower_statement(
                            statement.deep_view(),
                            old(context).state(),
                        )->Ok_0);
                    }
                    Ok(())
                },
                Err(e) => Err(e),
            }
        },
    }
}

/// Lowers a high-level program into a low-level one: each statement in
/// order, then everything wrapped into one basic block of one `main`
/// function with no parameters and void return.
pub fn lower_hl_to_ll(hl_program: &HLProgram) -> (r: Result<LLProgram, LoweringError>)
    requires
        hl_program.statements@.len() <= u32::MAX,
    ensures
        ({
            match spec_lower_statements(hl_program.deep_view(), initial_state()) {
                Ok(st) => r is Ok && r->Ok_0.deep_view() == main_program_model(st.instructions),
                Err(e) => r == Err::<LLProgram, LoweringError>(e),
            }
        }),
{
    let ghost full = hl_program.deep_view();
    let mut context = LoweringContext::new();
    let mut i: usize = 0;
    proof {
        assert(full.skip(0) =~= full);
        assert(full.len() == hl_program.statements@.len());
    }
    while i < hl_program.statements.len()
        invariant
            i <= hl_program.statements@.len(),
            full == hl_program.deep_view(),
            full.len() == hl_program.statements@.len(),
            hl_program.statements@.len() <= u32::MAX,
            context.next_register() <= i,
            spec_lower_statements(full, initial_state()) == spec_lower_statements(
                full.skip(i as int),
                context.state(),
            ),
        decreases hl_program.statements@.len() - i,
    {
        let ghost rem = full.skip(i as int);
        let ghost st_now = context.state();
        proof {
            assert(rem[0] == full[i as int]);
            assert(full[i as int] == hl_program.statements@[i as int].deep_view());
            assert(rem.drop_first() =~= full.skip(i + 1));
        }
        match lower_statement(&hl_program.statements[i], &mut context) {
            Ok(_) => {},
            Err(e) => {
                proof {
                    assert(spec_lower_statement(rem[0], st_now) == Err::<
                        LLLoweringState,
                        LoweringError,
                    >(e));
                    assert(spec_lower_statements(rem, st_now) == Err::<
                        LLLoweringState,
                        LoweringError,
                    >(e));
                    assert(spec_lower_statements(full, initial_state()) == Err::<
                        LLLoweringState,
                        LoweringError,
                    >(e));
                }
                return Err(e);
            },
        }
        i = i + 1;
    }
    proof {
        assert(full.skip(full.len() as int) =~= Seq::<HLStatementModel>::empty());
    }

    let main_block = BasicBlock {
        id: 0,
        instructions: context.instructions,
        terminator: Terminator::Return(None),
    };
    let mut basic_blocks: Vec<BasicBlock> = Vec::new();
    basic_blocks.push(main_block);
    let main_function = LLFunction {
        name: String::from_str("main"),
        parameters: Vec::new(),
        return_type: LLType::Void,
        basic_blocks,
    };
    let mut functions: Vec<LLFunction> = Vec::new();
    functions.push(main_function);
    let result = LLProgram { functions };
    proof {
        let st = spec_lower_statements(full, initial_state())->Ok_0;
        assert(result.deep_view() =~~= main_program_model(st.instructions));
    }
    Ok(result)
}

} // verus!

verus! {

/// Whether one instruction produces the register: a stack allocation
/// naming it, or a call with it as destination.
pub open spec fn instr_defines(ins: LLInstructionModel, r: Register) -> bool {
    match ins {
        LLInstructionModel::Alloc { dest, .. } => dest == r,
        LLInstructionModel::Call { dest, .. } => dest == Some(r),
        _ => false,
    }
}

/// Whether the register is produced by some instruction before `j`.
pub open spec fn register_defined_before(
    r: Register,
    instrs: Seq<LLInstructionModel>,
    j: int,
) -> bool {
    exists|j2: int| 0 <= j2 < j && instr_defines(#[trigger] instrs[j2], r)
}

/// Whether an operand only uses a register produced before `j`.
pub open spec fn value_defined_before(v: LLValue, instrs: Seq<LLInstructionModel>, j: int) -> bool {
    match v {
        LLValue::Register(r) => register_defined_before(r, instrs, j),
        LLValue::Constant(_) => true,
    }
}

/// The register discipline of a basic block: every register an
/// instruction uses as an operand was produced by a prior instruction
/// in program order.
pub open spec fn block_registers_defined(instrs: Seq<LLInstructionModel>) -> bool {
    forall|j: int|
        0 <= j < instrs.len() ==> match #[trigger] instrs[j] {
            LLInstructionModel::Call { arguments, .. } => forall|k: int|
                0 <= k < arguments.len() ==> value_defined_before(
                    #[trigger] arguments[k],
                    instrs,
                    j,
                ),
            LLInstructionModel::Store { value, .. } => value_defined_before(value, instrs, j),
            _ => true,
        }
}

/// Whether a register stands in the variable bindings.
pub open spec fn register_in_map(r: Register, variables: Map<Seq<char>, Register>) -> bool {
    exists|name: Seq<char>| #[trigger] variables.contains_key(name) && variables[name] == r
}

/// Whether an operand is a constant or a register from the bindings.
pub open spec fn value_from_map(v: LLValue, variables: Map<Seq<char>, Register>) -> bool {
    match v {
        LLValue::Register(r) => register_in_map(r, variables),
        LLValue::Constant(_) => true,
    }
}

/// Whether every bound register is produced somewhere in the stream.
pub open spec fn map_registers_defined(
    variables: Map<Seq<char>, Register>,
    instrs: Seq<LLInstructionModel>,
) -> bool {
    forall|name: Seq<char>| #[trigger]
        variables.contains_key(name) ==> register_defined_before(
            variables[name],
            instrs,
            instrs.len() as int,
        )
}

/// Lowered argument lists only use registers from the bindings.
proof fn lemma_lower_values_from_map(
    args: Seq<HLExpressionModel>,
    variables: Map<Seq<char>, Register>,
)
    ensures
        spec_lower_values(args, variables) matches Ok(vals) ==> forall|k: int|
            0 <= k < vals.len() ==> value_from_map(#[trigger] vals[k], variables),
    decreases args.len(),
{
    if args.len() > 0 {
        lemma_lower_values_from_map(args.drop_first(), variables);
    }
}

/// Appending an instruction keeps every earlier definition in place.
proof fn lemma_defined_before_push(
    r: Register,
    instrs: Seq<LLInstructionModel>,
    j: int,
    appended: LLInstructionModel,
)
    requires
        0 <= j <= instrs.len(),
        register_defined_before(r, instrs, j),
    ensures
        register_defined_before(r, instrs.push(appended), j),
{
    let j2 = choose|j2: int| 0 <= j2 < j && instr_defines(#[trigger] instrs[j2], r);
    assert(instrs.push(appended)[j2] == instrs[j2]);
}

/// Lowering one statement keeps the register discipline: the emitted
/// call only uses bound registers, all of them already produced, and a
/// new binding points at the call's own destination.
proof fn lemma_lower_statement_registers(m: HLStatementModel, st: LLLoweringState)
    requires
        map_registers_defined(st.variables, st.instructions),
        block_registers_defined(st.instructions),
    ensures
        spec_lower_statement(m, st) matches Ok(st2) ==> {
            &&& map_registers_defined(st2.variables, st2.instructions)
            &&& block_registers_defined(st2.instructions)
        },
{
    match spec_lower_statement(m, st) {
        Err(_) => {},
        Ok(st2) => {
            match m {
                HLStatementModel::Assign { variable, expression } => {
                    match expression {
                        HLExpressionModel::FunctionCall { function, arguments } => {
                            let vals = spec_lower_values(arguments, st.variables)->Ok_0;
                            let register = Register(st.next_register as u32);
                            let appended = LLInstructionModel::Call {
                                dest: Some(register),
                                function_name: function,
                                arguments: vals,
                            };
                            lemma_lower_values_from_map(arguments, st.variables);
                            lemma_appended_call_keeps_discipline(
                                st.variables,
                                st.instructions,
                                appended,
                                vals,
                            );
                            assert(st2.instructions == st.instructions.push(appended));
                            assert(instr_defines(
                                st2.instructions[st.instructions.len() as int],
                                register,
                            ));
                            assert forall|name: Seq<char>| #[trigger]
                                st2.variables.contains_key(name) implies register_defined_before(
                                st2.variables[name],
                                st2.instructions,
                                st2.instructions.len() as int,
                            ) by {
                                if name == variable {
                                    assert(st2.variables[name] == register);
                                } else {
                                    assert(st.variables.contains_key(name));
                                    lemma_defined_before_push(
                                        st.variables[name],
                                        st.instructions,
                                        st.instructions.len() as int,
                                        appended,
                                    );
                                }
                            }
                        },
                        _ => {},
                    }
                },
                HLStatementModel::Call { function, arguments } => {
                    let vals = spec_lower_values(arguments, st.variables)->Ok_0;
                    let appended = LLInstructionModel::Call {
                        dest: None,
                        function_name: function,
                        arguments: vals,
                    };
                    lemma_lower_values_from_map(arguments, st.variables);
                    lemma_appended_call_keeps_discipline(
                        st.variables,
                        st.instructions,
                        appended,
                        vals,
                    );
                    assert(st2.instructions == st.instructions.push(appended));
                    assert forall|name: Seq<char>| #[trigger]
                        st2.variables.contains_key(name) implies register_defined_before(
                        st2.variables[name],
                        st2.instructions,
                        st2.instructions.len() as int,
                    ) by {
                        lemma_defined_before_push(
                            st.variables[name],
                            st.instructions,
                            st.instructions.len() as int,
                            appended,
                        );
                    }
                },
            }
        },
    }
}

/// Appending a call whose operands come from well-defined bindings
/// keeps the whole stream disciplined.
proof fn lemma_appended_call_keeps_discipline(
    variables: Map<Seq<char>, Register>,
    instrs: Seq<LLInstructionModel>,
    appended: LLInstructionModel,
    vals: Seq<LLValue>,
)
    requires
        map_registers_defined(variables, instrs),
        block_registers_defined(instrs),
        appended matches LLInstructionModel::Call { arguments, .. } && arguments == vals,
        forall|k: int| 0 <= k < vals.len() ==> value_from_map(#[trigger] vals[k], variables),
    ensures
        block_registers_defined(instrs.push(appended)),
{
    let instrs2 = instrs.push(appended);
    assert forall|j: int| 0 <= j < instrs2.len() implies match #[trigger] instrs2[j] {
        LLInstructionModel::Call { arguments, .. } => forall|k: int|
            0 <= k < arguments.len() ==> value_defined_before(#[trigger] arguments[k], instrs2, j),
        LLInstructionModel::Store { value, .. } => value_defined_before(value, instrs2, j),
        _ => true,
    } by {
        if j < instrs.len() {
            assert(instrs2[j] == instrs[j]);
            match instrs[j] {
                LLInstructionModel::Call { arguments, .. } => {
                    assert forall|k: int| 0 <= k < arguments.len() implies value_defined_before(
                        #[trigger] arguments[k],
                        instrs2,
                        j,
                    ) by {
                        assert(value_defined_before(arguments[k], instrs, j));
                        match arguments[k] {
                            LLValue::Register(r) => {
                                lemma_defined_before_push(r, instrs, j, appended);
                            },
                            _ => {},
                        }
                    }
                },
                LLInstructionModel::Store { value, .. } => {
                    match value {
                        LLValue::Register(r) => {
                            lemma_defined_before_push(r, instrs, j, appended);
                        },
                        _ => {},
                    }
                },
                _ => {},
            }
        } else {
            assert(instrs2[j] == appended);
            assert forall|k: int| 0 <= k < vals.len() implies value_defined_before(
                #[trigger] vals[k],
                instrs2,
                j,
            ) by {
                match vals[k] {
                    LLValue::Register(r) => {
                        let name = choose|name: Seq<char>| #[trigger]
                            variables.contains_key(name) && variables[name] == r;
                        lemma_defined_before_push(r, instrs, instrs.len() as int, appended);
                    },
                    _ => {},
                }
            }
        }
    }
}

/// Register discipline of the lowering output: in the single basic
/// block `lower_hl_to_ll` builds, every register an instruction uses
/// was produced by a prior instruction in program order.
pub proof fn lemma_lowered_program_registers_defined(stmts: Seq<HLStatementModel>)
    ensures
        spec_lower_statements(stmts, initial_state()) matches Ok(st)
            ==> block_registers_defined(st.instructions),
{
    lemma_lower_statements_registers(stmts, initial_state());
}

/// The induction behind the register-discipline law.
proof fn lemma_lower_statements_registers(stmts: Seq<HLStatementModel>, st: LLLoweringState)
    requires
        map_registers_defined(st.variables, st.instructions),
        block_registers_defined(st.instructions),
    ensures
        spec_lower_statements(stmts, st) matches Ok(st2) ==> {
            &&& map_registers_defined(st2.variables, st2.instructions)
            &&& block_registers_defined(st2.instructions)
        },
    decreases stmts.len(),
{
    if stmts.len() > 0 {
        lemma_lower_statement_registers(stmts[0], st);
        match spec_lower_statement(stmts[0], st) {
            Ok(st1) => {
                lemma_lower_statements_registers(stmts.drop_first(), st1);
            },
            Err(_) => {},
        }
    }
}

} // verus!

verus! {

/// Lowering a concatenation is lowering the first part and then the
/// second from the state the first left behind.
pub proof fn lemma_lower_statements_append(
    a: Seq<HLStatementModel>,
    b: Seq<HLStatementModel>,
    st: LLLoweringState,
)
    ensures
        spec_lower_statements(a + b, st) == (match spec_lower_statements(a, st) {
            Ok(st1) => spec_lower_statements(b, st1),
            Err(e) => Err(e),
        }),
    decreases a.len(),
{
    if a.len() == 0 {
        assert(a + b =~= b);
    } else {
        assert((a + b)[0] == a[0]);
        match spec_lower_statement(a[0], st) {
            Ok(st1) => {
                assert((a + b).drop_first() =~= a.drop_first() + b);
                lemma_lower_statements_append(a.drop_first(), b, st1);
            },
            Err(_) => {},
        }
    }
}

} // verus!
