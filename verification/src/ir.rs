//! The data model shared by every stage of the pipeline: intents, the
//! high-level IR (named variables, statements, expressions) and the
//! low-level IR (virtual registers, basic blocks, instructions).
//!
//! Each executable type has a deep mathematical model (`...Model`) over
//! `Seq<char>` and `Seq`, reached through `DeepView`; contracts are
//! stated over those models.

use vstd::prelude::*;

verus! {

// ---------------------------------------------------------------------
// Intents
// ---------------------------------------------------------------------

/// One user-requested operation, decoded from the inference service's
/// structured output.
#[derive(Debug)]
pub enum Intent {
    CreateArray(CreateArrayParams),
    SortArray(SortArrayParams),
    PrintArray,
    Wait(WaitParams),
}

/// Parameters of the `CreateArray` intent.
#[derive(Debug)]
pub struct CreateArrayParams {
    pub size: u32,
}

/// Parameters of the `SortArray` intent.
#[derive(Debug)]
pub struct SortArrayParams {
    pub order: String,
}

/// Parameters of the `Wait` intent.
#[derive(Debug)]
pub struct WaitParams {
    pub duration_ms: u64,
}

/// Mathematical model of an [`Intent`].
#[verifier::ext_equal]
pub enum IntentModel {
    CreateArray { size: u32 },
    SortArray { order: Seq<char> },
    PrintArray,
    Wait { duration_ms: u64 },
}

impl DeepView for Intent {
    type V = IntentModel;

    open spec fn deep_view(&self) -> IntentModel {
        match self {
            Intent::CreateArray(p) => IntentModel::CreateArray { size: p.size },
            Intent::SortArray(p) => IntentModel::SortArray { order: p.order@ },
            Intent::PrintArray => IntentModel::PrintArray,
            Intent::Wait(p) => IntentModel::Wait { duration_ms: p.duration_ms },
        }
    }
}

impl Clone for Intent {
    /// Cloning an intent preserves its model.
    fn clone(&self) -> (r: Self)
        ensures
            r.deep_view() == self.deep_view(),
    {
        match self {
            Intent::CreateArray(p) => Intent::CreateArray(CreateArrayParams { size: p.size }),
            Intent::SortArray(p) => Intent::SortArray(SortArrayParams { order: p.order.clone() }),
            Intent::PrintArray => Intent::PrintArray,
            Intent::Wait(p) => Intent::Wait(WaitParams { duration_ms: p.duration_ms }),
        }
    }
}

} // verus!

verus! {

// ---------------------------------------------------------------------
// High-level IR
// ---------------------------------------------------------------------

/// A program in the high-level IR: an ordered sequence of statements
/// over named variables.
#[derive(Debug, PartialEq)]
pub struct HLProgram {
    pub statements: Vec<HLStatement>,
}

#[derive(Debug, PartialEq)]
pub enum HLStatement {
    /// Assigns the result of an expression to a variable.
    Assign { variable: String, expression: HLExpression },
    /// Calls a function that returns no value.
    Call { function: String, arguments: Vec<HLExpression> },
}

#[derive(Debug, PartialEq)]
pub enum HLExpression {
    /// A literal value.
    Literal(HLValue),
    /// A reference to a variable.
    Variable(String),
    /// A call to a function that returns a value.
    FunctionCall { function: String, arguments: Vec<HLExpression> },
}

#[derive(Debug, PartialEq)]
pub enum HLValue {
    Integer(i64),
    String(String),
}

/// Mathematical model of an [`HLValue`].
#[verifier::ext_equal]
pub enum HLValueModel {
    Integer(i64),
    String(Seq<char>),
}

/// Mathematical model of an [`HLExpression`].
#[verifier::ext_equal]
pub enum HLExpressionModel {
    Literal(HLValueModel),
    Variable(Seq<char>),
    FunctionCall { function: Seq<char>, arguments: Seq<HLExpressionModel> },
}

/// Mathematical model of an [`HLStatement`].
#[verifier::ext_equal]
pub enum HLStatementModel {
    Assign { variable: Seq<char>, expression: HLExpressionModel },
    Call { function: Seq<char>, arguments: Seq<HLExpressionModel> },
}

broadcast use
    vstd::seq::axiom_seq_index_decreases,
    vstd::std_specs::vec::axiom_vec_decreases_to_view;

impl DeepView for HLValue {
    type V = HLValueModel;

    open spec fn deep_view(&self) -> HLValueModel {
        match self {
            HLValue::Integer(i) => HLValueModel::Integer(*i),
            HLValue::String(s) => HLValueModel::String(s@),
        }
    }
}

/// Model of one high-level expression.
pub open spec fn hl_expr_model(e: HLExpression) -> HLExpressionModel
    decreases e,
{
    match e {
        HLExpression::Literal(v) => HLExpressionModel::Literal(v.deep_view()),
        HLExpression::Variable(name) => HLExpressionModel::Variable(name@),
        HLExpression::FunctionCall { function, arguments } => HLExpressionModel::FunctionCall {
            function: function@,
            arguments: hl_exprs_model(arguments@),
        },
    }
}

/// Model of a sequence of high-level expressions, element by element.
pub open spec fn hl_exprs_model(s: Seq<HLExpression>) -> Seq<HLExpressionModel>
    decreases s,
{
    if s.len() == 0 {
        Seq::empty()
    } else {
        seq![hl_expr_model(s[0])] + hl_exprs_model(s.drop_first())
    }
}

/// `hl_exprs_model` maps the sequence element by element.
pub broadcast proof fn lemma_hl_exprs_model(s: Seq<HLExpression>)
    ensures
        #[trigger] hl_exprs_model(s).len() == s.len(),
        forall|i: int| 0 <= i < s.len() ==> hl_exprs_model(s)[i] == hl_expr_model(s[i]),
    decreases s.len(),
{
    if s.len() > 0 {
        lemma_hl_exprs_model(s.drop_first());
    }
}

impl DeepView for HLExpression {
    type V = HLExpressionModel;

    open spec fn deep_view(&self) -> HLExpressionModel {
        hl_expr_model(*self)
    }
}

impl DeepView for HLStatement {
    type V = HLStatementModel;

    open spec fn deep_view(&self) -> HLStatementModel {
        match self {
            HLStatement::Assign { variable, expression } => HLStatementModel::Assign {
                variable: variable@,
                expression: expression.deep_view(),
            },
            HLStatement::Call { function, arguments } => HLStatementModel::Call {
                function: function@,
                arguments: hl_exprs_model(arguments@),
            },
        }
    }
}

impl DeepView for HLProgram {
    type V = Seq<HLStatementModel>;

    open spec fn deep_view(&self) -> Seq<HLStatementModel> {
        self.statements.deep_view()
    }
}

} // verus!

verus! {

// ---------------------------------------------------------------------
// Low-level IR
// ---------------------------------------------------------------------

/// A program in the low-level IR: a sequence of functions over virtual
/// registers and basic blocks.
#[derive(Debug, PartialEq)]
pub struct LLProgram {
    pub functions: Vec<LLFunction>,
}

#[derive(Debug, PartialEq)]
pub struct LLFunction {
    pub name: String,
    pub parameters: Vec<(LLType, Register)>,
    pub return_type: LLType,
    pub basic_blocks: Vec<BasicBlock>,
}

#[derive(Debug, PartialEq)]
pub struct BasicBlock {
    pub id: usize,
    pub instructions: Vec<LLInstruction>,
    pub terminator: Terminator,
}

/// A virtual register: an opaque handle naming a value produced at a
/// point in the instruction stream.
#[derive(Debug, Clone, Copy, PartialEq, Eq, Hash, Structural)]
pub struct Register(pub u32);

/// The primitive types of the low-level IR.
#[derive(Debug, PartialEq)]
pub enum LLType {
    Void,
    I32,
    I64,
    F64,
    Pointer(Box<LLType>),
}

/// A single atomic operation.
#[derive(Debug, PartialEq)]
pub enum LLInstruction {
    /// Allocates stack space; `dest` names a pointer to it.
    Alloc { dest: Register, ty: LLType },
    /// Loads the value behind `source_ptr` into `dest`.
    Load { dest: Register, source_ptr: Register },
    /// Stores `value` behind `dest_ptr`.
    Store { value: LLValue, dest_ptr: Register },
    /// Calls a function; `dest` is `None` for void calls.
    Call { dest: Option<Register>, function_name: String, arguments: Vec<LLValue> },
}

/// The instruction that ends a basic block.
#[derive(Debug, Clone, PartialEq)]
pub enum Terminator {
    Return(Option<LLValue>),
}

/// An operand: a register or a constant.
#[derive(Debug, Clone, Copy, PartialEq, Eq, Structural)]
pub enum LLValue {
    Register(Register),
    Constant(LLConstant),
}

/// A constant literal operand.
#[derive(Debug, Clone, Copy, PartialEq, Eq, Structural)]
pub enum LLConstant {
    I32(i32),
    I64(i64),
}

impl Clone for LLType {
    /// Cloning a low-level type yields an equal value.
    fn clone(&self) -> (r: Self)
        ensures
            r == *self,
        decreases self,
    {
        match self {
            LLType::Void => LLType::Void,
            LLType::I32 => LLType::I32,
            LLType::I64 => LLType::I64,
            LLType::F64 => LLType::F64,
            LLType::Pointer(inner) => LLType::Pointer(Box::new((**inner).clone())),
        }
    }
}

impl DeepView for Register {
    type V = Register;

    open spec fn deep_view(&self) -> Register {
        *self
    }
}

impl DeepView for LLType {
    type V = LLType;

    open spec fn deep_view(&self) -> LLType {
        *self
    }
}

impl DeepView for LLValue {
    type V = LLValue;

    open spec fn deep_view(&self) -> LLValue {
        *self
    }
}

impl DeepView for Terminator {
    type V = Terminator;

    open spec fn deep_view(&self) -> Terminator {
        *self
    }
}

/// Mathematical model of an [`LLInstruction`].
#[verifier::ext_equal]
pub enum LLInstructionModel {
    Alloc { dest: Register, ty: LLType },
    Load { dest: Register, source_ptr: Register },
    Store { value: LLValue, dest_ptr: Register },
    Call { dest: Option<Register>, function_name: Seq<char>, arguments: Seq<LLValue> },
}

impl DeepView for LLInstruction {
    type V = LLInstructionModel;

    open spec fn deep_view(&self) -> LLInstructionModel {
        match self {
            LLInstruction::Alloc { dest, ty } => LLInstructionModel::Alloc {
                dest: *dest,
                ty: *ty,
            },
            LLInstruction::Load { dest, source_ptr } => LLInstructionModel::Load {
                dest: *dest,
                source_ptr: *source_ptr,
            },
            LLInstruction::Store { value, dest_ptr } => LLInstructionModel::Store {
                value: *value,
                dest_ptr: *dest_ptr,
            },
            LLInstruction::Call { dest, function_name, arguments } => LLInstructionModel::Call {
                dest: *dest,
                function_name: function_name@,
                arguments: arguments@,
            },
        }
    }
}

/// Mathematical model of a [`BasicBlock`].
#[verifier::ext_equal]
pub struct BasicBlockModel {
    pub id: usize,
    pub instructions: Seq<LLInstructionModel>,
    pub terminator: Terminator,
}

impl DeepView for BasicBlock {
    type V = BasicBlockModel;

    open spec fn deep_view(&self) -> BasicBlockModel {
        BasicBlockModel {
            id: self.id,
            instructions: self.instructions.deep_view(),
            terminator: self.terminator,
        }
    }
}

/// Mathematical model of an [`LLFunction`].
#[verifier::ext_equal]
pub struct LLFunctionModel {
    pub name: Seq<char>,
    pub parameters: Seq<(LLType, Register)>,
    pub return_type: LLType,
    pub basic_blocks: Seq<BasicBlockModel>,
}

impl DeepView for LLFunction {
    type V = LLFunctionModel;

    open spec fn deep_view(&self) -> LLFunctionModel {
        LLFunctionModel {
            name: self.name@,
            parameters: self.parameters@,
            return_type: self.return_type,
            basic_blocks: self.basic_blocks.deep_view(),
        }
    }
}

impl DeepView for LLProgram {
    type V = Seq<LLFunctionModel>;

    open spec fn deep_view(&self) -> Seq<LLFunctionModel> {
        self.functions.deep_view()
    }
}

} // verus!
