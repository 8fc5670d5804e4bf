//! The backend code generator: turns the low-level IR into textual
//! backend IR for the outside toolchain.  Registers live in stack
//! slots; every use loads the slot, every call result is stored back
//! into a fresh slot.  Functions that were never emitted are declared
//! on first call, their parameter types inferred from the arguments
//! and their return type from whether the call has a destination.
//! The module is verified structurally as it is emitted: a dangling
//! register, a void stack slot, an unsupported instruction, a call
//! whose arguments do not fit the callee, or a function without a
//! block is fatal, and the diagnostic carries the IR text built so
//! far.

use vstd::prelude::*;
use crate::ir::{
    LLConstant, LLFunction, LLFunctionModel, LLInstruction, LLInstructionModel, LLProgram, LLType,
    LLValue, Register, Terminator,
};
use crate::numfmt::{i64_dec_seq, i64_to_dec_string, u64_dec_seq, u64_to_dec_string};

verus! {

/// A type as the backend sees it; pointers are opaque.
#[derive(Debug, Clone, Copy, PartialEq, Eq, Structural)]
pub enum BackendType {
    Void,
    I32,
    I64,
    F64,
    Ptr,
}

/// The backend type standing for a low-level type.
pub open spec fn spec_backend_type(t: LLType) -> BackendType {
    match t {
        LLType::Void => BackendType::Void,
        LLType::I32 => BackendType::I32,
        LLType::I64 => BackendType::I64,
        LLType::F64 => BackendType::F64,
        LLType::Pointer(_) => BackendType::Ptr,
    }
}

/// The low-level type tracked for a value the backend hands back with
/// the given type; the pointer type is opaque, so a pointer is tracked
/// as a pointer to a double.
pub open spec fn spec_tracked_type(b: BackendType) -> LLType {
    match b {
        BackendType::Void => LLType::I64,
        BackendType::I32 => LLType::I32,
        BackendType::I64 => LLType::I64,
        BackendType::F64 => LLType::F64,
        BackendType::Ptr => LLType::Pointer(Box::new(LLType::F64)),
    }
}

/// The text of a backend type.
pub open spec fn spec_type_text(b: BackendType) -> Seq<char> {
    match b {
        BackendType::Void => "void"@,
        BackendType::I32 => "i32"@,
        BackendType::I64 => "i64"@,
        BackendType::F64 => "double"@,
        BackendType::Ptr => "ptr"@,
    }
}

/// The name of a register's stack slot.
pub open spec fn spec_reg_name(r: Register) -> Seq<char> {
    "%reg_"@ + u64_dec_seq(r.0 as nat)
}

/// The name of the temporary holding an operand: `%t<instruction>_<argument>`.
pub open spec fn spec_temp_name(j: nat, k: nat) -> Seq<char> {
    "%t"@ + u64_dec_seq(j) + "_"@ + u64_dec_seq(k)
}

/// The name of the temporary holding a call's result.
pub open spec fn spec_call_name(j: nat) -> Seq<char> {
    "%call_"@ + u64_dec_seq(j)
}

/// The signature under which a function is known to the module.
#[verifier::ext_equal]
pub struct FnSigModel {
    pub params: Seq<BackendType>,
    pub ret: BackendType,
}

/// The state of one emission run: the types tracked for registers, the
/// functions known to the module, the module text built so far, and
/// the declarations to append after it.
#[verifier::ext_equal]
pub struct CodeGenState {
    pub registers: Map<Register, LLType>,
    pub functions: Map<Seq<char>, FnSigModel>,
    pub text: Seq<char>,
    pub declares: Seq<char>,
}

/// The fatal diagnostic built when emission finds the module broken:
/// the reason, and the IR text built so far.
pub open spec fn spec_error_message(st: CodeGenState, reason: Seq<char>) -> Seq<char> {
    "LLVM module verification failed: "@ + reason + "\nGenerated IR:\n"@ + st.text + st.declares
}

/// Evaluating one operand in instruction `j`, argument slot `k`:
/// a constant becomes an immediate, a register a load of its slot into
/// a fresh temporary.  Yields the operand's text, its backend type,
/// and the state with any load line appended.
pub open spec fn spec_eval_value(v: LLValue, st: CodeGenState, j: nat, k: nat) -> Result<
    (Seq<char>, BackendType, CodeGenState),
    Seq<char>,
> {
    match v {
        LLValue::Constant(LLConstant::I64(x)) => Ok((i64_dec_seq(x as int), BackendType::I64, st)),
        LLValue::Constant(LLConstant::I32(x)) => Ok((i64_dec_seq(x as int), BackendType::I32, st)),
        LLValue::Register(r) => if st.registers.contains_key(r) {
            let b = spec_backend_type(st.registers[r]);
            let line = "  "@ + spec_temp_name(j, k) + " = load "@ + spec_type_text(b) + ", ptr "@
                + spec_reg_name(r) + "\n"@;
            Ok((spec_temp_name(j, k), b, CodeGenState { text: st.text + line, ..st }))
        } else {
            Err(spec_error_message(st, "use of a register that was never assigned"@))
        },
    }
}

/// Evaluating an argument list left to right, numbering the slots from
/// `k` on.
pub open spec fn spec_eval_values(
    values: Seq<LLValue>,
    st: CodeGenState,
    j: nat,
    k: nat,
) -> Result<(Seq<(Seq<char>, BackendType)>, CodeGenState), Seq<char>>
    decreases values.len(),
{
    if values.len() == 0 {
        Ok((Seq::empty(), st))
    } else {
        match spec_eval_value(values[0], st, j, k) {
            Err(m) => Err(m),
            Ok((text, b, st1)) => match spec_eval_values(values.drop_first(), st1, j, k + 1) {
                Err(m) => Err(m),
                Ok((rest, st2)) => Ok((seq![(text, b)] + rest, st2)),
            },
        }
    }
}

/// The argument text of a call: `<type> <operand>`, comma-separated.
pub open spec fn spec_args_text(items: Seq<(Seq<char>, BackendType)>, separator_before: bool) -> Seq<
    char,
>
    decreases items.len(),
{
    if items.len() == 0 {
        Seq::empty()
    } else {
        (if separator_before {
            ", "@
        } else {
            Seq::empty()
        }) + spec_type_text(items[0].1) + " "@ + items[0].0 + spec_args_text(
            items.drop_first(),
            true,
        )
    }
}

/// The parameter text of a signature: types alone, comma-separated.
pub open spec fn spec_params_text(params: Seq<BackendType>, separator_before: bool) -> Seq<char>
    decreases params.len(),
{
    if params.len() == 0 {
        Seq::empty()
    } else {
        (if separator_before {
            ", "@
        } else {
            Seq::empty()
        }) + spec_type_text(params[0]) + spec_params_text(params.drop_first(), true)
    }
}

/// The backend types of evaluated arguments, in order.
pub open spec fn spec_arg_types(items: Seq<(Seq<char>, BackendType)>) -> Seq<BackendType> {
    items.map_values(|item: (Seq<char>, BackendType)| item.1)
}

} // verus!

verus! {

/// Emitting one call instruction `j`: the arguments are evaluated, the
/// callee is resolved or declared as a placeholder, the argument types
/// are checked against the signature, and the call line is emitted.
/// A destination takes a fresh slot holding the returned value.
pub open spec fn spec_gen_call(
    dest: Option<Register>,
    name: Seq<char>,
    arguments: Seq<LLValue>,
    st: CodeGenState,
    j: nat,
) -> Result<CodeGenState, Seq<char>> {
    match spec_eval_values(arguments, st, j, 0) {
        Err(m) => Err(m),
        Ok((items, st1)) => {
            let (sig, st2) = if st1.functions.contains_key(name) {
                (st1.functions[name], st1)
            } else {
                let sig = FnSigModel {
                    params: spec_arg_types(items),
                    ret: if dest is Some {
                        BackendType::Ptr
                    } else {
                        BackendType::Void
                    },
                };
                let line = "\ndeclare "@ + spec_type_text(sig.ret) + " @"@ + name + "("@
                    + spec_params_text(sig.params, false) + ")\n"@;
                (
                    sig,
                    CodeGenState {
                        functions: st1.functions.insert(name, sig),
                        declares: st1.declares + line,
                        ..st1
                    },
                )
            };
            if sig.params != spec_arg_types(items) {
                Err(spec_error_message(st2, "call arguments do not fit the callee"@))
            } else {
                let args_text = spec_args_text(items, false);
                match dest {
                    Some(d) => if sig.ret is Void {
                        Err(spec_error_message(st2, "call with a destination returns no value"@))
                    } else {
                        let lines = "  "@ + spec_call_name(j) + " = call "@ + spec_type_text(
                            sig.ret,
                        ) + " @"@ + name + "("@ + args_text + ")\n"@ + "  "@ + spec_reg_name(d)
                            + " = alloca "@ + spec_type_text(sig.ret) + "\n"@ + "  store "@
                            + spec_type_text(sig.ret) + " "@ + spec_call_name(j) + ", ptr "@
                            + spec_reg_name(d) + "\n"@;
                        Ok(
                            CodeGenState {
                                registers: st2.registers.insert(d, spec_tracked_type(sig.ret)),
                                text: st2.text + lines,
                                ..st2
                            },
                        )
                    },
                    None => {
                        let line = if sig.ret is Void {
                            "  call void @"@ + name + "("@ + args_text + ")\n"@
                        } else {
                            "  "@ + spec_call_name(j) + " = call "@ + spec_type_text(sig.ret)
                                + " @"@ + name + "("@ + args_text + ")\n"@
                        };
                        Ok(CodeGenState { text: st2.text + line, ..st2 })
                    },
                }
            }
        },
    }
}

/// Emitting one instruction `j`: a stack allocation records its slot's
/// type; a call goes through `spec_gen_call`; loads and stores are not
/// yet emitted by any lowering and are refused.
pub open spec fn spec_gen_instruction(ins: LLInstructionModel, st: CodeGenState, j: nat) -> Result<
    CodeGenState,
    Seq<char>,
> {
    match ins {
        LLInstructionModel::Alloc { dest, ty } => if spec_backend_type(ty) is Void {
            Err(spec_error_message(st, "stack allocation of the void type"@))
        } else {
            let line = "  "@ + spec_reg_name(dest) + " = alloca "@ + spec_type_text(
                spec_backend_type(ty),
            ) + "\n"@;
            Ok(
                CodeGenState {
                    registers: st.registers.insert(dest, ty),
                    text: st.text + line,
                    ..st
                },
            )
        },
        LLInstructionModel::Call { dest, function_name, arguments } => spec_gen_call(
            dest,
            function_name,
            arguments,
            st,
            j,
        ),
        _ => Err(spec_error_message(st, "instruction not supported by the backend"@)),
    }
}

/// Emitting an instruction sequence, numbering from `j`.
pub open spec fn spec_gen_instructions(
    instructions: Seq<LLInstructionModel>,
    st: CodeGenState,
    j: nat,
) -> Result<CodeGenState, Seq<char>>
    decreases instructions.len(),
{
    if instructions.len() == 0 {
        Ok(st)
    } else {
        match spec_gen_instruction(instructions[0], st, j) {
            Err(m) => Err(m),
            Ok(st1) => spec_gen_instructions(instructions.drop_first(), st1, j + 1),
        }
    }
}

/// Emitting the block terminator (as pseudo-instruction `j`): a void
/// return, or a value return evaluating its operand first.
pub open spec fn spec_gen_terminator(t: Terminator, st: CodeGenState, j: nat) -> Result<
    CodeGenState,
    Seq<char>,
> {
    match t {
        Terminator::Return(None) => Ok(CodeGenState { text: st.text + "  ret void\n"@, ..st }),
        Terminator::Return(Some(v)) => match spec_eval_value(v, st, j, 0) {
            Err(m) => Err(m),
            Ok((text, b, st1)) => Ok(
                CodeGenState {
                    text: st1.text + "  ret "@ + spec_type_text(b) + " "@ + text + "\n"@,
                    ..st1
                },
            ),
        },
    }
}

/// The backend types of a function's declared parameters.
pub open spec fn spec_param_types(params: Seq<(LLType, Register)>) -> Seq<BackendType> {
    params.map_values(|p: (LLType, Register)| spec_backend_type(p.0))
}

/// The parameter list text of a function definition: `<type> %reg_<id>`.
pub open spec fn spec_def_params_text(params: Seq<(LLType, Register)>, separator_before: bool) -> Seq<
    char,
>
    decreases params.len(),
{
    if params.len() == 0 {
        Seq::empty()
    } else {
        (if separator_before {
            ", "@
        } else {
            Seq::empty()
        }) + spec_type_text(spec_backend_type(params[0].0)) + " "@ + spec_reg_name(params[0].1)
            + spec_def_params_text(params.drop_first(), true)
    }
}

/// Whether any declared parameter is void.
pub open spec fn spec_has_void_param(params: Seq<(LLType, Register)>) -> bool {
    exists|i: int| 0 <= i < params.len() && spec_backend_type(params[i].0) is Void
}

/// Emitting one function: the definition header, the first basic
/// block's instructions and terminator, and the closing brace.  The
/// function is known to the module before its body is emitted.  A
/// void parameter or a function without a block is a verification
/// failure.
pub open spec fn spec_gen_function(f: LLFunctionModel, st: CodeGenState) -> Result<
    CodeGenState,
    Seq<char>,
> {
    if spec_has_void_param(f.parameters) {
        Err(spec_error_message(st, "function parameter of the void type"@))
    } else {
        let sig = FnSigModel {
            params: spec_param_types(f.parameters),
            ret: spec_backend_type(f.return_type),
        };
        let header = "\ndefine "@ + spec_type_text(sig.ret) + " @"@ + f.name + "("@
            + spec_def_params_text(f.parameters, false) + ") {\nentry:\n"@;
        let st1 = CodeGenState {
            functions: st.functions.insert(f.name, sig),
            text: st.text + header,
            ..st
        };
        if f.basic_blocks.len() == 0 {
            Err(spec_error_message(st1, "function body has no basic block"@))
        } else {
            let block = f.basic_blocks[0];
            match spec_gen_instructions(block.instructions, st1, 0) {
                Err(m) => Err(m),
                Ok(st2) => match spec_gen_terminator(
                    block.terminator,
                    st2,
                    block.instructions.len(),
                ) {
                    Err(m) => Err(m),
                    Ok(st3) => Ok(CodeGenState { text: st3.text + "}\n"@, ..st3 }),
                },
            }
        }
    }
}

/// Emitting every function in order.
pub open spec fn spec_gen_functions(functions: Seq<LLFunctionModel>, st: CodeGenState) -> Result<
    CodeGenState,
    Seq<char>,
>
    decreases functions.len(),
{
    if functions.len() == 0 {
        Ok(st)
    } else {
        match spec_gen_function(functions[0], st) {
            Err(m) => Err(m),
            Ok(st1) => spec_gen_functions(functions.drop_first(), st1),
        }
    }
}

/// The module header naming the module and the target triple.
pub open spec fn spec_module_header(triple: Seq<char>) -> Seq<char> {
    "; ModuleID = 'naldom_module'\nsource_filename = \"naldom_module\"\ntarget triple = \""@
        + triple + "\"\n"@
}

/// The state in which emission starts.
pub open spec fn spec_initial_state(triple: Seq<char>) -> CodeGenState {
    CodeGenState {
        registers: Map::<Register, LLType>::empty(),
        functions: Map::<Seq<char>, FnSigModel>::empty(),
        text: spec_module_header(triple),
        declares: Seq::<char>::empty(),
    }
}

/// The whole run: the module header, every function, then the
/// declarations gathered along the way; or the first fatal diagnostic.
pub open spec fn spec_generate(program: Seq<LLFunctionModel>, triple: Seq<char>) -> Result<
    Seq<char>,
    Seq<char>,
> {
    match spec_gen_functions(program, spec_initial_state(triple)) {
        Err(m) => Err(m),
        Ok(st) => Ok(st.text + st.declares),
    }
}

} // verus!

verus! {

impl DeepView for BackendType {
    type V = BackendType;

    open spec fn deep_view(&self) -> BackendType {
        *self
    }
}

/// The signature under which a function is known, as executable data.
#[derive(Debug)]
pub struct FnSig {
    pub params: Vec<BackendType>,
    pub ret: BackendType,
}

impl DeepView for FnSig {
    type V = FnSigModel;

    open spec fn deep_view(&self) -> FnSigModel {
        FnSigModel { params: self.params.deep_view(), ret: self.ret }
    }
}

/// The map described by a sequence of pairs, later entries winning.
pub open spec fn pairs_as_map<K, V>(s: Seq<(K, V)>) -> Map<K, V>
    decreases s.len(),
{
    if s.len() == 0 {
        Map::empty()
    } else {
        pairs_as_map(s.drop_last()).insert(s.last().0, s.last().1)
    }
}

/// The backend type of a low-level type.
pub fn backend_type(t: &LLType) -> (b: BackendType)
    ensures
        b == spec_backend_type(*t),
{
    match t {
        LLType::Void => BackendType::Void,
        LLType::I32 => BackendType::I32,
        LLType::I64 => BackendType::I64,
        LLType::F64 => BackendType::F64,
        LLType::Pointer(_) => BackendType::Ptr,
    }
}

/// The low-level type tracked for a backend value of the given type.
fn tracked_type(b: BackendType) -> (t: LLType)
    ensures
        t == spec_tracked_type(b),
{
    match b {
        BackendType::Void => LLType::I64,
        BackendType::I32 => LLType::I32,
        BackendType::I64 => LLType::I64,
        BackendType::F64 => LLType::F64,
        BackendType::Ptr => LLType::Pointer(Box::new(LLType::F64)),
    }
}

/// The text of a backend type.
fn type_text(b: BackendType) -> (r: &'static str)
    ensures
        r@ == spec_type_text(b),
{
    match b {
        BackendType::Void => "void",
        BackendType::I32 => "i32",
        BackendType::I64 => "i64",
        BackendType::F64 => "double",
        BackendType::Ptr => "ptr",
    }
}

/// The name of a register's stack slot.
fn reg_name(r: Register) -> (s: String)
    ensures
        s@ == spec_reg_name(r),
{
    let mut out = String::from_str("%reg_");
    out.append(u64_to_dec_string(r.0 as u64).as_str());
    proof {
        assert(out@ =~= spec_reg_name(r));
    }
    out
}

/// The name of the temporary holding an operand.
fn temp_name(j: usize, k: usize) -> (s: String)
    ensures
        s@ == spec_temp_name(j as nat, k as nat),
{
    let mut out = String::from_str("%t");
    out.append(u64_to_dec_string(j as u64).as_str());
    out.append("_");
    out.append(u64_to_dec_string(k as u64).as_str());
    proof {
        assert(out@ =~= spec_temp_name(j as nat, k as nat));
    }
    out
}

/// The name of the temporary holding a call's result.
fn call_name(j: usize) -> (s: String)
    ensures
        s@ == spec_call_name(j as nat),
{
    let mut out = String::from_str("%call_");
    out.append(u64_to_dec_string(j as u64).as_str());
    proof {
        assert(out@ =~= spec_call_name(j as nat));
    }
    out
}

/// The emission context: tracked register types, known functions, and
/// the module text under construction.
pub struct CodeGenContext {
    registers: Vec<(Register, LLType)>,
    functions: Vec<(String, FnSig)>,
    text: String,
    declares: String,
}

impl CodeGenContext {
    /// The types tracked for registers.
    pub closed spec fn registers_map(&self) -> Map<Register, LLType> {
        pairs_as_map(self.registers.deep_view())
    }

    /// The functions known to the module.
    pub closed spec fn functions_map(&self) -> Map<Seq<char>, FnSigModel> {
        pairs_as_map(self.functions.deep_view())
    }

    /// The module text built so far.
    pub closed spec fn text_view(&self) -> Seq<char> {
        self.text@
    }

    /// The declarations gathered so far.
    pub closed spec fn declares_view(&self) -> Seq<char> {
        self.declares@
    }

    /// The whole state, as one value.
    pub open spec fn state(&self) -> CodeGenState {
        CodeGenState {
            registers: self.registers_map(),
            functions: self.functions_map(),
            text: self.text_view(),
            declares: self.declares_view(),
        }
    }

    /// Creates a context whose text holds the module header for the
    /// given target triple.
    fn new(target_triple: &str) -> (r: Self)
        ensures
            r.state() == spec_initial_state(target_triple@),
    {
        let mut text = String::from_str(
            "; ModuleID = 'naldom_module'\nsource_filename = \"naldom_module\"\ntarget triple = \"",
        );
        text.append(target_triple);
        text.append("\"\n");
        let r = CodeGenContext {
            registers: Vec::new(),
            functions: Vec::new(),
            text,
            declares: String::new(),
        };
        proof {
            assert(r.state() =~~= spec_initial_state(target_triple@));
        }
        r
    }

    /// Appends to the module text.
    fn append_text(&mut self, s: &str)
        ensures
            final(self).state() == (CodeGenState {
                text: old(self).state().text + s@,
                ..old(self).state()
            }),
    {
        self.text.append(s);
        proof {
            assert(final(self).state() =~~= CodeGenState {
                text: old(self).state().text + s@,
                ..old(self).state()
            });
        }
    }

    /// Appends to the gathered declarations.
    fn append_declares(&mut self, s: &str)
        ensures
            final(self).state() == (CodeGenState {
                declares: old(self).state().declares + s@,
                ..old(self).state()
            }),
    {
        self.declares.append(s);
        proof {
            assert(final(self).state() =~~= CodeGenState {
                declares: old(self).state().declares + s@,
                ..old(self).state()
            });
        }
    }

    /// Records the type tracked for a register's slot.
    fn record_register(&mut self, register: Register, ty: LLType)
        ensures
            final(self).state() == (CodeGenState {
                registers: old(self).state().registers.insert(register, ty),
                ..old(self).state()
            }),
    {
        let ghost before = self.registers.deep_view();
        self.registers.push((register, ty));
        proof {
            assert(self.registers.deep_view().drop_last() =~= before);
            assert(final(self).state() =~~= CodeGenState {
                registers: old(self).state().registers.insert(register, ty),
                ..old(self).state()
            });
        }
    }

    /// Records a function known to the module.
    fn record_function(&mut self, name: String, sig: FnSig)
        ensures
            final(self).state() == (CodeGenState {
                functions: old(self).state().functions.insert(name@, sig.deep_view()),
                ..old(self).state()
            }),
    {
        let ghost before = self.functions.deep_view();
        let ghost entry = (name@, sig.deep_view());
        self.functions.push((name, sig));
        proof {
            assert(self.functions.deep_view().drop_last() =~= before);
            assert(self.functions.deep_view().last() == entry);
            assert(final(self).state() =~~= CodeGenState {
                functions: old(self).state().functions.insert(entry.0, entry.1),
                ..old(self).state()
            });
        }
    }

    /// Finds the type tracked for a register, if any.
    fn find_register(&self, register: Register) -> (r: Option<LLType>)
        ensures
            match r {
                Some(ty) => self.registers_map().contains_key(register) && ty
                    == self.registers_map()[register],
                None => !self.registers_map().contains_key(register),
            },
    {
        let ghost all = self.registers.deep_view();
        let mut i: usize = self.registers.len();
        proof {
            assert(all.take(i as int) =~= all);
        }
        while i > 0
            invariant
                i <= self.registers.len(),
                all == self.registers.deep_view(),
                pairs_as_map(all).contains_key(register) == pairs_as_map(
                    all.take(i as int),
                ).contains_key(register),
                pairs_as_map(all).contains_key(register) ==> pairs_as_map(all)[register]
                    == pairs_as_map(all.take(i as int))[register],
            decreases i,
        {
            i = i - 1;
            proof {
                assert(all.take(i + 1).drop_last() =~= all.take(i as int));
                assert(all.take(i + 1).last() == all[i as int]);
            }
            if self.registers[i].0 == register {
                return Some(self.registers[i].1.clone());
            }
        }
        proof {
            assert(all.take(0) =~= Seq::<(Register, LLType)>::empty());
        }
        None
    }

    /// Finds the signature of a function known to the module, if any.
    fn find_function(&self, name: &str) -> (r: Option<&FnSig>)
        ensures
            match r {
                Some(sig) => self.functions_map().contains_key(name@) && sig.deep_view()
                    == self.functions_map()[name@],
                None => !self.functions_map().contains_key(name@),
            },
    {
        let key = String::from_str(name);
        let ghost all = self.functions.deep_view();
        let mut i: usize = self.functions.len();
        proof {
            assert(all.take(i as int) =~= all);
        }
        while i > 0
            invariant
                i <= self.functions.len(),
                key@ == name@,
                all == self.functions.deep_view(),
                pairs_as_map(all).contains_key(name@) == pairs_as_map(
                    all.take(i as int),
                ).contains_key(name@),
                pairs_as_map(all).contains_key(name@) ==> pairs_as_map(all)[name@]
                    == pairs_as_map(all.take(i as int))[name@],
            decreases i,
        {
            i = i - 1;
            proof {
                assert(all.take(i + 1).drop_last() =~= all.take(i as int));
                assert(all.take(i + 1).last() == all[i as int]);
            }
            if self.functions[i].0 == key {
                return Some(&self.functions[i].1);
            }
        }
        proof {
            assert(all.take(0) =~= Seq::<(Seq<char>, FnSigModel)>::empty());
        }
        None
    }

    /// The fatal diagnostic for the current state.
    fn error_message(&self, reason: &str) -> (r: String)
        ensures
            r@ == spec_error_message(self.state(), reason@),
    {
        let mut out = String::from_str("LLVM module verification failed: ");
        out.append(reason);
        out.append("\nGenerated IR:\n");
        out.append(self.text.as_str());
        out.append(self.declares.as_str());
        proof {
            assert(out@ =~= spec_error_message(self.state(), reason@));
        }
        out
    }
}

} // verus!

verus! {

impl CodeGenContext {
    /// Evaluates one operand, emitting a load line for a register.
    fn eval_value(&mut self, v: &LLValue, j: usize, k: usize) -> (r: Result<
        (String, BackendType),
        String,
    >)
        ensures
            match spec_eval_value(*v, old(self).state(), j as nat, k as nat) {
                Ok((text, b, st)) => r is Ok && r->Ok_0.0@ == text && r->Ok_0.1 == b
                    && final(self).state() == st,
                Err(m) => r is Err && r->Err_0@ == m && *final(self) == *old(self),
            },
    {
        match v {
            LLValue::Constant(LLConstant::I64(x)) => Ok((i64_to_dec_string(*x), BackendType::I64)),
            LLValue::Constant(LLConstant::I32(x)) => Ok(
                (i64_to_dec_string(*x as i64), BackendType::I32),
            ),
            LLValue::Register(register) => match self.find_register(*register) {
                Some(ty) => {
                    let b = backend_type(&ty);
                    let name = temp_name(j, k);
                    let mut line = String::from_str("  ");
                    line.append(name.as_str());
                    line.append(" = load ");
                    line.append(type_text(b));
                    line.append(", ptr ");
                    line.append(reg_name(*register).as_str());
                    line.append("\n");
                    self.append_text(line.as_str());
                    proof {
                        assert(final(self).state() =~~= spec_eval_value(
                            *v,
                            old(self).state(),
                            j as nat,
                            k as nat,
                        )->Ok_0.2);
                    }
                    Ok((name, b))
                },
                None => Err(self.error_message("use of a register that was never assigned")),
            },
        }
    }

    /// Evaluates an argument list left to right.
    fn eval_values(&mut self, values: &Vec<LLValue>, j: usize) -> (r: Result<
        Vec<(String, BackendType)>,
        String,
    >)
        ensures
            match spec_eval_values(values@, old(self).state(), j as nat, 0) {
                Ok((items, st)) => r is Ok && r->Ok_0.deep_view() == items && final(self).state()
                    == st,
                Err(m) => r is Err && r->Err_0@ == m,
            },
    {
        let ghost all = values@;
        let mut items: Vec<(String, BackendType)> = Vec::new();
        let mut k: usize = 0;
        proof {
            assert(all.skip(0) =~= all);
        }
        while k < values.len()
            invariant
                k <= all.len(),
                all == values@,
                ({
                    let total = spec_eval_values(all, old(self).state(), j as nat, 0);
                    let rest = spec_eval_values(
                        all.skip(k as int),
                        self.state(),
                        j as nat,
                        k as nat,
                    );
                    match rest {
                        Ok((more, st)) => total == Ok::<
                            (Seq<(Seq<char>, BackendType)>, CodeGenState),
                            Seq<char>,
                        >((items.deep_view() + more, st)),
                        Err(m) => total == Err::<
                            (Seq<(Seq<char>, BackendType)>, CodeGenState),
                            Seq<char>,
                        >(m),
                    }
                }),
            decreases all.len() - k,
        {
            let ghost rem = all.skip(k as int);
            proof {
                assert(rem[0] == all[k as int]);
                assert(rem.drop_first() =~= all.skip(k + 1));
                assert(items.deep_view().len() == items@.len());
            }
            let ghost items_before = items.deep_view();
            match self.eval_value(&values[k], j, k) {
                Ok(item) => {
                    items.push(item);
                    proof {
                        let pushed = items.deep_view();
                        assert(pushed =~= items_before.push(pushed.last()));
                        if spec_eval_values(all.skip(k + 1), self.state(), j as nat, (k + 1) as nat) is Ok {
                            let more = spec_eval_values(
                                all.skip(k + 1),
                                self.state(),
                                j as nat,
                                (k + 1) as nat,
                            )->Ok_0.0;
                            assert(items_before + (seq![pushed.last()] + more) =~= pushed + more);
                        }
                    }
                },
                Err(m) => {
                    return Err(m);
                },
            }
            k = k + 1;
        }
        proof {
            assert(all.skip(all.len() as int) =~= Seq::<LLValue>::empty());
            assert(items.deep_view() + Seq::<(Seq<char>, BackendType)>::empty()
                =~= items.deep_view());
        }
        Ok(items)
    }
}

/// The `<type> <operand>` text of evaluated arguments, comma-separated.
fn args_text(items: &Vec<(String, BackendType)>) -> (r: String)
    ensures
        r@ == spec_args_text(items.deep_view(), false),
{
    let ghost all = items.deep_view();
    let mut out = String::new();
    let mut i: usize = 0;
    proof {
        assert(all.skip(0) =~= all);
    }
    while i < items.len()
        invariant
            i <= items@.len(),
            all == items.deep_view(),
            all.len() == items@.len(),
            spec_args_text(all, false) == out@ + spec_args_text(all.skip(i as int), i > 0),
        decreases items@.len() - i,
    {
        let ghost rem = all.skip(i as int);
        proof {
            assert(rem[0] == all[i as int]);
            assert(rem.drop_first() =~= all.skip(i + 1));
        }
        if i > 0 {
            out.append(", ");
        }
        out.append(type_text(items[i].1));
        out.append(" ");
        out.append(items[i].0.as_str());
        proof {
            assert(spec_args_text(all, false) =~= out@ + spec_args_text(all.skip(i + 1), true));
        }
        i = i + 1;
    }
    proof {
        assert(all.skip(all.len() as int) =~= Seq::<(Seq<char>, BackendType)>::empty());
        assert(spec_args_text(all, false) =~= out@);
    }
    out
}

/// The parameter-type text of a signature, comma-separated.
fn params_text(params: &Vec<BackendType>) -> (r: String)
    ensures
        r@ == spec_params_text(params.deep_view(), false),
{
    let ghost all = params.deep_view();
    let mut out = String::new();
    let mut i: usize = 0;
    proof {
        assert(all.skip(0) =~= all);
        assert(all =~= params@);
    }
    while i < params.len()
        invariant
            i <= params@.len(),
            all == params.deep_view(),
            all.len() == params@.len(),
            spec_params_text(all, false) == out@ + spec_params_text(all.skip(i as int), i > 0),
        decreases params@.len() - i,
    {
        let ghost rem = all.skip(i as int);
        proof {
            assert(rem[0] == all[i as int]);
            assert(rem.drop_first() =~= all.skip(i + 1));
        }
        if i > 0 {
            out.append(", ");
        }
        out.append(type_text(params[i]));
        proof {
            assert(spec_params_text(all, false) =~= out@ + spec_params_text(all.skip(i + 1), true));
        }
        i = i + 1;
    }
    proof {
        assert(all.skip(all.len() as int) =~= Seq::<BackendType>::empty());
        assert(spec_params_text(all, false) =~= out@);
    }
    out
}

/// The backend types of evaluated arguments, in order.
fn arg_types(items: &Vec<(String, BackendType)>) -> (r: Vec<BackendType>)
    ensures
        r.deep_view() == spec_arg_types(items.deep_view()),
{
    let mut out: Vec<BackendType> = Vec::new();
    let mut i: usize = 0;
    while i < items.len()
        invariant
            i <= items@.len(),
            out.deep_view() =~= spec_arg_types(items.deep_view()).take(i as int),
        decreases items@.len() - i,
    {
        proof {
            assert(out.deep_view().len() == out@.len());
        }
        out.push(items[i].1);
        proof {
            assert(out.deep_view() =~= spec_arg_types(items.deep_view()).take(i + 1));
        }
        i = i + 1;
    }
    proof {
        assert(spec_arg_types(items.deep_view()).take(items@.len() as int) =~= spec_arg_types(
            items.deep_view(),
        ));
    }
    out
}

/// Whether two backend type lists are equal.
fn types_equal(a: &Vec<BackendType>, b: &Vec<BackendType>) -> (r: bool)
    ensures
        r == (a.deep_view() == b.deep_view()),
{
    if a.len() != b.len() {
        proof {
            assert(a.deep_view().len() == a@.len());
            assert(b.deep_view().len() == b@.len());
        }
        return false;
    }
    let mut i: usize = 0;
    while i < a.len()
        invariant
            i <= a@.len(),
            a@.len() == b@.len(),
            forall|m: int| 0 <= m < i ==> a.deep_view()[m] == b.deep_view()[m],
        decreases a@.len() - i,
    {
        if a[i] != b[i] {
            proof {
                assert(a.deep_view()[i as int] != b.deep_view()[i as int]);
            }
            return false;
        }
        i = i + 1;
    }
    proof {
        assert(a.deep_view() =~= b.deep_view());
    }
    true
}

} // verus!

verus! {

impl CodeGenContext {
    /// Emits one call: resolves or declares the callee, checks the
    /// argument types against its signature, and stores a returned
    /// value into a fresh slot when a destination is given.
    fn gen_call(
        &mut self,
        dest: &Option<Register>,
        function_name: &String,
        arguments: &Vec<LLValue>,
        j: usize,
    ) -> (r: Result<(), String>)
        ensures
            match spec_gen_call(*dest, function_name@, arguments@, old(self).state(), j as nat) {
                Ok(st) => r is Ok && final(self).state() == st,
                Err(m) => r is Err && r->Err_0@ == m,
            },
    {
        let items = match self.eval_values(arguments, j) {
            Ok(items) => items,
            Err(m) => {
                return Err(m);
            },
        };
        let argtypes = arg_types(&items);
        let ret: BackendType;
        let params_match: bool;
        match self.find_function(function_name.as_str()) {
            Some(sig) => {
                ret = sig.ret;
                params_match = types_equal(&sig.params, &argtypes);
            },
            None => {
                let inferred_ret = if dest.is_some() {
                    BackendType::Ptr
                } else {
                    BackendType::Void
                };
                let mut line = String::from_str("\ndeclare ");
                line.append(type_text(inferred_ret));
                line.append(" @");
                line.append(function_name.as_str());
                line.append("(");
                line.append(params_text(&argtypes).as_str());
                line.append(")\n");
                self.append_declares(line.as_str());
                self.record_function(
                    function_name.clone(),
                    FnSig { params: argtypes, ret: inferred_ret },
                );
                ret = inferred_ret;
                params_match = true;
            },
        }
        if !params_match {
            return Err(self.error_message("call arguments do not fit the callee"));
        }
        let args = args_text(&items);
        match dest {
            Some(d) => {
                if ret == BackendType::Void {
                    return Err(self.error_message("call with a destination returns no value"));
                }
                let result_name = call_name(j);
                let mut lines = String::from_str("  ");
                lines.append(result_name.as_str());
                lines.append(" = call ");
                lines.append(type_text(ret));
                lines.append(" @");
                lines.append(function_name.as_str());
                lines.append("(");
                lines.append(args.as_str());
                lines.append(")\n");
                lines.append("  ");
                lines.append(reg_name(*d).as_str());
                lines.append(" = alloca ");
                lines.append(type_text(ret));
                lines.append("\n");
                lines.append("  store ");
                lines.append(type_text(ret));
                lines.append(" ");
                lines.append(result_name.as_str());
                lines.append(", ptr ");
                lines.append(reg_name(*d).as_str());
                lines.append("\n");
                self.append_text(lines.as_str());
                self.record_register(*d, tracked_type(ret));
                proof {
                    let target = spec_gen_call(
                        *dest,
                        function_name@,
                        arguments@,
                        old(self).state(),
                        j as nat,
                    );
                    assert(target is Ok);
                    assert(final(self).state().registers =~~= target->Ok_0.registers);
                    assert(final(self).state().functions =~~= target->Ok_0.functions);
                    assert(final(self).state().declares =~~= target->Ok_0.declares);
                    assert(final(self).state().text =~~= target->Ok_0.text);
                    assert(final(self).state() =~~= target->Ok_0);
                }
                Ok(())
            },
            None => {
                let mut line: String;
                if ret == BackendType::Void {
                    line = String::from_str("  call void @");
                    line.append(function_name.as_str());
                    line.append("(");
                    line.append(args.as_str());
                    line.append(")\n");
                } else {
                    line = String::from_str("  ");
                    line.append(call_name(j).as_str());
                    line.append(" = call ");
                    line.append(type_text(ret));
                    line.append(" @");
                    line.append(function_name.as_str());
                    line.append("(");
                    line.append(args.as_str());
                    line.append(")\n");
                }
                self.append_text(line.as_str());
                proof {
                    assert(final(self).state() =~~= spec_gen_call(
                        *dest,
                        function_name@,
                        arguments@,
                        old(self).state(),
                        j as nat,
                    )->Ok_0);
                }
                Ok(())
            },
        }
    }

    /// Emits one instruction.
    fn gen_instruction(&mut self, ins: &LLInstruction, j: usize) -> (r: Result<(), String>)
        ensures
            match spec_gen_instruction(ins.deep_view(), old(self).state(), j as nat) {
                Ok(st) => r is Ok && final(self).state() == st,
                Err(m) => r is Err && r->Err_0@ == m,
            },
    {
        match ins {
            LLInstruction::Alloc { dest, ty } => {
                let b = backend_type(ty);
                if b == BackendType::Void {
                    Err(self.error_message("stack allocation of the void type"))
                } else {
                    let mut line = String::from_str("  ");
                    line.append(reg_name(*dest).as_str());
                    line.append(" = alloca ");
                    line.append(type_text(b));
                    line.append("\n");
                    self.append_text(line.as_str());
                    self.record_register(*dest, ty.clone());
                    proof {
                        assert(final(self).state() =~~= spec_gen_instruction(
                            ins.deep_view(),
                            old(self).state(),
                            j as nat,
                        )->Ok_0);
                    }
                    Ok(())
                }
            },
            LLInstruction::Call { dest, function_name, arguments } => self.gen_call(
                dest,
                function_name,
                arguments,
                j,
            ),
            _ => Err(self.error_message("instruction not supported by the backend")),
        }
    }

    /// Emits the block terminator.
    fn gen_terminator(&mut self, t: &Terminator, j: usize) -> (r: Result<(), String>)
        ensures
            match spec_gen_terminator(*t, old(self).state(), j as nat) {
                Ok(st) => r is Ok && final(self).state() == st,
                Err(m) => r is Err && r->Err_0@ == m,
            },
    {
        match t {
            Terminator::Return(None) => {
                self.append_text("  ret void\n");
                proof {
                    assert(final(self).state() =~~= spec_gen_terminator(
                        *t,
                        old(self).state(),
                        j as nat,
                    )->Ok_0);
                }
                Ok(())
            },
            Terminator::Return(Some(v)) => {
                match self.eval_value(v, j, 0) {
                    Ok((text, b)) => {
                        let mut line = String::from_str("  ret ");
                        line.append(type_text(b));
                        line.append(" ");
                        line.append(text.as_str());
                        line.append("\n");
                        self.append_text(line.as_str());
                        proof {
                            assert(final(self).state() =~~= spec_gen_terminator(
                                *t,
                                old(self).state(),
                                j as nat,
                            )->Ok_0);
                        }
                        Ok(())
                    },
                    Err(m) => Err(m),
                }
            },
        }
    }

    /// Emits one function: its definition header, its first basic
    /// block, and the closing brace.
    #[verifier::loop_isolation(false)]
    #[verifier::rlimit(60)]
    fn gen_function(&mut self, f: &LLFunction) -> (r: Result<(), String>)
        ensures
            match spec_gen_function(f.deep_view(), old(self).state()) {
                Ok(st) => r is Ok && final(self).state() == st,
                Err(m) => r is Err && r->Err_0@ == m,
            },
    {
        let ghost params_model = f.parameters.deep_view();
        proof {
            assert(params_model =~= f.parameters@);
        }

        // Refuse a void parameter before anything is emitted.
        let mut i: usize = 0;
        while i < f.parameters.len()
            invariant
                i <= f.parameters@.len(),
                params_model == f.parameters.deep_view(),
                forall|m: int|
                    0 <= m < i ==> !(spec_backend_type(#[trigger] params_model[m].0) is Void),
            decreases f.parameters@.len() - i,
        {
            if backend_type(&f.parameters[i].0) == BackendType::Void {
                proof {
                    assert(params_model[i as int] == f.parameters@[i as int]);
                    assert(0 <= i < params_model.len() && spec_backend_type(
                        params_model[i as int].0,
                    ) is Void);
                    assert(spec_has_void_param(params_model));
                }
                return Err(self.error_message("function parameter of the void type"));
            }
            i = i + 1;
        }
        proof {
            assert(!spec_has_void_param(params_model));
        }

        // The declared parameter types, and the definition's parameter text.
        let mut param_types: Vec<BackendType> = Vec::new();
        let mut def_params = String::new();
        let mut i: usize = 0;
        proof {
            assert(params_model.skip(0) =~= params_model);
        }
        while i < f.parameters.len()
            invariant
                i <= f.parameters@.len(),
                params_model == f.parameters.deep_view(),
                params_model.len() == f.parameters@.len(),
                param_types.deep_view() =~= spec_param_types(params_model).take(i as int),
                spec_def_params_text(params_model, false) == def_params@ + spec_def_params_text(
                    params_model.skip(i as int),
                    i > 0,
                ),
            decreases f.parameters@.len() - i,
        {
            let ghost rem = params_model.skip(i as int);
            proof {
                assert(rem[0] == params_model[i as int]);
                assert(rem.drop_first() =~= params_model.skip(i + 1));
                assert(param_types.deep_view().len() == param_types@.len());
            }
            if i > 0 {
                def_params.append(", ");
            }
            let b = backend_type(&f.parameters[i].0);
            def_params.append(type_text(b));
            def_params.append(" ");
            def_params.append(reg_name(f.parameters[i].1).as_str());
            param_types.push(b);
            proof {
                assert(param_types.deep_view() =~= spec_param_types(params_model).take(i + 1));
                assert(spec_def_params_text(params_model, false) =~= def_params@
                    + spec_def_params_text(params_model.skip(i + 1), true));
            }
            i = i + 1;
        }
        proof {
            assert(spec_param_types(params_model).take(params_model.len() as int)
                =~= spec_param_types(params_model));
            assert(params_model.skip(params_model.len() as int) =~= Seq::<
                (LLType, Register),
            >::empty());
            assert(spec_def_params_text(params_model, false) =~= def_params@);
        }

        let ret = backend_type(&f.return_type);
        let mut header = String::from_str("\ndefine ");
        header.append(type_text(ret));
        header.append(" @");
        header.append(f.name.as_str());
        header.append("(");
        header.append(def_params.as_str());
        header.append(") {\nentry:\n");
        self.record_function(f.name.clone(), FnSig { params: param_types, ret });
        self.append_text(header.as_str());
        let ghost st1 = self.state();
        proof {
            assert(st1 =~~= CodeGenState {
                functions: old(self).state().functions.insert(
                    f.name@,
                    FnSigModel { params: spec_param_types(params_model), ret },
                ),
                text: old(self).state().text + ("\ndefine "@ + spec_type_text(ret) + " @"@
                    + f.name@ + "("@ + spec_def_params_text(params_model, false)
                    + ") {\nentry:\n"@),
                ..old(self).state()
            });
        }

        if f.basic_blocks.len() == 0 {
            proof {
                assert(f.deep_view().basic_blocks.len() == 0);
            }
            return Err(self.error_message("function body has no basic block"));
        }

        let block = &f.basic_blocks[0];
        let ghost block_model = f.deep_view().basic_blocks[0];
        proof {
            assert(block_model.instructions == block.instructions.deep_view());
            assert(block_model.terminator == block.terminator);
        }
        let ghost instrs = block.instructions.deep_view();
        let mut j: usize = 0;
        proof {
            assert(instrs.skip(0) =~= instrs);
        }
        while j < block.instructions.len()
            invariant
                j <= block.instructions@.len(),
                instrs == block.instructions.deep_view(),
                instrs.len() == block.instructions@.len(),
                spec_gen_instructions(instrs, st1, 0) == spec_gen_instructions(
                    instrs.skip(j as int),
                    self.state(),
                    j as nat,
                ),
            decreases block.instructions@.len() - j,
        {
            let ghost rem = instrs.skip(j as int);
            proof {
                assert(rem[0] == instrs[j as int]);
                assert(instrs[j as int] == block.instructions@[j as int].deep_view());
                assert(rem.drop_first() =~= instrs.skip(j + 1));
            }
            match self.gen_instruction(&block.instructions[j], j) {
                Ok(_) => {},
                Err(m) => {
                    return Err(m);
                },
            }
            j = j + 1;
        }
        proof {
            assert(instrs.skip(instrs.len() as int) =~= Seq::<LLInstructionModel>::empty());
        }

        match self.gen_terminator(&block.terminator, block.instructions.len()) {
            Ok(_) => {},
            Err(m) => {
                return Err(m);
            },
        }
        self.append_text("}\n");
        proof {
            assert(final(self).state() =~~= spec_gen_function(
                f.deep_view(),
                old(self).state(),
            )->Ok_0);
        }
        Ok(())
    }
}

/// Generates the textual backend IR of a whole program for the given
/// target triple: the module header, every function in order, then the
/// declarations synthesized for runtime-provided functions.  The run
/// fails, with a diagnostic carrying the text built so far, exactly
/// when the module is structurally broken.
pub fn generate_llvm_ir(ll_program: &LLProgram, target_triple: &str) -> (r: Result<String, String>)
    ensures
        match spec_generate(ll_program.deep_view(), target_triple@) {
            Ok(text) => r is Ok && r->Ok_0@ == text,
            Err(m) => r is Err && r->Err_0@ == m,
        },
{
    let ghost full = ll_program.deep_view();
    let mut context = CodeGenContext::new(target_triple);
    let mut i: usize = 0;
    proof {
        assert(full.skip(0) =~= full);
        assert(full.len() == ll_program.functions@.len());
    }
    while i < ll_program.functions.len()
        invariant
            i <= ll_program.functions@.len(),
            full == ll_program.deep_view(),
            full.len() == ll_program.functions@.len(),
            spec_gen_functions(full, spec_initial_state(target_triple@)) == spec_gen_functions(
                full.skip(i as int),
                context.state(),
            ),
        decreases ll_program.functions@.len() - i,
    {
        let ghost rem = full.skip(i as int);
        proof {
            assert(rem[0] == full[i as int]);
            assert(full[i as int] == ll_program.functions@[i as int].deep_view());
            assert(rem.drop_first() =~= full.skip(i + 1));
        }
        match context.gen_function(&ll_program.functions[i]) {
            Ok(_) => {},
            Err(m) => {
                return Err(m);
            },
        }
        i = i + 1;
    }
    proof {
        assert(full.skip(full.len() as int) =~= Seq::<LLFunctionModel>::empty());
    }
    let mut out = context.text;
    out.append(context.declares.as_str());
    Ok(out)
}

} // verus!
