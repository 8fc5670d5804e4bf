//! A thin text emitter turning the high-level IR into a scripting
//! source: one line per statement, calls written as `f(a, b)`, string
//! literals wrapped in single quotes.

use vstd::prelude::*;
use crate::ir::{
    HLExpression, HLExpressionModel, HLProgram, HLStatement, HLStatementModel, HLValue,
    HLValueModel,
};
use crate::numfmt::{i64_dec_seq, i64_to_dec_string};

verus! {

broadcast use crate::ir::lemma_hl_exprs_model;

/// The text of one literal value: an integer in decimal, a string in
/// single quotes.
pub open spec fn spec_py_value(v: HLValueModel) -> Seq<char> {
    match v {
        HLValueModel::Integer(i) => i64_dec_seq(i as int),
        HLValueModel::String(s) => "'"@ + s + "'"@,
    }
}

/// The text of one expression.
pub open spec fn spec_py_expression(e: HLExpressionModel) -> Seq<char>
    decreases e,
{
    match e {
        HLExpressionModel::Literal(v) => spec_py_value(v),
        HLExpressionModel::Variable(name) => name,
        HLExpressionModel::FunctionCall { function, arguments } => function + "("@
            + spec_py_arguments(arguments) + ")"@,
    }
}

/// The comma-separated text of an argument list.
pub open spec fn spec_py_arguments(args: Seq<HLExpressionModel>) -> Seq<char>
    decreases args,
{
    if args.len() == 0 {
        Seq::empty()
    } else if args.len() == 1 {
        spec_py_expression(args[0])
    } else {
        spec_py_expression(args[0]) + ", "@ + spec_py_arguments(args.drop_first())
    }
}

/// The text of one statement.
pub open spec fn spec_py_statement(m: HLStatementModel) -> Seq<char> {
    match m {
        HLStatementModel::Assign { variable, expression } => variable + " = "@
            + spec_py_expression(expression),
        HLStatementModel::Call { function, arguments } => function + "("@ + spec_py_arguments(
            arguments,
        ) + ")"@,
    }
}

/// The text of a statement sequence: one line per statement, with a
/// newline before every line but the first.
pub open spec fn spec_py_lines(stmts: Seq<HLStatementModel>, separator_before: bool) -> Seq<char>
    decreases stmts.len(),
{
    if stmts.len() == 0 {
        Seq::empty()
    } else {
        (if separator_before {
            "\n"@
        } else {
            Seq::empty()
        }) + spec_py_statement(stmts[0]) + spec_py_lines(stmts.drop_first(), true)
    }
}

/// The full text of a program.
pub open spec fn spec_py_program(stmts: Seq<HLStatementModel>) -> Seq<char> {
    spec_py_lines(stmts, false)
}

/// Generates scripting-language source text from the high-level IR.
pub struct PythonCodeGenerator;

impl Default for PythonCodeGenerator {
    /// The generator is stateless; the default is the only value.
    fn default() -> Self {
        Self::new()
    }
}

impl PythonCodeGenerator {
    /// Creates a new instance of the code generator.
    pub fn new() -> Self {
        Self
    }

    /// Emits the whole program, one line per statement.
    pub fn generate(&self, program: &HLProgram) -> (r: String)
        ensures
            r@ == spec_py_program(program.deep_view()),
    {
        let ghost full = program.deep_view();
        let mut output = String::new();
        let mut i: usize = 0;
        proof {
            assert(full.skip(0) =~= full);
        }
        while i < program.statements.len()
            invariant
                i <= program.statements@.len(),
                full == program.deep_view(),
                full.len() == program.statements@.len(),
                spec_py_program(full) == output@ + spec_py_lines(full.skip(i as int), i > 0),
            decreases program.statements@.len() - i,
        {
            let ghost rem = full.skip(i as int);
            proof {
                assert(rem[0] == full[i as int]);
                assert(full[i as int] == program.statements@[i as int].deep_view());
                assert(rem.drop_first() =~= full.skip(i + 1));
            }
            if i > 0 {
                output.append("\n");
            }
            let line = self.generate_statement(&program.statements[i]);
            output.append(line.as_str());
            proof {
                assert(spec_py_program(full) =~= output@ + spec_py_lines(
                    full.skip(i + 1),
                    i + 1 > 0,
                ));
            }
            i = i + 1;
        }
        proof {
            assert(full.skip(full.len() as int) =~= Seq::<HLStatementModel>::empty());
            assert(spec_py_program(full) =~= output@);
        }
        output
    }

    /// Emits a single statement.
    pub fn generate_statement(&self, statement: &HLStatement) -> (r: String)
        ensures
            r@ == spec_py_statement(statement.deep_view()),
    {
        match statement {
            HLStatement::Assign { variable, expression } => {
                let mut out = variable.clone();
                out.append(" = ");
                out.append(self.generate_expression(expression).as_str());
                proof {
                    assert(out@ =~= spec_py_statement(statement.deep_view()));
                }
                out
            },
            HLStatement::Call { function, arguments } => {
                let mut out = function.clone();
                out.append("(");
                out.append(self.generate_arguments(arguments).as_str());
                out.append(")");
                proof {
                    assert(out@ =~= spec_py_statement(statement.deep_view()));
                }
                out
            },
        }
    }

    /// Emits a single expression.
    pub fn generate_expression(&self, expression: &HLExpression) -> (r: String)
        ensures
            r@ == spec_py_expression(expression.deep_view()),
        decreases expression,
    {
        match expression {
            HLExpression::Literal(value) => self.generate_value(value),
            HLExpression::Variable(name) => name.clone(),
            HLExpression::FunctionCall { function, arguments } => {
                let mut out = function.clone();
                out.append("(");
                out.append(self.generate_arguments(arguments).as_str());
                out.append(")");
                proof {
                    assert(out@ =~= spec_py_expression(expression.deep_view()));
                }
                out
            },
        }
    }

    /// Emits an argument list, comma-separated.
    fn generate_arguments(&self, arguments: &Vec<HLExpression>) -> (r: String)
        ensures
            r@ == spec_py_arguments(crate::ir::hl_exprs_model(arguments@)),
        decreases arguments,
    {
        let ghost models = crate::ir::hl_exprs_model(arguments@);
        let mut out = String::new();
        let mut i: usize = 0;
        proof {
            assert(models.skip(0) =~= models);
            lemma_py_arguments_rest(models);
        }
        while i < arguments.len()
            invariant
                i <= arguments@.len(),
                models == crate::ir::hl_exprs_model(arguments@),
                models.len() == arguments@.len(),
                spec_py_arguments(models) == out@ + spec_py_rest_arguments(
                    models.skip(i as int),
                    i > 0,
                ),
            decreases arguments@.len() - i,
        {
            let ghost rem = models.skip(i as int);
            proof {
                assert(rem[0] == models[i as int]);
                assert(models[i as int] == crate::ir::hl_expr_model(arguments@[i as int]));
                assert(rem.drop_first() =~= models.skip(i + 1));
            }
            if i > 0 {
                out.append(", ");
            }
            let piece = self.generate_expression(&arguments[i]);
            out.append(piece.as_str());
            proof {
                assert(spec_py_arguments(models) =~= out@ + spec_py_rest_arguments(
                    models.skip(i + 1),
                    true,
                ));
            }
            i = i + 1;
        }
        proof {
            assert(models.skip(models.len() as int) =~= Seq::<HLExpressionModel>::empty());
            assert(spec_py_arguments(models) =~= out@);
        }
        out
    }

    /// Emits a single literal value.
    pub fn generate_value(&self, value: &HLValue) -> (r: String)
        ensures
            r@ == spec_py_value(value.deep_view()),
    {
        match value {
            HLValue::Integer(i) => i64_to_dec_string(*i),
            HLValue::String(s) => {
                let mut out = String::from_str("'");
                out.append(s.as_str());
                out.append("'");
                proof {
                    assert(out@ =~= spec_py_value(value.deep_view()));
                }
                out
            },
        }
    }
}

/// The comma-separated text of the arguments that remain, with a
/// separator before the first when something already stands before it.
pub open spec fn spec_py_rest_arguments(args: Seq<HLExpressionModel>, separator_before: bool) -> Seq<
    char,
>
    decreases args.len(),
{
    if args.len() == 0 {
        Seq::empty()
    } else {
        (if separator_before {
            ", "@
        } else {
            Seq::empty()
        }) + spec_py_expression(args[0]) + spec_py_rest_arguments(args.drop_first(), true)
    }
}

/// Splitting an argument list anywhere, the joined text decomposes the
/// same way.
pub proof fn lemma_py_arguments_rest(args: Seq<HLExpressionModel>)
    ensures
        spec_py_arguments(args) == spec_py_rest_arguments(args, false),
    decreases args.len(),
{
    if args.len() == 0 {
        assert(spec_py_arguments(args) =~= spec_py_rest_arguments(args, false));
    } else if args.len() == 1 {
        assert(spec_py_rest_arguments(args.drop_first(), true) =~= Seq::<char>::empty());
        assert(spec_py_arguments(args) =~= spec_py_rest_arguments(args, false));
    } else {
        lemma_py_arguments_rest(args.drop_first());
        lemma_py_rest_arguments_sep(args.drop_first());
        assert(spec_py_arguments(args) =~= spec_py_rest_arguments(args, false));
    }
}

/// A leading separator distributes over the joined rest.
pub proof fn lemma_py_rest_arguments_sep(args: Seq<HLExpressionModel>)
    requires
        args.len() > 0,
    ensures
        spec_py_rest_arguments(args, true) == ", "@ + spec_py_rest_arguments(args, false),
    decreases args.len(),
{
    assert(spec_py_rest_arguments(args, true) =~= ", "@ + spec_py_rest_arguments(args, false));
}

} // verus!
