//! Lowering from the validated intent sequence to the high-level IR:
//! every intent becomes at most one statement over numbered `var_N`
//! variables, and sorts and prints target the most recently created
//! array.

use vstd::prelude::*;
use crate::ir::{
    HLExpression, HLExpressionModel, HLProgram, HLStatement, HLStatementModel, HLValue,
    HLValueModel, Intent, IntentModel,
};
use crate::numfmt::{make_var_name, var_name_seq};

verus! {

broadcast use crate::ir::lemma_hl_exprs_model;

/// The runtime function that creates an array.
pub open spec fn create_call_name() -> Seq<char> {
    "create_random_array"@
}

/// The runtime function that sorts an array.
pub open spec fn sort_call_name() -> Seq<char> {
    "sort_array"@
}

/// The runtime function that prints an array.
pub open spec fn print_call_name() -> Seq<char> {
    "print_array"@
}

/// The runtime function that sleeps for a number of milliseconds.
pub open spec fn sleep_call_name() -> Seq<char> {
    "naldom_async_sleep"@
}

/// What one lowering run produces: the statements, and the context
/// state (name counter and current subject) after it.
#[verifier::ext_equal]
pub struct HLLoweringOutcome {
    pub statements: Seq<HLStatementModel>,
    pub counter: nat,
    pub last: Option<Seq<char>>,
}

/// The statements emitted for a single intent, given the name counter
/// and the current subject. A sort or print without a subject is
/// silently omitted: validation already rejected that case.
pub open spec fn step_statements(m: IntentModel, counter: nat, last: Option<Seq<char>>) -> Seq<
    HLStatementModel,
> {
    match m {
        IntentModel::CreateArray { size } => seq![
            HLStatementModel::Assign {
                variable: var_name_seq(counter),
                expression: HLExpressionModel::FunctionCall {
                    function: create_call_name(),
                    arguments: seq![
                        HLExpressionModel::Literal(HLValueModel::Integer(size as i64))
                    ],
                },
            },
        ],
        IntentModel::SortArray { order } => match last {
            Some(subject) => seq![
                HLStatementModel::Call {
                    function: sort_call_name(),
                    arguments: seq![
                        HLExpressionModel::Variable(subject),
                        HLExpressionModel::Literal(HLValueModel::String(order)),
                    ],
                },
            ],
            None => Seq::empty(),
        },
        IntentModel::PrintArray => match last {
            Some(subject) => seq![
                HLStatementModel::Call {
                    function: print_call_name(),
                    arguments: seq![HLExpressionModel::Variable(subject)],
                },
            ],
            None => Seq::empty(),
        },
        IntentModel::Wait { duration_ms } => seq![
            HLStatementModel::Call {
                function: sleep_call_name(),
                arguments: seq![
                    HLExpressionModel::Literal(HLValueModel::Integer(duration_ms as i64))
                ],
            },
        ],
    }
}

/// The context state after a single intent: creating an array takes the
/// next numbered name and makes it the subject.
pub open spec fn step_state(m: IntentModel, counter: nat, last: Option<Seq<char>>) -> (
    nat,
    Option<Seq<char>>,
) {
    match m {
        IntentModel::CreateArray { .. } => (counter + 1, Some(var_name_seq(counter))),
        _ => (counter, last),
    }
}

/// Lowers a whole intent sequence from the given context state.
pub open spec fn spec_lower(
    intents: Seq<IntentModel>,
    counter: nat,
    last: Option<Seq<char>>,
) -> HLLoweringOutcome
    decreases intents.len(),
{
    if intents.len() == 0 {
        HLLoweringOutcome { statements: Seq::empty(), counter, last }
    } else {
        let head = step_statements(intents[0], counter, last);
        let (counter_after, last_after) = step_state(intents[0], counter, last);
        let rest = spec_lower(intents.drop_first(), counter_after, last_after);
        HLLoweringOutcome {
            statements: head + rest.statements,
            counter: rest.counter,
            last: rest.last,
        }
    }
}

/// A stateful context that lowers the intent sequence to the
/// high-level IR, chaining operations through the latest variable.
pub struct LoweringContext {
    variable_counter: u64,
    last_created_variable: Option<String>,
}

impl LoweringContext {
    /// The number of variable names handed out so far.
    pub closed spec fn names_used(&self) -> u64 {
        self.variable_counter
    }

    /// The name of the most recently created variable, if any.
    pub closed spec fn last_created(&self) -> Option<Seq<char>> {
        self.last_created_variable.deep_view()
    }
}

impl Default for LoweringContext {
    /// The default context has handed out no name and has no subject.
    fn default() -> (r: Self)
        ensures
            r.names_used() == 0,
            r.last_created() is None,
    {
        Self::new()
    }
}

impl LoweringContext {
    /// Creates a new, empty lowering context.
    pub fn new() -> (r: Self)
        ensures
            r.names_used() == 0,
            r.last_created() is None,
    {
        LoweringContext { variable_counter: 0, last_created_variable: None }
    }

    /// Generates a new, unique variable name (`var_0`, `var_1`, ...).
    fn new_variable_name(&mut self) -> (r: String)
        requires
            old(self).variable_counter < u64::MAX,
        ensures
            r@ == var_name_seq(old(self).variable_counter as nat),
            final(self).variable_counter == old(self).variable_counter + 1,
            final(self).last_created_variable == old(self).last_created_variable,
    {
        let name = make_var_name(self.variable_counter);
        self.variable_counter = self.variable_counter + 1;
        name
    }

    /// Transforms a sequence of intents into a high-level program.
    ///
    /// The result is exactly the statement sequence of `spec_lower`,
    /// started from this context's state; the context ends in the state
    /// `spec_lower` describes.
    pub fn lower(&mut self, intent_graph: &[Intent]) -> (r: HLProgram)
        requires
            old(self).names_used() + intent_graph@.len() <= u64::MAX,
        ensures
            ({
                let outcome = spec_lower(
                    intent_graph.deep_view(),
                    old(self).names_used() as nat,
                    old(self).last_created(),
                );
                r.deep_view() == outcome.statements && final(self).names_used() == outcome.counter
                    && final(self).last_created() == outcome.last
            }),
    {
        let ghost full = intent_graph.deep_view();
        let ghost c0 = self.names_used() as nat;
        let ghost l0 = self.last_created();
        let mut statements: Vec<HLStatement> = Vec::new();
        let mut i: usize = 0;
        proof {
            assert(full.skip(0) =~= full);
        }
        while i < intent_graph.len()
            invariant
                i <= intent_graph@.len(),
                full == intent_graph.deep_view(),
                self.names_used() + (intent_graph@.len() - i) <= u64::MAX,
                ({
                    let total = spec_lower(full, c0, l0);
                    let rest = spec_lower(
                        full.skip(i as int),
                        self.names_used() as nat,
                        self.last_created(),
                    );
                    total.statements == statements.deep_view() + rest.statements && total.counter
                        == rest.counter && total.last == rest.last
                }),
            decreases intent_graph@.len() - i,
        {
            let ghost rem = full.skip(i as int);
            let ghost state_now = (self.names_used() as nat, self.last_created());
            proof {
                assert(rem[0] == full[i as int]);
                assert(rem.drop_first() =~= full.skip(i + 1));
                assert(statements.deep_view().len() == statements@.len());
            }
            let ghost stmts_before = statements.deep_view();
            match &intent_graph[i] {
                Intent::CreateArray(params) => {
                    let new_var = self.new_variable_name();
                    let mut arguments: Vec<HLExpression> = Vec::new();
                    arguments.push(HLExpression::Literal(HLValue::Integer(params.size as i64)));
                    let ghost args_view = arguments@;
                    let expression = HLExpression::FunctionCall {
                        function: String::from_str("create_random_array"),
                        arguments,
                    };
                    let statement = HLStatement::Assign { variable: new_var.clone(), expression };
                    proof {
                        crate::ir::lemma_hl_exprs_model(args_view);
                        let em = statement.deep_view()->Assign_expression;
                        assert(em is FunctionCall);
                        assert(em->FunctionCall_function == create_call_name());
                        assert(em->FunctionCall_arguments.len() == 1);
                        assert(em->FunctionCall_arguments[0] == HLExpressionModel::Literal(
                            HLValueModel::Integer(params.size as i64),
                        ));
                        assert(seq![statement.deep_view()] =~~= step_statements(
                            rem[0],
                            state_now.0,
                            state_now.1,
                        ));
                    }
                    statements.push(statement);
                    self.last_created_variable = Some(new_var);
                },
                Intent::SortArray(params) => {
                    match &self.last_created_variable {
                        Some(var_to_sort) => {
                            let mut arguments: Vec<HLExpression> = Vec::new();
                            arguments.push(HLExpression::Variable(var_to_sort.clone()));
                            arguments.push(
                                HLExpression::Literal(HLValue::String(params.order.clone())),
                            );
                            let statement = HLStatement::Call {
                                function: String::from_str("sort_array"),
                                arguments,
                            };
                            proof {
                                assert(seq![statement.deep_view()] =~~= step_statements(
                                    rem[0],
                                    state_now.0,
                                    state_now.1,
                                ));
                            }
                            statements.push(statement);
                        },
                        None => {
                            proof {
                                assert(step_statements(rem[0], state_now.0, state_now.1)
                                    =~= Seq::<HLStatementModel>::empty());
                            }
                        },
                    }
                },
                Intent::PrintArray => {
                    match &self.last_created_variable {
                        Some(var_to_print) => {
                            let mut arguments: Vec<HLExpression> = Vec::new();
                            arguments.push(HLExpression::Variable(var_to_print.clone()));
                            let statement = HLStatement::Call {
                                function: String::from_str("print_array"),
                                arguments,
                            };
                            proof {
                                assert(seq![statement.deep_view()] =~~= step_statements(
                                    rem[0],
                                    state_now.0,
                                    state_now.1,
                                ));
                            }
                            statements.push(statement);
                        },
                        None => {
                            proof {
                                assert(step_statements(rem[0], state_now.0, state_now.1)
                                    =~= Seq::<HLStatementModel>::empty());
                            }
                        },
                    }
                },
                Intent::Wait(params) => {
                    let mut arguments: Vec<HLExpression> = Vec::new();
                    let duration: i64 = #[verifier::truncate] (params.duration_ms as i64);
                    arguments.push(HLExpression::Literal(HLValue::Integer(duration)));
                    let statement = HLStatement::Call {
                        function: String::from_str("naldom_async_sleep"),
                        arguments,
                    };
                    proof {
                        assert(seq![statement.deep_view()] =~~= step_statements(
                            rem[0],
                            state_now.0,
                            state_now.1,
                        ));
                    }
                    statements.push(statement);
                },
            }
            proof {
                assert(statements.deep_view() =~= stmts_before + step_statements(
                    rem[0],
                    state_now.0,
                    state_now.1,
                ));
                assert((self.names_used() as nat, self.last_created()) == step_state(
                    rem[0],
                    state_now.0,
                    state_now.1,
                ));
                assert(spec_lower(full, c0, l0).statements =~= statements.deep_view()
                    + spec_lower(
                    full.skip(i + 1),
                    self.names_used() as nat,
                    self.last_created(),
                ).statements);
            }
            i = i + 1;
        }
        proof {
            assert(full.skip(full.len() as int) =~= Seq::<IntentModel>::empty());
            assert(spec_lower(full, c0, l0).statements =~= statements.deep_view());
        }
        HLProgram { statements }
    }
}

} // verus!

verus! {

/// Lowering a sequence is lowering a prefix and then lowering the rest
/// from the state the prefix left behind.
pub proof fn lemma_lower_decompose(
    intents: Seq<IntentModel>,
    i: int,
    counter: nat,
    last: Option<Seq<char>>,
)
    requires
        0 <= i <= intents.len(),
    ensures
        ({
            let prefix = spec_lower(intents.take(i), counter, last);
            let rest = spec_lower(intents.skip(i), prefix.counter, prefix.last);
            let whole = spec_lower(intents, counter, last);
            whole.statements == prefix.statements + rest.statements && whole.counter
                == rest.counter && whole.last == rest.last
        }),
    decreases i,
{
    if i == 0 {
        assert(intents.take(0) =~= Seq::<IntentModel>::empty());
        assert(intents.skip(0) =~= intents);
        assert(spec_lower(intents, counter, last).statements =~= Seq::<
            HLStatementModel,
        >::empty() + spec_lower(intents, counter, last).statements);
    } else {
        let head = step_statements(intents[0], counter, last);
        let (counter_after, last_after) = step_state(intents[0], counter, last);
        let tail = intents.drop_first();
        lemma_lower_decompose(tail, i - 1, counter_after, last_after);
        assert(tail.take(i - 1) =~= intents.take(i).drop_first());
        assert(tail.skip(i - 1) =~= intents.skip(i));
        assert(intents.take(i)[0] == intents[0]);
        let prefix = spec_lower(intents.take(i), counter, last);
        let rest = spec_lower(intents.skip(i), prefix.counter, prefix.last);
        assert(prefix.statements == head + spec_lower(tail.take(i - 1), counter_after, last_after).statements);
        assert(spec_lower(intents, counter, last).statements =~= prefix.statements
            + rest.statements);
    }
}

/// If a stretch of intents creates no array, lowering it leaves the
/// name counter and the subject untouched.
pub proof fn lemma_lower_keeps_state(
    intents: Seq<IntentModel>,
    counter: nat,
    last: Option<Seq<char>>,
)
    requires
        forall|k: int| 0 <= k < intents.len() ==> !(intents[k] is CreateArray),
    ensures
        spec_lower(intents, counter, last).counter == counter,
        spec_lower(intents, counter, last).last == last,
    decreases intents.len(),
{
    if intents.len() > 0 {
        assert(!(intents[0] is CreateArray));
        assert(forall|k: int|
            0 <= k < intents.drop_first().len() ==> intents.drop_first()[k] == intents[k + 1]);
        lemma_lower_keeps_state(intents.drop_first(), counter, last);
    }
}

/// Lowering a `CreateArray` intent emits exactly one statement: an
/// assignment of `create_random_array(size)` to the next numbered
/// variable.  That variable then becomes the subject of the next
/// `SortArray` or `PrintArray`, as long as no other `CreateArray`
/// stands between them.
pub proof fn lemma_create_array_lowering(
    intents: Seq<IntentModel>,
    i: int,
    counter: nat,
    last: Option<Seq<char>>,
)
    requires
        0 <= i < intents.len(),
        intents[i] is CreateArray,
    ensures
        ({
            let prefix = spec_lower(intents.take(i), counter, last);
            let whole = spec_lower(intents, counter, last);
            let assigned = var_name_seq(prefix.counter);
            &&& whole.statements.len() > prefix.statements.len()
            &&& whole.statements[prefix.statements.len() as int] == HLStatementModel::Assign {
                variable: assigned,
                expression: HLExpressionModel::FunctionCall {
                    function: create_call_name(),
                    arguments: seq![
                        HLExpressionModel::Literal(
                            HLValueModel::Integer(intents[i]->CreateArray_size as i64),
                        )
                    ],
                },
            }
            &&& forall|j: int|
                i < j < intents.len() && (intents[j] is SortArray || intents[j] is PrintArray)
                    && (forall|k: int| i < k < j ==> !(intents[k] is CreateArray))
                    ==> spec_lower(intents.take(j), counter, last).last == Some(assigned)
        }),
{
    let prefix = spec_lower(intents.take(i), counter, last);
    let assigned = var_name_seq(prefix.counter);
    lemma_lower_decompose(intents, i, counter, last);
    let rest = spec_lower(intents.skip(i), prefix.counter, prefix.last);
    assert(intents.skip(i)[0] == intents[i]);
    assert(step_statements(intents[i], prefix.counter, prefix.last).len() == 1);
    assert(rest.statements[0] == HLStatementModel::Assign {
        variable: assigned,
        expression: HLExpressionModel::FunctionCall {
            function: create_call_name(),
            arguments: seq![
                HLExpressionModel::Literal(
                    HLValueModel::Integer(intents[i]->CreateArray_size as i64),
                )
            ],
        },
    });
    assert(spec_lower(intents, counter, last).statements == prefix.statements
        + rest.statements);
    assert forall|j: int|
        i < j < intents.len() && (intents[j] is SortArray || intents[j] is PrintArray)
            && (forall|k: int| i < k < j ==> !(intents[k] is CreateArray))
            implies spec_lower(intents.take(j), counter, last).last == Some(assigned) by {
        reveal_with_fuel(spec_lower, 3);
        lemma_lower_decompose(intents, i + 1, counter, last);
        let after_create = spec_lower(intents.take(i + 1), counter, last);
        assert(intents.take(i + 1).take(i) =~= intents.take(i));
        lemma_lower_decompose(intents.take(i + 1), i, counter, last);
        assert(intents.take(i + 1).skip(i) =~= seq![intents[i]]);
        assert(seq![intents[i]].drop_first() =~= Seq::<IntentModel>::empty());
        assert(after_create.last == Some(assigned));
        assert(after_create.counter == prefix.counter + 1);
        lemma_lower_decompose(intents.take(j), i + 1, counter, last);
        assert(intents.take(j).take(i + 1) =~= intents.take(i + 1));
        let middle = intents.take(j).skip(i + 1);
        assert(forall|k: int| 0 <= k < middle.len() ==> middle[k] == intents[k + i + 1]);
        lemma_lower_keeps_state(middle, after_create.counter, after_create.last);
    }
}

} // verus!
