//! The semantic validator: a single forward pass over the intent
//! sequence that enforces ordering preconditions (nothing may be sorted
//! or printed before an array has been created) and fails fast with a
//! descriptive message at the first violation.

use vstd::prelude::*;
use crate::ir::{CreateArrayParams, Intent, IntentModel, SortArrayParams, WaitParams};
use crate::numfmt::make_var_name;

verus! {

/// The kinds known to the type system.
#[derive(Debug, Clone, PartialEq, Eq, Structural)]
pub enum SymbolType {
    Array,
}

/// A declared symbol (a variable) in the program.
#[derive(Debug, Clone)]
pub struct Symbol {
    pub name: String,
    pub symbol_type: SymbolType,
}

/// Mathematical model of a [`Symbol`].
#[verifier::ext_equal]
pub struct SymbolModel {
    pub name: Seq<char>,
    pub symbol_type: SymbolType,
}

impl DeepView for Symbol {
    type V = SymbolModel;

    open spec fn deep_view(&self) -> SymbolModel {
        SymbolModel { name: self.name@, symbol_type: self.symbol_type }
    }
}

/// The map described by a sequence of symbols, later entries winning.
pub open spec fn symbols_as_map(s: Seq<SymbolModel>) -> Map<Seq<char>, SymbolModel>
    decreases s.len(),
{
    if s.len() == 0 {
        Map::empty()
    } else {
        symbols_as_map(s.drop_last()).insert(s.last().name, s.last())
    }
}

/// The symbol table of one analysis pass: a name-to-symbol map in which
/// a later entry for a name replaces an earlier one.
pub struct SymbolTable {
    symbols: Vec<Symbol>,
}

impl View for SymbolTable {
    type V = Map<Seq<char>, SymbolModel>;

    closed spec fn view(&self) -> Map<Seq<char>, SymbolModel> {
        symbols_as_map(self.symbols.deep_view())
    }
}

impl Default for SymbolTable {
    /// The default table is empty.
    fn default() -> (r: Self)
        ensures
            r@ == Map::<Seq<char>, SymbolModel>::empty(),
    {
        SymbolTable { symbols: Vec::new() }
    }
}

impl SymbolTable {
    /// Creates an empty symbol table.
    pub fn new() -> (r: Self)
        ensures
            r@ == Map::<Seq<char>, SymbolModel>::empty(),
    {
        Self::default()
    }

    /// Adds a symbol to the table, replacing any symbol of the same name.
    pub fn insert(&mut self, symbol: Symbol)
        ensures
            final(self)@ == old(self)@.insert(symbol.deep_view().name, symbol.deep_view()),
    {
        let ghost before = self.symbols.deep_view();
        let ghost entry = symbol.deep_view();
        self.symbols.push(symbol);
        proof {
            assert(self.symbols.deep_view().drop_last() =~= before);
            assert(self.symbols.deep_view().last() == entry);
        }
    }

    /// Retrieves the symbol of the given name, if any.
    pub fn get(&self, name: &str) -> (r: Option<&Symbol>)
        ensures
            match r {
                Some(symbol) => self@.contains_key(name@) && symbol.deep_view() == self@[name@],
                None => !self@.contains_key(name@),
            },
    {
        let key = String::from_str(name);
        let ghost all = self.symbols.deep_view();
        let mut i: usize = self.symbols.len();
        proof {
            assert(all.take(i as int) =~= all);
        }
        while i > 0
            invariant
                i <= self.symbols.len(),
                key@ == name@,
                all == self.symbols.deep_view(),
                symbols_as_map(all).contains_key(name@) == symbols_as_map(
                    all.take(i as int),
                ).contains_key(name@),
                symbols_as_map(all).contains_key(name@) ==> symbols_as_map(all)[name@]
                    == symbols_as_map(all.take(i as int))[name@],
            decreases i,
        {
            i = i - 1;
            proof {
                assert(all.take(i + 1).drop_last() =~= all.take(i as int));
                assert(all.take(i + 1).last() == all[i as int]);
            }
            if self.symbols[i].name == key {
                return Some(&self.symbols[i]);
            }
        }
        proof {
            assert(all.take(0) =~= Seq::<SymbolModel>::empty());
        }
        None
    }
}

} // verus!

verus! {

/// The message produced when a sort precedes any array creation.
pub open spec fn sort_error_text() -> Seq<char> {
    "Semantic Error: Attempted to sort, but no array has been created yet."@
}

/// The message produced when a print precedes any array creation.
pub open spec fn print_error_text() -> Seq<char> {
    "Semantic Error: Attempted to print, but nothing has been created yet."@
}

/// The error, if any, that validating one intent raises when `has_subject`
/// says whether an array has been created so far.
pub open spec fn step_error(m: IntentModel, has_subject: bool) -> Option<Seq<char>> {
    match m {
        IntentModel::SortArray { .. } => if has_subject {
            None
        } else {
            Some(sort_error_text())
        },
        IntentModel::PrintArray => if has_subject {
            None
        } else {
            Some(print_error_text())
        },
        _ => None,
    }
}

/// The outcome of validating a whole intent sequence, started with
/// `has_subject` saying whether an array already exists: `None` for
/// success, or the message of the first violation.
pub open spec fn spec_analyze(intents: Seq<IntentModel>, has_subject: bool) -> Option<Seq<char>>
    decreases intents.len(),
{
    if intents.len() == 0 {
        None
    } else {
        match step_error(intents[0], has_subject) {
            Some(m) => Some(m),
            None => spec_analyze(
                intents.drop_first(),
                has_subject || intents[0] is CreateArray,
            ),
        }
    }
}

/// The semantic analyzer walks the intent sequence and validates it.
pub struct SemanticAnalyzer {
    symbol_table: SymbolTable,
    variable_counter: u64,
    last_created_variable: Option<String>,
}

impl SemanticAnalyzer {
    /// Whether an array has been created so far in this pass.
    pub closed spec fn has_subject(&self) -> bool {
        self.last_created_variable is Some
    }

    /// The number of internal names handed out so far.
    pub closed spec fn names_used(&self) -> u64 {
        self.variable_counter
    }

    /// The analyzer's subject, when present, is a registered array symbol.
    pub closed spec fn wf(&self) -> bool {
        match self.last_created_variable {
            Some(name) => self.symbol_table@.contains_key(name@)
                && self.symbol_table@[name@].symbol_type == SymbolType::Array,
            None => true,
        }
    }
}

impl Default for SemanticAnalyzer {
    /// The default analyzer has seen nothing yet.
    fn default() -> (r: Self)
        ensures
            r.wf(),
            !r.has_subject(),
            r.names_used() == 0,
    {
        SemanticAnalyzer {
            symbol_table: SymbolTable::new(),
            variable_counter: 0,
            last_created_variable: None,
        }
    }
}

impl SemanticAnalyzer {
    /// Creates a fresh analyzer.
    pub fn new() -> (r: Self)
        ensures
            r.wf(),
            !r.has_subject(),
            r.names_used() == 0,
    {
        Self::default()
    }

    /// Generates a new, unique variable name for internal tracking.
    fn new_variable_name(&mut self) -> (r: String)
        requires
            old(self).variable_counter < u64::MAX,
        ensures
            r@ == crate::numfmt::var_name_seq(old(self).variable_counter as nat),
            final(self).variable_counter == old(self).variable_counter + 1,
            final(self).symbol_table == old(self).symbol_table,
            final(self).last_created_variable == old(self).last_created_variable,
    {
        let name = make_var_name(self.variable_counter);
        self.variable_counter = self.variable_counter + 1;
        name
    }

    /// Registers a fresh array symbol and makes it the subject.
    fn analyze_create_array(&mut self, _params: &CreateArrayParams) -> (r: Result<(), String>)
        requires
            old(self).variable_counter < u64::MAX,
        ensures
            r is Ok,
            final(self).wf(),
            final(self).has_subject(),
            final(self).names_used() == old(self).names_used() + 1,
    {
        let new_var_name = self.new_variable_name();
        let symbol = Symbol { name: new_var_name.clone(), symbol_type: SymbolType::Array };
        self.symbol_table.insert(symbol);
        self.last_created_variable = Some(new_var_name);
        Ok(())
    }

    /// Checks that a sort has a subject and that the subject is an array.
    fn analyze_sort_array(&mut self, _params: &SortArrayParams) -> (r: Result<(), String>)
        requires
            old(self).wf(),
        ensures
            *final(self) == *old(self),
            r is Ok <==> old(self).has_subject(),
            r is Err ==> r->Err_0@ == sort_error_text(),
    {
        match &self.last_created_variable {
            None => Err(
                String::from_str(
                    "Semantic Error: Attempted to sort, but no array has been created yet.",
                ),
            ),
            Some(var_name) => {
                match self.symbol_table.get(var_name.as_str()) {
                    Some(symbol) => {
                        if symbol.symbol_type == SymbolType::Array {
                            Ok(())
                        } else {
                            Err(
                                String::from_str(
                                    "Semantic Error: Attempted to sort a value that is not an Array.",
                                ),
                            )
                        }
                    },
                    None => Err(
                        String::from_str(
                            "Semantic Error: Attempted to sort an undeclared value.",
                        ),
                    ),
                }
            },
        }
    }

    /// Checks that a print has a subject and that the subject is an array.
    fn analyze_print_array(&mut self) -> (r: Result<(), String>)
        requires
            old(self).wf(),
        ensures
            *final(self) == *old(self),
            r is Ok <==> old(self).has_subject(),
            r is Err ==> r->Err_0@ == print_error_text(),
    {
        match &self.last_created_variable {
            None => Err(
                String::from_str(
                    "Semantic Error: Attempted to print, but nothing has been created yet.",
                ),
            ),
            Some(var_name) => {
                match self.symbol_table.get(var_name.as_str()) {
                    Some(symbol) => {
                        if symbol.symbol_type == SymbolType::Array {
                            Ok(())
                        } else {
                            Err(
                                String::from_str(
                                    "Semantic Error: Attempted to print a value that is not an Array.",
                                ),
                            )
                        }
                    },
                    None => Err(
                        String::from_str(
                            "Semantic Error: Attempted to print an undeclared value.",
                        ),
                    ),
                }
            },
        }
    }

    /// A wait has no precondition.
    fn analyze_wait(&mut self, _params: &WaitParams) -> (r: Result<(), String>)
        ensures
            *final(self) == *old(self),
            r is Ok,
    {
        Ok(())
    }

    /// Validates a single intent against the state gathered so far.
    fn analyze_intent(&mut self, intent: &Intent) -> (r: Result<(), String>)
        requires
            old(self).wf(),
            old(self).variable_counter < u64::MAX,
        ensures
            final(self).wf(),
            r is Ok <==> step_error(intent.deep_view(), old(self).has_subject()) is None,
            r is Err ==> Some(r->Err_0@) == step_error(intent.deep_view(), old(self).has_subject()),
            final(self).has_subject() == (old(self).has_subject()
                || intent.deep_view() is CreateArray),
            old(self).names_used() <= final(self).names_used() <= old(self).names_used() + 1,
    {
        match intent {
            Intent::CreateArray(params) => self.analyze_create_array(params),
            Intent::SortArray(params) => self.analyze_sort_array(params),
            Intent::PrintArray => self.analyze_print_array(),
            Intent::Wait(params) => self.analyze_wait(params),
        }
    }

    /// Validates the whole intent sequence, fail-fast.
    ///
    /// Succeeds exactly when no sort or print precedes the first array
    /// creation (unless a subject already exists from an earlier pass);
    /// on success the intent sequence is returned unchanged, and on
    /// failure the error is the message of the first violation.
    pub fn analyze(&mut self, intent_graph: &[Intent]) -> (r: Result<Vec<Intent>, String>)
        requires
            old(self).wf(),
            old(self).names_used() + intent_graph@.len() <= u64::MAX,
        ensures
            final(self).wf(),
            r is Ok <==> spec_analyze(intent_graph.deep_view(), old(self).has_subject()) is None,
            r is Ok ==> r->Ok_0.deep_view() == intent_graph.deep_view(),
            r is Err ==> Some(r->Err_0@) == spec_analyze(
                intent_graph.deep_view(),
                old(self).has_subject(),
            ),
            r is Ok ==> (final(self).has_subject() <==> (old(self).has_subject() || exists|j: int|
                0 <= j < intent_graph@.len() && intent_graph.deep_view()[j] is CreateArray)),
    {
        let ghost full = intent_graph.deep_view();
        let mut validated_graph: Vec<Intent> = Vec::new();
        let mut i: usize = 0;
        while i < intent_graph.len()
            invariant
                i <= intent_graph@.len(),
                full == intent_graph.deep_view(),
                validated_graph.deep_view() =~= full.take(i as int),
            decreases intent_graph@.len() - i,
        {
            let item = &intent_graph[i];
            proof {
                assert(item.deep_view() == full[i as int]);
            }
            proof {
                assert(validated_graph.deep_view().len() == i as int);
                assert(validated_graph@.len() == i as int);
            }
            validated_graph.push(item.clone());
            proof {
                assert(validated_graph.deep_view() =~= full.take(i + 1));
            }
            i = i + 1;
        }
        proof {
            assert(full.take(full.len() as int) =~= full);
        }

        let mut i: usize = 0;
        while i < intent_graph.len()
            invariant
                i <= intent_graph@.len(),
                full == intent_graph.deep_view(),
                self.wf(),
                old(self).names_used() <= self.names_used(),
                self.names_used() + (intent_graph@.len() - i) <= u64::MAX,
                spec_analyze(full, old(self).has_subject()) == spec_analyze(
                    full.skip(i as int),
                    self.has_subject(),
                ),
                self.has_subject() <==> (old(self).has_subject() || exists|j: int|
                    0 <= j < i && full[j] is CreateArray),
            decreases intent_graph@.len() - i,
        {
            let ghost rem = full.skip(i as int);
            proof {
                assert(rem[0] == full[i as int]);
                assert(rem.drop_first() =~= full.skip(i + 1));
            }
            match self.analyze_intent(&intent_graph[i]) {
                Ok(_) => {},
                Err(e) => {
                    return Err(e);
                },
            }
            proof {
                if exists|j: int| 0 <= j < i && #[trigger] full[j] is CreateArray {
                    let j = choose|j: int| 0 <= j < i && #[trigger] full[j] is CreateArray;
                    assert(0 <= j < i + 1 && full[j] is CreateArray);
                }
                if full[i as int] is CreateArray {
                    assert(0 <= i < i + 1 && full[i as int] is CreateArray);
                }
            }
            i = i + 1;
        }
        proof {
            assert(full.skip(full.len() as int) =~= Seq::<IntentModel>::empty());
        }
        Ok(validated_graph)
    }
}

/// A sort or print that no array creation precedes is rejected: the
/// analysis of such a sequence fails, with the message of the first
/// violation naming the operation that lacked its subject.
pub proof fn lemma_sort_or_print_before_create_rejected(intents: Seq<IntentModel>, i: int)
    requires
        0 <= i < intents.len(),
        intents[i] is SortArray || intents[i] is PrintArray,
        forall|j: int| 0 <= j < i ==> !(intents[j] is CreateArray),
    ensures
        spec_analyze(intents, false) is Some,
        spec_analyze(intents, false)->Some_0 == sort_error_text() || spec_analyze(
            intents,
            false,
        )->Some_0 == print_error_text(),
        (forall|j: int|
            0 <= j < i ==> !(intents[j] is SortArray) && !(intents[j] is PrintArray))
            ==> spec_analyze(intents, false)->Some_0 == (if intents[i] is SortArray {
            sort_error_text()
        } else {
            print_error_text()
        }),
    decreases i,
{
    if i == 0 {
    } else {
        assert(forall|j: int| 0 <= j < i - 1 ==> intents.drop_first()[j] == intents[j + 1]);
        if intents[0] is SortArray || intents[0] is PrintArray {
        } else {
            lemma_sort_or_print_before_create_rejected(intents.drop_first(), i - 1);
        }
    }
}

/// Validation succeeds exactly when every sort and print is preceded by
/// some array creation (or a subject already existed when it started).
pub proof fn lemma_analyze_success_condition(intents: Seq<IntentModel>, has_subject: bool)
    ensures
        spec_analyze(intents, has_subject) is None <==> forall|i: int|
            0 <= i < intents.len() && (intents[i] is SortArray || intents[i] is PrintArray)
                ==> has_subject || exists|j: int| 0 <= j < i && intents[j] is CreateArray,
    decreases intents.len(),
{
    if intents.len() == 0 {
    } else {
        let rest = intents.drop_first();
        let has_next = has_subject || intents[0] is CreateArray;
        lemma_analyze_success_condition(rest, has_next);
        assert(forall|j: int| 0 <= j < rest.len() ==> rest[j] == intents[j + 1]);
        if spec_analyze(intents, has_subject) is None {
            assert forall|i: int|
                0 <= i < intents.len() && (intents[i] is SortArray || intents[i] is PrintArray)
                    implies has_subject || exists|j: int|
                    0 <= j < i && intents[j] is CreateArray by {
                if i > 0 && !has_subject {
                    assert(rest[i - 1] == intents[i]);
                    if has_next {
                        assert(intents[0] is CreateArray);
                        assert(0 <= 0 < i && intents[0] is CreateArray);
                    } else {
                        let j = choose|j: int| 0 <= j < i - 1 && rest[j] is CreateArray;
                        assert(intents[j + 1] is CreateArray);
                    }
                }
            }
        }
        if forall|i: int|
            0 <= i < intents.len() && (intents[i] is SortArray || intents[i] is PrintArray)
                ==> has_subject || exists|j: int| 0 <= j < i && intents[j] is CreateArray {
            assert(step_error(intents[0], has_subject) is None);
            assert forall|i: int|
                0 <= i < rest.len() && (rest[i] is SortArray || rest[i] is PrintArray)
                    implies has_next || exists|j: int| 0 <= j < i && rest[j] is CreateArray by {
                assert(rest[i] == intents[i + 1]);
                if !has_next {
                    let j = choose|j: int| 0 <= j < i + 1 && intents[j] is CreateArray;
                    assert(j != 0);
                    assert(rest[j - 1] is CreateArray);
                }
            }
        }
    }
}

} // verus!
