//! The interpreter: from statements to the instances of modules that they
//! ask for.
//!
//! What the interpreter returns is defined by [`instances_of`] and
//! [`errors_of`], functions of the statements alone.

use std::rc::Rc;
use vstd::prelude::*;
use vstd::string::*;
use crate::openscad::{views, WithPosition};
use crate::openscad::parser::{
    CallArgument, CallArgumentView, CallArgumentWithPosition, ChildStatement,
    ChildStatementWithPosition, Expr, ExprView, ModuleId, ModuleIdView, ModuleInstantiation,
    ModuleInstantiationView, ModuleInstantiationWithPosition, SingleModuleInstantiation,
    SingleModuleInstantiationView, SingleModuleInstantiationWithPosition, Statement,
    StatementView, StatementWithPosition,
};
use crate::text::{debug_str, debug_text_of_str};

verus! {

/// A module that the interpreter knows.
#[derive(Debug, Clone, Copy, PartialEq, Eq, Structural)]
pub enum Module {
    Cube,
}

/// One use of a module, with the arguments it was given.
#[derive(Debug)]
pub struct ModuleInstance {
    pub module: Module,
    pub arguments: Vec<ModuleArgument>,
}

/// An instance with the instances that stand below it.
#[derive(Debug)]
pub struct ModuleInstanceTree {
    pub instance: ModuleInstance,
    pub children: Vec<Rc<ModuleInstanceTree>>,
}

/// An argument of an instance.
#[derive(Debug)]
pub enum ModuleArgument {
    /// An argument given by its place.
    Positional(ModuleArgumentValue),
}

/// The value of an argument.
#[derive(Debug)]
pub enum ModuleArgumentValue {
    /// A number, held as it is written in the text.
    Number(String),
}

/// A statement that the interpreter cannot carry out.
#[derive(Debug, PartialEq)]
pub struct InterpretError {
    pub message: String,
    pub start: usize,
    pub end: usize,
}

/// What the interpreter returns: the instances at the top, and the errors.
#[derive(Debug)]
pub struct InterpretResults {
    pub trees: Vec<Rc<ModuleInstanceTree>>,
    pub errors: Vec<InterpretError>,
}

pub enum ModuleArgumentValueView {
    Number(Seq<char>),
}

pub enum ModuleArgumentView {
    Positional(ModuleArgumentValueView),
}

pub struct ModuleInstanceView {
    pub module: Module,
    pub arguments: Seq<ModuleArgumentView>,
}

pub struct InterpretErrorView {
    pub message: Seq<char>,
    pub start: usize,
    pub end: usize,
}

impl View for ModuleArgumentValue {
    type V = ModuleArgumentValueView;

    open spec fn view(&self) -> ModuleArgumentValueView {
        match self {
            ModuleArgumentValue::Number(n) => ModuleArgumentValueView::Number(n@),
        }
    }
}

impl View for ModuleArgument {
    type V = ModuleArgumentView;

    open spec fn view(&self) -> ModuleArgumentView {
        match self {
            ModuleArgument::Positional(value) => ModuleArgumentView::Positional(value@),
        }
    }
}

impl View for ModuleInstance {
    type V = ModuleInstanceView;

    open spec fn view(&self) -> ModuleInstanceView {
        ModuleInstanceView { module: self.module, arguments: views(self.arguments@) }
    }
}

impl View for InterpretError {
    type V = InterpretErrorView;

    open spec fn view(&self) -> InterpretErrorView {
        InterpretErrorView { message: self.message@, start: self.start, end: self.end }
    }
}

/// The module called `name`, if the interpreter knows one.
pub open spec fn known_module(name: Seq<char>) -> Option<Module> {
    if name == "cube"@ {
        Some(Module::Cube)
    } else {
        None
    }
}

/// The argument of an instance for an argument of a call.
pub open spec fn argument_of(argument: WithPosition<CallArgumentView>) -> ModuleArgumentView {
    match argument.item {
        CallArgumentView::Expr { expr } => match expr.item {
            ExprView::Number(n) => ModuleArgumentView::Positional(
                ModuleArgumentValueView::Number(n),
            ),
        },
    }
}

/// The arguments of an instance for the arguments of a call.
pub open spec fn arguments_of(arguments: Seq<WithPosition<CallArgumentView>>) -> Seq<
    ModuleArgumentView,
> {
    arguments.map_values(|a: WithPosition<CallArgumentView>| argument_of(a))
}

/// What carrying out one statement gives.
pub enum Outcome {
    /// Nothing: the statement is empty.
    Nothing,
    /// An instance of a module.
    Instance(ModuleInstanceView),
    /// An error.
    Error(InterpretErrorView),
}

/// The message for a module that is not known, from its name in quotes.
pub open spec fn unknown_module_text(quoted_name: Seq<char>) -> Seq<char> {
    "Unknown module "@ + quoted_name
}

/// What a use of a module gives: a module that is known gives an instance
/// with the arguments of the call; `for` and a module that is not known
/// give an error at the place of the name.
pub open spec fn outcome_of_module(
    single: WithPosition<SingleModuleInstantiationView>,
) -> Outcome {
    match single.item {
        SingleModuleInstantiationView::Module { module_id, call_arguments } => {
            match module_id.item {
                ModuleIdView::For => Outcome::Error(
                    InterpretErrorView {
                        message: "Unsupported module for"@,
                        start: module_id.start,
                        end: module_id.end,
                    },
                ),
                ModuleIdView::Identifier(name) => match known_module(name) {
                    Some(module) => Outcome::Instance(
                        ModuleInstanceView { module, arguments: arguments_of(call_arguments) },
                    ),
                    None => Outcome::Error(
                        InterpretErrorView {
                            message: unknown_module_text(debug_text_of_str(name)),
                            start: module_id.start,
                            end: module_id.end,
                        },
                    ),
                },
            }
        },
    }
}

/// What a use of a module with its child statement gives.
pub open spec fn outcome_of_instantiation(
    instantiation: WithPosition<ModuleInstantiationView>,
) -> Outcome {
    match instantiation.item {
        ModuleInstantiationView::SingleModuleInstantiation {
            single_module_instantiation,
            child_statement,
        } => outcome_of_module(single_module_instantiation),
    }
}

/// What carrying out `statement` gives; an empty statement gives nothing.
pub open spec fn outcome_of(statement: WithPosition<StatementView>) -> Outcome {
    match statement.item {
        StatementView::Empty => Outcome::Nothing,
        StatementView::ModuleInstantiation { module_instantiation } => outcome_of_instantiation(
            module_instantiation,
        ),
    }
}

/// The instances that the statements give, in the order of the statements.
pub open spec fn instances_of(statements: Seq<WithPosition<StatementView>>) -> Seq<
    ModuleInstanceView,
>
    decreases statements.len(),
{
    if statements.len() == 0 {
        seq![]
    } else {
        let before = instances_of(statements.drop_last());
        match outcome_of(statements.last()) {
            Outcome::Instance(instance) => before.push(instance),
            _ => before,
        }
    }
}

/// The errors that the statements give, in the order of the statements.
pub open spec fn errors_of(statements: Seq<WithPosition<StatementView>>) -> Seq<
    InterpretErrorView,
>
    decreases statements.len(),
{
    if statements.len() == 0 {
        seq![]
    } else {
        let before = errors_of(statements.drop_last());
        match outcome_of(statements.last()) {
            Outcome::Error(error) => before.push(error),
            _ => before,
        }
    }
}

/// Whether `trees` are the instances `instances`, each without children.
pub open spec fn are_leaves(
    trees: Seq<Rc<ModuleInstanceTree>>,
    instances: Seq<ModuleInstanceView>,
) -> bool {
    &&& trees.len() == instances.len()
    &&& forall|i: int|
        0 <= i < trees.len() ==> {
            &&& (#[trigger] trees[i]).instance@ == instances[i]
            &&& trees[i].children@.len() == 0
        }
}

/// A second pointer to the value behind `pointer`. Not proved, but taken
/// from the standard library: `Rc::clone` returns a pointer to the same
/// allocation, so that both point to the same value.
#[verifier::external_body]
fn share<T>(pointer: &Rc<T>) -> (shared: Rc<T>)
    ensures
        shared == *pointer,
{
    pointer.clone()
}

/// The message for a module that is not known, from its name in quotes.
pub fn unknown_module_message(quoted_name: &str) -> (message: String)
    ensures
        message@ == unknown_module_text(quoted_name@),
{
    let mut message = String::from_str("Unknown module ");
    message.append(quoted_name);
    message
}

/// The module called `name`, if the interpreter knows one.
pub fn lookup_module(name: &str) -> (module: Option<Module>)
    ensures
        module == known_module(name@),
{
    if name.eq("cube") {
        Some(Module::Cube)
    } else {
        None
    }
}

/// An interpreter, with the instances and errors it has gathered.
pub struct Interpreter {
    stack: Vec<Rc<ModuleInstanceTree>>,
    results: Vec<Rc<ModuleInstanceTree>>,
    errors: Vec<InterpretError>,
}

impl Interpreter {
    /// The instances gathered so far.
    pub closed spec fn results(&self) -> Seq<Rc<ModuleInstanceTree>> {
        self.results@
    }

    /// The errors gathered so far.
    pub closed spec fn errors(&self) -> Seq<InterpretErrorView> {
        views(self.errors@)
    }

    /// No instance is open: the interpreter stands between two statements.
    pub closed spec fn at_top(&self) -> bool {
        self.stack@.len() == 0
    }

    /// Whether this interpreter is `before` after a statement with this
    /// outcome.
    pub open spec fn follows(&self, before: &Interpreter, outcome: Outcome) -> bool {
        &&& self.at_top()
        &&& match outcome {
            Outcome::Nothing => {
                &&& self.results() == before.results()
                &&& self.errors() == before.errors()
            },
            Outcome::Instance(instance) => {
                &&& self.results().len() == before.results().len() + 1
                &&& self.results().drop_last() == before.results()
                &&& self.results().last().instance@ == instance
                &&& self.results().last().children@.len() == 0
                &&& self.errors() == before.errors()
            },
            Outcome::Error(error) => {
                &&& self.results() == before.results()
                &&& self.errors() == before.errors().push(error)
            },
        }
    }

    /// An interpreter that has gathered nothing yet.
    pub fn new() -> (interpreter: Self)
        ensures
            interpreter.at_top(),
            interpreter.results().len() == 0,
            interpreter.errors().len() == 0,
    {
        Self { stack: vec![], results: vec![], errors: vec![] }
    }

    /// Carries out the statements in order, and returns what has been
    /// gathered: what this interpreter had gathered before, and behind it
    /// what the statements give.
    pub fn interpret(self, statements: Vec<StatementWithPosition>) -> (results: InterpretResults)
        requires
            self.at_top(),
        ensures
            results.trees@.len() == self.results().len() + instances_of(views(statements@)).len(),
            results.trees@.take(self.results().len() as int) == self.results(),
            are_leaves(
                results.trees@.skip(self.results().len() as int),
                instances_of(views(statements@)),
            ),
            views(results.errors@) == self.errors() + errors_of(views(statements@)),
    {
        let mut interpreter = self;
        let ghost all = views(statements@);
        let ghost n = self.results().len() as int;
        let mut i: usize = 0;
        while i < statements.len()
            invariant
                i <= statements.len(),
                all == views(statements@),
                n == self.results().len(),
                interpreter.at_top(),
                interpreter.results().len() == n + instances_of(all.take(i as int)).len(),
                interpreter.results().take(n) == self.results(),
                are_leaves(interpreter.results().skip(n), instances_of(all.take(i as int))),
                interpreter.errors() == self.errors() + errors_of(all.take(i as int)),
            decreases statements.len() - i,
        {
            let ghost before = interpreter;
            interpreter.process_statement(&statements[i]);
            proof {
                assert(all.take(i + 1).drop_last() =~= all.take(i as int));
                assert(all.take(i + 1).last() == statements@[i as int]@);
                let now = instances_of(all.take(i + 1));
                let grown = interpreter.results().len() > before.results().len();
                if grown {
                    assert(interpreter.results().drop_last() == before.results());
                    assert(interpreter.results().take(n) =~= before.results().take(n));
                } else {
                    assert(interpreter.results() == before.results());
                }
                assert forall|j: int| 0 <= j < interpreter.results().skip(n).len() implies {
                    &&& (#[trigger] interpreter.results().skip(n)[j]).instance@ == now[j]
                    &&& interpreter.results().skip(n)[j].children@.len() == 0
                } by {
                    if n + j < before.results().len() {
                        assert(before.results().skip(n)[j] == before.results()[n + j]);
                        if grown {
                            assert(interpreter.results().drop_last()[n + j]
                                == interpreter.results()[n + j]);
                        }
                    }
                }
                assert(interpreter.errors() =~= self.errors() + errors_of(all.take(i + 1)));
            }
            i += 1;
        }
        assert(all.take(i as int) =~= all);
        InterpretResults { trees: interpreter.results, errors: interpreter.errors }
    }

    /// Carries out one statement.
    pub fn process_statement(&mut self, statement: &StatementWithPosition)
        requires
            old(self).at_top(),
        ensures
            final(self).follows(old(self), outcome_of(statement@)),
    {
        match &statement.item {
            Statement::Empty => (),
            Statement::ModuleInstantiation { module_instantiation } => {
                self.process_module_instantiation(module_instantiation)
            },
        }
    }

    fn process_module_instantiation(
        &mut self,
        module_instantiation: &ModuleInstantiationWithPosition,
    )
        requires
            old(self).at_top(),
        ensures
            final(self).follows(old(self), outcome_of_instantiation(module_instantiation@)),
    {
        match &module_instantiation.item {
            ModuleInstantiation::SingleModuleInstantiation {
                single_module_instantiation,
                child_statement,
            } => {
                self.process_single_module_instantiation(single_module_instantiation);
                self.process_child_statement(child_statement)
            },
        }
    }

    fn process_single_module_instantiation(
        &mut self,
        single_module_instantiation: &SingleModuleInstantiationWithPosition,
    )
        requires
            old(self).at_top(),
        ensures
            final(self).results_follow(old(self), outcome_of_module(single_module_instantiation@)),
    {
        match &single_module_instantiation.item {
            SingleModuleInstantiation::Module { module_id, call_arguments } => {
                match &module_id.item {
                    ModuleId::For => {
                        self.report(
                            String::from_str("Unsupported module for"),
                            module_id.start,
                            module_id.end,
                        );
                    },
                    ModuleId::Identifier(identifier) => {
                        match lookup_module(identifier.as_str()) {
                            Some(module) => {
                                let instance = ModuleInstance {
                                    module,
                                    arguments: process_call_arguments(call_arguments),
                                };
                                self.append_instance(instance);
                                assert(self.results().drop_last() =~= old(self).results());
                            },
                            None => {
                                let message = unknown_module_message(
                                    debug_str(identifier.as_str()).as_str(),
                                );
                                self.report(message, module_id.start, module_id.end);
                            },
                        }
                    },
                }
            },
        }
    }

    /// As [`Self::follows`], but an instance may still be open.
    spec fn results_follow(&self, before: &Interpreter, outcome: Outcome) -> bool {
        match outcome {
            Outcome::Nothing => {
                &&& self.results() == before.results()
                &&& self.errors() == before.errors()
            },
            Outcome::Instance(instance) => {
                &&& self.results().len() == before.results().len() + 1
                &&& self.results().drop_last() == before.results()
                &&& self.results().last().instance@ == instance
                &&& self.results().last().children@.len() == 0
                &&& self.errors() == before.errors()
            },
            Outcome::Error(error) => {
                &&& self.results() == before.results()
                &&& self.errors() == before.errors().push(error)
            },
        }
    }

    fn report(&mut self, message: String, start: usize, end: usize)
        requires
            old(self).at_top(),
        ensures
            final(self).at_top(),
            final(self).results() == old(self).results(),
            final(self).errors() == old(self).errors().push(
                InterpretErrorView { message: message@, start, end },
            ),
    {
        self.errors.push(InterpretError { message, start, end });
        assert(self.errors() =~= old(self).errors().push(
            InterpretErrorView { message: message@, start, end },
        ));
    }

    fn process_child_statement(&mut self, child_statement: &ChildStatementWithPosition)
        ensures
            final(self).at_top(),
            final(self).results() == old(self).results(),
            final(self).errors() == old(self).errors(),
    {
        match &child_statement.item {
            ChildStatement::Empty => {
                self.stack.clear();
            },
        }
    }

    fn append_instance(&mut self, instance: ModuleInstance)
        requires
            old(self).at_top(),
        ensures
            final(self).results() == old(self).results().push(final(self).results().last()),
            final(self).results().len() == old(self).results().len() + 1,
            final(self).results().last().instance == instance,
            final(self).results().last().children@.len() == 0,
            final(self).errors() == old(self).errors(),
    {
        let tree = Rc::new(ModuleInstanceTree { instance, children: vec![] });
        self.results.push(share(&tree));
        self.stack.push(tree);
    }
}

/// The arguments of an instance for the arguments of a call.
pub fn process_call_arguments(call_arguments: &Vec<CallArgumentWithPosition>) -> (arguments: Vec<
    ModuleArgument,
>)
    ensures
        views(arguments@) == arguments_of(views(call_arguments@)),
{
    let mut results: Vec<ModuleArgument> = vec![];
    let mut i: usize = 0;
    while i < call_arguments.len()
        invariant
            i <= call_arguments.len(),
            results@.len() == i,
            forall|k: int|
                0 <= k < i ==> (#[trigger] results@[k])@ == argument_of(call_arguments@[k]@),
        decreases call_arguments.len() - i,
    {
        match &call_arguments[i].item {
            CallArgument::Expr { expr } => match &expr.item {
                Expr::Number(number) => results.push(
                    ModuleArgument::Positional(ModuleArgumentValue::Number(number.clone())),
                ),
            },
        }
        i += 1;
    }
    assert(views(results@) =~= arguments_of(views(call_arguments@)));
    results
}

/// The instances of modules that the statements ask for, and the statements
/// that could not be carried out.
pub fn openscad_interpret(statements: Vec<StatementWithPosition>) -> (results: InterpretResults)
    ensures
        are_leaves(results.trees@, instances_of(views(statements@))),
        views(results.errors@) == errors_of(views(statements@)),
{
    let it = Interpreter::new();
    let results = it.interpret(statements);
    assert(results.trees@.skip(0) =~= results.trees@);
    assert(views(results.errors@) =~= errors_of(views(statements@)));
    results
}

/// Every statement gives at most one instance or one error, and an empty
/// statement gives neither.
pub proof fn lemma_outcomes_are_bounded(statements: Seq<WithPosition<StatementView>>)
    ensures
        instances_of(statements).len() + errors_of(statements).len() <= statements.len(),
        (forall|i: int| 0 <= i < statements.len() ==> (#[trigger] statements[i]).item is Empty)
            ==> instances_of(statements).len() == 0 && errors_of(statements).len() == 0,
    decreases statements.len(),
{
    if statements.len() > 0 {
        lemma_outcomes_are_bounded(statements.drop_last());
        assert(forall|i: int|
            0 <= i < statements.len() - 1 ==> statements.drop_last()[i] == statements[i]);
    }
}

} // verus!
