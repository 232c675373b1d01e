//! What the evaluator does, step by step, as mathematics.
//!
//! The evaluator is a machine with three parts: the stack with its frames
//! of names, the store of shared containers, and the control, a stack of
//! tasks that are still to be carried out. A step takes the topmost task
//! and carries it out. Whatever the machine cannot do itself (reading and
//! writing, arithmetic on floats) it hands out as a signal, and takes the
//! answer in with the next step.

use crate::arity::{all_identifiers, arity_of, DerivationError, DerivationFault};
use crate::numbers::{Number, NumberKind};
use crate::parser::integer_reading;
use crate::render::{value_text, Fragment, FragmentView};
use crate::stack::StackView;
use crate::store::{
    entries_with, entry_place, hash_at, int_hash_at, list_at, ContainerView,
};
use crate::types::{Expression, ExpressionView, Value, ValueView};
use vstd::prelude::*;

verus! {

/// The arithmetic operators.
#[derive(Clone, Copy, Debug, PartialEq, Eq, Structural)]
pub enum Operator {
    Add,
    Subtract,
    Multiply,
    Divide,
    Remainder,
}

/// The comparisons.
#[derive(Clone, Copy, Debug, PartialEq, Eq, Structural)]
pub enum Comparison {
    Less,
    LessOrEqual,
    Equal,
    NotEqual,
    GreaterOrEqual,
    Greater,
}

/// The built-in vocabulary.
#[derive(Clone, Copy, Debug, PartialEq, Eq, Structural)]
pub enum Builtin {
    Arithmetic(Operator),
    Compare(Comparison),
    ToInt,
    ToFloat,
    Apply,
    Read,
    Write,
    Writeln,
    Newline,
    Loop,
    LoopToList,
    If,
    When,
    Cond,
    MakeList,
    ListSize,
    ListPush,
    ListPop,
    ListRef,
    ListSet,
    MakeHash,
    MakeIntHash,
    HashHas,
    HashGet,
    HashSet,
}

/// The built-in that an identifier names, if it names one.
pub open spec fn builtin_named(id: Seq<char>) -> Option<Builtin> {
    if id == "+"@ {
        Some(Builtin::Arithmetic(Operator::Add))
    } else if id == "-"@ {
        Some(Builtin::Arithmetic(Operator::Subtract))
    } else if id == "*"@ {
        Some(Builtin::Arithmetic(Operator::Multiply))
    } else if id == "/"@ {
        Some(Builtin::Arithmetic(Operator::Divide))
    } else if id == "%"@ {
        Some(Builtin::Arithmetic(Operator::Remainder))
    } else if id == "<"@ {
        Some(Builtin::Compare(Comparison::Less))
    } else if id == "<="@ {
        Some(Builtin::Compare(Comparison::LessOrEqual))
    } else if id == "="@ || id == "=="@ {
        Some(Builtin::Compare(Comparison::Equal))
    } else if id == "!="@ {
        Some(Builtin::Compare(Comparison::NotEqual))
    } else if id == ">="@ {
        Some(Builtin::Compare(Comparison::GreaterOrEqual))
    } else if id == ">"@ {
        Some(Builtin::Compare(Comparison::Greater))
    } else if id == "to_int"@ {
        Some(Builtin::ToInt)
    } else if id == "to_float"@ {
        Some(Builtin::ToFloat)
    } else if id == "apply"@ {
        Some(Builtin::Apply)
    } else if id == "read"@ {
        Some(Builtin::Read)
    } else if id == "write"@ {
        Some(Builtin::Write)
    } else if id == "writeln"@ {
        Some(Builtin::Writeln)
    } else if id == "newline"@ {
        Some(Builtin::Newline)
    } else if id == "loop"@ {
        Some(Builtin::Loop)
    } else if id == "loop->list"@ || id == "generate-stack"@ {
        Some(Builtin::LoopToList)
    } else if id == "if"@ {
        Some(Builtin::If)
    } else if id == "when"@ {
        Some(Builtin::When)
    } else if id == "cond"@ {
        Some(Builtin::Cond)
    } else if id == "make-list"@ || id == "make-stack"@ {
        Some(Builtin::MakeList)
    } else if id == "stack-size"@ {
        Some(Builtin::ListSize)
    } else if id == "stack-push!"@ {
        Some(Builtin::ListPush)
    } else if id == "stack-pop!"@ {
        Some(Builtin::ListPop)
    } else if id == "stack-ref"@ {
        Some(Builtin::ListRef)
    } else if id == "stack-set!"@ {
        Some(Builtin::ListSet)
    } else if id == "make-hash"@ {
        Some(Builtin::MakeHash)
    } else if id == "make-int-hash"@ {
        Some(Builtin::MakeIntHash)
    } else if id == "hash-has?"@ {
        Some(Builtin::HashHas)
    } else if id == "hash-get"@ {
        Some(Builtin::HashGet)
    } else if id == "hash-set!"@ {
        Some(Builtin::HashSet)
    } else {
        None
    }
}

/// Why a run was given up.
#[derive(Debug, PartialEq, Eq)]
pub enum EvalError {
    /// The arity of a block cannot be determined.
    Derivation(DerivationError),
    /// A name that no frame binds and that is no built-in.
    UnknownIdentifier(String),
    /// An operation was given a value of the wrong kind.
    TypeMismatch,
    /// A place in a list, or a key of a hash, that is not there.
    IndexOutOfBounds,
    /// An item was taken off an empty list.
    EmptyCollection,
    /// The current frame holds fewer values than an operation takes.
    StackUnderflow,
    /// A division by zero, or a count or quotient that no integer holds.
    Arithmetic,
    /// An expression without a meaning: a dotted identifier, or a prefix
    /// over something that it does not apply to.
    Malformed,
    /// The answer to a signal is not of the kind that was asked for.
    UnexpectedReply,
}

/// What a failure holds.
pub enum EvalFault {
    Derivation(DerivationFault),
    UnknownIdentifier(Seq<char>),
    TypeMismatch,
    IndexOutOfBounds,
    EmptyCollection,
    StackUnderflow,
    Arithmetic,
    Malformed,
    UnexpectedReply,
}

impl View for EvalError {
    type V = EvalFault;

    open spec fn view(&self) -> EvalFault {
        match self {
            EvalError::Derivation(e) => EvalFault::Derivation(e@),
            EvalError::UnknownIdentifier(name) => EvalFault::UnknownIdentifier(name@),
            EvalError::TypeMismatch => EvalFault::TypeMismatch,
            EvalError::IndexOutOfBounds => EvalFault::IndexOutOfBounds,
            EvalError::EmptyCollection => EvalFault::EmptyCollection,
            EvalError::StackUnderflow => EvalFault::StackUnderflow,
            EvalError::Arithmetic => EvalFault::Arithmetic,
            EvalError::Malformed => EvalFault::Malformed,
            EvalError::UnexpectedReply => EvalFault::UnexpectedReply,
        }
    }
}

/// What a loop runs over, and how far it has come.
#[derive(Debug)]
pub enum Source {
    /// The integers from `current` up to, not including, `end`.
    Count { current: i64, end: i64 },
    /// The characters of a text from the place `next` on.
    Chars { text: Vec<char>, next: usize },
    /// The items of the list `list` from the place `next` on.
    Items { list: usize, next: usize },
}

/// What a source holds.
pub enum SourceView {
    Count { current: int, end: int },
    Chars { text: Seq<char>, next: nat },
    Items { list: nat, next: nat },
}

impl View for Source {
    type V = SourceView;

    open spec fn view(&self) -> SourceView {
        match self {
            Source::Count { current, end } => SourceView::Count {
                current: *current as int,
                end: *end as int,
            },
            Source::Chars { text, next } => SourceView::Chars { text: text@, next: *next as nat },
            Source::Items { list, next } => SourceView::Items {
                list: *list as nat,
                next: *next as nat,
            },
        }
    }
}

/// The kind of answer that the machine waits for.
#[derive(Clone, Copy, Debug, PartialEq, Eq, Structural)]
pub enum Expected {
    Number,
    Boolean,
    Line,
}

/// Something that is still to be done.
#[derive(Debug)]
pub enum Task {
    /// Evaluate an expression.
    Eval(Expression),
    /// Leave the innermost frame, keeping that many values.
    Leave(usize),
    /// Push a value.
    Push(Value),
    /// Take the top value and append it to a list.
    Collect(usize),
    /// Run a block on the next item of a source, and again until the
    /// source is used up. With a sink, what each run leaves is appended to
    /// that list.
    Iterate { block: Value, source: Source, sink: Option<usize> },
    /// Run the test of the branch `index` of a `cond` over the list `list`.
    CondTest { list: usize, index: usize },
    /// Decide on the branch `index` of a `cond` by what its test left.
    CondDecide { list: usize, index: usize },
    /// Take in the answer to the last signal.
    Await(Expected),
}

/// What a task holds.
pub enum TaskView {
    Eval(ExpressionView),
    Leave(nat),
    Push(ValueView),
    Collect(nat),
    Iterate { block: ValueView, source: SourceView, sink: Option<nat> },
    CondTest { list: nat, index: nat },
    CondDecide { list: nat, index: nat },
    Await(Expected),
}

impl View for Task {
    type V = TaskView;

    open spec fn view(&self) -> TaskView {
        match self {
            Task::Eval(e) => TaskView::Eval(e@),
            Task::Leave(n) => TaskView::Leave(*n as nat),
            Task::Push(v) => TaskView::Push(v@),
            Task::Collect(h) => TaskView::Collect(*h as nat),
            Task::Iterate { block, source, sink } => TaskView::Iterate {
                block: block@,
                source: source@,
                sink: match sink {
                    Some(h) => Some(*h as nat),
                    None => None,
                },
            },
            Task::CondTest { list, index } => TaskView::CondTest {
                list: *list as nat,
                index: *index as nat,
            },
            Task::CondDecide { list, index } => TaskView::CondDecide {
                list: *list as nat,
                index: *index as nat,
            },
            Task::Await(e) => TaskView::Await(*e),
        }
    }
}

/// The views of a row of tasks.
pub open spec fn task_views(tasks: Seq<Task>) -> Seq<TaskView> {
    Seq::new(tasks.len(), |i: int| tasks[i]@)
}

/// What a step tells the one who runs the machine.
#[derive(Debug, PartialEq, Eq)]
pub enum Signal {
    /// There is more to do, and nothing to do for it.
    Continue,
    /// Nothing is left to do.
    Done,
    /// Write this text to the output.
    Write(Vec<Fragment>),
    /// Read a line from the input and answer with it.
    Read,
    /// Apply the operator to the two numbers and answer with the result.
    Arithmetic { operator: Operator, left: Number, right: Number },
    /// Compare the two numbers and answer with the result.
    Compare { comparison: Comparison, left: Number, right: Number },
    /// Bring the number to the given level and answer with the result.
    Convert { target: NumberKind, value: Number },
    /// Read the text as a float and answer with the result.
    ParseFloat(String),
    /// The run has failed.
    Failed(EvalError),
}

/// What a signal holds.
pub enum SignalView {
    Continue,
    Done,
    Write(Seq<FragmentView>),
    Read,
    Arithmetic { operator: Operator, left: Number, right: Number },
    Compare { comparison: Comparison, left: Number, right: Number },
    Convert { target: NumberKind, value: Number },
    ParseFloat(Seq<char>),
    Failed(EvalFault),
}

impl View for Signal {
    type V = SignalView;

    open spec fn view(&self) -> SignalView {
        match self {
            Signal::Continue => SignalView::Continue,
            Signal::Done => SignalView::Done,
            Signal::Write(fragments) => SignalView::Write(
                crate::render::fragment_views(fragments@),
            ),
            Signal::Read => SignalView::Read,
            Signal::Arithmetic { operator, left, right } => SignalView::Arithmetic {
                operator: *operator,
                left: *left,
                right: *right,
            },
            Signal::Compare { comparison, left, right } => SignalView::Compare {
                comparison: *comparison,
                left: *left,
                right: *right,
            },
            Signal::Convert { target, value } => SignalView::Convert {
                target: *target,
                value: *value,
            },
            Signal::ParseFloat(text) => SignalView::ParseFloat(text@),
            Signal::Failed(e) => SignalView::Failed(e@),
        }
    }
}

/// The answer to a signal.
#[derive(Debug, PartialEq, Eq)]
pub enum Reply {
    /// No answer: the last signal asked for none.
    Nothing,
    Number(Number),
    Boolean(bool),
    Line(String),
    /// What was asked for cannot be done.
    Refused,
}

/// What an answer holds.
pub enum ReplyView {
    Nothing,
    Number(Number),
    Boolean(bool),
    Line(Seq<char>),
    Refused,
}

impl View for Reply {
    type V = ReplyView;

    open spec fn view(&self) -> ReplyView {
        match self {
            Reply::Nothing => ReplyView::Nothing,
            Reply::Number(n) => ReplyView::Number(*n),
            Reply::Boolean(b) => ReplyView::Boolean(*b),
            Reply::Line(t) => ReplyView::Line(t@),
            Reply::Refused => ReplyView::Refused,
        }
    }
}

/// What an operator makes of two integers. Sums, differences and products
/// wrap around; a quotient or remainder by zero, or one that no integer
/// holds, is `None`.
pub open spec fn integer_result(operator: Operator, a: i64, b: i64) -> Option<i64> {
    match operator {
        Operator::Add => Some(a.wrapping_add(b)),
        Operator::Subtract => Some(a.wrapping_sub(b)),
        Operator::Multiply => Some(a.wrapping_mul(b)),
        Operator::Divide => a.checked_div(b),
        Operator::Remainder => a.checked_rem(b),
    }
}

/// How two integers compare.
pub open spec fn integer_comparison(comparison: Comparison, a: i64, b: i64) -> bool {
    match comparison {
        Comparison::Less => a < b,
        Comparison::LessOrEqual => a <= b,
        Comparison::Equal => a == b,
        Comparison::NotEqual => a != b,
        Comparison::GreaterOrEqual => a >= b,
        Comparison::Greater => a > b,
    }
}

/// A text without the newlines at its end.
pub open spec fn without_trailing_newlines(text: Seq<char>) -> Seq<char>
    decreases text.len(),
{
    if text.len() > 0 && text.last() == '\n' {
        without_trailing_newlines(text.drop_last())
    } else {
        text
    }
}

/// The names that a row of identifiers holds.
pub open spec fn identifier_names(items: Seq<ExpressionView>) -> Seq<Seq<char>> {
    Seq::new(items.len(), |i: int| items[i]->Identifier_0)
}

/// What a loop runs over: the integers below a count that is not
/// negative, the characters of a string, or the items of a list.
pub open spec fn source_of(iterable: ValueView) -> Option<SourceView> {
    match iterable {
        ValueView::Number(Number::Integer(n)) => if n >= 0 {
            Some(SourceView::Count { current: 0, end: n as int })
        } else {
            None
        },
        ValueView::String(text) => Some(SourceView::Chars { text: text, next: 0 }),
        ValueView::List(h) => Some(SourceView::Items { list: h, next: 0 }),
        _ => None,
    }
}

/// The next item of a source and the source behind it; `None` where the
/// source is used up.
pub open spec fn next_item(source: SourceView, store: Seq<ContainerView>) -> Option<
    (ValueView, SourceView),
> {
    match source {
        SourceView::Count { current, end } => if current < end && i64::MIN <= current
            <= i64::MAX {
            Some(
                (
                    ValueView::Number(Number::Integer(current as i64)),
                    SourceView::Count { current: current + 1, end: end },
                ),
            )
        } else {
            None
        },
        SourceView::Chars { text, next } => if next < text.len() {
            Some(
                (
                    ValueView::String(seq![text[next as int]]),
                    SourceView::Chars { text: text, next: next + 1 },
                ),
            )
        } else {
            None
        },
        SourceView::Items { list, next } => match list_at(store, list as int) {
            Some(items) => if next < items.len() {
                Some((items[next as int], SourceView::Items { list: list, next: next + 1 }))
            } else {
                None
            },
            None => None,
        },
    }
}

/// The tasks that evaluate the children of a group, the first child on
/// top.
pub open spec fn group_tasks(children: Seq<ExpressionView>) -> Seq<TaskView> {
    Seq::new(children.len(), |i: int| TaskView::Eval(children[children.len() - 1 - i]))
}

/// The tasks that evaluate the children of a list literal and collect
/// what each leaves into the list `handle`, the first child on top.
pub open spec fn list_tasks(children: Seq<ExpressionView>, handle: nat) -> Seq<TaskView> {
    Seq::new(
        2 * children.len(),
        |i: int|
            if i % 2 == 0 {
                TaskView::Collect(handle)
            } else {
                TaskView::Eval(children[children.len() - 1 - i / 2])
            },
    )
}

/// The state of the machine.
#[verifier::ext_equal]
pub struct VMView {
    pub stack: StackView,
    pub store: Seq<ContainerView>,
    pub control: Seq<TaskView>,
}

impl VMView {
    /// The machine goes on.
    pub open spec fn go(self) -> (VMView, SignalView) {
        (self, SignalView::Continue)
    }

    /// The run is given up: nothing is left to do.
    pub open spec fn failed(self, fault: EvalFault) -> (VMView, SignalView) {
        (VMView { control: Seq::empty(), ..self }, SignalView::Failed(fault))
    }

    /// The value on top of the stack.
    pub open spec fn top(self) -> ValueView {
        self.stack.data.last()
    }

    /// The machine without the value on top of the stack.
    pub open spec fn popped(self) -> VMView {
        VMView { stack: self.stack.popped(), ..self }
    }

    /// The machine with one more value on the stack.
    pub open spec fn pushed(self, value: ValueView) -> VMView {
        VMView { stack: self.stack.pushed(value), ..self }
    }

    /// The machine with one more task to do, before all others.
    pub open spec fn scheduled(self, task: TaskView) -> VMView {
        VMView { control: self.control.push(task), ..self }
    }

    /// The machine with one more container in its store.
    pub open spec fn stored(self, container: ContainerView) -> VMView {
        VMView { store: self.store.push(container), ..self }
    }

    /// The machine with the container `handle` replaced.
    pub open spec fn restored(self, handle: nat, container: ContainerView) -> VMView {
        VMView { store: self.store.update(handle as int, container), ..self }
    }

    /// Calls a block: a frame is opened over its inputs, its body is to
    /// be evaluated, and after that the frame is left with its outputs. Where
    /// the current frame holds too few inputs, the run fails.
    pub open spec fn called(self, arity_in: nat, arity_out: nat, body: ExpressionView) -> (
        VMView,
        SignalView,
    ) {
        if arity_in <= self.stack.reach() {
            VMView { stack: self.stack.extended(arity_in), ..self }.scheduled(
                TaskView::Leave(arity_out),
            ).scheduled(TaskView::Eval(body)).go()
        } else {
            self.failed(EvalFault::StackUnderflow)
        }
    }

    /// A block is called; any other value is pushed.
    pub open spec fn invoked(self, value: ValueView) -> (VMView, SignalView) {
        match value {
            ValueView::Block { arity_in, arity_out, expression } => self.called(
                arity_in,
                arity_out,
                *expression,
            ),
            _ => self.pushed(value).go(),
        }
    }

    /// An arithmetic operator: takes the right and then the left operand.
    /// Two integers are computed with here; for any other two numbers the
    /// machine asks, and waits for the number.
    pub open spec fn arithmetic(self, operator: Operator) -> (VMView, SignalView) {
        if self.stack.reach() < 2 {
            self.failed(EvalFault::StackUnderflow)
        } else {
            let rest = self.popped().popped();
            match (self.popped().top(), self.top()) {
                (
                    ValueView::Number(Number::Integer(a)),
                    ValueView::Number(Number::Integer(b)),
                ) => match integer_result(operator, a, b) {
                    Some(r) => rest.pushed(ValueView::Number(Number::Integer(r))).go(),
                    None => rest.failed(EvalFault::Arithmetic),
                },
                (ValueView::Number(left), ValueView::Number(right)) => (
                    rest.scheduled(TaskView::Await(Expected::Number)),
                    SignalView::Arithmetic { operator: operator, left: left, right: right },
                ),
                _ => rest.failed(EvalFault::TypeMismatch),
            }
        }
    }

    /// A comparison: takes the right and then the left operand and leaves
    /// a boolean. Two integers are compared here; for any other two numbers
    /// the machine asks, and waits for the boolean.
    pub open spec fn comparison(self, comparison: Comparison) -> (VMView, SignalView) {
        if self.stack.reach() < 2 {
            self.failed(EvalFault::StackUnderflow)
        } else {
            let rest = self.popped().popped();
            match (self.popped().top(), self.top()) {
                (
                    ValueView::Number(Number::Integer(a)),
                    ValueView::Number(Number::Integer(b)),
                ) => rest.pushed(ValueView::Boolean(integer_comparison(comparison, a, b))).go(),
                (ValueView::Number(left), ValueView::Number(right)) => (
                    rest.scheduled(TaskView::Await(Expected::Boolean)),
                    SignalView::Compare { comparison: comparison, left: left, right: right },
                ),
                _ => rest.failed(EvalFault::TypeMismatch),
            }
        }
    }

    /// `to_int` and `to_float`: takes a value and leaves it as a number of
    /// the level `target`. A string is read as an integer here; to read it as
    /// a float the machine asks. A number is converted here where that takes
    /// no floating-point arithmetic, else the machine asks.
    pub open spec fn conversion(self, target: NumberKind) -> (VMView, SignalView) {
        if self.stack.reach() < 1 {
            self.failed(EvalFault::StackUnderflow)
        } else {
            let rest = self.popped();
            match self.top() {
                ValueView::String(text) => if target == NumberKind::Integer {
                    match integer_reading(text) {
                        Some(v) => rest.pushed(ValueView::Number(Number::Integer(v as i64))).go(),
                        None => rest.failed(EvalFault::TypeMismatch),
                    }
                } else {
                    (
                        rest.scheduled(TaskView::Await(Expected::Number)),
                        SignalView::ParseFloat(text),
                    )
                },
                ValueView::Number(n) => match n.converted(target) {
                    Some(m) => rest.pushed(ValueView::Number(m)).go(),
                    None => (
                        rest.scheduled(TaskView::Await(Expected::Number)),
                        SignalView::Convert { target: target, value: n },
                    ),
                },
                _ => rest.failed(EvalFault::TypeMismatch),
            }
        }
    }

    /// `apply`: takes a block and calls it.
    pub open spec fn applied(self) -> (VMView, SignalView) {
        if self.stack.reach() < 1 {
            self.failed(EvalFault::StackUnderflow)
        } else {
            match self.top() {
                ValueView::Block { arity_in, arity_out, expression } => self.popped().called(
                    arity_in,
                    arity_out,
                    *expression,
                ),
                _ => self.popped().failed(EvalFault::TypeMismatch),
            }
        }
    }

    /// `write` and `writeln`: takes a value and hands out its text, with a
    /// newline behind it for `writeln`.
    pub open spec fn written(self, newline: bool) -> (VMView, SignalView) {
        if self.stack.reach() < 1 {
            self.failed(EvalFault::StackUnderflow)
        } else {
            (
                self.popped(),
                SignalView::Write(
                    if newline {
                        value_text(self.top(), self.store).push(FragmentView::Text("\n"@))
                    } else {
                        value_text(self.top(), self.store)
                    },
                ),
            )
        }
    }

    /// `loop` and `loop->list`: takes the iterable and then the block, and
    /// sets out to run the block on each item. With `collect`, a new list is
    /// made, what each run leaves goes into it, and the list is pushed at the
    /// end.
    pub open spec fn looped(self, collect: bool) -> (VMView, SignalView) {
        if self.stack.reach() < 2 {
            self.failed(EvalFault::StackUnderflow)
        } else {
            let rest = self.popped().popped();
            match source_of(self.top()) {
                Some(source) => if collect {
                    rest.stored(ContainerView::List(Seq::empty())).scheduled(
                        TaskView::Push(ValueView::List(self.store.len())),
                    ).scheduled(
                        TaskView::Iterate {
                            block: self.popped().top(),
                            source: source,
                            sink: Some(self.store.len()),
                        },
                    ).go()
                } else {
                    rest.scheduled(
                        TaskView::Iterate {
                            block: self.popped().top(),
                            source: source,
                            sink: None,
                        },
                    ).go()
                },
                None => rest.failed(EvalFault::TypeMismatch),
            }
        }
    }

    /// One round of a loop: where the source has a next item, the item is
    /// pushed and the block is called on it, with the rest of the loop to
    /// follow, after the collecting of what the block leaves if there is a
    /// sink. Where the source is used up, the loop is over.
    pub open spec fn iterated(self, block: ValueView, source: SourceView, sink: Option<nat>) -> (
        VMView,
        SignalView,
    ) {
        match next_item(source, self.store) {
            None => self.go(),
            Some((item, behind)) => {
                let again = self.scheduled(
                    TaskView::Iterate { block: block, source: behind, sink: sink },
                );
                let ready = (match sink {
                    Some(h) => again.scheduled(TaskView::Collect(h)),
                    None => again,
                }).pushed(item);
                match block {
                    ValueView::Block { arity_in, arity_out, expression } => ready.called(
                        arity_in,
                        arity_out,
                        *expression,
                    ),
                    _ => ready.failed(EvalFault::TypeMismatch),
                }
            },
        }
    }

    /// Takes the top value and appends it to the list `handle`.
    pub open spec fn collected(self, handle: nat) -> (VMView, SignalView) {
        if self.stack.reach() < 1 {
            self.failed(EvalFault::StackUnderflow)
        } else {
            match list_at(self.store, handle as int) {
                Some(items) => self.popped().restored(
                    handle,
                    ContainerView::List(items.push(self.top())),
                ).go(),
                None => self.popped().failed(EvalFault::TypeMismatch),
            }
        }
    }

    /// `if`: takes the condition, the false branch and the true branch,
    /// and invokes the branch that the condition selects.
    pub open spec fn chosen(self) -> (VMView, SignalView) {
        if self.stack.reach() < 3 {
            self.failed(EvalFault::StackUnderflow)
        } else {
            let rest = self.popped().popped().popped();
            match self.top() {
                ValueView::Boolean(condition) => rest.invoked(
                    if condition {
                        self.popped().popped().top()
                    } else {
                        self.popped().top()
                    },
                ),
                _ => rest.failed(EvalFault::TypeMismatch),
            }
        }
    }

    /// `when`: takes the condition and the branch, and invokes the branch
    /// where the condition is true.
    pub open spec fn guarded(self) -> (VMView, SignalView) {
        if self.stack.reach() < 2 {
            self.failed(EvalFault::StackUnderflow)
        } else {
            let rest = self.popped().popped();
            match self.top() {
                ValueView::Boolean(condition) => if condition {
                    rest.invoked(self.popped().top())
                } else {
                    rest.go()
                },
                _ => rest.failed(EvalFault::TypeMismatch),
            }
        }
    }

    /// `cond`: takes the list of tests and values, and sets out to run the
    /// first test.
    pub open spec fn branched(self) -> (VMView, SignalView) {
        if self.stack.reach() < 1 {
            self.failed(EvalFault::StackUnderflow)
        } else {
            match self.top() {
                ValueView::List(h) => self.popped().scheduled(
                    TaskView::CondTest { list: h, index: 0 },
                ).go(),
                _ => self.popped().failed(EvalFault::TypeMismatch),
            }
        }
    }

    /// The branch `index` of a `cond`: where the list has such a pair of
    /// test and value, the test, which must be a block, is called, and the
    /// decision follows. Behind the last pair the default, the last item of
    /// the list, is invoked.
    pub open spec fn cond_tested(self, list: nat, index: nat) -> (VMView, SignalView) {
        match list_at(self.store, list as int) {
            None => self.failed(EvalFault::TypeMismatch),
            Some(items) => if index < items.len() / 2 {
                match items[(2 * index) as int] {
                    ValueView::Block { arity_in, arity_out, expression } => self.scheduled(
                        TaskView::CondDecide { list: list, index: index },
                    ).called(arity_in, arity_out, *expression),
                    _ => self.failed(EvalFault::TypeMismatch),
                }
            } else if items.len() == 0 {
                self.failed(EvalFault::IndexOutOfBounds)
            } else {
                self.invoked(items.last())
            },
        }
    }

    /// The decision on the branch `index` of a `cond`: takes what the test
    /// left, which must be a boolean. Where it is true the value of the
    /// branch is invoked, else the next branch is tried.
    pub open spec fn cond_decided(self, list: nat, index: nat) -> (VMView, SignalView) {
        if self.stack.reach() < 1 {
            self.failed(EvalFault::StackUnderflow)
        } else {
            let rest = self.popped();
            match self.top() {
                ValueView::Boolean(holds) => if holds {
                    match list_at(self.store, list as int) {
                        Some(items) => if 2 * index + 1 < items.len() {
                            rest.invoked(items[(2 * index + 1) as int])
                        } else {
                            rest.failed(EvalFault::IndexOutOfBounds)
                        },
                        None => rest.failed(EvalFault::TypeMismatch),
                    }
                } else if index < usize::MAX {
                    rest.scheduled(TaskView::CondTest { list: list, index: index + 1 }).go()
                } else {
                    rest.failed(EvalFault::IndexOutOfBounds)
                },
                _ => rest.failed(EvalFault::TypeMismatch),
            }
        }
    }

    /// Makes a new, empty container and pushes its handle.
    pub open spec fn made(self, container: ContainerView, value: ValueView) -> (
        VMView,
        SignalView,
    ) {
        self.stored(container).pushed(value).go()
    }

    /// `stack-size`: takes a list and leaves its length.
    pub open spec fn list_sized(self) -> (VMView, SignalView) {
        if self.stack.reach() < 1 {
            self.failed(EvalFault::StackUnderflow)
        } else {
            match self.top() {
                ValueView::List(h) => match list_at(self.store, h as int) {
                    Some(items) => if items.len() <= i64::MAX {
                        self.popped().pushed(
                            ValueView::Number(Number::Integer(items.len() as i64)),
                        ).go()
                    } else {
                        self.popped().failed(EvalFault::Arithmetic)
                    },
                    None => self.popped().failed(EvalFault::TypeMismatch),
                },
                _ => self.popped().failed(EvalFault::TypeMismatch),
            }
        }
    }

    /// `stack-push!`: takes a value and a list, and appends the value to
    /// the list.
    pub open spec fn list_pushed(self) -> (VMView, SignalView) {
        if self.stack.reach() < 2 {
            self.failed(EvalFault::StackUnderflow)
        } else {
            let rest = self.popped().popped();
            match self.popped().top() {
                ValueView::List(h) => match list_at(self.store, h as int) {
                    Some(items) => rest.restored(h, ContainerView::List(items.push(self.top()))).go(),
                    None => rest.failed(EvalFault::TypeMismatch),
                },
                _ => rest.failed(EvalFault::TypeMismatch),
            }
        }
    }

    /// `stack-pop!`: takes a list, takes the last item off it and leaves
    /// that item. An empty list is a failure.
    pub open spec fn list_popped(self) -> (VMView, SignalView) {
        if self.stack.reach() < 1 {
            self.failed(EvalFault::StackUnderflow)
        } else {
            let rest = self.popped();
            match self.top() {
                ValueView::List(h) => match list_at(self.store, h as int) {
                    Some(items) => if items.len() > 0 {
                        rest.restored(h, ContainerView::List(items.drop_last())).pushed(
                            items.last(),
                        ).go()
                    } else {
                        rest.failed(EvalFault::EmptyCollection)
                    },
                    None => rest.failed(EvalFault::TypeMismatch),
                },
                _ => rest.failed(EvalFault::TypeMismatch),
            }
        }
    }

    /// `stack-ref`: takes an index and a list, and leaves the item at the
    /// index.
    pub open spec fn list_read(self) -> (VMView, SignalView) {
        if self.stack.reach() < 2 {
            self.failed(EvalFault::StackUnderflow)
        } else {
            let rest = self.popped().popped();
            match (self.popped().top(), self.top()) {
                (ValueView::List(h), ValueView::Number(Number::Integer(i))) => match list_at(
                    self.store,
                    h as int,
                ) {
                    Some(items) => if 0 <= i < items.len() {
                        rest.pushed(items[i as int]).go()
                    } else {
                        rest.failed(EvalFault::IndexOutOfBounds)
                    },
                    None => rest.failed(EvalFault::TypeMismatch),
                },
                _ => rest.failed(EvalFault::TypeMismatch),
            }
        }
    }

    /// `stack-set!`: takes a value, an index and a list, and puts the value
    /// at the index.
    pub open spec fn list_written(self) -> (VMView, SignalView) {
        if self.stack.reach() < 3 {
            self.failed(EvalFault::StackUnderflow)
        } else {
            let rest = self.popped().popped().popped();
            match (self.popped().popped().top(), self.popped().top()) {
                (ValueView::List(h), ValueView::Number(Number::Integer(i))) => match list_at(
                    self.store,
                    h as int,
                ) {
                    Some(items) => if 0 <= i < items.len() {
                        rest.restored(
                            h,
                            ContainerView::List(items.update(i as int, self.top())),
                        ).go()
                    } else {
                        rest.failed(EvalFault::IndexOutOfBounds)
                    },
                    None => rest.failed(EvalFault::TypeMismatch),
                },
                _ => rest.failed(EvalFault::TypeMismatch),
            }
        }
    }

    /// `hash-has?`: takes a key and a hash, and leaves whether the hash
    /// has the key. A hash takes a string as key, an integer-keyed hash an
    /// integer.
    pub open spec fn hash_asked(self) -> (VMView, SignalView) {
        if self.stack.reach() < 2 {
            self.failed(EvalFault::StackUnderflow)
        } else {
            let rest = self.popped().popped();
            match (self.popped().top(), self.top()) {
                (ValueView::Hash(h), ValueView::String(key)) => match hash_at(
                    self.store,
                    h as int,
                ) {
                    Some(entries) => rest.pushed(
                        ValueView::Boolean(entry_place(entries, key) is Some),
                    ).go(),
                    None => rest.failed(EvalFault::TypeMismatch),
                },
                (ValueView::IntHash(h), ValueView::Number(Number::Integer(key))) => match int_hash_at(
                    self.store,
                    h as int,
                ) {
                    Some(entries) => rest.pushed(
                        ValueView::Boolean(entry_place(entries, key) is Some),
                    ).go(),
                    None => rest.failed(EvalFault::TypeMismatch),
                },
                _ => rest.failed(EvalFault::TypeMismatch),
            }
        }
    }

    /// `hash-get`: takes a key and a hash, and leaves the value under the
    /// key. A key that the hash does not have is a failure.
    pub open spec fn hash_read(self) -> (VMView, SignalView) {
        if self.stack.reach() < 2 {
            self.failed(EvalFault::StackUnderflow)
        } else {
            let rest = self.popped().popped();
            match (self.popped().top(), self.top()) {
                (ValueView::Hash(h), ValueView::String(key)) => match hash_at(
                    self.store,
                    h as int,
                ) {
                    Some(entries) => match entry_place(entries, key) {
                        Some(i) => rest.pushed(entries[i].1).go(),
                        None => rest.failed(EvalFault::IndexOutOfBounds),
                    },
                    None => rest.failed(EvalFault::TypeMismatch),
                },
                (ValueView::IntHash(h), ValueView::Number(Number::Integer(key))) => match int_hash_at(
                    self.store,
                    h as int,
                ) {
                    Some(entries) => match entry_place(entries, key) {
                        Some(i) => rest.pushed(entries[i].1).go(),
                        None => rest.failed(EvalFault::IndexOutOfBounds),
                    },
                    None => rest.failed(EvalFault::TypeMismatch),
                },
                _ => rest.failed(EvalFault::TypeMismatch),
            }
        }
    }

    /// `hash-set!`: takes a value, a key and a hash, and puts the value
    /// under the key.
    pub open spec fn hash_written(self) -> (VMView, SignalView) {
        if self.stack.reach() < 3 {
            self.failed(EvalFault::StackUnderflow)
        } else {
            let rest = self.popped().popped().popped();
            match (self.popped().popped().top(), self.popped().top()) {
                (ValueView::Hash(h), ValueView::String(key)) => match hash_at(
                    self.store,
                    h as int,
                ) {
                    Some(entries) => rest.restored(
                        h,
                        ContainerView::Hash(entries_with(entries, key, self.top())),
                    ).go(),
                    None => rest.failed(EvalFault::TypeMismatch),
                },
                (ValueView::IntHash(h), ValueView::Number(Number::Integer(key))) => match int_hash_at(
                    self.store,
                    h as int,
                ) {
                    Some(entries) => rest.restored(
                        h,
                        ContainerView::IntHash(entries_with(entries, key, self.top())),
                    ).go(),
                    None => rest.failed(EvalFault::TypeMismatch),
                },
                _ => rest.failed(EvalFault::TypeMismatch),
            }
        }
    }

    /// What a built-in does.
    pub open spec fn built_in(self, builtin: Builtin) -> (VMView, SignalView) {
        match builtin {
            Builtin::Arithmetic(operator) => self.arithmetic(operator),
            Builtin::Compare(comparison) => self.comparison(comparison),
            Builtin::ToInt => self.conversion(NumberKind::Integer),
            Builtin::ToFloat => self.conversion(NumberKind::Float),
            Builtin::Apply => self.applied(),
            Builtin::Read => (self.scheduled(TaskView::Await(Expected::Line)), SignalView::Read),
            Builtin::Write => self.written(false),
            Builtin::Writeln => self.written(true),
            Builtin::Newline => (self, SignalView::Write(seq![FragmentView::Text("\n"@)])),
            Builtin::Loop => self.looped(false),
            Builtin::LoopToList => self.looped(true),
            Builtin::If => self.chosen(),
            Builtin::When => self.guarded(),
            Builtin::Cond => self.branched(),
            Builtin::MakeList => self.made(
                ContainerView::List(Seq::empty()),
                ValueView::List(self.store.len()),
            ),
            Builtin::ListSize => self.list_sized(),
            Builtin::ListPush => self.list_pushed(),
            Builtin::ListPop => self.list_popped(),
            Builtin::ListRef => self.list_read(),
            Builtin::ListSet => self.list_written(),
            Builtin::MakeHash => self.made(
                ContainerView::Hash(Seq::empty()),
                ValueView::Hash(self.store.len()),
            ),
            Builtin::MakeIntHash => self.made(
                ContainerView::IntHash(Seq::empty()),
                ValueView::IntHash(self.store.len()),
            ),
            Builtin::HashHas => self.hash_asked(),
            Builtin::HashGet => self.hash_read(),
            Builtin::HashSet => self.hash_written(),
        }
    }

    /// A name that is no built-in: the value that it stands for is
    /// invoked. The name is looked up now, at the call, not when the block
    /// around it was made.
    pub open spec fn looked_up(self, name: Seq<char>) -> (VMView, SignalView) {
        match self.stack.lookup(name) {
            Some(place) => self.invoked(self.stack.data[place]),
            None => self.failed(EvalFault::UnknownIdentifier(name)),
        }
    }

    /// `@`: a count is an annotation and does nothing; a name is given to
    /// the top value; a list of names is given to the top values.
    pub open spec fn at(self, inner: ExpressionView) -> (VMView, SignalView) {
        match inner {
            ExpressionView::Literal(ValueView::Number(Number::Integer(_))) => self.go(),
            ExpressionView::Identifier(name) => if self.stack.frames.len() > 0
                && self.stack.reach() > 0 {
                VMView { stack: self.stack.named(name), ..self }.go()
            } else {
                self.failed(EvalFault::StackUnderflow)
            },
            ExpressionView::List(items) => if !all_identifiers(items) {
                self.failed(EvalFault::Malformed)
            } else if self.stack.frames.len() > 0 && items.len() <= self.stack.reach() {
                VMView { stack: self.stack.named_many(identifier_names(items)), ..self }.go()
            } else {
                self.failed(EvalFault::StackUnderflow)
            },
            _ => self.failed(EvalFault::Malformed),
        }
    }

    /// `!`: a count is an annotation and does nothing; with a name, the
    /// top value is taken and put in the place that the name stands for. A
    /// name is never made by this.
    pub open spec fn bang(self, inner: ExpressionView) -> (VMView, SignalView) {
        match inner {
            ExpressionView::Literal(ValueView::Number(Number::Integer(_))) => self.go(),
            ExpressionView::Identifier(name) => if self.stack.reach() < 1 {
                self.failed(EvalFault::StackUnderflow)
            } else {
                match self.popped().stack.lookup(name) {
                    Some(place) => VMView {
                        stack: self.popped().stack.assigned(place, self.top()),
                        ..self
                    }.go(),
                    None => self.popped().failed(EvalFault::UnknownIdentifier(name)),
                }
            },
            _ => self.failed(EvalFault::Malformed),
        }
    }

    /// `$`: the value that a name stands for is pushed and not called,
    /// even if it is a block.
    pub open spec fn dollar(self, inner: ExpressionView) -> (VMView, SignalView) {
        match inner {
            ExpressionView::Identifier(name) => match self.stack.lookup(name) {
                Some(place) => self.pushed(self.stack.data[place]).go(),
                None => self.failed(EvalFault::UnknownIdentifier(name)),
            },
            _ => self.failed(EvalFault::Malformed),
        }
    }

    /// What the evaluation of an expression does.
    ///
    /// A literal is pushed. A block becomes a block value with the arity
    /// that the analysis gives it; it is not called. The children of a group
    /// are to be evaluated in order, in the current frame. The children of a
    /// list are to be evaluated in order, and what each leaves goes into a
    /// new list, which is pushed at the end.
    pub open spec fn evaluated(self, e: ExpressionView) -> (VMView, SignalView) {
        match e {
            ExpressionView::Identifier(id) => match builtin_named(id) {
                Some(builtin) => self.built_in(builtin),
                None => self.looked_up(id),
            },
            ExpressionView::DottedIdentifier(_) => self.failed(EvalFault::Malformed),
            ExpressionView::Literal(value) => self.pushed(value).go(),
            ExpressionView::Block(children) => match arity_of(e) {
                Ok((arity_in, arity_out)) => self.pushed(
                    ValueView::Block {
                        arity_in: arity_in,
                        arity_out: arity_out,
                        expression: Box::new(ExpressionView::Group(children)),
                    },
                ).go(),
                Err(fault) => self.failed(EvalFault::Derivation(fault)),
            },
            ExpressionView::List(children) => VMView {
                store: self.store.push(ContainerView::List(Seq::empty())),
                control: self.control.push(TaskView::Push(ValueView::List(self.store.len())))
                    + list_tasks(children, self.store.len()),
                ..self
            }.go(),
            ExpressionView::Group(children) => VMView {
                control: self.control + group_tasks(children),
                ..self
            }.go(),
            ExpressionView::At(inner) => self.at(*inner),
            ExpressionView::Bang(inner) => self.bang(*inner),
            ExpressionView::Dollar(inner) => self.dollar(*inner),
        }
    }

    /// Leaves the innermost frame with `arity` values.
    pub open spec fn left(self, arity: nat) -> (VMView, SignalView) {
        if self.stack.frames.len() > 0 && arity <= self.stack.reach() {
            VMView { stack: self.stack.contracted(arity), ..self }.go()
        } else {
            self.failed(EvalFault::StackUnderflow)
        }
    }

    /// Takes in the answer to the last signal: a number or a boolean is
    /// pushed, a line is pushed as a string without the newlines at its end.
    /// A refusal is a failure of the run, as is an answer of another kind
    /// than was asked for.
    pub open spec fn answered(self, expected: Expected, reply: ReplyView) -> (VMView, SignalView) {
        match (expected, reply) {
            (Expected::Number, ReplyView::Number(n)) => self.pushed(ValueView::Number(n)).go(),
            (Expected::Boolean, ReplyView::Boolean(b)) => self.pushed(ValueView::Boolean(b)).go(),
            (Expected::Line, ReplyView::Line(text)) => self.pushed(
                ValueView::String(without_trailing_newlines(text)),
            ).go(),
            (_, ReplyView::Refused) => self.failed(EvalFault::TypeMismatch),
            _ => self.failed(EvalFault::UnexpectedReply),
        }
    }

    /// The machine without its topmost task.
    pub open spec fn unscheduled(self) -> VMView {
        VMView { control: self.control.drop_last(), ..self }
    }

    /// One step: the topmost task is taken and carried out. Without a
    /// task the machine is done. The answer is read only by a task that
    /// waits for one.
    pub open spec fn stepped(self, reply: ReplyView) -> (VMView, SignalView) {
        if self.control.len() == 0 {
            (self, SignalView::Done)
        } else {
            match self.control.last() {
                TaskView::Eval(e) => self.unscheduled().evaluated(e),
                TaskView::Leave(arity) => self.unscheduled().left(arity),
                TaskView::Push(value) => self.unscheduled().pushed(value).go(),
                TaskView::Collect(handle) => self.unscheduled().collected(handle),
                TaskView::Iterate { block, source, sink } => self.unscheduled().iterated(
                    block,
                    source,
                    sink,
                ),
                TaskView::CondTest { list, index } => self.unscheduled().cond_tested(list, index),
                TaskView::CondDecide { list, index } => self.unscheduled().cond_decided(
                    list,
                    index,
                ),
                TaskView::Await(expected) => self.unscheduled().answered(expected, reply),
            }
        }
    }

    /// Up to `steps` steps, and at least one: the machine steps on for as
    /// long as a step says no more than that there is more to do.
    pub open spec fn ran(self, reply: ReplyView, steps: nat) -> (VMView, SignalView)
        decreases steps,
    {
        let (next, signal) = self.stepped(reply);
        if signal is Continue && steps > 1 {
            next.ran(ReplyView::Nothing, (steps - 1) as nat)
        } else {
            (next, signal)
        }
    }
}

/// Alias visibility: a list that is bound under two names is one list.
///
/// Let `first` and `second` stand for values that hold the same list.
/// The program `first item stack-push!` looks `first` up, pushes `item` and
/// appends it to the list. After that the stack is as it was before, so
/// `second` stands for the same value as before, and the list that this
/// value holds is the old list with `item` at its end.
pub proof fn lemma_alias_visibility(
    s: VMView,
    first: Seq<char>,
    second: Seq<char>,
    item: ValueView,
)
    requires
        s.stack.wf(),
        s.stack.lookup(first) is Some,
        s.stack.lookup(second) is Some,
        s.stack.data[s.stack.lookup(first)->0] is List,
        s.stack.data[s.stack.lookup(second)->0] == s.stack.data[s.stack.lookup(first)->0],
        list_at(s.store, s.stack.data[s.stack.lookup(first)->0]->List_0 as int) is Some,
    ensures
        ({
            let handle = s.stack.data[s.stack.lookup(first)->0]->List_0 as int;
            let before = list_at(s.store, handle)->0;
            let appended = s.looked_up(first).0.pushed(item).built_in(Builtin::ListPush);
            &&& s.looked_up(first).1 == SignalView::Continue
            &&& appended.1 == SignalView::Continue
            &&& appended.0.stack == s.stack
            &&& appended.0.looked_up(second).0.top() == s.stack.data[s.stack.lookup(second)->0]
            &&& list_at(appended.0.store, appended.0.looked_up(second).0.top()->List_0 as int)
                == Some(before.push(item))
        }),
{
    let list = s.stack.data[s.stack.lookup(first)->0];
    let found = s.looked_up(first).0;
    assert(found == s.pushed(list));
    let ready = found.pushed(item);
    assert(ready.stack.reach() >= 2);
    assert(ready.top() == item);
    assert(ready.popped().top() == list);
    let appended = ready.built_in(Builtin::ListPush);
    assert(ready.popped().popped().stack.data =~= s.stack.data);
    assert(appended.0.stack == s.stack);
}

/// A call keeps of what the block did only its declared outputs.
///
/// `before` is the machine when a block with `arity_in` inputs and
/// `arity_out` outputs is called, `inside` the machine when the frame of the
/// call is left: whatever the body has done, the frames around the call's
/// own and the values below its floor are those of the caller. After the
/// frame is left, the stack is the caller's stack with the block's inputs
/// replaced by the top `arity_out` values of the block, and the frames and
/// their names are the caller's again.
pub proof fn lemma_call_replaces_inputs_by_outputs(
    before: VMView,
    inside: VMView,
    arity_in: nat,
    arity_out: nat,
    body: ExpressionView,
)
    requires
        before.stack.wf(),
        inside.stack.wf(),
        arity_in <= before.stack.reach(),
        arity_out <= inside.stack.reach(),
        inside.stack.frames.len() == before.stack.frames.len() + 1,
        inside.stack.frames.drop_last() == before.stack.frames,
        inside.stack.floors == before.called(arity_in, arity_out, body).0.stack.floors,
        inside.stack.data.len() >= before.stack.data.len() - arity_in,
        inside.stack.data.take(before.stack.data.len() - arity_in) == before.stack.data.take(
            before.stack.data.len() - arity_in,
        ),
    ensures
        before.called(arity_in, arity_out, body).1 == SignalView::Continue,
        before.called(arity_in, arity_out, body).0.stack == before.stack.extended(arity_in),
        before.called(arity_in, arity_out, body).0.control == before.control.push(
            TaskView::Leave(arity_out),
        ).push(TaskView::Eval(body)),
        inside.left(arity_out).1 == SignalView::Continue,
        inside.left(arity_out).0.stack.frames == before.stack.frames,
        inside.left(arity_out).0.stack.floors == before.stack.floors,
        inside.left(arity_out).0.stack.data == before.stack.data.take(
            before.stack.data.len() - arity_in,
        ) + inside.stack.data.subrange(
            inside.stack.data.len() - arity_out,
            inside.stack.data.len() as int,
        ),
        inside.left(arity_out).0.stack.data.len() == before.stack.data.len() - arity_in
            + arity_out,
{
    let floor = before.stack.data.len() - arity_in;
    assert(inside.stack.floors.last() == floor);
    assert(inside.stack.floors.drop_last() =~= before.stack.floors);
    assert(inside.stack.data.take(floor) =~= before.stack.data.take(floor));
}

} // verus!
