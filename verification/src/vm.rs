//! The evaluator: a machine that is run step by step.
//!
//! Whoever runs it hands it an expression, then steps it. A step answers
//! with a signal: that there is more to do, that all is done, that the run
//! has failed, or what is to be done outside, such as writing a text or
//! adding two floats. The answer to such a signal goes in with the next
//! step.

use crate::arity::{calculate_arity, only_identifiers};
use crate::machine::{
    builtin_named, group_tasks, identifier_names, integer_comparison, integer_result, list_tasks,
    next_item, source_of, task_views, without_trailing_newlines, Builtin, Comparison, EvalError,
    Expected, Operator, Reply, ReplyView, Signal, SignalView, Source, Task, TaskView, VMView,
};
use crate::numbers::{Number, NumberKind};
use crate::parser::read_integer;
use crate::render::{fragment_views, Fragment, FragmentView};
use crate::stack::{Stack, StackView};
use crate::store::{ContainerView, Store};
use crate::text::{chars_of, same_text, string_from};
use crate::types::{
    expression_views, lemma_expression_views, string_views, Expression, Value, ValueView,
};
use vstd::prelude::*;

verus! {

/// The evaluator.
#[derive(Debug)]
pub struct VM {
    stack: Stack,
    store: Store,
    control: Vec<Task>,
}

impl View for VM {
    type V = VMView;

    closed spec fn view(&self) -> VMView {
        VMView { stack: self.stack@, store: self.store@, control: task_views(self.control@) }
    }
}

/// The built-in that an identifier names.
pub fn builtin_of(id: &str) -> (r: Option<Builtin>)
    ensures
        r == builtin_named(id@),
{
    if same_text(id, "+") {
        Some(Builtin::Arithmetic(Operator::Add))
    } else if same_text(id, "-") {
        Some(Builtin::Arithmetic(Operator::Subtract))
    } else if same_text(id, "*") {
        Some(Builtin::Arithmetic(Operator::Multiply))
    } else if same_text(id, "/") {
        Some(Builtin::Arithmetic(Operator::Divide))
    } else if same_text(id, "%") {
        Some(Builtin::Arithmetic(Operator::Remainder))
    } else if same_text(id, "<") {
        Some(Builtin::Compare(Comparison::Less))
    } else if same_text(id, "<=") {
        Some(Builtin::Compare(Comparison::LessOrEqual))
    } else if same_text(id, "=") || same_text(id, "==") {
        Some(Builtin::Compare(Comparison::Equal))
    } else if same_text(id, "!=") {
        Some(Builtin::Compare(Comparison::NotEqual))
    } else if same_text(id, ">=") {
        Some(Builtin::Compare(Comparison::GreaterOrEqual))
    } else if same_text(id, ">") {
        Some(Builtin::Compare(Comparison::Greater))
    } else if same_text(id, "to_int") {
        Some(Builtin::ToInt)
    } else if same_text(id, "to_float") {
        Some(Builtin::ToFloat)
    } else if same_text(id, "apply") {
        Some(Builtin::Apply)
    } else if same_text(id, "read") {
        Some(Builtin::Read)
    } else if same_text(id, "write") {
        Some(Builtin::Write)
    } else if same_text(id, "writeln") {
        Some(Builtin::Writeln)
    } else if same_text(id, "newline") {
        Some(Builtin::Newline)
    } else if same_text(id, "loop") {
        Some(Builtin::Loop)
    } else if same_text(id, "loop->list") || same_text(id, "generate-stack") {
        Some(Builtin::LoopToList)
    } else if same_text(id, "if") {
        Some(Builtin::If)
    } else if same_text(id, "when") {
        Some(Builtin::When)
    } else if same_text(id, "cond") {
        Some(Builtin::Cond)
    } else if same_text(id, "make-list") || same_text(id, "make-stack") {
        Some(Builtin::MakeList)
    } else if same_text(id, "stack-size") {
        Some(Builtin::ListSize)
    } else if same_text(id, "stack-push!") {
        Some(Builtin::ListPush)
    } else if same_text(id, "stack-pop!") {
        Some(Builtin::ListPop)
    } else if same_text(id, "stack-ref") {
        Some(Builtin::ListRef)
    } else if same_text(id, "stack-set!") {
        Some(Builtin::ListSet)
    } else if same_text(id, "make-hash") {
        Some(Builtin::MakeHash)
    } else if same_text(id, "make-int-hash") {
        Some(Builtin::MakeIntHash)
    } else if same_text(id, "hash-has?") {
        Some(Builtin::HashHas)
    } else if same_text(id, "hash-get") {
        Some(Builtin::HashGet)
    } else if same_text(id, "hash-set!") {
        Some(Builtin::HashSet)
    } else {
        None
    }
}

/// What an operator makes of two integers.
pub fn integer_operation(operator: Operator, a: i64, b: i64) -> (r: Option<i64>)
    ensures
        r == integer_result(operator, a, b),
{
    match operator {
        Operator::Add => Some(a.wrapping_add(b)),
        Operator::Subtract => Some(a.wrapping_sub(b)),
        Operator::Multiply => Some(a.wrapping_mul(b)),
        Operator::Divide => a.checked_div(b),
        Operator::Remainder => a.checked_rem(b),
    }
}

/// How two integers compare.
pub fn compare_integers(comparison: Comparison, a: i64, b: i64) -> (r: bool)
    ensures
        r == integer_comparison(comparison, a, b),
{
    match comparison {
        Comparison::Less => a < b,
        Comparison::LessOrEqual => a <= b,
        Comparison::Equal => a == b,
        Comparison::NotEqual => a != b,
        Comparison::GreaterOrEqual => a >= b,
        Comparison::Greater => a > b,
    }
}

/// A text without the newlines at its end.
pub fn trim_newlines(text: &str) -> (r: String)
    ensures
        r@ == without_trailing_newlines(text@),
{
    let chars = chars_of(text);
    let mut end: usize = chars.len();
    assert(chars@.take(end as int) =~= chars@);
    while end > 0 && chars[end - 1] == '\n'
        invariant
            end <= chars.len(),
            without_trailing_newlines(chars@) == without_trailing_newlines(
                chars@.take(end as int),
            ),
        decreases end,
    {
        assert(chars@.take(end as int).drop_last() =~= chars@.take(end - 1));
        end = end - 1;
    }
    assert(chars@.take(end as int) =~= chars@.subrange(0, end as int));
    proof {
        if end > 0 {
            assert(chars@.take(end as int).last() == chars@[end - 1]);
        }
    }
    string_from(&chars, 0, end)
}

/// What a loop runs over.
fn source_for(iterable: Value) -> (r: Option<Source>)
    ensures
        match r {
            Some(source) => source_of(iterable@) == Some(source@),
            None => source_of(iterable@) is None,
        },
{
    match iterable {
        Value::Number(Number::Integer(n)) => if n >= 0 {
            Some(Source::Count { current: 0, end: n })
        } else {
            None
        },
        Value::String(text) => Some(Source::Chars { text: chars_of(text.as_str()), next: 0 }),
        Value::List(h) => Some(Source::Items { list: h, next: 0 }),
        _ => None,
    }
}

/// The next item of a source, and the source behind it.
fn advance(source: Source, store: &Store) -> (r: Option<(Value, Source)>)
    ensures
        match r {
            Some((item, behind)) => next_item(source@, store@) == Some((item@, behind@)),
            None => next_item(source@, store@) is None,
        },
{
    match source {
        Source::Count { current, end } => if current < end {
            Some(
                (
                    Value::Number(Number::Integer(current)),
                    Source::Count { current: current + 1, end: end },
                ),
            )
        } else {
            None
        },
        Source::Chars { text, next } => if next < text.len() {
            let one = string_from(&text, next, next + 1);
            assert(one@ =~= seq![text@[next as int]]);
            Some((Value::String(one), Source::Chars { text: text, next: next + 1 }))
        } else {
            None
        },
        Source::Items { list, next } => match store.list_len(list) {
            Some(n) => if next < n {
                match store.list_get(list, next) {
                    Some(item) => Some((item, Source::Items { list: list, next: next + 1 })),
                    None => None,
                }
            } else {
                None
            },
            None => None,
        },
    }
}

/// The names that a row of identifiers holds.
fn names_of(items: &Vec<Expression>) -> (r: Vec<String>)
    requires
        crate::arity::all_identifiers(expression_views(items@)),
    ensures
        string_views(r@) == identifier_names(expression_views(items@)),
{
    proof {
        lemma_expression_views(items@);
    }
    let ghost views = expression_views(items@);
    let mut names: Vec<String> = Vec::new();
    let mut i: usize = 0;
    while i < items.len()
        invariant
            i <= items.len(),
            views == expression_views(items@),
            views.len() == items.len(),
            forall|j: int| 0 <= j < items.len() ==> #[trigger] views[j] == items@[j]@,
            crate::arity::all_identifiers(views),
            names.len() == i,
            forall|j: int| 0 <= j < i ==> #[trigger] names@[j]@ == views[j]->Identifier_0,
        decreases items.len() - i,
    {
        assert(views[i as int] is Identifier);
        match &items[i] {
            Expression::Identifier(name) => {
                names.push(name.clone());
            },
            _ => {
                names.push(String::new());
            },
        }
        i = i + 1;
    }
    assert(string_views(names@) =~= identifier_names(views));
    names
}

impl VM {
    /// The machine keeps to the shape that every step relies on.
    pub open spec fn wf(&self) -> bool {
        self@.stack.wf()
    }

    /// Creates a new VM: an empty stack with one open frame, an empty
    /// store, and nothing to do.
    pub fn new() -> (vm: VM)
        ensures
            vm.wf(),
            vm@ == (VMView {
                stack: StackView {
                    data: Seq::empty(),
                    floors: seq![0nat],
                    frames: seq![Map::<Seq<char>, nat>::empty()],
                },
                store: Seq::empty(),
                control: Seq::empty(),
            }),
    {
        let vm = VM { stack: Stack::new(), store: Store::new(), control: Vec::new() };
        assert(vm@.control =~= Seq::<TaskView>::empty());
        vm
    }

    /// The stack of the machine.
    pub fn stack(&self) -> (s: &Stack)
        ensures
            s@ == self@.stack,
            self.wf() ==> s.wf(),
    {
        &self.stack
    }

    /// The store of the machine.
    pub fn store(&self) -> (s: &Store)
        ensures
            s@ == self@.store,
    {
        &self.store
    }

    /// The number of tasks that are still to be done.
    pub fn pending(&self) -> (n: usize)
        ensures
            n == self@.control.len(),
    {
        self.control.len()
    }

    /// Sets the machine to evaluate an expression. Nothing is evaluated
    /// yet: the expression becomes the first task, and the steps do the work.
    pub fn evaluate(&mut self, ast: Expression)
        requires
            old(self).wf(),
        ensures
            final(self).wf(),
            final(self)@ == old(self)@.scheduled(TaskView::Eval(ast@)),
    {
        self.schedule(Task::Eval(ast));
    }

    fn schedule(&mut self, task: Task)
        requires
            old(self).wf(),
        ensures
            final(self).wf(),
            final(self)@ == old(self)@.scheduled(task@),
    {
        self.control.push(task);
        assert(self@.control =~= old(self)@.control.push(task@));
    }

    fn fail(&mut self, error: EvalError) -> (r: Signal)
        requires
            old(self).wf(),
        ensures
            final(self).wf(),
            final(self)@ == old(self)@.failed(error@).0,
            r@ == old(self)@.failed(error@).1,
    {
        self.control.clear();
        assert(self@.control =~= Seq::<TaskView>::empty());
        Signal::Failed(error)
    }

    fn take(&mut self) -> (v: Value)
        requires
            old(self).wf(),
            old(self)@.stack.reach() > 0,
        ensures
            final(self).wf(),
            final(self)@ == old(self)@.popped(),
            v@ == old(self)@.top(),
    {
        match self.stack.pop() {
            Some(v) => v,
            None => Value::Boolean(false),
        }
    }

    fn give(&mut self, value: Value)
        requires
            old(self).wf(),
        ensures
            final(self).wf(),
            final(self)@ == old(self)@.pushed(value@),
    {
        self.stack.push(value);
    }

    /// Evaluates a single block: opens a frame over its inputs and sets
    /// the machine to evaluate the body and then to leave the frame.
    fn evaluate_block(&mut self, arity_in: usize, expression: Expression, arity_out: usize) -> (r:
        Signal)
        requires
            old(self).wf(),
        ensures
            final(self).wf(),
            final(self)@ == old(self)@.called(arity_in as nat, arity_out as nat, expression@).0,
            r@ == old(self)@.called(arity_in as nat, arity_out as nat, expression@).1,
    {
        match self.stack.extend(arity_in) {
            Ok(()) => {
                self.schedule(Task::Leave(arity_out));
                self.schedule(Task::Eval(expression));
                Signal::Continue
            },
            Err(_) => self.fail(EvalError::StackUnderflow),
        }
    }

    fn invoke(&mut self, value: Value) -> (r: Signal)
        requires
            old(self).wf(),
        ensures
            final(self).wf(),
            final(self)@ == old(self)@.invoked(value@).0,
            r@ == old(self)@.invoked(value@).1,
    {
        match value {
            Value::Block { arity_in, arity_out, expression } => self.evaluate_block(
                arity_in,
                *expression,
                arity_out,
            ),
            other => {
                self.give(other);
                Signal::Continue
            },
        }
    }

    fn arithmetic(&mut self, operator: Operator) -> (r: Signal)
        requires
            old(self).wf(),
        ensures
            final(self).wf(),
            final(self)@ == old(self)@.arithmetic(operator).0,
            r@ == old(self)@.arithmetic(operator).1,
    {
        if self.stack.reach() < 2 {
            return self.fail(EvalError::StackUnderflow);
        }
        let right = self.take();
        let left = self.take();
        match (left, right) {
            (Value::Number(Number::Integer(a)), Value::Number(Number::Integer(b))) => {
                match integer_operation(operator, a, b) {
                    Some(result) => {
                        self.give(Value::Number(Number::Integer(result)));
                        Signal::Continue
                    },
                    None => self.fail(EvalError::Arithmetic),
                }
            },
            (Value::Number(x), Value::Number(y)) => {
                self.schedule(Task::Await(Expected::Number));
                Signal::Arithmetic { operator: operator, left: x, right: y }
            },
            _ => self.fail(EvalError::TypeMismatch),
        }
    }

    fn comparison(&mut self, comparison: Comparison) -> (r: Signal)
        requires
            old(self).wf(),
        ensures
            final(self).wf(),
            final(self)@ == old(self)@.comparison(comparison).0,
            r@ == old(self)@.comparison(comparison).1,
    {
        if self.stack.reach() < 2 {
            return self.fail(EvalError::StackUnderflow);
        }
        let right = self.take();
        let left = self.take();
        match (left, right) {
            (Value::Number(Number::Integer(a)), Value::Number(Number::Integer(b))) => {
                self.give(Value::Boolean(compare_integers(comparison, a, b)));
                Signal::Continue
            },
            (Value::Number(x), Value::Number(y)) => {
                self.schedule(Task::Await(Expected::Boolean));
                Signal::Compare { comparison: comparison, left: x, right: y }
            },
            _ => self.fail(EvalError::TypeMismatch),
        }
    }

    fn conversion(&mut self, target: NumberKind) -> (r: Signal)
        requires
            old(self).wf(),
            target == NumberKind::Integer || target == NumberKind::Float,
        ensures
            final(self).wf(),
            final(self)@ == old(self)@.conversion(target).0,
            r@ == old(self)@.conversion(target).1,
    {
        if self.stack.reach() < 1 {
            return self.fail(EvalError::StackUnderflow);
        }
        let value = self.take();
        match value {
            Value::String(text) => {
                match target {
                    NumberKind::Integer => {
                        let chars = chars_of(text.as_str());
                        match read_integer(&chars) {
                            Some(v) => {
                                self.give(Value::Number(Number::Integer(v)));
                                Signal::Continue
                            },
                            None => self.fail(EvalError::TypeMismatch),
                        }
                    },
                    _ => {
                        self.schedule(Task::Await(Expected::Number));
                        Signal::ParseFloat(text)
                    },
                }
            },
            Value::Number(n) => {
                let converted = match target {
                    NumberKind::Integer => n.to_integer(),
                    _ => n.to_float(),
                };
                match converted {
                    Some(m) => {
                        self.give(Value::Number(m));
                        Signal::Continue
                    },
                    None => {
                        self.schedule(Task::Await(Expected::Number));
                        Signal::Convert { target: target, value: n }
                    },
                }
            },
            _ => self.fail(EvalError::TypeMismatch),
        }
    }

    fn apply(&mut self) -> (r: Signal)
        requires
            old(self).wf(),
        ensures
            final(self).wf(),
            final(self)@ == old(self)@.applied().0,
            r@ == old(self)@.applied().1,
    {
        if self.stack.reach() < 1 {
            return self.fail(EvalError::StackUnderflow);
        }
        let block = self.take();
        match block {
            Value::Block { arity_in, arity_out, expression } => self.evaluate_block(
                arity_in,
                *expression,
                arity_out,
            ),
            _ => self.fail(EvalError::TypeMismatch),
        }
    }

    fn write(&mut self, newline: bool) -> (r: Signal)
        requires
            old(self).wf(),
        ensures
            final(self).wf(),
            final(self)@ == old(self)@.written(newline).0,
            r@ == old(self)@.written(newline).1,
    {
        if self.stack.reach() < 1 {
            return self.fail(EvalError::StackUnderflow);
        }
        let value = self.take();
        let mut fragments = value.to_fragments(&self.store);
        if newline {
            let ghost before = fragment_views(fragments@);
            fragments.push(Fragment::Text(String::from_str("\n")));
            assert(fragment_views(fragments@) =~= before.push(FragmentView::Text("\n"@)));
        }
        Signal::Write(fragments)
    }

    fn newline(&mut self) -> (r: Signal)
        ensures
            *final(self) == *old(self),
            r@ == SignalView::Write(seq![FragmentView::Text("\n"@)]),
    {
        let mut fragments: Vec<Fragment> = Vec::new();
        fragments.push(Fragment::Text(String::from_str("\n")));
        assert(fragment_views(fragments@) =~= seq![FragmentView::Text("\n"@)]);
        Signal::Write(fragments)
    }

    fn start_loop(&mut self, collect: bool) -> (r: Signal)
        requires
            old(self).wf(),
        ensures
            final(self).wf(),
            final(self)@ == old(self)@.looped(collect).0,
            r@ == old(self)@.looped(collect).1,
    {
        if self.stack.reach() < 2 {
            return self.fail(EvalError::StackUnderflow);
        }
        let iterable = self.take();
        let block = self.take();
        match source_for(iterable) {
            Some(source) => {
                if collect {
                    let handle = self.store.add_list();
                    self.schedule(Task::Push(Value::List(handle)));
                    self.schedule(
                        Task::Iterate { block: block, source: source, sink: Some(handle) },
                    );
                } else {
                    self.schedule(Task::Iterate { block: block, source: source, sink: None });
                }
                Signal::Continue
            },
            None => self.fail(EvalError::TypeMismatch),
        }
    }

    fn iterate(&mut self, block: Value, source: Source, sink: Option<usize>) -> (r: Signal)
        requires
            old(self).wf(),
        ensures
            final(self).wf(),
            final(self)@ == old(self)@.iterated(
                block@,
                source@,
                match sink {
                    Some(h) => Some(h as nat),
                    None => None,
                },
            ).0,
            r@ == old(self)@.iterated(
                block@,
                source@,
                match sink {
                    Some(h) => Some(h as nat),
                    None => None,
                },
            ).1,
    {
        match advance(source, &self.store) {
            None => Signal::Continue,
            Some((item, behind)) => {
                let again = block.clone();
                self.schedule(Task::Iterate { block: again, source: behind, sink: sink });
                match sink {
                    Some(h) => {
                        self.schedule(Task::Collect(h));
                    },
                    None => {},
                }
                self.give(item);
                match block {
                    Value::Block { arity_in, arity_out, expression } => self.evaluate_block(
                        arity_in,
                        *expression,
                        arity_out,
                    ),
                    _ => self.fail(EvalError::TypeMismatch),
                }
            },
        }
    }

    fn collect(&mut self, handle: usize) -> (r: Signal)
        requires
            old(self).wf(),
        ensures
            final(self).wf(),
            final(self)@ == old(self)@.collected(handle as nat).0,
            r@ == old(self)@.collected(handle as nat).1,
    {
        if self.stack.reach() < 1 {
            return self.fail(EvalError::StackUnderflow);
        }
        let value = self.take();
        if self.store.list_push(handle, value) {
            Signal::Continue
        } else {
            self.fail(EvalError::TypeMismatch)
        }
    }

    fn choose_branch(&mut self) -> (r: Signal)
        requires
            old(self).wf(),
        ensures
            final(self).wf(),
            final(self)@ == old(self)@.chosen().0,
            r@ == old(self)@.chosen().1,
    {
        if self.stack.reach() < 3 {
            return self.fail(EvalError::StackUnderflow);
        }
        let condition = self.take();
        let false_branch = self.take();
        let true_branch = self.take();
        match condition {
            Value::Boolean(value) => {
                if value {
                    self.invoke(true_branch)
                } else {
                    self.invoke(false_branch)
                }
            },
            _ => self.fail(EvalError::TypeMismatch),
        }
    }

    fn guard(&mut self) -> (r: Signal)
        requires
            old(self).wf(),
        ensures
            final(self).wf(),
            final(self)@ == old(self)@.guarded().0,
            r@ == old(self)@.guarded().1,
    {
        if self.stack.reach() < 2 {
            return self.fail(EvalError::StackUnderflow);
        }
        let condition = self.take();
        let branch = self.take();
        match condition {
            Value::Boolean(value) => {
                if value {
                    self.invoke(branch)
                } else {
                    Signal::Continue
                }
            },
            _ => self.fail(EvalError::TypeMismatch),
        }
    }

    fn branch(&mut self) -> (r: Signal)
        requires
            old(self).wf(),
        ensures
            final(self).wf(),
            final(self)@ == old(self)@.branched().0,
            r@ == old(self)@.branched().1,
    {
        if self.stack.reach() < 1 {
            return self.fail(EvalError::StackUnderflow);
        }
        let branches = self.take();
        match branches {
            Value::List(h) => {
                self.schedule(Task::CondTest { list: h, index: 0 });
                Signal::Continue
            },
            _ => self.fail(EvalError::TypeMismatch),
        }
    }

    fn cond_test(&mut self, list: usize, index: usize) -> (r: Signal)
        requires
            old(self).wf(),
        ensures
            final(self).wf(),
            final(self)@ == old(self)@.cond_tested(list as nat, index as nat).0,
            r@ == old(self)@.cond_tested(list as nat, index as nat).1,
    {
        match self.store.list_len(list) {
            None => self.fail(EvalError::TypeMismatch),
            Some(n) => {
                if index < n / 2 {
                    match self.store.list_get(list, 2 * index) {
                        Some(Value::Block { arity_in, arity_out, expression }) => {
                            self.schedule(Task::CondDecide { list: list, index: index });
                            self.evaluate_block(arity_in, *expression, arity_out)
                        },
                        _ => self.fail(EvalError::TypeMismatch),
                    }
                } else if n == 0 {
                    self.fail(EvalError::IndexOutOfBounds)
                } else {
                    match self.store.list_get(list, n - 1) {
                        Some(default) => self.invoke(default),
                        None => self.fail(EvalError::IndexOutOfBounds),
                    }
                }
            },
        }
    }

    fn cond_decide(&mut self, list: usize, index: usize) -> (r: Signal)
        requires
            old(self).wf(),
        ensures
            final(self).wf(),
            final(self)@ == old(self)@.cond_decided(list as nat, index as nat).0,
            r@ == old(self)@.cond_decided(list as nat, index as nat).1,
    {
        if self.stack.reach() < 1 {
            return self.fail(EvalError::StackUnderflow);
        }
        let result = self.take();
        match result {
            Value::Boolean(holds) => {
                if holds {
                    match self.store.list_len(list) {
                        Some(n) => {
                            if index < n / 2 {
                                match self.store.list_get(list, 2 * index + 1) {
                                    Some(value) => self.invoke(value),
                                    None => self.fail(EvalError::IndexOutOfBounds),
                                }
                            } else {
                                self.fail(EvalError::IndexOutOfBounds)
                            }
                        },
                        None => self.fail(EvalError::TypeMismatch),
                    }
                } else if index < usize::MAX {
                    self.schedule(Task::CondTest { list: list, index: index + 1 });
                    Signal::Continue
                } else {
                    self.fail(EvalError::IndexOutOfBounds)
                }
            },
            _ => self.fail(EvalError::TypeMismatch),
        }
    }

    fn make_list(&mut self) -> (r: Signal)
        requires
            old(self).wf(),
        ensures
            final(self).wf(),
            final(self)@ == old(self)@.made(
                ContainerView::List(Seq::empty()),
                ValueView::List(old(self)@.store.len()),
            ).0,
            r@ == SignalView::Continue,
    {
        let handle = self.store.add_list();
        self.give(Value::List(handle));
        Signal::Continue
    }

    fn make_hash(&mut self) -> (r: Signal)
        requires
            old(self).wf(),
        ensures
            final(self).wf(),
            final(self)@ == old(self)@.made(
                ContainerView::Hash(Seq::empty()),
                ValueView::Hash(old(self)@.store.len()),
            ).0,
            r@ == SignalView::Continue,
    {
        let handle = self.store.add_hash();
        self.give(Value::Hash(handle));
        Signal::Continue
    }

    fn make_int_hash(&mut self) -> (r: Signal)
        requires
            old(self).wf(),
        ensures
            final(self).wf(),
            final(self)@ == old(self)@.made(
                ContainerView::IntHash(Seq::empty()),
                ValueView::IntHash(old(self)@.store.len()),
            ).0,
            r@ == SignalView::Continue,
    {
        let handle = self.store.add_int_hash();
        self.give(Value::IntHash(handle));
        Signal::Continue
    }

    fn list_size(&mut self) -> (r: Signal)
        requires
            old(self).wf(),
        ensures
            final(self).wf(),
            final(self)@ == old(self)@.list_sized().0,
            r@ == old(self)@.list_sized().1,
    {
        if self.stack.reach() < 1 {
            return self.fail(EvalError::StackUnderflow);
        }
        let list = self.take();
        match list {
            Value::List(h) => match self.store.list_len(h) {
                Some(n) => {
                    if n as u64 <= 0x7fff_ffff_ffff_ffff {
                        self.give(Value::Number(Number::Integer(n as i64)));
                        Signal::Continue
                    } else {
                        self.fail(EvalError::Arithmetic)
                    }
                },
                None => self.fail(EvalError::TypeMismatch),
            },
            _ => self.fail(EvalError::TypeMismatch),
        }
    }

    fn list_push(&mut self) -> (r: Signal)
        requires
            old(self).wf(),
        ensures
            final(self).wf(),
            final(self)@ == old(self)@.list_pushed().0,
            r@ == old(self)@.list_pushed().1,
    {
        if self.stack.reach() < 2 {
            return self.fail(EvalError::StackUnderflow);
        }
        let value = self.take();
        let list = self.take();
        match list {
            Value::List(h) => {
                if self.store.list_push(h, value) {
                    Signal::Continue
                } else {
                    self.fail(EvalError::TypeMismatch)
                }
            },
            _ => self.fail(EvalError::TypeMismatch),
        }
    }

    fn list_pop(&mut self) -> (r: Signal)
        requires
            old(self).wf(),
        ensures
            final(self).wf(),
            final(self)@ == old(self)@.list_popped().0,
            r@ == old(self)@.list_popped().1,
    {
        if self.stack.reach() < 1 {
            return self.fail(EvalError::StackUnderflow);
        }
        let list = self.take();
        match list {
            Value::List(h) => match self.store.list_len(h) {
                Some(n) => {
                    if n > 0 {
                        match self.store.list_pop(h) {
                            Some(value) => {
                                self.give(value);
                                Signal::Continue
                            },
                            None => self.fail(EvalError::EmptyCollection),
                        }
                    } else {
                        self.fail(EvalError::EmptyCollection)
                    }
                },
                None => self.fail(EvalError::TypeMismatch),
            },
            _ => self.fail(EvalError::TypeMismatch),
        }
    }

    fn list_ref(&mut self) -> (r: Signal)
        requires
            old(self).wf(),
        ensures
            final(self).wf(),
            final(self)@ == old(self)@.list_read().0,
            r@ == old(self)@.list_read().1,
    {
        if self.stack.reach() < 2 {
            return self.fail(EvalError::StackUnderflow);
        }
        let index = self.take();
        let list = self.take();
        match (list, index) {
            (Value::List(h), Value::Number(Number::Integer(i))) => {
                match self.store.list_len(h) {
                    Some(n) => {
                        if i >= 0 && (i as u64) < (n as u64) {
                            match self.store.list_get(h, i as usize) {
                                Some(value) => {
                                    self.give(value);
                                    Signal::Continue
                                },
                                None => self.fail(EvalError::IndexOutOfBounds),
                            }
                        } else {
                            self.fail(EvalError::IndexOutOfBounds)
                        }
                    },
                    None => self.fail(EvalError::TypeMismatch),
                }
            },
            _ => self.fail(EvalError::TypeMismatch),
        }
    }

    fn list_set(&mut self) -> (r: Signal)
        requires
            old(self).wf(),
        ensures
            final(self).wf(),
            final(self)@ == old(self)@.list_written().0,
            r@ == old(self)@.list_written().1,
    {
        if self.stack.reach() < 3 {
            return self.fail(EvalError::StackUnderflow);
        }
        let value = self.take();
        let index = self.take();
        let list = self.take();
        match (list, index) {
            (Value::List(h), Value::Number(Number::Integer(i))) => {
                match self.store.list_len(h) {
                    Some(n) => {
                        if i >= 0 && (i as u64) < (n as u64) {
                            if self.store.list_set(h, i as usize, value) {
                                Signal::Continue
                            } else {
                                self.fail(EvalError::IndexOutOfBounds)
                            }
                        } else {
                            self.fail(EvalError::IndexOutOfBounds)
                        }
                    },
                    None => self.fail(EvalError::TypeMismatch),
                }
            },
            _ => self.fail(EvalError::TypeMismatch),
        }
    }

    fn hash_has(&mut self) -> (r: Signal)
        requires
            old(self).wf(),
        ensures
            final(self).wf(),
            final(self)@ == old(self)@.hash_asked().0,
            r@ == old(self)@.hash_asked().1,
    {
        if self.stack.reach() < 2 {
            return self.fail(EvalError::StackUnderflow);
        }
        let key = self.take();
        let hash = self.take();
        match (hash, key) {
            (Value::Hash(h), Value::String(text)) => match self.store.hash_has(h, &text) {
                Some(has) => {
                    self.give(Value::Boolean(has));
                    Signal::Continue
                },
                None => self.fail(EvalError::TypeMismatch),
            },
            (Value::IntHash(h), Value::Number(Number::Integer(number))) => {
                match self.store.int_hash_has(h, number) {
                    Some(has) => {
                        self.give(Value::Boolean(has));
                        Signal::Continue
                    },
                    None => self.fail(EvalError::TypeMismatch),
                }
            },
            _ => self.fail(EvalError::TypeMismatch),
        }
    }

    fn hash_get(&mut self) -> (r: Signal)
        requires
            old(self).wf(),
        ensures
            final(self).wf(),
            final(self)@ == old(self)@.hash_read().0,
            r@ == old(self)@.hash_read().1,
    {
        if self.stack.reach() < 2 {
            return self.fail(EvalError::StackUnderflow);
        }
        let key = self.take();
        let hash = self.take();
        match (hash, key) {
            (Value::Hash(h), Value::String(text)) => {
                if h >= self.store.len() {
                    return self.fail(EvalError::TypeMismatch);
                }
                match self.store.hash_has(h, &text) {
                    Some(_) => match self.store.hash_get(h, &text) {
                        Some(value) => {
                            self.give(value);
                            Signal::Continue
                        },
                        None => self.fail(EvalError::IndexOutOfBounds),
                    },
                    None => self.fail(EvalError::TypeMismatch),
                }
            },
            (Value::IntHash(h), Value::Number(Number::Integer(number))) => {
                match self.store.int_hash_has(h, number) {
                    Some(_) => match self.store.int_hash_get(h, number) {
                        Some(value) => {
                            self.give(value);
                            Signal::Continue
                        },
                        None => self.fail(EvalError::IndexOutOfBounds),
                    },
                    None => self.fail(EvalError::TypeMismatch),
                }
            },
            _ => self.fail(EvalError::TypeMismatch),
        }
    }

    fn hash_set(&mut self) -> (r: Signal)
        requires
            old(self).wf(),
        ensures
            final(self).wf(),
            final(self)@ == old(self)@.hash_written().0,
            r@ == old(self)@.hash_written().1,
    {
        if self.stack.reach() < 3 {
            return self.fail(EvalError::StackUnderflow);
        }
        let value = self.take();
        let key = self.take();
        let hash = self.take();
        match (hash, key) {
            (Value::Hash(h), Value::String(text)) => {
                if self.store.hash_set(h, text, value) {
                    Signal::Continue
                } else {
                    self.fail(EvalError::TypeMismatch)
                }
            },
            (Value::IntHash(h), Value::Number(Number::Integer(number))) => {
                if self.store.int_hash_set(h, number, value) {
                    Signal::Continue
                } else {
                    self.fail(EvalError::TypeMismatch)
                }
            },
            _ => self.fail(EvalError::TypeMismatch),
        }
    }

    fn built_in(&mut self, builtin: Builtin) -> (r: Signal)
        requires
            old(self).wf(),
        ensures
            final(self).wf(),
            final(self)@ == old(self)@.built_in(builtin).0,
            r@ == old(self)@.built_in(builtin).1,
    {
        match builtin {
            Builtin::Arithmetic(operator) => self.arithmetic(operator),
            Builtin::Compare(comparison) => self.comparison(comparison),
            Builtin::ToInt => self.conversion(NumberKind::Integer),
            Builtin::ToFloat => self.conversion(NumberKind::Float),
            Builtin::Apply => self.apply(),
            Builtin::Read => {
                self.schedule(Task::Await(Expected::Line));
                Signal::Read
            },
            Builtin::Write => self.write(false),
            Builtin::Writeln => self.write(true),
            Builtin::Newline => self.newline(),
            Builtin::Loop => self.start_loop(false),
            Builtin::LoopToList => self.start_loop(true),
            Builtin::If => self.choose_branch(),
            Builtin::When => self.guard(),
            Builtin::Cond => self.branch(),
            Builtin::MakeList => self.make_list(),
            Builtin::ListSize => self.list_size(),
            Builtin::ListPush => self.list_push(),
            Builtin::ListPop => self.list_pop(),
            Builtin::ListRef => self.list_ref(),
            Builtin::ListSet => self.list_set(),
            Builtin::MakeHash => self.make_hash(),
            Builtin::MakeIntHash => self.make_int_hash(),
            Builtin::HashHas => self.hash_has(),
            Builtin::HashGet => self.hash_get(),
            Builtin::HashSet => self.hash_set(),
        }
    }

    fn look_up(&mut self, name: String) -> (r: Signal)
        requires
            old(self).wf(),
        ensures
            final(self).wf(),
            final(self)@ == old(self)@.looked_up(name@).0,
            r@ == old(self)@.looked_up(name@).1,
    {
        match self.stack.get_named(name.clone()) {
            Some(value) => self.invoke(value),
            None => self.fail(EvalError::UnknownIdentifier(name)),
        }
    }

    fn at(&mut self, inner: Expression) -> (r: Signal)
        requires
            old(self).wf(),
        ensures
            final(self).wf(),
            final(self)@ == old(self)@.at(inner@).0,
            r@ == old(self)@.at(inner@).1,
    {
        proof {
            reveal_with_fuel(crate::types::expression_view, 2);
            reveal_with_fuel(crate::types::value_view, 2);
        }
        match inner {
            // Specifying input arity, ignore
            Expression::Literal(Value::Number(Number::Integer(_))) => Signal::Continue,
            // Naming the top of the stack
            Expression::Identifier(name) => match self.stack.name(name) {
                Ok(()) => Signal::Continue,
                Err(_) => self.fail(EvalError::StackUnderflow),
            },
            // Naming several values at once on top of the stack
            Expression::List(items) => {
                if !only_identifiers(&items) {
                    self.fail(EvalError::Malformed)
                } else {
                    proof {
                        lemma_expression_views(items@);
                    }
                    let names = names_of(&items);
                    assert(names.len() == items.len()) by {
                        assert(string_views(names@).len() == names.len());
                    }
                    match self.stack.name_many(names) {
                        Ok(()) => Signal::Continue,
                        Err(_) => self.fail(EvalError::StackUnderflow),
                    }
                }
            },
            _ => self.fail(EvalError::Malformed),
        }
    }

    fn bang(&mut self, inner: Expression) -> (r: Signal)
        requires
            old(self).wf(),
        ensures
            final(self).wf(),
            final(self)@ == old(self)@.bang(inner@).0,
            r@ == old(self)@.bang(inner@).1,
    {
        proof {
            reveal_with_fuel(crate::types::expression_view, 2);
            reveal_with_fuel(crate::types::value_view, 2);
        }
        match inner {
            // Output expression, ignore
            Expression::Literal(Value::Number(Number::Integer(_))) => Signal::Continue,
            // Write to a named variable
            Expression::Identifier(name) => {
                if self.stack.reach() < 1 {
                    return self.fail(EvalError::StackUnderflow);
                }
                let value = self.take();
                match self.stack.set_named(name.clone(), value) {
                    Ok(()) => Signal::Continue,
                    Err(_) => self.fail(EvalError::UnknownIdentifier(name)),
                }
            },
            _ => self.fail(EvalError::Malformed),
        }
    }

    fn dollar(&mut self, inner: Expression) -> (r: Signal)
        requires
            old(self).wf(),
        ensures
            final(self).wf(),
            final(self)@ == old(self)@.dollar(inner@).0,
            r@ == old(self)@.dollar(inner@).1,
    {
        match inner {
            // Push to the stack (don't evaluate)
            Expression::Identifier(name) => match self.stack.get_named(name.clone()) {
                Some(value) => {
                    self.give(value);
                    Signal::Continue
                },
                None => self.fail(EvalError::UnknownIdentifier(name)),
            },
            _ => self.fail(EvalError::Malformed),
        }
    }

    fn schedule_group(&mut self, children: Vec<Expression>)
        requires
            old(self).wf(),
        ensures
            final(self).wf(),
            final(self)@ == (VMView {
                control: old(self)@.control + group_tasks(expression_views(children@)),
                ..old(self)@
            }),
    {
        let ghost views = expression_views(children@);
        let ghost base = self@.control;
        let n: usize = children.len();
        let mut rest = children;
        proof {
            lemma_expression_views(children@);
            assert(base + group_tasks(views).take(0) =~= base);
        }
        while rest.len() > 0
            invariant
                self.wf(),
                rest.len() <= n,
                n == children.len(),
                views == expression_views(children@),
                views.len() == n,
                forall|j: int| 0 <= j < n ==> #[trigger] views[j] == children@[j]@,
                rest@ == children@.take(rest.len() as int),
                self@ == (VMView {
                    control: base + group_tasks(views).take(n - rest.len()),
                    ..old(self)@
                }),
            decreases rest.len(),
        {
            let ghost done = n - rest.len();
            let child = rest.pop().unwrap();
            assert(child@ == views[n - 1 - done]);
            self.schedule(Task::Eval(child));
            assert(self@.control =~= base + group_tasks(views).take(done + 1));
        }
        assert(group_tasks(views).take(n as int) =~= group_tasks(views));
    }

    fn schedule_list(&mut self, children: Vec<Expression>)
        requires
            old(self).wf(),
        ensures
            final(self).wf(),
            final(self)@ == (VMView {
                store: old(self)@.store.push(ContainerView::List(Seq::empty())),
                control: old(self)@.control.push(
                    TaskView::Push(ValueView::List(old(self)@.store.len())),
                ) + list_tasks(expression_views(children@), old(self)@.store.len()),
                ..old(self)@
            }),
    {
        let ghost views = expression_views(children@);
        let handle = self.store.add_list();
        self.schedule(Task::Push(Value::List(handle)));
        let ghost base = self@.control;
        let ghost tasks = list_tasks(views, handle as nat);
        let n: usize = children.len();
        let mut rest = children;
        proof {
            lemma_expression_views(children@);
            assert(base + tasks.take(0) =~= base);
        }
        while rest.len() > 0
            invariant
                self.wf(),
                rest.len() <= n,
                n == children.len(),
                views == expression_views(children@),
                views.len() == n,
                tasks == list_tasks(views, handle as nat),
                forall|j: int| 0 <= j < n ==> #[trigger] views[j] == children@[j]@,
                rest@ == children@.take(rest.len() as int),
                self@ == (VMView {
                    store: old(self)@.store.push(ContainerView::List(Seq::empty())),
                    control: base + tasks.take(2 * (n - rest.len())),
                    ..old(self)@
                }),
            decreases rest.len(),
        {
            let ghost done = n - rest.len();
            let child = rest.pop().unwrap();
            assert(child@ == views[n - 1 - done]);
            self.schedule(Task::Collect(handle));
            self.schedule(Task::Eval(child));
            assert(tasks[2 * done] == TaskView::Collect(handle as nat));
            assert(tasks[2 * done + 1] == TaskView::Eval(views[n - 1 - done]));
            assert(self@.control =~= base + tasks.take(2 * (done + 1)));
        }
        assert(tasks.take(2 * n) =~= tasks);
    }

    fn eval(&mut self, e: Expression) -> (r: Signal)
        requires
            old(self).wf(),
        ensures
            final(self).wf(),
            final(self)@ == old(self)@.evaluated(e@).0,
            r@ == old(self)@.evaluated(e@).1,
    {
        let derived = match &e {
            Expression::Block(_) => Some(calculate_arity(&e)),
            _ => None,
        };
        match e {
            Expression::Identifier(id) => match builtin_of(id.as_str()) {
                Some(builtin) => self.built_in(builtin),
                None => self.look_up(id),
            },
            Expression::DottedIdentifier(_) => self.fail(EvalError::Malformed),
            // Literal values are just pushed onto the stack
            Expression::Literal(value) => {
                self.give(value);
                Signal::Continue
            },
            // Blocks become block values, arity is calculated here
            Expression::Block(children) => match derived {
                Some(Ok((arity_in, arity_out))) => {
                    self.give(
                        Value::Block {
                            arity_in: arity_in,
                            arity_out: arity_out,
                            expression: Box::new(Expression::Group(children)),
                        },
                    );
                    Signal::Continue
                },
                Some(Err(error)) => self.fail(EvalError::Derivation(error)),
                None => self.fail(EvalError::Malformed),
            },
            // Lists are collected into a new shared list
            Expression::List(children) => {
                self.schedule_list(children);
                Signal::Continue
            },
            // Groups are just evaluated in order
            Expression::Group(children) => {
                self.schedule_group(children);
                Signal::Continue
            },
            Expression::At(inner) => self.at(*inner),
            Expression::Bang(inner) => self.bang(*inner),
            Expression::Dollar(inner) => self.dollar(*inner),
        }
    }

    fn leave(&mut self, arity: usize) -> (r: Signal)
        requires
            old(self).wf(),
        ensures
            final(self).wf(),
            final(self)@ == old(self)@.left(arity as nat).0,
            r@ == old(self)@.left(arity as nat).1,
    {
        match self.stack.contract(arity) {
            Ok(()) => Signal::Continue,
            Err(_) => self.fail(EvalError::StackUnderflow),
        }
    }

    fn answer(&mut self, expected: Expected, reply: Reply) -> (r: Signal)
        requires
            old(self).wf(),
        ensures
            final(self).wf(),
            final(self)@ == old(self)@.answered(expected, reply@).0,
            r@ == old(self)@.answered(expected, reply@).1,
    {
        match (expected, reply) {
            (Expected::Number, Reply::Number(n)) => {
                self.give(Value::Number(n));
                Signal::Continue
            },
            (Expected::Boolean, Reply::Boolean(b)) => {
                self.give(Value::Boolean(b));
                Signal::Continue
            },
            (Expected::Line, Reply::Line(text)) => {
                self.give(Value::String(trim_newlines(text.as_str())));
                Signal::Continue
            },
            (_, Reply::Refused) => self.fail(EvalError::TypeMismatch),
            _ => self.fail(EvalError::UnexpectedReply),
        }
    }

    /// Makes one step: takes the topmost task and carries it out.
    ///
    /// `reply` is the answer to the signal of the step before, where that
    /// signal asked for one. The state after the step and the signal are
    /// exactly what `stepped` says of the state before. The machine never
    /// panics: whatever goes wrong in the program comes out as `Failed`.
    pub fn step(&mut self, reply: Reply) -> (r: Signal)
        requires
            old(self).wf(),
        ensures
            final(self).wf(),
            final(self)@ == old(self)@.stepped(reply@).0,
            r@ == old(self)@.stepped(reply@).1,
    {
        match self.control.pop() {
            None => Signal::Done,
            Some(task) => {
                assert(self@ == old(self)@.unscheduled()) by {
                    assert(self@.control =~= old(self)@.control.drop_last());
                }
                assert(task@ == old(self)@.control.last());
                match task {
                    Task::Eval(e) => self.eval(e),
                    Task::Leave(arity) => self.leave(arity),
                    Task::Push(value) => {
                        self.give(value);
                        Signal::Continue
                    },
                    Task::Collect(handle) => self.collect(handle),
                    Task::Iterate { block, source, sink } => self.iterate(block, source, sink),
                    Task::CondTest { list, index } => self.cond_test(list, index),
                    Task::CondDecide { list, index } => self.cond_decide(list, index),
                    Task::Await(expected) => self.answer(expected, reply),
                }
            },
        }
    }

    /// Makes up to `steps` steps, and at least one, and stops at the
    /// first signal that says more than that there is more to do.
    pub fn run(&mut self, reply: Reply, steps: usize) -> (r: Signal)
        requires
            old(self).wf(),
        ensures
            final(self).wf(),
            final(self)@ == old(self)@.ran(reply@, steps as nat).0,
            r@ == old(self)@.ran(reply@, steps as nat).1,
    {
        let mut left: usize = steps;
        let mut signal = self.step(reply);
        while left > 1 && matches!(signal, Signal::Continue)
            invariant
                self.wf(),
                old(self)@.ran(reply@, steps as nat) == (if signal@ is Continue && left > 1 {
                    self@.ran(ReplyView::Nothing, (left - 1) as nat)
                } else {
                    (self@, signal@)
                }),
            decreases left,
        {
            left = left - 1;
            signal = self.step(Reply::Nothing);
        }
        signal
    }
}

} // verus!
