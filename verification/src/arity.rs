//! Arity analysis: how many values a block takes from the stack and how
//! many it leaves, from an annotation at its head or else from a walk over
//! its body.

use crate::numbers::Number;
use crate::text::same_text;
use crate::types::{Expression, ExpressionView, Value, ValueView};
use vstd::prelude::*;

verus! {

/// Why no arity could be derived.
#[derive(Clone, Copy, Debug, PartialEq, Eq, Structural)]
pub enum DerivationReason {
    /// A bare identifier that is no built-in operator.
    UnknownIdentifier,
    /// A dotted identifier.
    DottedIdentifier,
    /// A list is not callable.
    List,
    /// A group is not callable.
    Group,
    /// An `@` over something that is not an identifier.
    UnnamedAt,
    /// A `!` over something that is not an identifier.
    UnnamedBang,
    /// A `$` over something that is not an identifier.
    UnnamedDollar,
    /// An `@[..]` at the head of a block that holds something other than
    /// identifiers.
    NameListItem,
    /// An `@N` or `!N` at the head of a block with a negative `N`.
    NegativeCount,
    /// A count that the machine's integers cannot hold.
    Unrepresentable,
}

/// A failed derivation: the reason, and the sub-expression at fault.
#[derive(Debug, PartialEq, Eq)]
pub struct DerivationError {
    pub reason: DerivationReason,
    pub expression: Expression,
}

/// What a failed derivation holds.
pub struct DerivationFault {
    pub reason: DerivationReason,
    pub expression: ExpressionView,
}

impl View for DerivationError {
    type V = DerivationFault;

    open spec fn view(&self) -> DerivationFault {
        DerivationFault { reason: self.reason, expression: self.expression@ }
    }
}

/// The built-in binary operators: arithmetic and comparison.
pub open spec fn is_operator(id: Seq<char>) -> bool {
    ||| id == "+"@
    ||| id == "-"@
    ||| id == "*"@
    ||| id == "/"@
    ||| id == "%"@
    ||| id == "<"@
    ||| id == "<="@
    ||| id == "="@
    ||| id == "=="@
    ||| id == "!="@
    ||| id == ">="@
    ||| id == ">"@
}

/// What a count written as an integer literal declares: the count, or a
/// fault where it is negative or too large for the machine.
pub open spec fn declared_count(v: i64, at: ExpressionView) -> Result<nat, DerivationFault> {
    if v < 0 {
        Err(DerivationFault { reason: DerivationReason::NegativeCount, expression: at })
    } else if v > usize::MAX {
        Err(DerivationFault { reason: DerivationReason::Unrepresentable, expression: at })
    } else {
        Ok(v as nat)
    }
}

/// Whether every item of a list is an identifier.
pub open spec fn all_identifiers(items: Seq<ExpressionView>) -> bool {
    forall|i: int| 0 <= i < items.len() ==> #[trigger] items[i] is Identifier
}

/// What an `@` at the head of a block declares as the number of inputs:
/// `N` for an integer literal, 1 for a name, the length for a list of
/// names. A list that holds anything but names is a fault; any other body
/// declares nothing.
pub open spec fn declared_inputs(at: ExpressionView) -> Option<Result<nat, DerivationFault>>
    recommends
        at is At,
{
    match *at->At_0 {
        ExpressionView::Literal(ValueView::Number(Number::Integer(v))) => Some(
            declared_count(v, at),
        ),
        ExpressionView::Identifier(_) => Some(Ok(1)),
        ExpressionView::List(items) => if all_identifiers(items) {
            Some(Ok(items.len()))
        } else {
            Some(Err(DerivationFault { reason: DerivationReason::NameListItem, expression: at }))
        },
        _ => None,
    }
}

/// What a `!` at the head of a block declares as the number of outputs:
/// `M` for an integer literal; any other body declares nothing.
pub open spec fn declared_outputs(bang: ExpressionView) -> Option<Result<nat, DerivationFault>>
    recommends
        bang is Bang,
{
    match *bang->Bang_0 {
        ExpressionView::Literal(ValueView::Number(Number::Integer(v))) => Some(
            declared_count(v, bang),
        ),
        _ => None,
    }
}

/// Puts the two declarations of a head together. Where neither declares
/// anything there is no annotation. A fault in the inputs comes before one
/// in the outputs. An undeclared side defaults to no input and one output.
pub open spec fn combined(
    inputs: Option<Result<nat, DerivationFault>>,
    outputs: Option<Result<nat, DerivationFault>>,
) -> Option<Result<(nat, nat), DerivationFault>> {
    match (inputs, outputs) {
        (None, None) => None,
        (Some(Err(f)), _) => Some(Err(f)),
        (_, Some(Err(f))) => Some(Err(f)),
        (Some(Ok(i)), Some(Ok(o))) => Some(Ok((i, o))),
        (Some(Ok(i)), None) => Some(Ok((i, 1))),
        (None, Some(Ok(o))) => Some(Ok((0, o))),
    }
}

/// The annotation at the head of a block body, if it has one: an `@` first
/// and perhaps a `!` second, or a `!` first and perhaps an `@` second.
pub open spec fn annotation(children: Seq<ExpressionView>) -> Option<
    Result<(nat, nat), DerivationFault>,
> {
    if children.len() > 0 && children[0] is At {
        combined(
            declared_inputs(children[0]),
            if children.len() > 1 && children[1] is Bang {
                declared_outputs(children[1])
            } else {
                None
            },
        )
    } else if children.len() > 0 && children[0] is Bang {
        combined(
            if children.len() > 1 && children[1] is At {
                declared_inputs(children[1])
            } else {
                None
            },
            declared_outputs(children[0]),
        )
    } else {
        None
    }
}

/// The arity of an expression: the number of values it takes and the
/// number it leaves, or the fault that stands in the way.
///
/// An operator takes two and leaves one, a literal leaves one, a named
/// `@` or `$` leaves one and a named `!` takes one. A block has what the
/// annotation at its head declares; without one, it takes as many as the
/// walk over its body ever reaches below its start, and leaves one.
pub open spec fn arity_of(e: ExpressionView) -> Result<(nat, nat), DerivationFault>
    decreases e, 0nat,
{
    match e {
        ExpressionView::Identifier(id) => if is_operator(id) {
            Ok((2, 1))
        } else {
            Err(DerivationFault { reason: DerivationReason::UnknownIdentifier, expression: e })
        },
        ExpressionView::DottedIdentifier(_) => Err(
            DerivationFault { reason: DerivationReason::DottedIdentifier, expression: e },
        ),
        ExpressionView::Literal(_) => Ok((0, 1)),
        ExpressionView::Block(children) => match annotation(children) {
            Some(declared) => declared,
            None => match depth_trace(children, children.len(), e) {
                Err(f) => Err(f),
                Ok((_, lowest)) => if -lowest > usize::MAX {
                    Err(DerivationFault { reason: DerivationReason::Unrepresentable, expression: e })
                } else {
                    Ok(((-lowest) as nat, 1))
                },
            },
        },
        ExpressionView::List(_) => Err(
            DerivationFault { reason: DerivationReason::List, expression: e },
        ),
        ExpressionView::Group(_) => Err(
            DerivationFault { reason: DerivationReason::Group, expression: e },
        ),
        ExpressionView::At(body) => if *body is Identifier {
            Ok((0, 1))
        } else {
            Err(DerivationFault { reason: DerivationReason::UnnamedAt, expression: e })
        },
        ExpressionView::Bang(body) => if *body is Identifier {
            Ok((1, 0))
        } else {
            Err(DerivationFault { reason: DerivationReason::UnnamedBang, expression: e })
        },
        ExpressionView::Dollar(body) => if *body is Identifier {
            Ok((0, 1))
        } else {
            Err(DerivationFault { reason: DerivationReason::UnnamedDollar, expression: e })
        },
    }
}

/// The walk over the first `k` children of a block body: the stack depth
/// after them, counted from the block's start, and the lowest depth that
/// was reached on the way (never above zero). Each child first takes its
/// inputs, which is where the depth is lowest, then leaves its outputs.
///
/// The first child without an arity stops the walk with its fault. The
/// walk also stops, with a fault on the block `whole`, where a depth leaves
/// the range of a 128-bit integer.
pub open spec fn depth_trace(children: Seq<ExpressionView>, k: nat, whole: ExpressionView) -> Result<
    (int, int),
    DerivationFault,
>
    decreases children, k,
{
    if k == 0 || k > children.len() {
        Ok((0, 0))
    } else {
        match depth_trace(children, (k - 1) as nat, whole) {
            Err(f) => Err(f),
            Ok((depth, lowest)) => match arity_of(children[k - 1]) {
                Err(f) => Err(f),
                Ok((takes, leaves)) => if depth - takes < i128::MIN || depth - takes + leaves
                    > i128::MAX {
                    Err(
                        DerivationFault {
                            reason: DerivationReason::Unrepresentable,
                            expression: whole,
                        },
                    )
                } else {
                    Ok(
                        (
                            depth - takes + leaves,
                            if depth - takes < lowest {
                                depth - takes
                            } else {
                                lowest
                            },
                        ),
                    )
                },
            },
        }
    }
}

/// Whether `r` is what the analysis of `e` gives.
pub open spec fn is_arity_of(
    e: ExpressionView,
    r: Result<(usize, usize), DerivationError>,
) -> bool {
    match r {
        Ok((takes, leaves)) => arity_of(e) == Ok::<(nat, nat), DerivationFault>(
            (takes as nat, leaves as nat),
        ),
        Err(error) => arity_of(e) == Err::<(nat, nat), DerivationFault>(error@),
    }
}

/// Deriving the arity of one expression twice gives the same result: the
/// same pair of counts, or the same fault.
pub proof fn lemma_arity_deterministic(
    e: ExpressionView,
    first: Result<(usize, usize), DerivationError>,
    second: Result<(usize, usize), DerivationError>,
)
    requires
        is_arity_of(e, first),
        is_arity_of(e, second),
    ensures
        first is Ok <==> second is Ok,
        first is Ok ==> first->Ok_0 == second->Ok_0,
        first is Err ==> first->Err_0@ == second->Err_0@,
{
}

/// A block without an annotation leaves exactly one value, whatever its
/// body does.
pub proof fn lemma_implicit_block_leaves_one(children: Seq<ExpressionView>)
    requires
        annotation(children) is None,
        arity_of(ExpressionView::Block(children)) is Ok,
    ensures
        arity_of(ExpressionView::Block(children))->Ok_0.1 == 1,
{
}

fn is_operator_name(id: &str) -> (r: bool)
    ensures
        r == is_operator(id@),
{
    same_text(id, "+") || same_text(id, "-") || same_text(id, "*") || same_text(id, "/")
        || same_text(id, "%") || same_text(id, "<") || same_text(id, "<=") || same_text(id, "=")
        || same_text(id, "==") || same_text(id, "!=") || same_text(id, ">=") || same_text(
        id,
        ">",
    )
}

fn fault(reason: DerivationReason, at: &Expression) -> (r: DerivationError)
    ensures
        r@ == (DerivationFault { reason: reason, expression: at@ }),
{
    DerivationError { reason: reason, expression: at.clone() }
}

fn count_of(v: i64, at: &Expression) -> (r: Result<usize, DerivationError>)
    ensures
        match r {
            Ok(n) => declared_count(v, at@) == Ok::<nat, DerivationFault>(n as nat),
            Err(e) => declared_count(v, at@) == Err::<nat, DerivationFault>(e@),
        },
{
    if v < 0 {
        Err(fault(DerivationReason::NegativeCount, at))
    } else if v as u64 > usize::MAX as u64 {
        Err(fault(DerivationReason::Unrepresentable, at))
    } else {
        Ok(v as usize)
    }
}

/// Whether every item of a list is an identifier.
pub(crate) fn only_identifiers(items: &Vec<Expression>) -> (r: bool)
    ensures
        r == all_identifiers(crate::types::expression_views(items@)),
{
    proof {
        crate::types::lemma_expression_views(items@);
    }
    let mut i: usize = 0;
    while i < items.len()
        invariant
            i <= items.len(),
            crate::types::expression_views(items@).len() == items.len(),
            forall|j: int|
                0 <= j < items.len() ==> #[trigger] crate::types::expression_views(items@)[j]
                    == items@[j]@,
            forall|j: int|
                0 <= j < i ==> #[trigger] crate::types::expression_views(items@)[j] is Identifier,
        decreases items.len() - i,
    {
        match &items[i] {
            Expression::Identifier(_) => {},
            _ => {
                assert(!(crate::types::expression_views(items@)[i as int] is Identifier));
                return false;
            },
        }
        i = i + 1;
    }
    true
}

fn inputs_of(at: &Expression) -> (r: Option<Result<usize, DerivationError>>)
    requires
        at is At,
    ensures
        match r {
            None => declared_inputs(at@) is None,
            Some(Ok(n)) => declared_inputs(at@) == Some(Ok::<nat, DerivationFault>(n as nat)),
            Some(Err(e)) => declared_inputs(at@) == Some(Err::<nat, DerivationFault>(e@)),
        },
{
    proof {
        reveal_with_fuel(crate::types::expression_view, 3);
        reveal_with_fuel(crate::types::value_view, 2);
    }
    match at {
        Expression::At(body) => match &**body {
            Expression::Literal(Value::Number(Number::Integer(v))) => Some(count_of(*v, at)),
            Expression::Identifier(_) => Some(Ok(1)),
            Expression::List(items) => {
                proof {
                    crate::types::lemma_expression_views(items@);
                }
                if only_identifiers(items) {
                    Some(Ok(items.len()))
                } else {
                    Some(Err(fault(DerivationReason::NameListItem, at)))
                }
            },
            _ => None,
        },
        _ => None,
    }
}

fn outputs_of(bang: &Expression) -> (r: Option<Result<usize, DerivationError>>)
    requires
        bang is Bang,
    ensures
        match r {
            None => declared_outputs(bang@) is None,
            Some(Ok(n)) => declared_outputs(bang@) == Some(Ok::<nat, DerivationFault>(n as nat)),
            Some(Err(e)) => declared_outputs(bang@) == Some(Err::<nat, DerivationFault>(e@)),
        },
{
    proof {
        reveal_with_fuel(crate::types::expression_view, 3);
        reveal_with_fuel(crate::types::value_view, 2);
    }
    match bang {
        Expression::Bang(body) => match &**body {
            Expression::Literal(Value::Number(Number::Integer(v))) => Some(count_of(*v, bang)),
            _ => None,
        },
        _ => None,
    }
}

fn combine(
    inputs: Option<Result<usize, DerivationError>>,
    outputs: Option<Result<usize, DerivationError>>,
    Ghost(i): Ghost<Option<Result<nat, DerivationFault>>>,
    Ghost(o): Ghost<Option<Result<nat, DerivationFault>>>,
) -> (r: Option<Result<(usize, usize), DerivationError>>)
    requires
        match inputs {
            None => i is None,
            Some(Ok(n)) => i == Some(Ok::<nat, DerivationFault>(n as nat)),
            Some(Err(e)) => i == Some(Err::<nat, DerivationFault>(e@)),
        },
        match outputs {
            None => o is None,
            Some(Ok(n)) => o == Some(Ok::<nat, DerivationFault>(n as nat)),
            Some(Err(e)) => o == Some(Err::<nat, DerivationFault>(e@)),
        },
    ensures
        match r {
            None => combined(i, o) is None,
            Some(Ok((a, b))) => combined(i, o) == Some(
                Ok::<(nat, nat), DerivationFault>((a as nat, b as nat)),
            ),
            Some(Err(e)) => combined(i, o) == Some(Err::<(nat, nat), DerivationFault>(e@)),
        },
{
    match (inputs, outputs) {
        (None, None) => None,
        (Some(Err(f)), _) => Some(Err(f)),
        (_, Some(Err(f))) => Some(Err(f)),
        (Some(Ok(a)), Some(Ok(b))) => Some(Ok((a, b))),
        (Some(Ok(a)), None) => Some(Ok((a, 1))),
        (None, Some(Ok(b))) => Some(Ok((0, b))),
    }
}

fn annotation_of(children: &Vec<Expression>) -> (r: Option<
    Result<(usize, usize), DerivationError>,
>)
    ensures
        match r {
            None => annotation(crate::types::expression_views(children@)) is None,
            Some(Ok((a, b))) => annotation(crate::types::expression_views(children@)) == Some(
                Ok::<(nat, nat), DerivationFault>((a as nat, b as nat)),
            ),
            Some(Err(e)) => annotation(crate::types::expression_views(children@)) == Some(
                Err::<(nat, nat), DerivationFault>(e@),
            ),
        },
{
    proof {
        crate::types::lemma_expression_views(children@);
    }
    let ghost views = crate::types::expression_views(children@);
    if children.len() == 0 {
        return None;
    }
    assert(views[0] == children@[0]@);
    match &children[0] {
        Expression::At(_) => {
            let inputs = inputs_of(&children[0]);
            if children.len() > 1 {
                assert(views[1] == children@[1]@);
                match &children[1] {
                    Expression::Bang(_) => {
                        let outputs = outputs_of(&children[1]);
                        combine(
                            inputs,
                            outputs,
                            Ghost(declared_inputs(views[0])),
                            Ghost(declared_outputs(views[1])),
                        )
                    },
                    _ => combine(inputs, None, Ghost(declared_inputs(views[0])), Ghost(None)),
                }
            } else {
                combine(inputs, None, Ghost(declared_inputs(views[0])), Ghost(None))
            }
        },
        Expression::Bang(_) => {
            let outputs = outputs_of(&children[0]);
            if children.len() > 1 {
                assert(views[1] == children@[1]@);
                match &children[1] {
                    Expression::At(_) => {
                        let inputs = inputs_of(&children[1]);
                        combine(
                            inputs,
                            outputs,
                            Ghost(declared_inputs(views[1])),
                            Ghost(declared_outputs(views[0])),
                        )
                    },
                    _ => combine(None, outputs, Ghost(None), Ghost(declared_outputs(views[0]))),
                }
            } else {
                combine(None, outputs, Ghost(None), Ghost(declared_outputs(views[0])))
            }
        },
        _ => None,
    }
}

/// Derives the arity of an expression: how many values it takes from the
/// stack and how many it leaves there.
///
/// The result is exactly `arity_of` of the expression: the two counts where
/// it has an arity, and otherwise the fault, which names the reason and
/// holds the sub-expression that has no arity.
pub fn calculate_arity(expression: &Expression) -> (r: Result<(usize, usize), DerivationError>)
    ensures
        is_arity_of(expression@, r),
    decreases expression,
{
    proof {
        reveal_with_fuel(crate::types::expression_view, 2);
    }
    match expression {
        Expression::Identifier(id) => {
            if is_operator_name(id.as_str()) {
                Ok((2, 1))
            } else {
                Err(fault(DerivationReason::UnknownIdentifier, expression))
            }
        },
        Expression::DottedIdentifier(_) => Err(
            fault(DerivationReason::DottedIdentifier, expression),
        ),
        Expression::Literal(_) => Ok((0, 1)),
        Expression::Block(children) => {
            match annotation_of(children) {
                Some(declared) => declared,
                None => {
                    let ghost views = crate::types::expression_views(children@);
                    proof {
                        crate::types::lemma_expression_views(children@);
                    }
                    let mut depth: i128 = 0;
                    let mut lowest: i128 = 0;
                    let mut i: usize = 0;
                    while i < children.len()
                        invariant
                            i <= children.len(),
                            views == crate::types::expression_views(children@),
                            views.len() == children.len(),
                            forall|j: int|
                                0 <= j < children.len() ==> #[trigger] views[j] == children@[j]@,
                            expression@ == ExpressionView::Block(views),
                            *expression == Expression::Block(*children),
                            annotation(views) is None,
                            depth_trace(views, i as nat, expression@) == Ok::<
                                (int, int),
                                DerivationFault,
                            >((depth as int, lowest as int)),
                            lowest <= 0,
                        decreases children.len() - i,
                    {
                        assert(views[i as int] == children@[i as int]@);
                        let child = calculate_arity(&children[i]);
                        match child {
                            Err(e) => {
                                proof {
                                    assert(depth_trace(views, (i + 1) as nat, expression@) is Err);
                                    lemma_trace_fault_stays(
                                        views,
                                        (i + 1) as nat,
                                        children.len() as nat,
                                        expression@,
                                    );
                                }
                                return Err(e);
                            },
                            Ok((takes, leaves)) => {
                                let low: Option<i128> = depth.checked_sub(takes as i128);
                                let next: Option<i128> = match low {
                                    Some(d) => d.checked_add(leaves as i128),
                                    None => None,
                                };
                                match (low, next) {
                                    (Some(d), Some(n)) => {
                                        depth = n;
                                        if d < lowest {
                                            lowest = d;
                                        }
                                    },
                                    _ => {
                                        proof {
                                            assert(depth_trace(
                                                views,
                                                (i + 1) as nat,
                                                expression@,
                                            ) is Err);
                                            lemma_trace_fault_stays(
                                                views,
                                                (i + 1) as nat,
                                                children.len() as nat,
                                                expression@,
                                            );
                                        }
                                        return Err(
                                            fault(DerivationReason::Unrepresentable, expression),
                                        );
                                    },
                                }
                            },
                        }
                        i = i + 1;
                    }
                    if lowest < -(usize::MAX as i128) {
                        Err(fault(DerivationReason::Unrepresentable, expression))
                    } else {
                        Ok(((-lowest) as usize, 1))
                    }
                },
            }
        },
        Expression::List(_) => Err(fault(DerivationReason::List, expression)),
        Expression::Group(_) => Err(fault(DerivationReason::Group, expression)),
        Expression::At(body) => match &**body {
            Expression::Identifier(_) => Ok((0, 1)),
            _ => Err(fault(DerivationReason::UnnamedAt, expression)),
        },
        Expression::Bang(body) => match &**body {
            Expression::Identifier(_) => Ok((1, 0)),
            _ => Err(fault(DerivationReason::UnnamedBang, expression)),
        },
        Expression::Dollar(body) => match &**body {
            Expression::Identifier(_) => Ok((0, 1)),
            _ => Err(fault(DerivationReason::UnnamedDollar, expression)),
        },
    }
}

/// Once the walk has stopped with a fault, it keeps that fault however
/// many more children are walked.
proof fn lemma_trace_fault_stays(
    children: Seq<ExpressionView>,
    k: nat,
    n: nat,
    whole: ExpressionView,
)
    requires
        1 <= k <= n <= children.len(),
        depth_trace(children, k, whole) is Err,
    ensures
        depth_trace(children, n, whole) == depth_trace(children, k, whole),
    decreases n - k,
{
    if k < n {
        lemma_trace_fault_stays(children, k, (n - 1) as nat, whole);
    }
}

} // verus!
