//! The text of numbers, values and expressions.
//!
//! Writing a float in decimal takes floating-point arithmetic, which is
//! not done here. So a text is a row of fragments: a float stays a fragment
//! of its own, to be written out by whoever prints the text.

use crate::numbers::Number;
use crate::parser::{trim_quotes, without_quotes};
use crate::store::{Container, ContainerView, Store};
use crate::text::{
    chars_of, decimal, push_decimal, push_signed_decimal, push_str, signed_decimal, string_of,
};
use crate::types::{Expression, ExpressionView, Value, ValueView};
use vstd::prelude::*;

verus! {

/// A piece of text: characters, or a number that is still to be written
/// in decimal.
#[derive(Debug, PartialEq, Eq)]
pub enum Fragment {
    Text(String),
    /// A float, by its bit pattern.
    Float(u64),
    /// A complex number, by the bit patterns of its parts. It is written as
    /// the real part, then the imaginary part with its sign (a `+` where it
    /// is not negative), then `i`.
    Complex { real: u64, imaginary: u64 },
}

/// What a fragment holds.
pub enum FragmentView {
    Text(Seq<char>),
    Float(u64),
    Complex { real: u64, imaginary: u64 },
}

impl View for Fragment {
    type V = FragmentView;

    open spec fn view(&self) -> FragmentView {
        match self {
            Fragment::Text(t) => FragmentView::Text(t@),
            Fragment::Float(b) => FragmentView::Float(*b),
            Fragment::Complex { real: re, imaginary: im } => FragmentView::Complex {
                real: *re,
                imaginary: *im,
            },
        }
    }
}

/// The views of a row of fragments.
pub open spec fn fragment_views(fragments: Seq<Fragment>) -> Seq<FragmentView> {
    Seq::new(fragments.len(), |i: int| fragments[i]@)
}

/// The text of a number: an integer in decimal, a rational as
/// `numerator/denominator`; a float or complex number is left to be written.
pub open spec fn number_fragment(n: Number) -> FragmentView {
    match n {
        Number::Integer(v) => FragmentView::Text(signed_decimal(v as int)),
        Number::Rational { numerator, denominator } => FragmentView::Text(
            signed_decimal(numerator as int) + seq!['/'] + decimal(denominator as nat),
        ),
        Number::Float(bits) => FragmentView::Float(bits),
        Number::Complex { real: re, imaginary: im } => FragmentView::Complex {
            real: re,
            imaginary: im,
        },
    }
}

/// The text of a block value: its two counts, as `{in->out}`.
pub open spec fn block_text(arity_in: nat, arity_out: nat) -> Seq<char> {
    seq!['{'] + decimal(arity_in) + seq!['-', '>'] + decimal(arity_out) + seq!['}']
}

/// The text of a value.
///
/// A string is written without the quotes around it, a block as its two
/// counts. A list is written as `[a, b]`, a hash as `Hash<key:value, ..>`
/// and an integer-keyed hash as `IntHash<key:value, ..>`, each with the
/// texts of what it holds. `depth` is how many containers may still be
/// opened inside one another: a container beyond that, and a handle that
/// the store does not know as such a container, is written as `...`.
pub open spec fn value_fragments(v: ValueView, store: Seq<ContainerView>, depth: nat) -> Seq<
    FragmentView,
>
    decreases depth, 0nat, 0nat,
{
    match v {
        ValueView::Number(n) => seq![number_fragment(n)],
        ValueView::String(s) => seq![FragmentView::Text(without_quotes(s))],
        ValueView::Boolean(b) => seq![
            FragmentView::Text(
                if b {
                    "true"@
                } else {
                    "false"@
                },
            ),
        ],
        ValueView::Block { arity_in, arity_out, .. } => seq![
            FragmentView::Text(block_text(arity_in, arity_out)),
        ],
        ValueView::List(h) => if depth > 0 && h < store.len() && store[h as int] is List {
            seq![FragmentView::Text("["@)] + items_fragments(
                store[h as int]->List_0,
                store,
                (depth - 1) as nat,
                store[h as int]->List_0.len(),
            ) + seq![FragmentView::Text("]"@)]
        } else {
            seq![FragmentView::Text("..."@)]
        },
        ValueView::Hash(h) => if depth > 0 && h < store.len() && store[h as int] is Hash {
            seq![FragmentView::Text("Hash<"@)] + hash_fragments(
                store[h as int]->Hash_0,
                store,
                (depth - 1) as nat,
                store[h as int]->Hash_0.len(),
            ) + seq![FragmentView::Text(">"@)]
        } else {
            seq![FragmentView::Text("..."@)]
        },
        ValueView::IntHash(h) => if depth > 0 && h < store.len() && store[h as int] is IntHash {
            seq![FragmentView::Text("IntHash<"@)] + int_hash_fragments(
                store[h as int]->IntHash_0,
                store,
                (depth - 1) as nat,
                store[h as int]->IntHash_0.len(),
            ) + seq![FragmentView::Text(">"@)]
        } else {
            seq![FragmentView::Text("..."@)]
        },
    }
}

/// What stands between two items of a container.
pub open spec fn separator(k: nat) -> Seq<FragmentView> {
    if k > 1 {
        seq![FragmentView::Text(", "@)]
    } else {
        Seq::empty()
    }
}

/// The texts of the first `k` items of a list, with `, ` between them.
pub open spec fn items_fragments(
    items: Seq<ValueView>,
    store: Seq<ContainerView>,
    depth: nat,
    k: nat,
) -> Seq<FragmentView>
    decreases depth, 1nat, k,
{
    if k == 0 || k > items.len() {
        Seq::empty()
    } else {
        items_fragments(items, store, depth, (k - 1) as nat) + separator(k) + value_fragments(
            items[k - 1],
            store,
            depth,
        )
    }
}

/// The texts of the first `k` entries of a hash, each as `key:value`, with
/// `, ` between them.
pub open spec fn hash_fragments(
    entries: Seq<(Seq<char>, ValueView)>,
    store: Seq<ContainerView>,
    depth: nat,
    k: nat,
) -> Seq<FragmentView>
    decreases depth, 1nat, k,
{
    if k == 0 || k > entries.len() {
        Seq::empty()
    } else {
        hash_fragments(entries, store, depth, (k - 1) as nat) + separator(k) + seq![
            FragmentView::Text(entries[k - 1].0 + seq![':']),
        ] + value_fragments(entries[k - 1].1, store, depth)
    }
}

/// The texts of the first `k` entries of an integer-keyed hash.
pub open spec fn int_hash_fragments(
    entries: Seq<(i64, ValueView)>,
    store: Seq<ContainerView>,
    depth: nat,
    k: nat,
) -> Seq<FragmentView>
    decreases depth, 1nat, k,
{
    if k == 0 || k > entries.len() {
        Seq::empty()
    } else {
        int_hash_fragments(entries, store, depth, (k - 1) as nat) + separator(k) + seq![
            FragmentView::Text(signed_decimal(entries[k - 1].0 as int) + seq![':']),
        ] + value_fragments(entries[k - 1].1, store, depth)
    }
}

/// The text of a value as it is printed: containers may be opened inside
/// one another as deep as the store has containers.
pub open spec fn value_text(v: ValueView, store: Seq<ContainerView>) -> Seq<FragmentView> {
    value_fragments(v, store, store.len())
}

fn push_text(out: &mut Vec<Fragment>, text: &str)
    ensures
        fragment_views(final(out)@) == fragment_views(old(out)@).push(FragmentView::Text(text@)),
{
    out.push(Fragment::Text(String::from_str(text)));
    assert(fragment_views(out@) =~= fragment_views(old(out)@).push(FragmentView::Text(text@)));
}

fn push_chars(out: &mut Vec<Fragment>, text: &Vec<char>)
    ensures
        fragment_views(final(out)@) == fragment_views(old(out)@).push(FragmentView::Text(text@)),
{
    out.push(Fragment::Text(string_of(text)));
    assert(fragment_views(out@) =~= fragment_views(old(out)@).push(FragmentView::Text(text@)));
}

impl Number {
    /// The text of a number, as one fragment.
    pub fn to_fragment(self) -> (r: Fragment)
        ensures
            r@ == number_fragment(self),
    {
        match self {
            Number::Integer(v) => {
                let mut text: Vec<char> = Vec::new();
                push_signed_decimal(&mut text, v);
                assert(text@ =~= signed_decimal(v as int));
                Fragment::Text(string_of(&text))
            },
            Number::Rational { numerator, denominator } => {
                let mut text: Vec<char> = Vec::new();
                push_signed_decimal(&mut text, numerator);
                text.push('/');
                push_decimal(&mut text, denominator as u128);
                assert(text@ =~= signed_decimal(numerator as int) + seq!['/'] + decimal(
                    denominator as nat,
                ));
                Fragment::Text(string_of(&text))
            },
            Number::Float(bits) => Fragment::Float(bits),
            Number::Complex { real: re, imaginary: im } => Fragment::Complex {
                real: re,
                imaginary: im,
            },
        }
    }
}

fn render_separator(out: &mut Vec<Fragment>, k: usize)
    ensures
        fragment_views(final(out)@) == fragment_views(old(out)@) + separator(k as nat),
{
    if k > 1 {
        push_text(out, ", ");
        assert(fragment_views(out@) =~= fragment_views(old(out)@) + separator(k as nat));
    } else {
        assert(fragment_views(out@) =~= fragment_views(old(out)@) + separator(k as nat));
    }
}

fn render_value(v: &Value, store: &Store, depth: usize, out: &mut Vec<Fragment>)
    ensures
        fragment_views(final(out)@) == fragment_views(old(out)@) + value_fragments(
            v@,
            store@,
            depth as nat,
        ),
    decreases depth,
{
    let ghost start = fragment_views(out@);
    match v {
        Value::Number(n) => {
            out.push(n.to_fragment());
            assert(fragment_views(out@) =~= start + value_fragments(v@, store@, depth as nat));
        },
        Value::String(s) => {
            let text = chars_of(s.as_str());
            out.push(Fragment::Text(trim_quotes(&text)));
            assert(fragment_views(out@) =~= start + value_fragments(v@, store@, depth as nat));
        },
        Value::Boolean(b) => {
            if *b {
                push_text(out, "true");
            } else {
                push_text(out, "false");
            }
            assert(fragment_views(out@) =~= start + value_fragments(v@, store@, depth as nat));
        },
        Value::Block { arity_in, arity_out, .. } => {
            let mut text: Vec<char> = Vec::new();
            text.push('{');
            push_decimal(&mut text, *arity_in as u128);
            text.push('-');
            text.push('>');
            push_decimal(&mut text, *arity_out as u128);
            text.push('}');
            assert(text@ =~= block_text(*arity_in as nat, *arity_out as nat));
            push_chars(out, &text);
            assert(fragment_views(out@) =~= start + value_fragments(v@, store@, depth as nat));
        },
        Value::List(h) => {
            let found = if depth > 0 {
                store.container(*h)
            } else {
                None
            };
            match found {
                Some(Container::List(items)) => {
                    push_text(out, "[");
                    let ghost views = store@[*h as int]->List_0;
                    let ghost head = fragment_views(out@);
                    let mut i: usize = 0;
                    assert(head + items_fragments(views, store@, (depth - 1) as nat, 0) =~= head);
                    while i < items.len()
                        invariant
                            i <= items.len(),
                            depth > 0,
                            views == crate::types::value_views(items@),
                            fragment_views(out@) == head + items_fragments(
                                views,
                                store@,
                                (depth - 1) as nat,
                                i as nat,
                            ),
                        decreases items.len() - i,
                    {
                        let ghost before = fragment_views(out@);
                        render_separator(out, i + 1);
                        render_value(&items[i], store, depth - 1, out);
                        assert(fragment_views(out@) =~= head + items_fragments(
                            views,
                            store@,
                            (depth - 1) as nat,
                            (i + 1) as nat,
                        ));
                        i = i + 1;
                    }
                    push_text(out, "]");
                    assert(fragment_views(out@) =~= start + value_fragments(
                        v@,
                        store@,
                        depth as nat,
                    ));
                },
                _ => {
                    push_text(out, "...");
                    assert(fragment_views(out@) =~= start + value_fragments(
                        v@,
                        store@,
                        depth as nat,
                    ));
                },
            }
        },
        Value::Hash(h) => {
            let found = if depth > 0 {
                store.container(*h)
            } else {
                None
            };
            match found {
                Some(Container::Hash(entries)) => {
                    push_text(out, "Hash<");
                    let ghost views = store@[*h as int]->Hash_0;
                    let ghost head = fragment_views(out@);
                    let mut i: usize = 0;
                    assert(head + hash_fragments(views, store@, (depth - 1) as nat, 0) =~= head);
                    while i < entries.len()
                        invariant
                            i <= entries.len(),
                            depth > 0,
                            views == crate::store::hash_entries(entries@),
                            fragment_views(out@) == head + hash_fragments(
                                views,
                                store@,
                                (depth - 1) as nat,
                                i as nat,
                            ),
                        decreases entries.len() - i,
                    {
                        render_separator(out, i + 1);
                        let mut key: Vec<char> = chars_of(entries[i].0.as_str());
                        key.push(':');
                        assert(key@ =~= views[i as int].0 + seq![':']);
                        push_chars(out, &key);
                        render_value(&entries[i].1, store, depth - 1, out);
                        assert(fragment_views(out@) =~= head + hash_fragments(
                            views,
                            store@,
                            (depth - 1) as nat,
                            (i + 1) as nat,
                        ));
                        i = i + 1;
                    }
                    push_text(out, ">");
                    assert(fragment_views(out@) =~= start + value_fragments(
                        v@,
                        store@,
                        depth as nat,
                    ));
                },
                _ => {
                    push_text(out, "...");
                    assert(fragment_views(out@) =~= start + value_fragments(
                        v@,
                        store@,
                        depth as nat,
                    ));
                },
            }
        },
        Value::IntHash(h) => {
            let found = if depth > 0 {
                store.container(*h)
            } else {
                None
            };
            match found {
                Some(Container::IntHash(entries)) => {
                    push_text(out, "IntHash<");
                    let ghost views = store@[*h as int]->IntHash_0;
                    let ghost head = fragment_views(out@);
                    let mut i: usize = 0;
                    assert(head + int_hash_fragments(views, store@, (depth - 1) as nat, 0)
                        =~= head);
                    while i < entries.len()
                        invariant
                            i <= entries.len(),
                            depth > 0,
                            views == crate::store::int_hash_entries(entries@),
                            fragment_views(out@) == head + int_hash_fragments(
                                views,
                                store@,
                                (depth - 1) as nat,
                                i as nat,
                            ),
                        decreases entries.len() - i,
                    {
                        render_separator(out, i + 1);
                        let mut key: Vec<char> = Vec::new();
                        push_signed_decimal(&mut key, entries[i].0);
                        key.push(':');
                        assert(key@ =~= signed_decimal(entries@[i as int].0 as int) + seq![':']);
                        push_chars(out, &key);
                        render_value(&entries[i].1, store, depth - 1, out);
                        assert(fragment_views(out@) =~= head + int_hash_fragments(
                            views,
                            store@,
                            (depth - 1) as nat,
                            (i + 1) as nat,
                        ));
                        i = i + 1;
                    }
                    push_text(out, ">");
                    assert(fragment_views(out@) =~= start + value_fragments(
                        v@,
                        store@,
                        depth as nat,
                    ));
                },
                _ => {
                    push_text(out, "...");
                    assert(fragment_views(out@) =~= start + value_fragments(
                        v@,
                        store@,
                        depth as nat,
                    ));
                },
            }
        },
    }
}

/// The texts of the first `k` of some names, with a dot between them.
pub open spec fn dotted_text(names: Seq<Seq<char>>, k: nat) -> Seq<char>
    decreases k,
{
    if k == 0 || k > names.len() {
        Seq::empty()
    } else if k == 1 {
        names[0]
    } else {
        dotted_text(names, (k - 1) as nat) + seq!['.'] + names[k - 1]
    }
}

/// What stands between two children of an expression.
pub open spec fn blank(k: nat) -> Seq<FragmentView> {
    if k > 1 {
        seq![FragmentView::Text(" "@)]
    } else {
        Seq::empty()
    }
}

/// The text of an expression, as it is written in a program: a literal
/// as its value is printed, a block, list or group in its brackets with
/// blanks between the children, a prefix before what it applies to.
pub open spec fn expression_fragments(e: ExpressionView) -> Seq<FragmentView>
    decreases e, 0nat,
{
    match e {
        ExpressionView::Identifier(id) => seq![FragmentView::Text(id)],
        ExpressionView::DottedIdentifier(ids) => seq![
            FragmentView::Text(dotted_text(ids, ids.len())),
        ],
        ExpressionView::Literal(value) => value_fragments(value, Seq::empty(), 0),
        ExpressionView::Block(children) => seq![FragmentView::Text("{"@)] + children_fragments(
            children,
            children.len(),
        ) + seq![FragmentView::Text("}"@)],
        ExpressionView::List(children) => seq![FragmentView::Text("["@)] + children_fragments(
            children,
            children.len(),
        ) + seq![FragmentView::Text("]"@)],
        ExpressionView::Group(children) => seq![FragmentView::Text("("@)] + children_fragments(
            children,
            children.len(),
        ) + seq![FragmentView::Text(")"@)],
        ExpressionView::At(inner) => seq![FragmentView::Text("@"@)] + expression_fragments(*inner),
        ExpressionView::Bang(inner) => seq![FragmentView::Text("!"@)] + expression_fragments(
            *inner,
        ),
        ExpressionView::Dollar(inner) => seq![FragmentView::Text("$"@)] + expression_fragments(
            *inner,
        ),
    }
}

/// The texts of the first `k` children, with a blank between them.
pub open spec fn children_fragments(children: Seq<ExpressionView>, k: nat) -> Seq<FragmentView>
    decreases children, k,
{
    if k == 0 || k > children.len() {
        Seq::empty()
    } else {
        children_fragments(children, (k - 1) as nat) + blank(k) + expression_fragments(
            children[k - 1],
        )
    }
}

fn join_dotted(ids: &Vec<String>) -> (r: String)
    ensures
        r@ == dotted_text(crate::types::string_views(ids@), ids.len() as nat),
{
    let ghost names = crate::types::string_views(ids@);
    let mut text: Vec<char> = Vec::new();
    let mut i: usize = 0;
    while i < ids.len()
        invariant
            i <= ids.len(),
            names == crate::types::string_views(ids@),
            text@ == dotted_text(names, i as nat),
        decreases ids.len() - i,
    {
        if i > 0 {
            text.push('.');
        }
        let ghost before = text@;
        push_str(&mut text, ids[i].as_str());
        assert(names[i as int] == ids@[i as int]@);
        assert(text@ =~= dotted_text(names, (i + 1) as nat));
        i = i + 1;
    }
    string_of(&text)
}

/// Appends the texts of the children of an expression, with blanks
/// between them.
pub fn render_children(children: &Vec<Expression>, out: &mut Vec<Fragment>)
    ensures
        fragment_views(final(out)@) == fragment_views(old(out)@) + children_fragments(
            crate::types::expression_views(children@),
            children.len() as nat,
        ),
    decreases children, 0nat,
{
    let ghost views = crate::types::expression_views(children@);
    let ghost head = fragment_views(out@);
    proof {
        crate::types::lemma_expression_views(children@);
        assert(head + children_fragments(views, 0) =~= head);
    }
    let mut i: usize = 0;
    while i < children.len()
        invariant
            i <= children.len(),
            views == crate::types::expression_views(children@),
            views.len() == children.len(),
            forall|j: int| 0 <= j < children.len() ==> #[trigger] views[j] == children@[j]@,
            fragment_views(out@) == head + children_fragments(views, i as nat),
        decreases children.len() - i,
    {
        if i > 0 {
            push_text(out, " ");
        }
        assert(fragment_views(out@) =~= head + children_fragments(views, i as nat) + blank(
            (i + 1) as nat,
        ));
        assert(views[i as int] == children@[i as int]@);
        render_expression(&children[i], out);
        assert(fragment_views(out@) =~= head + children_fragments(views, (i + 1) as nat));
        i = i + 1;
    }
}

fn render_bracketed(open: &str, children: &Vec<Expression>, close: &str, out: &mut Vec<Fragment>)
    ensures
        fragment_views(final(out)@) == fragment_views(old(out)@) + (seq![
            FragmentView::Text(open@),
        ] + children_fragments(
            crate::types::expression_views(children@),
            children.len() as nat,
        ) + seq![FragmentView::Text(close@)]),
    decreases children, 1nat,
{
    push_text(out, open);
    render_children(children, out);
    push_text(out, close);
    assert(fragment_views(out@) =~= fragment_views(old(out)@) + (seq![FragmentView::Text(open@)]
        + children_fragments(crate::types::expression_views(children@), children.len() as nat)
        + seq![FragmentView::Text(close@)]));
}

/// Appends the text of an expression.
pub fn render_expression(e: &Expression, out: &mut Vec<Fragment>)
    ensures
        fragment_views(final(out)@) == fragment_views(old(out)@) + expression_fragments(e@),
    decreases e, 2nat,
{
    let ghost start = fragment_views(out@);
    proof {
        crate::types::lemma_expression_views(
            match e {
                Expression::Block(c) => c@,
                Expression::List(c) => c@,
                Expression::Group(c) => c@,
                _ => Seq::empty(),
            },
        );
    }
    match e {
        Expression::Identifier(id) => {
            push_text(out, id.as_str());
            assert(fragment_views(out@) =~= start + expression_fragments(e@));
        },
        Expression::DottedIdentifier(ids) => {
            out.push(Fragment::Text(join_dotted(ids)));
            assert(fragment_views(out@) =~= start + expression_fragments(e@));
        },
        Expression::Literal(value) => {
            let store = Store::new();
            render_value(value, &store, 0, out);
        },
        Expression::Block(children) => {
            render_bracketed("{", children, "}", out);
        },
        Expression::List(children) => {
            render_bracketed("[", children, "]", out);
        },
        Expression::Group(children) => {
            render_bracketed("(", children, ")", out);
        },
        Expression::At(inner) => {
            push_text(out, "@");
            render_expression(inner, out);
            assert(fragment_views(out@) =~= start + expression_fragments(e@));
        },
        Expression::Bang(inner) => {
            push_text(out, "!");
            render_expression(inner, out);
            assert(fragment_views(out@) =~= start + expression_fragments(e@));
        },
        Expression::Dollar(inner) => {
            push_text(out, "$");
            render_expression(inner, out);
            assert(fragment_views(out@) =~= start + expression_fragments(e@));
        },
    }
}

impl Expression {
    /// The text of an expression, as it is written in a program.
    pub fn to_fragments(&self) -> (r: Vec<Fragment>)
        ensures
            fragment_views(r@) == expression_fragments(self@),
    {
        let mut out: Vec<Fragment> = Vec::new();
        render_expression(self, &mut out);
        assert(fragment_views(out@) =~= expression_fragments(self@));
        out
    }
}

impl Value {
    /// The text of a value as it is printed, with the containers that it
    /// holds read from `store`.
    pub fn to_fragments(&self, store: &Store) -> (r: Vec<Fragment>)
        ensures
            fragment_views(r@) == value_text(self@, store@),
    {
        let mut out: Vec<Fragment> = Vec::new();
        render_value(self, store, store.len(), &mut out);
        assert(fragment_views(out@) =~= value_text(self@, store@));
        out
    }
}

} // verus!
