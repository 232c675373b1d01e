//! The compiler to C.
//!
//! Every block becomes a C function with a number of its own, so that a
//! block can be pushed as a value and called through it. The stack is the
//! array of the C runtime; a block's function sets the frame floor below its
//! inputs when it starts and moves its outputs down to that floor when it
//! ends. Names become numbers: those of a program are collected in one pass
//! and numbered in the order in which they first occur.
//!
//! A name of the language may hold characters that a C identifier cannot.
//! Such a name is cleaned by a regular expression, and told apart from other
//! names that clean to the same text by a piece of its SHA-256 digest.
//!
//! The C runtime itself, and the C of most built-ins, is not made here: it
//! is handed in as texts, and the compiler puts its own C between them.

use crate::arity::all_identifiers;
use crate::arity::arity_of;
use crate::arity::calculate_arity;
use crate::arity::only_identifiers;
use crate::ctext::{
    arithmetic_code, arithmetic_code_text, bind_code, bind_code_text, bind_many_code,
    bind_many_code_text, block_comment, block_comment_text, block_value_code,
    block_value_code_text, collect_code, collect_code_text, comment_code, comment_code_text,
    comparison_code, comparison_code_text, decimal_text, declaration_code, declaration_code_text,
    enter_code, enter_code_text, float_literal, function_foot, function_foot_text, function_head,
    function_head_text, index_define, index_define_text, integer_text, leave_code,
    leave_code_text, literal_code, literal_code_text, lookup_code, lookup_code_text, name_case,
    name_case_text, name_define, name_define_text, plain_text, push_float_literal, push_named_code,
    push_named_code_text, push_plain, replace_text, replaced, string_literal, string_literal_text,
    update_code, update_code_text,
};
use crate::machine::{builtin_named, Builtin, Comparison, Operator};
use crate::numbers::Number;
use crate::pattern::{regex_compiles, regex_replaced, Pattern};
use crate::render::{
    children_fragments, expression_fragments, fragment_views, render_children, Fragment,
};
use crate::text::{chars_of, decimal, push_str, signed_decimal, string_of};
use crate::types::{
    expression_views, lemma_expression_views, string_views, Expression, ExpressionView, Value,
    ValueView,
};
use crate::vm::builtin_of;
use sha2::Digest;
use vstd::prelude::*;

verus! {

/// Lines of generated C: those of a block's function, or those of one
/// expression.
#[derive(Debug, PartialEq, Eq)]
pub enum CCode {
    Block(Vec<String>),
    Expression(Vec<String>),
}

/// Every character that a C identifier cannot hold.
pub const NAME_PATTERN: &'static str = "[^a-zA-Z0-9_]";

/// The SHA-256 digest of the UTF-8 bytes of a text, in lower-case
/// hexadecimal digits, as the `sha2` crate computes it.
pub uninterp spec fn sha256_hex(text: Seq<char>) -> Seq<char>;

/// The SHA-256 digest of a text, in hexadecimal digits.
///
/// Trusted: calls `Sha256::digest` of the `sha2` crate on the bytes of
/// the text and writes the digest in lower-case hexadecimal digits. The
/// contract only names that result.
#[verifier::external_body]
fn digest_hex(text: &str) -> (r: String)
    ensures
        r@ == sha256_hex(text@),
{
    format!("{:x}", sha2::Sha256::digest(text.as_bytes()))
}

/// The first four characters of a text, or all of a shorter one.
pub open spec fn first_four(text: Seq<char>) -> Seq<char> {
    if text.len() > 4 {
        text.take(4)
    } else {
        text
    }
}

/// The form of a name that C takes: the name itself where every character
/// of it may stand in a C identifier; else what is left of it without the
/// other characters, an underscore, and the first four digits of the digest
/// of the whole name. (Were the pattern no regular expression, nothing would
/// be left of any name.)
pub open spec fn sanitized(name: Seq<char>) -> Seq<char> {
    let cleaned = if regex_compiles(NAME_PATTERN@) {
        regex_replaced(NAME_PATTERN@, name, ""@)
    } else {
        Seq::empty()
    };
    if cleaned == name {
        cleaned
    } else {
        cleaned + seq!['_'] + first_four(sha256_hex(name))
    }
}

/// Sanitize names.
pub fn sanitize_name(name: &str) -> (r: String)
    ensures
        r@ == sanitized(name@),
{
    let cleaned: String = match Pattern::compile(NAME_PATTERN) {
        Some(pattern) => pattern.replace_all(name, ""),
        None => String::new(),
    };
    if crate::text::same_text(cleaned.as_str(), name) {
        cleaned
    } else {
        let hash_hex = digest_hex(name);
        let digits = chars_of(hash_hex.as_str());
        let mut out: Vec<char> = chars_of(cleaned.as_str());
        out.push('_');
        let ghost before = out@;
        let n: usize = if digits.len() > 4 {
            4
        } else {
            digits.len()
        };
        let mut i: usize = 0;
        while i < n
            invariant
                i <= n <= digits.len(),
                out@ == before + digits@.take(i as int),
            decreases n - i,
        {
            out.push(digits[i]);
            assert(out@ =~= before + digits@.take(i + 1));
            i = i + 1;
        }
        assert(digits@.take(n as int) =~= first_four(digits@));
        assert(out@ =~= cleaned@ + seq!['_'] + first_four(sha256_hex(name@)));
        string_of(&out)
    }
}

/// Why a program cannot be compiled.
#[derive(Debug, PartialEq, Eq)]
pub enum CompileError {
    /// The arity of a block cannot be determined.
    Derivation(crate::arity::DerivationError),
    /// An expression that the compiler has no C for: a dotted
    /// identifier, or a literal other than an integer, a float, a string or a
    /// boolean.
    Unsupported,
    /// A prefix over something that it does not apply to.
    Malformed,
    /// The program is not a group of expressions.
    NotAGroup,
}

/// What a failed compilation holds.
pub enum CompileFault {
    Derivation(crate::arity::DerivationFault),
    Unsupported,
    Malformed,
    NotAGroup,
}

impl View for CompileError {
    type V = CompileFault;

    open spec fn view(&self) -> CompileFault {
        match self {
            CompileError::Derivation(e) => CompileFault::Derivation(e@),
            CompileError::Unsupported => CompileFault::Unsupported,
            CompileError::Malformed => CompileFault::Malformed,
            CompileError::NotAGroup => CompileFault::NotAGroup,
        }
    }
}

/// The names with one more, behind the others, unless it is among them.
pub open spec fn with_name(names: Seq<Seq<char>>, name: Seq<char>) -> Seq<Seq<char>> {
    if names.contains(name) {
        names
    } else {
        names.push(name)
    }
}

/// The names with the sanitized forms of the first `k` identifiers.
pub open spec fn with_identifiers(names: Seq<Seq<char>>, ids: Seq<ExpressionView>, k: nat) -> Seq<
    Seq<char>,
>
    decreases k,
{
    if k == 0 || k > ids.len() {
        names
    } else {
        with_name(
            with_identifiers(names, ids, (k - 1) as nat),
            sanitized(ids[k - 1]->Identifier_0),
        )
    }
}

/// The names with those that an expression uses behind a prefix, each in
/// its sanitized form, in the order in which they first occur. A count
/// behind `@` or `!` is no name. A prefix over anything else is a fault.
pub open spec fn names_in(e: ExpressionView, names: Seq<Seq<char>>) -> Result<
    Seq<Seq<char>>,
    CompileFault,
>
    decreases e, 0nat,
{
    match e {
        ExpressionView::Identifier(_) => Ok(names),
        ExpressionView::DottedIdentifier(_) => Ok(names),
        ExpressionView::Literal(_) => Ok(names),
        ExpressionView::Block(children) => names_in_all(children, children.len(), names),
        ExpressionView::List(children) => names_in_all(children, children.len(), names),
        ExpressionView::Group(children) => names_in_all(children, children.len(), names),
        ExpressionView::At(inner) => match *inner {
            ExpressionView::Identifier(id) => Ok(with_name(names, sanitized(id))),
            ExpressionView::List(ids) => if all_identifiers(ids) {
                Ok(with_identifiers(names, ids, ids.len()))
            } else {
                Err(CompileFault::Malformed)
            },
            ExpressionView::Literal(ValueView::Number(Number::Integer(_))) => Ok(names),
            _ => Err(CompileFault::Malformed),
        },
        ExpressionView::Bang(inner) => match *inner {
            ExpressionView::Identifier(id) => Ok(with_name(names, sanitized(id))),
            ExpressionView::Literal(ValueView::Number(Number::Integer(_))) => Ok(names),
            _ => Err(CompileFault::Malformed),
        },
        ExpressionView::Dollar(inner) => match *inner {
            ExpressionView::Identifier(id) => Ok(with_name(names, sanitized(id))),
            _ => Err(CompileFault::Malformed),
        },
    }
}

/// The names with those of the first `k` children.
pub open spec fn names_in_all(children: Seq<ExpressionView>, k: nat, names: Seq<Seq<char>>) -> Result<
    Seq<Seq<char>>,
    CompileFault,
>
    decreases children, k,
{
    if k == 0 || k > children.len() {
        Ok(names)
    } else {
        match names_in_all(children, (k - 1) as nat, names) {
            Ok(before) => names_in(children[k - 1], before),
            Err(f) => Err(f),
        }
    }
}

fn add_name(names: &mut Vec<String>, name: String)
    ensures
        crate::types::string_views(final(names)@) == with_name(
            crate::types::string_views(old(names)@),
            name@,
        ),
{
    let ghost views = crate::types::string_views(names@);
    let mut i: usize = 0;
    while i < names.len()
        invariant
            i <= names.len(),
            views == crate::types::string_views(names@),
            names@ == old(names)@,
            forall|j: int| 0 <= j < i ==> views[j] != name@,
        decreases names.len() - i,
    {
        if names[i] == name {
            assert(views[i as int] == name@);
            return ;
        }
        i = i + 1;
    }
    names.push(name);
    assert(crate::types::string_views(names@) =~= views.push(name@));
}

fn add_identifiers(names: &mut Vec<String>, ids: &Vec<Expression>)
    requires
        all_identifiers(expression_views(ids@)),
    ensures
        crate::types::string_views(final(names)@) == with_identifiers(
            crate::types::string_views(old(names)@),
            expression_views(ids@),
            ids.len() as nat,
        ),
{
    let ghost views = expression_views(ids@);
    let ghost start = crate::types::string_views(names@);
    proof {
        lemma_expression_views(ids@);
    }
    let mut i: usize = 0;
    while i < ids.len()
        invariant
            i <= ids.len(),
            views == expression_views(ids@),
            views.len() == ids.len(),
            all_identifiers(views),
            forall|j: int| 0 <= j < ids.len() ==> #[trigger] views[j] == ids@[j]@,
            crate::types::string_views(names@) == with_identifiers(start, views, i as nat),
        decreases ids.len() - i,
    {
        assert(views[i as int] is Identifier);
        match &ids[i] {
            Expression::Identifier(id) => {
                add_name(names, sanitize_name(id.as_str()));
            },
            _ => {},
        }
        i = i + 1;
    }
}

fn collect_names_expr(e: &Expression, names: &mut Vec<String>) -> (r: Result<(), CompileError>)
    ensures
        match r {
            Ok(()) => names_in(e@, crate::types::string_views(old(names)@)) == Ok::<
                Seq<Seq<char>>,
                CompileFault,
            >(crate::types::string_views(final(names)@)),
            Err(error) => names_in(e@, crate::types::string_views(old(names)@)) == Err::<
                Seq<Seq<char>>,
                CompileFault,
            >(error@),
        },
    decreases e, 1nat,
{
    proof {
        reveal_with_fuel(crate::types::expression_view, 3);
        reveal_with_fuel(crate::types::value_view, 2);
    }
    match e {
        Expression::Identifier(_) => Ok(()),
        Expression::DottedIdentifier(_) => Ok(()),
        Expression::Literal(_) => Ok(()),
        Expression::Block(children) => {
            proof {
                lemma_expression_views(children@);
            }
            collect_names_all(children, names)
        },
        Expression::List(children) => {
            proof {
                lemma_expression_views(children@);
            }
            collect_names_all(children, names)
        },
        Expression::Group(children) => {
            proof {
                lemma_expression_views(children@);
            }
            collect_names_all(children, names)
        },
        Expression::At(inner) => match &**inner {
            Expression::Identifier(id) => {
                add_name(names, sanitize_name(id.as_str()));
                Ok(())
            },
            Expression::List(ids) => {
                proof {
                    lemma_expression_views(ids@);
                }
                if only_identifiers(ids) {
                    add_identifiers(names, ids);
                    Ok(())
                } else {
                    Err(CompileError::Malformed)
                }
            },
            // ignore numeric @ expressions
            Expression::Literal(Value::Number(Number::Integer(_))) => Ok(()),
            _ => Err(CompileError::Malformed),
        },
        Expression::Bang(inner) => match &**inner {
            Expression::Identifier(id) => {
                add_name(names, sanitize_name(id.as_str()));
                Ok(())
            },
            Expression::Literal(Value::Number(Number::Integer(_))) => Ok(()),
            _ => Err(CompileError::Malformed),
        },
        Expression::Dollar(inner) => match &**inner {
            Expression::Identifier(id) => {
                add_name(names, sanitize_name(id.as_str()));
                Ok(())
            },
            _ => Err(CompileError::Malformed),
        },
    }
}

fn collect_names_all(children: &Vec<Expression>, names: &mut Vec<String>) -> (r: Result<
    (),
    CompileError,
>)
    ensures
        match r {
            Ok(()) => names_in_all(
                expression_views(children@),
                children.len() as nat,
                crate::types::string_views(old(names)@),
            ) == Ok::<Seq<Seq<char>>, CompileFault>(crate::types::string_views(final(names)@)),
            Err(error) => names_in_all(
                expression_views(children@),
                children.len() as nat,
                crate::types::string_views(old(names)@),
            ) == Err::<Seq<Seq<char>>, CompileFault>(error@),
        },
    decreases children, 0nat,
{
    let ghost views = expression_views(children@);
    let ghost start = crate::types::string_views(names@);
    proof {
        lemma_expression_views(children@);
    }
    let mut i: usize = 0;
    while i < children.len()
        invariant
            i <= children.len(),
            views == expression_views(children@),
            views.len() == children.len(),
            forall|j: int| 0 <= j < children.len() ==> #[trigger] views[j] == children@[j]@,
            start == crate::types::string_views(old(names)@),
            names_in_all(views, i as nat, start) == Ok::<Seq<Seq<char>>, CompileFault>(
                crate::types::string_views(names@),
            ),
        decreases children.len() - i,
    {
        assert(views[i as int] == children@[i as int]@);
        match collect_names_expr(&children[i], names) {
            Ok(()) => {},
            Err(error) => {
                proof {
                    assert(names_in_all(views, (i + 1) as nat, start) is Err);
                    lemma_names_fault_stays(views, (i + 1) as nat, children.len() as nat, start);
                }
                return Err(error);
            },
        }
        i = i + 1;
    }
    Ok(())
}

proof fn lemma_names_fault_stays(
    children: Seq<ExpressionView>,
    k: nat,
    n: nat,
    names: Seq<Seq<char>>,
)
    requires
        1 <= k <= n <= children.len(),
        names_in_all(children, k, names) is Err,
    ensures
        names_in_all(children, n, names) == names_in_all(children, k, names),
    decreases n - k,
{
    if k < n {
        lemma_names_fault_stays(children, k, (n - 1) as nat, names);
    }
}

/// Collect the names used so we can assign each an integer value: the
/// place of a name in the result is its number.
pub fn collect_names(ast: &Expression) -> (r: Result<Vec<String>, CompileError>)
    ensures
        match r {
            Ok(names) => names_in(ast@, Seq::empty()) == Ok::<Seq<Seq<char>>, CompileFault>(
                crate::types::string_views(names@),
            ),
            Err(error) => names_in(ast@, Seq::empty()) == Err::<Seq<Seq<char>>, CompileFault>(
                error@,
            ),
        },
{
    let mut names: Vec<String> = Vec::new();
    assert(crate::types::string_views(names@) =~= Seq::<Seq<char>>::empty());
    match collect_names_expr(ast, &mut names) {
        Ok(()) => Ok(names),
        Err(error) => Err(error),
    }
}

/// Adding a name keeps the names apart, keeps all that were there, and
/// has the name among them.
pub proof fn lemma_with_name_keeps_distinct(names: Seq<Seq<char>>, name: Seq<char>)
    requires
        names.no_duplicates(),
    ensures
        with_name(names, name).no_duplicates(),
        with_name(names, name).contains(name),
        names.len() <= with_name(names, name).len(),
        with_name(names, name).take(names.len() as int) == names,
{
    if !names.contains(name) {
        let longer = names.push(name);
        assert(longer[names.len() as int] == name);
        assert(longer.take(names.len() as int) =~= names);
    } else {
        assert(names.take(names.len() as int) =~= names);
    }
}

proof fn lemma_with_identifiers_keeps_distinct(
    names: Seq<Seq<char>>,
    ids: Seq<ExpressionView>,
    k: nat,
)
    requires
        names.no_duplicates(),
    ensures
        with_identifiers(names, ids, k).no_duplicates(),
        names.len() <= with_identifiers(names, ids, k).len(),
        with_identifiers(names, ids, k).take(names.len() as int) == names,
    decreases k,
{
    if k == 0 || k > ids.len() {
        assert(names.take(names.len() as int) =~= names);
    } else {
        lemma_with_identifiers_keeps_distinct(names, ids, (k - 1) as nat);
        let before = with_identifiers(names, ids, (k - 1) as nat);
        lemma_with_name_keeps_distinct(before, sanitized(ids[k - 1]->Identifier_0));
        let after = with_identifiers(names, ids, k);
        assert(after.take(names.len() as int) =~= after.take(before.len() as int).take(
            names.len() as int,
        ));
    }
}

/// No name gets two numbers, and no number two names: the names that are
/// collected from an expression are all different, and a name that had a
/// number before keeps it.
pub proof fn lemma_collected_names_are_distinct(e: ExpressionView, names: Seq<Seq<char>>)
    requires
        names.no_duplicates(),
        names_in(e, names) is Ok,
    ensures
        names_in(e, names)->Ok_0.no_duplicates(),
        names.len() <= names_in(e, names)->Ok_0.len(),
        names_in(e, names)->Ok_0.take(names.len() as int) == names,
    decreases e, 0nat,
{
    assert(names.take(names.len() as int) =~= names);
    match e {
        ExpressionView::Block(children) => {
            lemma_all_collected_names_are_distinct(children, children.len(), names);
        },
        ExpressionView::List(children) => {
            lemma_all_collected_names_are_distinct(children, children.len(), names);
        },
        ExpressionView::Group(children) => {
            lemma_all_collected_names_are_distinct(children, children.len(), names);
        },
        ExpressionView::At(inner) => match *inner {
            ExpressionView::Identifier(id) => {
                lemma_with_name_keeps_distinct(names, sanitized(id));
            },
            ExpressionView::List(ids) => {
                lemma_with_identifiers_keeps_distinct(names, ids, ids.len());
            },
            _ => {},
        },
        ExpressionView::Bang(inner) => match *inner {
            ExpressionView::Identifier(id) => {
                lemma_with_name_keeps_distinct(names, sanitized(id));
            },
            _ => {},
        },
        ExpressionView::Dollar(inner) => match *inner {
            ExpressionView::Identifier(id) => {
                lemma_with_name_keeps_distinct(names, sanitized(id));
            },
            _ => {},
        },
        _ => {},
    }
}

proof fn lemma_all_collected_names_are_distinct(
    children: Seq<ExpressionView>,
    k: nat,
    names: Seq<Seq<char>>,
)
    requires
        names.no_duplicates(),
        names_in_all(children, k, names) is Ok,
    ensures
        names_in_all(children, k, names)->Ok_0.no_duplicates(),
        names.len() <= names_in_all(children, k, names)->Ok_0.len(),
        names_in_all(children, k, names)->Ok_0.take(names.len() as int) == names,
    decreases children, k,
{
    if k == 0 || k > children.len() {
        assert(names.take(names.len() as int) =~= names);
    } else {
        lemma_all_collected_names_are_distinct(children, (k - 1) as nat, names);
        let before = names_in_all(children, (k - 1) as nat, names)->Ok_0;
        lemma_collected_names_are_distinct(children[k - 1], before);
        let after = names_in_all(children, k, names)->Ok_0;
        assert(after.take(names.len() as int) =~= after.take(before.len() as int).take(
            names.len() as int,
        ));
    }
}

/// The texts of the C runtime, between which the compiler puts its own.
#[derive(Debug)]
pub struct Templates {
    /// The whole program, with the marks where the switch for debugging,
    /// the names and the blocks go.
    pub program: String,
    /// The C of `%`.
    pub modulo: String,
    /// The C of `read`.
    pub read: String,
    /// The C of `write`.
    pub write: String,
    /// The C of `loop`.
    pub looping: String,
    /// The C of `if`.
    pub branching: String,
    /// The C of `cond`.
    pub cond: String,
    /// The C of `to_float`.
    pub to_float: String,
    /// The C of `to_int`.
    pub to_int: String,
    /// The C of `make-list`.
    pub stack_new: String,
    /// The C of `stack-ref`.
    pub stack_ref: String,
    /// The C of `stack-set!`.
    pub stack_set: String,
    /// The C of `stack-push!`.
    pub stack_push: String,
    /// The C of `stack-pop!`.
    pub stack_pop: String,
    /// The C of `stack-size`.
    pub stack_size: String,
}

/// What the texts of the C runtime hold.
pub struct TemplatesView {
    pub program: Seq<char>,
    pub modulo: Seq<char>,
    pub read: Seq<char>,
    pub write: Seq<char>,
    pub looping: Seq<char>,
    pub branching: Seq<char>,
    pub cond: Seq<char>,
    pub to_float: Seq<char>,
    pub to_int: Seq<char>,
    pub stack_new: Seq<char>,
    pub stack_ref: Seq<char>,
    pub stack_set: Seq<char>,
    pub stack_push: Seq<char>,
    pub stack_pop: Seq<char>,
    pub stack_size: Seq<char>,
}

impl View for Templates {
    type V = TemplatesView;

    open spec fn view(&self) -> TemplatesView {
        TemplatesView {
            program: self.program@,
            modulo: self.modulo@,
            read: self.read@,
            write: self.write@,
            looping: self.looping@,
            branching: self.branching@,
            cond: self.cond@,
            to_float: self.to_float@,
            to_int: self.to_int@,
            stack_new: self.stack_new@,
            stack_ref: self.stack_ref@,
            stack_set: self.stack_set@,
            stack_push: self.stack_push@,
            stack_pop: self.stack_pop@,
            stack_size: self.stack_size@,
        }
    }
}

/// The mark in the program text where the switch for debugging goes.
pub const DEBUG_MARK: &'static str = "/*{DEBUG}*/";

/// The mark in the program text where the names go.
pub const NAMES_MARK: &'static str = "/*{NAMES}*/";

/// The mark in the program text where the blocks go.
pub const BLOCKS_MARK: &'static str = "/*{BLOCKS}*/";

/// The C that writes a newline.
pub const NEWLINE_CODE: &'static str = "printf(\"\\n\");";

/// The C that moves one output down to the frame floor.
pub const RESTORE_CODE: &'static str = "    *(++stack_ptr) = *(++return_ptr);";

/// The C that opens the making of a list.
pub const LIST_OPEN_CODE: &'static str = "\t{";

/// The C that makes the new list.
pub const LIST_INIT_CODE: &'static str = "\t\tValue s = {.type=TAG_STACK, .as_stack=vs_init()};";

/// The C that pushes the new list.
pub const LIST_PUSH_CODE: &'static str = "\t\t*(++stack_ptr) = s;";

/// The C that closes the making of a list.
pub const LIST_CLOSE_CODE: &'static str = "\n\t}";

/// The start of the C function that gives the text of a name.
pub const NAME_SWITCH_HEAD: &'static str = "char* get_name(uint32_t index) {\n\tswitch (index) {\n";

/// The end of the C function that gives the text of a name.
pub const NAME_SWITCH_FOOT: &'static str =
    "\t\tdefault:\n\t\t\tfprintf(stderr, \"Undefined name for index %u\", index);\n\t\t\texit(1);\n\t}\n}\n";

/// The blocks that were compiled so far: for each its lines.
pub type Blocks = Seq<Seq<Seq<char>>>;

/// The views of the blocks.
pub open spec fn blocks_view(blocks: Seq<Vec<String>>) -> Blocks {
    Seq::new(blocks.len(), |i: int| string_views(blocks[i]@))
}

/// The sign of an arithmetic operator in C.
pub open spec fn operator_symbol(operator: Operator) -> Seq<char> {
    match operator {
        Operator::Add => "+"@,
        Operator::Subtract => "-"@,
        Operator::Multiply => "*"@,
        Operator::Divide => "/"@,
        Operator::Remainder => "%"@,
    }
}

/// The sign of a comparison in C.
pub open spec fn comparison_symbol(comparison: Comparison) -> Seq<char> {
    match comparison {
        Comparison::Less => "<"@,
        Comparison::LessOrEqual => "<="@,
        Comparison::Equal => "=="@,
        Comparison::NotEqual => "!="@,
        Comparison::GreaterOrEqual => ">="@,
        Comparison::Greater => ">"@,
    }
}

/// The lines of C of a built-in; `None` for one that there is no C for.
pub open spec fn builtin_code(builtin: Builtin, t: TemplatesView) -> Option<Seq<Seq<char>>> {
    match builtin {
        Builtin::Arithmetic(Operator::Remainder) => Some(seq![t.modulo]),
        Builtin::Arithmetic(operator) => Some(seq![arithmetic_code(operator_symbol(operator))]),
        Builtin::Compare(comparison) => Some(
            seq![comparison_code(comparison_symbol(comparison))],
        ),
        Builtin::Read => Some(seq![t.read]),
        Builtin::Write => Some(seq![t.write]),
        Builtin::Writeln => Some(seq![t.write, NEWLINE_CODE@]),
        Builtin::Newline => Some(seq![NEWLINE_CODE@]),
        Builtin::Loop => Some(seq![t.looping]),
        Builtin::If => Some(seq![t.branching]),
        Builtin::Cond => Some(seq![t.cond]),
        Builtin::ToFloat => Some(seq![t.to_float]),
        Builtin::ToInt => Some(seq![t.to_int]),
        Builtin::MakeList => Some(seq![t.stack_new]),
        Builtin::ListRef => Some(seq![t.stack_ref]),
        Builtin::ListSet => Some(seq![t.stack_set]),
        Builtin::ListPush => Some(seq![t.stack_push]),
        Builtin::ListPop => Some(seq![t.stack_pop]),
        Builtin::ListSize => Some(seq![t.stack_size]),
        _ => None,
    }
}

/// The C that pushes a literal: an integer, a float, a string or a
/// boolean. There is none for any other value.
pub open spec fn literal_line(value: ValueView) -> Option<Seq<char>> {
    match value {
        ValueView::Number(Number::Integer(v)) => Some(
            literal_code("TAG_NUMBER_INTEGER"@, "integer"@, signed_decimal(v as int)),
        ),
        ValueView::Number(Number::Float(bits)) => Some(
            literal_code("TAG_NUMBER_FLOAT"@, "float"@, float_literal(bits)),
        ),
        ValueView::String(text) => Some(
            literal_code("TAG_STRING"@, "string"@, string_literal(text)),
        ),
        ValueView::Boolean(b) => Some(
            literal_code(
                "TAG_BOOLEAN"@,
                "boolean"@,
                if b {
                    "true"@
                } else {
                    "false"@
                },
            ),
        ),
        _ => None,
    }
}

/// The text of an expression, as it stands in a comment.
pub open spec fn expression_text(e: ExpressionView) -> Seq<char> {
    plain_text(expression_fragments(e), expression_fragments(e).len())
}

/// The text of the children of a block, as it stands in a comment.
pub open spec fn body_text(body: Seq<ExpressionView>) -> Seq<char> {
    plain_text(
        children_fragments(body, body.len()),
        children_fragments(body, body.len()).len(),
    )
}

/// The C that binds the first `k` of some names, each to its place below
/// the top of the stack.
pub open spec fn bind_lines(ids: Seq<ExpressionView>, k: nat) -> Seq<Seq<char>> {
    Seq::new(
        k,
        |i: int|
            bind_many_code(
                decimal(ids.len()),
                decimal(i as nat),
                sanitized(ids[i]->Identifier_0),
            ),
    )
}

/// The lines of C of an expression, and the blocks with those that the
/// expression holds.
///
/// The first line is a comment with the text of the expression. A
/// built-in gives its C, any other identifier the C that looks the name up.
/// A literal is pushed. A block is compiled into a function of its own,
/// and the C here pushes it as a value. A list gives the C of each child,
/// each followed by the collecting of what it leaves. A group gives the C of
/// its children. A prefix with a name binds, updates or pushes; with a count
/// it is an annotation, and gives no C.
pub open spec fn expr_code(e: ExpressionView, blocks: Blocks, t: TemplatesView) -> Result<
    (Seq<Seq<char>>, Blocks),
    CompileFault,
>
    decreases e, 0nat, 0nat,
{
    let head = seq![comment_code(expression_text(e))];
    match e {
        ExpressionView::Identifier(id) => match builtin_named(id) {
            Some(builtin) => match builtin_code(builtin, t) {
                Some(lines) => Ok((head + lines, blocks)),
                None => Err(CompileFault::Unsupported),
            },
            None => Ok((head.push(lookup_code(sanitized(id))), blocks)),
        },
        ExpressionView::DottedIdentifier(_) => Err(CompileFault::Unsupported),
        ExpressionView::Literal(value) => match literal_line(value) {
            Some(line) => Ok((head.push(line), blocks)),
            None => Err(CompileFault::Unsupported),
        },
        ExpressionView::Block(body) => match arity_of(e) {
            Err(fault) => Err(CompileFault::Derivation(fault)),
            Ok((arity_in, arity_out)) => match block_code(arity_in, arity_out, body, blocks, t) {
                Err(fault) => Err(fault),
                Ok((index, after)) => Ok((head.push(block_value_code(decimal(index))), after)),
            },
        },
        ExpressionView::List(values) => match list_code(values, values.len(), blocks, t) {
            Err(fault) => Err(fault),
            Ok((lines, after)) => Ok(
                (
                    head + seq![LIST_OPEN_CODE@, LIST_INIT_CODE@] + lines + seq![
                        LIST_PUSH_CODE@,
                        LIST_CLOSE_CODE@,
                    ],
                    after,
                ),
            ),
        },
        ExpressionView::Group(children) => match sequence_code(
            children,
            children.len(),
            blocks,
            t,
        ) {
            Err(fault) => Err(fault),
            Ok((lines, after)) => Ok((head + lines, after)),
        },
        ExpressionView::At(inner) => match *inner {
            ExpressionView::Identifier(id) => Ok((head.push(bind_code(sanitized(id))), blocks)),
            ExpressionView::List(ids) => if all_identifiers(ids) {
                Ok((head + bind_lines(ids, ids.len()), blocks))
            } else {
                Err(CompileFault::Malformed)
            },
            ExpressionView::Literal(ValueView::Number(Number::Integer(_))) => Ok((head, blocks)),
            _ => Err(CompileFault::Malformed),
        },
        ExpressionView::Bang(inner) => match *inner {
            ExpressionView::Literal(ValueView::Number(Number::Integer(_))) => Ok((head, blocks)),
            ExpressionView::Identifier(id) => Ok((head.push(update_code(sanitized(id))), blocks)),
            _ => Err(CompileFault::Malformed),
        },
        ExpressionView::Dollar(inner) => match *inner {
            ExpressionView::Identifier(id) => Ok(
                (head.push(push_named_code(sanitized(id))), blocks),
            ),
            _ => Err(CompileFault::Malformed),
        },
    }
}

/// The lines of C of the first `k` children, one after the other.
pub open spec fn sequence_code(
    children: Seq<ExpressionView>,
    k: nat,
    blocks: Blocks,
    t: TemplatesView,
) -> Result<(Seq<Seq<char>>, Blocks), CompileFault>
    decreases children, k, 0nat,
{
    if k == 0 || k > children.len() {
        Ok((Seq::empty(), blocks))
    } else {
        match sequence_code(children, (k - 1) as nat, blocks, t) {
            Err(fault) => Err(fault),
            Ok((lines, before)) => match expr_code(children[k - 1], before, t) {
                Err(fault) => Err(fault),
                Ok((more, after)) => Ok((lines + more, after)),
            },
        }
    }
}

/// The lines of C of the first `k` children of a list, each followed by
/// the collecting of what it leaves.
pub open spec fn list_code(
    children: Seq<ExpressionView>,
    k: nat,
    blocks: Blocks,
    t: TemplatesView,
) -> Result<(Seq<Seq<char>>, Blocks), CompileFault>
    decreases children, k, 0nat,
{
    if k == 0 || k > children.len() {
        Ok((Seq::empty(), blocks))
    } else {
        match list_code(children, (k - 1) as nat, blocks, t) {
            Err(fault) => Err(fault),
            Ok((lines, before)) => match expr_code(children[k - 1], before, t) {
                Err(fault) => Err(fault),
                Ok((more, after)) => Ok(
                    ((lines + more).push(collect_code(expression_text(children[k - 1]))), after),
                ),
            },
        }
    }
}

/// The lines of C that move `arity_out` outputs down to the frame floor.
pub open spec fn restore_lines(arity_out: nat) -> Seq<Seq<char>> {
    Seq::new(arity_out, |i: int| RESTORE_CODE@)
}

/// The lines of the function of a block: a comment with the text of the
/// body, the setting of the frame floor below the inputs, the C of the body,
/// and the moving of the outputs down to the frame floor.
pub open spec fn block_lines(
    arity_in: nat,
    arity_out: nat,
    body: Seq<ExpressionView>,
    lines: Seq<Seq<char>>,
) -> Seq<Seq<char>> {
    seq![block_comment(body_text(body)), enter_code(decimal(arity_in))] + lines + seq![
        leave_code(decimal(arity_out)),
    ] + restore_lines(arity_out)
}

/// Compiles a block: it gets the next free number, and its lines take
/// that place among the blocks, before those of the blocks inside it.
pub open spec fn block_code(
    arity_in: nat,
    arity_out: nat,
    body: Seq<ExpressionView>,
    blocks: Blocks,
    t: TemplatesView,
) -> Result<(nat, Blocks), CompileFault>
    decreases body, body.len(), 1nat,
{
    match sequence_code(body, body.len(), blocks.push(Seq::empty()), t) {
        Err(fault) => Err(fault),
        Ok((lines, after)) => Ok(
            (
                blocks.len(),
                after.update(blocks.len() as int, block_lines(arity_in, arity_out, body, lines)),
            ),
        ),
    }
}

fn builtin_lines(builtin: Builtin, t: &Templates, lines: &mut Vec<String>) -> (r: bool)
    ensures
        match builtin_code(builtin, t@) {
            Some(more) => r && string_views(final(lines)@) == string_views(old(lines)@) + more,
            None => !r && final(lines)@ == old(lines)@,
        },
{
    let ghost start = string_views(lines@);
    match builtin {
        Builtin::Arithmetic(Operator::Remainder) => {
            lines.push(t.modulo.clone());
        },
        Builtin::Arithmetic(operator) => {
            let symbol = match operator {
                Operator::Add => "+",
                Operator::Subtract => "-",
                Operator::Multiply => "*",
                _ => "/",
            };
            lines.push(arithmetic_code_text(symbol));
        },
        Builtin::Compare(comparison) => {
            let symbol = match comparison {
                Comparison::Less => "<",
                Comparison::LessOrEqual => "<=",
                Comparison::Equal => "==",
                Comparison::NotEqual => "!=",
                Comparison::GreaterOrEqual => ">=",
                Comparison::Greater => ">",
            };
            lines.push(comparison_code_text(symbol));
        },
        Builtin::Read => {
            lines.push(t.read.clone());
        },
        Builtin::Write => {
            lines.push(t.write.clone());
        },
        Builtin::Writeln => {
            lines.push(t.write.clone());
            lines.push(String::from_str(NEWLINE_CODE));
            assert(string_views(lines@) =~= start + seq![t@.write, NEWLINE_CODE@]);
            return true;
        },
        Builtin::Newline => {
            lines.push(String::from_str(NEWLINE_CODE));
        },
        Builtin::Loop => {
            lines.push(t.looping.clone());
        },
        Builtin::If => {
            lines.push(t.branching.clone());
        },
        Builtin::Cond => {
            lines.push(t.cond.clone());
        },
        Builtin::ToFloat => {
            lines.push(t.to_float.clone());
        },
        Builtin::ToInt => {
            lines.push(t.to_int.clone());
        },
        Builtin::MakeList => {
            lines.push(t.stack_new.clone());
        },
        Builtin::ListRef => {
            lines.push(t.stack_ref.clone());
        },
        Builtin::ListSet => {
            lines.push(t.stack_set.clone());
        },
        Builtin::ListPush => {
            lines.push(t.stack_push.clone());
        },
        Builtin::ListPop => {
            lines.push(t.stack_pop.clone());
        },
        Builtin::ListSize => {
            lines.push(t.stack_size.clone());
        },
        _ => {
            return false;
        },
    }
    assert(string_views(lines@) =~= start + builtin_code(builtin, t@)->Some_0);
    true
}

fn literal_line_text(value: &Value) -> (r: Option<String>)
    ensures
        match r {
            Some(line) => literal_line(value@) == Some(line@),
            None => literal_line(value@) is None,
        },
{
    match value {
        Value::Number(Number::Integer(v)) => {
            let text = integer_text(*v);
            Some(literal_code_text("TAG_NUMBER_INTEGER", "integer", text.as_str()))
        },
        Value::Number(Number::Float(bits)) => {
            let mut text: Vec<char> = Vec::new();
            push_float_literal(&mut text, *bits);
            assert(text@ =~= float_literal(*bits));
            let text = string_of(&text);
            Some(literal_code_text("TAG_NUMBER_FLOAT", "float", text.as_str()))
        },
        Value::String(s) => {
            let text = string_literal_text(s.as_str());
            Some(literal_code_text("TAG_STRING", "string", text.as_str()))
        },
        Value::Boolean(b) => {
            if *b {
                Some(literal_code_text("TAG_BOOLEAN", "boolean", "true"))
            } else {
                Some(literal_code_text("TAG_BOOLEAN", "boolean", "false"))
            }
        },
        _ => None,
    }
}

/// The text of an expression, as it stands in a comment.
fn text_of_expression(e: &Expression) -> (r: String)
    ensures
        r@ == expression_text(e@),
{
    let fragments = e.to_fragments();
    let mut out: Vec<char> = Vec::new();
    push_plain(&mut out, &fragments);
    assert(out@ =~= expression_text(e@));
    string_of(&out)
}

/// The text of the children of a block, as it stands in a comment.
fn text_of_body(body: &Vec<Expression>) -> (r: String)
    ensures
        r@ == body_text(expression_views(body@)),
{
    let mut fragments: Vec<Fragment> = Vec::new();
    render_children(body, &mut fragments);
    proof {
        lemma_expression_views(body@);
        assert(fragment_views(fragments@) =~= children_fragments(
            expression_views(body@),
            body.len() as nat,
        ));
    }
    let mut out: Vec<char> = Vec::new();
    push_plain(&mut out, &fragments);
    assert(out@ =~= body_text(expression_views(body@)));
    string_of(&out)
}

fn bind_many(ids: &Vec<Expression>, lines: &mut Vec<String>)
    requires
        all_identifiers(expression_views(ids@)),
    ensures
        string_views(final(lines)@) == string_views(old(lines)@) + bind_lines(
            expression_views(ids@),
            ids.len() as nat,
        ),
{
    let ghost views = expression_views(ids@);
    let ghost start = string_views(lines@);
    proof {
        lemma_expression_views(ids@);
    }
    let count = decimal_text(ids.len());
    let mut i: usize = 0;
    assert(string_views(lines@) =~= start + bind_lines(views, 0));
    while i < ids.len()
        invariant
            i <= ids.len(),
            views == expression_views(ids@),
            views.len() == ids.len(),
            all_identifiers(views),
            forall|j: int| 0 <= j < ids.len() ==> #[trigger] views[j] == ids@[j]@,
            count@ == decimal(ids.len() as nat),
            string_views(lines@) == start + bind_lines(views, i as nat),
        decreases ids.len() - i,
    {
        assert(views[i as int] is Identifier);
        assert(views[i as int] == ids@[i as int]@);
        let ghost before = string_views(lines@);
        match &ids[i] {
            Expression::Identifier(id) => {
                let name = sanitize_name(id.as_str());
                let place = decimal_text(i);
                let line = bind_many_code_text(count.as_str(), place.as_str(), name.as_str());
                assert(line@ == bind_lines(views, (i + 1) as nat)[i as int]);
                lines.push(line);
                assert(string_views(lines@) =~= before.push(line@));
            },
            _ => {
                assert(false);
            },
        }
        assert(string_views(lines@) =~= start + bind_lines(views, (i + 1) as nat));
        i = i + 1;
    }
}

/// Compile a single expression into lines of C.
fn compile_expr(expr: &Expression, blocks: &mut Vec<Vec<String>>, t: &Templates) -> (r: Result<
    Vec<String>,
    CompileError,
>)
    ensures
        old(blocks).len() <= final(blocks).len(),
        match r {
            Ok(lines) => expr_code(expr@, blocks_view(old(blocks)@), t@) == Ok::<
                (Seq<Seq<char>>, Blocks),
                CompileFault,
            >((string_views(lines@), blocks_view(final(blocks)@))),
            Err(error) => expr_code(expr@, blocks_view(old(blocks)@), t@) == Err::<
                (Seq<Seq<char>>, Blocks),
                CompileFault,
            >(error@),
        },
    decreases expr, 0nat, 0nat,
{
    proof {
        reveal_with_fuel(crate::types::expression_view, 3);
        reveal_with_fuel(crate::types::value_view, 2);
    }
    let mut lines: Vec<String> = Vec::new();
    let comment = text_of_expression(expr);
    lines.push(comment_code_text(comment.as_str()));
    let ghost head = seq![comment_code(expression_text(expr@))];
    assert(string_views(lines@) =~= head);
    match expr {
        Expression::Identifier(id) => match builtin_of(id.as_str()) {
            Some(builtin) => {
                if builtin_lines(builtin, t, &mut lines) {
                    Ok(lines)
                } else {
                    Err(CompileError::Unsupported)
                }
            },
            None => {
                let name = sanitize_name(id.as_str());
                lines.push(lookup_code_text(name.as_str()));
                assert(string_views(lines@) =~= head.push(lookup_code(sanitized(id@))));
                Ok(lines)
            },
        },
        Expression::DottedIdentifier(_) => Err(CompileError::Unsupported),
        Expression::Literal(value) => match literal_line_text(value) {
            Some(line) => {
                lines.push(line);
                assert(string_views(lines@) =~= head.push(line@));
                Ok(lines)
            },
            None => Err(CompileError::Unsupported),
        },
        Expression::Block(body) => match calculate_arity(expr) {
            Err(error) => Err(CompileError::Derivation(error)),
            Ok((arity_in, arity_out)) => {
                proof {
                    lemma_expression_views(body@);
                }
                match compile_block(arity_in, arity_out, body, blocks, t) {
                    Err(error) => Err(error),
                    Ok(index) => {
                        let number = decimal_text(index);
                        lines.push(block_value_code_text(number.as_str()));
                        assert(string_views(lines@) =~= head.push(
                            block_value_code(decimal(index as nat)),
                        ));
                        Ok(lines)
                    },
                }
            },
        },
        Expression::List(values) => {
            proof {
                lemma_expression_views(values@);
            }
            lines.push(String::from_str(LIST_OPEN_CODE));
            lines.push(String::from_str(LIST_INIT_CODE));
            let ghost opened = string_views(lines@);
            assert(opened =~= head + seq![LIST_OPEN_CODE@, LIST_INIT_CODE@]);
            match compile_list(values, blocks, t, &mut lines) {
                Err(error) => Err(error),
                Ok(()) => {
                    let ghost filled = string_views(lines@);
                    lines.push(String::from_str(LIST_PUSH_CODE));
                    lines.push(String::from_str(LIST_CLOSE_CODE));
                    assert(string_views(lines@) =~= filled + seq![
                        LIST_PUSH_CODE@,
                        LIST_CLOSE_CODE@,
                    ]);
                    Ok(lines)
                },
            }
        },
        Expression::Group(children) => {
            proof {
                lemma_expression_views(children@);
            }
            match compile_sequence(children, blocks, t, &mut lines) {
                Err(error) => Err(error),
                Ok(()) => Ok(lines),
            }
        },
        Expression::At(inner) => match &**inner {
            Expression::Identifier(id) => {
                let name = sanitize_name(id.as_str());
                lines.push(bind_code_text(name.as_str()));
                assert(string_views(lines@) =~= head.push(bind_code(sanitized(id@))));
                Ok(lines)
            },
            Expression::List(ids) => {
                proof {
                    lemma_expression_views(ids@);
                }
                if only_identifiers(ids) {
                    bind_many(ids, &mut lines);
                    Ok(lines)
                } else {
                    Err(CompileError::Malformed)
                }
            },
            // ignore numeric @ expressions
            Expression::Literal(Value::Number(Number::Integer(_))) => Ok(lines),
            _ => Err(CompileError::Malformed),
        },
        Expression::Bang(inner) => match &**inner {
            // Used only for arity out expressions
            Expression::Literal(Value::Number(Number::Integer(_))) => Ok(lines),
            Expression::Identifier(id) => {
                let name = sanitize_name(id.as_str());
                lines.push(update_code_text(name.as_str()));
                assert(string_views(lines@) =~= head.push(update_code(sanitized(id@))));
                Ok(lines)
            },
            _ => Err(CompileError::Malformed),
        },
        Expression::Dollar(inner) => match &**inner {
            Expression::Identifier(id) => {
                let name = sanitize_name(id.as_str());
                lines.push(push_named_code_text(name.as_str()));
                assert(string_views(lines@) =~= head.push(push_named_code(sanitized(id@))));
                Ok(lines)
            },
            _ => Err(CompileError::Malformed),
        },
    }
}

fn append_lines(lines: &mut Vec<String>, more: Vec<String>)
    ensures
        string_views(final(lines)@) == string_views(old(lines)@) + string_views(more@),
{
    let ghost start = string_views(lines@);
    let ghost added = string_views(more@);
    let mut rest = more;
    let mut taken: Vec<String> = Vec::new();
    // Take the lines off the end, then put them on in their order
    while rest.len() > 0
        invariant
            rest.len() + taken.len() == more.len(),
            rest@ == more@.take(rest.len() as int),
            forall|j: int| 0 <= j < taken.len() ==> #[trigger] taken@[j] == more@[more.len() - 1 - j],
        decreases rest.len(),
    {
        let line = rest.pop().unwrap();
        taken.push(line);
    }
    assert(string_views(lines@) =~= start + added.take(0));
    while taken.len() > 0
        invariant
            taken.len() <= more.len(),
            added == string_views(more@),
            forall|j: int| 0 <= j < taken.len() ==> #[trigger] taken@[j] == more@[more.len() - 1 - j],
            string_views(lines@) == start + added.take(more.len() - taken.len()),
        decreases taken.len(),
    {
        let ghost done = more.len() - taken.len();
        let ghost before = string_views(lines@);
        let line = taken.pop().unwrap();
        assert(line == more@[done as int]);
        assert(added[done as int] == line@);
        lines.push(line);
        assert(string_views(lines@) =~= before.push(line@));
        assert(before.push(line@) =~= start + added.take(done + 1));
    }
    assert(added.take(more.len() as int) =~= added);
}

fn compile_sequence(
    children: &Vec<Expression>,
    blocks: &mut Vec<Vec<String>>,
    t: &Templates,
    lines: &mut Vec<String>,
) -> (r: Result<(), CompileError>)
    ensures
        old(blocks).len() <= final(blocks).len(),
        match r {
            Ok(()) => sequence_code(
                expression_views(children@),
                children.len() as nat,
                blocks_view(old(blocks)@),
                t@,
            ) is Ok && string_views(final(lines)@) == string_views(old(lines)@) + sequence_code(
                expression_views(children@),
                children.len() as nat,
                blocks_view(old(blocks)@),
                t@,
            )->Ok_0.0 && blocks_view(final(blocks)@) == sequence_code(
                expression_views(children@),
                children.len() as nat,
                blocks_view(old(blocks)@),
                t@,
            )->Ok_0.1,
            Err(error) => sequence_code(
                expression_views(children@),
                children.len() as nat,
                blocks_view(old(blocks)@),
                t@,
            ) == Err::<(Seq<Seq<char>>, Blocks), CompileFault>(error@),
        },
    decreases children, children.len(), 0nat,
{
    let ghost views = expression_views(children@);
    let ghost start = string_views(lines@);
    let ghost first = blocks_view(blocks@);
    proof {
        lemma_expression_views(children@);
        assert(start + Seq::<Seq<char>>::empty() =~= start);
    }
    let mut i: usize = 0;
    while i < children.len()
        invariant
            i <= children.len(),
            views == expression_views(children@),
            views.len() == children.len(),
            forall|j: int| 0 <= j < children.len() ==> #[trigger] views[j] == children@[j]@,
            first == blocks_view(old(blocks)@),
            start == string_views(old(lines)@),
            old(blocks).len() <= blocks.len(),
            sequence_code(views, i as nat, first, t@) is Ok,
            string_views(lines@) == start + sequence_code(views, i as nat, first, t@)->Ok_0.0,
            blocks_view(blocks@) == sequence_code(views, i as nat, first, t@)->Ok_0.1,
        decreases children.len() - i,
    {
        assert(views[i as int] == children@[i as int]@);
        let ghost so_far = sequence_code(views, i as nat, first, t@)->Ok_0.0;
        match compile_expr(&children[i], blocks, t) {
            Err(error) => {
                proof {
                    assert(sequence_code(views, (i + 1) as nat, first, t@) is Err);
                    lemma_sequence_fault_stays(
                        views,
                        (i + 1) as nat,
                        children.len() as nat,
                        first,
                        t@,
                    );
                }
                return Err(error);
            },
            Ok(more) => {
                let ghost added = string_views(more@);
                append_lines(lines, more);
                assert(string_views(lines@) =~= start + (so_far + added));
            },
        }
        i = i + 1;
    }
    Ok(())
}

fn compile_list(
    children: &Vec<Expression>,
    blocks: &mut Vec<Vec<String>>,
    t: &Templates,
    lines: &mut Vec<String>,
) -> (r: Result<(), CompileError>)
    ensures
        old(blocks).len() <= final(blocks).len(),
        match r {
            Ok(()) => list_code(
                expression_views(children@),
                children.len() as nat,
                blocks_view(old(blocks)@),
                t@,
            ) is Ok && string_views(final(lines)@) == string_views(old(lines)@) + list_code(
                expression_views(children@),
                children.len() as nat,
                blocks_view(old(blocks)@),
                t@,
            )->Ok_0.0 && blocks_view(final(blocks)@) == list_code(
                expression_views(children@),
                children.len() as nat,
                blocks_view(old(blocks)@),
                t@,
            )->Ok_0.1,
            Err(error) => list_code(
                expression_views(children@),
                children.len() as nat,
                blocks_view(old(blocks)@),
                t@,
            ) == Err::<(Seq<Seq<char>>, Blocks), CompileFault>(error@),
        },
    decreases children, children.len(), 0nat,
{
    let ghost views = expression_views(children@);
    let ghost start = string_views(lines@);
    let ghost first = blocks_view(blocks@);
    proof {
        lemma_expression_views(children@);
        assert(start + Seq::<Seq<char>>::empty() =~= start);
    }
    let mut i: usize = 0;
    while i < children.len()
        invariant
            i <= children.len(),
            views == expression_views(children@),
            views.len() == children.len(),
            forall|j: int| 0 <= j < children.len() ==> #[trigger] views[j] == children@[j]@,
            first == blocks_view(old(blocks)@),
            start == string_views(old(lines)@),
            old(blocks).len() <= blocks.len(),
            list_code(views, i as nat, first, t@) is Ok,
            string_views(lines@) == start + list_code(views, i as nat, first, t@)->Ok_0.0,
            blocks_view(blocks@) == list_code(views, i as nat, first, t@)->Ok_0.1,
        decreases children.len() - i,
    {
        assert(views[i as int] == children@[i as int]@);
        let ghost so_far = list_code(views, i as nat, first, t@)->Ok_0.0;
        match compile_expr(&children[i], blocks, t) {
            Err(error) => {
                proof {
                    assert(list_code(views, (i + 1) as nat, first, t@) is Err);
                    lemma_list_fault_stays(views, (i + 1) as nat, children.len() as nat, first, t@);
                }
                return Err(error);
            },
            Ok(more) => {
                let ghost added = string_views(more@);
                append_lines(lines, more);
                let text = text_of_expression(&children[i]);
                let ghost before = string_views(lines@);
                let line = collect_code_text(text.as_str());
                lines.push(line);
                assert(string_views(lines@) =~= before.push(line@));
                assert(string_views(lines@) =~= start + (so_far + added).push(
                    collect_code(expression_text(views[i as int])),
                ));
            },
        }
        i = i + 1;
    }
    Ok(())
}

proof fn lemma_sequence_fault_stays(
    children: Seq<ExpressionView>,
    k: nat,
    n: nat,
    blocks: Blocks,
    t: TemplatesView,
)
    requires
        1 <= k <= n <= children.len(),
        sequence_code(children, k, blocks, t) is Err,
    ensures
        sequence_code(children, n, blocks, t) == sequence_code(children, k, blocks, t),
    decreases n - k,
{
    if k < n {
        lemma_sequence_fault_stays(children, k, (n - 1) as nat, blocks, t);
    }
}

proof fn lemma_list_fault_stays(
    children: Seq<ExpressionView>,
    k: nat,
    n: nat,
    blocks: Blocks,
    t: TemplatesView,
)
    requires
        1 <= k <= n <= children.len(),
        list_code(children, k, blocks, t) is Err,
    ensures
        list_code(children, n, blocks, t) == list_code(children, k, blocks, t),
    decreases n - k,
{
    if k < n {
        lemma_list_fault_stays(children, k, (n - 1) as nat, blocks, t);
    }
}

/// Compile a block into a function of its own, to be output later, and
/// give its number.
fn compile_block(
    arity_in: usize,
    arity_out: usize,
    body: &Vec<Expression>,
    blocks: &mut Vec<Vec<String>>,
    t: &Templates,
) -> (r: Result<usize, CompileError>)
    ensures
        old(blocks).len() <= final(blocks).len(),
        match r {
            Ok(index) => block_code(
                arity_in as nat,
                arity_out as nat,
                expression_views(body@),
                blocks_view(old(blocks)@),
                t@,
            ) == Ok::<(nat, Blocks), CompileFault>((index as nat, blocks_view(final(blocks)@))),
            Err(error) => block_code(
                arity_in as nat,
                arity_out as nat,
                expression_views(body@),
                blocks_view(old(blocks)@),
                t@,
            ) == Err::<(nat, Blocks), CompileFault>(error@),
        },
    decreases body, body.len(), 1nat,
{
    let ghost views = expression_views(body@);
    let ghost first = blocks_view(blocks@);
    proof {
        lemma_expression_views(body@);
    }
    let index: usize = blocks.len();
    // A place for the lines of this block, to hold its number
    let place: Vec<String> = Vec::new();
    assert(string_views(place@) =~= Seq::<Seq<char>>::empty());
    blocks.push(place);
    assert(blocks_view(blocks@) =~= first.push(Seq::empty()));
    let mut lines: Vec<String> = Vec::new();
    let comment = text_of_body(body);
    lines.push(block_comment_text(comment.as_str()));
    let number_in = decimal_text(arity_in);
    lines.push(enter_code_text(number_in.as_str()));
    let ghost head = seq![block_comment(body_text(views)), enter_code(decimal(arity_in as nat))];
    assert(string_views(lines@) =~= head);
    // Compile the block itself
    match compile_sequence(body, blocks, t, &mut lines) {
        Err(error) => Err(error),
        Ok(()) => {
            let ghost inner = sequence_code(views, views.len(), first.push(Seq::empty()), t@)->Ok_0.0;
            let ghost after = blocks_view(blocks@);
            // Pop the block off the stack
            let number_out = decimal_text(arity_out);
            lines.push(leave_code_text(number_out.as_str()));
            let ghost left = string_views(lines@);
            assert(left =~= head + inner + seq![leave_code(decimal(arity_out as nat))]);
            let mut i: usize = 0;
            assert(left + restore_lines(0) =~= left);
            while i < arity_out
                invariant
                    i <= arity_out,
                    string_views(lines@) == left + restore_lines(i as nat),
                decreases arity_out - i,
            {
                let ghost before = string_views(lines@);
                let line = String::from_str(RESTORE_CODE);
                lines.push(line);
                assert(string_views(lines@) =~= before.push(line@));
                assert(before.push(RESTORE_CODE@) =~= left + restore_lines((i + 1) as nat));
                i = i + 1;
            }
            let ghost all = string_views(lines@);
            blocks.set(index, lines);
            assert(blocks_view(blocks@) =~= after.update(index as int, all));
            Ok(index)
        },
    }
}

/// The lines that give the first `k` names their numbers.
pub open spec fn name_defines(names: Seq<Seq<char>>, k: nat) -> Seq<char>
    decreases k,
{
    if k == 0 || k > names.len() {
        Seq::empty()
    } else {
        name_defines(names, (k - 1) as nat) + name_define(names[k - 1], decimal((k - 1) as nat))
    }
}

/// The lines that give the first `k` numbers their names.
pub open spec fn index_defines(names: Seq<Seq<char>>, k: nat) -> Seq<char>
    decreases k,
{
    if k == 0 || k > names.len() {
        Seq::empty()
    } else {
        index_defines(names, (k - 1) as nat) + index_define(
            names[k - 1],
            decimal((k - 1) as nat),
        )
    }
}

/// The lines that give the texts of the first `k` names for their
/// numbers.
pub open spec fn name_cases(names: Seq<Seq<char>>, k: nat) -> Seq<char>
    decreases k,
{
    if k == 0 || k > names.len() {
        Seq::empty()
    } else {
        name_cases(names, (k - 1) as nat) + name_case(names[k - 1], decimal((k - 1) as nat))
    }
}

/// The C of the names: each name as a number, each number as a name, and
/// a function that gives the text of a name for its number, so that a
/// message can show the name as it was written.
pub open spec fn names_code(names: Seq<Seq<char>>) -> Seq<char> {
    name_defines(names, names.len()) + seq!['\n'] + index_defines(names, names.len()) + seq![
        '\n',
    ] + NAME_SWITCH_HEAD@ + name_cases(names, names.len()) + NAME_SWITCH_FOOT@
}

fn names_text(names: &Vec<String>) -> (r: String)
    ensures
        r@ == names_code(string_views(names@)),
{
    let ghost views = string_views(names@);
    let mut out: Vec<char> = Vec::new();
    let mut i: usize = 0;
    assert(out@ =~= name_defines(views, 0));
    while i < names.len()
        invariant
            i <= names.len(),
            views == string_views(names@),
            out@ == name_defines(views, i as nat),
        decreases names.len() - i,
    {
        let number = decimal_text(i);
        let line = name_define_text(names[i].as_str(), number.as_str());
        assert(views[i as int] == names@[i as int]@);
        push_str(&mut out, line.as_str());
        i = i + 1;
    }
    out.push('\n');
    let ghost first = out@;
    i = 0;
    assert(out@ =~= first + index_defines(views, 0));
    while i < names.len()
        invariant
            i <= names.len(),
            views == string_views(names@),
            out@ == first + index_defines(views, i as nat),
        decreases names.len() - i,
    {
        let number = decimal_text(i);
        let line = index_define_text(names[i].as_str(), number.as_str());
        assert(views[i as int] == names@[i as int]@);
        let ghost before = out@;
        push_str(&mut out, line.as_str());
        assert(out@ =~= first + index_defines(views, (i + 1) as nat));
        i = i + 1;
    }
    out.push('\n');
    push_str(&mut out, NAME_SWITCH_HEAD);
    let ghost second = out@;
    i = 0;
    assert(out@ =~= second + name_cases(views, 0));
    while i < names.len()
        invariant
            i <= names.len(),
            views == string_views(names@),
            out@ == second + name_cases(views, i as nat),
        decreases names.len() - i,
    {
        let number = decimal_text(i);
        let line = name_case_text(names[i].as_str(), number.as_str());
        assert(views[i as int] == names@[i as int]@);
        push_str(&mut out, line.as_str());
        assert(out@ =~= second + name_cases(views, (i + 1) as nat));
        i = i + 1;
    }
    push_str(&mut out, NAME_SWITCH_FOOT);
    assert(out@ =~= names_code(views));
    string_of(&out)
}

/// The declarations of the functions of the first `k` blocks.
pub open spec fn declarations(k: nat) -> Seq<char>
    decreases k,
{
    if k == 0 {
        Seq::empty()
    } else {
        declarations((k - 1) as nat) + declaration_code(decimal((k - 1) as nat))
    }
}

/// The lines of a block from the second to the `k`-th, each with a
/// newline behind it.
pub open spec fn body_lines(lines: Seq<Seq<char>>, k: nat) -> Seq<char>
    decreases k,
{
    if k <= 1 || k > lines.len() {
        Seq::empty()
    } else {
        body_lines(lines, (k - 1) as nat) + lines[k - 1] + seq!['\n']
    }
}

/// The C function of the block with the number `index`: its comment,
/// which is its first line, the start of the function, its other lines, and
/// the end of the function, where the names that the block has bound are
/// released.
pub open spec fn function_code(index: nat, lines: Seq<Seq<char>>) -> Seq<char> {
    seq!['\n'] + (if lines.len() > 0 {
        lines[0]
    } else {
        Seq::empty()
    }) + function_head(decimal(index)) + body_lines(lines, lines.len()) + function_foot(
        decimal(index),
    )
}

/// The C functions of the first `k` blocks.
pub open spec fn functions(blocks: Blocks, k: nat) -> Seq<char>
    decreases k,
{
    if k == 0 || k > blocks.len() {
        Seq::empty()
    } else {
        functions(blocks, (k - 1) as nat) + function_code((k - 1) as nat, blocks[k - 1])
    }
}

/// The C of the blocks: the declarations of all functions, then the
/// functions.
pub open spec fn blocks_code(blocks: Blocks) -> Seq<char> {
    declarations(blocks.len()) + functions(blocks, blocks.len())
}

fn push_function(out: &mut Vec<char>, index: usize, lines: &Vec<String>)
    ensures
        final(out)@ == old(out)@ + function_code(index as nat, string_views(lines@)),
{
    let ghost views = string_views(lines@);
    let number = decimal_text(index);
    out.push('\n');
    if lines.len() > 0 {
        assert(views[0] == lines@[0]@);
        push_str(out, lines[0].as_str());
    }
    let head = function_head_text(number.as_str());
    push_str(out, head.as_str());
    let ghost start = out@;
    assert(start =~= old(out)@ + (seq!['\n'] + (if views.len() > 0 {
        views[0]
    } else {
        Seq::empty()
    }) + function_head(decimal(index as nat))));
    let mut i: usize = 1;
    assert(out@ =~= start + body_lines(views, 1));
    if lines.len() > 1 {
        while i < lines.len()
            invariant
                1 <= i <= lines.len(),
                views == string_views(lines@),
                out@ == start + body_lines(views, i as nat),
            decreases lines.len() - i,
        {
            assert(views[i as int] == lines@[i as int]@);
            push_str(out, lines[i].as_str());
            out.push('\n');
            assert(out@ =~= start + body_lines(views, (i + 1) as nat));
            i = i + 1;
        }
        assert(out@ == start + body_lines(views, views.len()));
    } else {
        assert(body_lines(views, views.len()) =~= Seq::<char>::empty());
        assert(out@ =~= start + body_lines(views, views.len()));
    }
    let foot = function_foot_text(number.as_str());
    push_str(out, foot.as_str());
    assert(out@ =~= old(out)@ + function_code(index as nat, views));
}

fn blocks_text(blocks: &Vec<Vec<String>>) -> (r: String)
    ensures
        r@ == blocks_code(blocks_view(blocks@)),
{
    let ghost views = blocks_view(blocks@);
    let mut out: Vec<char> = Vec::new();
    // Forward declarations
    let mut i: usize = 0;
    assert(out@ =~= declarations(0));
    while i < blocks.len()
        invariant
            i <= blocks.len(),
            out@ == declarations(i as nat),
        decreases blocks.len() - i,
    {
        let number = decimal_text(i);
        let line = declaration_code_text(number.as_str());
        push_str(&mut out, line.as_str());
        i = i + 1;
    }
    // Generate block functions
    let ghost declared = out@;
    i = 0;
    assert(out@ =~= declared + functions(views, 0));
    while i < blocks.len()
        invariant
            i <= blocks.len(),
            views == blocks_view(blocks@),
            out@ == declared + functions(views, i as nat),
        decreases blocks.len() - i,
    {
        assert(views[i as int] == string_views(blocks@[i as int]@));
        push_function(&mut out, i, &blocks[i]);
        assert(out@ =~= declared + functions(views, (i + 1) as nat));
        i = i + 1;
    }
    assert(out@ =~= blocks_code(views));
    string_of(&out)
}

/// The switch for debugging as it stands in the program text.
pub open spec fn debug_code(debug: bool) -> Seq<char> {
    if debug {
        "#define DEBUG 1"@
    } else {
        "// #define DEBUG 1"@
    }
}

/// The C program that an expression tree is compiled to.
///
/// The tree must be a group, whose children are the body of the
/// outermost block, the one with the number 0, which takes nothing and
/// leaves nothing. The program text is that of the runtime with the switch
/// for debugging, the C of the names and the C of the blocks in the places
/// of their marks.
pub open spec fn compiled(ast: ExpressionView, t: TemplatesView, debug: bool) -> Result<
    Seq<char>,
    CompileFault,
> {
    match names_in(ast, Seq::empty()) {
        Err(fault) => Err(fault),
        Ok(names) => match ast {
            ExpressionView::Group(body) => match block_code(0, 0, body, Seq::empty(), t) {
                Err(fault) => Err(fault),
                Ok((_, blocks)) => Ok(
                    replaced(
                        replaced(
                            replaced(t.program, DEBUG_MARK@, debug_code(debug)),
                            NAMES_MARK@,
                            names_code(names),
                        ),
                        BLOCKS_MARK@,
                        blocks_code(blocks),
                    ),
                ),
            },
            _ => Err(CompileFault::NotAGroup),
        },
    }
}

/// Compile the AST into C code.
///
/// `templates` holds the texts of the C runtime, `debug` says whether
/// the program is to report what it does. The result is exactly `compiled`
/// of the tree: the text of the C program, or the reason why there is none.
pub fn compile(ast: Expression, templates: &Templates, debug: bool) -> (r: Result<
    String,
    CompileError,
>)
    ensures
        match r {
            Ok(text) => compiled(ast@, templates@, debug) == Ok::<Seq<char>, CompileFault>(text@),
            Err(error) => compiled(ast@, templates@, debug) == Err::<Seq<char>, CompileFault>(
                error@,
            ),
        },
{
    // Debug flag
    let program = if debug {
        replace_text(templates.program.as_str(), DEBUG_MARK, "#define DEBUG 1")
    } else {
        replace_text(templates.program.as_str(), DEBUG_MARK, "// #define DEBUG 1")
    };
    // Generate the NAMES
    let names = match collect_names(&ast) {
        Ok(names) => names,
        Err(error) => {
            return Err(error);
        },
    };
    let names_block = names_text(&names);
    let program = replace_text(program.as_str(), NAMES_MARK, names_block.as_str());
    // Generate the BLOCKS
    let mut blocks: Vec<Vec<String>> = Vec::new();
    assert(blocks_view(blocks@) =~= Seq::<Seq<Seq<char>>>::empty());
    match &ast {
        Expression::Group(body) => {
            proof {
                lemma_expression_views(body@);
            }
            match compile_block(0, 0, body, &mut blocks, templates) {
                Ok(_) => {},
                Err(error) => {
                    return Err(error);
                },
            }
        },
        _ => {
            return Err(CompileError::NotAGroup);
        },
    }
    let block_block = blocks_text(&blocks);
    Ok(replace_text(program.as_str(), BLOCKS_MARK, block_block.as_str()))
}

/// Every block has a function of its own: compiling an expression
/// leaves the blocks that were there as many as they were, and in their
/// places.
pub proof fn lemma_expression_keeps_blocks(e: ExpressionView, blocks: Blocks, t: TemplatesView)
    requires
        expr_code(e, blocks, t) is Ok,
    ensures
        blocks.len() <= expr_code(e, blocks, t)->Ok_0.1.len(),
    decreases e, 0nat, 0nat,
{
    match e {
        ExpressionView::Block(body) => {
            let arity = arity_of(e)->Ok_0;
            lemma_block_gets_a_number(arity.0, arity.1, body, blocks, t);
        },
        ExpressionView::List(values) => {
            lemma_list_keeps_blocks(values, values.len(), blocks, t);
        },
        ExpressionView::Group(children) => {
            lemma_sequence_keeps_blocks(children, children.len(), blocks, t);
        },
        _ => {},
    }
}

proof fn lemma_sequence_keeps_blocks(
    children: Seq<ExpressionView>,
    k: nat,
    blocks: Blocks,
    t: TemplatesView,
)
    requires
        sequence_code(children, k, blocks, t) is Ok,
    ensures
        blocks.len() <= sequence_code(children, k, blocks, t)->Ok_0.1.len(),
    decreases children, k, 0nat,
{
    if k == 0 || k > children.len() {
    } else {
        lemma_sequence_keeps_blocks(children, (k - 1) as nat, blocks, t);
        let before = sequence_code(children, (k - 1) as nat, blocks, t)->Ok_0.1;
        lemma_expression_keeps_blocks(children[k - 1], before, t);
    }
}

proof fn lemma_list_keeps_blocks(
    children: Seq<ExpressionView>,
    k: nat,
    blocks: Blocks,
    t: TemplatesView,
)
    requires
        list_code(children, k, blocks, t) is Ok,
    ensures
        blocks.len() <= list_code(children, k, blocks, t)->Ok_0.1.len(),
    decreases children, k, 0nat,
{
    if k == 0 || k > children.len() {
    } else {
        lemma_list_keeps_blocks(children, (k - 1) as nat, blocks, t);
        let before = list_code(children, (k - 1) as nat, blocks, t)->Ok_0.1;
        lemma_expression_keeps_blocks(children[k - 1], before, t);
    }
}

/// The number that a block gets is the number of a function: it is that
/// of the next free place among the blocks, and after compiling the block
/// that place holds the block's lines, which start with its comment and the
/// setting of the frame floor below its inputs.
pub proof fn lemma_block_gets_a_number(
    arity_in: nat,
    arity_out: nat,
    body: Seq<ExpressionView>,
    blocks: Blocks,
    t: TemplatesView,
)
    requires
        block_code(arity_in, arity_out, body, blocks, t) is Ok,
    ensures
        block_code(arity_in, arity_out, body, blocks, t)->Ok_0.0 == blocks.len(),
        blocks.len() < block_code(arity_in, arity_out, body, blocks, t)->Ok_0.1.len(),
        block_code(arity_in, arity_out, body, blocks, t)->Ok_0.1[blocks.len() as int].len()
            >= 3 + arity_out,
        block_code(arity_in, arity_out, body, blocks, t)->Ok_0.1[blocks.len() as int][1]
            == enter_code(decimal(arity_in)),
    decreases body, body.len(), 1nat,
{
    lemma_sequence_keeps_blocks(body, body.len(), blocks.push(Seq::empty()), t);
}

} // verus!
