//! C source text as a tree of lines and braced blocks.

use crate::text::{push_all, push_str, string_of};
use vstd::prelude::*;

verus! {

/// A piece of C code: one line, or a block in braces with an optional
/// prefix before the opening brace.
#[derive(Debug, PartialEq, Eq)]
pub enum CCode {
    Block { prefix: Option<String>, body: Vec<CCode> },
    Line(String),
}

/// What a piece of C code holds.
pub enum CCodeView {
    Block { prefix: Option<Seq<char>>, body: Seq<CCodeView> },
    Line(Seq<char>),
}

/// The view of a piece of C code.
pub open spec fn ccode_view(code: CCode) -> CCodeView
    decreases code,
{
    match code {
        CCode::Block { prefix, body } => CCodeView::Block {
            prefix: match prefix {
                Some(p) => Some(p@),
                None => None,
            },
            body: ccode_views(body@),
        },
        CCode::Line(line) => CCodeView::Line(line@),
    }
}

/// The views of a sequence of pieces, one for one.
pub open spec fn ccode_views(body: Seq<CCode>) -> Seq<CCodeView>
    decreases body,
{
    if body.len() == 0 {
        Seq::empty()
    } else {
        ccode_views(body.drop_last()).push(ccode_view(body.last()))
    }
}

impl View for CCode {
    type V = CCodeView;

    open spec fn view(&self) -> CCodeView {
        ccode_view(*self)
    }
}

/// `depth` tab characters.
pub open spec fn indentation(depth: nat) -> Seq<char> {
    Seq::new(depth, |i: int| '\t')
}

/// The text of a piece of code at a nesting depth. A line is indented by
/// `depth` tabs and ends with a newline. A block starts with the indented
/// line of its prefix, a space and `{` (only `{` without a prefix), holds the
/// text of its body one level deeper, and ends with the indented line `}`.
pub open spec fn rendered(code: CCodeView, depth: nat) -> Seq<char>
    decreases code, 0nat,
{
    match code {
        CCodeView::Line(line) => indentation(depth) + line + seq!['\n'],
        CCodeView::Block { prefix, body } => indentation(depth) + (match prefix {
            Some(p) => p + seq![' '],
            None => Seq::empty(),
        }) + seq!['{', '\n'] + rendered_all(body, body.len(), depth + 1) + indentation(depth)
            + seq!['}', '\n'],
    }
}

/// The texts of the first `k` pieces of a body, one after the other.
pub open spec fn rendered_all(body: Seq<CCodeView>, k: nat, depth: nat) -> Seq<char>
    decreases body, k,
{
    if k == 0 || k > body.len() {
        Seq::empty()
    } else {
        rendered_all(body, (k - 1) as nat, depth) + rendered(body[k - 1], depth)
    }
}

proof fn lemma_ccode_views(body: Seq<CCode>)
    ensures
        ccode_views(body).len() == body.len(),
        forall|i: int| 0 <= i < body.len() ==> #[trigger] ccode_views(body)[i] == ccode_view(body[i]),
    decreases body.len(),
{
    if body.len() > 0 {
        lemma_ccode_views(body.drop_last());
    }
}

fn render_into(code: &CCode, indent: &mut Vec<char>, out: &mut Vec<char>, Ghost(depth): Ghost<nat>)
    requires
        old(indent)@ == indentation(depth),
    ensures
        final(indent)@ == old(indent)@,
        final(out)@ == old(out)@ + rendered(code@, depth),
    decreases code,
{
    match code {
        CCode::Line(line) => {
            push_all(out, indent);
            push_str(out, line.as_str());
            out.push('\n');
            assert(out@ =~= old(out)@ + rendered(code@, depth));
        },
        CCode::Block { prefix, body } => {
            push_all(out, indent);
            match prefix {
                Some(p) => {
                    push_str(out, p.as_str());
                    out.push(' ');
                },
                None => {},
            }
            out.push('{');
            out.push('\n');
            let ghost head = out@;
            let ghost views = ccode_views(body@);
            proof {
                lemma_ccode_views(body@);
            }
            indent.push('\t');
            assert(indent@ =~= indentation(depth + 1));
            let mut i: usize = 0;
            while i < body.len()
                invariant
                    i <= body.len(),
                    indent@ == indentation(depth + 1),
                    views == ccode_views(body@),
                    views.len() == body.len(),
                    forall|j: int| 0 <= j < body.len() ==> #[trigger] views[j] == body@[j]@,
                    out@ == head + rendered_all(views, i as nat, depth + 1),
                    decreases_to!(*code => *body),
                decreases body.len() - i,
            {
                assert(views[i as int] == body@[i as int]@);
                render_into(&body[i], indent, out, Ghost(depth + 1));
                assert(out@ =~= head + rendered_all(views, (i + 1) as nat, depth + 1));
                i = i + 1;
            }
            indent.pop();
            assert(indent@ =~= indentation(depth));
            push_all(out, indent);
            out.push('}');
            out.push('\n');
            assert(out@ =~= old(out)@ + rendered(code@, depth));
        },
    }
}

impl CCode {
    /// The text of this piece of code, indented by `depth` tabs.
    pub fn to_string(&self, depth: usize) -> (r: String)
        ensures
            r@ == rendered(self@, depth as nat),
    {
        let mut indent: Vec<char> = Vec::new();
        let mut i: usize = 0;
        while i < depth
            invariant
                i <= depth,
                indent@ == indentation(i as nat),
            decreases depth - i,
        {
            indent.push('\t');
            assert(indent@ =~= indentation((i + 1) as nat));
            i = i + 1;
        }
        let mut out: Vec<char> = Vec::new();
        render_into(self, &mut indent, &mut out, Ghost(depth as nat));
        assert(out@ =~= rendered(self@, depth as nat));
        string_of(&out)
    }
}

} // verus!
