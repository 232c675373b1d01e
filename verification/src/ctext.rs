//! The pieces of C text that the compiler puts together.

use crate::render::{Fragment, FragmentView};
use crate::text::{
    chars_of, decimal, push_all, push_decimal, push_signed_decimal, push_str, signed_decimal,
    string_of,
};
use vstd::prelude::*;

verus! {

/// The pieces one after the other.
pub open spec fn glued(parts: Seq<Seq<char>>) -> Seq<char>
    decreases parts.len(),
{
    if parts.len() == 0 {
        Seq::empty()
    } else {
        glued(parts.drop_last()) + parts.last()
    }
}

/// The texts of some pieces.
pub open spec fn texts_of(parts: Seq<&str>) -> Seq<Seq<char>> {
    Seq::new(parts.len(), |i: int| parts[i]@)
}

/// The text made of the pieces, one after the other.
pub fn glue(parts: &Vec<&str>) -> (r: String)
    ensures
        r@ == glued(texts_of(parts@)),
{
    let mut out: Vec<char> = Vec::new();
    let mut i: usize = 0;
    assert(texts_of(parts@).take(0) =~= Seq::<Seq<char>>::empty());
    while i < parts.len()
        invariant
            i <= parts.len(),
            out@ == glued(texts_of(parts@).take(i as int)),
        decreases parts.len() - i,
    {
        push_str(&mut out, parts[i]);
        assert(texts_of(parts@).take(i + 1).drop_last() =~= texts_of(parts@).take(i as int));
        i = i + 1;
    }
    assert(texts_of(parts@).take(parts.len() as int) =~= texts_of(parts@));
    string_of(&out)
}

/// The decimal numeral of a count.
pub fn decimal_text(n: usize) -> (r: String)
    ensures
        r@ == decimal(n as nat),
{
    let mut out: Vec<char> = Vec::new();
    push_decimal(&mut out, n as u128);
    assert(out@ =~= decimal(n as nat));
    string_of(&out)
}

/// The decimal numeral of an integer.
pub fn integer_text(v: i64) -> (r: String)
    ensures
        r@ == signed_decimal(v as int),
{
    let mut out: Vec<char> = Vec::new();
    push_signed_decimal(&mut out, v);
    assert(out@ =~= signed_decimal(v as int));
    string_of(&out)
}

/// The character that writes a hexadecimal digit.
pub open spec fn hex_digit(d: int) -> char {
    if d == 10 {
        'a'
    } else if d == 11 {
        'b'
    } else if d == 12 {
        'c'
    } else if d == 13 {
        'd'
    } else if d == 14 {
        'e'
    } else if d == 15 {
        'f'
    } else {
        crate::text::digit_char(d)
    }
}

/// The last `width` hexadecimal digits of a number.
pub open spec fn hex_fixed(value: nat, width: nat) -> Seq<char>
    decreases width,
{
    if width == 0 {
        Seq::empty()
    } else {
        hex_fixed(value / 16, (width - 1) as nat).push(hex_digit((value % 16) as int))
    }
}

fn hex_digit_of(d: u64) -> (c: char)
    requires
        d < 16,
    ensures
        c == hex_digit(d as int),
{
    if d == 0 {
        '0'
    } else if d == 1 {
        '1'
    } else if d == 2 {
        '2'
    } else if d == 3 {
        '3'
    } else if d == 4 {
        '4'
    } else if d == 5 {
        '5'
    } else if d == 6 {
        '6'
    } else if d == 7 {
        '7'
    } else if d == 8 {
        '8'
    } else if d == 9 {
        '9'
    } else if d == 10 {
        'a'
    } else if d == 11 {
        'b'
    } else if d == 12 {
        'c'
    } else if d == 13 {
        'd'
    } else if d == 14 {
        'e'
    } else {
        'f'
    }
}

fn push_hex_fixed(out: &mut Vec<char>, value: u64, width: usize)
    ensures
        final(out)@ == old(out)@ + hex_fixed(value as nat, width as nat),
    decreases width,
{
    if width == 0 {
        assert(out@ =~= old(out)@ + hex_fixed(value as nat, 0));
    } else {
        push_hex_fixed(out, value / 16, width - 1);
        out.push(hex_digit_of(value % 16));
        assert(out@ =~= old(out)@ + hex_fixed(value as nat, width as nat));
    }
}

/// The sign bit of a float: 1 for a negative one.
pub open spec fn float_sign(bits: u64) -> nat {
    (bits / 0x8000_0000_0000_0000) as nat
}

/// The eleven exponent bits of a float.
pub open spec fn float_exponent(bits: u64) -> nat {
    ((bits / 0x10_0000_0000_0000) % 2048) as nat
}

/// The fifty-two fraction bits of a float.
pub open spec fn float_fraction(bits: u64) -> nat {
    (bits % 0x10_0000_0000_0000) as nat
}

/// A float as C writes it exactly: a hexadecimal floating constant made
/// from the bit pattern, `INFINITY` or `NAN`.
pub open spec fn float_literal(bits: u64) -> Seq<char> {
    let minus = if float_sign(bits) == 1 {
        "-"@
    } else {
        Seq::empty()
    };
    if float_exponent(bits) == 2047 {
        if float_fraction(bits) == 0 {
            minus + "INFINITY"@
        } else {
            "NAN"@
        }
    } else if float_exponent(bits) == 0 {
        if float_fraction(bits) == 0 {
            minus + "0x0p0"@
        } else {
            minus + "0x0."@ + hex_fixed(float_fraction(bits), 13) + "p-1022"@
        }
    } else {
        minus + "0x1."@ + hex_fixed(float_fraction(bits), 13) + "p"@ + signed_decimal(
            float_exponent(bits) - 1023,
        )
    }
}

/// Appends a float as C writes it exactly.
pub fn push_float_literal(out: &mut Vec<char>, bits: u64)
    ensures
        final(out)@ == old(out)@ + float_literal(bits),
{
    let sign: u64 = bits / 0x8000_0000_0000_0000;
    let exponent: u64 = (bits / 0x10_0000_0000_0000) % 2048;
    let fraction: u64 = bits % 0x10_0000_0000_0000;
    let ghost minus = if sign == 1 {
        "-"@
    } else {
        Seq::empty()
    };
    if exponent == 2047 && fraction != 0 {
        push_str(out, "NAN");
        return ;
    }
    if sign == 1 {
        push_str(out, "-");
    }
    assert(out@ =~= old(out)@ + minus);
    if exponent == 2047 {
        push_str(out, "INFINITY");
        assert(out@ =~= old(out)@ + (minus + "INFINITY"@));
    } else if exponent == 0 {
        if fraction == 0 {
            push_str(out, "0x0p0");
            assert(out@ =~= old(out)@ + (minus + "0x0p0"@));
        } else {
            push_str(out, "0x0.");
            push_hex_fixed(out, fraction, 13);
            push_str(out, "p-1022");
            assert(out@ =~= old(out)@ + (minus + "0x0."@ + hex_fixed(fraction as nat, 13)
                + "p-1022"@));
        }
    } else {
        push_str(out, "0x1.");
        push_hex_fixed(out, fraction, 13);
        push_str(out, "p");
        push_signed_decimal(out, exponent as i64 - 1023);
        assert(out@ =~= old(out)@ + (minus + "0x1."@ + hex_fixed(fraction as nat, 13) + "p"@
            + signed_decimal(exponent - 1023)));
    }
}

/// A float as C writes it exactly.
pub fn float_literal_text(bits: u64) -> (r: String)
    ensures
        r@ == float_literal(bits),
{
    let mut out: Vec<char> = Vec::new();
    push_float_literal(&mut out, bits);
    assert(out@ =~= float_literal(bits));
    string_of(&out)
}

/// A fragment as plain text: a float as C writes it, a complex number as
/// its two parts with `+` between them and `i` behind.
pub open spec fn plain_fragment(fragment: FragmentView) -> Seq<char> {
    match fragment {
        FragmentView::Text(t) => t,
        FragmentView::Float(bits) => float_literal(bits),
        FragmentView::Complex { real: re, imaginary: im } => float_literal(re) + "+"@
            + float_literal(im) + "i"@,
    }
}

/// The first `k` fragments as plain text.
pub open spec fn plain_text(fragments: Seq<FragmentView>, k: nat) -> Seq<char>
    decreases k,
{
    if k == 0 || k > fragments.len() {
        Seq::empty()
    } else {
        plain_text(fragments, (k - 1) as nat) + plain_fragment(fragments[k - 1])
    }
}

/// Appends a row of fragments as plain text.
pub fn push_plain(out: &mut Vec<char>, fragments: &Vec<Fragment>)
    ensures
        final(out)@ == old(out)@ + plain_text(
            crate::render::fragment_views(fragments@),
            fragments.len() as nat,
        ),
{
    let ghost views = crate::render::fragment_views(fragments@);
    let mut i: usize = 0;
    assert(out@ =~= old(out)@ + plain_text(views, 0));
    while i < fragments.len()
        invariant
            i <= fragments.len(),
            views == crate::render::fragment_views(fragments@),
            out@ == old(out)@ + plain_text(views, i as nat),
        decreases fragments.len() - i,
    {
        let ghost before = out@;
        assert(views[i as int] == fragments@[i as int]@);
        match &fragments[i] {
            Fragment::Text(t) => {
                push_str(out, t.as_str());
            },
            Fragment::Float(bits) => {
                push_float_literal(out, *bits);
            },
            Fragment::Complex { real: re, imaginary: im } => {
                push_float_literal(out, *re);
                push_str(out, "+");
                push_float_literal(out, *im);
                push_str(out, "i");
                assert(out@ =~= before + (float_literal(*re) + "+"@ + float_literal(*im) + "i"@));
            },
        }
        assert(out@ =~= old(out)@ + plain_text(views, (i + 1) as nat));
        i = i + 1;
    }
}

/// A character as it stands inside a C string constant.
pub open spec fn escaped(c: char) -> Seq<char> {
    if c == '"' {
        seq!['\\', '"']
    } else if c == '\\' {
        seq!['\\', '\\']
    } else if c == '\n' {
        seq!['\\', 'n']
    } else if c == '\t' {
        seq!['\\', 't']
    } else if c == '\r' {
        seq!['\\', 'r']
    } else {
        seq![c]
    }
}

/// The first `k` characters of a text as they stand inside a C string
/// constant.
pub open spec fn escaped_text(text: Seq<char>, k: nat) -> Seq<char>
    decreases k,
{
    if k == 0 || k > text.len() {
        Seq::empty()
    } else {
        escaped_text(text, (k - 1) as nat) + escaped(text[k - 1])
    }
}

/// A text as a C string constant, in double quotes.
pub open spec fn string_literal(text: Seq<char>) -> Seq<char> {
    seq!['"'] + escaped_text(text, text.len()) + seq!['"']
}

/// A text as a C string constant.
pub fn string_literal_text(text: &str) -> (r: String)
    ensures
        r@ == string_literal(text@),
{
    let chars = chars_of(text);
    let mut out: Vec<char> = Vec::new();
    out.push('"');
    let mut i: usize = 0;
    assert(out@ =~= seq!['"'] + escaped_text(chars@, 0));
    while i < chars.len()
        invariant
            i <= chars.len(),
            out@ == seq!['"'] + escaped_text(chars@, i as nat),
        decreases chars.len() - i,
    {
        let c = chars[i];
        if c == '"' {
            out.push('\\');
            out.push('"');
        } else if c == '\\' {
            out.push('\\');
            out.push('\\');
        } else if c == '\n' {
            out.push('\\');
            out.push('n');
        } else if c == '\t' {
            out.push('\\');
            out.push('t');
        } else if c == '\r' {
            out.push('\\');
            out.push('r');
        } else {
            out.push(c);
        }
        assert(out@ =~= seq!['"'] + escaped_text(chars@, (i + 1) as nat));
        i = i + 1;
    }
    out.push('"');
    assert(out@ =~= string_literal(chars@));
    string_of(&out)
}

/// The text with every occurrence of a pattern replaced, from left to
/// right; an occurrence that overlaps a replaced one is none. An empty
/// pattern occurs nowhere.
pub open spec fn replaced(text: Seq<char>, pattern: Seq<char>, with: Seq<char>) -> Seq<char>
    decreases text.len(),
{
    if pattern.len() == 0 || text.len() < pattern.len() {
        text
    } else if text.take(pattern.len() as int) == pattern {
        with + replaced(text.skip(pattern.len() as int), pattern, with)
    } else {
        seq![text[0]] + replaced(text.skip(1), pattern, with)
    }
}

fn occurs_at(text: &Vec<char>, at: usize, pattern: &Vec<char>) -> (r: bool)
    requires
        at + pattern.len() <= text.len(),
    ensures
        r == (text@.skip(at as int).take(pattern.len() as int) == pattern@),
{
    let mut j: usize = 0;
    while j < pattern.len()
        invariant
            j <= pattern.len(),
            at + pattern.len() <= text.len(),
            forall|k: int| 0 <= k < j ==> text@[at + k] == pattern@[k],
        decreases pattern.len() - j,
    {
        if text[at + j] != pattern[j] {
            assert(text@.skip(at as int).take(pattern.len() as int)[j as int] != pattern@[j as int]);
            return false;
        }
        j = j + 1;
    }
    assert(text@.skip(at as int).take(pattern.len() as int) =~= pattern@);
    true
}

/// Replaces every occurrence of `pattern` in `text` by `with`.
pub fn replace_text(text: &str, pattern: &str, with: &str) -> (r: String)
    ensures
        r@ == replaced(text@, pattern@, with@),
{
    let source = chars_of(text);
    let search = chars_of(pattern);
    let insert = chars_of(with);
    let n: usize = source.len();
    let m: usize = search.len();
    if m == 0 || n < m {
        return String::from_str(text);
    }
    let mut out: Vec<char> = Vec::new();
    let mut i: usize = 0;
    assert(source@.skip(0) =~= source@);
    while i <= n - m
        invariant
            i <= n,
            0 < m <= n,
            n == source.len(),
            m == search.len(),
            source@ == text@,
            search@ == pattern@,
            insert@ == with@,
            out@ + replaced(source@.skip(i as int), search@, insert@) == replaced(
                source@,
                search@,
                insert@,
            ),
        decreases n - i,
    {
        let ghost rest = source@.skip(i as int);
        let ghost before = out@;
        if occurs_at(&source, i, &search) {
            push_all(&mut out, &insert);
            assert(rest.skip(m as int) =~= source@.skip(i + m));
            assert(out@ + replaced(source@.skip(i + m), search@, insert@) =~= before + (insert@
                + replaced(rest.skip(m as int), search@, insert@)));
            i = i + m;
        } else {
            out.push(source[i]);
            assert(rest.skip(1) =~= source@.skip(i + 1));
            assert(rest[0] == source@[i as int]);
            assert(out@ + replaced(source@.skip(i + 1), search@, insert@) =~= before + (seq![
                rest[0],
            ] + replaced(rest.skip(1), search@, insert@)));
            i = i + 1;
        }
    }
    let ghost before = out@;
    let ghost tail = source@.skip(i as int);
    while i < n
        invariant
            i <= n,
            n == source.len(),
            tail.len() < m,
            m == search.len(),
            out@ + source@.skip(i as int) == before + tail,
        decreases n - i,
    {
        let ghost shorter = out@;
        out.push(source[i]);
        assert(shorter.push(source@[i as int]) + source@.skip(i + 1) =~= shorter + source@.skip(
            i as int,
        ));
        i = i + 1;
    }
    assert(out@ =~= before + tail) by {
        assert(source@.skip(n as int) =~= Seq::<char>::empty());
    }
    string_of(&out)
}

/// The C of an arithmetic operator on the two topmost values.
pub open spec fn arithmetic_code(operator: Seq<char>) -> Seq<char> {
    glued(seq![
        "\n    {\n        Value *b = stack_ptr--;\n        Value *a = stack_ptr--;\n\n        coerce(a, b);\n        \n        if (a->type == TAG_NUMBER_INTEGER) {\n            Value result = {.type=TAG_NUMBER_INTEGER, .as_integer=a->as_integer "@,
        operator,
        " b->as_integer};\n            *(++stack_ptr) = result;\n        } else if (a->type == TAG_NUMBER_FLOAT) {\n            Value result = {.type=TAG_NUMBER_FLOAT, .as_float=a->as_float "@,
        operator,
        " b->as_float};\n            *(++stack_ptr) = result;\n        }\n    }\n"@,
    ])
}

/// The C of an arithmetic operator on the two topmost values.
pub fn arithmetic_code_text(operator: &str) -> (r: String)
    ensures
        r@ == arithmetic_code(operator@),
{
    let parts = vec![
        "\n    {\n        Value *b = stack_ptr--;\n        Value *a = stack_ptr--;\n\n        coerce(a, b);\n        \n        if (a->type == TAG_NUMBER_INTEGER) {\n            Value result = {.type=TAG_NUMBER_INTEGER, .as_integer=a->as_integer ",
        operator,
        " b->as_integer};\n            *(++stack_ptr) = result;\n        } else if (a->type == TAG_NUMBER_FLOAT) {\n            Value result = {.type=TAG_NUMBER_FLOAT, .as_float=a->as_float ",
        operator,
        " b->as_float};\n            *(++stack_ptr) = result;\n        }\n    }\n",
    ];
    assert(texts_of(parts@) =~= seq![
        "\n    {\n        Value *b = stack_ptr--;\n        Value *a = stack_ptr--;\n\n        coerce(a, b);\n        \n        if (a->type == TAG_NUMBER_INTEGER) {\n            Value result = {.type=TAG_NUMBER_INTEGER, .as_integer=a->as_integer "@,
        operator@,
        " b->as_integer};\n            *(++stack_ptr) = result;\n        } else if (a->type == TAG_NUMBER_FLOAT) {\n            Value result = {.type=TAG_NUMBER_FLOAT, .as_float=a->as_float "@,
        operator@,
        " b->as_float};\n            *(++stack_ptr) = result;\n        }\n    }\n"@,
    ]);
    glue(&parts)
}

/// The C of a comparison of the two topmost values.
pub open spec fn comparison_code(operator: Seq<char>) -> Seq<char> {
    glued(seq![
        "\n    {\n        Value *b = stack_ptr--;\n        Value *a = stack_ptr--;\n        coerce(a, b);\n        \n        if (a->type == TAG_NUMBER_INTEGER) {\n            Value result = {.type=TAG_BOOLEAN, .as_boolean=a->as_integer "@,
        operator,
        " b->as_integer};\n            *(++stack_ptr) = result;\n        } else if (a->type == TAG_NUMBER_FLOAT) {\n            Value result = {.type=TAG_BOOLEAN, .as_boolean=a->as_float "@,
        operator,
        " b->as_float};\n            *(++stack_ptr) = result;\n        }\n    }\n"@,
    ])
}

/// The C of a comparison of the two topmost values.
pub fn comparison_code_text(operator: &str) -> (r: String)
    ensures
        r@ == comparison_code(operator@),
{
    let parts = vec![
        "\n    {\n        Value *b = stack_ptr--;\n        Value *a = stack_ptr--;\n        coerce(a, b);\n        \n        if (a->type == TAG_NUMBER_INTEGER) {\n            Value result = {.type=TAG_BOOLEAN, .as_boolean=a->as_integer ",
        operator,
        " b->as_integer};\n            *(++stack_ptr) = result;\n        } else if (a->type == TAG_NUMBER_FLOAT) {\n            Value result = {.type=TAG_BOOLEAN, .as_boolean=a->as_float ",
        operator,
        " b->as_float};\n            *(++stack_ptr) = result;\n        }\n    }\n",
    ];
    assert(texts_of(parts@) =~= seq![
        "\n    {\n        Value *b = stack_ptr--;\n        Value *a = stack_ptr--;\n        coerce(a, b);\n        \n        if (a->type == TAG_NUMBER_INTEGER) {\n            Value result = {.type=TAG_BOOLEAN, .as_boolean=a->as_integer "@,
        operator@,
        " b->as_integer};\n            *(++stack_ptr) = result;\n        } else if (a->type == TAG_NUMBER_FLOAT) {\n            Value result = {.type=TAG_BOOLEAN, .as_boolean=a->as_float "@,
        operator@,
        " b->as_float};\n            *(++stack_ptr) = result;\n        }\n    }\n"@,
    ]);
    glue(&parts)
}

/// The C that looks a name up and calls what it stands for, if that is a block, or else pushes it.
pub open spec fn lookup_code(name: Seq<char>) -> Seq<char> {
    glued(seq![
        "\n        {\n            Value* v = names_lookup(names, NAME_"@,
        name,
        ");\n            if (v->type == TAG_BLOCK) {\n                void *f = v->as_block;\n                ((void (*)(Name*))f)(names);\n            } else {\n                *(++stack_ptr) = *v;\n            }\n        }\n                    "@,
    ])
}

/// The C that looks a name up and calls what it stands for, if that is a block, or else pushes it.
pub fn lookup_code_text(name: &str) -> (r: String)
    ensures
        r@ == lookup_code(name@),
{
    let parts = vec![
        "\n        {\n            Value* v = names_lookup(names, NAME_",
        name,
        ");\n            if (v->type == TAG_BLOCK) {\n                void *f = v->as_block;\n                ((void (*)(Name*))f)(names);\n            } else {\n                *(++stack_ptr) = *v;\n            }\n        }\n                    ",
    ];
    assert(texts_of(parts@) =~= seq![
        "\n        {\n            Value* v = names_lookup(names, NAME_"@,
        name@,
        ");\n            if (v->type == TAG_BLOCK) {\n                void *f = v->as_block;\n                ((void (*)(Name*))f)(names);\n            } else {\n                *(++stack_ptr) = *v;\n            }\n        }\n                    "@,
    ]);
    glue(&parts)
}

/// The C that pushes a literal value.
pub open spec fn literal_code(tag: Seq<char>, field: Seq<char>, value: Seq<char>) -> Seq<char> {
    glued(seq![
        "\n        {\n            Value v = {.type="@,
        tag,
        ", .as_"@,
        field,
        "="@,
        value,
        "};\n            *(++stack_ptr) = v;\n        }\n    "@,
    ])
}

/// The C that pushes a literal value.
pub fn literal_code_text(tag: &str, field: &str, value: &str) -> (r: String)
    ensures
        r@ == literal_code(tag@, field@, value@),
{
    let parts = vec![
        "\n        {\n            Value v = {.type=",
        tag,
        ", .as_",
        field,
        "=",
        value,
        "};\n            *(++stack_ptr) = v;\n        }\n    ",
    ];
    assert(texts_of(parts@) =~= seq![
        "\n        {\n            Value v = {.type="@,
        tag@,
        ", .as_"@,
        field@,
        "="@,
        value@,
        "};\n            *(++stack_ptr) = v;\n        }\n    "@,
    ]);
    glue(&parts)
}

/// The C that pushes the block with a given number.
pub open spec fn block_value_code(index: Seq<char>) -> Seq<char> {
    glued(seq![
        "\n        {\n            Value v = {.type=TAG_BLOCK, .as_block=(void*)block_"@,
        index,
        "};\n            *(++stack_ptr) = v;\n        }\n    "@,
    ])
}

/// The C that pushes the block with a given number.
pub fn block_value_code_text(index: &str) -> (r: String)
    ensures
        r@ == block_value_code(index@),
{
    let parts = vec![
        "\n        {\n            Value v = {.type=TAG_BLOCK, .as_block=(void*)block_",
        index,
        "};\n            *(++stack_ptr) = v;\n        }\n    ",
    ];
    assert(texts_of(parts@) =~= seq![
        "\n        {\n            Value v = {.type=TAG_BLOCK, .as_block=(void*)block_"@,
        index@,
        "};\n            *(++stack_ptr) = v;\n        }\n    "@,
    ]);
    glue(&parts)
}

/// The C that binds a name to the top of the stack.
pub open spec fn bind_code(name: Seq<char>) -> Seq<char> {
    glued(seq![
        "\n        {\n            Value *p = stack_ptr;\n            names = names_bind(names, NAME_"@,
        name,
        ", p);\n        }\n    "@,
    ])
}

/// The C that binds a name to the top of the stack.
pub fn bind_code_text(name: &str) -> (r: String)
    ensures
        r@ == bind_code(name@),
{
    let parts = vec![
        "\n        {\n            Value *p = stack_ptr;\n            names = names_bind(names, NAME_",
        name,
        ", p);\n        }\n    ",
    ];
    assert(texts_of(parts@) =~= seq![
        "\n        {\n            Value *p = stack_ptr;\n            names = names_bind(names, NAME_"@,
        name@,
        ", p);\n        }\n    "@,
    ]);
    glue(&parts)
}

/// The C that binds one of several names to its place below the top of the stack.
pub open spec fn bind_many_code(count: Seq<char>, place: Seq<char>, name: Seq<char>) -> Seq<char> {
    glued(seq![
        "\n        { \n            Value *p = (stack_ptr - "@,
        count,
        " + "@,
        place,
        " + 1);\n            names = names_bind(names, NAME_"@,
        name,
        ", p);\n        }\n    "@,
    ])
}

/// The C that binds one of several names to its place below the top of the stack.
pub fn bind_many_code_text(count: &str, place: &str, name: &str) -> (r: String)
    ensures
        r@ == bind_many_code(count@, place@, name@),
{
    let parts = vec![
        "\n        { \n            Value *p = (stack_ptr - ",
        count,
        " + ",
        place,
        " + 1);\n            names = names_bind(names, NAME_",
        name,
        ", p);\n        }\n    ",
    ];
    assert(texts_of(parts@) =~= seq![
        "\n        { \n            Value *p = (stack_ptr - "@,
        count@,
        " + "@,
        place@,
        " + 1);\n            names = names_bind(names, NAME_"@,
        name@,
        ", p);\n        }\n    "@,
    ]);
    glue(&parts)
}

/// The C that takes the top value and puts it where a name stands.
pub open spec fn update_code(name: Seq<char>) -> Seq<char> {
    glued(seq![
        "\n        { \n            Value *v = stack_ptr--;\n            names_update(names, NAME_"@,
        name,
        ", v);\n        }\n    "@,
    ])
}

/// The C that takes the top value and puts it where a name stands.
pub fn update_code_text(name: &str) -> (r: String)
    ensures
        r@ == update_code(name@),
{
    let parts = vec![
        "\n        { \n            Value *v = stack_ptr--;\n            names_update(names, NAME_",
        name,
        ", v);\n        }\n    ",
    ];
    assert(texts_of(parts@) =~= seq![
        "\n        { \n            Value *v = stack_ptr--;\n            names_update(names, NAME_"@,
        name@,
        ", v);\n        }\n    "@,
    ]);
    glue(&parts)
}

/// The C that pushes what a name stands for, without calling it.
pub open spec fn push_named_code(name: Seq<char>) -> Seq<char> {
    glued(seq![
        "\n        {\n            Value* v = names_lookup(names, NAME_"@,
        name,
        ");\n            *(++stack_ptr) = *v;\n        }\n            "@,
    ])
}

/// The C that pushes what a name stands for, without calling it.
pub fn push_named_code_text(name: &str) -> (r: String)
    ensures
        r@ == push_named_code(name@),
{
    let parts = vec![
        "\n        {\n            Value* v = names_lookup(names, NAME_",
        name,
        ");\n            *(++stack_ptr) = *v;\n        }\n            ",
    ];
    assert(texts_of(parts@) =~= seq![
        "\n        {\n            Value* v = names_lookup(names, NAME_"@,
        name@,
        ");\n            *(++stack_ptr) = *v;\n        }\n            "@,
    ]);
    glue(&parts)
}

/// The start of the C function of the block with a given number.
pub open spec fn function_head(index: Seq<char>) -> Seq<char> {
    glued(seq![
        "\nvoid block_"@,
        index,
        "(Name *block_names) {\n    if (block_names != NULL) block_names->boundary = true;\n    Name* names = block_names;\n\n    #ifdef DEBUG\n    fprintf(stderr, \"[DEBUG] block_"@,
        index,
        " called --\");\n    stack_dump(names);\n    #endif\n"@,
    ])
}

/// The start of the C function of the block with a given number.
pub fn function_head_text(index: &str) -> (r: String)
    ensures
        r@ == function_head(index@),
{
    let parts = vec![
        "\nvoid block_",
        index,
        "(Name *block_names) {\n    if (block_names != NULL) block_names->boundary = true;\n    Name* names = block_names;\n\n    #ifdef DEBUG\n    fprintf(stderr, \"[DEBUG] block_",
        index,
        " called --\");\n    stack_dump(names);\n    #endif\n",
    ];
    assert(texts_of(parts@) =~= seq![
        "\nvoid block_"@,
        index@,
        "(Name *block_names) {\n    if (block_names != NULL) block_names->boundary = true;\n    Name* names = block_names;\n\n    #ifdef DEBUG\n    fprintf(stderr, \"[DEBUG] block_"@,
        index@,
        " called --\");\n    stack_dump(names);\n    #endif\n"@,
    ]);
    glue(&parts)
}

/// The end of the C function of the block with a given number.
pub open spec fn function_foot(index: Seq<char>) -> Seq<char> {
    glued(seq![
        "\n    #ifdef DEBUG\n    fprintf(stderr, \"[DEBUG] block_"@,
        index,
        " returning --\");\n    stack_dump(names);\n    #endif\n\n    // Free names bound in this block\n    while (names != NULL && block_names != names) {\n        Name *next = names->prev;\n        free(names);\n        names = next;\n    }\n}\n"@,
    ])
}

/// The end of the C function of the block with a given number.
pub fn function_foot_text(index: &str) -> (r: String)
    ensures
        r@ == function_foot(index@),
{
    let parts = vec![
        "\n    #ifdef DEBUG\n    fprintf(stderr, \"[DEBUG] block_",
        index,
        " returning --\");\n    stack_dump(names);\n    #endif\n\n    // Free names bound in this block\n    while (names != NULL && block_names != names) {\n        Name *next = names->prev;\n        free(names);\n        names = next;\n    }\n}\n",
    ];
    assert(texts_of(parts@) =~= seq![
        "\n    #ifdef DEBUG\n    fprintf(stderr, \"[DEBUG] block_"@,
        index@,
        " returning --\");\n    stack_dump(names);\n    #endif\n\n    // Free names bound in this block\n    while (names != NULL && block_names != names) {\n        Name *next = names->prev;\n        free(names);\n        names = next;\n    }\n}\n"@,
    ]);
    glue(&parts)
}

/// A line of comment.
pub open spec fn comment_code(text: Seq<char>) -> Seq<char> {
    glued(seq!["    // "@, text])
}

/// A line of comment.
pub fn comment_code_text(text: &str) -> (r: String)
    ensures
        r@ == comment_code(text@),
{
    let parts = vec!["    // ", text];
    assert(texts_of(parts@) =~= seq!["    // "@, text@]);
    glue(&parts)
}

/// The comment at the head of a block's function.
pub open spec fn block_comment(text: Seq<char>) -> Seq<char> {
    glued(seq!["// block: "@, text])
}

/// The comment at the head of a block's function.
pub fn block_comment_text(text: &str) -> (r: String)
    ensures
        r@ == block_comment(text@),
{
    let parts = vec!["// block: ", text];
    assert(texts_of(parts@) =~= seq!["// block: "@, text@]);
    glue(&parts)
}

/// The C at the start of a block: the frame floor is set below the
/// inputs.
pub open spec fn enter_code(arity_in: Seq<char>) -> Seq<char> {
    glued(
        seq![
            "\n    // Store the current stack pointer with arity_in="@,
            arity_in,
            "\n    *(++frame_ptr) = (stack_ptr - "@,
            arity_in,
            ");\n"@,
        ],
    )
}

/// The C at the start of a block.
pub fn enter_code_text(arity_in: &str) -> (r: String)
    ensures
        r@ == enter_code(arity_in@),
{
    let parts = vec![
        "\n    // Store the current stack pointer with arity_in=",
        arity_in,
        "\n    *(++frame_ptr) = (stack_ptr - ",
        arity_in,
        ");\n",
    ];
    assert(texts_of(parts@) =~= seq![
        "\n    // Store the current stack pointer with arity_in="@,
        arity_in@,
        "\n    *(++frame_ptr) = (stack_ptr - "@,
        arity_in@,
        ");\n"@,
    ]);
    glue(&parts)
}

/// The C at the end of a block, before the outputs are moved down: the
/// stack goes back to the frame floor.
pub open spec fn leave_code(arity_out: Seq<char>) -> Seq<char> {
    glued(
        seq![
            "    // Pop the block off the stack, preserving arity_out="@,
            arity_out,
            " values\n    Value* return_ptr = (stack_ptr - "@,
            arity_out,
            ");\n    stack_ptr =  *(frame_ptr--);"@,
        ],
    )
}

/// The C at the end of a block.
pub fn leave_code_text(arity_out: &str) -> (r: String)
    ensures
        r@ == leave_code(arity_out@),
{
    let parts = vec![
        "    // Pop the block off the stack, preserving arity_out=",
        arity_out,
        " values\n    Value* return_ptr = (stack_ptr - ",
        arity_out,
        ");\n    stack_ptr =  *(frame_ptr--);",
    ];
    assert(texts_of(parts@) =~= seq![
        "    // Pop the block off the stack, preserving arity_out="@,
        arity_out@,
        " values\n    Value* return_ptr = (stack_ptr - "@,
        arity_out@,
        ");\n    stack_ptr =  *(frame_ptr--);"@,
    ]);
    glue(&parts)
}

/// The C that collects the top value into the list that is being made.
pub open spec fn collect_code(text: Seq<char>) -> Seq<char> {
    glued(seq!["\t\tvs_push(s.as_stack, *(stack_ptr--)); // Push "@, text])
}

/// The C that collects the top value into the list that is being made.
pub fn collect_code_text(text: &str) -> (r: String)
    ensures
        r@ == collect_code(text@),
{
    let parts = vec!["\t\tvs_push(s.as_stack, *(stack_ptr--)); // Push ", text];
    assert(texts_of(parts@) =~= seq!["\t\tvs_push(s.as_stack, *(stack_ptr--)); // Push "@, text@]);
    glue(&parts)
}

/// The declaration of the C function of the block with a given number.
pub open spec fn declaration_code(index: Seq<char>) -> Seq<char> {
    glued(seq!["void block_"@, index, "(Name *block_names);\n"@])
}

/// The declaration of the C function of the block with a given number.
pub fn declaration_code_text(index: &str) -> (r: String)
    ensures
        r@ == declaration_code(index@),
{
    let parts = vec!["void block_", index, "(Name *block_names);\n"];
    assert(texts_of(parts@) =~= seq!["void block_"@, index@, "(Name *block_names);\n"@]);
    glue(&parts)
}

/// The three lines that give a name its number, its number the name, and
/// the name as a text for a number.
pub open spec fn name_define(name: Seq<char>, index: Seq<char>) -> Seq<char> {
    glued(seq!["#define NAME_"@, name, " "@, index, "\n"@])
}

/// The line that gives a name its number.
pub fn name_define_text(name: &str, index: &str) -> (r: String)
    ensures
        r@ == name_define(name@, index@),
{
    let parts = vec!["#define NAME_", name, " ", index, "\n"];
    assert(texts_of(parts@) =~= seq!["#define NAME_"@, name@, " "@, index@, "\n"@]);
    glue(&parts)
}

/// The line that gives a number its name.
pub open spec fn index_define(name: Seq<char>, index: Seq<char>) -> Seq<char> {
    glued(seq!["#define NAME_INDEX_"@, index, " "@, name, "\n"@])
}

/// The line that gives a number its name.
pub fn index_define_text(name: &str, index: &str) -> (r: String)
    ensures
        r@ == index_define(name@, index@),
{
    let parts = vec!["#define NAME_INDEX_", index, " ", name, "\n"];
    assert(texts_of(parts@) =~= seq!["#define NAME_INDEX_"@, index@, " "@, name@, "\n"@]);
    glue(&parts)
}

/// The line that gives the text of a name for its number.
pub open spec fn name_case(name: Seq<char>, index: Seq<char>) -> Seq<char> {
    glued(seq!["\t\tcase "@, index, ": return \""@, name, "\";\n"@])
}

/// The line that gives the text of a name for its number.
pub fn name_case_text(name: &str, index: &str) -> (r: String)
    ensures
        r@ == name_case(name@, index@),
{
    let parts = vec!["\t\tcase ", index, ": return \"", name, "\";\n"];
    assert(texts_of(parts@) =~= seq!["\t\tcase "@, index@, ": return \""@, name@, "\";\n"@]);
    glue(&parts)
}

} // verus!
