//! What the C declaration parser computes, stated over sequences of
//! characters: the tokenizer as a character-by-character state machine and
//! each production as a function from a token position to a result and the
//! position after it.

use vstd::prelude::*;
use crate::ffi::cdef_parser::{lemma_skip_qualifiers, lemma_skip_stars};
use crate::ffi::types::{type_size, FfiTypeView};

verus! {

/// Punctuation characters that form tokens of their own.
pub open spec fn is_punct(c: char) -> bool {
    c == '{' || c == '}' || c == '(' || c == ')' || c == ';' || c == ',' || c == '*'
}

/// Whitespace characters that separate tokens.
pub open spec fn is_space(c: char) -> bool {
    c == ' ' || c == '\t' || c == '\n' || c == '\r'
}

/// Ends the current word, if any.
pub open spec fn flush(toks: Seq<Seq<char>>, cur: Seq<char>) -> Seq<Seq<char>> {
    if cur.len() > 0 { toks.push(cur) } else { toks }
}

/// One step of the tokenizer: (tokens so far, current word) after `c`.
pub open spec fn tok_step(st: (Seq<Seq<char>>, Seq<char>), c: char) -> (Seq<Seq<char>>, Seq<char>) {
    if is_punct(c) {
        (flush(st.0, st.1).push(seq![c]), Seq::empty())
    } else if is_space(c) {
        (flush(st.0, st.1), Seq::empty())
    } else {
        (st.0, st.1.push(c))
    }
}

/// The tokenizer state after the first `n` characters.
pub open spec fn tok_state(cs: Seq<char>, n: int) -> (Seq<Seq<char>>, Seq<char>)
    decreases n,
{
    if n <= 0 {
        (Seq::empty(), Seq::empty())
    } else {
        tok_step(tok_state(cs, n - 1), cs[n - 1])
    }
}

/// The tokens of a C declaration text.
pub open spec fn tokens_of(cs: Seq<char>) -> Seq<Seq<char>> {
    let st = tok_state(cs, cs.len() as int);
    flush(st.0, st.1)
}

/// A word holds neither whitespace nor punctuation.
pub open spec fn plain_word(w: Seq<char>) -> bool {
    forall|k: int| 0 <= k < w.len() ==> !is_punct(#[trigger] w[k]) && !is_space(w[k])
}

/// A token is one punctuation character, or a nonempty plain word.
pub open spec fn clean_token(t: Seq<char>) -> bool {
    (t.len() == 1 && is_punct(t[0])) || (t.len() > 0 && plain_word(t))
}

proof fn lemma_tok_state_clean(cs: Seq<char>, n: int)
    requires
        0 <= n <= cs.len(),
    ensures
        forall|i: int| 0 <= i < tok_state(cs, n).0.len() ==> clean_token(#[trigger] tok_state(cs, n).0[i]),
        plain_word(tok_state(cs, n).1),
    decreases n,
{
    if n > 0 {
        lemma_tok_state_clean(cs, n - 1);
        let st = tok_state(cs, n - 1);
        let c = cs[n - 1];
        if !is_punct(c) && !is_space(c) {
            assert forall|k: int| 0 <= k < st.1.push(c).len() implies !is_punct(#[trigger] st.1.push(c)[k]) && !is_space(st.1.push(c)[k]) by {
                if k < st.1.len() {
                    assert(st.1.push(c)[k] == st.1[k]);
                }
            }
        }
    }
}

/// The tokenizer drops whitespace and keeps each punctuation mark as a
/// token of its own: every token is a single punctuation character or a
/// nonempty word holding neither whitespace nor punctuation.
pub proof fn lemma_tokens_are_clean(cs: Seq<char>)
    ensures
        forall|i: int| 0 <= i < tokens_of(cs).len() ==> clean_token(#[trigger] tokens_of(cs)[i]),
{
    lemma_tok_state_clean(cs, cs.len() as int);
}

/// The characters of each token.
pub open spec fn token_view(tokens: Seq<String>) -> Seq<Seq<char>> {
    Seq::new(tokens.len(), |i: int| tokens[i]@)
}

/// Token `i` exists and is `lit`.
pub open spec fn is_tok(ts: Seq<Seq<char>>, i: int, lit: Seq<char>) -> bool {
    0 <= i < ts.len() && ts[i] == lit
}

/// Skips the qualifiers `const`, `unsigned` and `signed`.
pub open spec fn skip_qualifiers(ts: Seq<Seq<char>>, i: int) -> int
    decreases ts.len() - i,
{
    if 0 <= i < ts.len() && (ts[i] == "const"@ || ts[i] == "unsigned"@ || ts[i] == "signed"@) {
        skip_qualifiers(ts, i + 1)
    } else {
        i
    }
}

/// Skips `*` tokens, returning how many and the position after them.
pub open spec fn skip_stars(ts: Seq<Seq<char>>, i: int) -> (nat, int)
    decreases ts.len() - i,
{
    if is_tok(ts, i, "*"@) {
        let (n, j) = skip_stars(ts, i + 1);
        (n + 1, j)
    } else {
        (0, i)
    }
}

/// The base type that a type word stands for, and whether it takes the next
/// token too (`long long`, `struct Name`); `None` for `struct` at the end.
pub open spec fn base_type(ts: Seq<Seq<char>>, i: int) -> Option<(FfiTypeView, int)> {
    let w = ts[i];
    if w == "void"@ {
        Some((FfiTypeView::Void, i))
    } else if w == "char"@ {
        Some((FfiTypeView::I8, i))
    } else if w == "short"@ {
        Some((FfiTypeView::I16, i))
    } else if w == "int"@ {
        Some((FfiTypeView::Int, i))
    } else if w == "long"@ {
        if is_tok(ts, i + 1, "long"@) { Some((FfiTypeView::I64, i + 1)) } else { Some((FfiTypeView::I64, i)) }
    } else if w == "float"@ {
        Some((FfiTypeView::F32, i))
    } else if w == "double"@ {
        Some((FfiTypeView::F64, i))
    } else if w == "size_t"@ {
        Some((FfiTypeView::USize, i))
    } else if w == "int8_t"@ {
        Some((FfiTypeView::I8, i))
    } else if w == "int16_t"@ {
        Some((FfiTypeView::I16, i))
    } else if w == "int32_t"@ {
        Some((FfiTypeView::I32, i))
    } else if w == "int64_t"@ {
        Some((FfiTypeView::I64, i))
    } else if w == "uint8_t"@ {
        Some((FfiTypeView::U8, i))
    } else if w == "uint16_t"@ {
        Some((FfiTypeView::U16, i))
    } else if w == "uint32_t"@ {
        Some((FfiTypeView::U32, i))
    } else if w == "uint64_t"@ {
        Some((FfiTypeView::U64, i))
    } else if w == "struct"@ {
        if i + 1 < ts.len() { Some((FfiTypeView::Struct(ts[i + 1]), i + 1)) } else { None }
    } else if w == "_Bool"@ || w == "bool"@ {
        Some((FfiTypeView::Bool, i))
    } else {
        Some((FfiTypeView::Struct(w), i))
    }
}

/// A lone C type word, not followed by `*` or `(`, reads as the FFI type of
/// the C type it names, which has that C type's width: `void` none, `bool`
/// and `char` one byte, `short` two, `int` four, `long` and `long long`
/// eight, `float` a four-byte float, `double` an eight-byte one, `size_t` a
/// pointer's width, and each `intN_t` and `uintN_t` its `N` bits, signed or
/// not as its name says.
pub proof fn lemma_c_type_words(ts: Seq<Seq<char>>, pos: int)
    requires
        0 <= pos < ts.len(),
        !is_tok(ts, pos + 1, "*"@),
        !is_tok(ts, pos + 1, "("@),
    ensures
        ts[pos] == "char"@ ==> c_type(ts, pos) == Ok::<(FfiTypeView, int), Seq<char>>((FfiTypeView::I8, pos + 1))
            && type_size(FfiTypeView::I8) == vstd::layout::size_of::<i8>(),
        ts[pos] == "short"@ ==> c_type(ts, pos) == Ok::<(FfiTypeView, int), Seq<char>>((FfiTypeView::I16, pos + 1))
            && type_size(FfiTypeView::I16) == vstd::layout::size_of::<i16>(),
        ts[pos] == "int"@ ==> c_type(ts, pos) == Ok::<(FfiTypeView, int), Seq<char>>((FfiTypeView::Int, pos + 1))
            && type_size(FfiTypeView::Int) == vstd::layout::size_of::<i32>(),
        ts[pos] == "float"@ ==> c_type(ts, pos) == Ok::<(FfiTypeView, int), Seq<char>>((FfiTypeView::F32, pos + 1))
            && type_size(FfiTypeView::F32) == vstd::layout::size_of::<u32>(),
        ts[pos] == "double"@ ==> c_type(ts, pos) == Ok::<(FfiTypeView, int), Seq<char>>((FfiTypeView::F64, pos + 1))
            && type_size(FfiTypeView::F64) == vstd::layout::size_of::<u64>(),
        ts[pos] == "size_t"@ ==> c_type(ts, pos) == Ok::<(FfiTypeView, int), Seq<char>>((FfiTypeView::USize, pos + 1))
            && type_size(FfiTypeView::USize) == vstd::layout::size_of::<usize>(),
        ts[pos] == "int8_t"@ ==> c_type(ts, pos) == Ok::<(FfiTypeView, int), Seq<char>>((FfiTypeView::I8, pos + 1))
            && type_size(FfiTypeView::I8) == vstd::layout::size_of::<i8>(),
        ts[pos] == "int16_t"@ ==> c_type(ts, pos) == Ok::<(FfiTypeView, int), Seq<char>>((FfiTypeView::I16, pos + 1))
            && type_size(FfiTypeView::I16) == vstd::layout::size_of::<i16>(),
        ts[pos] == "int32_t"@ ==> c_type(ts, pos) == Ok::<(FfiTypeView, int), Seq<char>>((FfiTypeView::I32, pos + 1))
            && type_size(FfiTypeView::I32) == vstd::layout::size_of::<i32>(),
        ts[pos] == "int64_t"@ ==> c_type(ts, pos) == Ok::<(FfiTypeView, int), Seq<char>>((FfiTypeView::I64, pos + 1))
            && type_size(FfiTypeView::I64) == vstd::layout::size_of::<i64>(),
        ts[pos] == "uint8_t"@ ==> c_type(ts, pos) == Ok::<(FfiTypeView, int), Seq<char>>((FfiTypeView::U8, pos + 1))
            && type_size(FfiTypeView::U8) == vstd::layout::size_of::<u8>(),
        ts[pos] == "uint16_t"@ ==> c_type(ts, pos) == Ok::<(FfiTypeView, int), Seq<char>>((FfiTypeView::U16, pos + 1))
            && type_size(FfiTypeView::U16) == vstd::layout::size_of::<u16>(),
        ts[pos] == "uint32_t"@ ==> c_type(ts, pos) == Ok::<(FfiTypeView, int), Seq<char>>((FfiTypeView::U32, pos + 1))
            && type_size(FfiTypeView::U32) == vstd::layout::size_of::<u32>(),
        ts[pos] == "uint64_t"@ ==> c_type(ts, pos) == Ok::<(FfiTypeView, int), Seq<char>>((FfiTypeView::U64, pos + 1))
            && type_size(FfiTypeView::U64) == vstd::layout::size_of::<u64>(),
        ts[pos] == "void"@ ==> c_type(ts, pos) == Ok::<(FfiTypeView, int), Seq<char>>((FfiTypeView::Void, pos + 1))
            && type_size(FfiTypeView::Void) == vstd::layout::size_of::<()>(),
        ts[pos] == "bool"@ || ts[pos] == "_Bool"@ ==> c_type(ts, pos) == Ok::<(FfiTypeView, int), Seq<char>>((FfiTypeView::Bool, pos + 1))
            && type_size(FfiTypeView::Bool) == vstd::layout::size_of::<bool>(),
        ts[pos] == "long"@ && !is_tok(ts, pos + 1, "long"@) ==> c_type(ts, pos) == Ok::<(FfiTypeView, int), Seq<char>>((FfiTypeView::I64, pos + 1))
            && type_size(FfiTypeView::I64) == vstd::layout::size_of::<i64>(),
        ts[pos] == "long"@ && is_tok(ts, pos + 1, "long"@) && !is_tok(ts, pos + 2, "*"@) && !is_tok(ts, pos + 2, "("@)
            ==> c_type(ts, pos) == Ok::<(FfiTypeView, int), Seq<char>>((FfiTypeView::I64, pos + 2)),
{
    reveal_strlit("void");
    reveal_strlit("char");
    reveal_strlit("short");
    reveal_strlit("int");
    reveal_strlit("long");
    reveal_strlit("float");
    reveal_strlit("double");
    reveal_strlit("size_t");
    reveal_strlit("int8_t");
    reveal_strlit("int16_t");
    reveal_strlit("int32_t");
    reveal_strlit("int64_t");
    reveal_strlit("uint8_t");
    reveal_strlit("uint16_t");
    reveal_strlit("uint32_t");
    reveal_strlit("uint64_t");
    reveal_strlit("struct");
    reveal_strlit("_Bool");
    reveal_strlit("bool");
    reveal_strlit("const");
    reveal_strlit("unsigned");
    reveal_strlit("signed");
    broadcast use vstd::layout::layout_of_primitives;
    broadcast use vstd::layout::layout_of_unit_tuple;
    if ts[pos] == "void"@ {
        assert("void"@ != "const"@) by { assert("void"@.len() != "const"@.len()); }
        assert("void"@ != "unsigned"@) by { assert("void"@.len() != "unsigned"@.len()); }
        assert("void"@ != "signed"@) by { assert("void"@.len() != "signed"@.len()); }
    }
    if ts[pos] == "long"@ {
        assert("long"@ != "const"@) by { assert("long"@.len() != "const"@.len()); }
        assert("long"@ != "unsigned"@) by { assert("long"@.len() != "unsigned"@.len()); }
        assert("long"@ != "signed"@) by { assert("long"@.len() != "signed"@.len()); }
        assert("long"@ != "void"@) by { assert("long"@[0] != "void"@[0]); }
        assert("long"@ != "char"@) by { assert("long"@[0] != "char"@[0]); }
        assert("long"@ != "short"@) by { assert("long"@.len() != "short"@.len()); }
        assert("long"@ != "int"@) by { assert("long"@.len() != "int"@.len()); }
    }
    if ts[pos] == "_Bool"@ {
        assert("_Bool"@ != "const"@) by { assert("_Bool"@[0] != "const"@[0]); }
        assert("_Bool"@ != "unsigned"@) by { assert("_Bool"@.len() != "unsigned"@.len()); }
        assert("_Bool"@ != "signed"@) by { assert("_Bool"@.len() != "signed"@.len()); }
        assert("_Bool"@ != "void"@) by { assert("_Bool"@.len() != "void"@.len()); }
        assert("_Bool"@ != "char"@) by { assert("_Bool"@.len() != "char"@.len()); }
        assert("_Bool"@ != "short"@) by { assert("_Bool"@[0] != "short"@[0]); }
        assert("_Bool"@ != "int"@) by { assert("_Bool"@.len() != "int"@.len()); }
        assert("_Bool"@ != "long"@) by { assert("_Bool"@.len() != "long"@.len()); }
        assert("_Bool"@ != "float"@) by { assert("_Bool"@[0] != "float"@[0]); }
        assert("_Bool"@ != "double"@) by { assert("_Bool"@.len() != "double"@.len()); }
        assert("_Bool"@ != "size_t"@) by { assert("_Bool"@.len() != "size_t"@.len()); }
        assert("_Bool"@ != "int8_t"@) by { assert("_Bool"@.len() != "int8_t"@.len()); }
        assert("_Bool"@ != "int16_t"@) by { assert("_Bool"@.len() != "int16_t"@.len()); }
        assert("_Bool"@ != "int32_t"@) by { assert("_Bool"@.len() != "int32_t"@.len()); }
        assert("_Bool"@ != "int64_t"@) by { assert("_Bool"@.len() != "int64_t"@.len()); }
        assert("_Bool"@ != "uint8_t"@) by { assert("_Bool"@.len() != "uint8_t"@.len()); }
        assert("_Bool"@ != "uint16_t"@) by { assert("_Bool"@.len() != "uint16_t"@.len()); }
        assert("_Bool"@ != "uint32_t"@) by { assert("_Bool"@.len() != "uint32_t"@.len()); }
        assert("_Bool"@ != "uint64_t"@) by { assert("_Bool"@.len() != "uint64_t"@.len()); }
        assert("_Bool"@ != "struct"@) by { assert("_Bool"@.len() != "struct"@.len()); }
    }
    if ts[pos] == "bool"@ {
        assert("bool"@ != "const"@) by { assert("bool"@.len() != "const"@.len()); }
        assert("bool"@ != "unsigned"@) by { assert("bool"@.len() != "unsigned"@.len()); }
        assert("bool"@ != "signed"@) by { assert("bool"@.len() != "signed"@.len()); }
        assert("bool"@ != "void"@) by { assert("bool"@[0] != "void"@[0]); }
        assert("bool"@ != "char"@) by { assert("bool"@[0] != "char"@[0]); }
        assert("bool"@ != "short"@) by { assert("bool"@.len() != "short"@.len()); }
        assert("bool"@ != "int"@) by { assert("bool"@.len() != "int"@.len()); }
        assert("bool"@ != "long"@) by { assert("bool"@[0] != "long"@[0]); }
        assert("bool"@ != "float"@) by { assert("bool"@.len() != "float"@.len()); }
        assert("bool"@ != "double"@) by { assert("bool"@.len() != "double"@.len()); }
        assert("bool"@ != "size_t"@) by { assert("bool"@.len() != "size_t"@.len()); }
        assert("bool"@ != "int8_t"@) by { assert("bool"@.len() != "int8_t"@.len()); }
        assert("bool"@ != "int16_t"@) by { assert("bool"@.len() != "int16_t"@.len()); }
        assert("bool"@ != "int32_t"@) by { assert("bool"@.len() != "int32_t"@.len()); }
        assert("bool"@ != "int64_t"@) by { assert("bool"@.len() != "int64_t"@.len()); }
        assert("bool"@ != "uint8_t"@) by { assert("bool"@.len() != "uint8_t"@.len()); }
        assert("bool"@ != "uint16_t"@) by { assert("bool"@.len() != "uint16_t"@.len()); }
        assert("bool"@ != "uint32_t"@) by { assert("bool"@.len() != "uint32_t"@.len()); }
        assert("bool"@ != "uint64_t"@) by { assert("bool"@.len() != "uint64_t"@.len()); }
        assert("bool"@ != "struct"@) by { assert("bool"@.len() != "struct"@.len()); }
        assert("bool"@ != "_Bool"@) by { assert("bool"@.len() != "_Bool"@.len()); }
    }
    if ts[pos] == "char"@ {
        assert("char"@ != "const"@) by { assert("char"@.len() != "const"@.len()); }
        assert("char"@ != "unsigned"@) by { assert("char"@.len() != "unsigned"@.len()); }
        assert("char"@ != "signed"@) by { assert("char"@.len() != "signed"@.len()); }
        assert("char"@ != "void"@) by { assert("char"@[0] != "void"@[0]); }
    }
    if ts[pos] == "short"@ {
        assert("short"@ != "const"@) by { assert("short"@[0] != "const"@[0]); }
        assert("short"@ != "unsigned"@) by { assert("short"@.len() != "unsigned"@.len()); }
        assert("short"@ != "signed"@) by { assert("short"@.len() != "signed"@.len()); }
        assert("short"@ != "void"@) by { assert("short"@.len() != "void"@.len()); }
        assert("short"@ != "char"@) by { assert("short"@.len() != "char"@.len()); }
    }
    if ts[pos] == "int"@ {
        assert("int"@ != "const"@) by { assert("int"@.len() != "const"@.len()); }
        assert("int"@ != "unsigned"@) by { assert("int"@.len() != "unsigned"@.len()); }
        assert("int"@ != "signed"@) by { assert("int"@.len() != "signed"@.len()); }
        assert("int"@ != "void"@) by { assert("int"@.len() != "void"@.len()); }
        assert("int"@ != "char"@) by { assert("int"@.len() != "char"@.len()); }
        assert("int"@ != "short"@) by { assert("int"@.len() != "short"@.len()); }
    }
    if ts[pos] == "float"@ {
        assert("float"@ != "const"@) by { assert("float"@[0] != "const"@[0]); }
        assert("float"@ != "unsigned"@) by { assert("float"@.len() != "unsigned"@.len()); }
        assert("float"@ != "signed"@) by { assert("float"@.len() != "signed"@.len()); }
        assert("float"@ != "void"@) by { assert("float"@.len() != "void"@.len()); }
        assert("float"@ != "char"@) by { assert("float"@.len() != "char"@.len()); }
        assert("float"@ != "short"@) by { assert("float"@[0] != "short"@[0]); }
        assert("float"@ != "int"@) by { assert("float"@.len() != "int"@.len()); }
        assert("float"@ != "long"@) by { assert("float"@.len() != "long"@.len()); }
    }
    if ts[pos] == "double"@ {
        assert("double"@ != "const"@) by { assert("double"@.len() != "const"@.len()); }
        assert("double"@ != "unsigned"@) by { assert("double"@.len() != "unsigned"@.len()); }
        assert("double"@ != "signed"@) by { assert("double"@[0] != "signed"@[0]); }
        assert("double"@ != "void"@) by { assert("double"@.len() != "void"@.len()); }
        assert("double"@ != "char"@) by { assert("double"@.len() != "char"@.len()); }
        assert("double"@ != "short"@) by { assert("double"@.len() != "short"@.len()); }
        assert("double"@ != "int"@) by { assert("double"@.len() != "int"@.len()); }
        assert("double"@ != "long"@) by { assert("double"@.len() != "long"@.len()); }
        assert("double"@ != "float"@) by { assert("double"@.len() != "float"@.len()); }
    }
    if ts[pos] == "size_t"@ {
        assert("size_t"@ != "const"@) by { assert("size_t"@.len() != "const"@.len()); }
        assert("size_t"@ != "unsigned"@) by { assert("size_t"@.len() != "unsigned"@.len()); }
        assert("size_t"@ != "signed"@) by { assert("size_t"@[2] != "signed"@[2]); }
        assert("size_t"@ != "void"@) by { assert("size_t"@.len() != "void"@.len()); }
        assert("size_t"@ != "char"@) by { assert("size_t"@.len() != "char"@.len()); }
        assert("size_t"@ != "short"@) by { assert("size_t"@.len() != "short"@.len()); }
        assert("size_t"@ != "int"@) by { assert("size_t"@.len() != "int"@.len()); }
        assert("size_t"@ != "long"@) by { assert("size_t"@.len() != "long"@.len()); }
        assert("size_t"@ != "float"@) by { assert("size_t"@.len() != "float"@.len()); }
        assert("size_t"@ != "double"@) by { assert("size_t"@[0] != "double"@[0]); }
    }
    if ts[pos] == "int8_t"@ {
        assert("int8_t"@ != "const"@) by { assert("int8_t"@.len() != "const"@.len()); }
        assert("int8_t"@ != "unsigned"@) by { assert("int8_t"@.len() != "unsigned"@.len()); }
        assert("int8_t"@ != "signed"@) by { assert("int8_t"@[0] != "signed"@[0]); }
        assert("int8_t"@ != "void"@) by { assert("int8_t"@.len() != "void"@.len()); }
        assert("int8_t"@ != "char"@) by { assert("int8_t"@.len() != "char"@.len()); }
        assert("int8_t"@ != "short"@) by { assert("int8_t"@.len() != "short"@.len()); }
        assert("int8_t"@ != "int"@) by { assert("int8_t"@.len() != "int"@.len()); }
        assert("int8_t"@ != "long"@) by { assert("int8_t"@.len() != "long"@.len()); }
        assert("int8_t"@ != "float"@) by { assert("int8_t"@.len() != "float"@.len()); }
        assert("int8_t"@ != "double"@) by { assert("int8_t"@[0] != "double"@[0]); }
        assert("int8_t"@ != "size_t"@) by { assert("int8_t"@[0] != "size_t"@[0]); }
    }
    if ts[pos] == "int16_t"@ {
        assert("int16_t"@ != "const"@) by { assert("int16_t"@.len() != "const"@.len()); }
        assert("int16_t"@ != "unsigned"@) by { assert("int16_t"@.len() != "unsigned"@.len()); }
        assert("int16_t"@ != "signed"@) by { assert("int16_t"@.len() != "signed"@.len()); }
        assert("int16_t"@ != "void"@) by { assert("int16_t"@.len() != "void"@.len()); }
        assert("int16_t"@ != "char"@) by { assert("int16_t"@.len() != "char"@.len()); }
        assert("int16_t"@ != "short"@) by { assert("int16_t"@.len() != "short"@.len()); }
        assert("int16_t"@ != "int"@) by { assert("int16_t"@.len() != "int"@.len()); }
        assert("int16_t"@ != "long"@) by { assert("int16_t"@.len() != "long"@.len()); }
        assert("int16_t"@ != "float"@) by { assert("int16_t"@.len() != "float"@.len()); }
        assert("int16_t"@ != "double"@) by { assert("int16_t"@.len() != "double"@.len()); }
        assert("int16_t"@ != "size_t"@) by { assert("int16_t"@.len() != "size_t"@.len()); }
        assert("int16_t"@ != "int8_t"@) by { assert("int16_t"@.len() != "int8_t"@.len()); }
    }
    if ts[pos] == "int32_t"@ {
        assert("int32_t"@ != "const"@) by { assert("int32_t"@.len() != "const"@.len()); }
        assert("int32_t"@ != "unsigned"@) by { assert("int32_t"@.len() != "unsigned"@.len()); }
        assert("int32_t"@ != "signed"@) by { assert("int32_t"@.len() != "signed"@.len()); }
        assert("int32_t"@ != "void"@) by { assert("int32_t"@.len() != "void"@.len()); }
        assert("int32_t"@ != "char"@) by { assert("int32_t"@.len() != "char"@.len()); }
        assert("int32_t"@ != "short"@) by { assert("int32_t"@.len() != "short"@.len()); }
        assert("int32_t"@ != "int"@) by { assert("int32_t"@.len() != "int"@.len()); }
        assert("int32_t"@ != "long"@) by { assert("int32_t"@.len() != "long"@.len()); }
        assert("int32_t"@ != "float"@) by { assert("int32_t"@.len() != "float"@.len()); }
        assert("int32_t"@ != "double"@) by { assert("int32_t"@.len() != "double"@.len()); }
        assert("int32_t"@ != "size_t"@) by { assert("int32_t"@.len() != "size_t"@.len()); }
        assert("int32_t"@ != "int8_t"@) by { assert("int32_t"@.len() != "int8_t"@.len()); }
        assert("int32_t"@ != "int16_t"@) by { assert("int32_t"@[3] != "int16_t"@[3]); }
    }
    if ts[pos] == "int64_t"@ {
        assert("int64_t"@ != "const"@) by { assert("int64_t"@.len() != "const"@.len()); }
        assert("int64_t"@ != "unsigned"@) by { assert("int64_t"@.len() != "unsigned"@.len()); }
        assert("int64_t"@ != "signed"@) by { assert("int64_t"@.len() != "signed"@.len()); }
        assert("int64_t"@ != "void"@) by { assert("int64_t"@.len() != "void"@.len()); }
        assert("int64_t"@ != "char"@) by { assert("int64_t"@.len() != "char"@.len()); }
        assert("int64_t"@ != "short"@) by { assert("int64_t"@.len() != "short"@.len()); }
        assert("int64_t"@ != "int"@) by { assert("int64_t"@.len() != "int"@.len()); }
        assert("int64_t"@ != "long"@) by { assert("int64_t"@.len() != "long"@.len()); }
        assert("int64_t"@ != "float"@) by { assert("int64_t"@.len() != "float"@.len()); }
        assert("int64_t"@ != "double"@) by { assert("int64_t"@.len() != "double"@.len()); }
        assert("int64_t"@ != "size_t"@) by { assert("int64_t"@.len() != "size_t"@.len()); }
        assert("int64_t"@ != "int8_t"@) by { assert("int64_t"@.len() != "int8_t"@.len()); }
        assert("int64_t"@ != "int16_t"@) by { assert("int64_t"@[3] != "int16_t"@[3]); }
        assert("int64_t"@ != "int32_t"@) by { assert("int64_t"@[3] != "int32_t"@[3]); }
    }
    if ts[pos] == "uint8_t"@ {
        assert("uint8_t"@ != "const"@) by { assert("uint8_t"@.len() != "const"@.len()); }
        assert("uint8_t"@ != "unsigned"@) by { assert("uint8_t"@.len() != "unsigned"@.len()); }
        assert("uint8_t"@ != "signed"@) by { assert("uint8_t"@.len() != "signed"@.len()); }
        assert("uint8_t"@ != "void"@) by { assert("uint8_t"@.len() != "void"@.len()); }
        assert("uint8_t"@ != "char"@) by { assert("uint8_t"@.len() != "char"@.len()); }
        assert("uint8_t"@ != "short"@) by { assert("uint8_t"@.len() != "short"@.len()); }
        assert("uint8_t"@ != "int"@) by { assert("uint8_t"@.len() != "int"@.len()); }
        assert("uint8_t"@ != "long"@) by { assert("uint8_t"@.len() != "long"@.len()); }
        assert("uint8_t"@ != "float"@) by { assert("uint8_t"@.len() != "float"@.len()); }
        assert("uint8_t"@ != "double"@) by { assert("uint8_t"@.len() != "double"@.len()); }
        assert("uint8_t"@ != "size_t"@) by { assert("uint8_t"@.len() != "size_t"@.len()); }
        assert("uint8_t"@ != "int8_t"@) by { assert("uint8_t"@.len() != "int8_t"@.len()); }
        assert("uint8_t"@ != "int16_t"@) by { assert("uint8_t"@[0] != "int16_t"@[0]); }
        assert("uint8_t"@ != "int32_t"@) by { assert("uint8_t"@[0] != "int32_t"@[0]); }
        assert("uint8_t"@ != "int64_t"@) by { assert("uint8_t"@[0] != "int64_t"@[0]); }
    }
    if ts[pos] == "uint16_t"@ {
        assert("uint16_t"@ != "const"@) by { assert("uint16_t"@.len() != "const"@.len()); }
        assert("uint16_t"@ != "unsigned"@) by { assert("uint16_t"@[1] != "unsigned"@[1]); }
        assert("uint16_t"@ != "signed"@) by { assert("uint16_t"@.len() != "signed"@.len()); }
        assert("uint16_t"@ != "void"@) by { assert("uint16_t"@.len() != "void"@.len()); }
        assert("uint16_t"@ != "char"@) by { assert("uint16_t"@.len() != "char"@.len()); }
        assert("uint16_t"@ != "short"@) by { assert("uint16_t"@.len() != "short"@.len()); }
        assert("uint16_t"@ != "int"@) by { assert("uint16_t"@.len() != "int"@.len()); }
        assert("uint16_t"@ != "long"@) by { assert("uint16_t"@.len() != "long"@.len()); }
        assert("uint16_t"@ != "float"@) by { assert("uint16_t"@.len() != "float"@.len()); }
        assert("uint16_t"@ != "double"@) by { assert("uint16_t"@.len() != "double"@.len()); }
        assert("uint16_t"@ != "size_t"@) by { assert("uint16_t"@.len() != "size_t"@.len()); }
        assert("uint16_t"@ != "int8_t"@) by { assert("uint16_t"@.len() != "int8_t"@.len()); }
        assert("uint16_t"@ != "int16_t"@) by { assert("uint16_t"@.len() != "int16_t"@.len()); }
        assert("uint16_t"@ != "int32_t"@) by { assert("uint16_t"@.len() != "int32_t"@.len()); }
        assert("uint16_t"@ != "int64_t"@) by { assert("uint16_t"@.len() != "int64_t"@.len()); }
        assert("uint16_t"@ != "uint8_t"@) by { assert("uint16_t"@.len() != "uint8_t"@.len()); }
    }
    if ts[pos] == "uint32_t"@ {
        assert("uint32_t"@ != "const"@) by { assert("uint32_t"@.len() != "const"@.len()); }
        assert("uint32_t"@ != "unsigned"@) by { assert("uint32_t"@[1] != "unsigned"@[1]); }
        assert("uint32_t"@ != "signed"@) by { assert("uint32_t"@.len() != "signed"@.len()); }
        assert("uint32_t"@ != "void"@) by { assert("uint32_t"@.len() != "void"@.len()); }
        assert("uint32_t"@ != "char"@) by { assert("uint32_t"@.len() != "char"@.len()); }
        assert("uint32_t"@ != "short"@) by { assert("uint32_t"@.len() != "short"@.len()); }
        assert("uint32_t"@ != "int"@) by { assert("uint32_t"@.len() != "int"@.len()); }
        assert("uint32_t"@ != "long"@) by { assert("uint32_t"@.len() != "long"@.len()); }
        assert("uint32_t"@ != "float"@) by { assert("uint32_t"@.len() != "float"@.len()); }
        assert("uint32_t"@ != "double"@) by { assert("uint32_t"@.len() != "double"@.len()); }
        assert("uint32_t"@ != "size_t"@) by { assert("uint32_t"@.len() != "size_t"@.len()); }
        assert("uint32_t"@ != "int8_t"@) by { assert("uint32_t"@.len() != "int8_t"@.len()); }
        assert("uint32_t"@ != "int16_t"@) by { assert("uint32_t"@.len() != "int16_t"@.len()); }
        assert("uint32_t"@ != "int32_t"@) by { assert("uint32_t"@.len() != "int32_t"@.len()); }
        assert("uint32_t"@ != "int64_t"@) by { assert("uint32_t"@.len() != "int64_t"@.len()); }
        assert("uint32_t"@ != "uint8_t"@) by { assert("uint32_t"@.len() != "uint8_t"@.len()); }
        assert("uint32_t"@ != "uint16_t"@) by { assert("uint32_t"@[4] != "uint16_t"@[4]); }
    }
    if ts[pos] == "uint64_t"@ {
        assert("uint64_t"@ != "const"@) by { assert("uint64_t"@.len() != "const"@.len()); }
        assert("uint64_t"@ != "unsigned"@) by { assert("uint64_t"@[1] != "unsigned"@[1]); }
        assert("uint64_t"@ != "signed"@) by { assert("uint64_t"@.len() != "signed"@.len()); }
        assert("uint64_t"@ != "void"@) by { assert("uint64_t"@.len() != "void"@.len()); }
        assert("uint64_t"@ != "char"@) by { assert("uint64_t"@.len() != "char"@.len()); }
        assert("uint64_t"@ != "short"@) by { assert("uint64_t"@.len() != "short"@.len()); }
        assert("uint64_t"@ != "int"@) by { assert("uint64_t"@.len() != "int"@.len()); }
        assert("uint64_t"@ != "long"@) by { assert("uint64_t"@.len() != "long"@.len()); }
        assert("uint64_t"@ != "float"@) by { assert("uint64_t"@.len() != "float"@.len()); }
        assert("uint64_t"@ != "double"@) by { assert("uint64_t"@.len() != "double"@.len()); }
        assert("uint64_t"@ != "size_t"@) by { assert("uint64_t"@.len() != "size_t"@.len()); }
        assert("uint64_t"@ != "int8_t"@) by { assert("uint64_t"@.len() != "int8_t"@.len()); }
        assert("uint64_t"@ != "int16_t"@) by { assert("uint64_t"@.len() != "int16_t"@.len()); }
        assert("uint64_t"@ != "int32_t"@) by { assert("uint64_t"@.len() != "int32_t"@.len()); }
        assert("uint64_t"@ != "int64_t"@) by { assert("uint64_t"@.len() != "int64_t"@.len()); }
        assert("uint64_t"@ != "uint8_t"@) by { assert("uint64_t"@.len() != "uint8_t"@.len()); }
        assert("uint64_t"@ != "uint16_t"@) by { assert("uint64_t"@[4] != "uint16_t"@[4]); }
        assert("uint64_t"@ != "uint32_t"@) by { assert("uint64_t"@[4] != "uint32_t"@[4]); }
    }
}

/// The qualifiers `const`, `unsigned` and `signed` before a type change
/// nothing: the type read from the qualifier on is the type read after it.
pub proof fn lemma_qualifiers_are_skipped(ts: Seq<Seq<char>>, pos: int)
    requires
        0 <= pos < ts.len(),
        ts[pos] == "const"@ || ts[pos] == "unsigned"@ || ts[pos] == "signed"@,
    ensures
        c_type(ts, pos) == c_type(ts, pos + 1),
{
    lemma_skip_qualifiers(ts, pos + 1);
    let i = skip_qualifiers(ts, pos);
    assert(i == skip_qualifiers(ts, pos + 1));
    if i < ts.len() {
        match base_type(ts, i) {
            Some((t, j)) => {
                lemma_skip_stars(ts, j + 1);
            },
            None => {},
        }
    }
}

/// A C type word with one `*` is a pointer, a pointer's width wide:
/// `char *` is a string, `void *`, `int *` and `double *` opaque pointers.
pub proof fn lemma_c_pointer_words(ts: Seq<Seq<char>>, pos: int)
    requires
        0 <= pos < ts.len(),
        is_tok(ts, pos + 1, "*"@),
        !is_tok(ts, pos + 2, "*"@),
    ensures
        ts[pos] == "char"@ ==> c_type(ts, pos) == Ok::<(FfiTypeView, int), Seq<char>>((FfiTypeView::Str, pos + 2)),
        ts[pos] == "void"@ || ts[pos] == "int"@ || ts[pos] == "double"@
            ==> c_type(ts, pos) == Ok::<(FfiTypeView, int), Seq<char>>((FfiTypeView::Ptr, pos + 2)),
        type_size(FfiTypeView::Str) == vstd::layout::size_of::<usize>(),
        type_size(FfiTypeView::Ptr) == vstd::layout::size_of::<usize>(),
{
    reveal_strlit("const");
    reveal_strlit("unsigned");
    reveal_strlit("signed");
    reveal_strlit("void");
    reveal_strlit("char");
    reveal_strlit("short");
    reveal_strlit("int");
    reveal_strlit("long");
    reveal_strlit("float");
    reveal_strlit("double");
    reveal_strlit("*");
    broadcast use vstd::layout::layout_of_primitives;
    if ts[pos] == "void"@ {
        assert("void"@ != "const"@) by { assert("void"@.len() != "const"@.len()); }
        assert("void"@ != "unsigned"@) by { assert("void"@.len() != "unsigned"@.len()); }
        assert("void"@ != "signed"@) by { assert("void"@.len() != "signed"@.len()); }
    }
    if ts[pos] == "char"@ {
        assert("char"@ != "const"@) by { assert("char"@.len() != "const"@.len()); }
        assert("char"@ != "unsigned"@) by { assert("char"@.len() != "unsigned"@.len()); }
        assert("char"@ != "signed"@) by { assert("char"@.len() != "signed"@.len()); }
        assert("char"@ != "void"@) by { assert("char"@[0] != "void"@[0]); }
    }
    if ts[pos] == "int"@ {
        assert("int"@ != "const"@) by { assert("int"@.len() != "const"@.len()); }
        assert("int"@ != "unsigned"@) by { assert("int"@.len() != "unsigned"@.len()); }
        assert("int"@ != "signed"@) by { assert("int"@.len() != "signed"@.len()); }
        assert("int"@ != "void"@) by { assert("int"@.len() != "void"@.len()); }
        assert("int"@ != "char"@) by { assert("int"@.len() != "char"@.len()); }
        assert("int"@ != "short"@) by { assert("int"@.len() != "short"@.len()); }
    }
    if ts[pos] == "double"@ {
        assert("double"@ != "const"@) by { assert("double"@.len() != "const"@.len()); }
        assert("double"@ != "unsigned"@) by { assert("double"@.len() != "unsigned"@.len()); }
        assert("double"@ != "signed"@) by { assert("double"@[0] != "signed"@[0]); }
        assert("double"@ != "void"@) by { assert("double"@.len() != "void"@.len()); }
        assert("double"@ != "char"@) by { assert("double"@.len() != "char"@.len()); }
        assert("double"@ != "short"@) by { assert("double"@.len() != "short"@.len()); }
        assert("double"@ != "int"@) by { assert("double"@.len() != "int"@.len()); }
        assert("double"@ != "long"@) by { assert("double"@.len() != "long"@.len()); }
        assert("double"@ != "float"@) by { assert("double"@.len() != "float"@.len()); }
    }
    assert(skip_stars(ts, pos + 2) == (0nat, pos + 2));
}

/// A base type followed by `n > 0` stars: `char*` is a string, any other
/// pointer is an opaque pointer.
pub open spec fn pointer_type(t: FfiTypeView, n: nat) -> FfiTypeView {
    if n == 0 {
        t
    } else if t == FfiTypeView::I8 && n == 1 {
        FfiTypeView::Str
    } else {
        FfiTypeView::Ptr
    }
}

/// A C type at `pos`: the type and the position after it.
pub open spec fn c_type(ts: Seq<Seq<char>>, pos: int) -> Result<(FfiTypeView, int), Seq<char>>
    decreases ts.len() - pos, 0nat,
{
    let i = skip_qualifiers(ts, pos);
    if pos < 0 || i >= ts.len() || i < pos {
        Err("cdef: expected type"@)
    } else {
        match base_type(ts, i) {
            None => Err("cdef: expected struct name"@),
            Some((t, j)) => {
                let (n, k) = skip_stars(ts, j + 1);
                if n == 0 && is_tok(ts, k, "("@) && is_tok(ts, k + 1, "*"@) {
                    if k > pos {
                        callback_type(ts, k, t)
                    } else {
                        Err("cdef: expected type"@)
                    }
                } else {
                    Ok((pointer_type(t, n), k))
                }
            },
        }
    }
}

/// A callback type `( * name ) ( params )` at `pos` (at the first `(`),
/// returning `ret`.
pub open spec fn callback_type(ts: Seq<Seq<char>>, pos: int, ret: FfiTypeView) -> Result<(FfiTypeView, int), Seq<char>>
    decreases ts.len() - pos, 1nat,
{
    let i1 = pos + 1;
    let i2 = if is_tok(ts, i1, "*"@) { i1 + 1 } else { i1 };
    let i3 = if 0 <= i2 < ts.len() && ts[i2] != ")"@ { i2 + 1 } else { i2 };
    if !is_tok(ts, i3, ")"@) || pos < 0 {
        Err("cdef: expected ')' in callback type"@)
    } else if !is_tok(ts, i3 + 1, "("@) {
        Err("cdef: expected '(' for callback parameters"@)
    } else {
        callback_params(ts, i3 + 2, ret, Seq::empty())
    }
}

/// The parameter list of a callback type from `i` on, after the parameters
/// `acc` already read.
pub open spec fn callback_params(
    ts: Seq<Seq<char>>,
    i: int,
    ret: FfiTypeView,
    acc: Seq<FfiTypeView>,
) -> Result<(FfiTypeView, int), Seq<char>>
    decreases ts.len() - i, 2nat,
{
    if i < 0 || i >= ts.len() {
        Err("cdef: unterminated callback parameter list"@)
    } else if ts[i] == ")"@ {
        Ok((FfiTypeView::Callback(acc, Box::new(ret)), i + 1))
    } else if ts[i] == ","@ {
        callback_params(ts, i + 1, ret, acc)
    } else {
        match c_type(ts, i) {
            Err(m) => Err(m),
            Ok((t, next)) => {
                let next2 = if 0 <= next < ts.len() && ts[next] != ","@ && ts[next] != ")"@ {
                    next + 1
                } else {
                    next
                };
                if next <= i || next > ts.len() {
                    Err("cdef: expected type"@)
                } else {
                    callback_params(ts, next2, ret, acc.push(t))
                }
            },
        }
    }
}

/// A function parameter at `pos`: its type and the position after its
/// optional name.
pub open spec fn param(ts: Seq<Seq<char>>, pos: int) -> Result<(FfiTypeView, int), Seq<char>> {
    match c_type(ts, pos) {
        Err(m) => Err(m),
        Ok((t, i)) => if 0 <= i < ts.len() && ts[i] != ","@ && ts[i] != ")"@ && ts[i] != "("@ {
            Ok((t, i + 1))
        } else {
            Ok((t, i))
        },
    }
}

/// The fields of a struct body from `i` on (after the fields `acc`), and the
/// position after the closing `}`.
pub open spec fn struct_fields(
    ts: Seq<Seq<char>>,
    i: int,
    acc: Seq<(Seq<char>, FfiTypeView)>,
) -> Result<(Seq<(Seq<char>, FfiTypeView)>, int), Seq<char>>
    decreases ts.len() - i,
{
    if i < 0 || i >= ts.len() {
        Err("cdef: unterminated struct body"@)
    } else if ts[i] == "}"@ {
        Ok((acc, i + 1))
    } else {
        match c_type(ts, i) {
            Err(m) => Err(m),
            Ok((t, next)) => if next < i || next >= ts.len() || ts[next] == "}"@ {
                Err("cdef: expected field name in struct"@)
            } else {
                let after = if is_tok(ts, next + 1, ";"@) { next + 2 } else { next + 1 };
                struct_fields(ts, after, acc.push((ts[next], t)))
            },
        }
    }
}

/// A struct body `{ type field; ... }` at `pos` (at the `{`).
pub open spec fn struct_body(ts: Seq<Seq<char>>, pos: int) -> Result<(Seq<(Seq<char>, FfiTypeView)>, int), Seq<char>> {
    struct_fields(ts, pos + 1, Seq::empty())
}

/// A parsed C declaration, as plain values.
pub enum CdefItemView {
    Function { name: Seq<char>, params: Seq<FfiTypeView>, return_type: FfiTypeView },
    Struct { name: Seq<char>, fields: Seq<(Seq<char>, FfiTypeView)> },
    OpaqueType { name: Seq<char> },
}

/// The parameters of a function declaration from `i` on (after the
/// parameters `acc`), and the position after the closing `)`.
pub open spec fn function_params(
    ts: Seq<Seq<char>>,
    i: int,
    acc: Seq<FfiTypeView>,
    name: Seq<char>,
) -> Result<(Seq<FfiTypeView>, int), Seq<char>>
    decreases ts.len() - i,
{
    if i < 0 || i >= ts.len() {
        Err("cdef: unterminated parameter list for '"@ + name + "'"@)
    } else if ts[i] == ")"@ {
        Ok((acc, i + 1))
    } else if ts[i] == ","@ || ts[i] == "..."@ {
        function_params(ts, i + 1, acc, name)
    } else {
        match param(ts, i) {
            Err(m) => Err(m),
            Ok((t, next)) => if next <= i || next > ts.len() {
                Err("cdef: expected type"@)
            } else {
                function_params(ts, next, acc.push(t), name)
            },
        }
    }
}

/// A function declaration `type name(params);` at `pos`.
pub open spec fn function_decl(ts: Seq<Seq<char>>, pos: int) -> Result<(CdefItemView, int), Seq<char>> {
    match c_type(ts, pos) {
        Err(m) => Err(m),
        Ok((ret, i)) => if i < 0 || i >= ts.len() {
            Err("cdef: expected function name"@)
        } else if !is_tok(ts, i + 1, "("@) {
            Err("cdef: expected '(' after function name '"@ + ts[i] + "'"@)
        } else {
            match function_params(ts, i + 2, Seq::empty(), ts[i]) {
                Err(m) => Err(m),
                Ok((params, j)) => {
                    let k = if is_tok(ts, j, ";"@) { j + 1 } else { j };
                    Ok((CdefItemView::Function { name: ts[i], params, return_type: ret }, k))
                },
            }
        },
    }
}

/// A typedef at `pos` (at `typedef`): only `typedef struct Name Alias;` and
/// `typedef struct Name { ... } Alias;` are supported.
pub open spec fn typedef(ts: Seq<Seq<char>>, pos: int) -> Result<(CdefItemView, int), Seq<char>> {
    let i = pos + 1;
    if !is_tok(ts, i, "struct"@) {
        Err("cdef: unsupported typedef at '"@ + (if 0 <= i < ts.len() { ts[i] } else { "EOF"@ }) + "'"@)
    } else if i + 1 >= ts.len() {
        Err("cdef: incomplete typedef"@)
    } else {
        let name = ts[i + 1];
        let j = i + 2;
        if is_tok(ts, j, "{"@) {
            match struct_body(ts, j) {
                Err(m) => Err(m),
                Ok((fields, k)) => if k >= ts.len() {
                    Err("cdef: expected alias name after struct body"@)
                } else {
                    let k2 = if is_tok(ts, k + 1, ";"@) { k + 2 } else { k + 1 };
                    Ok((CdefItemView::Struct { name, fields }, k2))
                },
            }
        } else {
            let j2 = if 0 <= j < ts.len() && ts[j] != ";"@ { j + 1 } else { j };
            let j3 = if is_tok(ts, j2, ";"@) { j2 + 1 } else { j2 };
            Ok((CdefItemView::OpaqueType { name }, j3))
        }
    }
}

/// A struct definition `struct Name { ... };` at `pos` (at `struct`).
pub open spec fn struct_def(ts: Seq<Seq<char>>, pos: int) -> Result<(CdefItemView, int), Seq<char>> {
    let i = pos + 1;
    if i >= ts.len() {
        Err("cdef: expected struct name"@)
    } else if !is_tok(ts, i + 1, "{"@) {
        Err("cdef: expected '{' after struct "@ + ts[i])
    } else {
        match struct_body(ts, i + 1) {
            Err(m) => Err(m),
            Ok((fields, k)) => {
                let k2 = if is_tok(ts, k, ";"@) { k + 1 } else { k };
                Ok((CdefItemView::Struct { name: ts[i], fields }, k2))
            },
        }
    }
}

/// One declaration at `pos`, chosen by its first tokens.
pub open spec fn declaration(ts: Seq<Seq<char>>, pos: int) -> Result<(CdefItemView, int), Seq<char>> {
    if ts[pos] == "typedef"@ {
        typedef(ts, pos)
    } else if ts[pos] == "struct"@ && pos + 1 < ts.len() && is_tok(ts, pos + 2, "{"@) {
        struct_def(ts, pos)
    } else {
        function_decl(ts, pos)
    }
}

/// All declarations from `pos` on, after the items `acc`.
pub open spec fn declarations(
    ts: Seq<Seq<char>>,
    pos: int,
    acc: Seq<CdefItemView>,
) -> Result<Seq<CdefItemView>, Seq<char>>
    decreases ts.len() - pos,
{
    if pos < 0 || pos >= ts.len() {
        Ok(acc)
    } else if ts[pos] == ";"@ {
        declarations(ts, pos + 1, acc)
    } else {
        match declaration(ts, pos) {
            Err(m) => Err(m),
            Ok((item, next)) => if next <= pos || next > ts.len() {
                Err("cdef: expected type"@)
            } else {
                declarations(ts, next, acc.push(item))
            },
        }
    }
}

/// What `parse_cdef` yields for a text.
pub open spec fn cdef_items(cs: Seq<char>) -> Result<Seq<CdefItemView>, Seq<char>> {
    declarations(tokens_of(cs), 0, Seq::empty())
}

} // verus!
