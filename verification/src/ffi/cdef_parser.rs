//! C declaration parser for `lib.cdef()`.
//!
//! Parses a practical subset of C declarations:
//! - function declarations: `int abs(int x);`
//! - struct definitions: `struct Point { double x; double y; };`
//! - opaque typedefs: `typedef struct sqlite3 sqlite3;`
//! - callback parameters: `int (*compar)(const void*, const void*)`

use vstd::prelude::*;
use crate::error::GraphoidError;
use crate::ffi::cdef_spec::{
    base_type, callback_params, callback_type, c_type, cdef_items, declaration, declarations,
    function_decl, function_params, is_tok, param, pointer_type, skip_qualifiers, skip_stars,
    struct_body, struct_def, struct_fields, tok_state, tok_step, token_view, tokens_of, typedef,
    CdefItemView,
};
use crate::ffi::types::{
    field_offset, max_alignment, struct_size, type_size, view_types, FfiCallbackSig,
    FfiDeclaration, FfiStructDef, FfiType, FfiTypeView,
};
use crate::text::{push_char, str_eq};

verus! {

/// A parsed item of a cdef string.
#[derive(Debug)]
pub enum CdefItem {
    Function(FfiDeclaration),
    Struct(FfiStructDef),
    OpaqueType(String),
}

/// The views of the raw fields of a struct body.
pub open spec fn raw_fields_view(raw: Seq<(String, FfiType)>) -> Seq<(Seq<char>, FfiTypeView)> {
    Seq::new(raw.len(), |i: int| (raw[i].0@, raw[i].1@))
}

/// `d` is the struct named `name` with fields `fields`, laid out by the C ABI
/// rules of `FfiStructDef::compute_layout`.
pub open spec fn laid_out(d: FfiStructDef, name: Seq<char>, fields: Seq<(Seq<char>, FfiTypeView)>) -> bool {
    let ts = Seq::new(fields.len(), |i: int| fields[i].1);
    &&& d.name@ == name
    &&& d.fields@.len() == fields.len()
    &&& forall|i: int| 0 <= i < fields.len() ==> {
        &&& (#[trigger] d.fields@[i]).name@ == fields[i].0
        &&& d.fields@[i].ffi_type@ == fields[i].1
        &&& d.fields@[i].offset == field_offset(ts, i)
        &&& d.fields@[i].size == type_size(fields[i].1)
    }
    &&& d.alignment == max_alignment(ts, fields.len() as int)
    &&& d.size == struct_size(ts)
}

/// `item` is the declaration `v`.
pub open spec fn item_is(item: CdefItem, v: CdefItemView) -> bool {
    match (item, v) {
        (CdefItem::Function(d), CdefItemView::Function { name, params, return_type }) => {
            &&& d.name@ == name
            &&& view_types(d.params@) == params
            &&& d.return_type@ == return_type
        },
        (CdefItem::Struct(d), CdefItemView::Struct { name, fields }) => laid_out(d, name, fields),
        (CdefItem::OpaqueType(n), CdefItemView::OpaqueType { name }) => n@ == name,
        _ => false,
    }
}

/// Token `i` of `tokens` exists and is `lit`.
fn tok_is(tokens: &[String], i: usize, lit: &str) -> (r: bool)
    ensures
        r == is_tok(token_view(tokens@), i as int, lit@),
{
    i < tokens.len() && str_eq(tokens[i].as_str(), lit)
}

/// A runtime error carrying the message.
fn cdef_error(message: &str) -> (e: GraphoidError)
    ensures
        e matches GraphoidError::RuntimeError { message: m } && m@ == message@,
{
    GraphoidError::runtime(String::from_str(message))
}

/// Tokenize C declaration text into words and punctuation.
pub fn tokenize(input: &str) -> (tokens: Vec<String>)
    ensures
        token_view(tokens@) == tokens_of(input@),
{
    let mut tokens: Vec<String> = Vec::new();
    let mut current = String::new();
    let n = input.unicode_len();
    let mut i: usize = 0;
    while i < n
        invariant
            n == input@.len(),
            i <= n,
            (token_view(tokens@), current@) == tok_state(input@, i as int),
        decreases n - i,
    {
        let c = input.get_char(i);
        let ghost pre = token_view(tokens@);
        if c == '{' || c == '}' || c == '(' || c == ')' || c == ';' || c == ',' || c == '*' {
            if current.as_str().unicode_len() > 0 {
                let mut word = String::new();
                std::mem::swap(&mut word, &mut current);
                tokens.push(word);
            }
            let mut p = String::new();
            push_char(&mut p, c);
            tokens.push(p);
        } else if c == ' ' || c == '\t' || c == '\n' || c == '\r' {
            if current.as_str().unicode_len() > 0 {
                let mut word = String::new();
                std::mem::swap(&mut word, &mut current);
                tokens.push(word);
            }
        } else {
            push_char(&mut current, c);
        }
        assert(token_view(tokens@) =~= tok_step(tok_state(input@, i as int), c).0);
        i = i + 1;
    }
    if current.as_str().unicode_len() > 0 {
        tokens.push(current);
    }
    assert(token_view(tokens@) =~= tokens_of(input@));
    tokens
}


pub(crate) proof fn lemma_skip_qualifiers(ts: Seq<Seq<char>>, i: int)
    requires
        0 <= i <= ts.len(),
    ensures
        i <= skip_qualifiers(ts, i) <= ts.len(),
    decreases ts.len() - i,
{
    if 0 <= i < ts.len() && (ts[i] == "const"@ || ts[i] == "unsigned"@ || ts[i] == "signed"@) {
        lemma_skip_qualifiers(ts, i + 1);
    }
}

pub(crate) proof fn lemma_skip_stars(ts: Seq<Seq<char>>, i: int)
    requires
        0 <= i <= ts.len(),
    ensures
        i <= skip_stars(ts, i).1 <= ts.len(),
        skip_stars(ts, i).1 == i + skip_stars(ts, i).0,
    decreases ts.len() - i,
{
    if is_tok(ts, i, "*"@) {
        lemma_skip_stars(ts, i + 1);
    }
}

/// The outcome of a type-parsing step matches its statement.
pub open spec fn type_result_is(
    r: Result<(FfiType, usize), GraphoidError>,
    s: Result<(FfiTypeView, int), Seq<char>>,
) -> bool {
    match s {
        Ok((t, n)) => r matches Ok((x, m)) && x@ == t && m == n,
        Err(m) => r matches Err(GraphoidError::RuntimeError { message }) && message@ == m,
    }
}

/// Parse a C type expression (qualifiers, `struct`, pointers and callback
/// signatures) at `pos`.
fn parse_c_type(tokens: &[String], pos: usize) -> (r: Result<(FfiType, usize), GraphoidError>)
    requires
        pos <= tokens@.len(),
        16 * tokens@.len() + 8 <= usize::MAX,
    ensures
        type_result_is(r, c_type(token_view(tokens@), pos as int)),
        r matches Ok((_, m)) ==> pos < m <= tokens@.len(),
    decreases tokens@.len() - pos, 0nat,
{
    let ghost ts = token_view(tokens@);
    assert(ts.len() == tokens@.len());
    let mut i = pos;
    while i < tokens.len() && (tok_is(tokens, i, "const") || tok_is(tokens, i, "unsigned") || tok_is(tokens, i, "signed"))
        invariant
            ts == token_view(tokens@),
            pos <= i <= tokens@.len(),
            skip_qualifiers(ts, i as int) == skip_qualifiers(ts, pos as int),
        decreases tokens@.len() - i,
    {
        i = i + 1;
    }
    proof {
        lemma_skip_qualifiers(ts, pos as int);
    }
    if i >= tokens.len() {
        return Err(cdef_error("cdef: expected type"));
    }
    let base = tokens[i].as_str();
    let ghost bt = base_type(ts, i as int);
    let mut ffi_type = if str_eq(base, "void") {
        FfiType::Void
    } else if str_eq(base, "char") {
        FfiType::I8
    } else if str_eq(base, "short") {
        FfiType::I16
    } else if str_eq(base, "int") {
        FfiType::Int
    } else if str_eq(base, "long") {
        if tok_is(tokens, i + 1, "long") {
            i = i + 1;
        }
        FfiType::I64
    } else if str_eq(base, "float") {
        FfiType::F32
    } else if str_eq(base, "double") {
        FfiType::F64
    } else if str_eq(base, "size_t") {
        FfiType::USize
    } else if str_eq(base, "int8_t") {
        FfiType::I8
    } else if str_eq(base, "int16_t") {
        FfiType::I16
    } else if str_eq(base, "int32_t") {
        FfiType::I32
    } else if str_eq(base, "int64_t") {
        FfiType::I64
    } else if str_eq(base, "uint8_t") {
        FfiType::U8
    } else if str_eq(base, "uint16_t") {
        FfiType::U16
    } else if str_eq(base, "uint32_t") {
        FfiType::U32
    } else if str_eq(base, "uint64_t") {
        FfiType::U64
    } else if str_eq(base, "struct") {
        i = i + 1;
        if i >= tokens.len() {
            return Err(cdef_error("cdef: expected struct name"));
        }
        FfiType::Struct(tokens[i].clone())
    } else if str_eq(base, "_Bool") || str_eq(base, "bool") {
        FfiType::Bool
    } else {
        FfiType::Struct(String::from_str(base))
    };
    assert(bt == Some((ffi_type@, i as int)));
    i = i + 1;

    let ghost j0 = i as int;
    let mut pointer_count: usize = 0;
    while i < tokens.len() && tok_is(tokens, i, "*")
        invariant
            ts == token_view(tokens@),
            j0 <= i <= tokens@.len(),
            pointer_count == i - j0,
            skip_stars(ts, j0) == ((pointer_count + skip_stars(ts, i as int).0) as nat, skip_stars(ts, i as int).1),
        decreases tokens@.len() - i,
    {
        pointer_count = pointer_count + 1;
        i = i + 1;
    }
    assert(skip_stars(ts, i as int) == (0nat, i as int));

    if pointer_count == 0 && tok_is(tokens, i, "(") && tok_is(tokens, i + 1, "*") {
        return parse_callback_type(tokens, i, ffi_type);
    }
    if pointer_count > 0 {
        let is_char = match ffi_type {
            FfiType::I8 => true,
            _ => false,
        };
        if is_char && pointer_count == 1 {
            ffi_type = FfiType::Str;
        } else {
            ffi_type = FfiType::Ptr;
        }
    }
    Ok((ffi_type, i))
}

/// Parse a callback (function pointer) type `(*name)(param_types)` at the
/// first `(`, with the already parsed return type.
fn parse_callback_type(tokens: &[String], pos: usize, return_type: FfiType) -> (r: Result<(FfiType, usize), GraphoidError>)
    requires
        pos < tokens@.len(),
        16 * tokens@.len() + 8 <= usize::MAX,
    ensures
        type_result_is(r, callback_type(token_view(tokens@), pos as int, return_type@)),
        r matches Ok((_, m)) ==> pos < m <= tokens@.len(),
    decreases tokens@.len() - pos, 1nat,
{
    let ghost ts = token_view(tokens@);
    let ghost ret = return_type@;
    assert(ts.len() == tokens@.len());
    let mut i = pos + 1;
    if tok_is(tokens, i, "*") {
        i = i + 1;
    }
    if i < tokens.len() && !tok_is(tokens, i, ")") {
        i = i + 1;
    }
    if !tok_is(tokens, i, ")") {
        return Err(cdef_error("cdef: expected ')' in callback type"));
    }
    i = i + 1;
    if !tok_is(tokens, i, "(") {
        return Err(cdef_error("cdef: expected '(' for callback parameters"));
    }
    i = i + 1;
    let mut params: Vec<FfiType> = Vec::new();
    while i < tokens.len() && !tok_is(tokens, i, ")")
        invariant
            ts == token_view(tokens@),
            16 * tokens@.len() + 8 <= usize::MAX,
            ret == return_type@,
            pos < i <= tokens@.len(),
            callback_params(ts, i as int, ret, view_types(params@)) == callback_type(ts, pos as int, ret),
        decreases tokens@.len() - i,
    {
        if tok_is(tokens, i, ",") {
            i = i + 1;
            continue;
        }
        let (param_type, next) = match parse_c_type(tokens, i) {
        Ok(v) => v,
        Err(e) => return Err(e),
    };
        i = next;
        if i < tokens.len() && !tok_is(tokens, i, ",") && !tok_is(tokens, i, ")") {
            i = i + 1;
        }
        let ghost pre = params@;
        params.push(param_type);
        assert(params@.drop_last() =~= pre);
    }
    if i >= tokens.len() {
        return Err(cdef_error("cdef: unterminated callback parameter list"));
    }
    i = i + 1;
    Ok((FfiType::Callback(FfiCallbackSig { params, return_type: Box::new(return_type) }), i))
}


/// Parse one function parameter (a type and an optional name).
fn parse_param(tokens: &[String], pos: usize) -> (r: Result<(FfiType, usize), GraphoidError>)
    requires
        pos <= tokens@.len(),
        16 * tokens@.len() + 8 <= usize::MAX,
    ensures
        type_result_is(r, param(token_view(tokens@), pos as int)),
        r matches Ok((_, m)) ==> pos < m <= tokens@.len(),
{
    let (base_type, mut i) = match parse_c_type(tokens, pos) {
        Ok(v) => v,
        Err(e) => return Err(e),
    };
    if i < tokens.len() && !tok_is(tokens, i, ",") && !tok_is(tokens, i, ")") && !tok_is(tokens, i, "(") {
        i = i + 1;
    }
    Ok((base_type, i))
}

/// The outcome of parsing a struct body matches its statement.
pub open spec fn body_result_is(
    r: Result<(Vec<(String, FfiType)>, usize), GraphoidError>,
    s: Result<(Seq<(Seq<char>, FfiTypeView)>, int), Seq<char>>,
) -> bool {
    match s {
        Ok((fs, n)) => r matches Ok((x, m)) && raw_fields_view(x@) == fs && m == n,
        Err(m) => r matches Err(GraphoidError::RuntimeError { message }) && message@ == m,
    }
}

/// Parse a struct body `{ type field; ... }` at the `{`: the fields and the
/// position after the `}`.
fn parse_struct_body(tokens: &[String], pos: usize) -> (r: Result<(Vec<(String, FfiType)>, usize), GraphoidError>)
    requires
        pos < tokens@.len(),
        16 * tokens@.len() + 8 <= usize::MAX,
    ensures
        body_result_is(r, struct_body(token_view(tokens@), pos as int)),
        r matches Ok((fs, m)) ==> pos < m <= tokens@.len() && fs@.len() <= m,
{
    let ghost ts = token_view(tokens@);
    assert(ts.len() == tokens@.len());
    let mut i = pos + 1;
    let mut fields: Vec<(String, FfiType)> = Vec::new();
    assert(raw_fields_view(fields@) =~= Seq::empty());
    while i < tokens.len() && !tok_is(tokens, i, "}")
        invariant
            ts == token_view(tokens@),
            16 * tokens@.len() + 8 <= usize::MAX,
            pos < i <= tokens@.len(),
            fields@.len() <= i,
            struct_fields(ts, i as int, raw_fields_view(fields@)) == struct_body(ts, pos as int),
        decreases tokens@.len() - i,
    {
        let (ffi_type, next) = match parse_c_type(tokens, i) {
        Ok(v) => v,
        Err(e) => return Err(e),
    };
        i = next;
        if i >= tokens.len() || tok_is(tokens, i, "}") {
            return Err(cdef_error("cdef: expected field name in struct"));
        }
        let field_name = tokens[i].clone();
        i = i + 1;
        if tok_is(tokens, i, ";") {
            i = i + 1;
        }
        let ghost pre = raw_fields_view(fields@);
        fields.push((field_name, ffi_type));
        assert(raw_fields_view(fields@) =~= pre.push((ts[next as int], ffi_type@)));
    }
    if i >= tokens.len() {
        return Err(cdef_error("cdef: unterminated struct body"));
    }
    i = i + 1;
    Ok((fields, i))
}

/// The outcome of parsing a declaration matches its statement.
pub open spec fn item_result_is(
    r: Result<(CdefItem, usize), GraphoidError>,
    s: Result<(CdefItemView, int), Seq<char>>,
) -> bool {
    match s {
        Ok((v, n)) => r matches Ok((x, m)) && item_is(x, v) && m == n,
        Err(m) => r matches Err(GraphoidError::RuntimeError { message }) && message@ == m,
    }
}

/// Lay out a parsed struct.
fn layout(name: String, fields: Vec<(String, FfiType)>) -> (d: FfiStructDef)
    requires
        16 * fields@.len() + 8 <= usize::MAX,
    ensures
        laid_out(d, name@, raw_fields_view(fields@)),
{
    let ghost fv = raw_fields_view(fields@);
    let ghost raw = fields@;
    let d = FfiStructDef::compute_layout(name, fields);
    assert(Seq::new(fv.len(), |i: int| fv[i].1) =~= crate::ffi::types::raw_types(raw));
    d
}

/// Parse a function declaration `type name(type param, ...);`.
fn parse_function_decl(tokens: &[String], pos: usize) -> (r: Result<(CdefItem, usize), GraphoidError>)
    requires
        pos < tokens@.len(),
        16 * tokens@.len() + 8 <= usize::MAX,
    ensures
        item_result_is(r, function_decl(token_view(tokens@), pos as int)),
        r matches Ok((_, m)) ==> pos < m <= tokens@.len(),
{
    let ghost ts = token_view(tokens@);
    assert(ts.len() == tokens@.len());
    let (return_type, mut i) = match parse_c_type(tokens, pos) {
        Ok(v) => v,
        Err(e) => return Err(e),
    };
    if i >= tokens.len() {
        return Err(cdef_error("cdef: expected function name"));
    }
    let func_name = tokens[i].clone();
    let ghost name_at = i as int;
    i = i + 1;
    if !tok_is(tokens, i, "(") {
        let mut message = String::from_str("cdef: expected '(' after function name '");
        message.append(func_name.as_str());
        message.append("'");
        return Err(cdef_error(message.as_str()));
    }
    i = i + 1;
    let mut params: Vec<FfiType> = Vec::new();
    while i < tokens.len() && !tok_is(tokens, i, ")")
        invariant
            ts == token_view(tokens@),
            16 * tokens@.len() + 8 <= usize::MAX,
            pos < i <= tokens@.len(),
            function_params(ts, i as int, view_types(params@), ts[name_at]) == function_params(ts, name_at + 2, Seq::empty(), ts[name_at]),
            c_type(ts, pos as int) == Ok::<(FfiTypeView, int), Seq<char>>((return_type@, name_at)),
            0 <= name_at < ts.len(),
            is_tok(ts, name_at + 1, "("@),
            func_name@ == ts[name_at],
        decreases tokens@.len() - i,
    {
        if tok_is(tokens, i, ",") || tok_is(tokens, i, "...") {
            i = i + 1;
            continue;
        }
        let res = parse_param(tokens, i);
        let (param_type, next) = match res {
            Ok(p) => p,
            Err(e) => {
                assert(param(ts, i as int) is Err);
                assert(function_params(ts, i as int, view_types(params@), ts[name_at]) is Err);
                return Err(e);
            },
        };
        let ghost pre = params@;
        params.push(param_type);
        assert(params@.drop_last() =~= pre);
        i = next;
    }
    if i >= tokens.len() {
        let mut message = String::from_str("cdef: unterminated parameter list for '");
        message.append(func_name.as_str());
        message.append("'");
        return Err(cdef_error(message.as_str()));
    }
    i = i + 1;
    if tok_is(tokens, i, ";") {
        i = i + 1;
    }
    Ok((CdefItem::Function(FfiDeclaration { name: func_name, params, return_type }), i))
}

/// Parse a typedef: `typedef struct Name Alias;` or
/// `typedef struct Name { ... } Alias;`.
fn parse_typedef(tokens: &[String], pos: usize) -> (r: Result<(CdefItem, usize), GraphoidError>)
    requires
        pos < tokens@.len(),
        16 * tokens@.len() + 8 <= usize::MAX,
    ensures
        item_result_is(r, typedef(token_view(tokens@), pos as int)),
        r matches Ok((_, m)) ==> pos < m <= tokens@.len(),
{
    let ghost ts = token_view(tokens@);
    assert(ts.len() == tokens@.len());
    let mut i = pos + 1;
    if tok_is(tokens, i, "struct") {
        i = i + 1;
        if i >= tokens.len() {
            return Err(cdef_error("cdef: incomplete typedef"));
        }
        let struct_name = tokens[i].clone();
        i = i + 1;
        if tok_is(tokens, i, "{") {
            let (fields, next) = match parse_struct_body(tokens, i) {
        Ok(v) => v,
        Err(e) => return Err(e),
    };
            i = next;
            if i >= tokens.len() {
                return Err(cdef_error("cdef: expected alias name after struct body"));
            }
            i = i + 1;
            if tok_is(tokens, i, ";") {
                i = i + 1;
            }
            let def = layout(struct_name, fields);
            return Ok((CdefItem::Struct(def), i));
        }
        if i < tokens.len() && !tok_is(tokens, i, ";") {
            i = i + 1;
        }
        if tok_is(tokens, i, ";") {
            i = i + 1;
        }
        return Ok((CdefItem::OpaqueType(struct_name), i));
    }
    let mut message = String::from_str("cdef: unsupported typedef at '");
    if pos + 1 < tokens.len() {
        message.append(tokens[pos + 1].as_str());
    } else {
        message.append("EOF");
    }
    message.append("'");
    Err(cdef_error(message.as_str()))
}

/// Parse a struct definition `struct Name { type field; ... };`.
fn parse_struct_def(tokens: &[String], pos: usize) -> (r: Result<(CdefItem, usize), GraphoidError>)
    requires
        pos < tokens@.len(),
        16 * tokens@.len() + 8 <= usize::MAX,
    ensures
        item_result_is(r, struct_def(token_view(tokens@), pos as int)),
        r matches Ok((_, m)) ==> pos < m <= tokens@.len(),
{
    let ghost ts = token_view(tokens@);
    assert(ts.len() == tokens@.len());
    let mut i = pos + 1;
    if i >= tokens.len() {
        return Err(cdef_error("cdef: expected struct name"));
    }
    let name = tokens[i].clone();
    i = i + 1;
    if !tok_is(tokens, i, "{") {
        let mut message = String::from_str("cdef: expected '{' after struct ");
        message.append(name.as_str());
        return Err(cdef_error(message.as_str()));
    }
    let (fields, next) = match parse_struct_body(tokens, i) {
        Ok(v) => v,
        Err(e) => return Err(e),
    };
    i = next;
    if tok_is(tokens, i, ";") {
        i = i + 1;
    }
    let def = layout(name, fields);
    Ok((CdefItem::Struct(def), i))
}

proof fn lemma_token_count(cs: Seq<char>, n: int)
    requires
        0 <= n <= cs.len(),
    ensures
        tok_state(cs, n).0.len() + (if tok_state(cs, n).1.len() > 0 { 1int } else { 0 }) <= n,
    decreases n,
{
    if n > 0 {
        lemma_token_count(cs, n - 1);
    }
}

/// Parse a cdef string into its declarations.
pub fn parse_cdef(input: &str) -> (r: Result<Vec<CdefItem>, GraphoidError>)
    requires
        16 * input@.len() + 8 <= usize::MAX,
    ensures
        match cdef_items(input@) {
            Ok(items) => r matches Ok(xs) && xs@.len() == items.len()
                && forall|i: int| 0 <= i < items.len() ==> item_is(#[trigger] xs@[i], items[i]),
            Err(m) => r matches Err(GraphoidError::RuntimeError { message }) && message@ == m,
        },
{
    let mut items: Vec<CdefItem> = Vec::new();
    let token_vec = tokenize(input);
    let tokens = token_vec.as_slice();
    proof {
        lemma_token_count(input@, input@.len() as int);
    }
    let ghost ts = token_view(tokens@);
    assert(ts.len() == tokens@.len());
    let ghost views: Seq<CdefItemView> = Seq::empty();
    let mut pos: usize = 0;
    while pos < tokens.len()
        invariant
            ts == token_view(tokens@),
            ts == tokens_of(input@),
            16 * tokens@.len() + 8 <= usize::MAX,
            pos <= tokens@.len(),
            items@.len() == views.len(),
            forall|i: int| 0 <= i < views.len() ==> item_is(#[trigger] items@[i], views[i]),
            declarations(ts, pos as int, views) == cdef_items(input@),
        decreases tokens@.len() - pos,
    {
        if tok_is(tokens, pos, ";") {
            pos = pos + 1;
            continue;
        }
        let (item, next) = if tok_is(tokens, pos, "typedef") {
            parse_typedef(tokens, pos)?
        } else if tok_is(tokens, pos, "struct") && pos + 1 < tokens.len() && tok_is(tokens, pos + 2, "{") {
            parse_struct_def(tokens, pos)?
        } else {
            parse_function_decl(tokens, pos)?
        };
        let ghost v = declaration(ts, pos as int)->Ok_0.0;
        items.push(item);
        proof {
            views = views.push(v);
        }
        pos = next;
    }
    Ok(items)
}

} // verus!
