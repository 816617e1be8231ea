//! FFI type system: C type declarations, their sizes and alignments, and the
//! layout of C structs.

use vstd::prelude::*;
use crate::error::GraphoidError;
use crate::text::{str_eq, str_starts_with};

verus! {

/// C/FFI type used in function declarations.
#[derive(Debug)]
pub enum FfiType {
    Void,
    Bool,
    I8,
    I16,
    I32,
    I64,
    U8,
    U16,
    U32,
    U64,
    F32,
    F64,
    /// Platform int (i32)
    Int,
    /// Platform size_t
    USize,
    /// const char* (null-terminated)
    Str,
    /// void*
    Ptr,
    /// Named struct type (passed by pointer)
    Struct(String),
    /// Function pointer type
    Callback(FfiCallbackSig),
}

/// Callback (function pointer) signature.
#[derive(Debug)]
pub struct FfiCallbackSig {
    pub params: Vec<FfiType>,
    pub return_type: Box<FfiType>,
}

/// The mathematical value of an `FfiType`: the same shape with names as
/// character sequences.
pub enum FfiTypeView {
    Void,
    Bool,
    I8,
    I16,
    I32,
    I64,
    U8,
    U16,
    U32,
    U64,
    F32,
    F64,
    Int,
    USize,
    Str,
    Ptr,
    Struct(Seq<char>),
    Callback(Seq<FfiTypeView>, Box<FfiTypeView>),
}

impl FfiType {
    pub open spec fn view_type(&self) -> FfiTypeView
        decreases self,
    {
        match self {
            FfiType::Void => FfiTypeView::Void,
            FfiType::Bool => FfiTypeView::Bool,
            FfiType::I8 => FfiTypeView::I8,
            FfiType::I16 => FfiTypeView::I16,
            FfiType::I32 => FfiTypeView::I32,
            FfiType::I64 => FfiTypeView::I64,
            FfiType::U8 => FfiTypeView::U8,
            FfiType::U16 => FfiTypeView::U16,
            FfiType::U32 => FfiTypeView::U32,
            FfiType::U64 => FfiTypeView::U64,
            FfiType::F32 => FfiTypeView::F32,
            FfiType::F64 => FfiTypeView::F64,
            FfiType::Int => FfiTypeView::Int,
            FfiType::USize => FfiTypeView::USize,
            FfiType::Str => FfiTypeView::Str,
            FfiType::Ptr => FfiTypeView::Ptr,
            FfiType::Struct(name) => FfiTypeView::Struct(name@),
            FfiType::Callback(sig) => FfiTypeView::Callback(
                view_types(sig.params@),
                Box::new((*sig.return_type).view_type()),
            ),
        }
    }
}

/// The views of a sequence of types.
pub open spec fn view_types(ts: Seq<FfiType>) -> Seq<FfiTypeView>
    decreases ts,
{
    if ts.len() == 0 {
        Seq::empty()
    } else {
        view_types(ts.drop_last()).push(ts.last().view_type())
    }
}

impl View for FfiType {
    type V = FfiTypeView;

    open spec fn view(&self) -> FfiTypeView {
        self.view_type()
    }
}

/// The size in bytes of a pointer on this platform.
pub open spec fn pointer_size() -> nat {
    (usize::BITS / 8) as nat
}

/// Size of a type in bytes (C ABI).
pub open spec fn type_size(t: FfiTypeView) -> nat {
    match t {
        FfiTypeView::Void => 0,
        FfiTypeView::Bool | FfiTypeView::I8 | FfiTypeView::U8 => 1,
        FfiTypeView::I16 | FfiTypeView::U16 => 2,
        FfiTypeView::I32 | FfiTypeView::U32 | FfiTypeView::F32 | FfiTypeView::Int => 4,
        FfiTypeView::I64 | FfiTypeView::U64 | FfiTypeView::F64 => 8,
        _ => pointer_size(),
    }
}

/// Alignment of a type in bytes (C ABI).
pub open spec fn type_alignment(t: FfiTypeView) -> nat {
    match t {
        FfiTypeView::Void => 1,
        FfiTypeView::Bool | FfiTypeView::I8 | FfiTypeView::U8 => 1,
        FfiTypeView::I16 | FfiTypeView::U16 => 2,
        FfiTypeView::I32 | FfiTypeView::U32 | FfiTypeView::F32 | FfiTypeView::Int => 4,
        FfiTypeView::I64 | FfiTypeView::U64 | FfiTypeView::F64 => 8,
        _ => pointer_size(),
    }
}

/// The type that a `lib.decl()` type name stands for, if any (without the
/// `struct:Name` form).
pub open spec fn named_type(s: Seq<char>) -> Option<FfiTypeView> {
    if s == "void"@ {
        Some(FfiTypeView::Void)
    } else if s == "bool"@ {
        Some(FfiTypeView::Bool)
    } else if s == "i8"@ || s == "int8"@ || s == "int8_t"@ {
        Some(FfiTypeView::I8)
    } else if s == "i16"@ || s == "int16"@ || s == "int16_t"@ {
        Some(FfiTypeView::I16)
    } else if s == "i32"@ || s == "int32"@ || s == "int32_t"@ {
        Some(FfiTypeView::I32)
    } else if s == "i64"@ || s == "int64"@ || s == "int64_t"@ {
        Some(FfiTypeView::I64)
    } else if s == "u8"@ || s == "uint8"@ || s == "uint8_t"@ {
        Some(FfiTypeView::U8)
    } else if s == "u16"@ || s == "uint16"@ || s == "uint16_t"@ {
        Some(FfiTypeView::U16)
    } else if s == "u32"@ || s == "uint32"@ || s == "uint32_t"@ {
        Some(FfiTypeView::U32)
    } else if s == "u64"@ || s == "uint64"@ || s == "uint64_t"@ {
        Some(FfiTypeView::U64)
    } else if s == "f32"@ || s == "float"@ {
        Some(FfiTypeView::F32)
    } else if s == "f64"@ || s == "double"@ {
        Some(FfiTypeView::F64)
    } else if s == "int"@ {
        Some(FfiTypeView::Int)
    } else if s == "usize"@ || s == "size_t"@ {
        Some(FfiTypeView::USize)
    } else if s == "str"@ || s == "string"@ || s == "char*"@ {
        Some(FfiTypeView::Str)
    } else if s == "ptr"@ || s == "void*"@ || s == "pointer"@ {
        Some(FfiTypeView::Ptr)
    } else {
        None
    }
}

/// What `FfiType::from_str` parses `s` to: a named type, `struct:Name`, or
/// nothing.
pub open spec fn parse_type_name(s: Seq<char>) -> Option<FfiTypeView> {
    match named_type(s) {
        Some(t) => Some(t),
        None => if s.len() >= 7 && s.subrange(0, 7) == "struct:"@ {
            Some(FfiTypeView::Struct(s.skip(7)))
        } else {
            None
        },
    }
}

fn is_one_of(s: &str, a: &str, b: &str, c: &str) -> (r: bool)
    ensures
        r == (s@ == a@ || s@ == b@ || s@ == c@),
{
    str_eq(s, a) || str_eq(s, b) || str_eq(s, c)
}

/// Characters of `s` from index `start` on, as a new string.
fn suffix_from(s: &str, start: usize) -> (r: String)
    requires
        start <= s@.len(),
    ensures
        r@ == s@.skip(start as int),
{
    let n = s.unicode_len();
    let sub = s.substring_char(start, n);
    assert(s@.subrange(start as int, n as int) =~= s@.skip(start as int));
    String::from_str(sub)
}

impl FfiType {
    /// Parse an FFI type from a string (used by `lib.decl()`).
    pub fn from_str(s: &str) -> (r: Result<Self, GraphoidError>)
        ensures
            match parse_type_name(s@) {
                Some(t) => r matches Ok(x) && x@ == t,
                None => r is Err,
            },
    {
        if str_eq(s, "void") {
            Ok(FfiType::Void)
        } else if str_eq(s, "bool") {
            Ok(FfiType::Bool)
        } else if is_one_of(s, "i8", "int8", "int8_t") {
            Ok(FfiType::I8)
        } else if is_one_of(s, "i16", "int16", "int16_t") {
            Ok(FfiType::I16)
        } else if is_one_of(s, "i32", "int32", "int32_t") {
            Ok(FfiType::I32)
        } else if is_one_of(s, "i64", "int64", "int64_t") {
            Ok(FfiType::I64)
        } else if is_one_of(s, "u8", "uint8", "uint8_t") {
            Ok(FfiType::U8)
        } else if is_one_of(s, "u16", "uint16", "uint16_t") {
            Ok(FfiType::U16)
        } else if is_one_of(s, "u32", "uint32", "uint32_t") {
            Ok(FfiType::U32)
        } else if is_one_of(s, "u64", "uint64", "uint64_t") {
            Ok(FfiType::U64)
        } else if str_eq(s, "f32") || str_eq(s, "float") {
            Ok(FfiType::F32)
        } else if str_eq(s, "f64") || str_eq(s, "double") {
            Ok(FfiType::F64)
        } else if str_eq(s, "int") {
            Ok(FfiType::Int)
        } else if str_eq(s, "usize") || str_eq(s, "size_t") {
            Ok(FfiType::USize)
        } else if is_one_of(s, "str", "string", "char*") {
            Ok(FfiType::Str)
        } else if is_one_of(s, "ptr", "void*", "pointer") {
            Ok(FfiType::Ptr)
        } else if str_starts_with(s, "struct:") {
            proof {
                reveal_strlit("struct:");
            }
            Ok(FfiType::Struct(suffix_from(s, 7)))
        } else {
            let mut message = String::from_str("Unknown FFI type: '");
            message.append(s);
            message.append("'. For struct types use 'struct:Name' or lib.cdef()");
            proof {
                reveal_strlit("struct:");
            }
            Err(GraphoidError::runtime(message))
        }
    }

    /// Size of this type in bytes (C ABI).
    pub fn size(&self) -> (n: usize)
        ensures
            n == type_size(self@),
    {
        match self {
            FfiType::Void => 0,
            FfiType::Bool | FfiType::I8 | FfiType::U8 => 1,
            FfiType::I16 | FfiType::U16 => 2,
            FfiType::I32 | FfiType::U32 | FfiType::F32 | FfiType::Int => 4,
            FfiType::I64 | FfiType::U64 | FfiType::F64 => 8,
            FfiType::USize | FfiType::Str | FfiType::Ptr | FfiType::Struct(_) | FfiType::Callback(_) => {
                (usize::BITS / 8) as usize
            },
        }
    }

    /// Alignment of this type in bytes (C ABI).
    pub fn alignment(&self) -> (n: usize)
        ensures
            n == type_alignment(self@),
    {
        match self {
            FfiType::Void => 1,
            FfiType::Bool | FfiType::I8 | FfiType::U8 => 1,
            FfiType::I16 | FfiType::U16 => 2,
            FfiType::I32 | FfiType::U32 | FfiType::F32 | FfiType::Int => 4,
            FfiType::I64 | FfiType::U64 | FfiType::F64 => 8,
            FfiType::USize | FfiType::Str | FfiType::Ptr | FfiType::Struct(_) | FfiType::Callback(_) => {
                (usize::BITS / 8) as usize
            },
        }
    }
}

/// A declared foreign function with its signature.
#[derive(Debug)]
pub struct FfiDeclaration {
    pub name: String,
    pub params: Vec<FfiType>,
    pub return_type: FfiType,
}

/// A field in a C struct definition.
#[derive(Debug)]
pub struct FfiStructField {
    pub name: String,
    pub ffi_type: FfiType,
    pub offset: usize,
    pub size: usize,
}

/// A C struct definition with computed layout.
#[derive(Debug)]
pub struct FfiStructDef {
    pub name: String,
    pub fields: Vec<FfiStructField>,
    pub size: usize,
    pub alignment: usize,
}

/// `off` rounded up to a multiple of `a`.
pub open spec fn align_up(off: nat, a: nat) -> nat {
    if a == 0 {
        off
    } else {
        off + ((a - off % a) % (a as int)) as nat
    }
}

/// The offset just past the first `n` fields of a struct whose field types
/// are `ts`, each placed at the next offset aligned for its type.
pub open spec fn fields_end(ts: Seq<FfiTypeView>, n: int) -> nat
    decreases n, 0nat,
{
    if n <= 0 {
        0
    } else {
        field_offset(ts, n - 1) + type_size(ts[n - 1])
    }
}

/// The offset of field `i`.
pub open spec fn field_offset(ts: Seq<FfiTypeView>, i: int) -> nat
    decreases i, 1nat,
{
    if i < 0 {
        0
    } else {
        align_up(fields_end(ts, i), type_alignment(ts[i]))
    }
}

/// The largest alignment among the first `n` field types (at least 1).
pub open spec fn max_alignment(ts: Seq<FfiTypeView>, n: int) -> nat
    decreases n,
{
    if n <= 0 {
        1
    } else {
        let m = max_alignment(ts, n - 1);
        if type_alignment(ts[n - 1]) > m { type_alignment(ts[n - 1]) } else { m }
    }
}

/// The size of the whole struct: the end of its fields padded to its
/// alignment.
pub open spec fn struct_size(ts: Seq<FfiTypeView>) -> nat {
    align_up(fields_end(ts, ts.len() as int), max_alignment(ts, ts.len() as int))
}

/// The field types of a raw field list.
pub open spec fn raw_types(raw: Seq<(String, FfiType)>) -> Seq<FfiTypeView> {
    Seq::new(raw.len(), |i: int| raw[i].1@)
}

proof fn lemma_type_bounds(t: FfiTypeView)
    ensures
        1 <= type_alignment(t) <= 8,
        type_size(t) <= 8,
{
    assert(usize::BITS == 32 || usize::BITS == 64);
}

proof fn lemma_align_up(off: nat, a: nat)
    requires
        a > 0,
    ensures
        off <= align_up(off, a) < off + a,
        align_up(off, a) % a == 0,
{
    assert(align_up(off, a) % a == 0) by (nonlinear_arith)
        requires
            a > 0,
            align_up(off, a) == off + ((a - off % a) % (a as int)) as nat,
    {
        if off % a == 0 {
            assert((a - off % a) % (a as int) == 0);
        } else {
            assert((a - off % a) % (a as int) == a - off % a);
            assert(off == a * (off / a) + off % a);
            assert(off + (a - off % a) == a * (off / a + 1));
        }
    }
}

proof fn lemma_fields_end_bound(ts: Seq<FfiTypeView>, n: int)
    requires
        0 <= n,
    ensures
        fields_end(ts, n) <= 16 * n,
    decreases n,
{
    if n > 0 {
        lemma_fields_end_bound(ts, n - 1);
        lemma_type_bounds(ts[n - 1]);
        lemma_align_up(fields_end(ts, n - 1), type_alignment(ts[n - 1]));
    }
}

proof fn lemma_max_alignment_bounds(ts: Seq<FfiTypeView>, n: int)
    ensures
        1 <= max_alignment(ts, n) <= 8,
        forall|i: int| 0 <= i < n ==> type_alignment(ts[i]) <= max_alignment(ts, n),
    decreases n,
{
    if n > 0 {
        lemma_max_alignment_bounds(ts, n - 1);
        lemma_type_bounds(ts[n - 1]);
    }
}

/// Every field sits at an offset that is a multiple of its alignment.
pub proof fn lemma_field_offsets_aligned(ts: Seq<FfiTypeView>, i: int)
    requires
        0 <= i < ts.len(),
    ensures
        field_offset(ts, i) % type_alignment(ts[i]) == 0,
{
    lemma_type_bounds(ts[i]);
    lemma_align_up(fields_end(ts, i), type_alignment(ts[i]));
}

/// Fields do not overlap: each ends at or before the next one starts.
pub proof fn lemma_fields_disjoint(ts: Seq<FfiTypeView>, i: int)
    requires
        0 <= i,
        i + 1 < ts.len(),
    ensures
        field_offset(ts, i) + type_size(ts[i]) <= field_offset(ts, i + 1),
{
    lemma_type_bounds(ts[i + 1]);
    lemma_align_up(fields_end(ts, i + 1), type_alignment(ts[i + 1]));
}

/// Every fixed-width FFI type is as wide as the Rust type of that width
/// (`U16` and `I16` take two bytes, `U32` four, ...), `int` is a 32-bit
/// integer, `float` and `double` are as wide as 32- and 64-bit integers,
/// pointers, strings, structs passed by pointer and callbacks take a
/// pointer's width, and every type but `void` is aligned to its own size,
/// as C lays these types out.
pub proof fn lemma_scalar_sizes(t: FfiTypeView)
    ensures
        type_size(FfiTypeView::Bool) == vstd::layout::size_of::<bool>(),
        type_size(FfiTypeView::I8) == vstd::layout::size_of::<i8>(),
        type_size(FfiTypeView::U8) == vstd::layout::size_of::<u8>(),
        type_size(FfiTypeView::I16) == vstd::layout::size_of::<i16>(),
        type_size(FfiTypeView::U16) == vstd::layout::size_of::<u16>(),
        type_size(FfiTypeView::I32) == vstd::layout::size_of::<i32>(),
        type_size(FfiTypeView::U32) == vstd::layout::size_of::<u32>(),
        type_size(FfiTypeView::I64) == vstd::layout::size_of::<i64>(),
        type_size(FfiTypeView::U64) == vstd::layout::size_of::<u64>(),
        type_size(FfiTypeView::Int) == vstd::layout::size_of::<i32>(),
        type_size(FfiTypeView::F32) == vstd::layout::size_of::<u32>(),
        type_size(FfiTypeView::F64) == vstd::layout::size_of::<u64>(),
        type_size(FfiTypeView::USize) == vstd::layout::size_of::<usize>(),
        type_size(FfiTypeView::Ptr) == vstd::layout::size_of::<usize>(),
        type_size(FfiTypeView::Str) == vstd::layout::size_of::<usize>(),
        (t is Struct || t is Callback) ==> type_size(t) == vstd::layout::size_of::<usize>(),
        !(t is Void) ==> type_size(t) == type_alignment(t),
        type_size(FfiTypeView::Void) == 0,
{
    broadcast use vstd::layout::layout_of_primitives;
}

/// The struct's size covers all its fields, is a multiple of its alignment,
/// and adds less than one alignment unit of tail padding; the alignment is
/// a multiple of, hence no smaller than, every field's alignment.
pub proof fn lemma_struct_size(ts: Seq<FfiTypeView>)
    ensures
        fields_end(ts, ts.len() as int) <= struct_size(ts),
        struct_size(ts) < fields_end(ts, ts.len() as int) + max_alignment(ts, ts.len() as int),
        struct_size(ts) % max_alignment(ts, ts.len() as int) == 0,
        forall|i: int| 0 <= i < ts.len() ==> type_alignment(ts[i]) <= max_alignment(ts, ts.len() as int),
{
    lemma_max_alignment_bounds(ts, ts.len() as int);
    lemma_align_up(fields_end(ts, ts.len() as int), max_alignment(ts, ts.len() as int));
}

impl FfiStructDef {
    /// Compute a struct layout from field names and types with C ABI
    /// alignment rules.
    pub fn compute_layout(name: String, raw_fields: Vec<(String, FfiType)>) -> (d: Self)
        requires
            16 * raw_fields@.len() + 8 <= usize::MAX,
        ensures
            d.name == name,
            d.fields@.len() == raw_fields@.len(),
            forall|i: int| 0 <= i < raw_fields@.len() ==> {
                &&& (#[trigger] d.fields@[i]).name == raw_fields@[i].0
                &&& d.fields@[i].ffi_type == raw_fields@[i].1
                &&& d.fields@[i].offset == field_offset(raw_types(raw_fields@), i)
                &&& d.fields@[i].size == type_size(raw_fields@[i].1@)
            },
            d.alignment == max_alignment(raw_types(raw_fields@), raw_fields@.len() as int),
            d.size == struct_size(raw_types(raw_fields@)),
    {
        let ghost raw = raw_fields@;
        let ghost ts = raw_types(raw);
        let mut fields: Vec<FfiStructField> = Vec::new();
        let mut offset: usize = 0;
        let mut max_align: usize = 1;
        let mut i: usize = 0;
        let mut raw_fields = raw_fields;
        let n = raw_fields.len();
        while i < n
            invariant
                n == raw.len(),
                16 * n + 8 <= usize::MAX,
                raw_fields@.len() == n,
                ts == raw_types(raw),
                0 <= i <= n,
                forall|j: int| i <= j < n ==> raw_fields@[j] == raw[j],
                offset == fields_end(ts, i as int),
                max_align == max_alignment(ts, i as int),
                fields@.len() == i,
                forall|j: int| 0 <= j < i ==> {
                    &&& (#[trigger] fields@[j]).name == raw[j].0
                    &&& fields@[j].ffi_type == raw[j].1
                    &&& fields@[j].offset == field_offset(ts, j)
                    &&& fields@[j].size == type_size(raw[j].1@)
                },
            decreases n - i,
        {
            let mut entry = (String::new(), FfiType::Void);
            std::mem::swap(&mut entry, &mut raw_fields[i]);
            let (field_name, ffi_type) = entry;
            assert(ffi_type@ == ts[i as int]);
            let field_align = ffi_type.alignment();
            let field_size = ffi_type.size();
            proof {
                lemma_type_bounds(ts[i as int]);
                lemma_fields_end_bound(ts, i as int);
                lemma_align_up(offset as nat, field_align as nat);
            }
            let padding = (field_align - (offset % field_align)) % field_align;
            offset = offset + padding;
            fields.push(FfiStructField { name: field_name, ffi_type, offset, size: field_size });
            offset = offset + field_size;
            if field_align > max_align {
                max_align = field_align;
            }
            i = i + 1;
        }
        proof {
            lemma_fields_end_bound(ts, n as int);
            lemma_max_alignment_bounds(ts, n as int);
            lemma_align_up(offset as nat, max_align as nat);
        }
        let padding = (max_align - (offset % max_align)) % max_align;
        let size = offset + padding;
        FfiStructDef { name, fields, size, alignment: max_align }
    }

    /// Look up the first field with the given name.
    pub fn get_field(&self, name: &str) -> (r: Option<&FfiStructField>)
        ensures
            match r {
                Some(f) => exists|i: int| 0 <= i < self.fields@.len() && f == &self.fields@[i]
                    && self.fields@[i].name@ == name@
                    && forall|j: int| 0 <= j < i ==> self.fields@[j].name@ != name@,
                None => forall|j: int| 0 <= j < self.fields@.len() ==> self.fields@[j].name@ != name@,
            },
    {
        let mut i: usize = 0;
        while i < self.fields.len()
            invariant
                i <= self.fields@.len(),
                forall|j: int| 0 <= j < i ==> self.fields@[j].name@ != name@,
            decreases self.fields@.len() - i,
        {
            if str_eq(self.fields[i].name.as_str(), name) {
                return Some(&self.fields[i]);
            }
            i = i + 1;
        }
        None
    }
}

} // verus!
