use graphoid::error::GraphoidError;
use graphoid::ffi::cdef_parser::{parse_cdef, tokenize, CdefItem};
use graphoid::ffi::library::{resolve_library_name, Platform};
use graphoid::ffi::limits::{FfiLimits, FfiUsage};
use graphoid::ffi::types::{FfiStructDef, FfiType};
use graphoid::ffi::struct_ops::{check_struct_fields, field_for};

#[test]
fn type_names() {
    assert!(matches!(FfiType::from_str("int32_t"), Ok(FfiType::I32)));
    assert!(matches!(FfiType::from_str("double"), Ok(FfiType::F64)));
    assert!(matches!(FfiType::from_str("char*"), Ok(FfiType::Str)));
    assert!(matches!(FfiType::from_str("size_t"), Ok(FfiType::USize)));
    match FfiType::from_str("struct:Point") {
        Ok(FfiType::Struct(name)) => assert_eq!(name, "Point"),
        other => panic!("unexpected: {:?}", other),
    }
    assert!(FfiType::from_str("quaternion").is_err());
}

#[test]
fn type_sizes_and_alignments() {
    assert_eq!(FfiType::I8.size(), 1);
    assert_eq!(FfiType::I16.size(), 2);
    assert_eq!(FfiType::F64.size(), 8);
    assert_eq!(FfiType::Void.size(), 0);
    assert_eq!(FfiType::Ptr.size(), std::mem::size_of::<usize>());
    assert_eq!(FfiType::I64.alignment(), 8);
    assert_eq!(FfiType::U8.alignment(), 1);
}

#[test]
fn struct_layout_follows_c_rules() {
    let def = FfiStructDef::compute_layout(
        "S".to_string(),
        vec![("a".to_string(), FfiType::U8), ("b".to_string(), FfiType::I32), ("c".to_string(), FfiType::U8)],
    );
    let offsets: Vec<usize> = def.fields.iter().map(|f| f.offset).collect();
    assert_eq!(offsets, vec![0, 4, 8]);
    assert_eq!(def.alignment, 4);
    assert_eq!(def.size, 12);
    assert_eq!(def.get_field("b").map(|f| f.offset), Some(4));
    assert!(def.get_field("zz").is_none());
}

#[test]
fn empty_struct_layout() {
    let def = FfiStructDef::compute_layout("E".to_string(), Vec::new());
    assert_eq!(def.size, 0);
    assert_eq!(def.alignment, 1);
}

#[test]
fn cdef_tokens() {
    let toks = tokenize("int add(int a, int b);");
    assert_eq!(toks, vec!["int", "add", "(", "int", "a", ",", "int", "b", ")", ";"]);
}

#[test]
fn cdef_function_declaration() {
    let items = parse_cdef("double hypot(double x, double y);").expect("parses");
    assert_eq!(items.len(), 1);
    match &items[0] {
        CdefItem::Function(decl) => {
            assert_eq!(decl.name, "hypot");
            assert_eq!(decl.params.len(), 2);
            assert!(matches!(decl.return_type, FfiType::F64));
        }
        other => panic!("unexpected: {:?}", other),
    }
}

#[test]
fn cdef_struct_and_opaque() {
    let items = parse_cdef("struct P { int x; int y; }; typedef struct Handle Handle;").expect("parses");
    assert_eq!(items.len(), 2);
    match &items[0] {
        CdefItem::Struct(def) => {
            assert_eq!(def.name, "P");
            assert_eq!(def.size, 8);
        }
        other => panic!("unexpected: {:?}", other),
    }
    match &items[1] {
        CdefItem::OpaqueType(name) => assert_eq!(name, "Handle"),
        other => panic!("unexpected: {:?}", other),
    }
}

#[test]
fn cdef_errors() {
    assert!(parse_cdef("int (;").is_err());
    assert!(parse_cdef("struct { int x; };").is_err());
}

#[test]
fn library_candidates_per_platform() {
    assert_eq!(
        resolve_library_name("m", Platform::Linux),
        vec!["libm.so.6", "libm.so", "m.so", "m"]
    );
    assert_eq!(resolve_library_name("z", Platform::MacOs), vec!["libz.dylib", "z.dylib", "z"]);
    assert_eq!(resolve_library_name("user32", Platform::Windows), vec!["user32.dll", "user32"]);
    assert_eq!(resolve_library_name("./local.so", Platform::Linux), vec!["./local.so"]);
    assert_eq!(resolve_library_name("/usr/lib/x.so", Platform::Linux), vec!["/usr/lib/x.so"]);
}

#[test]
fn limits_default_is_unlimited() {
    let limits = FfiLimits::default();
    let usage = FfiUsage { bridge_nodes: 1_000_000, allocated_bytes: 1 << 40, library_count: 99, pinned_callbacks: 7 };
    assert!(limits.check_bridge_nodes(&usage).is_ok());
    assert!(limits.check_memory(&usage, 1 << 20).is_ok());
    assert!(limits.check_libraries(&usage).is_ok());
    assert!(limits.check_pinned_callbacks(&usage).is_ok());
    let fresh = FfiUsage::default();
    assert_eq!(fresh.bridge_nodes, 0);
}

#[test]
fn limit_messages() {
    let limits = FfiLimits {
        max_bridge_nodes: Some(5),
        max_memory_bytes: Some(100),
        max_libraries: Some(2),
        max_pinned_callbacks: None,
    };
    let usage = FfiUsage { bridge_nodes: 5, allocated_bytes: 60, library_count: 1, pinned_callbacks: 0 };
    assert_eq!(limits.check_bridge_nodes(&usage), Err("FFI bridge node limit exceeded (5/5)".to_string()));
    assert_eq!(limits.check_memory(&usage, 40), Ok(()));
    assert_eq!(
        limits.check_memory(&usage, 41),
        Err("FFI memory limit exceeded (60+41 > 100 bytes)".to_string())
    );
    assert!(limits.check_libraries(&usage).is_ok());
}

fn cdef_message(text: &str) -> String {
    match parse_cdef(text) {
        Err(GraphoidError::RuntimeError { message }) => message,
        _ => panic!("expected a runtime error for {}", text),
    }
}

#[test]
fn cdef_error_messages_name_the_declaration() {
    assert_eq!(cdef_message("int abs(int x"), "cdef: unterminated parameter list for 'abs'");
    assert_eq!(cdef_message("struct P { int x;"), "cdef: unterminated struct body");
    assert_eq!(cdef_message("typedef int myint;"), "cdef: unsupported typedef at 'int'");
    assert_eq!(cdef_message("const"), "cdef: expected type");
    assert_eq!(cdef_message("int abs;"), "cdef: expected '(' after function name 'abs'");
    assert!(parse_cdef("").unwrap().is_empty());
    assert!(parse_cdef(";;").unwrap().is_empty());
}

#[test]
fn struct_field_checks() {
    let def = FfiStructDef::compute_layout(
        "Point".to_string(),
        vec![("x".to_string(), FfiType::Int), ("y".to_string(), FfiType::Int)],
    );
    assert!(check_struct_fields(&def, &vec!["y".to_string(), "x".to_string()]).is_ok());
    match check_struct_fields(&def, &vec!["y".to_string()]) {
        Err(GraphoidError::RuntimeError { message }) => assert_eq!(message, "Missing field 'x' for struct 'Point'"),
        _ => panic!("expected the missing field error"),
    }
    assert_eq!(field_for(&def, "y").map(|f| f.offset).ok(), Some(4));
    match field_for(&def, "z") {
        Err(GraphoidError::RuntimeError { message }) => assert_eq!(message, "Struct 'Point' has no field 'z'"),
        _ => panic!("expected the unknown field error"),
    }
}
