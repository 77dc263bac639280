use wit_bindgen_zig::emit::Instruction;
use wit_bindgen_zig::scopes::ScopeKey;
use wit_bindgen_zig::scopes::ScopedSources;
use wit_bindgen_zig::scopes::get_path;
use wit_bindgen_zig::scopes::name_world_key;
use wit_bindgen_zig::types::Function;
use wit_bindgen_zig::types::Param;
use wit_bindgen_zig::types::ResultShape;
use wit_bindgen_zig::types::WasmSignature;
use wit_bindgen_zig::types::WasmType;
use wit_bindgen_zig::types::WitType;
use wit_bindgen_zig::world::ExportItem;
use wit_bindgen_zig::world::ImportItem;
use wit_bindgen_zig::world::Opts;
use wit_bindgen_zig::world::Zig;
use wit_bindgen_zig::world::file_name;

fn iface_key(ns: &str, pkg: &str, iface: &str) -> ScopeKey {
    ScopeKey::Interface {
        namespace: ns.to_string(),
        package: pkg.to_string(),
        iface: iface.to_string(),
    }
}

fn byte_echo(name: &str) -> ImportItem {
    ImportItem {
        func: Function {
            name: name.to_string(),
            params: vec![Param { name: "x".to_string(), ty: WitType::U8 }],
            results: ResultShape::Anon(WitType::U8),
        },
        insts: vec![
            Instruction::GetArg { nth: 0 },
            Instruction::I32FromU8,
            Instruction::CallWasm {
                name: name.to_string(),
                sig: WasmSignature { params: vec![WasmType::I32], results: vec![WasmType::I32] },
            },
            Instruction::U8FromI32,
            Instruction::Return { amt: 1 },
        ],
    }
}

#[test]
fn scenario_interface_scoped_import_nests_three_levels() {
    let mut zig = Zig::new(Opts::default());
    let key = iface_key("ns", "pkg", "iface");
    zig.import_interface(&key, &vec![byte_echo("f")]).unwrap();
    let out = zig.finish();
    let expected = "pub const ns = struct {\n\
pub const pkg = struct {\n\
pub const iface = struct {\n\
pub fn f(x: u8) u8 {\n\
const ret = (struct {\n\
extern \"ns:pkg/iface\" fn @\"f\"(i32) i32;\n\
}).@\"f\"(@as(i32, @intCast(x)));\n\
return @as(u8, @intCast(ret));\n\
}\n\
};\n\
};\n\
};\n";
    assert_eq!(out, expected);
}

#[test]
fn distinct_paths_render_in_distinct_blocks() {
    let mut zig = Zig::new(Opts::default());
    zig.import_interface(&iface_key("ns", "pkg", "one"), &vec![byte_echo("f")])
        .unwrap();
    zig.import_interface(&iface_key("ns", "pkg", "two"), &vec![byte_echo("g")])
        .unwrap();
    let out = zig.finish();
    let one_at = out.find("pub const one = struct {").unwrap();
    let one_end = one_at + out[one_at..].find("};").unwrap();
    let two_at = out.find("pub const two = struct {").unwrap();
    let f_at = out.find("pub fn f").unwrap();
    let g_at = out.find("pub fn g").unwrap();
    assert!(one_at < f_at && f_at < one_end);
    assert!(!(one_at < g_at && g_at < one_end));
    assert!(two_at > one_end);
}

#[test]
fn flat_functions_render_at_top_level() {
    let mut zig = Zig::new(Opts::default());
    zig.import_funcs(&vec![byte_echo("top")]).unwrap();
    zig.import_interface(&iface_key("ns", "pkg", "deep"), &vec![byte_echo("f")])
        .unwrap();
    let out = zig.finish();
    assert!(out.starts_with("pub fn top(x: u8) u8 {"));
    assert!(out.contains("extern \"$root\" fn @\"top\"(i32) i32;"));
}

#[test]
fn world_key_paths_and_names() {
    let key = iface_key("my-ns", "my-pkg", "the-iface");
    assert_eq!(name_world_key(&key), "my-ns:my-pkg/the-iface");
    assert_eq!(get_path(&key), vec!["my_ns", "my_pkg", "the_iface"]);
    let named = ScopeKey::Name("HelloWorld".to_string());
    assert_eq!(name_world_key(&named), "HelloWorld");
    assert_eq!(get_path(&named), vec!["hello_world"]);
    let kw = ScopeKey::Name("test".to_string());
    assert_eq!(get_path(&kw), vec!["test_"]);
}

#[test]
fn scoped_sources_keep_filing_order() {
    let mut sources = ScopedSources::new();
    sources.push_flat("first\n".to_string());
    sources.push_flat("second\n".to_string());
    sources.push(&ScopeKey::Name("inner".to_string()), "third\n".to_string());
    assert!(!sources.is_empty());
    let out = sources.get_source();
    assert_eq!(
        out,
        "first\nsecond\npub const inner = struct {\nthird\n};\n"
    );
}

#[test]
fn fragments_under_one_path_share_one_block() {
    let mut sources = ScopedSources::new();
    sources.push(&ScopeKey::Name("inner".to_string()), "a\n".to_string());
    sources.push(&ScopeKey::Name("inner".to_string()), "b\n".to_string());
    let out = sources.get_source();
    assert_eq!(out, "pub const inner = struct {\na\nb\n};\n");
}

#[test]
fn scenario_export_world_level_function() {
    let mut zig = Zig::new(Opts::default());
    let item = ExportItem {
        func: Function {
            name: "add".to_string(),
            params: vec![
                Param { name: "a".to_string(), ty: WitType::S32 },
                Param { name: "b".to_string(), ty: WitType::S32 },
            ],
            results: ResultShape::Anon(WitType::S32),
        },
        sig: WasmSignature {
            params: vec![WasmType::I32, WasmType::I32],
            results: vec![WasmType::I32],
        },
        insts: vec![
            Instruction::GetArg { nth: 0 },
            Instruction::S32FromI32,
            Instruction::GetArg { nth: 1 },
            Instruction::S32FromI32,
            Instruction::CallInterface {
                func: Function {
                    name: "add".to_string(),
                    params: vec![
                        Param { name: "a".to_string(), ty: WitType::S32 },
                        Param { name: "b".to_string(), ty: WitType::S32 },
                    ],
                    results: ResultShape::Anon(WitType::S32),
                },
            },
            Instruction::I32FromS32,
            Instruction::Return { amt: 1 },
        ],
    };
    zig.export_funcs(&vec![item]).unwrap();
    let out = zig.finish();
    assert!(out.starts_with(
        "const exports = struct {\n\
const __user_exports = stub;\n\n\
export fn @\"add\"(p0: i32, p1: i32) i32 {\n\
const ret = __user_exports.add(p0, p1);\n\
return ret;\n\
}\n\
};\n"
    ));
    assert!(out.contains("comptime {\n    refAllStructDeclsRecursive(exports);\n}"));
}

#[test]
fn scenario_export_interface_scoped_symbol() {
    let mut zig = Zig::new(Opts {
        exports_file: Some("my_exports.zig".to_string()),
    });
    let item = ExportItem {
        func: Function {
            name: "f".to_string(),
            params: vec![Param { name: "x".to_string(), ty: WitType::U8 }],
            results: ResultShape::Anon(WitType::U8),
        },
        sig: WasmSignature { params: vec![WasmType::I32], results: vec![WasmType::I32] },
        insts: vec![
            Instruction::GetArg { nth: 0 },
            Instruction::U8FromI32,
            Instruction::CallInterface {
                func: Function {
                    name: "f".to_string(),
                    params: vec![Param { name: "x".to_string(), ty: WitType::U8 }],
                    results: ResultShape::Anon(WitType::U8),
                },
            },
            Instruction::I32FromU8,
            Instruction::Return { amt: 1 },
        ],
    };
    zig.export_interface(&iface_key("ns", "pkg", "iface"), &vec![item])
        .unwrap();
    let out = zig.finish();
    assert!(out.contains("const __user_exports = @import(\"my_exports.zig\");\n"));
    assert!(out.contains("export fn @\"ns:pkg/iface#f\"(p0: i32) i32 {"));
    assert!(out.contains("const ret = __user_exports.ns.pkg.iface.f(@as(u8, @intCast(p0)));"));
    assert!(out.contains(
        "pub const ns = struct {\npub const pkg = struct {\npub const iface = struct {\n"
    ));
}

#[test]
fn module_file_name_is_snake_case() {
    assert_eq!(file_name("my-world"), "my_world.zig");
    assert_eq!(file_name("HelloWorld"), "hello_world.zig");
}
