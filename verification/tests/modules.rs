use yara_x::macros::{forwarded_args, thunk_name, ModuleExportsArgs};
use yara_x::modules::magic::{answer, Magic};
use yara_x::modules::{module_names, string_equal, ModuleRegistry};
use yara_x::scanner::ScanContext;
use yara_x::string_pool::BStringPool;
use yara_x::symbols::{StackedSymbolTable, Symbol, SymbolKind, SymbolTable};
use yara_x::types::{Func, FuncSignature, Heap, Struct, Type, TypeValue};
use yara_x::wasm::exports::{module_functions, qualified_name, WasmExport};
use yara_x::wasm::host::string_bytes;
use yara_x::wasm::linker::{link_names, FunctionTable};

fn export(name: &str, mangled: &str, public: bool, path: &str) -> WasmExport {
    WasmExport {
        name: name.to_string(),
        mangled_name: mangled.to_string(),
        public,
        rust_module_path: path.to_string(),
    }
}

fn exports() -> Vec<WasmExport> {
    vec![
        export("add", "add@ii@i", true, "yara_x::modules::test_proto2"),
        export("uint8", "uint8@i@iu", true, "yara_x::wasm"),
        export("head", "head@i@s", true, "yara_x::modules::test_proto2"),
        export("add", "add@ff@f", true, "yara_x::modules::test_proto2"),
        export("hidden", "hidden@@", false, "yara_x::modules::test_proto2"),
        export("type", "type@@s", true, "yara_x::modules::magic"),
        export("add", "add@ss@s", true, "yara_x::modules::test_proto2"),
    ]
}

fn registry() -> ModuleRegistry {
    let mut registry = ModuleRegistry::new();
    let mut root = Struct::new();
    root.add_field("int32_zero", TypeValue::Integer(Some(0)));
    root.add_field("head", TypeValue::Bool(None));
    let all = exports();
    assert_eq!(
        registry.add_module("test_proto2", "test_proto2.TestProto2", Some("test_proto2"), true, root, &all),
        Some(0)
    );
    assert_eq!(registry.add_module("pe", "pe.PE", None, true, Struct::new(), &all), Some(1));
    assert_eq!(
        registry.add_module("magic", "magic.Magic", Some("magic"), false, Struct::new(), &all),
        Some(2)
    );
    registry
}

#[test]
fn functions_of_a_module_are_grouped_by_name() {
    let all = exports();
    let (names, funcs) = module_functions(&all, "test_proto2", "test_proto2");
    assert_eq!(names.len(), 2);
    assert_eq!(names.name(0), "add");
    assert_eq!(names.name(1), "head");
    assert_eq!(funcs.len(), 2);
    assert_eq!(funcs[0].len(), 3);
    assert_eq!(funcs[0].signature(0), "test_proto2.add@ii@i");
    assert_eq!(funcs[0].signature(1), "test_proto2.add@ff@f");
    assert_eq!(funcs[0].signature(2), "test_proto2.add@ss@s");
    assert_eq!(funcs[1].len(), 1);
    assert_eq!(funcs[1].signature(0), "test_proto2.head@i@s");

    let (names, funcs) = module_functions(&all, "m", "no_such_module");
    assert_eq!(names.len(), 0);
    assert!(funcs.is_empty());
    assert_eq!(qualified_name("pe", "is_dll@@b"), "pe.is_dll@@b");
}

#[test]
fn a_module_gets_a_field_for_each_function() {
    let registry = registry();
    assert_eq!(registry.len(), 3);
    let module = registry.get("test_proto2").unwrap();
    assert_eq!(module.name, "test_proto2");
    assert_eq!(module.rust_module_name.as_deref(), Some("test_proto2"));
    assert!(module.has_main);
    let heap = registry.structures();
    let s = &heap.structs[module.root_struct];
    // `head` was a field of the structure: it keeps its index, and is now
    // the function.
    assert_eq!(s.len(), 3);
    assert_eq!(s.index_of("int32_zero"), Some(0));
    assert_eq!(s.index_of("head"), Some(1));
    assert_eq!(s.index_of("add"), Some(2));
    assert!(matches!(s.field_by_index(0).unwrap().type_value, TypeValue::Integer(Some(0))));
    let add = match s.field_by_name("add").unwrap().type_value {
        TypeValue::Func(id) => id,
        _ => panic!("not a function"),
    };
    let head = match s.field_by_name("head").unwrap().type_value {
        TypeValue::Func(id) => id,
        _ => panic!("not a function"),
    };
    assert_eq!(heap.funcs[add].len(), 3);
    assert_eq!(heap.funcs[add].signature(1), "test_proto2.add@ff@f");
    assert_eq!(heap.funcs[head].signature(0), "test_proto2.head@i@s");
    assert!(s.field_by_name("uint8").is_none());
    assert!(s.field_by_index(3).is_none());

    let magic = registry.get("magic").unwrap();
    let s = &heap.structs[magic.root_struct];
    assert_eq!(s.len(), 1);
    assert_eq!(s.index_of("type"), Some(0));
    let pe = registry.get("pe").unwrap();
    assert_eq!(heap.structs[pe.root_struct].len(), 0);
}

#[test]
fn a_module_is_registered_once() {
    let mut registry = registry();
    let before = registry.structures().structs.len();
    assert_eq!(registry.add_module("pe", "x.X", None, false, Struct::new(), &[]), None);
    assert_eq!(registry.len(), 3);
    assert_eq!(registry.structures().structs.len(), before);
    assert_eq!(registry.get("pe").unwrap().root_message, "pe.PE");
    assert!(registry.contains("pe"));
    assert!(!registry.contains("elf"));
    assert!(registry.get("elf").is_none());
    assert_eq!(registry.position("magic"), Some(2));
    assert_eq!(registry.position("elf"), None);
    assert_eq!(registry.module_at(1).name, "pe");
}

#[test]
fn names_of_the_modules() {
    assert_eq!(module_names(&registry()), vec!["test_proto2", "pe", "magic"]);
    assert!(module_names(&ModuleRegistry::new()).is_empty());
}

#[test]
fn invoking_by_the_message_of_a_module() {
    let registry = registry();
    assert_eq!(registry.find_by_root_message("pe.PE"), Some(1));
    assert_eq!(registry.find_by_root_message("elf.ELF"), None);
    assert!(registry.can_invoke("pe.PE"));
    assert!(registry.can_invoke("test_proto2.TestProto2"));
    // A module without a main function produces nothing.
    assert!(!registry.can_invoke("magic.Magic"));
    assert!(!registry.can_invoke("elf.ELF"));
}

#[test]
fn fully_qualified_mangled_names() {
    let registry = registry();
    let all = exports();
    assert_eq!(all[0].fully_qualified_mangled_name(&registry), "test_proto2.add@ii@i");
    assert_eq!(all[1].fully_qualified_mangled_name(&registry), "uint8@i@iu");
    assert_eq!(all[4].fully_qualified_mangled_name(&registry), "test_proto2.hidden@@");
    assert_eq!(all[5].fully_qualified_mangled_name(&registry), "magic.type@@s");
    assert!(all[0].is_exported_by("test_proto2"));
    assert!(all[0].is_exported_by(""));
    assert!(!all[0].is_exported_by("test_proto3"));
    assert!(!all[4].is_exported_by("test_proto2"));

    let names = link_names(&all, &registry);
    assert_eq!(names.len(), 7);
    assert_eq!(names[0], ("yara_x::modules::test_proto2".to_string(), "test_proto2.add@ii@i".to_string()));
    assert_eq!(names[1], ("yara_x::wasm".to_string(), "uint8@i@iu".to_string()));
    assert_eq!(names[6].1, "test_proto2.add@ss@s");
}

#[test]
fn function_table() {
    let mut table = FunctionTable::new();
    assert_eq!(table.add("uint8@i@iu"), 0);
    assert_eq!(table.add("pe.is_dll@@b"), 1);
    assert_eq!(table.add("uint8@i@iu"), 0);
    assert!(table.contains("pe.is_dll@@b"));
    assert!(!table.contains("pe.is_dll"));
    assert_eq!(table.function_id("pe.is_dll@@b"), 1);
    assert_eq!(table.function_id("uint8@i@iu"), 0);
}

#[test]
fn functions_and_signatures() {
    let mut f = Func::with_signature(FuncSignature { mangled_name: "f@i@i".to_string() });
    assert_eq!(f.len(), 1);
    f.add_signature(FuncSignature { mangled_name: "f@s@i".to_string() });
    assert_eq!(f.len(), 2);
    assert_eq!(f.signature(0), "f@i@i");
    assert_eq!(f.signature(1), "f@s@i");
}

#[test]
fn structures_keep_the_index_of_a_field() {
    let mut s = Struct::new();
    assert_eq!(s.add_field("a", TypeValue::Bool(None)), 0);
    assert_eq!(s.add_field("b", TypeValue::Integer(Some(1))), 1);
    assert_eq!(s.add_field("a", TypeValue::Integer(Some(2))), 0);
    assert_eq!(s.len(), 2);
    assert_eq!(s.fields_ref().len(), 2);
    assert!(matches!(s.field_by_name("a").unwrap().type_value, TypeValue::Integer(Some(2))));
    assert_eq!(s.field_by_index(1).unwrap().name, "b");
    assert_eq!(TypeValue::Struct(0).ty(), Type::Struct);
    assert_eq!(TypeValue::Mapping(0).ty(), Type::Mapping);
    assert_eq!(TypeValue::Unknown.ty(), Type::Unknown);
    assert_eq!(TypeValue::Float(None).ty(), Type::Float);
    let mut heap = Heap::new();
    let id = heap.add_struct(s);
    assert!(matches!(heap.field_value(id, 1), Some(TypeValue::Integer(Some(1)))));
    assert!(heap.field_value(id, 2).is_none());
    assert!(heap.field_value(id + 1, 0).is_none());
    let f = heap.add_func(Func::with_signature(FuncSignature { mangled_name: "f@@".to_string() }));
    assert_eq!(f, 0);
}

#[test]
fn symbol_tables() {
    let rule = |id| Symbol { ty: Type::Bool, kind: SymbolKind::Rule(id) };
    let mut table = SymbolTable::new();
    assert_eq!(table.lookup("a"), None);
    table.insert("a", rule(1));
    table.insert("b", rule(2));
    table.insert("a", rule(3));
    assert_eq!(table.lookup("a"), Some(rule(3)));
    assert_eq!(table.lookup("b"), Some(rule(2)));

    let mut stack = StackedSymbolTable::new();
    assert_eq!(stack.lookup("a"), None);
    stack.pop();
    assert_eq!(stack.depth(), 0);
    stack.push_new();
    stack.insert("a", rule(1));
    stack.insert("b", rule(2));
    stack.push_new();
    stack.insert("a", rule(10));
    assert_eq!(stack.depth(), 2);
    // The innermost scope wins; outer scopes are seen through it.
    assert_eq!(stack.lookup("a"), Some(rule(10)));
    assert_eq!(stack.lookup("b"), Some(rule(2)));
    assert_eq!(stack.lookup("c"), None);
    stack.pop();
    assert_eq!(stack.lookup("a"), Some(rule(1)));
    stack.pop();
    assert_eq!(stack.lookup("a"), None);
}

#[test]
fn equal_strings() {
    assert!(string_equal("", ""));
    assert!(string_equal("é", "é"));
    assert!(!string_equal("e", "é"));
    assert!(!string_equal("ab", "a"));
}

#[test]
fn magic_asks_once_for_each_scan() {
    let literals = BStringPool::new();
    let mut ctx = ScanContext::new(b"%PDF-1.4".to_vec(), Heap::new(), 0);
    let mut magic = Magic::new();
    let first = magic.file_type(&mut ctx);
    assert_eq!(first.is_some(), magic.type_cache.is_some());
    assert!(magic.mime_type_cache.is_none());
    if let Some(s) = first {
        let text = string_bytes(&ctx, &literals, s).unwrap().to_vec();
        assert_eq!(text, magic.type_cache.clone().unwrap().into_bytes());
        assert_eq!(magic.file_type(&mut ctx), Some(s));
    }
    let mime = magic.mime_type(&mut ctx);
    assert_eq!(mime.is_some(), magic.mime_type_cache.is_some());
    magic.main();
    assert!(magic.type_cache.is_none());
    assert!(magic.mime_type_cache.is_none());
}

#[test]
fn a_known_answer_is_given_without_asking() {
    let literals = BStringPool::new();
    let mut ctx = ScanContext::new(vec![], Heap::new(), 0);
    let mut known = Some("ASCII text".to_string());
    let r = answer(&mut ctx, &mut known, Some("something else".to_string())).unwrap();
    assert_eq!(string_bytes(&ctx, &literals, r), Some(&b"ASCII text"[..]));
    assert_eq!(known.as_deref(), Some("ASCII text"));

    let mut unknown = None;
    assert_eq!(answer(&mut ctx, &mut unknown, None), None);
    assert_eq!(unknown, None);
    let r = answer(&mut ctx, &mut unknown, Some("data".to_string())).unwrap();
    assert_eq!(string_bytes(&ctx, &literals, r), Some(&b"data"[..]));
    assert_eq!(unknown.as_deref(), Some("data"));
    assert_eq!(ctx.string_pool.len(), 2);
}

#[test]
fn export_attribute() {
    let named = ModuleExportsArgs { name: Some("type".to_string()) };
    assert_eq!(named.export_name("file_type"), "type");
    let plain = ModuleExportsArgs { name: None };
    assert_eq!(plain.export_name("file_type"), "file_type");
    assert_eq!(thunk_name("add"), "__thunk__add");
    let declared = vec!["ctx".to_string(), "a".to_string(), "b".to_string()];
    assert_eq!(forwarded_args(&declared), vec!["a", "b"]);
    assert!(forwarded_args(&vec!["ctx".to_string()]).is_empty());
    assert!(forwarded_args(&vec![]).is_empty());
}
