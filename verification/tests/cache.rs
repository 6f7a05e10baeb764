use module_cache::{CachedModule, Checksum, InMemoryCache, Size};
use sha2::{Digest, Sha256};
use std::mem;
use wasmer::sys::Singlepass;
use wasmer::{Imports, Instance as WasmerInstance, Module, Store, Value};

// Based on `examples/module_size.sh`
const TESTING_WASM_SIZE_FACTOR: usize = 18;

const ADD_ONE: &str = r#"(module
    (type $t0 (func (param i32) (result i32)))
    (func $add_one (export "add_one") (type $t0) (param $p0 i32) (result i32)
        local.get $p0
        i32.const 1
        i32.add)
    )"#;

const ADD_TWO: &str = r#"(module
    (type $t0 (func (param i32) (result i32)))
    (func $add_one (export "add_two") (type $t0) (param $p0 i32) (result i32)
        local.get $p0
        i32.const 2
        i32.add)
    )"#;

const ADD_THREE: &str = r#"(module
    (type $t0 (func (param i32) (result i32)))
    (func $add_one (export "add_three") (type $t0) (param $p0 i32) (result i32)
        local.get $p0
        i32.const 3
        i32.add)
    )"#;

fn generate(wasm: &[u8]) -> Checksum {
    Checksum::new(Sha256::digest(wasm).into())
}

fn make_compiling_store() -> Store {
    Store::new(Singlepass::default())
}

fn compile(wasm: &[u8]) -> Module {
    Module::new(&make_compiling_store(), wasm).unwrap()
}

fn call_add_one(store: &mut Store, module: &Module) -> i32 {
    let instance = WasmerInstance::new(store, module, &Imports::new()).unwrap();
    let add_one = instance.exports.get_function("add_one").unwrap();
    let result = add_one.call(store, &[Value::I32(42)]).unwrap();
    result[0].unwrap_i32()
}

#[test]
fn check_element_sizes() {
    let key_size = mem::size_of::<Checksum>();
    assert_eq!(key_size, 32);

    let value_size = mem::size_of::<Module>();
    assert_eq!(value_size, 8);

    // Just in case we want to go that route
    let boxed_value_size = mem::size_of::<Box<Module>>();
    assert_eq!(boxed_value_size, 8);
}

#[test]
fn in_memory_cache_run() {
    let mut cache = InMemoryCache::new(Size::mebi(200));

    // Create module
    let wasm = wat::parse_str(ADD_ONE).unwrap();
    let checksum = generate(&wasm);

    // Module does not exist
    let cache_entry = cache.load(&checksum).unwrap();
    assert!(cache_entry.is_none());

    // Compile module
    let mut store = make_compiling_store();
    let original = Module::new(&store, &wasm).unwrap();

    // Ensure original module can be executed
    assert_eq!(call_add_one(&mut store, &original), 43);

    // Store module
    let size = wasm.len() * TESTING_WASM_SIZE_FACTOR;
    cache.store(&checksum, original, size).unwrap();

    // Load module
    let cached = cache.load(&checksum).unwrap().unwrap();

    // Ensure cached module can be executed
    assert_eq!(call_add_one(&mut store, &cached.module), 43);
}

#[test]
fn len_works() {
    let mut cache = InMemoryCache::new(Size::mebi(2));

    // Create module
    let wasm1 = wat::parse_str(ADD_ONE).unwrap();
    let checksum1 = generate(&wasm1);
    let wasm2 = wat::parse_str(ADD_TWO).unwrap();
    let checksum2 = generate(&wasm2);
    let wasm3 = wat::parse_str(ADD_THREE).unwrap();
    let checksum3 = generate(&wasm3);

    assert_eq!(cache.len(), 0);

    // Add 1
    let module = compile(&wasm1);
    cache.store(&checksum1, module, 900_000).unwrap();
    assert_eq!(cache.len(), 1);

    // Add 2
    let module = compile(&wasm2);
    cache.store(&checksum2, module, 900_000).unwrap();
    assert_eq!(cache.len(), 2);

    // Add 3 (pushes out the previous two)
    let module = compile(&wasm3);
    cache.store(&checksum3, module, 1_500_000).unwrap();
    assert_eq!(cache.len(), 1);
}

#[test]
fn size_works() {
    let mut cache = InMemoryCache::new(Size::mebi(2));

    // Create module
    let wasm1 = wat::parse_str(ADD_ONE).unwrap();
    let checksum1 = generate(&wasm1);
    let wasm2 = wat::parse_str(ADD_TWO).unwrap();
    let checksum2 = generate(&wasm2);
    let wasm3 = wat::parse_str(ADD_THREE).unwrap();
    let checksum3 = generate(&wasm3);

    assert_eq!(cache.size(), 0);

    // Add 1
    let module = compile(&wasm1);
    cache.store(&checksum1, module, 900_000).unwrap();
    assert_eq!(cache.size(), 900_000);

    // Add 2
    let module = compile(&wasm2);
    cache.store(&checksum2, module, 800_000).unwrap();
    assert_eq!(cache.size(), 1_700_000);

    // Add 3 (pushes out the previous two)
    let module = compile(&wasm3);
    cache.store(&checksum3, module, 1_500_000).unwrap();
    assert_eq!(cache.size(), 1_500_000);
}

#[test]
fn third_entry_leaves_only_itself() {
    let mut cache = InMemoryCache::new(Size::new(2_000_000));
    let wasm1 = wat::parse_str(ADD_ONE).unwrap();
    let wasm2 = wat::parse_str(ADD_TWO).unwrap();
    let wasm3 = wat::parse_str(ADD_THREE).unwrap();
    let (checksum1, checksum2, checksum3) = (generate(&wasm1), generate(&wasm2), generate(&wasm3));

    cache.store(&checksum1, compile(&wasm1), 900_000).unwrap();
    assert_eq!((cache.len(), cache.size()), (1, 900_000));
    cache.store(&checksum2, compile(&wasm2), 800_000).unwrap();
    assert_eq!((cache.len(), cache.size()), (2, 1_700_000));
    cache.store(&checksum3, compile(&wasm3), 1_500_000).unwrap();
    assert_eq!((cache.len(), cache.size()), (1, 1_500_000));

    assert!(cache.load(&checksum1).unwrap().is_none());
    assert!(cache.load(&checksum2).unwrap().is_none());
    let kept: CachedModule = cache.load(&checksum3).unwrap().unwrap();
    assert_eq!(kept.size, 1_500_000);
}

#[test]
fn loaded_module_is_the_stored_one() {
    let mut cache = InMemoryCache::new(Size::kibi(10));
    let wasm = wat::parse_str(ADD_ONE).unwrap();
    let checksum = generate(&wasm);
    let original = compile(&wasm);
    let other = compile(&wasm);

    cache.store(&checksum, original.clone(), 1234).unwrap();
    let cached = cache.load(&checksum).unwrap().unwrap();

    assert!(cached.module == original);
    assert!(cached.module != other);
    assert_eq!(cached.size, 1234);
    assert_eq!(cache.len(), 1);
    assert_eq!(cache.size(), 1234);
}
