use packuwus::module::{
    MapEntry, Module, ModuleFromMemMapError, ModuleFromProcessError, SymbolError,
};

#[test]
fn from_mem_map_takes_file_backed_mapping() {
    let entry = MapEntry {
        path: Some(String::from("/usr/lib/server_srv.so")),
        start: 0x7f0000000000,
        end: 0x7f0000100000,
    };
    let module = Module::from_mem_map(&entry).unwrap();
    assert_eq!(module.path, "/usr/lib/server_srv.so");
    assert_eq!(module.start_address, 0x7f0000000000);
    assert_eq!(module.size, 0x100000);
}

#[test]
fn from_mem_map_rejects_anonymous_mapping() {
    let entry = MapEntry { path: None, start: 0, end: 4096 };
    let err = Module::from_mem_map(&entry).unwrap_err();
    assert_eq!(err, ModuleFromMemMapError::NotFound);
}

#[test]
fn from_process_matches_final_path_component() {
    let maps = vec![
        MapEntry { path: None, start: 0, end: 10 },
        MapEntry { path: Some(String::from("/lib/other.so")), start: 100, end: 200 },
        MapEntry { path: Some(String::from("/srv/game/bin/engine_srv.so")), start: 300, end: 500 },
        MapEntry { path: Some(String::from("/elsewhere/engine_srv.so")), start: 900, end: 950 },
    ];
    let module = Module::from_process(&maps, "engine_srv.so").unwrap();
    // The first matching mapping wins.
    assert_eq!(module.path, "/srv/game/bin/engine_srv.so");
    assert_eq!(module.start_address, 300);
    assert_eq!(module.size, 200);
}

#[test]
fn from_process_reports_missing_module() {
    let maps = vec![MapEntry {
        path: Some(String::from("/lib/other.so")),
        start: 100,
        end: 200,
    }];
    let err = Module::from_process(&maps, "server_srv.so").unwrap_err();
    assert_eq!(err, ModuleFromProcessError::NotFound);
}

#[test]
fn from_process_requires_exact_component_match() {
    // A suffix of the file name is not a match.
    let maps = vec![MapEntry {
        path: Some(String::from("/lib/notserver_srv.so")),
        start: 0,
        end: 1,
    }];
    assert!(Module::from_process(&maps, "server_srv.so").is_err());
}

fn push_u16(v: &mut Vec<u8>, x: u16) {
    v.extend_from_slice(&x.to_le_bytes());
}

fn push_u32(v: &mut Vec<u8>, x: u32) {
    v.extend_from_slice(&x.to_le_bytes());
}

fn push_u64(v: &mut Vec<u8>, x: u64) {
    v.extend_from_slice(&x.to_le_bytes());
}

// A minimal 64-bit little-endian shared-object image with one symbol table
// holding the single symbol `foo` at value 0x42.
fn tiny_elf_with_foo() -> Vec<u8> {
    let mut elf: Vec<u8> = Vec::new();
    // ELF header.
    elf.extend_from_slice(&[0x7f, b'E', b'L', b'F', 2, 1, 1, 0]);
    elf.extend_from_slice(&[0u8; 8]);
    push_u16(&mut elf, 3); // shared object
    push_u16(&mut elf, 62); // x86-64
    push_u32(&mut elf, 1);
    push_u64(&mut elf, 0); // entry
    push_u64(&mut elf, 0); // program headers: none
    push_u64(&mut elf, 64); // section headers start after this header
    push_u32(&mut elf, 0);
    push_u16(&mut elf, 64); // header size
    push_u16(&mut elf, 56);
    push_u16(&mut elf, 0);
    push_u16(&mut elf, 64); // section header entry size
    push_u16(&mut elf, 3); // three sections
    push_u16(&mut elf, 0);
    assert_eq!(elf.len(), 64);
    // Section 0: null.
    elf.extend_from_slice(&[0u8; 64]);
    // Section 1: symbol table at offset 256, two 24-byte entries, names in
    // section 2.
    push_u32(&mut elf, 0);
    push_u32(&mut elf, 2); // SHT_SYMTAB
    push_u64(&mut elf, 0);
    push_u64(&mut elf, 0);
    push_u64(&mut elf, 256);
    push_u64(&mut elf, 48);
    push_u32(&mut elf, 2); // string table section
    push_u32(&mut elf, 1);
    push_u64(&mut elf, 8);
    push_u64(&mut elf, 24);
    // Section 2: string table at offset 304.
    push_u32(&mut elf, 0);
    push_u32(&mut elf, 3); // SHT_STRTAB
    push_u64(&mut elf, 0);
    push_u64(&mut elf, 0);
    push_u64(&mut elf, 304);
    push_u64(&mut elf, 5);
    push_u32(&mut elf, 0);
    push_u32(&mut elf, 0);
    push_u64(&mut elf, 1);
    push_u64(&mut elf, 0);
    assert_eq!(elf.len(), 256);
    // Symbol 0: the null symbol.
    elf.extend_from_slice(&[0u8; 24]);
    // Symbol 1: name at string-table offset 1, value 0x42.
    push_u32(&mut elf, 1);
    elf.push(0x12); // global function
    elf.push(0);
    push_u16(&mut elf, 1);
    push_u64(&mut elf, 0x42);
    push_u64(&mut elf, 0);
    assert_eq!(elf.len(), 304);
    elf.extend_from_slice(b"\0foo\0");
    elf
}

#[test]
fn symbol_resolves_value_plus_start_address() {
    let image = tiny_elf_with_foo();
    let module = Module { path: String::from("x.so"), start_address: 0x1000, size: 0x2000 };
    let addr = module.symbol(&image, "foo").unwrap();
    assert_eq!(addr, 0x1042);
}

#[test]
fn symbol_reports_missing_name() {
    let image = tiny_elf_with_foo();
    let module = Module { path: String::from("x.so"), start_address: 0, size: 0 };
    let err = module.symbol(&image, "bar").unwrap_err();
    assert_eq!(err, SymbolError::NotFound);
}

#[test]
fn symbol_reports_parse_failure() {
    let module = Module { path: String::from("x.so"), start_address: 0, size: 0 };
    let err = module.symbol(&[1, 2, 3, 4], "foo").unwrap_err();
    assert!(matches!(err, SymbolError::ParseFile(_)));
}
