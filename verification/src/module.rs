//! Module resolver: locates a named loaded module among the process's
//! memory mappings by the final component of its backing path, and resolves
//! a symbol's absolute address from the module's on-disk image bytes.

use vstd::prelude::*;
use vstd::string::StrSliceExecFns;

use crate::store::str_eq;

verus! {

/// One mapping of the process's memory map, as plain values: the backing
/// path (None for anonymous mappings) and the mapped address range.
#[derive(Debug)]
pub struct MapEntry {
    pub path: Option<String>,
    pub start: u64,
    pub end: u64,
}

#[derive(Clone, Copy, Debug, PartialEq, Eq, Structural)]
pub enum ModuleFromMemMapError {
    NotFound,
}

#[derive(Clone, Copy, Debug, PartialEq, Eq, Structural)]
pub enum ModuleFromProcessError {
    MemMap(ModuleFromMemMapError),
    NotFound,
}

#[derive(Debug, PartialEq, Eq)]
pub enum SymbolError {
    ParseFile(String),
    NotFound,
}

/// One loaded shared object: its backing path and where it sits in the
/// process's address space.
#[derive(Debug)]
pub struct Module {
    pub path: String,
    pub start_address: u64,
    pub size: u64,
}

/// The final path component: what follows the last separator, or the whole
/// path when it has none.
pub open spec fn spec_last_component(path: Seq<char>) -> Seq<char> {
    match path.index_of_last('/') {
        Some(i) => path.skip(i + 1),
        None => path,
    }
}

fn last_component<'a>(path: &'a str) -> (r: &'a str)
    ensures
        r@ == spec_last_component(path@),
{
    let n = path.unicode_len();
    let mut j: usize = n;
    while j > 0
        invariant
            0 <= j <= n,
            n == path@.len(),
            forall|k: int| j <= k < n ==> path@[k] != '/',
        decreases j,
    {
        if path.get_char(j - 1) == '/' {
            proof {
                path@.index_of_last_ensures('/');
                assert(path@[j - 1] == '/');
                assert(path@.contains('/'));
                let idx = path@.index_of_last('/').unwrap();
                assert(idx >= j - 1);
                if idx > j - 1 {
                    assert(path@[idx] != '/');
                }
                assert(path@.index_of_last('/') == Some(j - 1 as int));
            }
            let r = path.substring_char(j, n);
            proof {
                assert(r@ =~= path@.skip(j as int));
            }
            return r;
        }
        j -= 1;
    }
    proof {
        path@.index_of_last_ensures('/');
        if path@.contains('/') {
            let idx = path@.index_of_last('/').unwrap();
            assert(path@[idx] != '/');
        }
    }
    path
}

/// True when the mapping is file-backed and its path's final component is
/// `filename`.
pub open spec fn entry_matches(entry: MapEntry, filename: Seq<char>) -> bool {
    match entry.path {
        Some(p) => spec_last_component(p@) == filename,
        None => false,
    }
}

impl Module {
    /// Takes a module from one memory mapping; anonymous mappings carry no
    /// module.
    pub fn from_mem_map(entry: &MapEntry) -> (r: Result<Module, ModuleFromMemMapError>)
        requires
            entry.start <= entry.end,
        ensures
            entry.path is None ==> r == Err::<Module, ModuleFromMemMapError>(
                ModuleFromMemMapError::NotFound,
            ),
            r matches Ok(m) ==> {
                &&& entry.path matches Some(p) && m.path@ == p@
                &&& m.start_address == entry.start
                &&& m.size == entry.end - entry.start
            },
            r is Ok <==> entry.path is Some,
    {
        match &entry.path {
            Some(p) => Ok(
                Module {
                    path: p.clone(),
                    start_address: entry.start,
                    size: entry.end - entry.start,
                },
            ),
            None => Err(ModuleFromMemMapError::NotFound),
        }
    }

    /// Finds the first mapping whose backing path ends in `filename` and
    /// takes the module from it.
    pub fn from_process(maps: &Vec<MapEntry>, filename: &str) -> (r: Result<
        Module,
        ModuleFromProcessError,
    >)
        requires
            forall|i: int| 0 <= i < maps@.len() ==> (#[trigger] maps@[i]).start <= maps@[i].end,
        ensures
            r matches Ok(m) ==> exists|i: int|
                {
                    &&& 0 <= i < maps@.len()
                    &&& #[trigger] entry_matches(maps@[i], filename@)
                    &&& forall|j: int| 0 <= j < i ==> !entry_matches(#[trigger] maps@[j], filename@)
                    &&& maps@[i].path matches Some(p) && m.path@ == p@
                    &&& m.start_address == maps@[i].start
                    &&& m.size == maps@[i].end - maps@[i].start
                },
            r is Err <==> (forall|i: int|
                0 <= i < maps@.len() ==> !entry_matches(#[trigger] maps@[i], filename@)),
            r is Err ==> r == Err::<Module, ModuleFromProcessError>(ModuleFromProcessError::NotFound),
    {
        let n = maps.len();
        let mut i: usize = 0;
        while i < n
            invariant
                0 <= i <= n,
                n == maps@.len(),
                forall|i2: int| 0 <= i2 < maps@.len() ==> (#[trigger] maps@[i2]).start <= maps@[i2].end,
                forall|j: int| 0 <= j < i ==> !entry_matches(#[trigger] maps@[j], filename@),
            decreases n - i,
        {
            let hit = match &maps[i].path {
                Some(p) => str_eq(last_component(p.as_str()), filename),
                None => false,
            };
            if hit {
                proof {
                    assert(entry_matches(maps@[i as int], filename@));
                }
                match Module::from_mem_map(&maps[i]) {
                    Ok(m) => {
                        proof {
                            let w = i as int;
                            assert(0 <= w < maps@.len() && entry_matches(maps@[w], filename@)
                                && (forall|j: int|
                                0 <= j < w ==> !entry_matches(#[trigger] maps@[j], filename@))
                                && (maps@[w].path matches Some(p) && m.path@ == p@)
                                && m.start_address == maps@[w].start && m.size == maps@[w].end
                                - maps@[w].start);
                        }
                        return Ok(m);
                    },
                    Err(e) => {
                        return Err(ModuleFromProcessError::MemMap(e));
                    },
                }
            }
            i += 1;
        }
        Err(ModuleFromProcessError::NotFound)
    }
}

/// The named symbols of a relocatable or shared-object image, in symbol
/// table order, each with its value; `None` where the bytes do not parse
/// as such an image. A function of the image bytes alone.
pub uninterp spec fn elf_symbols_of(image: Seq<u8>) -> Option<Seq<(Seq<char>, u64)>>;

/// Relies on goblin::elf::Elf::parse and the parsed image's symbol and
/// string tables (syms, strtab): the symbols that carry a name, in table
/// order, each with its st_value — a function of the image bytes alone.
/// A parse failure, equally a function of the bytes, is reported as the
/// goblin error's message.
#[verifier::external_body]
fn parse_elf_symbols(image: &[u8]) -> (r: Result<Vec<(String, u64)>, String>)
    ensures
        r is Ok <==> elf_symbols_of(image@) is Some,
        r matches Ok(syms) ==> Some(syms@.map_values(|p: (String, u64)| (p.0@, p.1)))
            == elf_symbols_of(image@),
{
    let elf = match goblin::elf::Elf::parse(image) {
        Ok(elf) => elf,
        Err(e) => {
            return Err(format!("{}", e));
        },
    };
    let mut out: Vec<(String, u64)> = Vec::new();
    for sym in elf.syms.iter() {
        if let Some(name) = elf.strtab.get_at(sym.st_name) {
            out.push((name.to_string(), sym.st_value));
        }
    }
    Ok(out)
}

/// The value of the first symbol named `name`, if the table holds one.
pub open spec fn spec_symbol_lookup(syms: Seq<(Seq<char>, u64)>, name: Seq<char>) -> Option<u64>
    decreases syms.len(),
{
    if syms.len() == 0 {
        None
    } else if syms.first().0 == name {
        Some(syms.first().1)
    } else {
        spec_symbol_lookup(syms.drop_first(), name)
    }
}

impl Module {
    /// Resolves a symbol's absolute address: the value of the first symbol
    /// of the module's image named `name`, added to the module's start
    /// address.
    pub fn symbol(&self, image: &[u8], name: &str) -> (r: Result<u64, SymbolError>)
        ensures
            (r matches Err(e) && e matches SymbolError::ParseFile(_)) <==> elf_symbols_of(image@)
                is None,
            elf_symbols_of(image@) matches Some(syms) ==> {
                let found = spec_symbol_lookup(syms, name@);
                &&& r is Ok <==> found is Some
                &&& r matches Ok(addr) ==> found matches Some(v) && addr
                    == vstd::wrapping::u64_specs::wrapping_add(self.start_address, v)
                &&& found is None ==> r == Err::<u64, SymbolError>(SymbolError::NotFound)
            },
    {
        let syms = match parse_elf_symbols(image) {
            Ok(syms) => syms,
            Err(message) => {
                return Err(SymbolError::ParseFile(message));
            },
        };
        let ghost sview = elf_symbols_of(image@).unwrap();
        proof {
            assert(sview.skip(0) =~= sview);
        }
        let n = syms.len();
        let mut i: usize = 0;
        while i < n
            invariant
                0 <= i <= n,
                n == syms@.len(),
                n == sview.len(),
                Some(sview) == elf_symbols_of(image@),
                sview == syms@.map_values(|p: (String, u64)| (p.0@, p.1)),
                spec_symbol_lookup(sview, name@) == spec_symbol_lookup(
                    sview.skip(i as int),
                    name@,
                ),
            decreases n - i,
        {
            let hit = str_eq(syms[i].0.as_str(), name);
            proof {
                assert(sview[i as int] == (syms@[i as int].0@, syms@[i as int].1));
                assert(sview.skip(i as int).first() == sview[i as int]);
            }
            if hit {
                let addr = self.start_address.wrapping_add(syms[i].1);
                proof {
                    assert(spec_symbol_lookup(sview.skip(i as int), name@) == Some(
                        sview[i as int].1,
                    ));
                    assert(elf_symbols_of(image@) == Some(sview));
                    assert(addr == vstd::wrapping::u64_specs::wrapping_add(
                        self.start_address,
                        sview[i as int].1,
                    ));
                }
                return Ok(addr);
            }
            proof {
                assert(sview.skip(i as int).drop_first() =~= sview.skip(i + 1));
            }
            i += 1;
        }
        proof {
            assert(sview.skip(n as int).len() == 0);
        }
        Err(SymbolError::NotFound)
    }
}

} // verus!
