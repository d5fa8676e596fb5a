use vstd::prelude::*;
use vstd::seq_lib::seq_to_set_is_finite;
use vstd::set_lib::lemma_subset_equality;

use crate::error::LoadError;
use crate::thunks::{bytes_equal, same_symbols, symbols_view, ImportedSymbol, SymbolView};

verus! {

/// A library and the symbols imported from it, each once.
#[derive(Clone, Debug)]
pub struct Library {
    pub name: Vec<u8>,
    pub symbols: Vec<ImportedSymbol>,
}

/// A thunk entry that was skipped while resolving a library's imports.
#[derive(Clone, Debug)]
pub struct SkippedEntry {
    pub library: Vec<u8>,
    pub error: LoadError,
}

/// The libraries that an image imports from, each with the set of symbols it
/// imports, and the thunk entries that could not be decoded.
#[derive(Clone, Debug)]
pub struct ImportTable {
    libraries: Vec<Library>,
    skipped: Vec<SkippedEntry>,
}

/// `i` is the index of the library named `k`.
pub open spec fn names_at(libs: Seq<Library>, k: Seq<u8>, i: int) -> bool {
    0 <= i < libs.len() && libs[i].name@ == k
}

pub open spec fn skipped_view(s: Seq<SkippedEntry>) -> Seq<(Seq<u8>, LoadError)> {
    s.map_values(|e: SkippedEntry| (e.library@, e.error))
}

impl ImportTable {
    /// Library names are distinct and no library lists a symbol twice.
    pub closed spec fn wf(&self) -> bool {
        &&& forall|i: int, j: int| 0 <= i < j < self.libraries@.len()
            ==> self.libraries@[i].name@ != self.libraries@[j].name@
        &&& forall|i: int| 0 <= i < self.libraries@.len()
            ==> symbols_view(#[trigger] self.libraries@[i].symbols@).no_duplicates()
    }

    /// The skipped thunk entries, each with the name of its library, in the
    /// order they were met.
    pub closed spec fn skipped_view(&self) -> Seq<(Seq<u8>, LoadError)> {
        skipped_view(self.skipped@)
    }

    /// An empty table.
    pub fn new() -> (r: ImportTable)
        ensures
            r.wf(),
            r@ == Map::<Seq<u8>, Set<SymbolView>>::empty(),
            r.skipped_view() == Seq::<(Seq<u8>, LoadError)>::empty(),
    {
        let r = ImportTable { libraries: Vec::new(), skipped: Vec::new() };
        assert(r@ =~= Map::<Seq<u8>, Set<SymbolView>>::empty());
        assert(r.skipped_view() =~= Seq::<(Seq<u8>, LoadError)>::empty());
        r
    }

    /// Index of the library named `name`, if there is one.
    fn find(&self, name: &Vec<u8>) -> (r: Option<usize>)
        requires
            self.wf(),
        ensures
            r matches Some(i) ==> names_at(self.libraries@, name@, i as int),
            r is None ==> !self@.contains_key(name@),
    {
        let mut i: usize = 0;
        while i < self.libraries.len()
            invariant
                i <= self.libraries.len(),
                forall|k: int| 0 <= k < i ==> self.libraries@[k].name@ != name@,
            decreases self.libraries.len() - i,
        {
            if bytes_equal(&self.libraries[i].name, name) {
                return Some(i);
            }
            i = i + 1;
        }
        None
    }

    /// Sets the symbols of the library named `name`, replacing any it had.
    pub fn insert_library(&mut self, name: Vec<u8>, symbols: Vec<ImportedSymbol>)
        requires
            old(self).wf(),
            symbols_view(symbols@).no_duplicates(),
        ensures
            final(self).wf(),
            final(self)@ == old(self)@.insert(name@, symbols_view(symbols@).to_set()),
            final(self).skipped_view() == old(self).skipped_view(),
    {
        let ghost k = name@;
        let ghost v = symbols_view(symbols@).to_set();
        let ghost before = *self;
        match self.find(&name) {
            Some(j) => {
                self.libraries.set(j, Library { name, symbols });
                let ghost libs = self.libraries@;
                assert forall|x: int| 0 <= x < libs.len() implies #[trigger] libs[x].name@ == before.libraries@[x].name@ by {
                    if x == j {
                        assert(names_at(before.libraries@, k, j as int));
                    }
                }
                assert forall|key: Seq<u8>| #[trigger] self@.contains_key(key) == before@.insert(k, v).contains_key(key) by {
                    if key != k {
                        if exists|i: int| names_at(libs, key, i) {
                            let i = choose|i: int| names_at(libs, key, i);
                            assert(names_at(before.libraries@, key, i));
                        }
                        if exists|i: int| names_at(before.libraries@, key, i) {
                            let i = choose|i: int| names_at(before.libraries@, key, i);
                            assert(names_at(libs, key, i));
                        }
                    } else {
                        assert(names_at(libs, key, j as int));
                    }
                }
                assert forall|key: Seq<u8>| #[trigger] self@.contains_key(key) implies self@[key] == before@.insert(k, v)[key] by {
                    let i = choose|i: int| names_at(libs, key, i);
                    if key == k {
                        assert(i == j);
                    } else {
                        let i0 = choose|i: int| names_at(before.libraries@, key, i);
                        assert(names_at(before.libraries@, key, i));
                        assert(i0 == i);
                    }
                }
                assert(self@ =~= before@.insert(k, v));
            },
            None => {
                self.libraries.push(Library { name, symbols });
                let ghost libs = self.libraries@;
                let ghost n = before.libraries@.len();
                assert(!exists|i: int| names_at(before.libraries@, k, i));
                assert forall|x: int| 0 <= x < n implies #[trigger] libs[x].name@ != k by {
                    assert(!names_at(before.libraries@, k, x));
                }
                assert forall|key: Seq<u8>| #[trigger] self@.contains_key(key) == before@.insert(k, v).contains_key(key) by {
                    if key != k {
                        if exists|i: int| names_at(libs, key, i) {
                            let i = choose|i: int| names_at(libs, key, i);
                            assert(names_at(before.libraries@, key, i));
                        }
                        if exists|i: int| names_at(before.libraries@, key, i) {
                            let i = choose|i: int| names_at(before.libraries@, key, i);
                            assert(names_at(libs, key, i));
                        }
                    } else {
                        assert(names_at(libs, key, n as int));
                    }
                }
                assert forall|key: Seq<u8>| #[trigger] self@.contains_key(key) implies self@[key] == before@.insert(k, v)[key] by {
                    let i = choose|i: int| names_at(libs, key, i);
                    if key == k {
                        if i != n {
                            assert(names_at(before.libraries@, key, i));
                        }
                    } else {
                        let i0 = choose|i: int| names_at(before.libraries@, key, i);
                        assert(names_at(before.libraries@, key, i));
                        assert(i0 == i);
                    }
                }
                assert(self@ =~= before@.insert(k, v));
            },
        }
    }
}

impl ImportTable {
    /// Records the failures met while resolving the library named `library`.
    pub fn record_skipped(&mut self, library: &Vec<u8>, failures: &Vec<LoadError>)
        ensures
            final(self).wf() == old(self).wf(),
            final(self)@ == old(self)@,
            final(self).skipped_view() == old(self).skipped_view() + failures@.map_values(
                |e: LoadError| (library@, e),
            ),
    {
        let ghost before = self.skipped_view();
        let mut i: usize = 0;
        while i < failures.len()
            invariant
                i <= failures.len(),
                self.libraries == old(self).libraries,
                self.skipped_view() == before + failures@.subrange(0, i as int).map_values(
                    |e: LoadError| (library@, e),
                ),
            decreases failures.len() - i,
        {
            let name = library.clone();
            assert(name@ =~= library@);
            let ghost prev = skipped_view(self.skipped@);
            self.skipped.push(SkippedEntry { library: name, error: failures[i] });
            assert(skipped_view(self.skipped@) =~= prev.push((library@, failures@[i as int])));
            assert(failures@.subrange(0, i + 1).map_values(|e: LoadError| (library@, e)) =~= failures@.subrange(
                0,
                i as int,
            ).map_values(|e: LoadError| (library@, e)).push((library@, failures@[i as int])));
            i = i + 1;
            assert(skipped_view(self.skipped@) =~= before + failures@.subrange(0, i as int).map_values(
                |e: LoadError| (library@, e),
            ));
        }
        assert(failures@.subrange(0, i as int) =~= failures@);
    }

    /// The symbols imported from the library named `name`, each once.
    pub fn get(&self, name: &Vec<u8>) -> (r: Option<&Vec<ImportedSymbol>>)
        requires
            self.wf(),
        ensures
            r is Some == self@.contains_key(name@),
            r matches Some(v) ==> symbols_view(v@).to_set() == self@[name@] && symbols_view(v@).no_duplicates(),
    {
        match self.find(name) {
            Some(i) => {
                assert(names_at(self.libraries@, name@, i as int));
                let ghost c = choose|c: int| names_at(self.libraries@, name@, c);
                assert(c == i);
                Some(&self.libraries[i].symbols)
            },
            None => None,
        }
    }

    /// Whether `symbol` is imported from the library named `library`.
    pub fn contains(&self, library: &Vec<u8>, symbol: &ImportedSymbol) -> (r: bool)
        requires
            self.wf(),
        ensures
            r == (self@.contains_key(library@) && self@[library@].contains(symbol@)),
    {
        match self.get(library) {
            Some(v) => crate::thunks::contains_symbol(v, symbol),
            None => false,
        }
    }

    proof fn lemma_len(&self)
        requires
            self.wf(),
        ensures
            self@.len() == self.libraries@.len(),
            self@.dom().finite(),
    {
        let ghost names = self.libraries@.map_values(|l: Library| l.name@);
        assert(names.no_duplicates());
        assert(self@.dom() =~= names.to_set()) by {
            assert forall|k: Seq<u8>| #[trigger] names.to_set().contains(k) implies self@.dom().contains(k) by {
                let i = choose|i: int| 0 <= i < names.len() && names[i] == k;
                assert(names_at(self.libraries@, k, i));
            }
            assert forall|k: Seq<u8>| #[trigger] self@.dom().contains(k) implies names.to_set().contains(k) by {
                let i = choose|i: int| names_at(self.libraries@, k, i);
                assert(names[i] == k);
            }
        }
        names.unique_seq_to_set();
        seq_to_set_is_finite(names);
    }

    proof fn lemma_entry(&self, i: int)
        requires
            self.wf(),
            0 <= i < self.libraries@.len(),
        ensures
            self@.contains_key(self.libraries@[i].name@),
            self@[self.libraries@[i].name@] == symbols_view(self.libraries@[i].symbols@).to_set(),
    {
        let k = self.libraries@[i].name@;
        assert(names_at(self.libraries@, k, i));
        let c = choose|c: int| names_at(self.libraries@, k, c);
        assert(c == i);
    }

    /// Whether `self` and `other` map the same libraries to the same symbols.
    pub fn same_imports(&self, other: &ImportTable) -> (r: bool)
        requires
            self.wf(),
            other.wf(),
        ensures
            r == (self@ == other@),
    {
        proof {
            self.lemma_len();
            other.lemma_len();
        }
        if self.libraries.len() != other.libraries.len() {
            return false;
        }
        let mut i: usize = 0;
        while i < self.libraries.len()
            invariant
                self.wf(),
                other.wf(),
                i <= self.libraries.len(),
                forall|k: int| 0 <= k < i ==> other@.contains_key(#[trigger] self.libraries@[k].name@)
                    && other@[self.libraries@[k].name@] == self@[self.libraries@[k].name@],
            decreases self.libraries.len() - i,
        {
            proof {
                self.lemma_entry(i as int);
            }
            let lib = &self.libraries[i];
            match other.get(&lib.name) {
                None => {
                    return false;
                },
                Some(v) => {
                    if !same_symbols(&lib.symbols, v) {
                        return false;
                    }
                },
            }
            i = i + 1;
        }
        assert(self@.dom().subset_of(other@.dom())) by {
            assert forall|k: Seq<u8>| #[trigger] self@.dom().contains(k) implies other@.dom().contains(k) by {
                let c = choose|c: int| names_at(self.libraries@, k, c);
                assert(other@.contains_key(self.libraries@[c].name@));
            }
        }
        proof {
            lemma_subset_equality(self@.dom(), other@.dom());
        }
        assert forall|k: Seq<u8>| #[trigger] self@.contains_key(k) implies other@[k] == self@[k] by {
            let c = choose|c: int| names_at(self.libraries@, k, c);
            assert(other@.contains_key(self.libraries@[c].name@));
        }
        assert(self@ =~= other@);
        true
    }

    /// The number of libraries.
    pub fn len(&self) -> (r: usize)
        requires
            self.wf(),
        ensures
            r == self@.len(),
    {
        proof {
            self.lemma_len();
        }
        self.libraries.len()
    }

    /// Whether the image imports from no library.
    pub fn is_empty(&self) -> (r: bool)
        requires
            self.wf(),
        ensures
            r == (self@.len() == 0),
    {
        self.len() == 0
    }

    /// The libraries, each listed once, in the order they were first met.
    pub fn libraries(&self) -> (r: &Vec<Library>)
        requires
            self.wf(),
        ensures
            r.len() == self@.len(),
            forall|i: int| 0 <= i < r.len() ==> self@.contains_key(#[trigger] r@[i].name@)
                && self@[r@[i].name@] == symbols_view(r@[i].symbols@).to_set(),
    {
        proof {
            self.lemma_len();
        }
        assert forall|i: int| 0 <= i < self.libraries.len() implies self@.contains_key(#[trigger] self.libraries@[i].name@)
            && self@[self.libraries@[i].name@] == symbols_view(self.libraries@[i].symbols@).to_set() by {
            self.lemma_entry(i);
        }
        &self.libraries
    }

    /// The skipped thunk entries, in the order they were met.
    pub fn skipped(&self) -> (r: &Vec<SkippedEntry>)
        ensures
            skipped_view(r@) == self.skipped_view(),
    {
        &self.skipped
    }
}

impl View for ImportTable {
    type V = Map<Seq<u8>, Set<SymbolView>>;

    /// Each library name mapped to the set of symbols imported from it.
    closed spec fn view(&self) -> Map<Seq<u8>, Set<SymbolView>> {
        Map::new(
            |k: Seq<u8>| exists|i: int| names_at(self.libraries@, k, i),
            |k: Seq<u8>| symbols_view(self.libraries@[choose|i: int| names_at(self.libraries@, k, i)].symbols@).to_set(),
        )
    }
}

} // verus!
