use vstd::prelude::*;
use vstd::seq_lib::seq_to_set_is_finite;
use vstd::set_lib::lemma_subset_equality;

use crate::cursor::{cstring_at, in_bounds, le16, le32, le64, lemma_len_fits, read_cstring, read_u16, u32_at, u64_at};
use crate::error::LoadError;
use crate::imports::{prepend, lemma_prepend_push, spans_of, MAX_NAME_LEN};
use crate::sections::{rva_to_offset, translate, ImageSectionHeader, SectionSpan};

verus! {

/// Top bit of a 32-bit thunk entry: the entry is an ordinal.
pub const ORDINAL_FLAG32: u64 = 0x8000_0000;
/// Top bit of a 64-bit thunk entry: the entry is an ordinal.
pub const ORDINAL_FLAG64: u64 = 0x8000_0000_0000_0000;

/// A symbol that an image imports from a library.
#[derive(Clone, Debug, Hash)]
pub enum ImportedSymbol {
    /// Imported by its name.
    ByName(Vec<u8>),
    /// Imported by its ordinal in the library's export table.
    ByOrdinal(u64),
}

/// The mathematical value of an [`ImportedSymbol`].
pub enum SymbolView {
    /// Imported by this name.
    ByName(Seq<u8>),
    /// Imported by this ordinal.
    ByOrdinal(u64),
}

impl View for ImportedSymbol {
    type V = SymbolView;

    open spec fn view(&self) -> SymbolView {
        match self {
            ImportedSymbol::ByName(n) => SymbolView::ByName(n@),
            ImportedSymbol::ByOrdinal(o) => SymbolView::ByOrdinal(*o),
        }
    }
}

/// Whether two byte strings are equal.
pub fn bytes_equal(a: &Vec<u8>, b: &Vec<u8>) -> (r: bool)
    ensures
        r == (a@ == b@),
{
    if a.len() != b.len() {
        return false;
    }
    let mut i: usize = 0;
    while i < a.len()
        invariant
            i <= a.len() == b.len(),
            forall|k: int| 0 <= k < i ==> a@[k] == b@[k],
        decreases a.len() - i,
    {
        if a[i] != b[i] {
            return false;
        }
        i = i + 1;
    }
    assert(a@ =~= b@);
    true
}

impl ImportedSymbol {
    /// Whether `self` and `other` are the same symbol: same kind, same value.
    pub fn same_as(&self, other: &ImportedSymbol) -> (r: bool)
        ensures
            r == (self@ == other@),
    {
        match (self, other) {
            (ImportedSymbol::ByName(a), ImportedSymbol::ByName(b)) => bytes_equal(a, b),
            (ImportedSymbol::ByOrdinal(a), ImportedSymbol::ByOrdinal(b)) => *a == *b,
            _ => false,
        }
    }
}

impl PartialEq for ImportedSymbol {
    fn eq(&self, other: &ImportedSymbol) -> (r: bool) {
        self.same_as(other)
    }
}

impl vstd::std_specs::cmp::PartialEqSpecImpl for ImportedSymbol {
    open spec fn obeys_eq_spec() -> bool {
        true
    }

    open spec fn eq_spec(&self, other: &ImportedSymbol) -> bool {
        self@ == other@
    }
}

impl Eq for ImportedSymbol {
}

/// The values of a list of symbols.
pub open spec fn symbols_view(v: Seq<ImportedSymbol>) -> Seq<SymbolView> {
    v.map_values(|s: ImportedSymbol| s@)
}

/// Whether `v` holds `s`.
pub fn contains_symbol(v: &Vec<ImportedSymbol>, s: &ImportedSymbol) -> (r: bool)
    ensures
        r == symbols_view(v@).contains(s@),
{
    let mut i: usize = 0;
    while i < v.len()
        invariant
            i <= v.len(),
            forall|k: int| 0 <= k < i ==> v@[k]@ != s@,
        decreases v.len() - i,
    {
        if v[i].same_as(s) {
            assert(symbols_view(v@)[i as int] == s@);
            return true;
        }
        i = i + 1;
    }
    false
}

/// Whether `a` and `b`, neither of which lists a symbol twice, hold the same
/// symbols.
pub fn same_symbols(a: &Vec<ImportedSymbol>, b: &Vec<ImportedSymbol>) -> (r: bool)
    requires
        symbols_view(a@).no_duplicates(),
        symbols_view(b@).no_duplicates(),
    ensures
        r == (symbols_view(a@).to_set() == symbols_view(b@).to_set()),
{
    let ghost sa = symbols_view(a@);
    let ghost sb = symbols_view(b@);
    proof {
        sa.unique_seq_to_set();
        sb.unique_seq_to_set();
        seq_to_set_is_finite(sa);
        seq_to_set_is_finite(sb);
    }
    if a.len() != b.len() {
        return false;
    }
    let mut i: usize = 0;
    while i < a.len()
        invariant
            i <= a.len(),
            sa == symbols_view(a@),
            sb == symbols_view(b@),
            forall|k: int| 0 <= k < i ==> sb.contains(#[trigger] sa[k]),
        decreases a.len() - i,
    {
        if !contains_symbol(b, &a[i]) {
            assert(sa.contains(sa[i as int]));
            assert(!sb.to_set().contains(sa[i as int]));
            return false;
        }
        i = i + 1;
    }
    assert(sa.to_set().subset_of(sb.to_set())) by {
        assert forall|x: SymbolView| #[trigger] sa.to_set().contains(x) implies sb.to_set().contains(x) by {
            let k = choose|k: int| 0 <= k < sa.len() && sa[k] == x;
            assert(sb.contains(sa[k]));
        }
    }
    proof {
        lemma_subset_equality(sa.to_set(), sb.to_set());
    }
    true
}

/// Hint and name of an import-by-name record.
#[derive(Clone, Debug)]
pub struct ImageImportByName {
    pub hint: u16,
    pub name: Vec<u8>,
}

/// The name of the import-by-name record at `off`: a two-byte hint, then the
/// zero-terminated name.
pub open spec fn import_by_name_at(b: Seq<u8>, off: int) -> Result<Seq<u8>, LoadError> {
    if !in_bounds(b, off, 2) {
        Err(LoadError::OutOfBounds)
    } else {
        cstring_at(b, off + 2, MAX_NAME_LEN as int)
    }
}

/// Decodes the import-by-name record at `off`.
pub fn read_image_import_by_name(b: &[u8], off: u64) -> (r: Result<ImageImportByName, LoadError>)
    ensures
        r matches Ok(x) ==> import_by_name_at(b@, off as int) == Ok::<Seq<u8>, LoadError>(x.name@)
            && x.hint == le16(b@, off as int),
        r matches Err(e) ==> import_by_name_at(b@, off as int) == Err::<Seq<u8>, LoadError>(e),
{
    proof {
        lemma_len_fits(b);
    }
    let hint = read_u16(b, off)?;
    let name = read_cstring(b, off + 2, MAX_NAME_LEN)?;
    Ok(ImageImportByName { hint, name })
}

/// The symbol that the non-zero thunk entry `entry` stands for, or why it
/// stands for none.
pub open spec fn thunk_symbol(b: Seq<u8>, secs: Seq<SectionSpan>, entry: int, wide: bool) -> Result<SymbolView, LoadError> {
    let flag = if wide { ORDINAL_FLAG64 } else { ORDINAL_FLAG32 };
    if entry >= flag {
        Ok(SymbolView::ByOrdinal((entry - flag) as u64))
    } else if entry > u32::MAX {
        Err(LoadError::InvalidThunkEntry)
    } else {
        match rva_to_offset(secs, entry) {
            Err(_) => Err(LoadError::InvalidThunkEntry),
            Ok(o) => match import_by_name_at(b, o) {
                Err(_) => Err(LoadError::InvalidThunkEntry),
                Ok(name) => if name.len() == 0 {
                    Err(LoadError::InvalidImportByName)
                } else {
                    Ok(SymbolView::ByName(name))
                },
            },
        }
    }
}

/// The value of a decoded entry, or its failure.
pub open spec fn result_view(r: Result<ImportedSymbol, LoadError>) -> Result<SymbolView, LoadError> {
    match r {
        Ok(s) => Ok(s@),
        Err(e) => Err(e),
    }
}

/// Decodes the non-zero thunk entry `entry`.
pub fn decode_thunk_entry(b: &[u8], sections: &Vec<ImageSectionHeader>, entry: u64, wide: bool)
    -> (r: Result<ImportedSymbol, LoadError>)
    ensures
        result_view(r) == thunk_symbol(b@, spans_of(sections@), entry as int, wide),
{
    let flag = if wide { ORDINAL_FLAG64 } else { ORDINAL_FLAG32 };
    if entry >= flag {
        return Ok(ImportedSymbol::ByOrdinal(entry - flag));
    }
    if entry > u32::MAX as u64 {
        return Err(LoadError::InvalidThunkEntry);
    }
    let off = match translate(sections, entry as u32) {
        Ok(o) => o,
        Err(_) => {
            return Err(LoadError::InvalidThunkEntry);
        },
    };
    match read_image_import_by_name(b, off) {
        Err(_) => Err(LoadError::InvalidThunkEntry),
        Ok(x) => if x.name.len() == 0 {
            Err(LoadError::InvalidImportByName)
        } else {
            Ok(ImportedSymbol::ByName(x.name))
        },
    }
}

/// The value of the thunk entry at `off`.
pub open spec fn thunk_entry_at(b: Seq<u8>, off: int, wide: bool) -> int {
    if wide { le64(b, off) } else { le32(b, off) }
}

/// What each entry of the thunk array at file offset `off` stands for, up to
/// the zero entry that ends it. The array must end inside `b`.
pub open spec fn thunks_from(b: Seq<u8>, secs: Seq<SectionSpan>, off: int, wide: bool)
    -> Result<Seq<Result<SymbolView, LoadError>>, LoadError>
    decreases b.len() - off,
{
    let width = if wide { 8int } else { 4int };
    if !in_bounds(b, off, width) {
        Err(LoadError::OutOfBounds)
    } else {
        let e = thunk_entry_at(b, off, wide);
        if e == 0 {
            Ok(Seq::empty())
        } else {
            prepend(seq![thunk_symbol(b, secs, e, wide)], thunks_from(b, secs, off + width, wide))
        }
    }
}

/// What each entry of the thunk array at `rva` stands for.
pub open spec fn thunk_array_at(b: Seq<u8>, secs: Seq<SectionSpan>, rva: u32, wide: bool)
    -> Result<Seq<Result<SymbolView, LoadError>>, LoadError>
{
    match rva_to_offset(secs, rva as int) {
        Err(e) => Err(e),
        Ok(o) => thunks_from(b, secs, o, wide),
    }
}

/// The symbols among the outcomes.
pub open spec fn symbols_of(outcomes: Seq<Result<SymbolView, LoadError>>) -> Set<SymbolView> {
    Set::new(|s: SymbolView| exists|i: int| 0 <= i < outcomes.len() && outcomes[i] == Ok::<SymbolView, LoadError>(s))
}

/// The failures among the outcomes, in order.
pub open spec fn failures_of(outcomes: Seq<Result<SymbolView, LoadError>>) -> Seq<LoadError>
    decreases outcomes.len(),
{
    if outcomes.len() == 0 {
        Seq::empty()
    } else {
        let prev = failures_of(outcomes.drop_last());
        match outcomes.last() {
            Ok(_) => prev,
            Err(e) => prev.push(e),
        }
    }
}

/// The symbols of one library's thunk array, each once, and the entries that
/// had to be skipped.
#[derive(Clone, Debug)]
pub struct ResolvedThunks {
    pub symbols: Vec<ImportedSymbol>,
    pub failures: Vec<LoadError>,
}

impl ResolvedThunks {
    /// `self` holds what the entries with these outcomes give.
    pub open spec fn matches(&self, outcomes: Seq<Result<SymbolView, LoadError>>) -> bool {
        &&& symbols_view(self.symbols@).no_duplicates()
        &&& symbols_view(self.symbols@).to_set() == symbols_of(outcomes)
        &&& self.failures@ == failures_of(outcomes)
    }
}

/// Resolves the thunk array at `rva`: each entry is an ordinal or refers to a
/// name; an entry that cannot be decoded is skipped and its failure kept.
pub fn resolve_thunks(b: &[u8], sections: &Vec<ImageSectionHeader>, rva: u32, wide: bool)
    -> (r: Result<ResolvedThunks, LoadError>)
    ensures
        r matches Ok(t) ==> thunk_array_at(b@, spans_of(sections@), rva, wide) matches Ok(outcomes) && t.matches(outcomes),
        r matches Err(e) ==> thunk_array_at(b@, spans_of(sections@), rva, wide)
            == Err::<Seq<Result<SymbolView, LoadError>>, LoadError>(e),
{
    let ghost secs = spans_of(sections@);
    let start = translate(sections, rva)?;
    let width: u64 = if wide { 8 } else { 4 };
    let len = b.len() as u64;
    let mut symbols: Vec<ImportedSymbol> = Vec::new();
    let mut failures: Vec<LoadError> = Vec::new();
    let ghost mut outcomes: Seq<Result<SymbolView, LoadError>> = Seq::empty();
    let mut off = start;
    assert(symbols_view(symbols@).to_set() =~= symbols_of(outcomes));
    assert(outcomes + thunks_from(b@, secs, off as int, wide)->Ok_0 =~= thunks_from(b@, secs, off as int, wide)->Ok_0);
    loop
        invariant
            secs == spans_of(sections@),
            width == (if wide { 8u64 } else { 4u64 }),
            len == b@.len(),
            b@.len() <= usize::MAX,
            off <= 0x2_0000_0000 + len,
            thunk_array_at(b@, secs, rva, wide) == prepend(outcomes, thunks_from(b@, secs, off as int, wide)),
            symbols_view(symbols@).no_duplicates(),
            symbols_view(symbols@).to_set() == symbols_of(outcomes),
            failures@ == failures_of(outcomes),
        decreases len + 0x2_0000_0000 - off,
    {
        if off > len || width > len - off {
            return Err(LoadError::OutOfBounds);
        }
        let entry: u64 = if wide { u64_at(b, off as usize) } else { u32_at(b, off as usize) as u64 };
        if entry == 0 {
            assert(outcomes + Seq::<Result<SymbolView, LoadError>>::empty() =~= outcomes);
            return Ok(ResolvedThunks { symbols, failures });
        }
        let outcome = decode_thunk_entry(b, sections, entry, wide);
        proof {
            lemma_prepend_push(outcomes, result_view(outcome), thunks_from(b@, secs, (off + width) as int, wide));
        }
        let ghost prev = outcomes;
        let ghost prev_symbols = symbols_view(symbols@);
        proof {
            outcomes = outcomes.push(result_view(outcome));
            assert(outcomes.drop_last() =~= prev);
        }
        match outcome {
            Ok(s) => {
                assert forall|x: SymbolView| #[trigger] symbols_of(outcomes).contains(x) implies symbols_of(prev).insert(s@).contains(x) by {
                    let i = choose|i: int| 0 <= i < outcomes.len() && outcomes[i] == Ok::<SymbolView, LoadError>(x);
                    if i < prev.len() {
                        assert(prev[i] == outcomes[i]);
                    }
                }
                assert forall|x: SymbolView| #[trigger] symbols_of(prev).insert(s@).contains(x) implies symbols_of(outcomes).contains(x) by {
                    if x == s@ {
                        assert(outcomes[prev.len() as int] == Ok::<SymbolView, LoadError>(x));
                    } else {
                        let i = choose|i: int| 0 <= i < prev.len() && prev[i] == Ok::<SymbolView, LoadError>(x);
                        assert(prev[i] == outcomes[i]);
                    }
                }
                assert(symbols_of(outcomes) =~= symbols_of(prev).insert(s@));
                if !contains_symbol(&symbols, &s) {
                    symbols.push(s);
                    assert(symbols_view(symbols@) =~= prev_symbols.push(s@));
                    assert forall|x: SymbolView| #[trigger] prev_symbols.push(s@).contains(x) implies prev_symbols.to_set().insert(s@).contains(x) by {
                        let i = choose|i: int| 0 <= i < prev_symbols.len() + 1 && prev_symbols.push(s@)[i] == x;
                        if i < prev_symbols.len() {
                            assert(prev_symbols[i] == x);
                        }
                    }
                    assert forall|x: SymbolView| #[trigger] prev_symbols.to_set().insert(s@).contains(x) implies prev_symbols.push(s@).contains(x) by {
                        if x == s@ {
                            assert(prev_symbols.push(s@)[prev_symbols.len() as int] == x);
                        } else {
                            let i = choose|i: int| 0 <= i < prev_symbols.len() && prev_symbols[i] == x;
                            assert(prev_symbols.push(s@)[i] == x);
                        }
                    }
                } else {
                    assert(prev_symbols.to_set().contains(s@));
                }
                assert(symbols_view(symbols@).to_set() =~= symbols_of(outcomes));
            },
            Err(e) => {
                failures.push(e);
                assert forall|x: SymbolView| #[trigger] symbols_of(outcomes).contains(x) implies symbols_of(prev).contains(x) by {
                    let i = choose|i: int| 0 <= i < outcomes.len() && outcomes[i] == Ok::<SymbolView, LoadError>(x);
                    assert(i < prev.len());
                    assert(prev[i] == outcomes[i]);
                }
                assert forall|x: SymbolView| #[trigger] symbols_of(prev).contains(x) implies symbols_of(outcomes).contains(x) by {
                    let i = choose|i: int| 0 <= i < prev.len() && prev[i] == Ok::<SymbolView, LoadError>(x);
                    assert(prev[i] == outcomes[i]);
                }
                assert(symbols_of(outcomes) =~= symbols_of(prev));
            },
        }
        off = off + width;
    }
}

} // verus!
