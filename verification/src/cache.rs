//! What is known of the symbols of each module, kept for as long as the
//! cache lives.
//!
//! The symbols of a module are loaded once. A module that was never asked
//! for has no cell; the first query for it makes one and is told to load;
//! queries that come while the load is under way are told to wait; and once
//! the load has ended, with symbols or with an error, every query is given
//! what it ended with. A cell never goes back.

use crate::error::SymbolError;
use crate::module::ModuleKey;
use crate::sym_file::SymbolFile;
use vstd::prelude::*;

verus! {

/// A key, as a value.
pub type KeyView = (Seq<char>, Option<Seq<char>>, Option<Seq<char>>, Option<Seq<char>>);

/// What is known of the symbols of one module.
#[derive(Debug)]
pub enum CacheCell {
    /// The symbols are being loaded.
    InProgress,
    /// The load has ended, with the symbols or with an error.
    Resolved(Result<SymbolFile, SymbolError>),
}

/// What a query for the symbols of a module is told to do.
#[derive(Clone, Copy, Debug, PartialEq, Eq, Structural)]
pub enum Lookup {
    /// Load the symbols, and report what the load gave.
    Load,
    /// Wait for the load that is under way.
    Wait,
    /// Take what the load gave.
    Ready,
}

/// The cell of a module after a query, and what the query is told.
pub open spec fn after_query(cell: Option<CacheCell>) -> (CacheCell, Lookup) {
    match cell {
        None => (CacheCell::InProgress, Lookup::Load),
        Some(CacheCell::InProgress) => (CacheCell::InProgress, Lookup::Wait),
        Some(CacheCell::Resolved(r)) => (CacheCell::Resolved(r), Lookup::Ready),
    }
}

/// The cell of a module after a load reported `result`: the first report
/// for a load under way stands, and any other changes nothing.
pub open spec fn after_load(cell: Option<CacheCell>, result: Result<SymbolFile, SymbolError>) -> Option<
    CacheCell,
> {
    match cell {
        Some(CacheCell::InProgress) => Some(CacheCell::Resolved(result)),
        other => other,
    }
}

/// How far a cell has come: not there, loading, resolved.
pub open spec fn stage(cell: Option<CacheCell>) -> nat {
    match cell {
        None => 0,
        Some(CacheCell::InProgress) => 1,
        Some(CacheCell::Resolved(_)) => 2,
    }
}

/// Of two queries for a module that was never asked for, the first is told
/// to load and the second is told to wait: one load is begun, not two.
pub proof fn lemma_one_load_for_two_queries()
    ensures
        after_query(None).1 == Lookup::Load,
        after_query(Some(after_query(None).0)).1 == Lookup::Wait,
{
}

/// Once a load has ended, every query is given what it ended with, be it
/// symbols or an error, and no further report changes it: nothing is loaded
/// again.
pub proof fn lemma_resolved_is_kept(
    cell: Option<CacheCell>,
    result: Result<SymbolFile, SymbolError>,
    later: Result<SymbolFile, SymbolError>,
)
    requires
        cell == Some(CacheCell::InProgress),
    ensures
        after_load(cell, result) == Some(CacheCell::Resolved(result)),
        after_query(after_load(cell, result)) == (CacheCell::Resolved(result), Lookup::Ready),
        after_load(after_load(cell, result), later) == after_load(cell, result),
{
}

/// A cell never goes back: neither a query nor a report takes it to an
/// earlier stage, and a load is begun only for a module without a cell.
pub proof fn lemma_cell_never_goes_back(
    cell: Option<CacheCell>,
    result: Result<SymbolFile, SymbolError>,
)
    ensures
        stage(cell) <= stage(Some(after_query(cell).0)),
        stage(cell) <= stage(after_load(cell, result)),
        after_query(cell).1 == Lookup::Load <==> cell is None,
        after_query(cell).1 == Lookup::Ready <==> stage(cell) == 2,
{
}

/// A module's key with its cell.
struct Entry {
    key: ModuleKey,
    cell: CacheCell,
}

/// The position of the last entry whose key is `key`.
spec fn position(entries: Seq<Entry>, key: KeyView) -> Option<int>
    decreases entries.len(),
{
    if entries.len() == 0 {
        None
    } else if entries.last().key@ == key {
        Some(entries.len() - 1)
    } else {
        position(entries.drop_last(), key)
    }
}

proof fn lemma_position_bounds(entries: Seq<Entry>, key: KeyView)
    ensures
        position(entries, key) matches Some(i) ==> 0 <= i < entries.len() && entries[i].key@
            == key,
    decreases entries.len(),
{
    if entries.len() > 0 && entries.last().key@ != key {
        lemma_position_bounds(entries.drop_last(), key);
    }
}

/// Changing the cell of one entry leaves every key in its position.
proof fn lemma_position_of_keys(a: Seq<Entry>, b: Seq<Entry>, key: KeyView)
    requires
        a.len() == b.len(),
        forall|i: int| 0 <= i < a.len() ==> a[i].key@ == b[i].key@,
    ensures
        position(a, key) == position(b, key),
    decreases a.len(),
{
    if a.len() > 0 {
        lemma_position_of_keys(a.drop_last(), b.drop_last(), key);
    }
}

/// The cells of the modules whose symbols were asked for.
pub struct SymbolCache {
    entries: Vec<Entry>,
}

impl SymbolCache {
    /// The cell of the module with the key `key`, where it has one.
    pub closed spec fn cell(&self, key: KeyView) -> Option<CacheCell> {
        match position(self.entries@, key) {
            Some(i) => Some(self.entries@[i].cell),
            None => None,
        }
    }

    /// A cache without cells.
    pub fn new() -> (cache: SymbolCache)
        ensures
            forall|key: KeyView| cache.cell(key) is None,
    {
        SymbolCache { entries: Vec::new() }
    }

    fn find(&self, key: &ModuleKey) -> (r: Option<usize>)
        ensures
            r matches Some(i) ==> position(self.entries@, key@) == Some(i as int) && i
                < self.entries@.len(),
            r is None ==> position(self.entries@, key@) is None,
    {
        let mut i = self.entries.len();
        assert(self.entries@.take(i as int) =~= self.entries@);
        while i > 0
            invariant
                i <= self.entries.len(),
                position(self.entries@, key@) == position(self.entries@.take(i as int), key@),
            decreases i,
        {
            assert(self.entries@.take(i as int).drop_last() =~= self.entries@.take(i - 1));
            if self.entries[i - 1].key.same(key) {
                return Some(i - 1);
            }
            i = i - 1;
        }
        None
    }

    /// Takes a query for the module with the key `key`, and says what the
    /// query is to do.
    pub fn begin(&mut self, key: ModuleKey) -> (todo: Lookup)
        ensures
            todo == after_query(old(self).cell(key@)).1,
            final(self).cell(key@) == Some(after_query(old(self).cell(key@)).0),
            forall|other: KeyView| other != key@ ==> final(self).cell(other) == old(self).cell(other),
    {
        match self.find(&key) {
            Some(i) => match &self.entries[i].cell {
                CacheCell::InProgress => Lookup::Wait,
                CacheCell::Resolved(_) => Lookup::Ready,
            },
            None => {
                let ghost before = self.entries@;
                self.entries.push(Entry { key, cell: CacheCell::InProgress });
                proof {
                    assert(self.entries@.drop_last() =~= before);
                    assert forall|other: KeyView| other != key@ implies self.cell(other) == old(
                        self,
                    ).cell(other) by {
                        lemma_position_bounds(before, other);
                    }
                }
                Lookup::Load
            },
        }
    }

    /// Takes the report of a load for the module with the key `key`. The
    /// report stands where a load was under way, and changes nothing where
    /// the module has no cell or an earlier report stands already.
    pub fn complete(&mut self, key: &ModuleKey, result: Result<SymbolFile, SymbolError>)
        ensures
            final(self).cell(key@) == after_load(old(self).cell(key@), result),
            forall|other: KeyView| other != key@ ==> final(self).cell(other) == old(self).cell(other),
    {
        if let Some(i) = self.find(key) {
            let under_way = match &self.entries[i].cell {
                CacheCell::InProgress => true,
                CacheCell::Resolved(_) => false,
            };
            if under_way {
                let ghost before = self.entries@;
                self.entries[i].cell = CacheCell::Resolved(result);
                proof {
                    assert forall|k: KeyView| position(self.entries@, k) == position(
                        before,
                        k,
                    ) by {
                        lemma_position_of_keys(self.entries@, before, k);
                    }
                    lemma_position_bounds(before, key@);
                    assert forall|other: KeyView| other != key@ implies self.cell(other) == old(
                        self,
                    ).cell(other) by {
                        lemma_position_bounds(before, other);
                        if position(before, other) is Some {
                            let j = position(before, other)->0;
                        }
                    }
                }
            }
        }
    }

    /// What the load for the module with the key `key` ended with, where it
    /// has ended.
    pub fn get(&self, key: &ModuleKey) -> (r: Option<&Result<SymbolFile, SymbolError>>)
        ensures
            match self.cell(key@) {
                Some(CacheCell::Resolved(result)) => r == Some(&result),
                _ => r is None,
            },
    {
        match self.find(key) {
            Some(i) => match &self.entries[i].cell {
                CacheCell::Resolved(result) => Some(result),
                CacheCell::InProgress => None,
            },
            None => None,
        }
    }
}

} // verus!
