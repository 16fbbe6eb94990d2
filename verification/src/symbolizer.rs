//! The symbols of modules, loaded from a supplier when first asked for and
//! kept from then on.

use crate::cache::{CacheCell, KeyView, Lookup, SymbolCache};
use crate::error::{FileError, FillSymbolError, SymbolError};
use crate::frame::{FrameState, FrameSymbolizer, SimpleFrame};
use crate::ident::DebugId;
use crate::lookup::FileKind;
use crate::module::{module_key, module_key_of, SimpleModule};
use crate::provider::{SymbolProvider, SymbolStats};
use crate::supplier::SymbolSupplier;
use crate::sym_file::{filled_by, state_filled_by, symbol_for_frame, SymbolFile, SymbolMatch};
use crate::text::{leaf_of, leafname, str_eq};
use crate::walker::{
    state_walked_by, unwound_by_file, value_at, walked_by, walker_state, CallerFrame, FrameWalker,
    WalkerState,
};
use std::path::PathBuf;
use vstd::hash_map::StringHashMap;
use vstd::prelude::*;

verus! {

/// The symbol for a frame, given what the load of its module's symbols
/// ended with: without loaded symbols there is none.
pub open spec fn cached_symbol(
    cached: Option<Result<SymbolFile, SymbolError>>,
    base: u64,
    instruction: u64,
) -> Option<SymbolMatch> {
    match cached {
        Some(Ok(file)) => symbol_for_frame(file@, base, instruction),
        _ => None,
    }
}

/// The caller of a frame, given what the load of its module's symbols
/// ended with and what can be seen of the walker: without loaded symbols
/// there is none.
pub open spec fn unwound_by_cell(
    cached: Option<Result<SymbolFile, SymbolError>>,
    base: u64,
    walker: WalkerState,
) -> Option<CallerFrame> {
    match cached {
        Some(Ok(file)) => unwound_by_file(
            file@,
            base,
            walker.callee,
            walker.settable,
            walker.caller,
        ),
        _ => None,
    }
}

/// The caller of a frame, given what the load of its module's symbols
/// ended with: without loaded symbols there is none.
pub open spec fn cached_caller<W: FrameWalker>(
    cached: Option<Result<SymbolFile, SymbolError>>,
    base: u64,
    walker: W,
) -> Option<CallerFrame> {
    unwound_by_cell(cached, base, walker_state(walker))
}

/// What the load for a cell ended with, where it has ended.
pub open spec fn resolved(cell: Option<CacheCell>) -> Option<Result<SymbolFile, SymbolError>> {
    match cell {
        Some(CacheCell::Resolved(result)) => Some(result),
        _ => None,
    }
}

/// The view of what a cache gave.
pub open spec fn cached_view(cached: Option<&Result<SymbolFile, SymbolError>>) -> Option<
    Result<SymbolFile, SymbolError>,
> {
    match cached {
        Some(result) => Some(*result),
        None => None,
    }
}

/// Writes to `frame` the symbol for its instruction, given what the load of
/// the symbols of `module` ended with. Fails, and leaves the frame as it is,
/// where no symbols are loaded or they have none for the instruction.
pub fn fill_symbol_from<F: FrameSymbolizer>(
    cached: Option<&Result<SymbolFile, SymbolError>>,
    module: &SimpleModule,
    frame: &mut F,
) -> (r: Result<(), FillSymbolError>)
    ensures
        filled_by(
            cached_symbol(
                cached_view(cached),
                module.base_address.unwrap_or(0),
                old(frame).instruction(),
            ),
            module.base_address.unwrap_or(0),
            *old(frame),
            *final(frame),
            r,
        ),
{
    match cached {
        Some(Ok(file)) => file.fill_symbol(module, frame),
        _ => Err(FillSymbolError {  }),
    }
}

/// Recovers the caller of the frame that `walker` gives access to, given
/// what the load of the symbols of `module` ended with. Recovers none, and
/// writes nothing, where no symbols are loaded.
pub fn walk_frame_from<W: FrameWalker>(
    cached: Option<&Result<SymbolFile, SymbolError>>,
    module: &SimpleModule,
    walker: &mut W,
) -> (r: Option<()>)
    ensures
        walked_by(
            cached_caller(cached_view(cached), module.base_address.unwrap_or(0), *old(walker)),
            *old(walker),
            *final(walker),
            r,
        ),
{
    match cached {
        Some(Ok(file)) => file.walk_frame(module, walker),
        _ => None,
    }
}

/// No frames yet, and no symbols.
pub open spec fn no_stats() -> SymbolStats {
    SymbolStats { loaded_symbols: false, corrupt_symbols: false, found: 0, missing: 0 }
}

/// A count with one more, unless it is full.
pub open spec fn one_more(count: u64) -> u64 {
    if count < u64::MAX {
        (count + 1) as u64
    } else {
        count
    }
}

/// What is told of a module after one more frame in it was asked for, given
/// what was told before, what the load of its symbols ended with, and
/// whether a symbol was found for the frame.
pub open spec fn tallied(
    previous: Option<SymbolStats>,
    cached: Option<Result<SymbolFile, SymbolError>>,
    found: bool,
) -> SymbolStats {
    let before = match previous {
        Some(stats) => stats,
        None => no_stats(),
    };
    SymbolStats {
        loaded_symbols: cached matches Some(Ok(_)),
        corrupt_symbols: cached matches Some(Err(SymbolError::ParseError(_, _))),
        found: if found {
            one_more(before.found)
        } else {
            before.found
        },
        missing: if found {
            before.missing
        } else {
            one_more(before.missing)
        },
    }
}

/// What is told of a module after one more frame in it was asked for.
pub fn tally(
    previous: Option<SymbolStats>,
    cached: Option<&Result<SymbolFile, SymbolError>>,
    found: bool,
) -> (r: SymbolStats)
    ensures
        r == tallied(previous, cached_view(cached), found),
{
    let before = match previous {
        Some(stats) => stats,
        None => SymbolStats { loaded_symbols: false, corrupt_symbols: false, found: 0, missing: 0 },
    };
    let loaded_symbols = match cached {
        Some(Ok(_)) => true,
        _ => false,
    };
    let corrupt_symbols = match cached {
        Some(Err(SymbolError::ParseError(_, _))) => true,
        _ => false,
    };
    let found_count = if found && before.found < u64::MAX {
        before.found + 1
    } else {
        before.found
    };
    let missing_count = if !found && before.missing < u64::MAX {
        before.missing + 1
    } else {
        before.missing
    };
    SymbolStats { loaded_symbols, corrupt_symbols, found: found_count, missing: missing_count }
}

/// What is told of one module, under the name of its binary.
struct ModuleStats {
    name: String,
    stats: SymbolStats,
}

/// What the last entry under `name` tells.
spec fn told(entries: Seq<ModuleStats>, name: Seq<char>) -> Option<SymbolStats>
    decreases entries.len(),
{
    if entries.len() == 0 {
        None
    } else if entries.last().name@ == name {
        Some(entries.last().stats)
    } else {
        told(entries.drop_last(), name)
    }
}

/// The position of the last entry under `name`.
spec fn told_at(entries: Seq<ModuleStats>, name: Seq<char>) -> Option<int>
    decreases entries.len(),
{
    if entries.len() == 0 {
        None
    } else if entries.last().name@ == name {
        Some(entries.len() - 1)
    } else {
        told_at(entries.drop_last(), name)
    }
}

proof fn lemma_told_at(entries: Seq<ModuleStats>, name: Seq<char>)
    ensures
        match told_at(entries, name) {
            Some(i) => 0 <= i < entries.len() && entries[i].name@ == name && told(entries, name)
                == Some(entries[i].stats),
            None => told(entries, name) is None,
        },
    decreases entries.len(),
{
    if entries.len() > 0 && entries.last().name@ != name {
        lemma_told_at(entries.drop_last(), name);
    }
}

proof fn lemma_told_at_of_names(a: Seq<ModuleStats>, b: Seq<ModuleStats>, name: Seq<char>)
    requires
        a.len() == b.len(),
        forall|i: int| 0 <= i < a.len() ==> a[i].name@ == b[i].name@,
    ensures
        told_at(a, name) == told_at(b, name),
    decreases a.len(),
{
    if a.len() > 0 {
        lemma_told_at_of_names(a.drop_last(), b.drop_last(), name);
    }
}

/// The symbols of modules, loaded from a supplier when first asked for and
/// kept from then on: what a load ended with, symbols or an error, is what
/// every later query for the module is answered from, and the supplier is
/// not asked for that module again.
pub struct Symbolizer<S: SymbolSupplier> {
    supplier: S,
    cache: SymbolCache,
    stats: Vec<ModuleStats>,
}

impl<S: SymbolSupplier> Symbolizer<S> {
    /// The cell of the module with the key `key`, where it has one.
    pub closed spec fn cell(&self, key: KeyView) -> Option<CacheCell> {
        self.cache.cell(key)
    }

    /// What is told of the module whose binary has the name `name`.
    pub closed spec fn stats_of(&self, name: Seq<char>) -> Option<SymbolStats> {
        told(self.stats@, name)
    }

    /// The supplier that the symbols are loaded from.
    pub closed spec fn supplier(&self) -> S {
        self.supplier
    }

    /// Whether the cell of `module` is what a query for the module makes of
    /// the cell `before`: a cell that was there is kept as it was, and for a
    /// module without one the supplier was asked and what it gave stands.
    pub open spec fn loaded(&self, module: SimpleModule, before: Option<CacheCell>) -> bool {
        match before {
            Some(cell) => self.cell(module_key_of(module)) == Some(cell),
            None => exists|result: Result<SymbolFile, SymbolError>|
                #[trigger] self.supplier().may_give(module, result) && self.cell(
                    module_key_of(module),
                ) == Some(CacheCell::Resolved(result)),
        }
    }

    /// Whether a query for `module` may take the symbolizer to `then`, as
    /// far as the cells go: the cell of the module is as `loaded` says, and
    /// every other cell as it was.
    pub open spec fn served(&self, then: Self, module: SimpleModule) -> bool {
        &&& then.supplier() == self.supplier()
        &&& then.loaded(module, self.cell(module_key_of(module)))
        &&& forall|other: KeyView|
            other != module_key_of(module) ==> then.cell(other) == self.cell(other)
    }

    /// Whether a frame of `module` was counted on the way from the
    /// symbolizer to `then`, by the name of the module's binary, as one for
    /// which a symbol was found or as one for which none was.
    pub open spec fn counted(&self, then: Self, module: SimpleModule, found: bool) -> bool {
        &&& then.stats_of(leaf_of(module.code_file_text())) == Some(
            tallied(
                self.stats_of(leaf_of(module.code_file_text())),
                resolved(then.cell(module_key_of(module))),
                found,
            ),
        )
        &&& forall|other: Seq<char>|
            other != leaf_of(module.code_file_text()) ==> then.stats_of(other) == self.stats_of(
                other,
            )
    }

    /// Whether a query for the symbol of the frame `before` in `module`
    /// may take the symbolizer to `then`, write the frame to be `after`, and
    /// give `r`: the frame is told of the symbol that the symbols in the cell
    /// of the module have for its instruction, the query fails where there
    /// are none, and the frame is counted.
    pub open spec fn filled<F: FrameSymbolizer>(
        &self,
        then: Self,
        module: SimpleModule,
        before: F,
        after: F,
        r: Result<(), FillSymbolError>,
    ) -> bool {
        &&& self.served(then, module)
        &&& filled_by(
            cached_symbol(
                resolved(then.cell(module_key_of(module))),
                module.base_address.unwrap_or(0),
                before.instruction(),
            ),
            module.base_address.unwrap_or(0),
            before,
            after,
            r,
        )
        &&& self.counted(then, module, r is Ok)
    }

    /// Whether a query for the caller of the frame behind the walker
    /// `before` in `module` may take the symbolizer to `then`, write the
    /// walker to be `after`, and give `r`: the caller is recovered by the
    /// symbols in the cell of the module, none is where there are none, and
    /// nothing is counted.
    pub open spec fn walked<W: FrameWalker>(
        &self,
        then: Self,
        module: SimpleModule,
        before: W,
        after: W,
        r: Option<()>,
    ) -> bool {
        &&& self.served(then, module)
        &&& walked_by(
            cached_caller(
                resolved(then.cell(module_key_of(module))),
                module.base_address.unwrap_or(0),
                before,
            ),
            before,
            after,
            r,
        )
        &&& forall|name: Seq<char>| then.stats_of(name) == self.stats_of(name)
    }

    /// A symbolizer that loads symbols from `supplier`, with none loaded
    /// yet.
    pub fn new(supplier: S) -> (symbolizer: Symbolizer<S>)
        ensures
            symbolizer.supplier() == supplier,
            forall|key: KeyView| symbolizer.cell(key) is None,
            forall|name: Seq<char>| symbolizer.stats_of(name) is None,
    {
        Symbolizer { supplier, cache: SymbolCache::new(), stats: Vec::new() }
    }

    /// Sees to it that the symbols of `module` were asked of the supplier:
    /// asks where the module has no cell, and leaves every cell that is
    /// there as it is.
    fn load(&mut self, module: &SimpleModule)
        ensures
            final(self).supplier() == old(self).supplier(),
            final(self).loaded(*module, old(self).cell(module_key_of(*module))),
            forall|other: KeyView|
                other != module_key_of(*module) ==> final(self).cell(other) == old(self).cell(
                    other,
                ),
            final(self).stats@ == old(self).stats@,
    {
        let key = module_key(module);
        match self.cache.begin(key.clone()) {
            Lookup::Load => {
                let result = self.supplier.locate_symbols(module);
                self.cache.complete(&key, result);
                assert(self.supplier().may_give(*module, result));
            },
            Lookup::Wait => {},
            Lookup::Ready => {},
        }
    }

    fn find_stats(&self, name: &str) -> (r: Option<usize>)
        ensures
            r matches Some(i) ==> told_at(self.stats@, name@) == Some(i as int) && i
                < self.stats@.len(),
            r is None ==> told_at(self.stats@, name@) is None,
    {
        let mut i = self.stats.len();
        assert(self.stats@.take(i as int) =~= self.stats@);
        while i > 0
            invariant
                i <= self.stats.len(),
                told_at(self.stats@, name@) == told_at(self.stats@.take(i as int), name@),
            decreases i,
        {
            assert(self.stats@.take(i as int).drop_last() =~= self.stats@.take(i - 1));
            if str_eq(self.stats[i - 1].name.as_str(), name) {
                return Some(i - 1);
            }
            i = i - 1;
        }
        None
    }

    /// What is told of the module whose binary has the name `name`.
    fn get_stats(&self, name: &str) -> (r: Option<SymbolStats>)
        ensures
            r == self.stats_of(name@),
    {
        proof {
            lemma_told_at(self.stats@, name@);
        }
        match self.find_stats(name) {
            Some(i) => Some(self.stats[i].stats),
            None => None,
        }
    }

    /// Tells `stats` of the module whose binary has the name `name`.
    fn put_stats(&mut self, name: &str, stats: SymbolStats)
        ensures
            final(self).stats_of(name@) == Some(stats),
            forall|other: Seq<char>|
                other != name@ ==> final(self).stats_of(other) == old(self).stats_of(other),
            final(self).cache == old(self).cache,
            final(self).supplier == old(self).supplier,
    {
        let ghost before = self.stats@;
        match self.find_stats(name) {
            Some(i) => {
                self.stats[i].stats = stats;
                proof {
                    lemma_told_at(before, name@);
                    assert forall|other: Seq<char>| told_at(self.stats@, other) == told_at(
                        before,
                        other,
                    ) by {
                        lemma_told_at_of_names(self.stats@, before, other);
                    }
                    lemma_told_at(self.stats@, name@);
                    assert forall|other: Seq<char>| other != name@ implies told(
                        self.stats@,
                        other,
                    ) == told(before, other) by {
                        lemma_told_at(before, other);
                        lemma_told_at(self.stats@, other);
                        if told_at(before, other) is Some {
                            let j = told_at(before, other)->0;
                        }
                    }
                }
            },
            None => {
                self.stats.push(ModuleStats { name: name.to_owned(), stats });
                proof {
                    assert(self.stats@.drop_last() =~= before);
                }
            },
        }
    }

    /// Writes to `frame` the symbol for its instruction in `module`, from
    /// the symbols of the module, which are asked of the supplier where the
    /// module was never asked for before. Fails, and leaves the frame as it
    /// is, where no symbols could be loaded or they have none for the
    /// instruction. The frame is counted for the module, by the name of its
    /// binary.
    pub fn fill_symbol<F: FrameSymbolizer>(&mut self, module: &SimpleModule, frame: &mut F) -> (r:
        Result<(), FillSymbolError>)
        ensures
            old(self).filled(*final(self), *module, *old(frame), *final(frame), r),
    {
        self.load(module);
        let ghost mid = *self;
        let key = module_key(module);
        let name = leafname(module.code_file());
        let cached = self.cache.get(&key);
        let r = fill_symbol_from(cached, module, frame);
        let stats = tally(self.get_stats(name), cached, r.is_ok());
        self.put_stats(name, stats);
        proof {
            if old(self).cell(module_key_of(*module)) is None {
                let result = choose|result: Result<SymbolFile, SymbolError>|
                    #[trigger] mid.supplier().may_give(*module, result) && mid.cell(
                        module_key_of(*module),
                    ) == Some(CacheCell::Resolved(result));
                assert(self.supplier().may_give(*module, result));
            }
        }
        r
    }

    /// Recovers the caller of the frame that `walker` gives access to, by
    /// the symbols of `module`, which are asked of the supplier where the
    /// module was never asked for before. Recovers none, and writes nothing,
    /// where no symbols could be loaded or they give no caller.
    pub fn walk_frame<W: FrameWalker>(&mut self, module: &SimpleModule, walker: &mut W) -> (r:
        Option<()>)
        ensures
            old(self).walked(*final(self), *module, *old(walker), *final(walker), r),
    {
        self.load(module);
        let key = module_key(module);
        walk_frame_from(self.cache.get(&key), module, walker)
    }

    /// Asks the supplier for a file that belongs to `module`.
    pub fn get_file_path(&self, module: &SimpleModule, file_kind: FileKind) -> (r: Result<
        PathBuf,
        FileError,
    >)
        ensures
            self.supplier().may_find(*module, file_kind, r),
    {
        self.supplier.locate_file(module, file_kind)
    }

    /// What was done for each module, by the name of its binary: whether
    /// its symbols are loaded, and for how many frames a symbol was found
    /// and for how many none.
    pub fn stats(&self) -> (r: StringHashMap<SymbolStats>)
        ensures
            forall|name: Seq<char>| value_at(r@, name) == self.stats_of(name),
    {
        let mut map: StringHashMap<SymbolStats> = StringHashMap::new();
        let mut i: usize = 0;
        while i < self.stats.len()
            invariant
                i <= self.stats.len(),
                forall|name: Seq<char>|
                    value_at(map@, name) == told(self.stats@.take(i as int), name),
            decreases self.stats.len() - i,
        {
            let entry = &self.stats[i];
            let ghost before = map@;
            map.insert(entry.name.clone(), entry.stats);
            proof {
                assert(self.stats@.take(i + 1).drop_last() =~= self.stats@.take(i as int));
                assert forall|name: Seq<char>| value_at(map@, name) == told(
                    self.stats@.take(i + 1),
                    name,
                ) by {
                    assert(value_at(before, name) == told(self.stats@.take(i as int), name));
                }
            }
            i = i + 1;
        }
        assert(self.stats@.take(self.stats@.len() as int) =~= self.stats@);
        map
    }

    /// The name of the function that holds `address` in the module whose
    /// debug file is `debug_file` and whose debug identifier is `debug_id`,
    /// taken to be loaded at address zero.
    pub fn get_symbol_at_address(&mut self, debug_file: &str, debug_id: DebugId, address: u64) -> (r:
        Option<String>)
        ensures
            match cached_symbol(
                resolved(final(self).cell(debug_key(debug_file@, debug_id))),
                0,
                address,
            ) {
                Some(m) => r matches Some(name) && name@ == m.name,
                None => r is None,
            },
            final(self).supplier() == old(self).supplier(),
            old(self).cell(debug_key(debug_file@, debug_id)) is Some ==> final(self).cell(
                debug_key(debug_file@, debug_id),
            ) == old(self).cell(debug_key(debug_file@, debug_id)),
    {
        let module = SimpleModule::new(debug_file, debug_id);
        let mut frame = SimpleFrame::with_instruction(address);
        if self.fill_symbol(&module, &mut frame).is_ok() {
            frame.function
        } else {
            None
        }
    }
}

/// The key of a module of which the debug file and the debug identifier
/// alone are known.
pub open spec fn debug_key(debug_file: Seq<char>, debug_id: DebugId) -> KeyView {
    (Seq::empty(), None, Some(debug_file), Some(debug_id.text()))
}

/// What a load ended with is what every later query is answered from,
/// whatever the supplier would give if it were asked again. After a load
/// that failed, a query for the symbol of a frame fails and leaves the frame
/// as it is; after one that gave symbols, the frame is told of what those
/// symbols have for it. Either way the cell stays as it is.
pub proof fn lemma_load_is_remembered<S: SymbolSupplier, F: FrameSymbolizer>(
    before: Symbolizer<S>,
    then: Symbolizer<S>,
    module: SimpleModule,
    frame: F,
    after: F,
    r: Result<(), FillSymbolError>,
)
    requires
        before.cell(module_key_of(module)) matches Some(CacheCell::Resolved(_)),
        before.filled(then, module, frame, after, r),
    ensures
        then.cell(module_key_of(module)) == before.cell(module_key_of(module)),
        resolved(before.cell(module_key_of(module))) matches Some(Err(_)) ==> r is Err && after
            == frame,
        resolved(before.cell(module_key_of(module))) matches Some(Ok(file)) ==> filled_by(
            symbol_for_frame(file@, module.base_address.unwrap_or(0), frame.instruction()),
            module.base_address.unwrap_or(0),
            frame,
            after,
            r,
        ),
{
}

impl<S: SymbolSupplier> SymbolProvider for Symbolizer<S> {
    open spec fn may_fill(
        &self,
        then: Self,
        module: SimpleModule,
        before: FrameState,
        after: FrameState,
        r: Result<(), FillSymbolError>,
    ) -> bool {
        &&& self.served(then, module)
        &&& state_filled_by(
            cached_symbol(
                resolved(then.cell(module_key_of(module))),
                module.base_address.unwrap_or(0),
                before.instruction,
            ),
            module.base_address.unwrap_or(0),
            before,
            after,
            r,
        )
        &&& self.counted(then, module, r is Ok)
    }

    open spec fn may_walk(
        &self,
        then: Self,
        module: SimpleModule,
        before: WalkerState,
        after: WalkerState,
        r: Option<()>,
    ) -> bool {
        &&& self.served(then, module)
        &&& state_walked_by(
            unwound_by_cell(
                resolved(then.cell(module_key_of(module))),
                module.base_address.unwrap_or(0),
                before,
            ),
            before,
            after,
            r,
        )
        &&& forall|name: Seq<char>| then.stats_of(name) == self.stats_of(name)
    }

    open spec fn may_find(
        &self,
        then: Self,
        module: SimpleModule,
        file_kind: FileKind,
        r: Result<PathBuf, FileError>,
    ) -> bool {
        then == *self && self.supplier().may_find(module, file_kind, r)
    }

    open spec fn told(&self) -> Map<Seq<char>, SymbolStats> {
        Map::new(
            |name: Seq<char>| self.stats_of(name) is Some,
            |name: Seq<char>| self.stats_of(name)->0,
        )
    }

    fn fill_symbol<F: FrameSymbolizer>(&mut self, module: &SimpleModule, frame: &mut F) -> (r:
        Result<(), FillSymbolError>) {
        Symbolizer::fill_symbol(self, module, frame)
    }

    fn walk_frame<W: FrameWalker>(&mut self, module: &SimpleModule, walker: &mut W) -> (r: Option<
        (),
    >) {
        Symbolizer::walk_frame(self, module, walker)
    }

    fn get_file_path(&mut self, module: &SimpleModule, file_kind: FileKind) -> (r: Result<
        PathBuf,
        FileError,
    >) {
        Symbolizer::get_file_path(self, module, file_kind)
    }

    fn stats(&self) -> (r: StringHashMap<SymbolStats>) {
        let r = Symbolizer::stats(self);
        r
    }
}

} // verus!
