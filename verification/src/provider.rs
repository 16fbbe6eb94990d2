//! Providers of symbols, and several of them used as one.

use crate::error::{FileError, FillSymbolError};
use crate::frame::{frame_state, FrameState, FrameSymbolizer};
use crate::lookup::FileKind;
use crate::module::SimpleModule;
use crate::walker::{walker_state, FrameWalker, WalkerState};
use std::path::PathBuf;
use vstd::hash_map::StringHashMap;
use vstd::prelude::*;

verus! {

/// What a provider did for one module.
#[derive(Clone, Copy, Debug, PartialEq, Eq, Structural)]
pub struct SymbolStats {
    /// Whether the symbols of the module are loaded.
    pub loaded_symbols: bool,
    /// Whether a symbol file was found for the module and could not be
    /// parsed.
    pub corrupt_symbols: bool,
    /// The number of frames for which a symbol was found.
    pub found: u64,
    /// The number of frames for which none was found.
    pub missing: u64,
}

/// Something that names the symbols of frames, recovers the callers of
/// frames, and finds the files of modules.
pub trait SymbolProvider: Sized {
    /// Whether the provider, asked for the symbol of a frame of which
    /// `before` can be seen, may write the frame so that `after` can be seen
    /// of it, give `r`, and be `then` afterwards.
    spec fn may_fill(
        &self,
        then: Self,
        module: SimpleModule,
        before: FrameState,
        after: FrameState,
        r: Result<(), FillSymbolError>,
    ) -> bool;

    /// Whether the provider, asked for the caller of the frame behind a
    /// walker of which `before` can be seen, may write the walker so that
    /// `after` can be seen of it, give `r`, and be `then` afterwards.
    spec fn may_walk(
        &self,
        then: Self,
        module: SimpleModule,
        before: WalkerState,
        after: WalkerState,
        r: Option<()>,
    ) -> bool;

    /// Whether the provider, asked for a file, may give `r` and be `then`
    /// afterwards.
    spec fn may_find(
        &self,
        then: Self,
        module: SimpleModule,
        file_kind: FileKind,
        r: Result<PathBuf, FileError>,
    ) -> bool;

    /// What the provider did, for each module by the name of its binary.
    spec fn told(&self) -> Map<Seq<char>, SymbolStats>;

    /// Writes to `frame` the symbol for its instruction in `module`.
    fn fill_symbol<F: FrameSymbolizer>(&mut self, module: &SimpleModule, frame: &mut F) -> (r:
        Result<(), FillSymbolError>)
        ensures
            old(self).may_fill(
                *final(self),
                *module,
                frame_state(*old(frame)),
                frame_state(*final(frame)),
                r,
            ),
    ;

    /// Recovers the caller of the frame that `walker` gives access to.
    fn walk_frame<W: FrameWalker>(&mut self, module: &SimpleModule, walker: &mut W) -> (r: Option<
        (),
    >)
        ensures
            old(self).may_walk(
                *final(self),
                *module,
                walker_state(*old(walker)),
                walker_state(*final(walker)),
                r,
            ),
    ;

    /// Finds a file that belongs to `module`.
    fn get_file_path(&mut self, module: &SimpleModule, file_kind: FileKind) -> (r: Result<
        PathBuf,
        FileError,
    >)
        ensures
            old(self).may_find(*final(self), *module, file_kind, r),
    ;

    /// What the provider did, for each module by the name of its binary.
    fn stats(&self) -> (r: StringHashMap<SymbolStats>)
        ensures
            r@ == self.told(),
    ;
}

/// Whether one of the results is a success.
pub open spec fn any_ok<T, E>(results: Seq<Result<T, E>>) -> bool {
    exists|i: int| 0 <= i < results.len() && (#[trigger] results[i]) is Ok
}

/// The better of two results: the first where it is a success, and else
/// the second.
pub open spec fn better<T, E>(best: Result<T, E>, new: Result<T, E>) -> Result<T, E> {
    match best {
        Ok(t) => Ok(t),
        Err(_) => new,
    }
}

/// The first success among the results; without one, the last failure, or
/// `start` where there are no results at all.
pub open spec fn first_ok<T, E>(start: Result<T, E>, results: Seq<Result<T, E>>) -> Result<T, E>
    decreases results.len(),
{
    if results.len() == 0 {
        start
    } else {
        better(first_ok(start, results.drop_last()), results.last())
    }
}

/// Any success wins: the results of several providers, taken one after the
/// other from a failure on, come to a success where one of them is a
/// success, whatever the others are and wherever it stands.
pub proof fn lemma_any_success_wins<T, E>(start: Result<T, E>, results: Seq<Result<T, E>>)
    requires
        start is Err,
    ensures
        first_ok(start, results) is Ok <==> any_ok(results),
    decreases results.len(),
{
    if results.len() > 0 {
        let front = results.drop_last();
        lemma_any_success_wins(start, front);
        if any_ok(front) {
            let i = choose|i: int| 0 <= i < front.len() && (#[trigger] front[i]) is Ok;
        }
        if any_ok(results) {
            let i = choose|i: int| 0 <= i < results.len() && (#[trigger] results[i]) is Ok;
            if i < front.len() {
                assert(front[i] is Ok);
            }
        }
    }
}

/// The better of what the providers so far came to and what the next one
/// gave for a frame: a success, where either is one.
pub fn better_fill(best: Result<(), FillSymbolError>, new: Result<(), FillSymbolError>) -> (r: Result<
    (),
    FillSymbolError,
>)
    ensures
        r is Ok <==> best is Ok || new is Ok,
        r == better(best, new),
{
    match best {
        Ok(()) => Ok(()),
        Err(_) => new,
    }
}

/// The better of what the providers so far came to and what the next one
/// gave for a file: the path that was found first, or else the latest
/// failure.
pub fn better_path(best: Result<PathBuf, FileError>, new: Result<PathBuf, FileError>) -> (r: Result<
    PathBuf,
    FileError,
>)
    ensures
        r == better(best, new),
{
    match best {
        Ok(path) => Ok(path),
        Err(_) => new,
    }
}

/// Whether the walk goes on to the next provider after a provider gave
/// `result`: it does where that provider recovered no caller.
pub fn walk_goes_on(result: Option<()>) -> (r: bool)
    ensures
        r == (result is None),
{
    result.is_none()
}

/// Several providers used as one. For a symbol and for a file every
/// provider is asked, and any success wins; for the caller of a frame the
/// providers are asked in turn until one recovers it.
pub struct MultiSymbolProvider<P: SymbolProvider> {
    providers: Vec<P>,
}

impl<P: SymbolProvider> View for MultiSymbolProvider<P> {
    type V = Seq<P>;

    /// The providers, in the order in which they are asked.
    closed spec fn view(&self) -> Seq<P> {
        self.providers@
    }
}

impl<P: SymbolProvider> Default for MultiSymbolProvider<P> {
    /// No providers.
    fn default() -> (multi: MultiSymbolProvider<P>)
        ensures
            multi@ == Seq::<P>::empty(),
    {
        MultiSymbolProvider { providers: Vec::new() }
    }
}

impl<P: SymbolProvider> MultiSymbolProvider<P> {
    /// The number of providers.
    pub open spec fn len(&self) -> nat {
        self@.len()
    }

    /// No providers yet.
    pub fn new() -> (multi: MultiSymbolProvider<P>)
        ensures
            multi@ == Seq::<P>::empty(),
    {
        MultiSymbolProvider { providers: Vec::new() }
    }

    /// Adds a provider after those that are there.
    pub fn add(&mut self, provider: P)
        ensures
            final(self)@ == old(self)@.push(provider),
    {
        self.providers.push(provider);
    }
}

/// Whether `frames` and `results` tell of every provider being asked in
/// turn for the symbol of a frame: each was handed the frame as the one
/// before it left it, and what it gave and left is what it may.
pub open spec fn is_fill_run<P: SymbolProvider>(
    before: Seq<P>,
    after: Seq<P>,
    module: SimpleModule,
    frames: Seq<FrameState>,
    results: Seq<Result<(), FillSymbolError>>,
) -> bool {
    &&& after.len() == before.len()
    &&& results.len() == before.len()
    &&& frames.len() == before.len() + 1
    &&& forall|i: int|
        0 <= i < before.len() ==> (#[trigger] before[i]).may_fill(
            after[i],
            module,
            frames[i],
            frames[i + 1],
            results[i],
        )
}

/// Whether `walkers` and `results` tell of the providers being asked in
/// turn for the caller of a frame, up to the first that recovered it: each
/// was handed the walker as the one before it left it, what it gave and left
/// is what it may, and the providers that were not asked are as they were.
pub open spec fn is_walk_run<P: SymbolProvider>(
    before: Seq<P>,
    after: Seq<P>,
    module: SimpleModule,
    walkers: Seq<WalkerState>,
    results: Seq<Option<()>>,
) -> bool {
    &&& after.len() == before.len()
    &&& results.len() <= before.len()
    &&& walkers.len() == results.len() + 1
    &&& forall|i: int|
        0 <= i < results.len() ==> (#[trigger] before[i]).may_walk(
            after[i],
            module,
            walkers[i],
            walkers[i + 1],
            results[i],
        )
    &&& forall|i: int| results.len() <= i < before.len() ==> after[i] == #[trigger] before[i]
    &&& forall|i: int| 0 <= i < results.len() - 1 ==> (#[trigger] results[i]) is None
    &&& results.len() < before.len() ==> results.len() > 0 && results.last() is Some
}

/// What a walk through the providers comes to: what the last that was
/// asked gave, or nothing where none was asked.
pub open spec fn walked<T>(results: Seq<Option<T>>) -> Option<T> {
    if results.len() > 0 {
        results.last()
    } else {
        None
    }
}

/// Whether `results` tell of every provider being asked in turn for a
/// file: what each gave and left is what it may.
pub open spec fn is_find_run<P: SymbolProvider>(
    before: Seq<P>,
    after: Seq<P>,
    module: SimpleModule,
    file_kind: FileKind,
    results: Seq<Result<PathBuf, FileError>>,
) -> bool {
    &&& after.len() == before.len()
    &&& results.len() == before.len()
    &&& forall|i: int|
        0 <= i < before.len() ==> (#[trigger] before[i]).may_find(
            after[i],
            module,
            file_kind,
            results[i],
        )
}

/// What the first `n` providers did, taken together: of two providers that
/// tell of one module the later is heard.
pub open spec fn told_together<P: SymbolProvider>(providers: Seq<P>, n: nat) -> Map<
    Seq<char>,
    SymbolStats,
>
    decreases n,
{
    if n == 0 {
        Map::empty()
    } else {
        told_together(providers, (n - 1) as nat).union_prefer_right(providers[n - 1].told())
    }
}

impl<P: SymbolProvider> SymbolProvider for MultiSymbolProvider<P> {
    /// Every provider is asked in turn, and any success wins.
    open spec fn may_fill(
        &self,
        then: Self,
        module: SimpleModule,
        before: FrameState,
        after: FrameState,
        r: Result<(), FillSymbolError>,
    ) -> bool {
        exists|frames: Seq<FrameState>, results: Seq<Result<(), FillSymbolError>>|
            {
                &&& #[trigger] is_fill_run(self@, then@, module, frames, results)
                &&& frames[0] == before
                &&& frames.last() == after
                &&& r == first_ok(Err(FillSymbolError {  }), results)
            }
    }

    /// The providers are asked in turn up to the first that recovers the
    /// caller.
    open spec fn may_walk(
        &self,
        then: Self,
        module: SimpleModule,
        before: WalkerState,
        after: WalkerState,
        r: Option<()>,
    ) -> bool {
        exists|walkers: Seq<WalkerState>, results: Seq<Option<()>>|
            {
                &&& #[trigger] is_walk_run(self@, then@, module, walkers, results)
                &&& walkers[0] == before
                &&& walkers.last() == after
                &&& r == walked(results)
            }
    }

    /// Every provider is asked in turn, and the path that was found first
    /// is given.
    open spec fn may_find(
        &self,
        then: Self,
        module: SimpleModule,
        file_kind: FileKind,
        r: Result<PathBuf, FileError>,
    ) -> bool {
        exists|results: Seq<Result<PathBuf, FileError>>|
            #[trigger] is_find_run(self@, then@, module, file_kind, results) && r == first_ok(
                Err(FileError::NotFound),
                results,
            )
    }

    /// What the providers did, taken together.
    open spec fn told(&self) -> Map<Seq<char>, SymbolStats> {
        told_together(self@, self@.len())
    }

    /// Asks every provider in turn to write to `frame`. Succeeds where any
    /// of them did, so that a module without symbols can be told from a
    /// frame that has none; without providers it fails.
    fn fill_symbol<F: FrameSymbolizer>(&mut self, module: &SimpleModule, frame: &mut F) -> (r:
        Result<(), FillSymbolError>) {
        let mut best_result: Result<(), FillSymbolError> = Err(FillSymbolError {  });
        let ghost mut frames: Seq<FrameState> = seq![frame_state(*frame)];
        let ghost mut results: Seq<Result<(), FillSymbolError>> = Seq::empty();
        let mut i: usize = 0;
        while i < self.providers.len()
            invariant
                i <= self.providers@.len(),
                self.providers@.len() == old(self).providers@.len(),
                results.len() == i,
                frames.len() == i + 1,
                frames[0] == frame_state(*old(frame)),
                frames.last() == frame_state(*frame),
                best_result == first_ok(Err(FillSymbolError {  }), results),
                forall|j: int|
                    0 <= j < i ==> (#[trigger] old(self).providers@[j]).may_fill(
                        self.providers@[j],
                        *module,
                        frames[j],
                        frames[j + 1],
                        results[j],
                    ),
                forall|j: int|
                    i <= j < self.providers@.len() ==> self.providers@[j] == old(
                        self,
                    ).providers@[j],
            decreases self.providers.len() - i,
        {
            let ghost providers = self.providers@;
            let new_result = self.providers[i].fill_symbol(module, frame);
            proof {
                assert(forall|j: int|
                    0 <= j < providers.len() && j != i ==> self.providers@[j] == providers[j]);
                assert(results.push(new_result).drop_last() =~= results);
                results = results.push(new_result);
                frames = frames.push(frame_state(*frame));
            }
            best_result = better_fill(best_result, new_result);
            i = i + 1;
        }
        proof {
            assert(is_fill_run(old(self)@, self@, *module, frames, results));
        }
        best_result
    }

    /// Asks the providers in turn to recover the caller, and stops at the
    /// first that does; without providers it recovers none.
    fn walk_frame<W: FrameWalker>(&mut self, module: &SimpleModule, walker: &mut W) -> (r: Option<
        (),
    >) {
        let ghost mut walkers: Seq<WalkerState> = seq![walker_state(*walker)];
        let ghost mut results: Seq<Option<()>> = Seq::empty();
        let mut i: usize = 0;
        while i < self.providers.len()
            invariant
                i <= self.providers@.len(),
                self.providers@.len() == old(self).providers@.len(),
                results.len() == i,
                walkers.len() == i + 1,
                walkers[0] == walker_state(*old(walker)),
                walkers.last() == walker_state(*walker),
                forall|j: int| 0 <= j < i ==> (#[trigger] results[j]) is None,
                forall|j: int|
                    0 <= j < i ==> (#[trigger] old(self).providers@[j]).may_walk(
                        self.providers@[j],
                        *module,
                        walkers[j],
                        walkers[j + 1],
                        results[j],
                    ),
                forall|j: int|
                    i <= j < self.providers@.len() ==> self.providers@[j] == old(
                        self,
                    ).providers@[j],
            decreases self.providers.len() - i,
        {
            let ghost providers = self.providers@;
            let result = self.providers[i].walk_frame(module, walker);
            proof {
                assert(forall|j: int|
                    0 <= j < providers.len() && j != i ==> self.providers@[j] == providers[j]);
                results = results.push(result);
                walkers = walkers.push(walker_state(*walker));
            }
            if !walk_goes_on(result) {
                proof {
                    assert(is_walk_run(old(self)@, self@, *module, walkers, results));
                }
                return result;
            }
            i = i + 1;
        }
        proof {
            assert(is_walk_run(old(self)@, self@, *module, walkers, results));
        }
        None
    }

    /// Asks every provider in turn for the file, and gives the path that
    /// was found first; without providers it finds none.
    fn get_file_path(&mut self, module: &SimpleModule, file_kind: FileKind) -> (r: Result<
        PathBuf,
        FileError,
    >) {
        let mut best_result: Result<PathBuf, FileError> = Err(FileError::NotFound);
        let ghost mut results: Seq<Result<PathBuf, FileError>> = Seq::empty();
        let mut i: usize = 0;
        while i < self.providers.len()
            invariant
                i <= self.providers@.len(),
                self.providers@.len() == old(self).providers@.len(),
                results.len() == i,
                best_result == first_ok(Err(FileError::NotFound), results),
                forall|j: int|
                    0 <= j < i ==> (#[trigger] old(self).providers@[j]).may_find(
                        self.providers@[j],
                        *module,
                        file_kind,
                        results[j],
                    ),
                forall|j: int|
                    i <= j < self.providers@.len() ==> self.providers@[j] == old(
                        self,
                    ).providers@[j],
            decreases self.providers.len() - i,
        {
            let ghost providers = self.providers@;
            let new_result = self.providers[i].get_file_path(module, file_kind);
            proof {
                assert(forall|j: int|
                    0 <= j < providers.len() && j != i ==> self.providers@[j] == providers[j]);
                assert(results.push(new_result).drop_last() =~= results);
                results = results.push(new_result);
            }
            best_result = better_path(best_result, new_result);
            i = i + 1;
        }
        proof {
            assert(is_find_run(old(self)@, self@, *module, file_kind, results));
        }
        best_result
    }

    /// What the providers did, taken together: of two providers that tell
    /// of one module the later is heard.
    fn stats(&self) -> (r: StringHashMap<SymbolStats>) {
        let mut result: StringHashMap<SymbolStats> = StringHashMap::new();
        let mut i: usize = 0;
        while i < self.providers.len()
            invariant
                i <= self.providers@.len(),
                result@ == told_together(self.providers@, i as nat),
            decreases self.providers.len() - i,
        {
            result.union_prefer_right(self.providers[i].stats());
            i = i + 1;
        }
        result
    }
}

} // verus!
