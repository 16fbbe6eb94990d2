//! Sources of symbol files: where the symbols of a module are looked for,
//! and what is made of what was found.

use crate::error::{FileError, SymbolError};
use crate::lookup::{lookup, lookup_of, FileKind, FileLookup, FileLookupView};
use crate::module::SimpleModule;
use crate::parser::{is_outcome_of, lemma_failure_names_a_line, parse_spec, ParseError};
use crate::sym_file::{SymbolFile, SymbolFileView};
use std::path::PathBuf;
use vstd::hash_map::StringHashMap;
use vstd::prelude::*;
use vstd::utf8::encode_utf8;

verus! {

/// `std::path::PathBuf`, which is carried along and not looked into.
#[verifier::external_type_specification]
#[verifier::external_body]
pub struct ExPathBuf(std::path::PathBuf);

/// Something that can find the symbols of a module, by whatever means.
pub trait SymbolSupplier {
    /// Whether `r` is among what the source may give when asked for the
    /// symbols of `module`. A source whose answers depend on more than the
    /// module, as on what a disk holds, may give any of several.
    spec fn may_give(&self, module: SimpleModule, r: Result<SymbolFile, SymbolError>) -> bool;

    /// Finds and reads the symbol file of `module`.
    fn locate_symbols(&self, module: &SimpleModule) -> (r: Result<SymbolFile, SymbolError>)
        ensures
            self.may_give(*module, r),
    ;

    /// Whether `r` is among what the source may give when asked for the
    /// file of `module` that is of the given kind.
    spec fn may_find(
        &self,
        module: SimpleModule,
        file_kind: FileKind,
        r: Result<PathBuf, FileError>,
    ) -> bool;

    /// Finds a file that belongs to `module`.
    fn locate_file(&self, module: &SimpleModule, file_kind: FileKind) -> (r: Result<
        PathBuf,
        FileError,
    >)
        ensures
            self.may_find(*module, file_kind, r),
    ;
}

/// The path of `rel` below `root`, as `Path::join` gives it.
pub uninterp spec fn joined_path(root: PathBuf, rel: Seq<char>) -> PathBuf;

/// `Path::join`: the result is the path of `rel` below `root`.
#[verifier::external_body]
fn join_path(root: &PathBuf, rel: &str) -> (path: PathBuf)
    ensures
        path == joined_path(*root, rel@),
{
    root.join(rel)
}

/// A step in the search for a file under the roots of a
/// `SimpleSymbolSupplier`.
pub enum FileSearch {
    /// Whether `path` is a file is to be seen next; it is the candidate
    /// under the root with the number `root`.
    Probe { root: usize, path: PathBuf },
    /// The file is at this path.
    Found(PathBuf),
    /// The file is under none of the roots.
    NotFound,
}

/// The step that probes the root with the number `root`: the candidate is
/// the path `rel` below that root. After the last root the search has
/// failed.
pub open spec fn probe_of(roots: Seq<PathBuf>, rel: Seq<char>, root: int) -> FileSearch {
    if 0 <= root < roots.len() && root <= usize::MAX {
        FileSearch::Probe { root: root as usize, path: joined_path(roots[root], rel) }
    } else {
        FileSearch::NotFound
    }
}

/// The first step of a search under `roots` for the file that `found`
/// describes: the first root is probed, at the path that the lookup gives
/// for a local cache. Without a lookup the search has failed.
pub open spec fn first_step(roots: Seq<PathBuf>, found: Option<FileLookupView>) -> FileSearch {
    match found {
        Some(l) => probe_of(roots, l.cache_rel, 0),
        None => FileSearch::NotFound,
    }
}

/// The step after the candidate `path` under the root `root` was seen to
/// be a file or not: a file ends the search at its path, and else the next
/// root is probed, at the path that the lookup gives for a local cache.
pub open spec fn next_step(
    roots: Seq<PathBuf>,
    found: Option<FileLookupView>,
    root: usize,
    path: PathBuf,
    is_file: bool,
) -> FileSearch {
    if is_file {
        FileSearch::Found(path)
    } else {
        match found {
            Some(l) => probe_of(roots, l.cache_rel, root + 1),
            None => FileSearch::NotFound,
        }
    }
}

/// What a search under the roots from the one with the number `from` on
/// comes to, on a disk of which `is_file` tells the files: the path `rel`
/// below the first root where that path is a file.
pub open spec fn searched(
    roots: Seq<PathBuf>,
    rel: Seq<char>,
    from: int,
    is_file: spec_fn(PathBuf) -> bool,
) -> Result<PathBuf, FileError>
    decreases roots.len() - from,
{
    if 0 <= from < roots.len() {
        if is_file(joined_path(roots[from], rel)) {
            Ok(joined_path(roots[from], rel))
        } else {
            searched(roots, rel, from + 1, is_file)
        }
    } else {
        Err(FileError::NotFound)
    }
}

/// What the search for the file that `found` describes comes to, on a disk
/// of which `is_file` tells the files.
pub open spec fn located(
    roots: Seq<PathBuf>,
    found: Option<FileLookupView>,
    is_file: spec_fn(PathBuf) -> bool,
) -> Result<PathBuf, FileError> {
    match found {
        Some(l) => searched(roots, l.cache_rel, 0, is_file),
        None => Err(FileError::NotFound),
    }
}

/// How many steps a search may still take after `step`.
pub open spec fn steps_left(roots: Seq<PathBuf>, step: FileSearch) -> nat {
    match step {
        FileSearch::Probe { root, .. } => if root < roots.len() {
            (roots.len() - root) as nat
        } else {
            0
        },
        _ => 0,
    }
}

/// What the steps of a search come to when they are followed from `step`
/// on, each probe answered by the disk.
pub open spec fn followed(
    roots: Seq<PathBuf>,
    found: Option<FileLookupView>,
    step: FileSearch,
    is_file: spec_fn(PathBuf) -> bool,
) -> Result<PathBuf, FileError>
    decreases steps_left(roots, step),
{
    match step {
        FileSearch::Found(path) => Ok(path),
        FileSearch::NotFound => Err(FileError::NotFound),
        FileSearch::Probe { root, path } => if root < roots.len() {
            followed(roots, found, next_step(roots, found, root, path, is_file(path)), is_file)
        } else {
            Err(FileError::NotFound)
        },
    }
}

/// A source of symbols that looks for them on disk, under each of some
/// roots in turn, at the path that `lookup` gives for a local cache.
pub struct SimpleSymbolSupplier {
    paths: Vec<PathBuf>,
}

impl View for SimpleSymbolSupplier {
    type V = Seq<PathBuf>;

    /// The roots, in the order in which they are looked under.
    closed spec fn view(&self) -> Seq<PathBuf> {
        self.paths@
    }
}

impl SimpleSymbolSupplier {
    /// The number of roots.
    pub open spec fn root_count(&self) -> nat {
        self@.len()
    }

    /// A source that looks under `paths`, the first of them first.
    pub fn new(paths: Vec<PathBuf>) -> (supplier: SimpleSymbolSupplier)
        ensures
            supplier@ == paths@,
    {
        SimpleSymbolSupplier { paths }
    }

    /// The roots under which the source looks.
    pub fn paths(&self) -> (paths: &Vec<PathBuf>)
        ensures
            paths@ == self@,
    {
        &self.paths
    }

    /// The first step of the search for a file of `module`: the candidate
    /// under the first root, where the module's identity gives a path to
    /// look at and there is a root at all.
    pub fn locate_file_start(&self, module: &SimpleModule, file_kind: FileKind) -> (step:
        FileSearch)
        ensures
            step == first_step(self@, lookup_of(*module, file_kind)),
    {
        match lookup(module, file_kind) {
            Some(found) => self.probe(&found, 0),
            None => FileSearch::NotFound,
        }
    }

    /// The step after the candidate `path` under the root `root` was seen
    /// to be a file or not: the search ends there where it is one, goes on to
    /// the next root where there is one, and fails after the last.
    pub fn locate_file_next(
        &self,
        module: &SimpleModule,
        file_kind: FileKind,
        root: usize,
        path: PathBuf,
        is_file: bool,
    ) -> (step: FileSearch)
        ensures
            step == next_step(self@, lookup_of(*module, file_kind), root, path, is_file),
    {
        if is_file {
            return FileSearch::Found(path);
        }
        if root >= self.paths.len() {
            return FileSearch::NotFound;
        }
        match lookup(module, file_kind) {
            Some(found) => self.probe(&found, root + 1),
            None => FileSearch::NotFound,
        }
    }

    fn probe(&self, found: &FileLookup, root: usize) -> (step: FileSearch)
        ensures
            step == probe_of(self@, found@.cache_rel, root as int),
    {
        if root < self.paths.len() {
            FileSearch::Probe { root, path: join_path(&self.paths[root], found.cache_rel()) }
        } else {
            FileSearch::NotFound
        }
    }

    /// The symbols of `module`, given how the search for its symbol file
    /// ended and, where it was found, what reading it gave. A file that was
    /// read is parsed for a module of the size of `module`, and one that
    /// could not be read gives a `LoadError`. Where no file was found, the
    /// module lacked the identity to look by, which gives
    /// `MissingDebugFileOrId`, or its file was under none of the roots, which
    /// gives `NotFound`.
    pub fn locate_symbols_from(
        module: &SimpleModule,
        located: Result<Result<Vec<u8>, std::io::Error>, FileError>,
    ) -> (r: Result<SymbolFile, SymbolError>)
        ensures
            symbols_from(*module, located, r),
    {
        match located {
            Ok(read) => SymbolFile::from_read(read, module.size),
            Err(_) => if module.debug_file.is_none() || module.debug_id.is_none() {
                Err(SymbolError::MissingDebugFileOrId)
            } else {
                Err(SymbolError::NotFound)
            },
        }
    }
}

/// Whether `r` is what the disk supplier makes of a search for the symbol
/// file of `module` that ended as `located` says.
pub open spec fn symbols_from(
    module: SimpleModule,
    located: Result<Result<Vec<u8>, std::io::Error>, FileError>,
    r: Result<SymbolFile, SymbolError>,
) -> bool {
    match located {
        Ok(Ok(bytes)) => is_outcome_of(r, parse_spec(bytes@, module.size)),
        Ok(Err(cause)) => r matches Err(SymbolError::LoadError(e)) && e == cause,
        Err(_) => if lookup_of(module, FileKind::BreakpadSym) is None {
            r matches Err(SymbolError::MissingDebugFileOrId)
        } else {
            r matches Err(SymbolError::NotFound)
        },
    }
}

/// A search under no roots, or for a module whose identity gives no path,
/// fails at its first step; and following the steps of a search, each probe
/// answered by the disk, comes to the path below the first root where that
/// path is a file.
pub proof fn lemma_steps_find_the_first_root(
    roots: Seq<PathBuf>,
    found: Option<FileLookupView>,
    is_file: spec_fn(PathBuf) -> bool,
)
    requires
        roots.len() <= usize::MAX,
    ensures
        followed(roots, found, first_step(roots, found), is_file) == located(
            roots,
            found,
            is_file,
        ),
{
    if let Some(l) = found {
        lemma_steps_from(roots, l, 0, is_file);
    }
}

proof fn lemma_steps_from(
    roots: Seq<PathBuf>,
    l: FileLookupView,
    from: int,
    is_file: spec_fn(PathBuf) -> bool,
)
    requires
        0 <= from,
        roots.len() <= usize::MAX,
    ensures
        followed(roots, Some(l), probe_of(roots, l.cache_rel, from), is_file) == searched(
            roots,
            l.cache_rel,
            from,
            is_file,
        ),
    decreases roots.len() - from,
{
    if from < roots.len() {
        let path = joined_path(roots[from], l.cache_rel);
        let step = FileSearch::Probe { root: from as usize, path };
        assert(probe_of(roots, l.cache_rel, from) == step);
        let next = next_step(roots, Some(l), from as usize, path, is_file(path));
        assert(followed(roots, Some(l), step, is_file) == followed(roots, Some(l), next, is_file));
        if is_file(path) {
            assert(followed(roots, Some(l), FileSearch::Found(path), is_file) == Ok::<
                PathBuf,
                FileError,
            >(path));
        } else {
            assert(next == probe_of(roots, l.cache_rel, from + 1));
            lemma_steps_from(roots, l, from + 1, is_file);
        }
    }
}

/// The first root wins: the search comes to a path exactly where the path
/// that the lookup gives for a local cache is a file below some root, and
/// the path it comes to is that path below the first such root. It fails
/// exactly where there is no lookup, or that path is a file below no root.
pub proof fn lemma_first_root_wins(
    roots: Seq<PathBuf>,
    found: Option<FileLookupView>,
    is_file: spec_fn(PathBuf) -> bool,
)
    ensures
        match located(roots, found, is_file) {
            Ok(path) => found is Some && exists|i: int|
                {
                    &&& 0 <= i < roots.len()
                    &&& path == #[trigger] joined_path(roots[i], found->0.cache_rel)
                    &&& is_file(path)
                    &&& forall|j: int|
                        0 <= j < i ==> !is_file(
                            #[trigger] joined_path(roots[j], found->0.cache_rel),
                        )
                },
            Err(_) => found is None || forall|i: int|
                0 <= i < roots.len() ==> !is_file(
                    #[trigger] joined_path(roots[i], found->0.cache_rel),
                ),
        },
{
    if let Some(l) = found {
        lemma_searched(roots, l.cache_rel, 0, is_file);
    }
}

proof fn lemma_searched(
    roots: Seq<PathBuf>,
    rel: Seq<char>,
    from: int,
    is_file: spec_fn(PathBuf) -> bool,
)
    requires
        0 <= from,
    ensures
        match searched(roots, rel, from, is_file) {
            Ok(path) => exists|i: int|
                {
                    &&& from <= i < roots.len()
                    &&& path == #[trigger] joined_path(roots[i], rel)
                    &&& is_file(path)
                    &&& forall|j: int|
                        from <= j < i ==> !is_file(#[trigger] joined_path(roots[j], rel))
                },
            Err(_) => forall|i: int|
                from <= i < roots.len() ==> !is_file(#[trigger] joined_path(roots[i], rel)),
        },
    decreases roots.len() - from,
{
    if from < roots.len() {
        if is_file(joined_path(roots[from], rel)) {
            assert(joined_path(roots[from], rel) == joined_path(roots[from], rel));
        } else {
            lemma_searched(roots, rel, from + 1, is_file);
            if let Ok(path) = searched(roots, rel, from + 1, is_file) {
                let i = choose|i: int|
                    {
                        &&& from + 1 <= i < roots.len()
                        &&& path == #[trigger] joined_path(roots[i], rel)
                        &&& is_file(path)
                        &&& forall|j: int|
                            from + 1 <= j < i ==> !is_file(#[trigger] joined_path(roots[j], rel))
                    };
                assert(path == joined_path(roots[i], rel));
            }
        }
    }
}

/// The disk supplier tells a module whose file is under none of the roots
/// from one whose file is there and cannot be parsed, and both from one
/// that lacks the identity to look by: the first gets `NotFound`, the second
/// a `ParseError` and never `NotFound`, the third `MissingDebugFileOrId`.
pub proof fn lemma_disk_absence_is_not_corruption(
    module: SimpleModule,
    located: Result<Result<Vec<u8>, std::io::Error>, FileError>,
    r: Result<SymbolFile, SymbolError>,
)
    requires
        symbols_from(module, located, r),
    ensures
        located is Err && module.debug_file is Some && module.debug_id is Some ==> r matches Err(
            SymbolError::NotFound,
        ),
        located is Err && (module.debug_file is None || module.debug_id is None) ==> r matches Err(
            SymbolError::MissingDebugFileOrId,
        ),
        located matches Ok(Ok(bytes)) ==> (r matches Ok(file) && parse_spec(bytes@, module.size)
            == Ok::<SymbolFileView, ParseError>(file@)) || (r matches Err(
            SymbolError::ParseError(_, line),
        ) && line >= 1),
        located matches Ok(Err(cause)) ==> r matches Err(SymbolError::LoadError(_)),
{
    if let Ok(Ok(bytes)) = located {
        assert(bytes@.len() == bytes.len());
        lemma_failure_names_a_line(bytes@, module.size);
    }
}

/// The map that a list of pairs gives: each key with the text that the
/// last pair for it holds.
pub open spec fn map_of(pairs: Seq<(String, String)>) -> Map<Seq<char>, Seq<char>>
    decreases pairs.len(),
{
    if pairs.len() == 0 {
        Map::empty()
    } else {
        map_of(pairs.drop_last()).insert(pairs.last().0@, pairs.last().1@)
    }
}

/// A source of symbols that holds whole symbol files in memory, each under
/// the name of a module's binary. It is meant for tests.
pub struct StringSymbolSupplier {
    modules: StringHashMap<String>,
}

impl View for StringSymbolSupplier {
    type V = Map<Seq<char>, Seq<char>>;

    closed spec fn view(&self) -> Map<Seq<char>, Seq<char>> {
        self.modules@.map_values(|s: String| s@)
    }
}

impl Default for StringSymbolSupplier {
    /// A source that holds nothing.
    fn default() -> (supplier: StringSymbolSupplier)
        ensures
            supplier@ == Map::<Seq<char>, Seq<char>>::empty(),
    {
        let modules: StringHashMap<String> = StringHashMap::new();
        assert(modules@.map_values(|s: String| s@) =~= Map::<Seq<char>, Seq<char>>::empty());
        StringSymbolSupplier { modules }
    }
}

impl StringSymbolSupplier {
    /// A source that holds, for each name in `modules`, the symbol file
    /// paired with it; the last pair for a name stands.
    pub fn new(modules: Vec<(String, String)>) -> (supplier: StringSymbolSupplier)
        ensures
            supplier@ == map_of(modules@),
    {
        let mut map: StringHashMap<String> = StringHashMap::new();
        let mut i: usize = 0;
        while i < modules.len()
            invariant
                i <= modules.len(),
                map@.map_values(|s: String| s@) == map_of(modules@.take(i as int)),
            decreases modules.len() - i,
        {
            let name = modules[i].0.clone();
            let text = modules[i].1.clone();
            proof {
                assert(modules@.take(i + 1).drop_last() =~= modules@.take(i as int));
                assert(map@.insert(name@, text).map_values(|s: String| s@) =~= map@.map_values(
                    |s: String| s@,
                ).insert(name@, text@));
            }
            map.insert(name, text);
            i = i + 1;
        }
        assert(modules@.take(modules@.len() as int) =~= modules@);
        StringSymbolSupplier { modules: map }
    }
}

impl SymbolSupplier for StringSymbolSupplier {
    /// What reading the symbol file gives that is held under the name of
    /// the binary of `module`, for a module of its size; `NotFound` where
    /// none is held under that name.
    open spec fn may_give(&self, module: SimpleModule, r: Result<SymbolFile, SymbolError>) -> bool {
        if self@.contains_key(module.code_file_text()) {
            is_outcome_of(r, parse_spec(encode_utf8(self@[module.code_file_text()]), module.size))
        } else {
            r matches Err(SymbolError::NotFound)
        }
    }

    /// Reads the symbol file held under the name of the binary of `module`;
    /// there is none to be found where none is held under that name.
    fn locate_symbols(&self, module: &SimpleModule) -> (r: Result<SymbolFile, SymbolError>) {
        match self.modules.get(module.code_file()) {
            Some(symbols) => SymbolFile::from_bytes_within(symbols.as_str().as_bytes(), module.size),
            None => Err(SymbolError::NotFound),
        }
    }

    /// No file, of whatever kind.
    open spec fn may_find(
        &self,
        module: SimpleModule,
        file_kind: FileKind,
        r: Result<PathBuf, FileError>,
    ) -> bool {
        r matches Err(FileError::NotFound)
    }

    /// Finds no file, of whatever kind.
    fn locate_file(&self, module: &SimpleModule, file_kind: FileKind) -> (r: Result<
        PathBuf,
        FileError,
    >) {
        Err(FileError::NotFound)
    }
}

/// A source of symbols that looks for them on disk under `symbol_paths`,
/// the first of them first.
pub fn simple_symbol_supplier(symbol_paths: Vec<PathBuf>) -> (supplier: SimpleSymbolSupplier)
    ensures
        supplier@ == symbol_paths@,
{
    SimpleSymbolSupplier::new(symbol_paths)
}

/// A source of symbols that holds, for each name of a binary in `modules`,
/// the whole symbol file paired with it.
pub fn string_symbol_supplier(modules: Vec<(String, String)>) -> (supplier: StringSymbolSupplier)
    ensures
        supplier@ == map_of(modules@),
{
    StringSymbolSupplier::new(modules)
}

/// Whether the search for symbols goes on to the next source after a
/// source gave `outcome`: it does where the source had nothing to offer.
pub open spec fn goes_on(outcome: Result<SymbolFile, SymbolError>) -> bool {
    outcome matches Err(e) && e.lets_search_continue()
}

/// What a search through several sources comes to, given what each source
/// gives, in the order in which the sources are asked. The search ends at
/// the first source that has symbols, or a file that cannot be read or
/// parsed; where every source has nothing to offer, the search comes to
/// what the last of them said, and without sources to `NotFound`.
pub open spec fn cascaded(outcomes: Seq<Result<SymbolFile, SymbolError>>) -> Result<
    SymbolFile,
    SymbolError,
>
    decreases outcomes.len(),
{
    if outcomes.len() == 0 {
        Err(SymbolError::NotFound)
    } else if goes_on(outcomes[0]) && outcomes.len() > 1 {
        cascaded(outcomes.drop_first())
    } else {
        outcomes[0]
    }
}

/// A source that has nothing to offer is passed over for those after it;
/// a source that has symbols, or a file that cannot be read or parsed, ends
/// the search, whatever the sources after it hold.
pub proof fn lemma_cascade(
    first: Result<SymbolFile, SymbolError>,
    rest: Seq<Result<SymbolFile, SymbolError>>,
)
    ensures
        !goes_on(first) ==> cascaded(seq![first] + rest) == first,
        goes_on(first) && rest.len() > 0 ==> cascaded(seq![first] + rest) == cascaded(rest),
        goes_on(first) <==> first matches Err(SymbolError::NotFound) || first matches Err(
            SymbolError::MissingDebugFileOrId,
        ),
{
    assert((seq![first] + rest).drop_first() =~= rest);
}

/// Whether the search for symbols goes on to the next source after a
/// source gave `outcome`.
pub fn search_goes_on(outcome: &Result<SymbolFile, SymbolError>) -> (r: bool)
    ensures
        r == goes_on(*outcome),
{
    match outcome {
        Ok(_) => false,
        Err(e) => e.continues_search(),
    }
}

/// What a search through several sources comes to, given what each source
/// gave, in the order in which the sources were asked.
pub fn cascade(outcomes: Vec<Result<SymbolFile, SymbolError>>) -> (r: Result<
    SymbolFile,
    SymbolError,
>)
    ensures
        r == cascaded(outcomes@),
{
    let ghost all = outcomes@;
    let mut outcomes = outcomes;
    let mut result: Result<SymbolFile, SymbolError> = Err(SymbolError::NotFound);
    let mut last = true;
    while outcomes.len() > 0
        invariant
            outcomes@ =~= all.take(outcomes@.len() as int),
            outcomes@.len() <= all.len(),
            last == (outcomes@.len() == all.len()),
            result == cascaded(all.subrange(outcomes@.len() as int, all.len() as int)),
        decreases outcomes.len(),
    {
        let ghost k = outcomes@.len() as int;
        let outcome = outcomes.pop().unwrap();
        proof {
            assert(all.subrange(k - 1, all.len() as int).drop_first() =~= all.subrange(
                k,
                all.len() as int,
            ));
        }
        if !(search_goes_on(&outcome) && !last) {
            result = outcome;
        }
        last = false;
    }
    result
}

/// Where every outcome but the last lets the search go on, the search
/// comes to the last.
pub proof fn lemma_cascade_ends_at_last(outcomes: Seq<Result<SymbolFile, SymbolError>>)
    requires
        outcomes.len() > 0,
        forall|i: int| 0 <= i < outcomes.len() - 1 ==> goes_on(#[trigger] outcomes[i]),
    ensures
        cascaded(outcomes) == outcomes.last(),
    decreases outcomes.len(),
{
    if outcomes.len() > 1 {
        let rest = outcomes.drop_first();
        assert forall|i: int| 0 <= i < rest.len() - 1 implies goes_on(#[trigger] rest[i]) by {
            assert(rest[i] == outcomes[i + 1]);
        }
        lemma_cascade_ends_at_last(rest);
    }
}

/// Whether `outcomes` is a run of a search through `suppliers` for the
/// symbols of `module`: what the sources may give, one after the other from
/// the first on, up to the first after which the search does not go on.
pub open spec fn is_search<S: SymbolSupplier>(
    suppliers: Seq<S>,
    module: SimpleModule,
    outcomes: Seq<Result<SymbolFile, SymbolError>>,
) -> bool {
    &&& outcomes.len() <= suppliers.len()
    &&& forall|i: int|
        0 <= i < outcomes.len() ==> (#[trigger] suppliers[i]).may_give(module, outcomes[i])
    &&& forall|i: int| 0 <= i < outcomes.len() - 1 ==> goes_on(#[trigger] outcomes[i])
    &&& outcomes.len() < suppliers.len() ==> outcomes.len() > 0 && !goes_on(outcomes.last())
}

/// Whether `outcomes` is a run of a search through `suppliers` for a file
/// of `module`: what the sources may give, one after the other from the
/// first on, up to the first that finds the file.
pub open spec fn is_file_search<S: SymbolSupplier>(
    suppliers: Seq<S>,
    module: SimpleModule,
    file_kind: FileKind,
    outcomes: Seq<Result<PathBuf, FileError>>,
) -> bool {
    &&& outcomes.len() <= suppliers.len()
    &&& forall|i: int|
        0 <= i < outcomes.len() ==> (#[trigger] suppliers[i]).may_find(
            module,
            file_kind,
            outcomes[i],
        )
    &&& forall|i: int| 0 <= i < outcomes.len() - 1 ==> (#[trigger] outcomes[i]) is Err
    &&& outcomes.len() < suppliers.len() ==> outcomes.len() > 0 && outcomes.last() is Ok
}

/// What a search for a file comes to: what the last source gave, where it
/// found the file, and else `NotFound`.
pub open spec fn found_among(outcomes: Seq<Result<PathBuf, FileError>>) -> Result<
    PathBuf,
    FileError,
> {
    if outcomes.len() > 0 && outcomes.last() is Ok {
        outcomes.last()
    } else {
        Err(FileError::NotFound)
    }
}

/// Several sources of symbols used as one: they are asked in their order.
pub struct CascadeSupplier<S: SymbolSupplier> {
    suppliers: Vec<S>,
}

impl<S: SymbolSupplier> View for CascadeSupplier<S> {
    type V = Seq<S>;

    closed spec fn view(&self) -> Seq<S> {
        self.suppliers@
    }
}

impl<S: SymbolSupplier> CascadeSupplier<S> {
    /// The sources `suppliers` as one, the first of them asked first.
    pub fn new(suppliers: Vec<S>) -> (cascade: CascadeSupplier<S>)
        ensures
            cascade@ == suppliers@,
    {
        CascadeSupplier { suppliers }
    }
}

impl<S: SymbolSupplier> SymbolSupplier for CascadeSupplier<S> {
    /// What some run of the search through the sources comes to.
    open spec fn may_give(&self, module: SimpleModule, r: Result<SymbolFile, SymbolError>) -> bool {
        exists|outcomes: Seq<Result<SymbolFile, SymbolError>>|
            #[trigger] is_search(self@, module, outcomes) && r == cascaded(outcomes)
    }

    /// Asks the sources in turn for the symbols of `module`, and stops at
    /// the first after which the search does not go on. Without sources
    /// nothing is found.
    fn locate_symbols(&self, module: &SimpleModule) -> (r: Result<SymbolFile, SymbolError>) {
        let mut result: Result<SymbolFile, SymbolError> = Err(SymbolError::NotFound);
        let ghost mut seen: Seq<Result<SymbolFile, SymbolError>> = Seq::empty();
        let mut i: usize = 0;
        while i < self.suppliers.len()
            invariant
                i <= self.suppliers@.len(),
                seen.len() == i,
                forall|j: int|
                    0 <= j < seen.len() ==> (#[trigger] self.suppliers@[j]).may_give(
                        *module,
                        seen[j],
                    ),
                forall|j: int| 0 <= j < seen.len() ==> goes_on(#[trigger] seen[j]),
                result == cascaded(seen),
            decreases self.suppliers.len() - i,
        {
            result = self.suppliers[i].locate_symbols(module);
            proof {
                seen = seen.push(result);
                lemma_cascade_ends_at_last(seen);
            }
            if !search_goes_on(&result) {
                proof {
                    assert(is_search(self@, *module, seen));
                }
                return result;
            }
            i = i + 1;
        }
        proof {
            assert(is_search(self@, *module, seen));
        }
        result
    }

    /// The path that a source gave after every source before it gave none;
    /// or `NotFound`, after every source gave none.
    open spec fn may_find(
        &self,
        module: SimpleModule,
        file_kind: FileKind,
        r: Result<PathBuf, FileError>,
    ) -> bool {
        exists|outcomes: Seq<Result<PathBuf, FileError>>|
            #[trigger] is_file_search(self@, module, file_kind, outcomes) && r == found_among(
                outcomes,
            )
    }

    /// Asks the sources in turn for a file of `module`, and stops at the
    /// first that finds it.
    fn locate_file(&self, module: &SimpleModule, file_kind: FileKind) -> (r: Result<
        PathBuf,
        FileError,
    >) {
        let ghost mut seen: Seq<Result<PathBuf, FileError>> = Seq::empty();
        let mut i: usize = 0;
        while i < self.suppliers.len()
            invariant
                i <= self.suppliers@.len(),
                seen.len() == i,
                forall|j: int|
                    0 <= j < seen.len() ==> (#[trigger] self.suppliers@[j]).may_find(
                        *module,
                        file_kind,
                        seen[j],
                    ),
                forall|j: int| 0 <= j < seen.len() ==> (#[trigger] seen[j]) is Err,
            decreases self.suppliers.len() - i,
        {
            let result = self.suppliers[i].locate_file(module, file_kind);
            proof {
                seen = seen.push(result);
            }
            if result.is_ok() {
                proof {
                    assert(is_file_search(self@, *module, file_kind, seen));
                }
                return result;
            }
            i = i + 1;
        }
        proof {
            assert(is_file_search(self@, *module, file_kind, seen));
        }
        Err(FileError::NotFound)
    }
}

/// A source that holds symbol files in memory tells a module it holds
/// nothing for from one whose symbol file it holds and cannot read: for the
/// first it gives `NotFound`, and for the second never that but a
/// `ParseError`, which names a line.
pub proof fn lemma_absent_is_not_corrupt(
    supplier: StringSymbolSupplier,
    module: SimpleModule,
    r: Result<SymbolFile, SymbolError>,
)
    requires
        supplier.may_give(module, r),
    ensures
        !supplier@.contains_key(module.code_file_text()) ==> r matches Err(SymbolError::NotFound),
        supplier@.contains_key(module.code_file_text()) ==> r is Ok || r matches Err(
            SymbolError::ParseError(_, _),
        ),
        supplier@.contains_key(module.code_file_text()) && encode_utf8(
            supplier@[module.code_file_text()],
        ).len() <= u64::MAX ==> (r matches Err(SymbolError::ParseError(_, line)) ==> line >= 1),
{
    if supplier@.contains_key(module.code_file_text()) {
        let bytes = encode_utf8(supplier@[module.code_file_text()]);
        if bytes.len() <= u64::MAX {
            lemma_failure_names_a_line(bytes, module.size);
        }
    }
}

} // verus!
