//! Where the files that belong to a module are looked for: relative paths
//! in the layout of a symbol server, derived from the module's identity.

use crate::error::SymbolError;
use crate::ident::DebugId;
use crate::module::SimpleModule;
use crate::text::{leaf_of, leafname, replace_or_add_extension, replaced_extension};
use vstd::prelude::*;

verus! {

/// `String::push`: the character is appended to the text.
pub assume_specification[ String::push ](s: &mut String, c: char)
    ensures
        final(s)@ == old(s)@.push(c),
;

/// `String::pop`: the last character is taken off the text and returned;
/// an empty text gives none and stays as it is.
pub assume_specification[ String::pop ](s: &mut String) -> (r: Option<char>)
    ensures
        old(s)@.len() == 0 ==> r is None && final(s)@ == old(s)@,
        old(s)@.len() > 0 ==> r == Some(old(s)@.last()) && final(s)@ == old(s)@.drop_last(),
;

/// The kinds of file that may be asked for on behalf of a module.
#[derive(Clone, Copy, Debug, PartialEq, Eq, Structural, Hash)]
pub enum FileKind {
    /// A Breakpad symbol file.
    BreakpadSym,
    /// The native binary of the module.
    Binary,
    /// Debug information that lives beside the binary, such as a PDB.
    ExtraDebugInfo,
}

/// The two paths of a lookup, as values.
pub ghost struct FileLookupView {
    pub cache_rel: Seq<char>,
    pub server_rel: Seq<char>,
}

/// A lookup to make for some file of a module: the path under which a local
/// cache keeps the file, and the path under which a server offers it. Neither
/// path is empty.
#[derive(Debug)]
pub struct FileLookup {
    cache_rel: String,
    server_rel: String,
}

impl View for FileLookup {
    type V = FileLookupView;

    closed spec fn view(&self) -> FileLookupView {
        FileLookupView { cache_rel: self.cache_rel@, server_rel: self.server_rel@ }
    }
}

impl Clone for FileLookup {
    fn clone(&self) -> (r: Self)
        ensures
            r@ == self@,
    {
        proof {
            use_type_invariant(self);
        }
        FileLookup { cache_rel: self.cache_rel.clone(), server_rel: self.server_rel.clone() }
    }
}

impl FileLookup {
    #[verifier::type_invariant]
    spec fn well_formed(self) -> bool {
        self.cache_rel@.len() > 0 && self.server_rel@.len() > 0
    }

    /// The path of the file below the root of a local cache.
    pub fn cache_rel(&self) -> (r: &str)
        ensures
            r@ == self@.cache_rel,
            r@.len() > 0,
    {
        proof {
            use_type_invariant(self);
        }
        self.cache_rel.as_str()
    }

    /// The path of the file below the root of a symbol server.
    pub fn server_rel(&self) -> (r: &str)
        ensures
            r@ == self@.server_rel,
            r@.len() > 0,
    {
        proof {
            use_type_invariant(self);
        }
        self.server_rel.as_str()
    }
}

/// Three path components with a slash between one and the next.
pub open spec fn joined(a: Seq<char>, b: Seq<char>, c: Seq<char>) -> Seq<char> {
    a + seq!['/'] + b + seq!['/'] + c
}

/// The path of a module's symbol file: the leaf of the debug file's name,
/// the debug identifier in its Breakpad form, and the leaf again with `sym`
/// in the place of the extension `pdb`, or after any other.
pub open spec fn symbol_path(debug_file: Seq<char>, debug_id: DebugId) -> Seq<char> {
    let leaf = leaf_of(debug_file);
    joined(
        leaf,
        debug_id.breakpad_text(),
        replaced_extension(leaf, seq!['p', 'd', 'b'], seq!['s', 'y', 'm']),
    )
}

/// The path of the debug file itself, in the same layout.
pub open spec fn debuginfo_path(debug_file: Seq<char>, debug_id: DebugId) -> Seq<char> {
    let leaf = leaf_of(debug_file);
    joined(leaf, debug_id.breakpad_text(), leaf)
}

/// The lookup for the symbol file of `module`, where it has one.
pub open spec fn breakpad_sym_lookup_of(module: SimpleModule) -> Option<FileLookupView> {
    match (module.debug_file, module.debug_id) {
        (Some(file), Some(id)) => Some(
            FileLookupView {
                cache_rel: symbol_path(file@, id),
                server_rel: symbol_path(file@, id),
            },
        ),
        _ => None,
    }
}

/// The lookup for the extra debug information of `module`, where it has one.
pub open spec fn extra_debuginfo_lookup_of(module: SimpleModule) -> Option<FileLookupView> {
    match (module.debug_file, module.debug_id) {
        (Some(file), Some(id)) => Some(
            FileLookupView {
                cache_rel: debuginfo_path(file@, id),
                server_rel: debuginfo_path(file@, id),
            },
        ),
        _ => None,
    }
}

/// The lookup for the binary of `module`, where it has one. A cache keeps
/// the binary beside the debug file; a server keeps it under its own name
/// and its code identifier.
pub open spec fn binary_lookup_of(module: SimpleModule) -> Option<FileLookupView> {
    match (module.code_identifier, module.debug_file, module.debug_id) {
        (Some(code_id), Some(file), Some(id)) => {
            let bin_leaf = leaf_of(module.code_file_text());
            Some(
                FileLookupView {
                    cache_rel: joined(leaf_of(file@), id.breakpad_text(), bin_leaf),
                    server_rel: joined(bin_leaf, code_id@, bin_leaf),
                },
            )
        },
        _ => None,
    }
}

/// The lookup for the file of the given kind.
pub open spec fn lookup_of(module: SimpleModule, file_kind: FileKind) -> Option<FileLookupView> {
    match file_kind {
        FileKind::BreakpadSym => breakpad_sym_lookup_of(module),
        FileKind::Binary => binary_lookup_of(module),
        FileKind::ExtraDebugInfo => extra_debuginfo_lookup_of(module),
    }
}

/// The view of a lookup that may be missing.
pub open spec fn lookup_view(lookup: Option<FileLookup>) -> Option<FileLookupView> {
    match lookup {
        Some(l) => Some(l@),
        None => None,
    }
}

fn join3(a: &str, b: &str, c: &str) -> (r: String)
    ensures
        r@ == joined(a@, b@, c@),
{
    proof {
        reveal_strlit("/");
    }
    let mut out = a.to_owned();
    out.append("/");
    out.append(b);
    out.append("/");
    out.append(c);
    out
}

/// The relative path at which the symbols of `module` are kept, in the
/// layout of Microsoft's symbol server:
/// `<debug file>/<debug identifier>/<debug file>.sym`, the last without a
/// `pdb` extension. There is none for a module that lacks the debug file's
/// name or the debug identifier.
pub fn breakpad_sym_lookup(module: &SimpleModule) -> (r: Option<FileLookup>)
    ensures
        lookup_view(r) == breakpad_sym_lookup_of(*module),
        r is None <==> module.debug_file is None || module.debug_id is None,
{
    let debug_file = match &module.debug_file {
        Some(f) => f.as_str(),
        None => { return None; },
    };
    let debug_id = match &module.debug_id {
        Some(id) => id,
        None => { return None; },
    };
    let leaf = leafname(debug_file);
    proof {
        reveal_strlit("pdb");
        reveal_strlit("sym");
    }
    assert("pdb"@ =~= seq!['p', 'd', 'b']);
    assert("sym"@ =~= seq!['s', 'y', 'm']);
    let filename = replace_or_add_extension(leaf, "pdb", "sym");
    let id_text = debug_id.breakpad();
    let rel_path = join3(leaf, id_text.as_str(), filename.as_str());
    Some(FileLookup { cache_rel: rel_path.clone(), server_rel: rel_path })
}

/// The lookup for the extra debug information of `module`, such as its PDB.
pub fn extra_debuginfo_lookup(module: &SimpleModule) -> (r: Option<FileLookup>)
    ensures
        lookup_view(r) == extra_debuginfo_lookup_of(*module),
{
    let debug_file = match &module.debug_file {
        Some(f) => f.as_str(),
        None => { return None; },
    };
    let debug_id = match &module.debug_id {
        Some(id) => id,
        None => { return None; },
    };
    let leaf = leafname(debug_file);
    let id_text = debug_id.breakpad();
    let rel_path = join3(leaf, id_text.as_str(), leaf);
    Some(FileLookup { cache_rel: rel_path.clone(), server_rel: rel_path })
}

/// The lookup for the binary of `module`: its executable or library.
pub fn binary_lookup(module: &SimpleModule) -> (r: Option<FileLookup>)
    ensures
        lookup_view(r) == binary_lookup_of(*module),
{
    let code_file = module.code_file();
    let code_id = match &module.code_identifier {
        Some(id) => id,
        None => { return None; },
    };
    let debug_file = match &module.debug_file {
        Some(f) => f.as_str(),
        None => { return None; },
    };
    let debug_id = match &module.debug_id {
        Some(id) => id,
        None => { return None; },
    };
    let bin_leaf = leafname(code_file);
    let debug_leaf = leafname(debug_file);
    let id_text = debug_id.breakpad();
    Some(
        FileLookup {
            cache_rel: join3(debug_leaf, id_text.as_str(), bin_leaf),
            server_rel: join3(bin_leaf, code_id.as_str(), bin_leaf),
        },
    )
}

/// Turns a lookup into the form of Mozilla's symbol server, where the last
/// character of the served file's name gives way to an underscore.
pub fn moz_lookup(lookup: FileLookup) -> (r: FileLookup)
    ensures
        r@.cache_rel == lookup@.cache_rel,
        r@.server_rel == lookup@.server_rel.drop_last().push('_'),
{
    proof {
        use_type_invariant(&lookup);
    }
    let FileLookup { cache_rel, mut server_rel } = lookup;
    let _ = server_rel.pop();
    server_rel.push('_');
    FileLookup { cache_rel, server_rel }
}

/// The lookup for the file of `module` that is of the given kind.
pub fn lookup(module: &SimpleModule, file_kind: FileKind) -> (r: Option<FileLookup>)
    ensures
        lookup_view(r) == lookup_of(*module, file_kind),
{
    match file_kind {
        FileKind::BreakpadSym => breakpad_sym_lookup(module),
        FileKind::Binary => binary_lookup(module),
        FileKind::ExtraDebugInfo => extra_debuginfo_lookup(module),
    }
}

/// The lookup for the file of `module` that is of the given kind, or the
/// error that tells a module whose identity gives no path to look at from
/// one whose file is not found.
pub fn lookup_or_missing(module: &SimpleModule, file_kind: FileKind) -> (r: Result<
    FileLookup,
    SymbolError,
>)
    ensures
        match lookup_of(*module, file_kind) {
            Some(found) => r matches Ok(l) && l@ == found,
            None => r matches Err(SymbolError::MissingDebugFileOrId),
        },
{
    match lookup(module, file_kind) {
        Some(found) => Ok(found),
        None => Err(SymbolError::MissingDebugFileOrId),
    }
}

} // verus!
