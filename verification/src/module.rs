//! The description of a loaded module, and the key under which what is
//! known of it is kept.

use crate::ident::{CodeId, DebugId};
use crate::text::str_eq;
use vstd::prelude::*;

verus! {

/// A module described by plain data: enough to look for its symbols without
/// a crash dump at hand.
pub struct SimpleModule {
    /// The address at which the module was loaded.
    pub base_address: Option<u64>,
    /// The size of the module in memory, in bytes.
    pub size: Option<u64>,
    /// The name of the module's binary.
    pub code_file: Option<String>,
    /// The identifier of the module's binary.
    pub code_identifier: Option<CodeId>,
    /// The name of the file that holds the module's debug information.
    pub debug_file: Option<String>,
    /// The identifier of the module's debug information.
    pub debug_id: Option<DebugId>,
    /// The version of the module.
    pub version: Option<String>,
}

/// The view of an optional text.
pub open spec fn text_of(s: Option<String>) -> Option<Seq<char>> {
    match s {
        Some(s) => Some(s@),
        None => None,
    }
}

impl Default for SimpleModule {
    fn default() -> (m: SimpleModule)
        ensures
            m.base_address is None,
            m.size is None,
            m.code_file is None,
            m.code_identifier is None,
            m.debug_file is None,
            m.debug_id is None,
            m.version is None,
    {
        SimpleModule {
            base_address: None,
            size: None,
            code_file: None,
            code_identifier: None,
            debug_file: None,
            debug_id: None,
            version: None,
        }
    }
}

impl SimpleModule {
    /// The name of the module's binary; empty where none was given.
    pub open spec fn code_file_text(&self) -> Seq<char> {
        match self.code_file {
            Some(s) => s@,
            None => Seq::empty(),
        }
    }

    /// The code identifier in its textual form.
    pub open spec fn code_id_text(&self) -> Option<Seq<char>> {
        match self.code_identifier {
            Some(id) => Some(id@),
            None => None,
        }
    }

    /// The debug identifier in its plain textual form.
    pub open spec fn debug_id_text(&self) -> Option<Seq<char>> {
        match self.debug_id {
            Some(id) => Some(id.text()),
            None => None,
        }
    }

    /// A module with the given debug file and debug identifier, and nothing
    /// else.
    pub fn new(debug_file: &str, debug_id: DebugId) -> (m: SimpleModule)
        ensures
            m.base_address is None,
            m.size is None,
            m.code_file is None,
            m.code_identifier is None,
            text_of(m.debug_file) == Some(debug_file@),
            m.debug_id == Some(debug_id),
            m.version is None,
    {
        SimpleModule {
            base_address: None,
            size: None,
            code_file: None,
            code_identifier: None,
            debug_file: Some(debug_file.to_owned()),
            debug_id: Some(debug_id),
            version: None,
        }
    }

    /// The address at which the module was loaded; zero where unknown.
    pub fn base_address(&self) -> (r: u64)
        ensures
            r == self.base_address.unwrap_or(0),
    {
        match self.base_address {
            Some(a) => a,
            None => 0,
        }
    }

    /// The size of the module in memory; zero where unknown.
    pub fn size(&self) -> (r: u64)
        ensures
            r == self.size.unwrap_or(0),
    {
        match self.size {
            Some(s) => s,
            None => 0,
        }
    }

    /// The name of the module's binary; empty where none was given.
    pub fn code_file(&self) -> (r: &str)
        ensures
            r@ == self.code_file_text(),
    {
        match &self.code_file {
            Some(s) => s.as_str(),
            None => {
                proof {
                    reveal_strlit("");
                }
                ""
            },
        }
    }

    /// The identifier of the module's binary.
    pub fn code_identifier(&self) -> (r: Option<CodeId>)
        ensures
            r is Some == self.code_identifier is Some,
            r matches Some(id) ==> id@ == self.code_identifier->0@,
    {
        match &self.code_identifier {
            Some(id) => Some(id.clone()),
            None => None,
        }
    }

    /// The name of the file that holds the module's debug information.
    pub fn debug_file(&self) -> (r: Option<&str>)
        ensures
            r is Some == self.debug_file is Some,
            r matches Some(s) ==> s@ == self.debug_file->0@,
    {
        match &self.debug_file {
            Some(s) => Some(s.as_str()),
            None => None,
        }
    }

    /// The identifier of the module's debug information.
    pub fn debug_identifier(&self) -> (r: Option<DebugId>)
        ensures
            r == self.debug_id,
    {
        self.debug_id
    }

    /// The version of the module.
    pub fn version(&self) -> (r: Option<&str>)
        ensures
            r is Some == self.version is Some,
            r matches Some(s) ==> s@ == self.version->0@,
    {
        match &self.version {
            Some(s) => Some(s.as_str()),
            None => None,
        }
    }
}

/// Identifies a module among those whose symbols were asked for: the name
/// of its binary, its code identifier, the name of its debug file and its
/// debug identifier, the identifiers in textual form.
pub struct ModuleKey {
    /// The name of the module's binary.
    pub code_file: String,
    /// The code identifier, in its textual form.
    pub code_id: Option<String>,
    /// The name of the module's debug file.
    pub debug_file: Option<String>,
    /// The debug identifier, in its plain textual form.
    pub debug_id: Option<String>,
}

impl View for ModuleKey {
    type V = (Seq<char>, Option<Seq<char>>, Option<Seq<char>>, Option<Seq<char>>);

    open spec fn view(&self) -> Self::V {
        (self.code_file@, text_of(self.code_id), text_of(self.debug_file), text_of(self.debug_id))
    }
}

/// The key of `module`, as a value.
pub open spec fn module_key_of(module: SimpleModule) -> (
    Seq<char>,
    Option<Seq<char>>,
    Option<Seq<char>>,
    Option<Seq<char>>,
) {
    (
        module.code_file_text(),
        module.code_id_text(),
        text_of(module.debug_file),
        module.debug_id_text(),
    )
}

/// The key that identifies `module`.
pub fn module_key(module: &SimpleModule) -> (key: ModuleKey)
    ensures
        key@ == module_key_of(*module),
{
    ModuleKey {
        code_file: module.code_file().to_owned(),
        code_id: match &module.code_identifier {
            Some(id) => Some(id.to_text()),
            None => None,
        },
        debug_file: match &module.debug_file {
            Some(s) => Some(s.clone()),
            None => None,
        },
        debug_id: match &module.debug_id {
            Some(id) => Some(id.to_text()),
            None => None,
        },
    }
}

/// Whether two texts that may be missing are the same.
fn same_text(a: &Option<String>, b: &Option<String>) -> (r: bool)
    ensures
        r == (text_of(*a) == text_of(*b)),
{
    match (a, b) {
        (Some(a), Some(b)) => str_eq(a.as_str(), b.as_str()),
        (None, None) => true,
        _ => false,
    }
}

impl Clone for ModuleKey {
    fn clone(&self) -> (r: Self)
        ensures
            r@ == self@,
    {
        ModuleKey {
            code_file: self.code_file.clone(),
            code_id: match &self.code_id {
                Some(s) => Some(s.clone()),
                None => None,
            },
            debug_file: match &self.debug_file {
                Some(s) => Some(s.clone()),
                None => None,
            },
            debug_id: match &self.debug_id {
                Some(s) => Some(s.clone()),
                None => None,
            },
        }
    }
}

impl ModuleKey {
    /// Whether two keys identify the same module: they do where all four
    /// parts are the same.
    pub fn same(&self, other: &ModuleKey) -> (r: bool)
        ensures
            r == (self@ == other@),
    {
        str_eq(self.code_file.as_str(), other.code_file.as_str()) && same_text(
            &self.code_id,
            &other.code_id,
        ) && same_text(&self.debug_file, &other.debug_file) && same_text(
            &self.debug_id,
            &other.debug_id,
        )
    }
}

} // verus!
