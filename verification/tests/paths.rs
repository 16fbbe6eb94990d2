use breakpad_symbols::ident::{CodeId, DebugId};
use breakpad_symbols::lookup::{
    binary_lookup, breakpad_sym_lookup, extra_debuginfo_lookup, lookup, moz_lookup, FileKind,
};
use breakpad_symbols::module::{module_key, SimpleModule};
use breakpad_symbols::text::{leafname, replace_extension_given, replace_or_add_extension, str_eq};
use std::str::FromStr;

fn debug_id(text: &str) -> DebugId {
    let id = debugid::DebugId::from_str(text).unwrap();
    assert!(!id.is_pdb20());
    DebugId::Uuid { uuid: id.uuid().as_u128(), appendix: id.appendix() }
}

#[test]
fn test_leafname() {
    assert_eq!(leafname("c:\\foo\\bar\\test.pdb"), "test.pdb");
    assert_eq!(leafname("c:/foo/bar/test.pdb"), "test.pdb");
    assert_eq!(leafname("test.pdb"), "test.pdb");
    assert_eq!(leafname("test"), "test");
    assert_eq!(leafname("/path/to/test"), "test");
}

#[test]
fn test_replace_or_add_extension() {
    assert_eq!(
        replace_or_add_extension("test.pdb", "pdb", "sym"),
        "test.sym"
    );
    assert_eq!(
        replace_or_add_extension("TEST.PDB", "pdb", "sym"),
        "TEST.sym"
    );
    assert_eq!(replace_or_add_extension("test", "pdb", "sym"), "test.sym");
    assert_eq!(
        replace_or_add_extension("test.x", "pdb", "sym"),
        "test.x.sym"
    );
    assert_eq!(replace_or_add_extension("", "pdb", "sym"), ".sym");
    assert_eq!(replace_or_add_extension("test.x", "x", "y"), "test.y");
}

#[test]
fn test_relative_symbol_path() {
    let debug_id = debug_id("abcd1234-abcd-1234-abcd-abcd12345678-a");
    let m = SimpleModule::new("foo.pdb", debug_id);
    assert_eq!(
        breakpad_sym_lookup(&m).unwrap().cache_rel(),
        "foo.pdb/ABCD1234ABCD1234ABCDABCD12345678a/foo.sym"
    );

    let m2 = SimpleModule::new("foo.pdb", debug_id);
    assert_eq!(
        breakpad_sym_lookup(&m2).unwrap().cache_rel(),
        "foo.pdb/ABCD1234ABCD1234ABCDABCD12345678a/foo.sym"
    );

    let m3 = SimpleModule::new("foo.xyz", debug_id);
    assert_eq!(
        breakpad_sym_lookup(&m3).unwrap().cache_rel(),
        "foo.xyz/ABCD1234ABCD1234ABCDABCD12345678a/foo.xyz.sym"
    );

    let m4 = SimpleModule::new("foo.xyz", debug_id);
    assert_eq!(
        breakpad_sym_lookup(&m4).unwrap().cache_rel(),
        "foo.xyz/ABCD1234ABCD1234ABCDABCD12345678a/foo.xyz.sym"
    );

    let bad = SimpleModule::default();
    assert!(breakpad_sym_lookup(&bad).is_none());

    let bad2 = SimpleModule {
        debug_file: Some("foo".to_string()),
        ..SimpleModule::default()
    };
    assert!(breakpad_sym_lookup(&bad2).is_none());

    let bad3 = SimpleModule {
        debug_id: Some(debug_id),
        ..SimpleModule::default()
    };
    assert!(breakpad_sym_lookup(&bad3).is_none());
}

#[test]
fn test_relative_symbol_path_abs_paths() {
    let debug_id = debug_id("abcd1234-abcd-1234-abcd-abcd12345678-a");
    {
        let m = SimpleModule::new("/path/to/foo.bin", debug_id);
        assert_eq!(
            breakpad_sym_lookup(&m).unwrap().cache_rel(),
            "foo.bin/ABCD1234ABCD1234ABCDABCD12345678a/foo.bin.sym"
        );
    }

    {
        let m = SimpleModule::new("c:/path/to/foo.pdb", debug_id);
        assert_eq!(
            breakpad_sym_lookup(&m).unwrap().cache_rel(),
            "foo.pdb/ABCD1234ABCD1234ABCDABCD12345678a/foo.sym"
        );
    }

    {
        let m = SimpleModule::new("c:\\path\\to\\foo.pdb", debug_id);
        assert_eq!(
            breakpad_sym_lookup(&m).unwrap().cache_rel(),
            "foo.pdb/ABCD1234ABCD1234ABCDABCD12345678a/foo.sym"
        );
    }
}

#[test]
fn leafname_of_edge_cases() {
    assert_eq!(leafname(""), "");
    assert_eq!(leafname("dir/"), "");
    assert_eq!(leafname("a\\b/c"), "c");
    assert_eq!(leafname("a/b\\c"), "c");
    assert_eq!(leafname("/p\u{e9}/na\u{ef}ve.pdb"), "na\u{ef}ve.pdb");
}

#[test]
fn extension_is_matched_by_its_lower_case_form() {
    assert_eq!(replace_or_add_extension("a.b.PdB", "pdb", "sym"), "a.b.sym");
    assert_eq!(replace_or_add_extension("foo.", "", "sym"), "foo.sym");
    assert_eq!(replace_or_add_extension("pdb", "pdb", "sym"), "pdb.sym");
    assert_eq!(replace_or_add_extension(".pdb", "pdb", "sym"), ".sym");
    // The extension is lowered, the pattern is not.
    assert_eq!(replace_or_add_extension("x.pdb", "PDB", "sym"), "x.pdb.sym");
}

#[test]
fn extension_given_its_lower_case_form() {
    assert_eq!(replace_extension_given("T.PDB", "pdb", "pdb", "sym"), "T.sym");
    assert_eq!(replace_extension_given("T.PDB", "PDB", "pdb", "sym"), "T.PDB.sym");
    assert_eq!(replace_extension_given("pdb", "pdb", "pdb", "sym"), "pdb.sym");
}

#[test]
fn texts_compare_by_their_characters() {
    assert!(str_eq("", ""));
    assert!(str_eq("na\u{ef}ve", "na\u{ef}ve"));
    assert!(!str_eq("abc", "abd"));
    assert!(!str_eq("abc", "ab"));
}

#[test]
fn debug_id_texts() {
    let id = debug_id("abcd1234-abcd-1234-abcd-abcd12345678-a");
    assert_eq!(id.breakpad(), "ABCD1234ABCD1234ABCDABCD12345678a");
    assert_eq!(id.to_text(), "abcd1234-abcd-1234-abcd-abcd12345678-a");
    let plain = DebugId::Uuid { uuid: 0x0123456789abcdef0123456789abcdef, appendix: 0 };
    assert_eq!(plain.breakpad(), "0123456789ABCDEF0123456789ABCDEF0");
    assert_eq!(plain.to_text(), "01234567-89ab-cdef-0123-456789abcdef");
    let aged = DebugId::Uuid { uuid: 1, appendix: 0x1f };
    assert_eq!(aged.breakpad(), "000000000000000000000000000000011f");
    assert_eq!(aged.to_text(), "00000000-0000-0000-0000-000000000001-1f");
    let old = DebugId::Pdb20 { timestamp: 0x00ab_cdef, appendix: 0x2b };
    assert_eq!(old.breakpad(), "00ABCDEF2b");
    assert_eq!(old.to_text(), "00ABCDEF-2b");
    let old_plain = DebugId::Pdb20 { timestamp: 0xffff_ffff, appendix: 0 };
    assert_eq!(old_plain.breakpad(), "FFFFFFFF0");
    assert_eq!(old_plain.to_text(), "FFFFFFFF");
}

#[test]
fn code_id_keeps_lower_case_hex_digits() {
    assert_eq!(CodeId::new("5A98-32E5 g".to_string()).as_str(), "5a9832e5");
    assert_eq!(CodeId::new(String::new()).as_str(), "");
    assert_eq!(CodeId::new("xyz".to_string()).to_text(), "");
}

#[test]
fn lookups_for_the_other_kinds() {
    let id = debug_id("abcd1234-abcd-1234-abcd-abcd12345678-a");
    let mut m = SimpleModule::new("c:\\sym\\foo.pdb", id);
    assert!(binary_lookup(&m).is_none());
    let extra = extra_debuginfo_lookup(&m).unwrap();
    assert_eq!(extra.cache_rel(), "foo.pdb/ABCD1234ABCD1234ABCDABCD12345678a/foo.pdb");
    assert_eq!(extra.server_rel(), extra.cache_rel());

    m.code_file = Some("c:\\bin\\foo.dll".to_string());
    m.code_identifier = Some(CodeId::new("5EA1F00D12000".to_string()));
    let binary = binary_lookup(&m).unwrap();
    assert_eq!(binary.cache_rel(), "foo.pdb/ABCD1234ABCD1234ABCDABCD12345678a/foo.dll");
    assert_eq!(binary.server_rel(), "foo.dll/5ea1f00d12000/foo.dll");

    assert_eq!(
        lookup(&m, FileKind::BreakpadSym).unwrap().cache_rel(),
        "foo.pdb/ABCD1234ABCD1234ABCDABCD12345678a/foo.sym"
    );
    assert_eq!(lookup(&m, FileKind::Binary).unwrap().server_rel(), "foo.dll/5ea1f00d12000/foo.dll");
    assert_eq!(
        lookup(&m, FileKind::ExtraDebugInfo).unwrap().server_rel(),
        "foo.pdb/ABCD1234ABCD1234ABCDABCD12345678a/foo.pdb"
    );

    // Without a name for the binary its leaf is empty.
    m.code_file = None;
    let unnamed = binary_lookup(&m).unwrap();
    assert_eq!(unnamed.cache_rel(), "foo.pdb/ABCD1234ABCD1234ABCDABCD12345678a/");
    assert_eq!(unnamed.server_rel(), "/5ea1f00d12000/");
    m.debug_id = None;
    assert!(binary_lookup(&m).is_none());
    assert!(extra_debuginfo_lookup(&m).is_none());
}

#[test]
fn moz_lookup_replaces_the_last_character() {
    let id = debug_id("abcd1234-abcd-1234-abcd-abcd12345678-a");
    let mut m = SimpleModule::new("foo.pdb", id);
    m.code_file = Some("foo.dll".to_string());
    m.code_identifier = Some(CodeId::new("5EA1F00D12000".to_string()));
    let moz = moz_lookup(binary_lookup(&m).unwrap());
    assert_eq!(moz.cache_rel(), "foo.pdb/ABCD1234ABCD1234ABCDABCD12345678a/foo.dll");
    assert_eq!(moz.server_rel(), "foo.dll/5ea1f00d12000/foo.dl_");
    let sym = moz_lookup(breakpad_sym_lookup(&m).unwrap());
    assert_eq!(sym.server_rel(), "foo.pdb/ABCD1234ABCD1234ABCDABCD12345678a/foo.sy_");
    assert_eq!(sym.cache_rel(), "foo.pdb/ABCD1234ABCD1234ABCDABCD12345678a/foo.sym");
}

#[test]
fn simple_module_accessors() {
    let empty = SimpleModule::default();
    assert_eq!(empty.base_address(), 0);
    assert_eq!(empty.size(), 0);
    assert_eq!(empty.code_file(), "");
    assert!(empty.code_identifier().is_none());
    assert!(empty.debug_file().is_none());
    assert!(empty.debug_identifier().is_none());
    assert!(empty.version().is_none());

    let id = debug_id("abcd1234-abcd-1234-abcd-abcd12345678-a");
    let m = SimpleModule {
        base_address: Some(0x4000),
        size: Some(0x200),
        code_file: Some("foo.dll".to_string()),
        code_identifier: Some(CodeId::new("AB12".to_string())),
        version: Some("1.2".to_string()),
        ..SimpleModule::new("foo.pdb", id)
    };
    assert_eq!(m.base_address(), 0x4000);
    assert_eq!(m.size(), 0x200);
    assert_eq!(m.code_file(), "foo.dll");
    assert_eq!(m.code_identifier().unwrap().as_str(), "ab12");
    assert_eq!(m.debug_file(), Some("foo.pdb"));
    assert_eq!(m.debug_identifier(), Some(id));
    assert_eq!(m.version(), Some("1.2"));
}

#[test]
fn module_key_holds_the_four_parts() {
    let id = debug_id("abcd1234-abcd-1234-abcd-abcd12345678-a");
    let mut m = SimpleModule::new("foo.pdb", id);
    let key = module_key(&m);
    assert_eq!(key.code_file, "");
    assert_eq!(key.code_id, None);
    assert_eq!(key.debug_file, Some("foo.pdb".to_string()));
    assert_eq!(key.debug_id, Some("abcd1234-abcd-1234-abcd-abcd12345678-a".to_string()));

    m.code_file = Some("/bin/foo".to_string());
    m.code_identifier = Some(CodeId::new("C0FFEE".to_string()));
    let key = module_key(&m);
    assert_eq!(key.code_file, "/bin/foo");
    assert_eq!(key.code_id, Some("c0ffee".to_string()));
}
