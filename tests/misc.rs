use rcheat::choice::{inquire_index, Inquiry};
use rcheat::dump::to_avl_ascii;
use rcheat::dwarf::{filter_die, follow_typedef_tag, infer_var_type, match_key, AttrRef, DieRecord, DieTag, DwarfError};
use rcheat::process::{check_pid, matched_pids_if_name_contains, PidError, ProcessAttr, ProcessError};

#[test]
fn inquiry_answers() {
    assert_eq!(inquire_index(Some("1\n"), 3), Inquiry::Chosen(1));
    assert_eq!(inquire_index(Some("\n"), 3), Inquiry::Chosen(0));
    assert_eq!(inquire_index(Some("  +2 \r\n"), 3), Inquiry::Chosen(2));
    assert_eq!(inquire_index(Some("7\n"), 3), Inquiry::OutOfRange(7));
    assert_eq!(inquire_index(Some("x1\n"), 3), Inquiry::Invalid);
    assert_eq!(inquire_index(Some("-1\n"), 3), Inquiry::Invalid);
    assert_eq!(inquire_index(Some("99999999999999999999999\n"), 3), Inquiry::Invalid);
    assert_eq!(inquire_index(None, 3), Inquiry::Exhausted);
    assert_eq!(inquire_index(Some("0"), 0), Inquiry::NoChoices);
}

#[test]
fn avl_ascii_colours() {
    assert_eq!(to_avl_ascii(b'A'), "\x1b[34mA\x1b[39m");
    assert_eq!(to_avl_ascii(0x07), "\x1b[90m.\x1b[39m");
    assert_eq!(to_avl_ascii(0x7f), "\x1b[90m.\x1b[39m");
}

#[test]
fn process_entry_from_proc_texts() {
    let a = ProcessAttr::try_new("1234", "/usr/bin/app\0--flag\0", "Name:\tapp\nUmask:\t0022\n").unwrap();
    assert_eq!(a.pid, 1234);
    assert_eq!(a.cmdline, "/usr/bin/app --flag");
    assert_eq!(a.status_name(), "app");
    assert_eq!(ProcessAttr::try_new("self", "", "Name:\tx\n"), Err(ProcessError::NotAPid));
    assert_eq!(ProcessAttr::try_new("12", "", ""), Err(ProcessError::EmptyStatus));
    let b = ProcessAttr::try_new("-7", "", "NoColon\n").unwrap();
    assert_eq!(b.pid, -7);
    assert_eq!(b.status_name(), "");
    assert_eq!(ProcessAttr::try_new("2147483648", "", "Name: x"), Err(ProcessError::NotAPid));
}

#[test]
fn process_name_filter() {
    let procs = vec![
        ProcessAttr::try_new("10", "/bin/game\0", "Name:\tgame\n").unwrap(),
        ProcessAttr::try_new("11", "", "Name:\tgame_kthread\n").unwrap(),
        ProcessAttr::try_new("12", "/bin/editor\0", "Name:\teditor\n").unwrap(),
        ProcessAttr::try_new("13", "/bin/game2\0", "Name:\tmygame2\n").unwrap(),
    ];
    assert_eq!(matched_pids_if_name_contains(&procs, "game"), vec![0, 3]);
    assert_eq!(matched_pids_if_name_contains(&procs, ""), vec![0, 2, 3]);
    assert_eq!(matched_pids_if_name_contains(&procs, "zzz"), Vec::<usize>::new());
}

fn die(offset: usize, tag: DieTag, name: Option<&str>, linkage: Option<&str>, ty: AttrRef) -> DieRecord {
    DieRecord {
        offset,
        tag,
        name: name.map(String::from),
        linkage_name: linkage.map(String::from),
        type_ref: ty,
        specification: AttrRef::Absent,
    }
}

#[test]
fn dwarf_follows_typedefs_to_real_type() {
    let dies = vec![
        die(0x10, DieTag::Other, Some("int"), None, AttrRef::Absent),
        die(0x20, DieTag::Typedef, Some("myint"), None, AttrRef::Unit(0x10)),
        die(0x30, DieTag::Typedef, Some("alias"), None, AttrRef::Unit(0x20)),
        die(0x40, DieTag::Variable, Some("counter"), None, AttrRef::Unit(0x30)),
        die(0x50, DieTag::Variable, Some("plain"), Some("_ZL5plain"), AttrRef::Unit(0x10)),
    ];
    assert_eq!(filter_die(&dies, &match_key("counter", None, true)), Ok(0x10));
    assert_eq!(filter_die(&dies, &match_key("plain", Some("_ZL5plain"), false)), Ok(0x10));
    assert_eq!(filter_die(&dies, &match_key("missing", None, true)), Err(DwarfError::NoMatch));
    assert_eq!(follow_typedef_tag(&dies, 0x30), Ok(0x10));
}

#[test]
fn dwarf_typedef_cycle_is_capped() {
    let dies = vec![
        die(0x20, DieTag::Typedef, Some("a"), None, AttrRef::Unit(0x30)),
        die(0x30, DieTag::Typedef, Some("b"), None, AttrRef::Unit(0x20)),
        die(0x40, DieTag::Variable, Some("v"), None, AttrRef::Unit(0x20)),
        die(0x50, DieTag::Typedef, Some("voidish"), None, AttrRef::Absent),
    ];
    assert_eq!(filter_die(&dies, &match_key("v", None, true)), Err(DwarfError::TooDeep));
    assert_eq!(follow_typedef_tag(&dies, 0x50), Err(DwarfError::BadTypedef));
}

#[test]
fn pid_bounds() {
    assert_eq!(check_pid(1234, 4194304), Ok(1234));
    assert_eq!(check_pid(4194304, 4194304), Ok(4194304));
    assert_eq!(check_pid(4194305, 4194304), Err(PidError::AbovePidMax(4194304)));
    assert_eq!(check_pid(1, 4194304), Err(PidError::Illegal));
    assert_eq!(check_pid(-3, 4194304), Err(PidError::Illegal));
}

#[test]
fn dwarf_types_across_units() {
    let first = vec![die(0x10, DieTag::Variable, Some("other"), None, AttrRef::Unit(0x20))];
    let second = vec![
        die(0x08, DieTag::Other, Some("struct s"), None, AttrRef::Absent),
        die(0x18, DieTag::Typedef, Some("s_t"), None, AttrRef::Unit(0x08)),
        die(0x28, DieTag::Variable, Some("state"), Some("_ZL5state"), AttrRef::OtherForm),
        die(0x38, DieTag::Variable, Some("state"), None, AttrRef::Unit(0x18)),
    ];
    let third = vec![DieRecord {
        offset: 0x40,
        tag: DieTag::Variable,
        name: Some("state".to_string()),
        linkage_name: None,
        type_ref: AttrRef::Absent,
        specification: AttrRef::Unit(0x50),
    }];
    let units = vec![first, second, third];
    assert_eq!(infer_var_type(&units, &match_key("state", Some("_ZL5state"), true)), vec![0x08, 0x50]);
    assert_eq!(infer_var_type(&units, &match_key("state", Some("_ZL5state"), false)), Vec::<usize>::new());
}
