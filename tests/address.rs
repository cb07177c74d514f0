use rcheat::address::{get_base_addr, resolve_address, AddressError, ImageKind};
use rcheat::arith::ceil_to_multiple;

#[test]
fn func_get_base_addr() {
    let exe_abs_path = "/usr/bin/test1";
    let contents = "
00400000-004ac000 r-xp 00000000 08:02 8918620   /usr/bin/test1
006ab000-006ac000 r--p 000ab000 08:02 8918620   /usr/bin/test1
006ac000-006b2000 rw-p 000ac000 08:02 8918620   /usr/bin/test1
0092f000-00a9b000 rw-p 00000000 00:00 0         [heap]";
    assert_eq!(get_base_addr(contents, exe_abs_path).unwrap_or_default(), 0x400000);

    let exe_abs_path = "/usr/bin/test2";
    let contents = "
7fc5f7864000-7fc5f7874000 r-xp 00000000 08:02 8918670 /usr/lib64/libtest
7fc5f7874000-7fc5f7a73000 ---p 00010000 08:02 8918670 /usr/lib64/libtest";
    assert!(get_base_addr(contents, exe_abs_path).is_err());
}

#[test]
fn macro_ceil_to_multiple() {
    assert_eq!(ceil_to_multiple(66, 10), 70);
    assert_eq!(ceil_to_multiple(5, 8), 8);
    assert_eq!(ceil_to_multiple(6, 0), 6);
    assert_eq!(ceil_to_multiple(0, 4), 0);
}

#[test]
fn base_addr_only_nonzero_offsets_is_not_found() {
    let maps = "00400000-004ac000 r-xp 000ab000 08:02 1 /usr/bin/test2\n";
    assert_eq!(get_base_addr(maps, "/usr/bin/test2"), Err(AddressError::BaseNotFound));
}

#[test]
fn base_addr_first_matching_line_wins() {
    let maps = "7f00-7f10 r--p 00000000 08:02 1 /bin/other\n\
                55a0-55b0 r--p 00000000 08:02 2 /bin/app\n\
                66a0-66b0 r--p 00000000 08:02 2 /bin/app\n";
    assert_eq!(get_base_addr(maps, "/bin/app"), Ok(0x55a0));
}

#[test]
fn base_addr_path_must_match_exactly() {
    let maps = "55a0-55b0 r--p 00000000 08:02 2 /bin/app2\n";
    assert_eq!(get_base_addr(maps, "/bin/app"), Err(AddressError::BaseNotFound));
}

#[test]
fn base_addr_short_lines_are_skipped() {
    let maps = "55a0-55b0 r--p 00000000 08:02\n10-20 r--p 00000000 08:02 2 /bin/app";
    assert_eq!(get_base_addr(maps, "/bin/app"), Ok(0x10));
}

#[test]
fn base_addr_bad_range_errors() {
    let maps = "55a0 r--p 00000000 08:02 2 /bin/app\n";
    assert_eq!(get_base_addr(maps, "/bin/app"), Err(AddressError::MissingRangeSeparator));
    let maps = "55g0-55b0 r--p 00000000 08:02 2 /bin/app\n";
    assert_eq!(get_base_addr(maps, "/bin/app"), Err(AddressError::BadHexAddress));
    let maps = "1ffffffffffffffff-2 r--p 00000000 08:02 2 /bin/app\n";
    assert_eq!(get_base_addr(maps, "/bin/app"), Err(AddressError::BadHexAddress));
    let maps = "-2 r--p 00000000 08:02 2 /bin/app\n";
    assert_eq!(get_base_addr(maps, "/bin/app"), Err(AddressError::BadHexAddress));
}

#[test]
fn base_addr_upper_case_and_plus_sign() {
    let maps = "+7FAB-7fac r--p 00000000 08:02 2 /bin/app\n";
    assert_eq!(get_base_addr(maps, "/bin/app"), Ok(0x7fab));
    let maps = "ffffffffffffffff-0 r--p 00000000 08:02 2 /bin/app\n";
    assert_eq!(get_base_addr(maps, "/bin/app"), Ok(u64::MAX));
}

#[test]
fn fixed_address_is_unchanged() {
    assert_eq!(resolve_address(ImageKind::FixedAddress, 0x4010, "/bin/app", ""), Ok(0x4010));
}

#[test]
fn position_independent_adds_load_bias() {
    let maps = "7f0000000000-7f0000001000 r--p 00000000 08:02 77 /opt/app/bin\n\
                7f0000001000-7f0000002000 r-xp 00001000 08:02 77 /opt/app/bin\n";
    assert_eq!(
        resolve_address(ImageKind::PositionIndependent, 0x2010, "/opt/app/bin", maps),
        Ok(0x7f0000002010)
    );
}

#[test]
fn position_independent_without_base_fails() {
    assert_eq!(
        resolve_address(ImageKind::PositionIndependent, 0x2010, "/opt/app/bin", ""),
        Err(AddressError::BaseNotFound)
    );
}

#[test]
fn position_independent_overflow_fails() {
    let maps = "ffffffffffff0000-ffffffffffff1000 r--p 00000000 08:02 77 /opt/app/bin\n";
    assert_eq!(
        resolve_address(ImageKind::PositionIndependent, 0x10000, "/opt/app/bin", maps),
        Err(AddressError::Overflow)
    );
}

#[test]
fn unsupported_kind_fails() {
    assert_eq!(
        resolve_address(ImageKind::Unsupported(1), 0x10, "/opt/app/bin", ""),
        Err(AddressError::UnsupportedImageKind(1))
    );
}
