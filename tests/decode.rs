use extattr::{
    entries_are_well_formed, finish_nul_list, finish_prefixed_list, parse_ea_entries,
    split_nul_names, Errno,
};

fn bytes_of(names: &[&str]) -> Vec<Vec<u8>> {
    names.iter().map(|n| n.as_bytes().to_vec()).collect()
}

#[test]
fn test_parse_ea_entries() {
    let list = "\x08attrname\x0fanotherattrname";
    let ret = parse_ea_entries(list.as_bytes());

    assert_eq!(bytes_of(&["attrname", "anotherattrname"]), ret);
}

#[test]
fn parse_ea_entries_of_nothing_is_empty() {
    assert!(parse_ea_entries(&[]).is_empty());
}

#[test]
fn parse_ea_entries_keeps_empty_names() {
    let ret = parse_ea_entries(&[0, 2, b'a', b'b', 0]);
    assert_eq!(vec![vec![], b"ab".to_vec(), vec![]], ret);
}

#[test]
fn parse_ea_entries_takes_the_longest_name() {
    let name = vec![b'x'; 255];
    let mut list = vec![255u8];
    list.extend_from_slice(&name);
    list.extend_from_slice(&[1, b'y']);
    assert_eq!(vec![name, b"y".to_vec()], parse_ea_entries(&list));
}

#[test]
fn entry_list_well_formedness() {
    assert!(entries_are_well_formed(b""));
    assert!(entries_are_well_formed(b"\x08attrname\x0fanotherattrname"));
    assert!(entries_are_well_formed(b"\x00"));
    assert!(!entries_are_well_formed(b"\x05ab"));
    assert!(!entries_are_well_formed(b"\x02ab\x03c"));
    assert!(!entries_are_well_formed(b"\x01"));
}

#[test]
fn split_nul_names_in_kernel_order() {
    let ret = split_nul_names(b"user.b\0user.a\0security.selinux\0");
    assert_eq!(bytes_of(&["user.b", "user.a", "security.selinux"]), ret);
}

#[test]
fn split_nul_names_of_nothing_is_empty() {
    assert!(split_nul_names(b"").is_empty());
}

#[test]
fn split_nul_names_keeps_empty_pieces() {
    assert_eq!(bytes_of(&["a", "", "b"]), split_nul_names(b"a\0\0b\0"));
    assert_eq!(bytes_of(&[""]), split_nul_names(b"\0"));
}

#[test]
fn split_nul_names_drops_only_the_final_byte() {
    assert_eq!(bytes_of(&["user.x"]), split_nul_names(b"user.x\0"));
    assert_eq!(bytes_of(&["user.", ""]), split_nul_names(b"user.\0x"));
}

#[test]
fn finish_nul_list_decodes_the_filled_part() {
    let buffer = b"user.color\0user.size\0".to_vec();
    let ret = finish_nul_list(buffer, Ok(11));
    assert_eq!(Ok(bytes_of(&["user.color"])), ret);
}

#[test]
fn finish_nul_list_passes_the_error_on() {
    let ret = finish_nul_list(vec![0; 8], Err(Errno(34)));
    assert_eq!(Err(Errno(34)), ret);
}

#[test]
fn finish_prefixed_list_decodes_the_filled_part() {
    let buffer = b"\x03abc\x02de\x07garbage".to_vec();
    let ret = finish_prefixed_list(buffer, Ok(7));
    assert_eq!(Ok(bytes_of(&["abc", "de"])), ret);
}

#[test]
fn finish_prefixed_list_passes_the_error_on() {
    let ret = finish_prefixed_list(vec![0; 3], Err(Errno(7)));
    assert_eq!(Err(Errno(7)), ret);
}

#[test]
fn nul_list_decodes_back_to_its_buffer() {
    let buffer = b"user.color\0\0trusted.x\0".to_vec();
    let mut encoded = Vec::new();
    for name in split_nul_names(&buffer) {
        encoded.extend_from_slice(&name);
        encoded.push(0);
    }
    assert_eq!(buffer, encoded);
}

#[test]
fn entry_list_decodes_back_to_its_buffer() {
    let buffer = b"\x08attrname\x00\x0fanotherattrname".to_vec();
    let mut encoded = Vec::new();
    for name in parse_ea_entries(&buffer) {
        encoded.push(name.len() as u8);
        encoded.extend_from_slice(&name);
    }
    assert_eq!(buffer, encoded);
}
