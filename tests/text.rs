use temperature_parser::naming::{core_file_name, get_new_fname};
use temperature_parser::text::{is_whitespace, split_tokens};

#[test]
fn tokens_split_on_any_whitespace() {
    let t = split_tokens("  1.5\t-2 \n3e2\r\n\u{a0}4\u{3000}x ");
    assert_eq!(t, vec!["1.5", "-2", "3e2", "4", "x"]);
    assert!(split_tokens("").is_empty());
    assert!(split_tokens(" \n ").is_empty());
}

#[test]
fn whitespace_matches_std() {
    for u in 0u32..0x3100 {
        if let Some(c) = char::from_u32(u) {
            assert_eq!(is_whitespace(c), c.is_whitespace());
        }
    }
}

#[test]
fn core_file_names() {
    assert_eq!(core_file_name("temps", 0), "temps-core-0.txt");
    assert_eq!(core_file_name("abc", 12), "abc-core-12.txt");
}

#[test]
fn new_file_name_beside_input() {
    assert_eq!(get_new_fname("/tmp/data/temps.txt", 2).unwrap(), "/tmp/data/temps-core-2.txt");
    assert_eq!(get_new_fname("temps.txt", 0).unwrap(), "temps-core-0.txt");
    assert_eq!(get_new_fname("dir/archive.tar.gz", 3).unwrap(), "dir/archive.tar-core-3.txt");
    assert_eq!(get_new_fname("/", 0), None);
}
