use umanux::MyMessage;
use umanux::UserLibError;
use umanux::numbers::digit_of;
use umanux::numbers::is_digit_char;
use umanux::numbers::parse_u32;
use umanux::numbers::parse_u64;
use umanux::numbers::u32_to_string;
use umanux::numbers::u64_to_string;
use umanux::text::join_strs;
use umanux::text::remove_line;
use umanux::text::split_str;
use umanux::text::str_eq;
use umanux::text::trimmed;
use umanux::api::CreateHome;
use umanux::api::CreateUserArgs;
use umanux::api::DeleteHome;
use umanux::api::DeletePrimaryGroup;
use umanux::api::DeleteUserArgs;
use umanux::api::NewUserArgs;

#[test]
fn decimal_parse_and_format() {
    assert_eq!(parse_u32("0"), Some(0));
    assert_eq!(parse_u32("1001"), Some(1001));
    assert_eq!(parse_u32("004"), Some(4));
    assert_eq!(parse_u32("4294967295"), Some(u32::MAX));
    assert_eq!(parse_u32("4294967296"), None);
    assert_eq!(parse_u32(""), None);
    assert_eq!(parse_u32("12x"), None);
    assert_eq!(parse_u32("-1"), None);
    assert_eq!(parse_u64("18446744073709551615"), Some(u64::MAX));
    assert_eq!(parse_u64("18446744073709551616"), None);
    assert_eq!(u32_to_string(0), "0");
    assert_eq!(u32_to_string(18260), "18260");
    assert_eq!(u32_to_string(u32::MAX), "4294967295");
    assert_eq!(u64_to_string(u64::MAX), "18446744073709551615");
    assert!(is_digit_char('7'));
    assert!(!is_digit_char(':'));
    assert_eq!(digit_of('9'), 9);
}

#[test]
fn splitting_and_joining() {
    let parts = split_str("a:b::c", ':');
    assert_eq!(parts, vec!["a", "b", "", "c"]);
    assert_eq!(join_strs(&parts, ":"), "a:b::c");
    let single = split_str("abc", ':');
    assert_eq!(single, vec!["abc"]);
    let empty = split_str("", ':');
    assert_eq!(empty, vec![""]);
    assert_eq!(join_strs(&Vec::new(), ":"), "");
}

#[test]
fn string_comparison_and_trim() {
    assert!(str_eq("abc", "abc"));
    assert!(!str_eq("abc", "abd"));
    assert!(!str_eq("abc", "ab"));
    assert_eq!(trimmed("  123\n"), "123");
    assert_eq!(trimmed("123\u{0}\u{0}"), "123");
    assert_eq!(trimmed(" \t\r\n"), "");
    assert_eq!(trimmed("x"), "x");
}

#[test]
fn line_removal_is_exact() {
    assert_eq!(remove_line("a\nvictim\nb", "victim"), "a\nb");
    assert_eq!(remove_line("victim\na\nvictim", "victim"), "a");
    assert_eq!(remove_line("a\nb\n", "b"), "a\n");
    assert_eq!(remove_line("a\nbb\nc", "b"), "a\nbb\nc");
}

#[test]
fn error_messages_render() {
    assert_eq!(UserLibError::NotFound.message(), "not found");
    assert_eq!(UserLibError::ParseError.message(), "failed to parse");
    assert_eq!(
        UserLibError::FilesChanged.message(),
        "The files changed. Updating could lead to conflict aborting."
    );
    assert_eq!(
        UserLibError::FilesRequired.message(),
        "File locking is only possible if some files are specified"
    );
    assert_eq!(UserLibError::from("boom").message(), "boom");
    let with_cause = UserLibError::from_io("Failed to write".to_owned(), "disk full".to_owned());
    assert_eq!(with_cause.message(), "Failed to write,disk full");
    assert_eq!(
        UserLibError::Message(MyMessage::Simple("x".to_owned())),
        UserLibError::from("x")
    );
    assert_ne!(UserLibError::from("x"), UserLibError::from("y"));
    assert_ne!(UserLibError::NotFound, UserLibError::ParseError);
}

#[test]
fn builders_fill_defaults() {
    let create = CreateUserArgs::builder().username("alice").build().unwrap();
    assert_eq!(create.username, "alice");
    assert!(matches!(create.delete_home, CreateHome::Create));
    let create_default = CreateUserArgs::builder().build().unwrap();
    assert_eq!(create_default.username, "defaultuser");

    let delete = DeleteUserArgs::builder()
        .username("bob")
        .delete_home(DeleteHome::Delete)
        .build()
        .unwrap();
    assert_eq!(delete.username, "bob");
    assert!(matches!(delete.delete_home, DeleteHome::Delete));
    assert!(matches!(delete.delete_primary_group, DeletePrimaryGroup::DeleteIfEmpty));

    let new_args = NewUserArgs::builder().username("carol").build().unwrap();
    assert_eq!(new_args.username, "carol");
}
