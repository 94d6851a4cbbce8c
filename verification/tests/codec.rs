use umanux::Gecos;
use umanux::Group;
use umanux::Shadow;
use umanux::User;
use umanux::UserLibError;
use umanux::Username;
use umanux::passwd::Passwd;
use umanux::user::passwd_fields::Gid;
use umanux::user::passwd_fields::Uid;

#[test]
fn mod_test_parse_and_back_identity() {
    let line = "teste:x:1002:test,teste";
    let line2: Group = Group::new_from_string(line.to_owned(), 0).unwrap();
    assert_eq!(line2.to_line(), line);
}

#[test]
fn test_groupname() {
    let line = "teste:x:1002:test,teste";
    let line2 = Group::new_from_string(line.to_owned(), 0).unwrap();
    assert_eq!(line2.get_groupname().unwrap(), "teste");
}

#[test]
fn test_root_group() {
    let line = "root:x:0:";
    let line2 = Group::new_from_string(line.to_owned(), 0).unwrap();
    assert_eq!(line2.get_groupname().unwrap(), "root");
}

#[test]
fn passwd_test_username_validation() {
    // Failing cases.
    let umlauts = Username::try_from("täst".to_owned());
    assert_eq!(Err(UserLibError::from("Invalid username täst")), umlauts);
    let number_first = Username::try_from("11elf".to_owned());
    assert_eq!(Err(UserLibError::from("Invalid username 11elf")), number_first);
    let slashes = Username::try_from("test/name".to_owned());
    assert_eq!(Err(UserLibError::from("Invalid username test/name")), slashes);
    let long = Username::try_from("aaaaaaaaaaaaaaaaaaaaaaaaaaaaaaaaa".to_owned());
    assert_eq!(
        Err(UserLibError::from(
            "Invalid username aaaaaaaaaaaaaaaaaaaaaaaaaaaaaaaaa"
        )),
        long
    );
    // Working cases.
    let ubuntu_exception = Username::try_from("Debian-exim".to_owned());
    assert_eq!(ubuntu_exception.unwrap().username, "Debian-exim");
    let single = Username::try_from("t".to_owned());
    assert_eq!(single.unwrap().username, "t");
    let normal = Username::try_from("superman".to_owned());
    assert_eq!(normal.unwrap().username, "superman");
    let normal = Username::try_from("anna3pete".to_owned());
    assert_eq!(normal.unwrap().username, "anna3pete");
    let normal = Username::try_from("enya$".to_owned());
    assert_eq!(normal.unwrap().username, "enya$");
}

#[test]
fn passwd_fields_test_username_validation() {
    let umlauts = Username::try_from("täst".to_owned());
    assert_eq!(Err(UserLibError::from("Invalid username täst")), umlauts);
    let number_first = Username::try_from("11elf".to_owned());
    assert_eq!(Err(UserLibError::from("Invalid username 11elf")), number_first);
    let slashes = Username::try_from("test/name".to_owned());
    assert_eq!(Err(UserLibError::from("Invalid username test/name")), slashes);
    let long = Username::try_from("aaaaaaaaaaaaaaaaaaaaaaaaaaaaaaaaa".to_owned());
    assert_eq!(
        Err(UserLibError::from(
            "Invalid username aaaaaaaaaaaaaaaaaaaaaaaaaaaaaaaaa"
        )),
        long
    );
    let ubuntu_exception = Username::try_from("Debian-exim".to_owned());
    assert_eq!(ubuntu_exception.unwrap().username, "Debian-exim");
    let single = Username::try_from("t".to_owned());
    assert_eq!(single.unwrap().username, "t");
    let normal = Username::try_from("superman".to_owned());
    assert_eq!(normal.unwrap().username, "superman");
    let normal = Username::try_from("anna3pete".to_owned());
    assert_eq!(normal.unwrap().username, "anna3pete");
    let normal = Username::try_from("enya$".to_owned());
    assert_eq!(normal.unwrap().username, "enya$");
}

#[test]
fn passwd_test_default_user() {
    let pwd = Passwd::default();
    assert_eq!(pwd.username.username, "defaultuser");
    assert_eq!(pwd.home_dir.dir, "/home/default");
    assert_eq!(pwd.uid.uid, 1001);
}

#[test]
fn passwd_test_parse_gecos() {
    let gcdetail = "Full Name,504,11345342,ä1-2312,myemail@test.com".to_string();
    let gcsimple = "A böring comment →".to_string();
    let gc_no_other = "systemd Network Management,,,".to_string();
    let res_detail = Gecos::try_from(gcdetail).unwrap();
    let res_simple = Gecos::try_from(gcsimple).unwrap();
    let res_no_other = Gecos::try_from(gc_no_other).unwrap();
    match res_simple {
        Gecos::Simple { comment } => assert_eq!(comment, "A böring comment →"),
        _ => panic!("expected the simple form"),
    }
    match res_detail {
        Gecos::Detail {
            full_name,
            room,
            phone_work,
            phone_home,
            other,
        } => {
            assert_eq!(full_name, "Full Name");
            assert_eq!(room, "504");
            assert_eq!(phone_work, "11345342");
            assert_eq!(phone_home, "ä1-2312");
            assert_eq!(other.unwrap()[0], "myemail@test.com");
        }
        _ => panic!("expected the detailed form"),
    }
    match res_no_other {
        Gecos::Detail {
            full_name,
            room,
            phone_work,
            phone_home,
            other,
        } => {
            assert_eq!(full_name, "systemd Network Management");
            assert_eq!(room, "");
            assert_eq!(phone_work, "");
            assert_eq!(phone_home, "");
            assert_eq!(other, None);
        }
        _ => panic!("expected the detailed form"),
    }
}

#[test]
fn gecos_fields_test_parse_gecos() {
    let gcdetail = "Full Name,504,11345342,ä1-2312,myemail@test.com".to_string();
    let gcsimple = "A böring comment →".to_string();
    let gc_no_other = "systemd Network Management,,,".to_string();
    let res_detail = Gecos::try_from(gcdetail).unwrap();
    let res_simple = Gecos::try_from(gcsimple).unwrap();
    let res_no_other = Gecos::try_from(gc_no_other).unwrap();
    match res_simple {
        Gecos::Simple { comment } => assert_eq!(comment, "A böring comment →"),
        _ => panic!("expected the simple form"),
    }
    match res_detail {
        Gecos::Detail {
            full_name,
            room,
            phone_work,
            phone_home,
            other,
        } => {
            assert_eq!(full_name, "Full Name");
            assert_eq!(room, "504");
            assert_eq!(phone_work, "11345342");
            assert_eq!(phone_home, "ä1-2312");
            assert_eq!(other.unwrap()[0], "myemail@test.com");
        }
        _ => panic!("expected the detailed form"),
    }
    match res_no_other {
        Gecos::Detail { other, .. } => {
            assert_eq!(other, None);
        }
        _ => panic!("expected the detailed form"),
    }
}

#[test]
fn passwd_test_gecos_getters() {
    let gcdetail = "Full Name,504,11345342,ä1-2312,myemail@test.com".to_string();
    let gcsimple = "A böring comment →".to_string();
    let gc_no_other = "systemd Network Management,,,".to_string();
    let res_detail = Gecos::try_from(gcdetail).unwrap();
    let res_simple = Gecos::try_from(gcsimple).unwrap();
    let res_no_other = Gecos::try_from(gc_no_other).unwrap();
    assert_eq!(res_simple.get_comment(), Some("A böring comment →"));

    assert_eq!(res_detail.get_comment(), None);
    println!("{:?}", res_detail);
    assert_eq!(res_detail.get_full_name(), Some("Full Name"));
    assert_eq!(res_detail.get_room(), Some("504"));
    assert_eq!(res_detail.get_phone_work(), Some("11345342"));
    assert_eq!(res_detail.get_phone_home(), Some("ä1-2312"));
    assert_eq!(res_detail.get_other(), Some(&vec!["myemail@test.com".to_string()]));

    assert_eq!(res_no_other.get_full_name(), Some("systemd Network Management"));
    assert_eq!(res_no_other.get_room(), None);
    assert_eq!(res_no_other.get_phone_work(), None);
    assert_eq!(res_no_other.get_phone_home(), None);
    assert_eq!(res_no_other.get_other(), None);
}

#[test]
fn gecos_fields_test_gecos_getters() {
    let gcdetail = "Full Name,504,11345342,ä1-2312,myemail@test.com".to_string();
    let gcsimple = "A böring comment →".to_string();
    let gc_no_other = "systemd Network Management,,,".to_string();
    let res_detail = Gecos::try_from(gcdetail).unwrap();
    let res_simple = Gecos::try_from(gcsimple).unwrap();
    let res_no_other = Gecos::try_from(gc_no_other).unwrap();
    assert_eq!(res_simple.get_comment(), Some("A böring comment →"));

    assert_eq!(res_detail.get_comment(), None);
    assert_eq!(res_detail.get_full_name(), Some("Full Name"));
    assert_eq!(res_detail.get_room(), Some("504"));
    assert_eq!(res_detail.get_phone_work(), Some("11345342"));
    assert_eq!(res_detail.get_phone_home(), Some("ä1-2312"));
    assert_eq!(res_detail.get_other(), Some(&vec!["myemail@test.com".to_string()]));

    assert_eq!(res_no_other.get_full_name(), Some("systemd Network Management"));
    assert_eq!(res_no_other.get_room(), None);
    assert_eq!(res_no_other.get_phone_work(), None);
    assert_eq!(res_no_other.get_phone_home(), None);
    assert_eq!(res_no_other.get_other(), None);
}

#[test]
fn passwd_test_new_from_string() {
    let fail = Passwd::new_from_string("").err().unwrap();
    assert_eq!(fail, UserLibError::from("Failed to parse: not enough elements"));
    let pwd =
        Passwd::new_from_string("testuser:testpassword:1001:1001:testcomment:/home/test:/bin/test")
            .unwrap();
    let pwd2 = Passwd::new_from_string(
        "testuser:testpassword:1001:1001:full Name,004,000342,001-2312,myemail@test.com:/home/test:/bin/test",
    )
    .unwrap();
    assert_eq!(pwd.username.username, "testuser");
    assert_eq!(pwd.home_dir.dir, "/home/test");
    assert_eq!(pwd.uid.uid, 1001);
    match pwd.gecos {
        Gecos::Simple { comment } => assert_eq!(comment, "testcomment"),
        _ => panic!("expected the simple form"),
    }
    match pwd2.gecos {
        Gecos::Detail {
            full_name,
            room,
            phone_work,
            phone_home,
            other,
        } => {
            assert_eq!(full_name, "full Name");
            assert_eq!(room, "004");
            assert_eq!(phone_work, "000342");
            assert_eq!(phone_home, "001-2312");
            assert_eq!(other.unwrap()[0], "myemail@test.com");
        }
        _ => panic!("expected the detailed form"),
    }
}

#[test]
fn mod_test_default_user() {
    let mut pwd = User::default();
    assert_eq!(pwd.username.username, "defaultusername");
    assert_eq!(pwd.home_dir.dir, "/");
    assert_eq!(pwd.uid.uid, 1001);
    pwd.username("test".to_owned());
    assert_eq!(pwd.username.username, "test");
}

#[test]
fn mod_test_new_from_string() {
    let fail = User::new_from_string("".into(), 0).err().unwrap();
    assert_eq!(fail, UserLibError::from("Failed to parse: not enough elements"));
    let pwd = User::new_from_string(
        "testuser:testpassword:1001:1001:testcomment:/home/test:/bin/test".into(),
        0,
    )
    .unwrap();
    let pwd2 = User::new_from_string(
        "testuser:testpassword:1001:1001:full Name,004,000342,001-2312,myemail@test.com:/home/test:/bin/test".into(),
        0,
    )
    .unwrap();
    assert_eq!(pwd.username.username, "testuser");
    assert_eq!(pwd.home_dir.dir, "/home/test");
    assert_eq!(pwd.uid.uid, 1001);
    match pwd.gecos {
        Gecos::Simple { comment } => assert_eq!(comment, "testcomment"),
        _ => panic!("expected the simple form"),
    }
    match pwd2.gecos {
        Gecos::Detail {
            full_name,
            room,
            phone_work,
            phone_home,
            other,
        } => {
            assert_eq!(full_name, "full Name");
            assert_eq!(room, "004");
            assert_eq!(phone_work, "000342");
            assert_eq!(phone_home, "001-2312");
            assert_eq!(other.unwrap()[0], "myemail@test.com");
        }
        _ => panic!("expected the detailed form"),
    }
}

#[test]
fn test_guid_system_user() {
    let values = vec![
        ("999".to_owned(), true),
        ("0".to_owned(), true),
        ("1000".to_owned(), false),
    ];
    for val in values {
        assert_eq!(Uid::try_from(val.0.clone()).unwrap().is_system_uid(), val.1);
        assert_eq!(Gid::try_from(val.0.clone()).unwrap().is_system_gid(), val.1);
    }
}

#[test]
fn test_since_epoch() {
    let line = "test:!!$6$/RotIe4VZzzAun4W$7YUONvru1rDnllN5TvrnOMsWUD5wSDUPAD6t6/Xwsr/0QOuWF3HcfAhypRkGa8G1B9qqWV5kZSnCb8GKMN9N61:18260:0:99999:7:::";
    let line2 = Shadow::new_from_string(line.to_owned(), 0).unwrap();
    assert_eq!(line2.to_line(), line);
}

#[test]
fn shadow_fields_test_parse_and_back_identity() {
    let line = "test:!!$6$/RotIe4VZzzAun4W$7YUONvru1rDnllN5TvrnOMsWUD5wSDUPAD6t6/Xwsr/0QOuWF3HcfAhypRkGa8G1B9qqWV5kZSnCb8GKMN9N61:18260:0:99999:7:::";
    let line2 = Shadow::new_from_string(line.to_owned(), 0).unwrap();
    assert_eq!(line2.to_line(), line);
}

#[test]
fn user_line_roundtrip() {
    let line = "testuser:testpassword:1001:1001:full Name,004,000342,001-2312,myemail@test.com:/home/test:/bin/test";
    let user = User::new_from_string(line.to_owned(), 3).unwrap();
    assert_eq!(user.to_line(), line);
    assert_eq!(user.source, line);
}

#[test]
fn passwd_line_roundtrip() {
    let line = "testuser:testpassword:1001:1001:testcomment:/home/test:/bin/test";
    let pwd = Passwd::new_from_string(line).unwrap();
    assert_eq!(pwd.to_line(), line);
}

#[test]
fn gecos_detail_roundtrip() {
    let field = "Full Name,504,11345342,ä1-2312,myemail@test.com";
    let gecos = Gecos::try_from(field.to_owned()).unwrap();
    assert_eq!(gecos.to_line(), field);
}

#[test]
fn gecos_two_or_three_values_rejected() {
    assert!(Gecos::try_from("one,two".to_owned()).is_err());
    assert!(Gecos::try_from("one,two,three".to_owned()).is_err());
    let err = Gecos::try_from("a,b".to_owned()).err().unwrap();
    assert_eq!(err, UserLibError::from("Could not parse this string: a,b"));
}

#[test]
fn user_invalid_fields_rejected() {
    let bad_uid = User::new_from_string("testuser:x:12x:1001:c:/home:/bin/sh".into(), 0);
    assert_eq!(bad_uid.err().unwrap(), UserLibError::from("Invalid uid 12x"));
    let bad_gid = User::new_from_string("testuser:x:12:1x:c:/home:/bin/sh".into(), 0);
    assert_eq!(bad_gid.err().unwrap(), UserLibError::from("Invalid gid 1x"));
    let bad_name = User::new_from_string("Uppercase:x:12:13:c:/home:/bin/sh".into(), 0);
    assert_eq!(
        bad_name.err().unwrap(),
        UserLibError::from("Invalid username Uppercase")
    );
}

#[test]
fn group_empty_members_skipped() {
    let group = Group::new_from_string("teste:x:1002:test,,teste".to_owned(), 0).unwrap();
    let names = group.get_member_names().unwrap();
    assert_eq!(names, vec!["test", "teste"]);
}

#[test]
fn group_invalid_member_rejected() {
    assert!(Group::new_from_string("teste:x:1002:Bad/Name".to_owned(), 0).is_err());
    assert!(Group::new_from_string("teste:x:1002".to_owned(), 0).is_err());
}

#[test]
fn shadow_empty_fields_stay_empty() {
    let line = "usr:hash:::::::";
    let shadow = Shadow::new_from_string(line.to_owned(), 0).unwrap();
    assert_eq!(shadow.get_username(), "usr");
    assert_eq!(shadow.get_password(), "hash");
    assert_eq!(shadow.to_line(), line);
}

#[test]
fn shadow_bad_field_count_rejected() {
    let fail = Shadow::new_from_string("usr:hash:1:2:3".to_owned(), 0).err().unwrap();
    assert_eq!(fail, UserLibError::from("Failed to parse: not enough elements"));
    let bad_days = Shadow::new_from_string("usr:hash:x:::::::".to_owned(), 0);
    assert!(bad_days.is_err());
}

#[test]
fn user_disable_password_prints_placeholder() {
    let mut user =
        User::new_from_string("testuser:secret:1001:1001:c:/home/test:/bin/test".into(), 0)
            .unwrap();
    assert_eq!(user.get_password(), Some("secret"));
    user.disable_password();
    assert_eq!(user.get_password(), None);
    assert_eq!(user.to_line(), "testuser:x:1001:1001:c:/home/test:/bin/test");
}
