use umanux::Files;
use umanux::UserDBLocal;
use umanux::UserLibError;
use umanux::api::CreateUserArgs;
use umanux::api::DeleteUserArgs;
use umanux::group::MembershipKind;

#[test]
fn userlib_test_creator_user_db_local() {
    // The user's gid 1001 resolves to no group: a missing primary
    // group is a fatal load-time inconsistency, so the import is
    // rejected as a whole.
    let data = UserDBLocal::import_from_strings(
        "test:x:1001:1001:full Name,004,000342,001-2312,myemail@test.com:/home/test:/bin/test",
        "test:!!$6$/RotIe4VZzzAun4W$7YUONvru1rDnllN5TvrnOMsWUD5wSDUPAD6t6/Xwsr/0QOuWF3HcfAhypRkGa8G1B9qqWV5kZSnCb8GKMN9N61:18260:0:99999:7:::",
        "teste:x:1002:test,test",
    );
    assert!(data.is_err());
}

#[test]
fn userlib_test_user_db_write_implementation() {
    // Same inconsistent fixture: nothing can be deleted from a
    // directory that refuses to load.
    let data = UserDBLocal::import_from_strings(
        "test:x:1001:1001:full Name,004,000342,001-2312,myemail@test.com:/home/test:/bin/test",
        "test:!!$6$/RotIe4VZzzAun4W$7YUONvru1rDnllN5TvrnOMsWUD5wSDUPAD6t6/Xwsr/0QOuWF3HcfAhypRkGa8G1B9qqWV5kZSnCb8GKMN9N61:18260:0:99999:7:::",
        "teste:x:1002:test,test",
    );
    assert!(data.is_err());
}

#[test]
fn mod_test_user_db_write_implementation() {
    let data = UserDBLocal::import_from_strings(
        "test:x:1001:1001:full Name,004,000342,001-2312,myemail@test.com:/home/test:/bin/test",
        "test:$6$u0Hh.9WKRF1Aeu4g$XqoDyL6Re/4ZLNQCGAXlNacxCxbdigexEqzFzkOVPV5Z1H23hlenjW8ZLgq6GQtFURYwenIFpo1c.r4aW9l5S/:18260:0:99999:7:::",
        "teste:x:1002:test,test",
    );
    assert!(data.is_err());
}

#[test]
fn mod_test_creator_user_db_local() {
    let data = UserDBLocal::import_from_strings(
        "test:x:1002:1002:full Name,004,000342,001-2312,myemail@test.com:/home/test:/bin/test",
        "test:$6$u0Hh.9WKRF1Aeu4g$XqoDyL6Re/4ZLNQCGAXlNacxCxbdigexEqzFzkOVPV5Z1H23hlenjW8ZLgq6GQtFURYwenIFpo1c.r4aW9l5S/:18260:0:99999:7:::",
        "teste:x:1002:\nanother:x:1003:test",
    )
    .unwrap();
    assert_eq!(
        data.get_user_by_name("test").unwrap().get_username().unwrap(),
        "test"
    );
    for user in data.get_all_users() {
        let groups = user.get_groups();
        let (member_kind1, gid1) = groups[0];
        let (member_kind2, gid2) = groups[1];
        assert_eq!(member_kind1, MembershipKind::Member);
        assert_eq!(
            data.get_group_by_id(gid1).unwrap().get_groupname(),
            Some("another")
        );
        assert_eq!(member_kind2, MembershipKind::Primary);
        assert_eq!(
            data.get_group_by_id(gid2).unwrap().get_groupname(),
            Some("teste")
        );
    }
}

#[test]
fn virtual_delete_user_removes_from_memory() {
    let mut data = UserDBLocal::import_from_strings(
        "test:x:1002:1002:full Name,004,000342,001-2312,myemail@test.com:/home/test:/bin/test",
        "test:$6$u0Hh.9WKRF1Aeu4g$XqoDyL6Re/4ZLNQCGAXlNacxCxbdigexEqzFzkOVPV5Z1H23hlenjW8ZLgq6GQtFURYwenIFpo1c.r4aW9l5S/:18260:0:99999:7:::",
        "teste:x:1002:test,test",
    )
    .unwrap();
    assert_eq!(data.get_all_users().len(), 1);
    let args = DeleteUserArgs::builder().username("test").build().unwrap();
    let removed = data.delete_user(args).unwrap();
    assert_eq!(removed.get_username().unwrap(), "test");
    let again = DeleteUserArgs::builder().username("test").build().unwrap();
    assert_eq!(data.delete_user(again).err().unwrap(), UserLibError::NotFound);
    assert_eq!(data.get_all_users().len(), 0);
}

#[test]
fn consistency_detection_aborts_stale_delete() {
    // Load from "files", then the passwd file changes under us: the
    // delete must fail with FilesChanged and leave everything alone.
    let passwd = "test:x:1002:1002:comment:/home/test:/bin/sh";
    let shadow = "";
    let group = "teste:x:1002:";
    let files = Files {
        passwd: Some("passwd".to_owned()),
        shadow: Some("shadow".to_owned()),
        group: Some("group".to_owned()),
    };
    let mut db = UserDBLocal::load_files(files, passwd, shadow, group).unwrap();
    let externally_edited = "test:x:1002:1002:comment:/home/test:/bin/sh\nmallory:x:1004:1004:c:/home/m:/bin/sh";
    let args = DeleteUserArgs::builder().username("test").build().unwrap();
    let res = db.delete_user_full(&args, externally_edited, shadow, group);
    assert_eq!(res.err().unwrap(), UserLibError::FilesChanged);
    assert!(db.get_user_by_name("test").is_some());
    assert_eq!(db.get_all_groups().len(), 1);
}

#[test]
fn primary_group_cascade_removes_sole_group() {
    // The user's primary group has no other member: deleting the
    // user deletes the group record too.
    let passwd = "test:x:1002:1002:comment:/home/test:/bin/sh";
    let shadow = "";
    let group = "teste:x:1002:";
    let files = Files {
        passwd: Some("passwd".to_owned()),
        shadow: Some("shadow".to_owned()),
        group: Some("group".to_owned()),
    };
    let mut db = UserDBLocal::load_files(files, passwd, shadow, group).unwrap();
    assert_eq!(
        db.get_group_by_id(1002).unwrap().get_member_names().unwrap(),
        vec!["test"]
    );
    let args = DeleteUserArgs::builder().username("test").build().unwrap();
    let (removed, plan) = db.delete_user_full(&args, passwd, shadow, group).unwrap();
    assert_eq!(removed.get_username().unwrap(), "test");
    assert_eq!(plan.new_passwd, "");
    assert_eq!(plan.new_shadow, None);
    assert_eq!(plan.new_group, "");
    assert!(db.get_group_by_id(1002).is_none());
    assert!(db.get_user_by_name("test").is_none());
}

#[test]
fn shared_primary_group_survives_cascade() {
    // The user's primary group lists another member: only the
    // membership goes, the group record stays, verbatim.
    let passwd = "test:x:1002:1002:c:/home/t:/bin/sh\nother:x:1003:1003:c:/home/o:/bin/sh";
    let shadow = "";
    let group = "teste:x:1002:other\nog:x:1003:";
    let files = Files {
        passwd: Some("passwd".to_owned()),
        shadow: Some("shadow".to_owned()),
        group: Some("group".to_owned()),
    };
    let mut db = UserDBLocal::load_files(files, passwd, shadow, group).unwrap();
    let args = DeleteUserArgs::builder().username("test").build().unwrap();
    let (_removed, plan) = db.delete_user_full(&args, passwd, shadow, group).unwrap();
    assert_eq!(plan.new_group, "teste:x:1002:other\nog:x:1003:");
    assert_eq!(plan.new_passwd, "other:x:1003:1003:c:/home/o:/bin/sh");
    assert!(db.get_group_by_id(1002).is_some());
}

#[test]
fn member_edge_cascade_rewrites_group_line() {
    // Deleting a stored member splices the name from the member list
    // and rewrites that group's line; the user's own primary group,
    // left empty, disappears entirely.
    let passwd = "test:x:1002:1002:c:/home/t:/bin/sh\nother:x:1003:1003:c:/home/o:/bin/sh";
    let shadow = "";
    let group = "teste:x:1002:other\nog:x:1003:";
    let files = Files {
        passwd: Some("passwd".to_owned()),
        shadow: Some("shadow".to_owned()),
        group: Some("group".to_owned()),
    };
    let mut db = UserDBLocal::load_files(files, passwd, shadow, group).unwrap();
    let args = DeleteUserArgs::builder().username("other").build().unwrap();
    let (_removed, plan) = db.delete_user_full(&args, passwd, shadow, group).unwrap();
    assert_eq!(plan.new_group, "teste:x:1002:");
    assert!(db.get_group_by_id(1003).is_none());
}

#[test]
fn shadow_entry_spliced_on_delete() {
    let passwd = "test:x:1002:1002:c:/home/t:/bin/sh";
    let shadow = "test:hashhash:18260:0:99999:7:::";
    let group = "teste:x:1002:";
    let files = Files {
        passwd: Some("passwd".to_owned()),
        shadow: Some("shadow".to_owned()),
        group: Some("group".to_owned()),
    };
    let mut db = UserDBLocal::load_files(files, passwd, shadow, group).unwrap();
    assert_eq!(db.get_user_by_name("test").unwrap().get_password(), Some("hashhash"));
    let args = DeleteUserArgs::builder().username("test").build().unwrap();
    let (_removed, plan) = db.delete_user_full(&args, passwd, shadow, group).unwrap();
    assert_eq!(plan.new_shadow, Some("".to_owned()));
}

#[test]
fn duplicate_creation_rejected_without_mutation() {
    let passwd = "test:x:1002:1002:c:/home/t:/bin/sh";
    let shadow = "";
    let group = "teste:x:1002:";
    let mut db = UserDBLocal::import_from_strings(passwd, shadow, group).unwrap();
    let args = CreateUserArgs::builder().username("test").build().unwrap();
    let res = db.new_user(args);
    assert_eq!(
        res.err().unwrap(),
        UserLibError::from("The username test already exists! Aborting!")
    );
    assert_eq!(db.get_all_users().len(), 1);

    let args_full = CreateUserArgs::builder().username("test").build().unwrap();
    let res_full = db.new_user_full(&args_full, passwd);
    assert_eq!(
        res_full.err().unwrap(),
        UserLibError::from("The username test already exists! Aborting!")
    );
    assert_eq!(db.get_all_users().len(), 1);
}

#[test]
fn new_user_appends_default_record() {
    let passwd = "test:x:1002:1002:c:/home/t:/bin/sh";
    let shadow = "";
    let group = "teste:x:1002:";
    let files = Files {
        passwd: Some("passwd".to_owned()),
        shadow: Some("shadow".to_owned()),
        group: Some("group".to_owned()),
    };
    let mut db = UserDBLocal::load_files(files, passwd, shadow, group).unwrap();
    let args = CreateUserArgs::builder().username("fresh").build().unwrap();
    let (user, new_passwd) = db.new_user_full(&args, passwd).unwrap();
    assert_eq!(user.get_username(), Some("fresh"));
    assert_eq!(user.get_uid(), 1001);
    assert_eq!(
        new_passwd,
        "test:x:1002:1002:c:/home/t:/bin/sh\nfresh:x:1001:1001::/:/bin/nologin\n"
    );
    assert!(db.get_user_by_name("fresh").is_some());
}

#[test]
fn virtual_new_user_mutates_memory_only() {
    let mut db = UserDBLocal::import_from_strings(
        "test:x:1002:1002:c:/home/t:/bin/sh",
        "",
        "teste:x:1002:",
    )
    .unwrap();
    let args = CreateUserArgs::builder().username("fresh").build().unwrap();
    let user = db.new_user(args).unwrap();
    assert_eq!(user.get_username(), Some("fresh"));
    assert_eq!(db.get_all_users().len(), 2);
    assert_eq!(db.get_user_by_name("fresh").unwrap().get_gid(), 1001);
}

#[test]
fn shadow_without_user_is_fatal() {
    let res = UserDBLocal::import_from_strings(
        "test:x:1002:1002:c:/home/t:/bin/sh",
        "ghostuser:hash:18260:0:99999:7:::",
        "teste:x:1002:",
    );
    assert!(res.is_err());
}

#[test]
fn malformed_line_aborts_load() {
    let res = UserDBLocal::import_from_strings(
        "test:x:1002:1002:c:/home/t",
        "",
        "teste:x:1002:",
    );
    assert!(res.is_err());
    let res2 = UserDBLocal::import_from_strings(
        "test:x:1002:1002:c:/home/t:/bin/sh",
        "",
        "teste:x:notanumber:",
    );
    assert!(res2.is_err());
}

#[test]
fn validation_checks_format_and_uniqueness() {
    let db = UserDBLocal::import_from_strings(
        "test:x:1002:1002:c:/home/t:/bin/sh",
        "",
        "teste:x:1002:",
    )
    .unwrap();
    assert!(!db.is_username_valid_and_free("test"));
    assert!(db.is_username_valid_and_free("fresh"));
    assert!(!db.is_username_valid_and_free("11elf"));
    assert!(!db.is_uid_valid_and_free(1002));
    assert!(db.is_uid_valid_and_free(1003));
    assert!(!db.is_gid_valid_and_free(1002));
    assert!(db.is_gid_valid_and_free(1003));
    assert!(!db.is_groupname_valid_and_free("teste"));
    assert!(db.is_groupname_valid_and_free("fresh"));
    assert!(!db.is_groupname_valid_and_free("Bad/Name"));
}

#[test]
fn lookups_find_first_match() {
    let db = UserDBLocal::import_from_strings(
        "test:x:1002:1002:c:/home/t:/bin/sh\nother:x:1003:1003:c:/home/o:/bin/sh",
        "",
        "teste:x:1002:\nog:x:1003:",
    )
    .unwrap();
    assert_eq!(db.get_user_by_id(1003).unwrap().get_username(), Some("other"));
    assert!(db.get_user_by_id(9999).is_none());
    assert_eq!(db.get_group_by_name("og").unwrap().get_gid(), Some(1003));
    assert!(db.get_group_by_name("nosuchgroup").is_none());
    assert!(db.get_user_by_name("norealnameforsure").is_none());
    assert_eq!(db.get_all_groups().len(), 2);
}

#[test]
fn load_files_requires_all_paths() {
    let files = Files {
        passwd: Some("passwd".to_owned()),
        shadow: None,
        group: Some("group".to_owned()),
    };
    let res = UserDBLocal::load_files(files, "", "", "");
    assert_eq!(res.err().unwrap(), UserLibError::FilesRequired);
}
