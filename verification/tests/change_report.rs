use resilient::status::{
    parse_change, parse_modifiers, Change, FileType, ModList, Modification, Modifiers, UpdateType,
};

fn no_flags() -> ModList {
    ModList {
        checksum: false,
        size: false,
        mod_time: false,
        perms: false,
        owner: false,
        group: false,
        acl: false,
        xattrs: false,
    }
}

fn update(name: &str, file_type: FileType, list: ModList) -> Change {
    Change::Modification(Modification {
        file_name: name.to_string(),
        update_type: UpdateType::Transfer,
        file_type,
        modifiers: Modifiers::Update(list),
    })
}

fn modification(line: &str) -> Modification {
    match parse_change(line) {
        Some(Change::Modification(m)) => m,
        other => panic!("no modification: {:?}", other),
    }
}

#[test]
fn deletion_line_gives_the_second_word() {
    let change = parse_change("*deleting   old/file.txt");
    assert_eq!(change, Some(Change::Deleting("old/file.txt".to_string())));
    assert_eq!(change.unwrap().get_mod_string(), "Deleting: old/file.txt");
}

#[test]
fn creation_line_gives_a_new_file() {
    let change = parse_change(">f+++++++++ newdir/newfile").unwrap();
    assert_eq!(
        change,
        Change::Modification(Modification {
            file_name: "newdir/newfile".to_string(),
            update_type: UpdateType::Transfer,
            file_type: FileType::File,
            modifiers: Modifiers::Creation,
        })
    );
    assert_eq!(change.get_mod_string(), "Creating: newdir/newfile");
}

#[test]
fn symlink_update_line_without_checksum_change() {
    let m = modification(".L...... file -> /target");
    assert_eq!(m.file_name, "file");
    assert_eq!(m.file_type, FileType::Symlink("/target".to_string()));
    let list = match m.modifiers {
        Modifiers::Update(list) => list,
        Modifiers::Creation => panic!("an update was expected"),
    };
    assert!(!list.checksum);
    assert!(!list.size);
    assert!(!list.mod_time);
    let shown = Change::Modification(m).get_mod_string();
    assert_ne!(shown, "Updating (link): file -> /target");
    assert_eq!(shown, "Updating acls: file");
}

#[test]
fn symlink_update_display_follows_the_checksum_flag() {
    let target = FileType::Symlink("/target".to_string());
    let unchanged = update("file", target.clone(), no_flags());
    assert_eq!(unchanged.get_mod_string(), "Updating: file");
    let changed = update("file", target, ModList { checksum: true, ..no_flags() });
    assert_eq!(changed.get_mod_string(), "Updating (link): file -> /target");
}

#[test]
fn symlink_update_line_with_checksum_change() {
    let change = parse_change(".Lc........ file -> /target").unwrap();
    assert_eq!(change.get_mod_string(), "Updating (link): file -> /target");
}

#[test]
fn symlink_creation_line() {
    let change = parse_change("cL+++++++++ link -> ../there").unwrap();
    assert_eq!(
        change,
        Change::Modification(Modification {
            file_name: "link".to_string(),
            update_type: UpdateType::Creation,
            file_type: FileType::Symlink("../there".to_string()),
            modifiers: Modifiers::Creation,
        })
    );
    assert_eq!(change.get_mod_string(), "Creating (link): link -> ../there");
}

#[test]
fn symlink_line_without_arrow_gives_nothing() {
    assert_eq!(parse_change(".L......... file"), None);
}

#[test]
fn symlink_target_ends_at_a_second_arrow() {
    let m = modification("cL+++++++++ a -> b -> c");
    assert_eq!(m.file_type, FileType::Symlink("b".to_string()));
}

#[test]
fn path_is_the_second_word_and_kind_follows_the_code() {
    let lines = [
        (">f.st...... some/file", FileType::File, "some/file"),
        (".d..t...... a/dir/", FileType::Directory, "a/dir/"),
        ("cD+++++++++ dev/null", FileType::Device, "dev/null"),
        ("cS+++++++++ run/socket", FileType::Special, "run/socket"),
    ];
    for (line, kind, path) in lines {
        let m = modification(line);
        assert_eq!(m.file_type, kind);
        assert_eq!(m.file_name, path);
        assert_eq!(m.file_name, line.split_whitespace().nth(1).unwrap());
    }
}

#[test]
fn update_types_follow_the_first_character() {
    assert_eq!(modification(">f+++++++++ a").update_type, UpdateType::Transfer);
    assert_eq!(modification(".f...p..... a").update_type, UpdateType::Transfer);
    assert_eq!(modification("cd+++++++++ a").update_type, UpdateType::Creation);
}

#[test]
fn deletion_marker_wins_over_itemized_shape() {
    let change = parse_change("*deleting >f+++++++++ x");
    assert_eq!(change, Some(Change::Deleting(">f+++++++++".to_string())));
    assert_eq!(
        parse_change("  *deleting\tgone  "),
        Some(Change::Deleting("gone".to_string()))
    );
}

#[test]
fn deletion_marker_alone_gives_nothing() {
    assert_eq!(parse_change("*deleting"), None);
    assert_eq!(parse_change("*deleting   "), None);
}

#[test]
fn other_first_characters_give_nothing() {
    for line in [
        "sending incremental file list",
        "<f+++++++++ file",
        "hf+++++++++ file",
        "*f+++++++++ file",
        "total size is 12  speedup is 1.00",
        "",
        "   ",
        "\t\n",
    ] {
        assert_eq!(parse_change(line), None, "{:?}", line);
    }
}

#[test]
fn surrounding_whitespace_is_trimmed_first() {
    assert_eq!(
        parse_change("  >f+++++++++ file \n"),
        parse_change(">f+++++++++ file")
    );
    assert!(parse_change(" >f+++++++++ a").is_some());
}

#[test]
fn short_or_malformed_lines_give_nothing() {
    assert_eq!(parse_change(">"), None);
    assert_eq!(parse_change(">f"), None);
    assert_eq!(parse_change(">x+++++++++ file"), None);
    assert_eq!(parse_change(">f.st file"), None);
    assert_eq!(parse_change(">f+++++++++"), None);
    assert_eq!(parse_change(">f.st......"), None);
}

#[test]
fn flags_are_read_from_nine_positions() {
    let m = modification(">fcstpog.ax path");
    assert_eq!(
        m.modifiers,
        Modifiers::Update(ModList {
            checksum: true,
            size: true,
            mod_time: true,
            perms: true,
            owner: true,
            group: true,
            acl: true,
            xattrs: true,
        })
    );
    let m = modification(">f......u.. path");
    assert_eq!(m.modifiers, Modifiers::Update(no_flags()));
    let m = modification(">f.s....... path");
    assert_eq!(m.modifiers, Modifiers::Update(ModList { size: true, ..no_flags() }));
}

#[test]
fn modifiers_need_nine_characters() {
    let eight: Vec<char> = "........".chars().collect();
    assert_eq!(parse_modifiers(&eight), None);
    let nine: Vec<char> = "c.t...x.a".chars().collect();
    assert_eq!(
        parse_modifiers(&nine),
        Some(ModList { checksum: true, mod_time: true, xattrs: true, ..no_flags() })
    );
    let more: Vec<char> = ".........rest".chars().collect();
    assert_eq!(parse_modifiers(&more), Some(no_flags()));
}

#[test]
fn update_display_takes_the_first_rule_that_applies() {
    let shown = |list: ModList| update("f", FileType::File, list).get_mod_string();
    assert_eq!(shown(ModList { mod_time: true, ..no_flags() }), "Updating timestamps: f");
    assert_eq!(shown(ModList { owner: true, ..no_flags() }), "Updating owner: f");
    assert_eq!(shown(ModList { group: true, ..no_flags() }), "Updating group: f");
    assert_eq!(shown(ModList { perms: true, ..no_flags() }), "Updating perms: f");
    assert_eq!(shown(ModList { acl: true, ..no_flags() }), "Updating acls: f");
    assert_eq!(shown(ModList { xattrs: true, ..no_flags() }), "Updating xattrs: f");
    assert_eq!(shown(no_flags()), "Updating: f");
    assert_eq!(shown(ModList { checksum: true, ..no_flags() }), "Updating: f");
    assert_eq!(
        shown(ModList { mod_time: true, owner: true, xattrs: true, ..no_flags() }),
        "Updating timestamps: f"
    );
    assert_eq!(
        shown(ModList { owner: true, group: true, perms: true, ..no_flags() }),
        "Updating owner: f"
    );
    assert_eq!(
        shown(ModList { size: true, mod_time: true, owner: true, acl: true, ..no_flags() }),
        "Updating: f"
    );
}

#[test]
fn file_type_knows_a_symlink() {
    let link = FileType::Symlink("/t".to_string());
    assert!(link.is_symlink());
    assert_eq!(link.get_symlink_dest(), "/t");
    for other in [FileType::File, FileType::Directory, FileType::Device, FileType::Special] {
        assert!(!other.is_symlink());
    }
}
