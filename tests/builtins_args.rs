use shell::fsargs::{
    base_name, is_recursive_flag, move_target, parse_rm_args, plan_moves, split_transfer,
    MoveError, OperandError,
};
use shell::listing::{
    column_width, contains_white_space, display_name, format_permissions, ls_suffix,
    parse_ls_args, FileKind,
};

fn strings(v: &[&str]) -> Vec<String> {
    v.iter().map(|s| s.to_string()).collect()
}

#[test]
fn permissions_of_a_directory() {
    assert_eq!(format_permissions(FileKind::Directory, 0o755, false), "drwxr-xr-x");
    assert_eq!(format_permissions(FileKind::Regular, 0o644, false), "-rw-r--r--");
    assert_eq!(format_permissions(FileKind::Symlink, 0o777, false), "lrwxrwxrwx");
    assert_eq!(format_permissions(FileKind::Fifo, 0, true), "p---------+");
    assert_eq!(format_permissions(FileKind::Socket, 0o100600, false), "srw-------");
    assert_eq!(format_permissions(FileKind::BlockDevice, 0o660, false), "brw-rw----");
    assert_eq!(format_permissions(FileKind::CharDevice, 0o001, false), "c--------x");
}

#[test]
fn classify_marks() {
    assert_eq!(ls_suffix(FileKind::Directory, 0o755), Some('/'));
    assert_eq!(ls_suffix(FileKind::Symlink, 0o777), Some('@'));
    assert_eq!(ls_suffix(FileKind::Fifo, 0o644), Some('|'));
    assert_eq!(ls_suffix(FileKind::Socket, 0o644), Some('='));
    assert_eq!(ls_suffix(FileKind::Regular, 0o744), Some('*'));
    assert_eq!(ls_suffix(FileKind::Regular, 0o010), Some('*'));
    assert_eq!(ls_suffix(FileKind::Regular, 0o644), None);
}

#[test]
fn names_with_spaces_are_quoted() {
    assert_eq!(display_name("my file"), "'my file'");
    assert_eq!(display_name("tab\there"), "'tab\there'");
    assert_eq!(display_name("plain.txt"), "plain.txt");
    assert!(contains_white_space("a\u{3000}b"));
    assert!(!contains_white_space(""));
}

#[test]
fn ls_flags_and_paths() {
    let o = parse_ls_args(&strings(&["-la", "src", "-F", "tests"]));
    assert!(o.long && o.all && o.classify);
    assert_eq!(o.paths, strings(&["src", "tests"]));
    let o = parse_ls_args(&strings(&["-l"]));
    assert!(o.long && !o.all && !o.classify);
    assert_eq!(o.paths, strings(&["."]));
    let o = parse_ls_args(&strings(&[]));
    assert!(!o.long);
    assert_eq!(o.paths, strings(&["."]));
}

#[test]
fn column_width_is_the_longest() {
    assert_eq!(column_width(&vec![3, 10, 7]), 10);
    assert_eq!(column_width(&vec![]), 0);
    assert_eq!(column_width(&vec![0, 0]), 0);
}

#[test]
fn transfer_operands() {
    assert!(matches!(split_transfer(&strings(&[])), Err(OperandError::MissingOperand)));
    match split_transfer(&strings(&["a"])) {
        Err(OperandError::MissingDestination(a)) => assert_eq!(a, "a"),
        _ => panic!("expected a missing destination"),
    }
    let t = split_transfer(&strings(&["a", "b", "dir"])).unwrap();
    assert_eq!(t.sources, strings(&["a", "b"]));
    assert_eq!(t.dest, "dir");
}

#[test]
fn recursive_flags() {
    assert!(is_recursive_flag("-r"));
    assert!(is_recursive_flag("-R"));
    assert!(is_recursive_flag("-rf"));
    assert!(is_recursive_flag("-fr"));
    assert!(!is_recursive_flag("-RF"));
    assert!(!is_recursive_flag("r"));
    let r = parse_rm_args(&strings(&["-R", "x", "y"])).unwrap();
    assert!(r.recursive);
    assert_eq!(r.paths, strings(&["x", "y"]));
    let r = parse_rm_args(&strings(&["x"])).unwrap();
    assert!(!r.recursive);
    assert_eq!(r.paths, strings(&["x"]));
    assert!(parse_rm_args(&strings(&[])).is_none());
}

#[test]
fn base_names_and_targets() {
    assert_eq!(base_name("a/b/c.txt"), "c.txt");
    assert_eq!(base_name("c.txt"), "c.txt");
    assert_eq!(base_name("dir/"), "");
    assert_eq!(move_target("dest", "x/y"), "dest/y");
}

#[test]
fn move_plans() {
    let one = split_transfer(&strings(&["src/f", "d"])).unwrap();
    assert_eq!(plan_moves(&one, Some(true)).unwrap(), strings(&["d/f"]));
    assert_eq!(plan_moves(&one, Some(false)).unwrap(), strings(&["d"]));
    assert_eq!(plan_moves(&one, None).unwrap(), strings(&["d"]));
    let two = split_transfer(&strings(&["a", "b/c", "d"])).unwrap();
    assert_eq!(plan_moves(&two, Some(true)).unwrap(), strings(&["d/a", "d/c"]));
    assert_eq!(plan_moves(&two, None).unwrap(), strings(&["d/a", "d/c"]));
    assert!(matches!(plan_moves(&two, Some(false)), Err(MoveError::NotADirectory)));
}
