use guarded_fs::fs_model::SandboxFs;
use guarded_fs::fs_spec::ErrKind;
use guarded_fs::guarded::{
    create_project_dir, find_existing_ancestor, make_readonly, write_file_ancestors,
};
use guarded_fs::paths::parse_segments;

/// A sandbox with `/`, `/sandbox` and a read-only `/sandbox/course1`.
fn sandbox_with_course() -> SandboxFs {
    let mut fs = SandboxFs::new();
    fs.mkdir(&parse_segments("/")).unwrap();
    fs.mkdir(&parse_segments("/sandbox")).unwrap();
    fs.mkdir(&parse_segments("/sandbox/course1")).unwrap();
    make_readonly(&mut fs, "/sandbox/course1").unwrap();
    fs
}

#[test]
fn create_project_dir_scenario() {
    let mut fs = sandbox_with_course();
    create_project_dir(&mut fs, "/sandbox/course1/student42/solution", "/sandbox").unwrap();
    // the new directories exist; the leaf is writable, the intermediate
    // level is relocked
    assert!(fs.is_dir(&parse_segments("/sandbox/course1/student42")));
    assert!(fs.is_dir(&parse_segments("/sandbox/course1/student42/solution")));
    assert!(!fs
        .is_readonly(&parse_segments("/sandbox/course1/student42/solution"))
        .unwrap());
    assert!(fs.is_readonly(&parse_segments("/sandbox/course1/student42")).unwrap());
    // the pre-existing ancestor is read-only again
    assert!(fs.is_readonly(&parse_segments("/sandbox/course1")).unwrap());
    // the boundary itself was never touched
    assert!(!fs.is_readonly(&parse_segments("/sandbox")).unwrap());
}

#[test]
fn create_project_dir_twice_is_idempotent() {
    let mut fs = sandbox_with_course();
    create_project_dir(&mut fs, "/sandbox/course1/student42/solution", "/sandbox").unwrap();
    let course1_before = fs.is_readonly(&parse_segments("/sandbox/course1")).unwrap();
    let student_before = fs.is_readonly(&parse_segments("/sandbox/course1/student42")).unwrap();
    let leaf_before =
        fs.is_readonly(&parse_segments("/sandbox/course1/student42/solution")).unwrap();
    create_project_dir(&mut fs, "/sandbox/course1/student42/solution", "/sandbox").unwrap();
    assert_eq!(fs.is_readonly(&parse_segments("/sandbox/course1")).unwrap(), course1_before);
    assert_eq!(
        fs.is_readonly(&parse_segments("/sandbox/course1/student42")).unwrap(),
        student_before
    );
    assert_eq!(
        fs.is_readonly(&parse_segments("/sandbox/course1/student42/solution")).unwrap(),
        leaf_before
    );
}

#[test]
fn boundary_bit_never_changes() {
    // the boundary starts read-only and must stay read-only even though
    // everything below it is created and relocked
    let mut fs = SandboxFs::new();
    fs.mkdir(&parse_segments("/")).unwrap();
    fs.mkdir(&parse_segments("/sandbox")).unwrap();
    fs.mkdir(&parse_segments("/sandbox/course1")).unwrap();
    make_readonly(&mut fs, "/sandbox").unwrap();
    let r = create_project_dir(&mut fs, "/sandbox/course1/p", "/sandbox");
    assert!(r.is_ok());
    assert!(fs.is_readonly(&parse_segments("/sandbox")).unwrap());
}

#[test]
fn write_file_creates_parent_scenario() {
    let mut fs = sandbox_with_course();
    let content: Vec<u8> = vec![104, 101, 108, 108, 111];
    write_file_ancestors(&mut fs, "/sandbox/course1/student42/newfile.txt", &content, true)
        .unwrap();
    // the parent was materialized and stays writable; the file is locked
    assert!(fs.is_dir(&parse_segments("/sandbox/course1/student42")));
    assert!(!fs.is_readonly(&parse_segments("/sandbox/course1/student42")).unwrap());
    assert!(fs.is_readonly(&parse_segments("/sandbox/course1/student42/newfile.txt")).unwrap());
    // the pre-existing ancestor is read-only again
    assert!(fs.is_readonly(&parse_segments("/sandbox/course1")).unwrap());
    // reading the file yields exactly the written bytes
    assert_eq!(
        fs.read_node(&parse_segments("/sandbox/course1/student42/newfile.txt")).unwrap(),
        content
    );
}

#[test]
fn locked_file_rejects_plain_write() {
    let mut fs = sandbox_with_course();
    let content: Vec<u8> = vec![1, 2, 3];
    write_file_ancestors(&mut fs, "/sandbox/course1/s/f.bin", &content, true).unwrap();
    let p = parse_segments("/sandbox/course1/s/f.bin");
    let e = fs.write_node(&p, &vec![9]).unwrap_err();
    assert_eq!(e.kind, ErrKind::Permission);
    // the contents were not altered
    assert_eq!(fs.read_node(&p).unwrap(), content);
}

#[test]
fn writable_file_accepts_second_write() {
    let mut fs = sandbox_with_course();
    write_file_ancestors(&mut fs, "/sandbox/course1/s/f.bin", &vec![1, 2, 3], false).unwrap();
    let p = parse_segments("/sandbox/course1/s/f.bin");
    assert!(!fs.is_readonly(&p).unwrap());
    fs.write_node(&p, &vec![9, 9]).unwrap();
    assert_eq!(fs.read_node(&p).unwrap(), vec![9, 9]);
}

#[test]
fn locate_on_empty_tree_is_not_found() {
    let fs = SandboxFs::new();
    let e = find_existing_ancestor(&fs, "/sandbox/anything").unwrap_err();
    assert_eq!(e.kind, ErrKind::NotFound);
}

#[test]
fn locate_finds_deepest_existing_dir() {
    let fs = sandbox_with_course();
    let anc = find_existing_ancestor(&fs, "/sandbox/course1/student42/solution").unwrap();
    assert_eq!(anc, parse_segments("/sandbox/course1"));
}

#[test]
fn locate_path_itself_when_dir() {
    // an existing directory is its own nearest ancestor
    let fs = sandbox_with_course();
    let anc = find_existing_ancestor(&fs, "/sandbox/course1").unwrap();
    assert_eq!(anc, parse_segments("/sandbox/course1"));
}

#[test]
fn locate_skips_file_at_target() {
    let mut fs = sandbox_with_course();
    write_file_ancestors(&mut fs, "/sandbox/course1/s/f.bin", &vec![1], false).unwrap();
    let anc = find_existing_ancestor(&fs, "/sandbox/course1/s/f.bin").unwrap();
    assert_eq!(anc, parse_segments("/sandbox/course1/s"));
}

#[test]
fn create_fails_when_nothing_exists() {
    let mut fs = SandboxFs::new();
    let e = create_project_dir(&mut fs, "/sandbox/p", "/sandbox").unwrap_err();
    assert_eq!(e.kind, ErrKind::NotFound);
}

#[test]
fn create_fails_on_file_in_the_way() {
    let mut fs = sandbox_with_course();
    write_file_ancestors(&mut fs, "/sandbox/course1/s/blocker", &vec![0], false).unwrap();
    let e = create_project_dir(&mut fs, "/sandbox/course1/s/blocker/deeper", "/sandbox")
        .unwrap_err();
    assert_eq!(e.kind, ErrKind::Io);
}

#[test]
fn create_under_readonly_boundary_is_denied() {
    // the target's parent is the boundary itself: the boundary is never
    // unlocked, so creating inside it fails with a permission error
    let mut fs = SandboxFs::new();
    fs.mkdir(&parse_segments("/")).unwrap();
    fs.mkdir(&parse_segments("/sandbox")).unwrap();
    make_readonly(&mut fs, "/sandbox").unwrap();
    let e = create_project_dir(&mut fs, "/sandbox/p", "/sandbox").unwrap_err();
    assert_eq!(e.kind, ErrKind::Permission);
    assert!(fs.is_readonly(&parse_segments("/sandbox")).unwrap());
}

#[test]
fn make_readonly_missing_path() {
    let mut fs = SandboxFs::new();
    let e = make_readonly(&mut fs, "/nothing/here").unwrap_err();
    assert_eq!(e.kind, ErrKind::Permission);
}

#[test]
fn make_readonly_then_bit_reads_back() {
    let mut fs = sandbox_with_course();
    write_file_ancestors(&mut fs, "/sandbox/course1/s/f", &vec![7], false).unwrap();
    make_readonly(&mut fs, "/sandbox/course1/s/f").unwrap();
    assert!(fs.is_readonly(&parse_segments("/sandbox/course1/s/f")).unwrap());
}

#[test]
fn mkdir_without_parent_is_not_found() {
    let mut fs = SandboxFs::new();
    fs.mkdir(&parse_segments("/")).unwrap();
    let e = fs.mkdir(&parse_segments("/a/b")).unwrap_err();
    assert_eq!(e.kind, ErrKind::NotFound);
}

#[test]
fn read_missing_file_is_not_found() {
    let fs = SandboxFs::new();
    let e = fs.read_node(&parse_segments("/x")).unwrap_err();
    assert_eq!(e.kind, ErrKind::NotFound);
}

#[test]
fn read_directory_is_io_error() {
    let fs = sandbox_with_course();
    let e = fs.read_node(&parse_segments("/sandbox")).unwrap_err();
    assert_eq!(e.kind, ErrKind::Io);
}
