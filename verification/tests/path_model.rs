use ruxfs::fops::{absolute_path, Cwd};
use ruxfs::path::{AbsPath, RelPath};

fn abs(s: &str) -> Vec<u8> {
    AbsPath::new(s).as_bytes().clone()
}

#[test]
fn normalizes_dots_and_separators() {
    assert_eq!(abs("/a/../b//./c"), b"/b/c".to_vec());
    assert_eq!(abs("/a/b/c"), b"/a/b/c".to_vec());
    assert_eq!(abs("a/b"), b"/a/b".to_vec());
    assert_eq!(abs("/a/b/"), b"/a/b".to_vec());
    assert_eq!(abs("//a///b"), b"/a/b".to_vec());
    assert_eq!(abs("/a/./b"), b"/a/b".to_vec());
}

#[test]
fn normalizes_to_root() {
    assert_eq!(abs(""), b"/".to_vec());
    assert_eq!(abs("/"), b"/".to_vec());
    assert_eq!(abs("/."), b"/".to_vec());
    assert_eq!(abs("/.."), b"/".to_vec());
    assert_eq!(abs("/a/.."), b"/".to_vec());
    assert_eq!(abs("/../.."), b"/".to_vec());
}

#[test]
fn dotdot_pops_one_component() {
    assert_eq!(abs("/a/b/../c"), b"/a/c".to_vec());
    assert_eq!(abs("/a/b/c/../../d"), b"/a/d".to_vec());
}

#[test]
fn dot_names_survive_when_longer() {
    assert_eq!(abs("/a/.hidden"), b"/a/.hidden".to_vec());
    assert_eq!(abs("/..x/y"), b"/..x/y".to_vec());
    assert_eq!(abs("/a/..."), b"/a/...".to_vec());
}

#[test]
fn to_rel_strips_the_leading_separator() {
    assert_eq!(AbsPath::new("/a/b").to_rel().as_bytes().clone(), b"a/b".to_vec());
    assert_eq!(AbsPath::new("/").to_rel().as_bytes().clone(), b"".to_vec());
}

#[test]
fn rel_path_is_an_opaque_fragment() {
    let r = RelPath::new("a//b/./c");
    assert_eq!(r.as_bytes().clone(), b"a//b/./c".to_vec());
    assert_eq!(r.len(), 8);
    assert_eq!(r.prefix(4).as_bytes().clone(), b"a//b".to_vec());
}

#[test]
fn absolute_path_resolves_against_the_working_directory() {
    let cwd = AbsPath::new("/home/user");
    assert_eq!(absolute_path(&cwd, "notes.txt").as_bytes().clone(), b"/home/user/notes.txt".to_vec());
    assert_eq!(absolute_path(&cwd, "../other").as_bytes().clone(), b"/home/other".to_vec());
    assert_eq!(absolute_path(&cwd, "/etc/passwd").as_bytes().clone(), b"/etc/passwd".to_vec());
    assert_eq!(absolute_path(&cwd, "").as_bytes().clone(), b"/home/user".to_vec());
}

#[test]
fn cwd_holds_the_current_directory() {
    let mut cwd = Cwd::new();
    assert_eq!(cwd.current_dir().as_bytes().clone(), b"/".to_vec());
    cwd.set_current_dir(AbsPath::new("/tmp"));
    assert_eq!(cwd.current_dir().as_bytes().clone(), b"/tmp".to_vec());
}

#[test]
fn normalization_is_idempotent() {
    for raw in ["/a/../b//./c", "a/b/", "", "/..", "/x/y/z", "//./..//q"] {
        let once = AbsPath::new(raw);
        let twice = AbsPath::from_bytes(once.as_bytes());
        assert_eq!(twice.as_bytes(), once.as_bytes());
    }
}
