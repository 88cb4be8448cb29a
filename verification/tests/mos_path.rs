use agon_ez80_emulator::mos_path::{
    eq_ignoring_case, match_fragment, mos_path_join, split_fragments, MosPath,
};

fn names(list: &[&str]) -> Vec<Vec<u8>> {
    list.iter().map(|s| s.as_bytes().to_vec()).collect()
}

fn path(list: &[&str]) -> MosPath {
    let mut p = MosPath::new();
    for name in list {
        p.apply_fragment(name.as_bytes(), &names(&[name]));
    }
    p
}

fn text(p: &MosPath) -> String {
    String::from_utf8(p.to_bytes()).unwrap()
}

#[test]
fn fragments() {
    assert_eq!(split_fragments(b""), names(&[""]));
    assert_eq!(split_fragments(b"a"), names(&["a"]));
    assert_eq!(split_fragments(b"a/b"), names(&["a", "b"]));
    assert_eq!(split_fragments(b"/a"), names(&["", "a"]));
    assert_eq!(split_fragments(b"a/"), names(&["a", ""]));
    assert_eq!(split_fragments(b"a\\b//c"), names(&["a", "b", "", "c"]));
    assert_eq!(split_fragments(b"/"), names(&["", ""]));
}

#[test]
fn case_is_ignored_for_ascii_letters_only() {
    assert!(eq_ignoring_case(b"", b""));
    assert!(eq_ignoring_case(b"ReadMe.TXT", b"readme.txt"));
    assert!(eq_ignoring_case(b"az09_", b"AZ09_"));
    assert!(!eq_ignoring_case(b"a", b"b"));
    assert!(!eq_ignoring_case(b"a", b"aa"));
    assert!(!eq_ignoring_case(b"@", b"`"));
    assert!(!eq_ignoring_case(b"[", b"{"));
    assert!(!eq_ignoring_case(&[0xc9], &[0xe9]));
}

#[test]
fn fragment_takes_the_case_of_the_host() {
    let listing = names(&["Sub", "A.txt", "a.TXT", "other"]);
    // an entry of exactly that name wins
    assert_eq!(match_fragment(b"a.TXT", &listing), b"a.TXT");
    assert_eq!(match_fragment(b"A.txt", &listing), b"A.txt");
    // else the first that matches but for case
    assert_eq!(match_fragment(b"a.txt", &listing), b"A.txt");
    assert_eq!(match_fragment(b"SUB", &listing), b"Sub");
    // else the fragment as it is
    assert_eq!(match_fragment(b"New.txt", &listing), b"New.txt");
    assert_eq!(match_fragment(b"x", &names(&[])), b"x");
}

#[test]
fn steps_of_a_path() {
    let none = names(&[]);
    let mut p = MosPath::new();
    assert_eq!(p.len(), 0);
    assert_eq!(text(&p), "");
    p.apply_fragment(b"games", &names(&["Games", "docs"]));
    assert_eq!(text(&p), "Games");
    p.apply_fragment(b"", &none);
    p.apply_fragment(b".", &none);
    assert_eq!(text(&p), "Games");
    p.apply_fragment(b"pong", &none);
    assert_eq!(text(&p), "Games/pong");
    assert_eq!(p.len(), 2);
    assert_eq!(p.name(0), b"Games");
    assert_eq!(p.name(1), b"pong");
    assert_eq!(text(&p.copy()), "Games/pong");
    p.apply_fragment(b"..", &none);
    assert_eq!(text(&p), "Games");
    p.apply_fragment(b"..", &none);
    p.apply_fragment(b"..", &none);
    assert_eq!(text(&p), "");
    p.apply_fragment(b"...", &none);
    assert_eq!(text(&p), "...");
    assert!(!MosPath::needs_listing(b""));
    assert!(!MosPath::needs_listing(b"."));
    assert!(!MosPath::needs_listing(b".."));
    assert!(MosPath::needs_listing(b"..."));
    assert!(MosPath::needs_listing(b"a"));
}

fn host(dir: &MosPath) -> Vec<Vec<u8>> {
    match text(dir).as_str() {
        "" => names(&["Games", "README.md"]),
        "Games" => names(&["Pong", "pacman.bin"]),
        "Games/Pong" => names(&["PONG.BAS"]),
        _ => names(&[]),
    }
}

#[test]
fn path_is_joined_to_the_working_directory() {
    let cwd = path(&["Games"]);
    assert_eq!(text(&mos_path_join(&cwd, b"pong/pong.bas", host)), "Games/Pong/PONG.BAS");
    assert_eq!(text(&mos_path_join(&cwd, b"/readme.MD", host)), "README.md");
    assert_eq!(text(&mos_path_join(&cwd, b"\\games\\PACMAN.BIN", host)), "Games/pacman.bin");
    assert_eq!(text(&mos_path_join(&cwd, b"../games/./pong/", host)), "Games/Pong");
    assert_eq!(text(&mos_path_join(&cwd, b"", host)), "Games");
    assert_eq!(text(&mos_path_join(&cwd, b"/", host)), "");
    assert_eq!(text(&mos_path_join(&cwd, b"..", host)), "");
    assert_eq!(text(&mos_path_join(&cwd, b"new/File.txt", host)), "Games/new/File.txt");
    assert_eq!(text(&mos_path_join(&MosPath::new(), b"GAMES", host)), "Games");
}

#[test]
fn request_that_differs_only_in_case_names_the_host_path() {
    for request in ["games/pong/pong.bas", "GAMES/PONG/PONG.BAS", "gAmEs/pOnG/PoNg.BaS"] {
        let joined = mos_path_join(&MosPath::new(), request.as_bytes(), host);
        assert_eq!(text(&joined), "Games/Pong/PONG.BAS");
    }
}

#[test]
fn lister_is_asked_for_the_directory_so_far() {
    let asked = std::cell::RefCell::new(Vec::<String>::new());
    let lister = |dir: &MosPath| {
        asked.borrow_mut().push(text(dir));
        host(dir)
    };
    let joined = mos_path_join(&path(&["Games"]), b"./pong//../PACMAN.bin", lister);
    assert_eq!(text(&joined), "Games/pacman.bin");
    // once for each fragment that names an entry, with the path before it
    assert_eq!(*asked.borrow(), ["Games", "Games"]);
    asked.borrow_mut().clear();
    let joined = mos_path_join(&path(&["Games"]), b"/games/pong/pong.bas", |dir: &MosPath| {
        asked.borrow_mut().push(text(dir));
        host(dir)
    });
    assert_eq!(text(&joined), "Games/Pong/PONG.BAS");
    assert_eq!(*asked.borrow(), ["", "Games", "Games/Pong"]);
}
