use c_shell::resolve::{join, resolve, ResolvedExecutable};
use std::cell::RefCell;

fn strings(items: &[&str]) -> Vec<String> {
    items.iter().map(|s| s.to_string()).collect()
}

fn resolved(path: &str, argv: &[&str]) -> ResolvedExecutable {
    ResolvedExecutable { path: path.to_string(), argv: strings(argv) }
}

#[test]
fn bare_name_is_found_in_the_first_directory_that_has_it() {
    let search_path = strings(&["/bin", "/usr/bin"]);
    let r = resolve(strings(&["ls"]), &search_path, |p: &str| p == "/bin/ls");
    assert_eq!(r, resolved("/bin/ls", &["ls"]));
}

#[test]
fn directories_are_tried_in_list_order() {
    let search_path = strings(&["/bin", "/usr/bin"]);
    let both = |p: &str| p == "/bin/ls" || p == "/usr/bin/ls";
    assert_eq!(resolve(strings(&["ls"]), &search_path, both).path, "/bin/ls");
    let later = |p: &str| p == "/usr/bin/ls";
    assert_eq!(resolve(strings(&["ls"]), &search_path, later).path, "/usr/bin/ls");
    let reversed = strings(&["/usr/bin", "/bin"]);
    assert_eq!(resolve(strings(&["ls"]), &reversed, both).path, "/usr/bin/ls");
}

#[test]
fn existing_path_is_taken_as_typed_without_consulting_the_search_list() {
    let search_path = strings(&["/bin", "/usr/bin"]);
    let asked = RefCell::new(Vec::new());
    let r = resolve(strings(&["./script", "arg"]), &search_path, |p: &str| {
        asked.borrow_mut().push(p.to_string());
        p == "./script" || p == "/bin/./script"
    });
    assert_eq!(r, resolved("./script", &["./script", "arg"]));
    assert_eq!(*asked.borrow(), strings(&["./script"]));
}

#[test]
fn name_in_the_current_directory_comes_before_the_search_list() {
    let search_path = strings(&["/bin"]);
    let asked = RefCell::new(Vec::new());
    let r = resolve(strings(&["tool"]), &search_path, |p: &str| {
        asked.borrow_mut().push(p.to_string());
        p == "./tool" || p == "/bin/tool"
    });
    assert_eq!(r.path, "./tool");
    assert_eq!(*asked.borrow(), strings(&["tool", "./tool"]));
}

#[test]
fn candidates_are_asked_in_order_until_one_exists() {
    let search_path = strings(&["/a", "/b/", "", "/c"]);
    let asked = RefCell::new(Vec::new());
    let r = resolve(strings(&["x"]), &search_path, |p: &str| {
        asked.borrow_mut().push(p.to_string());
        false
    });
    assert_eq!(r.path, "x");
    assert_eq!(*asked.borrow(), strings(&["x", "./x", "/a/x", "/b/x", "x", "/c/x"]));
}

#[test]
fn name_that_is_nowhere_comes_back_unchanged() {
    let search_path = strings(&["/bin", "/usr/bin"]);
    let r = resolve(strings(&["nosuch", "-v"]), &search_path, |_: &str| false);
    assert_eq!(r, resolved("nosuch", &["nosuch", "-v"]));
}

#[test]
fn empty_search_list_leaves_the_two_direct_lookups() {
    let none: Vec<String> = Vec::new();
    assert_eq!(resolve(strings(&["x"]), &none, |p: &str| p == "./x").path, "./x");
    assert_eq!(resolve(strings(&["x"]), &none, |p: &str| p == "/bin/x").path, "x");
}

#[test]
fn join_puts_one_separator_between_directory_and_name() {
    assert_eq!(join("/bin", "ls"), "/bin/ls");
    assert_eq!(join("/bin/", "ls"), "/bin/ls");
    assert_eq!(join("/", "ls"), "/ls");
    assert_eq!(join("", "ls"), "ls");
    assert_eq!(join("rel/dir", "a.out"), "rel/dir/a.out");
}

#[test]
fn program_arguments_start_with_the_resolved_path() {
    let r = resolved("/bin/ls", &["ls", "-l", "/tmp"]);
    assert_eq!(r.arguments(), strings(&["/bin/ls", "-l", "/tmp"]));
    let r = resolved("nosuch", &["nosuch"]);
    assert_eq!(r.arguments(), strings(&["nosuch"]));
    let r = resolved("/bin/true", &[]);
    assert_eq!(r.arguments(), strings(&["/bin/true"]));
}
