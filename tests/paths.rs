use ftp_server::path::{clear_path, is_within, join_path, listing, parent_and_child, show_from};
use ftp_server::store::SystemUsers;
use ftp_server::user::User;

const CWD: &str = "/srv/ftp";

/// What a file system with the directories below would make of `path`,
/// relative to `CWD`; `home` is a link to `root`.
fn canonical(path: &str) -> Option<String> {
    let existing = [
        "/srv/ftp/root",
        "/srv/ftp/root/qwerty2",
        "/srv/ftp/root/qwerty2/thing2",
        "/srv/ftp/root/qwerty2/thing3",
        "/srv/ftp/root/qwerty2/thing3/thing4",
        "/srv",
        "/srv/ftp",
        "/",
    ];
    let full = if path.starts_with('/') {
        path.to_string()
    } else {
        format!("{}/{}", CWD, path)
    };
    let mut parts: Vec<String> = Vec::new();
    for part in full.split('/') {
        match part {
            "" | "." => {}
            ".." => {
                parts.pop();
            }
            other => {
                if parts.len() == 2 && other == "home" {
                    parts.push("root".to_string());
                } else {
                    parts.push(other.to_string());
                }
                let now = format!("/{}", parts.join("/"));
                if !existing.contains(&now.as_str()) {
                    return None;
                }
            }
        }
    }
    Some(format!("/{}", parts.join("/")))
}

fn change(user: &mut User, dir: &str) -> Result<(), &'static str> {
    let root = canonical(user.get_chroot()).unwrap();
    let target = canonical(&user.target_path(dir));
    user.change_dir(dir, &root, target.as_deref())
}

fn are_equal_paths(user: &User, path: &str) -> bool {
    canonical(&user.total_path_non_canon()) == canonical(path)
}

#[test]
fn testing_clear_path() {
    let p = format!("{}/root/user_01", CWD);
    assert_eq!(clear_path(&p, CWD), "./root/user_01");
}

#[test]
fn check_paths() {
    let new_user_name = "qwerty2";
    let new_user_passwd = new_user_name;
    let mut sys_users = SystemUsers::new();
    let create = sys_users.create_user(new_user_name, new_user_passwd);
    assert!(create.is_ok());
    let mut user = sys_users.get_user_clone(new_user_name).expect("to work");
    change(&mut user, "./thing").expect_err("Expect this an error");
    assert!(are_equal_paths(&user, "./home/qwerty2"));
    change(&mut user, "..").expect_err("Expected this to be an error");
    assert!(are_equal_paths(&user, "./home/qwerty2"));
    change(&mut user, "/thing3/thing4").expect("expect this to be ok");
    assert!(are_equal_paths(&user, "./home/qwerty2/thing3/thing4"));
    change(&mut user, "../").expect("Expected this to be ok");
    assert!(are_equal_paths(&user, "./home/qwerty2/thing3"));
    change(&mut user, "..").expect("Expected this to be ok");
    assert!(are_equal_paths(&user, "./home/qwerty2"));
    change(&mut user, "./thing3").expect("Expected this to be ok");
    assert!(are_equal_paths(&user, "./home/qwerty2/thing3"));
    change(&mut user, "./thing4").expect("Expected this to be ok");
    assert!(are_equal_paths(&user, "./home/qwerty2/thing3/thing4"));
    change(&mut user, "/thing2").expect("Expected this to be ok");
    assert!(are_equal_paths(&user, "./home/qwerty2/thing2"));
    change(&mut user, "/thing3/thing4").expect("Expected this to be ok");
    assert!(are_equal_paths(&user, "./home/qwerty2/thing3/thing4"));
    change(&mut user, "/").expect("Expected this to be ok");
    assert!(are_equal_paths(&user, "./home/qwerty2"));
    assert!(are_equal_paths(&user, "./home/qwerty2//././././././//./"));
    change(&mut user, "./thing3").expect("Expected this to be ok");
    assert!(are_equal_paths(&user, "./home/qwerty2//././././././//./thing3/thing4/.."));
    assert!(!are_equal_paths(&user, "./home/qwerty2//././././././//./thing3/thing4/./."));
}

#[test]
fn change_dir_errors_name_the_cause() {
    let mut user = User::new("u", "p", 1);
    assert_eq!(
        user.change_dir("nowhere", "/srv/ftp/root/u", None),
        Err("Directory not found")
    );
    assert_eq!(
        user.change_dir("..", "/srv/ftp/root/u", Some("/srv/ftp/root")),
        Err("Invalid directory")
    );
    assert_eq!(user.get_actual_dir(), "./");
    assert_eq!(
        user.change_dir("a", "/srv/ftp/root/u", Some("/srv/ftp/root/u/a")),
        Ok(())
    );
    assert_eq!(user.get_actual_dir(), "././a");
}

#[test]
fn new_dir_returns_the_canonical_path() {
    assert_eq!(
        User::new_dir("./root/u", "./", "a", "/x/root/u", Some("/x/root/u/a")),
        Ok("/x/root/u/a".to_string())
    );
    assert_eq!(
        User::new_dir("./root/u", "./", "../v", "/x/root/u", Some("/x/root/v")),
        Err("Invalid directory")
    );
    assert_eq!(
        User::new_dir("./root/u", "./", "a", "/x/root/u", None),
        Err("Directory not found")
    );
}

#[test]
fn sandbox_compares_whole_components() {
    assert!(is_within("/x/root/u", "/x/root/u"));
    assert!(is_within("/x/root/u", "/x/root/u/a/b"));
    assert!(!is_within("/x/root/u", "/x/root/u2"));
    assert!(!is_within("/x/root/u", "/x/root"));
    assert!(is_within("/", "/etc"));
}

#[test]
fn joining_paths() {
    assert_eq!(join_path("a", "b"), "a/b");
    assert_eq!(join_path("a/", "b"), "a/b");
    assert_eq!(join_path("", "b"), "b");
    assert_eq!(join_path("a", "/b"), "/b");
    assert_eq!(join_path("a", ""), "a/");
}

#[test]
fn target_paths_stay_under_the_root() {
    let user = User::new("u", "p", 1);
    assert_eq!(user.get_chroot(), "./root/u");
    assert_eq!(user.target_path("/a"), "./root/u/.//a");
    assert_eq!(user.target_path("a"), "./root/u/././a");
    assert_eq!(user.total_path_non_canon(), "./root/u/./");
}

#[test]
fn shown_directory() {
    let user = User::new("u", "p", 1);
    assert_eq!(user.total_path_and_decano("/x/root/u", "/x/root/u"), "/");
    assert_eq!(user.total_path_and_decano("/x/root/u", "/x/root/u/a"), "/a");
    assert_eq!(show_from("/x", "/y"), "/y");
}

#[test]
fn splitting_parent_and_child() {
    assert_eq!(
        parent_and_child("./thing.txt"),
        Some((".".to_string(), "thing.txt".to_string()))
    );
    assert_eq!(
        parent_and_child("/a"),
        Some(("./".to_string(), "a".to_string()))
    );
    assert_eq!(parent_and_child("a"), Some(("".to_string(), "a".to_string())));
    assert_eq!(
        parent_and_child("x/y/z"),
        Some(("x/y".to_string(), "z".to_string()))
    );
    assert_eq!(parent_and_child("x/.."), None);
    assert_eq!(parent_and_child("x/"), None);
    assert_eq!(parent_and_child("."), None);
}

#[test]
fn listing_lines() {
    let names = vec!["a".to_string(), "bc".to_string()];
    assert_eq!(listing(&names), b"a\r\nbc\r\n".to_vec());
    assert_eq!(listing(&Vec::new()), Vec::<u8>::new());
}
