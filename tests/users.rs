use ftp_server::store::SystemUsers;
use ftp_server::user::User;

fn store_with_root() -> SystemUsers {
    SystemUsers::from_records(vec![(
        "root".to_string(),
        User::from_record("toor".to_string(), "./root/root".to_string(), 0),
    )])
}

#[test]
fn create_delete_user() {
    let new_user_name = "qwerty";
    let new_user_passwd = new_user_name;
    let mut sys_users = store_with_root();

    let created = sys_users.create_user(new_user_name, new_user_passwd);
    assert!(created.is_ok());

    let fail_create = sys_users.create_user(new_user_name, new_user_passwd);
    assert!(fail_create.is_err());

    let deleted = sys_users.delete_user(new_user_name, new_user_passwd);
    assert!(deleted.is_ok());

    let fail_delete = sys_users.delete_user("root", "1234");
    assert!(fail_delete.is_err());

    let fail_delete = sys_users.delete_user(new_user_name, new_user_passwd);
    assert!(fail_delete.is_err());
}

#[test]
fn new_accounts_get_the_next_id() {
    let mut users = SystemUsers::new();
    users.create_user("a", "x").unwrap();
    assert_eq!(users.get_user("a").unwrap().get_uid(), 0);
    users.create_user("b", "y").unwrap();
    assert_eq!(users.get_user("b").unwrap().get_uid(), 1);
    let mut users = SystemUsers::from_records(vec![(
        "c".to_string(),
        User::from_record("z".to_string(), "./root/c".to_string(), 41),
    )]);
    users.create_user("d", "w").unwrap();
    let d = users.get_user("d").unwrap();
    assert_eq!(d.get_uid(), 42);
    assert_eq!(d.get_chroot(), "./root/d");
    assert_eq!(d.get_actual_dir(), "./");
    assert!(d.has_passwd("w"));
}

#[test]
fn account_errors() {
    let mut users = store_with_root();
    assert_eq!(users.create_user("root", "x"), Err("User already exists"));
    assert_eq!(users.delete_user("root", "1234").unwrap_err(), "Invalid password");
    assert_eq!(users.delete_user("nobody", "x").unwrap_err(), "User do not exists");
    let gone = users.delete_user("root", "toor").unwrap();
    assert_eq!(gone.get_chroot(), "./root/root");
    assert!(!users.user_exists("root"));
    let mut full = SystemUsers::from_records(vec![(
        "max".to_string(),
        User::from_record("m".to_string(), "./root/max".to_string(), u16::MAX),
    )]);
    assert_eq!(full.create_user("e", "e"), Err("No user id left"));
}

#[test]
fn lookups() {
    let users = store_with_root();
    assert!(users.user_exists("root"));
    assert!(!users.user_exists("roo"));
    assert!(users.has_passwd("root", "toor"));
    assert!(!users.has_passwd("root", "toor2"));
    assert!(!users.has_passwd("nobody", "toor"));
    assert!(users.get_user_clone("nobody").is_none());
    assert_eq!(users.len(), 1);
    let (name, user) = users.entry_at(0);
    assert_eq!(name, "root");
    assert_eq!(user.get_uid(), 0);
}

#[test]
fn later_records_win() {
    let users = SystemUsers::from_records(vec![
        (
            "a".to_string(),
            User::from_record("1".to_string(), "./root/a".to_string(), 1),
        ),
        (
            "a".to_string(),
            User::from_record("2".to_string(), "./root/a2".to_string(), 2),
        ),
    ]);
    assert_eq!(users.len(), 1);
    assert!(users.has_passwd("a", "2"));
    assert_eq!(users.get_user("a").unwrap().get_chroot(), "./root/a2");
}

#[test]
fn insert_replaces() {
    let mut users = store_with_root();
    let mut u = users.get_user_clone("root").unwrap();
    u.change_dir("x", "/r", Some("/r/x")).unwrap();
    users.insert("root".to_string(), u);
    assert_eq!(users.get_user("root").unwrap().get_actual_dir(), "././x");
    assert_eq!(users.len(), 1);
}
