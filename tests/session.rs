use ftp_server::buffer::{AfterSend, BufferToWrite};
use ftp_server::command::Command;
use ftp_server::server::{CloseOutcome, Effect, FTPServer, Next};
use ftp_server::store::SystemUsers;

const DONE: &str = "226 Closing data connection. Requested file action successful (for example, file transfer or file abort).\r\n";
const DOWNLOADED: &str =
    "226 Closing data connection. Requested file action successful. (file transfer)\r\n";

fn reply(server: &FTPServer, token: usize) -> String {
    String::from_utf8(server.pending_reply(token)).unwrap()
}

/// Flushes the pending reply and hands back the step after it.
fn flush(server: &mut FTPServer, token: usize) -> Option<AfterSend> {
    let n = server.pending_reply(token).len();
    server.control_written(token, n)
}

fn logged_in_server() -> (FTPServer, usize) {
    let mut server = FTPServer::with_connection_capacity(100, SystemUsers::new());
    let (h, admitted) = server.new_connection().unwrap();
    assert!(admitted);
    assert_eq!(reply(&server, h), "220 Service ready for new user.\r\n");
    assert!(flush(&mut server, h).is_none());
    assert!(matches!(server.handle_request(h, b"USER u\r\n"), Next::Done));
    assert_eq!(reply(&server, h), "331 User name okay, need password.\r\n");
    flush(&mut server, h);
    match server.handle_request(h, b"PASS p\r\n") {
        Next::Created(home) => assert_eq!(home, "./root/u"),
        other => panic!("{:?}", other),
    }
    assert_eq!(reply(&server, h), "230 User logged in, proceed.\r\n");
    flush(&mut server, h);
    (server, h)
}

fn armed_active(server: &mut FTPServer, h: usize) -> usize {
    match server.handle_request(h, b"PORT 127,0,0,1,8,187\r\n") {
        Next::Connect(ip, port) => {
            assert_eq!(ip, [127, 0, 0, 1]);
            assert_eq!(port, 2235);
        }
        other => panic!("{:?}", other),
    }
    let (d, replaced) = server.port_connected(h, true).unwrap();
    assert_eq!(replaced, None);
    assert_eq!(reply(server, h), "200 Command okay.\r\n");
    flush(server, h);
    d
}

#[test]
fn greeting_and_login() {
    let (server, h) = logged_in_server();
    assert!(server.users().user_exists("u"));
    assert!(server.users().has_passwd("u", "p"));
    assert_eq!(h, 1);
}

#[test]
fn second_login_checks_the_password() {
    let (mut server, h) = logged_in_server();
    server.handle_request(h, b"USER u\r\n");
    flush(&mut server, h);
    assert!(matches!(server.handle_request(h, b"PASS wrong\r\n"), Next::Done));
    assert_eq!(reply(&server, h), "530 Not logged in.\r\n");
    flush(&mut server, h);
    assert!(matches!(server.handle_request(h, b"PWD\r\n"), Next::Done));
    assert_eq!(reply(&server, h), "531 Unauthorized.\r\n");
    flush(&mut server, h);
    assert!(matches!(server.handle_request(h, b"PASS p\r\n"), Next::Done));
    assert_eq!(reply(&server, h), "230 User logged in, proceed.\r\n");
}

#[test]
fn commands_before_login_are_refused() {
    let mut server = FTPServer::new(SystemUsers::new());
    let (h, _) = server.new_connection().unwrap();
    flush(&mut server, h);
    assert!(matches!(server.handle_request(h, b"LIST\r\n"), Next::Done));
    assert_eq!(reply(&server, h), "531 Unauthorized.\r\n");
    flush(&mut server, h);
    assert!(matches!(server.handle_request(h, b"PASS p\r\n"), Next::Done));
    assert_eq!(reply(&server, h), "530 Not logged in.\r\n");
    flush(&mut server, h);
    assert!(matches!(server.handle_request(h, b"HELLO\r\n"), Next::Done));
    assert_eq!(reply(&server, h), "500 invalid command\r\n");
}

#[test]
fn active_list() {
    let (mut server, h) = logged_in_server();
    let d = armed_active(&mut server, h);
    let cmd = Command::try_from(&b"LIST\r\n"[..]).unwrap();
    match server.handle_request(h, b"LIST\r\n") {
        Next::Resolve(root, target) => {
            assert_eq!(root, "./root/u");
            assert_eq!(target, "./root/u/./././");
        }
        other => panic!("{:?}", other),
    }
    let effect = server.resolved(h, &cmd, Some("/srv/root/u"), Some("/srv/root/u"));
    match effect {
        Effect::List(path) => assert_eq!(path, "/srv/root/u"),
        other => panic!("{:?}", other),
    }
    let ls = b"testfile.txt\r\n1.jpeg\r\n".to_vec();
    server.finish(h, &cmd, true, ls.clone());
    assert_eq!(
        reply(&server, h),
        "150 File status okay; about to open data connection.\r\n"
    );
    let step = flush(&mut server, h).unwrap();
    assert!(matches!(&step, AfterSend::StartListing(e, bytes) if *e == d && *bytes == ls));
    assert_eq!(server.start_transfer(step), Some((d, true)));
    assert_eq!(server.pending_data(d), ls);
    assert!(!server.data_written(d, 3));
    assert_eq!(server.pending_data(d), ls[3..].to_vec());
    assert!(server.data_written(d, ls.len() - 3));
    assert_eq!(server.transfer_finished(d), Some(h));
    assert_eq!(reply(&server, h), DONE);
    assert!(matches!(server.close_connection(d), CloseOutcome::Absent));
}

#[test]
fn active_retr() {
    let (mut server, h) = logged_in_server();
    let d = armed_active(&mut server, h);
    let cmd = Command::Retr("./testfile.txt".to_string());
    match server.handle_request(h, b"RETR ./testfile.txt\r\n") {
        Next::Resolve(root, target) => {
            assert_eq!(root, "./root/u");
            assert_eq!(target, "./root/u/./././testfile.txt");
        }
        other => panic!("{:?}", other),
    }
    match server.resolved(h, &cmd, Some("/srv/root/u"), Some("/srv/root/u/testfile.txt")) {
        Effect::OpenRead(path) => assert_eq!(path, "/srv/root/u/testfile.txt"),
        other => panic!("{:?}", other),
    }
    server.finish(h, &cmd, true, Vec::new());
    assert_eq!(reply(&server, h), "150 File download starts!\r\n");
    let step = flush(&mut server, h).unwrap();
    assert!(matches!(step, AfterSend::StartDownload(e) if e == d));
    assert_eq!(server.start_transfer(step), Some((d, true)));
    assert_eq!(server.transfer_finished(d), Some(h));
    assert_eq!(reply(&server, h), DOWNLOADED);
}

#[test]
fn active_stor() {
    let (mut server, h) = logged_in_server();
    let d = armed_active(&mut server, h);
    let cmd = Command::Store("./thing.txt".to_string());
    match server.handle_request(h, b"STOR ./thing.txt\r\n") {
        Next::Resolve(_, target) => assert_eq!(target, "./root/u/././."),
        other => panic!("{:?}", other),
    }
    match server.resolved(h, &cmd, Some("/srv/root/u"), Some("/srv/root/u")) {
        Effect::OpenWrite(path) => assert_eq!(path, "/srv/root/u/thing.txt"),
        other => panic!("{:?}", other),
    }
    server.finish(h, &cmd, true, Vec::new());
    assert_eq!(
        reply(&server, h),
        "150 File status okay; about to open data connection.\r\n"
    );
    let step = flush(&mut server, h).unwrap();
    assert_eq!(server.start_transfer(step), Some((d, false)));
    assert!(matches!(server.close_connection(d), CloseOutcome::NotYet));
    assert!(server.upload_closed(d));
    match server.close_connection(d) {
        CloseOutcome::Closed { notify, cascade } => {
            assert_eq!(notify, Some(h));
            assert_eq!(cascade, None);
        }
        other => panic!("{:?}", other),
    }
    assert_eq!(reply(&server, h), DONE);
}

#[test]
fn quit_closes_the_session() {
    let (mut server, h) = logged_in_server();
    assert!(matches!(server.handle_request(h, b"QUIT\r\n"), Next::Done));
    assert_eq!(reply(&server, h), "221 Service closing control connection.\r\n");
    assert!(!server.pending_reply(h).is_empty());
    let written = server.pending_reply(h).len() - 1;
    assert!(server.control_written(h, written).is_none());
    assert!(matches!(server.control_written(h, 1), Some(AfterSend::ShutdownControl)));
    assert!(server.control_written(h, 0).is_none());
    match server.close_connection(h) {
        CloseOutcome::Closed { notify, cascade } => {
            assert_eq!(notify, None);
            assert_eq!(cascade, None);
        }
        other => panic!("{:?}", other),
    }
}

#[test]
fn passive_retr() {
    let (mut server, h) = logged_in_server();
    assert!(matches!(server.handle_request(h, b"PASV\r\n"), Next::Bind));
    let (listener, replaced) = server.passive_bound(h, Some(50000)).unwrap();
    assert_eq!(replaced, None);
    let text = reply(&server, h);
    assert_eq!(text, "227 Entering Passive Mode (0,0,0,0,195,80)\r\n");
    let inner = &text[text.find('(').unwrap() + 1..text.find(')').unwrap()];
    let fields: Vec<u32> = inner.split(',').map(|f| f.parse().unwrap()).collect();
    assert_eq!(fields[4] * 256 + fields[5], 50000);
    flush(&mut server, h);
    let (d, owner) = server.passive_accepted(listener).unwrap();
    assert_eq!(owner, h);
    assert_eq!(reply(&server, h), "200 Command okay.\r\n");
    assert!(matches!(server.close_connection(listener), CloseOutcome::Absent));
    flush(&mut server, h);
    let cmd = Command::Retr("./1.jpeg".to_string());
    assert!(matches!(server.handle_request(h, b"RETR ./1.jpeg\r\n"), Next::Resolve(_, _)));
    server.resolved(h, &cmd, Some("/srv/root/u"), Some("/srv/root/u/1.jpeg"));
    server.finish(h, &cmd, true, Vec::new());
    let step = flush(&mut server, h).unwrap();
    assert_eq!(server.start_transfer(step), Some((d, true)));
}

#[test]
fn pasv_without_free_port() {
    let (mut server, h) = logged_in_server();
    assert_eq!(server.passive_bound(h, None), None);
    assert_eq!(reply(&server, h), "541 All ports are taken.\r\n");
}

#[test]
fn port_that_fails_to_connect() {
    let (mut server, h) = logged_in_server();
    assert_eq!(server.port_connected(h, false), None);
    assert_eq!(reply(&server, h), "503 Bad sequence of commands.\r\n");
}

#[test]
fn transfers_need_a_data_connection() {
    let (mut server, h) = logged_in_server();
    for line in [&b"LIST\r\n"[..], &b"RETR a\r\n"[..], &b"STOR a\r\n"[..]] {
        assert!(matches!(server.handle_request(h, line), Next::Done));
        assert_eq!(reply(&server, h), "503 Bad sequence of commands.\r\n");
        flush(&mut server, h);
    }
    assert!(matches!(server.handle_request(h, b"RNTO b\r\n"), Next::Done));
    assert_eq!(reply(&server, h), "503 Bad sequence of commands.\r\n");
}

#[test]
fn a_second_port_replaces_the_first() {
    let (mut server, h) = logged_in_server();
    let d1 = armed_active(&mut server, h);
    server.handle_request(h, b"PORT 127,0,0,1,8,188\r\n");
    let (d2, replaced) = server.port_connected(h, true).unwrap();
    assert_eq!(replaced, Some(d1));
    assert_ne!(d1, d2);
    assert!(matches!(server.close_connection(d1), CloseOutcome::Absent));
}

#[test]
fn closing_a_session_takes_its_data_connection() {
    let (mut server, h) = logged_in_server();
    let d = armed_active(&mut server, h);
    match server.close_connection(h) {
        CloseOutcome::Closed { notify, cascade } => {
            assert_eq!(notify, None);
            assert_eq!(cascade, Some(d));
        }
        other => panic!("{:?}", other),
    }
    assert!(matches!(server.close_connection(d), CloseOutcome::Absent));
    assert!(matches!(server.close_connection(h), CloseOutcome::Absent));
}

#[test]
fn a_cut_download_answers_426() {
    let (mut server, h) = logged_in_server();
    let d = armed_active(&mut server, h);
    assert_eq!(server.start_transfer(AfterSend::StartDownload(d)), Some((d, true)));
    match server.close_connection(d) {
        CloseOutcome::Closed { notify, .. } => assert_eq!(notify, Some(h)),
        other => panic!("{:?}", other),
    }
    assert_eq!(reply(&server, h), "426 Connection closed; transfer aborted.\r\n");
}

#[test]
fn an_armed_connection_closes_quietly() {
    let (mut server, h) = logged_in_server();
    let d = armed_active(&mut server, h);
    match server.close_connection(d) {
        CloseOutcome::Closed { notify, cascade } => {
            assert_eq!(notify, None);
            assert_eq!(cascade, None);
        }
        other => panic!("{:?}", other),
    }
    assert!(matches!(server.handle_request(h, b"LIST\r\n"), Next::Done));
    assert_eq!(reply(&server, h), "503 Bad sequence of commands.\r\n");
}

#[test]
fn over_capacity_connections_are_closed() {
    let mut server = FTPServer::with_connection_capacity(1, SystemUsers::new());
    let (a, admitted_a) = server.new_connection().unwrap();
    let (b, admitted_b) = server.new_connection().unwrap();
    assert!(admitted_a);
    assert!(!admitted_b);
    assert!(a < b);
    assert!(matches!(
        server.close_connection(b),
        CloseOutcome::Closed { notify: None, cascade: None }
    ));
    server.close_connection(a);
    let (_, admitted_c) = server.new_connection().unwrap();
    assert!(admitted_c);
}

#[test]
fn make_directory_twice() {
    let (mut server, h) = logged_in_server();
    let cmd = Command::Mkdir("p".to_string());
    for ok in [true, false] {
        match server.handle_request(h, b"MKD p\r\n") {
            Next::Resolve(_, target) => assert_eq!(target, "./root/u/././"),
            other => panic!("{:?}", other),
        }
        match server.resolved(h, &cmd, Some("/srv/root/u"), Some("/srv/root/u")) {
            Effect::CreateDir(path) => assert_eq!(path, "/srv/root/u/p"),
            other => panic!("{:?}", other),
        }
        server.finish(h, &cmd, ok, Vec::new());
        if ok {
            assert_eq!(reply(&server, h), "257 'p' directory created.\r\n");
        } else {
            assert_eq!(
                reply(&server, h),
                "550 Requested action not taken. File unavailable, file not found.\r\n"
            );
        }
        flush(&mut server, h);
    }
}

#[test]
fn change_directory_and_print_it() {
    let (mut server, h) = logged_in_server();
    let cwd = Command::ChangeDirectory("..".to_string());
    server.handle_request(h, b"CWD ..\r\n");
    server.resolved(h, &cwd, Some("/srv/root/u"), Some("/srv/root"));
    assert_eq!(
        reply(&server, h),
        "550 Requested action not taken. File unavailable, file not found.\r\n"
    );
    let cwd = Command::ChangeDirectory("a".to_string());
    server.handle_request(h, b"CWD a\r\n");
    server.resolved(h, &cwd, Some("/srv/root/u"), Some("/srv/root/u/a"));
    assert_eq!(reply(&server, h), "250 Requested file action okay, completed.\r\n");
    assert_eq!(server.users().get_user("u").unwrap().get_actual_dir(), "./");
    match server.handle_request(h, b"PWD\r\n") {
        Next::Resolve(root, target) => {
            assert_eq!(root, "./root/u");
            assert_eq!(target, "./root/u/././a");
        }
        other => panic!("{:?}", other),
    }
    server.resolved(h, &Command::CurrentDirectory, Some("/srv/root/u"), Some("/srv/root/u/a"));
    assert_eq!(reply(&server, h), "257 /a\r\n");
}

#[test]
fn rename_in_two_steps() {
    let (mut server, h) = logged_in_server();
    let from = Command::RenameFrom("a".to_string());
    server.handle_request(h, b"RNFR a\r\n");
    server.resolved(h, &from, Some("/srv/root/u"), Some("/srv/root/u/a"));
    assert_eq!(
        reply(&server, h),
        "350 Requested file action pending further information.\r\n"
    );
    let to = Command::RenameTo("b".to_string());
    assert!(matches!(server.handle_request(h, b"RNTO b\r\n"), Next::Resolve(_, _)));
    match server.resolved(h, &to, Some("/srv/root/u"), Some("/srv/root/u/b")) {
        Effect::Rename(a, b) => {
            assert_eq!(a, "/srv/root/u/a");
            assert_eq!(b, "/srv/root/u/b");
        }
        other => panic!("{:?}", other),
    }
    server.finish(h, &to, true, Vec::new());
    assert_eq!(reply(&server, h), "250 Requested file action okay, completed.\r\n");
    assert!(matches!(server.handle_request(h, b"RNTO b\r\n"), Next::Done));
    assert_eq!(reply(&server, h), "503 Bad sequence of commands.\r\n");
}

#[test]
fn paths_outside_the_root_are_refused() {
    let (mut server, h) = logged_in_server();
    let cmd = Command::Delete("../v/f".to_string());
    server.handle_request(h, b"DELE ../v/f\r\n");
    assert!(matches!(
        server.resolved(h, &cmd, Some("/srv/root/u"), Some("/srv/root/v/f")),
        Effect::Done
    ));
    assert_eq!(
        reply(&server, h),
        "550 Requested action not taken. File unavailable, file not found.\r\n"
    );
    assert!(matches!(
        server.resolved(h, &cmd, Some("/srv/root/u"), None),
        Effect::Done
    ));
    match server.resolved(h, &Command::Delete("f".to_string()), Some("/srv/root/u"), Some("/srv/root/u/f")) {
        Effect::RemoveFile(p) => assert_eq!(p, "/srv/root/u/f"),
        other => panic!("{:?}", other),
    }
}

#[test]
fn buffer_hands_back_its_step_once() {
    let mut b = BufferToWrite::new(b"abc".to_vec());
    b.set_after_send(AfterSend::ShutdownControl);
    assert_eq!(b.remaining(), b"abc");
    assert!(b.advance(1).is_none());
    assert_eq!(b.remaining(), b"bc");
    assert!(matches!(b.advance(2), Some(AfterSend::ShutdownControl)));
    assert!(b.is_drained());
    assert!(b.advance(0).is_none());
    b.reset_str("xy");
    assert_eq!(b.remaining(), b"xy");
    let d = BufferToWrite::default();
    assert!(d.is_empty());
}

#[test]
fn a_failed_retr_drops_the_data_connection() {
    let (mut server, h) = logged_in_server();
    let d = armed_active(&mut server, h);
    let cmd = Command::Retr("missing".to_string());
    assert!(matches!(server.handle_request(h, b"RETR missing\r\n"), Next::Resolve(_, _)));
    match server.resolved(h, &cmd, Some("/srv/root/u"), Some("/srv/root/u/missing")) {
        Effect::OpenRead(p) => assert_eq!(p, "/srv/root/u/missing"),
        other => panic!("{:?}", other),
    }
    assert_eq!(server.finish(h, &cmd, false, Vec::new()), Some(d));
    assert_eq!(
        reply(&server, h),
        "550 Requested action not taken. File unavailable, file not found.\r\n"
    );
    assert!(matches!(server.close_connection(d), CloseOutcome::Absent));
    flush(&mut server, h);
    assert!(matches!(server.handle_request(h, b"RETR missing\r\n"), Next::Done));
    assert_eq!(reply(&server, h), "503 Bad sequence of commands.\r\n");
}

#[test]
fn a_transfer_outside_the_root_drops_the_data_connection() {
    let (mut server, h) = logged_in_server();
    let d = armed_active(&mut server, h);
    let cmd = Command::List("..".to_string());
    assert!(matches!(server.handle_request(h, b"LIST ..\r\n"), Next::Resolve(_, _)));
    match server.resolved(h, &cmd, Some("/srv/root/u"), Some("/srv/root")) {
        Effect::Abandon(e) => assert_eq!(e, d),
        other => panic!("{:?}", other),
    }
    assert_eq!(
        reply(&server, h),
        "550 Requested action not taken. File unavailable, file not found.\r\n"
    );
    assert_eq!(server.data_ref(h), None);
}

#[test]
fn a_failed_upload_answers_450_or_426() {
    let (mut server, h) = logged_in_server();
    let d = armed_active(&mut server, h);
    assert_eq!(server.start_transfer(AfterSend::StartUpload(d)), Some((d, false)));
    assert!(server.upload_failed(d, true));
    match server.close_connection(d) {
        CloseOutcome::Closed { notify, .. } => assert_eq!(notify, Some(h)),
        other => panic!("{:?}", other),
    }
    assert_eq!(reply(&server, h), "450 Requested file action not taken.\r\n");
    assert!(!server.upload_failed(d, true));
    flush(&mut server, h);
    let d = armed_active(&mut server, h);
    assert_eq!(server.start_transfer(AfterSend::StartUpload(d)), Some((d, false)));
    assert!(server.upload_failed(d, false));
    server.close_connection(d);
    assert_eq!(reply(&server, h), "426 Connection closed; transfer aborted.\r\n");
}

#[test]
fn echoed_line_breaks_stay_on_one_line() {
    let (mut server, h) = logged_in_server();
    let cmd = Command::try_from(&b"MKD a\nb\r\n"[..]).unwrap();
    assert_eq!(cmd, Command::Mkdir("a\nb".to_string()));
    assert!(matches!(server.handle_request(h, b"MKD a\nb\r\n"), Next::Resolve(_, _)));
    match server.resolved(h, &cmd, Some("/srv/root/u"), Some("/srv/root/u")) {
        Effect::CreateDir(path) => assert_eq!(path, "/srv/root/u/a\nb"),
        other => panic!("{:?}", other),
    }
    server.finish(h, &cmd, true, Vec::new());
    assert_eq!(reply(&server, h), "257 'a b' directory created.\r\n");
    flush(&mut server, h);
    server.handle_request(h, b"PWD\r\n");
    server.resolved(h, &Command::CurrentDirectory, Some("/srv/root/u"), Some("/srv/root/u/x\r\ny"));
    assert_eq!(reply(&server, h), "257 /x  y\r\n");
}

#[test]
fn passive_needs_login() {
    let mut server = FTPServer::new(SystemUsers::new());
    let (h, _) = server.new_connection().unwrap();
    flush(&mut server, h);
    assert!(matches!(server.handle_request(h, b"PASV\r\n"), Next::Done));
    assert_eq!(reply(&server, h), "531 Unauthorized.\r\n");
}

#[test]
fn each_session_has_its_own_directory() {
    let (mut server, h) = logged_in_server();
    let (g, _) = server.new_connection().unwrap();
    flush(&mut server, g);
    server.handle_request(g, b"USER u\r\n");
    flush(&mut server, g);
    assert!(matches!(server.handle_request(g, b"PASS p\r\n"), Next::Done));
    flush(&mut server, g);
    let cwd = Command::ChangeDirectory("a".to_string());
    server.handle_request(h, b"CWD a\r\n");
    server.resolved(h, &cwd, Some("/srv/root/u"), Some("/srv/root/u/a"));
    match server.handle_request(g, b"PWD\r\n") {
        Next::Resolve(_, target) => assert_eq!(target, "./root/u/./"),
        other => panic!("{:?}", other),
    }
    match server.handle_request(h, b"PWD\r\n") {
        Next::Resolve(_, target) => assert_eq!(target, "./root/u/././a"),
        other => panic!("{:?}", other),
    }
}

#[test]
fn handles_count_up() {
    let (mut server, h) = logged_in_server();
    assert_eq!(h, 1);
    let d = armed_active(&mut server, h);
    assert_eq!(d, 2);
    server.handle_request(h, b"PASV\r\n");
    let (l, replaced) = server.passive_bound(h, Some(50001)).unwrap();
    assert_eq!(l, 3);
    assert_eq!(replaced, Some(2));
    let (p, owner) = server.passive_accepted(l).unwrap();
    assert_eq!((p, owner), (4, h));
    let (c, _) = server.new_connection().unwrap();
    assert_eq!(c, 5);
}

#[test]
fn pwd_outside_the_root_is_refused() {
    let (mut server, h) = logged_in_server();
    assert!(matches!(server.handle_request(h, b"PWD\r\n"), Next::Resolve(_, _)));
    server.resolved(h, &Command::CurrentDirectory, Some("/srv/root/u"), Some("/elsewhere"));
    assert_eq!(
        reply(&server, h),
        "550 Requested action not taken. File unavailable, file not found.\r\n"
    );
}
