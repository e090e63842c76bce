use ftp_server::command::{Command, ParseError};

#[test]
fn command_check_command_parsing_works() {
    let tests = [
        (
            "LIST ./test/test/test1.txt\r\n".as_bytes(),
            Command::List("./test/test/test1.txt".to_string()),
            true,
        ),
        (
            "RETR ./test/test/test1.txt\r\n".as_bytes(),
            Command::Retr("./test/test/test1.txt".to_string()),
            true,
        ),
        (
            "STOR ./test/test/test1.txt\r\n".as_bytes(),
            Command::Store("./test/test/test1.txt".to_string()),
            true,
        ),
        (
            "MKD ./test/test/test1.txt\r\n".as_bytes(),
            Command::Mkdir("./test/test/test1.txt".to_string()),
            true,
        ),
        (
            "CWD ./test/test/test1.txt\r\n".as_bytes(),
            Command::ChangeDirectory("./test/test/test1.txt".to_string()),
            true,
        ),
        (
            "RMD ./test/test/test1.txt\r\n".as_bytes(),
            Command::RemoveDirectory("./test/test/test1.txt".to_string()),
            true,
        ),
        (
            "DELE ./test/test/test1.txt\r\n".as_bytes(),
            Command::Delete("./test/test/test1.txt".to_string()),
            true,
        ),
        (
            "RNFR ./test/test/test1.txt\r\n".as_bytes(),
            Command::RenameFrom("./test/test/test1.txt".to_string()),
            true,
        ),
        (
            "RNTO ./test/test/test1.txt\r\n".as_bytes(),
            Command::RenameTo("./test/test/test1.txt".to_string()),
            true,
        ),
        ("USER GABI\r\n".as_bytes(), Command::User("GABI".to_string()), true),
        (
            "USER GABI_is_COOL\r\n".as_bytes(),
            Command::User("GABI_is_COOL".to_string()),
            true,
        ),
        ("PASV\r\n".as_bytes(), Command::Passive, true),
        ("PWD\r\n".as_bytes(), Command::CurrentDirectory, true),
        ("PASS GABI\r\n".as_bytes(), Command::Password("GABI".to_string()), true),
        (
            "PASS GABI_is_COOL\r\n".as_bytes(),
            Command::Password("GABI_is_COOL".to_string()),
            true,
        ),
        ("LIST\r\n".as_bytes(), Command::List("./".to_string()), true),
        (
            "PORT 0,0,0,0,0,20\r\n".as_bytes(),
            Command::Port([0, 0, 0, 0], 20),
            true,
        ),
        (
            "PORT 255,255,100,100,6,241\r\n".as_bytes(),
            Command::Port([255, 255, 100, 100], 6 * 256 + 241),
            true,
        ),
        (
            "PORT 255,255,100,100,40,20\r\n".as_bytes(),
            Command::Port([255, 255, 100, 100], 40 * 256 + 20),
            true,
        ),
        (
            "PORT 1,253,0,20,40,200\r\n".as_bytes(),
            Command::Port([1, 253, 0, 20], 40 * 256 + 200),
            true,
        ),
    ];
    for test in tests.iter() {
        let (command_buff, expected_path, should_be_equal) = test;
        let command_try = Command::try_from(&command_buff[..]);
        if let Err(msg) = command_try {
            panic!("{}", msg.message());
        }
        let command = command_try.unwrap();
        assert_eq!(
            &command == expected_path,
            *should_be_equal,
            "{:?} != {:?}",
            command,
            expected_path
        );
    }
}

#[test]
fn port_extreme_values() {
    assert_eq!(
        Command::try_from(&b"PORT 0,0,0,0,0,0\r\n"[..]),
        Ok(Command::Port([0, 0, 0, 0], 0))
    );
    assert_eq!(
        Command::try_from(&b"PORT 255,255,255,255,255,255\r\n"[..]),
        Ok(Command::Port([255, 255, 255, 255], 65535))
    );
    assert_eq!(
        Command::try_from(&b"PORT 127,0,0,1,8,187\r\n"[..]),
        Ok(Command::Port([127, 0, 0, 1], 2235))
    );
    assert_eq!(
        Command::try_from(&b"PORT 001,02,3,4,0,010\r\n"[..]),
        Ok(Command::Port([1, 2, 3, 4], 10))
    );
}

#[test]
fn each_parse_error() {
    let cases: [(&[u8], ParseError); 20] = [
        (b"\r\n", ParseError::TooShort),
        (b"USER a\n\n", ParseError::MissingCrlf),
        (b"USER a\r\r", ParseError::MissingCrlf),
        (b"CWD\r\n", ParseError::InvalidLength),
        (b"CXX abc\r\n", ParseError::InvalidCommand),
        (b"CWDxabc\r\n", ParseError::ExpectedSpace),
        (b"CWD \xff\r\n", ParseError::NotUtf8),
        (b"QUTT\r\n", ParseError::NotQuit),
        (b"LOST\r\n", ParseError::NotList),
        (b"RNXX a\r\n", ParseError::UnknownCommand),
        (b"RX\r\n", ParseError::NotRetrOrRmd),
        (b"PASVX\r\n", ParseError::BadLength),
        (b"PAXX\r\n", ParseError::NotPassOrPasv),
        (b"POXX 1\r\n", ParseError::NotPort),
        (b"PORT 256,0,0,0,0,0\r\n", ParseError::InvalidIp),
        (b"PORT 1,2,3,4,256,1\r\n", ParseError::InvalidPort),
        (b"PORT 1,2,3,4,5,6,7\r\n", ParseError::BadPortFormat),
        (b"UXER abc\r\n", ParseError::NotUser),
        (b"XYZ\r\n", ParseError::UnknownVerb),
        (b"PWDX\r\n", ParseError::UnknownCommand),
    ];
    for (line, expected) in cases.iter() {
        assert_eq!(Command::try_from(line), Err(*expected), "{:?}", line);
    }
}

#[test]
fn port_fields_must_be_digits_and_six() {
    assert_eq!(
        Command::try_from(&b"PORT ,,,,,\r\n"[..]),
        Err(ParseError::InvalidIp)
    );
    assert_eq!(
        Command::try_from(&b"PORT 1,2,3\r\n"[..]),
        Err(ParseError::InvalidIp)
    );
    assert_eq!(
        Command::try_from(&b"PORT 1,2,3,4,5\r\n"[..]),
        Err(ParseError::InvalidPort)
    );
    assert_eq!(
        Command::try_from(&b"PORT 1,2,3,4,5,1000\r\n"[..]),
        Err(ParseError::InvalidPort)
    );
    assert_eq!(
        Command::try_from(&b"PORT 1,a,3,4,5,6\r\n"[..]),
        Err(ParseError::InvalidIp)
    );
}

#[test]
fn error_messages() {
    assert_eq!(ParseError::BadPortFormat.message(), "Bad format of the `PORT` command");
    assert_eq!(ParseError::TooShort.message(), "Command is too short");
}

#[test]
fn quit_and_list_forms() {
    assert_eq!(Command::try_from(&b"QUIT\r\n"[..]), Ok(Command::Quit));
    assert_eq!(
        Command::try_from(&b"LIST /a b\r\n"[..]),
        Ok(Command::List("/a b".to_string()))
    );
    assert_eq!(
        Command::try_from(&b"PASS \xc3\xa9t\xc3\xa9\r\n"[..]),
        Ok(Command::Password("été".to_string()))
    );
}

#[test]
fn which_commands_need_login() {
    assert!(!Command::User("a".to_string()).is_auth_command());
    assert!(!Command::Password("a".to_string()).is_auth_command());
    assert!(Command::Passive.is_auth_command());
    assert!(!Command::Quit.is_auth_command());
    assert!(Command::Port([1, 2, 3, 4], 5).is_auth_command());
    assert!(Command::List("./".to_string()).is_auth_command());
    assert!(Command::CurrentDirectory.is_auth_command());
    assert!(Command::RenameTo("x".to_string()).is_auth_command());
}
