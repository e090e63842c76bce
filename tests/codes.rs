use ftp_server::port::get_ftp_port_pair;
use ftp_server::server::{request_fits, REQUEST_BUFFER};
use ftp_server::response::{create_response, CodeFirst, CodeSecond, Response, ResponseCode};

#[test]
fn named_codes() {
    assert_eq!(ResponseCode::service_ready().0, 220);
    assert_eq!(ResponseCode::success_transfering_file().0, 201);
    assert_eq!(ResponseCode::success_uploading_file().0, 226);
    assert_eq!(ResponseCode::closing_data_connection().0, 226);
    assert_eq!(ResponseCode::file_action_not_taken().0, 553);
    assert_eq!(ResponseCode::command_okay().0, 200);
    assert_eq!(ResponseCode::bad_sequence_of_commands().0, 503);
    assert_eq!(ResponseCode::login_success().0, 230);
    assert_eq!(ResponseCode::unauthorized().0, 530);
    assert_eq!(ResponseCode::username_okay().0, 331);
    assert_eq!(ResponseCode::passive_ok().0, 227);
    assert_eq!(ResponseCode::all_ports_taken().0, 541);
    assert_eq!(ResponseCode::closing_control_connection_success().0, 221);
    assert_eq!(ResponseCode::file_unavailable().0, 550);
    assert_eq!(ResponseCode::file_busy().0, 450);
    assert_eq!(ResponseCode::file_status_okay().0, 150);
    assert_eq!(ResponseCode::file_action_okay().0, 250);
    assert_eq!(ResponseCode::file_action_pending().0, 350);
    assert_eq!(ResponseCode::directory_action_okay().0, 257);
    assert_eq!(ResponseCode::cant_open_data_connection().0, 425);
    assert_eq!(Response::service_ready().0, 220);
}

#[test]
fn codes_from_parts() {
    let code = ResponseCode::new_from_enums(CodeFirst::TransientNegativeCompletion, CodeSecond::Connections, 5);
    assert_eq!(code.0, 425);
    let code = ResponseCode::new_from_enums(CodeFirst::PositivePreliminary, CodeSecond::Syntax, 0);
    assert_eq!(code.0, 100);
    let code = ResponseCode::new_from_enums(CodeFirst::PermanentNegativeCompletion, CodeSecond::FileSystem, 9);
    assert_eq!(code.0, 559);
    assert_eq!(CodeFirst::Positive.value(), 200);
    assert_eq!(CodeSecond::Information.value(), 10);
}

#[test]
fn reply_lines() {
    assert_eq!(
        create_response(ResponseCode::service_ready(), "Service ready for new user."),
        b"220 Service ready for new user.\r\n".to_vec()
    );
    assert_eq!(create_response(ResponseCode(7), ""), b"7 \r\n".to_vec());
    assert_eq!(create_response(ResponseCode(65535), "x"), b"65535 x\r\n".to_vec());
    assert_eq!(create_response(ResponseCode(257), "a\r\nb\n"), b"257 a  b \r\n".to_vec());
    let line = create_response(ResponseCode::file_status_okay(), "ok");
    assert!(line[..3].iter().all(|b| b.is_ascii_digit()));
    assert_eq!(line[3], b' ');
    assert!(line.ends_with(b"\r\n"));
}

#[test]
fn passive_port_pairs() {
    assert_eq!(get_ftp_port_pair(0), (0, 0));
    assert_eq!(get_ftp_port_pair(2235), (8, 187));
    assert_eq!(get_ftp_port_pair(50000), (195, 80));
    assert_eq!(get_ftp_port_pair(65535), (255, 255));
    for port in [1u16, 255, 256, 257, 40000, 65534] {
        let (p1, p2) = get_ftp_port_pair(port);
        assert_eq!(p1 as u32 * 256 + p2 as u32, port as u32);
    }
}

#[test]
fn request_size_limit() {
    assert!(request_fits(0));
    assert!(request_fits(REQUEST_BUFFER - 1));
    assert!(!request_fits(REQUEST_BUFFER));
    assert!(!request_fits(REQUEST_BUFFER + 1));
}
