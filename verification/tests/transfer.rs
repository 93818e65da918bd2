use ttstack::transfer::{
    check_push, check_reply_size, download_step, is_push_target, meta_header,
    parse_meta_header, server_addr, time_out, Direction, TransReq,
};

#[test]
fn trans_req_checks() {
    let p = TransReq::new(Direction::Push, "/a".into(), "/b".into(), true, 42).ok().unwrap();
    assert_eq!(p.file_size, 42);
    assert!(p.drct == Direction::Push);
    let g = TransReq::new(Direction::Get, "/a".into(), "/b".into(), false, 42).ok().unwrap();
    assert_eq!(g.file_size, 0);
    let e = TransReq::new(Direction::Get, "/a".into(), "/b".into(), true, 0).err().unwrap();
    assert_eq!(e, "File: `/a` already exists!");
}

#[test]
fn meta_header_width() {
    assert_eq!(meta_header(7), "0007");
    assert_eq!(meta_header(1234), "1234");
    assert_eq!(meta_header(12345), "12345");
    assert_eq!(meta_header(0), "0000");
    assert_eq!(parse_meta_header("0042"), Some(42));
    assert_eq!(parse_meta_header("x"), None);
    assert_eq!(meta_header(123), format!("{:>04}", 123));
}

#[test]
fn reply_and_download_accounting() {
    assert!(check_reply_size(16384, 100).is_ok());
    assert!(check_reply_size(10, 100).is_err());
    assert_eq!(download_step(100, 100, 60), Ok(40));
    assert_eq!(download_step(100, 40, 40), Ok(0));
    assert_eq!(download_step(100, 40, 0), Err("declared_size: 100, recvd: 60".to_string()));
}

#[test]
fn command_line_defaults() {
    assert_eq!(server_addr("10.0.0.1", None), "10.0.0.1:22000");
    assert_eq!(server_addr("10.0.0.1", Some("9")), "10.0.0.1:9");
    assert_eq!(time_out(None), Some(3));
    assert_eq!(time_out(Some("10")), Some(10));
    assert_eq!(time_out(Some("ten")), None);
}

#[test]
fn push_targets_and_checks() {
    assert!(is_push_target(1, "CentOS7", &[], &[]));
    assert!(is_push_target(3, "x", &[1, 3], &[]));
    assert!(is_push_target(4, "CentOS7.6", &[1], &["centos".to_string()]));
    assert!(!is_push_target(4, "ubuntu", &[1], &["CENTOS".to_string()]));
    assert_eq!(check_push("", 1).err().unwrap(), "Empty file_path!");
    assert_eq!(check_push("/f", 0).err().unwrap(), "Empty env_set!");
    assert!(check_push("/f", 2).is_ok());
}

#[test]
fn meta_header_reads_back() {
    for n in [0usize, 1, 9, 10, 99, 999, 1000, 9999, 10000, 65536, 1 << 20] {
        assert_eq!(parse_meta_header(&meta_header(n)), Some(n));
    }
}
