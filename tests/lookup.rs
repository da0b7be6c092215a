use rspsxserial::image::{exe_path, get_exe_name, join_path, resolve_request, translate_request};
use rspsxserial::request::{wait_file_request, RequestAccumulator};
use rspsxserial::transfer::TransferState;

#[test]
fn request_split_over_two_chunks() {
    let mut acc = RequestAccumulator::new();
    assert_eq!(wait_file_request(&mut acc, b"garbage#FOO"), TransferState::WaitFileRequest);
    assert!(acc.open);
    assert_eq!(wait_file_request(&mut acc, b"BAR;1@trailing"), TransferState::SendFile);
    assert_eq!(acc.token, b"FOOBAR;1".to_vec());
    assert!(!acc.open);
}

#[test]
fn request_without_version_keeps_waiting() {
    let mut acc = RequestAccumulator::new();
    assert_eq!(wait_file_request(&mut acc, b"#ABC"), TransferState::WaitFileRequest);
    assert_eq!(wait_file_request(&mut acc, b"DEF"), TransferState::WaitFileRequest);
    assert_eq!(wait_file_request(&mut acc, b""), TransferState::WaitFileRequest);
    assert_eq!(wait_file_request(&mut acc, b"GHI@"), TransferState::WaitFileRequest);
    assert_eq!(acc.token, b"ABCDEFGHI".to_vec());
}

#[test]
fn request_in_one_chunk() {
    let mut acc = RequestAccumulator::new();
    assert_eq!(
        wait_file_request(&mut acc, b"xx#cdrom:\\DATA\\A.BIN;1@yy"),
        TransferState::SendFile
    );
    assert_eq!(acc.token, b"cdrom:\\DATA\\A.BIN;1".to_vec());
}

#[test]
fn chunk_without_start_marker_is_dropped() {
    let mut acc = RequestAccumulator::new();
    assert_eq!(wait_file_request(&mut acc, b"noise;1@"), TransferState::WaitFileRequest);
    assert!(acc.token.is_empty());
    assert!(!acc.open);
}

#[test]
fn empty_read_changes_nothing() {
    let mut acc = RequestAccumulator::new();
    assert_eq!(wait_file_request(&mut acc, b"#AB"), TransferState::WaitFileRequest);
    assert_eq!(wait_file_request(&mut acc, b""), TransferState::WaitFileRequest);
    assert_eq!(acc.token, b"AB".to_vec());
    assert!(acc.open);
}

#[test]
fn end_marker_before_start_is_ignored() {
    let mut acc = RequestAccumulator::new();
    assert_eq!(acc.get_file_name(b"@x#F;1"), TransferState::SendFile);
    assert_eq!(acc.token, b"F;1".to_vec());
    assert!(acc.open);
}

#[test]
fn request_path_translates_separators() {
    assert_eq!(
        resolve_request(b"/mnt/img", b"cdrom:\\SUB\\FILE.DAT;1"),
        Some(b"/mnt/img/SUB/FILE.DAT".to_vec())
    );
    assert_eq!(translate_request(b"cdrom:\\A;1"), Some(b"A".to_vec()));
}

#[test]
fn malformed_requests_have_no_path() {
    assert_eq!(translate_request(b"cdrom:\\;1"), None);
    assert_eq!(translate_request(b"cdrom:/SUB/FILE.DAT;1"), None);
    assert_eq!(translate_request(b"cdrom:\\FILE.DAT;2"), None);
    assert_eq!(translate_request(b"FILE.DAT;1"), None);
    assert_eq!(resolve_request(b"/mnt/img", b""), None);
}

#[test]
fn join_path_inserts_one_separator() {
    assert_eq!(join_path(b"/mnt/img", b"SYSTEM.CNF"), b"/mnt/img/SYSTEM.CNF".to_vec());
    assert_eq!(join_path(b"", b"X"), b"/X".to_vec());
}

#[test]
fn boot_line_names_the_executable() {
    let cnf = b"BOOT = cdrom:\\SCUS_944.55;1\r\n";
    assert_eq!(get_exe_name(cnf), None);
    let cnf = b"BOOT = cdrom:\\MAIN.EXE;1\r\nTCB = 4\r\n";
    assert_eq!(get_exe_name(cnf), Some(b"MAIN.EXE".to_vec()));
    let cnf = b"TCB=4\nBOOT=cdrom:\\PSX12345.X;1";
    assert_eq!(get_exe_name(cnf), Some(b"PSX12345.X".to_vec()));
    assert_eq!(
        exe_path(b"/mnt/img", b"BOOT\t=\t cdrom:\\GAME.EXE;1"),
        Some(b"/mnt/img/GAME.EXE".to_vec())
    );
}

#[test]
fn boot_line_with_bad_name_is_refused() {
    assert_eq!(get_exe_name(b"BOOT = cdrom:\\TOOLONGNAME.EXE;1"), None);
    assert_eq!(get_exe_name(b"BOOT = cdrom:\\MAIN.EXEC;1"), None);
    assert_eq!(get_exe_name(b"BOOT = cdrom:\\.EXE;1"), None);
    assert_eq!(get_exe_name(b"BOOT = cdrom:\\MAIN.EXE"), None);
    assert_eq!(get_exe_name(b"BOOT cdrom:\\MAIN.EXE;1"), None);
    assert_eq!(get_exe_name(b""), None);
    assert_eq!(exe_path(b"/mnt/img", b"nothing here"), None);
}

#[test]
fn first_boot_line_wins() {
    let cnf = b"BOOT = cdrom:\\BAD_NAME.EXE;1\nBOOT = cdrom:\\A.B;1\nBOOT = cdrom:\\C.D;1";
    assert_eq!(get_exe_name(cnf), Some(b"A.B".to_vec()));
}
