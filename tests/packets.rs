use rspsxserial::transfer::{
    cleaning_ram, encode_size, first_contact, next_chunk, send_exe_data, send_exe_size, send_header,
    wait_ack_default, TransferState, ACK_BYTE, EXE_DATA_OFFSET,
};

fn image(len: usize) -> Vec<u8> {
    (0..len).map(|i| (i % 251) as u8).collect()
}

#[test]
fn first_contact_needs_one_byte_written() {
    assert_eq!(first_contact(Some(1)), TransferState::WaitAck);
    assert_eq!(first_contact(Some(0)), TransferState::FirstContact);
    assert_eq!(first_contact(Some(2)), TransferState::FirstContact);
    assert_eq!(first_contact(None), TransferState::FirstContact);
}

#[test]
fn positive_ack_follows_the_table() {
    let ack = [ACK_BYTE];
    assert_eq!(wait_ack_default(&ack, TransferState::FirstContact), TransferState::SendHeader);
    assert_eq!(wait_ack_default(&ack, TransferState::SendHeader), TransferState::SendExeSize);
    assert_eq!(wait_ack_default(&ack, TransferState::SendExeSize), TransferState::CleaningRAM);
    assert_eq!(wait_ack_default(&ack, TransferState::CleaningRAM), TransferState::SendExeData);
    assert_eq!(wait_ack_default(&ack, TransferState::SendExeData), TransferState::SendExeData);
    assert_eq!(wait_ack_default(&ack, TransferState::SendFile), TransferState::SendFile);
    assert_eq!(wait_ack_default(&ack, TransferState::WaitFileRequest), TransferState::Finished);
}

#[test]
fn failed_ack_keeps_waiting() {
    assert_eq!(wait_ack_default(&[], TransferState::SendHeader), TransferState::WaitAck);
    assert_eq!(wait_ack_default(&[0x61], TransferState::FirstContact), TransferState::WaitAck);
    assert_eq!(wait_ack_default(&[ACK_BYTE, ACK_BYTE], TransferState::SendExeData), TransferState::WaitAck);
}

#[test]
fn size_ack_wait_always_reaches_cleaning_ram() {
    assert_eq!(wait_ack_default(&[ACK_BYTE], TransferState::SendExeSize), TransferState::CleaningRAM);
    assert_eq!(wait_ack_default(&[], TransferState::SendExeSize), TransferState::CleaningRAM);
    assert_eq!(wait_ack_default(&[0x00], TransferState::SendExeSize), TransferState::CleaningRAM);
}

#[test]
fn header_is_four_packets_of_eight_bytes() {
    let img = image(2080);
    let packets = send_header(&img);
    assert_eq!(packets.len(), 4);
    for (i, p) in packets.iter().enumerate() {
        assert_eq!(p.as_slice(), &img[i * 8..i * 8 + 8]);
    }
    let exact = image(32);
    assert_eq!(send_header(&exact).concat(), exact);
}

#[test]
fn header_of_a_short_image_gives_its_whole_packets() {
    let img = image(31);
    let packets = send_header(&img);
    assert_eq!(packets.len(), 3);
    assert_eq!(packets.concat().as_slice(), &img[..24]);
    assert_eq!(send_header(&image(16)).len(), 2);
    assert_eq!(send_header(&image(7)).len(), 0);
    assert!(send_header(&[]).is_empty());
}

#[test]
fn size_field_is_little_endian_body_size() {
    let img = image(2080);
    assert_eq!(send_exe_size(&img), Some(vec![32, 0, 0, 0]));
    let img = image(EXE_DATA_OFFSET + 0x0102);
    let field = send_exe_size(&img).unwrap();
    assert_eq!(field, vec![0x02, 0x01, 0, 0]);
    assert_eq!(u32::from_le_bytes([field[0], field[1], field[2], field[3]]), 0x0102);
}

#[test]
fn encode_size_cuts_to_four_bytes() {
    assert_eq!(encode_size(0x0403_0201), vec![1, 2, 3, 4]);
    assert_eq!(encode_size(0), vec![0, 0, 0, 0]);
    assert_eq!(encode_size(0xFFFF_FFFF), vec![0xFF, 0xFF, 0xFF, 0xFF]);
}

#[test]
fn image_without_body_has_no_size() {
    assert_eq!(send_exe_size(&image(2048)), None);
    assert_eq!(send_exe_size(&image(100)), None);
    assert_eq!(send_exe_size(&image(2049)), Some(vec![1, 0, 0, 0]));
}

#[test]
fn body_chunks_rebuild_the_body() {
    let img = image(EXE_DATA_OFFSET + 21);
    let mut sent: usize = 0;
    let mut out: Vec<u8> = Vec::new();
    let mut sizes = Vec::new();
    while let Some(c) = send_exe_data(&img, sent) {
        sent += c.len();
        sizes.push(c.len());
        out.extend_from_slice(&c);
    }
    assert_eq!(sizes, vec![8, 8, 5]);
    assert_eq!(out.as_slice(), &img[EXE_DATA_OFFSET..]);
    assert_eq!(send_exe_data(&image(2048), 0), None);
}

#[test]
fn next_chunk_stops_at_the_end() {
    let data = vec![1u8, 2, 3, 4, 5, 6, 7, 8, 9, 10];
    assert_eq!(next_chunk(&data, 0), Some(vec![1, 2, 3, 4, 5, 6, 7, 8]));
    assert_eq!(next_chunk(&data, 8), Some(vec![9, 10]));
    assert_eq!(next_chunk(&data, 10), None);
    assert_eq!(next_chunk(&[], 0), None);
}

#[test]
fn cleaning_ram_goes_on_after_ack_or_timeout() {
    assert_eq!(cleaning_ram(&[ACK_BYTE]), TransferState::SendExeData);
    assert_eq!(cleaning_ram(&[]), TransferState::SendExeData);
    assert_eq!(cleaning_ram(&[0x61]), TransferState::CleaningRAM);
}
