use agon_ez80_emulator::spi_sdcard::{SdRequest, SpiSdcard};

fn card() -> SpiSdcard {
    let mut card = SpiSdcard::new();
    card.set_image_file(true);
    card
}

fn send(card: &mut SpiSdcard, bytes: &[u8]) -> Vec<SdRequest> {
    bytes.iter().map(|b| card.recv_byte(*b)).collect()
}

fn drain(card: &mut SpiSdcard) -> Vec<u8> {
    let mut out = vec![];
    while let Some(b) = card.send_byte() {
        out.push(b);
    }
    out
}

fn all_nothing(requests: &[SdRequest]) -> bool {
    requests.iter().all(|r| matches!(r, SdRequest::Nothing))
}

#[test]
fn spi_init_scenario() {
    let mut card = card();
    let r = send(&mut card, &[0x40, 0x00, 0x00, 0x00, 0x00, 0x95]);
    assert!(all_nothing(&r));
    assert_eq!(card.send_byte(), Some(0x01));
    assert_eq!(card.send_byte(), None);
}

#[test]
fn card_without_image_answers_commands() {
    let mut card = SpiSdcard::new();
    assert!(!card.has_image_file());
    let r = send(&mut card, &[0x40, 0x00, 0x00, 0x00, 0x00, 0x95]);
    assert!(all_nothing(&r));
    assert_eq!(card.get_spi_status_register(), 0x80);
    assert_eq!(card.send_byte(), Some(0x01));
    assert_eq!(card.send_byte(), None);
    // a read is asked for all the same, and the block that the caller
    // brings goes out
    let r = send(&mut card, &[0x51, 0, 0, 0, 3, 0x01]);
    assert!(matches!(r[5], SdRequest::Read { sector: 3 }));
    card.complete_read(&[0u8; 512]);
    assert_eq!(drain(&mut card).len(), 2 + 512 + 2);
    card.set_image_file(true);
    assert!(card.has_image_file());
}

#[test]
fn status_is_latched_until_read() {
    let mut card = card();
    assert_eq!(card.get_spi_status_register(), 0);
    card.recv_byte(0xff);
    assert_eq!(card.get_spi_status_register(), 0x80);
    assert_eq!(card.get_spi_status_register(), 0);
    assert_eq!(card.get_spi_control_register(), 0);
}

#[test]
fn init_sequence_replies() {
    let mut card = card();
    // idle clocking is skipped
    send(&mut card, &[0xff; 10]);
    assert_eq!(drain(&mut card), vec![]);
    send(&mut card, &[0x48, 0, 0, 1, 0xaa, 0x87]);
    assert_eq!(drain(&mut card), vec![1, 0, 0, 1, 0xaa]);
    send(&mut card, &[0xff, 0x77, 0, 0, 0, 0, 0x65]);
    assert_eq!(drain(&mut card), vec![1]);
    send(&mut card, &[0x69, 0x40, 0, 0, 0, 0x77]);
    assert_eq!(drain(&mut card), vec![0]);
    send(&mut card, &[0x7a, 0, 0, 0, 0, 0xfd]);
    assert_eq!(drain(&mut card), vec![0]);
}

#[test]
fn read_single_block() {
    let mut card = card();
    let r = send(&mut card, &[0x51, 0x01, 0x02, 0x03, 0x04, 0x01]);
    assert!(all_nothing(&r[..5]));
    match &r[5] {
        SdRequest::Read { sector } => assert_eq!(*sector, 0x01020304),
        other => panic!("{:?}", matches!(other, SdRequest::Nothing)),
    }
    let mut block = [0u8; 512];
    for (i, b) in block.iter_mut().enumerate() {
        *b = (i % 251) as u8;
    }
    card.complete_read(&block);
    let out = drain(&mut card);
    assert_eq!(out.len(), 2 + 512 + 2);
    assert_eq!(&out[..2], &[0x00, 0xfe]);
    assert_eq!(&out[2..514], &block[..]);
    assert_eq!(&out[514..], &[0, 0]);
}

#[test]
fn write_single_block() {
    let mut card = card();
    let r = send(&mut card, &[0x58, 0x00, 0x00, 0x00, 0x07, 0x01]);
    assert!(all_nothing(&r));
    assert_eq!(drain(&mut card), vec![0]);
    // idle bytes before the token are skipped, the token starts the data
    let r = send(&mut card, &[0xff, 0xff, 0xfe]);
    assert!(all_nothing(&r));
    let data: Vec<u8> = (0..512).map(|i| if i % 2 == 0 { 0xff } else { i as u8 }).collect();
    let r = send(&mut card, &data);
    assert!(all_nothing(&r[..511]));
    match &r[511] {
        SdRequest::Write { sector, data: written } => {
            assert_eq!(*sector, 7);
            assert_eq!(written, &data);
        }
        _ => panic!("no write request"),
    }
    assert_eq!(drain(&mut card), vec![5, 1]);
    // the card takes commands again
    send(&mut card, &[0x40, 0, 0, 0, 0, 0x95]);
    assert_eq!(drain(&mut card), vec![1]);
}

#[test]
fn idle_byte_inside_a_command_counts() {
    let mut card = card();
    // in the place of the checksum
    let r = send(&mut card, &[0xff, 0xff, 0x40, 0, 0, 0, 0, 0xff]);
    assert!(all_nothing(&r));
    assert_eq!(drain(&mut card), vec![1]);
    // in the address: block 255, then block 0xff00fffe
    let r = send(&mut card, &[0x51, 0, 0, 0, 0xff, 0x01]);
    assert!(all_nothing(&r[..5]));
    assert!(matches!(r[5], SdRequest::Read { sector: 255 }));
    card.complete_read(&[7u8; 512]);
    assert_eq!(drain(&mut card).len(), 516);
    let r = send(&mut card, &[0x51, 0xff, 0x00, 0xff, 0xfe, 0xff]);
    assert!(matches!(r[5], SdRequest::Read { sector: 0xff00fffe }));
    card.complete_read(&[7u8; 512]);
    assert_eq!(drain(&mut card).len(), 516);
}

#[test]
fn start_token_inside_a_command_counts() {
    let mut card = card();
    send(&mut card, &[0x58, 0, 0, 0, 9, 0x01]);
    assert_eq!(drain(&mut card), vec![0]);
    // a command that comes before the data: its bytes are its own
    let r = send(&mut card, &[0x48, 0xfe, 0xff, 1, 0xaa, 0xfe]);
    assert!(all_nothing(&r));
    assert_eq!(drain(&mut card), vec![1, 0, 0, 1, 0xaa]);
    // the write is still awaited
    send(&mut card, &[0xff, 0xfe]);
    let data = vec![0xfeu8; 512];
    let r = send(&mut card, &data);
    match &r[511] {
        SdRequest::Write { sector, data: written } => {
            assert_eq!(*sector, 9);
            assert_eq!(written, &data);
        }
        _ => panic!("no write request"),
    }
    assert_eq!(drain(&mut card), vec![5, 1]);
}

#[test]
fn unknown_command_is_dropped() {
    let mut card = card();
    let r = send(&mut card, &[0x43, 1, 2, 3, 4, 5]);
    assert!(all_nothing(&r[..5]));
    match &r[5] {
        SdRequest::Unknown { command } => assert_eq!(*command, 0x43),
        _ => panic!("not reported"),
    }
    assert_eq!(drain(&mut card), vec![]);
    send(&mut card, &[0x40, 0, 0, 0, 0, 0x95]);
    assert_eq!(drain(&mut card), vec![1]);
}
