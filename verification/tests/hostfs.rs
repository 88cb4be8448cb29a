use agon_ez80_emulator::agon_machine::{AgonMachine, AgonMachineConfig, RamInit};
use agon_ez80_emulator::hostfs::{
    fresult, open_flags, FileInfo, HostError, HostfsReply, HostfsRequest, HostfsTrap, LineReader,
    LocalTime,
};
use agon_ez80_emulator::mos::MosMap;
use agon_ez80_emulator::mos_path::MosPath;
use agon_ez80_emulator::uart::DummySerialLink;

const SP: u32 = 0x50000;
const FIL: u32 = 0x70000;
const DIR: u32 = 0x71000;
const FILINFO: u32 = 0x72000;
const BUF: u32 = 0x73000;
const COUNT: u32 = 0x74000;
const PATH: u32 = 0x60000;
const PATH2: u32 = 0x61000;

fn mos_map() -> MosMap {
    let mut e = [0u32; 25];
    for (i, a) in e.iter_mut().enumerate() {
        *a = 0x1000 + 0x10 * i as u32;
    }
    MosMap::from_entries(&e)
}

fn machine() -> AgonMachine {
    let mut m = AgonMachine::new(AgonMachineConfig {
        uart0_link: Box::new(DummySerialLink::new()),
        uart1_link: Box::new(DummySerialLink::new()),
        clockspeed_hz: 18_432_000,
        ram_init: RamInit::Zero,
    });
    m.set_mos_map(Some(mos_map()));
    m
}

fn put(m: &mut AgonMachine, at: u32, bytes: &[u8]) {
    for (i, b) in bytes.iter().enumerate() {
        m.poke(at + i as u32, *b);
    }
}

fn put24(m: &mut AgonMachine, at: u32, value: u32) {
    put(m, at, &[value as u8, (value >> 8) as u8, (value >> 16) as u8]);
}

fn get24(m: &mut AgonMachine, at: u32) -> u32 {
    let b = m.read_bytes(at, 3);
    b[0] as u32 | (b[1] as u32) << 8 | (b[2] as u32) << 16
}

fn args(m: &mut AgonMachine, values: &[u32]) {
    for (k, v) in values.iter().enumerate() {
        put24(m, SP + 3 + 3 * k as u32, *v);
    }
}

fn finished(req: &HostfsRequest) -> u32 {
    match req {
        HostfsRequest::Finished { hl } => *hl,
        _ => panic!("host is asked"),
    }
}

fn open_file(m: &mut AgonMachine, fil: u32) {
    put(m, PATH, b"f\0");
    args(m, &[fil, PATH, 0]);
    let req = m.hostfs_request(HostfsTrap::Open, SP);
    assert_eq!(m.hostfs_complete(&req, HostfsReply::Opened { size: 0 }), 0);
}

fn open_dir(m: &mut AgonMachine, dir: u32) {
    put(m, PATH, b"/\0");
    args(m, &[dir, PATH]);
    let req = m.hostfs_request(HostfsTrap::Opendir, SP);
    assert_eq!(m.hostfs_complete(&req, HostfsReply::Done), 0);
}

#[test]
fn traps_are_found_by_address() {
    let mut m = machine();
    let map = mos_map();
    assert_eq!(m.begin_instruction(map.f_close), Some(HostfsTrap::Close));
    assert_eq!(m.last_pc(), map.f_close);
    assert_eq!(m.begin_instruction(map.f_gets), Some(HostfsTrap::Gets));
    assert_eq!(m.begin_instruction(map.f_read), Some(HostfsTrap::Read));
    assert_eq!(m.begin_instruction(map.f_open), Some(HostfsTrap::Open));
    assert_eq!(m.begin_instruction(map.f_write), Some(HostfsTrap::Write));
    assert_eq!(m.begin_instruction(map.f_chdir), Some(HostfsTrap::Chdir));
    assert_eq!(m.begin_instruction(map.f_closedir), Some(HostfsTrap::Closedir));
    assert_eq!(m.begin_instruction(map.f_getlabel), Some(HostfsTrap::Getlabel));
    assert_eq!(m.begin_instruction(map.f_getcwd), Some(HostfsTrap::Getcwd));
    assert_eq!(m.begin_instruction(map.f_lseek), Some(HostfsTrap::Lseek));
    assert_eq!(m.begin_instruction(map.f_mkdir), Some(HostfsTrap::Mkdir));
    assert_eq!(m.begin_instruction(map.f_mount), Some(HostfsTrap::Mount));
    assert_eq!(m.begin_instruction(map.f_opendir), Some(HostfsTrap::Opendir));
    assert_eq!(m.begin_instruction(map.f_putc), Some(HostfsTrap::Putc));
    assert_eq!(m.begin_instruction(map.f_readdir), Some(HostfsTrap::Readdir));
    assert_eq!(m.begin_instruction(map.f_rename), Some(HostfsTrap::Rename));
    assert_eq!(m.begin_instruction(map.f_stat), Some(HostfsTrap::Stat));
    assert_eq!(m.begin_instruction(map.f_unlink), Some(HostfsTrap::Unlink));
    assert_eq!(m.begin_instruction(map.f_truncate), Some(HostfsTrap::Truncate));
    // entry points that are not served
    assert_eq!(m.begin_instruction(map._f_puts), None);
    assert_eq!(m.begin_instruction(map._f_sync), None);
    assert_eq!(m.begin_instruction(0), None);
    assert_eq!(m.last_pc(), 0);
}

#[test]
fn traps_are_off_with_an_image_or_a_moved_flash_or_without_a_map() {
    let map = mos_map();
    let mut m = machine();
    m.set_sdcard_image(true);
    assert_eq!(m.begin_instruction(map.f_open), None);
    m.set_sdcard_image(false);
    assert_eq!(m.begin_instruction(map.f_open), Some(HostfsTrap::Open));
    m.port_out(0xf7, 0x01);
    assert_eq!(m.begin_instruction(map.f_open), None);
    m.port_out(0xf7, 0x00);
    assert_eq!(m.begin_instruction(map.f_open), Some(HostfsTrap::Open));
    m.set_mos_map(None);
    assert_eq!(m.begin_instruction(map.f_open), None);
    // an entry point outside of the flash is not looked for
    let mut e = [0u32; 25];
    e[11] = 0x20000;
    let mut m = machine();
    m.set_mos_map(Some(MosMap::from_entries(&e)));
    assert_eq!(m.begin_instruction(0x20000), None);
    // of several calls at one address the first in the order counts
    assert_eq!(m.begin_instruction(0), Some(HostfsTrap::Close));
}

#[test]
fn mount_label_and_working_directory() {
    let mut m = machine();
    let req = m.hostfs_request(HostfsTrap::Mount, SP);
    assert_eq!(finished(&req), 0);
    assert_eq!(m.hostfs_complete(&req, HostfsReply::Done), 0);

    args(&mut m, &[0, BUF]);
    put(&mut m, BUF, &[0xee; 8]);
    assert_eq!(finished(&m.hostfs_request(HostfsTrap::Getlabel, SP)), 0);
    assert_eq!(m.read_bytes(BUF, 8), b"hostfs\0\xee");

    args(&mut m, &[BUF]);
    put(&mut m, BUF, &[0xee; 8]);
    assert_eq!(finished(&m.hostfs_request(HostfsTrap::Getcwd, SP)), 0);
    assert_eq!(m.read_bytes(BUF, 3), b"/\0\xee");
}

#[test]
fn chdir() {
    let mut m = machine();
    put(&mut m, PATH, b"games\rrest");
    args(&mut m, &[PATH]);
    let req = m.hostfs_request(HostfsTrap::Chdir, SP);
    match &req {
        HostfsRequest::Chdir { path } => assert_eq!(path, b"games"),
        _ => panic!(),
    }
    let mut found = MosPath::new();
    found.apply_fragment(b"Games", &vec![]);
    found.apply_fragment(b"Pong", &vec![]);
    assert_eq!(m.hostfs_complete(&req, HostfsReply::Entry { path: found.copy(), is_dir: true }), 0);
    assert_eq!(m.hostfs_cwd().to_bytes(), b"Games/Pong");
    args(&mut m, &[BUF]);
    m.hostfs_request(HostfsTrap::Getcwd, SP);
    assert_eq!(m.read_bytes(BUF, 12), b"/Games/Pong\0");
    // a file is no directory
    assert_eq!(
        m.hostfs_complete(&req, HostfsReply::Entry { path: MosPath::new(), is_dir: false }),
        1
    );
    assert_eq!(m.hostfs_complete(&req, HostfsReply::Failed(HostError::NotFound)), 4);
    assert_eq!(m.hostfs_complete(&req, HostfsReply::Failed(HostError::Other)), 1);
    assert_eq!(m.hostfs_cwd().to_bytes(), b"Games/Pong");
}

#[test]
fn calls_that_only_succeed_or_fail() {
    let mut m = machine();
    put(&mut m, PATH, b"old.txt\0");
    put(&mut m, PATH2, b"new.txt\n");
    args(&mut m, &[PATH, PATH2]);
    let mkdir = m.hostfs_request(HostfsTrap::Mkdir, SP);
    assert!(matches!(&mkdir, HostfsRequest::Mkdir { path } if path == b"old.txt"));
    let unlink = m.hostfs_request(HostfsTrap::Unlink, SP);
    assert!(matches!(&unlink, HostfsRequest::Unlink { path } if path == b"old.txt"));
    let rename = m.hostfs_request(HostfsTrap::Rename, SP);
    assert!(
        matches!(&rename, HostfsRequest::Rename { from, to } if from == b"old.txt" && to == b"new.txt")
    );
    for req in [&mkdir, &unlink, &rename] {
        assert_eq!(m.hostfs_complete(req, HostfsReply::Done), 0);
        assert_eq!(m.hostfs_complete(req, HostfsReply::Failed(HostError::NotFound)), 4);
        assert_eq!(m.hostfs_complete(req, HostfsReply::Failed(HostError::Other)), 1);
        // a reply that does not belong to the request
        assert_eq!(m.hostfs_complete(req, HostfsReply::Position(0)), 1);
    }
    assert_eq!(fresult(HostError::NotFound), 4);
    assert_eq!(fresult(HostError::Other), 1);
}

#[test]
fn open_flags_of_a_mode() {
    let f = open_flags(0);
    assert!(f.read && !f.write && !f.create && !f.truncate);
    let f = open_flags(1);
    assert!(f.read && !f.write && !f.create && !f.truncate);
    let f = open_flags(2);
    assert!(f.read && f.write && !f.create && !f.truncate);
    let f = open_flags(4);
    assert!(f.read && !f.write && f.create && !f.truncate);
    let f = open_flags(8);
    assert!(f.read && !f.write && f.create && f.truncate);
    let f = open_flags(0x0a);
    assert!(f.read && f.write && f.create && f.truncate);
}

#[test]
fn open_and_close() {
    let mut m = machine();
    put(&mut m, FIL, &[0xee; 40]);
    put(&mut m, PATH, b"test.txt\0");
    args(&mut m, &[FIL, PATH, 0x0a]);
    let req = m.hostfs_request(HostfsTrap::Open, SP);
    match &req {
        HostfsRequest::Open { fil, path, flags } => {
            assert_eq!(*fil, FIL);
            assert_eq!(path, b"test.txt");
            assert!(flags.read && flags.write && flags.create && flags.truncate);
        }
        _ => panic!(),
    }
    assert_eq!(m.hostfs_complete(&req, HostfsReply::NotRegularFile), 4);
    assert_eq!(m.hostfs_complete(&req, HostfsReply::Failed(HostError::NotFound)), 4);
    assert_eq!(m.hostfs_complete(&req, HostfsReply::Failed(HostError::Other)), 1);
    assert_eq!(m.read_bytes(FIL, 1), [0xee]);
    // still closed
    args(&mut m, &[FIL]);
    assert_eq!(finished(&m.hostfs_request(HostfsTrap::Truncate, SP)), 1);

    assert_eq!(m.hostfs_complete(&req, HostfsReply::Opened { size: 0x123456 }), 0);
    let fil = m.read_bytes(FIL, 40);
    assert_eq!(&fil[..11], &[0; 11]);
    // the size is capped at 512 KiB
    assert_eq!(&fil[11..14], &[0x00, 0x00, 0x08]);
    assert_eq!(&fil[14..36], &[0; 22]);
    assert_eq!(&fil[36..], &[0xee; 4]);
    assert_eq!(m.hostfs_complete(&req, HostfsReply::Opened { size: 13 }), 0);
    assert_eq!(get24(&mut m, FIL + 11), 13);

    args(&mut m, &[FIL]);
    assert!(matches!(m.hostfs_request(HostfsTrap::Truncate, SP), HostfsRequest::Truncate { .. }));
    let close = m.hostfs_request(HostfsTrap::Close, SP);
    assert!(matches!(close, HostfsRequest::Close { fil: FIL }));
    // the file is open until the call is complete
    assert!(matches!(m.hostfs_request(HostfsTrap::Truncate, SP), HostfsRequest::Truncate { .. }));
    assert_eq!(m.hostfs_complete(&close, HostfsReply::Done), 0);
    assert_eq!(finished(&m.hostfs_request(HostfsTrap::Truncate, SP)), 1);
    // closing what is not open is fine, and so is a host that complains
    let close = m.hostfs_request(HostfsTrap::Close, SP);
    assert_eq!(m.hostfs_complete(&close, HostfsReply::Failed(HostError::Other)), 0);
}

#[test]
fn read() {
    let mut m = machine();
    args(&mut m, &[FIL, BUF, 100, COUNT]);
    assert_eq!(finished(&m.hostfs_request(HostfsTrap::Read, SP)), 1);
    open_file(&mut m, FIL);
    args(&mut m, &[FIL, BUF, 100, COUNT]);
    let req = m.hostfs_request(HostfsTrap::Read, SP);
    match &req {
        HostfsRequest::Read { fil, buf, len, count_ptr } => {
            assert_eq!((*fil, *buf, *len, *count_ptr), (FIL, BUF, 100, COUNT));
        }
        _ => panic!(),
    }
    put(&mut m, BUF, &[0xee; 8]);
    let reply = HostfsReply::Data { bytes: b"hello".to_vec(), position: 0x01020304 };
    assert_eq!(m.hostfs_complete(&req, reply), 0);
    assert_eq!(m.read_bytes(BUF, 8), b"hello\xee\xee\xee");
    assert_eq!(get24(&mut m, FIL + 17), 0x020304);
    assert_eq!(get24(&mut m, COUNT), 5);
    // more than was asked for is no answer
    let reply = HostfsReply::Data { bytes: vec![1; 101], position: 0 };
    assert_eq!(m.hostfs_complete(&req, reply), 1);
    assert_eq!(m.read_bytes(BUF, 1), b"h");
    assert_eq!(m.hostfs_complete(&req, HostfsReply::Failed(HostError::Other)), 1);
    // the end of the file
    let reply = HostfsReply::Data { bytes: vec![], position: 5 };
    assert_eq!(m.hostfs_complete(&req, reply), 0);
    assert_eq!(get24(&mut m, COUNT), 0);
}

#[test]
fn write_and_putc() {
    let mut m = machine();
    put(&mut m, BUF, b"some data");
    args(&mut m, &[FIL, BUF, 9, COUNT]);
    assert_eq!(finished(&m.hostfs_request(HostfsTrap::Write, SP)), 1);
    open_file(&mut m, FIL);
    args(&mut m, &[FIL, BUF, 9, COUNT]);
    let req = m.hostfs_request(HostfsTrap::Write, SP);
    match &req {
        HostfsRequest::Write { fil, data, count_ptr } => {
            assert_eq!(*fil, FIL);
            assert_eq!(data, b"some data");
            assert_eq!(*count_ptr, COUNT);
        }
        _ => panic!(),
    }
    assert_eq!(m.hostfs_complete(&req, HostfsReply::Position(9)), 0);
    assert_eq!(get24(&mut m, FIL + 17), 9);
    assert_eq!(get24(&mut m, COUNT), 9);
    assert_eq!(m.hostfs_complete(&req, HostfsReply::Failed(HostError::Other)), 1);

    args(&mut m, &[0x141, FIL]);
    let req = m.hostfs_request(HostfsTrap::Putc, SP);
    assert!(matches!(req, HostfsRequest::Putc { fil: FIL, ch: 0x41 }));
    assert_eq!(m.hostfs_complete(&req, HostfsReply::Position(10)), 0);
    assert_eq!(get24(&mut m, FIL + 17), 10);
    args(&mut m, &[0x41, FIL + 1]);
    assert_eq!(finished(&m.hostfs_request(HostfsTrap::Putc, SP)), 1);
}

#[test]
fn round_trip_through_guest_memory() {
    // what a write hands to the host is what a read of the same bytes puts
    // back
    let mut m = machine();
    open_file(&mut m, FIL);
    let data: Vec<u8> = (0..1000u32).map(|i| (i * 7 + i / 256) as u8).collect();
    put(&mut m, BUF, &data);
    args(&mut m, &[FIL, BUF, data.len() as u32, COUNT]);
    let written = match m.hostfs_request(HostfsTrap::Write, SP) {
        HostfsRequest::Write { data, .. } => data,
        _ => panic!(),
    };
    assert_eq!(written, data);
    args(&mut m, &[FIL, BUF + 0x2000, data.len() as u32, COUNT]);
    let req = m.hostfs_request(HostfsTrap::Read, SP);
    let reply = HostfsReply::Data { bytes: written, position: data.len() as u64 };
    assert_eq!(m.hostfs_complete(&req, reply), 0);
    assert_eq!(m.read_bytes(BUF + 0x2000, data.len() as u32), data);
    assert_eq!(get24(&mut m, COUNT), 1000);
    assert_eq!(get24(&mut m, FIL + 17), 1000);
}

#[test]
fn gets() {
    let mut m = machine();
    args(&mut m, &[BUF, 80, FIL]);
    assert_eq!(finished(&m.hostfs_request(HostfsTrap::Gets, SP)), 0);
    open_file(&mut m, FIL);
    args(&mut m, &[BUF, 80, FIL]);
    let req = m.hostfs_request(HostfsTrap::Gets, SP);
    assert!(matches!(req, HostfsRequest::Gets { fil: FIL, buf: BUF, max_len: 80 }));
    put(&mut m, BUF, &[0xee; 8]);
    let reply = HostfsReply::Data { bytes: b"10 \n".to_vec(), position: 4 };
    assert_eq!(m.hostfs_complete(&req, reply), BUF);
    assert_eq!(m.read_bytes(BUF, 6), b"10 \n\0\xee");
    assert_eq!(get24(&mut m, FIL + 17), 4);
    // the end of the file, or an error, gives zero and writes nothing
    assert_eq!(m.hostfs_complete(&req, HostfsReply::Failed(HostError::Other)), 0);
    assert_eq!(m.hostfs_complete(&req, HostfsReply::Done), 0);
    assert_eq!(m.read_bytes(BUF, 6), b"10 \n\0\xee");
}

#[test]
fn lines_are_read_byte_by_byte() {
    let feed = |max: u32, bytes: &[Option<u8>]| -> (Option<Vec<u8>>, usize) {
        let mut reader = LineReader::new(max);
        let mut taken = 0;
        for b in bytes {
            if !reader.wants_byte() {
                break;
            }
            reader.feed(*b);
            taken += 1;
        }
        assert!(!reader.wants_byte() || taken == bytes.len());
        (reader.finish(), taken)
    };
    let text: Vec<Option<u8>> = b"ab\ncd".iter().map(|b| Some(*b)).collect();
    assert_eq!(feed(80, &text), (Some(b"ab\n".to_vec()), 3));
    assert_eq!(feed(3, &text), (Some(b"ab\n".to_vec()), 3));
    assert_eq!(feed(2, &text), (Some(b"ab".to_vec()), 2));
    assert_eq!(feed(0, &text), (Some(vec![]), 0));
    assert_eq!(feed(80, &[Some(b'a'), Some(0), Some(b'b')]), (Some(vec![b'a', 0]), 2));
    // the end of the file before the end of the line
    assert_eq!(feed(80, &[Some(b'a'), Some(b'b'), None, Some(b'c')]), (None, 3));
    assert_eq!(feed(80, &[None]), (None, 1));
    // feeding a reader that wants nothing changes nothing
    let mut reader = LineReader::new(1);
    reader.feed(Some(b'x'));
    assert!(!reader.wants_byte());
    reader.feed(None);
    reader.feed(Some(b'y'));
    assert_eq!(reader.finish(), Some(b"x".to_vec()));
}

#[test]
fn lseek_and_truncate() {
    let mut m = machine();
    args(&mut m, &[FIL, 0x1234]);
    assert_eq!(finished(&m.hostfs_request(HostfsTrap::Lseek, SP)), 1);
    open_file(&mut m, FIL);
    args(&mut m, &[FIL, 0x1234]);
    let req = m.hostfs_request(HostfsTrap::Lseek, SP);
    assert!(matches!(req, HostfsRequest::Lseek { fil: FIL, offset: 0x1234 }));
    assert_eq!(m.hostfs_complete(&req, HostfsReply::Position(0x1234)), 0);
    assert_eq!(get24(&mut m, FIL + 17), 0x1234);
    assert_eq!(get24(&mut m, FIL + 11), 0);
    assert_eq!(m.hostfs_complete(&req, HostfsReply::Failed(HostError::Other)), 1);
    let req = m.hostfs_request(HostfsTrap::Truncate, SP);
    assert_eq!(m.hostfs_complete(&req, HostfsReply::Position(0x1000)), 0);
    assert_eq!(get24(&mut m, FIL + 11), 0x1000);
    assert_eq!(get24(&mut m, FIL + 17), 0x1234);
}

fn noon() -> LocalTime {
    LocalTime { year: 2024, month: 6, day: 1, hour: 12, minute: 0, second: 0 }
}

#[test]
fn packed_date_and_time() {
    assert_eq!(noon().packed_date(), 0x58c1);
    assert_eq!(noon().packed_time(), 0x6000);
    let t = LocalTime { year: 1980, month: 1, day: 1, hour: 0, minute: 0, second: 0 };
    assert_eq!(t.packed_date(), 0x0021);
    assert_eq!(t.packed_time(), 0);
    let t = LocalTime { year: 2107, month: 12, day: 31, hour: 23, minute: 59, second: 29 };
    assert_eq!(t.packed_date(), 0xff9f);
    assert_eq!(t.packed_time(), (23 << 11) | (59 << 5) | 29);
    // the bits of a second above 31 fall on the minute
    let t = LocalTime { year: 2000, month: 2, day: 29, hour: 1, minute: 2, second: 59 };
    assert_eq!(t.packed_time(), (1 << 11) | (2 << 5) | 59);
    // years before 1980 count round
    let t = LocalTime { year: 1979, month: 12, day: 31, hour: 0, minute: 0, second: 0 };
    assert_eq!(t.packed_date(), (127 << 9) | (12 << 5) | 31);
}

#[test]
fn stat_fills_the_filinfo() {
    let mut m = machine();
    put(&mut m, FILINFO, &[0xee; 300]);
    put(&mut m, PATH, b"a.txt\0");
    args(&mut m, &[PATH, FILINFO]);
    let req = m.hostfs_request(HostfsTrap::Stat, SP);
    assert!(
        matches!(&req, HostfsRequest::Stat { path, filinfo: FILINFO } if path == b"a.txt")
    );
    // nothing is written before the host has answered
    assert_eq!(m.read_bytes(FILINFO, 1), [0xee]);
    assert_eq!(m.hostfs_complete(&req, HostfsReply::Failed(HostError::NotFound)), 4);
    assert_eq!(m.read_bytes(FILINFO, 1), [0xee]);
    let info = FileInfo {
        name: b"A.txt".to_vec(),
        size: 0x01020304,
        is_dir: false,
        modified: Some(noon()),
    };
    assert_eq!(m.hostfs_complete(&req, HostfsReply::Info(info)), 0);
    let fi = m.read_bytes(FILINFO, 300);
    assert_eq!(&fi[0..4], &[0x04, 0x03, 0x02, 0x01]);
    assert_eq!(&fi[4..6], &[0xc1, 0x58]);
    assert_eq!(&fi[6..8], &[0x00, 0x60]);
    assert_eq!(fi[8], 0);
    assert_eq!(&fi[9..22], &[0; 13]);
    assert_eq!(&fi[22..28], b"A.txt\0");
    assert_eq!(&fi[28..278], &[0; 250]);
    assert_eq!(&fi[278..], &[0xee; 22]);
    // a directory of unknown age
    let info = FileInfo { name: b"Sub".to_vec(), size: 0, is_dir: true, modified: None };
    assert_eq!(m.hostfs_complete(&req, HostfsReply::Info(info)), 0);
    let fi = m.read_bytes(FILINFO, 30);
    assert_eq!(&fi[0..8], &[0; 8]);
    assert_eq!(fi[8], 0x10);
    assert_eq!(&fi[22..26], b"Sub\0");
}

#[test]
fn directory_walk_scenario() {
    let mut m = machine();
    args(&mut m, &[DIR, FILINFO]);
    assert_eq!(finished(&m.hostfs_request(HostfsTrap::Readdir, SP)), 1);
    put(&mut m, PATH, b"/\0");
    args(&mut m, &[DIR, PATH]);
    let req = m.hostfs_request(HostfsTrap::Opendir, SP);
    assert!(matches!(&req, HostfsRequest::Opendir { dir: DIR, path } if path == b"/"));
    assert_eq!(m.hostfs_complete(&req, HostfsReply::Done), 0);

    args(&mut m, &[DIR, FILINFO]);
    put(&mut m, FILINFO, &[0xee; 278]);
    let req = m.hostfs_request(HostfsTrap::Readdir, SP);
    assert!(matches!(req, HostfsRequest::Readdir { dir: DIR, filinfo: FILINFO }));
    assert_eq!(m.read_bytes(FILINFO, 278), vec![0; 278]);
    let info =
        FileInfo { name: b"A.txt".to_vec(), size: 13, is_dir: false, modified: Some(noon()) };
    assert_eq!(m.hostfs_complete(&req, HostfsReply::Info(info)), 0);
    let fi = m.read_bytes(FILINFO, 278);
    assert_eq!(&fi[0..4], &[13, 0, 0, 0]);
    assert_eq!(fi[4] as u16 | (fi[5] as u16) << 8, 0x58c1);
    assert_eq!(fi[6] as u16 | (fi[7] as u16) << 8, 0x6000);
    assert_eq!(fi[8] & 0x10, 0);
    assert_eq!(&fi[22..28], b"A.txt\0");

    let req = m.hostfs_request(HostfsTrap::Readdir, SP);
    let info = FileInfo { name: b"Sub".to_vec(), size: 0, is_dir: true, modified: Some(noon()) };
    assert_eq!(m.hostfs_complete(&req, HostfsReply::Info(info)), 0);
    let fi = m.read_bytes(FILINFO, 278);
    assert_eq!(fi[8] & 0x10, 0x10);
    assert_eq!(&fi[22..26], b"Sub\0");

    let req = m.hostfs_request(HostfsTrap::Readdir, SP);
    assert_eq!(m.hostfs_complete(&req, HostfsReply::End), 0);
    assert_eq!(m.read_bytes(FILINFO, 278), vec![0; 278]);

    let req = m.hostfs_request(HostfsTrap::Readdir, SP);
    assert_eq!(m.hostfs_complete(&req, HostfsReply::Unreadable), 0);
    assert_eq!(m.read_bytes(FILINFO + 22, 30), b"<error reading file metadata>\0");
    let req = m.hostfs_request(HostfsTrap::Readdir, SP);
    assert_eq!(m.hostfs_complete(&req, HostfsReply::Failed(HostError::Other)), 1);

    args(&mut m, &[DIR]);
    let close = m.hostfs_request(HostfsTrap::Closedir, SP);
    assert!(matches!(close, HostfsRequest::Closedir { dir: DIR }));
    assert_eq!(m.hostfs_complete(&close, HostfsReply::Done), 0);
    args(&mut m, &[DIR, FILINFO]);
    assert_eq!(finished(&m.hostfs_request(HostfsTrap::Readdir, SP)), 1);
}

#[test]
fn opendir_fails_as_the_host_does() {
    let mut m = machine();
    put(&mut m, PATH, b"nowhere\0");
    args(&mut m, &[DIR, PATH]);
    let req = m.hostfs_request(HostfsTrap::Opendir, SP);
    assert_eq!(m.hostfs_complete(&req, HostfsReply::Failed(HostError::NotFound)), 4);
    assert_eq!(m.hostfs_complete(&req, HostfsReply::Failed(HostError::Other)), 1);
    args(&mut m, &[DIR, FILINFO]);
    assert_eq!(finished(&m.hostfs_request(HostfsTrap::Readdir, SP)), 1);
    open_dir(&mut m, DIR);
    args(&mut m, &[DIR, FILINFO]);
    assert!(matches!(m.hostfs_request(HostfsTrap::Readdir, SP), HostfsRequest::Readdir { .. }));
}

#[test]
fn file_info_from_the_host() {
    // 2024-06-01 12:00:00 UTC; the fields are in range in whatever zone
    let info = FileInfo::from_host(b"x".to_vec(), 42, true, 1717243200);
    assert_eq!(info.name, b"x");
    assert_eq!(info.size, 42);
    assert!(info.is_dir);
    let t = info.modified.unwrap();
    assert!((2024..=2024).contains(&t.year));
    assert!((5..=6).contains(&t.month));
    assert!((1..=31).contains(&t.day));
    assert!(t.hour < 24 && t.minute < 60 && t.second < 60);
    assert_eq!(t.second, 0);
    // out of the range of the calendar
    assert!(FileInfo::from_host(vec![], 0, false, i64::MAX).modified.is_none());
}

#[test]
fn a_time_comes_for_every_second_from_1970_to_2100() {
    for seconds in [0, 1, 86_399, 1_717_243_200, agon_ez80_emulator::hostfs::LAST_SURE_SECOND - 1, agon_ez80_emulator::hostfs::LAST_SURE_SECOND] {
        let info = FileInfo::from_host(vec![], 0, false, seconds);
        let t = info.modified.expect("a time");
        assert!((1..=12).contains(&t.month) && (1..=31).contains(&t.day));
        assert!(t.hour < 24 && t.minute < 60 && t.second < 60);
        assert!((1969..=2100).contains(&t.year));
    }
}

#[test]
fn stat_by_a_request_in_another_case() {
    // the host has Docs/Read.Me, of 77 bytes; the guest asks for docs/READ.ME
    let lister = |dir: &MosPath| -> Vec<Vec<u8>> {
        match dir.to_bytes().as_slice() {
            b"" => vec![b"Docs".to_vec(), b"other".to_vec()],
            b"Docs" => vec![b"Read.Me".to_vec()],
            _ => vec![],
        }
    };
    let mut m = machine();
    put(&mut m, PATH, b"docs/READ.ME\0");
    args(&mut m, &[PATH, FILINFO]);
    let req = m.hostfs_request(HostfsTrap::Stat, SP);
    let HostfsRequest::Stat { path, .. } = &req else { panic!("no stat") };
    let found = agon_ez80_emulator::mos_path::mos_path_join(&m.hostfs_cwd(), path, lister);
    assert_eq!(found.to_bytes(), b"Docs/Read.Me");
    let info = FileInfo {
        name: found.name(found.len() - 1).to_vec(),
        size: 77,
        is_dir: false,
        modified: Some(noon()),
    };
    assert_eq!(m.hostfs_complete(&req, HostfsReply::Info(info)), 0);
    let fi = m.read_bytes(FILINFO, 278);
    assert_eq!(&fi[0..4], &[77, 0, 0, 0]);
    assert_eq!(&fi[4..8], &[0xc1, 0x58, 0x00, 0x60]);
    assert_eq!(&fi[8..22], &[0; 14]);
    assert_eq!(&fi[22..30], b"Read.Me\0");
    assert_eq!(&fi[30..], &[0; 248]);
}
