//! The FatFS calls of the firmware, served from the file system of the
//! host. When the CPU is about to run the first instruction of one of them,
//! the call is taken away from the firmware: its arguments are read from
//! the stack of the guest, the host does the work, and the results are
//! written where the firmware would have put them.
//!
//! The work of the host is not done here. `Hostfs::request` reads the
//! arguments and says what there is to do; `Hostfs::complete` takes what
//! came of it, writes the results and gives the value for register HL.

use crate::memory::{
    address_at, distinct_places, law_bytes_written_are_read_back, le24, le24_bytes,
    lemma_reads_keep_bytes, lemma_writes_elsewhere, Memory, MemoryState, ROM_SIZE,
};
use crate::mos::{
    MosMap, AM_DIR, MOS_MAP_ENTRIES, FA_CREATE_ALWAYS, FA_CREATE_NEW, FA_WRITE, FILINFO_MEMBER_FATTRIB_U8,
    FILINFO_MEMBER_FDATE_U16, FILINFO_MEMBER_FNAME_256BYTES, FILINFO_MEMBER_FSIZE_U32,
    FIL_MEMBER_FPTR, FIL_MEMBER_OBJSIZE, FR_DISK_ERR, FR_NO_FILE, FR_OK, SIZEOF_MOS_FILINFO_STRUCT,
    SIZEOF_MOS_FIL_STRUCT,
};
use crate::mos_path::{path_bytes, MosPath};
use chrono::{Datelike, Timelike};
use std::collections::HashSet;
use vstd::prelude::*;
use vstd::std_specs::hash::group_hash_axioms;

verus! {

broadcast use group_hash_axioms;

/// The largest file size that the guest is told of.
pub const MAX_FILE_SIZE: u64 = 0x80000;

/// The year that the dates of FAT count from.
pub const FAT_EPOCH_YEAR: i32 = 1980;

/// The FatFS entry points that are served from the host.
#[derive(Clone, Copy, Debug, PartialEq, Eq, Structural)]
pub enum HostfsTrap {
    Close,
    Gets,
    Read,
    Open,
    Write,
    Chdir,
    Closedir,
    Getlabel,
    Getcwd,
    Lseek,
    Mkdir,
    Mount,
    Opendir,
    Putc,
    Readdir,
    Rename,
    Stat,
    Unlink,
    Truncate,
}

/// Why the host could not do what was asked.
#[derive(Clone, Copy, Debug, PartialEq, Eq, Structural)]
pub enum HostError {
    /// The file or directory does not exist.
    NotFound,
    /// Anything else.
    Other,
}

/// The FatFS result code that the guest sees for a failure of the host.
pub open spec fn fresult_of(e: HostError) -> u32 {
    match e {
        HostError::NotFound => FR_NO_FILE,
        HostError::Other => FR_DISK_ERR,
    }
}

/// How the host opens a file for a mode that the guest gave.
#[derive(Clone, Copy, Debug, PartialEq, Eq, Structural)]
pub struct OpenFlags {
    pub read: bool,
    pub write: bool,
    pub create: bool,
    pub truncate: bool,
}

/// The flags for a mode: always for reading; for writing with `FA_WRITE`;
/// creating with either of the create bits; emptying with
/// `FA_CREATE_ALWAYS`.
pub open spec fn open_flags_of(mode: u32) -> OpenFlags {
    OpenFlags {
        read: true,
        write: mode & FA_WRITE != 0,
        create: mode & FA_CREATE_NEW != 0 || mode & FA_CREATE_ALWAYS != 0,
        truncate: mode & FA_CREATE_ALWAYS != 0,
    }
}

/// A date and time of day in the time zone of the host.
#[derive(Clone, Copy, Debug, PartialEq, Eq, Structural)]
pub struct LocalTime {
    pub year: i32,
    pub month: u8,
    pub day: u8,
    pub hour: u8,
    pub minute: u8,
    pub second: u8,
}

impl LocalTime {
    /// The fields are in their ranges: month 1 to 12, day 1 to 31, hour
    /// below 24, minute and second below 60.
    pub open spec fn in_range(self) -> bool {
        &&& 1 <= self.month <= 12
        &&& 1 <= self.day <= 31
        &&& self.hour < 24
        &&& self.minute < 60
        &&& self.second < 60
    }

    /// The years since 1980, in seven bits.
    pub open spec fn fat_year(self) -> u16 {
        ((self.year - FAT_EPOCH_YEAR) % 128) as u16
    }

    /// The date as FAT packs it: years since 1980 from bit 9 up, the month
    /// from bit 5 up, the day below.
    pub open spec fn fat_date(self) -> u16 {
        (self.fat_year() << 9) | ((self.month as u16) << 5) | (self.day as u16)
    }

    /// The time as it is packed for the guest: the hour from bit 11 up, the
    /// minute from bit 5 up, the second below.
    pub open spec fn fat_time(self) -> u16 {
        (((self.hour & 0x1f) as u16) << 11) | ((self.minute as u16) << 5) | (self.second as u16)
    }

    /// The date as FAT packs it.
    pub fn packed_date(&self) -> (r: u16)
        ensures
            r == self.fat_date(),
    {
        let since: i64 = (self.year as i64 - FAT_EPOCH_YEAR as i64) % 128;
        let year: u16 = if since < 0 {
            (since + 128) as u16
        } else {
            since as u16
        };
        (year << 9) | ((self.month as u16) << 5) | (self.day as u16)
    }

    /// The time as it is packed for the guest.
    pub fn packed_time(&self) -> (r: u16)
        ensures
            r == self.fat_time(),
    {
        (((self.hour & 0x1f) as u16) << 11) | ((self.minute as u16) << 5) | (self.second as u16)
    }
}

/// The last second for which `local_time_of` is sure to give a time: the
/// beginning of the year 2100 UTC.
pub const LAST_SURE_SECOND: i64 = 4_102_444_800;

/// The date and time of day, in the time zone of the host, of a number of
/// seconds since 1970 UTC. Holds `chrono::DateTime::from_timestamp`, which
/// gives nothing only for a number out of its range of some hundred
/// thousand years, the move to the zone `chrono::Local` by `with_timezone`,
/// and the six getters of `Datelike` and `Timelike`. The zone is the
/// host's, so nothing is claimed of which time comes, only that one comes
/// for a second from 1970 to 2100, and that its fields are in the ranges
/// that the getters are documented to keep.
#[verifier::external_body]
fn local_time_of(unix_seconds: i64) -> (r: Option<LocalTime>)
    ensures
        0 <= unix_seconds <= LAST_SURE_SECOND ==> r is Some,
        r matches Some(t) ==> t.in_range(),
{
    let utc = chrono::DateTime::from_timestamp(unix_seconds, 0)?;
    let local = utc.with_timezone(&chrono::Local);
    Some(
        LocalTime {
            year: local.year(),
            month: local.month() as u8,
            day: local.day() as u8,
            hour: local.hour() as u8,
            minute: local.minute() as u8,
            second: local.second() as u8,
        },
    )
}

/// What the host knows of a file or directory.
pub struct FileInfo {
    pub name: Vec<u8>,
    pub size: u64,
    pub is_dir: bool,
    /// When it was last changed, if that can be said.
    pub modified: Option<LocalTime>,
}

/// `FileInfo` as contracts speak of it.
pub struct FileInfoView {
    pub name: Seq<u8>,
    pub size: u64,
    pub is_dir: bool,
    pub modified: Option<LocalTime>,
}

impl View for FileInfo {
    type V = FileInfoView;

    open spec fn view(&self) -> FileInfoView {
        FileInfoView {
            name: self.name@,
            size: self.size,
            is_dir: self.is_dir,
            modified: self.modified,
        }
    }
}

/// The four low bytes of a number, lowest first.
pub open spec fn le32_bytes(value: u64) -> Seq<u8> {
    seq![
        (value % 0x100) as u8,
        (value / 0x100 % 0x100) as u8,
        (value / 0x1_0000 % 0x100) as u8,
        (value / 0x100_0000 % 0x100) as u8,
    ]
}

/// Two 16-bit numbers, two bytes each, lowest first.
pub open spec fn le16_pair(first: u16, second: u16) -> Seq<u8> {
    seq![
        (first % 0x100) as u8,
        (first / 0x100) as u8,
        (second % 0x100) as u8,
        (second / 0x100) as u8,
    ]
}

impl FileInfoView {
    /// The four bytes of the size, lowest first.
    pub open spec fn size_bytes(self) -> Seq<u8> {
        le32_bytes(self.size)
    }

    /// The packed date, zero where the time of the last change is not
    /// known.
    pub open spec fn date(self) -> u16 {
        match self.modified {
            Some(t) => t.fat_date(),
            None => 0,
        }
    }

    /// The packed time, zero where the time of the last change is not
    /// known.
    pub open spec fn time(self) -> u16 {
        match self.modified {
            Some(t) => t.fat_time(),
            None => 0,
        }
    }

    /// The packed date and time, two bytes each, lowest first.
    pub open spec fn stamp_bytes(self) -> Seq<u8> {
        le16_pair(self.date(), self.time())
    }
}

impl FileInfo {
    /// What the host knows of an entry that was last changed
    /// `unix_seconds` after the beginning of 1970 UTC. The time of day that
    /// this is depends on the time zone of the host.
    pub fn from_host(name: Vec<u8>, size: u64, is_dir: bool, unix_seconds: i64) -> (r: FileInfo)
        ensures
            r@.name == name@,
            r@.size == size,
            r@.is_dir == is_dir,
            0 <= unix_seconds <= LAST_SURE_SECOND ==> r@.modified is Some,
            r@.modified matches Some(t) ==> t.in_range(),
    {
        FileInfo { name, size, is_dir, modified: local_time_of(unix_seconds) }
    }
}

/// Reads a line for `f_gets`, one byte at a time: up to a line feed or a
/// NUL, which belong to the line, or up to a given number of bytes. The
/// end of the file, or an error, before that makes the call fail.
pub struct LineReader {
    line: Vec<u8>,
    max_len: u32,
    failed: bool,
    complete: bool,
}

/// `LineReader` as contracts speak of it.
pub struct LineReaderState {
    pub line: Seq<u8>,
    pub max_len: u32,
    pub failed: bool,
    pub complete: bool,
}

impl LineReaderState {
    /// Another byte is to be read.
    pub open spec fn wants_byte(self) -> bool {
        !self.failed && !self.complete && self.line.len() < self.max_len
    }

    /// The reader after the host read a byte, or could not.
    pub open spec fn feed(self, byte: Option<u8>) -> LineReaderState {
        if !self.wants_byte() {
            self
        } else {
            match byte {
                None => LineReaderState { failed: true, ..self },
                Some(b) => LineReaderState {
                    line: self.line.push(b),
                    complete: b == 10 || b == 0,
                    ..self
                },
            }
        }
    }

    /// The reader after the host tried to read these bytes in turn.
    pub open spec fn feed_all(self, bytes: Seq<Option<u8>>) -> LineReaderState
        decreases bytes.len(),
    {
        if bytes.len() == 0 {
            self
        } else {
            self.feed_all(bytes.drop_last()).feed(bytes.last())
        }
    }
}

impl View for LineReader {
    type V = LineReaderState;

    closed spec fn view(&self) -> LineReaderState {
        LineReaderState {
            line: self.line@,
            max_len: self.max_len,
            failed: self.failed,
            complete: self.complete,
        }
    }
}

impl LineReader {
    pub fn new(max_len: u32) -> (r: Self)
        ensures
            r@ == (LineReaderState { line: Seq::empty(), max_len, failed: false, complete: false }),
    {
        LineReader { line: Vec::new(), max_len, failed: false, complete: false }
    }

    /// Another byte is to be read.
    pub fn wants_byte(&self) -> (r: bool)
        ensures
            r == self@.wants_byte(),
    {
        !self.failed && !self.complete && self.line.len() < self.max_len as usize
    }

    /// Takes the byte that the host read, or `None` where it could not
    /// read one.
    pub fn feed(&mut self, byte: Option<u8>)
        ensures
            final(self)@ == old(self)@.feed(byte),
    {
        if self.wants_byte() {
            match byte {
                None => {
                    self.failed = true;
                },
                Some(b) => {
                    self.line.push(b);
                    self.complete = b == 10 || b == 0;
                },
            }
        }
    }

    /// The line, unless reading failed.
    pub fn finish(self) -> (r: Option<Vec<u8>>)
        ensures
            self@.failed ==> r is None,
            !self@.failed ==> r is Some && r->0@ == self@.line,
    {
        if self.failed {
            None
        } else {
            Some(self.line)
        }
    }
}

/// What the host has to do for a call.
pub enum HostfsRequest {
    /// Nothing: the call is served, and this is the value for HL.
    Finished { hl: u32 },
    /// Close the file of key `fil`, if there is one.
    Close { fil: u32 },
    /// End the listing of key `dir`, if there is one.
    Closedir { dir: u32 },
    /// Say whether the path names a directory.
    Chdir { path: Vec<u8> },
    /// Make the directory.
    Mkdir { path: Vec<u8> },
    /// Delete the file.
    Unlink { path: Vec<u8> },
    /// Rename `from` to `to`.
    Rename { from: Vec<u8>, to: Vec<u8> },
    /// Say what is known of the entry.
    Stat { path: Vec<u8>, filinfo: u32 },
    /// Open the file with these flags, unless an entry of that name exists
    /// that is no regular file, and keep it under the key `fil`.
    Open { fil: u32, path: Vec<u8>, flags: OpenFlags },
    /// Read up to `len` bytes from the file of key `fil`.
    Read { fil: u32, buf: u32, len: u32, count_ptr: u32 },
    /// Write all of `data` to the file of key `fil`.
    Write { fil: u32, data: Vec<u8>, count_ptr: u32 },
    /// Write the byte `ch` to the file of key `fil`.
    Putc { fil: u32, ch: u8 },
    /// Read a line of at most `max_len` bytes from the file of key `fil`,
    /// with a `LineReader`.
    Gets { fil: u32, buf: u32, max_len: u32 },
    /// Set the position of the file of key `fil`, counted from its start.
    Lseek { fil: u32, offset: u32 },
    /// Cut the file of key `fil` off at its position.
    Truncate { fil: u32 },
    /// Start to list the directory, and keep the listing under the key
    /// `dir`.
    Opendir { dir: u32, path: Vec<u8> },
    /// Give the next entry of the listing of key `dir`.
    Readdir { dir: u32, filinfo: u32 },
}

/// `HostfsRequest` as contracts speak of it.
pub enum HostfsRequestView {
    Finished { hl: u32 },
    Close { fil: u32 },
    Closedir { dir: u32 },
    Chdir { path: Seq<u8> },
    Mkdir { path: Seq<u8> },
    Unlink { path: Seq<u8> },
    Rename { from: Seq<u8>, to: Seq<u8> },
    Stat { path: Seq<u8>, filinfo: u32 },
    Open { fil: u32, path: Seq<u8>, flags: OpenFlags },
    Read { fil: u32, buf: u32, len: u32, count_ptr: u32 },
    Write { fil: u32, data: Seq<u8>, count_ptr: u32 },
    Putc { fil: u32, ch: u8 },
    Gets { fil: u32, buf: u32, max_len: u32 },
    Lseek { fil: u32, offset: u32 },
    Truncate { fil: u32 },
    Opendir { dir: u32, path: Seq<u8> },
    Readdir { dir: u32, filinfo: u32 },
}

impl View for HostfsRequest {
    type V = HostfsRequestView;

    open spec fn view(&self) -> HostfsRequestView {
        match *self {
            HostfsRequest::Finished { hl } => HostfsRequestView::Finished { hl },
            HostfsRequest::Close { fil } => HostfsRequestView::Close { fil },
            HostfsRequest::Closedir { dir } => HostfsRequestView::Closedir { dir },
            HostfsRequest::Chdir { path } => HostfsRequestView::Chdir { path: path@ },
            HostfsRequest::Mkdir { path } => HostfsRequestView::Mkdir { path: path@ },
            HostfsRequest::Unlink { path } => HostfsRequestView::Unlink { path: path@ },
            HostfsRequest::Rename { from, to } => HostfsRequestView::Rename { from: from@, to: to@ },
            HostfsRequest::Stat { path, filinfo } => HostfsRequestView::Stat { path: path@, filinfo },
            HostfsRequest::Open { fil, path, flags } => HostfsRequestView::Open {
                fil,
                path: path@,
                flags,
            },
            HostfsRequest::Read { fil, buf, len, count_ptr } => HostfsRequestView::Read {
                fil,
                buf,
                len,
                count_ptr,
            },
            HostfsRequest::Write { fil, data, count_ptr } => HostfsRequestView::Write {
                fil,
                data: data@,
                count_ptr,
            },
            HostfsRequest::Putc { fil, ch } => HostfsRequestView::Putc { fil, ch },
            HostfsRequest::Gets { fil, buf, max_len } => HostfsRequestView::Gets { fil, buf, max_len },
            HostfsRequest::Lseek { fil, offset } => HostfsRequestView::Lseek { fil, offset },
            HostfsRequest::Truncate { fil } => HostfsRequestView::Truncate { fil },
            HostfsRequest::Opendir { dir, path } => HostfsRequestView::Opendir { dir, path: path@ },
            HostfsRequest::Readdir { dir, filinfo } => HostfsRequestView::Readdir { dir, filinfo },
        }
    }
}

/// What came of the work of the host.
pub enum HostfsReply {
    /// It is done, and there is nothing to say of it.
    Done,
    /// It could not be done.
    Failed(HostError),
    /// It is done, and the file is now at this position.
    Position(u64),
    /// These bytes were read, and the file is now at this position.
    Data { bytes: Vec<u8>, position: u64 },
    /// The file is open and has this size.
    Opened { size: u64 },
    /// An entry of that name exists and is no regular file.
    NotRegularFile,
    /// The path, joined to the working directory, names this entry, which
    /// is or is not a directory.
    Entry { path: MosPath, is_dir: bool },
    /// This is known of the entry.
    Info(FileInfo),
    /// There is a next entry, of which nothing could be found out.
    Unreadable,
    /// The listing has no further entry.
    End,
}

/// `HostfsReply` as contracts speak of it.
pub enum HostfsReplyView {
    Done,
    Failed(HostError),
    Position(u64),
    Data { bytes: Seq<u8>, position: u64 },
    Opened { size: u64 },
    NotRegularFile,
    Entry { path: Seq<Seq<u8>>, is_dir: bool },
    Info(FileInfoView),
    Unreadable,
    End,
}

impl View for HostfsReply {
    type V = HostfsReplyView;

    open spec fn view(&self) -> HostfsReplyView {
        match *self {
            HostfsReply::Done => HostfsReplyView::Done,
            HostfsReply::Failed(e) => HostfsReplyView::Failed(e),
            HostfsReply::Position(p) => HostfsReplyView::Position(p),
            HostfsReply::Data { bytes, position } => HostfsReplyView::Data { bytes: bytes@, position },
            HostfsReply::Opened { size } => HostfsReplyView::Opened { size },
            HostfsReply::NotRegularFile => HostfsReplyView::NotRegularFile,
            HostfsReply::Entry { path, is_dir } => HostfsReplyView::Entry { path: path@, is_dir },
            HostfsReply::Info(info) => HostfsReplyView::Info(info@),
            HostfsReply::Unreadable => HostfsReplyView::Unreadable,
            HostfsReply::End => HostfsReplyView::End,
        }
    }
}

/// What the trap layer keeps between calls, as contracts speak of it.
pub struct HostfsState {
    /// Calls are served from the host.
    pub enabled: bool,
    pub mos_map: MosMap,
    /// The working directory of the guest.
    pub cwd: Seq<Seq<u8>>,
    /// The addresses of the `FIL` structures of the open files.
    pub open_files: Set<u32>,
    /// The addresses of the `DIR` structures of the open listings.
    pub open_dirs: Set<u32>,
}

/// The memory of the guest together with the state of the trap layer.
pub struct GuestState {
    pub mem: MemoryState,
    pub fs: HostfsState,
}

/// The label that the guest is told the volume has, with its final NUL.
pub open spec fn volume_label() -> Seq<u8> {
    seq![0x68u8, 0x6fu8, 0x73u8, 0x74u8, 0x66u8, 0x73u8, 0u8]
}

/// The name that stands for an entry of which nothing could be found out.
pub open spec fn unreadable_name() -> Seq<u8> {
    seq![
        0x3cu8, 0x65u8, 0x72u8, 0x72u8, 0x6fu8, 0x72u8, 0x20u8, 0x72u8, 0x65u8, 0x61u8, 0x64u8, 0x69u8,
        0x6eu8, 0x67u8, 0x20u8, 0x66u8, 0x69u8, 0x6cu8, 0x65u8, 0x20u8, 0x6du8, 0x65u8, 0x74u8, 0x61u8,
        0x64u8, 0x61u8, 0x74u8, 0x61u8, 0x3eu8,
    ]
}

/// A file position as it is stored for the guest: its low 32 bits.
pub open spec fn stored_position(position: u64) -> u32 {
    (position % 0x1_0000_0000) as u32
}

/// A file size as the guest is told it: no more than 512 KiB.
pub open spec fn capped_size(size: u64) -> u32 {
    if size > MAX_FILE_SIZE {
        MAX_FILE_SIZE as u32
    } else {
        size as u32
    }
}

impl HostfsState {
    /// The call whose entry point is at `pc`, given the upper byte of the
    /// flash window: calls are taken only while they are served from the
    /// host, the flash stands at address zero and `pc` lies in it. Of
    /// several entry points at one address the first in this order counts.
    pub open spec fn trap_at(self, pc: u32, flash_addr_u: u8) -> Option<HostfsTrap> {
        let m = self.mos_map;
        if !(self.enabled && pc < ROM_SIZE && flash_addr_u == 0) {
            None
        } else if pc == m.f_close {
            Some(HostfsTrap::Close)
        } else if pc == m.f_gets {
            Some(HostfsTrap::Gets)
        } else if pc == m.f_read {
            Some(HostfsTrap::Read)
        } else if pc == m.f_open {
            Some(HostfsTrap::Open)
        } else if pc == m.f_write {
            Some(HostfsTrap::Write)
        } else if pc == m.f_chdir {
            Some(HostfsTrap::Chdir)
        } else if pc == m.f_closedir {
            Some(HostfsTrap::Closedir)
        } else if pc == m.f_getlabel {
            Some(HostfsTrap::Getlabel)
        } else if pc == m.f_getcwd {
            Some(HostfsTrap::Getcwd)
        } else if pc == m.f_lseek {
            Some(HostfsTrap::Lseek)
        } else if pc == m.f_mkdir {
            Some(HostfsTrap::Mkdir)
        } else if pc == m.f_mount {
            Some(HostfsTrap::Mount)
        } else if pc == m.f_opendir {
            Some(HostfsTrap::Opendir)
        } else if pc == m.f_putc {
            Some(HostfsTrap::Putc)
        } else if pc == m.f_readdir {
            Some(HostfsTrap::Readdir)
        } else if pc == m.f_rename {
            Some(HostfsTrap::Rename)
        } else if pc == m.f_stat {
            Some(HostfsTrap::Stat)
        } else if pc == m.f_unlink {
            Some(HostfsTrap::Unlink)
        } else if pc == m.f_truncate {
            Some(HostfsTrap::Truncate)
        } else {
            None
        }
    }
}

impl GuestState {
    pub open spec fn with_mem(self, mem: MemoryState) -> GuestState {
        GuestState { mem, ..self }
    }

    /// Where argument `k` of a call stands, the stack pointer being `sp`:
    /// three bytes each, above the return address.
    pub open spec fn arg_address(sp: u32, k: int) -> u32 {
        address_at(sp, 3 + 3 * k)
    }

    /// The state after argument `k` was read, and the argument.
    pub open spec fn arg(self, sp: u32, k: int) -> (GuestState, u32) {
        (
            self.with_mem(self.mem.peek_all(Self::arg_address(sp, k), 3)),
            le24(self.mem.read_all(Self::arg_address(sp, k), 3)),
        )
    }

    /// The state after the path was read that stands at `address`, and
    /// the path.
    pub open spec fn path(self, address: u32) -> (GuestState, Seq<u8>) {
        (
            self.with_mem(self.mem.peek_all(address, self.mem.path_reads(address))),
            self.mem.path_at(address),
        )
    }

    /// The state after the path was read to which argument `k` points, and
    /// the path.
    pub open spec fn path_arg(self, sp: u32, k: int) -> (GuestState, Seq<u8>) {
        self.arg(sp, k).0.path(self.arg(sp, k).1)
    }

    /// The state after `data` was written from `address` upwards.
    pub open spec fn put(self, address: u32, data: Seq<u8>) -> GuestState {
        self.with_mem(self.mem.poke_all(address, data))
    }

    /// The state after the three low bytes of `value` were written at
    /// `offset` above `base`.
    pub open spec fn put24(self, base: u32, offset: u32, value: u32) -> GuestState {
        self.put(address_at(base, offset as int), le24_bytes(value))
    }

    /// The state after a `FILINFO` structure at `at`, taken to be zero,
    /// was filled in: the name from offset 22, the size at offset 0, the
    /// directory bit in the attribute byte at offset 8, date and time at
    /// offsets 4 and 6.
    pub open spec fn put_filinfo(self, at: u32, info: FileInfoView) -> GuestState {
        let named = self.put(address_at(at, FILINFO_MEMBER_FNAME_256BYTES as int), info.name).put(
            address_at(at, FILINFO_MEMBER_FSIZE_U32 as int),
            info.size_bytes(),
        );
        let marked = if info.is_dir {
            named.put(address_at(at, FILINFO_MEMBER_FATTRIB_U8 as int), seq![AM_DIR])
        } else {
            named
        };
        marked.put(address_at(at, FILINFO_MEMBER_FDATE_U16 as int), info.stamp_bytes())
    }

    /// The state after the arguments of a call were read, with what the
    /// call does before the host is asked, and what the host is asked.
    pub open spec fn request(self, trap: HostfsTrap, sp: u32) -> (GuestState, HostfsRequestView) {
        let (s0, a0) = self.arg(sp, 0);
        let (s1, a1) = s0.arg(sp, 1);
        let (s2, a2) = s1.arg(sp, 2);
        let (s3, a3) = s2.arg(sp, 3);
        let failed = HostfsRequestView::Finished { hl: FR_DISK_ERR };
        let ok = HostfsRequestView::Finished { hl: FR_OK };
        match trap {
            HostfsTrap::Mount => (self, ok),
            HostfsTrap::Close => (s0, HostfsRequestView::Close { fil: a0 }),
            HostfsTrap::Closedir => (s0, HostfsRequestView::Closedir { dir: a0 }),
            HostfsTrap::Getlabel => {
                let (s, buf) = self.arg(sp, 1);
                (s.put(buf, volume_label()), ok)
            },
            HostfsTrap::Getcwd => (s0.put(a0, seq![0x2fu8] + path_bytes(self.fs.cwd) + seq![0u8]), ok),
            HostfsTrap::Gets => (
                s2,
                if self.fs.open_files.contains(a2) {
                    HostfsRequestView::Gets { fil: a2, buf: a0, max_len: a1 }
                } else {
                    HostfsRequestView::Finished { hl: 0 }
                },
            ),
            HostfsTrap::Read => (
                s3,
                if self.fs.open_files.contains(a0) {
                    HostfsRequestView::Read { fil: a0, buf: a1, len: a2, count_ptr: a3 }
                } else {
                    failed
                },
            ),
            HostfsTrap::Write => if self.fs.open_files.contains(a0) {
                (
                    s3.with_mem(s3.mem.peek_all(a1, a2 as nat)),
                    HostfsRequestView::Write {
                        fil: a0,
                        data: s3.mem.read_all(a1, a2 as nat),
                        count_ptr: a3,
                    },
                )
            } else {
                (s3, failed)
            },
            HostfsTrap::Putc => (
                s1,
                if self.fs.open_files.contains(a1) {
                    HostfsRequestView::Putc { fil: a1, ch: (a0 % 0x100) as u8 }
                } else {
                    failed
                },
            ),
            HostfsTrap::Lseek => (
                s1,
                if self.fs.open_files.contains(a0) {
                    HostfsRequestView::Lseek { fil: a0, offset: a1 }
                } else {
                    failed
                },
            ),
            HostfsTrap::Truncate => (
                s0,
                if self.fs.open_files.contains(a0) {
                    HostfsRequestView::Truncate { fil: a0 }
                } else {
                    failed
                },
            ),
            HostfsTrap::Open => {
                let (p, path) = s0.path_arg(sp, 1);
                let (m, mode) = p.arg(sp, 2);
                (m, HostfsRequestView::Open { fil: a0, path, flags: open_flags_of(mode) })
            },
            HostfsTrap::Chdir => {
                let (p, path) = self.path_arg(sp, 0);
                (p, HostfsRequestView::Chdir { path })
            },
            HostfsTrap::Mkdir => {
                let (p, path) = self.path_arg(sp, 0);
                (p, HostfsRequestView::Mkdir { path })
            },
            HostfsTrap::Unlink => {
                let (p, path) = self.path_arg(sp, 0);
                (p, HostfsRequestView::Unlink { path })
            },
            HostfsTrap::Rename => {
                let (p, from) = self.path_arg(sp, 0);
                let (q, to) = p.path_arg(sp, 1);
                (q, HostfsRequestView::Rename { from, to })
            },
            HostfsTrap::Stat => {
                let (p, path) = self.path_arg(sp, 0);
                let (q, filinfo) = p.arg(sp, 1);
                (q, HostfsRequestView::Stat { path, filinfo })
            },
            HostfsTrap::Opendir => {
                let (p, path) = s0.path_arg(sp, 1);
                (p, HostfsRequestView::Opendir { dir: a0, path })
            },
            HostfsTrap::Readdir => (
                s1.put(a1, Seq::new(SIZEOF_MOS_FILINFO_STRUCT as nat, |i: int| 0u8)),
                if self.fs.open_dirs.contains(a0) {
                    HostfsRequestView::Readdir { dir: a0, filinfo: a1 }
                } else {
                    failed
                },
            ),
        }
    }

    /// What a call that only succeeds or fails gives for HL.
    pub open spec fn plain_result(reply: HostfsReplyView) -> u32 {
        match reply {
            HostfsReplyView::Done => FR_OK,
            HostfsReplyView::Failed(e) => fresult_of(e),
            _ => FR_DISK_ERR,
        }
    }

    /// After `f_chdir`: an entry that is a directory becomes the working
    /// directory.
    pub open spec fn complete_chdir(self, reply: HostfsReplyView) -> (GuestState, u32) {
        match reply {
            HostfsReplyView::Entry { path, is_dir } => if is_dir {
                (GuestState { fs: HostfsState { cwd: path, ..self.fs }, ..self }, FR_OK)
            } else {
                (self, FR_DISK_ERR)
            },
            HostfsReplyView::Failed(e) => (self, fresult_of(e)),
            _ => (self, FR_DISK_ERR),
        }
    }

    /// After `f_stat`: the `FILINFO` structure is cleared and filled in.
    pub open spec fn complete_stat(self, filinfo: u32, reply: HostfsReplyView) -> (GuestState, u32) {
        match reply {
            HostfsReplyView::Info(info) => (
                self.put(filinfo, Seq::new(SIZEOF_MOS_FILINFO_STRUCT as nat, |i: int| 0u8)).put_filinfo(
                    filinfo,
                    info,
                ),
                FR_OK,
            ),
            HostfsReplyView::Failed(e) => (self, fresult_of(e)),
            _ => (self, FR_DISK_ERR),
        }
    }

    /// After `f_open`: the `FIL` structure is cleared, the size of the
    /// file, capped, is stored in it, and the file counts as open.
    pub open spec fn complete_open(self, fil: u32, reply: HostfsReplyView) -> (GuestState, u32) {
        match reply {
            HostfsReplyView::NotRegularFile => (self, FR_NO_FILE),
            HostfsReplyView::Opened { size } => (
                GuestState {
                    fs: HostfsState { open_files: self.fs.open_files.insert(fil), ..self.fs },
                    ..self.put(fil, Seq::new(SIZEOF_MOS_FIL_STRUCT as nat, |i: int| 0u8)).put24(
                        fil,
                        FIL_MEMBER_OBJSIZE,
                        capped_size(size),
                    )
                },
                FR_OK,
            ),
            HostfsReplyView::Failed(e) => (self, fresult_of(e)),
            _ => (self, FR_DISK_ERR),
        }
    }

    /// After `f_read`: the bytes read go to the buffer, the position into
    /// the `FIL` structure and the number of bytes where the guest wants
    /// it.
    pub open spec fn complete_read(
        self,
        fil: u32,
        buf: u32,
        len: u32,
        count_ptr: u32,
        reply: HostfsReplyView,
    ) -> (GuestState, u32) {
        match reply {
            HostfsReplyView::Data { bytes, position } => if bytes.len() <= len {
                (
                    self.put(buf, bytes).put24(fil, FIL_MEMBER_FPTR, stored_position(position)).put24(
                        count_ptr,
                        0,
                        bytes.len() as u32,
                    ),
                    FR_OK,
                )
            } else {
                (self, FR_DISK_ERR)
            },
            HostfsReplyView::Failed(e) => (self, fresult_of(e)),
            _ => (self, FR_DISK_ERR),
        }
    }

    /// After `f_write`: the position goes into the `FIL` structure, and
    /// the guest is told that all bytes were written.
    pub open spec fn complete_write(
        self,
        fil: u32,
        written: nat,
        count_ptr: u32,
        reply: HostfsReplyView,
    ) -> (GuestState, u32) {
        match reply {
            HostfsReplyView::Position(position) => (
                self.put24(fil, FIL_MEMBER_FPTR, stored_position(position)).put24(
                    count_ptr,
                    0,
                    (written % 0x1_0000_0000) as u32,
                ),
                FR_OK,
            ),
            HostfsReplyView::Failed(e) => (self, fresult_of(e)),
            _ => (self, FR_DISK_ERR),
        }
    }

    /// After a call that moves the position of a file, or cuts the file
    /// off at it: the position goes into the `FIL` structure, at `member`.
    pub open spec fn complete_position(self, fil: u32, member: u32, reply: HostfsReplyView) -> (
        GuestState,
        u32,
    ) {
        match reply {
            HostfsReplyView::Position(position) => (
                self.put24(fil, member, stored_position(position)),
                FR_OK,
            ),
            HostfsReplyView::Failed(e) => (self, fresult_of(e)),
            _ => (self, FR_DISK_ERR),
        }
    }

    /// After `f_gets`: the position goes into the `FIL` structure and the
    /// line, with a NUL after it, to the buffer, whose address is the
    /// value for HL. A call that failed gives zero.
    pub open spec fn complete_gets(self, fil: u32, buf: u32, max_len: u32, reply: HostfsReplyView) -> (
        GuestState,
        u32,
    ) {
        match reply {
            HostfsReplyView::Data { bytes, position } => if bytes.len() <= max_len {
                (
                    self.put24(fil, FIL_MEMBER_FPTR, stored_position(position)).put(buf, bytes.push(0u8)),
                    buf,
                )
            } else {
                (self, 0)
            },
            _ => (self, 0),
        }
    }

    /// After `f_opendir`: the listing counts as open.
    pub open spec fn complete_opendir(self, dir: u32, reply: HostfsReplyView) -> (GuestState, u32) {
        match reply {
            HostfsReplyView::Done => (
                GuestState {
                    fs: HostfsState { open_dirs: self.fs.open_dirs.insert(dir), ..self.fs },
                    ..self
                },
                FR_OK,
            ),
            HostfsReplyView::Failed(e) => (self, fresult_of(e)),
            _ => (self, FR_DISK_ERR),
        }
    }

    /// After `f_readdir`: the `FILINFO` structure, cleared when the call
    /// began, is filled in for an entry, and stays empty at the end of the
    /// listing, which is how the guest knows the end.
    pub open spec fn complete_readdir(self, filinfo: u32, reply: HostfsReplyView) -> (GuestState, u32) {
        match reply {
            HostfsReplyView::Info(info) => (self.put_filinfo(filinfo, info), FR_OK),
            HostfsReplyView::Unreadable => (
                self.put(address_at(filinfo, FILINFO_MEMBER_FNAME_256BYTES as int), unreadable_name()),
                FR_OK,
            ),
            HostfsReplyView::End => (self, FR_OK),
            HostfsReplyView::Failed(e) => (self, fresult_of(e)),
            _ => (self, FR_DISK_ERR),
        }
    }

    /// The state after the host did what was asked, and the value for HL.
    /// Closing always succeeds, whatever the host says, and the file or
    /// listing counts as closed. Elsewhere a failure of the host gives the
    /// code of its kind, and a reply that does not belong to the request
    /// counts as a failure of the disk and changes nothing.
    pub open spec fn complete(self, request: HostfsRequestView, reply: HostfsReplyView) -> (
        GuestState,
        u32,
    ) {
        match request {
            HostfsRequestView::Finished { hl } => (self, hl),
            HostfsRequestView::Close { fil } => (
                GuestState {
                    fs: HostfsState { open_files: self.fs.open_files.remove(fil), ..self.fs },
                    ..self
                },
                FR_OK,
            ),
            HostfsRequestView::Closedir { dir } => (
                GuestState {
                    fs: HostfsState { open_dirs: self.fs.open_dirs.remove(dir), ..self.fs },
                    ..self
                },
                FR_OK,
            ),
            HostfsRequestView::Chdir { path } => self.complete_chdir(reply),
            HostfsRequestView::Mkdir { path } => (self, Self::plain_result(reply)),
            HostfsRequestView::Unlink { path } => (self, Self::plain_result(reply)),
            HostfsRequestView::Rename { from, to } => (self, Self::plain_result(reply)),
            HostfsRequestView::Stat { path, filinfo } => self.complete_stat(filinfo, reply),
            HostfsRequestView::Open { fil, path, flags } => self.complete_open(fil, reply),
            HostfsRequestView::Read { fil, buf, len, count_ptr } => self.complete_read(
                fil,
                buf,
                len,
                count_ptr,
                reply,
            ),
            HostfsRequestView::Write { fil, data, count_ptr } => self.complete_write(
                fil,
                data.len(),
                count_ptr,
                reply,
            ),
            HostfsRequestView::Putc { fil, ch } => self.complete_position(fil, FIL_MEMBER_FPTR, reply),
            HostfsRequestView::Gets { fil, buf, max_len } => self.complete_gets(fil, buf, max_len, reply),
            HostfsRequestView::Lseek { fil, offset } => self.complete_position(
                fil,
                FIL_MEMBER_FPTR,
                reply,
            ),
            HostfsRequestView::Truncate { fil } => self.complete_position(
                fil,
                FIL_MEMBER_OBJSIZE,
                reply,
            ),
            HostfsRequestView::Opendir { dir, path } => self.complete_opendir(dir, reply),
            HostfsRequestView::Readdir { dir, filinfo } => self.complete_readdir(filinfo, reply),
        }
    }
}

/// The state of the trap layer.
pub struct Hostfs {
    enabled: bool,
    mos_map: MosMap,
    cwd: MosPath,
    open_files: HashSet<u32>,
    open_dirs: HashSet<u32>,
}

impl View for Hostfs {
    type V = HostfsState;

    closed spec fn view(&self) -> HostfsState {
        HostfsState {
            enabled: self.enabled,
            mos_map: self.mos_map,
            cwd: self.cwd@,
            open_files: self.open_files@,
            open_dirs: self.open_dirs@,
        }
    }
}

/// The FatFS result code that the guest sees for a failure of the host.
pub fn fresult(e: HostError) -> (r: u32)
    ensures
        r == fresult_of(e),
{
    match e {
        HostError::NotFound => FR_NO_FILE,
        HostError::Other => FR_DISK_ERR,
    }
}

/// How the host opens a file for a mode that the guest gave.
pub fn open_flags(mode: u32) -> (r: OpenFlags)
    ensures
        r == open_flags_of(mode),
{
    OpenFlags {
        read: true,
        write: mode & FA_WRITE != 0,
        create: mode & FA_CREATE_NEW != 0 || mode & FA_CREATE_ALWAYS != 0,
        truncate: mode & FA_CREATE_ALWAYS != 0,
    }
}

fn zeroes(count: u32) -> (v: Vec<u8>)
    ensures
        v@ == Seq::new(count as nat, |i: int| 0u8),
{
    let v: Vec<u8> = vec![0u8; count as usize];
    assert(v@ =~= Seq::new(count as nat, |i: int| 0u8));
    v
}

impl Hostfs {
    /// A trap layer that serves calls, with no entry point known yet, no
    /// file open and the root as working directory.
    pub fn new() -> (r: Self)
        ensures
            r@.enabled,
            r@.mos_map.entries() == Seq::new(MOS_MAP_ENTRIES as nat, |k: int| 0u32),
            r@.cwd == Seq::<Seq<u8>>::empty(),
            r@.open_files == Set::<u32>::empty(),
            r@.open_dirs == Set::<u32>::empty(),
    {
        Hostfs {
            enabled: true,
            mos_map: MosMap::default(),
            cwd: MosPath::new(),
            open_files: HashSet::new(),
            open_dirs: HashSet::new(),
        }
    }

    pub fn is_enabled(&self) -> (r: bool)
        ensures
            r == self@.enabled,
    {
        self.enabled
    }

    pub fn set_enabled(&mut self, enabled: bool)
        ensures
            final(self)@ == (HostfsState { enabled, ..old(self)@ }),
    {
        self.enabled = enabled;
    }

    pub fn mos_map(&self) -> (r: MosMap)
        ensures
            r == self@.mos_map,
    {
        self.mos_map
    }

    pub fn set_mos_map(&mut self, mos_map: MosMap)
        ensures
            final(self)@ == (HostfsState { mos_map, ..old(self)@ }),
    {
        self.mos_map = mos_map;
    }

    /// The working directory of the guest.
    pub fn cwd(&self) -> (r: MosPath)
        ensures
            r@ == self@.cwd,
    {
        self.cwd.copy()
    }

    /// Says whether the file of this key is open.
    pub fn is_file_open(&self, fil: u32) -> (r: bool)
        ensures
            r == self@.open_files.contains(fil),
    {
        self.open_files.contains(&fil)
    }

    /// Says whether the listing of this key is open.
    pub fn is_dir_open(&self, dir: u32) -> (r: bool)
        ensures
            r == self@.open_dirs.contains(dir),
    {
        self.open_dirs.contains(&dir)
    }

    /// The call whose entry point is at `pc`.
    pub fn trap_at(&self, pc: u32, flash_addr_u: u8) -> (r: Option<HostfsTrap>)
        ensures
            r == self@.trap_at(pc, flash_addr_u),
    {
        let m: MosMap = self.mos_map;
        if !(self.enabled && pc < ROM_SIZE as u32 && flash_addr_u == 0) {
            None
        } else if pc == m.f_close {
            Some(HostfsTrap::Close)
        } else if pc == m.f_gets {
            Some(HostfsTrap::Gets)
        } else if pc == m.f_read {
            Some(HostfsTrap::Read)
        } else if pc == m.f_open {
            Some(HostfsTrap::Open)
        } else if pc == m.f_write {
            Some(HostfsTrap::Write)
        } else if pc == m.f_chdir {
            Some(HostfsTrap::Chdir)
        } else if pc == m.f_closedir {
            Some(HostfsTrap::Closedir)
        } else if pc == m.f_getlabel {
            Some(HostfsTrap::Getlabel)
        } else if pc == m.f_getcwd {
            Some(HostfsTrap::Getcwd)
        } else if pc == m.f_lseek {
            Some(HostfsTrap::Lseek)
        } else if pc == m.f_mkdir {
            Some(HostfsTrap::Mkdir)
        } else if pc == m.f_mount {
            Some(HostfsTrap::Mount)
        } else if pc == m.f_opendir {
            Some(HostfsTrap::Opendir)
        } else if pc == m.f_putc {
            Some(HostfsTrap::Putc)
        } else if pc == m.f_readdir {
            Some(HostfsTrap::Readdir)
        } else if pc == m.f_rename {
            Some(HostfsTrap::Rename)
        } else if pc == m.f_stat {
            Some(HostfsTrap::Stat)
        } else if pc == m.f_unlink {
            Some(HostfsTrap::Unlink)
        } else if pc == m.f_truncate {
            Some(HostfsTrap::Truncate)
        } else {
            None
        }
    }

    fn arg(&self, mem: &mut Memory, sp: u32, k: u32) -> (value: u32)
        requires
            k < 8,
        ensures
            ((GuestState { mem: final(mem)@, fs: self@ }), value) == (GuestState {
                mem: old(mem)@,
                fs: self@,
            }).arg(sp, k as int),
            final(mem)@.wf(),
    {
        let at: u32 = sp.wrapping_add(3 + 3 * k);
        assert(at == GuestState::arg_address(sp, k as int)) by {
            reveal(address_at);
        }
        mem.peek24(at)
    }

    fn path_arg(&self, mem: &mut Memory, sp: u32, k: u32) -> (path: Vec<u8>)
        requires
            k < 8,
        ensures
            ((GuestState { mem: final(mem)@, fs: self@ }), path@) == (GuestState {
                mem: old(mem)@,
                fs: self@,
            }).path_arg(sp, k as int),
            final(mem)@.wf(),
    {
        let at: u32 = self.arg(mem, sp, k);
        mem.get_mos_path_string(at)
    }

    fn request_file(&mut self, mem: &mut Memory, trap: HostfsTrap, sp: u32) -> (req: HostfsRequest)
        requires
            trap is Close || trap is Gets || trap is Read || trap is Write || trap is Putc || trap is Lseek || trap is Truncate,
        ensures
            ((GuestState { mem: final(mem)@, fs: final(self)@ }), req@) == (GuestState {
                mem: old(mem)@,
                fs: old(self)@,
            }).request(trap, sp),
    {
        match trap {
            HostfsTrap::Close => {
                let fil: u32 = self.arg(mem, sp, 0);
                HostfsRequest::Close { fil }
            },
            HostfsTrap::Gets => {
                let buf: u32 = self.arg(mem, sp, 0);
                let max_len: u32 = self.arg(mem, sp, 1);
                let fil: u32 = self.arg(mem, sp, 2);
                if self.open_files.contains(&fil) {
                    HostfsRequest::Gets { fil, buf, max_len }
                } else {
                    HostfsRequest::Finished { hl: 0 }
                }
            },
            HostfsTrap::Read => {
                let fil: u32 = self.arg(mem, sp, 0);
                let buf: u32 = self.arg(mem, sp, 1);
                let len: u32 = self.arg(mem, sp, 2);
                let count_ptr: u32 = self.arg(mem, sp, 3);
                if self.open_files.contains(&fil) {
                    HostfsRequest::Read { fil, buf, len, count_ptr }
                } else {
                    HostfsRequest::Finished { hl: FR_DISK_ERR }
                }
            },
            HostfsTrap::Write => {
                let fil: u32 = self.arg(mem, sp, 0);
                let buf: u32 = self.arg(mem, sp, 1);
                let num: u32 = self.arg(mem, sp, 2);
                let count_ptr: u32 = self.arg(mem, sp, 3);
                if self.open_files.contains(&fil) {
                    let data: Vec<u8> = mem.read_bytes(buf, num);
                    HostfsRequest::Write { fil, data, count_ptr }
                } else {
                    HostfsRequest::Finished { hl: FR_DISK_ERR }
                }
            },
            HostfsTrap::Putc => {
                let ch: u32 = self.arg(mem, sp, 0);
                let fil: u32 = self.arg(mem, sp, 1);
                if self.open_files.contains(&fil) {
                    HostfsRequest::Putc { fil, ch: (ch % 0x100) as u8 }
                } else {
                    HostfsRequest::Finished { hl: FR_DISK_ERR }
                }
            },
            HostfsTrap::Lseek => {
                let fil: u32 = self.arg(mem, sp, 0);
                let offset: u32 = self.arg(mem, sp, 1);
                if self.open_files.contains(&fil) {
                    HostfsRequest::Lseek { fil, offset }
                } else {
                    HostfsRequest::Finished { hl: FR_DISK_ERR }
                }
            },
            HostfsTrap::Truncate => {
                let fil: u32 = self.arg(mem, sp, 0);
                if self.open_files.contains(&fil) {
                    HostfsRequest::Truncate { fil }
                } else {
                    HostfsRequest::Finished { hl: FR_DISK_ERR }
                }
            },
            _ => HostfsRequest::Finished { hl: FR_DISK_ERR },
        }
    }

    fn request_path(&mut self, mem: &mut Memory, trap: HostfsTrap, sp: u32) -> (req: HostfsRequest)
        requires
            trap is Open || trap is Chdir || trap is Mkdir || trap is Unlink || trap is Rename || trap is Stat || trap is Opendir,
        ensures
            ((GuestState { mem: final(mem)@, fs: final(self)@ }), req@) == (GuestState {
                mem: old(mem)@,
                fs: old(self)@,
            }).request(trap, sp),
    {
        match trap {
            HostfsTrap::Open => {
                let fil: u32 = self.arg(mem, sp, 0);
                let path: Vec<u8> = self.path_arg(mem, sp, 1);
                let mode: u32 = self.arg(mem, sp, 2);
                HostfsRequest::Open { fil, path, flags: open_flags(mode) }
            },
            HostfsTrap::Chdir => {
                let path: Vec<u8> = self.path_arg(mem, sp, 0);
                HostfsRequest::Chdir { path }
            },
            HostfsTrap::Mkdir => {
                let path: Vec<u8> = self.path_arg(mem, sp, 0);
                HostfsRequest::Mkdir { path }
            },
            HostfsTrap::Unlink => {
                let path: Vec<u8> = self.path_arg(mem, sp, 0);
                HostfsRequest::Unlink { path }
            },
            HostfsTrap::Rename => {
                let from: Vec<u8> = self.path_arg(mem, sp, 0);
                let to: Vec<u8> = self.path_arg(mem, sp, 1);
                HostfsRequest::Rename { from, to }
            },
            HostfsTrap::Stat => {
                let path: Vec<u8> = self.path_arg(mem, sp, 0);
                let filinfo: u32 = self.arg(mem, sp, 1);
                HostfsRequest::Stat { path, filinfo }
            },
            HostfsTrap::Opendir => {
                let dir: u32 = self.arg(mem, sp, 0);
                let path: Vec<u8> = self.path_arg(mem, sp, 1);
                HostfsRequest::Opendir { dir, path }
            },
            _ => HostfsRequest::Finished { hl: FR_DISK_ERR },
        }
    }

    fn request_other(&mut self, mem: &mut Memory, trap: HostfsTrap, sp: u32) -> (req: HostfsRequest)
        requires
            trap is Mount || trap is Closedir || trap is Getlabel || trap is Getcwd || trap is Readdir,
        ensures
            ((GuestState { mem: final(mem)@, fs: final(self)@ }), req@) == (GuestState {
                mem: old(mem)@,
                fs: old(self)@,
            }).request(trap, sp),
    {
        match trap {
            HostfsTrap::Mount => HostfsRequest::Finished { hl: FR_OK },
            HostfsTrap::Closedir => {
                let dir: u32 = self.arg(mem, sp, 0);
                HostfsRequest::Closedir { dir }
            },
            HostfsTrap::Getlabel => {
                let buf: u32 = self.arg(mem, sp, 1);
                let label: [u8; 7] = [0x68, 0x6f, 0x73, 0x74, 0x66, 0x73, 0];
                assert(label@ =~= volume_label());
                mem.memcpy(buf, label.as_slice());
                HostfsRequest::Finished { hl: FR_OK }
            },
            HostfsTrap::Getcwd => {
                let buf: u32 = self.arg(mem, sp, 0);
                let mut text: Vec<u8> = Vec::new();
                text.push(0x2f);
                let mut cwd: Vec<u8> = self.cwd.to_bytes();
                text.append(&mut cwd);
                text.push(0);
                assert(text@ =~= seq![0x2fu8] + path_bytes(self@.cwd) + seq![0u8]);
                mem.memcpy(buf, text.as_slice());
                HostfsRequest::Finished { hl: FR_OK }
            },
            HostfsTrap::Readdir => {
                let dir: u32 = self.arg(mem, sp, 0);
                let filinfo: u32 = self.arg(mem, sp, 1);
                mem.memset(filinfo, 0, SIZEOF_MOS_FILINFO_STRUCT);
                if self.open_dirs.contains(&dir) {
                    HostfsRequest::Readdir { dir, filinfo }
                } else {
                    HostfsRequest::Finished { hl: FR_DISK_ERR }
                }
            },
            _ => HostfsRequest::Finished { hl: FR_DISK_ERR },
        }
    }

    /// Reads the arguments of a call from the stack of the guest, does
    /// what the call does before the host is asked, and says what the host
    /// is asked.
    pub fn request(&mut self, mem: &mut Memory, trap: HostfsTrap, sp: u32) -> (req: HostfsRequest)
        ensures
            final(mem)@.wf(),
            ((GuestState { mem: final(mem)@, fs: final(self)@ }), req@) == (GuestState {
                mem: old(mem)@,
                fs: old(self)@,
            }).request(trap, sp),
    {
        let req: HostfsRequest = match trap {
            HostfsTrap::Close
            | HostfsTrap::Gets
            | HostfsTrap::Read
            | HostfsTrap::Write
            | HostfsTrap::Putc
            | HostfsTrap::Lseek
            | HostfsTrap::Truncate => self.request_file(mem, trap, sp),
            HostfsTrap::Open
            | HostfsTrap::Chdir
            | HostfsTrap::Mkdir
            | HostfsTrap::Unlink
            | HostfsTrap::Rename
            | HostfsTrap::Stat
            | HostfsTrap::Opendir => self.request_path(mem, trap, sp),
            _ => self.request_other(mem, trap, sp),
        };
        proof {
            use_type_invariant(&*mem);
        }
        req
    }

    fn put(&self, mem: &mut Memory, base: u32, offset: u32, data: &[u8])
        ensures
            (GuestState { mem: final(mem)@, fs: self@ }) == (GuestState {
                mem: old(mem)@,
                fs: self@,
            }).put(address_at(base, offset as int), data@),
    {
        assert(base.wrapping_add(offset) == address_at(base, offset as int)) by {
            reveal(address_at);
        }
        mem.memcpy(base.wrapping_add(offset), data);
    }

    fn put24(&self, mem: &mut Memory, base: u32, offset: u32, value: u32)
        ensures
            (GuestState { mem: final(mem)@, fs: self@ }) == (GuestState {
                mem: old(mem)@,
                fs: self@,
            }).put24(base, offset, value),
    {
        assert(base.wrapping_add(offset) == address_at(base, offset as int)) by {
            reveal(address_at);
        }
        mem.poke24(base.wrapping_add(offset), value);
    }

    fn clear(&self, mem: &mut Memory, at: u32, count: u32)
        ensures
            (GuestState { mem: final(mem)@, fs: self@ }) == (GuestState {
                mem: old(mem)@,
                fs: self@,
            }).put(at, Seq::new(count as nat, |i: int| 0u8)),
    {
        mem.memset(at, 0, count);
    }

    /// Fills in a `FILINFO` structure that is zero so far.
    pub fn set_filinfo(&self, mem: &mut Memory, at: u32, info: &FileInfo)
        ensures
            final(mem)@.wf(),
            (GuestState { mem: final(mem)@, fs: self@ }) == (GuestState {
                mem: old(mem)@,
                fs: self@,
            }).put_filinfo(at, info@),
    {
        self.put(mem, at, FILINFO_MEMBER_FNAME_256BYTES, info.name.as_slice());
        let size: Vec<u8> = size_bytes(info.size);
        self.put(mem, at, FILINFO_MEMBER_FSIZE_U32, size.as_slice());
        if info.is_dir {
            let mut attrib: Vec<u8> = Vec::new();
            attrib.push(AM_DIR);
            assert(attrib@ =~= seq![AM_DIR]);
            self.put(mem, at, FILINFO_MEMBER_FATTRIB_U8, attrib.as_slice());
        }
        let stamp: Vec<u8> = match info.modified {
            Some(t) => stamp_bytes(t.packed_date(), t.packed_time()),
            None => stamp_bytes(0, 0),
        };
        self.put(mem, at, FILINFO_MEMBER_FDATE_U16, stamp.as_slice());
        proof {
            use_type_invariant(&*mem);
        }
    }

    fn complete_chdir(&mut self, mem: &Memory, reply: HostfsReply) -> (hl: u32)
        ensures
            ((GuestState { mem: mem@, fs: final(self)@ }), hl) == (GuestState {
                mem: mem@,
                fs: old(self)@,
            }).complete_chdir(reply@),
    {
        match reply {
            HostfsReply::Entry { path, is_dir } => {
                if is_dir {
                    self.cwd = path;
                    FR_OK
                } else {
                    FR_DISK_ERR
                }
            },
            HostfsReply::Failed(e) => fresult(e),
            _ => FR_DISK_ERR,
        }
    }

    fn complete_stat(&self, mem: &mut Memory, filinfo: u32, reply: HostfsReply) -> (hl: u32)
        ensures
            ((GuestState { mem: final(mem)@, fs: self@ }), hl) == (GuestState {
                mem: old(mem)@,
                fs: self@,
            }).complete_stat(filinfo, reply@),
    {
        match reply {
            HostfsReply::Info(info) => {
                self.clear(mem, filinfo, SIZEOF_MOS_FILINFO_STRUCT);
                self.set_filinfo(mem, filinfo, &info);
                FR_OK
            },
            HostfsReply::Failed(e) => fresult(e),
            _ => FR_DISK_ERR,
        }
    }

    fn complete_open(&mut self, mem: &mut Memory, fil: u32, reply: HostfsReply) -> (hl: u32)
        ensures
            ((GuestState { mem: final(mem)@, fs: final(self)@ }), hl) == (GuestState {
                mem: old(mem)@,
                fs: old(self)@,
            }).complete_open(fil, reply@),
    {
        match reply {
            HostfsReply::NotRegularFile => FR_NO_FILE,
            HostfsReply::Opened { size } => {
                self.clear(mem, fil, SIZEOF_MOS_FIL_STRUCT);
                let told: u32 = if size > MAX_FILE_SIZE {
                    MAX_FILE_SIZE as u32
                } else {
                    size as u32
                };
                self.put24(mem, fil, FIL_MEMBER_OBJSIZE, told);
                self.open_files.insert(fil);
                FR_OK
            },
            HostfsReply::Failed(e) => fresult(e),
            _ => FR_DISK_ERR,
        }
    }

    fn complete_read(
        &self,
        mem: &mut Memory,
        fil: u32,
        buf: u32,
        len: u32,
        count_ptr: u32,
        reply: HostfsReply,
    ) -> (hl: u32)
        ensures
            ((GuestState { mem: final(mem)@, fs: self@ }), hl) == (GuestState {
                mem: old(mem)@,
                fs: self@,
            }).complete_read(fil, buf, len, count_ptr, reply@),
    {
        match reply {
            HostfsReply::Data { bytes, position } => {
                if bytes.len() <= len as usize {
                    mem.memcpy(buf, bytes.as_slice());
                    self.put24(mem, fil, FIL_MEMBER_FPTR, (position % 0x1_0000_0000) as u32);
                    self.put24(mem, count_ptr, 0, bytes.len() as u32);
                    FR_OK
                } else {
                    FR_DISK_ERR
                }
            },
            HostfsReply::Failed(e) => fresult(e),
            _ => FR_DISK_ERR,
        }
    }

    fn complete_write(&self, mem: &mut Memory, fil: u32, written: usize, count_ptr: u32, reply: HostfsReply) -> (hl:
        u32)
        ensures
            ((GuestState { mem: final(mem)@, fs: self@ }), hl) == (GuestState {
                mem: old(mem)@,
                fs: self@,
            }).complete_write(fil, written as nat, count_ptr, reply@),
    {
        match reply {
            HostfsReply::Position(position) => {
                self.put24(mem, fil, FIL_MEMBER_FPTR, (position % 0x1_0000_0000) as u32);
                self.put24(mem, count_ptr, 0, (written as u64 % 0x1_0000_0000) as u32);
                FR_OK
            },
            HostfsReply::Failed(e) => fresult(e),
            _ => FR_DISK_ERR,
        }
    }

    fn complete_position(&self, mem: &mut Memory, fil: u32, member: u32, reply: HostfsReply) -> (hl:
        u32)
        ensures
            ((GuestState { mem: final(mem)@, fs: self@ }), hl) == (GuestState {
                mem: old(mem)@,
                fs: self@,
            }).complete_position(fil, member, reply@),
    {
        match reply {
            HostfsReply::Position(position) => {
                self.put24(mem, fil, member, (position % 0x1_0000_0000) as u32);
                FR_OK
            },
            HostfsReply::Failed(e) => fresult(e),
            _ => FR_DISK_ERR,
        }
    }

    fn complete_gets(&self, mem: &mut Memory, fil: u32, buf: u32, max_len: u32, reply: HostfsReply) -> (hl:
        u32)
        ensures
            ((GuestState { mem: final(mem)@, fs: self@ }), hl) == (GuestState {
                mem: old(mem)@,
                fs: self@,
            }).complete_gets(fil, buf, max_len, reply@),
    {
        match reply {
            HostfsReply::Data { bytes, position } => {
                if bytes.len() <= max_len as usize {
                    self.put24(mem, fil, FIL_MEMBER_FPTR, (position % 0x1_0000_0000) as u32);
                    let mut line: Vec<u8> = bytes;
                    line.push(0);
                    mem.memcpy(buf, line.as_slice());
                    buf
                } else {
                    0
                }
            },
            _ => 0,
        }
    }

    fn complete_opendir(&mut self, mem: &Memory, dir: u32, reply: HostfsReply) -> (hl: u32)
        ensures
            ((GuestState { mem: mem@, fs: final(self)@ }), hl) == (GuestState {
                mem: mem@,
                fs: old(self)@,
            }).complete_opendir(dir, reply@),
    {
        match reply {
            HostfsReply::Done => {
                self.open_dirs.insert(dir);
                FR_OK
            },
            HostfsReply::Failed(e) => fresult(e),
            _ => FR_DISK_ERR,
        }
    }

    fn complete_readdir(&self, mem: &mut Memory, filinfo: u32, reply: HostfsReply) -> (hl: u32)
        ensures
            ((GuestState { mem: final(mem)@, fs: self@ }), hl) == (GuestState {
                mem: old(mem)@,
                fs: self@,
            }).complete_readdir(filinfo, reply@),
    {
        match reply {
            HostfsReply::Info(info) => {
                self.set_filinfo(mem, filinfo, &info);
                FR_OK
            },
            HostfsReply::Unreadable => {
                let name: Vec<u8> = unreadable_name_bytes();
                self.put(mem, filinfo, FILINFO_MEMBER_FNAME_256BYTES, name.as_slice());
                FR_OK
            },
            HostfsReply::End => FR_OK,
            HostfsReply::Failed(e) => fresult(e),
            _ => FR_DISK_ERR,
        }
    }

    /// Takes what came of the work of the host for a request, writes the
    /// results into the memory of the guest, and gives the value for HL.
    pub fn complete(&mut self, mem: &mut Memory, request: &HostfsRequest, reply: HostfsReply) -> (hl:
        u32)
        ensures
            final(mem)@.wf(),
            ((GuestState { mem: final(mem)@, fs: final(self)@ }), hl) == (GuestState {
                mem: old(mem)@,
                fs: old(self)@,
            }).complete(request@, reply@),
    {
        let hl: u32 = match request {
            HostfsRequest::Finished { hl } => *hl,
            HostfsRequest::Close { fil } => {
                self.open_files.remove(fil);
                FR_OK
            },
            HostfsRequest::Closedir { dir } => {
                self.open_dirs.remove(dir);
                FR_OK
            },
            HostfsRequest::Chdir { path } => self.complete_chdir(mem, reply),
            HostfsRequest::Mkdir { path } => plain_result(reply),
            HostfsRequest::Unlink { path } => plain_result(reply),
            HostfsRequest::Rename { from, to } => plain_result(reply),
            HostfsRequest::Stat { path, filinfo } => self.complete_stat(mem, *filinfo, reply),
            HostfsRequest::Open { fil, path, flags } => self.complete_open(mem, *fil, reply),
            HostfsRequest::Read { fil, buf, len, count_ptr } => self.complete_read(
                mem,
                *fil,
                *buf,
                *len,
                *count_ptr,
                reply,
            ),
            HostfsRequest::Write { fil, data, count_ptr } => self.complete_write(
                mem,
                *fil,
                data.len(),
                *count_ptr,
                reply,
            ),
            HostfsRequest::Putc { fil, ch } => self.complete_position(mem, *fil, FIL_MEMBER_FPTR, reply),
            HostfsRequest::Gets { fil, buf, max_len } => self.complete_gets(
                mem,
                *fil,
                *buf,
                *max_len,
                reply,
            ),
            HostfsRequest::Lseek { fil, offset } => self.complete_position(
                mem,
                *fil,
                FIL_MEMBER_FPTR,
                reply,
            ),
            HostfsRequest::Truncate { fil } => self.complete_position(
                mem,
                *fil,
                FIL_MEMBER_OBJSIZE,
                reply,
            ),
            HostfsRequest::Opendir { dir, path } => self.complete_opendir(mem, *dir, reply),
            HostfsRequest::Readdir { dir, filinfo } => self.complete_readdir(mem, *filinfo, reply),
        };
        proof {
            use_type_invariant(&*mem);
        }
        hl
    }
}

fn plain_result(reply: HostfsReply) -> (hl: u32)
    ensures
        hl == GuestState::plain_result(reply@),
{
    match reply {
        HostfsReply::Done => FR_OK,
        HostfsReply::Failed(e) => fresult(e),
        _ => FR_DISK_ERR,
    }
}

fn size_bytes(size: u64) -> (v: Vec<u8>)
    ensures
        v@ == le32_bytes(size),
{
    let mut v: Vec<u8> = Vec::new();
    v.push((size % 0x100) as u8);
    v.push((size / 0x100 % 0x100) as u8);
    v.push((size / 0x1_0000 % 0x100) as u8);
    v.push((size / 0x100_0000 % 0x100) as u8);
    assert(v@ =~= le32_bytes(size));
    v
}

fn stamp_bytes(date: u16, time: u16) -> (v: Vec<u8>)
    ensures
        v@ == le16_pair(date, time),
{
    let mut v: Vec<u8> = Vec::new();
    v.push((date % 0x100) as u8);
    v.push((date / 0x100) as u8);
    v.push((time % 0x100) as u8);
    v.push((time / 0x100) as u8);
    assert(v@ =~= le16_pair(date, time));
    v
}

fn unreadable_name_bytes() -> (v: Vec<u8>)
    ensures
        v@ == unreadable_name(),
{
    let name: [u8; 29] = [
        0x3c, 0x65, 0x72, 0x72, 0x6f, 0x72, 0x20, 0x72, 0x65, 0x61, 0x64, 0x69, 0x6e, 0x67, 0x20, 0x66,
        0x69, 0x6c, 0x65, 0x20, 0x6d, 0x65, 0x74, 0x61, 0x64, 0x61, 0x74, 0x61, 0x3e,
    ];
    assert(name@ =~= unreadable_name());
    vstd::slice::slice_to_vec(name.as_slice())
}

/// Where `f_read` puts the bytes that the host gives to places that are
/// claimed and distinct, and that the position and the count are not
/// written to, the guest finds exactly these bytes.
pub proof fn law_read_puts_the_bytes_of_the_host(
    g: GuestState,
    fil: u32,
    buf: u32,
    len: u32,
    count_ptr: u32,
    bytes: Seq<u8>,
    position: u64,
)
    requires
        g.mem.wf(),
        bytes.len() <= len,
        distinct_places(g.mem.regs, buf, bytes.len()),
        forall|i: int, k: int|
            0 <= i < bytes.len() && 0 <= k < 3 ==> #[trigger] g.mem.regs.decode(address_at(buf, i))
                != #[trigger] g.mem.regs.decode(
                address_at(address_at(fil, FIL_MEMBER_FPTR as int), k),
            ),
        forall|i: int, k: int|
            0 <= i < bytes.len() && 0 <= k < 3 ==> #[trigger] g.mem.regs.decode(address_at(buf, i))
                != #[trigger] g.mem.regs.decode(address_at(address_at(count_ptr, 0), k)),
    ensures
        g.complete_read(
            fil,
            buf,
            len,
            count_ptr,
            HostfsReplyView::Data { bytes, position },
        ).0.mem.read_all(buf, bytes.len()) == bytes,
        g.complete_read(fil, buf, len, count_ptr, HostfsReplyView::Data { bytes, position }).1
            == FR_OK,
{
    let put = g.mem.poke_all(buf, bytes);
    law_bytes_written_are_read_back(g.mem, buf, bytes);
    let at1 = address_at(fil, FIL_MEMBER_FPTR as int);
    let d1 = le24_bytes(stored_position(position));
    let at2 = address_at(count_ptr, 0);
    let d2 = le24_bytes(bytes.len() as u32);
    let mid = put.poke_all(at1, d1);
    let end = mid.poke_all(at2, d2);
    assert forall|i: int| 0 <= i < bytes.len() implies end.read(address_at(buf, i)) == bytes[i] by {
        let a = address_at(buf, i);
        assert forall|k: int| 0 <= k < d1.len() implies #[trigger] put.regs.decode(
            address_at(at1, k),
        ) != put.regs.decode(a) by {
            assert(g.mem.regs.decode(address_at(buf, i)) != g.mem.regs.decode(address_at(at1, k)));
        }
        lemma_writes_elsewhere(put, at1, d1, a);
        assert forall|k: int| 0 <= k < d2.len() implies #[trigger] mid.regs.decode(
            address_at(at2, k),
        ) != mid.regs.decode(a) by {
            assert(g.mem.regs.decode(address_at(buf, i)) != g.mem.regs.decode(address_at(at2, k)));
        }
        lemma_writes_elsewhere(mid, at2, d2, a);
        assert(put.read_all(buf, bytes.len())[i] == bytes[i]);
    }
    assert(end.read_all(buf, bytes.len()) =~= bytes);
}

/// The bytes that `f_write` hands to the host are those that stand in the
/// memory of the guest where the call points, as many as it says.
pub proof fn law_write_takes_the_bytes_of_the_guest(g: GuestState, sp: u32)
    requires
        g.fs.open_files.contains(le24(g.mem.read_all(GuestState::arg_address(sp, 0), 3))),
    ensures
        g.request(HostfsTrap::Write, sp).1 == (HostfsRequestView::Write {
            fil: le24(g.mem.read_all(GuestState::arg_address(sp, 0), 3)),
            data: g.mem.read_all(
                le24(g.mem.read_all(GuestState::arg_address(sp, 1), 3)),
                le24(g.mem.read_all(GuestState::arg_address(sp, 2), 3)) as nat,
            ),
            count_ptr: le24(g.mem.read_all(GuestState::arg_address(sp, 3), 3)),
        }),
{
    let (s0, a0) = g.arg(sp, 0);
    let (s1, a1) = s0.arg(sp, 1);
    let (s2, a2) = s1.arg(sp, 2);
    let (s3, a3) = s2.arg(sp, 3);
    lemma_reads_keep_all(g.mem, GuestState::arg_address(sp, 0), 3);
    lemma_reads_keep_all(s0.mem, GuestState::arg_address(sp, 1), 3);
    lemma_reads_keep_all(s1.mem, GuestState::arg_address(sp, 2), 3);
    lemma_reads_keep_all(s2.mem, GuestState::arg_address(sp, 3), 3);
    assert(forall|a: u32| #[trigger] s3.mem.read(a) == g.mem.read(a));
    assert(s0.mem.read_all(GuestState::arg_address(sp, 1), 3) =~= g.mem.read_all(
        GuestState::arg_address(sp, 1),
        3,
    ));
    assert(s1.mem.read_all(GuestState::arg_address(sp, 2), 3) =~= g.mem.read_all(
        GuestState::arg_address(sp, 2),
        3,
    ));
    assert(s2.mem.read_all(GuestState::arg_address(sp, 3), 3) =~= g.mem.read_all(
        GuestState::arg_address(sp, 3),
        3,
    ));
    assert(s3.mem.read_all(a1, a2 as nat) =~= g.mem.read_all(a1, a2 as nat));
}

/// Read accesses change no byte: after any number of them every address
/// reads as before.
pub proof fn lemma_reads_keep_all(s: MemoryState, start: u32, count: nat)
    ensures
        forall|a: u32| #[trigger] s.peek_all(start, count).read(a) == s.read(a),
{
    assert forall|a: u32| #[trigger] s.peek_all(start, count).read(a) == s.read(a) by {
        lemma_reads_keep_bytes(s, start, count, a);
    }
}

} // verus!
