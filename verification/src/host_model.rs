//! A host that does what it is asked, as far as is needed to say what a
//! guest finds after calls that are served from the host: a file that keeps
//! the bytes written to it, and a directory that gives its entries one by
//! one. The host itself is outside this library; here stands what holds on
//! every host that answers as these models do.

use crate::hostfs::{
    law_write_takes_the_bytes_of_the_guest, FileInfoView, GuestState, HostError, HostfsReplyView,
    HostfsRequestView, HostfsTrap,
};
use crate::memory::{
    address_at, apart, distinct_places, law_bytes_written_are_read_back,
    law_write_within_a_range, law_writes_keep_what_is_apart, le24, le24_bytes, lemma_address_at,
    lemma_le24_of_bytes, lemma_reads_keep_bytes, MemoryState,
};
use crate::mos_path::{
    fragments_of, is_plain_step, join_start, law_request_finds_the_host_entry, resolved,
    same_ignoring_case,
};
use crate::mos::{
    AM_DIR, FILINFO_MEMBER_FATTRIB_U8, FILINFO_MEMBER_FDATE_U16, FILINFO_MEMBER_FNAME_256BYTES,
    FILINFO_MEMBER_FSIZE_U32, FIL_MEMBER_FPTR, FR_OK, SIZEOF_MOS_FILINFO_STRUCT,
};
use vstd::prelude::*;

verus! {

/// A file on a host that does what it is asked: its bytes, and the place
/// of the next read or write.
pub struct HostFileModel {
    pub bytes: Seq<u8>,
    pub position: nat,
}

impl HostFileModel {
    /// A file that was just made, or cut off when it was opened.
    pub open spec fn created() -> HostFileModel {
        HostFileModel { bytes: Seq::empty(), position: 0 }
    }

    /// The file closed and opened again: it keeps its bytes, and is read
    /// from the beginning.
    pub open spec fn reopened(self) -> HostFileModel {
        HostFileModel { position: 0, ..self }
    }

    /// The file after bytes were written at the end of it, and what the
    /// host says.
    pub open spec fn appended(self, data: Seq<u8>) -> (HostFileModel, HostfsReplyView)
        recommends
            self.position == self.bytes.len(),
    {
        let bytes = self.bytes + data;
        (
            HostFileModel { bytes, position: bytes.len() },
            HostfsReplyView::Position(bytes.len() as u64),
        )
    }

    /// The file after up to `len` bytes were read from it, and what the
    /// host says.
    pub open spec fn read(self, len: u32) -> (HostFileModel, HostfsReplyView)
        recommends
            self.position <= self.bytes.len(),
    {
        let end = if self.position + len <= self.bytes.len() {
            self.position + len
        } else {
            self.bytes.len() as int
        };
        (
            HostFileModel { position: end as nat, ..self },
            HostfsReplyView::Data {
                bytes: self.bytes.subrange(self.position as int, end),
                position: end as u64,
            },
        )
    }
}

/// A listing on a host that does what it is asked: the entries of the
/// directory, and how many of them were given out.
pub struct HostDirModel {
    pub entries: Seq<FileInfoView>,
    pub given: nat,
}

impl HostDirModel {
    /// The listing after the next entry was asked for, and what the host
    /// says: each entry once, in turn, and then that there is no other.
    pub open spec fn next(self) -> (HostDirModel, HostfsReplyView) {
        if self.given < self.entries.len() {
            (
                HostDirModel { given: self.given + 1, ..self },
                HostfsReplyView::Info(self.entries[self.given as int]),
            )
        } else {
            (self, HostfsReplyView::End)
        }
    }
}

/// Some bytes with others laid over them from a place on.
pub open spec fn overlaid(bytes: Seq<u8>, at: int, data: Seq<u8>) -> Seq<u8> {
    bytes.subrange(0, at) + data + bytes.subrange(at + data.len(), bytes.len() as int)
}

/// A `FILINFO` structure that holds nothing.
pub open spec fn empty_filinfo() -> Seq<u8> {
    Seq::new(SIZEOF_MOS_FILINFO_STRUCT as nat, |i: int| 0u8)
}

/// The bytes of a `FILINFO` structure that tells of an entry: the size at
/// offset 0, date and time at offsets 4 and 6, the directory bit in the
/// byte at offset 8, the name from offset 22, and zero everywhere else.
pub open spec fn filinfo_image(info: FileInfoView) -> Seq<u8> {
    let named = overlaid(
        overlaid(empty_filinfo(), FILINFO_MEMBER_FNAME_256BYTES as int, info.name),
        FILINFO_MEMBER_FSIZE_U32 as int,
        info.size_bytes(),
    );
    let marked = if info.is_dir {
        overlaid(named, FILINFO_MEMBER_FATTRIB_U8 as int, seq![AM_DIR])
    } else {
        named
    };
    overlaid(marked, FILINFO_MEMBER_FDATE_U16 as int, info.stamp_bytes())
}

/// What stands where in the bytes of a `FILINFO` structure, for a name
/// that fits.
pub proof fn law_filinfo_fields(info: FileInfoView)
    requires
        info.name.len() <= SIZEOF_MOS_FILINFO_STRUCT - FILINFO_MEMBER_FNAME_256BYTES,
    ensures
        filinfo_image(info).len() == SIZEOF_MOS_FILINFO_STRUCT,
        filinfo_image(info).subrange(0, 4) == info.size_bytes(),
        filinfo_image(info).subrange(4, 8) == info.stamp_bytes(),
        filinfo_image(info)[8] == (if info.is_dir {
            AM_DIR
        } else {
            0u8
        }),
        filinfo_image(info).subrange(22, 22 + info.name.len() as int) == info.name,
        forall|i: int|
            (9 <= i < 22 || 22 + info.name.len() <= i < SIZEOF_MOS_FILINFO_STRUCT) ==> filinfo_image(
                info,
            )[i] == 0,
{
    let image = filinfo_image(info);
    assert(image.subrange(0, 4) =~= info.size_bytes());
    assert(image.subrange(4, 8) =~= info.stamp_bytes());
    assert(image.subrange(22, 22 + info.name.len() as int) =~= info.name);
}

/// A `FILINFO` structure that lies in claimed and distinct places, cleared
/// and then filled in for an entry whose name fits, reads as the bytes
/// that tell of that entry.
pub proof fn law_filinfo_is_filled(g: GuestState, at: u32, info: FileInfoView)
    requires
        g.mem.wf(),
        distinct_places(g.mem.regs, at, SIZEOF_MOS_FILINFO_STRUCT as nat),
        info.name.len() <= SIZEOF_MOS_FILINFO_STRUCT - FILINFO_MEMBER_FNAME_256BYTES,
    ensures
        g.put(at, empty_filinfo()).mem.read_all(at, SIZEOF_MOS_FILINFO_STRUCT as nat)
            == empty_filinfo(),
        g.put(at, empty_filinfo()).put_filinfo(at, info).mem.read_all(
            at,
            SIZEOF_MOS_FILINFO_STRUCT as nat,
        ) == filinfo_image(info),
        g.put(at, empty_filinfo()).put_filinfo(at, info).fs == g.fs,
{
    let n = SIZEOF_MOS_FILINFO_STRUCT as nat;
    law_bytes_written_are_read_back(g.mem, at, empty_filinfo());
    let m0 = g.mem.poke_all(at, empty_filinfo());
    law_write_within_a_range(m0, at, n, FILINFO_MEMBER_FNAME_256BYTES as nat, info.name);
    let m1 = m0.poke_all(address_at(at, FILINFO_MEMBER_FNAME_256BYTES as int), info.name);
    law_write_within_a_range(m1, at, n, FILINFO_MEMBER_FSIZE_U32 as nat, info.size_bytes());
    let m2 = m1.poke_all(address_at(at, FILINFO_MEMBER_FSIZE_U32 as int), info.size_bytes());
    let m3 = if info.is_dir {
        m2.poke_all(address_at(at, FILINFO_MEMBER_FATTRIB_U8 as int), seq![AM_DIR])
    } else {
        m2
    };
    if info.is_dir {
        law_write_within_a_range(m2, at, n, FILINFO_MEMBER_FATTRIB_U8 as nat, seq![AM_DIR]);
    }
    law_write_within_a_range(m3, at, n, FILINFO_MEMBER_FDATE_U16 as nat, info.stamp_bytes());
}

/// `f_stat` on an entry that the host knows: the call succeeds, and the
/// `FILINFO` structure of the guest tells of that entry and of nothing
/// else.
pub proof fn law_stat_tells_of_the_entry(g: GuestState, filinfo: u32, info: FileInfoView)
    requires
        g.mem.wf(),
        distinct_places(g.mem.regs, filinfo, SIZEOF_MOS_FILINFO_STRUCT as nat),
        info.name.len() <= SIZEOF_MOS_FILINFO_STRUCT - FILINFO_MEMBER_FNAME_256BYTES,
    ensures
        g.complete_stat(filinfo, HostfsReplyView::Info(info)).1 == FR_OK,
        g.complete_stat(filinfo, HostfsReplyView::Info(info)).0.mem.read_all(
            filinfo,
            SIZEOF_MOS_FILINFO_STRUCT as nat,
        ) == filinfo_image(info),
{
    law_filinfo_is_filled(g, filinfo, info);
}

/// `f_readdir` on a listing that is open, on a host that gives each entry
/// once: the call succeeds; while entries are left, the `FILINFO`
/// structure of the guest tells of the next one; after the last it is
/// all zero, so that its name is empty, and the listing stays open.
pub proof fn law_readdir_walks_the_listing(g: GuestState, sp: u32, listing: HostDirModel)
    requires
        g.mem.wf(),
        g.request(HostfsTrap::Readdir, sp).1 is Readdir,
        distinct_places(
            g.mem.regs,
            g.request(HostfsTrap::Readdir, sp).1->Readdir_filinfo,
            SIZEOF_MOS_FILINFO_STRUCT as nat,
        ),
        forall|i: int|
            0 <= i < listing.entries.len() ==> (#[trigger] listing.entries[i]).name.len()
                <= SIZEOF_MOS_FILINFO_STRUCT - FILINFO_MEMBER_FNAME_256BYTES,
    ensures
        ({
            let (asked, request) = g.request(HostfsTrap::Readdir, sp);
            let filinfo = request->Readdir_filinfo;
            let (done, hl) = asked.complete(request, listing.next().1);
            &&& g.fs.open_dirs.contains(request->Readdir_dir)
            &&& hl == FR_OK
            &&& done.fs == g.fs
            &&& listing.given < listing.entries.len() ==> done.mem.read_all(
                filinfo,
                SIZEOF_MOS_FILINFO_STRUCT as nat,
            ) == filinfo_image(listing.entries[listing.given as int])
            &&& listing.given >= listing.entries.len() ==> done.mem.read_all(
                filinfo,
                SIZEOF_MOS_FILINFO_STRUCT as nat,
            ) == empty_filinfo()
        }),
{
    let (s0, a0) = g.arg(sp, 0);
    let (s1, a1) = s0.arg(sp, 1);
    lemma_reads_keep_bytes(g.mem, GuestState::arg_address(sp, 0), 3, 0);
    lemma_reads_keep_bytes(s0.mem, GuestState::arg_address(sp, 1), 3, 0);
    assert(s1.mem.wf());
    assert(s1.mem.regs == g.mem.regs);
    if listing.given < listing.entries.len() {
        law_filinfo_is_filled(s1, a1, listing.entries[listing.given as int]);
    } else {
        law_bytes_written_are_read_back(s1.mem, a1, empty_filinfo());
    }
}

/// On a host that keeps the bytes of a file, `f_read` gives back what
/// was written to a new file that was then closed and opened again, where
/// the buffer takes that many bytes: the call succeeds, the buffer holds
/// the bytes, and the count of bytes read and the position in the `FIL`
/// structure are their number. The buffer, the position and the count lie
/// in claimed and distinct places.
pub proof fn law_written_bytes_are_read(
    data: Seq<u8>,
    reader: GuestState,
    fil: u32,
    buf: u32,
    len: u32,
    count_ptr: u32,
)
    requires
        reader.mem.wf(),
        data.len() <= len,
        data.len() < 0x100_0000,
        distinct_places(reader.mem.regs, buf, data.len()),
        distinct_places(reader.mem.regs, address_at(fil, FIL_MEMBER_FPTR as int), 3),
        distinct_places(reader.mem.regs, count_ptr, 3),
        apart(reader.mem.regs, address_at(fil, FIL_MEMBER_FPTR as int), 3, buf, data.len()),
        apart(reader.mem.regs, count_ptr, 3, buf, data.len()),
        apart(reader.mem.regs, count_ptr, 3, address_at(fil, FIL_MEMBER_FPTR as int), 3),
    ensures
        ({
            let file = HostFileModel::created().appended(data).0.reopened();
            let (done, hl) = reader.complete_read(fil, buf, len, count_ptr, file.read(len).1);
            &&& hl == FR_OK
            &&& done.mem.read_all(buf, data.len()) == data
            &&& le24(done.mem.read_all(count_ptr, 3)) == data.len()
            &&& le24(done.mem.read_all(address_at(fil, FIL_MEMBER_FPTR as int), 3)) == data.len()
            &&& done.fs == reader.fs
        }),
{
    let n = data.len();
    let file = HostFileModel::created().appended(data).0.reopened();
    assert(file.bytes =~= data);
    assert(file.bytes.subrange(0, n as int) =~= data);
    assert(file.read(len).1 == HostfsReplyView::Data { bytes: data, position: n as u64 });
    let position = address_at(fil, FIL_MEMBER_FPTR as int);
    let count = address_at(count_ptr, 0);
    lemma_address_at(count_ptr, 0);
    let stored = le24_bytes(n as u32);
    lemma_le24_of_bytes(n as u32);
    let m0 = reader.mem;
    let m1 = m0.poke_all(buf, data);
    let m2 = m1.poke_all(position, stored);
    let m3 = m2.poke_all(count, stored);
    law_bytes_written_are_read_back(m0, buf, data);
    law_writes_keep_what_is_apart(m1, position, stored, buf, n);
    law_bytes_written_are_read_back(m1, position, stored);
    law_writes_keep_what_is_apart(m2, count, stored, buf, n);
    law_writes_keep_what_is_apart(m2, count, stored, position, 3);
    law_bytes_written_are_read_back(m2, count, stored);
    assert(m3.read_all(buf, n) == data);
    assert(m3.read_all(count, 3) == stored);
    assert(m3.read_all(position, 3) == stored);
}

/// The bytes to which a call of `f_write` points: as many as its third
/// argument says, from where its second argument says.
pub open spec fn bytes_to_write(g: GuestState, sp: u32) -> Seq<u8> {
    g.mem.read_all(
        le24(g.mem.read_all(GuestState::arg_address(sp, 1), 3)),
        le24(g.mem.read_all(GuestState::arg_address(sp, 2), 3)) as nat,
    )
}

/// What a guest writes to a new file and reads again, it finds as it wrote
/// it: on a host that keeps the bytes of a file, `f_write` on an open file
/// hands the host the bytes to which the call points, and after the file
/// was closed and opened again `f_read` with a buffer that takes that many
/// succeeds and puts the same bytes into the buffer, where the buffer, the
/// position and the count lie in claimed and distinct places.
pub proof fn law_file_round_trip(
    writer: GuestState,
    sp: u32,
    reader: GuestState,
    fil: u32,
    buf: u32,
    len: u32,
    count_ptr: u32,
)
    requires
        writer.fs.open_files.contains(le24(writer.mem.read_all(GuestState::arg_address(sp, 0), 3))),
        reader.mem.wf(),
        bytes_to_write(writer, sp).len() <= len,
        distinct_places(reader.mem.regs, buf, bytes_to_write(writer, sp).len()),
        distinct_places(reader.mem.regs, address_at(fil, FIL_MEMBER_FPTR as int), 3),
        distinct_places(reader.mem.regs, count_ptr, 3),
        apart(
            reader.mem.regs,
            address_at(fil, FIL_MEMBER_FPTR as int),
            3,
            buf,
            bytes_to_write(writer, sp).len(),
        ),
        apart(reader.mem.regs, count_ptr, 3, buf, bytes_to_write(writer, sp).len()),
        apart(reader.mem.regs, count_ptr, 3, address_at(fil, FIL_MEMBER_FPTR as int), 3),
    ensures
        ({
            let data = bytes_to_write(writer, sp);
            let file = HostFileModel::created().appended(data).0.reopened();
            let (done, hl) = reader.complete(
                HostfsRequestView::Read { fil, buf, len, count_ptr },
                file.read(len).1,
            );
            &&& writer.request(HostfsTrap::Write, sp).1 is Write
            &&& writer.request(HostfsTrap::Write, sp).1->Write_data == data
            &&& hl == FR_OK
            &&& done.mem.read_all(buf, data.len()) == data
            &&& le24(done.mem.read_all(count_ptr, 3)) == data.len()
            &&& le24(done.mem.read_all(address_at(fil, FIL_MEMBER_FPTR as int), 3)) == data.len()
        }),
{
    law_write_takes_the_bytes_of_the_guest(writer, sp);
    let data = bytes_to_write(writer, sp);
    assert(data.len() < 0x100_0000);
    law_written_bytes_are_read(data, reader, fil, buf, len, count_ptr);
}

/// The tree of a host: the names of the entries of each directory, and
/// what the host knows of the entry that a path names, if there is one.
pub struct HostTreeModel {
    pub entries: spec_fn(Seq<Seq<u8>>) -> Seq<Seq<u8>>,
    pub info: spec_fn(Seq<Seq<u8>>) -> Option<FileInfoView>,
}

impl HostTreeModel {
    /// The path that a request names, from a working directory.
    pub open spec fn resolve(self, cwd: Seq<Seq<u8>>, request: Seq<u8>) -> Seq<Seq<u8>> {
        resolved(
            self.entries,
            join_start(cwd, request),
            fragments_of(request),
            fragments_of(request).len() as int,
        )
    }

    /// What the host says when it is asked about the entry that a request
    /// names.
    pub open spec fn stat(self, cwd: Seq<Seq<u8>>, request: Seq<u8>) -> HostfsReplyView {
        match (self.info)(self.resolve(cwd, request)) {
            Some(info) => HostfsReplyView::Info(info),
            None => HostfsReplyView::Failed(HostError::NotFound),
        }
    }
}

/// `f_stat` finds an entry of the host by a request that differs from its
/// path only in case: where the fragments of the request are the names on
/// the way to the entry but for case, and no directory on the way holds
/// two names that are equal but for case, the call from the root succeeds
/// and the `FILINFO` structure of the guest tells of that entry.
pub proof fn law_stat_finds_the_entry(
    tree: HostTreeModel,
    g: GuestState,
    request: Seq<u8>,
    filinfo: u32,
    target: Seq<Seq<u8>>,
    info: FileInfoView,
)
    requires
        g.mem.wf(),
        distinct_places(g.mem.regs, filinfo, SIZEOF_MOS_FILINFO_STRUCT as nat),
        (tree.info)(target) == Some(info),
        info.name.len() <= SIZEOF_MOS_FILINFO_STRUCT - FILINFO_MEMBER_FNAME_256BYTES,
        fragments_of(request).len() == target.len(),
        forall|i: int| 0 <= i < target.len() ==> !is_plain_step(#[trigger] fragments_of(request)[i]),
        forall|i: int|
            0 <= i < target.len() ==> same_ignoring_case(
                target[i],
                #[trigger] fragments_of(request)[i],
            ),
        forall|i: int|
            0 <= i < target.len() ==> (tree.entries)(target.subrange(0, i)).contains(
                #[trigger] target[i],
            ),
        forall|i: int, other: int|
            0 <= i < target.len() && 0 <= other < (tree.entries)(target.subrange(0, i)).len()
                && same_ignoring_case(
                #[trigger] (tree.entries)(target.subrange(0, i))[other],
                fragments_of(request)[i],
            ) ==> (tree.entries)(target.subrange(0, i))[other] == target[i],
    ensures
        tree.resolve(Seq::empty(), request) == target,
        tree.stat(Seq::empty(), request) == HostfsReplyView::Info(info),
        g.complete_stat(filinfo, tree.stat(Seq::empty(), request)).1 == FR_OK,
        g.complete_stat(filinfo, tree.stat(Seq::empty(), request)).0.mem.read_all(
            filinfo,
            SIZEOF_MOS_FILINFO_STRUCT as nat,
        ) == filinfo_image(info),
{
    law_request_finds_the_host_entry(
        tree.entries,
        fragments_of(request),
        target,
        target.len() as int,
    );
    assert(target.subrange(0, target.len() as int) =~= target);
    law_stat_tells_of_the_entry(g, filinfo, info);
}

} // verus!
