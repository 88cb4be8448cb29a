//! What the emulator knows of the MOS firmware: the result codes and the
//! layout of the FatFS structures that the guest sees, and the addresses of
//! the FatFS entry points.

use crate::symbol_map::SymbolMap;
use vstd::prelude::*;

verus! {

/// FatFS result: success.
pub const FR_OK: u32 = 0;

/// FatFS result: a hard error in the disk layer.
pub const FR_DISK_ERR: u32 = 1;

/// FatFS result: the file, or the path, was not found.
pub const FR_NO_FILE: u32 = 4;

/// Size of the FatFS `FIL` structure.
pub const SIZEOF_MOS_FIL_STRUCT: u32 = 36;

/// Offset of the file size in `FIL`.
pub const FIL_MEMBER_OBJSIZE: u32 = 11;

/// Offset of the file position in `FIL`.
pub const FIL_MEMBER_FPTR: u32 = 17;

/// Size of the FatFS `FILINFO` structure.
pub const SIZEOF_MOS_FILINFO_STRUCT: u32 = 278;

/// Offset of the file size, 32 bits, in `FILINFO`.
pub const FILINFO_MEMBER_FSIZE_U32: u32 = 0;

/// Offset of the date of last change, 16 bits, in `FILINFO`.
pub const FILINFO_MEMBER_FDATE_U16: u32 = 4;

/// Offset of the time of last change, 16 bits, in `FILINFO`.
pub const FILINFO_MEMBER_FTIME_U16: u32 = 6;

/// Offset of the attribute byte in `FILINFO`.
pub const FILINFO_MEMBER_FATTRIB_U8: u32 = 8;

/// Offset of the file name, 256 bytes, in `FILINFO`.
pub const FILINFO_MEMBER_FNAME_256BYTES: u32 = 22;

/// Attribute bit of a directory.
pub const AM_DIR: u8 = 0x10;

/// `f_open` mode bit: open for writing.
pub const FA_WRITE: u32 = 2;

/// `f_open` mode bit: create the file, which must not exist yet.
pub const FA_CREATE_NEW: u32 = 4;

/// `f_open` mode bit: create the file, or empty it if it exists.
pub const FA_CREATE_ALWAYS: u32 = 8;

/// Number of entry points in a `MosMap`.
pub const MOS_MAP_ENTRIES: usize = 25;

/// Where in the ROM the signature of a descriptor table stands.
pub const DESCRIPTOR_SIGNATURE_AT: usize = 0x6b;

/// Where in the ROM the first address of a descriptor table stands.
pub const DESCRIPTOR_TABLE_AT: usize = 0x6f;

/// The least size of a ROM that can hold a descriptor table.
pub const DESCRIPTOR_ROM_MIN: usize = 0x100;

/// Addresses of the FatFS entry points in the firmware.
#[derive(Clone, Copy, Debug)]
pub struct MosMap {
    pub f_chdir: u32,
    pub _f_chdrive: u32,
    pub f_close: u32,
    pub f_closedir: u32,
    pub f_getcwd: u32,
    pub _f_getfree: u32,
    pub f_getlabel: u32,
    pub f_gets: u32,
    pub f_lseek: u32,
    pub f_mkdir: u32,
    pub f_mount: u32,
    pub f_open: u32,
    pub f_opendir: u32,
    pub _f_printf: u32,
    pub f_putc: u32,
    pub _f_puts: u32,
    pub f_read: u32,
    pub f_readdir: u32,
    pub f_rename: u32,
    pub _f_setlabel: u32,
    pub f_stat: u32,
    pub _f_sync: u32,
    pub f_truncate: u32,
    pub f_unlink: u32,
    pub f_write: u32,
}

/// The symbols of the entry points, in the order of the fields of `MosMap`,
/// which is also the order of a descriptor table.
pub open spec fn symbol_names() -> Seq<Seq<char>> {
    seq![
        "_f_chdir"@,
        "_f_chdrive"@,
        "_f_close"@,
        "_f_closedir"@,
        "_f_getcwd"@,
        "_f_getfree"@,
        "_f_getlabel"@,
        "_f_gets"@,
        "_f_lseek"@,
        "_f_mkdir"@,
        "_f_mount"@,
        "_f_open"@,
        "_f_opendir"@,
        "_f_printf"@,
        "_f_putc"@,
        "_f_puts"@,
        "_f_read"@,
        "_f_readdir"@,
        "_f_rename"@,
        "_f_setlabel"@,
        "_f_stat"@,
        "_f_sync"@,
        "_f_truncate"@,
        "_f_unlink"@,
        "_f_write"@,
    ]
}

/// The address that stands at place `k` of a descriptor table: three bytes,
/// lowest first.
pub open spec fn descriptor_entry(rom: Seq<u8>, k: int) -> u32 {
    let at = DESCRIPTOR_TABLE_AT + 3 * k;
    (rom[at] + rom[at + 1] * 0x100 + rom[at + 2] * 0x1_0000) as u32
}

/// The ROM holds a descriptor table: it is large enough and carries the
/// signature `MOS`.
pub open spec fn has_descriptor_table(rom: Seq<u8>) -> bool {
    &&& rom.len() >= DESCRIPTOR_ROM_MIN
    &&& rom[DESCRIPTOR_SIGNATURE_AT as int] == 0x4d
    &&& rom[DESCRIPTOR_SIGNATURE_AT + 1] == 0x4f
    &&& rom[DESCRIPTOR_SIGNATURE_AT + 2] == 0x53
}

impl MosMap {
    /// The addresses in the order of the fields.
    pub open spec fn entries(self) -> Seq<u32> {
        seq![
            self.f_chdir,
            self._f_chdrive,
            self.f_close,
            self.f_closedir,
            self.f_getcwd,
            self._f_getfree,
            self.f_getlabel,
            self.f_gets,
            self.f_lseek,
            self.f_mkdir,
            self.f_mount,
            self.f_open,
            self.f_opendir,
            self._f_printf,
            self.f_putc,
            self._f_puts,
            self.f_read,
            self.f_readdir,
            self.f_rename,
            self._f_setlabel,
            self.f_stat,
            self._f_sync,
            self.f_truncate,
            self.f_unlink,
            self.f_write,
        ]
    }

    /// The map with the given addresses, in the order of the fields.
    pub fn from_entries(e: &[u32; 25]) -> (r: MosMap)
        ensures
            r.entries() == e@,
    {
        let r = MosMap {
            f_chdir: e[0],
            _f_chdrive: e[1],
            f_close: e[2],
            f_closedir: e[3],
            f_getcwd: e[4],
            _f_getfree: e[5],
            f_getlabel: e[6],
            f_gets: e[7],
            f_lseek: e[8],
            f_mkdir: e[9],
            f_mount: e[10],
            f_open: e[11],
            f_opendir: e[12],
            _f_printf: e[13],
            f_putc: e[14],
            _f_puts: e[15],
            f_read: e[16],
            f_readdir: e[17],
            f_rename: e[18],
            _f_setlabel: e[19],
            f_stat: e[20],
            _f_sync: e[21],
            f_truncate: e[22],
            f_unlink: e[23],
            f_write: e[24],
        };
        assert(r.entries() =~= e@);
        r
    }

    /// The map that the descriptor table of a ROM gives, if the ROM has
    /// one.
    pub fn from_rom_descriptor_table(rom: &[u8]) -> (r: Option<MosMap>)
        ensures
            r is Some <==> has_descriptor_table(rom@),
            r matches Some(m) ==> forall|k: int|
                0 <= k < MOS_MAP_ENTRIES ==> #[trigger] m.entries()[k] == descriptor_entry(rom@, k),
    {
        if rom.len() >= DESCRIPTOR_ROM_MIN && rom[DESCRIPTOR_SIGNATURE_AT] == 0x4d
            && rom[DESCRIPTOR_SIGNATURE_AT + 1] == 0x4f && rom[DESCRIPTOR_SIGNATURE_AT + 2] == 0x53 {
            let mut e: [u32; 25] = [0u32; 25];
            let mut k: usize = 0;
            while k < MOS_MAP_ENTRIES
                invariant
                    k <= MOS_MAP_ENTRIES,
                    rom@.len() >= DESCRIPTOR_ROM_MIN,
                    forall|j: int| 0 <= j < k ==> e@[j] == descriptor_entry(rom@, j),
                decreases MOS_MAP_ENTRIES - k,
            {
                let at: usize = DESCRIPTOR_TABLE_AT + 3 * k;
                let address: u32 = rom[at] as u32 + (rom[at + 1] as u32) * 0x100 + (rom[at + 2] as u32)
                    * 0x1_0000;
                e[k] = address;
                k = k + 1;
            }
            Some(MosMap::from_entries(&e))
        } else {
            None
        }
    }

    /// The map that a symbol map gives, if it names every entry point.
    pub fn from_symbol_map(map: &SymbolMap) -> (r: Result<MosMap, &'static str>)
        ensures
            r is Ok <==> forall|k: int|
                0 <= k < MOS_MAP_ENTRIES ==> map@.contains_key(#[trigger] symbol_names()[k]),
            r matches Ok(m) ==> forall|k: int|
                0 <= k < MOS_MAP_ENTRIES ==> #[trigger] m.entries()[k] == map@[symbol_names()[k]],
            r matches Err(e) ==> e@ == "Missing MOS FS symbol in symbol map"@,
    {
        let names: [&'static str; 25] = [
            "_f_chdir",
            "_f_chdrive",
            "_f_close",
            "_f_closedir",
            "_f_getcwd",
            "_f_getfree",
            "_f_getlabel",
            "_f_gets",
            "_f_lseek",
            "_f_mkdir",
            "_f_mount",
            "_f_open",
            "_f_opendir",
            "_f_printf",
            "_f_putc",
            "_f_puts",
            "_f_read",
            "_f_readdir",
            "_f_rename",
            "_f_setlabel",
            "_f_stat",
            "_f_sync",
            "_f_truncate",
            "_f_unlink",
            "_f_write",
        ];
        assert(forall|k: int| 0 <= k < MOS_MAP_ENTRIES ==> (#[trigger] names@[k])@ == symbol_names()[k]);
        let mut e: [u32; 25] = [0u32; 25];
        let mut k: usize = 0;
        while k < MOS_MAP_ENTRIES
            invariant
                k <= MOS_MAP_ENTRIES,
                forall|j: int| 0 <= j < MOS_MAP_ENTRIES ==> (#[trigger] names@[j])@ == symbol_names()[j],
                forall|j: int| 0 <= j < k ==> map@.contains_key(#[trigger] symbol_names()[j]),
                forall|j: int| 0 <= j < k ==> #[trigger] e@[j] == map@[symbol_names()[j]],
            decreases MOS_MAP_ENTRIES - k,
        {
            assert(names@[k as int]@ == symbol_names()[k as int]);
            match map.get(names[k]) {
                Some(address) => {
                    e[k] = address;
                },
                None => {
                    assert(!map@.contains_key(symbol_names()[k as int]));
                    return Err("Missing MOS FS symbol in symbol map");
                },
            }
            k = k + 1;
        }
        Ok(MosMap::from_entries(&e))
    }
}

impl Default for MosMap {
    fn default() -> (r: Self)
        ensures
            r.entries() == Seq::new(MOS_MAP_ENTRIES as nat, |k: int| 0u32),
    {
        let r = MosMap::from_entries(&[0u32; 25]);
        assert(r.entries() =~= Seq::new(MOS_MAP_ENTRIES as nat, |k: int| 0u32));
        r
    }
}

} // verus!
