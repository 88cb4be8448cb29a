//! An SD card on the SPI bus, driven one byte at a time. The card knows the
//! commands of the initialisation sequence and the reading and writing of
//! single 512-byte blocks; the blocks themselves live with the caller, who
//! is told which one to fetch or store.

use vstd::prelude::*;

verus! {

/// Go to idle state.
pub const CMD0: u8 = 0x40;

/// Send interface condition.
pub const CMD8: u8 = 0x48;

/// Read a single block.
pub const CMD17: u8 = 0x51;

/// Write a single block.
pub const CMD24: u8 = 0x58;

/// The next command is application specific.
pub const CMD55: u8 = 0x77;

/// Read the operating conditions register.
pub const CMD58: u8 = 0x7a;

/// Send operating condition.
pub const ACMD41: u8 = 0x69;

/// The byte that the host clocks out while it only listens.
pub const SD_IDLE_BYTE: u8 = 0xff;

/// The token that goes before the data of a block.
pub const SD_START_TOKEN: u8 = 0xfe;

/// Status register value "transfer finished".
pub const SPI_SR_FINISHED: u8 = 0x80;

/// Bytes in a block.
pub const SD_BLOCK_SIZE: usize = 512;

/// Bytes in a command.
pub const SD_COMMAND_SIZE: usize = 6;

/// What the caller has to do with the card image after a byte went in.
pub enum SdRequest {
    /// Nothing.
    Nothing,
    /// Fetch the block of this number and hand it to `complete_read`.
    Read { sector: u64 },
    /// Store these 512 bytes as the block of this number.
    Write { sector: u64, data: Vec<u8> },
    /// Six bytes that are no known command were dropped; this was the first.
    Unknown { command: u8 },
}

/// `SdRequest` as contracts speak of it.
pub enum SdRequestView {
    Nothing,
    Read { sector: u64 },
    Write { sector: u64, data: Seq<u8> },
    Unknown { command: u8 },
}

impl View for SdRequest {
    type V = SdRequestView;

    open spec fn view(&self) -> SdRequestView {
        match *self {
            SdRequest::Nothing => SdRequestView::Nothing,
            SdRequest::Read { sector } => SdRequestView::Read { sector },
            SdRequest::Write { sector, data } => SdRequestView::Write { sector, data: data@ },
            SdRequest::Unknown { command } => SdRequestView::Unknown { command },
        }
    }
}

/// The state of the card, as contracts speak of it.
pub struct SdState {
    /// Bytes received and not yet understood.
    pub in_buf: Seq<u8>,
    /// Bytes that the card has still to give, oldest first.
    pub out_buf: Seq<u8>,
    pub spi_sr: u8,
    /// The pattern that the last interface-condition command carried.
    pub check_pattern: u8,
    /// An image stands behind the card. The card answers its commands
    /// with or without one: the image is the caller's, to read and write.
    pub has_image: bool,
    /// The block that an accepted write command named.
    pub next_write_sector: Option<u64>,
    /// The start token of that write has come.
    pub next_write_started: bool,
}

/// The block number in bytes two to five of a command, highest byte first.
pub open spec fn sector_of(a3: u8, a2: u8, a1: u8, a0: u8) -> u64 {
    (a0 + a1 * 0x100 + a2 * 0x1_0000 + a3 * 0x100_0000) as u64
}

impl SdState {
    /// The card is between commands: no byte of a command has come, and
    /// it takes in no data of a write.
    pub open spec fn idle(self) -> bool {
        self.in_buf.len() == 0 && !self.next_write_started
    }

    /// The byte `val` is skipped as idle clocking. Inside a command, and
    /// among the data of a write, the same byte counts as any other.
    pub open spec fn skips(self, val: u8) -> bool {
        self.idle() && val == SD_IDLE_BYTE
    }

    /// The byte `val` is the start token of an accepted write: it comes
    /// between commands, after a write command.
    pub open spec fn starts_write(self, val: u8) -> bool {
        self.idle() && self.next_write_sector is Some && val == SD_START_TOKEN
    }

    /// The card after the six bytes at the head of `in_buf` were taken as a
    /// command, and what the caller has to do.
    pub open spec fn execute(self) -> (SdState, SdRequestView) {
        let c = self.in_buf;
        let rest = c.subrange(SD_COMMAND_SIZE as int, c.len() as int);
        if c[0] == CMD0 || c[0] == CMD55 {
            (SdState { in_buf: rest, out_buf: self.out_buf.push(1), ..self }, SdRequestView::Nothing)
        } else if c[0] == CMD8 {
            (
                SdState {
                    in_buf: rest,
                    out_buf: self.out_buf + seq![1u8, 0u8, 0u8, 1u8, c[4]],
                    check_pattern: c[4],
                    ..self
                },
                SdRequestView::Nothing,
            )
        } else if c[0] == ACMD41 || c[0] == CMD58 {
            (SdState { in_buf: rest, out_buf: self.out_buf.push(0), ..self }, SdRequestView::Nothing)
        } else if c[0] == CMD17 {
            (
                SdState { in_buf: rest, out_buf: self.out_buf + seq![0u8, SD_START_TOKEN], ..self },
                SdRequestView::Read { sector: sector_of(c[1], c[2], c[3], c[4]) },
            )
        } else if c[0] == CMD24 {
            (
                SdState {
                    in_buf: rest,
                    out_buf: self.out_buf.push(0),
                    next_write_sector: Some(sector_of(c[1], c[2], c[3], c[4])),
                    next_write_started: false,
                    ..self
                },
                SdRequestView::Nothing,
            )
        } else {
            (SdState { in_buf: Seq::empty(), ..self }, SdRequestView::Unknown { command: c[0] })
        }
    }

    /// The card after the host clocked the byte `val` into it, and what
    /// the caller has to do. Whether an image stands behind the card makes
    /// no difference here.
    pub open spec fn recv_byte(self, val: u8) -> (SdState, SdRequestView) {
        if self.starts_write(val) {
            (
                SdState { spi_sr: SPI_SR_FINISHED, next_write_started: true, ..self },
                SdRequestView::Nothing,
            )
        } else {
            let taken = SdState {
                spi_sr: SPI_SR_FINISHED,
                in_buf: if self.skips(val) {
                    self.in_buf
                } else {
                    self.in_buf.push(val)
                },
                ..self
            };
            if taken.next_write_started {
                if taken.in_buf.len() == SD_BLOCK_SIZE && taken.next_write_sector is Some {
                    (
                        SdState {
                            in_buf: Seq::empty(),
                            out_buf: taken.out_buf + seq![5u8, 1u8],
                            next_write_sector: None,
                            next_write_started: false,
                            ..taken
                        },
                        SdRequestView::Write {
                            sector: taken.next_write_sector->0,
                            data: taken.in_buf,
                        },
                    )
                } else {
                    (taken, SdRequestView::Nothing)
                }
            } else if taken.in_buf.len() >= SD_COMMAND_SIZE {
                taken.execute()
            } else {
                (taken, SdRequestView::Nothing)
            }
        }
    }

    /// The card after the host clocked these bytes into it, in turn.
    pub open spec fn received(self, bytes: Seq<u8>) -> SdState
        decreases bytes.len(),
    {
        if bytes.len() == 0 {
            self
        } else {
            self.received(bytes.drop_last()).recv_byte(bytes.last()).0
        }
    }

    /// The card after a read of the status register, which is zero
    /// afterwards.
    pub open spec fn read_status(self) -> SdState {
        SdState { spi_sr: 0, ..self }
    }

    /// The card after it gave its next byte, and that byte; a card with
    /// nothing to give stays as it is.
    pub open spec fn send_byte(self) -> (SdState, Option<u8>) {
        if self.out_buf.len() == 0 {
            (self, None)
        } else {
            (SdState { out_buf: self.out_buf.remove(0), ..self }, Some(self.out_buf[0]))
        }
    }

    /// The card after the caller brought the block that a read asked for:
    /// the block goes out, and two bytes in place of a checksum after it.
    pub open spec fn complete_read(self, block: Seq<u8>) -> SdState {
        SdState { out_buf: self.out_buf + block + seq![0u8, 0u8], ..self }
    }
}

/// The SD card.
pub struct SpiSdcard {
    in_buf: Vec<u8>,
    out_buf: Vec<u8>,
    spi_sr: u8,
    check_pattern: u8,
    has_image: bool,
    next_write_sector: Option<u64>,
    next_write_started: bool,
}

impl View for SpiSdcard {
    type V = SdState;

    closed spec fn view(&self) -> SdState {
        SdState {
            in_buf: self.in_buf@,
            out_buf: self.out_buf@,
            spi_sr: self.spi_sr,
            check_pattern: self.check_pattern,
            has_image: self.has_image,
            next_write_sector: self.next_write_sector,
            next_write_started: self.next_write_started,
        }
    }
}

fn sector_number(a3: u8, a2: u8, a1: u8, a0: u8) -> (r: u64)
    ensures
        r == sector_of(a3, a2, a1, a0),
{
    a0 as u64 + (a1 as u64) * 0x100 + (a2 as u64) * 0x1_0000 + (a3 as u64) * 0x100_0000
}

impl SpiSdcard {
    /// A card with no image behind it.
    pub fn new() -> (r: Self)
        ensures
            r@ == (SdState {
                in_buf: Seq::empty(),
                out_buf: Seq::empty(),
                spi_sr: 0,
                check_pattern: 0,
                has_image: false,
                next_write_sector: None,
                next_write_started: false,
            }),
    {
        SpiSdcard {
            spi_sr: 0,
            in_buf: Vec::new(),
            out_buf: Vec::new(),
            check_pattern: 0,
            has_image: false,
            next_write_sector: None,
            next_write_started: false,
        }
    }

    /// Says whether an image stands behind the card.
    pub fn set_image_file(&mut self, present: bool)
        ensures
            final(self)@ == (SdState { has_image: present, ..old(self)@ }),
    {
        self.has_image = present;
    }

    /// An image stands behind the card.
    pub fn has_image_file(&self) -> (r: bool)
        ensures
            r == self@.has_image,
    {
        self.has_image
    }

    fn execute(&mut self) -> (req: SdRequest)
        requires
            old(self).in_buf@.len() >= SD_COMMAND_SIZE,
        ensures
            (final(self)@, req@) == old(self)@.execute(),
    {
        let cmd: u8 = self.in_buf[0];
        let a3: u8 = self.in_buf[1];
        let a2: u8 = self.in_buf[2];
        let a1: u8 = self.in_buf[3];
        let a0: u8 = self.in_buf[4];
        let known: bool = cmd == CMD0 || cmd == CMD55 || cmd == CMD8 || cmd == ACMD41 || cmd
            == CMD58 || cmd == CMD17 || cmd == CMD24;
        if !known {
            self.in_buf.clear();
            return SdRequest::Unknown { command: cmd };
        }
        let rest: Vec<u8> = self.in_buf.split_off(SD_COMMAND_SIZE);
        self.in_buf = rest;
        if cmd == CMD0 || cmd == CMD55 {
            self.out_buf.push(1);
            SdRequest::Nothing
        } else if cmd == CMD8 {
            self.check_pattern = a0;
            let ghost before = self.out_buf@;
            self.out_buf.push(1);
            self.out_buf.push(0);
            self.out_buf.push(0);
            self.out_buf.push(1);
            self.out_buf.push(a0);
            assert(self.out_buf@ == before + seq![1u8, 0u8, 0u8, 1u8, a0]);
            SdRequest::Nothing
        } else if cmd == ACMD41 || cmd == CMD58 {
            self.out_buf.push(0);
            SdRequest::Nothing
        } else if cmd == CMD17 {
            let ghost before = self.out_buf@;
            self.out_buf.push(0);
            self.out_buf.push(SD_START_TOKEN);
            assert(self.out_buf@ == before + seq![0u8, SD_START_TOKEN]);
            SdRequest::Read { sector: sector_number(a3, a2, a1, a0) }
        } else {
            self.next_write_sector = Some(sector_number(a3, a2, a1, a0));
            self.next_write_started = false;
            self.out_buf.push(0);
            SdRequest::Nothing
        }
    }

    /// The host clocks a byte into the card.
    pub fn recv_byte(&mut self, val: u8) -> (req: SdRequest)
        ensures
            (final(self)@, req@) == old(self)@.recv_byte(val),
    {
        self.spi_sr = SPI_SR_FINISHED;
        let idle: bool = self.in_buf.len() == 0 && !self.next_write_started;
        if idle && val == SD_IDLE_BYTE {
        } else if idle && self.next_write_sector.is_some() && val == SD_START_TOKEN {
            self.next_write_started = true;
            return SdRequest::Nothing;
        } else {
            self.in_buf.push(val);
        }
        if self.next_write_started {
            if self.in_buf.len() == SD_BLOCK_SIZE {
                match self.next_write_sector {
                    Some(sector) => {
                        self.next_write_started = false;
                        self.next_write_sector = None;
                        let ghost full = self.in_buf@;
                        let data: Vec<u8> = self.in_buf.split_off(0);
                        assert(data@ =~= full);
                        let ghost before = self.out_buf@;
                        self.out_buf.push(5);
                        self.out_buf.push(1);
                        assert(self.out_buf@ == before + seq![5u8, 1u8]);
                        assert(self.in_buf@ =~= Seq::<u8>::empty());
                        return SdRequest::Write { sector, data };
                    },
                    None => {},
                }
            }
            return SdRequest::Nothing;
        }
        if self.in_buf.len() >= SD_COMMAND_SIZE {
            self.execute()
        } else {
            SdRequest::Nothing
        }
    }

    /// Takes the block that a `Read` request asked for.
    pub fn complete_read(&mut self, block: &[u8; 512])
        ensures
            final(self)@ == old(self)@.complete_read(block@),
    {
        let ghost before = self.out_buf@;
        let mut i: usize = 0;
        while i < SD_BLOCK_SIZE
            invariant
                i <= SD_BLOCK_SIZE,
                self.out_buf@ == before + block@.subrange(0, i as int),
                self@ == (SdState { out_buf: self.out_buf@, ..old(self)@ }),
            decreases SD_BLOCK_SIZE - i,
        {
            self.out_buf.push(block[i]);
            i = i + 1;
        }
        self.out_buf.push(0);
        self.out_buf.push(0);
        assert(self.out_buf@ == before + block@ + seq![0u8, 0u8]);
    }

    /// The next byte that the card has to give, if it has one.
    pub fn send_byte(&mut self) -> (r: Option<u8>)
        ensures
            (final(self)@, r) == old(self)@.send_byte(),
    {
        if self.out_buf.len() == 0 {
            None
        } else {
            Some(self.out_buf.remove(0))
        }
    }

    /// Reads the status register, which is zero afterwards.
    pub fn get_spi_status_register(&mut self) -> (sr: u8)
        ensures
            sr == old(self)@.spi_sr,
            final(self)@ == old(self)@.read_status(),
    {
        let sr: u8 = self.spi_sr;
        self.spi_sr = 0;
        sr
    }

    pub fn get_spi_control_register(&mut self) -> (r: u8)
        ensures
            r == 0,
            final(self)@ == old(self)@,
    {
        0
    }
}

proof fn lemma_command_gathers(s: SdState, c: Seq<u8>, k: int)
    requires
        s.idle(),
        0 < k <= c.len(),
        k < SD_COMMAND_SIZE,
        !s.skips(c[0]),
        !s.starts_write(c[0]),
    ensures
        s.received(c.take(k)) == (SdState { in_buf: c.take(k), spi_sr: SPI_SR_FINISHED, ..s }),
    decreases k,
{
    let head = c.take(k);
    let before = c.take(k - 1);
    assert(head.drop_last() =~= before);
    assert(head.last() == c[k - 1]);
    assert(s.received(head) == s.received(before).recv_byte(c[k - 1]).0);
    if k > 1 {
        lemma_command_gathers(s, c, k - 1);
        assert(!s.received(before).idle());
    } else {
        assert(s.received(before) == s);
        assert(s.in_buf =~= before);
    }
    assert(before.push(c[k - 1]) =~= head);
}

/// A command is six bytes, whatever they hold: a card between commands
/// that is given six bytes, the first of them neither idle clocking nor
/// the start token that a pending write waits for, takes them as one
/// command, the sixth byte bringing the answer.
pub proof fn law_six_bytes_make_a_command(s: SdState, c: Seq<u8>)
    requires
        s.idle(),
        c.len() == SD_COMMAND_SIZE,
        !s.skips(c[0]),
        !s.starts_write(c[0]),
    ensures
        s.received(c.drop_last()).recv_byte(c.last()) == (SdState {
            in_buf: c,
            spi_sr: SPI_SR_FINISHED,
            ..s
        }).execute(),
{
    assert(c.drop_last() =~= c.take(5));
    lemma_command_gathers(s, c, 5);
    let gathered = s.received(c.drop_last());
    assert(gathered.in_buf.len() == 5);
    assert(!gathered.skips(c.last()) && !gathered.starts_write(c.last()));
    assert(gathered.in_buf.push(c.last()) =~= c);
}

} // verus!
