use vstd::prelude::*;

verus! {

/// The largest number of dwords that one method header can announce.
pub const MAX_MTHD_SIZE: u32 = 0x1fff;

/// The subchannel that the engine class `class` is bound to, for the classes
/// that have one.
pub open spec fn spec_class_to_subc(class: u16) -> Option<u8> {
    if class == 0x9097 || class == 0xa097 || class == 0xb097 || class == 0xb197 || class == 0xc097
        || class == 0xc397 {
        Some(0u8)
    } else if class == 0x90c0 || class == 0xa0c0 || class == 0xb0c0 || class == 0xc0c0 || class
        == 0xc3c0 || class == 0xc6c0 {
        Some(1u8)
    } else if class == 0x9039 {
        Some(2u8)
    } else if class == 0x902d {
        Some(3u8)
    } else if class == 0x90b5 || class == 0xc1b5 {
        Some(4u8)
    } else {
        None
    }
}

/// The subchannel of an engine class.
pub fn class_to_subc(class: u16) -> (subc: u8)
    requires
        spec_class_to_subc(class).is_some(),
    ensures
        Some(subc) == spec_class_to_subc(class),
{
    match class {
        0x9097 | 0xa097 | 0xb097 | 0xb197 | 0xc097 | 0xc397 => 0,
        0x90c0 | 0xa0c0 | 0xb0c0 | 0xc0c0 | 0xc3c0 | 0xc6c0 => 1,
        0x9039 => 2,
        0x902d => 3,
        _ => 4,
    }
}

/// How the address moves on from one dword of a method to the next.
#[derive(Clone, Copy, Debug, PartialEq, Eq, Structural)]
pub enum IncType {
    /// Each dword increments the address by one
    NInc,
    /// The first dword increments the address by one
    OneInc,
    /// The address is not incremented
    ZeroInc,
}

impl IncType {
    /// The number of the kind.
    pub open spec fn spec_number(self) -> u32 {
        match self {
            IncType::NInc => 0,
            IncType::OneInc => 3,
            IncType::ZeroInc => 5,
        }
    }

    /// The number of the kind.
    pub fn number(self) -> (n: u32)
        ensures
            n == self.spec_number(),
    {
        match self {
            IncType::NInc => 0,
            IncType::OneInc => 3,
            IncType::ZeroInc => 5,
        }
    }
}

/// A method header.
///
/// Methods start with a header that can encode the `IncType`, the subclass,
/// an address and the size. Optionally, the header can contain an address
/// and an immediate instead.
#[derive(Clone, Copy, Debug, PartialEq, Eq, Structural)]
pub struct MthdHeader(pub u32);

/// The three highest bits of a header: its kind.
pub open spec fn kind_bits(bits: u32) -> u32 {
    bits >> 29
}

/// The bits of a header with the fields given, each at its place and none
/// cut to its width.
pub open spec fn header_bits(kind: u32, size: u16, subc: u8, addr: u16) -> u32 {
    kind | ((size as u32) << 16) | ((subc as u32) << 13) | ((addr as u32) >> 2)
}

impl MthdHeader {
    /// The kind of the header, where its highest bits name one: `None` for a
    /// header that holds an immediate.
    pub open spec fn spec_inc_type(self) -> Option<IncType> {
        if kind_bits(self.0) == 1 {
            Some(IncType::NInc)
        } else if kind_bits(self.0) == 3 {
            Some(IncType::OneInc)
        } else if kind_bits(self.0) == 5 {
            Some(IncType::ZeroInc)
        } else {
            None
        }
    }

    /// The highest bits of the header name a kind of header.
    pub open spec fn has_kind(self) -> bool {
        kind_bits(self.0) == 1 || kind_bits(self.0) == 3 || kind_bits(self.0) == 4 || kind_bits(
            self.0,
        ) == 5
    }

    /// The highest bits of the header name a kind that counts dwords.
    pub open spec fn counts(self) -> bool {
        kind_bits(self.0) == 1 || kind_bits(self.0) == 3 || kind_bits(self.0) == 5
    }

    /// The subchannel field.
    pub open spec fn spec_subc(self) -> u8 {
        ((self.0 >> 13) & 0x7) as u8
    }

    /// The address field, in bytes.
    pub open spec fn spec_addr(self) -> u16 {
        ((self.0 & 0x1fff) << 2) as u16
    }

    /// The size field.
    pub open spec fn spec_len(self) -> u16 {
        ((self.0 >> 16) & 0x1fff) as u16
    }

    /// The header with its kind replaced.
    pub open spec fn spec_with_inc_type(self, inc_type: IncType) -> MthdHeader {
        MthdHeader((self.0 & !0xe0000000u32) | (inc_type.spec_number() << 29))
    }

    /// The header after `count` dwords have been added to its method: the
    /// size field is cleared, and the new size, moved to the place of the
    /// field and masked with the largest size, is laid over it.
    pub open spec fn spec_with_added_len(self, count: u16) -> MthdHeader {
        MthdHeader(
            (self.0 & !0x1fff0000u32) | (((((self.spec_len() + count) as u16) as u32) << 16)
                & MAX_MTHD_SIZE),
        )
    }

    /// The bits of the header.
    pub fn to_bits(self) -> (bits: u32)
        ensures
            bits == self.0,
    {
        self.0
    }

    /// A header of the kind `inc_type` for `size` dwords to the address
    /// `addr` of the subchannel `subc`.
    pub fn new(inc_type: IncType, subc: u8, addr: u16, size: u16) -> (h: MthdHeader)
        ensures
            h.0 == header_bits(
                match inc_type {
                    IncType::NInc => 0x20000000u32,
                    IncType::ZeroInc => 0xa0000000u32,
                    IncType::OneInc => 0x60000000u32,
                },
                size,
                subc,
                addr,
            ),
    {
        let subc: u32 = subc as u32;
        let addr: u32 = addr as u32;
        let size: u32 = size as u32;
        let bits = match inc_type {
            IncType::NInc => { 0x20000000 | (size << 16) | (subc << 13) | (addr >> 2) },
            IncType::ZeroInc => { 0xa0000000 | (size << 16) | (subc << 13) | (addr >> 2) },
            IncType::OneInc => { 0x60000000 | (size << 16) | (subc << 13) | (addr >> 2) },
        };
        MthdHeader(bits)
    }

    /// The bits of a header that holds the immediate `immd` for the address
    /// `addr` of the subchannel `subc`.
    pub fn new_immd(immd: u16, subc: u8, addr: u16) -> (bits: u32)
        ensures
            bits == header_bits(0x80000000u32, immd, subc, addr),
    {
        let subc: u32 = subc as u32;
        let addr: u32 = addr as u32;
        let immd: u32 = immd as u32;
        0x80000000 | (immd << 16) | (subc << 13) | (addr >> 2)
    }

    /// The kind of the header; `None` for a header that holds an immediate.
    pub fn inc_type(&self) -> (t: Option<IncType>)
        requires
            self.has_kind(),
        ensures
            t == self.spec_inc_type(),
    {
        let k = self.0 >> 29;
        if k == 1 {
            Some(IncType::NInc)
        } else if k == 3 {
            Some(IncType::OneInc)
        } else if k == 5 {
            Some(IncType::ZeroInc)
        } else {
            None
        }
    }

    /// Replaces the kind of the header.
    pub fn set_inc_type(&mut self, inc_type: IncType)
        ensures
            *final(self) == old(self).spec_with_inc_type(inc_type),
    {
        let inc = inc_type.number();
        self.0 = self.0 & !0xe0000000u32;
        self.0 = self.0 | (inc << 29);
    }

    /// The subchannel of the header.
    pub fn subc(&self) -> (s: u8)
        ensures
            s == self.spec_subc(),
            s <= 7,
    {
        let x = self.0;
        assert((x >> 13) & 0x7 <= 7) by (bit_vector);
        ((self.0 >> 13) & 0x7) as u8
    }

    /// The address of the header, in bytes.
    pub fn addr(&self) -> (a: u16)
        ensures
            a == self.spec_addr(),
            a <= 0x7ffc,
    {
        let x = self.0;
        assert((x & 0x1fff) << 2 <= 0x7ffc) by (bit_vector);
        ((self.0 & 0x1fff) << 2) as u16
    }

    /// The number of dwords that the header announces.
    pub fn len(&self) -> (l: u16)
        ensures
            l == self.spec_len(),
            l <= 0x1fff,
    {
        let x = self.0;
        assert((x >> 16) & 0x1fff <= 0x1fff) by (bit_vector);
        ((self.0 >> 16) & 0x1fff) as u16
    }

    /// Adds `count` dwords to the method of the header.
    pub fn add_len(&mut self, count: u16)
        requires
            old(self).spec_len() + count <= u16::MAX,
        ensures
            *final(self) == old(self).spec_with_added_len(count),
    {
        let new_len = self.len() + count;
        self.0 = self.0 & !0x1fff0000u32;
        self.0 = self.0 | (((new_len as u32) << 16) & MAX_MTHD_SIZE);
    }
}

/// Replacing the kind of a header by one that counts dwords, and adding to
/// its size, both leave a header whose kind counts dwords, with the
/// subchannel and the address that it had.
pub proof fn lemma_header_updates(h: MthdHeader, inc_type: IncType, count: u16)
    ensures
        inc_type != IncType::NInc ==> h.spec_with_inc_type(inc_type).spec_inc_type() == Some(
            inc_type,
        ),
        h.spec_with_inc_type(inc_type).spec_subc() == h.spec_subc(),
        h.spec_with_inc_type(inc_type).spec_addr() == h.spec_addr(),
        h.spec_with_inc_type(inc_type).spec_len() == h.spec_len(),
        kind_bits(h.spec_with_added_len(count).0) == kind_bits(h.0),
        h.spec_with_added_len(count).spec_subc() == h.spec_subc(),
        h.spec_with_added_len(count).spec_addr() == h.spec_addr(),
{
    let x = h.0;
    let n = inc_type.spec_number();
    let y = (x & !0xe0000000u32) | (n << 29);
    assert(n == 3 || n == 5 ==> y >> 29 == n) by (bit_vector)
        requires
            y == (x & !0xe0000000u32) | (n << 29),
    ;
    assert((y >> 13) & 0x7 == (x >> 13) & 0x7 && (y & 0x1fff) << 2 == (x & 0x1fff) << 2 && (y
        >> 16) & 0x1fff == (x >> 16) & 0x1fff) by (bit_vector)
        requires
            y == (x & !0xe0000000u32) | (n << 29),
            n <= 7,
    ;
    let l = ((h.spec_len() + count) as u16) as u32;
    let z = (x & !0x1fff0000u32) | ((l << 16) & 0x1fffu32);
    assert(z >> 29 == x >> 29 && (z >> 13) & 0x7 == (x >> 13) & 0x7 && (z & 0x1fff) << 2 == (x
        & 0x1fff) << 2) by (bit_vector)
        requires
            z == (x & !0x1fff0000u32) | ((l << 16) & 0x1fffu32),
    ;
}

/// The mask of the largest size lies below the place of the size field:
/// after dwords have been added to a header, its size field reads zero.
pub proof fn lemma_added_len_reads_zero(h: MthdHeader, count: u16)
    ensures
        h.spec_with_added_len(count).spec_len() == 0,
{
    let x = h.0;
    let l = ((h.spec_len() + count) as u16) as u32;
    let z = (x & !0x1fff0000u32) | ((l << 16) & 0x1fffu32);
    assert((z >> 16) & 0x1fff == 0) by (bit_vector)
        requires
            z == (x & !0x1fff0000u32) | ((l << 16) & 0x1fffu32),
    ;
}

/// A fresh header with fields that fit their widths holds exactly these
/// fields.
pub proof fn lemma_header_fields(inc_type: IncType, subc: u8, addr: u16, size: u16)
    requires
        subc <= 7,
        addr <= 0x7ffc,
        addr % 4 == 0,
        size <= 0x1fff,
    ensures
        ({
            let kind = match inc_type {
                IncType::NInc => 0x20000000u32,
                IncType::ZeroInc => 0xa0000000u32,
                IncType::OneInc => 0x60000000u32,
            };
            let h = MthdHeader(header_bits(kind, size, subc, addr));
            &&& h.spec_inc_type() == Some(inc_type)
            &&& h.spec_subc() == subc
            &&& h.spec_addr() == addr
            &&& h.spec_len() == size
        }),
{
    let kind = match inc_type {
        IncType::NInc => 0x20000000u32,
        IncType::ZeroInc => 0xa0000000u32,
        IncType::OneInc => 0x60000000u32,
    };
    let s = size as u32;
    let c = subc as u32;
    let a = addr as u32;
    let x = kind | (s << 16) | (c << 13) | (a >> 2);
    assert(x >> 29 == kind >> 29 && (x >> 13) & 0x7 == c && (x & 0x1fff) << 2 == a && (x >> 16)
        & 0x1fff == s) by (bit_vector)
        requires
            x == kind | (s << 16) | (c << 13) | (a >> 2),
            kind == 0x20000000u32 || kind == 0xa0000000u32 || kind == 0x60000000u32,
            s <= 0x1fff,
            c <= 7,
            a <= 0x7ffc,
            a % 4 == 0,
    ;
    assert(0x20000000u32 >> 29 == 1 && 0xa0000000u32 >> 29 == 5 && 0x60000000u32 >> 29 == 3)
        by (bit_vector);
}

/// The header of the open method after a write to the address `addr` of the
/// subchannel `subc` has joined it, where it can: on the same subchannel,
/// and at the address that the kind of the header expects next. A method
/// that increments with each dword and has one dword becomes one that does
/// not increment, for a second write to its address; one that has two dwords
/// becomes one that increments once, for a third write to its second address.
pub open spec fn spec_joined(h: MthdHeader, subc: u8, addr: u16) -> Option<MthdHeader> {
    if subc != h.spec_subc() {
        None
    } else {
        match h.spec_inc_type() {
            Some(IncType::NInc) => if addr == h.spec_addr() + h.spec_len() * 4 {
                Some(h.spec_with_added_len(1))
            } else if h.spec_len() == 1 && addr == h.spec_addr() {
                Some(h.spec_with_inc_type(IncType::ZeroInc).spec_with_added_len(1))
            } else if h.spec_len() == 2 && addr == h.spec_addr() + 4 {
                Some(h.spec_with_inc_type(IncType::OneInc).spec_with_added_len(1))
            } else {
                None
            },
            Some(IncType::ZeroInc) => if addr == h.spec_addr() {
                Some(h.spec_with_added_len(1))
            } else {
                None
            },
            Some(IncType::OneInc) => if addr == h.spec_addr() + 4 {
                Some(h.spec_with_added_len(1))
            } else {
                None
            },
            None => None,
        }
    }
}

/// A push buffer: the dwords of a command stream as they are built up.
pub struct Push {
    /// The internal memory. Has to be uploaded to a BO through flush().
    mem: Vec<u32>,
    /// Last DW that is an incrementing type or usize::MAX
    last_inc: usize,
}

impl Push {
    /// The dwords pushed since the last flush.
    pub closed spec fn mem(&self) -> Seq<u32> {
        self.mem@
    }

    /// Index of the header of the open method, or `usize::MAX`.
    pub closed spec fn last_inc(&self) -> usize {
        self.last_inc
    }

    /// Where a method is open, its header lies in the buffer and is of a
    /// kind that counts dwords.
    pub open spec fn wf(&self) -> bool {
        self.last_inc() == usize::MAX || (self.last_inc() < self.mem().len() && MthdHeader(
            self.mem()[self.last_inc() as int],
        ).counts())
    }

    /// The dwords after a write of `bits` to the address `addr` of the
    /// subchannel `subc`. The write joins the open method where it can. Else
    /// a value of at most 16 bits becomes the immediate of a header of its
    /// own, and any other value follows a new header for one dword.
    pub open spec fn spec_pushed(mem: Seq<u32>, last_inc: usize, subc: u8, addr: u16, bits: u32)
        -> Seq<u32> {
        if last_inc < mem.len() && spec_joined(MthdHeader(mem[last_inc as int]), subc, addr)
            is Some {
            mem.update(
                last_inc as int,
                spec_joined(MthdHeader(mem[last_inc as int]), subc, addr).unwrap().0,
            ).push(bits)
        } else if bits <= 0xffff {
            mem.push(header_bits(0x80000000u32, bits as u16, subc, addr))
        } else {
            mem.push(header_bits(0x20000000u32, 1, subc, addr)).push(bits)
        }
    }

    /// The index of the header of the open method after that write.
    pub open spec fn spec_pushed_last_inc(
        mem: Seq<u32>,
        last_inc: usize,
        subc: u8,
        addr: u16,
        bits: u32,
    ) -> usize {
        if last_inc < mem.len() && spec_joined(MthdHeader(mem[last_inc as int]), subc, addr)
            is Some {
            last_inc
        } else if bits <= 0xffff {
            usize::MAX
        } else {
            mem.len() as usize
        }
    }

    /// Instantiates a new push buffer.
    pub fn new() -> (p: Push)
        ensures
            p.mem().len() == 0,
            p.last_inc() == usize::MAX,
            p.wf(),
    {
        Push { mem: Vec::new(), last_inc: usize::MAX }
    }

    /// Pushes a write of `bits` to the address `addr` of the subchannel
    /// `subc`.
    pub fn mthd_to_bits(&mut self, subc: u8, addr: u16, bits: u32)
        requires
            old(self).wf(),
        ensures
            final(self).wf(),
            final(self).mem() == Push::spec_pushed(
                old(self).mem(),
                old(self).last_inc(),
                subc,
                addr,
                bits,
            ),
            final(self).last_inc() == Push::spec_pushed_last_inc(
                old(self).mem(),
                old(self).last_inc(),
                subc,
                addr,
                bits,
            ),
    {
        let current_len = self.mem.len();
        if self.last_inc < current_len {
            let last = MthdHeader(self.mem[self.last_inc]);
            let joined = Push::join(last, subc, addr);
            if let Some(h) = joined {
                proof {
                    lemma_header_updates(last, IncType::ZeroInc, 1);
                    lemma_header_updates(last, IncType::OneInc, 1);
                    lemma_header_updates(last.spec_with_inc_type(IncType::ZeroInc), IncType::ZeroInc, 1);
                    lemma_header_updates(last.spec_with_inc_type(IncType::OneInc), IncType::OneInc, 1);
                }
                self.mem[self.last_inc] = h.0;
                self.mem.push(bits);
                return ;
            }
        }
        // Otherwise, we need a new method header.
        //
        // Methods that use 16bits or lower can be encoded as immediates
        // directly.
        if bits <= 0xffff {
            self.last_inc = usize::MAX;
            self.mem.push(MthdHeader::new_immd(bits as u16, subc, addr));
        } else {
            self.last_inc = self.mem.len();
            let header = MthdHeader::new(IncType::NInc, subc, addr, 1);
            proof {
                let s = 1u32;
                let c = subc as u32;
                let a = addr as u32;
                let x = header.0;
                assert(x >> 29 == 1) by (bit_vector)
                    requires
                        x == 0x20000000u32 | (s << 16) | (c << 13) | (a >> 2),
                        s == 1,
                        c <= 255,
                        a <= 0xffff,
                ;
            }
            self.mem.push(header.to_bits());
            self.mem.push(bits);
        }
    }

    /// Decides whether a write joins the method of the header `last`, and
    /// what the header then becomes.
    fn join(last: MthdHeader, subc: u8, addr: u16) -> (r: Option<MthdHeader>)
        requires
            last.counts(),
        ensures
            r == spec_joined(last, subc, addr),
    {
        let ghost first = last;
        let mut last = last;
        if subc != last.subc() {
            return None;
        }
        proof {
            lemma_header_updates(first, IncType::ZeroInc, 1);
            lemma_header_updates(first, IncType::OneInc, 1);
        }
        proof {
            let x = first.0;
            assert((x >> 16) & 0x1fff <= 0x1fff) by (bit_vector);
        }
        match last.inc_type() {
            Some(IncType::NInc) => {
                if addr == last.addr() + last.len() * 4 {
                    last.add_len(1);
                    return Some(last);
                } else if last.len() == 1 && addr == last.addr() {
                    last.set_inc_type(IncType::ZeroInc);
                    last.add_len(1);
                    return Some(last);
                } else if last.len() == 2 && addr == last.addr() + 4 {
                    last.set_inc_type(IncType::OneInc);
                    last.add_len(1);
                    return Some(last);
                }
            },
            Some(IncType::ZeroInc) => {
                if addr == last.addr() {
                    last.add_len(1);
                    return Some(last);
                }
            },
            Some(IncType::OneInc) => {
                if addr == last.addr() + 4 {
                    last.add_len(1);
                    return Some(last);
                }
            },
            None => {},
        }
        None
    }

    /// Pushes the method of class `class` at the address `addr` with the
    /// value `bits`.
    pub fn push_method(&mut self, class: u16, addr: u16, bits: u32)
        requires
            old(self).wf(),
            spec_class_to_subc(class).is_some(),
        ensures
            final(self).wf(),
            final(self).mem() == Push::spec_pushed(
                old(self).mem(),
                old(self).last_inc(),
                spec_class_to_subc(class).unwrap(),
                addr,
                bits,
            ),
            final(self).last_inc() == Push::spec_pushed_last_inc(
                old(self).mem(),
                old(self).last_inc(),
                spec_class_to_subc(class).unwrap(),
                addr,
                bits,
            ),
    {
        self.mthd_to_bits(class_to_subc(class), addr, bits);
    }

    /// Pushes the element of an array method of class `class` that lies at
    /// the address `addr`, with the value `bits`.
    pub fn push_array_method(&mut self, class: u16, addr: u16, bits: u32)
        requires
            old(self).wf(),
            spec_class_to_subc(class).is_some(),
        ensures
            final(self).wf(),
            final(self).mem() == Push::spec_pushed(
                old(self).mem(),
                old(self).last_inc(),
                spec_class_to_subc(class).unwrap(),
                addr,
                bits,
            ),
            final(self).last_inc() == Push::spec_pushed_last_inc(
                old(self).mem(),
                old(self).last_inc(),
                spec_class_to_subc(class).unwrap(),
                addr,
                bits,
            ),
    {
        self.mthd_to_bits(class_to_subc(class), addr, bits);
    }

    /// Push an array of dwords into the push buffer
    pub fn push_inline_data(&mut self, data: &[u32])
        requires
            old(self).last_inc() == usize::MAX,
        ensures
            final(self).mem() == old(self).mem() + data@,
            final(self).last_inc() == usize::MAX,
            final(self).wf(),
    {
        let mut i: usize = 0;
        while i < data.len()
            invariant
                i <= data@.len(),
                self.last_inc == usize::MAX,
                self.mem@ =~= old(self).mem@ + data@.subrange(0, i as int),
            decreases data@.len() - i,
        {
            self.mem.push(data[i]);
            i += 1;
        }
        assert(data@.subrange(0, i as int) =~= data@);
    }

    /// Flushes the internal memory to `out`. Can be used to upload the push
    /// buffer.
    pub fn flush(&mut self, out: &mut [u32])
        requires
            old(out)@.len() == old(self).mem().len(),
        ensures
            final(out)@ == old(self).mem(),
            final(self).mem().len() == 0,
            final(self).last_inc() == usize::MAX,
            final(self).wf(),
    {
        let mut i: usize = 0;
        while i < self.mem.len()
            invariant
                i <= self.mem@.len(),
                self.mem@ == old(self).mem@,
                out@.len() == self.mem@.len(),
                forall|j: int| 0 <= j < i ==> out@[j] == self.mem@[j],
            decreases self.mem@.len() - i,
        {
            out[i] = self.mem[i];
            i += 1;
        }
        assert(out@ =~= self.mem@);
        self.mem.clear();
        self.last_inc = usize::MAX;
    }

    /// Whether a method is open: whether a header may still take more dwords,
    /// so that inline data has no place.
    pub fn has_open_method(&self) -> (r: bool)
        ensures
            r == (self.last_inc() != usize::MAX),
    {
        self.last_inc != usize::MAX
    }

    /// The number of dwords pushed since the last flush.
    pub fn len(&self) -> (n: usize)
        ensures
            n == self.mem().len(),
    {
        self.mem.len()
    }
}

} // verus!
