//! Sector-aligned writing: bytes go to the device only in whole sectors,
//! and the last partial sector is padded with zeros.
use vstd::prelude::*;

verus! {

/// The device is written in units of this many bytes.
pub const SECTOR: usize = 4096;

/// `n` zero bytes.
pub open spec fn zeros(n: nat) -> Seq<u8> {
    Seq::new(n, |i: int| 0u8)
}

/// How many zero bytes bring `len` bytes up to a whole number of sectors.
pub open spec fn pad_len(len: nat) -> nat {
    (((SECTOR as int) - (len % (SECTOR as nat)) as int) % (SECTOR as int)) as nat
}

/// The largest whole number of sectors that `len` bytes fill.
pub open spec fn whole_sectors(len: nat) -> nat {
    (len / (SECTOR as nat)) * (SECTOR as nat)
}

/// Bytes waiting until they fill a whole sector.
pub struct SectorBuffer {
    pending: Vec<u8>,
}

impl View for SectorBuffer {
    type V = Seq<u8>;

    closed spec fn view(&self) -> Seq<u8> {
        self.pending@
    }
}

fn copy_range(v: &Vec<u8>, from: usize, to: usize) -> (res: Vec<u8>)
    requires
        from <= to <= v.len(),
    ensures
        res@ == v@.subrange(from as int, to as int),
{
    let mut res: Vec<u8> = Vec::new();
    let mut i = from;
    while i < to
        invariant
            from <= i <= to <= v.len(),
            res@ == v@.subrange(from as int, i as int),
        decreases to - i,
    {
        res.push(v[i]);
        i = i + 1;
        assert(res@ =~= v@.subrange(from as int, i as int));
    }
    res
}

/// The first `n` bytes of `v`.
pub fn prefix(v: &Vec<u8>, n: usize) -> (res: Vec<u8>)
    requires
        n <= v.len(),
    ensures
        res@ == v@.take(n as int),
{
    let r = copy_range(v, 0, n);
    assert(r@ =~= v@.take(n as int));
    r
}

proof fn lemma_sector_arith(len: nat)
    ensures
        whole_sectors(len) <= len,
        len - whole_sectors(len) < SECTOR,
        whole_sectors(len) % (SECTOR as nat) == 0,
        (len + pad_len(len)) % (SECTOR as nat) == 0,
        pad_len(len) < SECTOR,
        len % (SECTOR as nat) == 0 ==> pad_len(len) == 0,
{
    let s = SECTOR as nat;
    vstd::arithmetic::div_mod::lemma_fundamental_div_mod(len as int, s as int);
    vstd::arithmetic::div_mod::lemma_mod_multiples_basic((len / s) as int, s as int);
    if len % s != 0 {
        let q = len / s;
        let r = len % s;
        assert(len + pad_len(len) == (q + 1) * s) by (nonlinear_arith)
            requires
                len == q * s + r,
                0 < r < s,
                pad_len(len) == s - r,
        ;
        vstd::arithmetic::div_mod::lemma_mod_multiples_basic((q + 1) as int, s as int);
    }
}

impl SectorBuffer {
    /// The buffer holds less than one sector.
    pub open spec fn wf(&self) -> bool {
        self@.len() < SECTOR
    }

    pub fn new() -> (res: SectorBuffer)
        ensures
            res.wf(),
            res@ == Seq::<u8>::empty(),
    {
        SectorBuffer { pending: Vec::new() }
    }

    /// Takes `data` in and gives back the bytes to write now: all the whole
    /// sectors of what was held followed by `data`; the rest stays held.
    pub fn write(&mut self, data: &[u8]) -> (flush: Vec<u8>)
        requires
            old(self).wf(),
        ensures
            final(self).wf(),
            flush@ == (old(self)@ + data@).take(whole_sectors((old(self)@ + data@).len()) as int),
            final(self)@ == (old(self)@ + data@).skip(whole_sectors((old(self)@ + data@).len()) as int),
            flush@ + final(self)@ == old(self)@ + data@,
            flush@.len() % (SECTOR as nat) == 0,
    {
        let ghost all = self.pending@ + data@;
        let mut combined: Vec<u8> = Vec::new();
        combined.extend_from_slice(self.pending.as_slice());
        combined.extend_from_slice(data);
        assert(combined@ =~= all);
        let flush_len = (combined.len() / SECTOR) * SECTOR;
        proof {
            lemma_sector_arith(all.len());
            assert(flush_len == whole_sectors(all.len()));
        }
        let flush = copy_range(&combined, 0, flush_len);
        self.pending = copy_range(&combined, flush_len, combined.len());
        proof {
            assert(flush@ =~= all.take(flush_len as int));
            assert(self.pending@ =~= all.skip(flush_len as int));
            assert(flush@ + self.pending@ =~= all);
        }
        flush
    }

    /// The bytes still held, padded with zeros to a whole sector (nothing
    /// when nothing is held).
    pub fn finish(self) -> (tail: Vec<u8>)
        requires
            self.wf(),
        ensures
            tail@ == self@ + zeros(pad_len(self@.len())),
            tail@.len() % (SECTOR as nat) == 0,
            tail@.len() < 2 * SECTOR,
    {
        let mut tail = self.pending;
        proof {
            lemma_sector_arith(tail@.len());
        }
        if tail.len() > 0 {
            let pad = (SECTOR - tail.len() % SECTOR) % SECTOR;
            let ghost held = tail@;
            let mut k: usize = 0;
            while k < pad
                invariant
                    k <= pad,
                    pad == pad_len(held.len()),
                    tail@ == held + zeros(k as nat),
                decreases pad - k,
            {
                tail.push(0u8);
                k = k + 1;
                assert(tail@ =~= held + zeros(k as nat));
            }
        } else {
            assert(tail@ =~= tail@ + zeros(0));
        }
        tail
    }
}

} // verus!
