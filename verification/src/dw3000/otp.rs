//! Reads of the one-time programmable memory, where the factory calibration
//! values are kept.
use vstd::prelude::*;
use crate::dw3000::interface::{Bus, BusOp, BusRequest, Interface, spec_le_value};
use crate::dw3000::ral::{
    Accessor, Error, Register, spec_last_read, spec_read_request, spec_with_bit, spec_with_field, spec_write_request,
};
use crate::dw3000::ral::regs::{OtpAddr, OtpCfg, OtpRdata};

verus! {

pub const LDOTUNE_CAL: u8 = 0x04;

pub const BIASTUNE_CAL: u8 = 0x0A;

pub const XTAL_TRIM: u8 = 0x1E;

pub const DGC_CFG: u8 = 0x20;

pub const DGC_LUT_CH5: u8 = 0x27;

pub const DGC_LUT_CH9: u8 = 0x2e;

pub const PLL_LOCK_CODE: u8 = 0x35;

/// The operations that read the OTP word at `addr`, `value` being what was
/// read: manual mode, the address, the read strobe, then the data register.
pub open spec fn spec_word_ops(addr: u8, value: u64) -> Seq<BusOp> {
    seq![
        BusOp::WriteRegister {
            address: OtpCfg::spec_address(),
            length: 2,
            value: spec_with_bit(0, 0, true),
        },
        BusOp::WriteRegister {
            address: OtpAddr::spec_address(),
            length: 2,
            value: spec_with_field(0, 0, 11, addr as u64),
        },
        BusOp::WriteRegister {
            address: OtpCfg::spec_address(),
            length: 2,
            value: spec_with_bit(0, 1, true),
        },
        BusOp::ReadRegister { address: OtpRdata::spec_address(), length: 4, value },
    ]
}

/// The requests that read the OTP word at `addr`: manual mode, the
/// address, the read strobe, then the data register.
pub open spec fn spec_word_requests(addr: u8) -> Seq<BusRequest> {
    seq![
        spec_write_request::<OtpCfg>(spec_with_bit(0, 0, true)),
        spec_write_request::<OtpAddr>(spec_with_field(0, 0, 11, addr as u64)),
        spec_write_request::<OtpCfg>(spec_with_bit(0, 1, true)),
        spec_read_request::<OtpRdata>(),
    ]
}

/// The requests that load the calibration values: the two LDO tuning
/// words, then the crystal trim, bias tuning, receiver tuning and PLL lock
/// code words.
pub open spec fn spec_load_requests() -> Seq<BusRequest> {
    spec_block_requests(LDOTUNE_CAL, 2) + spec_word_requests(XTAL_TRIM) + spec_word_requests(BIASTUNE_CAL)
        + spec_word_requests(DGC_CFG) + spec_word_requests(PLL_LOCK_CODE)
}

/// The requests that read `n` consecutive words from `addr` on.
pub open spec fn spec_block_requests(addr: u8, n: nat) -> Seq<BusRequest>
    decreases n,
{
    if n == 0 {
        Seq::empty()
    } else {
        spec_block_requests(addr, (n - 1) as nat) + spec_word_requests((addr + n - 1) as u8)
    }
}

/// `req` is `before` followed by the first requests of `ops`: at least one,
/// since a read is only given up after a request failed, and all of them
/// when `done`.
pub open spec fn spec_requested_prefix(before: Seq<BusRequest>, req: Seq<BusRequest>, ops: Seq<BusRequest>, done: bool) -> bool {
    &&& before.len() < req.len() <= before.len() + ops.len()
    &&& req == before + ops.subrange(0, req.len() - before.len())
    &&& done ==> req.len() == before.len() + ops.len()
}

/// A read of `w` in the middle of `ops`, after the first `k` of them, keeps
/// what was requested a prefix of `ops`.
pub proof fn lemma_prefix_step(
    before: Seq<BusRequest>,
    mid: Seq<BusRequest>,
    req: Seq<BusRequest>,
    ops: Seq<BusRequest>,
    k: int,
    w: Seq<BusRequest>,
    done: bool,
)
    requires
        0 <= k,
        k + w.len() <= ops.len(),
        mid == before + ops.subrange(0, k),
        ops.subrange(k, k + w.len()) == w,
        spec_requested_prefix(mid, req, w, done),
    ensures
        spec_requested_prefix(before, req, ops, done && k + w.len() == ops.len()),
        done ==> req == before + ops.subrange(0, k + w.len()),
{
    let j = req.len() - mid.len();
    assert(w.subrange(0, j) =~= ops.subrange(k, k + j));
    assert(req =~= before + ops.subrange(0, k + j));
}

pub proof fn lemma_block_requests(addr: u8, n: nat)
    ensures
        spec_block_requests(addr, n).len() == 4 * n,
    decreases n,
{
    if n > 0 {
        lemma_block_requests(addr, (n - 1) as nat);
    }
}

/// The requests of the first `m` words are the first ones of `n` words.
proof fn lemma_block_requests_prefix(addr: u8, m: nat, n: nat)
    requires
        m <= n,
    ensures
        spec_block_requests(addr, n).subrange(0, (4 * m) as int) == spec_block_requests(addr, m),
    decreases n,
{
    lemma_block_requests(addr, n);
    lemma_block_requests(addr, m);
    if m < n {
        let k = (n - 1) as nat;
        lemma_block_requests_prefix(addr, m, k);
        lemma_block_requests(addr, k);
        assert(spec_block_requests(addr, n).subrange(0, (4 * m) as int) =~= spec_block_requests(addr, k).subrange(0, (4 * m) as int));
    } else {
        assert(spec_block_requests(addr, n).subrange(0, (4 * m) as int) =~= spec_block_requests(addr, m));
    }
}

/// The operations that read `n` consecutive words from `addr` on, whose
/// octets are `bytes`, least significant first.
pub open spec fn spec_block_ops(addr: u8, bytes: Seq<u8>, n: nat) -> Seq<BusOp>
    decreases n,
{
    if n == 0 {
        Seq::empty()
    } else {
        spec_block_ops(addr, bytes, (n - 1) as nat) + spec_word_ops(
            (addr + n - 1) as u8,
            spec_le_value(bytes.subrange(4 * (n - 1) as int, (4 * n) as int)) as u64,
        )
    }
}

/// Reader of the OTP memory.
pub struct OtpReader;

impl OtpReader {
    pub fn new() -> (r: Self) {
        OtpReader
    }

    fn read_u32<IF: Interface>(&self, interface: &mut Bus<IF>, addr: u8) -> (r: Result<u32, Error<IF>>)
        ensures
            spec_requested_prefix(
                old(interface).spec_requests(),
                final(interface).spec_requests(),
                spec_word_requests(addr),
                r is Ok,
            ),
            r matches Ok(v) ==> final(interface).spec_log() == old(interface).spec_log() + spec_word_ops(
                addr,
                v as u64,
            ),
    {
        let ghost log0 = interface.spec_log();
        let ghost req0 = interface.spec_requests();
        let ghost ops = spec_word_requests(addr);
        // set manual access mode
        let mut cfg = OtpCfg(0);
        cfg.set_otp_man(true);
        let r0 = Accessor::<OtpCfg>::new().write_value(interface, cfg);
        proof {
            assert(interface.spec_requests() =~= req0 + ops.subrange(0, 1));
        }
        if let Err(e) = r0 {
            return Err(e);
        }
        // set the address
        let mut otp_addr = OtpAddr(0);
        otp_addr.set_otp_addr(addr as u16);
        let r1 = Accessor::<OtpAddr>::new().write_value(interface, otp_addr);
        proof {
            assert(interface.spec_requests() =~= req0 + ops.subrange(0, 2));
        }
        if let Err(e) = r1 {
            return Err(e);
        }
        // assert the read strobe
        let mut cfg = OtpCfg(0);
        cfg.set_otp_read(true);
        let r2 = Accessor::<OtpCfg>::new().write_value(interface, cfg);
        proof {
            assert(interface.spec_requests() =~= req0 + ops.subrange(0, 3));
        }
        if let Err(e) = r2 {
            return Err(e);
        }
        // read the result
        let ghost log3 = interface.spec_log();
        let r3 = Accessor::<OtpRdata>::new().read_bytes(interface);
        proof {
            assert(interface.spec_requests() =~= req0 + ops.subrange(0, 4));
        }
        let res = match r3 {
            Ok(v) => v,
            Err(e) => return Err(e),
        };
        proof {
            assert(interface.spec_log() =~= log3.push(
                BusOp::ReadRegister { address: OtpRdata::spec_address(), length: 4, value: res },
            )) by {
                assert(interface.spec_log().subrange(0, log3.len() as int) == log3);
                assert forall|i: int| 0 <= i < log3.len() implies interface.spec_log()[i] == log3[i] by {
                    assert(interface.spec_log().subrange(0, log3.len() as int)[i] == log3[i]);
                }
            }
            let v = spec_last_read(interface.spec_log());
            assert(v < 0x1_0000_0000) by {
                vstd::arithmetic::power::lemma_pow_positive(256, 4);
                assert(vstd::arithmetic::power::pow(256, 4) == 0x1_0000_0000) by {
                    reveal_with_fuel(vstd::arithmetic::power::pow, 5);
                }
            }
            assert(interface.spec_log() =~= log0 + spec_word_ops(addr, res));
        }
        Ok(res as u32)
    }

    fn read_u64<IF: Interface>(&self, interface: &mut Bus<IF>, addr: u8) -> (r: Result<u64, Error<IF>>)
        requires
            addr < 0xff,
        ensures
            spec_requested_prefix(
                old(interface).spec_requests(),
                final(interface).spec_requests(),
                spec_block_requests(addr, 2),
                r is Ok,
            ),
            r matches Ok(v) ==> final(interface).spec_log() == old(interface).spec_log() + spec_word_ops(
                addr,
                v & 0xffff_ffff,
            ) + spec_word_ops((addr + 1) as u8, v >> 32),
    {
        let ghost req0 = interface.spec_requests();
        proof {
            lemma_block_requests(addr, 2);
            lemma_block_requests_prefix(addr, 1, 2);
            assert(spec_block_requests(addr, 1) =~= spec_word_requests(addr));
            assert(spec_block_requests(addr, 2).subrange(4, 8) =~= spec_word_requests((addr + 1) as u8));
            assert(req0 =~= req0 + spec_block_requests(addr, 2).subrange(0, 0));
        }
        let r0 = self.read_u32(interface, addr);
        proof {
            lemma_prefix_step(req0, req0, interface.spec_requests(), spec_block_requests(addr, 2), 0, spec_word_requests(addr), r0 is Ok);
        }
        let w0 = match r0 {
            Ok(w) => w,
            Err(e) => return Err(e),
        };
        let ghost req1 = interface.spec_requests();
        let r1 = self.read_u32(interface, addr + 1);
        proof {
            lemma_prefix_step(req0, req1, interface.spec_requests(), spec_block_requests(addr, 2), 4, spec_word_requests((addr + 1) as u8), r1 is Ok);
        }
        let w1 = match r1 {
            Ok(w) => w,
            Err(e) => return Err(e),
        };
        let v = ((w1 as u64) << 32) | (w0 as u64);
        proof {
            assert(v & 0xffff_ffff == w0 as u64 && v >> 32 == w1 as u64) by (bit_vector)
                requires
                    v == ((w1 as u64) << 32) | (w0 as u64),
            ;
        }
        Ok(v)
    }

    fn read_u8x28<IF: Interface>(&self, interface: &mut Bus<IF>, addr: u8) -> (r: Result<Vec<u8>, Error<IF>>)
        requires
            addr <= 0xff - 7,
        ensures
            spec_requested_prefix(
                old(interface).spec_requests(),
                final(interface).spec_requests(),
                spec_block_requests(addr, 7),
                r is Ok,
            ),
            r matches Ok(data) ==> data@.len() == 28 && final(interface).spec_log() == old(interface).spec_log()
                + spec_block_ops(addr, data@, 7),
    {
        let ghost req0 = interface.spec_requests();
        proof {
            lemma_block_requests(addr, 7);
            assert(req0 =~= req0 + spec_block_requests(addr, 0));
        }
        let mut data: Vec<u8> = Vec::new();
        let mut offset: u8 = 0;
        proof {
            assert(interface.spec_log() =~= old(interface).spec_log() + spec_block_ops(addr, data@, 0));
        }
        while offset < 7
            invariant
                offset <= 7,
                addr <= 0xff - 7,
                data@.len() == 4 * offset,
                interface.spec_log() == old(interface).spec_log() + spec_block_ops(addr, data@, offset as nat),
                req0 == old(interface).spec_requests(),
                interface.spec_requests() == req0 + spec_block_requests(addr, offset as nat),
                spec_block_requests(addr, 7).len() == 28,
            decreases 7 - offset,
        {
            let ghost d0 = data@;
            let ghost log1 = interface.spec_log();
            let ghost req1 = interface.spec_requests();
            let r = self.read_u32(interface, addr + offset);
            proof {
                let k = offset as nat;
                let ops = spec_block_requests(addr, 7);
                lemma_block_requests(addr, k);
                lemma_block_requests(addr, k + 1);
                lemma_block_requests_prefix(addr, k, 7);
                lemma_block_requests_prefix(addr, k + 1, 7);
                let lo = (4 * k) as int;
                let hi = (4 * k + 4) as int;
                assert(ops.subrange(lo, hi) =~= spec_block_requests(addr, k + 1).subrange(lo, hi));
                assert(spec_block_requests(addr, k + 1).subrange(lo, hi) =~= spec_word_requests(
                    (addr + offset) as u8,
                ));
                lemma_prefix_step(req0, req1, interface.spec_requests(), ops, lo, spec_word_requests((addr + offset) as u8), r is Ok);
                if r is Ok {
                    assert(interface.spec_requests() =~= req0 + spec_block_requests(addr, k + 1));
                }
            }
            let word = match r {
                Ok(w) => w,
                Err(e) => return Err(e),
            };
            push_word(&mut data, word);
            proof {
                let n = (offset + 1) as nat;
                assert(data@.subrange(0, 4 * offset as int) =~= d0);
                lemma_block_ops_prefix(addr, d0, data@, offset as nat);
                assert(data@.subrange(4 * offset as int, (4 * n) as int) =~= word_bytes(word));
                lemma_word_bytes_value(word);
                assert(spec_block_ops(addr, data@, n) == spec_block_ops(addr, data@, offset as nat) + spec_word_ops(
                    (addr + n - 1) as u8,
                    word as u64,
                ));
                assert(interface.spec_log() =~= old(interface).spec_log() + spec_block_ops(addr, data@, n));
            }
            offset = offset + 1;
        }
        proof {
            lemma_block_requests_prefix(addr, 7, 7);
        }
        Ok(data)
    }

    /// LDO tuning calibration value.
    pub fn ldotune_cal<IF: Interface>(&self, interface: &mut Bus<IF>) -> (r: Result<u64, Error<IF>>)
        ensures
            spec_requested_prefix(
                old(interface).spec_requests(),
                final(interface).spec_requests(),
                spec_block_requests(LDOTUNE_CAL, 2),
                r is Ok,
            ),
            r matches Ok(v) ==> final(interface).spec_log() == old(interface).spec_log() + spec_word_ops(
                LDOTUNE_CAL,
                v & 0xffff_ffff,
            ) + spec_word_ops((LDOTUNE_CAL + 1) as u8, v >> 32),
    {
        self.read_u64(interface, LDOTUNE_CAL)
    }

    /// Bias tuning calibration value.
    pub fn bias_tune<IF: Interface>(&self, interface: &mut Bus<IF>) -> (r: Result<u32, Error<IF>>)
        ensures
            spec_requested_prefix(
                old(interface).spec_requests(),
                final(interface).spec_requests(),
                spec_word_requests(BIASTUNE_CAL),
                r is Ok,
            ),
            r matches Ok(v) ==> final(interface).spec_log() == old(interface).spec_log() + spec_word_ops(
                BIASTUNE_CAL,
                v as u64,
            ),
    {
        let value = self.read_u32(interface, BIASTUNE_CAL)?;
        Ok(value)
    }

    /// Crystal trim: the seven low bits of its word.
    pub fn xtal_trim<IF: Interface>(&self, interface: &mut Bus<IF>) -> (r: Result<u8, Error<IF>>)
        ensures
            spec_requested_prefix(
                old(interface).spec_requests(),
                final(interface).spec_requests(),
                spec_word_requests(XTAL_TRIM),
                r is Ok,
            ),
            r matches Ok(v) ==> {
                let w = spec_last_read(final(interface).spec_log());
                &&& final(interface).spec_log() == old(interface).spec_log() + spec_word_ops(XTAL_TRIM, w)
                &&& v == (w as u8) & 0x7f
            },
    {
        let value = self.read_u32(interface, XTAL_TRIM)?;
        Ok((value as u8) & 0x7f)
    }

    /// First word of the receiver tuning configuration.
    pub fn rx_tune_dgc_cfg0<IF: Interface>(&self, interface: &mut Bus<IF>) -> (r: Result<u32, Error<IF>>)
        ensures
            spec_requested_prefix(
                old(interface).spec_requests(),
                final(interface).spec_requests(),
                spec_word_requests(DGC_CFG),
                r is Ok,
            ),
            r matches Ok(v) ==> final(interface).spec_log() == old(interface).spec_log() + spec_word_ops(
                DGC_CFG,
                v as u64,
            ),
    {
        let value = self.read_u32(interface, DGC_CFG)?;
        Ok(value)
    }

    /// Receiver tuning configuration, seven words.
    pub fn rx_tune_dgc_cfg<IF: Interface>(&self, interface: &mut Bus<IF>) -> (r: Result<Vec<u8>, Error<IF>>)
        ensures
            spec_requested_prefix(
                old(interface).spec_requests(),
                final(interface).spec_requests(),
                spec_block_requests(DGC_CFG, 7),
                r is Ok,
            ),
            r matches Ok(data) ==> data@.len() == 28 && final(interface).spec_log() == old(interface).spec_log()
                + spec_block_ops(DGC_CFG, data@, 7),
    {
        self.read_u8x28(interface, DGC_CFG)
    }

    /// Receiver gain table for channel 5, seven words.
    pub fn rx_tune_dgc_lut_ch5<IF: Interface>(&self, interface: &mut Bus<IF>) -> (r: Result<Vec<u8>, Error<IF>>)
        ensures
            spec_requested_prefix(
                old(interface).spec_requests(),
                final(interface).spec_requests(),
                spec_block_requests(DGC_LUT_CH5, 7),
                r is Ok,
            ),
            r matches Ok(data) ==> data@.len() == 28 && final(interface).spec_log() == old(interface).spec_log()
                + spec_block_ops(DGC_LUT_CH5, data@, 7),
    {
        self.read_u8x28(interface, DGC_LUT_CH5)
    }

    /// Receiver gain table for channel 9, seven words.
    pub fn rx_tune_dgc_lut_ch9<IF: Interface>(&self, interface: &mut Bus<IF>) -> (r: Result<Vec<u8>, Error<IF>>)
        ensures
            spec_requested_prefix(
                old(interface).spec_requests(),
                final(interface).spec_requests(),
                spec_block_requests(DGC_LUT_CH9, 7),
                r is Ok,
            ),
            r matches Ok(data) ==> data@.len() == 28 && final(interface).spec_log() == old(interface).spec_log()
                + spec_block_ops(DGC_LUT_CH9, data@, 7),
    {
        self.read_u8x28(interface, DGC_LUT_CH9)
    }

    /// PLL lock code.
    pub fn pll_lock_code<IF: Interface>(&self, interface: &mut Bus<IF>) -> (r: Result<u32, Error<IF>>)
        ensures
            spec_requested_prefix(
                old(interface).spec_requests(),
                final(interface).spec_requests(),
                spec_word_requests(PLL_LOCK_CODE),
                r is Ok,
            ),
            r matches Ok(v) ==> final(interface).spec_log() == old(interface).spec_log() + spec_word_ops(
                PLL_LOCK_CODE,
                v as u64,
            ),
    {
        let value = self.read_u32(interface, PLL_LOCK_CODE)?;
        Ok(value)
    }
}

/// The four octets of `word`, least significant first.
pub open spec fn word_bytes(word: u32) -> Seq<u8> {
    seq![(word & 0xff) as u8, ((word >> 8) & 0xff) as u8, ((word >> 16) & 0xff) as u8, ((word >> 24) & 0xff) as u8]
}

fn push_word(data: &mut Vec<u8>, word: u32)
    ensures
        final(data)@ == old(data)@ + word_bytes(word),
{
    data.push((word & 0xff) as u8);
    data.push(((word >> 8) & 0xff) as u8);
    data.push(((word >> 16) & 0xff) as u8);
    data.push(((word >> 24) & 0xff) as u8);
    assert(data@ =~= old(data)@ + word_bytes(word));
}

proof fn lemma_word_bytes_value(word: u32)
    ensures
        spec_le_value(word_bytes(word)) == word,
{
    let b = word_bytes(word);
    let b0 = (word & 0xff) as u8;
    let b1 = ((word >> 8) & 0xff) as u8;
    let b2 = ((word >> 16) & 0xff) as u8;
    let b3 = ((word >> 24) & 0xff) as u8;
    assert(b.subrange(1, 4) =~= seq![b1, b2, b3]);
    assert(seq![b1, b2, b3].subrange(1, 3) =~= seq![b2, b3]);
    assert(seq![b2, b3].subrange(1, 2) =~= seq![b3]);
    assert(seq![b3].subrange(1, 1) =~= Seq::<u8>::empty());
    reveal_with_fuel(spec_le_value, 5);
    assert(word == b0 as u32 + 256 * (b1 as u32 + 256 * (b2 as u32 + 256 * (b3 as u32)))) by (bit_vector)
        requires
            b0 == (word & 0xff) as u8,
            b1 == ((word >> 8) & 0xff) as u8,
            b2 == ((word >> 16) & 0xff) as u8,
            b3 == ((word >> 24) & 0xff) as u8,
    ;
}

/// The operations of the first `n` words depend on the first `4 n` octets
/// only.
proof fn lemma_block_ops_prefix(addr: u8, short: Seq<u8>, long: Seq<u8>, n: nat)
    requires
        short.len() == 4 * n,
        long.len() >= 4 * n,
        long.subrange(0, (4 * n) as int) == short,
    ensures
        spec_block_ops(addr, long, n) == spec_block_ops(addr, short, n),
    decreases n,
{
    if n > 0 {
        let m = (n - 1) as nat;
        assert(long.subrange(0, (4 * m) as int) =~= short.subrange(0, (4 * m) as int));
        lemma_block_ops_prefix(addr, short.subrange(0, (4 * m) as int), long, m);
        lemma_block_ops_prefix(addr, short.subrange(0, (4 * m) as int), short, m);
        assert(long.subrange((4 * m) as int, (4 * n) as int) =~= short.subrange((4 * m) as int, (4 * n) as int));
    }
}

} // verus!
