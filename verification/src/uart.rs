//! PL011 UART bring-up and byte output.
//!
//! Initialisation reads the device's `reg`, identity-maps the MMIO range
//! and records the data and flag register addresses.  The transmit path
//! stores one byte per 32-bit write to the data register, preceding every
//! line feed with a carriage return; on hardware each write first spins
//! until the TX-FIFO-full flag clears — a bounded hardware wait whose
//! polling read lives outside this crate.  The writer records the exact
//! sequence of 32-bit words stored to the data register.

use vstd::prelude::*;

use vstd::string::StringSliceAdditionalSpecFns;

use crate::fdt::{reg_spec, FDTError, FDTNode, LibFdt};
use crate::memory::PAGE_LEN;
use crate::ppm::{num_free, Ppm, PPMError};
use crate::ptm::{
    all_leaves_strict, ident_mapped, map_mmio_range, reg_flips, resolves, root_frames_reserved,
    root_wf, walk, RootTable, PTMError,
};

verus! {

/// Data register: at offset 0 from the device base.
pub const DATA_REG_OFFSET: u64 = 0x0;

/// Flag register: at offset 0x18 from the device base.
pub const FLAG_REG_OFFSET: u64 = 0x18;

/// Bit 5 of the flag register: the transmit FIFO is full.
pub const TX_FIFO_FULL_MASK: u32 = 32;

#[derive(Clone, Copy, PartialEq, Eq, Structural, Debug)]
pub enum PL011Error {
    GetRegsFailed(FDTError),
    MapMMIORangeFailed(PTMError),
}

/// The initialised UART: its MMIO base, the two derived register
/// addresses, and the sequence of 32-bit words stored to the data
/// register so far.
#[derive(Debug)]
pub struct PL011Writer {
    pub address: u64,
    pub data_reg: u64,
    pub flag_reg: u64,
    pub output: Vec<u32>,
}

/// The transmit FIFO is full: bit 5 of the flag register value.  The
/// transmit path waits until this is false before storing a byte.
pub fn tx_fifo_full(flag_value: u32) -> (r: bool)
    ensures
        r == (flag_value & TX_FIFO_FULL_MASK != 0),
{
    flag_value & TX_FIFO_FULL_MASK != 0
}

/// The words a byte string puts on the wire: each byte as one 32-bit
/// word, every line feed preceded by a carriage return.
pub open spec fn crlf_expand(s: Seq<u8>) -> Seq<u32>
    decreases s.len(),
{
    if s.len() == 0 {
        Seq::empty()
    } else {
        crlf_expand(s.drop_last()) + (if s.last() == 10 {
            seq![13u32, 10u32]
        } else {
            seq![s.last() as u32]
        })
    }
}

/// Initialise the PL011 from its device-tree node: decode `reg`,
/// identity-map the MMIO range into the low-half tree, and derive the
/// data and flag register addresses from the base.
pub fn init_pl011_uart(
    pl011_node: &FDTNode,
    fdt: &LibFdt,
    root0: &mut RootTable,
    ppm: &mut Ppm,
) -> (r: Result<PL011Writer, PL011Error>)
    requires
        root_wf(*old(root0)),
        root_frames_reserved(*old(root0), old(ppm).registry@),
        old(ppm).registry@.len() * (PAGE_LEN as int) <= (1u64 << 48u64),
        forall|a: u64, s: u64| #[trigger]
            crate::fdt::reg_decodes_to(pl011_node, fdt, a, s) ==> a + s < (1u64 << 39u64),
    ensures
        root_wf(*final(root0)),
        root_frames_reserved(*final(root0), final(ppm).registry@),
        reg_flips(old(ppm).registry@, final(ppm).registry@),
        forall|va2: u64|
            walk(*old(root0), va2) is Some ==> #[trigger] walk(*final(root0), va2) == walk(
                *old(root0),
                va2,
            ),
        all_leaves_strict(*old(root0)) ==> all_leaves_strict(*final(root0)),
        ({
            match reg_spec(pl011_node, fdt) {
                Err(e) => r == Err::<PL011Writer, PL011Error>(PL011Error::GetRegsFailed(e)) && *final(root0)
                    == *old(root0) && final(ppm).registry@ == old(ppm).registry@,
                Ok((addr, size)) => {
                    &&& (r is Err ==> r->Err_0 == PL011Error::MapMMIORangeFailed(
                        PTMError::VAAlreadyMapped,
                    ) || r->Err_0 == PL011Error::MapMMIORangeFailed(
                        PTMError::GetFreePageFailed(PPMError::NoFreePages),
                    ))
                    &&& (r == Err::<PL011Writer, PL011Error>(PL011Error::MapMMIORangeFailed(
                        PTMError::GetFreePageFailed(PPMError::NoFreePages),
                    )) ==> num_free(final(ppm).registry@) <= 1)
                    &&& (r == Err::<PL011Writer, PL011Error>(PL011Error::MapMMIORangeFailed(
                        PTMError::VAAlreadyMapped,
                    )) ==> (exists|q: u64|
                        (addr / PAGE_LEN * PAGE_LEN) as u64 <= q < ((addr + size) / (
                        PAGE_LEN as int) * (PAGE_LEN as int) + PAGE_LEN) as u64 && q % PAGE_LEN
                            == 0 && #[trigger] resolves(*old(root0), q) is Some && resolves(
                            *old(root0),
                            q,
                        ) != Some(q)))
                    &&& (ident_mapped(
                        *old(root0),
                        (addr / PAGE_LEN * PAGE_LEN) as u64,
                        ((addr + size) / (PAGE_LEN as int) * (PAGE_LEN as int) + PAGE_LEN) as u64,
                    ) ==> r is Ok)
                    &&& (r is Ok ==> {
                        let w = r->Ok_0;
                        &&& w.address == addr
                        &&& w.data_reg == addr + DATA_REG_OFFSET
                        &&& w.flag_reg == addr + FLAG_REG_OFFSET
                        &&& w.output@ == Seq::<u32>::empty()
                        &&& ident_mapped(
                            *final(root0),
                            (addr / PAGE_LEN * PAGE_LEN) as u64,
                            ((addr + size) / (PAGE_LEN as int) * (PAGE_LEN as int)
                                + PAGE_LEN) as u64,
                        )
                    })
                },
            }
        }),
{
    let (address, size) = match pl011_node.get_reg(fdt) {
        Ok((pl011_mmio_address, pl011_mmio_size)) => (pl011_mmio_address, pl011_mmio_size),
        Err(e) => {
            return Err(PL011Error::GetRegsFailed(e));
        },
    };
    proof {
        assert(crate::fdt::reg_decodes_to(pl011_node, fdt, address, size));
        crate::ptm::lemma_pow2_consts();
    }
    if let Err(e) = map_mmio_range(root0, ppm, address, size) {
        return Err(PL011Error::MapMMIORangeFailed(e));
    }
    Ok(
        PL011Writer {
            address,
            data_reg: address + DATA_REG_OFFSET,
            flag_reg: address + FLAG_REG_OFFSET,
            output: Vec::new(),
        },
    )
}

/// Store one byte to the data register as a 32-bit word.  On hardware
/// this first polls the flag register until `tx_fifo_full` clears; the
/// wait changes no state, so the record keeps only the store.
pub fn write(w: &mut PL011Writer, b: u8)
    ensures
        final(w).output@ == old(w).output@.push(b as u32),
        final(w).address == old(w).address,
        final(w).data_reg == old(w).data_reg,
        final(w).flag_reg == old(w).flag_reg,
{
    w.output.push(b as u32);
}

/// Write a string byte by byte, turning each line feed into a carriage
/// return followed by the line feed.
pub fn write_str(w: &mut PL011Writer, s: &str)
    ensures
        final(w).output@ == old(w).output@ + crlf_expand(s.spec_bytes()),
        final(w).address == old(w).address,
        final(w).data_reg == old(w).data_reg,
        final(w).flag_reg == old(w).flag_reg,
{
    let bytes = s.as_bytes();
    let n = bytes.len();
    let mut i: usize = 0;
    proof {
        assert(old(w).output@ + crlf_expand(bytes@.take(0)) =~= old(w).output@);
    }
    while i < n
        invariant
            n == bytes@.len(),
            0 <= i <= n,
            w.output@ == old(w).output@ + crlf_expand(bytes@.take(i as int)),
            w.address == old(w).address,
            w.data_reg == old(w).data_reg,
            w.flag_reg == old(w).flag_reg,
        decreases n - i,
    {
        let b = bytes[i];
        // 10 is the line feed, 13 the carriage return.
        if b == 10 {
            write(w, 13);
        }
        write(w, b);
        proof {
            let t1 = bytes@.take(i as int + 1);
            assert(t1.drop_last() =~= bytes@.take(i as int));
            assert(t1.last() == bytes@[i as int]);
            if b == 10 {
                assert(w.output@ =~= old(w).output@ + crlf_expand(t1));
            } else {
                assert(w.output@ =~= old(w).output@ + crlf_expand(t1));
            }
        }
        i += 1;
    }
    proof {
        assert(bytes@.take(n as int) =~= bytes@);
    }
}

} // verus!
