//! Work the peripherals leave for memory.

use vstd::prelude::*;

use super::{MemState, Memory};
use crate::cpu::exception::Exception;
use crate::peripherals::pbc::PbcState;
use crate::peripherals::spi_flash::FlashState;
use crate::soc::bank::BankState;
use crate::soc::devices::DevState;
use crate::soc::peripheral::{DatapathOp, OpView};

verus! {

/// The bank after bytes were handed back to the flash controller.
pub open spec fn flash_written(bank: BankState, flash_addr: u32, data: Seq<u8>) -> BankState {
    bank.with_dev(
        DevState {
            pbc: PbcState {
                flash: FlashState {
                    data: crate::peripherals::spi_flash::programmed(
                        bank.dev.pbc.flash.data,
                        flash_addr as int,
                        data,
                    ),
                    dirty: true,
                    ..bank.dev.pbc.flash
                },
                ..bank.dev.pbc
            },
            ..bank.dev
        },
    )
}

/// The bank once its work was taken.
pub open spec fn work_taken(bank: BankState) -> BankState {
    bank.with_dev(
        DevState {
            pbc: PbcState { pending: Seq::empty(), ..bank.dev.pbc },
            pending: Seq::empty(),
            ..bank.dev
        },
    )
}

/// The work waiting in a bank.
pub open spec fn work_of(bank: BankState) -> Seq<OpView> {
    crate::soc::bank::inspect::landed(bank.dev.pbc.pending) + bank.dev.pending
}

impl MemState {
    /// The memory after one piece of work.
    pub open spec fn after_op(self, op: OpView) -> MemState {
        match op {
            OpView::SramWrite { sram_addr, data } => self.with_ram(
                self.ram.dma_written(sram_addr, data),
            ),
            OpView::CacheInvalidate { addr } => self.with_ram(
                self.ram.line_dropped(crate::cache::line_base(addr)),
            ),
            OpView::FlashWrite { peripheral, flash_addr, sram_addr, length } => {
                if sram_addr + length <= self.ram.bytes.len() && self.bank is Some {
                    self.with_bank(
                        flash_written(
                            self.bank->0,
                            flash_addr,
                            self.ram.bytes.subrange(sram_addr as int, sram_addr + length),
                        ),
                    )
                } else {
                    self
                }
            },
        }
    }

    /// The memory after a list of it, in order.
    pub open spec fn after_ops(self, ops: Seq<OpView>) -> MemState
        decreases ops.len(),
    {
        if ops.len() == 0 {
            self
        } else {
            self.after_ops(ops.drop_last()).after_op(ops.last())
        }
    }

    /// The memory after the work of the bank was carried out.
    #[verifier::opaque]
    pub open spec fn worked_off(self) -> MemState {
        match self.bank {
            Some(bank) => self.with_bank(work_taken(bank)).after_ops(work_of(bank)),
            None => self,
        }
    }
}

impl Memory {
    fn hand_back(&mut self, op: &DatapathOp)
        requires
            old(self).wf(),
            op is FlashWrite,
        ensures
            final(self).wf(),
            final(self)@ == old(self)@.after_op(op@),
    {
        if let DatapathOp::FlashWrite { peripheral, flash_addr, sram_addr, length } = op {
            let start: usize = *sram_addr as usize;
            let n: usize = self.ram.data.len();
            if start > n || *length > n - start {
                return;
            }
            let data: Vec<u8> = vstd::slice::slice_to_vec(
                vstd::slice::slice_subrange(self.ram.data.as_slice(), start, start + *length),
            );
            if let Some(bank) = &mut self.bank {
                bank.complete_flash_write(*peripheral, *flash_addr, data.as_slice());
            }
        }
    }

    fn dma_write(&mut self, sram_addr: u32, data: &Vec<u8>)
        requires
            old(self).wf(),
        ensures
            final(self).wf(),
            final(self)@ == old(self)@.with_ram(old(self)@.ram.dma_written(sram_addr, data@)),
    {
        self.ram.dma_write(sram_addr, data);
    }

    fn drop_line(&mut self, addr: u32)
        requires
            old(self).wf(),
        ensures
            final(self).wf(),
            final(self)@ == old(self)@.with_ram(old(self)@.ram.line_dropped(addr)),
    {
        self.ram.drop_line(addr);
    }

    /// Carry out one piece of work.
    pub fn apply_datapath_op(&mut self, op: DatapathOp) -> (r: Result<(), Exception>)
        requires
            old(self).wf(),
        ensures
            final(self).wf(),
            r is Ok,
            final(self)@ == old(self)@.after_op(op@),
    {
        match &op {
            DatapathOp::SramWrite { sram_addr, data } => self.dma_write(*sram_addr, data),
            DatapathOp::CacheInvalidate { addr } => self.drop_line(*addr - *addr % 32),
            DatapathOp::FlashWrite { .. } => self.hand_back(&op),
        }
        Ok(())
    }

    fn take_work(&mut self) -> (r: Vec<DatapathOp>)
        requires
            old(self).wf(),
            old(self)@.bank is Some,
        ensures
            final(self).wf(),
            crate::soc::peripheral::op_views(r@) == work_of(old(self)@.bank->0),
            final(self)@ == old(self)@.with_bank(work_taken(old(self)@.bank->0)),
    {
        let mut ops: Vec<DatapathOp> = Vec::new();
        if let Some(bank) = &mut self.bank {
            ops = bank.take_pending_datapath();
        }
        ops
    }

    /// Carry out the work the bank has waiting.
    pub fn drain_datapath_public(&mut self) -> (r: Result<(), Exception>)
        requires
            old(self).wf(),
        ensures
            final(self).wf(),
            r is Ok,
            final(self)@ == old(self)@.worked_off(),
    {
        self.drain_datapath()
    }

    pub(crate) fn drain_datapath(&mut self) -> (r: Result<(), Exception>)
        requires
            old(self).wf(),
        ensures
            final(self).wf(),
            r is Ok,
            final(self)@ == old(self)@.worked_off(),
    {
        proof {
            reveal(MemState::worked_off);
        }
        if self.bank.is_none() {
            return Ok(());
        }
        let ops = self.take_work();
        let ghost taken = self@;
        let ghost views = crate::soc::peripheral::op_views(ops@);
        assert(views.take(0) =~= Seq::<OpView>::empty());
        let n: usize = ops.len();
        for i in 0..n
            invariant
                n == ops@.len(),
                views == crate::soc::peripheral::op_views(ops@),
                self.wf(),
                self@ == taken.after_ops(views.take(i as int)),
        {
            proof {
                assert(views.take(i + 1).drop_last() =~= views.take(i as int));
                assert(views.take(i + 1).last() == ops@[i as int]@);
            }
            let op: DatapathOp = ops[i].clone();
            let _ = self.apply_datapath_op(op);
        }
        assert(views.take(n as int) =~= views);
        Ok(())
    }
}

/// The work of the bank is carried out in order: finished flash transfers first,
/// then what is pending; and none of it is left to do.
pub proof fn law_work_is_done_in_order(m: MemState, first: Seq<OpView>, rest: Seq<OpView>, op: OpView)
    ensures
        m.after_ops(first + rest) == m.after_ops(first).after_ops(rest),
        m.after_ops(seq![op]) == m.after_op(op),
        m.after_ops(Seq::empty()) == m,
        m.bank matches Some(bank) ==> m.worked_off() == m.with_bank(work_taken(bank)).after_ops(
            crate::soc::bank::inspect::landed(bank.dev.pbc.pending),
        ).after_ops(bank.dev.pending),
        m.bank is None ==> m.worked_off() == m,
    decreases rest.len(),
{
    reveal(MemState::worked_off);
    assert(seq![op].drop_last() =~= Seq::<OpView>::empty());
    if rest.len() == 0 {
        assert(first + rest =~= first);
    } else {
        law_work_is_done_in_order(m, first, rest.drop_last(), op);
        assert((first + rest).drop_last() =~= first + rest.drop_last());
        assert((first + rest).last() == rest.last());
    }
    if let Some(bank) = m.bank {
        lemma_ops_in_two(
            m.with_bank(work_taken(bank)),
            crate::soc::bank::inspect::landed(bank.dev.pbc.pending),
            bank.dev.pending,
        );
    }
}

proof fn lemma_ops_in_two(m: MemState, first: Seq<OpView>, rest: Seq<OpView>)
    ensures
        m.after_ops(first + rest) == m.after_ops(first).after_ops(rest),
    decreases rest.len(),
{
    if rest.len() == 0 {
        assert(first + rest =~= first);
    } else {
        lemma_ops_in_two(m, first, rest.drop_last());
        assert((first + rest).drop_last() =~= first + rest.drop_last());
        assert((first + rest).last() == rest.last());
    }
}

/// Taking the work of a bank leaves it none, and changes nothing else of it.
pub proof fn law_taken_work_is_gone(bank: BankState)
    ensures
        work_of(work_taken(bank)).len() == 0,
        work_taken(bank).dev.pbc.flash == bank.dev.pbc.flash,
        work_taken(bank).dev.epon == bank.dev.epon,
        work_taken(bank).log == bank.log,
        work_of(bank).len() == bank.dev.pbc.pending.len() + bank.dev.pending.len(),
{
}

/// Each piece of work does one thing: a memory write goes to SRAM, an
/// invalidation drops the data line of its address, and a flash write takes the
/// bytes of SRAM where they are all there.
pub proof fn law_pieces_of_work(
    m: MemState,
    addr: u32,
    data: Seq<u8>,
    peripheral: crate::soc::peripheral::PeripheralId,
    flash_addr: u32,
    length: int,
)
    requires
        m.bank is Some,
    ensures
        m.after_op(OpView::SramWrite { sram_addr: addr, data }) == m.with_ram(
            m.ram.dma_written(addr, data),
        ),
        m.after_op(OpView::CacheInvalidate { addr }).bank == m.bank,
        m.after_op(OpView::CacheInvalidate { addr }).ram.bytes == m.ram.bytes,
        m.after_op(OpView::CacheInvalidate { addr }).ram == m.ram.line_dropped(
            (addr - addr % 32) as u32,
        ),
        ({
            let op = OpView::FlashWrite { peripheral, flash_addr, sram_addr: addr, length };
            let after = m.after_op(op);
            &&& after.ram == m.ram
            &&& addr + length > m.ram.bytes.len() ==> after == m
            &&& addr + length <= m.ram.bytes.len() ==> after.bank->0.dev.pbc.flash.data
                == crate::peripherals::spi_flash::programmed(
                m.bank->0.dev.pbc.flash.data,
                flash_addr as int,
                m.ram.bytes.subrange(addr as int, addr + length),
            ) && after.bank->0.dev.pbc.flash.dirty
        }),
{
}

} // verus!
