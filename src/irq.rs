use vstd::prelude::*;

verus! {

/// The number that ends the interrupt listener (SIGHUP on Linux).
pub const STOP_IRQ: i32 = 1;

/// The number of the deferred-processing (software) interrupt (SIGUSR1 on Linux).
pub const SOFT_IRQ: i32 = 10;

/// Lowest interrupt number that a device may be bound to.
pub const AVAILABLE_IRQ_MIN: i32 = 35;

/// One past the highest interrupt number that a device may be bound to.
pub const AVAILABLE_IRQ_MAX: i32 = 64;

/// Whether `irq` lies in the range that devices may be bound to.
pub open spec fn irq_available(irq: i32) -> bool {
    AVAILABLE_IRQ_MIN <= irq < AVAILABLE_IRQ_MAX
}

/// How many times `x` occurs in `s`.
pub open spec fn occurrences(s: Seq<i32>, x: i32) -> nat
    decreases s.len(),
{
    if s.len() == 0 {
        0
    } else {
        occurrences(s.drop_last(), x) + if s.last() == x {
            1nat
        } else {
            0nat
        }
    }
}

/// The numbers that the interrupt listener waits for: the stop number, the
/// software interrupt, then the whole available range in increasing order.
pub open spec fn listened_irqs() -> Seq<i32> {
    seq![STOP_IRQ, SOFT_IRQ] + Seq::new(
        (AVAILABLE_IRQ_MAX - AVAILABLE_IRQ_MIN) as nat,
        |i: int| (AVAILABLE_IRQ_MIN + i) as i32,
    )
}

/// Why an interrupt binding was refused.
#[derive(Debug, Clone, Copy, PartialEq, Eq, Structural)]
pub enum IRQError {
    /// The number lies outside the range available to devices.
    Unavailable,
}

/// A binding of a device to an interrupt number.
pub struct IRQEntry {
    pub irq: i32,
}

/// What the interrupt subsystem holds.
pub struct IRQModel {
    /// Whether it is bound to the registry that dispatches its interrupts.
    pub attached: bool,
    /// Registered interrupt numbers, in order of registration.
    pub bindings: Seq<i32>,
    /// Interrupts raised and not yet delivered, oldest first.
    pub raised: Seq<i32>,
}

/// The interrupt subsystem: the registered bindings and the queue of raised
/// interrupts that the listener delivers.
pub struct IRQContext {
    attached: bool,
    irq_entries: Vec<IRQEntry>,
    raised: Vec<i32>,
}

impl View for IRQContext {
    type V = IRQModel;

    closed spec fn view(&self) -> IRQModel {
        IRQModel {
            attached: self.attached,
            bindings: self.irq_entries@.map_values(|e: IRQEntry| e.irq),
            raised: self.raised@,
        }
    }
}

impl IRQContext {
    pub fn new() -> (r: IRQContext)
        ensures
            r@ == (IRQModel { attached: false, bindings: seq![], raised: seq![] }),
    {
        let r = IRQContext { attached: false, irq_entries: Vec::new(), raised: Vec::new() };
        assert(r@.bindings =~= seq![]);
        r
    }

    /// Binds the subsystem to the registry whose devices its interrupts reach.
    /// Until then the listener delivers nothing.
    pub fn set_net_device_context(&mut self)
        ensures
            final(self)@ == (IRQModel { attached: true, ..old(self)@ }),
    {
        self.attached = true;
    }

    pub fn is_attached(&self) -> (r: bool)
        ensures
            r == self@.attached,
    {
        self.attached
    }

    pub fn init(&self) {
    }

    /// Records a binding for `irq`; duplicates are kept. A number outside the
    /// available range is refused.
    pub fn register(&mut self, irq: i32) -> (r: Result<(), IRQError>)
        ensures
            r.is_ok() <==> irq_available(irq),
            r.is_ok() ==> final(self)@ == (IRQModel {
                bindings: old(self)@.bindings.push(irq),
                ..old(self)@
            }),
            r.is_err() ==> final(self)@ == old(self)@,
    {
        if irq < AVAILABLE_IRQ_MIN || irq >= AVAILABLE_IRQ_MAX {
            return Err(IRQError::Unavailable);
        }
        self.irq_entries.push(IRQEntry { irq });
        assert(self@.bindings =~= old(self)@.bindings.push(irq));
        Ok(())
    }

    /// Tearing down the listener is left to its owner: nothing to do here.
    pub fn shutdown(&self) {
    }

    /// Queues `irq` for delivery.
    pub fn raise(&mut self, irq: i32)
        ensures
            final(self)@ == (IRQModel { raised: old(self)@.raised.push(irq), ..old(self)@ }),
    {
        self.raised.push(irq);
    }

    /// Hands out the raised interrupts, oldest first, and empties the queue.
    pub fn take_raised(&mut self) -> (r: Vec<i32>)
        ensures
            r@ == old(self)@.raised,
            final(self)@ == (IRQModel { raised: seq![], ..old(self)@ }),
    {
        let mut taken: Vec<i32> = Vec::new();
        std::mem::swap(&mut taken, &mut self.raised);
        taken
    }

    /// How many bindings `irq` has.
    pub fn bound_count(&self, irq: i32) -> (r: usize)
        ensures
            r == occurrences(self@.bindings, irq),
    {
        let ghost b = self@.bindings;
        let mut n: usize = 0;
        let mut k: usize = 0;
        while k < self.irq_entries.len()
            invariant
                b == self@.bindings,
                k <= b.len(),
                n == occurrences(b.take(k as int), irq),
                n <= k,
            decreases b.len() - k,
        {
            assert(b.take(k as int + 1).drop_last() =~= b.take(k as int));
            if self.irq_entries[k].irq == irq {
                n = n + 1;
            }
            k = k + 1;
        }
        assert(b.take(k as int) =~= b);
        n
    }

    /// The numbers the listener waits for.
    pub fn listened(&self) -> (r: Vec<i32>)
        ensures
            r@ == listened_irqs(),
    {
        let mut v: Vec<i32> = Vec::new();
        v.push(STOP_IRQ);
        v.push(SOFT_IRQ);
        let mut irq: i32 = AVAILABLE_IRQ_MIN;
        while irq < AVAILABLE_IRQ_MAX
            invariant
                AVAILABLE_IRQ_MIN <= irq <= AVAILABLE_IRQ_MAX,
                v@ == seq![STOP_IRQ, SOFT_IRQ] + Seq::new(
                    (irq - AVAILABLE_IRQ_MIN) as nat,
                    |i: int| (AVAILABLE_IRQ_MIN + i) as i32,
                ),
            decreases AVAILABLE_IRQ_MAX - irq,
        {
            v.push(irq);
            irq = irq + 1;
            assert(v@ =~= seq![STOP_IRQ, SOFT_IRQ] + Seq::new(
                (irq - AVAILABLE_IRQ_MIN) as nat,
                |i: int| (AVAILABLE_IRQ_MIN + i) as i32,
            ));
        }
        v
    }
}

} // verus!
