//! The interrupt handler registry: up to four handlers per vector, each
//! known by its address, and the vectors the legacy PIC's IRQs arrive on.

use vstd::prelude::*;
use super::idt::{PIC1_OFFSET, PIC2_OFFSET};

verus! {

/// The most handlers one vector holds.
pub const MAX_HANDLERS_PER_VECTOR: usize = 4;

/// The number of vectors.
pub const VECTOR_COUNT: usize = 256;

/// The slots of one vector: each empty or holding a handler address.
pub open spec fn spec_slots(s: Seq<Option<u64>>, vector: u8) -> Seq<Option<u64>> {
    s.subrange(vector * 4, vector * 4 + 4)
}

/// The first empty slot of a vector, if any.
pub open spec fn spec_first_free(slots: Seq<Option<u64>>) -> Option<int> {
    if slots[0] is None {
        Some(0)
    } else if slots[1] is None {
        Some(1)
    } else if slots[2] is None {
        Some(2)
    } else if slots[3] is None {
        Some(3)
    } else {
        None
    }
}

/// The first slot of a vector holding `handler`, if any.
pub open spec fn spec_first_holding(slots: Seq<Option<u64>>, handler: u64) -> Option<int> {
    if slots[0] == Some(handler) {
        Some(0)
    } else if slots[1] == Some(handler) {
        Some(1)
    } else if slots[2] == Some(handler) {
        Some(2)
    } else if slots[3] == Some(handler) {
        Some(3)
    } else {
        None
    }
}

/// The number of occupied slots.
pub open spec fn spec_count(slots: Seq<Option<u64>>) -> nat {
    (if slots[0] is Some { 1nat } else { 0nat }) + (if slots[1] is Some { 1nat } else { 0nat }) + (if slots[2] is Some {
        1nat
    } else {
        0nat
    }) + (if slots[3] is Some { 1nat } else { 0nat })
}

/// The handlers held by slots, in slot order.
pub open spec fn spec_present(s: Seq<Option<u64>>) -> Seq<u64>
    decreases s.len(),
{
    if s.len() == 0 {
        Seq::empty()
    } else {
        let p = spec_present(s.drop_last());
        match s.last() {
            Some(h) => p.push(h),
            None => p,
        }
    }
}

/// The handlers of every vector.
pub struct HandlerRegistry {
    slots: Vec<Option<u64>>,
}

impl View for HandlerRegistry {
    type V = Seq<Option<u64>>;

    /// Slot `4 * v + i` is slot `i` of vector `v`.
    closed spec fn view(&self) -> Seq<Option<u64>> {
        self.slots@
    }
}

impl HandlerRegistry {
    /// Every vector has four slots.
    pub open spec fn wf(&self) -> bool {
        self@.len() == VECTOR_COUNT * MAX_HANDLERS_PER_VECTOR
    }

    /// No handler anywhere.
    pub fn new() -> (r: Self)
        ensures
            r.wf(),
            r@ == Seq::new(1024, |i: int| None::<u64>),
    {
        let mut slots: Vec<Option<u64>> = Vec::new();
        while slots.len() < 1024
            invariant
                slots@.len() <= 1024,
                forall|i: int| 0 <= i < slots@.len() ==> #[trigger] slots@[i] is None,
            decreases 1024 - slots@.len(),
        {
            slots.push(None);
        }
        let r = HandlerRegistry { slots };
        assert(r@ =~= Seq::new(1024, |i: int| None::<u64>));
        r
    }

    /// Adds a handler to a vector's first empty slot; refused when all
    /// four are taken.
    pub fn register(&mut self, vector: u8, handler: u64) -> (r: Result<(), &'static str>)
        requires
            old(self).wf(),
        ensures
            final(self).wf(),
            match spec_first_free(spec_slots(old(self)@, vector)) {
                Some(i) => r is Ok && final(self)@ == old(self)@.update(vector * 4 + i, Some(handler)),
                None => r == Err::<(), &'static str>("Maximum number of handlers reached for this vector")
                    && final(self)@ == old(self)@,
            },
    {
        let base = (vector as usize) * 4;
        let mut i: usize = 0;
        while i < MAX_HANDLERS_PER_VECTOR
            invariant
                self@ == old(self)@,
                self.wf(),
                base == vector * 4,
                0 <= i <= 4,
                forall|k: int| 0 <= k < i ==> #[trigger] self@[base + k] is Some,
            decreases 4 - i,
        {
            if self.slots[base + i].is_none() {
                self.slots.set(base + i, Some(handler));
                return Ok(());
            }
            i = i + 1;
        }
        proof {
            let sl = spec_slots(old(self)@, vector);
            assert(sl[0] == self@[base + 0] && sl[1] == self@[base + 1] && sl[2] == self@[base + 2] && sl[3]
                == self@[base + 3]);
        }
        Err("Maximum number of handlers reached for this vector")
    }

    /// Removes a handler from the first slot of the vector holding it;
    /// refused when no slot holds it.
    pub fn unregister(&mut self, vector: u8, handler: u64) -> (r: Result<(), &'static str>)
        requires
            old(self).wf(),
        ensures
            final(self).wf(),
            match spec_first_holding(spec_slots(old(self)@, vector), handler) {
                Some(i) => r is Ok && final(self)@ == old(self)@.update(vector * 4 + i, None),
                None => r == Err::<(), &'static str>("Handler not found in registry") && final(self)@ == old(self)@,
            },
    {
        let base = (vector as usize) * 4;
        let mut i: usize = 0;
        while i < MAX_HANDLERS_PER_VECTOR
            invariant
                self@ == old(self)@,
                self.wf(),
                base == vector * 4,
                0 <= i <= 4,
                forall|k: int| 0 <= k < i ==> #[trigger] self@[base + k] != Some(handler),
            decreases 4 - i,
        {
            if self.slots[base + i] == Some(handler) {
                self.slots.set(base + i, None);
                return Ok(());
            }
            i = i + 1;
        }
        proof {
            let sl = spec_slots(old(self)@, vector);
            assert(sl[0] == self@[base + 0] && sl[1] == self@[base + 1] && sl[2] == self@[base + 2] && sl[3]
                == self@[base + 3]);
        }
        Err("Handler not found in registry")
    }

    /// The handlers of a vector, in slot order.
    pub fn handlers(&self, vector: u8) -> (r: Vec<u64>)
        requires
            self.wf(),
        ensures
            r@ == spec_present(spec_slots(self@, vector)),
    {
        let base = (vector as usize) * 4;
        let ghost slots = spec_slots(self@, vector);
        let mut r: Vec<u64> = Vec::new();
        let mut i: usize = 0;
        assert(slots.take(0) =~= Seq::<Option<u64>>::empty());
        assert(r@ =~= spec_present(slots.take(0)));
        while i < MAX_HANDLERS_PER_VECTOR
            invariant
                self.wf(),
                base == vector * 4,
                slots == spec_slots(self@, vector),
                0 <= i <= 4,
                r@ == spec_present(slots.take(i as int)),
            decreases 4 - i,
        {
            assert(slots.take(i as int + 1).drop_last() =~= slots.take(i as int));
            assert(slots.take(i as int + 1).last() == self@[base + i]);
            match self.slots[base + i] {
                Some(h) => {
                    r.push(h);
                },
                None => {},
            }
            i = i + 1;
        }
        assert(slots.take(4) =~= slots);
        r
    }

    /// Whether a vector has a handler.
    pub fn has_handlers(&self, vector: u8) -> (r: bool)
        requires
            self.wf(),
        ensures
            r == (spec_count(spec_slots(self@, vector)) > 0),
    {
        self.handler_count(vector) > 0
    }

    /// The number of handlers of a vector.
    pub fn handler_count(&self, vector: u8) -> (r: usize)
        requires
            self.wf(),
        ensures
            r == spec_count(spec_slots(self@, vector)),
    {
        let base = (vector as usize) * 4;
        let mut n: usize = 0;
        if self.slots[base].is_some() {
            n = n + 1;
        }
        if self.slots[base + 1].is_some() {
            n = n + 1;
        }
        if self.slots[base + 2].is_some() {
            n = n + 1;
        }
        if self.slots[base + 3].is_some() {
            n = n + 1;
        }
        n
    }
}

/// The vector an IRQ of the legacy PIC arrives on.
pub fn irq_vector(irq: u8) -> (r: Result<u8, &'static str>)
    ensures
        irq < 8 ==> r == Ok::<u8, &'static str>((PIC1_OFFSET + irq) as u8),
        8 <= irq < 16 ==> r == Ok::<u8, &'static str>((PIC2_OFFSET + irq - 8) as u8),
        irq >= 16 ==> r == Err::<u8, &'static str>("Invalid IRQ number (must be 0-15)"),
{
    if irq < 8 {
        Ok(PIC1_OFFSET + irq)
    } else if irq < 16 {
        Ok(PIC2_OFFSET + irq - 8)
    } else {
        Err("Invalid IRQ number (must be 0-15)")
    }
}

/// Registering a handler and then unregistering it leaves the registry as
/// it was, when the handler was not registered for the vector before.
pub proof fn lemma_register_unregister(s: Seq<Option<u64>>, vector: u8, handler: u64)
    requires
        s.len() == 1024,
        spec_first_free(spec_slots(s, vector)) is Some,
        spec_first_holding(spec_slots(s, vector), handler) is None,
    ensures
        ({
            let i = spec_first_free(spec_slots(s, vector))->0;
            let t = s.update(vector * 4 + i, Some(handler));
            &&& spec_first_holding(spec_slots(t, vector), handler) == Some(i)
            &&& t.update(vector * 4 + i, None) == s
        }),
{
    let i = spec_first_free(spec_slots(s, vector))->0;
    let t = s.update(vector * 4 + i, Some(handler));
    assert(spec_slots(t, vector) =~= spec_slots(s, vector).update(i, Some(handler)));
    assert(t.update(vector * 4 + i, None) =~= s);
}

} // verus!
