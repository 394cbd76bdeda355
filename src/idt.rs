use vstd::prelude::*;

verus! {

/// Number of vectors in the table.
pub const IDT_ENTRIES: usize = 256;

/// Size in bytes of one entry as the processor reads it.
pub const IDT_ENTRY_SIZE: usize = 16;

/// One gate of the interrupt descriptor table, with the handler address split
/// into low, middle and high parts.
#[derive(Debug, Clone, Copy, PartialEq, Eq, Structural)]
pub struct IdtEntry {
    pub offset_low: u16,
    pub selector: u16,
    pub options: u16,
    pub offset_mid: u16,
    pub offset_high: u32,
    pub reserved: u32,
}

/// The entry of a vector that has no handler: all zero, not present.
pub open spec fn missing_entry() -> IdtEntry {
    IdtEntry { offset_low: 0, selector: 0, options: 0, offset_mid: 0, offset_high: 0, reserved: 0 }
}

/// The entry that routes a vector to `handler`.
pub open spec fn gate_entry(handler: u64, selector: u16, options: u16) -> IdtEntry {
    IdtEntry {
        offset_low: (handler % 0x1_0000) as u16,
        selector,
        options,
        offset_mid: ((handler / 0x1_0000) % 0x1_0000) as u16,
        offset_high: (handler / 0x1_0000_0000) as u32,
        reserved: 0,
    }
}

impl IdtEntry {
    /// The handler address that the three offset parts make up.
    pub open spec fn handler_address(self) -> int {
        self.offset_low + self.offset_mid * 0x1_0000 + self.offset_high * 0x1_0000_0000
    }

    pub fn missing() -> (r: IdtEntry)
        ensures
            r == missing_entry(),
    {
        IdtEntry { offset_low: 0, selector: 0, options: 0, offset_mid: 0, offset_high: 0, reserved: 0 }
    }

    pub fn set_handler(&mut self, handler: u64, selector: u16, options: u16)
        ensures
            *final(self) == gate_entry(handler, selector, options),
            final(self).handler_address() == handler,
    {
        let low = (handler & 0xFFFF) as u16;
        let mid = ((handler >> 16u64) & 0xFFFF) as u16;
        let high = ((handler >> 32u64) & 0xFFFF_FFFF) as u32;
        assert(low == handler % 0x1_0000 && mid == (handler / 0x1_0000) % 0x1_0000 && high == handler / 0x1_0000_0000) by (bit_vector)
            requires
                low == (handler & 0xFFFF) as u16,
                mid == ((handler >> 16u64) & 0xFFFF) as u16,
                high == ((handler >> 32u64) & 0xFFFF_FFFF) as u32,
        ;
        assert(handler == handler % 0x1_0000 + ((handler / 0x1_0000) % 0x1_0000) * 0x1_0000
            + (handler / 0x1_0000_0000) * 0x1_0000_0000) by (bit_vector);
        self.offset_low = low;
        self.offset_mid = mid;
        self.offset_high = high;
        self.selector = selector;
        self.options = options;
        self.reserved = 0;
    }
}

/// The interrupt descriptor table: one entry per vector.
pub struct InterruptTable {
    entries: [IdtEntry; IDT_ENTRIES],
}

impl InterruptTable {
    pub closed spec fn view(&self) -> Seq<IdtEntry> {
        self.entries@
    }

    /// The table always has one entry per vector.
    pub proof fn lemma_len(&self)
        ensures
            self@.len() == IDT_ENTRIES,
    {
    }

    /// A table in which every vector is missing.
    pub fn new() -> (r: InterruptTable)
        ensures
            r@.len() == IDT_ENTRIES,
            forall|v: int| 0 <= v < IDT_ENTRIES ==> #[trigger] r@[v] == missing_entry(),
    {
        InterruptTable { entries: [IdtEntry::missing(); IDT_ENTRIES] }
    }

    /// The entry of `vector`.
    pub fn entry(&self, vector: u8) -> (r: IdtEntry)
        ensures
            r == self@[vector as int],
    {
        self.entries[vector as usize]
    }
}

/// Sets every entry of the table back to missing. Loading the table into the
/// processor (see `idt_descriptor`) is the caller's.
pub fn init_idt(idt: &mut InterruptTable)
    ensures
        final(idt)@.len() == IDT_ENTRIES,
        forall|v: int| 0 <= v < IDT_ENTRIES ==> #[trigger] final(idt)@[v] == missing_entry(),
{
    let mut i: usize = 0;
    while i < IDT_ENTRIES
        invariant
            i <= IDT_ENTRIES,
            idt@.len() == IDT_ENTRIES,
            forall|v: int| 0 <= v < i ==> #[trigger] idt@[v] == missing_entry(),
        decreases IDT_ENTRIES - i,
    {
        idt.entries[i] = IdtEntry::missing();
        i += 1;
    }
}

/// Installs a handler at `vector`; every other entry stays as it was.
pub fn register_handler(idt: &mut InterruptTable, vector: u8, handler_fn: u64, selector: u16, options: u16)
    ensures
        old(idt)@.len() == IDT_ENTRIES,
        final(idt)@ == old(idt)@.update(vector as int, gate_entry(handler_fn, selector, options)),
        final(idt)@[vector as int].handler_address() == handler_fn,
{
    let mut e = idt.entries[vector as usize];
    e.set_handler(handler_fn, selector, options);
    idt.entries[vector as usize] = e;
}

/// What the processor's table register is loaded with.
#[derive(Debug, Clone, Copy, PartialEq, Eq, Structural)]
pub struct IdtDescriptor {
    pub limit: u16,
    pub base: u64,
}

/// The descriptor of a table that starts at address `base`: its limit is the
/// table's size in bytes minus one.
pub fn idt_descriptor(base: u64) -> (r: IdtDescriptor)
    ensures
        r.base == base,
        r.limit == IDT_ENTRIES * IDT_ENTRY_SIZE - 1,
{
    IdtDescriptor { limit: (IDT_ENTRIES * IDT_ENTRY_SIZE - 1) as u16, base }
}

} // verus!
