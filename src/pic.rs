use vstd::prelude::*;
use crate::port::{port_write, PortWrite};

verus! {

/// Command and data ports of the master and slave controllers.
pub const PIC1_COMMAND: u16 = 0x20;

pub const PIC1_DATA: u16 = 0x21;

pub const PIC2_COMMAND: u16 = 0xA0;

pub const PIC2_DATA: u16 = 0xA1;

/// First vector of the master's lines; the slave's eight lines follow them.
pub const PIC1_VECTOR_BASE: u8 = 0x20;

pub const PIC2_VECTOR_BASE: u8 = 0x28;

/// Initialization command word 1: start initialization, a fourth word follows.
pub const ICW1_INIT: u8 = 0x11;

/// Cascade wiring: the slave hangs on the master's line 2.
pub const ICW3_MASTER_SLAVE_LINES: u8 = 0x04;

pub const ICW3_SLAVE_IDENTITY: u8 = 0x02;

/// Initialization command word 4: 8086/88 mode.
pub const ICW4_8086: u8 = 0x01;

/// Mask with every line of a controller disabled.
pub const ALL_LINES_MASKED: u8 = 0xFF;

/// End-of-interrupt command.
pub const EOI: u8 = 0x20;

/// The keyboard's line on the master controller.
pub const KEYBOARD_IRQ: u8 = 1;

/// Whether `line` (0 to 7) is masked (disabled) in `mask`.
pub open spec fn line_masked(mask: u8, line: u8) -> bool {
    (mask >> line) & 1u8 == 1u8
}

/// The initialization sequence that remaps both controllers, followed by
/// masks that disable every line: no line is enabled until the interrupt table
/// is loaded and a line is enabled on purpose.
pub open spec fn remap_writes() -> Seq<PortWrite> {
    seq![
        PortWrite { port: PIC1_COMMAND, value: ICW1_INIT },
        PortWrite { port: PIC2_COMMAND, value: ICW1_INIT },
        PortWrite { port: PIC1_DATA, value: PIC1_VECTOR_BASE },
        PortWrite { port: PIC2_DATA, value: PIC2_VECTOR_BASE },
        PortWrite { port: PIC1_DATA, value: ICW3_MASTER_SLAVE_LINES },
        PortWrite { port: PIC2_DATA, value: ICW3_SLAVE_IDENTITY },
        PortWrite { port: PIC1_DATA, value: ICW4_8086 },
        PortWrite { port: PIC2_DATA, value: ICW4_8086 },
        PortWrite { port: PIC1_DATA, value: ALL_LINES_MASKED },
        PortWrite { port: PIC2_DATA, value: ALL_LINES_MASKED },
    ]
}

/// The port writes that remap the master to vectors 0x20..0x28 and the slave
/// to 0x28..0x30, and then set the masks of both so that every line is disabled.
pub fn remap_pic() -> (r: Vec<PortWrite>)
    ensures
        r@ == remap_writes(),
        PIC2_VECTOR_BASE == PIC1_VECTOR_BASE + 8,
        r@[8].port == PIC1_DATA,
        r@[9].port == PIC2_DATA,
        forall|line: u8| line < 8 ==> line_masked(r@[8].value, line) && line_masked(r@[9].value, line),
{
    let mut r: Vec<PortWrite> = Vec::new();
    // ICW1
    r.push(port_write(PIC1_COMMAND, ICW1_INIT));
    r.push(port_write(PIC2_COMMAND, ICW1_INIT));
    // ICW2: vector bases
    r.push(port_write(PIC1_DATA, PIC1_VECTOR_BASE));
    r.push(port_write(PIC2_DATA, PIC2_VECTOR_BASE));
    // ICW3: cascade
    r.push(port_write(PIC1_DATA, ICW3_MASTER_SLAVE_LINES));
    r.push(port_write(PIC2_DATA, ICW3_SLAVE_IDENTITY));
    // ICW4
    r.push(port_write(PIC1_DATA, ICW4_8086));
    r.push(port_write(PIC2_DATA, ICW4_8086));
    // masks: every line disabled
    r.push(port_write(PIC1_DATA, ALL_LINES_MASKED));
    r.push(port_write(PIC2_DATA, ALL_LINES_MASKED));
    assert forall|line: u8| line < 8 implies line_masked(0xFFu8, line) by {
        assert(line < 8 ==> (0xFFu8 >> line) & 1u8 == 1u8) by (bit_vector);
    }
    assert(r@ =~= remap_writes());
    r
}

/// The mask write that enables or disables `irq` (0 to 15), given the current
/// mask of the controller that owns it; the other lines keep their bits.
pub fn set_line_enabled(current_mask: u8, irq: u8, enabled: bool) -> (r: PortWrite)
    requires
        irq < 16,
    ensures
        r.port == (if irq < 8 { PIC1_DATA } else { PIC2_DATA }),
        line_masked(r.value, (irq % 8) as u8) == !enabled,
        forall|line: u8| line < 8 && line != irq % 8 ==> line_masked(r.value, line) == line_masked(current_mask, line),
{
    let port = if irq < 8 {
        PIC1_DATA
    } else {
        PIC2_DATA
    };
    let bit = irq % 8;
    let value = if enabled {
        current_mask & !(1u8 << bit)
    } else {
        current_mask | (1u8 << bit)
    };
    assert(line_masked(value, bit) == !enabled) by (bit_vector)
        requires
            bit < 8,
            value == (if enabled { current_mask & !(1u8 << bit) } else { current_mask | (1u8 << bit) }),
    ;
    assert forall|line: u8| line < 8 && line != bit implies line_masked(value, line) == line_masked(current_mask, line) by {
        assert(((value >> line) & 1u8 == 1u8) == ((current_mask >> line) & 1u8 == 1u8)) by (bit_vector)
            requires
                bit < 8,
                line < 8,
                line != bit,
                value == (if enabled { current_mask & !(1u8 << bit) } else { current_mask | (1u8 << bit) }),
        ;
    }
    port_write(port, value)
}

/// The master-mask write that enables `irq` (0 to 7), given the current master mask.
pub fn enable_irq(current_mask: u8, irq: u8) -> (r: PortWrite)
    requires
        irq < 8,
    ensures
        r.port == PIC1_DATA,
        !line_masked(r.value, irq),
        forall|line: u8| line < 8 && line != irq ==> line_masked(r.value, line) == line_masked(current_mask, line),
{
    set_line_enabled(current_mask, irq, true)
}

/// The master-mask write that leaves the keyboard line as the only enabled one.
pub fn enable_keyboard_irq() -> (r: PortWrite)
    ensures
        r.port == PIC1_DATA,
        forall|line: u8| line < 8 ==> line_masked(r.value, line) == (line != KEYBOARD_IRQ),
{
    let value: u8 = 0xFD;
    assert forall|line: u8| line < 8 implies line_masked(value, line) == (line != KEYBOARD_IRQ) by {
        assert(line < 8 ==> (((0xFDu8 >> line) & 1u8 == 1u8) == (line != 1u8))) by (bit_vector);
    }
    port_write(PIC1_DATA, value)
}

/// The end-of-interrupt write to the master controller. Lines of the slave
/// would need one to the slave as well; the keyboard is on the master.
pub fn send_eoi() -> (r: PortWrite)
    ensures
        r == (PortWrite { port: PIC1_COMMAND, value: EOI }),
{
    port_write(PIC1_COMMAND, EOI)
}

} // verus!
