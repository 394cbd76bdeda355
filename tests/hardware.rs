use mini_console::idt::{
    idt_descriptor, init_idt, register_handler, IdtEntry, InterruptTable,
};
use mini_console::keyboard::{init_keyboard, KEYBOARD_VECTOR};
use mini_console::pic::{enable_irq, enable_keyboard_irq, remap_pic, send_eoi, set_line_enabled};
use mini_console::port::{port_write, PortWrite};

fn pw(port: u16, value: u8) -> PortWrite {
    PortWrite { port, value }
}

#[test]
fn new_table_is_all_missing() {
    let t = InterruptTable::new();
    for v in 0..=255u8 {
        assert_eq!(t.entry(v), IdtEntry::missing());
    }
}

#[test]
fn register_handler_installs_one_entry() {
    let mut t = InterruptTable::new();
    register_handler(&mut t, 0x30, 0x1234_5678_9ABC_DEF0, 0x08, 0x8E00);
    let e = t.entry(0x30);
    assert_eq!(
        e,
        IdtEntry {
            offset_low: 0xDEF0,
            selector: 0x08,
            options: 0x8E00,
            offset_mid: 0x9ABC,
            offset_high: 0x1234_5678,
            reserved: 0,
        }
    );
    for v in 0..=255u8 {
        if v != 0x30 {
            assert_eq!(t.entry(v), IdtEntry::missing());
        }
    }
    init_idt(&mut t);
    assert_eq!(t.entry(0x30), IdtEntry::missing());
}

#[test]
fn set_handler_splits_address() {
    let mut e = IdtEntry::missing();
    e.set_handler(0xFFFF_FFFF_FFFF_FFFF, 0x10, 0x8F00);
    assert_eq!((e.offset_low, e.offset_mid, e.offset_high), (0xFFFF, 0xFFFF, 0xFFFF_FFFF));
    e.set_handler(0x0001_0002_0003, 0x08, 0x8E00);
    assert_eq!((e.offset_low, e.offset_mid, e.offset_high), (3, 2, 1));
}

#[test]
fn keyboard_gate_at_vector_0x21() {
    let mut t = InterruptTable::new();
    init_keyboard(&mut t, 0xABCD);
    let e = t.entry(KEYBOARD_VECTOR);
    assert_eq!(KEYBOARD_VECTOR, 0x21);
    assert_eq!((e.offset_low, e.selector, e.options), (0xABCD, 0x08, 0x8E00));
}

#[test]
fn descriptor_limit() {
    let d = idt_descriptor(0x1000);
    assert_eq!(d.limit, 4095);
    assert_eq!(d.base, 0x1000);
}

#[test]
fn remap_sequence() {
    assert_eq!(
        remap_pic(),
        vec![
            pw(0x20, 0x11),
            pw(0xA0, 0x11),
            pw(0x21, 0x20),
            pw(0xA1, 0x28),
            pw(0x21, 0x04),
            pw(0xA1, 0x02),
            pw(0x21, 0x01),
            pw(0xA1, 0x01),
            pw(0x21, 0xFF),
            pw(0xA1, 0xFF),
        ]
    );
}

#[test]
fn line_masks() {
    assert_eq!(enable_irq(0xFF, 1), pw(0x21, 0xFD));
    assert_eq!(enable_irq(0xFF, 0), pw(0x21, 0xFE));
    assert_eq!(set_line_enabled(0x00, 9, false), pw(0xA1, 0x02));
    assert_eq!(set_line_enabled(0xFF, 15, true), pw(0xA1, 0x7F));
    assert_eq!(enable_keyboard_irq(), pw(0x21, 0xFD));
    assert_eq!(send_eoi(), pw(0x20, 0x20));
    assert_eq!(port_write(0x60, 7), pw(0x60, 7));
}
