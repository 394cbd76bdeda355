use vstd::prelude::*;
use vstd::string::StringSliceAdditionalSpecFns;
use crate::idt::{gate_entry, register_handler, InterruptTable};
use crate::pic::{send_eoi, EOI, PIC1_COMMAND};
use crate::port::PortWrite;
use crate::vga_buffer::{
    cell_index, cleared, cursor_port_writes, erase_back, is_printable, lemma_put_bytes_append,
    lemma_write_two_lines, line_feed, put_byte, put_bytes, BUFFER_HEIGHT, BUFFER_WIDTH,
    sanitized, ColorCode, ScreenChar, ScreenModel, Writer, LINE_FEED,
};

verus! {

/// Port from which the keyboard's scancodes are read.
pub const KEYBOARD_DATA_PORT: u16 = 0x60;

/// Vector of the keyboard's line once the controllers are remapped.
pub const KEYBOARD_VECTOR: u8 = 0x21;

/// Kernel code segment selector.
pub const KERNEL_CODE_SELECTOR: u16 = 0x08;

/// Present, ring 0, 64-bit interrupt gate.
pub const INTERRUPT_GATE_OPTIONS: u16 = 0x8E00;

/// Set in the scancode of a key release.
pub const RELEASE_BIT: u8 = 0x80;

pub const SCANCODE_ENTER: u8 = 0x1C;

pub const SCANCODE_BACKSPACE: u8 = 0x0E;

/// Capacity of the line buffer.
pub const INPUT_CAPACITY: usize = 128;

/// The character of a key's make-code, if it has one: lowercase letters,
/// digits and space.
pub open spec fn scancode_char(scancode: u8) -> Option<u8> {
    match scancode {
        0x1E => Some(0x61u8),  // a
        0x30 => Some(0x62u8),  // b
        0x2E => Some(0x63u8),  // c
        0x20 => Some(0x64u8),  // d
        0x12 => Some(0x65u8),  // e
        0x21 => Some(0x66u8),  // f
        0x22 => Some(0x67u8),  // g
        0x23 => Some(0x68u8),  // h
        0x17 => Some(0x69u8),  // i
        0x24 => Some(0x6au8),  // j
        0x25 => Some(0x6bu8),  // k
        0x26 => Some(0x6cu8),  // l
        0x32 => Some(0x6du8),  // m
        0x31 => Some(0x6eu8),  // n
        0x18 => Some(0x6fu8),  // o
        0x19 => Some(0x70u8),  // p
        0x10 => Some(0x71u8),  // q
        0x13 => Some(0x72u8),  // r
        0x1F => Some(0x73u8),  // s
        0x14 => Some(0x74u8),  // t
        0x16 => Some(0x75u8),  // u
        0x2F => Some(0x76u8),  // v
        0x11 => Some(0x77u8),  // w
        0x2D => Some(0x78u8),  // x
        0x15 => Some(0x79u8),  // y
        0x2C => Some(0x7au8),  // z
        0x02 => Some(0x31u8),  // 1
        0x03 => Some(0x32u8),  // 2
        0x04 => Some(0x33u8),  // 3
        0x05 => Some(0x34u8),  // 4
        0x06 => Some(0x35u8),  // 5
        0x07 => Some(0x36u8),  // 6
        0x08 => Some(0x37u8),  // 7
        0x09 => Some(0x38u8),  // 8
        0x0A => Some(0x39u8),  // 9
        0x0B => Some(0x30u8),  // 0
        0x39 => Some(0x20u8),  // space
        _ => None,
    }
}

/// Decodes a make-code. The result depends on the scancode alone, and every
/// character it yields is printable ASCII.
pub fn decode_scancode(scancode: u8) -> (r: Option<u8>)
    ensures
        r == scancode_char(scancode),
        r matches Some(c) ==> is_printable(c),
{
    match scancode {
        0x1E => Some(0x61),
        0x30 => Some(0x62),
        0x2E => Some(0x63),
        0x20 => Some(0x64),
        0x12 => Some(0x65),
        0x21 => Some(0x66),
        0x22 => Some(0x67),
        0x23 => Some(0x68),
        0x17 => Some(0x69),
        0x24 => Some(0x6a),
        0x25 => Some(0x6b),
        0x26 => Some(0x6c),
        0x32 => Some(0x6d),
        0x31 => Some(0x6e),
        0x18 => Some(0x6f),
        0x19 => Some(0x70),
        0x10 => Some(0x71),
        0x13 => Some(0x72),
        0x1F => Some(0x73),
        0x14 => Some(0x74),
        0x16 => Some(0x75),
        0x2F => Some(0x76),
        0x11 => Some(0x77),
        0x2D => Some(0x78),
        0x15 => Some(0x79),
        0x2C => Some(0x7a),
        0x02 => Some(0x31),
        0x03 => Some(0x32),
        0x04 => Some(0x33),
        0x05 => Some(0x34),
        0x06 => Some(0x35),
        0x07 => Some(0x36),
        0x08 => Some(0x37),
        0x09 => Some(0x38),
        0x0A => Some(0x39),
        0x0B => Some(0x30),
        0x39 => Some(0x20),
        _ => None,
    }
}

/// The line being typed: a fixed array and the length of its valid prefix.
pub struct LineBuffer {
    bytes: [u8; INPUT_CAPACITY],
    len: usize,
}

impl LineBuffer {
    pub closed spec fn view(&self) -> Seq<u8> {
        self.bytes@.take(self.len as int)
    }

    pub closed spec fn wf(&self) -> bool {
        self.len <= INPUT_CAPACITY
    }

    pub fn new() -> (r: LineBuffer)
        ensures
            r.wf(),
            r@ == Seq::<u8>::empty(),
    {
        let r = LineBuffer { bytes: [0u8; INPUT_CAPACITY], len: 0 };
        proof {
            assert(r@ =~= Seq::<u8>::empty());
        }
        r
    }

    pub fn len(&self) -> (r: usize)
        requires
            self.wf(),
        ensures
            r == self@.len(),
    {
        self.len
    }

    /// Appends `ch` if there is room and says whether it did; a full buffer
    /// is left exactly as it was.
    pub fn push(&mut self, ch: u8) -> (r: bool)
        requires
            old(self).wf(),
        ensures
            final(self).wf(),
            r == (old(self)@.len() < INPUT_CAPACITY),
            r ==> final(self)@ == old(self)@.push(ch),
            !r ==> final(self)@ == old(self)@,
    {
        if self.len < INPUT_CAPACITY {
            self.bytes[self.len] = ch;
            self.len += 1;
            proof {
                assert(self@ =~= old(self)@.push(ch));
            }
            true
        } else {
            false
        }
    }

    /// Drops the last byte if there is one and says whether it did; an empty
    /// buffer stays empty.
    pub fn pop(&mut self) -> (r: bool)
        requires
            old(self).wf(),
        ensures
            final(self).wf(),
            r == (old(self)@.len() > 0),
            r ==> final(self)@ == old(self)@.drop_last(),
            !r ==> final(self)@ == old(self)@,
    {
        if self.len > 0 {
            self.len -= 1;
            proof {
                assert(self@ =~= old(self)@.drop_last());
            }
            true
        } else {
            false
        }
    }

    /// Empties the buffer; the bytes stay in the array but are no longer part of the line.
    pub fn clear(&mut self)
        ensures
            final(self).wf(),
            final(self)@ == Seq::<u8>::empty(),
    {
        self.len = 0;
        proof {
            assert(self@ =~= Seq::<u8>::empty());
        }
    }

    /// A copy of the line.
    pub fn contents(&self) -> (r: Vec<u8>)
        requires
            self.wf(),
        ensures
            r@ == self@,
    {
        let mut r: Vec<u8> = Vec::new();
        let mut i: usize = 0;
        while i < self.len
            invariant
                self.wf(),
                i <= self.len,
                r@ == self@.take(i as int),
            decreases self.len - i,
        {
            r.push(self.bytes[i]);
            i += 1;
            proof {
                assert(r@ =~= self@.take(i as int));
            }
        }
        proof {
            assert(self@.take(i as int) =~= self@);
        }
        r
    }
}

/// The greeting keyword, "hola".
pub open spec fn greet_word() -> Seq<u8> {
    seq![0x68u8, 0x6f, 0x6c, 0x61]
}

/// The clear keyword, "clear".
pub open spec fn clear_word() -> Seq<u8> {
    seq![0x63u8, 0x6c, 0x65, 0x61, 0x72]
}

/// The echo keyword with its separator, "echo ".
pub open spec fn echo_prefix() -> Seq<u8> {
    seq![0x65u8, 0x63, 0x68, 0x6f, 0x20]
}

pub const GREETING: &'static str = "> Hola dev!";

pub const UNRECOGNIZED: &'static str = "> Comando no reconocido";

pub const PROMPT: &'static str = "> ";

/// What a completed line asks for.
#[derive(Debug, Clone, Copy, PartialEq, Eq, Structural)]
pub enum Command {
    Greet,
    Clear,
    /// Echo the text after the keyword and its separator.
    Echo,
    Unrecognized,
}

pub open spec fn command_of(line: Seq<u8>) -> Command {
    if line == greet_word() {
        Command::Greet
    } else if line == clear_word() {
        Command::Clear
    } else if line.len() >= echo_prefix().len() && line.take(echo_prefix().len() as int) == echo_prefix() {
        Command::Echo
    } else {
        Command::Unrecognized
    }
}

/// Effect on the display of interpreting `line`: the command's output, then the prompt.
pub open spec fn respond(m: ScreenModel, line: Seq<u8>, color: ColorCode) -> ScreenModel {
    let answered = match command_of(line) {
        Command::Greet => line_feed(put_bytes(m, sanitized(GREETING.spec_bytes()), color)),
        Command::Clear => cleared(color),
        Command::Echo => line_feed(
            put_bytes(m, sanitized(line.skip(echo_prefix().len() as int)), color),
        ),
        Command::Unrecognized => line_feed(put_bytes(m, sanitized(UNRECOGNIZED.spec_bytes()), color)),
    };
    put_bytes(answered, sanitized(PROMPT.spec_bytes()), color)
}

fn starts_with(line: &[u8], prefix: &[u8]) -> (r: bool)
    ensures
        r == (prefix@.len() <= line@.len() && line@.take(prefix@.len() as int) == prefix@),
{
    if prefix.len() > line.len() {
        return false;
    }
    let mut i: usize = 0;
    while i < prefix.len()
        invariant
            prefix@.len() <= line@.len(),
            i <= prefix@.len(),
            line@.take(i as int) == prefix@.take(i as int),
        decreases prefix@.len() - i,
    {
        if line[i] != prefix[i] {
            assert(line@.take(prefix@.len() as int)[i as int] != prefix@[i as int]);
            return false;
        }
        i += 1;
        assert(line@.take(i as int) =~= prefix@.take(i as int));
    }
    assert(prefix@.take(i as int) =~= prefix@);
    true
}

/// Classifies a completed line.
pub fn parse_command(line: &[u8]) -> (r: Command)
    ensures
        r == command_of(line@),
{
    let hola: [u8; 4] = [0x68, 0x6f, 0x6c, 0x61];
    let clear: [u8; 5] = [0x63, 0x6c, 0x65, 0x61, 0x72];
    let echo: [u8; 5] = [0x65, 0x63, 0x68, 0x6f, 0x20];
    assert(hola@ =~= greet_word());
    assert(clear@ =~= clear_word());
    assert(echo@ =~= echo_prefix());
    let is_hola = line.len() == 4 && starts_with(line, hola.as_slice());
    let is_clear = line.len() == 5 && starts_with(line, clear.as_slice());
    let is_echo = starts_with(line, echo.as_slice());
    proof {
        if line@ == greet_word() {
            assert(line@.take(4) =~= line@);
        }
        if is_hola {
            assert(line@ =~= line@.take(4));
        }
        if line@ == clear_word() {
            assert(line@.take(5) =~= line@);
        }
        if is_clear {
            assert(line@ =~= line@.take(5));
        }
    }
    if is_hola {
        Command::Greet
    } else if is_clear {
        Command::Clear
    } else if is_echo {
        Command::Echo
    } else {
        Command::Unrecognized
    }
}

/// Interprets a completed line on the display: the greeting, a cleared
/// display, the echoed text, or the unrecognized-command line; then the prompt.
/// Returns the port writes that move the hardware cursor to its final place.
pub fn process_input(line: &[u8], writer: &mut Writer) -> (r: Vec<PortWrite>)
    requires
        old(writer).wf(),
    ensures
        final(writer).wf(),
        final(writer).color() == old(writer).color(),
        final(writer)@ == respond(old(writer)@, line@, old(writer).color()),
        r@ == cursor_port_writes(final(writer)@.offset()),
{
    match parse_command(line) {
        Command::Greet => {
            writer.write_line(GREETING);
        },
        Command::Clear => {
            writer.clear_screen();
        },
        Command::Echo => {
            let mut rest: Vec<u8> = Vec::new();
            let mut i: usize = 5;
            while i < line.len()
                invariant
                    5 <= i <= line@.len(),
                    rest@ == line@.subrange(5, i as int),
                decreases line@.len() - i,
            {
                rest.push(line[i]);
                i += 1;
                assert(rest@ =~= line@.subrange(5, i as int));
            }
            assert(rest@ =~= line@.skip(5));
            writer.write_bytes(rest.as_slice());
            writer.write_byte(LINE_FEED);
        },
        Command::Unrecognized => {
            writer.write_line(UNRECOGNIZED);
        },
    }
    writer.write_string(PROMPT)
}

/// Installs the keyboard's interrupt routine, whose address is `handler_fn`,
/// at the keyboard's vector.
pub fn init_keyboard(idt: &mut InterruptTable, handler_fn: u64)
    ensures
        final(idt)@ == old(idt)@.update(
            KEYBOARD_VECTOR as int,
            gate_entry(handler_fn, KERNEL_CODE_SELECTOR, INTERRUPT_GATE_OPTIONS),
        ),
{
    register_handler(idt, KEYBOARD_VECTOR, handler_fn, KERNEL_CODE_SELECTOR, INTERRUPT_GATE_OPTIONS);
}

pub open spec fn is_release(scancode: u8) -> bool {
    scancode >= RELEASE_BIT
}

/// Effect of one scancode on the line and on the display. Releases, unmapped
/// keys, a backspace on an empty line and keys typed into a full line change
/// nothing.
pub open spec fn key_effect(line: Seq<u8>, m: ScreenModel, scancode: u8, color: ColorCode) -> (
    Seq<u8>,
    ScreenModel,
) {
    if is_release(scancode) {
        (line, m)
    } else if scancode == SCANCODE_ENTER {
        (Seq::empty(), respond(put_byte(m, LINE_FEED, color), line, color))
    } else if scancode == SCANCODE_BACKSPACE {
        if line.len() > 0 {
            (line.drop_last(), erase_back(m, color))
        } else {
            (line, m)
        }
    } else {
        match scancode_char(scancode) {
            Some(ch) => if line.len() < INPUT_CAPACITY {
                (line.push(ch), put_byte(m, ch, color))
            } else {
                (line, m)
            },
            None => (line, m),
        }
    }
}

/// Whether a scancode is ignored: a release, a backspace on an empty line, a
/// key with no character, or a key typed into a full line.
pub open spec fn key_ignored(line: Seq<u8>, scancode: u8) -> bool {
    if is_release(scancode) {
        true
    } else if scancode == SCANCODE_ENTER {
        false
    } else if scancode == SCANCODE_BACKSPACE {
        line.len() == 0
    } else {
        scancode_char(scancode) is None || line.len() >= INPUT_CAPACITY
    }
}

/// The port writes that follow a scancode typed on `line`: the hardware
/// cursor moved to the cursor of `m`, the display after the key, unless the
/// key is ignored; then the end of interrupt.
pub open spec fn key_port_writes(line: Seq<u8>, scancode: u8, m: ScreenModel) -> Seq<PortWrite> {
    let eoi = seq![PortWrite { port: PIC1_COMMAND, value: EOI }];
    if key_ignored(line, scancode) {
        eoi
    } else {
        cursor_port_writes(m.offset()) + eoi
    }
}

/// The keyboard's state: the line being typed.
pub struct KeyboardDriver {
    input: LineBuffer,
}

impl KeyboardDriver {
    pub closed spec fn view(&self) -> Seq<u8> {
        self.input@
    }

    /// The line fits its buffer and holds only characters of the scancode table.
    pub closed spec fn wf(&self) -> bool {
        &&& self.input.wf()
        &&& forall|i: int| 0 <= i < self.input@.len() ==> is_printable(#[trigger] self.input@[i])
    }

    pub fn new() -> (r: KeyboardDriver)
        ensures
            r.wf(),
            r@ == Seq::<u8>::empty(),
    {
        KeyboardDriver { input: LineBuffer::new() }
    }

    /// A copy of the line typed so far.
    pub fn line(&self) -> (r: Vec<u8>)
        requires
            self.wf(),
        ensures
            r@ == self@,
    {
        self.input.contents()
    }

    /// Handles one scancode read from the keyboard: Enter echoes a line feed,
    /// interprets the line and empties it; Backspace drops the last character
    /// and erases it on the display; a mapped key is appended and echoed if
    /// the line has room. Returns the port writes to perform afterwards.
    pub fn handle_scancode(&mut self, scancode: u8, writer: &mut Writer) -> (r: Vec<PortWrite>)
        requires
            old(self).wf(),
            old(writer).wf(),
        ensures
            final(self).wf(),
            final(writer).wf(),
            final(writer).color() == old(writer).color(),
            (final(self)@, final(writer)@) == key_effect(old(self)@, old(writer)@, scancode, old(writer).color()),
            r@ == key_port_writes(old(self)@, scancode, final(writer)@),
    {
        let release = scancode & RELEASE_BIT != 0;
        assert(release == (scancode >= 0x80u8)) by (bit_vector)
            requires
                release == (scancode & 0x80u8 != 0u8),
        ;
        // the cursor writes, if the display changed
        let mut r: Vec<PortWrite> = Vec::new();
        if release {
            // nothing to do for a release but to acknowledge it
        } else if scancode == SCANCODE_ENTER {
            writer.write_byte(LINE_FEED);
            let line = self.input.contents();
            r = process_input(line.as_slice(), writer);
            self.input.clear();
        } else if scancode == SCANCODE_BACKSPACE {
            if self.input.pop() {
                r = writer.backspace_on_vga();
            }
        } else {
            match decode_scancode(scancode) {
                Some(ch) => {
                    if self.input.push(ch) {
                        r = writer.write_byte(ch);
                    }
                },
                None => {},
            }
        }
        r.push(send_eoi());
        assert(r@ =~= key_port_writes(old(self)@, scancode, writer@));
        r
    }
}

/// An ignored key changes neither the line nor the display, and only the end
/// of interrupt follows it.
pub proof fn lemma_ignored_keys_change_nothing(line: Seq<u8>, m: ScreenModel, scancode: u8, color: ColorCode)
    requires
        key_ignored(line, scancode),
    ensures
        key_effect(line, m, scancode, color) == (line, m),
        key_port_writes(line, scancode, m) == seq![PortWrite { port: PIC1_COMMAND, value: EOI }],
{
}

/// Backspace on an empty line changes nothing: neither the line nor the
/// display, and only the end of interrupt follows it.
pub proof fn lemma_backspace_on_empty_line(m: ScreenModel, color: ColorCode)
    ensures
        key_effect(Seq::empty(), m, SCANCODE_BACKSPACE, color) == (Seq::<u8>::empty(), m),
        key_port_writes(Seq::empty(), SCANCODE_BACKSPACE, m) == seq![PortWrite { port: PIC1_COMMAND, value: EOI }],
{
}

/// A key typed into a full line changes neither the line nor the display.
pub proof fn lemma_full_line_ignores_keys(line: Seq<u8>, m: ScreenModel, scancode: u8, color: ColorCode)
    requires
        line.len() == INPUT_CAPACITY,
        scancode_char(scancode) is Some,
    ensures
        key_effect(line, m, scancode, color) == (line, m),
{
}

/// A mapped key typed into a line with room appends its character and draws
/// it at the cursor; what was typed before is kept.
pub proof fn lemma_key_appends(line: Seq<u8>, m: ScreenModel, scancode: u8, color: ColorCode)
    requires
        line.len() < INPUT_CAPACITY,
        scancode_char(scancode) is Some,
    ensures
        key_effect(line, m, scancode, color).0 == line.push(scancode_char(scancode).unwrap()),
        key_effect(line, m, scancode, color).0.take(line.len() as int) == line,
{
    assert(line.push(scancode_char(scancode).unwrap()).take(line.len() as int) =~= line);
}

/// Each keyword line is recognized as its command; any line that starts with
/// the echo keyword and its separator is an echo of the rest.
pub proof fn lemma_command_words(rest: Seq<u8>)
    ensures
        command_of(greet_word()) == Command::Greet,
        command_of(clear_word()) == Command::Clear,
        command_of(echo_prefix() + rest) == Command::Echo,
        (echo_prefix() + rest).skip(echo_prefix().len() as int) == rest,
{
    let line = echo_prefix() + rest;
    assert(line.take(5) =~= echo_prefix());
    assert(line.skip(5) =~= rest);
    assert(line.len() != greet_word().len() || line != greet_word());
    if line == clear_word() {
        assert(line[4] == clear_word()[4]);
    }
}

/// Whatever the display showed, typing the clear keyword and Enter empties the
/// line and leaves every cell blank but the prompt's '>' at the top left, with
/// the cursor just after the prompt.
pub proof fn lemma_clear_resets_display(m: ScreenModel, color: ColorCode)
    ensures
        key_effect(clear_word(), m, SCANCODE_ENTER, color).0 == Seq::<u8>::empty(),
        key_effect(clear_word(), m, SCANCODE_ENTER, color).1 == (ScreenModel {
            cells: cleared(color).cells.update(0, ScreenChar { ascii_character: 0x3e, color_code: color }),
            row: 0,
            col: 2,
        }),
{
    lemma_command_words(Seq::empty());
    lemma_prompt_bytes();
    let p = seq![0x3eu8, 0x20u8];
    let c = cleared(color);
    assert(p.drop_last() =~= seq![0x3eu8]);
    assert(seq![0x3eu8].drop_last() =~= Seq::<u8>::empty());
    let r1 = put_byte(c, 0x3e, color);
    assert(put_bytes(c, Seq::<u8>::empty(), color) == c);
    assert(seq![0x3eu8].last() == 0x3eu8);
    assert(put_bytes(c, seq![0x3eu8], color) == r1);
    let r = put_byte(r1, 0x20, color);
    assert(put_bytes(c, p, color) == r);
    assert(r.cells =~= c.cells.update(0, ScreenChar { ascii_character: 0x3e, color_code: color }));
}

/// The prompt's bytes: '>' and a space.
pub proof fn lemma_prompt_bytes()
    ensures
        PROMPT.spec_bytes() == seq![0x3eu8, 0x20u8],
        sanitized(PROMPT.spec_bytes()) == seq![0x3eu8, 0x20u8],
{
    reveal_strlit("> ");
    vstd::string::is_ascii_spec_bytes(PROMPT);
    assert(PROMPT.spec_bytes() =~= seq![0x3eu8, 0x20u8]);
    assert(sanitized(PROMPT.spec_bytes()) =~= seq![0x3eu8, 0x20u8]);
}

/// The display shows `reply` at the start of the row below `m`'s cursor, and
/// the prompt at the start of the row after it, with the cursor just after
/// the prompt.
pub open spec fn shows_reply(r: ScreenModel, m: ScreenModel, reply: Seq<u8>, color: ColorCode) -> bool {
    &&& r.row == m.row + 2
    &&& r.col == 2
    &&& forall|i: int|
        0 <= i < reply.len() ==> #[trigger] r.cells[cell_index(m.row + 1, i)]
            == (ScreenChar { ascii_character: reply[i], color_code: color })
    &&& r.cells[cell_index(m.row + 2, 0)] == (ScreenChar { ascii_character: 0x3e, color_code: color })
    &&& r.cells[cell_index(m.row + 2, 1)] == (ScreenChar { ascii_character: 0x20, color_code: color })
}

proof fn lemma_reply_then_prompt(m: ScreenModel, reply: Seq<u8>, color: ColorCode)
    requires
        m.wf(),
        m.row < BUFFER_HEIGHT - 2,
        reply.len() < BUFFER_WIDTH,
        forall|i: int| 0 <= i < reply.len() ==> is_printable(#[trigger] reply[i]),
    ensures
        shows_reply(
            put_bytes(
                line_feed(put_bytes(put_byte(m, LINE_FEED, color), sanitized(reply), color)),
                sanitized(PROMPT.spec_bytes()),
                color,
            ),
            m,
            reply,
            color,
        ),
{
    lemma_prompt_bytes();
    let prompt = seq![0x3eu8, 0x20u8];
    let m1 = put_byte(m, LINE_FEED, color);
    let with_lf = reply + seq![LINE_FEED];
    lemma_write_two_lines(m1, reply, prompt, color);
    assert(sanitized(with_lf + prompt) =~= sanitized(with_lf) + sanitized(prompt));
    lemma_put_bytes_append(m1, sanitized(with_lf), sanitized(prompt), color);
    assert(sanitized(with_lf).drop_last() =~= sanitized(reply));
    assert(put_bytes(m1, sanitized(with_lf), color) == line_feed(put_bytes(m1, sanitized(reply), color)));
    let r = put_bytes(m1, sanitized(with_lf + prompt), color);
    assert(r.cells[cell_index(m1.row + 1, 0)] == (ScreenChar { ascii_character: prompt[0], color_code: color }));
    assert(r.cells[cell_index(m1.row + 1, 1)] == (ScreenChar { ascii_character: prompt[1], color_code: color }));
    assert forall|i: int| 0 <= i < reply.len() implies #[trigger] r.cells[cell_index(m.row + 1, i)]
        == (ScreenChar { ascii_character: reply[i], color_code: color }) by {
        assert(cell_index(m.row + 1, i) == m1.offset() + i);
    }
}

/// The greeting's bytes are printable, and fit on a row.
pub proof fn lemma_greeting_printable()
    ensures
        GREETING.spec_bytes().len() == 11,
        forall|i: int| 0 <= i < GREETING.spec_bytes().len() ==> is_printable(#[trigger] GREETING.spec_bytes()[i]),
{
    reveal_strlit("> Hola dev!");
    vstd::string::is_ascii_spec_bytes(GREETING);
}

/// The unrecognized-command line's bytes are printable, and fit on a row.
pub proof fn lemma_unrecognized_printable()
    ensures
        UNRECOGNIZED.spec_bytes().len() == 23,
        forall|i: int| 0 <= i < UNRECOGNIZED.spec_bytes().len() ==> is_printable(#[trigger] UNRECOGNIZED.spec_bytes()[i]),
{
    reveal_strlit("> Comando no reconocido");
    vstd::string::is_ascii_spec_bytes(UNRECOGNIZED);
}

/// Typing the greeting keyword and Enter shows the greeting on the next row
/// and the prompt on the row after it, when the display has those two rows left.
pub proof fn lemma_greeting_reply(m: ScreenModel, color: ColorCode)
    requires
        m.wf(),
        m.row < BUFFER_HEIGHT - 2,
    ensures
        key_effect(greet_word(), m, SCANCODE_ENTER, color).0 == Seq::<u8>::empty(),
        shows_reply(key_effect(greet_word(), m, SCANCODE_ENTER, color).1, m, GREETING.spec_bytes(), color),
{
    lemma_command_words(Seq::empty());
    lemma_greeting_printable();
    lemma_reply_then_prompt(m, GREETING.spec_bytes(), color);
}

/// Typing the echo keyword, a space and some text, then Enter, shows the text
/// on the next row and the prompt on the row after it, when the text fits on
/// a row and the display has those two rows left.
pub proof fn lemma_echo_reply(m: ScreenModel, text: Seq<u8>, color: ColorCode)
    requires
        m.wf(),
        m.row < BUFFER_HEIGHT - 2,
        text.len() < BUFFER_WIDTH,
        forall|i: int| 0 <= i < text.len() ==> is_printable(#[trigger] text[i]),
    ensures
        key_effect(echo_prefix() + text, m, SCANCODE_ENTER, color).0 == Seq::<u8>::empty(),
        shows_reply(key_effect(echo_prefix() + text, m, SCANCODE_ENTER, color).1, m, text, color),
{
    lemma_command_words(text);
    lemma_reply_then_prompt(m, text, color);
}

/// Typing any other line and Enter shows the unrecognized-command line on the
/// next row and the prompt on the row after it, when the display has those
/// two rows left.
pub proof fn lemma_unrecognized_reply(m: ScreenModel, line: Seq<u8>, color: ColorCode)
    requires
        m.wf(),
        m.row < BUFFER_HEIGHT - 2,
        command_of(line) == Command::Unrecognized,
    ensures
        key_effect(line, m, SCANCODE_ENTER, color).0 == Seq::<u8>::empty(),
        shows_reply(key_effect(line, m, SCANCODE_ENTER, color).1, m, UNRECOGNIZED.spec_bytes(), color),
{
    lemma_unrecognized_printable();
    lemma_reply_then_prompt(m, UNRECOGNIZED.spec_bytes(), color);
}

} // verus!
