//! The keyboard input path past the controller: scancodes are decoded by
//! the PS/2 scancode state machine of the keyboard crate, and decoded
//! characters are buffered in a bounded lock-free queue until the console
//! consumes them. Reading the scancode out of the controller port is the
//! surrounding runtime's job.

use vstd::prelude::*;

verus! {

#[verifier::external_type_specification]
#[verifier::external_body]
pub struct ExKeyEvent(pc_keyboard::KeyEvent);

#[verifier::external_type_specification]
#[verifier::external_body]
#[verifier::reject_recursive_types(T)]
pub struct ExArrayQueue<T>(crossbeam_queue::ArrayQueue<T>);

/// The scancode decoder. It holds the keyboard crate's state machine,
/// whose generic type Verus refuses to declare as it stands (the struct
/// carries trait bounds of the outside crate), so the whole holder is
/// opaque and every access goes through the trusted wrappers below.
#[verifier::external_body]
struct KeyDecoder {
    inner: pc_keyboard::PS2Keyboard<
        pc_keyboard::layouts::Us104Key,
        pc_keyboard::ScancodeSet2,
    >,
}

/// Relies on pc_keyboard::PS2Keyboard::new: builds the scancode-set-2
/// decoder for the US-104 layout, ignoring the control-key mapping.
#[verifier::external_body]
fn new_decoder() -> KeyDecoder {
    KeyDecoder {
        inner: pc_keyboard::PS2Keyboard::new(
            pc_keyboard::ScancodeSet2::new(),
            pc_keyboard::layouts::Us104Key,
            pc_keyboard::HandleControl::Ignore,
        ),
    }
}

/// Relies on pc_keyboard::PS2Keyboard::add_byte: advances the decoder's
/// internal state by one scancode byte; a decode error is dropped as the
/// original driver drops it. What comes back depends on the decoder's
/// state, so nothing more is promised of it.
#[verifier::external_body]
fn decoder_add_byte(k: &mut KeyDecoder, byte: u8) -> Option<pc_keyboard::KeyEvent> {
    match k.inner.add_byte(byte) {
        Ok(ev) => ev,
        Err(_) => None,
    }
}

/// Relies on pc_keyboard::PS2Keyboard::process_keyevent: turns a key event
/// into a character under the current modifier state; non-character keys
/// give nothing back.
#[verifier::external_body]
fn decoder_process(k: &mut KeyDecoder, ev: pc_keyboard::KeyEvent) -> Option<char> {
    match k.inner.process_keyevent(ev) {
        Some(pc_keyboard::DecodedKey::Unicode(c)) => Some(c),
        _ => None,
    }
}

/// Relies on crossbeam_queue::ArrayQueue::new, which panics for a zero
/// capacity.
#[verifier::external_body]
fn queue_new(cap: usize) -> crossbeam_queue::ArrayQueue<char>
    requires
        cap >= 1,
{
    crossbeam_queue::ArrayQueue::new(cap)
}

/// Relies on crossbeam_queue::ArrayQueue::push: a full queue rejects the
/// push and hands the value back.
#[verifier::external_body]
fn queue_push(q: &crossbeam_queue::ArrayQueue<char>, c: char) -> (r: Result<(), char>)
    ensures
        r matches Err(v) ==> v == c,
{
    q.push(c)
}

/// Relies on crossbeam_queue::ArrayQueue::pop: hands out a buffered
/// element, or nothing when the queue was observed empty.
#[verifier::external_body]
fn queue_pop(q: &crossbeam_queue::ArrayQueue<char>) -> Option<char> {
    q.pop()
}

/// The keyboard: the scancode decoder and the bounded buffer of decoded
/// characters awaiting the console.
pub struct PcKeyboard {
    decoder: KeyDecoder,
    queue: crossbeam_queue::ArrayQueue<char>,
}

impl PcKeyboard {
    /// A fresh keyboard: an initial decoder and room for 100 characters.
    pub fn new() -> PcKeyboard {
        PcKeyboard { decoder: new_decoder(), queue: queue_new(100) }
    }

    /// Feeds one scancode byte into the decoder; if it completes a
    /// character, the character is buffered and handed back. A character
    /// arriving at a full buffer is dropped.
    pub fn add_scancode(&mut self, scancode: u8) -> Option<char> {
        match decoder_add_byte(&mut self.decoder, scancode) {
            Some(ev) => match decoder_process(&mut self.decoder, ev) {
                Some(c) => match queue_push(&self.queue, c) {
                    Ok(()) => Some(c),
                    Err(_) => None,
                },
                None => None,
            },
            None => None,
        }
    }

    /// The next buffered character, if any.
    pub fn read_char(&mut self) -> Option<char> {
        queue_pop(&self.queue)
    }
}

} // verus!
