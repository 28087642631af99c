use vstd::prelude::*;

verus! {

/// What the console shows in answer to one key of line input.
#[derive(Clone, Copy, Debug, PartialEq, Eq)]
pub enum Echo {
    /// Nothing is shown.
    Nothing,
    /// The line ends: a newline is shown.
    Newline,
    /// The last character is rubbed out: backspace, space, backspace.
    Erase,
    /// The character typed is shown.
    Show(char),
}

/// Carriage return and line feed end a line.
pub open spec fn is_line_end(c: char) -> bool {
    c == '\r' || c == '\n'
}

/// Backspace and DEL rub out the last character.
pub open spec fn is_rubout(c: char) -> bool {
    c == '\x08' || c == '\x7F'
}

/// The byte that a typed character is stored as: the low byte of its code point.
pub open spec fn key_byte(c: char) -> u8 {
    (c as u32 % 256) as u8
}

/// Whether a line of `len` bytes fills a buffer of `cap` bytes, which holds at most
/// `cap - 1` of them.
pub fn line_full(cap: usize, len: usize) -> (full: bool)
    requires
        cap >= 1,
    ensures
        full == (len >= cap - 1),
{
    len >= cap - 1
}

/// Edits the line `buf[..len]` by one typed key `c`: a line end finishes it, a rubout
/// removes the last byte (if any), a key whose byte is printable ASCII is appended,
/// and any other key is ignored. Returns the new length, the echo, and whether the
/// line is finished.
pub fn edit_line(buf: &mut Vec<u8>, len: usize, c: char) -> (r: (usize, Echo, bool))
    requires
        len + 1 < old(buf)@.len(),
    ensures
        is_line_end(c) ==> r == (len, Echo::Newline, true) && final(buf)@ == old(buf)@,
        !is_line_end(c) && is_rubout(c) ==> final(buf)@ == old(buf)@ && r == (if len > 0 {
            ((len - 1) as usize, Echo::Erase, false)
        } else {
            (len, Echo::Nothing, false)
        }),
        !is_line_end(c) && !is_rubout(c) && 32 <= key_byte(c) <= 126 ==> final(buf)@ == old(
            buf,
        )@.update(len as int, key_byte(c)) && r == ((len + 1) as usize, Echo::Show(c), false),
        !is_line_end(c) && !is_rubout(c) && !(32 <= key_byte(c) <= 126) ==> final(buf)@ == old(
            buf,
        )@ && r == (len, Echo::Nothing, false),
{
    if c == '\r' || c == '\n' {
        return (len, Echo::Newline, true);
    }
    if c == '\x08' || c == '\x7F' {
        if len > 0 {
            return (len - 1, Echo::Erase, false);
        }
        return (len, Echo::Nothing, false);
    }
    let cap = buf.len();
    assert(len + 1 < cap);
    let code = c as u32;
    let b = (code % 256) as u8;
    if b >= 32 && b <= 126 {
        buf.set(len, b);
        (len + 1, Echo::Show(c), false)
    } else {
        (len, Echo::Nothing, false)
    }
}

} // verus!
