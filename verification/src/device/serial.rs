//! A serial port that takes a byte at a time.

use vstd::prelude::*;

verus! {

pub trait SerialMMIO {
    fn write_byte_async(&mut self, ch: u8);

    fn is_done(&self) -> bool;
}

/// The bytes that writing `s` as a line sends: the bytes of `s`, and a line
/// feed.
pub fn line_bytes(s: &Vec<u8>) -> (out: Vec<u8>)
    ensures
        out@ == s@.push(10u8),
{
    let mut out: Vec<u8> = Vec::new();
    let mut i: usize = 0;
    while i < s.len()
        invariant
            i <= s@.len(),
            out@ == s@.take(i as int),
        decreases s@.len() - i,
    {
        out.push(s[i]);
        assert(out@ =~= s@.take(i + 1));
        i = i + 1;
    }
    assert(s@.take(i as int) =~= s@);
    out.push(10);
    out
}

} // verus!
