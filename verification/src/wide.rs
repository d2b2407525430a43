//! UTF-16 encoding of text for Win32 wide-string buffers.
use vstd::prelude::*;

verus! {

/// UTF-16 code units of one character: one unit below U+10000, otherwise a
/// high and a low surrogate.
pub open spec fn utf16_char(c: char) -> Seq<u16> {
    let v = c as u32;
    if v < 0x10000 {
        seq![v as u16]
    } else {
        let w = (v - 0x10000) as u32;
        seq![(0xD800 + w / 1024) as u16, (0xDC00 + w % 1024) as u16]
    }
}

/// UTF-16 code units of a character sequence.
pub open spec fn utf16_seq(s: Seq<char>) -> Seq<u16>
    decreases s.len(),
{
    if s.len() == 0 {
        Seq::empty()
    } else {
        utf16_seq(s.drop_last()) + utf16_char(s.last())
    }
}

/// UTF-16 code units of `text` followed by a terminating zero unit.
pub open spec fn wide_spec(text: Seq<char>) -> Seq<u16> {
    utf16_seq(text).push(0)
}

/// Appends the UTF-16 code units of `c` to `out`.
fn push_utf16(out: &mut Vec<u16>, c: char)
    ensures
        final(out)@ == old(out)@ + utf16_char(c),
{
    let v = c as u32;
    if v < 0x10000 {
        out.push(v as u16);
        assert(old(out)@.push(v as u16) =~= old(out)@ + utf16_char(c));
    } else {
        let w: u32 = v - 0x10000;
        assert(v <= 0x10FFFF) by {
            vstd::utf8::char_is_scalar(c);
        }
        out.push((0xD800 + w / 1024) as u16);
        out.push((0xDC00 + w % 1024) as u16);
        assert(old(out)@.push((0xD800 + w / 1024) as u16).push((0xDC00 + w % 1024) as u16)
            =~= old(out)@ + utf16_char(c));
    }
}

/// Encodes `text` as a NUL-terminated UTF-16 buffer for Win32 APIs.
pub fn encode_wide(text: &str) -> (r: Vec<u16>)
    ensures
        r@ == wide_spec(text@),
{
    let n = text.unicode_len();
    let mut out: Vec<u16> = Vec::new();
    let mut i: usize = 0;
    while i < n
        invariant
            n == text@.len(),
            i <= n,
            out@ == utf16_seq(text@.subrange(0, i as int)),
        decreases n - i,
    {
        let c = text.get_char(i);
        push_utf16(&mut out, c);
        proof {
            let next = text@.subrange(0, i + 1);
            assert(next.drop_last() =~= text@.subrange(0, i as int));
            assert(next.last() == c);
        }
        i = i + 1;
    }
    assert(text@.subrange(0, n as int) =~= text@);
    out.push(0);
    out
}

/// Copies the NUL-terminated UTF-16 encoding of `text` into the front of
/// `buffer`, truncating it to the buffer's length; the rest of the buffer is
/// left as it was.
pub fn write_wide_string<const N: usize>(buffer: &mut [u16; N], text: &str)
    ensures
        forall|i: int|
            0 <= i < N ==> #[trigger] final(buffer)@[i] == if i < wide_spec(text@).len() {
                wide_spec(text@)[i]
            } else {
                old(buffer)@[i]
            },
{
    let encoded = encode_wide(text);
    let mut i: usize = 0;
    while i < N && i < encoded.len()
        invariant
            encoded@ == wide_spec(text@),
            i <= N,
            i <= encoded@.len(),
            buffer@.len() == N,
            forall|j: int|
                0 <= j < N ==> #[trigger] buffer@[j] == if j < i {
                    encoded@[j]
                } else {
                    old(buffer)@[j]
                },
        decreases N - i,
    {
        buffer[i] = encoded[i];
        i = i + 1;
    }
}

} // verus!
