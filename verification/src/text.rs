//! Text as it arrives on the wire: bytes to characters, the white space
//! around them, and what keeps a text on one line.

use vstd::prelude::*;
use vstd::utf8::{
    decode_utf8, encode_scalar, encode_utf8, has_width_1_encoding, leading_byte_width_1, valid_utf8,
};

verus! {

/// Whether a character has Unicode's `White_Space` property.
pub open spec fn is_white_space(c: char) -> bool {
    let n = c as u32;
    ||| 0x09 <= n <= 0x0D
    ||| n == 0x20
    ||| n == 0x85
    ||| n == 0xA0
    ||| n == 0x1680
    ||| 0x2000 <= n <= 0x200A
    ||| n == 0x2028
    ||| n == 0x2029
    ||| n == 0x202F
    ||| n == 0x205F
    ||| n == 0x3000
}

/// `s` without the white space it starts with.
pub open spec fn trimmed_start(s: Seq<char>) -> Seq<char>
    decreases s.len(),
{
    if s.len() > 0 && is_white_space(s[0]) {
        trimmed_start(s.drop_first())
    } else {
        s
    }
}

/// `s` without the white space it ends with.
pub open spec fn trimmed_end(s: Seq<char>) -> Seq<char>
    decreases s.len(),
{
    if s.len() > 0 && is_white_space(s.last()) {
        trimmed_end(s.drop_last())
    } else {
        s
    }
}

/// `s` without the white space at either end.
pub open spec fn trimmed(s: Seq<char>) -> Seq<char> {
    trimmed_end(trimmed_start(s))
}

/// The characters that `bytes` encode, or no characters at all where the
/// bytes are not UTF-8.
pub open spec fn lenient_text(bytes: Seq<u8>) -> Seq<char> {
    if valid_utf8(bytes) {
        decode_utf8(bytes)
    } else {
        Seq::empty()
    }
}

/// The byte that ends a frame: the line feed.
pub const LINE_FEED: u8 = 0x0A;

/// Whether the bytes are a whole frame: they end with the line feed. Bytes
/// that a stream gave before it ended, without the line feed, are no frame,
/// and neither is nothing at all.
pub open spec fn is_terminated(frame: Seq<u8>) -> bool {
    frame.len() > 0 && frame.last() == LINE_FEED
}

/// Whether `s` is free of the control characters below U+0020, the line feed
/// among them.
pub open spec fn no_c0_controls(s: Seq<char>) -> bool {
    forall|i: int| 0 <= i < s.len() ==> (#[trigger] s[i]) as u32 >= 0x20
}

/// Whether `s` is exactly one line: it ends with a line feed and holds no
/// control character before it.
pub open spec fn is_one_line(s: Seq<char>) -> bool {
    s.len() >= 1 && s.last() == '\n' && no_c0_controls(s.drop_last())
}

/// Two texts joined are free of control characters exactly when both are.
pub proof fn lemma_no_c0_controls_concat(a: Seq<char>, b: Seq<char>)
    ensures
        no_c0_controls(a + b) <==> no_c0_controls(a) && no_c0_controls(b),
{
    if no_c0_controls(a + b) {
        assert forall|i: int| 0 <= i < a.len() implies (#[trigger] a[i]) as u32 >= 0x20 by {
            assert((a + b)[i] == a[i]);
        }
        assert forall|i: int| 0 <= i < b.len() implies (#[trigger] b[i]) as u32 >= 0x20 by {
            assert((a + b)[a.len() + i] == b[i]);
        }
    }
}

/// A text that is one line is, in bytes, a whole frame.
pub proof fn lemma_one_line_is_terminated(s: Seq<char>)
    requires
        s.len() >= 1,
        s.last() == '\n',
    ensures
        is_terminated(encode_utf8(s)),
    decreases s.len(),
{
    let rest = s.drop_first();
    assert(encode_utf8(s) == encode_scalar(s[0] as u32) + encode_utf8(rest));
    if rest.len() == 0 {
        assert(s[0] == '\n');
        assert(encode_utf8(rest) =~= Seq::<u8>::empty());
        let c: u32 = 0x0A;
        assert(has_width_1_encoding(c) && leading_byte_width_1(c) == 0x0Au8) by (bit_vector)
            requires
                c == 0x0Au32,
        ;
        assert(encode_utf8(s) =~= seq![0x0Au8]);
    } else {
        assert(rest.last() == s.last());
        lemma_one_line_is_terminated(rest);
        assert(encode_utf8(s).last() == encode_utf8(rest).last());
    }
}

/// Says whether the bytes are a whole frame.
pub fn is_whole_frame(frame: &[u8]) -> (whole: bool)
    ensures
        whole == is_terminated(frame@),
{
    frame.len() > 0 && frame[frame.len() - 1] == LINE_FEED
}

/// `str::trim` of std: the slice without leading and trailing white space,
/// white space being the characters with Unicode's `White_Space` property.
pub assume_specification[ str::trim ](s: &str) -> (r: &str)
    ensures
        r@ == trimmed(s@),
;

/// `core::str::from_utf8` of std: the bytes as a string slice exactly when
/// they are well-formed UTF-8, and then the slice holds the characters they
/// encode.
#[verifier::external_body]
fn utf8_str(bytes: &[u8]) -> (r: Option<&str>)
    ensures
        r is Some <==> valid_utf8(bytes@),
        r matches Some(s) ==> s@ == decode_utf8(bytes@),
{
    core::str::from_utf8(bytes).ok()
}

/// Reads a frame as text, as leniently as the protocol asks: bytes that are
/// not UTF-8 read as the empty string.
pub fn frame_text(frame: &[u8]) -> (text: &str)
    ensures
        text@ == lenient_text(frame@),
{
    match utf8_str(frame) {
        Some(s) => s,
        None => {
            proof {
                reveal_strlit("");
            }
            assert(""@ =~= Seq::<char>::empty());
            ""
        },
    }
}

} // verus!
