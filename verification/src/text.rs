//! Text that devices and disks carry.
use vstd::prelude::*;

verus! {

/// [`String::push`] appends one character.
pub assume_specification[ std::string::String::push ](s: &mut std::string::String, c: char)
    ensures
        final(s)@ == old(s)@.push(c),
;

/// The characters that [`String::from_utf8_lossy`] makes of bytes.
pub uninterp spec fn lossy_utf8(bytes: Seq<u8>) -> Seq<char>;

/// [`String::from_utf8_lossy`]: bytes that are UTF-8 become the characters that they
/// encode; what others become depends on the bytes alone and is not said here.
#[verifier::external_body]
pub(crate) fn decode_lossy(bytes: &[u8]) -> (r: String)
    ensures
        r@ == lossy_utf8(bytes@),
        vstd::utf8::valid_utf8(bytes@) ==> r@ == vstd::utf8::decode_utf8(bytes@),
{
    String::from_utf8_lossy(bytes).into_owned()
}

/// The characters of `s` without the NUL characters.
pub open spec fn without_nuls(s: Seq<char>) -> Seq<char> {
    s.filter(|c: char| c != '\0')
}

/// `s` without its NUL characters.
pub fn strip_nuls(s: &str) -> (r: String)
    ensures
        r@ == without_nuls(s@),
{
    let mut out = String::new();
    let ghost all = s@;
    proof {
        reveal(Seq::filter);
        assert(all.take(0) =~= Seq::empty());
    }
    for c in it: s.chars()
        invariant
            it.seq() == all,
            out@ == without_nuls(all.take(it.index() as int)),
    {
        proof {
            reveal(Seq::filter);
            let i = it.index() as int;
            assert(all.take(i + 1).drop_last() =~= all.take(i));
            assert(all.take(i + 1).last() == all[i]);
        }
        if c != '\0' {
            out.push(c);
        }
    }
    assert(all.take(all.len() as int) =~= all);
    out
}

/// The text of a string descriptor: what follows its first two bytes, decoded, without
/// the NUL characters.
pub open spec fn descriptor_text(buf: Seq<u8>) -> Seq<char> {
    let body = buf.skip(2);
    without_nuls(
        if vstd::utf8::valid_utf8(body) {
            vstd::utf8::decode_utf8(body)
        } else {
            lossy_utf8(body)
        },
    )
}

/// The text of a string descriptor.
pub fn string_from_descriptor(buf: &[u8]) -> (r: String)
    requires
        buf@.len() >= 2,
    ensures
        r@ == descriptor_text(buf@),
        r@ == without_nuls(lossy_utf8(buf@.skip(2))),
        vstd::utf8::valid_utf8(buf@.skip(2)) ==> r@ == without_nuls(
            vstd::utf8::decode_utf8(buf@.skip(2)),
        ),
{
    let body = vstd::slice::slice_subrange(buf, 2, buf.len());
    assert(body@ =~= buf@.skip(2));
    let s = decode_lossy(body);
    strip_nuls(s.as_str())
}

/// ASCII bytes as characters.
pub open spec fn ascii_chars(bytes: Seq<u8>) -> Seq<char> {
    Seq::new(bytes.len(), |i: int| bytes[i] as char)
}

/// Whether all bytes are ASCII.
pub open spec fn all_ascii(bytes: Seq<u8>) -> bool {
    forall|i: int| 0 <= i < bytes.len() ==> (#[trigger] bytes[i]) < 0x80
}

/// The text of a string descriptor whose characters are all ASCII is those characters:
/// the zero bytes between them go.
pub proof fn law_ascii_string_descriptor(buf: Seq<u8>)
    requires
        buf.len() >= 2,
        all_ascii(buf.skip(2)),
    ensures
        vstd::utf8::valid_utf8(buf.skip(2)),
        without_nuls(vstd::utf8::decode_utf8(buf.skip(2))) == without_nuls(
            ascii_chars(buf.skip(2)),
        ),
{
    let bytes = buf.skip(2);
    let chars = ascii_chars(bytes);
    assert(vstd::utf8::is_ascii_chars(chars)) by {
        assert forall|i: int| 0 <= i < chars.len() implies '\0' <= #[trigger] chars[i]
            <= '\u{7f}' by {
            assert(bytes[i] < 0x80);
        }
    }
    vstd::utf8::is_ascii_chars_encode_utf8(chars);
    let encoded = vstd::utf8::encode_utf8(chars);
    assert forall|i: int| 0 <= i < bytes.len() implies encoded[i] == #[trigger] bytes[i] by {
        assert(bytes[i] < 0x80);
        assert(chars[i] as u8 == encoded[i]);
    }
    assert(encoded =~= bytes);
    vstd::utf8::encode_utf8_valid_utf8(chars);
    vstd::utf8::encode_utf8_decode_utf8(chars);
}

/// A string descriptor as a device sends it, in a buffer with `rest` bytes to spare: its length
/// and kind, then two bytes for each character, the character itself first.
pub open spec fn string_descriptor(text: Seq<char>, rest: nat) -> Seq<u8> {
    seq![(2 + 2 * text.len()) as u8, 3u8] + spaced(text) + Seq::new(rest, |i: int| 0u8)
}

/// The characters as bytes, a zero after each.
pub open spec fn spaced(text: Seq<char>) -> Seq<u8>
    decreases text.len(),
{
    if text.len() == 0 {
        seq![]
    } else {
        spaced(text.drop_last()).push(text.last() as u8).push(0u8)
    }
}

/// One character more at the end is kept unless it is NUL.
proof fn lemma_push_kept(s: Seq<char>, c: char)
    ensures
        without_nuls(s.push(c)) == if c == '\0' {
            without_nuls(s)
        } else {
            without_nuls(s).push(c)
        },
{
    reveal(Seq::filter);
    assert(s.push(c).drop_last() =~= s);
}

proof fn lemma_spaced(text: Seq<char>)
    requires
        forall|i: int| 0 <= i < text.len() ==> 1 <= (#[trigger] text[i]) as int <= 0x7f,
    ensures
        all_ascii(spaced(text)),
        without_nuls(ascii_chars(spaced(text))) == text,
    decreases text.len(),
{
    if text.len() == 0 {
        reveal(Seq::filter);
        assert(ascii_chars(spaced(text)) =~= seq![]);
        assert(text =~= seq![]);
    } else {
        let head = text.drop_last();
        let c = text.last();
        assert(c == text[text.len() - 1]);
        lemma_spaced(head);
        let chars = ascii_chars(spaced(head));
        assert(ascii_chars(spaced(text)) =~= chars.push(c).push('\0'));
        lemma_push_kept(chars, c);
        lemma_push_kept(chars.push(c), '\0');
        assert(head.push(c) =~= text);
    }
}

proof fn lemma_zeroes(s: Seq<char>, n: nat)
    ensures
        without_nuls(s + Seq::new(n, |i: int| '\0')) == without_nuls(s),
    decreases n,
{
    let all = s + Seq::new(n, |i: int| '\0');
    if n == 0 {
        assert(all =~= s);
    } else {
        let before = s + Seq::new((n - 1) as nat, |i: int| '\0');
        assert(all =~= before.push('\0'));
        lemma_push_kept(before, '\0');
        lemma_zeroes(s, (n - 1) as nat);
    }
}

/// A device's ASCII string comes out as it went in, however much room the buffer has left.
pub proof fn law_string_descriptor_round_trip(text: Seq<char>, rest: nat)
    requires
        forall|i: int| 0 <= i < text.len() ==> 1 <= (#[trigger] text[i]) as int <= 0x7f,
    ensures
        descriptor_text(string_descriptor(text, rest)) == text,
{
    let buf = string_descriptor(text, rest);
    let zeroes = Seq::new(rest, |i: int| 0u8);
    assert(buf.skip(2) =~= spaced(text) + zeroes);
    lemma_spaced(text);
    assert(all_ascii(buf.skip(2))) by {
        assert forall|i: int| 0 <= i < buf.skip(2).len() implies (#[trigger] buf.skip(2)[i])
            < 0x80 by {
            if i < spaced(text).len() {
                assert(buf.skip(2)[i] == spaced(text)[i]);
            }
        }
    }
    law_ascii_string_descriptor(buf);
    let chars = ascii_chars(spaced(text));
    assert(ascii_chars(buf.skip(2)) =~= chars + Seq::new(rest, |i: int| '\0'));
    lemma_zeroes(chars, rest);
}

/// The text of a descriptor holds no NUL, whatever the device sent.
pub proof fn law_no_nuls_are_left(s: Seq<char>, buf: Seq<u8>)
    ensures
        forall|i: int|
            0 <= i < without_nuls(s).len() ==> (#[trigger] without_nuls(s)[i]) as int != 0,
        !s.contains('\0') ==> without_nuls(s) == s,
        forall|i: int|
            0 <= i < descriptor_text(buf).len() ==> (#[trigger] descriptor_text(buf)[i]) as int
                != 0,
{
    lemma_none_left(s);
    let body = buf.skip(2);
    lemma_none_left(
        if vstd::utf8::valid_utf8(body) {
            vstd::utf8::decode_utf8(body)
        } else {
            lossy_utf8(body)
        },
    );
}

proof fn lemma_none_left(s: Seq<char>)
    ensures
        forall|i: int|
            0 <= i < without_nuls(s).len() ==> (#[trigger] without_nuls(s)[i]) as int != 0,
        !s.contains('\0') ==> without_nuls(s) == s,
    decreases s.len(),
{
    reveal(Seq::filter);
    if s.len() > 0 {
        let head = s.drop_last();
        lemma_none_left(head);
        assert(head.push(s.last()) =~= s);
        lemma_push_kept(head, s.last());
        assert(s.contains(s.last())) by {
            assert(s[s.len() - 1] == s.last());
        }
        if !s.contains('\0') {
            assert(!head.contains('\0')) by {
                if head.contains('\0') {
                    let k = choose|k: int| 0 <= k < head.len() && head[k] == '\0';
                    assert(s[k] == '\0');
                }
            }
        }
    } else {
        assert(without_nuls(s) =~= s);
    }
}

/// Leaving NULs out is done character by character: what is left of two texts together is what is
/// left of each, and a character is left unless it is NUL.
pub proof fn law_only_nuls_go(a: Seq<char>, b: Seq<char>, c: char)
    ensures
        without_nuls(a + b) == without_nuls(a) + without_nuls(b),
        without_nuls(seq![c]) == if c as int == 0 {
            seq![]
        } else {
            seq![c]
        },
    decreases b.len(),
{
    let empty = Seq::<char>::empty();
    assert(empty.push(c) =~= seq![c]);
    lemma_none_left(empty);
    assert(without_nuls(empty) =~= empty);
    lemma_push_kept(empty, c);
    if b.len() == 0 {
        assert(a + b =~= a);
        assert(b =~= empty);
    } else {
        let head = b.drop_last();
        law_only_nuls_go(a, head, c);
        assert(head.push(b.last()) =~= b);
        assert((a + head).push(b.last()) =~= a + b);
        lemma_push_kept(a + head, b.last());
        lemma_push_kept(head, b.last());
        assert(without_nuls(a + b) =~= without_nuls(a) + without_nuls(b));
    }
}

} // verus!
