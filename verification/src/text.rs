//! ASCII text held as bytes and as strings.

use vstd::prelude::*;

verus! {

/// The characters of a text given by its ASCII codes, one character for
/// each code.
pub open spec fn ascii_text(codes: Seq<u8>) -> Seq<char> {
    Seq::new(codes.len(), |i: int| codes[i] as char)
}

/// `String::push` appends the one character to the end of the string.
pub assume_specification[ String::push ](text: &mut String, c: char)
    ensures
        final(text)@ == old(text)@.push(c),
;

/// The text of two runs of codes is the text of the first followed by the
/// text of the second.
pub proof fn lemma_ascii_text_concat(a: Seq<u8>, b: Seq<u8>)
    ensures
        ascii_text(a + b) == ascii_text(a) + ascii_text(b),
{
    assert(ascii_text(a + b) =~= ascii_text(a) + ascii_text(b));
}

/// Two runs of ASCII codes with the same text are the same run.
pub proof fn lemma_ascii_text_injective(a: Seq<u8>, b: Seq<u8>)
    requires
        ascii_text(a) == ascii_text(b),
    ensures
        a == b,
{
    assert(a.len() == ascii_text(a).len());
    assert(b.len() == ascii_text(b).len());
    assert forall|i: int| 0 <= i < a.len() implies a[i] == b[i] by {
        assert(ascii_text(a)[i] == a[i] as char);
        assert(ascii_text(b)[i] == b[i] as char);
    }
    assert(a =~= b);
}

/// Appends the text of `codes` to `text`.
pub fn push_ascii(text: &mut String, codes: &[u8])
    ensures
        final(text)@ == old(text)@ + ascii_text(codes@),
{
    let mut i: usize = 0;
    while i < codes.len()
        invariant
            i <= codes.len(),
            text@ == old(text)@ + ascii_text(codes@.take(i as int)),
        decreases codes.len() - i,
    {
        text.push(codes[i] as char);
        assert(codes@.take(i + 1) =~= codes@.take(i as int).push(codes@[i as int]));
        assert(ascii_text(codes@.take(i + 1)) =~= ascii_text(codes@.take(i as int)).push(
            codes@[i as int] as char,
        ));
        i = i + 1;
    }
    assert(codes@.take(i as int) =~= codes@);
}

} // verus!
