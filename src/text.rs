use vstd::prelude::*;
use vstd::utf8::*;

verus! {

/// The text that lossy UTF-8 decoding gives for a byte sequence that is not
/// valid UTF-8 (each malformed sequence becomes U+FFFD).
pub uninterp spec fn replaced_utf8(b: Seq<u8>) -> Seq<char>;

/// Lossy UTF-8 decoding: valid input decodes as usual, anything else goes
/// through the replacement rules.
pub open spec fn lossy_decode(b: Seq<u8>) -> Seq<char> {
    if valid_utf8(b) {
        decode_utf8(b)
    } else {
        replaced_utf8(b)
    }
}

/// The separator placed between two raw fragments of one header: `", "`.
pub open spec fn separator() -> Seq<u8> {
    seq![44u8, 32u8]
}

/// The fragments of a header, in the order they came, joined by `", "`.
pub open spec fn join_fragments(raw: Seq<Seq<u8>>) -> Seq<u8>
    decreases raw.len(),
{
    if raw.len() == 0 {
        Seq::empty()
    } else if raw.len() == 1 {
        raw[0]
    } else {
        join_fragments(raw.drop_last()) + separator() + raw.last()
    }
}

/// Relies on `String::from_utf8_lossy`: valid UTF-8 is decoded as it is, and
/// the result depends on the bytes alone.
#[verifier::external_body]
fn from_utf8_lossy(b: &[u8]) -> (r: String)
    ensures
        valid_utf8(b@) ==> r@ == decode_utf8(b@),
        !valid_utf8(b@) ==> r@ == replaced_utf8(b@),
{
    String::from_utf8_lossy(b).into_owned()
}

/// Decodes bytes as UTF-8, replacing malformed sequences instead of failing.
pub fn decode_lossy(b: &[u8]) -> (r: String)
    ensures
        r@ == lossy_decode(b@),
{
    from_utf8_lossy(b)
}

/// Appends `src` to the end of `dst`.
pub(crate) fn append_bytes(dst: &mut Vec<u8>, src: &[u8])
    ensures
        final(dst)@ == old(dst)@ + src@,
{
    let mut i: usize = 0;
    while i < src.len()
        invariant
            i <= src@.len(),
            dst@ == old(dst)@ + src@.subrange(0, i as int),
        decreases src@.len() - i,
    {
        dst.push(src[i]);
        i = i + 1;
        assert(src@.subrange(0, i as int) == src@.subrange(0, i - 1) + seq![src@[i - 1]]);
    }
    assert(src@.subrange(0, src@.len() as int) == src@);
}

/// Joins the raw fragments of a header with `", "`, keeping their order.
pub fn join_fragments_exec(raw: &[Vec<u8>]) -> (r: Vec<u8>)
    ensures
        r@ == join_fragments(raw.deep_view()),
{
    let mut out: Vec<u8> = Vec::new();
    let mut i: usize = 0;
    while i < raw.len()
        invariant
            i <= raw@.len(),
            out@ == join_fragments(raw.deep_view().subrange(0, i as int)),
        decreases raw@.len() - i,
    {
        let ghost prefix = raw.deep_view().subrange(0, i as int);
        let ghost next = raw.deep_view().subrange(0, i + 1);
        assert(next.drop_last() == prefix);
        if i > 0 {
            out.push(44u8);
            out.push(32u8);
        }
        append_bytes(&mut out, raw[i].as_slice());
        i = i + 1;
    }
    assert(raw.deep_view().subrange(0, raw@.len() as int) == raw.deep_view());
    out
}

/// Lossy decoding is a function of the bytes alone: the same bytes decode to
/// the same text every time.
pub proof fn lemma_decode_deterministic(a: Seq<u8>, b: Seq<u8>)
    requires
        a == b,
    ensures
        lossy_decode(a) == lossy_decode(b),
{
}

/// Two fragments join in the order given, first one first.
pub proof fn lemma_join_keeps_order(a: Seq<u8>, b: Seq<u8>)
    ensures
        join_fragments(seq![a, b]) == a + separator() + b,
{
    assert(seq![a, b].drop_last() == seq![a]);
    assert(join_fragments(seq![a]) == a);
}

} // verus!
