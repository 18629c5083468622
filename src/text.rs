use vstd::prelude::*;
use vstd::utf8::valid_utf8;

verus! {

/// The text that a sequence of bytes encodes in UTF-8, or `None` where the
/// bytes are not valid UTF-8.
pub open spec fn utf8_decoding(b: Seq<u8>) -> Option<Seq<char>> {
    if valid_utf8(b) {
        Some(vstd::utf8::decode_utf8(b))
    } else {
        None
    }
}

/// Relies on std::str::from_utf8: the text that the bytes encode where they
/// are valid UTF-8, an error exactly where they are not.
#[verifier::external_body]
pub(crate) fn decode_utf8(b: &[u8]) -> (r: Option<String>)
    ensures
        match r {
            Some(s) => utf8_decoding(b@) == Some(s@),
            None => utf8_decoding(b@) is None,
        },
{
    match std::str::from_utf8(b) {
        Ok(s) => Some(s.to_owned()),
        Err(_) => None,
    }
}

/// The text with its trailing whitespace removed.
pub uninterp spec fn trim_end_of(s: Seq<char>) -> Seq<char>;

/// Relies on str::trim_end: the text without trailing whitespace, leading
/// whitespace kept, so a prefix of the text.
#[verifier::external_body]
pub(crate) fn trim_end(s: &str) -> (r: &str)
    ensures
        r@ == trim_end_of(s@),
        r@.is_prefix_of(s@),
{
    s.trim_end()
}

/// Relies on str::ends_with with a `char` pattern: whether the last
/// character of the text is `c`.
#[verifier::external_body]
pub(crate) fn ends_with_char(s: &str, c: char) -> (r: bool)
    ensures
        r == (s@.len() > 0 && s@.last() == c),
{
    s.ends_with(c)
}

/// A line without the carriage return that ended it, if any.
pub open spec fn strip_cr(l: Seq<u8>) -> Seq<u8> {
    if l.len() > 0 && l.last() == 13u8 {
        l.drop_last()
    } else {
        l
    }
}

/// The lines of `b`, where `cur` is the part of the current line already read.
/// A newline ends a line and is dropped together with a carriage return just
/// before it; a last line without a newline counts when it is not empty.
pub open spec fn lines_from(b: Seq<u8>, cur: Seq<u8>) -> Seq<Seq<u8>>
    decreases b.len(),
{
    if b.len() == 0 {
        if cur.len() == 0 {
            seq![]
        } else {
            seq![cur]
        }
    } else if b[0] == 10u8 {
        seq![strip_cr(cur)] + lines_from(b.drop_first(), seq![])
    } else {
        lines_from(b.drop_first(), cur.push(b[0]))
    }
}

/// The lines of a file's contents.
pub open spec fn lines_of(b: Seq<u8>) -> Seq<Seq<u8>> {
    lines_from(b, seq![])
}

/// The byte sequences that a vector of lines holds.
pub open spec fn byte_views(v: Seq<Vec<u8>>) -> Seq<Seq<u8>> {
    v.map_values(|l: Vec<u8>| l@)
}

/// Splits a file's contents into lines, as `lines_of` describes.
pub fn split_lines(content: &[u8]) -> (r: Vec<Vec<u8>>)
    ensures
        byte_views(r@) == lines_of(content@),
{
    let mut lines: Vec<Vec<u8>> = Vec::new();
    let mut cur: Vec<u8> = Vec::new();
    let mut i: usize = 0;
    assert(content@.skip(0) =~= content@);
    assert(byte_views(lines@) =~= Seq::<Seq<u8>>::empty());
    assert(cur@ =~= Seq::<u8>::empty());
    while i < content.len()
        invariant
            i <= content@.len(),
            byte_views(lines@) + lines_from(content@.skip(i as int), cur@) == lines_of(content@),
        decreases content@.len() - i,
    {
        let rest = Ghost(content@.skip(i as int));
        assert(rest@.drop_first() =~= content@.skip(i + 1));
        let b = content[i];
        if b == 10u8 {
            let ghost before = byte_views(lines@);
            let ghost c0 = cur@;
            if cur.len() > 0 && cur[cur.len() - 1] == 13u8 {
                cur.pop();
            }
            assert(cur@ =~= strip_cr(c0));
            lines.push(cur);
            cur = Vec::new();
            proof {
                let tail = lines_from(content@.skip(i + 1), seq![]);
                assert(byte_views(lines@) =~= before.push(strip_cr(c0)));
                assert(before.push(strip_cr(c0)) + tail =~= before + (seq![strip_cr(c0)] + tail));
            }
        } else {
            cur.push(b);
        }
        i = i + 1;
    }
    assert(content@.skip(i as int) =~= Seq::<u8>::empty());
    if cur.len() > 0 {
        let ghost before = byte_views(lines@);
        lines.push(cur);
        assert(byte_views(lines@) =~= before.push(lines@.last()@));
    }
    lines
}

} // verus!
