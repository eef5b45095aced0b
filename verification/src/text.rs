//! Text read out of header fields: lossy UTF-8 decoding and trailing-space
//! trimming of fixed-width fields.

use vstd::prelude::*;

verus! {

/// What `String::from_utf8_lossy` returns for the given bytes. The result
/// depends on the bytes alone.
pub uninterp spec fn utf8_lossy_of(b: Seq<u8>) -> Seq<char>;

/// Relies on `String::from_utf8_lossy`: decodes bytes as UTF-8, replacing
/// invalid sequences, as a function of the bytes alone.
#[verifier::external_body]
pub(crate) fn utf8_lossy(b: &[u8]) -> (r: String)
    ensures
        r@ == utf8_lossy_of(b@),
{
    String::from_utf8_lossy(b).into_owned()
}

/// Whether a byte is ASCII whitespace.
pub open spec fn is_space_byte(b: u8) -> bool {
    b == 0x20 || b == 0x09 || b == 0x0a || b == 0x0b || b == 0x0c || b == 0x0d
}

/// `b` with every trailing ASCII-whitespace byte removed.
pub open spec fn trim_trailing_spaces(b: Seq<u8>) -> Seq<u8>
    decreases b.len(),
{
    if b.len() > 0 && is_space_byte(b.last()) {
        trim_trailing_spaces(b.drop_last())
    } else {
        b
    }
}

fn is_space(b: u8) -> (r: bool)
    ensures
        r == is_space_byte(b),
{
    b == 0x20 || b == 0x09 || b == 0x0a || b == 0x0b || b == 0x0c || b == 0x0d
}

/// Copy of `b` with every trailing ASCII-whitespace byte removed.
pub(crate) fn trim_trailing(b: &[u8]) -> (r: Vec<u8>)
    ensures
        r@ == trim_trailing_spaces(b@),
{
    let mut end = b.len();
    proof {
        assert(b@.subrange(0, end as int) =~= b@);
    }
    while end > 0 && is_space(b[end - 1])
        invariant
            end <= b@.len(),
            trim_trailing_spaces(b@) == trim_trailing_spaces(b@.subrange(0, end as int)),
        decreases end,
    {
        proof {
            assert(b@.subrange(0, end as int).drop_last() =~= b@.subrange(0, end as int - 1));
        }
        end = end - 1;
    }
    let prefix = vstd::slice::slice_subrange(b, 0, end);
    let r = vstd::slice::slice_to_vec(prefix);
    proof {
        assert(trim_trailing_spaces(b@.subrange(0, end as int)) == b@.subrange(0, end as int));
    }
    r
}

} // verus!
