//! The label column at the left of a row.
use vstd::prelude::*;
use vstd::string::{StrSliceExecFns, StringExecFns};

verus! {

/// `n` blanks; none if `n` is negative.
pub open spec fn spaces(n: int) -> Seq<char> {
    Seq::new(
        if n < 0 {
            0nat
        } else {
            n as nat
        },
        |i: int| ' ',
    )
}

/// `name` set flush right in `width` characters: cut after its first `width`
/// characters if it is longer, padded with blanks on the left if it is
/// shorter.
pub open spec fn fitted(name: Seq<char>, width: int) -> Seq<char>
    recommends
        0 <= width,
{
    let kept = if name.len() < width {
        name.len() as int
    } else {
        width
    };
    spaces(width - kept) + name.take(kept)
}

/// The suffix of the label of a line that is drawn for the first time.
pub open spec fn new_arrow() -> Seq<char> {
    " → "@
}

/// The suffix of the label of a line that is drawn for the last time.
pub open spec fn removed_arrow() -> Seq<char> {
    " ← "@
}

/// Appends `count` blanks to `out`.
pub fn pad(out: &mut String, count: usize)
    ensures
        final(out)@ == old(out)@ + spaces(count as int),
{
    let mut i: usize = 0;
    while i < count
        invariant
            i <= count,
            out@ == old(out)@ + spaces(i as int),
        decreases count - i,
    {
        out.append(" ");
        proof {
            reveal_strlit(" ");
        }
        i += 1;
    }
}

/// Returns `name` set flush right in `width` characters.
pub fn fit(name: &str, width: usize) -> (s: String)
    ensures
        s@ == fitted(name@, width as int),
{
    let len = name.unicode_len();
    let kept = if len < width {
        len
    } else {
        width
    };
    let mut s = String::new();
    pad(&mut s, width - kept);
    s.append(name.substring_char(0, kept));
    s
}

} // verus!
