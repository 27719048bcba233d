use vstd::prelude::*;
use vstd::string::*;

verus! {

/// `n` spaces.
pub open spec fn spaces(n: nat) -> Seq<char>
    decreases n,
{
    if n == 0 {
        seq![]
    } else {
        spaces((n - 1) as nat).push(' ')
    }
}

/// `text` right-aligned in a field of `width` characters: padded with spaces on the left
/// up to `width` characters, and left as it is where it is already that long.
pub open spec fn right_aligned(text: Seq<char>, width: nat) -> Seq<char> {
    if text.len() < width {
        spaces((width - text.len()) as nat) + text
    } else {
        text
    }
}

/// Right-aligns `text` in a field of `width` characters, as `format!("{: >width$}")` does.
pub fn align_right(text: &str, width: usize) -> (r: String)
    ensures
        r@ == right_aligned(text@, width as nat),
{
    let len = text.unicode_len();
    let mut out = String::new();
    if len < width {
        let pad = width - len;
        let mut i: usize = 0;
        proof {
            reveal_strlit(" ");
        }
        while i < pad
            invariant
                i <= pad,
                out@ == spaces(i as nat),
                " "@ == seq![' '],
            decreases pad - i,
        {
            out.append(" ");
            i = i + 1;
        }
    }
    out.append(text);
    proof {
        if !(text@.len() < width) {
            assert(out@ =~= text@);
        }
    }
    out
}

/// `prefix` followed by `text`, as `format!("{prefix}{text}")` gives it.
pub fn prefixed(prefix: &str, text: &str) -> (r: String)
    ensures
        r@ == prefix@ + text@,
{
    let mut out = String::from_str(prefix);
    out.append(text);
    out
}

} // verus!
