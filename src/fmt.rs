use vstd::prelude::*;
use vstd::string::StrSliceExecFns;

verus! {

/// The transmit holding register values of a string, one per character, in order.
pub fn send_str(chars: &str) -> (r: Vec<u32>)
    ensures
        r@ == chars@.map_values(|c: char| c as u32),
{
    let n = chars.unicode_len();
    let mut out: Vec<u32> = Vec::new();
    let mut i: usize = 0;
    while i < n
        invariant
            n == chars@.len(),
            i <= n,
            out@ == chars@.subrange(0, i as int).map_values(|c: char| c as u32),
        decreases n - i,
    {
        let c = chars.get_char(i);
        out.push(c as u32);
        proof {
            assert(chars@.subrange(0, i + 1) =~= chars@.subrange(0, i as int).push(c));
        }
        i += 1;
    }
    assert(chars@.subrange(0, n as int) =~= chars@);
    out
}

} // verus!
