use vstd::prelude::*;
use crate::error::{Errno, EINVAL};
use crate::nul_list::nul_free;

verus! {

/// Makes the nul-terminated form in which a path or an attribute name goes to
/// the kernel. A nul byte inside `bytes` would cut it short there, so such
/// input is refused with "invalid argument" before any call is made.
pub fn c_string(bytes: &[u8]) -> (r: Result<Vec<u8>, Errno>)
    ensures
        match r {
            Ok(v) => nul_free(bytes@) && v@ == bytes@.push(0u8),
            Err(e) => !nul_free(bytes@) && e == Errno(EINVAL),
        },
{
    let len = bytes.len();
    let mut v: Vec<u8> = Vec::with_capacity(len);
    let mut i: usize = 0;
    while i < len
        invariant
            i <= len == bytes@.len(),
            v@ == bytes@.take(i as int),
            nul_free(bytes@.take(i as int)),
        decreases len - i,
    {
        let b = bytes[i];
        if b == 0 {
            assert(bytes@[i as int] == 0);
            return Err(Errno(EINVAL));
        }
        v.push(b);
        i = i + 1;
        assert(bytes@.take(i as int) =~= bytes@.take(i - 1).push(b));
    }
    assert(bytes@.take(len as int) =~= bytes@);
    v.push(0u8);
    Ok(v)
}

} // verus!
