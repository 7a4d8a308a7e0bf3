use vstd::prelude::*;
use crate::error::Errno;
use crate::nul_list::{nul_list_names, split_nul_names};
use crate::prefixed::{entries_well_formed, entry_names, names_of, parse_ea_entries};

verus! {

/// Decides what follows the size query of a retrieval: its error is the
/// answer; a size of zero means an empty result and no second call; any
/// other size `n` gets a buffer of exactly `n` bytes for the fill call.
pub fn plan_fill(query: Result<usize, Errno>) -> (r: Result<Option<Vec<u8>>, Errno>)
    ensures
        match query {
            Err(e) => r matches Err(e2) && e2 == e,
            Ok(n) => if n == 0 {
                r matches Ok(None)
            } else {
                r matches Ok(Some(buf)) && buf@ == Seq::new(n as nat, |i: int| 0u8)
            },
        },
{
    match query {
        Err(e) => Err(e),
        Ok(n) => {
            if n == 0 {
                Ok(None)
            } else {
                let mut buf: Vec<u8> = Vec::with_capacity(n);
                let mut i: usize = 0;
                while i < n
                    invariant
                        i <= n,
                        buf@ == Seq::new(i as nat, |j: int| 0u8),
                    decreases n - i,
                {
                    buf.push(0u8);
                    i = i + 1;
                    assert(buf@ =~= Seq::new(i as nat, |j: int| 0u8));
                }
                Ok(Some(buf))
            }
        },
    }
}

/// Whether a fill call's result fits the buffer that it was given.
pub open spec fn fill_fits(buffer: Seq<u8>, fill: Result<usize, Errno>) -> bool {
    match fill {
        Ok(m) => m <= buffer.len(),
        Err(_) => true,
    }
}

/// Takes the result of the fill call: its error as it is, or the first `m`
/// bytes of the buffer, `m` being the count that the fill call reported. That
/// count may be less than the queried size when the attribute shrank between
/// the two calls; it is the one that counts.
pub fn take_filled(buffer: Vec<u8>, fill: Result<usize, Errno>) -> (r: Result<Vec<u8>, Errno>)
    requires
        fill_fits(buffer@, fill),
    ensures
        match fill {
            Err(e) => r matches Err(e2) && e2 == e,
            Ok(m) => r matches Ok(v) && v@ == buffer@.take(m as int),
        },
{
    match fill {
        Err(e) => Err(e),
        Ok(m) => {
            let mut v = buffer;
            v.truncate(m);
            Ok(v)
        },
    }
}

/// Takes the result of the fill call of a name list in the nul-terminated
/// encoding (Linux, Android, Darwin) and decodes the names.
pub fn finish_nul_list(buffer: Vec<u8>, fill: Result<usize, Errno>) -> (r: Result<
    Vec<Vec<u8>>,
    Errno,
>)
    requires
        fill_fits(buffer@, fill),
    ensures
        match fill {
            Err(e) => r matches Err(e2) && e2 == e,
            Ok(m) => r matches Ok(v) && names_of(v@) == nul_list_names(buffer@.take(m as int)),
        },
{
    match take_filled(buffer, fill) {
        Err(e) => Err(e),
        Ok(v) => Ok(split_nul_names(v.as_slice())),
    }
}

/// Takes the result of the fill call of a name list in the length-prefixed
/// encoding (FreeBSD, NetBSD) and decodes the names. The filled bytes must
/// be whole entries: a kernel that cut one short broke its own contract.
pub fn finish_prefixed_list(buffer: Vec<u8>, fill: Result<usize, Errno>) -> (r: Result<
    Vec<Vec<u8>>,
    Errno,
>)
    requires
        fill_fits(buffer@, fill),
        fill matches Ok(m) ==> entries_well_formed(buffer@.take(m as int)),
    ensures
        match fill {
            Err(e) => r matches Err(e2) && e2 == e,
            Ok(m) => r matches Ok(v) && names_of(v@) == entry_names(buffer@.take(m as int)),
        },
{
    match take_filled(buffer, fill) {
        Err(e) => Err(e),
        Ok(v) => Ok(parse_ea_entries(v.as_slice())),
    }
}

/// When the attribute does not change between the two calls, the fill call
/// reports the size that the query reported: the value handed back is then
/// the whole filled buffer, exactly the queried number of bytes.
pub proof fn lemma_unchanged_between_calls(filled: Seq<u8>, n: usize)
    requires
        filled.len() == n,
    ensures
        filled.take(n as int) == filled,
        filled.take(n as int).len() == n,
{
    assert(filled.take(n as int) =~= filled);
}

} // verus!
