use vstd::prelude::*;

verus! {

/// The bytes of each name, in order.
pub open spec fn names_of(v: Seq<Vec<u8>>) -> Seq<Seq<u8>> {
    v.map_values(|n: Vec<u8>| n@)
}

/// Whether `b` is a whole sequence of entries, each one length byte `L`
/// followed by exactly `L` bytes of name.
pub open spec fn entries_well_formed(b: Seq<u8>) -> bool
    decreases b.len(),
{
    if b.len() == 0 {
        true
    } else if 1 + b[0] > b.len() {
        false
    } else {
        entries_well_formed(b.skip(1 + b[0]))
    }
}

/// The names that a sequence of length-prefixed entries holds, in order.
pub open spec fn entry_names(b: Seq<u8>) -> Seq<Seq<u8>>
    decreases b.len(),
{
    if b.len() == 0 || 1 + b[0] > b.len() {
        seq![]
    } else {
        seq![b.subrange(1, 1 + b[0])] + entry_names(b.skip(1 + b[0]))
    }
}

/// The length-prefixed encoding of `names`.
pub open spec fn encode_entries(names: Seq<Seq<u8>>) -> Seq<u8>
    decreases names.len(),
{
    if names.len() == 0 {
        seq![]
    } else {
        seq![names[0].len() as u8] + names[0] + encode_entries(names.drop_first())
    }
}

/// Names of at most 255 bytes are what one length byte can describe.
pub open spec fn names_fit_length_byte(names: Seq<Seq<u8>>) -> bool {
    forall|i: int| 0 <= i < names.len() ==> #[trigger] names[i].len() <= 255
}

/// Decoding the length-prefixed encoding of names that each fit a length
/// byte gives back exactly those names, in order.
pub proof fn lemma_entries_round_trip(names: Seq<Seq<u8>>)
    requires
        names_fit_length_byte(names),
    ensures
        entries_well_formed(encode_entries(names)),
        entry_names(encode_entries(names)) == names,
    decreases names.len(),
{
    if names.len() > 0 {
        let rest = names.drop_first();
        assert(names_fit_length_byte(rest)) by {
            assert forall|i: int| 0 <= i < rest.len() implies #[trigger] rest[i].len() <= 255 by {
                assert(rest[i] == names[i + 1]);
            }
        }
        lemma_entries_round_trip(rest);
        let e = encode_entries(names);
        let l = names[0].len() as int;
        assert(names[0].len() <= 255);
        assert(e[0] == l);
        assert(e.skip(1 + l) =~= encode_entries(rest));
        assert(e.subrange(1, 1 + l) =~= names[0]);
        assert(seq![names[0]] + rest =~= names);
    }
}

/// A well-formed list of entries is exactly the encoding of the names that
/// it holds: decoding loses and adds nothing.
pub proof fn lemma_entries_reencode(b: Seq<u8>)
    requires
        entries_well_formed(b),
    ensures
        names_fit_length_byte(entry_names(b)),
        encode_entries(entry_names(b)) == b,
    decreases b.len(),
{
    if b.len() > 0 {
        let l = b[0] as int;
        let rest = b.skip(1 + l);
        lemma_entries_reencode(rest);
        let names = entry_names(b);
        assert(names.drop_first() =~= entry_names(rest));
        assert(names[0] =~= b.subrange(1, 1 + l));
        assert(names_fit_length_byte(names)) by {
            assert forall|i: int| 0 <= i < names.len() implies #[trigger] names[i].len() <= 255 by {
                if i > 0 {
                    assert(names[i] == entry_names(rest)[i - 1]);
                }
            }
        }
        assert(seq![b[0]] + b.subrange(1, 1 + l) + rest =~= b);
    }
}

/// Copies `bytes[start..end]` into a new vector.
fn copy_range(bytes: &[u8], start: usize, end: usize) -> (r: Vec<u8>)
    requires
        start <= end <= bytes@.len(),
    ensures
        r@ == bytes@.subrange(start as int, end as int),
{
    let mut r: Vec<u8> = Vec::with_capacity(end - start);
    let mut i: usize = start;
    while i < end
        invariant
            start <= i <= end <= bytes@.len(),
            r@ == bytes@.subrange(start as int, i as int),
        decreases end - i,
    {
        r.push(bytes[i]);
        i = i + 1;
    }
    r
}

/// Tells whether `bytes` is a whole sequence of length-prefixed entries, with
/// no entry cut short by the end of the buffer.
pub fn entries_are_well_formed(bytes: &[u8]) -> (r: bool)
    ensures
        r == entries_well_formed(bytes@),
{
    let len = bytes.len();
    let mut idx: usize = 0;
    assert(bytes@.skip(0) =~= bytes@);
    while idx < len
        invariant
            idx <= len == bytes@.len(),
            entries_well_formed(bytes@) == entries_well_formed(bytes@.skip(idx as int)),
        decreases len - idx,
    {
        let entry_len = bytes[idx] as usize;
        let ghost rest = bytes@.skip(idx as int);
        if entry_len >= len - idx {
            return false;
        }
        assert(rest.skip(1 + entry_len) =~= bytes@.skip(idx + 1 + entry_len));
        idx = idx + entry_len + 1;
    }
    assert(bytes@.skip(idx as int).len() == 0);
    true
}

/// Decodes a list of attribute names in which each entry is one length byte
/// followed by that many bytes of name, with no terminator.
pub fn parse_ea_entries(bytes: &[u8]) -> (r: Vec<Vec<u8>>)
    requires
        entries_well_formed(bytes@),
    ensures
        names_of(r@) == entry_names(bytes@),
{
    let mut ret: Vec<Vec<u8>> = Vec::new();
    let len = bytes.len();
    let mut idx: usize = 0;
    assert(bytes@.skip(0) =~= bytes@);
    assert(names_of(ret@) =~= Seq::<Seq<u8>>::empty());
    while idx < len
        invariant
            idx <= len == bytes@.len(),
            entries_well_formed(bytes@.skip(idx as int)),
            names_of(ret@) + entry_names(bytes@.skip(idx as int)) == entry_names(bytes@),
        decreases len - idx,
    {
        let entry_len = bytes[idx] as usize;
        let ghost rest = bytes@.skip(idx as int);
        assert(rest.skip(1 + entry_len) =~= bytes@.skip(idx + 1 + entry_len));
        assert(rest.subrange(1, 1 + entry_len) =~= bytes@.subrange(
            idx + 1,
            idx + 1 + entry_len,
        ));
        let name = copy_range(bytes, idx + 1, idx + 1 + entry_len);
        let ghost before = ret@;
        ret.push(name);
        assert(names_of(ret@) =~= names_of(before).push(name@));
        idx = idx + entry_len + 1;
    }
    assert(bytes@.skip(idx as int).len() == 0);
    ret
}

} // verus!
