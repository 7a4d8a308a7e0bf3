use vstd::prelude::*;
use crate::prefixed::names_of;

verus! {

/// Whether `s` holds no nul byte.
pub open spec fn nul_free(s: Seq<u8>) -> bool {
    forall|i: int| 0 <= i < s.len() ==> #[trigger] s[i] != 0
}

/// The pieces of `s` between its nul bytes, in order, empty pieces included:
/// one piece more than `s` has nuls.
pub open spec fn split_at_nuls(s: Seq<u8>) -> Seq<Seq<u8>>
    decreases s.len(),
{
    if s.len() == 0 {
        seq![Seq::<u8>::empty()]
    } else {
        let front = split_at_nuls(s.drop_last());
        if s.last() == 0 {
            front.push(Seq::<u8>::empty())
        } else {
            front.update(front.len() - 1, front.last().push(s.last()))
        }
    }
}

/// The names in a list of nul-terminated names: nothing for an empty list,
/// else the pieces between the nuls once the final terminator is dropped.
pub open spec fn nul_list_names(buf: Seq<u8>) -> Seq<Seq<u8>> {
    if buf.len() == 0 {
        seq![]
    } else {
        split_at_nuls(buf.drop_last())
    }
}

/// Each of `names` followed by a nul byte, one after the other.
pub open spec fn encode_nul_list(names: Seq<Seq<u8>>) -> Seq<u8>
    decreases names.len(),
{
    if names.len() == 0 {
        seq![]
    } else {
        encode_nul_list(names.drop_last()) + names.last() + seq![0u8]
    }
}

proof fn lemma_split_nul_free(x: Seq<u8>)
    requires
        nul_free(x),
    ensures
        split_at_nuls(x) == seq![x],
    decreases x.len(),
{
    if x.len() > 0 {
        let f = x.drop_last();
        assert(nul_free(f));
        lemma_split_nul_free(f);
        assert(x.last() != 0);
        assert(f.push(x.last()) =~= x);
    } else {
        assert(x =~= Seq::<u8>::empty());
    }
}

proof fn lemma_split_after_nul(t: Seq<u8>, x: Seq<u8>)
    requires
        nul_free(x),
    ensures
        split_at_nuls(t + seq![0u8] + x) == split_at_nuls(t).push(x),
    decreases x.len(),
{
    let s = t + seq![0u8] + x;
    if x.len() == 0 {
        assert(s.drop_last() =~= t);
        assert(x =~= Seq::<u8>::empty());
    } else {
        let f = x.drop_last();
        assert(nul_free(f));
        lemma_split_after_nul(t, f);
        assert(s.drop_last() =~= t + seq![0u8] + f);
        assert(x.last() != 0);
        assert(f.push(x.last()) =~= x);
        assert(split_at_nuls(t).push(f).update(
            split_at_nuls(t).len() as int,
            f.push(x.last()),
        ) =~= split_at_nuls(t).push(x));
    }
}

/// Decoding the nul-terminated list of names that hold no nul byte gives
/// back exactly those names, in order.
pub proof fn lemma_nul_list_round_trip(names: Seq<Seq<u8>>)
    requires
        forall|i: int| 0 <= i < names.len() ==> nul_free(#[trigger] names[i]),
    ensures
        nul_list_names(encode_nul_list(names)) == names,
    decreases names.len(),
{
    if names.len() > 0 {
        let front = names.drop_last();
        let x = names.last();
        assert(nul_free(x));
        let e = encode_nul_list(names);
        assert(e.drop_last() =~= encode_nul_list(front) + x);
        if front.len() == 0 {
            assert(encode_nul_list(front) + x =~= x);
            lemma_split_nul_free(x);
            assert(names =~= seq![x]);
        } else {
            assert(forall|i: int| 0 <= i < front.len() ==> nul_free(#[trigger] front[i])) by {
                assert forall|i: int| 0 <= i < front.len() implies nul_free(#[trigger] front[i]) by {
                    assert(front[i] == names[i]);
                }
            }
            lemma_nul_list_round_trip(front);
            let ef = encode_nul_list(front);
            assert(ef.last() == 0);
            assert(ef + x =~= ef.drop_last() + seq![0u8] + x);
            lemma_split_after_nul(ef.drop_last(), x);
            assert(front.push(x) =~= names);
        }
    } else {
        assert(encode_nul_list(names) =~= Seq::<u8>::empty());
    }
}

proof fn lemma_split_encodes(s: Seq<u8>)
    ensures
        split_at_nuls(s).len() >= 1,
        encode_nul_list(split_at_nuls(s)) == s + seq![0u8],
        forall|i: int| 0 <= i < split_at_nuls(s).len() ==> nul_free(#[trigger] split_at_nuls(s)[i]),
    decreases s.len(),
{
    if s.len() == 0 {
        let names = split_at_nuls(s);
        assert(names =~= seq![Seq::<u8>::empty()]);
        assert(names.drop_last() =~= Seq::<Seq<u8>>::empty());
        assert(encode_nul_list(Seq::<Seq<u8>>::empty()) =~= Seq::<u8>::empty());
        assert(encode_nul_list(names) == encode_nul_list(names.drop_last()) + names.last() + seq![
            0u8,
        ]);
        assert(encode_nul_list(names) =~= s + seq![0u8]);
        assert(nul_free(names[0]));
    } else {
        let f = s.drop_last();
        let b = s.last();
        lemma_split_encodes(f);
        let front = split_at_nuls(f);
        let names = split_at_nuls(s);
        assert(f.push(b) =~= s);
        if b == 0 {
            assert(names.drop_last() =~= front);
            assert(encode_nul_list(names) =~= s + seq![0u8]);
            assert forall|i: int| 0 <= i < names.len() implies nul_free(#[trigger] names[i]) by {
                if i < front.len() {
                    assert(names[i] == front[i]);
                } else {
                    assert(names[i] =~= Seq::<u8>::empty());
                }
            }
        } else {
            let y = front.last();
            let rest = front.drop_last();
            assert(names.drop_last() =~= rest);
            assert(names.last() =~= y.push(b));
            assert(encode_nul_list(front) == encode_nul_list(rest) + y + seq![0u8]);
            assert(encode_nul_list(rest) + y =~= f) by {
                assert(encode_nul_list(rest) + y + seq![0u8] =~= f + seq![0u8]);
                assert((encode_nul_list(rest) + y + seq![0u8]).drop_last() =~= encode_nul_list(
                    rest,
                ) + y);
                assert((f + seq![0u8]).drop_last() =~= f);
            }
            assert(encode_nul_list(names) == encode_nul_list(rest) + y.push(b) + seq![0u8]);
            assert(encode_nul_list(rest) + y.push(b) =~= (encode_nul_list(rest) + y).push(b));
            assert(encode_nul_list(names) =~= s + seq![0u8]);
            assert(nul_free(front[front.len() - 1]));
            assert forall|i: int| 0 <= i < names.len() implies nul_free(#[trigger] names[i]) by {
                if i < front.len() - 1 {
                    assert(names[i] == front[i]);
                } else {
                    assert(names[i] =~= y.push(b));
                }
            }
        }
    }
}

/// A list that ends in a nul byte is exactly the nul-terminated encoding of
/// the names decoded from it, and none of them holds a nul: decoding loses
/// and adds nothing.
pub proof fn lemma_nul_list_reencode(buf: Seq<u8>)
    requires
        buf.len() > 0,
        buf.last() == 0,
    ensures
        encode_nul_list(nul_list_names(buf)) == buf,
        forall|i: int|
            0 <= i < nul_list_names(buf).len() ==> nul_free(#[trigger] nul_list_names(buf)[i]),
{
    lemma_split_encodes(buf.drop_last());
    assert(buf.drop_last() + seq![0u8] =~= buf);
}

/// Decodes a list of attribute names as the kernel fills it on Linux,
/// Android and Darwin: each name followed by a nul byte. The final byte is
/// taken as the last terminator and dropped; the rest splits at each nul.
pub fn split_nul_names(buf: &[u8]) -> (r: Vec<Vec<u8>>)
    ensures
        names_of(r@) == nul_list_names(buf@),
{
    let mut ret: Vec<Vec<u8>> = Vec::new();
    let len = buf.len();
    if len == 0 {
        assert(names_of(ret@) =~= Seq::<Seq<u8>>::empty());
        return ret;
    }
    let end = len - 1;
    let mut cur: Vec<u8> = Vec::new();
    let mut i: usize = 0;
    assert(buf@.take(0) =~= Seq::<u8>::empty());
    assert(names_of(ret@).push(cur@) =~= seq![Seq::<u8>::empty()]);
    while i < end
        invariant
            i <= end == buf@.len() - 1,
            names_of(ret@).push(cur@) == split_at_nuls(buf@.take(i as int)),
        decreases end - i,
    {
        let b = buf[i];
        let ghost front = split_at_nuls(buf@.take(i as int));
        assert(buf@.take(i + 1).drop_last() =~= buf@.take(i as int));
        assert(buf@.take(i + 1).last() == b);
        let ghost before = ret@;
        let ghost cur_before = cur@;
        if b == 0 {
            ret.push(cur);
            cur = Vec::new();
            assert(names_of(ret@) =~= names_of(before).push(cur_before));
            assert(names_of(ret@).push(cur@) =~= front.push(Seq::<u8>::empty()));
        } else {
            cur.push(b);
            assert(names_of(ret@).push(cur@) =~= front.update(
                front.len() - 1,
                front.last().push(b),
            ));
        }
        i = i + 1;
    }
    assert(buf@.take(end as int) =~= buf@.drop_last());
    let ghost before = ret@;
    ret.push(cur);
    assert(names_of(ret@) =~= names_of(before).push(cur@));
    ret
}

} // verus!
