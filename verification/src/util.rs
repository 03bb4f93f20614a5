use vstd::prelude::*;

verus! {

/// `s` without the elements from index `from` up to, not including, `to`.
pub open spec fn remove_range(s: Seq<u8>, from: int, to: int) -> Seq<u8> {
    s.subrange(0, from) + s.subrange(to, s.len() as int)
}

/// `s` with the elements of `other` put in before index `at`.
pub open spec fn insert_seq(s: Seq<u8>, at: int, other: Seq<u8>) -> Seq<u8> {
    s.subrange(0, at) + other + s.subrange(at, s.len() as int)
}

/// Takes `buffer[from..to]` out of the buffer: what follows the range moves
/// down over it, and the buffer gets shorter by the length of the range.
pub fn remove_range_at(buffer: &mut Vec<u8>, from: usize, to: usize)
    requires
        from <= to <= old(buffer).len(),
    ensures
        final(buffer)@ == remove_range(old(buffer)@, from as int, to as int),
{
    let gap = to - from;
    let len = buffer.len();
    let mut i = from;
    while i + gap < len
        invariant
            gap == to - from,
            from <= i,
            i + gap <= len,
            len == old(buffer).len(),
            buffer.len() == len,
            forall|k: int| 0 <= k < from ==> buffer@[k] == old(buffer)@[k],
            forall|k: int| from <= k < i ==> buffer@[k] == old(buffer)@[k + gap],
            forall|k: int| i <= k < len ==> buffer@[k] == old(buffer)@[k],
        decreases len - i,
    {
        let byte = buffer[i + gap];
        buffer.set(i, byte);
        i += 1;
    }
    buffer.truncate(len - gap);
    assert(buffer@ =~= remove_range(old(buffer)@, from as int, to as int));
}

/// Puts the elements of `other` into the buffer before index `at`; what
/// stood at `at` and behind it moves up.
pub fn insert_multiple_at(buffer: &mut Vec<u8>, at: usize, other: &Vec<u8>)
    requires
        at <= old(buffer).len(),
    ensures
        final(buffer)@ == insert_seq(old(buffer)@, at as int, other@),
{
    let mut tail = buffer.split_off(at);
    let mut i: usize = 0;
    while i < other.len()
        invariant
            i <= other.len(),
            buffer@ == old(buffer)@.subrange(0, at as int) + other@.subrange(0, i as int),
        decreases other.len() - i,
    {
        buffer.push(other[i]);
        assert(buffer@ =~= old(buffer)@.subrange(0, at as int) + other@.subrange(0, i + 1));
        i += 1;
    }
    assert(other@.subrange(0, i as int) =~= other@);
    buffer.append(&mut tail);
}

} // verus!
