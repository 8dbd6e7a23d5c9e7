//! What a sink is handed: the rendered bytes without carriage returns.
use vstd::prelude::*;

verus! {

/// The byte of a carriage return.
pub const CARRIAGE_RETURN: u8 = 13;

/// The bytes of `bytes` that are written: all but the carriage returns, in
/// order.
pub open spec fn normalized(bytes: Seq<u8>) -> Seq<u8> {
    bytes.filter(|b: u8| b != CARRIAGE_RETURN)
}

/// What is written of `buf`. Where the result is empty, a buffer that is
/// empty or holds carriage returns alone, there is nothing to write and
/// the write succeeds.
pub fn normalize(buf: &[u8]) -> (out: Vec<u8>)
    ensures
        out@ == normalized(buf@),
{
    let mut out: Vec<u8> = Vec::new();
    let mut i: usize = 0;
    proof {
        reveal(Seq::filter);
        assert(buf@.take(0) =~= Seq::<u8>::empty());
    }
    while i < buf.len()
        invariant
            i <= buf.len(),
            out@ == normalized(buf@.take(i as int)),
        decreases buf.len() - i,
    {
        proof {
            reveal(Seq::filter);
            assert(buf@.take(i + 1).drop_last() =~= buf@.take(i as int));
        }
        if buf[i] != CARRIAGE_RETURN {
            out.push(buf[i]);
        }
        i += 1;
    }
    proof {
        assert(buf@.take(buf.len() as int) =~= buf@);
    }
    out
}

/// Nothing that is written is a carriage return, every other byte is
/// written, and a buffer without carriage returns is written as it is.
pub proof fn lemma_normalized(bytes: Seq<u8>)
    ensures
        forall|i: int| 0 <= i < normalized(bytes).len() ==> normalized(bytes)[i] != CARRIAGE_RETURN,
        normalized(bytes).len() <= bytes.len(),
        (forall|i: int| 0 <= i < bytes.len() ==> bytes[i] != CARRIAGE_RETURN) ==> normalized(bytes)
            == bytes,
    decreases bytes.len(),
{
    reveal(Seq::filter);
    if bytes.len() > 0 {
        lemma_normalized(bytes.drop_last());
        if forall|i: int| 0 <= i < bytes.len() ==> bytes[i] != CARRIAGE_RETURN {
            assert(normalized(bytes) =~= bytes);
        }
    } else {
        assert(normalized(bytes) =~= bytes);
    }
}

} // verus!
