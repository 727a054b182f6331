use vstd::prelude::*;

verus! {

/// The number written by a sequence of hexadecimal digits, most significant first.
pub open spec fn hex_value(digits: Seq<u8>) -> nat
    decreases digits.len(),
{
    if digits.len() == 0 {
        0
    } else {
        hex_value(digits.drop_last()) * 16 + digits.last() as nat
    }
}

/// Every element is a single hexadecimal digit (a nibble).
pub open spec fn all_nibbles(digits: Seq<u8>) -> bool {
    forall|i: int| 0 <= i < digits.len() ==> #[trigger] digits[i] < 16
}

/// A prefix of a digit sequence never writes a larger number than the whole.
proof fn lemma_prefix_value_le(digits: Seq<u8>, i: int)
    requires
        0 <= i <= digits.len(),
    ensures
        hex_value(digits.subrange(0, i)) <= hex_value(digits),
    decreases digits.len() - i,
{
    if i < digits.len() {
        let prefix = digits.subrange(0, i);
        let next = digits.subrange(0, i + 1);
        assert(next.drop_last() =~= prefix);
        lemma_prefix_value_le(digits, i + 1);
    } else {
        assert(digits.subrange(0, i) =~= digits);
    }
}

pub struct Utils {}

impl Utils {
    /// Combines one or more nibbles, most significant first, into one number, which must
    /// fit in 16 bits.
    pub fn resolve_hex(nibbles: &[u8]) -> (r: u16)
        requires
            nibbles@.len() >= 1,
            all_nibbles(nibbles@),
            hex_value(nibbles@) < 0x10000,
        ensures
            r as nat == hex_value(nibbles@),
    {
        let mut num: u32 = 0;
        let mut i: usize = 0;
        assert(nibbles@.subrange(0, 0) =~= Seq::<u8>::empty());
        while i < nibbles.len()
            invariant
                i <= nibbles@.len(),
                all_nibbles(nibbles@),
                hex_value(nibbles@) < 0x10000,
                num as nat == hex_value(nibbles@.subrange(0, i as int)),
            decreases nibbles@.len() - i,
        {
            let digit = nibbles[i];
            proof {
                let prefix = nibbles@.subrange(0, i as int);
                let next = nibbles@.subrange(0, i as int + 1);
                assert(next.drop_last() =~= prefix);
                lemma_prefix_value_le(nibbles@, i as int + 1);
                assert(digit < 16);
            }
            num = num * 16 + digit as u32;
            i = i + 1;
        }
        assert(nibbles@.subrange(0, nibbles@.len() as int) =~= nibbles@);
        num as u16
    }
}

} // verus!
