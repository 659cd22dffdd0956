//! Hashes and numbers of blocks and transactions.

use vstd::prelude::*;
use crate::text::{digit_char, digit_to_char, hex_data, hex_digits_of, push_char};

verus! {

/// A hash of 32 bytes: of a block or of a transaction.
#[derive(Debug, Clone, Copy, PartialEq, Eq)]
pub struct H256 {
    pub bytes: [u8; 32],
}

impl View for H256 {
    type V = Seq<u8>;

    open spec fn view(&self) -> Seq<u8> {
        self.bytes@
    }
}

/// The short form of a hash for messages: `0x`, the first two bytes, an
/// ellipsis and the last two bytes, in hexadecimal.
pub open spec fn short_hash(h: Seq<u8>) -> Seq<char>
    recommends
        h.len() == 32,
{
    seq![
        '0',
        'x',
        digit_char(h[0] as int / 16),
        digit_char(h[0] as int % 16),
        digit_char(h[1] as int / 16),
        digit_char(h[1] as int % 16),
        '\u{2026}',
        digit_char(h[30] as int / 16),
        digit_char(h[30] as int % 16),
        digit_char(h[31] as int / 16),
        digit_char(h[31] as int % 16),
    ]
}

impl H256 {
    /// The hash of 32 zero bytes.
    pub fn zero() -> (h: H256)
        ensures
            h@ == Seq::new(32, |i: int| 0u8),
    {
        let h = H256 { bytes: [0u8; 32] };
        assert(h@ =~= Seq::new(32, |i: int| 0u8));
        h
    }

    /// Whether two hashes hold the same bytes.
    pub fn same(&self, other: &H256) -> (b: bool)
        ensures
            b == (self@ == other@),
    {
        let mut i: usize = 0;
        while i < 32
            invariant
                i <= 32,
                forall|k: int| 0 <= k < i ==> self@[k] == other@[k],
            decreases 32 - i,
        {
            if self.bytes[i] != other.bytes[i] {
                return false;
            }
            i += 1;
        }
        assert(self@ =~= other@);
        true
    }

    /// The hash as Ethereum data: `0x` and 64 hexadecimal digits.
    pub fn to_hex(&self) -> (s: String)
        ensures
            s@ == hex_data(self@),
    {
        let mut s = String::new();
        push_char(&mut s, '0');
        push_char(&mut s, 'x');
        assert(s@ =~= seq!['0', 'x'] + hex_digits_of(self@.take(0)));
        let mut i: usize = 0;
        while i < 32
            invariant
                i <= 32,
                s@ == seq!['0', 'x'] + hex_digits_of(self@.take(i as int)),
            decreases 32 - i,
        {
            let b = self.bytes[i];
            push_char(&mut s, digit_to_char(b / 16));
            push_char(&mut s, digit_to_char(b % 16));
            proof {
                let next = self@.take(i + 1);
                assert(next.drop_last() =~= self@.take(i as int));
                assert(next.last() == b);
                assert(s@ =~= seq!['0', 'x'] + hex_digits_of(next));
            }
            i += 1;
        }
        assert(self@.take(32) =~= self@);
        s
    }

    /// The short form of the hash for messages.
    pub fn to_short_text(&self) -> (s: String)
        ensures
            s@ == short_hash(self@),
    {
        let mut s = String::new();
        push_char(&mut s, '0');
        push_char(&mut s, 'x');
        push_char(&mut s, digit_to_char(self.bytes[0] / 16));
        push_char(&mut s, digit_to_char(self.bytes[0] % 16));
        push_char(&mut s, digit_to_char(self.bytes[1] / 16));
        push_char(&mut s, digit_to_char(self.bytes[1] % 16));
        push_char(&mut s, '\u{2026}');
        push_char(&mut s, digit_to_char(self.bytes[30] / 16));
        push_char(&mut s, digit_to_char(self.bytes[30] % 16));
        push_char(&mut s, digit_to_char(self.bytes[31] / 16));
        push_char(&mut s, digit_to_char(self.bytes[31] % 16));
        assert(s@ =~= short_hash(self@));
        s
    }
}

} // verus!
