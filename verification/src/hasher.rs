//! The canonical hasher: SHA-256 over the UTF-8 bytes of a record's canonical
//! text, rendered in hexadecimal without zero padding.

use crate::codec::{hex_digits, sha256, sha256_of};
use crate::ledger::Blockchain;
use vstd::prelude::*;
use vstd::string::*;
use vstd::utf8::encode_utf8;

verus! {

/// The rendering of one byte: one digit below sixteen, two digits otherwise.
pub open spec fn hex_of_byte(b: u8) -> Seq<char> {
    if b < 16 {
        seq![hex_digits()[b as int]]
    } else {
        seq![hex_digits()[b as int / 16], hex_digits()[b as int % 16]]
    }
}

/// The rendering of a byte sequence: the renderings of its bytes, in order.
pub open spec fn hex_text(bytes: Seq<u8>) -> Seq<char>
    decreases bytes.len(),
{
    if bytes.len() == 0 {
        Seq::empty()
    } else {
        hex_text(bytes.drop_last()) + hex_of_byte(bytes.last())
    }
}

/// The digest string of a canonical text.
pub open spec fn digest_text(encoded: Seq<char>) -> Seq<char> {
    hex_text(sha256(encode_utf8(encoded)))
}

/// A rendering has at least one and at most two characters per byte.
pub proof fn lemma_hex_text_len(bytes: Seq<u8>)
    ensures
        bytes.len() <= hex_text(bytes).len() <= 2 * bytes.len(),
    decreases bytes.len(),
{
    if bytes.len() > 0 {
        lemma_hex_text_len(bytes.drop_last());
    }
}

/// A rendering holds hexadecimal digits only.
pub proof fn lemma_hex_text_digits(bytes: Seq<u8>, i: int)
    requires
        0 <= i < hex_text(bytes).len(),
    ensures
        exists|d: int| 0 <= d < 16 && hex_text(bytes)[i] == #[trigger] hex_digits()[d],
    decreases bytes.len(),
{
    let front = hex_text(bytes.drop_last());
    let b = bytes.last();
    if i < front.len() {
        lemma_hex_text_digits(bytes.drop_last(), i);
    } else if b < 16 {
        assert(hex_text(bytes)[i] == hex_digits()[b as int]);
    } else if i == front.len() {
        assert(hex_text(bytes)[i] == hex_digits()[b as int / 16]);
    } else {
        assert(hex_text(bytes)[i] == hex_digits()[b as int % 16]);
    }
}

fn hex_digit_str(n: u8) -> (s: &'static str)
    requires
        n < 16,
    ensures
        s@ == seq![hex_digits()[n as int]],
{
    let s = match n {
        0 => "0",
        1 => "1",
        2 => "2",
        3 => "3",
        4 => "4",
        5 => "5",
        6 => "6",
        7 => "7",
        8 => "8",
        9 => "9",
        10 => "a",
        11 => "b",
        12 => "c",
        13 => "d",
        14 => "e",
        _ => "f",
    };
    proof {
        reveal_strlit("0");
        reveal_strlit("1");
        reveal_strlit("2");
        reveal_strlit("3");
        reveal_strlit("4");
        reveal_strlit("5");
        reveal_strlit("6");
        reveal_strlit("7");
        reveal_strlit("8");
        reveal_strlit("9");
        reveal_strlit("a");
        reveal_strlit("b");
        reveal_strlit("c");
        reveal_strlit("d");
        reveal_strlit("e");
        reveal_strlit("f");
        assert(s@ =~= seq![hex_digits()[n as int]]);
    }
    s
}

impl Blockchain {
    /// Renders each byte in lower-case hexadecimal without zero padding, so
    /// a byte below sixteen contributes a single character.
    pub fn hex_to_string(vec_res: &[u8]) -> (s: String)
        ensures
            s@ == hex_text(vec_res@),
    {
        let mut s = String::new();
        let mut i: usize = 0;
        while i < vec_res.len()
            invariant
                i <= vec_res@.len(),
                s@ == hex_text(vec_res@.take(i as int)),
            decreases vec_res@.len() - i,
        {
            let byte: u8 = vec_res[i];
            if byte >= 16 {
                s.append(hex_digit_str(byte / 16));
            }
            s.append(hex_digit_str(byte % 16));
            proof {
                let next = vec_res@.take(i as int + 1);
                assert(next.drop_last() =~= vec_res@.take(i as int));
                assert(next.last() == byte);
                assert(s@ =~= hex_text(next));
            }
            i = i + 1;
        }
        proof {
            assert(vec_res@.take(i as int) =~= vec_res@);
        }
        s
    }

    /// The digest string of a record, given the record's canonical text. It
    /// has between 32 and 64 characters.
    pub fn hash(item: &str) -> (digest: String)
        ensures
            digest@ == digest_text(item@),
            32 <= digest@.len() <= 64,
    {
        let result = sha256_of(item.as_bytes());
        proof {
            lemma_hex_text_len(result@);
        }
        Blockchain::hex_to_string(result.as_slice())
    }
}

} // verus!
