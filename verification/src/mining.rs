//! The proof-of-work search: the header's nonce is raised until the first
//! characters of the header's digest string are a numeral of zero.

use crate::ledger::Blockchain;
use crate::records::{header_digest, Blockheader, HeaderView};
use vstd::prelude::*;
use vstd::string::*;

verus! {

/// Why the ledger could not do what was asked.
#[derive(Debug, Clone, Copy, PartialEq, Eq)]
pub enum LedgerError {
    /// A Merkle root was asked of no transactions.
    EmptyTransactionSet,
    /// The difficulty is zero, or asks for more characters than a digest
    /// string that the search met has.
    InvalidDifficulty,
    /// No nonce from the header's own up to the largest seals the header.
    NonceExhausted,
}

/// What one digest string says of a header under a difficulty.
#[derive(Debug, Clone, Copy, PartialEq, Eq)]
pub enum SealStatus {
    /// The prefix is a numeral of zero.
    Sealed,
    /// The prefix is something else: the next nonce is to be tried.
    Retry,
    /// There is no prefix of that length to read, or it is empty.
    Invalid,
}

/// Whether a text is a base-ten numeral of zero as an unsigned integer is
/// read: an optional plus sign, then one or more zeros.
pub open spec fn is_zero_numeral(s: Seq<char>) -> bool {
    let body = unsigned_body(s);
    body.len() > 0 && forall|i: int| 0 <= i < body.len() ==> body[i] == '0'
}

/// A numeral without its plus sign, if it has one.
pub open spec fn unsigned_body(s: Seq<char>) -> Seq<char> {
    if s.len() > 0 && s[0] == '+' {
        s.skip(1)
    } else {
        s
    }
}

/// The status of a digest string under a difficulty: the first `difficulty`
/// characters are read.
pub open spec fn seal_status(digest: Seq<char>, difficulty: nat) -> SealStatus {
    if difficulty == 0 || difficulty > digest.len() {
        SealStatus::Invalid
    } else if is_zero_numeral(digest.take(difficulty as int)) {
        SealStatus::Sealed
    } else {
        SealStatus::Retry
    }
}

/// The header with another nonce.
pub open spec fn with_nonce(h: HeaderView, nonce: nat) -> HeaderView {
    HeaderView { nonce, ..h }
}

/// The status of the header when its nonce is `nonce`.
pub open spec fn status_at(h: HeaderView, nonce: nat) -> SealStatus {
    seal_status(header_digest(with_nonce(h, nonce)), h.difficulty)
}

/// Whether the search that starts at the header's nonce stops at `nonce`:
/// every nonce before it asks for a retry, and `nonce` itself does not, or
/// is the largest there is.
pub open spec fn search_stops_at(h: HeaderView, nonce: nat) -> bool {
    &&& h.nonce <= nonce <= u32::MAX
    &&& forall|k: nat| h.nonce <= k < nonce ==> #[trigger] status_at(h, k) == SealStatus::Retry
    &&& (status_at(h, nonce) != SealStatus::Retry || nonce == u32::MAX)
}

/// The nonce at which the search stops.
pub open spec fn search_end(h: HeaderView) -> nat {
    choose|nonce: nat| search_stops_at(h, nonce)
}

/// The result of the search.
pub open spec fn search_result(h: HeaderView) -> Result<(), LedgerError> {
    match status_at(h, search_end(h)) {
        SealStatus::Sealed => Ok(()),
        SealStatus::Invalid => Err(LedgerError::InvalidDifficulty),
        SealStatus::Retry => Err(LedgerError::NonceExhausted),
    }
}

/// The search stops at one nonce only.
pub proof fn lemma_search_end_unique(h: HeaderView, nonce: nat)
    requires
        search_stops_at(h, nonce),
    ensures
        search_end(h) == nonce,
{
    let end = search_end(h);
    assert(search_stops_at(h, end));
    if end < nonce {
        assert(status_at(h, end) == SealStatus::Retry);
    }
    if nonce < end {
        assert(status_at(h, nonce) == SealStatus::Retry);
    }
}

proof fn lemma_search_stops_from(h: HeaderView, nonce: nat)
    requires
        h.nonce <= nonce <= u32::MAX,
        forall|k: nat| h.nonce <= k < nonce ==> #[trigger] status_at(h, k) == SealStatus::Retry,
    ensures
        exists|end: nat| search_stops_at(h, end),
    decreases u32::MAX - nonce,
{
    if status_at(h, nonce) != SealStatus::Retry || nonce == u32::MAX {
        assert(search_stops_at(h, nonce));
    } else {
        lemma_search_stops_from(h, nonce + 1);
    }
}

/// The search from any nonce stops: at the first nonce that asks for no
/// retry, or at the largest nonce.
pub proof fn lemma_search_stops(h: HeaderView)
    requires
        h.nonce <= u32::MAX,
    ensures
        search_stops_at(h, search_end(h)),
{
    lemma_search_stops_from(h, h.nonce);
}

/// The search succeeds exactly if some nonce seals the header and every
/// nonce from the header's own up to that one, itself excluded, asks for a
/// retry.
pub proof fn lemma_search_succeeds(h: HeaderView)
    requires
        h.nonce <= u32::MAX,
    ensures
        search_result(h) is Ok <==> exists|nonce: nat|
            h.nonce <= nonce <= u32::MAX && #[trigger] status_at(h, nonce) == SealStatus::Sealed
                && forall|k: nat|
                h.nonce <= k < nonce ==> #[trigger] status_at(h, k) == SealStatus::Retry,
{
    lemma_search_stops(h);
    if search_result(h) is Ok {
        assert(status_at(h, search_end(h)) == SealStatus::Sealed);
    }
    if exists|nonce: nat|
        h.nonce <= nonce <= u32::MAX && #[trigger] status_at(h, nonce) == SealStatus::Sealed
            && forall|k: nat|
            h.nonce <= k < nonce ==> #[trigger] status_at(h, k) == SealStatus::Retry {
        let nonce = choose|nonce: nat|
            h.nonce <= nonce <= u32::MAX && #[trigger] status_at(h, nonce) == SealStatus::Sealed
                && forall|k: nat|
                h.nonce <= k < nonce ==> #[trigger] status_at(h, k) == SealStatus::Retry;
        assert(search_stops_at(h, nonce));
        lemma_search_end_unique(h, nonce);
    }
}

/// Reads the first `difficulty` characters of a digest string.
pub fn check_seal(digest: &str, difficulty: u32) -> (status: SealStatus)
    ensures
        status == seal_status(digest@, difficulty as nat),
{
    let len = digest.unicode_len();
    if difficulty == 0 || difficulty as usize > len {
        return SealStatus::Invalid;
    }
    let width = difficulty as usize;
    let ghost prefix = digest@.take(width as int);
    let start: usize = if digest.get_char(0) == '+' {
        1
    } else {
        0
    };
    let ghost body = unsigned_body(prefix);
    proof {
        assert(prefix[0] == digest@[0]);
        assert(body.len() == width - start);
    }
    if start == width {
        return SealStatus::Retry;
    }
    let mut i: usize = start;
    while i < width
        invariant
            start <= i <= width <= digest@.len(),
            prefix == digest@.take(width as int),
            width == difficulty,
            body == unsigned_body(prefix),
            body.len() == width - start,
            forall|j: int| 0 <= j < body.len() ==> body[j] == digest@[j + start],
            forall|j: int| start <= j < i ==> digest@[j] == '0',
        decreases width - i,
    {
        if digest.get_char(i) != '0' {
            proof {
                assert(body[i - start] == digest@[i as int]);
            }
            return SealStatus::Retry;
        }
        i = i + 1;
    }
    proof {
        assert forall|j: int| 0 <= j < body.len() implies body[j] == '0' by {
            assert(body[j] == digest@[j + start]);
        }
    }
    SealStatus::Sealed
}

impl Blockchain {
    /// Searches from the header's nonce upwards for the first nonce at which
    /// the header is sealed, and leaves the header at the nonce where the
    /// search stopped. Only the nonce changes. A difficulty from 1 to 32 is
    /// never refused, since every digest string has 32 characters or more.
    pub fn proof_of_work(header: &mut Blockheader) -> (res: Result<(), LedgerError>)
        ensures
            final(header)@ == with_nonce(old(header)@, search_end(old(header)@)),
            search_stops_at(old(header)@, search_end(old(header)@)),
            res == search_result(old(header)@),
            1 <= old(header)@.difficulty <= 32 ==> res != Err::<(), LedgerError>(
                LedgerError::InvalidDifficulty,
            ),
    {
        let ghost start = header@;
        loop
            invariant
                start == old(header)@,
                header@ == with_nonce(start, header@.nonce),
                start.nonce <= header@.nonce,
                forall|k: nat|
                    start.nonce <= k < header@.nonce ==> #[trigger] status_at(start, k)
                        == SealStatus::Retry,
            decreases u32::MAX - header.nonce,
        {
            let hash = header.digest();
            let status = check_seal(hash.as_str(), header.difficulty);
            proof {
                assert(status == status_at(start, header@.nonce));
            }
            match status {
                SealStatus::Sealed => {
                    proof {
                        lemma_search_end_unique(start, header@.nonce);
                    }
                    return Ok(());
                },
                SealStatus::Invalid => {
                    proof {
                        lemma_search_end_unique(start, header@.nonce);
                    }
                    return Err(LedgerError::InvalidDifficulty);
                },
                SealStatus::Retry => {
                    if header.nonce == u32::MAX {
                        proof {
                            lemma_search_end_unique(start, header@.nonce);
                        }
                        return Err(LedgerError::NonceExhausted);
                    }
                    header.nonce = header.nonce + 1;
                },
            }
        }
    }
}

} // verus!
