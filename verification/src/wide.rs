//! Bounded nul-terminated UTF-16 buffers.
//!
//! The OS hands display names back as fixed-size wide-character buffers,
//! terminated by the first nul unit. Everything that reads such a buffer
//! first trims it to the prefix before that terminator; the join between
//! the enumerations compares those trimmed prefixes.

use vstd::prelude::*;

verus! {

/// Number of UTF-16 units before the first nul terminator, or the whole
/// length when no terminator is present.
pub open spec fn nul_len(s: Seq<u16>) -> int
    decreases s.len(),
{
    if s.len() == 0 || s[0] == 0 {
        0
    } else {
        1 + nul_len(s.skip(1))
    }
}

/// The prefix of a bounded buffer before its first nul terminator.
pub open spec fn trimmed(s: Seq<u16>) -> Seq<u16> {
    s.take(nul_len(s))
}

pub proof fn lemma_nul_len_bounds(s: Seq<u16>)
    ensures
        0 <= nul_len(s) <= s.len(),
        forall|j: int| 0 <= j < nul_len(s) ==> s[j] != 0,
        nul_len(s) < s.len() ==> s[nul_len(s)] == 0,
    decreases s.len(),
{
    if s.len() == 0 || s[0] == 0 {
    } else {
        lemma_nul_len_bounds(s.skip(1));
        assert forall|j: int| 0 <= j < nul_len(s) implies s[j] != 0 by {
            if j >= 1 {
                assert(s.skip(1)[j - 1] != 0);
            }
        }
    }
}

pub proof fn lemma_nul_len_unique(s: Seq<u16>, n: int)
    requires
        0 <= n <= s.len(),
        forall|j: int| 0 <= j < n ==> s[j] != 0,
        n < s.len() ==> s[n] == 0,
    ensures
        nul_len(s) == n,
    decreases s.len(),
{
    if n == 0 {
    } else {
        assert(s[0] != 0);
        assert forall|j: int| 0 <= j < n - 1 implies s.skip(1)[j] != 0 by {
            assert(s[j + 1] != 0);
        }
        assert(n - 1 < s.skip(1).len() ==> s.skip(1)[n - 1] == 0);
        lemma_nul_len_unique(s.skip(1), n - 1);
    }
}

/// Length of the prefix of `buf` before its first nul unit.
pub fn nul_len_of(buf: &Vec<u16>) -> (n: usize)
    ensures
        n as int == nul_len(buf@),
{
    let mut i: usize = 0;
    while i < buf.len() && buf[i] != 0
        invariant
            i <= buf@.len(),
            forall|j: int| 0 <= j < i ==> buf@[j] != 0,
        decreases buf@.len() - i,
    {
        i = i + 1;
    }
    proof {
        lemma_nul_len_unique(buf@, i as int);
    }
    i
}

/// Whether two buffers hold exactly the same units.
pub fn wide_eq(a: &Vec<u16>, b: &Vec<u16>) -> (r: bool)
    ensures
        r == (a@ == b@),
{
    if a.len() != b.len() {
        return false;
    }
    let mut i: usize = 0;
    while i < a.len()
        invariant
            a@.len() == b@.len(),
            i <= a@.len(),
            forall|j: int| 0 <= j < i ==> a@[j] == b@[j],
        decreases a@.len() - i,
    {
        if a[i] != b[i] {
            return false;
        }
        i = i + 1;
    }
    proof {
        assert(a@ =~= b@);
    }
    true
}

/// The legacy-name join used by correlation: the record's trimmed legacy
/// name is a prefix of the target's trimmed legacy name.
pub open spec fn legacy_name_matches(target: Seq<u16>, record: Seq<u16>) -> bool {
    trimmed(record).is_prefix_of(trimmed(target))
}

/// Decides `legacy_name_matches` on two raw buffers.
pub fn wide_name_matches(target: &Vec<u16>, record: &Vec<u16>) -> (r: bool)
    ensures
        r == legacy_name_matches(target@, record@),
{
    proof {
        lemma_nul_len_bounds(target@);
        lemma_nul_len_bounds(record@);
    }
    let lt = nul_len_of(target);
    let lr = nul_len_of(record);
    if lr > lt {
        return false;
    }
    let mut i: usize = 0;
    while i < lr
        invariant
            lt as int == nul_len(target@) <= target@.len(),
            lr as int == nul_len(record@) <= record@.len(),
            lr <= lt,
            i <= lr,
            forall|j: int| 0 <= j < i ==> target@[j] == record@[j],
        decreases lr - i,
    {
        if target[i] != record[i] {
            proof {
                assert(trimmed(record@)[i as int] == record@[i as int]);
                assert(trimmed(target@).subrange(0, lr as int)[i as int] == target@[i as int]);
            }
            return false;
        }
        i = i + 1;
    }
    proof {
        assert(trimmed(record@) =~= trimmed(target@).subrange(0, lr as int));
    }
    true
}

/// Name for the text that the UTF-16 lossy decoding of std yields from a
/// sequence of units; the result depends on the units alone.
pub uninterp spec fn utf16_lossy_of(units: Seq<u16>) -> Seq<char>;

/// Relies on `String::from_utf16_lossy`: decodes UTF-16 units to text,
/// replacing invalid sequences with the replacement character.
#[verifier::external_body]
fn from_utf16_lossy(units: &Vec<u16>) -> (r: String)
    ensures
        r@ == utf16_lossy_of(units@),
{
    String::from_utf16_lossy(units.as_slice())
}

/// Converts a nul-terminated buffer of UTF-16 units to a `String`: the
/// prefix before the first terminator, decoded lossily.
pub fn utf16_nt_to_string(buf: &Vec<u16>) -> (s: String)
    ensures
        s@ == utf16_lossy_of(trimmed(buf@)),
{
    proof {
        lemma_nul_len_bounds(buf@);
    }
    let n = nul_len_of(buf);
    let mut prefix: Vec<u16> = Vec::new();
    let mut i: usize = 0;
    while i < n
        invariant
            n as int == nul_len(buf@) <= buf@.len(),
            i <= n,
            prefix@ == buf@.take(i as int),
        decreases n - i,
    {
        prefix.push(buf[i]);
        i = i + 1;
        proof {
            assert(prefix@ =~= buf@.take(i as int));
        }
    }
    from_utf16_lossy(&prefix)
}

} // verus!
