//! Byte-level scanning helpers shared by the request parser and the
//! response builder: first occurrence of a byte, first CRLF pair, last
//! occurrence of a byte, and copying a range of a slice.

use vstd::prelude::*;

verus! {

/// The carriage-return byte of a CRLF line break.
pub const CR: u8 = 13;

/// The line-feed byte of a CRLF line break.
pub const LF: u8 = 10;

/// True when a CRLF pair starts at index `i` of `s`.
pub open spec fn crlf_at(s: Seq<u8>, i: int) -> bool {
    &&& 0 <= i
    &&& i + 1 < s.len()
    &&& s[i] == CR
    &&& s[i + 1] == LF
}

/// Index of the first CRLF pair in `s`, or `s.len()` when there is none.
pub open spec fn find_crlf(s: Seq<u8>) -> int
    decreases s.len(),
{
    if s.len() >= 2 && s[0] == CR && s[1] == LF {
        0
    } else if s.len() == 0 {
        0
    } else {
        1 + find_crlf(s.skip(1))
    }
}

/// `find_crlf` returns the least index that starts a CRLF pair, or the
/// length when no pair occurs.
pub proof fn lemma_find_crlf(s: Seq<u8>)
    ensures
        0 <= find_crlf(s) <= s.len(),
        find_crlf(s) < s.len() ==> crlf_at(s, find_crlf(s)),
        forall|j: int| 0 <= j < find_crlf(s) ==> !crlf_at(s, j),
    decreases s.len(),
{
    if s.len() >= 2 && s[0] == CR && s[1] == LF {
    } else if s.len() == 0 {
    } else {
        let t = s.skip(1);
        lemma_find_crlf(t);
        assert forall|j: int| 0 <= j < find_crlf(s) implies !crlf_at(s, j) by {
            if j > 0 {
                assert(!crlf_at(t, j - 1));
            }
        }
        if find_crlf(s) < s.len() {
            assert(crlf_at(t, find_crlf(t)));
        }
    }
}

/// Index of the first occurrence of `b` in `s`, or `s.len()` when absent.
pub open spec fn find_byte(s: Seq<u8>, b: u8) -> int
    decreases s.len(),
{
    if s.len() == 0 {
        0
    } else if s[0] == b {
        0
    } else {
        1 + find_byte(s.skip(1), b)
    }
}

/// `find_byte` returns the least index holding `b`, or the length when `b`
/// does not occur.
pub proof fn lemma_find_byte(s: Seq<u8>, b: u8)
    ensures
        0 <= find_byte(s, b) <= s.len(),
        find_byte(s, b) < s.len() ==> s[find_byte(s, b)] == b,
        forall|j: int| 0 <= j < find_byte(s, b) ==> s[j] != b,
    decreases s.len(),
{
    if s.len() == 0 {
    } else if s[0] == b {
    } else {
        lemma_find_byte(s.skip(1), b);
        assert forall|j: int| 0 <= j < find_byte(s, b) implies s[j] != b by {
            if j > 0 {
                assert(s.skip(1)[j - 1] != b);
            }
        }
    }
}

/// Index of the last occurrence of `b` in `s`, or `-1` when absent.
pub open spec fn rfind_byte(s: Seq<u8>, b: u8) -> int
    decreases s.len(),
{
    if s.len() == 0 {
        -1
    } else if s[s.len() - 1] == b {
        s.len() - 1
    } else {
        rfind_byte(s.drop_last(), b)
    }
}

/// `rfind_byte` returns the greatest index holding `b`, or `-1` when `b`
/// does not occur.
pub proof fn lemma_rfind_byte(s: Seq<u8>, b: u8)
    ensures
        -1 <= rfind_byte(s, b) < s.len(),
        rfind_byte(s, b) >= 0 ==> s[rfind_byte(s, b)] == b,
        forall|j: int| rfind_byte(s, b) < j < s.len() ==> s[j] != b,
    decreases s.len(),
{
    if s.len() == 0 {
    } else if s[s.len() - 1] == b {
    } else {
        lemma_rfind_byte(s.drop_last(), b);
        let t = s.drop_last();
        assert forall|j: int| rfind_byte(s, b) < j < s.len() implies s[j] != b by {
            if j < s.len() - 1 {
                assert(t[j] != b);
            }
        }
    }
}

/// Returns the index of the first CRLF pair of `s`, or `s.len()` when no
/// pair occurs.
pub fn find_crlf_index(s: &[u8]) -> (i: usize)
    ensures
        i == find_crlf(s@),
{
    proof {
        lemma_find_crlf(s@);
    }
    let n: usize = s.len();
    let mut i: usize = 0;
    while i < n
        invariant
            0 <= i <= n,
            n == s@.len(),
            forall|j: int| 0 <= j < i ==> !crlf_at(s@, j),
            0 <= find_crlf(s@) <= n,
            find_crlf(s@) < n ==> crlf_at(s@, find_crlf(s@)),
            forall|j: int| 0 <= j < find_crlf(s@) ==> !crlf_at(s@, j),
        decreases n - i,
    {
        if i + 1 < n && s[i] == CR && s[i + 1] == LF {
            proof {
                assert(crlf_at(s@, i as int));
            }
            return i;
        }
        i = i + 1;
    }
    i
}

/// Returns the index of the first occurrence of `b` in `s`, or `s.len()`
/// when `b` does not occur.
pub fn find_byte_index(s: &[u8], b: u8) -> (i: usize)
    ensures
        i == find_byte(s@, b),
{
    proof {
        lemma_find_byte(s@, b);
    }
    let n: usize = s.len();
    let mut i: usize = 0;
    while i < n
        invariant
            0 <= i <= n,
            n == s@.len(),
            forall|j: int| 0 <= j < i ==> s@[j] != b,
            0 <= find_byte(s@, b) <= n,
            find_byte(s@, b) < n ==> s@[find_byte(s@, b)] == b,
            forall|j: int| 0 <= j < find_byte(s@, b) ==> s@[j] != b,
        decreases n - i,
    {
        if s[i] == b {
            proof {
                let f = find_byte(s@, b);
                assert(s@[i as int] == b);
                if f < i {
                    assert(s@[f] != b);
                } else if f > i {
                    assert(s@[i as int] != b);
                }
            }
            return i;
        }
        i = i + 1;
    }
    i
}

/// Returns the index of the last occurrence of `b` in `s`, or `None` when
/// `b` does not occur.
pub fn rfind_byte_index(s: &[u8], b: u8) -> (o: Option<usize>)
    ensures
        o is Some <==> rfind_byte(s@, b) >= 0,
        o is Some ==> o->Some_0 == rfind_byte(s@, b),
{
    proof {
        lemma_rfind_byte(s@, b);
    }
    let n: usize = s.len();
    let mut i: usize = n;
    while i > 0
        invariant
            0 <= i <= n,
            n == s@.len(),
            forall|j: int| i <= j < n ==> s@[j] != b,
            -1 <= rfind_byte(s@, b) < n,
            rfind_byte(s@, b) >= 0 ==> s@[rfind_byte(s@, b)] == b,
            forall|j: int| rfind_byte(s@, b) < j < n ==> s@[j] != b,
        decreases i,
    {
        i = i - 1;
        if s[i] == b {
            return Some(i);
        }
    }
    None
}

/// Copies `s[from..to]` into a fresh vector.
pub fn copy_range(s: &[u8], from: usize, to: usize) -> (v: Vec<u8>)
    requires
        from <= to <= s@.len(),
    ensures
        v@ == s@.subrange(from as int, to as int),
{
    let mut v: Vec<u8> = Vec::new();
    let mut i: usize = from;
    while i < to
        invariant
            from <= i <= to <= s@.len(),
            v@ == s@.subrange(from as int, i as int),
        decreases to - i,
    {
        v.push(s[i]);
        proof {
            assert(v@ =~= s@.subrange(from as int, (i + 1) as int));
        }
        i = i + 1;
    }
    v
}

} // verus!
