use vstd::prelude::*;

use crate::text::push_char;

verus! {

/// `k` is where the build metadata of `s` starts: the first `+`, or the end.
pub open spec fn is_metadata_start(s: Seq<char>, k: int) -> bool {
    &&& 0 <= k <= s.len()
    &&& forall|i: int| 0 <= i < k ==> s[i] != '+'
    &&& (k == s.len() || s[k] == '+')
}

/// The metadata start of a version string exists and is unique.
pub proof fn lemma_metadata_start_unique(s: Seq<char>, k: int)
    ensures
        exists|j: int| is_metadata_start(s, j),
        is_metadata_start(s, k) ==> forall|j: int| is_metadata_start(s, j) ==> j == k,
    decreases s.len(),
{
    if s.len() == 0 {
        assert(is_metadata_start(s, 0));
    } else if s[0] == '+' {
        assert(is_metadata_start(s, 0));
    } else {
        lemma_metadata_start_unique(s.drop_first(), k - 1);
        let j = choose|j: int| is_metadata_start(s.drop_first(), j);
        assert(is_metadata_start(s, j + 1)) by {
            assert forall|i: int| 0 <= i < j + 1 implies s[i] != '+' by {
                if i > 0 {
                    assert(s[i] == s.drop_first()[i - 1]);
                }
            }
        }
    }
    if is_metadata_start(s, k) {
        assert forall|j: int| is_metadata_start(s, j) implies j == k by {
            if j < k {
                assert(s[j] != '+');
            } else if k < j {
                assert(s[k] != '+');
            }
        }
    }
}

/// Where the build metadata of `s` starts.
pub open spec fn metadata_start(s: Seq<char>) -> int {
    choose|k: int| is_metadata_start(s, k)
}

/// A version with its build metadata (a `+` and all after it) removed.
pub open spec fn normalized(s: Seq<char>) -> Seq<char> {
    s.subrange(0, metadata_start(s))
}

pub proof fn lemma_normalized(s: Seq<char>, k: int)
    requires
        is_metadata_start(s, k),
    ensures
        normalized(s) == s.subrange(0, k),
{
    lemma_metadata_start_unique(s, k);
}

/// Strips the build metadata from a version: everything from the first `+` on.
pub fn normalize_version(version: &str) -> (r: String)
    ensures
        r@ == normalized(version@),
{
    let mut out = String::new();
    let mut done = false;
    for c in it: version.chars()
        invariant
            it.seq() == version@,
            out@ == version@.subrange(0, out@.len() as int),
            forall|i: int| 0 <= i < out@.len() ==> out@[i] != '+',
            !done ==> out@.len() == it.index(),
            done ==> out@.len() < version@.len() && version@[out@.len() as int] == '+',
    {
        if !done {
            if c == '+' {
                done = true;
            } else {
                push_char(&mut out, c);
                assert(out@ == version@.subrange(0, out@.len() as int));
            }
        }
    }
    proof {
        assert(!done ==> out@.len() == version@.len());
        assert forall|i: int| 0 <= i < out@.len() implies version@[i] != '+' by {
            assert(version@[i] == out@[i]);
        }
        lemma_normalized(version@, out@.len() as int);
    }
    out
}

/// Normalizing is idempotent: a normalized version is its own normal form.
pub proof fn lemma_normalize_idempotent(v: Seq<char>)
    ensures
        normalized(normalized(v)) == normalized(v),
{
    let k = metadata_start(v);
    lemma_metadata_start_unique(v, k);
    let n = normalized(v);
    assert(is_metadata_start(n, n.len() as int));
    lemma_normalized(n, n.len() as int);
    assert(n.subrange(0, n.len() as int) == n);
}

/// Build metadata does not matter: a version without `+` is the normal form of itself
/// followed by any metadata suffix.
pub proof fn lemma_metadata_ignored(v: Seq<char>, meta: Seq<char>)
    requires
        forall|i: int| 0 <= i < v.len() ==> v[i] != '+',
    ensures
        normalized(v + seq!['+'] + meta) == v,
        normalized(v) == v,
{
    let s = v + seq!['+'] + meta;
    assert(is_metadata_start(s, v.len() as int));
    lemma_normalized(s, v.len() as int);
    assert(s.subrange(0, v.len() as int) == v);
    assert(is_metadata_start(v, v.len() as int));
    lemma_normalized(v, v.len() as int);
    assert(v.subrange(0, v.len() as int) == v);
}

} // verus!
