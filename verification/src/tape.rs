//! The tape: construction from an input string and blank trimming.

use vstd::prelude::*;
use vstd::string::StrSliceExecFns;

verus! {

/// The reserved blank symbol that fills every unwritten tape cell.  A legal
/// input string does not contain it; an input that does makes the boundary
/// blanks indistinguishable from input cells when the output is trimmed.
pub const BLANK: char = 'b';

/// The tape a run starts from: the input between one leading and one
/// trailing blank.
pub open spec fn spec_initial_tape(input: Seq<char>) -> Seq<char> {
    seq![BLANK] + input + seq![BLANK]
}

/// Builds the starting tape for `input`.
pub fn initial_tape(input: &str) -> (t: Vec<char>)
    ensures
        t@ == spec_initial_tape(input@),
{
    let mut t: Vec<char> = Vec::new();
    t.push(BLANK);
    let n = input.unicode_len();
    let mut i: usize = 0;
    while i < n
        invariant
            n == input@.len(),
            i <= n,
            t@ == seq![BLANK] + input@.take(i as int),
        decreases n - i,
    {
        let c = input.get_char(i);
        t.push(c);
        proof {
            assert(seq![BLANK] + input@.take(i as int) + seq![input@[i as int]] =~= seq![BLANK]
                + input@.take(i as int + 1));
        }
        i = i + 1;
    }
    t.push(BLANK);
    proof {
        assert(input@.take(n as int) =~= input@);
        assert(t@ =~= spec_initial_tape(input@));
    }
    t
}

/// `s` with its leading blanks removed.
pub open spec fn spec_trim_front(s: Seq<char>) -> Seq<char>
    decreases s.len(),
{
    if s.len() > 0 && s[0] == BLANK {
        spec_trim_front(s.drop_first())
    } else {
        s
    }
}

/// `s` with its trailing blanks removed.
pub open spec fn spec_trim_back(s: Seq<char>) -> Seq<char>
    decreases s.len(),
{
    if s.len() > 0 && s.last() == BLANK {
        spec_trim_back(s.drop_last())
    } else {
        s
    }
}

/// `s` with the blanks removed from both ends; interior blanks stay.  This is
/// how a run's output string is derived from its final tape.
pub open spec fn spec_trim_blanks(s: Seq<char>) -> Seq<char> {
    spec_trim_back(spec_trim_front(s))
}

/// Trimming the front keeps every suffix that starts at a non-blank: the
/// result is the suffix of `s` that begins at its first non-blank cell.
proof fn lemma_trim_front_skip(s: Seq<char>, i: int)
    requires
        0 <= i <= s.len(),
        forall|k: int| 0 <= k < i ==> s[k] == BLANK,
        i < s.len() ==> s[i] != BLANK,
    ensures
        spec_trim_front(s) == s.skip(i),
    decreases i,
{
    if i == 0 {
        assert(s.skip(0) =~= s);
    } else {
        assert(s[0] == BLANK);
        assert(s.drop_first() =~= s.skip(1));
        assert(forall|k: int| 0 <= k < i - 1 ==> s.skip(1)[k] == s[k + 1] && s.skip(1)[k] == BLANK);
        assert(i - 1 < s.skip(1).len() ==> s.skip(1)[i - 1] == s[i] && s.skip(1)[i - 1] != BLANK);
        lemma_trim_front_skip(s.skip(1), i - 1);
        assert(s.skip(1).skip(i - 1) =~= s.skip(i));
    }
}

/// Trimming the back keeps every prefix that ends at a non-blank: the result
/// is the prefix of `s` that ends just after its last non-blank cell.
proof fn lemma_trim_back_take(s: Seq<char>, j: int)
    requires
        0 <= j <= s.len(),
        forall|k: int| j <= k < s.len() ==> s[k] == BLANK,
        j > 0 ==> s[j - 1] != BLANK,
    ensures
        spec_trim_back(s) == s.take(j),
    decreases s.len() - j,
{
    if j == s.len() {
        if s.len() > 0 && s.last() == BLANK {
            assert(s[j - 1] == BLANK);
            assert(false);
        }
        assert(s.take(j) =~= s);
    } else {
        assert(s.last() == BLANK);
        assert(s.drop_last() =~= s.take(s.len() - 1));
        let t = s.take(s.len() - 1);
        assert(forall|k: int| j <= k < t.len() ==> t[k] == s[k] && t[k] == BLANK);
        assert(j > 0 ==> t[j - 1] == s[j - 1]);
        lemma_trim_back_take(t, j);
        assert(t.take(j) =~= s.take(j));
    }
}

/// Removes the blanks at both ends of `t`, as [`spec_trim_blanks`] says.
pub fn trim_blanks(t: &Vec<char>) -> (r: Vec<char>)
    ensures
        r@ == spec_trim_blanks(t@),
{
    let n = t.len();
    let mut lo: usize = 0;
    while lo < n && t[lo] == BLANK
        invariant
            n == t@.len(),
            lo <= n,
            forall|k: int| 0 <= k < lo ==> t@[k] == BLANK,
        decreases n - lo,
    {
        lo = lo + 1;
    }
    proof {
        lemma_trim_front_skip(t@, lo as int);
    }
    let mut hi: usize = n;
    while hi > lo && t[hi - 1] == BLANK
        invariant
            n == t@.len(),
            lo <= hi <= n,
            forall|k: int| hi <= k < n ==> t@[k] == BLANK,
        decreases hi,
    {
        hi = hi - 1;
    }
    proof {
        let front = t@.skip(lo as int);
        assert(forall|k: int|
            hi - lo <= k < front.len() ==> front[k] == t@[k + lo] && front[k] == BLANK);
        assert(hi > lo ==> front[hi - lo - 1] == t@[hi - 1] && front[hi - lo - 1] != BLANK);
        lemma_trim_back_take(front, hi - lo);
    }
    let mut r: Vec<char> = Vec::new();
    let mut i: usize = lo;
    while i < hi
        invariant
            lo <= i <= hi <= n,
            n == t@.len(),
            r@ == t@.subrange(lo as int, i as int),
        decreases hi - i,
    {
        let c = t[i];
        r.push(c);
        proof {
            assert(t@.subrange(lo as int, i as int).push(t@[i as int]) =~= t@.subrange(
                lo as int,
                i as int + 1,
            ));
        }
        i = i + 1;
    }
    proof {
        assert(r@ =~= t@.skip(lo as int).take(hi as int - lo as int));
    }
    r
}

/// The front trim leaves nothing, or leaves a first cell that is not blank.
proof fn lemma_trim_front_shape(s: Seq<char>)
    ensures
        spec_trim_front(s).len() == 0 || spec_trim_front(s)[0] != BLANK,
    decreases s.len(),
{
    if s.len() > 0 && s[0] == BLANK {
        lemma_trim_front_shape(s.drop_first());
    }
}

/// The back trim leaves nothing, or leaves a last cell that is not blank.
proof fn lemma_trim_back_shape(s: Seq<char>)
    ensures
        spec_trim_back(s).len() == 0 || spec_trim_back(s).last() != BLANK,
    decreases s.len(),
{
    if s.len() > 0 && s.last() == BLANK {
        lemma_trim_back_shape(s.drop_last());
    }
}

/// Trimming the back never touches a non-blank first cell.
proof fn lemma_trim_back_keeps_first(s: Seq<char>)
    requires
        s.len() > 0,
        s[0] != BLANK,
    ensures
        spec_trim_back(s).len() > 0,
        spec_trim_back(s)[0] == s[0],
    decreases s.len(),
{
    if s.last() == BLANK {
        assert(s.len() > 1) by {
            if s.len() == 1 {
                assert(s.last() == s[0]);
            }
        }
        assert(s.drop_last()[0] == s[0]);
        lemma_trim_back_keeps_first(s.drop_last());
    }
}

/// A sequence whose ends hold no blank is already trimmed.
proof fn lemma_trim_settled(s: Seq<char>)
    requires
        s.len() == 0 || (s[0] != BLANK && s.last() != BLANK),
    ensures
        spec_trim_blanks(s) == s,
{
    assert(spec_trim_front(s) == s);
    assert(spec_trim_back(s) == s);
}

/// Blank-trim idempotence: trimming blanks from an already-trimmed sequence
/// is a no-op.
pub proof fn lemma_trim_blanks_idempotent(s: Seq<char>)
    ensures
        spec_trim_blanks(spec_trim_blanks(s)) == spec_trim_blanks(s),
{
    let f = spec_trim_front(s);
    let t = spec_trim_back(f);
    lemma_trim_front_shape(s);
    lemma_trim_back_shape(f);
    if t.len() == 0 {
        lemma_trim_settled(t);
    } else {
        if f.len() == 0 {
            assert(t == f);
            assert(false);
        }
        assert(f[0] != BLANK);
        lemma_trim_back_keeps_first(f);
        assert(t[0] != BLANK);
        assert(t.last() != BLANK);
        lemma_trim_settled(t);
    }
}

} // verus!
