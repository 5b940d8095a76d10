//! Normalization of the raw input: trimming white space from the ends,
//! removing every space character, and removing every literal `0x`
//! substring (non-overlapping, left to right, lower case only).

use vstd::prelude::*;
use vstd::string::StrSliceExecFns;

use crate::text::is_space;
use crate::text::is_space_char;

verus! {

/// The sequence without its leading white space.
pub open spec fn trim_start(s: Seq<char>) -> Seq<char>
    decreases s.len(),
{
    if s.len() > 0 && is_space_char(s[0]) {
        trim_start(s.skip(1))
    } else {
        s
    }
}

/// The sequence without its trailing white space.
pub open spec fn trim_end(s: Seq<char>) -> Seq<char>
    decreases s.len(),
{
    if s.len() > 0 && is_space_char(s.last()) {
        trim_end(s.drop_last())
    } else {
        s
    }
}

/// The sequence without leading and trailing white space.
pub open spec fn trim(s: Seq<char>) -> Seq<char> {
    trim_end(trim_start(s))
}

/// The sequence with every space character `' '` removed.
pub open spec fn strip_spaces(s: Seq<char>) -> Seq<char>
    decreases s.len(),
{
    if s.len() == 0 {
        Seq::empty()
    } else if s.last() == ' ' {
        strip_spaces(s.drop_last())
    } else {
        strip_spaces(s.drop_last()).push(s.last())
    }
}

/// The sequence with every `0x` substring removed, scanning left to
/// right and never rescanning what a removal brings together.
pub open spec fn strip_0x(s: Seq<char>) -> Seq<char>
    decreases s.len(),
{
    if s.len() < 2 {
        s
    } else if s[0] == '0' && s[1] == 'x' {
        strip_0x(s.skip(2))
    } else {
        seq![s[0]] + strip_0x(s.skip(1))
    }
}

/// Normalization: spaces are removed first, then `0x` substrings.
pub open spec fn normalize(s: Seq<char>) -> Seq<char> {
    strip_0x(strip_spaces(s))
}

/// Law: trimming leaves a sequence without white space at its ends
/// unchanged.
pub proof fn lemma_trim_id(s: Seq<char>)
    requires
        forall|i: int| 0 <= i < s.len() ==> !is_space_char(s[i]),
    ensures
        trim(s) == s,
{
    assert(trim_start(s) == s);
    assert(trim_end(s) == s);
}

/// Law: removing spaces leaves a sequence without spaces unchanged.
pub proof fn lemma_strip_spaces_id(s: Seq<char>)
    requires
        forall|i: int| 0 <= i < s.len() ==> s[i] != ' ',
    ensures
        strip_spaces(s) == s,
    decreases s.len(),
{
    if s.len() == 0 {
        assert(strip_spaces(s) =~= s);
    } else {
        lemma_strip_spaces_id(s.drop_last());
        assert(s.drop_last().push(s.last()) =~= s);
    }
}

/// Law: removing `0x` substrings leaves a sequence without any `0x`
/// substring unchanged.
pub proof fn lemma_strip_0x_id(s: Seq<char>)
    requires
        forall|i: int| 0 <= i < s.len() - 1 ==> !((#[trigger] s[i]) == '0' && s[i + 1] == 'x'),
    ensures
        strip_0x(s) == s,
    decreases s.len(),
{
    if s.len() < 2 {
    } else {
        let rest = s.skip(1);
        assert(forall|i: int|
            0 <= i < rest.len() - 1 ==> !((#[trigger] rest[i]) == '0' && rest[i + 1] == 'x'))
            by {
            assert(forall|i: int|
                0 <= i < rest.len() - 1 ==> (#[trigger] rest[i]) == s[i + 1] && rest[i + 1] == s[i
                    + 2]);
        }
        lemma_strip_0x_id(rest);
        assert(seq![s[0]] + rest =~= s);
    }
}

/// Returns the slice of `s` without leading and trailing white space.
pub fn trim_exec(s: &str) -> (out: &str)
    ensures
        out@ == trim(s@),
{
    let n: usize = s.unicode_len();
    let mut lo: usize = 0;
    proof {
        assert(s@.skip(0) =~= s@);
    }
    while lo < n && is_space(s.get_char(lo))
        invariant
            lo <= n,
            n == s@.len(),
            trim_start(s@) == trim_start(s@.skip(lo as int)),
        decreases n - lo,
    {
        proof {
            assert(s@.skip(lo as int).skip(1) =~= s@.skip(lo as int + 1));
        }
        lo += 1;
    }
    proof {
        assert(trim_start(s@) == s@.skip(lo as int));
    }
    let mut hi: usize = n;
    while hi > lo && is_space(s.get_char(hi - 1))
        invariant
            lo <= hi <= n,
            n == s@.len(),
            trim_start(s@) == s@.skip(lo as int),
            trim_end(s@.skip(lo as int)) == trim_end(s@.subrange(lo as int, hi as int)),
        decreases hi,
    {
        proof {
            assert(s@.subrange(lo as int, hi as int).drop_last() =~= s@.subrange(
                lo as int,
                hi as int - 1,
            ));
        }
        hi -= 1;
    }
    proof {
        assert(s@.skip(lo as int) =~= s@.subrange(lo as int, n as int));
        assert(trim(s@) == s@.subrange(lo as int, hi as int));
    }
    s.substring_char(lo, hi)
}

/// Collects the characters of `s` that are not the space character.
pub fn strip_spaces_exec(s: &str) -> (out: Vec<char>)
    ensures
        out@ == strip_spaces(s@),
{
    let n: usize = s.unicode_len();
    let mut out: Vec<char> = Vec::new();
    let mut i: usize = 0;
    while i < n
        invariant
            i <= n,
            n == s@.len(),
            out@ == strip_spaces(s@.take(i as int)),
        decreases n - i,
    {
        let c = s.get_char(i);
        if c != ' ' {
            out.push(c);
        }
        proof {
            assert(s@.take(i as int + 1).drop_last() =~= s@.take(i as int));
            assert(s@.take(i as int + 1).last() == s@[i as int]);
        }
        i += 1;
    }
    proof {
        assert(s@.take(n as int) =~= s@);
    }
    out
}

/// Removes every `0x` substring, scanning left to right.
pub fn strip_0x_exec(v: &Vec<char>) -> (out: Vec<char>)
    ensures
        out@ == strip_0x(v@),
{
    let n: usize = v.len();
    let mut out: Vec<char> = Vec::new();
    let mut i: usize = 0;
    proof {
        assert(v@.skip(0) =~= v@);
        assert(Seq::<char>::empty() + strip_0x(v@) =~= strip_0x(v@));
    }
    while i < n
        invariant
            i <= n,
            n == v@.len(),
            strip_0x(v@) == out@ + strip_0x(v@.skip(i as int)),
        decreases n - i,
    {
        proof {
            let t = v@.skip(i as int);
            assert(t[0] == v@[i as int]);
            if t.len() >= 2 {
                assert(t[1] == v@[i as int + 1]);
                assert(t.skip(2) =~= v@.skip(i as int + 2));
            }
            assert(t.skip(1) =~= v@.skip(i as int + 1));
        }
        if i + 1 < n && v[i] == '0' && v[i + 1] == 'x' {
            i += 2;
        } else {
            let c = v[i];
            out.push(c);
            proof {
                let t = v@.skip(i as int);
                if t.len() < 2 {
                    assert(t =~= seq![t[0]]);
                    assert(strip_0x(v@.skip(i as int + 1)) =~= Seq::<char>::empty());
                }
                assert(strip_0x(t) == seq![t[0]] + strip_0x(v@.skip(i as int + 1)));
                assert(out@ + strip_0x(v@.skip(i as int + 1)) =~= (out@.drop_last() + (seq![t[0]]
                    + strip_0x(v@.skip(i as int + 1)))));
            }
            i += 1;
        }
    }
    proof {
        assert(v@.skip(n as int) =~= Seq::<char>::empty());
        assert(out@ + strip_0x(v@.skip(n as int)) =~= out@);
    }
    out
}

/// Normalizes `s`: removes spaces, then `0x` substrings.
pub fn normalize_exec(s: &str) -> (out: Vec<char>)
    ensures
        out@ == normalize(s@),
{
    let no_spaces = strip_spaces_exec(s);
    strip_0x_exec(&no_spaces)
}

} // verus!
