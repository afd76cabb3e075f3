//! Small verified text helpers shared across the library: equality, prefix
//! tests, last-occurrence search and newline stripping.

use vstd::prelude::*;

verus! {

/// True iff the two strings hold the same characters.
pub fn str_eq(a: &str, b: &str) -> (r: bool)
    ensures
        r == (a@ == b@),
{
    let sa = String::from_str(a);
    let sb = String::from_str(b);
    sa == sb
}

/// `p` is a prefix of `s`.
pub open spec fn starts_with_spec(s: Seq<char>, p: Seq<char>) -> bool {
    p.len() <= s.len() && s.take(p.len() as int) == p
}

/// True iff `prefix` is a prefix of `s`.
pub fn starts_with(s: &str, prefix: &str) -> (b: bool)
    ensures
        b == starts_with_spec(s@, prefix@),
{
    let pn = prefix.unicode_len();
    let sn = s.unicode_len();
    if pn > sn {
        return false;
    }
    let head = s.substring_char(0, pn);
    str_eq(head, prefix)
}

/// The index of the last occurrence of `c` in `s`, or -1 when `s` has none.
pub open spec fn last_index_of(s: Seq<char>, c: char) -> int
    decreases s.len(),
{
    if s.len() == 0 {
        -1
    } else if s[s.len() - 1] == c {
        s.len() - 1
    } else {
        last_index_of(s.drop_last(), c)
    }
}

/// The last occurrence of `c` in `s`, if any.
pub fn find_last(s: &str, c: char) -> (r: Option<usize>)
    ensures
        match r {
            Some(i) => i < s@.len() && last_index_of(s@, c) == i as int,
            None => last_index_of(s@, c) == -1,
        },
{
    let n = s.unicode_len();
    proof {
        assert(s@.take(n as int) =~= s@);
    }
    let mut i: usize = n;
    while i > 0
        invariant
            i <= n,
            n == s@.len(),
            last_index_of(s@, c) == last_index_of(s@.take(i as int), c),
        decreases i,
    {
        i = i - 1;
        let ch = s.get_char(i);
        proof {
            let t = s@.take(i + 1);
            assert(t.len() == i + 1);
            assert(t[t.len() - 1] == s@[i as int]);
            assert(t.drop_last() =~= s@.take(i as int));
        }
        if ch == c {
            return Some(i);
        }
    }
    proof {
        assert(s@.take(0).len() == 0);
    }
    None
}

/// `s` with every newline character removed.
pub open spec fn without_newlines(s: Seq<char>) -> Seq<char> {
    s.filter(|c: char| c != '\n')
}

/// Removes every newline character from `s`, keeping the rest in order.
pub fn strip_newlines(s: &str) -> (r: String)
    ensures
        r@ == without_newlines(s@),
{
    let n = s.unicode_len();
    let mut out = String::new();
    proof {
        reveal_with_fuel(Seq::filter, 1);
        assert(without_newlines(s@.take(0)) =~= Seq::<char>::empty());
    }
    let mut i: usize = 0;
    while i < n
        invariant
            i <= n,
            n == s@.len(),
            out@ == without_newlines(s@.take(i as int)),
        decreases n - i,
    {
        let c = s.get_char(i);
        if !(c == '\n') {
            let piece = s.substring_char(i, i + 1);
            out.append(piece);
            proof {
                reveal_with_fuel(Seq::filter, 2);
                let t = s@.take(i + 1);
                assert(t.drop_last() =~= s@.take(i as int));
                assert(t[t.len() - 1] == s@[i as int]);
                assert(piece@ =~= seq![s@[i as int]]);
                assert(out@ =~= without_newlines(s@.take(i + 1)));
            }
        } else {
            proof {
                reveal_with_fuel(Seq::filter, 2);
                let t = s@.take(i + 1);
                assert(t.drop_last() =~= s@.take(i as int));
                assert(t[t.len() - 1] == s@[i as int]);
                assert(without_newlines(s@.take(i + 1)) == without_newlines(s@.take(i as int)));
            }
        }
        i += 1;
    }
    proof {
        reveal_with_fuel(Seq::filter, 1);
        assert(s@.take(n as int) =~= s@);
    }
    out
}

} // verus!
