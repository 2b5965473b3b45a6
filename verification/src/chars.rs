use vstd::prelude::*;

verus! {

/// JSON insignificant whitespace.
pub open spec fn is_ws(c: char) -> bool {
    c == ' ' || c == '\n' || c == '\r' || c == '\t'
}

/// The first index at or after `i` that does not hold whitespace.
pub open spec fn sp_ws(s: Seq<char>, i: int) -> int
    decreases s.len() - i,
{
    if 0 <= i < s.len() && is_ws(s[i]) {
        sp_ws(s, i + 1)
    } else {
        i
    }
}

/// Where the literal `tok` stands in `s` at position `i`: the index
/// just past it, or nothing.
pub open spec fn lit_at(s: Seq<char>, i: int, tok: Seq<char>) -> Option<int> {
    if 0 <= i && i + tok.len() <= s.len() && s.subrange(i, i + tok.len()) == tok {
        Some(i + tok.len())
    } else {
        None
    }
}

/// Relates an executable index result to its mathematical counterpart.
pub open spec fn opt_idx_is(r: Option<usize>, m: Option<int>) -> bool {
    match r {
        Some(j) => m == Some(j as int),
        None => m is None,
    }
}

pub fn skip_ws(s: &Vec<char>, i: usize) -> (j: usize)
    requires
        i <= s@.len(),
    ensures
        j as int == sp_ws(s@, i as int),
        i <= j <= s@.len(),
{
    let mut j: usize = i;
    while j < s.len() && (s[j] == ' ' || s[j] == '\n' || s[j] == '\r' || s[j] == '\t')
        invariant
            i <= j <= s@.len(),
            sp_ws(s@, i as int) == sp_ws(s@, j as int),
        decreases s@.len() - j,
    {
        proof {
            assert(sp_ws(s@, j as int) == sp_ws(s@, j + 1));
        }
        j += 1;
    }
    j
}

pub fn match_lit(s: &Vec<char>, i: usize, tok: &Vec<char>) -> (r: Option<usize>)
    ensures
        opt_idx_is(r, lit_at(s@, i as int, tok@)),
        r matches Some(j) ==> i <= j <= s@.len(),
{
    let n = tok.len();
    if i > s.len() || n > s.len() - i {
        return None;
    }
    let mut j: usize = 0;
    while j < n
        invariant
            j <= n,
            i + n <= s@.len(),
            s@.len() <= usize::MAX,
            tok@.len() == n,
            forall|k: int| 0 <= k < j ==> s@[i + k] == tok@[k],
        decreases n - j,
    {
        assert(i + j < s@.len());
        if s[i + j] != tok[j] {
            proof {
                assert(s@.subrange(i as int, i + n)[j as int] != tok@[j as int]);
            }
            return None;
        }
        j += 1;
    }
    proof {
        assert(s@.subrange(i as int, i + n) =~= tok@);
    }
    Some(i + n)
}

pub fn copy_range(v: &Vec<char>, a: usize, b: usize) -> (r: Vec<char>)
    requires
        a <= b <= v@.len(),
    ensures
        r@ == v@.subrange(a as int, b as int),
{
    let mut r: Vec<char> = Vec::new();
    let mut j: usize = a;
    proof {
        assert(r@ =~= v@.subrange(a as int, a as int));
    }
    while j < b
        invariant
            a <= j <= b <= v@.len(),
            r@ == v@.subrange(a as int, j as int),
        decreases b - j,
    {
        r.push(v[j]);
        proof {
            assert(v@.subrange(a as int, j as int).push(v@[j as int]) =~= v@.subrange(
                a as int,
                j + 1,
            ));
        }
        j += 1;
    }
    r
}

/// Turns a borrowed string into its sequence of characters.
pub fn to_char_vec(s: &str) -> (r: Vec<char>)
    ensures
        r@ == s@,
{
    broadcast use vstd::string::axiom_spec_iter;

    let mut r: Vec<char> = Vec::new();
    for c in it: s.chars()
        invariant
            it.seq() == s@,
            r@ == it.seq().take(it.index() as int),
    {
        r.push(c);
        proof {
            assert(it.seq().take(it.index() as int).push(c) =~= it.seq().take(it.index() + 1));
        }
    }
    r
}

/// Relies on String::push: appends the given character to the end of
/// the string.
#[verifier::external_body]
fn push_char(s: &mut String, c: char)
    ensures
        final(s)@ == old(s)@.push(c),
{
    s.push(c);
}

/// Turns a sequence of characters back into an owned string.
pub fn chars_to_string(v: &Vec<char>) -> (r: String)
    ensures
        r@ == v@,
{
    let mut r: String = String::new();
    let mut i: usize = 0;
    proof {
        assert(r@ =~= v@.take(0));
    }
    while i < v.len()
        invariant
            i <= v@.len(),
            r@ == v@.take(i as int),
        decreases v@.len() - i,
    {
        push_char(&mut r, v[i]);
        proof {
            assert(v@.take(i as int).push(v@[i as int]) =~= v@.take(i + 1));
        }
        i += 1;
    }
    proof {
        assert(v@.take(v@.len() as int) =~= v@);
    }
    r
}

} // verus!
