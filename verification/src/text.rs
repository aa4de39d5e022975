use vstd::prelude::*;

verus! {

/// White space as the key-trimming rule understands it: the Unicode
/// white-space characters.
pub open spec fn is_ini_space(ch: char) -> bool {
    ch == ' ' || ch == '\t' || ch == '\n' || ch == '\u{0B}' || ch == '\u{0C}' || ch == '\r'
        || ch == '\u{85}' || ch == '\u{A0}' || ch == '\u{1680}' || ch == '\u{2000}'
        || ch == '\u{2001}' || ch == '\u{2002}' || ch == '\u{2003}' || ch == '\u{2004}'
        || ch == '\u{2005}' || ch == '\u{2006}' || ch == '\u{2007}' || ch == '\u{2008}'
        || ch == '\u{2009}' || ch == '\u{200A}' || ch == '\u{2028}' || ch == '\u{2029}'
        || ch == '\u{202F}' || ch == '\u{205F}' || ch == '\u{3000}'
}

/// The sequence with its leading white space dropped.
pub open spec fn trim_start(s: Seq<char>) -> Seq<char>
    decreases s.len(),
{
    if s.len() > 0 && is_ini_space(s.first()) {
        trim_start(s.drop_first())
    } else {
        s
    }
}

/// The sequence with its trailing white space dropped.
pub open spec fn trim_end(s: Seq<char>) -> Seq<char>
    decreases s.len(),
{
    if s.len() > 0 && is_ini_space(s.last()) {
        trim_end(s.drop_last())
    } else {
        s
    }
}

/// The sequence with its surrounding white space dropped, as a pending key
/// is trimmed just before it is committed.
pub open spec fn trim(s: Seq<char>) -> Seq<char> {
    trim_end(trim_start(s))
}

/// Decide `is_ini_space` on one character.
pub fn is_space(ch: char) -> (r: bool)
    ensures
        r == is_ini_space(ch),
{
    ch == ' ' || ch == '\t' || ch == '\n' || ch == '\u{0B}' || ch == '\u{0C}' || ch == '\r'
        || ch == '\u{85}' || ch == '\u{A0}' || ch == '\u{1680}' || ch == '\u{2000}'
        || ch == '\u{2001}' || ch == '\u{2002}' || ch == '\u{2003}' || ch == '\u{2004}'
        || ch == '\u{2005}' || ch == '\u{2006}' || ch == '\u{2007}' || ch == '\u{2008}'
        || ch == '\u{2009}' || ch == '\u{200A}' || ch == '\u{2028}' || ch == '\u{2029}'
        || ch == '\u{202F}' || ch == '\u{205F}' || ch == '\u{3000}'
}

/// Relies on `String::push`: it appends exactly the given character.
#[verifier::external_body]
pub(crate) fn push_char(s: &mut String, ch: char)
    ensures
        final(s)@ == old(s)@.push(ch),
{
    s.push(ch)
}

/// A copy of the string with its surrounding white space removed.
pub fn trim_string(s: &String) -> (r: String)
    ensures
        r@ == trim(s@),
{
    let st = s.as_str();
    let n = st.unicode_len();
    proof {
        assert(s@.subrange(0, n as int) =~= s@);
    }
    let mut lo: usize = 0;
    while lo < n && is_space(st.get_char(lo))
        invariant
            st@ == s@,
            n == s@.len(),
            lo <= n,
            trim_start(s@) == trim_start(s@.subrange(lo as int, n as int)),
        decreases n - lo,
    {
        proof {
            assert(s@.subrange(lo as int, n as int).drop_first() =~= s@.subrange(
                lo as int + 1,
                n as int,
            ));
        }
        lo = lo + 1;
    }
    proof {
        assert(trim_start(s@) == s@.subrange(lo as int, n as int));
    }
    let mut hi: usize = n;
    while hi > lo && is_space(st.get_char(hi - 1))
        invariant
            st@ == s@,
            n == s@.len(),
            lo <= hi <= n,
            trim_end(s@.subrange(lo as int, n as int)) == trim_end(
                s@.subrange(lo as int, hi as int),
            ),
        decreases hi,
    {
        proof {
            assert(s@.subrange(lo as int, hi as int).drop_last() =~= s@.subrange(
                lo as int,
                hi as int - 1,
            ));
        }
        hi = hi - 1;
    }
    proof {
        assert(trim(s@) == s@.subrange(lo as int, hi as int));
    }
    let r = st.substring_char(lo, hi).to_owned();
    r
}

} // verus!
