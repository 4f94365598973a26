//! Character-level helpers shared by the engine: building and comparing
//! strings one character at a time.

use vstd::prelude::*;

verus! {

/// Relies on `String::push`: appends the given character to the end of the
/// string.
#[verifier::external_body]
pub(crate) fn push_char(s: &mut String, c: char)
    ensures
        final(s)@ == old(s)@.push(c),
{
    s.push(c);
}

/// Relies on `String::pop`: removes the last character from the string and
/// returns it, or returns `None` if the string is empty.
#[verifier::external_body]
pub(crate) fn pop_char(s: &mut String) -> (r: Option<char>)
    ensures
        old(s)@.len() == 0 ==> r is None && final(s)@ == old(s)@,
        old(s)@.len() > 0 ==> r == Some(old(s)@.last()) && final(s)@ == old(s)@.drop_last(),
{
    s.pop()
}

/// The characters of `s`, as a vector.
pub(crate) fn chars_of(s: &str) -> (r: Vec<char>)
    ensures
        r@ == s@,
{
    let n = s.unicode_len();
    let mut r: Vec<char> = Vec::new();
    let mut i: usize = 0;
    while i < n
        invariant
            n == s@.len(),
            i <= n,
            r@ == s@.subrange(0, i as int),
        decreases n - i,
    {
        r.push(s.get_char(i));
        assert(s@.subrange(0, i as int).push(s@[i as int]) =~= s@.subrange(0, i + 1));
        i = i + 1;
    }
    assert(r@ =~= s@);
    r
}

/// The characters `v[from..to]`, as a freshly built string.
pub(crate) fn chars_range_to_string(v: &Vec<char>, from: usize, to: usize) -> (r: String)
    requires
        from <= to <= v@.len(),
    ensures
        r@ == v@.subrange(from as int, to as int),
{
    let mut r = String::new();
    let mut i: usize = from;
    while i < to
        invariant
            from <= i <= to <= v@.len(),
            r@ == v@.subrange(from as int, i as int),
        decreases to - i,
    {
        push_char(&mut r, v[i]);
        assert(v@.subrange(from as int, i as int).push(v@[i as int]) =~= v@.subrange(
            from as int,
            i + 1,
        ));
        i = i + 1;
    }
    r
}

/// The characters `v[from..to]`, as a fresh vector.
pub(crate) fn sub_vec(v: &Vec<char>, from: usize, to: usize) -> (r: Vec<char>)
    requires
        from <= to <= v@.len(),
    ensures
        r@ == v@.subrange(from as int, to as int),
{
    let mut r: Vec<char> = Vec::new();
    let mut i: usize = from;
    while i < to
        invariant
            from <= i <= to <= v@.len(),
            r@ == v@.subrange(from as int, i as int),
        decreases to - i,
    {
        r.push(v[i]);
        assert(v@.subrange(from as int, i as int).push(v@[i as int]) =~= v@.subrange(
            from as int,
            i + 1,
        ));
        i = i + 1;
    }
    r
}

/// Whether `v` holds the character `c`.
pub(crate) fn contains_char(v: &Vec<char>, c: char) -> (r: bool)
    ensures
        r == v@.contains(c),
{
    let mut i: usize = 0;
    while i < v.len()
        invariant
            i <= v@.len(),
            forall|j: int| 0 <= j < i ==> v@[j] != c,
        decreases v@.len() - i,
    {
        if v[i] == c {
            return true;
        }
        i = i + 1;
    }
    false
}

/// Whether two string slices hold the same characters.
pub(crate) fn str_eq(a: &str, b: &str) -> (r: bool)
    ensures
        r == (a@ == b@),
{
    let na = a.unicode_len();
    let nb = b.unicode_len();
    if na != nb {
        return false;
    }
    let mut i: usize = 0;
    while i < na
        invariant
            na == a@.len(),
            na == b@.len(),
            i <= na,
            forall|j: int| 0 <= j < i ==> a@[j] == b@[j],
        decreases na - i,
    {
        if a.get_char(i) != b.get_char(i) {
            return false;
        }
        i = i + 1;
    }
    assert(a@ =~= b@);
    true
}

/// ASCII lowercasing of one character; anything but `A`..`Z` is unchanged.
pub open spec fn lower_char(c: char) -> char {
    if 'A' <= c && c <= 'Z' {
        ((c as u32) + 32) as char
    } else {
        c
    }
}

/// ASCII lowercasing of a character sequence.
pub open spec fn lower_seq(s: Seq<char>) -> Seq<char> {
    s.map_values(|c: char| lower_char(c))
}

/// Whether `needle` occurs in `hay` starting at `i`.
pub open spec fn occurs_at(hay: Seq<char>, needle: Seq<char>, i: int) -> bool {
    &&& 0 <= i
    &&& i + needle.len() <= hay.len()
    &&& forall|j: int| 0 <= j < needle.len() ==> hay[i + j] == needle[j]
}

/// Whether `needle` occurs somewhere in `hay`.
pub open spec fn is_substring(hay: Seq<char>, needle: Seq<char>) -> bool {
    exists|i: int| occurs_at(hay, needle, i)
}

/// ASCII lowercasing of one character.
pub(crate) fn lower(c: char) -> (r: char)
    ensures
        r == lower_char(c),
{
    let u = c as u32;
    if 65 <= u && u <= 90 {
        ((u + 32) as u8) as char
    } else {
        c
    }
}

/// Whether the characters of `a` and `b` agree up to ASCII case.
pub(crate) fn eq_ci(a: &str, b: &str) -> (r: bool)
    ensures
        r == (lower_seq(a@) == lower_seq(b@)),
{
    let na = a.unicode_len();
    let nb = b.unicode_len();
    proof {
        assert(lower_seq(a@).len() == a@.len());
        assert(lower_seq(b@).len() == b@.len());
    }
    if na != nb {
        return false;
    }
    let mut i: usize = 0;
    while i < na
        invariant
            na == a@.len(),
            na == b@.len(),
            i <= na,
            forall|j: int| 0 <= j < i ==> lower_char(a@[j]) == lower_char(b@[j]),
        decreases na - i,
    {
        if lower(a.get_char(i)) != lower(b.get_char(i)) {
            assert(lower_seq(a@)[i as int] != lower_seq(b@)[i as int]);
            return false;
        }
        i = i + 1;
    }
    assert(lower_seq(a@) =~= lower_seq(b@));
    true
}

/// Whether `needle` occurs in `hay`, up to ASCII case.
pub(crate) fn contains_ci(hay: &str, needle: &str) -> (r: bool)
    ensures
        r == is_substring(lower_seq(hay@), lower_seq(needle@)),
{
    let nh = hay.unicode_len();
    let nn = needle.unicode_len();
    let ghost lh = lower_seq(hay@);
    let ghost ln = lower_seq(needle@);
    proof {
        assert(lh.len() == hay@.len());
        assert(ln.len() == needle@.len());
    }
    if nn > nh {
        proof {
            assert forall|i: int| !occurs_at(lh, ln, i) by {}
            assert(!is_substring(lh, ln));
        }
        return false;
    }
    let mut i: usize = 0;
    while i <= nh - nn
        invariant
            nh == hay@.len(),
            nn == needle@.len(),
            lh == lower_seq(hay@),
            ln == lower_seq(needle@),
            nn <= nh,
            i <= nh - nn + 1,
            forall|k: int| 0 <= k < i ==> !occurs_at(lh, ln, k),
        decreases nh + 1 - nn - i,
    {
        let mut j: usize = 0;
        let mut hit = true;
        while j < nn
            invariant
                nh == hay@.len(),
                nn == needle@.len(),
                lh == lower_seq(hay@),
                ln == lower_seq(needle@),
                i + nn <= nh,
                j <= nn,
                hit ==> forall|k: int| 0 <= k < j ==> lh[i + k] == ln[k],
                !hit ==> !occurs_at(lh, ln, i as int),
            decreases nn - j,
        {
            proof {
                assert(lh[i + j] == lower_char(hay@[i + j]));
                assert(ln[j as int] == lower_char(needle@[j as int]));
            }
            if lower(hay.get_char(i + j)) != lower(needle.get_char(j)) {
                proof {
                    let jj = j as int;
                    assert(lh[i + jj] != ln[jj]);
                    assert(!occurs_at(lh, ln, i as int)) by {
                        if occurs_at(lh, ln, i as int) {
                            assert(lh[i + jj] == ln[jj]);
                        }
                    }
                }
                hit = false;
                j = nn;
            } else {
                proof {
                    assert(lh[i + j] == ln[j as int]);
                }
                j = j + 1;
            }
        }
        if hit {
            proof {
                assert(occurs_at(lh, ln, i as int));
                assert(is_substring(lh, ln));
            }
            return true;
        }
        i = i + 1;
    }
    proof {
        assert forall|k: int| !occurs_at(lh, ln, k) by {
            if 0 <= k <= nh - nn {
                assert(!occurs_at(lh, ln, k));
            }
        }
        assert(!is_substring(lh, ln));
    }
    false
}

/// The characters of `s` with every line break removed.
pub open spec fn without_breaks(s: Seq<char>) -> Seq<char>
    decreases s.len(),
{
    if s.len() == 0 {
        Seq::empty()
    } else {
        let rest = without_breaks(s.drop_first());
        if s[0] == '\n' || s[0] == '\r' {
            rest
        } else {
            seq![s[0]] + rest
        }
    }
}

/// Strips line breaks out of a string.
pub(crate) fn remove_breaks(s: &str) -> (r: String)
    ensures
        r@ == without_breaks(s@),
{
    let n = s.unicode_len();
    let mut r = String::new();
    let mut i: usize = 0;
    proof {
        assert(s@.skip(0) =~= s@);
    }
    while i < n
        invariant
            i <= n == s@.len(),
            r@ + without_breaks(s@.skip(i as int)) == without_breaks(s@),
        decreases n - i,
    {
        let ghost suf = s@.skip(i as int);
        let ghost old_r = r@;
        proof {
            assert(suf[0] == s@[i as int]);
            assert(suf.drop_first() =~= s@.skip(i + 1));
        }
        let c = s.get_char(i);
        if !(c == '\n' || c == '\r') {
            push_char(&mut r, c);
            proof {
                assert(without_breaks(suf) == seq![suf[0]] + without_breaks(suf.drop_first()));
                assert(r@ + without_breaks(s@.skip(i + 1)) =~= old_r + (seq![suf[0]]
                    + without_breaks(suf.drop_first())));
            }
        } else {
            proof {
                assert(without_breaks(suf) == without_breaks(suf.drop_first()));
            }
        }
        i = i + 1;
    }
    proof {
        assert(s@.skip(n as int) =~= Seq::<char>::empty());
        assert(r@ =~= r@ + without_breaks(Seq::<char>::empty()));
    }
    r
}

/// Whether every character of `s` is an ASCII blank.
pub open spec fn is_space(c: char) -> bool {
    c == ' ' || c == '\t' || c == '\n' || c == '\r'
}

/// Whether `s` holds nothing but blanks.
pub open spec fn all_space(s: Seq<char>) -> bool {
    forall|i: int| 0 <= i < s.len() ==> is_space(#[trigger] s[i])
}

/// Whether the string is empty apart from blanks.
pub(crate) fn is_blank(s: &str) -> (r: bool)
    ensures
        r == all_space(s@),
{
    let n = s.unicode_len();
    let mut i: usize = 0;
    while i < n
        invariant
            n == s@.len(),
            i <= n,
            forall|j: int| 0 <= j < i ==> is_space(#[trigger] s@[j]),
        decreases n - i,
    {
        let c = s.get_char(i);
        if !(c == ' ' || c == '\t' || c == '\n' || c == '\r') {
            return false;
        }
        i = i + 1;
    }
    true
}

} // verus!
