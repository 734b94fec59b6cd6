use vstd::prelude::*;

verus! {

/// What `str::to_lowercase` returns for a given character sequence.
pub uninterp spec fn lower_of(s: Seq<char>) -> Seq<char>;

/// Relies on str::to_lowercase: the Unicode lowercase form of the string,
/// a function of its characters alone.
#[verifier::external_body]
pub(crate) fn lowercase(s: &str) -> (r: String)
    ensures
        r@ == lower_of(s@),
{
    s.to_lowercase()
}

/// Relies on String's FromIterator impl: collecting a vector of characters
/// yields the string of exactly those characters, in order.
#[verifier::external_body]
pub(crate) fn chars_to_string(v: Vec<char>) -> (s: String)
    ensures
        s@ == v@,
{
    v.into_iter().collect()
}

/// `suffix` stands at the end of `s`.
pub open spec fn spec_ends_with(s: Seq<char>, suffix: Seq<char>) -> bool {
    suffix.len() <= s.len() && s.skip(s.len() - suffix.len()) == suffix
}

pub fn str_ends_with(s: &str, suffix: &str) -> (r: bool)
    ensures
        r == spec_ends_with(s@, suffix@),
{
    let n = s.unicode_len();
    let m = suffix.unicode_len();
    if m > n {
        return false;
    }
    let mut i: usize = 0;
    while i < m
        invariant
            m <= n,
            n == s@.len(),
            m == suffix@.len(),
            i <= m,
            forall|j: int| 0 <= j < i ==> s@[n - m + j] == suffix@[j],
        decreases m - i,
    {
        if s.get_char(n - m + i) != suffix.get_char(i) {
            assert(!spec_ends_with(s@, suffix@)) by {
                if spec_ends_with(s@, suffix@) {
                    assert(s@.skip(n - m)[i as int] == suffix@[i as int]);
                }
            }
            return false;
        }
        i += 1;
    }
    assert(s@.skip(n - m) =~= suffix@);
    true
}

/// Index of the last occurrence of `c` in `s`, or -1 if it does not occur.
pub open spec fn spec_rlast(s: Seq<char>, c: char) -> int
    decreases s.len(),
{
    if s.len() == 0 {
        -1
    } else if s.last() == c {
        s.len() - 1
    } else {
        spec_rlast(s.drop_last(), c)
    }
}

pub proof fn lemma_rlast_bounds(s: Seq<char>, c: char)
    ensures
        -1 <= spec_rlast(s, c) < s.len(),
    decreases s.len(),
{
    if s.len() > 0 && s.last() != c {
        lemma_rlast_bounds(s.drop_last(), c);
    }
}

pub fn rlast_index(s: &str, c: char) -> (r: Option<usize>)
    ensures
        match r {
            Some(i) => spec_rlast(s@, c) == i as int && i < s@.len(),
            None => spec_rlast(s@, c) == -1,
        },
{
    let n = s.unicode_len();
    proof {
        assert(s@.take(n as int) =~= s@);
    }
    let mut j: usize = n;
    while j > 0
        invariant
            j <= n,
            n == s@.len(),
            spec_rlast(s@, c) == spec_rlast(s@.take(j as int), c),
        decreases j,
    {
        let ch = s.get_char(j - 1);
        if ch == c {
            assert(s@.take(j as int).last() == c);
            return Some(j - 1);
        }
        assert(s@.take(j as int).drop_last() =~= s@.take(j - 1));
        j -= 1;
    }
    assert(s@.take(0) =~= Seq::<char>::empty());
    None
}

/// The final path component: everything after the last separator.
pub open spec fn spec_file_name(p: Seq<char>) -> Seq<char> {
    p.skip(spec_rlast(p, '/') + 1)
}

/// The extension of a path: the part of the file name after its last dot,
/// unless the only dot is the file name's first character.
pub open spec fn spec_extension_of(p: Seq<char>) -> Option<Seq<char>> {
    let name = spec_file_name(p);
    let d = spec_rlast(name, '.');
    if d <= 0 {
        None
    } else {
        Some(name.skip(d + 1))
    }
}

pub fn extension_of(p: &str) -> (r: Option<String>)
    ensures
        r is Some <==> spec_extension_of(p@) is Some,
        r matches Some(e) ==> spec_extension_of(p@) matches Some(se) && e@ == se,
{
    let n = p.unicode_len();
    proof {
        lemma_rlast_bounds(p@, '/');
    }
    let start: usize = match rlast_index(p, '/') {
        Some(i) => i + 1,
        None => 0,
    };
    let name = p.substring_char(start, n);
    proof {
        assert(name@ =~= spec_file_name(p@));
        lemma_rlast_bounds(name@, '.');
    }
    let ln = name.unicode_len();
    match rlast_index(name, '.') {
        None => None,
        Some(d) => {
            if d == 0 {
                None
            } else {
                let e = name.substring_char(d + 1, ln);
                proof {
                    assert(e@ =~= spec_extension_of(p@)->0);
                }
                Some(String::from_str(e))
            }
        },
    }
}

/// Appends every character of `s` to `out`.
pub fn push_chars_of_str(out: &mut Vec<char>, s: &str)
    ensures
        final(out)@ == old(out)@ + s@,
{
    let n = s.unicode_len();
    let mut i: usize = 0;
    while i < n
        invariant
            i <= n,
            n == s@.len(),
            out@ == old(out)@ + s@.take(i as int),
        decreases n - i,
    {
        out.push(s.get_char(i));
        assert(old(out)@ + s@.take(i as int) + seq![s@[i as int]] =~= old(out)@ + s@.take(i + 1));
        i += 1;
    }
    assert(old(out)@ + s@.take(n as int) =~= old(out)@ + s@);
}

/// The character standing for a single decimal digit.
pub open spec fn spec_dec_digit(d: nat) -> char {
    ((48 + d) as u8) as char
}

/// The decimal rendering of a natural number, most significant digit first.
pub open spec fn spec_dec(n: nat) -> Seq<char>
    decreases n,
{
    if n < 10 {
        seq![spec_dec_digit(n)]
    } else {
        spec_dec(n / 10).push(spec_dec_digit(n % 10))
    }
}

/// Appends the decimal rendering of `n` to `out`.
pub fn push_dec_u64(out: &mut Vec<char>, n: u64)
    ensures
        final(out)@ == old(out)@ + spec_dec(n as nat),
    decreases n,
{
    if n < 10 {
        out.push(((48 + n) as u8) as char);
    } else {
        push_dec_u64(out, n / 10);
        out.push(((48 + n % 10) as u8) as char);
        assert(out@ =~= old(out)@ + spec_dec(n as nat));
    }
}

/// The character sequences of a sequence of strings.
pub open spec fn views_of(s: Seq<String>) -> Seq<Seq<char>> {
    s.map_values(|x: String| x@)
}

/// The parts joined with `sep` between each neighbouring pair.
pub open spec fn spec_join(parts: Seq<Seq<char>>, sep: Seq<char>) -> Seq<char>
    decreases parts.len(),
{
    if parts.len() == 0 {
        Seq::empty()
    } else if parts.len() == 1 {
        parts[0]
    } else {
        spec_join(parts.drop_last(), sep) + sep + parts.last()
    }
}

} // verus!
