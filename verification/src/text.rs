//! Host names and schemes as text.

use vstd::prelude::*;

verus! {

/// `c` with an ASCII upper-case letter replaced by its lower-case form.
pub open spec fn lower_char(c: char) -> char {
    if 'A' <= c && c <= 'Z' {
        ((c as u32) + 32) as char
    } else {
        c
    }
}

/// `s` with every ASCII upper-case letter replaced by its lower-case form.
pub open spec fn ascii_lower(s: Seq<char>) -> Seq<char> {
    s.map_values(|c: char| lower_char(c))
}

/// `s` without the dots at its end.
pub open spec fn trim_dots(s: Seq<char>) -> Seq<char>
    decreases s.len(),
{
    if s.len() > 0 && s.last() == '.' {
        trim_dots(s.drop_last())
    } else {
        s
    }
}

/// The form in which host names are compared: lower case, no dot at the end.
pub open spec fn normalized(host: Seq<char>) -> Seq<char> {
    ascii_lower(trim_dots(host))
}

/// `s` is what converting `x` into a string can give.
pub open spec fn came_from<S: Into<String>>(x: S, s: String) -> bool {
    call_ensures(<S as Into<String>>::into, (x,), s)
}

/// `<String as From<&str>>::from`: the same text.
pub assume_specification<'a>[ <String as From<&'a str>>::from ](s: &str) -> (r: String)
    ensures
        r@ == s@,
;

/// `<Item as From<Item>>::from`: the value itself. This is how an owned string
/// turns into a string.
pub assume_specification<Item>[ <Item as From<Item>>::from ](x: Item) -> (r: Item)
    ensures
        r == x,
;

/// `str::to_ascii_lowercase`: ASCII letters 'A' to 'Z' become 'a' to 'z', every
/// other character stays as it is.
pub assume_specification[ str::to_ascii_lowercase ](s: &str) -> (r: String)
    ensures
        r@ == ascii_lower(s@),
;

/// Cutting `s` after its last character that is not a dot trims its dots.
proof fn lemma_trim_dots_cut(s: Seq<char>, n: int)
    requires
        0 <= n <= s.len(),
        n > 0 ==> s[n - 1] != '.',
        forall|i: int| n <= i < s.len() ==> s[i] == '.',
    ensures
        trim_dots(s) == s.subrange(0, n),
    decreases s.len(),
{
    if s.len() > n {
        let t = s.drop_last();
        lemma_trim_dots_cut(t, n);
        assert(t.subrange(0, n) =~= s.subrange(0, n));
    } else {
        assert(s.subrange(0, n) =~= s);
    }
}

/// The form of `h` in which host rules compare it: ASCII letters in lower case
/// and no dots at the end.
pub fn normalize_host(h: &str) -> (r: String)
    ensures
        r@ == normalized(h@),
{
    let mut seen: usize = 0;
    let mut end: usize = 0;
    let total: usize = h.unicode_len();
    for c in it: h.chars()
        invariant
            it.seq() == h@,
            total == h@.len(),
            seen == it.index(),
            end <= seen,
            end > 0 ==> h@[end - 1] != '.',
            forall|i: int| end <= i < seen ==> h@[i] == '.',
    {
        seen = seen + 1;
        if c != '.' {
            end = seen;
        }
    }
    proof {
        lemma_trim_dots_cut(h@, end as int);
    }
    h.substring_char(0, end).to_ascii_lowercase()
}

/// Whether `h` ends with `suffix`.
pub(crate) fn ends_with(h: &str, suffix: &str) -> (r: bool)
    ensures
        r == suffix@.is_suffix_of(h@),
{
    let n: usize = h.unicode_len();
    let m: usize = suffix.unicode_len();
    if m <= n {
        let tail: String = h.substring_char(n - m, n).to_owned();
        tail == suffix.to_owned()
    } else {
        false
    }
}

} // verus!
