//! String helpers shared by the parsers and formatters of the gateway.
use vstd::prelude::*;

verus! {

/// No character of `s` is `c`.
pub open spec fn lacks_char(s: Seq<char>, c: char) -> bool {
    forall|k: int| 0 <= k < s.len() ==> s[k] != c
}

/// The texts of some strings.
pub open spec fn texts(v: Seq<String>) -> Seq<Seq<char>> {
    v.map_values(|t: String| t@)
}

/// The view of the three-letter scheme `upp`.
pub open spec fn upp_prefix() -> Seq<char> {
    seq!['u', 'p', 'p']
}

/// Index of the first occurrence of `c` in `s` at or after `from`, if any.
pub fn find_char_from(s: &str, c: char, from: usize) -> (r: Option<usize>)
    requires
        from <= s@.len(),
    ensures
        match r {
            Some(i) => from <= i < s@.len() && s@[i as int] == c && lacks_char(
                s@.subrange(from as int, i as int),
                c,
            ),
            None => lacks_char(s@.subrange(from as int, s@.len() as int), c),
        },
{
    let n = s.unicode_len();
    let mut i: usize = from;
    while i < n
        invariant
            from <= i <= n,
            n == s@.len(),
            lacks_char(s@.subrange(from as int, i as int), c),
        decreases n - i,
    {
        if s.get_char(i) == c {
            return Some(i);
        }
        i = i + 1;
    }
    None
}

/// An owned copy of the characters `from..to` of `s`.
pub fn substring(s: &str, from: usize, to: usize) -> (r: String)
    requires
        from <= to <= s@.len(),
    ensures
        r@ == s@.subrange(from as int, to as int),
{
    String::from_str(s.substring_char(from, to))
}

/// `true` when `a` and `b` hold the same characters.
pub fn str_eq(a: &str, b: &str) -> (r: bool)
    ensures
        r == (a@ == b@),
{
    let n = a.unicode_len();
    if n != b.unicode_len() {
        return false;
    }
    let mut i: usize = 0;
    while i < n
        invariant
            i <= n,
            n == a@.len(),
            n == b@.len(),
            forall|k: int| 0 <= k < i ==> a@[k] == b@[k],
        decreases n - i,
    {
        if a.get_char(i) != b.get_char(i) {
            return false;
        }
        i = i + 1;
    }
    assert(a@ =~= b@);
    true
}

/// What `str::to_lowercase` returns for a string with these characters
/// (Unicode lower-casing, a function of the characters alone).
pub uninterp spec fn lowercase(s: Seq<char>) -> Seq<char>;

/// What `str::to_uppercase` returns for a string with these characters
/// (Unicode upper-casing, a function of the characters alone).
pub uninterp spec fn uppercase(s: Seq<char>) -> Seq<char>;

/// Calls `str::to_lowercase`; its result is named by `lowercase`.
#[verifier::external_body]
pub(crate) fn to_lowercase(s: &str) -> (r: String)
    ensures
        r@ == lowercase(s@),
{
    s.to_lowercase()
}

/// Calls `str::to_uppercase`; its result is named by `uppercase`.
#[verifier::external_body]
pub(crate) fn to_uppercase(s: &str) -> (r: String)
    ensures
        r@ == uppercase(s@),
{
    s.to_uppercase()
}

/// `s` begins with `prefix`.
pub open spec fn has_prefix(s: Seq<char>, prefix: Seq<char>) -> bool {
    prefix.len() <= s.len() && s.subrange(0, prefix.len() as int) == prefix
}

/// `true` when `s` begins with `prefix`.
pub fn starts_with(s: &str, prefix: &str) -> (r: bool)
    ensures
        r == has_prefix(s@, prefix@),
{
    let n = prefix.unicode_len();
    if n > s.unicode_len() {
        return false;
    }
    let mut i: usize = 0;
    while i < n
        invariant
            i <= n,
            n == prefix@.len(),
            n <= s@.len(),
            forall|k: int| 0 <= k < i ==> s@[k] == prefix@[k],
        decreases n - i,
    {
        if s.get_char(i) != prefix.get_char(i) {
            assert(s@.subrange(0, n as int)[i as int] == s@[i as int]);
            return false;
        }
        i = i + 1;
    }
    assert(s@.subrange(0, n as int) =~= prefix@);
    true
}

/// `s` holds the character `c`.
pub open spec fn has_char(s: Seq<char>, c: char) -> bool {
    exists|k: int| 0 <= k < s.len() && s[k] == c
}

/// `sub` occurs in `s` as a contiguous run of characters.
pub open spec fn has_infix(s: Seq<char>, sub: Seq<char>) -> bool {
    exists|k: int| 0 <= k && k + sub.len() <= s.len() && #[trigger] s.subrange(k, k + sub.len()) == sub
}

/// `true` when `sub` occurs in `s`.
pub fn contains_str(s: &str, sub: &str) -> (r: bool)
    ensures
        r == has_infix(s@, sub@),
{
    let n = s.unicode_len();
    let m = sub.unicode_len();
    if m > n {
        assert forall|k: int| 0 <= k && k + sub@.len() <= s@.len() implies #[trigger] s@.subrange(k, k + sub@.len()) != sub@ by {}
        return false;
    }
    let mut k: usize = 0;
    while k <= n - m
        invariant
            n == s@.len(),
            m == sub@.len(),
            m <= n,
            k <= n - m + 1,
            forall|j: int| 0 <= j < k ==> #[trigger] s@.subrange(j, j + m) != sub@,
        decreases n + 1 - k,
    {
        let mut i: usize = 0;
        let mut same = true;
        while i < m
            invariant
                n == s@.len(),
                m == sub@.len(),
                k + m <= n,
                i <= m,
                same == (forall|q: int| 0 <= q < i ==> s@[k + q] == sub@[q]),
            decreases m - i,
        {
            if same && s.get_char(k + i) != sub.get_char(i) {
                same = false;
            }
            i = i + 1;
        }
        if same {
            assert(s@.subrange(k as int, k + m) =~= sub@);
            return true;
        }
        assert(s@.subrange(k as int, k + m) != sub@) by {
            let q = choose|q: int| 0 <= q < m && s@[k + q] != sub@[q];
            assert(s@.subrange(k as int, k + m)[q] == s@[k + q]);
        }
        k = k + 1;
    }
    assert forall|j: int| 0 <= j && j + sub@.len() <= s@.len() implies #[trigger] s@.subrange(j, j + sub@.len()) != sub@ by {
        assert(j < k);
    }
    false
}

} // verus!
