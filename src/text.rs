//! Character-level helpers on strings: whitespace, trimming and scanning.
use vstd::prelude::*;

verus! {

/// The characters of Unicode's `White_Space` property.
pub open spec fn is_space_spec(c: char) -> bool {
    let u = c as u32;
    (0x09 <= u && u <= 0x0d) || u == 0x20 || u == 0x85 || u == 0xa0 || u == 0x1680
        || (0x2000 <= u && u <= 0x200a) || u == 0x2028 || u == 0x2029 || u == 0x202f
        || u == 0x205f || u == 0x3000
}

/// Whether `c` is whitespace in Unicode's sense.
pub fn is_space(c: char) -> (r: bool)
    ensures
        r == is_space_spec(c),
{
    let u = c as u32;
    (0x09 <= u && u <= 0x0d) || u == 0x20 || u == 0x85 || u == 0xa0 || u == 0x1680
        || (0x2000 <= u && u <= 0x200a) || u == 0x2028 || u == 0x2029 || u == 0x202f
        || u == 0x205f || u == 0x3000
}

/// The first index at or after `i` whose character is not whitespace
/// (the length of `s` if there is none).
pub open spec fn lead_end(s: Seq<char>, i: int) -> int
    decreases s.len() - i,
{
    if i < 0 || i >= s.len() {
        s.len() as int
    } else if is_space_spec(s[i]) {
        lead_end(s, i + 1)
    } else {
        i
    }
}

/// The end of `s[..j]` once the whitespace that closes it is dropped.
pub open spec fn trail_start(s: Seq<char>, j: int) -> int
    decreases j,
{
    if j <= 0 || j > s.len() {
        0
    } else if is_space_spec(s[j - 1]) {
        trail_start(s, j - 1)
    } else {
        j
    }
}

/// `s` without its leading and trailing whitespace.
pub open spec fn trimmed(s: Seq<char>) -> Seq<char> {
    let a = lead_end(s, 0);
    let b = trail_start(s, s.len() as int);
    if a < b {
        s.subrange(a, b)
    } else {
        Seq::empty()
    }
}

pub proof fn lemma_lead_end_bounds(s: Seq<char>, i: int)
    requires
        0 <= i <= s.len(),
    ensures
        i <= lead_end(s, i) <= s.len(),
    decreases s.len() - i,
{
    if i < s.len() && is_space_spec(s[i]) {
        lemma_lead_end_bounds(s, i + 1);
    }
}

pub proof fn lemma_trail_start_bounds(s: Seq<char>, j: int)
    requires
        0 <= j <= s.len(),
    ensures
        0 <= trail_start(s, j) <= j,
    decreases j,
{
    if j > 0 && is_space_spec(s[j - 1]) {
        lemma_trail_start_bounds(s, j - 1);
    }
}

/// A string that neither starts nor ends with whitespace is its own trim.
pub proof fn lemma_trimmed_unchanged(s: Seq<char>)
    requires
        s.len() > 0,
        !is_space_spec(s[0]),
        !is_space_spec(s[s.len() - 1]),
    ensures
        trimmed(s) == s,
{
    assert(lead_end(s, 0) == 0);
    assert(trail_start(s, s.len() as int) == s.len());
    assert(s.subrange(0, s.len() as int) =~= s);
}

/// `s` without its leading and trailing whitespace.
pub fn trim(s: &str) -> (r: &str)
    ensures
        r@ == trimmed(s@),
{
    let n = s.unicode_len();
    let mut a: usize = 0;
    while a < n && is_space(s.get_char(a))
        invariant
            n == s@.len(),
            0 <= a <= n,
            lead_end(s@, a as int) == lead_end(s@, 0),
        decreases n - a,
    {
        a = a + 1;
    }
    let mut b: usize = n;
    while b > 0 && is_space(s.get_char(b - 1))
        invariant
            n == s@.len(),
            0 <= b <= n,
            trail_start(s@, b as int) == trail_start(s@, n as int),
        decreases b,
    {
        b = b - 1;
    }
    if a < b {
        s.substring_char(a, b)
    } else {
        proof {
            assert(s@.subrange(0, 0) =~= Seq::<char>::empty());
        }
        s.substring_char(0, 0)
    }
}

/// Whether the scheme separator `://` starts at index `i` of `s`.
pub open spec fn sep_at(s: Seq<char>, i: int) -> bool {
    0 <= i && i + 3 <= s.len() && s[i] == ':' && s[i + 1] == '/' && s[i + 2] == '/'
}

/// The first index at or after `i` where `://` starts (the length of `s` if none).
pub open spec fn sep_from(s: Seq<char>, i: int) -> int
    decreases s.len() - i,
{
    if i < 0 || i >= s.len() {
        s.len() as int
    } else if sep_at(s, i) {
        i
    } else {
        sep_from(s, i + 1)
    }
}

/// The first index at or after `i` that holds `c` (the length of `s` if none).
pub open spec fn char_from(s: Seq<char>, c: char, i: int) -> int
    decreases s.len() - i,
{
    if i < 0 || i >= s.len() {
        s.len() as int
    } else if s[i] == c {
        i
    } else {
        char_from(s, c, i + 1)
    }
}

/// Where `c` is absent from `s[i..]`, the search runs to the end.
pub proof fn lemma_char_from_absent(s: Seq<char>, c: char, i: int)
    requires
        0 <= i <= s.len(),
        forall|k: int| i <= k < s.len() ==> s[k] != c,
    ensures
        char_from(s, c, i) == s.len(),
    decreases s.len() - i,
{
    if i < s.len() {
        lemma_char_from_absent(s, c, i + 1);
    }
}

/// The search for `c` from `i` stops at `j` when `s[j] == c` and `s[i..j]` lacks it.
pub proof fn lemma_char_from_found(s: Seq<char>, c: char, i: int, j: int)
    requires
        0 <= i <= j < s.len(),
        s[j] == c,
        forall|k: int| i <= k < j ==> s[k] != c,
    ensures
        char_from(s, c, i) == j,
    decreases j - i,
{
    if i < j {
        lemma_char_from_found(s, c, i + 1, j);
    }
}

pub proof fn lemma_char_from_bounds(s: Seq<char>, c: char, i: int)
    requires
        0 <= i <= s.len(),
    ensures
        i <= char_from(s, c, i) <= s.len(),
        char_from(s, c, i) < s.len() ==> s[char_from(s, c, i)] == c,
    decreases s.len() - i,
{
    if i < s.len() && s[i] != c {
        lemma_char_from_bounds(s, c, i + 1);
    }
}

pub proof fn lemma_sep_from_bounds(s: Seq<char>, i: int)
    requires
        0 <= i <= s.len(),
    ensures
        i <= sep_from(s, i) <= s.len(),
        sep_from(s, i) < s.len() ==> sep_at(s, sep_from(s, i)),
    decreases s.len() - i,
{
    if i < s.len() && !sep_at(s, i) {
        lemma_sep_from_bounds(s, i + 1);
    }
}

/// The search for `://` from `i` stops at `j` when it starts there and not before.
pub proof fn lemma_sep_from_found(s: Seq<char>, i: int, j: int)
    requires
        0 <= i <= j,
        sep_at(s, j),
        forall|k: int| i <= k < j ==> !sep_at(s, k),
    ensures
        sep_from(s, i) == j,
    decreases j - i,
{
    if i < j {
        lemma_sep_from_found(s, i + 1, j);
    }
}

/// The search for `c` from `i` stops no later than any index that holds `c`.
pub proof fn lemma_char_from_first(s: Seq<char>, c: char, i: int, j: int)
    requires
        0 <= i <= j < s.len(),
        s[j] == c,
    ensures
        char_from(s, c, i) <= j,
    decreases j - i,
{
    if i < j && s[i] != c {
        lemma_char_from_first(s, c, i + 1, j);
    }
}

/// Where no `://` starts in `s[i..]`, the search runs to the end.
pub proof fn lemma_sep_from_absent(s: Seq<char>, i: int)
    requires
        0 <= i <= s.len(),
        forall|k: int| i <= k < s.len() ==> !sep_at(s, k),
    ensures
        sep_from(s, i) == s.len(),
    decreases s.len() - i,
{
    if i < s.len() {
        lemma_sep_from_absent(s, i + 1);
    }
}

/// Every character before `lead_end(s, i)`, from `i` on, is whitespace.
pub proof fn lemma_lead_is_space(s: Seq<char>, i: int, k: int)
    requires
        0 <= i <= k < lead_end(s, i),
        k < s.len(),
    ensures
        is_space_spec(s[k]),
    decreases k - i,
{
    if i < k {
        lemma_lead_is_space(s, i + 1, k);
    }
}

/// The first index at or after `from` that holds `c` (the length of `s` if none).
pub fn find_char(s: &str, c: char, from: usize) -> (r: usize)
    requires
        from <= s@.len(),
    ensures
        r as int == char_from(s@, c, from as int),
{
    let n = s.unicode_len();
    let mut i: usize = from;
    while i < n && s.get_char(i) != c
        invariant
            n == s@.len(),
            from <= i <= n,
            char_from(s@, c, i as int) == char_from(s@, c, from as int),
        decreases n - i,
    {
        i = i + 1;
    }
    i
}

/// The first index where `://` starts in `s` (the length of `s` if none).
pub fn find_separator(s: &str) -> (r: usize)
    ensures
        r as int == sep_from(s@, 0),
{
    let n = s.unicode_len();
    let mut i: usize = 0;
    while i < n && !(3 <= n - i && s.get_char(i) == ':' && s.get_char(i + 1) == '/'
        && s.get_char(i + 2) == '/')
        invariant
            n == s@.len(),
            0 <= i <= n,
            sep_from(s@, i as int) == sep_from(s@, 0),
        decreases n - i,
    {
        i = i + 1;
    }
    i
}

} // verus!
