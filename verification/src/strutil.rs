//! Character-level string utilities: locating a character, trimming
//! surrounding blanks, and splitting on a separator character.

use vstd::prelude::*;

verus! {

/// The views of a sequence of strings.
pub open spec fn strs_view(s: Seq<String>) -> Seq<Seq<char>> {
    s.map_values(|t: String| t@)
}

/// The blank characters stripped by `trim_blanks`.
pub open spec fn is_blank(c: char) -> bool {
    c == ' ' || c == '\t' || c == '\r' || c == '\n'
}

/// A string with leading and trailing blanks removed.
pub open spec fn spec_trim(s: Seq<char>) -> Seq<char>
    decreases s.len(),
{
    if s.len() == 0 {
        s
    } else if is_blank(s[0]) {
        spec_trim(s.subrange(1, s.len() as int))
    } else if is_blank(s.last()) {
        spec_trim(s.drop_last())
    } else {
        s
    }
}

/// The pieces of a string split on every occurrence of `c`; `n` separators
/// yield `n + 1` pieces, empty pieces included.
pub open spec fn split_at_char(s: Seq<char>, c: char) -> Seq<Seq<char>>
    decreases s.len(),
    via split_at_char_decreases
{
    match s.index_of_last(c) {
        Some(i) => split_at_char(s.subrange(0, i), c).push(s.subrange(i + 1, s.len() as int)),
        None => seq![s],
    }
}

#[via_fn]
proof fn split_at_char_decreases(s: Seq<char>, c: char) {
    s.index_of_last_ensures(c);
}

/// The position of the last occurrence of `c` in `s`, if any.
pub fn rfind_char(s: &str, c: char) -> (r: Option<usize>)
    ensures
        match r {
            Some(i) => s@.index_of_last(c) == Some(i as int),
            None => s@.index_of_last(c) is None,
        },
{
    let n = s.unicode_len();
    let mut i: usize = n;
    while i > 0
        invariant
            i <= n == s@.len(),
            forall|j: int| i <= j < s@.len() ==> s@[j] != c,
        decreases i,
    {
        i -= 1;
        if s.get_char(i) == c {
            proof {
                s@.index_of_last_ensures(c);
            }
            return Some(i);
        }
    }
    proof {
        s@.index_of_last_ensures(c);
    }
    None
}

/// The position of the first occurrence of `c` in `s`, if any.
pub fn find_char(s: &str, c: char) -> (r: Option<usize>)
    ensures
        match r {
            Some(i) => s@.index_of_first(c) == Some(i as int),
            None => s@.index_of_first(c) is None,
        },
{
    let n = s.unicode_len();
    let mut i: usize = 0;
    while i < n
        invariant
            i <= n == s@.len(),
            forall|j: int| 0 <= j < i ==> s@[j] != c,
        decreases n - i,
    {
        if s.get_char(i) == c {
            proof {
                s@.index_of_first_ensures(c);
            }
            return Some(i);
        }
        i += 1;
    }
    proof {
        s@.index_of_first_ensures(c);
    }
    None
}

/// When every character is blank, trimming leaves nothing.
proof fn lemma_trim_all_blank(s: Seq<char>)
    requires
        forall|j: int| 0 <= j < s.len() ==> is_blank(s[j]),
    ensures
        spec_trim(s) == Seq::<char>::empty(),
    decreases s.len(),
{
    if s.len() > 0 {
        lemma_trim_all_blank(s.subrange(1, s.len() as int));
    } else {
        assert(s =~= Seq::<char>::empty());
    }
}

/// Trimming keeps exactly the span from the first to the last non-blank
/// character.
proof fn lemma_trim_range(s: Seq<char>, a: int, b: int)
    requires
        0 <= a <= b < s.len(),
        !is_blank(s[a]),
        !is_blank(s[b]),
        forall|j: int| 0 <= j < a ==> is_blank(s[j]),
        forall|j: int| b < j < s.len() ==> is_blank(s[j]),
    ensures
        spec_trim(s) == s.subrange(a, b + 1),
    decreases s.len(),
{
    if a > 0 {
        let t = s.subrange(1, s.len() as int);
        lemma_trim_range(t, a - 1, b - 1);
        assert(t.subrange(a - 1, b) =~= s.subrange(a, b + 1));
    } else if b < s.len() - 1 {
        let t = s.drop_last();
        lemma_trim_range(t, a, b);
        assert(t.subrange(a, b + 1) =~= s.subrange(a, b + 1));
    } else {
        assert(spec_trim(s) == s);
        assert(s.subrange(0, s.len() as int) =~= s);
    }
}

/// Whether `c` counts as a blank for trimming.
pub fn is_blank_char(c: char) -> (r: bool)
    ensures
        r == is_blank(c),
{
    c == ' ' || c == '\t' || c == '\r' || c == '\n'
}

/// Removes leading and trailing blanks.
pub fn trim_blanks(s: &str) -> (r: String)
    ensures
        r@ == spec_trim(s@),
{
    let n = s.unicode_len();
    let mut a: usize = 0;
    while a < n && is_blank_char(s.get_char(a))
        invariant
            a <= n == s@.len(),
            forall|j: int| 0 <= j < a ==> is_blank(s@[j]),
        decreases n - a,
    {
        a += 1;
    }
    if a == n {
        proof {
            lemma_trim_all_blank(s@);
        }
        return String::new();
    }
    let mut b: usize = n - 1;
    while b > a && is_blank_char(s.get_char(b))
        invariant
            a <= b < n == s@.len(),
            forall|j: int| b < j < s@.len() ==> is_blank(s@[j]),
        decreases b,
    {
        b -= 1;
    }
    proof {
        lemma_trim_range(s@, a as int, b as int);
    }
    s.substring_char(a, b + 1).to_owned()
}

/// Splits `s` on every occurrence of `c`; empty pieces are kept, so `n`
/// separators yield `n + 1` pieces.
pub fn split_char(s: &str, c: char) -> (r: Vec<String>)
    ensures
        strs_view(r@) == split_at_char(s@, c),
    decreases s@.len(),
{
    proof {
        s@.index_of_last_ensures(c);
    }
    match rfind_char(s, c) {
        None => {
            let mut v: Vec<String> = Vec::new();
            v.push(s.to_owned());
            proof {
                assert(strs_view(v@) =~= seq![s@]);
            }
            v
        },
        Some(i) => {
            let n = s.unicode_len();
            let prefix = s.substring_char(0, i);
            let mut v = split_char(prefix, c);
            let ghost before = strs_view(v@);
            v.push(s.substring_char(i + 1, n).to_owned());
            proof {
                assert(strs_view(v@) =~= before.push(s@.subrange(i + 1, s@.len() as int)));
            }
            v
        },
    }
}

} // verus!
