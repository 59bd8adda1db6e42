//! Small helpers on text: exact and case-folded comparison, and the lookup
//! of a name in a list of names.

use vstd::prelude::*;
use vstd::string::*;

verus! {

/// Whether `s` has exactly the characters of `lit`.
pub fn same_text(s: &str, lit: &str) -> (r: bool)
    ensures
        r == (s@ == lit@),
{
    String::from_str(s) == String::from_str(lit)
}

/// Whether `c` is one of the letters `a` to `z`.
pub open spec fn is_lower_letter(c: char) -> bool {
    'a' <= c && c <= 'z'
}

/// Whether `c` is one of the letters `A` to `Z`.
pub open spec fn is_upper_letter(c: char) -> bool {
    'A' <= c && c <= 'Z'
}

/// Whether two characters are equal up to the case of an ASCII letter.
pub open spec fn same_letter(a: char, b: char) -> bool {
    ||| a == b
    ||| is_lower_letter(a) && is_upper_letter(b) && a as u32 == b as u32 + 32
    ||| is_upper_letter(a) && is_lower_letter(b) && a as u32 + 32 == b as u32
}

/// Whether two texts are equal up to the case of their ASCII letters.
pub open spec fn same_folded(a: Seq<char>, b: Seq<char>) -> bool {
    &&& a.len() == b.len()
    &&& forall|i: int| 0 <= i < a.len() ==> same_letter(#[trigger] a[i], b[i])
}

/// Compares two characters up to the case of an ASCII letter.
pub(crate) fn letters_match(a: char, b: char) -> (r: bool)
    ensures
        r == same_letter(a, b),
{
    if a == b {
        true
    } else if 'a' <= a && a <= 'z' && 'A' <= b && b <= 'Z' {
        a as u32 == b as u32 + 32
    } else if 'A' <= a && a <= 'Z' && 'a' <= b && b <= 'z' {
        a as u32 + 32 == b as u32
    } else {
        false
    }
}

/// Compares two texts up to the case of their ASCII letters.
pub fn folded_match(a: &str, b: &str) -> (r: bool)
    ensures
        r == same_folded(a@, b@),
{
    let n = a.unicode_len();
    if n != b.unicode_len() {
        return false;
    }
    let mut i: usize = 0;
    while i < n
        invariant
            n == a@.len(),
            n == b@.len(),
            i <= n,
            forall|j: int| 0 <= j < i ==> same_letter(#[trigger] a@[j], b@[j]),
        decreases n - i,
    {
        if !letters_match(a.get_char(i), b.get_char(i)) {
            return false;
        }
        i += 1;
    }
    true
}

/// Whether `i` is the first place in `names` where `name` stands.
pub open spec fn is_first(names: Seq<Seq<char>>, name: Seq<char>, i: int) -> bool {
    &&& 0 <= i < names.len()
    &&& names[i] == name
    &&& forall|j: int| 0 <= j < i ==> names[j] != name
}

/// The first place in `names` where `name` stands.
pub open spec fn position(names: Seq<Seq<char>>, name: Seq<char>) -> Option<int> {
    if exists|i: int| is_first(names, name, i) {
        Some(choose|i: int| is_first(names, name, i))
    } else {
        None
    }
}

/// Whether the name at `j` also stands somewhere before `j`.
pub open spec fn repeats_at(names: Seq<Seq<char>>, j: int) -> bool {
    0 <= j < names.len() && exists|i: int| 0 <= i < j && names[i] == names[j]
}

/// Whether `j` is the first place in `names` whose name stands earlier too.
pub open spec fn is_first_repeat(names: Seq<Seq<char>>, j: int) -> bool {
    repeats_at(names, j) && forall|i: int| 0 <= i < j ==> !repeats_at(names, i)
}

/// The first place in `names` whose name stands earlier too.
pub open spec fn first_repeat(names: Seq<Seq<char>>) -> Option<int> {
    if exists|j: int| is_first_repeat(names, j) {
        Some(choose|j: int| is_first_repeat(names, j))
    } else {
        None
    }
}

/// Whether no name stands twice in `names`.
pub open spec fn distinct(names: Seq<Seq<char>>) -> bool {
    forall|i: int, j: int| 0 <= i < j < names.len() ==> names[i] != names[j]
}

/// The place `i` is the first of `name` only for one `i`.
pub proof fn position_is(names: Seq<Seq<char>>, name: Seq<char>, i: int)
    requires
        is_first(names, name, i),
    ensures
        position(names, name) == Some(i),
{
    let c = choose|c: int| is_first(names, name, c);
    assert(c == i) by {
        if c < i {
            assert(names[c] != name);
        }
        if i < c {
            assert(names[i] != name);
        }
    }
}

/// A name that stands nowhere in `names` has no position.
pub proof fn position_is_none(names: Seq<Seq<char>>, name: Seq<char>)
    requires
        forall|j: int| 0 <= j < names.len() ==> names[j] != name,
    ensures
        position(names, name) is None,
{
}

/// Among distinct names, each stands at its own position.
pub proof fn position_of_distinct(names: Seq<Seq<char>>, i: int)
    requires
        distinct(names),
        0 <= i < names.len(),
    ensures
        position(names, names[i]) == Some(i),
{
    assert(is_first(names, names[i], i));
    position_is(names, names[i], i);
}

/// The texts of a sequence of strings.
pub open spec fn texts(s: Seq<String>) -> Seq<Seq<char>> {
    Seq::new(s.len(), |i: int| s[i]@)
}

/// Finds the first place in `names` where `name` stands.
pub fn find_name(names: &Vec<String>, name: &str) -> (r: Option<usize>)
    ensures
        match r {
            Some(i) => position(texts(names@), name@) == Some(i as int),
            None => position(texts(names@), name@) is None,
        },
{
    let mut i: usize = 0;
    while i < names.len()
        invariant
            i <= names.len(),
            forall|j: int| 0 <= j < i ==> texts(names@)[j] != name@,
        decreases names.len() - i,
    {
        if same_text(names[i].as_str(), name) {
            proof {
                position_is(texts(names@), name@, i as int);
            }
            return Some(i);
        }
        i += 1;
    }
    proof {
        position_is_none(texts(names@), name@);
    }
    None
}

/// Finds the first place in `names` whose name stands earlier too.
pub fn find_repeat(names: &Vec<String>) -> (r: Option<usize>)
    ensures
        match r {
            Some(j) => first_repeat(texts(names@)) == Some(j as int) && j < names.len(),
            None => first_repeat(texts(names@)) is None && distinct(texts(names@)),
        },
{
    let ghost t = texts(names@);
    let mut j: usize = 0;
    while j < names.len()
        invariant
            j <= names.len(),
            t == texts(names@),
            forall|i: int| 0 <= i < j ==> !repeats_at(t, i),
        decreases names.len() - j,
    {
        let mut i: usize = 0;
        while i < j
            invariant
                i <= j,
                j < names.len(),
                t == texts(names@),
                forall|k: int| 0 <= k < j ==> !repeats_at(t, k),
                forall|k: int| 0 <= k < i ==> t[k] != t[j as int],
            decreases j - i,
        {
            if names[i] == names[j] {
                proof {
                    assert(t[i as int] == t[j as int]);
                    assert(repeats_at(t, j as int));
                    assert(is_first_repeat(t, j as int));
                    let c = choose|c: int| is_first_repeat(t, c);
                    assert(c == j) by {
                        if c < j {
                            assert(!repeats_at(t, c));
                        }
                        if j < c {
                            assert(!repeats_at(t, j as int));
                        }
                    }
                }
                return Some(j);
            }
            i += 1;
        }
        j += 1;
    }
    proof {
        assert forall|a: int, b: int| 0 <= a < b < t.len() implies t[a] != t[b] by {
            if t[a] == t[b] {
                assert(repeats_at(t, b));
            }
        }
    }
    None
}

} // verus!
