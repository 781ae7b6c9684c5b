//! Verified string comparison and name-set membership.
//!
//! Player names, team names and position labels are plain strings. The
//! protected and upgraded sets are vectors of names whose specification view
//! is the set of character sequences they contain.

use vstd::prelude::*;
use vstd::string::StrSliceExecFns;

verus! {

/// Decides whether two strings hold the same characters.
pub fn str_eq(a: &str, b: &str) -> (r: bool)
    ensures
        r == (a@ == b@),
{
    let a_len = a.unicode_len();
    let b_len = b.unicode_len();
    if a_len != b_len {
        return false;
    }
    let mut i: usize = 0;
    while i < a_len
        invariant
            0 <= i <= a_len,
            a_len == a@.len(),
            a_len == b@.len(),
            forall|j: int| 0 <= j < i ==> a@[j] == b@[j],
        decreases a_len - i,
    {
        if a.get_char(i) != b.get_char(i) {
            return false;
        }
        i = i + 1;
    }
    proof {
        assert(a@ =~= b@);
    }
    true
}

/// Strict lexicographic order on character sequences, by code point, with a
/// proper prefix ordered before its extensions.
pub open spec fn lex_lt(a: Seq<char>, b: Seq<char>) -> bool
    decreases a.len(),
{
    if b.len() == 0 {
        false
    } else if a.len() == 0 {
        true
    } else if (a[0] as u32) < (b[0] as u32) {
        true
    } else if (a[0] as u32) > (b[0] as u32) {
        false
    } else {
        lex_lt(a.skip(1), b.skip(1))
    }
}

/// Dropping a common prefix does not change the lexicographic order.
proof fn lemma_lex_lt_skip(a: Seq<char>, b: Seq<char>, i: int)
    requires
        0 <= i <= a.len(),
        i <= b.len(),
        forall|j: int| 0 <= j < i ==> a[j] == b[j],
    ensures
        lex_lt(a, b) == lex_lt(a.skip(i), b.skip(i)),
    decreases i,
{
    if i > 0 {
        assert(a.len() > 0 && b.len() > 0);
        assert(a[0] == b[0]);
        assert(lex_lt(a, b) == lex_lt(a.skip(1), b.skip(1)));
        lemma_lex_lt_skip(a.skip(1), b.skip(1), i - 1);
        assert(a.skip(1).skip(i - 1) =~= a.skip(i));
        assert(b.skip(1).skip(i - 1) =~= b.skip(i));
    } else {
        assert(a.skip(0) =~= a);
        assert(b.skip(0) =~= b);
    }
}

/// Decides the lexicographic order of two strings.
pub fn str_less(a: &str, b: &str) -> (r: bool)
    ensures
        r == lex_lt(a@, b@),
{
    let a_len = a.unicode_len();
    let b_len = b.unicode_len();
    let short = if a_len < b_len {
        a_len
    } else {
        b_len
    };
    let mut i: usize = 0;
    while i < short
        invariant
            0 <= i <= short,
            a_len == a@.len(),
            b_len == b@.len(),
            short <= a_len,
            short <= b_len,
            (short == a_len || short == b_len),
            forall|j: int| 0 <= j < i ==> a@[j] == b@[j],
        decreases short - i,
    {
        let ca = a.get_char(i);
        let cb = b.get_char(i);
        if (ca as u32) < (cb as u32) {
            proof {
                lemma_lex_lt_skip(a@, b@, i as int);
            }
            return true;
        }
        if (ca as u32) > (cb as u32) {
            proof {
                lemma_lex_lt_skip(a@, b@, i as int);
            }
            return false;
        }
        proof {
            assert(ca == cb);
        }
        i = i + 1;
    }
    proof {
        lemma_lex_lt_skip(a@, b@, short as int);
    }
    a_len < b_len
}

/// The set of character sequences held by a vector of strings.
pub open spec fn name_set(v: Seq<String>) -> Set<Seq<char>> {
    Set::new(|n: Seq<char>| exists|i: int| 0 <= i < v.len() && v[i]@ == n)
}

/// Decides membership of `name` in the name set of `v`.
pub fn contains_name(v: &Vec<String>, name: &String) -> (r: bool)
    ensures
        r == name_set(v@).contains(name@),
{
    let mut i: usize = 0;
    while i < v.len()
        invariant
            0 <= i <= v@.len(),
            forall|j: int| 0 <= j < i ==> v@[j]@ != name@,
        decreases v@.len() - i,
    {
        if str_eq(v[i].as_str(), name.as_str()) {
            proof {
                assert(v@[i as int]@ == name@);
            }
            return true;
        }
        i = i + 1;
    }
    proof {
        assert(!name_set(v@).contains(name@));
    }
    false
}

/// Appends a name; the name set afterwards is the old set with `name` added.
pub fn add_name(v: &mut Vec<String>, name: &String)
    ensures
        name_set(final(v)@) == name_set(old(v)@).insert(name@),
{
    v.push(name.clone());
    proof {
        assert forall|n: Seq<char>| name_set(v@).contains(n) implies name_set(old(v)@).insert(
            name@,
        ).contains(n) by {
            let i = choose|i: int| 0 <= i < v@.len() && v@[i]@ == n;
            if i < old(v)@.len() {
                assert(name_set(old(v)@).contains(n));
            } else {
                assert(n == name@);
            }
        }
        assert forall|n: Seq<char>| name_set(old(v)@).insert(name@).contains(n) implies name_set(
            v@,
        ).contains(n) by {
            if n == name@ {
                assert(v@[v@.len() - 1]@ == n);
            } else {
                let i = choose|i: int| 0 <= i < old(v)@.len() && old(v)@[i]@ == n;
                assert(v@[i]@ == n);
            }
        }
        assert(name_set(v@) =~= name_set(old(v)@).insert(name@));
    }
}

/// The lexicographic order is transitive.
pub proof fn lemma_lex_lt_trans(a: Seq<char>, b: Seq<char>, c: Seq<char>)
    requires
        lex_lt(a, b),
        lex_lt(b, c),
    ensures
        lex_lt(a, c),
    decreases a.len(),
{
    if c.len() == 0 {
    } else if b.len() == 0 {
    } else if a.len() == 0 {
    } else {
        if (a[0] as u32) < (b[0] as u32) {
            if (b[0] as u32) < (c[0] as u32) {
            } else {
                assert(b[0] as u32 == c[0] as u32);
            }
        } else {
            assert(a[0] as u32 == b[0] as u32);
            if (b[0] as u32) < (c[0] as u32) {
            } else {
                assert(b[0] as u32 == c[0] as u32);
                lemma_lex_lt_trans(a.skip(1), b.skip(1), c.skip(1));
            }
        }
    }
}

/// Two strings with neither below the other are equal.
pub proof fn lemma_lex_lt_connex(a: Seq<char>, b: Seq<char>)
    requires
        !lex_lt(a, b),
        !lex_lt(b, a),
    ensures
        a == b,
    decreases a.len(),
{
    if a.len() == 0 {
        assert(b.len() == 0);
        assert(a =~= b);
    } else if b.len() == 0 {
    } else {
        assert(a[0] as u32 == b[0] as u32);
        assert(a[0] == b[0]) by {
            vstd::utf8::char_u32_cast(a[0], a[0] as u32);
            vstd::utf8::char_u32_cast(b[0], b[0] as u32);
        }
        lemma_lex_lt_connex(a.skip(1), b.skip(1));
        assert(a =~= seq![a[0]] + a.skip(1));
        assert(b =~= seq![b[0]] + b.skip(1));
    }
}

/// Decodes the boolean field encoding of the roster files: exactly the
/// literal strings denote a boolean, any other text is rejected.
pub fn parse_bool(s: &str) -> (r: Option<bool>)
    ensures
        s@ == "True"@ ==> r == Some(true),
        s@ != "True"@ && s@ == "False"@ ==> r == Some(false),
        s@ != "True"@ && s@ != "False"@ ==> r is None,
{
    if str_eq(s, "True") {
        Some(true)
    } else if str_eq(s, "False") {
        Some(false)
    } else {
        None
    }
}

} // verus!
