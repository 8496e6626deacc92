//! The name mangler: canonicalization of free-text descriptions into
//! identifiers, and the per-scope collision check.
//!
//! A description is canonicalized by lowering ASCII letters, keeping digits
//! and underscores, replacing every other character with the separator `_`,
//! and collapsing each run of separators into a single one.  The mapping is
//! a pure function of the description, so generated identifiers are stable
//! across runs.

use vstd::prelude::*;

verus! {

/// The canonical form of one character: ASCII lowercase letters, digits and
/// `_` stand for themselves, uppercase letters are lowered, and every other
/// character becomes the separator `_`.
pub open spec fn canon_char(c: char) -> char {
    if 'a' <= c && c <= 'z' {
        c
    } else if '0' <= c && c <= '9' {
        c
    } else if 'A' <= c && c <= 'Z' {
        (((c as u8) + 32) as char)
    } else {
        '_'
    }
}

/// Canonical identifier of the suffix of `s` starting at `i`, where
/// `prev_sep` says whether the last character already emitted was the
/// separator (so a following separator is dropped rather than repeated).
pub open spec fn canon_from(s: Seq<char>, i: int, prev_sep: bool) -> Seq<char>
    decreases s.len() - i,
{
    if i < 0 || i >= s.len() {
        Seq::empty()
    } else {
        let c = canon_char(s[i]);
        if c == '_' {
            if prev_sep {
                canon_from(s, i + 1, true)
            } else {
                seq!['_'] + canon_from(s, i + 1, true)
            }
        } else {
            seq![c] + canon_from(s, i + 1, false)
        }
    }
}

/// The canonical identifier of a whole description.
pub open spec fn canon(s: Seq<char>) -> Seq<char> {
    canon_from(s, 0, false)
}

/// Canonicalizes a free-text description into an identifier.
pub fn canonicalize(desc: &Vec<char>) -> (r: Vec<char>)
    ensures
        r@ == canon(desc@),
{
    let mut r: Vec<char> = Vec::new();
    let mut i: usize = 0;
    let mut prev_sep: bool = false;
    proof {
        assert(canon(desc@) =~= r@ + canon_from(desc@, 0, false));
    }
    while i < desc.len()
        invariant
            i <= desc.len(),
            canon(desc@) == r@ + canon_from(desc@, i as int, prev_sep),
        decreases desc.len() - i,
    {
        let c = desc[i];
        let k: char = if 'a' <= c && c <= 'z' {
            c
        } else if '0' <= c && c <= '9' {
            c
        } else if 'A' <= c && c <= 'Z' {
            ((c as u8) + 32) as char
        } else {
            '_'
        };
        assert(k == canon_char(desc@[i as int]));
        if k == '_' {
            if !prev_sep {
                r.push('_');
            }
            prev_sep = true;
        } else {
            r.push(k);
            prev_sep = false;
        }
        i = i + 1;
        proof {
            assert(canon(desc@) =~= r@ + canon_from(desc@, i as int, prev_sep));
        }
    }
    proof {
        assert(canon_from(desc@, i as int, prev_sep) =~= Seq::<char>::empty());
        assert(canon(desc@) =~= r@);
    }
    r
}

/// Compares two character vectors for equality of their contents.
pub fn chars_eq(a: &Vec<char>, b: &Vec<char>) -> (r: bool)
    ensures
        r == (a@ == b@),
{
    if a.len() != b.len() {
        proof {
            assert(a@.len() != b@.len());
        }
        return false;
    }
    let mut i: usize = 0;
    while i < a.len()
        invariant
            i <= a.len(),
            a@.len() == b@.len(),
            forall|j: int| 0 <= j < i ==> a@[j] == b@[j],
        decreases a.len() - i,
    {
        if a[i] != b[i] {
            return false;
        }
        i = i + 1;
    }
    proof {
        assert(a@ =~= b@);
    }
    true
}

/// Copies a character vector.
pub fn copy_chars(v: &Vec<char>) -> (r: Vec<char>)
    ensures
        r@ == v@,
{
    let mut r: Vec<char> = Vec::new();
    let mut i: usize = 0;
    while i < v.len()
        invariant
            i <= v.len(),
            r@ == v@.subrange(0, i as int),
        decreases v.len() - i,
    {
        r.push(v[i]);
        i = i + 1;
        proof {
            assert(r@ =~= v@.subrange(0, i as int));
        }
    }
    proof {
        assert(v@.subrange(0, v@.len() as int) =~= v@);
    }
    r
}

/// The mathematical value of a statement sequence: each statement as its
/// character sequence.
pub open spec fn stmts_model(v: Seq<Vec<char>>) -> Seq<Seq<char>> {
    v.map_values(|s: Vec<char>| s@)
}

/// Copies a statement sequence.
pub fn copy_stmts(v: &Vec<Vec<char>>) -> (r: Vec<Vec<char>>)
    ensures
        stmts_model(r@) == stmts_model(v@),
        r@.len() == v@.len(),
        forall|j: int| 0 <= j < v@.len() ==> r@[j]@ == v@[j]@,
{
    let mut r: Vec<Vec<char>> = Vec::new();
    let mut i: usize = 0;
    while i < v.len()
        invariant
            i <= v.len(),
            r@.len() == i,
            forall|j: int| 0 <= j < i ==> r@[j]@ == v@[j]@,
        decreases v.len() - i,
    {
        r.push(copy_chars(&v[i]));
        i = i + 1;
    }
    proof {
        assert(stmts_model(r@) =~= stmts_model(v@));
    }
    r
}

/// Concatenates two statement sequences into a fresh one.
pub fn concat_stmts(a: &Vec<Vec<char>>, b: &Vec<Vec<char>>) -> (r: Vec<Vec<char>>)
    ensures
        stmts_model(r@) == stmts_model(a@) + stmts_model(b@),
{
    let mut r: Vec<Vec<char>> = copy_stmts(a);
    let mut i: usize = 0;
    while i < b.len()
        invariant
            i <= b.len(),
            r@.len() == a@.len() + i,
            forall|j: int| 0 <= j < a@.len() ==> r@[j]@ == a@[j]@,
            forall|j: int| 0 <= j < i ==> r@[a@.len() + j]@ == b@[j]@,
        decreases b.len() - i,
    {
        r.push(copy_chars(&b[i]));
        i = i + 1;
    }
    proof {
        assert(stmts_model(r@) =~= stmts_model(a@) + stmts_model(b@));
    }
    r
}

/// Whether an identifier already stands in the used set.
pub fn contains_chars(used: &Vec<Vec<char>>, id: &Vec<char>) -> (r: bool)
    ensures
        r == stmts_model(used@).contains(id@),
{
    let mut i: usize = 0;
    while i < used.len()
        invariant
            i <= used.len(),
            forall|j: int| 0 <= j < i ==> stmts_model(used@)[j] != id@,
        decreases used.len() - i,
    {
        if chars_eq(&used[i], id) {
            proof {
                assert(stmts_model(used@)[i as int] == id@);
            }
            return true;
        }
        i = i + 1;
    }
    proof {
        assert(forall|j: int| 0 <= j < stmts_model(used@).len() ==> stmts_model(used@)[j] != id@);
    }
    false
}

/// Mangles a free-text description into an identifier unique within the
/// enclosing scope: the canonical form of the description, rejected when a
/// sibling already claimed it.
pub fn mangle(desc: &Vec<char>, used: &Vec<Vec<char>>) -> (r: Result<
    Vec<char>,
    crate::errors::TransformError,
>)
    ensures
        stmts_model(used@).contains(canon(desc@)) ==> r == Err::<
            Vec<char>,
            crate::errors::TransformError,
        >(crate::errors::TransformError::IdentifierCollision),
        !stmts_model(used@).contains(canon(desc@)) ==> (r matches Ok(id) && id@ == canon(desc@)),
{
    let id = canonicalize(desc);
    if contains_chars(used, &id) {
        Err(crate::errors::TransformError::IdentifierCollision)
    } else {
        Ok(id)
    }
}

/// Canonicalization is deterministic: the same description always yields
/// the same identifier, whatever else the document holds — the mapping is a
/// pure function of the description's characters and of nothing else.
pub proof fn lemma_canonicalization_deterministic(a: Seq<char>, b: Seq<char>)
    requires
        a == b,
    ensures
        canon(a) == canon(b),
{
}

} // verus!
