//! Equality and lexicographic order of strings, over their characters.
//!
//! Rust orders `str` by bytes, which for valid UTF-8 is the order of the code
//! points; the order defined here is that one, stated on `Seq<char>`.
use vstd::prelude::*;
use vstd::string::*;

verus! {

/// Where one string stands relative to another.
#[derive(Clone, Copy, Debug, PartialEq, Eq, Structural)]
pub enum Rank {
    Before,
    Same,
    After,
}

/// `a` and `b` have the same first `k` characters.
pub open spec fn agree(a: Seq<char>, b: Seq<char>, k: int) -> bool {
    &&& 0 <= k <= a.len()
    &&& k <= b.len()
    &&& forall|j: int| 0 <= j < k ==> a[j] == b[j]
}

/// `a` and `b` agree on `k` characters, and then `a` ends or has the smaller one.
pub open spec fn parts_at(a: Seq<char>, b: Seq<char>, k: int) -> bool {
    &&& agree(a, b, k)
    &&& k < b.len()
    &&& k < a.len() ==> (a[k] as u32) < (b[k] as u32)
}

/// `a` comes strictly before `b` in lexicographic order of code points.
pub open spec fn lex_lt(a: Seq<char>, b: Seq<char>) -> bool {
    exists|k: int| parts_at(a, b, k)
}

/// The rank of `a` relative to `b`.
pub open spec fn rank_of(a: Seq<char>, b: Seq<char>) -> Rank {
    if lex_lt(a, b) {
        Rank::Before
    } else if a == b {
        Rank::Same
    } else {
        Rank::After
    }
}

/// Distinct characters have distinct code points.
pub proof fn lemma_code_injective(x: char, y: char)
    requires
        x as u32 == y as u32,
    ensures
        x == y,
{
    vstd::utf8::char_u32_cast(x, x as u32);
    vstd::utf8::char_u32_cast(y, y as u32);
}

/// No string comes before itself.
pub proof fn lemma_lex_irreflexive(a: Seq<char>)
    ensures
        !lex_lt(a, a),
{
}

/// Two strings that agree on a prefix and part ways at `k` are ordered one way only.
pub proof fn lemma_lex_asymmetric(a: Seq<char>, b: Seq<char>)
    requires
        lex_lt(a, b),
    ensures
        !lex_lt(b, a),
        a != b,
{
    let k = choose|k: int| parts_at(a, b, k);
    if lex_lt(b, a) {
        let m = choose|m: int| parts_at(b, a, m);
        if m < k {
            assert(a[m] == b[m]);
        } else if k < m {
            assert(b[k] == a[k]);
        }
    }
}

/// The order is transitive.
pub proof fn lemma_lex_transitive(a: Seq<char>, b: Seq<char>, c: Seq<char>)
    requires
        lex_lt(a, b),
        lex_lt(b, c),
    ensures
        lex_lt(a, c),
{
    let k = choose|k: int| parts_at(a, b, k);
    let m = choose|m: int| parts_at(b, c, m);
    let n = if k <= m { k } else { m };
    assert forall|j: int| 0 <= j < n implies a[j] == c[j] by {
        assert(a[j] == b[j]);
        assert(b[j] == c[j]);
    }
    if k < m {
        assert(b[k] == c[k]);
    } else if m < k {
        assert(a[m] == b[m]);
    }
    assert(parts_at(a, c, n));
}

/// Any two strings are equal or ordered.
pub proof fn lemma_lex_total(a: Seq<char>, b: Seq<char>)
    ensures
        lex_lt(a, b) || a == b || lex_lt(b, a),
{
    lemma_first_difference(a, b, 0);
}

/// From an agreed prefix on, two strings part ways somewhere or are equal.
proof fn lemma_first_difference(a: Seq<char>, b: Seq<char>, k: int)
    requires
        agree(a, b, k),
    ensures
        lex_lt(a, b) || a == b || lex_lt(b, a),
    decreases a.len() - k,
{
    if k == a.len() {
        if k == b.len() {
            assert(a =~= b);
        } else {
            assert(parts_at(a, b, k));
        }
    } else if k == b.len() {
        assert(agree(b, a, k));
        assert(parts_at(b, a, k));
    } else if a[k] == b[k] {
        lemma_first_difference(a, b, k + 1);
    } else if (a[k] as u32) < (b[k] as u32) {
        assert(parts_at(a, b, k));
    } else {
        if a[k] as u32 == b[k] as u32 {
            lemma_code_injective(a[k], b[k]);
        }
        assert(agree(b, a, k));
        assert(parts_at(b, a, k));
    }
}

/// Whether two strings hold the same characters.
pub fn str_eq(a: &str, b: &str) -> (same: bool)
    ensures
        same == (a@ == b@),
{
    rank(a, b) == Rank::Same
}

/// Compares two strings character by character.
pub fn rank(a: &str, b: &str) -> (r: Rank)
    ensures
        r == rank_of(a@, b@),
        r == Rank::Before <==> lex_lt(a@, b@),
        r == Rank::Same <==> a@ == b@,
        r == Rank::After <==> lex_lt(b@, a@),
{
    let n = a.unicode_len();
    let m = b.unicode_len();
    let mut i: usize = 0;
    while i < n && i < m
        invariant
            n == a@.len(),
            m == b@.len(),
            agree(a@, b@, i as int),
        decreases n - i,
    {
        let x = a.get_char(i);
        let y = b.get_char(i);
        if x != y {
            proof {
                assert(agree(b@, a@, i as int));
                if (x as u32) < (y as u32) {
                    assert(parts_at(a@, b@, i as int));
                    lemma_lex_asymmetric(a@, b@);
                } else {
                    if x as u32 == y as u32 {
                        lemma_code_injective(x, y);
                    }
                    assert(parts_at(b@, a@, i as int));
                    lemma_lex_asymmetric(b@, a@);
                }
            }
            return if (x as u32) < (y as u32) {
                Rank::Before
            } else {
                Rank::After
            };
        }
        i += 1;
    }
    proof {
        assert(agree(b@, a@, i as int));
        if i < m {
            assert(parts_at(a@, b@, i as int));
            lemma_lex_asymmetric(a@, b@);
        } else if i < n {
            assert(parts_at(b@, a@, i as int));
            lemma_lex_asymmetric(b@, a@);
        } else {
            assert(a@ =~= b@);
            lemma_lex_irreflexive(a@);
        }
    }
    if i < m {
        Rank::Before
    } else if i < n {
        Rank::After
    } else {
        Rank::Same
    }
}

} // verus!
