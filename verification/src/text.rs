//! Verified string utilities: equality, lexicographic order,
//! ASCII-case-insensitive comparison, and comma splitting — the textual
//! groundwork for configuration keys, author matching and protected lists.

use vstd::prelude::*;
use vstd::string::*;

verus! {

/// True when the two strings hold the same characters.
pub fn str_eq(a: &str, b: &str) -> (r: bool)
    ensures
        r == (a@ == b@),
{
    let alen = a.unicode_len();
    let blen = b.unicode_len();
    if alen != blen {
        return false;
    }
    let mut i: usize = 0;
    while i < alen
        invariant
            alen == a@.len(),
            blen == b@.len(),
            alen == blen,
            i <= alen,
            forall|j: int| 0 <= j < i ==> a@[j] == b@[j],
        decreases alen - i,
    {
        if a.get_char(i) != b.get_char(i) {
            return false;
        }
        i += 1;
    }
    proof {
        assert(a@ =~= b@);
    }
    true
}

/// Strict lexicographic order on character sequences, comparing scalar values.
pub open spec fn lex_lt(a: Seq<char>, b: Seq<char>) -> bool
    decreases a.len(),
{
    if b.len() == 0 {
        false
    } else if a.len() == 0 {
        true
    } else if (a[0] as u32) < (b[0] as u32) {
        true
    } else if (a[0] as u32) > (b[0] as u32) {
        false
    } else {
        lex_lt(a.skip(1), b.skip(1))
    }
}

/// The order is irreflexive.
pub proof fn lemma_lex_lt_irreflexive(a: Seq<char>)
    ensures
        !lex_lt(a, a),
    decreases a.len(),
{
    if a.len() > 0 {
        lemma_lex_lt_irreflexive(a.skip(1));
    }
}

/// The order is total: two sequences that neither precede each other are equal.
pub proof fn lemma_lex_lt_connected(a: Seq<char>, b: Seq<char>)
    requires
        !lex_lt(a, b),
        !lex_lt(b, a),
    ensures
        a == b,
    decreases a.len(),
{
    if a.len() == 0 || b.len() == 0 {
        assert(a.len() == 0 && b.len() == 0);
        assert(a =~= b);
    } else {
        assert((a[0] as u32) == (b[0] as u32));
        vstd::utf8::char_u32_cast(a[0], a[0] as u32);
        vstd::utf8::char_u32_cast(b[0], b[0] as u32);
        assert(a[0] == b[0]);
        assert(!lex_lt(a.skip(1), b.skip(1)));
        assert(!lex_lt(b.skip(1), a.skip(1)));
        lemma_lex_lt_connected(a.skip(1), b.skip(1));
        assert(a.skip(1) == b.skip(1));
        assert(a.len() == b.len());
        assert forall|k: int| 0 <= k < a.len() implies a[k] == b[k] by {
            if k > 0 {
                assert(a.skip(1)[k - 1] == b.skip(1)[k - 1]);
            }
        }
        assert(a =~= b);
    }
}

/// The order is transitive.
pub proof fn lemma_lex_lt_transitive(a: Seq<char>, b: Seq<char>, c: Seq<char>)
    requires
        lex_lt(a, b),
        lex_lt(b, c),
    ensures
        lex_lt(a, c),
    decreases a.len(),
{
    if a.len() > 0 && b.len() > 0 && c.len() > 0 {
        if (a[0] as u32) == (b[0] as u32) && (b[0] as u32) == (c[0] as u32) {
            lemma_lex_lt_transitive(a.skip(1), b.skip(1), c.skip(1));
        }
    }
}

/// Strict lexicographic comparison of two strings.
pub fn str_lt(a: &str, b: &str) -> (r: bool)
    ensures
        r == lex_lt(a@, b@),
{
    let alen = a.unicode_len();
    let blen = b.unicode_len();
    let min = if alen < blen {
        alen
    } else {
        blen
    };
    proof {
        assert(a@.skip(0) =~= a@);
        assert(b@.skip(0) =~= b@);
    }
    let mut i: usize = 0;
    while i < min
        invariant
            alen == a@.len(),
            blen == b@.len(),
            min <= alen,
            min <= blen,
            min == if alen < blen { alen } else { blen },
            i <= min,
            lex_lt(a@, b@) == lex_lt(a@.skip(i as int), b@.skip(i as int)),
        decreases min - i,
    {
        let ca = a.get_char(i) as u32;
        let cb = b.get_char(i) as u32;
        if ca < cb {
            return true;
        }
        if ca > cb {
            return false;
        }
        proof {
            assert(a@.skip(i as int).skip(1) =~= a@.skip(i + 1));
            assert(b@.skip(i as int).skip(1) =~= b@.skip(i + 1));
        }
        i += 1;
    }
    alen < blen
}

/// Maps an upper-case ASCII scalar to its lower-case counterpart.
pub open spec fn lower_scalar(u: u32) -> u32 {
    if 65 <= u && u <= 90 {
        (u + 32) as u32
    } else {
        u
    }
}

/// The sequence of case-folded scalar values of a character sequence.
pub open spec fn folded_scalars(s: Seq<char>) -> Seq<u32> {
    Seq::new(s.len(), |i: int| lower_scalar(s[i] as u32))
}

/// True when the two strings agree up to ASCII case.
pub fn eq_ignore_ascii_case(a: &str, b: &str) -> (r: bool)
    ensures
        r == (folded_scalars(a@) == folded_scalars(b@)),
{
    let alen = a.unicode_len();
    let blen = b.unicode_len();
    if alen != blen {
        proof {
            assert(folded_scalars(a@).len() != folded_scalars(b@).len());
        }
        return false;
    }
    let mut i: usize = 0;
    while i < alen
        invariant
            alen == a@.len(),
            blen == b@.len(),
            alen == blen,
            i <= alen,
            forall|j: int| 0 <= j < i ==> folded_scalars(a@)[j] == folded_scalars(b@)[j],
        decreases alen - i,
    {
        let ua = a.get_char(i) as u32;
        let ub = b.get_char(i) as u32;
        let la = if 65 <= ua && ua <= 90 {
            ua + 32
        } else {
            ua
        };
        let lb = if 65 <= ub && ub <= 90 {
            ub + 32
        } else {
            ub
        };
        if la != lb {
            proof {
                assert(folded_scalars(a@)[i as int] != folded_scalars(b@)[i as int]);
            }
            return false;
        }
        i += 1;
    }
    proof {
        assert(folded_scalars(a@) =~= folded_scalars(b@));
    }
    true
}

/// Index of the first comma in the sequence, or its length if there is none.
pub open spec fn first_comma(s: Seq<char>) -> int
    decreases s.len(),
{
    if s.len() == 0 {
        0
    } else if s[0] == ',' {
        0
    } else {
        1 + first_comma(s.skip(1))
    }
}

pub proof fn lemma_first_comma_bounds(s: Seq<char>)
    ensures
        0 <= first_comma(s) <= s.len(),
    decreases s.len(),
{
    if s.len() > 0 && s[0] != ',' {
        lemma_first_comma_bounds(s.skip(1));
    }
}

/// A position before which no comma stands, and at which one stands (or the
/// end is reached), is the first comma.
pub proof fn lemma_first_comma_at(s: Seq<char>, i: int)
    requires
        0 <= i <= s.len(),
        forall|j: int| 0 <= j < i ==> s[j] != ',',
        i < s.len() ==> s[i] == ',',
    ensures
        first_comma(s) == i,
    decreases s.len(),
{
    if i == 0 {
        if s.len() > 0 {
            assert(s[0] == ',');
        }
    } else {
        assert(s[0] != ',');
        lemma_first_comma_at(s.skip(1), i - 1);
    }
}

/// The comma-separated segments of a character sequence, in order; an input
/// without commas yields itself as the single segment.
pub open spec fn split_commas(s: Seq<char>) -> Seq<Seq<char>>
    decreases s.len(),
    when first_comma(s) >= 0
{
    let i = first_comma(s);
    if i >= s.len() {
        seq![s]
    } else {
        seq![s.take(i)] + split_commas(s.skip(i + 1))
    }
}

/// Splits a string on commas, yielding each segment in order.
pub fn split_str(s: &str) -> (r: Vec<String>)
    ensures
        r.deep_view() == split_commas(s@),
    decreases s@.len(),
{
    proof {
        lemma_first_comma_bounds(s@);
    }
    let len = s.unicode_len();
    let mut i: usize = 0;
    while i < len && s.get_char(i) != ','
        invariant
            len == s@.len(),
            i <= len,
            forall|j: int| 0 <= j < i ==> s@[j] != ',',
        decreases len - i,
    {
        i += 1;
    }
    proof {
        lemma_first_comma_at(s@, i as int);
    }
    if i >= len {
        let seg = s.to_owned();
        let r = vec![seg];
        proof {
            assert(r.deep_view() =~= split_commas(s@));
        }
        r
    } else {
        let head = s.substring_char(0, i).to_owned();
        let tail = s.substring_char(i + 1, len);
        proof {
            assert(head@ == s@.take(i as int));
            assert(tail@ == s@.skip(i + 1));
        }
        let mut rest = split_str(tail);
        proof {
            lemma_first_comma_bounds(s@.skip(i + 1));
            assert(rest.deep_view() == split_commas(s@.skip(i + 1)));
        }
        let ghost old_rest = rest@;
        rest.insert(0, head);
        proof {
            assert(rest@ == old_rest.insert(0, head));
            let whole = split_commas(s@);
            assert(whole == seq![s@.take(i as int)] + split_commas(s@.skip(i + 1)));
            assert(rest.deep_view().len() == whole.len());
            assert(rest@[0] == head);
            assert(rest.deep_view()[0] == head@);
            assert forall|k: int| 1 <= k < rest@.len() implies rest.deep_view()[k] == whole[k] by {
                assert(rest@[k] == old_rest[k - 1]);
                assert(whole[k] == split_commas(s@.skip(i + 1))[k - 1]);
            }
            assert(rest.deep_view() =~= whole);
        }
        rest
    }
}

} // verus!
