//! Small verified text utilities the pipeline is built on: locating a
//! separator, splitting on it, equality and lexicographic order of
//! character sequences.

use vstd::prelude::*;

verus! {

/// The index of the first occurrence of `sep` in `s`, or -1.
pub open spec fn find_char(s: Seq<char>, sep: char) -> int
    decreases s.len(),
{
    if s.len() == 0 {
        -1
    } else if s[0] == sep {
        0
    } else {
        let r = find_char(s.skip(1), sep);
        if r < 0 {
            -1
        } else {
            r + 1
        }
    }
}

/// `find_char` returns -1 exactly when `sep` does not occur, and otherwise
/// the first index holding it.
pub proof fn lemma_find_char(s: Seq<char>, sep: char)
    ensures
        find_char(s, sep) == -1 || 0 <= find_char(s, sep) < s.len(),
        find_char(s, sep) >= 0 ==> s[find_char(s, sep)] == sep,
        forall|j: int| 0 <= j < s.len() && s[j] == sep ==> 0 <= find_char(s, sep) <= j,
    decreases s.len(),
{
    if s.len() > 0 && s[0] != sep {
        lemma_find_char(s.skip(1), sep);
        assert forall|j: int| 0 <= j < s.len() && s[j] == sep implies 0 <= find_char(s, sep)
            <= j by {
            assert(s.skip(1)[j - 1] == s[j]);
        }
        if find_char(s.skip(1), sep) >= 0 {
            assert(s.skip(1)[find_char(s.skip(1), sep)] == s[find_char(s, sep)]);
        }
    }
}

/// `s` split on `sep`: the (possibly empty) stretches between occurrences,
/// in order. A sequence without the separator splits into itself alone.
pub open spec fn split_at_sep(s: Seq<char>, sep: char) -> Seq<Seq<char>>
    decreases s.len(),
{
    let i = find_char(s, sep);
    if i < 0 || i >= s.len() {
        seq![s]
    } else {
        seq![s.subrange(0, i)] + split_at_sep(s.subrange(i + 1, s.len() as int), sep)
    }
}

/// Splitting a sequence whose first separator stands at `i` yields the
/// stretch before `i` followed by the split of what stands after it.
pub proof fn lemma_split_step(s: Seq<char>, sep: char, i: int)
    requires
        0 <= i < s.len(),
        s[i] == sep,
        forall|j: int| 0 <= j < i ==> s[j] != sep,
    ensures
        split_at_sep(s, sep) == seq![s.subrange(0, i)] + split_at_sep(
            s.subrange(i + 1, s.len() as int),
            sep,
        ),
{
    lemma_find_char(s, sep);
    let f = find_char(s, sep);
    assert(0 <= f <= i);
    if f < i {
        assert(s[f] == sep);
        assert(false);
    }
}

/// Splitting a sequence without the separator yields that sequence alone.
pub proof fn lemma_split_whole(s: Seq<char>, sep: char)
    requires
        forall|j: int| 0 <= j < s.len() ==> s[j] != sep,
    ensures
        split_at_sep(s, sep) == seq![s],
{
    lemma_find_char(s, sep);
    if find_char(s, sep) >= 0 {
        assert(s[find_char(s, sep)] == sep);
        assert(false);
    }
}

/// Splits a string on a separator character. The parts carry the stretches
/// between occurrences, exactly as `split_at_sep` describes them.
pub fn split_str(s: &str, sep: char) -> (parts: Vec<String>)
    ensures
        parts@.map_values(|p: String| p@) == split_at_sep(s@, sep),
{
    let n = s.unicode_len();
    let mut parts: Vec<String> = Vec::new();
    let mut start: usize = 0;
    let mut i: usize = 0;
    proof {
        assert(s@.subrange(0, n as int) =~= s@);
    }
    while i < n
        invariant
            n == s@.len(),
            start <= i <= n,
            split_at_sep(s@, sep) == parts@.map_values(|p: String| p@) + split_at_sep(
                s@.subrange(start as int, n as int),
                sep,
            ),
            forall|j: int| start <= j < i ==> s@[j] != sep,
        decreases n - i,
    {
        let c = s.get_char(i);
        if c == sep {
            let field = s.substring_char(start, i).to_owned();
            proof {
                let rest = s@.subrange(start as int, n as int);
                lemma_split_step(rest, sep, i - start);
                assert(rest.subrange(0, i - start) =~= s@.subrange(start as int, i as int));
                assert(rest.subrange(i - start + 1, rest.len() as int) =~= s@.subrange(
                    i + 1,
                    n as int,
                ));
                assert(parts@.push(field).map_values(|p: String| p@) =~= parts@.map_values(
                    |p: String| p@,
                ).push(field@));
                assert(parts@.map_values(|p: String| p@).push(field@) + split_at_sep(
                    s@.subrange(i + 1, n as int),
                    sep,
                ) =~= parts@.map_values(|p: String| p@) + (seq![field@] + split_at_sep(
                    s@.subrange(i + 1, n as int),
                    sep,
                )));
            }
            parts.push(field);
            start = i + 1;
        }
        i = i + 1;
    }
    let field = s.substring_char(start, n).to_owned();
    proof {
        let rest = s@.subrange(start as int, n as int);
        lemma_split_whole(rest, sep);
        assert(field@ == rest);
        assert(parts@.push(field).map_values(|p: String| p@) =~= parts@.map_values(
            |p: String| p@,
        ).push(field@));
        assert(parts@.map_values(|p: String| p@) + seq![rest] =~= parts@.map_values(
            |p: String| p@,
        ).push(rest));
    }
    parts.push(field);
    parts
}

/// Reports whether two strings hold the same characters.
pub fn str_eq(a: &str, b: &str) -> (r: bool)
    ensures
        r == (a@ == b@),
{
    let la = a.unicode_len();
    let lb = b.unicode_len();
    if la != lb {
        return false;
    }
    let mut i: usize = 0;
    while i < la
        invariant
            la == a@.len(),
            lb == b@.len(),
            la == lb,
            i <= la,
            forall|j: int| 0 <= j < i ==> a@[j] == b@[j],
        decreases la - i,
    {
        if a.get_char(i) != b.get_char(i) {
            return false;
        }
        i = i + 1;
    }
    proof {
        assert(a@ =~= b@);
    }
    true
}

/// Strict lexicographic order on character sequences, by code point; a
/// proper prefix comes before its extensions.
pub open spec fn lex_lt(a: Seq<char>, b: Seq<char>) -> bool
    decreases a.len(),
{
    if b.len() == 0 {
        false
    } else if a.len() == 0 {
        true
    } else if (a[0] as u32) < (b[0] as u32) {
        true
    } else if (a[0] as u32) > (b[0] as u32) {
        false
    } else {
        lex_lt(a.skip(1), b.skip(1))
    }
}

/// Lexicographic order is total: of two distinct sequences one comes first.
pub proof fn lemma_lex_total(a: Seq<char>, b: Seq<char>)
    ensures
        lex_lt(a, b) || lex_lt(b, a) || a == b,
    decreases a.len(),
{
    if a.len() == 0 && b.len() == 0 {
        assert(a =~= b);
    } else if a.len() > 0 && b.len() > 0 {
        if (a[0] as u32) == (b[0] as u32) {
            vstd::utf8::char_u32_cast(a[0], a[0] as u32);
            vstd::utf8::char_u32_cast(b[0], b[0] as u32);
            assert(a[0] == b[0]);
            lemma_lex_total(a.skip(1), b.skip(1));
            if a.skip(1) == b.skip(1) {
                assert(a.skip(1).len() == a.len() - 1);
                assert(b.skip(1).len() == b.len() - 1);
                assert(a.len() == b.len());
                assert forall|i: int| 0 <= i < a.len() implies a[i] == b[i] by {
                    if i > 0 {
                        assert(a.skip(1)[i - 1] == a[i]);
                        assert(b.skip(1)[i - 1] == b[i]);
                    }
                }
                assert(a =~= b);
            }
        }
    }
}

/// Lexicographic order is irreflexive: no sequence comes before itself.
pub proof fn lemma_lex_irrefl(a: Seq<char>)
    ensures
        !lex_lt(a, a),
    decreases a.len(),
{
    if a.len() > 0 {
        lemma_lex_irrefl(a.skip(1));
    }
}

/// Lexicographic order is transitive.
pub proof fn lemma_lex_trans(a: Seq<char>, b: Seq<char>, c: Seq<char>)
    requires
        lex_lt(a, b),
        lex_lt(b, c),
    ensures
        lex_lt(a, c),
    decreases a.len(),
{
    if a.len() > 0 {
        if (a[0] as u32) == (b[0] as u32) && (b[0] as u32) == (c[0] as u32) {
            lemma_lex_trans(a.skip(1), b.skip(1), c.skip(1));
        }
    }
}

/// Compares two strings in the lexicographic order `lex_lt`.
pub fn lex_lt_str(a: &str, b: &str) -> (r: bool)
    ensures
        r == lex_lt(a@, b@),
{
    let la = a.unicode_len();
    let lb = b.unicode_len();
    let mut i: usize = 0;
    proof {
        assert(a@.skip(0) =~= a@);
        assert(b@.skip(0) =~= b@);
    }
    while i < la && i < lb
        invariant
            la == a@.len(),
            lb == b@.len(),
            i <= la,
            i <= lb,
            lex_lt(a@, b@) == lex_lt(a@.skip(i as int), b@.skip(i as int)),
        decreases la - i,
    {
        let ca = a.get_char(i) as u32;
        let cb = b.get_char(i) as u32;
        proof {
            assert(a@.skip(i as int)[0] == a@[i as int]);
            assert(b@.skip(i as int)[0] == b@[i as int]);
            assert(a@.skip(i as int).skip(1) =~= a@.skip(i + 1));
            assert(b@.skip(i as int).skip(1) =~= b@.skip(i + 1));
        }
        if ca < cb {
            return true;
        }
        if ca > cb {
            return false;
        }
        i = i + 1;
    }
    proof {
        assert(a@.skip(i as int).len() == la - i);
        assert(b@.skip(i as int).len() == lb - i);
    }
    i == la && i < lb
}

} // verus!
