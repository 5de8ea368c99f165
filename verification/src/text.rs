//! Plain-text building blocks: decimal rendering of integers, lexicographic
//! ordering of strings by Unicode scalar value, and insertion into an
//! ordered, key-unique list of string pairs.

use vstd::prelude::*;
use vstd::string::StrSliceExecFns;

verus! {

/// The character for one decimal digit.
pub open spec fn spec_digit_char(d: int) -> char
    recommends
        0 <= d < 10,
{
    if d == 0 {
        '0'
    } else if d == 1 {
        '1'
    } else if d == 2 {
        '2'
    } else if d == 3 {
        '3'
    } else if d == 4 {
        '4'
    } else if d == 5 {
        '5'
    } else if d == 6 {
        '6'
    } else if d == 7 {
        '7'
    } else if d == 8 {
        '8'
    } else {
        '9'
    }
}

/// Decimal notation of a non-negative integer, without leading zeros
/// (except for the number zero itself).
pub open spec fn spec_decimal(n: int) -> Seq<char>
    recommends
        n >= 0,
    decreases n,
{
    if n < 10 {
        seq![spec_digit_char(n)]
    } else {
        spec_decimal(n / 10).push(spec_digit_char(n % 10))
    }
}

fn digit_str(d: u128) -> (r: &'static str)
    requires
        d < 10,
    ensures
        r@ == seq![spec_digit_char(d as int)],
{
    let r: &'static str = match d {
        0 => "0",
        1 => "1",
        2 => "2",
        3 => "3",
        4 => "4",
        5 => "5",
        6 => "6",
        7 => "7",
        8 => "8",
        _ => "9",
    };
    proof {
        reveal_strlit("0");
        reveal_strlit("1");
        reveal_strlit("2");
        reveal_strlit("3");
        reveal_strlit("4");
        reveal_strlit("5");
        reveal_strlit("6");
        reveal_strlit("7");
        reveal_strlit("8");
        reveal_strlit("9");
        assert(r@ =~= seq![spec_digit_char(d as int)]);
    }
    r
}

/// Renders `n` in decimal notation.
pub fn decimal_string(n: u128) -> (r: String)
    ensures
        r@ == spec_decimal(n as int),
    decreases n,
{
    if n < 10 {
        digit_str(n).to_owned()
    } else {
        proof {
            assert(n / 10 < n) by (nonlinear_arith)
                requires
                    n >= 10,
            ;
        }
        let mut prefix = decimal_string(n / 10);
        prefix.append(digit_str(n % 10));
        prefix
    }
}

/// The sequences agree before position `i` and differ there, with `a`'s
/// character the smaller Unicode scalar value.
pub open spec fn lex_mismatch_at(a: Seq<char>, b: Seq<char>, i: int) -> bool {
    &&& 0 <= i < a.len()
    &&& i < b.len()
    &&& (forall|j: int| 0 <= j < i ==> a[j] == b[j])
    &&& (a[i] as u32) < (b[i] as u32)
}

/// `a` is a strictly shorter prefix of `b`.
pub open spec fn lex_proper_prefix(a: Seq<char>, b: Seq<char>) -> bool {
    a.len() < b.len() && (forall|j: int| 0 <= j < a.len() ==> a[j] == b[j])
}

/// Strict lexicographic order on character sequences, comparing by Unicode
/// scalar value; a proper prefix comes before every extension of it.
pub open spec fn lex_lt(a: Seq<char>, b: Seq<char>) -> bool {
    (exists|i: int| lex_mismatch_at(a, b, i)) || lex_proper_prefix(a, b)
}

/// Decides [`lex_lt`] on string slices.
pub fn str_lt(a: &str, b: &str) -> (r: bool)
    ensures
        r == lex_lt(a@, b@),
{
    let a_len = a.unicode_len();
    let b_len = b.unicode_len();
    let mut i: usize = 0;
    loop
        invariant
            0 <= i <= a_len,
            i <= b_len,
            a_len == a@.len(),
            b_len == b@.len(),
            forall|j: int| 0 <= j < i ==> a@[j] == b@[j],
        ensures
            i == a_len || i == b_len,
            forall|j: int| 0 <= j < i ==> a@[j] == b@[j],
        decreases a_len - i,
    {
        if i >= a_len || i >= b_len {
            break ;
        }
        let ca = a.get_char(i);
        let cb = b.get_char(i);
        if ca != cb {
            proof {
                vstd::utf8::char_u32_cast(ca, ca as u32);
                vstd::utf8::char_u32_cast(cb, cb as u32);
                assert(ca as u32 != cb as u32);
            }
            if (ca as u32) < (cb as u32) {
                proof {
                    assert(lex_mismatch_at(a@, b@, i as int));
                }
                return true;
            } else {
                proof {
                    assert forall|k: int| !lex_mismatch_at(a@, b@, k) by {
                        if 0 <= k < a@.len() && k < b@.len() {
                            if k < i as int {
                            } else if k == i as int {
                            } else {
                                assert(!(forall|j: int| 0 <= j < k ==> a@[j] == b@[j])) by {
                                    assert(a@[i as int] != b@[i as int]);
                                }
                            }
                        }
                    }
                    assert(a@[i as int] != b@[i as int]);
                }
                return false;
            }
        }
        i = i + 1;
    }
    if a_len < b_len {
        proof {
            assert(lex_proper_prefix(a@, b@));
        }
        true
    } else {
        proof {
            assert forall|k: int| !lex_mismatch_at(a@, b@, k) by {
                if 0 <= k < a@.len() && k < b@.len() {
                    assert(a@[k] == b@[k]);
                    vstd::utf8::char_u32_cast(a@[k], a@[k] as u32);
                }
            }
        }
        false
    }
}

/// [`lex_lt`] is a strict order: it is irreflexive and no two sequences
/// are below each other.
pub proof fn lemma_lex_lt_strict(a: Seq<char>, b: Seq<char>)
    ensures
        !(lex_lt(a, b) && lex_lt(b, a)),
        lex_lt(a, b) ==> a != b,
{
    if lex_lt(a, b) {
        if exists|i: int| lex_mismatch_at(a, b, i) {
            let i = choose|i: int| lex_mismatch_at(a, b, i);
            assert(a[i] != b[i]) by {
                vstd::utf8::char_u32_cast(a[i], a[i] as u32);
            }
            assert(a != b);
            if lex_lt(b, a) {
                if exists|k: int| lex_mismatch_at(b, a, k) {
                    let k = choose|k: int| lex_mismatch_at(b, a, k);
                    if k < i {
                        assert(a[k] == b[k]);
                    } else if k == i {
                    } else {
                        assert(b[i] == a[i]);
                    }
                } else {
                    assert(lex_proper_prefix(b, a));
                    assert(b[i] == a[i]);
                }
            }
        } else {
            assert(lex_proper_prefix(a, b));
            if lex_lt(b, a) {
                if exists|k: int| lex_mismatch_at(b, a, k) {
                    let k = choose|k: int| lex_mismatch_at(b, a, k);
                    assert(a[k] == b[k]);
                    vstd::utf8::char_u32_cast(a[k], a[k] as u32);
                } else {
                    assert(lex_proper_prefix(b, a));
                }
            }
            assert(a.len() != b.len());
            assert(a != b);
        }
    }
}

/// [`lex_lt`] is total: two distinct sequences are ordered one way or the
/// other.
pub proof fn lemma_lex_lt_total(a: Seq<char>, b: Seq<char>)
    ensures
        a == b || lex_lt(a, b) || lex_lt(b, a),
    decreases a.len(),
{
    if a.len() == 0 {
        if b.len() == 0 {
            assert(a =~= b);
        } else {
            assert(lex_proper_prefix(a, b));
        }
    } else if b.len() == 0 {
        assert(lex_proper_prefix(b, a));
    } else if a[0] != b[0] {
        vstd::utf8::char_u32_cast(a[0], a[0] as u32);
        vstd::utf8::char_u32_cast(b[0], b[0] as u32);
        if (a[0] as u32) < (b[0] as u32) {
            assert(lex_mismatch_at(a, b, 0));
        } else {
            assert(lex_mismatch_at(b, a, 0));
        }
    } else {
        let a1 = a.drop_first();
        let b1 = b.drop_first();
        lemma_lex_lt_total(a1, b1);
        if a1 == b1 {
            assert(a1.len() == a.len() - 1);
            assert(b1.len() == b.len() - 1);
            assert forall|j: int| 0 <= j < a.len() implies a[j] == b[j] by {
                if j >= 1 {
                    assert(a[j] == a1[j - 1]);
                    assert(b[j] == b1[j - 1]);
                    assert(a1[j - 1] == b1[j - 1]);
                }
            }
            assert(a =~= b);
        } else if lex_lt(a1, b1) {
            lemma_lex_lt_lift(a, b);
        } else {
            lemma_lex_lt_lift(b, a);
        }
    }
}

/// Lifts the order on the tails of two sequences with equal heads to the
/// sequences themselves.
proof fn lemma_lex_lt_lift(a: Seq<char>, b: Seq<char>)
    requires
        a.len() >= 1,
        b.len() >= 1,
        a[0] == b[0],
        lex_lt(a.drop_first(), b.drop_first()),
    ensures
        lex_lt(a, b),
{
    let a1 = a.drop_first();
    let b1 = b.drop_first();
    if exists|i: int| lex_mismatch_at(a1, b1, i) {
        let i = choose|i: int| lex_mismatch_at(a1, b1, i);
        assert(lex_mismatch_at(a, b, i + 1)) by {
            assert forall|j: int| 0 <= j < i + 1 implies a[j] == b[j] by {
                if j >= 1 {
                    assert(a1[j - 1] == b1[j - 1]);
                }
            }
            assert(a[i + 1] == a1[i] && b[i + 1] == b1[i]);
        }
    } else {
        assert(lex_proper_prefix(a1, b1));
        assert(lex_proper_prefix(a, b)) by {
            assert forall|j: int| 0 <= j < a.len() implies a[j] == b[j] by {
                if j >= 1 {
                    assert(a1[j - 1] == b1[j - 1]);
                }
            }
        }
    }
}

/// An ordered association list after putting `(key, value)` into `pairs`:
/// an existing entry with the same key is replaced in place, a new key is
/// inserted in front of the first entry that is not below it.
pub open spec fn spec_insert_pair(
    pairs: Seq<(Seq<char>, Seq<char>)>,
    key: Seq<char>,
    value: Seq<char>,
) -> Seq<(Seq<char>, Seq<char>)>
    decreases pairs.len(),
{
    if pairs.len() == 0 {
        seq![(key, value)]
    } else if lex_lt(pairs[0].0, key) {
        seq![pairs[0]] + spec_insert_pair(pairs.drop_first(), key, value)
    } else if pairs[0].0 == key {
        seq![(key, value)] + pairs.drop_first()
    } else {
        seq![(key, value)] + pairs
    }
}

proof fn lemma_insert_pair_skip(
    pairs: Seq<(Seq<char>, Seq<char>)>,
    key: Seq<char>,
    value: Seq<char>,
    pos: int,
)
    requires
        0 <= pos <= pairs.len(),
        forall|i: int| 0 <= i < pos ==> lex_lt(#[trigger] pairs[i].0, key),
    ensures
        spec_insert_pair(pairs, key, value) == pairs.take(pos) + spec_insert_pair(
            pairs.skip(pos),
            key,
            value,
        ),
    decreases pos,
{
    if pos == 0 {
        assert(pairs.take(0) + spec_insert_pair(pairs.skip(0), key, value) =~= spec_insert_pair(
            pairs,
            key,
            value,
        )) by {
            assert(pairs.skip(0) =~= pairs);
        }
    } else {
        assert(lex_lt(pairs[0].0, key));
        lemma_insert_pair_skip(pairs.drop_first(), key, value, pos - 1);
        assert(pairs.drop_first().take(pos - 1) =~= pairs.take(pos).drop_first());
        assert(pairs.drop_first().skip(pos - 1) =~= pairs.skip(pos));
        assert(seq![pairs[0]] + (pairs.take(pos).drop_first() + spec_insert_pair(
            pairs.skip(pos),
            key,
            value,
        )) =~= pairs.take(pos) + spec_insert_pair(pairs.skip(pos), key, value));
    }
}

/// Puts `(key, value)` into the ordered association list `pairs`.
pub fn insert_pair(pairs: &mut Vec<(String, String)>, key: String, value: String)
    ensures
        final(pairs).deep_view() == spec_insert_pair(old(pairs).deep_view(), key@, value@),
{
    let ghost orig = pairs.deep_view();
    let mut pos: usize = 0;
    loop
        invariant
            0 <= pos <= pairs.len(),
            pairs.deep_view() == orig,
            forall|i: int| 0 <= i < pos ==> lex_lt(#[trigger] orig[i].0, key@),
        ensures
            0 <= pos <= pairs.len(),
            pairs.deep_view() == orig,
            forall|i: int| 0 <= i < pos ==> lex_lt(#[trigger] orig[i].0, key@),
            pos == pairs.len() || !lex_lt(orig[pos as int].0, key@),
        decreases pairs.len() - pos,
    {
        if pos >= pairs.len() {
            break ;
        }
        if !str_lt(pairs[pos].0.as_str(), key.as_str()) {
            proof {
                assert(orig[pos as int].0 == pairs@[pos as int].0@);
            }
            break ;
        }
        proof {
            assert(orig[pos as int].0 == pairs@[pos as int].0@);
        }
        pos = pos + 1;
    }
    proof {
        lemma_insert_pair_skip(orig, key@, value@, pos as int);
    }
    if pos < pairs.len() && pairs[pos].0 == key {
        proof {
            assert(orig.skip(pos as int)[0] == orig[pos as int]);
            assert(orig[pos as int].0 == pairs@[pos as int].0@);
        }
        pairs.remove(pos);
        pairs.insert(pos, (key, value));
        proof {
            assert(orig.skip(pos as int).drop_first() =~= orig.skip(pos as int + 1));
            assert(spec_insert_pair(orig.skip(pos as int), key@, value@) =~= seq![(key@, value@)]
                + orig.skip(pos as int + 1));
            assert(pairs.deep_view() =~= orig.take(pos as int) + (seq![(key@, value@)] + orig.skip(
                pos as int + 1,
            )));
        }
    } else {
        proof {
            if pos < orig.len() {
                assert(orig.skip(pos as int)[0] == orig[pos as int]);
                assert(orig[pos as int].0 == pairs@[pos as int].0@);
                assert(!lex_lt(orig[pos as int].0, key@));
                assert(orig[pos as int].0 != key@);
                assert(spec_insert_pair(orig.skip(pos as int), key@, value@) == seq![
                    (key@, value@),
                ] + orig.skip(pos as int));
            } else {
                assert(orig.skip(pos as int) =~= Seq::<(Seq<char>, Seq<char>)>::empty());
                assert(spec_insert_pair(orig.skip(pos as int), key@, value@) =~= seq![
                    (key@, value@),
                ] + orig.skip(pos as int));
            }
        }
        pairs.insert(pos, (key, value));
        proof {
            assert(pairs.deep_view() =~= orig.take(pos as int) + (seq![(key@, value@)] + orig.skip(
                pos as int,
            )));
        }
    }
}

/// An association list ordered strictly by key: each key is below its
/// successor's, so keys are unique and iteration order is the key order.
pub open spec fn spec_pairs_sorted(pairs: Seq<(Seq<char>, Seq<char>)>) -> bool {
    forall|i: int| 0 <= i < pairs.len() - 1 ==> lex_lt(#[trigger] pairs[i].0, pairs[i + 1].0)
}

/// Putting a pair into an ordered association list keeps it ordered, and
/// the new pair is in it.
pub proof fn lemma_insert_pair_sorted(
    pairs: Seq<(Seq<char>, Seq<char>)>,
    key: Seq<char>,
    value: Seq<char>,
)
    requires
        spec_pairs_sorted(pairs),
    ensures
        spec_pairs_sorted(spec_insert_pair(pairs, key, value)),
        spec_insert_pair(pairs, key, value).contains((key, value)),
    decreases pairs.len(),
{
    let result = spec_insert_pair(pairs, key, value);
    if pairs.len() == 0 {
        assert(result[0] == (key, value));
    } else if lex_lt(pairs[0].0, key) {
        let rest = pairs.drop_first();
        assert(spec_pairs_sorted(rest)) by {
            assert forall|i: int| 0 <= i < rest.len() - 1 implies lex_lt(
                #[trigger] rest[i].0,
                rest[i + 1].0,
            ) by {
                assert(rest[i] == pairs[i + 1] && rest[i + 1] == pairs[i + 2]);
            }
        }
        lemma_insert_pair_sorted(rest, key, value);
        let tail = spec_insert_pair(rest, key, value);
        assert(result == seq![pairs[0]] + tail);
        assert(lex_lt(pairs[0].0, tail[0].0)) by {
            if rest.len() == 0 {
                assert(tail[0] == (key, value));
            } else if lex_lt(rest[0].0, key) {
                assert(tail[0] == rest[0] && rest[0] == pairs[1]);
            } else {
                assert(tail[0] == (key, value));
            }
        }
        assert forall|i: int| 0 <= i < result.len() - 1 implies lex_lt(
            #[trigger] result[i].0,
            result[i + 1].0,
        ) by {
            if i == 0 {
                assert(result[0] == pairs[0] && result[1] == tail[0]);
            } else {
                assert(result[i] == tail[i - 1] && result[i + 1] == tail[i]);
            }
        }
        assert(tail.contains((key, value)));
        let w = choose|w: int| 0 <= w < tail.len() && tail[w] == (key, value);
        assert(result[w + 1] == (key, value));
    } else if pairs[0].0 == key {
        assert(result == seq![(key, value)] + pairs.drop_first());
        assert forall|i: int| 0 <= i < result.len() - 1 implies lex_lt(
            #[trigger] result[i].0,
            result[i + 1].0,
        ) by {
            if i == 0 {
                assert(result[1] == pairs[1]);
                assert(lex_lt(pairs[0].0, pairs[1].0));
            } else {
                assert(result[i] == pairs[i] && result[i + 1] == pairs[i + 1]);
            }
        }
        assert(result[0] == (key, value));
    } else {
        lemma_lex_lt_total(pairs[0].0, key);
        assert(lex_lt(key, pairs[0].0));
        assert(result == seq![(key, value)] + pairs);
        assert forall|i: int| 0 <= i < result.len() - 1 implies lex_lt(
            #[trigger] result[i].0,
            result[i + 1].0,
        ) by {
            if i == 0 {
                assert(result[1] == pairs[0]);
            } else {
                assert(result[i] == pairs[i - 1] && result[i + 1] == pairs[i]);
            }
        }
        assert(result[0] == (key, value));
    }
}

/// [`lex_lt`] is transitive.
pub proof fn lemma_lex_lt_transitive(a: Seq<char>, b: Seq<char>, c: Seq<char>)
    requires
        lex_lt(a, b),
        lex_lt(b, c),
    ensures
        lex_lt(a, c),
{
    if exists|i: int| lex_mismatch_at(a, b, i) {
        let i = choose|i: int| lex_mismatch_at(a, b, i);
        if exists|k: int| lex_mismatch_at(b, c, k) {
            let k = choose|k: int| lex_mismatch_at(b, c, k);
            if i < k {
                assert(lex_mismatch_at(a, c, i)) by {
                    assert(b[i] == c[i]);
                }
            } else if i == k {
                assert(lex_mismatch_at(a, c, i));
            } else {
                assert(lex_mismatch_at(a, c, k)) by {
                    assert(a[k] == b[k]);
                    assert forall|j: int| 0 <= j < k implies a[j] == c[j] by {
                        assert(a[j] == b[j] && b[j] == c[j]);
                    }
                }
            }
        } else {
            assert(lex_proper_prefix(b, c));
            assert(lex_mismatch_at(a, c, i)) by {
                assert(b[i] == c[i]);
            }
        }
    } else {
        assert(lex_proper_prefix(a, b));
        if exists|k: int| lex_mismatch_at(b, c, k) {
            let k = choose|k: int| lex_mismatch_at(b, c, k);
            if k < a.len() {
                assert(lex_mismatch_at(a, c, k)) by {
                    assert(a[k] == b[k]);
                    assert forall|j: int| 0 <= j < k implies a[j] == c[j] by {
                        assert(a[j] == b[j] && b[j] == c[j]);
                    }
                }
            } else {
                assert(lex_proper_prefix(a, c)) by {
                    assert(a.len() <= k < c.len());
                    assert forall|j: int| 0 <= j < a.len() implies a[j] == c[j] by {
                        assert(a[j] == b[j] && b[j] == c[j]);
                    }
                }
            }
        } else {
            assert(lex_proper_prefix(b, c));
            assert(lex_proper_prefix(a, c)) by {
                assert forall|j: int| 0 <= j < a.len() implies a[j] == c[j] by {
                    assert(a[j] == b[j] && b[j] == c[j]);
                }
            }
        }
    }
}

proof fn lemma_sorted_pairs_below(pairs: Seq<(Seq<char>, Seq<char>)>, i: int, j: int)
    requires
        spec_pairs_sorted(pairs),
        0 <= i < j < pairs.len(),
    ensures
        lex_lt(pairs[i].0, pairs[j].0),
    decreases j - i,
{
    if j == i + 1 {
        assert(lex_lt(pairs[i].0, pairs[i + 1].0));
    } else {
        lemma_sorted_pairs_below(pairs, i, j - 1);
        assert(lex_lt(pairs[j - 1].0, pairs[(j - 1) + 1].0));
        lemma_lex_lt_transitive(pairs[i].0, pairs[j - 1].0, pairs[j].0);
    }
}

/// In an ordered association list every key occurs once.
pub proof fn lemma_sorted_pairs_keys_unique(pairs: Seq<(Seq<char>, Seq<char>)>)
    requires
        spec_pairs_sorted(pairs),
    ensures
        forall|i: int, j: int|
            0 <= i < j < pairs.len() ==> (#[trigger] pairs[i]).0 != (#[trigger] pairs[j]).0,
{
    assert forall|i: int, j: int|
        0 <= i < j < pairs.len() implies (#[trigger] pairs[i]).0 != (#[trigger] pairs[j]).0 by {
        lemma_sorted_pairs_below(pairs, i, j);
        lemma_lex_lt_strict(pairs[i].0, pairs[j].0);
    }
}

} // verus!
