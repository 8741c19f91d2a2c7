use vstd::prelude::*;

use crate::keys::Key;
use crate::sort::stable_order;
use crate::text::{
    chars_eq_ignore_ascii_case, chars_of, eq_ignore_ascii_case, is_lowercase, is_uppercase, push_char,
    unicode_is_lowercase, unicode_is_uppercase,
};

verus! {

broadcast use vstd::seq_lib::group_seq_properties;

/// A word separator for fuzzy matching: space, `_`, `-`, `/` or `.`.
pub open spec fn is_separator(c: char) -> bool {
    c == ' ' || c == '_' || c == '-' || c == '/' || c == '.'
}

/// The Unicode case of each character of `hay`: whether it is upper-case, and whether it is lower-case.
pub open spec fn case_flags(hay: Seq<char>) -> Seq<(bool, bool)> {
    hay.map_values(|c: char| (unicode_is_uppercase(c), unicode_is_lowercase(c)))
}

/// Whether position `i` of `hay` starts a word, given the `(upper, lower)` case of each character: the
/// string start, right after a separator, or an upper-case letter right after a lower-case one (a
/// camelCase hump).
pub open spec fn is_word_boundary(hay: Seq<char>, case: Seq<(bool, bool)>, i: int) -> bool {
    ||| i == 0
    ||| (i > 0 && is_separator(hay[i - 1]))
    ||| (i > 0 && case[i].0 && case[i - 1].1)
}

/// The greedy left-to-right match of `q[qi..]` in `hay[i..]`: each query character takes the first
/// remaining haystack character equal to it ignoring ASCII case. The matched haystack positions, in
/// order; shorter than the rest of the query when it runs out of haystack.
pub open spec fn greedy_positions(hay: Seq<char>, q: Seq<char>, i: int, qi: int) -> Seq<int>
    decreases hay.len() - i,
{
    if i < 0 || i >= hay.len() || qi < 0 || qi >= q.len() {
        Seq::empty()
    } else if eq_ignore_ascii_case(hay[i], q[qi]) {
        seq![i] + greedy_positions(hay, q, i + 1, qi + 1)
    } else {
        greedy_positions(hay, q, i + 1, qi)
    }
}

/// The score one matched character earns: 1, plus 5 when it directly follows the previous matched
/// character, plus 10 on a word boundary.
pub open spec fn position_score(hay: Seq<char>, case: Seq<(bool, bool)>, p: Seq<int>, k: int) -> int {
    1 + (if k > 0 && p[k - 1] + 1 == p[k] {
        5int
    } else {
        0int
    }) + (if is_word_boundary(hay, case, p[k]) {
        10int
    } else {
        0int
    })
}

/// The total score of the matched positions `p`.
pub open spec fn total_score(hay: Seq<char>, case: Seq<(bool, bool)>, p: Seq<int>) -> int
    decreases p.len(),
{
    if p.len() == 0 {
        0
    } else {
        total_score(hay, case, p.drop_last()) + position_score(hay, case, p, p.len() - 1)
    }
}

/// The fuzzy match of `q` in `hay` whose characters have the `(upper, lower)` case `case`: `None` when
/// the greedy match does not consume the whole query, otherwise the score and the matched positions.
/// The empty query matches with score 0 and no positions.
pub open spec fn spec_fuzzy_cased(hay: Seq<char>, case: Seq<(bool, bool)>, q: Seq<char>) -> Option<(int, Seq<int>)> {
    let p = greedy_positions(hay, q, 0, 0);
    if p.len() == q.len() {
        Some((total_score(hay, case, p), p))
    } else {
        None
    }
}

/// The fuzzy match of `q` in `hay`, with the Unicode case of `hay`'s characters.
pub open spec fn spec_fuzzy(hay: Seq<char>, q: Seq<char>) -> Option<(int, Seq<int>)> {
    spec_fuzzy_cased(hay, case_flags(hay), q)
}

/// `p` places `q[qi..]` in `hay` at strictly increasing positions, all at or after `i`, each holding the
/// corresponding query character up to ASCII case.
pub open spec fn embeds_from(hay: Seq<char>, q: Seq<char>, i: int, qi: int, p: Seq<int>) -> bool {
    &&& 0 <= qi <= q.len()
    &&& p.len() == q.len() - qi
    &&& forall|k: int| 0 <= k < p.len() ==> i <= #[trigger] p[k] < hay.len()
    &&& forall|k: int| 0 <= k < p.len() - 1 ==> #[trigger] p[k] < p[k + 1]
    &&& forall|k: int| 0 <= k < p.len() ==> eq_ignore_ascii_case(hay[#[trigger] p[k]], q[qi + k])
}

/// `q` is a subsequence of `hay` ignoring ASCII case.
pub open spec fn is_fuzzy_subsequence(hay: Seq<char>, q: Seq<char>) -> bool {
    exists|p: Seq<int>| embeds_from(hay, q, 0, 0, p)
}

proof fn lemma_greedy_sound(hay: Seq<char>, q: Seq<char>, i: int, qi: int)
    requires
        0 <= i,
        0 <= qi <= q.len(),
    ensures
        greedy_positions(hay, q, i, qi).len() <= q.len() - qi,
        forall|k: int|
            0 <= k < greedy_positions(hay, q, i, qi).len() ==> i <= #[trigger] greedy_positions(hay, q, i, qi)[k]
                < hay.len(),
        forall|k: int|
            0 <= k < greedy_positions(hay, q, i, qi).len() - 1 ==> #[trigger] greedy_positions(hay, q, i, qi)[k]
                < greedy_positions(hay, q, i, qi)[k + 1],
        forall|k: int|
            0 <= k < greedy_positions(hay, q, i, qi).len() ==> eq_ignore_ascii_case(
                hay[#[trigger] greedy_positions(hay, q, i, qi)[k]],
                q[qi + k],
            ),
    decreases hay.len() - i,
{
    if i >= hay.len() || qi >= q.len() {
    } else {
        lemma_greedy_sound(hay, q, i + 1, qi + 1);
        lemma_greedy_sound(hay, q, i + 1, qi);
        let g = greedy_positions(hay, q, i, qi);
        if eq_ignore_ascii_case(hay[i], q[qi]) {
            let t = greedy_positions(hay, q, i + 1, qi + 1);
            assert(g == seq![i] + t);
            assert forall|k: int| 0 <= k < g.len() - 1 implies #[trigger] g[k] < g[k + 1] by {
                if k > 0 {
                    assert(g[k] == t[k - 1]);
                    assert(g[k + 1] == t[k]);
                } else {
                    assert(g[1] == t[0]);
                }
            }
            assert forall|k: int| 0 <= k < g.len() implies eq_ignore_ascii_case(
                hay[#[trigger] g[k]],
                q[qi + k],
            ) by {
                if k > 0 {
                    assert(g[k] == t[k - 1]);
                    assert(qi + 1 + (k - 1) == qi + k);
                }
            }
            assert forall|k: int| 0 <= k < g.len() implies i <= #[trigger] g[k] < hay.len() by {
                if k > 0 {
                    assert(g[k] == t[k - 1]);
                }
            }
        }
    }
}

proof fn lemma_greedy_complete(hay: Seq<char>, q: Seq<char>, i: int, qi: int, p: Seq<int>)
    requires
        0 <= i,
        embeds_from(hay, q, i, qi, p),
    ensures
        greedy_positions(hay, q, i, qi).len() == q.len() - qi,
    decreases hay.len() - i,
{
    if qi >= q.len() {
    } else {
        assert(p.len() > 0);
        assert(i <= p[0] < hay.len());
        if eq_ignore_ascii_case(hay[i], q[qi]) {
            let t = p.drop_first();
            assert forall|k: int| 0 <= k < t.len() implies i + 1 <= #[trigger] t[k] < hay.len() by {
                assert(t[k] == p[k + 1]);
                if k == 0 {
                    assert(p[0] < p[1]);
                } else {
                    lemma_embedding_increasing(hay, q, i, qi, p, 0, k + 1);
                }
            }
            assert forall|k: int| 0 <= k < t.len() - 1 implies #[trigger] t[k] < t[k + 1] by {
                assert(t[k] == p[k + 1] && t[k + 1] == p[k + 2]);
            }
            assert forall|k: int| 0 <= k < t.len() implies eq_ignore_ascii_case(
                hay[#[trigger] t[k]],
                q[qi + 1 + k],
            ) by {
                assert(t[k] == p[k + 1]);
                assert(eq_ignore_ascii_case(hay[p[k + 1]], q[qi + (k + 1)]));
            }
            lemma_greedy_complete(hay, q, i + 1, qi + 1, t);
        } else {
            assert(p[0] != i);
            assert forall|k: int| 0 <= k < p.len() implies i + 1 <= #[trigger] p[k] < hay.len() by {
                if k > 0 {
                    lemma_embedding_increasing(hay, q, i, qi, p, 0, k);
                }
            }
            lemma_greedy_complete(hay, q, i + 1, qi, p);
        }
    }
}

proof fn lemma_embedding_increasing(hay: Seq<char>, q: Seq<char>, i: int, qi: int, p: Seq<int>, a: int, b: int)
    requires
        embeds_from(hay, q, i, qi, p),
        0 <= a < b < p.len(),
    ensures
        p[a] < p[b],
    decreases b - a,
{
    if b == a + 1 {
    } else {
        lemma_embedding_increasing(hay, q, i, qi, p, a, b - 1);
        assert(p[b - 1] < p[b]);
    }
}

/// Whether the character before position `i` of `hay` separates words: one of ' ', '_', '-', '/', '.'.
pub open spec fn follows_separator(hay: Seq<char>, i: int) -> bool {
    let c = hay[i - 1];
    i > 0 && (c == ' ' || c == '_' || c == '-' || c == '/' || c == '.')
}

/// How a matched character scores: 1, plus 5 when it directly follows the previous matched character,
/// plus 10 when it starts a word: at the start of the haystack, right after a separator (' ', '_', '-',
/// '/', '.'), or as an upper-case letter right after a lower-case one. So a match right after a
/// separator always earns the word bonus, and a match that neither continues the previous one nor
/// starts a word earns 1.
pub proof fn lemma_match_bonuses(hay: Seq<char>, case: Seq<(bool, bool)>, p: Seq<int>, k: int)
    requires
        0 <= k < p.len(),
        0 <= p[k] < hay.len(),
    ensures
        ({
            let i = p[k];
            let continues = k > 0 && p[k - 1] + 1 == i;
            let starts = i == 0 || follows_separator(hay, i) || (i > 0 && case[i].0 && case[i - 1].1);
            position_score(hay, case, p, k) == 1 + (if continues { 5int } else { 0int }) + (if starts {
                10int
            } else {
                0int
            })
        }),
        follows_separator(hay, p[k]) ==> position_score(hay, case, p, k) >= 11,
{
}

/// The first position at or after `i` whose character equals `c` up to ASCII case, if any.
pub open spec fn first_match_from(hay: Seq<char>, c: char, i: int) -> Option<int>
    decreases hay.len() - i,
{
    if i < 0 || i >= hay.len() {
        None
    } else if eq_ignore_ascii_case(hay[i], c) {
        Some(i)
    } else {
        first_match_from(hay, c, i + 1)
    }
}

proof fn lemma_single_greedy(hay: Seq<char>, q: Seq<char>, i: int)
    requires
        q.len() == 1,
        0 <= i,
    ensures
        greedy_positions(hay, q, i, 0) == match first_match_from(hay, q[0], i) {
            Some(m) => seq![m],
            None => Seq::<int>::empty(),
        },
    decreases hay.len() - i,
{
    if i < hay.len() {
        lemma_single_greedy(hay, q, i + 1);
        if eq_ignore_ascii_case(hay[i], q[0]) {
            assert(greedy_positions(hay, q, i + 1, 1) =~= Seq::<int>::empty());
            assert(seq![i] + Seq::<int>::empty() =~= seq![i]);
        }
    }
}

/// A one-character query matches at the first haystack character equal to it up to ASCII case, and
/// scores 11 there when that character starts a word (the haystack start, right after a separator, or a
/// camelCase hump) and 1 otherwise; with no such character it does not match.
pub proof fn lemma_single_char_match(hay: Seq<char>, case: Seq<(bool, bool)>, q: Seq<char>)
    requires
        q.len() == 1,
    ensures
        match first_match_from(hay, q[0], 0) {
            Some(m) => spec_fuzzy_cased(hay, case, q) == Some(
                (
                    if m == 0 || follows_separator(hay, m) || (m > 0 && case[m].0 && case[m - 1].1) {
                        11int
                    } else {
                        1int
                    },
                    seq![m],
                ),
            ),
            None => spec_fuzzy_cased(hay, case, q) is None,
        },
{
    lemma_single_greedy(hay, q, 0);
    if let Some(m) = first_match_from(hay, q[0], 0) {
        let p = seq![m];
        assert(p.drop_last() =~= Seq::<int>::empty());
        lemma_first_match_in_range(hay, q[0], 0);
        assert(total_score(hay, case, p) == position_score(hay, case, p, 0)) by {
            reveal_with_fuel(total_score, 2);
        }
        assert(greedy_positions(hay, q, 0, 0) == p);
    }
}

proof fn lemma_first_match_in_range(hay: Seq<char>, c: char, i: int)
    requires
        0 <= i,
    ensures
        first_match_from(hay, c, i) matches Some(m) ==> i <= m < hay.len(),
    decreases hay.len() - i,
{
    if i < hay.len() {
        lemma_first_match_in_range(hay, c, i + 1);
    }
}

/// The fuzzy match succeeds exactly when the query is a subsequence of the haystack ignoring ASCII
/// case (the greedy match misses none), and then its positions place the query in the haystack.
pub proof fn lemma_fuzzy_matches_iff_subsequence(hay: Seq<char>, q: Seq<char>)
    ensures
        spec_fuzzy(hay, q) is Some <==> is_fuzzy_subsequence(hay, q),
        spec_fuzzy(hay, q) matches Some((_, p)) ==> embeds_from(hay, q, 0, 0, p),
{
    lemma_greedy_sound(hay, q, 0, 0);
    let g = greedy_positions(hay, q, 0, 0);
    if g.len() == q.len() {
        assert(embeds_from(hay, q, 0, 0, g));
    }
    if is_fuzzy_subsequence(hay, q) {
        let p = choose|p: Seq<int>| embeds_from(hay, q, 0, 0, p);
        lemma_greedy_complete(hay, q, 0, 0, p);
    }
}

/// Every matched character scores at least 1 and at most 16.
/// Extending the matched positions never lowers the score: every position scores at least 1.
proof fn lemma_total_score_grows(hay: Seq<char>, case: Seq<(bool, bool)>, p: Seq<int>, rest: Seq<int>)
    ensures
        total_score(hay, case, p) + rest.len() <= total_score(hay, case, p + rest),
    decreases rest.len(),
{
    if rest.len() > 0 {
        assert((p + rest).drop_last() =~= p + rest.drop_last());
        lemma_total_score_grows(hay, case, p, rest.drop_last());
    } else {
        assert(p + rest =~= p);
    }
}

/// The score of the whole greedy match of `q` in `hay` (whether or not it consumes the whole query):
/// the largest value the running score reaches while matching.
pub open spec fn greedy_total(hay: Seq<char>, case: Seq<(bool, bool)>, q: Seq<char>) -> int {
    total_score(hay, case, greedy_positions(hay, q, 0, 0))
}

/// [`greedy_total`] with the Unicode case of `hay`'s characters.
pub open spec fn fuzzy_total(hay: Seq<char>, q: Seq<char>) -> int {
    greedy_total(hay, case_flags(hay), q)
}

proof fn lemma_total_score_bounds(hay: Seq<char>, case: Seq<(bool, bool)>, p: Seq<int>)
    ensures
        p.len() <= total_score(hay, case, p) <= 16 * p.len(),
    decreases p.len(),
{
    if p.len() > 0 {
        lemma_total_score_bounds(hay, case, p.drop_last());
    }
}

/// Whether `hay[i]` starts a word (see [`is_word_boundary`]).
fn word_boundary(hay: &Vec<char>, case: &Vec<(bool, bool)>, i: usize) -> (r: bool)
    requires
        i < hay.len(),
        case.len() == hay.len(),
    ensures
        r == is_word_boundary(hay@, case@, i as int),
{
    if i == 0 {
        return true;
    }
    let p = hay[i - 1];
    if p == ' ' || p == '_' || p == '-' || p == '/' || p == '.' {
        return true;
    }
    case[i].0 && case[i - 1].1
}

/// The Unicode case of each character of `hay`, as `char::is_uppercase` and `char::is_lowercase`
/// report it.
fn case_of(hay: &Vec<char>) -> (r: Vec<(bool, bool)>)
    ensures
        r@ == case_flags(hay@),
{
    let mut out: Vec<(bool, bool)> = Vec::new();
    for i in 0..hay.len()
        invariant
            out@ =~= case_flags(hay@.take(i as int)),
    {
        let c = hay[i];
        out.push((is_uppercase(c), is_lowercase(c)));
        assert(hay@.take(i + 1) =~= hay@.take(i as int).push(c));
    }
    assert(hay@.take(hay@.len() as int) =~= hay@);
    out
}

/// A subsequence fuzzy match of `query` in `hay`, ignoring ASCII case, where `case` gives the
/// `(upper, lower)` case of each character of `hay`. `None` when `query` is not a subsequence; otherwise
/// the score (higher is better: contiguous matches and word-boundary matches score more) and the matched
/// character positions in `hay`. The empty query matches with score 0 and no positions. The running score
/// is an `i32`, so the greedy match may score at most `i32::MAX`.
pub fn fuzzy_score_cased(hay: &Vec<char>, case: &Vec<(bool, bool)>, q: &Vec<char>) -> (r: Option<(i32, Vec<usize>)>)
    requires
        case.len() == hay.len(),
        q@.len() == 0 || greedy_total(hay@, case@, q@) <= i32::MAX,
    ensures
        r is Some <==> spec_fuzzy_cased(hay@, case@, q@) is Some,
        r matches Some((s, pos)) ==> {
            &&& spec_fuzzy_cased(hay@, case@, q@) matches Some((ss, pp)) && s == ss && pos@.len() == pp.len()
                && forall|k: int| 0 <= k < pp.len() ==> pos@[k] == pp[k]
        },
{
    if q.len() == 0 {
        assert(greedy_positions(hay@, q@, 0, 0) =~= Seq::<int>::empty());
        return Some((0, Vec::new()));
    }
    let ghost g = greedy_positions(hay@, q@, 0, 0);
    let mut qi: usize = 0;
    let mut positions: Vec<usize> = Vec::new();
    let ghost mut p: Seq<int> = Seq::empty();
    let mut score: i32 = 0;
    let mut i: usize = 0;
    while i < hay.len() && qi < q.len()
        invariant
            case.len() == hay.len(),
            greedy_total(hay@, case@, q@) <= i32::MAX,
            i <= hay.len(),
            qi <= q.len(),
            positions@.len() == qi,
            p.len() == qi,
            forall|k: int| 0 <= k < qi ==> positions@[k] == p[k],
            forall|k: int| 0 <= k < qi ==> p[k] < i,
            g == greedy_positions(hay@, q@, 0, 0),
            g == p + greedy_positions(hay@, q@, i as int, qi as int),
            score == total_score(hay@, case@, p),
            0 <= score,
        decreases hay.len() - i,
    {
        if chars_eq_ignore_ascii_case(hay[i], q[qi]) {
            let mut s: i32 = 1;
            if qi > 0 && positions[qi - 1] + 1 == i {
                s = s + 5;
            }
            if word_boundary(hay, case, i) {
                s = s + 10;
            }
            proof {
                let np = p.push(i as int);
                assert(np.drop_last() =~= p);
                assert(s == position_score(hay@, case@, np, qi as int));
                assert(greedy_positions(hay@, q@, i as int, qi as int) == seq![i as int]
                    + greedy_positions(hay@, q@, i + 1, qi + 1));
                assert(p + (seq![i as int] + greedy_positions(hay@, q@, i + 1, qi + 1)) =~= np
                    + greedy_positions(hay@, q@, i + 1, qi + 1));
                lemma_total_score_grows(hay@, case@, np, greedy_positions(hay@, q@, i + 1, qi + 1));
                lemma_total_score_bounds(hay@, case@, np);
                p = np;
            }
            score = score + s;
            positions.push(i);
            qi += 1;
        }
        i += 1;
    }
    assert(greedy_positions(hay@, q@, i as int, qi as int) =~= Seq::<int>::empty());
    assert(g =~= p);
    if qi == q.len() {
        Some((score, positions))
    } else {
        None
    }
}

/// A subsequence fuzzy match of `query` in `haystack`, ignoring ASCII case, with word boundaries taken
/// from the Unicode case of `haystack`'s characters (see [`fuzzy_score_cased`]). The running score is an
/// `i32`, so the greedy match may score at most `i32::MAX` ([`fuzzy_score_checked`] tests that first).
pub fn fuzzy_score(haystack: &str, query: &str) -> (r: Option<(i32, Vec<usize>)>)
    requires
        query@.len() == 0 || fuzzy_total(haystack@, query@) <= i32::MAX,
    ensures
        r is Some <==> spec_fuzzy(haystack@, query@) is Some,
        r matches Some((s, pos)) ==> {
            &&& spec_fuzzy(haystack@, query@) matches Some((ss, pp)) && s == ss && pos@.len() == pp.len()
                && forall|k: int| 0 <= k < pp.len() ==> pos@[k] == pp[k]
        },
{
    let hay = chars_of(haystack);
    let case = case_of(&hay);
    let q = chars_of(query);
    fuzzy_score_cased(&hay, &case, &q)
}

/// Whether the greedy match of `q` in `hay` (with the `(upper, lower)` case `case`) scores within an
/// `i32`, the bound [`fuzzy_score_cased`] needs. The running score is kept in an `i64` and the test stops
/// as soon as it passes the bound.
fn greedy_fits(hay: &Vec<char>, case: &Vec<(bool, bool)>, q: &Vec<char>) -> (r: bool)
    requires
        case.len() == hay.len(),
    ensures
        r == (q@.len() == 0 || greedy_total(hay@, case@, q@) <= i32::MAX),
{
    if q.len() == 0 {
        return true;
    }
    let ghost g = greedy_positions(hay@, q@, 0, 0);
    let mut qi: usize = 0;
    let mut last: Option<usize> = None;
    let ghost mut p: Seq<int> = Seq::empty();
    let mut score: i64 = 0;
    let mut i: usize = 0;
    while i < hay.len() && qi < q.len()
        invariant
            case.len() == hay.len(),
            i <= hay.len(),
            qi <= q.len(),
            p.len() == qi,
            qi == 0 <==> last is None,
            last matches Some(l) ==> l == p[qi - 1],
            forall|k: int| 0 <= k < qi ==> p[k] < i,
            g == greedy_positions(hay@, q@, 0, 0),
            g == p + greedy_positions(hay@, q@, i as int, qi as int),
            score == total_score(hay@, case@, p),
            0 <= score <= i32::MAX,
        decreases hay.len() - i,
    {
        if chars_eq_ignore_ascii_case(hay[i], q[qi]) {
            let mut s: i64 = 1;
            if let Some(l) = last {
                if l + 1 == i {
                    s = s + 5;
                }
            }
            if word_boundary(hay, case, i) {
                s = s + 10;
            }
            proof {
                let np = p.push(i as int);
                assert(np.drop_last() =~= p);
                assert(s == position_score(hay@, case@, np, qi as int));
                assert(greedy_positions(hay@, q@, i as int, qi as int) == seq![i as int]
                    + greedy_positions(hay@, q@, i + 1, qi + 1));
                assert(p + (seq![i as int] + greedy_positions(hay@, q@, i + 1, qi + 1)) =~= np
                    + greedy_positions(hay@, q@, i + 1, qi + 1));
                lemma_total_score_grows(hay@, case@, np, greedy_positions(hay@, q@, i + 1, qi + 1));
                p = np;
            }
            score = score + s;
            if score > 2147483647 {
                return false;
            }
            last = Some(i);
            qi += 1;
        }
        i += 1;
    }
    assert(greedy_positions(hay@, q@, i as int, qi as int) =~= Seq::<int>::empty());
    assert(g =~= p);
    true
}

/// [`fuzzy_score`] for any input: `None` when the greedy match would score past `i32::MAX` (the bound
/// `fuzzy_score` requires), otherwise `Some` of what `fuzzy_score` returns.
pub fn fuzzy_score_checked(haystack: &str, query: &str) -> (r: Option<Option<(i32, Vec<usize>)>>)
    ensures
        r is Some <==> fits_i32(haystack@, query@),
        r matches Some(m) ==> {
            &&& (m is Some <==> spec_fuzzy(haystack@, query@) is Some)
            &&& m matches Some((s, pos)) ==> {
                &&& spec_fuzzy(haystack@, query@) matches Some((ss, pp)) && s == ss && pos@.len() == pp.len()
                    && forall|k: int| 0 <= k < pp.len() ==> pos@[k] == pp[k]
            }
        },
{
    let hay = chars_of(haystack);
    let case = case_of(&hay);
    let q = chars_of(query);
    if greedy_fits(&hay, &case, &q) {
        Some(fuzzy_score(haystack, query))
    } else {
        None
    }
}

/// `positions` is sorted (non-decreasing).
pub open spec fn is_sorted_positions(positions: Seq<usize>) -> bool {
    forall|a: int, b: int| 0 <= a <= b < positions.len() ==> positions[a] <= positions[b]
}

/// The maximal runs of `chars` whose characters share the same flag: each run is `(flag, text)`, the
/// texts concatenate back to `chars`, and two neighbouring runs have different flags.
pub open spec fn runs_of(chars: Seq<char>, flags: Seq<bool>) -> Seq<(bool, Seq<char>)>
    decreases chars.len(),
{
    if chars.len() == 0 {
        Seq::empty()
    } else {
        let r = runs_of(chars.drop_last(), flags);
        let f = flags[chars.len() - 1];
        let c = chars.last();
        if r.len() > 0 && r.last().0 == f {
            r.update(r.len() - 1, (f, r.last().1.push(c)))
        } else {
            r.push((f, seq![c]))
        }
    }
}

/// The highlight flag of each character of a name: whether its index is a matched position.
pub open spec fn match_flags(len: nat, positions: Seq<usize>) -> Seq<bool> {
    Seq::new(len, |i: int| positions.contains(i as usize))
}

/// Splits `name` into consecutive `(matched, text)` runs given sorted matched character `positions`:
/// the unit of highlighting. No positions give a single unmatched run of the whole name.
pub fn split_runs(name: &str, positions: &[usize]) -> (r: Vec<(bool, String)>)
    requires
        is_sorted_positions(positions@),
    ensures
        r@.len() == runs_of(name@, match_flags(name@.len(), positions@)).len(),
        forall|k: int|
            0 <= k < r@.len() ==> r@[k].0 == runs_of(name@, match_flags(name@.len(), positions@))[k].0
                && (#[trigger] r@[k]).1@ == runs_of(name@, match_flags(name@.len(), positions@))[k].1,
{
    let chars = chars_of(name);
    let ghost flags = match_flags(name@.len(), positions@);
    let mut runs: Vec<(bool, String)> = Vec::new();
    let mut pi: usize = 0;
    let mut i: usize = 0;
    while i < chars.len()
        invariant
            chars@ == name@,
            flags == match_flags(name@.len(), positions@),
            is_sorted_positions(positions@),
            i <= chars.len(),
            pi <= positions@.len(),
            forall|k: int| 0 <= k < pi ==> positions@[k] < i,
            runs@.len() == runs_of(chars@.take(i as int), flags).len(),
            forall|k: int|
                0 <= k < runs@.len() ==> runs@[k].0 == runs_of(chars@.take(i as int), flags)[k].0
                    && (#[trigger] runs@[k]).1@ == runs_of(chars@.take(i as int), flags)[k].1,
        decreases chars.len() - i,
    {
        while pi < positions.len() && positions[pi] < i
            invariant
                pi <= positions@.len(),
                forall|k: int| 0 <= k < pi ==> positions@[k] < i,
            decreases positions@.len() - pi,
        {
            pi += 1;
        }
        let matched = pi < positions.len() && positions[pi] == i;
        proof {
            if positions@.contains(i) {
                let k = choose|k: int| 0 <= k < positions@.len() && positions@[k] == i;
                assert(k >= pi);
                assert(positions@[pi as int] <= positions@[k]);
            }
            assert(matched == flags[i as int]);
        }
        let c = chars[i];
        let ghost prev = runs_of(chars@.take(i as int), flags);
        proof {
            assert(chars@.take(i + 1).drop_last() =~= chars@.take(i as int));
            assert(chars@.take(i + 1).last() == c);
        }
        let n = runs.len();
        if n > 0 && runs[n - 1].0 == matched {
            let (m, mut text) = runs.pop().unwrap();
            push_char(&mut text, c);
            runs.push((m, text));
        } else {
            let mut text = String::new();
            push_char(&mut text, c);
            runs.push((matched, text));
        }
        i += 1;
    }
    assert(chars@.take(i as int) =~= chars@);
    runs
}

/// A command of the palette: a display name, search-only keywords (aliases that also match but are not
/// shown), and an action run when the command is chosen.
pub struct Command<A> {
    name: String,
    keywords: Vec<String>,
    action: A,
}

/// Creates a command with a display `name` and an `action` run when it is chosen.
pub fn command<A>(name: &str, action: A) -> (r: Command<A>)
    ensures
        r.name_view() == name@,
        r.keywords_view() == Seq::<Seq<char>>::empty(),
        r.action_view() == action,
{
    let r = Command { name: String::from_str(name), keywords: Vec::new(), action };
    proof {
        assert(r.keywords_view() =~= Seq::<Seq<char>>::empty());
    }
    r
}

impl<A> Command<A> {
    /// The display name.
    pub closed spec fn name_view(&self) -> Seq<char> {
        self.name@
    }

    /// The search-only keywords, in the order they were added.
    pub closed spec fn keywords_view(&self) -> Seq<Seq<char>> {
        self.keywords@.map_values(|k: String| k@)
    }

    /// The action.
    pub closed spec fn action_view(&self) -> A {
        self.action
    }

    /// Adds a search-only alias: the command also matches queries against `keyword`, but only its name
    /// is displayed (and highlighted).
    pub fn keyword(self, keyword: &str) -> (r: Self)
        ensures
            r.name_view() == self.name_view(),
            r.keywords_view() == self.keywords_view().push(keyword@),
            r.action_view() == self.action_view(),
    {
        let Command { name, mut keywords, action } = self;
        keywords.push(String::from_str(keyword));
        let r = Command { name, keywords, action };
        proof {
            assert(r.keywords_view() =~= self.keywords_view().push(keyword@));
        }
        r
    }

    /// The display name.
    pub fn name(&self) -> (r: &str)
        ensures
            r@ == self.name_view(),
    {
        self.name.as_str()
    }

    /// The action run when the command is chosen.
    pub fn action(&self) -> (r: &A)
        ensures
            *r == self.action_view(),
    {
        &self.action
    }

    /// The keyword strings.
    fn keyword_strings(&self) -> (r: &Vec<String>)
        ensures
            r@.map_values(|k: String| k@) == self.keywords_view(),
    {
        &self.keywords
    }
}

/// The best fuzzy score of `q` over the keywords `kws`, if any keyword matches.
pub open spec fn best_keyword_score(kws: Seq<Seq<char>>, q: Seq<char>) -> Option<int>
    decreases kws.len(),
{
    if kws.len() == 0 {
        None
    } else {
        let rest = best_keyword_score(kws.drop_last(), q);
        match spec_fuzzy(kws.last(), q) {
            Some((s, _)) => match rest {
                Some(b) => Some(if b >= s {
                    b
                } else {
                    s
                }),
                None => Some(s),
            },
            None => rest,
        }
    }
}

/// How a command matches `q`: through its name (score: the better of the name and the best keyword;
/// positions: the name's matched characters), else through a keyword only (score: the best keyword
/// score minus 1, so name matches rank first; no positions), else not at all.
pub open spec fn command_match(name: Seq<char>, kws: Seq<Seq<char>>, q: Seq<char>) -> Option<(int, Seq<int>)> {
    match spec_fuzzy(name, q) {
        Some((ns, pos)) => Some(
            (
                match best_keyword_score(kws, q) {
                    Some(k) => if ns >= k {
                        ns
                    } else {
                        k
                    },
                    None => ns,
                },
                pos,
            ),
        ),
        None => match best_keyword_score(kws, q) {
            Some(k) => Some((k - 1, Seq::empty())),
            None => None,
        },
    }
}

/// The greedy match of `q` in `hay` scores within an `i32` (trivially so for the empty query).
pub open spec fn fits_i32(hay: Seq<char>, q: Seq<char>) -> bool {
    q.len() == 0 || fuzzy_total(hay, q) <= i32::MAX
}

/// The greedy match of `q` in every keyword scores within an `i32`.
pub open spec fn keywords_fit(kws: Seq<Seq<char>>, q: Seq<char>) -> bool {
    forall|j: int| 0 <= j < kws.len() ==> fits_i32(#[trigger] kws[j], q)
}

/// For every command, the greedy matches of `q` in its name and in each keyword score within an `i32`.
pub open spec fn commands_fit<A>(cmds: Seq<Command<A>>, q: Seq<char>) -> bool {
    forall|i: int|
        0 <= i < cmds.len() ==> fits_i32(#[trigger] cmds[i].name_view(), q) && keywords_fit(
            cmds[i].keywords_view(),
            q,
        )
}

/// The best keyword score is the largest score among the keywords that match: at least every matching
/// keyword's score and equal to one of them; there is none exactly when no keyword matches.
pub proof fn lemma_best_keyword_is_max(kws: Seq<Seq<char>>, q: Seq<char>)
    ensures
        best_keyword_score(kws, q) is None <==> forall|j: int| 0 <= j < kws.len() ==> spec_fuzzy(#[trigger] kws[j], q) is None,
        best_keyword_score(kws, q) matches Some(b) ==> {
            &&& forall|j: int|
                0 <= j < kws.len() ==> (spec_fuzzy(#[trigger] kws[j], q) matches Some((ks, _)) ==> ks <= b)
            &&& exists|j: int| 0 <= j < kws.len() && (spec_fuzzy(#[trigger] kws[j], q) matches Some((ks, _)) && ks == b)
        },
    decreases kws.len(),
{
    if kws.len() > 0 {
        let rest = kws.drop_last();
        lemma_best_keyword_is_max(rest, q);
        assert forall|j: int| 0 <= j < rest.len() implies rest[j] == kws[j] by {}
        let last = kws.len() - 1;
        assert(kws.last() == kws[last]);
        if best_keyword_score(kws, q) is None {
            assert forall|j: int| 0 <= j < kws.len() implies spec_fuzzy(#[trigger] kws[j], q) is None by {
                if j < last {
                    assert(spec_fuzzy(rest[j], q) is None);
                }
            }
        } else {
            let b = best_keyword_score(kws, q)->0;
            assert forall|j: int|
                0 <= j < kws.len() implies (spec_fuzzy(#[trigger] kws[j], q) matches Some((ks, _)) ==> ks <= b) by {
                if j < last {
                    assert(kws[j] == rest[j]);
                }
            }
            match best_keyword_score(rest, q) {
                Some(rb) => {
                    let w = choose|j: int|
                        0 <= j < rest.len() && (spec_fuzzy(#[trigger] rest[j], q) matches Some((ks, _)) && ks == rb);
                    match spec_fuzzy(kws.last(), q) {
                        Some((ls, _)) => {
                            if rb >= ls {
                                assert(kws[w] == rest[w]);
                            } else {
                                assert(spec_fuzzy(kws[last], q) matches Some((ks, _)) && ks == b);
                            }
                        },
                        None => {
                            assert(kws[w] == rest[w]);
                        },
                    }
                },
                None => {
                    assert(spec_fuzzy(kws[last], q) matches Some((ks, _)) && ks == b);
                },
            }
        }
    }
}

/// How a command ranks against `q`. When its name matches, it ranks with the name's matched positions
/// and the larger of the name's score and the best matching keyword's score: at least the name's score,
/// at least every matching keyword's score, and equal to one of them. When only keywords match, it ranks
/// one below its best keyword's score, with no positions. When nothing matches, it does not rank.
pub proof fn lemma_command_match_scores(name: Seq<char>, kws: Seq<Seq<char>>, q: Seq<char>)
    ensures
        match (spec_fuzzy(name, q), command_match(name, kws, q)) {
            (Some((ns, pos)), Some((s, p))) => {
                &&& p == pos && s >= ns
                &&& forall|j: int|
                    0 <= j < kws.len() ==> (spec_fuzzy(#[trigger] kws[j], q) matches Some((ks, _)) ==> ks <= s)
                &&& (s == ns || exists|j: int|
                    0 <= j < kws.len() && (spec_fuzzy(#[trigger] kws[j], q) matches Some((ks, _)) && ks == s))
            },
            (Some(_), None) => false,
            (None, Some((s, p))) => {
                &&& p.len() == 0
                &&& forall|j: int|
                    0 <= j < kws.len() ==> (spec_fuzzy(#[trigger] kws[j], q) matches Some((ks, _)) ==> ks <= s + 1)
                &&& exists|j: int|
                    0 <= j < kws.len() && (spec_fuzzy(#[trigger] kws[j], q) matches Some((ks, _)) && ks == s + 1)
            },
            (None, None) => forall|j: int| 0 <= j < kws.len() ==> spec_fuzzy(#[trigger] kws[j], q) is None,
        },
{
    lemma_best_keyword_is_max(kws, q);
}

/// The best score of `query` over `keywords`, if any keyword matches.
fn best_keyword(keywords: &Vec<String>, query: &str) -> (r: Option<i32>)
    requires
        keywords_fit(keywords@.map_values(|k: String| k@), query@),
    ensures
        r matches Some(s) ==> best_keyword_score(keywords@.map_values(|k: String| k@), query@) == Some(s as int),
        r is None ==> best_keyword_score(keywords@.map_values(|k: String| k@), query@) is None,
        r matches Some(s) ==> 0 <= s,
{
    let mut best: Option<i32> = None;
    let mut j: usize = 0;
    while j < keywords.len()
        invariant
            keywords_fit(keywords@.map_values(|k: String| k@), query@),
            j <= keywords.len(),
            best matches Some(s) ==> best_keyword_score(keywords@.take(j as int).map_values(|k: String| k@), query@)
                == Some(s as int),
            best is None ==> best_keyword_score(keywords@.take(j as int).map_values(|k: String| k@), query@)
                is None,
            best matches Some(s) ==> 0 <= s,
        decreases keywords.len() - j,
    {
        proof {
            assert(fits_i32(keywords@.map_values(|k: String| k@)[j as int], query@));
        }
        let m = fuzzy_score(keywords[j].as_str(), query);
        proof {
            let kv = keywords@.take(j + 1).map_values(|k: String| k@);
            assert(kv.drop_last() =~= keywords@.take(j as int).map_values(|k: String| k@));
            assert(kv.last() == keywords@[j as int]@);
            lemma_greedy_sound(keywords@[j as int]@, query@, 0, 0);
            lemma_total_score_bounds(
                keywords@[j as int]@,
                case_flags(keywords@[j as int]@),
                greedy_positions(keywords@[j as int]@, query@, 0, 0),
            );
        }
        if let Some((s, _)) = m {
            best = match best {
                Some(b) => Some(if b >= s {
                    b
                } else {
                    s
                }),
                None => Some(s),
            };
        }
        j += 1;
    }
    assert(keywords@.take(j as int) =~= keywords@);
    best
}

/// Whether the greedy match of `query` in `text` scores within an `i32`.
fn text_fits(text: &str, query: &str) -> (r: bool)
    ensures
        r == fits_i32(text@, query@),
{
    let hay = chars_of(text);
    let case = case_of(&hay);
    let q = chars_of(query);
    greedy_fits(&hay, &case, &q)
}

/// [`rank`] for any input: `None` when some command's name or keyword would score past `i32::MAX`
/// against `query` (the bound `rank` requires), otherwise `Some` of what `rank` returns.
pub fn rank_checked<A>(commands: &[Command<A>], query: &str) -> (r: Option<Vec<Match>>)
    ensures
        r is Some <==> commands_fit(commands@, query@),
        r matches Some(v) ==> is_ranking(
            candidates(commands@, query@, commands@.len() as int),
            v@.map_values(|m: Match| match_view(m)),
        ),
{
    let mut i: usize = 0;
    while i < commands.len()
        invariant
            i <= commands@.len(),
            forall|c: int|
                0 <= c < i ==> fits_i32(#[trigger] commands@[c].name_view(), query@) && keywords_fit(
                    commands@[c].keywords_view(),
                    query@,
                ),
        decreases commands@.len() - i,
    {
        let cmd = &commands[i];
        if !text_fits(cmd.name(), query) {
            proof {
                assert(!commands_fit(commands@, query@)) by {
                    if commands_fit(commands@, query@) {
                        assert(fits_i32(commands@[i as int].name_view(), query@));
                    }
                }
            }
            return None;
        }
        let kws = cmd.keyword_strings();
        let mut j: usize = 0;
        while j < kws.len()
            invariant
                i < commands@.len(),
                cmd == &commands@[i as int],
                fits_i32(commands@[i as int].name_view(), query@),
                forall|c: int|
                    0 <= c < i ==> fits_i32(#[trigger] commands@[c].name_view(), query@) && keywords_fit(
                        commands@[c].keywords_view(),
                        query@,
                    ),
                j <= kws@.len(),
                kws@.map_values(|k: String| k@) == commands@[i as int].keywords_view(),
                forall|k: int| 0 <= k < j ==> fits_i32(#[trigger] kws@[k]@, query@),
            decreases kws@.len() - j,
        {
            if !text_fits(kws[j].as_str(), query) {
                proof {
                    assert(commands@[i as int].keywords_view()[j as int] == kws@[j as int]@);
                    assert(!keywords_fit(commands@[i as int].keywords_view(), query@));
                    assert(!commands_fit(commands@, query@)) by {
                        if commands_fit(commands@, query@) {
                            assert(fits_i32(commands@[i as int].name_view(), query@));
                        }
                    }
                }
                return None;
            }
            j += 1;
        }
        proof {
            assert forall|k: int| 0 <= k < commands@[i as int].keywords_view().len() implies fits_i32(
                #[trigger] commands@[i as int].keywords_view()[k],
                query@,
            ) by {
                assert(commands@[i as int].keywords_view()[k] == kws@[k]@);
            }
            assert(keywords_fit(commands@[i as int].keywords_view(), query@));
            assert forall|c: int| 0 <= c < i + 1 implies fits_i32(
                #[trigger] commands@[c].name_view(),
                query@,
            ) && keywords_fit(commands@[c].keywords_view(), query@) by {
                if c == i {
                    assert(keywords_fit(commands@[i as int].keywords_view(), query@));
                }
            }
        }
        i += 1;
    }
    assert(commands_fit(commands@, query@)) by {
        assert(i == commands@.len());
        assert forall|c: int| 0 <= c < commands@.len() implies fits_i32(
            #[trigger] commands@[c].name_view(),
            query@,
        ) && keywords_fit(commands@[c].keywords_view(), query@) by {}
    }
    Some(rank(commands, query))
}

/// One ranked result: the index of the matching command, the matched character positions in its name
/// (empty when it matched through a keyword only), and its score.
#[derive(Debug)]
pub struct Match {
    pub cmd: usize,
    pub positions: Vec<usize>,
    pub score: i32,
}

/// The abstract form of a [`Match`]: command index, score, positions.
pub open spec fn match_view(m: Match) -> (int, int, Seq<int>) {
    (m.cmd as int, m.score as int, m.positions@.map_values(|x: usize| x as int))
}

/// The matching commands among the first `n`, in input order, as `(index, score, positions)`.
pub open spec fn candidates<A>(cmds: Seq<Command<A>>, q: Seq<char>, n: int) -> Seq<(int, int, Seq<int>)>
    decreases n,
{
    if n <= 0 {
        Seq::empty()
    } else {
        let rest = candidates(cmds, q, n - 1);
        match command_match(cmds[n - 1].name_view(), cmds[n - 1].keywords_view(), q) {
            Some((s, p)) => rest.push((n - 1, s, p)),
            None => rest,
        }
    }
}

/// The scores of the candidates, as sort keys.
pub open spec fn candidate_scores(c: Seq<(int, int, Seq<int>)>) -> Seq<i64> {
    Seq::new(c.len(), |k: int| c[k].1 as i64)
}

/// `ranked` is the candidate list `c` reordered by the stable order of the scores, best first.
pub open spec fn is_ranking(c: Seq<(int, int, Seq<int>)>, ranked: Seq<(int, int, Seq<int>)>) -> bool {
    exists|order: Seq<usize>|
        #[trigger] crate::sort::is_stable_order(candidate_scores(c), true, order) && ranked.len() == c.len()
            && forall|k: int| 0 <= k < ranked.len() ==> ranked[k] == c[order[k] as int]
}

/// A copy of the positions.
fn copy_positions(v: &Vec<usize>) -> (r: Vec<usize>)
    ensures
        r@ == v@,
{
    let mut out: Vec<usize> = Vec::new();
    for i in 0..v.len()
        invariant
            out@ == v@.take(i as int),
    {
        out.push(v[i]);
    }
    assert(out@ =~= v@);
    out
}

/// Ranks `commands` against `query`: keeps every command whose name or any keyword fuzzy-matches
/// (see [`command_match`]) and orders them by score, best first; a stable order keeps the input order
/// for equal scores, so the empty query (score 0 for all) lists every command in its original order.
/// Scores are `i32`s, so every name and keyword must score within one ([`rank_checked`] tests that).
pub fn rank<A>(commands: &[Command<A>], query: &str) -> (r: Vec<Match>)
    requires
        commands_fit(commands@, query@),
    ensures
        is_ranking(
            candidates(commands@, query@, commands@.len() as int),
            r@.map_values(|m: Match| match_view(m)),
        ),
{
    let n = commands.len();
    let mut cands: Vec<Match> = Vec::new();
    let mut keys: Vec<i64> = Vec::new();
    for i in 0..n
        invariant
            n == commands@.len(),
            commands_fit(commands@, query@),
            cands@.len() == keys@.len(),
            cands@.len() == candidates(commands@, query@, i as int).len(),
            forall|k: int|
                0 <= k < cands@.len() ==> match_view(#[trigger] cands@[k]) == candidates(commands@, query@, i as int)[k]
                    && keys@[k] == cands@[k].score as i64,
    {
        let cmd = &commands[i];
        proof {
            assert(fits_i32(commands@[i as int].name_view(), query@));
        }
        let name_m = fuzzy_score(cmd.name(), query);
        let kw = best_keyword(cmd.keyword_strings(), query);
        proof {
            lemma_greedy_sound(cmd.name_view(), query@, 0, 0);
            lemma_total_score_bounds(
                cmd.name_view(),
                case_flags(cmd.name_view()),
                greedy_positions(cmd.name_view(), query@, 0, 0),
            );
        }
        let ghost before = cands@;
        let found: Option<Match> = match name_m {
            Some((ns, positions)) => {
                let score = match kw {
                    Some(k) => if ns >= k {
                        ns
                    } else {
                        k
                    },
                    None => ns,
                };
                proof {
                    let pp = greedy_positions(cmd.name_view(), query@, 0, 0);
                    assert(positions@.map_values(|x: usize| x as int) =~= pp);
                }
                Some(Match { cmd: i, positions, score })
            },
            None => match kw {
                Some(k) => {
                    let m = Match { cmd: i, positions: Vec::new(), score: k - 1 };
                    proof {
                        assert(m.positions@.map_values(|x: usize| x as int) =~= Seq::<int>::empty());
                    }
                    Some(m)
                },
                None => None,
            },
        };
        match found {
            Some(m) => {
                keys.push(m.score as i64);
                cands.push(m);
            },
            None => {},
        }
        proof {
            assert forall|k: int| 0 <= k < cands@.len() implies match_view(#[trigger] cands@[k]) == candidates(
                commands@,
                query@,
                i + 1,
            )[k] && keys@[k] == cands@[k].score as i64 by {
                if k < before.len() {
                    assert(cands@[k] == before[k]);
                }
            }
        }
    }
    let ghost c = candidates(commands@, query@, n as int);
    assert forall|k: int| 0 <= k < keys@.len() implies keys@[k] == candidate_scores(c)[k] by {
        assert(match_view(cands@[k]) == c[k]);
    }
    assert(keys@ =~= candidate_scores(c));
    let order = stable_order(&keys, true);
    let mut out: Vec<Match> = Vec::new();
    for k in 0..order.len()
        invariant
            order@.len() == cands@.len(),
            cands@.len() == c.len(),
            crate::sort::is_stable_order(candidate_scores(c), true, order@),
            forall|j: int| 0 <= j < cands@.len() ==> match_view(#[trigger] cands@[j]) == c[j],
            out@.len() == k,
            forall|j: int| 0 <= j < k ==> match_view(#[trigger] out@[j]) == c[order@[j] as int],
    {
        let m = &cands[order[k]];
        out.push(Match { cmd: m.cmd, positions: copy_positions(&m.positions), score: m.score });
    }
    proof {
        let rv = out@.map_values(|m: Match| match_view(m));
        assert forall|j: int| 0 <= j < rv.len() implies rv[j] == c[order@[j] as int] by {
            assert(match_view(out@[j]) == c[order@[j] as int]);
        }
    }
    out
}

/// What a key press in the open command palette does: the new selection (an index into the ranked
/// results), the result to run (its command's action runs and the palette closes), and whether the
/// palette closes.
#[derive(Clone, Copy, Debug)]
pub struct PaletteKeyOutcome {
    pub highlight: usize,
    pub run: Option<usize>,
    pub close: bool,
}

/// The palette key handler over `n` ranked results: Down moves the selection one down, clamped at the
/// last result; Up moves it one up, clamped at the first; Enter / NumpadEnter run the selected result and
/// close; Escape closes. Auto-repeats and other keys do nothing.
pub open spec fn spec_palette_key(highlight: usize, n: usize, key: Key, repeat: bool) -> PaletteKeyOutcome {
    let idle = PaletteKeyOutcome { highlight, run: None, close: false };
    if repeat {
        idle
    } else if key == Key::ArrowDown {
        if n > 0 {
            PaletteKeyOutcome {
                highlight: if highlight + 1 < n {
                    (highlight + 1) as usize
                } else {
                    (n - 1) as usize
                },
                run: None,
                close: false,
            }
        } else {
            idle
        }
    } else if key == Key::ArrowUp {
        PaletteKeyOutcome {
            highlight: if highlight > 0 {
                (highlight - 1) as usize
            } else {
                0
            },
            run: None,
            close: false,
        }
    } else if key == Key::Enter || key == Key::NumpadEnter {
        if highlight < n {
            PaletteKeyOutcome { highlight, run: Some(highlight), close: true }
        } else {
            idle
        }
    } else if key == Key::Escape {
        PaletteKeyOutcome { highlight, run: None, close: true }
    } else {
        idle
    }
}

/// Executable form of [`spec_palette_key`].
pub fn palette_key(highlight: usize, n: usize, key: Key, repeat: bool) -> (r: PaletteKeyOutcome)
    ensures
        r == spec_palette_key(highlight, n, key, repeat),
{
    let idle = PaletteKeyOutcome { highlight, run: None, close: false };
    if repeat {
        return idle;
    }
    match key {
        Key::ArrowDown => if n > 0 {
            PaletteKeyOutcome {
                highlight: if highlight >= n - 1 {
                    n - 1
                } else {
                    highlight + 1
                },
                run: None,
                close: false,
            }
        } else {
            idle
        },
        Key::ArrowUp => PaletteKeyOutcome {
            highlight: if highlight > 0 {
                highlight - 1
            } else {
                0
            },
            run: None,
            close: false,
        },
        Key::Enter | Key::NumpadEnter => if highlight < n {
            PaletteKeyOutcome { highlight, run: Some(highlight), close: true }
        } else {
            idle
        },
        Key::Escape => PaletteKeyOutcome { highlight, run: None, close: true },
        _ => idle,
    }
}

/// The texts of `runs`, concatenated.
pub open spec fn concat_texts(runs: Seq<(bool, Seq<char>)>) -> Seq<char>
    decreases runs.len(),
{
    if runs.len() == 0 {
        Seq::empty()
    } else {
        concat_texts(runs.drop_last()) + runs.last().1
    }
}

/// The highlight runs of a name concatenate back to the name, no run is empty, and neighbouring runs
/// alternate between matched and unmatched.
pub proof fn lemma_runs_cover_name(chars: Seq<char>, flags: Seq<bool>)
    ensures
        concat_texts(runs_of(chars, flags)) == chars,
        forall|k: int| 0 <= k < runs_of(chars, flags).len() ==> (#[trigger] runs_of(chars, flags)[k]).1.len() > 0,
        forall|k: int|
            0 <= k < runs_of(chars, flags).len() - 1 ==> (#[trigger] runs_of(chars, flags)[k]).0 != runs_of(
                chars,
                flags,
            )[k + 1].0,
    decreases chars.len(),
{
    if chars.len() > 0 {
        let pre = chars.drop_last();
        lemma_runs_cover_name(pre, flags);
        let r = runs_of(pre, flags);
        let f = flags[chars.len() - 1];
        let c = chars.last();
        let out = runs_of(chars, flags);
        if r.len() > 0 && r.last().0 == f {
            assert(out.drop_last() =~= r.drop_last());
            assert(concat_texts(r) == concat_texts(r.drop_last()) + r.last().1);
            assert(concat_texts(out) =~= concat_texts(r) + seq![c]);
            assert forall|k: int| 0 <= k < out.len() - 1 implies (#[trigger] out[k]).0 != out[k + 1].0 by {
                assert(out[k] == r[k]);
                if k + 1 < out.len() - 1 {
                    assert(out[k + 1] == r[k + 1]);
                }
            }
            assert forall|k: int| 0 <= k < out.len() implies (#[trigger] out[k]).1.len() > 0 by {
                if k < out.len() - 1 {
                    assert(out[k] == r[k]);
                }
            }
        } else {
            assert(out.drop_last() =~= r);
            assert(concat_texts(out) =~= concat_texts(r) + seq![c]);
            assert forall|k: int| 0 <= k < out.len() - 1 implies (#[trigger] out[k]).0 != out[k + 1].0 by {
                assert(out[k] == r[k]);
                if k + 1 < out.len() - 1 {
                    assert(out[k + 1] == r[k + 1]);
                }
            }
            assert forall|k: int| 0 <= k < out.len() implies (#[trigger] out[k]).1.len() > 0 by {
                if k < out.len() - 1 {
                    assert(out[k] == r[k]);
                }
            }
        }
        assert(pre + seq![c] =~= chars);
    }
}

proof fn lemma_empty_query_keyword_score(kws: Seq<Seq<char>>)
    ensures
        best_keyword_score(kws, Seq::empty()) matches Some(s) ==> s == 0,
    decreases kws.len(),
{
    if kws.len() > 0 {
        lemma_empty_query_keyword_score(kws.drop_last());
    }
}

proof fn lemma_empty_query_candidates<A>(cmds: Seq<Command<A>>, n: int)
    requires
        0 <= n <= cmds.len(),
    ensures
        candidates(cmds, Seq::empty(), n).len() == n,
        forall|k: int|
            0 <= k < n ==> (#[trigger] candidates(cmds, Seq::empty(), n)[k]).0 == k && candidates(
                cmds,
                Seq::empty(),
                n,
            )[k].1 == 0,
    decreases n,
{
    if n > 0 {
        lemma_empty_query_candidates(cmds, n - 1);
        lemma_empty_query_keyword_score(cmds[n - 1].keywords_view());
        let q = Seq::<char>::empty();
        assert(greedy_positions(cmds[n - 1].name_view(), q, 0, 0) =~= Seq::<int>::empty());
        let c = candidates(cmds, q, n);
        let rest = candidates(cmds, q, n - 1);
        assert forall|k: int| 0 <= k < n implies (#[trigger] c[k]).0 == k && c[k].1 == 0 by {
            if k < n - 1 {
                assert(c[k] == rest[k]);
            }
        }
    }
}

/// The empty query keeps every command, in the original order, all with score 0.
pub proof fn lemma_empty_query_lists_all<A>(cmds: Seq<Command<A>>)
    requires
        cmds.len() <= usize::MAX,
    ensures
        candidates(cmds, Seq::empty(), cmds.len() as int).len() == cmds.len(),
        forall|k: int|
            0 <= k < cmds.len() ==> (#[trigger] candidates(cmds, Seq::empty(), cmds.len() as int)[k]).0 == k,
        crate::sort::is_stable_order(
            candidate_scores(candidates(cmds, Seq::empty(), cmds.len() as int)),
            true,
            Seq::new(cmds.len(), |i: int| i as usize),
        ),
{
    lemma_empty_query_candidates(cmds, cmds.len() as int);
    let c = candidates(cmds, Seq::empty(), cmds.len() as int);
    let keys = candidate_scores(c);
    let id = Seq::new(cmds.len(), |i: int| i as usize);
    assert forall|a: int, b: int| 0 <= a < b < id.len() implies #[trigger] crate::sort::precedes(
        keys,
        true,
        id[a] as int,
        id[b] as int,
    ) by {
        assert(id[a] as int == a && id[b] as int == b);
        assert(c[a].1 == 0 && c[b].1 == 0);
        assert(keys[a] == keys[b]);
    }
    assert forall|a: int| 0 <= a < id.len() implies id[a] < id.len() by {
        assert(id[a] as int == a);
    }
    assert forall|a: int, b: int| 0 <= a < b < id.len() implies id[a] != id[b] by {
        assert(id[a] as int == a && id[b] as int == b);
    }
}

/// A click on result row `row` of an open palette of `n` results: it runs that result and closes the
/// palette, the row being highlighted as the pointer is over it. A click outside the rows changes
/// nothing.
pub fn palette_click(highlight: usize, n: usize, row: usize) -> (r: PaletteKeyOutcome)
    ensures
        if row < n {
            r.highlight == row && r.run == Some(row) && r.close
        } else {
            r.highlight == highlight && r.run is None && !r.close
        },
{
    if row < n {
        PaletteKeyOutcome { highlight: row, run: Some(row), close: true }
    } else {
        PaletteKeyOutcome { highlight, run: None, close: false }
    }
}

/// The palette's input state: the query typed so far and the highlighted result.
#[derive(Debug)]
pub struct PaletteInput {
    pub query: String,
    pub highlight: usize,
}

impl PaletteInput {
    /// Opening the palette starts clean whatever was there before: any stale query is cleared and the
    /// highlight is on the first result.
    pub fn opened(self) -> (r: Self)
        ensures
            r.query@ == Seq::<char>::empty(),
            r.highlight == 0,
    {
        PaletteInput { query: String::new(), highlight: 0 }
    }

    /// A change of the query moves the highlight back to the first result.
    pub fn typed(self, query: String) -> (r: Self)
        ensures
            r.query@ == query@,
            r.highlight == 0,
    {
        PaletteInput { query, highlight: 0 }
    }
}

/// The palette's arrows move the selection one result at a time and stop at the ends: from result `h` of
/// `n`, Down never moves it backwards and stays only on the last result; Up never moves it forwards and
/// stays only on the first. Neither runs anything or closes the palette.
pub proof fn lemma_palette_arrows_clamp(h: usize, n: usize)
    requires
        h < n,
    ensures
        ({
            let d = spec_palette_key(h, n, Key::ArrowDown, false);
            &&& h <= d.highlight <= h + 1 && d.highlight < n
            &&& (d.highlight == h <==> h + 1 == n)
            &&& d.run is None && !d.close
        }),
        ({
            let u = spec_palette_key(h, n, Key::ArrowUp, false);
            &&& u.highlight <= h <= u.highlight + 1
            &&& (u.highlight == h <==> h == 0)
            &&& u.run is None && !u.close
        }),
{
}

} // verus!
