//! The kernel command line as an ordered map from keys to optional values.

use vstd::prelude::*;

use crate::text::{char_is_ws, chars_equal, chars_of, is_ws};

verus! {

/// One kernel argument: its key and, for `key=value` arguments, its value.
pub type ArgView = (Seq<char>, Option<Seq<char>>);

/// Strict lexicographic order on character sequences, by code point. This is
/// the order of Rust strings, whose comparison is byte-wise on UTF-8.
pub open spec fn lex_lt(a: Seq<char>, b: Seq<char>) -> bool
    decreases a.len(),
{
    if a.len() == 0 {
        b.len() > 0
    } else if b.len() == 0 {
        false
    } else if a[0] != b[0] {
        (a[0] as int) < (b[0] as int)
    } else {
        lex_lt(a.drop_first(), b.drop_first())
    }
}

/// No sequence is below itself.
pub proof fn lemma_lex_irreflexive(a: Seq<char>)
    ensures
        !lex_lt(a, a),
    decreases a.len(),
{
    if a.len() > 0 {
        lemma_lex_irreflexive(a.drop_first());
    }
}

/// The order is transitive.
pub proof fn lemma_lex_transitive(a: Seq<char>, b: Seq<char>, c: Seq<char>)
    requires
        lex_lt(a, b),
        lex_lt(b, c),
    ensures
        lex_lt(a, c),
    decreases a.len(),
{
    if a.len() > 0 && b.len() > 0 && c.len() > 0 {
        if a[0] == b[0] && b[0] == c[0] {
            lemma_lex_transitive(a.drop_first(), b.drop_first(), c.drop_first());
        }
    }
}

/// Any two distinct sequences are ordered one way or the other.
pub proof fn lemma_lex_total(a: Seq<char>, b: Seq<char>)
    requires
        a != b,
    ensures
        lex_lt(a, b) || lex_lt(b, a),
    decreases a.len(),
{
    if a.len() == 0 && b.len() == 0 {
        assert(a =~= b);
    }
    if a.len() > 0 && b.len() > 0 && a[0] == b[0] {
        if a.drop_first() == b.drop_first() {
            assert(a =~= seq![a[0]] + a.drop_first());
            assert(b =~= seq![b[0]] + b.drop_first());
        }
        lemma_lex_total(a.drop_first(), b.drop_first());
    }
}

/// Whether `a` comes strictly before `b`.
pub fn lex_less(a: &Vec<char>, b: &Vec<char>) -> (r: bool)
    ensures
        r == lex_lt(a@, b@),
{
    let mut i: usize = 0;
    assert(a@.skip(0) =~= a@);
    assert(b@.skip(0) =~= b@);
    while i < a.len() && i < b.len()
        invariant
            i <= a.len(),
            i <= b.len(),
            lex_lt(a@, b@) == lex_lt(a@.skip(i as int), b@.skip(i as int)),
        decreases a.len() - i,
    {
        if a[i] != b[i] {
            return a[i] < b[i];
        }
        assert(a@.skip(i as int).drop_first() =~= a@.skip(i as int + 1));
        assert(b@.skip(i as int).drop_first() =~= b@.skip(i as int + 1));
        i = i + 1;
    }
    i < b.len()
}

/// Arguments in strictly increasing key order.
pub open spec fn sorted_args(s: Seq<ArgView>) -> bool {
    forall|i: int, j: int| 0 <= i < j < s.len() ==> lex_lt(#[trigger] s[i].0, #[trigger] s[j].0)
}

/// Arguments whose keys are pairwise distinct.
pub open spec fn unique_keys(s: Seq<ArgView>) -> bool {
    forall|i: int, j: int| 0 <= i < s.len() && 0 <= j < s.len() && i != j ==> #[trigger] s[i].0 != #[trigger] s[j].0
}

/// The map from keys to values of an argument list; a later argument
/// replaces an earlier one with the same key.
pub open spec fn map_of(s: Seq<ArgView>) -> Map<Seq<char>, Option<Seq<char>>>
    decreases s.len(),
{
    if s.len() == 0 {
        Map::empty()
    } else {
        map_of(s.drop_last()).insert(s.last().0, s.last().1)
    }
}

/// Arguments with distinct keys give a finite map with one key per argument.
pub proof fn lemma_map_of_len(s: Seq<ArgView>)
    requires
        unique_keys(s),
    ensures
        map_of(s).dom().finite(),
        map_of(s).len() == s.len(),
    decreases s.len(),
{
    if s.len() > 0 {
        let t = s.drop_last();
        assert(unique_keys(t)) by {
            assert forall|a: int, b: int| 0 <= a < t.len() && 0 <= b < t.len() && a != b implies #[trigger] t[a].0
                != #[trigger] t[b].0 by {
                assert(t[a] == s[a] && t[b] == s[b]);
            }
        }
        lemma_map_of_len(t);
        lemma_map_of_domain(t, s.last().0);
        assert(!map_of(t).contains_key(s.last().0)) by {
            if map_of(t).contains_key(s.last().0) {
                let i = choose|i: int| 0 <= i < t.len() && #[trigger] t[i].0 == s.last().0;
                assert(s[i].0 == s[s.len() - 1].0);
            }
        }
        assert(map_of(s).dom() =~= map_of(t).dom().insert(s.last().0));
    }
}

/// Sorted arguments have distinct keys.
pub proof fn lemma_sorted_unique(s: Seq<ArgView>)
    requires
        sorted_args(s),
    ensures
        unique_keys(s),
{
    assert forall|i: int, j: int| 0 <= i < s.len() && 0 <= j < s.len() && i != j implies #[trigger] s[i].0 != #[trigger] s[j].0 by {
        if i < j {
            lemma_lex_irreflexive(s[i].0);
        } else {
            lemma_lex_irreflexive(s[j].0);
        }
    }
}

/// A key is in the map of a list exactly when some argument has it.
pub proof fn lemma_map_of_domain(s: Seq<ArgView>, k: Seq<char>)
    ensures
        map_of(s).contains_key(k) <==> exists|i: int| 0 <= i < s.len() && #[trigger] s[i].0 == k,
    decreases s.len(),
{
    if s.len() > 0 {
        lemma_map_of_domain(s.drop_last(), k);
        if map_of(s).contains_key(k) {
            if k == s.last().0 {
                assert(s[s.len() - 1].0 == k);
            } else {
                let i = choose|i: int| 0 <= i < s.drop_last().len() && #[trigger] s.drop_last()[i].0 == k;
                assert(s[i].0 == k);
            }
        } else {
            assert forall|i: int| 0 <= i < s.len() implies #[trigger] s[i].0 != k by {
                if i < s.len() - 1 {
                    assert(s.drop_last()[i].0 == s[i].0);
                }
            }
        }
    }
}

/// With distinct keys, the map holds each argument's value under its key.
pub proof fn lemma_map_of_value(s: Seq<ArgView>, i: int)
    requires
        unique_keys(s),
        0 <= i < s.len(),
    ensures
        map_of(s).contains_key(s[i].0),
        map_of(s)[s[i].0] == s[i].1,
    decreases s.len(),
{
    if i < s.len() - 1 {
        let t = s.drop_last();
        assert(unique_keys(t)) by {
            assert forall|a: int, b: int| 0 <= a < t.len() && 0 <= b < t.len() && a != b implies #[trigger] t[a].0 != #[trigger] t[b].0 by {
                assert(t[a] == s[a] && t[b] == s[b]);
            }
        }
        assert(t[i] == s[i]);
        lemma_map_of_value(t, i);
        assert(s[i].0 != s[s.len() - 1].0);
    }
}

/// Two argument lists with distinct keys that hold the same keys with the
/// same values have the same map.
pub proof fn lemma_map_of_ext(a: Seq<ArgView>, m: Map<Seq<char>, Option<Seq<char>>>)
    requires
        unique_keys(a),
        forall|k: Seq<char>| m.contains_key(k) <==> exists|i: int| 0 <= i < a.len() && #[trigger] a[i].0 == k,
        forall|i: int| 0 <= i < a.len() ==> m[#[trigger] a[i].0] == a[i].1,
    ensures
        map_of(a) == m,
{
    assert forall|k: Seq<char>| map_of(a).contains_key(k) <==> m.contains_key(k) by {
        lemma_map_of_domain(a, k);
    }
    assert forall|k: Seq<char>| #[trigger] map_of(a).contains_key(k) implies map_of(a)[k] == m[k] by {
        lemma_map_of_domain(a, k);
        let i = choose|i: int| 0 <= i < a.len() && #[trigger] a[i].0 == k;
        lemma_map_of_value(a, i);
    }
    assert(map_of(a) =~= m);
}

/// Dropping the last argument of a list with distinct keys removes its key
/// from the map.
proof fn lemma_map_drop_last(s: Seq<ArgView>)
    requires
        unique_keys(s),
        s.len() > 0,
    ensures
        map_of(s.drop_last()) == map_of(s).remove(s.last().0),
{
    let d = s.drop_last();
    let k = s.last().0;
    lemma_map_of_domain(d, k);
    assert forall|i: int| 0 <= i < d.len() implies #[trigger] d[i].0 != k by {
        assert(d[i] == s[i]);
        assert(s[i].0 != s[s.len() - 1].0);
    }
    assert(!map_of(d).contains_key(k));
    assert(map_of(s).remove(k) =~= map_of(d));
}

/// The order of a sorted list is fixed by its map: two sorted argument
/// lists with the same map are the same list.
pub proof fn lemma_sorted_same_map(a: Seq<ArgView>, b: Seq<ArgView>)
    requires
        sorted_args(a),
        sorted_args(b),
        map_of(a) == map_of(b),
    ensures
        a == b,
    decreases a.len(),
{
    lemma_sorted_unique(a);
    lemma_sorted_unique(b);
    if a.len() == 0 || b.len() == 0 {
        if a.len() > 0 {
            lemma_map_of_domain(a, a[0].0);
            lemma_map_of_domain(b, a[0].0);
        }
        if b.len() > 0 {
            lemma_map_of_domain(a, b[0].0);
            lemma_map_of_domain(b, b[0].0);
        }
        assert(a =~= b);
    } else {
        let la = a.len() - 1;
        let lb = b.len() - 1;
        let ka = a[la].0;
        let kb = b[lb].0;
        lemma_map_of_domain(a, ka);
        lemma_map_of_domain(b, ka);
        lemma_map_of_domain(a, kb);
        lemma_map_of_domain(b, kb);
        if ka != kb {
            let j = choose|j: int| 0 <= j < b.len() && #[trigger] b[j].0 == ka;
            let i = choose|i: int| 0 <= i < a.len() && #[trigger] a[i].0 == kb;
            assert(j < lb);
            assert(i < la);
            assert(lex_lt(b[j].0, b[lb].0));
            assert(lex_lt(a[i].0, a[la].0));
            lemma_lex_transitive(ka, kb, ka);
            lemma_lex_irreflexive(ka);
        }
        lemma_map_of_value(a, la);
        lemma_map_of_value(b, lb);
        lemma_map_drop_last(a);
        lemma_map_drop_last(b);
        let da = a.drop_last();
        let db = b.drop_last();
        assert(sorted_args(da)) by {
            assert forall|i: int, j: int| 0 <= i < j < da.len() implies lex_lt(#[trigger] da[i].0, #[trigger] da[j].0) by {
                assert(da[i] == a[i] && da[j] == a[j]);
            }
        }
        assert(sorted_args(db)) by {
            assert forall|i: int, j: int| 0 <= i < j < db.len() implies lex_lt(#[trigger] db[i].0, #[trigger] db[j].0) by {
                assert(db[i] == b[i] && db[j] == b[j]);
            }
        }
        lemma_sorted_same_map(da, db);
        assert(a =~= da.push(a[la]));
        assert(b =~= db.push(b[lb]));
    }
}

/// The rendering of a set of arguments: the rendering of its one sorted
/// argument list.
pub open spec fn render_map(m: Map<Seq<char>, Option<Seq<char>>>) -> Seq<char> {
    render_args(choose|s: Seq<ArgView>| sorted_args(s) && map_of(s) == m)
}

/// A sorted list renders as the map it stands for.
pub proof fn lemma_render_map(s: Seq<ArgView>)
    requires
        sorted_args(s),
    ensures
        render_args(s) == render_map(map_of(s)),
{
    let t = choose|t: Seq<ArgView>| sorted_args(t) && map_of(t) == map_of(s);
    lemma_sorted_same_map(s, t);
}

/// Inserting at the position that keeps the order adds the argument to the
/// map.
proof fn lemma_sorted_insert(s: Seq<ArgView>, idx: int, a: ArgView)
    requires
        sorted_args(s),
        0 <= idx <= s.len(),
        forall|i: int| 0 <= i < idx ==> lex_lt(#[trigger] s[i].0, a.0),
        forall|i: int| idx <= i < s.len() ==> lex_lt(a.0, #[trigger] s[i].0),
    ensures
        sorted_args(s.insert(idx, a)),
        map_of(s.insert(idx, a)) == map_of(s).insert(a.0, a.1),
{
    let t = s.insert(idx, a);
    assert forall|i: int, j: int| 0 <= i < j < t.len() implies lex_lt(#[trigger] t[i].0, #[trigger] t[j].0) by {
        if j < idx {
            assert(t[i] == s[i] && t[j] == s[j]);
        } else if j == idx {
            assert(t[i] == s[i]);
        } else if i < idx {
            assert(t[i] == s[i] && t[j] == s[j - 1]);
            lemma_lex_transitive(s[i].0, a.0, s[j - 1].0);
        } else if i == idx {
            assert(t[j] == s[j - 1]);
        } else {
            assert(t[i] == s[i - 1] && t[j] == s[j - 1]);
        }
    }
    lemma_sorted_unique(s);
    lemma_sorted_unique(t);
    let m = map_of(s).insert(a.0, a.1);
    assert forall|k: Seq<char>| m.contains_key(k) <==> exists|i: int| 0 <= i < t.len() && #[trigger] t[i].0 == k by {
        lemma_map_of_domain(s, k);
        if m.contains_key(k) {
            if k == a.0 {
                assert(t[idx].0 == k);
            } else {
                let i = choose|i: int| 0 <= i < s.len() && #[trigger] s[i].0 == k;
                if i < idx {
                    assert(t[i].0 == k);
                } else {
                    assert(t[i + 1].0 == k);
                }
            }
        }
        if exists|i: int| 0 <= i < t.len() && #[trigger] t[i].0 == k {
            let i = choose|i: int| 0 <= i < t.len() && #[trigger] t[i].0 == k;
            if i < idx {
                assert(s[i].0 == k);
            } else if i > idx {
                assert(s[i - 1].0 == k);
            }
        }
    }
    assert forall|i: int| 0 <= i < t.len() implies m[#[trigger] t[i].0] == t[i].1 by {
        if i < idx {
            assert(t[i] == s[i]);
            lemma_map_of_value(s, i);
            lemma_lex_irreflexive(a.0);
        } else if i > idx {
            assert(t[i] == s[i - 1]);
            lemma_map_of_value(s, i - 1);
            lemma_lex_irreflexive(a.0);
        }
    }
    lemma_map_of_ext(t, m);
}

/// Replacing the argument that has the key replaces its value in the map.
proof fn lemma_sorted_update(s: Seq<ArgView>, idx: int, a: ArgView)
    requires
        sorted_args(s),
        0 <= idx < s.len(),
        s[idx].0 == a.0,
    ensures
        sorted_args(s.update(idx, a)),
        map_of(s.update(idx, a)) == map_of(s).insert(a.0, a.1),
{
    let t = s.update(idx, a);
    assert forall|i: int, j: int| 0 <= i < j < t.len() implies lex_lt(#[trigger] t[i].0, #[trigger] t[j].0) by {
        assert(t[i].0 == s[i].0 && t[j].0 == s[j].0);
    }
    lemma_sorted_unique(s);
    lemma_sorted_unique(t);
    let m = map_of(s).insert(a.0, a.1);
    assert forall|k: Seq<char>| m.contains_key(k) <==> exists|i: int| 0 <= i < t.len() && #[trigger] t[i].0 == k by {
        lemma_map_of_domain(s, k);
        if m.contains_key(k) {
            if k == a.0 {
                assert(t[idx].0 == k);
            } else {
                let i = choose|i: int| 0 <= i < s.len() && #[trigger] s[i].0 == k;
                assert(t[i].0 == k);
            }
        }
        if exists|i: int| 0 <= i < t.len() && #[trigger] t[i].0 == k {
            let i = choose|i: int| 0 <= i < t.len() && #[trigger] t[i].0 == k;
            assert(s[i].0 == k);
        }
    }
    assert forall|i: int| 0 <= i < t.len() implies m[#[trigger] t[i].0] == t[i].1 by {
        if i != idx {
            lemma_map_of_value(s, i);
        }
    }
    lemma_map_of_ext(t, m);
}

/// Removing the argument that has the key removes the key from the map.
proof fn lemma_sorted_remove(s: Seq<ArgView>, idx: int)
    requires
        sorted_args(s),
        0 <= idx < s.len(),
    ensures
        sorted_args(s.remove(idx)),
        map_of(s.remove(idx)) == map_of(s).remove(s[idx].0),
{
    let t = s.remove(idx);
    let k0 = s[idx].0;
    assert forall|i: int, j: int| 0 <= i < j < t.len() implies lex_lt(#[trigger] t[i].0, #[trigger] t[j].0) by {
        if j < idx {
            assert(t[i] == s[i] && t[j] == s[j]);
        } else if i < idx {
            assert(t[i] == s[i] && t[j] == s[j + 1]);
        } else {
            assert(t[i] == s[i + 1] && t[j] == s[j + 1]);
        }
    }
    lemma_sorted_unique(s);
    lemma_sorted_unique(t);
    let m = map_of(s).remove(k0);
    assert forall|k: Seq<char>| m.contains_key(k) <==> exists|i: int| 0 <= i < t.len() && #[trigger] t[i].0 == k by {
        lemma_map_of_domain(s, k);
        if m.contains_key(k) {
            let i = choose|i: int| 0 <= i < s.len() && #[trigger] s[i].0 == k;
            if i < idx {
                assert(t[i].0 == k);
            } else {
                assert(i != idx);
                assert(t[i - 1].0 == k);
            }
        }
        if exists|i: int| 0 <= i < t.len() && #[trigger] t[i].0 == k {
            let i = choose|i: int| 0 <= i < t.len() && #[trigger] t[i].0 == k;
            if i < idx {
                assert(s[i].0 == k);
            } else {
                assert(s[i + 1].0 == k);
            }
        }
    }
    assert forall|i: int| 0 <= i < t.len() implies m[#[trigger] t[i].0] == t[i].1 by {
        if i < idx {
            lemma_map_of_value(s, i);
        } else {
            lemma_map_of_value(s, i + 1);
        }
    }
    lemma_map_of_ext(t, m);
}


/// Length of the run of non-whitespace characters that starts `s`.
pub open spec fn word_len(s: Seq<char>) -> nat
    decreases s.len(),
{
    if s.len() == 0 || is_ws(s[0]) {
        0
    } else {
        1 + word_len(s.drop_first())
    }
}

/// A word is never longer than the sequence it starts.
pub proof fn lemma_word_len_bound(s: Seq<char>)
    ensures
        word_len(s) <= s.len(),
    decreases s.len(),
{
    if s.len() > 0 && !is_ws(s[0]) {
        lemma_word_len_bound(s.drop_first());
    }
}

/// The whitespace-separated words of `s`, in order, as `str::split_whitespace`
/// yields them.
pub open spec fn split_ws(s: Seq<char>) -> Seq<Seq<char>>
    decreases s.len(),
{
    if s.len() == 0 {
        Seq::empty()
    } else if is_ws(s[0]) {
        split_ws(s.drop_first())
    } else {
        let w = word_len(s);
        proof {
            lemma_word_len_bound(s);
        }
        seq![s.take(w as int)] + split_ws(s.skip(w as int))
    }
}

/// Position of the first `=` in `t`.
pub open spec fn eq_pos(t: Seq<char>) -> Option<nat>
    decreases t.len(),
{
    if t.len() == 0 {
        None
    } else if t[0] == '=' {
        Some(0)
    } else {
        match eq_pos(t.drop_first()) {
            Some(i) => Some(i + 1),
            None => None,
        }
    }
}

/// The argument that a word stands for: `key=value` splits at the first `=`,
/// a word without `=` is a flag.
pub open spec fn arg_of_word(t: Seq<char>) -> ArgView {
    match eq_pos(t) {
        Some(i) => (t.take(i as int), Some(t.skip(i as int + 1))),
        None => (t, None),
    }
}

/// The map that a raw kernel command line stands for; a later argument
/// replaces an earlier one with the same key.
pub open spec fn parse_spec(raw: Seq<char>) -> Map<Seq<char>, Option<Seq<char>>> {
    map_of(args_of_words(split_ws(raw)))
}

/// The arguments that a list of words stands for.
pub open spec fn args_of_words(ws: Seq<Seq<char>>) -> Seq<ArgView> {
    ws.map_values(|w: Seq<char>| arg_of_word(w))
}

/// The word that renders an argument: `key=value`, or `key` for a flag.
pub open spec fn word_of_arg(a: ArgView) -> Seq<char> {
    match a.1 {
        Some(v) => a.0 + seq!['='] + v,
        None => a.0,
    }
}

/// Words joined by single spaces.
pub open spec fn join_words(ws: Seq<Seq<char>>) -> Seq<char>
    decreases ws.len(),
{
    if ws.len() == 0 {
        Seq::empty()
    } else if ws.len() == 1 {
        ws[0]
    } else {
        ws[0] + seq![' '] + join_words(ws.drop_first())
    }
}

/// The rendering of an argument list: its words joined by single spaces.
pub open spec fn render_args(s: Seq<ArgView>) -> Seq<char> {
    join_words(s.map_values(|a: ArgView| word_of_arg(a)))
}

/// Joining one more word appends a space and the word.
proof fn lemma_join_push(ws: Seq<Seq<char>>, w: Seq<char>)
    requires
        ws.len() >= 1,
    ensures
        join_words(ws.push(w)) == join_words(ws) + seq![' '] + w,
    decreases ws.len(),
{
    let t = ws.push(w);
    if ws.len() == 1 {
        assert(t.drop_first() =~= seq![w]);
        assert(join_words(t.drop_first()) == w);
        assert(join_words(t) =~= join_words(ws) + seq![' '] + w);
    } else {
        assert(t.drop_first() =~= ws.drop_first().push(w));
        lemma_join_push(ws.drop_first(), w);
        assert(join_words(t) =~= join_words(ws) + seq![' '] + w);
    }
}

/// The word of a sequence without whitespace is all of it, and anything
/// after it does not change that unless it continues the word.
proof fn lemma_word_len_concat(x: Seq<char>, y: Seq<char>)
    requires
        forall|i: int| 0 <= i < x.len() ==> !is_ws(#[trigger] x[i]),
    ensures
        word_len(x + y) == x.len() + word_len(y),
    decreases x.len(),
{
    if x.len() > 0 {
        assert((x + y).drop_first() =~= x.drop_first() + y);
        assert((x + y)[0] == x[0]);
        lemma_word_len_concat(x.drop_first(), y);
    } else {
        assert(x + y =~= y);
    }
}

/// Splitting words that were joined by spaces gives the words back.
proof fn lemma_split_join(ws: Seq<Seq<char>>)
    requires
        forall|i: int| 0 <= i < ws.len() ==> (#[trigger] ws[i]).len() > 0,
        forall|i: int, j: int| 0 <= i < ws.len() && 0 <= j < ws[i].len() ==> !is_ws(#[trigger] ws[i][j]),
    ensures
        split_ws(join_words(ws)) == ws,
    decreases ws.len(),
{
    if ws.len() == 0 {
        assert(split_ws(Seq::<char>::empty()) =~= Seq::<Seq<char>>::empty());
        assert(ws =~= Seq::<Seq<char>>::empty());
    } else {
        let w0 = ws[0];
        assert(forall|j: int| 0 <= j < w0.len() ==> !is_ws(#[trigger] w0[j]));
        let rest = if ws.len() == 1 { Seq::<char>::empty() } else { seq![' '] + join_words(ws.drop_first()) };
        assert(join_words(ws) =~= w0 + rest);
        let s = w0 + rest;
        lemma_word_len_concat(w0, rest);
        if ws.len() > 1 {
            assert(rest[0] == ' ');
            assert(is_ws(rest[0]));
        }
        assert(word_len(rest) == 0);
        assert(word_len(s) == w0.len());
        assert(s[0] == w0[0]);
        assert(!is_ws(s[0]));
        assert(s.take(w0.len() as int) =~= w0);
        assert(s.skip(w0.len() as int) =~= rest);
        let tail = ws.drop_first();
        assert forall|i: int| 0 <= i < tail.len() implies (#[trigger] tail[i]).len() > 0 by {
            assert(tail[i] == ws[i + 1]);
        }
        assert forall|i: int, j: int| 0 <= i < tail.len() && 0 <= j < tail[i].len() implies !is_ws(#[trigger] tail[i][j]) by {
            assert(tail[i] == ws[i + 1]);
        }
        if ws.len() == 1 {
            assert(split_ws(rest) =~= Seq::<Seq<char>>::empty());
            assert(ws =~= seq![w0]);
        } else {
            lemma_split_join(tail);
            assert(rest.drop_first() =~= join_words(tail));
            assert(split_ws(rest) == split_ws(join_words(tail)));
            assert(ws =~= seq![w0] + tail);
        }
    }
}

/// The first `=` of `k=v`, when `k` holds none, is right after `k`.
proof fn lemma_eq_pos_after_key(k: Seq<char>, v: Seq<char>)
    requires
        forall|i: int| 0 <= i < k.len() ==> #[trigger] k[i] != '=',
    ensures
        eq_pos(k + seq!['='] + v) == Some(k.len()),
        eq_pos(k) is None,
    decreases k.len(),
{
    let t = k + seq!['='] + v;
    if k.len() == 0 {
        assert(t[0] == '=');
    } else {
        assert(t.drop_first() =~= k.drop_first() + seq!['='] + v);
        assert(t[0] == k[0]);
        lemma_eq_pos_after_key(k.drop_first(), v);
    }
}

/// A key that has no whitespace, no `=` and at least one character.
pub open spec fn plain_key(k: Seq<char>) -> bool {
    &&& k.len() > 0
    &&& forall|i: int| 0 <= i < k.len() ==> !is_ws(#[trigger] k[i]) && k[i] != '='
}

/// A value without whitespace.
pub open spec fn plain_value(v: Option<Seq<char>>) -> bool {
    match v {
        Some(v) => forall|i: int| 0 <= i < v.len() ==> !is_ws(#[trigger] v[i]),
        None => true,
    }
}

/// Reading back the rendering of sorted arguments whose keys are plain and
/// whose values have no whitespace gives the same map.
pub proof fn lemma_parse_render(s: Seq<ArgView>)
    requires
        forall|i: int| 0 <= i < s.len() ==> plain_key(#[trigger] s[i].0) && plain_value(s[i].1),
    ensures
        parse_spec(render_args(s)) == map_of(s),
{
    let ws = s.map_values(|a: ArgView| word_of_arg(a));
    assert forall|i: int| 0 <= i < ws.len() implies (#[trigger] ws[i]).len() > 0 by {
        assert(plain_key(s[i].0));
    }
    assert forall|i: int, j: int| 0 <= i < ws.len() && 0 <= j < ws[i].len() implies !is_ws(#[trigger] ws[i][j]) by {
        let a = s[i];
        assert(plain_key(a.0) && plain_value(a.1));
        match a.1 {
            Some(v) => {
                if j < a.0.len() {
                    assert(ws[i][j] == a.0[j]);
                } else if j > a.0.len() {
                    assert(ws[i][j] == v[j - a.0.len() - 1]);
                }
            },
            None => {},
        }
    }
    lemma_split_join(ws);
    let back = args_of_words(split_ws(render_args(s)));
    assert forall|i: int| 0 <= i < s.len() implies #[trigger] back[i] == s[i] by {
        let a = s[i];
        assert(plain_key(a.0));
        assert(forall|j: int| 0 <= j < a.0.len() ==> #[trigger] a.0[j] != '=');
        match a.1 {
            Some(v) => {
                lemma_eq_pos_after_key(a.0, v);
                let w = a.0 + seq!['='] + v;
                assert(w.take(a.0.len() as int) =~= a.0);
                assert(w.skip(a.0.len() as int + 1) =~= v);
            },
            None => {
                lemma_eq_pos_after_key(a.0, Seq::empty());
            },
        }
    }
    assert(back =~= s);
}

/// The kernel command line: arguments kept in increasing key order, with at
/// most one value per key.
///
/// The arguments are held in a `Vec` sorted by key rather than in a
/// `BTreeMap<String, _>`: the command line is rendered in key order, and
/// vstd's specification of `BTreeMap` holds only for key types whose
/// ordering vstd specifies, which `String` is not among, so neither the
/// contents nor the rendered order could be stated over it. Here the order
/// is [`lex_lt`], stated and proved, and [`KernelArgs::wf`] says the keys
/// are strictly increasing.
#[derive(Debug, Clone, Default, PartialEq, Eq)]
pub struct KernelArgs {
    entries: Vec<(String, Option<String>)>,
}

/// An argument by its characters.
pub open spec fn arg_view(e: (String, Option<String>)) -> ArgView {
    (e.0@, e.1.deep_view())
}

impl KernelArgs {
    /// The arguments in key order.
    pub closed spec fn entries(&self) -> Seq<ArgView> {
        self.entries@.map_values(|e: (String, Option<String>)| arg_view(e))
    }

    /// The arguments are in strictly increasing key order.
    pub closed spec fn wf(&self) -> bool {
        sorted_args(self.entries())
    }
}

impl View for KernelArgs {
    type V = Map<Seq<char>, Option<Seq<char>>>;

    closed spec fn view(&self) -> Map<Seq<char>, Option<Seq<char>>> {
        map_of(self.entries())
    }
}

/// Parsing the command line that a set of kernel arguments renders to gives
/// the same arguments back, when every key is nonempty and free of
/// whitespace and `=`, and no value holds whitespace.
pub proof fn law_kernel_args_roundtrip(k: KernelArgs)
    requires
        k.wf(),
        forall|key: Seq<char>| #[trigger] k@.contains_key(key) ==> plain_key(key) && plain_value(k@[key]),
    ensures
        parse_spec(render_map(k@)) == k@,
{
    let s = k.entries();
    lemma_sorted_unique(s);
    assert forall|i: int| 0 <= i < s.len() implies plain_key(#[trigger] s[i].0) && plain_value(s[i].1) by {
        lemma_map_of_value(s, i);
        assert(k@.contains_key(s[i].0));
    }
    lemma_parse_render(s);
    lemma_render_map(s);
}

impl KernelArgs {
    /// No arguments.
    pub fn new() -> (r: Self)
        ensures
            r.wf(),
            r@ == Map::<Seq<char>, Option<Seq<char>>>::empty(),
    {
        let r = KernelArgs { entries: Vec::new() };
        assert(r.entries() =~= Seq::<ArgView>::empty());
        r
    }

    /// Position of the first argument whose key is not below `key`, and
    /// whether that argument has exactly the key.
    fn find(&self, key: &str) -> (r: (usize, bool))
        requires
            self.wf(),
        ensures
            r.0 <= self.entries().len(),
            forall|i: int| 0 <= i < r.0 ==> lex_lt(#[trigger] self.entries()[i].0, key@),
            r.1 ==> r.0 < self.entries().len() && self.entries()[r.0 as int].0 == key@,
            !r.1 ==> forall|i: int| r.0 <= i < self.entries().len() ==> lex_lt(key@, #[trigger] self.entries()[i].0),
    {
        let kc = chars_of(key);
        let mut idx: usize = 0;
        while idx < self.entries.len()
            invariant
                self.wf(),
                kc@ == key@,
                idx <= self.entries.len(),
                self.entries().len() == self.entries@.len(),
                forall|i: int| 0 <= i < idx ==> lex_lt(#[trigger] self.entries()[i].0, key@),
            decreases self.entries.len() - idx,
        {
            let ec = chars_of(self.entries[idx].0.as_str());
            assert(ec@ == self.entries()[idx as int].0);
            if lex_less(&ec, &kc) {
                idx = idx + 1;
            } else {
                let same = chars_equal(&ec, &kc);
                if !same {
                    proof {
                        lemma_lex_total(ec@, kc@);
                        assert forall|i: int| idx <= i < self.entries().len() implies lex_lt(key@, #[trigger] self.entries()[i].0) by {
                            if i > idx {
                                lemma_lex_transitive(key@, self.entries()[idx as int].0, self.entries()[i].0);
                            }
                        }
                    }
                }
                return (idx, same);
            }
        }
        (idx, false)
    }

    /// Sets `key` to `value`, replacing any value it had.
    pub fn insert(&mut self, key: String, value: Option<String>)
        requires
            old(self).wf(),
        ensures
            final(self).wf(),
            final(self)@ == old(self)@.insert(key@, value.deep_view()),
    {
        let (idx, same) = self.find(key.as_str());
        let ghost before = self.entries();
        let ghost a: ArgView = (key@, value.deep_view());
        let entry = (key, value);
        assert(arg_view(entry) == a);
        if same {
            self.entries.set(idx, entry);
            proof {
                lemma_sorted_update(before, idx as int, a);
                assert(self.entries() =~= before.update(idx as int, a));
            }
        } else {
            self.entries.insert(idx, entry);
            proof {
                lemma_sorted_insert(before, idx as int, a);
                assert(self.entries() =~= before.insert(idx as int, a));
            }
        }
    }

    /// Sets `key` as a flag, without a value.
    pub fn insert_flag(&mut self, key: String)
        requires
            old(self).wf(),
        ensures
            final(self).wf(),
            final(self)@ == old(self)@.insert(key@, None),
    {
        self.insert(key, None);
    }

    /// Sets `key=value`.
    pub fn insert_value(&mut self, key: String, value: String)
        requires
            old(self).wf(),
        ensures
            final(self).wf(),
            final(self)@ == old(self)@.insert(key@, Some(value@)),
    {
        self.insert(key, Some(value));
    }

    /// Removes `key` and returns its value, if it was set.
    pub fn remove(&mut self, key: &str) -> (r: Option<Option<String>>)
        requires
            old(self).wf(),
        ensures
            final(self).wf(),
            final(self)@ == old(self)@.remove(key@),
            r.deep_view() == (if old(self)@.contains_key(key@) { Some(old(self)@[key@]) } else { None }),
    {
        let (idx, same) = self.find(key);
        let ghost before = self.entries();
        proof {
            lemma_sorted_unique(before);
            lemma_map_of_domain(before, key@);
        }
        if same {
            proof {
                lemma_map_of_value(before, idx as int);
            }
            let (_, value) = self.entries.remove(idx);
            proof {
                lemma_sorted_remove(before, idx as int);
                assert(self.entries() =~= before.remove(idx as int));
            }
            Some(value)
        } else {
            proof {
                assert forall|i: int| 0 <= i < before.len() implies #[trigger] before[i].0 != key@ by {
                    if i < idx {
                        lemma_lex_irreflexive(key@);
                    } else {
                        lemma_lex_irreflexive(key@);
                    }
                }
                assert(map_of(before).remove(key@) =~= map_of(before));
            }
            None
        }
    }

    /// The value of `key`: `None` when it is not set, `Some(None)` for a
    /// flag and `Some(Some(v))` for `key=v`.
    pub fn get(&self, key: &str) -> (r: Option<&Option<String>>)
        requires
            self.wf(),
        ensures
            r.deep_view() == (if self@.contains_key(key@) { Some(self@[key@]) } else { None }),
    {
        let (idx, same) = self.find(key);
        proof {
            lemma_sorted_unique(self.entries());
            lemma_map_of_domain(self.entries(), key@);
        }
        if same {
            proof {
                lemma_map_of_value(self.entries(), idx as int);
            }
            Some(&self.entries[idx].1)
        } else {
            proof {
                assert forall|i: int| 0 <= i < self.entries().len() implies #[trigger] self.entries()[i].0 != key@ by {
                    lemma_lex_irreflexive(key@);
                }
            }
            None
        }
    }

    /// Whether `key` is set.
    pub fn contains_key(&self, key: &str) -> (r: bool)
        requires
            self.wf(),
        ensures
            r == self@.contains_key(key@),
    {
        let g = self.get(key);
        g.is_some()
    }

    /// Number of arguments.
    pub fn len(&self) -> (r: usize)
        requires
            self.wf(),
        ensures
            r == self.entries().len(),
            r == self@.len(),
            self@.dom().finite(),
    {
        proof {
            lemma_sorted_unique(self.entries());
            lemma_map_of_len(self.entries());
        }
        self.entries.len()
    }

    /// Whether there is no argument.
    pub fn is_empty(&self) -> (r: bool)
        requires
            self.wf(),
        ensures
            r == (self@ == Map::<Seq<char>, Option<Seq<char>>>::empty()),
    {
        proof {
            if self.entries().len() > 0 {
                lemma_map_of_domain(self.entries(), self.entries()[0].0);
                assert(self@.contains_key(self.entries()[0].0));
            } else {
                assert(self@ =~= Map::<Seq<char>, Option<Seq<char>>>::empty());
            }
        }
        self.entries.len() == 0
    }

    /// The arguments in key order.
    pub fn entries_slice(&self) -> (r: &[(String, Option<String>)])
        requires
            self.wf(),
        ensures
            r@.map_values(|e: (String, Option<String>)| arg_view(e)) == self.entries(),
            sorted_args(self.entries()),
            map_of(self.entries()) == self@,
    {
        self.entries.as_slice()
    }

    /// The command line: the arguments in key order, each as `key=value` or
    /// `key`, separated by single spaces.
    pub fn to_string(&self) -> (r: String)
        requires
            self.wf(),
        ensures
            r@ == render_args(self.entries()),
            r@ == render_map(self@),
            sorted_args(self.entries()),
            map_of(self.entries()) == self@,
    {
        proof {
            lemma_render_map(self.entries());
        }
        let ghost ws = self.entries().map_values(|a: ArgView| word_of_arg(a));
        let mut r = String::new();
        let mut i: usize = 0;
        while i < self.entries.len()
            invariant
                i <= self.entries.len(),
                ws.len() == self.entries@.len(),
                forall|j: int| 0 <= j < ws.len() ==> #[trigger] ws[j] == word_of_arg(arg_view(self.entries@[j])),
                r@ == join_words(ws.take(i as int)),
            decreases self.entries.len() - i,
        {
            let ghost prev = r@;
            if i > 0 {
                r.append(" ");
            }
            let entry = &self.entries[i];
            r.append(entry.0.as_str());
            match &entry.1 {
                Some(v) => {
                    r.append("=");
                    r.append(v.as_str());
                },
                None => {},
            }
            proof {
                reveal_strlit(" ");
                reveal_strlit("=");
                assert(ws.take(i as int + 1) =~= ws.take(i as int).push(ws[i as int]));
                if i == 0 {
                    assert(ws.take(1) =~= seq![ws[0]]);
                    assert(r@ =~= ws[0]);
                } else {
                    lemma_join_push(ws.take(i as int), ws[i as int]);
                    assert(r@ =~= prev + seq![' '] + ws[i as int]);
                }
            }
            i = i + 1;
        }
        assert(ws.take(self.entries.len() as int) =~= ws);
        r
    }

    /// The arguments of a list of pairs; a later pair replaces an earlier
    /// one with the same key.
    pub fn from_pairs(pairs: Vec<(String, Option<String>)>) -> (r: Self)
        ensures
            r.wf(),
            r@ == map_of(pairs@.map_values(|e: (String, Option<String>)| arg_view(e))),
    {
        let ghost all = pairs@.map_values(|e: (String, Option<String>)| arg_view(e));
        let mut r = KernelArgs::new();
        let mut rest = pairs;
        let n = rest.len();
        let mut i: usize = 0;
        while rest.len() > 0
            invariant
                r.wf(),
                rest.len() + i == n,
                all.len() == n,
                forall|j: int| 0 <= j < rest.len() ==> arg_view(#[trigger] rest@[j]) == all[i + j],
                r@ == map_of(all.take(i as int)),
            decreases rest.len(),
        {
            let ghost prev = rest@;
            let e = rest.remove(0);
            assert(arg_view(e) == all[i as int]);
            assert forall|j: int| 0 <= j < rest.len() implies arg_view(#[trigger] rest@[j]) == all[i + 1 + j] by {
                assert(rest@[j] == prev[j + 1]);
            }
            r.insert(e.0, e.1);
            assert(all.take(i as int + 1).drop_last() =~= all.take(i as int));
            i = i + 1;
        }
        assert(all.take(n as int) =~= all);
        r
    }
}

/// Reads a kernel command line: whitespace-separated words, each `key=value`
/// (split at the first `=`) or a flag `key`; a later word replaces an earlier
/// one with the same key.
pub fn parse_kernel_args(raw: &str) -> (r: KernelArgs)
    ensures
        r.wf(),
        r@ == parse_spec(raw@),
{
    let chars = chars_of(raw);
    let n = chars.len();
    let ghost s = raw@;
    let mut args = KernelArgs::new();
    let ghost mut done: Seq<Seq<char>> = Seq::empty();
    let mut i: usize = 0;
    assert(s.skip(0) =~= s);
    assert(done + split_ws(s.skip(0)) =~= split_ws(s));
    while i < n
        invariant
            n == s.len(),
            chars@ == s,
            s == raw@,
            i <= n,
            args.wf(),
            split_ws(s) == done + split_ws(s.skip(i as int)),
            args@ == map_of(args_of_words(done)),
        decreases n - i,
    {
        if char_is_ws(chars[i]) {
            assert(s.skip(i as int).drop_first() =~= s.skip(i as int + 1));
            i = i + 1;
        } else {
            let mut j: usize = i;
            let mut eq: usize = n;
            while j < n && !char_is_ws(chars[j])
                invariant
                    n == s.len(),
                    chars@ == s,
                    i < n,
                    !is_ws(s[i as int]),
                    i <= j <= n,
                    forall|k: int| i <= k < j ==> !is_ws(#[trigger] s[k]),
                    eq == n ==> forall|k: int| i <= k < j ==> #[trigger] s[k] != '=',
                    eq != n ==> i <= eq < j && s[eq as int] == '=' && forall|k: int| i <= k < eq ==> #[trigger] s[k] != '=',
                decreases n - j,
            {
                if eq == n && chars[j] == '=' {
                    eq = j;
                }
                j = j + 1;
            }
            let ghost word = s.subrange(i as int, j as int);
            proof {
                lemma_word_len_at(s.skip(i as int), (j - i) as nat);
                assert(s.skip(i as int).take((j - i) as int) =~= word);
                assert(s.skip(i as int).skip((j - i) as int) =~= s.skip(j as int));
                assert(split_ws(s.skip(i as int)) == seq![word] + split_ws(s.skip(j as int)));
            }
            let key: String;
            let value: Option<String>;
            if eq < n {
                key = raw.substring_char(i, eq).to_string();
                value = Some(raw.substring_char(eq + 1, j).to_string());
                proof {
                    lemma_eq_pos_at(word, (eq - i) as nat);
                    assert(word.take((eq - i) as int) =~= s.subrange(i as int, eq as int));
                    assert(word.skip((eq - i) as int + 1) =~= s.subrange(eq as int + 1, j as int));
                }
            } else {
                key = raw.substring_char(i, j).to_string();
                value = None;
                proof {
                    lemma_eq_pos_none(word);
                }
            }
            assert(arg_of_word(word) == (key@, value.deep_view()));
            args.insert(key, value);
            proof {
                assert(args_of_words(done.push(word)) =~= args_of_words(done).push(arg_of_word(word)));
                assert(args_of_words(done.push(word)).drop_last() =~= args_of_words(done));
                assert(done + split_ws(s.skip(i as int)) =~= done.push(word) + split_ws(s.skip(j as int)));
                done = done.push(word);
            }
            i = j;
        }
    }
    assert(s.skip(n as int) =~= Seq::<char>::empty());
    assert(done =~= split_ws(s));
    args
}

/// The word of a sequence whose first `k` characters are not whitespace and
/// whose next one is (or which ends there) has length `k`.
pub proof fn lemma_word_len_at(t: Seq<char>, k: nat)
    requires
        k <= t.len(),
        forall|i: int| 0 <= i < k ==> !is_ws(#[trigger] t[i]),
        k == t.len() || is_ws(t[k as int]),
    ensures
        word_len(t) == k,
    decreases k,
{
    if k > 0 {
        assert forall|i: int| 0 <= i < k - 1 implies !is_ws(#[trigger] t.drop_first()[i]) by {
            assert(t.drop_first()[i] == t[i + 1]);
        }
        lemma_word_len_at(t.drop_first(), (k - 1) as nat);
    }
}

/// The first `=` of a sequence is found at the first position that holds one.
proof fn lemma_eq_pos_at(t: Seq<char>, k: nat)
    requires
        k < t.len(),
        t[k as int] == '=',
        forall|i: int| 0 <= i < k ==> #[trigger] t[i] != '=',
    ensures
        eq_pos(t) == Some(k),
    decreases k,
{
    if k > 0 {
        assert forall|i: int| 0 <= i < k - 1 implies #[trigger] t.drop_first()[i] != '=' by {
            assert(t.drop_first()[i] == t[i + 1]);
        }
        lemma_eq_pos_at(t.drop_first(), (k - 1) as nat);
    }
}

/// A sequence without `=` has no first `=`.
proof fn lemma_eq_pos_none(t: Seq<char>)
    requires
        forall|i: int| 0 <= i < t.len() ==> #[trigger] t[i] != '=',
    ensures
        eq_pos(t) is None,
    decreases t.len(),
{
    if t.len() > 0 {
        assert forall|i: int| 0 <= i < t.len() - 1 implies #[trigger] t.drop_first()[i] != '=' by {
            assert(t.drop_first()[i] == t[i + 1]);
        }
        lemma_eq_pos_none(t.drop_first());
    }
}

} // verus!
