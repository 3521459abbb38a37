//! What holds between writing and reading the `.env` file.
use vstd::prelude::*;

use crate::env_file::{
    appended_lines, key_of, key_seen, kept_lines, kv, kv_line, lemma_managed_keys, lookup,
    managed_index, managed_keys, render_line, render_text, rendered_lines, values_in,
};
use crate::text::{
    find_from, join_lines, lemma_next_newline_is, lines, matches_at, next_newline, strip_cr, trim, trim_end, trim_start, is_ws,
};

verus! {

/// A value that survives a write and a read: it holds no line break and does
/// not end in a carriage return.
pub open spec fn storable(v: Seq<char>) -> bool {
    &&& single_line(v)
    &&& !(v.len() > 0 && v.last() == '\r')
}

/// A value without a line feed.
pub open spec fn single_line(v: Seq<char>) -> bool {
    forall|k: int| 0 <= k < v.len() ==> v[k] != '\n'
}

/// A line that is not one of the managed keys.
pub open spec fn is_other_line(l: Seq<char>) -> bool {
    match key_of(l) {
        Some(k) => managed_index(k) < 0,
        None => true,
    }
}

/// The lines of `ls` that are not managed keys, in order.
pub open spec fn other_lines(ls: Seq<Seq<char>>) -> Seq<Seq<char>>
    decreases ls.len(),
{
    if ls.len() == 0 {
        seq![]
    } else if is_other_line(ls.last()) {
        other_lines(ls.drop_last()).push(ls.last())
    } else {
        other_lines(ls.drop_last())
    }
}

// ---------------------------------------------------------------------------
// Lines and joining
// ---------------------------------------------------------------------------

proof fn lemma_lines_no_newline(s: Seq<char>)
    ensures
        forall|j: int, k: int|
            0 <= j < lines(s).len() && 0 <= k < lines(s)[j].len() ==> lines(s)[j][k] != '\n',
    decreases s.len(),
{
    if s.len() > 0 {
        crate::text::lemma_next_newline_bounds(s, 0);
        let i = next_newline(s, 0);
        if i < s.len() {
            let rest = s.subrange(i + 1, s.len() as int);
            lemma_lines_no_newline(rest);
            let first = strip_cr(s.subrange(0, i));
            assert forall|j: int, k: int|
                0 <= j < lines(s).len() && 0 <= k < lines(s)[j].len() implies lines(s)[j][k]
                != '\n' by {
                if j == 0 {
                    assert(lines(s)[0] == first);
                    assert(first[k] == s[k]);
                } else {
                    assert(lines(s)[j] == lines(rest)[j - 1]);
                }
            }
        }
    }
}

/// Splitting a joined text again gives back its lines, less one trailing
/// carriage return each.
proof fn lemma_lines_of_join(ls: Seq<Seq<char>>)
    requires
        ls.len() >= 1,
        forall|j: int, k: int| 0 <= j < ls.len() && 0 <= k < ls[j].len() ==> ls[j][k] != '\n',
    ensures
        lines(join_lines(ls).push('\n')) == ls.map_values(|l: Seq<char>| strip_cr(l)),
    decreases ls.len(),
{
    let s = join_lines(ls).push('\n');
    let n = ls[0].len() as int;
    if ls.len() == 1 {
        assert(s =~= ls[0].push('\n'));
        assert(forall|k: int| 0 <= k < n ==> s[k] == ls[0][k]);
        lemma_next_newline_is(s, 0, n);
        assert(s.subrange(0, n) =~= ls[0]);
        assert(s.subrange(n + 1, s.len() as int) =~= Seq::<char>::empty());
        assert(lines(s.subrange(n + 1, s.len() as int)) =~= Seq::<Seq<char>>::empty());
        assert(lines(s) == seq![strip_cr(s.subrange(0, n))] + lines(
            s.subrange(n + 1, s.len() as int),
        ));
        assert(lines(s) =~= seq![strip_cr(ls[0])]);
        assert(lines(s) =~= ls.map_values(|l: Seq<char>| strip_cr(l)));
    } else {
        let rest = ls.drop_first();
        let t = join_lines(rest).push('\n');
        assert(s =~= ls[0] + seq!['\n'] + t);
        assert(forall|k: int| 0 <= k < n ==> s[k] == ls[0][k]);
        lemma_next_newline_is(s, 0, n);
        assert(s.subrange(0, n) =~= ls[0]);
        assert(s.subrange(n + 1, s.len() as int) =~= t);
        lemma_lines_of_join(rest);
        assert(lines(s) == seq![strip_cr(ls[0])] + lines(t));
        assert(lines(s) =~= ls.map_values(|l: Seq<char>| strip_cr(l)));
    }
}

/// A joined text is at least as long as each of its lines.
proof fn lemma_join_len(ls: Seq<Seq<char>>, j: int)
    requires
        0 <= j < ls.len(),
    ensures
        join_lines(ls).len() >= ls[j].len(),
    decreases ls.len(),
{
    if ls.len() > 1 && j > 0 {
        lemma_join_len(ls.drop_first(), j - 1);
    }
}

// ---------------------------------------------------------------------------
// Keys of lines
// ---------------------------------------------------------------------------

proof fn lemma_trim_start_drop_last(s: Seq<char>)
    requires
        s.len() > 0,
        is_ws(s.last()),
    ensures
        (trim_start(s).len() == 0) == (trim_start(s.drop_last()).len() == 0),
        trim_start(s).len() > 0 ==> trim_start(s)[0] == trim_start(s.drop_last())[0],
    decreases s.len(),
{
    if s.len() == 1 {
        assert(trim_start(s) == trim_start(s.drop_first()));
        assert(s.drop_first().len() == 0);
        assert(s.drop_last().len() == 0);
    } else if is_ws(s[0]) {
        assert(s.drop_last().drop_first() =~= s.drop_first().drop_last());
        assert(s.drop_last()[0] == s[0]);
        lemma_trim_start_drop_last(s.drop_first());
    } else {
        assert(s.drop_last()[0] == s[0]);
    }
}

proof fn lemma_find_eq_drop_last(s: Seq<char>, i: int)
    requires
        s.len() > 0,
        s.last() != '=',
        0 <= i,
    ensures
        find_from(s.drop_last(), seq!['='], i) == find_from(s, seq!['='], i),
    decreases s.len() + 1 - i,
{
    let p = seq!['='];
    let d = s.drop_last();
    if i + 1 > d.len() {
        if i + 1 <= s.len() {
            if matches_at(s, p, i) {
                assert(s.subrange(i, i + 1)[0] == s[i]);
                assert(p[0] == '=');
            }
            assert(find_from(s, p, i + 1) is None);
        }
    } else {
        assert(s.subrange(i, i + 1) =~= d.subrange(i, i + 1));
        lemma_find_eq_drop_last(s, i + 1);
    }
}

/// Dropping a trailing carriage return never changes the key of a line.
proof fn lemma_key_of_strip_cr(l: Seq<char>)
    ensures
        key_of(strip_cr(l)) == key_of(l),
{
    if l.len() > 0 && l.last() == '\r' {
        let d = l.drop_last();
        assert(is_ws(l.last()));
        lemma_trim_start_drop_last(l);
        lemma_find_eq_drop_last(l, 0);
        crate::text::lemma_find_from(d, seq!['='], 0);
        match find_from(l, seq!['='], 0) {
            Some(i) => {
                assert(d.subrange(0, i) =~= l.subrange(0, i));
            },
            None => {},
        }
    }
}

proof fn lemma_find_first_eq(s: Seq<char>, i: int, e: int)
    requires
        0 <= i <= e < s.len(),
        forall|m: int| i <= m < e ==> s[m] != '=',
        s[e] == '=',
    ensures
        find_from(s, seq!['='], i) == Some(e),
    decreases e - i,
{
    if i == e {
        assert(s.subrange(i, i + 1) =~= seq!['=']);
    } else {
        if matches_at(s, seq!['='], i) {
            assert(s.subrange(i, i + 1)[0] == s[i]);
        }
        lemma_find_first_eq(s, i + 1, e);
    }
}

proof fn lemma_trim_plain(k: Seq<char>)
    requires
        k.len() > 0,
        forall|j: int| 0 <= j < k.len() ==> !is_ws(k[j]),
    ensures
        trim(k) == k,
{
    assert(trim_start(k) == k);
    assert(trim_end(k) == k);
}

/// A line written for a managed key reads back as that key and value.
proof fn lemma_kv_of_kv_line(m: int, v: Seq<char>)
    requires
        0 <= m < 4,
    ensures
        kv(kv_line(managed_keys()[m], v)) == Some((managed_keys()[m], v)),
        key_of(kv_line(managed_keys()[m], v)) == Some(managed_keys()[m]),
        strip_cr(kv_line(managed_keys()[m], v)) == kv_line(managed_keys()[m], v) || (v.len() > 0
            && v.last() == '\r'),
        kv_line(managed_keys()[m], v).len() > 0,
        forall|k: int|
            0 <= k < kv_line(managed_keys()[m], v).len() && kv_line(managed_keys()[m], v)[k]
                == '\n' ==> managed_keys()[m].len() + 1 <= k && v[k - managed_keys()[m].len()
                - 1] == '\n',
{
    lemma_managed_keys();
    let key = managed_keys()[m];
    let l = kv_line(key, v);
    let n = key.len() as int;
    assert(forall|j: int| 0 <= j < n ==> l[j] == key[j]);
    assert(l[n] == '=');
    assert(forall|j: int| 0 <= j < n ==> #[trigger] key[j] != '=' && !is_ws(key[j]));
    assert(!is_ws(l[0]));
    assert(trim_start(l) == l);
    lemma_find_first_eq(l, 0, n);
    assert(l.subrange(0, n) =~= key);
    assert(l.subrange(n + 1, l.len() as int) =~= v);
    lemma_trim_plain(key);
    if v.len() == 0 {
        assert(l.last() == '=');
    } else {
        assert(l.last() == v.last());
    }
}

// ---------------------------------------------------------------------------
// Lookup
// ---------------------------------------------------------------------------

proof fn lemma_lookup_found(xs: Seq<Seq<char>>, key: Seq<char>, v: Seq<char>)
    requires
        exists|j: int| 0 <= j < xs.len() && key_of(xs[j]) == Some(key),
        forall|j: int| 0 <= j < xs.len() && key_of(xs[j]) == Some(key) ==> kv(xs[j]) == Some((key, v)),
    ensures
        lookup(xs, key) == Some(v),
    decreases xs.len(),
{
    let l = xs.last();
    if key_of(l) == Some(key) {
        assert(kv(xs[xs.len() - 1]) == Some((key, v)));
    } else {
        let j0 = choose|j: int| 0 <= j < xs.len() && key_of(xs[j]) == Some(key);
        let d = xs.drop_last();
        assert(j0 < xs.len() - 1);
        assert(d[j0] == xs[j0]);
        assert forall|j: int| 0 <= j < d.len() && key_of(d[j]) == Some(key) implies kv(d[j]) == Some((key, v)) by {
            assert(d[j] == xs[j]);
        }
        lemma_lookup_found(d, key, v);
    }
}

proof fn lemma_lookup_absent(xs: Seq<Seq<char>>, key: Seq<char>)
    requires
        forall|j: int| 0 <= j < xs.len() ==> key_of(xs[j]) != Some(key),
    ensures
        lookup(xs, key) is None,
    decreases xs.len(),
{
    if xs.len() > 0 {
        let d = xs.drop_last();
        assert(key_of(xs[xs.len() - 1]) != Some(key));
        assert forall|j: int| 0 <= j < d.len() implies key_of(d[j]) != Some(key) by {
            assert(d[j] == xs[j]);
        }
        lemma_lookup_absent(d, key);
    }
}

// ---------------------------------------------------------------------------
// What the rendered lines are made of
// ---------------------------------------------------------------------------

/// A line that carries managed key `m` is `key=value` with the new value.
pub open spec fn shaped(xs: Seq<Seq<char>>, vals: Seq<Option<Seq<char>>>) -> bool {
    forall|j: int, m: int|
        0 <= j < xs.len() && 0 <= m < 4 && #[trigger] key_of(xs[j]) == Some(#[trigger] managed_keys()[m])
            ==> vals[m] is Some && xs[j] == kv_line(managed_keys()[m], vals[m]->0)
}

proof fn lemma_kept_lines(ls: Seq<Seq<char>>, vals: Seq<Option<Seq<char>>>)
    requires
        vals.len() == 4,
    ensures
        shaped(kept_lines(ls, vals), vals),
        forall|m: int|
            0 <= m < 4 && key_seen(ls, managed_keys()[m]) && vals[m] is Some ==> exists|j: int|
                0 <= j < kept_lines(ls, vals).len() && key_of(kept_lines(ls, vals)[j]) == Some(
                    managed_keys()[m],
                ),
        forall|m: int|
            0 <= m < 4 && !key_seen(ls, managed_keys()[m]) ==> forall|j: int|
                0 <= j < kept_lines(ls, vals).len() ==> key_of(kept_lines(ls, vals)[j]) != Some(
                    managed_keys()[m],
                ),
        forall|j: int|
            0 <= j < kept_lines(ls, vals).len() && is_other_line(kept_lines(ls, vals)[j]) ==> exists|i: int|
                0 <= i < ls.len() && ls[i] == kept_lines(ls, vals)[j],
        other_lines(kept_lines(ls, vals)) == other_lines(ls),
        (forall|j: int, k: int| 0 <= j < ls.len() && 0 <= k < ls[j].len() ==> ls[j][k] != '\n')
            && (forall|m: int| 0 <= m < 4 && vals[m] is Some ==> single_line(vals[m]->0)) ==> forall|
            j: int,
            k: int,
        |
            0 <= j < kept_lines(ls, vals).len() && 0 <= k < kept_lines(ls, vals)[j].len()
                ==> kept_lines(ls, vals)[j][k] != '\n',
    decreases ls.len(),
{
    lemma_managed_keys();
    if ls.len() > 0 {
        let d = ls.drop_last();
        let l = ls.last();
        let rest = kept_lines(d, vals);
        lemma_kept_lines(d, vals);
        let out = kept_lines(ls, vals);
        assert(forall|i: int| 0 <= i < d.len() ==> d[i] == ls[i]);
        // keys seen in ls are those seen in d or the key of the last line
        assert forall|m: int| 0 <= m < 4 implies #[trigger] key_seen(ls, managed_keys()[m]) == (
        key_seen(d, managed_keys()[m]) || key_of(l) == Some(managed_keys()[m])) by {
            let k = managed_keys()[m];
            if key_seen(ls, k) {
                let j = choose|j: int| 0 <= j < ls.len() && key_of(ls[j]) == Some(k);
                if j < d.len() {
                    assert(d[j] == ls[j]);
                }
            }
            if key_seen(d, k) {
                let j = choose|j: int| 0 <= j < d.len() && key_of(d[j]) == Some(k);
                assert(ls[j] == d[j]);
            }
            if key_of(l) == Some(k) {
                assert(ls[ls.len() - 1] == l);
            }
        }
        match key_of(l) {
            Some(k) => {
                if managed_index(k) >= 0 {
                    let q = managed_index(k);
                    assert(k == managed_keys()[q]);
                    match vals[q] {
                        Some(v) => {
                            lemma_kv_of_kv_line(q, v);
                            assert(out == rest.push(kv_line(k, v)));
                            assert(out.drop_last() =~= rest);
                            assert(!is_other_line(kv_line(k, v)));
                            assert(other_lines(out) == other_lines(rest));
                            assert(!is_other_line(l));
                            assert(other_lines(ls) == other_lines(d));
                            assert(out[rest.len() as int] == kv_line(k, v));
                            assert forall|m: int| 0 <= m < 4 && key_seen(ls, managed_keys()[m]) && vals[m] is Some implies exists|j: int|
                                0 <= j < out.len() && key_of(out[j]) == Some(managed_keys()[m]) by {
                                if key_seen(d, managed_keys()[m]) {
                                    let j = choose|j: int| 0 <= j < rest.len() && key_of(rest[j]) == Some(managed_keys()[m]);
                                    assert(out[j] == rest[j]);
                                } else {
                                    assert(managed_keys()[m] == k);
                                    assert(key_of(out[rest.len() as int]) == Some(managed_keys()[m]));
                                }
                            }
                            assert(forall|j: int| 0 <= j < rest.len() ==> out[j] == rest[j]);
                        },
                        None => {
                            assert(out == rest);
                            assert(!is_other_line(l));
                            assert(other_lines(ls) == other_lines(d));
                        },
                    }
                } else {
                    assert(out == rest.push(l));
                assert(out.drop_last() =~= rest);
                    assert(out.drop_last() =~= rest);
                    assert(is_other_line(l));
                    assert(other_lines(ls) == other_lines(d).push(l));
                    assert(other_lines(out) == other_lines(rest).push(l));
                    assert(forall|j: int| 0 <= j < rest.len() ==> out[j] == rest[j]);
                    assert(out[rest.len() as int] == l);
                    assert(ls[ls.len() - 1] == l);
                }
            },
            None => {
                assert(out == rest.push(l));
                assert(out.drop_last() =~= rest);
                assert(is_other_line(l));
                assert(other_lines(ls) == other_lines(d).push(l));
                assert(other_lines(out) == other_lines(rest).push(l));
                assert(forall|j: int| 0 <= j < rest.len() ==> out[j] == rest[j]);
                assert(out[rest.len() as int] == l);
                assert(ls[ls.len() - 1] == l);
            },
        }
    }
}

proof fn lemma_appended_lines(ls: Seq<Seq<char>>, vals: Seq<Option<Seq<char>>>, n: int)
    requires
        vals.len() == 4,
        0 <= n <= 4,
    ensures
        shaped(appended_lines(ls, vals, n), vals),
        forall|m: int|
            0 <= m < n && !key_seen(ls, managed_keys()[m]) && vals[m] is Some ==> exists|j: int|
                0 <= j < appended_lines(ls, vals, n).len() && key_of(appended_lines(ls, vals, n)[j])
                    == Some(managed_keys()[m]),
        forall|m: int|
            0 <= m < 4 && (key_seen(ls, managed_keys()[m]) || m >= n) ==> forall|j: int|
                0 <= j < appended_lines(ls, vals, n).len() ==> key_of(appended_lines(ls, vals, n)[j])
                    != Some(managed_keys()[m]),
        other_lines(appended_lines(ls, vals, n)) == Seq::<Seq<char>>::empty(),
        forall|j: int|
            0 <= j < appended_lines(ls, vals, n).len() ==> !is_other_line(
                #[trigger] appended_lines(ls, vals, n)[j],
            ),
        (forall|m: int| 0 <= m < 4 && vals[m] is Some ==> single_line(vals[m]->0)) ==> forall|
            j: int,
            k: int,
        |
            0 <= j < appended_lines(ls, vals, n).len() && 0 <= k < appended_lines(
                ls,
                vals,
                n,
            )[j].len() ==> appended_lines(ls, vals, n)[j][k] != '\n',
    decreases n,
{
    lemma_managed_keys();
    if n > 0 {
        lemma_appended_lines(ls, vals, n - 1);
        let before = appended_lines(ls, vals, n - 1);
        let out = appended_lines(ls, vals, n);
        let k = managed_keys()[n - 1];
        if !key_seen(ls, k) && vals[n - 1] is Some {
            let v = vals[n - 1]->0;
            lemma_kv_of_kv_line(n - 1, v);
            assert(out == before.push(kv_line(k, v)));
            assert(out.drop_last() =~= before);
            assert(forall|j: int| 0 <= j < before.len() ==> out[j] == before[j]);
            assert(out[before.len() as int] == kv_line(k, v));
            assert(!is_other_line(kv_line(k, v)));
            assert(other_lines(out) == other_lines(before));
        }
    }
}

proof fn lemma_other_concat(a: Seq<Seq<char>>, b: Seq<Seq<char>>)
    ensures
        other_lines(a + b) == other_lines(a) + other_lines(b),
    decreases b.len(),
{
    if b.len() == 0 {
        assert(a + b =~= a);
        assert(other_lines(a) + other_lines(b) =~= other_lines(a));
    } else {
        assert((a + b).drop_last() =~= a + b.drop_last());
        assert((a + b).last() == b.last());
        lemma_other_concat(a, b.drop_last());
        if is_other_line(b.last()) {
            assert(other_lines(a + b) =~= other_lines(a) + other_lines(b));
        } else {
            assert(other_lines(a + b) =~= other_lines(a) + other_lines(b));
        }
    }
}

proof fn lemma_other_strip_cr(xs: Seq<Seq<char>>)
    ensures
        other_lines(xs.map_values(|l: Seq<char>| strip_cr(l))) == other_lines(xs).map_values(
            |l: Seq<char>| strip_cr(l),
        ),
    decreases xs.len(),
{
    let f = |l: Seq<char>| strip_cr(l);
    if xs.len() == 0 {
        assert(xs.map_values(f) =~= Seq::<Seq<char>>::empty());
        assert(other_lines(xs).map_values(f) =~= Seq::<Seq<char>>::empty());
    } else {
        let d = xs.drop_last();
        assert(xs.map_values(f).drop_last() =~= d.map_values(f));
        assert(xs.map_values(f).last() == strip_cr(xs.last()));
        lemma_other_strip_cr(d);
        lemma_key_of_strip_cr(xs.last());
        if is_other_line(xs.last()) {
            assert(other_lines(xs).map_values(f) =~= other_lines(d).map_values(f).push(
                strip_cr(xs.last()),
            ));
        } else {
            assert(other_lines(xs).map_values(f) =~= other_lines(d).map_values(f));
        }
    }
}

/// Facts about the rendered lines used by both laws.
proof fn lemma_rendered(ls: Seq<Seq<char>>, vals: Seq<Option<Seq<char>>>)
    requires
        vals.len() == 4,
    ensures
        shaped(rendered_lines(ls, vals), vals),
        forall|m: int|
            0 <= m < 4 && vals[m] is Some ==> exists|j: int|
                0 <= j < rendered_lines(ls, vals).len() && key_of(rendered_lines(ls, vals)[j])
                    == Some(managed_keys()[m]),
        other_lines(rendered_lines(ls, vals)) == other_lines(ls),
        forall|j: int|
            0 <= j < rendered_lines(ls, vals).len() && is_other_line(
                #[trigger] rendered_lines(ls, vals)[j],
            ) ==> exists|i: int| 0 <= i < ls.len() && ls[i] == rendered_lines(ls, vals)[j],
        (forall|j: int, k: int| 0 <= j < ls.len() && 0 <= k < ls[j].len() ==> ls[j][k] != '\n')
            && (forall|m: int| 0 <= m < 4 && vals[m] is Some ==> single_line(vals[m]->0)) ==> forall|
            j: int,
            k: int,
        |
            0 <= j < rendered_lines(ls, vals).len() && 0 <= k < rendered_lines(ls, vals)[j].len()
                ==> rendered_lines(ls, vals)[j][k] != '\n',
{
    let a = kept_lines(ls, vals);
    let b = appended_lines(ls, vals, 4);
    let r = rendered_lines(ls, vals);
    lemma_kept_lines(ls, vals);
    lemma_appended_lines(ls, vals, 4);
    assert(r == a + b);
    assert(forall|j: int| 0 <= j < a.len() ==> r[j] == a[j]);
    assert(forall|j: int| 0 <= j < b.len() ==> r[a.len() + j] == b[j]);
    assert forall|j: int, m: int|
        0 <= j < r.len() && 0 <= m < 4 && #[trigger] key_of(r[j]) == Some(#[trigger] managed_keys()[m])
            implies vals[m] is Some && r[j] == kv_line(managed_keys()[m], vals[m]->0) by {
        if j < a.len() {
            assert(r[j] == a[j]);
        } else {
            assert(r[j] == b[j - a.len()]);
        }
    }
    assert forall|m: int| 0 <= m < 4 && vals[m] is Some implies exists|j: int|
        0 <= j < r.len() && key_of(r[j]) == Some(managed_keys()[m]) by {
        if key_seen(ls, managed_keys()[m]) {
            let j = choose|j: int| 0 <= j < a.len() && key_of(a[j]) == Some(managed_keys()[m]);
            assert(r[j] == a[j]);
        } else {
            let j = choose|j: int| 0 <= j < b.len() && key_of(b[j]) == Some(managed_keys()[m]);
            assert(r[a.len() + j] == b[j]);
        }
    }
    assert forall|j: int| 0 <= j < r.len() && is_other_line(#[trigger] r[j]) implies exists|i: int|
        0 <= i < ls.len() && ls[i] == r[j] by {
        if j < a.len() {
            assert(r[j] == a[j]);
        } else {
            assert(r[j] == b[j - a.len()]);
        }
    }
    lemma_other_concat(a, b);
    assert(other_lines(a) + other_lines(b) =~= other_lines(ls));
}

// ---------------------------------------------------------------------------
// The laws
// ---------------------------------------------------------------------------

/// Reading a `.env` file back after writing managed values into it gives
/// exactly those values, whatever the file held before, as long as no value
/// holds a line break or ends in a carriage return.
pub proof fn law_write_then_read(existing: Seq<char>, vals: Seq<Option<Seq<char>>>)
    requires
        vals.len() == 4,
        forall|m: int| 0 <= m < 4 && vals[m] is Some ==> storable(vals[m]->0),
    ensures
        values_in(render_text(existing, vals)) == vals,
{
    lemma_managed_keys();
    let ls = lines(existing);
    let r = rendered_lines(ls, vals);
    let text = render_text(existing, vals);
    lemma_lines_no_newline(existing);
    lemma_rendered(ls, vals);
    let j = join_lines(r);
    if j.len() == 0 {
        assert forall|m: int| 0 <= m < 4 implies vals[m] is None by {
            if vals[m] is Some {
                let i = choose|i: int| 0 <= i < r.len() && key_of(r[i]) == Some(managed_keys()[m]);
                lemma_join_len(r, i);
                lemma_kv_of_kv_line(m, vals[m]->0);
            }
        }
        assert(lines(text) =~= Seq::<Seq<char>>::empty());
        assert(values_in(text) =~= vals);
    } else {
        assert(r.len() >= 1);
        lemma_lines_of_join(r);
        let f = |l: Seq<char>| strip_cr(l);
        let back = r.map_values(f);
        assert(lines(text) == back);
        assert forall|m: int| 0 <= m < 4 implies #[trigger] lookup(back, managed_keys()[m]) == vals[m] by {
            let key = managed_keys()[m];
            assert forall|i: int| 0 <= i < back.len() implies key_of(back[i]) == key_of(r[i]) by {
                lemma_key_of_strip_cr(r[i]);
            }
            if vals[m] is Some {
                let v = vals[m]->0;
                lemma_kv_of_kv_line(m, v);
                let i0 = choose|i: int| 0 <= i < r.len() && key_of(r[i]) == Some(key);
                assert(key_of(back[i0]) == Some(key));
                assert forall|i: int| 0 <= i < back.len() && key_of(back[i]) == Some(key) implies kv(back[i]) == Some((key, v)) by {
                    assert(key_of(r[i]) == Some(key));
                    assert(r[i] == kv_line(key, v));
                    assert(back[i] == strip_cr(r[i]));
                }
                lemma_lookup_found(back, key, v);
            } else {
                assert forall|i: int| 0 <= i < back.len() implies key_of(back[i]) != Some(key) by {
                    if key_of(r[i]) == Some(key) {
                        assert(vals[m] is Some);
                    }
                }
                lemma_lookup_absent(back, key);
            }
        }
        assert(values_in(text) =~= vals);
    }
}

/// Writing managed values keeps every other line of the file (comments,
/// blank lines, keys not managed here), in order; one trailing carriage
/// return of such a line is the only thing that may go. Values must not hold
/// a line feed (it would start a new line), and the case where nothing but a
/// single empty line would be written is left out: the file is then empty.
pub proof fn law_write_keeps_other_lines(existing: Seq<char>, vals: Seq<Option<Seq<char>>>)
    requires
        vals.len() == 4,
        forall|m: int| 0 <= m < 4 && vals[m] is Some ==> single_line(vals[m]->0),
        render_text(existing, vals).len() > 0 || other_lines(lines(existing)).len() == 0,
    ensures
        other_lines(lines(render_text(existing, vals))) == other_lines(lines(existing)).map_values(
            |l: Seq<char>| strip_cr(l),
        ),
{
    let ls = lines(existing);
    let r = rendered_lines(ls, vals);
    let text = render_text(existing, vals);
    lemma_rendered(ls, vals);
    let j = join_lines(r);
    if j.len() == 0 {
        assert(lines(text) =~= Seq::<Seq<char>>::empty());
        assert(other_lines(lines(text)) =~= Seq::<Seq<char>>::empty());
        assert(other_lines(ls).map_values(|l: Seq<char>| strip_cr(l)) =~= Seq::<Seq<char>>::empty());
    } else {
        assert(r.len() >= 1);
        lemma_lines_no_newline(existing);
        lemma_lines_of_join(r);
        lemma_other_strip_cr(r);
    }
}

/// No `=` at or after `i` means none is found there.
proof fn lemma_find_no_eq(s: Seq<char>, i: int)
    requires
        0 <= i <= s.len(),
        forall|m: int| i <= m < s.len() ==> s[m] != '=',
    ensures
        find_from(s, seq!['='], i) is None,
    decreases s.len() - i,
{
    if i < s.len() {
        if matches_at(s, seq!['='], i) {
            assert(s.subrange(i, i + 1)[0] == s[i]);
        }
        lemma_find_no_eq(s, i + 1);
    }
}

/// A line that is not blank, not a comment and holds an `=` gives a key and a
/// value: the key is the text before the first `=`, trimmed, and the value is
/// all of the text after it, as it stands (further `=` and spaces included).
pub proof fn law_kv_splits_at_first_equals(line: Seq<char>, i: int)
    requires
        trim_start(line).len() > 0,
        trim_start(line)[0] != '#',
        0 <= i < line.len(),
        line[i] == '=',
        forall|j: int| 0 <= j < i ==> line[j] != '=',
    ensures
        kv(line) == Some((trim(line.take(i)), line.skip(i + 1))),
{
    lemma_find_first_eq(line, 0, i);
    assert(line.subrange(0, i) =~= line.take(i));
    assert(line.subrange(i + 1, line.len() as int) =~= line.skip(i + 1));
}

/// A line gives no key exactly when it is blank, is a comment (its first
/// non-blank character is `#`), or holds no `=`.
pub proof fn law_kv_none(line: Seq<char>)
    ensures
        kv(line) is None <==> (trim_start(line).len() == 0 || trim_start(line)[0] == '#'
            || forall|j: int| 0 <= j < line.len() ==> line[j] != '='),
{
    if trim_start(line).len() > 0 && trim_start(line)[0] != '#' {
        if exists|j: int| 0 <= j < line.len() && line[j] == '=' {
            let e = choose|j: int| 0 <= j < line.len() && line[j] == '=';
            let f = first_eq(line, e);
            law_kv_splits_at_first_equals(line, f);
        } else {
            lemma_find_no_eq(line, 0);
        }
    }
}

/// The first `=` of `s`, given one at `e`.
proof fn first_eq(s: Seq<char>, e: int) -> (f: int)
    requires
        0 <= e < s.len(),
        s[e] == '=',
    ensures
        0 <= f <= e,
        s[f] == '=',
        forall|j: int| 0 <= j < f ==> s[j] != '=',
    decreases e,
{
    if exists|j: int| 0 <= j < e && s[j] == '=' {
        let k = choose|j: int| 0 <= j < e && s[j] == '=';
        first_eq(s, k)
    } else {
        e
    }
}

/// Lines that each render to themselves are kept as they are.
proof fn lemma_kept_identity(xs: Seq<Seq<char>>, vals: Seq<Option<Seq<char>>>)
    requires
        forall|i: int| 0 <= i < xs.len() ==> render_line(#[trigger] xs[i], vals) == Some(xs[i]),
    ensures
        kept_lines(xs, vals) == xs,
    decreases xs.len(),
{
    if xs.len() == 0 {
        assert(xs =~= Seq::<Seq<char>>::empty());
    } else {
        let d = xs.drop_last();
        assert forall|i: int| 0 <= i < d.len() implies render_line(#[trigger] d[i], vals) == Some(d[i]) by {
            assert(d[i] == xs[i]);
        }
        lemma_kept_identity(d, vals);
        assert(xs.last() == xs[xs.len() - 1]);
        assert(d.push(xs.last()) =~= xs);
    }
}

/// Nothing is appended when every key with a value already has a line.
proof fn lemma_appended_empty(ls: Seq<Seq<char>>, vals: Seq<Option<Seq<char>>>, n: int)
    requires
        0 <= n <= 4,
        forall|m: int| 0 <= m < n ==> key_seen(ls, #[trigger] managed_keys()[m]) || vals[m] is None,
    ensures
        appended_lines(ls, vals, n) == Seq::<Seq<char>>::empty(),
    decreases n,
{
    if n > 0 {
        assert(key_seen(ls, managed_keys()[n - 1]) || vals[n - 1] is None);
        lemma_appended_empty(ls, vals, n - 1);
    }
}

/// Writing the same values a second time leaves the text as the first write
/// made it, as long as no value holds a line break or ends in a carriage
/// return, and no line the file keeps ends in a carriage return (one that
/// `str::lines` left, from a line ending in two of them or a last line
/// ending in one).
pub proof fn law_write_twice_is_write_once(existing: Seq<char>, vals: Seq<Option<Seq<char>>>)
    requires
        vals.len() == 4,
        forall|m: int| 0 <= m < 4 && vals[m] is Some ==> storable(vals[m]->0),
        forall|j: int|
            0 <= j < lines(existing).len() && is_other_line(#[trigger] lines(existing)[j]) ==> !(
            lines(existing)[j].len() > 0 && lines(existing)[j].last() == '\r'),
    ensures
        render_text(render_text(existing, vals), vals) == render_text(existing, vals),
{
    lemma_managed_keys();
    let ls = lines(existing);
    let r = rendered_lines(ls, vals);
    let t1 = render_text(existing, vals);
    lemma_lines_no_newline(existing);
    lemma_rendered(ls, vals);
    let j = join_lines(r);
    if j.len() == 0 {
        assert forall|m: int| 0 <= m < 4 implies vals[m] is None by {
            if vals[m] is Some {
                let i = choose|i: int| 0 <= i < r.len() && key_of(r[i]) == Some(managed_keys()[m]);
                lemma_join_len(r, i);
                lemma_kv_of_kv_line(m, vals[m]->0);
            }
        }
        assert(lines(t1) =~= Seq::<Seq<char>>::empty());
        lemma_kept_identity(lines(t1), vals);
        lemma_appended_empty(lines(t1), vals, 4);
        assert(rendered_lines(lines(t1), vals) =~= Seq::<Seq<char>>::empty());
    } else {
        assert(r.len() >= 1);
        lemma_lines_of_join(r);
        let back = r.map_values(|l: Seq<char>| strip_cr(l));
        assert(lines(t1) == back);
        assert forall|i: int| 0 <= i < r.len() implies render_line(#[trigger] r[i], vals) == Some(r[i])
            && strip_cr(r[i]) == r[i] by {
            if is_other_line(r[i]) {
                let i0 = choose|i0: int| 0 <= i0 < ls.len() && ls[i0] == r[i];
                assert(is_other_line(ls[i0]));
            } else {
                let k = key_of(r[i])->0;
                let m = managed_index(k);
                assert(k == managed_keys()[m]);
                assert(key_of(r[i]) == Some(managed_keys()[m]));
                let v = vals[m]->0;
                lemma_kv_of_kv_line(m, v);
            }
        }
        assert(back =~= r);
        lemma_kept_identity(r, vals);
        assert forall|m: int| 0 <= m < 4 implies key_seen(r, #[trigger] managed_keys()[m])
            || vals[m] is None by {
            if vals[m] is Some {
                let i = choose|i: int| 0 <= i < r.len() && key_of(r[i]) == Some(managed_keys()[m]);
                assert(key_of(r[i]) == Some(managed_keys()[m]));
            }
        }
        lemma_appended_empty(r, vals, 4);
        assert(rendered_lines(r, vals) =~= r);
    }
}

} // verus!
