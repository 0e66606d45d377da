//! Code-point lexicographic order on text (the order of `String`'s `Ord`),
//! sorted de-duplicated name lists, and joining.

use vstd::prelude::*;
use crate::text::{chars_of, string_of};

verus! {

/// `a` and `b` agree before position `k`, and `a` is smaller at `k`: either
/// `a` ends there while `b` goes on, or `a`'s character is the smaller one.
pub open spec fn lex_lt_at(a: Seq<char>, b: Seq<char>, k: int) -> bool {
    &&& 0 <= k <= a.len()
    &&& k <= b.len()
    &&& forall|j: int| 0 <= j < k ==> a[j] == b[j]
    &&& ((k == a.len() && k < b.len()) || (k < a.len() && k < b.len() && a[k] < b[k]))
}

/// `a` comes strictly before `b` in code-point lexicographic order.
pub open spec fn lex_lt(a: Seq<char>, b: Seq<char>) -> bool {
    exists|k: int| #[trigger] lex_lt_at(a, b, k)
}

/// The text values of a list of strings.
pub open spec fn views(v: Seq<String>) -> Seq<Seq<char>> {
    v.map_values(|s: String| s@)
}

/// Every earlier item comes strictly before every later one.
pub open spec fn strictly_sorted(s: Seq<Seq<char>>) -> bool {
    forall|i: int, j: int| 0 <= i < j < s.len() ==> lex_lt(#[trigger] s[i], #[trigger] s[j])
}

/// No text comes strictly before itself.
pub proof fn lemma_lex_irreflexive(a: Seq<char>)
    ensures
        !lex_lt(a, a),
{
}

proof fn lemma_lex_total_from(a: Seq<char>, b: Seq<char>, i: int)
    requires
        0 <= i <= a.len(),
        i <= b.len(),
        forall|j: int| 0 <= j < i ==> a[j] == b[j],
    ensures
        a == b || lex_lt(a, b) || lex_lt(b, a),
    decreases a.len() - i,
{
    if i == a.len() || i == b.len() {
        if a.len() == b.len() {
            assert(a =~= b);
        } else if a.len() < b.len() {
            assert(lex_lt_at(a, b, i));
        } else {
            assert(lex_lt_at(b, a, i));
        }
    } else if a[i] != b[i] {
        if a[i] < b[i] {
            assert(lex_lt_at(a, b, i));
        } else {
            assert(lex_lt_at(b, a, i));
        }
    } else {
        lemma_lex_total_from(a, b, i + 1);
    }
}

/// Two different texts are ordered one way or the other.
pub proof fn lemma_lex_total(a: Seq<char>, b: Seq<char>)
    requires
        a != b,
    ensures
        lex_lt(a, b) || lex_lt(b, a),
{
    lemma_lex_total_from(a, b, 0);
}

/// No two texts come strictly before each other.
pub proof fn lemma_lex_asymmetric(a: Seq<char>, b: Seq<char>)
    requires
        lex_lt(a, b),
    ensures
        !lex_lt(b, a),
{
    let k = choose|k: int| lex_lt_at(a, b, k);
    if lex_lt(b, a) {
        let m = choose|m: int| lex_lt_at(b, a, m);
        if m < k {
            assert(a[m] == b[m]);
        } else if k < m {
            assert(a[k] == b[k]);
        }
    }
}

/// The order is transitive.
pub proof fn lemma_lex_transitive(a: Seq<char>, b: Seq<char>, c: Seq<char>)
    requires
        lex_lt(a, b),
        lex_lt(b, c),
    ensures
        lex_lt(a, c),
{
    let k = choose|k: int| lex_lt_at(a, b, k);
    let m = choose|m: int| lex_lt_at(b, c, m);
    if k < m {
        assert(lex_lt_at(a, c, k));
    } else if m < k {
        assert(lex_lt_at(a, c, m));
    } else {
        assert(lex_lt_at(a, c, k));
    }
}


/// Whether `a` comes strictly before `b`.
pub fn lex_less(a: &Vec<char>, b: &Vec<char>) -> (r: bool)
    ensures
        r == lex_lt(a@, b@),
{
    let mut i: usize = 0;
    while i < a.len() && i < b.len() && a[i] == b[i]
        invariant
            i <= a.len(),
            i <= b.len(),
            forall|j: int| 0 <= j < i ==> a@[j] == b@[j],
        decreases a.len() - i,
    {
        i = i + 1;
    }
    if i < a.len() && i < b.len() {
        if a[i] < b[i] {
            assert(lex_lt_at(a@, b@, i as int));
            true
        } else {
            assert(lex_lt_at(b@, a@, i as int));
            proof {
                lemma_lex_asymmetric(b@, a@);
            }
            false
        }
    } else if i == a.len() && i < b.len() {
        assert(lex_lt_at(a@, b@, i as int));
        true
    } else {
        proof {
            if lex_lt(a@, b@) {
                let k = choose|k: int| lex_lt_at(a@, b@, k);
                assert(k < i ==> a@[k] == b@[k]);
            }
        }
        false
    }
}

/// Whether string `a` comes strictly before string `b`.
pub fn string_less(a: &String, b: &String) -> (r: bool)
    ensures
        r == lex_lt(a@, b@),
{
    let ca = chars_of(a.as_str());
    let cb = chars_of(b.as_str());
    lex_less(&ca, &cb)
}

/// Strictly sorted sequences holding the same texts are equal.
pub proof fn lemma_sorted_unique_determined(a: Seq<Seq<char>>, b: Seq<Seq<char>>)
    requires
        strictly_sorted(a),
        strictly_sorted(b),
        forall|x: Seq<char>| a.contains(x) <==> b.contains(x),
    ensures
        a == b,
    decreases a.len(),
{
    if a.len() == 0 {
        if b.len() > 0 {
            assert(b.contains(b[0]));
        }
        assert(a =~= b);
    } else {
        assert(a.contains(a[0]));
        assert(b.len() > 0);
        assert(b.contains(b[0]));
        if a[0] != b[0] {
            let i = choose|i: int| 0 <= i < a.len() && a[i] == b[0];
            let j = choose|j: int| 0 <= j < b.len() && b[j] == a[0];
            assert(i > 0);
            assert(j > 0);
            assert(lex_lt(a[0], a[i]));
            assert(lex_lt(b[0], b[j]));
            lemma_lex_asymmetric(a[0], b[0]);
        }
        let a1 = a.drop_first();
        let b1 = b.drop_first();
        assert forall|x: Seq<char>| a1.contains(x) <==> b1.contains(x) by {
            if a1.contains(x) {
                let i = choose|i: int| 0 <= i < a1.len() && a1[i] == x;
                assert(lex_lt(a[0], a[i + 1]));
                lemma_lex_irreflexive(x);
                assert(b.contains(x));
                let j = choose|j: int| 0 <= j < b.len() && b[j] == x;
                assert(j != 0);
                assert(b1[j - 1] == x);
            }
            if b1.contains(x) {
                let j = choose|j: int| 0 <= j < b1.len() && b1[j] == x;
                assert(lex_lt(b[0], b[j + 1]));
                lemma_lex_irreflexive(x);
                assert(a.contains(x));
                let i = choose|i: int| 0 <= i < a.len() && a[i] == x;
                assert(i != 0);
                assert(a1[i - 1] == x);
            }
        }
        lemma_sorted_unique_determined(a1, b1);
        assert(a =~= seq![a[0]] + a1);
        assert(b =~= seq![b[0]] + b1);
    }
}

proof fn lemma_contains_push(s: Seq<Seq<char>>, v: Seq<char>, x: Seq<char>)
    ensures
        s.push(v).contains(x) <==> (s.contains(x) || x == v),
{
    let t = s.push(v);
    if s.contains(x) {
        let k = choose|k: int| 0 <= k < s.len() && s[k] == x;
        assert(t[k] == x);
    }
    if x == v {
        assert(t[s.len() as int] == x);
    }
    if t.contains(x) {
        let k = choose|k: int| 0 <= k < t.len() && t[k] == x;
        if k < s.len() {
            assert(s[k] == x);
        }
    }
}

proof fn lemma_contains_insert(s: Seq<Seq<char>>, p: int, v: Seq<char>, x: Seq<char>)
    requires
        0 <= p <= s.len(),
    ensures
        (s.take(p).push(v) + s.skip(p)).contains(x) <==> (s.contains(x) || x == v),
{
    let t = s.take(p).push(v) + s.skip(p);
    if s.contains(x) {
        let k = choose|k: int| 0 <= k < s.len() && s[k] == x;
        if k < p {
            assert(t[k] == x);
        } else {
            assert(t[k + 1] == x);
        }
    }
    if x == v {
        assert(t[p] == x);
    }
    if t.contains(x) {
        let k = choose|k: int| 0 <= k < t.len() && t[k] == x;
        if k < p {
            assert(s[k] == x);
        } else if k > p {
            assert(s[k - 1] == x);
        }
    }
}

/// `s` lists the distinct texts of `items` in ascending order.
pub open spec fn lists_sorted_distinct(s: Seq<Seq<char>>, items: Seq<Seq<char>>) -> bool {
    strictly_sorted(s) && forall|x: Seq<char>| #[trigger] s.contains(x) <==> items.contains(x)
}

/// The distinct texts of `items` in ascending order.
pub open spec fn sorted_distinct(items: Seq<Seq<char>>) -> Seq<Seq<char>> {
    choose|s: Seq<Seq<char>>| lists_sorted_distinct(s, items)
}

/// `s` with `x` put in its place, unless `s` already holds it.
pub open spec fn insert_sorted(s: Seq<Seq<char>>, x: Seq<char>) -> Seq<Seq<char>>
    decreases s.len(),
{
    if s.len() == 0 {
        seq![x]
    } else if s[0] == x {
        s
    } else if lex_lt(x, s[0]) {
        seq![x] + s
    } else {
        seq![s[0]] + insert_sorted(s.drop_first(), x)
    }
}

proof fn lemma_insert_sorted(s: Seq<Seq<char>>, x: Seq<char>)
    requires
        strictly_sorted(s),
    ensures
        strictly_sorted(insert_sorted(s, x)),
        forall|y: Seq<char>| #[trigger] insert_sorted(s, x).contains(y) <==> (s.contains(y) || y
            == x),
        insert_sorted(s, x).len() > 0 ==> (insert_sorted(s, x)[0] == x || (s.len() > 0
            && insert_sorted(s, x)[0] == s[0])),
    decreases s.len(),
{
    let t = insert_sorted(s, x);
    if s.len() == 0 {
        assert forall|y: Seq<char>| #[trigger] t.contains(y) <==> (s.contains(y) || y == x) by {
            if t.contains(y) {
                assert(t[0] == y);
            }
            if y == x {
                assert(t[0] == y);
            }
        }
    } else if s[0] == x {
        assert forall|y: Seq<char>| #[trigger] t.contains(y) <==> (s.contains(y) || y == x) by {
            if y == x {
                assert(s[0] == y);
            }
        }
    } else if lex_lt(x, s[0]) {
        assert forall|i: int, j: int| 0 <= i < j < t.len() implies lex_lt(
            #[trigger] t[i],
            #[trigger] t[j],
        ) by {
            if i == 0 {
                if j > 1 {
                    assert(lex_lt(s[0], s[j - 1]));
                    lemma_lex_transitive(x, s[0], s[j - 1]);
                }
            } else {
                assert(lex_lt(s[i - 1], s[j - 1]));
            }
        }
        assert forall|y: Seq<char>| #[trigger] t.contains(y) <==> (s.contains(y) || y == x) by {
            if t.contains(y) {
                let k = choose|k: int| 0 <= k < t.len() && t[k] == y;
                if k > 0 {
                    assert(s[k - 1] == y);
                }
            }
            if s.contains(y) {
                let k = choose|k: int| 0 <= k < s.len() && s[k] == y;
                assert(t[k + 1] == y);
            }
            if y == x {
                assert(t[0] == y);
            }
        }
    } else {
        lemma_lex_total(x, s[0]);
        let rest = s.drop_first();
        assert(strictly_sorted(rest)) by {
            assert forall|i: int, j: int| 0 <= i < j < rest.len() implies lex_lt(
                #[trigger] rest[i],
                #[trigger] rest[j],
            ) by {
                assert(lex_lt(s[i + 1], s[j + 1]));
            }
        }
        lemma_insert_sorted(rest, x);
        let u = insert_sorted(rest, x);
        assert(t =~= seq![s[0]] + u);
        assert forall|i: int, j: int| 0 <= i < j < t.len() implies lex_lt(
            #[trigger] t[i],
            #[trigger] t[j],
        ) by {
            if i == 0 {
                let y = u[j - 1];
                assert(u.contains(y));
                if y == x {
                } else {
                    let k = choose|k: int| 0 <= k < rest.len() && rest[k] == y;
                    assert(lex_lt(s[0], s[k + 1]));
                }
            } else {
                assert(lex_lt(u[i - 1], u[j - 1]));
            }
        }
        assert forall|y: Seq<char>| #[trigger] t.contains(y) <==> (s.contains(y) || y == x) by {
            if t.contains(y) {
                let k = choose|k: int| 0 <= k < t.len() && t[k] == y;
                if k > 0 {
                    assert(u[k - 1] == y);
                    assert(u.contains(y));
                    if y != x {
                        let m = choose|m: int| 0 <= m < rest.len() && rest[m] == y;
                        assert(s[m + 1] == y);
                    }
                } else {
                    assert(s[0] == y);
                }
            }
            if s.contains(y) {
                let k = choose|k: int| 0 <= k < s.len() && s[k] == y;
                if k == 0 {
                    assert(t[0] == y);
                } else {
                    assert(rest[k - 1] == y);
                    assert(rest.contains(y));
                    assert(u.contains(y));
                    let m = choose|m: int| 0 <= m < u.len() && u[m] == y;
                    assert(t[m + 1] == y);
                }
            }
            if y == x {
                assert(u.contains(y));
                let m = choose|m: int| 0 <= m < u.len() && u[m] == y;
                assert(t[m + 1] == y);
            }
        }
    }
}

/// The texts of `items` put in order one by one.
pub open spec fn insertion_sorted(items: Seq<Seq<char>>) -> Seq<Seq<char>>
    decreases items.len(),
{
    if items.len() == 0 {
        Seq::<Seq<char>>::empty()
    } else {
        insert_sorted(insertion_sorted(items.drop_last()), items.last())
    }
}

/// `sorted_distinct` is strictly ascending and holds exactly the texts of
/// `items`, as does putting `items` in order one by one.
pub proof fn lemma_sorted_distinct_exists(items: Seq<Seq<char>>)
    ensures
        lists_sorted_distinct(insertion_sorted(items), items),
        lists_sorted_distinct(sorted_distinct(items), items),
    decreases items.len(),
{
    if items.len() > 0 {
        lemma_sorted_distinct_exists(items.drop_last());
        let prev = insertion_sorted(items.drop_last());
        lemma_insert_sorted(prev, items.last());
        assert forall|y: Seq<char>| #[trigger] insertion_sorted(items).contains(y)
            <==> items.contains(y) by {
            lemma_contains_push(items.drop_last(), items.last(), y);
            assert(items.drop_last().push(items.last()) =~= items);
        }
    }
    assert(lists_sorted_distinct(insertion_sorted(items), items));
}

/// `sorted_distinct` depends only on which texts occur, not on their order
/// or repetition.
pub proof fn lemma_sorted_distinct_order_free(a: Seq<Seq<char>>, b: Seq<Seq<char>>)
    requires
        forall|x: Seq<char>| a.contains(x) <==> b.contains(x),
    ensures
        sorted_distinct(a) == sorted_distinct(b),
{
    lemma_sorted_distinct_exists(a);
    lemma_sorted_distinct_exists(b);
    lemma_sorted_unique_determined(sorted_distinct(a), sorted_distinct(b));
}

/// The distinct values of `names` in ascending order: what `sort` followed
/// by `dedup` leaves.
pub fn sort_dedup(names: &Vec<String>) -> (r: Vec<String>)
    ensures
        strictly_sorted(views(r@)),
        forall|x: Seq<char>| views(r@).contains(x) <==> views(names@).contains(x),
        views(r@) == sorted_distinct(views(names@)),
{
    let mut r: Vec<String> = Vec::new();
    let mut i: usize = 0;
    while i < names.len()
        invariant
            i <= names.len(),
            strictly_sorted(views(r@)),
            forall|x: Seq<char>|
                views(r@).contains(x) <==> views(names@.take(i as int)).contains(x),
        decreases names.len() - i,
    {
        let name = &names[i];
        let ghost nv = name@;
        let ghost old_r = views(r@);
        let ghost tk = views(names@.take(i as int));
        let mut p: usize = 0;
        while p < r.len() && string_less(&r[p], name)
            invariant
                i < names.len(),
                name == names@[i as int],
                nv == name@,
                old_r == views(r@),
                p <= r.len(),
                forall|k: int| 0 <= k < p ==> lex_lt(#[trigger] old_r[k], nv),
            decreases r.len() - p,
        {
            assert(old_r[p as int] == r@[p as int]@);
            p = p + 1;
        }
        assert(views(names@.take((i + 1) as int)) =~= tk.push(nv));
        if p < r.len() && r[p] == *name {
            assert(old_r[p as int] == nv);
            assert forall|x: Seq<char>|
                old_r.contains(x) <==> tk.push(nv).contains(x) by {
                lemma_contains_push(tk, nv, x);
                if x == nv {
                    assert(old_r.contains(nv));
                }
            }
        } else {
            proof {
                if p < r.len() {
                    assert(old_r[p as int] == r@[p as int]@);
                    assert(old_r[p as int] != nv);
                    lemma_lex_total(old_r[p as int], nv);
                }
            }
            r.insert(p, name.clone());
            let ghost new_r = views(r@);
            assert(new_r =~= old_r.take(p as int).push(nv) + old_r.skip(p as int));
            assert forall|a: int, b: int| 0 <= a < b < new_r.len() implies lex_lt(
                #[trigger] new_r[a],
                #[trigger] new_r[b],
            ) by {
                if b < p {
                    assert(lex_lt(old_r[a], old_r[b]));
                } else if b == p {
                    assert(lex_lt(old_r[a], nv));
                } else if a > p {
                    assert(lex_lt(old_r[a - 1], old_r[b - 1]));
                } else if a == p {
                    if b - 1 > p {
                        assert(lex_lt(old_r[p as int], old_r[b - 1]));
                        lemma_lex_transitive(nv, old_r[p as int], old_r[b - 1]);
                    }
                } else {
                    if b - 1 > p {
                        assert(lex_lt(old_r[p as int], old_r[b - 1]));
                        lemma_lex_transitive(nv, old_r[p as int], old_r[b - 1]);
                    }
                    lemma_lex_transitive(old_r[a], nv, old_r[b - 1]);
                }
            }
            assert forall|x: Seq<char>|
                new_r.contains(x) <==> tk.push(nv).contains(x) by {
                lemma_contains_push(tk, nv, x);
                lemma_contains_insert(old_r, p as int, nv, x);
            }
        }
        i = i + 1;
    }
    assert(names@.take(names.len() as int) =~= names@);
    proof {
        let w = views(r@);
        assert(lists_sorted_distinct(w, views(names@)));
        let c = sorted_distinct(views(names@));
        lemma_sorted_unique_determined(c, w);
    }
    r
}

/// The texts of `parts` with `sep` between neighbours (`join`).
pub open spec fn join(parts: Seq<Seq<char>>, sep: Seq<char>) -> Seq<char>
    decreases parts.len(),
{
    if parts.len() == 0 {
        Seq::<char>::empty()
    } else if parts.len() == 1 {
        parts[0]
    } else {
        join(parts.drop_last(), sep) + sep + parts.last()
    }
}

/// The strings of `parts` joined by `sep`.
pub fn join_strings(parts: &Vec<String>, sep: &str) -> (r: String)
    ensures
        r@ == join(views(parts@), sep@),
{
    let sepc = chars_of(sep);
    let mut out: Vec<char> = Vec::new();
    let mut i: usize = 0;
    while i < parts.len()
        invariant
            i <= parts.len(),
            sepc@ == sep@,
            out@ == join(views(parts@.take(i as int)), sep@),
        decreases parts.len() - i,
    {
        let ghost before = out@;
        if i > 0 {
            let mut k: usize = 0;
            while k < sepc.len()
                invariant
                    k <= sepc.len(),
                    out@ == before + sepc@.take(k as int),
                decreases sepc.len() - k,
            {
                out.push(sepc[k]);
                assert(sepc@.take((k + 1) as int) =~= sepc@.take(k as int).push(sepc@[k as int]));
                k = k + 1;
            }
            assert(sepc@.take(sepc.len() as int) =~= sepc@);
        }
        let ghost mid = out@;
        let part = chars_of(parts[i].as_str());
        let mut k: usize = 0;
        while k < part.len()
            invariant
                k <= part.len(),
                out@ == mid + part@.take(k as int),
            decreases part.len() - k,
        {
            out.push(part[k]);
            assert(part@.take((k + 1) as int) =~= part@.take(k as int).push(part@[k as int]));
            k = k + 1;
        }
        assert(part@.take(part.len() as int) =~= part@);
        let ghost vt = views(parts@.take((i + 1) as int));
        assert(vt.drop_last() =~= views(parts@.take(i as int)));
        if i == 0 {
            assert(out@ =~= vt[0]);
        } else {
            assert(out@ =~= join(vt.drop_last(), sep@) + sep@ + vt.last());
        }
        i = i + 1;
    }
    assert(parts@.take(parts.len() as int) =~= parts@);
    string_of(&out)
}

} // verus!
