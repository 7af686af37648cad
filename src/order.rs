use vstd::prelude::*;
use vstd::std_specs::iter::IteratorSpec;

verus! {

broadcast use {vstd::string::axiom_spec_iter, vstd::string::next_postcondition};

/// Strict lexicographic order on character sequences, by code point.
///
/// This is the order of Rust's `String` comparison: UTF-8 keeps the order of
/// code points, so byte order and code point order agree.
pub open spec fn lex_lt(a: Seq<char>, b: Seq<char>) -> bool
    decreases a.len(),
{
    if a.len() == 0 {
        b.len() > 0
    } else if b.len() == 0 {
        false
    } else if a[0] != b[0] {
        a[0] < b[0]
    } else {
        lex_lt(a.drop_first(), b.drop_first())
    }
}

/// The characters of a string, in order.
pub fn chars_of(s: &str) -> (r: Vec<char>)
    ensures
        r@ == s@,
{
    let mut out: Vec<char> = Vec::new();
    let mut it = s.chars();
    let ghost all = s@;
    proof {
        assert(all.skip(0) == all);
    }
    loop
        invariant
            it.remaining() == all.skip(out@.len() as int),
            out@ == all.take(out@.len() as int),
            out@.len() <= all.len(),
        ensures
            out@ == all,
        decreases all.len() - out@.len(),
    {
        match it.next() {
            Some(c) => {
                out.push(c);
            },
            None => {
                proof {
                    assert(all.take(all.len() as int) == all);
                }
                break;
            },
        }
    }
    out
}

/// Whether `a` comes strictly before `b` in identifier order.
pub fn id_less(a: &str, b: &str) -> (r: bool)
    ensures
        r == lex_lt(a@, b@),
{
    let x = chars_of(a);
    let y = chars_of(b);
    let mut i: usize = 0;
    proof {
        assert(x@.skip(0) == x@);
        assert(y@.skip(0) == y@);
    }
    while i < x.len() && i < y.len() && x[i] == y[i]
        invariant
            i <= x@.len(),
            i <= y@.len(),
            x@.take(i as int) == y@.take(i as int),
            lex_lt(x@, y@) == lex_lt(x@.skip(i as int), y@.skip(i as int)),
        decreases x@.len() - i,
    {
        proof {
            assert(x@.skip(i as int).drop_first() == x@.skip(i + 1));
            assert(y@.skip(i as int).drop_first() == y@.skip(i + 1));
        }
        i = i + 1;
    }
    if i == x.len() {
        i < y.len()
    } else if i == y.len() {
        false
    } else {
        x[i] < y[i]
    }
}

/// The character sequences of a list of strings.
pub open spec fn names(v: Seq<String>) -> Seq<Seq<char>> {
    v.map_values(|s: String| s@)
}

/// Every element comes strictly before each later one: ascending, no repeats.
pub open spec fn strictly_sorted(s: Seq<Seq<char>>) -> bool {
    forall|i: int, j: int| 0 <= i < j < s.len() ==> lex_lt(#[trigger] s[i], #[trigger] s[j])
}

/// `s` with `x` put in its place in ascending order; `s` itself if `x` is there already.
pub open spec fn insert_ordered(s: Seq<Seq<char>>, x: Seq<char>) -> Seq<Seq<char>>
    decreases s.len(),
{
    if s.len() == 0 {
        seq![x]
    } else if s[0] == x {
        s
    } else if lex_lt(x, s[0]) {
        seq![x] + s
    } else {
        seq![s[0]] + insert_ordered(s.drop_first(), x)
    }
}

/// The distinct members of `s`, in ascending order.
pub open spec fn ordered_set(s: Seq<Seq<char>>) -> Seq<Seq<char>>
    decreases s.len(),
{
    if s.len() == 0 {
        Seq::empty()
    } else {
        insert_ordered(ordered_set(s.drop_last()), s.last())
    }
}

/// The members of `on_disk` whose presence in `ledger` is `in_ledger`, distinct and ascending.
pub open spec fn select_ordered(
    on_disk: Seq<Seq<char>>,
    ledger: Seq<Seq<char>>,
    in_ledger: bool,
) -> Seq<Seq<char>> {
    ordered_set(on_disk.filter(|n: Seq<char>| ledger.contains(n) == in_ledger))
}

/// The migrations on disk that the ledger does not hold, in the order they are applied.
pub open spec fn outstanding(on_disk: Seq<Seq<char>>, ledger: Seq<Seq<char>>) -> Seq<Seq<char>> {
    select_ordered(on_disk, ledger, false)
}

/// The migrations on disk that the ledger holds, in the order they are reverted.
pub open spec fn rollback_candidates(on_disk: Seq<Seq<char>>, ledger: Seq<Seq<char>>) -> Seq<
    Seq<char>,
> {
    select_ordered(on_disk, ledger, true)
}

pub proof fn lemma_lex_irreflexive(a: Seq<char>)
    ensures
        !lex_lt(a, a),
    decreases a.len(),
{
    if a.len() > 0 {
        lemma_lex_irreflexive(a.drop_first());
    }
}

pub proof fn lemma_lex_asymmetric(a: Seq<char>, b: Seq<char>)
    ensures
        lex_lt(a, b) ==> !lex_lt(b, a),
    decreases a.len(),
{
    if a.len() > 0 && b.len() > 0 && a[0] == b[0] {
        lemma_lex_asymmetric(a.drop_first(), b.drop_first());
    }
}

pub proof fn lemma_lex_transitive(a: Seq<char>, b: Seq<char>, c: Seq<char>)
    ensures
        lex_lt(a, b) && lex_lt(b, c) ==> lex_lt(a, c),
    decreases a.len(),
{
    if a.len() > 0 && b.len() > 0 && c.len() > 0 {
        lemma_lex_transitive(a.drop_first(), b.drop_first(), c.drop_first());
    }
}

pub proof fn lemma_lex_total(a: Seq<char>, b: Seq<char>)
    ensures
        a != b ==> lex_lt(a, b) || lex_lt(b, a),
    decreases a.len(),
{
    if a.len() > 0 && b.len() > 0 && a[0] == b[0] {
        lemma_lex_total(a.drop_first(), b.drop_first());
        if a.drop_first() == b.drop_first() {
            assert(a =~= seq![a[0]] + a.drop_first());
            assert(b =~= seq![b[0]] + b.drop_first());
        }
    } else if a.len() == 0 && b.len() == 0 {
        assert(a =~= b);
    }
}

/// Inserting keeps a list ascending, and adds exactly the one member.
pub proof fn lemma_insert_ordered(s: Seq<Seq<char>>, x: Seq<char>)
    requires
        strictly_sorted(s),
    ensures
        strictly_sorted(insert_ordered(s, x)),
        forall|y: Seq<char>| #![trigger insert_ordered(s, x).contains(y)] #![trigger s.contains(y)]
            insert_ordered(s, x).contains(y) <==> (s.contains(y) || y == x),
    decreases s.len(),
{
    let r = insert_ordered(s, x);
    if s.len() == 0 {
        assert(r[0] == x);
    } else if s[0] == x {
    } else if lex_lt(x, s[0]) {
        assert forall|i: int, j: int| 0 <= i < j < r.len() implies lex_lt(r[i], r[j]) by {
            if i == 0 {
                if j > 1 {
                    lemma_lex_transitive(x, s[0], s[j - 1]);
                }
            } else {
                assert(r[i] == s[i - 1] && r[j] == s[j - 1]);
            }
        }
        assert forall|y: Seq<char>| #[trigger] r.contains(y) <==> (s.contains(y) || y == x) by {
            if s.contains(y) {
                let k = choose|k: int| 0 <= k < s.len() && s[k] == y;
                assert(r[k + 1] == y);
            }
            if y == x {
                assert(r[0] == x);
            }
        }
    } else {
        let t = s.drop_first();
        assert forall|i: int, j: int| 0 <= i < j < t.len() implies lex_lt(t[i], t[j]) by {
            assert(t[i] == s[i + 1] && t[j] == s[j + 1]);
        }
        lemma_insert_ordered(t, x);
        let u = insert_ordered(t, x);
        lemma_lex_total(x, s[0]);
        assert forall|i: int, j: int| 0 <= i < j < r.len() implies lex_lt(r[i], r[j]) by {
            if i == 0 {
                assert(u.contains(r[j]));
                if r[j] != x {
                    let k = choose|k: int| 0 <= k < t.len() && t[k] == r[j];
                    assert(s[k + 1] == r[j]);
                }
            } else {
                assert(r[i] == u[i - 1] && r[j] == u[j - 1]);
            }
        }
        assert forall|y: Seq<char>| #[trigger] r.contains(y) <==> (s.contains(y) || y == x) by {
            if r.contains(y) {
                let k = choose|k: int| 0 <= k < r.len() && r[k] == y;
                if k > 0 {
                    assert(u[k - 1] == y);
                    if t.contains(y) {
                        let m = choose|m: int| 0 <= m < t.len() && t[m] == y;
                        assert(s[m + 1] == y);
                    }
                }
            }
            if s.contains(y) {
                let k = choose|k: int| 0 <= k < s.len() && s[k] == y;
                if k == 0 {
                    assert(r[0] == y);
                } else {
                    assert(t[k - 1] == y);
                    assert(u.contains(y));
                    let m = choose|m: int| 0 <= m < u.len() && u[m] == y;
                    assert(r[m + 1] == y);
                }
            }
            if y == x {
                assert(u.contains(x));
                let m = choose|m: int| 0 <= m < u.len() && u[m] == x;
                assert(r[m + 1] == x);
            }
        }
    }
}

/// `ordered_set(s)` is ascending and holds exactly the members of `s`.
pub proof fn lemma_ordered_set(s: Seq<Seq<char>>)
    ensures
        strictly_sorted(ordered_set(s)),
        forall|y: Seq<char>| #![trigger ordered_set(s).contains(y)] #![trigger s.contains(y)] ordered_set(s).contains(y) <==> s.contains(y),
    decreases s.len(),
{
    if s.len() > 0 {
        let p = s.drop_last();
        lemma_ordered_set(p);
        lemma_insert_ordered(ordered_set(p), s.last());
        assert forall|y: Seq<char>| #[trigger] ordered_set(s).contains(y) <==> s.contains(y) by {
            if p.contains(y) {
                let k = choose|k: int| 0 <= k < p.len() && p[k] == y;
                assert(s[k] == y);
            }
            if s.contains(y) {
                let k = choose|k: int| 0 <= k < s.len() && s[k] == y;
                if k < s.len() - 1 {
                    assert(p[k] == y);
                }
            }
        }
    }
}

/// Two ascending lists with the same members are the same list.
pub proof fn lemma_sorted_unique(a: Seq<Seq<char>>, b: Seq<Seq<char>>)
    requires
        strictly_sorted(a),
        strictly_sorted(b),
        forall|y: Seq<char>| #![trigger a.contains(y)] #![trigger b.contains(y)] a.contains(y) <==> b.contains(y),
    ensures
        a == b,
    decreases a.len(),
{
    if a.len() == 0 {
        if b.len() > 0 {
            assert(b.contains(b[0]));
        }
        assert(a =~= b);
    } else {
        assert(a.contains(a[0]));
        assert(b.len() > 0);
        assert(b.contains(b[0]));
        let ka = choose|k: int| 0 <= k < b.len() && b[k] == a[0];
        let kb = choose|k: int| 0 <= k < a.len() && a[k] == b[0];
        if ka > 0 && kb > 0 {
            lemma_lex_asymmetric(a[0], b[0]);
        }
        if ka > 0 && kb == 0 {
            lemma_lex_irreflexive(b[0]);
        }
        if ka == 0 && kb > 0 {
            lemma_lex_irreflexive(a[0]);
        }
        assert(a[0] == b[0]);
        let ta = a.drop_first();
        let tb = b.drop_first();
        assert forall|y: Seq<char>| #[trigger] ta.contains(y) <==> tb.contains(y) by {
            if ta.contains(y) {
                let k = choose|k: int| 0 <= k < ta.len() && ta[k] == y;
                assert(a[k + 1] == y);
                assert(lex_lt(a[0], y));
                lemma_lex_irreflexive(y);
                assert(b.contains(y));
                let m = choose|m: int| 0 <= m < b.len() && b[m] == y;
                assert(m != 0);
                assert(tb[m - 1] == y);
            }
            if tb.contains(y) {
                let k = choose|k: int| 0 <= k < tb.len() && tb[k] == y;
                assert(b[k + 1] == y);
                assert(lex_lt(b[0], y));
                lemma_lex_irreflexive(y);
                assert(a.contains(y));
                let m = choose|m: int| 0 <= m < a.len() && a[m] == y;
                assert(m != 0);
                assert(ta[m - 1] == y);
            }
        }
        assert forall|i: int, j: int| 0 <= i < j < ta.len() implies lex_lt(ta[i], ta[j]) by {
            assert(ta[i] == a[i + 1] && ta[j] == a[j + 1]);
        }
        assert forall|i: int, j: int| 0 <= i < j < tb.len() implies lex_lt(tb[i], tb[j]) by {
            assert(tb[i] == b[i + 1] && tb[j] == b[j + 1]);
        }
        lemma_sorted_unique(ta, tb);
        assert(a =~= seq![a[0]] + ta);
        assert(b =~= seq![b[0]] + tb);
    }
}

/// Where `insert_ordered` puts `x`: after the members that come before it.
proof fn lemma_insert_at(s: Seq<Seq<char>>, x: Seq<char>, i: int)
    requires
        strictly_sorted(s),
        0 <= i <= s.len(),
        forall|j: int| 0 <= j < i ==> lex_lt(#[trigger] s[j], x),
        i == s.len() || !lex_lt(s[i], x),
    ensures
        insert_ordered(s, x) == (if i < s.len() && s[i] == x {
            s
        } else {
            s.insert(i, x)
        }),
    decreases i,
{
    if i == 0 {
        if s.len() > 0 && s[0] != x {
            lemma_lex_total(x, s[0]);
        }
        assert(s.insert(0, x) =~= seq![x] + s);
    } else {
        assert(lex_lt(s[0], x));
        lemma_lex_irreflexive(x);
        lemma_lex_asymmetric(s[0], x);
        let t = s.drop_first();
        assert forall|a: int, b: int| 0 <= a < b < t.len() implies lex_lt(t[a], t[b]) by {
            assert(t[a] == s[a + 1] && t[b] == s[b + 1]);
        }
        assert forall|j: int| 0 <= j < i - 1 implies lex_lt(#[trigger] t[j], x) by {
            assert(t[j] == s[j + 1]);
        }
        lemma_insert_at(t, x, i - 1);
        assert(s =~= seq![s[0]] + t);
        assert(s.insert(i, x) =~= seq![s[0]] + t.insert(i - 1, x));
    }
}

/// Puts `x` in its place in the ascending list `v`, unless it is there already.
pub fn insert_name(v: &mut Vec<String>, x: String)
    requires
        strictly_sorted(names(old(v)@)),
    ensures
        names(final(v)@) == insert_ordered(names(old(v)@), x@),
        strictly_sorted(names(final(v)@)),
{
    let ghost s = names(v@);
    let mut i: usize = 0;
    while i < v.len() && id_less(v[i].as_str(), x.as_str())
        invariant
            i <= v@.len(),
            s == names(v@),
            forall|j: int| 0 <= j < i ==> lex_lt(#[trigger] s[j], x@),
        decreases v@.len() - i,
    {
        i = i + 1;
    }
    proof {
        lemma_insert_at(s, x@, i as int);
        lemma_insert_ordered(s, x@);
    }
    if i < v.len() && v[i] == x {
        return;
    }
    v.insert(i, x);
    proof {
        assert(names(v@) =~= s.insert(i as int, x@));
    }
}

/// Whether `x` is among `v`.
pub fn contains_name(v: &Vec<String>, x: &String) -> (r: bool)
    ensures
        r == names(v@).contains(x@),
{
    let mut i: usize = 0;
    while i < v.len()
        invariant
            i <= v@.len(),
            forall|j: int| 0 <= j < i ==> #[trigger] v@[j]@ != x@,
        decreases v@.len() - i,
    {
        if v[i] == *x {
            proof {
                assert(names(v@)[i as int] == x@);
            }
            return true;
        }
        i = i + 1;
    }
    proof {
        if names(v@).contains(x@) {
            let k = choose|k: int| 0 <= k < names(v@).len() && names(v@)[k] == x@;
            assert(v@[k]@ == x@);
        }
    }
    false
}

/// The names of `on_disk` whose presence in `ledger` is `in_ledger`, distinct and ascending.
pub fn select_names(on_disk: &Vec<String>, ledger: &Vec<String>, in_ledger: bool) -> (r: Vec<
    String,
>)
    ensures
        names(r@) == select_ordered(names(on_disk@), names(ledger@), in_ledger),
{
    let ghost d = names(on_disk@);
    let ghost l = names(ledger@);
    let ghost keep = |n: Seq<char>| l.contains(n) == in_ledger;
    let mut r: Vec<String> = Vec::new();
    let mut k: usize = 0;
    proof {
        assert(d.take(0) =~= Seq::<Seq<char>>::empty());
        reveal(Seq::filter);
        assert(names(r@) =~= Seq::<Seq<char>>::empty());
    }
    while k < on_disk.len()
        invariant
            k <= on_disk@.len(),
            d == names(on_disk@),
            l == names(ledger@),
            keep == (|n: Seq<char>| l.contains(n) == in_ledger),
            names(r@) == ordered_set(d.take(k as int).filter(keep)),
        decreases on_disk@.len() - k,
    {
        let ghost before = d.take(k as int);
        proof {
            lemma_ordered_set(before.filter(keep));
            assert(d.take(k + 1).drop_last() =~= before);
            assert(d.take(k + 1).last() == on_disk@[k as int]@);
            reveal(Seq::filter);
        }
        let name = &on_disk[k];
        if contains_name(ledger, name) == in_ledger {
            insert_name(&mut r, name.clone());
            proof {
                assert(d.take(k + 1).filter(keep) == before.filter(keep).push(name@));
                assert(before.filter(keep).push(name@).drop_last() =~= before.filter(keep));
            }
        } else {
            proof {
                assert(d.take(k + 1).filter(keep) == before.filter(keep));
            }
        }
        k = k + 1;
    }
    proof {
        assert(d.take(on_disk@.len() as int) =~= d);
    }
    r
}

/// Computes the migrations still to apply: those on disk that the ledger lacks,
/// each once, in ascending identifier order.
pub fn outstanding_migrations(on_disk: &Vec<String>, ledger: &Vec<String>) -> (r: Vec<String>)
    ensures
        names(r@) == outstanding(names(on_disk@), names(ledger@)),
        strictly_sorted(names(r@)),
        forall|n: Seq<char>| #[trigger]
            names(r@).contains(n) <==> (names(on_disk@).contains(n) && !names(
                ledger@,
            ).contains(n)),
{
    let r = select_names(on_disk, ledger, false);
    proof {
        lemma_outstanding_is_difference(names(on_disk@), names(ledger@));
    }
    r
}

/// Computes the migrations to revert: those on disk that the ledger holds,
/// each once, in ascending identifier order.
pub fn rollback_migrations_of(on_disk: &Vec<String>, ledger: &Vec<String>) -> (r: Vec<String>)
    ensures
        names(r@) == rollback_candidates(names(on_disk@), names(ledger@)),
        strictly_sorted(names(r@)),
        forall|n: Seq<char>| #[trigger]
            names(r@).contains(n) <==> (names(on_disk@).contains(n) && names(
                ledger@,
            ).contains(n)),
{
    let r = select_names(on_disk, ledger, true);
    proof {
        lemma_candidates_are_intersection(names(on_disk@), names(ledger@));
    }
    r
}

/// The outstanding migrations are the set difference of disk and ledger, in
/// ascending order, whatever the order in which either list is given: two
/// listings with the same members give the same outstanding list.
pub proof fn lemma_outstanding_is_difference(on_disk: Seq<Seq<char>>, ledger: Seq<Seq<char>>)
    ensures
        strictly_sorted(outstanding(on_disk, ledger)),
        outstanding(on_disk, ledger).to_set() == on_disk.to_set().difference(ledger.to_set()),
        forall|n: Seq<char>| #[trigger]
            outstanding(on_disk, ledger).contains(n) <==> (on_disk.contains(n) && !ledger.contains(
                n,
            )),
{
    lemma_select_members(on_disk, ledger, false);
    assert(outstanding(on_disk, ledger).to_set() =~= on_disk.to_set().difference(ledger.to_set()));
}

/// The rollback candidates are the intersection of disk and ledger, in ascending order.
pub proof fn lemma_candidates_are_intersection(on_disk: Seq<Seq<char>>, ledger: Seq<Seq<char>>)
    ensures
        strictly_sorted(rollback_candidates(on_disk, ledger)),
        rollback_candidates(on_disk, ledger).to_set() == on_disk.to_set().intersect(
            ledger.to_set(),
        ),
        forall|n: Seq<char>| #[trigger]
            rollback_candidates(on_disk, ledger).contains(n) <==> (on_disk.contains(n)
                && ledger.contains(n)),
{
    lemma_select_members(on_disk, ledger, true);
    assert(rollback_candidates(on_disk, ledger).to_set() =~= on_disk.to_set().intersect(
        ledger.to_set(),
    ));
}

/// The outstanding list depends on the two listings only through their members:
/// neither the order of the ledger's rows nor that of the directory scan matters.
pub proof fn lemma_outstanding_order_independent(
    disk1: Seq<Seq<char>>,
    ledger1: Seq<Seq<char>>,
    disk2: Seq<Seq<char>>,
    ledger2: Seq<Seq<char>>,
)
    requires
        disk1.to_set() == disk2.to_set(),
        ledger1.to_set() == ledger2.to_set(),
    ensures
        outstanding(disk1, ledger1) == outstanding(disk2, ledger2),
{
    lemma_outstanding_is_difference(disk1, ledger1);
    lemma_outstanding_is_difference(disk2, ledger2);
    assert forall|n: Seq<char>|
        #![trigger outstanding(disk1, ledger1).contains(n)]
        #![trigger outstanding(disk2, ledger2).contains(n)]
        outstanding(disk1, ledger1).contains(n) <==> outstanding(disk2, ledger2).contains(n) by {
        assert(disk1.to_set().contains(n) == disk1.contains(n));
        assert(disk2.to_set().contains(n) == disk2.contains(n));
        assert(ledger1.to_set().contains(n) == ledger1.contains(n));
        assert(ledger2.to_set().contains(n) == ledger2.contains(n));
    }
    lemma_sorted_unique(outstanding(disk1, ledger1), outstanding(disk2, ledger2));
}

pub proof fn lemma_select_members(on_disk: Seq<Seq<char>>, ledger: Seq<Seq<char>>, in_ledger: bool)
    ensures
        strictly_sorted(select_ordered(on_disk, ledger, in_ledger)),
        forall|n: Seq<char>| #[trigger]
            select_ordered(on_disk, ledger, in_ledger).contains(n) <==> (on_disk.contains(n)
                && ledger.contains(n) == in_ledger),
{
    let keep = |n: Seq<char>| ledger.contains(n) == in_ledger;
    let f = on_disk.filter(keep);
    lemma_ordered_set(f);
    broadcast use vstd::seq_lib::group_filter_ensures;
    assert forall|n: Seq<char>| #[trigger] f.contains(n) <==> (on_disk.contains(n) && keep(n)) by {
        if on_disk.contains(n) && keep(n) {
            let k = choose|k: int| 0 <= k < on_disk.len() && on_disk[k] == n;
            on_disk.lemma_filter_contains(keep, k);
        }
        if f.contains(n) {
            let k = choose|k: int| 0 <= k < f.len() && f[k] == n;
            assert(keep(f[k]));
            lemma_filter_within(on_disk, keep, n);
        }
    }
}

proof fn lemma_filter_within(s: Seq<Seq<char>>, pred: spec_fn(Seq<char>) -> bool, x: Seq<char>)
    ensures
        s.filter(pred).contains(x) ==> s.contains(x),
    decreases s.len(),
{
    reveal(Seq::filter);
    if s.len() > 0 {
        let p = s.drop_last();
        lemma_filter_within(p, pred, x);
        if s.filter(pred).contains(x) && x != s.last() {
            let k = choose|k: int| 0 <= k < s.filter(pred).len() && s.filter(pred)[k] == x;
            assert(p.filter(pred).contains(x)) by {
                if pred(s.last()) {
                    assert(p.filter(pred)[k] == x);
                }
            }
            let m = choose|m: int| 0 <= m < p.len() && p[m] == x;
            assert(s[m] == x);
        }
        if x == s.last() {
            assert(s[s.len() - 1] == x);
        }
    }
}

} // verus!
