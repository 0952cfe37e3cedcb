//! The order of text by code points, and lists of texts in that order.
use crate::text::chars_of;
use vstd::prelude::*;

verus! {

/// Whether `a` comes before `b`: it is a proper start of `b`, or has the smaller
/// character at the first position where the two differ.
pub open spec fn before(a: Seq<char>, b: Seq<char>) -> bool
    decreases a.len(),
{
    if b.len() == 0 {
        false
    } else if a.len() == 0 {
        true
    } else {
        a[0] < b[0] || (a[0] == b[0] && before(a.drop_first(), b.drop_first()))
    }
}

/// Whether `keys` lists texts in order, none of them twice.
pub open spec fn in_order(keys: Seq<Seq<char>>) -> bool {
    forall|i: int, j: int| 0 <= i < j < keys.len() ==> before(#[trigger] keys[i], #[trigger] keys[j])
}

/// Whether `keys` lists exactly the texts of `set`, in order.
pub open spec fn is_listing(keys: Seq<Seq<char>>, set: Set<Seq<char>>) -> bool {
    &&& in_order(keys)
    &&& forall|k: Seq<char>| #[trigger] keys.contains(k) <==> set.contains(k)
}

/// The texts of a finite set, in order.
pub open spec fn listing(set: Set<Seq<char>>) -> Seq<Seq<char>> {
    choose|keys: Seq<Seq<char>>| is_listing(keys, set)
}

/// No text comes before itself.
pub proof fn lemma_before_irreflexive(a: Seq<char>)
    ensures
        !before(a, a),
    decreases a.len(),
{
    if a.len() > 0 {
        lemma_before_irreflexive(a.drop_first());
    }
}

/// Of two different texts one comes before the other.
pub proof fn lemma_before_total(a: Seq<char>, b: Seq<char>)
    ensures
        a == b || before(a, b) || before(b, a),
    decreases a.len(),
{
    if a.len() > 0 && b.len() > 0 && a[0] == b[0] {
        lemma_before_total(a.drop_first(), b.drop_first());
        if a.drop_first() == b.drop_first() {
            assert(a =~= seq![a[0]] + a.drop_first());
            assert(b =~= seq![b[0]] + b.drop_first());
        }
    } else if a.len() == 0 && b.len() == 0 {
        assert(a =~= b);
    }
}

/// What comes before a text comes before all that follows it.
pub proof fn lemma_before_transitive(a: Seq<char>, b: Seq<char>, c: Seq<char>)
    requires
        before(a, b),
        before(b, c),
    ensures
        before(a, c),
    decreases a.len(),
{
    if a.len() > 0 && a[0] == b[0] && b[0] == c[0] {
        lemma_before_transitive(a.drop_first(), b.drop_first(), c.drop_first());
    }
}

/// Two listings of the same texts are the same.
proof fn lemma_in_order_unique(a: Seq<Seq<char>>, b: Seq<Seq<char>>)
    requires
        in_order(a),
        in_order(b),
        forall|k: Seq<char>| #[trigger] a.contains(k) <==> b.contains(k),
    ensures
        a == b,
    decreases a.len(),
{
    if a.len() == 0 {
        if b.len() > 0 {
            assert(b.contains(b[0]));
            assert(a.contains(b[0]));
        }
        assert(a =~= b);
    } else {
        assert(a.contains(a[0]));
        assert(b.contains(a[0]));
        let j = choose|j: int| 0 <= j < b.len() && b[j] == a[0];
        assert(b.contains(b[0]));
        assert(a.contains(b[0]));
        let i = choose|i: int| 0 <= i < a.len() && a[i] == b[0];
        if i > 0 && j > 0 {
            lemma_before_transitive(a[0], b[0], a[0]);
            lemma_before_irreflexive(a[0]);
        }
        assert(a[0] == b[0]);
        let a2 = a.drop_first();
        let b2 = b.drop_first();
        assert forall|k: Seq<char>| #[trigger] a2.contains(k) <==> b2.contains(k) by {
            lemma_before_irreflexive(a[0]);
            if a2.contains(k) {
                let m = choose|m: int| 0 <= m < a2.len() && a2[m] == k;
                assert(a[m + 1] == k);
                assert(a.contains(k));
                assert(b.contains(k));
                let n = choose|n: int| 0 <= n < b.len() && b[n] == k;
                assert(before(a[0], a[m + 1]));
                assert(n > 0);
                assert(b2[n - 1] == k);
            }
            if b2.contains(k) {
                let m = choose|m: int| 0 <= m < b2.len() && b2[m] == k;
                assert(b[m + 1] == k);
                assert(b.contains(k));
                assert(a.contains(k));
                let n = choose|n: int| 0 <= n < a.len() && a[n] == k;
                assert(before(b[0], b[m + 1]));
                assert(n > 0);
                assert(a2[n - 1] == k);
            }
        }
        lemma_in_order_unique(a2, b2);
        assert(a =~= seq![a[0]] + a2);
        assert(b =~= seq![b[0]] + b2);
    }
}

/// A list that is in order and holds exactly the texts of `set` is its listing.
pub proof fn lemma_listing_is(keys: Seq<Seq<char>>, set: Set<Seq<char>>)
    requires
        is_listing(keys, set),
    ensures
        listing(set) == keys,
{
    let l = listing(set);
    assert(is_listing(l, set));
    assert forall|k: Seq<char>| #[trigger] l.contains(k) <==> keys.contains(k) by {
        assert(l.contains(k) <==> set.contains(k));
        assert(keys.contains(k) <==> set.contains(k));
    }
    lemma_in_order_unique(l, keys);
}

/// Every finite set of texts has a listing.
pub proof fn lemma_listing(set: Set<Seq<char>>)
    requires
        set.finite(),
    ensures
        is_listing(listing(set), set),
    decreases set.len(),
{
    if set.len() == 0 {
        let keys = Seq::<Seq<char>>::empty();
        assert forall|k: Seq<char>| #[trigger] keys.contains(k) <==> set.contains(k) by {
            assert(!set.contains(k));
        }
        assert(is_listing(keys, set));
    } else {
        let x = set.choose();
        lemma_listing(set.remove(x));
        let rest = listing(set.remove(x));
        let n = lemma_place(rest, x);
        let keys = rest.take(n) + seq![x] + rest.skip(n);
        assert forall|i: int, j: int| 0 <= i < j < keys.len() implies before(
            #[trigger] keys[i],
            #[trigger] keys[j],
        ) by {
            if i < n && j > n {
                assert(before(rest[i], rest[j - 1]));
            } else if i > n {
                assert(before(rest[i - 1], rest[j - 1]));
            }
        }
        assert forall|k: Seq<char>| #[trigger] keys.contains(k) <==> set.contains(k) by {
            assert(rest.contains(k) <==> set.remove(x).contains(k));
            if keys.contains(k) {
                let m = choose|m: int| 0 <= m < keys.len() && keys[m] == k;
                if m < n {
                    assert(rest[m] == k);
                } else if m > n {
                    assert(rest[m - 1] == k);
                }
            }
            if set.contains(k) {
                if k == x {
                    assert(keys[n] == k);
                } else {
                    let m = choose|m: int| 0 <= m < rest.len() && rest[m] == k;
                    if m < n {
                        assert(keys[m] == k);
                    } else {
                        assert(keys[m + 1] == k);
                    }
                }
            }
        }
        assert(is_listing(keys, set));
    }
}

/// The place of a new text in an ordered list.
proof fn lemma_place(keys: Seq<Seq<char>>, x: Seq<char>) -> (n: int)
    requires
        in_order(keys),
        !keys.contains(x),
    ensures
        0 <= n <= keys.len(),
        forall|i: int| 0 <= i < n ==> before(#[trigger] keys[i], x),
        forall|i: int| n <= i < keys.len() ==> before(x, #[trigger] keys[i]),
    decreases keys.len(),
{
    if keys.len() == 0 {
        0
    } else {
        let last = keys.last();
        assert(keys[keys.len() - 1] == last);
        lemma_before_total(last, x);
        if before(last, x) {
            assert forall|i: int| 0 <= i < keys.len() implies before(#[trigger] keys[i], x) by {
                if i < keys.len() - 1 {
                    lemma_before_transitive(keys[i], last, x);
                }
            }
            keys.len() as int
        } else {
            let rest = keys.drop_last();
            assert forall|i: int, j: int| 0 <= i < j < rest.len() implies before(
                #[trigger] rest[i],
                #[trigger] rest[j],
            ) by {
                assert(before(keys[i], keys[j]));
            }
            assert(!rest.contains(x)) by {
                if rest.contains(x) {
                    let m = choose|m: int| 0 <= m < rest.len() && rest[m] == x;
                    assert(keys[m] == x);
                }
            }
            let n = lemma_place(rest, x);
            assert forall|i: int| 0 <= i < n implies before(#[trigger] keys[i], x) by {
                assert(keys[i] == rest[i]);
            }
            assert forall|i: int| n <= i < keys.len() implies before(x, #[trigger] keys[i]) by {
                if i < keys.len() - 1 {
                    assert(keys[i] == rest[i]);
                }
            }
            n
        }
    }
}

/// Whether `a` comes before `b`.
pub fn comes_before(a: &str, b: &str) -> (r: bool)
    ensures
        r == before(a@, b@),
{
    let x = chars_of(a);
    let y = chars_of(b);
    let mut i: usize = 0;
    assert(x@.skip(0) =~= x@);
    assert(y@.skip(0) =~= y@);
    while i < x.len() && i < y.len() && x[i] == y[i]
        invariant
            i <= x@.len(),
            i <= y@.len(),
            x@ == a@,
            y@ == b@,
            before(a@, b@) == before(x@.skip(i as int), y@.skip(i as int)),
        decreases x@.len() - i,
    {
        assert(x@.skip(i as int).drop_first() =~= x@.skip(i + 1));
        assert(y@.skip(i as int).drop_first() =~= y@.skip(i + 1));
        i += 1;
    }
    if i == y.len() {
        false
    } else if i == x.len() {
        true
    } else {
        x[i] < y[i]
    }
}

/// The texts behind the positions `perm` of `keys`.
pub open spec fn picked(keys: Seq<Seq<char>>, perm: Seq<usize>) -> Seq<Seq<char>> {
    Seq::new(perm.len(), |i: int| keys[perm[i] as int])
}

/// Whether `perm` holds exactly the positions from `lo` up to `hi`.
pub open spec fn covers(perm: Seq<usize>, lo: int, hi: int) -> bool {
    forall|p: usize| #[trigger] perm.contains(p) <==> lo <= p < hi
}

/// Whether no text stands twice in `keys`.
pub open spec fn distinct(keys: Seq<Seq<char>>) -> bool {
    forall|i: int, j: int| 0 <= i < j < keys.len() ==> #[trigger] keys[i] != #[trigger] keys[j]
}

/// The views of strings, one for one.
pub open spec fn views(keys: Seq<String>) -> Seq<Seq<char>> {
    Seq::new(keys.len(), |i: int| keys[i]@)
}

fn merge(
    keys: &Vec<String>,
    a: &Vec<usize>,
    b: &Vec<usize>,
    Ghost(lo): Ghost<int>,
    Ghost(mid): Ghost<int>,
    Ghost(hi): Ghost<int>,
) -> (r: Vec<usize>)
    requires
        0 <= lo <= mid <= hi <= keys@.len(),
        distinct(views(keys@)),
        covers(a@, lo, mid),
        covers(b@, mid, hi),
        in_order(picked(views(keys@), a@)),
        in_order(picked(views(keys@), b@)),
    ensures
        covers(r@, lo, hi),
        in_order(picked(views(keys@), r@)),
{
    let ghost ks = views(keys@);
    let mut out: Vec<usize> = Vec::new();
    let mut i: usize = 0;
    let mut j: usize = 0;
    while i < a.len() || j < b.len()
        invariant
            0 <= lo <= mid <= hi <= keys@.len(),
            ks == views(keys@),
            distinct(ks),
            covers(a@, lo, mid),
            covers(b@, mid, hi),
            in_order(picked(ks, a@)),
            in_order(picked(ks, b@)),
            i <= a@.len(),
            j <= b@.len(),
            out@.len() == i + j,
            in_order(picked(ks, out@)),
            forall|m: int, n: int|
                0 <= m < out@.len() && i <= n < a@.len() ==> before(
                    ks[#[trigger] out@[m] as int],
                    ks[#[trigger] a@[n] as int],
                ),
            forall|m: int, n: int|
                0 <= m < out@.len() && j <= n < b@.len() ==> before(
                    ks[#[trigger] out@[m] as int],
                    ks[#[trigger] b@[n] as int],
                ),
            forall|p: usize| #[trigger]
                out@.contains(p) <==> a@.take(i as int).contains(p) || b@.take(j as int).contains(
                    p,
                ),
        decreases a@.len() - i + b@.len() - j,
    {
        let ghost old_out = out@;
        let mut left = j == b.len();
        if i < a.len() && j < b.len() {
            assert(a@.contains(a@[i as int]));
            assert(b@.contains(b@[j as int]));
            left = comes_before(keys[a[i]].as_str(), keys[b[j]].as_str());
            proof {
                assert(ks[a@[i as int] as int] != ks[b@[j as int] as int]);
                lemma_before_total(ks[a@[i as int] as int], ks[b@[j as int] as int]);
            }
        }
        if left {
            let x = a[i];
            out.push(x);
            proof {
                lemma_pushed(ks, old_out, x);
                assert forall|n: int| i + 1 <= n < a@.len() implies before(
                    ks[x as int],
                    ks[#[trigger] a@[n] as int],
                ) by {
                    assert(before(picked(ks, a@)[i as int], picked(ks, a@)[n]));
                }
                assert forall|n: int| j <= n < b@.len() implies before(
                    ks[x as int],
                    ks[#[trigger] b@[n] as int],
                ) by {
                    if n > j {
                        assert(before(picked(ks, b@)[j as int], picked(ks, b@)[n]));
                        lemma_before_transitive(
                            ks[x as int],
                            ks[b@[j as int] as int],
                            ks[b@[n] as int],
                        );
                    }
                }
                lemma_take_contains(a@, i as int);
                lemma_push_contains(old_out, x);
            }
            i += 1;
        } else {
            let x = b[j];
            out.push(x);
            proof {
                lemma_pushed(ks, old_out, x);
                assert forall|n: int| j + 1 <= n < b@.len() implies before(
                    ks[x as int],
                    ks[#[trigger] b@[n] as int],
                ) by {
                    assert(before(picked(ks, b@)[j as int], picked(ks, b@)[n]));
                }
                assert forall|n: int| i <= n < a@.len() implies before(
                    ks[x as int],
                    ks[#[trigger] a@[n] as int],
                ) by {
                    if n > i {
                        assert(before(picked(ks, a@)[i as int], picked(ks, a@)[n]));
                        lemma_before_transitive(
                            ks[x as int],
                            ks[a@[i as int] as int],
                            ks[a@[n] as int],
                        );
                    }
                }
                lemma_take_contains(b@, j as int);
                lemma_push_contains(old_out, x);
            }
            j += 1;
        }
    }
    proof {
        assert(a@.take(i as int) =~= a@);
        assert(b@.take(j as int) =~= b@);
        assert forall|p: usize| #[trigger] out@.contains(p) <==> lo <= p < hi by {
            assert(a@.contains(p) <==> lo <= p < mid);
            assert(b@.contains(p) <==> mid <= p < hi);
        }
    }
    out
}

proof fn lemma_pushed(ks: Seq<Seq<char>>, out: Seq<usize>, x: usize)
    requires
        in_order(picked(ks, out)),
        forall|m: int| 0 <= m < out.len() ==> before(ks[#[trigger] out[m] as int], ks[x as int]),
    ensures
        in_order(picked(ks, out.push(x))),
{
    let now = picked(ks, out.push(x));
    assert forall|i: int, j: int| 0 <= i < j < now.len() implies before(
        #[trigger] now[i],
        #[trigger] now[j],
    ) by {
        if j < out.len() {
            assert(before(picked(ks, out)[i], picked(ks, out)[j]));
        } else {
            assert(before(ks[out[i] as int], ks[x as int]));
        }
    }
}

proof fn lemma_take_contains(a: Seq<usize>, i: int)
    requires
        0 <= i < a.len(),
    ensures
        forall|p: usize| #[trigger]
            a.take(i + 1).contains(p) <==> a.take(i).contains(p) || p == a[i],
{
    assert(a.take(i + 1) =~= a.take(i).push(a[i]));
    lemma_push_contains(a.take(i), a[i]);
}

proof fn lemma_push_contains(a: Seq<usize>, x: usize)
    ensures
        forall|p: usize| #[trigger] a.push(x).contains(p) <==> a.contains(p) || p == x,
{
    assert forall|p: usize| #[trigger] a.push(x).contains(p) <==> a.contains(p) || p == x by {
        if a.contains(p) {
            let m = choose|m: int| 0 <= m < a.len() && a[m] == p;
            assert(a.push(x)[m] == p);
        }
        if p == x {
            assert(a.push(x)[a.len() as int] == p);
        }
        if a.push(x).contains(p) {
            let m = choose|m: int| 0 <= m < a.push(x).len() && a.push(x)[m] == p;
            if m < a.len() {
                assert(a[m] == p);
            }
        }
    }
}

/// The positions of `keys` from `lo` up to `hi`, in the order of what they hold.
pub fn sorted_positions(keys: &Vec<String>, lo: usize, hi: usize) -> (r: Vec<usize>)
    requires
        lo <= hi <= keys@.len(),
        distinct(views(keys@)),
    ensures
        covers(r@, lo as int, hi as int),
        in_order(picked(views(keys@), r@)),
    decreases hi - lo,
{
    if lo == hi {
        let r: Vec<usize> = Vec::new();
        r
    } else if hi - lo == 1 {
        let mut r: Vec<usize> = Vec::new();
        r.push(lo);
        assert(r@[0] == lo);
        r
    } else {
        let mid: usize = lo + (hi - lo) / 2;
        let a = sorted_positions(keys, lo, mid);
        let b = sorted_positions(keys, mid, hi);
        merge(keys, &a, &b, Ghost(lo as int), Ghost(mid as int), Ghost(hi as int))
    }
}

/// Of two texts the one comes first that is a proper start of the other, or that
/// has the smaller code point where they first differ.
pub proof fn law_before(a: Seq<char>, b: Seq<char>, k: int)
    requires
        0 <= k <= a.len(),
        k <= b.len(),
        forall|i: int| 0 <= i < k ==> a[i] == b[i],
    ensures
        k == a.len() ==> (before(a, b) <==> k < b.len()),
        k < a.len() && k == b.len() ==> !before(a, b),
        k < a.len() && k < b.len() && a[k] != b[k] ==> (before(a, b) <==> (a[k] as int)
            < b[k] as int),
    decreases k,
{
    if k > 0 {
        let (x, y) = (a.drop_first(), b.drop_first());
        assert(a[0] == b[0]);
        assert forall|i: int| 0 <= i < k - 1 implies x[i] == y[i] by {
            assert(a[i + 1] == b[i + 1]);
        }
        law_before(x, y, k - 1);
    }
}

} // verus!
