//! Tallies of names and their ranking: most frequent first, names in
//! ascending byte order among equals.

use vstd::prelude::*;
use vstd::utf8::{encode_utf8, encode_utf8_decode_utf8};

verus! {

broadcast use vstd::seq_lib::group_to_multiset_ensures;

/// How often `name` occurs in `names`.
pub open spec fn occurrences(names: Seq<Seq<char>>, name: Seq<char>) -> nat
    decreases names.len(),
{
    if names.len() == 0 {
        0
    } else {
        occurrences(names.drop_last(), name) + if names.last() == name {
            1nat
        } else {
            0nat
        }
    }
}

pub proof fn lemma_occurrences_bound(names: Seq<Seq<char>>, name: Seq<char>)
    ensures
        occurrences(names, name) <= names.len(),
        names.contains(name) <==> occurrences(names, name) > 0,
    decreases names.len(),
{
    if names.len() > 0 {
        lemma_occurrences_bound(names.drop_last(), name);
        assert(names =~= names.drop_last().push(names.last()));
        if names.drop_last().contains(name) {
            let k = choose|k: int| 0 <= k < names.drop_last().len() && names.drop_last()[k] == name;
            assert(names[k] == name);
        }
        if names.contains(name) && names.last() != name {
            let k = choose|k: int| 0 <= k < names.len() && names[k] == name;
            assert(names.drop_last()[k] == name);
        }
    }
}

/// A name and how often it occurs.
pub struct NameCount {
    pub name: String,
    pub count: usize,
}

/// `t` holds each name of `names` once, with its number of occurrences.
pub open spec fn tally_of(t: Seq<NameCount>, names: Seq<Seq<char>>) -> bool {
    &&& forall|k: int|
        0 <= k < t.len() ==> #[trigger] t[k].count == occurrences(names, t[k].name@)
            && t[k].count > 0
    &&& forall|x: Seq<char>|
        #[trigger] names.contains(x) ==> exists|k: int| 0 <= k < t.len() && t[k].name@ == x
    &&& forall|k1: int, k2: int|
        0 <= k1 < k2 < t.len() ==> #[trigger] t[k1].name@ != #[trigger] t[k2].name@
}

pub fn add_occurrence(tally: &mut Vec<NameCount>, name: &String, Ghost(names): Ghost<Seq<Seq<char>>>)
    requires
        tally_of(old(tally)@, names),
        names.len() < usize::MAX,
    ensures
        tally_of(final(tally)@, names.push(name@)),
{
    let ghost grown = names.push(name@);
    assert(grown.drop_last() =~= names);
    proof {
        lemma_occurrences_bound(names, name@);
    }
    let mut k: usize = 0;
    while k < tally.len()
        invariant
            k <= tally@.len(),
            tally@ == old(tally)@,
            tally_of(tally@, names),
            grown == names.push(name@),
            grown.drop_last() == names,
            occurrences(names, name@) <= names.len() < usize::MAX,
            forall|j: int| 0 <= j < k ==> #[trigger] tally@[j].name@ != name@,
        decreases tally@.len() - k,
    {
        if tally[k].name == *name {
            let c = tally[k].count;
            proof {
                assert(c == occurrences(names, name@));
            }
            let entry = NameCount { name: tally[k].name.clone(), count: c + 1 };
            tally.set(k, entry);
            proof {
                assert forall|x: Seq<char>| #[trigger] grown.contains(x) implies exists|j: int|
                    0 <= j < tally@.len() && tally@[j].name@ == x by {
                    if x != name@ {
                        let i = choose|i: int| 0 <= i < grown.len() && grown[i] == x;
                        assert(i < names.len());
                        assert(names[i] == x);
                        assert(names.contains(x));
                        let j = choose|j: int|
                            0 <= j < old(tally)@.len() && old(tally)@[j].name@ == x;
                        assert(tally@[j].name@ == x);
                    } else {
                        assert(tally@[k as int].name@ == x);
                    }
                }
            }
            return;
        }
        k = k + 1;
    }
    proof {
        assert(!names.contains(name@)) by {
            if names.contains(name@) {
                let j = choose|j: int| 0 <= j < old(tally)@.len() && old(tally)@[j].name@ == name@;
                assert(tally@[j].name@ != name@);
            }
        }
    }
    tally.push(NameCount { name: name.clone(), count: 1 });
    proof {
        assert forall|x: Seq<char>| #[trigger] grown.contains(x) implies exists|j: int|
            0 <= j < tally@.len() && tally@[j].name@ == x by {
            if x != name@ {
                let i = choose|i: int| 0 <= i < grown.len() && grown[i] == x;
                assert(i < names.len());
                assert(names[i] == x);
                assert(names.contains(x));
                let j = choose|j: int| 0 <= j < old(tally)@.len() && old(tally)@[j].name@ == x;
                assert(tally@[j].name@ == x);
            } else {
                assert(tally@[tally@.len() - 1].name@ == x);
            }
        }
    }
}

/// Lexicographic order of byte strings; a proper prefix comes first.
pub open spec fn bytes_before(a: Seq<u8>, b: Seq<u8>) -> bool
    decreases a.len(),
{
    if a.len() == 0 {
        b.len() > 0
    } else if b.len() == 0 {
        false
    } else if a[0] != b[0] {
        a[0] < b[0]
    } else {
        bytes_before(a.drop_first(), b.drop_first())
    }
}

/// Order of names by their UTF-8 bytes, the order of `str`.
pub open spec fn name_before(a: Seq<char>, b: Seq<char>) -> bool {
    bytes_before(encode_utf8(a), encode_utf8(b))
}

/// A larger count ranks first; among equal counts the name decides.
pub open spec fn ranks_before(c1: int, n1: Seq<char>, c2: int, n2: Seq<char>) -> bool {
    c1 > c2 || (c1 == c2 && name_before(n1, n2))
}

pub open spec fn ranked(t: Seq<NameCount>) -> bool {
    forall|i: int, j: int|
        0 <= i < j < t.len() ==> ranks_before(
            #[trigger] t[i].count as int,
            t[i].name@,
            #[trigger] t[j].count as int,
            t[j].name@,
        )
}

proof fn lemma_bytes_total(a: Seq<u8>, b: Seq<u8>)
    ensures
        !bytes_before(a, a),
        bytes_before(a, b) ==> !bytes_before(b, a),
        a != b ==> bytes_before(a, b) || bytes_before(b, a),
    decreases a.len(),
{
    if a.len() > 0 {
        lemma_bytes_total(a.drop_first(), a.drop_first());
    }
    if a.len() > 0 && b.len() > 0 {
        lemma_bytes_total(a.drop_first(), b.drop_first());
        if a != b && a[0] == b[0] {
            assert(a =~= seq![a[0]] + a.drop_first());
            assert(b =~= seq![b[0]] + b.drop_first());
        }
    }
    if a.len() == 0 && b.len() == 0 {
        assert(a =~= b);
    }
}

proof fn lemma_bytes_transitive(a: Seq<u8>, b: Seq<u8>, c: Seq<u8>)
    ensures
        bytes_before(a, b) && bytes_before(b, c) ==> bytes_before(a, c),
    decreases a.len(),
{
    if a.len() > 0 && b.len() > 0 && c.len() > 0 {
        lemma_bytes_transitive(a.drop_first(), b.drop_first(), c.drop_first());
    }
}

pub proof fn lemma_rank_order(c1: int, n1: Seq<char>, c2: int, n2: Seq<char>, c3: int, n3: Seq<char>)
    ensures
        !ranks_before(c1, n1, c1, n1),
        ranks_before(c1, n1, c2, n2) ==> !ranks_before(c2, n2, c1, n1),
        n1 != n2 ==> ranks_before(c1, n1, c2, n2) || ranks_before(c2, n2, c1, n1),
        ranks_before(c1, n1, c2, n2) && ranks_before(c2, n2, c3, n3) ==> ranks_before(
            c1,
            n1,
            c3,
            n3,
        ),
{
    let (a, b, c) = (encode_utf8(n1), encode_utf8(n2), encode_utf8(n3));
    lemma_bytes_total(a, b);
    lemma_bytes_total(b, a);
    lemma_bytes_transitive(a, b, c);
    if n1 != n2 {
        encode_utf8_decode_utf8(n1);
        encode_utf8_decode_utf8(n2);
    }
}

proof fn lemma_bytes_skip(a: Seq<u8>, b: Seq<u8>, i: int)
    requires
        0 <= i <= a.len(),
        i <= b.len(),
        a.subrange(0, i) == b.subrange(0, i),
    ensures
        bytes_before(a, b) == bytes_before(a.subrange(i, a.len() as int), b.subrange(i, b.len() as int)),
    decreases i,
{
    if i > 0 {
        assert(a[0] == a.subrange(0, i)[0]);
        assert(b[0] == b.subrange(0, i)[0]);
        assert(a.drop_first().subrange(0, i - 1) =~= a.subrange(0, i).drop_first());
        assert(b.drop_first().subrange(0, i - 1) =~= b.subrange(0, i).drop_first());
        lemma_bytes_skip(a.drop_first(), b.drop_first(), i - 1);
        assert(a.drop_first().subrange(i - 1, a.len() - 1) =~= a.subrange(i, a.len() as int));
        assert(b.drop_first().subrange(i - 1, b.len() - 1) =~= b.subrange(i, b.len() as int));
    } else {
        assert(a.subrange(0, a.len() as int) =~= a);
        assert(b.subrange(0, b.len() as int) =~= b);
    }
}

/// Whether `a` comes before `b` in the byte order of `str`.
pub fn name_precedes(a: &str, b: &str) -> (r: bool)
    ensures
        r == name_before(a@, b@),
{
    let x = a.as_bytes();
    let y = b.as_bytes();
    let mut i: usize = 0;
    while i < x.len() && i < y.len()
        invariant
            i <= x@.len(),
            i <= y@.len(),
            x@ == encode_utf8(a@),
            y@ == encode_utf8(b@),
            x@.subrange(0, i as int) == y@.subrange(0, i as int),
        decreases x@.len() - i,
    {
        if x[i] != y[i] {
            proof {
                lemma_bytes_skip(x@, y@, i as int);
            }
            return x[i] < y[i];
        }
        assert(x@.subrange(0, i + 1) =~= x@.subrange(0, i as int).push(x@[i as int]));
        assert(y@.subrange(0, i + 1) =~= y@.subrange(0, i as int).push(y@[i as int]));
        i = i + 1;
    }
    proof {
        lemma_bytes_skip(x@, y@, i as int);
    }
    x.len() < y.len()
}

fn outranks(a: &NameCount, b: &NameCount) -> (r: bool)
    ensures
        r == ranks_before(a.count as int, a.name@, b.count as int, b.name@),
{
    a.count > b.count || (a.count == b.count && name_precedes(a.name.as_str(), b.name.as_str()))
}

proof fn lemma_insert_ranked(s: Seq<NameCount>, x: NameCount, j: int)
    requires
        ranked(s),
        0 <= j <= s.len(),
        forall|k: int| 0 <= k < s.len() ==> #[trigger] s[k].name@ != x.name@,
        forall|k: int|
            0 <= k < j ==> ranks_before(#[trigger] s[k].count as int, s[k].name@, x.count as int, x.name@),
        j < s.len() ==> !ranks_before(s[j].count as int, s[j].name@, x.count as int, x.name@),
    ensures
        ranked(s.insert(j, x)),
{
    let t = s.insert(j, x);
    if j < s.len() {
        lemma_rank_order(s[j].count as int, s[j].name@, x.count as int, x.name@, 0, Seq::empty());
    }
    assert forall|a: int, b: int| 0 <= a < b < t.len() implies ranks_before(
        #[trigger] t[a].count as int,
        t[a].name@,
        #[trigger] t[b].count as int,
        t[b].name@,
    ) by {
        if a == j && b > j + 0 {
            if b - 1 > j {
                lemma_rank_order(
                    x.count as int,
                    x.name@,
                    s[j].count as int,
                    s[j].name@,
                    s[b - 1].count as int,
                    s[b - 1].name@,
                );
            }
        }
    }
}

/// The tally sorted by rank.
pub fn rank(tally: &Vec<NameCount>, Ghost(names): Ghost<Seq<Seq<char>>>) -> (r: Vec<NameCount>)
    requires
        tally_of(tally@, names),
    ensures
        tally_of(r@, names),
        ranked(r@),
{
    let mut out: Vec<NameCount> = Vec::new();
    let mut i: usize = 0;
    while i < tally.len()
        invariant
            i <= tally@.len(),
            tally_of(tally@, names),
            ranked(out@),
            out@.to_multiset() == tally@.subrange(0, i as int).to_multiset(),
        decreases tally@.len() - i,
    {
        let x = NameCount { name: tally[i].name.clone(), count: tally[i].count };
        assert(x == tally@[i as int]);
        let mut j: usize = 0;
        while j < out.len() && outranks(&out[j], &x)
            invariant
                j <= out@.len(),
                forall|k: int|
                    0 <= k < j ==> ranks_before(
                        #[trigger] out@[k].count as int,
                        out@[k].name@,
                        x.count as int,
                        x.name@,
                    ),
            decreases out@.len() - j,
        {
            j = j + 1;
        }
        let ghost old_out = out@;
        proof {
            assert forall|k: int| 0 <= k < old_out.len() implies #[trigger] old_out[k].name@
                != x.name@ by {
                assert(old_out.to_multiset().count(old_out[k]) > 0);
                assert(tally@.subrange(0, i as int).contains(old_out[k]));
                let m = choose|m: int| 0 <= m < i && tally@.subrange(0, i as int)[m] == old_out[k];
                assert(tally@[m] == old_out[k]);
            }
            lemma_insert_ranked(old_out, x, j as int);
            assert(tally@.subrange(0, i + 1) =~= tally@.subrange(0, i as int).push(x));
        }
        out.insert(j, x);
        i = i + 1;
    }
    proof {
        assert(tally@.subrange(0, i as int) =~= tally@);
        assert forall|k: int| 0 <= k < out@.len() implies #[trigger] out@[k].count
            == occurrences(names, out@[k].name@) && out@[k].count > 0 by {
            assert(out@.to_multiset().count(out@[k]) > 0);
            assert(tally@.contains(out@[k]));
        }
        assert forall|x: Seq<char>| #[trigger] names.contains(x) implies exists|k: int|
            0 <= k < out@.len() && out@[k].name@ == x by {
            let m = choose|m: int| 0 <= m < tally@.len() && tally@[m].name@ == x;
            assert(tally@.to_multiset().count(tally@[m]) > 0);
            assert(out@.contains(tally@[m]));
        }
        assert forall|k1: int, k2: int| 0 <= k1 < k2 < out@.len() implies #[trigger] out@[k1].name@
            != #[trigger] out@[k2].name@ by {
            lemma_rank_order(
                out@[k1].count as int,
                out@[k1].name@,
                out@[k2].count as int,
                out@[k2].name@,
                0,
                Seq::empty(),
            );
        }
    }
    out
}

} // verus!
