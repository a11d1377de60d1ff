//! What holds of every comparison that `match_functions` makes.

use crate::analysis::hash::FunctionHashView;
use crate::arch::FunctionIRView;
use crate::diff::matching::{
    added_delta, claimed, exact_delta, first_in, last_in, lemma_last_index_is,
    lemma_last_index_none, lemma_last_index_some, names_of, removed_delta, Sides,
};
use crate::diff::FunctionDeltaView;
use vstd::prelude::*;

verus! {

/// How many of the first `n` entries of `b` have a name that `a` lacks.
pub open spec fn count_absent(b: Seq<Seq<char>>, a: Seq<Seq<char>>, n: nat) -> nat
    decreases n,
{
    if n == 0 {
        0
    } else if a.contains(b[n - 1]) {
        count_absent(b, a, (n - 1) as nat)
    } else {
        count_absent(b, a, (n - 1) as nat) + 1
    }
}

/// How many of the first `n` entries of side B are nobody's partner.
pub open spec fn count_added(sides: Sides, n: nat) -> nat
    decreases n,
{
    if n == 0 {
        0
    } else if sides.added_at(n - 1) {
        count_added(sides, (n - 1) as nat) + 1
    } else {
        count_added(sides, (n - 1) as nat)
    }
}

/// Every entry of side A stands in exactly one of the three lists that
/// follow A, and every entry of side B is either somebody's partner or
/// added, never both. No two entries of A share a partner.
pub proof fn lemma_exclusive(sides: Sides)
    ensures
        forall|i: int|
            0 <= i < sides.ha.len() ==> {
                &&& #[trigger] sides.unchanged_at(i) || sides.modified_at(i) || sides.removed_at(i)
                &&& !(sides.unchanged_at(i) && sides.modified_at(i))
                &&& !(sides.unchanged_at(i) && sides.removed_at(i))
                &&& !(sides.modified_at(i) && sides.removed_at(i))
            },
        forall|j: int|
            0 <= j < sides.hb.len() ==> (#[trigger] sides.added_at(j) <==> forall|i: int|
                0 <= i < sides.ha.len() ==> sides.partner_of(i) != Some(j)),
        forall|i: int, k: int|
            0 <= i < sides.ha.len() && 0 <= k < sides.ha.len() && sides.partner_of(i) is Some
                && #[trigger] sides.partner_of(i) == #[trigger] sides.partner_of(k) ==> i == k,
{
    let a = names_of(sides.ha);
    let b = names_of(sides.hb);
    assert forall|j: int| 0 <= j < sides.hb.len() implies (#[trigger] sides.added_at(j) <==> forall|
        i: int,
    |
        0 <= i < sides.ha.len() ==> sides.partner_of(i) != Some(j)) by {
        if claimed(a, b, j) {
            let i = first_index_of(a, b[j]);
            lemma_first_index(a, b[j]);
            lemma_last_index_is(b, j);
            assert(sides.partner_of(i) == Some(j));
        } else {
            assert forall|i: int| 0 <= i < sides.ha.len() implies sides.partner_of(i) != Some(j) by {
                if sides.partner_of(i) == Some(j) {
                    lemma_last_index_some(b, a[i]);
                    assert(a.contains(b[j]));
                }
            }
        }
    }
    assert forall|i: int, k: int|
        0 <= i < sides.ha.len() && 0 <= k < sides.ha.len() && sides.partner_of(i) is Some
            && #[trigger] sides.partner_of(i) == #[trigger] sides.partner_of(k) implies i == k by {
        lemma_last_index_some(b, a[i]);
        lemma_last_index_some(b, a[k]);
        assert(a[i] == a[k]);
    }
}

/// What the lists hold: a record stands in one of the three lists that
/// follow side A exactly where it is the record of an entry of A that
/// belongs to that list, and in the added list exactly where it is the
/// record of an entry of B that nobody is paired with.
pub proof fn lemma_members(sides: Sides)
    ensures
        forall|r: FunctionDeltaView|
            sides.unchanged().contains(r) <==> exists|i: int|
                0 <= i < sides.ha.len() && sides.unchanged_at(i) && r == #[trigger] sides.unchanged_record(i),
        forall|r: FunctionDeltaView|
            sides.modified().contains(r) <==> exists|i: int|
                0 <= i < sides.ha.len() && sides.modified_at(i) && r == #[trigger] sides.modified_record(i),
        forall|r: FunctionDeltaView|
            sides.removed().contains(r) <==> exists|i: int|
                0 <= i < sides.ha.len() && #[trigger] sides.removed_at(i) && r == removed_delta(sides.ha[i]),
        forall|r: FunctionDeltaView|
            sides.added().contains(r) <==> exists|j: int|
                0 <= j < sides.hb.len() && #[trigger] sides.added_at(j) && r == added_delta(sides.hb[j]),
{
    lemma_members_upto(sides, sides.ha.len(), sides.hb.len());
}

proof fn lemma_members_upto(sides: Sides, n: nat, m: nat)
    ensures
        forall|r: FunctionDeltaView|
            sides.unchanged_upto(n).contains(r) <==> exists|i: int|
                0 <= i < n && sides.unchanged_at(i) && r == #[trigger] sides.unchanged_record(i),
        forall|r: FunctionDeltaView|
            sides.modified_upto(n).contains(r) <==> exists|i: int|
                0 <= i < n && sides.modified_at(i) && r == #[trigger] sides.modified_record(i),
        forall|r: FunctionDeltaView|
            sides.removed_upto(n).contains(r) <==> exists|i: int|
                0 <= i < n && #[trigger] sides.removed_at(i) && r == removed_delta(sides.ha[i]),
        forall|r: FunctionDeltaView|
            sides.added_upto(m).contains(r) <==> exists|j: int|
                0 <= j < m && #[trigger] sides.added_at(j) && r == added_delta(sides.hb[j]),
    decreases n + m,
{
    if n > 0 {
        let k = (n - 1) as nat;
        lemma_members_upto(sides, k, m);
        lemma_pushed(sides.unchanged_upto(k), sides.unchanged_record(k as int));
        lemma_pushed(sides.modified_upto(k), sides.modified_record(k as int));
        lemma_pushed(sides.removed_upto(k), removed_delta(sides.ha[k as int]));
        assert forall|r: FunctionDeltaView|
            sides.unchanged_upto(n).contains(r) <==> exists|i: int|
                0 <= i < n && sides.unchanged_at(i) && r == #[trigger] sides.unchanged_record(i) by {
            if sides.unchanged_upto(k).contains(r) {
                let i = choose|i: int|
                    0 <= i < k && sides.unchanged_at(i) && r == #[trigger] sides.unchanged_record(i);
                assert(0 <= i < n && sides.unchanged_at(i) && r == sides.unchanged_record(i));
            }
            if sides.unchanged_at(k as int) && r == sides.unchanged_record(k as int) {
                assert(0 <= k < n && sides.unchanged_at(k as int) && r == sides.unchanged_record(k as int));
            }
        }
        assert forall|r: FunctionDeltaView|
            sides.modified_upto(n).contains(r) <==> exists|i: int|
                0 <= i < n && sides.modified_at(i) && r == #[trigger] sides.modified_record(i) by {
            if sides.modified_upto(k).contains(r) {
                let i = choose|i: int|
                    0 <= i < k && sides.modified_at(i) && r == #[trigger] sides.modified_record(i);
                assert(0 <= i < n && sides.modified_at(i) && r == sides.modified_record(i));
            }
            if sides.modified_at(k as int) && r == sides.modified_record(k as int) {
                assert(0 <= k < n && sides.modified_at(k as int) && r == sides.modified_record(k as int));
            }
        }
        assert forall|r: FunctionDeltaView|
            sides.removed_upto(n).contains(r) <==> exists|i: int|
                0 <= i < n && #[trigger] sides.removed_at(i) && r == removed_delta(sides.ha[i]) by {
            if sides.removed_upto(k).contains(r) {
                let i = choose|i: int|
                    0 <= i < k && #[trigger] sides.removed_at(i) && r == removed_delta(sides.ha[i]);
                assert(0 <= i < n && sides.removed_at(i) && r == removed_delta(sides.ha[i]));
            }
            if sides.removed_at(k as int) && r == removed_delta(sides.ha[k as int]) {
                assert(0 <= k < n && sides.removed_at(k as int));
            }
        }
    } else if m > 0 {
        let k = (m - 1) as nat;
        lemma_members_upto(sides, n, k);
        lemma_pushed(sides.added_upto(k), added_delta(sides.hb[k as int]));
        assert forall|r: FunctionDeltaView|
            sides.added_upto(m).contains(r) <==> exists|j: int|
                0 <= j < m && #[trigger] sides.added_at(j) && r == added_delta(sides.hb[j]) by {
            if sides.added_upto(k).contains(r) {
                let j = choose|j: int|
                    0 <= j < k && #[trigger] sides.added_at(j) && r == added_delta(sides.hb[j]);
                assert(0 <= j < m && sides.added_at(j) && r == added_delta(sides.hb[j]));
            }
            if sides.added_at(k as int) && r == added_delta(sides.hb[k as int]) {
                assert(0 <= k < m && sides.added_at(k as int));
            }
        }
    }
}

/// A list with one more record holds what it held and that record.
proof fn lemma_pushed(list: Seq<FunctionDeltaView>, last: FunctionDeltaView)
    ensures
        forall|r: FunctionDeltaView| list.push(last).contains(r) <==> list.contains(r) || r == last,
{
    assert forall|r: FunctionDeltaView| list.push(last).contains(r) <==> list.contains(r) || r
        == last by {
        if list.push(last).contains(r) {
            let k = choose|k: int| 0 <= k < list.len() + 1 && list.push(last)[k] == r;
            if k < list.len() {
                assert(list[k] == r);
            }
        }
        if list.contains(r) {
            let k = choose|k: int| 0 <= k < list.len() && list[k] == r;
            assert(list.push(last)[k] == r);
        }
        if r == last {
            assert(list.push(last)[list.len() as int] == r);
        }
    }
}

/// The index of the first entry named `name`.
pub open spec fn first_index_of(names: Seq<Seq<char>>, name: Seq<char>) -> int
    decreases names.len(),
{
    if names.len() == 0 {
        0
    } else if names.drop_last().contains(name) {
        first_index_of(names.drop_last(), name)
    } else {
        names.len() - 1
    }
}

/// Where a name occurs, `first_index_of` gives its first entry.
pub proof fn lemma_first_index(names: Seq<Seq<char>>, name: Seq<char>)
    requires
        names.contains(name),
    ensures
        0 <= first_index_of(names, name) < names.len(),
        names[first_index_of(names, name)] == name,
        first_in(names, first_index_of(names, name)),
    decreases names.len(),
{
    let shorter = names.drop_last();
    if shorter.contains(name) {
        lemma_first_index(shorter, name);
        let i = first_index_of(shorter, name);
        assert(names[i] == shorter[i]);
        assert forall|k: int| 0 <= k < i implies names[k] != names[i] by {
            assert(shorter[k] != shorter[i]);
        }
    } else {
        let k = choose|k: int| 0 <= k < names.len() && names[k] == name;
        if k < names.len() - 1 {
            assert(shorter[k] == name);
        }
        assert forall|m: int| 0 <= m < names.len() - 1 implies #[trigger] names[m] != name by {
            assert(shorter[m] == names[m]);
        }
    }
}

/// The three lists that follow side A hold one record for each of the first
/// `n` entries of A; the added list holds one for each entry of B among the
/// first `m` that is nobody's partner.
pub proof fn lemma_sizes(sides: Sides, n: nat, m: nat)
    ensures
        sides.unchanged_upto(n).len() + sides.modified_upto(n).len() + sides.removed_upto(n).len()
            == n,
        sides.added_upto(m).len() == count_added(sides, m),
    decreases n + m,
{
    if n > 0 {
        lemma_sizes(sides, (n - 1) as nat, m);
    } else if m > 0 {
        lemma_sizes(sides, n, (m - 1) as nat);
    }
}

/// Partition: where no name stands twice in side A and no name that both
/// sides have stands twice in side B, the four lists together hold as many
/// records as side A has distinct names plus side B has entries whose name
/// side A lacks.
pub proof fn lemma_partition(sides: Sides)
    requires
        names_of(sides.ha).no_duplicates(),
        forall|j: int, k: int|
            0 <= j < k < sides.hb.len() && names_of(sides.hb)[j] == names_of(sides.hb)[k]
                ==> !names_of(sides.ha).contains(names_of(sides.hb)[j]),
    ensures
        sides.added().len() + sides.removed().len() + sides.modified().len()
            + sides.unchanged().len() == names_of(sides.ha).to_set().len() + count_absent(
            names_of(sides.hb),
            names_of(sides.ha),
            sides.hb.len(),
        ),
{
    let a = names_of(sides.ha);
    let b = names_of(sides.hb);
    lemma_sizes(sides, sides.ha.len(), sides.hb.len());
    a.unique_seq_to_set();
    lemma_added_counts_absent(sides, sides.hb.len());
}

/// Partition, by sets: where no name stands twice in either side, the four
/// lists together hold one record for each name that at least one side has.
pub proof fn lemma_partition_union(sides: Sides)
    requires
        names_of(sides.ha).no_duplicates(),
        names_of(sides.hb).no_duplicates(),
    ensures
        sides.added().len() + sides.removed().len() + sides.modified().len()
            + sides.unchanged().len() == names_of(sides.ha).to_set().union(
            names_of(sides.hb).to_set(),
        ).len(),
{
    let a = names_of(sides.ha);
    let b = names_of(sides.hb);
    lemma_partition(sides);
    lemma_union_counts_absent(a, b, b.len());
    assert(b.take(b.len() as int) == b);
}

/// The names of `a` together with those of the first `n` entries of `b`
/// are as many as the names of `a` and the entries among those `n` whose
/// name `a` lacks.
proof fn lemma_union_counts_absent(a: Seq<Seq<char>>, b: Seq<Seq<char>>, n: nat)
    requires
        b.no_duplicates(),
        n <= b.len(),
    ensures
        a.to_set().union(b.take(n as int).to_set()).finite(),
        a.to_set().union(b.take(n as int).to_set()).len() == a.to_set().len() + count_absent(b, a, n),
    decreases n,
{
    vstd::seq_lib::seq_to_set_is_finite(a);
    vstd::seq_lib::seq_to_set_is_finite(b.take(n as int));
    if n == 0 {
        assert(a.to_set().union(b.take(0).to_set()) =~= a.to_set());
    } else {
        lemma_union_counts_absent(a, b, (n - 1) as nat);
        let last = b[n - 1];
        let shorter = b.take(n - 1);
        let longer = b.take(n as int);
        let before = a.to_set().union(shorter.to_set());
        let after = a.to_set().union(longer.to_set());
        assert forall|x: Seq<char>| longer.contains(x) <==> shorter.contains(x) || x == last by {
            if longer.contains(x) {
                let k = choose|k: int| 0 <= k < longer.len() && longer[k] == x;
                if k < n - 1 {
                    assert(shorter[k] == x);
                }
            }
            if shorter.contains(x) {
                let k = choose|k: int| 0 <= k < shorter.len() && shorter[k] == x;
                assert(longer[k] == x);
            }
            if x == last {
                assert(longer[n - 1] == x);
            }
        }
        assert(after =~= before.insert(last));
        if !a.contains(last) {
            if shorter.contains(last) {
                let k = choose|k: int| 0 <= k < shorter.len() && shorter[k] == last;
                assert(b[k] == b[n - 1]);
            }
            assert(!before.contains(last));
        } else {
            assert(before.contains(last));
        }
    }
}

/// Under the conditions of the partition law, an entry of side B is added
/// exactly when side A lacks its name.
proof fn lemma_added_counts_absent(sides: Sides, m: nat)
    requires
        m <= sides.hb.len(),
        forall|j: int, k: int|
            0 <= j < k < sides.hb.len() && names_of(sides.hb)[j] == names_of(sides.hb)[k]
                ==> !names_of(sides.ha).contains(names_of(sides.hb)[j]),
    ensures
        count_added(sides, m) == count_absent(names_of(sides.hb), names_of(sides.ha), m),
    decreases m,
{
    if m > 0 {
        lemma_added_counts_absent(sides, (m - 1) as nat);
        let a = names_of(sides.ha);
        let b = names_of(sides.hb);
        let j = m - 1;
        if a.contains(b[j]) {
            assert forall|k: int| j < k < b.len() implies b[k] != b[j] by {
                if b[k] == b[j] {
                    assert(!a.contains(b[j]));
                }
            }
            assert(last_in(b, j));
        }
    }
}

/// Reflexivity: a side whose names are all different, compared with itself,
/// has nothing added, removed or modified, and every function is unchanged,
/// paired exactly with itself.
pub proof fn lemma_reflexive(f: Seq<FunctionIRView>, h: Seq<FunctionHashView>)
    requires
        names_of(h).no_duplicates(),
    ensures
        ({
            let sides = Sides { fa: f, fb: f, ha: h, hb: h };
            &&& sides.added() == Seq::<FunctionDeltaView>::empty()
            &&& sides.removed() == Seq::<FunctionDeltaView>::empty()
            &&& sides.modified() == Seq::<FunctionDeltaView>::empty()
            &&& sides.unchanged() == Seq::new(h.len(), |i: int| exact_delta(h[i], h[i]))
        }),
{
    let sides = Sides { fa: f, fb: f, ha: h, hb: h };
    lemma_reflexive_upto(f, h, h.len());
}

proof fn lemma_reflexive_upto(f: Seq<FunctionIRView>, h: Seq<FunctionHashView>, n: nat)
    requires
        names_of(h).no_duplicates(),
        n <= h.len(),
    ensures
        ({
            let sides = Sides { fa: f, fb: f, ha: h, hb: h };
            &&& sides.added_upto(n) == Seq::<FunctionDeltaView>::empty()
            &&& sides.removed_upto(n) == Seq::<FunctionDeltaView>::empty()
            &&& sides.modified_upto(n) == Seq::<FunctionDeltaView>::empty()
            &&& sides.unchanged_upto(n) == Seq::new(n, |i: int| exact_delta(h[i], h[i]))
        }),
    decreases n,
{
    let sides = Sides { fa: f, fb: f, ha: h, hb: h };
    let a = names_of(h);
    if n > 0 {
        lemma_reflexive_upto(f, h, (n - 1) as nat);
        let i = n - 1;
        assert(first_in(a, i));
        assert(last_in(a, i));
        lemma_last_index_is(a, i);
        assert(a[i] == h[i].name);
        assert(sides.partner_of(i) == Some(i));
        assert(a.contains(a[i]));
        assert(sides.unchanged_upto(n) =~= Seq::new(n, |i: int| exact_delta(h[i], h[i])));
    } else {
        assert(sides.unchanged_upto(n) =~= Seq::new(n, |i: int| exact_delta(h[i], h[i])));
    }
}

/// A function whose name the other side lacks is removed (side A) or added
/// (side B), whatever its bytes are; and the two sides of a pair always
/// carry the same name.
pub proof fn lemma_names_decide(sides: Sides)
    ensures
        forall|i: int|
            0 <= i < sides.ha.len() && !names_of(sides.hb).contains(names_of(sides.ha)[i])
                ==> #[trigger] sides.removed_at(i),
        forall|j: int|
            0 <= j < sides.hb.len() && !names_of(sides.ha).contains(names_of(sides.hb)[j])
                ==> #[trigger] sides.added_at(j),
        forall|i: int|
            0 <= i < sides.ha.len() && #[trigger] sides.partner_of(i) is Some ==> {
                &&& 0 <= sides.partner_of(i)->0 < sides.hb.len()
                &&& sides.hb[sides.partner_of(i)->0].name == sides.ha[i].name
            },
{
    let a = names_of(sides.ha);
    let b = names_of(sides.hb);
    assert forall|i: int| 0 <= i < sides.ha.len() && !b.contains(a[i]) implies #[trigger] sides.removed_at(
        i,
    ) by {
        lemma_last_index_none(b, a[i]);
    }
    assert forall|i: int| 0 <= i < sides.ha.len() && #[trigger] sides.partner_of(i) is Some implies {
        &&& 0 <= sides.partner_of(i)->0 < sides.hb.len()
        &&& sides.hb[sides.partner_of(i)->0].name == sides.ha[i].name
    } by {
        lemma_last_index_some(b, a[i]);
        assert(b[sides.partner_of(i)->0] == a[i]);
    }
}

/// Rename: where side B is side A with the one entry `p` under a new name
/// that side A does not have, and all names of A differ, the old name is
/// the only removed record, the new name the only added one, and entry `p`
/// is neither modified nor unchanged.
pub proof fn lemma_rename(sides: Sides, p: int)
    requires
        0 <= p < sides.ha.len(),
        sides.ha.len() == sides.hb.len(),
        names_of(sides.ha).no_duplicates(),
        forall|k: int| 0 <= k < sides.ha.len() && k != p ==> sides.hb[k].name == sides.ha[k].name,
        !names_of(sides.ha).contains(sides.hb[p].name),
    ensures
        sides.removed() == seq![removed_delta(sides.ha[p])],
        sides.added() == seq![added_delta(sides.hb[p])],
        !sides.modified_at(p),
        !sides.unchanged_at(p),
        sides.modified().len() + sides.unchanged().len() == sides.ha.len() - 1,
{
    lemma_rename_upto(sides, p, sides.ha.len());
    lemma_sizes(sides, sides.ha.len(), 0);
}

proof fn lemma_rename_upto(sides: Sides, p: int, n: nat)
    requires
        0 <= p < sides.ha.len(),
        sides.ha.len() == sides.hb.len(),
        names_of(sides.ha).no_duplicates(),
        forall|k: int| 0 <= k < sides.ha.len() && k != p ==> sides.hb[k].name == sides.ha[k].name,
        !names_of(sides.ha).contains(sides.hb[p].name),
        n <= sides.ha.len(),
    ensures
        sides.removed_upto(n) == if n <= p {
            Seq::<FunctionDeltaView>::empty()
        } else {
            seq![removed_delta(sides.ha[p])]
        },
        sides.added_upto(n) == if n <= p {
            Seq::<FunctionDeltaView>::empty()
        } else {
            seq![added_delta(sides.hb[p])]
        },
        sides.removed_at(p),
    decreases n,
{
    let a = names_of(sides.ha);
    let b = names_of(sides.hb);
    assert(b[p] == sides.hb[p].name);
    assert(!b.contains(a[p])) by {
        if b.contains(a[p]) {
            let k = choose|k: int| 0 <= k < b.len() && b[k] == a[p];
            if k != p {
                assert(a[k] == a[p]);
            } else {
                assert(a.contains(b[p]));
            }
        }
    }
    lemma_last_index_none(b, a[p]);
    if n > 0 {
        lemma_rename_upto(sides, p, (n - 1) as nat);
        let i = n - 1;
        if i != p {
            assert(b[i] == a[i]);
            assert(first_in(a, i));
            assert forall|k: int| i < k < b.len() implies b[k] != b[i] by {
                if k != p {
                    assert(b[k] == a[k]);
                } else {
                    assert(a.contains(a[i]));
                }
            }
            lemma_last_index_is(b, i);
            assert(sides.partner_of(i) == Some(i));
            assert(a.contains(b[i]));
            assert(claimed(a, b, i));
        }
        assert(sides.removed_upto(n) =~= if n <= p {
            Seq::<FunctionDeltaView>::empty()
        } else {
            seq![removed_delta(sides.ha[p])]
        });
        assert(sides.added_upto(n) =~= if n <= p {
            Seq::<FunctionDeltaView>::empty()
        } else {
            seq![added_delta(sides.hb[p])]
        });
    }
}

/// A pair is modified exactly when its strong hashes differ, and unchanged
/// exactly when they agree: a change that reaches the strong hash is never
/// reported as unchanged.
pub proof fn lemma_hash_decides(sides: Sides, i: int)
    requires
        sides.partner_of(i) is Some,
    ensures
        sides.modified_at(i) <==> sides.ha[i].blake3 != sides.hb[sides.partner_of(i)->0].blake3,
        sides.unchanged_at(i) <==> sides.ha[i].blake3 == sides.hb[sides.partner_of(i)->0].blake3,
        !sides.removed_at(i),
{
}

} // verus!
