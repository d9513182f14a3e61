//! Finding the items of a list of names that stand out of order.

use crate::text::{
    lemma_lex_asymmetric, lemma_lex_irreflexive, lemma_lex_total, lemma_lex_transitive, less,
    name_less, texts,
};
use crate::syntax::Attribute;
use crate::text::is_word;
use vstd::prelude::*;
use vstd::string::StringExecFns;
use vstd::utf8::encode_utf8;

verus! {

/// An item that stands after one that it sorts before.
pub struct WrongLocations {
    /// The name of the item.
    pub target: String,
    /// The name that the item should stand before.
    pub expected: String,
    /// Where the item stands in the list.
    pub position: usize,
}

/// A finding as plain text.
pub struct Finding {
    pub target: Seq<char>,
    pub expected: Seq<char>,
    pub position: nat,
}

impl View for WrongLocations {
    type V = Finding;

    open spec fn view(&self) -> Finding {
        Finding {
            target: self.target@,
            expected: self.expected@,
            position: self.position as nat,
        }
    }
}

/// The findings of a list as plain text.
pub open spec fn views(found: Seq<WrongLocations>) -> Seq<Finding> {
    found.map_values(|w: WrongLocations| w@)
}

/// The order in which the items are looked at: by name, and among equal
/// names by place in the list.
pub open spec fn key_less(names: Seq<Seq<char>>, a: int, b: int) -> bool {
    name_less(names[a], names[b]) || (!name_less(names[b], names[a]) && a < b)
}

/// Whether item `k` stands after an item whose name comes after its own.
pub open spec fn misplaced(names: Seq<Seq<char>>, k: int) -> bool {
    exists|j: int| 0 <= j < k && name_less(names[k], #[trigger] names[j])
}

/// Whether item `j` is the one that item `k` is told to stand before: of
/// the items before `k` with a greater name, the first in the order of
/// `key_less`.
pub open spec fn blocks(names: Seq<Seq<char>>, k: int, j: int) -> bool {
    &&& 0 <= j < k
    &&& name_less(names[k], names[j])
    &&& forall|i: int|
        0 <= i < k && name_less(names[k], #[trigger] names[i]) ==> !key_less(names, i, j)
}

/// Whether the list of findings names item `k`.
pub open spec fn reports(found: Seq<Finding>, k: int) -> bool {
    exists|e: int| 0 <= e < found.len() && (#[trigger] found[e]).position == k
}

/// Whether `found` is what a list of names has out of order.
///
/// Each finding names an item that stands after an item whose name comes
/// after its own, and of those items the one that comes first in the order
/// of `key_less`. Every such item has its finding, and the findings come in
/// the order of `key_less`.
pub open spec fn findings(names: Seq<Seq<char>>, found: Seq<Finding>) -> bool {
    &&& forall|e: int|
        0 <= e < found.len() ==> {
            let k = (#[trigger] found[e]).position as int;
            &&& k < names.len()
            &&& found[e].target == names[k]
            &&& exists|j: int| #[trigger] blocks(names, k, j) && found[e].expected == names[j]
        }
    &&& forall|d: int, e: int|
        0 <= d < e < found.len() ==> key_less(
            names,
            (#[trigger] found[d]).position as int,
            (#[trigger] found[e]).position as int,
        )
    &&& forall|k: int| 0 <= k < names.len() && misplaced(names, k) ==> reports(found, k)
}

spec fn named(found: Seq<WrongLocations>, k: int) -> bool {
    exists|e: int| 0 <= e < found.len() && (#[trigger] found[e]).position == k
}

spec fn occurs(order: Seq<usize>, k: int, upto: int) -> bool {
    exists|a: int| 0 <= a < upto && #[trigger] order[a] == k
}

/// Every item once, in the order of `key_less`.
spec fn ordered(names: Seq<Seq<char>>, order: Seq<usize>) -> bool {
    &&& order.len() == names.len()
    &&& forall|a: int| 0 <= a < order.len() ==> #[trigger] order[a] < names.len()
    &&& forall|k: int| 0 <= k < names.len() ==> occurs(order, k, order.len() as int)
    &&& forall|a: int, b: int|
        0 <= a < b < order.len() ==> key_less(names, #[trigger] order[a] as int, #[trigger] order[b] as int)
}

proof fn lemma_key_irreflexive(names: Seq<Seq<char>>, a: int)
    ensures
        !key_less(names, a, a),
{
    lemma_lex_irreflexive(encode_utf8(names[a]));
}

proof fn lemma_key_total(names: Seq<Seq<char>>, a: int, b: int)
    ensures
        a == b || key_less(names, a, b) || key_less(names, b, a),
{
}

proof fn lemma_key_transitive(names: Seq<Seq<char>>, a: int, b: int, c: int)
    requires
        key_less(names, a, b),
        key_less(names, b, c),
    ensures
        key_less(names, a, c),
{
    let x = encode_utf8(names[a]);
    let y = encode_utf8(names[b]);
    let z = encode_utf8(names[c]);
    lemma_lex_total(x, y);
    lemma_lex_total(y, z);
    lemma_lex_irreflexive(x);
    if name_less(names[a], names[b]) && name_less(names[b], names[c]) {
        lemma_lex_transitive(x, y, z);
    }
    if name_less(names[c], names[a]) {
        if name_less(names[a], names[b]) {
            lemma_lex_transitive(z, x, y);
            if name_less(names[b], names[c]) {
                lemma_lex_asymmetric(y, z);
            }
        } else if name_less(names[b], names[c]) {
            lemma_lex_asymmetric(y, z);
        }
    }
}

proof fn lemma_key_asymmetric(names: Seq<Seq<char>>, a: int, b: int)
    requires
        key_less(names, a, b),
    ensures
        !key_less(names, b, a),
{
    if key_less(names, b, a) {
        lemma_key_transitive(names, a, b, a);
        lemma_key_irreflexive(names, a);
    }
}

fn key_before(names: &Vec<String>, a: usize, b: usize) -> (r: bool)
    requires
        a < names.len(),
        b < names.len(),
    ensures
        r == key_less(texts(names@), a as int, b as int),
{
    if less(names[a].as_str(), names[b].as_str()) {
        true
    } else if less(names[b].as_str(), names[a].as_str()) {
        false
    } else {
        a < b
    }
}

/// The places of the list, sorted by name; equal names keep their order.
fn sorted_order(names: &Vec<String>) -> (order: Vec<usize>)
    ensures
        ordered(texts(names@), order@),
{
    let n = names.len();
    let mut order: Vec<usize> = Vec::new();
    let mut k: usize = 0;
    while k < n
        invariant
            k <= n,
            n == names.len(),
            order.len() == k,
            forall|a: int| 0 <= a < k ==> #[trigger] order[a] == a,
        decreases n - k,
    {
        order.push(k);
        k += 1;
    }
    assert forall|k: int| 0 <= k < n implies occurs(order@, k, n as int) by {
        assert(order[k] == k);
    }
    let mut i: usize = 1;
    while i < n
        invariant
            1 <= i,
            n == names.len(),
            order.len() == n,
            forall|a: int| 0 <= a < n ==> #[trigger] order[a] < n,
            forall|k: int| 0 <= k < n ==> occurs(order@, k, n as int),
            forall|a: int, b: int| 0 <= a < b < n ==> #[trigger] order[a] != #[trigger] order[b],
            forall|a: int, b: int|
                0 <= a < b < i && b < n ==> key_less(
                    texts(names@),
                    #[trigger] order[a] as int,
                    #[trigger] order[b] as int,
                ),
        decreases n - i,
    {
        let mut j: usize = i;
        while j > 0 && key_before(names, order[j], order[j - 1])
            invariant
                j <= i < n,
                n == names.len(),
                order.len() == n,
                forall|a: int| 0 <= a < n ==> #[trigger] order[a] < n,
                forall|k: int| 0 <= k < n ==> occurs(order@, k, n as int),
                forall|a: int, b: int|
                    0 <= a < b < n ==> #[trigger] order[a] != #[trigger] order[b],
                forall|a: int, b: int|
                    0 <= a < b <= i && a != j && b != j ==> key_less(
                        texts(names@),
                        #[trigger] order[a] as int,
                        #[trigger] order[b] as int,
                    ),
                forall|b: int|
                    j < b <= i ==> key_less(texts(names@), order[j as int] as int, #[trigger] order[b] as int),
            decreases j,
        {
            let ghost before = order@;
            let x = order[j];
            let y = order[j - 1];
            order[j] = y;
            order[j - 1] = x;
            proof {
                assert forall|k: int| 0 <= k < n implies occurs(order@, k, n as int) by {
                    assert(occurs(before, k, n as int));
                    let a = choose|a: int| 0 <= a < n && before[a] == k;
                    if a == j {
                        assert(order[j - 1] == k);
                    } else if a == j - 1 {
                        assert(order[j as int] == k);
                    } else {
                        assert(order[a] == k);
                    }
                }
                assert forall|b: int| j - 1 < b <= i implies key_less(
                    texts(names@),
                    order[j - 1] as int,
                    #[trigger] order[b] as int,
                ) by {
                    if b > j {
                        assert(key_less(texts(names@), before[j as int] as int, before[b] as int));
                    }
                }
                assert forall|a: int, b: int|
                    0 <= a < b <= i && a != j - 1 && b != j - 1 implies key_less(
                    texts(names@),
                    #[trigger] order[a] as int,
                    #[trigger] order[b] as int,
                ) by {
                    if b == j {
                        assert(key_less(texts(names@), before[a] as int, before[j - 1] as int));
                    } else if a == j {
                        assert(key_less(texts(names@), before[j - 1] as int, before[b] as int));
                    } else {
                        assert(key_less(texts(names@), before[a] as int, before[b] as int));
                    }
                }
            }
            j -= 1;
        }
        proof {
            assert forall|a: int, b: int| 0 <= a < b < i + 1 && b < n implies key_less(
                texts(names@),
                #[trigger] order[a] as int,
                #[trigger] order[b] as int,
            ) by {
                if b == j {
                    lemma_key_total(texts(names@), order[j - 1] as int, order[j as int] as int);
                    if a < j - 1 {
                        lemma_key_transitive(
                            texts(names@),
                            order[a] as int,
                            order[j - 1] as int,
                            order[j as int] as int,
                        );
                    }
                }
            }
        }
        i += 1;
    }
    order
}

/// The items that stand after an item which they sort before.
///
/// The findings come in the order of the names, equal names in the order of
/// the list. Each names its item and, of the items that stand before it
/// though their names come after its own, the one with the least name.
/// `position` is the place of the item in `idents`, by which a caller finds
/// the source location that belongs to it.
pub fn get_unsorted_items(idents: &Vec<String>) -> (found: Vec<WrongLocations>)
    ensures
        findings(texts(idents@), views(found@)),
{
    let n = idents.len();
    let order = sorted_order(idents);
    let mut found: Vec<WrongLocations> = Vec::new();
    let mut i: usize = 0;
    while i < n
        invariant
            i <= n,
            n == idents.len(),
            ordered(texts(idents@), order@),
            forall|e: int|
                0 <= e < found.len() ==> {
                    let k = (#[trigger] found[e]).position as int;
                    &&& k < n
                    &&& occurs(order@, k, i as int)
                    &&& found[e].target@ == idents[k]@
                    &&& exists|j: int| #[trigger]
                        blocks(texts(idents@), k, j) && found[e].expected@ == idents[j]@
                },
            forall|d: int, e: int|
                0 <= d < e < found.len() ==> key_less(
                    texts(idents@),
                    (#[trigger] found[d]).position as int,
                    (#[trigger] found[e]).position as int,
                ),
            forall|a: int|
                0 <= a < i && misplaced(texts(idents@), #[trigger] order[a] as int) ==> named(
                    found@,
                    order[a] as int,
                ),
        decreases n - i,
    {
        let item = order[i];
        let mut j: usize = i + 1;
        let mut other: Option<usize> = None;
        while j < n
            invariant_except_break
                other is None,
            invariant
                i < j <= n,
                n == idents.len(),
                order.len() == n,
                item == order[i as int],
                forall|b: int| i < b < j ==> #[trigger] order[b] >= item,
            ensures
                match other {
                    Some(o) => i < j < n && o == order[j as int] && o < item,
                    None => j == n,
                },
            decreases n - j,
        {
            if order[j] < item {
                other = Some(order[j]);
                break ;
            }
            j += 1;
        }
        proof {
            lemma_place(texts(idents@), order@, i as int, j as int);
        }
        match other {
            Some(o) => {
                let ghost before = found@;
                let entry = WrongLocations {
                    target: idents[item].clone(),
                    expected: idents[o].clone(),
                    position: item,
                };
                found.push(entry);
                proof {
                    assert(blocks(texts(idents@), item as int, o as int));
                    assert forall|e: int| 0 <= e < found.len() implies {
                        let k = (#[trigger] found[e]).position as int;
                        &&& k < n
                        &&& occurs(order@, k, i + 1)
                        &&& found[e].target@ == idents[k]@
                        &&& exists|j: int| #[trigger]
                            blocks(texts(idents@), k, j) && found[e].expected@ == idents[j]@
                    } by {
                        if e < before.len() {
                            assert(found[e] == before[e]);
                            assert(occurs(order@, before[e].position as int, i as int));
                        } else {
                            assert(found[e].position == item);
                            assert(order[i as int] == item);
                            assert(blocks(texts(idents@), item as int, o as int) && found[e].expected@
                                == idents[o as int]@);
                        }
                    }
                    assert forall|d: int, e: int| 0 <= d < e < found.len() implies key_less(
                        texts(idents@),
                        (#[trigger] found[d]).position as int,
                        (#[trigger] found[e]).position as int,
                    ) by {
                        assert(found[d] == before[d]);
                        if e == before.len() {
                            assert(occurs(order@, before[d].position as int, i as int));
                        } else {
                            assert(found[e] == before[e]);
                        }
                    }
                    assert forall|a: int|
                        0 <= a < i + 1 && misplaced(texts(idents@), #[trigger] order[a] as int) implies named(
                        found@,
                        order[a] as int,
                    ) by {
                        if a == i {
                            assert(found[before.len() as int].position == item);
                        } else {
                            assert(named(before, order[a] as int));
                            let e = choose|e: int|
                                0 <= e < before.len() && (#[trigger] before[e]).position
                                    == order[a];
                            assert(found[e] == before[e]);
                        }
                    }
                }
            },
            None => {
                proof {
                    assert forall|e: int| 0 <= e < found.len() implies {
                        let k = (#[trigger] found[e]).position as int;
                        &&& k < n
                        &&& occurs(order@, k, i + 1)
                        &&& found[e].target@ == idents[k]@
                        &&& exists|j: int| #[trigger]
                            blocks(texts(idents@), k, j) && found[e].expected@ == idents[j]@
                    } by {
                        assert(occurs(order@, found[e].position as int, i as int));
                    }
                }
            },
        }
        i += 1;
    }
    proof {
        let names = texts(idents@);
        let plain = views(found@);
        assert forall|k: int| 0 <= k < names.len() && misplaced(names, k) implies reports(
            plain,
            k,
        ) by {
            assert(occurs(order@, k, n as int));
            assert(named(found@, k));
            let e = choose|e: int| 0 <= e < found.len() && (#[trigger] found[e]).position == k;
            assert(plain[e].position == k);
        }
        assert forall|e: int| 0 <= e < plain.len() implies {
            let k = (#[trigger] plain[e]).position as int;
            &&& k < names.len()
            &&& plain[e].target == names[k]
            &&& exists|j: int| #[trigger] blocks(names, k, j) && plain[e].expected == names[j]
        } by {
            let k = found[e].position as int;
            let j = choose|j: int| #[trigger]
                blocks(names, k, j) && found[e].expected@ == idents[j]@;
            assert(blocks(names, k, j) && plain[e].expected == names[j]);
        }
        assert forall|d: int, e: int| 0 <= d < e < plain.len() implies key_less(
            names,
            (#[trigger] plain[d]).position as int,
            (#[trigger] plain[e]).position as int,
        ) by {
            assert(key_less(names, found[d].position as int, found[e].position as int));
        }
    }
    found
}

/// What the search behind place `i` of the order tells of the item there:
/// it stopped at place `j`, the first behind `i` whose item stands before
/// the item of `i` in the list, or found none and `j` is the end.
proof fn lemma_place(names: Seq<Seq<char>>, order: Seq<usize>, i: int, j: int)
    requires
        ordered(names, order),
        0 <= i < j <= order.len(),
        forall|b: int| i < b < j ==> #[trigger] order[b] >= order[i],
        j < order.len() ==> order[j] < order[i],
    ensures
        j < order.len() ==> blocks(names, order[i] as int, order[j] as int),
        j == order.len() ==> !misplaced(names, order[i] as int),
{
    let x = order[i] as int;
    assert forall|k: int| 0 <= k < x && name_less(names[x], #[trigger] names[k]) implies exists|
        p: int,
    |
        j <= p < order.len() && #[trigger] order[p] == k by {
        assert(occurs(order, k, order.len() as int));
        let p = choose|p: int| 0 <= p < order.len() && #[trigger] order[p] == k;
        if p < i {
            assert(key_less(names, order[p] as int, order[i] as int));
            lemma_key_asymmetric(names, k, x);
        }
    }
    if j < order.len() {
        let y = order[j] as int;
        assert(key_less(names, order[i] as int, order[j] as int));
        assert forall|k: int| 0 <= k < x && name_less(names[x], #[trigger] names[k]) implies !key_less(
            names,
            k,
            y,
        ) by {
            let p = choose|p: int| j <= p < order.len() && #[trigger] order[p] == k;
            if p == j {
                lemma_key_irreflexive(names, y);
            } else {
                assert(key_less(names, order[j] as int, order[p] as int));
                lemma_key_asymmetric(names, y, k);
            }
        }
    } else {
        if misplaced(names, x) {
            let k = choose|k: int| 0 <= k < x && name_less(names[x], #[trigger] names[k]);
            let p = choose|p: int| j <= p < order.len() && #[trigger] order[p] == k;
        }
    }
}

spec fn ascending(names: Seq<Seq<char>>, places: Seq<int>) -> bool {
    forall|a: int, b: int|
        0 <= a < b < places.len() ==> key_less(names, #[trigger] places[a], #[trigger] places[b])
}

spec fn within(places: Seq<int>, others: Seq<int>) -> bool {
    forall|a: int| 0 <= a < places.len() ==> others.contains(#[trigger] places[a])
}

proof fn lemma_same_places(names: Seq<Seq<char>>, first: Seq<int>, second: Seq<int>)
    requires
        ascending(names, first),
        ascending(names, second),
        within(first, second),
        within(second, first),
    ensures
        first == second,
    decreases first.len(),
{
    if first.len() == 0 {
        if second.len() > 0 {
            assert(first.contains(second[0]));
        }
        assert(first =~= second);
    } else {
        assert(second.contains(first[0]));
        let a = choose|a: int| 0 <= a < second.len() && second[a] == first[0];
        assert(first.contains(second[0]));
        let b = choose|b: int| 0 <= b < first.len() && first[b] == second[0];
        if a > 0 {
            assert(key_less(names, second[0], second[a]));
            if b > 0 {
                assert(key_less(names, first[0], first[b]));
                lemma_key_asymmetric(names, first[0], second[0]);
            } else {
                lemma_key_irreflexive(names, first[0]);
            }
        }
        let rest = first.skip(1);
        let others = second.skip(1);
        assert forall|i: int| 0 <= i < rest.len() implies others.contains(#[trigger] rest[i]) by {
            assert(second.contains(first[i + 1]));
            let j = choose|j: int| 0 <= j < second.len() && second[j] == first[i + 1];
            assert(key_less(names, first[0], first[i + 1]));
            if j == 0 {
                lemma_key_irreflexive(names, first[0]);
            }
            assert(others[j - 1] == rest[i]);
        }
        assert forall|j: int| 0 <= j < others.len() implies rest.contains(#[trigger] others[j]) by {
            assert(first.contains(second[j + 1]));
            let i = choose|i: int| 0 <= i < first.len() && first[i] == second[j + 1];
            assert(key_less(names, second[0], second[j + 1]));
            if i == 0 {
                lemma_key_irreflexive(names, second[0]);
            }
            assert(rest[i - 1] == others[j]);
        }
        assert forall|a: int, b: int| 0 <= a < b < rest.len() implies key_less(
            names,
            #[trigger] rest[a],
            #[trigger] rest[b],
        ) by {
            assert(key_less(names, first[a + 1], first[b + 1]));
        }
        assert forall|a: int, b: int| 0 <= a < b < others.len() implies key_less(
            names,
            #[trigger] others[a],
            #[trigger] others[b],
        ) by {
            assert(key_less(names, second[a + 1], second[b + 1]));
        }
        lemma_same_places(names, rest, others);
        assert(first =~= seq![first[0]] + rest);
        assert(second =~= seq![second[0]] + others);
    }
}

/// A list of names has one list of findings only.
pub proof fn lemma_findings_unique(names: Seq<Seq<char>>, first: Seq<Finding>, second: Seq<Finding>)
    requires
        findings(names, first),
        findings(names, second),
    ensures
        first == second,
{
    let p = Seq::new(first.len(), |e: int| first[e].position as int);
    let q = Seq::new(second.len(), |e: int| second[e].position as int);
    assert forall|a: int| 0 <= a < p.len() implies q.contains(#[trigger] p[a]) by {
        let k = first[a].position as int;
        let j = choose|j: int| #[trigger] blocks(names, k, j) && first[a].expected == names[j];
        assert(name_less(names[k], names[j]));
        assert(misplaced(names, k));
        assert(reports(second, k));
        let e = choose|e: int| 0 <= e < second.len() && (#[trigger] second[e]).position == k;
        assert(q[e] == k);
    }
    assert forall|a: int| 0 <= a < q.len() implies p.contains(#[trigger] q[a]) by {
        let k = second[a].position as int;
        let j = choose|j: int| #[trigger] blocks(names, k, j) && second[a].expected == names[j];
        assert(name_less(names[k], names[j]));
        assert(misplaced(names, k));
        assert(reports(first, k));
        let e = choose|e: int| 0 <= e < first.len() && (#[trigger] first[e]).position == k;
        assert(p[e] == k);
    }
    assert(ascending(names, p)) by {
        assert forall|a: int, b: int| 0 <= a < b < p.len() implies key_less(
            names,
            #[trigger] p[a],
            #[trigger] p[b],
        ) by {
            assert(key_less(names, first[a].position as int, first[b].position as int));
        }
    }
    assert(ascending(names, q)) by {
        assert forall|a: int, b: int| 0 <= a < b < q.len() implies key_less(
            names,
            #[trigger] q[a],
            #[trigger] q[b],
        ) by {
            assert(key_less(names, second[a].position as int, second[b].position as int));
        }
    }
    lemma_same_places(names, p, q);
    assert(p.len() == first.len() && q.len() == second.len());
    assert forall|e: int| 0 <= e < first.len() implies first[e] == second[e] by {
        assert(p[e] == q[e]);
        let k = first[e].position as int;
        let i = choose|i: int| #[trigger] blocks(names, k, i) && first[e].expected == names[i];
        let j = choose|j: int| #[trigger] blocks(names, k, j) && second[e].expected == names[j];
        assert(!key_less(names, i, j));
        assert(!key_less(names, j, i));
        lemma_key_total(names, i, j);
    }
    assert(first =~= second);
}

/// Where a diagnostic points.
#[derive(Clone, Copy, Debug, PartialEq, Eq, Structural)]
pub enum Place {
    /// At the use of the attribute.
    CallSite,
    /// At the variant of the given number.
    Variant(usize),
    /// At the pattern of an arm: the number of the match expression, then
    /// that of the arm.
    Arm(usize, usize),
}

/// A message for the compiler, and where it points.
pub struct Diagnostic {
    pub message: String,
    pub at: Place,
}

/// A diagnostic as plain text.
pub struct Report {
    pub message: Seq<char>,
    pub at: Place,
}

impl View for Diagnostic {
    type V = Report;

    open spec fn view(&self) -> Report {
        Report { message: self.message@, at: self.at }
    }
}

/// A list of diagnostics as plain text.
pub open spec fn reports_of(diagnostics: Seq<Diagnostic>) -> Seq<Report> {
    diagnostics.map_values(|d: Diagnostic| d@)
}

/// The message of a finding.
pub open spec fn sort_message(f: Finding) -> Seq<char> {
    f.target + " should sort before "@ + f.expected
}

impl WrongLocations {
    /// The message that tells where the item belongs.
    pub fn message(&self) -> (text: String)
        ensures
            text@ == sort_message(self@),
    {
        let mut text = self.target.clone();
        text.append(" should sort before ");
        text.append(self.expected.as_str());
        text
    }
}

/// The pattern of a match arm, as far as its order depends on it.
pub enum ArmPattern {
    /// A path with fields in round brackets; the names of the path's
    /// segments.
    TupleStruct(Vec<String>),
    /// A single name.
    Ident(String),
    /// The wildcard `_`.
    Wild,
    /// Any other pattern.
    Other,
}

/// The parts with `sep` between them.
pub open spec fn joined(parts: Seq<Seq<char>>, sep: Seq<char>) -> Seq<char>
    decreases parts.len(),
{
    if parts.len() == 0 {
        Seq::empty()
    } else if parts.len() == 1 {
        parts[0]
    } else {
        joined(parts.drop_last(), sep) + sep + parts.last()
    }
}

/// The segments of a path with `::` between them.
pub fn path_to_str(segments: &Vec<String>) -> (text: String)
    ensures
        text@ == joined(texts(segments@), "::"@),
{
    let mut text = String::new();
    let mut i: usize = 0;
    while i < segments.len()
        invariant
            i <= segments.len(),
            text@ == joined(texts(segments@).take(i as int), "::"@),
        decreases segments.len() - i,
    {
        let ghost parts = texts(segments@).take(i + 1);
        assert(parts.drop_last() =~= texts(segments@).take(i as int));
        assert(parts.last() == segments[i as int]@);
        if i > 0 {
            text.append("::");
        }
        text.append(segments[i].as_str());
        assert(text@ =~= joined(parts, "::"@));
        i += 1;
    }
    assert(texts(segments@).take(segments.len() as int) =~= texts(segments@));
    text
}

/// The name under which an arm is sorted, if its pattern has one.
pub open spec fn arm_text(pattern: ArmPattern) -> Option<Seq<char>> {
    match pattern {
        ArmPattern::TupleStruct(segments) => Some(joined(texts(segments@), "::"@)),
        ArmPattern::Ident(name) => Some(name@),
        ArmPattern::Wild => Some("_"@),
        ArmPattern::Other => None,
    }
}

/// The name under which an arm is sorted, if its pattern has one.
pub fn arm_name(pattern: &ArmPattern) -> (name: Option<String>)
    ensures
        match name {
            Some(n) => arm_text(*pattern) == Some(n@),
            None => arm_text(*pattern) is None,
        },
{
    match pattern {
        ArmPattern::TupleStruct(segments) => Some(path_to_str(segments)),
        ArmPattern::Ident(name) => Some(name.clone()),
        ArmPattern::Wild => Some(String::from_str("_")),
        ArmPattern::Other => None,
    }
}

/// The names of the arms, as far as they have one.
pub open spec fn arm_names(arms: Seq<ArmPattern>) -> Seq<Seq<char>> {
    Seq::new(arms.len(), |i: int| arm_text(arms[i]).unwrap())
}

/// Whether `i` is the first arm with a pattern that has no name.
pub open spec fn first_unnamed(arms: Seq<ArmPattern>, i: int) -> bool {
    &&& 0 <= i < arms.len()
    &&& arms[i] is Other
    &&& forall|j: int| 0 <= j < i ==> !((#[trigger] arms[j]) is Other)
}

/// The diagnostic of a finding among the variants of an enum.
pub open spec fn variant_report(f: Finding) -> Report {
    Report { message: sort_message(f), at: Place::Variant(f.position as usize) }
}

/// The diagnostic of a finding among the arms of match expression `expr`.
pub open spec fn arm_report(expr: usize, f: Finding) -> Report {
    Report { message: sort_message(f), at: Place::Arm(expr, f.position as usize) }
}

/// Whether `reports` is what the arms of match expression `expr` give rise
/// to: one complaint about the first pattern that has no name, or else a
/// diagnostic for each arm that is out of order.
pub open spec fn arm_reports(arms: Seq<ArmPattern>, expr: usize, reports: Seq<Report>) -> bool {
    if exists|i: int| first_unnamed(arms, i) {
        exists|i: int| #[trigger]
            first_unnamed(arms, i) && reports == seq![
                Report { message: "unsupported by #[sorted]"@, at: Place::Arm(expr, i as usize) },
            ]
    } else {
        exists|found: Seq<Finding>| #[trigger]
            findings(arm_names(arms), found) && reports == found.map_values(
                |f: Finding| arm_report(expr, f),
            )
    }
}

/// Checks the arms of match expression `expr`.
pub fn check_arms(arms: &Vec<ArmPattern>, expr: usize) -> (diagnostics: Vec<Diagnostic>)
    ensures
        arm_reports(arms@, expr, reports_of(diagnostics@)),
{
    let mut names: Vec<String> = Vec::new();
    let mut i: usize = 0;
    while i < arms.len()
        invariant
            i <= arms.len(),
            names.len() == i,
            forall|j: int| 0 <= j < i ==> arm_text(#[trigger] arms[j]) == Some(names[j]@),
        decreases arms.len() - i,
    {
        match arm_name(&arms[i]) {
            Some(name) => {
                names.push(name);
            },
            None => {
                let mut diagnostics: Vec<Diagnostic> = Vec::new();
                diagnostics.push(
                    Diagnostic {
                        message: String::from_str("unsupported by #[sorted]"),
                        at: Place::Arm(expr, i),
                    },
                );
                proof {
                    assert(first_unnamed(arms@, i as int));
                    assert(reports_of(diagnostics@) =~= seq![
                        Report {
                            message: "unsupported by #[sorted]"@,
                            at: Place::Arm(expr, i as usize),
                        },
                    ]);
                }
                return diagnostics;
            },
        }
        i += 1;
    }
    let found = get_unsorted_items(&names);
    let mut diagnostics: Vec<Diagnostic> = Vec::new();
    let mut e: usize = 0;
    while e < found.len()
        invariant
            e <= found.len(),
            diagnostics.len() == e,
            forall|d: int| 0 <= d < e ==> (#[trigger] diagnostics[d])@ == arm_report(expr, found[d]@),
        decreases found.len() - e,
    {
        diagnostics.push(Diagnostic { message: found[e].message(), at: Place::Arm(expr, found[e].position) });
        e += 1;
    }
    proof {
        assert(texts(names@) =~= arm_names(arms@));
        assert(reports_of(diagnostics@) =~= views(found@).map_values(
            |f: Finding| arm_report(expr, f),
        ));
        assert(findings(arm_names(arms@), views(found@)));
        assert(!exists|i: int| first_unnamed(arms@, i));
    }
    diagnostics
}

/// An item that is marked `sorted`, as far as its order depends on it.
pub enum Item {
    /// An enum, with the names of its variants.
    Enum(Vec<String>),
    /// Any other item.
    Other,
}

/// What is given out for an item that is marked `sorted`.
pub struct Checked {
    /// The diagnostics, in the order in which they are given out.
    pub diagnostics: Vec<Diagnostic>,
    /// Whether the item itself is given out behind them.
    pub keep_item: bool,
}

/// Checks that the variants of an enum stand in the order of their names.
///
/// An item other than an enum is refused and not given out again.
pub fn sorted(item: &Item) -> (checked: Checked)
    ensures
        match *item {
            Item::Enum(variants) => checked.keep_item && exists|found: Seq<Finding>| #[trigger]
                findings(texts(variants@), found) && reports_of(checked.diagnostics@)
                    == found.map_values(|f: Finding| variant_report(f)),
            Item::Other => !checked.keep_item && reports_of(checked.diagnostics@) == seq![
                Report { message: "expected enum or match expression"@, at: Place::CallSite },
            ],
        },
{
    match item {
        Item::Enum(variants) => {
            let found = get_unsorted_items(variants);
            let mut diagnostics: Vec<Diagnostic> = Vec::new();
            let mut e: usize = 0;
            while e < found.len()
                invariant
                    e <= found.len(),
                    diagnostics.len() == e,
                    forall|d: int|
                        0 <= d < e ==> (#[trigger] diagnostics[d])@ == variant_report(found[d]@),
                decreases found.len() - e,
            {
                diagnostics.push(
                    Diagnostic {
                        message: found[e].message(),
                        at: Place::Variant(found[e].position),
                    },
                );
                e += 1;
            }
            proof {
                assert(reports_of(diagnostics@) =~= views(found@).map_values(
                    |f: Finding| variant_report(f),
                ));
                assert(findings(texts(variants@), views(found@)));
            }
            Checked { diagnostics, keep_item: true }
        },
        Item::Other => {
            let mut diagnostics: Vec<Diagnostic> = Vec::new();
            diagnostics.push(
                Diagnostic {
                    message: String::from_str("expected enum or match expression"),
                    at: Place::CallSite,
                },
            );
            proof {
                assert(reports_of(diagnostics@) =~= seq![
                    Report { message: "expected enum or match expression"@, at: Place::CallSite },
                ]);
            }
            Checked { diagnostics, keep_item: false }
        },
    }
}

/// A match expression, as far as its order depends on it.
pub struct ExprMatch {
    pub attrs: Vec<Attribute>,
    /// The patterns of the arms.
    pub arms: Vec<ArmPattern>,
}

/// Whether an attribute is named `sorted`.
pub open spec fn marks_sorted(attr: Attribute) -> bool {
    match attr.meta.name() {
        Some(name) => name@ == "sorted"@,
        None => false,
    }
}

/// Whether `i` is the first attribute named `sorted`.
pub open spec fn first_sorted(attrs: Seq<Attribute>, i: int) -> bool {
    &&& 0 <= i < attrs.len()
    &&& marks_sorted(attrs[i])
    &&& forall|j: int| 0 <= j < i ==> !marks_sorted(#[trigger] attrs[j])
}

/// The place of the first attribute named `sorted`.
pub fn sorted_attribute(attrs: &Vec<Attribute>) -> (found: Option<usize>)
    ensures
        match found {
            Some(i) => first_sorted(attrs@, i as int),
            None => forall|i: int| 0 <= i < attrs.len() ==> !marks_sorted(#[trigger] attrs[i]),
        },
{
    let mut i: usize = 0;
    while i < attrs.len()
        invariant
            i <= attrs.len(),
            forall|j: int| 0 <= j < i ==> !marks_sorted(#[trigger] attrs[j]),
        decreases attrs.len() - i,
    {
        let named = match attrs[i].meta.path() {
            Some(name) => is_word(name, "sorted"),
            None => false,
        };
        if named {
            return Some(i);
        }
        i += 1;
    }
    None
}

/// The diagnostics of the match expressions of a function, in the order in
/// which the expressions are visited.
pub struct SortedInFn(pub Vec<Diagnostic>);

impl SortedInFn {
    /// Visits match expression number `expr`.
    ///
    /// Where the expression is marked `sorted`, the mark is taken off and
    /// the arms are checked. Gives the place where the mark stood.
    pub fn visit_expr_match_mut(&mut self, expr: usize, expr_match: &mut ExprMatch) -> (removed:
        Option<usize>)
        ensures
            final(expr_match).arms == old(expr_match).arms,
            match removed {
                Some(i) => {
                    &&& first_sorted(old(expr_match).attrs@, i as int)
                    &&& final(expr_match).attrs@ == old(expr_match).attrs@.remove(i as int)
                    &&& exists|reports: Seq<Report>| #[trigger]
                        arm_reports(old(expr_match).arms@, expr, reports) && reports_of(
                            final(self).0@,
                        ) == reports_of(old(self).0@) + reports
                },
                None => {
                    &&& forall|i: int|
                        0 <= i < old(expr_match).attrs.len() ==> !marks_sorted(
                            #[trigger] old(expr_match).attrs[i],
                        )
                    &&& final(expr_match).attrs == old(expr_match).attrs
                    &&& final(self).0 == old(self).0
                },
            },
    {
        match sorted_attribute(&expr_match.attrs) {
            Some(sorted_index) => {
                expr_match.attrs.remove(sorted_index);
                let mut errors = check_arms(&expr_match.arms, expr);
                let ghost reports = reports_of(errors@);
                let ghost before = reports_of(self.0@);
                self.0.append(&mut errors);
                assert(reports_of(self.0@) =~= before + reports);
                Some(sorted_index)
            },
            None => None,
        }
    }
}

/// Whether a match expression was visited as number `expr`: a mark
/// `sorted` is taken off and the arms give rise to `reports`, or there is
/// no mark, nothing changes and there are no reports.
pub open spec fn visited(before: ExprMatch, after: ExprMatch, expr: usize, reports: Seq<Report>) -> bool {
    &&& after.arms == before.arms
    &&& if exists|i: int| first_sorted(before.attrs@, i) {
        exists|i: int| #[trigger]
            first_sorted(before.attrs@, i) && after.attrs@ == before.attrs@.remove(i)
                && arm_reports(before.arms@, expr, reports)
    } else {
        after.attrs == before.attrs && reports.len() == 0
    }
}

/// Whether the reports between the cuts `m` and `m + 1` are those of match
/// expression `m`.
pub open spec fn run_visited(
    before: Seq<ExprMatch>,
    after: Seq<ExprMatch>,
    reports: Seq<Report>,
    cuts: Seq<int>,
    m: int,
) -> bool {
    &&& 0 <= cuts[m] <= cuts[m + 1] <= reports.len()
    &&& visited(before[m], after[m], m as usize, reports.subrange(cuts[m], cuts[m + 1]))
}

/// Whether the match expressions were visited in their order and gave rise
/// to `reports`: the reports fall into one run for each expression, the
/// runs in the order of the expressions.
pub open spec fn all_visited(
    before: Seq<ExprMatch>,
    after: Seq<ExprMatch>,
    reports: Seq<Report>,
) -> bool {
    exists|cuts: Seq<int>|
        {
            &&& #[trigger] cuts.len() == before.len() + 1
            &&& after.len() == before.len()
            &&& cuts[0] == 0
            &&& cuts[before.len() as int] == reports.len()
            &&& forall|m: int|
                0 <= m < before.len() ==> #[trigger] run_visited(before, after, reports, cuts, m)
        }
}

/// Checks the match expressions of a function that are marked `sorted`.
///
/// The expressions come in the order in which they are visited. The marks
/// are taken off, and the diagnostics come in the order of the expressions.
pub fn check(matches: &mut Vec<ExprMatch>) -> (diagnostics: Vec<Diagnostic>)
    ensures
        all_visited(old(matches)@, final(matches)@, reports_of(diagnostics@)),
{
    let mut sorted_in_fn = SortedInFn(Vec::new());
    let n = matches.len();
    let mut i: usize = 0;
    let ghost mut cuts: Seq<int> = seq![0int];
    assert(reports_of(sorted_in_fn.0@).len() == 0);
    while i < n
        invariant
            i <= n,
            n == matches.len(),
            n == old(matches).len(),
            forall|j: int| i <= j < n ==> matches[j] == old(matches)[j],
            cuts.len() == i + 1,
            cuts[0] == 0,
            cuts[i as int] == reports_of(sorted_in_fn.0@).len(),
            forall|m: int|
                0 <= m < i ==> #[trigger] run_visited(
                    old(matches)@,
                    matches@,
                    reports_of(sorted_in_fn.0@),
                    cuts,
                    m,
                ),
        decreases n - i,
    {
        let ghost earlier = matches@;
        let ghost so_far = reports_of(sorted_in_fn.0@);
        let ghost old_cuts = cuts;
        sorted_in_fn.visit_expr_match_mut(i, &mut matches[i]);
        proof {
            let all = reports_of(sorted_in_fn.0@);
            let k = so_far.len() as int;
            assert(all.take(k) =~= so_far);
            cuts = cuts.push(all.len() as int);
            assert(visited(
                old(matches)[i as int],
                matches[i as int],
                i,
                all.subrange(k, all.len() as int),
            )) by {
                if exists|a: int| first_sorted(old(matches)[i as int].attrs@, a) {
                    let reports = choose|reports: Seq<Report>| #[trigger]
                        arm_reports(earlier[i as int].arms@, i, reports) && all == so_far
                            + reports;
                    assert(all.subrange(k, all.len() as int) =~= reports);
                } else {
                    assert(all.subrange(k, all.len() as int) =~= Seq::<Report>::empty());
                }
            }
            assert forall|m: int| 0 <= m < i + 1 implies #[trigger] run_visited(
                old(matches)@,
                matches@,
                all,
                cuts,
                m,
            ) by {
                if m < i {
                    assert(run_visited(old(matches)@, earlier, so_far, old_cuts, m));
                    assert(cuts[m] == old_cuts[m] && cuts[m + 1] == old_cuts[m + 1]);
                    assert(all.subrange(cuts[m], cuts[m + 1]) =~= so_far.subrange(
                        old_cuts[m],
                        old_cuts[m + 1],
                    ));
                    assert(matches[m] == earlier[m]);
                }
            }
        }
        i += 1;
    }
    sorted_in_fn.0
}

} // verus!
