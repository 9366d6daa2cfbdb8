//! What the RPC module's text depends on.
use vstd::prelude::*;

use super::rpc::{
    ServiceDescription, TypeDecl, lex_le, insert_by, modules_prefix, modules_text, plugin_header, rpc_text,
    service_le, service_line, service_order, sorted_by, type_block, type_le, type_order, types_text,
};

verus! {

/// A character read as a `u32` keeps its code point.
proof fn lemma_char_as_u32(c: char)
    ensures
        (c as u32) as int == c as int,
{
}

/// Every string comes before or after every other.
pub proof fn lemma_lex_total(a: Seq<char>, b: Seq<char>)
    ensures
        lex_le(a, b) || lex_le(b, a),
    decreases a.len(),
{
    if a.len() > 0 && b.len() > 0 && (a[0] as u32) == (b[0] as u32) {
        lemma_lex_total(a.drop_first(), b.drop_first());
    }
}

/// Two strings that each come before the other are the same.
pub proof fn lemma_lex_antisymmetric(a: Seq<char>, b: Seq<char>)
    requires
        lex_le(a, b),
        lex_le(b, a),
    ensures
        a == b,
    decreases a.len(),
{
    if a.len() > 0 {
        lemma_lex_antisymmetric(a.drop_first(), b.drop_first());
        lemma_char_as_u32(a[0]);
        lemma_char_as_u32(b[0]);
        assert(a[0] == b[0]);
        assert(a =~= seq![a[0]] + a.drop_first());
        assert(b =~= seq![b[0]] + b.drop_first());
    } else {
        assert(b.len() == 0);
        assert(a =~= b);
    }
}

/// The order of strings is transitive.
pub proof fn lemma_lex_transitive(a: Seq<char>, b: Seq<char>, c: Seq<char>)
    requires
        lex_le(a, b),
        lex_le(b, c),
    ensures
        lex_le(a, c),
    decreases a.len(),
{
    if a.len() > 0 && b.len() > 0 && c.len() > 0 && (a[0] as u32) == (b[0] as u32) && (b[0] as u32) == (c[0]
        as u32) {
        lemma_lex_transitive(a.drop_first(), b.drop_first(), c.drop_first());
    }
}

/// `le` orders any two positions below `n` one way or the other.
pub open spec fn le_total(le: spec_fn(int, int) -> bool, n: int) -> bool {
    forall|a: int, b: int| 0 <= a < n && 0 <= b < n ==> #[trigger] le(a, b) || #[trigger] le(b, a)
}

/// `le` is transitive on the positions below `n`.
pub open spec fn le_transitive(le: spec_fn(int, int) -> bool, n: int) -> bool {
    forall|a: int, b: int, c: int|
        0 <= a < n && 0 <= b < n && 0 <= c < n && #[trigger] le(a, b) && #[trigger] le(b, c) ==> le(a, c)
}

/// `s` is in the order `le`.
pub open spec fn sorted_positions(le: spec_fn(int, int) -> bool, s: Seq<int>) -> bool {
    forall|x: int, y: int| 0 <= x < y < s.len() ==> le(#[trigger] s[x], #[trigger] s[y])
}

/// No entry of `s` occurs twice.
pub open spec fn no_repeats<T>(s: Seq<T>) -> bool {
    forall|x: int, y: int| 0 <= x < y < s.len() ==> #[trigger] s[x] != #[trigger] s[y]
}

/// Inserting a new position into a sorted list of positions keeps it
/// sorted, adds that position and nothing else.
proof fn lemma_insert_sorted(le: spec_fn(int, int) -> bool, n: int, s: Seq<int>, i: int)
    requires
        le_total(le, n),
        le_transitive(le, n),
        forall|k: int| 0 <= k < s.len() ==> 0 <= #[trigger] s[k] < n,
        0 <= i < n,
        sorted_positions(le, s),
        no_repeats(s),
        !s.contains(i),
    ensures
        insert_by(le, s, i).len() == s.len() + 1,
        sorted_positions(le, insert_by(le, s, i)),
        no_repeats(insert_by(le, s, i)),
        forall|x: int| #[trigger] insert_by(le, s, i).contains(x) <==> s.contains(x) || x == i,
        forall|k: int| 0 <= k < insert_by(le, s, i).len() ==> 0 <= #[trigger] insert_by(le, s, i)[k] < n,
    decreases s.len(),
{
    let r = insert_by(le, s, i);
    if s.len() == 0 {
        assert(r =~= seq![i]);
        assert forall|x: int| #[trigger] r.contains(x) <==> s.contains(x) || x == i by {
            if x == i {
                assert(r[0] == x);
            }
        }
    } else if le(s.last(), i) {
        assert(r == s.push(i));
        assert forall|x: int, y: int| 0 <= x < y < r.len() implies le(#[trigger] r[x], #[trigger] r[y]) by {
            if y == s.len() {
                if x < s.len() - 1 {
                    assert(le(s[x], s[s.len() - 1]));
                }
            } else {
                assert(r[x] == s[x] && r[y] == s[y]);
            }
        }
        assert forall|x: int, y: int| 0 <= x < y < r.len() implies #[trigger] r[x] != #[trigger] r[y] by {
            if y == s.len() {
                assert(s.contains(s[x]));
            }
        }
        assert forall|x: int| #[trigger] r.contains(x) <==> s.contains(x) || x == i by {
            if r.contains(x) {
                let k = choose|k: int| 0 <= k < r.len() && r[k] == x;
                if k < s.len() {
                    assert(s[k] == x);
                }
            }
            if s.contains(x) {
                let k = choose|k: int| 0 <= k < s.len() && s[k] == x;
                assert(r[k] == x);
            }
            if x == i {
                assert(r[s.len() as int] == x);
            }
        }
    } else {
        let rest = s.drop_last();
        let last = s.last();
        assert forall|k: int| 0 <= k < rest.len() implies 0 <= #[trigger] rest[k] < n by {
            assert(rest[k] == s[k]);
        }
        assert forall|x: int, y: int| 0 <= x < y < rest.len() implies le(#[trigger] rest[x], #[trigger] rest[y]) by {
            assert(rest[x] == s[x] && rest[y] == s[y]);
        }
        assert forall|x: int, y: int| 0 <= x < y < rest.len() implies #[trigger] rest[x] != #[trigger] rest[y] by {
            assert(rest[x] == s[x] && rest[y] == s[y]);
        }
        assert(!rest.contains(i)) by {
            if rest.contains(i) {
                let k = choose|k: int| 0 <= k < rest.len() && rest[k] == i;
                assert(s[k] == i);
            }
        }
        lemma_insert_sorted(le, n, rest, i);
        let r1 = insert_by(le, rest, i);
        assert(r == r1.push(last));
        assert(le(i, last));
        assert forall|x: int, y: int| 0 <= x < y < r.len() implies le(#[trigger] r[x], #[trigger] r[y]) by {
            if y == r1.len() {
                let v = r1[x];
                assert(r1.contains(v));
                if v == i {
                } else {
                    let k = choose|k: int| 0 <= k < rest.len() && rest[k] == v;
                    assert(s[k] == v);
                    assert(le(s[k], s[s.len() - 1]));
                }
            } else {
                assert(r[x] == r1[x] && r[y] == r1[y]);
            }
        }
        assert(!r1.contains(last)) by {
            if r1.contains(last) {
                if last != i {
                    let k = choose|k: int| 0 <= k < rest.len() && rest[k] == last;
                    assert(s[k] == s[s.len() - 1]);
                }
                assert(s.contains(last));
            }
        }
        assert forall|x: int, y: int| 0 <= x < y < r.len() implies #[trigger] r[x] != #[trigger] r[y] by {
            if y == r1.len() {
                assert(r1.contains(r1[x]));
            } else {
                assert(r[x] == r1[x] && r[y] == r1[y]);
            }
        }
        assert forall|x: int| #[trigger] r.contains(x) <==> s.contains(x) || x == i by {
            if r.contains(x) {
                let k = choose|k: int| 0 <= k < r.len() && r[k] == x;
                if k < r1.len() {
                    assert(r1.contains(x));
                    if x != i {
                        let j = choose|j: int| 0 <= j < rest.len() && rest[j] == x;
                        assert(s[j] == x);
                    }
                } else {
                    assert(s[s.len() - 1] == x);
                }
            }
            if s.contains(x) {
                let k = choose|k: int| 0 <= k < s.len() && s[k] == x;
                if k < rest.len() {
                    assert(rest[k] == x);
                    assert(rest.contains(x));
                    assert(r1.contains(x));
                    let j = choose|j: int| 0 <= j < r1.len() && r1[j] == x;
                    assert(r[j] == x);
                } else {
                    assert(r[r1.len() as int] == x);
                }
            }
            if x == i {
                assert(r1.contains(i));
                let j = choose|j: int| 0 <= j < r1.len() && r1[j] == i;
                assert(r[j] == x);
            }
        }
        assert forall|k: int| 0 <= k < r.len() implies 0 <= #[trigger] r[k] < n by {
            if k < r1.len() {
                assert(r[k] == r1[k]);
            }
        }
    }
}

/// Sorting the positions below `m` by insertion gives each of them once, in
/// the order `le`.
pub proof fn lemma_sorted_by(le: spec_fn(int, int) -> bool, n: int, m: nat)
    requires
        le_total(le, n),
        le_transitive(le, n),
        m <= n,
    ensures
        sorted_by(le, m).len() == m,
        sorted_positions(le, sorted_by(le, m)),
        no_repeats(sorted_by(le, m)),
        forall|x: int| #[trigger] sorted_by(le, m).contains(x) <==> 0 <= x < m,
        forall|k: int| 0 <= k < sorted_by(le, m).len() ==> 0 <= #[trigger] sorted_by(le, m)[k] < n,
    decreases m,
{
    if m == 0 {
        assert forall|x: int| #[trigger] sorted_by(le, m).contains(x) <==> 0 <= x < m by {}
    } else {
        let prev = (m - 1) as nat;
        lemma_sorted_by(le, n, prev);
        assert(!sorted_by(le, prev).contains(m - 1));
        lemma_insert_sorted(le, n, sorted_by(le, prev), m - 1);
    }
}

/// `s` is in the order `ord`, with no entry twice.
pub open spec fn strictly_sorted<T>(ord: spec_fn(T, T) -> bool, s: Seq<T>) -> bool {
    forall|x: int, y: int| 0 <= x < y < s.len() ==> ord(#[trigger] s[x], #[trigger] s[y]) && s[x] != s[y]
}

/// Two sequences in the same strict order that hold the same entries are the
/// same sequence.
proof fn lemma_sorted_unique<T>(ord: spec_fn(T, T) -> bool, a: Seq<T>, b: Seq<T>)
    requires
        strictly_sorted(ord, a),
        strictly_sorted(ord, b),
        forall|x: T| #![trigger a.contains(x)] #![trigger b.contains(x)] a.contains(x) <==> b.contains(x),
        forall|x: T, y: T| a.contains(x) && a.contains(y) && #[trigger] ord(x, y) && #[trigger] ord(y, x) ==> x == y,
    ensures
        a == b,
    decreases a.len(),
{
    if a.len() == 0 {
        if b.len() > 0 {
            assert(b.contains(b[0]));
            assert(a.contains(b[0]));
        }
        assert(a =~= b);
    } else {
        assert(a.contains(a[0]));
        assert(b.contains(a[0]));
        let j = choose|j: int| 0 <= j < b.len() && b[j] == a[0];
        assert(b.contains(b[0]));
        assert(a.contains(b[0]));
        let k = choose|k: int| 0 <= k < a.len() && a[k] == b[0];
        if j > 0 {
            assert(ord(b[0], b[j]) && b[0] != b[j]);
            if k > 0 {
                assert(ord(a[0], a[k]));
                assert(a.contains(b[0]));
            } else {
                assert(a[0] == b[0]);
            }
        }
        assert(a[0] == b[0]);
        let a1 = a.drop_first();
        let b1 = b.drop_first();
        assert forall|x: T| #![trigger a1.contains(x)] #![trigger b1.contains(x)] a1.contains(x) <==> b1.contains(x) by {
            if a1.contains(x) {
                let m = choose|m: int| 0 <= m < a1.len() && a1[m] == x;
                assert(a[m + 1] == x);
                assert(a[0] != a[m + 1]);
                assert(a.contains(x));
                assert(b.contains(x));
                let t = choose|t: int| 0 <= t < b.len() && b[t] == x;
                assert(t != 0);
                assert(b1[t - 1] == x);
            }
            if b1.contains(x) {
                let m = choose|m: int| 0 <= m < b1.len() && b1[m] == x;
                assert(b[m + 1] == x);
                assert(b[0] != b[m + 1]);
                assert(b.contains(x));
                assert(a.contains(x));
                let t = choose|t: int| 0 <= t < a.len() && a[t] == x;
                assert(t != 0);
                assert(a1[t - 1] == x);
            }
        }
        assert forall|x: int, y: int| 0 <= x < y < a1.len() implies ord(#[trigger] a1[x], #[trigger] a1[y])
            && a1[x] != a1[y] by {
            assert(a1[x] == a[x + 1] && a1[y] == a[y + 1]);
        }
        assert forall|x: int, y: int| 0 <= x < y < b1.len() implies ord(#[trigger] b1[x], #[trigger] b1[y])
            && b1[x] != b1[y] by {
            assert(b1[x] == b[x + 1] && b1[y] == b[y + 1]);
        }
        assert forall|x: T, y: T| a1.contains(x) && a1.contains(y) && #[trigger] ord(x, y) && #[trigger] ord(y, x) implies x
            == y by {
            let m = choose|m: int| 0 <= m < a1.len() && a1[m] == x;
            let t = choose|t: int| 0 <= t < a1.len() && a1[t] == y;
            assert(a[m + 1] == x && a[t + 1] == y);
            assert(a.contains(x) && a.contains(y));
        }
        lemma_sorted_unique(ord, a1, b1);
        assert(a =~= seq![a[0]] + a1);
        assert(b =~= seq![b[0]] + b1);
    }
}

/// The items of `items` at the positions `order`.
pub open spec fn items_at<T>(items: Seq<T>, order: Seq<int>) -> Seq<T> {
    order.map_values(|k: int| items[k])
}

/// `ord` orders any two items of `items` one way or the other, is
/// transitive on them, and orders two items both ways only if they are the
/// same item.
pub open spec fn orders_items<T>(ord: spec_fn(T, T) -> bool, items: Seq<T>) -> bool {
    &&& forall|a: int, b: int|
        0 <= a < items.len() && 0 <= b < items.len() ==> #[trigger] ord(items[a], items[b]) || #[trigger] ord(
            items[b],
            items[a],
        )
    &&& forall|a: int, b: int, c: int|
        0 <= a < items.len() && 0 <= b < items.len() && 0 <= c < items.len() && #[trigger] ord(items[a], items[b])
            && #[trigger] ord(items[b], items[c]) ==> ord(items[a], items[c])
    &&& forall|a: int, b: int|
        0 <= a < items.len() && 0 <= b < items.len() && #[trigger] ord(items[a], items[b]) && #[trigger] ord(
            items[b],
            items[a],
        ) ==> a == b
}

/// Sorting the positions of `items` by the order of their items lists every
/// item once, in strict order.
proof fn lemma_sorted_items<T>(ord: spec_fn(T, T) -> bool, items: Seq<T>, le: spec_fn(int, int) -> bool)
    requires
        forall|a: int, b: int| 0 <= a < items.len() && 0 <= b < items.len() ==> #[trigger] le(a, b) == ord(items[a], items[b]),
        orders_items(ord, items),
    ensures
        strictly_sorted(ord, items_at(items, sorted_by(le, items.len()))),
        forall|t: T| #[trigger] items_at(items, sorted_by(le, items.len())).contains(t) <==> items.contains(t),
{
    let n = items.len() as int;
    assert(le_total(le, n)) by {
        assert forall|a: int, b: int| 0 <= a < n && 0 <= b < n implies #[trigger] le(a, b) || #[trigger] le(b, a) by {
            assert(ord(items[a], items[b]) || ord(items[b], items[a]));
        }
    }
    assert(le_transitive(le, n)) by {
        assert forall|a: int, b: int, c: int|
            0 <= a < n && 0 <= b < n && 0 <= c < n && #[trigger] le(a, b) && #[trigger] le(b, c) implies le(a, c) by {
            assert(ord(items[a], items[b]) && ord(items[b], items[c]));
        }
    }
    lemma_sorted_by(le, n, items.len());
    let s = sorted_by(le, items.len());
    let r = items_at(items, s);
    assert forall|x: int, y: int| 0 <= x < y < r.len() implies ord(#[trigger] r[x], #[trigger] r[y]) && r[x] != r[y] by {
        assert(le(s[x], s[y]));
        assert(s[x] != s[y]);
        if r[x] == r[y] {
            assert(ord(items[s[y]], items[s[x]]));
        }
    }
    assert forall|t: T| #[trigger] r.contains(t) <==> items.contains(t) by {
        if r.contains(t) {
            let k = choose|k: int| 0 <= k < r.len() && r[k] == t;
            assert(items[s[k]] == t);
        }
        if items.contains(t) {
            let j = choose|j: int| 0 <= j < items.len() && items[j] == t;
            assert(s.contains(j));
            let k = choose|k: int| 0 <= k < s.len() && s[k] == j;
            assert(r[k] == t);
        }
    }
}

/// Two lists holding the same items, each ordered by `ord`, sort to the
/// same sequence of items.
proof fn lemma_same_items_same_order<T>(
    ord: spec_fn(T, T) -> bool,
    items1: Seq<T>,
    le1: spec_fn(int, int) -> bool,
    items2: Seq<T>,
    le2: spec_fn(int, int) -> bool,
)
    requires
        forall|a: int, b: int| 0 <= a < items1.len() && 0 <= b < items1.len() ==> #[trigger] le1(a, b) == ord(items1[a], items1[b]),
        forall|a: int, b: int| 0 <= a < items2.len() && 0 <= b < items2.len() ==> #[trigger] le2(a, b) == ord(items2[a], items2[b]),
        orders_items(ord, items1),
        orders_items(ord, items2),
        forall|t: T| #![trigger items1.contains(t)] #![trigger items2.contains(t)] items1.contains(t) <==> items2.contains(t),
    ensures
        items_at(items1, sorted_by(le1, items1.len())) == items_at(items2, sorted_by(le2, items2.len())),
{
    lemma_sorted_items(ord, items1, le1);
    lemma_sorted_items(ord, items2, le2);
    let a = items_at(items1, sorted_by(le1, items1.len()));
    let b = items_at(items2, sorted_by(le2, items2.len()));
    assert forall|t: T| #![trigger a.contains(t)] #![trigger b.contains(t)] a.contains(t) <==> b.contains(t) by {
        if a.contains(t) {
            assert(items1.contains(t));
        }
        if b.contains(t) {
            assert(items2.contains(t));
        }
    }
    assert forall|x: T, y: T| a.contains(x) && a.contains(y) && #[trigger] ord(x, y) && #[trigger] ord(y, x) implies x == y by {
        assert(items1.contains(x) && items1.contains(y));
        let i = choose|i: int| 0 <= i < items1.len() && items1[i] == x;
        let j = choose|j: int| 0 <= j < items1.len() && items1[j] == y;
        assert(ord(items1[i], items1[j]) && ord(items1[j], items1[i]));
    }
    lemma_sorted_unique(ord, a, b);
}

/// No two types share a name.
pub open spec fn distinct_type_names(types: Seq<TypeDecl>) -> bool {
    forall|i: int, j: int|
        0 <= i < types.len() && 0 <= j < types.len() && i != j ==> #[trigger] types[i].name@ != #[trigger] types[j].name@
}

/// No two services share a plugin and an id.
pub open spec fn distinct_service_keys(services: Seq<ServiceDescription>) -> bool {
    forall|i: int, j: int|
        0 <= i < services.len() && 0 <= j < services.len() && i != j ==> (#[trigger] services[i].plugin_id@,
        services[i].id@) != (#[trigger] services[j].plugin_id@, services[j].id@)
}

/// The order of types by name.
pub open spec fn name_ord() -> spec_fn(TypeDecl, TypeDecl) -> bool {
    |x: TypeDecl, y: TypeDecl| lex_le(x.name@, y.name@)
}

/// The order of services by plugin, then id.
pub open spec fn service_ord() -> spec_fn(ServiceDescription, ServiceDescription) -> bool {
    |x: ServiceDescription, y: ServiceDescription|
        if x.plugin_id@ == y.plugin_id@ {
            lex_le(x.id@, y.id@)
        } else {
            lex_le(x.plugin_id@, y.plugin_id@)
        }
}

/// The blocks of the types `ts`, in turn, with a blank line between two.
pub open spec fn blocks_text(ts: Seq<TypeDecl>) -> Seq<char>
    decreases ts.len(),
{
    if ts.len() == 0 {
        Seq::empty()
    } else if ts.len() == 1 {
        type_block(ts[0])
    } else {
        blocks_text(ts.drop_last()) + "\n\n"@ + type_block(ts.last())
    }
}

proof fn lemma_types_text_items(types: Seq<TypeDecl>, order: Seq<int>)
    ensures
        types_text(types, order) == blocks_text(items_at(types, order)),
    decreases order.len(),
{
    if order.len() > 1 {
        lemma_types_text_items(types, order.drop_last());
        assert(items_at(types, order.drop_last()) =~= items_at(types, order).drop_last());
    }
}

/// The methods of the services `ss`, in turn, each plugin's in an object of
/// its own, the last object left open.
pub open spec fn methods_text(ss: Seq<ServiceDescription>) -> Seq<char>
    decreases ss.len(),
{
    if ss.len() == 0 {
        Seq::empty()
    } else {
        let s = ss.last();
        let before = ss.drop_last();
        let opening = if before.len() == 0 {
            plugin_header(s.plugin_id@)
        } else if before.last().plugin_id@ == s.plugin_id@ {
            Seq::empty()
        } else {
            "};\n"@ + plugin_header(s.plugin_id@)
        };
        methods_text(before) + opening + service_line(s)
    }
}

proof fn lemma_modules_items(services: Seq<ServiceDescription>, order: Seq<int>)
    ensures
        modules_prefix(services, order) == methods_text(items_at(services, order)),
    decreases order.len(),
{
    if order.len() > 0 {
        lemma_modules_items(services, order.drop_last());
        assert(items_at(services, order.drop_last()) =~= items_at(services, order).drop_last());
    }
}

proof fn lemma_types_ordered(types: Seq<TypeDecl>)
    requires
        distinct_type_names(types),
    ensures
        orders_items(name_ord(), types),
        forall|a: int, b: int|
            0 <= a < types.len() && 0 <= b < types.len() ==> #[trigger] type_le(types)(a, b) == name_ord()(types[a], types[b]),
{
    let ord = name_ord();
    assert forall|a: int, b: int|
        0 <= a < types.len() && 0 <= b < types.len() implies #[trigger] ord(types[a], types[b]) || #[trigger] ord(
            types[b],
            types[a],
        ) by {
        lemma_lex_total(types[a].name@, types[b].name@);
    }
    assert forall|a: int, b: int, c: int|
        0 <= a < types.len() && 0 <= b < types.len() && 0 <= c < types.len() && #[trigger] ord(types[a], types[b])
            && #[trigger] ord(types[b], types[c]) implies ord(types[a], types[c]) by {
        lemma_lex_transitive(types[a].name@, types[b].name@, types[c].name@);
    }
    assert forall|a: int, b: int|
        0 <= a < types.len() && 0 <= b < types.len() && #[trigger] ord(types[a], types[b]) && #[trigger] ord(
            types[b],
            types[a],
        ) implies a == b by {
        lemma_lex_antisymmetric(types[a].name@, types[b].name@);
    }
}

proof fn lemma_services_ordered(services: Seq<ServiceDescription>)
    requires
        distinct_service_keys(services),
    ensures
        orders_items(service_ord(), services),
        forall|a: int, b: int|
            0 <= a < services.len() && 0 <= b < services.len() ==> #[trigger] service_le(services)(a, b)
                == service_ord()(services[a], services[b]),
{
    let ord = service_ord();
    assert forall|a: int, b: int|
        0 <= a < services.len() && 0 <= b < services.len() implies #[trigger] ord(services[a], services[b])
            || #[trigger] ord(services[b], services[a]) by {
        lemma_lex_total(services[a].id@, services[b].id@);
        lemma_lex_total(services[a].plugin_id@, services[b].plugin_id@);
    }
    assert forall|a: int, b: int, c: int|
        0 <= a < services.len() && 0 <= b < services.len() && 0 <= c < services.len() && #[trigger] ord(
            services[a],
            services[b],
        ) && #[trigger] ord(services[b], services[c]) implies ord(services[a], services[c]) by {
        let (pa, pb, pc) = (services[a].plugin_id@, services[b].plugin_id@, services[c].plugin_id@);
        if pa == pb && pb == pc {
            lemma_lex_transitive(services[a].id@, services[b].id@, services[c].id@);
        } else if pa != pb && pb != pc {
            lemma_lex_transitive(pa, pb, pc);
            if pa == pc {
                lemma_lex_antisymmetric(pa, pb);
            }
        }
    }
    assert forall|a: int, b: int|
        0 <= a < services.len() && 0 <= b < services.len() && #[trigger] ord(services[a], services[b])
            && #[trigger] ord(services[b], services[a]) implies a == b by {
        if services[a].plugin_id@ == services[b].plugin_id@ {
            lemma_lex_antisymmetric(services[a].id@, services[b].id@);
        } else {
            lemma_lex_antisymmetric(services[a].plugin_id@, services[b].plugin_id@);
        }
    }
}

/// The module's text depends only on which types and services are exported,
/// not on the order in which they were registered: for types with distinct
/// names and services with distinct plugin and id, lists that hold the same
/// types and the same services give the same text.
pub proof fn law_rpc_text_order_free(
    types1: Seq<TypeDecl>,
    types2: Seq<TypeDecl>,
    services1: Seq<ServiceDescription>,
    services2: Seq<ServiceDescription>,
)
    requires
        distinct_type_names(types1),
        distinct_type_names(types2),
        forall|t: TypeDecl| #![trigger types1.contains(t)] #![trigger types2.contains(t)] types1.contains(t) <==> types2.contains(t),
        distinct_service_keys(services1),
        distinct_service_keys(services2),
        forall|s: ServiceDescription|
            #![trigger services1.contains(s)]
            #![trigger services2.contains(s)]
            services1.contains(s) <==> services2.contains(s),
    ensures
        rpc_text(types1, services1) == rpc_text(types2, services2),
{
    lemma_types_ordered(types1);
    lemma_types_ordered(types2);
    lemma_same_items_same_order(name_ord(), types1, type_le(types1), types2, type_le(types2));
    lemma_types_text_items(types1, type_order(types1));
    lemma_types_text_items(types2, type_order(types2));
    lemma_services_ordered(services1);
    lemma_services_ordered(services2);
    lemma_same_items_same_order(service_ord(), services1, service_le(services1), services2, service_le(services2));
    lemma_modules_items(services1, service_order(services1));
    lemma_modules_items(services2, service_order(services2));
    assert(service_order(services1).len() == services1.len()) by {
        lemma_sorted_len(service_le(services1), services1.len());
    }
    assert(service_order(services2).len() == services2.len()) by {
        lemma_sorted_len(service_le(services2), services2.len());
    }
    let ss1 = items_at(services1, service_order(services1));
    assert(ss1.len() == services1.len());
    assert(modules_text(services1, service_order(services1)) == modules_text(services2, service_order(services2)));
}

/// Sorting keeps the number of positions.
proof fn lemma_sorted_len(le: spec_fn(int, int) -> bool, m: nat)
    ensures
        sorted_by(le, m).len() == m,
    decreases m,
{
    if m > 0 {
        lemma_sorted_len(le, (m - 1) as nat);
        lemma_insert_len(le, sorted_by(le, (m - 1) as nat), m - 1);
    }
}

/// Inserting adds one position.
proof fn lemma_insert_len(le: spec_fn(int, int) -> bool, s: Seq<int>, i: int)
    ensures
        insert_by(le, s, i).len() == s.len() + 1,
    decreases s.len(),
{
    if s.len() > 0 {
        lemma_insert_len(le, s.drop_last(), i);
    }
}

} // verus!
