//! The semantic data-plane comparator: a JSON-tree walk in which object
//! key order is irrelevant, array order matters, and identity/timestamp
//! values are normalized away. Every other divergence is reported as one
//! line carrying its JSON path.

use vstd::prelude::*;
use crate::json::{
    as_str, entry_value, find_key, has_key, key_index, keys_distinct, lemma_key_index_distinct,
    lemma_key_index_range,
    scalar_eq, value_as_str, values_scalar_eq, JsonValue,
};
use crate::text::{
    ascii_lower, chars_eq, chars_of, concat, dec, decimal, ends_with, is_suffix, one, string_of,
    to_ascii_lower, utf8_len, utf8_len_at_least,
};

verus! {

/// Whether a key names an identity field (its values are generated by the
/// server and normalized away); `valid` is the one excluded collision.
pub open spec fn is_identity_key_spec(key: Seq<char>) -> bool {
    let l = ascii_lower(key);
    ||| l == "id"@
    ||| is_suffix("_id"@, l)
    ||| is_suffix("_by"@, l)
    ||| (is_suffix("id"@, l) && l.len() > 2 && l != "valid"@)
}

/// Whether a key names a timestamp field.
pub open spec fn is_timestamp_key_spec(key: Seq<char>) -> bool {
    let l = ascii_lower(key);
    ||| l == "created_at"@
    ||| l == "updated_at"@
    ||| l == "deleted_at"@
    ||| l == "create_time"@
    ||| l == "update_time"@
    ||| is_suffix("_at"@, l)
}

/// An ASCII hexadecimal digit.
pub open spec fn is_hex_char(c: char) -> bool {
    ('0' <= c && c <= '9') || ('a' <= c && c <= 'f') || ('A' <= c && c <= 'F')
}

/// An ASCII decimal digit.
pub open spec fn is_digit_char(c: char) -> bool {
    '0' <= c && c <= '9'
}

/// The textual shape of a UUID: 36 characters, dashes at 8, 13, 18 and
/// 23, hexadecimal digits elsewhere.
pub open spec fn looks_like_uuid_spec(s: Seq<char>) -> bool {
    &&& s.len() == 36
    &&& forall|i: int|
        0 <= i < 36 ==> if i == 8 || i == 13 || i == 18 || i == 23 {
            #[trigger] s[i] == '-'
        } else {
            is_hex_char(s[i])
        }
}

/// The textual shape of a timestamp: at least 19 bytes of UTF-8, four
/// leading digits, then a dash.
pub open spec fn looks_like_timestamp_spec(s: Seq<char>) -> bool {
    &&& utf8_len(s) >= 19
    &&& s.len() >= 5
    &&& is_digit_char(s[0]) && is_digit_char(s[1]) && is_digit_char(s[2]) && is_digit_char(s[3])
    &&& s[4] == '-'
}

/// Scalar comparison with generated-value normalization: two UUID-shaped
/// strings or two timestamp-shaped strings agree whatever they hold.
pub open spec fn normalized_scalar_spec(a: JsonValue, b: JsonValue) -> bool {
    match (as_str(a), as_str(b)) {
        (Some(x), Some(y)) => if looks_like_uuid_spec(x) && looks_like_uuid_spec(y) {
            true
        } else if looks_like_timestamp_spec(x) && looks_like_timestamp_spec(y) {
            true
        } else {
            scalar_eq(a, b)
        },
        _ => scalar_eq(a, b),
    }
}

/// The number of direct children of a value.
pub open spec fn child_count(v: JsonValue) -> nat {
    match v {
        JsonValue::Array(items) => items.len() as nat,
        JsonValue::Object(entries) => entries.len() as nat,
        _ => 0,
    }
}

/// `path.key`
pub open spec fn key_path(path: Seq<char>, key: Seq<char>) -> Seq<char> {
    path + seq!['.'] + key
}

/// `path[i]`
pub open spec fn index_path(path: Seq<char>, i: nat) -> Seq<char> {
    path + seq!['['] + dec(i) + seq![']']
}

/// One line per entry of `from` (in order) whose key `other` lacks.
pub open spec fn missing_lines(
    from: Seq<(String, JsonValue)>,
    other: Seq<(String, JsonValue)>,
    path: Seq<char>,
    note: Seq<char>,
) -> Seq<Seq<char>>
    decreases from.len(),
{
    if from.len() == 0 {
        seq![]
    } else {
        let rest = missing_lines(from.drop_last(), other, path, note);
        let k = from.last().0@;
        if has_key(other, k) {
            rest
        } else {
            rest.push(key_path(path, k) + note)
        }
    }
}

/// The divergence lines of the whole walk over `a` (the reference side)
/// and `b` (the side under test), rooted at `path`.
pub open spec fn diffs_of(a: JsonValue, b: JsonValue, path: Seq<char>) -> Seq<Seq<char>>
    decreases a, child_count(a) + 1,
{
    match (a, b) {
        (JsonValue::Object(ao), JsonValue::Object(bo)) => missing_lines(
            ao@,
            bo@,
            path,
            ": missing on rust side"@,
        ) + missing_lines(bo@, ao@, path, ": missing on go side"@) + entry_diffs(
            a,
            bo@,
            path,
            ao.len() as nat,
        ),
        (JsonValue::Array(aa), JsonValue::Array(ba)) => (if aa.len() != ba.len() {
            seq![path + ": array length "@ + dec(aa.len() as nat) + " vs "@ + dec(ba.len() as nat)]
        } else {
            seq![]
        }) + item_diffs(a, ba@, path, if aa.len() < ba.len() {
            aa.len() as nat
        } else {
            ba.len() as nat
        }),
        _ => if normalized_scalar_spec(a, b) {
            seq![]
        } else {
            seq![path + ": value diverged"@]
        },
    }
}

/// The lines of the walk into the first `n` entries of object `a`
/// against the entries `bo` of the other side.
pub open spec fn entry_diffs(
    a: JsonValue,
    bo: Seq<(String, JsonValue)>,
    path: Seq<char>,
    n: nat,
) -> Seq<Seq<char>>
    decreases a, n,
{
    match a {
        JsonValue::Object(ao) => if n == 0 || n > ao.len() {
            seq![]
        } else {
            let rest = entry_diffs(a, bo, path, (n - 1) as nat);
            let k = ao@[n - 1].0@;
            if !has_key(bo, k) || is_identity_key_spec(k) || is_timestamp_key_spec(k) {
                rest
            } else {
                rest + diffs_of(ao@[n - 1].1, entry_value(bo, k), key_path(path, k))
            }
        },
        _ => seq![],
    }
}

/// The lines of the walk into the first `n` items of array `a` against
/// the items `ba` of the other side.
pub open spec fn item_diffs(a: JsonValue, ba: Seq<JsonValue>, path: Seq<char>, n: nat) -> Seq<
    Seq<char>,
>
    decreases a, n,
{
    match a {
        JsonValue::Array(aa) => if n == 0 || n > aa.len() || n > ba.len() {
            seq![]
        } else {
            item_diffs(a, ba, path, (n - 1) as nat) + diffs_of(
                aa@[n - 1],
                ba[n - 1],
                index_path(path, (n - 1) as nat),
            )
        },
        _ => seq![],
    }
}

proof fn lemma_no_missing(from: Seq<(String, JsonValue)>, other: Seq<(String, JsonValue)>, path: Seq<char>, note: Seq<char>)
    requires
        forall|i: int| 0 <= i < from.len() ==> has_key(other, #[trigger] from[i].0@),
    ensures
        missing_lines(from, other, path, note) == Seq::<Seq<char>>::empty(),
    decreases from.len(),
{
    if from.len() > 0 {
        let d = from.drop_last();
        assert forall|i: int| 0 <= i < d.len() implies has_key(other, #[trigger] d[i].0@) by {
            assert(d[i] == from[i]);
        }
        lemma_no_missing(d, other, path, note);
        assert(has_key(other, from[from.len() - 1].0@));
    }
}

/// A document without repeated keys shows no divergence from itself.
pub proof fn lemma_self_diffs_empty(a: JsonValue, path: Seq<char>)
    requires
        keys_distinct(a),
    ensures
        diffs_of(a, a, path) == Seq::<Seq<char>>::empty(),
    decreases a, child_count(a) + 1,
{
    match a {
        JsonValue::Object(ao) => {
            assert forall|i: int| 0 <= i < ao@.len() implies has_key(ao@, #[trigger] ao@[i].0@) by {
                lemma_key_index_distinct(ao@, i);
            }
            lemma_no_missing(ao@, ao@, path, ": missing on rust side"@);
            lemma_no_missing(ao@, ao@, path, ": missing on go side"@);
            lemma_self_entries_empty(a, path, ao.len() as nat);
        },
        JsonValue::Array(aa) => {
            lemma_self_items_empty(a, path, aa.len() as nat);
        },
        JsonValue::Number(x) => {
            assert(scalar_eq(a, a));
        },
        _ => {
            assert(scalar_eq(a, a));
        },
    }
}

proof fn lemma_self_entries_empty(a: JsonValue, path: Seq<char>, n: nat)
    requires
        keys_distinct(a),
        a is Object,
    ensures
        entry_diffs(a, a->Object_0@, path, n) == Seq::<Seq<char>>::empty(),
    decreases a, n,
{
    match a {
        JsonValue::Object(ao) => {
            if n > 0 && n <= ao.len() {
                lemma_self_entries_empty(a, path, (n - 1) as nat);
                let k = ao@[n - 1].0@;
                lemma_key_index_distinct(ao@, n - 1);
                assert(keys_distinct(ao@[n - 1].1));
                lemma_self_diffs_empty(ao@[n - 1].1, key_path(path, k));
            }
        },
        _ => {},
    }
}

proof fn lemma_self_items_empty(a: JsonValue, path: Seq<char>, n: nat)
    requires
        keys_distinct(a),
        a is Array,
    ensures
        item_diffs(a, a->Array_0@, path, n) == Seq::<Seq<char>>::empty(),
    decreases a, n,
{
    match a {
        JsonValue::Array(aa) => {
            if n > 0 && n <= aa.len() {
                lemma_self_items_empty(a, path, (n - 1) as nat);
                assert(keys_distinct(aa@[n - 1]));
                lemma_self_diffs_empty(aa@[n - 1], index_path(path, (n - 1) as nat));
            }
        },
        _ => {},
    }
}

/// The keys of object entries, in order.
pub open spec fn keys_of(e: Seq<(String, JsonValue)>) -> Seq<Seq<char>> {
    e.map_values(|x: (String, JsonValue)| x.0@)
}

/// The sum of `g` over `xs`.
pub open spec fn key_sum(xs: Seq<Seq<char>>, g: spec_fn(Seq<char>) -> nat) -> nat
    decreases xs.len(),
{
    if xs.len() == 0 {
        0
    } else {
        key_sum(xs.drop_last(), g) + g(xs.last())
    }
}

/// No element of `xs` occurs twice.
pub open spec fn no_repeats(xs: Seq<Seq<char>>) -> bool {
    forall|i: int, j: int| 0 <= i < j < xs.len() ==> #[trigger] xs[i] != #[trigger] xs[j]
}

proof fn lemma_key_sum_agree(xs: Seq<Seq<char>>, g: spec_fn(Seq<char>) -> nat, h: spec_fn(Seq<char>) -> nat)
    requires
        forall|i: int| 0 <= i < xs.len() ==> g(#[trigger] xs[i]) == h(xs[i]),
    ensures
        key_sum(xs, g) == key_sum(xs, h),
    decreases xs.len(),
{
    if xs.len() > 0 {
        let d = xs.drop_last();
        assert forall|i: int| 0 <= i < d.len() implies g(#[trigger] d[i]) == h(d[i]) by {
            assert(d[i] == xs[i]);
        }
        lemma_key_sum_agree(d, g, h);
        assert(g(xs[xs.len() - 1]) == h(xs[xs.len() - 1]));
    }
}

proof fn lemma_key_sum_zero(xs: Seq<Seq<char>>, g: spec_fn(Seq<char>) -> nat)
    requires
        forall|i: int| 0 <= i < xs.len() ==> g(#[trigger] xs[i]) == 0,
    ensures
        key_sum(xs, g) == 0,
    decreases xs.len(),
{
    if xs.len() > 0 {
        let d = xs.drop_last();
        assert forall|i: int| 0 <= i < d.len() implies g(#[trigger] d[i]) == 0 by {
            assert(d[i] == xs[i]);
        }
        lemma_key_sum_zero(d, g);
        assert(g(xs[xs.len() - 1]) == 0);
    }
}

proof fn lemma_key_sum_remove(ys: Seq<Seq<char>>, j: int, g: spec_fn(Seq<char>) -> nat)
    requires
        0 <= j < ys.len(),
    ensures
        key_sum(ys, g) == key_sum(ys.remove(j), g) + g(ys[j]),
    decreases ys.len(),
{
    if j == ys.len() - 1 {
        assert(ys.remove(j) =~= ys.drop_last());
    } else {
        lemma_key_sum_remove(ys.drop_last(), j, g);
        assert(ys.remove(j).drop_last() =~= ys.drop_last().remove(j));
        assert(ys.remove(j).last() == ys.last());
    }
}

/// A sum over keys does not depend on their order: two lists without
/// repeats that both hold every key `g` weighs sum to the same.
proof fn lemma_key_sum_reorder(xs: Seq<Seq<char>>, ys: Seq<Seq<char>>, g: spec_fn(Seq<char>) -> nat)
    requires
        no_repeats(xs),
        no_repeats(ys),
        forall|k: Seq<char>| #[trigger] g(k) != 0 ==> xs.contains(k) && ys.contains(k),
    ensures
        key_sum(xs, g) == key_sum(ys, g),
    decreases xs.len(),
{
    if xs.len() == 0 {
        assert forall|i: int| 0 <= i < ys.len() implies g(#[trigger] ys[i]) == 0 by {
            if g(ys[i]) != 0 {
                assert(xs.contains(ys[i]));
            }
        }
        lemma_key_sum_zero(ys, g);
    } else {
        let x = xs.last();
        let d = xs.drop_last();
        assert(no_repeats(d)) by {
            assert forall|i: int, j: int| 0 <= i < j < d.len() implies #[trigger] d[i] != #[trigger] d[j] by {
                assert(d[i] == xs[i] && d[j] == xs[j]);
            }
        }
        assert(!d.contains(x)) by {
            if d.contains(x) {
                let i = choose|i: int| 0 <= i < d.len() && d[i] == x;
                assert(xs[i] == xs[xs.len() - 1]);
            }
        }
        if g(x) == 0 {
            assert forall|k: Seq<char>| #[trigger] g(k) != 0 implies d.contains(k) && ys.contains(k) by {
                assert(xs.contains(k));
                let i = choose|i: int| 0 <= i < xs.len() && xs[i] == k;
                assert(i != xs.len() - 1);
                assert(d[i] == k);
            }
            lemma_key_sum_reorder(d, ys, g);
        } else {
            assert(ys.contains(x));
            let j = choose|j: int| 0 <= j < ys.len() && ys[j] == x;
            let e = ys.remove(j);
            lemma_key_sum_remove(ys, j, g);
            assert(no_repeats(e)) by {
                assert forall|a: int, b: int| 0 <= a < b < e.len() implies #[trigger] e[a] != #[trigger] e[b] by {
                    let a2 = if a < j { a } else { a + 1 };
                    let b2 = if b < j { b } else { b + 1 };
                    assert(e[a] == ys[a2] && e[b] == ys[b2]);
                }
            }
            assert(!e.contains(x)) by {
                if e.contains(x) {
                    let i = choose|i: int| 0 <= i < e.len() && e[i] == x;
                    let i2 = if i < j { i } else { i + 1 };
                    assert(e[i] == ys[i2]);
                }
            }
            let g2 = |k: Seq<char>| if k == x { 0nat } else { g(k) };
            assert forall|i: int| 0 <= i < d.len() implies g(#[trigger] d[i]) == g2(d[i]) by {
                assert(d[i] != x);
            }
            lemma_key_sum_agree(d, g, g2);
            assert forall|i: int| 0 <= i < e.len() implies g(#[trigger] e[i]) == g2(e[i]) by {
                assert(e[i] != x) by {
                    assert(e.contains(e[i]));
                }
            }
            lemma_key_sum_agree(e, g, g2);
            assert forall|k: Seq<char>| #[trigger] g2(k) != 0 implies d.contains(k) && e.contains(k) by {
                assert(k != x && g(k) != 0);
                assert(xs.contains(k) && ys.contains(k));
                let i = choose|i: int| 0 <= i < xs.len() && xs[i] == k;
                assert(i != xs.len() - 1);
                assert(d[i] == k);
                let m = choose|m: int| 0 <= m < ys.len() && ys[m] == k;
                assert(m != j);
                let m2 = if m < j { m } else { m - 1 };
                assert(e[m2] == k);
            }
            lemma_key_sum_reorder(d, e, g2);
        }
    }
}

proof fn lemma_missing_len(
    from: Seq<(String, JsonValue)>,
    other: Seq<(String, JsonValue)>,
    path: Seq<char>,
    n1: Seq<char>,
    n2: Seq<char>,
)
    ensures
        missing_lines(from, other, path, n1).len() == missing_lines(from, other, path, n2).len(),
    decreases from.len(),
{
    if from.len() > 0 {
        lemma_missing_len(from.drop_last(), other, path, n1, n2);
    }
}

/// The lines the walk into two objects' entries yields under key `k`,
/// when both hold it and it is neither an identity nor a timestamp key.
pub open spec fn entry_weight(
    ao: Seq<(String, JsonValue)>,
    bo: Seq<(String, JsonValue)>,
    path: Seq<char>,
) -> spec_fn(Seq<char>) -> nat {
    |k: Seq<char>|
        if has_key(ao, k) && has_key(bo, k) && !is_identity_key_spec(k) && !is_timestamp_key_spec(k) {
            diffs_of(entry_value(ao, k), entry_value(bo, k), key_path(path, k)).len()
        } else {
            0nat
        }
}

proof fn lemma_entry_len(a: JsonValue, bo: Seq<(String, JsonValue)>, path: Seq<char>, n: nat)
    requires
        keys_distinct(a),
        a is Object,
        n <= a->Object_0@.len(),
    ensures
        entry_diffs(a, bo, path, n).len() == key_sum(
            keys_of(a->Object_0@).take(n as int),
            entry_weight(a->Object_0@, bo, path),
        ),
    decreases n,
{
    let ao = a->Object_0@;
    if n > 0 {
        lemma_entry_len(a, bo, path, (n - 1) as nat);
        let ks = keys_of(ao).take(n as int);
        assert(ks.drop_last() =~= keys_of(ao).take(n - 1));
        assert(ks.last() == ao[n - 1].0@);
        lemma_key_index_distinct(ao, n - 1);
    } else {
        assert(keys_of(ao).take(0) =~= Seq::<Seq<char>>::empty());
    }
}

proof fn lemma_keys_of_distinct(e: Seq<(String, JsonValue)>)
    requires
        forall|x: int, y: int| 0 <= x < y < e.len() ==> (#[trigger] e[x]).0@ != (#[trigger] e[y]).0@,
    ensures
        no_repeats(keys_of(e)),
        forall|k: Seq<char>| has_key(e, k) ==> #[trigger] keys_of(e).contains(k),
{
    assert forall|i: int, j: int| 0 <= i < j < keys_of(e).len() implies #[trigger] keys_of(e)[i]
        != #[trigger] keys_of(e)[j] by {
        assert(e[i].0@ != e[j].0@);
    }
    assert forall|k: Seq<char>| has_key(e, k) implies #[trigger] keys_of(e).contains(k) by {
        lemma_key_index_range(e, k);
        assert(keys_of(e)[key_index(e, k)] == k);
    }
}

/// The walk is symmetric in what it counts: comparing `a` with `b` yields
/// as many divergence lines as comparing `b` with `a` (a missing key is
/// reported on the other side), for documents without repeated keys.
pub proof fn lemma_diffs_symmetric(a: JsonValue, b: JsonValue, path: Seq<char>)
    requires
        keys_distinct(a),
        keys_distinct(b),
    ensures
        diffs_of(a, b, path).len() == diffs_of(b, a, path).len(),
    decreases a, child_count(a) + 1,
{
    match (a, b) {
        (JsonValue::Object(ao), JsonValue::Object(bo)) => {
            lemma_missing_len(ao@, bo@, path, ": missing on rust side"@, ": missing on go side"@);
            lemma_missing_len(bo@, ao@, path, ": missing on rust side"@, ": missing on go side"@);
            lemma_entry_len(a, bo@, path, ao.len() as nat);
            lemma_entry_len(b, ao@, path, bo.len() as nat);
            assert(keys_of(ao@).take(ao.len() as int) =~= keys_of(ao@));
            assert(keys_of(bo@).take(bo.len() as int) =~= keys_of(bo@));
            let wab = entry_weight(ao@, bo@, path);
            let wba = entry_weight(bo@, ao@, path);
            assert forall|k: Seq<char>| #[trigger] wab(k) == wba(k) by {
                if has_key(ao@, k) && has_key(bo@, k) && !is_identity_key_spec(k)
                    && !is_timestamp_key_spec(k) {
                    lemma_key_index_range(ao@, k);
                    lemma_key_index_range(bo@, k);
                    let i = key_index(ao@, k);
                    let j = key_index(bo@, k);
                    assert(keys_distinct(ao@[i].1));
                    assert(keys_distinct(bo@[j].1));
                    lemma_diffs_symmetric(ao@[i].1, bo@[j].1, key_path(path, k));
                }
            }
            lemma_keys_of_distinct(ao@);
            lemma_keys_of_distinct(bo@);
            assert forall|k: Seq<char>| #[trigger] wab(k) != 0 implies keys_of(ao@).contains(k)
                && keys_of(bo@).contains(k) by {
                assert(has_key(ao@, k) && has_key(bo@, k));
            }
            lemma_key_sum_reorder(keys_of(ao@), keys_of(bo@), wab);
            assert forall|i: int| 0 <= i < keys_of(bo@).len() implies wab(#[trigger] keys_of(bo@)[i])
                == wba(keys_of(bo@)[i]) by {
                assert(wab(keys_of(bo@)[i]) == wba(keys_of(bo@)[i]));
            }
            lemma_key_sum_agree(keys_of(bo@), wab, wba);
        },
        (JsonValue::Array(aa), JsonValue::Array(ba)) => {
            let n: nat = if aa.len() < ba.len() {
                aa.len() as nat
            } else {
                ba.len() as nat
            };
            lemma_items_symmetric(a, b, path, n);
        },
        _ => {},
    }
}

proof fn lemma_items_symmetric(a: JsonValue, b: JsonValue, path: Seq<char>, n: nat)
    requires
        keys_distinct(a),
        keys_distinct(b),
        a is Array,
        b is Array,
        n <= a->Array_0@.len(),
        n <= b->Array_0@.len(),
    ensures
        item_diffs(a, b->Array_0@, path, n).len() == item_diffs(b, a->Array_0@, path, n).len(),
    decreases a, n,
{
    match (a, b) {
        (JsonValue::Array(aa), JsonValue::Array(ba)) => {
            if n > 0 {
                lemma_items_symmetric(a, b, path, (n - 1) as nat);
                assert(keys_distinct(aa@[n - 1]));
                assert(keys_distinct(ba@[n - 1]));
                lemma_diffs_symmetric(aa@[n - 1], ba@[n - 1], index_path(path, (n - 1) as nat));
            }
        },
        _ => {},
    }
}

/// The views of a sequence of strings.
pub open spec fn texts(s: Seq<String>) -> Seq<Seq<char>> {
    s.map_values(|x: String| x@)
}

fn lit(s: &str) -> (r: Vec<char>)
    ensures
        r@ == s@,
{
    chars_of(s)
}

/// Whether a JSON key names an identity field.
pub fn is_identity_key(key: &str) -> (r: bool)
    ensures
        r == is_identity_key_spec(key@),
{
    let k = chars_of(key);
    let l = to_ascii_lower(k.as_slice());
    let id = lit("id");
    if chars_eq(l.as_slice(), id.as_slice()) || ends_with(l.as_slice(), lit("_id").as_slice())
        || ends_with(l.as_slice(), lit("_by").as_slice()) {
        return true;
    }
    ends_with(l.as_slice(), id.as_slice()) && l.len() > 2 && !chars_eq(
        l.as_slice(),
        lit("valid").as_slice(),
    )
}

/// Whether a JSON key names a timestamp field.
pub fn is_timestamp_key(key: &str) -> (r: bool)
    ensures
        r == is_timestamp_key_spec(key@),
{
    let k = chars_of(key);
    let l = to_ascii_lower(k.as_slice());
    let s = l.as_slice();
    chars_eq(s, lit("created_at").as_slice()) || chars_eq(s, lit("updated_at").as_slice())
        || chars_eq(s, lit("deleted_at").as_slice()) || chars_eq(s, lit("create_time").as_slice())
        || chars_eq(s, lit("update_time").as_slice()) || ends_with(s, lit("_at").as_slice())
}

fn is_hex(c: char) -> (r: bool)
    ensures
        r == is_hex_char(c),
{
    ('0' <= c && c <= '9') || ('a' <= c && c <= 'f') || ('A' <= c && c <= 'F')
}

/// Whether a string has the shape of a UUID.
pub fn looks_like_uuid(s: &str) -> (r: bool)
    ensures
        r == looks_like_uuid_spec(s@),
{
    let c = chars_of(s);
    if c.len() != 36 {
        return false;
    }
    let mut i: usize = 0;
    while i < 36
        invariant
            c@ == s@,
            c.len() == 36,
            i <= 36,
            forall|j: int|
                0 <= j < i ==> if j == 8 || j == 13 || j == 18 || j == 23 {
                    #[trigger] c@[j] == '-'
                } else {
                    is_hex_char(c@[j])
                },
        decreases 36 - i,
    {
        let ok = if i == 8 || i == 13 || i == 18 || i == 23 {
            c[i] == '-'
        } else {
            is_hex(c[i])
        };
        if !ok {
            assert(!(if i == 8 || i == 13 || i == 18 || i == 23 {
                c@[i as int] == '-'
            } else {
                is_hex_char(c@[i as int])
            }));
            return false;
        }
        i += 1;
    }
    true
}

/// Whether a string has the shape of a timestamp.
pub fn looks_like_timestamp(s: &str) -> (r: bool)
    ensures
        r == looks_like_timestamp_spec(s@),
{
    let c = chars_of(s);
    if !utf8_len_at_least(c.as_slice(), 19) || c.len() < 5 {
        return false;
    }
    '0' <= c[0] && c[0] <= '9' && '0' <= c[1] && c[1] <= '9' && '0' <= c[2] && c[2] <= '9' && '0'
        <= c[3] && c[3] <= '9' && c[4] == '-'
}

fn normalized_scalar(a: &JsonValue, b: &JsonValue) -> (r: bool)
    ensures
        r == normalized_scalar_spec(*a, *b),
{
    match (value_as_str(a), value_as_str(b)) {
        (Some(x), Some(y)) => {
            if looks_like_uuid(x) && looks_like_uuid(y) {
                return true;
            }
            if looks_like_timestamp(x) && looks_like_timestamp(y) {
                return true;
            }
            values_scalar_eq(a, b)
        },
        _ => values_scalar_eq(a, b),
    }
}

fn push_line(diffs: &mut Vec<String>, line: &[char])
    ensures
        texts(final(diffs)@) == texts(old(diffs)@).push(line@),
{
    let ghost before = texts(diffs@);
    diffs.push(string_of(line));
    assert(texts(diffs@) =~= before.push(line@));
}

fn push_missing(
    from: &Vec<(String, JsonValue)>,
    other: &Vec<(String, JsonValue)>,
    path: &Vec<char>,
    note: &Vec<char>,
    diffs: &mut Vec<String>,
)
    ensures
        texts(final(diffs)@) == texts(old(diffs)@) + missing_lines(from@, other@, path@, note@),
{
    let mut i: usize = 0;
    while i < from.len()
        invariant
            i <= from.len(),
            texts(diffs@) == texts(old(diffs)@) + missing_lines(
                from@.subrange(0, i as int),
                other@,
                path@,
                note@,
            ),
        decreases from.len() - i,
    {
        let ghost prev = texts(diffs@);
        let key = from[i].0.as_str();
        assert(from@.subrange(0, i + 1).drop_last() =~= from@.subrange(0, i as int));
        assert(from@.subrange(0, i + 1).last() == from@[i as int]);
        if find_key(other, key).is_none() {
            let kc = chars_of(key);
            let mut line = concat(path.as_slice(), one('.').as_slice());
            line = concat(line.as_slice(), kc.as_slice());
            line = concat(line.as_slice(), note.as_slice());
            assert(line@ =~= key_path(path@, key@) + note@);
            push_line(diffs, line.as_slice());
        }
        i += 1;
    }
    assert(from@.subrange(0, from.len() as int) =~= from@);
}

fn walk(a: &JsonValue, b: &JsonValue, path: &Vec<char>, diffs: &mut Vec<String>)
    ensures
        texts(final(diffs)@) == texts(old(diffs)@) + diffs_of(*a, *b, path@),
    decreases *a,
{
    match (a, b) {
        (JsonValue::Object(ao), JsonValue::Object(bo)) => {
            push_missing(ao, bo, path, &lit(": missing on rust side"), diffs);
            push_missing(bo, ao, path, &lit(": missing on go side"), diffs);
            let ghost base = texts(diffs@);
            let mut i: usize = 0;
            while i < ao.len()
                invariant
                    i <= ao.len(),
                    *a == JsonValue::Object(*ao),
                    texts(diffs@) == base + entry_diffs(*a, bo@, path@, i as nat),
                decreases ao.len() - i,
            {
                let key = ao[i].0.as_str();
                match find_key(bo, key) {
                    Some(j) => {
                        if !is_identity_key(key) && !is_timestamp_key(key) {
                            let kc = chars_of(key);
                            let mut sub = concat(path.as_slice(), one('.').as_slice());
                            sub = concat(sub.as_slice(), kc.as_slice());
                            assert(sub@ =~= key_path(path@, key@));
                            assert(decreases_to!(*a => ao@[i as int].1));
                            walk(&ao[i].1, &bo[j].1, &sub, diffs);
                        }
                    },
                    None => {},
                }
                i += 1;
                assert(texts(diffs@) =~= base + entry_diffs(*a, bo@, path@, i as nat));
            }
            assert(texts(diffs@) =~= texts(old(diffs)@) + diffs_of(*a, *b, path@));
        },
        (JsonValue::Array(aa), JsonValue::Array(ba)) => {
            if aa.len() != ba.len() {
                let mut line = concat(path.as_slice(), lit(": array length ").as_slice());
                line = concat(line.as_slice(), decimal(aa.len() as u64).as_slice());
                line = concat(line.as_slice(), lit(" vs ").as_slice());
                line = concat(line.as_slice(), decimal(ba.len() as u64).as_slice());
                push_line(diffs, line.as_slice());
            }
            let ghost base = texts(diffs@);
            let n: usize = if aa.len() < ba.len() {
                aa.len()
            } else {
                ba.len()
            };
            let mut i: usize = 0;
            while i < n
                invariant
                    i <= n,
                    n <= aa.len(),
                    n <= ba.len(),
                    *a == JsonValue::Array(*aa),
                    texts(diffs@) == base + item_diffs(*a, ba@, path@, i as nat),
                decreases n - i,
            {
                let mut sub = concat(path.as_slice(), one('[').as_slice());
                sub = concat(sub.as_slice(), decimal(i as u64).as_slice());
                sub = concat(sub.as_slice(), one(']').as_slice());
                assert(sub@ =~= index_path(path@, i as nat));
                assert(decreases_to!(*a => aa@[i as int]));
                walk(&aa[i], &ba[i], &sub, diffs);
                i += 1;
                assert(texts(diffs@) =~= base + item_diffs(*a, ba@, path@, i as nat));
            }
            assert(texts(diffs@) =~= texts(old(diffs)@) + diffs_of(*a, *b, path@));
        },
        _ => {
            if !normalized_scalar(a, b) {
                let line = concat(path.as_slice(), lit(": value diverged").as_slice());
                push_line(diffs, line.as_slice());
            }
            assert(texts(diffs@) =~= texts(old(diffs)@) + diffs_of(*a, *b, path@));
        },
    }
}

/// The semantic walk: maps unordered, arrays ordered, identity and
/// timestamp values normalized; every other divergence is appended to
/// `diffs` with its JSON path.
pub fn semantic_diffs(a: &JsonValue, b: &JsonValue, path: &str, diffs: &mut Vec<String>)
    ensures
        texts(final(diffs)@) == texts(old(diffs)@) + diffs_of(*a, *b, path@),
{
    let p = chars_of(path);
    walk(a, b, &p, diffs);
}

} // verus!
