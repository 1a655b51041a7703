//! Strict encoding of maps from positions to values.
//!
//! Such a map stands for an ordered list whose items are referred to by
//! their position. It is encoded as the list of its values in the order of
//! their keys; the keys are not encoded, and decoding keys each value by
//! its position in the list.

use super::{
    items_decoding, items_encoding, le_bytes, le_decoding, lemma_items_decoding_fails,
    lemma_items_encoding_fails, lemma_le_bytes_len, lemma_le_value_bound, lemma_pow256_small,
    lemma_list_round_trip, models, read_le, write_le, Decoding, Encoding, Error, ErrorView,
    Reader, StrictDecode, StrictEncode, StrictRoundTrip, MAX_ITEMS,
};
use std::collections::BTreeMap;
use std::collections::BTreeSet;
use std::collections::HashMap;
use vstd::prelude::*;
use vstd::std_specs::btree::increasing_seq;
use vstd::std_specs::cmp::OrdSpec;
use vstd::std_specs::iter::IteratorSpec;

verus! {

broadcast use {
    vstd::std_specs::btree::group_btree_axioms,
    vstd::std_specs::hash::group_hash_axioms,
    vstd::laws_cmp::group_laws_cmp,
};

/// Whether each key of the row is greater than the keys before it.
pub open spec fn strictly_increasing(keys: Seq<usize>) -> bool {
    forall|i: int, j: int| 0 <= i < j < keys.len() ==> keys[i] < keys[j]
}

/// The keys of a finite set in increasing order.
pub open spec fn ordered_keys(keys: Set<usize>) -> Seq<usize> {
    choose|row: Seq<usize>| strictly_increasing(row) && row.to_set() == keys
}

/// A set of keys has one increasing order only.
pub proof fn lemma_increasing_order_is_unique(a: Seq<usize>, b: Seq<usize>)
    requires
        strictly_increasing(a),
        strictly_increasing(b),
        a.to_set() == b.to_set(),
    ensures
        a == b,
    decreases a.len(),
{
    if a.len() == 0 {
        if b.len() > 0 {
            assert(b.to_set().contains(b[0]));
            assert(a.contains(b[0]));
        }
        assert(a =~= b);
    } else {
        assert(a.to_set().contains(a.last()));
        assert(b.contains(a.last()));
        let x = a.last();
        let y = b.last();
        let at_b = choose|i: int| 0 <= i < b.len() && b[i] == x;
        assert(b.to_set().contains(y));
        assert(a.contains(y));
        let at_a = choose|i: int| 0 <= i < a.len() && a[i] == y;
        assert(x == y);
        let front_a = a.drop_last();
        let front_b = b.drop_last();
        assert forall|k: usize| front_a.to_set().contains(k) == front_b.to_set().contains(k) by {
            if front_a.contains(k) {
                let i = choose|i: int| 0 <= i < front_a.len() && front_a[i] == k;
                assert(a[i] == k);
                assert(a.to_set().contains(k));
                assert(b.contains(k));
                let j = choose|j: int| 0 <= j < b.len() && b[j] == k;
                assert(j < b.len() - 1);
                assert(front_b[j] == k);
            }
            if front_b.contains(k) {
                let i = choose|i: int| 0 <= i < front_b.len() && front_b[i] == k;
                assert(b[i] == k);
                assert(b.to_set().contains(k));
                assert(a.contains(k));
                let j = choose|j: int| 0 <= j < a.len() && a[j] == k;
                assert(j < a.len() - 1);
                assert(front_a[j] == k);
            }
        }
        assert(front_a.to_set() =~= front_b.to_set());
        lemma_increasing_order_is_unique(front_a, front_b);
        assert(a =~= front_a.push(x));
        assert(b =~= front_b.push(y));
    }
}

/// The values of a map in the increasing order of their keys.
pub open spec fn values_in_key_order<V>(map: Map<usize, V>) -> Seq<V> {
    ordered_keys(map.dom()).map_values(|key: usize| map[key])
}

/// Whether `values` are the values of `map` in the increasing order of
/// their keys, as references.
pub open spec fn in_key_order<T>(map: Map<usize, T>, values: Seq<&T>) -> bool {
    exists|keys: Seq<usize>|
        {
            &&& #[trigger] increasing_seq(keys)
            &&& keys.to_set() == map.dom()
            &&& keys.no_duplicates()
            &&& values == keys.map(|i: int, key: usize| &map[key])
        }
}

/// What walking the values of an ordered map yields is the row of its
/// values in key order.
pub proof fn lemma_walk_is_in_key_order<T: DeepView>(map: BTreeMap<usize, T>, values: Seq<&T>)
    requires
        in_key_order(map@, values),
    ensures
        values.len() == map@.dom().len(),
        values_in_key_order(map.deep_view()) == Seq::new(
            values.len(),
            |j: int| values[j].deep_view(),
        ),
{
    let keys = choose|keys: Seq<usize>|
        {
            &&& #[trigger] increasing_seq(keys)
            &&& keys.to_set() == map@.dom()
            &&& keys.no_duplicates()
            &&& values == keys.map(|i: int, key: usize| &map@[key])
        };
    assert(strictly_increasing(keys)) by {
        assert forall|i: int, j: int| 0 <= i < j < keys.len() implies keys[i] < keys[j] by {
            assert(keys[i].cmp_spec(&keys[j]) is Less);
        }
    }
    keys.unique_seq_to_set();
    vstd::std_specs::btree::lemma_btree_map_deepview_dom(map);
    let deep = map.deep_view();
    assert(deep.dom() =~= map@.dom()) by {
        assert forall|k: usize| deep.dom().contains(k) == map@.dom().contains(k) by {
            if map@.dom().contains(k) {
                assert(k.deep_view() == k);
                assert(map@.dom().map(|k: usize| k.deep_view()).contains(k));
            }
        }
    }
    let chosen = ordered_keys(deep.dom());
    assert(strictly_increasing(keys) && keys.to_set() == deep.dom());
    lemma_increasing_order_is_unique(chosen, keys);
    assert(vstd::relations::injective(|k: usize| k.deep_view()));
    vstd::std_specs::btree::lemma_btree_map_deepview_properties(map);
    let row = Seq::new(values.len(), |j: int| values[j].deep_view());
    assert(values_in_key_order(deep) =~= row) by {
        assert forall|j: int| 0 <= j < keys.len() implies values_in_key_order(deep)[j]
            == row[j] by {
            assert(keys.to_set().contains(keys[j]));
            assert(map@.contains_key(keys[j]));
            assert(deep[keys[j].deep_view()] == map@[keys[j]].deep_view());
        }
    }
}

/// An ordered map from positions to values is encoded as the list of its
/// values in the order of their keys; the keys themselves are not encoded.
impl<T: StrictEncode> StrictEncode for BTreeMap<usize, T> {
    open spec fn encoding(value: Map<usize, T::V>) -> Encoding {
        <Vec<T>>::encoding(values_in_key_order(value))
    }

    fn strict_encode(&self, e: &mut Vec<u8>) -> (written: Result<usize, Error>) {
        let ghost before = e@;
        let ghost all = values_in_key_order(self.deep_view());
        let len = self.len();
        let values = self.values();
        proof {
            lemma_walk_is_in_key_order(*self, values.remaining());
        }
        if len > MAX_ITEMS {
            return Err(Error::ExceedMaxItems(len));
        }
        write_le(e, len as u64, 2);
        let ghost head = le_bytes(len as nat, 2);
        proof {
            lemma_le_bytes_len(len as nat, 2);
        }
        let ghost mut done: Seq<u8> = Seq::empty();
        let mut encoded: usize = 2;
        proof {
            assert(all.take(0) =~= Seq::<T::V>::empty());
            assert(e@ =~= before + head + done);
        }
        for item in it: values
            invariant
                len <= MAX_ITEMS,
                before == old(e)@,
                all == values_in_key_order(self.deep_view()),
                all.len() == len,
                it.seq().len() == len,
                forall|j: int| 0 <= j < len ==> all[j] == (#[trigger] it.seq()[j]).deep_view(),
                head == le_bytes(len as nat, 2),
                head.len() == 2,
                items_encoding::<T>(all.take(it.index())) == Ok::<Seq<u8>, ErrorView>(done),
                e@ == before + head + done,
                encoded == 2 + done.len(),
        {
            let ghost i = it.index();
            let ghost prior = e@;
            proof {
                assert(all.take(i + 1).drop_last() =~= all.take(i));
                assert(all.take(i + 1).last() == item.deep_view());
            }
            match item.strict_encode(e) {
                Ok(count) => {
                    let total = e.len();
                    proof {
                        let bytes = T::encoding(item.deep_view())->Ok_0;
                        done = done + bytes;
                        assert(e@ =~= before + head + done);
                        assert(e@.len() == before.len() + 2 + done.len());
                    }
                    encoded = encoded + count;
                },
                Err(error) => {
                    proof {
                        assert(items_encoding::<T>(all.take(i + 1)) == Err::<Seq<u8>, ErrorView>(
                            error@,
                        ));
                        lemma_items_encoding_fails::<T>(all, i + 1);
                        assert(prior.is_prefix_of(e@));
                        assert(before.is_prefix_of(prior));
                        assert(before.is_prefix_of(e@));
                    }
                    return Err(error);
                },
            }
        }
        proof {
            assert(all.take(len as int) =~= all);
            assert(e@ =~= before + (head + done));
        }
        Ok(encoded)
    }
}

/// The map that gives each value of a row its position as the key.
pub open spec fn indexed<V>(values: Seq<V>) -> Map<usize, V> {
    Map::new(|key: usize| key < values.len(), |key: usize| values[key as int])
}

/// The deep view of an ordered map keyed by positions holds the deep views
/// of its values under the same keys.
pub proof fn lemma_deep_view_of_indexed<T: DeepView>(map: BTreeMap<usize, T>, row: Seq<T::V>)
    requires
        forall|key: usize| map@.contains_key(key) <==> key < row.len(),
        forall|key: usize|
            key < row.len() ==> (#[trigger] map@[key]).deep_view() == row[key as int],
    ensures
        map.deep_view() == indexed(row),
{
    vstd::std_specs::btree::lemma_btree_map_deepview_dom(map);
    assert(vstd::relations::injective(|k: usize| k.deep_view()));
    vstd::std_specs::btree::lemma_btree_map_deepview_properties(map);
    let deep = map.deep_view();
    assert(deep =~= indexed(row)) by {
        assert forall|key: usize| deep.dom().contains(key) == (key < row.len()) by {
            if map@.dom().contains(key) {
                assert(key.deep_view() == key);
                assert(map@.dom().map(|k: usize| k.deep_view()).contains(key));
            }
            if deep.dom().contains(key) {
                let orig = choose|k: usize| k.deep_view() == key && #[trigger] map@.contains_key(k);
                assert(orig == key);
            }
        }
        assert forall|key: usize| key < row.len() implies deep[key] == row[key as int] by {
            assert(map@.contains_key(key));
            assert(deep[key.deep_view()] == map@[key].deep_view());
        }
    }
}

/// A list of values is decoded into an ordered map that keys each value
/// by its position in the list.
impl<T: StrictDecode> StrictDecode for BTreeMap<usize, T> {
    open spec fn decoding(data: Seq<u8>) -> Decoding<Map<usize, T::V>> {
        match <Vec<T>>::decoding(data) {
            Ok((values, used)) => Ok((indexed(values), used)),
            Err(error) => Err(error),
        }
    }

    fn strict_decode(d: &mut Reader) -> (read: Result<Self, Error>) {
        let ghost start = *d;
        let len = match read_le(d, 2) {
            Ok(len) => len,
            Err(error) => {
                return Err(error);
            },
        };
        proof {
            lemma_le_value_bound(start.remaining().take(2));
            lemma_pow256_small(2);
        }
        let ghost body = start.remaining().skip(2);
        let ghost first = *d;
        proof {
            assert(d.remaining() =~= body);
        }
        let mut map: BTreeMap<usize, T> = BTreeMap::new();
        let ghost mut row: Seq<T::V> = Seq::empty();
        let ghost mut used: nat = 0;
        let mut index: u64 = 0;
        while index < len
            invariant
                index <= len < 0x1_0000,
                start == *old(d),
                first.remaining() == body,
                body == start.remaining().skip(2),
                first.advanced(&start, 2),
                le_decoding(start.remaining(), 2) == Ok::<(nat, nat), ErrorView>((len as nat, 2)),
                d.advanced(&first, used),
                items_decoding::<T>(body, index as nat) == Ok::<(Seq<T::V>, nat), ErrorView>(
                    (row, used),
                ),
                row.len() == index,
                forall|key: usize| map@.contains_key(key) <==> key < index,
                forall|key: usize|
                    key < index ==> (#[trigger] map@[key]).deep_view() == row[key as int],
            decreases len - index,
        {
            let ghost here = *d;
            proof {
                assert(here.remaining() =~= body.skip(used as int));
            }
            match T::strict_decode(d) {
                Ok(item) => {
                    proof {
                        let more = T::decoding(here.remaining())->Ok_0.1;
                        used = used + more;
                        row = row.push(item.deep_view());
                    }
                    map.insert(index as usize, item);
                },
                Err(error) => {
                    proof {
                        assert(items_decoding::<T>(body, (index + 1) as nat) == Err::<
                            (Seq<T::V>, nat),
                            ErrorView,
                        >(error@));
                        lemma_items_decoding_fails::<T>(body, (index + 1) as nat, len as nat);
                    }
                    return Err(error);
                },
            }
            index += 1;
        }
        proof {
            lemma_deep_view_of_indexed(map, row);
        }
        Ok(map)
    }
}

/// A value seen through a reference, encoded as the value itself.
struct Borrowed<'a, T>(&'a T);

impl<'a, T: DeepView> DeepView for Borrowed<'a, T> {
    type V = T::V;

    closed spec fn deep_view(&self) -> T::V {
        self.0.deep_view()
    }
}

impl<'a, T: StrictEncode> StrictEncode for Borrowed<'a, T> {
    open spec fn encoding(value: T::V) -> Encoding {
        T::encoding(value)
    }

    fn strict_encode(&self, e: &mut Vec<u8>) -> (written: Result<usize, Error>) {
        self.0.strict_encode(e)
    }
}

/// Borrowed values are encoded one after the other as the values are.
proof fn lemma_items_encoding_borrowed<'a, T: StrictEncode>(items: Seq<T::V>)
    ensures
        items_encoding::<Borrowed<'a, T>>(items) == items_encoding::<T>(items),
    decreases items.len(),
{
    if items.len() > 0 {
        lemma_items_encoding_borrowed::<T>(items.drop_last());
    }
}

/// A hash map from positions to values is encoded as the ordered map with
/// the same entries: as the list of its values in the order of their keys.
impl<T: StrictEncode> StrictEncode for HashMap<usize, T> {
    open spec fn encoding(value: Map<usize, T::V>) -> Encoding {
        <Vec<T>>::encoding(values_in_key_order(value))
    }

    fn strict_encode(&self, e: &mut Vec<u8>) -> (written: Result<usize, Error>) {
        let mut ordered: BTreeMap<usize, Borrowed<T>> = BTreeMap::new();
        for entry in it: self.iter()
            invariant
                forall|i: int|
                    0 <= i < it.seq().len() ==> self@.contains_key(*(#[trigger] it.seq()[i]).0)
                        && self@[*it.seq()[i].0] == *it.seq()[i].1,
                forall|key: usize| #[trigger]
                    ordered@.contains_key(key) ==> self@.contains_key(key) && *ordered@[key].0
                        == self@[key],
                forall|key: usize| #[trigger]
                    self@.contains_key(key) ==> ordered@.contains_key(key) || exists|i: int|
                        it.index() <= i < it.seq().len() && *(#[trigger] it.seq()[i]).0 == key,
        {
            let ghost before = ordered@;
            let ghost at = it.index();
            let ghost entries = it.seq();
            ordered.insert(*entry.0, Borrowed(entry.1));
            proof {
                assert forall|key: usize| #[trigger] self@.contains_key(key) implies
                    ordered@.contains_key(key) || exists|i: int|
                    at + 1 <= i < entries.len() && *(#[trigger] entries[i]).0 == key by {
                    if !before.contains_key(key) {
                        let i = choose|i: int|
                            at <= i < entries.len() && *(#[trigger] entries[i]).0 == key;
                        if i == at {
                            assert(ordered@.contains_key(key));
                        }
                    }
                }
            }
        }
        proof {
            lemma_same_deep_view(*self, ordered);
            lemma_items_encoding_borrowed::<T>(values_in_key_order(self.deep_view()));
        }
        ordered.strict_encode(e)
    }
}

/// An ordered map of borrowed values that has the keys of a hash map and
/// under each key the value of the hash map has the deep view of the hash
/// map.
proof fn lemma_same_deep_view<'a, T: DeepView>(
    map: HashMap<usize, T>,
    ordered: BTreeMap<usize, Borrowed<'a, T>>,
)
    requires
        forall|key: usize| #[trigger]
            ordered@.contains_key(key) ==> map@.contains_key(key) && *ordered@[key].0 == map@[key],
        forall|key: usize| #[trigger] map@.contains_key(key) ==> ordered@.contains_key(key),
    ensures
        ordered.deep_view() == map.deep_view(),
{
    assert(vstd::relations::injective(|k: usize| k.deep_view()));
    vstd::std_specs::btree::lemma_btree_map_deepview_dom(ordered);
    vstd::std_specs::btree::lemma_btree_map_deepview_properties(ordered);
    vstd::std_specs::hash::lemma_hashmap_deepview_dom(map);
    vstd::std_specs::hash::lemma_hashmap_deepview_properties(map);
    let a = ordered.deep_view();
    let b = map.deep_view();
    assert(a =~= b) by {
        assert forall|key: usize| a.dom().contains(key) == b.dom().contains(key) by {
            if a.dom().contains(key) {
                let orig = choose|k: usize|
                    k.deep_view() == key && #[trigger] ordered@.contains_key(k);
                assert(orig == key);
                assert(map@.contains_key(key));
                assert(b.contains_key(key.deep_view()));
            }
            if b.dom().contains(key) {
                let orig = choose|k: usize| k.deep_view() == key && #[trigger] map@.contains_key(k);
                assert(orig == key);
                assert(ordered@.contains_key(key));
                assert(a.contains_key(key.deep_view()));
            }
        }
        assert forall|key: usize| a.dom().contains(key) implies a[key] == b[key] by {
            let orig = choose|k: usize| k.deep_view() == key && #[trigger] ordered@.contains_key(k);
            assert(orig == key);
            assert(a[key.deep_view()] == ordered@[key].deep_view());
            assert(map@.contains_key(key));
            assert(b[key.deep_view()] == map@[key].deep_view());
        }
    }
}

/// The deep view of a hash map keyed by positions holds the deep views of
/// its values under the same keys.
pub proof fn lemma_deep_view_of_indexed_hash_map<T: DeepView>(
    map: HashMap<usize, T>,
    row: Seq<T::V>,
)
    requires
        forall|key: usize| map@.contains_key(key) <==> key < row.len(),
        forall|key: usize|
            key < row.len() ==> (#[trigger] map@[key]).deep_view() == row[key as int],
    ensures
        map.deep_view() == indexed(row),
{
    vstd::std_specs::hash::lemma_hashmap_deepview_dom(map);
    assert(vstd::relations::injective(|k: usize| k.deep_view()));
    vstd::std_specs::hash::lemma_hashmap_deepview_properties(map);
    let deep = map.deep_view();
    assert(deep =~= indexed(row)) by {
        assert forall|key: usize| deep.dom().contains(key) == (key < row.len()) by {
            if map@.dom().contains(key) {
                assert(key.deep_view() == key);
                assert(map@.dom().map(|k: usize| k.deep_view()).contains(key));
            }
            if deep.dom().contains(key) {
                let orig = choose|k: usize| k.deep_view() == key && #[trigger] map@.contains_key(k);
                assert(orig == key);
            }
        }
        assert forall|key: usize| key < row.len() implies deep[key] == row[key as int] by {
            assert(map@.contains_key(key));
            assert(deep[key.deep_view()] == map@[key].deep_view());
        }
    }
}

/// A list of values is decoded into a hash map that keys each value by its
/// position in the list.
impl<T: StrictDecode> StrictDecode for HashMap<usize, T> {
    open spec fn decoding(data: Seq<u8>) -> Decoding<Map<usize, T::V>> {
        match <Vec<T>>::decoding(data) {
            Ok((values, used)) => Ok((indexed(values), used)),
            Err(error) => Err(error),
        }
    }

    fn strict_decode(d: &mut Reader) -> (read: Result<Self, Error>) {
        let ghost start = *d;
        let len = match read_le(d, 2) {
            Ok(len) => len,
            Err(error) => {
                return Err(error);
            },
        };
        proof {
            lemma_le_value_bound(start.remaining().take(2));
            lemma_pow256_small(2);
        }
        let ghost body = start.remaining().skip(2);
        let ghost first = *d;
        proof {
            assert(d.remaining() =~= body);
        }
        let mut map: HashMap<usize, T> = HashMap::new();
        let ghost mut row: Seq<T::V> = Seq::empty();
        let ghost mut used: nat = 0;
        let mut index: u64 = 0;
        while index < len
            invariant
                index <= len < 0x1_0000,
                start == *old(d),
                first.remaining() == body,
                body == start.remaining().skip(2),
                first.advanced(&start, 2),
                le_decoding(start.remaining(), 2) == Ok::<(nat, nat), ErrorView>((len as nat, 2)),
                d.advanced(&first, used),
                items_decoding::<T>(body, index as nat) == Ok::<(Seq<T::V>, nat), ErrorView>(
                    (row, used),
                ),
                row.len() == index,
                forall|key: usize| map@.contains_key(key) <==> key < index,
                forall|key: usize|
                    key < index ==> (#[trigger] map@[key]).deep_view() == row[key as int],
            decreases len - index,
        {
            let ghost here = *d;
            proof {
                assert(here.remaining() =~= body.skip(used as int));
            }
            match T::strict_decode(d) {
                Ok(item) => {
                    proof {
                        let more = T::decoding(here.remaining())->Ok_0.1;
                        used = used + more;
                        row = row.push(item.deep_view());
                    }
                    map.insert(index as usize, item);
                },
                Err(error) => {
                    proof {
                        assert(items_decoding::<T>(body, (index + 1) as nat) == Err::<
                            (Seq<T::V>, nat),
                            ErrorView,
                        >(error@));
                        lemma_items_decoding_fails::<T>(body, (index + 1) as nat, len as nat);
                    }
                    return Err(error);
                },
            }
            index += 1;
        }
        proof {
            lemma_deep_view_of_indexed_hash_map(map, row);
        }
        Ok(map)
    }
}

/// Whether the keys are the positions from zero up without a gap.
pub open spec fn gap_free(keys: Set<usize>) -> bool {
    forall|key: usize| keys.contains(key) <==> key < keys.len()
}

/// For an ordered map whose keys are the positions from zero up without a
/// gap, decoding undoes encoding. A map with any other keys does not come
/// back: its values do, keyed by their positions.
pub proof fn lemma_map_round_trip<T: StrictRoundTrip>(map: &BTreeMap<usize, T>, rest: Seq<u8>)
    requires
        gap_free(map@.dom()),
    ensures
        <BTreeMap<usize, T>>::encoding(map.deep_view()) matches Ok(code) ==> <BTreeMap<
            usize,
            T,
        >>::decoding(code + rest) == Ok::<(Map<usize, T::V>, nat), ErrorView>(
            (map.deep_view(), code.len()),
        ),
{
    let count = map@.dom().len();
    let keys = Seq::new(count, |i: int| i as usize);
    let values = Seq::new(count, |i: int| map@[i as usize]);
    let row = models(values);
    assert(map@.dom().finite());
    assert(count <= usize::MAX) by {
        assert(vstd::std_specs::btree::spec_btree_map_len(map) == map@.len());
    }
    lemma_deep_view_of_indexed(*map, row);
    let deep = map.deep_view();
    assert(strictly_increasing(keys));
    assert(keys.to_set() =~= deep.dom()) by {
        assert forall|key: usize| keys.to_set().contains(key) == deep.dom().contains(key) by {
            if key < count {
                assert(keys[key as int] == key);
                assert(keys.contains(key));
            }
            if keys.contains(key) {
                let i = choose|i: int| 0 <= i < keys.len() && keys[i] == key;
                assert(key < count);
            }
        }
    }
    lemma_increasing_order_is_unique(ordered_keys(deep.dom()), keys);
    assert(values_in_key_order(deep) =~= row);
    lemma_list_round_trip::<T>(values, rest);
}

} // verus!
