//! Texts in order, and lists of rows under a name.

use crate::transcript::lemma_prefix_push;
use vstd::prelude::*;
use vstd::string::*;

verus! {

/// Whether a text comes before another: it ends where the other goes on, or the
/// first character in which they differ is smaller.
pub open spec fn precedes(a: Seq<char>, b: Seq<char>) -> bool
    decreases a.len(),
{
    if b.len() == 0 {
        false
    } else if a.len() == 0 {
        true
    } else if a[0] == b[0] {
        precedes(a.skip(1), b.skip(1))
    } else {
        a[0] < b[0]
    }
}

/// Tells whether a text comes before another.
pub fn text_precedes(a: &String, b: &String) -> (r: bool)
    ensures
        r == precedes(a@, b@),
{
    let left = a.as_str();
    let right = b.as_str();
    let left_len: usize = left.unicode_len();
    let right_len: usize = right.unicode_len();
    let mut i: usize = 0;
    assert(a@.skip(0) =~= a@);
    assert(b@.skip(0) =~= b@);
    while i < left_len && i < right_len
        invariant
            i <= left_len == a@.len(),
            i <= right_len == b@.len(),
            left@ == a@,
            right@ == b@,
            precedes(a@, b@) == precedes(a@.skip(i as int), b@.skip(i as int)),
        decreases left_len - i,
    {
        let x = left.get_char(i);
        let y = right.get_char(i);
        if x != y {
            return x < y;
        }
        assert(a@.skip(i as int).skip(1) =~= a@.skip(i + 1));
        assert(b@.skip(i as int).skip(1) =~= b@.skip(i + 1));
        i += 1;
    }
    i < right_len
}

/// No text comes before itself.
pub proof fn lemma_not_before_itself(a: Seq<char>)
    ensures
        !precedes(a, a),
    decreases a.len(),
{
    if a.len() > 0 {
        lemma_not_before_itself(a.skip(1));
    }
}

/// What comes before a text that comes before a third comes before the third.
pub proof fn lemma_before_through(a: Seq<char>, b: Seq<char>, c: Seq<char>)
    requires
        precedes(a, b),
        precedes(b, c),
    ensures
        precedes(a, c),
    decreases a.len(),
{
    if a.len() > 0 && a[0] == b[0] && b[0] == c[0] {
        lemma_before_through(a.skip(1), b.skip(1), c.skip(1));
    }
}

/// Of two different texts one comes before the other.
pub proof fn lemma_one_is_before(a: Seq<char>, b: Seq<char>)
    requires
        a != b,
    ensures
        precedes(a, b) || precedes(b, a),
    decreases a.len(),
{
    if a.len() > 0 && b.len() > 0 && a[0] == b[0] {
        assert(a =~= seq![a[0]] + a.skip(1));
        assert(b =~= seq![b[0]] + b.skip(1));
        lemma_one_is_before(a.skip(1), b.skip(1));
    } else if a.len() == 0 && b.len() == 0 {
        assert(a =~= b);
    }
}

/// Whether names stand in order, each once.
pub open spec fn in_order(names: Seq<Seq<char>>) -> bool {
    forall|i: int, j: int|
        0 <= i < j < names.len() ==> precedes(#[trigger] names[i], #[trigger] names[j])
}

/// A list of names with one more in its place, if it is new.
pub open spec fn inserted(names: Seq<Seq<char>>, name: Seq<char>) -> Seq<Seq<char>>
    decreases names.len(),
{
    if names.len() == 0 {
        seq![name]
    } else if names.last() == name {
        names
    } else if precedes(names.last(), name) {
        names.push(name)
    } else {
        inserted(names.drop_last(), name).push(names.last())
    }
}

/// Names that stand in order still do with one more, and hold it.
pub proof fn lemma_inserted(names: Seq<Seq<char>>, name: Seq<char>)
    requires
        in_order(names),
    ensures
        in_order(inserted(names, name)),
        forall|other: Seq<char>| #[trigger]
            inserted(names, name).contains(other) <==> names.contains(other) || other == name,
    decreases names.len(),
{
    let after = inserted(names, name);
    if names.len() == 0 {
        assert(after[0] == name);
    } else if names.last() == name {
        assert(names[names.len() - 1] == name);
    } else if precedes(names.last(), name) {
        let last: int = names.len() - 1;
        assert forall|i: int, j: int| 0 <= i < j < after.len() implies precedes(
            #[trigger] after[i],
            #[trigger] after[j],
        ) by {
            if j == names.len() && i < last {
                assert(precedes(names[i], names[last]));
                lemma_before_through(names[i], names.last(), name);
            }
        }
        assert forall|other: Seq<char>| #[trigger] after.contains(other) <==> names.contains(other)
            || other == name by {
            assert(after[names.len() as int] == name);
            if names.contains(other) {
                let i = names.index_of(other);
                assert(after[i] == other);
            }
        }
    } else {
        let rest = names.drop_last();
        lemma_one_is_before(names.last(), name);
        lemma_inserted(rest, name);
        let fewer = inserted(rest, name);
        assert forall|i: int, j: int| 0 <= i < j < after.len() implies precedes(
            #[trigger] after[i],
            #[trigger] after[j],
        ) by {
            if j == fewer.len() {
                assert(fewer.contains(fewer[i]));
                if fewer[i] != name {
                    let k = rest.index_of(fewer[i]);
                    assert(precedes(names[k], names[names.len() - 1]));
                }
            }
        }
        assert forall|other: Seq<char>| #[trigger] after.contains(other) <==> names.contains(other)
            || other == name by {
            assert(after[fewer.len() as int] == names.last());
            if rest.contains(other) {
                let k = rest.index_of(other);
                assert(names[k] == other);
            }
            if fewer.contains(other) {
                let k = fewer.index_of(other);
                assert(after[k] == other);
            }
            if names.contains(other) && other != names.last() {
                let k = names.index_of(other);
                assert(rest[k] == other);
            }
            assert(names[names.len() - 1] == names.last());
        }
    }
}

/// Puts a name in its place, if it is new.
pub fn insert_name(names: &mut Vec<String>, name: &String)
    ensures
        final(names).deep_view() == inserted(old(names).deep_view(), name@),
{
    let ghost before = names.deep_view();
    let mut i: usize = names.len();
    assert(before.take(i as int) =~= before);
    assert(inserted(before, name@) =~= inserted(before.take(i as int), name@) + before.skip(
        i as int,
    ));
    while i > 0
        invariant
            i <= names.len(),
            names.deep_view() == before,
            before == old(names).deep_view(),
            inserted(before, name@) == inserted(before.take(i as int), name@) + before.skip(
                i as int,
            ),
        decreases i,
    {
        let ghost head = before.take(i as int);
        assert(head.last() == names[i - 1]@);
        if names[i - 1] == *name {
            assert(before =~= head + before.skip(i as int));
            return ;
        }
        if text_precedes(&names[i - 1], name) {
            assert(before.insert(i as int, name@) =~= head.push(name@) + before.skip(i as int));
            names.insert(i, name.clone());
            assert(names.deep_view() =~= before.insert(i as int, name@));
            return ;
        }
        assert(head.drop_last() =~= before.take(i - 1));
        assert(inserted(head.drop_last(), name@).push(head.last()) + before.skip(i as int)
            =~= inserted(before.take(i - 1), name@) + before.skip(i - 1));
        i -= 1;
    }
    assert(before.insert(0, name@) =~= seq![name@] + before.skip(0));
    names.insert(0, name.clone());
    assert(names.deep_view() =~= before.insert(0, name@));
}

/// A row under a key.
#[derive(Debug, PartialEq, Eq)]
pub struct Keyed<T> {
    pub key: String,
    pub value: T,
}

/// Contents of a [`Keyed`].
pub struct KeyedView<T> {
    pub key: Seq<char>,
    pub value: T,
}

impl<T: DeepView> DeepView for Keyed<T> {
    type V = KeyedView<T::V>;

    open spec fn deep_view(&self) -> KeyedView<T::V> {
        KeyedView { key: self.key.deep_view(), value: self.value.deep_view() }
    }
}

/// The value of the last row under a key.
pub open spec fn last_of<T>(rows: Seq<KeyedView<T>>, key: Seq<char>) -> Option<T>
    decreases rows.len(),
{
    if rows.len() == 0 {
        None
    } else if rows.last().key == key {
        Some(rows.last().value)
    } else {
        last_of(rows.drop_last(), key)
    }
}

/// Finds the last row under a key.
pub fn find_last<'a, T: DeepView>(rows: &'a Vec<Keyed<T>>, key: &String) -> (r: Option<&'a T>)
    ensures
        match last_of(rows.deep_view(), key@) {
            Some(value) => r is Some && r->Some_0.deep_view() == value,
            None => r is None,
        },
{
    let mut i: usize = rows.len();
    assert(rows.deep_view().take(i as int) =~= rows.deep_view());
    while i > 0
        invariant
            i <= rows.len(),
            last_of(rows.deep_view(), key@) == last_of(rows.deep_view().take(i as int), key@),
        decreases i,
    {
        let ghost head = rows.deep_view().take(i as int);
        assert(head.last() == rows[i - 1].deep_view());
        if rows[i - 1].key == *key {
            return Some(&rows[i - 1].value);
        }
        assert(head.drop_last() =~= rows.deep_view().take(i - 1));
        i -= 1;
    }
    None
}

/// A list of names with the keys of some rows in their places.
pub open spec fn with_keys<T>(names: Seq<Seq<char>>, rows: Seq<KeyedView<T>>) -> Seq<Seq<char>>
    decreases rows.len(),
{
    if rows.len() == 0 {
        names
    } else {
        inserted(with_keys(names, rows.drop_last()), rows.last().key)
    }
}

/// Names that stand in order still do with the keys of some rows, and hold those
/// keys.
pub proof fn lemma_with_keys<T>(names: Seq<Seq<char>>, rows: Seq<KeyedView<T>>)
    requires
        in_order(names),
    ensures
        in_order(with_keys(names, rows)),
        forall|name: Seq<char>| #[trigger]
            with_keys(names, rows).contains(name) <==> names.contains(name) || last_of(
                rows,
                name,
            ) is Some,
    decreases rows.len(),
{
    if rows.len() > 0 {
        lemma_with_keys(names, rows.drop_last());
        lemma_inserted(with_keys(names, rows.drop_last()), rows.last().key);
    }
}

/// Puts the keys of some rows in their places.
pub fn insert_keys<T: DeepView>(names: &mut Vec<String>, rows: &Vec<Keyed<T>>)
    ensures
        final(names).deep_view() == with_keys(old(names).deep_view(), rows.deep_view()),
{
    let ghost before = names.deep_view();
    let mut i: usize = 0;
    while i < rows.len()
        invariant
            i <= rows.len(),
            names.deep_view() == with_keys(before, rows.deep_view().take(i as int)),
        decreases rows.len() - i,
    {
        proof {
            lemma_prefix_push(*rows, i as int);
            let head = rows.deep_view().take(i as int);
            assert(head.push(rows[i as int].deep_view()).drop_last() =~= head);
        }
        insert_name(names, &rows[i].key);
        i += 1;
    }
    assert(rows.deep_view().take(i as int) =~= rows.deep_view());
}

} // verus!
