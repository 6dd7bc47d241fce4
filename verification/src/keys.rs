use vstd::prelude::*;

verus! {

/// The position of the first element of `keys` that equals `key`, if any does.
pub open spec fn position<K>(keys: Seq<K>, key: K) -> Option<int>
    decreases keys.len(),
{
    if keys.len() == 0 {
        None
    } else {
        match position(keys.drop_last(), key) {
            Some(i) => Some(i),
            None => if keys.last() == key {
                Some(keys.len() - 1)
            } else {
                None
            },
        }
    }
}

/// The row at a position, if there is a position.
pub open spec fn row_at<T>(rows: Seq<T>, p: Option<int>) -> Option<T> {
    match p {
        Some(i) => Some(rows[i]),
        None => None,
    }
}

/// Each id is smaller than every id behind it.
pub open spec fn increasing(ids: Seq<i64>) -> bool {
    forall|i: int, j: int| 0 <= i < j < ids.len() ==> ids[i] < ids[j]
}

/// `id` may be appended to `ids`: it is larger than all of them.
pub open spec fn follows(ids: Seq<i64>, id: i64) -> bool {
    ids.len() == 0 || ids.last() < id
}

/// The id that the next row of a table gets: one more than the largest id in
/// use, and 1 in an empty table.
pub open spec fn next_id(ids: Seq<i64>) -> int {
    if ids.len() == 0 {
        1
    } else {
        ids.last() + 1
    }
}

/// No value that is present occurs twice.
pub open spec fn distinct_where_present(keys: Seq<Option<i64>>) -> bool {
    forall|i: int, j: int|
        0 <= i < j < keys.len() && keys[i].is_some() ==> keys[i] != keys[j]
}

/// What `position` returns is the first match, and `None` means that there is none.
pub proof fn lemma_position<K>(keys: Seq<K>, key: K)
    ensures
        match position(keys, key) {
            Some(i) => 0 <= i < keys.len() && keys[i] == key && forall|j: int|
                0 <= j < i ==> keys[j] != key,
            None => forall|j: int| 0 <= j < keys.len() ==> keys[j] != key,
        },
    decreases keys.len(),
{
    if keys.len() > 0 {
        let front = keys.drop_last();
        lemma_position(front, key);
        assert(forall|j: int| 0 <= j < front.len() ==> front[j] == keys[j]);
    }
}

/// A match with no match before it is the position.
pub proof fn lemma_position_found<K>(keys: Seq<K>, key: K, i: int)
    requires
        0 <= i < keys.len(),
        keys[i] == key,
        forall|j: int| 0 <= j < i ==> keys[j] != key,
    ensures
        position(keys, key) == Some(i),
{
    lemma_position(keys, key);
}

/// Where nothing matches there is no position.
pub proof fn lemma_position_absent<K>(keys: Seq<K>, key: K)
    requires
        forall|j: int| 0 <= j < keys.len() ==> keys[j] != key,
    ensures
        position(keys, key).is_none(),
{
    lemma_position(keys, key);
}

/// Appending a key that is not among duplicate-free keys leaves them duplicate-free.
pub proof fn lemma_push_unique<K>(keys: Seq<K>, key: K)
    requires
        keys.no_duplicates(),
        position(keys, key).is_none(),
    ensures
        keys.push(key).no_duplicates(),
{
    lemma_position(keys, key);
}

/// Appending a larger id to increasing ids leaves them increasing.
pub proof fn lemma_push_increasing(ids: Seq<i64>, id: i64)
    requires
        increasing(ids),
        follows(ids, id),
    ensures
        increasing(ids.push(id)),
{
    assert forall|i: int, j: int| 0 <= i < j < ids.push(id).len() implies ids.push(id)[i]
        < ids.push(id)[j] by {
        if j == ids.len() && i < ids.len() - 1 {
            assert(ids[i] < ids[ids.len() - 1]);
        }
    }
}

/// What appending a key does to the position of a key: an earlier match
/// stays, and without one the appended key is the only candidate.
pub proof fn lemma_position_push<K>(keys: Seq<K>, added: K, key: K)
    ensures
        position(keys.push(added), key) == match position(keys, key) {
            Some(i) => Some(i),
            None => if added == key {
                Some(keys.len() as int)
            } else {
                None
            },
        },
{
    assert(keys.push(added).drop_last() =~= keys);
}

/// An id that follows increasing ids is not among them.
pub proof fn lemma_follows_absent(ids: Seq<i64>, id: i64)
    requires
        increasing(ids),
        follows(ids, id),
    ensures
        position(ids, id).is_none(),
{
    assert forall|j: int| 0 <= j < ids.len() implies ids[j] != id by {
        if j < ids.len() - 1 {
            assert(ids[j] < ids[ids.len() - 1]);
        }
    }
    lemma_position_absent(ids, id);
}

/// Every key is the first of its kind.
pub open spec fn each_is_first<K>(keys: Seq<K>) -> bool {
    forall|i: int| 0 <= i < keys.len() ==> position(keys, #[trigger] keys[i]) == Some(i)
}

/// Keys are free of duplicates exactly where every key is the first of its kind.
pub proof fn lemma_unique_by_position<K>(keys: Seq<K>)
    ensures
        keys.no_duplicates() <==> each_is_first(keys),
{
    if keys.no_duplicates() {
        assert forall|i: int| 0 <= i < keys.len() implies position(keys, #[trigger] keys[i])
            == Some(i) by {
            lemma_position(keys, keys[i]);
        }
    }
    if each_is_first(keys) {
        assert forall|i: int, j: int|
            0 <= i < keys.len() && 0 <= j < keys.len() && i != j implies keys[i] != keys[j] by {
            assert(position(keys, keys[i]) == Some(i));
            assert(position(keys, keys[j]) == Some(j));
        }
    }
}

/// No present value occurs twice exactly where every present value is the
/// first of its kind.
pub proof fn lemma_present_unique_by_position(keys: Seq<Option<i64>>)
    ensures
        distinct_where_present(keys) <==> forall|i: int|
            0 <= i < keys.len() && (#[trigger] keys[i]).is_some() ==> position(keys, keys[i])
                == Some(i),
{
    if distinct_where_present(keys) {
        assert forall|i: int| 0 <= i < keys.len() && (#[trigger] keys[i]).is_some() implies position(
            keys,
            keys[i],
        ) == Some(i) by {
            lemma_position(keys, keys[i]);
            let k = position(keys, keys[i])->Some_0;
            if k < i {
                assert(keys[k] != keys[i]);
            }
        }
    }
    if forall|i: int|
        0 <= i < keys.len() && (#[trigger] keys[i]).is_some() ==> position(keys, keys[i]) == Some(
            i,
        ) {
        assert forall|i: int, j: int|
            0 <= i < j < keys.len() && keys[i].is_some() implies keys[i] != keys[j] by {
            if keys[i] == keys[j] {
                assert(position(keys, keys[i]) == Some(i));
                assert(position(keys, keys[j]) == Some(j));
            }
        }
    }
}

/// Ids of which each is smaller than the next are increasing.
pub proof fn lemma_increasing_by_steps(ids: Seq<i64>)
    requires
        forall|i: int| 0 <= i < ids.len() - 1 ==> #[trigger] ids[i] < ids[i + 1],
    ensures
        increasing(ids),
{
    assert forall|i: int, j: int| 0 <= i < j < ids.len() implies ids[i] < ids[j] by {
        lemma_step_chain(ids, i, j);
    }
}

/// Along single steps upwards, an earlier id is smaller than a later one.
proof fn lemma_step_chain(ids: Seq<i64>, i: int, j: int)
    requires
        forall|k: int| 0 <= k < ids.len() - 1 ==> #[trigger] ids[k] < ids[k + 1],
        0 <= i < j < ids.len(),
    ensures
        ids[i] < ids[j],
    decreases j - i,
{
    if i + 1 < j {
        lemma_step_chain(ids, i, j - 1);
    }
    assert(ids[j - 1] < ids[j - 1 + 1]);
}

} // verus!
