//! Keyed configuration tables: rows with an integer key, lookups by key, and
//! the uniqueness check that the configuration index relies on.
use vstd::prelude::*;

verus! {

/// A configuration row with an integer key (a single id or a composite one).
pub trait TableRow: View + Sized {
    /// The key of a row, from its view.
    spec fn key_of(v: Self::V) -> Seq<i32>;

    fn has_key(&self, key: &[i32]) -> (b: bool)
        ensures
            b == (Self::key_of(self@) == key@),
    ;

    fn key(&self) -> (k: Vec<i32>)
        ensures
            k@ == Self::key_of(self@),
    ;

    fn duplicate(&self) -> (r: Self)
        ensures
            r@ == self@,
    ;
}

/// The views of a list of rows.
pub open spec fn rows_view<T: View>(rows: Seq<T>) -> Seq<T::V> {
    Seq::new(rows.len(), |i: int| rows[i]@)
}

/// No two rows share a key.
pub open spec fn unique_keys<T: TableRow>(rows: Seq<T::V>) -> bool {
    forall|i: int, j: int|
        0 <= i < j < rows.len() ==> T::key_of(#[trigger] rows[i]) != T::key_of(#[trigger] rows[j])
}

/// Some row has key `k`.
pub open spec fn has_row<T: TableRow>(rows: Seq<T::V>, k: Seq<i32>) -> bool {
    exists|i: int| 0 <= i < rows.len() && T::key_of(#[trigger] rows[i]) == k
}

/// The row with key `k`, if there is one (the first, should keys repeat).
pub open spec fn find_row<T: TableRow>(rows: Seq<T::V>, k: Seq<i32>) -> Option<T::V> {
    if has_row::<T>(rows, k) {
        Some(rows[first_with_key::<T>(rows, k)])
    } else {
        None
    }
}

/// The position of the first row with key `k`.
pub open spec fn first_with_key<T: TableRow>(rows: Seq<T::V>, k: Seq<i32>) -> int {
    choose|i: int|
        0 <= i < rows.len() && T::key_of(#[trigger] rows[i]) == k && forall|j: int|
            0 <= j < i ==> T::key_of(#[trigger] rows[j]) != k
}


/// The key of the first row whose key an earlier row already has.
pub open spec fn first_repeat<T: TableRow>(rows: Seq<T::V>) -> Option<Seq<i32>>
    decreases rows.len(),
{
    if rows.len() == 0 {
        None
    } else {
        match first_repeat::<T>(rows.drop_last()) {
            Some(k) => Some(k),
            None => if has_row::<T>(rows.drop_last(), T::key_of(rows.last())) {
                Some(T::key_of(rows.last()))
            } else {
                None
            },
        }
    }
}

/// Rows have unique keys exactly when no row repeats an earlier key.
pub proof fn lemma_first_repeat_unique<T: TableRow>(rows: Seq<T::V>)
    ensures
        first_repeat::<T>(rows) is None <==> unique_keys::<T>(rows),
    decreases rows.len(),
{
    if rows.len() > 0 {
        let pre = rows.drop_last();
        lemma_first_repeat_unique::<T>(pre);
        if unique_keys::<T>(rows) {
            assert(unique_keys::<T>(pre)) by {
                assert forall|i: int, j: int| 0 <= i < j < pre.len() implies T::key_of(
                    #[trigger] pre[i],
                ) != T::key_of(#[trigger] pre[j]) by {
                    assert(pre[i] == rows[i] && pre[j] == rows[j]);
                }
            }
            if has_row::<T>(pre, T::key_of(rows.last())) {
                let j = choose|j: int| 0 <= j < pre.len() && T::key_of(#[trigger] pre[j]) == T::key_of(
                    rows.last(),
                );
                assert(pre[j] == rows[j]);
                assert(T::key_of(rows[j]) == T::key_of(rows[rows.len() - 1]));
            }
        } else {
            if first_repeat::<T>(rows) is None {
                let (i, j) = choose|i: int, j: int|
                    0 <= i < j < rows.len() && T::key_of(#[trigger] rows[i]) == T::key_of(
                        #[trigger] rows[j],
                    );
                if j < rows.len() - 1 {
                    assert(pre[i] == rows[i] && pre[j] == rows[j]);
                } else {
                    assert(pre[i] == rows[i]);
                    assert(has_row::<T>(pre, T::key_of(rows.last())));
                }
            }
        }
    }
}

/// A repeat found in a prefix is the first repeat of the whole.
pub proof fn lemma_first_repeat_prefix<T: TableRow>(rows: Seq<T::V>, n: int)
    requires
        0 <= n <= rows.len(),
        first_repeat::<T>(rows.take(n)) is Some,
    ensures
        first_repeat::<T>(rows) == first_repeat::<T>(rows.take(n)),
    decreases rows.len() - n,
{
    if n < rows.len() {
        assert(rows.take(n + 1).drop_last() =~= rows.take(n));
        lemma_first_repeat_prefix::<T>(rows, n + 1);
    } else {
        assert(rows.take(n) =~= rows);
    }
}

proof fn lemma_first_with_key<T: TableRow>(rows: Seq<T::V>, k: Seq<i32>, i: int)
    requires
        0 <= i < rows.len(),
        T::key_of(rows[i]) == k,
        forall|j: int| 0 <= j < i ==> T::key_of(#[trigger] rows[j]) != k,
    ensures
        first_with_key::<T>(rows, k) == i,
        find_row::<T>(rows, k) == Some(rows[i]),
{
    assert(has_row::<T>(rows, k));
    let f = first_with_key::<T>(rows, k);
    assert(0 <= f < rows.len() && T::key_of(rows[f]) == k && forall|j: int|
        0 <= j < f ==> T::key_of(#[trigger] rows[j]) != k);
    if f < i {
        assert(T::key_of(rows[f]) != k);
    }
    if i < f {
        assert(T::key_of(rows[i]) != k);
    }
}

/// Finds the row with key `key`.
pub fn lookup<'a, T: TableRow>(rows: &'a Vec<T>, key: &[i32]) -> (r: Option<&'a T>)
    ensures
        match r {
            Some(row) => find_row::<T>(rows_view(rows@), key@) == Some(row@) && T::key_of(row@)
                == key@,
            None => find_row::<T>(rows_view(rows@), key@) is None,
        },
{
    let ghost view = rows_view(rows@);
    let mut i: usize = 0;
    while i < rows.len()
        invariant
            i <= rows@.len(),
            view == rows_view(rows@),
            forall|j: int| 0 <= j < i ==> T::key_of(#[trigger] view[j]) != key@,
        decreases rows@.len() - i,
    {
        if rows[i].has_key(key) {
            proof {
                lemma_first_with_key::<T>(view, key@, i as int);
            }
            return Some(&rows[i]);
        }
        i = i + 1;
    }
    proof {
        if has_row::<T>(view, key@) {
            let j = choose|j: int| 0 <= j < view.len() && T::key_of(#[trigger] view[j]) == key@;
            assert(T::key_of(view[j]) != key@);
        }
    }
    None
}

/// Copies `rows` when no two of them share a key; otherwise reports the key
/// of the first row that repeats an earlier row's key.
pub fn copy_unique<T: TableRow>(rows: &Vec<T>) -> (r: Result<Vec<T>, Vec<i32>>)
    ensures
        r is Ok <==> unique_keys::<T>(rows_view(rows@)),
        match r {
            Ok(copy) => rows_view(copy@) == rows_view(rows@),
            Err(k) => first_repeat::<T>(rows_view(rows@)) == Some(k@),
        },
{
    let ghost view = rows_view(rows@);
    let mut copy: Vec<T> = Vec::new();
    let mut i: usize = 0;
    while i < rows.len()
        invariant
            i <= rows@.len(),
            view == rows_view(rows@),
            copy@.len() == i,
            forall|j: int| 0 <= j < i ==> (#[trigger] copy@[j])@ == view[j],
            unique_keys::<T>(view.take(i as int)),
        decreases rows@.len() - i,
    {
        let key = rows[i].key();
        let mut j: usize = 0;
        while j < i
            invariant
                j <= i < rows@.len(),
                view == rows_view(rows@),
                key@ == T::key_of(view[i as int]),
                copy@.len() == i,
                forall|m: int| 0 <= m < i ==> (#[trigger] copy@[m])@ == view[m],
                forall|m: int| 0 <= m < j ==> T::key_of(#[trigger] view[m]) != key@,
                unique_keys::<T>(view.take(i as int)),
            decreases i - j,
        {
            if copy[j].has_key(key.as_slice()) {
                assert(T::key_of(view[j as int]) == key@);
                assert(!unique_keys::<T>(view)) by {
                    assert(T::key_of(view[j as int]) == T::key_of(view[i as int]));
                }
                proof {
                    let pre = view.take(i as int);
                    assert(view.take(i as int + 1).drop_last() =~= pre);
                    assert(view.take(i as int + 1).last() == view[i as int]);
                    assert(pre[j as int] == view[j as int]);
                    assert(has_row::<T>(pre, key@));
                    lemma_first_repeat_unique::<T>(pre);
                    lemma_first_repeat_prefix::<T>(view, i as int + 1);
                }
                return Err(key);
            }
            j = j + 1;
        }
        let row = rows[i].duplicate();
        copy.push(row);
        i = i + 1;
        assert(unique_keys::<T>(view.take(i as int))) by {
            assert forall|a: int, b: int| 0 <= a < b < view.take(i as int).len() implies T::key_of(
                #[trigger] view.take(i as int)[a],
            ) != T::key_of(#[trigger] view.take(i as int)[b]) by {
                assert(view.take(i as int)[a] == view[a]);
                assert(view.take(i as int)[b] == view[b]);
                if b < i - 1 {
                    assert(view.take(i - 1)[a] == view[a]);
                    assert(view.take(i - 1)[b] == view[b]);
                }
            }
        }
    }
    assert(view.take(rows@.len() as int) =~= view);
    assert(rows_view(copy@) =~= view);
    Ok(copy)
}

/// Whether `x` occurs in `v`.
pub fn contains_id(v: &[i32], x: i32) -> (b: bool)
    ensures
        b == v@.contains(x),
{
    let mut i: usize = 0;
    while i < v.len()
        invariant
            i <= v@.len(),
            forall|j: int| 0 <= j < i ==> v@[j] != x,
        decreases v@.len() - i,
    {
        if v[i] == x {
            assert(v@[i as int] == x);
            return true;
        }
        i = i + 1;
    }
    false
}

} // verus!
