use vstd::prelude::*;

verus! {

/// No two elements of `s` have the same key.
pub open spec fn keys_unique<A>(s: Seq<A>, key: spec_fn(A) -> Seq<char>) -> bool {
    forall|i: int, j: int|
        0 <= i < s.len() && 0 <= j < s.len() && #[trigger] key(s[i]) == #[trigger] key(s[j])
            ==> i == j
}

/// Some element of `s` has key `id`.
pub open spec fn has_key<A>(s: Seq<A>, key: spec_fn(A) -> Seq<char>, id: Seq<char>) -> bool {
    exists|i: int| 0 <= i < s.len() && #[trigger] key(s[i]) == id
}

/// Where the element with key `id` stands in `s`, or -1 when there is none.
pub open spec fn position_of<A>(s: Seq<A>, key: spec_fn(A) -> Seq<char>, id: Seq<char>) -> int {
    if has_key(s, key, id) {
        choose|i: int| 0 <= i < s.len() && #[trigger] key(s[i]) == id
    } else {
        -1
    }
}

/// `s` with the element keyed `id` replaced by `a` in place, or with `a`
/// appended when no element has that key.
pub open spec fn put<A>(s: Seq<A>, key: spec_fn(A) -> Seq<char>, id: Seq<char>, a: A) -> Seq<A> {
    let i = position_of(s, key, id);
    if i >= 0 {
        s.update(i, a)
    } else {
        s.push(a)
    }
}

/// `s` without the element keyed `id`, if there is one.
pub open spec fn without<A>(s: Seq<A>, key: spec_fn(A) -> Seq<char>, id: Seq<char>) -> Seq<A> {
    let i = position_of(s, key, id);
    if i >= 0 {
        s.remove(i)
    } else {
        s
    }
}

pub proof fn lemma_position_found<A>(s: Seq<A>, key: spec_fn(A) -> Seq<char>, id: Seq<char>, i: int)
    requires
        keys_unique(s, key),
        0 <= i < s.len(),
        key(s[i]) == id,
    ensures
        position_of(s, key, id) == i,
{
    assert(has_key(s, key, id));
}

pub proof fn lemma_position_absent<A>(s: Seq<A>, key: spec_fn(A) -> Seq<char>, id: Seq<char>)
    requires
        forall|i: int| 0 <= i < s.len() ==> #[trigger] key(s[i]) != id,
    ensures
        position_of(s, key, id) == -1,
        !has_key(s, key, id),
{
}

pub proof fn lemma_position_bounds<A>(s: Seq<A>, key: spec_fn(A) -> Seq<char>, id: Seq<char>)
    ensures
        position_of(s, key, id) >= 0 <==> has_key(s, key, id),
        position_of(s, key, id) >= 0 ==> position_of(s, key, id) < s.len() && key(
            s[position_of(s, key, id)],
        ) == id,
{
}

/// Putting an element under its own key keeps keys unique, and the element
/// is then found under that key.
pub proof fn lemma_put<A>(s: Seq<A>, key: spec_fn(A) -> Seq<char>, id: Seq<char>, a: A)
    requires
        keys_unique(s, key),
        key(a) == id,
    ensures
        keys_unique(put(s, key, id, a), key),
        position_of(put(s, key, id, a), key, id) >= 0,
        put(s, key, id, a)[position_of(put(s, key, id, a), key, id)] == a,
        position_of(s, key, id) >= 0 ==> position_of(put(s, key, id, a), key, id) == position_of(s, key, id),
        position_of(s, key, id) < 0 ==> position_of(put(s, key, id, a), key, id) == s.len(),
{
    let t = put(s, key, id, a);
    let i = position_of(s, key, id);
    if i >= 0 {
        assert forall|x: int, y: int|
            0 <= x < t.len() && 0 <= y < t.len() && #[trigger] key(t[x]) == #[trigger] key(t[y])
            implies x == y by {
            assert(key(t[x]) == key(s[x]));
            assert(key(t[y]) == key(s[y]));
        }
        lemma_position_found(t, key, id, i);
    } else {
        lemma_position_absent(s, key, id);
        assert forall|x: int, y: int|
            0 <= x < t.len() && 0 <= y < t.len() && #[trigger] key(t[x]) == #[trigger] key(t[y])
            implies x == y by {
            if x < s.len() && y < s.len() {
                assert(key(t[x]) == key(s[x]));
                assert(key(t[y]) == key(s[y]));
            } else if x < s.len() {
                assert(key(t[x]) == key(s[x]));
            } else if y < s.len() {
                assert(key(t[y]) == key(s[y]));
            }
        }
        lemma_position_found(t, key, id, s.len() as int);
    }
}

/// Removing the element keyed `id` keeps keys unique and leaves no element
/// with that key.
pub proof fn lemma_without<A>(s: Seq<A>, key: spec_fn(A) -> Seq<char>, id: Seq<char>)
    requires
        keys_unique(s, key),
    ensures
        keys_unique(without(s, key, id), key),
        !has_key(without(s, key, id), key, id),
{
    let t = without(s, key, id);
    let i = position_of(s, key, id);
    if i >= 0 {
        assert forall|x: int| 0 <= x < t.len() implies #[trigger] key(t[x]) != id by {
            if x < i {
                assert(t[x] == s[x]);
            } else {
                assert(t[x] == s[x + 1]);
            }
        }
        assert forall|x: int, y: int|
            0 <= x < t.len() && 0 <= y < t.len() && #[trigger] key(t[x]) == #[trigger] key(t[y])
            implies x == y by {
            let sx = if x < i { x } else { x + 1 };
            let sy = if y < i { y } else { y + 1 };
            assert(t[x] == s[sx]);
            assert(t[y] == s[sy]);
        }
    } else {
        assert(!has_key(s, key, id));
    }
}

/// Removing the element keyed `id` leaves the presence of other keys as it was.
pub proof fn lemma_without_other<A>(
    s: Seq<A>,
    key: spec_fn(A) -> Seq<char>,
    id: Seq<char>,
    other: Seq<char>,
)
    requires
        keys_unique(s, key),
        other != id,
    ensures
        has_key(without(s, key, id), key, other) == has_key(s, key, other),
{
    let t = without(s, key, id);
    let i = position_of(s, key, id);
    if i >= 0 {
        if has_key(s, key, other) {
            let j = choose|j: int| 0 <= j < s.len() && #[trigger] key(s[j]) == other;
            assert(j != i);
            let tj = if j < i { j } else { j - 1 };
            assert(t[tj] == s[j]);
        }
        if has_key(t, key, other) {
            let j = choose|j: int| 0 <= j < t.len() && #[trigger] key(t[j]) == other;
            let sj = if j < i { j } else { j + 1 };
            assert(t[j] == s[sj]);
        }
    }
}

/// A filtered sequence keeps keys unique, and each of its keys is a key of
/// the whole sequence.
pub proof fn lemma_filter_unique<A>(s: Seq<A>, key: spec_fn(A) -> Seq<char>, keep: spec_fn(A) -> bool)
    requires
        keys_unique(s, key),
    ensures
        keys_unique(s.filter(keep), key),
        forall|x: int| 0 <= x < s.filter(keep).len() ==> has_key(s, key, #[trigger] key(s.filter(keep)[x])),
    decreases s.len(),
{
    reveal_with_fuel(Seq::filter, 1);
    if s.len() > 0 {
        let init = s.drop_last();
        assert forall|x: int| 0 <= x < init.len() implies #[trigger] init[x] == s[x] by {}
        lemma_filter_unique(init, key, keep);
        let f = init.filter(keep);
        assert forall|x: int| 0 <= x < f.len() implies has_key(s, key, #[trigger] key(f[x])) by {
            assert(has_key(init, key, key(f[x])));
            let j = choose|j: int| 0 <= j < init.len() && #[trigger] key(init[j]) == key(f[x]);
            assert(key(s[j]) == key(f[x]));
        }
        if keep(s.last()) {
            let t = f.push(s.last());
            assert(s.filter(keep) == t);
            assert forall|x: int| 0 <= x < t.len() implies has_key(s, key, #[trigger] key(t[x])) by {
                if x < f.len() {
                    assert(t[x] == f[x]);
                } else {
                    assert(key(s[s.len() - 1]) == key(t[x]));
                }
            }
            assert forall|x: int, y: int|
                0 <= x < t.len() && 0 <= y < t.len() && #[trigger] key(t[x]) == #[trigger] key(t[y])
                implies x == y by {
                if x < f.len() && y == f.len() {
                    assert(t[x] == f[x]);
                    assert(has_key(init, key, key(f[x])));
                    let j = choose|j: int| 0 <= j < init.len() && #[trigger] key(init[j]) == key(f[x]);
                    assert(key(s[j]) == key(s[s.len() - 1]));
                } else if y < f.len() && x == f.len() {
                    assert(t[y] == f[y]);
                    assert(has_key(init, key, key(f[y])));
                    let j = choose|j: int| 0 <= j < init.len() && #[trigger] key(init[j]) == key(f[y]);
                    assert(key(s[j]) == key(s[s.len() - 1]));
                } else if x < f.len() && y < f.len() {
                    assert(t[x] == f[x]);
                    assert(t[y] == f[y]);
                }
            }
        } else {
            assert(s.filter(keep) == f);
        }
    }
}

} // verus!
