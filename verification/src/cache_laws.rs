//! What holds of a cache that verdicts are inserted into one after the other.
//!
//! The allocation that a verdict is on is a matter of memory. Here a number stands for it: two
//! verdicts are on one allocation where their numbers are equal.
use crate::apply_schema::{transform, transform_struct};
use crate::identity::{
    first_shared, has_shared, inserted, records, remembered, says_identity, EntryView,
    IDENTITY_CACHE_MAX,
};
use crate::model::Column;
use crate::schema::{FieldView, TypeView};
use vstd::prelude::*;

verus! {

/// A verdict and the allocation that it is on.
pub type Placed = (int, EntryView);

/// The verdicts alone.
pub open spec fn verdicts(cache: Seq<Placed>) -> Seq<EntryView> {
    Seq::new(cache.len(), |i: int| cache[i].1)
}

/// Which verdicts are on this allocation.
pub open spec fn placed_at(cache: Seq<Placed>, place: int) -> Seq<bool> {
    Seq::new(cache.len(), |i: int| cache[i].0 == place)
}

/// The cache after one more verdict.
pub open spec fn place(cache: Seq<Placed>, entry: Placed) -> Seq<Placed> {
    if has_shared(verdicts(cache), placed_at(cache, entry.0), entry.1.schema) {
        cache
    } else if cache.len() >= IDENTITY_CACHE_MAX {
        cache.drop_first().push(entry)
    } else {
        cache.push(entry)
    }
}

/// The cache after these verdicts, from the first on.
pub open spec fn reached(entries: Seq<Placed>) -> Seq<Placed>
    decreases entries.len(),
{
    if entries.len() == 0 {
        seq![]
    } else {
        place(reached(entries.drop_last()), entries.last())
    }
}

/// Whether no two verdicts are on one allocation and one schema.
pub open spec fn no_doubles(cache: Seq<Placed>) -> bool {
    forall|i: int, j: int|
        #![trigger cache[i], cache[j]]
        0 <= i < j < cache.len() ==> cache[i].0 != cache[j].0 || cache[i].1.schema
            != cache[j].1.schema
}

/// Placing a verdict is inserting it among those that are marked by its allocation.
pub proof fn law_placed(cache: Seq<Placed>, entry: Placed)
    ensures
        verdicts(place(cache, entry)) == inserted(
            verdicts(cache),
            placed_at(cache, entry.0),
            entry.1,
        ),
{
    let before = verdicts(cache);
    if !has_shared(before, placed_at(cache, entry.0), entry.1.schema) {
        assert(verdicts(place(cache, entry)) =~= remembered(before, entry.1));
    }
}

proof fn lemma_no_doubles(cache: Seq<Placed>, entry: Placed)
    requires
        no_doubles(cache),
    ensures
        no_doubles(place(cache, entry)),
{
    let shares = placed_at(cache, entry.0);
    let after = place(cache, entry);
    if !has_shared(verdicts(cache), shares, entry.1.schema) {
        assert forall|i: int| 0 <= i < cache.len() implies (#[trigger] cache[i]).0 != entry.0
            || cache[i].1.schema != entry.1.schema by {
            assert(verdicts(cache)[i] == cache[i].1);
            assert(shares[i] == (cache[i].0 == entry.0));
        }
        let dropped: int = cache.len() + 1 - after.len();
        assert forall|i: int| 0 <= i < after.len() - 1 implies #[trigger] after[i] == cache[i
            + dropped] by {}
        assert forall|i: int, j: int|
            #![trigger after[i], after[j]]
            0 <= i < j < after.len() implies after[i].0 != after[j].0 || after[i].1.schema
            != after[j].1.schema by {
            assert(after[i] == cache[i + dropped]);
            if j < after.len() - 1 {
                assert(after[j] == cache[j + dropped]);
            }
        }
    }
}

/// Whatever is inserted into an empty cache, it keeps within its limit, no two of its verdicts are on
/// one allocation and one schema, and each is one that was inserted, as it was.
pub proof fn law_cache_reached(entries: Seq<Placed>)
    ensures
        reached(entries).len() <= IDENTITY_CACHE_MAX,
        no_doubles(reached(entries)),
        forall|i: int|
            0 <= i < reached(entries).len() ==> entries.contains(#[trigger] reached(entries)[i]),
    decreases entries.len(),
{
    if entries.len() > 0 {
        let rest = entries.drop_last();
        law_cache_reached(rest);
        lemma_no_doubles(reached(rest), entries.last());
        assert forall|i: int| 0 <= i < reached(entries).len() implies entries.contains(
            #[trigger] reached(entries)[i],
        ) by {
            let p = reached(entries)[i];
            if p == entries.last() {
                assert(entries[entries.len() - 1] == p);
            } else {
                assert(exists|j: int| 0 <= j < reached(rest).len() && reached(rest)[j] == p) by {
                    if reached(entries) == reached(rest) {
                        assert(reached(rest)[i] == p);
                    } else if reached(rest).len() >= IDENTITY_CACHE_MAX {
                        assert(reached(rest)[i + 1] == p);
                    } else {
                        assert(reached(rest)[i] == p);
                    }
                }
                let j = choose|j: int| 0 <= j < reached(rest).len() && reached(rest)[j] == p;
                assert(rest.contains(reached(rest)[j]));
                let k = choose|k: int| 0 <= k < rest.len() && rest[k] == p;
                assert(entries[k] == p);
            }
        }
    }
}

/// A cache keeps 32 verdicts. One more is the last of them, behind all that were there, in order, but
/// for the oldest where there were 32. Where there is a verdict on its allocation and schema already,
/// nothing changes.
pub proof fn law_inserted(cache: Seq<EntryView>, shares: Seq<bool>, entry: EntryView)
    requires
        cache.len() <= 32,
        shares.len() == cache.len(),
    ensures
        ({
            let after = inserted(cache, shares, entry);
            let known = exists|i: int|
                0 <= i < cache.len() && shares[i] && (#[trigger] cache[i]).schema == entry.schema;
            &&& known ==> after == cache
            &&& !known ==> {
                let gone: int = if cache.len() == 32 {
                    1
                } else {
                    0
                };
                &&& after.len() == cache.len() + 1 - gone
                &&& after.last() == entry
                &&& forall|i: int| gone <= i < cache.len() ==> after[i - gone] == #[trigger] cache[i]
            }
        }),
{
}

/// What was inserted is found: the verdict on its allocation and schema is then its own, unless there
/// was one before, which stays.
pub proof fn law_inserted_is_found(cache: Seq<Placed>, entry: Placed)
    requires
        cache.len() <= 32,
    ensures
        ({
            let before = says_identity(
                verdicts(cache),
                placed_at(cache, entry.0),
                entry.1.schema,
            );
            let after = says_identity(
                verdicts(place(cache, entry)),
                placed_at(place(cache, entry), entry.0),
                entry.1.schema,
            );
            let known = exists|i: int|
                0 <= i < cache.len() && (#[trigger] cache[i]).0 == entry.0 && cache[i].1.schema
                    == entry.1.schema;
            after == if known {
                before
            } else {
                entry.1.identity
            }
        }),
{
    let shares = placed_at(cache, entry.0);
    let all = verdicts(cache);
    if has_shared(all, shares, entry.1.schema) {
        let i = choose|i: int|
            0 <= i < shares.len() && shares[i] && (#[trigger] all[i]).schema == entry.1.schema;
        assert(cache[i].0 == entry.0);
    } else {
        assert forall|i: int| 0 <= i < cache.len() && (#[trigger] cache[i]).0 == entry.0 implies
            cache[i].1.schema != entry.1.schema by {
            assert(all[i] == cache[i].1);
            assert(shares[i]);
        }
        let next = place(cache, entry);
        let last = next.len() - 1;
        let gone: int = cache.len() - last;
        assert(next.last() == entry);
        assert forall|i: int| 0 <= i < last implies #[trigger] next[i] == cache[i + gone] by {}
        assert forall|i: int|
            #![trigger verdicts(next)[i]]
            0 <= i < last && placed_at(next, entry.0)[i] implies verdicts(next)[i].schema
            != entry.1.schema by {
            assert(next[i] == cache[i + gone]);
        }
        assert(first_shared(verdicts(next), placed_at(next, entry.0), entry.1.schema, last));
        assert forall|i: int| #[trigger]
            first_shared(verdicts(next), placed_at(next, entry.0), entry.1.schema, i) implies i
            == last by {
            assert(verdicts(next)[i].schema == entry.1.schema);
        }
        assert(verdicts(next)[last] == entry.1);
    }
}

/// What applying a schema to a struct array leaves in the cache says whether the fields that came out
/// are those that went in, on these fields and this schema. Where the schema cannot be applied,
/// nothing is left.
pub proof fn law_recorded(
    before: Seq<EntryView>,
    after: Seq<EntryView>,
    c: Column,
    fs: Seq<FieldView>,
)
    requires
        c is Struct,
        records(before, after, c, TypeView::Struct(fs)),
    ensures
        match transform(c, TypeView::Struct(fs), None, ""@) {
            Ok(q) => after == before || {
                &&& after.len() > 0
                &&& after.last().fields == c->Struct_fields
                &&& after.last().schema == fs
                &&& after.last().identity <==> q->Struct_fields == c->Struct_fields
            },
            Err(_) => after == before,
        },
{
    assert(transform(c, TypeView::Struct(fs), None, ""@) == transform_struct(c, fs));
}

} // verus!
