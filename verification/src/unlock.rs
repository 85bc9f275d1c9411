//! Which powers are unlocked.

use bevy::utils::hashbrown::HashMap;
use vstd::prelude::*;

verus! {

/// For each power id that it knows, whether that power is unlocked, which
/// is to say purchasable and visible. The table is a `hashbrown::HashMap`,
/// which Verus does not look into: what is known of it is what the private
/// functions `table_new` to `table_entries` below claim of its methods.
#[verifier::external_body]
pub struct PowerUnlockFlags(HashMap<usize, bool>);

/// The entries that a flag table holds.
pub uninterp spec fn flag_entries(flags: PowerUnlockFlags) -> Map<usize, bool>;

impl View for PowerUnlockFlags {
    type V = Map<usize, bool>;

    open spec fn view(&self) -> Map<usize, bool> {
        flag_entries(*self)
    }
}

/// Whether `m` has exactly `n` entries.
pub open spec fn has_len(m: Map<usize, bool>, n: nat) -> bool {
    m.dom().finite() && m.dom().len() == n
}

/// The ids `0..n`, all locked.
pub open spec fn all_locked(n: nat) -> Map<usize, bool> {
    Map::new(|id: usize| id < n, |id: usize| false)
}

/// The table that holds the listed pairs, a later pair replacing an earlier
/// one of the same id.
pub open spec fn entries_map(entries: Seq<(usize, bool)>) -> Map<usize, bool>
    decreases entries.len(),
{
    if entries.len() == 0 {
        Map::empty()
    } else {
        entries_map(entries.drop_last()).insert(entries.last().0, entries.last().1)
    }
}

/// Whether `entries` lists each entry of `m` once and nothing else.
pub open spec fn lists(entries: Seq<(usize, bool)>, m: Map<usize, bool>) -> bool {
    &&& forall|i: int|
        0 <= i < entries.len() ==> m.contains_key((#[trigger] entries[i]).0) && m[entries[i].0]
            == entries[i].1
    &&& forall|i: int, j: int|
        0 <= i < j < entries.len() ==> (#[trigger] entries[i]).0 != (#[trigger] entries[j]).0
    &&& forall|id: usize|
        m.contains_key(id) ==> exists|i: int|
            0 <= i < entries.len() && (#[trigger] entries[i]).0 == id
}

/// The table after the power `id` was unlocked: unchanged where it has no
/// entry for `id`.
pub open spec fn unlocked(m: Map<usize, bool>, id: usize) -> Map<usize, bool> {
    if m.contains_key(id) {
        m.insert(id, true)
    } else {
        m
    }
}

/// Whether every power that is unlocked in `before` is unlocked in `after`.
pub open spec fn stays_unlocked(before: Map<usize, bool>, after: Map<usize, bool>) -> bool {
    forall|id: usize|
        before.contains_key(id) && before[id] ==> after.contains_key(id) && after[id]
}

impl PowerUnlockFlags {
    /// `hashbrown::HashMap::new`: a map without entries.
    #[verifier::external_body]
    fn table_new() -> (r: PowerUnlockFlags)
        ensures
            flag_entries(r).dom() == Set::<usize>::empty(),
    {
        PowerUnlockFlags(HashMap::new())
    }

    /// `hashbrown::HashMap::insert`: afterwards the map holds `flag` for
    /// `id` and is otherwise as before; the value that it held for `id`
    /// before, if any, is returned.
    #[verifier::external_body]
    fn table_insert(&mut self, id: usize, flag: bool) -> (previous: Option<bool>)
        ensures
            flag_entries(*final(self)) == flag_entries(*old(self)).insert(id, flag),
            previous == if flag_entries(*old(self)).contains_key(id) {
                Some(flag_entries(*old(self))[id])
            } else {
                None::<bool>
            },
    {
        self.0.insert(id, flag)
    }

    /// `hashbrown::HashMap::get`: the value held for `id`, if there is one.
    #[verifier::external_body]
    fn table_get(&self, id: usize) -> (r: Option<bool>)
        ensures
            r == if flag_entries(*self).contains_key(id) {
                Some(flag_entries(*self)[id])
            } else {
                None::<bool>
            },
    {
        match self.0.get(&id) {
            Some(flag) => Some(*flag),
            None => None,
        }
    }

    /// `hashbrown::HashMap::len`: the number of entries, of which a map
    /// has finitely many.
    #[verifier::external_body]
    fn table_len(&self) -> (n: usize)
        ensures
            has_len(flag_entries(*self), n as nat),
    {
        self.0.len()
    }

    /// `hashbrown::HashMap::iter`: visits each entry once, in an order
    /// that is not specified.
    #[verifier::external_body]
    fn table_entries(&self) -> (r: Vec<(usize, bool)>)
        ensures
            lists(r@, flag_entries(*self)),
    {
        self.0.iter().map(|(id, flag)| (*id, *flag)).collect()
    }

    /// A table without entries.
    pub fn new() -> (r: PowerUnlockFlags)
        ensures
            r@ == Map::<usize, bool>::empty(),
    {
        PowerUnlockFlags::table_new()
    }

    /// The table that holds the listed pairs, a later pair replacing an
    /// earlier one of the same id.
    pub fn from_entries(entries: &Vec<(usize, bool)>) -> (r: PowerUnlockFlags)
        ensures
            r@ == entries_map(entries@),
    {
        let mut r = PowerUnlockFlags::table_new();
        let mut i: usize = 0;
        while i < entries.len()
            invariant
                0 <= i <= entries.len(),
                r@ == entries_map(entries@.take(i as int)),
            decreases entries.len() - i,
        {
            let (id, flag) = entries[i];
            r.table_insert(id, flag);
            assert(entries@.take(i + 1).drop_last() =~= entries@.take(i as int));
            i = i + 1;
        }
        assert(entries@.take(i as int) =~= entries@);
        r
    }

    /// The number of entries.
    pub fn len(&self) -> (n: usize)
        ensures
            has_len(self@, n as nat),
    {
        self.table_len()
    }

    /// The flag held for `id`, if there is one.
    pub fn get(&self, id: usize) -> (r: Option<bool>)
        ensures
            r == if self@.contains_key(id) {
                Some(self@[id])
            } else {
                None::<bool>
            },
    {
        self.table_get(id)
    }

    /// Whether the power `id` is unlocked.
    pub fn is_unlocked(&self, id: usize) -> (r: bool)
        ensures
            r == (self@.contains_key(id) && self@[id]),
    {
        match self.table_get(id) {
            Some(flag) => flag,
            None => false,
        }
    }

    /// Unlocks the power `id` if the table has an entry for it, and says
    /// whether that changed the entry.
    pub fn unlock(&mut self, id: usize) -> (changed: bool)
        ensures
            final(self)@ == unlocked(old(self)@, id),
            changed == (old(self)@.contains_key(id) && !old(self)@[id]),
            stays_unlocked(old(self)@, final(self)@),
    {
        match self.table_get(id) {
            Some(false) => {
                self.table_insert(id, true);
                true
            },
            Some(true) => false,
            None => false,
        }
    }

    /// Every entry, once, in no particular order.
    pub fn entries(&self) -> (r: Vec<(usize, bool)>)
        ensures
            lists(r@, self@),
    {
        self.table_entries()
    }
}

impl Default for PowerUnlockFlags {
    /// The ten powers of the built-in catalog, all locked.
    fn default() -> (r: PowerUnlockFlags)
        ensures
            r@ == all_locked(10),
    {
        let mut r = PowerUnlockFlags::table_new();
        let mut id: usize = 0;
        while id < 10
            invariant
                0 <= id <= 10,
                r@ == all_locked(id as nat),
            decreases 10 - id,
        {
            r.table_insert(id, false);
            id = id + 1;
        }
        r
    }
}

/// The table built from the first `n` pairs of a listing of `m` holds the
/// ids of those pairs, each with the flag that `m` holds for it.
proof fn lemma_entries_map_prefix(entries: Seq<(usize, bool)>, m: Map<usize, bool>, n: int)
    requires
        lists(entries, m),
        0 <= n <= entries.len(),
    ensures
        forall|id: usize| #[trigger]
            entries_map(entries.take(n)).contains_key(id) <==> exists|i: int|
                0 <= i < n && (#[trigger] entries[i]).0 == id,
        forall|id: usize| #[trigger]
            entries_map(entries.take(n)).contains_key(id) ==> entries_map(entries.take(n))[id]
                == m[id],
    decreases n,
{
    if n > 0 {
        lemma_entries_map_prefix(entries, m, n - 1);
        assert(entries.take(n).drop_last() =~= entries.take(n - 1));
        let before = entries_map(entries.take(n - 1));
        let last = entries[n - 1];
        assert(entries.take(n).last() == last);
        assert(entries_map(entries.take(n)) == before.insert(last.0, last.1));
        assert forall|id: usize| #[trigger]
            entries_map(entries.take(n)).contains_key(id) implies exists|i: int|
            0 <= i < n && (#[trigger] entries[i]).0 == id by {
            if id == last.0 {
                assert(entries[n - 1].0 == id);
            } else {
                assert(before.contains_key(id));
                let i = choose|i: int| 0 <= i < n - 1 && (#[trigger] entries[i]).0 == id;
                assert(0 <= i < n && entries[i].0 == id);
            }
        }
        assert forall|id: usize|
            (exists|i: int|
                0 <= i < n && (#[trigger] entries[i]).0 == id) implies #[trigger] entries_map(
            entries.take(n),
        ).contains_key(id) by {
            let i = choose|i: int| 0 <= i < n && (#[trigger] entries[i]).0 == id;
            if i < n - 1 {
                assert(before.contains_key(id));
            }
        }
    } else {
        assert(entries.take(0).len() == 0);
    }
}

/// A table is what its listing is read back to.
pub proof fn lemma_listing_rebuilds_table(entries: Seq<(usize, bool)>, m: Map<usize, bool>)
    requires
        lists(entries, m),
    ensures
        entries_map(entries) == m,
{
    lemma_entries_map_prefix(entries, m, entries.len() as int);
    assert(entries.take(entries.len() as int) =~= entries);
    let built = entries_map(entries);
    assert forall|id: usize| built.contains_key(id) <==> m.contains_key(id) by {
        if built.contains_key(id) {
            let i = choose|i: int| 0 <= i < entries.len() && (#[trigger] entries[i]).0 == id;
            assert(m.contains_key(entries[i].0));
        }
        if m.contains_key(id) {
            let i = choose|i: int| 0 <= i < entries.len() && (#[trigger] entries[i]).0 == id;
            assert(0 <= i < entries.len() && entries[i].0 == id);
        }
    }
    assert(built =~= m);
}

} // verus!
