use crate::month::{month_of, precedes, MonthlyPlaylist, Timestamp};
use vstd::prelude::*;

verus! {

/// What a playlist entry plays.
#[derive(Clone, Copy, Debug, PartialEq, Eq, Structural)]
pub enum ItemKind {
    Track,
    Episode,
}

/// One entry of the source playlist, as far as archiving reads it.
#[derive(Clone, Debug)]
pub struct PlaylistEntry {
    /// The service's id of what the entry plays; `None` for a local file,
    /// which the service cannot address.
    pub id: Option<String>,
    pub added_at: Timestamp,
    pub kind: ItemKind,
}

/// Whether an entry is archived under `cutoff`: it has an id and was added
/// strictly before the cutoff.
pub open spec fn eligible(e: PlaylistEntry, cutoff: Timestamp) -> bool {
    e.id is Some && precedes(e.added_at, cutoff)
}

/// The items of each month after `e` is assigned.
pub open spec fn assigned(
    m: Map<MonthlyPlaylist, Seq<String>>,
    e: PlaylistEntry,
    cutoff: Timestamp,
) -> Map<MonthlyPlaylist, Seq<String>> {
    if !eligible(e, cutoff) {
        m
    } else if m.contains_key(month_of(e.added_at)) {
        m.insert(month_of(e.added_at), m[month_of(e.added_at)].push(e.id->0))
    } else {
        m.insert(month_of(e.added_at), seq![e.id->0])
    }
}

/// Whether assigning `e` needs a new playlist: it is archived, and its month
/// has no bucket yet.
pub open spec fn opens_playlist(
    m: Map<MonthlyPlaylist, Seq<String>>,
    e: PlaylistEntry,
    cutoff: Timestamp,
) -> bool {
    eligible(e, cutoff) && !m.contains_key(month_of(e.added_at))
}

/// The items of each month after `entries` are assigned in order to an
/// empty table.
pub open spec fn bucketed(entries: Seq<PlaylistEntry>, cutoff: Timestamp) -> Map<
    MonthlyPlaylist,
    Seq<String>,
>
    decreases entries.len(),
{
    if entries.len() == 0 {
        Map::empty()
    } else {
        assigned(bucketed(entries.drop_last(), cutoff), entries.last(), cutoff)
    }
}

/// How many playlists are created for month `k` while `entries` are
/// assigned in order to an empty table.
pub open spec fn playlists_opened(
    entries: Seq<PlaylistEntry>,
    cutoff: Timestamp,
    k: MonthlyPlaylist,
) -> nat
    decreases entries.len(),
{
    if entries.len() == 0 {
        0
    } else {
        playlists_opened(entries.drop_last(), cutoff, k) + if opens_playlist(
            bucketed(entries.drop_last(), cutoff),
            entries.last(),
            cutoff,
        ) && month_of(entries.last().added_at) == k {
            1nat
        } else {
            0nat
        }
    }
}

/// The ids of the archived entries of month `k`, in the order of `entries`.
pub open spec fn ids_in_month(
    entries: Seq<PlaylistEntry>,
    cutoff: Timestamp,
    k: MonthlyPlaylist,
) -> Seq<String>
    decreases entries.len(),
{
    if entries.len() == 0 {
        Seq::empty()
    } else if eligible(entries.last(), cutoff) && month_of(entries.last().added_at) == k {
        ids_in_month(entries.drop_last(), cutoff, k).push(entries.last().id->0)
    } else {
        ids_in_month(entries.drop_last(), cutoff, k)
    }
}

/// The entries of one month and the playlist that will hold them.
#[derive(Clone, Debug)]
pub struct Bucket {
    pub month: MonthlyPlaylist,
    /// Id of the month's playlist.
    pub destination: String,
    /// Ids of the month's entries, in the order they were assigned.
    pub items: Vec<String>,
}

/// What `BucketTable::assign` did with an entry.
#[derive(Clone, Copy, Debug, PartialEq, Eq, Structural)]
pub enum Assignment {
    /// The entry is not archived: it has no id or is not old enough.
    Skipped,
    /// The entry's id was appended to its month's bucket.
    Appended,
    /// The month has no bucket yet: its playlist must be created, and the
    /// entry handed to `BucketTable::open_bucket` with the new playlist's id.
    NeedsPlaylist(MonthlyPlaylist),
}

/// The buckets of one run, at most one per month.
pub struct BucketTable {
    buckets: Vec<Bucket>,
}

spec fn items_of(s: Seq<Bucket>) -> Map<MonthlyPlaylist, Seq<String>>
    decreases s.len(),
{
    if s.len() == 0 {
        Map::empty()
    } else {
        items_of(s.drop_last()).insert(s.last().month, s.last().items@)
    }
}

spec fn destinations_of(s: Seq<Bucket>) -> Map<MonthlyPlaylist, String>
    decreases s.len(),
{
    if s.len() == 0 {
        Map::empty()
    } else {
        destinations_of(s.drop_last()).insert(s.last().month, s.last().destination)
    }
}

spec fn months_unique(s: Seq<Bucket>) -> bool {
    forall|i: int, j: int| 0 <= i < j < s.len() ==> s[i].month != s[j].month
}

proof fn lemma_lookup(s: Seq<Bucket>, k: MonthlyPlaylist)
    requires
        months_unique(s),
    ensures
        items_of(s).contains_key(k) <==> exists|i: int| 0 <= i < s.len() && s[i].month == k,
        destinations_of(s).dom() == items_of(s).dom(),
        forall|i: int|
            0 <= i < s.len() && s[i].month == k ==> items_of(s)[k] == s[i].items@
                && destinations_of(s)[k] == s[i].destination,
    decreases s.len(),
{
    if s.len() > 0 {
        lemma_lookup(s.drop_last(), k);
        assert(forall|i: int|
            0 <= i < s.len() - 1 ==> s.drop_last()[i] == s[i]);
    }
}

proof fn lemma_update_items(s: Seq<Bucket>, i: int, b: Bucket)
    requires
        months_unique(s),
        0 <= i < s.len(),
        b.month == s[i].month,
        b.destination == s[i].destination,
    ensures
        months_unique(s.update(i, b)),
        items_of(s.update(i, b)) == items_of(s).insert(b.month, b.items@),
        destinations_of(s.update(i, b)) == destinations_of(s),
    decreases s.len(),
{
    let t = s.update(i, b);
    if i == s.len() - 1 {
        assert(t.drop_last() =~= s.drop_last());
        lemma_lookup(s.drop_last(), b.month);
        assert forall|j: int| 0 <= j < s.len() - 1 implies s.drop_last()[j].month != b.month by {
            assert(s[j].month != s[i].month);
        }
        assert(!items_of(s.drop_last()).contains_key(b.month));
        assert(items_of(t) =~= items_of(s).insert(b.month, b.items@));
        assert(destinations_of(t) =~= destinations_of(s));
    } else {
        assert(t.drop_last() =~= s.drop_last().update(i, b));
        lemma_update_items(s.drop_last(), i, b);
        assert(s.last().month != b.month);
        assert(items_of(t) =~= items_of(s).insert(b.month, b.items@));
        assert(destinations_of(t) =~= destinations_of(s));
    }
}

impl BucketTable {
    /// The ids gathered for each month that has a bucket.
    pub closed spec fn items(self) -> Map<MonthlyPlaylist, Seq<String>> {
        items_of(self.buckets@)
    }

    /// The playlist of each month that has a bucket.
    pub closed spec fn destinations(self) -> Map<MonthlyPlaylist, String> {
        destinations_of(self.buckets@)
    }

    pub closed spec fn wf(self) -> bool {
        months_unique(self.buckets@)
    }

    pub fn new() -> (r: BucketTable)
        ensures
            r.wf(),
            r.items() == Map::<MonthlyPlaylist, Seq<String>>::empty(),
            r.destinations() == Map::<MonthlyPlaylist, String>::empty(),
    {
        BucketTable { buckets: Vec::new() }
    }

    /// The index of the bucket of month `k`, if there is one.
    fn find(&self, k: &MonthlyPlaylist) -> (r: Option<usize>)
        requires
            self.wf(),
        ensures
            match r {
                Some(i) => i < self.buckets@.len() && self.buckets@[i as int].month == *k,
                None => !self.items().contains_key(*k),
            },
    {
        proof {
            lemma_lookup(self.buckets@, *k);
        }
        let mut i: usize = 0;
        while i < self.buckets.len()
            invariant
                i <= self.buckets@.len(),
                forall|j: int| 0 <= j < i ==> self.buckets@[j].month != *k,
            decreases self.buckets@.len() - i,
        {
            if self.buckets[i].month == *k {
                return Some(i);
            }
            i = i + 1;
        }
        None
    }

    /// Whether month `k` has a bucket.
    pub fn contains(&self, k: &MonthlyPlaylist) -> (r: bool)
        requires
            self.wf(),
        ensures
            r == self.items().contains_key(*k),
    {
        proof {
            lemma_lookup(self.buckets@, *k);
        }
        self.find(k).is_some()
    }

    /// Assigns one entry. An entry that is not archived is skipped. Where
    /// its month has a bucket, its id is appended there. Otherwise the table
    /// is left as it is and the caller is told to create the month's
    /// playlist; the caller holds the table meanwhile, so that no other
    /// entry creates a second playlist for that month.
    pub fn assign(&mut self, entry: &PlaylistEntry, cutoff: &Timestamp) -> (r: Assignment)
        requires
            old(self).wf(),
        ensures
            final(self).wf(),
            (r is Skipped) == !eligible(*entry, *cutoff),
            (r is NeedsPlaylist) == opens_playlist(old(self).items(), *entry, *cutoff),
            r is NeedsPlaylist ==> r->0 == month_of(entry.added_at),
            r is NeedsPlaylist ==> final(self).items() == old(self).items(),
            !(r is NeedsPlaylist) ==> final(self).items() == assigned(
                old(self).items(),
                *entry,
                *cutoff,
            ),
            final(self).destinations() == old(self).destinations(),
    {
        let id = match &entry.id {
            Some(id) => id,
            None => return Assignment::Skipped,
        };
        if !entry.added_at.is_before(cutoff) {
            return Assignment::Skipped;
        }
        let k = MonthlyPlaylist::of(&entry.added_at);
        match self.find(&k) {
            Some(i) => {
                let ghost s = self.buckets@;
                let ghost b0 = s[i as int];
                proof {
                    lemma_lookup(s, k);
                }
                self.buckets[i].items.push(id.clone());
                proof {
                    assert(self.buckets@ =~= s.update(
                        i as int,
                        Bucket { items: self.buckets@[i as int].items, ..b0 },
                    ));
                    lemma_update_items(s, i as int, self.buckets@[i as int]);
                }
                Assignment::Appended
            },
            None => Assignment::NeedsPlaylist(k),
        }
    }

    /// Opens the bucket of an entry whose month has none, with the id of
    /// the playlist created for it, and puts the entry's id in it. Returns
    /// false, and leaves the table as it is, where the entry needs no new
    /// playlist.
    pub fn open_bucket(&mut self, entry: &PlaylistEntry, cutoff: &Timestamp, destination: String) -> (r:
        bool)
        requires
            old(self).wf(),
        ensures
            final(self).wf(),
            r == opens_playlist(old(self).items(), *entry, *cutoff),
            r ==> final(self).items() == assigned(old(self).items(), *entry, *cutoff),
            r ==> final(self).destinations() == old(self).destinations().insert(
                month_of(entry.added_at),
                destination,
            ),
            !r ==> final(self).items() == old(self).items(),
            !r ==> final(self).destinations() == old(self).destinations(),
    {
        let id = match &entry.id {
            Some(id) => id,
            None => return false,
        };
        if !entry.added_at.is_before(cutoff) {
            return false;
        }
        let k = MonthlyPlaylist::of(&entry.added_at);
        proof {
            lemma_lookup(self.buckets@, k);
        }
        if self.find(&k).is_some() {
            return false;
        }
        let mut items: Vec<String> = Vec::new();
        items.push(id.clone());
        let ghost s = self.buckets@;
        self.buckets.push(Bucket { month: k, destination, items });
        proof {
            assert(self.buckets@.drop_last() =~= s);
            lemma_lookup(s, k);
        }
        true
    }

    /// The buckets, one per month that has one, each with its playlist and
    /// its ids in the order they were assigned.
    pub fn buckets(&self) -> (r: &Vec<Bucket>)
        requires
            self.wf(),
        ensures
            forall|i: int, j: int| 0 <= i < j < r@.len() ==> r@[i].month != r@[j].month,
            forall|i: int|
                0 <= i < r@.len() ==> self.items().contains_key(#[trigger] r@[i].month)
                    && self.items()[r@[i].month] == r@[i].items@
                    && self.destinations()[r@[i].month] == r@[i].destination,
            forall|k: MonthlyPlaylist|
                self.items().contains_key(k) ==> exists|i: int|
                    0 <= i < r@.len() && #[trigger] r@[i].month == k,
            self.destinations().dom() == self.items().dom(),
    {
        proof {
            assert forall|i: int|
                0 <= i < self.buckets@.len() implies self.items().contains_key(
                #[trigger] self.buckets@[i].month,
            ) && self.items()[self.buckets@[i].month] == self.buckets@[i].items@
                && self.destinations()[self.buckets@[i].month]
                == self.buckets@[i].destination by {
                lemma_lookup(self.buckets@, self.buckets@[i].month);
            }
            assert forall|k: MonthlyPlaylist| self.items().contains_key(k) implies exists|i: int|
                0 <= i < self.buckets@.len() && #[trigger] self.buckets@[i].month == k by {
                lemma_lookup(self.buckets@, k);
            }
            lemma_lookup(self.buckets@, MonthlyPlaylist { year: 0, month: 1 });
        }
        &self.buckets
    }
}

/// Assigning a sequence of entries to an empty table gives each month a
/// bucket exactly when some archived entry falls in it. That bucket holds
/// the ids of the month's archived entries, in the order they came, and
/// exactly one playlist is created for it.
pub proof fn lemma_bucketed_by_month(entries: Seq<PlaylistEntry>, cutoff: Timestamp, k: MonthlyPlaylist)
    ensures
        bucketed(entries, cutoff).contains_key(k) <==> ids_in_month(entries, cutoff, k).len() > 0,
        bucketed(entries, cutoff).contains_key(k) ==> bucketed(entries, cutoff)[k] == ids_in_month(
            entries,
            cutoff,
            k,
        ),
        playlists_opened(entries, cutoff, k) == if ids_in_month(entries, cutoff, k).len() > 0 {
            1nat
        } else {
            0nat
        },
    decreases entries.len(),
{
    if entries.len() > 0 {
        lemma_bucketed_by_month(entries.drop_last(), cutoff, k);
    }
}

proof fn lemma_position(entries: Seq<PlaylistEntry>, cutoff: Timestamp, i: int)
    requires
        0 <= i < entries.len(),
        eligible(entries[i], cutoff),
    ensures
        ({
            let k = month_of(entries[i].added_at);
            let p = ids_in_month(entries.take(i), cutoff, k).len();
            p < ids_in_month(entries, cutoff, k).len() && ids_in_month(entries, cutoff, k)[p as int]
                == entries[i].id->0
        }),
    decreases entries.len(),
{
    let k = month_of(entries[i].added_at);
    if i == entries.len() - 1 {
        assert(entries.drop_last() =~= entries.take(i));
    } else {
        assert(entries.drop_last().take(i) =~= entries.take(i));
        lemma_position(entries.drop_last(), cutoff, i);
    }
}

/// Two archived entries of the same month land in the same bucket, in the
/// order they came, and that month gets exactly one playlist.
pub proof fn lemma_same_month_same_bucket(
    entries: Seq<PlaylistEntry>,
    cutoff: Timestamp,
    i: int,
    j: int,
)
    requires
        0 <= i < j < entries.len(),
        eligible(entries[i], cutoff),
        eligible(entries[j], cutoff),
        month_of(entries[i].added_at) == month_of(entries[j].added_at),
    ensures
        ({
            let k = month_of(entries[i].added_at);
            let b = bucketed(entries, cutoff);
            &&& b.contains_key(k)
            &&& playlists_opened(entries, cutoff, k) == 1
            &&& exists|p: int, q: int|
                0 <= p < q < b[k].len() && b[k][p] == entries[i].id->0 && b[k][q]
                    == entries[j].id->0
        }),
{
    let k = month_of(entries[i].added_at);
    lemma_bucketed_by_month(entries, cutoff, k);
    lemma_position(entries, cutoff, i);
    lemma_position(entries, cutoff, j);
    let t = entries.take(j);
    assert(t.take(i) =~= entries.take(i));
    assert(t[i] == entries[i]);
    lemma_position(t, cutoff, i);
    let p = ids_in_month(entries.take(i), cutoff, k).len() as int;
    let q = ids_in_month(entries.take(j), cutoff, k).len() as int;
    assert(0 <= p < q);
}

/// An entry that is not archived (no id, or added at or after the cutoff)
/// changes no bucket and creates no playlist, wherever it comes.
pub proof fn lemma_skipped_entry_changes_nothing(
    before: Seq<PlaylistEntry>,
    e: PlaylistEntry,
    after: Seq<PlaylistEntry>,
    cutoff: Timestamp,
    k: MonthlyPlaylist,
)
    requires
        !eligible(e, cutoff),
    ensures
        bucketed(before + seq![e] + after, cutoff) == bucketed(before + after, cutoff),
        playlists_opened(before + seq![e] + after, cutoff, k) == playlists_opened(
            before + after,
            cutoff,
            k,
        ),
    decreases after.len(),
{
    let with = before + seq![e] + after;
    let without = before + after;
    if after.len() == 0 {
        assert(with.drop_last() =~= before);
        assert(without =~= before);
    } else {
        lemma_skipped_entry_changes_nothing(before, e, after.drop_last(), cutoff, k);
        assert(with.drop_last() =~= before + seq![e] + after.drop_last());
        assert(without.drop_last() =~= before + after.drop_last());
    }
}

} // verus!
