use crate::err::Error;
use crate::remote;
use crate::remote::RemoteService;
use crate::series::{SeriesConfig, SeriesEntry};
use vstd::prelude::*;

verus! {

/// One persisted series: its binding, its catalog facts and its tracking
/// record, all keyed by the same catalog id.
pub struct StoredSeries {
    pub config: SeriesConfig,
    pub info: remote::SeriesInfo,
    pub entry: SeriesEntry,
}

/// Whether a stored row is internally consistent.
pub open spec fn row_wf(s: StoredSeries) -> bool {
    s.config@.id == s.info@.id && s.entry.spec_entry().id == s.config@.id
}

/// The first index whose nickname matches, if any.
pub open spec fn find_nick(rows: Seq<StoredSeries>, nickname: Seq<char>, from: int) -> Option<int>
    decreases rows.len() - from,
{
    if !(0 <= from < rows.len()) {
        None
    } else if rows[from].config@.nickname == nickname {
        Some(from)
    } else {
        find_nick(rows, nickname, from + 1)
    }
}

/// The first index whose catalog id matches, if any.
pub open spec fn find_id(rows: Seq<StoredSeries>, id: remote::SeriesID, from: int) -> Option<int>
    decreases rows.len() - from,
{
    if !(0 <= from < rows.len()) {
        None
    } else if rows[from].config@.id == id {
        Some(from)
    } else {
        find_id(rows, id, from + 1)
    }
}

/// In-memory persistence of series bindings, catalog facts and tracking
/// records. Nicknames and catalog ids each identify at most one series;
/// deleting a series removes all three records at once.
pub struct Repository {
    rows: Vec<StoredSeries>,
}

impl Repository {
    /// The stored rows, in storage order.
    pub closed spec fn spec_rows(self) -> Seq<StoredSeries> {
        self.rows@
    }

    /// Ids unique, nicknames unique, rows internally consistent. Every
    /// constructor establishes this and every method preserves it.
    pub closed spec fn wf(self) -> bool {
        &&& forall|i: int, j: int|
            0 <= i < j < self.rows@.len() ==> (#[trigger] self.rows@[i]).config@.id != (
            #[trigger] self.rows@[j]).config@.id
        &&& forall|i: int, j: int|
            0 <= i < j < self.rows@.len() ==> (#[trigger] self.rows@[i]).config@.nickname != (
            #[trigger] self.rows@[j]).config@.nickname
        &&& forall|i: int| 0 <= i < self.rows@.len() ==> row_wf(#[trigger] self.rows@[i])
    }

    /// An empty store.
    pub fn new() -> (r: Self)
        ensures
            r.spec_rows().len() == 0,
            r.wf(),
    {
        Repository { rows: Vec::new() }
    }

    /// How many series are stored.
    pub fn len(&self) -> (r: usize)
        ensures
            r == self.spec_rows().len(),
    {
        self.rows.len()
    }

    /// Insert or update the three records of one series atomically, keyed by
    /// catalog id. Fails, changing nothing, when the records disagree on
    /// their id or the nickname already names a different series.
    pub fn save(&mut self, config: &SeriesConfig, info: &remote::SeriesInfo, entry: &SeriesEntry)
        -> (r: Result<(), Error>)
        requires
            old(self).wf(),
        ensures
            final(self).wf(),
            r is Ok ==> {
                &&& find_nick(final(self).spec_rows(), config@.nickname, 0) matches Some(i)
                    && final(self).spec_rows()[i].config@ == config@ && final(self).spec_rows()[i].info@
                    == info@ && final(self).spec_rows()[i].entry == *entry
            },
            r is Err ==> *final(self) == *old(self),
            r is Err ==> (r matches Err(e) ==> e is DatabaseConstraint),
            (config@.id == info@.id && entry.spec_entry().id == config@.id && (match find_nick(
                old(self).spec_rows(),
                config@.nickname,
                0,
            ) {
                Some(i) => old(self).spec_rows()[i].config@.id == config@.id,
                None => true,
            })) ==> r is Ok,
    {
        if !(config.id == info.id && entry.id() == config.id) {
            proof {
                assert(!(config@.id == info@.id && entry.spec_entry().id == config@.id));
            }
            return Err(
                Error::DatabaseConstraint { nickname: crate::text::clone_string(&config.nickname) },
            );
        }
        let row = StoredSeries {
            config: config.duplicate(),
            info: info.duplicate(),
            entry: *entry,
        };
        let nick_idx = self.find_nickname_idx(&config.nickname);
        let id_idx = self.find_id_idx(config.id);
        match (id_idx, nick_idx) {
            (Some(i), Some(j)) => {
                if i != j {
                    // the nickname belongs to a different series
                    return Err(
                        Error::DatabaseConstraint {
                            nickname: crate::text::clone_string(&config.nickname),
                        },
                    );
                }
                let slot = &mut self.rows[i];
                *slot = row;
                proof {
                    lemma_find_nick_unique(self.rows@, config@.nickname, i as int);
                }
                Ok(())
            },
            (Some(i), None) => {
                // same id under a new nickname: replace the row
                let slot = &mut self.rows[i];
                *slot = row;
                proof {
                    lemma_find_nick_unique(self.rows@, config@.nickname, i as int);
                }
                Ok(())
            },
            (None, Some(_)) => {
                // the nickname belongs to a different series
                Err(Error::DatabaseConstraint {
                    nickname: crate::text::clone_string(&config.nickname),
                })
            },
            (None, None) => {
                self.rows.push(row);
                proof {
                    lemma_find_nick_unique(self.rows@, config@.nickname, self.rows@.len() - 1);
                }
                Ok(())
            },
        }
    }

    /// The three records stored under a nickname, as copies.
    pub fn load(&self, nickname: &String) -> (r: Option<
        (SeriesConfig, remote::SeriesInfo, SeriesEntry),
    >)
        ensures
            match r {
                Some(t) => find_nick(self.spec_rows(), nickname@, 0) matches Some(i)
                    && self.spec_rows()[i].config@ == t.0@ && self.spec_rows()[i].info@ == t.1@
                    && self.spec_rows()[i].entry == t.2,
                None => find_nick(self.spec_rows(), nickname@, 0) is None,
            },
    {
        match self.find_nickname_idx(nickname) {
            Some(i) => {
                let row = &self.rows[i];
                Some((row.config.duplicate(), row.info.duplicate(), row.entry))
            },
            None => None,
        }
    }

    /// Remove a series and its three records; removing an unknown nickname
    /// changes nothing.
    pub fn delete(&mut self, nickname: &String) -> (r: bool)
        requires
            old(self).wf(),
        ensures
            final(self).wf(),
            match find_nick(old(self).spec_rows(), nickname@, 0) {
                Some(i) => r && final(self).spec_rows() == old(self).spec_rows().remove(i),
                None => !r && *final(self) == *old(self),
            },
    {
        match self.find_nickname_idx(nickname) {
            Some(i) => {
                self.rows.remove(i);
                true
            },
            None => false,
        }
    }

    /// Push every entry with local changes; a failed push leaves its flag
    /// set and the batch goes on. Returns the ids whose push failed.
    pub fn sync_all<R: RemoteService>(&mut self, remote_svc: &R) -> (failed: Vec<remote::SeriesID>)
        requires
            old(self).wf(),
        ensures
            final(self).wf(),
            final(self).spec_rows().len() == old(self).spec_rows().len(),
            forall|i: int|
                0 <= i < old(self).spec_rows().len() ==> {
                    let before = #[trigger] old(self).spec_rows()[i];
                    let after = final(self).spec_rows()[i];
                    &&& after.config == before.config
                    &&& after.info == before.info
                    &&& after.entry.spec_entry() == before.entry.spec_entry()
                    &&& (!before.entry.spec_needs_sync() ==> after == before)
                    &&& (after.entry.spec_needs_sync() ==> before.entry.spec_needs_sync())
                },
            remote_svc.spec_is_offline() ==> final(self).spec_rows() == old(self).spec_rows()
                && failed@.len() == 0,
            !remote_svc.spec_is_offline() ==> forall|i: int|
                0 <= i < old(self).spec_rows().len() && (#[trigger] old(self).spec_rows()[i]).entry.spec_needs_sync()
                    ==> (final(self).spec_rows()[i].entry.spec_needs_sync() <==> failed@.contains(
                    old(self).spec_rows()[i].entry.spec_entry().id,
                )),
    {
        let ghost rows0 = self.rows@;
        let mut failed: Vec<remote::SeriesID> = Vec::new();
        let mut i: usize = 0;
        while i < self.rows.len()
            invariant
                i <= rows0.len(),
                self.rows@.len() == rows0.len(),
                forall|m: int, n: int|
                    0 <= m < n < rows0.len() ==> (#[trigger] rows0[m]).config@.id != (
                    #[trigger] rows0[n]).config@.id,
                forall|m: int, n: int|
                    0 <= m < n < rows0.len() ==> (#[trigger] rows0[m]).config@.nickname != (
                    #[trigger] rows0[n]).config@.nickname,
                forall|m: int| 0 <= m < rows0.len() ==> row_wf(#[trigger] rows0[m]),
                forall|m: int|
                    0 <= m < rows0.len() ==> {
                        let before = #[trigger] rows0[m];
                        let after = self.rows@[m];
                        &&& after.config == before.config
                        &&& after.info == before.info
                        &&& after.entry.spec_entry() == before.entry.spec_entry()
                        &&& (!before.entry.spec_needs_sync() ==> after == before)
                        &&& (after.entry.spec_needs_sync() ==> before.entry.spec_needs_sync())
                    },
                forall|m: int| i <= m < rows0.len() ==> self.rows@[m] == rows0[m],
                remote_svc.spec_is_offline() ==> self.rows@ == rows0 && failed@.len() == 0,
                !remote_svc.spec_is_offline() ==> forall|m: int|
                    0 <= m < i && (#[trigger] rows0[m]).entry.spec_needs_sync() ==> (
                    self.rows@[m].entry.spec_needs_sync() <==> failed@.contains(
                        rows0[m].entry.spec_entry().id,
                    )),
                forall|k: int|
                    #![trigger failed@[k]]
                    0 <= k < failed@.len() ==> exists|m: int|
                        0 <= m < i && (#[trigger] rows0[m]).entry.spec_entry().id == failed@[k],
            decreases rows0.len() - i,
        {
            let needs = self.rows[i].entry.needs_sync();
            if needs {
                let ghost rows_before = self.rows@;
                let ghost failed_before = failed@;
                let row = &mut self.rows[i];
                let push_result = row.entry.force_sync_to_remote(remote_svc);
                let pushed_failed = push_result.is_err();
                if pushed_failed {
                    failed.push(row.entry.id());
                }
                proof {
                    assert(self.rows@ =~= rows_before.update(i as int, self.rows@[i as int]));
                    assert(forall|m: int|
                        0 <= m < rows0.len() && m != i ==> self.rows@[m] == rows_before[m]);
                    if pushed_failed {
                        assert(failed@ =~= failed_before.push(rows0[i as int].entry.spec_entry().id));
                        assert(self.rows@[i as int] == rows_before[i as int]);
                    }
                    if remote_svc.spec_is_offline() {
                        assert(self.rows@ =~= rows0);
                    }
                    if !remote_svc.spec_is_offline() {
                        assert forall|m: int|
                            0 <= m < i + 1 && (#[trigger] rows0[m]).entry.spec_needs_sync()
                                implies (self.rows@[m].entry.spec_needs_sync()
                                <==> failed@.contains(rows0[m].entry.spec_entry().id)) by {
                            let id_m = rows0[m].entry.spec_entry().id;
                            let id_i = rows0[i as int].entry.spec_entry().id;
                            if m < i {
                                assert(self.rows@[m] == rows_before[m]);
                                if pushed_failed {
                                    // the new id cannot be an old row's id
                                    assert(row_wf(rows0[m]) && row_wf(rows0[i as int]));
                                    assert(id_m != id_i);
                                    if failed@.contains(id_m) {
                                        let k = choose|k: int|
                                            0 <= k < failed@.len() && failed@[k] == id_m;
                                        assert(failed_before[k] == id_m);
                                        assert(failed_before.contains(id_m));
                                    }
                                    if failed_before.contains(id_m) {
                                        let k = choose|k: int|
                                            0 <= k < failed_before.len() && failed_before[k]
                                                == id_m;
                                        assert(failed@[k] == id_m);
                                        assert(failed@.contains(id_m));
                                    }
                                } else {
                                    assert(failed@ == failed_before);
                                }
                            } else {
                                // m == i: the row just pushed
                                if pushed_failed {
                                    assert(failed@.last() == id_i);
                                    assert(failed@.contains(id_i));
                                    assert(self.rows@[m].entry.spec_needs_sync());
                                } else {
                                    assert(!self.rows@[m].entry.spec_needs_sync());
                                    if failed@.contains(id_i) {
                                        let k = choose|k: int|
                                            0 <= k < failed@.len() && failed@[k] == id_i;
                                        let m2 = choose|m2: int|
                                            0 <= m2 < i && (#[trigger] rows0[m2]).entry.spec_entry().id
                                                == failed@[k];
                                        assert(row_wf(rows0[m2]) && row_wf(rows0[i as int]));
                                        assert(rows0[m2].config@.id == rows0[i as int].config@.id);
                                        assert(false);
                                    }
                                }
                            }
                        }
                    }
                }
            }
            i = i + 1;
        }
        proof {
            assert forall|a: int, b: int|
                0 <= a < b < self.rows@.len() implies (#[trigger] self.rows@[a]).config@.id != (
                #[trigger] self.rows@[b]).config@.id && self.rows@[a].config@.nickname != self.rows@[
                b
            ].config@.nickname by {
                assert(self.rows@[a].config == rows0[a].config);
                assert(self.rows@[b].config == rows0[b].config);
            }
            assert forall|a: int| 0 <= a < self.rows@.len() implies row_wf(
                #[trigger] self.rows@[a],
            ) by {
                assert(self.rows@[a].config == rows0[a].config);
                assert(self.rows@[a].info == rows0[a].info);
                assert(self.rows@[a].entry.spec_entry() == rows0[a].entry.spec_entry());
                assert(row_wf(rows0[a]));
            }
        }
        failed
    }

    fn find_nickname_idx(&self, nickname: &String) -> (r: Option<usize>)
        ensures
            match r {
                Some(i) => i < self.spec_rows().len() && find_nick(
                    self.spec_rows(),
                    nickname@,
                    0,
                ) == Some(i as int) && self.spec_rows()[i as int].config@.nickname == nickname@,
                None => find_nick(self.spec_rows(), nickname@, 0) is None && forall|m: int|
                    0 <= m < self.spec_rows().len() ==> (#[trigger] self.spec_rows()[m]).config@.nickname
                        != nickname@,
            },
    {
        let mut i: usize = 0;
        while i < self.rows.len()
            invariant
                i <= self.rows@.len(),
                find_nick(self.rows@, nickname@, 0) == find_nick(self.rows@, nickname@, i as int),
                forall|m: int|
                    0 <= m < i ==> (#[trigger] self.rows@[m]).config@.nickname != nickname@,
            decreases self.rows@.len() - i,
        {
            if self.rows[i].config.nickname.eq(nickname) {
                return Some(i);
            }
            i = i + 1;
        }
        None
    }

    fn find_id_idx(&self, id: remote::SeriesID) -> (r: Option<usize>)
        ensures
            match r {
                Some(i) => i < self.spec_rows().len() && find_id(self.spec_rows(), id, 0) == Some(
                    i as int,
                ) && self.spec_rows()[i as int].config@.id == id,
                None => find_id(self.spec_rows(), id, 0) is None && forall|m: int|
                    0 <= m < self.spec_rows().len() ==> (#[trigger] self.spec_rows()[m]).config@.id
                        != id,
            },
    {
        let mut i: usize = 0;
        while i < self.rows.len()
            invariant
                i <= self.rows@.len(),
                find_id(self.rows@, id, 0) == find_id(self.rows@, id, i as int),
                forall|m: int| 0 <= m < i ==> (#[trigger] self.rows@[m]).config@.id != id,
            decreases self.rows@.len() - i,
        {
            if self.rows[i].config.id == id {
                return Some(i);
            }
            i = i + 1;
        }
        None
    }
}

/// When a row with the nickname stands at `at` and nicknames are unique,
/// the search finds exactly that row.
proof fn lemma_find_nick_unique(rows: Seq<StoredSeries>, nickname: Seq<char>, at: int)
    requires
        0 <= at < rows.len(),
        rows[at].config@.nickname == nickname,
        forall|i: int, j: int|
            0 <= i < j < rows.len() ==> (#[trigger] rows[i]).config@.nickname != (
            #[trigger] rows[j]).config@.nickname,
    ensures
        find_nick(rows, nickname, 0) == Some(at),
{
    lemma_find_nick_from(rows, nickname, at, 0);
}

proof fn lemma_find_nick_from(rows: Seq<StoredSeries>, nickname: Seq<char>, at: int, from: int)
    requires
        0 <= from <= at < rows.len(),
        rows[at].config@.nickname == nickname,
        forall|i: int, j: int|
            0 <= i < j < rows.len() ==> (#[trigger] rows[i]).config@.nickname != (
            #[trigger] rows[j]).config@.nickname,
    ensures
        find_nick(rows, nickname, from) == Some(at),
    decreases at - from,
{
    if from < at {
        assert(rows[from].config@.nickname != nickname);
        lemma_find_nick_from(rows, nickname, at, from + 1);
    }
}

} // verus!
