//! In-memory model of the backing table.
//!
//! The table holds three kinds of records, all keyed by a group and a date:
//! the day's selected image, the day's reaction counters, and one record per
//! user who has touched the day. Keys are unique; every operation states
//! exactly which key it changes and that every other key is left alone.

use vstd::prelude::*;

use crate::counts::ReactionCounts;
use crate::date::Date;
use crate::models::Reactions;

verus! {

/// What is stored for a day's selected image.
pub struct ImageRow {
    pub object_key: String,
    pub get_recents: bool,
    pub days_until_get_recents: i64,
}

/// Ghost image of an [`ImageRow`].
pub struct ImageRowView {
    pub object_key: Seq<char>,
    pub get_recents: bool,
    pub days_until_get_recents: int,
}

impl View for ImageRow {
    type V = ImageRowView;

    open spec fn view(&self) -> ImageRowView {
        ImageRowView {
            object_key: self.object_key@,
            get_recents: self.get_recents,
            days_until_get_recents: self.days_until_get_recents as int,
        }
    }
}

/// What is stored for one user on one day.
pub struct UserRecord {
    /// The reaction the user currently holds; `None` until the first write.
    pub reaction: Option<Reactions>,
    /// The image the user pinned as favorite; `None` until the first write.
    pub favorite_image: Option<String>,
}

/// Ghost image of a [`UserRecord`].
pub struct UserRecordView {
    pub reaction: Option<Reactions>,
    pub favorite_image: Option<Seq<char>>,
}

impl View for UserRecord {
    type V = UserRecordView;

    open spec fn view(&self) -> UserRecordView {
        UserRecordView {
            reaction: self.reaction,
            favorite_image: match self.favorite_image {
                Some(s) => Some(s@),
                None => None,
            },
        }
    }
}

impl UserRecord {
    pub fn clone_record(&self) -> (r: UserRecord)
        ensures
            r@ == self@,
    {
        UserRecord {
            reaction: self.reaction,
            favorite_image: match &self.favorite_image {
                Some(s) => Some(s.clone()),
                None => None,
            },
        }
    }
}

/// A stored image selection, keyed by `(group, date)`.
pub struct ImageEntry {
    pub group: String,
    pub date: Date,
    pub row: ImageRow,
}

/// A stored counters record, keyed by `(group, date)`.
pub struct CountsEntry {
    pub group: String,
    pub date: Date,
    pub counts: ReactionCounts,
}

/// A stored user record, keyed by `(group, date, user)`.
pub struct UserEntry {
    pub group: String,
    pub date: Date,
    pub user: String,
    pub rec: UserRecord,
}

impl ImageEntry {
    pub open spec fn key_matches(self, g: Seq<char>, d: Date) -> bool {
        self.group@ == g && self.date == d
    }
}

impl CountsEntry {
    pub open spec fn key_matches(self, g: Seq<char>, d: Date) -> bool {
        self.group@ == g && self.date == d
    }
}

impl UserEntry {
    pub open spec fn key_matches(self, g: Seq<char>, d: Date, u: Seq<char>) -> bool {
        self.group@ == g && self.date == d && self.user@ == u
    }
}

pub open spec fn find_image_from(rows: Seq<ImageEntry>, g: Seq<char>, d: Date, i: int) -> Option<
    ImageRowView,
>
    decreases rows.len() - i,
{
    if i < 0 || i >= rows.len() {
        None
    } else if rows[i].key_matches(g, d) {
        Some(rows[i].row@)
    } else {
        find_image_from(rows, g, d, i + 1)
    }
}

pub open spec fn find_counts_from(rows: Seq<CountsEntry>, g: Seq<char>, d: Date, i: int) -> Option<
    ReactionCounts,
>
    decreases rows.len() - i,
{
    if i < 0 || i >= rows.len() {
        None
    } else if rows[i].key_matches(g, d) {
        Some(rows[i].counts)
    } else {
        find_counts_from(rows, g, d, i + 1)
    }
}

pub open spec fn find_user_from(
    rows: Seq<UserEntry>,
    g: Seq<char>,
    d: Date,
    u: Seq<char>,
    i: int,
) -> Option<UserRecordView>
    decreases rows.len() - i,
{
    if i < 0 || i >= rows.len() {
        None
    } else if rows[i].key_matches(g, d, u) {
        Some(rows[i].rec@)
    } else {
        find_user_from(rows, g, d, u, i + 1)
    }
}

/// How many stored user records for `(g, d)` currently hold reaction `r`.
pub open spec fn user_reaction_count(
    rows: Seq<UserEntry>,
    g: Seq<char>,
    d: Date,
    r: Reactions,
) -> nat
    decreases rows.len(),
{
    if rows.len() == 0 {
        0
    } else {
        user_reaction_count(rows.drop_last(), g, d, r) + entry_reaction_contrib(
            rows.last(),
            g,
            d,
            r,
        )
    }
}

/// How many stored user records for `(g, d)` have ever reacted (hold any
/// reaction at all).
pub open spec fn reacted_count(rows: Seq<UserEntry>, g: Seq<char>, d: Date) -> nat
    decreases rows.len(),
{
    if rows.len() == 0 {
        0
    } else {
        reacted_count(rows.drop_last(), g, d) + entry_reacted_contrib(rows.last(), g, d)
    }
}

pub open spec fn entry_reaction_contrib(e: UserEntry, g: Seq<char>, d: Date, r: Reactions) -> nat {
    if e.group@ == g && e.date == d && e.rec.reaction == Some(r) {
        1
    } else {
        0
    }
}

pub open spec fn entry_reacted_contrib(e: UserEntry, g: Seq<char>, d: Date) -> nat {
    if e.group@ == g && e.date == d && e.rec.reaction is Some {
        1
    } else {
        0
    }
}

/// The contribution one looked-up record makes to a reaction's counter.
pub open spec fn view_reaction_contrib(v: Option<UserRecordView>, r: Reactions) -> nat {
    match v {
        Some(rec) => if rec.reaction == Some(r) {
            1
        } else {
            0
        },
        None => 0,
    }
}

/// The contribution one looked-up record makes to the number of users who
/// have reacted.
pub open spec fn view_reacted_contrib(v: Option<UserRecordView>) -> nat {
    match v {
        Some(rec) => if rec.reaction is Some {
            1
        } else {
            0
        },
        None => 0,
    }
}

/// The whole table.
pub struct Store {
    pub images: Vec<ImageEntry>,
    pub counts: Vec<CountsEntry>,
    pub users: Vec<UserEntry>,
}

impl Store {
    /// The image record stored at `(g, d)`, if any.
    pub open spec fn image_at(self, g: Seq<char>, d: Date) -> Option<ImageRowView> {
        find_image_from(self.images@, g, d, 0)
    }

    /// The counters record stored at `(g, d)`, if any.
    pub open spec fn counts_at(self, g: Seq<char>, d: Date) -> Option<ReactionCounts> {
        find_counts_from(self.counts@, g, d, 0)
    }

    /// The user record stored at `(g, d, u)`, if any.
    pub open spec fn user_at(self, g: Seq<char>, d: Date, u: Seq<char>) -> Option<UserRecordView> {
        find_user_from(self.users@, g, d, u, 0)
    }

    /// Well-formedness: keys are unique within each record kind, and every
    /// stored reaction is one that was once accepted for writing.
    pub open spec fn wf(self) -> bool {
        &&& forall|i: int, j: int|
            #![trigger self.images@[i], self.images@[j]]
            0 <= i < j < self.images@.len() ==> !self.images@[j].key_matches(
                self.images@[i].group@,
                self.images@[i].date,
            )
        &&& forall|i: int, j: int|
            #![trigger self.counts@[i], self.counts@[j]]
            0 <= i < j < self.counts@.len() ==> !self.counts@[j].key_matches(
                self.counts@[i].group@,
                self.counts@[i].date,
            )
        &&& forall|i: int, j: int|
            #![trigger self.users@[i], self.users@[j]]
            0 <= i < j < self.users@.len() ==> !self.users@[j].key_matches(
                self.users@[i].group@,
                self.users@[i].date,
                self.users@[i].user@,
            )
        &&& forall|i: int|
            0 <= i < self.users@.len() ==> ((#[trigger] self.users@[i]).rec.reaction matches Some(
                r,
            ) ==> r.spec_is_active())
    }

    /// An empty table.
    pub fn new() -> (s: Store)
        ensures
            s.wf(),
            s.images@.len() == 0,
            s.counts@.len() == 0,
            s.users@.len() == 0,
            forall|g: Seq<char>, d: Date| #[trigger] s.image_at(g, d) is None,
            forall|g: Seq<char>, d: Date| #[trigger] s.counts_at(g, d) is None,
            forall|g: Seq<char>, d: Date, u: Seq<char>| #[trigger] s.user_at(g, d, u) is None,
            forall|g: Seq<char>, d: Date| #[trigger] reacted_count(s.users@, g, d) == 0,
    {
        Store { images: Vec::new(), counts: Vec::new(), users: Vec::new() }
    }

    fn find_image_idx(&self, group: &String, date: Date) -> (r: Option<usize>)
        ensures
            match r {
                Some(i) => {
                    &&& i < self.images@.len()
                    &&& self.images@[i as int].key_matches(group@, date)
                    &&& forall|j: int|
                        0 <= j < i ==> !(#[trigger] self.images@[j]).key_matches(group@, date)
                },
                None => forall|j: int|
                    0 <= j < self.images@.len() ==> !(#[trigger] self.images@[j]).key_matches(
                        group@,
                        date,
                    ),
            },
    {
        let n: usize = self.images.len();
        let mut i: usize = 0;
        while i < n
            invariant
                i <= n,
                n == self.images@.len(),
                forall|j: int| 0 <= j < i ==> !(#[trigger] self.images@[j]).key_matches(group@, date),
            decreases n - i,
        {
            if self.images[i].group == *group && self.images[i].date == date {
                return Some(i);
            }
            i = i + 1;
        }
        None
    }

    fn find_counts_idx(&self, group: &String, date: Date) -> (r: Option<usize>)
        ensures
            match r {
                Some(i) => {
                    &&& i < self.counts@.len()
                    &&& self.counts@[i as int].key_matches(group@, date)
                    &&& forall|j: int|
                        0 <= j < i ==> !(#[trigger] self.counts@[j]).key_matches(group@, date)
                },
                None => forall|j: int|
                    0 <= j < self.counts@.len() ==> !(#[trigger] self.counts@[j]).key_matches(
                        group@,
                        date,
                    ),
            },
    {
        let n: usize = self.counts.len();
        let mut i: usize = 0;
        while i < n
            invariant
                i <= n,
                n == self.counts@.len(),
                forall|j: int| 0 <= j < i ==> !(#[trigger] self.counts@[j]).key_matches(group@, date),
            decreases n - i,
        {
            if self.counts[i].group == *group && self.counts[i].date == date {
                return Some(i);
            }
            i = i + 1;
        }
        None
    }

    fn find_user_idx(&self, group: &String, date: Date, user: &String) -> (r: Option<usize>)
        ensures
            match r {
                Some(i) => {
                    &&& i < self.users@.len()
                    &&& self.users@[i as int].key_matches(group@, date, user@)
                    &&& forall|j: int|
                        0 <= j < i ==> !(#[trigger] self.users@[j]).key_matches(group@, date, user@)
                },
                None => forall|j: int|
                    0 <= j < self.users@.len() ==> !(#[trigger] self.users@[j]).key_matches(
                        group@,
                        date,
                        user@,
                    ),
            },
    {
        let n: usize = self.users.len();
        let mut i: usize = 0;
        while i < n
            invariant
                i <= n,
                n == self.users@.len(),
                forall|j: int|
                    0 <= j < i ==> !(#[trigger] self.users@[j]).key_matches(group@, date, user@),
            decreases n - i,
        {
            if self.users[i].group == *group && self.users[i].date == date && self.users[i].user
                == *user {
                return Some(i);
            }
            i = i + 1;
        }
        None
    }

    /// Read the image record at `(group, date)`.
    pub fn lookup_image(&self, group: &String, date: Date) -> (r: Option<ImageRow>)
        ensures
            match r {
                Some(row) => self.image_at(group@, date) == Some(row@),
                None => self.image_at(group@, date) is None,
            },
    {
        match self.find_image_idx(group, date) {
            Some(i) => {
                proof {
                    lemma_find_image_some(self.images@, group@, date, 0, i as int);
                }
                let e = &self.images[i];
                Some(
                    ImageRow {
                        object_key: e.row.object_key.clone(),
                        get_recents: e.row.get_recents,
                        days_until_get_recents: e.row.days_until_get_recents,
                    },
                )
            },
            None => {
                proof {
                    lemma_find_image_none(self.images@, group@, date, 0);
                }
                None
            },
        }
    }

    /// Read the counters record at `(group, date)`.
    pub fn lookup_counts(&self, group: &String, date: Date) -> (r: Option<ReactionCounts>)
        ensures
            r == self.counts_at(group@, date),
    {
        match self.find_counts_idx(group, date) {
            Some(i) => {
                proof {
                    lemma_find_counts_some(self.counts@, group@, date, 0, i as int);
                }
                Some(self.counts[i].counts)
            },
            None => {
                proof {
                    lemma_find_counts_none(self.counts@, group@, date, 0);
                }
                None
            },
        }
    }

    /// Read the user record at `(group, date, user)`.
    pub fn lookup_user(&self, group: &String, date: Date, user: &String) -> (r: Option<UserRecord>)
        requires
            self.wf(),
        ensures
            match r {
                Some(rec) => self.user_at(group@, date, user@) == Some(rec@) && (rec.reaction
                    matches Some(x) ==> x.spec_is_active()),
                None => self.user_at(group@, date, user@) is None,
            },
    {
        match self.find_user_idx(group, date, user) {
            Some(i) => {
                proof {
                    lemma_find_user_some(self.users@, group@, date, user@, 0, i as int);
                }
                Some(self.users[i].rec.clone_record())
            },
            None => {
                proof {
                    lemma_find_user_none(self.users@, group@, date, user@, 0);
                }
                None
            },
        }
    }

    /// Write the image record at the entry's key, creating or overwriting it.
    pub fn upsert_image(&mut self, entry: ImageEntry)
        requires
            old(self).wf(),
        ensures
            final(self).wf(),
            final(self).image_at(entry.group@, entry.date) == Some(entry.row@),
            forall|g: Seq<char>, d: Date|
                !(g == entry.group@ && d == entry.date) ==> #[trigger] final(self).image_at(g, d)
                    == old(self).image_at(g, d),
            final(self).counts@ == old(self).counts@,
            final(self).users@ == old(self).users@,
    {
        let ghost pre = self.images@;
        match self.find_image_idx(&entry.group, entry.date) {
            Some(i) => {
                let ghost gi = i as int;
                let ghost ge = entry;
                self.images.set(i, entry);
                proof {
                    assert forall|g: Seq<char>, d: Date| !(g == ge.group@ && d == ge.date) implies #[trigger] find_image_from(
                        self.images@,
                        g,
                        d,
                        0,
                    ) == find_image_from(pre, g, d, 0) by {
                        lemma_find_image_update_other(pre, gi, ge, g, d, 0);
                    }
                    lemma_find_image_some(self.images@, ge.group@, ge.date, 0, gi);
                }
            },
            None => {
                let ghost ge = entry;
                self.images.push(entry);
                proof {
                    assert forall|g: Seq<char>, d: Date| !(g == ge.group@ && d == ge.date) implies #[trigger] find_image_from(
                        self.images@,
                        g,
                        d,
                        0,
                    ) == find_image_from(pre, g, d, 0) by {
                        lemma_find_image_push(pre, ge, g, d, 0);
                    }
                    lemma_find_image_some(self.images@, ge.group@, ge.date, 0, pre.len() as int);
                }
            },
        }
    }

    /// Write the counters record at `(group, date)`, creating or overwriting
    /// it.
    pub fn upsert_counts(&mut self, group: &String, date: Date, counts: ReactionCounts)
        requires
            old(self).wf(),
        ensures
            final(self).wf(),
            final(self).counts_at(group@, date) == Some(counts),
            forall|g: Seq<char>, d: Date|
                !(g == group@ && d == date) ==> #[trigger] final(self).counts_at(g, d) == old(
                    self,
                ).counts_at(g, d),
            final(self).images@ == old(self).images@,
            final(self).users@ == old(self).users@,
    {
        let ghost pre = self.counts@;
        let entry = CountsEntry { group: group.clone(), date, counts };
        let ghost ge = entry;
        match self.find_counts_idx(group, date) {
            Some(i) => {
                let ghost gi = i as int;
                self.counts.set(i, entry);
                proof {
                    assert forall|g: Seq<char>, d: Date| !(g == group@ && d == date) implies #[trigger] find_counts_from(
                        self.counts@,
                        g,
                        d,
                        0,
                    ) == find_counts_from(pre, g, d, 0) by {
                        lemma_find_counts_update_other(pre, gi, ge, g, d, 0);
                    }
                    lemma_find_counts_some(self.counts@, group@, date, 0, gi);
                }
            },
            None => {
                self.counts.push(entry);
                proof {
                    assert forall|g: Seq<char>, d: Date| !(g == group@ && d == date) implies #[trigger] find_counts_from(
                        self.counts@,
                        g,
                        d,
                        0,
                    ) == find_counts_from(pre, g, d, 0) by {
                        lemma_find_counts_push(pre, ge, g, d, 0);
                    }
                    lemma_find_counts_some(self.counts@, group@, date, 0, pre.len() as int);
                }
            },
        }
    }

    /// Write the user record at `(group, date, user)`, creating or
    /// overwriting it, and account for how the reaction tallies move.
    pub fn upsert_user(&mut self, group: &String, date: Date, user: &String, rec: UserRecord)
        requires
            old(self).wf(),
            rec.reaction matches Some(r) ==> r.spec_is_active(),
        ensures
            final(self).wf(),
            final(self).user_at(group@, date, user@) == Some(rec@),
            forall|g: Seq<char>, d: Date, u: Seq<char>|
                !(g == group@ && d == date && u == user@) ==> #[trigger] final(self).user_at(
                    g,
                    d,
                    u,
                ) == old(self).user_at(g, d, u),
            final(self).images@ == old(self).images@,
            final(self).counts@ == old(self).counts@,
            forall|r: Reactions|
                #[trigger] user_reaction_count(final(self).users@, group@, date, r)
                    + view_reaction_contrib(old(self).user_at(group@, date, user@), r)
                    == user_reaction_count(old(self).users@, group@, date, r) + (
                if rec.reaction == Some(r) {
                    1nat
                } else {
                    0nat
                }),
            reacted_count(final(self).users@, group@, date) + view_reacted_contrib(
                old(self).user_at(group@, date, user@),
            ) == reacted_count(old(self).users@, group@, date) + (
            if rec.reaction is Some {
                1nat
            } else {
                0nat
            }),
            forall|g: Seq<char>, d: Date|
                !(g == group@ && d == date) ==> #[trigger] user_reaction_counts_same(
                    old(self).users@,
                    final(self).users@,
                    g,
                    d,
                ),
            final(self).users@.len() <= old(self).users@.len() + 1,
    {
        let ghost pre = self.users@;
        let entry = UserEntry { group: group.clone(), date, user: user.clone(), rec };
        let ghost ge = entry;
        match self.find_user_idx(group, date, user) {
            Some(i) => {
                let ghost gi = i as int;
                proof {
                    lemma_find_user_some(pre, group@, date, user@, 0, gi);
                }
                self.users.set(i, entry);
                proof {
                    assert forall|g: Seq<char>, d: Date, u: Seq<char>|
                        !(g == group@ && d == date && u == user@) implies #[trigger] find_user_from(
                        self.users@,
                        g,
                        d,
                        u,
                        0,
                    ) == find_user_from(pre, g, d, u, 0) by {
                        lemma_find_user_update_other(pre, gi, ge, g, d, u, 0);
                    }
                    lemma_find_user_some(self.users@, group@, date, user@, 0, gi);
                    assert forall|r: Reactions|
                        #[trigger] user_reaction_count(self.users@, group@, date, r)
                            + entry_reaction_contrib(pre[gi], group@, date, r)
                            == user_reaction_count(pre, group@, date, r) + entry_reaction_contrib(
                            ge,
                            group@,
                            date,
                            r,
                        ) by {
                        lemma_user_reaction_count_update(pre, gi, ge, group@, date, r);
                    }
                    lemma_reacted_count_update(pre, gi, ge, group@, date);
                    assert forall|g: Seq<char>, d: Date|
                        !(g == group@ && d == date) implies #[trigger] user_reaction_counts_same(
                        pre,
                        self.users@,
                        g,
                        d,
                    ) by {
                        assert forall|r: Reactions|
                            #[trigger] user_reaction_count(self.users@, g, d, r)
                                == user_reaction_count(pre, g, d, r) by {
                            lemma_user_reaction_count_update(pre, gi, ge, g, d, r);
                        }
                        lemma_reacted_count_update(pre, gi, ge, g, d);
                    }
                }
            },
            None => {
                proof {
                    lemma_find_user_none(pre, group@, date, user@, 0);
                }
                self.users.push(entry);
                proof {
                    assert(self.users@.drop_last() =~= pre);
                    assert forall|g: Seq<char>, d: Date, u: Seq<char>|
                        !(g == group@ && d == date && u == user@) implies #[trigger] find_user_from(
                        self.users@,
                        g,
                        d,
                        u,
                        0,
                    ) == find_user_from(pre, g, d, u, 0) by {
                        lemma_find_user_push(pre, ge, g, d, u, 0);
                    }
                    lemma_find_user_some(self.users@, group@, date, user@, 0, pre.len() as int);
                    assert forall|g: Seq<char>, d: Date|
                        !(g == group@ && d == date) implies #[trigger] user_reaction_counts_same(
                        pre,
                        self.users@,
                        g,
                        d,
                    ) by {
                        assert(user_reaction_counts_same(pre, self.users@, g, d));
                    }
                }
            },
        }
    }
}

/// Both tallies agree between two user-record sequences for the key `(g, d)`.
pub open spec fn user_reaction_counts_same(
    a: Seq<UserEntry>,
    b: Seq<UserEntry>,
    g: Seq<char>,
    d: Date,
) -> bool {
    &&& forall|r: Reactions|
        #[trigger] user_reaction_count(b, g, d, r) == user_reaction_count(a, g, d, r)
    &&& reacted_count(b, g, d) == reacted_count(a, g, d)
}

proof fn lemma_find_image_none(rows: Seq<ImageEntry>, g: Seq<char>, d: Date, i: int)
    requires
        forall|j: int| i <= j < rows.len() ==> !(#[trigger] rows[j]).key_matches(g, d),
    ensures
        find_image_from(rows, g, d, i) is None,
    decreases rows.len() - i,
{
    if 0 <= i < rows.len() {
        lemma_find_image_none(rows, g, d, i + 1);
    }
}

proof fn lemma_find_image_some(rows: Seq<ImageEntry>, g: Seq<char>, d: Date, i: int, k: int)
    requires
        0 <= i <= k < rows.len(),
        rows[k].key_matches(g, d),
        forall|j: int| i <= j < k ==> !(#[trigger] rows[j]).key_matches(g, d),
    ensures
        find_image_from(rows, g, d, i) == Some(rows[k].row@),
    decreases k - i,
{
    if i < k {
        lemma_find_image_some(rows, g, d, i + 1, k);
    }
}

proof fn lemma_find_image_update_other(
    rows: Seq<ImageEntry>,
    i0: int,
    e: ImageEntry,
    g: Seq<char>,
    d: Date,
    i: int,
)
    requires
        0 <= i0 < rows.len(),
        e.group@ == rows[i0].group@,
        e.date == rows[i0].date,
        !(g == e.group@ && d == e.date),
    ensures
        find_image_from(rows.update(i0, e), g, d, i) == find_image_from(rows, g, d, i),
    decreases rows.len() - i,
{
    if 0 <= i < rows.len() {
        lemma_find_image_update_other(rows, i0, e, g, d, i + 1);
    }
}

proof fn lemma_find_image_push(rows: Seq<ImageEntry>, e: ImageEntry, g: Seq<char>, d: Date, i: int)
    requires
        0 <= i <= rows.len(),
        !e.key_matches(g, d),
    ensures
        find_image_from(rows.push(e), g, d, i) == find_image_from(rows, g, d, i),
    decreases rows.len() - i,
{
    if i < rows.len() {
        lemma_find_image_push(rows, e, g, d, i + 1);
    } else {
        assert(find_image_from(rows.push(e), g, d, i + 1) is None);
    }
}

proof fn lemma_find_counts_none(rows: Seq<CountsEntry>, g: Seq<char>, d: Date, i: int)
    requires
        forall|j: int| i <= j < rows.len() ==> !(#[trigger] rows[j]).key_matches(g, d),
    ensures
        find_counts_from(rows, g, d, i) is None,
    decreases rows.len() - i,
{
    if 0 <= i < rows.len() {
        lemma_find_counts_none(rows, g, d, i + 1);
    }
}

proof fn lemma_find_counts_some(rows: Seq<CountsEntry>, g: Seq<char>, d: Date, i: int, k: int)
    requires
        0 <= i <= k < rows.len(),
        rows[k].key_matches(g, d),
        forall|j: int| i <= j < k ==> !(#[trigger] rows[j]).key_matches(g, d),
    ensures
        find_counts_from(rows, g, d, i) == Some(rows[k].counts),
    decreases k - i,
{
    if i < k {
        lemma_find_counts_some(rows, g, d, i + 1, k);
    }
}

proof fn lemma_find_counts_update_other(
    rows: Seq<CountsEntry>,
    i0: int,
    e: CountsEntry,
    g: Seq<char>,
    d: Date,
    i: int,
)
    requires
        0 <= i0 < rows.len(),
        e.group@ == rows[i0].group@,
        e.date == rows[i0].date,
        !(g == e.group@ && d == e.date),
    ensures
        find_counts_from(rows.update(i0, e), g, d, i) == find_counts_from(rows, g, d, i),
    decreases rows.len() - i,
{
    if 0 <= i < rows.len() {
        lemma_find_counts_update_other(rows, i0, e, g, d, i + 1);
    }
}

proof fn lemma_find_counts_push(
    rows: Seq<CountsEntry>,
    e: CountsEntry,
    g: Seq<char>,
    d: Date,
    i: int,
)
    requires
        0 <= i <= rows.len(),
        !e.key_matches(g, d),
    ensures
        find_counts_from(rows.push(e), g, d, i) == find_counts_from(rows, g, d, i),
    decreases rows.len() - i,
{
    if i < rows.len() {
        lemma_find_counts_push(rows, e, g, d, i + 1);
    } else {
        assert(find_counts_from(rows.push(e), g, d, i + 1) is None);
    }
}

proof fn lemma_find_user_none(rows: Seq<UserEntry>, g: Seq<char>, d: Date, u: Seq<char>, i: int)
    requires
        forall|j: int| i <= j < rows.len() ==> !(#[trigger] rows[j]).key_matches(g, d, u),
    ensures
        find_user_from(rows, g, d, u, i) is None,
    decreases rows.len() - i,
{
    if 0 <= i < rows.len() {
        lemma_find_user_none(rows, g, d, u, i + 1);
    }
}

proof fn lemma_find_user_some(
    rows: Seq<UserEntry>,
    g: Seq<char>,
    d: Date,
    u: Seq<char>,
    i: int,
    k: int,
)
    requires
        0 <= i <= k < rows.len(),
        rows[k].key_matches(g, d, u),
        forall|j: int| i <= j < k ==> !(#[trigger] rows[j]).key_matches(g, d, u),
    ensures
        find_user_from(rows, g, d, u, i) == Some(rows[k].rec@),
    decreases k - i,
{
    if i < k {
        lemma_find_user_some(rows, g, d, u, i + 1, k);
    }
}

proof fn lemma_find_user_update_other(
    rows: Seq<UserEntry>,
    i0: int,
    e: UserEntry,
    g: Seq<char>,
    d: Date,
    u: Seq<char>,
    i: int,
)
    requires
        0 <= i0 < rows.len(),
        e.group@ == rows[i0].group@,
        e.date == rows[i0].date,
        e.user@ == rows[i0].user@,
        !(g == e.group@ && d == e.date && u == e.user@),
    ensures
        find_user_from(rows.update(i0, e), g, d, u, i) == find_user_from(rows, g, d, u, i),
    decreases rows.len() - i,
{
    if 0 <= i < rows.len() {
        lemma_find_user_update_other(rows, i0, e, g, d, u, i + 1);
    }
}

proof fn lemma_find_user_push(
    rows: Seq<UserEntry>,
    e: UserEntry,
    g: Seq<char>,
    d: Date,
    u: Seq<char>,
    i: int,
)
    requires
        0 <= i <= rows.len(),
        !e.key_matches(g, d, u),
    ensures
        find_user_from(rows.push(e), g, d, u, i) == find_user_from(rows, g, d, u, i),
    decreases rows.len() - i,
{
    if i < rows.len() {
        lemma_find_user_push(rows, e, g, d, u, i + 1);
    } else {
        assert(find_user_from(rows.push(e), g, d, u, i + 1) is None);
    }
}

proof fn lemma_user_reaction_count_update(
    rows: Seq<UserEntry>,
    i0: int,
    e: UserEntry,
    g: Seq<char>,
    d: Date,
    r: Reactions,
)
    requires
        0 <= i0 < rows.len(),
    ensures
        user_reaction_count(rows.update(i0, e), g, d, r) + entry_reaction_contrib(rows[i0], g, d, r)
            == user_reaction_count(rows, g, d, r) + entry_reaction_contrib(e, g, d, r),
    decreases rows.len(),
{
    let upd = rows.update(i0, e);
    if i0 == rows.len() - 1 {
        assert(upd.drop_last() =~= rows.drop_last());
    } else {
        assert(upd.drop_last() =~= rows.drop_last().update(i0, e));
        lemma_user_reaction_count_update(rows.drop_last(), i0, e, g, d, r);
    }
}

proof fn lemma_reacted_count_update(
    rows: Seq<UserEntry>,
    i0: int,
    e: UserEntry,
    g: Seq<char>,
    d: Date,
)
    requires
        0 <= i0 < rows.len(),
    ensures
        reacted_count(rows.update(i0, e), g, d) + entry_reacted_contrib(rows[i0], g, d)
            == reacted_count(rows, g, d) + entry_reacted_contrib(e, g, d),
    decreases rows.len(),
{
    let upd = rows.update(i0, e);
    if i0 == rows.len() - 1 {
        assert(upd.drop_last() =~= rows.drop_last());
    } else {
        assert(upd.drop_last() =~= rows.drop_last().update(i0, e));
        lemma_reacted_count_update(rows.drop_last(), i0, e, g, d);
    }
}

/// Each reaction's tally is bounded by the number of stored records.
pub proof fn lemma_user_reaction_count_le_len(
    rows: Seq<UserEntry>,
    g: Seq<char>,
    d: Date,
    r: Reactions,
)
    ensures
        user_reaction_count(rows, g, d, r) <= rows.len(),
    decreases rows.len(),
{
    if rows.len() > 0 {
        lemma_user_reaction_count_le_len(rows.drop_last(), g, d, r);
    }
}

/// A reaction's tally never exceeds the number of users who have reacted.
pub proof fn lemma_user_reaction_count_le_reacted(
    rows: Seq<UserEntry>,
    g: Seq<char>,
    d: Date,
    r: Reactions,
)
    ensures
        user_reaction_count(rows, g, d, r) <= reacted_count(rows, g, d),
    decreases rows.len(),
{
    if rows.len() > 0 {
        lemma_user_reaction_count_le_reacted(rows.drop_last(), g, d, r);
    }
}

proof fn lemma_entry_reacted_le(rows: Seq<UserEntry>, g: Seq<char>, d: Date, k: int)
    requires
        0 <= k < rows.len(),
    ensures
        entry_reacted_contrib(rows[k], g, d) <= reacted_count(rows, g, d),
    decreases rows.len(),
{
    if k < rows.len() - 1 {
        lemma_entry_reacted_le(rows.drop_last(), g, d, k);
        assert(rows.drop_last()[k] == rows[k]);
    }
}

proof fn lemma_find_user_witness(rows: Seq<UserEntry>, g: Seq<char>, d: Date, u: Seq<char>, i: int)
    requires
        0 <= i,
        find_user_from(rows, g, d, u, i) is Some,
    ensures
        exists|k: int|
            #![trigger rows[k]]
            i <= k < rows.len() && rows[k].key_matches(g, d, u) && rows[k].rec@
                == find_user_from(rows, g, d, u, i).unwrap(),
    decreases rows.len() - i,
{
    if i < rows.len() && !rows[i].key_matches(g, d, u) {
        lemma_find_user_witness(rows, g, d, u, i + 1);
    }
}

/// A stored record that holds a reaction witnesses at least one user who has
/// reacted for that day.
pub proof fn lemma_lookup_reacted(rows: Seq<UserEntry>, g: Seq<char>, d: Date, u: Seq<char>)
    requires
        view_reacted_contrib(find_user_from(rows, g, d, u, 0)) == 1,
    ensures
        reacted_count(rows, g, d) >= 1,
{
    lemma_find_user_witness(rows, g, d, u, 0);
    let k = choose|k: int|
        #![trigger rows[k]]
        0 <= k < rows.len() && rows[k].key_matches(g, d, u) && rows[k].rec@ == find_user_from(
            rows,
            g,
            d,
            u,
            0,
        ).unwrap();
    lemma_entry_reacted_le(rows, g, d, k);
}

/// Summed over the active reactions, the tallies cover every user who has
/// reacted exactly once.
pub proof fn lemma_counts_cover_reacted(rows: Seq<UserEntry>, g: Seq<char>, d: Date)
    requires
        forall|i: int|
            0 <= i < rows.len() ==> ((#[trigger] rows[i]).rec.reaction matches Some(r)
                ==> r.spec_is_active()),
    ensures
        user_reaction_count(rows, g, d, Reactions::NoReaction) + user_reaction_count(
            rows,
            g,
            d,
            Reactions::Funny,
        ) + user_reaction_count(rows, g, d, Reactions::Love) + user_reaction_count(
            rows,
            g,
            d,
            Reactions::Tough,
        ) + user_reaction_count(rows, g, d, Reactions::Wow) == reacted_count(rows, g, d),
    decreases rows.len(),
{
    if rows.len() > 0 {
        assert(forall|i: int|
            0 <= i < rows.drop_last().len() ==> ((#[trigger] rows.drop_last()[i]).rec.reaction
                matches Some(r) ==> r.spec_is_active()));
        lemma_counts_cover_reacted(rows.drop_last(), g, d);
    }
}

} // verus!
