//! Reading and writing a user's reaction and favorite, and keeping the
//! per-day reaction counters consistent with the user records.
//!
//! A user's reaction is replaced on every write; the counters follow by
//! counting the new reaction up and the replaced one down. A reaction set for
//! the first time counts nothing down, so each user who has ever reacted is
//! counted exactly once — see [`counts_consistent`] and
//! [`lemma_counts_conservation`].

use vstd::prelude::*;

use crate::counts::ReactionCounts;
use crate::date::Date;
use crate::models::Reactions;
use crate::store::{
    reacted_count, user_reaction_count, user_reaction_counts_same, view_reacted_contrib,
    view_reaction_contrib, lemma_lookup_reacted, lemma_user_reaction_count_le_reacted,
    lemma_user_reaction_count_le_len, lemma_counts_cover_reacted, Store, UserRecord,
    UserRecordView,
};

verus! {

/// What a read returns for one user: the reaction and favorite image, with
/// defaults standing in for anything not stored.
pub struct UserItems {
    pub reaction: String,
    pub favorite_image: String,
}

/// Why a reaction operation was refused.
#[derive(Clone, Copy, Debug, PartialEq, Eq, Structural)]
pub enum UserReactionDaoError {
    /// The submitted reaction is no longer accepted for new writes.
    DeprecatedReaction,
    /// The record asked for does not exist.
    NotFound,
}

/// The reaction a stored record holds, or `None` when the user has never
/// reacted (no record, or a record created by pinning a favorite).
pub open spec fn spec_view_reaction(v: Option<UserRecordView>) -> Option<Reactions> {
    match v {
        Some(rec) => rec.reaction,
        None => None,
    }
}

/// The favorite image a stored record holds, if any.
pub open spec fn spec_view_favorite(v: Option<UserRecordView>) -> Option<Seq<char>> {
    match v {
        Some(rec) => rec.favorite_image,
        None => None,
    }
}

/// The reaction name a read reports: the stored one, defaulting to
/// `NoReaction`.
pub open spec fn spec_reaction_name(v: Option<UserRecordView>) -> Seq<char> {
    match spec_view_reaction(v) {
        Some(r) => r.spec_name(),
        None => Reactions::NoReaction.spec_name(),
    }
}

/// The favorite image a read reports: the stored one, defaulting to the
/// empty string.
pub open spec fn spec_favorite_or_empty(v: Option<UserRecordView>) -> Seq<char> {
    match spec_view_favorite(v) {
        Some(f) => f,
        None => Seq::<char>::empty(),
    }
}

/// The reaction a write reports as the previous one: the stored reaction,
/// with absence standing in as `NoReaction`.
pub open spec fn spec_prior_reaction(v: Option<UserRecordView>) -> Reactions {
    match spec_view_reaction(v) {
        Some(r) => r,
        None => Reactions::NoReaction,
    }
}

/// The favorite image after a write-once attempt with `ni`: the first write
/// wins.
pub open spec fn spec_favorite_after(v: Option<UserRecordView>, ni: Seq<char>) -> Seq<char> {
    match spec_view_favorite(v) {
        Some(f) => f,
        None => ni,
    }
}

/// An existing counters record, or the zero-initialized one where none is
/// stored yet.
pub open spec fn spec_init_counts(c: Option<ReactionCounts>) -> ReactionCounts {
    match c {
        Some(c0) => c0,
        None => ReactionCounts::spec_zero(),
    }
}

/// The counters after recording a change from `old_r` (`None` when the user
/// had no recorded reaction) to `new_r`.
pub open spec fn spec_updated_counts(
    pre: Option<ReactionCounts>,
    old_r: Option<Reactions>,
    new_r: Reactions,
) -> ReactionCounts {
    let base = spec_init_counts(pre).spec_incremented(new_r);
    match old_r {
        Some(r0) => base.spec_decremented(r0),
        None => base,
    }
}

/// The counters record for `(g, d)` agrees with the user records: each
/// active reaction's counter equals the number of users currently holding
/// it, and no counters record at all means nobody has reacted yet.
pub open spec fn counts_consistent(s: Store, g: Seq<char>, d: Date) -> bool {
    match s.counts_at(g, d) {
        Some(c) => forall|r: Reactions|
            r.spec_is_active() ==> #[trigger] c.spec_get(r) == user_reaction_count(
                s.users@,
                g,
                d,
                r,
            ),
        None => reacted_count(s.users@, g, d) == 0,
    }
}

/// Read a user's items for a day. Absence is indistinguishable from the
/// defaults: `NoReaction` and no favorite.
pub fn get(store: &Store, group: &String, date: Date, user: &String) -> (r: UserItems)
    requires
        store.wf(),
    ensures
        r.reaction@ == spec_reaction_name(store.user_at(group@, date, user@)),
        r.favorite_image@ == spec_favorite_or_empty(store.user_at(group@, date, user@)),
{
    match store.lookup_user(group, date, user) {
        Some(rec) => {
            let reaction = match rec.reaction {
                Some(x) => x.name(),
                None => Reactions::NoReaction.name(),
            };
            let favorite_image = match rec.favorite_image {
                Some(s) => s,
                None => String::new(),
            };
            UserItems { reaction, favorite_image }
        },
        None => UserItems {
            reaction: Reactions::NoReaction.name(),
            favorite_image: String::new(),
        },
    }
}

/// Record `new_reaction` as the user's current reaction and report the one
/// it replaced (`NoReaction` when none was recorded). A deprecated reaction
/// is refused and nothing changes.
pub fn set_reaction(
    store: &mut Store,
    group: &String,
    date: Date,
    user: &String,
    new_reaction: Reactions,
) -> (r: Result<Reactions, UserReactionDaoError>)
    requires
        old(store).wf(),
    ensures
        final(store).wf(),
        !new_reaction.spec_is_active() ==> r == Err::<Reactions, UserReactionDaoError>(
            UserReactionDaoError::DeprecatedReaction,
        ) && *final(store) == *old(store),
        new_reaction.spec_is_active() ==> {
            &&& r == Ok::<Reactions, UserReactionDaoError>(
                spec_prior_reaction(old(store).user_at(group@, date, user@)),
            )
            &&& final(store).user_at(group@, date, user@) == Some(
                UserRecordView {
                    reaction: Some(new_reaction),
                    favorite_image: spec_view_favorite(old(store).user_at(group@, date, user@)),
                },
            )
            &&& forall|g: Seq<char>, d: Date, u: Seq<char>|
                !(g == group@ && d == date && u == user@) ==> #[trigger] final(store).user_at(
                    g,
                    d,
                    u,
                ) == old(store).user_at(g, d, u)
            &&& final(store).images@ == old(store).images@
            &&& final(store).counts@ == old(store).counts@
        },
{
    if !new_reaction.is_active() {
        return Err(UserReactionDaoError::DeprecatedReaction);
    }
    let (prior, favorite_image) = match store.lookup_user(group, date, user) {
        Some(rec) => (rec.reaction, rec.favorite_image),
        None => (None, None),
    };
    store.upsert_user(group, date, user, UserRecord { reaction: Some(new_reaction), favorite_image });
    match prior {
        Some(r0) => Ok(r0),
        None => Ok(Reactions::NoReaction),
    }
}

/// Pin `new_image` as the user's favorite unless one is already pinned: the
/// first write wins. Reports the previously pinned image, or the empty
/// string when there was none.
pub fn set_favorite(
    store: &mut Store,
    group: &String,
    date: Date,
    user: &String,
    new_image: &String,
) -> (r: String)
    requires
        old(store).wf(),
    ensures
        final(store).wf(),
        r@ == spec_favorite_or_empty(old(store).user_at(group@, date, user@)),
        final(store).user_at(group@, date, user@) == Some(
            UserRecordView {
                reaction: spec_view_reaction(old(store).user_at(group@, date, user@)),
                favorite_image: Some(
                    spec_favorite_after(old(store).user_at(group@, date, user@), new_image@),
                ),
            },
        ),
        forall|g: Seq<char>, d: Date, u: Seq<char>|
            !(g == group@ && d == date && u == user@) ==> #[trigger] final(store).user_at(g, d, u)
                == old(store).user_at(g, d, u),
        final(store).images@ == old(store).images@,
        final(store).counts@ == old(store).counts@,
        forall|g: Seq<char>, d: Date|
            counts_consistent(*old(store), g, d) ==> #[trigger] counts_consistent(*final(store), g, d),
{
    let ghost pre = *store;
    match store.lookup_user(group, date, user) {
        Some(rec) => {
            match rec.favorite_image {
                Some(f) => {
                    let out = f.clone();
                    store.upsert_user(
                        group,
                        date,
                        user,
                        UserRecord { reaction: rec.reaction, favorite_image: Some(f) },
                    );
                    proof {
                        lemma_consistency_kept_on_same_reaction(pre, *store, group@, date, user@);
                    }
                    out
                },
                None => {
                    store.upsert_user(
                        group,
                        date,
                        user,
                        UserRecord { reaction: rec.reaction, favorite_image: Some(new_image.clone()) },
                    );
                    proof {
                        lemma_consistency_kept_on_same_reaction(pre, *store, group@, date, user@);
                    }
                    String::new()
                },
            }
        },
        None => {
            store.upsert_user(
                group,
                date,
                user,
                UserRecord { reaction: None, favorite_image: Some(new_image.clone()) },
            );
            proof {
                lemma_consistency_kept_on_same_reaction(pre, *store, group@, date, user@);
            }
            String::new()
        },
    }
}

/// Consistency survives a user-record write that does not change which
/// reaction the record holds.
proof fn lemma_consistency_kept_on_same_reaction(
    pre: Store,
    post: Store,
    ug: Seq<char>,
    ud: Date,
    uu: Seq<char>,
)
    requires
        post.counts@ == pre.counts@,
        forall|r: Reactions|
            #[trigger] user_reaction_count(post.users@, ug, ud, r) + view_reaction_contrib(
                pre.user_at(ug, ud, uu),
                r,
            ) == user_reaction_count(pre.users@, ug, ud, r) + view_reaction_contrib(
                post.user_at(ug, ud, uu),
                r,
            ),
        reacted_count(post.users@, ug, ud) + view_reacted_contrib(pre.user_at(ug, ud, uu))
            == reacted_count(pre.users@, ug, ud) + view_reacted_contrib(post.user_at(ug, ud, uu)),
        spec_view_reaction(post.user_at(ug, ud, uu)) == spec_view_reaction(pre.user_at(ug, ud, uu)),
        forall|g: Seq<char>, d: Date|
            !(g == ug && d == ud) ==> #[trigger] user_reaction_counts_same(
                pre.users@,
                post.users@,
                g,
                d,
            ),
    ensures
        forall|g: Seq<char>, d: Date|
            counts_consistent(pre, g, d) ==> #[trigger] counts_consistent(post, g, d),
{
    assert forall|g: Seq<char>, d: Date|
        counts_consistent(pre, g, d) implies #[trigger] counts_consistent(post, g, d) by {
        if g == ug && d == ud {
            assert forall|r: Reactions|
                #[trigger] user_reaction_count(post.users@, g, d, r) == user_reaction_count(
                    pre.users@,
                    g,
                    d,
                    r,
                ) by {
                assert(user_reaction_count(post.users@, ug, ud, r) + view_reaction_contrib(
                    pre.user_at(ug, ud, uu),
                    r,
                ) == user_reaction_count(pre.users@, ug, ud, r) + view_reaction_contrib(
                    post.user_at(ug, ud, uu),
                    r,
                ));
                assert(view_reaction_contrib(pre.user_at(ug, ud, uu), r) == view_reaction_contrib(
                    post.user_at(ug, ud, uu),
                    r,
                ));
            }
            assert(view_reacted_contrib(pre.user_at(ug, ud, uu)) == view_reacted_contrib(
                post.user_at(ug, ud, uu),
            ));
            assert(reacted_count(post.users@, g, d) == reacted_count(pre.users@, g, d));
        } else {
            assert(user_reaction_counts_same(pre.users@, post.users@, g, d));
        }
        assert(post.counts_at(g, d) == pre.counts_at(g, d));
    }
}

/// Idempotently make sure the day's counters record exists. An existing
/// record is never touched; a missing one starts from all zeroes.
pub fn setup_counts(store: &mut Store, group: &String, date: Date)
    requires
        old(store).wf(),
    ensures
        final(store).wf(),
        final(store).counts_at(group@, date) == Some(
            spec_init_counts(old(store).counts_at(group@, date)),
        ),
        forall|g: Seq<char>, d: Date|
            !(g == group@ && d == date) ==> #[trigger] final(store).counts_at(g, d) == old(
                store,
            ).counts_at(g, d),
        final(store).images@ == old(store).images@,
        final(store).users@ == old(store).users@,
        forall|g: Seq<char>, d: Date|
            counts_consistent(*old(store), g, d) ==> #[trigger] counts_consistent(*final(store), g, d),
{
    let ghost pre = *store;
    match store.lookup_counts(group, date) {
        Some(_) => {
            proof {
                assert forall|g: Seq<char>, d: Date|
                    counts_consistent(pre, g, d) implies #[trigger] counts_consistent(
                    *store,
                    g,
                    d,
                ) by {}
            }
        },
        None => {
            store.upsert_counts(group, date, ReactionCounts::new());
            proof {
                assert forall|g: Seq<char>, d: Date|
                    counts_consistent(pre, g, d) implies #[trigger] counts_consistent(
                    *store,
                    g,
                    d,
                ) by {
                    if g == group@ && d == date {
                        assert forall|r: Reactions| r.spec_is_active() implies #[trigger] ReactionCounts::spec_zero().spec_get(
                            r,
                        ) == user_reaction_count(store.users@, g, d, r) by {
                            lemma_user_reaction_count_le_reacted(store.users@, g, d, r);
                        }
                    }
                }
            }
        },
    }
}

/// Read the day's counters record.
pub fn get_counts(store: &Store, group: &String, date: Date) -> (r: Result<
    ReactionCounts,
    UserReactionDaoError,
>)
    ensures
        match store.counts_at(group@, date) {
            Some(c) => r == Ok::<ReactionCounts, UserReactionDaoError>(c),
            None => r == Err::<ReactionCounts, UserReactionDaoError>(UserReactionDaoError::NotFound),
        },
{
    match store.lookup_counts(group, date) {
        Some(c) => Ok(c),
        None => Err(UserReactionDaoError::NotFound),
    }
}

/// Move the day's counters from `old_reaction` (`None` when the user had no
/// recorded reaction) to `new_reaction`.
///
/// When nothing moved, the current counters are returned unchanged — or
/// `NotFound` when no counters record exists yet. Otherwise the record is
/// created if missing, the new reaction's counter goes up by one and the
/// replaced reaction's counter goes down by one; a counter at its bound is
/// left in place rather than wrapped.
pub fn update_counts(
    store: &mut Store,
    group: &String,
    date: Date,
    old_reaction: Option<Reactions>,
    new_reaction: Reactions,
) -> (r: Result<ReactionCounts, UserReactionDaoError>)
    requires
        old(store).wf(),
        new_reaction.spec_is_active(),
        old_reaction matches Some(x) ==> x.spec_is_active(),
    ensures
        final(store).wf(),
        final(store).images@ == old(store).images@,
        final(store).users@ == old(store).users@,
        old_reaction == Some(new_reaction) ==> *final(store) == *old(store) && (match old(
            store,
        ).counts_at(group@, date) {
            Some(c) => r == Ok::<ReactionCounts, UserReactionDaoError>(c),
            None => r == Err::<ReactionCounts, UserReactionDaoError>(UserReactionDaoError::NotFound),
        }),
        old_reaction != Some(new_reaction) ==> {
            &&& r == Ok::<ReactionCounts, UserReactionDaoError>(
                spec_updated_counts(old(store).counts_at(group@, date), old_reaction, new_reaction),
            )
            &&& final(store).counts_at(group@, date) == Some(
                spec_updated_counts(old(store).counts_at(group@, date), old_reaction, new_reaction),
            )
            &&& forall|g: Seq<char>, d: Date|
                !(g == group@ && d == date) ==> #[trigger] final(store).counts_at(g, d) == old(
                    store,
                ).counts_at(g, d)
        },
{
    let same: bool = match old_reaction {
        Some(r0) => r0 == new_reaction,
        None => false,
    };
    if same {
        match store.lookup_counts(group, date) {
            Some(c) => Ok(c),
            None => Err(UserReactionDaoError::NotFound),
        }
    } else {
        let base: ReactionCounts = match store.lookup_counts(group, date) {
            Some(c) => c,
            None => ReactionCounts::new(),
        };
        let bumped: ReactionCounts = base.incremented(new_reaction);
        let updated: ReactionCounts = match old_reaction {
            Some(r0) => bumped.decremented(r0),
            None => bumped,
        };
        store.upsert_counts(group, date, updated);
        Ok(updated)
    }
}

/// One reaction submission as the request handler performs it: record the
/// reaction, then move the counters from the replaced reaction to the new
/// one. Returns the replaced reaction (`NoReaction` when none was recorded)
/// together with the counters after the move.
///
/// Whenever the day's counters agree with the user records beforehand, they
/// agree afterwards too, and the call succeeds.
pub fn set_reaction_and_update_counts(
    store: &mut Store,
    group: &String,
    date: Date,
    user: &String,
    new_reaction: Reactions,
) -> (r: Result<(Reactions, ReactionCounts), UserReactionDaoError>)
    requires
        old(store).wf(),
    ensures
        final(store).wf(),
        final(store).images@ == old(store).images@,
        !new_reaction.spec_is_active() ==> r == Err::<(Reactions, ReactionCounts), UserReactionDaoError>(
            UserReactionDaoError::DeprecatedReaction,
        ) && *final(store) == *old(store),
        new_reaction.spec_is_active() ==> final(store).user_at(group@, date, user@) == Some(
            UserRecordView {
                reaction: Some(new_reaction),
                favorite_image: spec_view_favorite(old(store).user_at(group@, date, user@)),
            },
        ),
        new_reaction.spec_is_active() ==> forall|g: Seq<char>, d: Date, u: Seq<char>|
            !(g == group@ && d == date && u == user@) ==> #[trigger] final(store).user_at(g, d, u)
                == old(store).user_at(g, d, u),
        r matches Ok(p) ==> p.0 == spec_prior_reaction(old(store).user_at(group@, date, user@)),
        r matches Ok(p) ==> (spec_view_reaction(old(store).user_at(group@, date, user@)) != Some(
            new_reaction,
        ) ==> p.1 == spec_updated_counts(
            old(store).counts_at(group@, date),
            spec_view_reaction(old(store).user_at(group@, date, user@)),
            new_reaction,
        ) && final(store).counts_at(group@, date) == Some(p.1)),
        r matches Ok(p) ==> (spec_view_reaction(old(store).user_at(group@, date, user@)) == Some(
            new_reaction,
        ) ==> final(store).counts@ == old(store).counts@ && old(store).counts_at(group@, date)
            == Some(p.1)),
        r == Err::<(Reactions, ReactionCounts), UserReactionDaoError>(
            UserReactionDaoError::NotFound,
        ) ==> {
            &&& new_reaction.spec_is_active()
            &&& spec_view_reaction(old(store).user_at(group@, date, user@)) == Some(new_reaction)
            &&& old(store).counts_at(group@, date) is None
            &&& final(store).counts@ == old(store).counts@
        },
        new_reaction.spec_is_active() && counts_consistent(*old(store), group@, date) ==> r is Ok,
        forall|g: Seq<char>, d: Date|
            !(g == group@ && d == date) ==> #[trigger] final(store).counts_at(g, d) == old(
                store,
            ).counts_at(g, d),
        forall|g: Seq<char>, d: Date|
            counts_consistent(*old(store), g, d) ==> #[trigger] counts_consistent(*final(store), g, d),
{
    if !new_reaction.is_active() {
        return Err(UserReactionDaoError::DeprecatedReaction);
    }
    let ghost pre = *store;
    let (prior, favorite_image) = match store.lookup_user(group, date, user) {
        Some(rec) => (rec.reaction, rec.favorite_image),
        None => (None, None),
    };
    proof {
        assert(prior == spec_view_reaction(pre.user_at(group@, date, user@)));
        if prior is Some {
            lemma_lookup_reacted(pre.users@, group@, date, user@);
        }
    }
    store.upsert_user(
        group,
        date,
        user,
        UserRecord { reaction: Some(new_reaction), favorite_image },
    );
    let ghost mid = *store;
    // the record count bounds every tally, which keeps the counter bump in
    // range; the consistency lemma below leans on this length being a usize
    let _record_count: usize = store.users.len();
    let res = update_counts(store, group, date, prior, new_reaction);
    proof {
        assert forall|g: Seq<char>, d: Date, u: Seq<char>|
            !(g == group@ && d == date && u == user@) implies #[trigger] store.user_at(g, d, u)
            == pre.user_at(g, d, u) by {
            assert(store.user_at(g, d, u) == mid.user_at(g, d, u));
        }
        assert(store.user_at(group@, date, user@) == mid.user_at(group@, date, user@));
        lemma_reaction_put_consistency(pre, mid, *store, group@, date, user@, prior, new_reaction);
    }
    let prior_out = match prior {
        Some(r0) => r0,
        None => Reactions::NoReaction,
    };
    match res {
        Ok(c) => Ok((prior_out, c)),
        Err(e) => Err(e),
    }
}

/// The counter move performed after a reaction write keeps the counters in
/// agreement with the user records, for every key.
proof fn lemma_reaction_put_consistency(
    pre: Store,
    mid: Store,
    post: Store,
    ug: Seq<char>,
    ud: Date,
    uu: Seq<char>,
    prior: Option<Reactions>,
    new_reaction: Reactions,
)
    requires
        new_reaction.spec_is_active(),
        prior matches Some(x) ==> x.spec_is_active(),
        prior == spec_view_reaction(pre.user_at(ug, ud, uu)),
        // what the user-record write did
        mid.counts@ == pre.counts@,
        spec_view_reaction(mid.user_at(ug, ud, uu)) == Some(new_reaction),
        forall|r: Reactions|
            #[trigger] user_reaction_count(mid.users@, ug, ud, r) + view_reaction_contrib(
                pre.user_at(ug, ud, uu),
                r,
            ) == user_reaction_count(pre.users@, ug, ud, r) + (
            if Some(new_reaction) == Some(r) {
                1nat
            } else {
                0nat
            }),
        reacted_count(mid.users@, ug, ud) + view_reacted_contrib(pre.user_at(ug, ud, uu))
            == reacted_count(pre.users@, ug, ud) + 1,
        forall|g: Seq<char>, d: Date|
            !(g == ug && d == ud) ==> #[trigger] user_reaction_counts_same(
                pre.users@,
                mid.users@,
                g,
                d,
            ),
        mid.users@.len() <= u64::MAX,
        // what the counter move did
        post.users@ == mid.users@,
        prior == Some(new_reaction) ==> post == mid,
        prior != Some(new_reaction) ==> post.counts_at(ug, ud) == Some(
            spec_updated_counts(mid.counts_at(ug, ud), prior, new_reaction),
        ),
        prior != Some(new_reaction) ==> forall|g: Seq<char>, d: Date|
            !(g == ug && d == ud) ==> #[trigger] post.counts_at(g, d) == mid.counts_at(g, d),
    ensures
        forall|g: Seq<char>, d: Date|
            counts_consistent(pre, g, d) ==> #[trigger] counts_consistent(post, g, d),
        counts_consistent(pre, ug, ud) && prior == Some(new_reaction) ==> pre.counts_at(ug, ud)
            is Some,
{
    assert(mid.counts_at(ug, ud) == pre.counts_at(ug, ud));
    if counts_consistent(pre, ug, ud) && prior == Some(new_reaction) {
        // the user already held a reaction, so somebody has reacted and the
        // counters record must exist
        if pre.counts_at(ug, ud) is None {
            assert(reacted_count(pre.users@, ug, ud) == 0);
            assert(view_reacted_contrib(pre.user_at(ug, ud, uu)) == 1);
            lemma_lookup_reacted(pre.users@, ug, ud, uu);
            assert(false);
        }
    }
    assert forall|g: Seq<char>, d: Date|
        counts_consistent(pre, g, d) implies #[trigger] counts_consistent(post, g, d) by {
        if g == ug && d == ud {
            lemma_reaction_put_consistency_here(pre, mid, post, ug, ud, uu, prior, new_reaction);
        } else {
            assert(user_reaction_counts_same(pre.users@, mid.users@, g, d));
            if prior == Some(new_reaction) {
                assert(post.counts_at(g, d) == pre.counts_at(g, d));
            } else {
                assert(post.counts_at(g, d) == pre.counts_at(g, d));
            }
            match pre.counts_at(g, d) {
                Some(c) => {
                    assert forall|r: Reactions| r.spec_is_active() implies #[trigger] c.spec_get(r)
                        == user_reaction_count(post.users@, g, d, r) by {
                        assert(user_reaction_count(mid.users@, g, d, r) == user_reaction_count(
                            pre.users@,
                            g,
                            d,
                            r,
                        ));
                    }
                },
                None => {},
            }
        }
    }
}

/// The key actually written: the counters there now match the moved tallies.
proof fn lemma_reaction_put_consistency_here(
    pre: Store,
    mid: Store,
    post: Store,
    ug: Seq<char>,
    ud: Date,
    uu: Seq<char>,
    prior: Option<Reactions>,
    new_reaction: Reactions,
)
    requires
        new_reaction.spec_is_active(),
        prior matches Some(x) ==> x.spec_is_active(),
        prior == spec_view_reaction(pre.user_at(ug, ud, uu)),
        counts_consistent(pre, ug, ud),
        mid.counts@ == pre.counts@,
        forall|r: Reactions|
            #[trigger] user_reaction_count(mid.users@, ug, ud, r) + view_reaction_contrib(
                pre.user_at(ug, ud, uu),
                r,
            ) == user_reaction_count(pre.users@, ug, ud, r) + (
            if Some(new_reaction) == Some(r) {
                1nat
            } else {
                0nat
            }),
        reacted_count(mid.users@, ug, ud) + view_reacted_contrib(pre.user_at(ug, ud, uu))
            == reacted_count(pre.users@, ug, ud) + 1,
        mid.users@.len() <= u64::MAX,
        post.users@ == mid.users@,
        prior == Some(new_reaction) ==> post == mid,
        prior != Some(new_reaction) ==> post.counts_at(ug, ud) == Some(
            spec_updated_counts(mid.counts_at(ug, ud), prior, new_reaction),
        ),
    ensures
        counts_consistent(post, ug, ud),
{
    assert(mid.counts_at(ug, ud) == pre.counts_at(ug, ud));
    if prior == Some(new_reaction) {
        // nothing moved: every tally is unchanged
        assert forall|r: Reactions|
            #[trigger] user_reaction_count(mid.users@, ug, ud, r) == user_reaction_count(
                pre.users@,
                ug,
                ud,
                r,
            ) by {
            assert(view_reaction_contrib(pre.user_at(ug, ud, uu), r) == (
            if Some(new_reaction) == Some(r) {
                1nat
            } else {
                0nat
            }));
        }
        match pre.counts_at(ug, ud) {
            Some(c) => {},
            None => {
                assert(reacted_count(mid.users@, ug, ud) == reacted_count(pre.users@, ug, ud));
            },
        }
    } else {
        let base = spec_init_counts(pre.counts_at(ug, ud));
        // before the write, every counter agrees with the old tallies
        assert forall|r: Reactions| r.spec_is_active() implies #[trigger] base.spec_get(r)
            == user_reaction_count(pre.users@, ug, ud, r) by {
            match pre.counts_at(ug, ud) {
                Some(c) => {},
                None => {
                    lemma_user_reaction_count_le_reacted(pre.users@, ug, ud, r);
                },
            }
        }
        // the new reaction's tally went up by exactly one
        assert(view_reaction_contrib(pre.user_at(ug, ud, uu), new_reaction) == 0nat);
        assert(user_reaction_count(mid.users@, ug, ud, new_reaction) == user_reaction_count(
            pre.users@,
            ug,
            ud,
            new_reaction,
        ) + 1);
        lemma_user_reaction_count_le_len(mid.users@, ug, ud, new_reaction);
        assert(base.spec_get(new_reaction) < u64::MAX);
        let bumped = base.spec_incremented(new_reaction);
        assert(bumped.spec_get(new_reaction) == base.spec_get(new_reaction) + 1);
        let updated = spec_updated_counts(pre.counts_at(ug, ud), prior, new_reaction);
        assert forall|r: Reactions| r.spec_is_active() implies #[trigger] updated.spec_get(r)
            == user_reaction_count(post.users@, ug, ud, r) by {
            assert(user_reaction_count(post.users@, ug, ud, r) == user_reaction_count(
                mid.users@,
                ug,
                ud,
                r,
            ));
            assert(user_reaction_count(mid.users@, ug, ud, r) + view_reaction_contrib(
                pre.user_at(ug, ud, uu),
                r,
            ) == user_reaction_count(pre.users@, ug, ud, r) + (
            if Some(new_reaction) == Some(r) {
                1nat
            } else {
                0nat
            }));
            assert(base.spec_get(r) == user_reaction_count(pre.users@, ug, ud, r));
            match prior {
                Some(p0) => {
                    assert(view_reaction_contrib(pre.user_at(ug, ud, uu), p0) == 1nat);
                    assert(user_reaction_count(mid.users@, ug, ud, p0) + 1
                        == user_reaction_count(pre.users@, ug, ud, p0));
                    assert(updated == bumped.spec_decremented(p0));
                    if r == p0 {
                        assert(bumped.spec_get(p0) == base.spec_get(p0));
                        assert(bumped.spec_get(p0) >= 1);
                        assert(updated.spec_get(p0) == bumped.spec_get(p0) - 1);
                    } else if r == new_reaction {
                        assert(updated.spec_get(r) == bumped.spec_get(r));
                        assert(view_reaction_contrib(pre.user_at(ug, ud, uu), r) == 0nat);
                    } else {
                        assert(view_reaction_contrib(pre.user_at(ug, ud, uu), r) == 0nat);
                        assert(bumped.spec_get(r) == base.spec_get(r));
                        assert(updated.spec_get(r) == bumped.spec_get(r));
                    }
                },
                None => {
                    assert(updated == bumped);
                    if r != new_reaction {
                        assert(view_reaction_contrib(pre.user_at(ug, ud, uu), r) == 0nat);
                        assert(updated.spec_get(r) == base.spec_get(r));
                    }
                },
            }
        }
    }
}

/// Conservation law: as long as the day's counters agree with the user
/// records, they sum to exactly the number of users who have ever reacted
/// for that day.
pub proof fn lemma_counts_conservation(s: Store, g: Seq<char>, d: Date)
    requires
        s.wf(),
        counts_consistent(s, g, d),
        s.counts_at(g, d) is Some,
    ensures
        s.counts_at(g, d).unwrap().spec_total() == reacted_count(s.users@, g, d),
{
    let c = s.counts_at(g, d).unwrap();
    assert(c.spec_get(Reactions::NoReaction) == user_reaction_count(
        s.users@,
        g,
        d,
        Reactions::NoReaction,
    ));
    assert(c.spec_get(Reactions::Funny) == user_reaction_count(s.users@, g, d, Reactions::Funny));
    assert(c.spec_get(Reactions::Love) == user_reaction_count(s.users@, g, d, Reactions::Love));
    assert(c.spec_get(Reactions::Tough) == user_reaction_count(s.users@, g, d, Reactions::Tough));
    assert(c.spec_get(Reactions::Wow) == user_reaction_count(s.users@, g, d, Reactions::Wow));
    lemma_counts_cover_reacted(s.users@, g, d);
}

/// Setting up the counters twice is the same as doing it once: whatever
/// record the first pass left — freshly zeroed or long since moved on — the
/// second pass keeps it exactly.
pub proof fn lemma_setup_counts_idempotent(c: Option<ReactionCounts>)
    ensures
        spec_init_counts(Some(spec_init_counts(c))) == spec_init_counts(c),
{
}

/// A favorite is write-once: once a record pins an image, a later write of
/// any other image hands the pinned image back as the previous value and
/// leaves it pinned.
pub proof fn lemma_favorite_write_once(rec: UserRecordView, second: Seq<char>)
    requires
        rec.favorite_image is Some,
    ensures
        spec_favorite_or_empty(Some(rec)) == rec.favorite_image.unwrap(),
        spec_favorite_after(Some(rec), second) == rec.favorite_image.unwrap(),
{
}

} // verus!
