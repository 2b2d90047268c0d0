use daily_image::counts::ReactionCounts;
use daily_image::date::Date;
use daily_image::models::Reactions;
use daily_image::store::Store;
use daily_image::user_reaction::{
    get, get_counts, set_favorite, set_reaction, set_reaction_and_update_counts, setup_counts,
    update_counts, UserReactionDaoError,
};

fn day() -> Date {
    Date::new(2024, 5, 10)
}

fn assert_counts(c: &ReactionCounts, no: u64, funny: u64, love: u64, tough: u64, wow: u64) {
    assert_eq!(c.get(Reactions::NoReaction), no);
    assert_eq!(c.get(Reactions::Funny), funny);
    assert_eq!(c.get(Reactions::Love), love);
    assert_eq!(c.get(Reactions::Tough), tough);
    assert_eq!(c.get(Reactions::Wow), wow);
}

#[test]
fn parse_and_name_round_trip() {
    for name in ["NoReaction", "Funny", "Love", "Tough", "Wow", "Eesh", "Pain"] {
        let r = Reactions::get_reaction(name).unwrap();
        assert_eq!(r.name(), name);
    }
    assert!(Reactions::get_reaction("Sparkles").is_err());
    assert!(Reactions::get_reaction("").is_err());
    assert!(Reactions::get_reaction("love").is_err());
}

#[test]
fn deprecated_reactions_are_known_but_inactive() {
    assert!(Reactions::NoReaction.is_active());
    assert!(Reactions::Funny.is_active());
    assert!(Reactions::Love.is_active());
    assert!(Reactions::Tough.is_active());
    assert!(Reactions::Wow.is_active());
    assert!(!Reactions::Eesh.is_active());
    assert!(!Reactions::Pain.is_active());
    assert_eq!(
        Reactions::active_reactions(),
        vec!["NoReaction", "Funny", "Love", "Tough", "Wow"]
    );
}

#[test]
fn fresh_user_reads_defaults() {
    let store = Store::new();
    let items = get(&store, &"discord".to_string(), day(), &"u1".to_string());
    assert_eq!(items.reaction, "NoReaction");
    assert_eq!(items.favorite_image, "");
}

#[test]
fn starting_counts_are_zero_for_every_active_reaction() {
    let mut store = Store::new();
    let group = "discord".to_string();
    assert_eq!(
        get_counts(&store, &group, day()),
        Err(UserReactionDaoError::NotFound)
    );
    setup_counts(&mut store, &group, day());
    let c = get_counts(&store, &group, day()).unwrap();
    assert_counts(&c, 0, 0, 0, 0, 0);
    assert_eq!(c, Reactions::build_starting_counts());
}

#[test]
fn setup_twice_never_resets_counts() {
    let mut store = Store::new();
    let group = "discord".to_string();
    setup_counts(&mut store, &group, day());
    set_reaction_and_update_counts(&mut store, &group, day(), &"u1".to_string(), Reactions::Funny)
        .unwrap();
    let before = get_counts(&store, &group, day()).unwrap();
    assert_eq!(before.get(Reactions::Funny), 1);
    setup_counts(&mut store, &group, day());
    let after = get_counts(&store, &group, day()).unwrap();
    assert_eq!(before, after);
}

#[test]
fn deprecated_reaction_is_rejected() {
    let mut store = Store::new();
    let group = "discord".to_string();
    assert_eq!(
        set_reaction(&mut store, &group, day(), &"u1".to_string(), Reactions::Eesh),
        Err(UserReactionDaoError::DeprecatedReaction)
    );
    assert_eq!(
        set_reaction_and_update_counts(&mut store, &group, day(), &"u1".to_string(), Reactions::Pain),
        Err(UserReactionDaoError::DeprecatedReaction)
    );
    // nothing was written
    let items = get(&store, &group, day(), &"u1".to_string());
    assert_eq!(items.reaction, "NoReaction");
}

#[test]
fn set_reaction_reports_the_replaced_reaction() {
    let mut store = Store::new();
    let group = "discord".to_string();
    let user = "u1".to_string();
    assert_eq!(
        set_reaction(&mut store, &group, day(), &user, Reactions::Wow),
        Ok(Reactions::NoReaction)
    );
    assert_eq!(
        set_reaction(&mut store, &group, day(), &user, Reactions::Love),
        Ok(Reactions::Wow)
    );
    let items = get(&store, &group, day(), &user);
    assert_eq!(items.reaction, "Love");
}

#[test]
fn love_then_funny_leaves_only_funny_counted() {
    let mut store = Store::new();
    let group = "discord".to_string();
    let user = "u1".to_string();
    let (old1, c1) =
        set_reaction_and_update_counts(&mut store, &group, day(), &user, Reactions::Love).unwrap();
    assert_eq!(old1, Reactions::NoReaction);
    assert_counts(&c1, 0, 0, 1, 0, 0);
    let (old2, c2) =
        set_reaction_and_update_counts(&mut store, &group, day(), &user, Reactions::Funny).unwrap();
    assert_eq!(old2, Reactions::Love);
    assert_counts(&c2, 0, 1, 0, 0, 0);
}

#[test]
fn unchanged_reaction_leaves_counts_untouched() {
    let mut store = Store::new();
    let group = "discord".to_string();
    let user = "u1".to_string();
    set_reaction_and_update_counts(&mut store, &group, day(), &user, Reactions::Tough).unwrap();
    let before = get_counts(&store, &group, day()).unwrap();
    let after = update_counts(
        &mut store,
        &group,
        day(),
        Some(Reactions::Tough),
        Reactions::Tough,
    )
    .unwrap();
    assert_eq!(before, after);
    assert_eq!(get_counts(&store, &group, day()).unwrap(), before);
}

#[test]
fn unchanged_reaction_without_counts_record_is_not_found() {
    let mut store = Store::new();
    let group = "discord".to_string();
    assert_eq!(
        update_counts(&mut store, &group, day(), Some(Reactions::Love), Reactions::Love),
        Err(UserReactionDaoError::NotFound)
    );
}

#[test]
fn counts_total_tracks_users_who_ever_reacted() {
    let mut store = Store::new();
    let group = "discord".to_string();
    set_reaction_and_update_counts(&mut store, &group, day(), &"u1".to_string(), Reactions::Love)
        .unwrap();
    set_reaction_and_update_counts(&mut store, &group, day(), &"u2".to_string(), Reactions::Wow)
        .unwrap();
    set_reaction_and_update_counts(&mut store, &group, day(), &"u3".to_string(), Reactions::Funny)
        .unwrap();
    // u1 withdraws to NoReaction: still a user who has reacted
    let (old, c) = set_reaction_and_update_counts(
        &mut store,
        &group,
        day(),
        &"u1".to_string(),
        Reactions::NoReaction,
    )
    .unwrap();
    assert_eq!(old, Reactions::Love);
    assert_counts(&c, 1, 1, 0, 0, 1);
    assert_eq!(c.total(), 3);
    // pinning a favorite alone does not count as reacting
    set_favorite(&mut store, &group, day(), &"u4".to_string(), &"img".to_string());
    assert_eq!(get_counts(&store, &group, day()).unwrap().total(), 3);
}

#[test]
fn first_reaction_counts_up_without_counting_anything_down() {
    let mut store = Store::new();
    let group = "discord".to_string();
    let c = update_counts(&mut store, &group, day(), None, Reactions::Wow).unwrap();
    assert_counts(&c, 0, 0, 0, 0, 1);
    assert_eq!(c.total(), 1);
}

#[test]
fn explicit_no_reaction_still_counts_as_reacting() {
    let mut store = Store::new();
    let group = "discord".to_string();
    let user = "u1".to_string();
    let (old, c) =
        set_reaction_and_update_counts(&mut store, &group, day(), &user, Reactions::NoReaction)
            .unwrap();
    assert_eq!(old, Reactions::NoReaction);
    assert_counts(&c, 1, 0, 0, 0, 0);
    assert_eq!(c.total(), 1);
}

#[test]
fn favorite_first_write_wins() {
    let mut store = Store::new();
    let group = "discord".to_string();
    let user = "u1".to_string();
    let old1 = set_favorite(&mut store, &group, day(), &user, &"first.jpg".to_string());
    assert_eq!(old1, "");
    let old2 = set_favorite(&mut store, &group, day(), &user, &"second.jpg".to_string());
    assert_eq!(old2, "first.jpg");
    let items = get(&store, &group, day(), &user);
    assert_eq!(items.favorite_image, "first.jpg");
}

#[test]
fn favorite_survives_reaction_updates() {
    let mut store = Store::new();
    let group = "discord".to_string();
    let user = "u1".to_string();
    set_favorite(&mut store, &group, day(), &user, &"pin.jpg".to_string());
    set_reaction(&mut store, &group, day(), &user, Reactions::Funny).unwrap();
    let items = get(&store, &group, day(), &user);
    assert_eq!(items.reaction, "Funny");
    assert_eq!(items.favorite_image, "pin.jpg");
}

#[test]
fn days_are_kept_apart() {
    let mut store = Store::new();
    let group = "discord".to_string();
    let user = "u1".to_string();
    let other = Date::new(2024, 5, 11);
    set_reaction_and_update_counts(&mut store, &group, day(), &user, Reactions::Love).unwrap();
    let items = get(&store, &group, other, &user);
    assert_eq!(items.reaction, "NoReaction");
    assert_eq!(
        get_counts(&store, &group, other),
        Err(UserReactionDaoError::NotFound)
    );
}
