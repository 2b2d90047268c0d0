use daily_image::date::Date;
use daily_image::images::{
    format_image_url, get_image, get_image_and_recap, get_recents, set_image, ImageDynamoDaoError,
};
use daily_image::selection::{select_and_set, SelectAndSetRandomObjectError};
use daily_image::store::Store;

fn pool_of(keys: &[&str]) -> Vec<String> {
    keys.iter().map(|k| k.to_string()).collect()
}

/// Fill the five days before `date` with the given keys, most recent day last.
fn fill_window(store: &mut Store, group: &String, date: Date, keys: &[&str]) {
    assert_eq!(keys.len(), 5);
    // keys[0] goes 5 days back, keys[4] one day back
    let mut days: Vec<Date> = Vec::new();
    let mut cur = date;
    for _ in 0..5 {
        cur = cur.prev_day();
        days.push(cur);
    }
    days.reverse();
    for (day, key) in days.iter().zip(keys.iter()) {
        set_image(store, group, *day, &key.to_string(), 1);
    }
}

#[test]
fn window_fully_used_forces_the_one_free_object() {
    let mut store = Store::new();
    let group = "discord".to_string();
    let date = Date::new(2024, 5, 10);
    fill_window(&mut store, &group, date, &["a", "b", "c", "d", "e"]);
    let pool = pool_of(&["a", "b", "c", "d", "e", "f"]);
    let picked = select_and_set(&mut store, &group, date, &pool).unwrap();
    assert_eq!(picked, "f");
}

#[test]
fn selection_avoids_every_window_key() {
    let mut store = Store::new();
    let group = "discord".to_string();
    let date = Date::new(2024, 5, 10);
    fill_window(&mut store, &group, date, &["a", "b", "c", "d", "e"]);
    let pool = pool_of(&["a", "b", "c", "d", "e", "f", "g", "h"]);
    for _ in 0..50 {
        let picked = select_and_set(&mut store, &group, date, &pool).unwrap();
        assert!(picked == "f" || picked == "g" || picked == "h");
    }
}

#[test]
fn empty_pool_is_selection_exhausted() {
    let mut store = Store::new();
    let group = "discord".to_string();
    let date = Date::new(2024, 5, 10);
    let pool: Vec<String> = Vec::new();
    assert_eq!(
        select_and_set(&mut store, &group, date, &pool),
        Err(SelectAndSetRandomObjectError::SelectionExhausted)
    );
}

#[test]
fn fully_excluded_pool_is_pool_exhausted() {
    let mut store = Store::new();
    let group = "discord".to_string();
    let date = Date::new(2024, 5, 10);
    fill_window(&mut store, &group, date, &["a", "b", "c", "d", "e"]);
    let pool = pool_of(&["a", "c", "e"]);
    assert_eq!(
        select_and_set(&mut store, &group, date, &pool),
        Err(SelectAndSetRandomObjectError::PoolExhausted)
    );
}

#[test]
fn missing_image_then_select_then_found() {
    let mut store = Store::new();
    let group = "discord".to_string();
    let date = Date::new(2024, 5, 10);
    assert_eq!(
        get_image(&store, &group, date),
        Err(ImageDynamoDaoError::NotFound)
    );
    let pool = pool_of(&["x", "y"]);
    let picked = select_and_set(&mut store, &group, date, &pool).unwrap();
    let img = get_image(&store, &group, date).unwrap();
    assert_eq!(img.object_key, picked);
    assert_eq!(img.date, date);
}

#[test]
fn fresh_window_sets_refresh_flag_and_countdown() {
    let mut store = Store::new();
    let group = "discord".to_string();
    let date = Date::new(2024, 5, 10);
    // no refresh point in the window: a refresh is due now
    let pool = pool_of(&["x"]);
    select_and_set(&mut store, &group, date, &pool).unwrap();
    let img = get_image(&store, &group, date).unwrap();
    assert!(img.get_recents);
    assert_eq!(img.days_until_get_recents, 6);

    // the next day sees the refresh one day back
    let next = date.next_day();
    let pool2 = pool_of(&["y"]);
    select_and_set(&mut store, &group, next, &pool2).unwrap();
    let img2 = get_image(&store, &group, next).unwrap();
    assert!(!img2.get_recents);
    assert_eq!(img2.days_until_get_recents, 5);
}

#[test]
fn recents_are_fixed_length_with_defaults() {
    let mut store = Store::new();
    let group = "discord".to_string();
    let date = Date::new(2024, 5, 10);
    // only two of the five days have a record
    set_image(&mut store, &group, Date::new(2024, 5, 9), &"one".to_string(), 1);
    set_image(&mut store, &group, Date::new(2024, 5, 6), &"two".to_string(), 2);
    let recents = get_recents(&store, &group, date);
    assert_eq!(recents.len(), 5);
    // most recent first
    assert_eq!(recents[0].date, Date::new(2024, 5, 9));
    assert_eq!(recents[0].object_key, "one");
    assert_eq!(recents[1].date, Date::new(2024, 5, 8));
    assert_eq!(recents[1].object_key, "");
    assert!(!recents[1].get_recents);
    assert_eq!(recents[1].days_until_get_recents, 5);
    assert_eq!(recents[3].date, Date::new(2024, 5, 6));
    assert_eq!(recents[3].object_key, "two");
    assert_eq!(recents[4].date, Date::new(2024, 5, 5));
    assert_eq!(recents[4].object_key, "");
}

#[test]
fn selection_is_scoped_to_the_group() {
    let mut store = Store::new();
    let group_a = "discord".to_string();
    let group_b = "other".to_string();
    let date = Date::new(2024, 5, 10);
    fill_window(&mut store, &group_a, date, &["a", "b", "c", "d", "e"]);
    // the other group's window is empty, so nothing is excluded there
    let pool = pool_of(&["a"]);
    let picked = select_and_set(&mut store, &group_b, date, &pool).unwrap();
    assert_eq!(picked, "a");
    // and the first group's record for the day is untouched
    assert_eq!(
        get_image(&store, &group_a, date),
        Err(ImageDynamoDaoError::NotFound)
    );
}

#[test]
fn recap_lists_the_window_urls_only_on_refresh_days() {
    let mut store = Store::new();
    let group = "discord".to_string();
    let date = Date::new(2024, 5, 10);
    fill_window(&mut store, &group, date, &["a", "b", "c", "d", "e"]);
    // a day flagged as a refresh point lists the window, most recent first
    set_image(&mut store, &group, date, &"f".to_string(), 0);
    let (image, recap) = get_image_and_recap(&store, &group, date, "img.example.net").unwrap();
    assert!(image.get_recents);
    assert_eq!(
        recap.unwrap(),
        vec![
            "https://img.example.net/e",
            "https://img.example.net/d",
            "https://img.example.net/c",
            "https://img.example.net/b",
            "https://img.example.net/a",
        ]
    );
    // a day without the flag carries no recap
    set_image(&mut store, &group, date, &"f".to_string(), 3);
    let (image2, recap2) = get_image_and_recap(&store, &group, date, "img.example.net").unwrap();
    assert!(!image2.get_recents);
    assert_eq!(image2.days_until_get_recents, 3);
    assert!(recap2.is_none());
}

#[test]
fn image_url_is_domain_then_key() {
    assert_eq!(
        format_image_url("img.example.net", "discord_42.jpg"),
        "https://img.example.net/discord_42.jpg"
    );
}
