//! The day's selected image: reading it back, reading the recent window,
//! and writing a fresh selection.

use vstd::prelude::*;

use crate::date::{lemma_prev_n_succ, Date};
use crate::store::{ImageEntry, ImageRow, ImageRowView, Store};

verus! {

/// How many preceding days are checked when avoiding repeats.
pub const WINDOW_SIZE: usize = 5;

/// A day's image selection as read back from the store.
#[derive(Debug, PartialEq, Eq)]
pub struct Image {
    pub object_key: String,
    pub get_recents: bool,
    pub days_until_get_recents: i64,
    pub date: Date,
}

/// Ghost image of an [`Image`].
pub struct ImageView {
    pub object_key: Seq<char>,
    pub get_recents: bool,
    pub days_until_get_recents: int,
    pub date: Date,
}

impl View for Image {
    type V = ImageView;

    open spec fn view(&self) -> ImageView {
        ImageView {
            object_key: self.object_key@,
            get_recents: self.get_recents,
            days_until_get_recents: self.days_until_get_recents as int,
            date: self.date,
        }
    }
}

/// Why an image read failed.
#[derive(Clone, Copy, Debug, PartialEq, Eq, Structural)]
pub enum ImageDynamoDaoError {
    /// No selection has been stored for that day.
    NotFound,
}

/// What the recent window reports for the day `i + 1` days before `d`: the
/// stored record, or a default entry standing in for a missing one.
pub open spec fn spec_recent_image(s: Store, g: Seq<char>, d: Date, i: int) -> ImageView {
    let day = d.spec_prev_n((i + 1) as nat);
    match s.image_at(g, day) {
        Some(v) => ImageView {
            object_key: v.object_key,
            get_recents: v.get_recents,
            days_until_get_recents: v.days_until_get_recents,
            date: day,
        },
        None => ImageView {
            object_key: Seq::<char>::empty(),
            get_recents: false,
            days_until_get_recents: WINDOW_SIZE as int,
            date: day,
        },
    }
}

/// Read the image selected for `(group, date)`; fails with `NotFound` when
/// none has been stored.
pub fn get_image(store: &Store, group: &String, date: Date) -> (r: Result<
    Image,
    ImageDynamoDaoError,
>)
    ensures
        match store.image_at(group@, date) {
            Some(v) => r matches Ok(img) && img@ == (ImageView {
                object_key: v.object_key,
                get_recents: v.get_recents,
                days_until_get_recents: v.days_until_get_recents,
                date,
            }),
            None => r == Err::<Image, ImageDynamoDaoError>(ImageDynamoDaoError::NotFound),
        },
{
    match store.lookup_image(group, date) {
        Some(row) => Ok(
            Image {
                object_key: row.object_key,
                get_recents: row.get_recents,
                days_until_get_recents: row.days_until_get_recents,
                date,
            },
        ),
        None => Err(ImageDynamoDaoError::NotFound),
    }
}

/// The selections of the `WINDOW_SIZE` days before `date`, most recent
/// first. Days with no stored record get a default entry rather than being
/// dropped, so the result always has `WINDOW_SIZE` entries.
pub fn get_recents(store: &Store, group: &String, date: Date) -> (r: Vec<Image>)
    requires
        date.valid(),
        date.year >= 2,
    ensures
        r@.len() == WINDOW_SIZE,
        forall|i: int|
            0 <= i < WINDOW_SIZE ==> #[trigger] r@[i]@ == spec_recent_image(*store, group@, date, i),
{
    let mut out: Vec<Image> = Vec::new();
    let mut cur: Date = date;
    let mut i: usize = 0;
    while i < WINDOW_SIZE
        invariant
            i <= WINDOW_SIZE,
            out@.len() == i,
            date.valid(),
            date.year >= 2,
            cur == date.spec_prev_n(i as nat),
            cur.valid(),
            cur.year == date.year || cur.year + 1 == date.year,
            cur.year + 1 == date.year ==> cur.month == 12 && cur.day + i >= 31,
            forall|j: int|
                0 <= j < i ==> #[trigger] out@[j]@ == spec_recent_image(*store, group@, date, j),
        decreases WINDOW_SIZE - i,
    {
        let day = cur.prev_day();
        proof {
            lemma_prev_n_succ(date, i as nat);
        }
        let img = match store.lookup_image(group, day) {
            Some(row) => Image {
                object_key: row.object_key,
                get_recents: row.get_recents,
                days_until_get_recents: row.days_until_get_recents,
                date: day,
            },
            None => Image {
                object_key: String::new(),
                get_recents: false,
                days_until_get_recents: 5,
                date: day,
            },
        };
        out.push(img);
        cur = day;
        i = i + 1;
    }
    out
}

/// Store `object_key` as the selection for `(group, date)`, overwriting any
/// earlier selection for that day (last writer wins). The stored flags say
/// whether this selection is a refresh point and how many days remain until
/// the next one.
pub fn set_image(
    store: &mut Store,
    group: &String,
    date: Date,
    object_key: &String,
    days_since_get_recents: i64,
)
    requires
        old(store).wf(),
        0 <= days_since_get_recents <= WINDOW_SIZE,
    ensures
        final(store).wf(),
        final(store).image_at(group@, date) == Some(
            ImageRowView {
                object_key: object_key@,
                get_recents: days_since_get_recents == 0,
                days_until_get_recents: (WINDOW_SIZE + 1) - days_since_get_recents,
            },
        ),
        forall|g: Seq<char>, d: Date|
            !(g == group@ && d == date) ==> #[trigger] final(store).image_at(g, d) == old(
                store,
            ).image_at(g, d),
        final(store).counts@ == old(store).counts@,
        final(store).users@ == old(store).users@,
{
    let days_until: i64 = 6 - days_since_get_recents;
    let row = ImageRow {
        object_key: object_key.clone(),
        get_recents: days_since_get_recents == 0,
        days_until_get_recents: days_until,
    };
    store.upsert_image(ImageEntry { group: group.clone(), date, row });
}

/// The public URL an object is served from.
pub fn format_image_url(domain: &str, object_key: &str) -> (r: String)
    ensures
        r@ == "https://"@ + domain@ + "/"@ + object_key@,
{
    let mut url = String::from_str("https://");
    url.append(domain);
    url.append("/");
    url.append(object_key);
    url
}

/// The URL the recap lists for the day `i + 1` days before `d`.
pub open spec fn spec_recap_url(s: Store, g: Seq<char>, d: Date, domain: Seq<char>, i: int) -> Seq<
    char,
> {
    "https://"@ + domain + "/"@ + spec_recent_image(s, g, d, i).object_key
}

/// The day's image together with its weekly recap: the URLs of the window's
/// selections, attached exactly when the day's record carries the refresh
/// flag. Fails with `NotFound` when no selection is stored for the day.
pub fn get_image_and_recap(store: &Store, group: &String, date: Date, domain: &str) -> (r: Result<
    (Image, Option<Vec<String>>),
    ImageDynamoDaoError,
>)
    requires
        date.valid(),
        date.year >= 2,
    ensures
        match store.image_at(group@, date) {
            Some(v) => r matches Ok(p) && {
                &&& p.0@ == (ImageView {
                    object_key: v.object_key,
                    get_recents: v.get_recents,
                    days_until_get_recents: v.days_until_get_recents,
                    date,
                })
                &&& (p.1 is Some <==> v.get_recents)
                &&& (p.1 matches Some(urls) ==> urls@.len() == WINDOW_SIZE && (forall|i: int|
                    0 <= i < WINDOW_SIZE ==> #[trigger] urls@[i]@ == spec_recap_url(
                        *store,
                        group@,
                        date,
                        domain@,
                        i,
                    )))
            },
            None => r == Err::<(Image, Option<Vec<String>>), ImageDynamoDaoError>(
                ImageDynamoDaoError::NotFound,
            ),
        },
{
    let image = match get_image(store, group, date) {
        Ok(image) => image,
        Err(e) => {
            return Err(e);
        },
    };
    if image.get_recents {
        let recents = get_recents(store, group, date);
        let mut urls: Vec<String> = Vec::new();
        let mut i: usize = 0;
        while i < recents.len()
            invariant
                i <= recents@.len(),
                recents@.len() == WINDOW_SIZE,
                urls@.len() == i,
                forall|j: int|
                    0 <= j < WINDOW_SIZE ==> #[trigger] recents@[j]@ == spec_recent_image(
                        *store,
                        group@,
                        date,
                        j,
                    ),
                forall|j: int|
                    0 <= j < i ==> #[trigger] urls@[j]@ == spec_recap_url(
                        *store,
                        group@,
                        date,
                        domain@,
                        j,
                    ),
            decreases recents@.len() - i,
        {
            proof {
                assert(recents@[i as int]@ == spec_recent_image(*store, group@, date, i as int));
            }
            urls.push(format_image_url(domain, recents[i].object_key.as_str()));
            i = i + 1;
        }
        Ok((image, Some(urls)))
    } else {
        Ok((image, None))
    }
}

} // verus!
