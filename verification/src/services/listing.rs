//! The overview of all series: which series there are, how the stored
//! crosswords are listed, and how an update of all series is summed up.

use vstd::prelude::*;
use crate::models::api_models::{
    CrosswordMetadata, CrosswordMetadataWithHumanDate, CrosswordMetadataWithHumanDateView,
    CrosswordMetadataView,
};
use crate::services::util::{human_date, human_readable_date, to_human_readable_date};

verus! {

/// The names of the series that are kept.
pub open spec fn series_names() -> Seq<Seq<char>> {
    seq!["quiptic"@, "quick"@, "cryptic"@, "speedy"@, "prize"@, "everyman"@]
}

/// The series that are kept, in the order in which they are listed and
/// updated.
pub fn all_series() -> (series: Vec<String>)
    ensures
        series.deep_view() == series_names(),
{
    let mut series: Vec<String> = Vec::new();
    series.push(String::from_str("quiptic"));
    series.push(String::from_str("quick"));
    series.push(String::from_str("cryptic"));
    series.push(String::from_str("speedy"));
    series.push(String::from_str("prize"));
    series.push(String::from_str("everyman"));
    assert(series.deep_view() =~= series_names());
    series
}

/// A listed crossword with its publication date in words.
pub open spec fn dated(crossword: CrosswordMetadataView) -> CrosswordMetadataWithHumanDateView {
    CrosswordMetadataWithHumanDateView {
        id: crossword.id,
        series: crossword.series,
        series_no: crossword.series_no,
        date: crossword.date,
        human_date: human_date(crossword.date).unwrap(),
    }
}

/// Whether the calendar reaches the publication date of every crossword.
pub open spec fn all_dated(crosswords: Seq<CrosswordMetadataView>) -> bool {
    forall|i: int| 0 <= i < crosswords.len() ==> human_date((#[trigger] crosswords[i]).date) is Some
}

/// Adds to every crossword of a listing its publication date in words.
pub fn with_human_dates(crosswords: &Vec<CrosswordMetadata>) -> (listing: Vec<
    CrosswordMetadataWithHumanDate,
>)
    requires
        all_dated(crosswords.deep_view()),
    ensures
        listing.deep_view() == crosswords.deep_view().map_values(
            |c: CrosswordMetadataView| dated(c),
        ),
{
    let mut listing: Vec<CrosswordMetadataWithHumanDate> = Vec::new();
    let mut i: usize = 0;
    while i < crosswords.len()
        invariant
            i <= crosswords.len(),
            all_dated(crosswords.deep_view()),
            listing.deep_view() == crosswords.deep_view().map_values(
                |c: CrosswordMetadataView| dated(c),
            ).take(i as int),
        decreases crosswords.len() - i,
    {
        let c = &crosswords[i];
        assert(crosswords.deep_view()[i as int] == c@);
        let ghost before = listing.deep_view();
        let entry = CrosswordMetadataWithHumanDate {
            id: c.id.clone(),
            series: c.series.clone(),
            series_no: c.series_no,
            date: c.date,
            human_date: to_human_readable_date(c.date),
        };
        listing.push(entry);
        assert(listing.deep_view() =~= before.push(dated(c@)));
        assert(listing.deep_view() =~= crosswords.deep_view().map_values(
            |c: CrosswordMetadataView| dated(c),
        ).take(i + 1));
        i = i + 1;
    }
    assert(crosswords.deep_view().map_values(|c: CrosswordMetadataView| dated(c)).take(
        crosswords.len() as int,
    ) =~= crosswords.deep_view().map_values(|c: CrosswordMetadataView| dated(c)));
    listing
}

/// Adds to every crossword of a listing its publication date in words, or
/// returns `None` where the calendar does not reach one of the dates.
pub fn listing_with_dates(crosswords: &Vec<CrosswordMetadata>) -> (r: Option<
    Vec<CrosswordMetadataWithHumanDate>,
>)
    ensures
        match r {
            Some(listing) => all_dated(crosswords.deep_view()) && listing.deep_view()
                == crosswords.deep_view().map_values(|c: CrosswordMetadataView| dated(c)),
            None => !all_dated(crosswords.deep_view()),
        },
{
    let mut i: usize = 0;
    while i < crosswords.len()
        invariant
            i <= crosswords.len(),
            forall|k: int|
                0 <= k < i ==> human_date((#[trigger] crosswords.deep_view()[k]).date) is Some,
        decreases crosswords.len() - i,
    {
        assert(crosswords.deep_view()[i as int] == crosswords[i as int]@);
        if human_readable_date(crosswords[i].date).is_none() {
            return None;
        }
        i = i + 1;
    }
    Some(with_human_dates(crosswords))
}

/// The words that sum up an update of all series.
pub open spec fn update_summary(outcomes: Seq<bool>) -> Seq<char> {
    if forall|i: int| 0 <= i < outcomes.len() ==> outcomes[i] {
        "Successfully updated all crosswords"@
    } else {
        "Error updating all crosswords"@
    }
}

/// Sums up an update of all series from the outcome of each, `true` for a
/// series that was updated: it succeeded if none failed.
pub fn update_all_summary(outcomes: &Vec<bool>) -> (message: String)
    ensures
        message@ == update_summary(outcomes@),
{
    let mut success = true;
    let mut i: usize = 0;
    while i < outcomes.len()
        invariant
            i <= outcomes.len(),
            success == forall|k: int| 0 <= k < i ==> outcomes@[k],
        decreases outcomes.len() - i,
    {
        if !outcomes[i] {
            success = false;
        }
        i = i + 1;
    }
    if success {
        String::from_str("Successfully updated all crosswords")
    } else {
        String::from_str("Error updating all crosswords")
    }
}

} // verus!
