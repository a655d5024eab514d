use crossword_server::models::api_models::{CrosswordMetadata, CrosswordMetadataWithHumanDate};
use crossword_server::services::listing::{
    all_series, listing_with_dates, update_all_summary, with_human_dates,
};

fn listed(id: &str, series: &str, series_no: i64, date: i64) -> CrosswordMetadata {
    CrosswordMetadata { id: id.to_string(), series: series.to_string(), series_no, date }
}

#[test]
fn the_six_series_in_order() {
    assert_eq!(all_series(), vec!["quiptic", "quick", "cryptic", "speedy", "prize", "everyman"]);
}

#[test]
fn listing_gets_dates_in_words() {
    let listing = with_human_dates(&vec![
        listed("a", "quick", 1, 1431648000000),
        listed("b", "prize", 2, 0),
    ]);
    assert_eq!(
        listing,
        vec![
            CrosswordMetadataWithHumanDate {
                id: "a".to_string(),
                series: "quick".to_string(),
                series_no: 1,
                date: 1431648000000,
                human_date: "15 May 2015".to_string(),
            },
            CrosswordMetadataWithHumanDate {
                id: "b".to_string(),
                series: "prize".to_string(),
                series_no: 2,
                date: 0,
                human_date: "1 January 1970".to_string(),
            },
        ]
    );
    assert_eq!(with_human_dates(&Vec::new()), Vec::new());
}

#[test]
fn listing_with_an_unreachable_date_is_none() {
    assert_eq!(listing_with_dates(&vec![listed("a", "quick", 1, 0), listed("b", "quick", 2, i64::MIN)]), None);
    let good = vec![listed("a", "quick", 1, 0)];
    assert_eq!(listing_with_dates(&good), Some(with_human_dates(&good)));
}

#[test]
fn update_of_all_series_succeeds_if_none_failed() {
    assert_eq!(update_all_summary(&vec![true, true, true]), "Successfully updated all crosswords");
    assert_eq!(update_all_summary(&Vec::new()), "Successfully updated all crosswords");
    assert_eq!(update_all_summary(&vec![true, false, true]), "Error updating all crosswords");
    assert_eq!(update_all_summary(&vec![false]), "Error updating all crosswords");
}
