use crossword_server::models::errors::{to_status_code, AppError};
use crossword_server::services::crossword_service::{
    bulk_update_after, bulk_update_report, contains_number, crossword_numbers_in,
    crossword_props, crossword_props_in, crossword_url, crosswords_to_fetch,
    new_crossword_numbers, recent_crossword_numbers, series_page_url, update_report, Attempt,
};

fn link(href: &str) -> Option<String> {
    Some(href.to_string())
}

#[test]
fn addresses_of_the_scraped_pages() {
    assert_eq!(crossword_url("quick", "16543"), "https://www.theguardian.com/crosswords/quick/16543");
    assert_eq!(
        series_page_url("cryptic", 1),
        "https://www.theguardian.com/crosswords/series/cryptic?page=1"
    );
    assert_eq!(
        series_page_url("prize", -3),
        "https://www.theguardian.com/crosswords/series/prize?page=-3"
    );
}

#[test]
fn numbers_are_collected_from_the_links_of_the_series() {
    let hrefs = vec![
        link("/crosswords/quick/16543"),
        None,
        link("/crosswords/quick/16543#comments"),
        link("/crosswords/cryptic/29000"),
        link("https://www.theguardian.com/crosswords/quick/1"),
        link("/crosswords/quick/16542/"),
        link("/crosswords/quick/-5"),
    ];
    assert_eq!(crossword_numbers_in(&hrefs, "quick"), Ok(vec![16543, 16542, -5]));
    assert_eq!(crossword_numbers_in(&hrefs, "cryptic"), Ok(vec![29000]));
    assert_eq!(crossword_numbers_in(&Vec::new(), "quick"), Ok(Vec::new()));
}

#[test]
fn link_without_a_number_fails_the_page() {
    let hrefs = vec![link("/crosswords/quick/16543"), link("/crosswords/quick"), link("/crosswords/quick/x")];
    assert_eq!(
        crossword_numbers_in(&hrefs, "quick"),
        Err(AppError::InternalServerError("".parse::<i64>().unwrap_err().to_string()))
    );
    let letters = vec![link("/crosswords/quick/16543"), link("/crosswords/quick/latest")];
    assert_eq!(
        crossword_numbers_in(&letters, "quick"),
        Err(AppError::InternalServerError("latest".parse::<i64>().unwrap_err().to_string()))
    );
    let large = vec![link("/crosswords/quick/99999999999999999999")];
    assert_eq!(
        crossword_numbers_in(&large, "quick"),
        Err(AppError::InternalServerError(
            "99999999999999999999".parse::<i64>().unwrap_err().to_string()
        ))
    );
}

#[test]
fn series_whose_name_begins_another_is_not_told_apart() {
    let hrefs = vec![link("/crosswords/quick-cryptic/12")];
    assert_eq!(
        crossword_numbers_in(&hrefs, "quick"),
        Err(AppError::InternalServerError("-cryptic12".parse::<i64>().unwrap_err().to_string()))
    );
}

#[test]
fn numbers_are_read_off_a_page() {
    let html = "<html><body><a href=\"/crosswords/quick/101\">one</a><p>text</p>\
                <a>no link</a><a href=\"/crosswords/quick/100#comments\">c</a>\
                <a href=\"/crosswords/quick/99\">two</a><a href=\"/sport\">s</a></body></html>";
    assert_eq!(recent_crossword_numbers(html, "quick"), Ok(vec![101, 99]));
    assert_eq!(recent_crossword_numbers(html, "prize"), Ok(Vec::new()));
    assert_eq!(recent_crossword_numbers("", "quick"), Ok(Vec::new()));
}

#[test]
fn description_is_read_off_the_last_crossword_element() {
    let html = "<html><body><div name=\"CrosswordComponent\" props=\"{&quot;data&quot;:1}\"></div>\
                <gu-island name=\"CrosswordComponent\" props=\"{&quot;data&quot;:2}\"></gu-island>\
                <div name=\"Other\" props=\"x\"></div></body></html>";
    assert_eq!(crossword_props(html), Ok("{\"data\":2}".to_string()));
}

#[test]
fn page_without_a_crossword_fails() {
    assert_eq!(
        crossword_props("<html><body><p>nothing</p></body></html>"),
        Err(AppError::InternalServerError("No crossword found".to_string()))
    );
    assert_eq!(
        crossword_props("<div name=\"CrosswordComponent\"></div>"),
        Err(AppError::InternalServerError("No attribute found".to_string()))
    );
}

#[test]
fn description_is_picked_from_what_was_found() {
    assert_eq!(crossword_props_in(Some(vec![None, link("a"), link("b")])), Ok("b".to_string()));
    assert_eq!(
        crossword_props_in(Some(vec![link("a"), None])),
        Err(AppError::InternalServerError("No attribute found".to_string()))
    );
    assert_eq!(
        crossword_props_in(Some(Vec::new())),
        Err(AppError::InternalServerError("No crossword found".to_string()))
    );
    assert_eq!(
        crossword_props_in(None),
        Err(AppError::InternalServerError("Invalid selector".to_string()))
    );
}

#[test]
fn only_crosswords_not_yet_stored_are_fetched() {
    assert_eq!(new_crossword_numbers(&vec![5, 4, 3, 4, 9], &vec![4, 7]), vec![5, 3, 9]);
    assert_eq!(new_crossword_numbers(&vec![5, 5], &Vec::new()), vec![5, 5]);
    assert_eq!(new_crossword_numbers(&Vec::new(), &vec![1]), Vec::<i64>::new());
    assert_eq!(crosswords_to_fetch(&vec![12, 10, 99], 10, 15), vec![11, 13, 14]);
    assert_eq!(crosswords_to_fetch(&Vec::new(), -2, 1), vec![-2, -1, 0]);
    assert_eq!(crosswords_to_fetch(&Vec::new(), 5, 5), Vec::<i64>::new());
    assert_eq!(crosswords_to_fetch(&Vec::new(), 5, 2), Vec::<i64>::new());
    assert_eq!(crosswords_to_fetch(&Vec::new(), i64::MAX - 1, i64::MAX), vec![i64::MAX - 1]);
    assert!(contains_number(&vec![1, 2, 3], 3));
    assert!(!contains_number(&vec![1, 2, 3], 4));
}

#[test]
fn bulk_update_ends_only_when_the_store_refuses() {
    assert_eq!(bulk_update_after(Attempt::ScrapeFailed), Ok(()));
    assert_eq!(bulk_update_after(Attempt::NotStorable), Ok(()));
    assert_eq!(bulk_update_after(Attempt::Stored), Ok(()));
    let refused = AppError::InternalServerError("disk full".to_string());
    assert_eq!(bulk_update_after(Attempt::StoreFailed(refused.clone())), Err(refused));
}

#[test]
fn reports_of_updates() {
    assert_eq!(bulk_update_report(), "Successfully scraped new crosswords");
    assert_eq!(update_report(0), "Successfully scraped 0 new crosswords");
    assert_eq!(update_report(12), "Successfully scraped 12 new crosswords");
}

#[test]
fn errors_have_their_status() {
    assert_eq!(to_status_code(&AppError::InternalServerError("x".to_string())), 500);
    assert_eq!(to_status_code(&AppError::CrosswordNotFound("12".to_string())), 404);
}
