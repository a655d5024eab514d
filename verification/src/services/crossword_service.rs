//! Turning a published crossword into the grid and clue list that clients
//! render.

use itertools::Itertools;
use std::collections::HashMap;
use vstd::prelude::*;
use vstd::std_specs::hash::group_hash_axioms;
use crate::models::api_models::{
    Cell, CellView, Clue, ClueId, ClueIdView, ClueView, CrosswordDto, CrosswordView, Direction,
};
use crate::models::errors::{AppError, AppErrorView};
use crate::models::guardian::{
    EntryView, GuardianCrossword, GuardianCrosswordView, GuardianDirection, GuardianEntry,
};
use crate::services::util::{
    begins_with, chars_of, count_string, decimal_string, decimal_text, ends_with, finishes_with, human_date,
    integer_error_text, parse_integer, parsed_i64, push_char, remove_all, starts_with, string_of,
    to_human_readable_date, utc_date, without,
};

verus! {

/// What an entry contributes to one square it runs through: the clue it
/// belongs to, the clue number if the square is the entry's first, and the
/// square's letter.
pub type InterimClue = (ClueId, Option<i64>, String);

/// The mathematical value of an [`InterimClue`].
pub type InterimClueView = (ClueIdView, Option<i64>, Seq<char>);

/// The direction of an entry, as clients name it.
pub open spec fn dto_direction(direction: GuardianDirection) -> Direction {
    match direction {
        GuardianDirection::Across => Direction::Across,
        GuardianDirection::Down => Direction::Down,
    }
}

/// Gives an entry's direction as clients name it.
pub fn guardian_to_dto_direction(direction: GuardianDirection) -> (r: Direction)
    ensures
        r == dto_direction(direction),
{
    match direction {
        GuardianDirection::Across => Direction::Across,
        GuardianDirection::Down => Direction::Down,
    }
}

/// The clue that the squares of `entry` belong to.
pub open spec fn clue_id_of(entry: EntryView) -> ClueIdView {
    ClueIdView {
        number: entry.number,
        direction: dto_direction(entry.direction),
        solution: entry.solution,
    }
}

/// The index of the entry's first square, the grid's squares being numbered
/// row by row from 0.
pub open spec fn first_index(entry: EntryView, columns: i64) -> int {
    entry.position.x + entry.position.y * columns
}

/// The distance in the row-by-row numbering between two neighbouring squares
/// of the entry.
pub open spec fn index_step(entry: EntryView, columns: i64) -> int {
    match entry.direction {
        GuardianDirection::Across => 1,
        GuardianDirection::Down => columns as int,
    }
}

/// The letter of the entry's square number `offset`: one character of the
/// solution, or nothing where the solution is not known.
pub open spec fn letter_at(solution: Option<Seq<char>>, offset: int) -> Seq<char> {
    match solution {
        Some(s) => seq![s[offset]],
        None => Seq::empty(),
    }
}

/// What the entry contributes to its square number `offset`, with the
/// square's index. Only the first square carries the clue number.
pub open spec fn interim_at(entry: EntryView, columns: i64, offset: int) -> (i64, InterimClueView) {
    (
        (first_index(entry, columns) + offset * index_step(entry, columns)) as i64,
        (
            clue_id_of(entry),
            if offset == 0 {
                Some(entry.number)
            } else {
                None
            },
            letter_at(entry.solution, offset),
        ),
    )
}

/// The number of squares of an entry after its first.
pub open spec fn further_squares(entry: EntryView) -> nat {
    if entry.length > 1 {
        (entry.length - 1) as nat
    } else {
        0
    }
}

/// The squares of an entry: the second to the last in order, then the first.
pub open spec fn interim_clues(entry: EntryView, columns: i64) -> Seq<(i64, InterimClueView)> {
    Seq::new(further_squares(entry), |i: int| interim_at(entry, columns, i + 1)).push(
        interim_at(entry, columns, 0),
    )
}

/// Whether the squares of an entry can be worked out: their indices fit in
/// 64 bits, as do the products they are computed from, and a solution, where
/// there is one, has a letter for every square and is not empty.
pub open spec fn entry_placeable(entry: EntryView, columns: i64) -> bool {
    &&& i64::MIN <= entry.position.y * columns <= i64::MAX
    &&& i64::MIN <= first_index(entry, columns) <= i64::MAX
    &&& entry.length > 1 ==> {
        &&& i64::MIN <= (entry.length - 1) * index_step(entry, columns) <= i64::MAX
        &&& i64::MIN <= first_index(entry, columns) + (entry.length - 1) * index_step(
            entry,
            columns,
        ) <= i64::MAX
    }
    &&& entry.solution matches Some(s) ==> s.len() >= 1 && s.len() >= entry.length
}

/// Between the first square and the last, no index and no product leaves the
/// range that the two ends stay in.
proof fn lemma_offsets_in_range(first: int, step: int, last: int, offset: int)
    requires
        0 <= offset <= last,
        i64::MIN <= first <= i64::MAX,
        i64::MIN <= last * step <= i64::MAX,
        i64::MIN <= first + last * step <= i64::MAX,
    ensures
        i64::MIN <= offset * step <= i64::MAX,
        i64::MIN <= first + offset * step <= i64::MAX,
{
    if step >= 0 {
        assert(0 <= offset * step <= last * step) by (nonlinear_arith)
            requires
                0 <= offset <= last,
                step >= 0,
        ;
    } else {
        assert(last * step <= offset * step <= 0) by (nonlinear_arith)
            requires
                0 <= offset <= last,
                step < 0,
        ;
    }
}

fn copy_text(text: &Option<String>) -> (r: Option<String>)
    ensures
        r == *text,
{
    match text {
        Some(s) => Some(s.clone()),
        None => None,
    }
}

fn letter_of(solution: &Option<String>, offset: i64) -> (r: String)
    requires
        *solution matches Some(s) ==> 0 <= offset < s@.len(),
    ensures
        r@ == letter_at(crate::models::api_models::opt_text(*solution), offset as int),
{
    let mut letter = String::new();
    match solution {
        Some(s) => {
            let length = s.as_str().unicode_len();
            assert(offset < length);
            push_char(&mut letter, s.as_str().get_char(offset as usize));
        },
        None => {},
    }
    letter
}

/// Lists the squares that an entry runs through, each with its index in the
/// row-by-row numbering of a grid with `columns` columns.
pub fn to_interim_clue(entry: GuardianEntry, columns: i64) -> (r: Vec<(i64, InterimClue)>)
    requires
        entry_placeable(entry@, columns),
    ensures
        r.deep_view() == interim_clues(entry@, columns),
{
    let ghost described = entry@;
    let direction = guardian_to_dto_direction(entry.direction);
    let initial_index = entry.position.x + entry.position.y * columns;
    let increment = match direction {
        Direction::Across => 1,
        Direction::Down => columns,
    };
    let mut positions: Vec<(i64, InterimClue)> = Vec::new();
    let mut i: i64 = 1;
    while i < entry.length
        invariant
            1 <= i,
            entry.length > 1 ==> i <= entry.length,
            entry.length <= 1 ==> i == 1,
            entry_placeable(entry@, columns),
            initial_index == first_index(entry@, columns),
            increment == index_step(entry@, columns),
            direction == dto_direction(entry.direction),
            positions.deep_view() == Seq::new((i - 1) as nat, |k: int| interim_at(entry@, columns, k + 1)),
        decreases entry.length - i,
    {
        proof {
            lemma_offsets_in_range(
                initial_index as int,
                increment as int,
                entry.length - 1,
                i as int,
            );
        }
        let other_index = initial_index + i * increment;
        let clue_id = ClueId {
            number: entry.number,
            direction,
            solution: copy_text(&entry.solution),
        };
        let letter = letter_of(&entry.solution, i);
        let ghost before = positions.deep_view();
        positions.push((other_index, (clue_id, None, letter)));
        assert(positions.deep_view() =~= before.push(interim_at(entry@, columns, i as int)));
        i = i + 1;
    }
    assert(i - 1 == further_squares(entry@));
    let letter = letter_of(&entry.solution, 0);
    let clue_id = ClueId { number: entry.number, direction, solution: entry.solution };
    let ghost before = positions.deep_view();
    positions.push((initial_index, (clue_id, Some(entry.number), letter)));
    assert(positions.deep_view() =~= interim_clues(described, columns));
    positions
}

/// The square that a list of contributions makes: black where nothing runs
/// through it; otherwise white with the first contribution's letter and the
/// clue number of the first contribution or, if that has none, of the second.
pub open spec fn cell_of(items: Option<Seq<InterimClueView>>) -> CellView {
    match items {
        None => CellView::Black,
        Some(clues) => if clues.len() == 0 {
            CellView::Black
        } else {
            CellView::White {
                number: if clues[0].1 is Some || clues.len() < 2 {
                    clues[0].1
                } else {
                    clues[1].1
                },
                letter: clues[0].2,
            }
        },
    }
}

/// Makes the square through which the given entries run.
pub fn get_cell(clue_items: Option<&Vec<InterimClue>>) -> (cell: Cell)
    ensures
        cell@ == cell_of(clue_items.deep_view()),
{
    match clue_items {
        None => Cell::Black,
        Some(clues) => {
            if clues.len() == 0 {
                Cell::Black
            } else {
                let number = match clues[0].1 {
                    Some(n) => Some(n),
                    None => if clues.len() > 1 {
                        clues[1].1
                    } else {
                        None
                    },
                };
                Cell::White { number, letter: clues[0].2.clone() }
            }
        },
    }
}

/// The values paired with `key`, in the order in which they occur.
pub open spec fn values_at<V>(pairs: Seq<(i64, V)>, key: i64) -> Seq<V>
    decreases pairs.len(),
{
    if pairs.len() == 0 {
        Seq::empty()
    } else {
        let earlier = values_at(pairs.drop_last(), key);
        if pairs.last().0 == key {
            earlier.push(pairs.last().1)
        } else {
            earlier
        }
    }
}

/// Groups contributions by the index of their square.
///
/// Trusted: calls `Itertools::into_group_map` on the pairs in order. Its
/// source walks the pairs once and pushes each value to the end of the list
/// kept for its key, creating that list at the key's first occurrence; so a
/// key is present exactly if some pair has it, and its list holds the values
/// of those pairs in their order.
#[verifier::external_body]
pub(crate) fn group_by_index(pairs: Vec<(i64, InterimClue)>) -> (groups: HashMap<
    i64,
    Vec<InterimClue>,
>)
    ensures
        forall|key: i64| #[trigger]
            groups@.contains_key(key) <==> values_at(pairs@, key).len() > 0,
        forall|key: i64|
            groups@.contains_key(key) ==> (#[trigger] groups@[key])@ == values_at(pairs@, key),
{
    pairs.into_iter().into_group_map()
}

/// The squares of all entries, entry after entry.
pub open spec fn all_squares(entries: Seq<EntryView>, columns: i64) -> Seq<(i64, InterimClueView)>
    decreases entries.len(),
{
    if entries.len() == 0 {
        Seq::empty()
    } else {
        all_squares(entries.drop_last(), columns) + interim_clues(entries.last(), columns)
    }
}

/// The square with the given index in the grid that the entries describe.
pub open spec fn cell_at(entries: Seq<EntryView>, columns: i64, index: i64) -> CellView {
    cell_of(Some(values_at(all_squares(entries, columns), index)))
}

/// The number of squares of a grid.
pub open spec fn grid_size(columns: i64, rows: i64) -> nat {
    if columns * rows > 0 {
        (columns * rows) as nat
    } else {
        0
    }
}

/// The clue of an entry, under the given name of its direction.
pub open spec fn clue_of(entry: EntryView, direction: Seq<char>) -> ClueView {
    ClueView {
        number: entry.number,
        text: entry.clue,
        direction,
        length: seq![entry.length],
        solution: entry.solution,
    }
}

/// The clues of the entries that run across (`across` true) or of the others,
/// in the entries' order.
pub open spec fn clues_running(entries: Seq<EntryView>, across: bool) -> Seq<ClueView>
    decreases entries.len(),
{
    if entries.len() == 0 {
        Seq::empty()
    } else {
        let earlier = clues_running(entries.drop_last(), across);
        let entry = entries.last();
        if (entry.direction == GuardianDirection::Across) == across {
            earlier.push(
                clue_of(
                    entry,
                    if across {
                        "across"@
                    } else {
                        "down"@
                    },
                ),
            )
        } else {
            earlier
        }
    }
}

/// Whether a published crossword can be converted: every entry can be placed
/// in a grid of its width, the number of squares fits in 64 bits and the
/// calendar reaches the publication date.
pub open spec fn convertible(crossword: GuardianCrosswordView) -> bool {
    &&& forall|i: int|
        0 <= i < crossword.entries.len() ==> entry_placeable(
            #[trigger] crossword.entries[i],
            crossword.dimensions.cols,
        )
    &&& i64::MIN <= crossword.dimensions.cols * crossword.dimensions.rows <= i64::MAX
    &&& human_date(crossword.date) is Some
}

/// The crossword that clients render for a published crossword: the grid row
/// by row, the clues that run down followed by those that run across, and
/// the series, number, date and setter as text.
pub open spec fn crossword_of(crossword: GuardianCrosswordView) -> CrosswordView {
    CrosswordView {
        number_of_columns: crossword.dimensions.cols,
        number_of_rows: crossword.dimensions.rows,
        cells: Seq::new(
            grid_size(crossword.dimensions.cols, crossword.dimensions.rows),
            |index: int| cell_at(crossword.entries, crossword.dimensions.cols, index as i64),
        ),
        clues: clues_running(crossword.entries, false) + clues_running(crossword.entries, true),
        series: crossword.crossword_type,
        series_no: decimal_text(crossword.number as int),
        date: human_date(crossword.date).unwrap(),
        setter: match crossword.creator {
            Some(name) => name,
            None => Seq::empty(),
        },
    }
}

spec fn deep_pairs(pairs: Seq<(i64, InterimClue)>) -> Seq<(i64, InterimClueView)> {
    Seq::new(pairs.len(), |i: int| pairs[i].deep_view())
}

spec fn deep_values(items: Seq<InterimClue>) -> Seq<InterimClueView> {
    Seq::new(items.len(), |i: int| items[i].deep_view())
}

/// Selecting by key and taking the mathematical values commute.
proof fn lemma_values_at_deep(pairs: Seq<(i64, InterimClue)>, key: i64)
    ensures
        deep_values(values_at(pairs, key)) == values_at(deep_pairs(pairs), key),
    decreases pairs.len(),
{
    if pairs.len() == 0 {
        assert(deep_values(values_at(pairs, key)) =~= Seq::empty());
    } else {
        lemma_values_at_deep(pairs.drop_last(), key);
        assert(deep_pairs(pairs).drop_last() =~= deep_pairs(pairs.drop_last()));
        if pairs.last().0 == key {
            assert(deep_values(values_at(pairs, key)) =~= deep_values(
                values_at(pairs.drop_last(), key),
            ).push(pairs.last().1.deep_view()));
        }
    }
}

fn copy_entry(entry: &GuardianEntry) -> (r: GuardianEntry)
    ensures
        r == *entry,
{
    GuardianEntry {
        number: entry.number,
        clue: entry.clue.clone(),
        direction: entry.direction,
        length: entry.length,
        position: entry.position,
        solution: copy_text(&entry.solution),
    }
}

fn to_clue(entry: &GuardianEntry, direction: &str) -> (clue: Clue)
    ensures
        clue@ == clue_of(entry@, direction@),
{
    let mut length: Vec<i64> = Vec::new();
    length.push(entry.length);
    let clue = Clue {
        number: entry.number,
        text: entry.clue.clone(),
        direction: String::from_str(direction),
        length,
        solution: copy_text(&entry.solution),
    };
    assert(clue.length@ =~= seq![entry.length]);
    clue
}

/// Converts a published crossword into the form that clients render.
pub fn guardian_to_crossword_dto(guardian_crossword: GuardianCrossword) -> (dto: CrosswordDto)
    requires
        convertible(guardian_crossword@),
    ensures
        dto@ == crossword_of(guardian_crossword@),
{
    broadcast use group_hash_axioms;

    let columns = guardian_crossword.dimensions.cols;
    let rows = guardian_crossword.dimensions.rows;
    let ghost described = guardian_crossword@.entries;
    let mut down: Vec<Clue> = Vec::new();
    let mut across: Vec<Clue> = Vec::new();
    let mut squares: Vec<(i64, InterimClue)> = Vec::new();
    let mut j: usize = 0;
    while j < guardian_crossword.entries.len()
        invariant
            j <= guardian_crossword.entries.len(),
            described == guardian_crossword.entries.deep_view(),
            forall|i: int|
                0 <= i < described.len() ==> entry_placeable(#[trigger] described[i], columns),
            down.deep_view() == clues_running(described.take(j as int), false),
            across.deep_view() == clues_running(described.take(j as int), true),
            squares.deep_view() == all_squares(described.take(j as int), columns),
        decreases guardian_crossword.entries.len() - j,
    {
        let entry = &guardian_crossword.entries[j];
        assert(entry@ == described[j as int]);
        assert(described.take(j + 1).drop_last() =~= described.take(j as int));
        let ghost down_before = down.deep_view();
        let ghost across_before = across.deep_view();
        match entry.direction {
            GuardianDirection::Across => {
                let clue = to_clue(entry, "across");
                across.push(clue);
                assert(across.deep_view() =~= across_before.push(clue@));
            },
            GuardianDirection::Down => {
                let clue = to_clue(entry, "down");
                down.push(clue);
                assert(down.deep_view() =~= down_before.push(clue@));
            },
        }
        let ghost squares_before = squares.deep_view();
        let mut part = to_interim_clue(copy_entry(entry), columns);
        let ghost added = part.deep_view();
        squares.append(&mut part);
        assert(squares.deep_view() =~= squares_before + added);
        j = j + 1;
    }
    assert(described.take(j as int) =~= described);
    let ghost pairs = squares@;
    assert(deep_pairs(pairs) =~= all_squares(described, columns));
    let groups = group_by_index(squares);
    let size = columns * rows;
    let mut grid: Vec<Cell> = Vec::new();
    let mut index: i64 = 0;
    while index < size
        invariant
            0 <= index,
            size > 0 ==> index <= size,
            size <= 0 ==> index == 0,
            deep_pairs(pairs) == all_squares(described, columns),
            forall|key: i64| #[trigger]
                groups@.contains_key(key) <==> values_at(pairs, key).len() > 0,
            forall|key: i64|
                groups@.contains_key(key) ==> (#[trigger] groups@[key])@ == values_at(pairs, key),
            grid.deep_view() == Seq::new(
                index as nat,
                |k: int| cell_at(described, columns, k as i64),
            ),
        decreases size - index,
    {
        let items = groups.get(&index);
        proof {
            lemma_values_at_deep(pairs, index);
            match items {
                Some(list) => {
                    assert(list@ == values_at(pairs, index));
                    assert(list.deep_view() =~= deep_values(values_at(pairs, index)));
                },
                None => {
                    assert(values_at(pairs, index).len() == 0);
                    assert(values_at(deep_pairs(pairs), index).len() == 0);
                },
            }
        }
        let cell = get_cell(items);
        assert(cell@ == cell_at(described, columns, index));
        let ghost before = grid.deep_view();
        grid.push(cell);
        assert(grid.deep_view() =~= before.push(cell@));
        index = index + 1;
    }
    assert(index == grid_size(columns, rows));
    let ghost down_clues = down.deep_view();
    let ghost across_clues = across.deep_view();
    down.append(&mut across);
    assert(down.deep_view() =~= down_clues + across_clues);
    let setter = match guardian_crossword.creator {
        Some(creator) => creator.name,
        None => String::new(),
    };
    CrosswordDto {
        number_of_columns: columns,
        number_of_rows: rows,
        cells: grid,
        clues: down,
        series: guardian_crossword.crossword_type,
        series_no: decimal_string(guardian_crossword.number),
        date: to_human_readable_date(guardian_crossword.date),
        setter,
    }
}

/// Tests whether the squares of an entry can be worked out for a grid with
/// `columns` columns.
pub fn entry_is_placeable(entry: &GuardianEntry, columns: i64) -> (r: bool)
    ensures
        r == entry_placeable(entry@, columns),
{
    let first = match entry.position.y.checked_mul(columns) {
        Some(row_start) => match entry.position.x.checked_add(row_start) {
            Some(first) => first,
            None => {
                return false;
            },
        },
        None => {
            return false;
        },
    };
    if entry.length > 1 {
        let step = match entry.direction {
            GuardianDirection::Across => 1,
            GuardianDirection::Down => columns,
        };
        match (entry.length - 1).checked_mul(step) {
            Some(reach) => {
                if first.checked_add(reach).is_none() {
                    return false;
                }
            },
            None => {
                return false;
            },
        }
    }
    match &entry.solution {
        Some(s) => {
            let letters = s.as_str().unicode_len();
            letters >= 1 && (entry.length <= 0 || letters as u64 >= entry.length as u64)
        },
        None => true,
    }
}

/// Tests whether a published crossword can be converted.
pub fn can_convert(crossword: &GuardianCrossword) -> (r: bool)
    ensures
        r == convertible(crossword@),
{
    let columns = crossword.dimensions.cols;
    let mut j: usize = 0;
    while j < crossword.entries.len()
        invariant
            j <= crossword.entries.len(),
            columns == crossword.dimensions.cols,
            forall|i: int|
                0 <= i < j ==> entry_placeable(#[trigger] crossword@.entries[i], columns),
        decreases crossword.entries.len() - j,
    {
        assert(crossword@.entries[j as int] == crossword.entries[j as int]@);
        if !entry_is_placeable(&crossword.entries[j], columns) {
            return false;
        }
        j = j + 1;
    }
    columns.checked_mul(crossword.dimensions.rows).is_some() && utc_date(
        crossword.date / 1000,
    ).is_some()
}

/// Converts a published crossword into the form that clients render, or
/// returns `None` where it cannot be converted.
pub fn convert_guardian_crossword(guardian_crossword: GuardianCrossword) -> (r: Option<
    CrosswordDto,
>)
    ensures
        match r {
            Some(dto) => convertible(guardian_crossword@) && dto@ == crossword_of(
                guardian_crossword@,
            ),
            None => !convertible(guardian_crossword@),
        },
{
    if can_convert(&guardian_crossword) {
        Some(guardian_to_crossword_dto(guardian_crossword))
    } else {
        None
    }
}

/// The address of the page that shows one crossword of a series.
pub open spec fn crossword_address(series: Seq<char>, id: Seq<char>) -> Seq<char> {
    "https://www.theguardian.com/crosswords/"@ + series + "/"@ + id
}

/// The address of a page of the list of a series' crosswords.
pub open spec fn series_page_address(series: Seq<char>, page: i32) -> Seq<char> {
    "https://www.theguardian.com/crosswords/series/"@ + series + "?page="@ + decimal_text(
        page as int,
    )
}

/// The address of the page that shows the crossword `id` of `series`.
pub fn crossword_url(series: &str, id: &str) -> (url: String)
    ensures
        url@ == crossword_address(series@, id@),
{
    let mut url = String::from_str("https://www.theguardian.com/crosswords/");
    url.append(series);
    url.append("/");
    url.append(id);
    url
}

/// The address of page `page` of the list of the crosswords of `series`.
pub fn series_page_url(series: &str, page: i32) -> (url: String)
    ensures
        url@ == series_page_address(series@, page),
{
    let mut url = String::from_str("https://www.theguardian.com/crosswords/series/");
    url.append(series);
    url.append("?page=");
    let number = decimal_string(page as i64);
    url.append(number.as_str());
    url
}

/// For each element of the document `html` that the CSS selector `selector`
/// matches, in the order in which the elements are found, the value of its
/// attribute `attribute`, if it has that attribute; `None` where `selector`
/// is no valid selector.
pub uninterp spec fn selected_attributes(
    html: Seq<char>,
    selector: Seq<char>,
    attribute: Seq<char>,
) -> Option<Seq<Option<Seq<char>>>>;

/// Reads an attribute off the elements of an HTML document that a selector
/// matches.
///
/// Trusted: parses the selector with `scraper::Selector::parse` and the
/// document with `scraper::Html::parse_document`, walks the matches with
/// `Html::select` and reads each with `Element::attr`. What comes out
/// depends on the three texts alone and is known here only by name.
#[verifier::external_body]
pub(crate) fn select_attribute(html: &str, selector: &str, attribute: &str) -> (r: Option<
    Vec<Option<String>>,
>)
    ensures
        r.deep_view() == selected_attributes(html@, selector@, attribute@),
{
    let selector = scraper::Selector::parse(selector).ok()?;
    let document = scraper::Html::parse_document(html);
    Some(
        document.select(&selector).map(|e| e.value().attr(attribute).map(|v| v.to_string()))
            .collect(),
    )
}

/// The path under which the crosswords of a series are found.
pub open spec fn series_path(series: Seq<char>) -> Seq<char> {
    "/crosswords/"@ + series
}

/// Whether a link leads to a crossword of the series: it begins with the
/// series' path and does not end in `#comments`.
pub open spec fn is_crossword_link(href: Seq<char>, series: Seq<char>) -> bool {
    begins_with(href, series_path(series)) && !finishes_with(href, "#comments"@)
}

/// What is left of a link once the series' path and then every `/` are taken
/// out: for a link to a crossword, its number.
pub open spec fn number_text(href: Seq<char>, series: Seq<char>) -> Seq<char> {
    without(without(href, series_path(series)), "/"@)
}

/// The numbers of the crosswords that the links lead to, in the links'
/// order. Elements without a link and links that lead elsewhere are passed
/// over. The first link to a crossword whose number cannot be read makes the
/// whole fail, with the words that say why that number is none.
pub open spec fn link_numbers(hrefs: Seq<Option<Seq<char>>>, series: Seq<char>) -> Result<
    Seq<i64>,
    Seq<char>,
>
    decreases hrefs.len(),
{
    if hrefs.len() == 0 {
        Ok(Seq::empty())
    } else {
        let rest = link_numbers(hrefs.skip(1), series);
        match hrefs[0] {
            Some(href) => if is_crossword_link(href, series) {
                match parsed_i64(number_text(href, series)) {
                    Some(number) => match rest {
                        Ok(numbers) => Ok(seq![number] + numbers),
                        Err(reason) => Err(reason),
                    },
                    None => Err(integer_error_text(number_text(href, series))),
                }
            } else {
                rest
            },
            None => rest,
        }
    }
}

/// Collects the crossword numbers of `series` from the links of a page.
pub fn crossword_numbers_in(hrefs: &Vec<Option<String>>, series: &str) -> (r: Result<
    Vec<i64>,
    AppError,
>)
    ensures
        match r {
            Ok(numbers) => link_numbers(hrefs.deep_view(), series@) == Ok::<Seq<i64>, Seq<char>>(
                numbers@,
            ),
            Err(e) => link_numbers(hrefs.deep_view(), series@) is Err && e@
                == AppErrorView::InternalServerError(
                link_numbers(hrefs.deep_view(), series@)->Err_0,
            ),
        },
{
    let mut relative_url = chars_of("/crosswords/");
    let mut series_chars = chars_of(series);
    relative_url.append(&mut series_chars);
    let comments = chars_of("#comments");
    let slash = chars_of("/");
    let ghost links = hrefs.deep_view();
    let mut numbers: Vec<i64> = Vec::new();
    let mut i: usize = 0;
    assert(links.skip(0) =~= links);
    while i < hrefs.len()
        invariant
            i <= hrefs.len(),
            links == hrefs.deep_view(),
            relative_url@ == series_path(series@),
            comments@ == "#comments"@,
            slash@ == "/"@,
            link_numbers(links, series@) == match link_numbers(links.skip(i as int), series@) {
                Ok(later) => Ok::<Seq<i64>, Seq<char>>(numbers@ + later),
                Err(reason) => Err(reason),
            },
        decreases hrefs.len() - i,
    {
        assert(links.skip(i as int).skip(1) =~= links.skip(i + 1));
        assert(links.skip(i as int)[0] == links[i as int]);
        match &hrefs[i] {
            Some(href) => {
                let url = chars_of(href.as_str());
                if starts_with(&url, &relative_url) && !ends_with(&url, &comments) {
                    let trimmed = remove_all(&remove_all(&url, &relative_url), &slash);
                    let text = string_of(&trimmed);
                    match parse_integer(text.as_str()) {
                        Ok(number) => {
                            let ghost before = numbers@;
                            numbers.push(number);
                            assert forall|later: Seq<i64>|
                                before + (seq![number] + later) == numbers@ + later by {
                                assert(before + (seq![number] + later) =~= numbers@ + later);
                            }
                        },
                        Err(reason) => {
                            return Err(AppError::InternalServerError(reason));
                        },
                    }
                }
            },
            None => {},
        }
        i = i + 1;
    }
    assert(links.skip(i as int) =~= Seq::<Option<Seq<char>>>::empty());
    assert(numbers@ + Seq::<i64>::empty() =~= numbers@);
    Ok(numbers)
}

/// The numbers of the crosswords that a page of a series' list links to, or
/// the reason why they cannot be told.
pub open spec fn listed_numbers(html: Seq<char>, series: Seq<char>) -> Result<
    Seq<i64>,
    AppErrorView,
> {
    match selected_attributes(html, "a"@, "href"@) {
        Some(hrefs) => match link_numbers(hrefs, series) {
            Ok(numbers) => Ok(numbers),
            Err(reason) => Err(AppErrorView::InternalServerError(reason)),
        },
        None => Err(AppErrorView::InternalServerError("Invalid selector"@)),
    }
}

/// Reads the numbers of the crosswords of `series` off a page of the
/// series' list.
pub fn recent_crossword_numbers(html: &str, series: &str) -> (r: Result<Vec<i64>, AppError>)
    ensures
        match r {
            Ok(numbers) => listed_numbers(html@, series@) == Ok::<Seq<i64>, AppErrorView>(
                numbers@,
            ),
            Err(e) => listed_numbers(html@, series@) == Err::<Seq<i64>, AppErrorView>(e@),
        },
{
    match select_attribute(html, "a", "href") {
        Some(hrefs) => crossword_numbers_in(&hrefs, series),
        None => Err(AppError::InternalServerError(String::from_str("Invalid selector"))),
    }
}

/// The crossword's description that a list of `props` attributes holds: the
/// attribute of the last element.
pub open spec fn props_in(found: Option<Seq<Option<Seq<char>>>>) -> Result<
    Seq<char>,
    AppErrorView,
> {
    match found {
        Some(values) => if values.len() == 0 {
            Err(AppErrorView::InternalServerError("No crossword found"@))
        } else {
            match values.last() {
                Some(json) => Ok(json),
                None => Err(AppErrorView::InternalServerError("No attribute found"@)),
            }
        },
        None => Err(AppErrorView::InternalServerError("Invalid selector"@)),
    }
}

/// Picks the crossword's description out of what the crossword elements of
/// a page hold as `props`: that of the last element. Fails where the page
/// has no such element or the last one lacks the attribute.
pub fn crossword_props_in(found: Option<Vec<Option<String>>>) -> (r: Result<String, AppError>)
    ensures
        match r {
            Ok(json) => props_in(found.deep_view()) == Ok::<Seq<char>, AppErrorView>(json@),
            Err(e) => props_in(found.deep_view()) == Err::<Seq<char>, AppErrorView>(e@),
        },
{
    match found {
        Some(mut values) => {
            let ghost all = values.deep_view();
            match values.pop() {
                Some(last) => {
                    assert(all.last() == last.deep_view());
                    match last {
                        Some(json) => Ok(json),
                        None => Err(
                            AppError::InternalServerError(String::from_str("No attribute found")),
                        ),
                    }
                },
                None => Err(AppError::InternalServerError(String::from_str("No crossword found"))),
            }
        },
        None => Err(AppError::InternalServerError(String::from_str("Invalid selector"))),
    }
}

/// Reads the description of the crossword off the page that shows it: the
/// `props` attribute of the last element found whose `name` is
/// `CrosswordComponent`.
pub fn crossword_props(html: &str) -> (r: Result<String, AppError>)
    ensures
        match r {
            Ok(json) => props_in(
                selected_attributes(html@, "[name=CrosswordComponent]"@, "props"@),
            ) == Ok::<Seq<char>, AppErrorView>(json@),
            Err(e) => props_in(
                selected_attributes(html@, "[name=CrosswordComponent]"@, "props"@),
            ) == Err::<Seq<char>, AppErrorView>(e@),
        },
{
    crossword_props_in(select_attribute(html, "[name=CrosswordComponent]", "props"))
}

/// The numbers among `candidates` that `existing` lacks, in the candidates'
/// order.
pub open spec fn missing_from(candidates: Seq<i64>, existing: Seq<i64>) -> Seq<i64>
    decreases candidates.len(),
{
    if candidates.len() == 0 {
        Seq::empty()
    } else {
        let earlier = missing_from(candidates.drop_last(), existing);
        if existing.contains(candidates.last()) {
            earlier
        } else {
            earlier.push(candidates.last())
        }
    }
}

/// The numbers from `from_id` up to, but not including, `to_id`.
pub open spec fn numbers_between(from_id: i64, to_id: i64) -> Seq<i64> {
    Seq::new(
        if to_id > from_id {
            (to_id - from_id) as nat
        } else {
            0
        },
        |i: int| (from_id + i) as i64,
    )
}

/// Tests whether `numbers` holds `number`.
pub fn contains_number(numbers: &Vec<i64>, number: i64) -> (r: bool)
    ensures
        r == numbers@.contains(number),
{
    let mut i: usize = 0;
    while i < numbers.len()
        invariant
            i <= numbers.len(),
            forall|k: int| 0 <= k < i ==> numbers@[k] != number,
        decreases numbers.len() - i,
    {
        if numbers[i] == number {
            return true;
        }
        i = i + 1;
    }
    false
}

/// The crosswords to scrape when a series is brought up to date: those of
/// the recently published numbers that are not stored yet, in the order in
/// which they are listed.
pub fn new_crossword_numbers(recent: &Vec<i64>, existing: &Vec<i64>) -> (new: Vec<i64>)
    ensures
        new@ == missing_from(recent@, existing@),
{
    let mut new: Vec<i64> = Vec::new();
    let mut i: usize = 0;
    while i < recent.len()
        invariant
            i <= recent.len(),
            new@ == missing_from(recent@.take(i as int), existing@),
        decreases recent.len() - i,
    {
        assert(recent@.take(i + 1).drop_last() =~= recent@.take(i as int));
        if !contains_number(existing, recent[i]) {
            new.push(recent[i]);
        }
        i = i + 1;
    }
    assert(recent@.take(recent.len() as int) =~= recent@);
    new
}

/// The crosswords to scrape when a range of a series is filled in: the
/// numbers from `from_id` up to, but not including, `to_id` that are not
/// stored yet, in ascending order.
pub fn crosswords_to_fetch(existing: &Vec<i64>, from_id: i64, to_id: i64) -> (ids: Vec<i64>)
    ensures
        ids@ == missing_from(numbers_between(from_id, to_id), existing@),
{
    let mut ids: Vec<i64> = Vec::new();
    let mut id: i64 = from_id;
    let ghost all = numbers_between(from_id, to_id);
    while id < to_id
        invariant
            from_id <= id,
            to_id > from_id ==> id <= to_id,
            to_id <= from_id ==> id == from_id,
            all == numbers_between(from_id, to_id),
            ids@ == missing_from(all.take(id - from_id), existing@),
        decreases to_id - id,
    {
        assert(all.take(id - from_id + 1).drop_last() =~= all.take(id - from_id));
        assert(all.take(id - from_id + 1).last() == id);
        if !contains_number(existing, id) {
            ids.push(id);
        }
        id = id + 1;
    }
    assert(all.take(id - from_id) =~= all);
    ids
}

/// How an attempt to add one crossword during a bulk update ended.
#[derive(Debug, Clone, PartialEq)]
pub enum Attempt {
    /// The crossword's page could not be fetched or read.
    ScrapeFailed,
    /// The crossword could not be put into the form in which it is stored.
    NotStorable,
    /// The crossword was stored.
    Stored,
    /// The store refused the crossword.
    StoreFailed(AppError),
}

/// Decides whether a bulk update goes on after an attempt: a refusal by the
/// store ends it with the store's error; every other outcome, a crossword
/// that could not be scraped included, lets it go on with the next number.
pub fn bulk_update_after(attempt: Attempt) -> (r: Result<(), AppError>)
    ensures
        match attempt {
            Attempt::StoreFailed(e) => r == Err::<(), AppError>(e),
            _ => r is Ok,
        },
{
    match attempt {
        Attempt::StoreFailed(e) => Err(e),
        _ => Ok(()),
    }
}

/// The words that report a bulk update that was carried through.
pub fn bulk_update_report() -> (message: String)
    ensures
        message@ == "Successfully scraped new crosswords"@,
{
    String::from_str("Successfully scraped new crosswords")
}

/// The words that report how many crosswords an update stored.
pub open spec fn update_report_text(stored: usize) -> Seq<char> {
    "Successfully scraped "@ + decimal_text(stored as int) + " new crosswords"@
}

/// The words that report an update that stored `stored` crosswords.
pub fn update_report(stored: usize) -> (message: String)
    ensures
        message@ == update_report_text(stored),
{
    let mut message = String::from_str("Successfully scraped ");
    let count = count_string(stored);
    message.append(count.as_str());
    message.append(" new crosswords");
    message
}

} // verus!
