//! Feed normalization: the walk over the rows and cells of a scraped table
//! that turns semi-structured markup into typed rows.
use vstd::prelude::*;

verus! {

/// A feed failed outside the row logic: the transport could not deliver the
/// raw text, or the raw text could not be parsed into events at all.
#[derive(Clone, Copy, Debug, PartialEq, Eq, Structural)]
pub enum ExtractError {
    Transport,
    Parse,
}

/// `s` holds two newline characters in a row.
pub open spec fn has_dnl(s: Seq<char>) -> bool {
    exists|i: int| 0 <= i && i + 1 < s.len() && #[trigger] s[i] == '\n' && s[i + 1] == '\n'
}

/// Whether a text fragment holds a raw double-newline sequence.
pub fn contains_double_newline(s: &str) -> (r: bool)
    ensures
        r == has_dnl(s@),
{
    let n = s.unicode_len();
    if n < 2 {
        return false;
    }
    let mut i: usize = 0;
    while i <= n - 2
        invariant
            2 <= n,
            i <= n - 1,
            n == s@.len(),
            forall|j: int| 0 <= j < i ==> !(#[trigger] s@[j] == '\n' && s@[j + 1] == '\n'),
        decreases n - i,
    {
        if s.get_char(i) == '\n' && s.get_char(i + 1) == '\n' {
            return true;
        }
        i = i + 1;
    }
    false
}

/// The reconstructed tag field: the tag fragments of one cell in order,
/// with every fragment that holds a double-newline replaced by one space.
pub open spec fn join_tags_spec(fs: Seq<Seq<char>>) -> Seq<char>
    decreases fs.len(),
{
    if fs.len() == 0 {
        Seq::empty()
    } else {
        (if has_dnl(fs.first()) {
            seq![' ']
        } else {
            fs.first()
        }) + join_tags_spec(fs.drop_first())
    }
}

/// Concatenate the text fragments of a tag cell, substituting a single
/// space for any fragment that holds a double-newline.
pub fn join_tags(fragments: &Vec<String>) -> (r: String)
    ensures
        r@ == join_tags_spec(fragments.deep_view()),
{
    let ghost fdv = fragments.deep_view();
    let mut out = String::new();
    proof {
        assert(fdv.skip(0) =~= fdv);
        assert(out@ + join_tags_spec(fdv) =~= join_tags_spec(fdv));
    }
    let mut i: usize = 0;
    while i < fragments.len()
        invariant
            i <= fragments@.len(),
            fdv == fragments.deep_view(),
            fragments@.len() == fdv.len(),
            out@ + join_tags_spec(fdv.skip(i as int)) == join_tags_spec(fdv),
        decreases fragments@.len() - i,
    {
        proof {
            assert(fdv.skip(i as int).drop_first() =~= fdv.skip(i + 1));
            assert(fdv.skip(i as int).first() == fdv[i as int]);
            assert(fdv[i as int] == fragments@[i as int]@);
        }
        if contains_double_newline(fragments[i].as_str()) {
            out.append(" ");
            proof {
                reveal_strlit(" ");
                assert(" "@ =~= seq![' ']);
            }
        } else {
            out.append(fragments[i].as_str());
        }
        i = i + 1;
    }
    proof {
        assert(fdv.skip(fdv.len() as int) =~= Seq::<Seq<char>>::empty());
    }
    out
}

/// The first text fragment of every cell of one table row that has any
/// text, in order; cells without text are skipped.
pub open spec fn first_texts_spec(row: Seq<Seq<Seq<char>>>) -> Seq<Seq<char>>
    decreases row.len(),
{
    if row.len() == 0 {
        Seq::empty()
    } else {
        let rest = first_texts_spec(row.drop_first());
        if row.first().len() > 0 {
            seq![row.first().first()] + rest
        } else {
            rest
        }
    }
}

/// Collect the first text fragment of every non-empty cell of one row.
pub fn first_texts(row: &Vec<Vec<String>>) -> (r: Vec<String>)
    ensures
        r.deep_view() == first_texts_spec(row.deep_view()),
{
    let ghost rdv = row.deep_view();
    let mut out: Vec<String> = Vec::new();
    proof {
        assert(rdv.skip(0) =~= rdv);
        assert(out.deep_view() =~= Seq::<Seq<char>>::empty());
        assert(out.deep_view() + first_texts_spec(rdv) =~= first_texts_spec(rdv));
    }
    let mut i: usize = 0;
    while i < row.len()
        invariant
            i <= row@.len(),
            rdv == row.deep_view(),
            row@.len() == rdv.len(),
            out.deep_view() + first_texts_spec(rdv.skip(i as int)) == first_texts_spec(rdv),
        decreases row@.len() - i,
    {
        proof {
            assert(rdv.skip(i as int).drop_first() =~= rdv.skip(i + 1));
            assert(rdv.skip(i as int).first() == rdv[i as int]);
            assert(rdv[i as int] == row@[i as int].deep_view());
        }
        let cell = &row[i];
        if cell.len() > 0 {
            let ghost prev = out.deep_view();
            out.push(cell[0].clone());
            proof {
                assert(out.deep_view() =~= prev + seq![rdv[i as int].first()]);
                assert(out.deep_view() + first_texts_spec(rdv.skip(i + 1)) =~= first_texts_spec(
                    rdv,
                ));
            }
        }
        i = i + 1;
    }
    proof {
        assert(rdv.skip(rdv.len() as int) =~= Seq::<Seq<Seq<char>>>::empty());
    }
    out
}

/// The leaderboard table reduced to rows of cell texts: each row keeps the
/// first text fragment of its non-empty cells, and rows without any text
/// are discarded (header rows, spacer rows).
pub open spec fn leaderboard_rows_spec(rows: Seq<Seq<Seq<Seq<char>>>>) -> Seq<Seq<Seq<char>>>
    decreases rows.len(),
{
    if rows.len() == 0 {
        Seq::empty()
    } else {
        let cells = first_texts_spec(rows.first());
        let rest = leaderboard_rows_spec(rows.drop_first());
        if cells.len() > 0 {
            seq![cells] + rest
        } else {
            rest
        }
    }
}

/// Reduce a scraped leaderboard table to rows of cell texts, discarding
/// rows that yield no text at all.
pub fn leaderboard_rows(rows: &Vec<Vec<Vec<String>>>) -> (r: Vec<Vec<String>>)
    ensures
        r.deep_view() == leaderboard_rows_spec(rows.deep_view()),
{
    let ghost rdv = rows.deep_view();
    let mut out: Vec<Vec<String>> = Vec::new();
    proof {
        assert(rdv.skip(0) =~= rdv);
        assert(out.deep_view() =~= Seq::<Seq<Seq<char>>>::empty());
        assert(out.deep_view() + leaderboard_rows_spec(rdv) =~= leaderboard_rows_spec(rdv));
    }
    let mut i: usize = 0;
    while i < rows.len()
        invariant
            i <= rows@.len(),
            rdv == rows.deep_view(),
            rows@.len() == rdv.len(),
            out.deep_view() + leaderboard_rows_spec(rdv.skip(i as int)) == leaderboard_rows_spec(
                rdv,
            ),
        decreases rows@.len() - i,
    {
        proof {
            assert(rdv.skip(i as int).drop_first() =~= rdv.skip(i + 1));
            assert(rdv.skip(i as int).first() == rdv[i as int]);
            assert(rdv[i as int] == rows@[i as int].deep_view());
        }
        let cells = first_texts(&rows[i]);
        if cells.len() > 0 {
            let ghost prev = out.deep_view();
            out.push(cells);
            proof {
                assert(out.deep_view() =~= prev + seq![first_texts_spec(rdv[i as int])]);
                assert(out.deep_view() + leaderboard_rows_spec(rdv.skip(i + 1))
                    =~= leaderboard_rows_spec(rdv));
            }
        }
        i = i + 1;
    }
    proof {
        assert(rdv.skip(rdv.len() as int) =~= Seq::<Seq<Seq<Seq<char>>>>::empty());
    }
    out
}

/// One writeup row reduced to cell texts, with `kept` non-empty cells
/// already taken: a cell with text contributes its first fragment, except
/// the cell at kept-ordinal 2, whose fragments are joined into the tag
/// field; cells without text are skipped and not counted.
pub open spec fn writeup_cells_spec(row: Seq<Seq<Seq<char>>>, kept: int) -> Seq<Seq<char>>
    decreases row.len(),
{
    if row.len() == 0 {
        Seq::empty()
    } else if row.first().len() > 0 {
        let cell = if kept == 2 {
            join_tags_spec(row.first())
        } else {
            row.first().first()
        };
        seq![cell] + writeup_cells_spec(row.drop_first(), kept + 1)
    } else {
        writeup_cells_spec(row.drop_first(), kept)
    }
}

/// Reduce one writeup row to its cell texts, joining the tag cell.
pub fn writeup_cells(row: &Vec<Vec<String>>) -> (r: Vec<String>)
    ensures
        r.deep_view() == writeup_cells_spec(row.deep_view(), 0),
{
    let ghost rdv = row.deep_view();
    let mut out: Vec<String> = Vec::new();
    proof {
        assert(rdv.skip(0) =~= rdv);
        assert(out.deep_view() =~= Seq::<Seq<char>>::empty());
        assert(out.deep_view() + writeup_cells_spec(rdv, 0) =~= writeup_cells_spec(rdv, 0));
    }
    let mut i: usize = 0;
    while i < row.len()
        invariant
            i <= row@.len(),
            rdv == row.deep_view(),
            row@.len() == rdv.len(),
            out@.len() == out.deep_view().len(),
            out.deep_view() + writeup_cells_spec(rdv.skip(i as int), out.deep_view().len() as int)
                == writeup_cells_spec(rdv, 0),
        decreases row@.len() - i,
    {
        proof {
            assert(rdv.skip(i as int).drop_first() =~= rdv.skip(i + 1));
            assert(rdv.skip(i as int).first() == rdv[i as int]);
            assert(rdv[i as int] == row@[i as int].deep_view());
        }
        let cell = &row[i];
        if cell.len() > 0 {
            let kept = out.len();
            let text = if kept == 2 {
                join_tags(cell)
            } else {
                cell[0].clone()
            };
            let ghost prev = out.deep_view();
            out.push(text);
            proof {
                assert(out.deep_view() =~= prev + seq![
                    if prev.len() == 2 {
                        join_tags_spec(rdv[i as int])
                    } else {
                        rdv[i as int].first()
                    },
                ]);
                assert(out.deep_view() + writeup_cells_spec(rdv.skip(i + 1), out.deep_view().len() as int)
                    =~= writeup_cells_spec(rdv, 0));
            }
        }
        i = i + 1;
    }
    proof {
        assert(rdv.skip(rdv.len() as int) =~= Seq::<Seq<Seq<char>>>::empty());
    }
    out
}

/// The writeups table reduced to rows of cell texts, tag cell joined, rows
/// that yield no text discarded.
pub open spec fn writeup_rows_spec(rows: Seq<Seq<Seq<Seq<char>>>>) -> Seq<Seq<Seq<char>>>
    decreases rows.len(),
{
    if rows.len() == 0 {
        Seq::empty()
    } else {
        let cells = writeup_cells_spec(rows.first(), 0);
        let rest = writeup_rows_spec(rows.drop_first());
        if cells.len() > 0 {
            seq![cells] + rest
        } else {
            rest
        }
    }
}

/// Reduce a scraped writeups table to rows of cell texts, discarding rows
/// that yield no text at all.
pub fn writeup_rows(rows: &Vec<Vec<Vec<String>>>) -> (r: Vec<Vec<String>>)
    ensures
        r.deep_view() == writeup_rows_spec(rows.deep_view()),
{
    let ghost rdv = rows.deep_view();
    let mut out: Vec<Vec<String>> = Vec::new();
    proof {
        assert(rdv.skip(0) =~= rdv);
        assert(out.deep_view() =~= Seq::<Seq<Seq<char>>>::empty());
        assert(out.deep_view() + writeup_rows_spec(rdv) =~= writeup_rows_spec(rdv));
    }
    let mut i: usize = 0;
    while i < rows.len()
        invariant
            i <= rows@.len(),
            rdv == rows.deep_view(),
            rows@.len() == rdv.len(),
            out.deep_view() + writeup_rows_spec(rdv.skip(i as int)) == writeup_rows_spec(rdv),
        decreases rows@.len() - i,
    {
        proof {
            assert(rdv.skip(i as int).drop_first() =~= rdv.skip(i + 1));
            assert(rdv.skip(i as int).first() == rdv[i as int]);
            assert(rdv[i as int] == rows@[i as int].deep_view());
        }
        let cells = writeup_cells(&rows[i]);
        if cells.len() > 0 {
            let ghost prev = out.deep_view();
            out.push(cells);
            proof {
                assert(out.deep_view() =~= prev + seq![writeup_cells_spec(rdv[i as int], 0)]);
                assert(out.deep_view() + writeup_rows_spec(rdv.skip(i + 1)) =~= writeup_rows_spec(
                    rdv,
                ));
            }
        }
        i = i + 1;
    }
    proof {
        assert(rdv.skip(rdv.len() as int) =~= Seq::<Seq<Seq<Seq<char>>>>::empty());
    }
    out
}

/// One past-events row turned into a (name, cleaned date) pair: the first
/// two cells carry the name and the raw date, and a row whose first two
/// cells are missing, have no text, or whose date does not fit the expected
/// shape is dropped.
pub open spec fn past_row_spec(row: Seq<Seq<Seq<char>>>) -> Option<(Seq<char>, Seq<char>)> {
    if row.len() >= 2 && row[0].len() > 0 && row[1].len() > 0 && crate::dates::date_wf(
        row[1][0],
    ) {
        Some((row[0][0], crate::dates::clean_date_spec(row[1][0])))
    } else {
        None
    }
}

/// The past-events table turned into (name, cleaned date) pairs, in order,
/// with malformed rows dropped.
pub open spec fn past_events_spec(rows: Seq<Seq<Seq<Seq<char>>>>) -> Seq<(Seq<char>, Seq<char>)>
    decreases rows.len(),
{
    if rows.len() == 0 {
        Seq::empty()
    } else {
        let rest = past_events_spec(rows.drop_first());
        match past_row_spec(rows.first()) {
            Some(p) => seq![p] + rest,
            None => rest,
        }
    }
}

/// Turn a scraped past-events table into (name, cleaned date) pairs. Only
/// the first two cells of a row are read; the date cell goes through the
/// two-pass cleanup, and rows that do not fit are dropped rather than cut
/// at a wrong offset.
pub fn past_events_from_cells(rows: &Vec<Vec<Vec<String>>>) -> (r: Vec<(String, String)>)
    ensures
        r.deep_view() == past_events_spec(rows.deep_view()),
{
    let ghost rdv = rows.deep_view();
    let mut out: Vec<(String, String)> = Vec::new();
    proof {
        assert(rdv.skip(0) =~= rdv);
        assert(out.deep_view() =~= Seq::<(Seq<char>, Seq<char>)>::empty());
        assert(out.deep_view() + past_events_spec(rdv) =~= past_events_spec(rdv));
    }
    let mut i: usize = 0;
    while i < rows.len()
        invariant
            i <= rows@.len(),
            rdv == rows.deep_view(),
            rows@.len() == rdv.len(),
            out.deep_view() + past_events_spec(rdv.skip(i as int)) == past_events_spec(rdv),
        decreases rows@.len() - i,
    {
        proof {
            assert(rdv.skip(i as int).drop_first() =~= rdv.skip(i + 1));
            assert(rdv.skip(i as int).first() == rdv[i as int]);
            assert(rdv[i as int] == rows@[i as int].deep_view());
        }
        let row = &rows[i];
        if row.len() >= 2 && row[0].len() > 0 && row[1].len() > 0 {
            match crate::dates::clean_date(row[1][0].as_str()) {
                Some(cleaned) => {
                    let entry = (row[0][0].clone(), cleaned);
                    let ghost prev = out.deep_view();
                    out.push(entry);
                    proof {
                        assert(past_row_spec(rdv[i as int]) matches Some(p) && out.deep_view()
                            =~= prev + seq![p]);
                        assert(out.deep_view() + past_events_spec(rdv.skip(i + 1))
                            =~= past_events_spec(rdv));
                    }
                },
                None => {
                    proof {
                        assert(past_row_spec(rdv[i as int]) is None);
                    }
                },
            }
        } else {
            proof {
                assert(past_row_spec(rdv[i as int]) is None);
            }
        }
        i = i + 1;
    }
    proof {
        assert(rdv.skip(rdv.len() as int) =~= Seq::<Seq<Seq<Seq<char>>>>::empty());
    }
    out
}

/// One leaderboard row of cell texts cast into the display schema: the
/// source column order is rank, team, points, country, and the entry swaps
/// the last two so presentation sees (rank, team, country, points).
pub open spec fn leaderboard_entry_spec(row: Seq<Seq<char>>) -> (
    Seq<char>,
    Seq<char>,
    Seq<char>,
    Seq<char>,
)
    recommends
        row.len() >= 4,
{
    (row[0], row[1], row[3], row[2])
}

/// The leaderboard rows cast into entries, rows with fewer than four cells
/// dropped.
pub open spec fn leaderboard_entries_spec(rows: Seq<Seq<Seq<char>>>) -> Seq<
    (Seq<char>, Seq<char>, Seq<char>, Seq<char>),
>
    decreases rows.len(),
{
    if rows.len() == 0 {
        Seq::empty()
    } else {
        let rest = leaderboard_entries_spec(rows.drop_first());
        if rows.first().len() >= 4 {
            seq![leaderboard_entry_spec(rows.first())] + rest
        } else {
            rest
        }
    }
}

/// Cast leaderboard rows into (rank, team, country, points) entries,
/// swapping the source's points and country columns; rows with fewer than
/// four cells are dropped.
pub fn leaderboard_entries(rows: &Vec<Vec<String>>) -> (r: Vec<
    (String, String, String, String),
>)
    ensures
        r.deep_view() == leaderboard_entries_spec(rows.deep_view()),
{
    let ghost rdv = rows.deep_view();
    let mut out: Vec<(String, String, String, String)> = Vec::new();
    proof {
        assert(rdv.skip(0) =~= rdv);
        assert(out.deep_view() =~= Seq::<(Seq<char>, Seq<char>, Seq<char>, Seq<char>)>::empty());
        assert(out.deep_view() + leaderboard_entries_spec(rdv) =~= leaderboard_entries_spec(rdv));
    }
    let mut i: usize = 0;
    while i < rows.len()
        invariant
            i <= rows@.len(),
            rdv == rows.deep_view(),
            rows@.len() == rdv.len(),
            out.deep_view() + leaderboard_entries_spec(rdv.skip(i as int))
                == leaderboard_entries_spec(rdv),
        decreases rows@.len() - i,
    {
        proof {
            assert(rdv.skip(i as int).drop_first() =~= rdv.skip(i + 1));
            assert(rdv.skip(i as int).first() == rdv[i as int]);
            assert(rdv[i as int] == rows@[i as int].deep_view());
        }
        let row = &rows[i];
        if row.len() >= 4 {
            let entry = (row[0].clone(), row[1].clone(), row[3].clone(), row[2].clone());
            let ghost prev = out.deep_view();
            out.push(entry);
            proof {
                assert(out.deep_view() =~= prev + seq![leaderboard_entry_spec(rdv[i as int])]);
                assert(out.deep_view() + leaderboard_entries_spec(rdv.skip(i + 1))
                    =~= leaderboard_entries_spec(rdv));
            }
        }
        i = i + 1;
    }
    proof {
        assert(rdv.skip(rdv.len() as int) =~= Seq::<Seq<Seq<char>>>::empty());
    }
    out
}

/// One writeup row of cell texts cast into the display schema: five
/// positional fields in source order.
pub open spec fn writeup_entry_spec(row: Seq<Seq<char>>) -> (
    Seq<char>,
    Seq<char>,
    Seq<char>,
    Seq<char>,
    Seq<char>,
)
    recommends
        row.len() >= 5,
{
    (row[0], row[1], row[2], row[3], row[4])
}

/// The writeup rows cast into entries, rows with fewer than five cells
/// dropped.
pub open spec fn writeup_entries_spec(rows: Seq<Seq<Seq<char>>>) -> Seq<
    (Seq<char>, Seq<char>, Seq<char>, Seq<char>, Seq<char>),
>
    decreases rows.len(),
{
    if rows.len() == 0 {
        Seq::empty()
    } else {
        let rest = writeup_entries_spec(rows.drop_first());
        if rows.first().len() >= 5 {
            seq![writeup_entry_spec(rows.first())] + rest
        } else {
            rest
        }
    }
}

/// Cast writeup rows into five-field entries; rows with fewer than five
/// cells are dropped.
pub fn writeup_entries(rows: &Vec<Vec<String>>) -> (r: Vec<
    (String, String, String, String, String),
>)
    ensures
        r.deep_view() == writeup_entries_spec(rows.deep_view()),
{
    let ghost rdv = rows.deep_view();
    let mut out: Vec<(String, String, String, String, String)> = Vec::new();
    proof {
        assert(rdv.skip(0) =~= rdv);
        assert(out.deep_view() =~= Seq::<
            (Seq<char>, Seq<char>, Seq<char>, Seq<char>, Seq<char>),
        >::empty());
        assert(out.deep_view() + writeup_entries_spec(rdv) =~= writeup_entries_spec(rdv));
    }
    let mut i: usize = 0;
    while i < rows.len()
        invariant
            i <= rows@.len(),
            rdv == rows.deep_view(),
            rows@.len() == rdv.len(),
            out.deep_view() + writeup_entries_spec(rdv.skip(i as int)) == writeup_entries_spec(
                rdv,
            ),
        decreases rows@.len() - i,
    {
        proof {
            assert(rdv.skip(i as int).drop_first() =~= rdv.skip(i + 1));
            assert(rdv.skip(i as int).first() == rdv[i as int]);
            assert(rdv[i as int] == rows@[i as int].deep_view());
        }
        let row = &rows[i];
        if row.len() >= 5 {
            let entry = (
                row[0].clone(),
                row[1].clone(),
                row[2].clone(),
                row[3].clone(),
                row[4].clone(),
            );
            let ghost prev = out.deep_view();
            out.push(entry);
            proof {
                assert(out.deep_view() =~= prev + seq![writeup_entry_spec(rdv[i as int])]);
                assert(out.deep_view() + writeup_entries_spec(rdv.skip(i + 1))
                    =~= writeup_entries_spec(rdv));
            }
        }
        i = i + 1;
    }
    proof {
        assert(rdv.skip(rdv.len() as int) =~= Seq::<Seq<Seq<char>>>::empty());
    }
    out
}

/// Turn the raw text of the past-events page into (name, cleaned date)
/// pairs.
pub fn past_events_from_html(html: &str) -> (r: Vec<(String, String)>)
    ensures
        r.deep_view() == past_events_spec(crate::html::table_texts_of(html@)),
{
    let cells = crate::html::table_cell_texts(html);
    past_events_from_cells(&cells)
}

/// Turn the raw text of the stats page into (rank, team, country, points)
/// leaderboard entries.
pub fn leaderboard_from_html(html: &str) -> (r: Vec<(String, String, String, String)>)
    ensures
        r.deep_view() == leaderboard_entries_spec(
            leaderboard_rows_spec(crate::html::table_texts_of(html@)),
        ),
{
    let cells = crate::html::table_cell_texts(html);
    let rows = leaderboard_rows(&cells);
    leaderboard_entries(&rows)
}

/// Turn the raw text of the writeups page into five-field writeup entries,
/// with the tag cell's fragments joined.
pub fn writeups_from_html(html: &str) -> (r: Vec<(String, String, String, String, String)>)
    ensures
        r.deep_view() == writeup_entries_spec(
            writeup_rows_spec(crate::html::table_texts_of(html@)),
        ),
{
    let cells = crate::html::table_cell_texts(html);
    let rows = writeup_rows(&cells);
    writeup_entries(&rows)
}

/// Two texts without a double-newline, the first of which does not end in a
/// newline, concatenate to a text without a double-newline.
proof fn lemma_dnl_concat(a: Seq<char>, b: Seq<char>)
    requires
        !has_dnl(a),
        !has_dnl(b),
        a.len() == 0 || a.last() != '\n',
    ensures
        !has_dnl(a + b),
{
    if has_dnl(a + b) {
        let i = choose|i: int|
            0 <= i && i + 1 < (a + b).len() && #[trigger] (a + b)[i] == '\n' && (a + b)[i + 1]
                == '\n';
        if i + 1 < a.len() {
            assert(a[i] == '\n' && a[i + 1] == '\n');
        } else if i >= a.len() {
            assert(b[i - a.len()] == '\n' && b[i - a.len() + 1] == '\n');
        } else {
            assert(a.last() == '\n');
        }
    }
}

/// The reconstructed tag field holds no raw double-newline sequence, as
/// long as no fragment that survives the substitution ends in a newline
/// (two kept fragments could otherwise meet in a double-newline).
pub proof fn lemma_tags_no_double_newline(fs: Seq<Seq<char>>)
    requires
        forall|k: int|
            0 <= k < fs.len() ==> has_dnl(#[trigger] fs[k]) || fs[k].len() == 0 || fs[k].last()
                != '\n',
    ensures
        !has_dnl(join_tags_spec(fs)),
    decreases fs.len(),
{
    if fs.len() == 0 {
    } else {
        let head = if has_dnl(fs.first()) {
            seq![' ']
        } else {
            fs.first()
        };
        assert(!has_dnl(head) && (head.len() == 0 || head.last() != '\n')) by {
            if has_dnl(fs.first()) {
                assert(seq![' '].last() == ' ');
                assert(!has_dnl(seq![' ']));
            } else {
                assert(fs[0] == fs.first());
            }
        }
        assert(forall|k: int|
            0 <= k < fs.drop_first().len() ==> has_dnl(#[trigger] fs.drop_first()[k])
                || fs.drop_first()[k].len() == 0 || fs.drop_first()[k].last() != '\n') by {
            assert(forall|k: int|
                0 <= k < fs.drop_first().len() ==> #[trigger] fs.drop_first()[k] == fs[k + 1]);
        }
        lemma_tags_no_double_newline(fs.drop_first());
        lemma_dnl_concat(head, join_tags_spec(fs.drop_first()));
    }
}

} // verus!
