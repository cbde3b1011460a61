//! Writing privilege rows as a table for a text editor, and reading the edited table back.
use vstd::prelude::*;
use vstd::string::*;

use crate::muscl_core::common::{rev_yn, rev_yn_spec, yn};
use crate::muscl_core::database_privileges::base::{
    database_privilege_field, db_priv_field_human_readable_name, field_name, human_readable_name,
    privilege_name, DatabasePrivilegeRow, PrivilegeRowView,
};
use crate::muscl_core::database_privileges::cli::split_on;
use crate::muscl_core::database_privileges::diff::rows_view;
use crate::muscl_core::types::{MySQLDatabase, MySQLUser};
use crate::text::{
    byte_len, decimal, is_whitespace_char, join, join_strings, pad_right, pad_right_str, push_str,
    split_ascii_whitespace, str_len, trim, trim_chars, usize_to_decimal, words,
};

verus! {

/// `Y` for a granted privilege, `N` for one that is not.
pub open spec fn yn_chars(b: bool) -> Seq<char> {
    if b { "Y"@ } else { "N"@ }
}

/// The title of the `i`th of the thirteen columns.
pub open spec fn column_title(i: int) -> Seq<char> {
    human_readable_name(field_name(i))
}

/// The thirteen cells of a row in the editor: the database and user names padded to their
/// column widths, then `Y` or `N` padded to the width of each privilege's title.
pub open spec fn editor_cells(row: PrivilegeRowView, username_len: int, database_name_len: int) -> Seq<Seq<char>> {
    Seq::new(
        13,
        |i: int|
            if i == 0 {
                pad_right(row.0, database_name_len)
            } else if i == 1 {
                pad_right(row.1, username_len)
            } else {
                pad_right(yn_chars(row.2[i - 2]), column_title(i).len() as int)
            },
    )
}

/// A row of the editor table: its cells joined by spaces, without surrounding whitespace.
pub open spec fn editor_line(row: PrivilegeRowView, username_len: int, database_name_len: int) -> Seq<char> {
    trim_chars(join(editor_cells(row, username_len, database_name_len), " "@))
}

/// Writes a single row of the privileges table for the editor.
pub fn format_privileges_line_for_editor(
    privs: &DatabasePrivilegeRow,
    username_len: usize,
    database_name_len: usize,
) -> (r: String)
    ensures
        r@ == editor_line(privs@, username_len as int, database_name_len as int),
{
    let mut cells: Vec<String> = Vec::new();
    cells.push(pad_right_str(privs.db.as_str(), database_name_len));
    cells.push(pad_right_str(privs.user.as_str(), username_len));
    let mut i: usize = 2;
    while i < 13
        invariant
            2 <= i <= 13,
            cells@.len() == i,
            forall|j: int| 0 <= j < i ==> #[trigger] cells@[j]@ == editor_cells(privs@, username_len as int, database_name_len as int)[j],
        decreases 13 - i,
    {
        let title = db_priv_field_human_readable_name(database_privilege_field(i));
        let cell = pad_right_str(yn(privs.privilege_at(i - 2)), title.unicode_len());
        cells.push(cell);
        i = i + 1;
    }
    let ghost cv = cells@.map_values(|p: String| p@);
    assert(cv =~= editor_cells(privs@, username_len as int, database_name_len as int));
    let line = join_strings(cells.as_slice(), " ");
    let t = trim(line.as_str());
    String::from_str(t)
}

/// The lines of the comment at the top of the editor.
pub open spec fn editor_comment_lines() -> Seq<Seq<char>> {
    seq![
        "# Welcome to the privilege editor."@,
        "# Each line defines what privileges a single user has on a single database."@,
        "# The first two columns respectively represent the database name and the user, and the remaining columns are the privileges."@,
        "# If the user should have a certain privilege, write 'Y', otherwise write 'N'."@,
        "#"@,
        "# Lines starting with '#' are comments and will be ignored."@,
    ]
}

/// The comment at the top of the editor, with an empty line before and after it.
pub open spec fn editor_comment() -> Seq<char> {
    "\n"@ + join(editor_comment_lines(), "\n"@) + "\n"@
}

/// The comment at the top of the editor.
fn editor_comment_text() -> (r: String)
    ensures
        r@ == editor_comment(),
{
    let mut s = String::from_str("\n");
    push_str(&mut s, "# Welcome to the privilege editor.");
    push_str(&mut s, "\n");
    push_str(&mut s, "# Each line defines what privileges a single user has on a single database.");
    push_str(&mut s, "\n");
    push_str(&mut s, "# The first two columns respectively represent the database name and the user, and the remaining columns are the privileges.");
    push_str(&mut s, "\n");
    push_str(&mut s, "# If the user should have a certain privilege, write 'Y', otherwise write 'N'.");
    push_str(&mut s, "\n");
    push_str(&mut s, "#");
    push_str(&mut s, "\n");
    push_str(&mut s, "# Lines starting with '#' are comments and will be ignored.");
    push_str(&mut s, "\n");
    proof {
        let l = editor_comment_lines();
        assert(l.take(1).drop_last() =~= Seq::<Seq<char>>::empty());
        assert(join(l.take(1), "\n"@) == l[0]);
        assert(l.take(2).drop_last() =~= l.take(1));
        assert(l.take(3).drop_last() =~= l.take(2));
        assert(l.take(4).drop_last() =~= l.take(3));
        assert(l.take(5).drop_last() =~= l.take(4));
        assert(l.take(6).drop_last() =~= l.take(5));
        assert(l.take(6) =~= l);
        let sep = "\n"@;
        assert(join(l.take(2), sep) == l[0] + sep + l[1]);
        assert(join(l.take(3), sep) == l[0] + sep + l[1] + sep + l[2]);
        assert(join(l.take(4), sep) == l[0] + sep + l[1] + sep + l[2] + sep + l[3]);
        assert(join(l.take(5), sep) == l[0] + sep + l[1] + sep + l[2] + sep + l[3] + sep + l[4]);
        assert(join(l, sep) == l[0] + sep + l[1] + sep + l[2] + sep + l[3] + sep + l[4] + sep + l[5]);
    }
    assert(s@ =~= editor_comment());
    s
}

/// The greatest byte length of the user names of the rows, or 0 for no rows.
pub open spec fn max_user_len(rows: Seq<PrivilegeRowView>) -> usize
    decreases rows.len(),
{
    if rows.len() == 0 {
        0
    } else {
        let m = max_user_len(rows.drop_last());
        let l = str_len(rows.last().1);
        if m >= l { m } else { l }
    }
}

/// The greatest byte length of the database names of the rows, or 0 for no rows.
pub open spec fn max_db_len(rows: Seq<PrivilegeRowView>) -> usize
    decreases rows.len(),
{
    if rows.len() == 0 {
        0
    } else {
        let m = max_db_len(rows.drop_last());
        let l = str_len(rows.last().0);
        if m >= l { m } else { l }
    }
}

/// The larger of two numbers.
pub open spec fn max_usize(a: usize, b: usize) -> usize {
    if a >= b { a } else { b }
}

/// The width of the user column: the longest user name in bytes, or that of the example
/// user when there are no rows, and at least the width of its title.
pub open spec fn user_column_width(rows: Seq<PrivilegeRowView>, example_user: Seq<char>) -> usize {
    max_usize(if rows.len() == 0 { str_len(example_user) } else { max_user_len(rows) }, 4)
}

/// The width of the database column: the longest database name in bytes, or that of the
/// example database when there are no rows, and at least the width of its title.
pub open spec fn db_column_width(rows: Seq<PrivilegeRowView>, example_db: Seq<char>) -> usize {
    max_usize(if rows.len() == 0 { str_len(example_db) } else { max_db_len(rows) }, 8)
}

/// The header line of the editor: the column titles joined by spaces, the first two padded
/// to the widths of their columns.
pub open spec fn editor_header(username_len: int, database_name_len: int) -> Seq<char> {
    join(
        Seq::new(
            13,
            |i: int|
                if i == 0 {
                    pad_right(column_title(0), database_name_len)
                } else if i == 1 {
                    pad_right(column_title(1), username_len)
                } else {
                    column_title(i)
                },
        ),
        " "@,
    )
}

/// The example row shown, commented out, when there are no rows: the example user on the
/// example database, with the first four privileges.
pub open spec fn example_row(example_db: Seq<char>, example_user: Seq<char>) -> PrivilegeRowView {
    (example_db, example_user, Seq::new(11, |i: int| i < 4))
}

/// The content of the editor: the comment, the header, and one line per row, or the example
/// row commented out when there are no rows.
pub open spec fn editor_content(rows: Seq<PrivilegeRowView>, unix_user: Seq<char>, database_name: Option<Seq<char>>) -> Seq<char> {
    let example_user = unix_user + "_user"@;
    let example_db = match database_name {
        Some(d) => d,
        None => unix_user + "_db"@,
    };
    let ulen = user_column_width(rows, example_user) as int;
    let dlen = db_column_width(rows, example_db) as int;
    editor_comment() + "\n"@ + editor_header(ulen, dlen) + "\n"@ + if rows.len() == 0 {
        "# "@ + editor_line(example_row(example_db, example_user), ulen, dlen)
    } else {
        join(Seq::new(rows.len(), |i: int| editor_line(rows[i], ulen, dlen)), "\n"@)
    }
}

/// Writes the content for the privilege editor. The unix user names the example row shown
/// when there are no privileges to edit.
pub fn generate_editor_content_from_privilege_data(
    privilege_data: &[DatabasePrivilegeRow],
    unix_user: &str,
    database_name: Option<&MySQLDatabase>,
) -> (r: String)
    ensures
        r@ == editor_content(
            rows_view(privilege_data@),
            unix_user@,
            match database_name {
                Some(d) => Some(d@),
                None => None,
            },
        ),
{
    let ghost rows = rows_view(privilege_data@);
    let mut example_user = String::from_str(unix_user);
    push_str(&mut example_user, "_user");
    let example_db: String = match database_name {
        Some(d) => d.0.clone(),
        None => {
            let mut s = String::from_str(unix_user);
            push_str(&mut s, "_db");
            s
        },
    };
    let mut max_user: usize = 0;
    let mut max_db: usize = 0;
    let mut i: usize = 0;
    while i < privilege_data.len()
        invariant
            i <= privilege_data@.len(),
            rows == rows_view(privilege_data@),
            max_user == max_user_len(rows.take(i as int)),
            max_db == max_db_len(rows.take(i as int)),
        decreases privilege_data@.len() - i,
    {
        assert(rows.take(i + 1).drop_last() =~= rows.take(i as int));
        assert(rows.take(i + 1).last() == privilege_data@[i as int]@);
        let ul = privilege_data[i].user.as_str().len();
        let dl = privilege_data[i].db.as_str().len();
        if ul > max_user {
            max_user = ul;
        }
        if dl > max_db {
            max_db = dl;
        }
        i = i + 1;
    }
    assert(rows.take(privilege_data@.len() as int) =~= rows);
    let mut longest_username: usize = if privilege_data.len() == 0 {
        example_user.as_str().len()
    } else {
        max_user
    };
    if longest_username < 4 {
        longest_username = 4;
    }
    let mut longest_database_name: usize = if privilege_data.len() == 0 {
        example_db.as_str().len()
    } else {
        max_db
    };
    if longest_database_name < 8 {
        longest_database_name = 8;
    }
    let mut header: Vec<String> = Vec::new();
    let mut k: usize = 0;
    while k < 13
        invariant
            k <= 13,
            header@.len() == k,
            forall|j: int| 0 <= j < k ==> #[trigger] header@[j]@ == column_title(j),
        decreases 13 - k,
    {
        header.push(db_priv_field_human_readable_name(database_privilege_field(k)));
        k = k + 1;
    }
    let h0 = pad_right_str(header[0].as_str(), longest_database_name);
    header.set(0, h0);
    let h1 = pad_right_str(header[1].as_str(), longest_username);
    header.set(1, h1);
    let ghost hv = header@.map_values(|p: String| p@);
    assert(hv =~= Seq::new(
        13,
        |j: int|
            if j == 0 {
                pad_right(column_title(0), longest_database_name as int)
            } else if j == 1 {
                pad_right(column_title(1), longest_username as int)
            } else {
                column_title(j)
            },
    ));
    let header_line = join_strings(header.as_slice(), " ");
    let example = DatabasePrivilegeRow::from_privileges(
        MySQLDatabase(example_db),
        MySQLUser(example_user),
        &[true, true, true, true, false, false, false, false, false, false, false],
    );
    let ghost ex = example@;
    let example_line = format_privileges_line_for_editor(&example, longest_username, longest_database_name);
    let mut out = editor_comment_text();
    push_str(&mut out, "\n");
    push_str(&mut out, header_line.as_str());
    push_str(&mut out, "\n");
    if privilege_data.len() == 0 {
        push_str(&mut out, "# ");
        push_str(&mut out, example_line.as_str());
        proof {
            assert(ex.2 =~= Seq::new(11, |j: int| j < 4));
        }
    } else {
        let mut lines: Vec<String> = Vec::new();
        let mut j: usize = 0;
        while j < privilege_data.len()
            invariant
                j <= privilege_data@.len(),
                rows == rows_view(privilege_data@),
                lines@.len() == j,
                forall|x: int| 0 <= x < j ==> #[trigger] lines@[x]@ == editor_line(rows[x], longest_username as int, longest_database_name as int),
            decreases privilege_data@.len() - j,
        {
            lines.push(format_privileges_line_for_editor(&privilege_data[j], longest_username, longest_database_name));
            j = j + 1;
        }
        let ghost lv = lines@.map_values(|p: String| p@);
        assert(lv =~= Seq::new(rows.len(), |x: int| editor_line(rows[x], longest_username as int, longest_database_name as int)));
        let body = join_strings(lines.as_slice(), "\n");
        push_str(&mut out, body.as_str());
    }
    out
}

/// What reading one line of the editor gives.
pub enum LineParse {
    PrivilegeRow(PrivilegeRowView),
    ParserError(Seq<char>),
    TooFewFields(nat),
    TooManyFields(nat),
    Header,
    Comment,
    Empty,
}

/// What reading one line of the editor gives, as it is used in the library.
#[derive(Debug)]
pub enum PrivilegeRowParseResult {
    PrivilegeRow(DatabasePrivilegeRow),
    ParserError(String),
    TooFewFields(usize),
    TooManyFields(usize),
    Header,
    Comment,
    Empty,
}

impl View for PrivilegeRowParseResult {
    type V = LineParse;

    open spec fn view(&self) -> LineParse {
        match self {
            PrivilegeRowParseResult::PrivilegeRow(r) => LineParse::PrivilegeRow(r@),
            PrivilegeRowParseResult::ParserError(e) => LineParse::ParserError(e@),
            PrivilegeRowParseResult::TooFewFields(n) => LineParse::TooFewFields(*n as nat),
            PrivilegeRowParseResult::TooManyFields(n) => LineParse::TooManyFields(*n as nat),
            PrivilegeRowParseResult::Header => LineParse::Header,
            PrivilegeRowParseResult::Comment => LineParse::Comment,
            PrivilegeRowParseResult::Empty => LineParse::Empty,
        }
    }
}

/// The message for a privilege cell that is neither `Y` nor `N`.
pub open spec fn cell_error(cell: Seq<char>, name: Seq<char>) -> Seq<char> {
    "Could not parse "@ + name + " privilege: Expected Y or N, found "@ + cell
}

/// The value of a privilege cell, or the message for a cell that is neither `Y` nor `N`.
pub open spec fn parse_cell(cell: Seq<char>, name: Seq<char>) -> Result<bool, Seq<char>> {
    match rev_yn_spec(cell) {
        Some(b) => Ok(b),
        None => Err(cell_error(cell, name)),
    }
}

/// Reads a privilege cell: `Y` or `N` in either case. The message of the failure names the
/// privilege and what the cell held.
pub fn parse_privilege_cell_from_editor(yn: &str, name: &str) -> (r: Result<bool, String>)
    ensures
        match parse_cell(yn@, name@) {
            Ok(b) => r == Ok::<bool, String>(b),
            Err(m) => r is Err && r->Err_0@ == m,
        },
{
    match rev_yn(yn) {
        Some(b) => Ok(b),
        None => {
            let mut msg = String::from_str("Could not parse ");
            push_str(&mut msg, name);
            push_str(&mut msg, " privilege: Expected Y or N, found ");
            push_str(&mut msg, yn);
            Err(msg)
        },
    }
}

/// Whether the words of a line are the column titles, as far as both go.
pub open spec fn is_header_line(row: Seq<char>) -> bool {
    let w = words(row);
    forall|i: int| 0 <= i < w.len() && i < 13 ==> #[trigger] w[i] == column_title(i)
}

/// Whether a line of the editor is the header.
pub fn editor_row_is_header(row: &str) -> (r: bool)
    ensures
        r == is_header_line(row@),
{
    let parts = split_ascii_whitespace(row);
    let mut i: usize = 0;
    while i < parts.len() && i < 13
        invariant
            parts@.len() == words(row@).len(),
            forall|j: int| 0 <= j < parts@.len() ==> #[trigger] parts@[j]@ == words(row@)[j],
            i <= parts@.len(),
            i <= 13,
            forall|j: int| 0 <= j < i ==> #[trigger] words(row@)[j] == column_title(j),
        decreases 13 - i,
    {
        let title = db_priv_field_human_readable_name(database_privilege_field(i));
        if !crate::text::str_eq(parts[i].as_str(), title.as_str()) {
            assert(parts@[i as int]@ == words(row@)[i as int]);
            return false;
        }
        i = i + 1;
    }
    true
}

/// Whether a line starts with `#` or `//`.
pub open spec fn is_comment_line(row: Seq<char>) -> bool {
    (row.len() >= 1 && row[0] == '#') || (row.len() >= 2 && row[0] == '/' && row[1] == '/')
}

/// The first `n` privilege cells of the words of a line, read in order; the message of the
/// first that is neither `Y` nor `N`.
pub open spec fn parse_cells(parts: Seq<Seq<char>>, n: int) -> Result<Seq<bool>, Seq<char>>
    decreases n,
{
    if n <= 0 {
        Ok(Seq::empty())
    } else {
        match parse_cells(parts, n - 1) {
            Err(e) => Err(e),
            Ok(ps) => match parse_cell(parts[n + 1], privilege_name(n - 1)) {
                Ok(b) => Ok(ps.push(b)),
                Err(e) => Err(e),
            },
        }
    }
}

/// What reading one line of the editor gives: comments start with `#` or `//`; a line
/// must have thirteen words; the header is recognised by its titles; otherwise the
/// database name, the user name and eleven `Y`/`N` cells.
pub open spec fn parse_line(row: Seq<char>) -> LineParse {
    let t = trim_chars(row);
    let parts = words(t);
    if is_comment_line(row) {
        LineParse::Comment
    } else if t.len() == 0 {
        LineParse::Empty
    } else if parts.len() < 13 {
        LineParse::TooFewFields(parts.len())
    } else if parts.len() > 13 {
        LineParse::TooManyFields(parts.len())
    } else if is_header_line(row) {
        LineParse::Header
    } else {
        match parse_cells(parts, 11) {
            Err(e) => LineParse::ParserError(e),
            Ok(ps) => LineParse::PrivilegeRow((parts[0], parts[1], ps)),
        }
    }
}

/// Once reading the first `n` cells fails, reading more of them fails the same way.
proof fn lemma_parse_cells_err_stays(parts: Seq<Seq<char>>, n: int, m: int)
    requires
        0 <= n <= m,
        parse_cells(parts, n) is Err,
    ensures
        parse_cells(parts, m) == parse_cells(parts, n),
    decreases m - n,
{
    if n < m {
        lemma_parse_cells_err_stays(parts, n, m - 1);
    }
}

/// Reads a single line of the privileges table from the editor.
pub fn parse_privilege_row_from_editor(row: &str) -> (r: PrivilegeRowParseResult)
    ensures
        r@ == parse_line(row@),
{
    let len = row.unicode_len();
    if (len >= 1 && row.get_char(0) == '#') || (len >= 2 && row.get_char(0) == '/' && row.get_char(1) == '/') {
        return PrivilegeRowParseResult::Comment;
    }
    let t = trim(row);
    if t.unicode_len() == 0 {
        return PrivilegeRowParseResult::Empty;
    }
    let parts = split_ascii_whitespace(t);
    if parts.len() < 13 {
        return PrivilegeRowParseResult::TooFewFields(parts.len());
    }
    if parts.len() > 13 {
        return PrivilegeRowParseResult::TooManyFields(parts.len());
    }
    if editor_row_is_header(row) {
        return PrivilegeRowParseResult::Header;
    }
    let ghost pv = words(t@);
    let mut privs: Vec<bool> = Vec::new();
    let mut k: usize = 0;
    while k < 11
        invariant
            k <= 11,
            parts@.len() == 13,
            pv.len() == 13,
            forall|j: int| 0 <= j < 13 ==> #[trigger] parts@[j]@ == pv[j],
            privs@.len() == k,
            parse_cells(pv, k as int) == Ok::<Seq<bool>, Seq<char>>(privs@),
            pv == words(trim_chars(row@)),
            !is_comment_line(row@),
            trim_chars(row@).len() > 0,
            !is_header_line(row@),
        decreases 11 - k,
    {
        assert(parts@[k + 2]@ == pv[k + 2]);
        match parse_privilege_cell_from_editor(parts[k + 2].as_str(), database_privilege_field(k + 2)) {
            Ok(b) => {
                privs.push(b);
            },
            Err(e) => {
                proof {
                    lemma_parse_cells_err_stays(pv, k + 1, 11);
                }
                return PrivilegeRowParseResult::ParserError(e);
            },
        }
        k = k + 1;
    }
    let r = DatabasePrivilegeRow::from_privileges(
        MySQLDatabase(parts[0].clone()),
        MySQLUser(parts[1].clone()),
        privs.as_slice(),
    );
    PrivilegeRowParseResult::PrivilegeRow(r)
}

/// The message for a line with too few words.
pub open spec fn too_few_message(n: nat) -> Seq<char> {
    "Too few fields in line. Expected to find 13 fields, found "@ + decimal(n)
}

/// The message for a line with too many words.
pub open spec fn too_many_message(n: nat) -> Seq<char> {
    "Too many fields in line. Expected to find 13 fields, found "@ + decimal(n)
}

/// The first `n` lines read in order: the rows they hold, or the message of the first line
/// that cannot be read.
pub open spec fn parse_lines(lines: Seq<Seq<char>>, n: int) -> Result<Seq<PrivilegeRowView>, Seq<char>>
    decreases n,
{
    if n <= 0 {
        Ok(Seq::empty())
    } else {
        match parse_lines(lines, n - 1) {
            Err(e) => Err(e),
            Ok(rows) => match parse_line(trim_chars(lines[n - 1])) {
                LineParse::PrivilegeRow(r) => Ok(rows.push(r)),
                LineParse::ParserError(e) => Err(e),
                LineParse::TooFewFields(k) => Err(too_few_message(k)),
                LineParse::TooManyFields(k) => Err(too_many_message(k)),
                _ => Ok(rows),
            },
        }
    }
}

/// The rows held by the content of the editor, read line by line after the surrounding
/// whitespace is removed; the message of the first line that cannot be read.
pub open spec fn parse_content(content: Seq<char>) -> Result<Seq<PrivilegeRowView>, Seq<char>> {
    let lines = split_on(trim_chars(content), '\n');
    parse_lines(lines, lines.len() as int)
}

/// Reads the privilege rows back from the content of the editor. Comments, empty lines and
/// the header are skipped; the first line that is not a row of thirteen fields with `Y` or
/// `N` in each privilege cell makes it fail.
pub fn parse_privilege_data_from_editor_content(content: String) -> (r: Result<Vec<DatabasePrivilegeRow>, String>)
    ensures
        match parse_content(content@) {
            Ok(rows) => r is Ok && rows_view(r->Ok_0@) == rows,
            Err(m) => r is Err && r->Err_0@ == m,
        },
{
    let t = trim(content.as_str());
    let lines = crate::muscl_core::database_privileges::cli::split_by(t, '\n');
    let ghost lv = split_on(t@, '\n');
    let mut rows: Vec<DatabasePrivilegeRow> = Vec::new();
    assert(rows_view(rows@) =~= Seq::<PrivilegeRowView>::empty());
    let mut i: usize = 0;
    while i < lines.len()
        invariant
            i <= lines@.len(),
            lines@.len() == lv.len(),
            forall|j: int| 0 <= j < lv.len() ==> #[trigger] lines@[j]@ == lv[j],
            parse_lines(lv, i as int) == Ok::<Seq<PrivilegeRowView>, Seq<char>>(rows_view(rows@)),
            lv == split_on(trim_chars(content@), '\n'),
        decreases lines@.len() - i,
    {
        let line = trim(lines[i].as_str());
        assert(lines@[i as int]@ == lv[i as int]);
        let ghost before = rows_view(rows@);
        match parse_privilege_row_from_editor(line) {
            PrivilegeRowParseResult::PrivilegeRow(row) => {
                rows.push(row);
                assert(rows_view(rows@) =~= before.push(rows@.last()@));
            },
            PrivilegeRowParseResult::ParserError(e) => {
                proof {
                    lemma_parse_lines_err_stays(lv, i + 1);
                }
                return Err(e);
            },
            PrivilegeRowParseResult::TooFewFields(n) => {
                let mut msg = String::from_str("Too few fields in line. Expected to find 13 fields, found ");
                let num = usize_to_decimal(n);
                push_str(&mut msg, num.as_str());
                proof {
                    lemma_parse_lines_err_stays(lv, i + 1);
                }
                return Err(msg);
            },
            PrivilegeRowParseResult::TooManyFields(n) => {
                let mut msg = String::from_str("Too many fields in line. Expected to find 13 fields, found ");
                let num = usize_to_decimal(n);
                push_str(&mut msg, num.as_str());
                proof {
                    lemma_parse_lines_err_stays(lv, i + 1);
                }
                return Err(msg);
            },
            _ => {},
        }
        i = i + 1;
    }
    Ok(rows)
}

/// Once reading the first `n` lines fails, reading all of them fails the same way.
proof fn lemma_parse_lines_err_stays(lines: Seq<Seq<char>>, n: int)
    requires
        0 <= n <= lines.len(),
        parse_lines(lines, n) is Err,
    ensures
        parse_lines(lines, lines.len() as int) == parse_lines(lines, n),
    decreases lines.len() - n,
{
    if n < lines.len() {
        lemma_parse_lines_err_stays(lines, n + 1);
    }
}

} // verus!
