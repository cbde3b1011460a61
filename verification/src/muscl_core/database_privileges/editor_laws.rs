//! What reading the editor gives back of what writing it wrote.
use vstd::prelude::*;

use crate::muscl_core::database_privileges::cli::{split_on, lemma_split_nonempty};
use crate::muscl_core::common::{lemma_rev_yn_of_yn, rev_yn_spec};
use crate::muscl_core::database_privileges::base::{human_readable_name, privilege_name, row_display};
use crate::muscl_core::database_privileges::base::PrivilegeRowView;
use crate::muscl_core::database_privileges::editor::{
    column_title, db_column_width, editor_cells, editor_comment, editor_comment_lines,
    editor_content, editor_header, editor_line, example_row, is_comment_line, parse_content,
    parse_lines, user_column_width, is_header_line, parse_cell,
    parse_cells, parse_line, yn_chars, LineParse,
};
use crate::text::{
    is_ascii_whitespace_char, is_whitespace_char, join, pad_right, spaces, trim_chars,
    trim_end_chars, trim_start_chars, words, words_acc,
};

verus! {

/// Splitting text without the separator gives the text itself.
proof fn lemma_split_no_sep(s: Seq<char>, sep: char)
    requires
        forall|i: int| 0 <= i < s.len() ==> s[i] != sep,
    ensures
        split_on(s, sep) == seq![s],
    decreases s.len(),
{
    if s.len() > 0 {
        let dl = s.drop_last();
        lemma_split_no_sep(dl, sep);
        assert(s.last() != sep);
        assert(dl.push(s.last()) =~= s);
        assert(split_on(s, sep) =~= seq![s]);
    } else {
        assert(s =~= Seq::<char>::empty());
    }
}

/// Splitting `x`, a separator, then `y` gives the pieces of `x` followed by those of `y`.
proof fn lemma_split_concat(x: Seq<char>, y: Seq<char>, sep: char)
    ensures
        split_on(x + seq![sep] + y, sep) == split_on(x, sep) + split_on(y, sep),
    decreases y.len(),
{
    let s = x + seq![sep] + y;
    if y.len() == 0 {
        assert(s.drop_last() =~= x);
        assert(split_on(y, sep) =~= seq![Seq::<char>::empty()]);
        assert(split_on(s, sep) =~= split_on(x, sep) + split_on(y, sep));
    } else {
        let yd = y.drop_last();
        lemma_split_concat(x, yd, sep);
        lemma_split_nonempty(yd, sep);
        assert(s.drop_last() =~= x + seq![sep] + yd);
        assert(s.last() == y.last());
        let px = split_on(x, sep);
        let py = split_on(yd, sep);
        if y.last() == sep {
            assert(split_on(s, sep) =~= px + split_on(y, sep));
        } else {
            assert((px + py).last() == py.last());
            assert(split_on(s, sep) =~= px + split_on(y, sep));
        }
    }
}

/// Splitting lines joined by the separator gives the lines back, when none holds it.
proof fn lemma_split_join(ls: Seq<Seq<char>>, sep: char)
    requires
        ls.len() >= 1,
        forall|i: int, j: int| 0 <= i < ls.len() && 0 <= j < ls[i].len() ==> #[trigger] ls[i][j] != sep,
    ensures
        split_on(join(ls, seq![sep]), sep) == ls,
    decreases ls.len(),
{
    if ls.len() == 1 {
        assert forall|j: int| 0 <= j < ls[0].len() implies ls[0][j] != sep by {}
        lemma_split_no_sep(ls[0], sep);
        assert(split_on(join(ls, seq![sep]), sep) =~= ls);
    } else {
        let dl = ls.drop_last();
        assert forall|i: int, j: int| 0 <= i < dl.len() && 0 <= j < dl[i].len() implies #[trigger] dl[i][j] != sep by {
            assert(dl[i] == ls[i]);
        }
        lemma_split_join(dl, sep);
        let last = ls.last();
        assert forall|j: int| 0 <= j < last.len() implies last[j] != sep by {
            assert(ls[ls.len() - 1][j] != sep);
        }
        lemma_split_no_sep(last, sep);
        lemma_split_concat(join(dl, seq![sep]), last, sep);
        assert(split_on(join(ls, seq![sep]), sep) =~= ls);
    }
}

/// Every character of joined pieces is a character of a piece or of the separator.
proof fn lemma_join_avoids(parts: Seq<Seq<char>>, sep: Seq<char>, c: char)
    requires
        forall|i: int, j: int| 0 <= i < parts.len() && 0 <= j < parts[i].len() ==> #[trigger] parts[i][j] != c,
        forall|j: int| 0 <= j < sep.len() ==> sep[j] != c,
    ensures
        forall|j: int| 0 <= j < join(parts, sep).len() ==> #[trigger] join(parts, sep)[j] != c,
    decreases parts.len(),
{
    if parts.len() == 1 {
        assert forall|j: int| 0 <= j < join(parts, sep).len() implies #[trigger] join(parts, sep)[j] != c by {
            assert(parts[0][j] != c);
        }
    } else if parts.len() > 1 {
        let dl = parts.drop_last();
        assert forall|i: int, j: int| 0 <= i < dl.len() && 0 <= j < dl[i].len() implies #[trigger] dl[i][j] != c by {
            assert(dl[i] == parts[i]);
        }
        lemma_join_avoids(dl, sep, c);
        let a = join(dl, sep);
        let l = parts.last();
        assert forall|j: int| 0 <= j < join(parts, sep).len() implies #[trigger] join(parts, sep)[j] != c by {
            if j < a.len() {
                assert(join(parts, sep)[j] == a[j]);
            } else if j < a.len() + sep.len() {
                assert(join(parts, sep)[j] == sep[j - a.len()]);
            } else {
                assert(join(parts, sep)[j] == l[j - a.len() - sep.len()]);
                assert(parts[parts.len() - 1][j - a.len() - sep.len()] != c);
            }
        }
    }
}

/// Joined pieces start with the first piece.
proof fn lemma_join_starts_with(parts: Seq<Seq<char>>, sep: Seq<char>)
    requires
        parts.len() >= 1,
    ensures
        join(parts, sep).len() >= parts[0].len(),
        join(parts, sep).subrange(0, parts[0].len() as int) == parts[0],
        parts.len() >= 2 && sep.len() >= 1 ==> join(parts, sep).len() > parts[0].len()
            && join(parts, sep)[parts[0].len() as int] == sep[0],
    decreases parts.len(),
{
    if parts.len() > 1 {
        let dl = parts.drop_last();
        lemma_join_starts_with(dl, sep);
        assert(dl[0] == parts[0]);
        let a = join(dl, sep);
        assert(join(parts, sep) == a + sep + parts.last());
        assert(join(parts, sep).subrange(0, parts[0].len() as int) =~= a.subrange(0, parts[0].len() as int));
        if parts.len() == 2 {
            assert(a == parts[0]);
        } else if sep.len() >= 1 {
            assert(join(parts, sep)[parts[0].len() as int] == a[parts[0].len() as int]);
        }
    } else {
        assert(parts[0].subrange(0, parts[0].len() as int) =~= parts[0]);
    }
}

/// A word: non-empty, without ASCII whitespace.
pub open spec fn is_token(t: Seq<char>) -> bool {
    t.len() > 0 && forall|i: int| 0 <= i < t.len() ==> !is_ascii_whitespace_char(#[trigger] t[i])
}

/// Reading a word and then spaces.
proof fn lemma_words_acc_token_spaces(t: Seq<char>, m: nat)
    requires
        is_token(t),
    ensures
        words_acc(t + spaces(m)) == if m == 0 {
            (Seq::<Seq<char>>::empty(), t)
        } else {
            (seq![t], Seq::<char>::empty())
        },
    decreases t.len() + m,
{
    if m == 0 {
        assert(t + spaces(0) =~= t);
        lemma_words_acc_token(t);
    } else {
        let s = t + spaces(m);
        assert(s.drop_last() =~= t + spaces((m - 1) as nat));
        assert(s.last() == ' ');
        lemma_words_acc_token_spaces(t, (m - 1) as nat);
    }
}

/// Reading a word alone.
proof fn lemma_words_acc_token(t: Seq<char>)
    requires
        forall|i: int| 0 <= i < t.len() ==> !is_ascii_whitespace_char(#[trigger] t[i]),
    ensures
        words_acc(t) == (Seq::<Seq<char>>::empty(), t),
    decreases t.len(),
{
    if t.len() > 0 {
        let dl = t.drop_last();
        assert forall|i: int| 0 <= i < dl.len() implies !is_ascii_whitespace_char(#[trigger] dl[i]) by {
            assert(dl[i] == t[i]);
        }
        lemma_words_acc_token(dl);
        assert(!is_ascii_whitespace_char(t[t.len() - 1]));
        assert(dl.push(t.last()) =~= t);
    } else {
        assert(t =~= Seq::<char>::empty());
    }
}

/// The words of a word followed by spaces.
proof fn lemma_words_token_spaces(t: Seq<char>, m: nat)
    requires
        is_token(t),
    ensures
        words(t + spaces(m)) == seq![t],
{
    lemma_words_acc_token_spaces(t, m);
    if m == 0 {
        assert(Seq::<Seq<char>>::empty().push(t) =~= seq![t]);
    }
}

/// After text that is empty or ends with ASCII whitespace, reading goes on afresh.
proof fn lemma_words_acc_concat(x: Seq<char>, y: Seq<char>)
    requires
        x.len() == 0 || is_ascii_whitespace_char(x.last()),
    ensures
        words_acc(x + y) == (words(x) + words_acc(y).0, words_acc(y).1),
    decreases y.len(),
{
    if y.len() == 0 {
        assert(x + y =~= x);
        if x.len() > 0 {
            assert(words_acc(x).1 =~= Seq::<char>::empty());
        } else {
            assert(x =~= Seq::<char>::empty());
        }
        assert(words(x) + Seq::<Seq<char>>::empty() =~= words(x));
    } else {
        let yd = y.drop_last();
        lemma_words_acc_concat(x, yd);
        assert((x + y).drop_last() =~= x + yd);
        assert((x + y).last() == y.last());
        let (a, cur) = words_acc(yd);
        if is_ascii_whitespace_char(y.last()) {
            if cur.len() > 0 {
                assert((words(x) + a).push(cur) =~= words(x) + a.push(cur));
            }
        }
    }
}

/// The words of text joined after text that ends with ASCII whitespace.
proof fn lemma_words_concat(x: Seq<char>, y: Seq<char>)
    requires
        x.len() == 0 || is_ascii_whitespace_char(x.last()),
    ensures
        words(x + y) == words(x) + words(y),
{
    lemma_words_acc_concat(x, y);
    let (a, cur) = words_acc(y);
    if cur.len() > 0 {
        assert((words(x) + a).push(cur) =~= words(x) + a.push(cur));
    }
}

/// A trailing space adds no word.
proof fn lemma_words_trailing_space(x: Seq<char>)
    ensures
        words(x.push(' ')) == words(x),
{
    assert(x.push(' ').drop_last() =~= x);
}

/// Padding on the right is appending spaces.
proof fn lemma_pad_right(s: Seq<char>, w: int)
    ensures
        pad_right(s, w) == s + spaces(pad_count(s, w)),
{
    if s.len() >= w {
        assert(s + spaces(0) =~= s);
    }
}

/// How many spaces padding adds.
spec fn pad_count(s: Seq<char>, w: int) -> nat {
    if s.len() >= w { 0 } else { (w - s.len()) as nat }
}

/// Cells that are words followed by spaces.
spec fn padded(parts: Seq<Seq<char>>, toks: Seq<Seq<char>>, ks: Seq<nat>) -> bool {
    &&& parts.len() == toks.len()
    &&& ks.len() == toks.len()
    &&& forall|i: int| 0 <= i < parts.len() ==> #[trigger] parts[i] == toks[i] + spaces(ks[i])
    &&& forall|i: int| 0 <= i < toks.len() ==> is_token(#[trigger] toks[i])
}

/// The words of padded cells joined by spaces are the words of the cells.
proof fn lemma_words_join_padded(parts: Seq<Seq<char>>, toks: Seq<Seq<char>>, ks: Seq<nat>)
    requires
        padded(parts, toks, ks),
        parts.len() >= 1,
    ensures
        words(join(parts, seq![' '])) == toks,
    decreases parts.len(),
{
    if parts.len() == 1 {
        assert(parts[0] == toks[0] + spaces(ks[0]));
        assert(is_token(toks[0]));
        lemma_words_token_spaces(toks[0], ks[0]);
        assert(toks =~= seq![toks[0]]);
    } else {
        let n = parts.len() - 1;
        let dl = parts.drop_last();
        assert(padded(dl, toks.drop_last(), ks.drop_last())) by {
            assert forall|i: int| 0 <= i < dl.len() implies #[trigger] dl[i] == toks.drop_last()[i] + spaces(ks.drop_last()[i]) by {
                assert(dl[i] == parts[i]);
            }
            assert forall|i: int| 0 <= i < toks.drop_last().len() implies is_token(#[trigger] toks.drop_last()[i]) by {
                assert(toks.drop_last()[i] == toks[i]);
            }
        }
        lemma_words_join_padded(dl, toks.drop_last(), ks.drop_last());
        let a = join(dl, seq![' ']);
        assert(join(parts, seq![' ']) =~= a.push(' ') + parts.last());
        lemma_words_concat(a.push(' '), parts.last());
        lemma_words_trailing_space(a);
        assert(parts[n] == toks[n] + spaces(ks[n]));
        assert(is_token(toks[n]));
        lemma_words_token_spaces(toks[n], ks[n]);
        assert(toks.drop_last() + seq![toks[n]] =~= toks);
    }
}

/// Trailing spaces are trimmed away.
proof fn lemma_trim_end_spaces(x: Seq<char>, m: nat)
    ensures
        trim_end_chars(x + spaces(m)) == trim_end_chars(x),
    decreases m,
{
    if m == 0 {
        assert(x + spaces(0) =~= x);
    } else {
        let s = x + spaces(m);
        assert(s.drop_last() =~= x + spaces((m - 1) as nat));
        assert(is_whitespace_char(s.last()));
        lemma_trim_end_spaces(x, (m - 1) as nat);
    }
}

/// Trimming the end keeps a first character that is not whitespace.
proof fn lemma_trim_end_keeps_first(s: Seq<char>)
    requires
        s.len() > 0,
        !is_whitespace_char(s[0]),
    ensures
        trim_end_chars(s).len() > 0,
        trim_end_chars(s)[0] == s[0],
    decreases s.len(),
{
    if is_whitespace_char(s.last()) {
        assert(s.len() > 1);
        let dl = s.drop_last();
        assert(dl[0] == s[0]);
        lemma_trim_end_keeps_first(dl);
    }
}

/// Text that neither starts nor ends with whitespace is its own trim.
proof fn lemma_trim_unchanged(s: Seq<char>)
    requires
        s.len() > 0,
        !is_whitespace_char(s[0]),
        !is_whitespace_char(s.last()),
    ensures
        trim_chars(s) == s,
{
}

/// ASCII whitespace is whitespace.
proof fn lemma_ascii_whitespace(c: char)
    ensures
        is_ascii_whitespace_char(c) ==> is_whitespace_char(c),
{
}

/// The shape of a line of padded cells once trimmed: all but the last cell, joined by
/// spaces, then a space and the last word; its words are the words of the cells.
proof fn lemma_trimmed_line(parts: Seq<Seq<char>>, toks: Seq<Seq<char>>, ks: Seq<nat>)
    requires
        padded(parts, toks, ks),
        parts.len() >= 2,
        !is_whitespace_char(toks[0][0]),
        !is_whitespace_char(toks.last().last()),
    ensures
        trim_chars(join(parts, seq![' '])) == join(parts.drop_last(), seq![' ']) + seq![' '] + toks.last(),
        words(join(parts.drop_last(), seq![' ']) + seq![' '] + toks.last()) == toks,
        trim_chars(join(parts.drop_last(), seq![' ']) + seq![' '] + toks.last()) == join(parts.drop_last(), seq![' ']) + seq![' '] + toks.last(),
        ({
            let e = join(parts.drop_last(), seq![' ']) + seq![' '] + toks.last();
            &&& e.len() > toks[0].len()
            &&& e.subrange(0, toks[0].len() as int) == toks[0]
            &&& e[toks[0].len() as int] == ' '
        }),
{
    let sp = seq![' '];
    let n = parts.len() - 1;
    let dl = parts.drop_last();
    let a = join(dl, sp);
    let t = toks.last();
    let e = a + sp + t;
    assert(parts[0] == toks[0] + spaces(ks[0]));
    assert(parts[n] == toks[n] + spaces(ks[n]));
    assert(is_token(toks[0]));
    assert(is_token(toks[n]));
    assert(dl[0] == parts[0]);
    lemma_join_starts_with(dl, sp);
    lemma_join_starts_with(parts, sp);
    let j = join(parts, sp);
    assert(j =~= e + spaces(ks[n]));
    assert(j[0] == parts[0][0]);
    assert(parts[0][0] == toks[0][0]);
    lemma_trim_end_spaces(e, ks[n]);
    assert(e.last() == t.last());
    assert(trim_end_chars(e) == e);
    assert(trim_start_chars(j) == j);
    assert(a[0] == dl[0][0]);
    assert(e[0] == toks[0][0]);
    lemma_trim_unchanged(e);
    // words
    assert(padded(dl, toks.drop_last(), ks.drop_last())) by {
        assert forall|i: int| 0 <= i < dl.len() implies #[trigger] dl[i] == toks.drop_last()[i] + spaces(ks.drop_last()[i]) by {
            assert(dl[i] == parts[i]);
        }
        assert forall|i: int| 0 <= i < toks.drop_last().len() implies is_token(#[trigger] toks.drop_last()[i]) by {
            assert(toks.drop_last()[i] == toks[i]);
        }
    }
    lemma_words_join_padded(dl, toks.drop_last(), ks.drop_last());
    assert(e =~= a.push(' ') + t);
    lemma_words_concat(a.push(' '), t);
    lemma_words_trailing_space(a);
    lemma_words_token_spaces(t, 0);
    assert(t + spaces(0) =~= t);
    assert(toks.drop_last() + seq![t] =~= toks);
    // the first word and what follows it
    let l0 = toks[0].len() as int;
    assert(e.subrange(0, l0) =~= toks[0]) by {
        assert(a.subrange(0, parts[0].len() as int) == parts[0]);
        assert forall|i: int| 0 <= i < l0 implies e[i] == toks[0][i] by {
            assert(e[i] == a[i]);
            assert(a[i] == a.subrange(0, parts[0].len() as int)[i]);
            assert(parts[0][i] == toks[0][i]);
        }
    }
    if ks[0] > 0 {
        assert(e[l0] == a[l0]);
        assert(a[l0] == a.subrange(0, parts[0].len() as int)[l0]);
        assert(parts[0][l0] == ' ');
    } else if dl.len() >= 2 {
        assert(parts[0] =~= toks[0]);
        assert(e[l0] == a[l0]);
    } else {
        assert(a == dl[0]);
        assert(parts[0] =~= toks[0]);
        assert(e[l0] == ' ');
    }
}

/// The titles of the thirteen columns.
proof fn lemma_column_titles()
    ensures
        column_title(0) == "Database"@,
        column_title(1) == "User"@,
        column_title(2) == "Select"@,
        column_title(3) == "Insert"@,
        column_title(4) == "Update"@,
        column_title(5) == "Delete"@,
        column_title(6) == "Create"@,
        column_title(7) == "Drop"@,
        column_title(8) == "Alter"@,
        column_title(9) == "Index"@,
        column_title(10) == "Temp"@,
        column_title(11) == "Lock"@,
        column_title(12) == "References"@,
        forall|i: int| 0 <= i < 13 ==> is_token(#[trigger] column_title(i)),
        forall|i: int| 0 <= i < 13 ==> !is_whitespace_char(#[trigger] column_title(i)[0]),
        forall|i: int| 0 <= i < 13 ==> !is_whitespace_char(#[trigger] column_title(i).last()),
        forall|i: int, j: int| 0 <= i < 13 && 0 <= j < column_title(i).len() ==> #[trigger] column_title(i)[j] != '\n',
{
    reveal_strlit("Alter");
    reveal_strlit("Create");
    reveal_strlit("Database");
    reveal_strlit("Db");
    reveal_strlit("Delete");
    reveal_strlit("Drop");
    reveal_strlit("Index");
    reveal_strlit("Insert");
    reveal_strlit("Lock");
    reveal_strlit("References");
    reveal_strlit("Select");
    reveal_strlit("Temp");
    reveal_strlit("Update");
    reveal_strlit("User");
    reveal_strlit("alter_priv");
    reveal_strlit("create_priv");
    reveal_strlit("create_tmp_table_priv");
    reveal_strlit("delete_priv");
    reveal_strlit("drop_priv");
    reveal_strlit("index_priv");
    reveal_strlit("insert_priv");
    reveal_strlit("lock_tables_priv");
    reveal_strlit("references_priv");
    reveal_strlit("select_priv");
    reveal_strlit("update_priv");
    assert("User"@.len() != "Db"@.len());
    assert("select_priv"@.len() != "Db"@.len());
    assert("select_priv"@.len() != "User"@.len());
    assert("insert_priv"@.len() != "Db"@.len());
    assert("insert_priv"@.len() != "User"@.len());
    assert("insert_priv"@[0] != "select_priv"@[0]);
    assert("update_priv"@.len() != "Db"@.len());
    assert("update_priv"@.len() != "User"@.len());
    assert("update_priv"@[0] != "select_priv"@[0]);
    assert("update_priv"@[0] != "insert_priv"@[0]);
    assert("delete_priv"@.len() != "Db"@.len());
    assert("delete_priv"@.len() != "User"@.len());
    assert("delete_priv"@[0] != "select_priv"@[0]);
    assert("delete_priv"@[0] != "insert_priv"@[0]);
    assert("delete_priv"@[0] != "update_priv"@[0]);
    assert("create_priv"@.len() != "Db"@.len());
    assert("create_priv"@.len() != "User"@.len());
    assert("create_priv"@[0] != "select_priv"@[0]);
    assert("create_priv"@[0] != "insert_priv"@[0]);
    assert("create_priv"@[0] != "update_priv"@[0]);
    assert("create_priv"@[0] != "delete_priv"@[0]);
    assert("drop_priv"@.len() != "Db"@.len());
    assert("drop_priv"@.len() != "User"@.len());
    assert("drop_priv"@.len() != "select_priv"@.len());
    assert("drop_priv"@.len() != "insert_priv"@.len());
    assert("drop_priv"@.len() != "update_priv"@.len());
    assert("drop_priv"@.len() != "delete_priv"@.len());
    assert("drop_priv"@.len() != "create_priv"@.len());
    assert("alter_priv"@.len() != "Db"@.len());
    assert("alter_priv"@.len() != "User"@.len());
    assert("alter_priv"@.len() != "select_priv"@.len());
    assert("alter_priv"@.len() != "insert_priv"@.len());
    assert("alter_priv"@.len() != "update_priv"@.len());
    assert("alter_priv"@.len() != "delete_priv"@.len());
    assert("alter_priv"@.len() != "create_priv"@.len());
    assert("alter_priv"@.len() != "drop_priv"@.len());
    assert("index_priv"@.len() != "Db"@.len());
    assert("index_priv"@.len() != "User"@.len());
    assert("index_priv"@.len() != "select_priv"@.len());
    assert("index_priv"@.len() != "insert_priv"@.len());
    assert("index_priv"@.len() != "update_priv"@.len());
    assert("index_priv"@.len() != "delete_priv"@.len());
    assert("index_priv"@.len() != "create_priv"@.len());
    assert("index_priv"@.len() != "drop_priv"@.len());
    assert("index_priv"@[0] != "alter_priv"@[0]);
    assert("create_tmp_table_priv"@.len() != "Db"@.len());
    assert("create_tmp_table_priv"@.len() != "User"@.len());
    assert("create_tmp_table_priv"@.len() != "select_priv"@.len());
    assert("create_tmp_table_priv"@.len() != "insert_priv"@.len());
    assert("create_tmp_table_priv"@.len() != "update_priv"@.len());
    assert("create_tmp_table_priv"@.len() != "delete_priv"@.len());
    assert("create_tmp_table_priv"@.len() != "create_priv"@.len());
    assert("create_tmp_table_priv"@.len() != "drop_priv"@.len());
    assert("create_tmp_table_priv"@.len() != "alter_priv"@.len());
    assert("create_tmp_table_priv"@.len() != "index_priv"@.len());
    assert("lock_tables_priv"@.len() != "Db"@.len());
    assert("lock_tables_priv"@.len() != "User"@.len());
    assert("lock_tables_priv"@.len() != "select_priv"@.len());
    assert("lock_tables_priv"@.len() != "insert_priv"@.len());
    assert("lock_tables_priv"@.len() != "update_priv"@.len());
    assert("lock_tables_priv"@.len() != "delete_priv"@.len());
    assert("lock_tables_priv"@.len() != "create_priv"@.len());
    assert("lock_tables_priv"@.len() != "drop_priv"@.len());
    assert("lock_tables_priv"@.len() != "alter_priv"@.len());
    assert("lock_tables_priv"@.len() != "index_priv"@.len());
    assert("lock_tables_priv"@.len() != "create_tmp_table_priv"@.len());
    assert("references_priv"@.len() != "Db"@.len());
    assert("references_priv"@.len() != "User"@.len());
    assert("references_priv"@.len() != "select_priv"@.len());
    assert("references_priv"@.len() != "insert_priv"@.len());
    assert("references_priv"@.len() != "update_priv"@.len());
    assert("references_priv"@.len() != "delete_priv"@.len());
    assert("references_priv"@.len() != "create_priv"@.len());
    assert("references_priv"@.len() != "drop_priv"@.len());
    assert("references_priv"@.len() != "alter_priv"@.len());
    assert("references_priv"@.len() != "index_priv"@.len());
    assert("references_priv"@.len() != "create_tmp_table_priv"@.len());
    assert("references_priv"@.len() != "lock_tables_priv"@.len());
}

/// A name that the editor reads back as itself: not empty, and without whitespace.
pub open spec fn is_plain_name(s: Seq<char>) -> bool {
    s.len() > 0 && forall|i: int| 0 <= i < s.len() ==> !is_whitespace_char(#[trigger] s[i])
}

/// The words of a row's line in the editor: database, user, then `Y` or `N` per privilege.
spec fn row_tokens(row: PrivilegeRowView) -> Seq<Seq<char>> {
    Seq::new(13, |i: int| if i == 0 { row.0 } else if i == 1 { row.1 } else { yn_chars(row.2[i - 2]) })
}

/// The widths the cells of a row's line are padded to.
spec fn row_widths(u: int, d: int) -> Seq<int> {
    Seq::new(13, |i: int| if i == 0 { d } else if i == 1 { u } else { column_title(i).len() as int })
}

/// Reading `Y`/`N` cells gives back the privileges they were written from.
proof fn lemma_parse_cells_yn(toks: Seq<Seq<char>>, ps: Seq<bool>, n: int)
    requires
        toks.len() == 13,
        ps.len() == 11,
        0 <= n <= 11,
        forall|i: int| 0 <= i < 11 ==> #[trigger] toks[i + 2] == yn_chars(ps[i]),
    ensures
        parse_cells(toks, n) == Ok::<Seq<bool>, Seq<char>>(ps.take(n)),
    decreases n,
{
    if n > 0 {
        lemma_parse_cells_yn(toks, ps, n - 1);
        assert(toks[(n - 1) + 2] == yn_chars(ps[n - 1]));
        lemma_rev_yn_of_yn(ps[n - 1]);
        assert(rev_yn_spec(toks[n + 1]) == Some(ps[n - 1]));
        assert(parse_cell(toks[n + 1], privilege_name(n - 1)) == Ok::<bool, Seq<char>>(ps[n - 1]));
        assert(ps.take(n - 1).push(ps[n - 1]) =~= ps.take(n));
    } else {
        assert(ps.take(0) =~= Seq::<bool>::empty());
    }
}

/// `Y` and `N` are words of one character that is not whitespace.
proof fn lemma_yn_chars(b: bool)
    ensures
        is_token(yn_chars(b)),
        yn_chars(b).len() == 1,
        !is_whitespace_char(yn_chars(b)[0]),
        yn_chars(b)[0] != '\n',
{
    reveal_strlit("Y");
    reveal_strlit("N");
}

/// The line the editor writes for a row with plain names has no line break, neither starts
/// nor ends with whitespace, and reads back as that row.
proof fn lemma_editor_line_reads_back(row: PrivilegeRowView, u: int, d: int)
    requires
        is_plain_name(row.0),
        is_plain_name(row.1),
        !is_comment_line(row.0),
        row.2.len() == 11,
    ensures
        forall|j: int| 0 <= j < editor_line(row, u, d).len() ==> #[trigger] editor_line(row, u, d)[j] != '\n',
        editor_line(row, u, d).len() > 0,
        !is_whitespace_char(editor_line(row, u, d)[0]),
        !is_whitespace_char(editor_line(row, u, d).last()),
        parse_line(trim_chars(editor_line(row, u, d))) == LineParse::PrivilegeRow(row),
        words(editor_line(row, u, d)) == row_tokens(row),
{
    reveal_strlit(" ");
    let sp = seq![' '];
    assert(" "@ =~= sp);
    let parts = editor_cells(row, u, d);
    let toks = row_tokens(row);
    let ws = row_widths(u, d);
    let ks = Seq::new(13, |i: int| pad_count(toks[i], ws[i]));
    lemma_column_titles();
    assert forall|i: int| 0 <= i < 13 implies is_token(#[trigger] toks[i]) by {
        if i >= 2 {
            lemma_yn_chars(row.2[i - 2]);
        } else {
            let t = toks[i];
            assert forall|j: int| 0 <= j < t.len() implies !is_ascii_whitespace_char(#[trigger] t[j]) by {
                lemma_ascii_whitespace(t[j]);
            }
        }
    }
    assert forall|i: int| 0 <= i < 13 implies #[trigger] parts[i] == toks[i] + spaces(ks[i]) by {
        lemma_pad_right(toks[i], ws[i]);
    }
    assert(padded(parts, toks, ks));
    lemma_yn_chars(row.2[10]);
    assert(toks.last() == yn_chars(row.2[10]));
    lemma_trimmed_line(parts, toks, ks);
    let e = join(parts.drop_last(), sp) + sp + toks.last();
    assert(editor_line(row, u, d) == e);
    // no line break
    assert forall|i: int, j: int| 0 <= i < parts.drop_last().len() && 0 <= j < parts.drop_last()[i].len() implies #[trigger] parts.drop_last()[i][j] != '\n' by {
        let c = parts[i];
        assert(parts.drop_last()[i] == c);
        assert(c == toks[i] + spaces(ks[i]));
        if j < toks[i].len() {
            assert(c[j] == toks[i][j]);
            if i >= 2 {
                lemma_yn_chars(row.2[i - 2]);
            } else {
                assert(!is_whitespace_char(toks[i][j]));
            }
        } else {
            assert(c[j] == ' ');
        }
    }
    lemma_join_avoids(parts.drop_last(), sp, '\n');
    let a = join(parts.drop_last(), sp);
    assert forall|j: int| 0 <= j < e.len() implies #[trigger] e[j] != '\n' by {
        if j < a.len() {
            assert(e[j] == a[j]);
        } else if j == a.len() {
            assert(e[j] == ' ');
        } else {
            assert(e[j] == toks.last()[j - a.len() - 1]);
        }
    }
    // reading it back
    let db = row.0;
    assert(e.subrange(0, db.len() as int) == db);
    assert(e[0] == db[0]) by {
        assert(e.subrange(0, db.len() as int)[0] == e[0]);
    }
    assert(!is_comment_line(e)) by {
        if db.len() >= 2 {
            assert(e.subrange(0, db.len() as int)[1] == e[1]);
        } else {
            assert(e[1] == ' ');
        }
    }
    assert(words(e) == toks);
    assert(words(e)[2] == yn_chars(row.2[0]));
    assert(words(e)[2] != column_title(2)) by {
        lemma_yn_chars(row.2[0]);
        reveal_strlit("Select");
    }
    assert(!is_header_line(e));
    assert forall|i: int| 0 <= i < 11 implies #[trigger] toks[i + 2] == yn_chars(row.2[i]) by {}
    lemma_parse_cells_yn(toks, row.2, 11);
    assert(row.2.take(11) =~= row.2);
}

/// The header line has no line break and reads as the header.
proof fn lemma_header_reads_back(u: int, d: int)
    ensures
        forall|j: int| 0 <= j < editor_header(u, d).len() ==> #[trigger] editor_header(u, d)[j] != '\n',
        parse_line(trim_chars(editor_header(u, d))) == LineParse::Header,
        words(trim_chars(editor_header(u, d))) == Seq::new(13, |i: int| column_title(i)),
{
    reveal_strlit(" ");
    let sp = seq![' '];
    assert(" "@ =~= sp);
    lemma_column_titles();
    let parts = Seq::new(
        13,
        |i: int|
            if i == 0 {
                pad_right(column_title(0), d)
            } else if i == 1 {
                pad_right(column_title(1), u)
            } else {
                column_title(i)
            },
    );
    assert(editor_header(u, d) == join(parts, sp));
    let toks = Seq::new(13, |i: int| column_title(i));
    let ks = Seq::new(13, |i: int| if i == 0 { pad_count(column_title(0), d) } else if i == 1 { pad_count(column_title(1), u) } else { 0 });
    assert forall|i: int| 0 <= i < 13 implies #[trigger] parts[i] == toks[i] + spaces(ks[i]) by {
        if i == 0 {
            lemma_pad_right(column_title(0), d);
        } else if i == 1 {
            lemma_pad_right(column_title(1), u);
        } else {
            assert(column_title(i) + spaces(0) =~= column_title(i));
        }
    }
    assert(padded(parts, toks, ks));
    assert(toks.last() == column_title(12));
    assert(toks[0] == column_title(0));
    lemma_trimmed_line(parts, toks, ks);
    let e = join(parts.drop_last(), sp) + sp + toks.last();
    assert forall|i: int, j: int| 0 <= i < parts.len() && 0 <= j < parts[i].len() implies #[trigger] parts[i][j] != '\n' by {
        if j < toks[i].len() {
            assert(parts[i][j] == toks[i][j]);
            assert(column_title(i)[j] != '\n');
        } else {
            assert(parts[i][j] == ' ');
        }
    }
    lemma_join_avoids(parts, sp, '\n');
    assert(e[0] == toks[0][0]) by {
        assert(e.subrange(0, toks[0].len() as int)[0] == e[0]);
    }
    assert(toks[0][0] == 'D') by {
        reveal_strlit("Database");
    }
    assert(!is_comment_line(e));
    assert(words(e) == toks);
    assert(is_header_line(e));
}

/// Each line of the comment at the top starts with `#`, has no line break, and reads as a
/// comment.
proof fn lemma_comment_lines()
    ensures
        editor_comment_lines().len() == 6,
        forall|i: int, j: int| 0 <= i < 6 && 0 <= j < editor_comment_lines()[i].len() ==> #[trigger] editor_comment_lines()[i][j] != '\n',
        forall|i: int| 0 <= i < 6 ==> #[trigger] editor_comment_lines()[i].len() > 0 && editor_comment_lines()[i][0] == '#',
        forall|i: int| 0 <= i < 6 ==> parse_line(trim_chars(#[trigger] editor_comment_lines()[i])) == LineParse::Comment,
{
    reveal_strlit("# Welcome to the privilege editor.");
    reveal_strlit("# Each line defines what privileges a single user has on a single database.");
    reveal_strlit("# The first two columns respectively represent the database name and the user, and the remaining columns are the privileges.");
    reveal_strlit("# If the user should have a certain privilege, write 'Y', otherwise write 'N'.");
    reveal_strlit("#");
    reveal_strlit("# Lines starting with '#' are comments and will be ignored.");
    let l = editor_comment_lines();
    assert forall|i: int| 0 <= i < 6 implies parse_line(trim_chars(#[trigger] l[i])) == LineParse::Comment by {
        let x = l[i];
        assert(x[0] == '#');
        lemma_trim_end_keeps_first(x);
    }
}

/// Trimming keeps the absence of a character.
proof fn lemma_trim_avoids(s: Seq<char>, c: char)
    requires
        forall|j: int| 0 <= j < s.len() ==> s[j] != c,
    ensures
        forall|j: int| 0 <= j < trim_start_chars(s).len() ==> #[trigger] trim_start_chars(s)[j] != c,
        forall|j: int| 0 <= j < trim_end_chars(s).len() ==> #[trigger] trim_end_chars(s)[j] != c,
        forall|j: int| 0 <= j < trim_chars(s).len() ==> #[trigger] trim_chars(s)[j] != c,
    decreases s.len(),
{
    if s.len() > 0 {
        let df = s.drop_first();
        let dl = s.drop_last();
        assert forall|j: int| 0 <= j < df.len() implies df[j] != c by {
            assert(df[j] == s[j + 1]);
        }
        assert forall|j: int| 0 <= j < dl.len() implies dl[j] != c by {
            assert(dl[j] == s[j]);
        }
        lemma_trim_avoids(df, c);
        lemma_trim_avoids_end(s, c);
        let ts = trim_start_chars(s);
        assert forall|j: int| 0 <= j < ts.len() implies ts[j] != c by {
            if is_whitespace_char(s[0]) {
                assert(ts == trim_start_chars(df));
            } else {
                assert(ts == s);
            }
        }
        lemma_trim_avoids_end(ts, c);
    }
}

/// Trimming the end keeps the absence of a character.
proof fn lemma_trim_avoids_end(s: Seq<char>, c: char)
    requires
        forall|j: int| 0 <= j < s.len() ==> s[j] != c,
    ensures
        forall|j: int| 0 <= j < trim_end_chars(s).len() ==> #[trigger] trim_end_chars(s)[j] != c,
    decreases s.len(),
{
    if s.len() > 0 {
        let dl = s.drop_last();
        assert forall|j: int| 0 <= j < dl.len() implies dl[j] != c by {
            assert(dl[j] == s[j]);
        }
        if is_whitespace_char(s.last()) {
            lemma_trim_avoids_end(dl, c);
            assert(trim_end_chars(s) == trim_end_chars(dl));
        } else {
            assert(trim_end_chars(s) == s);
            assert forall|j: int| 0 <= j < trim_end_chars(s).len() implies #[trigger] trim_end_chars(s)[j] != c by {
                assert(trim_end_chars(s)[j] == s[j]);
            }
        }
    }
}

/// Trimming text with a character that is not whitespace leaves text that ends with one.
proof fn lemma_trim_end_nonempty(s: Seq<char>, k: int)
    requires
        0 <= k < s.len(),
        !is_whitespace_char(s[k]),
    ensures
        trim_end_chars(s).len() > k,
        !is_whitespace_char(trim_end_chars(s).last()),
    decreases s.len(),
{
    if is_whitespace_char(s.last()) {
        let dl = s.drop_last();
        assert(k < s.len() - 1);
        assert(dl[k] == s[k]);
        lemma_trim_end_nonempty(dl, k);
    }
}

/// Trimming the start of text with a character that is not whitespace keeps one.
proof fn lemma_trim_start_nonempty(s: Seq<char>, k: int) -> (k2: int)
    requires
        0 <= k < s.len(),
        !is_whitespace_char(s[k]),
    ensures
        0 <= k2 < trim_start_chars(s).len(),
        !is_whitespace_char(trim_start_chars(s)[k2]),
    decreases s.len(),
{
    if is_whitespace_char(s[0]) {
        let df = s.drop_first();
        assert(k >= 1);
        assert(df[k - 1] == s[k]);
        lemma_trim_start_nonempty(df, k - 1)
    } else {
        k
    }
}

/// The line written for the example row, when its names have no line break: it has none,
/// and it ends with a character that is not whitespace.
proof fn lemma_example_line(row: PrivilegeRowView, u: int, d: int)
    requires
        row.2.len() == 11,
    ensures
        (forall|j: int| 0 <= j < row.0.len() ==> row.0[j] != '\n') && (forall|j: int|
            0 <= j < row.1.len() ==> row.1[j] != '\n') ==> forall|j: int|
            0 <= j < editor_line(row, u, d).len() ==> #[trigger] editor_line(row, u, d)[j] != '\n',
        editor_line(row, u, d).len() > 0,
        !is_whitespace_char(editor_line(row, u, d).last()),
{
    reveal_strlit(" ");
    let sp = seq![' '];
    assert(" "@ =~= sp);
    lemma_column_titles();
    let parts = editor_cells(row, u, d);
    let toks = row_tokens(row);
    let ws = row_widths(u, d);
    let ks = Seq::new(13, |i: int| pad_count(toks[i], ws[i]));
    assert forall|i: int| 0 <= i < 13 implies #[trigger] parts[i] == toks[i] + spaces(ks[i]) by {
        lemma_pad_right(toks[i], ws[i]);
    }
    let j = join(parts, sp);
    if (forall|x: int| 0 <= x < row.0.len() ==> row.0[x] != '\n') && (forall|x: int|
        0 <= x < row.1.len() ==> row.1[x] != '\n') {
        assert forall|i: int, x: int| 0 <= i < parts.len() && 0 <= x < parts[i].len() implies #[trigger] parts[i][x] != '\n' by {
            if x < toks[i].len() {
                assert(parts[i][x] == toks[i][x]);
                if i >= 2 {
                    lemma_yn_chars(row.2[i - 2]);
                }
            } else {
                assert(parts[i][x] == ' ');
            }
        }
        lemma_join_avoids(parts, sp, '\n');
        lemma_trim_avoids(j, '\n');
    }
    // a character that is not whitespace: the last privilege cell
    let a = join(parts.drop_last(), sp);
    assert(j == a + sp + parts[12]);
    lemma_yn_chars(row.2[10]);
    assert(parts[12][0] == toks[12][0]);
    let k: int = (a.len() + 1) as int;
    assert(j[k] == parts[12][0]);
    let k2 = lemma_trim_start_nonempty(j, k);
    lemma_trim_end_nonempty(trim_start_chars(j), k2);
}

/// Whether a line is skipped when reading: a comment, an empty line or the header.
pub open spec fn is_skipped(l: LineParse) -> bool {
    l is Comment || l is Empty || l is Header
}

/// Reading lines that start with skipped lines and go on with rows gives those rows.
proof fn lemma_parse_lines_skip_then_rows(lines: Seq<Seq<char>>, pre: int, rs: Seq<PrivilegeRowView>, n: int)
    requires
        0 <= pre,
        lines.len() == pre + rs.len(),
        0 <= n <= lines.len(),
        forall|i: int| 0 <= i < pre ==> is_skipped(#[trigger] parse_line(trim_chars(lines[i]))),
        forall|k: int| 0 <= k < rs.len() ==> #[trigger] parse_line(trim_chars(lines[pre + k])) == LineParse::PrivilegeRow(rs[k]),
    ensures
        parse_lines(lines, n) == Ok::<Seq<PrivilegeRowView>, Seq<char>>(
            if n <= pre { Seq::empty() } else { rs.take(n - pre) },
        ),
    decreases n,
{
    if n > 0 {
        lemma_parse_lines_skip_then_rows(lines, pre, rs, n - 1);
        if n - 1 < pre {
            assert(is_skipped(parse_line(trim_chars(lines[n - 1]))));
        } else {
            let k = n - 1 - pre;
            assert(parse_line(trim_chars(lines[pre + k])) == LineParse::PrivilegeRow(rs[k]));
            if k == 0 {
                assert(Seq::<PrivilegeRowView>::empty().push(rs[0]) =~= rs.take(1));
            } else {
                assert(rs.take(k).push(rs[k]) =~= rs.take(k + 1));
            }
        }
    }
}

/// The last character of joined pieces is that of the last piece.
proof fn lemma_join_last(parts: Seq<Seq<char>>, sep: Seq<char>)
    requires
        parts.len() >= 1,
        parts.last().len() > 0,
    ensures
        join(parts, sep).len() > 0,
        join(parts, sep).last() == parts.last().last(),
{
}

/// In the editor, each privilege's `Y`/`N` sits under that privilege's title: after the two
/// names, the `k`th word of the header is the name of the `k`th privilege, and the `k`th word
/// of a row's line is `Y` or `N` for that row's `k`th privilege.
pub proof fn lemma_editor_columns(row: PrivilegeRowView, u: int, d: int)
    requires
        is_plain_name(row.0),
        is_plain_name(row.1),
        !is_comment_line(row.0),
        row.2.len() == 11,
    ensures
        words(trim_chars(editor_header(u, d))).len() == 13,
        words(editor_line(row, u, d)).len() == 13,
        words(editor_line(row, u, d))[0] == row.0,
        words(editor_line(row, u, d))[1] == row.1,
        forall|k: int| 0 <= k < 11 ==> #[trigger] words(trim_chars(editor_header(u, d)))[k + 2] == human_readable_name(privilege_name(k))
            && words(editor_line(row, u, d))[k + 2] == yn_chars(row.2[k]),
{
    lemma_editor_line_reads_back(row, u, d);
    lemma_header_reads_back(u, d);
}

/// The line of a row's display for its `k`th privilege, without the line break.
pub open spec fn privilege_display_line(privs: Seq<bool>, k: int) -> Seq<char> {
    human_readable_name(privilege_name(k)) + ": "@ + yn_chars(privs[k])
}

/// No name of a privilege holds a line break.
proof fn lemma_privilege_names_one_line(k: int)
    requires
        0 <= k < 11,
    ensures
        forall|j: int| 0 <= j < human_readable_name(privilege_name(k)).len() ==> #[trigger] human_readable_name(privilege_name(k))[j] != '\n',
{
    reveal_strlit("Database");
    reveal_strlit("User");
    reveal_strlit("Select");
    reveal_strlit("Insert");
    reveal_strlit("Update");
    reveal_strlit("Delete");
    reveal_strlit("Create");
    reveal_strlit("Drop");
    reveal_strlit("Alter");
    reveal_strlit("Index");
    reveal_strlit("Temp");
    reveal_strlit("Lock");
    reveal_strlit("References");
    reveal_strlit("Unknown(");
    reveal_strlit(")");
    reveal_strlit("Db");
    reveal_strlit("select_priv");
    reveal_strlit("insert_priv");
    reveal_strlit("update_priv");
    reveal_strlit("delete_priv");
    reveal_strlit("create_priv");
    reveal_strlit("drop_priv");
    reveal_strlit("alter_priv");
    reveal_strlit("index_priv");
    reveal_strlit("create_tmp_table_priv");
    reveal_strlit("lock_tables_priv");
    reveal_strlit("references_priv");
    assert(forall|j: int| 0 <= j < "Database"@.len() ==> "Database"@[j] != '\n');
    assert(forall|j: int| 0 <= j < "User"@.len() ==> "User"@[j] != '\n');
    assert(forall|j: int| 0 <= j < "Select"@.len() ==> "Select"@[j] != '\n');
    assert(forall|j: int| 0 <= j < "Insert"@.len() ==> "Insert"@[j] != '\n');
    assert(forall|j: int| 0 <= j < "Update"@.len() ==> "Update"@[j] != '\n');
    assert(forall|j: int| 0 <= j < "Delete"@.len() ==> "Delete"@[j] != '\n');
    assert(forall|j: int| 0 <= j < "Create"@.len() ==> "Create"@[j] != '\n');
    assert(forall|j: int| 0 <= j < "Drop"@.len() ==> "Drop"@[j] != '\n');
    assert(forall|j: int| 0 <= j < "Alter"@.len() ==> "Alter"@[j] != '\n');
    assert(forall|j: int| 0 <= j < "Index"@.len() ==> "Index"@[j] != '\n');
    assert(forall|j: int| 0 <= j < "Temp"@.len() ==> "Temp"@[j] != '\n');
    assert(forall|j: int| 0 <= j < "Lock"@.len() ==> "Lock"@[j] != '\n');
    assert(forall|j: int| 0 <= j < "References"@.len() ==> "References"@[j] != '\n');
    assert(forall|j: int| 0 <= j < "Unknown("@.len() ==> "Unknown("@[j] != '\n');
    assert(forall|j: int| 0 <= j < ")"@.len() ==> ")"@[j] != '\n');
    assert(forall|j: int| 0 <= j < "Db"@.len() ==> "Db"@[j] != '\n');
    assert(forall|j: int| 0 <= j < "select_priv"@.len() ==> "select_priv"@[j] != '\n');
    assert(forall|j: int| 0 <= j < "insert_priv"@.len() ==> "insert_priv"@[j] != '\n');
    assert(forall|j: int| 0 <= j < "update_priv"@.len() ==> "update_priv"@[j] != '\n');
    assert(forall|j: int| 0 <= j < "delete_priv"@.len() ==> "delete_priv"@[j] != '\n');
    assert(forall|j: int| 0 <= j < "create_priv"@.len() ==> "create_priv"@[j] != '\n');
    assert(forall|j: int| 0 <= j < "drop_priv"@.len() ==> "drop_priv"@[j] != '\n');
    assert(forall|j: int| 0 <= j < "alter_priv"@.len() ==> "alter_priv"@[j] != '\n');
    assert(forall|j: int| 0 <= j < "index_priv"@.len() ==> "index_priv"@[j] != '\n');
    assert(forall|j: int| 0 <= j < "create_tmp_table_priv"@.len() ==> "create_tmp_table_priv"@[j] != '\n');
    assert(forall|j: int| 0 <= j < "lock_tables_priv"@.len() ==> "lock_tables_priv"@[j] != '\n');
    assert(forall|j: int| 0 <= j < "references_priv"@.len() ==> "references_priv"@[j] != '\n');
    let n = privilege_name(k);
    assert(forall|j: int| 0 <= j < n.len() ==> n[j] != '\n');
    let h = human_readable_name(n);
    assert forall|j: int| 0 <= j < h.len() implies #[trigger] h[j] != '\n' by {
        if h == "Unknown("@ + n + ")"@ {
            let u = "Unknown("@;
            if j < u.len() {
                assert(h[j] == u[j]);
            } else if j < u.len() + n.len() {
                assert(h[j] == n[j - u.len()]);
            } else {
                assert(h[j] == ")"@[j - u.len() - n.len()]);
            }
        }
    }
}

/// The first `n` lines of a row's display, split at the line breaks: one line per privilege,
/// in field order, each the privilege's name then `: Y` or `: N`.
proof fn lemma_row_display_lines(privs: Seq<bool>, n: int)
    requires
        1 <= n <= 11,
        privs.len() == 11,
    ensures
        split_on(row_display(privs, n - 1) + privilege_display_line(privs, n - 1), '\n')
            == Seq::new(n as nat, |k: int| privilege_display_line(privs, k)),
    decreases n,
{
    reveal_strlit(": ");
    reveal_strlit(": Y\n");
    reveal_strlit(": N\n");
    reveal_strlit("Y");
    reveal_strlit("N");
    let l = privilege_display_line(privs, n - 1);
    lemma_privilege_names_one_line(n - 1);
    let h = human_readable_name(privilege_name(n - 1));
    assert forall|j: int| 0 <= j < l.len() implies l[j] != '\n' by {
        if j >= h.len() + 2 {
            assert(l[j] == yn_chars(privs[n - 1])[j - h.len() - 2]);
        } else if j >= h.len() {
            assert(l[j] == ": "@[j - h.len()]);
        } else {
            assert(l[j] == h[j]);
        }
    }
    lemma_split_no_sep(l, '\n');
    if n == 1 {
        assert(row_display(privs, 0) + l =~= l);
        assert(seq![l] =~= Seq::new(1, |k: int| privilege_display_line(privs, k)));
    } else {
        lemma_row_display_lines(privs, n - 1);
        let x = row_display(privs, n - 2) + privilege_display_line(privs, n - 2);
        let yn = if privs[n - 2] { ": Y\n"@ } else { ": N\n"@ };
        assert(row_display(privs, n - 1) =~= x + seq!['\n']) by {
            assert(row_display(privs, n - 1) == row_display(privs, n - 2) + human_readable_name(privilege_name(n - 2)) + yn);
        }
        lemma_split_concat(x, l, '\n');
        assert(row_display(privs, n - 1) + l =~= x + seq!['\n'] + l);
        assert(split_on(x, '\n') + seq![l] =~= Seq::new(n as nat, |k: int| privilege_display_line(privs, k)));
    }
}

/// A row's display has one line per privilege, in field order: the `k`th line is the name of
/// the `k`th privilege, then `: Y` or `: N` for the row's `k`th privilege.
pub proof fn lemma_row_display_fields(privs: Seq<bool>)
    requires
        privs.len() == 11,
    ensures
        split_on(row_display(privs, 11), '\n').len() == 12,
        forall|k: int| 0 <= k < 11 ==> #[trigger] split_on(row_display(privs, 11), '\n')[k]
            == human_readable_name(privilege_name(k)) + ": "@ + yn_chars(privs[k]),
{
    reveal_strlit(": Y\n");
    reveal_strlit(": N\n");
    reveal_strlit(": ");
    reveal_strlit("Y");
    reveal_strlit("N");
    lemma_row_display_lines(privs, 11);
    let x = row_display(privs, 10) + privilege_display_line(privs, 10);
    let yn = if privs[10] { ": Y\n"@ } else { ": N\n"@ };
    assert(row_display(privs, 11) =~= x + seq!['\n'] + Seq::<char>::empty()) by {
        assert(row_display(privs, 11) == row_display(privs, 10) + human_readable_name(privilege_name(10)) + yn);
    }
    lemma_split_concat(x, Seq::<char>::empty(), '\n');
    assert(split_on(Seq::<char>::empty(), '\n') =~= seq![Seq::<char>::empty()]);
}

/// The first piece of a text that does not start with the separator starts with the text's
/// first character.
proof fn lemma_split_first(s: Seq<char>, sep: char)
    requires
        s.len() > 0,
        s[0] != sep,
    ensures
        split_on(s, sep)[0].len() > 0,
        split_on(s, sep)[0][0] == s[0],
    decreases s.len(),
{
    let dl = s.drop_last();
    lemma_split_nonempty(dl, sep);
    if dl.len() > 0 {
        assert(dl[0] == s[0]);
        lemma_split_first(dl, sep);
    } else {
        assert(split_on(dl, sep) =~= seq![Seq::<char>::empty()]);
    }
}

/// What the editor shows in place of rows when there are none: the example row, commented.
pub open spec fn example_text(unix_user: Seq<char>, database_name: Option<Seq<char>>) -> Seq<char> {
    let example_user = unix_user + "_user"@;
    let example_db = match database_name {
        Some(d) => d,
        None => unix_user + "_db"@,
    };
    let ulen = user_column_width(Seq::empty(), example_user) as int;
    let dlen = db_column_width(Seq::empty(), example_db) as int;
    "# "@ + editor_line(example_row(example_db, example_user), ulen, dlen)
}

/// Whether the example row is read as nothing: a line break in the unix user's name or in the
/// database name spreads it over several lines, and each after the first must be skipped
/// (a comment, an empty line or the header). The first always starts with `#`.
pub open spec fn example_lines_skipped(unix_user: Seq<char>, database_name: Option<Seq<char>>) -> bool {
    let ls = split_on(example_text(unix_user, database_name), '\n');
    forall|i: int| 1 <= i < ls.len() ==> is_skipped(#[trigger] parse_line(trim_chars(ls[i])))
}

/// With no line break in the unix user's name or in the database name, the example row is
/// one line, and so it is read as nothing.
pub proof fn lemma_example_without_line_breaks(unix_user: Seq<char>, database_name: Option<Seq<char>>)
    requires
        forall|j: int| 0 <= j < unix_user.len() ==> unix_user[j] != '\n',
        database_name matches Some(d) ==> forall|j: int| 0 <= j < d.len() ==> d[j] != '\n',
    ensures
        example_lines_skipped(unix_user, database_name),
{
    reveal_strlit("# ");
    reveal_strlit("_user");
    reveal_strlit("_db");
    let example_user = unix_user + "_user"@;
    let example_db = match database_name {
        Some(d) => d,
        None => unix_user + "_db"@,
    };
    let u = user_column_width(Seq::empty(), example_user) as int;
    let d = db_column_width(Seq::empty(), example_db) as int;
    let ex = example_row(example_db, example_user);
    assert forall|j: int| 0 <= j < example_user.len() implies example_user[j] != '\n' by {
        if j >= unix_user.len() {
            assert(example_user[j] == "_user"@[j - unix_user.len()]);
        } else {
            assert(example_user[j] == unix_user[j]);
        }
    }
    assert forall|j: int| 0 <= j < example_db.len() implies example_db[j] != '\n' by {
        if database_name is None {
            if j >= unix_user.len() {
                assert(example_db[j] == "_db"@[j - unix_user.len()]);
            } else {
                assert(example_db[j] == unix_user[j]);
            }
        }
    }
    lemma_example_line(ex, u, d);
    let el = editor_line(ex, u, d);
    let body = example_text(unix_user, database_name);
    assert(body == "# "@ + el);
    assert forall|j: int| 0 <= j < body.len() implies body[j] != '\n' by {
        if j >= 2 {
            assert(body[j] == el[j - 2]);
        }
    }
    lemma_split_no_sep(body, '\n');
}

/// Reading back what the editor writes for a list of rows gives the rows, when their names
/// are not empty and hold no whitespace, and no database name starts like a comment (`#` or
/// `//`); with no rows, when the example row is read as nothing (always so when the names
/// of the example row hold no line break; see `example_lines_skipped`).
pub proof fn lemma_editor_content_reads_back(
    rows: Seq<PrivilegeRowView>,
    unix_user: Seq<char>,
    database_name: Option<Seq<char>>,
)
    requires
        forall|i: int|
            0 <= i < rows.len() ==> is_plain_name(#[trigger] rows[i].0) && is_plain_name(rows[i].1)
                && !is_comment_line(rows[i].0) && rows[i].2.len() == 11,
        rows.len() == 0 ==> example_lines_skipped(unix_user, database_name),
    ensures
        parse_content(editor_content(rows, unix_user, database_name)) == Ok::<Seq<PrivilegeRowView>, Seq<char>>(rows),
{
    reveal_strlit("\n");
    reveal_strlit("# ");
    reveal_strlit("_user");
    reveal_strlit("_db");
    let nl = seq!['\n'];
    assert("\n"@ =~= nl);
    let example_user = unix_user + "_user"@;
    let example_db = match database_name {
        Some(d) => d,
        None => unix_user + "_db"@,
    };
    let u = user_column_width(rows, example_user) as int;
    let d = db_column_width(rows, example_db) as int;
    let l = editor_comment_lines();
    let j6 = join(l, nl);
    let h = editor_header(u, d);
    let body = if rows.len() == 0 {
        "# "@ + editor_line(example_row(example_db, example_user), u, d)
    } else {
        join(Seq::new(rows.len(), |i: int| editor_line(rows[i], u, d)), "\n"@)
    };
    let content = editor_content(rows, unix_user, database_name);
    assert(content == editor_comment() + "\n"@ + h + "\n"@ + body);
    lemma_comment_lines();
    lemma_header_reads_back(u, d);
    // the lines of the body, and its last character
    let ls: Seq<Seq<char>> = if rows.len() == 0 { split_on(body, '\n') } else { Seq::new(rows.len(), |i: int| editor_line(rows[i], u, d)) };
    assert forall|i: int| 0 <= i < rows.len() implies #[trigger] ls[i] == editor_line(rows[i], u, d) by {}
    if rows.len() == 0 {
        let ex = example_row(example_db, example_user);
        lemma_example_line(ex, u, d);
        let el = editor_line(ex, u, d);
        assert(body == example_text(unix_user, database_name));
        assert(body.last() == el.last());
        assert(body[0] == '#');
        lemma_split_nonempty(body, '\n');
        lemma_split_first(body, '\n');
        assert(ls[0][0] == '#');
        lemma_trim_end_keeps_first(ls[0]);
        assert(parse_line(trim_chars(ls[0])) == LineParse::Comment);
    } else {
        assert forall|i: int| 0 <= i < rows.len() implies #[trigger] parse_line(trim_chars(ls[i])) == LineParse::PrivilegeRow(rows[i]) by {
            lemma_editor_line_reads_back(rows[i], u, d);
        }
        assert forall|i: int, j: int| 0 <= i < ls.len() && 0 <= j < ls[i].len() implies #[trigger] ls[i][j] != '\n' by {
            lemma_editor_line_reads_back(rows[i], u, d);
        }
        lemma_split_join(ls, '\n');
        lemma_editor_line_reads_back(rows[rows.len() - 1], u, d);
        lemma_join_last(ls, nl);
    }
    assert(split_on(body, '\n') == ls);
    assert(body.len() > 0 && !is_whitespace_char(body.last()));
    // the trimmed content
    let t = j6 + nl + (Seq::<char>::empty() + nl + (h + nl + body));
    assert(content =~= nl + t);
    lemma_join_starts_with(l, nl);
    assert(j6[0] == l[0][0]) by {
        assert(j6.subrange(0, l[0].len() as int)[0] == j6[0]);
    }
    assert(t[0] == '#');
    assert(content.drop_first() =~= t);
    assert(trim_start_chars(content) == trim_start_chars(t));
    assert(trim_start_chars(t) == t);
    assert(t.last() == body.last());
    assert(trim_chars(content) == t);
    // the lines
    lemma_split_join(l, '\n');
    lemma_split_no_sep(h, '\n');
    lemma_split_no_sep(Seq::<char>::empty(), '\n');
    lemma_split_concat(h, body, '\n');
    lemma_split_concat(Seq::<char>::empty(), h + nl + body, '\n');
    lemma_split_concat(j6, Seq::<char>::empty() + nl + (h + nl + body), '\n');
    let lines = split_on(t, '\n');
    assert(lines =~= l + seq![Seq::<char>::empty()] + seq![h] + ls);
    // reading them
    assert(parse_line(trim_chars(Seq::<char>::empty())) == LineParse::Empty) by {
        assert(trim_chars(Seq::<char>::empty()) == Seq::<char>::empty());
    }
    if rows.len() == 0 {
        assert forall|i: int| 0 <= i < lines.len() implies is_skipped(#[trigger] parse_line(trim_chars(lines[i]))) by {
            if i < 6 {
                assert(lines[i] == l[i]);
            } else if i == 6 {
                assert(lines[i] == Seq::<char>::empty());
            } else if i == 7 {
                assert(lines[i] == h);
            } else {
                assert(lines[i] == ls[i - 8]);
                if i > 8 {
                    assert(is_skipped(parse_line(trim_chars(ls[i - 8]))));
                }
            }
        }
        lemma_parse_lines_skip_then_rows(lines, lines.len() as int, rows, lines.len() as int);
        assert(rows =~= Seq::<PrivilegeRowView>::empty());
    } else {
        assert forall|i: int| 0 <= i < 8 implies is_skipped(#[trigger] parse_line(trim_chars(lines[i]))) by {
            if i < 6 {
                assert(lines[i] == l[i]);
            } else if i == 6 {
                assert(lines[i] == Seq::<char>::empty());
            } else {
                assert(lines[i] == h);
            }
        }
        assert forall|k: int| 0 <= k < rows.len() implies #[trigger] parse_line(trim_chars(lines[8 + k])) == LineParse::PrivilegeRow(rows[k]) by {
            assert(lines[8 + k] == ls[k]);
        }
        lemma_parse_lines_skip_then_rows(lines, 8, rows, lines.len() as int);
        assert(rows.take(rows.len() as int) =~= rows);
    }
}

} // verus!
