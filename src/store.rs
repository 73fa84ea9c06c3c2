use vstd::prelude::*;
use vstd::string::StringExecFns;

use crate::text::{
    first_word, first_word_of, joined, strip_leading, strip_prefix_str, strip_trailing, trim,
    trim_char, trimmed,
};

verus! {

/// The index of the first `c` in `s`, or the length of `s` where there is none.
pub open spec fn char_index(s: Seq<char>, c: char) -> nat
    decreases s.len(),
{
    if s.len() == 0 || s[0] == c {
        0
    } else {
        1 + char_index(s.drop_first(), c)
    }
}

/// `s` without one `\r` at its end.
pub open spec fn strip_cr(s: Seq<char>) -> Seq<char> {
    if s.len() > 0 && s.last() == '\r' {
        s.drop_last()
    } else {
        s
    }
}

/// The lines of `s`, as `str::lines` gives them: split at each `\n`, with
/// a `\r` before it dropped; a `\n` at the very end opens no empty line.
pub open spec fn lines_spec(s: Seq<char>) -> Seq<Seq<char>>
    decreases s.len(),
{
    if s.len() == 0 {
        Seq::empty()
    } else {
        let i = char_index(s, '\n');
        if i < s.len() {
            seq![strip_cr(s.take(i as int))] + lines_spec(s.skip((i + 1) as int))
        } else {
            seq![s]
        }
    }
}

/// `char_index` is an index of `c`, with no `c` before it.
proof fn lemma_char_index(s: Seq<char>, c: char)
    ensures
        char_index(s, c) <= s.len(),
        char_index(s, c) < s.len() ==> s[char_index(s, c) as int] == c,
        forall|k: int| 0 <= k < char_index(s, c) ==> s[k] != c,
    decreases s.len(),
{
    if s.len() > 0 && s[0] != c {
        lemma_char_index(s.drop_first(), c);
        assert forall|k: int| 0 <= k < char_index(s, c) implies s[k] != c by {
            if k > 0 {
                assert(s[k] == s.drop_first()[k - 1]);
            }
        }
    }
}

/// Relies on `str::split_once` with a `char` pattern: the text before and
/// after the first `c`, where there is one.
#[verifier::external_body]
fn split_once_char(s: &str, c: char) -> (r: Option<(&str, &str)>)
    ensures
        ({
            let i = char_index(s@, c);
            match r {
                Some((a, b)) => {
                    &&& i < s@.len()
                    &&& a@ == s@.take(i as int)
                    &&& b@ == s@.skip((i + 1) as int)
                },
                None => i == s@.len(),
            }
        }),
{
    s.split_once(c)
}

/// `s` without one `\r` at its end.
fn without_cr(s: &str) -> (r: String)
    ensures
        r@ == strip_cr(s@),
{
    let n = s.unicode_len();
    if n > 0 && s.get_char(n - 1) == '\r' {
        String::from_str(s.substring_char(0, n - 1))
    } else {
        String::from_str(s)
    }
}

/// The lines of `s`, as `str::lines` gives them.
pub fn lines_of(s: &str) -> (r: Vec<String>)
    ensures
        r@.map_values(|l: String| l@) == lines_spec(s@),
{
    let mut out: Vec<String> = Vec::new();
    let mut rest: &str = s;
    while !rest.is_empty()
        invariant
            out@.map_values(|l: String| l@) + lines_spec(rest@) == lines_spec(s@),
        decreases rest@.len(),
    {
        proof {
            lemma_char_index(rest@, '\n');
        }
        match split_once_char(rest, '\n') {
            Some((line, tail)) => {
                let ghost old_out = out@;
                out.push(without_cr(line));
                assert(out@.map_values(|l: String| l@) =~= old_out.map_values(|l: String| l@).push(
                    strip_cr(line@),
                ));
                assert(lines_spec(rest@) == seq![strip_cr(line@)] + lines_spec(tail@));
                assert(out@.map_values(|l: String| l@) + lines_spec(tail@) =~= old_out.map_values(
                    |l: String| l@,
                ) + lines_spec(rest@));
                rest = tail;
            },
            None => {
                let ghost old_out = out@;
                out.push(String::from_str(rest));
                assert(out@.map_values(|l: String| l@) =~= old_out.map_values(|l: String| l@)
                    + lines_spec(rest@));
                rest = "";
                proof {
                    reveal_strlit("");
                }
                assert(lines_spec(rest@) =~= Seq::<Seq<char>>::empty());
                assert(out@.map_values(|l: String| l@) + lines_spec(rest@) =~= out@.map_values(
                    |l: String| l@,
                ));
            },
        }
    }
    assert(out@.map_values(|l: String| l@) + lines_spec(rest@) =~= out@.map_values(
        |l: String| l@,
    ));
    out
}

/// The id and the title of a column line after its `col ` prefix: the id
/// runs to the first space; the title is the rest, or the id where there is
/// no rest, trimmed and without the double quotes around it.
pub open spec fn col_entry(rest: Seq<char>) -> (Seq<char>, Seq<char>) {
    let i = char_index(rest, ' ');
    let id = rest.take(i as int);
    let raw = if i < rest.len() {
        rest.skip((i + 1) as int)
    } else {
        id
    };
    (id, strip_leading(strip_trailing(trimmed(raw), '"'), '"'))
}

/// The id and title of a column line after its `col ` prefix.
pub fn parse_col(rest: &str) -> (r: (String, String))
    ensures
        (r.0@, r.1@) == col_entry(rest@),
{
    proof {
        lemma_char_index(rest@, ' ');
    }
    let (id, raw) = match split_once_char(rest, ' ') {
        Some((id, tail)) => (id, tail),
        None => {
            assert(rest@.take(rest@.len() as int) =~= rest@);
            (rest, rest)
        },
    };
    let title = trim_char(trim(raw), '"');
    (String::from_str(id), String::from_str(title))
}

/// The columns that the board file's lines declare: each line that, once
/// trimmed, starts with `col `, in file order.
pub open spec fn board_entries_spec(lines: Seq<Seq<char>>) -> Seq<(Seq<char>, Seq<char>)>
    decreases lines.len(),
{
    if lines.len() == 0 {
        Seq::empty()
    } else {
        let rest = board_entries_spec(lines.drop_last());
        let l = trimmed(lines.last());
        if "col "@.is_prefix_of(l) {
            rest.push(col_entry(l.skip(4)))
        } else {
            rest
        }
    }
}

/// The views of a sequence of string pairs.
pub open spec fn pair_views(v: Seq<(String, String)>) -> Seq<(Seq<char>, Seq<char>)> {
    v.map_values(|p: (String, String)| (p.0@, p.1@))
}

/// The id and title of each column that the board file `txt` declares.
pub fn board_entries(txt: &str) -> (r: Vec<(String, String)>)
    ensures
        pair_views(r@) == board_entries_spec(lines_spec(txt@)),
{
    let lines = lines_of(txt);
    let ghost ls = lines_spec(txt@);
    let mut out: Vec<(String, String)> = Vec::new();
    let mut i: usize = 0;
    proof {
        reveal_strlit("col ");
    }
    while i < lines.len()
        invariant
            i <= lines@.len(),
            ls == lines@.map_values(|l: String| l@),
            pair_views(out@) == board_entries_spec(ls.take(i as int)),
            "col "@.len() == 4,
        decreases lines.len() - i,
    {
        assert(ls.take(i as int + 1).drop_last() =~= ls.take(i as int));
        assert(ls[i as int] == lines@[i as int]@);
        let line = trim(lines[i].as_str());
        match strip_prefix_str(line, "col ") {
            Some(rest) => {
                let ghost before = out@;
                out.push(parse_col(rest));
                assert(pair_views(out@) =~= pair_views(before).push(col_entry(rest@)));
            },
            None => {},
        }
        i += 1;
    }
    assert(ls.take(lines@.len() as int) =~= ls);
    out
}

/// The first line of `raw`, as `str::lines` gives it; empty for empty text.
pub open spec fn first_line(raw: Seq<char>) -> Seq<char> {
    let i = char_index(raw, '\n');
    if i < raw.len() {
        strip_cr(raw.take(i as int))
    } else {
        raw
    }
}

/// The title and description of a card file: the title is the first line
/// without a leading `# `, trimmed, or `fallback` where that is empty; the
/// description is the rest of the file, trimmed.
pub open spec fn md_entry(raw: Seq<char>, fallback: Seq<char>) -> (Seq<char>, Seq<char>) {
    let first = first_line(raw);
    let head = if "# "@.is_prefix_of(first) {
        first.skip(2)
    } else {
        first
    };
    let title = if trimmed(head).len() == 0 {
        fallback
    } else {
        trimmed(head)
    };
    (title, trimmed(raw.skip(first.len() as int)))
}

/// The title and description of a card file.
pub fn parse_md(raw: &str, fallback: &str) -> (r: (String, String))
    ensures
        (r.0@, r.1@) == md_entry(raw@, fallback@),
{
    proof {
        lemma_char_index(raw@, '\n');
        reveal_strlit("# ");
    }
    let first = match split_once_char(raw, '\n') {
        Some((line, _)) => without_cr(line),
        None => String::from_str(raw),
    };
    let head = match strip_prefix_str(first.as_str(), "# ") {
        Some(h) => h,
        None => first.as_str(),
    };
    let t = trim(head);
    let title = if t.is_empty() {
        String::from_str(fallback)
    } else {
        String::from_str(t)
    };
    let n = raw.unicode_len();
    let k = first.as_str().unicode_len();
    let rest = trim(raw.substring_char(k, n));
    (title, String::from_str(rest))
}

/// The trimmed lines that are not blank, in order.
pub open spec fn kept_lines(lines: Seq<Seq<char>>) -> Seq<Seq<char>>
    decreases lines.len(),
{
    if lines.len() == 0 {
        Seq::empty()
    } else {
        let rest = kept_lines(lines.drop_last());
        let l = trimmed(lines.last());
        if l.len() == 0 {
            rest
        } else {
            rest.push(l)
        }
    }
}

/// The card ids of an order file, one to a line: its lines trimmed, blank
/// ones left out.
pub fn order_ids(txt: &str) -> (r: Vec<String>)
    ensures
        r@.map_values(|l: String| l@) == kept_lines(lines_spec(txt@)),
{
    let lines = lines_of(txt);
    let ghost ls = lines_spec(txt@);
    let mut out: Vec<String> = Vec::new();
    let mut i: usize = 0;
    while i < lines.len()
        invariant
            i <= lines@.len(),
            ls == lines@.map_values(|l: String| l@),
            out@.map_values(|l: String| l@) == kept_lines(ls.take(i as int)),
        decreases lines.len() - i,
    {
        assert(ls.take(i as int + 1).drop_last() =~= ls.take(i as int));
        assert(ls[i as int] == lines@[i as int]@);
        let l = trim(lines[i].as_str());
        if !l.is_empty() {
            let ghost before = out@;
            out.push(String::from_str(l));
            assert(out@.map_values(|l: String| l@) =~= before.map_values(|l: String| l@).push(l@));
        }
        i += 1;
    }
    assert(ls.take(lines@.len() as int) =~= ls);
    out
}

/// `ids` without every element equal to `x`.
pub open spec fn without(ids: Seq<Seq<char>>, x: Seq<char>) -> Seq<Seq<char>>
    decreases ids.len(),
{
    if ids.len() == 0 {
        Seq::empty()
    } else {
        let rest = without(ids.drop_last(), x);
        if ids.last() == x {
            rest
        } else {
            rest.push(ids.last())
        }
    }
}

/// The ids written one to a line, each line ended by `\n`.
pub open spec fn order_text(ids: Seq<Seq<char>>) -> Seq<char> {
    joined(ids, "\n"@) + "\n"@
}

/// The ids one to a line.
fn write_order(ids: &Vec<String>) -> (r: String)
    ensures
        r@ == order_text(ids@.map_values(|l: String| l@)),
{
    let ghost all = ids@.map_values(|l: String| l@);
    let mut r = String::new();
    let mut i: usize = 0;
    while i < ids.len()
        invariant
            i <= ids@.len(),
            all == ids@.map_values(|l: String| l@),
            r@ == joined(all.take(i as int), "\n"@),
        decreases ids.len() - i,
    {
        assert(all.take(i as int + 1).drop_last() =~= all.take(i as int));
        if i > 0 {
            r.append("\n");
        }
        r.append(ids[i].as_str());
        i += 1;
    }
    assert(all.take(ids@.len() as int) =~= all);
    r.append("\n");
    r
}

/// The order file `cur` once card `id` has left it.
pub fn order_without(cur: &str, id: &str) -> (r: String)
    ensures
        r@ == order_text(without(kept_lines(lines_spec(cur@)), id@)),
{
    let ids = order_ids(cur);
    let ghost all = ids@.map_values(|l: String| l@);
    let key = String::from_str(id);
    let mut out: Vec<String> = Vec::new();
    let mut i: usize = 0;
    while i < ids.len()
        invariant
            i <= ids@.len(),
            key@ == id@,
            all == ids@.map_values(|l: String| l@),
            out@.map_values(|l: String| l@) == without(all.take(i as int), id@),
        decreases ids.len() - i,
    {
        assert(all.take(i as int + 1).drop_last() =~= all.take(i as int));
        assert(all[i as int] == ids@[i as int]@);
        if ids[i] != key {
            let ghost before = out@;
            out.push(ids[i].clone());
            assert(out@.map_values(|l: String| l@) =~= before.map_values(|l: String| l@).push(
                all[i as int],
            ));
        }
        i += 1;
    }
    assert(all.take(ids@.len() as int) =~= all);
    write_order(&out)
}

/// The ids with `x` appended where it is not among them.
pub open spec fn with_id(ids: Seq<Seq<char>>, x: Seq<char>) -> Seq<Seq<char>> {
    if ids.contains(x) {
        ids
    } else {
        ids.push(x)
    }
}

/// The order file `cur` (empty where there is none yet) once card `id` has
/// been appended to it; an id already there is not repeated.
pub fn order_with(cur: &str, id: &str) -> (r: String)
    ensures
        r@ == order_text(with_id(kept_lines(lines_spec(cur@)), id@)),
{
    let mut ids = order_ids(cur);
    let ghost all = ids@.map_values(|l: String| l@);
    let key = String::from_str(id);
    let mut i: usize = 0;
    let mut found = false;
    while i < ids.len()
        invariant
            i <= ids@.len(),
            key@ == id@,
            all == ids@.map_values(|l: String| l@),
            found == exists|k: int| 0 <= k < i && all[k] == id@,
        decreases ids.len() - i,
    {
        assert(all[i as int] == ids@[i as int]@);
        if ids[i] == key {
            found = true;
        }
        i += 1;
    }
    if !found {
        assert(!all.contains(id@));
        ids.push(key);
        assert(ids@.map_values(|l: String| l@) =~= all.push(id@));
    } else {
        assert(all.contains(id@));
    }
    write_order(&ids)
}

/// The column ids that the board file's lines declare: for each line that,
/// once trimmed, starts with `col `, the first word after it, where there
/// is one.
pub open spec fn column_ids_spec(lines: Seq<Seq<char>>) -> Seq<Seq<char>>
    decreases lines.len(),
{
    if lines.len() == 0 {
        Seq::empty()
    } else {
        let rest = column_ids_spec(lines.drop_last());
        let l = trimmed(lines.last());
        if "col "@.is_prefix_of(l) {
            match first_word_of(l.skip(4)) {
                Some(w) => rest.push(w),
                None => rest,
            }
        } else {
            rest
        }
    }
}

/// The ids of the columns that the board file `txt` declares.
pub fn list_columns(txt: &str) -> (r: Vec<String>)
    ensures
        r@.map_values(|l: String| l@) == column_ids_spec(lines_spec(txt@)),
{
    let lines = lines_of(txt);
    let ghost ls = lines_spec(txt@);
    let mut out: Vec<String> = Vec::new();
    let mut i: usize = 0;
    proof {
        reveal_strlit("col ");
    }
    while i < lines.len()
        invariant
            i <= lines@.len(),
            ls == lines@.map_values(|l: String| l@),
            out@.map_values(|l: String| l@) == column_ids_spec(ls.take(i as int)),
            "col "@.len() == 4,
        decreases lines.len() - i,
    {
        assert(ls.take(i as int + 1).drop_last() =~= ls.take(i as int));
        assert(ls[i as int] == lines@[i as int]@);
        let line = trim(lines[i].as_str());
        match strip_prefix_str(line, "col ") {
            Some(rest) => match first_word(rest) {
                Some(w) => {
                    let ghost before = out@;
                    out.push(String::from_str(w));
                    assert(out@.map_values(|l: String| l@) =~= before.map_values(|l: String| l@).push(
                        w@,
                    ));
                },
                None => {},
            },
            None => {},
        }
        i += 1;
    }
    assert(ls.take(lines@.len() as int) =~= ls);
    out
}

/// The name of a card's file.
pub fn card_file_name(id: &str) -> (r: String)
    ensures
        r@ == id@ + ".md"@,
{
    String::from_str(id).concat(".md")
}

} // verus!
