//! Adding a `key = value` line to a table of a TOML file, line by line.

use vstd::prelude::*;
use crate::text::{chars_eq, chars_of, string_of};

verus! {

/// The pieces of `s` between `\n` characters (one more piece than there are `\n`).
pub open spec fn newline_pieces(s: Seq<char>) -> Seq<Seq<char>>
    decreases s.len(),
{
    if s.len() == 0 {
        seq![Seq::empty()]
    } else if s.last() == '\n' {
        newline_pieces(s.drop_last()).push(Seq::empty())
    } else {
        let p = newline_pieces(s.drop_last());
        p.update(p.len() - 1, p.last().push(s.last()))
    }
}

/// `line` without one `\r` at its end.
pub open spec fn without_cr(line: Seq<char>) -> Seq<char> {
    if line.len() > 0 && line.last() == '\r' {
        line.drop_last()
    } else {
        line
    }
}

/// The lines of a text file: each `\n`-terminated piece without its `\r\n`
/// or `\n`, and a last piece without `\n` when it is not empty.
pub open spec fn file_lines(s: Seq<char>) -> Seq<Seq<char>> {
    let p = newline_pieces(s);
    p.drop_last().map_values(|l: Seq<char>| without_cr(l)) + if p.last().len() == 0 {
        Seq::empty()
    } else {
        seq![p.last()]
    }
}

/// A file made of `lines`, each followed by `\n`.
pub open spec fn written_lines(lines: Seq<Seq<char>>) -> Seq<char>
    decreases lines.len(),
{
    if lines.len() == 0 {
        Seq::empty()
    } else {
        written_lines(lines.drop_last()) + lines.last() + seq!['\n']
    }
}

/// A blank line or a table header ends the section that comes before it.
pub open spec fn is_section_end(line: Seq<char>) -> bool {
    line.len() == 0 || line[0] == '['
}

/// `h` is the first line that equals `table`.
pub open spec fn first_header(lines: Seq<Seq<char>>, table: Seq<char>, h: int) -> bool {
    &&& 0 <= h < lines.len()
    &&& lines[h] == table
    &&& forall|k: int| 0 <= k < h ==> lines[k] != table
}

/// `j` is the first line after `h` that ends a section.
pub open spec fn first_end_after(lines: Seq<Seq<char>>, h: int, j: int) -> bool {
    &&& h < j < lines.len()
    &&& is_section_end(lines[j])
    &&& forall|k: int| h < k < j ==> !is_section_end(lines[k])
}

/// Where the new line goes: before the first blank or `[` line that follows
/// the first line equal to `table`; nowhere when there is no such pair.
pub open spec fn insertion_point(lines: Seq<Seq<char>>, table: Seq<char>) -> Option<int> {
    if exists|h: int, j: int| first_header(lines, table, h) && first_end_after(lines, h, j) {
        let (h, j) = choose|h: int, j: int|
            first_header(lines, table, h) && first_end_after(lines, h, j);
        Some(j)
    } else {
        None
    }
}

/// `lines` with `key_value` put at the insertion point, if there is one.
pub open spec fn with_toml_line(lines: Seq<Seq<char>>, table: Seq<char>, key_value: Seq<char>) -> Seq<Seq<char>> {
    match insertion_point(lines, table) {
        Some(j) => lines.insert(j, key_value),
        None => lines,
    }
}

proof fn lemma_first_header_unique(lines: Seq<Seq<char>>, table: Seq<char>, a: int, b: int)
    requires
        first_header(lines, table, a),
        first_header(lines, table, b),
    ensures
        a == b,
{
    if a < b {
        assert(lines[a] != table);
    } else if b < a {
        assert(lines[b] != table);
    }
}

proof fn lemma_first_end_unique(lines: Seq<Seq<char>>, h: int, a: int, b: int)
    requires
        first_end_after(lines, h, a),
        first_end_after(lines, h, b),
    ensures
        a == b,
{
    if a < b {
        assert(!is_section_end(lines[a]));
    } else if b < a {
        assert(!is_section_end(lines[b]));
    }
}

proof fn lemma_insertion_point_is(lines: Seq<Seq<char>>, table: Seq<char>, h: int, j: int)
    requires
        first_header(lines, table, h),
        first_end_after(lines, h, j),
    ensures
        insertion_point(lines, table) == Some(j),
{
    let (g, c) = choose|g: int, c: int| first_header(lines, table, g) && first_end_after(lines, g, c);
    lemma_first_header_unique(lines, table, g, h);
    lemma_first_end_unique(lines, h, c, j);
}

/// The characters of each vector of `v`, in order.
pub open spec fn char_lines(v: Seq<Vec<char>>) -> Seq<Seq<char>> {
    v.map_values(|l: Vec<char>| l@)
}

proof fn lemma_pieces_nonempty(s: Seq<char>)
    ensures
        newline_pieces(s).len() >= 1,
    decreases s.len(),
{
    if s.len() > 0 {
        lemma_pieces_nonempty(s.drop_last());
    }
}

/// The lines of `content`, as `BufRead::lines` reads them.
pub fn split_lines(content: &str) -> (r: Vec<Vec<char>>)
    ensures
        char_lines(r@) == file_lines(content@),
{
    let s = chars_of(content);
    let mut done: Vec<Vec<char>> = Vec::new();
    let mut current: Vec<char> = Vec::new();
    let mut i: usize = 0;
    assert(s@.take(0) =~= Seq::<char>::empty());
    assert(char_lines(done@) =~= newline_pieces(s@.take(0)).drop_last().map_values(
        |l: Seq<char>| without_cr(l),
    ));
    while i < s.len()
        invariant
            i <= s.len(),
            s@ == content@,
            newline_pieces(s@.take(i as int)).len() >= 1,
            char_lines(done@) == newline_pieces(s@.take(i as int)).drop_last().map_values(
                |l: Seq<char>| without_cr(l),
            ),
            current@ == newline_pieces(s@.take(i as int)).last(),
        decreases s.len() - i,
    {
        let ghost t = s@.take(i as int);
        let ghost p = newline_pieces(t);
        let c = s[i];
        i = i + 1;
        assert(s@.take(i as int).drop_last() =~= t);
        assert(s@.take(i as int).last() == c);
        if c == '\n' {
            let mut line = current;
            if line.len() > 0 && line[line.len() - 1] == '\r' {
                line.pop();
            }
            assert(line@ == without_cr(p.last()));
            let ghost old_lines = char_lines(done@);
            let ghost line_view = line@;
            done.push(line);
            assert(char_lines(done@) =~= old_lines.push(line_view));
            assert(p.map_values(|l: Seq<char>| without_cr(l)) =~= p.drop_last().map_values(
                |l: Seq<char>| without_cr(l),
            ).push(without_cr(p.last())));
            current = Vec::new();
            let ghost q = newline_pieces(s@.take(i as int));
            assert(q == p.push(Seq::empty()));
            assert(q.drop_last() =~= p);
            assert(p =~= p.drop_last().push(p.last()));
            assert(char_lines(done@) =~= q.drop_last().map_values(|l: Seq<char>| without_cr(l)));
            assert(current@ =~= q.last());
        } else {
            current.push(c);
            let ghost q = newline_pieces(s@.take(i as int));
            assert(q == p.update(p.len() - 1, p.last().push(c)));
            assert(q.drop_last() =~= p.drop_last());
        }
    }
    assert(s@.take(i as int) =~= content@);
    let ghost p = newline_pieces(content@);
    if current.len() > 0 {
        done.push(current);
        assert(char_lines(done@) =~= file_lines(content@));
    } else {
        assert(char_lines(done@) =~= file_lines(content@));
    }
    done
}

/// The characters of a file made of `lines`, each followed by `\n`.
pub fn join_lines(lines: &Vec<Vec<char>>) -> (r: Vec<char>)
    ensures
        r@ == written_lines(char_lines(lines@)),
{
    let mut out: Vec<char> = Vec::new();
    let mut i: usize = 0;
    assert(char_lines(lines@).take(0) =~= Seq::<Seq<char>>::empty());
    while i < lines.len()
        invariant
            i <= lines.len(),
            out@ == written_lines(char_lines(lines@).take(i as int)),
        decreases lines.len() - i,
    {
        let line = &lines[i];
        let ghost before = out@;
        let mut k: usize = 0;
        while k < line.len()
            invariant
                k <= line.len(),
                out@ == before + line@.take(k as int),
            decreases line.len() - k,
        {
            out.push(line[k]);
            k = k + 1;
            assert(line@.take(k as int) =~= line@.take(k - 1).push(line@[k - 1]));
        }
        out.push('\n');
        assert(line@.take(line.len() as int) =~= line@);
        let ghost ls = char_lines(lines@).take(i + 1);
        assert(ls.drop_last() =~= char_lines(lines@).take(i as int));
        assert(ls.last() == line@);
        i = i + 1;
    }
    assert(char_lines(lines@).take(lines.len() as int) =~= char_lines(lines@));
    out
}

/// The text of a TOML file with `key_value` put in the table whose header
/// line is `table_name`: before the first blank or `[` line that follows
/// the header. The file is rewritten line by line, each line ending in `\n`.
pub fn insert_toml_line(content: &str, table_name: &str, key_value: &str) -> (r: String)
    ensures
        r@ == written_lines(with_toml_line(file_lines(content@), table_name@, key_value@)),
{
    let mut lines = split_lines(content);
    let table = chars_of(table_name);
    let ghost ls = char_lines(lines@);
    let mut h: usize = 0;
    while h < lines.len() && !chars_eq(&lines[h], &table)
        invariant
            h <= lines.len(),
            ls == char_lines(lines@),
            table@ == table_name@,
            forall|k: int| 0 <= k < h ==> ls[k] != table_name@,
        decreases lines.len() - h,
    {
        h = h + 1;
    }
    if h == lines.len() {
        assert(insertion_point(ls, table_name@) is None) by {
            if exists|a: int, b: int| first_header(ls, table_name@, a) && first_end_after(ls, a, b) {
                let (a, b) = choose|a: int, b: int| first_header(ls, table_name@, a) && first_end_after(ls, a, b);
                assert(ls[a] != table_name@);
            }
        }
        return string_of(join_lines(&lines).as_slice());
    }
    assert(first_header(ls, table_name@, h as int));
    let mut j: usize = h + 1;
    while j < lines.len() && !(lines[j].len() == 0 || lines[j][0] == '[')
        invariant
            h < j <= lines.len(),
            ls == char_lines(lines@),
            forall|k: int| h < k < j ==> !is_section_end(ls[k]),
        decreases lines.len() - j,
    {
        assert(ls[j as int] == lines@[j as int]@);
        j = j + 1;
    }
    if j == lines.len() {
        assert(insertion_point(ls, table_name@) is None) by {
            if exists|a: int, b: int| first_header(ls, table_name@, a) && first_end_after(ls, a, b) {
                let (a, b) = choose|a: int, b: int| first_header(ls, table_name@, a) && first_end_after(ls, a, b);
                lemma_first_header_unique(ls, table_name@, a, h as int);
                assert(!is_section_end(ls[b]));
            }
        }
        return string_of(join_lines(&lines).as_slice());
    }
    assert(is_section_end(ls[j as int]));
    assert(first_end_after(ls, h as int, j as int));
    proof {
        lemma_insertion_point_is(ls, table_name@, h as int, j as int);
    }
    lines.insert(j, chars_of(key_value));
    assert(char_lines(lines@) =~= ls.insert(j as int, key_value@));
    string_of(join_lines(&lines).as_slice())
}

proof fn lemma_pieces_append_line(s: Seq<char>, l: Seq<char>)
    requires
        !l.contains('\n'),
    ensures
        newline_pieces(s + l) == newline_pieces(s).update(
            newline_pieces(s).len() - 1,
            newline_pieces(s).last() + l,
        ),
    decreases l.len(),
{
    lemma_pieces_nonempty(s);
    let p = newline_pieces(s);
    if l.len() == 0 {
        assert(s + l =~= s);
        assert(p.last() + l =~= p.last());
        assert(p.update(p.len() - 1, p.last()) =~= p);
    } else {
        let m = l.drop_last();
        assert forall|k: int| 0 <= k < m.len() implies m[k] != '\n' by {
            assert(l[k] != '\n');
        }
        lemma_pieces_append_line(s, m);
        assert((s + l).drop_last() =~= s + m);
        assert((s + l).last() == l.last());
        assert(l.last() != '\n') by {
            assert(l[l.len() - 1] != '\n');
        }
        assert((p.last() + m).push(l.last()) =~= p.last() + l);
        assert(newline_pieces(s + l) =~= p.update(p.len() - 1, p.last() + l));
    }
}

proof fn lemma_pieces_of_written(ls: Seq<Seq<char>>)
    requires
        forall|i: int| 0 <= i < ls.len() ==> !(#[trigger] ls[i]).contains('\n'),
    ensures
        newline_pieces(written_lines(ls)) == ls.push(Seq::empty()),
    decreases ls.len(),
{
    if ls.len() == 0 {
        assert(newline_pieces(Seq::empty()) =~= ls.push(Seq::empty()));
    } else {
        let init = ls.drop_last();
        let l = ls.last();
        assert forall|i: int| 0 <= i < init.len() implies !(#[trigger] init[i]).contains('\n') by {
            assert(init[i] == ls[i]);
        }
        lemma_pieces_of_written(init);
        assert(!l.contains('\n')) by {
            assert(ls[ls.len() - 1] == l);
        }
        let w = written_lines(init);
        lemma_pieces_append_line(w, l);
        let t = w + l + seq!['\n'];
        assert(t.drop_last() =~= w + l);
        assert(t.last() == '\n');
        assert(init.push(Seq::empty()).update(init.len() as int, Seq::<char>::empty() + l) =~= ls);
        assert(newline_pieces(t) =~= ls.push(Seq::empty()));
    }
}

/// Reading back a file written from lines gives those lines, when no line
/// holds a `\n` or ends with `\r`.
pub proof fn law_lines_round_trip(ls: Seq<Seq<char>>)
    requires
        forall|i: int| 0 <= i < ls.len() ==> !(#[trigger] ls[i]).contains('\n'),
        forall|i: int| 0 <= i < ls.len() ==> !((#[trigger] ls[i]).len() > 0 && ls[i].last() == '\r'),
    ensures
        file_lines(written_lines(ls)) == ls,
{
    lemma_pieces_of_written(ls);
    let p = ls.push(Seq::<char>::empty());
    assert(p.drop_last() =~= ls);
    assert(p.last().len() == 0);
    assert(ls.map_values(|l: Seq<char>| without_cr(l)) =~= ls) by {
        assert forall|i: int| 0 <= i < ls.len() implies without_cr(ls[i]) == ls[i] by {}
    }
    assert(file_lines(written_lines(ls)) =~= ls);
}

/// Where the table's header line occurs and a blank or `[` line follows it,
/// the new line goes in just before the first such line after the first
/// header line, whatever comes after that line.
pub proof fn law_line_goes_before_first_section_end(
    lines: Seq<Seq<char>>,
    table: Seq<char>,
    key_value: Seq<char>,
    h: int,
    j: int,
)
    requires
        0 <= h < j < lines.len(),
        lines[h] == table,
        forall|k: int| 0 <= k < h ==> lines[k] != table,
        lines[j].len() == 0 || lines[j][0] == '[',
        forall|k: int| h < k < j ==> !(lines[k].len() == 0 || lines[k][0] == '['),
    ensures
        with_toml_line(lines, table, key_value) == lines.insert(j, key_value),
{
    assert(first_header(lines, table, h));
    assert(first_end_after(lines, h, j));
    lemma_insertion_point_is(lines, table, h, j);
}

/// A file without the table's header line is left as it was.
pub proof fn law_no_header_no_change(lines: Seq<Seq<char>>, table: Seq<char>, key_value: Seq<char>)
    requires
        !lines.contains(table),
    ensures
        with_toml_line(lines, table, key_value) == lines,
{
    if exists|h: int, j: int| first_header(lines, table, h) && first_end_after(lines, h, j) {
        let (h, j) = choose|h: int, j: int| first_header(lines, table, h) && first_end_after(lines, h, j);
        assert(lines[h] == table);
    }
}

/// At most one line is added: the given one, after the table's header line and
/// before the blank or `[` line that ends its section; taking it out again
/// gives back the lines as they were.
pub proof fn law_one_line_added(lines: Seq<Seq<char>>, table: Seq<char>, key_value: Seq<char>)
    ensures
        with_toml_line(lines, table, key_value) == lines || exists|h: int, j: int|
            #![trigger lines[h], with_toml_line(lines, table, key_value)[j]]
            {
                &&& 0 <= h < j < lines.len()
                &&& lines[h] == table
                &&& is_section_end(lines[j])
                &&& with_toml_line(lines, table, key_value)[j] == key_value
                &&& with_toml_line(lines, table, key_value).remove(j) == lines
                &&& forall|k: int| h < k < j ==> !is_section_end(#[trigger] lines[k])
            },
{
    if let Some(j) = insertion_point(lines, table) {
        let (h, c) = choose|h: int, c: int| first_header(lines, table, h) && first_end_after(lines, h, c);
        let r = with_toml_line(lines, table, key_value);
        assert(r.remove(c) =~= lines);
        assert(r[c] == key_value);
    }
}

} // verus!
