//! The text format of levels and level packs.
//!
//! A level is an optional `#` name line (a `#` line holding a letter),
//! optional `@ x,y x,y ...` hidden-ladder lines, and the map rows; trailing
//! blank rows are dropped and shorter rows padded with spaces. A pack is a
//! header of `##` metadata lines followed by levels, each after a `---` line.
use vstd::prelude::*;

use crate::level::LevelDef;
use crate::world::PackInfo;

verus! {

/// Unicode `White_Space`, as `char::is_whitespace` defines it.
pub open spec fn white(c: char) -> bool {
    c == ' ' || ('\t' <= c && c <= '\r') || c == '\u{85}' || c == '\u{a0}' || c == '\u{1680}' || ('\u{2000}' <= c && c <= '\u{200a}')
        || c == '\u{2028}' || c == '\u{2029}' || c == '\u{202f}' || c == '\u{205f}' || c == '\u{3000}'
}

/// Unicode `Alphabetic`, as `char::is_alphabetic` reports it.
pub uninterp spec fn letter(c: char) -> bool;

/// Every character is white space (true of the empty text).
pub open spec fn blank(s: Seq<char>) -> bool {
    forall|i: int| 0 <= i < s.len() ==> white(#[trigger] s[i])
}

pub open spec fn is_digit(c: char) -> bool {
    '0' <= c && c <= '9'
}

/// Value of a run of decimal digits.
pub open spec fn digits_value(s: Seq<char>) -> int
    decreases s.len(),
{
    if s.len() == 0 {
        0
    } else {
        10 * digits_value(s.drop_last()) + (s.last() as int - '0' as int)
    }
}

/// The text after an optional leading `+`.
pub open spec fn unsigned_part(s: Seq<char>) -> Seq<char> {
    if s.len() > 0 && s[0] == '+' { s.drop_first() } else { s }
}

/// An unsigned decimal number as `usize::from_str` reads it: an optional
/// `+`, then one or more digits, within range.
pub open spec fn decimal(s: Seq<char>) -> Option<int> {
    let t = unsigned_part(s);
    if t.len() > 0 && (forall|i: int| 0 <= i < t.len() ==> is_digit(#[trigger] t[i])) && digits_value(t) <= usize::MAX {
        Some(digits_value(t))
    } else {
        None
    }
}

pub(crate) fn white_char(c: char) -> (r: bool)
    ensures
        r == white(c),
{
    c == ' ' || ('\t' <= c && c <= '\r') || c == '\u{85}' || c == '\u{a0}' || c == '\u{1680}' || ('\u{2000}' <= c && c <= '\u{200a}')
        || c == '\u{2028}' || c == '\u{2029}' || c == '\u{202f}' || c == '\u{205f}' || c == '\u{3000}'
}

/// Relies on `char::is_alphabetic`: whether the character is a letter.
#[verifier::external_body]
fn is_letter(c: char) -> (r: bool)
    ensures
        r == letter(c),
{
    c.is_alphabetic()
}

/// Relies on `str::chars`: the characters of the text, in order.
#[verifier::external_body]
pub(crate) fn chars_of(s: &str) -> (r: Vec<char>)
    ensures
        r@ == s@,
{
    s.chars().collect()
}

/// Relies on collecting characters into a `String`: the same characters.
#[verifier::external_body]
pub(crate) fn string_of(v: &Vec<char>) -> (r: String)
    ensures
        r@ == v@,
{
    v.iter().collect()
}

proof fn lemma_digits_value_bound(s: Seq<char>)
    requires
        forall|i: int| 0 <= i < s.len() ==> is_digit(#[trigger] s[i]),
    ensures
        digits_value(s) >= 0,
    decreases s.len(),
{
    if s.len() > 0 {
        let p = s.drop_last();
        assert forall|i: int| 0 <= i < p.len() implies is_digit(#[trigger] p[i]) by {
            assert(p[i] == s[i]);
        }
        lemma_digits_value_bound(p);
        assert(is_digit(s[s.len() - 1]));
    }
}

/// Read an unsigned decimal number.
pub fn parse_decimal(s: &Vec<char>) -> (r: Option<usize>)
    ensures
        r matches Some(n) ==> decimal(s@) == Some(n as int),
        r is None ==> decimal(s@) is None,
{
    let start: usize = if s.len() > 0 && s[0] == '+' { 1 } else { 0 };
    let ghost t = unsigned_part(s@);
    assert(t == s@.subrange(start as int, s@.len() as int));
    if start >= s.len() {
        return None;
    }
    let mut value: usize = 0;
    let mut i: usize = start;
    while i < s.len()
        invariant
            start <= i <= s@.len(),
            start < s@.len(),
            t == s@.subrange(start as int, s@.len() as int),
            t == unsigned_part(s@),
            forall|k: int| start <= k < i ==> is_digit(#[trigger] s@[k]),
            value == digits_value(s@.subrange(start as int, i as int)),
        decreases s.len() - i,
    {
        let c = s[i];
        if !('0' <= c && c <= '9') {
            assert(t[i - start] == c);
            assert(!is_digit(t[i - start]));
            return None;
        }
        let d = (c as u32 - '0' as u32) as usize;
        let ghost pre = s@.subrange(start as int, i as int);
        let ghost cur = s@.subrange(start as int, i + 1);
        assert(cur.drop_last() == pre);
        if value > (usize::MAX - d) / 10 {
            proof {
                assert(value * 10 + d > usize::MAX) by (nonlinear_arith)
                    requires
                        value > (usize::MAX - d) / 10,
                        d <= 9,
                ;
                assert(cur.last() == c);
                assert(digits_value(cur) == 10 * value + d);
                if forall|k: int| 0 <= k < t.len() ==> is_digit(#[trigger] t[k]) {
                    lemma_digits_prefix_grows(t, i + 1 - start);
                    assert(t.subrange(0, i + 1 - start) == cur);
                }
            }
            return None;
        }
        value = value * 10 + d;
        i = i + 1;
    }
    assert(s@.subrange(start as int, s@.len() as int) == t);
    Some(value)
}

/// A digit string's value is at least that of any prefix.
proof fn lemma_digits_prefix_grows(t: Seq<char>, k: int)
    requires
        0 <= k <= t.len(),
        forall|i: int| 0 <= i < t.len() ==> is_digit(#[trigger] t[i]),
    ensures
        digits_value(t.subrange(0, k)) <= digits_value(t),
    decreases t.len() - k,
{
    if k < t.len() {
        lemma_digits_prefix_grows(t, k + 1);
        let p = t.subrange(0, k + 1);
        assert(p.drop_last() == t.subrange(0, k));
        assert forall|i: int| 0 <= i < p.len() implies is_digit(#[trigger] p[i]) by {
            assert(p[i] == t[i]);
        }
        lemma_digits_value_bound(t.subrange(0, k));
        assert(is_digit(p.last()));
    } else {
        assert(t.subrange(0, k) == t);
    }
}

/// A line without the carriage return of a `\r\n` ending.
pub open spec fn strip_cr(line: Seq<char>) -> Seq<char> {
    if line.len() > 0 && line.last() == '\r' { line.drop_last() } else { line }
}

/// Scanning text left to right: the finished lines and the line in progress.
pub open spec fn lines_scan(s: Seq<char>) -> (Seq<Seq<char>>, Seq<char>)
    decreases s.len(),
{
    if s.len() == 0 {
        (Seq::empty(), Seq::empty())
    } else {
        let p = lines_scan(s.drop_last());
        if s.last() == '\n' {
            (p.0.push(strip_cr(p.1)), Seq::empty())
        } else {
            (p.0, p.1.push(s.last()))
        }
    }
}

/// The lines of a text as `str::lines` gives them: split at `\n`, a `\r`
/// before it dropped, and no empty line after a final `\n`.
pub open spec fn lines_spec(s: Seq<char>) -> Seq<Seq<char>> {
    let p = lines_scan(s);
    if p.1.len() > 0 { p.0.push(p.1) } else { p.0 }
}

pub open spec fn views(v: Seq<Vec<char>>) -> Seq<Seq<char>> {
    v.map_values(|l: Vec<char>| l@)
}

pub(crate) fn copy_chars(v: &Vec<char>, from: usize, to: usize) -> (r: Vec<char>)
    requires
        from <= to <= v@.len(),
    ensures
        r@ == v@.subrange(from as int, to as int),
{
    let mut out: Vec<char> = Vec::new();
    let mut i: usize = from;
    while i < to
        invariant
            from <= i <= to,
            to <= v@.len(),
            out@ == v@.subrange(from as int, i as int),
        decreases to - i,
    {
        out.push(v[i]);
        i = i + 1;
    }
    out
}

/// Split text into lines.
pub fn split_lines(s: &Vec<char>) -> (r: Vec<Vec<char>>)
    ensures
        views(r@) == lines_spec(s@),
{
    let mut lines: Vec<Vec<char>> = Vec::new();
    let mut start: usize = 0;
    let mut i: usize = 0;
    while i < s.len()
        invariant
            start <= i <= s@.len(),
            views(lines@) == lines_scan(s@.subrange(0, i as int)).0,
            s@.subrange(start as int, i as int) == lines_scan(s@.subrange(0, i as int)).1,
        decreases s.len() - i,
    {
        let ghost pre = s@.subrange(0, i as int);
        let ghost cur = s@.subrange(0, i + 1);
        assert(cur.drop_last() == pre);
        if s[i] == '\n' {
            let end: usize = if i > start && s[i - 1] == '\r' { i - 1 } else { i };
            let line = copy_chars(s, start, end);
            proof {
                let part = s@.subrange(start as int, i as int);
                if i > start && s@[i - 1] == '\r' {
                    assert(part.drop_last() == s@.subrange(start as int, end as int));
                }
                assert(line@ == strip_cr(part));
            }
            lines.push(line);
            proof {
                assert(views(lines@) == views(lines@.drop_last()).push(line@));
            }
            start = i + 1;
        } else {
            assert(s@.subrange(start as int, i + 1) == s@.subrange(start as int, i as int).push(s@[i as int]));
        }
        i = i + 1;
    }
    assert(s@.subrange(0, s@.len() as int) == s@);
    if start < s.len() {
        let line = copy_chars(s, start, s.len());
        lines.push(line);
        assert(views(lines@) == views(lines@.drop_last()).push(line@));
    }
    lines
}

/// `s` without leading and trailing white space.
pub open spec fn trimmed(s: Seq<char>, r: Seq<char>) -> bool {
    exists|a: int, b: int|
        #![trigger s.subrange(a, b)]
        0 <= a <= b <= s.len() && r == s.subrange(a, b) && blank(s.subrange(0, a)) && blank(s.subrange(b, s.len() as int)) && (a < b ==> (
        !white(s[a]) && !white(s[b - 1])))
}

/// Drop leading and trailing white space from `v[from..]`.
pub(crate) fn trim_from(v: &Vec<char>, from: usize) -> (r: Vec<char>)
    requires
        from <= v@.len(),
    ensures
        trimmed(v@.subrange(from as int, v@.len() as int), r@),
{
    let ghost s = v@.subrange(from as int, v@.len() as int);
    let n = v.len();
    let mut a: usize = from;
    while a < n && white_char(v[a])
        invariant
            from <= a <= n,
            n == v@.len(),
            forall|k: int| from <= k < a ==> white(#[trigger] v@[k]),
        decreases n - a,
    {
        a = a + 1;
    }
    let mut b: usize = n;
    while b > a && white_char(v[b - 1])
        invariant
            a <= b <= n,
            n == v@.len(),
            forall|k: int| b <= k < n ==> white(#[trigger] v@[k]),
        decreases b,
    {
        b = b - 1;
    }
    let r = copy_chars(v, a, b);
    proof {
        let (ra, rb) = (a - from, b - from);
        assert(r@ == s.subrange(ra as int, rb as int));
        assert forall|k: int| 0 <= k < s.subrange(0, ra as int).len() implies white(#[trigger] s.subrange(0, ra as int)[k]) by {
            assert(s.subrange(0, ra as int)[k] == v@[from + k]);
        }
        assert forall|k: int| 0 <= k < s.subrange(rb as int, s.len() as int).len() implies white(
            #[trigger] s.subrange(rb as int, s.len() as int)[k],
        ) by {
            assert(s.subrange(rb as int, s.len() as int)[k] == v@[b + k]);
        }
        if ra < rb {
            assert(s[ra as int] == v@[a as int]);
            assert(s[rb - 1] == v@[b - 1]);
        }
        assert(blank(s.subrange(0, ra as int)));
        assert(blank(s.subrange(rb as int, s.len() as int)));
        assert(trimmed(s, r@));
    }
    r
}

/// A `#` line holding a letter after the `#` names the level; a `#` line of
/// bricks is a map row.
pub fn is_name_line(line: &Vec<char>) -> (r: bool)
    requires
        line@.len() >= 1,
    ensures
        r == exists|k: int| 1 <= k < line@.len() && letter(#[trigger] line@[k]),
{
    let mut k: usize = 1;
    while k < line.len()
        invariant
            1 <= k <= line@.len(),
            forall|j: int| 1 <= j < k ==> !letter(#[trigger] line@[j]),
        decreases line.len() - k,
    {
        if is_letter(line[k]) {
            return true;
        }
        k = k + 1;
    }
    false
}

/// Read the `x,y` pairs of a hidden-ladder line after its `@ ` prefix:
/// white-space separated tokens with exactly one comma between two numbers;
/// other tokens are skipped.
fn parse_pairs(line: &Vec<char>, out: &mut Vec<(usize, usize)>)
    requires
        line@.len() >= 2,
    ensures
        final(out)@.len() >= old(out)@.len(),
        final(out)@.subrange(0, old(out)@.len() as int) == old(out)@,
{
    let n = line.len();
    let mut i: usize = 2;
    while i < n
        invariant
            2 <= i <= n,
            n == line@.len(),
            out@.len() >= old(out)@.len(),
            out@.subrange(0, old(out)@.len() as int) == old(out)@,
        decreases n - i,
    {
        if white_char(line[i]) {
            i = i + 1;
            continue;
        }
        let start = i;
        let mut commas: usize = 0;
        let mut comma_at: usize = i;
        while i < n && !white_char(line[i])
            invariant
                start <= i <= n,
                n == line@.len(),
                start <= comma_at <= i,
                commas <= i - start,
                commas > 0 ==> comma_at < i,
            decreases n - i,
        {
            if line[i] == ',' {
                commas = commas + 1;
                comma_at = i;
            }
            i = i + 1;
        }
        if commas == 1 {
            let left = copy_chars(line, start, comma_at);
            let right = copy_chars(line, comma_at + 1, i);
            match (parse_decimal(&left), parse_decimal(&right)) {
                (Some(x), Some(y)) => {
                    let ghost before = out@;
                    out.push((x, y));
                    assert(out@.subrange(0, old(out)@.len() as int) == before.subrange(0, old(out)@.len() as int));
                },
                _ => {},
            }
        }
    }
}

/// The text without its leading and trailing white space.
pub open spec fn trim_spec(s: Seq<char>) -> Seq<char> {
    choose|r: Seq<char>| trimmed(s, r)
}

/// A name line: `#` followed by text holding a letter.
pub open spec fn names_level(l: Seq<char>) -> bool {
    l.len() >= 1 && l[0] == '#' && exists|k: int| 1 <= k < l.len() && letter(#[trigger] l[k])
}

/// A hidden-ladder line: it starts with `@ `.
pub open spec fn lists_ladders(l: Seq<char>) -> bool {
    l.len() >= 2 && l[0] == '@' && l[1] == ' '
}

/// Reading the first `n` lines: the level name so far and the map rows so
/// far. Only the first name line (while the name is still empty) names the
/// level; other lines that are neither name nor ladder lines are rows.
pub open spec fn level_scan(lines: Seq<Seq<char>>, n: int) -> (Seq<char>, Seq<Seq<char>>)
    decreases n,
{
    if n <= 0 {
        (Seq::empty(), Seq::empty())
    } else {
        let p = level_scan(lines, n - 1);
        let l = lines[n - 1];
        if p.0.len() == 0 && names_level(l) {
            (trim_spec(l.subrange(1, l.len() as int)), p.1)
        } else if lists_ladders(l) {
            p
        } else {
            (p.0, p.1.push(l))
        }
    }
}

/// Rows without the blank rows at the end.
pub open spec fn drop_blank_tail(rows: Seq<Seq<char>>) -> Seq<Seq<char>>
    decreases rows.len(),
{
    if rows.len() > 0 && blank(rows.last()) {
        drop_blank_tail(rows.drop_last())
    } else {
        rows
    }
}

/// Length of the longest of the first `k` rows.
pub open spec fn widest(rows: Seq<Seq<char>>, k: int) -> int
    decreases k,
{
    if k <= 0 {
        0
    } else {
        let w = widest(rows, k - 1);
        if rows[k - 1].len() > w { rows[k - 1].len() as int } else { w }
    }
}

/// A row padded with spaces to `width`.
pub open spec fn padded(r: Seq<char>, width: int) -> Seq<char> {
    r + Seq::new((width - r.len()) as nat, |i: int| ' ')
}

proof fn lemma_widest_bounds(rows: Seq<Seq<char>>, k: int)
    requires
        0 <= k <= rows.len(),
    ensures
        forall|j: int| 0 <= j < k ==> (#[trigger] rows[j]).len() <= widest(rows, k),
        widest(rows, k) >= 0,
    decreases k,
{
    if k > 0 {
        lemma_widest_bounds(rows, k - 1);
    }
}

/// Read one level from its lines.
pub fn parse_level_lines(lines: &Vec<Vec<char>>) -> (r: Option<LevelDef>)
    ensures
        ({
            let scan = level_scan(views(lines@), lines@.len() as int);
            let kept = drop_blank_tail(scan.1);
            &&& r is None <==> kept.len() == 0
            &&& r matches Some(d) ==> {
                &&& d.name@ == (if scan.0.len() == 0 { "Unnamed Node"@ } else { scan.0 })
                &&& d.rows@.len() == kept.len()
                &&& forall|i: int| 0 <= i < kept.len() ==> (#[trigger] d.rows@[i])@ == padded(kept[i], widest(kept, kept.len() as int))
                &&& !blank(d.rows@.last()@)
            }
        }),
{
    let ghost ls = views(lines@);
    let mut name: Vec<char> = Vec::new();
    let mut rows: Vec<Vec<char>> = Vec::new();
    let mut extra: Vec<(usize, usize)> = Vec::new();
    let mut i: usize = 0;
    while i < lines.len()
        invariant
            i <= lines@.len(),
            ls == views(lines@),
            (name@, views(rows@)) == level_scan(ls, i as int),
        decreases lines.len() - i,
    {
        let line = &lines[i];
        assert(ls[i as int] == line@);
        if line.len() >= 1 && line[0] == '#' && name.len() == 0 && is_name_line(line) {
            name = trim_from(line, 1);
            proof {
                lemma_trimmed_unique(line@.subrange(1, line@.len() as int), name@);
            }
        } else if line.len() >= 2 && line[0] == '@' && line[1] == ' ' {
            parse_pairs(line, &mut extra);
        } else {
            let copy = copy_chars(line, 0, line.len());
            assert(copy@ == line@);
            rows.push(copy);
            assert(views(rows@) == views(rows@.drop_last()).push(copy@));
        }
        i = i + 1;
    }
    let ghost all_rows = views(rows@);
    while rows.len() > 0 && all_space(&rows[rows.len() - 1])
        invariant
            drop_blank_tail(views(rows@)) == drop_blank_tail(all_rows),
        decreases rows@.len(),
    {
        let ghost before = views(rows@);
        rows.pop();
        assert(views(rows@) == before.drop_last());
    }
    let ghost kept = views(rows@);
    assert(kept == drop_blank_tail(all_rows));
    if rows.len() == 0 {
        return None;
    }
    let mut width: usize = 0;
    let mut k: usize = 0;
    while k < rows.len()
        invariant
            k <= rows@.len(),
            kept == views(rows@),
            width == widest(kept, k as int),
        decreases rows.len() - k,
    {
        if rows[k].len() > width {
            width = rows[k].len();
        }
        k = k + 1;
    }
    proof {
        lemma_widest_bounds(kept, kept.len() as int);
    }
    let count = rows.len();
    let mut out: Vec<String> = Vec::new();
    let mut k: usize = 0;
    while k < count
        invariant
            k <= count,
            count == rows@.len(),
            count > 0,
            kept == views(rows@),
            !blank(kept[count - 1]),
            width == widest(kept, count as int),
            forall|j: int| 0 <= j < count ==> (#[trigger] kept[j]).len() <= width,
            out@.len() == k,
            forall|j: int| 0 <= j < k ==> (#[trigger] out@[j])@ == padded(kept[j], width as int),
        decreases count - k,
    {
        let mut row = copy_chars(&rows[k], 0, rows[k].len());
        let ghost orig = row@;
        assert(orig == kept[k as int]);
        while row.len() < width
            invariant
                orig.len() <= row@.len() <= width,
                row@ == orig + Seq::new((row@.len() - orig.len()) as nat, |i: int| ' '),
            decreases width - row@.len(),
        {
            let ghost before = row@;
            row.push(' ');
            assert(row@ =~= orig + Seq::new((row@.len() - orig.len()) as nat, |i: int| ' '));
        }
        assert(row@ == padded(orig, width as int));
        out.push(string_of(&row));
        k = k + 1;
    }
    proof {
        let last = kept[count - 1];
        let j = choose|j: int| 0 <= j < last.len() && !white(#[trigger] last[j]);
        assert(out@[count - 1]@[j] == last[j]);
    }
    let name_text = if name.len() == 0 { String::from_str("Unnamed Node") } else { string_of(&name) };
    proof {
        reveal_strlit("Unnamed Node");
    }
    Some(LevelDef { name: name_text, rows: out, extra_hidden_ladders: extra })
}

/// Every character of the line is white space.
fn all_space(v: &Vec<char>) -> (r: bool)
    ensures
        r == blank(v@),
{
    let mut k: usize = 0;
    while k < v.len()
        invariant
            k <= v@.len(),
            forall|j: int| 0 <= j < k ==> white(#[trigger] v@[j]),
        decreases v.len() - k,
    {
        if !white_char(v[k]) {
            return false;
        }
        k = k + 1;
    }
    true
}

/// Read one level from its text.
pub fn parse_level_file(content: &str) -> (r: Option<LevelDef>)
    ensures
        ({
            let scan = level_scan(lines_spec(content@), lines_spec(content@).len() as int);
            let kept = drop_blank_tail(scan.1);
            &&& r is None <==> kept.len() == 0
            &&& r matches Some(d) ==> {
                &&& d.name@ == (if scan.0.len() == 0 { "Unnamed Node"@ } else { scan.0 })
                &&& d.rows@.len() == kept.len()
                &&& forall|i: int| 0 <= i < kept.len() ==> (#[trigger] d.rows@[i])@ == padded(kept[i], widest(kept, kept.len() as int))
            }
        }),
{
    let cs = chars_of(content);
    let lines = split_lines(&cs);
    parse_level_lines(&lines)
}

/// The line, trimmed, is exactly `---`.
fn is_separator(line: &Vec<char>) -> (r: bool)
    ensures
        r == (exists|t: Seq<char>| trimmed(line@, t) && t == seq!['-', '-', '-']),
{
    let t = trim_from(line, 0);
    assert(line@.subrange(0, line@.len() as int) == line@);
    proof {
        lemma_trimmed_unique(line@, t@);
    }
    let r = t.len() == 3 && t[0] == '-' && t[1] == '-' && t[2] == '-';
    proof {
        if r {
            assert(t@ =~= seq!['-', '-', '-']);
        }
    }
    r
}

proof fn lemma_trimmed_unique(s: Seq<char>, r: Seq<char>)
    requires
        trimmed(s, r),
    ensures
        forall|t: Seq<char>| trimmed(s, t) ==> t == r,
{
    assert forall|t: Seq<char>| trimmed(s, t) implies t == r by {
        let (a, b) = choose|a: int, b: int|
            0 <= a <= b <= s.len() && r == s.subrange(a, b) && blank(s.subrange(0, a)) && blank(s.subrange(b, s.len() as int)) && (a < b
                ==> (!white(s[a]) && !white(s[b - 1])));
        let (c, d) = choose|c: int, d: int|
            0 <= c <= d <= s.len() && t == s.subrange(c, d) && blank(s.subrange(0, c)) && blank(s.subrange(d, s.len() as int)) && (c < d
                ==> (!white(s[c]) && !white(s[d - 1])));
        if a < b && c < d {
            if a < c {
                assert(s.subrange(0, c)[a] == s[a]);
            }
            if c < a {
                assert(s.subrange(0, a)[c] == s[c]);
            }
            if b < d {
                assert(s.subrange(b, s.len() as int)[d - 1 - b] == s[d - 1]);
            }
            if d < b {
                assert(s.subrange(d, s.len() as int)[b - 1 - d] == s[b - 1]);
            }
        } else if a < b {
            if c <= a {
                assert(s.subrange(c, s.len() as int)[a - c] == s[a]);
            } else {
                assert(s.subrange(0, c)[a] == s[a]);
            }
        } else if c < d {
            if a <= c {
                assert(s.subrange(a, s.len() as int)[c - a] == s[c]);
            } else {
                assert(s.subrange(0, a)[c] == s[c]);
            }
        }
        assert(t =~= r);
    }
}

/// Read every level of a pack: each level's lines follow a `---` line;
/// lines before the first `---` are the pack's header.
pub fn parse_pack_levels(content: &str) -> (r: Vec<LevelDef>)
    ensures
        forall|i: int| 0 <= i < r@.len() ==> (#[trigger] r@[i]).rows@.len() > 0 && r@[i].name@.len() > 0,
{
    proof {
        reveal_strlit("Unnamed Node");
    }
    let cs = chars_of(content);
    let lines = split_lines(&cs);
    let mut levels: Vec<LevelDef> = Vec::new();
    let mut section: Vec<Vec<char>> = Vec::new();
    let mut in_levels = false;
    let mut i: usize = 0;
    while i < lines.len()
        invariant
            i <= lines@.len(),
            forall|k: int| 0 <= k < levels@.len() ==> (#[trigger] levels@[k]).rows@.len() > 0 && levels@[k].name@.len() > 0,
            "Unnamed Node"@.len() > 0,
        decreases lines.len() - i,
    {
        let line = &lines[i];
        if is_separator(line) {
            if in_levels && section.len() > 0 {
                match parse_level_lines(&section) {
                    Some(d) => levels.push(d),
                    None => {},
                }
            }
            section = Vec::new();
            in_levels = true;
        } else if in_levels {
            section.push(copy_chars(line, 0, line.len()));
        }
        i = i + 1;
    }
    if section.len() > 0 {
        match parse_level_lines(&section) {
            Some(d) => levels.push(d),
            None => {},
        }
    }
    levels
}

pub(crate) fn starts_with(v: &Vec<char>, p: &str) -> (r: bool)
    ensures
        r == (p@.len() <= v@.len() && v@.subrange(0, p@.len() as int) == p@),
{
    let n = p.unicode_len();
    if n > v.len() {
        return false;
    }
    let mut i: usize = 0;
    while i < n
        invariant
            i <= n,
            n == p@.len(),
            n <= v@.len(),
            forall|k: int| 0 <= k < i ==> v@[k] == p@[k],
        decreases n - i,
    {
        if v[i] != p.get_char(i) {
            assert(v@.subrange(0, n as int)[i as int] == v@[i as int]);
            return false;
        }
        i = i + 1;
    }
    assert(v@.subrange(0, n as int) =~= p@);
    true
}

/// Read a pack's header: the first `##` line names it (else
/// `fallback_name`), `## Author:` and `## Description:` lines describe it, and
/// the header ends at the first `---` or other `#` line. The level count is
/// the number of `---` lines, at least one.
pub fn parse_pack_info(content: &str, fallback_name: &str, path: &str) -> (r: PackInfo)
    ensures
        r.level_count >= 1,
        r.path@ == path@,
        r.name@.len() == 0 ==> r.name@ == fallback_name@,
{
    let cs = chars_of(content);
    let lines = split_lines(&cs);
    let mut name: Vec<char> = Vec::new();
    let mut author: Vec<char> = Vec::new();
    let mut description: Vec<char> = Vec::new();
    let mut i: usize = 0;
    while i < lines.len()
        invariant
            i <= lines@.len(),
        decreases lines.len() - i,
    {
        let t = trim_from(&lines[i], 0);
        if starts_with(&t, "## Author:") {
            proof {
                reveal_strlit("## Author:");
            }
            author = trim_from(&t, 10);
        } else if starts_with(&t, "## Description:") {
            proof {
                reveal_strlit("## Description:");
            }
            description = trim_from(&t, 15);
        } else if starts_with(&t, "##") {
            proof {
                reveal_strlit("##");
            }
            if name.len() == 0 {
                name = trim_from(&t, 2);
            }
        } else if is_separator(&t) || starts_with(&t, "#") {
            break;
        }
        i = i + 1;
    }
    let mut count: usize = 0;
    let mut i: usize = 0;
    while i < lines.len()
        invariant
            i <= lines@.len(),
            count <= i,
        decreases lines.len() - i,
    {
        if is_separator(&lines[i]) {
            count = count + 1;
        }
        i = i + 1;
    }
    let level_count = if count > 1 { count } else { 1 };
    let name_text = if name.len() == 0 { String::from_str(fallback_name) } else { string_of(&name) };
    PackInfo {
        name: name_text,
        author: string_of(&author),
        description: string_of(&description),
        level_count,
        path: String::from_str(path),
    }
}

} // verus!
