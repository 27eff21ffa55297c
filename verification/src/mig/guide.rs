//! The rules by which the message structure is read from the text of a
//! message integration guide.
//!
//! A guide is a document of a title page, a table of contents, the message
//! structure, the message diagram, the segment layouts and a change log.
//! The message structure is a table; each of its pages repeats the headers
//! of the table and ends in a footer. The rules tell the lines of the
//! table from those, and join the lines of one entry.
use crate::text::{
    chars_of, has_substring, holds, is_text, occurs_at, push_char, starts_with, trim, trim_start,
    trimmed, trimmed_start, views,
};
use vstd::prelude::*;

verus! {

/// Whether the line `line` belongs to the headers of the table of the
/// message structure: without white space at its start, it starts with
/// `Nachrichtenstruktur` or `Zähler`, or starts with `Status` and holds
/// `MaxWdh`.
pub open spec fn heads_structure(line: Seq<char>) -> bool {
    let l = trimmed_start(line);
    "Nachrichtenstruktur"@.is_prefix_of(l) || "Zähler"@.is_prefix_of(l) || ("Status"@.is_prefix_of(
        l,
    ) && has_substring(l, "MaxWdh"@))
}

/// Whether the line `line` belongs to the footer of a page: without white
/// space around it, it starts with one of the legends of the table, with
/// the title or the version of the guide, or is the one word `Strom`.
pub open spec fn foots_page(line: Seq<char>) -> bool {
    let l = trimmed(line);
    "Zähler ="@.is_prefix_of(l) || "Bez ="@.is_prefix_of(l) || "Nr ="@.is_prefix_of(l)
        || "MaxWdh ="@.is_prefix_of(l) || "EDI@Energy"@.is_prefix_of(l) || "Version"@.is_prefix_of(
        l,
    ) || "UTILMD-"@.is_prefix_of(l) || l == "Strom"@
}

/// Whether the line `line` is a line of the table: neither header nor
/// footer, not a line of the publisher, and not empty.
pub open spec fn relevant(line: Seq<char>) -> bool {
    !heads_structure(line) && !foots_page(line) && !"BDEW"@.is_prefix_of(line) && line.len() != 0
}

/// The message structure that the lines `lines` give: the lines of the
/// table, each without white space at its start. A line that starts with
/// `0` opens an entry and is put on a line of its own; any other goes on,
/// behind a space, where the line before it ended.
pub open spec fn structure(lines: Seq<Seq<char>>) -> Seq<char>
    decreases lines.len(),
{
    if lines.len() == 0 {
        Seq::empty()
    } else {
        let before = structure(lines.drop_last());
        let line = trimmed_start(lines.last());
        if !relevant(line) {
            before
        } else if "0"@.is_prefix_of(line) {
            before.push('\n') + line
        } else {
            before.push(' ') + line
        }
    }
}

/// Whether the line belongs to the headers of the table of the message
/// structure.
pub fn is_part_of_message_structure_header(line: &str) -> (r: bool)
    ensures
        r == heads_structure(line@),
{
    let chars = chars_of(line);
    let line = trim_start(&chars);
    starts_with(&line, "Nachrichtenstruktur") || starts_with(&line, "Zähler") || (starts_with(
        &line,
        "Status",
    ) && holds(&line, "MaxWdh"))
}

/// Whether the line belongs to the footer of a page.
pub fn is_part_of_footer(line: &str) -> (r: bool)
    ensures
        r == foots_page(line@),
{
    let chars = chars_of(line);
    let trimmed_line = trim(&chars);
    starts_with(&trimmed_line, "Zähler =") || starts_with(&trimmed_line, "Bez =") || starts_with(
        &trimmed_line,
        "Nr =",
    ) || starts_with(&trimmed_line, "MaxWdh =") || starts_with(&trimmed_line, "EDI@Energy")
        || starts_with(&trimmed_line, "Version") || starts_with(&trimmed_line, "UTILMD-")
        || is_text(&trimmed_line, "Strom")
}

/// The text of the characters `v`.
fn text_of(v: &Vec<char>) -> (r: String)
    ensures
        r@ == v@,
{
    let mut r = String::new();
    let mut i: usize = 0;
    assert(r@ =~= v@.take(0));
    while i < v.len()
        invariant
            i <= v.len(),
            r@ == v@.take(i as int),
        decreases v.len() - i,
    {
        push_char(&mut r, v[i]);
        assert(r@ =~= v@.take(i + 1));
        i = i + 1;
    }
    assert(v@.take(i as int) =~= v@);
    r
}

/// Joins the lines of the table of the message structure among `lines`,
/// and leaves out the lines of headers and footers.
pub fn message_structure(lines: &Vec<String>) -> (r: String)
    ensures
        r@ == structure(views(lines@)),
{
    let mut result = String::new();
    let mut i: usize = 0;
    assert(views(lines@).take(0) =~= Seq::empty());
    while i < lines.len()
        invariant
            i <= lines.len(),
            result@ == structure(views(lines@).take(i as int)),
        decreases lines.len() - i,
    {
        let ghost before = result@;
        let ghost all = views(lines@);
        assert(all.take(i + 1).drop_last() =~= all.take(i as int));
        assert(all.take(i + 1).last() == lines@[i as int]@);
        let chars = chars_of(lines[i].as_str());
        let line = trim_start(&chars);
        let text = text_of(&line);
        let is_relevant = !is_part_of_message_structure_header(text.as_str())
            && !is_part_of_footer(text.as_str()) && !starts_with(&line, "BDEW") && line.len()
            != 0;
        if is_relevant {
            if starts_with(&line, "0") {
                push_char(&mut result, '\n');
            } else {
                push_char(&mut result, ' ');
            }
            let mut k: usize = 0;
            let ghost opened = result@;
            assert(result@ =~= opened + line@.take(0));
            while k < line.len()
                invariant
                    k <= line.len(),
                    result@ == opened + line@.take(k as int),
                decreases line.len() - k,
            {
                push_char(&mut result, line[k]);
                assert(result@ =~= opened + line@.take(k + 1));
                k = k + 1;
            }
            assert(line@.take(k as int) =~= line@);
        }
        i = i + 1;
    }
    assert(views(lines@).take(i as int) =~= views(lines@));
    result
}

/// The kinds of characters that the reader of a guide skips in one go.
#[derive(Clone, Copy, Debug, PartialEq, Eq, Structural)]
pub enum Class {
    /// A space, a tab, a carriage return or a line feed.
    Gap,
    /// A space or a tab.
    Blank,
    /// A full stop.
    Dot,
    /// A digit from `0` to `9`.
    Digit,
    /// Any character but the line feed.
    InLine,
    /// Any character but the carriage return and the line feed.
    Text,
}

impl Class {
    /// Whether the character `c` is of this kind.
    pub open spec fn holds(self, c: char) -> bool {
        match self {
            Class::Gap => c == ' ' || c == '\t' || c == '\r' || c == '\n',
            Class::Blank => c == ' ' || c == '\t',
            Class::Dot => c == '.',
            Class::Digit => '0' <= c <= '9',
            Class::InLine => c != '\n',
            Class::Text => c != '\r' && c != '\n',
        }
    }

    /// Whether the character `c` is of this kind.
    pub fn has(self, c: char) -> (r: bool)
        ensures
            r == self.holds(c),
    {
        match self {
            Class::Gap => c == ' ' || c == '\t' || c == '\r' || c == '\n',
            Class::Blank => c == ' ' || c == '\t',
            Class::Dot => c == '.',
            Class::Digit => '0' <= c && c <= '9',
            Class::InLine => c != '\n',
            Class::Text => c != '\r' && c != '\n',
        }
    }
}

/// The first offset at or behind `i` that holds no character of the kind
/// `class`.
pub open spec fn after(class: Class, s: Seq<char>, i: int) -> int
    decreases s.len() - i,
{
    if 0 <= i < s.len() && class.holds(s[i]) {
        after(class, s, i + 1)
    } else {
        i
    }
}

/// The offset behind the end of a line that stands at the offset `b`: a
/// line feed, or a carriage return with a line feed.
pub open spec fn line_break(s: Seq<char>, b: int) -> Option<int> {
    if 0 <= b < s.len() && s[b] == '\n' {
        Some(b + 1)
    } else if 0 <= b && b + 1 < s.len() && s[b] == '\r' && s[b + 1] == '\n' {
        Some(b + 2)
    } else {
        None
    }
}

/// The offset behind the heading `name` that stands at the offset `i`:
/// behind any spaces, tabs, carriage returns and line feeds, the name and
/// then the end of a line.
pub open spec fn heading_at(name: Seq<char>, s: Seq<char>, i: int) -> Option<int> {
    let a = after(Class::Gap, s, i);
    if occurs_at(s, name, a) {
        line_break(s, a + name.len())
    } else {
        None
    }
}

/// Where the section `name` starts in the text `input`: the text must hold,
/// behind any spaces, tabs, carriage returns and line feeds at its head,
/// the name and then the end of a line, which is a line feed or a carriage
/// return with a line feed. The section starts behind that.
pub open spec fn section_start(name: Seq<char>, input: Seq<char>) -> Option<usize> {
    match heading_at(name, input, 0) {
        Some(n) => Some(n as usize),
        None => None,
    }
}

/// The offset behind the entry of the message structure in the table of
/// contents that stands at the offset `i`: behind any spaces, tabs,
/// carriage returns and line feeds, the word `Nachrichtenstruktur`, full
/// stops, the number of a page, and the end of a line; spaces and tabs may
/// stand before and behind the full stops.
pub open spec fn contents_entry_at(s: Seq<char>, i: int) -> Option<int> {
    let a = after(Class::Gap, s, i);
    let b = after(Class::Blank, s, a + "Nachrichtenstruktur"@.len());
    let c = after(Class::Dot, s, b);
    let d = after(Class::Blank, s, c);
    let e = after(Class::Digit, s, d);
    if occurs_at(s, "Nachrichtenstruktur"@, a) && b < c && d < e {
        line_break(s, e)
    } else {
        None
    }
}

/// The offset behind the line that starts at the offset `i`: behind the
/// next line feed. The text that ends without a line feed is no line.
pub open spec fn line_at(s: Seq<char>, i: int) -> Option<int> {
    let e = after(Class::InLine, s, i);
    if 0 <= e < s.len() {
        Some(e + 1)
    } else {
        None
    }
}

/// The offset of the first entry of the message structure in the table of
/// contents at the start of a line at or behind the offset `i`, and the
/// offset behind it.
pub open spec fn contents_entry_from(s: Seq<char>, i: int) -> Option<int>
    decreases s.len() - i,
{
    match contents_entry_at(s, i) {
        Some(n) => Some(n),
        None => match line_at(s, i) {
            Some(j) => {
                if i < j <= s.len() {
                    contents_entry_from(s, j)
                } else {
                    None
                }
            },
            None => None,
        },
    }
}

/// The offset behind the first heading `name` at the start of a line at or
/// behind the offset `i`.
pub open spec fn heading_from(name: Seq<char>, s: Seq<char>, i: int) -> Option<int>
    decreases s.len() - i,
{
    match heading_at(name, s, i) {
        Some(n) => Some(n),
        None => match line_at(s, i) {
            Some(j) => {
                if i < j <= s.len() {
                    heading_from(name, s, j)
                } else {
                    None
                }
            },
            None => None,
        },
    }
}

/// The line of a table that starts at the offset `i`: its text, which
/// starts behind spaces and tabs and ends before the end of the line, and
/// the offset behind the end of the line.
pub open spec fn table_line_at(s: Seq<char>, i: int) -> Option<(Seq<char>, int)> {
    let a = after(Class::Blank, s, i);
    let e = after(Class::Text, s, a);
    match line_break(s, e) {
        Some(next) => Some((s.subrange(a, e), next)),
        None => None,
    }
}

/// The lines of the table from the offset `i` up to the heading `name`.
pub open spec fn table_from(name: Seq<char>, s: Seq<char>, i: int) -> Option<Seq<Seq<char>>>
    decreases s.len() - i,
{
    match heading_at(name, s, i) {
        Some(_) => Some(Seq::empty()),
        None => match table_line_at(s, i) {
            Some((line, j)) => {
                if i < j <= s.len() {
                    match table_from(name, s, j) {
                        Some(lines) => Some(seq![line] + lines),
                        None => None,
                    }
                } else {
                    None
                }
            },
            None => None,
        },
    }
}

/// The message structure of the guide with the text `s`: the table between
/// the heading `Nachrichtenstruktur`, which is looked for behind its entry
/// in the table of contents, and the heading `Diagramm`, with its lines
/// joined. A text without these three is no guide.
pub open spec fn guide_structure(s: Seq<char>) -> Option<Seq<char>> {
    match contents_entry_from(s, 0) {
        None => None,
        Some(contents) => match heading_from("Nachrichtenstruktur"@, s, contents) {
            None => None,
            Some(table) => match table_from("Diagramm"@, s, table) {
                None => None,
                Some(lines) => Some(structure(lines)),
            },
        },
    }
}

/// The first offset at or behind `i` that holds no character of the kind
/// `class`.
fn skip(class: Class, input: &[char], i: usize) -> (r: usize)
    requires
        i <= input@.len(),
    ensures
        r == after(class, input@, i as int),
        i <= r <= input@.len(),
{
    let mut at = i;
    while at < input.len() && class.has(input[at])
        invariant
            i <= at <= input@.len(),
            after(class, input@, i as int) == after(class, input@, at as int),
        decreases input@.len() - at,
    {
        at = at + 1;
    }
    at
}

/// The offset behind the end of a line that stands at the offset `b`.
fn end_of_line(input: &[char], b: usize) -> (r: Option<usize>)
    requires
        b <= input@.len(),
    ensures
        r matches Some(n) ==> b < n <= input@.len(),
        (match r {
            Some(n) => Some(n as int),
            None => None,
        }) == line_break(input@, b as int),
{
    if b < input.len() && input[b] == '\n' {
        Some(b + 1)
    } else if b < input.len() && input.len() - b > 1 && input[b] == '\r' && input[b + 1] == '\n' {
        Some(b + 2)
    } else {
        None
    }
}

/// Whether the characters `name` stand in `input` at the offset `a`.
fn stands_at(input: &[char], name: &Vec<char>, a: usize) -> (r: bool)
    requires
        a <= input@.len(),
    ensures
        r == occurs_at(input@, name@, a as int),
        r ==> a + name@.len() <= input@.len() && a + name@.len() <= usize::MAX,
{
    if name.len() > input.len() - a {
        return false;
    }
    let mut k: usize = 0;
    while k < name.len()
        invariant
            k <= name.len(),
            a + name.len() <= input@.len(),
            a + name.len() <= usize::MAX,
            forall|j: int| 0 <= j < k ==> input@[a + j] == name@[j],
        decreases name.len() - k,
    {
        if input[a + k] != name[k] {
            proof {
                let sub = input@.subrange(a as int, a + name.len());
                assert(sub[k as int] == input@[a + k]);
            }
            return false;
        }
        k = k + 1;
    }
    assert(input@.subrange(a as int, a + name.len()) =~= name@);
    true
}

/// The offset behind the heading `name` that stands at the offset `i`.
fn heading(name: &Vec<char>, input: &[char], i: usize) -> (r: Option<usize>)
    requires
        i <= input@.len(),
    ensures
        r matches Some(n) ==> i < n <= input@.len(),
        (match r {
            Some(n) => Some(n as int),
            None => None,
        }) == heading_at(name@, input@, i as int),
{
    let a = skip(Class::Gap, input, i);
    if stands_at(input, name, a) {
        end_of_line(input, a + name.len())
    } else {
        None
    }
}

/// Looks for the heading of the section `section_name` at the head of
/// `input`, and returns the offset at which the section starts.
pub fn start_of(section_name: &str, input: &[char]) -> (r: Option<usize>)
    ensures
        r == section_start(section_name@, input@),
{
    let name = chars_of(section_name);
    heading(&name, input, 0)
}

/// The offset behind the entry of the message structure in the table of
/// contents that stands at the offset `i`.
pub fn start_of_toc(input: &[char], i: usize) -> (r: Option<usize>)
    requires
        i <= input@.len(),
    ensures
        r matches Some(n) ==> i < n <= input@.len(),
        (match r {
            Some(n) => Some(n as int),
            None => None,
        }) == contents_entry_at(input@, i as int),
{
    let name = chars_of("Nachrichtenstruktur");
    let a = skip(Class::Gap, input, i);
    if !stands_at(input, &name, a) {
        return None;
    }
    let b = skip(Class::Blank, input, a + name.len());
    let c = skip(Class::Dot, input, b);
    let d = skip(Class::Blank, input, c);
    let e = skip(Class::Digit, input, d);
    if b < c && d < e {
        end_of_line(input, e)
    } else {
        None
    }
}

/// The offset behind the line that starts at the offset `i`.
pub fn line(input: &[char], i: usize) -> (r: Option<usize>)
    requires
        i <= input@.len(),
    ensures
        r matches Some(n) ==> i < n <= input@.len(),
        (match r {
            Some(n) => Some(n as int),
            None => None,
        }) == line_at(input@, i as int),
{
    let e = skip(Class::InLine, input, i);
    if e < input.len() {
        Some(e + 1)
    } else {
        None
    }
}

/// The characters of `input` from the offset `a` up to the offset `e`, as
/// text.
fn text_between(input: &[char], a: usize, e: usize) -> (r: String)
    requires
        a <= e <= input@.len(),
    ensures
        r@ == input@.subrange(a as int, e as int),
{
    let mut r = String::new();
    let mut i = a;
    assert(r@ =~= input@.subrange(a as int, a as int));
    while i < e
        invariant
            a <= i <= e <= input@.len(),
            r@ == input@.subrange(a as int, i as int),
        decreases e - i,
    {
        push_char(&mut r, input[i]);
        assert(r@ =~= input@.subrange(a as int, i + 1));
        i = i + 1;
    }
    r
}

/// The lines of the table from the offset `i` up to the heading `name`.
fn table(name: &Vec<char>, input: &[char], i: usize) -> (r: Option<Vec<String>>)
    requires
        i <= input@.len(),
    ensures
        (match r {
            Some(lines) => Some(views(lines@)),
            None => None,
        }) == table_from(name@, input@, i as int),
{
    let ghost s = input@;
    let ghost whole = table_from(name@, s, i as int);
    let mut lines: Vec<String> = Vec::new();
    let mut at = i;
    proof {
        match whole {
            Some(others) => {
                assert(views(lines@) + others =~= others);
            },
            None => {},
        }
    }
    loop
        invariant
            s == input@,
            at <= s.len(),
            whole == table_from(name@, s, i as int),
            whole == (match table_from(name@, s, at as int) {
                Some(others) => Some(views(lines@) + others),
                None => None,
            }),
        decreases s.len() - at,
    {
        if heading(name, input, at).is_some() {
            assert(views(lines@) + Seq::<Seq<char>>::empty() =~= views(lines@));
            return Some(lines);
        }
        let a = skip(Class::Blank, input, at);
        let e = skip(Class::Text, input, a);
        let next = match end_of_line(input, e) {
            Some(next) => next,
            None => {
                return None;
            },
        };
        let ghost before = lines@;
        let text = text_between(input, a, e);
        lines.push(text);
        proof {
            assert(views(lines@) =~= views(before) + seq![text@]);
            match table_from(name@, s, next as int) {
                Some(others) => {
                    assert(views(before) + (seq![text@] + others) =~= (views(before) + seq![
                        text@,
                    ]) + others);
                },
                None => {},
            }
        }
        at = next;
    }
}

/// Reads the message structure from the text of a guide.
pub fn mig(input: &[char]) -> (r: Option<String>)
    ensures
        (match r {
            Some(text) => Some(text@),
            None => None,
        }) == guide_structure(input@),
{
    let ghost s = input@;
    let mut at: usize = 0;
    loop
        invariant_except_break
            s == input@,
            at <= s.len(),
            contents_entry_from(s, 0) == contents_entry_from(s, at as int),
        ensures
            at <= s.len(),
            contents_entry_from(s, 0) == Some(at as int),
        decreases s.len() - at,
    {
        match start_of_toc(input, at) {
            Some(n) => {
                at = n;
                break ;
            },
            None => {},
        }
        match line(input, at) {
            Some(n) => {
                at = n;
            },
            None => {
                return None;
            },
        }
    }
    let ghost first = at as int;
    let name = chars_of("Nachrichtenstruktur");
    loop
        invariant_except_break
            at <= s.len(),
            heading_from(name@, s, first) == heading_from(name@, s, at as int),
        invariant
            s == input@,
            name@ == "Nachrichtenstruktur"@,
            contents_entry_from(s, 0) == Some(first),
        ensures
            at <= s.len(),
            heading_from(name@, s, first) == Some(at as int),
        decreases s.len() - at,
    {
        match heading(&name, input, at) {
            Some(n) => {
                at = n;
                break ;
            },
            None => {},
        }
        match line(input, at) {
            Some(n) => {
                at = n;
            },
            None => {
                return None;
            },
        }
    }
    let diagram = chars_of("Diagramm");
    match table(&diagram, input, at) {
        Some(lines) => Some(message_structure(&lines)),
        None => None,
    }
}

/// The offset behind the words `words` that stand at the offset `i`, each
/// behind any spaces and tabs.
pub open spec fn words_at(words: Seq<Seq<char>>, s: Seq<char>, i: int) -> Option<int>
    decreases words.len(),
{
    if words.len() == 0 {
        Some(i)
    } else {
        let a = after(Class::Blank, s, i);
        if occurs_at(s, words[0], a) {
            words_at(words.drop_first(), s, a + words[0].len())
        } else {
            None
        }
    }
}

/// The offset behind the words `words` that stand at the offset `i`, each
/// behind any spaces and tabs.
fn words(list: &Vec<&str>, input: &[char], i: usize) -> (r: Option<usize>)
    requires
        i <= input@.len(),
    ensures
        r matches Some(n) ==> i <= n <= input@.len(),
        (match r {
            Some(n) => Some(n as int),
            None => None,
        }) == words_at(Seq::new(list@.len(), |k: int| list@[k]@), input@, i as int),
{
    let ghost all = Seq::new(list@.len(), |k: int| list@[k]@);
    let mut at = i;
    let mut k: usize = 0;
    assert(all.skip(0) =~= all);
    while k < list.len()
        invariant
            k <= list.len(),
            i <= at <= input@.len(),
            all == Seq::new(list@.len(), |k: int| list@[k]@),
            words_at(all, input@, i as int) == words_at(all.skip(k as int), input@, at as int),
        decreases list.len() - k,
    {
        let word = chars_of(list[k]);
        let a = skip(Class::Blank, input, at);
        proof {
            assert(all.skip(k as int)[0] == word@);
            assert(all.skip(k as int).drop_first() =~= all.skip(k + 1));
        }
        if !stands_at(input, &word, a) {
            return None;
        }
        at = a + word.len();
        k = k + 1;
    }
    Some(at)
}

/// The offset behind the heading of the message structure that stands at
/// the offset `i`.
pub fn start_of_message_structure(input: &[char], i: usize) -> (r: Option<usize>)
    requires
        i <= input@.len(),
    ensures
        (match r {
            Some(n) => Some(n as int),
            None => None,
        }) == heading_at("Nachrichtenstruktur"@, input@, i as int),
{
    heading(&chars_of("Nachrichtenstruktur"), input, i)
}

/// The offset behind the heading of the segment layouts that stands at the
/// offset `i`.
pub fn start_of_segment_layout(input: &[char], i: usize) -> (r: Option<usize>)
    requires
        i <= input@.len(),
    ensures
        (match r {
            Some(n) => Some(n as int),
            None => None,
        }) == heading_at("Segmentlayout"@, input@, i as int),
{
    heading(&chars_of("Segmentlayout"), input, i)
}

/// The offset behind the heading of the message diagram that stands at the
/// offset `i`.
pub fn start_of_diagram(input: &[char], i: usize) -> (r: Option<usize>)
    requires
        i <= input@.len(),
    ensures
        (match r {
            Some(n) => Some(n as int),
            None => None,
        }) == heading_at("Diagramm"@, input@, i as int),
{
    heading(&chars_of("Diagramm"), input, i)
}

/// The offset behind the heading of the change log that stands at the
/// offset `i`.
pub fn start_of_changelog(input: &[char], i: usize) -> (r: Option<usize>)
    requires
        i <= input@.len(),
    ensures
        (match r {
            Some(n) => Some(n as int),
            None => None,
        }) == heading_at("Änderungshistorie"@, input@, i as int),
{
    heading(&chars_of("Änderungshistorie"), input, i)
}

/// The words that head the two halves of a segment layout.
pub open spec fn standard_bdew() -> Seq<Seq<char>> {
    seq!["Standard"@, "BDEW"@]
}

/// The offset behind the line that heads the two halves of a segment
/// layout, which stands at the offset `i`: the words `Standard` and `BDEW`,
/// each behind any spaces and tabs.
pub fn standard_bdew_line(input: &[char], i: usize) -> (r: Option<usize>)
    requires
        i <= input@.len(),
    ensures
        (match r {
            Some(n) => Some(n as int),
            None => None,
        }) == words_at(standard_bdew(), input@, i as int),
{
    let mut all: Vec<&str> = Vec::new();
    all.push("Standard");
    all.push("BDEW");
    assert(Seq::new(all@.len(), |k: int| all@[k]@) =~= standard_bdew());
    words(&all, input, i)
}

/// The headers of the columns of a segment layout.
pub open spec fn column_headers() -> Seq<Seq<char>> {
    seq![
        "Zähler"@,
        "Nr"@,
        "Bez"@,
        "St"@,
        "MaxWdh"@,
        "St"@,
        "MaxWdh"@,
        "Ebene"@,
        "Name"@,
    ]
}

/// The offset behind the headers of the columns of a segment layout, which
/// stand at the offset `i`, each behind any spaces and tabs.
pub fn segment_column_headers(input: &[char], i: usize) -> (r: Option<usize>)
    requires
        i <= input@.len(),
    ensures
        (match r {
            Some(n) => Some(n as int),
            None => None,
        }) == words_at(column_headers(), input@, i as int),
{
    let mut all: Vec<&str> = Vec::new();
    all.push("Zähler");
    all.push("Nr");
    all.push("Bez");
    all.push("St");
    all.push("MaxWdh");
    all.push("St");
    all.push("MaxWdh");
    all.push("Ebene");
    all.push("Name");
    assert(Seq::new(all@.len(), |k: int| all@[k]@) =~= column_headers());
    words(&all, input, i)
}

} // verus!
