//! The place of a station, from the prefix of its callsign: a table of
//! prefixes, each with a line of data, is turned into patterns, and the
//! pattern that matches the most of a callsign gives the place.

use crate::text::{
    find, find_from, lemma_ascii_is_boundary, lemma_chars_of, lemma_find_from, substring,
    trim_start, trimmed,
};
use regex::Regex;
use vstd::prelude::*;
use vstd::string::*;
use vstd::utf8::*;

verus! {

/// The end of a line.
pub const NEWLINE: u8 = 0x0a;

/// `|`, which separates the parts of a line.
pub const BAR: u8 = 0x7c;

/// ` `, which separates the prefixes of a line.
pub const SPACE: u8 = 0x20;

/// A compiled pattern of the `regex` crate. Nothing is known of a value of
/// it but that a pattern was compiled to it.
#[verifier::external_type_specification]
#[verifier::external_body]
pub struct ExRegex(Regex);

/// `Regex::new`: compiles a pattern, or refuses it; the error is handed on
/// as the text that the crate gives it.
#[verifier::external_body]
fn compile(pattern: &str) -> Result<Regex, String> {
    match Regex::new(pattern) {
        Ok(compiled) => Ok(compiled),
        Err(e) => Err(e.to_string()),
    }
}

/// `Regex::shortest_match`: where in `text` the engine saw that the pattern
/// matches, as a count of bytes from the start, if it matches at all. The
/// crate leaves open which of the possible ends it reports; the contract
/// claims only that it lies in the text.
#[verifier::external_body]
fn shortest_match(pattern: &Regex, text: &str) -> (r: Option<usize>)
    ensures
        r matches Some(end) ==> end <= text.spec_bytes().len(),
{
    pattern.shortest_match(text)
}

/// What stands in a pattern for one character of a prefix: `#` is any
/// digit, `%` is any character, and every other character is itself.
pub open spec fn pattern_part(c: char) -> Seq<char> {
    if c == '#' {
        seq!['\\', 'd']
    } else if c == '%' {
        seq!['.']
    } else {
        seq![c]
    }
}

/// What stands in a pattern for the first `n` characters of a prefix.
pub open spec fn pattern_parts(prefix: Seq<char>, n: int) -> Seq<char>
    decreases n,
{
    if n <= 0 {
        Seq::empty()
    } else {
        pattern_parts(prefix, n - 1) + pattern_part(prefix[n - 1])
    }
}

/// The pattern of a prefix: it matches at the start of a callsign only.
pub open spec fn pattern_of(prefix: Seq<char>) -> Seq<char> {
    seq!['^'] + pattern_parts(prefix, prefix.len() as int)
}

/// Writes the pattern of a prefix.
pub fn pattern_for(prefix: &str) -> (pattern: String)
    ensures
        pattern@ == pattern_of(prefix@),
{
    proof {
        reveal_strlit("^");
    }
    let n: usize = prefix.unicode_len();
    let mut pattern = String::from_str("^");
    let mut i: usize = 0;
    assert(pattern@ =~= seq!['^'] + pattern_parts(prefix@, 0));
    while i < n
        invariant
            n == prefix@.len(),
            i <= n,
            pattern@ == seq!['^'] + pattern_parts(prefix@, i as int),
        decreases n - i,
    {
        let c = prefix.get_char(i);
        proof {
            reveal_strlit("\\d");
            reveal_strlit(".");
        }
        if c == '#' {
            pattern.append("\\d");
            assert("\\d"@ =~= seq!['\\', 'd']);
        } else if c == '%' {
            pattern.append(".");
            assert("."@ =~= seq!['.']);
        } else {
            let one = prefix.substring_char(i, i + 1);
            assert(one@ =~= seq![c]);
            pattern.append(one);
        }
        assert(pattern@ =~= seq!['^'] + pattern_parts(prefix@, i + 1));
        i = i + 1;
    }
    pattern
}

/// The words of `text` from `from` on: the runs of bytes between spaces
/// that are not empty, in their order.
pub open spec fn words_from(text: Seq<u8>, from: int) -> Seq<Seq<u8>>
    decreases text.len() + 1 - from,
    via words_from_ends
{
    if from < 0 || from >= text.len() {
        Seq::empty()
    } else {
        let end = find_from(text, SPACE, from);
        if end > from {
            seq![text.subrange(from, end)] + words_from(text, end + 1)
        } else {
            words_from(text, end + 1)
        }
    }
}

#[via_fn]
proof fn words_from_ends(text: Seq<u8>, from: int) {
    if 0 <= from < text.len() {
        lemma_find_from(text, SPACE, from);
    }
}

/// What a line of the table holds.
pub enum Line {
    /// Nothing: the line is empty or white space.
    Blank,
    /// No `|`, which a line that is not blank must have.
    Broken,
    /// Prefixes, and after the first `|` the data that they stand for.
    Prefixes(Seq<Seq<u8>>, Seq<u8>),
}

/// What `line` holds.
pub open spec fn line_of(line: Seq<u8>) -> Line {
    if trimmed(line).len() == 0 {
        Line::Blank
    } else {
        let bar = find_from(line, BAR, 0);
        if bar == line.len() {
            Line::Broken
        } else {
            Line::Prefixes(
                words_from(line.subrange(0, bar), 0),
                line.subrange(bar + 1, line.len() as int),
            )
        }
    }
}

/// A prefix of the table with its data.
pub struct Rule {
    pub prefix: Seq<u8>,
    pub data: Seq<u8>,
}

/// The rules that a run of prefixes with the same data gives.
pub open spec fn rules_for(prefixes: Seq<Seq<u8>>, data: Seq<u8>) -> Seq<Rule> {
    Seq::new(prefixes.len(), |i: int| Rule { prefix: prefixes[i], data })
}

/// The rules of the lines of `table` from `from` on, in their order, or
/// `None` where one of the lines is broken.
pub open spec fn rules_from(table: Seq<u8>, from: int) -> Option<Seq<Rule>>
    decreases table.len() - from,
    via rules_from_ends
{
    if from < 0 || from > table.len() {
        Some(Seq::empty())
    } else {
        let end = find_from(table, NEWLINE, from);
        let rest = if end < table.len() {
            rules_from(table, end + 1)
        } else {
            Some(Seq::empty())
        };
        match line_of(table.subrange(from, end)) {
            Line::Broken => None,
            Line::Blank => rest,
            Line::Prefixes(prefixes, data) => match rest {
                None => None,
                Some(more) => Some(rules_for(prefixes, data) + more),
            },
        }
    }
}

#[via_fn]
proof fn rules_from_ends(table: Seq<u8>, from: int) {
    if 0 <= from <= table.len() {
        lemma_find_from(table, NEWLINE, from);
    }
}

/// A prefix of the table as a pattern, with its data.
pub struct Entry<'a> {
    prefix: &'a str,
    data: &'a str,
    pattern: Regex,
}

impl<'a> View for Entry<'a> {
    type V = Rule;

    closed spec fn view(&self) -> Rule {
        Rule { prefix: self.prefix.spec_bytes(), data: self.data.spec_bytes() }
    }
}

impl<'a> Entry<'a> {
    /// The data that the prefix stands for.
    pub fn data(&self) -> (data: &'a str)
        ensures
            data.spec_bytes() == self@.data,
    {
        self.data
    }

    /// The prefix as the table writes it.
    pub fn prefix(&self) -> (prefix: &'a str)
        ensures
            prefix.spec_bytes() == self@.prefix,
    {
        self.prefix
    }
}

/// Why a table was refused.
#[derive(Debug)]
pub enum TableError {
    /// A line that is not blank has no `|`.
    NoData,
    /// A prefix gives a pattern that cannot be compiled.
    Pattern(String),
}

/// The rules that a list of entries stands for.
pub open spec fn rules_of(entries: Seq<Entry<'_>>) -> Seq<Rule> {
    Seq::new(entries.len(), |i: int| entries[i]@)
}

/// Adds the entries of the prefixes in `prefixes` to `entries`, each with
/// `data`, compiling the patterns on the way; the first that is refused ends
/// the work. What has been added by then, and when nothing can fail: `pushed`.
fn push_prefixes<'a>(entries: &mut Vec<Entry<'a>>, prefixes: &'a str, data: &'a str) -> (r:
    Result<(), String>)
    ensures
        words_from(prefixes.spec_bytes(), 0).len() == 0 ==> r is Ok,
        pushed(old(entries)@, final(entries)@, prefixes.spec_bytes(), data.spec_bytes(), r is Ok),
{
    let bytes = prefixes.as_bytes();
    let ghost text = prefixes.spec_bytes();
    let ghost start = rules_of(entries@);
    let ghost mut done: Seq<Seq<u8>> = Seq::empty();
    let mut from: usize = 0;
    proof {
        lemma_chars_of(prefixes);
        is_char_boundary_start_end_of_seq(text);
        assert(start + rules_for(done, data.spec_bytes()) =~= start);
    }
    while from < bytes.len()
        invariant
            bytes@ == text,
            text == prefixes.spec_bytes(),
            valid_utf8(text),
            is_char_boundary(text, text.len() as int),
            from <= text.len(),
            is_char_boundary(text, from as int),
            words_from(text, 0) == done + words_from(text, from as int),
            rules_of(entries@) == start + rules_for(done, data.spec_bytes()),
            start == rules_of(old(entries)@),
        decreases text.len() - from,
    {
        let end: usize = find(bytes, SPACE, from);
        proof {
            lemma_find_from(text, SPACE, from as int);
            if end < text.len() {
                lemma_ascii_is_boundary(text, end as int);
            }
        }
        if end > from {
            let prefix = substring(prefixes, from, end);
            let pattern = pattern_for(prefix);
            let compiled = match compile(pattern.as_str()) {
                Ok(compiled) => compiled,
                Err(e) => {
                    assert(words_from(text, 0).take(done.len() as int) =~= done);
                    return Err(e);
                },
            };
            let ghost before = rules_of(entries@);
            entries.push(Entry { prefix, data, pattern: compiled });
            proof {
                let word = text.subrange(from as int, end as int);
                assert(done + (seq![word] + words_from(text, end + 1)) =~= done.push(word)
                    + words_from(text, end + 1));
                assert(rules_of(entries@) =~= before.push(
                    Rule { prefix: word, data: data.spec_bytes() },
                ));
                assert(before.push(Rule { prefix: word, data: data.spec_bytes() }) =~= start
                    + rules_for(done.push(word), data.spec_bytes()));
                done = done.push(word);
            }
        }
        proof {
            assert(words_from(text, text.len() as int) =~= Seq::<Seq<u8>>::empty());
            assert(words_from(text, text.len() as int + 1) =~= Seq::<Seq<u8>>::empty());
        }
        from = if end < bytes.len() {
            end + 1
        } else {
            end
        };
    }
    proof {
        assert(words_from(text, from as int) =~= Seq::<Seq<u8>>::empty());
        assert(done + Seq::<Seq<u8>>::empty() =~= done);
    }
    Ok(())
}

/// Reads a table of prefixes: one entry for each prefix, in the order of
/// the table, unless a line is broken. Where a pattern is refused, that is
/// the error.
pub fn parse_prefix_data<'a>(table: &'a str) -> (r: Result<Vec<Entry<'a>>, TableError>)
    ensures
        match r {
            Ok(entries) => rules_from(table.spec_bytes(), 0) == Some(rules_of(entries@)),
            Err(TableError::NoData) => rules_from(table.spec_bytes(), 0) is None,
            Err(TableError::Pattern(_)) => true,
        },
{
    let bytes = table.as_bytes();
    let ghost text = table.spec_bytes();
    let mut entries: Vec<Entry<'a>> = Vec::new();
    let mut from: usize = 0;
    let mut more: bool = true;
    proof {
        lemma_chars_of(table);
        is_char_boundary_start_end_of_seq(text);
        assert(rules_of(entries@) =~= Seq::<Rule>::empty());
    }
    while more
        invariant
            bytes@ == text,
            text == table.spec_bytes(),
            valid_utf8(text),
            is_char_boundary(text, text.len() as int),
            from <= text.len(),
            is_char_boundary(text, from as int),
            more ==> rules_from(text, 0) == match rules_from(text, from as int) {
                Some(rest) => Some(rules_of(entries@) + rest),
                None => None,
            },
            !more ==> rules_from(text, 0) == Some(rules_of(entries@)),
        decreases text.len() - from + if more { 1int } else { 0int },
    {
        let end: usize = find(bytes, NEWLINE, from);
        proof {
            lemma_find_from(text, NEWLINE, from as int);
            if end < text.len() {
                lemma_ascii_is_boundary(text, end as int);
            }
        }
        let line = substring(table, from, end);
        let ghost before = rules_of(entries@);
        if trim_start(line).as_bytes().len() > 0 {
            let line_bytes = line.as_bytes();
            let bar: usize = find(line_bytes, BAR, 0);
            if bar == line_bytes.len() {
                return Err(TableError::NoData);
            }
            proof {
                lemma_chars_of(line);
                is_char_boundary_start_end_of_seq(line.spec_bytes());
                lemma_find_from(line.spec_bytes(), BAR, 0);
                lemma_ascii_is_boundary(line.spec_bytes(), bar as int);
            }
            let prefixes = substring(line, 0, bar);
            let data = substring(line, bar + 1, line_bytes.len());
            match push_prefixes(&mut entries, prefixes, data) {
                Ok(()) => {},
                Err(e) => {
                    return Err(TableError::Pattern(e));
                },
            }
            proof {
                let here = rules_for(words_from(prefixes.spec_bytes(), 0), data.spec_bytes());
                let rest = if end < text.len() {
                    rules_from(text, end + 1)
                } else {
                    Some(Seq::<Rule>::empty())
                };
                if rest is Some {
                    assert(before + (here + rest->0) =~= (before + here) + rest->0);
                }
            }
        }
        if end < bytes.len() {
            from = end + 1;
        } else {
            proof {
                assert(rules_of(entries@) + Seq::<Rule>::empty() =~= rules_of(entries@));
            }
            more = false;
        }
    }
    Ok(entries)
}

/// Whether `at` is the best of the matches: it is a match, no match is
/// longer, and every match before it is shorter.
pub open spec fn is_best(ends: Seq<Option<usize>>, at: int) -> bool {
    &&& 0 <= at < ends.len()
    &&& ends[at] is Some
    &&& forall|j: int| 0 <= j < ends.len() && ends[j] is Some ==> ends[j]->0 <= ends[at]->0
    &&& forall|j: int| 0 <= j < at && ends[j] is Some ==> ends[j]->0 < ends[at]->0
}

/// The best of the matches: the longest, and among the longest the first.
/// `None` where nothing matched.
pub fn best_match(ends: &Vec<Option<usize>>) -> (best: Option<usize>)
    ensures
        match best {
            Some(at) => is_best(ends@, at as int),
            None => forall|j: int| 0 <= j < ends@.len() ==> ends@[j] is None,
        },
{
    let mut best: Option<usize> = None;
    let mut longest: usize = 0;
    let mut i: usize = 0;
    while i < ends.len()
        invariant
            i <= ends@.len(),
            match best {
                Some(at) => at < i && is_best(ends@.take(i as int), at as int) && ends@[at as int]
                    == Some(longest),
                None => forall|j: int| 0 <= j < i ==> ends@[j] is None,
            },
        decreases ends@.len() - i,
    {
        match ends[i] {
            Some(length) => {
                if best.is_none() || length > longest {
                    best = Some(i);
                    longest = length;
                }
            },
            None => {},
        }
        i = i + 1;
    }
    assert(ends@.take(i as int) =~= ends@);
    best
}

/// The data of the entry whose pattern matches the most of `callsign`, the
/// first of them where several match as much. Which patterns match, and how
/// much, the `regex` crate decides.
pub fn lookup<'a>(table: &Vec<Entry<'a>>, callsign: &str) -> (found: Option<&'a str>)
    ensures
        found matches Some(data) ==> exists|i: int|
            0 <= i < table@.len() && data.spec_bytes() == (#[trigger] table@[i])@.data,
{
    let mut ends: Vec<Option<usize>> = Vec::with_capacity(table.len());
    let mut i: usize = 0;
    while i < table.len()
        invariant
            i <= table@.len(),
            ends@.len() == i,
        decreases table@.len() - i,
    {
        ends.push(shortest_match(&table[i].pattern, callsign));
        i = i + 1;
    }
    match best_match(&ends) {
        Some(at) => Some(table[at].data),
        None => None,
    }
}

/// The part of `text` with the number `index`, counted from 0, of the
/// parts that `|` separates, and `None` where there are fewer.
pub open spec fn part_of(text: Seq<u8>, index: nat, from: int) -> Option<Seq<u8>>
    decreases index,
{
    if from < 0 || from > text.len() {
        None
    } else {
        let end = find_from(text, BAR, from);
        if index == 0 {
            Some(text.subrange(from, end))
        } else if end == text.len() {
            None
        } else {
            part_of(text, (index - 1) as nat, end + 1)
        }
    }
}

/// Takes one of the parts of a line of data that `|` separates.
pub fn part<'a>(text: &'a str, index: usize) -> (r: Option<&'a str>)
    ensures
        match part_of(text.spec_bytes(), index as nat, 0) {
            Some(bytes) => r matches Some(found) && found.spec_bytes() == bytes,
            None => r is None,
        },
{
    let bytes = text.as_bytes();
    let ghost all = text.spec_bytes();
    proof {
        lemma_chars_of(text);
        is_char_boundary_start_end_of_seq(all);
    }
    let mut from: usize = 0;
    let mut left: usize = index;
    loop
        invariant
            bytes@ == all,
            all == text.spec_bytes(),
            valid_utf8(all),
            is_char_boundary(all, all.len() as int),
            from <= all.len(),
            is_char_boundary(all, from as int),
            part_of(all, index as nat, 0) == part_of(all, left as nat, from as int),
        decreases left,
    {
        let end: usize = find(bytes, BAR, from);
        proof {
            lemma_find_from(all, BAR, from as int);
            if end < all.len() {
                lemma_ascii_is_boundary(all, end as int);
            }
        }
        if left == 0 {
            return Some(substring(text, from, end));
        }
        if end == bytes.len() {
            return None;
        }
        from = end + 1;
        left = left - 1;
    }
}

/// A coordinate as the table writes it: a number of degrees, and whether it
/// counts as negative, which is south or west.
#[derive(Debug, Clone, Copy, PartialEq, Eq)]
pub struct Coordinate<'a> {
    /// The number, as text.
    pub degrees: &'a str,
    /// Whether the number is to be taken as negative.
    pub negative: bool,
}

/// What a coordinate holds.
pub struct Degrees {
    pub degrees: Seq<char>,
    pub negative: bool,
}

impl<'a> View for Coordinate<'a> {
    type V = Degrees;

    open spec fn view(&self) -> Degrees {
        Degrees { degrees: self.degrees@, negative: self.negative }
    }
}

/// Why a line of data gives no place.
#[derive(Debug, Clone, Copy, PartialEq, Eq)]
pub enum PlaceError {
    /// The line has no part with this number.
    MissingPart(usize),
    /// A coordinate is empty.
    Empty,
    /// A coordinate ends with this letter, which names no half of the
    /// globe that it could lie in.
    Letter(char),
}

/// The coordinate that a text gives: its last character is the letter of
/// the half of the globe, `positive` or `negative`, and what stands before
/// it is the number.
pub open spec fn coordinate_of(text: Seq<char>, positive: char, negative: char) -> Result<
    Degrees,
    PlaceError,
> {
    if text.len() == 0 {
        Err(PlaceError::Empty)
    } else if text.last() == positive {
        Ok(Degrees { degrees: text.drop_last(), negative: false })
    } else if text.last() == negative {
        Ok(Degrees { degrees: text.drop_last(), negative: true })
    } else {
        Err(PlaceError::Letter(text.last()))
    }
}

/// Reads a coordinate.
pub fn coordinate<'a>(text: &'a str, positive: char, negative: char) -> (r: Result<
    Coordinate<'a>,
    PlaceError,
>)
    ensures
        match coordinate_of(text@, positive, negative) {
            Ok(degrees) => r matches Ok(read) && read@ == degrees,
            Err(e) => r == Err::<Coordinate<'a>, PlaceError>(e),
        },
{
    let n: usize = text.unicode_len();
    if n == 0 {
        return Err(PlaceError::Empty);
    }
    let letter = text.get_char(n - 1);
    let degrees = text.substring_char(0, n - 1);
    if letter == positive {
        Ok(Coordinate { degrees, negative: false })
    } else if letter == negative {
        Ok(Coordinate { degrees, negative: true })
    } else {
        Err(PlaceError::Letter(letter))
    }
}

/// The place that a line of data gives: the latitude is part 3, north or
/// south, and the longitude is part 4, east or west.
pub open spec fn place_in(data: Seq<u8>) -> Result<(Degrees, Degrees), PlaceError> {
    match part_of(data, 3, 0) {
        None => Err(PlaceError::MissingPart(3)),
        Some(north) => match coordinate_of(decode_utf8(north), 'N', 'S') {
            Err(e) => Err(e),
            Ok(latitude) => match part_of(data, 4, 0) {
                None => Err(PlaceError::MissingPart(4)),
                Some(east) => match coordinate_of(decode_utf8(east), 'E', 'W') {
                    Err(e) => Err(e),
                    Ok(longitude) => Ok((latitude, longitude)),
                },
            },
        },
    }
}

/// Whether a place that was read is what the data gives.
pub open spec fn same_place(
    read: Result<(Coordinate<'_>, Coordinate<'_>), PlaceError>,
    given: Result<(Degrees, Degrees), PlaceError>,
) -> bool {
    match (read, given) {
        (Ok((latitude, longitude)), Ok((north, east))) => latitude@ == north && longitude@ == east,
        (Err(e), Err(expected)) => e == expected,
        _ => false,
    }
}

/// Reads the place that a line of data gives: latitude, then longitude.
pub fn place<'a>(data: &'a str) -> (r: Result<(Coordinate<'a>, Coordinate<'a>), PlaceError>)
    ensures
        same_place(r, place_in(data.spec_bytes())),
{
    let north = match part(data, 3) {
        Some(north) => north,
        None => {
            return Err(PlaceError::MissingPart(3));
        },
    };
    proof {
        lemma_chars_of(north);
    }
    let latitude = coordinate(north, 'N', 'S')?;
    let east = match part(data, 4) {
        Some(east) => east,
        None => {
            return Err(PlaceError::MissingPart(4));
        },
    };
    proof {
        lemma_chars_of(east);
    }
    let longitude = coordinate(east, 'E', 'W')?;
    Ok((latitude, longitude))
}

/// The place of the station with this callsign: that of the entry whose
/// pattern matches the most of it. `None` where no pattern matches; an error
/// where the data of the entry gives no place.
pub fn get_location_for_callsign<'a>(table: &Vec<Entry<'a>>, callsign: &str) -> (r: Option<
    Result<(Coordinate<'a>, Coordinate<'a>), PlaceError>,
>)
    ensures
        r matches Some(found) ==> exists|i: int|
            0 <= i < table@.len() && same_place(found, place_in((#[trigger] table@[i])@.data)),
{
    match lookup(table, callsign) {
        Some(data) => Some(place(data)),
        None => None,
    }
}

/// What adding the prefixes of `prefixes`, each with `data`, does to a list of
/// entries. Where all patterns were compiled, the rules of all the prefixes
/// stand behind those that were there before, in their order. Where one was
/// refused, the rules of the prefixes before that one do: so there is a
/// prefix, and without one the work cannot fail.
pub open spec fn pushed(
    before: Seq<Entry<'_>>,
    after: Seq<Entry<'_>>,
    prefixes: Seq<u8>,
    data: Seq<u8>,
    all: bool,
) -> bool {
    let words = words_from(prefixes, 0);
    if all {
        rules_of(after) == rules_of(before) + rules_for(words, data)
    } else {
        exists|k: int|
            0 <= k < words.len() && rules_of(after) == rules_of(before) + rules_for(
                #[trigger] words.take(k),
                data,
            )
    }
}

} // verus!
