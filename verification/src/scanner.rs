//! The diagnostic scanner: recovers, from the text a toolchain printed while
//! it built a crate, the native library search directories that the
//! toolchain named for that crate.
//!
//! The text is read line by line. A line that names the crate's compilation
//! unit opens the crate's section, and the section stays open to the end of
//! the text. Every search flag on a line of the section gives one candidate
//! directory.

use vstd::prelude::*;
use vstd::utf8::{decode_utf8, valid_utf8};
use crate::error::{ErrorView, PipelineError};
use crate::text::{
    chars_of, contains_text, decode, distinct, distinct_strings, has_text, lemma_distinct,
    matches_at, occurs_at, slice_of, string_of, strings, strings_of, texts,
};

verus! {

/// The flag that introduces a native library search directory.
pub open spec fn search_flag() -> Seq<char> {
    seq!['-', 'L', ' ', 'n', 'a', 't', 'i', 'v', 'e', '=']
}

/// What precedes a unit's name where the toolchain starts compiling it.
pub open spec fn unit_flag() -> Seq<char> {
    seq!['-', '-', 'c', 'r', 'a', 't', 'e', '-', 'n', 'a', 'm', 'e', ' ']
}

/// The name under which a crate is compiled: its declared name with every
/// hyphen turned into an underscore.
pub open spec fn normalized_name(name: Seq<char>) -> Seq<char> {
    name.map_values(|c: char| if c == '-' { '_' } else { c })
}

/// The text that marks the start of the crate's compilation unit.
pub open spec fn unit_marker(name: Seq<char>) -> Seq<char> {
    unit_flag() + normalized_name(name)
}

/// Whether a line names the crate's compilation unit.
pub open spec fn names_unit(line: Seq<char>, name: Seq<char>) -> bool {
    contains_text(line, unit_marker(name))
}

/// White space as Unicode defines it.
pub open spec fn is_whitespace(c: char) -> bool {
    let v = c as u32;
    ||| 0x09 <= v <= 0x0D
    ||| v == 0x20
    ||| v == 0x85
    ||| v == 0xA0
    ||| v == 0x1680
    ||| 0x2000 <= v <= 0x200A
    ||| v == 0x2028
    ||| v == 0x2029
    ||| v == 0x202F
    ||| v == 0x205F
    ||| v == 0x3000
}

/// Whether a character ends a directory token: white space or a backquote.
pub open spec fn is_delimiter(c: char) -> bool {
    is_whitespace(c) || c == '`'
}

/// The number of characters from position `i` up to the next line feed or
/// the end of the text.
pub open spec fn line_length(text: Seq<char>, i: int) -> nat
    decreases text.len() - i,
{
    if 0 <= i < text.len() && text[i] != '\n' {
        1 + line_length(text, i + 1)
    } else {
        0
    }
}

/// A line without the carriage return that stood before its line feed.
pub open spec fn without_carriage_return(line: Seq<char>) -> Seq<char> {
    if line.len() > 0 && line.last() == '\r' {
        line.drop_last()
    } else {
        line
    }
}

/// The lines of `text` from position `i` on. A line ends at a line feed; the
/// line feed, and a carriage return directly before it, are not part of the
/// line. Text after the last line feed is a line of its own, kept as it is.
pub open spec fn lines_from(text: Seq<char>, i: int) -> Seq<Seq<char>>
    decreases text.len() - i,
{
    if i < 0 || i >= text.len() {
        Seq::empty()
    } else {
        let end = i + line_length(text, i);
        if end >= text.len() {
            seq![text.subrange(i, text.len() as int)]
        } else {
            seq![without_carriage_return(text.subrange(i, end))] + lines_from(text, end + 1)
        }
    }
}

/// The lines of `text`.
pub open spec fn lines_of(text: Seq<char>) -> Seq<Seq<char>> {
    lines_from(text, 0)
}

/// The number of characters from position `i` up to the end of the token:
/// the next delimiter, the next search flag, or the end of the line.
pub open spec fn token_length(line: Seq<char>, i: int) -> nat
    decreases line.len() - i,
{
    if 0 <= i < line.len() && !is_delimiter(line[i]) && !occurs_at(line, search_flag(), i) {
        1 + token_length(line, i + 1)
    } else {
        0
    }
}

/// The end of the run of double quotes that starts at position `i`.
pub open spec fn quotes_end(s: Seq<char>, i: int) -> int
    decreases s.len() - i,
{
    if 0 <= i < s.len() && s[i] == '"' {
        quotes_end(s, i + 1)
    } else {
        i
    }
}

/// The start of the run of double quotes that ends before position `j`,
/// going back no further than `lo`.
pub open spec fn quotes_start(s: Seq<char>, lo: int, j: int) -> int
    decreases j,
{
    if 0 <= lo < j <= s.len() && s[j - 1] == '"' {
        quotes_start(s, lo, j - 1)
    } else {
        j
    }
}

/// `s` without the double quotes at its start and at its end.
pub open spec fn trim_quotes(s: Seq<char>) -> Seq<char> {
    let lo = quotes_end(s, 0);
    let hi = quotes_start(s, lo, s.len() as int);
    s.subrange(lo, hi)
}

/// The directory token that starts at position `start` of a line.
pub open spec fn token_at(line: Seq<char>, start: int) -> Seq<char> {
    trim_quotes(line.subrange(start, start + token_length(line, start)))
}

/// The directory tokens of a line, from position `from` on: one for each
/// search flag, in order, leaving out the empty ones.
pub open spec fn line_tokens(line: Seq<char>, from: int) -> Seq<Seq<char>>
    decreases line.len() - from,
{
    if from < 0 || from + search_flag().len() > line.len() {
        Seq::empty()
    } else if occurs_at(line, search_flag(), from) {
        let start = from + search_flag().len();
        let token = token_at(line, start);
        let rest = line_tokens(line, start);
        if token.len() > 0 {
            seq![token] + rest
        } else {
            rest
        }
    } else {
        line_tokens(line, from + 1)
    }
}

/// Whether one of the lines names the crate's compilation unit.
pub open spec fn in_section(lines: Seq<Seq<char>>, name: Seq<char>) -> bool {
    exists|i: int| 0 <= i < lines.len() && names_unit(#[trigger] lines[i], name)
}

/// The directory tokens of the crate's section: those of every line from the
/// first one that names the crate's compilation unit on.
pub open spec fn section_tokens(lines: Seq<Seq<char>>, name: Seq<char>) -> Seq<Seq<char>>
    decreases lines.len(),
{
    if lines.len() == 0 {
        Seq::empty()
    } else {
        let before = section_tokens(lines.drop_last(), name);
        if in_section(lines, name) {
            before + line_tokens(lines.last(), 0)
        } else {
            before
        }
    }
}

/// The directory tokens of every line.
pub open spec fn all_tokens(lines: Seq<Seq<char>>) -> Seq<Seq<char>>
    decreases lines.len(),
{
    if lines.len() == 0 {
        Seq::empty()
    } else {
        all_tokens(lines.drop_last()) + line_tokens(lines.last(), 0)
    }
}

/// The directory tokens that one stream of diagnostic text gives for a crate.
pub open spec fn stream_tokens(text: Seq<char>, name: Seq<char>) -> Seq<Seq<char>> {
    section_tokens(lines_of(text), name)
}

/// The candidate directories that the two streams of one toolchain run give
/// for a crate.
pub open spec fn candidate_directories(
    stdout: Seq<char>,
    stderr: Seq<char>,
    name: Seq<char>,
) -> Seq<Seq<char>> {
    distinct(stream_tokens(stdout, name) + stream_tokens(stderr, name))
}

/// What scanning the two streams of one toolchain run gives: the candidate
/// directories, or nothing where a stream is not valid UTF-8.
pub open spec fn scan(stdout: Seq<u8>, stderr: Seq<u8>, name: Seq<char>) -> Option<
    Seq<Seq<char>>,
> {
    if valid_utf8(stdout) && valid_utf8(stderr) {
        Some(candidate_directories(decode_utf8(stdout), decode_utf8(stderr), name))
    } else {
        None
    }
}

/// The search flag as characters.
pub fn search_flag_chars() -> (flag: Vec<char>)
    ensures
        flag@ == search_flag(),
{
    let flag = vec!['-', 'L', ' ', 'n', 'a', 't', 'i', 'v', 'e', '='];
    assert(flag@ =~= search_flag());
    flag
}

/// The name under which a crate is compiled.
pub fn normalize_name(name: &str) -> (normalized: String)
    ensures
        normalized@ == normalized_name(name@),
{
    let chars = chars_of(name);
    let mut out: Vec<char> = Vec::new();
    let mut i: usize = 0;
    while i < chars.len()
        invariant
            i <= chars.len(),
            out@ == normalized_name(chars@).take(i as int),
        decreases chars.len() - i,
    {
        let c = chars[i];
        if c == '-' {
            out.push('_');
        } else {
            out.push(c);
        }
        assert(out@ =~= normalized_name(chars@).take(i + 1));
        i = i + 1;
    }
    assert(normalized_name(chars@).take(chars.len() as int) =~= normalized_name(chars@));
    string_of(&out)
}

/// The marker of the crate's compilation unit, as characters.
pub fn unit_marker_chars(name: &str) -> (marker: Vec<char>)
    ensures
        marker@ == unit_marker(name@),
{
    let mut marker = vec!['-', '-', 'c', 'r', 'a', 't', 'e', '-', 'n', 'a', 'm', 'e', ' '];
    assert(marker@ =~= unit_flag());
    let mut normalized = chars_of(normalize_name(name).as_str());
    marker.append(&mut normalized);
    marker
}

/// Tests whether a character ends a directory token.
pub fn is_delimiter_char(c: char) -> (ends: bool)
    ensures
        ends == is_delimiter(c),
{
    let v: u32 = c as u32;
    (0x09 <= v && v <= 0x0D) || v == 0x20 || v == 0x85 || v == 0xA0 || v == 0x1680 || (0x2000
        <= v && v <= 0x200A) || v == 0x2028 || v == 0x2029 || v == 0x202F || v == 0x205F || v
        == 0x3000 || c == '`'
}

/// Splits a text into its lines.
pub fn split_lines(text: &Vec<char>) -> (lines: Vec<Vec<char>>)
    ensures
        texts(lines@) == lines_of(text@),
{
    let mut lines: Vec<Vec<char>> = Vec::new();
    let mut start: usize = 0;
    while start < text.len()
        invariant
            start <= text.len(),
            lines_of(text@) == texts(lines@) + lines_from(text@, start as int),
        decreases text.len() - start,
    {
        let mut end: usize = start;
        while end < text.len() && text[end] != '\n'
            invariant
                start <= end <= text.len(),
                line_length(text@, start as int) == (end - start) + line_length(text@, end as int),
            decreases text.len() - end,
        {
            end = end + 1;
        }
        assert(start + line_length(text@, start as int) == end);
        let ghost before = texts(lines@);
        if end >= text.len() {
            let line = slice_of(text, start, end);
            lines.push(line);
            assert(texts(lines@) =~= before + seq![text@.subrange(start as int, text.len() as int)]);
            assert(lines_from(text@, text.len() as int) =~= Seq::<Seq<char>>::empty());
            start = end;
        } else {
            let stop: usize = if end > start && text[end - 1] == '\r' {
                (end - 1) as usize
            } else {
                end
            };
            let line = slice_of(text, start, stop);
            assert(line@ =~= without_carriage_return(text@.subrange(start as int, end as int)));
            lines.push(line);
            assert(texts(lines@) =~= before + seq![
                without_carriage_return(text@.subrange(start as int, end as int)),
            ]);
            assert(before + (seq![
                without_carriage_return(text@.subrange(start as int, end as int)),
            ] + lines_from(text@, end + 1)) =~= texts(lines@) + lines_from(text@, end + 1));
            start = end + 1;
        }
    }
    assert(lines_from(text@, start as int) =~= Seq::<Seq<char>>::empty());
    assert(texts(lines@) + Seq::<Seq<char>>::empty() =~= texts(lines@));
    lines
}

/// Reads the directory token that starts at position `start` of a line.
fn read_token(line: &Vec<char>, flag: &Vec<char>, start: usize) -> (token: Vec<char>)
    requires
        start <= line.len(),
        flag@ == search_flag(),
    ensures
        token@ == token_at(line@, start as int),
{
    let mut end: usize = start;
    let mut going = true;
    while going
        invariant
            start <= end <= line.len(),
            flag@ == search_flag(),
            token_length(line@, start as int) == (end - start) + token_length(line@, end as int),
            !going ==> token_length(line@, end as int) == 0,
        decreases line.len() - end + (if going { 1int } else { 0int }),
    {
        if end < line.len() && !is_delimiter_char(line[end]) && !matches_at(line, flag, end) {
            end = end + 1;
        } else {
            going = false;
        }
    }
    let ghost run = line@.subrange(start as int, end as int);
    let mut lo: usize = start;
    while lo < end && line[lo] == '"'
        invariant
            start <= lo <= end <= line.len(),
            run == line@.subrange(start as int, end as int),
            quotes_end(run, 0) == quotes_end(run, lo - start),
        decreases end - lo,
    {
        lo = lo + 1;
    }
    let mut hi: usize = end;
    while hi > lo && line[hi - 1] == '"'
        invariant
            start <= lo <= hi <= end <= line.len(),
            run == line@.subrange(start as int, end as int),
            quotes_start(run, lo - start, run.len() as int) == quotes_start(
                run,
                lo - start,
                hi - start,
            ),
        decreases hi - lo,
    {
        hi = hi - 1;
    }
    assert(quotes_end(run, 0) == lo - start);
    assert(quotes_start(run, lo - start, run.len() as int) == hi - start);
    assert(run.subrange(lo - start, hi - start) =~= line@.subrange(lo as int, hi as int));
    slice_of(line, lo, hi)
}

/// Reads the directory tokens of a line.
fn read_line_tokens(line: &Vec<char>, flag: &Vec<char>) -> (tokens: Vec<Vec<char>>)
    requires
        flag@ == search_flag(),
    ensures
        texts(tokens@) == line_tokens(line@, 0),
{
    let mut tokens: Vec<Vec<char>> = Vec::new();
    let mut from: usize = 0;
    assert(texts(tokens@) =~= Seq::<Seq<char>>::empty());
    while from < line.len() && line.len() - from >= flag.len()
        invariant
            from <= line.len(),
            flag@ == search_flag(),
            line_tokens(line@, 0) == texts(tokens@) + line_tokens(line@, from as int),
        decreases line.len() - from,
    {
        if matches_at(line, flag, from) {
            let start: usize = from + flag.len();
            let token = read_token(line, flag, start);
            let ghost before = texts(tokens@);
            if token.len() > 0 {
                tokens.push(token);
                assert(texts(tokens@) =~= before + seq![token@]);
                assert(before + (seq![token@] + line_tokens(line@, start as int)) =~= texts(
                    tokens@,
                ) + line_tokens(line@, start as int));
            }
            from = start;
        } else {
            from = from + 1;
        }
    }
    assert(line_tokens(line@, from as int) =~= Seq::<Seq<char>>::empty());
    assert(texts(tokens@) + Seq::<Seq<char>>::empty() =~= texts(tokens@));
    tokens
}

/// Reads the directory tokens of the crate's section of one stream.
pub fn read_stream_tokens(text: &Vec<char>, name: &str) -> (tokens: Vec<Vec<char>>)
    ensures
        texts(tokens@) == stream_tokens(text@, name@),
{
    let lines = split_lines(text);
    let marker = unit_marker_chars(name);
    let flag = search_flag_chars();
    let mut tokens: Vec<Vec<char>> = Vec::new();
    let mut active = false;
    let mut i: usize = 0;
    let ghost all = texts(lines@);
    assert(texts(tokens@) =~= Seq::<Seq<char>>::empty());
    while i < lines.len()
        invariant
            i <= lines.len(),
            all == texts(lines@),
            flag@ == search_flag(),
            marker@ == unit_marker(name@),
            active == in_section(all.take(i as int), name@),
            texts(tokens@) == section_tokens(all.take(i as int), name@),
        decreases lines.len() - i,
    {
        let line = &lines[i];
        let ghost was_active = active;
        if !active && has_text(line, &marker) {
            active = true;
        }
        proof {
            let done = all.take(i as int);
            let next = all.take(i + 1);
            assert(next.drop_last() =~= done);
            assert(next.last() == line@);
            if was_active {
                let k = choose|k: int| 0 <= k < done.len() && names_unit(#[trigger] done[k], name@);
                assert(names_unit(next[k], name@));
            } else if active {
                assert(names_unit(next[i as int], name@));
            } else {
                assert forall|k: int| 0 <= k < next.len() implies !names_unit(
                    #[trigger] next[k],
                    name@,
                ) by {
                    if k < i {
                        assert(next[k] == done[k]);
                    }
                }
            }
            assert(active == in_section(next, name@));
        }
        if active {
            let mut found = read_line_tokens(line, &flag);
            let ghost before = texts(tokens@);
            tokens.append(&mut found);
            assert(texts(tokens@) =~= before + line_tokens(line@, 0));
        }
        i = i + 1;
    }
    assert(all.take(lines.len() as int) =~= all);
    tokens
}

/// Scans what one toolchain run printed for the native library search
/// directories of a crate. Both streams are read, the standard output first;
/// each directory is reported once, in the order in which it first occurs.
/// The streams must be valid UTF-8.
pub fn parse_native_libraries(stdout: &[u8], stderr: &[u8], crate_name: &str) -> (found: Result<
    Vec<String>,
    PipelineError,
>)
    ensures
        match scan(stdout@, stderr@, crate_name@) {
            Some(candidates) => found matches Ok(dirs) && strings(dirs@) == candidates,
            None => found matches Err(e) && e@ == ErrorView::UndecodableDiagnostics,
        },
{
    let out = match decode(stdout) {
        Some(text) => text,
        None => {
            return Err(PipelineError::UndecodableDiagnostics);
        },
    };
    let err = match decode(stderr) {
        Some(text) => text,
        None => {
            return Err(PipelineError::UndecodableDiagnostics);
        },
    };
    let mut tokens = read_stream_tokens(&out, crate_name);
    let mut err_tokens = read_stream_tokens(&err, crate_name);
    let ghost out_texts = texts(tokens@);
    let ghost err_texts = texts(err_tokens@);
    tokens.append(&mut err_tokens);
    assert(texts(tokens@) =~= out_texts + err_texts);
    let dirs = distinct_strings(strings_of(&tokens));
    Ok(dirs)
}

/// Lines of which none names the crate's compilation unit give no tokens.
pub proof fn lemma_outside_section_nothing(lines: Seq<Seq<char>>, name: Seq<char>)
    requires
        !in_section(lines, name),
    ensures
        section_tokens(lines, name) == Seq::<Seq<char>>::empty(),
    decreases lines.len(),
{
    if lines.len() > 0 {
        let front = lines.drop_last();
        assert forall|i: int| 0 <= i < front.len() implies !names_unit(#[trigger] front[i], name) by {
            assert(front[i] == lines[i]);
        }
        lemma_outside_section_nothing(front, name);
    }
}

/// Search flags on the lines before the crate's section are ignored: the
/// lines before the first one that names the crate's compilation unit can be
/// left out, whatever they hold.
pub proof fn lemma_flags_before_section_ignored(
    before: Seq<Seq<char>>,
    after: Seq<Seq<char>>,
    name: Seq<char>,
)
    requires
        !in_section(before, name),
    ensures
        section_tokens(before + after, name) == section_tokens(after, name),
    decreases after.len(),
{
    if after.len() == 0 {
        assert(before + after =~= before);
        lemma_outside_section_nothing(before, name);
    } else {
        let all = before + after;
        assert(all.drop_last() =~= before + after.drop_last());
        assert(all.last() == after.last());
        lemma_flags_before_section_ignored(before, after.drop_last(), name);
        if in_section(after, name) {
            let i = choose|i: int| 0 <= i < after.len() && names_unit(#[trigger] after[i], name);
            assert(all[before.len() + i] == after[i]);
            assert(in_section(all, name));
        }
        if in_section(all, name) {
            let i = choose|i: int| 0 <= i < all.len() && names_unit(#[trigger] all[i], name);
            if i < before.len() {
                assert(before[i] == all[i]);
            } else {
                assert(after[i - before.len()] == all[i]);
            }
            assert(in_section(after, name));
        }
    }
}

/// Every search flag inside the crate's section counts: from the line that
/// names the crate's compilation unit on, the tokens of all lines are
/// reported.
pub proof fn lemma_flags_in_section_reported(lines: Seq<Seq<char>>, name: Seq<char>)
    requires
        lines.len() > 0,
        names_unit(lines[0], name),
    ensures
        section_tokens(lines, name) == all_tokens(lines),
    decreases lines.len(),
{
    assert(in_section(lines, name));
    let front = lines.drop_last();
    if lines.len() > 1 {
        assert(front[0] == lines[0]);
        lemma_flags_in_section_reported(front, name);
    } else {
        assert(section_tokens(front, name) == Seq::<Seq<char>>::empty());
        assert(all_tokens(front) == Seq::<Seq<char>>::empty());
    }
    assert(section_tokens(lines, name) == section_tokens(front, name) + line_tokens(
        lines.last(),
        0,
    ));
}

/// Where no search flag stands between two positions of a line, the tokens
/// from the first position on are those from the second on.
pub proof fn lemma_tokens_skip_to_flag(line: Seq<char>, from: int, at: int)
    requires
        0 <= from <= at,
        occurs_at(line, search_flag(), at),
        forall|j: int| from <= j < at ==> !occurs_at(line, search_flag(), j),
    ensures
        line_tokens(line, from) == line_tokens(line, at),
    decreases at - from,
{
    if from < at {
        lemma_tokens_skip_to_flag(line, from + 1, at);
    }
}

/// The token that a well-formed search flag gives is the directory written
/// after it: a run of characters that holds no delimiter and no search
/// flag, that neither starts nor ends with a double quote, and that is
/// followed by a delimiter or by the end of the line.
pub proof fn lemma_token_is_directory(line: Seq<char>, start: int, dir: Seq<char>)
    requires
        occurs_at(line, dir, start),
        start + dir.len() == line.len() || is_delimiter(line[start + dir.len()]),
        forall|i: int|
            0 <= i < dir.len() ==> !is_delimiter(#[trigger] dir[i]) && !occurs_at(
                line,
                search_flag(),
                start + i,
            ),
        dir.len() > 0 ==> dir[0] != '"' && dir.last() != '"',
    ensures
        token_at(line, start) == dir,
{
    lemma_token_length(line, start, dir, 0);
    assert(line.subrange(start, start + dir.len()) == dir);
}

/// The length of the token at the `k`-th character of a directory that is
/// written at position `start` of a line.
pub proof fn lemma_token_length(line: Seq<char>, start: int, dir: Seq<char>, k: int)
    requires
        0 <= k <= dir.len(),
        occurs_at(line, dir, start),
        start + dir.len() == line.len() || is_delimiter(line[start + dir.len()]),
        forall|i: int|
            0 <= i < dir.len() ==> !is_delimiter(#[trigger] dir[i]) && !occurs_at(
                line,
                search_flag(),
                start + i,
            ),
    ensures
        token_length(line, start + k) == dir.len() - k,
    decreases dir.len() - k,
{
    if k < dir.len() {
        assert(line.subrange(start, start + dir.len())[k] == dir[k]);
        assert(line[start + k] == dir[k]);
        lemma_token_length(line, start, dir, k + 1);
    }
}

/// The candidate directories of a toolchain run are the directory tokens of
/// its two streams, and none of them is there twice.
pub proof fn lemma_candidates(stdout: Seq<char>, stderr: Seq<char>, name: Seq<char>)
    ensures
        candidate_directories(stdout, stderr, name).no_duplicates(),
        forall|dir: Seq<char>|
            candidate_directories(stdout, stderr, name).contains(dir) <==> stream_tokens(
                stdout,
                name,
            ).contains(dir) || stream_tokens(stderr, name).contains(dir),
{
    let out = stream_tokens(stdout, name);
    let err = stream_tokens(stderr, name);
    lemma_distinct(out + err);
    assert forall|dir: Seq<char>| (out + err).contains(dir) <==> out.contains(dir) || err.contains(
        dir,
    ) by {
        if out.contains(dir) {
            let i = choose|i: int| 0 <= i < out.len() && out[i] == dir;
            assert((out + err)[i] == dir);
        }
        if err.contains(dir) {
            let i = choose|i: int| 0 <= i < err.len() && err[i] == dir;
            assert((out + err)[out.len() + i] == dir);
        }
        if (out + err).contains(dir) {
            let i = choose|i: int| 0 <= i < (out + err).len() && (out + err)[i] == dir;
            if i < out.len() {
                assert(out[i] == dir);
            } else {
                assert(err[i - out.len()] == dir);
            }
        }
    }
}

/// The length of a line of the second of two texts does not depend on the
/// first.
pub proof fn lemma_line_length_shift(a: Seq<char>, b: Seq<char>, j: int)
    requires
        0 <= j <= b.len(),
    ensures
        line_length(a + b, a.len() + j) == line_length(b, j),
    decreases b.len() - j,
{
    if j < b.len() {
        assert((a + b)[a.len() + j] == b[j]);
        if b[j] != '\n' {
            lemma_line_length_shift(a, b, j + 1);
        }
    }
}

/// The lines of the second of two texts do not depend on the first.
pub proof fn lemma_lines_shift(a: Seq<char>, b: Seq<char>, j: int)
    requires
        0 <= j <= b.len(),
    ensures
        lines_from(a + b, a.len() + j) == lines_from(b, j),
    decreases b.len() - j,
{
    if j < b.len() {
        lemma_line_length_shift(a, b, j);
        let end = j + line_length(b, j);
        lemma_line_length_bound(b, j);
        if end >= b.len() {
            assert((a + b).subrange(a.len() + j, (a + b).len() as int) =~= b.subrange(
                j,
                b.len() as int,
            ));
        } else {
            assert((a + b).subrange(a.len() + j, a.len() + end) =~= b.subrange(j, end));
            lemma_lines_shift(a, b, end + 1);
        }
    }
}

/// A line ends inside its text, and at a line feed unless it is the last.
pub proof fn lemma_line_length_bound(text: Seq<char>, i: int)
    requires
        0 <= i <= text.len(),
    ensures
        i + line_length(text, i) <= text.len(),
        i + line_length(text, i) < text.len() ==> text[i + line_length(text, i)] == '\n',
        forall|k: int| i <= k < i + line_length(text, i) ==> text[k] != '\n',
    decreases text.len() - i,
{
    if i < text.len() && text[i] != '\n' {
        lemma_line_length_bound(text, i + 1);
    }
}

/// The length of a line of the first of two texts does not depend on the
/// second, if the line ends with a line feed.
pub proof fn lemma_line_length_prefix(a: Seq<char>, b: Seq<char>, i: int)
    requires
        0 <= i <= a.len(),
        i + line_length(a, i) < a.len(),
    ensures
        line_length(a + b, i) == line_length(a, i),
    decreases a.len() - i,
{
    assert((a + b)[i] == a[i]);
    if a[i] != '\n' {
        lemma_line_length_prefix(a, b, i + 1);
    }
}

/// The lines of two texts written one after the other are the lines of the
/// first followed by the lines of the second, where the first is empty or
/// ends with a line feed.
pub proof fn lemma_lines_of_concat(a: Seq<char>, b: Seq<char>, i: int)
    requires
        a.len() > 0 ==> a.last() == '\n',
        0 <= i <= a.len(),
    ensures
        lines_from(a + b, i) == lines_from(a, i) + lines_from(b, 0),
    decreases a.len() - i,
{
    if i == a.len() {
        lemma_lines_shift(a, b, 0);
        assert(lines_from(a, i) =~= Seq::<Seq<char>>::empty());
        assert(Seq::<Seq<char>>::empty() + lines_from(b, 0) =~= lines_from(b, 0));
    } else {
        lemma_line_length_bound(a, i);
        let end = i + line_length(a, i);
        if end >= a.len() {
            assert(a[a.len() - 1] == '\n');
        }
        lemma_line_length_prefix(a, b, i);
        assert((a + b).subrange(i, end) =~= a.subrange(i, end));
        lemma_lines_of_concat(a, b, end + 1);
        let first = seq![without_carriage_return(a.subrange(i, end))];
        assert(first + (lines_from(a, end + 1) + lines_from(b, 0)) =~= (first + lines_from(
            a,
            end + 1,
        )) + lines_from(b, 0));
    }
}

/// Search flags in the text before the crate's section are ignored: text
/// that names the crate's compilation unit on none of its lines, and that
/// is empty or ends with a line feed, can be left out from the start of a
/// stream.
pub proof fn lemma_text_before_section_ignored(
    before: Seq<char>,
    rest: Seq<char>,
    name: Seq<char>,
)
    requires
        before.len() > 0 ==> before.last() == '\n',
        !in_section(lines_of(before), name),
    ensures
        stream_tokens(before + rest, name) == stream_tokens(rest, name),
{
    lemma_lines_of_concat(before, rest, 0);
    lemma_flags_before_section_ignored(lines_of(before), lines_of(rest), name);
}

} // verus!
