//! Reading what `git` prints: file statuses, logs, merge bases and file contents.
//! Running `git` is left to the caller, which hands in what it printed
//! (nothing where it failed).

use vstd::prelude::*;
use crate::envelope::{convert_to_utc_rfc3339, iso8601_utc, GitLogEntry, UtcInstant};
use crate::text::{
    ascii_words, chars_of, decode_utf8, split_ascii_words, string_of, trim, trim_chars, trim_end,
    trim_end_chars,
};

verus! {

/// The status letter of one line of `git diff --name-status`.
#[derive(PartialEq, Eq, Structural, Debug, Clone, Copy)]
pub enum FileStatus {
    Added,
    Copied,
    Deleted,
    Modified,
    Renamed,
    TypeChanged,
    Unmerged,
    Unknown,
    BrokenPairing,
}

/// The status that a one-letter code stands for, if any.
pub open spec fn status_of_code(code: Seq<char>) -> Option<FileStatus> {
    if code =~= seq!['A'] {
        Some(FileStatus::Added)
    } else if code =~= seq!['C'] {
        Some(FileStatus::Copied)
    } else if code =~= seq!['D'] {
        Some(FileStatus::Deleted)
    } else if code =~= seq!['M'] {
        Some(FileStatus::Modified)
    } else if code =~= seq!['R'] {
        Some(FileStatus::Renamed)
    } else if code =~= seq!['T'] {
        Some(FileStatus::TypeChanged)
    } else if code =~= seq!['U'] {
        Some(FileStatus::Unmerged)
    } else if code =~= seq!['X'] {
        Some(FileStatus::Unknown)
    } else if code =~= seq!['B'] {
        Some(FileStatus::BrokenPairing)
    } else {
        None
    }
}

impl FileStatus {
    /// Reads a status code given as characters.
    pub fn from_chars(code: &Vec<char>) -> (r: Option<FileStatus>)
        ensures
            r == status_of_code(code@),
    {
        if code.len() != 1 {
            return None;
        }
        let c = code[0];
        assert(code@ =~= seq![c]);
        if c == 'A' {
            Some(FileStatus::Added)
        } else if c == 'C' {
            Some(FileStatus::Copied)
        } else if c == 'D' {
            Some(FileStatus::Deleted)
        } else if c == 'M' {
            Some(FileStatus::Modified)
        } else if c == 'R' {
            Some(FileStatus::Renamed)
        } else if c == 'T' {
            Some(FileStatus::TypeChanged)
        } else if c == 'U' {
            Some(FileStatus::Unmerged)
        } else if c == 'X' {
            Some(FileStatus::Unknown)
        } else if c == 'B' {
            Some(FileStatus::BrokenPairing)
        } else {
            None
        }
    }
}


/// The first line break at or after `i`, or the end.
pub open spec fn next_newline(b: Seq<u8>, i: int) -> int
    decreases b.len() - i,
{
    if i < 0 || i >= b.len() {
        b.len() as int
    } else if b[i] == 10u8 {
        i
    } else {
        next_newline(b, i + 1)
    }
}

/// The next line break lies between `i` and the end, and is a line feed.
pub proof fn lemma_next_newline(b: Seq<u8>, i: int)
    requires
        0 <= i <= b.len(),
    ensures
        i <= next_newline(b, i) <= b.len(),
        next_newline(b, i) < b.len() ==> b[next_newline(b, i)] == 10u8,
    decreases b.len() - i,
{
    if i < b.len() && b[i] != 10u8 {
        lemma_next_newline(b, i + 1);
    }
}

/// A line without the carriage return that ends it, if any.
pub open spec fn without_cr(line: Seq<u8>) -> Seq<u8> {
    if line.len() > 0 && line.last() == 13u8 {
        line.drop_last()
    } else {
        line
    }
}

/// The lines of `b` from position `i` on, as `BufRead::lines` reads them: split at
/// line feeds, without a carriage return before the feed, and without an empty last line.
pub open spec fn lines_from(b: Seq<u8>, i: int) -> Seq<Seq<u8>>
    decreases b.len() - i,
{
    if i < 0 || i >= b.len() {
        Seq::empty()
    } else {
        let j = next_newline(b, i);
        proof {
            lemma_next_newline(b, i);
        }
        if j < b.len() {
            seq![without_cr(b.subrange(i, j))] + lines_from(b, j + 1)
        } else {
            seq![without_cr(b.subrange(i, j))]
        }
    }
}

/// The lines of `b`, undecoded.
pub fn split_lines(b: &Vec<u8>) -> (r: Vec<Vec<u8>>)
    ensures
        r@.len() == lines_from(b@, 0).len(),
        forall|k: int| 0 <= k < r@.len() ==> (#[trigger] r@[k])@ == lines_from(b@, 0)[k],
{
    let mut out: Vec<Vec<u8>> = Vec::new();
    let mut start: usize = 0;
    let ghost done: Seq<Seq<u8>> = Seq::empty();
    while start < b.len()
        invariant
            start <= b.len(),
            out@.len() == done.len(),
            forall|k: int| 0 <= k < out@.len() ==> (#[trigger] out@[k])@ == done[k],
            done + lines_from(b@, start as int) == lines_from(b@, 0),
        decreases b.len() - start,
    {
        let mut j: usize = start;
        while j < b.len() && b[j] != 10u8
            invariant
                start <= j <= b.len(),
                next_newline(b@, start as int) == next_newline(b@, j as int),
            decreases b.len() - j,
        {
            j = j + 1;
        }
        let mut end: usize = j;
        if end > start && b[end - 1] == 13u8 {
            end = end - 1;
        }
        let mut line: Vec<u8> = Vec::new();
        let mut k: usize = start;
        while k < end
            invariant
                start <= k <= end <= b.len(),
                line@ == b@.subrange(start as int, k as int),
            decreases end - k,
        {
            line.push(b[k]);
            k = k + 1;
            assert(line@ =~= b@.subrange(start as int, k as int));
        }
        proof {
            let whole = b@.subrange(start as int, j as int);
            if j > start && b@[j - 1] == 13u8 {
                assert(whole.drop_last() =~= b@.subrange(start as int, end as int));
            }
            assert(line@ == without_cr(whole));
            lemma_next_newline(b@, start as int);
            assert(seq![line@] + lines_from(b@, j + 1) == lines_from(b@, start as int));
            assert((done + seq![line@]) + lines_from(b@, j + 1) =~= done + (seq![line@] + lines_from(b@, j + 1)));
            done = done + seq![line@];
        }
        out.push(line);
        if j < b.len() {
            start = j + 1;
        } else {
            start = j;
        }
    }
    assert(done + lines_from(b@, start as int) =~= done);
    out
}

/// The decoded lines of what a command printed; a line that is not UTF-8 stands as nothing.
pub open spec fn decoded_lines(b: Seq<u8>) -> Seq<Option<Seq<char>>> {
    lines_from(b, 0).map_values(|l: Seq<u8>| if vstd::utf8::valid_utf8(l) {
        Some(vstd::utf8::decode_utf8(l))
    } else {
        None
    })
}

/// The lines of `b`, each decoded, or nothing where a line is not UTF-8.
pub fn read_lines(b: &Vec<u8>) -> (r: Vec<Option<String>>)
    ensures
        r@.len() == decoded_lines(b@).len(),
        forall|k: int| 0 <= k < r@.len() ==> opt_view(#[trigger] r@[k]) == decoded_lines(b@)[k],
{
    let raw = split_lines(b);
    let mut out: Vec<Option<String>> = Vec::new();
    let mut i: usize = 0;
    while i < raw.len()
        invariant
            i <= raw.len(),
            raw@.len() == lines_from(b@, 0).len(),
            forall|k: int| 0 <= k < raw@.len() ==> (#[trigger] raw@[k])@ == lines_from(b@, 0)[k],
            out@.len() == i,
            forall|k: int| 0 <= k < i ==> opt_view(#[trigger] out@[k]) == decoded_lines(b@)[k],
        decreases raw.len() - i,
    {
        let mut line: Vec<u8> = Vec::new();
        let mut k: usize = 0;
        while k < raw[i].len()
            invariant
                i < raw@.len(),
                k <= raw@[i as int]@.len(),
                line@ == raw@[i as int]@.subrange(0, k as int),
            decreases raw@[i as int]@.len() - k,
        {
            line.push(raw[i][k]);
            k = k + 1;
            assert(line@ =~= raw@[i as int]@.subrange(0, k as int));
        }
        assert(line@ =~= raw@[i as int]@);
        out.push(decode_utf8(line));
        i = i + 1;
    }
    out
}

pub open spec fn opt_view(o: Option<String>) -> Option<Seq<char>> {
    match o {
        Some(s) => Some(s@),
        None => None,
    }
}

/// The status and path on one line of `git diff --name-status`, if the line,
/// trimmed, is a known status code and a path, with nothing after them.
pub open spec fn name_status_line(line: Seq<char>) -> Option<(FileStatus, Seq<char>)> {
    let words = ascii_words(trim(line));
    if words.len() == 2 && status_of_code(words[0]) is Some {
        Some((status_of_code(words[0])->0, words[1]))
    } else {
        None
    }
}

/// The entries of the lines from position `i` on; lines that are not entries are left out.
pub open spec fn name_status_from(lines: Seq<Option<Seq<char>>>, i: int) -> Seq<(FileStatus, Seq<char>)>
    decreases lines.len() - i,
{
    if i < 0 || i >= lines.len() {
        Seq::empty()
    } else {
        let rest = name_status_from(lines, i + 1);
        match lines[i] {
            Some(l) => match name_status_line(l) {
                Some(e) => seq![e] + rest,
                None => rest,
            },
            None => rest,
        }
    }
}

/// Whether `r` holds the entries `spec`, in order.
pub open spec fn entries_are(r: Seq<(FileStatus, String)>, spec: Seq<(FileStatus, Seq<char>)>) -> bool {
    r.len() == spec.len() && forall|k: int| 0 <= k < r.len() ==> (#[trigger] r[k]).0 == spec[k].0 && r[k].1@ == spec[k].1
}

fn parse_name_status_line(line: &String) -> (r: Option<(FileStatus, String)>)
    ensures
        r matches Some(e) ==> name_status_line(line@) == Some((e.0, e.1@)),
        r is None ==> name_status_line(line@) is None,
{
    let cs = chars_of(line.as_str());
    let trimmed = trim_chars(&cs);
    let words = split_ascii_words(&trimmed);
    if words.len() != 2 {
        return None;
    }
    match FileStatus::from_chars(&words[0]) {
        Some(status) => Some((status, string_of(&words[1]))),
        None => None,
    }
}

/// The entries of `git diff --name-status` output, given as lines (nothing for a
/// line that could not be read); lines that are not entries are left out.
pub fn parse_name_status(lines: &Vec<Option<String>>) -> (r: Vec<(FileStatus, String)>)
    ensures
        entries_are(r@, name_status_from(lines@.map_values(|o: Option<String>| opt_view(o)), 0)),
{
    let ghost views = lines@.map_values(|o: Option<String>| opt_view(o));
    let mut out: Vec<(FileStatus, String)> = Vec::new();
    let ghost done: Seq<(FileStatus, Seq<char>)> = Seq::empty();
    let mut i: usize = 0;
    while i < lines.len()
        invariant
            i <= lines.len(),
            views == lines@.map_values(|o: Option<String>| opt_view(o)),
            entries_are(out@, done),
            done + name_status_from(views, i as int) == name_status_from(views, 0),
        decreases lines.len() - i,
    {
        let ghost rest = name_status_from(views, i + 1);
        match &lines[i] {
            Some(line) => {
                match parse_name_status_line(line) {
                    Some(e) => {
                        let ghost ev = (e.0, e.1@);
                        out.push(e);
                        proof {
                            assert((done + seq![ev]) + rest =~= done + (seq![ev] + rest));
                            done = done + seq![ev];
                        }
                    },
                    None => {},
                }
            },
            None => {},
        }
        i = i + 1;
    }
    assert(done + name_status_from(views, i as int) =~= done);
    out
}


/// Why a log record could not be read.
#[derive(PartialEq, Eq, Structural, Debug, Clone, Copy)]
pub enum LogLineError {
    /// The output ended inside the record.
    NoMoreLines,
    /// A line of the record could not be decoded.
    BadLine,
    /// A date of the record is not an ISO 8601 date-time.
    BrokenDate,
}

/// How far the body of a commit message is indented in the log format.
pub const MULTILINE_INDENT: usize = 4;

/// One log entry, as values.
pub struct LogEntryModel {
    pub hash: Seq<char>,
    pub parents: Seq<Seq<char>>,
    pub author: Seq<char>,
    pub author_date: (i64, u32),
    pub committer: Seq<char>,
    pub committer_date: (i64, u32),
    pub signed_by_key_id: Option<Seq<char>>,
    pub message: Seq<char>,
}

pub open spec fn entry_model(e: GitLogEntry) -> LogEntryModel {
    LogEntryModel {
        hash: e.hash@,
        parents: e.parents@.map_values(|p: String| p@),
        author: e.author@,
        author_date: (e.author_date.seconds, e.author_date.nanos),
        committer: e.committer@,
        committer_date: (e.committer_date.seconds, e.committer_date.nanos),
        signed_by_key_id: opt_view(e.signed_by_key_id),
        message: e.message@,
    }
}

/// The line at `pos`, and the position after it.
pub open spec fn single_line(ls: Seq<Option<Seq<char>>>, pos: int) -> (Result<Seq<char>, LogLineError>, int) {
    if pos < 0 || pos >= ls.len() {
        (Err(LogLineError::NoMoreLines), pos)
    } else {
        match ls[pos] {
            Some(l) => (Ok(l), pos + 1),
            None => (Err(LogLineError::BadLine), pos + 1),
        }
    }
}

/// The line at `pos`, where an empty line stands for nothing.
pub open spec fn optional_line(ls: Seq<Option<Seq<char>>>, pos: int) -> (Result<Option<Seq<char>>, LogLineError>, int) {
    let (r, p) = single_line(ls, pos);
    (match r {
        Ok(l) => Ok(if l.len() == 0 { None } else { Some(l) }),
        Err(e) => Err(e),
    }, p)
}

/// The lines from `pos` up to an empty line, which is passed over; a line that
/// cannot be decoded ends them too, and is passed over.
pub open spec fn lines_until_empty(ls: Seq<Option<Seq<char>>>, pos: int) -> (Seq<Seq<char>>, int)
    decreases ls.len() - pos,
{
    if pos < 0 || pos >= ls.len() {
        (Seq::empty(), pos)
    } else {
        match ls[pos] {
            Some(l) => if l.len() == 0 {
                (Seq::empty(), pos + 1)
            } else {
                let (rest, p) = lines_until_empty(ls, pos + 1);
                (seq![l] + rest, p)
            },
            None => (Seq::empty(), pos + 1),
        }
    }
}

/// A body line without its indentation.
pub open spec fn dedent(l: Seq<char>) -> Seq<char> {
    if l.len() >= MULTILINE_INDENT {
        l.subrange(MULTILINE_INDENT as int, l.len() as int)
    } else {
        Seq::empty()
    }
}

/// A message with one more line: a line break goes between, unless the message is still empty.
pub open spec fn append_line(message: Seq<char>, line: Seq<char>) -> Seq<char> {
    if message.len() == 0 {
        line
    } else {
        message + seq!['\n'] + line
    }
}

/// The message made of `message` and the dedented lines of `lines`.
pub open spec fn join_body(message: Seq<char>, lines: Seq<Seq<char>>) -> Seq<char>
    decreases lines.len(),
{
    if lines.len() == 0 {
        message
    } else {
        join_body(append_line(message, dedent(lines[0])), lines.drop_first())
    }
}

/// The position of the first `commit` line from `pos` on, if any.
pub open spec fn seek_commit(ls: Seq<Option<Seq<char>>>, pos: int) -> Option<int>
    decreases ls.len() - pos,
{
    if pos < 0 || pos >= ls.len() {
        None
    } else if ls[pos] == Some(seq!['c', 'o', 'm', 'm', 'i', 't']) {
        Some(pos)
    } else {
        seek_commit(ls, pos + 1)
    }
}

/// The date on the line at `pos`.
pub open spec fn date_line(ls: Seq<Option<Seq<char>>>, pos: int) -> (Result<(i64, u32), LogLineError>, int) {
    let (r, p) = single_line(ls, pos);
    (match r {
        Ok(l) => match iso8601_utc(l) {
            Some(d) => Ok(d),
            None => Err(LogLineError::BrokenDate),
        },
        Err(e) => Err(e),
    }, p)
}

/// The record that follows a `commit` line at `k - 1`: hash, parents up to an
/// empty line, author, author date, committer, committer date, signing key
/// (empty when unsigned), and the indented message up to an empty line.
pub open spec fn record_at(ls: Seq<Option<Seq<char>>>, k: int) -> (Result<LogEntryModel, LogLineError>, int) {
    let (hash, p1) = single_line(ls, k);
    let (parents, p2) = lines_until_empty(ls, p1);
    let (author, p3) = single_line(ls, p2);
    let (author_date, p4) = date_line(ls, p3);
    let (committer, p5) = single_line(ls, p4);
    let (committer_date, p6) = date_line(ls, p5);
    let (signed, p7) = optional_line(ls, p6);
    let (body, p8) = lines_until_empty(ls, p7);
    if hash is Err {
        (Err(hash->Err_0), p1)
    } else if author is Err {
        (Err(author->Err_0), p3)
    } else if author_date is Err {
        (Err(author_date->Err_0), p4)
    } else if committer is Err {
        (Err(committer->Err_0), p5)
    } else if committer_date is Err {
        (Err(committer_date->Err_0), p6)
    } else if signed is Err {
        (Err(signed->Err_0), p7)
    } else {
        (Ok(LogEntryModel {
            hash: hash->Ok_0,
            parents,
            author: author->Ok_0,
            author_date: author_date->Ok_0,
            committer: committer->Ok_0,
            committer_date: committer_date->Ok_0,
            signed_by_key_id: signed->Ok_0,
            message: join_body(Seq::empty(), body),
        }), p8)
    }
}

/// The entries of a log from position `pos` on; a record that cannot be read is passed over.
pub open spec fn log_from(ls: Seq<Option<Seq<char>>>, pos: int) -> Seq<LogEntryModel>
    decreases ls.len() - pos,
{
    match seek_commit(ls, pos) {
        None => Seq::empty(),
        Some(k) => {
            let (r, p) = record_at(ls, k + 1);
            proof {
                lemma_seek_commit(ls, pos);
                lemma_record_advances(ls, k + 1);
            }
            if p <= pos {
                Seq::empty()
            } else {
                match r {
                    Ok(e) => seq![e] + log_from(ls, p),
                    Err(_) => log_from(ls, p),
                }
            }
        },
    }
}

/// The position of a `commit` line lies at or after `pos`.
pub proof fn lemma_seek_commit(ls: Seq<Option<Seq<char>>>, pos: int)
    ensures
        seek_commit(ls, pos) matches Some(k) ==> pos <= k < ls.len(),
    decreases ls.len() - pos,
{
    if 0 <= pos < ls.len() && ls[pos] != Some(seq!['c', 'o', 'm', 'm', 'i', 't']) {
        lemma_seek_commit(ls, pos + 1);
    }
}

/// Reading lines up to an empty one never goes back nor past the end.
pub proof fn lemma_until_empty_advances(ls: Seq<Option<Seq<char>>>, pos: int)
    requires
        0 <= pos <= ls.len(),
    ensures
        pos <= lines_until_empty(ls, pos).1 <= ls.len(),
    decreases ls.len() - pos,
{
    if pos < ls.len() {
        if let Some(l) = ls[pos] {
            if l.len() > 0 {
                lemma_until_empty_advances(ls, pos + 1);
            }
        }
    }
}

/// Reading a record never goes back nor past the end.
pub proof fn lemma_record_advances(ls: Seq<Option<Seq<char>>>, k: int)
    requires
        0 <= k <= ls.len(),
    ensures
        k <= record_at(ls, k).1 <= ls.len(),
{
    let (hash, p1) = single_line(ls, k);
    lemma_until_empty_advances(ls, p1);
    let (parents, p2) = lines_until_empty(ls, p1);
    let (author, p3) = single_line(ls, p2);
    let (author_date, p4) = date_line(ls, p3);
    let (committer, p5) = single_line(ls, p4);
    let (committer_date, p6) = date_line(ls, p5);
    let (signed, p7) = optional_line(ls, p6);
    lemma_until_empty_advances(ls, p7);
}


pub open spec fn line_views(lines: Seq<Option<String>>) -> Seq<Option<Seq<char>>> {
    lines.map_values(|o: Option<String>| opt_view(o))
}

/// Whether the strings of `r` are `spec`, in order.
pub open spec fn strings_are(r: Seq<String>, spec: Seq<Seq<char>>) -> bool {
    r.len() == spec.len() && forall|k: int| 0 <= k < r.len() ==> (#[trigger] r[k])@ == spec[k]
}

fn parse_single_line(lines: &Vec<Option<String>>, pos: usize) -> (r: (Result<String, LogLineError>, usize))
    requires
        pos <= lines@.len(),
    ensures
        r.1 == single_line(line_views(lines@), pos as int).1,
        r.0 matches Ok(l) ==> single_line(line_views(lines@), pos as int).0 == Ok::<Seq<char>, LogLineError>(l@),
        r.0 matches Err(e) ==> single_line(line_views(lines@), pos as int).0 == Err::<Seq<char>, LogLineError>(e),
{
    if pos >= lines.len() {
        return (Err(LogLineError::NoMoreLines), pos);
    }
    match &lines[pos] {
        Some(l) => (Ok(l.clone()), pos + 1),
        None => (Err(LogLineError::BadLine), pos + 1),
    }
}

fn parse_single_optional_line(lines: &Vec<Option<String>>, pos: usize) -> (r: (Result<Option<String>, LogLineError>, usize))
    requires
        pos <= lines@.len(),
    ensures
        r.1 == optional_line(line_views(lines@), pos as int).1,
        r.0 matches Ok(l) ==> optional_line(line_views(lines@), pos as int).0 == Ok::<Option<Seq<char>>, LogLineError>(opt_view(l)),
        r.0 matches Err(e) ==> optional_line(line_views(lines@), pos as int).0 == Err::<Option<Seq<char>>, LogLineError>(e),
{
    let (r, p) = parse_single_line(lines, pos);
    match r {
        Ok(l) => if l.as_str().is_empty() {
            (Ok(None), p)
        } else {
            (Ok(Some(l)), p)
        },
        Err(e) => (Err(e), p),
    }
}

fn parse_single_date_line(lines: &Vec<Option<String>>, pos: usize) -> (r: (Result<UtcInstant, LogLineError>, usize))
    requires
        pos <= lines@.len(),
    ensures
        r.1 == date_line(line_views(lines@), pos as int).1,
        r.0 matches Ok(d) ==> date_line(line_views(lines@), pos as int).0 == Ok::<(i64, u32), LogLineError>((d.seconds, d.nanos)),
        r.0 matches Err(e) ==> date_line(line_views(lines@), pos as int).0 == Err::<(i64, u32), LogLineError>(e),
{
    let (r, p) = parse_single_line(lines, pos);
    match r {
        Ok(l) => match convert_to_utc_rfc3339(l.as_str()) {
            Some(d) => (Ok(d), p),
            None => (Err(LogLineError::BrokenDate), p),
        },
        Err(e) => (Err(e), p),
    }
}

fn parse_lines_until_empty(lines: &Vec<Option<String>>, pos: usize) -> (r: (Vec<String>, usize))
    requires
        pos <= lines@.len(),
    ensures
        strings_are(r.0@, lines_until_empty(line_views(lines@), pos as int).0),
        r.1 == lines_until_empty(line_views(lines@), pos as int).1,
{
    let ghost ls = line_views(lines@);
    let mut out: Vec<String> = Vec::new();
    let mut p: usize = pos;
    let ghost done: Seq<Seq<char>> = Seq::empty();
    loop
        invariant
            pos <= p <= lines@.len(),
            ls == line_views(lines@),
            strings_are(out@, done),
            (done + lines_until_empty(ls, p as int).0, lines_until_empty(ls, p as int).1) == lines_until_empty(ls, pos as int),
        decreases lines@.len() - p,
    {
        if p >= lines.len() {
            assert(done + Seq::<Seq<char>>::empty() =~= done);
            return (out, p);
        }
        match &lines[p] {
            Some(l) => {
                if l.as_str().is_empty() {
                    assert(done + Seq::<Seq<char>>::empty() =~= done);
                    return (out, p + 1);
                }
                let ghost rest = lines_until_empty(ls, p + 1).0;
                proof {
                    assert((done + seq![l@]) + rest =~= done + (seq![l@] + rest));
                    done = done + seq![l@];
                }
                out.push(l.clone());
                p = p + 1;
            },
            None => {
                assert(done + Seq::<Seq<char>>::empty() =~= done);
                return (out, p + 1);
            },
        }
    }
}

fn dedent_line(line: &String) -> (r: Vec<char>)
    ensures
        r@ == dedent(line@),
{
    let cs = chars_of(line.as_str());
    if cs.len() >= MULTILINE_INDENT {
        crate::text::sub_chars(&cs, MULTILINE_INDENT, cs.len())
    } else {
        Vec::new()
    }
}

/// Joins the lines of a message body, each without its indentation.
fn join_message(body: &Vec<String>) -> (r: String)
    ensures
        r@ == join_body(Seq::empty(), body@.map_values(|l: String| l@)),
{
    let ghost views = body@.map_values(|l: String| l@);
    let mut message: Vec<char> = Vec::new();
    let mut i: usize = 0;
    assert(views.subrange(0, views.len() as int) =~= views);
    while i < body.len()
        invariant
            i <= body.len(),
            views == body@.map_values(|l: String| l@),
            join_body(Seq::empty(), views) == join_body(message@, views.subrange(i as int, views.len() as int)),
        decreases body.len() - i,
    {
        let d = dedent_line(&body[i]);
        let ghost before = message@;
        if message.len() > 0 {
            message.push('\n');
        }
        let mut k: usize = 0;
        let ghost base = message@;
        while k < d.len()
            invariant
                k <= d.len(),
                message@ == base + d@.subrange(0, k as int),
            decreases d.len() - k,
        {
            message.push(d[k]);
            k = k + 1;
            assert(message@ =~= base + d@.subrange(0, k as int));
        }
        proof {
            assert(d@.subrange(0, d@.len() as int) =~= d@);
            if before.len() > 0 {
                assert(base =~= before + seq!['\n']);
            } else {
                assert(base =~= Seq::<char>::empty());
            }
            assert(message@ =~= append_line(before, dedent(views[i as int])));
            assert(views.subrange(i as int, views.len() as int).drop_first() =~= views.subrange(i + 1, views.len() as int));
        }
        i = i + 1;
    }
    assert(views.subrange(i as int, views.len() as int) =~= Seq::<Seq<char>>::empty());
    string_of(&message)
}

fn is_commit_marker(l: &String) -> (r: bool)
    ensures
        r == (l@ == seq!['c', 'o', 'm', 'm', 'i', 't']),
{
    let cs = chars_of(l.as_str());
    let marker = chars_of("commit");
    proof {
        reveal_strlit("commit");
        assert(marker@ =~= seq!['c', 'o', 'm', 'm', 'i', 't']);
    }
    crate::text::chars_equal(&cs, &marker)
}

/// Reads the record whose hash is on line `k`.
fn parse_record(lines: &Vec<Option<String>>, k: usize) -> (r: (Result<GitLogEntry, LogLineError>, usize))
    requires
        k <= lines@.len(),
    ensures
        r.1 == record_at(line_views(lines@), k as int).1,
        r.0 matches Ok(e) ==> record_at(line_views(lines@), k as int).0 == Ok::<LogEntryModel, LogLineError>(entry_model(e)),
        r.0 matches Err(e) ==> record_at(line_views(lines@), k as int).0 == Err::<LogEntryModel, LogLineError>(e),
{
    let ghost ls = line_views(lines@);
    let (hash, p1) = parse_single_line(lines, k);
    let hash = match hash {
        Ok(h) => h,
        Err(e) => {
            return (Err(e), p1);
        },
    };
    proof { lemma_until_empty_advances(ls, p1 as int); }
    let (parents, p2) = parse_lines_until_empty(lines, p1);
    let (author, p3) = parse_single_line(lines, p2);
    let author = match author {
        Ok(a) => a,
        Err(e) => {
            return (Err(e), p3);
        },
    };
    let (author_date, p4) = parse_single_date_line(lines, p3);
    let author_date = match author_date {
        Ok(d) => d,
        Err(e) => {
            return (Err(e), p4);
        },
    };
    let (committer, p5) = parse_single_line(lines, p4);
    let committer = match committer {
        Ok(c) => c,
        Err(e) => {
            return (Err(e), p5);
        },
    };
    let (committer_date, p6) = parse_single_date_line(lines, p5);
    let committer_date = match committer_date {
        Ok(d) => d,
        Err(e) => {
            return (Err(e), p6);
        },
    };
    let (signed_by_key_id, p7) = parse_single_optional_line(lines, p6);
    let signed_by_key_id = match signed_by_key_id {
        Ok(s) => s,
        Err(e) => {
            return (Err(e), p7);
        },
    };
    proof { lemma_until_empty_advances(ls, p7 as int); }
    let (message, p8) = parse_indented_multiline_string(lines, p7);
    proof {
        assert(parents@.map_values(|p: String| p@) =~= lines_until_empty(ls, p1 as int).0);
    }
    let entry = GitLogEntry { hash, parents, author, author_date, committer, committer_date, signed_by_key_id, message };
    (Ok(entry), p8)
}

/// Reads the next entry of a log from line `pos` on: the lines up to a `commit`
/// line are passed over, and where there is none the log has ended.
fn parse_log_entry(lines: &Vec<Option<String>>, pos: usize) -> (r: (Result<Option<GitLogEntry>, LogLineError>, usize))
    requires
        pos <= lines@.len(),
    ensures
        seek_commit(line_views(lines@), pos as int) is None ==> r.0 matches Ok(None),
        seek_commit(line_views(lines@), pos as int) matches Some(k) ==> {
            let (m, p) = record_at(line_views(lines@), k + 1);
            &&& r.1 == p
            &&& r.0 matches Ok(Some(e)) ==> m == Ok::<LogEntryModel, LogLineError>(entry_model(e))
            &&& r.0 matches Err(e) ==> m == Err::<LogEntryModel, LogLineError>(e)
            &&& !(r.0 matches Ok(None))
        },
{
    let ghost ls = line_views(lines@);
    let mut p: usize = pos;
    while p < lines.len()
        invariant
            pos <= p <= lines@.len(),
            ls == line_views(lines@),
            seek_commit(ls, pos as int) == seek_commit(ls, p as int),
        decreases lines@.len() - p,
    {
        let found = match &lines[p] {
            Some(l) => is_commit_marker(l),
            None => false,
        };
        if found {
            let (r, q) = parse_record(lines, p + 1);
            return match r {
                Ok(e) => (Ok(Some(e)), q),
                Err(e) => (Err(e), q),
            };
        }
        p = p + 1;
    }
    (Ok(None), p)
}

/// The entries of a log printed in the format of `git_log_format`, given as
/// lines; a record that cannot be read is passed over.
pub fn parse_log(lines: &Vec<Option<String>>) -> (r: Vec<GitLogEntry>)
    ensures
        r@.map_values(|e: GitLogEntry| entry_model(e)) == log_from(line_views(lines@), 0),
{
    let ghost ls = line_views(lines@);
    let mut out: Vec<GitLogEntry> = Vec::new();
    let mut pos: usize = 0;
    loop
        invariant
            pos <= lines@.len(),
            ls == line_views(lines@),
            out@.map_values(|e: GitLogEntry| entry_model(e)) + log_from(ls, pos as int) == log_from(ls, 0),
        decreases lines@.len() - pos,
    {
        let ghost before = out@.map_values(|e: GitLogEntry| entry_model(e));
        proof {
            lemma_seek_commit(ls, pos as int);
        }
        let (r, p) = parse_log_entry(lines, pos);
        match r {
            Ok(None) => {
                assert(before + Seq::<LogEntryModel>::empty() =~= before);
                return out;
            },
            _ => {},
        }
        proof {
            let k = seek_commit(ls, pos as int)->0;
            lemma_record_advances(ls, k + 1);
        }
        match r {
            Ok(Some(e)) => {
                let ghost m = entry_model(e);
                out.push(e);
                proof {
                    assert(out@.map_values(|e: GitLogEntry| entry_model(e)) =~= before + seq![m]);
                    assert((before + seq![m]) + log_from(ls, p as int) =~= before + (seq![m] + log_from(ls, p as int)));
                }
            },
            _ => {},
        }
        pos = p;
    }
}


/// The text that a successful command printed; nothing where it failed or
/// printed what is not UTF-8.
pub open spec fn printed_text(output: Option<Seq<u8>>) -> Option<Seq<char>> {
    match output {
        Some(b) => if vstd::utf8::valid_utf8(b) {
            Some(vstd::utf8::decode_utf8(b))
        } else {
            None
        },
        None => None,
    }
}

pub open spec fn bytes_view(output: Option<Vec<u8>>) -> Option<Seq<u8>> {
    match output {
        Some(b) => Some(b@),
        None => None,
    }
}

/// The patch that `git diff old..new` printed (its standard output where it
/// succeeded, nothing where it failed).
pub fn diff(output: Option<Vec<u8>>) -> (r: Option<String>)
    ensures
        opt_view(r) == printed_text(bytes_view(output)),
{
    match output {
        Some(b) => decode_utf8(b),
        None => None,
    }
}

/// The merge base that `git merge-base a b` printed, without surrounding whitespace.
pub fn merge_base(output: Option<Vec<u8>>) -> (r: Option<String>)
    ensures
        opt_view(r) == (match printed_text(bytes_view(output)) {
            Some(t) => Some(trim(t)),
            None => None,
        }),
{
    match diff(output) {
        Some(s) => {
            let cs = chars_of(s.as_str());
            Some(string_of(&trim_chars(&cs)))
        },
        None => None,
    }
}

/// The branch that `git rev-parse --abbrev-ref HEAD` printed, without trailing whitespace.
pub fn get_default_branch(output: Option<Vec<u8>>) -> (r: Option<String>)
    ensures
        opt_view(r) == (match printed_text(bytes_view(output)) {
            Some(t) => Some(trim_end(t)),
            None => None,
        }),
{
    match diff(output) {
        Some(s) => {
            let cs = chars_of(s.as_str());
            Some(string_of(&trim_end_chars(&cs)))
        },
        None => None,
    }
}

/// Why a file of the default branch could not be read.
#[derive(PartialEq, Eq, Debug)]
pub enum ShowFileError {
    /// `git` could not be run, with the system's words.
    Io(String),
    /// The file is not UTF-8.
    InvalidUtf8,
}

/// A file of the default branch, from what `git show HEAD:<file>` printed: an
/// error where `git` could not run, nothing where the file is missing (the
/// command failed), and an error where the file is not UTF-8.
pub fn git_show_file_from_default_branch(output: Result<Option<Vec<u8>>, String>) -> (r: Result<Option<String>, ShowFileError>)
    ensures
        output matches Err(e) ==> r == Err::<Option<String>, ShowFileError>(ShowFileError::Io(e)),
        output matches Ok(None) ==> r matches Ok(None),
        output matches Ok(Some(b)) ==> (if vstd::utf8::valid_utf8(b@) {
            r matches Ok(Some(s)) && s@ == vstd::utf8::decode_utf8(b@)
        } else {
            r == Err::<Option<String>, ShowFileError>(ShowFileError::InvalidUtf8)
        }),
{
    match output {
        Err(e) => Err(ShowFileError::Io(e)),
        Ok(None) => Ok(None),
        Ok(Some(b)) => match decode_utf8(b) {
            Some(s) => Ok(Some(s)),
            None => Err(ShowFileError::InvalidUtf8),
        },
    }
}

/// The file statuses that `git diff --name-status old..new` printed; nothing
/// where it failed.
pub fn diff_name_status(output: Option<Vec<u8>>) -> (r: Vec<(FileStatus, String)>)
    ensures
        output is None ==> r@.len() == 0,
        output matches Some(b) ==> entries_are(r@, name_status_from(decoded_lines(b@), 0)),
{
    match output {
        Some(b) => {
            let lines = read_lines(&b);
            let r = parse_name_status(&lines);
            assert(lines@.map_values(|o: Option<String>| opt_view(o)) =~= decoded_lines(b@));
            r
        },
        None => Vec::new(),
    }
}

/// The entries of the log that `git log` printed in the format of
/// `git_log_format`; nothing where it failed.
pub fn git_log(output: Option<Vec<u8>>) -> (r: Vec<GitLogEntry>)
    ensures
        output is None ==> r@.len() == 0,
        output matches Some(b) ==> r@.map_values(|e: GitLogEntry| entry_model(e)) == log_from(decoded_lines(b@), 0),
{
    match output {
        Some(b) => {
            let lines = read_lines(&b);
            let r = parse_log(&lines);
            assert(line_views(lines@) =~= decoded_lines(b@));
            r
        },
        None => Vec::new(),
    }
}

/// The most recent commits that a log without a base covers.
pub const LOG_LIMIT: u32 = 100;

/// A question for `git`, whose printed answer the functions of this module read.
#[derive(PartialEq, Eq, Debug)]
pub enum GitQuery {
    /// `git diff old..new`, read by `diff`.
    Diff { old: String, new: String },
    /// `git diff --name-status old..new`, read by `diff_name_status`.
    NameStatus { old: String, new: String },
    /// `git log from..to` in the log format, read by `git_log`.
    LogRange { from: String, to: String },
    /// `git log --max-count=limit to` in the log format, read by `git_log`.
    LogLimited { limit: u32, to: String },
}

/// The query for the log of a change: the range from its base, or the most
/// recent commits where it has none.
pub fn git_log_query(base: &Option<String>, new_commit: &String) -> (r: GitQuery)
    ensures
        *base matches Some(b) ==> r == (GitQuery::LogRange { from: b, to: *new_commit }),
        *base is None ==> r == (GitQuery::LogLimited { limit: LOG_LIMIT, to: *new_commit }),
{
    match base {
        Some(b) => git_log_for_range(b, new_commit),
        None => git_log_limited(LOG_LIMIT, new_commit),
    }
}


/// Reads an indented message body from line `pos` up to an empty line, and joins
/// its lines without their indentation.
fn parse_indented_multiline_string(lines: &Vec<Option<String>>, pos: usize) -> (r: (String, usize))
    requires
        pos <= lines@.len(),
    ensures
        r.0@ == join_body(Seq::empty(), lines_until_empty(line_views(lines@), pos as int).0),
        r.1 == lines_until_empty(line_views(lines@), pos as int).1,
{
    let (body, p) = parse_lines_until_empty(lines, pos);
    assert(body@.map_values(|l: String| l@) =~= lines_until_empty(line_views(lines@), pos as int).0);
    (join_message(&body), p)
}

/// The query for the log from `from` (excluded) to `to`.
pub fn git_log_for_range(from: &String, to: &String) -> (r: GitQuery)
    ensures
        r == (GitQuery::LogRange { from: *from, to: *to }),
{
    GitQuery::LogRange { from: from.clone(), to: to.clone() }
}

/// The query for the `limit` most recent commits up to `to`.
pub fn git_log_limited(limit: u32, to: &String) -> (r: GitQuery)
    ensures
        r == (GitQuery::LogLimited { limit, to: *to }),
{
    GitQuery::LogLimited { limit, to: to.clone() }
}

} // verus!
