//! Log pages and downloads: which part of which file a query asks for, and how it is answered.

use crate::http::codec::{header_byte, header_safe, is_header_value, utf8_lossy, utf8_string_lossy};
use crate::http::compress::optional_view;
use crate::identity::optional_text;
use crate::http::dashboard::TEXT_PLAIN_CONTENT_TYPE;
use crate::http::reply::{Message, Reply, ReplyView};
use crate::sequences::{lemma_filter_ends, lemma_filter_step};
use crate::text::{
    all_digits, chars_of, decimal, is_digit, parse_unsigned, same_text, unsigned_number,
};
use vstd::prelude::*;
use vstd::utf8::encode_utf8;

verus! {

/// How many lines a log page holds when the query does not say.
pub const LOG_TAIL_DEFAULT: usize = 200;

/// How many lines a log page holds at most.
pub const LOG_TAIL_MAX: usize = 100_000;

/// Above how many lines the dashboard warns.
pub const LOG_TAIL_WARN_ABOVE: usize = 500;

/// How many archives of a log are looked for.
pub const LOG_ARCHIVE_PROBE_LIMIT: u32 = 64;

/// The streams a service logs to.
#[derive(Debug, Clone, Copy, PartialEq, Eq, Structural)]
pub enum LogStream {
    Stdout,
    Stderr,
}

impl LogStream {
    /// The name of the stream, in characters.
    pub open spec fn wire(self) -> Seq<char> {
        match self {
            LogStream::Stdout => "stdout"@,
            LogStream::Stderr => "stderr"@,
        }
    }

    /// The name of the stream.
    pub fn as_wire(self) -> (name: &'static str)
        ensures
            name@ == self.wire(),
    {
        match self {
            LogStream::Stdout => "stdout",
            LogStream::Stderr => "stderr",
        }
    }
}

/// The stream a query asks for: standard output unless it names another.
pub fn resolve_stream(stream: Option<&str>) -> (resolved: Result<LogStream, Message>)
    ensures
        match optional_view(stream) {
            None => resolved == Ok::<LogStream, Message>(LogStream::Stdout),
            Some(name) => if name.len() == 0 || name == "stdout"@ {
                resolved == Ok::<LogStream, Message>(LogStream::Stdout)
            } else if name == "stderr"@ {
                resolved == Ok::<LogStream, Message>(LogStream::Stderr)
            } else {
                resolved matches Err(refusal) && refusal.says(
                    400,
                    false,
                    "unknown log stream '"@ + name + "', expected stdout or stderr"@,
                )
            },
        },
{
    match stream {
        None => Ok(LogStream::Stdout),
        Some(name) => if name.is_empty() || same_text(name, "stdout") {
            Ok(LogStream::Stdout)
        } else if same_text(name, "stderr") {
            Ok(LogStream::Stderr)
        } else {
            let mut text = "unknown log stream '".to_owned();
            text.append(name);
            text.append("', expected stdout or stderr");
            Err(Message { status: 400, ok: false, message: text })
        },
    }
}

/// A non-negative number written in digits only, at most `limit`; absent or empty is zero.
pub open spec fn plain_number(value: Option<Seq<char>>, limit: u64) -> Option<u64> {
    match value {
        None => Some(0),
        Some(raw) => if raw.len() == 0 {
            Some(0)
        } else if all_digits(raw) {
            match unsigned_number(raw) {
                Some(number) => if number <= limit {
                    Some(number)
                } else {
                    None
                },
                None => None,
            }
        } else {
            None
        },
    }
}

fn parse_plain_number(value: Option<&str>, limit: u64) -> (number: Option<u64>)
    ensures
        number == plain_number(optional_view(value), limit),
{
    let raw = match value {
        None => {
            return Some(0);
        },
        Some(raw) => raw,
    };
    if raw.is_empty() {
        return Some(0);
    }
    let chars = chars_of(raw);
    let mut i: usize = 0;
    while i < chars.len()
        invariant
            i <= chars.len(),
            chars@ == raw@,
            raw@.len() > 0,
            optional_view(value) == Some(raw@),
            forall|j: int| 0 <= j < i ==> is_digit(#[trigger] raw@[j]),
        decreases chars.len() - i,
    {
        if !('0' <= chars[i] && chars[i] <= '9') {
            assert(!is_digit(raw@[i as int]));
            return None;
        }
        i = i + 1;
    }
    match parse_unsigned(raw) {
        Some(number) => if number <= limit {
            Some(number)
        } else {
            None
        },
        None => None,
    }
}

/// The archive a query asks for: the current file unless it names another.
pub fn resolve_archive_index(index: Option<&str>) -> (resolved: Result<u32, Message>)
    ensures
        match plain_number(optional_view(index), u32::MAX as u64) {
            Some(number) => resolved == Ok::<u32, Message>(number as u32),
            None => resolved matches Err(refusal) && refusal.says(
                400,
                false,
                "invalid log archive index"@,
            ),
        },
{
    match parse_plain_number(index, u32::MAX as u64) {
        Some(number) => Ok(number as u32),
        None => Err(Message::refusal(400, "invalid log archive index")),
    }
}

/// How many of the last lines a query skips.
pub fn resolve_line_offset(before: Option<&str>) -> (resolved: Result<usize, Message>)
    ensures
        match plain_number(optional_view(before), usize::MAX as u64) {
            Some(number) => resolved == Ok::<usize, Message>(number as usize),
            None => resolved matches Err(refusal) && refusal.says(400, false, "invalid line offset"@),
        },
{
    match parse_plain_number(before, usize::MAX as u64) {
        Some(number) => Ok(number as usize),
        None => Err(Message::refusal(400, "invalid line offset")),
    }
}

/// A positive line count, or nothing when the value is absent, zero or not a number.
pub open spec fn line_count(value: Option<Seq<char>>) -> Option<usize> {
    match value {
        Some(raw) => match unsigned_number(raw) {
            Some(number) => if 1 <= number <= usize::MAX {
                Some(number as usize)
            } else {
                None
            },
            None => None,
        },
        None => None,
    }
}

/// A positive line count, or nothing when the value is absent, zero or not a number.
pub fn parse_line_count(value: Option<&str>) -> (count: Option<usize>)
    ensures
        count == line_count(optional_view(value)),
{
    match value {
        Some(raw) => match parse_unsigned(raw) {
            Some(number) => if 1 <= number && number <= usize::MAX as u64 {
                Some(number as usize)
            } else {
                None
            },
            None => None,
        },
        None => None,
    }
}

/// How many lines a log page holds: what was asked for, or the default, within the maximum.
pub open spec fn tail_lines(asked: Option<usize>) -> usize {
    let lines = match asked {
        Some(lines) => lines,
        None => LOG_TAIL_DEFAULT,
    };
    if lines <= LOG_TAIL_MAX {
        lines
    } else {
        LOG_TAIL_MAX
    }
}

/// How many lines a log page holds.
pub fn bounded_lines(asked: Option<usize>) -> (lines: usize)
    ensures
        lines == tail_lines(asked),
        lines <= LOG_TAIL_MAX,
        (asked matches Some(n) ==> n >= 1) ==> lines >= 1,
{
    let lines: usize = match asked {
        Some(lines) => lines,
        None => LOG_TAIL_DEFAULT,
    };
    if lines <= LOG_TAIL_MAX {
        lines
    } else {
        LOG_TAIL_MAX
    }
}

/// The values of a log query; absent means not given.
#[derive(Debug, Clone)]
pub struct LogQuery {
    pub stream: Option<String>,
    pub lines: Option<String>,
    pub before: Option<String>,
    pub index: Option<String>,
}

/// Which part of which log file to read.
#[derive(Debug, Clone, Copy, PartialEq, Eq, Structural)]
pub struct LogRequest {
    pub stream: LogStream,
    pub lines: usize,
    pub before: usize,
    pub index: u32,
}

/// A refusal to answer a log request.
#[derive(Debug, PartialEq, Eq)]
pub enum LogRefusal {
    /// A plain text.
    Text(Reply),
    /// A JSON message.
    Message(Message),
}

fn as_slice(value: &Option<String>) -> (slice: Option<&str>)
    ensures
        optional_view(slice) == optional_text(*value),
{
    match value {
        Some(text) => Some(text.as_str()),
        None => None,
    }
}

/// The stream that a query names, if it names one there is.
pub open spec fn stream_of(stream: Option<Seq<char>>) -> Option<LogStream> {
    match stream {
        None => Some(LogStream::Stdout),
        Some(name) => if name.len() == 0 || name == "stdout"@ {
            Some(LogStream::Stdout)
        } else if name == "stderr"@ {
            Some(LogStream::Stderr)
        } else {
            None
        },
    }
}

impl LogQuery {
    /// What the query asks for, if every value in it can be read.
    pub open spec fn request(self) -> Option<LogRequest> {
        let stream = stream_of(optional_text(self.stream));
        let before = plain_number(
            optional_text(self.before),
            usize::MAX as u64,
        );
        let index = plain_number(optional_text(self.index), u32::MAX as u64);
        if stream is Some && before is Some && index is Some {
            Some(
                LogRequest {
                    stream: stream->0,
                    lines: tail_lines(line_count(optional_text(self.lines))),
                    before: before->0 as usize,
                    index: index->0 as u32,
                },
            )
        } else {
            None
        }
    }
}

impl LogQuery {
    /// What is wrong with a query that cannot be read: its stream, then its offset, then its
    /// archive.
    pub open spec fn complaint(self) -> Seq<char> {
        if stream_of(optional_text(self.stream)) is None {
            "unknown log stream '"@ + self.stream->0@ + "', expected stdout or stderr"@
        } else if plain_number(
            optional_text(self.before),
            usize::MAX as u64,
        ) is None {
            "invalid line offset"@
        } else {
            "invalid log archive index"@
        }
    }
}

/// Decides what a log query reads. A service that is not known, a stream there is none of, and
/// values that are not plain numbers are refused, in this order.
pub fn plan_log_read(known: bool, query: &LogQuery) -> (plan: Result<LogRequest, LogRefusal>)
    ensures
        known ==> match query.request() {
            Some(request) => plan == Ok::<LogRequest, LogRefusal>(request),
            None => plan matches Err(LogRefusal::Message(refusal)) && refusal.says(
                400,
                false,
                query.complaint(),
            ),
        },
        !known ==> (plan matches Err(LogRefusal::Text(reply)) && reply@ == ReplyView::text(
            404,
            "service not found"@,
        )),
{
    if !known {
        return Err(LogRefusal::Text(Reply::text(404, "service not found")));
    }
    let stream = match resolve_stream(as_slice(&query.stream)) {
        Ok(stream) => stream,
        Err(refusal) => {
            return Err(LogRefusal::Message(refusal));
        },
    };
    let lines = bounded_lines(parse_line_count(as_slice(&query.lines)));
    let before = match resolve_line_offset(as_slice(&query.before)) {
        Ok(before) => before,
        Err(refusal) => {
            return Err(LogRefusal::Message(refusal));
        },
    };
    let index = match resolve_archive_index(as_slice(&query.index)) {
        Ok(index) => index,
        Err(refusal) => {
            return Err(LogRefusal::Message(refusal));
        },
    };
    Ok(LogRequest { stream, lines, before, index })
}

/// Decides which file a download reads. A service that is not known, a stream there is none of, and
/// an archive that is not a plain number are refused, in this order.
pub fn plan_log_download(known: bool, stream: Option<&str>, index: Option<&str>) -> (plan: Result<
    (LogStream, u32),
    LogRefusal,
>)
    ensures
        !known ==> (plan matches Err(LogRefusal::Text(reply)) && reply@ == ReplyView::text(
            404,
            "service not found"@,
        )),
        known ==> match stream_of(optional_view(stream)) {
            None => plan matches Err(LogRefusal::Message(refusal)) && refusal.says(
                400,
                false,
                "unknown log stream '"@ + optional_view(stream)->0
                    + "', expected stdout or stderr"@,
            ),
            Some(resolved) => match plain_number(optional_view(index), u32::MAX as u64) {
                None => plan matches Err(LogRefusal::Message(refusal)) && refusal.says(
                    400,
                    false,
                    "invalid log archive index"@,
                ),
                Some(number) => plan == Ok::<(LogStream, u32), LogRefusal>(
                    (resolved, number as u32),
                ),
            },
        },
{
    if !known {
        return Err(LogRefusal::Text(Reply::text(404, "service not found")));
    }
    let resolved = match resolve_stream(stream) {
        Ok(resolved) => resolved,
        Err(refusal) => {
            return Err(LogRefusal::Message(refusal));
        },
    };
    match resolve_archive_index(index) {
        Ok(number) => Ok((resolved, number)),
        Err(refusal) => Err(LogRefusal::Message(refusal)),
    }
}

/// Whether a requested file is missing. The current file counts as empty when it is not there; an
/// archive has to exist.
pub fn archive_missing(request: &LogRequest, is_file: bool) -> (refusal: Option<Reply>)
    ensures
        if request.index > 0 && !is_file {
            refusal matches Some(reply) && reply@ == ReplyView::text(404, "log file not found"@)
        } else {
            refusal is None
        },
{
    if request.index > 0 && !is_file {
        Some(Reply::text(404, "log file not found"))
    } else {
        None
    }
}

/// A page of log lines.
#[derive(Debug, PartialEq, Eq)]
pub struct LogPage {
    pub path: String,
    pub stream: &'static str,
    pub index: u32,
    pub before: usize,
    pub lines: Vec<String>,
    /// The size of the lines in bytes.
    pub bytes: u64,
    pub reached_start: bool,
}

/// The size of some lines in bytes.
pub open spec fn total_bytes(lines: Seq<String>) -> nat
    decreases lines.len(),
{
    if lines.len() == 0 {
        0
    } else {
        total_bytes(lines.drop_last()) + encode_utf8(lines.last()@).len()
    }
}

/// The page that answers a log request with the lines that were read. Lines that could not be read
/// are no lines.
pub fn log_page(request: &LogRequest, path: String, read: Option<(Vec<String>, bool)>) -> (page:
    LogPage)
    ensures
        page.path == path,
        page.stream@ == request.stream.wire(),
        page.index == request.index,
        page.before == request.before,
        match read {
            Some(range) => page.lines == range.0 && page.reached_start == range.1,
            None => page.lines@.len() == 0 && !page.reached_start,
        },
        page.bytes == (if total_bytes(page.lines@) <= u64::MAX {
            total_bytes(page.lines@)
        } else {
            u64::MAX as nat
        }),
{
    let (lines, reached_start) = match read {
        Some(range) => range,
        None => (Vec::new(), false),
    };
    let mut bytes: u64 = 0;
    let mut i: usize = 0;
    while i < lines.len()
        invariant
            i <= lines.len(),
            bytes == (if total_bytes(lines@.take(i as int)) <= u64::MAX {
                total_bytes(lines@.take(i as int))
            } else {
                u64::MAX as nat
            }),
        decreases lines.len() - i,
    {
        proof {
            assert(lines@.take(i + 1).drop_last() =~= lines@.take(i as int));
            assert(lines@.take(i + 1).last() == lines@[i as int]);
        }
        let size: usize = lines[i].as_str().as_bytes().len();
        bytes = bytes.saturating_add(size as u64);
        i = i + 1;
    }
    assert(lines@.take(i as int) =~= lines@);
    LogPage {
        path,
        stream: request.stream.as_wire(),
        index: request.index,
        before: request.before,
        lines,
        bytes,
        reached_start,
    }
}

/// The log file of a stream.
pub fn stream_log_path<'a>(stdout_log: &'a str, stderr_log: &'a str, stream: LogStream) -> (path:
    &'a str)
    ensures
        path@ == (match stream {
            LogStream::Stdout => stdout_log@,
            LogStream::Stderr => stderr_log@,
        }),
{
    match stream {
        LogStream::Stdout => stdout_log,
        LogStream::Stderr => stderr_log,
    }
}

/// Log files to look for: those of a stream, by the file they start from, up to a number of
/// archives.
#[derive(Debug, PartialEq, Eq)]
pub struct LogListing {
    pub stream: LogStream,
    pub base: String,
    pub probe_limit: u32,
}

/// What listings look for.
pub open spec fn listing_views(listings: Seq<LogListing>) -> Seq<(LogStream, Seq<char>, u32)> {
    listings.map_values(|listing: LogListing| (listing.stream, listing.base@, listing.probe_limit))
}

/// The log files of a process: those of both streams, unless they share one file.
pub fn serve_log_files(stdout_log: &str, stderr_log: &str) -> (listings: Vec<LogListing>)
    ensures
        listing_views(listings@) == (if stdout_log@ == stderr_log@ {
            seq![(LogStream::Stdout, stdout_log@, LOG_ARCHIVE_PROBE_LIMIT)]
        } else {
            seq![
                (LogStream::Stdout, stdout_log@, LOG_ARCHIVE_PROBE_LIMIT),
                (LogStream::Stderr, stderr_log@, LOG_ARCHIVE_PROBE_LIMIT),
            ]
        }),
{
    let mut listings: Vec<LogListing> = Vec::new();
    listings.push(
        LogListing {
            stream: LogStream::Stdout,
            base: stdout_log.to_owned(),
            probe_limit: LOG_ARCHIVE_PROBE_LIMIT,
        },
    );
    if !same_text(stdout_log, stderr_log) {
        listings.push(
            LogListing {
                stream: LogStream::Stderr,
                base: stderr_log.to_owned(),
                probe_limit: LOG_ARCHIVE_PROBE_LIMIT,
            },
        );
    }
    listings
}

/// Whether a character may stand in a quoted file name of a header: visible ASCII other than the
/// quote and the backslash, space, and tab.
pub open spec fn filename_char(c: char) -> bool {
    ('!' <= c <= '~' && c != '"' && c != '\\') || c == ' ' || c == '\t'
}

/// The characters that may stand in a file name, as a predicate.
pub open spec fn filename_chars() -> spec_fn(char) -> bool {
    |c: char| filename_char(c)
}

/// Filters a file name to the characters that a header accepts.
pub fn sanitize_filename(name: &str) -> (clean: String)
    ensures
        clean@ == name@.filter(filename_chars()),
{
    let chars = chars_of(name);
    let mut clean = String::new();
    let mut i: usize = 0;
    proof {
        lemma_filter_ends(name@, filename_chars());
    }
    while i < chars.len()
        invariant
            i <= chars.len(),
            chars@ == name@,
            clean@ == name@.take(i as int).filter(filename_chars()),
        decreases chars.len() - i,
    {
        proof {
            lemma_filter_step(name@, i as int, filename_chars());
        }
        let c = chars[i];
        if ('!' <= c && c <= '~' && c != '"' && c != '\\') || c == ' ' || c == '\t' {
            clean.push(c);
        }
        i = i + 1;
    }
    clean
}

/// The disposition of a download.
pub open spec fn disposition_text(name: Seq<char>) -> Seq<char> {
    "attachment; filename=\""@ + name.filter(filename_chars()) + "\""@
}

/// The disposition of a download with a sanitised file name.
pub fn content_disposition(name: &str) -> (text: String)
    ensures
        text@ == disposition_text(name@),
        header_safe(text@),
{
    let mut text = "attachment; filename=\"".to_owned();
    text.append(sanitize_filename(name).as_str());
    text.append("\"");
    proof {
        a_disposition_is_always_a_header_value(name@);
    }
    text
}

/// Whatever a file is called, the disposition of its download is a valid header value.
pub proof fn a_disposition_is_always_a_header_value(name: Seq<char>)
    ensures
        header_safe(disposition_text(name)),
{
    reveal_strlit("attachment; filename=\"");
    reveal_strlit("\"");
    let text = disposition_text(name);
    let kept = name.filter(filename_chars());
    let head = "attachment; filename=\""@;
    assert forall|i: int| 0 <= i < text.len() implies (32 <= (#[trigger] text[i]) as int <= 126
        || text[i] as int == 9) by {
        if i < head.len() {
            assert(text[i] == head[i]);
            assert(forall|j: int| 0 <= j < head.len() ==> 32 <= (#[trigger] head[j]) as int <= 126);
        } else if i < head.len() + kept.len() {
            assert(text[i] == kept[i - head.len()]);
            crate::sequences::lemma_filter_element(name, filename_chars(), i - head.len());
        } else {
            assert(text[i] == '"');
        }
    }
    assert(vstd::utf8::is_ascii_chars(text)) by {
        assert forall|i: int| 0 <= i < text.len() implies 0 <= #[trigger] (text[i] as int)
            < 128 by {
            assert(32 <= text[i] as int <= 126 || text[i] as int == 9);
        }
    }
    vstd::utf8::is_ascii_chars_encode_utf8(text);
    assert forall|i: int| 0 <= i < encode_utf8(text).len() implies header_byte(
        #[trigger] encode_utf8(text)[i],
    ) by {
        assert(32 <= text[i] as int <= 126 || text[i] as int == 9);
    }
}

/// What a download is answered with.
#[derive(Debug, PartialEq, Eq)]
pub enum Download {
    File(Reply),
    Refused(Message),
}

/// Answers a download: the file as text under a sanitised name, or a refusal when it could not be
/// read. `name` is the file's own name, where it has one that is text.
pub fn log_download(name: Option<&str>, contents: Option<&[u8]>) -> (download: Download)
    ensures
        match contents {
            None => download matches Download::Refused(refusal) && refusal.says(
                404,
                false,
                "log file not found"@,
            ),
            Some(bytes) => download matches Download::File(reply) && reply@ == ReplyView::plain(
                200,
                encode_utf8(utf8_lossy(bytes@)),
            ).with("content-type"@, TEXT_PLAIN_CONTENT_TYPE@).with(
                "content-disposition"@,
                disposition_text(
                    match optional_view(name) {
                        Some(name) => name,
                        None => "logfile.log"@,
                    },
                ),
            ),
        },
{
    let bytes = match contents {
        Some(bytes) => bytes,
        None => {
            return Download::Refused(Message::refusal(404, "log file not found"));
        },
    };
    let filename = match name {
        Some(name) => name,
        None => "logfile.log",
    };
    let disposition = content_disposition(filename);
    if !is_header_value(disposition.as_str()) {
        return Download::Refused(Message::refusal(500, "invalid log filename"));
    }
    let text = utf8_string_lossy(bytes);
    let body = text.as_str().as_bytes_vec();
    Download::File(
        Reply::new(200, body).with("content-type", TEXT_PLAIN_CONTENT_TYPE).with(
            "content-disposition",
            disposition.as_str(),
        ),
    )
}

/// A plain number is read as written, up to its limit, and absent or empty as zero; a sign, or
/// anything that is not a digit, makes it none.
pub proof fn a_plain_number_is_digits_only(number: u64, limit: u64, raw: Seq<char>)
    ensures
        plain_number(None, limit) == Some(0u64),
        raw.len() == 0 ==> plain_number(Some(raw), limit) == Some(0u64),
        number <= limit ==> plain_number(Some(decimal(number as nat)), limit) == Some(number),
        number > limit ==> plain_number(Some(decimal(number as nat)), limit) is None,
        (exists|i: int| 0 <= i < raw.len() && !('0' <= #[trigger] raw[i] <= '9'))
            ==> plain_number(Some(raw), limit) is None,
{
    crate::text::a_decimal_denotes_its_number(number as nat);
    if exists|i: int| 0 <= i < raw.len() && !('0' <= #[trigger] raw[i] <= '9') {
        let i = choose|i: int| 0 <= i < raw.len() && !('0' <= #[trigger] raw[i] <= '9');
        assert(!crate::text::is_digit(raw[i]));
    }
}

/// A line count that was asked for is the one that is read, within the maximum; zero, nothing and
/// what is no number give the default.
pub proof fn a_line_count_is_what_was_asked_for(number: u64)
    ensures
        1 <= number <= 100_000 ==> tail_lines(line_count(Some(decimal(number as nat)))) == number,
        number > 100_000 && number <= usize::MAX ==> tail_lines(
            line_count(Some(decimal(number as nat))),
        ) == 100_000,
        number == 0 ==> line_count(Some(decimal(number as nat))) is None,
        line_count(None) is None,
        tail_lines(None) == LOG_TAIL_DEFAULT,
        tail_lines(None) <= 100_000,
{
    crate::text::a_decimal_denotes_its_number(number as nat);
}

/// A stream is asked for by its name, and standard output where none is; any other name is none.
pub proof fn streams_are_asked_for_by_name(stream: LogStream, name: Seq<char>)
    ensures
        stream_of(Some(stream.wire())) == Some(stream),
        stream_of(None) == Some(LogStream::Stdout),
        name.len() == 0 ==> stream_of(Some(name)) == Some(LogStream::Stdout),
        name.len() > 0 && name != "stdout"@ && name != "stderr"@ ==> stream_of(Some(name)) is None,
        LogStream::Stdout.wire() == "stdout"@,
        LogStream::Stderr.wire() == "stderr"@,
{
    reveal_strlit("stdout");
    reveal_strlit("stderr");
    assert("stdout"@[3] == 'o' && "stderr"@[3] == 'e');
}

/// A query is read value by value: what it asks for comes from the value of that name, and it is
/// refused for the first that cannot be read, the stream before the offset before the archive.
pub proof fn a_query_is_read_value_by_value(query: LogQuery)
    ensures
        query.request() matches Some(request) ==> Some(request.stream) == stream_of(
            optional_text(query.stream),
        ) && Some(request.before as u64) == plain_number(
            optional_text(query.before),
            usize::MAX as u64,
        ) && Some(request.index as u64) == plain_number(
            optional_text(query.index),
            u32::MAX as u64,
        ) && request.lines == tail_lines(line_count(optional_text(query.lines))),
        query.request() is None ==> stream_of(optional_text(query.stream)) is None || plain_number(
            optional_text(query.before),
            usize::MAX as u64,
        ) is None || plain_number(optional_text(query.index), u32::MAX as u64) is None,
        stream_of(optional_text(query.stream)) is None ==> query.request() is None
            && query.complaint() == "unknown log stream '"@ + (query.stream->0)@
            + "', expected stdout or stderr"@,
        stream_of(optional_text(query.stream)) is Some && plain_number(
            optional_text(query.before),
            usize::MAX as u64,
        ) is None ==> query.request() is None && query.complaint() == "invalid line offset"@,
        stream_of(optional_text(query.stream)) is Some && plain_number(
            optional_text(query.before),
            usize::MAX as u64,
        ) is Some && plain_number(optional_text(query.index), u32::MAX as u64) is None
            ==> query.request() is None && query.complaint() == "invalid log archive index"@,
        query.stream is None && query.lines is None && query.before is None && query.index is None
            ==> query.request() == Some(
            (LogRequest {
                stream: LogStream::Stdout,
                lines: LOG_TAIL_DEFAULT,
                before: 0,
                index: 0,
            }),
        ),
{
}

/// The size of lines is counted line by line, in bytes.
pub proof fn sizes_add_up(lines: Seq<String>, line: String)
    ensures
        total_bytes(Seq::<String>::empty()) == 0,
        total_bytes(lines.push(line)) == total_bytes(lines) + encode_utf8(line@).len(),
{
    assert(lines.push(line).drop_last() =~= lines);
}

/// A sanitised file name keeps every character that a header accepts, in order, and no other; a
/// name of such characters is kept as it is.
pub proof fn sanitising_removes_only_what_a_header_refuses(name: Seq<char>, i: int)
    ensures
        0 <= i < name.filter(filename_chars()).len() ==> name.filter(filename_chars())[i] != '"'
            && name.filter(filename_chars())[i] != '\\' && (32 <= name.filter(filename_chars())[i]
            as int <= 126 || name.filter(filename_chars())[i] == '\t'),
        0 <= i < name.len() && 32 <= name[i] as int <= 126 && name[i] != '"' && name[i] != '\\'
            ==> name.filter(filename_chars()).contains(name[i]),
        (forall|j: int|
            0 <= j < name.len() ==> 32 <= (#[trigger] name[j]) as int <= 126 && name[j] != '"'
                && name[j] != '\\') ==> name.filter(filename_chars()) == name,
{
    broadcast use vstd::seq_lib::group_filter_ensures;

    if 0 <= i < name.filter(filename_chars()).len() {
        crate::sequences::lemma_filter_element(name, filename_chars(), i);
    }
    if 0 <= i < name.len() && 32 <= name[i] as int <= 126 && name[i] != '"' && name[i] != '\\' {
        assert(filename_chars()(name[i]));
        assert(name.contains(name[i]));
    }
    if forall|j: int|
        0 <= j < name.len() ==> 32 <= (#[trigger] name[j]) as int <= 126 && name[j] != '"'
            && name[j] != '\\' {
        assert forall|j: int| 0 <= j < name.len() implies filename_chars()(#[trigger] name[j]) by {}
        lemma_filter_keeps_all(name, filename_chars());
    }
}

proof fn lemma_filter_keeps_all(s: Seq<char>, keep: spec_fn(char) -> bool)
    requires
        forall|j: int| 0 <= j < s.len() ==> keep(#[trigger] s[j]),
    ensures
        s.filter(keep) == s,
    decreases s.len(),
{
    reveal(Seq::filter);
    if s.len() > 0 {
        let rest = s.drop_last();
        assert forall|j: int| 0 <= j < rest.len() implies keep(#[trigger] rest[j]) by {
            assert(rest[j] == s[j]);
        }
        lemma_filter_keeps_all(rest, keep);
        assert(s.last() == s[s.len() - 1]);
        assert(rest.push(s.last()) =~= s);
    } else {
        assert(s.filter(keep) =~= s);
    }
}

/// A download is always an attachment, under the sanitised name in quotes.
pub proof fn a_download_is_an_attachment(name: Seq<char>)
    ensures
        disposition_text(name) == "attachment; filename=\""@ + name.filter(filename_chars())
            + seq!['"'],
{
    reveal_strlit("\"");
    assert("\""@ =~= seq!['"']);
}

/// A page has the lines that were read and their size in bytes, of the stream, the archive and the
/// offset that were asked for; lines that could not be read are none, and not the start.
pub proof fn a_page_is_of_what_was_asked_for(
    request: &LogRequest,
    path: String,
    read: Option<(Vec<String>, bool)>,
    page: LogPage,
)
    requires
        call_ensures(log_page, (request, path, read), page),
    ensures
        page.path == path && page.index == request.index && page.before == request.before,
        request.stream is Stdout ==> page.stream@ == "stdout"@,
        request.stream is Stderr ==> page.stream@ == "stderr"@,
        read matches Some(range) ==> page.lines == range.0 && page.reached_start == range.1,
        read is None ==> page.lines@.len() == 0 && !page.reached_start && page.bytes == 0,
        total_bytes(page.lines@) <= u64::MAX ==> page.bytes == total_bytes(page.lines@),
{
}

/// Each stream has its own file; both are looked for, unless they share one, up to the same number
/// of archives.
pub proof fn each_stream_has_its_own_file(
    stdout_log: &str,
    stderr_log: &str,
    stream: LogStream,
    path: &str,
    listings: Vec<LogListing>,
)
    requires
        call_ensures(stream_log_path, (stdout_log, stderr_log, stream), path),
        call_ensures(serve_log_files, (stdout_log, stderr_log), listings),
    ensures
        stream is Stdout ==> path@ == stdout_log@,
        stream is Stderr ==> path@ == stderr_log@,
        stdout_log@ == stderr_log@ ==> listings@.len() == 1,
        stdout_log@ != stderr_log@ ==> listings@.len() == 2 && listings@[1].stream is Stderr
            && listings@[1].base@ == stderr_log@ && listings@[1].probe_limit == 64,
        listings@.len() > 0 && listings@[0].stream is Stdout && listings@[0].base@ == stdout_log@
            && listings@[0].probe_limit == 64,
{
    let views = listing_views(listings@);
    assert(views.len() == listings@.len());
    assert(views[0] == (listings@[0].stream, listings@[0].base@, listings@[0].probe_limit));
    if listings@.len() == 2 {
        assert(views[1] == (listings@[1].stream, listings@[1].base@, listings@[1].probe_limit));
    }
}

/// A query of a service that is not known is not found, whatever else it asks; one that cannot be
/// read is a bad request; any other is carried out.
pub proof fn a_log_query_is_refused_for_its_first_fault(
    known: bool,
    query: &LogQuery,
    plan: Result<LogRequest, LogRefusal>,
)
    requires
        call_ensures(plan_log_read, (known, query), plan),
    ensures
        !known ==> (plan matches Err(LogRefusal::Text(reply)) && reply.status == 404),
        known && query.request() is None ==> (plan matches Err(LogRefusal::Message(refusal))
            && refusal.status == 400 && !refusal.ok),
        plan is Ok <==> known && query.request() is Some,
        plan matches Ok(request) ==> Some(request) == query.request(),
{
}

/// A download reads the file of the stream and the archive that were named.
pub proof fn a_download_reads_what_was_named(
    known: bool,
    stream: Option<&str>,
    index: Option<&str>,
    plan: Result<(LogStream, u32), LogRefusal>,
)
    requires
        call_ensures(plan_log_download, (known, stream, index), plan),
    ensures
        !known ==> (plan matches Err(LogRefusal::Text(reply)) && reply.status == 404),
        plan matches Ok(file) ==> known && stream_of(optional_view(stream)) == Some(file.0)
            && plain_number(optional_view(index), u32::MAX as u64) == Some(file.1 as u64),
        known && stream is None && index is None ==> plan == Ok::<(LogStream, u32), LogRefusal>(
            (LogStream::Stdout, 0u32),
        ),
        known && plan is Err ==> (plan matches Err(LogRefusal::Message(refusal)) && refusal.status
            == 400 && !refusal.ok),
{
}

/// An archive has to exist; the current file does not.
pub proof fn only_an_archive_can_be_missing(
    request: &LogRequest,
    is_file: bool,
    refusal: Option<Reply>,
)
    requires
        call_ensures(archive_missing, (request, is_file), refusal),
    ensures
        refusal is Some <==> request.index > 0 && !is_file,
        refusal matches Some(reply) ==> reply.status == 404,
{
}

/// A file that was read is downloaded as text, under its own name where that is known; one that was
/// not is not found.
pub proof fn a_download_is_the_file_as_text(
    name: Option<&str>,
    contents: Option<&[u8]>,
    download: Download,
)
    requires
        call_ensures(log_download, (name, contents), download),
    ensures
        contents is None <==> download is Refused,
        download matches Download::Refused(refusal) ==> refusal.status == 404 && !refusal.ok,
        download matches Download::File(reply) ==> reply@.status == 200 && reply@.headers.len() == 2
            && reply@.headers[0] == ("content-type"@, "text/plain; charset=utf-8"@)
            && reply@.headers[1].0 == "content-disposition"@,
        contents is Some ==> (download matches Download::File(reply) && reply@.body == encode_utf8(
            utf8_lossy((contents->0)@),
        )),
        name matches Some(known) ==> (download matches Download::File(reply)
            ==> reply@.headers[1].1 == disposition_text(known@)),
        name is None ==> (download matches Download::File(reply) ==> reply@.headers[1].1
            == disposition_text("logfile.log"@)),
{
}

} // verus!
