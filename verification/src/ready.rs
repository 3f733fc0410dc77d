//! Recognising the line on which `dsh web` announces its authenticated URL.
use crate::text::{chars_of, first_word_from, has_prefix_at, string_between};
use vstd::prelude::*;
use vstd::string::*;

verus! {

/// The only host that `dsh web` can be bound to.
pub const WEB_HOST: &'static str = "127.0.0.1";

/// What a readiness line begins with.
pub const READY_PREFIX: &'static str = "dsh web: ";

/// What every URL of this shell's own server begins with.
pub open spec fn web_origin() -> Seq<char> {
    "http://"@ + WEB_HOST@ + ":"@
}

/// Whether `port` is a port as a URL writes it.
pub open spec fn is_port(port: Seq<char>) -> bool {
    &&& port.len() > 0
    &&& forall|i: int| 0 <= i < port.len() ==> crate::text::is_digit(#[trigger] port[i])
}

/// Whether `rest` can follow a port: nothing, a path or a query.
pub open spec fn is_after_port(rest: Seq<char>) -> bool {
    rest.len() == 0 || rest[0] == '/' || rest[0] == '?'
}

/// Whether `url` is this shell's own server on `port`, at whatever path or
/// query.
pub open spec fn is_url_at(url: Seq<char>, port: Seq<char>, rest: Seq<char>) -> bool {
    &&& url == web_origin() + port + rest
    &&& is_port(port)
    &&& is_after_port(rest)
}

/// Whether an announcement of `port` answers a request for `expected_port`:
/// `0` asks for whichever port is free, anything else for itself.
pub open spec fn port_matches(expected_port: Seq<char>, port: Seq<char>) -> bool {
    expected_port == "0"@ || port == expected_port
}

/// Whether `url` names this shell's own host and the port asked for.
pub open spec fn names_own_server(url: Seq<char>, expected_port: Seq<char>) -> bool {
    exists|port: Seq<char>, rest: Seq<char>|
        #[trigger] is_url_at(url, port, rest) && port_matches(expected_port, port)
}

/// The URL that `line` announces for a server asked to bind `expected_port`.
pub open spec fn announced_url(line: Seq<char>, expected_port: Seq<char>) -> Option<Seq<char>> {
    let url = crate::text::first_word(line.skip(READY_PREFIX@.len() as int));
    if READY_PREFIX@.is_prefix_of(line) && names_own_server(url, expected_port) {
        Some(url)
    } else {
        None
    }
}

/// A URL splits into origin, port and rest in one way only: the port is the
/// run of digits behind the origin.
proof fn lemma_url_split(url: Seq<char>, at: int, end: int, port: Seq<char>, rest: Seq<char>)
    requires
        is_url_at(url, port, rest),
        at == web_origin().len(),
        at <= end <= url.len(),
        forall|j: int| at <= j < end ==> crate::text::is_digit(#[trigger] url[j]),
        end < url.len() ==> !crate::text::is_digit(url[end]),
    ensures
        port == url.subrange(at, end),
        rest == url.skip(end),
{
    assert(forall|j: int| 0 <= j < port.len() ==> #[trigger] port[j] == url[at + j]);
    if at + port.len() < end {
        assert(rest[0] == url[at + port.len()]);
    }
    if end < at + port.len() {
        assert(port[end - at] == url[end]);
    }
    assert(port =~= url.subrange(at, end));
    assert(rest =~= url.skip(end));
}

/// Whether `url` names this shell's own host and the port asked for.
fn is_own_server(url: &str, expected_port: &str) -> (own: bool)
    ensures
        own == names_own_server(url@, expected_port@),
{
    let chars: Vec<char> = chars_of(url);
    let mut origin: String = "http://".to_owned();
    origin.append(WEB_HOST);
    origin.append(":");
    if !has_prefix_at(&chars, 0, origin.as_str()) {
        proof {
            assert(chars@.skip(0) =~= url@);
            assert forall|port: Seq<char>, rest: Seq<char>| #[trigger]
                is_url_at(url@, port, rest) implies false by {
                assert(web_origin() =~= url@.subrange(0, web_origin().len() as int));
            }
        }
        return false;
    }
    let start: usize = chars_of(origin.as_str()).len();
    assert(chars@.skip(0) =~= url@);
    let mut end: usize = start;
    while end < chars.len() && '0' <= chars[end] && chars[end] <= '9'
        invariant
            start <= end <= chars@.len(),
            forall|j: int| start <= j < end ==> crate::text::is_digit(#[trigger] chars@[j]),
        decreases chars@.len() - end,
    {
        end = end + 1;
    }
    let port: String = string_between(&chars, start, end);
    let any_port: bool = expected_port.to_owned() == "0".to_owned();
    let same_port: bool = port == expected_port.to_owned();
    let own: bool = end > start && (any_port || same_port) && (end == chars.len() || chars[end]
        == '/' || chars[end] == '?');
    proof {
        let rest = url@.skip(end as int);
        if own {
            assert(url@ =~= web_origin() + port@ + rest);
            assert(is_url_at(url@, port@, rest));
        }
        assert forall|p: Seq<char>, r: Seq<char>| #[trigger]
            is_url_at(url@, p, r) implies p == port@ && r == rest by {
            lemma_url_split(url@, start as int, end as int, p, r);
        }
    }
    own
}

/// Extracts the authenticated URL from a `dsh web` readiness line
/// (`"dsh web: <url>"`, optionally followed by `" (LAN: <url>)"`), verifying
/// that it names this shell's own [`WEB_HOST`] and `expected_port`. `None` if
/// `line` is not that announcement, or the URL does not match.
pub fn parse_ready_url(line: &str, expected_port: &str) -> (url: Option<String>)
    ensures
        match url {
            Some(url) => announced_url(line@, expected_port@) == Some(url@),
            None => announced_url(line@, expected_port@) is None,
        },
{
    let chars: Vec<char> = chars_of(line);
    assert(chars@.skip(0) =~= line@);
    if !has_prefix_at(&chars, 0, READY_PREFIX) {
        return None;
    }
    let start: usize = chars_of(READY_PREFIX).len();
    let candidate: String = first_word_from(&chars, start);
    if is_own_server(candidate.as_str(), expected_port) {
        Some(candidate)
    } else {
        None
    }
}

/// The byte that ends a line.
pub const NEWLINE: u8 = 10;

/// Bytes of one line that are kept at most; a longer line is no announcement.
pub const MAX_LINE_BYTES: usize = 4096;

/// `std::str::from_utf8`: the characters that `bytes` encode, where they are
/// valid UTF-8, and nothing otherwise.
#[verifier::external_body]
fn from_utf8(bytes: &[u8]) -> (text: Option<&str>)
    ensures
        match text {
            Some(text) => vstd::utf8::valid_utf8(bytes@) && text@ == vstd::utf8::decode_utf8(
                bytes@,
            ),
            None => !vstd::utf8::valid_utf8(bytes@),
        },
{
    std::str::from_utf8(bytes).ok()
}

/// `s` without the carriage returns at its end.
pub open spec fn without_trailing_returns(s: Seq<char>) -> Seq<char>
    decreases s.len(),
{
    if s.len() > 0 && s.last() == '\r' {
        without_trailing_returns(s.drop_last())
    } else {
        s
    }
}

/// `s` without the carriage returns at its end.
fn trim_trailing_returns(s: &str) -> (trimmed: String)
    ensures
        trimmed@ == without_trailing_returns(s@),
{
    let chars: Vec<char> = chars_of(s);
    let mut end: usize = chars.len();
    assert(chars@.take(end as int) =~= chars@);
    while end > 0 && chars[end - 1] == '\r'
        invariant
            chars@ == s@,
            end <= chars@.len(),
            without_trailing_returns(s@) == without_trailing_returns(chars@.take(end as int)),
        decreases end,
    {
        assert(chars@.take(end as int).drop_last() =~= chars@.take(end - 1));
        end = end - 1;
    }
    assert(chars@.subrange(0, end as int) =~= chars@.take(end as int));
    string_between(&chars, 0, end)
}

/// The URL that the bytes of a line announce, its newline left out.
pub open spec fn url_in_record(record: Seq<u8>, expected_port: Seq<char>) -> Option<Seq<char>> {
    if vstd::utf8::valid_utf8(record) {
        announced_url(
            without_trailing_returns(vstd::utf8::decode_utf8(record)),
            expected_port,
        )
    } else {
        None
    }
}

/// What happened to the reading of stdout.
pub enum ReadEvent {
    /// A byte was read.
    Byte(u8),
    /// The receiver took (`true`) or did not take an announcement.
    Delivered(bool),
    /// Stdout has ended.
    Eof,
    /// A read failed.
    Failed,
}

/// What the reading of stdout does next.
pub enum ReadAction {
    /// Read the next byte.
    Read,
    /// Hand this URL to whoever waits for it.
    Deliver(String),
    /// Close stdout.
    Close,
}

/// What a [`ReadAction`] says.
pub enum ReadText {
    /// Read on.
    Read,
    /// Hand a URL over.
    Deliver(Seq<char>),
    /// Close stdout.
    Close,
}

impl View for ReadAction {
    type V = ReadText;

    open spec fn view(&self) -> ReadText {
        match self {
            ReadAction::Read => ReadText::Read,
            ReadAction::Deliver(url) => ReadText::Deliver(url@),
            ReadAction::Close => ReadText::Close,
        }
    }
}

/// What a [`ReadyScanner`] has seen so far.
pub struct ScanState {
    /// The port that the server was asked to bind.
    pub expected_port: Seq<char>,
    /// The current line, as far as it is kept.
    pub line: Seq<u8>,
    /// Whether the current line is too long and is being dropped.
    pub skipping_oversized: bool,
    /// Whether an announcement has reached its receiver.
    pub found: bool,
}

impl ScanState {
    /// The scanner of a stream of which nothing has been read.
    pub open spec fn init(expected_port: Seq<char>) -> ScanState {
        ScanState { expected_port, line: seq![], skipping_oversized: false, found: false }
    }

    /// The state behind `byte`.
    pub open spec fn after(self, byte: u8) -> ScanState {
        if byte == NEWLINE {
            ScanState { line: seq![], skipping_oversized: false, ..self }
        } else if self.skipping_oversized {
            self
        } else if self.line.len() >= MAX_LINE_BYTES {
            ScanState { line: seq![], skipping_oversized: true, ..self }
        } else {
            ScanState { line: self.line.push(byte), ..self }
        }
    }

    /// The URL that `byte` completes the announcement of.
    pub open spec fn announces(self, byte: u8) -> Option<Seq<char>> {
        if byte == NEWLINE && !self.found && !self.skipping_oversized {
            url_in_record(self.line, self.expected_port)
        } else {
            None
        }
    }

    /// The state once the receiver has, or has not, taken an announcement.
    pub open spec fn delivered(self, taken: bool) -> ScanState {
        ScanState { found: taken, ..self }
    }

    /// The state behind `event`.
    pub open spec fn stepped(self, event: ReadEvent) -> ScanState {
        match event {
            ReadEvent::Byte(byte) => self.after(byte),
            ReadEvent::Delivered(taken) => self.delivered(taken),
            ReadEvent::Eof => self,
            ReadEvent::Failed => self,
        }
    }

    /// What is done upon `event`.
    pub open spec fn action(self, event: ReadEvent) -> ReadText {
        match event {
            ReadEvent::Byte(byte) => match self.announces(byte) {
                Some(url) => ReadText::Deliver(url),
                None => ReadText::Read,
            },
            ReadEvent::Delivered(_) => ReadText::Read,
            ReadEvent::Eof => ReadText::Close,
            ReadEvent::Failed => ReadText::Close,
        }
    }

    /// What is kept of the current line is bounded.
    pub open spec fn bounded(self) -> bool {
        &&& self.line.len() <= MAX_LINE_BYTES
        &&& self.skipping_oversized ==> self.line.len() == 0
    }
}

/// Reads the stdout of `dsh web` byte by byte for the line that announces its
/// URL.
///
/// Stdout is read for the rest of the child's life, long past the
/// announcement, so the scanner holds a bounded part of one line only. A line
/// longer than [`MAX_LINE_BYTES`] is dropped up to its newline: none of it,
/// its tail neither, is taken for a line of its own.
pub struct ReadyScanner {
    expected_port: String,
    line: Vec<u8>,
    skipping_oversized: bool,
    found: bool,
}

impl View for ReadyScanner {
    type V = ScanState;

    closed spec fn view(&self) -> ScanState {
        ScanState {
            expected_port: self.expected_port@,
            line: self.line@,
            skipping_oversized: self.skipping_oversized,
            found: self.found,
        }
    }
}

impl ReadyScanner {
    /// A scanner at the start of the stream, for a server asked to bind
    /// `expected_port`.
    pub fn new(expected_port: String) -> (scanner: ReadyScanner)
        ensures
            scanner@ == ScanState::init(expected_port@),
            scanner@.bounded(),
    {
        let scanner = ReadyScanner {
            expected_port,
            line: Vec::new(),
            skipping_oversized: false,
            found: false,
        };
        assert(scanner@.line =~= seq![]);
        scanner
    }

    /// Reads one byte; returns the URL whose announcement it completes.
    fn push(&mut self, byte: u8) -> (url: Option<String>)
        ensures
            final(self)@ == old(self)@.after(byte),
            match url {
                Some(url) => old(self)@.announces(byte) == Some(url@),
                None => old(self)@.announces(byte) is None,
            },
            old(self)@.bounded() ==> final(self)@.bounded(),
    {
        let mut url: Option<String> = None;
        if byte == NEWLINE {
            if !self.found && !self.skipping_oversized {
                if let Some(text) = from_utf8(self.line.as_slice()) {
                    let record: String = trim_trailing_returns(text);
                    url = parse_ready_url(record.as_str(), self.expected_port.as_str());
                }
            }
            self.line.clear();
            self.skipping_oversized = false;
        } else if !self.skipping_oversized {
            self.line.push(byte);
            if self.line.len() > MAX_LINE_BYTES {
                self.line.clear();
                self.skipping_oversized = true;
            }
        }
        assert(self@.line =~= old(self)@.after(byte).line);
        url
    }

    /// Notes whether the receiver took the URL that was announced last: once
    /// one was taken, no other is announced.
    fn delivered(&mut self, taken: bool)
        ensures
            final(self)@ == old(self)@.delivered(taken),
    {
        self.found = taken;
    }

    /// Goes on with the reading of stdout. Only its end, or a read that fails,
    /// ends the reading: a child may write to stdout for as long as it runs,
    /// and must not find the pipe closed, whether or not an announcement was
    /// found and whether or not anyone still waits for it.
    pub fn step(&mut self, event: ReadEvent) -> (action: ReadAction)
        ensures
            final(self)@ == old(self)@.stepped(event),
            action@ == old(self)@.action(event),
            old(self)@.bounded() ==> final(self)@.bounded(),
    {
        match event {
            ReadEvent::Byte(byte) => match self.push(byte) {
                Some(url) => ReadAction::Deliver(url),
                None => ReadAction::Read,
            },
            ReadEvent::Delivered(taken) => {
                self.delivered(taken);
                ReadAction::Read
            },
            ReadEvent::Eof => ReadAction::Close,
            ReadEvent::Failed => ReadAction::Close,
        }
    }
}

/// Whether `s` holds no white space.
pub open spec fn is_one_word(s: Seq<char>) -> bool {
    forall|i: int| 0 <= i < s.len() ==> !crate::text::is_white_space(#[trigger] s[i])
}

/// Whether `tail` can follow a word: nothing, or white space and whatever
/// comes behind it.
pub open spec fn ends_word(tail: Seq<char>) -> bool {
    tail.len() == 0 || crate::text::is_white_space(tail[0])
}

/// The first word of `word + tail` is `word`.
proof fn lemma_first_word(word: Seq<char>, tail: Seq<char>)
    requires
        word.len() > 0,
        is_one_word(word),
        ends_word(tail),
    ensures
        crate::text::first_word(word + tail) == word,
{
    crate::text::law_first_word_is_found(seq![], word, tail);
    assert(seq![] + word + tail =~= word + tail);
}

/// An announcement of this shell's own server is recognised, its URL comes
/// out whole, and whatever follows the URL on the line (such as a LAN address)
/// is left out.
pub proof fn law_announcement_is_recognised(
    url: Seq<char>,
    port: Seq<char>,
    rest: Seq<char>,
    tail: Seq<char>,
    expected_port: Seq<char>,
)
    requires
        is_url_at(url, port, rest),
        is_one_word(url),
        ends_word(tail),
        port_matches(expected_port, port),
    ensures
        announced_url(READY_PREFIX@ + url + tail, expected_port) == Some(url),
{
    let line = READY_PREFIX@ + url + tail;
    assert(READY_PREFIX@.is_prefix_of(line));
    assert(line.skip(READY_PREFIX@.len() as int) =~= url + tail);
    lemma_first_word(url, tail);
}

/// Whatever is recognised is this shell's own server: the URL is the
/// line's first word behind the prefix, and where a fixed port was asked for,
/// host and port are followed by nothing but a path or a query.
pub proof fn law_recognised_url_is_own_server(line: Seq<char>, expected_port: Seq<char>)
    requires
        announced_url(line, expected_port) is Some,
    ensures
        READY_PREFIX@.is_prefix_of(line),
        announced_url(line, expected_port)->0 == crate::text::first_word(
            line.skip(READY_PREFIX@.len() as int),
        ),
        web_origin().is_prefix_of(announced_url(line, expected_port)->0),
        expected_port != "0"@ ==> {
            let own = web_origin() + expected_port;
            let url = announced_url(line, expected_port)->0;
            &&& is_port(expected_port)
            &&& own.is_prefix_of(url)
            &&& is_after_port(url.skip(own.len() as int))
        },
{
    let url = announced_url(line, expected_port)->0;
    let (port, rest) = choose|port: Seq<char>, rest: Seq<char>|
        #[trigger] is_url_at(url, port, rest) && port_matches(expected_port, port);
    assert(web_origin() =~= url.subrange(0, web_origin().len() as int));
    let own = web_origin() + port;
    assert(own =~= url.subrange(0, own.len() as int));
    assert(url.skip(own.len() as int) =~= rest);
}

/// An announcement of another port than the one asked for is never taken,
/// unless any port was asked for.
pub proof fn law_other_port_is_refused(
    url: Seq<char>,
    port: Seq<char>,
    rest: Seq<char>,
    tail: Seq<char>,
    expected_port: Seq<char>,
)
    requires
        is_url_at(url, port, rest),
        is_one_word(url),
        ends_word(tail),
        !port_matches(expected_port, port),
    ensures
        announced_url(READY_PREFIX@ + url + tail, expected_port) is None,
{
    let line = READY_PREFIX@ + url + tail;
    assert(READY_PREFIX@.is_prefix_of(line));
    assert(line.skip(READY_PREFIX@.len() as int) =~= url + tail);
    lemma_first_word(url, tail);
    let at = web_origin().len() as int;
    let end = at + port.len();
    assert forall|j: int| at <= j < end implies crate::text::is_digit(#[trigger] url[j]) by {
        assert(url[j] == port[j - at]);
    }
    if end < url.len() {
        assert(url[end] == rest[0]);
    }
    assert forall|p: Seq<char>, r: Seq<char>| #[trigger] is_url_at(url, p, r) implies p == port by {
        lemma_url_split(url, at, end, p, r);
        lemma_url_split(url, at, end, port, rest);
    }
}

/// The state of a scanner with the history `events`.
pub open spec fn scanned(events: Seq<ReadEvent>, expected_port: Seq<char>) -> ScanState
    decreases events.len(),
{
    if events.len() == 0 {
        ScanState::init(expected_port)
    } else {
        scanned(events.drop_last(), expected_port).stepped(events.last())
    }
}

/// The bytes read in the history `events`.
pub open spec fn bytes_read(events: Seq<ReadEvent>) -> Seq<u8>
    decreases events.len(),
{
    if events.len() == 0 {
        seq![]
    } else {
        let before = bytes_read(events.drop_last());
        match events.last() {
            ReadEvent::Byte(byte) => before.push(byte),
            _ => before,
        }
    }
}

/// What follows the last newline of `bytes`.
pub open spec fn open_record(bytes: Seq<u8>) -> Seq<u8>
    decreases bytes.len(),
{
    if bytes.len() == 0 || bytes.last() == NEWLINE {
        seq![]
    } else {
        open_record(bytes.drop_last()).push(bytes.last())
    }
}

/// A scanner holds the current line of the stream, whole, where it is no
/// longer than the bound, and none of it otherwise; deliveries do not matter
/// to that.
pub proof fn law_scanner_holds_current_line(events: Seq<ReadEvent>, expected_port: Seq<char>)
    ensures
        ({
            let state = scanned(events, expected_port);
            let record = open_record(bytes_read(events));
            &&& state.expected_port == expected_port
            &&& state.bounded()
            &&& state.skipping_oversized == (record.len() > MAX_LINE_BYTES)
            &&& record.len() <= MAX_LINE_BYTES ==> state.line == record
        }),
    decreases events.len(),
{
    if events.len() > 0 {
        law_scanner_holds_current_line(events.drop_last(), expected_port);
        if let ReadEvent::Byte(byte) = events.last() {
            let before = bytes_read(events.drop_last());
            assert(before.push(byte).drop_last() =~= before);
        }
    }
}

/// `record` is what follows the last newline of `before + record`.
proof fn lemma_open_record(before: Seq<u8>, record: Seq<u8>)
    requires
        before.len() == 0 || before.last() == NEWLINE,
        forall|i: int| 0 <= i < record.len() ==> #[trigger] record[i] != NEWLINE,
    ensures
        open_record(before + record) == record,
    decreases record.len(),
{
    if record.len() == 0 {
        assert(before + record =~= before);
    } else {
        lemma_open_record(before, record.drop_last());
        assert((before + record).drop_last() =~= before + record.drop_last());
        assert(record.drop_last().push(record.last()) =~= record);
    }
}

/// A stream's line is announced exactly by its newline: as long as no
/// announcement was taken, the newline behind a line of at most
/// [`MAX_LINE_BYTES`] bytes announces the line's URL, if it has one, and the
/// newline behind a longer line announces nothing, whatever its tail looks
/// like.
pub proof fn law_line_is_announced_by_its_newline(
    events: Seq<ReadEvent>,
    before: Seq<u8>,
    record: Seq<u8>,
    expected_port: Seq<char>,
)
    requires
        bytes_read(events) == before + record,
        before.len() == 0 || before.last() == NEWLINE,
        forall|i: int| 0 <= i < record.len() ==> #[trigger] record[i] != NEWLINE,
        !scanned(events, expected_port).found,
    ensures
        scanned(events, expected_port).announces(NEWLINE) == if record.len() <= MAX_LINE_BYTES {
            url_in_record(record, expected_port)
        } else {
            None
        },
{
    law_scanner_holds_current_line(events, expected_port);
    lemma_open_record(before, record);
}

/// Only a newline announces anything.
pub proof fn law_only_a_newline_announces(state: ScanState, byte: u8)
    requires
        byte != NEWLINE,
    ensures
        state.announces(byte) is None,
{
}

/// Once an announcement was taken there is no other, however much is read
/// after it.
pub proof fn law_taken_announcement_is_the_last(
    events: Seq<ReadEvent>,
    more: Seq<u8>,
    next: u8,
    expected_port: Seq<char>,
)
    requires
        scanned(events, expected_port).found,
    ensures
        ({
            let later = events + more.map_values(|byte: u8| ReadEvent::Byte(byte));
            &&& scanned(later, expected_port).found
            &&& scanned(later, expected_port).announces(next) is None
        }),
    decreases more.len(),
{
    let read = more.map_values(|byte: u8| ReadEvent::Byte(byte));
    let later = events + read;
    if more.len() == 0 {
        assert(later =~= events);
    } else {
        let fewer = more.drop_last();
        law_taken_announcement_is_the_last(events, fewer, next, expected_port);
        assert(later.drop_last() =~= events + fewer.map_values(|byte: u8| ReadEvent::Byte(byte)));
        assert(later.last() == ReadEvent::Byte(more.last()));
    }
}

/// Whether `event` ends the reading of stdout.
pub open spec fn ends_reading(event: ReadEvent) -> bool {
    event is Eof || event is Failed
}

/// Stdout is read on until it ends or a read fails, and not closed before:
/// whatever was read, announced, taken or refused in the meantime, and however
/// long ago, the next thing is another read, or the hand-over of a URL, which
/// a read follows. All the while no more than 4096 bytes of an unfinished line
/// are kept.
pub proof fn law_stdout_is_read_to_its_end(
    events: Seq<ReadEvent>,
    event: ReadEvent,
    taken: bool,
    expected_port: Seq<char>,
)
    ensures
        ({
            let state = scanned(events, expected_port);
            &&& state.line.len() <= 4096
            &&& state.action(event) is Close <==> ends_reading(event)
            &&& state.stepped(event).action(ReadEvent::Delivered(taken)) is Read
        }),
{
    law_scanner_holds_current_line(events, expected_port);
}

/// The history of a scanner that reads `bytes`, with a receiver that takes what
/// it is handed.
pub open spec fn history_of(bytes: Seq<u8>, expected_port: Seq<char>) -> Seq<ReadEvent>
    decreases bytes.len(),
{
    if bytes.len() == 0 {
        seq![]
    } else {
        let before = history_of(bytes.drop_last(), expected_port);
        let read = before.push(ReadEvent::Byte(bytes.last()));
        if scanned(before, expected_port).action(ReadEvent::Byte(bytes.last())) is Deliver {
            read.push(ReadEvent::Delivered(true))
        } else {
            read
        }
    }
}

/// The URLs handed over in the history `events`.
pub open spec fn handed_over(events: Seq<ReadEvent>, expected_port: Seq<char>) -> Seq<Seq<char>>
    decreases events.len(),
{
    if events.len() == 0 {
        seq![]
    } else {
        let before = handed_over(events.drop_last(), expected_port);
        match scanned(events.drop_last(), expected_port).action(events.last()) {
            ReadText::Deliver(url) => before.push(url),
            _ => before,
        }
    }
}

/// Whether `bytes[start..end]` is a line of `bytes`, with its newline at `end`.
pub open spec fn is_line(bytes: Seq<u8>, start: int, end: int) -> bool {
    &&& 0 <= start <= end < bytes.len()
    &&& start == 0 || bytes[start - 1] == NEWLINE
    &&& bytes[end] == NEWLINE
    &&& forall|i: int| start <= i < end ==> #[trigger] bytes[i] != NEWLINE
}

/// The URL that the line `bytes[start..end]` announces.
pub open spec fn url_on_line(
    bytes: Seq<u8>,
    start: int,
    end: int,
    expected_port: Seq<char>,
) -> Option<Seq<char>> {
    if end - start <= MAX_LINE_BYTES {
        url_in_record(bytes.subrange(start, end), expected_port)
    } else {
        None
    }
}

/// Whether no line of `bytes` that ends before `limit` announces a URL.
pub open spec fn announces_nothing_before(
    bytes: Seq<u8>,
    limit: int,
    expected_port: Seq<char>,
) -> bool {
    forall|start: int, end: int| #[trigger]
        is_line(bytes, start, end) && end < limit ==> url_on_line(
            bytes,
            start,
            end,
            expected_port,
        ) is None
}

/// Where the last line of `bytes` begins.
spec fn last_start(bytes: Seq<u8>) -> int
    decreases bytes.len(),
{
    if bytes.len() == 0 || bytes.last() == NEWLINE {
        bytes.len() as int
    } else {
        last_start(bytes.drop_last())
    }
}

/// What follows the last newline is what begins at `last_start`.
proof fn lemma_last_start(bytes: Seq<u8>)
    ensures
        0 <= last_start(bytes) <= bytes.len(),
        last_start(bytes) == 0 || bytes[last_start(bytes) - 1] == NEWLINE,
        forall|i: int| last_start(bytes) <= i < bytes.len() ==> #[trigger] bytes[i] != NEWLINE,
        open_record(bytes) == bytes.skip(last_start(bytes)),
    decreases bytes.len(),
{
    if bytes.len() == 0 || bytes.last() == NEWLINE {
        assert(bytes.skip(bytes.len() as int) =~= seq![]);
    } else {
        let earlier = bytes.drop_last();
        lemma_last_start(earlier);
        let start = last_start(earlier);
        if start > 0 {
            assert(earlier[start - 1] == bytes[start - 1]);
        }
        assert forall|i: int| start <= i < bytes.len() implies #[trigger] bytes[i] != NEWLINE by {
            if i < earlier.len() {
                assert(earlier[i] == bytes[i]);
            }
        }
        assert(earlier.skip(start).push(bytes.last()) =~= bytes.skip(start));
    }
}

/// A line of the first bytes of a stream is the same line of the stream.
proof fn lemma_line_of_start(bytes: Seq<u8>, n: int, start: int, end: int)
    requires
        0 <= n <= bytes.len(),
        end < n,
    ensures
        is_line(bytes.take(n), start, end) == is_line(bytes, start, end),
        is_line(bytes, start, end) ==> bytes.take(n).subrange(start, end) == bytes.subrange(
            start,
            end,
        ),
{
    let first = bytes.take(n);
    if is_line(first, start, end) {
        assert forall|i: int| start <= i < end implies #[trigger] bytes[i] != NEWLINE by {
            assert(first[i] == bytes[i]);
        }
        assert(first[end] == bytes[end]);
        if start > 0 {
            assert(first[start - 1] == bytes[start - 1]);
        }
    }
    if is_line(bytes, start, end) {
        assert(first.subrange(start, end) =~= bytes.subrange(start, end));
    }
}

/// One byte more: what was read, handed over and found, given the same of the
/// bytes before it.
proof fn lemma_history_step(bytes: Seq<u8>, expected_port: Seq<char>)
    requires
        bytes.len() > 0,
        bytes_read(history_of(bytes.drop_last(), expected_port)) == bytes.drop_last(),
    ensures
        ({
            let before = history_of(bytes.drop_last(), expected_port);
            let now = history_of(bytes, expected_port);
            let announced = scanned(before, expected_port).announces(bytes.last());
            &&& bytes_read(now) == bytes
            &&& handed_over(now, expected_port) == match announced {
                Some(url) => handed_over(before, expected_port).push(url),
                None => handed_over(before, expected_port),
            }
            &&& scanned(now, expected_port).found == (scanned(before, expected_port).found
                || announced is Some)
        }),
{
    let before = history_of(bytes.drop_last(), expected_port);
    let read = before.push(ReadEvent::Byte(bytes.last()));
    let now = history_of(bytes, expected_port);
    assert(read.drop_last() =~= before);
    assert(bytes_read(read) =~= bytes);
    assert(scanned(read, expected_port) == scanned(before, expected_port).after(bytes.last()));
    if scanned(before, expected_port).announces(bytes.last()) is Some {
        assert(now == read.push(ReadEvent::Delivered(true)));
        assert(now.drop_last() =~= read);
        assert(bytes_read(now) == bytes_read(read));
        assert(handed_over(now, expected_port) == handed_over(read, expected_port));
    }
}

/// As long as no line announces anything, nothing is handed over.
proof fn lemma_nothing_handed_over(bytes: Seq<u8>, expected_port: Seq<char>)
    requires
        announces_nothing_before(bytes, bytes.len() as int, expected_port),
    ensures
        bytes_read(history_of(bytes, expected_port)) == bytes,
        handed_over(history_of(bytes, expected_port), expected_port).len() == 0,
        !scanned(history_of(bytes, expected_port), expected_port).found,
    decreases bytes.len(),
{
    if bytes.len() > 0 {
        let earlier = bytes.drop_last();
        assert(earlier =~= bytes.take(bytes.len() - 1));
        assert forall|start: int, end: int| #[trigger]
            is_line(earlier, start, end) && end < earlier.len() implies url_on_line(
            earlier,
            start,
            end,
            expected_port,
        ) is None by {
            lemma_line_of_start(bytes, bytes.len() - 1, start, end);
            assert(is_line(bytes, start, end));
        }
        lemma_nothing_handed_over(earlier, expected_port);
        lemma_history_step(bytes, expected_port);
        lemma_newline_announces_its_line(bytes, expected_port);
        let start = last_start(earlier);
        lemma_last_start(earlier);
        if bytes.last() == NEWLINE {
            lemma_line_to_the_end(bytes);
            assert(is_line(bytes, start, bytes.len() - 1));
        }
    }
}

/// The last newline of `bytes` ends a line that begins at `last_start`.
proof fn lemma_line_to_the_end(bytes: Seq<u8>)
    requires
        bytes.len() > 0,
        bytes.last() == NEWLINE,
    ensures
        is_line(bytes, last_start(bytes.drop_last()), bytes.len() - 1),
        bytes.subrange(last_start(bytes.drop_last()), bytes.len() - 1) == open_record(
            bytes.drop_last(),
        ),
{
    let earlier = bytes.drop_last();
    let start = last_start(earlier);
    lemma_last_start(earlier);
    if start > 0 {
        assert(earlier[start - 1] == bytes[start - 1]);
    }
    assert forall|i: int| start <= i < bytes.len() - 1 implies #[trigger] bytes[i] != NEWLINE by {
        assert(earlier[i] == bytes[i]);
    }
    assert(bytes.subrange(start, bytes.len() - 1) =~= earlier.skip(start));
}

/// Of a stream of which nothing was taken, the last byte announces the URL of
/// the line that it ends.
proof fn lemma_newline_announces_its_line(bytes: Seq<u8>, expected_port: Seq<char>)
    requires
        bytes.len() > 0,
        bytes_read(history_of(bytes.drop_last(), expected_port)) == bytes.drop_last(),
        !scanned(history_of(bytes.drop_last(), expected_port), expected_port).found,
    ensures
        scanned(history_of(bytes.drop_last(), expected_port), expected_port).announces(bytes.last())
            == if bytes.last() == NEWLINE {
            url_on_line(
                bytes,
                last_start(bytes.drop_last()),
                bytes.len() - 1,
                expected_port,
            )
        } else {
            None
        },
{
    let before = history_of(bytes.drop_last(), expected_port);
    law_scanner_holds_current_line(before, expected_port);
    if bytes.last() == NEWLINE {
        lemma_line_to_the_end(bytes);
        lemma_last_start(bytes.drop_last());
    }
}

/// A stream without an announcement hands nothing over.
pub proof fn law_stream_without_announcement_hands_nothing_over(
    bytes: Seq<u8>,
    expected_port: Seq<char>,
)
    requires
        announces_nothing_before(bytes, bytes.len() as int, expected_port),
    ensures
        handed_over(history_of(bytes, expected_port), expected_port) == Seq::<Seq<char>>::empty(),
{
    lemma_nothing_handed_over(bytes, expected_port);
    assert(handed_over(history_of(bytes, expected_port), expected_port) =~= seq![]);
}

/// Of a whole stream, the first line that announces a URL is the one whose URL
/// is handed over, and it is the only one.
pub proof fn law_first_announcement_is_handed_over(
    bytes: Seq<u8>,
    start: int,
    end: int,
    expected_port: Seq<char>,
)
    requires
        is_line(bytes, start, end),
        url_on_line(bytes, start, end, expected_port) is Some,
        announces_nothing_before(bytes, end, expected_port),
    ensures
        handed_over(history_of(bytes, expected_port), expected_port) == seq![
            url_on_line(bytes, start, end, expected_port)->0,
        ],
{
    lemma_first_announcement(bytes, start, end, expected_port);
}

/// The first announcement is handed over as soon as its line has ended, and
/// nothing else is after it.
proof fn lemma_first_announcement(
    bytes: Seq<u8>,
    start: int,
    end: int,
    expected_port: Seq<char>,
)
    requires
        is_line(bytes, start, end),
        url_on_line(bytes, start, end, expected_port) is Some,
        announces_nothing_before(bytes, end, expected_port),
    ensures
        bytes_read(history_of(bytes, expected_port)) == bytes,
        scanned(history_of(bytes, expected_port), expected_port).found,
        handed_over(history_of(bytes, expected_port), expected_port) == seq![
            url_on_line(bytes, start, end, expected_port)->0,
        ],
    decreases bytes.len(),
{
    let earlier = bytes.drop_last();
    let n = bytes.len() - 1;
    assert(earlier =~= bytes.take(n));
    let url = url_on_line(bytes, start, end, expected_port)->0;
    if end == n {
        assert forall|s: int, e: int| #[trigger]
            is_line(earlier, s, e) && e < earlier.len() implies url_on_line(
            earlier,
            s,
            e,
            expected_port,
        ) is None by {
            lemma_line_of_start(bytes, n, s, e);
            assert(is_line(bytes, s, e));
        }
        lemma_nothing_handed_over(earlier, expected_port);
        lemma_history_step(bytes, expected_port);
        lemma_newline_announces_its_line(bytes, expected_port);
        lemma_line_to_the_end(bytes);
        let last = last_start(earlier);
        if last < start {
            assert(bytes[start - 1] != NEWLINE);
        }
        if start < last {
            assert(bytes[last - 1] != NEWLINE);
        }
        assert(handed_over(history_of(bytes, expected_port), expected_port) =~= seq![url]);
    } else {
        lemma_line_of_start(bytes, n, start, end);
        assert forall|s: int, e: int| #[trigger] is_line(earlier, s, e) && e < end implies url_on_line(
            earlier,
            s,
            e,
            expected_port,
        ) is None by {
            lemma_line_of_start(bytes, n, s, e);
            assert(is_line(bytes, s, e));
        }
        lemma_first_announcement(earlier, start, end, expected_port);
        lemma_history_step(bytes, expected_port);
    }
}

/// Whether `line` reads, character for character, as the announcement of a
/// URL at this shell's own host: the words `dsh web:`, a blank and any more
/// white space, the URL with `port` and whatever path or query is in `rest`,
/// and, behind white space, anything else.
pub open spec fn reads_as_announcement(
    line: Seq<char>,
    gap: Seq<char>,
    port: Seq<char>,
    rest: Seq<char>,
    tail: Seq<char>,
) -> bool {
    &&& line == "dsh web: "@ + gap + ("http://127.0.0.1:"@ + port + rest) + tail
    &&& forall|i: int| 0 <= i < gap.len() ==> crate::text::is_white_space(#[trigger] gap[i])
    &&& port.len() > 0
    &&& forall|i: int| 0 <= i < port.len() ==> '0' <= #[trigger] port[i] <= '9'
    &&& rest.len() == 0 || rest[0] == '/' || rest[0] == '?'
    &&& forall|i: int| 0 <= i < rest.len() ==> !crate::text::is_white_space(#[trigger] rest[i])
    &&& tail.len() == 0 || crate::text::is_white_space(tail[0])
}

/// What every URL of this shell's own server begins with, spelt out.
proof fn lemma_origin()
    ensures
        web_origin() == "http://127.0.0.1:"@,
        is_one_word(web_origin()),
{
    reveal_strlit("http://");
    reveal_strlit("127.0.0.1");
    reveal_strlit(":");
    reveal_strlit("http://127.0.0.1:");
    assert(web_origin() =~= "http://127.0.0.1:"@);
}

/// The URL in an announcement is one word at this shell's own host.
proof fn lemma_announced_word(port: Seq<char>, rest: Seq<char>)
    requires
        port.len() > 0,
        forall|i: int| 0 <= i < port.len() ==> '0' <= #[trigger] port[i] <= '9',
        rest.len() == 0 || rest[0] == '/' || rest[0] == '?',
        forall|i: int| 0 <= i < rest.len() ==> !crate::text::is_white_space(#[trigger] rest[i]),
    ensures
        is_url_at("http://127.0.0.1:"@ + port + rest, port, rest),
        is_one_word("http://127.0.0.1:"@ + port + rest),
{
    lemma_origin();
    let origin = web_origin();
    let url = origin + port + rest;
    assert forall|i: int| 0 <= i < url.len() implies !crate::text::is_white_space(
        #[trigger] url[i],
    ) by {
        if i < origin.len() {
            assert(url[i] == origin[i]);
        } else if i < origin.len() + port.len() {
            assert(url[i] == port[i - origin.len()]);
        } else {
            assert(url[i] == rest[i - origin.len() - port.len()]);
        }
    }
}

/// An announcement hands over its whole URL, path, query and token included,
/// if its port is the one that was asked for or any port was, and nothing
/// otherwise.
pub proof fn law_announced_url_comes_out_whole(
    line: Seq<char>,
    gap: Seq<char>,
    port: Seq<char>,
    rest: Seq<char>,
    tail: Seq<char>,
    expected_port: Seq<char>,
)
    requires
        reads_as_announcement(line, gap, port, rest, tail),
    ensures
        announced_url(line, expected_port) == if expected_port == "0"@ || expected_port == port {
            Some("http://127.0.0.1:"@ + port + rest)
        } else {
            None
        },
{
    let url = "http://127.0.0.1:"@ + port + rest;
    lemma_announced_word(port, rest);
    assert(READY_PREFIX@.is_prefix_of(line));
    assert(line.skip(READY_PREFIX@.len() as int) =~= gap + url + tail);
    crate::text::law_first_word_is_found(gap, url, tail);
    let at = web_origin().len() as int;
    let end = at + port.len();
    assert forall|j: int| at <= j < end implies crate::text::is_digit(#[trigger] url[j]) by {
        assert(url[j] == port[j - at]);
    }
    if end < url.len() {
        assert(url[end] == rest[0]);
    }
    assert forall|p: Seq<char>, r: Seq<char>| #[trigger] is_url_at(url, p, r) implies p == port by {
        lemma_url_split(url, at, end, p, r);
        lemma_url_split(url, at, end, port, rest);
    }
}

/// Nothing is handed over but what reads as an announcement.
pub proof fn law_only_an_announcement_is_recognised(line: Seq<char>, expected_port: Seq<char>)
    requires
        announced_url(line, expected_port) is Some,
    ensures
        exists|gap: Seq<char>, port: Seq<char>, rest: Seq<char>, tail: Seq<char>|
            reads_as_announcement(line, gap, port, rest, tail),
{
    let url = announced_url(line, expected_port)->0;
    let (port, rest) = choose|port: Seq<char>, rest: Seq<char>|
        #[trigger] is_url_at(url, port, rest) && port_matches(expected_port, port);
    let behind = line.skip(READY_PREFIX@.len() as int);
    let (gap, tail) = crate::text::lemma_first_word_splits(behind);
    lemma_origin();
    assert(READY_PREFIX@ =~= line.take(READY_PREFIX@.len() as int));
    assert(line =~= READY_PREFIX@ + behind);
    assert(READY_PREFIX@ + (gap + url + tail) =~= "dsh web: "@ + gap + url + tail);
    assert forall|i: int| 0 <= i < port.len() implies '0' <= #[trigger] port[i] <= '9' by {
        assert(crate::text::is_digit(port[i]));
    }
    assert forall|i: int| 0 <= i < rest.len() implies !crate::text::is_white_space(
        #[trigger] rest[i],
    ) by {
        assert(rest[i] == url[web_origin().len() + port.len() + i]);
    }
    assert(reads_as_announcement(line, gap, port, rest, tail));
}

/// The carriage returns at the end of a line, and they alone, are dropped from
/// it.
pub proof fn law_trailing_returns_are_dropped(s: Seq<char>, ending: Seq<char>)
    requires
        s.len() > 0 ==> s.last() != '\r',
        forall|i: int| 0 <= i < ending.len() ==> #[trigger] ending[i] == '\r',
    ensures
        without_trailing_returns(s + ending) == s,
    decreases ending.len(),
{
    if ending.len() == 0 {
        assert(s + ending =~= s);
    } else {
        assert((s + ending).last() == ending[ending.len() - 1]);
        assert((s + ending).drop_last() =~= s + ending.drop_last());
        law_trailing_returns_are_dropped(s, ending.drop_last());
    }
}

/// Every line is its text without trailing returns, and those returns.
proof fn lemma_returns_split(s: Seq<char>) -> (ending: Seq<char>)
    ensures
        s == without_trailing_returns(s) + ending,
        forall|i: int| 0 <= i < ending.len() ==> #[trigger] ending[i] == '\r',
        without_trailing_returns(s).len() > 0 ==> without_trailing_returns(s).last() != '\r',
    decreases s.len(),
{
    if s.len() > 0 && s.last() == '\r' {
        let fewer = lemma_returns_split(s.drop_last());
        let kept = without_trailing_returns(s.drop_last());
        assert(s =~= s.drop_last().push('\r'));
        assert((kept + fewer).push('\r') =~= kept + fewer.push('\r'));
        fewer.push('\r')
    } else {
        assert(s =~= without_trailing_returns(s) + seq![]);
        seq![]
    }
}

/// The bytes of a line that reads as an announcement, with or without carriage
/// returns at its end, hand over the announced URL, whole, if its port is the
/// one that was asked for or any port was.
pub proof fn law_encoded_announcement_comes_out_whole(
    text: Seq<char>,
    gap: Seq<char>,
    port: Seq<char>,
    rest: Seq<char>,
    tail: Seq<char>,
    expected_port: Seq<char>,
)
    requires
        reads_as_announcement(text, gap, port, rest, tail),
    ensures
        url_in_record(vstd::utf8::encode_utf8(text), expected_port) == if expected_port == "0"@
            || expected_port == port {
            Some("http://127.0.0.1:"@ + port + rest)
        } else {
            None
        },
{
    vstd::utf8::encode_utf8_valid_utf8(text);
    vstd::utf8::encode_utf8_decode_utf8(text);
    lemma_announced_word(port, rest);
    let url = "http://127.0.0.1:"@ + port + rest;
    let head = "dsh web: "@ + gap + url;
    let ending = lemma_returns_split(text);
    let kept = without_trailing_returns(text);
    assert(head.last() == url.last());
    assert(!crate::text::is_white_space(url[url.len() - 1]));
    if kept.len() < head.len() {
        assert(text[head.len() - 1] == head.last());
        assert(text[head.len() - 1] == ending[head.len() - 1 - kept.len()]);
    }
    let shorter = tail.take(kept.len() - head.len());
    assert(kept =~= text.take(kept.len() as int));
    assert(kept =~= head + shorter);
    assert(reads_as_announcement(kept, gap, port, rest, shorter));
    law_announced_url_comes_out_whole(kept, gap, port, rest, shorter, expected_port);
}

/// Bytes hand over a URL only if they are UTF-8 and what they encode reads as
/// an announcement.
pub proof fn law_only_an_encoded_announcement_is_recognised(
    record: Seq<u8>,
    expected_port: Seq<char>,
)
    requires
        url_in_record(record, expected_port) is Some,
    ensures
        exists|
            text: Seq<char>,
            gap: Seq<char>,
            port: Seq<char>,
            rest: Seq<char>,
            tail: Seq<char>,
        |
            record == vstd::utf8::encode_utf8(text) && #[trigger] reads_as_announcement(
                text,
                gap,
                port,
                rest,
                tail,
            ),
{
    let text = vstd::utf8::decode_utf8(record);
    vstd::utf8::decode_utf8_encode_utf8(record);
    let ending = lemma_returns_split(text);
    let kept = without_trailing_returns(text);
    law_only_an_announcement_is_recognised(kept, expected_port);
    let (gap, port, rest, tail) = choose|
        gap: Seq<char>,
        port: Seq<char>,
        rest: Seq<char>,
        tail: Seq<char>,
    |
        reads_as_announcement(kept, gap, port, rest, tail);
    let longer = tail + ending;
    assert(text =~= "dsh web: "@ + gap + ("http://127.0.0.1:"@ + port + rest) + longer);
    if tail.len() == 0 && longer.len() > 0 {
        assert(longer[0] == ending[0]);
    }
    assert(reads_as_announcement(text, gap, port, rest, longer));
}

/// Whatever was read before, and however often an announcement was refused, the
/// newline behind a line of at most 4096 bytes that reads as an announcement of
/// the port asked for makes the scanner hand over the announced URL, whole, as
/// long as none was taken.
pub proof fn law_newline_hands_over_announced_url(
    events: Seq<ReadEvent>,
    before: Seq<u8>,
    text: Seq<char>,
    gap: Seq<char>,
    port: Seq<char>,
    rest: Seq<char>,
    tail: Seq<char>,
    expected_port: Seq<char>,
)
    requires
        bytes_read(events) == before + vstd::utf8::encode_utf8(text),
        before.len() == 0 || before.last() == 10,
        forall|i: int|
            0 <= i < vstd::utf8::encode_utf8(text).len() ==> #[trigger] vstd::utf8::encode_utf8(
                text,
            )[i] != 10,
        vstd::utf8::encode_utf8(text).len() <= 4096,
        reads_as_announcement(text, gap, port, rest, tail),
        expected_port == "0"@ || expected_port == port,
        !scanned(events, expected_port).found,
    ensures
        scanned(events, expected_port).action(ReadEvent::Byte(10)) == ReadText::Deliver(
            "http://127.0.0.1:"@ + port + rest,
        ),
{
    let record = vstd::utf8::encode_utf8(text);
    assert forall|i: int| 0 <= i < record.len() implies #[trigger] record[i] != NEWLINE by {
        assert(vstd::utf8::encode_utf8(text)[i] != 10);
    }
    law_line_is_announced_by_its_newline(events, before, record, expected_port);
    law_encoded_announcement_comes_out_whole(text, gap, port, rest, tail, expected_port);
}

/// A URL is handed over only by a newline, only while none was taken, and only
/// if the line that the newline ends has at most 4096 bytes and reads as an
/// announcement of that very URL, at the port asked for.
pub proof fn law_handed_over_url_was_announced(
    events: Seq<ReadEvent>,
    event: ReadEvent,
    expected_port: Seq<char>,
)
    requires
        scanned(events, expected_port).action(event) is Deliver,
    ensures
        event == ReadEvent::Byte(10),
        !scanned(events, expected_port).found,
        open_record(bytes_read(events)).len() <= 4096,
        exists|
            text: Seq<char>,
            gap: Seq<char>,
            port: Seq<char>,
            rest: Seq<char>,
            tail: Seq<char>,
        |
            open_record(bytes_read(events)) == vstd::utf8::encode_utf8(text)
                && #[trigger] reads_as_announcement(text, gap, port, rest, tail)
                && scanned(events, expected_port).action(event) == ReadText::Deliver(
                "http://127.0.0.1:"@ + port + rest,
            ) && (expected_port == "0"@ || expected_port == port),
{
    law_scanner_holds_current_line(events, expected_port);
    let record = open_record(bytes_read(events));
    law_only_an_encoded_announcement_is_recognised(record, expected_port);
    let (text, gap, port, rest, tail) = choose|
        text: Seq<char>,
        gap: Seq<char>,
        port: Seq<char>,
        rest: Seq<char>,
        tail: Seq<char>,
    |
        record == vstd::utf8::encode_utf8(text) && #[trigger] reads_as_announcement(
            text,
            gap,
            port,
            rest,
            tail,
        );
    law_encoded_announcement_comes_out_whole(text, gap, port, rest, tail, expected_port);
}

/// What the receiver said last is what counts: reading changes nothing about
/// whether an announcement was taken, and to begin with none was.
pub proof fn law_found_is_what_the_receiver_said(
    events: Seq<ReadEvent>,
    byte: u8,
    taken: bool,
    expected_port: Seq<char>,
)
    ensures
        !scanned(seq![], expected_port).found,
        scanned(events.push(ReadEvent::Delivered(taken)), expected_port).found == taken,
        scanned(events.push(ReadEvent::Byte(byte)), expected_port).found == scanned(
            events,
            expected_port,
        ).found,
        scanned(events.push(ReadEvent::Delivered(taken)), expected_port).line == scanned(
            events,
            expected_port,
        ).line,
{
    assert(events.push(ReadEvent::Delivered(taken)).drop_last() =~= events);
    assert(events.push(ReadEvent::Byte(byte)).drop_last() =~= events);
}

/// The first announcement of the port asked for, in a line of at most 4096
/// bytes, is what a stream hands over, whole, and it is all that it hands over,
/// whatever comes behind it.
pub proof fn law_stream_hands_over_announced_url(
    before: Seq<u8>,
    text: Seq<char>,
    gap: Seq<char>,
    port: Seq<char>,
    rest: Seq<char>,
    tail: Seq<char>,
    after: Seq<u8>,
    expected_port: Seq<char>,
)
    requires
        before.len() == 0 || before.last() == 10,
        announces_nothing_before(before, before.len() as int, expected_port),
        forall|i: int|
            0 <= i < vstd::utf8::encode_utf8(text).len() ==> #[trigger] vstd::utf8::encode_utf8(
                text,
            )[i] != 10,
        vstd::utf8::encode_utf8(text).len() <= 4096,
        reads_as_announcement(text, gap, port, rest, tail),
        expected_port == "0"@ || expected_port == port,
    ensures
        ({
            let stream = before + vstd::utf8::encode_utf8(text) + seq![10u8] + after;
            handed_over(history_of(stream, expected_port), expected_port) == seq![
                "http://127.0.0.1:"@ + port + rest,
            ]
        }),
{
    let record = vstd::utf8::encode_utf8(text);
    let stream = before + record + seq![10u8] + after;
    let start = before.len() as int;
    let end = start + record.len();
    if start > 0 {
        assert(stream[start - 1] == before.last());
    }
    assert forall|i: int| start <= i < end implies #[trigger] stream[i] != NEWLINE by {
        assert(stream[i] == vstd::utf8::encode_utf8(text)[i - start]);
    }
    assert(is_line(stream, start, end));
    assert(stream.subrange(start, end) =~= record);
    assert(stream.take(start) =~= before);
    assert forall|s: int, e: int| #[trigger] is_line(stream, s, e) && e < end implies url_on_line(
        stream,
        s,
        e,
        expected_port,
    ) is None by {
        if e >= start {
            assert(stream[e] != NEWLINE);
        }
        lemma_line_of_start(stream, start, s, e);
        assert(is_line(before, s, e));
    }
    law_encoded_announcement_comes_out_whole(text, gap, port, rest, tail, expected_port);
    law_first_announcement_is_handed_over(stream, start, end, expected_port);
}

/// What is said of an action is what it holds, the URL character for
/// character.
pub proof fn law_read_action_says_what_it_holds(action: ReadAction)
    ensures
        match action {
            ReadAction::Read => action@ is Read,
            ReadAction::Deliver(url) => action@ == ReadText::Deliver(url@),
            ReadAction::Close => action@ is Close,
        },
{
}

} // verus!
