//! The pages that the desktop window shows, as `data:` URLs.
use crate::text::{chars_of, is_blank};
use vstd::prelude::*;
use vstd::string::*;

verus! {

/// The page that the window shows until `dsh web` has announced its URL.
pub const LOADING_HTML: &'static str =
    "data:text/html;charset=utf-8,<!doctype html><html><body style='background:%23111;color:%23eee;font-family:sans-serif;display:flex;align-items:center;justify-content:center;height:100vh;margin:0'><p>Starting DeepSeek Harness&hellip;</p></body></html>";

/// The message shown when `dsh web` neither announced a URL nor said why.
pub const TIMEOUT_MESSAGE: &'static str =
    "dsh web did not become reachable within 30s. Check that `dsh` is on PATH and the configured port is free, then restart.";

/// How long, in nanoseconds, the last of stderr is waited for before
/// [`startup_failure_page`] is built.
pub const STDERR_GRACE_NANOS: u64 = 500_000_000;

/// Everything of a diagnostic page before its message.
pub const MESSAGE_PAGE_HEAD: &'static str =
    "data:text/html;charset=utf-8,<!doctype html><html><body style='background:%23111;color:%23eee;font-family:sans-serif;padding:2rem;white-space:pre-wrap'><p>";

/// Everything of a diagnostic page after its message.
pub const MESSAGE_PAGE_TAIL: &'static str = "</p></body></html>";

/// How the character `c` is written in HTML text.
pub open spec fn html_escape_char(c: char) -> Seq<char> {
    if c == '&' {
        "&amp;"@
    } else if c == '<' {
        "&lt;"@
    } else if c == '>' {
        "&gt;"@
    } else if c == '"' {
        "&quot;"@
    } else if c == '\'' {
        "&#39;"@
    } else {
        seq![c]
    }
}

/// `s` written as HTML text.
pub open spec fn html_escape_text(s: Seq<char>) -> Seq<char>
    decreases s.len(),
{
    if s.len() == 0 {
        seq![]
    } else {
        html_escape_char(s[0]) + html_escape_text(s.skip(1))
    }
}

/// The upper-case hexadecimal digit for `n`.
pub open spec fn hex_digit(n: nat) -> char {
    if n < 10 {
        ('0' as nat + n) as char
    } else {
        ('A' as nat + n - 10) as char
    }
}

/// How the character `c` is written in the body of a `data:` URL.
pub open spec fn url_escape_char(c: char) -> Seq<char> {
    if c == '%' {
        "%25"@
    } else if c == '#' {
        "%23"@
    } else if c == '?' {
        "%3F"@
    } else if (c as nat) < 0x20 {
        seq!['%', hex_digit(c as nat / 16), hex_digit(c as nat % 16)]
    } else {
        seq![c]
    }
}

/// `s` written as the body of a `data:` URL.
pub open spec fn url_escape_text(s: Seq<char>) -> Seq<char>
    decreases s.len(),
{
    if s.len() == 0 {
        seq![]
    } else {
        url_escape_char(s[0]) + url_escape_text(s.skip(1))
    }
}

/// What [`encode_message`] returns.
pub open spec fn encoded_message(message: Seq<char>) -> Seq<char> {
    url_escape_text(html_escape_text(message))
}

/// `message` as HTML text: the five characters that markup is made of are
/// written as character references.
fn html_escape(message: &str) -> (escaped: String)
    ensures
        escaped@ == html_escape_text(message@),
{
    let chars: Vec<char> = chars_of(message);
    let mut escaped: String = String::new();
    let mut i: usize = 0;
    assert(chars@.skip(0) =~= chars@);
    while i < chars.len()
        invariant
            chars@ == message@,
            0 <= i <= chars@.len(),
            html_escape_text(message@) == escaped@ + html_escape_text(chars@.skip(i as int)),
        decreases chars@.len() - i,
    {
        let c: char = chars[i];
        let ghost before = escaped@;
        if c == '&' {
            escaped.append("&amp;");
        } else if c == '<' {
            escaped.append("&lt;");
        } else if c == '>' {
            escaped.append("&gt;");
        } else if c == '"' {
            escaped.append("&quot;");
        } else if c == '\'' {
            escaped.append("&#39;");
        } else {
            escaped.push(c);
        }
        assert(escaped@ =~= before + html_escape_char(c));
        assert(chars@.skip(i as int).skip(1) =~= chars@.skip(i + 1));
        assert(before + (html_escape_char(c) + html_escape_text(chars@.skip(i + 1))) =~= escaped@
            + html_escape_text(chars@.skip(i + 1)));
        i = i + 1;
    }
    assert(escaped@ + html_escape_text(chars@.skip(i as int)) =~= escaped@);
    escaped
}

/// The upper-case hexadecimal digit for `n`.
fn hex(n: u32) -> (c: char)
    requires
        n < 16,
    ensures
        c == hex_digit(n as nat),
{
    let code: u8 = if n < 10 {
        48u8 + n as u8
    } else {
        55u8 + n as u8
    };
    code as char
}

/// `text` as the body of a `data:` URL: `%`, `#`, `?` and the control
/// characters below U+0020 are percent-encoded.
fn url_escape(text: &str) -> (escaped: String)
    ensures
        escaped@ == url_escape_text(text@),
{
    let chars: Vec<char> = chars_of(text);
    let mut escaped: String = String::new();
    let mut i: usize = 0;
    assert(chars@.skip(0) =~= chars@);
    while i < chars.len()
        invariant
            chars@ == text@,
            0 <= i <= chars@.len(),
            url_escape_text(text@) == escaped@ + url_escape_text(chars@.skip(i as int)),
        decreases chars@.len() - i,
    {
        let c: char = chars[i];
        let code: u32 = c as u32;
        proof {
            vstd::utf8::char_u32_cast(c, code);
        }
        let ghost before = escaped@;
        if c == '%' {
            escaped.append("%25");
        } else if c == '#' {
            escaped.append("%23");
        } else if c == '?' {
            escaped.append("%3F");
        } else if code < 0x20 {
            escaped.push('%');
            escaped.push(hex(code / 16));
            escaped.push(hex(code % 16));
        } else {
            escaped.push(c);
        }
        assert(escaped@ =~= before + url_escape_char(c));
        assert(chars@.skip(i as int).skip(1) =~= chars@.skip(i + 1));
        assert(before + (url_escape_char(c) + url_escape_text(chars@.skip(i + 1))) =~= escaped@
            + url_escape_text(chars@.skip(i + 1)));
        i = i + 1;
    }
    assert(escaped@ + url_escape_text(chars@.skip(i as int)) =~= escaped@);
    escaped
}

/// Escapes `message` for safe embedding as HTML text content, then
/// percent-encodes the result for a `data:` URL.
///
/// The message can hold arbitrary process output. The HTML step keeps it from
/// being parsed as markup, the percent step keeps it from ending the URL's
/// body; neither stands in for the other.
pub fn encode_message(message: &str) -> (encoded: String)
    ensures
        encoded@ == encoded_message(message@),
{
    let escaped: String = html_escape(message);
    url_escape(escaped.as_str())
}

/// What [`message_page`] returns.
pub open spec fn message_page_text(message: Seq<char>) -> Seq<char> {
    MESSAGE_PAGE_HEAD@ + encoded_message(message) + MESSAGE_PAGE_TAIL@
}

/// A `data:` URL for a page that shows `message` as plain text.
pub fn message_page(message: &str) -> (page: String)
    ensures
        page@ == message_page_text(message@),
{
    let encoded: String = encode_message(message);
    let mut page: String = MESSAGE_PAGE_HEAD.to_owned();
    page.append(encoded.as_str());
    page.append(MESSAGE_PAGE_TAIL);
    page
}

/// The text that `String::from_utf8_lossy` makes of `bytes`.
pub uninterp spec fn lossy_text(bytes: Seq<u8>) -> Seq<char>;

/// `String::from_utf8_lossy`. Its result is named; beside that, bytes that are
/// valid UTF-8 come out as the characters they encode, and of other bytes the
/// text holds at least one U+FFFD. How many of those stand for which bytes is
/// left to the name.
#[verifier::external_body]
fn from_utf8_lossy(bytes: &[u8]) -> (text: String)
    ensures
        text@ == lossy_text(bytes@),
        vstd::utf8::valid_utf8(bytes@) ==> text@ == vstd::utf8::decode_utf8(bytes@),
        !vstd::utf8::valid_utf8(bytes@) ==> text@.contains('\u{FFFD}'),
{
    String::from_utf8_lossy(bytes).into_owned()
}

/// The message of the page that [`failure_page`] builds.
pub open spec fn failure_message(diagnostic: Seq<char>) -> Seq<char> {
    if crate::text::is_blank_text(diagnostic) {
        TIMEOUT_MESSAGE@
    } else {
        "dsh web failed to start:\n\n"@ + diagnostic
    }
}

/// The page for a `dsh web` that never became ready, given the text of its
/// stderr: that text where there is any, otherwise the generic timeout
/// message.
pub fn failure_page(diagnostic: &str) -> (page: String)
    ensures
        page@ == message_page_text(failure_message(diagnostic@)),
{
    if is_blank(diagnostic) {
        message_page(TIMEOUT_MESSAGE)
    } else {
        let mut message: String = "dsh web failed to start:\n\n".to_owned();
        message.append(diagnostic);
        message_page(message.as_str())
    }
}

/// The page for a `dsh web` that never became ready, given the captured tail
/// of its stderr.
pub fn startup_failure_page(captured_stderr: &[u8]) -> (page: String)
    ensures
        page@ == message_page_text(failure_message(lossy_text(captured_stderr@))),
        vstd::utf8::valid_utf8(captured_stderr@) ==> page@ == message_page_text(
            failure_message(vstd::utf8::decode_utf8(captured_stderr@)),
        ),
        !vstd::utf8::valid_utf8(captured_stderr@) ==> page@ == message_page_text(
            "dsh web failed to start:\n\n"@ + lossy_text(captured_stderr@),
        ),
{
    let diagnostic: String = from_utf8_lossy(captured_stderr);
    proof {
        if !vstd::utf8::valid_utf8(captured_stderr@) {
            let i = choose|i: int|
                0 <= i < diagnostic@.len() && diagnostic@[i] == '\u{FFFD}';
            assert(!crate::text::is_white_space(diagnostic@[i]));
        }
    }
    failure_page(diagnostic.as_str())
}

/// The message for a launch that failed outright.
pub open spec fn launch_failure_message(attempted: Seq<char>, error: Seq<char>) -> Seq<char> {
    "failed to launch dsh --profile web ("@ + attempted + "): "@ + error
}

/// The page for a launch that failed outright: what was attempted, and the
/// error that came of it.
pub fn launch_failure_page(attempted: &str, error: &str) -> (page: String)
    ensures
        page@ == message_page_text(launch_failure_message(attempted@, error@)),
{
    let mut message: String = "failed to launch dsh --profile web (".to_owned();
    message.append(attempted);
    message.append("): ");
    message.append(error);
    message_page(message.as_str())
}

/// The message for an announced URL that the window cannot parse.
pub open spec fn unparseable_url_message(error: Seq<char>, url: Seq<char>) -> Seq<char> {
    "dsh web announced an unparseable URL ("@ + error + "): "@ + url
}

/// The page for an announced URL that the window cannot parse.
pub fn unparseable_url_page(error: &str, url: &str) -> (page: String)
    ensures
        page@ == message_page_text(unparseable_url_message(error@, url@)),
{
    let mut message: String = "dsh web announced an unparseable URL (".to_owned();
    message.append(error);
    message.append("): ");
    message.append(url);
    message_page(message.as_str())
}

/// The value of the hexadecimal digit `c`, in either case.
pub open spec fn hex_value(c: char) -> Option<nat> {
    if '0' <= c <= '9' {
        Some((c as nat - '0' as nat) as nat)
    } else if 'A' <= c <= 'F' {
        Some((c as nat - 'A' as nat + 10) as nat)
    } else if 'a' <= c <= 'f' {
        Some((c as nat - 'a' as nat + 10) as nat)
    } else {
        None
    }
}

/// Whether `s` begins with `%` and two hexadecimal digits.
pub open spec fn starts_with_escape(s: Seq<char>) -> bool {
    &&& s.len() >= 3
    &&& s[0] == '%'
    &&& hex_value(s[1]) is Some
    &&& hex_value(s[2]) is Some
}

/// The reader of a `data:` URL: each `%` with two hexadecimal digits stands
/// for the character of that code, every other character for itself.
pub open spec fn percent_decoded(s: Seq<char>) -> Seq<char>
    decreases s.len(),
{
    if s.len() == 0 {
        seq![]
    } else if starts_with_escape(s) {
        seq![(16 * hex_value(s[1])->0 + hex_value(s[2])->0) as char] + percent_decoded(s.skip(3))
    } else {
        seq![s[0]] + percent_decoded(s.skip(1))
    }
}

/// The character reference that `s` begins with, if it is one of the five
/// that the pages use: the character it stands for, and its length.
pub open spec fn leading_reference(s: Seq<char>) -> Option<(char, nat)> {
    if "&amp;"@.is_prefix_of(s) {
        Some(('&', 5))
    } else if "&lt;"@.is_prefix_of(s) {
        Some(('<', 4))
    } else if "&gt;"@.is_prefix_of(s) {
        Some(('>', 4))
    } else if "&quot;"@.is_prefix_of(s) {
        Some(('"', 6))
    } else if "&#39;"@.is_prefix_of(s) {
        Some(('\'', 5))
    } else {
        None
    }
}

/// The reader of HTML text: each character reference stands for its
/// character, every other character for itself.
pub open spec fn html_displayed(s: Seq<char>) -> Seq<char>
    decreases s.len(),
{
    if s.len() == 0 {
        seq![]
    } else {
        match leading_reference(s) {
            Some((c, n)) => {
                proof {
                    reveal_strlit("&amp;");
                    reveal_strlit("&lt;");
                    reveal_strlit("&gt;");
                    reveal_strlit("&quot;");
                    reveal_strlit("&#39;");
                }
                seq![c] + html_displayed(s.skip(n as int))
            },
            None => seq![s[0]] + html_displayed(s.skip(1)),
        }
    }
}

/// Makes the character references' spelling known to the solver.
proof fn lemma_references()
    ensures
        "&amp;"@ == seq!['&', 'a', 'm', 'p', ';'],
        "&lt;"@ == seq!['&', 'l', 't', ';'],
        "&gt;"@ == seq!['&', 'g', 't', ';'],
        "&quot;"@ == seq!['&', 'q', 'u', 'o', 't', ';'],
        "&#39;"@ == seq!['&', '#', '3', '9', ';'],
{
    reveal_strlit("&amp;");
    reveal_strlit("&lt;");
    reveal_strlit("&gt;");
    reveal_strlit("&quot;");
    reveal_strlit("&#39;");
    assert("&amp;"@ =~= seq!['&', 'a', 'm', 'p', ';']);
    assert("&lt;"@ =~= seq!['&', 'l', 't', ';']);
    assert("&gt;"@ =~= seq!['&', 'g', 't', ';']);
    assert("&quot;"@ =~= seq!['&', 'q', 'u', 'o', 't', ';']);
    assert("&#39;"@ =~= seq!['&', '#', '3', '9', ';']);
}

/// Reading the HTML text of `s` gives `s` back.
proof fn lemma_html_round_trip(s: Seq<char>)
    ensures
        html_displayed(html_escape_text(s)) == s,
    decreases s.len(),
{
    if s.len() > 0 {
        let c = s[0];
        let rest = html_escape_text(s.skip(1));
        let whole = html_escape_char(c) + rest;
        lemma_html_round_trip(s.skip(1));
        lemma_references();
        assert(whole.skip(html_escape_char(c).len() as int) =~= rest);
        if html_escape_char(c).len() == 1 {
            assert(whole[0] == c);
            assert(leading_reference(whole) is None);
        } else {
            assert(html_escape_char(c).is_prefix_of(whole));
            assert(whole[1] == html_escape_char(c)[1]);
            assert(leading_reference(whole) == Some((c, html_escape_char(c).len())));
        }
        assert(html_displayed(whole) =~= seq![c] + html_displayed(rest));
        assert(seq![c] + s.skip(1) =~= s);
    }
}

/// Decoding the `data:` URL body of `s` gives `s` back.
proof fn lemma_percent_round_trip(s: Seq<char>)
    ensures
        percent_decoded(url_escape_text(s)) == s,
    decreases s.len(),
{
    if s.len() > 0 {
        let c = s[0];
        let rest = url_escape_text(s.skip(1));
        let whole = url_escape_char(c) + rest;
        lemma_percent_round_trip(s.skip(1));
        vstd::utf8::char_u32_cast(c, c as u32);
        reveal_strlit("%25");
        reveal_strlit("%23");
        reveal_strlit("%3F");
        assert(whole.skip(url_escape_char(c).len() as int) =~= rest);
        if url_escape_char(c).len() == 1 {
            assert(whole[0] == c);
            assert(!starts_with_escape(whole));
        } else {
            assert(whole[0] == '%' && whole[1] == url_escape_char(c)[1] && whole[2]
                == url_escape_char(c)[2]);
            assert(starts_with_escape(whole));
            assert((16 * hex_value(whole[1])->0 + hex_value(whole[2])->0) as char == c);
        }
        assert(percent_decoded(whole) =~= seq![c] + percent_decoded(rest));
        assert(seq![c] + s.skip(1) =~= s);
    }
}

/// A message survives its encoding: reading the URL's body and then its HTML
/// text displays exactly the characters of the message.
pub proof fn law_message_is_displayed_verbatim(message: Seq<char>)
    ensures
        html_displayed(percent_decoded(encoded_message(message))) == message,
{
    lemma_percent_round_trip(html_escape_text(message));
    lemma_html_round_trip(message);
}

/// Whether no character of `s` ends the body of a `data:` URL or is dropped
/// from it: no `#`, no `?`, no control character below U+0020.
pub open spec fn stays_in_body(s: Seq<char>) -> bool {
    forall|i: int|
        0 <= i < s.len() ==> #[trigger] s[i] != '#' && s[i] != '?' && (s[i] as u32) >= 0x20
}

/// Whether every `%` of `s` begins an escape.
pub open spec fn escapes_are_whole(s: Seq<char>) -> bool {
    forall|i: int| 0 <= i < s.len() && #[trigger] s[i] == '%' ==> starts_with_escape(s.skip(i))
}

/// Whether `s` is plain HTML text: nothing in it opens or closes a tag or an
/// attribute value, and every `&` begins one of the five references.
pub open spec fn is_plain_html_text(s: Seq<char>) -> bool {
    forall|i: int|
        0 <= i < s.len() ==> #[trigger] s[i] != '<' && s[i] != '>' && s[i] != '"' && s[i] != '\''
            && (s[i] == '&' ==> leading_reference(s.skip(i)) is Some)
}

/// The HTML text of any message is plain.
proof fn lemma_html_text_is_plain(s: Seq<char>)
    ensures
        is_plain_html_text(html_escape_text(s)),
    decreases s.len(),
{
    if s.len() > 0 {
        let head = html_escape_char(s[0]);
        let rest = html_escape_text(s.skip(1));
        let whole = head + rest;
        lemma_html_text_is_plain(s.skip(1));
        lemma_references();
        assert forall|i: int| 0 <= i < whole.len() implies #[trigger] whole[i] != '<' && whole[i]
            != '>' && whole[i] != '"' && whole[i] != '\'' && (whole[i] == '&' ==> leading_reference(
            whole.skip(i),
        ) is Some) by {
            if i < head.len() {
                assert(whole[i] == head[i]);
                if i == 0 && head.len() > 1 {
                    assert(whole.skip(0) =~= whole);
                    assert(head.is_prefix_of(whole));
                }
            } else {
                assert(whole[i] == rest[i - head.len()]);
                assert(whole.skip(i) =~= rest.skip(i - head.len()));
            }
        }
    }
}

/// The body of a `data:` URL made of any text stays in the body, with whole
/// escapes only.
proof fn lemma_url_text_is_body(s: Seq<char>)
    ensures
        stays_in_body(url_escape_text(s)),
        escapes_are_whole(url_escape_text(s)),
    decreases s.len(),
{
    if s.len() > 0 {
        let head = url_escape_char(s[0]);
        let rest = url_escape_text(s.skip(1));
        let whole = head + rest;
        lemma_url_text_is_body(s.skip(1));
        reveal_strlit("%25");
        reveal_strlit("%23");
        reveal_strlit("%3F");
        vstd::utf8::char_u32_cast(s[0], s[0] as u32);
        assert forall|i: int| 0 <= i < whole.len() implies #[trigger] whole[i] != '#' && whole[i]
            != '?' && (whole[i] as u32) >= 0x20 && (whole[i] == '%' ==> starts_with_escape(
            whole.skip(i),
        )) by {
            if i < head.len() {
                assert(whole[i] == head[i]);
                if i == 0 && head.len() > 1 {
                    assert(whole.skip(0) =~= whole);
                    assert(whole[1] == head[1] && whole[2] == head[2]);
                }
            } else {
                assert(whole[i] == rest[i - head.len()]);
                assert(whole.skip(i) =~= rest.skip(i - head.len()));
            }
        }
    }
}

/// No message can act as markup: what the window parses as HTML holds no
/// `<`, `>` or quote of the message's, and no `&` but in a reference.
pub proof fn law_message_is_never_markup(message: Seq<char>)
    ensures
        is_plain_html_text(percent_decoded(encoded_message(message))),
{
    lemma_percent_round_trip(html_escape_text(message));
    lemma_html_text_is_plain(message);
}

/// No message can leave the body of its `data:` URL.
pub proof fn law_encoded_message_stays_in_body(message: Seq<char>)
    ensures
        stays_in_body(encoded_message(message)),
        escapes_are_whole(encoded_message(message)),
{
    lemma_url_text_is_body(html_escape_text(message));
}

/// A diagnostic page is one `data:` URL from its first to its last character,
/// whatever the message: the HTML media type, then a body that nothing cuts
/// short.
pub proof fn law_message_page_is_one_data_url(message: Seq<char>)
    ensures
        "data:text/html;charset=utf-8,"@.is_prefix_of(message_page_text(message)),
        stays_in_body(message_page_text(message)),
{
    law_encoded_message_stays_in_body(message);
    reveal_strlit("data:text/html;charset=utf-8,");
    reveal_strlit(
        "data:text/html;charset=utf-8,<!doctype html><html><body style='background:%23111;color:%23eee;font-family:sans-serif;padding:2rem;white-space:pre-wrap'><p>",
    );
    reveal_strlit("</p></body></html>");
    assert(stays_in_body(MESSAGE_PAGE_HEAD@));
    assert(stays_in_body(MESSAGE_PAGE_TAIL@));
}

/// The text that the window displays for `page`, if `page` is one paragraph of
/// text in the document that every diagnostic page is: the body between the
/// document's start and its end, decoded as a URL and read as HTML.
pub open spec fn text_displayed(page: Seq<char>) -> Option<Seq<char>> {
    let start =
        "data:text/html;charset=utf-8,<!doctype html><html><body style='background:%23111;color:%23eee;font-family:sans-serif;padding:2rem;white-space:pre-wrap'><p>"@;
    let end = "</p></body></html>"@;
    let body = page.subrange(start.len() as int, page.len() - end.len());
    if start.len() + end.len() <= page.len() && page == start + body + end && stays_in_body(body)
        && escapes_are_whole(body) && is_plain_html_text(percent_decoded(body)) {
        Some(html_displayed(percent_decoded(body)))
    } else {
        None
    }
}

/// A diagnostic page displays its message, the whole of it and nothing else,
/// however long it is and whatever it holds.
pub proof fn law_page_displays_its_message(message: Seq<char>)
    ensures
        text_displayed(message_page_text(message)) == Some(message),
{
    let page = message_page_text(message);
    let body = page.subrange(
        MESSAGE_PAGE_HEAD@.len() as int,
        page.len() - MESSAGE_PAGE_TAIL@.len(),
    );
    assert(body =~= encoded_message(message));
    law_message_is_displayed_verbatim(message);
    law_message_is_never_markup(message);
    law_encoded_message_stays_in_body(message);
}

/// The page for a `dsh web` that never became ready displays what it wrote to
/// stderr, the whole of it, unless that is all white space; then it says that
/// `dsh web` did not become reachable.
pub proof fn law_failure_page_displays_stderr(diagnostic: Seq<char>)
    ensures
        text_displayed(message_page_text(failure_message(diagnostic))) == Some(
            if forall|i: int|
                0 <= i < diagnostic.len() ==> crate::text::is_white_space(#[trigger] diagnostic[i]) {
                "dsh web did not become reachable within 30s. Check that `dsh` is on PATH and the configured port is free, then restart."@
            } else {
                "dsh web failed to start:\n\n"@ + diagnostic
            },
        ),
{
    law_page_displays_its_message(failure_message(diagnostic));
}

/// The page for a launch that failed displays what was attempted and what came
/// of it.
pub proof fn law_launch_failure_page_names_the_attempt(attempted: Seq<char>, error: Seq<char>)
    ensures
        text_displayed(message_page_text(launch_failure_message(attempted, error))) == Some(
            "failed to launch dsh --profile web ("@ + attempted + "): "@ + error,
        ),
{
    law_page_displays_its_message(launch_failure_message(attempted, error));
}

/// The page for a URL that could not be parsed displays the URL and why not.
pub proof fn law_unparseable_url_page_names_the_url(error: Seq<char>, url: Seq<char>)
    ensures
        text_displayed(message_page_text(unparseable_url_message(error, url))) == Some(
            "dsh web announced an unparseable URL ("@ + error + "): "@ + url,
        ),
{
    law_page_displays_its_message(unparseable_url_message(error, url));
}

/// The HTML text of two parts is the HTML text of each.
proof fn lemma_html_escape_parts(a: Seq<char>, b: Seq<char>)
    ensures
        html_escape_text(a + b) == html_escape_text(a) + html_escape_text(b),
    decreases a.len(),
{
    if a.len() == 0 {
        assert(a + b =~= b);
        assert(html_escape_text(a) + html_escape_text(b) =~= html_escape_text(b));
    } else {
        lemma_html_escape_parts(a.skip(1), b);
        assert((a + b).skip(1) =~= a.skip(1) + b);
        assert(html_escape_text(a + b) =~= html_escape_text(a) + html_escape_text(b));
    }
}

/// The `data:` URL body of two parts is the body of each.
proof fn lemma_url_escape_parts(a: Seq<char>, b: Seq<char>)
    ensures
        url_escape_text(a + b) == url_escape_text(a) + url_escape_text(b),
    decreases a.len(),
{
    if a.len() == 0 {
        assert(a + b =~= b);
        assert(url_escape_text(a) + url_escape_text(b) =~= url_escape_text(b));
    } else {
        lemma_url_escape_parts(a.skip(1), b);
        assert((a + b).skip(1) =~= a.skip(1) + b);
        assert(url_escape_text(a + b) =~= url_escape_text(a) + url_escape_text(b));
    }
}

/// A message is encoded character by character: no character's encoding depends
/// on what stands around it.
pub proof fn law_message_is_encoded_by_character(a: Seq<char>, b: Seq<char>)
    ensures
        encoded_message(seq![]) == Seq::<char>::empty(),
        encoded_message(a + b) == encoded_message(a) + encoded_message(b),
{
    assert(html_escape_text(seq![]) =~= seq![]);
    lemma_html_escape_parts(a, b);
    lemma_url_escape_parts(html_escape_text(a), html_escape_text(b));
}

/// The body of a `data:` URL made of the one character `c`.
proof fn lemma_url_escape_one(c: char)
    ensures
        url_escape_text(seq![c]) == url_escape_char(c),
{
    reveal_with_fuel(url_escape_text, 2);
    assert(seq![c].skip(1) =~= seq![]);
    assert(url_escape_text(seq![c]) =~= url_escape_char(c));
}

/// The encoding of the one character `c`.
proof fn lemma_encoded_one(c: char)
    ensures
        encoded_message(seq![c]) == url_escape_text(html_escape_char(c)),
{
    reveal_with_fuel(html_escape_text, 2);
    assert(seq![c].skip(1) =~= seq![]);
    assert(html_escape_text(seq![c]) =~= html_escape_char(c));
}

/// A character that means nothing to HTML or to a URL, and is no control
/// character, is left as it is.
pub proof fn law_plain_character_is_left_alone(c: char)
    requires
        c as int >= 0x20,
        c != '&' && c != '<' && c != '>' && c != '"' && c != '\'',
        c != '%' && c != '#' && c != '?',
    ensures
        encoded_message(seq![c]) == seq![c],
{
    lemma_encoded_one(c);
    lemma_url_escape_one(c);
}

/// A control character is written as `%` and the two digits of its code, in
/// upper-case hexadecimal.
pub proof fn law_control_character_is_written_by_its_code(c: char)
    requires
        (c as int) < 0x20,
    ensures
        ({
            let written = encoded_message(seq![c]);
            &&& written.len() == 3
            &&& written[0] == '%'
            &&& forall|i: int|
                1 <= i < 3 ==> '0' <= #[trigger] written[i] <= '9' || 'A' <= written[i] <= 'F'
            &&& 16 * hex_value(written[1])->0 + hex_value(written[2])->0 == c as int
        }),
{
    lemma_encoded_one(c);
    lemma_url_escape_one(c);
}

/// The characters that mean something to HTML are written as references, with
/// whatever of those means something to a URL escaped in turn; the others that
/// mean something to a URL are written by their codes.
pub proof fn law_special_character_is_written_out(c: char)
    ensures
        c == '&' ==> encoded_message(seq![c]) == "&amp;"@,
        c == '<' ==> encoded_message(seq![c]) == "&lt;"@,
        c == '>' ==> encoded_message(seq![c]) == "&gt;"@,
        c == '"' ==> encoded_message(seq![c]) == "&quot;"@,
        c == '\'' ==> encoded_message(seq![c]) == "&%2339;"@,
        c == '%' ==> encoded_message(seq![c]) == "%25"@,
        c == '#' ==> encoded_message(seq![c]) == "%23"@,
        c == '?' ==> encoded_message(seq![c]) == "%3F"@,
{
    let html = html_escape_char(c);
    lemma_encoded_one(c);
    lemma_references();
    if c == '\'' {
        let digits = seq!['3', '9', ';'];
        assert(html =~= seq!['&'] + seq!['#'] + digits);
        lemma_url_escape_parts(seq!['&'] + seq!['#'], digits);
        lemma_url_escape_parts(seq!['&'], seq!['#']);
        lemma_url_escape_one('&');
        lemma_url_escape_one('#');
        lemma_url_text_of_plain(digits);
        reveal_strlit("%23");
        reveal_strlit("&%2339;");
        assert(encoded_message(seq![c]) =~= "&%2339;"@);
    } else if html.len() > 1 {
        lemma_url_text_of_plain(html);
    } else {
        lemma_url_escape_one(c);
    }
}

/// Text without anything that means something to a URL is its own body.
proof fn lemma_url_text_of_plain(s: Seq<char>)
    requires
        forall|i: int|
            0 <= i < s.len() ==> #[trigger] s[i] != '%' && s[i] != '#' && s[i] != '?' && s[i] as int
                >= 0x20,
    ensures
        url_escape_text(s) == s,
    decreases s.len(),
{
    if s.len() > 0 {
        assert forall|i: int| 0 <= i < s.skip(1).len() implies #[trigger] s.skip(1)[i] != '%'
            && s.skip(1)[i] != '#' && s.skip(1)[i] != '?' && s.skip(1)[i] as int >= 0x20 by {
            assert(s.skip(1)[i] == s[i + 1]);
        }
        lemma_url_text_of_plain(s.skip(1));
        assert(url_escape_text(s) =~= s);
    }
}

} // verus!
