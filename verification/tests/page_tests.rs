use dsh_shell::page::{
    encode_message, failure_page, launch_failure_page, message_page, startup_failure_page,
    unparseable_url_page, LOADING_HTML, TIMEOUT_MESSAGE,
};

const HEAD: &str = "data:text/html;charset=utf-8,<!doctype html><html><body style='background:%23111;color:%23eee;font-family:sans-serif;padding:2rem;white-space:pre-wrap'><p>";
const TAIL: &str = "</p></body></html>";

fn page_of(encoded: &str) -> String {
    format!("{HEAD}{encoded}{TAIL}")
}

fn percent_decoded(text: &str) -> String {
    let chars: Vec<char> = text.chars().collect();
    let mut out = String::new();
    let mut i = 0;
    while i < chars.len() {
        if chars[i] == '%' {
            let code: String = chars[i + 1..i + 3].iter().collect();
            out.push(u8::from_str_radix(&code, 16).unwrap() as char);
            i += 3;
        } else {
            out.push(chars[i]);
            i += 1;
        }
    }
    out
}

fn displayed(html: &str) -> String {
    html.replace("&lt;", "<")
        .replace("&gt;", ">")
        .replace("&quot;", "\"")
        .replace("&#39;", "'")
        .replace("&amp;", "&")
}

#[test]
fn plain_text_is_left_alone() {
    assert_eq!(encode_message("dsh web: no such file"), "dsh web: no such file");
    assert_eq!(encode_message(""), "");
    assert_eq!(encode_message("Größe \u{1F600}"), "Größe \u{1F600}");
}

#[test]
fn markup_is_escaped_before_percent_encoding() {
    assert_eq!(
        encode_message("<img src=\"x\" onerror='a&b'>"),
        "&lt;img src=&quot;x&quot; onerror=&%2339;a&amp;b&%2339;&gt;"
    );
}

#[test]
fn url_syntax_and_control_characters_are_percent_encoded() {
    assert_eq!(encode_message("100%#?"), "100%25%23%3F");
    assert_eq!(encode_message("a\nb\tc\r\u{0}\u{1f}\u{7f}"), "a%0Ab%09c%0D%00%1F\u{7f}");
}

#[test]
fn an_encoded_message_is_displayed_verbatim() {
    let message = "50% of <b>\"it\"</b> & 'that'\n#1? &lt; &amp; %41";
    let encoded = encode_message(message);
    assert_eq!(displayed(&percent_decoded(&encoded)), message);
}

#[test]
fn an_encoded_message_is_never_markup_and_stays_in_the_body() {
    let encoded = encode_message("</p><script>alert('#?')</script>\n");
    assert!(!encoded.contains('#') && !encoded.contains('?') && !encoded.contains('\n'));
    let html = percent_decoded(&encoded);
    assert!(!html.contains('<') && !html.contains('>') && !html.contains('\''));
}

#[test]
fn a_message_page_wraps_the_encoded_message() {
    assert_eq!(message_page("a<b"), page_of("a&lt;b"));
    assert!(message_page("#").starts_with("data:text/html;charset=utf-8,"));
    assert!(!message_page("#?\n").contains(|c: char| c == '#' || c == '?' || c < ' '));
}

#[test]
fn the_loading_page_is_a_data_url() {
    assert_eq!(
        LOADING_HTML,
        "data:text/html;charset=utf-8,<!doctype html><html><body style='background:%23111;color:%23eee;font-family:sans-serif;display:flex;align-items:center;justify-content:center;height:100vh;margin:0'><p>Starting DeepSeek Harness&hellip;</p></body></html>"
    );
}

#[test]
fn blank_stderr_gives_the_timeout_message() {
    let expected = page_of("dsh web did not become reachable within 30s. Check that `dsh` is on PATH and the configured port is free, then restart.");
    assert_eq!(startup_failure_page(b""), expected);
    assert_eq!(startup_failure_page(" \n\t\u{a0}\u{3000}".as_bytes()), expected);
    assert_eq!(failure_page("\r\n"), expected);
    assert_eq!(message_page(TIMEOUT_MESSAGE), expected);
}

#[test]
fn stderr_gives_the_diagnostic() {
    assert_eq!(
        startup_failure_page(b"Error: port <5175> in use\n"),
        page_of("dsh web failed to start:%0A%0AError: port &lt;5175&gt; in use%0A")
    );
    assert_eq!(failure_page("x"), page_of("dsh web failed to start:%0A%0Ax"));
}

#[test]
fn stderr_that_is_not_utf8_is_shown_with_replacements() {
    assert_eq!(
        startup_failure_page(b"\xff ok \xe2\x82"),
        page_of("dsh web failed to start:%0A%0A\u{fffd} ok \u{fffd}")
    );
    assert_eq!(
        startup_failure_page(b"\xff"),
        page_of("dsh web failed to start:%0A%0A\u{fffd}")
    );
    assert_eq!(
        startup_failure_page("caf\u{e9}".as_bytes()),
        page_of("dsh web failed to start:%0A%0Acaf\u{e9}")
    );
}

#[test]
fn launch_failures_name_the_attempt() {
    assert_eq!(
        launch_failure_page("DSH_CLI_PATH=/opt/dsh", "No such file or directory (os error 2)"),
        page_of("failed to launch dsh --profile web (DSH_CLI_PATH=/opt/dsh): No such file or directory (os error 2)")
    );
}

#[test]
fn unparseable_urls_are_named() {
    assert_eq!(
        unparseable_url_page("invalid port number", "http://127.0.0.1:99999/?token=a"),
        page_of("dsh web announced an unparseable URL (invalid port number): http://127.0.0.1:99999/%3Ftoken=a")
    );
}
