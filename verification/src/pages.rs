//! The pages of the web front end, as text.
//!
//! Every page is the outline with a body inside it. Text that comes from a
//! request is escaped before it goes into a page.

use vstd::prelude::*;
use vstd::string::*;

verus! {

/// The text that stands for `c` in HTML: the five characters that markup
/// is made of are replaced, every other character stands for itself.
pub open spec fn escaped_char(c: char) -> Seq<char> {
    if c == '<' {
        seq!['&', 'l', 't', ';']
    } else if c == '>' {
        seq!['&', 'g', 't', ';']
    } else if c == '&' {
        seq!['&', 'a', 'm', 'p', ';']
    } else if c == '"' {
        seq!['&', 'q', 'u', 'o', 't', ';']
    } else if c == '\'' {
        seq!['&', '#', 'x', '2', '7', ';']
    } else {
        seq![c]
    }
}

/// `text` with every character escaped for HTML.
pub open spec fn html_escaped(text: Seq<char>) -> Seq<char>
    decreases text.len(),
{
    if text.len() == 0 {
        Seq::empty()
    } else {
        html_escaped(text.drop_last()) + escaped_char(text.last())
    }
}

/// `askama::MarkupDisplay::new_unsafe` with the `askama::Html` escaper,
/// written out as a string: `text` with `<`, `>`, `&`, `"` and `'` replaced
/// by `&lt;`, `&gt;`, `&amp;`, `&quot;` and `&#x27;`.
#[verifier::external_body]
fn html_escape(text: &str) -> (escaped: String)
    ensures
        escaped@ == html_escaped(text@),
{
    askama::MarkupDisplay::new_unsafe(text, askama::Html).to_string()
}

pub const OUTLINE_HEAD: &'static str =
    "<!DOCTYPE html><html lang=\"en\"><head><meta charset=\"utf-8\"><title>Shortest link path</title><link rel=\"stylesheet\" href=\"/static/simple.min.css\"></head><body>";

pub const OUTLINE_TAIL: &'static str = "</body></html>";

/// The outline with `body` inside it.
pub open spec fn outline(body: Seq<char>) -> Seq<char> {
    OUTLINE_HEAD@ + body + OUTLINE_TAIL@
}

/// Puts `body` inside the outline, as it is.
fn outline_template(body: String) -> (page: String)
    ensures
        page@ == outline(body@),
{
    let mut page = String::from_str(OUTLINE_HEAD);
    page.append(body.as_str());
    page.append(OUTLINE_TAIL);
    page
}

/// The character of the digit `d`.
pub open spec fn digit_char(d: nat) -> char {
    if d == 0 {
        '0'
    } else if d == 1 {
        '1'
    } else if d == 2 {
        '2'
    } else if d == 3 {
        '3'
    } else if d == 4 {
        '4'
    } else if d == 5 {
        '5'
    } else if d == 6 {
        '6'
    } else if d == 7 {
        '7'
    } else if d == 8 {
        '8'
    } else {
        '9'
    }
}

/// `n` in decimal, without leading zeros.
pub open spec fn decimal_text(n: nat) -> Seq<char>
    decreases n,
{
    if n < 10 {
        seq![digit_char(n)]
    } else {
        decimal_text(n / 10).push(digit_char(n % 10))
    }
}

/// The digit `d` as text.
fn digit_text(d: u16) -> (text: &'static str)
    requires
        d < 10,
    ensures
        text@ == seq![digit_char(d as nat)],
{
    proof {
        reveal_strlit("0");
        reveal_strlit("1");
        reveal_strlit("2");
        reveal_strlit("3");
        reveal_strlit("4");
        reveal_strlit("5");
        reveal_strlit("6");
        reveal_strlit("7");
        reveal_strlit("8");
        reveal_strlit("9");
    }
    let text = if d == 0 {
        "0"
    } else if d == 1 {
        "1"
    } else if d == 2 {
        "2"
    } else if d == 3 {
        "3"
    } else if d == 4 {
        "4"
    } else if d == 5 {
        "5"
    } else if d == 6 {
        "6"
    } else if d == 7 {
        "7"
    } else if d == 8 {
        "8"
    } else {
        "9"
    };
    assert(text@ =~= seq![digit_char(d as nat)]);
    text
}

/// Writes `n` in decimal.
fn decimal(n: u16) -> (text: String)
    ensures
        text@ == decimal_text(n as nat),
    decreases n,
{
    if n < 10 {
        String::from_str(digit_text(n))
    } else {
        let mut text = decimal(n / 10);
        text.append(digit_text(n % 10));
        text
    }
}

pub const ENTRY_FORM: &'static str =
    "<h1>Shortest link path</h1><form action=\"/submit\" method=\"get\"><label>From <input name=\"from\"></label><label>To <input name=\"to\"></label><button>Find</button></form>";

pub const ERROR_HIDDEN: &'static str = "<p class=\"error\" hidden>";

pub const ERROR_SHOWN: &'static str = "<p class=\"error\">";

pub const PARAGRAPH_END: &'static str = "</p>";

pub const REDIRECT_HEAD: &'static str = "<meta http-equiv=\"refresh\" content=\"0; url=";

pub const REDIRECT_TAIL: &'static str = "\"><p>";

pub const STATUS_HEAD: &'static str = "<h1>";

pub const STATUS_TAIL: &'static str = "</h1><p>";

/// The body of the entry page: the query form, then the error message in a
/// paragraph that is hidden where `hide_error` says so.
pub open spec fn entry_body(hide_error: bool, error_message: Seq<char>) -> Seq<char> {
    ENTRY_FORM@ + (if hide_error {
        ERROR_HIDDEN@
    } else {
        ERROR_SHOWN@
    }) + html_escaped(error_message) + PARAGRAPH_END@
}

/// The body of the page shown while a query runs: a redirect to
/// `redirect_url`, then the message.
pub open spec fn submit_body(redirect_url: Seq<char>, message: Seq<char>) -> Seq<char> {
    REDIRECT_HEAD@ + html_escaped(redirect_url) + REDIRECT_TAIL@ + html_escaped(message)
        + PARAGRAPH_END@
}

/// The body of an error page: the status code as a heading, then the text.
pub open spec fn error_body(num: u16, text: Seq<char>) -> Seq<char> {
    STATUS_HEAD@ + decimal_text(num as nat) + STATUS_TAIL@ + html_escaped(text) + PARAGRAPH_END@
}

/// The entry page: the query form, with `error_message` escaped, shown or
/// hidden.
pub fn entry_template(hide_error: bool, error_message: String) -> (page: String)
    ensures
        page@ == outline(entry_body(hide_error, error_message@)),
{
    let mut body = String::from_str(ENTRY_FORM);
    if hide_error {
        body.append(ERROR_HIDDEN);
    } else {
        body.append(ERROR_SHOWN);
    }
    let escaped = html_escape(error_message.as_str());
    body.append(escaped.as_str());
    body.append(PARAGRAPH_END);
    outline_template(body)
}

/// The page shown while a query runs: it sends the browser on to
/// `redirect_url` and shows `message`, both escaped.
pub fn submit_template(redirect_url: String, message: String) -> (page: String)
    ensures
        page@ == outline(submit_body(redirect_url@, message@)),
{
    let mut body = String::from_str(REDIRECT_HEAD);
    let escaped_url = html_escape(redirect_url.as_str());
    body.append(escaped_url.as_str());
    body.append(REDIRECT_TAIL);
    let escaped_message = html_escape(message.as_str());
    body.append(escaped_message.as_str());
    body.append(PARAGRAPH_END);
    outline_template(body)
}

/// An error page: the status code `num` and `text`, escaped.
pub fn error_template(num: u16, text: String) -> (page: String)
    ensures
        page@ == outline(error_body(num, text@)),
{
    let mut body = String::from_str(STATUS_HEAD);
    let code = decimal(num);
    body.append(code.as_str());
    body.append(STATUS_TAIL);
    let escaped = html_escape(text.as_str());
    body.append(escaped.as_str());
    body.append(PARAGRAPH_END);
    outline_template(body)
}

} // verus!
