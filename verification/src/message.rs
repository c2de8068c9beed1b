//! Message construction: plain text, Markdown, and the compact GitHub run card.

use matrix_sdk::ruma::events::room::message::RoomMessageEventContent;
use vstd::prelude::*;
use vstd::string::*;
use vstd::utf8::*;

use crate::text::{
    all_in, ascii_lowercase, chars_of, is_white_space, lemma_trailing_split,
    lemma_without_trailing_is_prefix, opt_view, same_text, to_ascii_lowercase, trim, trim_end_class,
    trimmed, without_trailing, CharClass,
};

verus! {

/// The content of an `m.room.message` event, as the Matrix SDK sends it.
#[verifier::external_type_specification]
#[verifier::external_body]
pub struct ExRoomMessageEventContent(RoomMessageEventContent);

/// What `RoomMessageEventContent::text_plain` makes of a body.
pub uninterp spec fn text_plain_content(body: Seq<char>) -> RoomMessageEventContent;

/// What `RoomMessageEventContent::text_html` makes of a body and its HTML form.
pub uninterp spec fn text_html_content(
    body: Seq<char>,
    html: Seq<char>,
) -> RoomMessageEventContent;

/// What `RoomMessageEventContent::notice_plain` makes of a body.
pub uninterp spec fn notice_plain_content(body: Seq<char>) -> RoomMessageEventContent;

/// What `RoomMessageEventContent::notice_html` makes of a body and its HTML form.
pub uninterp spec fn notice_html_content(
    body: Seq<char>,
    html: Seq<char>,
) -> RoomMessageEventContent;

/// `RoomMessageEventContent::text_plain`: an `m.text` with the given body.
#[verifier::external_body]
fn text_plain(body: String) -> (content: RoomMessageEventContent)
    ensures
        content == text_plain_content(body@),
{
    RoomMessageEventContent::text_plain(body)
}

/// `RoomMessageEventContent::text_html`: an `m.text` with the given body and formatted body.
#[verifier::external_body]
fn text_html(body: String, html: String) -> (content: RoomMessageEventContent)
    ensures
        content == text_html_content(body@, html@),
{
    RoomMessageEventContent::text_html(body, html)
}

/// `RoomMessageEventContent::notice_plain`: an `m.notice` with the given body.
#[verifier::external_body]
fn notice_plain(body: String) -> (content: RoomMessageEventContent)
    ensures
        content == notice_plain_content(body@),
{
    RoomMessageEventContent::notice_plain(body)
}

/// `RoomMessageEventContent::notice_html`: an `m.notice` with the given body and formatted body.
#[verifier::external_body]
fn notice_html(body: String, html: String) -> (content: RoomMessageEventContent)
    ensures
        content == notice_html_content(body@, html@),
{
    RoomMessageEventContent::notice_html(body, html)
}

/// A message ready to be turned into an `m.room.message`.
#[derive(Debug, Clone, PartialEq, Eq)]
pub struct Message {
    /// Plain-text `body`, always present (fallback for clients without HTML).
    pub body: String,
    /// Optional `formatted_body` (format `org.matrix.custom.html`).
    pub html: Option<String>,
    /// `m.notice` (bot output, not highlighted) rather than `m.text`.
    pub notice: bool,
}

/// The event content that stands for a message: notices and texts, each with or without a
/// formatted body.
pub open spec fn content_of(
    notice: bool,
    body: Seq<char>,
    html: Option<Seq<char>>,
) -> RoomMessageEventContent {
    match (notice, html) {
        (true, Some(h)) => notice_html_content(body, h),
        (true, None) => notice_plain_content(body),
        (false, Some(h)) => text_html_content(body, h),
        (false, None) => text_plain_content(body),
    }
}

/// The HTML is just a paragraph of the text, which only needed escaping. A double quote may stand
/// for itself there.
pub open spec fn is_paragraph_of(html: Seq<char>, text: Seq<char>) -> bool {
    ||| html == "<p>"@ + escaped(text) + "</p>"@
    ||| html == "<p>"@ + body_escaped(text) + "</p>"@
}

/// The formatted body of a Markdown message whose HTML form is `html`: none where the HTML is
/// just a paragraph of the text itself.
pub open spec fn worthwhile_html(md: Seq<char>, html: Seq<char>) -> Option<Seq<char>> {
    if is_paragraph_of(html, trimmed(md)) {
        None
    } else {
        Some(html)
    }
}

impl Message {
    /// A message without a formatted body.
    pub fn plain<B: Into<String>>(body: B, notice: bool) -> (message: Self)
        ensures
            call_ensures(<B as Into<String>>::into, (body,), message.body),
            message.html is None,
            message.notice == notice,
    {
        Self { body: body.into(), html: None, notice }
    }

    /// Body is Markdown; render it to a `formatted_body`. If the Markdown is just a paragraph of
    /// text, which at most needs escaping, no HTML is attached (nothing to gain).
    pub fn markdown(md: &str, notice: bool) -> (message: Self)
        ensures
            message.body@ == md@,
            opt_view(message.html) == worthwhile_html(md@, html_of(md@)),
            message.notice == notice,
    {
        let html = markdown_to_html(md);
        Self::markdown_rendered(md, html, notice)
    }

    /// The Markdown message whose HTML form is already at hand.
    pub fn markdown_rendered(md: &str, html: String, notice: bool) -> (message: Self)
        ensures
            message.body@ == md@,
            opt_view(message.html) == worthwhile_html(md@, html@),
            message.notice == notice,
    {
        let trivial = same_text(html.as_str(), paragraph(escape_html(trim(md))).as_str())
            || same_text(html.as_str(), paragraph(escape_body_text(trim(md))).as_str());
        Self {
            body: md.to_owned(),
            html: if trivial {
                None
            } else {
                Some(html)
            },
            notice,
        }
    }

    /// The event content that carries this message.
    pub fn into_content(self) -> (content: RoomMessageEventContent)
        ensures
            content == content_of(self.notice, self.body@, opt_view(self.html)),
    {
        match (self.notice, self.html) {
            (true, Some(h)) => notice_html(self.body, h),
            (true, None) => notice_plain(self.body),
            (false, Some(h)) => text_html(self.body, h),
            (false, None) => text_plain(self.body),
        }
    }
}

/// CommonMark with tables, strikethrough and task lists: the bits of
/// `Options::ENABLE_TABLES`, `Options::ENABLE_STRIKETHROUGH` and `Options::ENABLE_TASKLISTS`.
pub const MARKDOWN_OPTIONS: u32 = 0b1_1010;

/// The HTML that `pulldown_cmark::html::push_html` writes for the events of
/// `pulldown_cmark::Parser::new_ext` on a text, under the options with the given bits.
pub uninterp spec fn rendered_markdown(md: Seq<char>, options: u32) -> Seq<char>;

/// `pulldown_cmark::html::push_html` on `pulldown_cmark::Parser::new_ext`: the HTML form of `md`
/// under the options with the given bits. Its text is named, not described.
#[verifier::external_body]
fn render_markdown(md: &str, options: u32) -> (html: String)
    ensures
        html@ == rendered_markdown(md@, options),
{
    let options = pulldown_cmark::Options::from_bits_truncate(options);
    let parser = pulldown_cmark::Parser::new_ext(md, options);
    let mut html = String::new();
    pulldown_cmark::html::push_html(&mut html, parser);
    html
}

/// The HTML form of a Markdown text, without white space at its end.
pub open spec fn html_of(md: Seq<char>) -> Seq<char> {
    without_trailing(rendered_markdown(md, MARKDOWN_OPTIONS), CharClass::WhiteSpace)
}

/// CommonMark + tables/strikethrough/task lists (what people paste from GitHub). Raw HTML is
/// passed through: Matrix clients sanitise on display, and the sender is a trusted bot.
pub fn markdown_to_html(md: &str) -> (html: String)
    ensures
        html@ == html_of(md@),
{
    let html = render_markdown(md, MARKDOWN_OPTIONS);
    trim_end_class(html.as_str(), CharClass::WhiteSpace).to_owned()
}

/// How one character is written in HTML text or in a quoted attribute.
pub open spec fn escaped_char(c: char) -> Seq<char> {
    if c == '&' {
        "&amp;"@
    } else if c == '<' {
        "&lt;"@
    } else if c == '>' {
        "&gt;"@
    } else if c == '"' {
        "&quot;"@
    } else {
        seq![c]
    }
}

/// How a text is written in HTML text or in a quoted attribute.
pub open spec fn escaped(s: Seq<char>) -> Seq<char>
    decreases s.len(),
{
    if s.len() == 0 {
        Seq::empty()
    } else {
        escaped(s.drop_last()) + escaped_char(s.last())
    }
}

/// How a text is written in HTML text outside of attributes, where a double quote stands for itself.
pub open spec fn body_escaped(s: Seq<char>) -> Seq<char>
    decreases s.len(),
{
    if s.len() == 0 {
        Seq::empty()
    } else if s.last() == '"' {
        body_escaped(s.drop_last()).push('"')
    } else {
        body_escaped(s.drop_last()) + escaped_char(s.last())
    }
}

/// A paragraph of HTML text.
fn paragraph(text: String) -> (html: String)
    ensures
        html@ == "<p>"@ + text@ + "</p>"@,
{
    let mut html = "<p>".to_owned();
    html.append(text.as_str());
    html.append("</p>");
    html
}

/// `s` with `&`, `<` and `>` replaced by their character references.
fn escape_body_text(s: &str) -> (r: String)
    ensures
        r@ == body_escaped(s@),
{
    let chars = chars_of(s);
    let mut out = String::new();
    let mut i: usize = 0;
    while i < chars.len()
        invariant
            i <= chars.len(),
            chars@ == s@,
            out@ == body_escaped(s@.take(i as int)),
        decreases chars.len() - i,
    {
        let c = chars[i];
        match c {
            '&' => out.append("&amp;"),
            '<' => out.append("&lt;"),
            '>' => out.append("&gt;"),
            _ => out.push(c),
        }
        assert(s@.take(i as int + 1).drop_last() == s@.take(i as int));
        assert(out@ =~= body_escaped(s@.take(i as int + 1)));
        i = i + 1;
    }
    assert(s@.take(s@.len() as int) == s@);
    out
}

/// `s` with `&`, `<`, `>` and `"` replaced by their character references.
pub fn escape_html(s: &str) -> (r: String)
    ensures
        r@ == escaped(s@),
{
    let chars = chars_of(s);
    let mut out = String::new();
    let mut i: usize = 0;
    while i < chars.len()
        invariant
            i <= chars.len(),
            chars@ == s@,
            out@ == escaped(s@.take(i as int)),
        decreases chars.len() - i,
    {
        let c = chars[i];
        let ghost before = out@;
        match c {
            '&' => out.append("&amp;"),
            '<' => out.append("&lt;"),
            '>' => out.append("&gt;"),
            '"' => out.append("&quot;"),
            _ => out.push(c),
        }
        assert(out@ == before + escaped_char(c));
        assert(s@.take(i as int + 1).drop_last() == s@.take(i as int));
        i = i + 1;
    }
    assert(s@.take(s@.len() as int) == s@);
    out
}

/// Escaping works character by character: the escape of a concatenation is the concatenation of
/// the escapes.
pub proof fn law_escape_concat(a: Seq<char>, b: Seq<char>)
    ensures
        escaped(a + b) == escaped(a) + escaped(b),
    decreases b.len(),
{
    if b.len() == 0 {
        assert(a + b == a);
        assert(escaped(a) + escaped(b) == escaped(a));
    } else {
        law_escape_concat(a, b.drop_last());
        assert((a + b).drop_last() == a + b.drop_last());
        assert((a + b).last() == b.last());
        assert(escaped(a + b) == escaped(a) + escaped(b));
    }
}

/// Escaped text can neither open nor close an element nor end a quoted attribute.
pub proof fn law_escape_has_no_markup(s: Seq<char>)
    ensures
        !escaped(s).contains('<'),
        !escaped(s).contains('>'),
        !escaped(s).contains('"'),
    decreases s.len(),
{
    if s.len() > 0 {
        law_escape_has_no_markup(s.drop_last());
        let head = escaped(s.drop_last());
        let tail = escaped_char(s.last());
        reveal_strlit("&amp;");
        reveal_strlit("&lt;");
        reveal_strlit("&gt;");
        reveal_strlit("&quot;");
        assert forall|c: char| #[trigger] (head + tail).contains(c) implies head.contains(c)
            || tail.contains(c) by {
            let k = choose|k: int| 0 <= k < (head + tail).len() && (head + tail)[k] == c;
            if k < head.len() {
                assert(head[k] == c);
            } else {
                assert(tail[k - head.len()] == c);
            }
        }
    }
}

proof fn lemma_escaped_first(s: Seq<char>)
    requires
        s.len() > 0,
    ensures
        escaped(s) == escaped_char(s[0]) + escaped(s.drop_first()),
{
    let first = seq![s[0]];
    assert(s == first + s.drop_first());
    law_escape_concat(first, s.drop_first());
    assert(escaped(first.drop_last()) == Seq::<char>::empty());
    assert(escaped(first) == escaped_char(s[0]));
}

proof fn lemma_escaped_char_prefix_free(c: char, d: char, x: Seq<char>, y: Seq<char>)
    requires
        escaped_char(c) + x == escaped_char(d) + y,
    ensures
        c == d,
        x == y,
{
    reveal_strlit("&amp;");
    reveal_strlit("&lt;");
    reveal_strlit("&gt;");
    reveal_strlit("&quot;");
    let l = escaped_char(c) + x;
    let r = escaped_char(d) + y;
    assert(l[0] == escaped_char(c)[0]);
    assert(r[0] == escaped_char(d)[0]);
    if c != d {
        assert(l[0] == '&');
        assert(l[1] == escaped_char(c)[1]);
        assert(r[1] == escaped_char(d)[1]);
    }
    let n = escaped_char(c).len() as int;
    assert(x == l.skip(n));
    assert(y == r.skip(n));
}

/// Escaping loses nothing: two texts with the same escape are the same.
pub proof fn law_escape_injective(a: Seq<char>, b: Seq<char>)
    requires
        escaped(a) == escaped(b),
    ensures
        a == b,
    decreases a.len(),
{
    reveal_strlit("&amp;");
    reveal_strlit("&lt;");
    reveal_strlit("&gt;");
    reveal_strlit("&quot;");
    if a.len() > 0 {
        lemma_escaped_first(a);
    }
    if b.len() > 0 {
        lemma_escaped_first(b);
    }
    if a.len() > 0 && b.len() > 0 {
        lemma_escaped_char_prefix_free(
            a[0],
            b[0],
            escaped(a.drop_first()),
            escaped(b.drop_first()),
        );
        law_escape_injective(a.drop_first(), b.drop_first());
        assert(a == seq![a[0]] + a.drop_first());
        assert(b == seq![b[0]] + b.drop_first());
    } else if a.len() > 0 {
        assert(escaped(a).len() > 0);
    } else if b.len() > 0 {
        assert(escaped(b).len() > 0);
    }
}

/// Job status, as `${{ job.status }}` reports it.
#[derive(Debug, Clone, Copy, PartialEq, Eq, Structural)]
pub enum Status {
    Success,
    Failure,
    Cancelled,
}

/// The status that a text names, in any ASCII case and with white space around it.
pub open spec fn status_named(s: Seq<char>) -> Option<Status> {
    let t = ascii_lowercase(trimmed(s));
    if t == "success"@ || t == "succeeded"@ || t == "ok"@ || t == "passed"@ {
        Some(Status::Success)
    } else if t == "failure"@ || t == "failed"@ || t == "error"@ {
        Some(Status::Failure)
    } else if t == "cancelled"@ || t == "canceled"@ || t == "skipped"@ {
        Some(Status::Cancelled)
    } else {
        None
    }
}

impl Status {
    /// The status that `s` names, in any ASCII case and with white space around it.
    pub fn parse(s: &str) -> (status: Option<Self>)
        ensures
            status == status_named(s@),
    {
        let lower = to_ascii_lowercase(trim(s));
        let t = lower.as_str();
        if same_text(t, "success") || same_text(t, "succeeded") || same_text(t, "ok") || same_text(
            t,
            "passed",
        ) {
            Some(Self::Success)
        } else if same_text(t, "failure") || same_text(t, "failed") || same_text(t, "error") {
            Some(Self::Failure)
        } else if same_text(t, "cancelled") || same_text(t, "canceled") || same_text(t, "skipped") {
            Some(Self::Cancelled)
        } else {
            None
        }
    }

    /// The sign that stands first in a run card.
    pub open spec fn sign(self) -> Seq<char> {
        match self {
            Status::Success => "✅"@,
            Status::Failure => "❌"@,
            Status::Cancelled => "⚠️"@,
        }
    }

    /// What a run card says that the run did.
    pub open spec fn outcome(self) -> Seq<char> {
        match self {
            Status::Success => "succeeded"@,
            Status::Failure => "failed"@,
            Status::Cancelled => "was cancelled"@,
        }
    }

    fn glyph(self) -> (r: &'static str)
        ensures
            r@ == self.sign(),
    {
        match self {
            Self::Success => "✅",
            Self::Failure => "❌",
            Self::Cancelled => "⚠️",
        }
    }

    fn verb(self) -> (r: &'static str)
        ensures
            r@ == self.outcome(),
    {
        match self {
            Self::Success => "succeeded",
            Self::Failure => "failed",
            Self::Cancelled => "was cancelled",
        }
    }
}

/// The GitHub Actions environment we render. Built from `GITHUB_*` variables via
/// [`RunInfo::from_lookup`], or directly in tests.
#[derive(Debug, Clone, Default, PartialEq, Eq)]
pub struct RunInfo {
    pub server_url: String,
    pub repository: String,
    pub workflow: String,
    pub run_id: String,
    pub run_attempt: Option<String>,
    pub ref_name: String,
    pub sha: String,
    pub actor: String,
    pub job: Option<String>,
    pub event_name: Option<String>,
}

/// The value that was looked up, or `default` where there is none.
pub open spec fn or_default(value: Option<String>, default: Seq<char>) -> Seq<char> {
    match value {
        Some(v) => v@,
        None => default,
    }
}

/// The run attempt that is worth showing: the first one is the default and is not shown.
pub open spec fn shown_attempt(value: Option<String>) -> Option<Seq<char>> {
    match value {
        Some(v) => if v@ == "1"@ {
            None
        } else {
            Some(v@)
        },
        None => None,
    }
}

fn value_or(value: Option<String>, default: &str) -> (r: String)
    ensures
        r@ == or_default(value, default@),
{
    match value {
        Some(v) => v,
        None => default.to_owned(),
    }
}

/// The part of a commit hash that a run card shows: its first seven bytes, or all of it where it
/// is shorter.
pub open spec fn short_hash(sha: Seq<char>) -> Seq<char> {
    let bytes = encode_utf8(sha);
    decode_utf8(bytes.take(short_len(sha)))
}

/// The number of bytes of a commit hash that a run card shows.
pub open spec fn short_len(sha: Seq<char>) -> int {
    if encode_utf8(sha).len() < 7 {
        encode_utf8(sha).len() as int
    } else {
        7
    }
}

/// The hash can be cut after the bytes that a run card shows, that is, no character straddles
/// the cut.
pub open spec fn can_shorten(sha: Seq<char>) -> bool {
    is_char_boundary(encode_utf8(sha), short_len(sha))
}

/// Every ASCII hash can be shortened, and what is shown are its first seven characters.
pub proof fn law_short_hash_of_ascii(sha: Seq<char>)
    requires
        is_ascii_chars(sha),
    ensures
        can_shorten(sha),
        short_hash(sha) == sha.take(if sha.len() < 7 {
            sha.len() as int
        } else {
            7
        }),
{
    let n = short_len(sha);
    let bytes = encode_utf8(sha);
    is_ascii_chars_encode_utf8(sha);
    encode_utf8_valid_utf8(sha);
    let head = sha.take(n);
    assert(is_ascii_chars(head));
    is_ascii_chars_encode_utf8(head);
    assert(encode_utf8(head) == bytes.take(n));
    encode_utf8_decode_utf8(head);
    if n == bytes.len() {
        is_char_boundary_start_end_of_seq(bytes);
    } else {
        is_char_boundary_iff_not_is_continuation_byte(bytes, n);
        assert(bytes[n] == sha[n] as u8);
    }
}

/// The web page of a workflow run.
pub open spec fn run_page(
    server_url: Seq<char>,
    repository: Seq<char>,
    run_id: Seq<char>,
    attempt: Option<Seq<char>>,
) -> Seq<char> {
    let page = server_url + "/"@ + repository + "/actions/runs/"@ + run_id;
    match attempt {
        Some(a) => page + "/attempts/"@ + a,
        None => page,
    }
}

/// The web page of a commit.
pub open spec fn commit_page(
    server_url: Seq<char>,
    repository: Seq<char>,
    sha: Seq<char>,
) -> Seq<char> {
    server_url + "/"@ + repository + "/commit/"@ + sha
}

/// The text that is appended to a run card, where there is any.
pub open spec fn note_of(extra: Option<Seq<char>>) -> Option<Seq<char>> {
    match extra {
        Some(e) => if trimmed(e).len() > 0 {
            Some(trimmed(e))
        } else {
            None
        },
        None => None,
    }
}

/// A text with each line feed replaced by a line break element.
pub open spec fn with_breaks(s: Seq<char>) -> Seq<char>
    decreases s.len(),
{
    if s.len() == 0 {
        Seq::empty()
    } else if s.last() == '\n' {
        with_breaks(s.drop_last()) + "<br>"@
    } else {
        with_breaks(s.drop_last()).push(s.last())
    }
}

fn break_lines(s: &str) -> (r: String)
    ensures
        r@ == with_breaks(s@),
{
    let chars = chars_of(s);
    let mut out = String::new();
    let mut i: usize = 0;
    while i < chars.len()
        invariant
            i <= chars.len(),
            chars@ == s@,
            out@ == with_breaks(s@.take(i as int)),
        decreases chars.len() - i,
    {
        if chars[i] == '\n' {
            out.append("<br>");
        } else {
            out.push(chars[i]);
        }
        assert(s@.take(i as int + 1).drop_last() == s@.take(i as int));
        i = i + 1;
    }
    assert(s@.take(s@.len() as int) == s@);
    out
}

/// The HTML form of the text that is appended to a run card.
pub open spec fn note_html(note: Seq<char>, markdown: bool) -> Seq<char> {
    if markdown {
        html_of(note)
    } else {
        with_breaks(escaped(note))
    }
}

impl RunInfo {
    /// Which part of the workflow the card names: the job too, unless it is called like the
    /// workflow.
    pub open spec fn place(self) -> Seq<char> {
        match self.job {
            Some(job) => if job@ != self.workflow@ {
                self.workflow@ + " / "@ + job@
            } else {
                self.workflow@
            },
            None => self.workflow@,
        }
    }

    /// The web page of this run.
    pub open spec fn run_page(self) -> Seq<char> {
        run_page(self.server_url@, self.repository@, self.run_id@, opt_view(self.run_attempt))
    }

    /// The web page of this run's commit.
    pub open spec fn commit_page(self) -> Seq<char> {
        commit_page(self.server_url@, self.repository@, self.sha@)
    }

    /// The two lines of plain text of the card.
    pub open spec fn card_body(self, status: Status) -> Seq<char> {
        status.sign() + " "@ + self.repository@ + ": "@ + self.place() + " "@ + status.outcome()
            + " on "@ + self.ref_name@ + " ("@ + short_hash(self.sha@) + ") by "@ + self.actor@
            + "\n"@ + self.run_page()
    }

    /// The HTML of the card.
    pub open spec fn card_html(self, status: Status) -> Seq<char> {
        status.sign() + " <b>"@ + escaped(self.repository@) + "</b>: <a href=\""@ + escaped(
            self.run_page(),
        ) + "\">"@ + escaped(self.place()) + "</a> "@ + status.outcome() + " on <code>"@ + escaped(
            self.ref_name@,
        ) + "</code> (<a href=\""@ + escaped(self.commit_page()) + "\">"@ + escaped(
            short_hash(self.sha@),
        ) + "</a>) by "@ + escaped(self.actor@)
    }

    /// Reads the variables that GitHub Actions sets, each through `get`.
    pub fn from_lookup<F: Fn(&str) -> Option<String>>(get: F) -> (info: Self)
        requires
            forall|key: &str| call_requires(get, (key,)),
        ensures
            exists|v: Option<String>| #[trigger]
                call_ensures(get, ("GITHUB_SERVER_URL",), v) && info.server_url@ == or_default(
                    v,
                    "https://github.com"@,
                ),
            exists|v: Option<String>| #[trigger]
                call_ensures(get, ("GITHUB_REPOSITORY",), v) && info.repository@ == or_default(
                    v,
                    Seq::empty(),
                ),
            exists|v: Option<String>| #[trigger]
                call_ensures(get, ("GITHUB_WORKFLOW",), v) && info.workflow@ == or_default(
                    v,
                    Seq::empty(),
                ),
            exists|v: Option<String>| #[trigger]
                call_ensures(get, ("GITHUB_RUN_ID",), v) && info.run_id@ == or_default(
                    v,
                    Seq::empty(),
                ),
            exists|v: Option<String>| #[trigger]
                call_ensures(get, ("GITHUB_RUN_ATTEMPT",), v) && opt_view(info.run_attempt)
                    == shown_attempt(v),
            exists|v: Option<String>| #[trigger]
                call_ensures(get, ("GITHUB_REF_NAME",), v) && info.ref_name@ == or_default(
                    v,
                    Seq::empty(),
                ),
            exists|v: Option<String>| #[trigger]
                call_ensures(get, ("GITHUB_SHA",), v) && info.sha@ == or_default(v, Seq::empty()),
            exists|v: Option<String>| #[trigger]
                call_ensures(get, ("GITHUB_ACTOR",), v) && info.actor@ == or_default(
                    v,
                    Seq::empty(),
                ),
            exists|v: Option<String>| #[trigger]
                call_ensures(get, ("GITHUB_JOB",), v) && info.job == v,
            exists|v: Option<String>| #[trigger]
                call_ensures(get, ("GITHUB_EVENT_NAME",), v) && info.event_name == v,
    {
        proof {
            reveal_strlit("");
            assert(""@ == Seq::<char>::empty());
        }
        let attempt = get("GITHUB_RUN_ATTEMPT");
        let run_attempt = match attempt {
            Some(a) => if same_text(a.as_str(), "1") {
                None
            } else {
                Some(a)
            },
            None => None,
        };
        Self {
            server_url: value_or(get("GITHUB_SERVER_URL"), "https://github.com"),
            repository: value_or(get("GITHUB_REPOSITORY"), ""),
            workflow: value_or(get("GITHUB_WORKFLOW"), ""),
            run_id: value_or(get("GITHUB_RUN_ID"), ""),
            run_attempt,
            ref_name: value_or(get("GITHUB_REF_NAME"), ""),
            sha: value_or(get("GITHUB_SHA"), ""),
            actor: value_or(get("GITHUB_ACTOR"), ""),
            job: get("GITHUB_JOB"),
            event_name: get("GITHUB_EVENT_NAME"),
        }
    }

    /// The web page of this run (of the attempt, where one is set).
    pub fn run_url(&self) -> (url: String)
        ensures
            url@ == self.run_page(),
    {
        let mut u = self.server_url.clone();
        u.append("/");
        u.append(self.repository.as_str());
        u.append("/actions/runs/");
        u.append(self.run_id.as_str());
        if let Some(a) = &self.run_attempt {
            u.append("/attempts/");
            u.append(a.as_str());
        }
        u
    }

    /// The web page of this run's commit.
    pub fn commit_url(&self) -> (url: String)
        ensures
            url@ == self.commit_page(),
    {
        let mut u = self.server_url.clone();
        u.append("/");
        u.append(self.repository.as_str());
        u.append("/commit/");
        u.append(self.sha.as_str());
        u
    }

    /// The first seven bytes of the commit hash, or all of it where it is shorter.
    pub fn short_sha(&self) -> (short: &str)
        requires
            can_shorten(self.sha@),
        ensures
            short@ == short_hash(self.sha@),
    {
        let sha = self.sha.as_str();
        let len = sha.as_bytes().len();
        let n: usize = if len < 7 {
            len
        } else {
            7
        };
        let (head, _) = sha.split_at(n);
        proof {
            assert(head.spec_bytes() == encode_utf8(self.sha@).take(n as int));
            encode_utf8_decode_utf8(head@);
        }
        head
    }

    fn place_text(&self) -> (r: String)
        ensures
            r@ == self.place(),
    {
        let mut r = self.workflow.clone();
        if let Some(job) = &self.job {
            if !same_text(job.as_str(), self.workflow.as_str()) {
                r.append(" / ");
                r.append(job.as_str());
            }
        }
        r
    }

    /// Two lines of plain text plus an HTML card. `extra` is appended as a trailing paragraph
    /// (Markdown-rendered when `markdown` is set).
    pub fn render(&self, status: Status, extra: Option<&str>, markdown: bool) -> (message: Message)
        requires
            can_shorten(self.sha@),
        ensures
            match note_of(
                match extra {
                    Some(e) => Some(e@),
                    None => None,
                },
            ) {
                Some(note) => {
                    &&& message.body@ == self.card_body(status) + "\n"@ + note
                    &&& opt_view(message.html) == Some(
                        self.card_html(status) + "<br>"@ + note_html(note, markdown),
                    )
                },
                None => {
                    &&& message.body@ == self.card_body(status)
                    &&& opt_view(message.html) == Some(self.card_html(status))
                },
            },
            message.notice,
    {
        match extra {
            Some(e) => {
                let note = trim(e);
                if note.is_empty() {
                    self.card(status, None)
                } else if markdown {
                    let html = markdown_to_html(note);
                    self.card(status, Some((note, html.as_str())))
                } else {
                    let html = break_lines(escape_html(note).as_str());
                    self.card(status, Some((note, html.as_str())))
                }
            },
            None => self.card(status, None),
        }
    }

    /// The card with a trailing paragraph that is given both as text and as HTML.
    pub fn card(&self, status: Status, note: Option<(&str, &str)>) -> (message: Message)
        requires
            can_shorten(self.sha@),
        ensures
            match note {
                Some(n) => {
                    &&& message.body@ == self.card_body(status) + "\n"@ + n.0@
                    &&& opt_view(message.html) == Some(self.card_html(status) + "<br>"@ + n.1@)
                },
                None => {
                    &&& message.body@ == self.card_body(status)
                    &&& opt_view(message.html) == Some(self.card_html(status))
                },
            },
            message.notice,
    {
        let run_url = self.run_url();
        let place = self.place_text();

        let mut body = status.glyph().to_owned();
        body.append(" ");
        body.append(self.repository.as_str());
        body.append(": ");
        body.append(place.as_str());
        body.append(" ");
        body.append(status.verb());
        body.append(" on ");
        body.append(self.ref_name.as_str());
        body.append(" (");
        body.append(self.short_sha());
        body.append(") by ");
        body.append(self.actor.as_str());
        body.append("\n");
        body.append(run_url.as_str());

        let mut html = status.glyph().to_owned();
        html.append(" <b>");
        html.append(escape_html(self.repository.as_str()).as_str());
        html.append("</b>: <a href=\"");
        html.append(escape_html(run_url.as_str()).as_str());
        html.append("\">");
        html.append(escape_html(place.as_str()).as_str());
        html.append("</a> ");
        html.append(status.verb());
        html.append(" on <code>");
        html.append(escape_html(self.ref_name.as_str()).as_str());
        html.append("</code> (<a href=\"");
        html.append(escape_html(self.commit_url().as_str()).as_str());
        html.append("\">");
        html.append(escape_html(self.short_sha()).as_str());
        html.append("</a>) by ");
        html.append(escape_html(self.actor.as_str()).as_str());

        if let Some((text, text_html)) = note {
            body.append("\n");
            body.append(text);
            html.append("<br>");
            html.append(text_html);
        }
        Message { body, html: Some(html), notice: true }
    }
}

/// The characters of a text that open or close an element or a quoted attribute.
pub open spec fn markup(s: Seq<char>) -> Seq<char>
    decreases s.len(),
{
    if s.len() == 0 {
        Seq::empty()
    } else if s.last() == '<' || s.last() == '>' || s.last() == '"' {
        markup(s.drop_last()).push(s.last())
    } else {
        markup(s.drop_last())
    }
}

proof fn lemma_markup_concat(a: Seq<char>, b: Seq<char>)
    ensures
        markup(a + b) == markup(a) + markup(b),
    decreases b.len(),
{
    if b.len() == 0 {
        assert(a + b =~= a);
        assert(markup(a) + markup(b) =~= markup(a));
    } else {
        lemma_markup_concat(a, b.drop_last());
        assert((a + b).drop_last() =~= a + b.drop_last());
        assert((a + b).last() == b.last());
        assert(markup(a + b) =~= markup(a) + markup(b));
    }
}

proof fn lemma_escaped_has_no_markup(s: Seq<char>)
    ensures
        markup(escaped(s)) == Seq::<char>::empty(),
{
    law_escape_has_no_markup(s);
    lemma_no_markup(escaped(s));
}

proof fn lemma_no_markup(s: Seq<char>)
    requires
        !s.contains('<'),
        !s.contains('>'),
        !s.contains('"'),
    ensures
        markup(s) == Seq::<char>::empty(),
    decreases s.len(),
{
    if s.len() > 0 {
        let rest = s.drop_last();
        assert(s.contains(s[s.len() - 1]));
        assert forall|c: char| rest.contains(c) implies s.contains(c) by {
            let k = choose|k: int| 0 <= k < rest.len() && rest[k] == c;
            assert(s[k] == c);
        }
        lemma_no_markup(rest);
    }
}

/// Two texts that start with the same markup and go on with the same text, and with two escaped
/// fields, have the same markup.
proof fn lemma_same_markup(
    a: Seq<char>,
    b: Seq<char>,
    fixed: Seq<char>,
    x: Seq<char>,
    y: Seq<char>,
)
    requires
        markup(a) == markup(b),
    ensures
        markup(a + fixed + escaped(x)) == markup(b + fixed + escaped(y)),
{
    lemma_markup_concat(a, fixed);
    lemma_markup_concat(b, fixed);
    lemma_markup_concat(a + fixed, escaped(x));
    lemma_markup_concat(b + fixed, escaped(y));
    lemma_escaped_has_no_markup(x);
    lemma_escaped_has_no_markup(y);
}

/// What the run is called cannot change what the card is made of: the markup of a card is the same
/// for every run with the same status.
pub proof fn law_card_markup_is_fixed(a: RunInfo, b: RunInfo, status: Status)
    ensures
        markup(a.card_html(status)) == markup(b.card_html(status)),
{
    let s = status.sign();
    let x1 = s + " <b>"@ + escaped(a.repository@);
    let y1 = s + " <b>"@ + escaped(b.repository@);
    lemma_same_markup(s, s, " <b>"@, a.repository@, b.repository@);
    let f2 = "</b>: <a href=\""@;
    let x2 = x1 + f2 + escaped(a.run_page());
    let y2 = y1 + f2 + escaped(b.run_page());
    lemma_same_markup(x1, y1, f2, a.run_page(), b.run_page());
    let x3 = x2 + "\">"@ + escaped(a.place());
    let y3 = y2 + "\">"@ + escaped(b.place());
    lemma_same_markup(x2, y2, "\">"@, a.place(), b.place());
    lemma_markup_concat(x3, "</a> "@);
    lemma_markup_concat(y3, "</a> "@);
    let x4 = x3 + "</a> "@ + status.outcome();
    let y4 = y3 + "</a> "@ + status.outcome();
    lemma_markup_concat(x3 + "</a> "@, status.outcome());
    lemma_markup_concat(y3 + "</a> "@, status.outcome());
    let f5 = " on <code>"@;
    let x5 = x4 + f5 + escaped(a.ref_name@);
    let y5 = y4 + f5 + escaped(b.ref_name@);
    lemma_same_markup(x4, y4, f5, a.ref_name@, b.ref_name@);
    let f6 = "</code> (<a href=\""@;
    let x6 = x5 + f6 + escaped(a.commit_page());
    let y6 = y5 + f6 + escaped(b.commit_page());
    lemma_same_markup(x5, y5, f6, a.commit_page(), b.commit_page());
    let x7 = x6 + "\">"@ + escaped(short_hash(a.sha@));
    let y7 = y6 + "\">"@ + escaped(short_hash(b.sha@));
    lemma_same_markup(x6, y6, "\">"@, short_hash(a.sha@), short_hash(b.sha@));
    lemma_same_markup(x7, y7, "</a>) by "@, a.actor@, b.actor@);
}

/// Every character is written in a way of its own: the four that mean something in HTML by their names,
/// and every other as it stands. Together with [`law_escape_concat`] this says what every text is
/// escaped to.
pub proof fn law_escape_of_each_character(c: char, s: &str, r: String)
    requires
        call_ensures(escape_html, (s,), r),
        s@ == seq![c],
    ensures
        c == '&' ==> r@ == "&amp;"@,
        c == '<' ==> r@ == "&lt;"@,
        c == '>' ==> r@ == "&gt;"@,
        c == '"' ==> r@ == "&quot;"@,
        c != '&' && c != '<' && c != '>' && c != '"' ==> r@ == seq![c],
{
    assert(s@.drop_last() =~= Seq::empty());
    assert(escaped(s@.drop_last()) =~= Seq::empty());
    assert(r@ =~= escaped_char(c));
}

/// Escaping outside of attributes differs from escaping only in that a double quote stands for itself:
/// it works character by character, and leaves no `<` and no `>`.
pub proof fn law_body_escape_keeps_quotes(a: Seq<char>, b: Seq<char>)
    ensures
        body_escaped(a + b) == body_escaped(a) + body_escaped(b),
        body_escaped(seq!['"']) == seq!['"'],
        forall|c: char| c != '"' ==> #[trigger] body_escaped(seq![c]) == escaped(seq![c]),
        !body_escaped(b).contains('<') && !body_escaped(b).contains('>'),
    decreases b.len(),
{
    assert forall|c: char| c != '"' implies #[trigger] body_escaped(seq![c]) == escaped(
        seq![c],
    ) by {
        let one = seq![c];
        assert(one.drop_last() =~= Seq::empty());
        assert(body_escaped(one.drop_last()) =~= Seq::empty());
        assert(escaped(one.drop_last()) =~= Seq::empty());
    }
    let quote = seq!['"'];
    assert(quote.drop_last() =~= Seq::empty());
    assert(body_escaped(quote.drop_last()) =~= Seq::empty());
    assert(body_escaped(quote) =~= quote);
    if b.len() == 0 {
        assert(a + b =~= a);
        assert(body_escaped(a) + body_escaped(b) =~= body_escaped(a));
    } else {
        law_body_escape_keeps_quotes(a, b.drop_last());
        assert((a + b).drop_last() =~= a + b.drop_last());
        assert((a + b).last() == b.last());
        assert(body_escaped(a + b) =~= body_escaped(a) + body_escaped(b));
        reveal_strlit("&amp;");
        reveal_strlit("&lt;");
        reveal_strlit("&gt;");
        let head = body_escaped(b.drop_last());
        let tail = if b.last() == '"' {
            seq!['"']
        } else {
            escaped_char(b.last())
        };
        assert(body_escaped(b) =~= head + tail);
        assert forall|c: char| #[trigger] body_escaped(b).contains(c) implies head.contains(c)
            || tail.contains(c) by {
            let k = choose|k: int| 0 <= k < body_escaped(b).len() && body_escaped(b)[k] == c;
            if k < head.len() {
                assert(head[k] == c);
            } else {
                assert(tail[k - head.len()] == c);
            }
        }
    }
}

/// The HTML form of a Markdown text is what the renderer gives, with tables, strikethrough and task
/// lists enabled, and nothing is lost of it but white space at its end.
pub proof fn law_rendered_html_is_kept_whole(md: &str, html: String)
    requires
        call_ensures(markdown_to_html, (md,), html),
    ensures
        exists|tail: Seq<char>|
            rendered_markdown(md@, 0b1_1010) == html@ + tail && #[trigger] all_in(
                tail,
                CharClass::WhiteSpace,
            ),
        html@.len() > 0 ==> !is_white_space(html@.last()),
{
    let whole = rendered_markdown(md@, MARKDOWN_OPTIONS);
    lemma_trailing_split(whole, CharClass::WhiteSpace);
    lemma_without_trailing_is_prefix(whole, CharClass::WhiteSpace);
    assert(all_in(whole.skip(html@.len() as int), CharClass::WhiteSpace));
}

/// Where a Markdown message has a formatted body, it is the whole HTML form of the Markdown, the one
/// that was handed in or the one that rendering gives; and it has none exactly where that is one paragraph of the trimmed text, escaped, with its double quotes escaped
/// or not. The plain body is the Markdown itself.
pub proof fn law_markdown_message_holds_the_whole_html(
    md: &str,
    notice: bool,
    html: String,
    text: &str,
    escape: String,
    message: Message,
)
    requires
        call_ensures(trim, (md,), text),
        call_ensures(escape_html, (text,), escape),
        call_ensures(Message::markdown_rendered, (md, html, notice), message) || (call_ensures(
            markdown_to_html,
            (md,),
            html,
        ) && call_ensures(Message::markdown, (md, notice), message)),
    ensures
        message.body@ == md@,
        message.notice == notice,
        message.html matches Some(h) ==> h@ == html@,
        message.html is None <==> html@ == "<p>"@ + escape@ + "</p>"@ || html@ == "<p>"@
            + body_escaped(text@) + "</p>"@,
{
}

/// A message without a formatted body is its text.
pub proof fn law_plain_message_is_its_text(body: String, notice: bool, message: Message)
    requires
        call_ensures(Message::plain::<String>, (body, notice), message),
    ensures
        message.body@ == body@,
        message.html is None,
        message.notice == notice,
{
}

/// The event content carries the body and the formatted body whole, as a notice exactly where the
/// message is one.
pub proof fn law_content_carries_the_message(message: Message, content: RoomMessageEventContent)
    requires
        call_ensures(Message::into_content, (message,), content),
    ensures
        message.notice ==> match message.html {
            Some(h) => content == notice_html_content(message.body@, h@),
            None => content == notice_plain_content(message.body@),
        },
        !message.notice ==> match message.html {
            Some(h) => content == text_html_content(message.body@, h@),
            None => content == text_plain_content(message.body@),
        },
{
}

/// A status is what one of its names says, whatever the case of its letters and the white space around
/// it, and no other text is one.
pub proof fn law_status_goes_by_its_names(
    s: &str,
    word: &str,
    lower: String,
    status: Option<Status>,
)
    requires
        call_ensures(trim, (s,), word),
        call_ensures(crate::text::to_ascii_lowercase, (word,), lower),
        call_ensures(Status::parse, (s,), status),
    ensures
        status == Some(Status::Success) <==> lower@ == "success"@ || lower@ == "succeeded"@ || lower@
            == "ok"@ || lower@ == "passed"@,
        status == Some(Status::Failure) <==> lower@ == "failure"@ || lower@ == "failed"@ || lower@
            == "error"@,
        status == Some(Status::Cancelled) <==> lower@ == "cancelled"@ || lower@ == "canceled"@
            || lower@ == "skipped"@,
{
    reveal_strlit("success");
    reveal_strlit("succeeded");
    reveal_strlit("ok");
    reveal_strlit("passed");
    reveal_strlit("failure");
    reveal_strlit("failed");
    reveal_strlit("error");
    reveal_strlit("cancelled");
    reveal_strlit("canceled");
    reveal_strlit("skipped");
    let first = if lower@.len() > 0 {
        lower@[0]
    } else {
        ' '
    };
    assert(lower@ == "success"@ || lower@ == "succeeded"@ ==> first == 's' && lower@[1] == 'u');
    assert(lower@ == "ok"@ ==> first == 'o');
    assert(lower@ == "passed"@ ==> first == 'p');
    assert(lower@ == "failure"@ || lower@ == "failed"@ ==> first == 'f');
    assert(lower@ == "error"@ ==> first == 'e');
    assert(lower@ == "cancelled"@ || lower@ == "canceled"@ ==> first == 'c');
    assert(lower@ == "skipped"@ ==> first == 's' && lower@[1] == 'k');
}

/// The text of a value that was looked up, or the given one where there is none.
pub open spec fn looked_up_or(value: Option<String>, default: Seq<char>) -> Seq<char> {
    match value {
        Some(v) => v@,
        None => default,
    }
}

/// What the environment tells of a run is taken as it stands, each part from its own variable; only the
/// server has a default, and only the first attempt is not kept.
pub proof fn law_run_is_read_from_its_variables<F: Fn(&str) -> Option<String>>(
    get: F,
    found: spec_fn(Seq<char>) -> Option<String>,
    info: RunInfo,
)
    requires
        call_ensures(RunInfo::from_lookup::<F>, (get,), info),
        forall|key: &str, v: Option<String>| #[trigger]
            call_ensures(get, (key,), v) ==> v == found(key@),
    ensures
        info.server_url@ == looked_up_or(found("GITHUB_SERVER_URL"@), "https://github.com"@),
        info.repository@ == looked_up_or(found("GITHUB_REPOSITORY"@), Seq::empty()),
        info.workflow@ == looked_up_or(found("GITHUB_WORKFLOW"@), Seq::empty()),
        info.run_id@ == looked_up_or(found("GITHUB_RUN_ID"@), Seq::empty()),
        info.ref_name@ == looked_up_or(found("GITHUB_REF_NAME"@), Seq::empty()),
        info.sha@ == looked_up_or(found("GITHUB_SHA"@), Seq::empty()),
        info.actor@ == looked_up_or(found("GITHUB_ACTOR"@), Seq::empty()),
        info.job == found("GITHUB_JOB"@),
        info.event_name == found("GITHUB_EVENT_NAME"@),
        match found("GITHUB_RUN_ATTEMPT"@) {
            Some(a) => if a@ == "1"@ {
                info.run_attempt is None
            } else {
                info.run_attempt matches Some(shown) && shown@ == a@
            },
            None => info.run_attempt is None,
        },
{
}

/// The pages of a run and of its commit are below the repository's page on the server; that of a run
/// names the attempt exactly where one is set.
pub proof fn law_pages_are_below_the_repository(info: &RunInfo, run: String, commit: String)
    requires
        call_ensures(RunInfo::run_url, (info,), run),
        call_ensures(RunInfo::commit_url, (info,), commit),
    ensures
        ({
            let home = info.server_url@ + "/"@ + info.repository@;
            &&& commit@ == home + "/commit/"@ + info.sha@
            &&& info.run_attempt is None ==> run@ == home + "/actions/runs/"@ + info.run_id@
            &&& info.run_attempt matches Some(a) ==> run@ == home + "/actions/runs/"@ + info.run_id@
                + "/attempts/"@ + a@
        }),
{
}

/// The short form of a commit hash is its first seven bytes, or all of it where it has fewer.
pub proof fn law_short_hash_comes_first(info: &RunInfo, short: &str)
    requires
        can_shorten(info.sha@),
        call_ensures(RunInfo::short_sha, (info,), short),
    ensures
        encode_utf8(short@) == encode_utf8(info.sha@).take(if encode_utf8(info.sha@).len() < 7 {
            encode_utf8(info.sha@).len() as int
        } else {
            7
        }),
{
    let bytes = encode_utf8(info.sha@);
    let n = short_len(info.sha@);
    encode_utf8_valid_utf8(info.sha@);
    valid_utf8_split(bytes, n);
    assert(bytes.subrange(0, n) =~= bytes.take(n));
    decode_utf8_encode_utf8(bytes.take(n));
}

/// The name of the place that a card is about: the workflow, and the job where it is called otherwise.
pub open spec fn names_place(place: Seq<char>, info: RunInfo) -> bool {
    match info.job {
        Some(job) => if job@ == info.workflow@ {
            place == info.workflow@
        } else {
            place == info.workflow@ + " / "@ + job@
        },
        None => place == info.workflow@,
    }
}

/// How a card names the status of a run.
pub open spec fn names_status(glyph: Seq<char>, verb: Seq<char>, status: Status) -> bool {
    match status {
        Status::Success => glyph == "✅"@ && verb == "succeeded"@,
        Status::Failure => glyph == "❌"@ && verb == "failed"@,
        Status::Cancelled => glyph == "⚠️"@ && verb == "was cancelled"@,
    }
}

/// A card tells everything of a run, and all of it: the first line of its text names the repository, the
/// place, the status, the branch, the short hash and the actor, each whole, and the second is the page
/// of the run. It is a notice, and it has an HTML form.
pub proof fn law_card_tells_the_whole_run(
    info: &RunInfo,
    status: Status,
    glyph: Seq<char>,
    verb: Seq<char>,
    place: Seq<char>,
    short: &str,
    run: String,
    message: Message,
)
    requires
        can_shorten(info.sha@),
        names_status(glyph, verb, status),
        names_place(place, *info),
        call_ensures(RunInfo::short_sha, (info,), short),
        call_ensures(RunInfo::run_url, (info,), run),
        call_ensures(RunInfo::card, (info, status, None::<(&str, &str)>), message),
    ensures
        message.body@ == glyph + " "@ + info.repository@ + ": "@ + place + " "@ + verb + " on "@
            + info.ref_name@ + " ("@ + short@ + ") by "@ + info.actor@ + "\n"@ + run@,
        message.notice,
        message.html is Some,
{
}

/// The HTML form of a card tells the same, with every part of it escaped whole: the place links to the
/// page of the run, and the short hash to that of the commit.
pub proof fn law_card_html_tells_the_whole_run(
    info: &RunInfo,
    status: Status,
    glyph: Seq<char>,
    verb: Seq<char>,
    place: Seq<char>,
    short: &str,
    run: String,
    commit: String,
    message: Message,
)
    requires
        can_shorten(info.sha@),
        names_status(glyph, verb, status),
        names_place(place, *info),
        call_ensures(RunInfo::short_sha, (info,), short),
        call_ensures(RunInfo::run_url, (info,), run),
        call_ensures(RunInfo::commit_url, (info,), commit),
        call_ensures(RunInfo::card, (info, status, None::<(&str, &str)>), message),
    ensures
        message.html matches Some(html) && html@ == glyph + " <b>"@ + escaped(info.repository@)
            + "</b>: <a href=\""@ + escaped(run@) + "\">"@ + escaped(place) + "</a> "@ + verb
            + " on <code>"@ + escaped(info.ref_name@) + "</code> (<a href=\""@ + escaped(commit@)
            + "\">"@ + escaped(short@) + "</a>) by "@ + escaped(info.actor@),
{
}

/// A note follows the card, whole, in the text and in the HTML form, and changes nothing before it. The
/// note is the trimmed extra text; one that is empty leaves the card alone.
pub proof fn law_note_follows_the_card(
    info: &RunInfo,
    status: Status,
    extra: &str,
    note: &str,
    markdown: bool,
    html: String,
    escape: String,
    card: Message,
    message: Message,
    without: Message,
)
    requires
        can_shorten(info.sha@),
        call_ensures(trim, (extra,), note),
        call_ensures(markdown_to_html, (note,), html),
        call_ensures(escape_html, (note,), escape),
        call_ensures(RunInfo::card, (info, status, None::<(&str, &str)>), card),
        call_ensures(RunInfo::render, (info, status, Some(extra), markdown), message),
        call_ensures(RunInfo::render, (info, status, None::<&str>, markdown), without),
    ensures
        without.body@ == card.body@ && opt_view(without.html) == opt_view(card.html),
        message.notice && without.notice,
        note@.len() == 0 ==> message.body@ == card.body@ && opt_view(message.html) == opt_view(
            card.html,
        ),
        note@.len() > 0 ==> {
            &&& message.body@ == card.body@ + "\n"@ + note@
            &&& card.html matches Some(c) && message.html matches Some(m) && m@ == c@ + "<br>"@ + (
            if markdown {
                html@
            } else {
                with_breaks(escape@)
            })
        },
{
}

/// Line feeds become line breaks, and nothing else changes.
pub proof fn law_breaks_stand_for_line_feeds(a: Seq<char>, b: Seq<char>)
    ensures
        with_breaks(a + b) == with_breaks(a) + with_breaks(b),
        with_breaks(seq!['\n']) == "<br>"@,
        !b.contains('\n') ==> with_breaks(b) == b,
    decreases b.len(),
{
    let feed = seq!['\n'];
    assert(feed.drop_last() =~= Seq::empty());
    assert(with_breaks(feed.drop_last()) =~= Seq::empty());
    assert(with_breaks(feed) =~= "<br>"@);
    if b.len() == 0 {
        assert(a + b =~= a);
        assert(with_breaks(a) + with_breaks(b) =~= with_breaks(a));
    } else {
        let rest = b.drop_last();
        law_breaks_stand_for_line_feeds(a, rest);
        assert((a + b).drop_last() =~= a + rest);
        assert((a + b).last() == b.last());
        assert(with_breaks(a + b) =~= with_breaks(a) + with_breaks(b));
        if !b.contains('\n') {
            assert(b.contains(b[b.len() - 1]));
            assert forall|c: char| rest.contains(c) implies b.contains(c) by {
                let k = choose|k: int| 0 <= k < rest.len() && rest[k] == c;
                assert(b[k] == c);
            }
            assert(with_breaks(b) =~= b);
        }
    }
}

/// A note that is given both as text and as HTML follows the card in both, whole.
pub proof fn law_given_note_follows_the_card(
    info: &RunInfo,
    status: Status,
    text: &str,
    html: &str,
    card: Message,
    message: Message,
)
    requires
        can_shorten(info.sha@),
        call_ensures(RunInfo::card, (info, status, None::<(&str, &str)>), card),
        call_ensures(RunInfo::card, (info, status, Some((text, html))), message),
    ensures
        message.body@ == card.body@ + "\n"@ + text@,
        card.html matches Some(c) && message.html matches Some(m) && m@ == c@ + "<br>"@ + html@,
        message.notice,
{
}

} // verus!
