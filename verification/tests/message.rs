use matrix_notify::message::{escape_html, markdown_to_html, Message, RunInfo, Status, MARKDOWN_OPTIONS};
use matrix_sdk::ruma::events::room::message::MessageType;
use pulldown_cmark::Options;

fn info() -> RunInfo {
    RunInfo {
        server_url: "https://github.com".into(),
        repository: "acme/widgets".into(),
        workflow: "CI".into(),
        run_id: "1234567890".into(),
        run_attempt: None,
        ref_name: "main".into(),
        sha: "0123456789abcdef0123456789abcdef01234567".into(),
        actor: "octocat".into(),
        job: Some("build".into()),
        event_name: Some("push".into()),
    }
}

#[test]
fn github_run_golden_success() {
    let m = info().render(Status::Success, None, false);
    assert!(m.notice);
    assert_eq!(
        m.body,
        "✅ acme/widgets: CI / build succeeded on main (0123456) by octocat\n\
         https://github.com/acme/widgets/actions/runs/1234567890"
    );
    assert_eq!(
        m.html.as_deref().unwrap(),
        "✅ <b>acme/widgets</b>: <a href=\"https://github.com/acme/widgets/actions/runs/1234567890\">CI / build</a> \
         succeeded on <code>main</code> \
         (<a href=\"https://github.com/acme/widgets/commit/0123456789abcdef0123456789abcdef01234567\">0123456</a>) by octocat"
    );
}

#[test]
fn github_run_golden_failure_with_extra_and_attempt() {
    let mut i = info();
    i.run_attempt = Some("2".into());
    i.job = None;
    let m = i.render(Status::Failure, Some("  see *logs* & retry\n"), true);
    assert_eq!(
        m.body,
        "❌ acme/widgets: CI failed on main (0123456) by octocat\n\
         https://github.com/acme/widgets/actions/runs/1234567890/attempts/2\n\
         see *logs* & retry"
    );
    assert_eq!(
        m.html.as_deref().unwrap(),
        "❌ <b>acme/widgets</b>: <a href=\"https://github.com/acme/widgets/actions/runs/1234567890/attempts/2\">CI</a> \
         failed on <code>main</code> \
         (<a href=\"https://github.com/acme/widgets/commit/0123456789abcdef0123456789abcdef01234567\">0123456</a>) by octocat\
         <br><p>see <em>logs</em> &amp; retry</p>"
    );
}

#[test]
fn github_run_cancelled_escapes_html_in_fields() {
    let mut i = info();
    i.ref_name = "feat/<b>x</b>".into();
    i.job = Some("CI".into()); // same as workflow: not repeated
    let m = i.render(Status::Cancelled, Some("a<b"), false);
    assert!(m.body.starts_with("⚠️ acme/widgets: CI was cancelled on feat/<b>x</b>"));
    let h = m.html.unwrap();
    assert!(h.contains("<code>feat/&lt;b&gt;x&lt;/b&gt;</code>"), "{h}");
    assert!(h.ends_with("<br>a&lt;b"), "{h}");
    assert!(!h.contains("CI / CI"));
}

#[test]
fn from_lookup_defaults() {
    let i = RunInfo::from_lookup(|k| match k {
        "GITHUB_REPOSITORY" => Some("a/b".into()),
        "GITHUB_RUN_ATTEMPT" => Some("1".into()),
        _ => None,
    });
    assert_eq!(i.server_url, "https://github.com");
    assert_eq!(i.run_attempt, None, "attempt 1 is the default and not shown");
    assert_eq!(i.run_url(), "https://github.com/a/b/actions/runs/");
    assert_eq!(i.short_sha(), "");
}

#[test]
fn from_lookup_reads_every_variable() {
    let i = RunInfo::from_lookup(|k| Some(format!("<{k}>")));
    assert_eq!(i.server_url, "<GITHUB_SERVER_URL>");
    assert_eq!(i.repository, "<GITHUB_REPOSITORY>");
    assert_eq!(i.workflow, "<GITHUB_WORKFLOW>");
    assert_eq!(i.run_id, "<GITHUB_RUN_ID>");
    assert_eq!(i.run_attempt.as_deref(), Some("<GITHUB_RUN_ATTEMPT>"));
    assert_eq!(i.ref_name, "<GITHUB_REF_NAME>");
    assert_eq!(i.sha, "<GITHUB_SHA>");
    assert_eq!(i.actor, "<GITHUB_ACTOR>");
    assert_eq!(i.job.as_deref(), Some("<GITHUB_JOB>"));
    assert_eq!(i.event_name.as_deref(), Some("<GITHUB_EVENT_NAME>"));
}

#[test]
fn status_parsing() {
    assert_eq!(Status::parse("Success"), Some(Status::Success));
    assert_eq!(Status::parse("failure"), Some(Status::Failure));
    assert_eq!(Status::parse("cancelled"), Some(Status::Cancelled));
    assert_eq!(Status::parse("canceled"), Some(Status::Cancelled));
    assert_eq!(Status::parse("weird"), None);
}

#[test]
fn status_synonyms_in_any_case() {
    for s in ["success", "succeeded", "OK", " Passed\n"] {
        assert_eq!(Status::parse(s), Some(Status::Success), "{s:?}");
    }
    for s in ["FAILURE", "failed", "\terror "] {
        assert_eq!(Status::parse(s), Some(Status::Failure), "{s:?}");
    }
    for s in ["Cancelled", "CANCELED", "skipped\u{3000}"] {
        assert_eq!(Status::parse(s), Some(Status::Cancelled), "{s:?}");
    }
    for s in ["", " ", "succes", "ok!", "o k"] {
        assert_eq!(Status::parse(s), None, "{s:?}");
    }
}

#[test]
fn markdown_rendering() {
    assert_eq!(
        markdown_to_html("**bold** and `code`"),
        "<p><strong>bold</strong> and <code>code</code></p>"
    );
    assert_eq!(
        markdown_to_html("- [x] done\n- [ ] todo"),
        "<ul>\n<li><input disabled=\"\" type=\"checkbox\" checked=\"\"/>\ndone</li>\n<li><input disabled=\"\" type=\"checkbox\"/>\ntodo</li>\n</ul>"
    );
    assert_eq!(markdown_to_html("~~gone~~"), "<p><del>gone</del></p>");
    assert_eq!(
        markdown_to_html("| a | b |\n|---|---|\n| 1 | 2 |"),
        "<table><thead><tr><th>a</th><th>b</th></tr></thead><tbody>\n<tr><td>1</td><td>2</td></tr>\n</tbody></table>"
    );
    assert_eq!(
        markdown_to_html("[run](https://example.org/x)"),
        "<p><a href=\"https://example.org/x\">run</a></p>"
    );
}

#[test]
fn markdown_options_are_those_of_the_renderer() {
    let opts = Options::ENABLE_TABLES | Options::ENABLE_STRIKETHROUGH | Options::ENABLE_TASKLISTS;
    assert_eq!(MARKDOWN_OPTIONS, opts.bits());
}

#[test]
fn markdown_message_skips_html_when_trivial() {
    let m = Message::markdown("just text", true);
    assert_eq!(m.html, None);
    let m = Message::markdown("with *emphasis*", false);
    assert_eq!(m.html.as_deref(), Some("<p>with <em>emphasis</em></p>"));
    assert!(!m.notice);
    // Text that only needs escaping is still trivial.
    let m = Message::markdown("a < b & c", true);
    assert_eq!(m.html, None);
}

#[test]
fn a_quotation_is_just_text() {
    for md in ["a\"b", "  he said \"yes\" & \"no\" > it's <\n"] {
        let m = Message::markdown(md, true);
        assert_eq!((m.body.as_str(), m.html), (md, None));
    }
    let m = Message::markdown("a \"*b*\"", true);
    assert_eq!(m.html.as_deref(), Some("<p>a \"<em>b</em>\"</p>"));
    // What the text says in character references is not the text itself.
    let m = Message::markdown("a &quot;b", true);
    assert_eq!(m.html.as_deref(), Some("<p>a \"b</p>"));
}

#[test]
fn markdown_message_takes_rendered_html() {
    let m = Message::markdown_rendered(" a & b\n", "<p>a &amp; b</p>".to_owned(), true);
    assert_eq!(m.body, " a & b\n");
    assert_eq!(m.html, None);
    let m = Message::markdown_rendered("a\"b", "<p>a\"b</p>".to_owned(), true);
    assert_eq!(m.html, None);
    let m = Message::markdown_rendered("a\"b", "<p>a&quot;b</p>".to_owned(), true);
    assert_eq!(m.html, None);
    let m = Message::markdown_rendered("a<b", "<p>a<b</p>".to_owned(), true);
    assert_eq!(m.html.as_deref(), Some("<p>a<b</p>"));
    let m = Message::markdown_rendered("a", "<h1>a</h1>".to_owned(), false);
    assert_eq!(m.html.as_deref(), Some("<h1>a</h1>"));
}

#[test]
fn into_content_msgtype() {
    let c = Message::plain("hi", true).into_content();
    assert!(matches!(c.msgtype, MessageType::Notice(_)));
    let c = Message::markdown("**hi**", false).into_content();
    match c.msgtype {
        MessageType::Text(t) => assert!(t.formatted.is_some()),
        _ => panic!("expected m.text"),
    }
}

#[test]
fn into_content_keeps_body_and_html() {
    let notice = Message { body: "b".into(), html: Some("<b>b</b>".into()), notice: true };
    match notice.into_content().msgtype {
        MessageType::Notice(n) => {
            assert_eq!(n.body, "b");
            assert_eq!(n.formatted.unwrap().body, "<b>b</b>");
        }
        _ => panic!("expected m.notice"),
    }
    match Message::plain(String::from("c"), false).into_content().msgtype {
        MessageType::Text(t) => {
            assert_eq!(t.body, "c");
            assert!(t.formatted.is_none());
        }
        _ => panic!("expected m.text"),
    }
    match Message::plain("d", true).into_content().msgtype {
        MessageType::Notice(n) => {
            assert_eq!(n.body, "d");
            assert!(n.formatted.is_none());
        }
        _ => panic!("expected m.notice"),
    }
}

#[test]
fn escaping() {
    assert_eq!(escape_html(""), "");
    assert_eq!(escape_html("a<b>&\"c'é"), "a&lt;b&gt;&amp;&quot;c'é");
    assert_eq!(escape_html("&amp;"), "&amp;amp;");
    // Piece by piece is the same as at once.
    assert_eq!(format!("{}{}", escape_html("<a"), escape_html("&b")), escape_html("<a&b"));
}

#[test]
fn run_and_commit_urls() {
    let mut i = info();
    assert_eq!(i.run_url(), "https://github.com/acme/widgets/actions/runs/1234567890");
    assert_eq!(
        i.commit_url(),
        "https://github.com/acme/widgets/commit/0123456789abcdef0123456789abcdef01234567"
    );
    i.run_attempt = Some("3".into());
    assert_eq!(i.run_url(), "https://github.com/acme/widgets/actions/runs/1234567890/attempts/3");
}

#[test]
fn short_sha_is_seven_bytes_at_most() {
    let mut i = info();
    assert_eq!(i.short_sha(), "0123456");
    i.sha = "abcdefg".into();
    assert_eq!(i.short_sha(), "abcdefg");
    i.sha = "abc".into();
    assert_eq!(i.short_sha(), "abc");
    i.sha = "aéaaaaaa".into();
    assert_eq!(i.short_sha(), "aéaaaa");
}

#[test]
fn card_notes() {
    let i = info();
    let plain = i.render(Status::Success, Some(" \n"), true);
    assert_eq!(plain, i.render(Status::Success, None, false), "a blank note is no note");
    let lines = i.render(Status::Success, Some("a\nb"), false);
    assert!(lines.body.ends_with("\na\nb"));
    assert!(lines.html.unwrap().ends_with("<br>a<br>b"));
    let given = i.card(Status::Success, Some(("text", "<i>html</i>")));
    assert!(given.body.ends_with("1234567890\ntext"));
    assert!(given.html.unwrap().ends_with("octocat<br><i>html</i>"));
}

#[test]
fn fields_add_no_markup_to_a_card() {
    let mut nasty = info();
    for field in [
        &mut nasty.server_url,
        &mut nasty.repository,
        &mut nasty.workflow,
        &mut nasty.run_id,
        &mut nasty.ref_name,
        &mut nasty.sha,
        &mut nasty.actor,
    ] {
        *field = "\"><b>&".to_owned();
    }
    let markup = |i: &RunInfo| -> String {
        let html = i.render(Status::Failure, None, false).html.unwrap();
        html.chars().filter(|c| "<>\"".contains(*c)).collect()
    };
    assert_eq!(markup(&nasty), markup(&info()));
}
