use site_compiler::posts::{Post, PostMetadata, Timestamp};
use site_compiler::rebuild::{Rebuild, RebuildStep};
use site_compiler::scan::ScanError;
use site_compiler::templating::{
    output_path, post_context, rendered, BuildError, Page, POST_TEMPLATE,
};

fn post(id: u32, title: &str, body: &str) -> Post {
    Post {
        id,
        creation_datetime: Timestamp { secs: 0, nanos: 0 },
        body: body.to_string(),
        metadata: PostMetadata::new(title.to_string(), vec![]),
    }
}

fn templates(source: &str) -> tera::Tera {
    let mut engine = tera::Tera::default();
    engine.add_raw_template("post.html", source).unwrap();
    engine
}

fn context(title: &str, body: &str, base_path: &str) -> tera::Context {
    let mut expected = tera::Context::new();
    expected.insert("title", title);
    expected.insert("body", body);
    expected.insert("base_path", base_path);
    expected
}

/// Does what the caller of a rebuild does with a `RenderPage` step.
fn render(engine: &tera::Tera, context: &tera::Context) -> Result<String, BuildError> {
    rendered(engine.render(POST_TEMPLATE, context))
}

/// Runs a rebuild to its end or its first error, and gives the pages.
fn pages(engine: &tera::Tera, posts: Vec<Post>) -> Result<Vec<Page>, BuildError> {
    let mut rebuild = Rebuild::start(Ok(posts), "docs", "/base")?;
    let mut written = vec![];
    loop {
        match rebuild.next_step() {
            RebuildStep::ClearOutput => assert!(written.is_empty()),
            RebuildStep::RenderPage(context) => {
                assert!(rebuild.awaits_page());
                match rebuild.take_rendered(render(engine, &context))? {
                    RebuildStep::WritePage(page) => written.push(page),
                    other => panic!("{:?} in place of a page", other),
                }
            }
            RebuildStep::WritePage(page) => panic!("{:?} before its rendering", page),
            RebuildStep::Done => return Ok(written),
        }
    }
}

#[test]
fn the_template_of_a_post_is_post_html() {
    assert_eq!(POST_TEMPLATE, "post.html");
}

#[test]
fn context_holds_title_body_and_base_path() {
    let context = post_context(&post(0, "A Title", "<p>text</p>"), "/srv/site");
    assert_eq!(context.get("title").and_then(|v| v.as_str()), Some("A Title"));
    assert_eq!(context.get("body").and_then(|v| v.as_str()), Some("<p>text</p>"));
    assert_eq!(context.get("base_path").and_then(|v| v.as_str()), Some("/srv/site"));
    assert!(context.get("normalised_title").is_none());
    assert_eq!(context, self::context("A Title", "<p>text</p>", "/srv/site"));
}

#[test]
fn page_is_the_template_filled_with_the_post() {
    let engine = templates("<h1>{{ title }}</h1>{{ body | safe }}<a href=\"{{ base_path }}/\">home</a>");
    let page = render(&engine, &post_context(&post(0, "A & B", "<p>x</p>"), "/base"));
    assert_eq!(
        page,
        Ok("<h1>A &amp; B</h1><p>x</p><a href=\"&#x2F;base/\">home</a>".to_string())
    );
}

#[test]
fn page_without_its_template_is_a_render_error() {
    let mut engine = tera::Tera::default();
    engine.add_raw_template("page.html", "{{ title }}").unwrap();
    let page = render(&engine, &post_context(&post(0, "T", ""), ""));
    assert_eq!(page, Err(BuildError::Render(vec!["Template 'post.html' not found".to_string()])));
}

#[test]
fn page_that_asks_for_an_unknown_value_is_a_render_error() {
    let engine = templates("{{ author }}");
    let page = render(&engine, &post_context(&post(0, "T", ""), ""));
    assert_eq!(
        page,
        Err(BuildError::Render(vec![
            "Failed to render 'post.html'".to_string(),
            "Variable `author` not found in context while rendering 'post.html'".to_string(),
        ]))
    );
}

#[test]
fn rendering_outcomes_become_pages_or_build_errors() {
    assert_eq!(rendered(Ok("<html></html>".to_string())), Ok("<html></html>".to_string()));
    assert_eq!(
        rendered(Err(tera::Error::msg("no such filter"))),
        Err(BuildError::Render(vec!["no such filter".to_string()]))
    );
    let behind = tera::Error::chain("second", tera::Error::msg("third"));
    assert_eq!(
        rendered(Err(tera::Error::chain("first", behind))),
        Err(BuildError::Render(vec![
            "first".to_string(),
            "second".to_string(),
            "third".to_string(),
        ]))
    );
}

#[test]
fn page_path_is_under_post_in_the_output_root() {
    assert_eq!(output_path("docs", &post(0, "My Post Title", "")), "docs/post/my_post_title.html");
    assert_eq!(output_path("", &post(0, "x", "")), "/post/x.html");
    assert_eq!(output_path("out/", &post(0, "", "")), "out//post/.html");
}

#[test]
fn rebuild_clears_then_asks_for_each_page_in_order() {
    let posts = vec![post(0, "First Post", "one"), post(1, "Second", "two")];
    let mut rebuild = Rebuild::start(Ok(posts), "debug", "base").unwrap();
    assert!(!rebuild.awaits_page());
    assert_eq!(rebuild.next_step(), RebuildStep::ClearOutput);
    assert!(rebuild.awaits_page());
    assert_eq!(rebuild.next_context(), context("First Post", "one", "base"));
    assert_eq!(rebuild.next_step(), RebuildStep::RenderPage(context("First Post", "one", "base")));
    assert_eq!(
        rebuild.take_rendered(Ok("<first>".to_string())),
        Ok(RebuildStep::WritePage(Page {
            path: "debug/post/first_post.html".to_string(),
            html: "<first>".to_string(),
        }))
    );
    assert_eq!(rebuild.next_step(), RebuildStep::RenderPage(context("Second", "two", "base")));
    assert_eq!(
        rebuild.take_rendered(Ok("<second>".to_string())),
        Ok(RebuildStep::WritePage(Page {
            path: "debug/post/second.html".to_string(),
            html: "<second>".to_string(),
        }))
    );
    assert!(!rebuild.awaits_page());
    assert_eq!(rebuild.next_step(), RebuildStep::Done);
    assert_eq!(rebuild.next_step(), RebuildStep::Done);
}

#[test]
fn rebuild_keeps_a_page_due_until_its_text_is_taken() {
    let mut rebuild = Rebuild::start(Ok(vec![post(0, "Only", "text")]), "docs", "").unwrap();
    assert_eq!(rebuild.next_step(), RebuildStep::ClearOutput);
    assert_eq!(rebuild.next_step(), RebuildStep::RenderPage(context("Only", "text", "")));
    assert_eq!(rebuild.next_step(), RebuildStep::RenderPage(context("Only", "text", "")));
    let refused = BuildError::Render(vec!["refused".to_string()]);
    assert_eq!(
        rebuild.take_rendered(Err(BuildError::Render(vec!["refused".to_string()]))),
        Err(refused)
    );
    assert!(rebuild.awaits_page());
    assert_eq!(rebuild.next_step(), RebuildStep::RenderPage(context("Only", "text", "")));
}

#[test]
fn rebuild_of_no_posts_only_clears() {
    let mut rebuild = Rebuild::start(Ok(vec![]), "docs", "").unwrap();
    assert_eq!(rebuild.next_step(), RebuildStep::ClearOutput);
    assert!(!rebuild.awaits_page());
    assert_eq!(rebuild.next_step(), RebuildStep::Done);
}

#[test]
fn rebuild_writes_what_the_engine_gave_for_each_post() {
    let engine = templates("{{ title }}|{{ body }}|{{ base_path | safe }}");
    let posts = vec![post(0, "First Post", "one"), post(1, "Second", "two")];
    assert_eq!(
        pages(&engine, posts),
        Ok(vec![
            Page {
                path: "docs/post/first_post.html".to_string(),
                html: "First Post|one|/base".to_string(),
            },
            Page {
                path: "docs/post/second.html".to_string(),
                html: "Second|two|/base".to_string(),
            },
        ])
    );
}

#[test]
fn rebuild_twice_gives_the_same_pages() {
    let engine = templates("<title>{{ title }}</title>{{ body | safe }}");
    let first = pages(&engine, vec![post(0, "A", "<p>a</p>"), post(1, "B", "<p>b</p>")]);
    let second = pages(&engine, vec![post(0, "A", "<p>a</p>"), post(1, "B", "<p>b</p>")]);
    assert_eq!(first.as_ref().map(|written| written.len()), Ok(2));
    assert_eq!(first, second);
}

#[test]
fn rebuild_stops_before_anything_when_the_scan_failed() {
    let begun = Rebuild::start(Err(ScanError::NotADirectory), "docs", "");
    assert!(matches!(begun, Err(BuildError::Scan(ScanError::NotADirectory))));
}

#[test]
fn rebuild_stops_at_the_post_that_does_not_render() {
    let engine = templates("{% if title == \"Bad\" %}{{ missing }}{% endif %}{{ title }}");
    let posts = vec![post(0, "Good", ""), post(1, "Bad", ""), post(2, "Late", "")];
    assert!(matches!(pages(&engine, posts), Err(BuildError::Render(_))));
    assert_eq!(pages(&engine, vec![post(0, "Good", "")]).map(|written| written.len()), Ok(1));
}
