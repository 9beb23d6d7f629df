use static_blog::collection::sort_posts;
use static_blog::post::{
    file_extension_of, file_stem_of, is_markdown_file, parse_post, slug_of, split_source,
    BlogError, HeaderFields, Post, PostMetadata,
};
use static_blog::render::{render_index, render_post};
use static_blog::site::{build_pages, site_pages};

fn fields(title: Option<&str>, date: Option<&str>, author: Option<&str>) -> HeaderFields {
    HeaderFields {
        title: title.map(|s| s.to_string()),
        date: date.map(|s| s.to_string()),
        author: author.map(|s| s.to_string()),
        tags: None,
    }
}

fn post(slug: &str, title: &str, date: &str, author: Option<&str>) -> Post {
    Post {
        metadata: PostMetadata {
            title: title.to_string(),
            date: date.to_string(),
            author: author.map(|s| s.to_string()),
            tags: None,
        },
        content: format!("<p>{}</p>\n", title),
        slug: slug.to_string(),
    }
}

fn dates(posts: &[Post]) -> Vec<String> {
    posts.iter().map(|p| p.metadata.date.clone()).collect()
}

#[test]
fn split_with_one_delimiter_is_malformed() {
    let r = split_source("---\ntitle: Hello\ndate: 2024-01-01\n# Body");
    assert!(matches!(r, Err(BlogError::MalformedPost)));
}

#[test]
fn split_without_delimiter_is_malformed() {
    assert!(matches!(split_source("just text"), Err(BlogError::MalformedPost)));
    assert!(matches!(split_source(""), Err(BlogError::MalformedPost)));
}

#[test]
fn split_trims_header_and_body() {
    let parts = split_source("---\ntitle: Hello\ndate: 2024-01-01\n---\n\n# Body\n\n").ok().unwrap();
    assert_eq!(parts.header, "title: Hello\ndate: 2024-01-01");
    assert_eq!(parts.body, "# Body");
}

#[test]
fn split_keeps_later_delimiters_in_body() {
    let parts = split_source("lead---a: b---body --- more").ok().unwrap();
    assert_eq!(parts.header, "a: b");
    assert_eq!(parts.body, "body --- more");
}

#[test]
fn missing_title_is_decode_error() {
    let r = parse_post("a.md", "text", Ok(fields(None, Some("2024-01-01"), None)));
    assert!(matches!(r, Err(BlogError::MetadataDecodeError(_))));
}

#[test]
fn missing_date_is_decode_error() {
    let r = parse_post("a.md", "text", Ok(fields(Some("T"), None, None)));
    assert!(matches!(r, Err(BlogError::MetadataDecodeError(_))));
}

#[test]
fn empty_title_is_decode_error() {
    let r = parse_post("a.md", "text", Ok(fields(Some(""), Some("2024-01-01"), None)));
    assert!(matches!(r, Err(BlogError::MetadataDecodeError(_))));
}

#[test]
fn decoder_failure_is_passed_on() {
    let r = parse_post("a.md", "text", Err("invalid type".to_string()));
    match r {
        Err(BlogError::MetadataDecodeError(m)) => assert_eq!(m, "invalid type"),
        _ => panic!("expected a decode error"),
    }
}

#[test]
fn valid_header_without_optional_fields_renders_without_byline() {
    let p = parse_post("2024-01-01-hello.md", "# Hi", Ok(fields(Some("Hello"), Some("2024-01-01"), None)))
        .ok()
        .unwrap();
    assert_eq!(p.slug, "2024-01-01-hello");
    assert_eq!(p.content, "<h1>Hi</h1>\n");
    assert!(p.metadata.author.is_none());
    assert!(p.metadata.tags.is_none());
    let page = render_post(&p);
    assert!(page.contains("<p class=\"meta\">Published on 2024-01-01</p>"));
    assert!(!page.contains(" by "));
}

#[test]
fn author_gives_byline() {
    let p = post("s", "Title", "2024-05-05", Some("Ann"));
    let page = render_post(&p);
    assert!(page.contains("<title>Title - My Blog</title>"));
    assert!(page.contains("<h1>Title</h1>"));
    assert!(page.contains("Published on 2024-05-05 by Ann</p>"));
    assert!(page.contains("<p>Title</p>\n"));
    assert!(page.starts_with("<!DOCTYPE html>"));
    assert!(page.ends_with("</html>"));
}

#[test]
fn markdown_is_converted() {
    let p = parse_post("x.md", "*em* and `code`", Ok(fields(Some("X"), Some("1"), None))).ok().unwrap();
    assert_eq!(p.content, "<p><em>em</em> and <code>code</code></p>\n");
}

#[test]
fn tags_survive_parsing_in_order() {
    let f = HeaderFields {
        title: Some("T".to_string()),
        date: Some("2024-01-01".to_string()),
        author: None,
        tags: Some(vec!["a".to_string(), "b".to_string(), "c".to_string()]),
    };
    let p = parse_post("t.md", "", Ok(f)).ok().unwrap();
    let _page = render_post(&p);
    assert_eq!(p.metadata.tags, Some(vec!["a".to_string(), "b".to_string(), "c".to_string()]));
}

#[test]
fn slug_strips_extension() {
    assert_eq!(slug_of("hello-world.md"), "hello-world");
    assert_eq!(slug_of("a.b.md"), "a.b");
    assert_eq!(slug_of("noext"), "noext");
    assert_eq!(slug_of(""), "untitled");
    assert_eq!(slug_of("."), "untitled");
    assert_eq!(slug_of(".."), "untitled");
    assert_eq!(slug_of("hello-world.md"), slug_of("hello-world.md"));
}

#[test]
fn file_names_split_like_paths() {
    assert_eq!(file_stem_of(".hidden"), ".hidden");
    assert_eq!(file_extension_of(".hidden"), None);
    assert_eq!(file_extension_of("a.tar.gz"), Some("gz".to_string()));
    assert_eq!(file_extension_of("a."), Some("".to_string()));
    assert_eq!(file_stem_of(".."), "..");
}

#[test]
fn markdown_file_filter() {
    assert!(is_markdown_file("post.md"));
    assert!(!is_markdown_file("post.MD"));
    assert!(!is_markdown_file("post.mdx"));
    assert!(!is_markdown_file(".md"));
    assert!(!is_markdown_file("notes.txt"));
    assert!(!is_markdown_file("md"));
}

#[test]
fn posts_sorted_newest_first() {
    let sorted = sort_posts(vec![
        post("a", "A", "2024-03-01", None),
        post("b", "B", "2024-01-15", None),
        post("c", "C", "2024-02-20", None),
    ]);
    assert_eq!(dates(&sorted), vec!["2024-03-01", "2024-02-20", "2024-01-15"]);
}

#[test]
fn equal_dates_keep_their_order() {
    let sorted = sort_posts(vec![
        post("first", "A", "2024-01-01", None),
        post("later", "B", "2024-06-01", None),
        post("second", "C", "2024-01-01", None),
    ]);
    let slugs: Vec<String> = sorted.iter().map(|p| p.slug.clone()).collect();
    assert_eq!(slugs, vec!["later", "first", "second"]);
}

#[test]
fn date_order_is_lexical() {
    let sorted = sort_posts(vec![post("a", "A", "2024-9-01", None), post("b", "B", "2024-10-01", None)]);
    assert_eq!(dates(&sorted), vec!["2024-9-01", "2024-10-01"]);
}

#[test]
fn index_lists_posts_in_date_order() {
    let sorted = sort_posts(vec![
        post("a", "A", "2024-03-01", None),
        post("b", "B", "2024-01-15", None),
        post("c", "C", "2024-02-20", Some("Zed")),
    ]);
    let index = render_index(&sorted);
    let pa = index.find("2024-03-01").unwrap();
    let pc = index.find("2024-02-20").unwrap();
    let pb = index.find("2024-01-15").unwrap();
    assert!(pa < pc && pc < pb);
    assert!(index.contains("<h2><a href=\"/c.html\">C</a></h2>"));
    assert!(index.contains("<p class=\"meta\">2024-02-20 by Zed</p>"));
    assert!(!index.contains("No blog posts found"));
}

#[test]
fn empty_build_writes_only_index() {
    let pages = build_pages(Vec::new());
    assert_eq!(pages.len(), 1);
    assert_eq!(pages[0].file_name, "index.html");
    assert!(pages[0].html.contains("No blog posts found"));
    assert!(!pages[0].html.contains("post-preview"));
}

#[test]
fn build_writes_post_pages_then_index() {
    let pages = build_pages(vec![post("old", "Old", "2023-01-01", None), post("new", "New", "2024-01-01", None)]);
    let names: Vec<String> = pages.iter().map(|p| p.file_name.clone()).collect();
    assert_eq!(names, vec!["new.html", "old.html", "index.html"]);
    assert_eq!(pages[0].html, render_post(&post("new", "New", "2024-01-01", None)));
}

#[test]
fn build_twice_is_identical() {
    let make = || vec![post("x", "X", "2024-02-02", None), post("y", "Y", "2024-03-03", Some("Q"))];
    let first = build_pages(make());
    let second = build_pages(make());
    let reversed = build_pages(make().into_iter().rev().collect());
    assert_eq!(first.len(), second.len());
    for i in 0..first.len() {
        assert_eq!(first[i].file_name, second[i].file_name);
        assert_eq!(first[i].html, second[i].html);
        assert_eq!(first[i].file_name, reversed[i].file_name);
        assert_eq!(first[i].html, reversed[i].html);
    }
}

#[test]
fn site_pages_keep_given_order() {
    let posts = vec![post("b", "B", "2020", None), post("a", "A", "2021", None)];
    let pages = site_pages(&posts);
    assert_eq!(pages[0].file_name, "b.html");
    assert_eq!(pages[1].file_name, "a.html");
    assert_eq!(pages[2].html, render_index(&posts));
}

#[test]
fn error_messages() {
    assert_eq!(BlogError::MalformedPost.message(), "Invalid post format: missing frontmatter");
    assert_eq!(BlogError::IoFailure("disk".to_string()).message(), "disk");
}

#[test]
fn enumeration_order_does_not_change_collection() {
    let make = || vec![
        post("p", "P", "2024-01-01", None),
        post("q", "Q", "2024-03-01", None),
        post("r", "R", "2024-02-01", None),
    ];
    let a = sort_posts(make());
    let b = sort_posts(make().into_iter().rev().collect());
    let sa: Vec<String> = a.iter().map(|p| p.slug.clone()).collect();
    let sb: Vec<String> = b.iter().map(|p| p.slug.clone()).collect();
    assert_eq!(sa, vec!["q", "r", "p"]);
    assert_eq!(sa, sb);
}
