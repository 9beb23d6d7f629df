//! HTML pages: one per post, and the index that lists the collection in order.
use vstd::prelude::*;
use vstd::string::*;
use crate::post::Post;

verus! {

pub const POST_HEAD: &'static str = r#"<!DOCTYPE html>
<html lang="en">
<head>
    <meta charset="UTF-8">
    <meta name="viewport" content="width=device-width, initial-scale=1.0">
    <title>"#;

pub const POST_AFTER_TITLE: &'static str = r#" - My Blog</title>
    <link rel="stylesheet" href="/style.css">
</head>
<body>
    <header>
        <nav>
            <a href="/">← Back to Home</a>
        </nav>
    </header>
    <main>
        <article>
            <h1>"#;

pub const POST_AFTER_HEADING: &'static str = r#"</h1>
            <p class="meta">Published on "#;

pub const POST_AFTER_META: &'static str = r#"</p>
            <div class="content">
                "#;

pub const POST_TAIL: &'static str = r#"
            </div>
        </article>
    </main>
</body>
</html>"#;

pub const BYLINE: &'static str = " by ";

pub const ENTRY_HEAD: &'static str = r#"<article class="post-preview">
                    <h2><a href="/"#;

pub const ENTRY_AFTER_SLUG: &'static str = r#".html">"#;

pub const ENTRY_AFTER_TITLE: &'static str = r#"</a></h2>
                    <p class="meta">"#;

pub const ENTRY_TAIL: &'static str = r#"</p>
                </article>"#;

pub const NO_POSTS: &'static str = r#"<div class="no-posts">
            <p>No blog posts found. Create your first post in the <code>content/posts/</code> directory!</p>
            <p>Example: <code>content/posts/2024-01-01-hello-world.md</code></p>
        </div>"#;

pub const INDEX_HEAD: &'static str = r#"<!DOCTYPE html>
<html lang="en">
<head>
    <meta charset="UTF-8">
    <meta name="viewport" content="width=device-width, initial-scale=1.0">
    <title>My Rust Blog</title>
    <link rel="stylesheet" href="/style.css">
</head>
<body>
    <header>
        <h1>My Rust Blog</h1>
        <p class="subtitle">A simple static blog built with Rust</p>
    </header>
    <main>
        "#;

pub const INDEX_TAIL: &'static str = r#"
    </main>
    <footer>
        <p>Generated with Rust 🦀</p>
    </footer>
</body>
</html>"#;

/// " by <author>", or nothing for a post without an author.
pub open spec fn byline(author: Option<String>) -> Seq<char> {
    match author {
        Some(a) => BYLINE@ + a@,
        None => Seq::empty(),
    }
}

/// The page of one post.
pub open spec fn post_page(p: Post) -> Seq<char> {
    POST_HEAD@ + p.metadata.title@ + POST_AFTER_TITLE@ + p.metadata.title@ + POST_AFTER_HEADING@
        + p.metadata.date@ + byline(p.metadata.author) + POST_AFTER_META@ + p.content@
        + POST_TAIL@
}

/// The index entry of one post: a link to its page, its date and byline.
pub open spec fn index_entry(p: Post) -> Seq<char> {
    ENTRY_HEAD@ + p.slug@ + ENTRY_AFTER_SLUG@ + p.metadata.title@ + ENTRY_AFTER_TITLE@
        + p.metadata.date@ + byline(p.metadata.author) + ENTRY_TAIL@
}

/// The entries of `s`, in the order of `s`.
pub open spec fn index_entries(s: Seq<Post>) -> Seq<char>
    decreases s.len(),
{
    if s.len() == 0 {
        Seq::empty()
    } else {
        index_entries(s.drop_last()) + index_entry(s.last())
    }
}

/// The index page: the entries of the collection, or the empty-state message.
pub open spec fn index_page(s: Seq<Post>) -> Seq<char> {
    INDEX_HEAD@ + (if s.len() == 0 {
        NO_POSTS@
    } else {
        index_entries(s)
    }) + INDEX_TAIL@
}

fn push_byline(out: &mut String, author: &Option<String>)
    ensures
        final(out)@ == old(out)@ + byline(*author),
{
    match author {
        Some(a) => {
            out.append(BYLINE);
            out.append(a.as_str());
        },
        None => {
            assert(old(out)@ + Seq::<char>::empty() =~= old(out)@);
        },
    }
}

/// Binds one post into the post page.
pub fn render_post(post: &Post) -> (r: String)
    ensures
        r@ == post_page(*post),
{
    let mut out = String::new();
    out.append(POST_HEAD);
    out.append(post.metadata.title.as_str());
    out.append(POST_AFTER_TITLE);
    out.append(post.metadata.title.as_str());
    out.append(POST_AFTER_HEADING);
    out.append(post.metadata.date.as_str());
    push_byline(&mut out, &post.metadata.author);
    out.append(POST_AFTER_META);
    out.append(post.content.as_str());
    out.append(POST_TAIL);
    assert(out@ =~= post_page(*post));
    out
}

fn push_entry(out: &mut String, post: &Post)
    ensures
        final(out)@ == old(out)@ + index_entry(*post),
{
    out.append(ENTRY_HEAD);
    out.append(post.slug.as_str());
    out.append(ENTRY_AFTER_SLUG);
    out.append(post.metadata.title.as_str());
    out.append(ENTRY_AFTER_TITLE);
    out.append(post.metadata.date.as_str());
    push_byline(out, &post.metadata.author);
    out.append(ENTRY_TAIL);
    assert(final(out)@ =~= old(out)@ + index_entry(*post));
}

/// Binds the whole collection, in its order, into the index page.
pub fn render_index(posts: &Vec<Post>) -> (r: String)
    ensures
        r@ == index_page(posts@),
{
    let mut body = String::new();
    if posts.len() == 0 {
        body.append(NO_POSTS);
    } else {
        let mut i: usize = 0;
        while i < posts.len()
            invariant
                i <= posts.len(),
                body@ == index_entries(posts@.subrange(0, i as int)),
            decreases posts.len() - i,
        {
            push_entry(&mut body, &posts[i]);
            assert(posts@.subrange(0, i + 1).drop_last() =~= posts@.subrange(0, i as int));
            i = i + 1;
        }
        assert(posts@.subrange(0, i as int) =~= posts@);
    }
    let mut out = String::new();
    out.append(INDEX_HEAD);
    out.append(body.as_str());
    out.append(INDEX_TAIL);
    assert(out@ =~= index_page(posts@));
    out
}

} // verus!
