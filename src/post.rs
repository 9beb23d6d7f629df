//! Source documents: the delimiter split, the metadata checks, slugs, and the
//! newest-first order of a post collection.
use vstd::prelude::*;
use crate::text::{chars_of, delimiter_from, find_delimiter, string_from_chars, trim, trimmed};

verus! {

/// The validated header of a post.
pub struct PostMetadata {
    pub title: String,
    pub date: String,
    pub author: Option<String>,
    pub tags: Option<Vec<String>>,
}

/// One loaded post: its metadata, its body as HTML, and its slug.
pub struct Post {
    pub metadata: PostMetadata,
    pub content: String,
    pub slug: String,
}

/// The fields that a decoded header holds, before the required ones are checked.
pub struct HeaderFields {
    pub title: Option<String>,
    pub date: Option<String>,
    pub author: Option<String>,
    pub tags: Option<Vec<String>>,
}

/// A source file cut at its delimiters: the header block and the body, both trimmed.
pub struct SourceParts {
    pub header: String,
    pub body: String,
}

/// Why a build stopped.
pub enum BlogError {
    /// The source file holds fewer than two delimiters.
    MalformedPost,
    /// The header is not a valid metadata document.
    MetadataDecodeError(String),
    /// Reading or writing a file failed.
    IoFailure(String),
}

impl PostMetadata {
    /// Title and date are present and non-empty.
    pub open spec fn wf(&self) -> bool {
        self.title@.len() > 0 && self.date@.len() > 0
    }
}

impl Post {
    pub open spec fn wf(&self) -> bool {
        self.metadata.wf()
    }
}

impl BlogError {
    /// A one-line description of the error.
    pub fn message(&self) -> (r: String)
        ensures
            match self {
                BlogError::MalformedPost => r@ == "Invalid post format: missing frontmatter"@,
                BlogError::MetadataDecodeError(m) => r@ == m@,
                BlogError::IoFailure(m) => r@ == m@,
            },
    {
        match self {
            BlogError::MalformedPost => "Invalid post format: missing frontmatter".to_string(),
            BlogError::MetadataDecodeError(m) => m.clone(),
            BlogError::IoFailure(m) => m.clone(),
        }
    }
}

/// Where the header block of `s` starts and ends: just after the first
/// delimiter, and at the second one.
pub open spec fn header_bounds(s: Seq<char>) -> Option<(int, int)> {
    match find_delimiter(s, 0) {
        Some(i) => match find_delimiter(s, i + 3) {
            Some(j) => Some((i + 3, j)),
            None => None,
        },
        None => None,
    }
}

/// Cuts a source file into header and body at its first two delimiters.
pub fn split_source(text: &str) -> (r: Result<SourceParts, BlogError>)
    ensures
        match header_bounds(text@) {
            Some((a, b)) => r matches Ok(p) && p.header@ == trim(text@.subrange(a, b)) && p.body@
                == trim(text@.subrange(b + 3, text@.len() as int)),
            None => r matches Err(BlogError::MalformedPost),
        },
{
    let s = chars_of(text);
    match delimiter_from(&s, 0) {
        None => Err(BlogError::MalformedPost),
        Some(i) => match delimiter_from(&s, i + 3) {
            None => Err(BlogError::MalformedPost),
            Some(j) => {
                let header = trimmed(&s, i + 3, j);
                let body = trimmed(&s, j + 3, s.len());
                Ok(SourceParts { header, body })
            },
        },
    }
}

/// The last index below `k` that holds a dot, if any.
pub open spec fn last_dot_before(s: Seq<char>, k: int) -> Option<int>
    decreases k,
{
    if k <= 0 || k > s.len() {
        None
    } else if s[k - 1] == '.' {
        Some(k - 1)
    } else {
        last_dot_before(s, k - 1)
    }
}

/// Where a file name splits into stem and extension: at its last dot, unless
/// that dot is the first character, or the name is `..`.
pub open spec fn extension_dot(name: Seq<char>) -> Option<int> {
    if name =~= seq!['.', '.'] {
        None
    } else {
        match last_dot_before(name, name.len() as int) {
            Some(i) => if i > 0 {
                Some(i)
            } else {
                None
            },
            None => None,
        }
    }
}

/// The name without its extension, as `Path::file_stem` gives it for a name
/// other than `.` and `..`, which name no file.
pub open spec fn file_stem(name: Seq<char>) -> Seq<char> {
    match extension_dot(name) {
        Some(i) => name.subrange(0, i),
        None => name,
    }
}

/// What follows the extension dot, as `Path::extension` gives it.
pub open spec fn file_extension(name: Seq<char>) -> Option<Seq<char>> {
    match extension_dot(name) {
        Some(i) => Some(name.subrange(i + 1, name.len() as int)),
        None => None,
    }
}

/// Whether `name` is `.` or `..`, which name no file and so have no stem.
pub open spec fn names_no_file(name: Seq<char>) -> bool {
    name =~= seq!['.'] || name =~= seq!['.', '.']
}

/// The slug of a post whose file is named `name`: its stem, or `untitled`
/// where it has none.
pub open spec fn slug_spec(name: Seq<char>) -> Seq<char> {
    if names_no_file(name) || file_stem(name).len() == 0 {
        seq!['u', 'n', 't', 'i', 't', 'l', 'e', 'd']
    } else {
        file_stem(name)
    }
}

fn extension_dot_of(name: &Vec<char>) -> (r: Option<usize>)
    ensures
        match r {
            Some(i) => extension_dot(name@) == Some(i as int) && 0 < i < name.len(),
            None => extension_dot(name@) is None,
        },
{
    if name.len() == 2 && name[0] == '.' && name[1] == '.' {
        assert(name@ =~= seq!['.', '.']);
        return None;
    }
    assert(!(name@ =~= seq!['.', '.'])) by {
        if name@ =~= seq!['.', '.'] {
            assert(name@[0] == '.' && name@[1] == '.');
        }
    }
    let mut k = name.len();
    while k > 0 && name[k - 1] != '.'
        invariant
            k <= name.len(),
            last_dot_before(name@, name.len() as int) == last_dot_before(name@, k as int),
        decreases k,
    {
        k = k - 1;
    }
    if k > 1 {
        Some(k - 1)
    } else {
        None
    }
}

/// The file name without its extension.
pub fn file_stem_of(name: &str) -> (r: String)
    ensures
        r@ == file_stem(name@),
{
    let cs = chars_of(name);
    match extension_dot_of(&cs) {
        Some(i) => string_from_chars(&cs.as_slice()[0..i]),
        None => name.to_string(),
    }
}

/// What follows the extension dot of a file name, if it has one.
pub fn file_extension_of(name: &str) -> (r: Option<String>)
    ensures
        match file_extension(name@) {
            Some(e) => r matches Some(x) && x@ == e,
            None => r is None,
        },
{
    let cs = chars_of(name);
    match extension_dot_of(&cs) {
        Some(i) => Some(string_from_chars(&cs.as_slice()[i + 1..cs.len()])),
        None => None,
    }
}

/// Whether a file name has exactly the extension `md`.
pub fn is_markdown_file(name: &str) -> (r: bool)
    ensures
        r == (file_extension(name@) == Some(seq!['m', 'd'])),
{
    let cs = chars_of(name);
    match extension_dot_of(&cs) {
        Some(i) => {
            let n = cs.len();
            let r = n - i == 3 && cs[i + 1] == 'm' && cs[i + 2] == 'd';
            assert(r ==> cs@.subrange(i + 1, n as int) =~= seq!['m', 'd']);
            assert(cs@.subrange(i + 1, n as int) =~= seq!['m', 'd'] ==> r) by {
                if cs@.subrange(i + 1, n as int) =~= seq!['m', 'd'] {
                    assert(cs@.subrange(i + 1, n as int)[0] == 'm');
                    assert(cs@.subrange(i + 1, n as int)[1] == 'd');
                }
            }
            r
        },
        None => false,
    }
}

/// The slug of a post read from the file `name`: its stem, or `untitled`
/// where it has none (`.`, `..`, or an empty name).
pub fn slug_of(name: &str) -> (r: String)
    ensures
        r@ == slug_spec(name@),
{
    let cs = chars_of(name);
    let dots = (cs.len() == 1 && cs[0] == '.') || (cs.len() == 2 && cs[0] == '.' && cs[1] == '.');
    assert(dots == names_no_file(name@)) by {
        if name@ =~= seq!['.'] {
            assert(name@[0] == '.');
        }
        if name@ =~= seq!['.', '.'] {
            assert(name@[0] == '.' && name@[1] == '.');
        }
        if cs.len() == 1 && cs[0] == '.' {
            assert(name@ =~= seq!['.']);
        }
        if cs.len() == 2 && cs[0] == '.' && cs[1] == '.' {
            assert(name@ =~= seq!['.', '.']);
        }
    }
    let stem = file_stem_of(name);
    if dots || stem.as_str().is_empty() {
        let r = "untitled".to_string();
        proof {
            reveal_strlit("untitled");
        }
        assert(r@ =~= seq!['u', 'n', 't', 'i', 't', 'l', 'e', 'd']);
        r
    } else {
        stem
    }
}

/// What pulldown-cmark renders for a markdown text.
pub uninterp spec fn markdown_html(md: Seq<char>) -> Seq<char>;

/// Relies on `pulldown_cmark::Parser::new` and `pulldown_cmark::html::push_html`:
/// the HTML is a function of the markdown text alone.
#[verifier::external_body]
fn markdown_to_html(md: &str) -> (r: String)
    ensures
        r@ == markdown_html(md@),
{
    let mut out = String::new();
    pulldown_cmark::html::push_html(&mut out, pulldown_cmark::Parser::new(md));
    out
}

/// The post that `parse_post` builds from valid fields.
pub open spec fn post_from(name: Seq<char>, body: Seq<char>, f: HeaderFields, p: Post) -> bool {
    &&& f.title matches Some(t) && p.metadata.title == t
    &&& f.date matches Some(d) && p.metadata.date == d
    &&& p.metadata.author == f.author
    &&& p.metadata.tags == f.tags
    &&& p.content@ == markdown_html(body)
    &&& p.slug@ == slug_spec(name)
}

/// Whether decoded fields carry a non-empty title and date.
pub open spec fn fields_complete(f: HeaderFields) -> bool {
    &&& f.title matches Some(t) && t@.len() > 0
    &&& f.date matches Some(d) && d@.len() > 0
}

/// Builds a post from its file name, its trimmed body, and the result of
/// decoding its header. A decode failure, or a missing or empty title or
/// date, is a `MetadataDecodeError`.
pub fn parse_post(name: &str, body: &str, fields: Result<HeaderFields, String>) -> (r: Result<
    Post,
    BlogError,
>)
    ensures
        match fields {
            Err(m) => r == Err::<Post, BlogError>(BlogError::MetadataDecodeError(m)),
            Ok(f) => if fields_complete(f) {
                r matches Ok(p) && post_from(name@, body@, f, p) && p.wf()
            } else {
                r matches Err(BlogError::MetadataDecodeError(_))
            },
        },
{
    match fields {
        Err(m) => Err(BlogError::MetadataDecodeError(m)),
        Ok(f) => {
            let title = match f.title {
                Some(t) => t,
                None => {
                    return Err(BlogError::MetadataDecodeError("missing field `title`".to_string()));
                },
            };
            let date = match f.date {
                Some(d) => d,
                None => {
                    return Err(BlogError::MetadataDecodeError("missing field `date`".to_string()));
                },
            };
            if title.as_str().is_empty() {
                return Err(BlogError::MetadataDecodeError("empty field `title`".to_string()));
            }
            if date.as_str().is_empty() {
                return Err(BlogError::MetadataDecodeError("empty field `date`".to_string()));
            }
            let content = markdown_to_html(body);
            let slug = slug_of(name);
            Ok(Post {
                metadata: PostMetadata { title, date, author: f.author, tags: f.tags },
                content,
                slug,
            })
        },
    }
}

proof fn lemma_last_dot_before(s: Seq<char>, k: int)
    ensures
        last_dot_before(s, k) matches Some(i) ==> 0 <= i < k && s[i] == '.',
    decreases k,
{
    if 0 < k <= s.len() && s[k - 1] != '.' {
        lemma_last_dot_before(s, k - 1);
    }
}

/// Law: the slug of a markdown source is its file name without the `.md`
/// extension, and is never empty.
pub proof fn lemma_slug_strips_extension(name: Seq<char>)
    requires
        file_extension(name) == Some(seq!['m', 'd']),
    ensures
        slug_spec(name) + seq!['.', 'm', 'd'] == name,
        slug_spec(name).len() > 0,
{
    lemma_last_dot_before(name, name.len() as int);
    let i = extension_dot(name)->0;
    assert(name.subrange(i + 1, name.len() as int) == seq!['m', 'd']);
    assert(name.subrange(0, i) + seq!['.', 'm', 'd'] =~= name);
}

/// Law: a post keeps the tags that its header decoded to, in their order, and
/// parsing the same source again gives the same tags.
pub proof fn lemma_parse_keeps_tags(
    name: Seq<char>,
    body: Seq<char>,
    f: HeaderFields,
    p: Post,
    q: Post,
)
    requires
        post_from(name, body, f, p),
        post_from(name, body, f, q),
    ensures
        p.metadata.tags == f.tags,
        q.metadata.tags == p.metadata.tags,
{
}

} // verus!
