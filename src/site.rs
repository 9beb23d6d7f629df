//! The output tree of one build: a page per post, then the index.
use vstd::prelude::*;
use vstd::string::*;
use crate::collection::{
    dates_identify, lemma_sort_by_date, lemma_sort_unique, newest_first, sort_by_date, sort_posts,
};
use crate::post::Post;
use crate::render::{
    index_entries, index_page, post_page, render_index, render_post, INDEX_HEAD, INDEX_TAIL, NO_POSTS,
};

verus! {

pub const PAGE_EXTENSION: &'static str = ".html";

pub const INDEX_FILE: &'static str = "index.html";

/// One file of the output tree: its name and its contents.
pub struct Page {
    pub file_name: String,
    pub html: String,
}

impl View for Page {
    type V = (Seq<char>, Seq<char>);

    open spec fn view(&self) -> (Seq<char>, Seq<char>) {
        (self.file_name@, self.html@)
    }
}

/// The files written for a collection in this order: `<slug>.html` for each
/// post, then `index.html`.
pub open spec fn site_files(s: Seq<Post>) -> Seq<(Seq<char>, Seq<char>)> {
    Seq::new(
        s.len() + 1,
        |i: int|
            if i < s.len() {
                (s[i].slug@ + PAGE_EXTENSION@, post_page(s[i]))
            } else {
                (INDEX_FILE@, index_page(s))
            },
    )
}

/// The pages of an already ordered collection.
pub fn site_pages(posts: &Vec<Post>) -> (r: Vec<Page>)
    ensures
        r@.len() == posts@.len() + 1,
        forall|i: int| 0 <= i < r@.len() ==> #[trigger] r@[i]@ == site_files(posts@)[i],
{
    let mut r: Vec<Page> = Vec::new();
    let mut i: usize = 0;
    while i < posts.len()
        invariant
            i <= posts.len(),
            r@.len() == i,
            forall|k: int| 0 <= k < i ==> #[trigger] r@[k]@ == site_files(posts@)[k],
        decreases posts.len() - i,
    {
        let p = &posts[i];
        let file_name = p.slug.clone().concat(PAGE_EXTENSION);
        let html = render_post(p);
        r.push(Page { file_name, html });
        i = i + 1;
    }
    let html = render_index(posts);
    r.push(Page { file_name: INDEX_FILE.to_string(), html });
    r
}

/// The pages of a build: the collection is put newest first, then rendered.
pub fn build_pages(posts: Vec<Post>) -> (r: Vec<Page>)
    ensures
        r@.len() == posts@.len() + 1,
        forall|i: int| 0 <= i < r@.len() ==> #[trigger] r@[i]@ == site_files(sort_by_date(posts@))[i],
{
    let sorted = sort_posts(posts);
    proof {
        lemma_sort_by_date(posts@);
        assert(sorted@.len() == posts@.len()) by {
            broadcast use vstd::seq_lib::group_to_multiset_ensures;

            assert(sorted@.to_multiset().len() == sorted@.len());
            assert(posts@.to_multiset().len() == posts@.len());
        }
    }
    site_pages(&sorted)
}

/// Law: the index of a build lists every loaded post once, newest first.
pub proof fn lemma_index_newest_first(posts: Seq<Post>)
    ensures
        newest_first(sort_by_date(posts)),
        sort_by_date(posts).to_multiset() == posts.to_multiset(),
        site_files(sort_by_date(posts)).last() == (INDEX_FILE@, index_page(sort_by_date(posts))),
        posts.len() > 0 ==> index_page(sort_by_date(posts)) == INDEX_HEAD@ + index_entries(
            sort_by_date(posts),
        ) + INDEX_TAIL@,
{
    broadcast use vstd::seq_lib::group_to_multiset_ensures;

    lemma_sort_by_date(posts);
    assert(sort_by_date(posts).to_multiset().len() == sort_by_date(posts).len());
    assert(posts.to_multiset().len() == posts.len());
}

/// Law: a build without posts writes only the index, and the index holds the
/// empty-state message.
pub proof fn lemma_empty_build()
    ensures
        site_files(sort_by_date(Seq::<Post>::empty())) == seq![
            (INDEX_FILE@, INDEX_HEAD@ + NO_POSTS@ + INDEX_TAIL@),
        ],
{
    assert(site_files(sort_by_date(Seq::<Post>::empty())) =~= seq![
        (INDEX_FILE@, INDEX_HEAD@ + NO_POSTS@ + INDEX_TAIL@),
    ]);
}

/// Law: two builds over the same posts, found in any order, write the same
/// files with the same contents, as long as no two different posts share a date.
pub proof fn lemma_build_reproducible(a: Seq<Post>, b: Seq<Post>)
    requires
        a.to_multiset() == b.to_multiset(),
        dates_identify(a.to_multiset()),
    ensures
        site_files(sort_by_date(a)) == site_files(sort_by_date(b)),
{
    lemma_sort_unique(a, b);
}

} // verus!
