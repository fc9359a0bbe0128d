//! The shape of the image-board API's answers, and the decisions
//! of the client that queries it.
//!
//! The HTTP requests themselves are made by the driving process;
//! here live the verified parts: validation of the query arguments,
//! the query parameters each request carries, the derivation of
//! each post's local file name, and the paging plan that collects
//! posts until the requested count is reached.

use vstd::prelude::*;

use crate::tool::{
    file_name, set_file_stem, spec_decimal, spec_file_name, spec_set_file_stem, u64_to_string,
};

verus! {

/// Each API page asks for this many posts, the server's maximum.
pub const PAGE_LIMIT: u64 = 100;

/// The attributes field of an API answer.
pub struct Attributes {
    /// The number of posts in this answer, at most `PAGE_LIMIT`.
    pub limit: u64,
    /// The index of this answer's first post.
    pub offset: u64,
    /// How many posts the whole site has for the query.
    pub count: u64,
}

/// One post of an API answer.
pub struct Post {
    /// The post's id.
    pub id: u64,
    /// The hex MD5 digest of the media file.
    pub md5: String,
    /// Where to download the media file.
    pub file_url: String,
    /// The post's tags, separated by spaces.
    pub tags: String,
    /// The media file's name as the site stores it.
    pub image: String,
    /// The local file name: the id with `image`'s extension.
    pub filename: String,
}

/// One API answer: its attributes, and its posts — absent when the
/// query has no posts at all or the page index is out of range.
pub struct Json {
    /// The attributes of the answer.
    pub attributes: Attributes,
    /// The posts of the answer.
    pub post: Option<Vec<Post>>,
}

/// A post as the wire carries it, before the local file name is
/// derived.
pub struct PostInner {
    /// The post's id.
    pub id: u64,
    /// The hex MD5 digest of the media file.
    pub md5: String,
    /// Where to download the media file.
    pub file_url: String,
    /// The post's tags, separated by spaces.
    pub tags: String,
    /// The media file's name as the site stores it.
    pub image: String,
}

/// The local file name a post is stored under: the decimal id,
/// keeping the extension of the site's file name.  Stable and
/// collision-free, whatever the upstream name was.
pub open spec fn spec_derived_filename(id: u64, image: Seq<char>) -> Seq<char> {
    spec_set_file_stem(spec_file_name(image), spec_decimal(id as int))
}

impl Post {
    /// Derive the local file name from the wire form: the file
    /// name part of `image` with its stem replaced by the id.
    pub fn from_inner(value: PostInner) -> (p: Post)
        ensures
            p.id == value.id,
            p.md5 == value.md5,
            p.file_url == value.file_url,
            p.tags == value.tags,
            p.image == value.image,
            p.filename@ == spec_derived_filename(value.id, value.image@),
    {
        let name = file_name(value.image.as_str());
        let id_str = u64_to_string(value.id);
        let filename = set_file_stem(name.as_str(), id_str.as_str());
        Post {
            id: value.id,
            md5: value.md5,
            file_url: value.file_url,
            tags: value.tags,
            image: value.image,
            filename,
        }
    }
}

/// Why a query was rejected before any request was made.
#[derive(Debug, PartialEq, Eq, Structural)]
pub enum ApiError {
    /// The tag query was empty.
    EmptyTags,
    /// The per-page limit was outside the server's accepted range.
    BadLimit,
    /// Zero posts were requested.
    ZeroCount,
}

impl ApiError {
    /// The rejection's description.
    pub fn message(&self) -> (m: String)
        ensures
            self is EmptyTags ==> m@ == "Tags cannot be empty"@,
            self is BadLimit ==> m@ == "Limit can only be between 1 and 100"@,
            self is ZeroCount ==> m@ == "Number of images cannot be 0"@,
    {
        match self {
            ApiError::EmptyTags => String::from_str("Tags cannot be empty"),
            ApiError::BadLimit => String::from_str("Limit can only be between 1 and 100"),
            ApiError::ZeroCount => String::from_str("Number of images cannot be 0"),
        }
    }
}

/// One page query: which tags, how many posts, which page.
#[derive(Debug)]
pub struct Getter {
    /// The tag query, non-empty.
    pub tags: String,
    /// Posts per page, between 1 and `PAGE_LIMIT`.
    pub limit: u64,
    /// The page index.
    pub pid: u64,
}

impl Getter {
    /// Validate the arguments of one page query: the tags must be
    /// non-empty and the per-page limit between 1 and 100.
    pub fn build(tags: &str, limit: u64, pid: u64) -> (r: Result<Getter, ApiError>)
        ensures
            tags@.len() == 0 ==> r == Err::<Getter, ApiError>(ApiError::EmptyTags),
            tags@.len() > 0 && !(1 <= limit <= 100) ==> r == Err::<Getter, ApiError>(
                ApiError::BadLimit,
            ),
            tags@.len() > 0 && 1 <= limit <= 100 ==> (r matches Ok(g) && g.tags@ == tags@
                && g.limit == limit && g.pid == pid),
    {
        if tags.is_empty() {
            return Err(ApiError::EmptyTags);
        }
        if limit < 1 || limit > 100 {
            return Err(ApiError::BadLimit);
        }
        Ok(Getter { tags: tags.to_owned(), limit, pid })
    }

    /// The query parameters this page request appends to the API
    /// address: the tags, the limit and the page index, the
    /// numbers in decimal.
    pub fn query_pairs(&self) -> (r: Vec<(String, String)>)
        ensures
            r@.len() == 3,
            r@[0].0@ == "tags"@ && r@[0].1@ == self.tags@,
            r@[1].0@ == "limit"@ && r@[1].1@ == spec_decimal(self.limit as int),
            r@[2].0@ == "pid"@ && r@[2].1@ == spec_decimal(self.pid as int),
    {
        let mut r: Vec<(String, String)> = Vec::new();
        r.push((String::from_str("tags"), self.tags.clone()));
        r.push((String::from_str("limit"), u64_to_string(self.limit)));
        r.push((String::from_str("pid"), u64_to_string(self.pid)));
        r
    }
}

/// A whole collection run: query pages until the requested number
/// of posts is reached.
#[derive(Debug)]
pub struct BatchGetter {
    /// The tag query, non-empty.
    pub tags: String,
    /// How many posts to collect, at least 1.
    pub num_imgs: u64,
}

impl BatchGetter {
    /// Validate the arguments of a collection run: the tags must
    /// be non-empty and the requested count positive.
    pub fn build(tags: &str, num_imgs: u64) -> (r: Result<BatchGetter, ApiError>)
        ensures
            tags@.len() == 0 ==> r == Err::<BatchGetter, ApiError>(ApiError::EmptyTags),
            tags@.len() > 0 && num_imgs == 0 ==> r == Err::<BatchGetter, ApiError>(
                ApiError::ZeroCount,
            ),
            tags@.len() > 0 && num_imgs > 0 ==> (r matches Ok(b) && b.tags@ == tags@
                && b.num_imgs == num_imgs),
    {
        if tags.is_empty() {
            return Err(ApiError::EmptyTags);
        }
        if num_imgs == 0 {
            return Err(ApiError::ZeroCount);
        }
        Ok(BatchGetter { tags: tags.to_owned(), num_imgs })
    }

    /// Start the paging plan: the first request is page 0 with the
    /// full page limit.
    pub fn start(self) -> (b: BatchRun)
        ensures
            b.tags == self.tags,
            b.num_imgs == self.num_imgs,
            b.pid == 0,
            !b.started,
            !b.done,
            b.posts@.len() == 0,
    {
        BatchRun {
            tags: self.tags,
            num_imgs: self.num_imgs,
            pid: 0,
            total: 0,
            posts: Vec::new(),
            started: false,
            done: false,
        }
    }
}

/// The smaller of two counts.
pub open spec fn spec_min_u64(a: u64, b: u64) -> u64 {
    if a <= b {
        a
    } else {
        b
    }
}

/// The state of a collection run: pages are requested one after
/// the other until the posts collected reach the target, which is
/// the requested count or the site's total for the query,
/// whichever is smaller.
pub struct BatchRun {
    /// The tag query.
    pub tags: String,
    /// How many posts were asked for.
    pub num_imgs: u64,
    /// The page index of the latest request.
    pub pid: u64,
    /// The target count: `min(num_imgs, count)` once the first
    /// answer revealed the site's total.
    pub total: u64,
    /// The posts collected so far.
    pub posts: Vec<Post>,
    /// Whether the first answer has been processed.
    pub started: bool,
    /// Whether the run is complete.
    pub done: bool,
}

impl BatchRun {
    /// Between answers the collection is consistent: before the
    /// first answer nothing is collected, and afterwards an
    /// unfinished run is still short of its target.
    pub open spec fn wf(&self) -> bool {
        &&& !self.started ==> self.posts@.len() == 0 && self.pid == 0 && !self.done
        &&& self.started && !self.done ==> self.posts@.len() < self.total
        &&& self.started && self.done ==> self.posts@.len() <= self.total
        &&& self.total <= self.num_imgs
    }

    /// Process the first answer.  No posts at all finishes the run
    /// empty; otherwise the target becomes the smaller of the
    /// requested count and the site's total, and the run is done
    /// as soon as the collected posts reach it, keeping exactly
    /// the target's first posts.
    pub fn on_first_page(&mut self, data: Json)
        requires
            !old(self).started,
            old(self).wf(),
            old(self).num_imgs <= usize::MAX,
        ensures
            final(self).started,
            final(self).wf(),
            final(self).tags == old(self).tags,
            final(self).num_imgs == old(self).num_imgs,
            final(self).pid == 0,
            data.post is None ==> final(self).done && final(self).posts@.len() == 0,
            data.post matches Some(v) ==> final(self).total == spec_min_u64(
                old(self).num_imgs,
                data.attributes.count,
            ) && (if v@.len() >= final(self).total {
                final(self).done && final(self).posts@ == v@.take(final(self).total as int)
            } else {
                !final(self).done && final(self).posts@ == v@
            }),
    {
        self.started = true;
        let count = data.attributes.count;
        match data.post {
            Option::None => {
                self.done = true;
            },
            Option::Some(v) => {
                self.total = if self.num_imgs <= count {
                    self.num_imgs
                } else {
                    count
                };
                self.posts = v;
                if self.posts.len() as u64 >= self.total {
                    self.posts.truncate(self.total as usize);
                    self.done = true;
                }
            },
        }
    }

    /// The page index for the next request.
    pub fn next_pid(&self) -> (p: u64)
        requires
            self.started,
            !self.done,
            self.pid < u64::MAX,
        ensures
            p == self.pid + 1,
    {
        self.pid + 1
    }

    /// Process a further answer's posts: they are appended, and
    /// the run is done as soon as the collection reaches the
    /// target, keeping exactly the target's first posts.
    pub fn on_page(&mut self, post: Vec<Post>)
        requires
            old(self).started,
            !old(self).done,
            old(self).wf(),
            old(self).pid < u64::MAX,
            old(self).num_imgs <= usize::MAX,
        ensures
            final(self).started,
            final(self).wf(),
            final(self).tags == old(self).tags,
            final(self).num_imgs == old(self).num_imgs,
            final(self).total == old(self).total,
            final(self).pid == old(self).pid + 1,
            (if old(self).posts@.len() + post@.len() >= final(self).total {
                final(self).done && final(self).posts@ == (old(self).posts@ + post@).take(
                    final(self).total as int,
                )
            } else {
                !final(self).done && final(self).posts@ == old(self).posts@ + post@
            }),
    {
        let mut post = post;
        self.pid = self.pid + 1;
        self.posts.append(&mut post);
        if self.posts.len() as u64 >= self.total {
            self.posts.truncate(self.total as usize);
            self.done = true;
        }
    }

    /// A finished run holds exactly the target number of posts,
    /// unless the site had none at all.
    pub fn into_posts(self) -> (r: Vec<Post>)
        requires
            self.done,
            self.wf(),
        ensures
            r == self.posts,
            r@.len() <= self.num_imgs,
    {
        self.posts
    }
}

} // verus!
