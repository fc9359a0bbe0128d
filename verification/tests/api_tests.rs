use booru_dl::api::{ApiError, Attributes, BatchGetter, Getter, Json, Post, PostInner};

fn answer(count: u64, post: Option<Vec<Post>>) -> Json {
    Json {
        attributes: Attributes {
            limit: 100,
            offset: 0,
            count,
        },
        post,
    }
}

fn post_with_id(id: u64) -> Post {
    Post::from_inner(PostInner {
        id,
        md5: String::from("9e107d9d372bb6826bd81d3542a419d6"),
        file_url: String::from("https://example.org/image.png"),
        tags: String::from("foo bar"),
        image: String::from("image.png"),
    })
}

fn page_of_posts(first_id: u64, n: u64) -> Vec<Post> {
    let mut v = Vec::new();
    for k in 0..n {
        v.push(post_with_id(first_id + k));
    }
    v
}

#[test]
fn test_illegal_args() {
    let resp = Getter::build("", 100, 0);
    assert!(resp.is_err());

    let resp = Getter::build("cat", 0, 0);
    assert!(resp.is_err());
}

#[test]
fn test_batch_get_api_data() {
    let num_imgs = 101;

    // Pages arrive 100 at a time until the requested count is
    // reached.
    let getter = BatchGetter::build("cat", num_imgs).unwrap();
    let mut run = getter.start();
    run.on_first_page(answer(100000, Some(page_of_posts(0, 100))));
    assert!(!run.done);
    assert_eq!(run.next_pid(), 1);
    run.on_page(page_of_posts(100, 100));
    assert!(run.done);
    let resp = run.into_posts();
    assert_eq!(resp.len(), usize::try_from(num_imgs).unwrap());

    // A query with no posts at all yields an empty collection.
    let getter = BatchGetter::build("balabala just no exist", num_imgs).unwrap();
    let mut run = getter.start();
    run.on_first_page(answer(0, None));
    assert!(run.done);
    let resp = run.into_posts();
    assert!(resp.is_empty());
}

#[test]
fn batch_target_is_site_total_when_smaller() {
    let getter = BatchGetter::build("cat", 50).unwrap();
    let mut run = getter.start();
    // The site has only 7 posts for the query.
    run.on_first_page(answer(7, Some(page_of_posts(0, 7))));
    assert!(run.done);
    assert_eq!(run.into_posts().len(), 7);
}

#[test]
fn batch_truncates_to_requested_count() {
    let getter = BatchGetter::build("cat", 3).unwrap();
    let mut run = getter.start();
    run.on_first_page(answer(100, Some(page_of_posts(0, 100))));
    assert!(run.done);
    let posts = run.into_posts();
    assert_eq!(posts.len(), 3);
    assert_eq!(posts[0].id, 0);
    assert_eq!(posts[2].id, 2);
}

#[test]
fn getter_validation_errors() {
    assert_eq!(Getter::build("", 10, 0).unwrap_err(), ApiError::EmptyTags);
    assert_eq!(Getter::build("cat", 101, 0).unwrap_err(), ApiError::BadLimit);
    assert_eq!(
        Getter::build("cat", 101, 0).unwrap_err().message(),
        "Limit can only be between 1 and 100"
    );
    assert_eq!(BatchGetter::build("cat", 0).unwrap_err(), ApiError::ZeroCount);
    assert_eq!(
        BatchGetter::build("", 5).unwrap_err().message(),
        "Tags cannot be empty"
    );
}

#[test]
fn getter_query_pairs() {
    let g = Getter::build("cat", 100, 7).unwrap();
    let pairs = g.query_pairs();
    assert_eq!(pairs.len(), 3);
    assert_eq!(pairs[0], (String::from("tags"), String::from("cat")));
    assert_eq!(pairs[1], (String::from("limit"), String::from("100")));
    assert_eq!(pairs[2], (String::from("pid"), String::from("7")));
}

#[test]
fn derived_filename_keeps_extension() {
    let p = Post::from_inner(PostInner {
        id: 12345,
        md5: String::from("d41d8cd98f00b204e9800998ecf8427e"),
        file_url: String::from("https://example.org/test.jpg"),
        tags: String::from("a b"),
        image: String::from("test.jpg"),
    });
    assert_eq!(p.filename, "12345.jpg");

    // Only the file name of the upstream path is kept.
    let p = Post::from_inner(PostInner {
        id: 7,
        md5: String::from("d41d8cd98f00b204e9800998ecf8427e"),
        file_url: String::from("https://example.org/x"),
        tags: String::from(""),
        image: String::from("dir/sub/photo.png"),
    });
    assert_eq!(p.filename, "7.png");
}
