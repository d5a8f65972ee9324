//! From the URL of a request to the name of the resource that answers it.
use vstd::prelude::*;
use vstd::string::StringExecFns;
use crate::text::{chars_of, find_char, index_or_len, starts_with, string_of};

verus! {

/// The origin under which the application's resources are served.
pub const TEST_ORIGIN: &'static str = "https://example.com/";

/// The name of the page that the application starts with.
pub const STARTUP_PAGE: &'static str = "message_router.html";

/// Where the query or the fragment of `url` begins: at the first `?` or `#`,
/// or at the end where there is neither.
pub open spec fn query_or_fragment_start(url: Seq<char>) -> int {
    let q = index_or_len(url, '?');
    let f = index_or_len(url, '#');
    if q <= f {
        q
    } else {
        f
    }
}

/// `url` without its query and its fragment.
pub open spec fn without_query_or_fragment(url: Seq<char>) -> Seq<char> {
    url.take(query_or_fragment_start(url))
}

/// The resource that `url` names: what stands between the origin and the
/// query or fragment. `None` for a URL of another origin.
pub open spec fn resource_path(url: Seq<char>) -> Option<Seq<char>> {
    if TEST_ORIGIN@.is_prefix_of(url) {
        Some(url.subrange(TEST_ORIGIN@.len() as int, query_or_fragment_start(url)))
    } else {
        None
    }
}

/// The origin holds neither `?` nor `#`, so the query or fragment of a URL of
/// that origin begins behind the origin.
pub proof fn lemma_origin_before_query(url: Seq<char>)
    requires
        TEST_ORIGIN@.is_prefix_of(url),
    ensures
        TEST_ORIGIN@.len() <= query_or_fragment_start(url) <= url.len(),
{
    reveal_strlit("https://example.com/");
    let origin = TEST_ORIGIN@;
    assert forall|i: int| 0 <= i < origin.len() implies url[i] != '?' && url[i] != '#' by {
        assert(url[i] == origin[i]);
    }
    url.index_of_first_ensures('?');
    url.index_of_first_ensures('#');
}

/// The URL that the application starts with.
pub fn get_startup_url() -> (r: String)
    ensures
        r@ == TEST_ORIGIN@ + STARTUP_PAGE@,
{
    let url = String::from_str(TEST_ORIGIN);
    url.concat(STARTUP_PAGE)
}

/// `url` without its query and its fragment: all of it up to the first `?` or
/// `#`.
pub fn get_url_without_query_or_fragment(url: &str) -> (r: String)
    ensures
        r@ == without_query_or_fragment(url@),
{
    let chars = chars_of(url);
    let q_pos = find_char(&chars, '?');
    let f_pos = find_char(&chars, '#');
    let pos = if q_pos <= f_pos {
        q_pos
    } else {
        f_pos
    };
    string_of(&chars, 0, pos)
}

/// The name of the resource that `url` asks for: for a URL of the
/// application's origin, what follows the origin, without query and fragment;
/// for any other URL, `None`.
pub fn get_resource_path(url: &str) -> (r: Option<String>)
    ensures
        match resource_path(url@) {
            Some(path) => r matches Some(s) && s@ == path,
            None => r is None,
        },
{
    let chars = chars_of(url);
    let origin = chars_of(TEST_ORIGIN);
    if !starts_with(&chars, &origin) {
        return None;
    }
    let q_pos = find_char(&chars, '?');
    let f_pos = find_char(&chars, '#');
    let pos = if q_pos <= f_pos {
        q_pos
    } else {
        f_pos
    };
    proof {
        lemma_origin_before_query(url@);
    }
    Some(string_of(&chars, origin.len(), pos))
}

} // verus!
