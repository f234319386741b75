//! Matching of products against a search query. A name filter matches where
//! the lower-case form of the filter occurs in the lower-case form of the
//! name; a category or status filter matches on equality.

use vstd::prelude::*;
use vstd::string::*;
use crate::types::{Product, ProductSearchQuery, ProductSearchQueryView, ProductView};

verus! {

/// The lower-case form of `text` by the Unicode case mapping.
pub uninterp spec fn lowercase(text: Seq<char>) -> Seq<char>;

/// Calls `str::to_lowercase`. Trusted: the result is the lower-case form
/// named by [`lowercase`], which depends on the characters of `text` alone.
#[verifier::external_body]
fn lowercase_of(text: &str) -> (lower: String)
    ensures
        lower@ == lowercase(text@),
{
    text.to_lowercase()
}

/// `needle` stands in `haystack` from position `at` on.
pub open spec fn occurs_at(needle: Seq<char>, haystack: Seq<char>, at: int) -> bool {
    &&& 0 <= at
    &&& at + needle.len() <= haystack.len()
    &&& haystack.subrange(at, at + needle.len()) == needle
}

/// `needle` stands somewhere in `haystack`.
pub open spec fn is_substring(needle: Seq<char>, haystack: Seq<char>) -> bool {
    exists|at: int| occurs_at(needle, haystack, at)
}

/// `pattern` occurs in `text` when letter case is set aside.
pub open spec fn contains_ignoring_case(text: Seq<char>, pattern: Seq<char>) -> bool {
    is_substring(lowercase(pattern), lowercase(text))
}

/// `product` passes every filter of `query`.
pub open spec fn query_matches(query: ProductSearchQueryView, product: ProductView) -> bool {
    &&& query.name matches Some(name) ==> contains_ignoring_case(product.name, name)
    &&& query.category matches Some(category) ==> product.category == category
    &&& query.manufacturer matches Some(manufacturer) ==> contains_ignoring_case(
        product.manufacturer,
        manufacturer,
    )
    &&& query.status matches Some(status) ==> product.current_status == status
}

/// How many products `query` asks for at most.
pub open spec fn query_limit(query: ProductSearchQueryView) -> nat {
    match query.limit {
        Some(limit) => limit as nat,
        None => 50,
    }
}

/// The products among `products` that match `query`, in their order.
pub open spec fn matching(products: Seq<ProductView>, query: ProductSearchQueryView) -> Seq<
    ProductView,
>
    decreases products.len(),
{
    if products.len() == 0 {
        Seq::empty()
    } else if query_matches(query, products.last()) {
        matching(products.drop_last(), query).push(products.last())
    } else {
        matching(products.drop_last(), query)
    }
}

/// The first `limit` of `items`, or all of them if there are no more.
pub open spec fn first_of<T>(items: Seq<T>, limit: nat) -> Seq<T> {
    if items.len() <= limit {
        items
    } else {
        items.take(limit as int)
    }
}

/// What a search for `query` among `products` returns: the matching
/// products in their order, cut off at the query's limit.
pub open spec fn search_results(products: Seq<ProductView>, query: ProductSearchQueryView) -> Seq<
    ProductView,
> {
    first_of(matching(products, query), query_limit(query))
}

/// The matches among the first `n` products are the first matches among all.
pub proof fn lemma_matching_prefix(products: Seq<ProductView>, query: ProductSearchQueryView, n: int)
    requires
        0 <= n <= products.len(),
    ensures
        matching(products.take(n), query).len() <= matching(products, query).len(),
        matching(products, query).take(matching(products.take(n), query).len() as int)
            == matching(products.take(n), query),
    decreases products.len(),
{
    if n == products.len() {
        assert(products.take(n) =~= products);
        assert(matching(products, query).take(matching(products, query).len() as int)
            =~= matching(products, query));
    } else {
        let front = products.drop_last();
        assert(front.take(n) =~= products.take(n));
        lemma_matching_prefix(front, query, n);
        let part = matching(products.take(n), query);
        assert(matching(products, query).take(part.len() as int) =~= matching(front, query).take(
            part.len() as int,
        ));
    }
}

/// The characters of `text`.
pub fn chars_of(text: &str) -> (chars: Vec<char>)
    ensures
        chars@ == text@,
{
    let mut chars: Vec<char> = Vec::new();
    for c in it: text.chars()
        invariant
            chars@ == it.seq().take(it.index() as int),
            it.seq() == text@,
    {
        chars.push(c);
    }
    chars
}

/// Whether `needle` stands in `haystack` from position `at` on.
fn occurs_here(haystack: &[char], needle: &[char], at: usize) -> (here: bool)
    requires
        at + needle@.len() <= haystack@.len(),
    ensures
        here == occurs_at(needle@, haystack@, at as int),
{
    let width: usize = needle.len();
    let length: usize = haystack.len();
    let mut j: usize = 0;
    while j < width
        invariant
            j <= width,
            width == needle@.len(),
            length == haystack@.len(),
            at + width <= length,
            forall|k: int| 0 <= k < j ==> haystack@[at + k] == needle@[k],
        decreases width - j,
    {
        if haystack[at + j] != needle[j] {
            assert(haystack@.subrange(at as int, at + width)[j as int] != needle@[j as int]);
            return false;
        }
        j = j + 1;
    }
    assert(haystack@.subrange(at as int, at + width) =~= needle@);
    true
}

/// Whether `needle` stands somewhere in `haystack`.
pub fn contains_chars(haystack: &[char], needle: &[char]) -> (found: bool)
    ensures
        found == is_substring(needle@, haystack@),
{
    if needle.len() > haystack.len() {
        return false;
    }
    let last: usize = haystack.len() - needle.len();
    let mut at: usize = 0;
    loop
        invariant
            last == haystack@.len() - needle@.len(),
            at <= last,
            forall|k: int| 0 <= k < at ==> !occurs_at(needle@, haystack@, k),
        decreases last - at,
    {
        if occurs_here(haystack, needle, at) {
            return true;
        }
        if at == last {
            return false;
        }
        at = at + 1;
    }
}

/// Whether `pattern` occurs in `text` when letter case is set aside.
pub fn text_contains(text: &str, pattern: &str) -> (found: bool)
    ensures
        found == contains_ignoring_case(text@, pattern@),
{
    let haystack: Vec<char> = chars_of(lowercase_of(text).as_str());
    let needle: Vec<char> = chars_of(lowercase_of(pattern).as_str());
    contains_chars(haystack.as_slice(), needle.as_slice())
}

/// Whether `product` passes every filter of `query`.
pub fn matches_query(product: &Product, query: &ProductSearchQuery) -> (passes: bool)
    ensures
        passes == query_matches(query@, product@),
{
    let matches_name: bool = match &query.name {
        Some(name) => text_contains(product.name.as_str(), name.as_str()),
        None => true,
    };
    let matches_category: bool = match &query.category {
        Some(category) => product.category == *category,
        None => true,
    };
    let matches_manufacturer: bool = match &query.manufacturer {
        Some(manufacturer) => text_contains(product.manufacturer.as_str(), manufacturer.as_str()),
        None => true,
    };
    let matches_status: bool = match &query.status {
        Some(status) => product.current_status == *status,
        None => true,
    };
    matches_name && matches_category && matches_manufacturer && matches_status
}

} // verus!
