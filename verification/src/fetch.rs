//! The paginated catalog fetch, kept honest about the endpoint's
//! sequential-cursor contract: the next page is requested only once the
//! previous page's continuation cursor is known, and the pages are
//! assembled in dispatch order. The machine records every page it
//! consumed, so the final item list is proved to be exactly their
//! concatenation.

use vstd::prelude::*;

use crate::json::{spec_get, JsonSpec, JsonValue};
use crate::stock::{ProductStatus, ShopifyProduct, ShopifyProductView, ShopifyVariant};
use crate::text::{
    spec_char_index, spec_contains_seq, spec_has_prefix, spec_split, split_on_char, str_contains,
    str_starts_with,
};

verus! {

broadcast use vstd::std_specs::vec::group_vec_axioms;

/// One page request: the continuation cursor, absent on the first page
/// (which instead carries the status filter).
#[derive(Debug, Clone)]
pub struct PageRequest {
    pub cursor: Option<String>,
}

/// The concatenation of a sequence of pages, in order.
pub open spec fn spec_concat_pages(pages: Seq<Seq<ShopifyProductView>>) -> Seq<
    ShopifyProductView,
>
    decreases pages.len(),
{
    if pages.len() == 0 {
        Seq::empty()
    } else {
        spec_concat_pages(pages.drop_last()) + pages.last()
    }
}

/// The total number of items across a sequence of pages.
pub open spec fn spec_total_items(pages: Seq<Seq<ShopifyProductView>>) -> int
    decreases pages.len(),
{
    if pages.len() == 0 {
        0
    } else {
        spec_total_items(pages.drop_last()) + pages.last().len()
    }
}

/// The collector of a paginated catalog fetch. The caller performs one
/// page request at a time and feeds back what the server returned; the
/// machine accumulates the items and decides when the stream ends:
/// with an empty page, or when no further cursor is offered.
pub struct CatalogFetch {
    pub items: Vec<ShopifyProduct>,
    pub cursor: Option<String>,
    pub done: bool,
    pub pages: Ghost<Seq<Seq<ShopifyProductView>>>,
}

impl CatalogFetch {
    pub open spec fn iviews(&self) -> Seq<ShopifyProductView> {
        self.items@.map_values(|p: ShopifyProduct| p@)
    }

    /// Well-formedness: the accumulated items are exactly the
    /// concatenation of the consumed pages.
    pub open spec fn wf(&self) -> bool {
        self.iviews() == spec_concat_pages(self.pages@)
    }

    /// Starts a fetch: nothing consumed, first request carries no
    /// cursor.
    pub fn new() -> (r: CatalogFetch)
        ensures
            r.wf(),
            !r.done,
            r.cursor is None,
            r.pages@ =~= Seq::<Seq<ShopifyProductView>>::empty(),
            r.items@.len() == 0,
    {
        let r = CatalogFetch {
            items: Vec::new(),
            cursor: None,
            done: false,
            pages: Ghost(Seq::empty()),
        };
        proof {
            assert(r.iviews() =~= Seq::<ShopifyProductView>::empty());
            assert(spec_concat_pages(r.pages@) =~= Seq::<ShopifyProductView>::empty());
        }
        r
    }

    /// The next page request, or `None` once the stream has ended.
    pub fn next_request(&self) -> (r: Option<PageRequest>)
        ensures
            self.done ==> r is None,
            !self.done ==> (r matches Some(pr) && pr.cursor == self.cursor),
    {
        if self.done {
            None
        } else {
            Some(PageRequest { cursor: self.cursor.clone() })
        }
    }

    /// Consumes one page: appends its items in order and remembers the
    /// continuation cursor. The stream ends when the page is empty or
    /// when the server offers no further cursor.
    pub fn on_page(&mut self, page: Vec<ShopifyProduct>, next_cursor: Option<String>)
        requires
            old(self).wf(),
            !old(self).done,
        ensures
            final(self).wf(),
            final(self).iviews() == old(self).iviews() + page@.map_values(
                |p: ShopifyProduct| p@,
            ),
            final(self).pages@ == old(self).pages@.push(page@.map_values(|p: ShopifyProduct| p@)),
            final(self).done == (page@.len() == 0 || next_cursor is None),
            final(self).cursor == next_cursor,
    {
        let ghost page_view = page@.map_values(|p: ShopifyProduct| p@);
        let empty = page.len() == 0;
        let mut page = page;
        let ghost before = self.iviews();
        self.items.append(&mut page);
        self.done = empty || next_cursor.is_none();
        self.cursor = next_cursor;
        proof {
            self.pages@ = self.pages@.push(page_view);
            assert(self.iviews() =~= before + page_view);
            assert(self.pages@.drop_last() =~= old(self).pages@);
            assert(self.pages@.last() == page_view);
        }
    }

    /// Hands back everything fetched, once the stream has ended.
    pub fn finish(self) -> (r: Vec<ShopifyProduct>)
        requires
            self.wf(),
            self.done,
        ensures
            r == self.items,
            r@.map_values(|p: ShopifyProduct| p@) == spec_concat_pages(self.pages@),
    {
        self.items
    }
}

proof fn lemma_concat_pages_len(pages: Seq<Seq<ShopifyProductView>>)
    ensures
        spec_concat_pages(pages).len() == spec_total_items(pages),
    decreases pages.len(),
{
    if pages.len() > 0 {
        lemma_concat_pages_len(pages.drop_last());
    }
}

/// Law: a fetch over a paginated source returns exactly the items the
/// server yielded — every consumed page appears in dispatch order,
/// nothing is dropped and nothing is repeated, and the count is the
/// sum of the page sizes. The window of in-flight requests only
/// schedules the page calls; it cannot change this list.
pub proof fn lemma_fetch_collects_all_pages(f: &CatalogFetch)
    requires
        f.wf(),
    ensures
        f.iviews() == spec_concat_pages(f.pages@),
        f.items@.len() == spec_total_items(f.pages@),
{
    lemma_concat_pages_len(f.pages@);
}

/// The catalog page path for one request: fixed page size and fields;
/// the first request carries the status filter, a continuation
/// request carries the cursor instead.
pub fn build_products_page_path(cursor: &Option<String>) -> (r: String)
    ensures
        match cursor {
            Some(c) => r@ == "products.json?limit=250&fields=id,title,status,variants"@
                + "&page_info="@ + c@,
            None => r@ == "products.json?limit=250&fields=id,title,status,variants"@
                + "&status=active"@,
        },
{
    let mut s = String::from_str("products.json?limit=250&fields=id,title,status,variants");
    match cursor {
        Some(c) => {
            s.append("&page_info=");
            s.append(c.as_str());
        },
        None => {
            s.append("&status=active");
        },
    }
    s
}

/// One variant row of a catalog page: the stock snapshot, required to
/// be a number in range.
pub open spec fn spec_page_variant_of(v: JsonSpec) -> Option<i32> {
    match spec_get(v, "inventory_quantity"@) {
        Some(JsonSpec::Int(n)) => if i32::MIN <= n <= i32::MAX {
            Some(n as i32)
        } else {
            None
        },
        _ => None,
    }
}

/// A catalog page row parses: a nonnegative numeric identifier, a
/// title, a known status text, and well-formed variant rows.
pub open spec fn spec_page_product_wf(p: JsonSpec) -> bool {
    &&& (spec_get(p, "id"@) matches Some(JsonSpec::Int(n)) && n >= 0)
    &&& spec_get(p, "title"@) matches Some(JsonSpec::Str(_))
    &&& (spec_get(p, "status"@) matches Some(JsonSpec::Str(s)) && ProductStatus::spec_parse(s)
        is Some)
    &&& match spec_get(p, "variants"@) {
        Some(JsonSpec::Array(vs)) => forall|i: int|
            0 <= i < vs.len() ==> spec_page_variant_of(#[trigger] vs[i]) is Some,
        _ => false,
    }
}

/// The catalog row a well-formed page row denotes.
pub open spec fn spec_page_product_of(p: JsonSpec) -> ShopifyProductView {
    ShopifyProductView {
        id: spec_get(p, "id"@)->0->Int_0 as u64,
        title: spec_get(p, "title"@)->0->Str_0,
        status: ProductStatus::spec_parse(spec_get(p, "status"@)->0->Str_0)->0,
        variants: spec_get(p, "variants"@)->0->Array_0.map_values(
            |v: JsonSpec| spec_page_variant_of(v)->0 as i32,
        ),
    }
}

/// The rows of a catalog page response.
pub open spec fn spec_page_rows_of(response: JsonSpec) -> Option<Seq<JsonSpec>> {
    match spec_get(response, "products"@) {
        Some(JsonSpec::Array(rows)) => Some(rows),
        _ => None,
    }
}

/// A catalog page response parses: the row list is present and every
/// row is well formed.
pub open spec fn spec_page_response_wf(response: JsonSpec) -> bool {
    match spec_page_rows_of(response) {
        Some(rows) => forall|i: int|
            0 <= i < rows.len() ==> spec_page_product_wf(#[trigger] rows[i]),
        None => false,
    }
}

#[verifier::loop_isolation(false)]
fn parse_page_variants(p: &JsonValue) -> (r: Result<Vec<ShopifyVariant>, String>)
    ensures
        r is Ok <==> (match spec_get(p@, "variants"@) {
            Some(JsonSpec::Array(vs)) => forall|i: int|
                0 <= i < vs.len() ==> spec_page_variant_of(#[trigger] vs[i]) is Some,
            _ => false,
        }),
        r matches Ok(out) ==> out@.map_values(|v: ShopifyVariant| v.inventory_quantity)
            == spec_get(p@, "variants"@)->0->Array_0.map_values(
            |v: JsonSpec| spec_page_variant_of(v)->0 as i32,
        ),
{
    let rows = match p.get("variants") {
        Some(f) => match f.as_array() {
            Some(rows) => rows,
            None => {
                return Err(String::from_str("Failed to parse JSON: missing variants"));
            },
        },
        None => {
            return Err(String::from_str("Failed to parse JSON: missing variants"));
        },
    };
    let ghost rviews = rows@.map_values(|x: JsonValue| x@);
    let ghost f = |v: JsonSpec| spec_page_variant_of(v)->0 as i32;
    let mut out: Vec<ShopifyVariant> = Vec::new();
    let mut i: usize = 0;
    proof {
        assert(spec_get(p@, "variants"@)->0->Array_0 == rviews);
    }
    while i < rows.len()
        invariant
            i <= rows@.len(),
            rviews == rows@.map_values(|x: JsonValue| x@),
            rviews.len() == rows@.len(),
            f == (|v: JsonSpec| spec_page_variant_of(v)->0 as i32),
            out@.map_values(|v: ShopifyVariant| v.inventory_quantity) =~= rviews.take(
                i as int,
            ).map_values(f),
            forall|t: int| 0 <= t < i ==> spec_page_variant_of(#[trigger] rviews[t]) is Some,
        decreases rows@.len() - i,
    {
        let qty = match rows[i].get("inventory_quantity") {
            Some(g) => match g.as_i64() {
                Some(n) => if i32::MIN as i64 <= n && n <= i32::MAX as i64 {
                    n as i32
                } else {
                    proof {
                        assert(spec_page_variant_of(rviews[i as int]) is None);
                    }
                    return Err(String::from_str("Failed to parse JSON: inventory_quantity"));
                },
                None => {
                    proof {
                        assert(spec_page_variant_of(rviews[i as int]) is None);
                    }
                    return Err(String::from_str("Failed to parse JSON: inventory_quantity"));
                },
            },
            None => {
                proof {
                    assert(spec_page_variant_of(rviews[i as int]) is None);
                }
                return Err(String::from_str("Failed to parse JSON: inventory_quantity"));
            },
        };
        let ghost prev = out@.map_values(|v: ShopifyVariant| v.inventory_quantity);
        proof {
            assert(spec_page_variant_of(rviews[i as int]) == Some(qty));
        }
        out.push(ShopifyVariant { inventory_quantity: qty });
        proof {
            assert(out@.map_values(|v: ShopifyVariant| v.inventory_quantity) =~= prev.push(
                f(rviews[i as int]),
            ));
            assert(rviews.take(i + 1 as int).map_values(f) =~= rviews.take(i as int).map_values(
                f,
            ).push(f(rviews[i as int])));
        }
        i += 1;
    }
    proof {
        assert(rviews.take(rows@.len() as int) =~= rviews);
    }
    Ok(out)
}

/// Parses one catalog page response into catalog rows. Fails exactly
/// when the row list is absent or a row is missing a required field —
/// the fetch then aborts, as a partial catalog is of no use to the
/// scan.
#[verifier::loop_isolation(false)]
pub fn parse_products_page(response: &JsonValue) -> (r: Result<Vec<ShopifyProduct>, String>)
    ensures
        r is Ok <==> spec_page_response_wf(response@),
        r matches Ok(ps) ==> ps@.map_values(|p: ShopifyProduct| p@) == spec_page_rows_of(
            response@,
        )->0.map_values(|row: JsonSpec| spec_page_product_of(row)),
{
    let rows = match response.get("products") {
        Some(f) => match f.as_array() {
            Some(rows) => rows,
            None => {
                return Err(String::from_str("Failed to parse JSON: missing products"));
            },
        },
        None => {
            return Err(String::from_str("Failed to parse JSON: missing products"));
        },
    };
    let ghost rviews = rows@.map_values(|x: JsonValue| x@);
    proof {
        assert(spec_page_rows_of(response@) == Some(rviews));
    }
    let ghost f = |row: JsonSpec| spec_page_product_of(row);
    let mut out: Vec<ShopifyProduct> = Vec::new();
    let mut i: usize = 0;
    while i < rows.len()
        invariant
            i <= rows@.len(),
            out@.map_values(|p: ShopifyProduct| p@) =~= rviews.take(i as int).map_values(f),
            forall|t: int| 0 <= t < i ==> spec_page_product_wf(#[trigger] rviews[t]),
        decreases rows@.len() - i,
    {
        let row = &rows[i];
        let id = match row.get("id") {
            Some(g) => match g.as_u64() {
                Some(n) => n,
                None => {
                    proof {
                        assert(rviews.len() == rows@.len());
                        assert((i as int) < rviews.len());
                        assert(row@ == rviews[i as int]);
                        assert(!spec_page_product_wf(rviews[i as int]));
                        if spec_page_response_wf(response@) {
                            assert(spec_page_rows_of(response@) == Some(rviews));
                        assert(spec_page_rows_of(response@)->0 == rviews);
                            assert(spec_page_rows_of(response@)->0 == rviews);
                            assert(spec_page_product_wf(rviews[i as int]));
                            assert(false);
                        }
                    }
                    return Err(String::from_str("Failed to parse JSON: missing id"));
                },
            },
            None => {
                proof {
                    assert(rviews.len() == rows@.len());
                    assert((i as int) < rviews.len());
                    assert(row@ == rviews[i as int]);
                    assert(!spec_page_product_wf(rviews[i as int]));
                    if spec_page_response_wf(response@) {
                        assert(spec_page_rows_of(response@) == Some(rviews));
                        assert(spec_page_rows_of(response@)->0 == rviews);
                        assert(spec_page_product_wf(rviews[i as int]));
                        assert(false);
                    }
                }
                return Err(String::from_str("Failed to parse JSON: missing id"));
            },
        };
        let title = match row.get("title") {
            Some(g) => match g.as_str() {
                Some(s) => String::from_str(s),
                None => {
                    proof {
                        assert(!spec_page_product_wf(rviews[i as int]));
                    }
                    return Err(String::from_str("Failed to parse JSON: missing title"));
                },
            },
            None => {
                proof {
                    assert(!spec_page_product_wf(rviews[i as int]));
                }
                return Err(String::from_str("Failed to parse JSON: missing title"));
            },
        };
        let status = match row.get("status") {
            Some(g) => match g.as_str() {
                Some(s) => match ProductStatus::parse_text(s) {
                    Some(st) => st,
                    None => {
                        proof {
                            assert(!spec_page_product_wf(rviews[i as int]));
                        }
                        return Err(String::from_str("Failed to parse JSON: unknown status"));
                    },
                },
                None => {
                    proof {
                        assert(!spec_page_product_wf(rviews[i as int]));
                    }
                    return Err(String::from_str("Failed to parse JSON: missing status"));
                },
            },
            None => {
                proof {
                    assert(!spec_page_product_wf(rviews[i as int]));
                }
                return Err(String::from_str("Failed to parse JSON: missing status"));
            },
        };
        let variants = match parse_page_variants(row) {
            Ok(vs) => vs,
            Err(e) => {
                proof {
                    assert(!spec_page_product_wf(rviews[i as int]));
                }
                return Err(e);
            },
        };
        let product = ShopifyProduct { id, title, status, variants };
        let ghost prev = out@.map_values(|p: ShopifyProduct| p@);
        proof {
            assert(spec_page_product_wf(rviews[i as int]));
            assert(product@ =~~= spec_page_product_of(rviews[i as int]));
        }
        out.push(product);
        proof {
            assert(out@.map_values(|p: ShopifyProduct| p@) =~= prev.push(f(rviews[i as int])));
            assert(rviews.take(i + 1 as int).map_values(f) =~= rviews.take(i as int).map_values(
                f,
            ).push(f(rviews[i as int])));
        }
        i += 1;
    }
    proof {
        assert(rviews.take(rows@.len() as int) =~= rviews);
    }
    Ok(out)
}

/// The first piece, from `i` on, that contains the needle; the count
/// when none does.
pub open spec fn spec_first_containing(parts: Seq<Seq<char>>, needle: Seq<char>, i: int) -> int
    decreases parts.len() - i,
    when 0 <= i <= parts.len()
{
    if i >= parts.len() {
        parts.len() as int
    } else if spec_contains_seq(parts[i], needle) {
        i
    } else {
        spec_first_containing(parts, needle, i + 1)
    }
}

/// The first piece, from `i` on, that starts with the prefix; the
/// count when none does.
pub open spec fn spec_first_prefixed(parts: Seq<Seq<char>>, prefix: Seq<char>, i: int) -> int
    decreases parts.len() - i,
    when 0 <= i <= parts.len()
{
    if i >= parts.len() {
        parts.len() as int
    } else if spec_has_prefix(parts[i], prefix) {
        i
    } else {
        spec_first_prefixed(parts, prefix, i + 1)
    }
}

/// The continuation cursor a pagination header offers: within the
/// first comma-separated link tagged as the next page, the text of the
/// `page_info` query parameter, up to a closing angle bracket.
pub open spec fn spec_next_page_info(link: Seq<char>) -> Option<Seq<char>> {
    let segments = spec_split(link, ',');
    let si = spec_first_containing(segments, "rel=\"next\""@, 0);
    if si >= segments.len() {
        None
    } else {
        let qparts = spec_split(segments[si], '?');
        if qparts.len() < 2 {
            None
        } else {
            let params = spec_split(qparts[1], '&');
            let pi = spec_first_prefixed(params, "page_info="@, 0);
            if pi >= params.len() {
                None
            } else {
                let tail = params[pi].skip("page_info="@.len() as int);
                Some(tail.take(spec_char_index(tail, '>')))
            }
        }
    }
}

fn first_containing(parts: &Vec<String>, needle: &str) -> (r: Option<usize>)
    ensures
        ({
            let pv = parts@.map_values(|p: String| p@);
            let w = spec_first_containing(pv, needle@, 0);
            match r {
                Some(i) => i == w && i < pv.len() && spec_contains_seq(pv[i as int], needle@),
                None => w == pv.len(),
            }
        }),
{
    let ghost pv = parts@.map_values(|p: String| p@);
    let mut i: usize = 0;
    while i < parts.len()
        invariant
            pv == parts@.map_values(|p: String| p@),
            pv.len() == parts@.len(),
            i <= pv.len(),
            spec_first_containing(pv, needle@, 0) == spec_first_containing(pv, needle@, i as int),
        decreases parts@.len() - i,
    {
        if str_contains(parts[i].as_str(), needle) {
            proof {
                assert(spec_contains_seq(pv[i as int], needle@));
            }
            return Some(i);
        }
        i += 1;
    }
    None
}

fn first_prefixed(parts: &Vec<String>, prefix: &str) -> (r: Option<usize>)
    ensures
        ({
            let pv = parts@.map_values(|p: String| p@);
            let w = spec_first_prefixed(pv, prefix@, 0);
            match r {
                Some(i) => i == w && i < pv.len() && spec_has_prefix(pv[i as int], prefix@),
                None => w == pv.len(),
            }
        }),
{
    let ghost pv = parts@.map_values(|p: String| p@);
    let mut i: usize = 0;
    while i < parts.len()
        invariant
            pv == parts@.map_values(|p: String| p@),
            pv.len() == parts@.len(),
            i <= pv.len(),
            spec_first_prefixed(pv, prefix@, 0) == spec_first_prefixed(pv, prefix@, i as int),
        decreases parts@.len() - i,
    {
        if str_starts_with(parts[i].as_str(), prefix) {
            proof {
                assert(spec_has_prefix(pv[i as int], prefix@));
            }
            return Some(i);
        }
        i += 1;
    }
    None
}

/// Extracts the continuation cursor out of a pagination header, when
/// the header offers a next page.
pub fn extract_next_page_info(link_header: &str) -> (r: Option<String>)
    ensures
        match r {
            Some(info) => spec_next_page_info(link_header@) == Some(info@),
            None => spec_next_page_info(link_header@) is None,
        },
{
    let segments = split_on_char(link_header, ',');
    let si = match first_containing(&segments, "rel=\"next\"") {
        Some(i) => i,
        None => {
            return None;
        },
    };
    let qparts = split_on_char(segments[si].as_str(), '?');
    if qparts.len() < 2 {
        return None;
    }
    let params = split_on_char(qparts[1].as_str(), '&');
    let pi = match first_prefixed(&params, "page_info=") {
        Some(i) => i,
        None => {
            return None;
        },
    };
    let param = &params[pi];
    let n = param.as_str().unicode_len();
    let prefix_len = "page_info=".unicode_len();
    proof {
        assert(param@ == params@.map_values(|p: String| p@)[pi as int]);
        assert(spec_has_prefix(param@, "page_info="@));
    }
    let tail = param.as_str().substring_char(prefix_len, n);
    let info = crate::text::prefix_before_char(tail, '>');
    proof {
        assert(tail@ =~= param@.skip("page_info="@.len() as int));
    }
    Some(info)
}

} // verus!
