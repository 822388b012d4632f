//! Product parsing and search: the REST and GraphQL response shapes
//! turned into [`Product`] values, the GraphQL query texts, the exact
//! and partial SKU matching, and the merge step of the combined
//! search. HTML descriptions are cleaned through the same regular
//! expressions the wire data was written for.

use vstd::prelude::*;
use vstd::string::StringSliceAdditionalSpecFns;

use crate::json::{spec_get, JsonSpec, JsonValue};
use crate::text::{
    spec_after_last_index, spec_ascii_ic_eq, spec_clamp_i32, spec_u64_string,
    str_eq_ignore_ascii_case, suffix_after_last_char, u64_to_string,
};
use crate::utils::{Product, ProductVariant};

verus! {

broadcast use vstd::std_specs::vec::group_vec_axioms;

/// The text with every `<...>` tag removed, as the tag-stripping
/// regular expression `<[^>]*>` rewrites it; a function of the text
/// alone.
pub uninterp spec fn strip_tags_of(s: Seq<char>) -> Seq<char>;

/// Relies on regex's `Regex::replace_all` with the pattern `<[^>]*>`:
/// removes every bracketed tag, a pure function of the text; the
/// pattern itself is a fixed literal that always compiles.
#[verifier::external_body]
fn strip_html_tags(s: &str) -> (r: String)
    ensures
        r@ == strip_tags_of(s@),
        s@.len() == 0 ==> r@.len() == 0,
{
    let tag_regex = regex::Regex::new("<[^>]*>").unwrap();
    tag_regex.replace_all(s, "").into_owned()
}

/// The text with every whitespace run replaced by one space, as the
/// regular expression `\s+` rewrites it; a function of the text alone.
pub uninterp spec fn collapse_ws_of(s: Seq<char>) -> Seq<char>;

/// Relies on regex's `Regex::replace_all` with the pattern `\s+`:
/// collapses each whitespace run to a single space, a pure function of
/// the text; the pattern itself is a fixed literal that always
/// compiles.
#[verifier::external_body]
fn collapse_whitespace(s: &str) -> (r: String)
    ensures
        r@ == collapse_ws_of(s@),
        s@.len() == 0 ==> r@.len() == 0,
{
    let space_regex = regex::Regex::new(r"\s+").unwrap();
    space_regex.replace_all(s, " ").into_owned()
}

/// The text with every occurrence of one pattern replaced by another,
/// as `str::replace` rewrites it; a function of the three texts alone.
pub uninterp spec fn replace_of(s: Seq<char>, from: Seq<char>, to: Seq<char>) -> Seq<char>;

/// Relies on `str::replace`: replaces every non-overlapping occurrence
/// of the pattern, left to right, a pure function of its arguments.
#[verifier::external_body]
fn str_replace(s: &str, from: &str, to: &str) -> (r: String)
    ensures
        r@ == replace_of(s@, from@, to@),
{
    s.replace(from, to)
}

/// The text with leading and trailing whitespace removed, as
/// `str::trim` computes it; a function of the text alone.
pub uninterp spec fn trim_of(s: Seq<char>) -> Seq<char>;

/// Relies on `str::trim`: removes leading and trailing whitespace, a
/// pure function of the text; an empty string stays empty.
#[verifier::external_body]
fn str_trim(s: &str) -> (r: String)
    ensures
        r@ == trim_of(s@),
        s@.len() == 0 ==> r@.len() == 0,
{
    String::from(s.trim())
}

/// The percent-encoding of a string, as `urlencoding::encode` computes
/// it; a function of the text alone.
pub uninterp spec fn url_encoded_of(s: Seq<char>) -> Seq<char>;

/// Relies on urlencoding's `encode`: percent-encodes every byte except
/// the ASCII alphanumerics and `-`, `_`, `.`, `~`, so a string of only
/// those characters comes back unchanged; a pure function of the text.
#[verifier::external_body]
fn url_encode(s: &str) -> (r: String)
    ensures
        r@ == url_encoded_of(s@),
        s@.len() == 0 ==> r@.len() == 0,
{
    urlencoding::encode(s).into_owned()
}

/// The cleaned form of an HTML description: tags stripped, the common
/// entities decoded in their fixed order, whitespace runs collapsed,
/// and the ends trimmed.
pub open spec fn spec_clean_html(s: Seq<char>) -> Seq<char> {
    let without_tags = strip_tags_of(s);
    let decoded = replace_of(
        replace_of(
            replace_of(
                replace_of(
                    replace_of(
                        replace_of(without_tags, "&amp;"@, "&"@),
                        "&lt;"@,
                        "<"@,
                    ),
                    "&gt;"@,
                    ">"@,
                ),
                "&quot;"@,
                "\""@,
            ),
            "&#39;"@,
            "'"@,
        ),
        "&nbsp;"@,
        " "@,
    );
    trim_of(collapse_ws_of(decoded))
}

/// Cleans an HTML description for display.
pub fn clean_html_description(html: &str) -> (r: String)
    ensures
        r@ == spec_clean_html(html@),
{
    let without_tags = strip_html_tags(html);
    let s1 = str_replace(without_tags.as_str(), "&amp;", "&");
    let s2 = str_replace(s1.as_str(), "&lt;", "<");
    let s3 = str_replace(s2.as_str(), "&gt;", ">");
    let s4 = str_replace(s3.as_str(), "&quot;", "\"");
    let s5 = str_replace(s4.as_str(), "&#39;", "'");
    let s6 = str_replace(s5.as_str(), "&nbsp;", " ");
    let collapsed = collapse_whitespace(s6.as_str());
    str_trim(collapsed.as_str())
}

/// The string under a key, or a default.
pub open spec fn spec_str_or(v: JsonSpec, key: Seq<char>, default: Seq<char>) -> Seq<char> {
    match spec_get(v, key) {
        Some(JsonSpec::Str(s)) => s,
        _ => default,
    }
}

fn get_str_or<'a>(v: &'a JsonValue, key: &str, default: &'a str) -> (r: &'a str)
    ensures
        r@ == spec_str_or(v@, key@, default@),
{
    match v.get(key) {
        Some(f) => match f.as_str() {
            Some(s) => s,
            None => default,
        },
        None => default,
    }
}

/// The integer under a key squeezed to 32 bits, or zero when absent
/// or not a number.
pub open spec fn spec_i32_or_zero(v: JsonSpec, key: Seq<char>) -> int {
    match spec_get(v, key) {
        Some(JsonSpec::Int(n)) => spec_clamp_i32(n),
        _ => 0,
    }
}

pub fn get_i32_or_zero(v: &JsonValue, key: &str) -> (r: i32)
    ensures
        r == spec_i32_or_zero(v@, key@),
{
    match v.get(key) {
        Some(f) => match f.as_i64() {
            Some(n) => if n > i32::MAX as i64 {
                i32::MAX
            } else if n < i32::MIN as i64 {
                i32::MIN
            } else {
                n as i32
            },
            None => 0,
        },
        None => 0,
    }
}

/// Mathematical image of a [`ProductVariant`].
#[verifier::ext_equal]
pub ghost struct VariantView {
    pub variant_id: Seq<char>,
    pub inventory_item_id: Seq<char>,
    pub title: Seq<char>,
    pub inventory_quantity: int,
    pub price: Seq<char>,
    pub sku: Option<Seq<char>>,
}

impl View for ProductVariant {
    type V = VariantView;

    open spec fn view(&self) -> VariantView {
        VariantView {
            variant_id: self.variant_id@,
            inventory_item_id: self.inventory_item_id@,
            title: self.title@,
            inventory_quantity: self.inventory_quantity as int,
            price: self.price@,
            sku: match self.sku {
                Some(ref s) => Some(s@),
                None => None,
            },
        }
    }
}

/// Mathematical image of a [`Product`].
#[verifier::ext_equal]
pub ghost struct ProductView {
    pub id: Seq<char>,
    pub title: Seq<char>,
    pub handle: Seq<char>,
    pub price: Seq<char>,
    pub description: Seq<char>,
    pub images: Seq<Seq<char>>,
    pub variants: Seq<VariantView>,
    pub total_inventory: int,
    pub locations: Seq<(Seq<char>, int)>,
}

impl View for Product {
    type V = ProductView;

    open spec fn view(&self) -> ProductView {
        ProductView {
            id: self.id@,
            title: self.title@,
            handle: self.handle@,
            price: self.price@,
            description: self.description@,
            images: self.images@.map_values(|s: String| s@),
            variants: self.variants@.map_values(|v: ProductVariant| v@),
            total_inventory: self.total_inventory as int,
            locations: self.locations@.map_values(|p: (String, i32)| (p.0@, p.1 as int)),
        }
    }
}

/// One variant of a REST product body. A variant without an inventory
/// item identifier is dropped, as the listing may carry partial rows.
pub open spec fn spec_rest_variant_of(v: JsonSpec) -> Option<VariantView> {
    match spec_get(v, "inventory_item_id"@) {
        Some(JsonSpec::Int(iid)) => if iid >= 0 {
            Some(
                VariantView {
                    variant_id: match spec_get(v, "id"@) {
                        Some(JsonSpec::Int(n)) => if n >= 0 {
                            spec_u64_string(n)
                        } else {
                            ""@
                        },
                        _ => ""@,
                    },
                    inventory_item_id: spec_u64_string(iid),
                    title: spec_str_or(v, "title"@, "Default"@),
                    inventory_quantity: spec_i32_or_zero(v, "inventory_quantity"@),
                    price: spec_str_or(v, "price"@, "0.00"@),
                    sku: match spec_get(v, "sku"@) {
                        Some(JsonSpec::Str(s)) => Some(s),
                        _ => None,
                    },
                },
            )
        } else {
            None
        },
        _ => None,
    }
}

fn parse_rest_variant(v: &JsonValue) -> (r: Option<ProductVariant>)
    ensures
        match r {
            Some(pv) => spec_rest_variant_of(v@) == Some(pv@),
            None => spec_rest_variant_of(v@) is None,
        },
{
    let iid = match v.get("inventory_item_id") {
        Some(f) => match f.as_u64() {
            Some(n) => n,
            None => {
                return None;
            },
        },
        None => {
            return None;
        },
    };
    let variant_id = match v.get("id") {
        Some(f) => match f.as_u64() {
            Some(n) => u64_to_string(n),
            None => String::new(),
        },
        None => String::new(),
    };
    let sku = match v.get("sku") {
        Some(f) => match f.as_str() {
            Some(s) => Some(String::from_str(s)),
            None => None,
        },
        None => None,
    };
    let pv = ProductVariant {
        variant_id,
        inventory_item_id: u64_to_string(iid),
        title: String::from_str(get_str_or(v, "title", "Default")),
        inventory_quantity: get_i32_or_zero(v, "inventory_quantity"),
        price: String::from_str(get_str_or(v, "price", "0.00")),
        sku,
    };
    proof {
        reveal_strlit("");
        assert(""@ =~= Seq::<char>::empty());
        assert(spec_rest_variant_of(v@) is Some);
        assert(spec_rest_variant_of(v@)->0 =~~= pv@);
    }
    Some(pv)
}

/// The variants of a REST product body, in order, partial rows
/// dropped.
pub open spec fn spec_rest_variants_of(p: JsonSpec) -> Seq<VariantView> {
    match spec_get(p, "variants"@) {
        Some(JsonSpec::Array(vs)) => vs.filter_map(|v: JsonSpec| spec_rest_variant_of(v)),
        _ => Seq::empty(),
    }
}

/// The image addresses of a REST product body: the `src` strings.
pub open spec fn spec_rest_images_of(p: JsonSpec) -> Seq<Seq<char>> {
    match spec_get(p, "images"@) {
        Some(JsonSpec::Array(imgs)) => imgs.filter_map(
            |img: JsonSpec|
                match spec_get(img, "src"@) {
                    Some(JsonSpec::Str(s)) => Some(s),
                    _ => None,
                },
        ),
        _ => Seq::empty(),
    }
}

/// Sum of the variants' stock snapshots.
pub open spec fn spec_total_inventory(vs: Seq<VariantView>) -> int
    decreases vs.len(),
{
    if vs.len() == 0 {
        0
    } else {
        spec_total_inventory(vs.drop_last()) + vs.last().inventory_quantity
    }
}

fn sum_variant_quantities(vs: &Vec<ProductVariant>) -> (r: i32)
    ensures
        r == spec_clamp_i32(
            spec_total_inventory(vs@.map_values(|v: ProductVariant| v@)),
        ),
{
    let ghost views = vs@.map_values(|v: ProductVariant| v@);
    let mut sum: i128 = 0;
    let mut i: usize = 0;
    while i < vs.len()
        invariant
            i <= vs@.len(),
            views == vs@.map_values(|v: ProductVariant| v@),
            views.len() == vs@.len(),
            sum == spec_total_inventory(views.take(i as int)),
            -0x8000_0000i128 * (i as i128) <= sum <= 0x8000_0000i128 * (i as i128),
        decreases vs@.len() - i,
    {
        proof {
            assert(views.take(i + 1 as int).drop_last() =~= views.take(i as int));
            assert(views.take(i + 1 as int).last() == views[i as int]);
            assert(-0x8000_0000i128 * ((i + 1) as i128) <= sum - 0x8000_0000 && sum + 0x8000_0000
                <= 0x8000_0000i128 * ((i + 1) as i128)) by (nonlinear_arith)
                requires
                    -0x8000_0000i128 * (i as i128) <= sum <= 0x8000_0000i128 * (i as i128),
            ;
        }
        sum = sum + (vs[i].inventory_quantity as i128);
        i += 1;
    }
    proof {
        assert(views.take(vs@.len() as int) =~= views);
    }
    if sum > 0x7fff_ffffi128 {
        0x7fff_ffffi32
    } else if sum < -0x8000_0000i128 {
        -0x8000_0000i32
    } else {
        sum as i32
    }
}

/// A REST product body is parseable: it carries a nonnegative numeric
/// identifier.
pub open spec fn spec_rest_product_wf(p: JsonSpec) -> bool {
    spec_get(p, "id"@) matches Some(JsonSpec::Int(n)) && n >= 0
}

/// The product a REST body denotes: defaults for missing text fields,
/// the description cleaned of HTML, the price taken from the first
/// variant, and the total stock summed over the variants.
pub open spec fn spec_rest_product_of(p: JsonSpec) -> ProductView {
    let variants = spec_rest_variants_of(p);
    let raw_description = spec_str_or(p, "body_html"@, ""@);
    ProductView {
        id: spec_u64_string(spec_get(p, "id"@)->0->Int_0),
        title: spec_str_or(p, "title"@, "Unknown"@),
        handle: spec_str_or(p, "handle"@, ""@),
        price: if variants.len() > 0 {
            variants.first().price
        } else {
            "0.00"@
        },
        description: if raw_description.len() == 0 {
            Seq::empty()
        } else {
            spec_clean_html(raw_description)
        },
        images: spec_rest_images_of(p),
        variants,
        total_inventory: spec_clamp_i32(spec_total_inventory(variants)),
        locations: Seq::empty(),
    }
}

/// Parses one REST product body. Succeeds exactly when the body
/// carries a numeric product identifier.
pub fn parse_product_from_json(product: &JsonValue) -> (r: Result<Product, String>)
    ensures
        r is Ok <==> spec_rest_product_wf(product@),
        r matches Ok(p) ==> p@ == spec_rest_product_of(product@),
{
    let id = match product.get("id") {
        Some(f) => match f.as_u64() {
            Some(n) => n,
            None => {
                return Err(String::from_str("Missing product id"));
            },
        },
        None => {
            return Err(String::from_str("Missing product id"));
        },
    };
    let title = String::from_str(get_str_or(product, "title", "Unknown"));
    let handle = String::from_str(get_str_or(product, "handle", ""));
    let raw_description = get_str_or(product, "body_html", "");
    let description = if raw_description.unicode_len() == 0 {
        String::new()
    } else {
        clean_html_description(raw_description)
    };

    let mut images: Vec<String> = Vec::new();
    match product.get("images") {
        Some(f) => match f.as_array() {
            Some(imgs) => {
                let ghost iviews = imgs@.map_values(|x: JsonValue| x@);
                let ghost fimg = |img: JsonSpec|
                    match spec_get(img, "src"@) {
                        Some(JsonSpec::Str(s)) => Some(s),
                        _ => None,
                    };
                let mut i: usize = 0;
                while i < imgs.len()
                    invariant
                        i <= imgs@.len(),
                        iviews == imgs@.map_values(|x: JsonValue| x@),
                        iviews.len() == imgs@.len(),
                        fimg == (|img: JsonSpec|
                            match spec_get(img, "src"@) {
                                Some(JsonSpec::Str(s)) => Some(s),
                                _ => None,
                            }),
                        images@.map_values(|s: String| s@) =~= iviews.take(i as int).filter_map(
                            fimg,
                        ),
                    decreases imgs@.len() - i,
                {
                    proof {
                        assert(iviews.take(i + 1 as int).drop_last() =~= iviews.take(i as int));
                        assert(iviews.take(i + 1 as int).last() == iviews[i as int]);
                    }
                    match imgs[i].get("src") {
                        Some(sv) => match sv.as_str() {
                            Some(s) => {
                                images.push(String::from_str(s));
                                proof {
                                    assert(images@.map_values(|s: String| s@) =~= iviews.take(
                                        i + 1 as int,
                                    ).filter_map(fimg));
                                }
                            },
                            None => {
                                proof {
                                    assert(fimg(iviews[i as int]) is None);
                                }
                            },
                        },
                        None => {
                            proof {
                                assert(fimg(iviews[i as int]) is None);
                            }
                        },
                    }
                    i += 1;
                }
                proof {
                    assert(iviews.take(imgs@.len() as int) =~= iviews);
                    assert(spec_rest_images_of(product@) == iviews.filter_map(fimg));
                }
            },
            None => {
                proof {
                    assert(spec_rest_images_of(product@) =~= Seq::<Seq<char>>::empty());
                }
            },
        },
        None => {
            proof {
                assert(spec_rest_images_of(product@) =~= Seq::<Seq<char>>::empty());
            }
        },
    }
    proof {
        assert(images@.map_values(|s: String| s@) =~= spec_rest_images_of(product@));
    }

    let mut variants: Vec<ProductVariant> = Vec::new();
    match product.get("variants") {
        Some(f) => match f.as_array() {
            Some(vars) => {
                let ghost vviews = vars@.map_values(|x: JsonValue| x@);
                let ghost fvar = |v: JsonSpec| spec_rest_variant_of(v);
                let mut i: usize = 0;
                while i < vars.len()
                    invariant
                        i <= vars@.len(),
                        vviews == vars@.map_values(|x: JsonValue| x@),
                        vviews.len() == vars@.len(),
                        fvar == (|v: JsonSpec| spec_rest_variant_of(v)),
                        variants@.map_values(|v: ProductVariant| v@) =~= vviews.take(
                            i as int,
                        ).filter_map(fvar),
                    decreases vars@.len() - i,
                {
                    proof {
                        assert(vviews.take(i + 1 as int).drop_last() =~= vviews.take(i as int));
                        assert(vviews.take(i + 1 as int).last() == vviews[i as int]);
                    }
                    match parse_rest_variant(&vars[i]) {
                        Some(pv) => {
                            variants.push(pv);
                            proof {
                                assert(variants@.map_values(|v: ProductVariant| v@)
                                    =~= vviews.take(i + 1 as int).filter_map(fvar));
                            }
                        },
                        None => {
                            proof {
                                assert(fvar(vviews[i as int]) is None);
                            }
                        },
                    }
                    i += 1;
                }
                proof {
                    assert(vviews.take(vars@.len() as int) =~= vviews);
                    assert(spec_rest_variants_of(product@) == vviews.filter_map(fvar));
                }
            },
            None => {
                proof {
                    assert(spec_rest_variants_of(product@) =~= Seq::<VariantView>::empty());
                }
            },
        },
        None => {
            proof {
                assert(spec_rest_variants_of(product@) =~= Seq::<VariantView>::empty());
            }
        },
    }
    proof {
        assert(variants@.map_values(|v: ProductVariant| v@) =~= spec_rest_variants_of(product@));
    }

    let total_inventory = sum_variant_quantities(&variants);
    let price = if variants.len() > 0 {
        variants[0].price.clone()
    } else {
        String::from_str("0.00")
    };
    let p = Product {
        id: u64_to_string(id),
        title,
        handle,
        price,
        description,
        images,
        variants,
        total_inventory,
        locations: Vec::new(),
    };
    proof {
        assert(p@ =~~= spec_rest_product_of(product@));
    }
    Ok(p)
}

/// The identifier at the tail of a GraphQL global identifier: the text
/// after the last slash, or the whole text when it has none.
pub open spec fn spec_gid_tail(s: Seq<char>) -> Seq<char> {
    s.skip(spec_after_last_index(s, '/'))
}

/// One variant node of a GraphQL product: identifiers reduced to their
/// numeric tails, missing text fields defaulted.
pub open spec fn spec_gql_variant_of(v: JsonSpec) -> VariantView {
    VariantView {
        variant_id: spec_gid_tail(spec_str_or(v, "id"@, ""@)),
        inventory_item_id: spec_gid_tail(
            match spec_get(v, "inventoryItem"@) {
                Some(ii) => spec_str_or(ii, "id"@, ""@),
                None => ""@,
            },
        ),
        title: spec_str_or(v, "title"@, ""@),
        inventory_quantity: spec_i32_or_zero(v, "inventoryQuantity"@),
        price: spec_str_or(v, "price"@, "0.00"@),
        sku: match spec_get(v, "sku"@) {
            Some(JsonSpec::Str(s)) => Some(s),
            _ => None,
        },
    }
}

fn parse_gql_variant(v: &JsonValue) -> (r: ProductVariant)
    ensures
        r@ == spec_gql_variant_of(v@),
{
    let gid = get_str_or(v, "id", "");
    let iid_gid = match v.get("inventoryItem") {
        Some(ii) => get_str_or(ii, "id", ""),
        None => "",
    };
    let sku = match v.get("sku") {
        Some(f) => match f.as_str() {
            Some(s) => Some(String::from_str(s)),
            None => None,
        },
        None => None,
    };
    let r = ProductVariant {
        variant_id: suffix_after_last_char(gid, '/'),
        inventory_item_id: suffix_after_last_char(iid_gid, '/'),
        title: String::from_str(get_str_or(v, "title", "")),
        inventory_quantity: get_i32_or_zero(v, "inventoryQuantity"),
        price: String::from_str(get_str_or(v, "price", "0.00")),
        sku,
    };
    proof {
        assert(r@ =~~= spec_gql_variant_of(v@));
    }
    r
}

/// The variant nodes of a GraphQL product, in edge order.
pub open spec fn spec_gql_variants_of(node: JsonSpec) -> Seq<VariantView> {
    match spec_get(node, "variants"@) {
        Some(vv) => match spec_get(vv, "edges"@) {
            Some(JsonSpec::Array(edges)) => edges.map_values(
                |e: JsonSpec|
                    spec_gql_variant_of(
                        match spec_get(e, "node"@) {
                            Some(n) => n,
                            None => JsonSpec::Null,
                        },
                    ),
            ),
            _ => Seq::empty(),
        },
        _ => Seq::empty(),
    }
}

fn parse_gql_variants(node: &JsonValue) -> (r: Vec<ProductVariant>)
    ensures
        r@.map_values(|v: ProductVariant| v@) == spec_gql_variants_of(node@),
{
    let mut out: Vec<ProductVariant> = Vec::new();
    let edges = match node.get("variants") {
        Some(vv) => match vv.get("edges") {
            Some(ev) => match ev.as_array() {
                Some(edges) => Some(edges),
                None => None,
            },
            None => None,
        },
        None => None,
    };
    match edges {
        None => {
            proof {
                assert(out@.map_values(|v: ProductVariant| v@) =~= spec_gql_variants_of(node@));
            }
            out
        },
        Some(edges) => {
            let ghost eviews = edges@.map_values(|x: JsonValue| x@);
            let ghost f = |e: JsonSpec|
                spec_gql_variant_of(
                    match spec_get(e, "node"@) {
                        Some(n) => n,
                        None => JsonSpec::Null,
                    },
                );
            let mut i: usize = 0;
            while i < edges.len()
                invariant
                    i <= edges@.len(),
                    eviews == edges@.map_values(|x: JsonValue| x@),
                    eviews.len() == edges@.len(),
                    f == (|e: JsonSpec|
                        spec_gql_variant_of(
                            match spec_get(e, "node"@) {
                                Some(n) => n,
                                None => JsonSpec::Null,
                            },
                        )),
                    out@.map_values(|v: ProductVariant| v@) =~= eviews.take(i as int).map_values(
                        f,
                    ),
                decreases edges@.len() - i,
            {
                let pv = match edges[i].get("node") {
                    Some(n) => parse_gql_variant(n),
                    None => {
                        let null_node = JsonValue::Null;
                        parse_gql_variant(&null_node)
                    },
                };
                let ghost prev = out@.map_values(|v: ProductVariant| v@);
                proof {
                    assert(pv@ == f(eviews[i as int]));
                }
                out.push(pv);
                proof {
                    assert(out@.map_values(|v: ProductVariant| v@) =~= prev.push(
                        f(eviews[i as int]),
                    ));
                    assert(eviews.take(i + 1 as int).map_values(f) =~= eviews.take(
                        i as int,
                    ).map_values(f).push(f(eviews[i as int])));
                    assert(out@.map_values(|v: ProductVariant| v@) =~= eviews.take(
                        i + 1 as int,
                    ).map_values(f));
                }
                i += 1;
            }
            proof {
                assert(eviews.take(edges@.len() as int) =~= eviews);
                assert(spec_gql_variants_of(node@) == eviews.map_values(f));
            }
            out
        },
    }
}

/// The image addresses of a GraphQL product: each edge's `node.src`,
/// defaulted to empty when missing.
pub open spec fn spec_gql_images_of(node: JsonSpec) -> Seq<Seq<char>> {
    match spec_get(node, "images"@) {
        Some(iv) => match spec_get(iv, "edges"@) {
            Some(JsonSpec::Array(edges)) => edges.map_values(
                |e: JsonSpec|
                    match spec_get(e, "node"@) {
                        Some(n) => spec_str_or(n, "src"@, ""@),
                        None => ""@,
                    },
            ),
            _ => Seq::empty(),
        },
        _ => Seq::empty(),
    }
}

fn parse_gql_images(node: &JsonValue) -> (r: Vec<String>)
    ensures
        r@.map_values(|s: String| s@) == spec_gql_images_of(node@),
{
    let mut out: Vec<String> = Vec::new();
    let edges = match node.get("images") {
        Some(iv) => match iv.get("edges") {
            Some(ev) => match ev.as_array() {
                Some(edges) => Some(edges),
                None => None,
            },
            None => None,
        },
        None => None,
    };
    match edges {
        None => {
            proof {
                assert(out@.map_values(|s: String| s@) =~= spec_gql_images_of(node@));
            }
            out
        },
        Some(edges) => {
            let ghost eviews = edges@.map_values(|x: JsonValue| x@);
            let ghost f = |e: JsonSpec|
                match spec_get(e, "node"@) {
                    Some(n) => spec_str_or(n, "src"@, ""@),
                    None => ""@,
                };
            let mut i: usize = 0;
            while i < edges.len()
                invariant
                    i <= edges@.len(),
                    eviews == edges@.map_values(|x: JsonValue| x@),
                    eviews.len() == edges@.len(),
                    f == (|e: JsonSpec|
                        match spec_get(e, "node"@) {
                            Some(n) => spec_str_or(n, "src"@, ""@),
                            None => ""@,
                        }),
                    out@.map_values(|s: String| s@) =~= eviews.take(i as int).map_values(f),
                decreases edges@.len() - i,
            {
                let src = match edges[i].get("node") {
                    Some(n) => get_str_or(n, "src", ""),
                    None => "",
                };
                let ghost prev = out@.map_values(|s: String| s@);
                proof {
                    assert(src@ == f(eviews[i as int]));
                }
                out.push(String::from_str(src));
                proof {
                    assert(out@.map_values(|s: String| s@) =~= prev.push(f(eviews[i as int])));
                    assert(eviews.take(i + 1 as int).map_values(f) =~= eviews.take(
                        i as int,
                    ).map_values(f).push(f(eviews[i as int])));
                    assert(out@.map_values(|s: String| s@) =~= eviews.take(i + 1 as int).map_values(
                        f,
                    ));
                }
                i += 1;
            }
            proof {
                assert(eviews.take(edges@.len() as int) =~= eviews);
                assert(spec_gql_images_of(node@) == eviews.map_values(f));
            }
            out
        },
    }
}

/// A GraphQL product node carries the two required text fields.
pub open spec fn spec_gql_product_wf(node: JsonSpec) -> bool {
    &&& spec_get(node, "id"@) matches Some(JsonSpec::Str(_))
    &&& spec_get(node, "title"@) matches Some(JsonSpec::Str(_))
}

/// The product a GraphQL node denotes, with the description kept as
/// the raw HTML the node carries.
pub open spec fn spec_gql_product_of(node: JsonSpec) -> ProductView {
    let variants = spec_gql_variants_of(node);
    ProductView {
        id: spec_gid_tail(spec_str_or(node, "id"@, ""@)),
        title: spec_str_or(node, "title"@, ""@),
        handle: spec_str_or(node, "handle"@, ""@),
        price: spec_gql_price_of(node),
        description: spec_str_or(node, "descriptionHtml"@, ""@),
        images: spec_gql_images_of(node),
        variants,
        total_inventory: spec_clamp_i32(spec_total_inventory(variants)),
        locations: Seq::empty(),
    }
}

/// The minimum variant price a GraphQL node advertises.
pub open spec fn spec_gql_price_of(node: JsonSpec) -> Seq<char> {
    match spec_get(node, "priceRangeV2"@) {
        Some(pr) => match spec_get(pr, "minVariantPrice"@) {
            Some(mv) => spec_str_or(mv, "amount"@, "0.00"@),
            None => "0.00"@,
        },
        None => "0.00"@,
    }
}

fn parse_gql_price(node: &JsonValue) -> (r: String)
    ensures
        r@ == spec_gql_price_of(node@),
{
    match node.get("priceRangeV2") {
        Some(pr) => match pr.get("minVariantPrice") {
            Some(mv) => String::from_str(get_str_or(mv, "amount", "0.00")),
            None => String::from_str("0.00"),
        },
        None => String::from_str("0.00"),
    }
}

/// Converts one GraphQL product node into a [`Product`]. Fails exactly
/// when the node lacks its identifier or title.
pub fn convert_graphql_product_to_product(product_node: &JsonValue) -> (r: Result<Product, String>)
    ensures
        r is Ok <==> spec_gql_product_wf(product_node@),
        r matches Ok(p) ==> p@ == spec_gql_product_of(product_node@),
{
    let gid = match product_node.get("id") {
        Some(f) => match f.as_str() {
            Some(s) => s,
            None => {
                return Err(String::from_str("Product ID missing"));
            },
        },
        None => {
            return Err(String::from_str("Product ID missing"));
        },
    };
    let title = match product_node.get("title") {
        Some(f) => match f.as_str() {
            Some(s) => String::from_str(s),
            None => {
                return Err(String::from_str("Product title missing"));
            },
        },
        None => {
            return Err(String::from_str("Product title missing"));
        },
    };
    let variants = parse_gql_variants(product_node);
    let total_inventory = sum_variant_quantities(&variants);
    let p = Product {
        id: suffix_after_last_char(gid, '/'),
        title,
        handle: String::from_str(get_str_or(product_node, "handle", "")),
        price: parse_gql_price(product_node),
        description: String::from_str(get_str_or(product_node, "descriptionHtml", "")),
        images: parse_gql_images(product_node),
        variants,
        total_inventory,
        locations: Vec::new(),
    };
    proof {
        assert(p@ =~~= spec_gql_product_of(product_node@));
    }
    Ok(p)
}

/// The product edges of a GraphQL search response.
pub open spec fn spec_gql_edges_of(response: JsonSpec) -> Option<Seq<JsonSpec>> {
    match spec_get(response, "data"@) {
        Some(d) => match spec_get(d, "products"@) {
            Some(p) => match spec_get(p, "edges"@) {
                Some(JsonSpec::Array(edges)) => Some(edges),
                _ => None,
            },
            _ => None,
        },
        _ => None,
    }
}

/// A search response parses: the edge list is present and every edge's
/// node carries its identifier and title.
pub open spec fn spec_gql_response_wf(response: JsonSpec) -> bool {
    match spec_gql_edges_of(response) {
        Some(edges) => forall|i: int|
            0 <= i < edges.len() ==> spec_gql_product_wf(
                match spec_get(#[trigger] edges[i], "node"@) {
                    Some(n) => n,
                    None => JsonSpec::Null,
                },
            ),
        None => false,
    }
}

/// The products a well-formed search response yields, in edge order.
pub open spec fn spec_gql_response_products(response: JsonSpec) -> Seq<ProductView> {
    spec_gql_edges_of(response)->0.map_values(
        |e: JsonSpec|
            spec_gql_product_of(
                match spec_get(e, "node"@) {
                    Some(n) => n,
                    None => JsonSpec::Null,
                },
            ),
    )
}

/// Parses a whole GraphQL product-search response. Fails when the edge
/// list is absent or any node is missing its identifier or title.
pub fn parse_graphql_products_response(response: &JsonValue) -> (r: Result<Vec<Product>, String>)
    ensures
        r is Ok <==> spec_gql_response_wf(response@),
        r matches Ok(ps) ==> ps@.map_values(|p: Product| p@) == spec_gql_response_products(
            response@,
        ),
{
    let edges = match response.get("data") {
        Some(d) => match d.get("products") {
            Some(p) => match p.get("edges") {
                Some(ev) => match ev.as_array() {
                    Some(edges) => edges,
                    None => {
                        return Err(String::from_str("No products found in GraphQL response"));
                    },
                },
                None => {
                    return Err(String::from_str("No products found in GraphQL response"));
                },
            },
            None => {
                return Err(String::from_str("No products found in GraphQL response"));
            },
        },
        None => {
            return Err(String::from_str("No products found in GraphQL response"));
        },
    };
    let ghost eviews = edges@.map_values(|x: JsonValue| x@);
    proof {
        assert(spec_gql_edges_of(response@) == Some(eviews));
    }
    let ghost f = |e: JsonSpec|
        spec_gql_product_of(
            match spec_get(e, "node"@) {
                Some(n) => n,
                None => JsonSpec::Null,
            },
        );
    let mut out: Vec<Product> = Vec::new();
    let mut i: usize = 0;
    while i < edges.len()
        invariant
            i <= edges@.len(),
            eviews == edges@.map_values(|x: JsonValue| x@),
            eviews.len() == edges@.len(),
            f == (|e: JsonSpec|
                spec_gql_product_of(
                    match spec_get(e, "node"@) {
                        Some(n) => n,
                        None => JsonSpec::Null,
                    },
                )),
            spec_gql_edges_of(response@) == Some(eviews),
            out@.map_values(|p: Product| p@) =~= eviews.take(i as int).map_values(f),
            forall|t: int|
                0 <= t < i ==> spec_gql_product_wf(
                    match spec_get(#[trigger] eviews[t], "node"@) {
                        Some(n) => n,
                        None => JsonSpec::Null,
                    },
                ),
        decreases edges@.len() - i,
    {
        let parsed = match edges[i].get("node") {
            Some(n) => convert_graphql_product_to_product(n),
            None => {
                let null_node = JsonValue::Null;
                convert_graphql_product_to_product(&null_node)
            },
        };
        match parsed {
            Ok(p) => {
                let ghost prev = out@.map_values(|q: Product| q@);
                proof {
                    assert(p@ == f(eviews[i as int]));
                }
                out.push(p);
                proof {
                    assert(out@.map_values(|q: Product| q@) =~= prev.push(f(eviews[i as int])));
                    assert(eviews.take(i + 1 as int).map_values(f) =~= eviews.take(
                        i as int,
                    ).map_values(f).push(f(eviews[i as int])));
                    assert(out@.map_values(|q: Product| q@) =~= eviews.take(
                        i + 1 as int,
                    ).map_values(f));
                }
            },
            Err(e) => {
                proof {
                    assert(!spec_gql_response_wf(response@));
                }
                return Err(e);
            },
        }
        i += 1;
    }
    proof {
        assert(eviews.take(edges@.len() as int) =~= eviews);
        assert(spec_gql_response_products(response@) == eviews.map_values(f));
    }
    Ok(out)
}

/// A variant carries the wanted SKU, up to ASCII letter case.
pub open spec fn spec_variant_sku_matches(v: VariantView, sku: Seq<char>) -> bool {
    v.sku matches Some(s) && spec_ascii_ic_eq(s, sku)
}

/// Some variant of the product carries the wanted SKU.
pub open spec fn spec_product_has_sku(p: ProductView, sku: Seq<char>) -> bool {
    exists|i: int| 0 <= i < p.variants.len() && spec_variant_sku_matches(#[trigger] p.variants[i], sku)
}

/// The first variant of the product carrying the wanted SKU, or the
/// variant count when none does.
pub open spec fn spec_first_sku_variant(vs: Seq<VariantView>, sku: Seq<char>, i: int) -> int
    decreases vs.len() - i,
    when 0 <= i <= vs.len()
{
    if i >= vs.len() {
        vs.len() as int
    } else if spec_variant_sku_matches(vs[i], sku) {
        i
    } else {
        spec_first_sku_variant(vs, sku, i + 1)
    }
}

fn first_sku_variant(p: &Product, sku: &str) -> (r: Option<usize>)
    ensures
        match r {
            Some(k) => k == spec_first_sku_variant(p@.variants, sku@, 0) && k < p@.variants.len()
                && spec_variant_sku_matches(p@.variants[k as int], sku@),
            None => !spec_product_has_sku(p@, sku@),
        },
{
    let mut k: usize = 0;
    while k < p.variants.len()
        invariant
            k <= p@.variants.len(),
            p@.variants.len() == p.variants@.len(),
            forall|j: int| 0 <= j < k ==> !spec_variant_sku_matches(#[trigger] p@.variants[j], sku@),
            spec_first_sku_variant(p@.variants, sku@, 0) == spec_first_sku_variant(
                p@.variants,
                sku@,
                k as int,
            ),
        decreases p.variants@.len() - k,
    {
        let matched = match &p.variants[k].sku {
            Some(s) => str_eq_ignore_ascii_case(s.as_str(), sku),
            None => false,
        };
        proof {
            assert(matched == spec_variant_sku_matches(p@.variants[k as int], sku@));
        }
        if matched {
            return Some(k);
        }
        k += 1;
    }
    None
}

/// Whether any variant of the product carries the wanted SKU, up to
/// ASCII letter case.
pub fn product_has_matching_sku(p: &Product, sku: &str) -> (r: bool)
    ensures
        r == spec_product_has_sku(p@, sku@),
{
    match first_sku_variant(p, sku) {
        Some(_) => true,
        None => false,
    }
}

/// Keeps the products that carry the wanted SKU on some variant.
pub fn filter_products_with_sku(products: Vec<Product>, sku: &str) -> (r: Vec<Product>)
    ensures
        r@.map_values(|p: Product| p@) == products@.map_values(|p: Product| p@).filter(
            |p: ProductView| spec_product_has_sku(p, sku@),
        ),
{
    broadcast use vstd::seq_lib::group_filter_ensures;

    let ghost pviews = products@.map_values(|p: Product| p@);
    let ghost f = |p: ProductView| spec_product_has_sku(p, sku@);
    let mut input = products;
    let mut out: Vec<Product> = Vec::new();
    let ghost mut i: int = 0;
    proof {
        reveal(Seq::filter);
        assert(pviews.skip(0) =~= pviews);
        assert(input@.map_values(|p: Product| p@) =~= pviews.skip(0));
    }
    while input.len() > 0
        invariant
            0 <= i,
            pviews.len() == i + input@.len(),
            f == (|p: ProductView| spec_product_has_sku(p, sku@)),
            input@.map_values(|p: Product| p@) =~= pviews.skip(i),
            out@.map_values(|p: Product| p@) =~= pviews.take(i).filter(f),
        decreases input@.len(),
    {
        proof {
            reveal(Seq::filter);
            assert(pviews.take(i + 1).drop_last() =~= pviews.take(i));
            assert(pviews.take(i + 1).last() == pviews[i]);
        }
        let ghost in_before = input@;
        let p = input.remove(0);
        proof {
            assert(p == in_before[0]);
            assert(in_before.map_values(|q: Product| q@) =~= pviews.skip(i));
            assert(p@ == pviews.skip(i)[0]);
            assert(p@ == pviews[i]);
            assert(input@ =~= in_before.drop_first());
            assert(input@.map_values(|q: Product| q@) =~= in_before.map_values(
                |q: Product| q@,
            ).drop_first());
            assert(pviews.skip(i).drop_first() =~= pviews.skip(i + 1));
            assert(input@.map_values(|q: Product| q@) =~= pviews.skip(i + 1));
        }
        if product_has_matching_sku(&p, sku) {
            out.push(p);
            proof {
                assert(out@.map_values(|q: Product| q@) =~= pviews.take(i + 1).filter(f));
            }
        } else {
            proof {
                assert(!f(pviews[i]));
            }
        }
        proof {
            i = i + 1;
        }
    }
    proof {
        assert(pviews.take(i) =~= pviews);
    }
    out
}

/// The first product whose variants carry the wanted SKU, or the
/// product count when none does.
pub open spec fn spec_first_sku_product(ps: Seq<ProductView>, sku: Seq<char>, i: int) -> int
    decreases ps.len() - i,
    when 0 <= i <= ps.len()
{
    if i >= ps.len() {
        ps.len() as int
    } else if spec_product_has_sku(ps[i], sku) {
        i
    } else {
        spec_first_sku_product(ps, sku, i + 1)
    }
}

/// Finds the first product with an exact (case-insensitive) SKU match
/// and hands it back with the matching variant's inventory item
/// identifier.
#[verifier::loop_isolation(false)]
pub fn find_exact_sku_match(products: Vec<Product>, sku: &str) -> (r: Option<(Product, String)>)
    ensures
        ({
            let ps = products@.map_values(|p: Product| p@);
            let first = spec_first_sku_product(ps, sku@, 0);
            match r {
                Some((p, iid)) => first < ps.len() && p@ == ps[first] && iid@ == ps[first].variants[
                    spec_first_sku_variant(ps[first].variants, sku@, 0)
                ].inventory_item_id,
                None => first == ps.len(),
            }
        }),
{
    let ghost pviews = products@.map_values(|p: Product| p@);
    let mut input = products;
    let ghost mut i: int = 0;
    proof {
        assert(pviews.skip(0) =~= pviews);
        assert(input@.map_values(|p: Product| p@) =~= pviews.skip(0));
    }
    while input.len() > 0
        invariant
            0 <= i,
            pviews.len() == i + input@.len(),
            input@.map_values(|p: Product| p@) =~= pviews.skip(i),
            spec_first_sku_product(pviews, sku@, 0) == spec_first_sku_product(pviews, sku@, i),
        decreases input@.len(),
    {
        let ghost in_before = input@;
        let p = input.remove(0);
        proof {
            assert(p == in_before[0]);
            assert(in_before.map_values(|q: Product| q@) =~= pviews.skip(i));
            assert(p@ == pviews.skip(i)[0]);
            assert(p@ == pviews[i]);
            assert(input@ =~= in_before.drop_first());
            assert(input@.map_values(|q: Product| q@) =~= in_before.map_values(
                |q: Product| q@,
            ).drop_first());
            assert(pviews.skip(i).drop_first() =~= pviews.skip(i + 1));
            assert(input@.map_values(|q: Product| q@) =~= pviews.skip(i + 1));
        }
        match first_sku_variant(&p, sku) {
            Some(k) => {
                let iid = p.variants[k].inventory_item_id.clone();
                proof {
                    assert(pviews == products@.map_values(|p: Product| p@));
                    assert(spec_product_has_sku(pviews[i], sku@));
                    assert(spec_first_sku_product(pviews, sku@, i) == i);
                    assert(i == spec_first_sku_product(pviews, sku@, 0));
                    assert(i < pviews.len());
                    assert(p@ == pviews[i]);
                    assert(p.variants@.map_values(|v: ProductVariant| v@) == p@.variants);
                    assert(p@.variants[k as int] == p.variants@[k as int]@);
                    assert(iid@ == p@.variants[k as int].inventory_item_id);
                    assert(k as int == spec_first_sku_variant(pviews[i].variants, sku@, 0));
                    assert(iid@ == pviews[i].variants[spec_first_sku_variant(
                        pviews[i].variants,
                        sku@,
                        0,
                    )].inventory_item_id);
                }
                return Some((p, iid));
            },
            None => {
                proof {
                    assert(!spec_product_has_sku(pviews[i], sku@));
                }
            },
        }
        proof {
            i = i + 1;
        }
    }
    proof {
        assert(spec_first_sku_product(pviews, sku@, i) == pviews.len());
    }
    None
}

/// First-occurrence deduplication by product identifier: a product is
/// kept when no earlier kept product carries its identifier.
pub open spec fn spec_dedup_by_id(ps: Seq<ProductView>, seen: Seq<Seq<char>>) -> Seq<ProductView>
    decreases ps.len(),
{
    if ps.len() == 0 {
        Seq::empty()
    } else if seen.contains(ps.first().id) {
        spec_dedup_by_id(ps.drop_first(), seen)
    } else {
        seq![ps.first()] + spec_dedup_by_id(ps.drop_first(), seen.push(ps.first().id))
    }
}

fn contains_string(v: &Vec<String>, x: &str) -> (r: bool)
    ensures
        r == v@.map_values(|s: String| s@).contains(x@),
{
    let ghost views = v@.map_values(|s: String| s@);
    let mut i: usize = 0;
    while i < v.len()
        invariant
            i <= v@.len(),
            views == v@.map_values(|s: String| s@),
            views.len() == v@.len(),
            forall|j: int| 0 <= j < i ==> (#[trigger] views[j]) != x@,
        decreases v@.len() - i,
    {
        if crate::text::str_eq(v[i].as_str(), x) {
            proof {
                assert(views[i as int] == x@);
            }
            return true;
        }
        i += 1;
    }
    proof {
        if views.contains(x@) {
            let w = choose|w: int| 0 <= w < views.len() && views[w] == x@;
            assert(false);
        }
    }
    false
}

/// Drops every product whose identifier was already produced by an
/// earlier entry, keeping first occurrences in order. This is the
/// merge step of the combined search, which concatenates the phase
/// results before weeding out repeats.
pub fn dedup_products_by_id(products: Vec<Product>) -> (r: Vec<Product>)
    ensures
        r@.map_values(|p: Product| p@) == spec_dedup_by_id(
            products@.map_values(|p: Product| p@),
            Seq::<Seq<char>>::empty(),
        ),
{
    let ghost pviews = products@.map_values(|p: Product| p@);
    let mut input = products;
    let mut out: Vec<Product> = Vec::new();
    let mut seen: Vec<String> = Vec::new();
    let ghost mut i: int = 0;
    proof {
        assert(pviews.skip(0) =~= pviews);
        assert(input@.map_values(|p: Product| p@) =~= pviews.skip(0));
        assert(out@.map_values(|p: Product| p@) =~= Seq::<ProductView>::empty());
        assert(seen@.map_values(|s: String| s@) =~= Seq::<Seq<char>>::empty());
        assert(Seq::<ProductView>::empty() + spec_dedup_by_id(pviews, Seq::<Seq<char>>::empty())
            =~= spec_dedup_by_id(pviews, Seq::<Seq<char>>::empty()));
    }
    while input.len() > 0
        invariant
            0 <= i,
            pviews.len() == i + input@.len(),
            input@.map_values(|p: Product| p@) =~= pviews.skip(i),
            spec_dedup_by_id(pviews, Seq::<Seq<char>>::empty()) == out@.map_values(
                |p: Product| p@,
            ) + spec_dedup_by_id(pviews.skip(i), seen@.map_values(|s: String| s@)),
        decreases input@.len(),
    {
        proof {
            let tail = pviews.skip(i);
            assert(tail.first() == pviews[i]);
            assert(tail.drop_first() =~= pviews.skip(i + 1));
        }
        let ghost in_before = input@;
        let p = input.remove(0);
        proof {
            assert(p == in_before[0]);
            assert(in_before.map_values(|q: Product| q@) =~= pviews.skip(i));
            assert(p@ == pviews.skip(i)[0]);
            assert(p@ == pviews[i]);
            assert(input@ =~= in_before.drop_first());
            assert(input@.map_values(|q: Product| q@) =~= in_before.map_values(
                |q: Product| q@,
            ).drop_first());
            assert(pviews.skip(i).drop_first() =~= pviews.skip(i + 1));
            assert(input@.map_values(|q: Product| q@) =~= pviews.skip(i + 1));
        }
        if contains_string(&seen, p.id.as_str()) {
            proof {
                assert(spec_dedup_by_id(pviews.skip(i), seen@.map_values(|s: String| s@))
                    == spec_dedup_by_id(pviews.skip(i + 1), seen@.map_values(|s: String| s@)));
            }
        } else {
            let ghost seen_before = seen@.map_values(|s: String| s@);
            let ghost out_before = out@.map_values(|q: Product| q@);
            seen.push(p.id.clone());
            out.push(p);
            proof {
                assert(seen@.map_values(|s: String| s@) =~= seen_before.push(pviews[i].id));
                assert(out@.map_values(|q: Product| q@) =~= out_before.push(pviews[i]));
                assert(spec_dedup_by_id(pviews.skip(i), seen_before) =~= seq![pviews[i]]
                    + spec_dedup_by_id(pviews.skip(i + 1), seen_before.push(pviews[i].id)));
                assert(out@.map_values(|q: Product| q@) + spec_dedup_by_id(
                    pviews.skip(i + 1),
                    seen@.map_values(|s: String| s@),
                ) =~= out_before + (seq![pviews[i]] + spec_dedup_by_id(
                    pviews.skip(i + 1),
                    seen_before.push(pviews[i].id),
                )));
            }
        }
        proof {
            i = i + 1;
        }
    }
    proof {
        assert(pviews.skip(i) =~= Seq::<ProductView>::empty());
        assert(spec_dedup_by_id(pviews, Seq::<Seq<char>>::empty()) =~= out@.map_values(
            |p: Product| p@,
        ));
    }
    out
}

/// Whether the combined search should first try an exact SKU match:
/// the trimmed query must be longer than a typical word, as SKUs are.
pub fn should_try_exact_sku(query: &str) -> (r: bool)
    ensures
        r == ((vstd::utf8::encode_utf8(trim_of(query@)).len() as usize) > 5),
{
    let trimmed = str_trim(query);
    let ts = trimmed.as_str();
    proof {
        assert(ts.spec_bytes() == vstd::utf8::encode_utf8(trim_of(query@)));
    }
    ts.len() > 5
}

/// Whether the combined search should add the partial-SKU phase: only
/// while the result list is still short.
pub fn wants_more_results(result_count: usize) -> (r: bool)
    ensures
        r == (result_count < 10),
{
    result_count < 10
}

/// The title-search path of the REST catalog endpoint, with the query
/// percent-encoded.
pub fn build_title_search_path(query: &str) -> (r: String)
    ensures
        r@ == "products.json?title="@ + url_encoded_of(query@) + "&limit=250"@,
{
    let mut s = String::from_str("products.json?title=");
    let encoded = url_encode(query);
    s.append(encoded.as_str());
    s.append("&limit=250");
    s
}

/// The shared field selection of the product search queries.
pub open spec fn spec_gql_product_body() -> Seq<char> {
    " { edges { node { id title handle descriptionHtml updatedAt priceRangeV2 { minVariantPrice { amount } } images(first: 5) { edges { node { src } } } variants(first: 50) { edges { node { id title inventoryItem { id } inventoryQuantity price sku } } } } } } }"@
}

/// The SKU search query over active products.
pub open spec fn spec_sku_search_query(sku: Seq<char>, first: int) -> Seq<char> {
    "{ products(first: "@ + spec_u64_string(first) + ", query: \"sku:"@ + sku
        + " status:active\")"@ + spec_gql_product_body()
}

/// Builds the GraphQL SKU search query.
pub fn build_sku_search_query(sku: &str, first: u64) -> (r: String)
    ensures
        r@ == spec_sku_search_query(sku@, first as int),
{
    let mut s = String::from_str("{ products(first: ");
    let count = u64_to_string(first);
    s.append(count.as_str());
    s.append(", query: \"sku:");
    s.append(sku);
    s.append(" status:active\")");
    s.append(
        " { edges { node { id title handle descriptionHtml updatedAt priceRangeV2 { minVariantPrice { amount } } images(first: 5) { edges { node { src } } } variants(first: 50) { edges { node { id title inventoryItem { id } inventoryQuantity price sku } } } } } } }",
    );
    s
}

/// The title search query over active products, with the quote-escaped
/// name, a sort key, and a direction.
pub open spec fn spec_name_search_query(
    name: Seq<char>,
    sort_key: Seq<char>,
    sort_reverse: bool,
) -> Seq<char> {
    "{ products(first: 40, query: \"title:"@ + replace_of(name, "\""@, "\\\""@)
        + "* status:active\", sortKey: "@ + sort_key + ", reverse: "@ + crate::text::spec_bool_str(
        sort_reverse,
    ) + ")"@ + spec_gql_product_body()
}

/// Builds the GraphQL title search query; the sort key defaults to
/// relevance and the direction to forward.
pub fn build_name_search_query(
    name: &str,
    sort_key: &Option<String>,
    sort_reverse: &Option<bool>,
) -> (r: String)
    ensures
        r@ == spec_name_search_query(
            name@,
            match sort_key {
                Some(k) => k@,
                None => "RELEVANCE"@,
            },
            match sort_reverse {
                Some(b) => *b,
                None => false,
            },
        ),
{
    let mut s = String::from_str("{ products(first: 40, query: \"title:");
    let escaped = str_replace(name, "\"", "\\\"");
    s.append(escaped.as_str());
    s.append("* status:active\", sortKey: ");
    match sort_key {
        Some(k) => s.append(k.as_str()),
        None => s.append("RELEVANCE"),
    }
    s.append(", reverse: ");
    match sort_reverse {
        Some(b) => s.append(crate::text::bool_str(*b)),
        None => s.append("false"),
    }
    s.append(")");
    s.append(
        " { edges { node { id title handle descriptionHtml updatedAt priceRangeV2 { minVariantPrice { amount } } images(first: 5) { edges { node { src } } } variants(first: 50) { edges { node { id title inventoryItem { id } inventoryQuantity price sku } } } } } } }",
    );
    proof {
        reveal_strlit("false");
    }
    s
}

} // verus!
