//! Catalog scan: find active products whose every variant is out of
//! stock, mark the protected ones, drive the sequential draft-status
//! update, and aggregate the summary report.

use vstd::prelude::*;

use crate::text::{spec_u64_string, u64_to_string};

verus! {

broadcast use vstd::seq_lib::group_filter_ensures;

/// Visibility state of a catalog product: a closed set of states in
/// place of the free-form strings the wire format carries.
#[derive(Debug, Clone, Copy, PartialEq, Eq, Structural)]
pub enum ProductStatus {
    Active,
    Draft,
    Archived,
}

impl ProductStatus {
    /// The wire text of this status.
    pub open spec fn spec_text(self) -> Seq<char> {
        match self {
            ProductStatus::Active => "active"@,
            ProductStatus::Draft => "draft"@,
            ProductStatus::Archived => "archived"@,
        }
    }

    /// Renders the status as its wire text.
    pub fn as_text(&self) -> (r: &'static str)
        ensures
            r@ == self.spec_text(),
    {
        match self {
            ProductStatus::Active => "active",
            ProductStatus::Draft => "draft",
            ProductStatus::Archived => "archived",
        }
    }

    /// The status a wire text denotes, if any.
    pub open spec fn spec_parse(s: Seq<char>) -> Option<ProductStatus> {
        if s == "active"@ {
            Some(ProductStatus::Active)
        } else if s == "draft"@ {
            Some(ProductStatus::Draft)
        } else if s == "archived"@ {
            Some(ProductStatus::Archived)
        } else {
            None
        }
    }

    /// Parses a wire status text.
    pub fn parse_text(s: &str) -> (r: Option<ProductStatus>)
        ensures
            r == ProductStatus::spec_parse(s@),
    {
        if crate::text::str_eq(s, "active") {
            Some(ProductStatus::Active)
        } else if crate::text::str_eq(s, "draft") {
            Some(ProductStatus::Draft)
        } else if crate::text::str_eq(s, "archived") {
            Some(ProductStatus::Archived)
        } else {
            proof {
                reveal_strlit("active");
                reveal_strlit("draft");
                reveal_strlit("archived");
            }
            None
        }
    }
}

/// One variant row of the paginated listing: only the stock snapshot is
/// carried.
#[derive(Debug, Clone)]
pub struct ShopifyVariant {
    pub inventory_quantity: i32,
}

/// One product row of the paginated listing endpoint.
#[derive(Debug, Clone)]
pub struct ShopifyProduct {
    pub id: u64,
    pub title: String,
    pub status: ProductStatus,
    pub variants: Vec<ShopifyVariant>,
}

/// Mathematical image of a [`ShopifyProduct`].
#[verifier::ext_equal]
pub ghost struct ShopifyProductView {
    pub id: u64,
    pub title: Seq<char>,
    pub status: ProductStatus,
    pub variants: Seq<i32>,
}

impl View for ShopifyProduct {
    type V = ShopifyProductView;

    open spec fn view(&self) -> ShopifyProductView {
        ShopifyProductView {
            id: self.id,
            title: self.title@,
            status: self.status,
            variants: self.variants@.map_values(|v: ShopifyVariant| v.inventory_quantity),
        }
    }
}

/// An active product whose every variant reports no stock, tagged with
/// whether it belongs to the protected set.
#[derive(Debug, Clone)]
pub struct ProductNoStock {
    pub id: String,
    pub title: String,
    pub status: ProductStatus,
    pub is_excluded: bool,
}

/// Mathematical image of a [`ProductNoStock`].
#[verifier::ext_equal]
pub ghost struct CandidateView {
    pub id: Seq<char>,
    pub title: Seq<char>,
    pub status: ProductStatus,
    pub is_excluded: bool,
}

impl View for ProductNoStock {
    type V = CandidateView;

    open spec fn view(&self) -> CandidateView {
        CandidateView {
            id: self.id@,
            title: self.title@,
            status: self.status,
            is_excluded: self.is_excluded,
        }
    }
}

/// Result of one attempted draft-status update.
#[derive(Debug, Clone)]
pub struct UpdateResult {
    pub product_id: String,
    pub title: String,
    pub success: bool,
    pub error: Option<String>,
}

/// Mathematical image of an [`UpdateResult`].
#[verifier::ext_equal]
pub ghost struct UpdateResultView {
    pub product_id: Seq<char>,
    pub title: Seq<char>,
    pub success: bool,
    pub error: Option<Seq<char>>,
}

impl View for UpdateResult {
    type V = UpdateResultView;

    open spec fn view(&self) -> UpdateResultView {
        UpdateResultView {
            product_id: self.product_id@,
            title: self.title@,
            success: self.success,
            error: match self.error {
                Some(ref e) => Some(e@),
                None => None,
            },
        }
    }
}

/// Aggregated counters of one scan-and-update run.
#[derive(Debug, Clone)]
pub struct UpdateSummary {
    pub total_found: usize,
    pub excluded_count: usize,
    pub eligible_count: usize,
    pub successful_updates: usize,
    pub failed_updates: usize,
}

/// Everything one run produces: candidates, per-item outcomes, summary.
#[derive(Debug)]
pub struct StockUpdateResult {
    pub products_found: Vec<ProductNoStock>,
    pub update_results: Vec<UpdateResult>,
    pub summary: UpdateSummary,
}

/// Identifiers of products that must never be demoted automatically.
pub fn excluded_product_ids() -> (r: Vec<u64>)
    ensures
        r@ =~= seq![3587363962985u64],
{
    let mut v: Vec<u64> = Vec::new();
    v.push(3587363962985u64);
    v
}

/// A product has stock when some variant reports a positive quantity.
pub open spec fn spec_has_stock(p: ShopifyProductView) -> bool {
    exists|i: int| 0 <= i < p.variants.len() && p.variants[i] > 0
}

/// The filter predicate: active, and no variant has stock. A product
/// with no variants at all counts as out of stock.
pub open spec fn spec_is_no_stock_active(p: ShopifyProductView) -> bool {
    p.status == ProductStatus::Active && !spec_has_stock(p)
}

/// The candidate derived from a qualifying product.
pub open spec fn spec_candidate_of(p: ShopifyProductView, excluded: Seq<u64>) -> CandidateView {
    CandidateView {
        id: spec_u64_string(p.id as int),
        title: p.title,
        status: p.status,
        is_excluded: excluded.contains(p.id),
    }
}

/// The full candidate list: qualifying products, in catalog order, each
/// turned into its candidate.
pub open spec fn spec_no_stock_candidates(ps: Seq<ShopifyProductView>, excluded: Seq<u64>) -> Seq<
    CandidateView,
> {
    ps.filter_map(
        |p: ShopifyProductView|
            if spec_is_no_stock_active(p) {
                Some(spec_candidate_of(p, excluded))
            } else {
                None
            },
    )
}

fn contains_u64(v: &Vec<u64>, x: u64) -> (r: bool)
    ensures
        r == v@.contains(x),
{
    let mut i: usize = 0;
    while i < v.len()
        invariant
            i <= v@.len(),
            forall|j: int| 0 <= j < i ==> v@[j] != x,
        decreases v@.len() - i,
    {
        if v[i] == x {
            return true;
        }
        i += 1;
    }
    false
}

fn product_has_stock(p: &ShopifyProduct) -> (r: bool)
    ensures
        r == spec_has_stock(p@),
{
    let mut k: usize = 0;
    while k < p.variants.len()
        invariant
            k <= p.variants@.len(),
            forall|j: int| 0 <= j < k ==> p.variants@[j].inventory_quantity <= 0,
        decreases p.variants@.len() - k,
    {
        if p.variants[k].inventory_quantity > 0 {
            assert(p@.variants[k as int] > 0);
            return true;
        }
        k += 1;
    }
    assert(forall|i: int| 0 <= i < p@.variants.len() ==> p@.variants[i] <= 0);
    false
}

/// Selects the active products with no stock anywhere and tags each
/// with its membership in the protected set.
pub fn find_products_with_no_stock(products: Vec<ShopifyProduct>, excluded_ids: &Vec<u64>) -> (r:
    Vec<ProductNoStock>)
    ensures
        r@.map_values(|c: ProductNoStock| c@) == spec_no_stock_candidates(
            products@.map_values(|p: ShopifyProduct| p@),
            excluded_ids@,
        ),
{
    let ghost pviews = products@.map_values(|p: ShopifyProduct| p@);
    let mut result: Vec<ProductNoStock> = Vec::new();
    let mut i: usize = 0;
    while i < products.len()
        invariant
            i <= products@.len(),
            pviews == products@.map_values(|p: ShopifyProduct| p@),
            result@.map_values(|c: ProductNoStock| c@) == spec_no_stock_candidates(
                pviews.take(i as int),
                excluded_ids@,
            ),
        decreases products@.len() - i,
    {
        let p = &products[i];
        let mut pushed = false;
        if matches!(p.status, ProductStatus::Active) {
            if !product_has_stock(p) {
                let is_excluded = contains_u64(excluded_ids, p.id);
                result.push(
                    ProductNoStock {
                        id: u64_to_string(p.id),
                        title: p.title.clone(),
                        status: p.status,
                        is_excluded,
                    },
                );
                pushed = true;
            }
        }
        proof {
            let f = |p: ShopifyProductView|
                if spec_is_no_stock_active(p) {
                    Some(spec_candidate_of(p, excluded_ids@))
                } else {
                    None
                };
            let prefix = pviews.take(i as int);
            let next = pviews.take(i + 1 as int);
            assert(next.drop_last() =~= prefix);
            assert(next.last() == pviews[i as int]);
            assert(pviews[i as int] == products@[i as int]@);
            if pushed {
                assert(result@.map_values(|c: ProductNoStock| c@) =~= prefix.filter_map(f)
                    + seq![spec_candidate_of(pviews[i as int], excluded_ids@)]);
                assert(next.filter_map(f) == prefix.filter_map(f)
                    + seq![spec_candidate_of(pviews[i as int], excluded_ids@)]);
            } else {
                assert(!spec_is_no_stock_active(pviews[i as int]));
                assert(next.filter_map(f) == prefix.filter_map(f));
            }
        }
        i += 1;
    }
    proof {
        assert(pviews.take(products@.len() as int) =~= pviews);
    }
    result
}

/// Law: soundness of the stock filter. Every row of the candidate list
/// comes from a catalog product that is active and whose every variant
/// reports a quantity of at most zero, and carries that product's data.
pub proof fn lemma_stock_filter_sound(ps: Seq<ShopifyProductView>, excluded: Seq<u64>, j: int)
    requires
        0 <= j < spec_no_stock_candidates(ps, excluded).len(),
    ensures
        spec_no_stock_candidates(ps, excluded)[j].status == ProductStatus::Active,
        exists|i: int|
            0 <= i < ps.len() && ps[i].status == ProductStatus::Active && (forall|k: int|
                0 <= k < ps[i].variants.len() ==> ps[i].variants[k] <= 0)
                && spec_no_stock_candidates(ps, excluded)[j] == spec_candidate_of(ps[i], excluded),
    decreases ps.len(),
{
    let f = |p: ShopifyProductView|
        if spec_is_no_stock_active(p) {
            Some(spec_candidate_of(p, excluded))
        } else {
            None
        };
    let out = ps.filter_map(f);
    if ps.len() == 0 {
        assert(false);
    } else {
        let rest = ps.drop_last();
        if j < rest.filter_map(f).len() {
            lemma_stock_filter_sound(rest, excluded, j);
            let i = choose|i: int|
                0 <= i < rest.len() && rest[i].status == ProductStatus::Active && (forall|k: int|
                    0 <= k < rest[i].variants.len() ==> rest[i].variants[k] <= 0)
                    && rest.filter_map(f)[j] == spec_candidate_of(rest[i], excluded);
            assert(ps[i] == rest[i]);
            assert(out[j] == rest.filter_map(f)[j]);
        } else {
            assert(spec_is_no_stock_active(ps.last()));
            assert(out[j] == spec_candidate_of(ps.last(), excluded));
            let i = ps.len() - 1;
            assert(ps[i] == ps.last());
            assert(forall|k: int| 0 <= k < ps[i].variants.len() ==> ps[i].variants[k] <= 0);
        }
    }
}

/// Law: a candidate is excluded exactly when its product identifier is
/// in the protected set, independent of the product's title and status.
pub proof fn lemma_excluded_iff_in_set(p: ShopifyProductView, q: ShopifyProductView, excluded: Seq<
    u64,
>)
    ensures
        spec_candidate_of(p, excluded).is_excluded == excluded.contains(p.id),
        p.id == q.id ==> spec_candidate_of(p, excluded).is_excluded == spec_candidate_of(
            q,
            excluded,
        ).is_excluded,
{
}

/// Count of protected candidates in a candidate list.
pub open spec fn spec_excluded_count(cs: Seq<CandidateView>) -> int {
    cs.filter(|c: CandidateView| c.is_excluded).len() as int
}

/// Count of outcome rows that report a clean success (no note attached).
pub open spec fn spec_successful_count(rs: Seq<UpdateResultView>) -> int {
    rs.filter(|r: UpdateResultView| r.success && r.error is None).len() as int
}

/// Count of outcome rows that report a failure.
pub open spec fn spec_failed_count(rs: Seq<UpdateResultView>) -> int {
    rs.filter(|r: UpdateResultView| !r.success).len() as int
}

fn count_excluded(products: &Vec<ProductNoStock>) -> (r: usize)
    ensures
        r == spec_excluded_count(products@.map_values(|c: ProductNoStock| c@)),
        r <= products@.len(),
{
    let ghost cs = products@.map_values(|c: ProductNoStock| c@);
    let f = |c: CandidateView| c.is_excluded;
    let mut count: usize = 0;
    let mut i: usize = 0;
    while i < products.len()
        invariant
            i <= products@.len(),
            cs == products@.map_values(|c: ProductNoStock| c@),
            count == cs.take(i as int).filter(|c: CandidateView| c.is_excluded).len(),
            count <= i,
        decreases products@.len() - i,
    {
        proof {
            let prefix = cs.take(i as int);
            let next = cs.take(i + 1 as int);
            assert(next.drop_last() =~= prefix);
            assert(next.last() == cs[i as int]);
            reveal(Seq::filter);
        }
        if products[i].is_excluded {
            count += 1;
        }
        i += 1;
    }
    proof {
        assert(cs.take(products@.len() as int) =~= cs);
    }
    count
}

fn count_successful(results: &Vec<UpdateResult>) -> (r: usize)
    ensures
        r == spec_successful_count(results@.map_values(|u: UpdateResult| u@)),
{
    let ghost rs = results@.map_values(|u: UpdateResult| u@);
    let mut count: usize = 0;
    let mut i: usize = 0;
    while i < results.len()
        invariant
            i <= results@.len(),
            rs == results@.map_values(|u: UpdateResult| u@),
            count == rs.take(i as int).filter(
                |r: UpdateResultView| r.success && r.error is None,
            ).len(),
            count <= i,
        decreases results@.len() - i,
    {
        proof {
            let prefix = rs.take(i as int);
            let next = rs.take(i + 1 as int);
            assert(next.drop_last() =~= prefix);
            assert(next.last() == rs[i as int]);
            reveal(Seq::filter);
        }
        if results[i].success && results[i].error.is_none() {
            count += 1;
        }
        i += 1;
    }
    proof {
        assert(rs.take(results@.len() as int) =~= rs);
    }
    count
}

fn count_failed(results: &Vec<UpdateResult>) -> (r: usize)
    ensures
        r == spec_failed_count(results@.map_values(|u: UpdateResult| u@)),
{
    let ghost rs = results@.map_values(|u: UpdateResult| u@);
    let mut count: usize = 0;
    let mut i: usize = 0;
    while i < results.len()
        invariant
            i <= results@.len(),
            rs == results@.map_values(|u: UpdateResult| u@),
            count == rs.take(i as int).filter(|r: UpdateResultView| !r.success).len(),
            count <= i,
        decreases results@.len() - i,
    {
        proof {
            let prefix = rs.take(i as int);
            let next = rs.take(i + 1 as int);
            assert(next.drop_last() =~= prefix);
            assert(next.last() == rs[i as int]);
            reveal(Seq::filter);
        }
        if !results[i].success {
            count += 1;
        }
        i += 1;
    }
    proof {
        assert(rs.take(results@.len() as int) =~= rs);
    }
    count
}

/// Aggregates the run counters. Protected candidates count as excluded,
/// never as successes or failures; eligible is what remains of the
/// total after the exclusions.
pub fn generate_summary(products: &Vec<ProductNoStock>, update_results: &Vec<UpdateResult>) -> (r:
    UpdateSummary)
    ensures
        r.total_found == products@.len(),
        r.excluded_count == spec_excluded_count(products@.map_values(|c: ProductNoStock| c@)),
        r.eligible_count == r.total_found - r.excluded_count,
        r.successful_updates == spec_successful_count(
            update_results@.map_values(|u: UpdateResult| u@),
        ),
        r.failed_updates == spec_failed_count(update_results@.map_values(|u: UpdateResult| u@)),
{
    let excluded_count = count_excluded(products);
    let eligible_count = products.len() - excluded_count;
    let successful_updates = count_successful(update_results);
    let failed_updates = count_failed(update_results);
    UpdateSummary {
        total_found: products.len(),
        excluded_count,
        eligible_count,
        successful_updates,
        failed_updates,
    }
}

/// The correspondence between a candidate and the outcome row recorded
/// for it: same identifier and title; a protected candidate is recorded
/// as a success with an explanatory note, an attempted one succeeds
/// exactly when no error is attached.
pub open spec fn spec_outcome_matches(c: CandidateView, r: UpdateResultView) -> bool {
    &&& r.product_id == c.id
    &&& r.title == c.title
    &&& (c.is_excluded ==> r.success && r.error is Some)
    &&& (!c.is_excluded ==> (r.success <==> r.error is None))
}

/// Law: for any outcome list that corresponds row by row to its
/// candidate list, the clean successes and the failures together are
/// exactly the eligible candidates — excluded rows fall in neither
/// bucket, so the dashboard identity
/// `successful_updates + failed_updates == eligible_count` holds.
pub proof fn lemma_summary_balance(cs: Seq<CandidateView>, rs: Seq<UpdateResultView>)
    requires
        cs.len() == rs.len(),
        forall|i: int| 0 <= i < cs.len() ==> spec_outcome_matches(cs[i], rs[i]),
    ensures
        spec_successful_count(rs) + spec_failed_count(rs) == cs.len() - spec_excluded_count(cs),
    decreases cs.len(),
{
    reveal(Seq::filter);
    if cs.len() == 0 {
    } else {
        let cs0 = cs.drop_last();
        let rs0 = rs.drop_last();
        assert(forall|i: int| 0 <= i < cs0.len() ==> spec_outcome_matches(cs0[i], rs0[i]));
        lemma_summary_balance(cs0, rs0);
        assert(spec_outcome_matches(cs.last(), rs.last()));
    }
}

/// The outcome recorded for a protected candidate: a success that
/// carries the explanatory note instead of a remote call.
pub open spec fn spec_excluded_outcome(c: CandidateView) -> UpdateResultView {
    UpdateResultView { product_id: c.id, title: c.title, success: true, error: Some(
        "Excluded from updates"@,
    ) }
}

/// The first index at or after `i` holding a candidate that is not
/// protected, or the length when none remains.
pub open spec fn spec_first_eligible(cs: Seq<CandidateView>, i: int) -> int
    decreases cs.len() - i,
    when 0 <= i <= cs.len()
{
    if i >= cs.len() {
        cs.len() as int
    } else if !cs[i].is_excluded {
        i
    } else {
        spec_first_eligible(cs, i + 1)
    }
}

proof fn lemma_first_eligible_bounds(cs: Seq<CandidateView>, i: int)
    requires
        0 <= i <= cs.len(),
    ensures
        i <= spec_first_eligible(cs, i) <= cs.len(),
        forall|k: int| i <= k < spec_first_eligible(cs, i) ==> cs[k].is_excluded,
        spec_first_eligible(cs, i) < cs.len() ==> !cs[spec_first_eligible(cs, i)].is_excluded,
    decreases cs.len() - i,
{
    if i < cs.len() && cs[i].is_excluded {
        lemma_first_eligible_bounds(cs, i + 1);
    }
}

/// The sequential draft-status updater, driven one remote call at a
/// time. `next_request` skips protected candidates (recording their
/// outcomes) and names the next product to update; `on_response`
/// records what the remote call returned. One failed call never stops
/// the run: the caller simply asks for the next request.
pub struct DraftUpdater {
    pub candidates: Vec<ProductNoStock>,
    pub results: Vec<UpdateResult>,
    pub next_index: usize,
    pub awaiting: bool,
    pub all_ok: Ghost<bool>,
}

impl DraftUpdater {
    pub open spec fn cviews(&self) -> Seq<CandidateView> {
        self.candidates@.map_values(|c: ProductNoStock| c@)
    }

    pub open spec fn rviews(&self) -> Seq<UpdateResultView> {
        self.results@.map_values(|u: UpdateResult| u@)
    }

    /// Well-formedness: outcomes cover exactly the candidates before
    /// `next_index`, each corresponding to its candidate; while a
    /// request is outstanding it is for the eligible candidate at
    /// `next_index`.
    pub open spec fn wf(&self) -> bool {
        &&& self.next_index <= self.candidates@.len()
        &&& self.results@.len() == self.next_index
        &&& (self.awaiting ==> self.next_index < self.candidates@.len() && !self.cviews()[
        self.next_index as int].is_excluded)
        &&& (forall|i: int|
            0 <= i < self.results@.len() ==> spec_outcome_matches(
                self.cviews()[i],
                #[trigger] self.rviews()[i],
            ))
        &&& (self.all_ok@ ==> forall|i: int|
            0 <= i < self.results@.len() ==> (#[trigger] self.rviews()[i]).success)
    }

    /// The run is complete: every candidate has an outcome.
    pub open spec fn spec_done(&self) -> bool {
        !self.awaiting && self.next_index == self.candidates@.len()
    }

    /// Starts a run over the given candidates.
    pub fn new(candidates: Vec<ProductNoStock>) -> (r: DraftUpdater)
        ensures
            r.wf(),
            r.candidates == candidates,
            r.results@.len() == 0,
            r.next_index == 0,
            !r.awaiting,
            r.all_ok@,
    {
        DraftUpdater {
            candidates,
            results: Vec::new(),
            next_index: 0,
            awaiting: false,
            all_ok: Ghost(true),
        }
    }

    /// Records the outcomes of the protected candidates that come next
    /// and hands out the product identifier of the next eligible one,
    /// or `None` when the run is complete.
    pub fn next_request(&mut self) -> (r: Option<String>)
        requires
            old(self).wf(),
            !old(self).awaiting,
        ensures
            final(self).wf(),
            final(self).candidates == old(self).candidates,
            final(self).all_ok@ == old(self).all_ok@,
            final(self).next_index == spec_first_eligible(
                old(self).cviews(),
                old(self).next_index as int,
            ),
            final(self).rviews() == old(self).rviews() + Seq::new(
                (final(self).next_index - old(self).next_index) as nat,
                |k: int| spec_excluded_outcome(old(self).cviews()[old(self).next_index + k]),
            ),
            r is Some <==> final(self).next_index < final(self).candidates@.len(),
            r matches Some(id) ==> id@ == final(self).cviews()[final(self).next_index as int].id
                && final(self).awaiting,
            r is None ==> final(self).spec_done(),
    {
        proof {
            lemma_first_eligible_bounds(old(self).cviews(), old(self).next_index as int);
        }
        let ghost start = self.next_index as int;
        let ghost target = spec_first_eligible(self.cviews(), start);
        while self.next_index < self.candidates.len() && self.candidates[self.next_index].is_excluded
            invariant
                self.wf(),
                !self.awaiting,
                self.candidates == old(self).candidates,
                self.all_ok@ == old(self).all_ok@,
                start <= self.next_index as int <= target,
                target == spec_first_eligible(self.cviews(), start),
                target == spec_first_eligible(self.cviews(), self.next_index as int),
                self.rviews() == old(self).rviews() + Seq::new(
                    (self.next_index - start) as nat,
                    |k: int| spec_excluded_outcome(self.cviews()[start + k]),
                ),
            decreases self.candidates@.len() - self.next_index,
        {
            let c = &self.candidates[self.next_index];
            let outcome = UpdateResult {
                product_id: c.id.clone(),
                title: c.title.clone(),
                success: true,
                error: Some(String::from_str("Excluded from updates")),
            };
            proof {
                lemma_first_eligible_bounds(self.cviews(), self.next_index as int);
            }
            let ghost before = self.rviews();
            self.results.push(outcome);
            self.next_index += 1;
            proof {
                assert(self.rviews() =~= before.push(
                    spec_excluded_outcome(self.cviews()[self.next_index - 1]),
                ));
                assert(self.rviews() =~= old(self).rviews() + Seq::new(
                    (self.next_index - start) as nat,
                    |k: int| spec_excluded_outcome(self.cviews()[start + k]),
                ));
            }
        }
        if self.next_index < self.candidates.len() {
            self.awaiting = true;
            Some(self.candidates[self.next_index].id.clone())
        } else {
            None
        }
    }

    /// Records the remote response for the candidate the outstanding
    /// request named: success exactly when the remote accepted the
    /// update, with the error text attached otherwise.
    pub fn on_response(&mut self, response: Result<(), String>)
        requires
            old(self).wf(),
            old(self).awaiting,
        ensures
            final(self).wf(),
            final(self).candidates == old(self).candidates,
            !final(self).awaiting,
            final(self).next_index == old(self).next_index + 1,
            final(self).rviews() == old(self).rviews().push(
                UpdateResultView {
                    product_id: old(self).cviews()[old(self).next_index as int].id,
                    title: old(self).cviews()[old(self).next_index as int].title,
                    success: response is Ok,
                    error: match response {
                        Ok(_) => None,
                        Err(ref e) => Some(e@),
                    },
                },
            ),
            final(self).all_ok@ == (old(self).all_ok@ && response is Ok),
    {
        let n = self.candidates.len();
        assert(self.next_index < n);
        let c = &self.candidates[self.next_index];
        let (success, error) = match response {
            Ok(_) => (true, None),
            Err(e) => (false, Some(e)),
        };
        let outcome = UpdateResult {
            product_id: c.id.clone(),
            title: c.title.clone(),
            success,
            error,
        };
        let ghost before = self.rviews();
        proof {
            self.all_ok@ = self.all_ok@ && success;
        }
        self.results.push(outcome);
        self.awaiting = false;
        self.next_index += 1;
        proof {
            assert(self.rviews() =~= before.push(self.results@.last()@));
        }
    }

    /// Whether every candidate has its outcome recorded.
    pub fn is_done(&self) -> (r: bool)
        ensures
            r == self.spec_done(),
    {
        !self.awaiting && self.next_index == self.candidates.len()
    }

    /// Hands back the candidates and the recorded outcomes of a
    /// completed run.
    pub fn finish(self) -> (r: (Vec<ProductNoStock>, Vec<UpdateResult>))
        requires
            self.wf(),
            self.spec_done(),
        ensures
            r.0 == self.candidates,
            r.1 == self.results,
            r.1@.len() == r.0@.len(),
    {
        (self.candidates, self.results)
    }
}

/// Law: a run whose every remote response was a success — in
/// particular, a repeated run over a store that already reflects the
/// draft status, where setting the status to its current value is a
/// no-op success — reports success for every candidate, protected ones
/// included. The outcomes are a function of the candidate list and the
/// responses alone, so a second identical run reports the same rows.
pub proof fn lemma_all_ok_run_reports_success(u: &DraftUpdater)
    requires
        u.wf(),
        u.all_ok@,
    ensures
        forall|i: int| 0 <= i < u.rviews().len() ==> (#[trigger] u.rviews()[i]).success,
{
}

} // verus!
