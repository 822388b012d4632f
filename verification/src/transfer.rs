//! The compensating two-phase inventory mover: decrement the source
//! location, increment the destination, and on a destination failure
//! reverse the source. The saga is a state machine driven one remote
//! adjustment at a time; its ledger records every adjustment the remote
//! store accepted, so the net effect of each terminal state is proved.

use vstd::prelude::*;

use crate::text::spec_contains_seq;
use crate::utils::{InventoryUpdate, InventoryUpdateView};

verus! {

/// What the caller asks the mover to do: move `quantity` units of one
/// inventory item from one location to the other. The display names
/// and product data ride along for messages and audit records.
#[derive(Debug, Clone)]
pub struct TransferRequest {
    pub inventory_item_id: String,
    pub from_location_id: String,
    pub to_location_id: String,
    pub quantity: i32,
    pub product_id: String,
    pub variant_title: String,
    pub product_name: String,
    pub price: String,
    pub from_location: String,
    pub to_location: String,
    pub images: Vec<String>,
}

/// A request is meaningful only between two distinct locations and for
/// a positive quantity.
pub open spec fn spec_valid_request(r: TransferRequest) -> bool {
    &&& r.from_location_id@ != r.to_location_id@
    &&& 0 < r.quantity
}

/// Terminal states of the mover.
#[derive(Debug, Clone, Copy, PartialEq, Eq, Structural)]
pub enum TransferStatus {
    /// Both adjustments were accepted.
    Committed,
    /// The source decrement itself was rejected; nothing changed.
    RemovalFailed,
    /// The destination increment was rejected and the compensating
    /// reversal of the source was accepted; safe to retry.
    RolledBack,
    /// The destination increment and the compensating reversal both
    /// failed; the stock is inconsistent and needs a human.
    Unrecoverable,
}

/// How the mover ended, with the human-readable report.
#[derive(Debug, Clone)]
pub struct TransferOutcome {
    pub status: TransferStatus,
    pub message: String,
    pub status_changed: Option<String>,
}

/// Where the saga stands: which adjustment is in flight, or how it
/// ended.
#[derive(Debug)]
pub enum TransferPhase {
    AdjustSource,
    AdjustDestination,
    CompensateSource,
    Done(TransferOutcome),
}

pub open spec fn spec_source_error_message(from_location: Seq<char>, e: Seq<char>) -> Seq<char> {
    "Errore nella rimozione da "@ + from_location + ": "@ + e
}

pub open spec fn spec_destination_error_message(to_location: Seq<char>, e: Seq<char>) -> Seq<
    char,
> {
    "Errore nell'aggiunta a "@ + to_location + ": "@ + e
}

pub open spec fn spec_unrecoverable_message(original: Seq<char>, rollback: Seq<char>) -> Seq<
    char,
> {
    "ERRORE CRITICO: Fallimento trasferimento e rollback fallito. Originale: "@ + original
        + ", Rollback: "@ + rollback
}

pub open spec fn spec_committed_message(r: TransferRequest) -> Seq<char> {
    "Trasferimento completato: "@ + r.product_name@ + " ("@ + r.variant_title@ + ") spostato da "@
        + r.from_location@ + " a "@ + r.to_location@
}

fn source_error_message(from_location: &str, e: &str) -> (r: String)
    ensures
        r@ == spec_source_error_message(from_location@, e@),
{
    let mut s = String::from_str("Errore nella rimozione da ");
    s.append(from_location);
    s.append(": ");
    s.append(e);
    s
}

fn destination_error_message(to_location: &str, e: &str) -> (r: String)
    ensures
        r@ == spec_destination_error_message(to_location@, e@),
{
    let mut s = String::from_str("Errore nell'aggiunta a ");
    s.append(to_location);
    s.append(": ");
    s.append(e);
    s
}

fn unrecoverable_message(original: &str, rollback: &str) -> (r: String)
    ensures
        r@ == spec_unrecoverable_message(original@, rollback@),
{
    let mut s = String::from_str(
        "ERRORE CRITICO: Fallimento trasferimento e rollback fallito. Originale: ",
    );
    s.append(original);
    s.append(", Rollback: ");
    s.append(rollback);
    s
}

fn committed_message(r: &TransferRequest) -> (m: String)
    ensures
        m@ == spec_committed_message(*r),
{
    let mut s = String::from_str("Trasferimento completato: ");
    s.append(r.product_name.as_str());
    s.append(" (");
    s.append(r.variant_title.as_str());
    s.append(") spostato da ");
    s.append(r.from_location.as_str());
    s.append(" a ");
    s.append(r.to_location.as_str());
    s
}

/// The net quantity change a ledger of accepted adjustments applied to
/// one location.
pub open spec fn spec_net_delta(applied: Seq<InventoryUpdateView>, loc: Seq<char>) -> int
    decreases applied.len(),
{
    if applied.len() == 0 {
        0
    } else {
        spec_net_delta(applied.drop_last(), loc) + if applied.last().location_id == loc {
            applied.last().adjustment
        } else {
            0
        }
    }
}

/// The saga of one transfer: the fixed request, the current phase, the
/// ledger of adjustments the remote store has accepted so far, and the
/// first error seen (kept for the final report).
pub struct TransferSaga {
    pub request: TransferRequest,
    pub phase: TransferPhase,
    pub applied: Vec<InventoryUpdate>,
    pub first_error: Option<String>,
}

impl TransferSaga {
    /// The ledger as a mathematical sequence.
    pub open spec fn ledger(&self) -> Seq<InventoryUpdateView> {
        self.applied@.map_values(|u: InventoryUpdate| u@)
    }

    /// The decrement the saga issues against the source location.
    pub open spec fn spec_source_decrement(&self) -> InventoryUpdateView {
        InventoryUpdateView {
            variant_id: self.request.inventory_item_id@,
            location_id: self.request.from_location_id@,
            adjustment: -(self.request.quantity as int),
        }
    }

    /// The increment the saga issues against the destination location.
    pub open spec fn spec_destination_increment(&self) -> InventoryUpdateView {
        InventoryUpdateView {
            variant_id: self.request.inventory_item_id@,
            location_id: self.request.to_location_id@,
            adjustment: self.request.quantity as int,
        }
    }

    /// The compensating increment that reverses the source decrement.
    pub open spec fn spec_source_reversal(&self) -> InventoryUpdateView {
        InventoryUpdateView {
            variant_id: self.request.inventory_item_id@,
            location_id: self.request.from_location_id@,
            adjustment: self.request.quantity as int,
        }
    }

    /// Well-formedness: the ledger holds exactly what the phase says
    /// the remote store accepted, and a terminal report carries the
    /// message its status prescribes.
    pub open spec fn wf(&self) -> bool {
        &&& spec_valid_request(self.request)
        &&& match self.phase {
            TransferPhase::AdjustSource => self.ledger() =~= Seq::<InventoryUpdateView>::empty()
                && self.first_error is None,
            TransferPhase::AdjustDestination => self.ledger() =~= seq![
                self.spec_source_decrement(),
            ] && self.first_error is None,
            TransferPhase::CompensateSource => self.ledger() =~= seq![
                self.spec_source_decrement(),
            ] && self.first_error is Some,
            TransferPhase::Done(o) => {
                &&& o.status_changed is None
                &&& (o.status == TransferStatus::Committed ==> self.ledger() =~= seq![
                    self.spec_source_decrement(),
                    self.spec_destination_increment(),
                ] && o.message@ == spec_committed_message(self.request))
                &&& (o.status == TransferStatus::RemovalFailed ==> self.ledger()
                    =~= Seq::<InventoryUpdateView>::empty())
                &&& (o.status == TransferStatus::RolledBack ==> (self.ledger() =~= seq![
                    self.spec_source_decrement(),
                    self.spec_source_reversal(),
                ] && (self.first_error matches Some(e) && o.message@
                    == spec_destination_error_message(self.request.to_location@, e@))))
                &&& (o.status == TransferStatus::Unrecoverable ==> (self.ledger() =~= seq![
                    self.spec_source_decrement(),
                ] && (self.first_error matches Some(e) && exists|rb: Seq<char>|
                    o.message@ == spec_unrecoverable_message(e@, rb))))
            },
        }
    }

    /// Starts a transfer saga.
    pub fn new(request: TransferRequest) -> (r: TransferSaga)
        requires
            spec_valid_request(request),
        ensures
            r.wf(),
            r.request == request,
            r.phase is AdjustSource,
            r.ledger() =~= Seq::<InventoryUpdateView>::empty(),
    {
        TransferSaga { request, phase: TransferPhase::AdjustSource, applied: Vec::new(), first_error: None }
    }

    /// The remote adjustment to issue next, or `None` once the saga has
    /// reached a terminal state.
    pub fn next_command(&self) -> (r: Option<InventoryUpdate>)
        requires
            self.wf(),
        ensures
            self.phase is AdjustSource ==> (r matches Some(u) && u@
                == self.spec_source_decrement()),
            self.phase is AdjustDestination ==> (r matches Some(u) && u@
                == self.spec_destination_increment()),
            self.phase is CompensateSource ==> (r matches Some(u) && u@
                == self.spec_source_reversal()),
            self.phase is Done ==> r is None,
    {
        match &self.phase {
            TransferPhase::AdjustSource => Some(
                InventoryUpdate {
                    variant_id: self.request.inventory_item_id.clone(),
                    location_id: self.request.from_location_id.clone(),
                    adjustment: -self.request.quantity,
                },
            ),
            TransferPhase::AdjustDestination => Some(
                InventoryUpdate {
                    variant_id: self.request.inventory_item_id.clone(),
                    location_id: self.request.to_location_id.clone(),
                    adjustment: self.request.quantity,
                },
            ),
            TransferPhase::CompensateSource => Some(
                InventoryUpdate {
                    variant_id: self.request.inventory_item_id.clone(),
                    location_id: self.request.from_location_id.clone(),
                    adjustment: self.request.quantity,
                },
            ),
            TransferPhase::Done(_) => None,
        }
    }

    /// Feeds back what the remote store said to the adjustment that was
    /// in flight, and moves the saga on: record the accepted adjustment
    /// in the ledger, or turn a rejection into the compensation step or
    /// the prescribed terminal report.
    pub fn on_result(&mut self, result: Result<(), String>)
        requires
            old(self).wf(),
            !(old(self).phase is Done),
        ensures
            final(self).wf(),
            final(self).request == old(self).request,
            old(self).phase is AdjustSource && result is Ok ==> final(self).phase
                is AdjustDestination,
            old(self).phase is AdjustSource ==> (result matches Err(e) ==> (final(self).phase
                matches TransferPhase::Done(o) && o.status == TransferStatus::RemovalFailed
                && o.message@ == spec_source_error_message(
                old(self).request.from_location@,
                e@,
            ))),
            old(self).phase is AdjustDestination && result is Ok ==> (final(self).phase
                matches TransferPhase::Done(o) && o.status == TransferStatus::Committed),
            old(self).phase is AdjustDestination ==> (result matches Err(e) ==> final(self).phase
                is CompensateSource && final(self).first_error == Some(e)),
            old(self).phase is CompensateSource && result is Ok ==> (final(self).phase
                matches TransferPhase::Done(o) && o.status == TransferStatus::RolledBack),
            old(self).phase is CompensateSource ==> (result matches Err(e) ==> (final(self).phase
                matches TransferPhase::Done(o) && o.status == TransferStatus::Unrecoverable
                && o.message@ == spec_unrecoverable_message(old(self).first_error->0@, e@))),
    {
        match &self.phase {
            TransferPhase::AdjustSource => {
                match result {
                    Ok(_) => {
                        let ghost before = self.ledger();
                        self.applied.push(
                            InventoryUpdate {
                                variant_id: self.request.inventory_item_id.clone(),
                                location_id: self.request.from_location_id.clone(),
                                adjustment: -self.request.quantity,
                            },
                        );
                        self.phase = TransferPhase::AdjustDestination;
                        proof {
                            assert(self.ledger() =~= before.push(self.spec_source_decrement()));
                        }
                    },
                    Err(e) => {
                        let message = source_error_message(
                            self.request.from_location.as_str(),
                            e.as_str(),
                        );
                        self.phase = TransferPhase::Done(
                            TransferOutcome {
                                status: TransferStatus::RemovalFailed,
                                message,
                                status_changed: None,
                            },
                        );
                    },
                }
            },
            TransferPhase::AdjustDestination => {
                match result {
                    Ok(_) => {
                        let ghost before = self.ledger();
                        self.applied.push(
                            InventoryUpdate {
                                variant_id: self.request.inventory_item_id.clone(),
                                location_id: self.request.to_location_id.clone(),
                                adjustment: self.request.quantity,
                            },
                        );
                        let message = committed_message(&self.request);
                        self.phase = TransferPhase::Done(
                            TransferOutcome {
                                status: TransferStatus::Committed,
                                message,
                                status_changed: None,
                            },
                        );
                        proof {
                            assert(self.ledger() =~= before.push(
                                self.spec_destination_increment(),
                            ));
                        }
                    },
                    Err(e) => {
                        self.first_error = Some(e);
                        self.phase = TransferPhase::CompensateSource;
                    },
                }
            },
            TransferPhase::CompensateSource => {
                match result {
                    Ok(_) => {
                        let ghost before = self.ledger();
                        self.applied.push(
                            InventoryUpdate {
                                variant_id: self.request.inventory_item_id.clone(),
                                location_id: self.request.from_location_id.clone(),
                                adjustment: self.request.quantity,
                            },
                        );
                        let original = match &self.first_error {
                            Some(e) => e.as_str(),
                            None => "",
                        };
                        let message = destination_error_message(
                            self.request.to_location.as_str(),
                            original,
                        );
                        self.phase = TransferPhase::Done(
                            TransferOutcome {
                                status: TransferStatus::RolledBack,
                                message,
                                status_changed: None,
                            },
                        );
                        proof {
                            assert(self.ledger() =~= before.push(self.spec_source_reversal()));
                        }
                    },
                    Err(e) => {
                        let original = match &self.first_error {
                            Some(orig) => orig.as_str(),
                            None => "",
                        };
                        let message = unrecoverable_message(original, e.as_str());
                        self.phase = TransferPhase::Done(
                            TransferOutcome {
                                status: TransferStatus::Unrecoverable,
                                message,
                                status_changed: None,
                            },
                        );
                    },
                }
            },
            TransferPhase::Done(_) => {
                proof {
                    assert(false);
                }
            },
        }
    }

    /// Hands back the terminal report and the ledger of accepted
    /// adjustments once the saga is done.
    pub fn finish(self) -> (r: (TransferOutcome, Vec<InventoryUpdate>))
        requires
            self.wf(),
            self.phase is Done,
        ensures
            self.phase matches TransferPhase::Done(o) && r.0 == o,
            r.1 == self.applied,
    {
        match self.phase {
            TransferPhase::Done(o) => (o, self.applied),
            _ => {
                proof {
                    assert(false);
                }
                (
                    TransferOutcome {
                        status: TransferStatus::RemovalFailed,
                        message: String::new(),
                        status_changed: None,
                    },
                    self.applied,
                )
            },
        }
    }
}

/// Law: a committed transfer moved exactly the requested quantity out
/// of the source and into the destination, so the net change across
/// the two locations sums to zero.
pub proof fn lemma_committed_net_zero(s: &TransferSaga)
    requires
        s.wf(),
        s.phase matches TransferPhase::Done(o) && o.status == TransferStatus::Committed,
    ensures
        spec_net_delta(s.ledger(), s.request.from_location_id@) == -(s.request.quantity as int),
        spec_net_delta(s.ledger(), s.request.to_location_id@) == s.request.quantity as int,
        spec_net_delta(s.ledger(), s.request.from_location_id@) + spec_net_delta(
            s.ledger(),
            s.request.to_location_id@,
        ) == 0,
{
    reveal_with_fuel(spec_net_delta, 4);
    let l = s.ledger();
    let from = s.request.from_location_id@;
    let to = s.request.to_location_id@;
    assert(l.drop_last() =~= seq![s.spec_source_decrement()]);
    assert(l.last() == s.spec_destination_increment());
    assert(l.drop_last().drop_last() =~= Seq::<InventoryUpdateView>::empty());
    assert(l.drop_last().last() == s.spec_source_decrement());
    assert(spec_net_delta(l.drop_last(), from) == -(s.request.quantity as int));
    assert(spec_net_delta(l.drop_last(), to) == 0);
}

/// Law: a rolled-back transfer left both locations exactly as they
/// were — the reversal cancels the decrement at the source, and the
/// destination was never changed.
pub proof fn lemma_rolled_back_net_zero(s: &TransferSaga, loc: Seq<char>)
    requires
        s.wf(),
        s.phase matches TransferPhase::Done(o) && o.status == TransferStatus::RolledBack,
    ensures
        spec_net_delta(s.ledger(), s.request.from_location_id@) == 0,
        spec_net_delta(s.ledger(), s.request.to_location_id@) == 0,
        spec_net_delta(s.ledger(), loc) == 0,
{
    reveal_with_fuel(spec_net_delta, 4);
    let l = s.ledger();
    let from = s.request.from_location_id@;
    assert(l.drop_last() =~= seq![s.spec_source_decrement()]);
    assert(l.last() == s.spec_source_reversal());
    assert(l.drop_last().drop_last() =~= Seq::<InventoryUpdateView>::empty());
    assert(l.drop_last().last() == s.spec_source_decrement());
    assert(spec_net_delta(l.drop_last(), from) == -(s.request.quantity as int));
    assert(spec_net_delta(l.drop_last(), loc) == (if loc == from {
        -(s.request.quantity as int)
    } else {
        0
    }));
}

/// Law: a rejected source decrement changed nothing anywhere.
pub proof fn lemma_removal_failed_net_zero(s: &TransferSaga, loc: Seq<char>)
    requires
        s.wf(),
        s.phase matches TransferPhase::Done(o) && o.status == TransferStatus::RemovalFailed,
    ensures
        spec_net_delta(s.ledger(), loc) == 0,
{
}

/// Law: the unrecoverable report never swallows a failure — its
/// message contains both the original destination error text and the
/// rollback error text.
pub proof fn lemma_unrecoverable_message_contains(e1: Seq<char>, e2: Seq<char>)
    ensures
        spec_contains_seq(spec_unrecoverable_message(e1, e2), e1),
        spec_contains_seq(spec_unrecoverable_message(e1, e2), e2),
{
    let p1 = "ERRORE CRITICO: Fallimento trasferimento e rollback fallito. Originale: "@;
    let p2 = ", Rollback: "@;
    let hay = spec_unrecoverable_message(e1, e2);
    let i1 = p1.len() as int;
    assert(hay.subrange(i1, i1 + e1.len() as int) =~= e1);
    let i2 = p1.len() + e1.len() + p2.len();
    assert(hay.subrange(i2 as int, i2 as int + e2.len() as int) =~= e2);
}

/// Law: an unrecoverable saga's own report contains its recorded
/// original error text and some rollback error text.
pub proof fn lemma_unrecoverable_reports_both(s: &TransferSaga)
    requires
        s.wf(),
        s.phase matches TransferPhase::Done(o) && o.status == TransferStatus::Unrecoverable,
    ensures
        s.phase matches TransferPhase::Done(o) && s.first_error matches Some(e)
            && spec_contains_seq(o.message@, e@),
{
    let o = s.phase->Done_0;
    let e = s.first_error->0;
    let rb = choose|rb: Seq<char>| o.message@ == spec_unrecoverable_message(e@, rb);
    lemma_unrecoverable_message_contains(e@, rb);
}

} // verus!
