//! Operation ledger: draft purchase summaries derived from verified receipts,
//! moved through the state machine draft -> posted (once) or -> deleted
//! (terminal), with conflict rules on creation.
//!
//! Prices, quantities and amounts are integers in minor units; identifiers
//! of stores and products are plain strings.

use vstd::prelude::*;

use crate::text::str_eq_str;

verus! {

/// One purchased item of an operation.
pub struct OperationItem {
    pub name: String,
    pub price: i64,
    pub quantity: i64,
    pub product_id: Option<String>,
}

pub ghost struct OperationItemModel {
    pub name: Seq<char>,
    pub price: int,
    pub quantity: int,
    pub product_id: Option<Seq<char>>,
}

impl View for OperationItem {
    type V = OperationItemModel;

    open spec fn view(&self) -> OperationItemModel {
        OperationItemModel {
            name: self.name@,
            price: self.price as int,
            quantity: self.quantity as int,
            product_id: match self.product_id {
                Some(p) => Some(p@),
                None => None,
            },
        }
    }
}

impl OperationItem {
    /// A field-for-field copy.
    pub fn copied(&self) -> (r: OperationItem)
        ensures
            r@ == self@,
    {
        OperationItem {
            name: self.name.clone(),
            price: self.price,
            quantity: self.quantity,
            product_id: match &self.product_id {
                Some(p) => Some(p.clone()),
                None => None,
            },
        }
    }
}

/// Status of an operation.
#[derive(Clone, Copy, Debug, PartialEq, Eq, Structural)]
pub enum OpStatus {
    Draft,
    Posted,
    Deleted,
}

/// The status named by a wire code, if any.
pub open spec fn status_of_code(s: Seq<char>) -> Option<OpStatus> {
    if s == "draft"@ {
        Some(OpStatus::Draft)
    } else if s == "posted"@ {
        Some(OpStatus::Posted)
    } else if s == "deleted"@ {
        Some(OpStatus::Deleted)
    } else {
        None
    }
}

/// Parses a status wire code.
pub fn parse_status(s: &str) -> (r: Option<OpStatus>)
    ensures
        r == status_of_code(s@),
{
    if str_eq_str(s, "draft") {
        Some(OpStatus::Draft)
    } else if str_eq_str(s, "posted") {
        Some(OpStatus::Posted)
    } else if str_eq_str(s, "deleted") {
        Some(OpStatus::Deleted)
    } else {
        None
    }
}

/// A ledger operation.
pub struct Operation {
    pub id: u64,
    pub date: String,
    pub seller: String,
    pub amount: i64,
    pub items: Vec<OperationItem>,
    pub status: OpStatus,
    pub store_id: Option<String>,
    pub qr: Option<String>,
    pub uploaded_by: Option<String>,
    /// Product ids read from the raw submission payload, by item position;
    /// the positional fallback when an item's typed `product_id` is absent.
    pub raw_product_ids: Vec<Option<String>>,
}

pub ghost struct OperationModel {
    pub id: int,
    pub date: Seq<char>,
    pub seller: Seq<char>,
    pub amount: int,
    pub items: Seq<OperationItemModel>,
    pub status: OpStatus,
    pub store_id: Option<Seq<char>>,
    pub qr: Option<Seq<char>>,
    pub uploaded_by: Option<Seq<char>>,
    pub raw_product_ids: Seq<Option<Seq<char>>>,
}

pub open spec fn opt_string_view(o: Option<String>) -> Option<Seq<char>> {
    match o {
        Some(s) => Some(s@),
        None => None,
    }
}

impl View for Operation {
    type V = OperationModel;

    open spec fn view(&self) -> OperationModel {
        OperationModel {
            id: self.id as int,
            date: self.date@,
            seller: self.seller@,
            amount: self.amount as int,
            items: self.items@.map_values(|it: OperationItem| it@),
            status: self.status,
            store_id: opt_string_view(self.store_id),
            qr: opt_string_view(self.qr),
            uploaded_by: opt_string_view(self.uploaded_by),
            raw_product_ids: self.raw_product_ids@.map_values(|p: Option<String>| opt_string_view(p)),
        }
    }
}

/// The request body for creating an operation.
pub struct CreateOperationBody {
    pub date: String,
    pub seller: String,
    pub amount: i64,
    pub items: Vec<OperationItem>,
    pub qr: Option<String>,
    pub uploaded_by: Option<String>,
    pub raw_product_ids: Vec<Option<String>>,
}

/// The request body for patching an operation while it is a draft. A present
/// `store_id` assigns the store; the empty string clears the assignment.
pub struct OperationUpdateBody {
    pub store_id: Option<String>,
    pub items: Option<Vec<OperationItem>>,
}

/// The request body for a status change, carrying the status wire code.
pub struct UpdateStatus {
    pub status: String,
}

/// Why a creation was refused.
#[derive(Clone, Copy, Debug, PartialEq, Eq, Structural)]
pub enum CreateError {
    /// The uploader already owns a draft operation.
    UserHasOperation,
    /// The referenced QR payload is already bound to an operation.
    QrUsed,
}

/// Why a patch was refused.
#[derive(Clone, Copy, Debug, PartialEq, Eq, Structural)]
pub enum UpdateError {
    NotFound,
    /// Only draft operations may be edited.
    NotDraft,
    /// The patch names no field to change.
    EmptyPatch,
}

/// Some ledger operation is a draft uploaded by `user`.
pub open spec fn has_draft_by(ops: Seq<OperationModel>, user: Seq<char>) -> bool {
    exists|i: int|
        0 <= i < ops.len() && ops[i].status == OpStatus::Draft && ops[i].uploaded_by == Some(user)
}

/// Some ledger operation (of any status) is bound to the QR payload `qr`.
pub open spec fn qr_bound(ops: Seq<OperationModel>, qr: Seq<char>) -> bool {
    exists|i: int| 0 <= i < ops.len() && ops[i].qr == Some(qr)
}

/// The index of the operation with identifier `id`, or None.
pub open spec fn index_of_id(ops: Seq<OperationModel>, id: int) -> Option<int> {
    if exists|i: int| 0 <= i < ops.len() && ops[i].id == id {
        Some(choose|i: int| 0 <= i < ops.len() && ops[i].id == id)
    } else {
        None
    }
}

/// The operation ledger.
pub struct Ledger {
    pub ops: Vec<Operation>,
    pub next_id: u64,
}

pub ghost struct LedgerModel {
    pub ops: Seq<OperationModel>,
    pub next_id: int,
}

impl View for Ledger {
    type V = LedgerModel;

    open spec fn view(&self) -> LedgerModel {
        LedgerModel {
            ops: self.ops@.map_values(|op: Operation| op@),
            next_id: self.next_id as int,
        }
    }
}

/// The new operation a creation request inserts, given the identifier it is
/// assigned.
pub open spec fn created_model(body: CreateOperationBody, id: int) -> OperationModel {
    OperationModel {
        id: id,
        date: body.date@,
        seller: body.seller@,
        amount: body.amount as int,
        items: body.items@.map_values(|it: OperationItem| it@),
        status: OpStatus::Draft,
        store_id: None,
        qr: opt_string_view(body.qr),
        uploaded_by: opt_string_view(body.uploaded_by),
        raw_product_ids: body.raw_product_ids@.map_values(|p: Option<String>| opt_string_view(p)),
    }
}

impl Ledger {
    /// Identifiers are unique and below the allocation counter.
    pub open spec fn wf(&self) -> bool {
        &&& forall|i: int, j: int|
            0 <= i < j < self@.ops.len() ==> self@.ops[i].id != self@.ops[j].id
        &&& forall|i: int| 0 <= i < self@.ops.len() ==> #[trigger] self@.ops[i].id < self@.next_id
    }

    pub fn new() -> (r: Ledger)
        ensures
            r@.ops == Seq::<OperationModel>::empty(),
            r@.next_id == 0,
            r.wf(),
    {
        let r = Ledger { ops: Vec::new(), next_id: 0 };
        proof {
            assert(r@.ops =~= Seq::<OperationModel>::empty());
        }
        r
    }

    /// Creates a draft operation, refusing it when the uploader already owns
    /// a draft, or when the QR payload is already bound to an operation.
    pub fn create(&mut self, body: CreateOperationBody) -> (r: Result<u64, CreateError>)
        requires
            old(self).wf(),
            old(self)@.next_id < 0x7FFF_FFFF_FFFF_FFFF,
        ensures
            final(self).wf(),
            match r {
                Err(CreateError::UserHasOperation) => {
                    &&& body.uploaded_by is Some
                    &&& has_draft_by(old(self)@.ops, body.uploaded_by->Some_0@)
                    &&& final(self)@ == old(self)@
                },
                Err(CreateError::QrUsed) => {
                    &&& !(body.uploaded_by is Some && has_draft_by(
                        old(self)@.ops,
                        body.uploaded_by->Some_0@,
                    ))
                    &&& body.qr is Some
                    &&& qr_bound(old(self)@.ops, body.qr->Some_0@)
                    &&& final(self)@ == old(self)@
                },
                Ok(id) => {
                    &&& !(body.uploaded_by is Some && has_draft_by(
                        old(self)@.ops,
                        body.uploaded_by->Some_0@,
                    ))
                    &&& !(body.qr is Some && qr_bound(old(self)@.ops, body.qr->Some_0@))
                    &&& id as int == old(self)@.next_id
                    &&& final(self)@.ops == old(self)@.ops.push(created_model(body, id as int))
                    &&& final(self)@.next_id == old(self)@.next_id + 1
                },
            },
    {
        let n = self.ops.len();
        if let Some(user) = &body.uploaded_by {
            let mut i: usize = 0;
            while i < n
                invariant
                    0 <= i <= n,
                    n == self@.ops.len(),
                    *self == *old(self),
                    old(self).wf(),
                    body.uploaded_by == Some(*user),
                    forall|k: int|
                        0 <= k < i ==> !(#[trigger] self@.ops[k].status == OpStatus::Draft
                            && self@.ops[k].uploaded_by == Some(user@)),
                decreases n - i,
            {
                let op = &self.ops[i];
                if op.status == OpStatus::Draft {
                    if let Some(owner) = &op.uploaded_by {
                        if str_eq_str(owner.as_str(), user.as_str()) {
                            assert(self@.ops[i as int].status == OpStatus::Draft
                                && self@.ops[i as int].uploaded_by == Some(user@));
                            return Err(CreateError::UserHasOperation);
                        }
                    }
                }
                i = i + 1;
            }
            assert(!has_draft_by(self@.ops, user@));
        }
        if let Some(qr) = &body.qr {
            let mut i: usize = 0;
            while i < n
                invariant
                    0 <= i <= n,
                    n == self@.ops.len(),
                    *self == *old(self),
                    old(self).wf(),
                    body.uploaded_by is Some ==> !has_draft_by(
                        self@.ops,
                        body.uploaded_by->Some_0@,
                    ),
                    body.qr == Some(*qr),
                    forall|k: int| 0 <= k < i ==> #[trigger] self@.ops[k].qr != Some(qr@),
                decreases n - i,
            {
                let op = &self.ops[i];
                if let Some(bound) = &op.qr {
                    if str_eq_str(bound.as_str(), qr.as_str()) {
                        assert(self@.ops[i as int].qr == Some(qr@));
                        return Err(CreateError::QrUsed);
                    }
                }
                i = i + 1;
            }
            assert(!qr_bound(self@.ops, qr@));
        }
        let id = self.next_id;
        let ghost old_ops = self@.ops;
        let ghost created = created_model(body, id as int);
        let op = Operation {
            id,
            date: body.date,
            seller: body.seller,
            amount: body.amount,
            items: body.items,
            status: OpStatus::Draft,
            store_id: None,
            qr: body.qr,
            uploaded_by: body.uploaded_by,
            raw_product_ids: body.raw_product_ids,
        };
        proof {
            assert(op@ == created);
        }
        self.ops.push(op);
        self.next_id = id + 1;
        proof {
            assert(self@.ops =~= old_ops.push(created));
        }
        Ok(id)
    }

    /// The position of the operation with identifier `id` in the ledger.
    pub fn find_index(&self, id: u64) -> (r: Option<usize>)
        ensures
            match r {
                Some(i) => i < self@.ops.len() && self@.ops[i as int].id == id as int,
                None => forall|k: int| 0 <= k < self@.ops.len() ==> self@.ops[k].id != id as int,
            },
    {
        let n = self.ops.len();
        let mut i: usize = 0;
        while i < n
            invariant
                0 <= i <= n,
                n == self@.ops.len(),
                forall|k: int| 0 <= k < i ==> self@.ops[k].id != id as int,
            decreases n - i,
        {
            if self.ops[i].id == id {
                return Some(i);
            }
            i = i + 1;
        }
        None
    }

    /// Patches a draft operation: assigns or clears its store, or replaces
    /// its items. Non-draft operations are immutable; an empty patch is
    /// refused.
    pub fn update(&mut self, id: u64, patch: OperationUpdateBody) -> (r: Result<(), UpdateError>)
        requires
            old(self).wf(),
        ensures
            final(self).wf(),
            final(self)@.next_id == old(self)@.next_id,
            match r {
                Err(e) => {
                    &&& final(self)@ == old(self)@
                    &&& match e {
                        UpdateError::EmptyPatch => patch.store_id is None && patch.items is None,
                        UpdateError::NotFound => (patch.store_id is Some || patch.items is Some)
                            && !exists|i: int|
                            0 <= i < old(self)@.ops.len() && #[trigger] old(self)@.ops[i].id
                                == id as int,
                        UpdateError::NotDraft => (patch.store_id is Some || patch.items is Some)
                            && exists|i: int|
                            0 <= i < old(self)@.ops.len() && #[trigger] old(self)@.ops[i].id
                                == id as int && old(self)@.ops[i].status != OpStatus::Draft,
                    }
                },
                Ok(()) => {
                    &&& patch.store_id is Some || patch.items is Some
                    &&& exists|i: int|
                        {
                            &&& 0 <= i < old(self)@.ops.len()
                            &&& #[trigger] old(self)@.ops[i].id == id as int
                            &&& old(self)@.ops[i].status == OpStatus::Draft
                            &&& final(self)@.ops == old(self)@.ops.update(
                                i,
                                patched_model(old(self)@.ops[i], patch),
                            )
                        }
                },
            },
    {
        if patch.store_id.is_none() && patch.items.is_none() {
            return Err(UpdateError::EmptyPatch);
        }
        let idx = match self.find_index(id) {
            Some(i) => i,
            None => {
                return Err(UpdateError::NotFound);
            },
        };
        if self.ops[idx].status != OpStatus::Draft {
            return Err(UpdateError::NotDraft);
        }
        let ghost old_ops = self@.ops;
        let ghost old_model = self@.ops[idx as int];
        match patch.store_id {
            Some(sid) => {
                if sid.unicode_len() == 0 {
                    self.ops[idx].store_id = None;
                } else {
                    self.ops[idx].store_id = Some(sid);
                }
            },
            None => {},
        }
        match patch.items {
            Some(items) => {
                self.ops[idx].items = items;
            },
            None => {},
        }
        proof {
            assert(self@.ops =~= old_ops.update(
                idx as int,
                patched_model(old_model, patch),
            ));
        }
        Ok(())
    }
}

/// The soft single-draft-per-user rule: while an uploader owns a draft,
/// creation by that uploader is refused; the moment that draft is posted or
/// deleted, no draft of theirs remains, so a new creation is no longer
/// refused on that account.
pub proof fn lemma_single_draft_per_user(
    ops: Seq<OperationModel>,
    i: int,
    user: Seq<char>,
    target: OpStatus,
)
    requires
        0 <= i < ops.len(),
        ops[i].status == OpStatus::Draft,
        ops[i].uploaded_by == Some(user),
        forall|j: int|
            0 <= j < ops.len() && j != i ==> !((#[trigger] ops[j].status) == OpStatus::Draft
                && ops[j].uploaded_by == Some(user)),
        target != OpStatus::Draft,
    ensures
        has_draft_by(ops, user),
        !has_draft_by(ops.update(i, OperationModel { status: target, ..ops[i] }), user),
{
    assert(ops[i].status == OpStatus::Draft && ops[i].uploaded_by == Some(user));
    let ops2 = ops.update(i, OperationModel { status: target, ..ops[i] });
    assert forall|j: int| 0 <= j < ops2.len() implies !((#[trigger] ops2[j].status)
        == OpStatus::Draft && ops2[j].uploaded_by == Some(user)) by {
        if j != i {
            assert(ops2[j] == ops[j]);
        }
    }
}

/// What a patch makes of an operation: a present `store_id` assigns the
/// store (the empty string clears it), present `items` replace the items,
/// and everything else is untouched.
pub open spec fn patched_model(op: OperationModel, patch: OperationUpdateBody) -> OperationModel {
    let with_store = match patch.store_id {
        Some(sid) => if sid@.len() == 0 {
            OperationModel { store_id: None, ..op }
        } else {
            OperationModel { store_id: Some(sid@), ..op }
        },
        None => op,
    };
    match patch.items {
        Some(items) => OperationModel {
            items: items@.map_values(|it: OperationItem| it@),
            ..with_store
        },
        None => with_store,
    }
}

} // verus!
