//! The CV record and its parts.

use vstd::prelude::*;

verus! {

/// Provenance of a record: the account that created it, the host's sequence
/// number at that moment, and the host's timestamp.
#[derive(Clone, Copy, Debug, PartialEq, Eq, Structural)]
pub struct WhoAndWhen {
    pub account: u64,
    pub block: u64,
    pub time: u64,
}

impl WhoAndWhen {
    pub fn new(account: u64, block: u64, time: u64) -> (r: Self)
        ensures
            r == (WhoAndWhen { account, block, time }),
    {
        WhoAndWhen { account, block, time }
    }
}

/// Approval status of a record. An identifier without a stored status is `Pending`.
#[derive(Clone, Copy, Debug, PartialEq, Eq, Structural)]
pub enum Status {
    Pending,
    Allow,
    Deny,
}

impl Default for Status {
    fn default() -> (r: Self)
        ensures
            r == Status::Pending,
    {
        Status::Pending
    }
}

/// A CV record as it is stored.
#[derive(Debug, PartialEq, Eq)]
pub struct Item {
    pub item_id: u32,
    pub owner: u64,
    pub created: WhoAndWhen,
    pub period_from: Option<u64>,
    pub period_to: Option<u64>,
    pub certificate_id: Option<u32>,
    pub score: u32,
    pub keywords: Vec<Vec<u8>>,
    pub metadata: Vec<u8>,
}

/// The mathematical value of a record: byte strings are sequences.
pub ghost struct ItemView {
    pub item_id: u32,
    pub owner: u64,
    pub created: WhoAndWhen,
    pub period_from: Option<u64>,
    pub period_to: Option<u64>,
    pub certificate_id: Option<u32>,
    pub score: u32,
    pub keywords: Seq<Seq<u8>>,
    pub metadata: Seq<u8>,
}

/// The value of a list of keywords.
pub open spec fn keywords_view(keywords: Seq<Vec<u8>>) -> Seq<Seq<u8>> {
    Seq::new(keywords.len(), |i: int| keywords[i]@)
}

impl View for Item {
    type V = ItemView;

    open spec fn view(&self) -> ItemView {
        ItemView {
            item_id: self.item_id,
            owner: self.owner,
            created: self.created,
            period_from: self.period_from,
            period_to: self.period_to,
            certificate_id: self.certificate_id,
            score: self.score,
            keywords: keywords_view(self.keywords@),
            metadata: self.metadata@,
        }
    }
}

/// A fresh copy of a byte string.
pub fn copy_bytes(bytes: &Vec<u8>) -> (r: Vec<u8>)
    ensures
        r@ == bytes@,
{
    let mut out: Vec<u8> = Vec::new();
    let mut i: usize = 0;
    while i < bytes.len()
        invariant
            i <= bytes.len(),
            out@ == bytes@.subrange(0, i as int),
        decreases bytes.len() - i,
    {
        out.push(bytes[i]);
        i += 1;
        assert(out@ =~= bytes@.subrange(0, i as int));
    }
    assert(out@ =~= bytes@);
    out
}

/// A fresh copy of a list of keywords.
pub fn copy_keywords(keywords: &Vec<Vec<u8>>) -> (r: Vec<Vec<u8>>)
    ensures
        keywords_view(r@) == keywords_view(keywords@),
{
    let mut out: Vec<Vec<u8>> = Vec::new();
    let mut i: usize = 0;
    while i < keywords.len()
        invariant
            i <= keywords.len(),
            out@.len() == i,
            forall|j: int| 0 <= j < i ==> out@[j]@ == keywords@[j]@,
        decreases keywords.len() - i,
    {
        out.push(copy_bytes(&keywords[i]));
        i += 1;
    }
    assert(keywords_view(out@) =~= keywords_view(keywords@));
    out
}

impl Item {
    /// Builds a record from its parts; `created_by`, `block` and `time` become
    /// its provenance.
    pub fn new(
        id: u32,
        owner: u64,
        created_by: u64,
        period_from: Option<u64>,
        period_to: Option<u64>,
        certificate_id: Option<u32>,
        score: u32,
        keywords: Vec<Vec<u8>>,
        metadata: Vec<u8>,
        block: u64,
        time: u64,
    ) -> (r: Self)
        ensures
            r@ == (ItemView {
                item_id: id,
                owner,
                created: WhoAndWhen { account: created_by, block, time },
                period_from,
                period_to,
                certificate_id,
                score,
                keywords: keywords_view(keywords@),
                metadata: metadata@,
            }),
    {
        Item {
            item_id: id,
            owner,
            created: WhoAndWhen::new(created_by, block, time),
            period_from,
            period_to,
            certificate_id,
            score,
            keywords,
            metadata,
        }
    }
}

impl Clone for Item {
    fn clone(&self) -> (r: Self)
        ensures
            r@ == self@,
    {
        Item {
            item_id: self.item_id,
            owner: self.owner,
            created: self.created,
            period_from: self.period_from,
            period_to: self.period_to,
            certificate_id: self.certificate_id,
            score: self.score,
            keywords: copy_keywords(&self.keywords),
            metadata: copy_bytes(&self.metadata),
        }
    }
}

} // verus!
