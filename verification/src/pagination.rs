//! Pagination of query results: a page is asked for by the key of its
//! first item or by its number, and comes with the key of the item
//! behind it and the number of all items.

use vstd::prelude::*;
use crate::bytes::{bytes_eq, copy_bytes};
use crate::context::key_models;

verus! {

/// The number of items on a page where nothing else was said.
pub const QUERY_DEFAULT_LIMIT: u8 = 100;

#[verifier::external_type_specification]
#[verifier::external_body]
#[verifier::reject_recursive_types(T)]
pub struct ExVec1<T>(vec1::Vec1<T>);

/// The bytes that a non-empty vector of bytes holds, in their order.
pub uninterp spec fn vec1_items(v: vec1::Vec1<u8>) -> Seq<u8>;

/// Calls `vec1::Vec1::try_from_vec`, which refuses the empty vector and
/// keeps any other as it is.
#[verifier::external_body]
fn vec1_try_from_vec(v: Vec<u8>) -> (r: Option<vec1::Vec1<u8>>)
    ensures
        match r {
            Some(w) => v@.len() > 0 && vec1_items(w) == v@,
            None => v@.len() == 0,
        },
{
    vec1::Vec1::try_from_vec(v).ok()
}

/// Calls `vec1::Vec1::into_vec`, which hands out the vector that is
/// held; it holds at least one item.
#[verifier::external_body]
fn vec1_into_vec(v: vec1::Vec1<u8>) -> (r: Vec<u8>)
    ensures
        r@ == vec1_items(v),
        r@.len() > 0,
{
    v.into_vec()
}

/// How a page is asked for.
#[derive(Debug, PartialEq, Eq)]
pub enum PaginationKind {
    /// By the key that the page before gave as the next one.
    Key { key: vec1::Vec1<u8> },
    /// By the number of the page, counted from 0.
    Offset { offset: u32 },
}

/// A request for a page.
#[derive(Debug, PartialEq, Eq)]
pub struct PaginationRequest {
    pub kind: PaginationKind,
    /// The number of items on the page.
    pub limit: u8,
}

/// A request for a page as it comes over the wire.
#[derive(Debug, PartialEq, Eq)]
pub struct PageRequest {
    pub key: Vec<u8>,
    pub offset: u64,
    pub limit: u64,
    pub count_total: bool,
    pub reverse: bool,
}

/// A request for a page in terms of items: where the page starts, and
/// how many items it has at most.
#[derive(Debug, PartialEq, Eq)]
pub enum Pagination {
    /// The page starts at the item with the key `key`.
    ByKey { key: Vec<u8>, limit: usize },
    /// The page starts behind the first `offset` items.
    ByOffset { offset: usize, limit: usize },
}

/// What a pagination request says.
pub enum PaginationModel {
    ByKey { key: Seq<u8>, limit: nat },
    ByOffset { offset: nat, limit: nat },
}

impl Pagination {
    /// What the request says.
    pub open spec fn view(&self) -> PaginationModel {
        match self {
            Pagination::ByKey { key, limit } => PaginationModel::ByKey {
                key: key@,
                limit: *limit as nat,
            },
            Pagination::ByOffset { offset, limit } => PaginationModel::ByOffset {
                offset: *offset as nat,
                limit: *limit as nat,
            },
        }
    }
}

/// What a request for a page says.
pub open spec fn request_model(r: PaginationRequest) -> PaginationModel {
    match r.kind {
        PaginationKind::Key { key } => PaginationModel::ByKey {
            key: vec1_items(key),
            limit: r.limit as nat,
        },
        PaginationKind::Offset { offset } => PaginationModel::ByOffset {
            offset: if offset * r.limit <= u32::MAX {
                (offset * r.limit) as nat
            } else {
                usize::MAX as nat
            },
            limit: r.limit as nat,
        },
    }
}

impl PaginationRequest {
    /// The request in terms of items: a page that is asked for by its
    /// number starts behind that number of full pages, or, where that is
    /// more than 32 bits can count, behind all items.
    pub fn into_pagination(self) -> (p: Pagination)
        ensures
            p@ == request_model(self),
    {
        let limit = self.limit;
        match self.kind {
            PaginationKind::Key { key } => Pagination::ByKey {
                key: vec1_into_vec(key),
                limit: limit as usize,
            },
            PaginationKind::Offset { offset } => {
                assert(offset * limit <= 0xffff_ffff * 0xff) by (nonlinear_arith)
                    requires
                        0 <= offset <= 0xffff_ffff,
                        0 <= limit <= 0xff,
                ;
                let wide: u64 = offset as u64 * limit as u64;
                let offset: usize = if wide <= u32::MAX as u64 {
                    wide as usize
                } else {
                    usize::MAX
                };
                Pagination::ByOffset { offset, limit: limit as usize }
            },
        }
    }

    /// The request that a request from the wire stands for: by key where
    /// a key is given, else by number; numbers that are too large are cut
    /// to the largest that fit.
    pub fn from_page_request(r: PageRequest) -> (p: PaginationRequest)
        ensures
            p.limit == if r.limit <= u8::MAX { r.limit } else { u8::MAX as u64 },
            match p.kind {
                PaginationKind::Key { key } => r.key@.len() > 0 && vec1_items(key) == r.key@,
                PaginationKind::Offset { offset } => r.key@.len() == 0 && offset == if r.offset
                    <= u32::MAX { r.offset } else { u32::MAX as u64 },
            },
    {
        let limit: u8 = if r.limit <= u8::MAX as u64 { r.limit as u8 } else { u8::MAX };
        let offset: u32 = if r.offset <= u32::MAX as u64 { r.offset as u32 } else { u32::MAX };
        let kind = match vec1_try_from_vec(r.key) {
            Some(key) => PaginationKind::Key { key },
            None => PaginationKind::Offset { offset },
        };
        PaginationRequest { kind, limit }
    }

    /// The request as it goes over the wire.
    pub fn into_page_request(self) -> (r: PageRequest)
        ensures
            r.limit == self.limit,
            !r.count_total,
            !r.reverse,
            match self.kind {
                PaginationKind::Key { key } => r.key@ == vec1_items(key) && r.offset == 0,
                PaginationKind::Offset { offset } => r.key@.len() == 0 && r.offset == offset,
            },
    {
        let limit = self.limit as u64;
        match self.kind {
            PaginationKind::Key { key } => PageRequest {
                key: vec1_into_vec(key),
                offset: 0,
                limit,
                count_total: false,
                reverse: false,
            },
            PaginationKind::Offset { offset } => PageRequest {
                key: Vec::new(),
                offset: offset as u64,
                limit,
                count_total: false,
                reverse: false,
            },
        }
    }
}

/// What comes with a page: the key of the item behind it, empty where
/// there is none, and the number of all items.
#[derive(Debug, PartialEq, Eq)]
pub struct PaginationResponse {
    pub next_key: Vec<u8>,
    pub total: u64,
}

impl PaginationResponse {
    /// The response with the given total and next key.
    pub fn new(total: usize, key: Vec<u8>) -> (r: PaginationResponse)
        ensures
            r.next_key@ == key@,
            r.total == total,
    {
        PaginationResponse { next_key: key, total: total as u64 }
    }
}

/// The place of the first key in `keys` that is `key`, or their number
/// where none is.
pub open spec fn first_index_of(keys: Seq<Seq<u8>>, key: Seq<u8>) -> nat
    decreases keys.len(),
{
    if keys.len() == 0 {
        0
    } else if keys[0] == key {
        0
    } else {
        1 + first_index_of(keys.drop_first(), key)
    }
}

/// Where the page that `p` asks for starts among `n` items with the keys
/// `keys`.
pub open spec fn page_start(keys: Seq<Seq<u8>>, p: PaginationModel) -> nat {
    match p {
        PaginationModel::ByKey { key, .. } => first_index_of(keys, key),
        PaginationModel::ByOffset { offset, .. } => if offset <= keys.len() {
            offset
        } else {
            keys.len()
        },
    }
}

/// Where the page that `p` asks for ends among the items with the keys
/// `keys`: behind its last item.
pub open spec fn page_end(keys: Seq<Seq<u8>>, p: PaginationModel) -> nat {
    let start = page_start(keys, p);
    let limit = match p {
        PaginationModel::ByKey { limit, .. } => limit,
        PaginationModel::ByOffset { limit, .. } => limit,
    };
    if start + limit <= keys.len() {
        start + limit
    } else {
        keys.len()
    }
}

/// A page of a list of items: the places where it starts and ends, and
/// what comes with it.
#[derive(Debug, PartialEq, Eq)]
pub struct Page {
    pub start: usize,
    pub end: usize,
    pub response: PaginationResponse,
}

proof fn lemma_first_index(keys: Seq<Seq<u8>>, key: Seq<u8>, n: int)
    requires
        0 <= n <= keys.len(),
        forall|j: int| 0 <= j < n ==> keys[j] != key,
        n < keys.len() ==> keys[n] == key,
    ensures
        first_index_of(keys, key) == n,
    decreases keys.len(),
{
    if keys.len() == 0 || keys[0] == key {
    } else {
        let rest = keys.drop_first();
        assert forall|j: int| 0 <= j < n - 1 implies rest[j] != key by {
            assert(rest[j] == keys[j + 1]);
        }
        lemma_first_index(rest, key, n - 1);
    }
}

/// The page that `pagination` asks for of items with the keys `keys`, in
/// their order: the page holds the items from `start` to before `end`;
/// the next key is that of the item at `end`, if there is one.
pub fn paginate(keys: &Vec<Vec<u8>>, pagination: &Pagination) -> (page: Page)
    ensures
        page.start == page_start(key_models(keys@), pagination@),
        page.end == page_end(key_models(keys@), pagination@),
        page.start <= page.end <= keys@.len(),
        page.response.total == keys@.len(),
        page.response.next_key@ == if page.end < keys@.len() {
            keys@[page.end as int]@
        } else {
            Seq::<u8>::empty()
        },
{
    let n = keys.len();
    let (start, limit): (usize, usize) = match pagination {
        Pagination::ByKey { key, limit } => {
            let mut i: usize = 0;
            while i < n && !bytes_eq(keys[i].as_slice(), key.as_slice())
                invariant
                    n == keys@.len(),
                    0 <= i <= n,
                    forall|j: int| 0 <= j < i ==> key_models(keys@)[j] != key@,
                decreases n - i,
            {
                i = i + 1;
            }
            proof {
                lemma_first_index(key_models(keys@), key@, i as int);
            }
            (i, *limit)
        },
        Pagination::ByOffset { offset, limit } => {
            (if *offset <= n { *offset } else { n }, *limit)
        },
    };
    let end: usize = if limit <= n - start { start + limit } else { n };
    let next_key = if end < n { copy_bytes(keys[end].as_slice()) } else { Vec::new() };
    Page { start, end, response: PaginationResponse::new(n, next_key) }
}

} // verus!
