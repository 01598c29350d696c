//! What a version of an object holds: its metadata and its data, how these
//! compare, and how they are copied.
use vstd::prelude::*;

use crate::bytes::{
    bool_order, bytes_order, compare_bytes, compare_str, int_order, lemma_bytes_order_antisym,
    lemma_str_order_antisym, lex, str_order,
};

verus! {

broadcast use vstd::std_specs::vec::group_vec_axioms, vstd::array::group_array_axioms;

/// A list of headers, as (name, value) pairs.
pub type HeaderList = Vec<(String, String)>;

#[derive(Clone, Copy, Debug, PartialEq, Eq)]
pub enum ChecksumAlgorithm {
    Crc32,
    Crc32c,
    Crc64Nvme,
    Sha1,
    Sha256,
}

#[derive(Clone, Copy, Debug, PartialEq, Eq)]
pub enum ChecksumType {
    FullObject,
    Composite,
}

/// Checksum value for x-amz-checksum-algorithm
#[derive(Clone, Copy, Debug, PartialEq, Eq)]
pub enum ChecksumValue {
    Crc32([u8; 4]),
    Crc32c([u8; 4]),
    Crc64Nvme([u8; 8]),
    Sha1([u8; 20]),
    Sha256([u8; 32]),
}

impl ChecksumValue {
    /// The algorithm that computes this checksum.
    pub fn algorithm(&self) -> (r: ChecksumAlgorithm)
        ensures
            r == checksum_algorithm(*self),
    {
        match self {
            ChecksumValue::Crc32(_) => ChecksumAlgorithm::Crc32,
            ChecksumValue::Crc32c(_) => ChecksumAlgorithm::Crc32c,
            ChecksumValue::Crc64Nvme(_) => ChecksumAlgorithm::Crc64Nvme,
            ChecksumValue::Sha1(_) => ChecksumAlgorithm::Sha1,
            ChecksumValue::Sha256(_) => ChecksumAlgorithm::Sha256,
        }
    }
}

pub open spec fn checksum_algorithm(c: ChecksumValue) -> ChecksumAlgorithm {
    match c {
        ChecksumValue::Crc32(_) => ChecksumAlgorithm::Crc32,
        ChecksumValue::Crc32c(_) => ChecksumAlgorithm::Crc32c,
        ChecksumValue::Crc64Nvme(_) => ChecksumAlgorithm::Crc64Nvme,
        ChecksumValue::Sha1(_) => ChecksumAlgorithm::Sha1,
        ChecksumValue::Sha256(_) => ChecksumAlgorithm::Sha256,
    }
}

/// Headers and checksum of an object version, as stored in plain text
#[derive(Clone, Debug, PartialEq, Eq)]
pub struct ObjectVersionMetaInner {
    pub headers: HeaderList,
    pub checksum: Option<ChecksumValue>,
    pub checksum_type: Option<ChecksumType>,
}

/// Encryption information + metadata
#[derive(Clone, Debug, PartialEq, Eq)]
pub enum ObjectVersionEncryption {
    SseC {
        /// Encrypted serialized `ObjectVersionMetaInner` struct.
        inner: Vec<u8>,
        /// Whether data blocks are compressed in addition to being encrypted
        compressed: bool,
        /// Whether the encryption uses an Object Encryption Key derived from
        /// the master SSE-C key
        use_oek: bool,
    },
    Plaintext {
        /// Plain-text headers
        inner: ObjectVersionMetaInner,
    },
}

/// Metadata about the object version
#[derive(Clone, Debug, PartialEq, Eq)]
pub struct ObjectVersionMeta {
    /// Size of the object, before encryption or compression
    pub size: u64,
    /// etag of the object
    pub etag: String,
    /// Encryption params + headers (encrypted or plaintext)
    pub encryption: ObjectVersionEncryption,
}

/// Data stored in object version
#[derive(Clone, Debug, PartialEq, Eq)]
pub enum ObjectVersionData {
    /// The object was deleted, this version is a tombstone to mark it as such
    DeleteMarker,
    /// The object is short, it's stored inlined.
    Inline(ObjectVersionMeta, Vec<u8>),
    /// The object is not short, Hash of first block is stored here, next
    /// segments hashes are stored in the version table
    FirstBlock(ObjectVersionMeta, crate::bytes::Hash),
}

// ---- Mathematical values of these types ----

pub struct MetaInnerView {
    pub headers: Seq<(Seq<char>, Seq<char>)>,
    pub checksum: Option<ChecksumValue>,
    pub checksum_type: Option<ChecksumType>,
}

pub enum EncryptionView {
    SseC { inner: Seq<u8>, compressed: bool, use_oek: bool },
    Plaintext { inner: MetaInnerView },
}

pub struct MetaView {
    pub size: u64,
    pub etag: Seq<char>,
    pub encryption: EncryptionView,
}

pub enum DataView {
    DeleteMarker,
    Inline(MetaView, Seq<u8>),
    FirstBlock(MetaView, crate::bytes::Hash),
}

pub open spec fn header_view(h: (String, String)) -> (Seq<char>, Seq<char>) {
    (h.0@, h.1@)
}

impl View for ObjectVersionMetaInner {
    type V = MetaInnerView;

    open spec fn view(&self) -> MetaInnerView {
        MetaInnerView {
            headers: self.headers@.map_values(|h: (String, String)| header_view(h)),
            checksum: self.checksum,
            checksum_type: self.checksum_type,
        }
    }
}

impl View for ObjectVersionEncryption {
    type V = EncryptionView;

    open spec fn view(&self) -> EncryptionView {
        match self {
            ObjectVersionEncryption::SseC { inner, compressed, use_oek } => EncryptionView::SseC {
                inner: inner@,
                compressed: *compressed,
                use_oek: *use_oek,
            },
            ObjectVersionEncryption::Plaintext { inner } => EncryptionView::Plaintext {
                inner: inner@,
            },
        }
    }
}

impl View for ObjectVersionMeta {
    type V = MetaView;

    open spec fn view(&self) -> MetaView {
        MetaView { size: self.size, etag: self.etag@, encryption: self.encryption@ }
    }
}

impl View for ObjectVersionData {
    type V = DataView;

    open spec fn view(&self) -> DataView {
        match self {
            ObjectVersionData::DeleteMarker => DataView::DeleteMarker,
            ObjectVersionData::Inline(meta, data) => DataView::Inline(meta@, data@),
            ObjectVersionData::FirstBlock(meta, hash) => DataView::FirstBlock(meta@, *hash),
        }
    }
}

/// The size of the data of a version, if it holds any.
pub open spec fn data_size(d: DataView) -> Option<u64> {
    match d {
        DataView::DeleteMarker => None,
        DataView::Inline(meta, _) => Some(meta.size),
        DataView::FirstBlock(meta, _) => Some(meta.size),
    }
}

// ---- Copies ----

impl ObjectVersionMetaInner {
    /// A copy of these headers and checksum.
    pub fn copy(&self) -> (r: Self)
        ensures
            r@ == self@,
    {
        let mut headers: Vec<(String, String)> = Vec::new();
        let mut i: usize = 0;
        while i < self.headers.len()
            invariant
                i <= self.headers@.len(),
                headers@.len() == i,
                forall|k: int|
                    0 <= k < i ==> header_view(#[trigger] headers@[k]) == header_view(
                        self.headers@[k],
                    ),
            decreases self.headers@.len() - i,
        {
            let h = &self.headers[i];
            headers.push((h.0.clone(), h.1.clone()));
            i = i + 1;
        }
        let r = ObjectVersionMetaInner {
            headers,
            checksum: self.checksum,
            checksum_type: self.checksum_type,
        };
        assert(r@.headers =~= self@.headers);
        r
    }
}

impl ObjectVersionEncryption {
    /// A copy of this encryption information.
    pub fn copy(&self) -> (r: Self)
        ensures
            r@ == self@,
    {
        match self {
            ObjectVersionEncryption::SseC { inner, compressed, use_oek } => {
                let r = ObjectVersionEncryption::SseC {
                    inner: inner.clone(),
                    compressed: *compressed,
                    use_oek: *use_oek,
                };
                assert(r@ == self@);
                r
            },
            ObjectVersionEncryption::Plaintext { inner } => ObjectVersionEncryption::Plaintext {
                inner: inner.copy(),
            },
        }
    }
}

impl ObjectVersionMeta {
    /// A copy of this metadata.
    pub fn copy(&self) -> (r: Self)
        ensures
            r@ == self@,
    {
        ObjectVersionMeta {
            size: self.size,
            etag: self.etag.clone(),
            encryption: self.encryption.copy(),
        }
    }
}

impl ObjectVersionData {
    /// A copy of this data.
    pub fn copy(&self) -> (r: Self)
        ensures
            r@ == self@,
    {
        match self {
            ObjectVersionData::DeleteMarker => ObjectVersionData::DeleteMarker,
            ObjectVersionData::Inline(meta, data) => {
                let d = data.clone();
                assert(d@ =~= data@);
                ObjectVersionData::Inline(meta.copy(), d)
            },
            ObjectVersionData::FirstBlock(meta, hash) => ObjectVersionData::FirstBlock(
                meta.copy(),
                *hash,
            ),
        }
    }
}

// ---- Ordering ----
//
// These orders are those of the declarations above, field by field and
// variant by variant, as a derived `Ord` would define them. When two replicas
// of a version disagree on its data, the greatest wins.

pub open spec fn checksum_algorithm_index(c: ChecksumValue) -> int {
    match c {
        ChecksumValue::Crc32(_) => 0,
        ChecksumValue::Crc32c(_) => 1,
        ChecksumValue::Crc64Nvme(_) => 2,
        ChecksumValue::Sha1(_) => 3,
        ChecksumValue::Sha256(_) => 4,
    }
}

pub open spec fn checksum_bytes(c: ChecksumValue) -> Seq<u8> {
    match c {
        ChecksumValue::Crc32(b) => b@,
        ChecksumValue::Crc32c(b) => b@,
        ChecksumValue::Crc64Nvme(b) => b@,
        ChecksumValue::Sha1(b) => b@,
        ChecksumValue::Sha256(b) => b@,
    }
}

pub open spec fn checksum_order(a: ChecksumValue, b: ChecksumValue) -> int {
    lex(
        int_order(checksum_algorithm_index(a), checksum_algorithm_index(b)),
        bytes_order(checksum_bytes(a), checksum_bytes(b)),
    )
}

pub open spec fn opt_checksum_order(a: Option<ChecksumValue>, b: Option<ChecksumValue>) -> int {
    match (a, b) {
        (None, None) => 0,
        (None, Some(_)) => -1,
        (Some(_), None) => 1,
        (Some(x), Some(y)) => checksum_order(x, y),
    }
}

pub open spec fn checksum_type_index(t: Option<ChecksumType>) -> int {
    match t {
        None => 0,
        Some(ChecksumType::FullObject) => 1,
        Some(ChecksumType::Composite) => 2,
    }
}

pub open spec fn header_order(a: (Seq<char>, Seq<char>), b: (Seq<char>, Seq<char>)) -> int {
    lex(str_order(a.0, b.0), str_order(a.1, b.1))
}

pub open spec fn headers_order(
    a: Seq<(Seq<char>, Seq<char>)>,
    b: Seq<(Seq<char>, Seq<char>)>,
) -> int
    decreases a.len(),
{
    if a.len() == 0 {
        if b.len() == 0 {
            0
        } else {
            -1
        }
    } else if b.len() == 0 {
        1
    } else if header_order(a[0], b[0]) != 0 {
        header_order(a[0], b[0])
    } else {
        headers_order(a.drop_first(), b.drop_first())
    }
}

pub open spec fn meta_inner_order(a: MetaInnerView, b: MetaInnerView) -> int {
    lex(
        headers_order(a.headers, b.headers),
        lex(
            opt_checksum_order(a.checksum, b.checksum),
            int_order(checksum_type_index(a.checksum_type), checksum_type_index(b.checksum_type)),
        ),
    )
}

pub open spec fn encryption_order(a: EncryptionView, b: EncryptionView) -> int {
    match (a, b) {
        (
            EncryptionView::SseC { inner: i1, compressed: c1, use_oek: o1 },
            EncryptionView::SseC { inner: i2, compressed: c2, use_oek: o2 },
        ) => lex(bytes_order(i1, i2), lex(bool_order(c1, c2), bool_order(o1, o2))),
        (EncryptionView::SseC { .. }, EncryptionView::Plaintext { .. }) => -1,
        (EncryptionView::Plaintext { .. }, EncryptionView::SseC { .. }) => 1,
        (EncryptionView::Plaintext { inner: x }, EncryptionView::Plaintext { inner: y }) => {
            meta_inner_order(x, y)
        },
    }
}

pub open spec fn meta_order(a: MetaView, b: MetaView) -> int {
    lex(
        int_order(a.size as int, b.size as int),
        lex(str_order(a.etag, b.etag), encryption_order(a.encryption, b.encryption)),
    )
}

pub open spec fn data_order(a: DataView, b: DataView) -> int {
    match (a, b) {
        (DataView::DeleteMarker, DataView::DeleteMarker) => 0,
        (DataView::DeleteMarker, _) => -1,
        (_, DataView::DeleteMarker) => 1,
        (DataView::Inline(m1, d1), DataView::Inline(m2, d2)) => lex(
            meta_order(m1, m2),
            bytes_order(d1, d2),
        ),
        (DataView::Inline(..), DataView::FirstBlock(..)) => -1,
        (DataView::FirstBlock(..), DataView::Inline(..)) => 1,
        (DataView::FirstBlock(m1, h1), DataView::FirstBlock(m2, h2)) => lex(
            meta_order(m1, m2),
            bytes_order(h1.bytes@, h2.bytes@),
        ),
    }
}

// ---- The order is total ----

proof fn lemma_checksum_order(a: ChecksumValue, b: ChecksumValue)
    ensures
        checksum_order(a, b) == -checksum_order(b, a),
        -1 <= checksum_order(a, b) <= 1,
        checksum_order(a, b) == 0 <==> a == b,
{
    lemma_bytes_order_antisym(checksum_bytes(a), checksum_bytes(b));
    if checksum_order(a, b) == 0 {
        match (a, b) {
            (ChecksumValue::Crc32(x), ChecksumValue::Crc32(y)) => assert(x =~= y),
            (ChecksumValue::Crc32c(x), ChecksumValue::Crc32c(y)) => assert(x =~= y),
            (ChecksumValue::Crc64Nvme(x), ChecksumValue::Crc64Nvme(y)) => assert(x =~= y),
            (ChecksumValue::Sha1(x), ChecksumValue::Sha1(y)) => assert(x =~= y),
            (ChecksumValue::Sha256(x), ChecksumValue::Sha256(y)) => assert(x =~= y),
            _ => {},
        }
    }
}

proof fn lemma_header_order(a: (Seq<char>, Seq<char>), b: (Seq<char>, Seq<char>))
    ensures
        header_order(a, b) == -header_order(b, a),
        -1 <= header_order(a, b) <= 1,
        header_order(a, b) == 0 <==> a == b,
{
    lemma_str_order_antisym(a.0, b.0);
    lemma_str_order_antisym(a.1, b.1);
}

proof fn lemma_headers_order(a: Seq<(Seq<char>, Seq<char>)>, b: Seq<(Seq<char>, Seq<char>)>)
    ensures
        headers_order(a, b) == -headers_order(b, a),
        -1 <= headers_order(a, b) <= 1,
        headers_order(a, b) == 0 <==> a == b,
    decreases a.len(),
{
    if a.len() == 0 && b.len() == 0 {
        assert(a =~= b);
    }
    if a.len() > 0 && b.len() > 0 {
        lemma_header_order(a[0], b[0]);
        lemma_headers_order(a.drop_first(), b.drop_first());
        if headers_order(a, b) == 0 {
            assert forall|i: int| 0 <= i < a.len() implies a[i] == b[i] by {
                if i > 0 {
                    assert(a[i] == a.drop_first()[i - 1]);
                    assert(b[i] == b.drop_first()[i - 1]);
                }
            }
            assert(a =~= b);
        }
        if a == b {
            assert(a.drop_first() == b.drop_first());
        }
    }
}

proof fn lemma_meta_inner_order(a: MetaInnerView, b: MetaInnerView)
    ensures
        meta_inner_order(a, b) == -meta_inner_order(b, a),
        -1 <= meta_inner_order(a, b) <= 1,
        meta_inner_order(a, b) == 0 <==> a == b,
{
    lemma_headers_order(a.headers, b.headers);
    match (a.checksum, b.checksum) {
        (Some(x), Some(y)) => lemma_checksum_order(x, y),
        _ => {},
    }
}

proof fn lemma_encryption_order(a: EncryptionView, b: EncryptionView)
    ensures
        encryption_order(a, b) == -encryption_order(b, a),
        -1 <= encryption_order(a, b) <= 1,
        encryption_order(a, b) == 0 <==> a == b,
{
    match (a, b) {
        (
            EncryptionView::SseC { inner: i1, .. },
            EncryptionView::SseC { inner: i2, .. },
        ) => lemma_bytes_order_antisym(i1, i2),
        (EncryptionView::Plaintext { inner: x }, EncryptionView::Plaintext { inner: y }) => {
            lemma_meta_inner_order(x, y)
        },
        _ => {},
    }
}

proof fn lemma_meta_order(a: MetaView, b: MetaView)
    ensures
        meta_order(a, b) == -meta_order(b, a),
        -1 <= meta_order(a, b) <= 1,
        meta_order(a, b) == 0 <==> a == b,
{
    lemma_str_order_antisym(a.etag, b.etag);
    lemma_encryption_order(a.encryption, b.encryption);
}

/// The order on version data is total: when two replicas disagree, the same
/// one wins whichever is merged into the other.
pub proof fn lemma_data_order(a: DataView, b: DataView)
    ensures
        data_order(a, b) == -data_order(b, a),
        -1 <= data_order(a, b) <= 1,
        data_order(a, b) == 0 <==> a == b,
{
    match (a, b) {
        (DataView::Inline(m1, d1), DataView::Inline(m2, d2)) => {
            lemma_meta_order(m1, m2);
            lemma_bytes_order_antisym(d1, d2);
        },
        (DataView::FirstBlock(m1, h1), DataView::FirstBlock(m2, h2)) => {
            lemma_meta_order(m1, m2);
            lemma_bytes_order_antisym(h1.bytes@, h2.bytes@);
            if h1.bytes@ == h2.bytes@ {
                assert(h1.bytes =~= h2.bytes);
            }
        },
        _ => {},
    }
}

// ---- Comparisons ----

fn compare_u64(a: u64, b: u64) -> (r: i8)
    ensures
        r as int == int_order(a as int, b as int),
{
    if a < b {
        -1
    } else if a > b {
        1
    } else {
        0
    }
}

fn compare_bool(a: bool, b: bool) -> (r: i8)
    ensures
        r as int == bool_order(a, b),
{
    if a == b {
        0
    } else if b {
        -1
    } else {
        1
    }
}

fn checksum_slice(c: &ChecksumValue) -> (r: &[u8])
    ensures
        r@ == checksum_bytes(*c),
{
    match c {
        ChecksumValue::Crc32(b) => b.as_slice(),
        ChecksumValue::Crc32c(b) => b.as_slice(),
        ChecksumValue::Crc64Nvme(b) => b.as_slice(),
        ChecksumValue::Sha1(b) => b.as_slice(),
        ChecksumValue::Sha256(b) => b.as_slice(),
    }
}

fn checksum_index(c: &ChecksumValue) -> (r: u64)
    ensures
        r as int == checksum_algorithm_index(*c),
{
    match c {
        ChecksumValue::Crc32(_) => 0,
        ChecksumValue::Crc32c(_) => 1,
        ChecksumValue::Crc64Nvme(_) => 2,
        ChecksumValue::Sha1(_) => 3,
        ChecksumValue::Sha256(_) => 4,
    }
}

fn compare_checksum(a: &Option<ChecksumValue>, b: &Option<ChecksumValue>) -> (r: i8)
    ensures
        r as int == opt_checksum_order(*a, *b),
{
    match (a, b) {
        (None, None) => 0,
        (None, Some(_)) => -1,
        (Some(_), None) => 1,
        (Some(x), Some(y)) => {
            let c = compare_u64(checksum_index(x), checksum_index(y));
            if c != 0 {
                c
            } else {
                compare_bytes(checksum_slice(x), checksum_slice(y))
            }
        },
    }
}

fn checksum_type_number(t: &Option<ChecksumType>) -> (r: u64)
    ensures
        r as int == checksum_type_index(*t),
{
    match t {
        None => 0,
        Some(ChecksumType::FullObject) => 1,
        Some(ChecksumType::Composite) => 2,
    }
}

fn compare_header(a: &(String, String), b: &(String, String)) -> (r: i8)
    ensures
        r as int == header_order(header_view(*a), header_view(*b)),
{
    let c = compare_str(a.0.as_str(), b.0.as_str());
    if c != 0 {
        c
    } else {
        compare_str(a.1.as_str(), b.1.as_str())
    }
}

proof fn lemma_headers_order_skip(
    a: Seq<(Seq<char>, Seq<char>)>,
    b: Seq<(Seq<char>, Seq<char>)>,
    i: int,
)
    requires
        0 <= i < a.len(),
        i < b.len(),
        header_order(a[i], b[i]) == 0,
    ensures
        headers_order(a.skip(i), b.skip(i)) == headers_order(a.skip(i + 1), b.skip(i + 1)),
{
    assert(a.skip(i).drop_first() =~= a.skip(i + 1));
    assert(b.skip(i).drop_first() =~= b.skip(i + 1));
}

fn compare_headers(a: &HeaderList, b: &HeaderList) -> (r: i8)
    ensures
        r as int == headers_order(
            a@.map_values(|h: (String, String)| header_view(h)),
            b@.map_values(|h: (String, String)| header_view(h)),
        ),
{
    let ghost va = a@.map_values(|h: (String, String)| header_view(h));
    let ghost vb = b@.map_values(|h: (String, String)| header_view(h));
    let mut i: usize = 0;
    assert(va.skip(0) =~= va);
    assert(vb.skip(0) =~= vb);
    while i < a.len() && i < b.len()
        invariant
            va == a@.map_values(|h: (String, String)| header_view(h)),
            vb == b@.map_values(|h: (String, String)| header_view(h)),
            i <= a@.len(),
            i <= b@.len(),
            headers_order(va, vb) == headers_order(va.skip(i as int), vb.skip(i as int)),
        decreases a@.len() - i,
    {
        let c = compare_header(&a[i], &b[i]);
        assert(va.skip(i as int)[0] == va[i as int]);
        assert(vb.skip(i as int)[0] == vb[i as int]);
        if c != 0 {
            return c;
        }
        proof {
            lemma_headers_order_skip(va, vb, i as int);
        }
        i = i + 1;
    }
    if i < a.len() {
        1
    } else if i < b.len() {
        -1
    } else {
        0
    }
}

fn compare_meta_inner(a: &ObjectVersionMetaInner, b: &ObjectVersionMetaInner) -> (r: i8)
    ensures
        r as int == meta_inner_order(a@, b@),
{
    let c = compare_headers(&a.headers, &b.headers);
    if c != 0 {
        return c;
    }
    let c = compare_checksum(&a.checksum, &b.checksum);
    if c != 0 {
        return c;
    }
    compare_u64(checksum_type_number(&a.checksum_type), checksum_type_number(&b.checksum_type))
}

fn compare_encryption(a: &ObjectVersionEncryption, b: &ObjectVersionEncryption) -> (r: i8)
    ensures
        r as int == encryption_order(a@, b@),
{
    match (a, b) {
        (
            ObjectVersionEncryption::SseC { inner: i1, compressed: c1, use_oek: o1 },
            ObjectVersionEncryption::SseC { inner: i2, compressed: c2, use_oek: o2 },
        ) => {
            let c = compare_bytes(i1.as_slice(), i2.as_slice());
            if c != 0 {
                return c;
            }
            let c = compare_bool(*c1, *c2);
            if c != 0 {
                return c;
            }
            compare_bool(*o1, *o2)
        },
        (ObjectVersionEncryption::SseC { .. }, ObjectVersionEncryption::Plaintext { .. }) => -1,
        (ObjectVersionEncryption::Plaintext { .. }, ObjectVersionEncryption::SseC { .. }) => 1,
        (
            ObjectVersionEncryption::Plaintext { inner: x },
            ObjectVersionEncryption::Plaintext { inner: y },
        ) => compare_meta_inner(x, y),
    }
}

fn compare_meta(a: &ObjectVersionMeta, b: &ObjectVersionMeta) -> (r: i8)
    ensures
        r as int == meta_order(a@, b@),
{
    let c = compare_u64(a.size, b.size);
    if c != 0 {
        return c;
    }
    let c = compare_str(a.etag.as_str(), b.etag.as_str());
    if c != 0 {
        return c;
    }
    compare_encryption(&a.encryption, &b.encryption)
}

/// Compare the data of two versions.
pub fn compare_data(a: &ObjectVersionData, b: &ObjectVersionData) -> (r: i8)
    ensures
        r as int == data_order(a@, b@),
{
    match (a, b) {
        (ObjectVersionData::DeleteMarker, ObjectVersionData::DeleteMarker) => 0,
        (ObjectVersionData::DeleteMarker, _) => -1,
        (_, ObjectVersionData::DeleteMarker) => 1,
        (ObjectVersionData::Inline(m1, d1), ObjectVersionData::Inline(m2, d2)) => {
            let c = compare_meta(m1, m2);
            if c != 0 {
                c
            } else {
                compare_bytes(d1.as_slice(), d2.as_slice())
            }
        },
        (ObjectVersionData::Inline(..), ObjectVersionData::FirstBlock(..)) => -1,
        (ObjectVersionData::FirstBlock(..), ObjectVersionData::Inline(..)) => 1,
        (ObjectVersionData::FirstBlock(m1, h1), ObjectVersionData::FirstBlock(m2, h2)) => {
            let c = compare_meta(m1, m2);
            if c != 0 {
                c
            } else {
                compare_bytes(h1.as_slice(), h2.as_slice())
            }
        },
    }
}

} // verus!
