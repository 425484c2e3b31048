//! Distributed transactions across shards: a two-phase commit coordinator, the
//! rules by which a shard votes, commits and rolls back, and the routing of
//! keys to shards.

use crate::batching;
use crate::batching::env_usize;
use crate::clock::fresh_id;
use crate::strmap::StrMap;
use crate::text;
use crate::text::{decimal_text, joined, numbered};
use vstd::prelude::*;
use vstd::string::*;

verus! {

/// A routing key used to determine which shard owns a piece of data.
#[derive(Debug, PartialEq, Eq, Hash)]
pub struct ShardKey(pub String);

/// The offset basis of the key hash.
pub const HASH_BASIS: u64 = 14_695_981_039_346_656_037;

/// The multiplier of the key hash.
pub const HASH_PRIME: u64 = 1_099_511_628_211;

/// The hash of some bytes: each step multiplies by the prime and adds the next
/// byte, in 64 bits.
pub open spec fn key_hash(bytes: Seq<u8>) -> u64
    decreases bytes.len(),
{
    if bytes.len() == 0 {
        HASH_BASIS
    } else {
        let before = key_hash(bytes.drop_last());
        ((((before * HASH_PRIME) % 0x1_0000_0000_0000_0000) + bytes.last())
            % 0x1_0000_0000_0000_0000) as u64
    }
}

/// The shard that owns a key among `total_shards`.
pub open spec fn owner_of(key: Seq<char>, total_shards: usize) -> usize {
    if total_shards == 0 {
        0
    } else {
        (key_hash(vstd::utf8::encode_utf8(key)) as int % total_shards as int) as usize
    }
}

impl Clone for ShardKey {
    fn clone(&self) -> (r: Self)
        ensures
            r == *self,
    {
        ShardKey(self.0.clone())
    }
}

impl ShardKey {
    /// A key.
    pub fn new(s: &str) -> (r: Self)
        ensures
            r.0@ == s@,
    {
        ShardKey(s.to_owned())
    }

    /// Map this key to a shard index given `total_shards`.
    pub fn shard_index(&self, total_shards: usize) -> (r: usize)
        ensures
            r == owner_of(self.0@, total_shards),
            total_shards > 0 ==> r < total_shards,
    {
        if total_shards == 0 {
            return 0;
        }
        let bytes = self.0.as_str().as_bytes();
        let mut hash: u64 = HASH_BASIS;
        let mut i: usize = 0;
        assert(key_hash(bytes@.take(0)) == HASH_BASIS);
        while i < bytes.len()
            invariant
                i <= bytes@.len(),
                hash == key_hash(bytes@.take(i as int)),
            decreases bytes@.len() - i,
        {
            proof {
                let longer = bytes@.take(i + 1);
                assert(longer.drop_last() =~= bytes@.take(i as int));
                assert(longer.last() == bytes@[i as int]);
                assert(hash * HASH_PRIME <= u64::MAX * HASH_PRIME) by (nonlinear_arith)
                    requires
                        hash <= u64::MAX,
                ;
            }
            let product: u128 = (hash as u128 * HASH_PRIME as u128) % 0x1_0000_0000_0000_0000;
            hash = ((product + bytes[i] as u128) % 0x1_0000_0000_0000_0000) as u64;
            i += 1;
        }
        assert(bytes@.take(i as int) =~= bytes@);
        (hash as u128 % total_shards as u128) as usize
    }
}

/// A single unit of work to be applied within a distributed transaction.
#[derive(Debug)]
pub enum Operation {
    /// Insert or replace a key-value pair.
    Put { shard_key: String, value: String },
    /// Delete a key-value pair.
    Delete { shard_key: String },
    /// Execute arbitrary SQL.
    RawSql { sql: String },
}

impl Clone for Operation {
    fn clone(&self) -> (r: Self)
        ensures
            r == *self,
    {
        match self {
            Operation::Put { shard_key, value } => Operation::Put {
                shard_key: shard_key.clone(),
                value: value.clone(),
            },
            Operation::Delete { shard_key } => Operation::Delete { shard_key: shard_key.clone() },
            Operation::RawSql { sql } => Operation::RawSql { sql: sql.clone() },
        }
    }
}

/// What an operation does.
pub enum OpModel {
    Put { shard_key: Seq<char>, value: Seq<char> },
    Delete { shard_key: Seq<char> },
    RawSql { sql: Seq<char> },
}

impl View for Operation {
    type V = OpModel;

    open spec fn view(&self) -> OpModel {
        match self {
            Operation::Put { shard_key, value } => OpModel::Put {
                shard_key: shard_key@,
                value: value@,
            },
            Operation::Delete { shard_key } => OpModel::Delete { shard_key: shard_key@ },
            Operation::RawSql { sql } => OpModel::RawSql { sql: sql@ },
        }
    }
}

/// What a list of operations does.
pub open spec fn ops_of(v: Seq<Operation>) -> Seq<OpModel> {
    Seq::new(v.len(), |i: int| v[i]@)
}

/// The key-value pairs after an operation; raw SQL is not described.
pub open spec fn applied(data: Map<Seq<char>, Seq<char>>, op: OpModel) -> Map<
    Seq<char>,
    Seq<char>,
> {
    match op {
        OpModel::Put { shard_key, value } => data.insert(shard_key, value),
        OpModel::Delete { shard_key } => data.remove(shard_key),
        OpModel::RawSql { .. } => data,
    }
}

/// The key-value pairs after operations in turn.
pub open spec fn applied_all(data: Map<Seq<char>, Seq<char>>, ops: Seq<OpModel>) -> Map<
    Seq<char>,
    Seq<char>,
>
    decreases ops.len(),
{
    if ops.len() == 0 {
        data
    } else {
        applied(applied_all(data, ops.drop_last()), ops.last())
    }
}

/// Whether none of the operations is raw SQL.
pub open spec fn described(ops: Seq<OpModel>) -> bool {
    forall|i: int| 0 <= i < ops.len() ==> !((#[trigger] ops[i]) is RawSql)
}

/// How a shard votes.
#[derive(Debug, Clone, Copy, PartialEq, Eq, Structural)]
pub enum Vote {
    /// Shard is ready to commit.
    Commit,
    /// Shard vetoes the transaction.
    Abort,
}

/// How a shard votes on a transaction: one that it has prepared or committed
/// before is a duplicate, which it refuses.
pub fn vote_on(prepared_before: bool, committed_before: bool) -> (r: Vote)
    ensures
        r == if prepared_before || committed_before {
            Vote::Abort
        } else {
            Vote::Commit
        },
{
    if prepared_before || committed_before {
        Vote::Abort
    } else {
        Vote::Commit
    }
}

/// How a distributed transaction ended.
#[derive(Debug, Clone, Copy, PartialEq, Eq, Structural)]
pub enum TxOutcome {
    Committed,
    RolledBack,
}

/// What can go wrong.
#[derive(Debug)]
pub enum DistributedTxError {
    /// A shard could not be reached.
    ShardUnavailable(usize, String),
    /// The transaction ID is unknown.
    TransactionNotFound(String),
    /// Serialization of operations failed.
    Serialization(String),
    /// An operation could not be applied.
    ApplyFailed(String),
}

impl DistributedTxError {
    /// The error in words.
    pub open spec fn message(self) -> Seq<char> {
        match self {
            DistributedTxError::ShardUnavailable(id, msg) => "shard "@ + text::decimal(id as nat)
                + " unavailable: "@ + msg@,
            DistributedTxError::TransactionNotFound(tx_id) => "transaction not found: "@ + tx_id@,
            DistributedTxError::Serialization(msg) => "serialization error: "@ + msg@,
            DistributedTxError::ApplyFailed(msg) => "apply failed: "@ + msg@,
        }
    }

    /// The error in words.
    pub fn to_string(&self) -> (r: String)
        ensures
            r@ == self.message(),
    {
        match self {
            DistributedTxError::ShardUnavailable(id, msg) => {
                let start = numbered("shard ", *id as u64, " unavailable: ");
                joined(start.as_str(), msg.as_str())
            },
            DistributedTxError::TransactionNotFound(tx_id) => joined(
                "transaction not found: ",
                tx_id.as_str(),
            ),
            DistributedTxError::Serialization(msg) => joined(
                "serialization error: ",
                msg.as_str(),
            ),
            DistributedTxError::ApplyFailed(msg) => joined("apply failed: ", msg.as_str()),
        }
    }
}

/// Whether an error says that a shard is out of reach for the given reason.
pub open spec fn unavailable(e: DistributedTxError, shard: usize, why: Seq<char>) -> bool {
    e is ShardUnavailable && e->ShardUnavailable_0 == shard && e->ShardUnavailable_1@ == why
}

/// What a shard holds.
#[verifier::ext_equal]
pub struct ShardModel {
    /// The operations of transactions that are prepared.
    pub prepared: Map<Seq<char>, Seq<OpModel>>,
    /// The transactions that were committed.
    pub committed: Set<Seq<char>>,
    /// The key-value pairs.
    pub data: Map<Seq<char>, Seq<char>>,
}

impl ShardModel {
    /// A shard that holds nothing.
    pub open spec fn empty() -> ShardModel {
        ShardModel { prepared: Map::empty(), committed: Set::empty(), data: Map::empty() }
    }

    /// Whether the shard has seen a transaction: it is prepared or committed.
    pub open spec fn knows(self, tx_id: Seq<char>) -> bool {
        self.prepared.contains_key(tx_id) || self.committed.contains(tx_id)
    }

    /// The shard with a transaction prepared.
    pub open spec fn with_prepared(self, tx_id: Seq<char>, ops: Seq<OpModel>) -> ShardModel {
        ShardModel { prepared: self.prepared.insert(tx_id, ops), ..self }
    }

    /// The shard with a prepared transaction discarded.
    pub open spec fn discarded(self, tx_id: Seq<char>) -> ShardModel {
        ShardModel { prepared: self.prepared.remove(tx_id), ..self }
    }

    /// Whether `after` is the shard with a prepared transaction committed. What
    /// raw SQL does to the key-value pairs is left open.
    pub open spec fn commits_to(self, after: ShardModel, tx_id: Seq<char>) -> bool {
        &&& self.prepared.contains_key(tx_id)
        &&& after.prepared == self.prepared.remove(tx_id)
        &&& after.committed == self.committed.insert(tx_id)
        &&& described(self.prepared[tx_id]) ==> after.data == applied_all(
            self.data,
            self.prepared[tx_id],
        )
    }
}

/// Whether `v` lists every key-value pair exactly once.
pub open spec fn lists_rows(v: Seq<(String, String)>, data: Map<Seq<char>, Seq<char>>) -> bool {
    &&& forall|i: int|
        0 <= i < v.len() ==> data.contains_key((#[trigger] v[i]).0@) && data[v[i].0@] == v[i].1@
    &&& forall|k: Seq<char>| #[trigger]
        data.contains_key(k) ==> exists|i: int| 0 <= i < v.len() && (#[trigger] v[i]).0@ == k
    &&& forall|i: int, j: int|
        0 <= i < j < v.len() ==> (#[trigger] v[i]).0@ != (#[trigger] v[j]).0@
}

/// A participant in the two-phase commit protocol.
pub trait Shard {
    /// What the shard holds.
    spec fn state(&self) -> ShardModel;

    /// Whether shards of this kind always answer.
    spec fn always_answers() -> bool;

    /// Phase 1: write the transaction's operations to the prepare log. A
    /// transaction that the shard has seen before is refused.
    fn prepare(&mut self, tx_id: &str, operations: &Vec<Operation>) -> (r: Result<
        Vote,
        DistributedTxError,
    >)
        ensures
            match r {
                Ok(Vote::Commit) => {
                    &&& !old(self).state().knows(tx_id@)
                    &&& final(self).state() == old(self).state().with_prepared(
                        tx_id@,
                        ops_of(operations@),
                    )
                },
                Ok(Vote::Abort) => {
                    &&& old(self).state().knows(tx_id@)
                    &&& final(self).state() == old(self).state()
                },
                Err(_) => final(self).state() == old(self).state(),
            },
            Self::always_answers() ==> r is Ok,
    ;

    /// Phase 2: apply the prepared operations and record the commit.
    fn commit(&mut self, tx_id: &str) -> (r: Result<(), DistributedTxError>)
        ensures
            r is Ok ==> old(self).state().commits_to(final(self).state(), tx_id@),
            Self::always_answers() && old(self).state().prepared.contains_key(tx_id@) && described(
                old(self).state().prepared[tx_id@],
            ) ==> r is Ok,
    ;

    /// Phase 2: discard the prepared operations.
    fn rollback(&mut self, tx_id: &str) -> (r: Result<(), DistributedTxError>)
        ensures
            match r {
                Ok(_) => final(self).state() == old(self).state().discarded(tx_id@),
                Err(_) => final(self).state() == old(self).state(),
            },
            Self::always_answers() ==> r is Ok,
    ;

    /// The value of a key.
    fn read(&self, key: &str) -> (r: Result<Option<String>, DistributedTxError>)
        ensures
            match r {
                Ok(Some(v)) => self.state().data.contains_key(key@) && self.state().data[key@]
                    == v@,
                Ok(None) => !self.state().data.contains_key(key@),
                Err(_) => true,
            },
            Self::always_answers() ==> r is Ok,
    ;

    /// All key-value pairs, in any order.
    fn rows(&self) -> (r: Result<Vec<(String, String)>, DistributedTxError>)
        ensures
            r is Ok ==> lists_rows(r->Ok_0@, self.state().data),
            Self::always_answers() ==> r is Ok,
    ;
}

/// The operations of a map.
pub open spec fn logs_of(m: Map<Seq<char>, Vec<Operation>>) -> Map<Seq<char>, Seq<OpModel>> {
    Map::new(|k: Seq<char>| m.contains_key(k), |k: Seq<char>| ops_of(m[k]@))
}

/// The texts of a map.
pub open spec fn texts_of(m: Map<Seq<char>, String>) -> Map<Seq<char>, Seq<char>> {
    Map::new(|k: Seq<char>| m.contains_key(k), |k: Seq<char>| m[k]@)
}

/// A shard that keeps everything in memory.
pub struct ShardNode {
    shard_id: usize,
    prepared: StrMap<Vec<Operation>>,
    committed: StrMap<()>,
    data: StrMap<String>,
}

impl ShardNode {
    /// An empty shard.
    pub fn new(shard_id: usize) -> (r: Self)
        ensures
            r.state() == ShardModel::empty(),
            r.id() == shard_id,
    {
        let r = ShardNode {
            shard_id,
            prepared: StrMap::new(),
            committed: StrMap::new(),
            data: StrMap::new(),
        };
        assert(r.state() =~= ShardModel::empty());
        r
    }

    /// Shard identifier (0-based index).
    pub closed spec fn id(self) -> usize {
        self.shard_id
    }

    /// Shard identifier (0-based index).
    pub fn shard_id(&self) -> (r: usize)
        ensures
            r == self.id(),
    {
        self.shard_id
    }

    /// Applies a single operation that is no raw SQL.
    fn apply(data: &mut StrMap<String>, op: &Operation)
        requires
            !(op is RawSql),
        ensures
            texts_of(final(data)@) == applied(texts_of(old(data)@), op@),
    {
        match op {
            Operation::Put { shard_key, value } => {
                let _old = data.insert(shard_key.clone(), value.clone());
            },
            Operation::Delete { shard_key } => {
                let _old = data.remove(shard_key.as_str());
            },
            Operation::RawSql { .. } => {},
        }
        assert(texts_of(data@) =~= applied(texts_of(old(data)@), op@));
    }
}

/// Whether none of the operations is raw SQL.
fn all_described(ops: &Vec<Operation>) -> (r: bool)
    ensures
        r == described(ops_of(ops@)),
{
    let mut i: usize = 0;
    while i < ops.len()
        invariant
            i <= ops@.len(),
            forall|j: int| 0 <= j < i ==> !((#[trigger] ops@[j]) is RawSql),
        decreases ops@.len() - i,
    {
        match &ops[i] {
            Operation::RawSql { .. } => {
                assert(ops_of(ops@)[i as int] is RawSql);
                return false;
            },
            _ => {},
        }
        i += 1;
    }
    assert forall|j: int| 0 <= j < ops@.len() implies !((#[trigger] ops_of(ops@)[j]) is RawSql) by {
        assert(!(ops@[j] is RawSql));
    }
    true
}

impl Shard for ShardNode {
    closed spec fn state(&self) -> ShardModel {
        ShardModel {
            prepared: logs_of(self.prepared@),
            committed: self.committed@.dom(),
            data: texts_of(self.data@),
        }
    }

    open spec fn always_answers() -> bool {
        true
    }

    fn prepare(&mut self, tx_id: &str, operations: &Vec<Operation>) -> (r: Result<
        Vote,
        DistributedTxError,
    >) {
        let vote = vote_on(self.prepared.contains_key(tx_id), self.committed.contains_key(tx_id));
        if vote == Vote::Abort {
            return Ok(vote);
        }
        let copy = operations.clone();
        assert(copy@ =~= operations@);
        let _old = self.prepared.insert(tx_id.to_owned(), copy);
        assert(self.state() =~= old(self).state().with_prepared(tx_id@, ops_of(operations@)));
        Ok(vote)
    }

    fn commit(&mut self, tx_id: &str) -> (r: Result<(), DistributedTxError>)
        ensures
            r is Err ==> final(self).state() == old(self).state(),
            match r {
                Ok(_) => true,
                Err(DistributedTxError::TransactionNotFound(id)) => id@ == tx_id@ && !old(
                    self,
                ).state().prepared.contains_key(tx_id@),
                Err(DistributedTxError::ApplyFailed(_)) => old(self).state().prepared.contains_key(
                    tx_id@,
                ) && !described(old(self).state().prepared[tx_id@]),
                Err(_) => false,
            },
    {
        let ops = match self.prepared.get(tx_id) {
            Some(v) => v.clone(),
            None => {
                return Err(DistributedTxError::TransactionNotFound(tx_id.to_owned()));
            },
        };
        let ghost log = ops_of(ops@);
        assert(ops@ =~= self.prepared@[tx_id@]@);
        if !all_described(&ops) {
            return Err(
                DistributedTxError::ApplyFailed("raw SQL needs a database".to_owned()),
            );
        }
        let ghost before = texts_of(self.data@);
        let mut i: usize = 0;
        assert(log.take(0) =~= Seq::<OpModel>::empty());
        while i < ops.len()
            invariant
                i <= ops@.len(),
                log == ops_of(ops@),
                described(log),
                self.prepared@ == old(self).prepared@,
                self.committed@ == old(self).committed@,
                texts_of(self.data@) == applied_all(before, log.take(i as int)),
            decreases ops@.len() - i,
        {
            proof {
                let longer = log.take(i + 1);
                assert(longer.drop_last() =~= log.take(i as int));
                assert(longer.last() == log[i as int]);
                assert(!(log[i as int] is RawSql));
            }
            Self::apply(&mut self.data, &ops[i]);
            i += 1;
        }
        assert(log.take(i as int) =~= log);
        let _a = self.committed.insert(tx_id.to_owned(), ());
        let _b = self.prepared.remove(tx_id);
        proof {
            assert(self.state().prepared =~= old(self).state().prepared.remove(tx_id@));
            assert(self.state().committed =~= old(self).state().committed.insert(tx_id@));
        }
        Ok(())
    }

    fn rollback(&mut self, tx_id: &str) -> (r: Result<(), DistributedTxError>) {
        let _old = self.prepared.remove(tx_id);
        assert(self.state() =~= old(self).state().discarded(tx_id@));
        Ok(())
    }

    fn read(&self, key: &str) -> (r: Result<Option<String>, DistributedTxError>) {
        match self.data.get(key) {
            Some(v) => Ok(Some(v.clone())),
            None => Ok(None),
        }
    }

    fn rows(&self) -> (r: Result<Vec<(String, String)>, DistributedTxError>) {
        let n: usize = self.data.len();
        let ghost order = self.data.order();
        let mut v: Vec<(String, String)> = Vec::new();
        let mut i: usize = 0;
        while i < n
            invariant
                i <= n,
                n == order.len(),
                order == self.data.order(),
                v@.len() == i,
                forall|j: int|
                    0 <= j < i ==> (#[trigger] v@[j]).0@ == order[j] && v@[j].1@
                        == self.data@[order[j]]@,
            decreases n - i,
        {
            v.push((self.data.key_at(i).clone(), self.data.value_at(i).clone()));
            i += 1;
        }
        proof {
            let data = self.state().data;
            assert forall|j: int| 0 <= j < v@.len() implies data.contains_key((#[trigger] v@[j]).0@)
                && data[v@[j].0@] == v@[j].1@ by {
                assert(order.contains(order[j]));
            }
            assert forall|k: Seq<char>| #[trigger] data.contains_key(k) implies exists|j: int|
                0 <= j < v@.len() && (#[trigger] v@[j]).0@ == k by {
                assert(order.contains(k));
                let j = order.index_of(k);
                assert(order[j] == k);
                assert(v@[j].0@ == k);
            }
            assert forall|a: int, b: int| 0 <= a < b < v@.len() implies (#[trigger] v@[a]).0@ != (
            #[trigger] v@[b]).0@ by {
                assert(order[a] != order[b]);
            }
        }
        Ok(v)
    }
}

/// The operations of one shard.
#[derive(Debug)]
pub struct ShardOps {
    /// The shard.
    pub shard: usize,
    /// Its operations.
    pub ops: Vec<Operation>,
}

/// What one shard is to do.
#[verifier::ext_equal]
pub struct PartModel {
    pub shard: usize,
    pub ops: Seq<OpModel>,
}

impl View for ShardOps {
    type V = PartModel;

    open spec fn view(&self) -> PartModel {
        PartModel { shard: self.shard, ops: ops_of(self.ops@) }
    }
}

/// Describes a distributed transaction before it is submitted to the
/// coordinator.
#[derive(Debug)]
pub struct DistributedTransaction {
    /// Globally unique transaction ID.
    pub tx_id: String,
    /// Per-shard operations, one entry for each participating shard.
    pub shard_ops: Vec<ShardOps>,
}

/// What the participants are to do.
pub open spec fn parts_of(v: Seq<ShardOps>) -> Seq<PartModel> {
    Seq::new(v.len(), |i: int| v[i]@)
}

/// Whether no shard has two entries.
pub open spec fn distinct(parts: Seq<PartModel>) -> bool {
    forall|i: int, j: int|
        0 <= i < j < parts.len() ==> (#[trigger] parts[i]).shard != (#[trigger] parts[j]).shard
}

/// The entry of a shard, or the number of entries.
pub open spec fn place_of(parts: Seq<PartModel>, shard: usize) -> int
    decreases parts.len(),
{
    if parts.len() == 0 {
        0
    } else {
        let before = place_of(parts.drop_last(), shard);
        if before < parts.len() - 1 {
            before
        } else if parts.last().shard == shard {
            parts.len() - 1
        } else {
            parts.len() as int
        }
    }
}

/// What the place of a shard means.
proof fn lemma_place(parts: Seq<PartModel>, shard: usize)
    ensures
        0 <= place_of(parts, shard) <= parts.len(),
        place_of(parts, shard) < parts.len() ==> parts[place_of(parts, shard)].shard == shard,
        forall|i: int|
            0 <= i < place_of(parts, shard) ==> (#[trigger] parts[i]).shard != shard,
    decreases parts.len(),
{
    if parts.len() > 0 {
        lemma_place(parts.drop_last(), shard);
        assert forall|i: int|
            0 <= i < place_of(parts, shard) implies (#[trigger] parts[i]).shard != shard by {
            if i < parts.len() - 1 {
                assert(parts.drop_last()[i] == parts[i]);
            }
        }
    }
}

/// The participants with one more operation for a shard.
pub open spec fn added(parts: Seq<PartModel>, shard: usize, op: OpModel) -> Seq<PartModel> {
    let at = place_of(parts, shard);
    if at < parts.len() {
        parts.update(at, PartModel { shard, ops: parts[at].ops.push(op) })
    } else {
        parts.push(PartModel { shard, ops: seq![op] })
    }
}

impl DistributedTransaction {
    /// A transaction without operations.
    pub fn new(tx_id: &str) -> (r: Self)
        ensures
            r.tx_id@ == tx_id@,
            parts_of(r.shard_ops@) == Seq::<PartModel>::empty(),
    {
        let r = DistributedTransaction { tx_id: tx_id.to_owned(), shard_ops: Vec::new() };
        assert(parts_of(r.shard_ops@) =~= Seq::<PartModel>::empty());
        r
    }

    /// Add an operation destined for `shard_index`.
    pub fn add_op(&mut self, shard_index: usize, op: Operation)
        ensures
            final(self).tx_id == old(self).tx_id,
            parts_of(final(self).shard_ops@) == added(
                parts_of(old(self).shard_ops@),
                shard_index,
                op@,
            ),
            distinct(parts_of(old(self).shard_ops@)) ==> distinct(
                parts_of(final(self).shard_ops@),
            ),
    {
        let ghost parts = parts_of(self.shard_ops@);
        let ghost what = op@;
        proof {
            lemma_place(parts, shard_index);
        }
        let n: usize = self.shard_ops.len();
        let mut i: usize = 0;
        while i < n && self.shard_ops[i].shard != shard_index
            invariant
                i <= n,
                n == self.shard_ops@.len(),
                parts == parts_of(self.shard_ops@),
                *self == *old(self),
                forall|j: int| 0 <= j < i ==> (#[trigger] parts[j]).shard != shard_index,
            decreases n - i,
        {
            assert(parts[i as int].shard != shard_index);
            i += 1;
        }
        if i < n {
            assert(parts[i as int].shard == shard_index);
            assert(place_of(parts, shard_index) == i) by {
                lemma_place(parts, shard_index);
            }
            let entry = &mut self.shard_ops[i];
            entry.ops.push(op);
            proof {
                let after = parts_of(self.shard_ops@);
                assert(after[i as int].ops =~= parts[i as int].ops.push(what));
                assert(after =~= added(parts, shard_index, what));
                if distinct(parts) {
                    assert forall|a: int, b: int| 0 <= a < b < after.len() implies (
                    #[trigger] after[a]).shard != (#[trigger] after[b]).shard by {
                        assert(parts[a].shard != parts[b].shard);
                    }
                }
            }
        } else {
            let mut ops: Vec<Operation> = Vec::new();
            ops.push(op);
            self.shard_ops.push(ShardOps { shard: shard_index, ops });
            proof {
                let after = parts_of(self.shard_ops@);
                assert(after[n as int].ops =~= seq![what]);
                if place_of(parts, shard_index) < n {
                    assert(parts[place_of(parts, shard_index)].shard != shard_index);
                }
                assert(after =~= added(parts, shard_index, what));
                if distinct(parts) {
                    assert forall|a: int, b: int| 0 <= a < b < after.len() implies (
                    #[trigger] after[a]).shard != (#[trigger] after[b]).shard by {
                        if b < n {
                            assert(parts[a].shard != parts[b].shard);
                        }
                    }
                }
            }
        }
    }
}

/// What some shards hold.
pub open spec fn states<S: Shard>(shards: Seq<S>) -> Seq<ShardModel> {
    Seq::new(shards.len(), |i: int| shards[i].state())
}

/// Whether none of the first `n` participants is shard `i`.
pub open spec fn uninvolved(parts: Seq<PartModel>, n: int, i: int) -> bool {
    forall|q: int| 0 <= q < n ==> (#[trigger] parts[q]).shard != i
}

/// Whether the first `n` participants exist and have not seen a transaction.
pub open spec fn willing(
    parts: Seq<PartModel>,
    n: int,
    shards: Seq<ShardModel>,
    tx_id: Seq<char>,
) -> bool {
    forall|q: int|
        0 <= q < n ==> (#[trigger] parts[q]).shard < shards.len()
            && !shards[parts[q].shard as int].knows(tx_id)
}

/// Whether the first `n` participants, and no others, have prepared a
/// transaction.
pub open spec fn prepared_by(
    parts: Seq<PartModel>,
    n: int,
    before: Seq<ShardModel>,
    after: Seq<ShardModel>,
    tx_id: Seq<char>,
) -> bool {
    &&& after.len() == before.len()
    &&& willing(parts, n, before, tx_id)
    &&& forall|q: int|
        0 <= q < n ==> after[(#[trigger] parts[q]).shard as int]
            == before[parts[q].shard as int].with_prepared(tx_id, parts[q].ops)
    &&& forall|i: int|
        0 <= i < before.len() && #[trigger] uninvolved(parts, n, i) ==> after[i] == before[i]
}

/// Whether the first `n` participants have committed a transaction and the
/// others of them have prepared it.
pub open spec fn committed_by(
    parts: Seq<PartModel>,
    n: int,
    before: Seq<ShardModel>,
    after: Seq<ShardModel>,
    tx_id: Seq<char>,
) -> bool {
    &&& after.len() == before.len()
    &&& willing(parts, parts.len() as int, before, tx_id)
    &&& forall|q: int|
        0 <= q < n ==> before[(#[trigger] parts[q]).shard as int].with_prepared(
            tx_id,
            parts[q].ops,
        ).commits_to(after[parts[q].shard as int], tx_id)
    &&& forall|q: int|
        n <= q < parts.len() ==> after[(#[trigger] parts[q]).shard as int]
            == before[parts[q].shard as int].with_prepared(tx_id, parts[q].ops)
    &&& forall|i: int|
        0 <= i < before.len() && #[trigger] uninvolved(parts, parts.len() as int, i) ==> after[i]
            == before[i]
}

/// Whether two shards agree but for what they have prepared.
pub open spec fn same_content(a: ShardModel, b: ShardModel) -> bool {
    a.data == b.data && a.committed == b.committed
}

/// Whether no shard has committed anything or changed a key-value pair.
pub open spec fn nothing_committed(before: Seq<ShardModel>, after: Seq<ShardModel>) -> bool {
    &&& after.len() == before.len()
    &&& forall|i: int|
        0 <= i < before.len() ==> same_content(#[trigger] after[i], before[i])
}

/// Whether participant `k` is the first that refuses a transaction.
pub open spec fn refused_by(
    parts: Seq<PartModel>,
    k: int,
    shards: Seq<ShardModel>,
    tx_id: Seq<char>,
) -> bool {
    &&& 0 <= k < parts.len()
    &&& willing(parts, k, shards, tx_id)
    &&& parts[k].shard < shards.len()
    &&& shards[parts[k].shard as int].knows(tx_id)
}

/// Whether some participant refuses a transaction.
pub open spec fn refused(
    parts: Seq<PartModel>,
    shards: Seq<ShardModel>,
    tx_id: Seq<char>,
) -> bool {
    exists|k: int| #[trigger] refused_by(parts, k, shards, tx_id)
}

/// Whether the run ended before any participant committed: the first few are
/// prepared, and nothing else has changed.
pub open spec fn left_prepared(
    parts: Seq<PartModel>,
    before: Seq<ShardModel>,
    after: Seq<ShardModel>,
    tx_id: Seq<char>,
) -> bool {
    exists|p: int|
        0 <= p < parts.len() && #[trigger] prepared_by(parts, p, before, after, tx_id)
}

/// Whether some participant committed before the run was cut short.
pub open spec fn cut_short(
    parts: Seq<PartModel>,
    before: Seq<ShardModel>,
    after: Seq<ShardModel>,
    tx_id: Seq<char>,
) -> bool {
    exists|k: int| #[trigger] committed_but_for(parts, k, before, after, tx_id)
}

/// Whether the first `k` participants have committed, those after participant
/// `k` are only prepared, and of participant `k` itself nothing is known.
pub open spec fn committed_but_for(
    parts: Seq<PartModel>,
    k: int,
    before: Seq<ShardModel>,
    after: Seq<ShardModel>,
    tx_id: Seq<char>,
) -> bool {
    &&& 0 <= k < parts.len()
    &&& after.len() == before.len()
    &&& parts[k].shard < before.len()
    &&& committed_by(
        parts,
        k,
        before,
        after.update(
            parts[k].shard as int,
            before[parts[k].shard as int].with_prepared(tx_id, parts[k].ops),
        ),
        tx_id,
    )
}

/// Whether running a transaction may end in `r`.
pub open spec fn executed<S: Shard>(
    parts: Seq<PartModel>,
    before: Seq<ShardModel>,
    after: Seq<ShardModel>,
    tx_id: Seq<char>,
    r: Result<TxOutcome, DistributedTxError>,
) -> bool {
    match r {
        Ok(TxOutcome::Committed) => committed_by(
            parts,
            parts.len() as int,
            before,
            after,
            tx_id,
        ),
        Ok(TxOutcome::RolledBack) => {
            &&& refused(parts, before, tx_id)
            &&& nothing_committed(before, after)
            &&& S::always_answers() ==> after == before
        },
        Err(_) => left_prepared(parts, before, after, tx_id) || cut_short(
            parts,
            before,
            after,
            tx_id,
        ),
    }
}

/// Coordinator that runs two-phase commit across a set of shards.
pub struct DistributedTxCoordinator<S> {
    /// The shards.
    pub shards: Vec<S>,
}

impl<S: Shard> DistributedTxCoordinator<S> {
    /// Build a coordinator from explicit shard nodes.
    pub fn new(shards: Vec<S>) -> (r: Self)
        ensures
            r.shards == shards,
    {
        DistributedTxCoordinator { shards }
    }

    /// Number of shards managed by this coordinator.
    pub fn shard_count(&self) -> (r: usize)
        ensures
            r == self.shards@.len(),
    {
        self.shards.len()
    }

    /// Route an operation to the correct shard based on its key; raw SQL has
    /// the empty key.
    pub fn route_operation(&self, op: &Operation) -> (r: usize)
        ensures
            r == owner_of(routing_key(op@), self.shards@.len() as usize),
            self.shards@.len() > 0 ==> r < self.shards@.len(),
    {
        let key = match op {
            Operation::Put { shard_key, .. } => ShardKey::new(shard_key.as_str()),
            Operation::Delete { shard_key } => ShardKey::new(shard_key.as_str()),
            Operation::RawSql { .. } => ShardKey::new(""),
        };
        key.shard_index(self.shards.len())
    }

    /// Execute a transaction using two-phase commit.
    ///
    /// Returns `TxOutcome::Committed` if all shards voted Commit, or
    /// `TxOutcome::RolledBack` if any shard voted Abort (in which case all
    /// shards that already voted Commit receive a rollback request).
    pub fn execute(&mut self, tx: &DistributedTransaction) -> (r: Result<
        TxOutcome,
        DistributedTxError,
    >)
        requires
            distinct(parts_of(tx.shard_ops@)),
        ensures
            executed::<S>(
                parts_of(tx.shard_ops@),
                states(old(self).shards@),
                states(final(self).shards@),
                tx.tx_id@,
                r,
            ),
            final(self).shards@.len() == old(self).shards@.len(),
            S::always_answers() && willing(
                parts_of(tx.shard_ops@),
                tx.shard_ops@.len() as int,
                states(old(self).shards@),
                tx.tx_id@,
            ) && (forall|q: int|
                0 <= q < tx.shard_ops@.len() ==> described(
                    (#[trigger] parts_of(tx.shard_ops@)[q]).ops,
                )) ==> r == Ok::<TxOutcome, DistributedTxError>(TxOutcome::Committed),
            S::always_answers() && refused(
                parts_of(tx.shard_ops@),
                states(old(self).shards@),
                tx.tx_id@,
            ) ==> r == Ok::<TxOutcome, DistributedTxError>(TxOutcome::RolledBack),
            r is Err && S::always_answers() ==> {
                ||| !willing(
                    parts_of(tx.shard_ops@),
                    tx.shard_ops@.len() as int,
                    states(old(self).shards@),
                    tx.tx_id@,
                )
                ||| exists|q: int|
                    0 <= q < tx.shard_ops@.len() && !described(
                        (#[trigger] parts_of(tx.shard_ops@)[q]).ops,
                    )
            },
    {
        let ghost parts = parts_of(tx.shard_ops@);
        let ghost before = states(self.shards@);
        let n: usize = self.shards.len();
        let m: usize = tx.shard_ops.len();
        let tx_id: &str = tx.tx_id.as_str();
        let mut p: usize = 0;
        while p < m
            invariant
                p <= m,
                m == tx.shard_ops@.len(),
                n == self.shards@.len(),
                n == before.len(),
                parts == parts_of(tx.shard_ops@),
                distinct(parts),
                tx_id@ == tx.tx_id@,
                before == states(old(self).shards@),
                prepared_by(parts, p as int, before, states(self.shards@), tx_id@),
            decreases m - p,
        {
            let idx: usize = tx.shard_ops[p].shard;
            assert(parts[p as int].shard == idx);
            let ghost mid = states(self.shards@);
            assert(prepared_by(parts, p as int, before, mid, tx_id@));
            assert forall|i: int| 0 <= i < before.len() implies same_content(
                #[trigger] mid[i],
                before[i],
            ) by {
                lemma_prepared_keeps_content(parts, p as int, before, mid, tx_id@, i);
            }
            if idx >= n {
                proof {
                    if refused(parts, before, tx_id@) {
                        let k = choose|k: int| #[trigger] refused_by(parts, k, before, tx_id@);
                        lemma_refusal_is_first(parts, k, p as int, before, tx_id@);
                    }
                }
                return Err(
                    DistributedTxError::ShardUnavailable(idx, "index out of range".to_owned()),
                );
            }
            assert(uninvolved(parts, p as int, idx as int)) by {
                assert forall|q: int| 0 <= q < p implies (#[trigger] parts[q]).shard != idx by {
                    assert(parts[q].shard != parts[p as int].shard);
                }
            }
            let shard = &mut self.shards[idx];
            let vote = shard.prepare(tx_id, &tx.shard_ops[p].ops);
            match vote {
                Err(e) => {
                    proof {
                        assert(states(self.shards@) =~= mid);
                    }
                    return Err(e);
                },
                Ok(Vote::Commit) => {
                    proof {
                        let now = states(self.shards@);
                        assert(now =~= mid.update(
                            idx as int,
                            before[idx as int].with_prepared(tx_id@, parts[p as int].ops),
                        ));
                        lemma_one_more_prepared(parts, p as int, before, mid, now, tx_id@);
                    }
                },
                Ok(Vote::Abort) => {
                    proof {
                        assert(states(self.shards@) =~= mid);
                        assert(refused_by(parts, p as int, before, tx_id@));
                    }
                    let mut q: usize = 0;
                    while q < p
                        invariant
                            q <= p,
                            p < m,
                            m == tx.shard_ops@.len(),
                            n == self.shards@.len(),
                            n == before.len(),
                            parts == parts_of(tx.shard_ops@),
                            distinct(parts),
                            tx_id@ == tx.tx_id@,
                            willing(parts, p as int, before, tx_id@),
                            forall|x: int|
                                0 <= x < p ==> {
                                    let s = states(self.shards@)[(#[trigger] parts[x]).shard as int];
                                    let o = before[parts[x].shard as int];
                                    ||| s == o.with_prepared(tx_id@, parts[x].ops) && (
                                    S::always_answers() ==> x >= q)
                                    ||| s == o
                                },
                            forall|i: int|
                                0 <= i < n && #[trigger] uninvolved(parts, p as int, i)
                                    ==> states(self.shards@)[i] == before[i],
                        decreases p - q,
                    {
                        let back: usize = tx.shard_ops[q].shard;
                        assert(parts[q as int].shard == back);
                        let ghost now = states(self.shards@);
                        let shard = &mut self.shards[back];
                        let _done = shard.rollback(tx_id);
                        proof {
                            let later = states(self.shards@);
                            let o = before[back as int];
                            assert(o.with_prepared(tx_id@, parts[q as int].ops).discarded(tx_id@)
                                =~= o);
                            assert(o.discarded(tx_id@) =~= o);
                            assert(later =~= now.update(back as int, later[back as int]));
                            assert forall|x: int| 0 <= x < p implies {
                                let s = later[(#[trigger] parts[x]).shard as int];
                                let o = before[parts[x].shard as int];
                                ||| s == o.with_prepared(tx_id@, parts[x].ops) && (
                                S::always_answers() ==> x >= q + 1)
                                ||| s == o
                            } by {
                                if x != q {
                                    if x < q {
                                        assert(parts[x].shard != parts[q as int].shard);
                                    } else {
                                        assert(parts[q as int].shard != parts[x].shard);
                                    }
                                    assert(later[parts[x].shard as int]
                                        == now[parts[x].shard as int]);
                                }
                            }
                            assert forall|i: int|
                                0 <= i < n && #[trigger] uninvolved(
                                    parts,
                                    p as int,
                                    i,
                                ) implies later[i] == before[i] by {
                                assert(parts[q as int].shard != i);
                            }
                        }
                        q += 1;
                    }
                    proof {
                        let fin = states(self.shards@);
                        assert forall|i: int| 0 <= i < before.len() implies same_content(
                            #[trigger] fin[i],
                            before[i],
                        ) && (S::always_answers() ==> fin[i] == before[i]) by {
                            if !uninvolved(parts, p as int, i) {
                                let x = choose|x: int|
                                    0 <= x < p && (#[trigger] parts[x]).shard == i;
                                assert(fin[parts[x].shard as int] == fin[i]);
                            }
                        }
                        if S::always_answers() {
                            assert(fin =~= before);
                        }
                    }
                    return Ok(TxOutcome::RolledBack);
                },
            }
            p += 1;
        }
        let mut c: usize = 0;
        proof {
            if refused(parts, before, tx_id@) {
                let k = choose|k: int| #[trigger] refused_by(parts, k, before, tx_id@);
                assert(!before[parts[k].shard as int].knows(tx_id@));
            }
        }
        while c < m
            invariant
                c <= m,
                m == tx.shard_ops@.len(),
                n == self.shards@.len(),
                n == before.len(),
                parts == parts_of(tx.shard_ops@),
                distinct(parts),
                tx_id@ == tx.tx_id@,
                before == states(old(self).shards@),
                willing(parts, m as int, before, tx_id@),
                !refused(parts, before, tx_id@),
                committed_by(parts, c as int, before, states(self.shards@), tx_id@),
            decreases m - c,
        {
            let idx: usize = tx.shard_ops[c].shard;
            assert(parts[c as int].shard == idx);
            let ghost mid = states(self.shards@);
            let shard = &mut self.shards[idx];
            let done = shard.commit(tx_id);
            proof {
                let now = states(self.shards@);
                assert(now =~= mid.update(idx as int, now[idx as int]));
                assert(mid[idx as int] == before[idx as int].with_prepared(
                    tx_id@,
                    parts[c as int].ops,
                ));
            }
            match done {
                Err(e) => {
                    proof {
                        let now = states(self.shards@);
                        assert(now.update(
                            idx as int,
                            before[idx as int].with_prepared(tx_id@, parts[c as int].ops),
                        ) =~= mid);
                        assert(committed_but_for(parts, c as int, before, now, tx_id@));
                    }
                    return Err(e);
                },
                Ok(_) => {
                    proof {
                        let now = states(self.shards@);
                        lemma_one_more_committed(parts, c as int, before, mid, now, tx_id@);
                    }
                },
            }
            c += 1;
        }
        Ok(TxOutcome::Committed)
    }

    /// Redistribute keys from `source_shard` to `target_shard`.
    ///
    /// Reads all key-value pairs of the source whose key hashes to
    /// `target_shard` under the *new* total shard count, writes them to the
    /// target, and deletes them from the source, all in a single transaction
    /// under a fresh identifier. Returns how many there are.
    pub fn rebalance(
        &mut self,
        source_shard: usize,
        target_shard: usize,
        new_total_shards: usize,
    ) -> (r: Result<u64, DistributedTxError>)
        ensures
            exists|tx_id: Seq<char>|
                tx_id.len() == 36 && #[trigger] rebalanced(
                    *old(self),
                    *final(self),
                    tx_id,
                    source_shard,
                    target_shard,
                    new_total_shards,
                    r,
                ),
    {
        let id = fresh_id();
        self.rebalance_as(id.as_str(), source_shard, target_shard, new_total_shards)
    }

    /// Redistribute keys from `source_shard` to `target_shard` in a transaction
    /// with the given identifier.
    pub fn rebalance_as(
        &mut self,
        tx_id: &str,
        source_shard: usize,
        target_shard: usize,
        new_total_shards: usize,
    ) -> (r: Result<u64, DistributedTxError>)
        ensures
            rebalanced(
                *old(self),
                *final(self),
                tx_id@,
                source_shard,
                target_shard,
                new_total_shards,
                r,
            ),
    {
        if source_shard >= self.shards.len() {
            return Err(
                DistributedTxError::ShardUnavailable(source_shard, "not found".to_owned()),
            );
        }
        if target_shard >= self.shards.len() {
            return Err(
                DistributedTxError::ShardUnavailable(target_shard, "not found".to_owned()),
            );
        }
        let rows = match self.shards[source_shard].rows() {
            Ok(v) => v,
            Err(e) => {
                return Err(e);
            },
        };
        let ghost data = self.shards@[source_shard as int].state().data;
        let moves = rows_to_move(rows, target_shard, new_total_shards);
        proof {
            lemma_moves(rows@, data, target_shard, new_total_shards);
        }
        let count: u64 = moves.len() as u64;
        if count == 0 {
            return Ok(0);
        }
        let tx = plan_moves(&moves, source_shard, target_shard, tx_id);
        let ghost parts = planned(moves@, source_shard, target_shard);
        let ghost before = states(self.shards@);
        proof {
            lemma_planned_ops(moves@, source_shard, target_shard);
            if !willing(parts, parts.len() as int, before, tx_id@) {
                lemma_refusal_exists(parts, parts.len() as int, before, tx_id@);
            }
        }
        let outcome = self.execute(&tx);
        match outcome {
            Err(e) => {
                assert(executed::<S>(
                    parts,
                    before,
                    states(self.shards@),
                    tx_id@,
                    Err::<TxOutcome, DistributedTxError>(e),
                ));
                Err(e)
            },
            Ok(o) => {
                assert(executed::<S>(
                    parts,
                    before,
                    states(self.shards@),
                    tx_id@,
                    Ok::<TxOutcome, DistributedTxError>(o),
                ));
                Ok(count)
            },
        }
    }
}

/// The key by which an operation is routed.
pub open spec fn routing_key(op: OpModel) -> Seq<char> {
    match op {
        OpModel::Put { shard_key, .. } => shard_key,
        OpModel::Delete { shard_key } => shard_key,
        OpModel::RawSql { .. } => ""@,
    }
}

/// Where all participants are in range and not all are willing, one refuses.
proof fn lemma_refusal_exists(
    parts: Seq<PartModel>,
    n: int,
    shards: Seq<ShardModel>,
    tx_id: Seq<char>,
)
    requires
        0 <= n <= parts.len(),
        forall|q: int| 0 <= q < parts.len() ==> (#[trigger] parts[q]).shard < shards.len(),
        !willing(parts, n, shards, tx_id),
    ensures
        refused(parts, shards, tx_id),
    decreases n,
{
    if n > 0 {
        if willing(parts, n - 1, shards, tx_id) {
            assert(refused_by(parts, n - 1, shards, tx_id));
        } else {
            lemma_refusal_exists(parts, n - 1, shards, tx_id);
        }
    }
}

/// The participants of a move are its two shards, and none of the operations is
/// raw SQL.
proof fn lemma_planned_ops(moves: Seq<(String, String)>, source_shard: usize, target_shard: usize)
    ensures
        forall|q: int|
            0 <= q < planned(moves, source_shard, target_shard).len() ==> {
                let part = #[trigger] planned(moves, source_shard, target_shard)[q];
                (part.shard == source_shard || part.shard == target_shard) && described(part.ops)
            },
    decreases moves.len(),
{
    if moves.len() > 0 {
        let before = planned(moves.drop_last(), source_shard, target_shard);
        let pair = moves.last();
        let put = OpModel::Put { shard_key: pair.0@, value: pair.1@ };
        let mid = added(before, target_shard, put);
        lemma_planned_ops(moves.drop_last(), source_shard, target_shard);
        lemma_place(before, target_shard);
        assert forall|q: int| 0 <= q < mid.len() implies ((#[trigger] mid[q]).shard == source_shard
            || mid[q].shard == target_shard) && described(mid[q].ops) by {
            if q < before.len() {
                assert(described(before[q].ops));
            }
        }
        lemma_place(mid, source_shard);
        let all = planned(moves, source_shard, target_shard);
        assert forall|q: int| 0 <= q < all.len() implies {
            let part = #[trigger] all[q];
            (part.shard == source_shard || part.shard == target_shard) && described(part.ops)
        } by {
            if q < mid.len() {
                assert(described(mid[q].ops));
            }
        }
    }
}

/// Preparing changes no content.
proof fn lemma_prepared_keeps_content(
    parts: Seq<PartModel>,
    n: int,
    before: Seq<ShardModel>,
    after: Seq<ShardModel>,
    tx_id: Seq<char>,
    i: int,
)
    requires
        prepared_by(parts, n, before, after, tx_id),
        0 <= i < before.len(),
    ensures
        same_content(after[i], before[i]),
{
    if !uninvolved(parts, n, i) {
        let x = choose|x: int| 0 <= x < n && (#[trigger] parts[x]).shard == i;
        assert(after[parts[x].shard as int] == after[i]);
    }
}

/// No participant that comes before a refusal, or refuses, is out of range.
proof fn lemma_refusal_is_first(
    parts: Seq<PartModel>,
    k: int,
    p: int,
    shards: Seq<ShardModel>,
    tx_id: Seq<char>,
)
    requires
        refused_by(parts, k, shards, tx_id),
        willing(parts, p, shards, tx_id),
        0 <= p < parts.len(),
    ensures
        parts[p].shard < shards.len(),
{
    if k < p {
        assert(parts[k].shard < shards.len() && !shards[parts[k].shard as int].knows(tx_id));
    } else if k > p {
        assert(parts[p].shard < shards.len());
    }
}

/// One more participant has prepared.
proof fn lemma_one_more_prepared(
    parts: Seq<PartModel>,
    p: int,
    before: Seq<ShardModel>,
    mid: Seq<ShardModel>,
    after: Seq<ShardModel>,
    tx_id: Seq<char>,
)
    requires
        distinct(parts),
        0 <= p < parts.len(),
        prepared_by(parts, p, before, mid, tx_id),
        parts[p].shard < before.len(),
        !before[parts[p].shard as int].knows(tx_id),
        after == mid.update(
            parts[p].shard as int,
            before[parts[p].shard as int].with_prepared(tx_id, parts[p].ops),
        ),
    ensures
        prepared_by(parts, p + 1, before, after, tx_id),
{
    assert forall|q: int| 0 <= q < p + 1 implies (#[trigger] parts[q]).shard < before.len()
        && !before[parts[q].shard as int].knows(tx_id) by {
        if q < p {
            assert(willing(parts, p, before, tx_id));
        }
    }
    assert forall|q: int| 0 <= q < p + 1 implies after[(#[trigger] parts[q]).shard as int]
        == before[parts[q].shard as int].with_prepared(tx_id, parts[q].ops) by {
        if q < p {
            assert(parts[q].shard != parts[p].shard);
            assert(mid[parts[q].shard as int] == before[parts[q].shard as int].with_prepared(
                tx_id,
                parts[q].ops,
            ));
        }
    }
    assert forall|i: int|
        0 <= i < before.len() && #[trigger] uninvolved(parts, p + 1, i) implies after[i]
        == before[i] by {
        assert(parts[p].shard != i);
        assert(uninvolved(parts, p, i));
    }
}

/// One more participant has committed.
proof fn lemma_one_more_committed(
    parts: Seq<PartModel>,
    c: int,
    before: Seq<ShardModel>,
    mid: Seq<ShardModel>,
    after: Seq<ShardModel>,
    tx_id: Seq<char>,
)
    requires
        distinct(parts),
        0 <= c < parts.len(),
        committed_by(parts, c, before, mid, tx_id),
        after.len() == before.len(),
        after == mid.update(parts[c].shard as int, after[parts[c].shard as int]),
        mid[parts[c].shard as int].commits_to(after[parts[c].shard as int], tx_id),
    ensures
        committed_by(parts, c + 1, before, after, tx_id),
{
    assert(willing(parts, parts.len() as int, before, tx_id));
    assert(parts[c].shard < before.len());
    assert forall|q: int| 0 <= q < c + 1 implies before[(
    #[trigger] parts[q]).shard as int].with_prepared(tx_id, parts[q].ops).commits_to(
        after[parts[q].shard as int],
        tx_id,
    ) by {
        if q < c {
            assert(parts[q].shard != parts[c].shard);
            assert(parts[q].shard < before.len());
        }
    }
    assert forall|q: int| c + 1 <= q < parts.len() implies after[(
    #[trigger] parts[q]).shard as int] == before[parts[q].shard as int].with_prepared(
        tx_id,
        parts[q].ops,
    ) by {
        assert(parts[c].shard != parts[q].shard);
        assert(parts[q].shard < before.len());
    }
    assert forall|i: int|
        0 <= i < before.len() && #[trigger] uninvolved(
            parts,
            parts.len() as int,
            i,
        ) implies after[i] == before[i] by {
        assert(parts[c].shard != i);
    }
}

/// Whether a key is to move.
pub open spec fn to_move(key: Seq<char>, target_shard: usize, new_total_shards: usize) -> bool {
    owner_of(key, new_total_shards) == target_shard
}

/// Whether `moves` are the key-value pairs that are to move, each once.
pub open spec fn lists_moves(
    moves: Seq<(String, String)>,
    data: Map<Seq<char>, Seq<char>>,
    target_shard: usize,
    new_total_shards: usize,
) -> bool {
    &&& forall|i: int|
        0 <= i < moves.len() ==> data.contains_key((#[trigger] moves[i]).0@) && data[moves[i].0@]
            == moves[i].1@ && to_move(moves[i].0@, target_shard, new_total_shards)
    &&& forall|k: Seq<char>| #[trigger]
        data.contains_key(k) && to_move(k, target_shard, new_total_shards) ==> has_key(moves, k)
    &&& forall|i: int, j: int|
        0 <= i < j < moves.len() ==> (#[trigger] moves[i]).0@ != (#[trigger] moves[j]).0@
}

/// Whether a list has a pair with the given key.
pub open spec fn has_key(moves: Seq<(String, String)>, key: Seq<char>) -> bool {
    exists|i: int| 0 <= i < moves.len() && (#[trigger] moves[i]).0@ == key
}

/// The pairs of a list that are to move.
pub open spec fn movable(
    rows: Seq<(String, String)>,
    target_shard: usize,
    new_total_shards: usize,
) -> Seq<(String, String)>
    decreases rows.len(),
{
    if rows.len() == 0 {
        Seq::empty()
    } else {
        let before = movable(rows.drop_last(), target_shard, new_total_shards);
        if to_move(rows.last().0@, target_shard, new_total_shards) {
            before.push(rows.last())
        } else {
            before
        }
    }
}

/// The pairs of a list that are to move, in order.
pub fn rows_to_move(
    rows: Vec<(String, String)>,
    target_shard: usize,
    new_total_shards: usize,
) -> (r: Vec<(String, String)>)
    ensures
        r@ == movable(rows@, target_shard, new_total_shards),
{
    let mut r: Vec<(String, String)> = Vec::new();
    let mut i: usize = 0;
    assert(rows@.take(0) =~= Seq::<(String, String)>::empty());
    while i < rows.len()
        invariant
            i <= rows@.len(),
            r@ == movable(rows@.take(i as int), target_shard, new_total_shards),
        decreases rows@.len() - i,
    {
        proof {
            let longer = rows@.take(i + 1);
            assert(longer.drop_last() =~= rows@.take(i as int));
            assert(longer.last() == rows@[i as int]);
        }
        let key = ShardKey::new(rows[i].0.as_str());
        if key.shard_index(new_total_shards) == target_shard {
            let k = rows[i].0.clone();
            let v = rows[i].1.clone();
            r.push((k, v));
        }
        i += 1;
    }
    assert(rows@.take(i as int) =~= rows@);
    r
}

/// The pairs that are to move, of a list of all pairs.
proof fn lemma_moves(
    rows: Seq<(String, String)>,
    data: Map<Seq<char>, Seq<char>>,
    target_shard: usize,
    new_total_shards: usize,
)
    requires
        lists_rows(rows, data),
    ensures
        lists_moves(
            movable(rows, target_shard, new_total_shards),
            data,
            target_shard,
            new_total_shards,
        ),
{
    let moves = movable(rows, target_shard, new_total_shards);
    lemma_movable(rows, target_shard, new_total_shards);
    assert forall|i: int| 0 <= i < moves.len() implies data.contains_key((#[trigger] moves[i]).0@)
        && data[moves[i].0@] == moves[i].1@ && to_move(
        moves[i].0@,
        target_shard,
        new_total_shards,
    ) by {
        let j = choose|j: int| 0 <= j < rows.len() && #[trigger] rows[j] == moves[i];
        assert(data.contains_key(rows[j].0@));
    }
    assert forall|k: Seq<char>| #[trigger]
        data.contains_key(k) && to_move(k, target_shard, new_total_shards) implies has_key(
        moves,
        k,
    ) by {
        let j = choose|j: int| 0 <= j < rows.len() && (#[trigger] rows[j]).0@ == k;
        assert(has_key(moves, rows[j].0@));
    }
}

/// What the movable pairs of a list with different keys are.
proof fn lemma_movable(rows: Seq<(String, String)>, target_shard: usize, new_total_shards: usize)
    requires
        forall|i: int, j: int|
            0 <= i < j < rows.len() ==> (#[trigger] rows[i]).0@ != (#[trigger] rows[j]).0@,
    ensures
        ({
            let moves = movable(rows, target_shard, new_total_shards);
            &&& forall|i: int|
                0 <= i < moves.len() ==> to_move(
                    (#[trigger] moves[i]).0@,
                    target_shard,
                    new_total_shards,
                ) && exists|j: int| 0 <= j < rows.len() && #[trigger] rows[j] == moves[i]
            &&& forall|j: int|
                0 <= j < rows.len() && to_move(
                    (#[trigger] rows[j]).0@,
                    target_shard,
                    new_total_shards,
                ) ==> has_key(moves, rows[j].0@)
            &&& forall|i: int, j: int|
                0 <= i < j < moves.len() ==> (#[trigger] moves[i]).0@ != (#[trigger] moves[j]).0@
        }),
    decreases rows.len(),
{
    if rows.len() > 0 {
        let short = rows.drop_last();
        let before = movable(short, target_shard, new_total_shards);
        let moves = movable(rows, target_shard, new_total_shards);
        lemma_movable(short, target_shard, new_total_shards);
        assert forall|i: int| 0 <= i < moves.len() implies to_move(
            (#[trigger] moves[i]).0@,
            target_shard,
            new_total_shards,
        ) && exists|j: int| 0 <= j < rows.len() && #[trigger] rows[j] == moves[i] by {
            if i < before.len() {
                assert(moves[i] == before[i]);
                let j = choose|j: int| 0 <= j < short.len() && #[trigger] short[j] == before[i];
                assert(rows[j] == moves[i]);
            } else {
                assert(rows[rows.len() - 1] == moves[i]);
            }
        }
        assert forall|j: int|
            0 <= j < rows.len() && to_move(
                (#[trigger] rows[j]).0@,
                target_shard,
                new_total_shards,
            ) implies has_key(moves, rows[j].0@) by {
            if j < short.len() {
                assert(short[j] == rows[j]);
                assert(has_key(before, short[j].0@));
                let i = choose|i: int|
                    0 <= i < before.len() && (#[trigger] before[i]).0@ == short[j].0@;
                assert(moves[i] == before[i]);
            } else {
                assert(moves[before.len() as int] == rows[j]);
            }
        }
        assert forall|i: int, j: int| 0 <= i < j < moves.len() implies (#[trigger] moves[i]).0@ != (
        #[trigger] moves[j]).0@ by {
            assert(moves[i] == before[i]);
            if j < before.len() {
                assert(moves[j] == before[j]);
            } else {
                let x = choose|x: int| 0 <= x < short.len() && #[trigger] short[x] == before[i];
                assert(rows[x] == short[x]);
                assert(rows[x].0@ != rows[rows.len() - 1].0@);
            }
        }
    }
}

/// The participants of a move: each pair is put into the target and deleted
/// from the source.
pub open spec fn planned(
    moves: Seq<(String, String)>,
    source_shard: usize,
    target_shard: usize,
) -> Seq<PartModel>
    decreases moves.len(),
{
    if moves.len() == 0 {
        Seq::empty()
    } else {
        let pair = moves.last();
        added(
            added(
                planned(moves.drop_last(), source_shard, target_shard),
                target_shard,
                OpModel::Put { shard_key: pair.0@, value: pair.1@ },
            ),
            source_shard,
            OpModel::Delete { shard_key: pair.0@ },
        )
    }
}

/// The transaction of a move.
pub fn plan_moves(
    moves: &Vec<(String, String)>,
    source_shard: usize,
    target_shard: usize,
    tx_id: &str,
) -> (r: DistributedTransaction)
    ensures
        r.tx_id@ == tx_id@,
        parts_of(r.shard_ops@) == planned(moves@, source_shard, target_shard),
        distinct(parts_of(r.shard_ops@)),
{
    let mut tx = DistributedTransaction::new(tx_id);
    let mut i: usize = 0;
    assert(moves@.take(0) =~= Seq::<(String, String)>::empty());
    while i < moves.len()
        invariant
            i <= moves@.len(),
            tx.tx_id@ == tx_id@,
            parts_of(tx.shard_ops@) == planned(
                moves@.take(i as int),
                source_shard,
                target_shard,
            ),
            distinct(parts_of(tx.shard_ops@)),
        decreases moves@.len() - i,
    {
        proof {
            let longer = moves@.take(i + 1);
            assert(longer.drop_last() =~= moves@.take(i as int));
            assert(longer.last() == moves@[i as int]);
        }
        tx.add_op(
            target_shard,
            Operation::Put { shard_key: moves[i].0.clone(), value: moves[i].1.clone() },
        );
        tx.add_op(source_shard, Operation::Delete { shard_key: moves[i].0.clone() });
        i += 1;
    }
    assert(moves@.take(i as int) =~= moves@);
    tx
}

/// Whether a transaction with the given participants ran without an error. Where
/// the shards always answer and all participants are willing, it was committed.
pub open spec fn ran<S: Shard>(
    parts: Seq<PartModel>,
    before: Seq<ShardModel>,
    after: Seq<ShardModel>,
    tx_id: Seq<char>,
) -> bool {
    exists|o: TxOutcome|
        {
            &&& #[trigger] executed::<S>(
                parts,
                before,
                after,
                tx_id,
                Ok::<TxOutcome, DistributedTxError>(o),
            )
            &&& S::always_answers() && willing(parts, parts.len() as int, before, tx_id) ==> o
                == TxOutcome::Committed
        }
}

/// Whether redistributing keys under the given identifier may end in `r` and
/// leave `after`.
///
/// A shard that is not there is reported, the source first. Otherwise the pairs
/// that belong to the target, if any, are put there and deleted from the source
/// in one transaction. An error leaves everything as it was or is that of the
/// transaction.
pub open spec fn rebalanced<S: Shard>(
    before: DistributedTxCoordinator<S>,
    after: DistributedTxCoordinator<S>,
    tx_id: Seq<char>,
    source_shard: usize,
    target_shard: usize,
    new_total_shards: usize,
    r: Result<u64, DistributedTxError>,
) -> bool {
    &&& after.shards@.len() == before.shards@.len()
    &&& if source_shard >= before.shards@.len() {
        r is Err && unavailable(r->Err_0, source_shard, "not found"@) && after == before
    } else if target_shard >= before.shards@.len() {
        r is Err && unavailable(r->Err_0, target_shard, "not found"@) && after == before
    } else {
        let data = before.shards@[source_shard as int].state().data;
        &&& S::always_answers() ==> r is Ok
        &&& match r {
            Ok(n) => exists|moves: Seq<(String, String)>|
                {
                    &&& #[trigger] lists_moves(moves, data, target_shard, new_total_shards)
                    &&& n == moves.len()
                    &&& if n == 0 {
                        after == before
                    } else {
                        ran::<S>(
                            planned(moves, source_shard, target_shard),
                            states(before.shards@),
                            states(after.shards@),
                            tx_id,
                        )
                    }
                },
            Err(e) => after == before || exists|moves: Seq<(String, String)>|
                {
                    &&& #[trigger] lists_moves(moves, data, target_shard, new_total_shards)
                    &&& executed::<S>(
                        planned(moves, source_shard, target_shard),
                        states(before.shards@),
                        states(after.shards@),
                        tx_id,
                        Err::<TxOutcome, DistributedTxError>(e),
                    )
                },
        }
    }
}

/// The number of shards that a setting asks for, one by default.
pub fn shard_count_setting(vars: &StrMap<String>) -> (r: usize)
    ensures
        r == batching::setting_usize(vars@, "DB_SHARD_COUNT"@, 1),
{
    env_usize(vars, "DB_SHARD_COUNT", 1)
}

/// Where the database of a shard lies: in memory unless a prefix is set.
pub fn shard_path(vars: &StrMap<String>, shard: usize) -> (r: String)
    ensures
        r@ == if vars@.contains_key("DB_SHARD_PATH_PREFIX"@) {
            vars@["DB_SHARD_PATH_PREFIX"@]@ + "_"@ + text::decimal(shard as nat) + ".db"@
        } else {
            ":memory:"@
        },
{
    match vars.get("DB_SHARD_PATH_PREFIX") {
        Some(prefix) => {
            let number = decimal_text(shard as u128);
            let mut r: String = prefix.clone();
            r.append("_");
            r.append(number.as_str());
            r.append(".db");
            r
        },
        None => ":memory:".to_owned(),
    }
}

/// A key belongs to exactly one of the shards.
pub proof fn law_keys_are_owned(key: Seq<char>, total_shards: usize)
    requires
        total_shards > 0,
    ensures
        owner_of(key, total_shards) < total_shards,
{
    let h = key_hash(vstd::utf8::encode_utf8(key)) as int;
    assert(0 <= h % (total_shards as int) < total_shards);
}

/// All or nothing: a transaction that is committed is committed by every
/// participant, and one that is rolled back leaves no key-value pair changed
/// anywhere.
pub proof fn law_all_or_nothing<S: Shard>(
    parts: Seq<PartModel>,
    before: Seq<ShardModel>,
    after: Seq<ShardModel>,
    tx_id: Seq<char>,
    o: TxOutcome,
    q: int,
    i: int,
)
    requires
        executed::<S>(parts, before, after, tx_id, Ok::<TxOutcome, DistributedTxError>(o)),
        0 <= q < parts.len(),
        0 <= i < before.len(),
    ensures
        o == TxOutcome::Committed ==> parts[q].shard < after.len()
            && after[parts[q].shard as int].committed.contains(tx_id),
        o == TxOutcome::Committed && described(parts[q].ops) ==> after[parts[q].shard as int].data
            == applied_all(before[parts[q].shard as int].data, parts[q].ops),
        o == TxOutcome::RolledBack ==> after[i].data == before[i].data && after[i].committed
            == before[i].committed,
{
    if o == TxOutcome::Committed {
        assert(parts[q].shard < before.len());
        assert(before[parts[q].shard as int].with_prepared(tx_id, parts[q].ops).commits_to(
            after[parts[q].shard as int],
            tx_id,
        ));
    } else {
        assert(same_content(after[i], before[i]));
    }
}

/// A transaction that was committed is refused when it is submitted again.
pub proof fn law_committed_is_refused_again<S: Shard>(
    parts: Seq<PartModel>,
    before: Seq<ShardModel>,
    after: Seq<ShardModel>,
    tx_id: Seq<char>,
)
    requires
        executed::<S>(
            parts,
            before,
            after,
            tx_id,
            Ok::<TxOutcome, DistributedTxError>(TxOutcome::Committed),
        ),
        parts.len() > 0,
    ensures
        refused(parts, after, tx_id),
{
    assert(parts[0].shard < before.len());
    assert(before[parts[0].shard as int].with_prepared(tx_id, parts[0].ops).commits_to(
        after[parts[0].shard as int],
        tx_id,
    ));
    assert(refused_by(parts, 0, after, tx_id));
}

/// The operations that put pairs.
spec fn puts(moves: Seq<(String, String)>) -> Seq<OpModel> {
    Seq::new(
        moves.len(),
        |i: int| OpModel::Put { shard_key: moves[i].0@, value: moves[i].1@ },
    )
}

/// The operations that delete the keys of pairs.
spec fn deletes(moves: Seq<(String, String)>) -> Seq<OpModel> {
    Seq::new(moves.len(), |i: int| OpModel::Delete { shard_key: moves[i].0@ })
}

/// The participants of a move between two shards.
proof fn lemma_planned(moves: Seq<(String, String)>, source_shard: usize, target_shard: usize)
    requires
        source_shard != target_shard,
        moves.len() > 0,
    ensures
        planned(moves, source_shard, target_shard) == seq![
            PartModel { shard: target_shard, ops: puts(moves) },
            PartModel { shard: source_shard, ops: deletes(moves) },
        ],
    decreases moves.len(),
{
    let short = moves.drop_last();
    let pair = moves.last();
    let put = OpModel::Put { shard_key: pair.0@, value: pair.1@ };
    let del = OpModel::Delete { shard_key: pair.0@ };
    let before = planned(short, source_shard, target_shard);
    assert(puts(moves) =~= puts(short).push(put));
    assert(deletes(moves) =~= deletes(short).push(del));
    reveal_with_fuel(place_of, 3);
    if short.len() > 0 {
        lemma_planned(short, source_shard, target_shard);
        assert(before.drop_last() =~= seq![PartModel { shard: target_shard, ops: puts(short) }]);
        assert(before.drop_last().drop_last() =~= Seq::<PartModel>::empty());
        assert(place_of(before, target_shard) == 0);
        let mid = added(before, target_shard, put);
        assert(mid =~= seq![
            PartModel { shard: target_shard, ops: puts(moves) },
            PartModel { shard: source_shard, ops: deletes(short) },
        ]);
        assert(mid.drop_last() =~= seq![PartModel { shard: target_shard, ops: puts(moves) }]);
        assert(mid.drop_last().drop_last() =~= Seq::<PartModel>::empty());
        assert(place_of(mid, source_shard) == 1);
        assert(added(mid, source_shard, del) =~= seq![
            PartModel { shard: target_shard, ops: puts(moves) },
            PartModel { shard: source_shard, ops: deletes(moves) },
        ]);
    } else {
        assert(before =~= Seq::<PartModel>::empty());
        assert(puts(moves) =~= seq![put]);
        assert(deletes(moves) =~= seq![del]);
        let mid = added(before, target_shard, put);
        assert(mid =~= seq![PartModel { shard: target_shard, ops: seq![put] }]);
        assert(mid.drop_last() =~= Seq::<PartModel>::empty());
        assert(place_of(mid, source_shard) == 1);
        assert(added(mid, source_shard, del) =~= seq![
            PartModel { shard: target_shard, ops: puts(moves) },
            PartModel { shard: source_shard, ops: deletes(moves) },
        ]);
    }
}

/// What putting and deleting pairs does to a key.
proof fn lemma_moves_applied(
    moves: Seq<(String, String)>,
    data: Map<Seq<char>, Seq<char>>,
    key: Seq<char>,
)
    requires
        forall|i: int, j: int|
            0 <= i < j < moves.len() ==> (#[trigger] moves[i]).0@ != (#[trigger] moves[j]).0@,
    ensures
        has_key(moves, key) ==> applied_all(data, puts(moves)).contains_key(key)
            && !applied_all(data, deletes(moves)).contains_key(key),
        forall|i: int|
            0 <= i < moves.len() && (#[trigger] moves[i]).0@ == key ==> applied_all(
                data,
                puts(moves),
            )[key] == moves[i].1@,
        !has_key(moves, key) ==> (applied_all(data, puts(moves)).contains_key(key)
            == data.contains_key(key)) && (applied_all(data, deletes(moves)).contains_key(key)
            == data.contains_key(key)) && applied_all(data, puts(moves))[key] == data[key]
            && applied_all(data, deletes(moves))[key] == data[key],
    decreases moves.len(),
{
    if moves.len() == 0 {
        assert(puts(moves) =~= Seq::<OpModel>::empty());
        assert(deletes(moves) =~= Seq::<OpModel>::empty());
    } else {
        let short = moves.drop_last();
        let pair = moves.last();
        assert(puts(moves).drop_last() =~= puts(short));
        assert(deletes(moves).drop_last() =~= deletes(short));
        assert(puts(moves).last() == (OpModel::Put { shard_key: pair.0@, value: pair.1@ }));
        assert(deletes(moves).last() == (OpModel::Delete { shard_key: pair.0@ }));
        lemma_moves_applied(short, data, key);
        if has_key(short, key) {
            let i = choose|i: int| 0 <= i < short.len() && (#[trigger] short[i]).0@ == key;
            assert(moves[i] == short[i]);
        }
        if has_key(moves, key) {
            let i = choose|i: int| 0 <= i < moves.len() && (#[trigger] moves[i]).0@ == key;
            if i < short.len() {
                assert(short[i] == moves[i]);
            }
        }
        assert forall|i: int|
            0 <= i < moves.len() && (#[trigger] moves[i]).0@ == key implies applied_all(
            data,
            puts(moves),
        )[key] == moves[i].1@ by {
            if i < short.len() {
                assert(short[i] == moves[i]);
                assert(moves[i].0@ != moves[moves.len() - 1].0@);
            }
        }
        if pair.0@ == key {
            assert(moves[moves.len() - 1].0@ == key);
        }
    }
}

/// Whether a key of the source that belongs to the target has gone there with
/// its value, and any other key stayed as it was in both shards.
pub open spec fn key_moved(
    source: Map<Seq<char>, Seq<char>>,
    target: Map<Seq<char>, Seq<char>>,
    source_after: Map<Seq<char>, Seq<char>>,
    target_after: Map<Seq<char>, Seq<char>>,
    target_shard: usize,
    new_total_shards: usize,
    key: Seq<char>,
) -> bool {
    if source.contains_key(key) && to_move(key, target_shard, new_total_shards) {
        &&& target_after.contains_key(key)
        &&& target_after[key] == source[key]
        &&& !source_after.contains_key(key)
    } else {
        &&& target_after.contains_key(key) == target.contains_key(key)
        &&& target_after[key] == target[key]
        &&& source_after.contains_key(key) == source.contains_key(key)
        &&& source_after[key] == source[key]
    }
}

/// A committed move loses nothing: every key that belongs to the target is
/// there with its value and no longer in the source, and every other key of
/// both shards is as it was.
pub proof fn law_rebalance_loses_nothing<S: Shard>(
    moves: Seq<(String, String)>,
    source_shard: usize,
    target_shard: usize,
    new_total_shards: usize,
    before: Seq<ShardModel>,
    after: Seq<ShardModel>,
    tx_id: Seq<char>,
    key: Seq<char>,
)
    requires
        source_shard != target_shard,
        source_shard < before.len(),
        target_shard < before.len(),
        moves.len() > 0,
        lists_moves(moves, before[source_shard as int].data, target_shard, new_total_shards),
        executed::<S>(
            planned(moves, source_shard, target_shard),
            before,
            after,
            tx_id,
            Ok::<TxOutcome, DistributedTxError>(TxOutcome::Committed),
        ),
    ensures
        key_moved(
            before[source_shard as int].data,
            before[target_shard as int].data,
            after[source_shard as int].data,
            after[target_shard as int].data,
            target_shard,
            new_total_shards,
            key,
        ),
{
    let parts = planned(moves, source_shard, target_shard);
    lemma_planned(moves, source_shard, target_shard);
    let source = before[source_shard as int].data;
    let target = before[target_shard as int].data;
    assert(described(puts(moves)));
    assert(described(deletes(moves)));
    assert(parts[0].shard == target_shard && parts[0].ops == puts(moves));
    assert(parts[1].shard == source_shard && parts[1].ops == deletes(moves));
    assert(before[parts[0].shard as int].with_prepared(tx_id, parts[0].ops).commits_to(
        after[parts[0].shard as int],
        tx_id,
    ));
    assert(before[parts[1].shard as int].with_prepared(tx_id, parts[1].ops).commits_to(
        after[parts[1].shard as int],
        tx_id,
    ));
    lemma_moves_applied(moves, target, key);
    lemma_moves_applied(moves, source, key);
    if source.contains_key(key) && to_move(key, target_shard, new_total_shards) {
        assert(has_key(moves, key));
        let i = choose|i: int| 0 <= i < moves.len() && (#[trigger] moves[i]).0@ == key;
        assert(source[moves[i].0@] == moves[i].1@);
    } else if has_key(moves, key) {
        let i = choose|i: int| 0 <= i < moves.len() && (#[trigger] moves[i]).0@ == key;
        assert(source.contains_key(moves[i].0@));
    }
}

/// Under an identifier that neither shard knows, and where the shards always
/// answer, redistributing keys moves exactly those that belong to the target:
/// each is there with its value and no longer in the source, and every other key
/// of both shards is as it was.
pub proof fn law_fresh_rebalance_moves<S: Shard>(
    before: DistributedTxCoordinator<S>,
    after: DistributedTxCoordinator<S>,
    tx_id: Seq<char>,
    source_shard: usize,
    target_shard: usize,
    new_total_shards: usize,
    n: u64,
    key: Seq<char>,
)
    requires
        S::always_answers(),
        source_shard != target_shard,
        source_shard < before.shards@.len(),
        target_shard < before.shards@.len(),
        !before.shards@[source_shard as int].state().knows(tx_id),
        !before.shards@[target_shard as int].state().knows(tx_id),
        rebalanced(
            before,
            after,
            tx_id,
            source_shard,
            target_shard,
            new_total_shards,
            Ok::<u64, DistributedTxError>(n),
        ),
    ensures
        key_moved(
            before.shards@[source_shard as int].state().data,
            before.shards@[target_shard as int].state().data,
            after.shards@[source_shard as int].state().data,
            after.shards@[target_shard as int].state().data,
            target_shard,
            new_total_shards,
            key,
        ),
{
    let data = before.shards@[source_shard as int].state().data;
    let moves = choose|moves: Seq<(String, String)>|
        {
            &&& #[trigger] lists_moves(moves, data, target_shard, new_total_shards)
            &&& n == moves.len()
            &&& if n == 0 {
                after == before
            } else {
                ran::<S>(
                    planned(moves, source_shard, target_shard),
                    states(before.shards@),
                    states(after.shards@),
                    tx_id,
                )
            }
        };
    if n == 0 {
        assert(!has_key(moves, key));
        assert(data.contains_key(key) && to_move(key, target_shard, new_total_shards) ==> has_key(
            moves,
            key,
        ));
    } else {
        let parts = planned(moves, source_shard, target_shard);
        let from = states(before.shards@);
        lemma_planned_ops(moves, source_shard, target_shard);
        assert(willing(parts, parts.len() as int, from, tx_id)) by {
            assert forall|q: int| 0 <= q < parts.len() implies (#[trigger] parts[q]).shard
                < from.len() && !from[parts[q].shard as int].knows(tx_id) by {}
        }
        law_rebalance_loses_nothing::<S>(
            moves,
            source_shard,
            target_shard,
            new_total_shards,
            from,
            states(after.shards@),
            tx_id,
            key,
        );
    }
}

/// An operation changes the value of its own key and of no other: what is put is
/// read, what is deleted is gone, and a statement in another language changes nothing
/// that is kept here.
pub proof fn law_operation_changes_its_key(
    data: Map<Seq<char>, Seq<char>>,
    key: Seq<char>,
    value: Seq<char>,
    other: Seq<char>,
)
    ensures
        applied(data, OpModel::Put { shard_key: key, value }).contains_key(key),
        applied(data, OpModel::Put { shard_key: key, value })[key] == value,
        !applied(data, OpModel::Delete { shard_key: key }).contains_key(key),
        applied(data, OpModel::RawSql { sql: value }) == data,
        other != key ==> applied(data, OpModel::Put { shard_key: key, value }).contains_key(other)
            == data.contains_key(other),
        other != key && data.contains_key(other) ==> applied(
            data,
            OpModel::Put { shard_key: key, value },
        )[other] == data[other],
        other != key ==> applied(data, OpModel::Delete { shard_key: key }).contains_key(other)
            == data.contains_key(other),
{
}

/// Operations take effect in their order: of two values put under one key the
/// later one stays.
pub proof fn law_operations_apply_in_order(
    data: Map<Seq<char>, Seq<char>>,
    ops: Seq<OpModel>,
    key: Seq<char>,
    a: Seq<char>,
    b: Seq<char>,
)
    ensures
        applied_all(data, Seq::<OpModel>::empty()) == data,
        ({
            let puts = ops.push(OpModel::Put { shard_key: key, value: a }).push(
                OpModel::Put { shard_key: key, value: b },
            );
            &&& applied_all(data, puts).contains_key(key)
            &&& applied_all(data, puts)[key] == b
        }),
        !applied_all(data, ops.push(OpModel::Delete { shard_key: key })).contains_key(key),
{
    let one = ops.push(OpModel::Put { shard_key: key, value: a });
    let two = one.push(OpModel::Put { shard_key: key, value: b });
    assert(two.drop_last() =~= one);
    let gone = ops.push(OpModel::Delete { shard_key: key });
    assert(gone.drop_last() =~= ops);
}

/// The owner of a key is found by hashing its bytes one after the other, each time
/// multiplying by a prime and adding the byte, and taking the remainder by the number of
/// shards. Without shards it is the first.
pub proof fn law_owner_is_the_hash_modulo_shards(key: Seq<char>, bytes: Seq<u8>, b: u8, n: usize)
    ensures
        key_hash(Seq::<u8>::empty()) == 14_695_981_039_346_656_037,
        key_hash(bytes.push(b)) == (key_hash(bytes) * 1_099_511_628_211 + b)
            % 0x1_0000_0000_0000_0000,
        n > 0 ==> owner_of(key, n) == key_hash(vstd::utf8::encode_utf8(key)) as int % (n as int),
        owner_of(key, 0) == 0,
        owner_of(key, 1) == 0,
{
    assert(bytes.push(b).drop_last() =~= bytes);
    let h = key_hash(bytes) as int;
    let x = h * 1_099_511_628_211;
    assert((x % 0x1_0000_0000_0000_0000 + b) % 0x1_0000_0000_0000_0000 == (x + b)
        % 0x1_0000_0000_0000_0000);
    if n > 0 {
        let k = key_hash(vstd::utf8::encode_utf8(key)) as int;
        assert(0 <= k % (n as int) < n) by (nonlinear_arith)
            requires
                n > 0,
        ;
        if n == 1 {
            assert(k % 1 == 0);
        }
    }
}

/// An operation joins the part of its shard, behind those that are there, and
/// leaves the other parts; a shard without a part gets one at the end.
pub proof fn law_operation_joins_its_part(
    parts: Seq<PartModel>,
    shard: usize,
    op: OpModel,
    q: int,
)
    requires
        distinct(parts),
    ensures
        distinct(added(parts, shard, op)),
        0 <= q < parts.len() && parts[q].shard == shard ==> added(parts, shard, op).len()
            == parts.len() && added(parts, shard, op)[q].ops == parts[q].ops.push(op) && added(
            parts,
            shard,
            op,
        )[q].shard == shard,
        0 <= q < parts.len() && parts[q].shard != shard ==> added(parts, shard, op)[q] == parts[q],
        (forall|i: int| 0 <= i < parts.len() ==> (#[trigger] parts[i]).shard != shard) ==> added(
            parts,
            shard,
            op,
        ) == parts.push(PartModel { shard, ops: seq![op] }),
{
    lemma_place(parts, shard);
    let at = place_of(parts, shard);
    if 0 <= q < parts.len() && parts[q].shard == shard && at < parts.len() && at != q {
        if at < q {
            assert(parts[at].shard != parts[q].shard);
        } else {
            assert(parts[q].shard != parts[at].shard);
        }
    }
    if at < parts.len() {
        let a = added(parts, shard, op);
        assert forall|i: int, j: int| 0 <= i < j < a.len() implies (#[trigger] a[i]).shard != (
        #[trigger] a[j]).shard by {
            assert(a[i].shard == parts[i].shard && a[j].shard == parts[j].shard);
        }
    }
}

/// The shard of an operation is found by the key that it names.
pub proof fn law_operations_are_routed_by_key(key: Seq<char>, value: Seq<char>)
    ensures
        routing_key(OpModel::Put { shard_key: key, value }) == key,
        routing_key(OpModel::Delete { shard_key: key }) == key,
        routing_key(OpModel::RawSql { sql: value }).len() == 0,
{
    reveal_strlit("");
}

/// The two phases on one shard: what is prepared changes no value until it is
/// committed, what is discarded is forgotten, and a commit applies exactly what was
/// prepared and remembers the transaction.
pub proof fn law_two_phases_on_a_shard(
    s: ShardModel,
    after: ShardModel,
    tx_id: Seq<char>,
    ops: Seq<OpModel>,
)
    ensures
        s.with_prepared(tx_id, ops).data == s.data,
        s.with_prepared(tx_id, ops).committed == s.committed,
        s.with_prepared(tx_id, ops).knows(tx_id),
        s.with_prepared(tx_id, ops).prepared[tx_id] == ops,
        s.discarded(tx_id).data == s.data,
        !s.discarded(tx_id).prepared.contains_key(tx_id),
        !s.prepared.contains_key(tx_id) ==> s.with_prepared(tx_id, ops).discarded(tx_id) == s,
        s.with_prepared(tx_id, ops).commits_to(after, tx_id) ==> after.committed.contains(tx_id)
            && !after.prepared.contains_key(tx_id) && after.knows(tx_id),
        s.with_prepared(tx_id, ops).commits_to(after, tx_id) && described(ops) ==> after.data
            == applied_all(s.data, ops),
        s.commits_to(after, tx_id) ==> s.prepared.contains_key(tx_id),
        s.knows(tx_id) <==> s.prepared.contains_key(tx_id) || s.committed.contains(tx_id),
{
    if !s.prepared.contains_key(tx_id) {
        assert(s.with_prepared(tx_id, ops).discarded(tx_id).prepared =~= s.prepared);
    }
}

/// The words on errors of transactions.
pub proof fn law_errors_are_put_into_words(shard: usize, s: String)
    ensures
        DistributedTxError::ShardUnavailable(shard, s).message() == "shard "@ + text::decimal(
            shard as nat,
        ) + " unavailable: "@ + s@,
        DistributedTxError::TransactionNotFound(s).message() == "transaction not found: "@ + s@,
        DistributedTxError::Serialization(s).message() == "serialization error: "@ + s@,
        DistributedTxError::ApplyFailed(s).message() == "apply failed: "@ + s@,
{
}

/// The rows to be moved are those that the target shard owns among the new number
/// of shards, in their order.
pub proof fn law_moved_rows_belong_to_the_target(
    rows: Seq<(String, String)>,
    row: (String, String),
    target_shard: usize,
    new_total_shards: usize,
)
    ensures
        movable(Seq::<(String, String)>::empty(), target_shard, new_total_shards).len() == 0,
        owner_of(row.0@, new_total_shards) == target_shard ==> movable(
            rows.push(row),
            target_shard,
            new_total_shards,
        ) == movable(rows, target_shard, new_total_shards).push(row),
        owner_of(row.0@, new_total_shards) != target_shard ==> movable(
            rows.push(row),
            target_shard,
            new_total_shards,
        ) == movable(rows, target_shard, new_total_shards),
{
    assert(rows.push(row).drop_last() =~= rows);
}

} // verus!
