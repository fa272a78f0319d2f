use vstd::prelude::*;
use crate::codec::{text_from_utf8, utf8_text};
use crate::text::{decimal, push_decimal, push_text};

verus! {

/// Envelope of a JSON-RPC reply.
pub struct JsonRpcResult<T> {
    pub jsonrpc: String,
    pub id: String,
    pub result: T,
}

/// Reply to `broadcast_tx_commit`.
pub struct BroadcastTxCommit {
    pub check_tx: CheckTx,
    pub deliver_tx: DeliverTx,
    pub hash: String,
    pub height: u64,
}

/// Reply to `broadcast_tx_async` and `broadcast_tx_sync`.
pub struct BroadcastTx {
    pub code: i32,
    pub data: String,
    pub log: String,
    pub hash: String,
}

/// Outcome of checking a transaction.
pub struct CheckTx {
    pub code: i32,
    pub data: String,
    pub log: String,
    pub gas: String,
    pub fee: String,
}

/// Outcome of delivering a transaction.
pub struct DeliverTx {
    pub code: i32,
    pub data: String,
    pub log: String,
    pub tags: Vec<String>,
}

/// A committed block.
pub struct Commit {
    pub canonical: bool,
    pub commit: CommitContent,
    pub header: CommitHeader,
}

/// Votes of a commit.
#[allow(non_snake_case)]
pub struct CommitContent {
    pub blockID: BlockId,
    pub precommits: Vec<PreCommit>,
}

/// A validator's precommit vote.
pub struct PreCommit {
    pub block_id: BlockId,
    pub height: u64,
    pub round: u64,
    pub signature: Signature,
    pub validator_address: String,
    pub validator_index: i32,
}

/// A vote signature.
pub struct Signature {
    pub data: String,
}

/// Header of a committed block.
pub struct CommitHeader {
    pub app_hash: String,
    pub chain_id: String,
    pub data_hash: String,
    pub height: u64,
    pub last_block_id: BlockId,
    pub last_commit_hash: String,
    pub num_txs: u64,
    pub time: String,
    pub validators_hash: String,
}

/// Identifier of a block.
pub struct BlockId {
    pub hash: String,
    pub parts: BlockIdParts,
}

/// Part-set header of a block identifier.
pub struct BlockIdParts {
    pub hash: String,
    pub total: u64,
}

/// The URI of a transaction broadcast through `endpoint`: the prefix, the
/// endpoint, then `?tx="` with the transaction text and a closing quote.
pub open spec fn broadcast_uri(prefix: Seq<char>, endpoint: Seq<char>, tx: Seq<char>) -> Seq<char> {
    prefix + endpoint + "?tx=\""@ + tx + "\""@
}

/// Builds the URI of a broadcast; `None` where the payload is not UTF-8.
fn broadcast_uri_for(prefix: &String, endpoint: &str, payload: &[u8]) -> (r: Option<String>)
    ensures
        match utf8_text(payload@) {
            Some(tx) => r matches Some(u) && u@ == broadcast_uri(prefix@, endpoint@, tx),
            None => r is None,
        },
{
    let tx = match text_from_utf8(payload) {
        Some(t) => t,
        None => return None,
    };
    let mut uri = String::new();
    push_text(&mut uri, prefix.as_str());
    push_text(&mut uri, endpoint);
    push_text(&mut uri, "?tx=\"");
    push_text(&mut uri, tx.as_str());
    push_text(&mut uri, "\"");
    assert(uri@ =~= broadcast_uri(prefix@, endpoint@, tx@));
    Some(uri)
}

/// URI of `broadcast_tx_commit` for a payload; `None` where the payload is
/// not UTF-8.
pub fn broadcast_tx_commit_uri(prefix: &String, payload: &[u8]) -> (r: Option<String>)
    ensures
        match utf8_text(payload@) {
            Some(tx) => r matches Some(u) && u@ == broadcast_uri(
                prefix@,
                "/broadcast_tx_commit"@,
                tx,
            ),
            None => r is None,
        },
{
    broadcast_uri_for(prefix, "/broadcast_tx_commit", payload)
}

/// URI of `broadcast_tx_async` for a payload; `None` where the payload is
/// not UTF-8.
pub fn broadcast_tx_async_uri(prefix: &String, payload: &[u8]) -> (r: Option<String>)
    ensures
        match utf8_text(payload@) {
            Some(tx) => r matches Some(u) && u@ == broadcast_uri(
                prefix@,
                "/broadcast_tx_async"@,
                tx,
            ),
            None => r is None,
        },
{
    broadcast_uri_for(prefix, "/broadcast_tx_async", payload)
}

/// URI of `broadcast_tx_sync` for a payload; `None` where the payload is
/// not UTF-8.
pub fn broadcast_tx_sync_uri(prefix: &String, payload: &[u8]) -> (r: Option<String>)
    ensures
        match utf8_text(payload@) {
            Some(tx) => r matches Some(u) && u@ == broadcast_uri(
                prefix@,
                "/broadcast_tx_sync"@,
                tx,
            ),
            None => r is None,
        },
{
    broadcast_uri_for(prefix, "/broadcast_tx_sync", payload)
}

/// URI of the commit at `height`.
pub fn commit_uri(prefix: &String, height: u64) -> (r: String)
    ensures
        r@ == prefix@ + "/commit?height="@ + decimal(height as nat),
{
    let mut uri = String::new();
    push_text(&mut uri, prefix.as_str());
    push_text(&mut uri, "/commit?height=");
    push_decimal(&mut uri, height);
    uri
}

/// URI of the node's help page: the prefix itself.
pub fn help_uri(prefix: &String) -> (r: String)
    ensures
        r@ == prefix@,
{
    let mut uri = String::new();
    push_text(&mut uri, prefix.as_str());
    assert(uri@ =~= prefix@);
    uri
}

} // verus!
