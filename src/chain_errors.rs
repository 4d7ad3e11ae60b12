use vstd::prelude::*;

verus! {

/// Epoch number.
pub type Epoch = u32;

/// A SHA-256 hash.
#[derive(Debug, Clone, Copy, PartialEq, Eq)]
pub struct ChainHash {
    pub sha256: [u8; 32],
}

/// The hash of a public key.
#[derive(Debug, Clone, Copy, PartialEq, Eq)]
pub struct PublicKeyHash {
    pub hash: [u8; 20],
}

/// An output of a transaction: the transaction's hash and the output's index.
#[derive(Debug, Clone, Copy, PartialEq, Eq)]
pub struct OutputPointer {
    pub transaction_id: ChainHash,
    pub output_index: u32,
}

/// The error type for operations on the chain state.
#[derive(Debug, Clone, Copy, PartialEq, Eq)]
pub enum ChainInfoError {
    /// No chain state is loaded.
    ChainInfoNotFound,
}

/// Errors of the functions that build protocol messages.
#[derive(Debug, Clone, Copy, PartialEq, Eq)]
pub enum BuildersError {
    /// No inventory vectors to build an inventory announcement from.
    NoInvVectorsAnnouncement,
    /// No inventory vectors to build an inventory request from.
    NoInvVectorsRequest,
}

/// The error type for operations on a transaction.
#[derive(Debug, Clone, PartialEq, Eq)]
pub enum TransactionError {
    NotValidTransaction,
    /// The transaction creates value: its fee is negative.
    NegativeFee,
    /// A transaction with this hash is missing from a pool.
    PoolMiss { hash: ChainHash },
    /// No output at this pointer.
    OutputNotFound { output: OutputPointer },
    DataRequestNotFound { hash: ChainHash },
    InvalidSignature,
    InvalidTallyTransaction,
    InvalidDataRequestPoe,
    /// The eligibility proof's hash is greater than the target hash.
    DataRequestEligibilityDoesNotMeetTarget { vrf_hash: ChainHash, target_hash: ChainHash },
    InvalidFee { fee: u64, expected_fee: u64 },
    InvalidDataRequestReward { reward: i64 },
    /// The reward does not suit this number of witnesses.
    InvalidDataRequestValue { dr_value: u64, witnesses: u16 },
    InsufficientWitnesses,
    /// The local tally and the miner's tally differ.
    MismatchedConsensus { local_tally: Vec<u8>, miner_tally: Vec<u8> },
    MismatchingSignaturesNumber { signatures_n: u8, inputs_n: u8 },
    /// The signature of an input could not be verified.
    VerifyTransactionSignatureFail { hash: ChainHash, index: u8, msg: String },
    SignatureNotFound,
    PublicKeyHashMismatch { expected_pkh: PublicKeyHash, signature_pkh: PublicKeyHash },
    /// No commitment for a reveal.
    CommitNotFound,
    /// The commitment does not match the reveal's signature.
    MismatchedCommitment,
}

/// The error type for operations on a block.
#[derive(Debug, Clone, Copy, PartialEq, Eq)]
pub enum BlockError {
    /// The block has no transactions.
    Empty,
    /// The mint value differs from the fees plus the reward.
    MismatchedMintValue { mint_value: u64, fees_value: u64, reward_value: u64 },
    InvalidMintEpoch { mint_epoch: Epoch, block_epoch: Epoch },
    NotValidPoe,
    BlockEligibilityDoesNotMeetTarget { vrf_hash: ChainHash, target_hash: ChainHash },
    NotValidMerkleTree,
    /// The block's epoch lies in the future.
    BlockFromFuture { current_epoch: Epoch, block_epoch: Epoch },
    /// The block's epoch is older than the highest checkpoint.
    BlockOlderThanTip { chain_epoch: Epoch, block_epoch: Epoch },
    PreviousHashNotKnown { hash: ChainHash },
    CandidateFromDifferentEpoch { current_epoch: Epoch, block_epoch: Epoch },
    MismatchingCommitsNumber { commits: u32, rf: u32 },
    VerifySignatureFail { hash: ChainHash },
    PublicKeyHashMismatch { proof_pkh: PublicKeyHash, signature_pkh: PublicKeyHash },
}

/// Why a text could not be read as `<transaction id>:<output index>`.
#[derive(Debug, Clone, Copy, PartialEq, Eq)]
pub enum OutputPointerParseError {
    /// The transaction id is not a hash.
    ChainHash,
    /// The colon is missing.
    MissingColon,
    /// The output index is not an integer.
    ParseIntError,
}

/// Failed conversions between this protocol's keys and signatures and secp256k1's.
#[derive(Debug, Clone, Copy, PartialEq, Eq)]
pub enum Secp256k1ConversionError {
    FailSignatureConversion,
    FailPublicKeyConversion,
    /// A public key must be 33 bytes long.
    FailPublicKeyFromSlice { size: usize },
    FailSecretKeyConversion,
}

/// The error type for operations on the pool of data requests.
#[derive(Debug, Clone, Copy, PartialEq, Eq)]
pub enum DataRequestError {
    /// A block holds a commitment for an unknown data request.
    AddCommitFail { block_hash: ChainHash, tx_hash: ChainHash, dr_pointer: ChainHash },
    /// A block holds a reveal for an unknown data request.
    AddRevealFail { block_hash: ChainHash, tx_hash: ChainHash, dr_pointer: ChainHash },
    /// A block holds a tally for an unknown data request.
    AddTallyFail { block_hash: ChainHash, tx_hash: ChainHash, dr_pointer: ChainHash },
    NotCommitStage,
    NotRevealStage,
    NotTallyStage,
    /// A data request with no tally cannot be persisted.
    UnfinishedDataRequest,
}

/// The errors of a storage backend.
#[derive(Debug, Clone, Copy, PartialEq, Eq)]
pub enum StorageErrors {
    /// The backend could not be opened.
    ConnectionError,
    /// A value could not be put under a key.
    PutError,
    /// The value under a key could not be read.
    GetError,
    /// A key could not be deleted.
    DeleteError,
}

} // verus!
