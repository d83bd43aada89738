//! The computing core of a wallet for private payments on a Polkadot-JS ledger.
//!
//! - [`decimal`]: amounts as decimal numerals.
//! - [`asset`]: asset identifiers, assets and balances.
//! - [`post`]: transfer posts, what the wallet sends to the ledger.
//! - [`ledger`]: the connection to the ledger and the data that is pulled from it.
//! - [`wallet`]: the wallet, the calls that it makes, and the network that they run on.
//!
//! Nothing here waits, talks to a server or looks into a cryptographic value. Where such a value
//! has to be decoded, or a connection to be made, the caller gives the function that does it.
pub mod asset;
pub mod decimal;
pub mod ledger;
pub mod post;
pub mod wallet;

pub use crate::asset::{
    field_from_id_string, id_string_from_field, Asset, AssetId, BalanceState,
};
pub use crate::decimal::{decimal_string, parse_amount};
pub use crate::ledger::{
    EmptyHeader, HybridCiphertext, LedgerError, LightIncomingNote, PolkadotJsLedger,
    RawEncryptedNote, RawPullResponse, RawUtxo, RawVoidNumber, ReadResponse, SyncData,
};
pub use crate::post::{transfer_posts, TransferPost, TransferPostBody};
pub use crate::wallet::{Call, Request, RequestKind, Signer, Wallet};
