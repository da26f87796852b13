//! The server side: the sharded database and the issuer that answers requests.

pub mod issuer;
pub mod key_file;
pub mod laws;
pub mod model;
pub mod records;
pub mod shards;

pub use issuer::{
    judge_charge, judge_insertion, judge_nonce, judge_shape, judge_spend, params_seed,
    system_params, total_amount, Flow, Issuer, Query, Step,
};
pub use model::{total, Answer};
pub use records::Records;
pub use key_file::{keys_in, new_key_file};
pub use shards::{shard_file_name, KeyKind, KeySet, ShardedDB};
