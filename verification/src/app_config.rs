//! Configuration handed to the storage service: where the backing store
//! lives. Resolving a real path from the environment is a concern of the
//! surrounding application; the library only consumes the resolved string.

use crate::errors::StorageError;
use vstd::prelude::*;

verus! {

/// The one configuration input of the storage service.
pub struct AppConfig {
    /// The backing store's file location, or `":memory:"` for an ephemeral
    /// in-memory instance.
    pub db_path: String,
}

/// The path sentinel that selects an ephemeral in-memory store.
pub open spec fn in_memory_path() -> Seq<char> {
    ":memory:"@
}

/// A configuration whose store is ephemeral and starts empty; what tests use.
pub fn get_test_app_config() -> (r: Result<AppConfig, StorageError>)
    ensures
        r is Ok,
        r->Ok_0.db_path@ == in_memory_path(),
{
    Ok(AppConfig { db_path: ":memory:".to_owned() })
}

} // verus!
