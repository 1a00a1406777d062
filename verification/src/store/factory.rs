//! The factories of the stores kept on disk or in temporary files, and
//! the choice between them.

use crate::store::error::{Error, Result};
use crate::text::str_eq;
use vstd::prelude::*;

verus! {

/// `TemporaryStoreFactory` is a factory for temporary stores.
pub struct TemporaryStoreFactory;

/// `PersistentStoreFactory` is a factory for persistent stores.
pub struct PersistentStoreFactory;

/// `PoolFactory` is the factory for the pools of pending items.
pub struct PoolFactory;

/// `StoreFactory` is the factory for store types.
pub struct StoreFactory;

/// The kind of store that a configuration asks for.
#[derive(Clone, Debug)]
pub enum StoreKind {
    /// A store in a temporary file.
    Temporary,
    /// A store in the file at `path`.
    Persistent { path: String },
}

impl StoreFactory {
    /// `create` decides which store a configuration asks for: a temporary
    /// store for the kind "temporary", a persistent store at `path` for the
    /// kind "persistent", which needs a path.
    pub fn create(path: Option<String>, kind: &str) -> (r: Result<StoreKind>)
        ensures
            match r {
                Ok(StoreKind::Temporary) => kind@ == "temporary"@,
                Ok(StoreKind::Persistent { path: p }) => kind@ == "persistent"@ && path == Some(p),
                Err(e) => if kind@ == "temporary"@ {
                    false
                } else if kind@ == "persistent"@ {
                    e is InvalidPath && path is None
                } else {
                    e is InvalidKind
                },
            },
    {
        if str_eq(kind, "temporary") {
            Ok(StoreKind::Temporary)
        } else if str_eq(kind, "persistent") {
            match path {
                Some(p) => Ok(StoreKind::Persistent { path: p }),
                None => Err(Error::InvalidPath),
            }
        } else {
            Err(Error::InvalidKind)
        }
    }
}

} // verus!
