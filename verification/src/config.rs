//! The run configuration as the core sees it: an optional source block, an
//! optional destination block, and the decisions taken from them before a
//! run starts — which adapter serves a backup or restore, and how the
//! bridge's envelope is configured.  A backup without a source block, or a
//! restore without a destination block, is a fatal configuration error.

use vstd::prelude::*;
use crate::errors::CoreError;
use crate::tasks::{Bridge, key_view};
use crate::transformer::{SkipRule, TransformerRule};

verus! {

/// A closed choice of database connection, each carrying its parameters.
/// The MySQL variant is declared but its transfer paths are not
/// implemented: selecting it fails explicitly, never silently.
pub enum ConnectionUri {
    Postgres { host: String, port: u16, username: String, password: String, database: String },
    Mysql { host: String, port: u16, username: String, password: String, database: String },
    MongoDB {
        host: String,
        port: u16,
        username: String,
        password: String,
        database: String,
        authentication_db: String,
    },
}

/// The `source` block: where a backup reads from, and what it does to the
/// data on the way.
pub struct SourceConfig {
    pub connection_uri: ConnectionUri,
    pub compression: Option<bool>,
    pub encryption_key: Option<String>,
    pub transformers: Vec<TransformerRule>,
    pub skip: Vec<SkipRule>,
}

/// The `destination` block: where a restore writes to.
pub struct DestinationConfig {
    pub connection_uri: ConnectionUri,
    pub compression: Option<bool>,
    pub encryption_key: Option<String>,
}

/// The configuration a run starts from.
pub struct Config {
    pub source: Option<SourceConfig>,
    pub destination: Option<DestinationConfig>,
}

/// A block that does not set compression means compression on.
pub open spec fn effective_compression(setting: Option<bool>) -> bool {
    match setting {
        Some(c) => c,
        None => true,
    }
}

/// The key bytes a block configures: none when absent or empty.
pub open spec fn effective_key(setting: Option<String>) -> Option<Seq<u8>> {
    match setting {
        Some(s) => if vstd::utf8::encode_utf8(s@).len() > 0 {
            Some(vstd::utf8::encode_utf8(s@))
        } else {
            None
        },
        None => None,
    }
}

/// Apply the source block's envelope settings, then the destination
/// block's: when both are present the later call wins, by design.
pub fn configure_bridge(bridge: &mut Bridge, config: &Config)
    requires
        old(bridge).wf(),
    ensures
        final(bridge).wf(),
        final(bridge).index == old(bridge).index,
        final(bridge).objects == old(bridge).objects,
        final(bridge).compression == (match config.destination {
            Some(d) => effective_compression(d.compression),
            None => match config.source {
                Some(s) => effective_compression(s.compression),
                None => old(bridge).compression,
            },
        }),
        key_view(final(bridge).encryption_key) == (match config.destination {
            Some(d) => effective_key(d.encryption_key),
            None => match config.source {
                Some(s) => effective_key(s.encryption_key),
                None => key_view(old(bridge).encryption_key),
            },
        }),
{
    match &config.source {
        Some(source) => {
            let compression = match source.compression {
                Some(c) => c,
                None => true,
            };
            bridge.set_compression(compression);
            let key = match &source.encryption_key {
                Some(k) => Some(k.clone()),
                None => None,
            };
            bridge.set_encryption_key(key);
        }
        None => {}
    }
    match &config.destination {
        Some(dest) => {
            let compression = match dest.compression {
                Some(c) => c,
                None => true,
            };
            bridge.set_compression(compression);
            let key = match &dest.encryption_key {
                Some(k) => Some(k.clone()),
                None => None,
            };
            bridge.set_encryption_key(key);
        }
        None => {}
    }
}

/// The concrete source adapter a backup run drives.
#[derive(Debug)]
pub enum SourceAdapter {
    Postgres,
    MongoDB,
    /// Pass-through: the dump is read from a local stream, not a live
    /// connection.
    PostgresStdin,
}

/// The concrete destination adapter a restore run drives.
#[derive(Debug)]
pub enum DestinationAdapter {
    Postgres,
    MongoDB,
    /// Pass-through: the restored dump is written to a local stream.
    PostgresStdout,
}

/// Decide how a requested backup runs: which adapter, or which
/// configuration error stops it before any transfer starts.
pub fn plan_backup(config: &Config, source_type: &Option<String>) -> (r: Result<
    SourceAdapter,
    CoreError,
>)
    ensures
        config.source is None ==> (r matches Err(e) && e is MissingSource),
        config.source matches Some(s) ==> (match *source_type {
            None => match s.connection_uri {
                ConnectionUri::Postgres { .. } => r matches Ok(a) && a is Postgres,
                ConnectionUri::Mysql { .. } => r matches Err(e) && e is NotImplemented,
                ConnectionUri::MongoDB { .. } => r matches Ok(a) && a is MongoDB,
            },
            Some(v) => if v@ == "postgres"@ || v@ == "postgresql"@ {
                r matches Ok(a) && a is PostgresStdin
            } else {
                r matches Err(e) && (e matches CoreError::UnrecognizedSourceType(u) && u@ == v@)
            },
        }),
{
    match &config.source {
        None => Err(CoreError::MissingSource),
        Some(source) => match source_type {
            None => match &source.connection_uri {
                ConnectionUri::Postgres { .. } => Ok(SourceAdapter::Postgres),
                ConnectionUri::Mysql { .. } => Err(CoreError::NotImplemented),
                ConnectionUri::MongoDB { .. } => Ok(SourceAdapter::MongoDB),
            },
            Some(v) => {
                let postgres = String::from_str("postgres");
                let postgresql = String::from_str("postgresql");
                if *v == postgres || *v == postgresql {
                    Ok(SourceAdapter::PostgresStdin)
                } else {
                    Err(CoreError::UnrecognizedSourceType(v.clone()))
                }
            }
        },
    }
}

/// Decide how a requested restore runs: the direct-output mode writes to a
/// local stream and suppresses progress reporting entirely; otherwise the
/// destination block picks the adapter.  The second component says whether
/// progress events are consumed.
pub fn plan_restore(config: &Config, output: bool) -> (r: Result<
    (DestinationAdapter, bool),
    CoreError,
>)
    ensures
        config.destination is None ==> (r matches Err(e) && e is MissingDestination),
        config.destination matches Some(d) ==> (if output {
            r matches Ok(p) && p.0 is PostgresStdout && p.1 == false
        } else {
            match d.connection_uri {
                ConnectionUri::Postgres { .. } => r matches Ok(p) && p.0 is Postgres && p.1
                    == true,
                ConnectionUri::Mysql { .. } => r matches Err(e) && e is NotImplemented,
                ConnectionUri::MongoDB { .. } => r matches Ok(p) && p.0 is MongoDB && p.1 == true,
            }
        }),
{
    match &config.destination {
        None => Err(CoreError::MissingDestination),
        Some(dest) => {
            if output {
                Ok((DestinationAdapter::PostgresStdout, false))
            } else {
                match &dest.connection_uri {
                    ConnectionUri::Postgres { .. } => Ok((DestinationAdapter::Postgres, true)),
                    ConnectionUri::Mysql { .. } => Err(CoreError::NotImplemented),
                    ConnectionUri::MongoDB { .. } => Ok((DestinationAdapter::MongoDB, true)),
                }
            }
        }
    }
}

} // verus!
