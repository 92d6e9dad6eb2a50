//! Race-result ingestion library: a decoded result batch is validated
//! against a relational store (race existence, seat resolution and seat
//! validation), normalized, and recorded atomically — the whole batch
//! commits or nothing does; a fixed scoring table with bonus modifiers
//! awards points per finishing position.
use vstd::prelude::*;
use vstd::string::StrSliceExecFns;

pub mod batch;
pub mod scoring;
pub mod store;

verus! {

/// Everything an invocation needs: where the store lives, what to do, and
/// which file to ingest.
#[derive(Debug, Clone)]
pub struct Config {
    pub database_url: String,
    pub mode: ConfigMode,
    pub filepath: String,
}

/// The operation selected on the command line. Ingesting a race result file
/// is the only mode.
#[derive(Debug, Clone, Copy, PartialEq, Eq, Structural)]
pub enum ConfigMode {
    RaceResult,
}

/// Why an ingestion failed: the transaction could not be opened or
/// committed, the referenced race does not exist, the driver could not be
/// found, or a seat could neither be resolved nor validated.
#[derive(Debug, Clone, Copy, PartialEq, Eq, Structural)]
pub enum LibError {
    TransactionError,
    RaceDoesntExist,
    DriverNotFound,
    SeatNotFound,
}

/// The mode selector accepted on the command line: the flag "r", in either
/// case, selects race-result ingestion; everything else is rejected.
pub fn mode_from_flag(flag: &str) -> (mode: Option<ConfigMode>)
    ensures
        mode is Some <==> (flag@ == seq!['r'] || flag@ == seq!['R']),
        mode is Some ==> mode == Some(ConfigMode::RaceResult),
{
    if flag.unicode_len() == 1 {
        let selector = flag.get_char(0);
        if selector == 'r' || selector == 'R' {
            proof {
                assert(flag@ =~= seq![selector]);
            }
            return Some(ConfigMode::RaceResult);
        }
        proof {
            assert(flag@[0] == selector);
            assert(flag@ != seq!['r'] && flag@ != seq!['R']);
        }
        return None;
    }
    proof {
        assert(seq!['r'].len() == 1 && seq!['R'].len() == 1);
    }
    None
}

} // verus!
