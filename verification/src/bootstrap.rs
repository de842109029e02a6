//! The bootstrap controller: the idempotency gate around deployment.
//!
//! The persisted path is modelled as a `FileState`: either no file, or the
//! file's bytes. The controller decides in two steps. `start_bootstrap` reads
//! the state: a stored record short-circuits, an absent file calls for
//! deployment, anything else is fatal, so that an unreadable but possibly
//! valid record is never overwritten. `complete_bootstrap` turns a deployment
//! outcome into the final result and the new file state: a record is written
//! exactly on success, and a failure leaves the path untouched.

use vstd::prelude::*;

use crate::database::{
    format_database, lemma_format_database_injective, Database, DatabaseModel,
};
use crate::error::Error;

verus! {

/// What durably stands at the persisted path.
#[derive(Debug)]
pub enum FileState {
    /// No file: the one condition that allows deployment.
    Absent,
    /// A file with these bytes.
    Present(Vec<u8>),
}

impl View for FileState {
    type V = Option<Seq<u8>>;

    open spec fn view(&self) -> Option<Seq<u8>> {
        match self {
            FileState::Absent => None,
            FileState::Present(b) => Some(b@),
        }
    }
}

/// The controller's first decision.
#[derive(Debug)]
pub enum BootstrapPlan {
    /// A record is stored: return it, deploy nothing.
    UseStored(Database),
    /// No record is stored: deploy.
    Deploy,
}

/// The record a byte string stores: the unique well-formed record it is the
/// image of, if it is one.
pub open spec fn spec_parse_database(b: Seq<u8>) -> Option<DatabaseModel> {
    if exists|d: DatabaseModel| d.wf() && format_database(d) == b {
        Some(choose|d: DatabaseModel| d.wf() && format_database(d) == b)
    } else {
        None
    }
}

/// The first step's meaning: no file calls for deployment, a stored record
/// is returned, unreadable bytes are fatal.
pub open spec fn spec_start(f: Option<Seq<u8>>) -> Result<Option<DatabaseModel>, Error> {
    match f {
        None => Ok(None),
        Some(b) => match spec_parse_database(b) {
            Some(d) => Ok(Some(d)),
            None => Err(Error::RecordUnreadable),
        },
    }
}

/// The second step's meaning: a successful deployment is returned and its
/// record written; a failure is returned and the path left untouched.
pub open spec fn spec_complete(f: Option<Seq<u8>>, outcome: Result<DatabaseModel, Error>) -> (
    Result<DatabaseModel, Error>,
    Option<Seq<u8>>,
) {
    match outcome {
        Ok(d) => (Ok(d), Some(format_database(d))),
        Err(e) => (Err(e), f),
    }
}

/// Decides from the persisted state whether to return the stored record,
/// deploy, or fail.
pub fn start_bootstrap(file: &FileState) -> (r: Result<BootstrapPlan, Error>)
    ensures
        match r {
            Ok(BootstrapPlan::UseStored(db)) => db.wf() && spec_start(file@) == Ok::<
                Option<DatabaseModel>,
                Error,
            >(Some(db@)),
            Ok(BootstrapPlan::Deploy) => spec_start(file@) == Ok::<
                Option<DatabaseModel>,
                Error,
            >(None),
            Err(e) => spec_start(file@) == Err::<Option<DatabaseModel>, Error>(e),
        },
{
    match file {
        FileState::Absent => Ok(BootstrapPlan::Deploy),
        FileState::Present(bytes) => {
            match Database::from_bytes(bytes.as_slice()) {
                Some(db) => {
                    proof {
                        let c = choose|d: DatabaseModel|
                            d.wf() && format_database(d) == bytes@;
                        assert(db@.wf() && format_database(db@) == bytes@);
                        lemma_format_database_injective(c, db@);
                    }
                    Ok(BootstrapPlan::UseStored(db))
                },
                None => Err(Error::RecordUnreadable),
            }
        },
    }
}

/// Settles the bootstrap after deployment was required: hands the outcome
/// through and writes the record exactly on success.
pub fn complete_bootstrap(file: FileState, outcome: Result<Database, Error>) -> (r: (
    Result<Database, Error>,
    FileState,
))
    requires
        file@ == None::<Seq<u8>>,
        (outcome matches Ok(db) ==> db.wf()),
    ensures
        r.0 == outcome,
        (match outcome {
            Ok(db) => r.1@ == Some(format_database(db@)),
            Err(_) => r.1@ == file@,
        }),
{
    match outcome {
        Ok(db) => {
            let bytes = db.to_bytes();
            (Ok(db), FileState::Present(bytes))
        },
        Err(e) => (Err(e), file),
    }
}

/// Law of idempotence: after a bootstrap deploys successfully and persists
/// record `d`, the path holds exactly the image of `d`, and every later
/// bootstrap against that path returns `d` without calling for deployment.
pub proof fn lemma_bootstrap_idempotent(d: DatabaseModel)
    requires
        d.wf(),
    ensures
        spec_complete(None, Ok(d)) == (Ok::<DatabaseModel, Error>(d), Some(format_database(d))),
        spec_start(Some(format_database(d))) == Ok::<Option<DatabaseModel>, Error>(Some(d)),
{
    let b = format_database(d);
    assert(spec_parse_database(b) == Some(d)) by {
        assert(d.wf() && format_database(d) == b);
        let c = choose|x: DatabaseModel| x.wf() && format_database(x) == b;
        lemma_format_database_injective(c, d);
    }
}

/// Law: a failed deployment writes nothing; the path keeps whatever state it
/// had, and the failure is handed through unchanged.
pub proof fn lemma_failed_deploy_writes_nothing(f: Option<Seq<u8>>, e: Error)
    ensures
        spec_complete(f, Err(e)) == (Err::<DatabaseModel, Error>(e), f),
{
}

} // verus!
