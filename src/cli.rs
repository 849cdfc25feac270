use vstd::prelude::*;

verus! {

/// The options of a run, as given on the command line or by the environment.
#[derive(Debug, Clone)]
pub struct Opts {
    /// How much is logged: 0 for warnings only, more for more.
    pub verbose: u8,
    /// The organization name.
    pub organization: Option<String>,
    /// The owner name.
    pub owner: Option<String>,
    /// The directory of the local repository.
    pub repository: String,
    /// The access token for the hosting service.
    pub token: String,
    /// Delete every remote label before creating the declared ones.
    pub sync: bool,
    /// Apply the labels to every repository of the owner.
    pub org: bool,
    /// The file that declares the labels.
    pub file: String,
    /// Update labels that already exist.
    pub update_existing: bool,
}

impl Opts {
    /// The policy these options select.
    pub fn mode(&self) -> (r: crate::plan::SyncMode)
        ensures
            r == (if self.sync {
                crate::plan::SyncMode::FullSync
            } else {
                crate::plan::SyncMode::Incremental { update_existing: self.update_existing }
            }),
    {
        if self.sync {
            crate::plan::SyncMode::FullSync
        } else {
            crate::plan::SyncMode::Incremental { update_existing: self.update_existing }
        }
    }
}

} // verus!
