//! Where the program keeps its files, and how it reports a failed step.
use vstd::prelude::*;
use crate::text::{concat, join_path, join_path_exec};

verus! {

/// The line to log for the outcome of a step: `Err : ` and the error text for a
/// failure, nothing for a success.
pub fn match_error<T>(r: Result<T, String>) -> (line: Option<String>)
    ensures
        r is Ok ==> line is None,
        r matches Err(e) ==> (line matches Some(l) && l@ == "Err : "@ + e@),
{
    match r {
        Ok(_) => None,
        Err(e) => Some(concat("Err : ", e.as_str())),
    }
}

/// The folders to create, in order, under the configuration folder
/// `config_dir`: that folder, then its `beamfiles` subfolder. Without a
/// configuration folder there is nothing to create.
pub fn load_or_create_config(config_dir: Option<String>) -> (folders: Vec<String>)
    ensures
        config_dir is None ==> folders@.len() == 0,
        config_dir matches Some(d) ==> (folders@.len() == 2 && folders@[0]@ == d@
            && folders@[1]@ == join_path(d@, "beamfiles"@)),
{
    let mut folders: Vec<String> = Vec::new();
    match config_dir {
        Some(d) => {
            let beam = join_path_exec(d.as_str(), "beamfiles");
            folders.push(d);
            folders.push(beam);
        },
        None => {},
    }
    folders
}

/// The file that holds an exported image before it is sent.
pub fn send_tar_path(config_dir: &str) -> (p: String)
    ensures
        p@ == join_path(config_dir@, "beamfiles/send.tar"@),
{
    join_path_exec(config_dir, "beamfiles/send.tar")
}

/// The file that holds a received image before it is loaded.
pub fn recv_tar_path(config_dir: &str) -> (p: String)
    ensures
        p@ == join_path(config_dir@, "beamfiles/recv.tar"@),
{
    join_path_exec(config_dir, "beamfiles/recv.tar")
}

/// The folder deleted once a transfer is over.
pub fn beamfiles_dir(config_dir: &str) -> (p: String)
    ensures
        p@ == join_path(config_dir@, "beamfiles/"@),
{
    join_path_exec(config_dir, "beamfiles/")
}

} // verus!
