use vstd::prelude::*;

verus! {

/// What stands at the place of the destination directory before a run.
#[derive(Clone, Copy, Debug, PartialEq, Eq, Structural)]
pub enum Occupant {
    /// Nothing is there.
    Nothing,
    /// A regular file.
    File,
    /// A directory, with whatever it holds.
    Directory,
    /// Something that is neither.
    Other,
}

/// What has to go before the destination directory is created.
#[derive(Clone, Copy, Debug, PartialEq, Eq, Structural)]
pub enum Removal {
    /// Nothing is removed.
    Keep,
    /// The file is removed.
    RemoveFile,
    /// The directory is removed with all it holds.
    RemoveDirAll,
}

/// Classifies the place of the destination directory from what the file
/// system says of it; a regular file is taken as such before a directory.
pub open spec fn occupant_of(exists: bool, is_file: bool, is_dir: bool) -> Occupant {
    if !exists {
        Occupant::Nothing
    } else if is_file {
        Occupant::File
    } else if is_dir {
        Occupant::Directory
    } else {
        Occupant::Other
    }
}

/// The removal that each occupant calls for.
pub open spec fn removal_for(occupant: Occupant) -> Removal {
    match occupant {
        Occupant::File => Removal::RemoveFile,
        Occupant::Directory => Removal::RemoveDirAll,
        Occupant::Nothing | Occupant::Other => Removal::Keep,
    }
}

/// Classifies the place of the destination directory.
pub fn classify(exists: bool, is_file: bool, is_dir: bool) -> (r: Occupant)
    ensures
        r == occupant_of(exists, is_file, is_dir),
{
    if !exists {
        Occupant::Nothing
    } else if is_file {
        Occupant::File
    } else if is_dir {
        Occupant::Directory
    } else {
        Occupant::Other
    }
}

/// Decides what is removed before the destination directory is created
/// afresh: a file or a directory in its place goes, anything else stays.
pub fn init_plan(occupant: Occupant) -> (r: Removal)
    ensures
        r == removal_for(occupant),
        r == Removal::RemoveFile <==> occupant == Occupant::File,
        r == Removal::RemoveDirAll <==> occupant == Occupant::Directory,
{
    match occupant {
        Occupant::File => Removal::RemoveFile,
        Occupant::Directory => Removal::RemoveDirAll,
        Occupant::Nothing => Removal::Keep,
        Occupant::Other => Removal::Keep,
    }
}

} // verus!
