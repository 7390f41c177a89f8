//! Virtual File System and specific file system drivers (e.g. FAT32)
use vstd::prelude::*;

/// File path struct
pub mod path;
/// FAT filesystem implementation
pub mod fat;

pub use path::FilePath;

verus! {

/// Metadata on a file or directory, but not its contents
#[derive(Debug)]
pub struct FileMetadata {
    pub filename: String,
    pub is_directory: bool,
}

pub type FileSystemResult<T> = Result<T, FileSystemError>;

#[derive(Debug)]
pub enum FileSystemError {
    /// Couldnt mount the given block device
    MountError(String),
}

/// A file system that can be mounted from a block device
pub trait FileSystem<D>: Sized {
    /// Consumes a block device to mount the filesystem to it
    fn mount(drive: D) -> FileSystemResult<Self>;

    /// Unmounts the filesystem, consuming itself and returning its inner drive
    fn unmount(self) -> D;
}

} // verus!
