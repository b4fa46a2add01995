//! Virtual-filesystem layer: open-file handles, directory listings, the
//! `Filesystem` capability trait, and a single-slot registry that forwards
//! path operations to whichever filesystem is currently bound.

use vstd::prelude::*;

verus! {

/// A tagged path-resolution result: a file or a directory.
#[derive(Debug)]
pub enum VNode {
    File(File),
    Directory(Directory),
}

/// An open file: name, fully materialized contents, and a read cursor.
#[derive(Debug)]
pub struct File {
    pub name: String,
    pub pos: usize,
    pub data: Vec<u8>,
}

/// A directory listing: the directory's name and its entries in on-disk order.
#[derive(Debug, Clone)]
pub struct Directory {
    pub name: String,
    pub entries: Vec<DirEntry>,
}

/// One directory record: cleaned name, directory flag, start cluster, size.
#[derive(Debug, Clone)]
pub struct DirEntry {
    pub name: String,
    pub is_dir: bool,
    pub cluster: u16,
    pub size: u32,
}

/// The mathematical content of a directory entry.
pub ghost struct EntryModel {
    pub name: Seq<char>,
    pub is_dir: bool,
    pub cluster: u16,
    pub size: u32,
}

impl View for DirEntry {
    type V = EntryModel;

    open spec fn view(&self) -> EntryModel {
        EntryModel { name: self.name@, is_dir: self.is_dir, cluster: self.cluster, size: self.size }
    }
}

/// The mathematical content of a freshly opened file (its cursor is zero).
pub ghost struct FileModel {
    pub name: Seq<char>,
    pub data: Seq<u8>,
}

/// The mathematical content of a directory listing.
pub ghost struct DirModel {
    pub name: Seq<char>,
    pub entries: Seq<EntryModel>,
}

/// The models of a sequence of directory entries.
pub open spec fn entry_models(es: Seq<DirEntry>) -> Seq<EntryModel> {
    es.map_values(|e: DirEntry| e@)
}

/// Whether an open result delivers exactly the modelled file, cursor at zero.
pub open spec fn opened_matches(r: Option<File>, m: Option<FileModel>) -> bool {
    match m {
        Option::None => r is None,
        Option::Some(fm) => r matches Option::Some(f) && f.name@ == fm.name && f.pos == 0
            && f.data@ == fm.data,
    }
}

/// Whether a listing result delivers exactly the modelled directory.
pub open spec fn listing_matches(r: Option<Directory>, m: Option<DirModel>) -> bool {
    match m {
        Option::None => r is None,
        Option::Some(dm) => r matches Option::Some(d) && d.name@ == dm.name && entry_models(
            d.entries@,
        ) == dm.entries,
    }
}

impl File {
    /// Returns the byte under the cursor and advances the cursor, or `None`
    /// once the cursor has reached the end of the data; at the end the handle
    /// is left unchanged, so further reads keep returning `None`.
    pub fn read_byte(&mut self) -> (r: Option<u8>)
        ensures
            final(self).name == old(self).name,
            final(self).data == old(self).data,
            old(self).pos < old(self).data@.len() ==> r == Option::Some(
                old(self).data@[old(self).pos as int],
            ) && final(self).pos == old(self).pos + 1,
            old(self).pos >= old(self).data@.len() ==> r is None && final(self).pos == old(
                self,
            ).pos,
    {
        if self.pos >= self.data.len() {
            None
        } else {
            let byte = self.data[self.pos];
            self.pos = self.pos + 1;
            Some(byte)
        }
    }

    /// Moves the cursor back to the start of the data.
    pub fn rewind(&mut self)
        ensures
            final(self).name == old(self).name,
            final(self).data == old(self).data,
            final(self).pos == 0,
    {
        self.pos = 0;
    }
}

/// A filesystem capability: open a file by name, list a directory by path.
/// The two spec functions give the implementation's mathematical answer for
/// every path; the executable methods must deliver exactly that answer.
pub trait Filesystem: Sized {
    spec fn fs_open(&self, path: Seq<char>) -> Option<FileModel>;

    spec fn fs_list_dir(&self, path: Seq<char>) -> Option<DirModel>;

    fn open(&self, name: &str) -> (r: Option<File>)
        ensures
            opened_matches(r, self.fs_open(name@)),
    ;

    fn list_dir(&self, path: &str) -> (r: Option<Directory>)
        ensures
            listing_matches(r, self.fs_list_dir(path@)),
    ;
}

/// The registry: zero or one bound filesystem; unbound before the first mount.
pub struct VFS<F: Filesystem> {
    pub fs: Option<F>,
}

impl<F: Filesystem> VFS<F> {
    /// Whether a filesystem is currently bound.
    pub open spec fn mounted(&self) -> bool {
        self.fs is Some
    }

    /// The bound filesystem.
    pub open spec fn backing(&self) -> F
        recommends
            self.mounted(),
    {
        self.fs->Some_0
    }

    /// What opening a path through the registry yields: nothing while
    /// unbound, otherwise the bound filesystem's answer.
    pub open spec fn reg_open(&self, path: Seq<char>) -> Option<FileModel> {
        match self.fs {
            Option::None => Option::None,
            Option::Some(f) => f.fs_open(path),
        }
    }

    /// What listing a path through the registry yields.
    pub open spec fn reg_list_dir(&self, path: Seq<char>) -> Option<DirModel> {
        match self.fs {
            Option::None => Option::None,
            Option::Some(f) => f.fs_list_dir(path),
        }
    }

    /// Creates the registry with nothing bound.
    pub fn new() -> (r: Self)
        ensures
            !r.mounted(),
    {
        VFS { fs: None }
    }

    /// Binds a filesystem; a second call silently replaces the previous one.
    pub fn mount(&mut self, fs: F)
        ensures
            final(self).mounted(),
            final(self).backing() == fs,
    {
        self.fs = Some(fs);
    }

    /// Forwards an open to the bound filesystem; absent while unbound.
    pub fn open(&self, name: &str) -> (r: Option<File>)
        ensures
            opened_matches(r, self.reg_open(name@)),
    {
        match &self.fs {
            None => None,
            Some(f) => f.open(name),
        }
    }

    /// Forwards a listing to the bound filesystem; absent while unbound.
    pub fn list_dir(&self, path: &str) -> (r: Option<Directory>)
        ensures
            listing_matches(r, self.reg_list_dir(path@)),
    {
        match &self.fs {
            None => None,
            Some(f) => f.list_dir(path),
        }
    }
}

} // verus!
