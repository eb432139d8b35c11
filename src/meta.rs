//! Mod metadata: load order, file layout and per-mod manifests, and the
//! merging of assets that several mods provide.
use vstd::prelude::*;
use std::collections::HashMap;

verus! {

/// An asset that can be merged with the versions of it that mods earlier in
/// the load order provided, instead of replacing them.
pub trait MergingAsset: Sized {
    /// Merges this version into `accumulator`, the merge of the earlier ones.
    fn merge(&self, accumulator: Option<Self>) -> Self;
}

/// The names of the mods, in the order they are loaded.
#[derive(Clone, Debug)]
pub struct ModOrder {
    pub mods: Vec<String>,
}

/// Where a mod keeps its files.
#[derive(Clone, Debug)]
pub struct FileStructure {
    /// Config files, each loaded by the config loader.
    pub configs: Vec<String>,
    /// Sound effect directories by group and item id.
    pub sfx: HashMap<String, HashMap<String, String>>,
    /// Music directories by group and item id.
    pub music: HashMap<String, HashMap<String, String>>,
}

/// Description of one mod.
#[derive(Clone, Debug)]
pub struct Manifest {
    pub name: String,
    pub description: String,
    pub load_order_hint: i32,
}

/// One metadata file.
#[derive(Clone, Debug)]
pub enum MetaAsset {
    ModOrder(ModOrder),
    FileStructure(FileStructure),
    Manifest(Manifest),
}

impl MetaAsset {
    /// The load order this file holds; it must hold one.
    pub fn as_mod_order(&self) -> (m: &ModOrder)
        requires
            self is ModOrder,
        ensures
            *self == MetaAsset::ModOrder(*m),
    {
        match self {
            MetaAsset::ModOrder(value) => value,
            _ => vstd::pervasive::unreached(),
        }
    }

    /// The load order this file holds, to change in place; it must hold one.
    pub fn as_mod_order_mut(&mut self) -> (m: &mut ModOrder)
        requires
            *old(self) is ModOrder,
        ensures
            *old(self) == MetaAsset::ModOrder(*m),
            *final(self) == MetaAsset::ModOrder(*final(m)),
    {
        match self {
            MetaAsset::ModOrder(value) => value,
            _ => vstd::pervasive::unreached(),
        }
    }

    /// The file layout this file holds; it must hold one.
    pub fn as_file_structure(&self) -> (f: &FileStructure)
        requires
            self is FileStructure,
        ensures
            *self == MetaAsset::FileStructure(*f),
    {
        match self {
            MetaAsset::FileStructure(value) => value,
            _ => vstd::pervasive::unreached(),
        }
    }

    /// The manifest this file holds; it must hold one.
    pub fn as_manifest(&self) -> (m: &Manifest)
        requires
            self is Manifest,
        ensures
            *self == MetaAsset::Manifest(*m),
    {
        match self {
            MetaAsset::Manifest(value) => value,
            _ => vstd::pervasive::unreached(),
        }
    }
}

} // verus!
