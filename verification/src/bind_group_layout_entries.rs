//! Concise construction of bind group layout entries.
//!
//! Entries are written without binding numbers; `sequential` assigns them
//! by position, and `with_indices` takes explicit ones. A per-entry
//! visibility overrides the default where given.

use vstd::prelude::*;

verus! {

/// An entry before its binding number is assigned: a binding type
/// descriptor, an optional visibility override, and an optional array
/// count.
#[derive(Clone, Copy, PartialEq, Eq, Structural, Debug)]
pub struct BindGroupLayoutEntryExt {
    pub ty: u64,
    pub visibility: Option<u32>,
    pub count: Option<u32>,
}

/// A finished layout entry.
#[derive(Clone, Copy, PartialEq, Eq, Structural, Debug)]
pub struct BindGroupLayoutEntry {
    pub binding: u32,
    pub ty: u64,
    pub visibility: u32,
    pub count: Option<u32>,
}

/// A bind group layout's entries.
pub struct BindGroupLayoutEntries {
    pub entries: Vec<BindGroupLayoutEntry>,
}

impl BindGroupLayoutEntries {
    /// Assigns binding numbers by position, falling back to the default
    /// visibility where an entry gives none.
    pub fn sequential(default_visibility: u32, entries_ext: &Vec<BindGroupLayoutEntryExt>) -> (r:
        BindGroupLayoutEntries)
        requires
            entries_ext@.len() <= u32::MAX,
        ensures
            r.entries@.len() == entries_ext@.len(),
            forall|i: int|
                0 <= i < entries_ext@.len() ==> #[trigger] r.entries@[i]
                    == (BindGroupLayoutEntry {
                    binding: i as u32,
                    ty: entries_ext@[i].ty,
                    visibility: match entries_ext@[i].visibility {
                        Some(v) => v,
                        None => default_visibility,
                    },
                    count: entries_ext@[i].count,
                }),
    {
        let mut entries: Vec<BindGroupLayoutEntry> = Vec::new();
        let mut i: usize = 0;
        while i < entries_ext.len()
            invariant
                entries_ext@.len() <= u32::MAX,
                0 <= i <= entries_ext@.len(),
                entries@.len() == i,
                forall|k: int|
                    0 <= k < i ==> #[trigger] entries@[k] == (BindGroupLayoutEntry {
                        binding: k as u32,
                        ty: entries_ext@[k].ty,
                        visibility: match entries_ext@[k].visibility {
                            Some(v) => v,
                            None => default_visibility,
                        },
                        count: entries_ext@[k].count,
                    }),
            decreases entries_ext@.len() - i,
        {
            let e = entries_ext[i];
            let visibility = match e.visibility {
                Some(v) => v,
                None => default_visibility,
            };
            entries.push(
                BindGroupLayoutEntry { binding: i as u32, ty: e.ty, visibility, count: e.count },
            );
            i = i + 1;
        }
        BindGroupLayoutEntries { entries }
    }

    /// Takes explicit binding numbers, falling back to the default
    /// visibility where an entry gives none.
    pub fn with_indices(
        default_visibility: u32,
        indexed_entries: &Vec<(u32, BindGroupLayoutEntryExt)>,
    ) -> (r: BindGroupLayoutEntries)
        ensures
            r.entries@.len() == indexed_entries@.len(),
            forall|i: int|
                0 <= i < indexed_entries@.len() ==> #[trigger] r.entries@[i]
                    == (BindGroupLayoutEntry {
                    binding: indexed_entries@[i].0,
                    ty: indexed_entries@[i].1.ty,
                    visibility: match indexed_entries@[i].1.visibility {
                        Some(v) => v,
                        None => default_visibility,
                    },
                    count: indexed_entries@[i].1.count,
                }),
    {
        let mut entries: Vec<BindGroupLayoutEntry> = Vec::new();
        let mut i: usize = 0;
        while i < indexed_entries.len()
            invariant
                0 <= i <= indexed_entries@.len(),
                entries@.len() == i,
                forall|k: int|
                    0 <= k < i ==> #[trigger] entries@[k] == (BindGroupLayoutEntry {
                        binding: indexed_entries@[k].0,
                        ty: indexed_entries@[k].1.ty,
                        visibility: match indexed_entries@[k].1.visibility {
                            Some(v) => v,
                            None => default_visibility,
                        },
                        count: indexed_entries@[k].1.count,
                    }),
            decreases indexed_entries@.len() - i,
        {
            let (binding, e) = indexed_entries[i];
            let visibility = match e.visibility {
                Some(v) => v,
                None => default_visibility,
            };
            entries.push(BindGroupLayoutEntry { binding, ty: e.ty, visibility, count: e.count });
            i = i + 1;
        }
        BindGroupLayoutEntries { entries }
    }
}

} // verus!
