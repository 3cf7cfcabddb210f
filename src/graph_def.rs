use vstd::prelude::*;
use crate::model::copy_vec;

verus! {

/// One node of a decoded graph description.
#[derive(Debug)]
pub struct NodeDef {
    pub name: String,
    pub op: String,
    pub input: Vec<String>,
}

/// The format-version record of a graph description.
#[derive(Debug)]
pub struct VersionDef {
    pub producer: i32,
    pub min_consumer: i32,
    pub bad_consumers: Vec<i32>,
}

/// The functions a graph description declares, by name.
#[derive(Debug)]
pub struct FunctionDefLibrary {
    pub function: Vec<String>,
}

fn copy_strings(v: &Vec<String>) -> (r: Vec<String>)
    ensures
        r@ == v@,
{
    let mut r: Vec<String> = Vec::new();
    let mut i: usize = 0;
    while i < v.len()
        invariant
            i <= v@.len(),
            r@ == v@.take(i as int),
        decreases v@.len() - i,
    {
        r.push(v[i].clone());
        i = i + 1;
        assert(r@ =~= v@.take(i as int));
    }
    assert(r@ =~= v@);
    r
}

impl VersionDef {
    pub open spec fn is_default(&self) -> bool {
        self.producer == 0 && self.min_consumer == 0 && self.bad_consumers@.len() == 0
    }

    pub fn new() -> (r: VersionDef)
        ensures
            r.is_default(),
    {
        VersionDef { producer: 0, min_consumer: 0, bad_consumers: Vec::new() }
    }

    /// A copy with the same fields.
    pub fn copy(&self) -> (r: VersionDef)
        ensures
            r.producer == self.producer,
            r.min_consumer == self.min_consumer,
            r.bad_consumers@ == self.bad_consumers@,
    {
        VersionDef { producer: self.producer, min_consumer: self.min_consumer, bad_consumers: copy_vec(&self.bad_consumers) }
    }
}

impl FunctionDefLibrary {
    pub open spec fn is_default(&self) -> bool {
        self.function@.len() == 0
    }

    pub fn new() -> (r: FunctionDefLibrary)
        ensures
            r.is_default(),
    {
        FunctionDefLibrary { function: Vec::new() }
    }

    /// A copy with the same fields.
    pub fn copy(&self) -> (r: FunctionDefLibrary)
        ensures
            r.function@ == self.function@,
    {
        FunctionDefLibrary { function: copy_strings(&self.function) }
    }
}

/// A decoded graph description: its nodes, an optional version record, a
/// legacy version number and an optional function library.
#[derive(Debug)]
pub struct GraphDef {
    pub node: Vec<NodeDef>,
    pub versions: Option<VersionDef>,
    pub version: i32,
    pub library: Option<FunctionDefLibrary>,
}

impl GraphDef {
    /// An empty description: no node, no version record, version 0, no library.
    pub fn new() -> (r: GraphDef)
        ensures
            r.node@.len() == 0,
            r.versions is None,
            r.version == 0,
            r.library is None,
    {
        GraphDef { node: Vec::new(), versions: None, version: 0, library: None }
    }

    pub fn get_node(&self) -> (r: &[NodeDef])
        ensures
            r@ == self.node@,
    {
        self.node.as_slice()
    }

    pub fn clear_node(&mut self)
        ensures
            final(self).node@.len() == 0,
            final(self).versions == old(self).versions,
            final(self).version == old(self).version,
            final(self).library == old(self).library,
    {
        self.node.clear();
    }

    pub fn set_node(&mut self, v: Vec<NodeDef>)
        ensures
            final(self).node@ == v@,
            final(self).versions == old(self).versions,
            final(self).version == old(self).version,
            final(self).library == old(self).library,
    {
        self.node = v;
    }

    pub fn mut_node(&mut self) -> (r: &mut Vec<NodeDef>)
        ensures
            *r == old(self).node,
            final(self).node == *final(r),
            final(self).versions == old(self).versions,
            final(self).version == old(self).version,
            final(self).library == old(self).library,
    {
        &mut self.node
    }

    /// Moves the nodes out, leaving none.
    pub fn take_node(&mut self) -> (r: Vec<NodeDef>)
        ensures
            r@ == old(self).node@,
            final(self).node@.len() == 0,
            final(self).versions == old(self).versions,
            final(self).version == old(self).version,
            final(self).library == old(self).library,
    {
        let mut out: Vec<NodeDef> = Vec::new();
        core::mem::swap(&mut self.node, &mut out);
        out
    }

    /// The version record, or a default one when it is absent.
    pub fn get_versions(&self) -> (r: VersionDef)
        ensures
            match self.versions {
                Some(v) => r.producer == v.producer && r.min_consumer == v.min_consumer
                    && r.bad_consumers@ == v.bad_consumers@,
                None => r.is_default(),
            },
    {
        match &self.versions {
            Some(v) => v.copy(),
            None => VersionDef::new(),
        }
    }

    pub fn clear_versions(&mut self)
        ensures
            final(self).versions is None,
            final(self).node == old(self).node,
            final(self).version == old(self).version,
            final(self).library == old(self).library,
    {
        self.versions = None;
    }

    pub fn has_versions(&self) -> (r: bool)
        ensures
            r == self.versions is Some,
    {
        self.versions.is_some()
    }

    pub fn set_versions(&mut self, v: VersionDef)
        ensures
            final(self).versions == Some(v),
            final(self).node == old(self).node,
            final(self).version == old(self).version,
            final(self).library == old(self).library,
    {
        self.versions = Some(v);
    }

    /// The version record for in-place change, set to a default one first
    /// when it is absent.
    pub fn mut_versions(&mut self) -> (r: &mut VersionDef)
        ensures
            match old(self).versions {
                Some(v) => *r == v,
                None => r.is_default(),
            },
            final(self).versions == Some(*final(r)),
            final(self).node == old(self).node,
            final(self).version == old(self).version,
            final(self).library == old(self).library,
    {
        if self.versions.is_none() {
            self.versions = Some(VersionDef::new());
        }
        self.versions.as_mut().unwrap()
    }

    /// Moves the version record out (a default one when absent), leaving none.
    pub fn take_versions(&mut self) -> (r: VersionDef)
        ensures
            match old(self).versions {
                Some(v) => r == v,
                None => r.is_default(),
            },
            final(self).versions is None,
            final(self).node == old(self).node,
            final(self).version == old(self).version,
            final(self).library == old(self).library,
    {
        match self.versions.take() {
            Some(v) => v,
            None => VersionDef::new(),
        }
    }

    pub fn get_version(&self) -> (r: i32)
        ensures
            r == self.version,
    {
        self.version
    }

    pub fn clear_version(&mut self)
        ensures
            final(self).version == 0,
            final(self).node == old(self).node,
            final(self).versions == old(self).versions,
            final(self).library == old(self).library,
    {
        self.version = 0;
    }

    pub fn set_version(&mut self, v: i32)
        ensures
            final(self).version == v,
            final(self).node == old(self).node,
            final(self).versions == old(self).versions,
            final(self).library == old(self).library,
    {
        self.version = v;
    }

    /// The function library, or an empty one when it is absent.
    pub fn get_library(&self) -> (r: FunctionDefLibrary)
        ensures
            match self.library {
                Some(l) => r.function@ == l.function@,
                None => r.is_default(),
            },
    {
        match &self.library {
            Some(l) => l.copy(),
            None => FunctionDefLibrary::new(),
        }
    }

    pub fn clear_library(&mut self)
        ensures
            final(self).library is None,
            final(self).node == old(self).node,
            final(self).versions == old(self).versions,
            final(self).version == old(self).version,
    {
        self.library = None;
    }

    pub fn has_library(&self) -> (r: bool)
        ensures
            r == self.library is Some,
    {
        self.library.is_some()
    }

    pub fn set_library(&mut self, v: FunctionDefLibrary)
        ensures
            final(self).library == Some(v),
            final(self).node == old(self).node,
            final(self).versions == old(self).versions,
            final(self).version == old(self).version,
    {
        self.library = Some(v);
    }

    /// The function library for in-place change, set to an empty one first
    /// when it is absent.
    pub fn mut_library(&mut self) -> (r: &mut FunctionDefLibrary)
        ensures
            match old(self).library {
                Some(l) => *r == l,
                None => r.is_default(),
            },
            final(self).library == Some(*final(r)),
            final(self).node == old(self).node,
            final(self).versions == old(self).versions,
            final(self).version == old(self).version,
    {
        if self.library.is_none() {
            self.library = Some(FunctionDefLibrary::new());
        }
        self.library.as_mut().unwrap()
    }

    /// Moves the function library out (an empty one when absent), leaving none.
    pub fn take_library(&mut self) -> (r: FunctionDefLibrary)
        ensures
            match old(self).library {
                Some(l) => r == l,
                None => r.is_default(),
            },
            final(self).library is None,
            final(self).node == old(self).node,
            final(self).versions == old(self).versions,
            final(self).version == old(self).version,
    {
        match self.library.take() {
            Some(l) => l,
            None => FunctionDefLibrary::new(),
        }
    }

    /// Resets every field to its default: no node, no version record,
    /// version 0, no library.
    pub fn clear(&mut self)
        ensures
            final(self).node@.len() == 0,
            final(self).versions is None,
            final(self).version == 0,
            final(self).library is None,
    {
        self.node.clear();
        self.versions = None;
        self.version = 0;
        self.library = None;
    }
}

} // verus!
