//! The per-request execution context.
//!
//! The typed data store is filled before execution begins and read-only
//! thereafter; a later insert under the same key wins. The path structure is
//! a backward-linked chain: each field resolution makes a node referencing
//! its parent and never the reverse, so it grows strictly top-down and no
//! cycle is representable.

use crate::json::json_val_of;
use crate::json::JsonVal;
use crate::json::JsonValue;
use vstd::prelude::*;
use vstd::string::StringExecFns;

verus! {

/// The value a store holds for a key: the last insert wins.
pub open spec fn stored<V>(entries: Seq<(u64, V)>, key: u64) -> Option<V>
    decreases entries.len(),
{
    if entries.len() == 0 {
        None::<V>
    } else if entries.last().0 == key {
        Some(entries.last().1)
    } else {
        stored(entries.drop_last(), key)
    }
}

/// The per-request context handed to resolvers and directive hooks: a data
/// store keyed by caller-chosen type keys.
pub struct ExecutionContext<V> {
    pub entries: Vec<(u64, V)>,
}

impl<V> ExecutionContext<V> {
    /// An empty context.
    pub fn new() -> (r: ExecutionContext<V>)
        ensures
            r.entries@.len() == 0,
    {
        ExecutionContext { entries: Vec::new() }
    }

    /// Attaches a value under a key, before execution begins; it shadows any
    /// earlier value under the same key.
    pub fn insert_data(&mut self, key: u64, value: V)
        ensures
            final(self).entries@ == old(self).entries@.push((key, value)),
    {
        self.entries.push((key, value));
    }

    /// Reads the value stored for a key; the last insert wins.
    pub fn data_opt(&self, key: u64) -> (r: Option<&V>)
        ensures
            match r {
                Some(v) => stored(self.entries@, key) == Some(*v),
                None => stored(self.entries@, key) is None,
            },
    {
        let ghost all = self.entries@;
        let mut i: usize = self.entries.len();
        proof {
            assert(all.take(i as int) =~= all);
        }
        while i > 0
            invariant
                i <= all.len(),
                all == self.entries@,
                stored(all, key) == stored(all.take(i as int), key),
            decreases i,
        {
            i = i - 1;
            let e = &self.entries[i];
            proof {
                assert(all.take(i as int + 1).last() == all[i as int]);
                assert(all.take(i as int + 1).drop_last() =~= all.take(i as int));
            }
            if e.0 == key {
                return Some(&e.1);
            }
        }
        proof {
            assert(all.take(0) =~= Seq::<(u64, V)>::empty());
        }
        None
    }
}

/// One step of a response path: a field name or a list index.
#[derive(Debug, PartialEq)]
pub enum PathSegment {
    Name(String),
    Index(u32),
}

/// The mathematical form of a path step.
pub enum PathSegV {
    Name(Seq<char>),
    Index(int),
}

impl View for PathSegment {
    type V = PathSegV;

    open spec fn view(&self) -> PathSegV {
        match self {
            PathSegment::Name(s) => PathSegV::Name(s@),
            PathSegment::Index(i) => PathSegV::Index(*i as int),
        }
    }
}

/// A node of the backward-linked path chain.
#[derive(Debug, PartialEq)]
pub struct PathNode {
    pub parent: Option<Box<PathNode>>,
    pub segment: PathSegment,
}

/// The segments from the root down to a node.
pub open spec fn path_segments(n: PathNode) -> Seq<PathSegV>
    decreases n,
{
    match n.parent {
        None => seq![n.segment@],
        Some(p) => path_segments(*p) + seq![n.segment@],
    }
}

impl View for PathNode {
    type V = Seq<PathSegV>;

    open spec fn view(&self) -> Seq<PathSegV> {
        path_segments(*self)
    }
}

/// The wire form of one path step.
pub open spec fn seg_json(s: PathSegV) -> JsonVal {
    match s {
        PathSegV::Name(n) => JsonVal::Str(n),
        PathSegV::Index(i) => JsonVal::Int(i),
    }
}

/// The wire form of a path: the array of its steps, root first.
pub open spec fn path_json(segs: Seq<PathSegV>) -> JsonVal {
    JsonVal::Arr(Seq::new(segs.len(), |i: int| seg_json(segs[i])))
}

impl PathSegment {
    /// A structural copy.
    pub fn duplicate(&self) -> (r: PathSegment)
        ensures
            r@ == self@,
    {
        match self {
            PathSegment::Name(s) => PathSegment::Name(s.clone()),
            PathSegment::Index(i) => PathSegment::Index(*i),
        }
    }
}

impl PathNode {
    /// The node for a top-level field.
    pub fn root(segment: PathSegment) -> (r: PathNode)
        ensures
            r@ == seq![segment@],
    {
        PathNode { parent: None, segment }
    }

    /// A child node referencing its parent; the parent chain is copied, never
    /// linked back from the parent.
    pub fn child(parent: &PathNode, segment: PathSegment) -> (r: PathNode)
        ensures
            r@ == parent@ + seq![segment@],
    {
        PathNode { parent: Some(Box::new(parent.duplicate())), segment }
    }

    /// A structural copy.
    pub fn duplicate(&self) -> (r: PathNode)
        ensures
            r@ == self@,
        decreases self,
    {
        let parent = match &self.parent {
            None => None,
            Some(p) => Some(Box::new((&**p).duplicate())),
        };
        PathNode { parent, segment: self.segment.duplicate() }
    }

    /// Appends the wire form of each segment, root first.
    fn collect_into(&self, out: &mut Vec<JsonValue>)
        ensures
            final(out)@.len() == old(out)@.len() + self@.len(),
            forall|k: int| 0 <= k < old(out)@.len() ==> final(out)@[k] == old(out)@[k],
            forall|k: int|
                0 <= k < self@.len() ==> json_val_of(
                    #[trigger] final(out)@[old(out)@.len() + k],
                ) == seg_json(self@[k]),
        decreases self,
    {
        match &self.parent {
            Some(p) => (&**p).collect_into(out),
            None => {},
        }
        let v = match &self.segment {
            PathSegment::Name(s) => JsonValue::Str(s.clone()),
            PathSegment::Index(i) => JsonValue::Int(*i as i64),
        };
        out.push(v);
    }

    /// The wire form of the path this node ends.
    pub fn to_json(&self) -> (r: JsonValue)
        ensures
            r@ == path_json(self@),
    {
        let mut out: Vec<JsonValue> = Vec::new();
        self.collect_into(&mut out);
        proof {
            assert forall|k: int| 0 <= k < self@.len() implies json_val_of(out@[k]) == seg_json(
                self@[k],
            ) by {
                assert(json_val_of(out@[0 + k]) == seg_json(self@[k]));
            }
        }
        let r = JsonValue::Arr(out);
        proof {
            crate::json::lemma_arr_eq(r, path_json(self@)->Arr_0);
        }
        r
    }
}

} // verus!
