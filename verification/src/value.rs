//! The decoded value tree and its mathematical model.
//!
//! A document decodes to a [`JsonObject`]: a closed variant type covering
//! arrays, objects, verbatim strings, 64-bit signed integers, booleans and
//! null. Arrays and objects are singly-linked chains of nodes
//! ([`ListObject`], [`MapObject`]); an empty array is a single sentinel node
//! with both fields absent.
//!
//! Contracts speak about these trees through [`SpecValue`], where a chain is
//! a sequence with one entry per node: `Some(..)` for a node that carries a
//! payload, `None` for a sentinel node. A well-formed chain (see
//! [`ListObject::wf`]) has payloads in every node except possibly the last.

use vstd::prelude::*;

verus! {

/// The model of a decoded value: strings as character sequences, numbers as
/// unbounded integers, and container chains as node-per-entry sequences.
pub enum SpecValue {
    /// An array chain; each entry models one node's optional element.
    List(Seq<Option<SpecValue>>),
    /// An object chain; each entry models one node's optional key/value pair.
    Object(Seq<Option<(Seq<char>, SpecValue)>>),
    /// A string, copied verbatim from the input (no escape decoding).
    String(Seq<char>),
    /// A signed decimal integer.
    Number(int),
    /// A boolean literal.
    Boolean(bool),
    /// The null literal.
    Null,
}

/// A decoded value.
#[derive(Debug, PartialEq, Eq, PartialOrd, Ord, Hash)]
pub enum JsonObject {
    List(ListObject),
    Object(MapObject),
    String(String),
    Number(i64),
    Boolean(bool),
    Null,
}

/// One node of an array chain. The chain for `[]` is a single node with both
/// fields absent; every other well-formed node carries a value.
#[derive(Debug, PartialEq, Eq, PartialOrd, Ord, Hash)]
pub struct ListObject {
    pub value: Option<Box<JsonObject>>,
    pub next: Option<Box<ListObject>>,
}

/// One node of an object chain: a key, the member's value, and the remaining
/// members. A node without a key is the empty-object sentinel and ends the
/// chain.
#[derive(Debug, PartialEq, Eq, PartialOrd, Ord, Hash)]
pub struct MapObject {
    pub key: Option<String>,
    pub value: Option<Box<JsonObject>>,
    pub next: Option<Box<MapObject>>,
}

impl JsonObject {
    /// The mathematical value of this tree.
    pub open spec fn model(self) -> SpecValue
        decreases self,
    {
        match self {
            JsonObject::List(l) => SpecValue::List(l.chain_model()),
            JsonObject::Object(m) => SpecValue::Object(m.chain_model()),
            JsonObject::String(s) => SpecValue::String(s@),
            JsonObject::Number(n) => SpecValue::Number(n as int),
            JsonObject::Boolean(b) => SpecValue::Boolean(b),
            JsonObject::Null => SpecValue::Null,
        }
    }

    /// Well-formedness: every chain inside the tree is well-formed.
    pub open spec fn wf(self) -> bool
        decreases self,
    {
        match self {
            JsonObject::List(l) => l.wf(),
            JsonObject::Object(m) => m.wf(),
            _ => true,
        }
    }
}

impl ListObject {
    /// The chain as a sequence with one entry per node.
    pub open spec fn chain_model(self) -> Seq<Option<SpecValue>>
        decreases self,
    {
        let head: Option<SpecValue> = match self.value {
            Some(v) => Some(v.model()),
            None => None,
        };
        seq![head] + match self.next {
            Some(rest) => rest.chain_model(),
            None => Seq::empty(),
        }
    }

    /// A node without a value ends the chain, and every element is itself
    /// well-formed.
    pub open spec fn wf(self) -> bool
        decreases self,
    {
        &&& (self.value is None ==> self.next is None)
        &&& (match self.value {
            Some(v) => v.wf(),
            None => true,
        })
        &&& (match self.next {
            Some(rest) => rest.wf(),
            None => true,
        })
    }
}

impl MapObject {
    /// The chain as a sequence with one entry per node, keys as character
    /// sequences.
    pub open spec fn chain_model(self) -> Seq<Option<(Seq<char>, SpecValue)>>
        decreases self,
    {
        let head: Option<(Seq<char>, SpecValue)> = match (self.key, self.value) {
            (Some(k), Some(v)) => Some((k@, v.model())),
            _ => None,
        };
        seq![head] + match self.next {
            Some(rest) => rest.chain_model(),
            None => Seq::empty(),
        }
    }

    /// A node carries a value exactly when it carries a key; a node without
    /// a key ends the chain; members are themselves well-formed.
    pub open spec fn wf(self) -> bool
        decreases self,
    {
        &&& (self.key is None ==> self.value is None && self.next is None)
        &&& (self.key is Some ==> self.value is Some)
        &&& (match self.value {
            Some(v) => v.wf(),
            None => true,
        })
        &&& (match self.next {
            Some(rest) => rest.wf(),
            None => true,
        })
    }
}

impl View for JsonObject {
    type V = SpecValue;

    open spec fn view(&self) -> SpecValue {
        self.model()
    }
}

impl View for ListObject {
    type V = Seq<Option<SpecValue>>;

    open spec fn view(&self) -> Seq<Option<SpecValue>> {
        self.chain_model()
    }
}

impl View for MapObject {
    type V = Seq<Option<(Seq<char>, SpecValue)>>;

    open spec fn view(&self) -> Seq<Option<(Seq<char>, SpecValue)>> {
        self.chain_model()
    }
}

/// The model of an optional decode result.
pub open spec fn opt_model(r: Option<JsonObject>) -> Option<SpecValue> {
    match r {
        Some(v) => Some(v.model()),
        None => None,
    }
}

/// Well-formedness of an optional decode result.
pub open spec fn opt_wf(r: Option<JsonObject>) -> bool {
    match r {
        Some(v) => v.wf(),
        None => true,
    }
}

} // verus!
