//! The abstract schema tree: one node per configuration field, with its type,
//! defaults and UI hints, as delivered by the external schema source.

use crate::json::JsonValue;
use vstd::prelude::*;

verus! {

/// The numeric subtype of a Number node.
#[derive(Clone, Copy, PartialEq, Eq, Structural)]
pub enum NumberType {
    UnsignedInteger,
    SignedInteger,
    Decimal,
}

/// How a Choice node asks to be rendered.
#[derive(Clone, Copy, PartialEq, Eq, Structural)]
pub enum ChoiceControlType {
    Dropdown,
    ButtonGroup,
}

/// One named child of a Section or one variant of a Choice. `strings` carries
/// optional UI texts keyed by name, such as an explicit display name.
pub struct SchemaEntry {
    pub name: String,
    pub strings: Vec<(String, String)>,
    pub content: SchemaNode,
}

/// A configuration schema node. Numeric defaults are carried as their decimal
/// text: the engine never computes with them, it only displays and stores them.
pub enum SchemaNode {
    Section { entries: Vec<SchemaEntry>, gui_collapsible: bool },
    Choice { default: String, variants: Vec<SchemaEntry>, gui: Option<ChoiceControlType> },
    Optional { default_set: bool, content: Box<SchemaNode> },
    Switch { default_enabled: bool, content: Box<SchemaNode> },
    Boolean { default: bool },
    Number { default: String, ty: NumberType, suffix: Option<String> },
    Text { default: String },
    Array(Vec<SchemaNode>),
    Vector { default_element: Box<SchemaNode>, default: Vec<JsonValue> },
    Dictionary {
        default_key: String,
        default_value: Box<SchemaNode>,
        default: Vec<(String, JsonValue)>,
    },
}

/// Structural height of a schema node, the termination measure for the
/// executable recursion over the tree.
pub open spec fn schema_height(s: SchemaNode) -> nat
    decreases s,
{
    match s {
        SchemaNode::Section { entries, .. } => 1 + entries_height(entries@),
        SchemaNode::Choice { variants, .. } => 1 + entries_height(variants@),
        SchemaNode::Optional { content, .. } => 1 + schema_height(*content),
        SchemaNode::Switch { content, .. } => 1 + schema_height(*content),
        SchemaNode::Array(nodes) => 1 + nodes_height(nodes@),
        SchemaNode::Vector { default_element, .. } => 1 + schema_height(*default_element),
        SchemaNode::Dictionary { default_value, .. } => 1 + schema_height(*default_value),
        _ => 1,
    }
}

pub open spec fn entries_height(es: Seq<SchemaEntry>) -> nat
    decreases es,
{
    if es.len() == 0 {
        0
    } else {
        let rest = entries_height(es.subrange(0, es.len() - 1));
        let h = schema_height(es[es.len() - 1].content);
        if h > rest {
            h
        } else {
            rest
        }
    }
}

pub open spec fn nodes_height(ns: Seq<SchemaNode>) -> nat
    decreases ns,
{
    if ns.len() == 0 {
        0
    } else {
        let rest = nodes_height(ns.subrange(0, ns.len() - 1));
        let h = schema_height(ns[ns.len() - 1]);
        if h > rest {
            h
        } else {
            rest
        }
    }
}

pub proof fn lemma_entry_height(es: Seq<SchemaEntry>, i: int)
    requires
        0 <= i < es.len(),
    ensures
        schema_height(es[i].content) <= entries_height(es),
    decreases es,
{
    if i < es.len() - 1 {
        lemma_entry_height(es.subrange(0, es.len() - 1), i);
        assert(es.subrange(0, es.len() - 1)[i] == es[i]);
    }
}

pub proof fn lemma_node_height(ns: Seq<SchemaNode>, i: int)
    requires
        0 <= i < ns.len(),
    ensures
        schema_height(ns[i]) <= nodes_height(ns),
    decreases ns,
{
    if i < ns.len() - 1 {
        lemma_node_height(ns.subrange(0, ns.len() - 1), i);
        assert(ns.subrange(0, ns.len() - 1)[i] == ns[i]);
    }
}

/// Well-formed schemas give every named entry a non-empty identifier, down
/// the whole tree. Control construction relies on it for display names.
pub open spec fn schema_wf(s: SchemaNode) -> bool
    decreases s, 0nat,
{
    match s {
        SchemaNode::Section { entries, .. } => entries_wf(entries@),
        SchemaNode::Choice { variants, .. } => entries_wf(variants@),
        SchemaNode::Optional { content, .. } => schema_wf(*content),
        SchemaNode::Switch { content, .. } => schema_wf(*content),
        SchemaNode::Array(nodes) => nodes_wf(nodes@),
        SchemaNode::Vector { default_element, .. } => schema_wf(*default_element),
        SchemaNode::Dictionary { default_value, .. } => schema_wf(*default_value),
        _ => true,
    }
}

pub open spec fn entry_wf(e: SchemaEntry) -> bool
    decreases e, 1nat,
{
    e.name@.len() > 0 && schema_wf(e.content)
}

pub open spec fn entries_wf(es: Seq<SchemaEntry>) -> bool
    decreases es, 1nat,
{
    if es.len() == 0 {
        true
    } else {
        entries_wf(es.subrange(0, es.len() - 1)) && entry_wf(es[es.len() - 1])
    }
}

pub open spec fn nodes_wf(ns: Seq<SchemaNode>) -> bool
    decreases ns, 1nat,
{
    if ns.len() == 0 {
        true
    } else {
        nodes_wf(ns.subrange(0, ns.len() - 1)) && schema_wf(ns[ns.len() - 1])
    }
}

pub proof fn lemma_entries_wf_index(es: Seq<SchemaEntry>, i: int)
    requires
        entries_wf(es),
        0 <= i < es.len(),
    ensures
        entry_wf(es[i]),
    decreases es,
{
    if i < es.len() - 1 {
        lemma_entries_wf_index(es.subrange(0, es.len() - 1), i);
        assert(es.subrange(0, es.len() - 1)[i] == es[i]);
    }
}

pub proof fn lemma_nodes_wf_index(ns: Seq<SchemaNode>, i: int)
    requires
        nodes_wf(ns),
        0 <= i < ns.len(),
    ensures
        schema_wf(ns[i]),
    decreases ns,
{
    if i < ns.len() - 1 {
        lemma_nodes_wf_index(ns.subrange(0, ns.len() - 1), i);
        assert(ns.subrange(0, ns.len() - 1)[i] == ns[i]);
    }
}

} // verus!
