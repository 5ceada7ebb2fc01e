//! The tree of setting controls built from a schema: path bookkeeping,
//! construction, and extraction of the searchable display names.

use crate::json::JsonValue;
use crate::schema::ChoiceControlType;
use crate::schema::NumberType;
use crate::schema::SchemaEntry;
use crate::schema::SchemaNode;
use crate::schema::entries_wf;
use crate::schema::lemma_entries_wf_index;
use crate::schema::lemma_entry_height;
use crate::schema::lemma_nodes_wf_index;
use crate::schema::nodes_wf;
use crate::schema::lemma_node_height;
use crate::schema::entries_height;
use crate::schema::nodes_height;
use crate::schema::schema_height;
use crate::schema::schema_wf;
use crate::text_util::fallback_display;
use crate::text_util::make_fallback_display;
use vstd::prelude::*;
use vstd::string::*;

verus! {

/// One step of a document path: an object key or an array index.
pub enum PathSegment {
    Name(String),
    Index(usize),
}

/// Mathematical model of a path segment.
pub enum PathSeg {
    Name(Seq<char>),
    Index(int),
}

impl View for PathSegment {
    type V = PathSeg;

    open spec fn view(&self) -> PathSeg {
        match self {
            PathSegment::Name(s) => PathSeg::Name(s@),
            PathSegment::Index(i) => PathSeg::Index(*i as int),
        }
    }
}

pub open spec fn segs_view(p: Seq<PathSegment>) -> Seq<PathSeg> {
    p.map_values(|s: PathSegment| s@)
}

impl PathSegment {
    /// A copy of the segment with the same contents.
    pub fn duplicate(&self) -> (r: PathSegment)
        ensures
            r@ == self@,
    {
        match self {
            PathSegment::Name(s) => PathSegment::Name(s.clone()),
            PathSegment::Index(i) => PathSegment::Index(*i),
        }
    }
}

/// One committed edit: the document path it applies to and the new value.
pub struct PathValuePair {
    pub path: Vec<PathSegment>,
    pub value: JsonValue,
}

/// The accumulated document path and visual depth carried down the control
/// tree during construction.
pub struct NestingInfo {
    pub path: Vec<PathSegment>,
    pub indentation_level: usize,
}

/// Mathematical model of a `NestingInfo`.
pub struct NestingView {
    pub path: Seq<PathSeg>,
    pub indentation_level: int,
}

impl View for NestingInfo {
    type V = NestingView;

    open spec fn view(&self) -> NestingView {
        NestingView { path: segs_view(self.path@), indentation_level: self.indentation_level as int }
    }
}

/// Indentation grows by one visual step until the counter saturates.
pub open spec fn bump(i: int) -> int {
    if i < usize::MAX {
        i + 1
    } else {
        i
    }
}

/// The nesting of a named child: the parent path extended by the identifier,
/// one step deeper visually.
pub open spec fn child_nest_named(nest: NestingView, id: Seq<char>) -> NestingView {
    NestingView { path: nest.path.push(PathSeg::Name(id)), indentation_level: bump(nest.indentation_level) }
}

/// The nesting of a positional child: the parent path extended by the index,
/// at the same visual depth.
pub open spec fn child_nest_indexed(nest: NestingView, i: int) -> NestingView {
    NestingView { path: nest.path.push(PathSeg::Index(i)), indentation_level: nest.indentation_level }
}

fn clone_path(p: &Vec<PathSegment>) -> (r: Vec<PathSegment>)
    ensures
        segs_view(r@) == segs_view(p@),
{
    let mut out: Vec<PathSegment> = Vec::new();
    let mut i: usize = 0;
    while i < p.len()
        invariant
            i <= p.len(),
            out@.len() == i,
            forall|j: int| 0 <= j < i ==> out@[j]@ == p@[j]@,
        decreases p.len() - i,
    {
        out.push(p[i].duplicate());
        i += 1;
    }
    proof {
        assert(segs_view(out@) =~= segs_view(p@));
    }
    out
}

impl NestingInfo {
    /// A copy with the same path and depth.
    pub fn duplicate(&self) -> (r: NestingInfo)
        ensures
            r@ == self@,
    {
        NestingInfo { path: clone_path(&self.path), indentation_level: self.indentation_level }
    }

    /// The nesting of the named child `id`.
    pub fn child_with_name(&self, id: &String) -> (r: NestingInfo)
        ensures
            r@ == child_nest_named(self@, id@),
    {
        let mut p = clone_path(&self.path);
        p.push(PathSegment::Name(id.clone()));
        let ind = if self.indentation_level < usize::MAX {
            self.indentation_level + 1
        } else {
            self.indentation_level
        };
        proof {
            assert(segs_view(p@) =~= segs_view(self.path@).push(PathSeg::Name(id@)));
        }
        NestingInfo { path: p, indentation_level: ind }
    }

    /// The nesting of the positional child `i`.
    pub fn child_with_index(&self, i: usize) -> (r: NestingInfo)
        ensures
            r@ == child_nest_indexed(self@, i as int),
    {
        let mut p = clone_path(&self.path);
        p.push(PathSegment::Index(i));
        proof {
            assert(segs_view(p@) =~= segs_view(self.path@).push(PathSeg::Index(i as int)));
        }
        NestingInfo { path: p, indentation_level: self.indentation_level }
    }
}

/// A raw identifier together with the text shown for it.
pub struct DisplayString {
    pub id: String,
    pub display: String,
}

/// First value stored under `key`, if any.
pub open spec fn assoc_lookup(strings: Seq<(String, String)>, key: Seq<char>) -> Option<Seq<char>>
    decreases strings.len(),
{
    if strings.len() == 0 {
        Option::None
    } else if strings[0].0@ == key {
        Option::Some(strings[0].1@)
    } else {
        assoc_lookup(strings.subrange(1, strings.len() as int), key)
    }
}

/// The display name of an identifier: the explicit `display_name` text when
/// the schema carries one, otherwise the formatted identifier itself.
pub open spec fn spec_display_name(id: Seq<char>, strings: Seq<(String, String)>) -> Seq<char> {
    match assoc_lookup(strings, "display_name"@) {
        Option::Some(d) => d,
        Option::None => fallback_display(id),
    }
}

/// Resolves the human-readable display name of one schema identifier.
pub fn get_display_name(id: &str, strings: &Vec<(String, String)>) -> (r: String)
    requires
        id@.len() > 0,
    ensures
        r@ == spec_display_name(id@, strings@),
{
    let key = String::from_str("display_name");
    proof {
        assert(strings@.subrange(0, strings@.len() as int) =~= strings@);
    }
    let mut i: usize = 0;
    while i < strings.len()
        invariant
            i <= strings.len(),
            key@ == "display_name"@,
            assoc_lookup(strings@, "display_name"@) == assoc_lookup(
                strings@.subrange(i as int, strings@.len() as int),
                "display_name"@,
            ),
        decreases strings.len() - i,
    {
        let ghost tail = strings@.subrange(i as int, strings@.len() as int);
        if strings[i].0 == key {
            proof {
                assert(tail[0] == strings@[i as int]);
            }
            return strings[i].1.clone();
        }
        proof {
            assert(tail[0] == strings@[i as int]);
            assert(tail.subrange(1, tail.len() as int) =~= strings@.subrange(
                i + 1,
                strings@.len() as int,
            ));
        }
        i += 1;
    }
    proof {
        assert(strings@.subrange(strings@.len() as int, strings@.len() as int).len() == 0);
    }
    make_fallback_display(id)
}

/// Builds the single changed-path record for a leaf edit below this nesting.
pub fn get_single_value(nesting_info: &NestingInfo, leaf: PathSegment, new_value: JsonValue) -> (r:
    Option<PathValuePair>)
    ensures
        r is Some,
        segs_view(r->0.path@) == nesting_info@.path.push(leaf@),
        r->0.value == new_value,
{
    let mut path = clone_path(&nesting_info.path);
    let ghost leafv = leaf@;
    path.push(leaf);
    proof {
        assert(segs_view(path@) =~= segs_view(nesting_info.path@).push(leafv));
    }
    Option::Some(PathValuePair { path, value: new_value })
}


/// One named entry of a Section control.
pub struct SectionEntry {
    pub id: DisplayString,
    pub control: SettingControl,
}

pub struct SectionControl {
    pub nesting_info: NestingInfo,
    pub gui_collapsible: bool,
    pub entries: Vec<SectionEntry>,
}

pub struct ChoiceControl {
    pub nesting_info: NestingInfo,
    pub default_variant: String,
    pub gui: Option<ChoiceControlType>,
    pub variant_labels: Vec<DisplayString>,
    pub variant_controls: Vec<(String, SettingControl)>,
}

pub struct OptionalControl {
    pub nesting_info: NestingInfo,
    pub default_set: bool,
    pub content_control: Box<SettingControl>,
}

pub struct SwitchControl {
    pub nesting_info: NestingInfo,
    pub default_enabled: bool,
    pub content_control: Box<SettingControl>,
}

pub struct BooleanControl {
    pub nesting_info: NestingInfo,
    pub default: bool,
}

pub struct TextControl {
    pub nesting_info: NestingInfo,
    pub default: String,
}

pub struct NumericControl {
    pub nesting_info: NestingInfo,
    pub default: String,
    pub ty: NumberType,
    pub suffix: Option<String>,
}

pub struct ArrayControl {
    pub nesting_info: NestingInfo,
    pub controls: Vec<SettingControl>,
}

pub struct VectorControl {
    pub nesting_info: NestingInfo,
    pub controls: Vec<SettingControl>,
}

pub struct DictionaryEntry {
    pub key: String,
    pub control: SettingControl,
}

pub struct DictionaryControl {
    pub nesting_info: NestingInfo,
    pub default_key: String,
    pub controls: Vec<DictionaryEntry>,
}

/// The stateful counterpart of one schema node. `Unimplemented` is the inert
/// placeholder for schema variants the engine has no mapping for; it renders
/// nothing and never panics.
pub enum SettingControl {
    Section(SectionControl),
    Choice(ChoiceControl),
    Optional(OptionalControl),
    Switch(SwitchControl),
    Boolean(BooleanControl),
    Text(TextControl),
    Numeric(NumericControl),
    Array(ArrayControl),
    Vector(VectorControl),
    Dictionary(DictionaryControl),
    Unimplemented,
}

pub open spec fn opt_str_view(o: Option<String>) -> Option<Seq<char>> {
    match o {
        Option::Some(s) => Option::Some(s@),
        Option::None => Option::None,
    }
}

/// The document path a control reads and writes. The placeholder has none.
pub open spec fn control_path(c: SettingControl) -> Seq<PathSeg> {
    match c {
        SettingControl::Section(x) => x.nesting_info@.path,
        SettingControl::Choice(x) => x.nesting_info@.path,
        SettingControl::Optional(x) => x.nesting_info@.path,
        SettingControl::Switch(x) => x.nesting_info@.path,
        SettingControl::Boolean(x) => x.nesting_info@.path,
        SettingControl::Text(x) => x.nesting_info@.path,
        SettingControl::Numeric(x) => x.nesting_info@.path,
        SettingControl::Array(x) => x.nesting_info@.path,
        SettingControl::Vector(x) => x.nesting_info@.path,
        SettingControl::Dictionary(x) => x.nesting_info@.path,
        SettingControl::Unimplemented => Seq::empty(),
    }
}

/// The construction contract: `c` is exactly the control tree that building
/// `schema` under `nest` produces. Section children extend the path by their
/// identifier; Choice variants and Optional/Switch content share the parent
/// path, since variant choice and presence are sibling fields of the value;
/// Array, Vector and Dictionary children extend the path by their position.
pub open spec fn built_from(c: SettingControl, nest: NestingView, schema: SchemaNode) -> bool
    decreases schema, 0nat,
{
    match schema {
        SchemaNode::Section { entries, gui_collapsible } => match c {
            SettingControl::Section(sc) => {
                &&& sc.nesting_info@ == nest
                &&& sc.gui_collapsible == gui_collapsible
                &&& sc.entries@.len() == entries@.len()
                &&& section_entries_built(sc.entries@, nest, entries@)
            },
            _ => false,
        },
        SchemaNode::Choice { default, variants, gui } => match c {
            SettingControl::Choice(cc) => {
                &&& cc.nesting_info@ == nest
                &&& cc.default_variant@ == default@
                &&& cc.gui == gui
                &&& cc.variant_labels@.len() == variants@.len()
                &&& labels_built(cc.variant_labels@, variants@)
                &&& cc.variant_controls@.len() == variants@.len()
                &&& variants_built(cc.variant_controls@, nest, variants@)
            },
            _ => false,
        },
        SchemaNode::Optional { default_set, content } => match c {
            SettingControl::Optional(oc) => {
                &&& oc.nesting_info@ == nest
                &&& oc.default_set == default_set
                &&& built_from(*oc.content_control, nest, *content)
            },
            _ => false,
        },
        SchemaNode::Switch { default_enabled, content } => match c {
            SettingControl::Switch(sw) => {
                &&& sw.nesting_info@ == nest
                &&& sw.default_enabled == default_enabled
                &&& built_from(*sw.content_control, nest, *content)
            },
            _ => false,
        },
        SchemaNode::Boolean { default } => match c {
            SettingControl::Boolean(bc) => bc.nesting_info@ == nest && bc.default == default,
            _ => false,
        },
        SchemaNode::Number { default, ty, suffix } => match c {
            SettingControl::Numeric(nc) => {
                &&& nc.nesting_info@ == nest
                &&& nc.default@ == default@
                &&& nc.ty == ty
                &&& opt_str_view(nc.suffix) == opt_str_view(suffix)
            },
            _ => false,
        },
        SchemaNode::Text { default } => match c {
            SettingControl::Text(tc) => tc.nesting_info@ == nest && tc.default@ == default@,
            _ => false,
        },
        SchemaNode::Array(nodes) => match c {
            SettingControl::Array(ac) => {
                &&& ac.nesting_info@ == nest
                &&& ac.controls@.len() == nodes@.len()
                &&& nodes_built(ac.controls@, nest, nodes@)
            },
            _ => false,
        },
        SchemaNode::Vector { default_element, default } => match c {
            SettingControl::Vector(vc) => {
                &&& vc.nesting_info@ == nest
                &&& vc.controls@.len() == default@.len()
                &&& vec_children_built(vc.controls@, nest, *default_element)
            },
            _ => false,
        },
        SchemaNode::Dictionary { default_key, default_value, default } => match c {
            SettingControl::Dictionary(dc) => {
                &&& dc.nesting_info@ == nest
                &&& dc.default_key@ == default_key@
                &&& dc.controls@.len() == default@.len()
                &&& dict_entries_built(dc.controls@, nest, default@, *default_value)
            },
            _ => false,
        },
    }
}

pub open spec fn section_entry_built(e: SectionEntry, nest: NestingView, s: SchemaEntry) -> bool
    decreases s, 1nat,
{
    &&& e.id.id@ == s.name@
    &&& e.id.display@ == spec_display_name(s.name@, s.strings@)
    &&& built_from(e.control, child_nest_named(nest, s.name@), s.content)
}

pub open spec fn variant_label_built(d: DisplayString, s: SchemaEntry) -> bool {
    d.id@ == s.name@ && d.display@ == spec_display_name(s.name@, s.strings@)
}

pub open spec fn variant_control_built(
    p: (String, SettingControl),
    nest: NestingView,
    s: SchemaEntry,
) -> bool
    decreases s, 1nat,
{
    p.0@ == s.name@ && built_from(p.1, nest, s.content)
}

/// Pairwise: each section entry control is built from its schema entry.
pub open spec fn section_entries_built(
    cs: Seq<SectionEntry>,
    nest: NestingView,
    es: Seq<SchemaEntry>,
) -> bool
    recommends
        cs.len() == es.len(),
    decreases es, 2nat,
{
    if cs.len() == 0 || es.len() == 0 {
        true
    } else {
        section_entries_built(cs.subrange(0, cs.len() - 1), nest, es.subrange(0, es.len() - 1))
            && section_entry_built(cs[cs.len() - 1], nest, es[es.len() - 1])
    }
}

/// Pairwise: each variant label carries the variant name and display name.
pub open spec fn labels_built(ds: Seq<DisplayString>, es: Seq<SchemaEntry>) -> bool
    recommends
        ds.len() == es.len(),
    decreases ds,
{
    if ds.len() == 0 || es.len() == 0 {
        true
    } else {
        labels_built(ds.subrange(0, ds.len() - 1), es.subrange(0, es.len() - 1))
            && variant_label_built(ds[ds.len() - 1], es[es.len() - 1])
    }
}

/// Pairwise: each variant control is built from its variant's content over
/// the parent's own path.
pub open spec fn variants_built(
    ps: Seq<(String, SettingControl)>,
    nest: NestingView,
    es: Seq<SchemaEntry>,
) -> bool
    recommends
        ps.len() == es.len(),
    decreases es, 2nat,
{
    if ps.len() == 0 || es.len() == 0 {
        true
    } else {
        variants_built(ps.subrange(0, ps.len() - 1), nest, es.subrange(0, es.len() - 1))
            && variant_control_built(ps[ps.len() - 1], nest, es[es.len() - 1])
    }
}

/// Pairwise: each fixed array child is built from its node at its position.
pub open spec fn nodes_built(
    cs: Seq<SettingControl>,
    nest: NestingView,
    ns: Seq<SchemaNode>,
) -> bool
    recommends
        cs.len() == ns.len(),
    decreases ns, 1nat,
{
    if cs.len() == 0 || ns.len() == 0 {
        true
    } else {
        nodes_built(cs.subrange(0, cs.len() - 1), nest, ns.subrange(0, ns.len() - 1))
            && built_from(cs[cs.len() - 1], child_nest_indexed(nest, cs.len() - 1), ns[ns.len() - 1])
    }
}

/// Every vector child at position i is built from the element template over
/// the path extended by index i.
pub open spec fn vec_children_built(
    cs: Seq<SettingControl>,
    nest: NestingView,
    template: SchemaNode,
) -> bool
    decreases template, cs.len() + 1,
{
    if cs.len() == 0 {
        true
    } else {
        vec_children_built(cs.subrange(0, cs.len() - 1), nest, template) && built_from(
            cs[cs.len() - 1],
            child_nest_indexed(nest, cs.len() - 1),
            template,
        )
    }
}

/// Every dictionary entry carries its default key and a control built from
/// the value template over the path extended by its position.
pub open spec fn dict_entries_built(
    ds: Seq<DictionaryEntry>,
    nest: NestingView,
    defaults: Seq<(String, JsonValue)>,
    template: SchemaNode,
) -> bool
    recommends
        ds.len() == defaults.len(),
    decreases template, ds.len() + 1,
{
    if ds.len() == 0 || defaults.len() == 0 {
        true
    } else {
        dict_entries_built(
            ds.subrange(0, ds.len() - 1),
            nest,
            defaults.subrange(0, defaults.len() - 1),
            template,
        ) && ds[ds.len() - 1].key@ == defaults[defaults.len() - 1].0@ && built_from(
            ds[ds.len() - 1].control,
            child_nest_indexed(nest, ds.len() - 1),
            template,
        )
    }
}

pub proof fn lemma_section_entries_built_index(
    cs: Seq<SectionEntry>,
    nest: NestingView,
    es: Seq<SchemaEntry>,
    i: int,
)
    requires
        cs.len() == es.len(),
        section_entries_built(cs, nest, es),
        0 <= i < es.len(),
    ensures
        section_entry_built(cs[i], nest, es[i]),
    decreases es,
{
    if i < es.len() - 1 {
        lemma_section_entries_built_index(
            cs.subrange(0, cs.len() - 1),
            nest,
            es.subrange(0, es.len() - 1),
            i,
        );
        assert(cs.subrange(0, cs.len() - 1)[i] == cs[i]);
        assert(es.subrange(0, es.len() - 1)[i] == es[i]);
    }
}

pub proof fn lemma_vec_children_built_index(
    cs: Seq<SettingControl>,
    nest: NestingView,
    template: SchemaNode,
    i: int,
)
    requires
        vec_children_built(cs, nest, template),
        0 <= i < cs.len(),
    ensures
        built_from(cs[i], child_nest_indexed(nest, i), template),
    decreases cs,
{
    if i < cs.len() - 1 {
        lemma_vec_children_built_index(cs.subrange(0, cs.len() - 1), nest, template, i);
        assert(cs.subrange(0, cs.len() - 1)[i] == cs[i]);
    }
}


impl SettingControl {
    /// Builds the control tree for one schema node under the given nesting.
    pub fn new(nesting_info: NestingInfo, schema: SchemaNode) -> (r: SettingControl)
        requires
            schema_wf(schema),
        ensures
            built_from(r, nesting_info@, schema),
    {
        SettingControl::build(nesting_info, &schema)
    }

    pub(crate) fn build(nesting_info: NestingInfo, schema: &SchemaNode) -> (r: SettingControl)
        requires
            schema_wf(*schema),
        ensures
            built_from(r, nesting_info@, *schema),
        decreases schema_height(*schema),
    {
        let ghost nest = nesting_info@;
        match schema {
            SchemaNode::Section { entries, gui_collapsible } => {
                proof {
                    assert(*schema == (SchemaNode::Section {
                        entries: *entries,
                        gui_collapsible: *gui_collapsible,
                    }));
                }
                let mut out: Vec<SectionEntry> = Vec::new();
                let mut i: usize = 0;
                while i < entries.len()
                    invariant
                        i <= entries.len(),
                        nest == nesting_info@,
                        schema_height(*schema) == 1 + entries_height(entries@),
                        entries_wf(entries@),
                        out@.len() == i,
                        section_entries_built(out@, nest, entries@.subrange(0, i as int)),
                    decreases entries.len() - i,
                {
                    let e = &entries[i];
                    proof {
                        lemma_entry_height(entries@, i as int);
                        lemma_entries_wf_index(entries@, i as int);
                    }
                    let child_nest = nesting_info.child_with_name(&e.name);
                    let display = get_display_name(e.name.as_str(), &e.strings);
                    let control = SettingControl::build(child_nest, &e.content);
                    let ghost out0 = out@;
                    out.push(
                        SectionEntry { id: DisplayString { id: e.name.clone(), display }, control },
                    );
                    proof {
                        let post = entries@.subrange(0, i + 1);
                        assert(post.subrange(0, post.len() - 1) =~= entries@.subrange(0, i as int));
                        assert(post[post.len() - 1] == entries@[i as int]);
                        assert(out@.subrange(0, out@.len() - 1) =~= out0);
                        assert(section_entry_built(out@[out@.len() - 1], nest, entries@[i as int]));
                    }
                    i += 1;
                }
                proof {
                    assert(entries@.subrange(0, entries@.len() as int) =~= entries@);
                }
                SettingControl::Section(
                    SectionControl {
                        nesting_info,
                        gui_collapsible: *gui_collapsible,
                        entries: out,
                    },
                )
            },
            SchemaNode::Choice { default, variants, gui } => {
                proof {
                    assert(*schema == (SchemaNode::Choice {
                        default: *default,
                        variants: *variants,
                        gui: *gui,
                    }));
                }
                let mut labels: Vec<DisplayString> = Vec::new();
                let mut ctrls: Vec<(String, SettingControl)> = Vec::new();
                let mut i: usize = 0;
                while i < variants.len()
                    invariant
                        i <= variants.len(),
                        nest == nesting_info@,
                        schema_height(*schema) == 1 + entries_height(variants@),
                        entries_wf(variants@),
                        labels@.len() == i,
                        ctrls@.len() == i,
                        labels_built(labels@, variants@.subrange(0, i as int)),
                        variants_built(ctrls@, nest, variants@.subrange(0, i as int)),
                    decreases variants.len() - i,
                {
                    let e = &variants[i];
                    proof {
                        lemma_entry_height(variants@, i as int);
                        lemma_entries_wf_index(variants@, i as int);
                    }
                    let display = get_display_name(e.name.as_str(), &e.strings);
                    let ghost labels0 = labels@;
                    let ghost ctrls0 = ctrls@;
                    labels.push(DisplayString { id: e.name.clone(), display });
                    let c = SettingControl::build(nesting_info.duplicate(), &e.content);
                    ctrls.push((e.name.clone(), c));
                    proof {
                        let post = variants@.subrange(0, i + 1);
                        assert(post.subrange(0, post.len() - 1) =~= variants@.subrange(0, i as int));
                        assert(post[post.len() - 1] == variants@[i as int]);
                        assert(labels@.subrange(0, labels@.len() - 1) =~= labels0);
                        assert(ctrls@.subrange(0, ctrls@.len() - 1) =~= ctrls0);
                        assert(variant_label_built(labels@[labels@.len() - 1], variants@[i as int]));
                        assert(variant_control_built(ctrls@[ctrls@.len() - 1], nest, variants@[i as int]));
                    }
                    i += 1;
                }
                proof {
                    assert(variants@.subrange(0, variants@.len() as int) =~= variants@);
                }
                SettingControl::Choice(
                    ChoiceControl {
                        nesting_info,
                        default_variant: default.clone(),
                        gui: *gui,
                        variant_labels: labels,
                        variant_controls: ctrls,
                    },
                )
            },
            SchemaNode::Optional { default_set, content } => {
                let inner = SettingControl::build(nesting_info.duplicate(), &**content);
                SettingControl::Optional(
                    OptionalControl {
                        nesting_info,
                        default_set: *default_set,
                        content_control: Box::new(inner),
                    },
                )
            },
            SchemaNode::Switch { default_enabled, content } => {
                let inner = SettingControl::build(nesting_info.duplicate(), &**content);
                SettingControl::Switch(
                    SwitchControl {
                        nesting_info,
                        default_enabled: *default_enabled,
                        content_control: Box::new(inner),
                    },
                )
            },
            SchemaNode::Boolean { default } => {
                SettingControl::Boolean(BooleanControl { nesting_info, default: *default })
            },
            SchemaNode::Number { default, ty, suffix } => {
                let sfx = match suffix {
                    Option::Some(x) => Option::Some(x.clone()),
                    Option::None => Option::None,
                };
                SettingControl::Numeric(
                    NumericControl { nesting_info, default: default.clone(), ty: *ty, suffix: sfx },
                )
            },
            SchemaNode::Text { default } => {
                SettingControl::Text(TextControl { nesting_info, default: default.clone() })
            },
            SchemaNode::Array(nodes) => {
                proof {
                    assert(*schema == SchemaNode::Array(*nodes));
                }
                let mut out: Vec<SettingControl> = Vec::new();
                let mut i: usize = 0;
                while i < nodes.len()
                    invariant
                        i <= nodes.len(),
                        nest == nesting_info@,
                        schema_height(*schema) == 1 + nodes_height(nodes@),
                        nodes_wf(nodes@),
                        out@.len() == i,
                        nodes_built(out@, nest, nodes@.subrange(0, i as int)),
                    decreases nodes.len() - i,
                {
                    proof {
                        lemma_node_height(nodes@, i as int);
                        lemma_nodes_wf_index(nodes@, i as int);
                    }
                    let c = SettingControl::build(nesting_info.child_with_index(i), &nodes[i]);
                    let ghost out0 = out@;
                    out.push(c);
                    proof {
                        let post = nodes@.subrange(0, i + 1);
                        assert(post.subrange(0, post.len() - 1) =~= nodes@.subrange(0, i as int));
                        assert(post[post.len() - 1] == nodes@[i as int]);
                        assert(out@.subrange(0, out@.len() - 1) =~= out0);
                        assert(built_from(out@[out@.len() - 1], child_nest_indexed(nest, i as int), nodes@[i as int]));
                    }
                    i += 1;
                }
                proof {
                    assert(nodes@.subrange(0, nodes@.len() as int) =~= nodes@);
                }
                SettingControl::Array(ArrayControl { nesting_info, controls: out })
            },
            SchemaNode::Vector { default_element, default } => {
                proof {
                    assert(*schema == (SchemaNode::Vector {
                        default_element: *default_element,
                        default: *default,
                    }));
                }
                let n = default.len();
                let mut out: Vec<SettingControl> = Vec::new();
                let mut i: usize = 0;
                while i < n
                    invariant
                        i <= n,
                        nest == nesting_info@,
                        schema_height(*schema) == 1 + schema_height(**default_element),
                        schema_wf(**default_element),
                        out@.len() == i,
                        vec_children_built(out@, nest, **default_element),
                    decreases n - i,
                {
                    let c = SettingControl::build(
                        nesting_info.child_with_index(i),
                        &**default_element,
                    );
                    let ghost out0 = out@;
                    out.push(c);
                    proof {
                        assert(out@.subrange(0, out@.len() - 1) =~= out0);
                        assert(built_from(out@[out@.len() - 1], child_nest_indexed(nest, i as int), **default_element));
                    }
                    i += 1;
                }
                SettingControl::Vector(VectorControl { nesting_info, controls: out })
            },
            SchemaNode::Dictionary { default_key, default_value, default } => {
                proof {
                    assert(*schema == (SchemaNode::Dictionary {
                        default_key: *default_key,
                        default_value: *default_value,
                        default: *default,
                    }));
                }
                let n = default.len();
                let mut out: Vec<DictionaryEntry> = Vec::new();
                let mut i: usize = 0;
                while i < n
                    invariant
                        i <= n,
                        n == default@.len(),
                        nest == nesting_info@,
                        schema_height(*schema) == 1 + schema_height(**default_value),
                        schema_wf(**default_value),
                        out@.len() == i,
                        dict_entries_built(out@, nest, default@.subrange(0, i as int), **default_value),
                    decreases n - i,
                {
                    let c = SettingControl::build(
                        nesting_info.child_with_index(i),
                        &**default_value,
                    );
                    let ghost out0 = out@;
                    out.push(DictionaryEntry { key: default[i].0.clone(), control: c });
                    proof {
                        let post = default@.subrange(0, i + 1);
                        assert(post.subrange(0, post.len() - 1) =~= default@.subrange(0, i as int));
                        assert(post[post.len() - 1] == default@[i as int]);
                        assert(out@.subrange(0, out@.len() - 1) =~= out0);
                        assert(out@[out@.len() - 1].key@ == default@[i as int].0@);
                        assert(built_from(out@[out@.len() - 1].control, child_nest_indexed(nest, i as int), **default_value));
                    }
                    i += 1;
                }
                proof {
                    assert(default@.subrange(0, default@.len() as int) =~= default@);
                }
                SettingControl::Dictionary(
                    DictionaryControl {
                        nesting_info,
                        default_key: default_key.clone(),
                        controls: out,
                    },
                )
            },
        }
    }
}


/// Structural height of a control, the termination measure for executable
/// walks over the tree.
pub open spec fn control_height(c: SettingControl) -> nat
    decreases c,
{
    match c {
        SettingControl::Section(sc) => 1 + sentries_height(sc.entries@),
        SettingControl::Choice(cc) => 1 + vcontrols_height(cc.variant_controls@),
        SettingControl::Optional(oc) => 1 + control_height(*oc.content_control),
        SettingControl::Switch(sw) => 1 + control_height(*sw.content_control),
        SettingControl::Array(ac) => 1 + controls_height(ac.controls@),
        SettingControl::Vector(vc) => 1 + controls_height(vc.controls@),
        SettingControl::Dictionary(dc) => 1 + dentries_height(dc.controls@),
        _ => 1,
    }
}

pub open spec fn sentries_height(es: Seq<SectionEntry>) -> nat
    decreases es,
{
    if es.len() == 0 {
        0
    } else {
        let rest = sentries_height(es.subrange(0, es.len() - 1));
        let h = control_height(es[es.len() - 1].control);
        if h > rest {
            h
        } else {
            rest
        }
    }
}

pub open spec fn vcontrols_height(ps: Seq<(String, SettingControl)>) -> nat
    decreases ps,
{
    if ps.len() == 0 {
        0
    } else {
        let rest = vcontrols_height(ps.subrange(0, ps.len() - 1));
        let h = control_height(ps[ps.len() - 1].1);
        if h > rest {
            h
        } else {
            rest
        }
    }
}

pub open spec fn controls_height(cs: Seq<SettingControl>) -> nat
    decreases cs,
{
    if cs.len() == 0 {
        0
    } else {
        let rest = controls_height(cs.subrange(0, cs.len() - 1));
        let h = control_height(cs[cs.len() - 1]);
        if h > rest {
            h
        } else {
            rest
        }
    }
}

pub open spec fn dentries_height(ds: Seq<DictionaryEntry>) -> nat
    decreases ds,
{
    if ds.len() == 0 {
        0
    } else {
        let rest = dentries_height(ds.subrange(0, ds.len() - 1));
        let h = control_height(ds[ds.len() - 1].control);
        if h > rest {
            h
        } else {
            rest
        }
    }
}

proof fn lemma_sentry_height(es: Seq<SectionEntry>, i: int)
    requires
        0 <= i < es.len(),
    ensures
        control_height(es[i].control) <= sentries_height(es),
    decreases es,
{
    if i < es.len() - 1 {
        lemma_sentry_height(es.subrange(0, es.len() - 1), i);
        assert(es.subrange(0, es.len() - 1)[i] == es[i]);
    }
}

proof fn lemma_vcontrol_height(ps: Seq<(String, SettingControl)>, i: int)
    requires
        0 <= i < ps.len(),
    ensures
        control_height(ps[i].1) <= vcontrols_height(ps),
    decreases ps,
{
    if i < ps.len() - 1 {
        lemma_vcontrol_height(ps.subrange(0, ps.len() - 1), i);
        assert(ps.subrange(0, ps.len() - 1)[i] == ps[i]);
    }
}

proof fn lemma_control_height(cs: Seq<SettingControl>, i: int)
    requires
        0 <= i < cs.len(),
    ensures
        control_height(cs[i]) <= controls_height(cs),
    decreases cs,
{
    if i < cs.len() - 1 {
        lemma_control_height(cs.subrange(0, cs.len() - 1), i);
        assert(cs.subrange(0, cs.len() - 1)[i] == cs[i]);
    }
}

proof fn lemma_dentry_height(ds: Seq<DictionaryEntry>, i: int)
    requires
        0 <= i < ds.len(),
    ensures
        control_height(ds[i].control) <= dentries_height(ds),
    decreases ds,
{
    if i < ds.len() - 1 {
        lemma_dentry_height(ds.subrange(0, ds.len() - 1), i);
        assert(ds.subrange(0, ds.len() - 1)[i] == ds[i]);
    }
}

pub open spec fn pairs_view(s: Seq<(String, String)>) -> Seq<(Seq<char>, Seq<char>)> {
    s.map_values(|p: (String, String)| (p.0@, p.1@))
}

/// The searchable universe of one control: every named entry's (identifier,
/// display name) pair, in walk order. Sections list their entries, Choices
/// their variant labels and then the contents of every variant; Optional
/// content counts only when present by default, Switch content always;
/// Array, Vector and Dictionary children are walked through. Plain value
/// controls contribute nothing.
pub open spec fn display_pairs(c: SettingControl) -> Seq<(Seq<char>, Seq<char>)>
    decreases c, 0nat,
{
    match c {
        SettingControl::Section(sc) => sentries_pairs(sc.entries@),
        SettingControl::Choice(cc) => labels_pairs(cc.variant_labels@) + vcontrols_pairs(
            cc.variant_controls@,
        ),
        SettingControl::Optional(oc) => if oc.default_set {
            display_pairs(*oc.content_control)
        } else {
            Seq::empty()
        },
        SettingControl::Switch(sw) => display_pairs(*sw.content_control),
        SettingControl::Array(ac) => controls_pairs(ac.controls@),
        SettingControl::Vector(vc) => controls_pairs(vc.controls@),
        SettingControl::Dictionary(dc) => dentries_pairs(dc.controls@),
        _ => Seq::empty(),
    }
}

pub open spec fn sentries_pairs(es: Seq<SectionEntry>) -> Seq<(Seq<char>, Seq<char>)>
    decreases es, 1nat,
{
    if es.len() == 0 {
        Seq::empty()
    } else {
        let e = es[es.len() - 1];
        sentries_pairs(es.subrange(0, es.len() - 1)) + seq![(e.id.id@, e.id.display@)]
            + display_pairs(e.control)
    }
}

pub open spec fn labels_pairs(ds: Seq<DisplayString>) -> Seq<(Seq<char>, Seq<char>)> {
    ds.map_values(|d: DisplayString| (d.id@, d.display@))
}

pub open spec fn vcontrols_pairs(ps: Seq<(String, SettingControl)>) -> Seq<
    (Seq<char>, Seq<char>),
>
    decreases ps, 1nat,
{
    if ps.len() == 0 {
        Seq::empty()
    } else {
        vcontrols_pairs(ps.subrange(0, ps.len() - 1)) + display_pairs(ps[ps.len() - 1].1)
    }
}

pub open spec fn controls_pairs(cs: Seq<SettingControl>) -> Seq<(Seq<char>, Seq<char>)>
    decreases cs, 1nat,
{
    if cs.len() == 0 {
        Seq::empty()
    } else {
        controls_pairs(cs.subrange(0, cs.len() - 1)) + display_pairs(cs[cs.len() - 1])
    }
}

pub open spec fn dentries_pairs(ds: Seq<DictionaryEntry>) -> Seq<(Seq<char>, Seq<char>)>
    decreases ds, 1nat,
{
    if ds.len() == 0 {
        Seq::empty()
    } else {
        dentries_pairs(ds.subrange(0, ds.len() - 1)) + display_pairs(ds[ds.len() - 1].control)
    }
}

impl SettingControl {
    /// Collects every named entry's (identifier, display name) pair of this
    /// subtree, in walk order, appending to `result`.
    pub fn get_display_name_structure(&self, result: &mut Vec<(String, String)>)
        ensures
            pairs_view(final(result)@) == pairs_view(old(result)@) + display_pairs(*self),
        decreases control_height(*self), 1nat,
    {
        let ghost res0 = result@;
        match self {
            SettingControl::Section(sc) => {
                let n = sc.entries.len();
                let mut i: usize = 0;
                proof {
                    assert(*self == SettingControl::Section(*sc));
                    assert(pairs_view(result@) =~= pairs_view(res0) + sentries_pairs(
                        sc.entries@.subrange(0, 0),
                    ));
                }
                while i < n
                    invariant
                        i <= n,
                        n == sc.entries@.len(),
                        control_height(*self) == 1 + sentries_height(sc.entries@),
                        pairs_view(result@) == pairs_view(res0) + sentries_pairs(
                            sc.entries@.subrange(0, i as int),
                        ),
                    decreases n - i,
                {
                    let e = &sc.entries[i];
                    let ghost mid0 = result@;
                    result.push((e.id.id.clone(), e.id.display.clone()));
                    proof {
                        assert(pairs_view(result@) =~= pairs_view(mid0).push(
                            (e.id.id@, e.id.display@),
                        ));
                        lemma_sentry_height(sc.entries@, i as int);
                    }
                    e.control.get_display_name_structure(result);
                    proof {
                        let post = sc.entries@.subrange(0, i + 1);
                        assert(post.subrange(0, post.len() - 1) =~= sc.entries@.subrange(
                            0,
                            i as int,
                        ));
                        assert(post[post.len() - 1] == sc.entries@[i as int]);
                        assert(pairs_view(result@) =~= pairs_view(res0) + sentries_pairs(post));
                    }
                    i += 1;
                }
                proof {
                    assert(sc.entries@.subrange(0, sc.entries@.len() as int) =~= sc.entries@);
                }
            },
            SettingControl::Choice(cc) => {
                proof {
                    assert(*self == SettingControl::Choice(*cc));
                }
                let n = cc.variant_labels.len();
                let mut i: usize = 0;
                while i < n
                    invariant
                        i <= n,
                        n == cc.variant_labels@.len(),
                        pairs_view(result@) == pairs_view(res0) + labels_pairs(
                            cc.variant_labels@.subrange(0, i as int),
                        ),
                    decreases n - i,
                {
                    let d = &cc.variant_labels[i];
                    let ghost mid0 = result@;
                    result.push((d.id.clone(), d.display.clone()));
                    proof {
                        assert(pairs_view(result@) =~= pairs_view(mid0).push((d.id@, d.display@)));
                        assert(labels_pairs(cc.variant_labels@.subrange(0, i + 1)) =~= labels_pairs(
                            cc.variant_labels@.subrange(0, i as int),
                        ).push((d.id@, d.display@)));
                        assert(pairs_view(result@) =~= pairs_view(res0) + labels_pairs(
                            cc.variant_labels@.subrange(0, i + 1),
                        ));
                    }
                    i += 1;
                }
                let ghost resl = result@;
                proof {
                    assert(cc.variant_labels@.subrange(0, cc.variant_labels@.len() as int)
                        =~= cc.variant_labels@);
                    assert(pairs_view(resl) == pairs_view(res0) + labels_pairs(cc.variant_labels@));
                    assert(pairs_view(result@) =~= pairs_view(resl) + vcontrols_pairs(
                        cc.variant_controls@.subrange(0, 0),
                    ));
                }
                let m = cc.variant_controls.len();
                let mut j: usize = 0;
                while j < m
                    invariant
                        j <= m,
                        m == cc.variant_controls@.len(),
                        control_height(*self) == 1 + vcontrols_height(cc.variant_controls@),
                        pairs_view(resl) == pairs_view(res0) + labels_pairs(cc.variant_labels@),
                        pairs_view(result@) == pairs_view(resl) + vcontrols_pairs(
                            cc.variant_controls@.subrange(0, j as int),
                        ),
                    decreases m - j,
                {
                    proof {
                        lemma_vcontrol_height(cc.variant_controls@, j as int);
                    }
                    cc.variant_controls[j].1.get_display_name_structure(result);
                    proof {
                        let post = cc.variant_controls@.subrange(0, j + 1);
                        assert(post.subrange(0, post.len() - 1) =~= cc.variant_controls@.subrange(
                            0,
                            j as int,
                        ));
                        assert(post[post.len() - 1] == cc.variant_controls@[j as int]);
                        assert(pairs_view(result@) =~= pairs_view(resl) + vcontrols_pairs(post));
                    }
                    j += 1;
                }
                proof {
                    assert(cc.variant_controls@.subrange(0, cc.variant_controls@.len() as int)
                        =~= cc.variant_controls@);
                    assert(pairs_view(result@) =~= pairs_view(res0) + (labels_pairs(
                        cc.variant_labels@,
                    ) + vcontrols_pairs(cc.variant_controls@)));
                }
            },
            SettingControl::Optional(oc) => {
                proof {
                    assert(*self == SettingControl::Optional(*oc));
                }
                if oc.default_set {
                    oc.content_control.get_display_name_structure(result);
                } else {
                    proof {
                        assert(pairs_view(result@) =~= pairs_view(res0) + Seq::empty());
                    }
                }
            },
            SettingControl::Switch(sw) => {
                proof {
                    assert(*self == SettingControl::Switch(*sw));
                }
                sw.content_control.get_display_name_structure(result);
            },
            SettingControl::Array(ac) => {
                proof {
                    assert(*self == SettingControl::Array(*ac));
                    assert(pairs_view(result@) =~= pairs_view(res0) + controls_pairs(
                        ac.controls@.subrange(0, 0),
                    ));
                }
                walk_controls(&ac.controls, result, Ghost(control_height(*self)));
            },
            SettingControl::Vector(vc) => {
                proof {
                    assert(*self == SettingControl::Vector(*vc));
                }
                walk_controls(&vc.controls, result, Ghost(control_height(*self)));
            },
            SettingControl::Dictionary(dc) => {
                proof {
                    assert(*self == SettingControl::Dictionary(*dc));
                }
                let n = dc.controls.len();
                let mut i: usize = 0;
                while i < n
                    invariant
                        i <= n,
                        n == dc.controls@.len(),
                        control_height(*self) == 1 + dentries_height(dc.controls@),
                        pairs_view(result@) == pairs_view(res0) + dentries_pairs(
                            dc.controls@.subrange(0, i as int),
                        ),
                    decreases n - i,
                {
                    proof {
                        lemma_dentry_height(dc.controls@, i as int);
                    }
                    dc.controls[i].control.get_display_name_structure(result);
                    proof {
                        let post = dc.controls@.subrange(0, i + 1);
                        assert(post.subrange(0, post.len() - 1) =~= dc.controls@.subrange(
                            0,
                            i as int,
                        ));
                        assert(post[post.len() - 1] == dc.controls@[i as int]);
                        assert(pairs_view(result@) =~= pairs_view(res0) + dentries_pairs(post));
                    }
                    i += 1;
                }
                proof {
                    assert(dc.controls@.subrange(0, dc.controls@.len() as int) =~= dc.controls@);
                }
            },
            SettingControl::Unimplemented => {
                proof {
                    assert(pairs_view(result@) =~= pairs_view(res0) + Seq::empty());
                }
            },
            SettingControl::Boolean(_) => {
                proof {
                    assert(pairs_view(result@) =~= pairs_view(res0) + Seq::empty());
                }
            },
            SettingControl::Text(_) => {
                proof {
                    assert(pairs_view(result@) =~= pairs_view(res0) + Seq::empty());
                }
            },
            SettingControl::Numeric(_) => {
                proof {
                    assert(pairs_view(result@) =~= pairs_view(res0) + Seq::empty());
                }
            },
        }
    }
}

/// Walks a plain list of child controls in order, appending their pairs.
fn walk_controls(cs: &Vec<SettingControl>, result: &mut Vec<(String, String)>, bound: Ghost<nat>)
    requires
        controls_height(cs@) < bound@,
    ensures
        pairs_view(final(result)@) == pairs_view(old(result)@) + controls_pairs(cs@),
    decreases bound@, 0nat,
{
    let ghost res0 = result@;
    let n = cs.len();
    let mut i: usize = 0;
    while i < n
        invariant
            i <= n,
            n == cs@.len(),
            controls_height(cs@) < bound@,
            pairs_view(result@) == pairs_view(res0) + controls_pairs(cs@.subrange(0, i as int)),
        decreases n - i,
    {
        proof {
            lemma_control_height(cs@, i as int);
        }
        cs[i].get_display_name_structure(result);
        proof {
            let post = cs@.subrange(0, i + 1);
            assert(post.subrange(0, post.len() - 1) =~= cs@.subrange(0, i as int));
            assert(post[post.len() - 1] == cs@[i as int]);
            assert(pairs_view(result@) =~= pairs_view(res0) + controls_pairs(post));
        }
        i += 1;
    }
    proof {
        assert(cs@.subrange(0, cs@.len() as int) =~= cs@);
    }
}


pub proof fn lemma_vec_children_built_intro(
    cs: Seq<SettingControl>,
    nest: NestingView,
    template: SchemaNode,
)
    requires
        forall|i: int|
            0 <= i < cs.len() ==> built_from(#[trigger] cs[i], child_nest_indexed(nest, i), template),
    ensures
        vec_children_built(cs, nest, template),
    decreases cs,
{
    if cs.len() > 0 {
        let pre = cs.subrange(0, cs.len() - 1);
        assert(forall|i: int| 0 <= i < pre.len() ==> pre[i] == cs[i]);
        lemma_vec_children_built_intro(pre, nest, template);
    }
}

/// Every control built from a schema node sits exactly at the path it was
/// given.
pub proof fn lemma_built_path(c: SettingControl, nest: NestingView, schema: SchemaNode)
    requires
        built_from(c, nest, schema),
    ensures
        control_path(c) == nest.path,
{
    match schema {
        SchemaNode::Section { .. } => {},
        SchemaNode::Choice { .. } => {},
        SchemaNode::Optional { .. } => {},
        SchemaNode::Switch { .. } => {},
        SchemaNode::Boolean { .. } => {},
        SchemaNode::Number { .. } => {},
        SchemaNode::Text { .. } => {},
        SchemaNode::Array(_) => {},
        SchemaNode::Vector { .. } => {},
        SchemaNode::Dictionary { .. } => {},
    }
}

/// Path invariant of section construction: each entry's control extends the
/// section's path by exactly the entry's identifier, and entries with
/// distinct identifiers occupy distinct paths.
pub proof fn lemma_section_paths(
    cs: Seq<SectionEntry>,
    nest: NestingView,
    entries: Seq<SchemaEntry>,
)
    requires
        cs.len() == entries.len(),
        section_entries_built(cs, nest, entries),
    ensures
        forall|i: int|
            0 <= i < entries.len() ==> control_path(#[trigger] cs[i].control) == nest.path.push(
                PathSeg::Name(entries[i].name@),
            ),
        forall|i: int, j: int|
            0 <= i < entries.len() && 0 <= j < entries.len() && entries[i].name@
                != entries[j].name@ ==> control_path(#[trigger] cs[i].control) != control_path(
                #[trigger] cs[j].control,
            ),
{
    assert forall|i: int| 0 <= i < entries.len() implies control_path(
        #[trigger] cs[i].control,
    ) == nest.path.push(PathSeg::Name(entries[i].name@)) by {
        lemma_section_entries_built_index(cs, nest, entries, i);
        lemma_built_path(cs[i].control, child_nest_named(nest, entries[i].name@), entries[i].content);
    }
    assert forall|i: int, j: int|
        0 <= i < entries.len() && 0 <= j < entries.len() && entries[i].name@
            != entries[j].name@ implies control_path(#[trigger] cs[i].control) != control_path(
        #[trigger] cs[j].control,
    ) by {
        let pi = nest.path.push(PathSeg::Name(entries[i].name@));
        let pj = nest.path.push(PathSeg::Name(entries[j].name@));
        assert(pi[pi.len() - 1] == PathSeg::Name(entries[i].name@));
        assert(pj[pj.len() - 1] == PathSeg::Name(entries[j].name@));
    }
}

/// Index normalization of vector children: child i sits at the vector's path
/// extended by index i, so the indices run 0..len gap-free, duplicate-free
/// and in order.
pub proof fn lemma_vector_paths_normalized(
    cs: Seq<SettingControl>,
    nest: NestingView,
    template: SchemaNode,
)
    requires
        vec_children_built(cs, nest, template),
    ensures
        forall|i: int|
            0 <= i < cs.len() ==> control_path(#[trigger] cs[i]) == nest.path.push(
                PathSeg::Index(i),
            ),
        forall|i: int, j: int|
            0 <= i < cs.len() && 0 <= j < cs.len() && i != j ==> control_path(#[trigger] cs[i])
                != control_path(#[trigger] cs[j]),
{
    assert forall|i: int| 0 <= i < cs.len() implies control_path(#[trigger] cs[i])
        == nest.path.push(PathSeg::Index(i)) by {
        lemma_vec_children_built_index(cs, nest, template, i);
        lemma_built_path(cs[i], child_nest_indexed(nest, i), template);
    }
    assert forall|i: int, j: int|
        0 <= i < cs.len() && 0 <= j < cs.len() && i != j implies control_path(#[trigger] cs[i])
        != control_path(#[trigger] cs[j]) by {
        let pi = nest.path.push(PathSeg::Index(i));
        let pj = nest.path.push(PathSeg::Index(j));
        assert(pi[pi.len() - 1] == PathSeg::Index(i));
        assert(pj[pj.len() - 1] == PathSeg::Index(j));
    }
}

impl VectorControl {
    /// Appends a fresh control built from the element template, at the next
    /// free index.
    pub fn add_entry(&mut self, template: &SchemaNode)
        requires
            crate::schema::schema_wf(*template),
            vec_children_built(old(self).controls@, old(self).nesting_info@, *template),
            old(self).controls@.len() < usize::MAX,
        ensures
            final(self).nesting_info@ == old(self).nesting_info@,
            final(self).controls@.len() == old(self).controls@.len() + 1,
            forall|i: int|
                0 <= i < old(self).controls@.len() ==> final(self).controls@[i] == old(
                    self,
                ).controls@[i],
            vec_children_built(final(self).controls@, old(self).nesting_info@, *template),
    {
        let idx = self.controls.len();
        let c = SettingControl::build(self.nesting_info.child_with_index(idx), template);
        let ghost cs0 = self.controls@;
        self.controls.push(c);
        proof {
            assert(self.controls@.subrange(0, self.controls@.len() - 1) =~= cs0);
        }
    }

    /// Removes the control at position k; the controls that followed it are
    /// rebuilt from the element template one index earlier, so that child i
    /// again sits at path index i.
    pub fn remove_entry(&mut self, k: usize, template: &SchemaNode)
        requires
            crate::schema::schema_wf(*template),
            k < old(self).controls@.len(),
            vec_children_built(old(self).controls@, old(self).nesting_info@, *template),
        ensures
            final(self).nesting_info@ == old(self).nesting_info@,
            final(self).controls@.len() == old(self).controls@.len() - 1,
            forall|i: int|
                0 <= i < k ==> final(self).controls@[i] == old(self).controls@[i],
            vec_children_built(final(self).controls@, old(self).nesting_info@, *template),
    {
        let ghost nest = self.nesting_info@;
        let ghost cs0 = self.controls@;
        let _ = self.controls.remove(k);
        let mut i: usize = k;
        while i < self.controls.len()
            invariant
                k <= i <= self.controls@.len(),
                nest == self.nesting_info@,
                crate::schema::schema_wf(*template),
                self.controls@.len() == cs0.len() - 1,
                vec_children_built(cs0, nest, *template),
                forall|j: int| 0 <= j < k ==> self.controls@[j] == cs0[j],
                forall|j: int|
                    k <= j < i ==> built_from(
                        #[trigger] self.controls@[j],
                        child_nest_indexed(nest, j),
                        *template,
                    ),
                forall|j: int| i <= j < self.controls@.len() ==> self.controls@[j] == cs0[j + 1],
            decreases self.controls.len() - i,
        {
            let c = SettingControl::build(self.nesting_info.child_with_index(i), template);
            let _ = self.controls.remove(i);
            self.controls.insert(i, c);
            i += 1;
        }
        proof {
            assert forall|j: int|
                0 <= j < self.controls@.len() implies built_from(
                #[trigger] self.controls@[j],
                child_nest_indexed(nest, j),
                *template,
            ) by {
                if j < k {
                    lemma_vec_children_built_index(cs0, nest, *template, j);
                }
            }
            lemma_vec_children_built_intro(self.controls@, nest, *template);
        }
    }
}


/// Every dictionary entry's control at position i is built from the value
/// template over the path extended by index i, whatever key the entry holds.
pub open spec fn dict_children_built(
    ds: Seq<DictionaryEntry>,
    nest: NestingView,
    template: SchemaNode,
) -> bool
    decreases template, ds.len() + 1,
{
    if ds.len() == 0 {
        true
    } else {
        dict_children_built(ds.subrange(0, ds.len() - 1), nest, template) && built_from(
            ds[ds.len() - 1].control,
            child_nest_indexed(nest, ds.len() - 1),
            template,
        )
    }
}

pub proof fn lemma_dict_children_built_index(
    ds: Seq<DictionaryEntry>,
    nest: NestingView,
    template: SchemaNode,
    i: int,
)
    requires
        dict_children_built(ds, nest, template),
        0 <= i < ds.len(),
    ensures
        built_from(ds[i].control, child_nest_indexed(nest, i), template),
    decreases ds,
{
    if i < ds.len() - 1 {
        lemma_dict_children_built_index(ds.subrange(0, ds.len() - 1), nest, template, i);
        assert(ds.subrange(0, ds.len() - 1)[i] == ds[i]);
    }
}

pub proof fn lemma_dict_children_built_intro(
    ds: Seq<DictionaryEntry>,
    nest: NestingView,
    template: SchemaNode,
)
    requires
        forall|i: int|
            0 <= i < ds.len() ==> built_from(
                (#[trigger] ds[i]).control,
                child_nest_indexed(nest, i),
                template,
            ),
    ensures
        dict_children_built(ds, nest, template),
    decreases ds,
{
    if ds.len() > 0 {
        let pre = ds.subrange(0, ds.len() - 1);
        assert(forall|i: int| 0 <= i < pre.len() ==> pre[i] == ds[i]);
        lemma_dict_children_built_intro(pre, nest, template);
    }
}

/// Entries laid out from the schema defaults are in particular laid out at
/// their positions.
pub proof fn lemma_dict_entries_children(
    ds: Seq<DictionaryEntry>,
    nest: NestingView,
    defaults: Seq<(String, JsonValue)>,
    template: SchemaNode,
)
    requires
        ds.len() == defaults.len(),
        dict_entries_built(ds, nest, defaults, template),
    ensures
        dict_children_built(ds, nest, template),
    decreases ds,
{
    if ds.len() > 0 {
        lemma_dict_entries_children(
            ds.subrange(0, ds.len() - 1),
            nest,
            defaults.subrange(0, defaults.len() - 1),
            template,
        );
    }
}

impl DictionaryControl {
    /// Appends a fresh entry with the given key and a control built from the
    /// value template, at the next free index.
    pub fn add_entry(&mut self, key: String, template: &SchemaNode)
        requires
            crate::schema::schema_wf(*template),
            dict_children_built(old(self).controls@, old(self).nesting_info@, *template),
            old(self).controls@.len() < usize::MAX,
        ensures
            final(self).nesting_info@ == old(self).nesting_info@,
            final(self).default_key == old(self).default_key,
            final(self).controls@.len() == old(self).controls@.len() + 1,
            forall|i: int|
                0 <= i < old(self).controls@.len() ==> final(self).controls@[i] == old(
                    self,
                ).controls@[i],
            final(self).controls@[old(self).controls@.len() as int].key == key,
            dict_children_built(final(self).controls@, old(self).nesting_info@, *template),
    {
        let idx = self.controls.len();
        let c = SettingControl::build(self.nesting_info.child_with_index(idx), template);
        let ghost ds0 = self.controls@;
        self.controls.push(DictionaryEntry { key, control: c });
        proof {
            assert(self.controls@.subrange(0, self.controls@.len() - 1) =~= ds0);
        }
    }

    /// Removes the entry at position k. The entries that followed it keep
    /// their keys and order; their controls are rebuilt from the value
    /// template one index earlier, so that entry i again sits at path
    /// index i.
    pub fn remove_entry(&mut self, k: usize, template: &SchemaNode)
        requires
            crate::schema::schema_wf(*template),
            k < old(self).controls@.len(),
            dict_children_built(old(self).controls@, old(self).nesting_info@, *template),
        ensures
            final(self).nesting_info@ == old(self).nesting_info@,
            final(self).default_key == old(self).default_key,
            final(self).controls@.len() == old(self).controls@.len() - 1,
            forall|i: int|
                0 <= i < k ==> final(self).controls@[i] == old(self).controls@[i],
            forall|i: int|
                k <= i < final(self).controls@.len() ==> final(self).controls@[i].key == old(
                    self,
                ).controls@[i + 1].key,
            dict_children_built(final(self).controls@, old(self).nesting_info@, *template),
    {
        let ghost nest = self.nesting_info@;
        let ghost dk0 = self.default_key;
        let ghost ds0 = self.controls@;
        let _ = self.controls.remove(k);
        let mut i: usize = k;
        while i < self.controls.len()
            invariant
                k <= i <= self.controls@.len(),
                nest == self.nesting_info@,
                dk0 == self.default_key,
                crate::schema::schema_wf(*template),
                self.controls@.len() == ds0.len() - 1,
                dict_children_built(ds0, nest, *template),
                forall|j: int| 0 <= j < k ==> self.controls@[j] == ds0[j],
                forall|j: int|
                    k <= j < i ==> (#[trigger] self.controls@[j]).key == ds0[j + 1].key
                        && built_from(
                        self.controls@[j].control,
                        child_nest_indexed(nest, j),
                        *template,
                    ),
                forall|j: int| i <= j < self.controls@.len() ==> self.controls@[j] == ds0[j + 1],
            decreases self.controls.len() - i,
        {
            let c = SettingControl::build(self.nesting_info.child_with_index(i), template);
            let mut e = self.controls.remove(i);
            e.control = c;
            self.controls.insert(i, e);
            i += 1;
        }
        proof {
            assert forall|j: int|
                0 <= j < self.controls@.len() implies built_from(
                (#[trigger] self.controls@[j]).control,
                child_nest_indexed(nest, j),
                *template,
            ) by {
                if j < k {
                    lemma_dict_children_built_index(ds0, nest, *template, j);
                }
            }
            lemma_dict_children_built_intro(self.controls@, nest, *template);
        }
    }
}

} // verus!
