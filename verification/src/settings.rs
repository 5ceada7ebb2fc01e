//! The top-level settings panel state: tab selection, the held session
//! document snapshot, the refresh timer, search-mode pruning and the per-frame
//! batching of committed edits.

use crate::controls::DisplayString;
use crate::controls::NestingInfo;
use crate::controls::PathSeg;
use crate::controls::PathSegment;
use crate::controls::PathValuePair;
use crate::controls::NestingView;
use crate::controls::SettingControl;
use crate::controls::built_from;
use crate::controls::display_pairs;
use crate::controls::pairs_view;
use crate::controls::spec_display_name;
use crate::json::JsonData;
use crate::json::JsonValue;
use crate::json::data_keeps;
use crate::json::data_pruned;
use crate::json::json_view;
use crate::json::lemma_views_of_fields;
use crate::json::prune_value;
use crate::json::views_of_fields;
use crate::schema::SchemaEntry;
use crate::schema::SchemaNode;
use crate::schema::entries_wf;
use crate::schema::lemma_entries_wf_index;
use crate::schema::schema_wf;
use crate::search::SearchControl;
use crate::search::filtered_pairs;
use crate::search::matched_ids;
use vstd::prelude::*;
use vstd::string::*;

verus! {

/// How long a fetched snapshot or device list is considered fresh, in
/// milliseconds. While it is missing, a new fetch is requested at most once
/// per interval.
pub const DATA_UPDATE_INTERVAL_MS: u64 = 1000;

/// A fire-and-forget request to the external session transport.
pub enum ServerRequest {
    GetSession,
    GetAudioDevices,
    SetValues(Vec<PathValuePair>),
}

/// The audio device names delivered by the external enumeration: playback
/// devices first, capture devices second.
pub struct AudioDevicesList {
    pub output: Vec<String>,
    pub input: Vec<String>,
}

/// The lazily built audio preset state: the device names each preset offers.
pub struct AudioPresets {
    pub game_audio_devices: Vec<String>,
    pub microphone_devices: Vec<String>,
}

/// One top-level schema section with its tab label.
pub struct TopLevelEntry {
    pub id: DisplayString,
    pub control: SettingControl,
}

/// The settings panel.
pub struct SettingsTab {
    pub selected_top_tab_id: String,
    pub audio_presets: Option<AudioPresets>,
    pub top_level_entries: Vec<TopLevelEntry>,
    pub session_settings_json: Option<JsonValue>,
    pub last_update_ms: u64,
    pub search_bar: SearchControl,
}

/// A refresh is due once more than the update interval has passed.
pub open spec fn refresh_due(now_ms: u64, last_ms: u64) -> bool {
    now_ms > last_ms + DATA_UPDATE_INTERVAL_MS
}

/// The nesting of one top-level section: below the session settings root,
/// at the outermost visual depth.
pub open spec fn top_nest(id: Seq<char>) -> NestingView {
    NestingView {
        path: seq![PathSeg::Name("session_settings"@), PathSeg::Name(id)],
        indentation_level: 0,
    }
}

pub open spec fn top_entry_built(e: TopLevelEntry, s: SchemaEntry) -> bool {
    &&& e.id.id@ == s.name@
    &&& e.id.display@ == spec_display_name(s.name@, s.strings@)
    &&& built_from(e.control, top_nest(s.name@), s.content)
}

/// Pairwise: each top-level entry is built from its schema entry.
pub open spec fn top_entries_built(tes: Seq<TopLevelEntry>, es: Seq<SchemaEntry>) -> bool
    decreases es.len(),
{
    if tes.len() == 0 || es.len() == 0 {
        true
    } else {
        top_entries_built(tes.subrange(0, tes.len() - 1), es.subrange(0, es.len() - 1))
            && top_entry_built(tes[tes.len() - 1], es[es.len() - 1])
    }
}

pub open spec fn section_schema_entries(s: SchemaNode) -> Seq<SchemaEntry> {
    match s {
        SchemaNode::Section { entries, .. } => entries@,
        _ => Seq::empty(),
    }
}

/// The keep-keys of one section under a query: the identifiers whose
/// display name matches the query.
pub open spec fn entry_keep_keys(c: SettingControl, q: Seq<char>) -> Seq<Seq<char>> {
    matched_ids(display_pairs(c), q)
}

/// The names preserved as leaves during search pruning: the structural key
/// "content" alone, which carries no data of its own.
pub open spec fn search_preserved() -> Seq<Seq<char>> {
    seq!["content"@]
}

/// The document root after pruning the fragment of one top-level entry.
pub open spec fn doc_after_entry(d: JsonData, e: TopLevelEntry, q: Seq<char>) -> JsonData {
    match d {
        JsonData::Object(fields) => JsonData::Object(
            fields.map_values(
                |f: (Seq<char>, JsonData)|
                    if f.0 == e.id.id@ {
                        (f.0, data_pruned(f.1, entry_keep_keys(e.control, q), search_preserved()))
                    } else {
                        f
                    },
            ),
        ),
        _ => d,
    }
}

/// The document root after pruning every top-level entry's fragment in order.
pub open spec fn doc_after_search(d: JsonData, entries: Seq<TopLevelEntry>, q: Seq<char>) -> JsonData
    decreases entries.len(),
{
    if entries.len() == 0 {
        d
    } else {
        doc_after_entry(
            doc_after_search(d, entries.subrange(0, entries.len() - 1), q),
            entries[entries.len() - 1],
            q,
        )
    }
}

/// Rate-limit law: once a frame at `t1` has refreshed, no frame within the
/// same update interval refreshes again.
pub proof fn lemma_refresh_rate_limit(last_ms: u64, t1: u64, t2: u64)
    requires
        refresh_due(t1, last_ms),
        t2 <= t1 + DATA_UPDATE_INTERVAL_MS,
    ensures
        !refresh_due(t2, t1),
{
}

impl SettingsTab {
    /// Builds the panel from the top-level schema, which must be a Section.
    /// The panel starts on the presets tab with no document snapshot, no
    /// audio presets, an empty search query, and the given frame time as the
    /// last refresh.
    pub fn new(schema: SchemaNode, now_ms: u64) -> (r: SettingsTab)
        requires
            schema is Section,
            schema_wf(schema),
        ensures
            r.selected_top_tab_id@ == "presets"@,
            r.audio_presets is None,
            r.session_settings_json is None,
            r.last_update_ms == now_ms,
            r.search_bar.query@.len() == 0,
            r.top_level_entries@.len() == section_schema_entries(schema).len(),
            top_entries_built(r.top_level_entries@, section_schema_entries(schema)),
    {
        let root_key = String::from_str("session_settings");
        let mut out: Vec<TopLevelEntry> = Vec::new();
        match &schema {
            SchemaNode::Section { entries, .. } => {
                proof {
                    assert(entries_wf(entries@));
                }
                let mut i: usize = 0;
                while i < entries.len()
                    invariant
                        i <= entries.len(),
                        root_key@ == "session_settings"@,
                        entries_wf(entries@),
                        out@.len() == i,
                        top_entries_built(out@, entries@.subrange(0, i as int)),
                    decreases entries.len() - i,
                {
                    let e = &entries[i];
                    proof {
                        lemma_entries_wf_index(entries@, i as int);
                    }
                    let mut path: Vec<PathSegment> = Vec::new();
                    path.push(PathSegment::Name(root_key.clone()));
                    path.push(PathSegment::Name(e.name.clone()));
                    let nesting = NestingInfo { path, indentation_level: 0 };
                    proof {
                        assert(nesting@.path =~= top_nest(e.name@).path);
                        assert(nesting@ == top_nest(e.name@));
                    }
                    let display = get_display_name_of_entry(e);
                    let control = SettingControl::build(nesting, &e.content);
                    let ghost out0 = out@;
                    out.push(
                        TopLevelEntry {
                            id: DisplayString { id: e.name.clone(), display },
                            control,
                        },
                    );
                    proof {
                        let post = entries@.subrange(0, i + 1);
                        assert(post.subrange(0, post.len() - 1) =~= entries@.subrange(0, i as int));
                        assert(post[post.len() - 1] == entries@[i as int]);
                        assert(out@.subrange(0, out@.len() - 1) =~= out0);
                        assert(top_entry_built(out@[out@.len() - 1], entries@[i as int]));
                    }
                    i += 1;
                }
                proof {
                    assert(entries@.subrange(0, entries@.len() as int) =~= entries@);
                }
            },
            _ => {
                proof {
                    assert(false);
                }
            },
        }
        SettingsTab {
            selected_top_tab_id: String::from_str("presets"),
            audio_presets: Option::None,
            top_level_entries: out,
            session_settings_json: Option::None,
            last_update_ms: now_ms,
            search_bar: SearchControl::new(),
        }
    }

    /// Replaces the held session document snapshot wholesale. The root of a
    /// session document is always an object.
    pub fn update_session(&mut self, session_settings: JsonValue)
        requires
            session_settings is Object,
        ensures
            final(self).session_settings_json == Option::Some(session_settings),
            final(self).selected_top_tab_id == old(self).selected_top_tab_id,
            final(self).audio_presets == old(self).audio_presets,
            final(self).top_level_entries == old(self).top_level_entries,
            final(self).last_update_ms == old(self).last_update_ms,
            final(self).search_bar == old(self).search_bar,
    {
        self.session_settings_json = Option::Some(session_settings);
    }

    /// Builds the audio preset state from the enumerated devices: the game
    /// audio preset offers every device, the microphone preset the playback
    /// devices. Without a session snapshot the list is ignored.
    pub fn update_audio_devices(&mut self, list: AudioDevicesList)
        ensures
            old(self).session_settings_json is Some ==> (final(self).audio_presets
                matches Option::Some(p)
                && p.game_audio_devices.deep_view() == list.output.deep_view()
                + list.input.deep_view()
                && p.microphone_devices.deep_view() == list.output.deep_view()),
            old(self).session_settings_json is None ==> final(self).audio_presets == old(
                self,
            ).audio_presets,
            final(self).selected_top_tab_id == old(self).selected_top_tab_id,
            final(self).top_level_entries == old(self).top_level_entries,
            final(self).session_settings_json == old(self).session_settings_json,
            final(self).last_update_ms == old(self).last_update_ms,
            final(self).search_bar == old(self).search_bar,
    {
        if self.session_settings_json.is_some() {
            let mut all: Vec<String> = Vec::new();
            let mut mic: Vec<String> = Vec::new();
            let mut i: usize = 0;
            while i < list.output.len()
                invariant
                    i <= list.output@.len(),
                    all@.len() == i,
                    mic@.len() == i,
                    forall|j: int| 0 <= j < i ==> all@[j]@ == list.output@[j]@,
                    forall|j: int| 0 <= j < i ==> mic@[j]@ == list.output@[j]@,
                decreases list.output.len() - i,
            {
                all.push(list.output[i].clone());
                mic.push(list.output[i].clone());
                i += 1;
            }
            let mut k: usize = 0;
            let ghost n_out = list.output@.len();
            while k < list.input.len()
                invariant
                    k <= list.input@.len(),
                    n_out == list.output@.len(),
                    all@.len() == n_out + k,
                    forall|j: int| 0 <= j < n_out ==> all@[j]@ == list.output@[j]@,
                    forall|j: int| 0 <= j < k ==> all@[n_out + j]@ == list.input@[j]@,
                decreases list.input.len() - k,
            {
                all.push(list.input[k].clone());
                k += 1;
            }
            proof {
                assert(all.deep_view() =~= list.output.deep_view() + list.input.deep_view());
                assert(mic.deep_view() =~= list.output.deep_view());
            }
            self.audio_presets = Option::Some(
                AudioPresets { game_audio_devices: all, microphone_devices: mic },
            );
        }
    }

    /// Selects a top-level tab: the presets view, the search view, or one
    /// schema section by identifier.
    pub fn select_tab(&mut self, id: String)
        ensures
            final(self).selected_top_tab_id == id,
            final(self).audio_presets == old(self).audio_presets,
            final(self).top_level_entries == old(self).top_level_entries,
            final(self).session_settings_json == old(self).session_settings_json,
            final(self).last_update_ms == old(self).last_update_ms,
            final(self).search_bar == old(self).search_bar,
    {
        self.selected_top_tab_id = id;
    }

    /// Types into the search box.
    pub fn set_search_query(&mut self, query: String)
        ensures
            final(self).search_bar.query == query,
            final(self).selected_top_tab_id == old(self).selected_top_tab_id,
            final(self).audio_presets == old(self).audio_presets,
            final(self).top_level_entries == old(self).top_level_entries,
            final(self).session_settings_json == old(self).session_settings_json,
            final(self).last_update_ms == old(self).last_update_ms,
    {
        self.search_bar.query = query;
    }

    /// The pruning pass of the search filter: removes every subtree of
    /// `value` that neither contains a keep-key nor is preserved, and
    /// reports whether anything in `value` was worth keeping.
    pub fn remove_unmatched_branches(
        value: &mut JsonValue,
        key_names: Vec<String>,
        not_ignore_names: Vec<String>,
    ) -> (kept: bool)
        ensures
            json_view(*final(value)) == data_pruned(
                json_view(*old(value)),
                key_names.deep_view(),
                not_ignore_names.deep_view(),
            ),
            kept == data_keeps(
                json_view(*old(value)),
                key_names.deep_view(),
                not_ignore_names.deep_view(),
            ),
    {
        let (nv, kept) = prune_value(value, &key_names, &not_ignore_names);
        *value = nv;
        kept
    }
}

fn get_display_name_of_entry(e: &SchemaEntry) -> (r: String)
    requires
        e.name@.len() > 0,
    ensures
        r@ == spec_display_name(e.name@, e.strings@),
{
    crate::controls::get_display_name(e.name.as_str(), &e.strings)
}


/// The panel is in search mode with a non-empty query.
pub open spec fn searching(t: SettingsTab) -> bool {
    t.selected_top_tab_id@ == "search"@ && t.search_bar.query@.len() > 0
}

/// Prunes the fragment of one top-level entry inside the document root:
/// the keep-keys are the entry's matching identifiers plus "content", the
/// preserved names its whole label universe.
fn prune_entry_fragment(doc: &mut JsonValue, entry: &TopLevelEntry, search: &SearchControl)
    requires
        search.query@.len() > 0,
    ensures
        json_view(*final(doc)) == doc_after_entry(json_view(*old(doc)), *entry, search.query@),
{
    let ghost q = search.query@;
    let ghost kk = entry_keep_keys(entry.control, q);
    let ghost pp = search_preserved();
    let mut pairs: Vec<(String, String)> = Vec::new();
    search.get_found_labels(&entry.control, &mut pairs);
    proof {
        assert(Seq::<(Seq<char>, Seq<char>)>::empty() + display_pairs(entry.control)
            =~= display_pairs(entry.control));
        assert(pairs_view(pairs@) =~= filtered_pairs(display_pairs(entry.control), q));
    }
    let mut keys: Vec<String> = Vec::new();
    let mut j: usize = 0;
    while j < pairs.len()
        invariant
            j <= pairs@.len(),
            pairs_view(pairs@) == filtered_pairs(display_pairs(entry.control), q),
            keys@.len() == j,
            forall|t: int| 0 <= t < j ==> keys@[t]@ == pairs@[t].0@,
        decreases pairs.len() - j,
    {
        keys.push(pairs[j].0.clone());
        j += 1;
    }
    proof {
        assert(keys.deep_view() =~= kk);
    }
    let mut pres: Vec<String> = Vec::new();
    pres.push(String::from_str("content"));
    proof {
        assert(pres.deep_view() =~= pp);
    }
    match doc {
        JsonValue::Object(fields) => {
            let ghost f0 = views_of_fields(fields@);
            proof {
                lemma_views_of_fields(fields@);
            }
            let n = fields.len();
            let mut i: usize = 0;
            while i < n
                invariant
                    i <= n,
                    n == fields@.len(),
                    q == search.query@,
                    kk == entry_keep_keys(entry.control, q),
                    pp == search_preserved(),
                    keys.deep_view() == kk,
                    pres.deep_view() == pp,
                    f0.len() == n,
                    views_of_fields(fields@).len() == n,
                    forall|t: int|
                        0 <= t < i ==> views_of_fields(fields@)[t] == (
                        if f0[t].0 == entry.id.id@ {
                            (f0[t].0, data_pruned(f0[t].1, kk, pp))
                        } else {
                            f0[t]
                        }),
                    forall|t: int| i <= t < n ==> views_of_fields(fields@)[t] == f0[t],
                decreases n - i,
            {
                let ghost fsnap = fields@;
                proof {
                    lemma_views_of_fields(fields@);
                }
                if fields[i].key == entry.id.id {
                    let mut jf = fields.remove(i);
                    let (nv, _) = prune_value(&jf.value, &keys, &pres);
                    jf.value = nv;
                    let ghost jfv = jf;
                    fields.insert(i, jf);
                    proof {
                        assert(fields@ =~= fsnap.update(i as int, jfv));
                        lemma_views_of_fields(fields@);
                        assert forall|t: int| 0 <= t < n implies views_of_fields(fields@)[t] == (
                            if t == i {
                                (fsnap[t].key@, data_pruned(
                                    json_view(fsnap[t].value), kk, pp,
                                ))
                            } else {
                                views_of_fields(fsnap)[t]
                            }) by {
                            if t != i {
                                assert(fields@[t] == fsnap[t]);
                            }
                        }
                    }
                } else {
                    proof {
                        assert(fields@ == fsnap);
                    }
                }
                i += 1;
            }
            proof {
                assert(views_of_fields(fields@) =~= f0.map_values(
                    |f: (Seq<char>, JsonData)|
                        if f.0 == entry.id.id@ {
                            (f.0, data_pruned(f.1, kk, pp))
                        } else {
                            f
                        },
                ));
            }
        },
        _ => {
        },
    }
}

/// Prunes every top-level entry's fragment of the document root, in entry
/// order.
fn prune_doc_for_search(doc: &mut JsonValue, entries: &Vec<TopLevelEntry>, search: &SearchControl)
    requires
        search.query@.len() > 0,
    ensures
        json_view(*final(doc)) == doc_after_search(
            json_view(*old(doc)),
            entries@,
            search.query@,
        ),
{
    let ghost d0 = json_view(*doc);
    let ghost q = search.query@;
    let n = entries.len();
    let mut i: usize = 0;
    while i < n
        invariant
            i <= n,
            n == entries@.len(),
            q == search.query@,
            q.len() > 0,
            json_view(*doc) == doc_after_search(d0, entries@.subrange(0, i as int), q),
        decreases n - i,
    {
        prune_entry_fragment(doc, &entries[i], search);
        proof {
            let post = entries@.subrange(0, i + 1);
            assert(post.subrange(0, post.len() - 1) =~= entries@.subrange(0, i as int));
            assert(post[post.len() - 1] == entries@[i as int]);
        }
        i += 1;
    }
    proof {
        assert(entries@.subrange(0, n as int) =~= entries@);
    }
}

impl SettingsTab {
    /// One frame of the panel. `now_ms` is the frame time of a monotonic
    /// millisecond clock; `frame_edits` are the changed-path records the
    /// rendered controls produced this frame.
    ///
    /// The frame emits, in this order: a session fetch if a refresh is due
    /// and no snapshot is held; a device fetch if a refresh is due and the
    /// audio presets are not built yet; and one single batched commit of all
    /// the frame's edits, if there are any. In search mode with a non-empty
    /// query the held document is pruned to the matching subtrees before
    /// rendering, section by section.
    pub fn ui(&mut self, now_ms: u64, frame_edits: Vec<PathValuePair>) -> (requests: Vec<
        ServerRequest,
    >)
        ensures
            ({
                let due = refresh_due(now_ms, old(self).last_update_ms);
                let g1 = due && old(self).session_settings_json is None;
                let g2 = due && old(self).audio_presets is None;
                let gets = (if g1 {
                    seq![ServerRequest::GetSession]
                } else {
                    Seq::<ServerRequest>::empty()
                }) + (if g2 {
                    seq![ServerRequest::GetAudioDevices]
                } else {
                    Seq::<ServerRequest>::empty()
                });
                &&& requests@ == gets + (if frame_edits@.len() > 0 {
                    seq![ServerRequest::SetValues(frame_edits)]
                } else {
                    Seq::<ServerRequest>::empty()
                })
                &&& final(self).last_update_ms == (if due {
                    now_ms
                } else {
                    old(self).last_update_ms
                })
            }),
            final(self).selected_top_tab_id == old(self).selected_top_tab_id,
            final(self).audio_presets == old(self).audio_presets,
            final(self).top_level_entries == old(self).top_level_entries,
            final(self).search_bar == old(self).search_bar,
            (searching(*old(self)) && old(self).session_settings_json is Some)
                ==> (final(self).session_settings_json matches Option::Some(v)
                && json_view(v) == doc_after_search(
                json_view(old(self).session_settings_json->0),
                old(self).top_level_entries@,
                old(self).search_bar.query@,
            )),
            !(searching(*old(self)) && old(self).session_settings_json is Some)
                ==> final(self).session_settings_json == old(self).session_settings_json,
    {
        let mut requests: Vec<ServerRequest> = Vec::new();
        let due = now_ms > self.last_update_ms && now_ms - self.last_update_ms
            > DATA_UPDATE_INTERVAL_MS;
        proof {
            assert(due == refresh_due(now_ms, self.last_update_ms));
        }
        if due {
            if self.session_settings_json.is_none() {
                requests.push(ServerRequest::GetSession);
            }
            if self.audio_presets.is_none() {
                requests.push(ServerRequest::GetAudioDevices);
            }
            self.last_update_ms = now_ms;
        }
        let search_tag = String::from_str("search");
        if self.selected_top_tab_id == search_tag && !self.search_bar.query.as_str().is_empty() {
            let taken = self.session_settings_json.take();
            match taken {
                Option::Some(mut doc) => {
                    prune_doc_for_search(&mut doc, &self.top_level_entries, &self.search_bar);
                    self.session_settings_json = Option::Some(doc);
                },
                Option::None => {
                },
            }
        }
        let ghost gets = requests@;
        if frame_edits.len() > 0 {
            requests.push(ServerRequest::SetValues(frame_edits));
        }
        requests
    }
}

} // verus!
