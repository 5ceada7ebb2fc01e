//! The free-text search filter: matching display names against a query and
//! turning the survivors into the keep-keys of the pruning pass.

use crate::controls::SettingControl;
use crate::controls::opt_str_view;
use crate::json::JsonData;
use crate::json::JsonValue;
use crate::json::data_height;
use crate::json::json_view;
use crate::json::lemma_elem_height;
use crate::json::lemma_field_height;
use crate::json::lemma_views_of_elems;
use crate::json::lemma_views_of_fields;
use crate::json::views_of_elems;
use crate::json::views_of_fields;
use crate::text_util::contains_sub;
use crate::text_util::dec_str;
use crate::text_util::str_contains;
use crate::text_util::usize_to_string;
use crate::controls::display_pairs;
use crate::controls::pairs_view;
use crate::text_util::contains_ci;
use crate::text_util::str_contains_ci;
use vstd::prelude::*;
use vstd::string::*;

verus! {

/// The search box state: the current free-text query.
pub struct SearchControl {
    pub query: String,
}

/// The label pairs whose display name contains the query, ignoring ASCII
/// case, in their original order.
pub open spec fn filtered_pairs(
    pairs: Seq<(Seq<char>, Seq<char>)>,
    q: Seq<char>,
) -> Seq<(Seq<char>, Seq<char>)>
    decreases pairs.len(),
{
    if pairs.len() == 0 {
        Seq::empty()
    } else {
        let rest = filtered_pairs(pairs.subrange(0, pairs.len() - 1), q);
        if contains_ci(pairs[pairs.len() - 1].1, q) {
            rest.push(pairs[pairs.len() - 1])
        } else {
            rest
        }
    }
}

/// The identifiers of the matching pairs: the keep-keys of the search filter.
pub open spec fn matched_ids(pairs: Seq<(Seq<char>, Seq<char>)>, q: Seq<char>) -> Seq<Seq<char>> {
    filtered_pairs(pairs, q).map_values(|p: (Seq<char>, Seq<char>)| p.0)
}

/// All identifiers of the label universe.
pub open spec fn all_ids(pairs: Seq<(Seq<char>, Seq<char>)>) -> Seq<Seq<char>> {
    pairs.map_values(|p: (Seq<char>, Seq<char>)| p.0)
}

impl SearchControl {
    /// A search box with an empty query.
    pub fn new() -> (r: SearchControl)
        ensures
            r.query@.len() == 0,
    {
        SearchControl { query: String::new() }
    }

    /// Collects the display-name structure of one top-level control into
    /// `result` and keeps only the entries whose display name contains the
    /// query, ignoring ASCII case. An empty query leaves `result` untouched.
    pub fn get_found_labels(
        &self,
        entry_control: &SettingControl,
        result: &mut Vec<(String, String)>,
    )
        ensures
            self.query@.len() == 0 ==> final(result)@ == old(result)@,
            self.query@.len() > 0 ==> pairs_view(final(result)@) == filtered_pairs(
                pairs_view(old(result)@) + display_pairs(*entry_control),
                self.query@,
            ),
    {
        if !self.query.as_str().is_empty() {
            entry_control.get_display_name_structure(result);
            let ghost full = pairs_view(result@);
            let mut kept: Vec<(String, String)> = Vec::new();
            let mut i: usize = 0;
            while i < result.len()
                invariant
                    i <= result@.len(),
                    full == pairs_view(result@),
                    pairs_view(kept@) == filtered_pairs(full.subrange(0, i as int), self.query@),
                decreases result.len() - i,
            {
                let ghost kept0 = kept@;
                if str_contains_ci(result[i].1.as_str(), self.query.as_str()) {
                    kept.push((result[i].0.clone(), result[i].1.clone()));
                    proof {
                        assert(pairs_view(kept@) =~= pairs_view(kept0).push(
                            (result@[i as int].0@, result@[i as int].1@),
                        ));
                    }
                }
                proof {
                    let post = full.subrange(0, i + 1);
                    assert(post.subrange(0, post.len() - 1) =~= full.subrange(0, i as int));
                    assert(post[post.len() - 1] == full[i as int]);
                    assert(full[i as int] == (result@[i as int].0@, result@[i as int].1@));
                }
                i += 1;
            }
            proof {
                assert(full.subrange(0, full.len() as int) =~= full);
            }
            *result = kept;
        }
    }
}


/// The dotted key of an object member under an optional parent key.
pub open spec fn join_key(prefix: Option<Seq<char>>, key: Seq<char>) -> Seq<char> {
    match prefix {
        Option::Some(p) => p + "."@ + key,
        Option::None => key,
    }
}

/// The bracketed key of an array element under an optional parent key.
pub open spec fn index_key(prefix: Option<Seq<char>>, i: nat) -> Seq<char> {
    match prefix {
        Option::Some(p) => p + "["@ + dec_str(i) + "]"@,
        Option::None => "["@ + dec_str(i) + "]"@,
    }
}

/// The dotted keys of all leaves below `d` whose key contains the query
/// verbatim, in document order.
pub open spec fn found_keys(d: JsonData, q: Seq<char>, prefix: Option<Seq<char>>) -> Seq<
    Seq<char>,
>
    decreases d, 0nat,
{
    match d {
        JsonData::Object(fields) => found_keys_fields(fields, q, prefix),
        JsonData::Array(elems) => found_keys_elems(elems, q, prefix),
        _ => match prefix {
            Option::Some(k) => if contains_sub(k, q) {
                seq![k]
            } else {
                Seq::empty()
            },
            Option::None => Seq::empty(),
        },
    }
}

pub open spec fn found_keys_fields(
    fields: Seq<(Seq<char>, JsonData)>,
    q: Seq<char>,
    prefix: Option<Seq<char>>,
) -> Seq<Seq<char>>
    decreases fields, 1nat,
{
    if fields.len() == 0 {
        Seq::empty()
    } else {
        found_keys_fields(fields.subrange(0, fields.len() - 1), q, prefix) + found_keys(
            fields[fields.len() - 1].1,
            q,
            Option::Some(join_key(prefix, fields[fields.len() - 1].0)),
        )
    }
}

pub open spec fn found_keys_elems(
    elems: Seq<JsonData>,
    q: Seq<char>,
    prefix: Option<Seq<char>>,
) -> Seq<Seq<char>>
    decreases elems, 1nat,
{
    if elems.len() == 0 {
        Seq::empty()
    } else {
        found_keys_elems(elems.subrange(0, elems.len() - 1), q, prefix) + found_keys(
            elems[elems.len() - 1],
            q,
            Option::Some(index_key(prefix, (elems.len() - 1) as nat)),
        )
    }
}

impl SearchControl {
    /// Collects the dotted keys of every leaf below `value` whose key
    /// contains `substring` verbatim, appending them to `results` in
    /// document order.
    pub fn find_keys_of_leaves_with_substring(
        value: &JsonValue,
        substring: &str,
        results: &mut Vec<String>,
        current_key: Option<String>,
    )
        ensures
            final(results).deep_view() == old(results).deep_view() + found_keys(
                json_view(*value),
                substring@,
                opt_str_view(current_key),
            ),
        decreases data_height(json_view(*value)),
    {
        let ghost res0 = results.deep_view();
        let ghost pk = opt_str_view(current_key);
        let ghost q = substring@;
        match value {
            JsonValue::Object(fields) => {
                let ghost dvs = views_of_fields(fields@);
                proof {
                    lemma_views_of_fields(fields@);
                    assert(results.deep_view() =~= res0 + found_keys_fields(
                        dvs.subrange(0, 0),
                        q,
                        pk,
                    ));
                }
                let n = fields.len();
                let mut i: usize = 0;
                while i < n
                    invariant
                        i <= n,
                        n == fields@.len(),
                        q == substring@,
                        pk == opt_str_view(current_key),
                        json_view(*value) == JsonData::Object(dvs),
                        dvs == views_of_fields(fields@),
                        dvs.len() == n,
                        forall|j: int|
                            0 <= j < n ==> dvs[j] == (
                                fields@[j].key@,
                                json_view(fields@[j].value),
                            ),
                        results.deep_view() == res0 + found_keys_fields(
                            dvs.subrange(0, i as int),
                            q,
                            pk,
                        ),
                    decreases n - i,
                {
                    let new_key = match &current_key {
                        Option::Some(p) => p.clone().concat(".").concat(fields[i].key.as_str()),
                        Option::None => fields[i].key.clone(),
                    };
                    proof {
                        assert(new_key@ == join_key(pk, dvs[i as int].0));
                        lemma_field_height(dvs, i as int);
                        assert(data_height(dvs[i as int].1) < data_height(json_view(*value)));
                    }
                    SearchControl::find_keys_of_leaves_with_substring(
                        &fields[i].value,
                        substring,
                        results,
                        Option::Some(new_key),
                    );
                    proof {
                        let post = dvs.subrange(0, i + 1);
                        assert(post.subrange(0, post.len() - 1) =~= dvs.subrange(0, i as int));
                        assert(post[post.len() - 1] == dvs[i as int]);
                        assert(results.deep_view() =~= res0 + found_keys_fields(post, q, pk));
                    }
                    i += 1;
                }
                proof {
                    assert(dvs.subrange(0, n as int) =~= dvs);
                }
            },
            JsonValue::Array(elems) => {
                let ghost dvs = views_of_elems(elems@);
                proof {
                    lemma_views_of_elems(elems@);
                    assert(results.deep_view() =~= res0 + found_keys_elems(
                        dvs.subrange(0, 0),
                        q,
                        pk,
                    ));
                }
                let n = elems.len();
                let mut i: usize = 0;
                while i < n
                    invariant
                        i <= n,
                        n == elems@.len(),
                        q == substring@,
                        pk == opt_str_view(current_key),
                        json_view(*value) == JsonData::Array(dvs),
                        dvs == views_of_elems(elems@),
                        dvs.len() == n,
                        forall|j: int| 0 <= j < n ==> dvs[j] == json_view(elems@[j]),
                        results.deep_view() == res0 + found_keys_elems(
                            dvs.subrange(0, i as int),
                            q,
                            pk,
                        ),
                    decreases n - i,
                {
                    let num = usize_to_string(i);
                    let new_key = match &current_key {
                        Option::Some(p) => p.clone().concat("[").concat(num.as_str()).concat("]"),
                        Option::None => String::from_str("[").concat(num.as_str()).concat("]"),
                    };
                    proof {
                        assert(new_key@ == index_key(pk, i as nat));
                        lemma_elem_height(dvs, i as int);
                        assert(data_height(dvs[i as int]) < data_height(json_view(*value)));
                    }
                    SearchControl::find_keys_of_leaves_with_substring(
                        &elems[i],
                        substring,
                        results,
                        Option::Some(new_key),
                    );
                    proof {
                        let post = dvs.subrange(0, i + 1);
                        assert(post.subrange(0, post.len() - 1) =~= dvs.subrange(0, i as int));
                        assert(post[post.len() - 1] == dvs[i as int]);
                        assert(results.deep_view() =~= res0 + found_keys_elems(post, q, pk));
                    }
                    i += 1;
                }
                proof {
                    assert(dvs.subrange(0, n as int) =~= dvs);
                }
            },
            _ => {
                match &current_key {
                    Option::Some(key) => {
                        if str_contains(key.as_str(), substring) {
                            results.push(key.clone());
                            proof {
                                assert(results.deep_view() =~= res0.push(key@));
                                assert(results.deep_view() =~= res0 + seq![key@]);
                            }
                        } else {
                            proof {
                                assert(results.deep_view() =~= res0 + Seq::<Seq<char>>::empty());
                            }
                        }
                    },
                    Option::None => {
                        proof {
                            assert(results.deep_view() =~= res0 + Seq::<Seq<char>>::empty());
                        }
                    },
                }
            },
        }
    }
}


/// The keys joined with a comma and a space between neighbours.
pub open spec fn joined_keys(keys: Seq<Seq<char>>) -> Seq<char>
    decreases keys.len(),
{
    if keys.len() == 0 {
        Seq::empty()
    } else if keys.len() == 1 {
        keys[0]
    } else {
        joined_keys(keys.subrange(0, keys.len() - 1)) + ", "@ + keys[keys.len() - 1]
    }
}

fn join_with_commas(keys: &Vec<String>) -> (r: String)
    ensures
        r@ == joined_keys(keys.deep_view()),
{
    let mut out = String::new();
    let mut i: usize = 0;
    while i < keys.len()
        invariant
            i <= keys@.len(),
            out@ == joined_keys(keys.deep_view().subrange(0, i as int)),
        decreases keys.len() - i,
    {
        if i > 0 {
            out.append(", ");
        }
        out.append(keys[i].as_str());
        proof {
            let post = keys.deep_view().subrange(0, i + 1);
            assert(post.subrange(0, post.len() - 1) =~= keys.deep_view().subrange(0, i as int));
            assert(post[post.len() - 1] == keys.deep_view()[i as int]);
            assert(keys.deep_view()[i as int] == keys@[i as int]@);
            assert(out@ =~= joined_keys(post));
        }
        i += 1;
    }
    proof {
        assert(keys.deep_view().subrange(0, keys.deep_view().len() as int) =~= keys.deep_view());
    }
    out
}

impl SearchControl {
    /// The text shown under the search box: the dotted keys of every leaf
    /// of the document whose key contains the query verbatim, joined by
    /// commas. Nothing is shown without a query or without a document.
    pub fn found_keys_text(&self, settings_json: &Option<JsonValue>) -> (r: Option<String>)
        ensures
            (self.query@.len() == 0 || settings_json is None) ==> r is None,
            (self.query@.len() > 0 && settings_json is Some) ==> (r matches Option::Some(s)
                && s@ == joined_keys(
                found_keys(json_view(settings_json->0), self.query@, Option::None),
            )),
    {
        if self.query.as_str().is_empty() {
            return Option::None;
        }
        match settings_json {
            Option::Some(doc) => {
                let mut matching_keys: Vec<String> = Vec::new();
                SearchControl::find_keys_of_leaves_with_substring(
                    doc,
                    self.query.as_str(),
                    &mut matching_keys,
                    Option::None,
                );
                proof {
                    assert(matching_keys.deep_view() =~= found_keys(
                        json_view(*doc),
                        self.query@,
                        Option::None,
                    ));
                }
                Option::Some(join_with_commas(&matching_keys))
            },
            Option::None => Option::None,
        }
    }
}

} // verus!
