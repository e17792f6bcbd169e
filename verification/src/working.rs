use vstd::prelude::*;
use vstd::utf8::encode_utf8;

use crate::digest::{sha256_json, sha256_text};
use crate::json::{
    decimal, json_member, json_quote, json_string, json_string_array, json_string_object,
    json_usize, join_commas, push_json_string_array,
};
use crate::text::{compare_text, text_lt, TextOrder};

verus! {

/// The mutable working body that grows beside the (immutable) brain; its
/// `state` is a map kept as entries in increasing key order.
#[derive(Debug, Clone)]
pub struct WorkingBody {
    pub columns: usize,
    pub state: Vec<(String, String)>,
}

/// A record of one expansion of the working body.
#[derive(Debug, Clone)]
pub struct ExpansionDelta {
    pub reason: String,
    pub previous_working_body_hash: String,
    pub next_working_body_hash: String,
    pub brain_modules_modified: Vec<String>,
}

/// The entries of a working-body state, by their views.
pub open spec fn entries(state: Seq<(String, String)>) -> Seq<(Seq<char>, Seq<char>)> {
    state.map_values(|e: (String, String)| (e.0@, e.1@))
}

/// The JSON text of a working body, as `serde_json` writes the struct.
pub open spec fn working_body_json(columns: nat, state: Seq<(Seq<char>, Seq<char>)>) -> Seq<char> {
    "{\"columns\":"@ + decimal(columns) + ",\"state\":"@ + json_string_object(state) + "}"@
}

/// The JSON text of an expansion delta, as `serde_json` writes the struct.
pub open spec fn expansion_delta_json(
    reason: Seq<char>,
    previous: Seq<char>,
    next: Seq<char>,
    modules: Seq<Seq<char>>,
) -> Seq<char> {
    "{\"reason\":"@ + json_quote(reason) + ",\"previous_working_body_hash\":"@ + json_quote(previous)
        + ",\"next_working_body_hash\":"@ + json_quote(next) + ",\"brain_modules_modified\":"@
        + json_string_array(modules) + "}"@
}

/// The hash text of a working body.
pub open spec fn working_body_hash(columns: nat, state: Seq<(Seq<char>, Seq<char>)>) -> Seq<char> {
    sha256_text(encode_utf8(working_body_json(columns, state)))
}

/// Keys strictly increasing: the order a `BTreeMap` iterates in.
pub open spec fn keys_sorted(state: Seq<(Seq<char>, Seq<char>)>) -> bool {
    forall|i: int, j: int| 0 <= i < j < state.len() ==> text_lt(state[i].0, state[j].0)
}

/// `p` is where `key` goes among the entries: all keys before it are smaller
/// and the key at `p` (if any) is not.
pub open spec fn insert_position(state: Seq<(Seq<char>, Seq<char>)>, key: Seq<char>, p: int) -> bool {
    &&& 0 <= p <= state.len()
    &&& forall|j: int| 0 <= j < p ==> text_lt(#[trigger] state[j].0, key)
    &&& p < state.len() ==> !text_lt(state[p].0, key)
}

/// The entries after setting `key` to `value` at position `p`: the value is
/// replaced when `p` holds `key`, otherwise a new entry is inserted at `p`.
pub open spec fn entries_after_insert(
    state: Seq<(Seq<char>, Seq<char>)>,
    key: Seq<char>,
    value: Seq<char>,
    p: int,
) -> Seq<(Seq<char>, Seq<char>)> {
    if p < state.len() && state[p].0 == key {
        state.update(p, (key, value))
    } else {
        state.insert(p, (key, value))
    }
}

/// Appends the JSON object of a string-to-string state.
pub fn push_json_string_object(out: &mut String, state: &Vec<(String, String)>)
    ensures
        final(out)@ == old(out)@ + json_string_object(entries(state@)),
{
    let ghost start = out@;
    let ghost es = entries(state@);
    let ghost members = es.map_values(
        |e: (Seq<char>, Seq<char>)| json_member(e.0, json_quote(e.1)),
    );
    out.append("{");
    let n = state.len();
    let mut i: usize = 0;
    while i < n
        invariant
            n == state@.len(),
            i <= n,
            es == entries(state@),
            members == es.map_values(
                |e: (Seq<char>, Seq<char>)| json_member(e.0, json_quote(e.1)),
            ),
            out@ == start + "{"@ + join_commas(members.take(i as int)),
        decreases n - i,
    {
        if i > 0 {
            out.append(",");
        }
        let k = json_string(state[i].0.as_str());
        let v = json_string(state[i].1.as_str());
        out.append(k.as_str());
        out.append(":");
        out.append(v.as_str());
        assert(members.take(i + 1).drop_last() =~= members.take(i as int));
        assert(members[i as int] == json_quote(state@[i as int].0@) + ":"@ + json_quote(
            state@[i as int].1@,
        ));
        i = i + 1;
    }
    assert(members.take(n as int) =~= members);
    out.append("}");
}

impl WorkingBody {
    /// A working body of one column and empty state.
    pub fn new() -> (wb: Self)
        ensures
            wb.columns == 1,
            wb.state@.len() == 0,
            keys_sorted(entries(wb.state@)),
    {
        WorkingBody { columns: 1, state: Vec::new() }
    }

    /// The JSON text of the working body.
    pub fn to_json(&self) -> (json: String)
        ensures
            json@ == working_body_json(self.columns as nat, entries(self.state@)),
    {
        let mut json = "{\"columns\":".to_owned();
        let columns = json_usize(self.columns);
        json.append(columns.as_str());
        json.append(",\"state\":");
        push_json_string_object(&mut json, &self.state);
        json.append("}");
        json
    }

    /// The content hash of the working body's JSON.
    pub fn hash(&self) -> (h: String)
        ensures
            h@ == working_body_hash(self.columns as nat, entries(self.state@)),
    {
        let json = self.to_json();
        sha256_json(json.as_str())
    }

    /// Sets `key` to `value` in the state, keeping the keys in increasing order.
    pub fn insert_state(&mut self, key: String, value: String)
        ensures
            final(self).columns == old(self).columns,
            exists|p: int|
                insert_position(entries(old(self).state@), key@, p) && entries(final(self).state@)
                    == entries_after_insert(entries(old(self).state@), key@, value@, p),
            keys_sorted(entries(old(self).state@)) ==> keys_sorted(entries(final(self).state@)),
    {
        insert_entry(&mut self.state, key, value);
    }

    /// Grows the working body by one column, records `reason` under
    /// `expansion_reason`, and returns the delta linking the hashes before and after.
    pub fn expand(&mut self, reason: &str) -> (delta: ExpansionDelta)
        requires
            old(self).columns < usize::MAX,
        ensures
            final(self).columns == old(self).columns + 1,
            exists|p: int|
                insert_position(entries(old(self).state@), "expansion_reason"@, p) && entries(
                    final(self).state@,
                ) == entries_after_insert(
                    entries(old(self).state@),
                    "expansion_reason"@,
                    reason@,
                    p,
                ),
            keys_sorted(entries(old(self).state@)) ==> keys_sorted(entries(final(self).state@)),
            delta.reason@ == reason@,
            delta.previous_working_body_hash@ == working_body_hash(
                old(self).columns as nat,
                entries(old(self).state@),
            ),
            delta.next_working_body_hash@ == working_body_hash(
                final(self).columns as nat,
                entries(final(self).state@),
            ),
            delta.brain_modules_modified@.len() == 0,
    {
        let previous = self.hash();
        self.columns = self.columns + 1;
        self.insert_state("expansion_reason".to_owned(), reason.to_owned());
        let next = self.hash();
        ExpansionDelta {
            reason: reason.to_owned(),
            previous_working_body_hash: previous,
            next_working_body_hash: next,
            brain_modules_modified: Vec::new(),
        }
    }
}

/// Sets `key` to `value` in a string map kept as entries in increasing key
/// order (as a `BTreeMap<String, String>` does).
pub fn insert_entry(state: &mut Vec<(String, String)>, key: String, value: String)
    ensures
        exists|p: int|
            insert_position(entries(old(state)@), key@, p) && entries(final(state)@)
                == entries_after_insert(entries(old(state)@), key@, value@, p),
        keys_sorted(entries(old(state)@)) ==> keys_sorted(entries(final(state)@)),
{
    let ghost es = entries(state@);
    let n = state.len();
    let mut i: usize = 0;
    while i < n
        invariant
            n == state@.len(),
            es == entries(state@),
            i <= n,
            forall|j: int| 0 <= j < i ==> text_lt(#[trigger] es[j].0, key@),
        ensures
            i <= n,
            es == entries(state@),
            forall|j: int| 0 <= j < i ==> text_lt(#[trigger] es[j].0, key@),
            i < n ==> !text_lt(es[i as int].0, key@),
            i < n ==> (es[i as int].0 == key@ || text_lt(key@, es[i as int].0)),
        decreases n - i,
    {
        assert(es[i as int].0 == state@[i as int].0@);
        match compare_text(state[i].0.as_str(), key.as_str()) {
            TextOrder::Less => {},
            TextOrder::Equal => {
                proof {
                    crate::text::lemma_text_lt_irreflexive(key@);
                }
                break;
            },
            TextOrder::Greater => {
                proof {
                    crate::text::lemma_text_lt_asymmetric(key@, es[i as int].0);
                }
                break;
            },
        }
        i = i + 1;
    }
    assert(insert_position(es, key@, i as int));
    if i < n && crate::text::same_text(state[i].0.as_str(), key.as_str()) {
        state.set(i, (key, value));
        assert(entries(state@) =~= entries_after_insert(es, key@, value@, i as int));
    } else {
        let ghost v = value@;
        let ghost k = key@;
        state.insert(i, (key, value));
        assert(entries(state@) =~= entries_after_insert(es, k, v, i as int));
        proof {
            if keys_sorted(es) {
                let after = entries(state@);
                assert forall|c: int| i <= c < n implies text_lt(k, #[trigger] es[c].0) by {
                    if c > i {
                        crate::text::lemma_text_lt_transitive(k, es[i as int].0, es[c].0);
                    }
                }
                assert forall|a: int, b: int| 0 <= a < b < after.len() implies text_lt(
                    after[a].0,
                    after[b].0,
                ) by {
                    if b < i {
                    } else if a < i && b == i {
                    } else if a < i {
                        assert(after[b].0 == es[b - 1].0);
                        crate::text::lemma_text_lt_transitive(after[a].0, k, after[b].0);
                    } else if a == i {
                        assert(after[b].0 == es[b - 1].0);
                    } else {
                    }
                }
            }
        }
    }
}

impl ExpansionDelta {
    /// The JSON text of the delta.
    pub fn to_json(&self) -> (json: String)
        ensures
            json@ == expansion_delta_json(
                self.reason@,
                self.previous_working_body_hash@,
                self.next_working_body_hash@,
                crate::text::texts(self.brain_modules_modified@),
            ),
    {
        let mut json = "{\"reason\":".to_owned();
        json.append(json_string(self.reason.as_str()).as_str());
        json.append(",\"previous_working_body_hash\":");
        json.append(json_string(self.previous_working_body_hash.as_str()).as_str());
        json.append(",\"next_working_body_hash\":");
        json.append(json_string(self.next_working_body_hash.as_str()).as_str());
        json.append(",\"brain_modules_modified\":");
        push_json_string_array(&mut json, &self.brain_modules_modified);
        json.append("}");
        json
    }

    /// The content hash of the delta's JSON.
    pub fn hash(&self) -> (h: String)
        ensures
            h@ == sha256_text(
                encode_utf8(
                    expansion_delta_json(
                        self.reason@,
                        self.previous_working_body_hash@,
                        self.next_working_body_hash@,
                        crate::text::texts(self.brain_modules_modified@),
                    ),
                ),
            ),
    {
        let json = self.to_json();
        sha256_json(json.as_str())
    }
}

} // verus!
