//! Reading function calls out of a provider's event stream, and turning tool
//! runs into the items that go back to the provider.

use vstd::prelude::*;

use crate::assoc::{
    assoc_map, keys_distinct, lemma_assoc_at, lemma_assoc_dom, lemma_assoc_push, lemma_assoc_remove,
    lemma_assoc_update,
};
use crate::json::{
    get_str, get_u64, items_view, json_get, lemma_items_view, member_value, Json, JsonNumber, JsonView, NumberView, ObjectBuilder,
    number_view, json_to_string, serde_json_to_string,
};
use crate::kernel::{opt_json_view, strings_view, EventKindView, KernelEvent, KernelEventKind};
use crate::provider::opt_chars;
use crate::text::{backslash_to_slash, chars_of, concat2, owned, replace_backslashes, str_eq, string_from_chars};
use crate::text_order::{sort_dedup, strictly_sorted};

verus! {

/// Whether a decoded stream event carries data or marks the end of the stream.
#[derive(Clone, Copy, Debug, PartialEq, Eq, Structural)]
pub enum ParsedEventKind {
    Event,
    Done,
}

/// One decoded server-sent event of a provider stream.
#[derive(Debug)]
pub struct ParsedEvent {
    pub kind: ParsedEventKind,
    pub data: Option<Json>,
}

pub ghost struct ParsedEventView {
    pub kind: ParsedEventKind,
    pub data: Option<JsonView>,
}

impl View for ParsedEvent {
    type V = ParsedEventView;

    open spec fn view(&self) -> ParsedEventView {
        ParsedEventView { kind: self.kind, data: opt_json_view(self.data) }
    }
}

/// A function call the provider finished streaming.
#[derive(Debug, Clone)]
pub struct FunctionCallItem {
    pub output_index: u64,
    pub call_id: String,
    pub item_id: Option<String>,
    pub name: String,
    pub arguments: String,
}

pub ghost struct CallView {
    pub output_index: u64,
    pub call_id: Seq<char>,
    pub item_id: Option<Seq<char>>,
    pub name: Seq<char>,
    pub arguments: Seq<char>,
}

impl View for FunctionCallItem {
    type V = CallView;

    open spec fn view(&self) -> CallView {
        CallView {
            output_index: self.output_index,
            call_id: self.call_id@,
            item_id: opt_chars(self.item_id),
            name: self.name@,
            arguments: self.arguments@,
        }
    }
}

/// What is known so far of a function call still being streamed.
#[derive(Debug)]
struct FunctionCallBuffer {
    output_index: u64,
    call_id: Option<String>,
    name: Option<String>,
    arguments: String,
}

pub ghost struct BufferView {
    pub output_index: u64,
    pub call_id: Option<Seq<char>>,
    pub name: Option<Seq<char>>,
    pub arguments: Seq<char>,
}

impl View for FunctionCallBuffer {
    type V = BufferView;

    closed spec fn view(&self) -> BufferView {
        BufferView {
            output_index: self.output_index,
            call_id: opt_chars(self.call_id),
            name: opt_chars(self.name),
            arguments: self.arguments@,
        }
    }
}

#[derive(Debug)]
struct BufferEntry {
    item_id: String,
    buffer: FunctionCallBuffer,
}

#[derive(Debug)]
struct CallIdEntry {
    call_id: String,
    item_id: String,
}

/// Collects the function calls of one provider response as its events stream in.
#[derive(Debug)]
pub struct ToolCallCollector {
    pub response_id: Option<String>,
    function_call_by_item_id: Vec<BufferEntry>,
    item_id_by_call_id: Vec<CallIdEntry>,
    pub completed_function_calls: Vec<FunctionCallItem>,
}

/// The collector as plain values: the response id seen last, the calls in
/// progress by item id, the item id given to each call id, and the calls
/// completed so far, in the order they completed.
pub ghost struct CollectorView {
    pub response_id: Option<Seq<char>>,
    pub buffers: Map<Seq<char>, BufferView>,
    pub item_ids: Map<Seq<char>, Seq<char>>,
    pub completed: Seq<CallView>,
}

spec fn buffer_entries(s: Seq<BufferEntry>) -> Seq<(Seq<char>, BufferView)> {
    s.map_values(|e: BufferEntry| (e.item_id@, e.buffer@))
}

spec fn call_id_entries(s: Seq<CallIdEntry>) -> Seq<(Seq<char>, Seq<char>)> {
    s.map_values(|e: CallIdEntry| (e.call_id@, e.item_id@))
}

pub open spec fn calls_view(s: Seq<FunctionCallItem>) -> Seq<CallView> {
    s.map_values(|c: FunctionCallItem| c@)
}

impl View for ToolCallCollector {
    type V = CollectorView;

    closed spec fn view(&self) -> CollectorView {
        CollectorView {
            response_id: opt_chars(self.response_id),
            buffers: assoc_map(buffer_entries(self.function_call_by_item_id@)),
            item_ids: assoc_map(call_id_entries(self.item_id_by_call_id@)),
            completed: calls_view(self.completed_function_calls@),
        }
    }
}

pub open spec fn empty_collector() -> CollectorView {
    CollectorView {
        response_id: None,
        buffers: Map::empty(),
        item_ids: Map::empty(),
        completed: Seq::empty(),
    }
}

pub open spec fn default_buffer() -> BufferView {
    BufferView { output_index: 0, call_id: None, name: None, arguments: Seq::empty() }
}

pub open spec fn buffer_or_default(m: Map<Seq<char>, BufferView>, k: Seq<char>) -> BufferView {
    if m.dom().contains(k) {
        m[k]
    } else {
        default_buffer()
    }
}

/// A text that is present and not empty.
pub open spec fn non_empty(o: Option<Seq<char>>) -> Option<Seq<char>> {
    match o {
        Some(s) => if s.len() > 0 {
            Some(s)
        } else {
            None
        },
        None => None,
    }
}

pub open spec fn u64_or_zero(o: Option<u64>) -> u64 {
    match o {
        Some(n) => n,
        None => 0,
    }
}

pub open spec fn text_or_empty(o: Option<Seq<char>>) -> Seq<char> {
    match o {
        Some(s) => s,
        None => Seq::empty(),
    }
}

/// The response id after an event: `response.id` when it is a non-empty text.
pub open spec fn observed_response_id(c: CollectorView, data: JsonView) -> Option<Seq<char>> {
    match json_get(data, "response"@) {
        Some(r) => match non_empty(get_str(r, "id"@)) {
            Some(id) => Some(id),
            None => c.response_id,
        },
        None => c.response_id,
    }
}

/// The item id an `output_item` event refers to: the item's own id, else
/// the id already given to its call id, else the call id itself.
pub open spec fn item_key(c: CollectorView, item: JsonView) -> Seq<char> {
    match non_empty(get_str(item, "id"@)) {
        Some(id) => id,
        None => match non_empty(get_str(item, "call_id"@)) {
            Some(cid) => if c.item_ids.dom().contains(cid) {
                c.item_ids[cid]
            } else {
                cid
            },
            None => Seq::empty(),
        },
    }
}

/// An `output_item.added` or `output_item.done` event for a function call.
pub open spec fn observe_item(c: CollectorView, data: JsonView, done: bool) -> CollectorView {
    let output_index = u64_or_zero(get_u64(data, "output_index"@));
    match json_get(data, "item"@) {
        Some(item) => if !(item is Object) || get_str(item, "type"@) != Some("function_call"@) {
            c
        } else {
            let call_id = non_empty(get_str(item, "call_id"@));
            let item_id = item_key(c, item);
            if item_id.len() == 0 {
                c
            } else {
                let item_ids = match call_id {
                    Some(cid) => if c.item_ids.dom().contains(cid) {
                        c.item_ids
                    } else {
                        c.item_ids.insert(cid, item_id)
                    },
                    None => c.item_ids,
                };
                let old = buffer_or_default(c.buffers, item_id);
                let entry = BufferView {
                    output_index,
                    call_id: match call_id {
                        Some(cid) => Some(cid),
                        None => old.call_id,
                    },
                    name: match get_str(item, "name"@) {
                        Some(n) => Some(n),
                        None => old.name,
                    },
                    arguments: match non_empty(get_str(item, "arguments"@)) {
                        Some(a) => a,
                        None => old.arguments,
                    },
                };
                if !done {
                    CollectorView {
                        response_id: c.response_id,
                        buffers: c.buffers.insert(item_id, entry),
                        item_ids,
                        completed: c.completed,
                    }
                } else {
                    let final_call_id = match get_str(item, "call_id"@) {
                        Some(s) => Some(s),
                        None => entry.call_id,
                    };
                    let completed = match (final_call_id, entry.name) {
                        (Some(cid), Some(name)) => c.completed.push(
                            CallView {
                                output_index,
                                call_id: cid,
                                item_id: Some(item_id),
                                name,
                                arguments: entry.arguments,
                            },
                        ),
                        _ => c.completed,
                    };
                    CollectorView {
                        response_id: c.response_id,
                        buffers: c.buffers.remove(item_id),
                        item_ids,
                        completed,
                    }
                }
            }
        },
        None => c,
    }
}

/// A `function_call_arguments.delta` (`replace` false) or
/// `function_call_arguments.done` (`replace` true) event.
pub open spec fn observe_arguments(c: CollectorView, data: JsonView, replace: bool) -> CollectorView {
    match get_str(data, "item_id"@) {
        Some(iid) => {
            let old = buffer_or_default(c.buffers, iid);
            let arguments = if replace {
                text_or_empty(get_str(data, "arguments"@))
            } else {
                old.arguments + text_or_empty(get_str(data, "delta"@))
            };
            let entry = BufferView {
                output_index: u64_or_zero(get_u64(data, "output_index"@)),
                call_id: old.call_id,
                name: old.name,
                arguments,
            };
            CollectorView {
                response_id: c.response_id,
                buffers: c.buffers.insert(iid, entry),
                item_ids: c.item_ids,
                completed: c.completed,
            }
        },
        None => c,
    }
}

/// The collector after one stream event.
pub open spec fn spec_observe(c: CollectorView, e: ParsedEventView) -> CollectorView {
    if e.kind != ParsedEventKind::Event {
        c
    } else {
        match e.data {
            Some(data) => if !(data is Object) {
                c
            } else {
                let c1 = CollectorView {
                    response_id: observed_response_id(c, data),
                    buffers: c.buffers,
                    item_ids: c.item_ids,
                    completed: c.completed,
                };
                match get_str(data, "type"@) {
                    Some(t) => if t == "response.output_item.added"@ {
                        observe_item(c1, data, false)
                    } else if t == "response.output_item.done"@ {
                        observe_item(c1, data, true)
                    } else if t == "response.function_call_arguments.delta"@ {
                        observe_arguments(c1, data, false)
                    } else if t == "response.function_call_arguments.done"@ {
                        observe_arguments(c1, data, true)
                    } else {
                        c1
                    },
                    None => c1,
                }
            },
            None => c,
        }
    }
}

fn opt_owned(o: &Option<String>) -> (r: Option<String>)
    ensures
        opt_chars(r) == opt_chars(*o),
{
    match o {
        Some(s) => Some(s.clone()),
        None => None,
    }
}

fn non_empty_str(o: Option<&str>) -> (r: Option<&str>)
    ensures
        (match r {
            Some(s) => Some(s@),
            None => None::<Seq<char>>,
        }) == non_empty(match o {
            Some(s) => Some(s@),
            None => None::<Seq<char>>,
        }),
{
    match o {
        Some(s) => if s.is_empty() {
            None
        } else {
            Some(s)
        },
        None => None,
    }
}

impl ToolCallCollector {
    /// The completed calls, in the order they completed.
    pub closed spec fn completed_calls(&self) -> Seq<FunctionCallItem> {
        self.completed_function_calls@
    }

    /// The completed calls are those the view records as completed, in the
    /// same order.
    pub proof fn lemma_completed_calls_match_view(&self)
        ensures
            calls_view(self.completed_calls()) == self@.completed,
            self.completed_calls().len() == self@.completed.len(),
    {
    }

    /// The rules the private tables keep: no key occurs twice in either.
    pub closed spec fn wf(&self) -> bool {
        &&& keys_distinct(buffer_entries(self.function_call_by_item_id@))
        &&& keys_distinct(call_id_entries(self.item_id_by_call_id@))
    }

    /// An empty collector.
    pub fn new() -> (r: ToolCallCollector)
        ensures
            r.wf(),
            r@ == empty_collector(),
            calls_view(r.completed_calls()) == r@.completed,
            r.completed_calls() == Seq::<FunctionCallItem>::empty(),
    {
        let r = ToolCallCollector {
            response_id: None,
            function_call_by_item_id: Vec::new(),
            item_id_by_call_id: Vec::new(),
            completed_function_calls: Vec::new(),
        };
        assert(buffer_entries(r.function_call_by_item_id@) =~= Seq::empty());
        assert(call_id_entries(r.item_id_by_call_id@) =~= Seq::empty());
        assert(calls_view(r.completed_function_calls@) =~= Seq::empty());
        assert(r.completed_function_calls@ =~= Seq::<FunctionCallItem>::empty());
        r
    }

    /// The id of the response the events belong to, once one was seen.
    pub fn current_response_id(&self) -> (r: Option<String>)
        ensures
            opt_chars(r) == self@.response_id,
    {
        opt_owned(&self.response_id)
    }

    /// How many calls have completed and not been handed out.
    pub fn completed_count(&self) -> (r: usize)
        ensures
            r == self.completed_calls().len(),
            r == self@.completed.len(),
    {
        self.completed_function_calls.len()
    }

    fn find_buffer(&self, key: &str) -> (r: Option<usize>)
        ensures
            match r {
                Some(i) => i < self.function_call_by_item_id@.len() && self.function_call_by_item_id@[i as int].item_id@
                    == key@,
                None => forall|i: int|
                    0 <= i < self.function_call_by_item_id@.len() ==> self.function_call_by_item_id@[i].item_id@
                        != key@,
            },
    {
        let mut i: usize = 0;
        while i < self.function_call_by_item_id.len()
            invariant
                i <= self.function_call_by_item_id@.len(),
                forall|j: int| 0 <= j < i ==> self.function_call_by_item_id@[j].item_id@ != key@,
            decreases self.function_call_by_item_id@.len() - i,
        {
            if str_eq(self.function_call_by_item_id[i].item_id.as_str(), key) {
                return Some(i);
            }
            i = i + 1;
        }
        None
    }

    fn find_call_id(&self, key: &str) -> (r: Option<usize>)
        ensures
            match r {
                Some(i) => i < self.item_id_by_call_id@.len() && self.item_id_by_call_id@[i as int].call_id@ == key@,
                None => forall|i: int|
                    0 <= i < self.item_id_by_call_id@.len() ==> self.item_id_by_call_id@[i].call_id@ != key@,
            },
    {
        let mut i: usize = 0;
        while i < self.item_id_by_call_id.len()
            invariant
                i <= self.item_id_by_call_id@.len(),
                forall|j: int| 0 <= j < i ==> self.item_id_by_call_id@[j].call_id@ != key@,
            decreases self.item_id_by_call_id@.len() - i,
        {
            if str_eq(self.item_id_by_call_id[i].call_id.as_str(), key) {
                return Some(i);
            }
            i = i + 1;
        }
        None
    }

    /// The buffer kept for `key`, copied, or an empty one.
    fn buffer_copy(&self, key: &str) -> (r: FunctionCallBuffer)
        requires
            self.wf(),
        ensures
            r@ == buffer_or_default(self@.buffers, key@),
    {
        proof {
            lemma_buffer_entries(self.function_call_by_item_id@);
        }
        match self.find_buffer(key) {
            Some(i) => {
                proof {
                    lemma_assoc_at(buffer_entries(self.function_call_by_item_id@), i as int);
                }
                let b = &self.function_call_by_item_id[i].buffer;
                FunctionCallBuffer {
                    output_index: b.output_index,
                    call_id: opt_owned(&b.call_id),
                    name: opt_owned(&b.name),
                    arguments: b.arguments.clone(),
                }
            },
            None => {
                proof {
                    lemma_assoc_dom(buffer_entries(self.function_call_by_item_id@), key@);
                }
                FunctionCallBuffer { output_index: 0, call_id: None, name: None, arguments: String::new() }
            },
        }
    }

    /// Stores `buffer` under `key`, replacing what was there.
    fn store_buffer(&mut self, key: &str, buffer: FunctionCallBuffer)
        requires
            old(self).wf(),
        ensures
            final(self).wf(),
            final(self)@ == (CollectorView { buffers: old(self)@.buffers.insert(key@, buffer@), ..old(self)@ }),
    {
        proof {
            lemma_buffer_entries(self.function_call_by_item_id@);
        }
        let ghost before = self.function_call_by_item_id@;
        match self.find_buffer(key) {
            Some(i) => {
                self.function_call_by_item_id.set(i, BufferEntry { item_id: owned(key), buffer });
                proof {
                    lemma_assoc_update(buffer_entries(before), i as int, buffer@);
                    assert(buffer_entries(self.function_call_by_item_id@) =~= buffer_entries(before).update(
                        i as int,
                        (buffer_entries(before)[i as int].0, buffer@),
                    ));
                }
            },
            None => {
                self.function_call_by_item_id.push(BufferEntry { item_id: owned(key), buffer });
                proof {
                    let s = buffer_entries(before);
                    lemma_assoc_push(s, (key@, buffer@));
                    assert(buffer_entries(self.function_call_by_item_id@) =~= s.push((key@, buffer@)));
                    assert(keys_distinct(s.push((key@, buffer@))));
                }
            },
        }
    }

    /// Takes the buffer kept for `key` out of the table.
    fn remove_buffer(&mut self, key: &str)
        requires
            old(self).wf(),
        ensures
            final(self).wf(),
            final(self)@ == (CollectorView { buffers: old(self)@.buffers.remove(key@), ..old(self)@ }),
    {
        proof {
            lemma_buffer_entries(self.function_call_by_item_id@);
        }
        let ghost before = self.function_call_by_item_id@;
        match self.find_buffer(key) {
            Some(i) => {
                let _ = self.function_call_by_item_id.remove(i);
                proof {
                    lemma_assoc_remove(buffer_entries(before), i as int);
                    assert(buffer_entries(self.function_call_by_item_id@) =~= buffer_entries(before).remove(i as int));
                }
            },
            None => {
                proof {
                    lemma_assoc_dom(buffer_entries(before), key@);
                    assert(assoc_map(buffer_entries(before)).remove(key@) =~= assoc_map(buffer_entries(before)));
                }
            },
        }
    }

    fn lookup_item_id(&self, call_id: &str) -> (r: Option<String>)
        requires
            self.wf(),
        ensures
            match r {
                Some(s) => self@.item_ids.dom().contains(call_id@) && s@ == self@.item_ids[call_id@],
                None => !self@.item_ids.dom().contains(call_id@),
            },
    {
        proof {
            lemma_call_id_entries(self.item_id_by_call_id@);
        }
        match self.find_call_id(call_id) {
            Some(i) => {
                proof {
                    lemma_assoc_at(call_id_entries(self.item_id_by_call_id@), i as int);
                }
                Some(self.item_id_by_call_id[i].item_id.clone())
            },
            None => {
                proof {
                    lemma_assoc_dom(call_id_entries(self.item_id_by_call_id@), call_id@);
                }
                None
            },
        }
    }

    fn insert_item_id_if_absent(&mut self, call_id: &str, item_id: &str)
        requires
            old(self).wf(),
        ensures
            final(self).wf(),
            final(self)@ == (CollectorView {
                item_ids: if old(self)@.item_ids.dom().contains(call_id@) {
                    old(self)@.item_ids
                } else {
                    old(self)@.item_ids.insert(call_id@, item_id@)
                },
                ..old(self)@
            }),
    {
        proof {
            lemma_call_id_entries(self.item_id_by_call_id@);
        }
        let ghost before = self.item_id_by_call_id@;
        match self.find_call_id(call_id) {
            Some(i) => {
                proof {
                    lemma_assoc_at(call_id_entries(before), i as int);
                }
            },
            None => {
                self.item_id_by_call_id.push(CallIdEntry { call_id: owned(call_id), item_id: owned(item_id) });
                proof {
                    let s = call_id_entries(before);
                    lemma_assoc_dom(s, call_id@);
                    lemma_assoc_push(s, (call_id@, item_id@));
                    assert(call_id_entries(self.item_id_by_call_id@) =~= s.push((call_id@, item_id@)));
                    assert(keys_distinct(s.push((call_id@, item_id@))));
                }
            },
        }
    }

    fn observe_item(&mut self, data: &Json, done: bool)
        requires
            old(self).wf(),
        ensures
            final(self).wf(),
            final(self)@ == observe_item(old(self)@, data@, done),
    {
        let output_index = match data.get_u64("output_index") {
            Some(n) => n,
            None => 0,
        };
        let item = match data.get("item") {
            Some(i) => i,
            None => return ,
        };
        match item {
            Json::Object(_) => {},
            _ => return ,
        }
        match item.get_str("type") {
            Some(t) => {
                proof {
                    reveal_strlit("function_call");
                }
                if !str_eq(t, "function_call") {
                    return;
                }
            },
            None => return ,
        }
        let call_id: Option<&str> = non_empty_str(item.get_str("call_id"));
        let item_id: String = match non_empty_str(item.get_str("id")) {
            Some(id) => owned(id),
            None => match call_id {
                Some(cid) => match self.lookup_item_id(cid) {
                    Some(x) => x,
                    None => owned(cid),
                },
                None => String::new(),
            },
        };
        assert(item_id@ == item_key(old(self)@, item@));
        if item_id.as_str().is_empty() {
            return;
        }
        match call_id {
            Some(cid) => self.insert_item_id_if_absent(cid, item_id.as_str()),
            None => {},
        }
        let old_buffer = self.buffer_copy(item_id.as_str());
        let FunctionCallBuffer { output_index: _, call_id: old_call_id, name: old_name, arguments: old_arguments } =
            old_buffer;
        let entry_call_id = match call_id {
            Some(cid) => Some(owned(cid)),
            None => old_call_id,
        };
        let entry_name = match item.get_str("name") {
            Some(n) => Some(owned(n)),
            None => old_name,
        };
        let entry_arguments = match non_empty_str(item.get_str("arguments")) {
            Some(a) => owned(a),
            None => old_arguments,
        };
        if !done {
            let entry = FunctionCallBuffer {
                output_index,
                call_id: entry_call_id,
                name: entry_name,
                arguments: entry_arguments,
            };
            self.store_buffer(item_id.as_str(), entry);
        } else {
            self.remove_buffer(item_id.as_str());
            let final_call_id = match item.get_str("call_id") {
                Some(s) => Some(owned(s)),
                None => entry_call_id,
            };
            match (final_call_id, entry_name) {
                (Some(cid), Some(name)) => {
                    let ghost before = self.completed_function_calls@;
                    self.completed_function_calls.push(
                        FunctionCallItem {
                            output_index,
                            call_id: cid,
                            item_id: Some(item_id),
                            name,
                            arguments: entry_arguments,
                        },
                    );
                    assert(calls_view(self.completed_function_calls@) =~= calls_view(before).push(
                        self.completed_function_calls@.last()@,
                    ));
                },
                _ => {},
            }
        }
    }

    fn observe_arguments(&mut self, data: &Json, replace: bool)
        requires
            old(self).wf(),
        ensures
            final(self).wf(),
            final(self)@ == observe_arguments(old(self)@, data@, replace),
    {
        let iid = match data.get_str("item_id") {
            Some(s) => s,
            None => return ,
        };
        let output_index = match data.get_u64("output_index") {
            Some(n) => n,
            None => 0,
        };
        let old_buffer = self.buffer_copy(iid);
        let FunctionCallBuffer { output_index: _, call_id: old_call_id, name: old_name, arguments: old_arguments } =
            old_buffer;
        let arguments = if replace {
            match data.get_str("arguments") {
                Some(a) => owned(a),
                None => String::new(),
            }
        } else {
            match data.get_str("delta") {
                Some(d) => concat2(old_arguments.as_str(), d),
                None => {
                    assert(old_arguments@ + Seq::<char>::empty() =~= old_arguments@);
                    old_arguments
                },
            }
        };
        let entry = FunctionCallBuffer { output_index, call_id: old_call_id, name: old_name, arguments };
        self.store_buffer(iid, entry);
    }

    /// Takes in one event of the stream: records the response id, and
    /// follows function calls from their first output item through their
    /// argument deltas to the output item that completes them.
    pub fn observe(&mut self, parsed: &ParsedEvent)
        requires
            old(self).wf(),
        ensures
            final(self).wf(),
            final(self)@ == spec_observe(old(self)@, parsed@),
            calls_view(final(self).completed_calls()) == final(self)@.completed,
    {
        if parsed.kind != ParsedEventKind::Event {
            return;
        }
        let data = match &parsed.data {
            Some(d) => d,
            None => return ,
        };
        match data {
            Json::Object(_) => {},
            _ => return ,
        }
        match data.get("response") {
            Some(r) => match non_empty_str(r.get_str("id")) {
                Some(id) => {
                    self.response_id = Some(owned(id));
                },
                None => {},
            },
            None => {},
        }
        let event_type = match data.get_str("type") {
            Some(t) => t,
            None => return ,
        };
        if str_eq(event_type, "response.output_item.added") {
            self.observe_item(data, false);
        } else if str_eq(event_type, "response.output_item.done") {
            self.observe_item(data, true);
        } else if str_eq(event_type, "response.function_call_arguments.delta") {
            self.observe_arguments(data, false);
        } else if str_eq(event_type, "response.function_call_arguments.done") {
            self.observe_arguments(data, true);
        }
    }

    /// Hands out the completed calls ordered by output index, calls with the
    /// same index in the order they completed, and forgets them.
    pub fn drain_function_calls(&mut self) -> (r: Vec<FunctionCallItem>)
        requires
            old(self).wf(),
        ensures
            final(self).wf(),
            final(self)@ == (CollectorView { completed: Seq::empty(), ..old(self)@ }),
            calls_view(final(self).completed_calls()) == final(self)@.completed,
            calls_view(old(self).completed_calls()) == old(self)@.completed,
            r@.len() == old(self).completed_calls().len(),
            sorted_by_index(r@),
            forall|k: u64| #[trigger] calls_with_index(r@, k) == calls_with_index(old(self).completed_calls(), k),
    {
        let mut input: Vec<FunctionCallItem> = Vec::new();
        std::mem::swap(&mut input, &mut self.completed_function_calls);
        assert(calls_view(self.completed_function_calls@) =~= Seq::empty());
        let ghost orig = input@;
        let ghost mut done: int = 0;
        let mut out: Vec<FunctionCallItem> = Vec::new();
        assert(orig.subrange(0, 0) =~= Seq::<FunctionCallItem>::empty());
        assert(orig.subrange(0, orig.len() as int) =~= orig);
        assert forall|k: u64| #[trigger] calls_with_index(out@, k) == calls_with_index(orig.subrange(0, 0), k) by {
            reveal(Seq::filter);
        }
        while input.len() > 0
            invariant
                0 <= done <= orig.len(),
                input@ == orig.subrange(done, orig.len() as int),
                out@.len() == done,
                sorted_by_index(out@),
                forall|k: u64| #[trigger] calls_with_index(out@, k) == calls_with_index(orig.subrange(0, done), k),
            decreases input@.len(),
        {
            let x = input.remove(0);
            assert(x == orig[done]);
            let mut pos: usize = 0;
            while pos < out.len() && out[pos].output_index <= x.output_index
                invariant
                    pos <= out@.len(),
                    forall|i: int| 0 <= i < pos ==> out@[i].output_index <= x.output_index,
                decreases out@.len() - pos,
            {
                pos = pos + 1;
            }
            let ghost before = out@;
            let ghost xv = x;
            proof {
                assert forall|i: int| pos <= i < before.len() implies before[i].output_index > xv.output_index by {
                    assert(before[pos as int].output_index > xv.output_index);
                    assert(before[pos as int].output_index <= before[i].output_index);
                }
            }
            out.insert(pos, x);
            proof {
                assert forall|k: u64| #[trigger] calls_with_index(out@, k) == calls_with_index(
                    orig.subrange(0, done + 1),
                    k,
                ) by {
                    lemma_insert_keeps_index_order(before, pos as int, xv, k);
                    assert(out@ == before.insert(pos as int, xv));
                    assert(calls_with_index(before, k) == calls_with_index(orig.subrange(0, done), k));
                    before.lemma_filter_push(xv, index_is(k));
                    assert(orig.subrange(0, done + 1) =~= orig.subrange(0, done).push(xv));
                    orig.subrange(0, done).lemma_filter_push(xv, index_is(k));
                }
                assert(input@ =~= orig.subrange(done + 1, orig.len() as int));
                done = done + 1;
            }
        }
        out
    }
}

pub open spec fn index_is(k: u64) -> spec_fn(FunctionCallItem) -> bool {
    |c: FunctionCallItem| c.output_index == k
}

/// The calls with output index `k`, in their order in `s`.
pub open spec fn calls_with_index(s: Seq<FunctionCallItem>, k: u64) -> Seq<FunctionCallItem> {
    s.filter(index_is(k))
}

pub open spec fn sorted_by_index(s: Seq<FunctionCallItem>) -> bool {
    forall|i: int, j: int| 0 <= i <= j < s.len() ==> s[i].output_index <= s[j].output_index
}

proof fn lemma_filter_none(s: Seq<FunctionCallItem>, k: u64)
    requires
        forall|i: int| 0 <= i < s.len() ==> s[i].output_index != k,
    ensures
        calls_with_index(s, k) == Seq::<FunctionCallItem>::empty(),
    decreases s.len(),
{
    reveal(Seq::filter);
    if s.len() > 0 {
        lemma_filter_none(s.drop_last(), k);
    }
}

/// Inserting a call after every call with a smaller or equal index and before
/// every call with a greater one appends it to the calls of its own index.
proof fn lemma_insert_keeps_index_order(out: Seq<FunctionCallItem>, pos: int, x: FunctionCallItem, k: u64)
    requires
        0 <= pos <= out.len(),
        forall|i: int| 0 <= i < pos ==> out[i].output_index <= x.output_index,
        forall|i: int| pos <= i < out.len() ==> out[i].output_index > x.output_index,
        sorted_by_index(out),
    ensures
        calls_with_index(out.insert(pos, x), k) == calls_with_index(out.push(x), k),
        sorted_by_index(out.insert(pos, x)),
{
    let a = out.subrange(0, pos);
    let b = out.subrange(pos, out.len() as int);
    assert(out =~= a + b);
    assert(out.insert(pos, x) =~= a.push(x) + b);
    Seq::filter_distributes_over_add(a, b, index_is(k));
    Seq::filter_distributes_over_add(a.push(x), b, index_is(k));
    a.lemma_filter_push(x, index_is(k));
    out.lemma_filter_push(x, index_is(k));
    if x.output_index == k {
        lemma_filter_none(b, k);
        assert(calls_with_index(b, k) =~= Seq::<FunctionCallItem>::empty());
        assert(calls_with_index(a, k).push(x) + calls_with_index(b, k) =~= (calls_with_index(a, k) + calls_with_index(b, k)).push(x));
    }
    let ins = out.insert(pos, x);
    assert forall|i: int, j: int| 0 <= i <= j < ins.len() implies ins[i].output_index <= ins[j].output_index by {
        if i < pos && j > pos {
            assert(ins[j] == out[j - 1]);
        }
    }
}

/// An input item sent to the provider.
#[derive(Debug)]
pub struct ItemParam {
    pub value: Json,
}

impl ItemParam {
    pub fn new(value: Json) -> (r: ItemParam)
        ensures
            r.value == value,
    {
        ItemParam { value }
    }

    /// A user message with this text:
    /// `{"type": "message", "role": "user", "content": text}`.
    pub fn user_message_text(text: &str) -> (r: ItemParam)
        ensures
            r.value@ == user_message_view(text@),
    {
        let mut o = ObjectBuilder::new();
        o.insert("type", Json::string("message"));
        o.insert("role", Json::string("user"));
        o.insert("content", Json::string(text));
        assert(o.spec_members() =~= user_message_view(text@)->Object_0);
        ItemParam { value: o.build() }
    }

    /// The item as JSON.
    pub fn value(&self) -> (r: &Json)
        ensures
            *r == self.value,
    {
        &self.value
    }
}

/// A user message item.
pub open spec fn user_message_view(text: Seq<char>) -> JsonView {
    JsonView::Object(
        seq![
            ("type"@, JsonView::Str("message"@)),
            ("role"@, JsonView::Str("user"@)),
            ("content"@, JsonView::Str(text)),
        ],
    )
}

/// The `function_call` item that replays a call to the provider; with
/// `include_id` it carries the call's item id, or `fc_` and its call id.
pub open spec fn function_call_item_view(call: CallView, include_id: bool) -> JsonView {
    let head = seq![("type"@, JsonView::Str("function_call"@))];
    let with_id = if include_id {
        head.push(
            (
                "id"@,
                JsonView::Str(
                    match call.item_id {
                        Some(id) => id,
                        None => "fc_"@ + call.call_id,
                    },
                ),
            ),
        )
    } else {
        head
    };
    JsonView::Object(
        with_id + seq![
            ("call_id"@, JsonView::Str(call.call_id)),
            ("name"@, JsonView::Str(call.name)),
            ("arguments"@, JsonView::Str(call.arguments)),
        ],
    )
}

pub fn function_call_item_from_call(call: &FunctionCallItem, include_id: bool) -> (r: ItemParam)
    ensures
        r.value@ == function_call_item_view(call@, include_id),
{
    let mut obj = ObjectBuilder::new();
    obj.insert("type", Json::string("function_call"));
    if include_id {
        let id = match &call.item_id {
            Some(id) => id.clone(),
            None => concat2("fc_", call.call_id.as_str()),
        };
        obj.insert("id", Json::Str(id));
    }
    obj.insert("call_id", Json::Str(call.call_id.clone()));
    obj.insert("name", Json::Str(call.name.clone()));
    obj.insert("arguments", Json::Str(call.arguments.clone()));
    let ghost ms = obj.spec_members();
    let r = ItemParam::new(obj.build());
    assert(ms =~= function_call_item_view(call@, include_id)->Object_0);
    r
}

/// The `function_call_output` item that answers a call; with `include_id`
/// it carries the id `output_` and the call id.
pub open spec fn function_call_output_view(call_id: Seq<char>, output: Seq<char>, include_id: bool) -> JsonView {
    let head = seq![("type"@, JsonView::Str("function_call_output"@))];
    let with_id = if include_id {
        head.push(("id"@, JsonView::Str("output_"@ + call_id)))
    } else {
        head
    };
    JsonView::Object(with_id + seq![("call_id"@, JsonView::Str(call_id)), ("output"@, JsonView::Str(output))])
}

pub fn function_call_output_item(call_id: &str, output_json: String, include_id: bool) -> (r: ItemParam)
    ensures
        r.value@ == function_call_output_view(call_id@, output_json@, include_id),
{
    let mut obj = ObjectBuilder::new();
    obj.insert("type", Json::string("function_call_output"));
    if include_id {
        obj.insert("id", Json::Str(concat2("output_", call_id)));
    }
    obj.insert("call_id", Json::string(call_id));
    obj.insert("output", Json::Str(output_json));
    let ghost ms = obj.spec_members();
    let r = ItemParam::new(obj.build());
    assert(ms =~= function_call_output_view(call_id@, output_json@, include_id)->Object_0);
    r
}

/// The kinds of a list of events.
pub open spec fn event_kinds(events: Seq<KernelEvent>) -> Seq<EventKindView> {
    events.map_values(|e: KernelEvent| e.kind@)
}

/// What a tool run produced, from its events: its output streams in order,
/// the exit code and artifacts of its last end (exit code 1 if it never
/// ended), and the error of its last failure.
pub ghost struct ToolRunView {
    pub stdout: Seq<char>,
    pub stderr: Seq<char>,
    pub exit_code: i32,
    pub artifacts: Option<JsonView>,
    pub error: Option<Seq<char>>,
}

pub open spec fn tool_run_view(ks: Seq<EventKindView>) -> ToolRunView
    decreases ks.len(),
{
    if ks.len() == 0 {
        ToolRunView { stdout: Seq::empty(), stderr: Seq::empty(), exit_code: 1, artifacts: None, error: None }
    } else {
        let r = tool_run_view(ks.drop_last());
        match ks.last() {
            EventKindView::ToolStdout { chunk, .. } => ToolRunView { stdout: r.stdout + chunk, ..r },
            EventKindView::ToolStderr { chunk, .. } => ToolRunView { stderr: r.stderr + chunk, ..r },
            EventKindView::ToolEnded { exit_code, artifacts, .. } => ToolRunView { exit_code, artifacts, ..r },
            EventKindView::ToolFailed { error, .. } => ToolRunView { error: Some(error), ..r },
            _ => r,
        }
    }
}

/// A JSON integer: non-negative values are unsigned, negative ones signed.
pub open spec fn int_number(i: i64) -> NumberView {
    if i >= 0 {
        NumberView::PosInt(i as u64)
    } else {
        NumberView::NegInt(i)
    }
}

/// The tool output handed back to the provider: `ok` is true exactly when
/// the tool exited with 0 and did not fail.
pub open spec fn tool_output_view(tool: Seq<char>, r: ToolRunView) -> JsonView {
    let base = seq![
        ("tool"@, JsonView::Str(tool)),
        ("ok"@, JsonView::Bool(r.exit_code == 0 && r.error is None)),
        ("exit_code"@, JsonView::Number(int_number(r.exit_code as i64))),
        ("stdout"@, JsonView::Str(r.stdout)),
        ("stderr"@, JsonView::Str(r.stderr)),
    ];
    let with_artifacts = match r.artifacts {
        Some(a) => base.push(("artifacts"@, a)),
        None => base,
    };
    JsonView::Object(
        match r.error {
            Some(e) => with_artifacts.push(("error"@, JsonView::Str(e))),
            None => with_artifacts,
        },
    )
}

fn number_from_i64(i: i64) -> (r: JsonNumber)
    ensures
        number_view(r) == int_number(i),
{
    if i >= 0 {
        JsonNumber::PosInt(i as u64)
    } else {
        JsonNumber::NegInt(i)
    }
}

fn opt_json_copied(o: &Option<Json>) -> (r: Option<Json>)
    ensures
        opt_json_view(r) == opt_json_view(*o),
{
    match o {
        Some(j) => Some(j.copied()),
        None => None,
    }
}

/// The text of a tool output handed back to the provider: its JSON text, or
/// `{"ok":false}` when it cannot be written.
pub fn tool_output_text(output: &Json) -> (r: String)
    ensures
        r@ == (match serde_json_to_string(output@) {
            Ok(t) => t,
            Err(_) => "{\"ok\":false}"@,
        }),
{
    match json_to_string(output) {
        Ok(t) => t,
        Err(_) => owned("{\"ok\":false}"),
    }
}

/// Folds a tool run's events into the output JSON handed back to the provider.
pub fn tool_events_to_function_call_output(tool_name: &str, events: &[KernelEvent]) -> (r: Json)
    ensures
        r@ == tool_output_view(tool_name@, tool_run_view(event_kinds(events@))),
{
    let ghost ks = event_kinds(events@);
    let mut stdout = String::new();
    let mut stderr = String::new();
    let mut exit_code: i32 = 1;
    let mut artifacts: Option<Json> = None;
    let mut tool_error: Option<String> = None;
    let mut i: usize = 0;
    assert(ks.subrange(0, 0) =~= Seq::<EventKindView>::empty());
    while i < events.len()
        invariant
            i <= events@.len(),
            ks == event_kinds(events@),
            tool_run_view(ks.subrange(0, i as int)) == (ToolRunView {
                stdout: stdout@,
                stderr: stderr@,
                exit_code,
                artifacts: opt_json_view(artifacts),
                error: opt_chars(tool_error),
            }),
        decreases events@.len() - i,
    {
        assert(ks.subrange(0, i + 1).drop_last() =~= ks.subrange(0, i as int));
        assert(ks.subrange(0, i + 1).last() == events@[i as int].kind@);
        match &events[i].kind {
            KernelEventKind::ToolStdout { chunk, .. } => {
                stdout = concat2(stdout.as_str(), chunk.as_str());
            },
            KernelEventKind::ToolStderr { chunk, .. } => {
                stderr = concat2(stderr.as_str(), chunk.as_str());
            },
            KernelEventKind::ToolEnded { exit_code: code, artifacts: tool_artifacts, .. } => {
                exit_code = *code;
                artifacts = opt_json_copied(tool_artifacts);
            },
            KernelEventKind::ToolFailed { error, .. } => {
                tool_error = Some(error.clone());
            },
            _ => {},
        }
        i = i + 1;
    }
    assert(ks.subrange(0, events@.len() as int) =~= ks);
    let ok = exit_code == 0 && tool_error.is_none();
    let mut obj = ObjectBuilder::new();
    obj.insert("tool", Json::string(tool_name));
    obj.insert("ok", Json::Bool(ok));
    obj.insert("exit_code", Json::Number(number_from_i64(exit_code as i64)));
    obj.insert("stdout", Json::Str(stdout));
    obj.insert("stderr", Json::Str(stderr));
    let ghost rv = tool_run_view(ks);
    let ghost base = obj.spec_members();
    assert(base =~= seq![
        ("tool"@, JsonView::Str(tool_name@)),
        ("ok"@, JsonView::Bool(rv.exit_code == 0 && rv.error is None)),
        ("exit_code"@, JsonView::Number(int_number(rv.exit_code as i64))),
        ("stdout"@, JsonView::Str(rv.stdout)),
        ("stderr"@, JsonView::Str(rv.stderr)),
    ]);
    match artifacts {
        Some(a) => obj.insert("artifacts", a),
        None => {},
    }
    match tool_error {
        Some(e) => obj.insert("error", Json::Str(e)),
        None => {},
    }
    assert(obj.spec_members() =~= tool_output_view(tool_name@, rv)->Object_0);
    obj.build()
}

/// A blank line (`\n\n`) starts at position `i` of a text.
pub open spec fn blank_line_at(s: Seq<char>, i: int) -> bool {
    0 <= i && i + 1 < s.len() && s[i] == '\n' && s[i + 1] == '\n'
}

/// Splits the first complete server-sent event off a buffer: the text before
/// the first blank line, and what follows the blank line. None while the
/// buffer holds no blank line.
pub fn split_sse_message(buffer: &str) -> (r: Option<(String, String)>)
    ensures
        match r {
            Some((message, rest)) => exists|i: int|
                {
                    &&& #[trigger] blank_line_at(buffer@, i)
                    &&& forall|j: int| 0 <= j < i ==> !blank_line_at(buffer@, j)
                    &&& message@ == buffer@.subrange(0, i)
                    &&& rest@ == buffer@.subrange(i + 2, buffer@.len() as int)
                },
            None => forall|i: int| !blank_line_at(buffer@, i),
        },
{
    let chars = chars_of(buffer);
    let mut i: usize = 0;
    while i < chars.len()
        invariant
            chars@ == buffer@,
            i <= chars@.len(),
            forall|j: int| 0 <= j < i ==> !blank_line_at(buffer@, j),
        decreases chars@.len() - i,
    {
        if i + 1 < chars.len() && chars[i] == '\n' && chars[i + 1] == '\n' {
            let message = string_from_chars(&chars, 0, i);
            let rest = string_from_chars(&chars, i + 2, chars.len());
            assert(blank_line_at(buffer@, i as int));
            return Some((message, rest));
        }
        i = i + 1;
    }
    None
}

/// What one tool run changed, as recorded in the continuity log.
#[derive(Debug)]
pub struct ToolSideEffects {
    pub tool_id: String,
    pub tool_name: String,
    pub affected_paths: Option<Vec<String>>,
    pub checkpoint_id: Option<String>,
}

/// The id and name of the first tool start among the events.
pub open spec fn first_tool_started(ks: Seq<EventKindView>) -> Option<(Seq<char>, Seq<char>)>
    decreases ks.len(),
{
    if ks.len() == 0 {
        None
    } else {
        match ks[0] {
            EventKindView::ToolStarted { tool_id, name, .. } => Some((tool_id, name)),
            _ => first_tool_started(ks.drop_first()),
        }
    }
}

/// The id and files of the first automatic checkpoint among the events.
pub open spec fn first_auto_checkpoint(ks: Seq<EventKindView>) -> Option<(Seq<char>, Seq<Seq<char>>)>
    decreases ks.len(),
{
    if ks.len() == 0 {
        None
    } else {
        match ks[0] {
            EventKindView::CheckpointCreated { checkpoint_id, files, auto } => if auto {
                Some((checkpoint_id, files))
            } else {
                first_auto_checkpoint(ks.drop_first())
            },
            _ => first_auto_checkpoint(ks.drop_first()),
        }
    }
}

/// The texts among JSON values, in order, with backslashes made forward slashes.
pub open spec fn path_texts(items: Seq<JsonView>) -> Seq<Seq<char>>
    decreases items.len(),
{
    if items.len() == 0 {
        Seq::empty()
    } else {
        let r = path_texts(items.drop_last());
        match items.last() {
            JsonView::Str(p) => r.push(backslash_to_slash(p)),
            _ => r,
        }
    }
}

/// The paths a tool's artifacts name: its `changed_files` list when there is
/// one, else its single `path`.
pub open spec fn artifact_paths(artifacts: Option<JsonView>) -> Option<Seq<Seq<char>>> {
    match artifacts {
        Some(a) => match json_get(a, "changed_files"@) {
            Some(JsonView::Array(items)) => Some(path_texts(items)),
            _ => match json_get(a, "path"@) {
                Some(JsonView::Str(p)) => Some(seq![backslash_to_slash(p)]),
                _ => None,
            },
        },
        None => None,
    }
}

/// The paths a tool run touched: those its last artifacts name, else the
/// files of its automatic checkpoint.
pub open spec fn touched_paths(ks: Seq<EventKindView>) -> Option<Seq<Seq<char>>> {
    match artifact_paths(tool_run_view(ks).artifacts) {
        Some(ps) => Some(ps),
        None => match first_auto_checkpoint(ks) {
            Some(c) => Some(c.1.map_values(|p: Seq<char>| backslash_to_slash(p))),
            None => None,
        },
    }
}

/// `r` records the side effects of the tool run in `ks`: none without a tool
/// start; otherwise the first start's tool, the first automatic checkpoint,
/// and the touched paths sorted once each.
pub open spec fn records_side_effects(r: Option<ToolSideEffects>, ks: Seq<EventKindView>) -> bool {
    match first_tool_started(ks) {
        None => r is None,
        Some(started) => match r {
            Some(se) => {
                &&& se.tool_id@ == started.0
                &&& se.tool_name@ == started.1
                &&& opt_chars(se.checkpoint_id) == (match first_auto_checkpoint(ks) {
                    Some(c) => Some(c.0),
                    None => None,
                })
                &&& match touched_paths(ks) {
                    None => se.affected_paths is None,
                    Some(ps) => match se.affected_paths {
                        Some(v) => strictly_sorted(strings_view(v@)) && strings_view(v@).to_set() == ps.to_set(),
                        None => false,
                    },
                }
            },
            None => false,
        },
    }
}

/// A path with its backslashes replaced holds none.
pub open spec fn has_no_backslash(p: Seq<char>) -> bool {
    forall|i: int| 0 <= i < p.len() ==> p[i] != '\\'
}

proof fn lemma_slashed_clean(p: Seq<char>)
    ensures
        has_no_backslash(backslash_to_slash(p)),
{
}

proof fn lemma_path_texts_clean(items: Seq<JsonView>)
    ensures
        forall|i: int| 0 <= i < path_texts(items).len() ==> has_no_backslash(#[trigger] path_texts(items)[i]),
    decreases items.len(),
{
    if items.len() > 0 {
        let prev = path_texts(items.drop_last());
        lemma_path_texts_clean(items.drop_last());
        match items.last() {
            JsonView::Str(p) => {
                lemma_slashed_clean(p);
                assert forall|i: int| 0 <= i < path_texts(items).len() implies has_no_backslash(
                    #[trigger] path_texts(items)[i],
                ) by {
                    if i < prev.len() {
                        assert(path_texts(items)[i] == prev[i]);
                    }
                }
            },
            _ => {},
        }
    }
}

/// The paths a tool run is recorded to have touched use forward slashes
/// only: none holds a backslash.
pub proof fn lemma_affected_paths_use_forward_slashes(r: Option<ToolSideEffects>, ks: Seq<EventKindView>)
    requires
        records_side_effects(r, ks),
    ensures
        r matches Some(se) ==> (se.affected_paths matches Some(v) ==> forall|i: int|
            0 <= i < v@.len() ==> has_no_backslash(#[trigger] v@[i]@)),
{
    match r {
        Some(se) => match se.affected_paths {
            Some(v) => {
                let ps = touched_paths(ks)->0;
                assert(forall|j: int| 0 <= j < ps.len() ==> has_no_backslash(#[trigger] ps[j])) by {
                    match artifact_paths(tool_run_view(ks).artifacts) {
                        Some(aps) => {
                            match tool_run_view(ks).artifacts {
                                Some(a) => match json_get(a, "changed_files"@) {
                                    Some(JsonView::Array(items)) => lemma_path_texts_clean(items),
                                    _ => match json_get(a, "path"@) {
                                        Some(JsonView::Str(p)) => lemma_slashed_clean(p),
                                        _ => {},
                                    },
                                },
                                None => {},
                            }
                        },
                        None => {
                            assert forall|j: int| 0 <= j < ps.len() implies has_no_backslash(#[trigger] ps[j]) by {
                                let c = first_auto_checkpoint(ks)->0;
                                lemma_slashed_clean(c.1[j]);
                            }
                        },
                    }
                }
                assert forall|i: int| 0 <= i < v@.len() implies has_no_backslash(#[trigger] v@[i]@) by {
                    assert(strings_view(v@)[i] == v@[i]@);
                    assert(strings_view(v@).to_set().contains(v@[i]@));
                    assert(ps.to_set().contains(v@[i]@));
                    let j = choose|j: int| 0 <= j < ps.len() && ps[j] == v@[i]@;
                    assert(has_no_backslash(ps[j]));
                }
            },
            None => {},
        },
        None => {},
    }
}

/// `path.replace('\\', "/")`.
pub fn normalize_rel_path_string(path: &str) -> (r: String)
    ensures
        r@ == backslash_to_slash(path@),
{
    replace_backslashes(path)
}

fn find_tool_started(events: &[KernelEvent]) -> (r: Option<usize>)
    ensures
        match r {
            Some(i) => i < events@.len() && events@[i as int].kind is ToolStarted && first_tool_started(
                event_kinds(events@),
            ) == (match events@[i as int].kind@ {
                EventKindView::ToolStarted { tool_id, name, .. } => Some((tool_id, name)),
                _ => None,
            }),
            None => first_tool_started(event_kinds(events@)) is None,
        },
{
    let ghost ks = event_kinds(events@);
    let mut i: usize = 0;
    assert(ks.skip(0) =~= ks);
    while i < events.len()
        invariant
            i <= events@.len(),
            ks == event_kinds(events@),
            first_tool_started(ks) == first_tool_started(ks.skip(i as int)),
        decreases events@.len() - i,
    {
        assert(ks.skip(i as int)[0] == events@[i as int].kind@);
        match &events[i].kind {
            KernelEventKind::ToolStarted { .. } => {
                return Some(i);
            },
            _ => {},
        }
        assert(ks.skip(i as int).drop_first() =~= ks.skip(i + 1));
        i = i + 1;
    }
    None
}

fn find_auto_checkpoint(events: &[KernelEvent]) -> (r: Option<usize>)
    ensures
        match r {
            Some(i) => i < events@.len() && events@[i as int].kind is CheckpointCreated && first_auto_checkpoint(
                event_kinds(events@),
            ) == (match events@[i as int].kind@ {
                EventKindView::CheckpointCreated { checkpoint_id, files, .. } => Some((checkpoint_id, files)),
                _ => None,
            }),
            None => first_auto_checkpoint(event_kinds(events@)) is None,
        },
{
    let ghost ks = event_kinds(events@);
    let mut i: usize = 0;
    assert(ks.skip(0) =~= ks);
    while i < events.len()
        invariant
            i <= events@.len(),
            ks == event_kinds(events@),
            first_auto_checkpoint(ks) == first_auto_checkpoint(ks.skip(i as int)),
        decreases events@.len() - i,
    {
        assert(ks.skip(i as int)[0] == events@[i as int].kind@);
        match &events[i].kind {
            KernelEventKind::CheckpointCreated { auto, .. } => {
                if *auto {
                    return Some(i);
                }
            },
            _ => {},
        }
        assert(ks.skip(i as int).drop_first() =~= ks.skip(i + 1));
        i = i + 1;
    }
    None
}

fn last_artifacts(events: &[KernelEvent]) -> (r: Option<&Json>)
    ensures
        (match r {
            Some(j) => Some(j@),
            None => None::<JsonView>,
        }) == tool_run_view(event_kinds(events@)).artifacts,
{
    let ghost ks = event_kinds(events@);
    let mut artifacts: Option<&Json> = None;
    let mut i: usize = 0;
    assert(ks.subrange(0, 0) =~= Seq::<EventKindView>::empty());
    while i < events.len()
        invariant
            i <= events@.len(),
            ks == event_kinds(events@),
            (match artifacts {
                Some(j) => Some(j@),
                None => None::<JsonView>,
            }) == tool_run_view(ks.subrange(0, i as int)).artifacts,
        decreases events@.len() - i,
    {
        assert(ks.subrange(0, i + 1).drop_last() =~= ks.subrange(0, i as int));
        assert(ks.subrange(0, i + 1).last() == events@[i as int].kind@);
        match &events[i].kind {
            KernelEventKind::ToolEnded { artifacts: tool_artifacts, .. } => {
                artifacts = match tool_artifacts {
                    Some(a) => Some(a),
                    None => None,
                };
            },
            _ => {},
        }
        i = i + 1;
    }
    assert(ks.subrange(0, events@.len() as int) =~= ks);
    artifacts
}

fn paths_in(items: &Vec<Json>) -> (r: Vec<String>)
    ensures
        strings_view(r@) == path_texts(items_view(items@)),
{
    proof {
        lemma_items_view(items@);
    }
    let ghost iv = items_view(items@);
    let mut out: Vec<String> = Vec::new();
    let mut i: usize = 0;
    assert(iv.subrange(0, 0) =~= Seq::<JsonView>::empty());
    assert(strings_view(out@) =~= Seq::<Seq<char>>::empty());
    while i < items.len()
        invariant
            i <= items@.len(),
            iv == items_view(items@),
            iv.len() == items@.len(),
            forall|k: int| 0 <= k < items@.len() ==> #[trigger] iv[k] == items@[k]@,
            strings_view(out@) == path_texts(iv.subrange(0, i as int)),
        decreases items@.len() - i,
    {
        assert(iv.subrange(0, i + 1).drop_last() =~= iv.subrange(0, i as int));
        assert(iv.subrange(0, i + 1).last() == items@[i as int]@);
        match items[i].as_str() {
            Some(p) => {
                let ghost before = out@;
                out.push(normalize_rel_path_string(p));
                assert(strings_view(out@) =~= strings_view(before).push(backslash_to_slash(p@)));
            },
            None => {},
        }
        i = i + 1;
    }
    assert(iv.subrange(0, items@.len() as int) =~= iv);
    out
}

fn normalized_files(files: &Vec<String>) -> (r: Vec<String>)
    ensures
        strings_view(r@) == strings_view(files@).map_values(|p: Seq<char>| backslash_to_slash(p)),
{
    let mut out: Vec<String> = Vec::new();
    let mut i: usize = 0;
    while i < files.len()
        invariant
            i <= files@.len(),
            out@.len() == i,
            forall|k: int| 0 <= k < i ==> #[trigger] out@[k]@ == backslash_to_slash(files@[k]@),
        decreases files@.len() - i,
    {
        out.push(normalize_rel_path_string(files[i].as_str()));
        i = i + 1;
    }
    assert(strings_view(out@) =~= strings_view(files@).map_values(|p: Seq<char>| backslash_to_slash(p)));
    out
}

/// The side effects of one tool run, read from its events: the tool that
/// started first, its automatic checkpoint, and the paths it touched, sorted
/// and without repeats. None when no tool started.
pub fn summarize_continuity_tool_side_effects(events: &[KernelEvent]) -> (r: Option<ToolSideEffects>)
    ensures
        records_side_effects(r, event_kinds(events@)),
{
    let ghost ks = event_kinds(events@);
    let started = match find_tool_started(events) {
        Some(i) => i,
        None => return None,
    };
    let (tool_id, tool_name) = match &events[started].kind {
        KernelEventKind::ToolStarted { tool_id, name, .. } => (tool_id.clone(), name.clone()),
        _ => return None,
    };
    let checkpoint = find_auto_checkpoint(events);
    let checkpoint_id = match checkpoint {
        Some(c) => match &events[c].kind {
            KernelEventKind::CheckpointCreated { checkpoint_id, .. } => Some(checkpoint_id.clone()),
            _ => None,
        },
        None => None,
    };
    let artifacts = last_artifacts(events);
    let mut affected: Option<Vec<String>> = None;
    match artifacts {
        Some(a) => {
            match a.get("changed_files") {
                Some(Json::Array(items)) => {
                    affected = Some(paths_in(items));
                },
                _ => match a.get("path") {
                    Some(Json::Str(p)) => {
                        let mut v: Vec<String> = Vec::new();
                        v.push(normalize_rel_path_string(p.as_str()));
                        assert(strings_view(v@) =~= seq![backslash_to_slash(p@)]);
                        affected = Some(v);
                    },
                    _ => {},
                },
            }
        },
        None => {},
    }
    if affected.is_none() {
        match checkpoint {
            Some(c) => match &events[c].kind {
                KernelEventKind::CheckpointCreated { files, .. } => {
                    affected = Some(normalized_files(files));
                },
                _ => {},
            },
            None => {},
        }
    }
    let ghost unsorted = affected;
    let affected_paths = match affected {
        Some(paths) => Some(sort_dedup(paths)),
        None => None,
    };
    proof {
        match unsorted {
            Some(v) => {
                assert(touched_paths(ks) == Some(strings_view(v@)));
            },
            None => {
                assert(touched_paths(ks) is None);
            },
        }
    }
    Some(ToolSideEffects { tool_id, tool_name, affected_paths, checkpoint_id })
}

impl Default for ToolCallCollector {
    fn default() -> (r: ToolCallCollector)
        ensures
            r.wf(),
            r@ == empty_collector(),
            calls_view(r.completed_calls()) == r@.completed,
    {
        ToolCallCollector::new()
    }
}

proof fn lemma_buffer_entries(s: Seq<BufferEntry>)
    ensures
        buffer_entries(s).len() == s.len(),
        forall|i: int| 0 <= i < s.len() ==> #[trigger] buffer_entries(s)[i] == (s[i].item_id@, s[i].buffer@),
{
}

proof fn lemma_call_id_entries(s: Seq<CallIdEntry>)
    ensures
        call_id_entries(s).len() == s.len(),
        forall|i: int| 0 <= i < s.len() ==> #[trigger] call_id_entries(s)[i] == (s[i].call_id@, s[i].item_id@),
{
}

/// Why a provider request stopped before its stream was read to the end.
#[derive(Debug)]
pub enum StreamFailure {
    /// The request payload has errors; it is not sent.
    InvalidPayload,
    /// Dumping the request failed with this error.
    DumpFailed(String),
    /// Sending the request failed with this error.
    SendFailed(String),
    /// The provider answered with a status other than success: the status
    /// as displayed, and the body of the answer.
    HttpError { status: String, body: String },
    /// The stream ended before its first byte.
    NoFirstByte,
    /// Reading a chunk of the stream failed with this error.
    ChunkFailed(String),
}

/// What a failure leads to: the transport error the run reports, if any, and
/// the reason the request gives up with.
pub open spec fn spec_stream_failure(f: StreamFailure) -> (Option<Seq<char>>, Seq<char>) {
    match f {
        StreamFailure::InvalidPayload => (None, "invalid_request"@),
        StreamFailure::DumpFailed(e) => (None, e@),
        StreamFailure::SendFailed(e) => (Some(e@), "provider_error"@),
        StreamFailure::HttpError { status, body } => (
            Some("provider http error: "@ + status@ + ": "@ + body@),
            "provider_error"@,
        ),
        StreamFailure::NoFirstByte => (Some("provider stream ended before first byte"@), "provider_error"@),
        StreamFailure::ChunkFailed(e) => (Some(e@), "provider_error"@),
    }
}

pub fn stream_failure(f: StreamFailure) -> (r: (Option<String>, String))
    ensures
        ({
            let expected = spec_stream_failure(f);
            &&& opt_chars(r.0) == expected.0
            &&& r.1@ == expected.1
        }),
{
    match f {
        StreamFailure::InvalidPayload => (None, owned("invalid_request")),
        StreamFailure::DumpFailed(e) => (None, e),
        StreamFailure::SendFailed(e) => (Some(e), owned("provider_error")),
        StreamFailure::HttpError { status, body } => {
            let head = crate::text::concat3("provider http error: ", status.as_str(), ": ");
            (Some(concat2(head.as_str(), body.as_str())), owned("provider_error"))
        },
        StreamFailure::NoFirstByte => (Some(owned("provider stream ended before first byte")), owned("provider_error")),
        StreamFailure::ChunkFailed(e) => (Some(e), owned("provider_error")),
    }
}

/// The `stdout` and `stderr` members of a tool's output are the run's two
/// texts.
proof fn lemma_tool_output_stream_members(tool: Seq<char>, r: ToolRunView)
    ensures
        get_str(tool_output_view(tool, r), "stdout"@) == Some(r.stdout),
        get_str(tool_output_view(tool, r), "stderr"@) == Some(r.stderr),
{
    reveal_strlit("tool");
    reveal_strlit("ok");
    reveal_strlit("exit_code");
    reveal_strlit("stdout");
    reveal_strlit("stderr");
    let base = seq![
        ("tool"@, JsonView::Str(tool)),
        ("ok"@, JsonView::Bool(r.exit_code == 0 && r.error is None)),
        ("exit_code"@, JsonView::Number(int_number(r.exit_code as i64))),
        ("stdout"@, JsonView::Str(r.stdout)),
        ("stderr"@, JsonView::Str(r.stderr)),
    ];
    let with_artifacts = match r.artifacts {
        Some(a) => base.push(("artifacts"@, a)),
        None => base,
    };
    let ms = match r.error {
        Some(e) => with_artifacts.push(("error"@, JsonView::Str(e))),
        None => with_artifacts,
    };
    assert(tool_output_view(tool, r) == JsonView::Object(ms));
    assert(ms.len() >= 5);
    assert(ms[0].0 == "tool"@ && ms[1].0 == "ok"@ && ms[2].0 == "exit_code"@ && ms[3].0 == "stdout"@ && ms[4].0
        == "stderr"@);
    assert(ms[3].1 == JsonView::Str(r.stdout) && ms[4].1 == JsonView::Str(r.stderr));
    assert("tool"@.len() != "stdout"@.len() && "ok"@.len() != "stdout"@.len() && "exit_code"@.len()
        != "stdout"@.len());
    assert("stdout"@[3] != "stderr"@[3]);
    let m1 = ms.drop_first();
    let m2 = m1.drop_first();
    let m3 = m2.drop_first();
    let m4 = m3.drop_first();
    assert(m1[0] == ms[1] && m2[0] == ms[2] && m3[0] == ms[3] && m4[0] == ms[4]);
    assert(member_value(m3, "stdout"@) == Some(JsonView::Str(r.stdout)));
    assert(member_value(m4, "stderr"@) == Some(JsonView::Str(r.stderr)));
    assert("stdout"@ != "stderr"@);
    assert(ms[0].0 != "stdout"@ && ms[1].0 != "stdout"@ && ms[2].0 != "stdout"@);
    assert(ms[0].0 != "stderr"@ && ms[1].0 != "stderr"@ && ms[2].0 != "stderr"@ && ms[3].0 != "stderr"@);
    assert(member_value(m3, "stderr"@) == member_value(m4, "stderr"@));
    assert(member_value(m2, "stdout"@) == member_value(m3, "stdout"@));
    assert(member_value(m2, "stderr"@) == member_value(m3, "stderr"@));
    assert(member_value(m1, "stdout"@) == member_value(m2, "stdout"@));
    assert(member_value(m1, "stderr"@) == member_value(m2, "stderr"@));
    assert(member_value(ms, "stdout"@) == member_value(m1, "stdout"@));
    assert(member_value(ms, "stderr"@) == member_value(m1, "stderr"@));
}

/// A tool's output carries, as `stdout` and `stderr`, every chunk the tool
/// wrote to each stream, in the order written: both are empty before any
/// event, an event writing to one stream appends its chunk to that stream's
/// text and leaves the other's as it was, and no other event changes either.
pub proof fn lemma_tool_output_keeps_every_chunk(tool: Seq<char>, ks: Seq<EventKindView>, e: EventKindView)
    ensures
        get_str(tool_output_view(tool, tool_run_view(Seq::empty())), "stdout"@) == Some(Seq::<char>::empty()),
        get_str(tool_output_view(tool, tool_run_view(Seq::empty())), "stderr"@) == Some(Seq::<char>::empty()),
        ({
            let before = tool_output_view(tool, tool_run_view(ks));
            let after = tool_output_view(tool, tool_run_view(ks.push(e)));
            &&& get_str(after, "stdout"@) == Some(
                match e {
                    EventKindView::ToolStdout { chunk, .. } => text_or_empty(get_str(before, "stdout"@)) + chunk,
                    _ => text_or_empty(get_str(before, "stdout"@)),
                },
            )
            &&& get_str(after, "stderr"@) == Some(
                match e {
                    EventKindView::ToolStderr { chunk, .. } => text_or_empty(get_str(before, "stderr"@)) + chunk,
                    _ => text_or_empty(get_str(before, "stderr"@)),
                },
            )
        }),
{
    lemma_tool_output_stream_members(tool, tool_run_view(Seq::empty()));
    lemma_tool_output_stream_members(tool, tool_run_view(ks));
    lemma_tool_output_stream_members(tool, tool_run_view(ks.push(e)));
    assert(ks.push(e).drop_last() =~= ks);
}

/// An `output_item.done` event for a function call that names the call's
/// item id, call id and name completes that call with exactly the arguments
/// the item carries when it carries any, whatever was streamed before, at the
/// event's output index; an `output_item.added` event carrying arguments sets
/// the call's buffered arguments to them.
pub proof fn lemma_output_item_arguments(
    c: CollectorView,
    data: JsonView,
    item: JsonView,
    id: Seq<char>,
    call_id: Seq<char>,
    name: Seq<char>,
    arguments: Seq<char>,
    index: u64,
)
    requires
        data is Object,
        json_get(data, "item"@) == Some(item),
        get_u64(data, "output_index"@) == Some(index),
        item is Object,
        get_str(item, "type"@) == Some("function_call"@),
        get_str(item, "id"@) == Some(id),
        id.len() > 0,
        get_str(item, "call_id"@) == Some(call_id),
        call_id.len() > 0,
        get_str(item, "name"@) == Some(name),
        get_str(item, "arguments"@) == Some(arguments),
        arguments.len() > 0,
    ensures
        get_str(data, "type"@) == Some("response.output_item.done"@) ==> spec_observe(
            c,
            ParsedEventView { kind: ParsedEventKind::Event, data: Some(data) },
        ).completed == c.completed.push(
            CallView { output_index: index, call_id, item_id: Some(id), name, arguments },
        ),
        get_str(data, "type"@) == Some("response.output_item.added"@) ==> ({
            let after = spec_observe(c, ParsedEventView { kind: ParsedEventKind::Event, data: Some(data) });
            &&& after.completed == c.completed
            &&& after.buffers.dom().contains(id)
            &&& after.buffers[id].arguments == arguments
            &&& after.buffers[id].call_id == Some(call_id)
            &&& after.buffers[id].name == Some(name)
            &&& after.buffers[id].output_index == index
        }),
{
    reveal_strlit("response.output_item.done");
    reveal_strlit("response.output_item.added");
    assert("response.output_item.done"@.len() != "response.output_item.added"@.len());
}

} // verus!
