//! Writing to the storage of a page and reading back what was written.

use crate::cdp::{
    entry_views, CdpLocalStorageEntry, CdpLocalStorageParam, EntryView, StorageView,
};
use crate::json::{item_views, json_quoted, quote_json, Json, JsonView};
use crate::list::{holds, push_text};
use crate::login::common::{evaluated, evaluated_value};
use crate::order::{
    before, is_before, rising, sorted_distinct, sorted_distinct_is_sorted_set, with_inserted,
};
use crate::text::{
    chars_of, join, joined, opt_text, str_eq, string_of, texts, trim_end_char, trim_end_of,
};
use vstd::prelude::*;

verus! {

// ---------------------------------------------------------------- what replies say

/// The storage key that a reply names.
pub open spec fn reply_storage_key(response: JsonView) -> Option<Seq<char>> {
    match response.at("result"@) {
        Some(result) => result.text_at("storageKey"@),
        None => None,
    }
}

/// The storage key that a reply names.
pub fn current_storage_key(response: &Json) -> (r: Option<String>)
    ensures
        opt_text(r) == reply_storage_key(response@),
{
    match response.get("result") {
        Some(result) => match result.str_at("storageKey") {
            Some(key) => Some(key.to_string()),
            None => None,
        },
        None => None,
    }
}

/// The texts of a list, without what is no text.
pub open spec fn texts_among(items: Seq<JsonView>) -> Seq<Seq<char>>
    decreases items.len(),
{
    if items.len() == 0 {
        Seq::empty()
    } else {
        let rest = texts_among(items.drop_last());
        match items.last().text() {
            Some(t) => rest.push(t),
            None => rest,
        }
    }
}

fn collect_texts(items: &Vec<Json>) -> (r: Vec<String>)
    ensures
        texts(r@) == texts_among(item_views(items@)),
{
    let ghost all = item_views(items@);
    let mut out: Vec<String> = Vec::new();
    let mut i: usize = 0;
    assert(all.take(0) =~= Seq::<JsonView>::empty());
    assert(texts(out@) =~= Seq::<Seq<char>>::empty());
    while i < items.len()
        invariant
            i <= items@.len(),
            all == item_views(items@),
            texts(out@) == texts_among(all.take(i as int)),
        decreases items@.len() - i,
    {
        assert(all.take(i + 1).drop_last() =~= all.take(i as int));
        assert(all.take(i + 1).last() == items@[i as int]@);
        if let Some(t) = items[i].as_str() {
            push_text(&mut out, t.to_string());
        }
        i = i + 1;
    }
    assert(all.take(i as int) =~= all);
    out
}

/// The names that a reply lists as written; nothing where the script failed.
pub open spec fn written_names(response: JsonView) -> Option<Seq<Seq<char>>> {
    let failed = match response.at("result"@) {
        Some(result) => result.at("exceptionDetails"@) is Some,
        None => false,
    };
    if failed {
        None
    } else {
        match evaluated(response) {
            Some(value) => match value.at("written"@) {
                Some(written) => match written.items() {
                    Some(items) => Some(texts_among(items)),
                    None => None,
                },
                None => None,
            },
            None => None,
        }
    }
}

/// The texts of an optional list.
pub open spec fn opt_texts(v: Option<Vec<String>>) -> Option<Seq<Seq<char>>> {
    match v {
        Some(x) => Some(texts(x@)),
        None => None,
    }
}

/// The names that a reply lists as written.
pub fn runtime_written_names(response: &Json) -> (r: Option<Vec<String>>)
    ensures
        opt_texts(r) == written_names(response@),
{
    if let Some(result) = response.get("result") {
        if result.get("exceptionDetails").is_some() {
            return None;
        }
    }
    match evaluated_value(response) {
        Some(value) => match value.get("written") {
            Some(written) => match written.as_array() {
                Some(items) => Some(collect_texts(items)),
                None => None,
            },
            None => None,
        },
        None => None,
    }
}

/// Whether an entry of a reply is a pair of the name and the value.
pub open spec fn is_pair(entry: JsonView, item: EntryView) -> bool {
    match entry.items() {
        Some(pair) => pair.len() >= 2 && pair[0].text() == Some(item.name) && pair[1].text()
            == Some(item.value),
        None => false,
    }
}

/// Whether a reply lists an item of the storage.
pub open spec fn lists_item(response: JsonView, item: EntryView) -> bool {
    match response.at("result"@) {
        Some(result) => match result.at("entries"@) {
            Some(entries) => match entries.items() {
                Some(list) => exists|i: int| 0 <= i < list.len() && is_pair(#[trigger] list[i], item),
                None => false,
            },
            None => false,
        },
        None => false,
    }
}

fn has_text(v: &Json, text: &str) -> (r: bool)
    ensures
        r == (v@.text() == Some(text@)),
{
    match v.as_str() {
        Some(t) => str_eq(t, text),
        None => false,
    }
}

fn matches_pair(entry: &Json, item: &CdpLocalStorageEntry) -> (r: bool)
    ensures
        r == is_pair(entry@, item@),
{
    match entry.as_array() {
        Some(pair) => {
            if pair.len() < 2 {
                return false;
            }
            assert(item_views(pair@)[0] == pair@[0]@);
            assert(item_views(pair@)[1] == pair@[1]@);
            has_text(&pair[0], item.name.as_str()) && has_text(&pair[1], item.value.as_str())
        },
        None => false,
    }
}

fn any_pair(entries: &Vec<Json>, item: &CdpLocalStorageEntry) -> (r: bool)
    ensures
        r == exists|i: int|
            0 <= i < entries@.len() && is_pair(#[trigger] item_views(entries@)[i], item@),
{
    let mut i: usize = 0;
    while i < entries.len()
        invariant
            i <= entries@.len(),
            forall|k: int| 0 <= k < i ==> !is_pair(#[trigger] item_views(entries@)[k], item@),
        decreases entries@.len() - i,
    {
        assert(item_views(entries@)[i as int] == entries@[i as int]@);
        if matches_pair(&entries[i], item) {
            return true;
        }
        i = i + 1;
    }
    false
}

/// Whether a reply lists an item of the storage.
pub fn dom_storage_response_has_item(response: &Json, item: &CdpLocalStorageEntry) -> (r: bool)
    ensures
        r == lists_item(response@, item@),
{
    match response.get("result") {
        Some(result) => match result.get("entries") {
            Some(entries) => match entries.as_array() {
                Some(list) => any_pair(list, item),
                None => false,
            },
            None => false,
        },
        None => false,
    }
}

pub const STORE_HEAD: &'static str = "(() => {\n            const targetHost = ";

pub const STORE_MIDDLE: &'static str = ";\n            const entries = ";

pub const STORE_TAIL: &'static str = ";\n            const written = [];\n            if (location.hostname.toLowerCase() !== targetHost) {\n                return { host: location.hostname.toLowerCase(), written };\n            }\n            for (const item of entries) {\n                try {\n                    localStorage.setItem(item.name, item.value);\n                    if (localStorage.getItem(item.name) === item.value) {\n                        written.push(item.name);\n                    }\n                } catch (_) {}\n            }\n            return { host: location.hostname.toLowerCase(), written };\n        })()";

/// An item as an object of a script.
pub open spec fn item_object(item: EntryView) -> Seq<char> {
    "{\"name\":"@ + json_quoted(item.name) + ",\"value\":"@ + json_quoted(item.value) + "}"@
}

/// Items as objects of a script.
pub open spec fn item_objects(items: Seq<EntryView>) -> Seq<Seq<char>> {
    items.map_values(|item: EntryView| item_object(item))
}

/// The script that writes items into the storage of a page of `host` and tells the
/// names of those that are read back as they were written.
pub fn storage_items_script(host: &str, items: &Vec<CdpLocalStorageEntry>) -> (r: String)
    ensures
        r@ == STORE_HEAD@ + json_quoted(host@) + STORE_MIDDLE@ + "["@ + joined(
            item_objects(entry_views(items@)),
            ","@,
        ) + "]"@ + STORE_TAIL@,
{
    let ghost want = item_objects(entry_views(items@));
    let mut objects: Vec<String> = Vec::new();
    let mut i: usize = 0;
    assert(texts(objects@) =~= want.take(0));
    while i < items.len()
        invariant
            i <= items@.len(),
            want == item_objects(entry_views(items@)),
            texts(objects@) == want.take(i as int),
        decreases items@.len() - i,
    {
        let object: String = "{\"name\":".to_string().concat(
            quote_json(items[i].name.as_str()).as_str(),
        ).concat(",\"value\":").concat(quote_json(items[i].value.as_str()).as_str()).concat("}");
        push_text(&mut objects, object);
        assert(texts(objects@) =~= want.take(i + 1));
        i = i + 1;
    }
    assert(want.take(i as int) =~= want);
    STORE_HEAD.to_string().concat(quote_json(host).as_str()).concat(STORE_MIDDLE).concat("[").concat(
        join(&objects, ",").as_str(),
    ).concat("]").concat(STORE_TAIL)
}

/// The script that reads an item of the storage.
pub fn storage_item_script(name: &str) -> (r: String)
    ensures
        r@ == "localStorage.getItem("@ + json_quoted(name@) + ")"@,
{
    "localStorage.getItem(".to_string().concat(quote_json(name).as_str()).concat(")")
}

/// Whether the value that a script read is the one of an item.
pub fn runtime_value_matches(response: &Json, item: &CdpLocalStorageEntry) -> (r: bool)
    ensures
        r == (match evaluated(response@) {
            Some(v) => v.text() == Some(item.value@),
            None => false,
        }),
{
    match evaluated_value(response) {
        Some(v) => has_text(v, item.value.as_str()),
        None => false,
    }
}

/// Whether a reply says that a page of the host is there to be written to.
pub open spec fn page_ready(response: JsonView, host: Seq<char>) -> bool {
    match evaluated(response) {
        Some(value) => value.text_at("host"@) == Some(host) && (value.text_at("readyState"@) == Some(
            "interactive"@,
        ) || value.text_at("readyState"@) == Some("complete"@)),
        None => false,
    }
}

/// Whether a reply says that a page of the host is there to be written to.
pub fn page_is_storage_host_ready(response: &Json, host: &str) -> (r: bool)
    ensures
        r == page_ready(response@, host@),
{
    match evaluated_value(response) {
        Some(value) => match value.str_at("host") {
            Some(h) => str_eq(h, host) && match value.str_at("readyState") {
                Some(state) => str_eq(state, "interactive") || str_eq(state, "complete"),
                None => false,
            },
            None => false,
        },
        None => false,
    }
}

// ---------------------------------------------------------------- names of a storage

/// A name under which the browser knows a storage.
#[derive(Debug)]
pub enum StorageId {
    Key(String),
    Origin(String),
}

/// What a `StorageId` says.
pub enum StorageIdView {
    Key(Seq<char>),
    Origin(Seq<char>),
}

impl View for StorageId {
    type V = StorageIdView;

    open spec fn view(&self) -> StorageIdView {
        match *self {
            StorageId::Key(t) => StorageIdView::Key(t@),
            StorageId::Origin(t) => StorageIdView::Origin(t@),
        }
    }
}

/// What a list of names says.
pub open spec fn id_views(ids: Seq<StorageId>) -> Seq<StorageIdView> {
    ids.map_values(|i: StorageId| i@)
}

/// The key that belongs to an origin.
pub open spec fn key_of_origin(origin: Seq<char>) -> Seq<char> {
    trim_end_of(origin, '/') + "/"@
}

/// The names under which the storage of an origin is tried: the key of the page, where it
/// has one, the origin, and the key that belongs to the origin; no name comes twice.
pub open spec fn storage_names(current: Option<Seq<char>>, origin: Seq<char>) -> Seq<StorageIdView> {
    let own = key_of_origin(origin);
    match current {
        Some(key) => if key == own {
            seq![StorageIdView::Key(key), StorageIdView::Origin(origin)]
        } else {
            seq![
                StorageIdView::Key(key),
                StorageIdView::Origin(origin),
                StorageIdView::Key(own),
            ]
        },
        None => seq![StorageIdView::Origin(origin), StorageIdView::Key(own)],
    }
}

/// The names under which the storage of an origin is tried.
pub fn dom_storage_ids(current: Option<String>, origin: &str) -> (r: Vec<StorageId>)
    ensures
        id_views(r@) == storage_names(opt_text(current), origin@),
{
    let chars: Vec<char> = chars_of(origin);
    let own: String = string_of(trim_end_char(chars.as_slice(), '/')).concat("/");
    let mut ids: Vec<StorageId> = Vec::new();
    match current {
        Some(key) => {
            let same: bool = str_eq(key.as_str(), own.as_str());
            ids.push(StorageId::Key(key));
            ids.push(StorageId::Origin(origin.to_string()));
            if !same {
                ids.push(StorageId::Key(own));
            }
        },
        None => {
            ids.push(StorageId::Origin(origin.to_string()));
            ids.push(StorageId::Key(own));
        },
    }
    assert(id_views(ids@) =~= storage_names(opt_text(current), origin@));
    ids
}

// ---------------------------------------------------------------- writing one item

/// How far the writing of an item has come.
#[derive(Debug, Clone, Copy, PartialEq, Eq, Structural)]
pub enum ItemPhase {
    /// The names of the storage are looked up.
    Naming,
    /// The item is written under a name.
    Setting { name: usize },
    /// The names are looked up again to read the item back.
    Renaming { name: usize },
    /// The item is read back under a name.
    Reading { name: usize, read: usize },
    /// The item is read back by a script.
    Evaluating { name: usize },
    Done,
}

/// What is to be done next.
#[derive(Debug, Clone, Copy, PartialEq, Eq, Structural)]
pub enum ItemAction {
    GetKey,
    /// Write under the name at a place of the list.
    Write { name: usize },
    /// Read under the name at a place of the list for reading.
    Read { read: usize },
    Evaluate,
    Finish { written: bool },
    /// Go on with the pending action.
    Keep,
}

/// What came of an action.
#[derive(Debug)]
pub enum ItemEvent {
    /// The key of the page.
    Key(Option<String>),
    /// Whether a call succeeded, or a reply holds the item.
    Answer(bool),
}

/// The writing of an item into the storage of an origin.
#[derive(Debug)]
pub struct ItemWrite {
    pub origin: String,
    /// The names under which it is written.
    pub ids: Vec<StorageId>,
    /// The names under which it is read back.
    pub read_ids: Vec<StorageId>,
    pub phase: ItemPhase,
}

/// What an `ItemWrite` says.
pub struct ItemModel {
    pub origin: Seq<char>,
    pub ids: Seq<StorageIdView>,
    pub read_ids: Seq<StorageIdView>,
    pub phase: ItemPhase,
}

impl View for ItemWrite {
    type V = ItemModel;

    open spec fn view(&self) -> ItemModel {
        ItemModel {
            origin: self.origin@,
            ids: id_views(self.ids@),
            read_ids: id_views(self.read_ids@),
            phase: self.phase,
        }
    }
}

/// What an `ItemEvent` says.
pub enum ItemEventView {
    Key(Option<Seq<char>>),
    Answer(bool),
}

impl View for ItemEvent {
    type V = ItemEventView;

    open spec fn view(&self) -> ItemEventView {
        match *self {
            ItemEvent::Key(k) => ItemEventView::Key(opt_text(k)),
            ItemEvent::Answer(b) => ItemEventView::Answer(b),
        }
    }
}

impl ItemModel {
    pub open spec fn at(self, phase: ItemPhase) -> ItemModel {
        ItemModel { phase, ..self }
    }

    /// Writing under the name at a place, or giving up after the last one.
    pub open spec fn set(self, name: int) -> (ItemModel, ItemAction) {
        if name < self.ids.len() {
            (
                self.at(ItemPhase::Setting { name: name as usize }),
                ItemAction::Write { name: name as usize },
            )
        } else {
            (self.at(ItemPhase::Done), ItemAction::Finish { written: false })
        }
    }

    /// Reading under the name at a place, or by a script after the last one.
    pub open spec fn read(self, name: usize, read: int) -> (ItemModel, ItemAction) {
        if read < self.read_ids.len() {
            (
                self.at(ItemPhase::Reading { name, read: read as usize }),
                ItemAction::Read { read: read as usize },
            )
        } else {
            (self.at(ItemPhase::Evaluating { name }), ItemAction::Evaluate)
        }
    }

    /// The item was read back.
    pub open spec fn written(self) -> (ItemModel, ItemAction) {
        (self.at(ItemPhase::Done), ItemAction::Finish { written: true })
    }

    /// What follows an event: an item counts as written once it is read back, under one of
    /// the names or by a script; where it is not, the next name is tried. An event that the
    /// pending action cannot cause changes nothing.
    pub open spec fn next(self, event: ItemEventView) -> (ItemModel, ItemAction) {
        match (self.phase, event) {
            (ItemPhase::Naming, ItemEventView::Key(key)) => ItemModel {
                ids: storage_names(key, self.origin),
                ..self
            }.set(0),
            (ItemPhase::Setting { name }, ItemEventView::Answer(ok)) => if ok {
                (self.at(ItemPhase::Renaming { name }), ItemAction::GetKey)
            } else {
                self.set(name + 1)
            },
            (ItemPhase::Renaming { name }, ItemEventView::Key(key)) => ItemModel {
                read_ids: storage_names(key, self.origin),
                ..self
            }.read(name, 0),
            (ItemPhase::Reading { name, read }, ItemEventView::Answer(yes)) => if yes {
                self.written()
            } else {
                self.read(name, read + 1)
            },
            (ItemPhase::Evaluating { name }, ItemEventView::Answer(yes)) => if yes {
                self.written()
            } else {
                self.set(name + 1)
            },
            _ => (self, ItemAction::Keep),
        }
    }

    /// Places stay within the lists of names.
    pub open spec fn well_formed(self) -> bool {
        &&& self.ids.len() <= 3
        &&& self.read_ids.len() <= 3
        &&& match self.phase {
            ItemPhase::Setting { name }
            | ItemPhase::Renaming { name }
            | ItemPhase::Evaluating { name } => name < self.ids.len(),
            ItemPhase::Reading { name, read } => name < self.ids.len() && read
                < self.read_ids.len(),
            _ => true,
        }
    }

    /// Whether `event` is of the kind that the pending action causes.
    pub open spec fn awaits(self, event: ItemEventView) -> bool {
        match self.phase {
            ItemPhase::Naming | ItemPhase::Renaming { .. } => event is Key,
            ItemPhase::Done => false,
            _ => event is Answer,
        }
    }

    /// An upper bound on the number of actions that are left.
    pub open spec fn steps_left(self) -> int {
        match self.phase {
            ItemPhase::Naming => 30,
            ItemPhase::Setting { name } => 8 * (self.ids.len() - name),
            ItemPhase::Renaming { name } => 8 * (self.ids.len() - name) - 1,
            ItemPhase::Reading { name, read } => 8 * (self.ids.len() - name) - 2 - read,
            ItemPhase::Evaluating { name } => 8 * (self.ids.len() - name) - 6,
            ItemPhase::Done => 0,
        }
    }
}

impl ItemWrite {
    /// The writing of an item and what to do first.
    pub fn begin(origin: &str) -> (r: (ItemWrite, ItemAction))
        ensures
            r.0@ == (ItemModel {
                origin: origin@,
                ids: Seq::empty(),
                read_ids: Seq::empty(),
                phase: ItemPhase::Naming,
            }),
            r.1 == ItemAction::GetKey,
            r.0@.well_formed(),
    {
        let w: ItemWrite = ItemWrite {
            origin: origin.to_string(),
            ids: Vec::new(),
            read_ids: Vec::new(),
            phase: ItemPhase::Naming,
        };
        assert(id_views(w.ids@) =~= Seq::<StorageIdView>::empty());
        assert(id_views(w.read_ids@) =~= Seq::<StorageIdView>::empty());
        (w, ItemAction::GetKey)
    }

    fn set(&mut self, name: usize) -> (r: ItemAction)
        ensures
            (final(self)@, r) == old(self)@.set(name as int),
    {
        if name < self.ids.len() {
            self.phase = ItemPhase::Setting { name };
            ItemAction::Write { name }
        } else {
            self.phase = ItemPhase::Done;
            ItemAction::Finish { written: false }
        }
    }

    fn read(&mut self, name: usize, read: usize) -> (r: ItemAction)
        ensures
            (final(self)@, r) == old(self)@.read(name, read as int),
    {
        if read < self.read_ids.len() {
            self.phase = ItemPhase::Reading { name, read };
            ItemAction::Read { read }
        } else {
            self.phase = ItemPhase::Evaluating { name };
            ItemAction::Evaluate
        }
    }

    fn written(&mut self) -> (r: ItemAction)
        ensures
            (final(self)@, r) == old(self)@.written(),
    {
        self.phase = ItemPhase::Done;
        ItemAction::Finish { written: true }
    }

    /// Takes in what came of the pending action and tells what to do next.
    pub fn advance(&mut self, event: ItemEvent) -> (r: ItemAction)
        requires
            old(self)@.well_formed(),
        ensures
            (final(self)@, r) == old(self)@.next(event@),
            final(self)@.well_formed(),
    {
        match (self.phase, event) {
            (ItemPhase::Naming, ItemEvent::Key(key)) => {
                self.ids = dom_storage_ids(key, self.origin.as_str());
                self.set(0)
            },
            (ItemPhase::Setting { name }, ItemEvent::Answer(ok)) => if ok {
                self.phase = ItemPhase::Renaming { name };
                ItemAction::GetKey
            } else {
                self.set(name + 1)
            },
            (ItemPhase::Renaming { name }, ItemEvent::Key(key)) => {
                self.read_ids = dom_storage_ids(key, self.origin.as_str());
                self.read(name, 0)
            },
            (ItemPhase::Reading { name, read }, ItemEvent::Answer(yes)) => if yes {
                self.written()
            } else {
                self.read(name, read + 1)
            },
            (ItemPhase::Evaluating { name }, ItemEvent::Answer(yes)) => if yes {
                self.written()
            } else {
                self.set(name + 1)
            },
            _ => ItemAction::Keep,
        }
    }
}

/// Every answered action brings the writing of an item closer to its end.
pub proof fn item_write_ends(s: ItemModel, event: ItemEventView)
    requires
        s.well_formed(),
        s.awaits(event),
    ensures
        s.next(event).0.well_formed(),
        0 <= s.next(event).0.steps_left() < s.steps_left(),
{
}

/// An item counts as written only after it was read back.
pub proof fn written_items_were_read_back(s: ItemModel, event: ItemEventView)
    requires
        s.next(event).1 == (ItemAction::Finish { written: true }),
    ensures
        event == ItemEventView::Answer(true),
        s.phase is Reading || s.phase is Evaluating,
{
}

// ---------------------------------------------------------------- lists of items

/// The names of items.
pub open spec fn item_names(items: Seq<EntryView>) -> Seq<Seq<char>> {
    items.map_values(|e: EntryView| e.name)
}

/// The items whose names are among those given, or are not, as `among` says.
pub open spec fn items_named(items: Seq<EntryView>, names: Seq<Seq<char>>, among: bool) -> Seq<
    EntryView,
>
    decreases items.len(),
{
    if items.len() == 0 {
        Seq::empty()
    } else {
        let rest = items_named(items.drop_last(), names, among);
        if names.contains(items.last().name) == among {
            rest.push(items.last())
        } else {
            rest
        }
    }
}

fn select_items(items: &Vec<CdpLocalStorageEntry>, names: &Vec<String>, among: bool) -> (r: Vec<
    CdpLocalStorageEntry,
>)
    ensures
        entry_views(r@) == items_named(entry_views(items@), texts(names@), among),
{
    let ghost all = entry_views(items@);
    let mut out: Vec<CdpLocalStorageEntry> = Vec::new();
    let mut i: usize = 0;
    assert(all.take(0) =~= Seq::<EntryView>::empty());
    assert(entry_views(out@) =~= Seq::<EntryView>::empty());
    while i < items.len()
        invariant
            i <= items@.len(),
            all == entry_views(items@),
            entry_views(out@) == items_named(all.take(i as int), texts(names@), among),
        decreases items@.len() - i,
    {
        assert(all.take(i + 1).drop_last() =~= all.take(i as int));
        assert(all.take(i + 1).last() == items@[i as int]@);
        if holds(names, items[i].name.as_str()) == among {
            let ghost before = entry_views(out@);
            out.push(items[i].clone());
            assert(entry_views(out@) =~= before.push(items@[i as int]@));
        }
        i = i + 1;
    }
    assert(all.take(i as int) =~= all);
    out
}

/// The names of items.
pub fn names_of(items: &Vec<CdpLocalStorageEntry>) -> (r: Vec<String>)
    ensures
        texts(r@) == item_names(entry_views(items@)),
{
    let ghost all = item_names(entry_views(items@));
    let mut out: Vec<String> = Vec::new();
    let mut i: usize = 0;
    assert(texts(out@) =~= all.take(0));
    while i < items.len()
        invariant
            i <= items@.len(),
            all == item_names(entry_views(items@)),
            texts(out@) == all.take(i as int),
        decreases items@.len() - i,
    {
        push_text(&mut out, items[i].name.clone());
        assert(all.take(i as int).push(items@[i as int].name@) =~= all.take(i + 1));
        i = i + 1;
    }
    assert(all.take(i as int) =~= all);
    out
}

/// The items that are named as written.
pub fn written_items(items: &Vec<CdpLocalStorageEntry>, names: &Vec<String>) -> (r: Vec<
    CdpLocalStorageEntry,
>)
    ensures
        entry_views(r@) == items_named(entry_views(items@), texts(names@), true),
{
    select_items(items, names, true)
}

/// The items of which none of the same name is written.
pub fn missing_items(
    items: &Vec<CdpLocalStorageEntry>,
    written: &Vec<CdpLocalStorageEntry>,
) -> (r: Vec<CdpLocalStorageEntry>)
    ensures
        entry_views(r@) == items_named(
            entry_views(items@),
            item_names(entry_views(written@)),
            false,
        ),
{
    let names: Vec<String> = names_of(written);
    select_items(items, &names, false)
}

/// A list ordered by name with an item put at its place, unless its name is there already.
pub open spec fn with_item(list: Seq<EntryView>, e: EntryView) -> Seq<EntryView>
    decreases list.len(),
{
    if list.len() == 0 {
        seq![e]
    } else if list[0].name == e.name {
        list
    } else if before(e.name, list[0].name) {
        seq![e] + list
    } else {
        seq![list[0]] + with_item(list.skip(1), e)
    }
}

/// The items ordered by name; of those with one name the first.
pub open spec fn merged(items: Seq<EntryView>) -> Seq<EntryView>
    decreases items.len(),
{
    if items.len() == 0 {
        Seq::empty()
    } else {
        with_item(merged(items.drop_last()), items.last())
    }
}

proof fn lemma_item_at(list: Seq<EntryView>, e: EntryView, k: int)
    requires
        0 <= k <= list.len(),
        forall|j: int|
            0 <= j < k ==> (#[trigger] list[j]).name != e.name && !before(e.name, list[j].name),
    ensures
        with_item(list, e) == list.take(k) + with_item(list.skip(k), e),
    decreases k,
{
    if k == 0 {
        assert(list.skip(0) =~= list);
        assert(with_item(list, e) =~= list.take(0) + with_item(list.skip(0), e));
    } else {
        let rest = list.skip(1);
        assert forall|j: int| 0 <= j < k - 1 implies (#[trigger] rest[j]).name != e.name && !before(
            e.name,
            rest[j].name,
        ) by {
            assert(rest[j] == list[j + 1]);
        }
        lemma_item_at(rest, e, k - 1);
        assert(list[0].name != e.name);
        assert(rest.skip(k - 1) =~= list.skip(k));
        assert(list.take(k) =~= seq![list[0]] + rest.take(k - 1));
        assert(with_item(list, e) =~= list.take(k) + with_item(list.skip(k), e));
    }
}

fn insert_item(list: &mut Vec<CdpLocalStorageEntry>, e: CdpLocalStorageEntry)
    ensures
        entry_views(final(list)@) == with_item(entry_views(old(list)@), e@),
{
    let ghost all = entry_views(list@);
    let mut k: usize = 0;
    while k < list.len()
        invariant
            k <= list@.len(),
            all == entry_views(list@),
            list@ == old(list)@,
            forall|j: int|
                0 <= j < k ==> (#[trigger] all[j]).name != e@.name && !before(e@.name, all[j].name),
        decreases list@.len() - k,
    {
        if str_eq(list[k].name.as_str(), e.name.as_str()) {
            proof {
                lemma_item_at(all, e@, k as int);
                assert(all.skip(k as int)[0].name == e@.name);
                assert(all.take(k as int) + all.skip(k as int) =~= all);
            }
            return;
        }
        if is_before(e.name.as_str(), list[k].name.as_str()) {
            let ghost view = e@;
            proof {
                lemma_item_at(all, e@, k as int);
                assert(all.skip(k as int)[0] == list@[k as int]@);
                assert(all.take(k as int) + (seq![view] + all.skip(k as int)) =~= all.insert(
                    k as int,
                    view,
                ));
            }
            list.insert(k, e);
            assert(entry_views(list@) =~= all.insert(k as int, view));
            return;
        }
        k = k + 1;
    }
    let ghost view = e@;
    proof {
        lemma_item_at(all, e@, k as int);
        assert(all.take(k as int) + seq![view] =~= all.push(view));
    }
    list.push(e);
    assert(entry_views(list@) =~= all.push(view));
}

/// The items ordered by name; of those with one name the first.
pub fn merge_items(items: Vec<CdpLocalStorageEntry>) -> (r: Vec<CdpLocalStorageEntry>)
    ensures
        entry_views(r@) == merged(entry_views(items@)),
{
    let ghost all = entry_views(items@);
    let mut out: Vec<CdpLocalStorageEntry> = Vec::new();
    let mut i: usize = 0;
    assert(all.take(0) =~= Seq::<EntryView>::empty());
    assert(entry_views(out@) =~= Seq::<EntryView>::empty());
    while i < items.len()
        invariant
            i <= items@.len(),
            all == entry_views(items@),
            entry_views(out@) == merged(all.take(i as int)),
        decreases items@.len() - i,
    {
        assert(all.take(i + 1).drop_last() =~= all.take(i as int));
        assert(all.take(i + 1).last() == items@[i as int]@);
        insert_item(&mut out, items[i].clone());
        i = i + 1;
    }
    assert(all.take(i as int) =~= all);
    out
}

/// What counts as written to a storage once `items` are: nothing where there are none, nor
/// while a second try for the items that are missing is still to come.
pub open spec fn counted(storage: StorageView, items: Seq<EntryView>, again: bool) -> Option<
    StorageView,
> {
    let missing = items_named(storage.items, item_names(items), false);
    if items.len() > 0 && (again || missing.len() == 0) {
        Some(StorageView { items: merged(items), ..storage })
    } else {
        None
    }
}

/// What counts as written to a storage once `items` are; `again` tells that the second try
/// was made.
pub fn written_now(
    storage: &CdpLocalStorageParam,
    items: Vec<CdpLocalStorageEntry>,
    again: bool,
) -> (r: Option<CdpLocalStorageParam>)
    ensures
        match r {
            Some(s) => counted(storage@, entry_views(items@), again) == Some(s@),
            None => counted(storage@, entry_views(items@), again) is None,
        },
{
    let missing: Vec<CdpLocalStorageEntry> = missing_items(&storage.items, &items);
    assert(entry_views(items@).len() == items@.len());
    assert(entry_views(missing@).len() == missing@.len());
    if items.len() > 0 && (again || missing.len() == 0) {
        Some(
            CdpLocalStorageParam {
                host: storage.host.clone(),
                origin: storage.origin.clone(),
                items: merge_items(items),
            },
        )
    } else {
        None
    }
}

proof fn lemma_item_names(list: Seq<EntryView>, e: EntryView)
    ensures
        item_names(with_item(list, e)) == with_inserted(item_names(list), e.name),
    decreases list.len(),
{
    if list.len() > 0 {
        assert(item_names(list)[0] == list[0].name);
        if list[0].name != e.name && !before(e.name, list[0].name) {
            lemma_item_names(list.skip(1), e);
            assert(item_names(list).skip(1) =~= item_names(list.skip(1)));
        }
    }
    assert(item_names(with_item(list, e)) =~= with_inserted(item_names(list), e.name));
}

/// The names of merged items are those of the items, each once and in rising order.
pub proof fn merged_names_rise(items: Seq<EntryView>)
    ensures
        item_names(merged(items)) == sorted_distinct(item_names(items)),
        rising(item_names(merged(items))),
    decreases items.len(),
{
    if items.len() > 0 {
        merged_names_rise(items.drop_last());
        lemma_item_names(merged(items.drop_last()), items.last());
        assert(item_names(items).drop_last() =~= item_names(items.drop_last()));
        assert(item_names(items).last() == items.last().name);
    } else {
        assert(item_names(merged(items)) =~= sorted_distinct(item_names(items)));
    }
    sorted_distinct_is_sorted_set(item_names(items));
}

/// The first item of a name.
pub open spec fn first_named(items: Seq<EntryView>, name: Seq<char>) -> Option<EntryView>
    decreases items.len(),
{
    if items.len() == 0 {
        None
    } else {
        match first_named(items.drop_last(), name) {
            Some(e) => Some(e),
            None => if items.last().name == name {
                Some(items.last())
            } else {
                None
            },
        }
    }
}

proof fn lemma_first_named(items: Seq<EntryView>, name: Seq<char>)
    ensures
        first_named(items, name) is Some <==> item_names(items).contains(name),
    decreases items.len(),
{
    if items.len() > 0 {
        let head = items.drop_last();
        lemma_first_named(head, name);
        if item_names(items).contains(name) {
            let k = choose|k: int| 0 <= k < items.len() && item_names(items)[k] == name;
            if k < head.len() {
                assert(item_names(head)[k] == name);
            }
        }
        if item_names(head).contains(name) {
            let k = choose|k: int| 0 <= k < head.len() && item_names(head)[k] == name;
            assert(item_names(items)[k] == name);
        }
        if items.last().name == name {
            assert(item_names(items)[items.len() - 1] == name);
        }
    }
}

proof fn lemma_with_item_members(list: Seq<EntryView>, e: EntryView, k: int)
    requires
        0 <= k < with_item(list, e).len(),
    ensures
        list.contains(with_item(list, e)[k]) || (with_item(list, e)[k] == e && !item_names(
            list,
        ).contains(e.name)) || !rising(item_names(list)),
    decreases list.len(),
{
    let out = with_item(list, e);
    if list.len() == 0 {
    } else if list[0].name == e.name {
        assert(list.contains(list[k]));
    } else if before(e.name, list[0].name) {
        if k > 0 {
            assert(list.contains(list[k - 1]));
        } else if rising(item_names(list)) && item_names(list).contains(e.name) {
            let j = choose|j: int| 0 <= j < list.len() && item_names(list)[j] == e.name;
            crate::order::before_irreflexive(e.name);
            assert(item_names(list)[0] == list[0].name);
            if j > 0 {
                assert(before(item_names(list)[0], item_names(list)[j]));
                crate::order::before_transitive(e.name, list[0].name, e.name);
            }
        }
    } else {
        let rest = list.skip(1);
        if k == 0 {
            assert(list.contains(list[0]));
        } else {
            lemma_with_item_members(rest, e, k - 1);
            if rising(item_names(list)) {
                assert forall|i: int, j: int| 0 <= i < j < item_names(rest).len() implies before(
                    #[trigger] item_names(rest)[i],
                    #[trigger] item_names(rest)[j],
                ) by {
                    assert(item_names(rest)[i] == item_names(list)[i + 1]);
                    assert(item_names(rest)[j] == item_names(list)[j + 1]);
                }
                if rest.contains(out[k]) {
                    let j = choose|j: int| 0 <= j < rest.len() && rest[j] == out[k];
                    assert(list[j + 1] == out[k]);
                } else if item_names(list).contains(e.name) {
                    let j = choose|j: int| 0 <= j < list.len() && item_names(list)[j] == e.name;
                    if j > 0 {
                        assert(item_names(rest)[j - 1] == e.name);
                    }
                }
            }
        }
    }
}

/// Of the items with one name the first is kept.
pub proof fn merged_keeps_the_first(items: Seq<EntryView>, k: int)
    requires
        0 <= k < merged(items).len(),
    ensures
        first_named(items, merged(items)[k].name) == Some(merged(items)[k]),
    decreases items.len(),
{
    let head = items.drop_last();
    let list = merged(head);
    let e = items.last();
    let x = merged(items)[k];
    merged_names_rise(head);
    lemma_with_item_members(list, e, k);
    if list.contains(x) {
        let j = choose|j: int| 0 <= j < list.len() && list[j] == x;
        merged_keeps_the_first(head, j);
    } else {
        lemma_first_named(head, e.name);
        sorted_distinct_is_sorted_set(item_names(head));
    }
}

/// An item is written under each of its names until it is read back: a refused write and one
/// that cannot be read back are followed by the next name, and only after the last one is the
/// item given up.
pub proof fn item_is_tried_under_every_name(s: ItemModel, event: ItemEventView)
    requires
        s.well_formed(),
        s.awaits(event),
    ensures
        ({
            let (t, action) = s.next(event);
            let name = match s.phase {
                ItemPhase::Setting { name } => name as int,
                ItemPhase::Evaluating { name } => name as int,
                _ => 0,
            };
            let refused = event == ItemEventView::Answer(false) && (s.phase is Setting
                || s.phase is Evaluating);
            &&& refused && name + 1 < s.ids.len() ==> action == (ItemAction::Write {
                name: (name + 1) as usize,
            })
            &&& refused && name + 1 == s.ids.len() ==> action == (ItemAction::Finish {
                written: false,
            })
            &&& action == (ItemAction::Finish { written: false }) ==> refused
            &&& s.phase is Naming ==> action == (ItemAction::Write { name: 0 })
            &&& action == (ItemAction::Finish { written: true }) <==> event
                == ItemEventView::Answer(true) && (s.phase is Reading || s.phase is Evaluating)
            &&& action is GetKey <==> s.phase is Setting && event == ItemEventView::Answer(true)
            &&& s.phase is Renaming ==> action == (ItemAction::Read { read: 0 })
            &&& s.phase is Reading && event == ItemEventView::Answer(false)
                && s.phase->Reading_read + 1 < s.read_ids.len() ==> action == (ItemAction::Read {
                read: (s.phase->Reading_read + 1) as usize,
            })
            &&& action is Evaluate <==> s.phase is Reading && event == ItemEventView::Answer(false)
                && s.phase->Reading_read + 1 == s.read_ids.len()
            &&& t.origin == s.origin
            &&& event matches ItemEventView::Key(key) ==> if s.phase is Naming {
                t.ids == storage_names(key, s.origin)
            } else {
                t.read_ids == storage_names(key, s.origin)
            }
        }),
{
}

/// The storage of an origin is named by the key of the page where it is known, by the origin,
/// and by the key that the origin stands for, none of them twice.
pub proof fn storage_has_its_names(current: Option<Seq<char>>, origin: Seq<char>)
    ensures
        ({
            let names = storage_names(current, origin);
            &&& names.no_duplicates()
            &&& names.contains(StorageIdView::Origin(origin))
            &&& names.contains(StorageIdView::Key(trim_end_of(origin, '/') + "/"@))
            &&& current matches Some(key) ==> names[0] == StorageIdView::Key(key)
            &&& current is None ==> names[0] == StorageIdView::Origin(origin)
            &&& forall|id: StorageIdView| #[trigger]
                names.contains(id) ==> id == StorageIdView::Origin(origin) || id
                    == StorageIdView::Key(trim_end_of(origin, '/') + "/"@) || (
                current matches Some(key) && id == StorageIdView::Key(key))
        }),
{
    let names = storage_names(current, origin);
    let own = trim_end_of(origin, '/') + "/"@;
    match current {
        Some(key) => {
            assert(names[1] == StorageIdView::Origin(origin));
            if key == own {
                assert(names[0] == StorageIdView::Key(own));
            } else {
                assert(names[2] == StorageIdView::Key(own));
            }
        },
        None => {
            assert(names[0] == StorageIdView::Origin(origin));
            assert(names[1] == StorageIdView::Key(own));
        },
    }
}

/// The items that are written, or those that are missing, are those whose names are among the
/// names that were told, or are not.
pub proof fn items_are_told_by_their_names(
    items: Seq<EntryView>,
    names: Seq<Seq<char>>,
    among: bool,
)
    ensures
        forall|e: EntryView| #[trigger]
            items_named(items, names, among).contains(e) <==> items.contains(e) && names.contains(
                e.name,
            ) == among,
        items_named(items, names, true).len() + items_named(items, names, false).len()
            == items.len(),
    decreases items.len(),
{
    if items.len() > 0 {
        let head = items.drop_last();
        let all = items_named(items, names, among);
        let rest = items_named(head, names, among);
        items_are_told_by_their_names(head, names, among);
        assert forall|e: EntryView| #[trigger] all.contains(e) <==> items.contains(e)
            && names.contains(e.name) == among by {
            if all.contains(e) {
                let k = choose|k: int| 0 <= k < all.len() && all[k] == e;
                if k < rest.len() {
                    assert(rest.contains(rest[k]));
                    let i = choose|i: int| 0 <= i < head.len() && head[i] == e;
                    assert(items[i] == e);
                } else {
                    assert(items[items.len() - 1] == e);
                }
            }
            if items.contains(e) && names.contains(e.name) == among {
                let i = choose|i: int| 0 <= i < items.len() && items[i] == e;
                if i < head.len() {
                    assert(head[i] == e);
                    assert(head.contains(e));
                    assert(rest.contains(e));
                    let k = choose|k: int| 0 <= k < rest.len() && rest[k] == e;
                    assert(all[k] == e);
                } else {
                    assert(all[all.len() - 1] == e);
                }
            }
        }
    }
}

/// A storage counts as written once nothing of it is missing, or on the second time; it then
/// counts with the items that were written, and without any it does not count.
pub proof fn storage_counts_when_written(storage: StorageView, items: Seq<EntryView>, again: bool)
    ensures
        counted(storage, items, again) is Some <==> items.len() > 0 && (again || forall|i: int|
            0 <= i < storage.items.len() ==> item_names(items).contains(
                (#[trigger] storage.items[i]).name,
            )),
        counted(storage, items, again) matches Some(s) ==> s.host == storage.host && s.origin
            == storage.origin && s.items == merged(items),
{
    let names = item_names(items);
    let missing = items_named(storage.items, names, false);
    items_are_told_by_their_names(storage.items, names, false);
    if missing.len() > 0 {
        assert(missing.contains(missing[0]));
        let i = choose|i: int| 0 <= i < storage.items.len() && storage.items[i] == missing[0];
        assert(!names.contains(storage.items[i].name));
    } else {
        assert forall|i: int| 0 <= i < storage.items.len() implies names.contains(
            (#[trigger] storage.items[i]).name,
        ) by {
            assert(storage.items.contains(storage.items[i]));
            if !names.contains(storage.items[i].name) {
                assert(missing.contains(storage.items[i]));
            }
        }
    }
}

} // verus!
