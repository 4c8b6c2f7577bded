//! The manifest: which rectangle of the atlas belongs to which name, kept
//! in the order of the names.

use crate::geometry::Rect;
use crate::json::{json_quoted, to_vec};
use crate::names::{
    comes_before, lemma_name_not_before_itself, lemma_name_order_carries, lemma_names_ordered,
    name_before,
};
use crate::placement::{distinct_names, slots_in, Placement, Slot};
use crate::render::{
    document, entries_text, opening, put_entry, put_spaces, CLOSE_BRACE, COLON, NEWLINE,
    OPEN_BRACE, SPACE,
};
use vstd::prelude::*;

verus! {

/// A name and its rectangle, as contracts speak of an entry.
pub type Item = (Seq<char>, Rect);

/// One entry of a manifest.
#[derive(Clone, Debug)]
pub struct Entry {
    pub name: String,
    pub rect: Rect,
}

impl View for Entry {
    type V = Item;

    open spec fn view(&self) -> Item {
        (self.name@, self.rect)
    }
}

/// The entries as items, in the same order.
pub open spec fn listed(entries: Seq<Entry>) -> Seq<Item> {
    entries.map_values(|entry: Entry| entry@)
}

/// The name and rectangle of each placement, in the same order.
pub open spec fn items_of(slots: Seq<Slot>) -> Seq<Item> {
    slots.map_values(|slot: Slot| (slot.name, slot.rect))
}

/// The mapping that a sequence of items stands for. Where a name occurs
/// twice, the later item counts.
pub open spec fn frames(items: Seq<Item>) -> Map<Seq<char>, Rect>
    decreases items.len(),
{
    if items.len() == 0 {
        Map::empty()
    } else {
        frames(items.drop_last()).insert(items.last().0, items.last().1)
    }
}

/// Each item's name comes before the names of all items after it.
pub open spec fn sorted(items: Seq<Item>) -> bool {
    forall|i: int, j: int|
        0 <= i < j < items.len() ==> name_before((#[trigger] items[i]).0, (#[trigger] items[j]).0)
}

/// Whether some item carries `name`.
pub open spec fn lists(items: Seq<Item>, name: Seq<char>) -> bool {
    exists|i: int| 0 <= i < items.len() && (#[trigger] items[i]).0 == name
}

/// A mapping holds exactly the names of its items.
pub proof fn lemma_frames_names(items: Seq<Item>, name: Seq<char>)
    ensures
        frames(items).contains_key(name) <==> lists(items, name),
    decreases items.len(),
{
    if items.len() > 0 {
        let rest = items.drop_last();
        lemma_frames_names(rest, name);
        if lists(rest, name) {
            let i = choose|i: int| 0 <= i < rest.len() && (#[trigger] rest[i]).0 == name;
            assert(items[i].0 == name);
        }
        if lists(items, name) {
            let i = choose|i: int| 0 <= i < items.len() && (#[trigger] items[i]).0 == name;
            if i < rest.len() {
                assert(rest[i].0 == name);
            }
        }
        if items.last().0 == name {
            assert(items[items.len() - 1].0 == name);
        }
    }
}

/// Sorted items have names of their own.
pub proof fn lemma_sorted_names_differ(items: Seq<Item>, i: int, j: int)
    requires
        sorted(items),
        0 <= i < items.len(),
        0 <= j < items.len(),
        i != j,
    ensures
        items[i].0 != items[j].0,
{
    lemma_name_not_before_itself(items[i].0);
    if i < j {
        assert(name_before(items[i].0, items[j].0));
    } else {
        assert(name_before(items[j].0, items[i].0));
    }
}

/// Among sorted items, each name maps to the rectangle of its item.
pub proof fn lemma_frames_value(items: Seq<Item>, i: int)
    requires
        sorted(items),
        0 <= i < items.len(),
    ensures
        frames(items).contains_key(items[i].0),
        frames(items)[items[i].0] == items[i].1,
    decreases items.len(),
{
    let rest = items.drop_last();
    if i < items.len() - 1 {
        assert forall|a: int, b: int| 0 <= a < b < rest.len() implies name_before(
            (#[trigger] rest[a]).0,
            (#[trigger] rest[b]).0,
        ) by {
            assert(rest[a] == items[a] && rest[b] == items[b]);
        }
        lemma_frames_value(rest, i);
        lemma_sorted_names_differ(items, i, items.len() - 1);
    }
}

/// An item with a new name may be put anywhere: the mapping gains that one
/// name and nothing else changes.
pub proof fn lemma_frames_insert(items: Seq<Item>, at: int, item: Item)
    requires
        0 <= at <= items.len(),
        !lists(items, item.0),
    ensures
        frames(items.insert(at, item)) == frames(items).insert(item.0, item.1),
    decreases items.len() - at,
{
    let grown = items.insert(at, item);
    if at == items.len() {
        assert(grown.drop_last() =~= items);
    } else {
        let rest = items.drop_last();
        assert(grown.drop_last() =~= rest.insert(at, item));
        assert(grown.last() == items.last());
        if lists(rest, item.0) {
            let i = choose|i: int| 0 <= i < rest.len() && (#[trigger] rest[i]).0 == item.0;
            assert(items[i].0 == item.0);
        }
        lemma_frames_insert(rest, at, item);
        assert(items[items.len() - 1].0 != item.0);
        assert(frames(grown) =~= frames(items).insert(item.0, item.1));
    }
}

/// A manifest: entries in the order of their names, no name twice.
#[derive(Clone, Debug)]
pub struct Manifest {
    pub entries: Vec<Entry>,
}

impl View for Manifest {
    type V = Map<Seq<char>, Rect>;

    /// The mapping from each name to its rectangle.
    open spec fn view(&self) -> Map<Seq<char>, Rect> {
        frames(listed(self.entries@))
    }
}

impl Manifest {
    /// The items of the manifest in the order in which it keeps them.
    pub open spec fn items(&self) -> Seq<Item> {
        listed(self.entries@)
    }

    /// The entries stand in the order of their names.
    pub open spec fn wf(&self) -> bool {
        sorted(self.items())
    }

    /// The text of the manifest, where each of its names can be written
    /// as a JSON string: the entries in the order in which it keeps them,
    /// each under its name so written.
    pub open spec fn text(&self) -> Seq<u8> {
        document(quoted_names(self.items()), rects_of(self.items()))
    }

    /// A manifest without entries.
    pub fn new() -> (manifest: Manifest)
        ensures
            manifest.wf(),
            manifest@ == Map::<Seq<char>, Rect>::empty(),
            manifest.entries@.len() == 0,
    {
        Manifest { entries: Vec::new() }
    }

    /// Where an entry for `name` stands, or would have to be put: the
    /// number of entries whose names come before it.
    pub fn position(&self, name: &String) -> (at: usize)
        requires
            self.wf(),
        ensures
            at <= self.entries@.len(),
            forall|i: int| 0 <= i < at ==> name_before((#[trigger] self.items()[i]).0, name@),
            forall|i: int|
                at <= i < self.entries@.len() ==> !name_before(
                    (#[trigger] self.items()[i]).0,
                    name@,
                ),
    {
        let mut at: usize = 0;
        while at < self.entries.len() && comes_before(
            self.entries[at].name.as_str(),
            name.as_str(),
        )
            invariant
                self.wf(),
                at <= self.entries@.len(),
                forall|i: int| 0 <= i < at ==> name_before((#[trigger] self.items()[i]).0, name@),
            decreases self.entries@.len() - at,
        {
            at += 1;
        }
        proof {
            let items = self.items();
            assert forall|i: int| at <= i < items.len() implies !name_before(
                (#[trigger] items[i]).0,
                name@,
            ) by {
                if i > at && name_before(items[i].0, name@) {
                    assert(name_before(items[at as int].0, items[i].0));
                    lemma_name_order_carries(items[at as int].0, items[i].0, name@);
                }
            }
        }
        at
    }

    /// The rectangle that belongs to `name`, if the manifest has one.
    pub fn get(&self, name: &String) -> (rect: Option<Rect>)
        requires
            self.wf(),
        ensures
            rect == if self@.contains_key(name@) {
                Some(self@[name@])
            } else {
                None
            },
    {
        let at = self.position(name);
        let ghost items = self.items();
        if at < self.entries.len() && self.entries[at].name == *name {
            proof {
                lemma_frames_value(items, at as int);
            }
            Some(self.entries[at].rect)
        } else {
            proof {
                lemma_frames_names(items, name@);
                if lists(items, name@) {
                    let i = choose|i: int| 0 <= i < items.len() && (#[trigger] items[i]).0 == name@;
                    lemma_absent_beyond(items, at as int, name@, i);
                }
            }
            None
        }
    }

    /// Puts an entry for `name` in its place and returns `true`; returns
    /// `false`, with nothing changed, where the manifest has that name.
    pub fn insert(&mut self, name: String, rect: Rect) -> (fresh: bool)
        requires
            old(self).wf(),
        ensures
            final(self).wf(),
            fresh == !old(self)@.contains_key(name@),
            fresh ==> final(self)@ == old(self)@.insert(name@, rect),
            fresh ==> final(self).entries@.len() == old(self).entries@.len() + 1,
            !fresh ==> final(self).entries@ == old(self).entries@,
    {
        let at = self.position(&name);
        let ghost items = self.items();
        proof {
            lemma_frames_names(items, name@);
        }
        if at < self.entries.len() && self.entries[at].name == name {
            assert(items[at as int].0 == name@);
            return false;
        }
        proof {
            if lists(items, name@) {
                let i = choose|i: int| 0 <= i < items.len() && (#[trigger] items[i]).0 == name@;
                lemma_absent_beyond(items, at as int, name@, i);
            }
            lemma_frames_insert(items, at as int, (name@, rect));
        }
        let ghost item = (name@, rect);
        self.entries.insert(at, Entry { name, rect });
        proof {
            let grown = self.items();
            assert(grown =~= items.insert(at as int, item));
            assert forall|i: int, j: int| 0 <= i < j < grown.len() implies name_before(
                (#[trigger] grown[i]).0,
                (#[trigger] grown[j]).0,
            ) by {
                let a = if i < at { i } else { i - 1 };
                let b = if j < at { j } else { j - 1 };
                if i != at && j != at {
                    assert(grown[i] == items[a] && grown[j] == items[b]);
                    assert(name_before(items[a].0, items[b].0));
                } else if i == at {
                    assert(grown[j] == items[b]);
                    lemma_absent_beyond(items, at as int, item.0, b);
                } else {
                    assert(grown[i] == items[a]);
                }
            }
        }
        true
    }
}

/// Where `at` parts the names before `name` from the rest, and the entry at
/// `at` does not carry `name`, no entry does: every later name comes after
/// it.
pub proof fn lemma_absent_beyond(items: Seq<Item>, at: int, name: Seq<char>, i: int)
    requires
        sorted(items),
        0 <= at <= items.len(),
        forall|k: int| 0 <= k < at ==> name_before((#[trigger] items[k]).0, name),
        forall|k: int| at <= k < items.len() ==> !name_before((#[trigger] items[k]).0, name),
        at < items.len() ==> items[at].0 != name,
        0 <= i < items.len(),
    ensures
        items[i].0 != name,
        i >= at ==> name_before(name, items[i].0),
{
    if i < at {
        lemma_name_not_before_itself(name);
    } else {
        lemma_names_ordered(items[at].0, name);
        if i > at {
            assert(name_before(items[at].0, items[i].0));
            lemma_name_order_carries(name, items[at].0, items[i].0);
            lemma_name_not_before_itself(name);
        }
    }
}

/// Why the text of a manifest could not be written.
#[derive(Clone, Copy, Debug, PartialEq, Eq, Structural)]
pub enum ManifestError {
    /// A name could not be written as a JSON string.
    Unquotable,
}

/// The rectangles of the items, in the same order.
pub open spec fn rects_of(items: Seq<Item>) -> Seq<Rect> {
    items.map_values(|item: Item| item.1)
}

/// Whether every name of the items can be written as a JSON string.
pub open spec fn quotable(items: Seq<Item>) -> bool {
    forall|i: int| 0 <= i < items.len() ==> json_quoted((#[trigger] items[i]).0) is Some
}

/// The names of the items as JSON strings, in the same order.
pub open spec fn quoted_names(items: Seq<Item>) -> Seq<Seq<u8>> {
    items.map_values(|item: Item| json_quoted(item.0)->0)
}

/// The contents of a sequence of buffers, in the same order.
pub open spec fn contents(buffers: Seq<Vec<u8>>) -> Seq<Seq<u8>> {
    buffers.map_values(|buffer: Vec<u8>| buffer@)
}

impl Manifest {
    /// The names of the entries as JSON strings, in the order of the
    /// entries; `Unquotable` where one of them cannot be written as one.
    pub fn quote_names(&self) -> (result: Result<Vec<Vec<u8>>, ManifestError>)
        ensures
            result is Ok <==> quotable(self.items()),
            result is Ok ==> contents(result->Ok_0@) == quoted_names(self.items()),
            result is Err ==> result->Err_0 == ManifestError::Unquotable,
    {
        let mut quoted: Vec<Vec<u8>> = Vec::new();
        let mut i: usize = 0;
        while i < self.entries.len()
            invariant
                i <= self.entries@.len(),
                quoted@.len() == i,
                quotable(self.items().take(i as int)),
                contents(quoted@) == quoted_names(self.items().take(i as int)),
            decreases self.entries@.len() - i,
        {
            let ghost before = quoted@;
            let ghost done = self.items().take(i as int);
            match to_vec(self.entries[i].name.as_str()) {
                Err(_) => {
                    assert(self.items()[i as int].0 == self.entries@[i as int].name@);
                    return Err(ManifestError::Unquotable);
                },
                Ok(bytes) => {
                    quoted.push(bytes);
                },
            }
            i += 1;
            proof {
                let now = self.items().take(i as int);
                assert(now.drop_last() =~= done);
                assert(now.last().0 == self.entries@[i - 1].name@);
                assert(quoted@.drop_last() =~= before);
                assert forall|k: int| 0 <= k < i implies contents(quoted@)[k] == quoted_names(
                    now,
                )[k] by {
                    if k < i - 1 {
                        assert(contents(before)[k] == quoted_names(done)[k]);
                        assert(quoted@[k] == before[k]);
                        assert(now[k] == done[k]);
                    }
                }
                assert(contents(quoted@) =~= quoted_names(now));
                assert forall|k: int| 0 <= k < now.len() implies json_quoted(
                    (#[trigger] now[k]).0,
                ) is Some by {
                    if k < i - 1 {
                        assert(now[k] == done[k]);
                    }
                }
            }
        }
        assert(self.items().take(i as int) =~= self.items());
        Ok(quoted)
    }

    /// The text of the manifest, with `quoted` as the names of the entries.
    pub fn render(&self, quoted: &Vec<Vec<u8>>) -> (text: Vec<u8>)
        requires
            quoted@.len() == self.entries@.len(),
        ensures
            text@ == document(contents(quoted@), rects_of(self.items())),
    {
        let ghost names = contents(quoted@);
        let ghost rects = rects_of(self.items());
        let mut text: Vec<u8> = Vec::new();
        text.push(OPEN_BRACE);
        text.push(NEWLINE);
        put_spaces(&mut text, 2);
        text.push(0x22);
        text.push(0x66);
        text.push(0x72);
        text.push(0x61);
        text.push(0x6d);
        text.push(0x65);
        text.push(0x73);
        text.push(0x22);
        text.push(COLON);
        text.push(SPACE);
        text.push(OPEN_BRACE);
        assert(text@ =~= opening());
        let count = self.entries.len();
        if count > 0 {
            text.push(NEWLINE);
            assert(text@ =~= opening() + seq![NEWLINE] + entries_text(names, rects, 0));
            let mut i: usize = 0;
            while i < count
                invariant
                    i <= count,
                    count == self.entries@.len(),
                    count == quoted@.len(),
                    names == contents(quoted@),
                    rects == rects_of(self.items()),
                    text@ == opening() + seq![NEWLINE] + entries_text(names, rects, i as int),
                decreases count - i,
            {
                put_entry(&mut text, &quoted[i], &self.entries[i].rect, i + 1 < count);
                i += 1;
                assert(text@ =~= opening() + seq![NEWLINE] + entries_text(names, rects, i as int));
            }
            put_spaces(&mut text, 2);
        }
        text.push(CLOSE_BRACE);
        text.push(NEWLINE);
        text.push(CLOSE_BRACE);
        assert(text@ =~= document(names, rects));
        text
    }

    /// The text of the manifest: the entries in the order of their names,
    /// each name written as a JSON string; `Unquotable` where one of the
    /// names cannot be written as one.
    pub fn to_json(&self) -> (result: Result<Vec<u8>, ManifestError>)
        ensures
            result is Ok <==> quotable(self.items()),
            result is Ok ==> result->Ok_0@ == self.text(),
            result is Err ==> result->Err_0 == ManifestError::Unquotable,
    {
        match self.quote_names() {
            Err(e) => Err(e),
            Ok(quoted) => {
                assert(quoted@.len() == contents(quoted@).len());
                assert(self.entries@.len() == quoted_names(self.items()).len());
                Ok(self.render(&quoted))
            },
        }
    }
}

/// The manifest of `placements`: each name with its rectangle. `None`
/// where two placements share a name.
pub fn emit(placements: &Vec<Placement>) -> (manifest: Option<Manifest>)
    ensures
        manifest is Some <==> distinct_names(slots_in(placements@)),
        manifest is Some ==> {
            &&& manifest->0.wf()
            &&& manifest->0@ == frames(items_of(slots_in(placements@)))
            &&& manifest->0.entries@.len() == placements@.len()
        },
{
    let ghost slots = slots_in(placements@);
    let mut manifest = Manifest::new();
    let mut k: usize = 0;
    assert(items_of(slots.take(0)) =~= Seq::<Item>::empty());
    while k < placements.len()
        invariant
            k <= placements.len(),
            slots == slots_in(placements@),
            manifest.wf(),
            manifest.entries@.len() == k,
            manifest@ == frames(items_of(slots.take(k as int))),
            distinct_names(slots.take(k as int)),
        decreases placements.len() - k,
    {
        let name = placements[k].name.clone();
        let ghost done = items_of(slots.take(k as int));
        let ghost next = items_of(slots.take(k + 1));
        proof {
            lemma_frames_names(done, name@);
            assert(next.drop_last() =~= done);
            assert(next.last() == (slots[k as int].name, slots[k as int].rect));
        }
        if !manifest.insert(name, placements[k].rect) {
            proof {
                let i = choose|i: int| 0 <= i < done.len() && (#[trigger] done[i]).0 == name@;
                assert(slots[i].name == slots[k as int].name);
            }
            return None;
        }
        proof {
            assert forall|i: int, j: int| 0 <= i < j < k + 1 implies (#[trigger] slots.take(
                k + 1,
            )[i]).name != (#[trigger] slots.take(k + 1)[j]).name by {
                if j < k {
                    assert(slots.take(k as int)[i].name != slots.take(k as int)[j].name);
                } else {
                    assert(done[i].0 == slots[i].name);
                }
            }
        }
        k += 1;
    }
    assert(slots.take(k as int) =~= slots);
    Some(manifest)
}

} // verus!
