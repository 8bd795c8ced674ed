//! The per-model session store: one buffer record per model identifier.
use vstd::prelude::*;

verus! {

/// What a buffer record holds, as plain values.
pub struct BufferView {
    pub input: Seq<char>,
    pub cursor_pos: usize,
    pub history: Seq<char>,
    pub scroll: u16,
}

/// The saved editor and transcript state of one model.
pub struct ModelBuffer {
    pub input: String,
    pub cursor_pos: usize,
    pub history: String,
    pub scroll: u16,
}

impl View for ModelBuffer {
    type V = BufferView;

    open spec fn view(&self) -> BufferView {
        BufferView {
            input: self.input@,
            cursor_pos: self.cursor_pos,
            history: self.history@,
            scroll: self.scroll,
        }
    }
}

/// The record a model gets before anything was saved for it.
pub open spec fn empty_buffer() -> BufferView {
    BufferView { input: Seq::empty(), cursor_pos: 0, history: Seq::empty(), scroll: 0 }
}

impl ModelBuffer {
    /// An empty record: no input, cursor and scroll at zero, no transcript.
    pub fn empty() -> (r: ModelBuffer)
        ensures
            r@ == empty_buffer(),
    {
        ModelBuffer { input: String::new(), cursor_pos: 0, history: String::new(), scroll: 0 }
    }

    pub fn duplicate(&self) -> (r: ModelBuffer)
        ensures
            r@ == self@,
    {
        ModelBuffer {
            input: self.input.clone(),
            cursor_pos: self.cursor_pos,
            history: self.history.clone(),
            scroll: self.scroll,
        }
    }
}

/// A model identifier with its record.
pub struct ModelEntry {
    pub model: String,
    pub buffer: ModelBuffer,
}

/// The map that a sequence of entries describes.
pub open spec fn entries_map(s: Seq<ModelEntry>) -> Map<Seq<char>, BufferView>
    decreases s.len(),
{
    if s.len() == 0 {
        Map::empty()
    } else {
        entries_map(s.drop_last()).insert(s.last().model@, s.last().buffer@)
    }
}

/// Records keyed by model identifier, each identifier at most once.
///
/// The records sit in a `Vec` with unique identifiers rather than in a
/// `HashMap<String, _>`: over `String` keys vstd's map specification proves
/// next to nothing (not even that a lookup finds what was inserted), while
/// a vector of entries lets every operation here be proved against the map
/// view. The number of models is small, so the linear lookup costs nothing.
pub struct ModelStore {
    pub entries: Vec<ModelEntry>,
}

proof fn lemma_map_lookup(s: Seq<ModelEntry>, i: int)
    requires
        0 <= i < s.len(),
        forall|a: int, b: int| 0 <= a < b < s.len() ==> s[a].model@ != s[b].model@,
    ensures
        entries_map(s).contains_key(s[i].model@),
        entries_map(s)[s[i].model@] == s[i].buffer@,
    decreases s.len(),
{
    if i < s.len() - 1 {
        lemma_map_lookup(s.drop_last(), i);
    }
}

proof fn lemma_map_absent(s: Seq<ModelEntry>, k: Seq<char>)
    requires
        forall|a: int| 0 <= a < s.len() ==> s[a].model@ != k,
    ensures
        !entries_map(s).contains_key(k),
    decreases s.len(),
{
    if s.len() > 0 {
        lemma_map_absent(s.drop_last(), k);
    }
}

proof fn lemma_map_update(s: Seq<ModelEntry>, i: int, e: ModelEntry)
    requires
        0 <= i < s.len(),
        e.model@ == s[i].model@,
        forall|a: int, b: int| 0 <= a < b < s.len() ==> s[a].model@ != s[b].model@,
    ensures
        entries_map(s.update(i, e)) == entries_map(s).insert(e.model@, e.buffer@),
    decreases s.len(),
{
    let t = s.update(i, e);
    if i == s.len() - 1 {
        assert(t.drop_last() =~= s.drop_last());
        lemma_map_absent(s.drop_last(), e.model@);
        assert(entries_map(t) =~= entries_map(s).insert(e.model@, e.buffer@));
    } else {
        assert(t.drop_last() =~= s.drop_last().update(i, e));
        lemma_map_update(s.drop_last(), i, e);
        assert(s.last().model@ != e.model@);
        assert(entries_map(t) =~= entries_map(s).insert(e.model@, e.buffer@));
    }
}

impl ModelStore {
    /// Identifiers are unique among the entries.
    pub open spec fn wf(&self) -> bool {
        forall|a: int, b: int|
            0 <= a < b < self.entries@.len() ==> self.entries@[a].model@
                != self.entries@[b].model@
    }

    pub open spec fn view(&self) -> Map<Seq<char>, BufferView> {
        entries_map(self.entries@)
    }

    /// A store with no records.
    pub fn new() -> (r: ModelStore)
        ensures
            r.wf(),
            r.view() == Map::<Seq<char>, BufferView>::empty(),
    {
        ModelStore { entries: Vec::new() }
    }

    /// The index of the entry for `model`, if there is one.
    fn position(&self, model: &String) -> (r: Option<usize>)
        requires
            self.wf(),
        ensures
            r matches Some(i) ==> i < self.entries@.len() && self.entries@[i as int].model@
                == model@,
            r is None ==> forall|a: int|
                0 <= a < self.entries@.len() ==> self.entries@[a].model@ != model@,
    {
        let mut i: usize = 0;
        while i < self.entries.len()
            invariant
                i <= self.entries@.len(),
                forall|a: int| 0 <= a < i ==> self.entries@[a].model@ != model@,
            decreases self.entries@.len() - i,
        {
            if self.entries[i].model == *model {
                return Some(i);
            }
            i = i + 1;
        }
        None
    }

    /// The record of `model`, if the store has one.
    pub fn get(&self, model: &str) -> (r: Option<&ModelBuffer>)
        requires
            self.wf(),
        ensures
            r is Some <==> self.view().contains_key(model@),
            r matches Some(b) ==> b@ == self.view()[model@],
    {
        let key = model.to_owned();
        match self.position(&key) {
            Some(i) => {
                proof {
                    lemma_map_lookup(self.entries@, i as int);
                }
                Some(&self.entries[i].buffer)
            },
            None => {
                proof {
                    lemma_map_absent(self.entries@, model@);
                }
                None
            },
        }
    }

    /// Whether the store holds a record for `model`.
    pub fn contains(&self, model: &String) -> (r: bool)
        requires
            self.wf(),
        ensures
            r == self.view().contains_key(model@),
    {
        match self.position(model) {
            Some(i) => {
                proof {
                    lemma_map_lookup(self.entries@, i as int);
                }
                true
            },
            None => {
                proof {
                    lemma_map_absent(self.entries@, model@);
                }
                false
            },
        }
    }

    /// A copy of the record of `model`, or an empty record where it has none.
    pub fn get_or_default(&self, model: &String) -> (r: ModelBuffer)
        requires
            self.wf(),
        ensures
            r@ == (if self.view().contains_key(model@) {
                self.view()[model@]
            } else {
                empty_buffer()
            }),
    {
        match self.position(model) {
            Some(i) => {
                proof {
                    lemma_map_lookup(self.entries@, i as int);
                }
                self.entries[i].buffer.duplicate()
            },
            None => {
                proof {
                    lemma_map_absent(self.entries@, model@);
                }
                ModelBuffer::empty()
            },
        }
    }

    /// Stores `buffer` as the record of `model`, replacing any earlier one.
    pub fn put(&mut self, model: &String, buffer: ModelBuffer)
        requires
            old(self).wf(),
        ensures
            final(self).wf(),
            final(self).view() == old(self).view().insert(model@, buffer@),
    {
        match self.position(model) {
            Some(i) => {
                let e = ModelEntry { model: model.clone(), buffer };
                proof {
                    lemma_map_update(self.entries@, i as int, e);
                }
                self.entries.set(i, e);
                assert(self.entries@ =~= old(self).entries@.update(i as int, e));
            },
            None => {
                let e = ModelEntry { model: model.clone(), buffer };
                self.entries.push(e);
                assert(self.entries@.drop_last() =~= old(self).entries@);
            },
        }
    }

    /// Gives `model` an empty record unless it already has one.
    pub fn ensure(&mut self, model: &String)
        requires
            old(self).wf(),
        ensures
            final(self).wf(),
            final(self).view() == (if old(self).view().contains_key(model@) {
                old(self).view()
            } else {
                old(self).view().insert(model@, empty_buffer())
            }),
    {
        if !self.contains(model) {
            self.put(model, ModelBuffer::empty());
        }
    }
}

} // verus!
