//! Translation tables between the static command ids the host uses and the
//! dynamic ids the MCU assigns.
use vstd::prelude::*;
use crate::commands::{
    recv_command_id_for_name, send_command_id_for_name, spec_index_of_name, spec_recv_names,
    spec_send_names,
};
use crate::strutil::{first_token, spec_first_token};

verus! {

/// Offset applied to dynamic receive ids so that ids from -32 up index the table.
pub const DYNAMIC_ID_OFFSET: i16 = 32;

/// Number of static send command ids.
pub const MAX_SEND_STATIC_ID: usize = 107;

/// Size of the receive table: dynamic ids from -32 to 149.
pub const MAX_RECV_DYNAMIC_ID: usize = 182;

/// The dynamic id that static id `static_id` maps to in table `t`, if any.
/// Unmapped entries hold `i16::MAX`.
pub open spec fn spec_dynamic_id(t: Seq<i16>, static_id: int) -> Option<i16> {
    if 0 <= static_id < 107 && static_id < t.len() && t[static_id] != i16::MAX {
        Some(t[static_id])
    } else {
        None
    }
}

/// The static id that dynamic id `dynamic_id` maps to in table `t`, if any.
/// Entries are indexed by `dynamic_id + 32`; unmapped ones hold `u8::MAX`.
pub open spec fn spec_static_id(t: Seq<u8>, dynamic_id: int) -> Option<u8> {
    let idx = dynamic_id + 32;
    if 0 <= idx < 182 && idx < t.len() && t[idx] != u8::MAX {
        Some(t[idx])
    } else {
        None
    }
}

/// An empty send table.
pub open spec fn spec_empty_send() -> Seq<i16> {
    Seq::new(107, |i: int| i16::MAX)
}

/// An empty receive table.
pub open spec fn spec_empty_recv() -> Seq<u8> {
    Seq::new(182, |i: int| u8::MAX)
}

/// The send table that a list of `(format, dynamic id)` entries describes:
/// each entry's command name is the first word of its format; entries whose
/// name is not a known send command are skipped; later entries win.
pub open spec fn spec_send_from_entries(entries: Seq<(Seq<char>, i16)>) -> Seq<i16>
    decreases entries.len(),
{
    if entries.len() == 0 {
        spec_empty_send()
    } else {
        let t = spec_send_from_entries(entries.drop_last());
        let e = entries.last();
        let id = spec_index_of_name(spec_send_names(), spec_first_token(e.0), 0);
        if id == 0xffff {
            t
        } else {
            t.update(id as int, e.1)
        }
    }
}

/// The receive table that a list of `(format, dynamic id)` entries describes.
pub open spec fn spec_recv_from_entries(entries: Seq<(Seq<char>, i16)>) -> Seq<u8>
    decreases entries.len(),
{
    if entries.len() == 0 {
        spec_empty_recv()
    } else {
        let t = spec_recv_from_entries(entries.drop_last());
        let e = entries.last();
        let id = spec_index_of_name(spec_recv_names(), spec_first_token(e.0), 0);
        if id == 0xffff {
            t
        } else {
            t.update(e.1 + 32, id as u8)
        }
    }
}

/// Every entry naming a known receive command carries a dynamic id the table can hold.
pub open spec fn recv_entries_in_range(entries: Seq<(Seq<char>, i16)>) -> bool {
    forall|k: int| 0 <= k < entries.len()
        && spec_index_of_name(spec_recv_names(), spec_first_token(#[trigger] entries[k].0), 0) != 0xffff
        ==> -32 <= entries[k].1 < 150
}

/// Maps static send command ids to the dynamic ids the MCU assigned.
#[derive(Clone)]
pub struct DictionarySend {
    from_static_id: Vec<i16>,
}

impl View for DictionarySend {
    type V = Seq<i16>;

    closed spec fn view(&self) -> Seq<i16> {
        self.from_static_id@
    }
}

impl DictionarySend {
    /// The table has one entry per static send id.
    pub closed spec fn wf(&self) -> bool {
        self.from_static_id@.len() == 107
    }

    /// Well formed exactly when the table has one entry per static send id.
    pub proof fn lemma_wf(&self)
        ensures
            self.wf() <==> self@.len() == 107,
    {
    }

    /// A dictionary with no mappings.
    pub fn new() -> (d: DictionarySend)
        ensures
            d.wf(),
            d@ == spec_empty_send(),
    {
        let mut v: Vec<i16> = Vec::new();
        let mut i: usize = 0;
        while i < MAX_SEND_STATIC_ID
            invariant
                i <= 107,
                v@ == Seq::new(i as nat, |k: int| i16::MAX),
            decreases 107 - i,
        {
            v.push(i16::MAX);
            i += 1;
            assert(v@ =~= Seq::new(i as nat, |k: int| i16::MAX));
        }
        DictionarySend { from_static_id: v }
    }

    /// A dictionary where only `identify` (static id 0) is mapped, to dynamic id 1.
    pub fn default_dict() -> (d: DictionarySend)
        ensures
            d.wf(),
            d@ == spec_empty_send().update(0, 1),
    {
        let mut dict = DictionarySend::new();
        let id = send_command_id_for_name("identify");
        assert(spec_send_names()[0]@ == "identify"@);
        assert(id == 0);
        dict.add_definition(id as u8, 1);
        dict
    }

    /// The dynamic id of static id `static_id`; `None` when it is out of
    /// range or not registered.
    pub fn get_dynamic_id(&self, static_id: u8) -> (r: Option<i16>)
        requires
            self.wf(),
        ensures
            r == spec_dynamic_id(self@, static_id as int),
    {
        let static_id = static_id as usize;
        if static_id >= MAX_SEND_STATIC_ID {
            return None;
        }
        let dynamic_id = self.from_static_id[static_id];
        if dynamic_id != i16::MAX {
            Some(dynamic_id)
        } else {
            None
        }
    }

    /// Maps static id `static_id` to `dynamic_id`.
    pub fn add_definition(&mut self, static_id: u8, dynamic_id: i16)
        requires
            old(self).wf(),
            (static_id as usize) < MAX_SEND_STATIC_ID,
        ensures
            final(self).wf(),
            final(self)@ == old(self)@.update(static_id as int, dynamic_id),
    {
        self.from_static_id.set(static_id as usize, dynamic_id);
    }

    /// Builds the dictionary from `(format, dynamic id)` entries, such as those
    /// of the identify data's `commands` object.
    pub fn from_entries(entries: &Vec<(String, i16)>) -> (d: DictionarySend)
        ensures
            d.wf(),
            d@ == spec_send_from_entries(entries@.map_values(|e: (String, i16)| (e.0@, e.1))),
    {
        let ghost es = entries@.map_values(|e: (String, i16)| (e.0@, e.1));
        let mut dict = DictionarySend::new();
        let mut i: usize = 0;
        while i < entries.len()
            invariant
                i <= entries@.len(),
                es == entries@.map_values(|e: (String, i16)| (e.0@, e.1)),
                dict.wf(),
                dict@ == spec_send_from_entries(es.subrange(0, i as int)),
            decreases entries.len() - i,
        {
            let fmt = entries[i].0.as_str();
            let name = first_token(fmt);
            let static_id = send_command_id_for_name(name);
            assert(es.subrange(0, i + 1).drop_last() =~= es.subrange(0, i as int));
            assert(es.subrange(0, i + 1).last() == es[i as int]);
            if static_id != u16::MAX {
                proof { lemma_index_of_name_bound(spec_send_names(), name@, 0); }
                dict.add_definition(static_id as u8, entries[i].1);
            }
            i += 1;
        }
        assert(es.subrange(0, i as int) =~= es);
        dict
    }
}

/// A found index lies inside the table.
pub proof fn lemma_index_of_name_bound(names: Seq<&'static str>, name: Seq<char>, i: int)
    requires
        names.len() < 0xffff,
    ensures
        spec_index_of_name(names, name, i) == 0xffff
            || (0 <= spec_index_of_name(names, name, i) < names.len()
                && names[spec_index_of_name(names, name, i) as int]@ == name),
    decreases names.len() - i,
{
    if i >= 0 && i < names.len() && names[i]@ != name {
        lemma_index_of_name_bound(names, name, i + 1);
    }
}

/// Maps dynamic receive ids back to static receive command ids.
#[derive(Clone)]
pub struct DictionaryRecv {
    to_static_id: Vec<u8>,
}

impl View for DictionaryRecv {
    type V = Seq<u8>;

    closed spec fn view(&self) -> Seq<u8> {
        self.to_static_id@
    }
}

impl DictionaryRecv {
    /// The table has one entry per dynamic id from -32 to 149.
    pub closed spec fn wf(&self) -> bool {
        self.to_static_id@.len() == 182
    }

    /// Well formed exactly when the table has one entry per dynamic id from
    /// -32 to 149.
    pub proof fn lemma_wf(&self)
        ensures
            self.wf() <==> self@.len() == 182,
    {
    }

    /// A dictionary with no mappings.
    pub fn new() -> (d: DictionaryRecv)
        ensures
            d.wf(),
            d@ == spec_empty_recv(),
    {
        let mut v: Vec<u8> = Vec::new();
        let mut i: usize = 0;
        while i < MAX_RECV_DYNAMIC_ID
            invariant
                i <= 182,
                v@ == Seq::new(i as nat, |k: int| u8::MAX),
            decreases 182 - i,
        {
            v.push(u8::MAX);
            i += 1;
            assert(v@ =~= Seq::new(i as nat, |k: int| u8::MAX));
        }
        DictionaryRecv { to_static_id: v }
    }

    /// A dictionary where only dynamic id 0 is mapped, to `identify_response`
    /// (static id 0).
    pub fn default_dict() -> (d: DictionaryRecv)
        ensures
            d.wf(),
            d@ == spec_empty_recv().update(32, 0),
    {
        let mut dict = DictionaryRecv::new();
        let id = recv_command_id_for_name("identify_response");
        assert(spec_recv_names()[0]@ == "identify_response"@);
        assert(id == 0);
        dict.add_definition(id as u8, 0);
        dict
    }

    /// The static id of dynamic id `dynamic_id`; `None` when `dynamic_id + 32`
    /// falls outside the table or is not registered.
    pub fn get_static_id(&self, dynamic_id: i16) -> (r: Option<u8>)
        requires
            self.wf(),
        ensures
            r == spec_static_id(self@, dynamic_id as int),
    {
        let idx = dynamic_id as i32 + DYNAMIC_ID_OFFSET as i32;
        if idx < 0 || idx >= MAX_RECV_DYNAMIC_ID as i32 {
            return None;
        }
        let static_id = self.to_static_id[idx as usize];
        if static_id != u8::MAX {
            Some(static_id)
        } else {
            None
        }
    }

    /// Maps dynamic id `dynamic_id` to static id `static_id`.
    pub fn add_definition(&mut self, static_id: u8, dynamic_id: i16)
        requires
            old(self).wf(),
            (static_id as usize) < MAX_SEND_STATIC_ID,
            -32 <= dynamic_id < 150,
        ensures
            final(self).wf(),
            final(self)@ == old(self)@.update(dynamic_id + 32, static_id),
    {
        self.to_static_id.set((dynamic_id + DYNAMIC_ID_OFFSET) as usize, static_id);
    }

    /// Builds the dictionary from `(format, dynamic id)` entries, such as those
    /// of the identify data's `responses` object.
    pub fn from_entries(entries: &Vec<(String, i16)>) -> (d: DictionaryRecv)
        requires
            recv_entries_in_range(entries@.map_values(|e: (String, i16)| (e.0@, e.1))),
        ensures
            d.wf(),
            d@ == spec_recv_from_entries(entries@.map_values(|e: (String, i16)| (e.0@, e.1))),
    {
        let ghost es = entries@.map_values(|e: (String, i16)| (e.0@, e.1));
        let mut dict = DictionaryRecv::new();
        let mut i: usize = 0;
        while i < entries.len()
            invariant
                i <= entries@.len(),
                es == entries@.map_values(|e: (String, i16)| (e.0@, e.1)),
                recv_entries_in_range(es),
                dict.wf(),
                dict@ == spec_recv_from_entries(es.subrange(0, i as int)),
            decreases entries.len() - i,
        {
            let fmt = entries[i].0.as_str();
            let name = first_token(fmt);
            let static_id = recv_command_id_for_name(name);
            assert(es.subrange(0, i + 1).drop_last() =~= es.subrange(0, i as int));
            assert(es.subrange(0, i + 1).last() == es[i as int]);
            if static_id != u16::MAX {
                proof {
                    lemma_index_of_name_bound(spec_recv_names(), name@, 0);
                    assert(es[i as int].0 == fmt@);
                }
                dict.add_definition(static_id as u8, entries[i].1);
            }
            i += 1;
        }
        assert(es.subrange(0, i as int) =~= es);
        dict
    }
}

/// After mapping `static_id` to `dynamic_id`, looking up `static_id` gives
/// `dynamic_id` (unless it is the `i16::MAX` marker) and every other
/// lookup is unchanged.
pub proof fn lemma_send_read_after_write(t: Seq<i16>, static_id: int, dynamic_id: i16, other: int)
    requires
        t.len() == 107,
        0 <= static_id < 107,
    ensures
        spec_dynamic_id(t.update(static_id, dynamic_id), static_id)
            == (if dynamic_id != i16::MAX { Some(dynamic_id) } else { None::<i16> }),
        other != static_id ==> spec_dynamic_id(t.update(static_id, dynamic_id), other) == spec_dynamic_id(t, other),
{
}

/// After mapping dynamic id `dynamic_id` to `static_id`, looking up
/// `dynamic_id` gives `static_id` (unless it is the `u8::MAX` marker) and
/// every other lookup is unchanged.
pub proof fn lemma_recv_read_after_write(t: Seq<u8>, static_id: u8, dynamic_id: int, other: int)
    requires
        t.len() == 182,
        -32 <= dynamic_id < 150,
    ensures
        spec_static_id(t.update(dynamic_id + 32, static_id), dynamic_id)
            == (if static_id != u8::MAX { Some(static_id) } else { None::<u8> }),
        other != dynamic_id ==> spec_static_id(t.update(dynamic_id + 32, static_id), other) == spec_static_id(t, other),
{
}

/// On any well-formed send dictionary, `add_definition` followed by
/// `get_dynamic_id` gives back the dynamic id written (unless it is the
/// `i16::MAX` marker), and every other static id keeps its lookup.
pub proof fn lemma_send_dictionary_add_get(before: DictionarySend, after: DictionarySend, static_id: u8, dynamic_id: i16, other: int)
    requires
        before.wf(),
        static_id < 107,
        after@ == before@.update(static_id as int, dynamic_id),
    ensures
        after.wf(),
        spec_dynamic_id(after@, static_id as int) == (if dynamic_id != i16::MAX { Some(dynamic_id) } else { None::<i16> }),
        other != static_id ==> spec_dynamic_id(after@, other) == spec_dynamic_id(before@, other),
{
    before.lemma_wf();
    after.lemma_wf();
    lemma_send_read_after_write(before@, static_id as int, dynamic_id, other);
}

/// On any well-formed receive dictionary, `add_definition` followed by
/// `get_static_id` gives back the static id written (unless it is the
/// `u8::MAX` marker), and every other dynamic id keeps its lookup.
pub proof fn lemma_recv_dictionary_add_get(before: DictionaryRecv, after: DictionaryRecv, static_id: u8, dynamic_id: i16, other: int)
    requires
        before.wf(),
        -32 <= dynamic_id < 150,
        after@ == before@.update(dynamic_id + 32, static_id),
    ensures
        after.wf(),
        spec_static_id(after@, dynamic_id as int) == (if static_id != u8::MAX { Some(static_id) } else { None::<u8> }),
        other != dynamic_id ==> spec_static_id(after@, other) == spec_static_id(before@, other),
{
    before.lemma_wf();
    after.lemma_wf();
    lemma_recv_read_after_write(before@, static_id, dynamic_id as int, other);
}

} // verus!
