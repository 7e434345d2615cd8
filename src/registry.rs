use vstd::prelude::*;
use crate::datatype::{DataType, DataTypeView, types_view};
use crate::error::Pos;

verus! {

/// A compile-time variable: its name and declared type.
#[derive(Clone, Debug)]
pub struct Var {
    pub name: String,
    pub datatype: DataType,
}

impl Var {
    pub open spec fn entry(&self) -> (Seq<char>, DataTypeView) {
        (self.name@, self.datatype@)
    }
}

/// A channel endpoint, keyed by program name and channel name, with the
/// element types it carries and where it was declared or first used.
#[derive(Clone, Debug)]
pub struct ChannelEntry {
    pub program: String,
    pub channel: String,
    pub datatypes: Vec<DataType>,
    pub pos: Pos,
}

/// A channel endpoint key: (program name, channel name).
pub type ChannelKey = (Seq<char>, Seq<char>);

/// What is recorded of an endpoint: its element types and a position.
pub type ChannelInfo = (Seq<DataTypeView>, Pos);

impl ChannelEntry {
    pub open spec fn key(&self) -> ChannelKey {
        (self.program@, self.channel@)
    }

    pub open spec fn info(&self) -> ChannelInfo {
        (types_view(self.datatypes@), self.pos)
    }
}

/// The entry recorded for `k`: the most recent one in `s`.
pub open spec fn lookup(s: Seq<ChannelEntry>, k: ChannelKey) -> Option<ChannelInfo>
    decreases s.len(),
{
    if s.len() == 0 {
        None
    } else if s.last().key() == k {
        Some(s.last().info())
    } else {
        lookup(s.drop_last(), k)
    }
}

/// The map from endpoint keys to what is recorded for them.
pub open spec fn entries_map(s: Seq<ChannelEntry>) -> Map<ChannelKey, ChannelInfo> {
    Map::new(|k: ChannelKey| lookup(s, k) is Some, |k: ChannelKey| lookup(s, k)->Some_0)
}

/// `s` without the entries keyed by `k`.
pub open spec fn without(s: Seq<ChannelEntry>, k: ChannelKey) -> Seq<ChannelEntry>
    decreases s.len(),
{
    if s.len() == 0 {
        s
    } else if s.last().key() == k {
        without(s.drop_last(), k)
    } else {
        without(s.drop_last(), k).push(s.last())
    }
}

pub proof fn lemma_lookup_without(s: Seq<ChannelEntry>, k: ChannelKey, q: ChannelKey)
    ensures
        lookup(without(s, k), q) == (if q == k { None } else { lookup(s, q) }),
    decreases s.len(),
{
    if s.len() > 0 {
        lemma_lookup_without(s.drop_last(), k, q);
        if s.last().key() != k {
            assert(without(s, k).drop_last() =~= without(s.drop_last(), k));
        }
    }
}

pub proof fn lemma_map_without(s: Seq<ChannelEntry>, k: ChannelKey)
    ensures
        entries_map(without(s, k)) == entries_map(s).remove(k),
{
    assert forall|q: ChannelKey| #[trigger] lookup(without(s, k), q) == (if q == k { None } else { lookup(s, q) }) by {
        lemma_lookup_without(s, k, q);
    }
    assert(entries_map(without(s, k)) =~= entries_map(s).remove(k));
}

pub proof fn lemma_map_push(s: Seq<ChannelEntry>, e: ChannelEntry)
    ensures
        entries_map(s.push(e)) == entries_map(s).insert(e.key(), e.info()),
{
    assert forall|q: ChannelKey| #[trigger] lookup(s.push(e), q) == (if q == e.key() { Some(e.info()) } else { lookup(s, q) }) by {
        assert(s.push(e).drop_last() =~= s);
    }
    assert(entries_map(s.push(e)) =~= entries_map(s).insert(e.key(), e.info()));
}

/// Depth of the most recent variable named `name`, counted from the top of
/// the stack (0 for the last one pushed).
pub open spec fn var_depth(stack: Seq<(Seq<char>, DataTypeView)>, name: Seq<char>) -> Option<nat>
    decreases stack.len(),
{
    if stack.len() == 0 {
        None
    } else if stack.last().0 == name {
        Some(0)
    } else {
        match var_depth(stack.drop_last(), name) {
            Some(d) => Some(d + 1),
            None => None,
        }
    }
}

pub proof fn lemma_var_depth_bound(stack: Seq<(Seq<char>, DataTypeView)>, name: Seq<char>)
    ensures
        var_depth(stack, name) matches Some(d) ==> d < stack.len() && stack[stack.len() - 1 - d].0 == name,
    decreases stack.len(),
{
    if stack.len() > 0 {
        lemma_var_depth_bound(stack.drop_last(), name);
    }
}

/// The variable that `name` resolves to: the most recent of that name.
pub open spec fn resolve_var(stack: Seq<(Seq<char>, DataTypeView)>, name: Seq<char>) -> Option<(Seq<char>, DataTypeView)> {
    match var_depth(stack, name) {
        Some(d) => Some(stack[stack.len() - 1 - d]),
        None => None,
    }
}

/// The state of one compilation pass: the variable stack, the declared
/// channel endpoints, the endpoints used before their declaration, and the
/// program being compiled. The endpoint tables are keyed by two strings; they
/// are kept as lists whose meaning is the map `entries_map`, so that every
/// lookup, insertion and removal has a proved effect on that map.
#[derive(Clone, Debug)]
pub struct CompilerState {
    pub program_stack: Vec<Var>,
    pub channels: Vec<ChannelEntry>,
    pub undefined_channels: Vec<ChannelEntry>,
    pub current_program_name: String,
}

impl CompilerState {
    pub open spec fn stack(&self) -> Seq<(Seq<char>, DataTypeView)> {
        self.program_stack@.map_values(|v: Var| v.entry())
    }

    pub open spec fn channel_map(&self) -> Map<ChannelKey, ChannelInfo> {
        entries_map(self.channels@)
    }

    pub open spec fn undefined_map(&self) -> Map<ChannelKey, ChannelInfo> {
        entries_map(self.undefined_channels@)
    }

    /// A fresh state for compiling the program named `current_program_name`.
    pub fn new(current_program_name: String) -> (r: Self)
        ensures
            r.stack().len() == 0,
            r.channel_map() == Map::<ChannelKey, ChannelInfo>::empty(),
            r.undefined_map() == Map::<ChannelKey, ChannelInfo>::empty(),
            r.current_program_name@ == current_program_name@,
    {
        let r = CompilerState {
            program_stack: Vec::new(),
            channels: Vec::new(),
            undefined_channels: Vec::new(),
            current_program_name,
        };
        assert(r.channel_map() =~= Map::<ChannelKey, ChannelInfo>::empty());
        assert(r.undefined_map() =~= Map::<ChannelKey, ChannelInfo>::empty());
        r
    }
}

/// Index of the entry recorded for (`program`, `channel`), if any.
pub fn find_entry(entries: &Vec<ChannelEntry>, program: &String, channel: &String) -> (r: Option<usize>)
    ensures
        match r {
            None => !entries_map(entries@).contains_key((program@, channel@)),
            Some(i) => i < entries@.len() && entries_map(entries@).contains_key((program@, channel@))
                && entries_map(entries@)[(program@, channel@)] == entries@[i as int].info(),
        },
{
    let ghost k = (program@, channel@);
    let mut i: usize = entries.len();
    assert(entries@.take(i as int) =~= entries@);
    while i > 0
        invariant
            i <= entries@.len(),
            k == (program@, channel@),
            lookup(entries@, k) == lookup(entries@.take(i as int), k),
        decreases i,
    {
        assert(entries@.take(i as int).drop_last() =~= entries@.take(i - 1));
        assert(entries@.take(i as int).last() == entries@[i - 1]);
        let same_program = entries[i - 1].program.eq(program);
        let same_channel = entries[i - 1].channel.eq(channel);
        assert(same_program == (entries@[i - 1].program@ == program@));
        if same_program && same_channel {
            assert(entries@[i - 1].key() == k);
            assert(entries@.take(i as int).len() > 0);
            assert(lookup(entries@.take(i as int), k) == Some(entries@[i - 1].info()));
            return Some(i - 1);
        }
        i = i - 1;
    }
    assert(entries@.take(0) =~= Seq::<ChannelEntry>::empty());
    None
}

/// Removes every entry recorded for (`program`, `channel`).
pub fn remove_entry(entries: &mut Vec<ChannelEntry>, program: &String, channel: &String)
    ensures
        entries_map(final(entries)@) == entries_map(old(entries)@).remove((program@, channel@)),
{
    let ghost k = (program@, channel@);
    let ghost orig = entries@;
    let ghost mut j: int = 0;
    let mut i: usize = 0;
    assert(orig.take(0) =~= Seq::<ChannelEntry>::empty());
    assert(entries@ =~= without(orig.take(0), k) + orig.skip(0));
    while i < entries.len()
        invariant
            0 <= j <= orig.len(),
            k == (program@, channel@),
            i == without(orig.take(j), k).len(),
            entries@ == without(orig.take(j), k) + orig.skip(j),
        decreases orig.len() - j,
    {
        assert(entries@[i as int] == orig[j]);
        assert(orig.take(j + 1).drop_last() =~= orig.take(j));
        assert(orig.take(j + 1).last() == orig[j]);
        assert(orig.skip(j).skip(1) =~= orig.skip(j + 1));
        assert(orig.skip(j)[0] == orig[j]);
        if entries[i].program.eq(program) && entries[i].channel.eq(channel) {
            assert(orig[j].key() == k);
            assert(orig.take(j + 1).len() > 0);
            assert(without(orig.take(j + 1), k) == without(orig.take(j), k));
            entries.remove(i);
            assert(entries@ =~= without(orig.take(j + 1), k) + orig.skip(j + 1));
        } else {
            assert(without(orig.take(j + 1), k) == without(orig.take(j), k).push(orig[j]));
            i = i + 1;
            assert(entries@ =~= without(orig.take(j + 1), k) + orig.skip(j + 1));
        }
        proof { j = j + 1; }
    }
    assert(orig.take(j) =~= orig) by {
        assert(orig.skip(j).len() == 0);
    }
    assert(entries@ =~= without(orig, k));
    proof { lemma_map_without(orig, k); }
}

} // verus!
