use vstd::prelude::*;
use crate::ast::{ChannelDeclaration, Node};
use crate::datatype::{DataType, DataTypeView, types_view, same_types, copy_types};
use crate::error::{AlthreadError, AlthreadResult, ErrorType, Pos};
use crate::instruction::{ConnectionControl, Instruction, InstructionType};
use crate::registry::{
    ChannelEntry, ChannelInfo, ChannelKey, CompilerState, find_entry, remove_entry, var_depth,
    resolve_var, lemma_var_depth_bound, lemma_map_push,
};

verus! {

/// The variable-stack index an endpoint program name resolves to: `None`
/// for `self`, else the depth of the variable (absent if there is none).
pub open spec fn var_id(stack: Seq<(Seq<char>, DataTypeView)>, name: Seq<char>) -> Option<Option<nat>> {
    if name == "self"@ {
        Some(None)
    } else {
        match var_depth(stack, name) {
            Some(d) => Some(Some(d)),
            None => None,
        }
    }
}

pub open spec fn index_view(i: Option<usize>) -> Option<nat> {
    match i {
        Some(i) => Some(i as nat),
        None => None,
    }
}

/// The program an endpoint name stands for, or the kind of error it meets.
pub open spec fn prog_name(stack: Seq<(Seq<char>, DataTypeView)>, current: Seq<char>, name: Seq<char>) -> Result<Seq<char>, ErrorType> {
    if name == "self"@ {
        Ok(current)
    } else {
        match resolve_var(stack, name) {
            None => Err(ErrorType::VariableError),
            Some((_, DataTypeView::Process(p))) => Ok(p),
            Some(_) => Err(ErrorType::TypeError),
        }
    }
}

/// The line that declaring endpoint `k` with `types` conflicts with: the
/// first use when it was used with other types, else its earlier
/// declaration when that has other types.
pub open spec fn endpoint_conflict(
    channels: Map<ChannelKey, ChannelInfo>,
    undefined: Map<ChannelKey, ChannelInfo>,
    k: ChannelKey,
    types: Seq<DataTypeView>,
) -> Option<usize> {
    if undefined.contains_key(k) && undefined[k].0 != types {
        Some(undefined[k].1.line)
    } else if channels.contains_key(k) && channels[k].0 != types {
        Some(channels[k].1.line)
    } else {
        None
    }
}

/// The declared endpoints after declaring `k` with `types` at `pos`.
pub open spec fn declare_endpoint(
    channels: Map<ChannelKey, ChannelInfo>,
    k: ChannelKey,
    types: Seq<DataTypeView>,
    pos: Pos,
) -> Map<ChannelKey, ChannelInfo> {
    if channels.contains_key(k) {
        channels
    } else {
        channels.insert(k, (types, pos))
    }
}

fn self_name() -> (r: String)
    ensures
        r@ == "self"@,
{
    String::from_str("self")
}

/// Resolves an endpoint program name to its variable-stack index.
pub fn get_var_id(var_name: &String, state: &CompilerState, pos: &Pos) -> (r: AlthreadResult<Option<usize>>)
    ensures
        match var_id(state.stack(), var_name@) {
            Some(None) => r == Ok::<Option<usize>, AlthreadError>(None),
            Some(Some(d)) => r matches Ok(Some(i)) && i == d,
            None => r matches Err(e) && e.error_type == ErrorType::VariableError
                && e.pos == Some(*pos) && e.subject@ == var_name@ && e.related_line is None,
        },
{
    if var_name.eq(&self_name()) {
        return Ok(None);
    }
    let ghost stack = state.stack();
    let n = state.program_stack.len();
    let mut i: usize = n;
    assert(stack.take(n as int) =~= stack);
    while i > 0
        invariant
            i <= n,
            n == state.program_stack@.len(),
            stack == state.stack(),
            var_name@ != "self"@,
            var_depth(stack, var_name@) == match var_depth(stack.take(i as int), var_name@) {
                Some(d) => Some((d + (n - i)) as nat),
                None => None::<nat>,
            },
        decreases i,
    {
        assert(stack.take(i as int).drop_last() =~= stack.take(i - 1));
        assert(stack.take(i as int).last() == stack[i - 1]);
        assert(stack[i - 1] == state.program_stack@[i - 1].entry());
        if state.program_stack[i - 1].name.eq(var_name) {
            assert(var_depth(stack.take(i as int), var_name@) == Some(0nat));
            return Ok(Some(n - i));
        }
        i = i - 1;
    }
    Err(AlthreadError::new(ErrorType::VariableError, Some(*pos), var_name.clone(), None))
}

/// Resolves an endpoint program name to the name of the program it runs.
pub fn get_prog_name(var_name: &String, state: &CompilerState, pos: &Pos) -> (r: AlthreadResult<String>)
    ensures
        match prog_name(state.stack(), state.current_program_name@, var_name@) {
            Ok(p) => r matches Ok(s) && s@ == p,
            Err(k) => r matches Err(e) && e.error_type == k && e.pos == Some(*pos)
                && e.subject@ == var_name@ && e.related_line is None,
        },
{
    match get_var_id(var_name, state, pos) {
        Err(e) => Err(e),
        Ok(None) => Ok(state.current_program_name.clone()),
        Ok(Some(d)) => {
            proof { lemma_var_depth_bound(state.stack(), var_name@); }
            let idx = state.program_stack.len() - 1 - d;
            match &state.program_stack[idx].datatype {
                DataType::Process(n) => Ok(n.clone()),
                _ => Err(AlthreadError::new(ErrorType::TypeError, Some(*pos), var_name.clone(), None)),
            }
        },
    }
}

/// The line that using endpoint `k` with `types` before its declaration
/// conflicts with: its declaration, else its first use, when those carry
/// other types.
pub open spec fn use_conflict(
    channels: Map<ChannelKey, ChannelInfo>,
    undefined: Map<ChannelKey, ChannelInfo>,
    k: ChannelKey,
    types: Seq<DataTypeView>,
) -> Option<usize> {
    if channels.contains_key(k) && channels[k].0 != types {
        Some(channels[k].1.line)
    } else if undefined.contains_key(k) && undefined[k].0 != types {
        Some(undefined[k].1.line)
    } else {
        None
    }
}

/// The key of an endpoint whose program name resolves.
pub open spec fn endpoint_key(st: CompilerState, prog: Seq<char>, chan: Seq<char>) -> ChannelKey {
    (prog_name(st.stack(), st.current_program_name@, prog)->Ok_0, chan)
}

/// The error that compiling `dec` meets in state `st`, as its kind, the
/// name it is about and the line it cites; `None` when it compiles.
pub open spec fn channel_error(st: CompilerState, dec: ChannelDeclaration) -> Option<(ErrorType, Seq<char>, Option<usize>)> {
    let types = types_view(dec.datatypes@);
    let left = prog_name(st.stack(), st.current_program_name@, dec.ch_left_prog@);
    let right = prog_name(st.stack(), st.current_program_name@, dec.ch_right_prog@);
    let kl = endpoint_key(st, dec.ch_left_prog@, dec.ch_left_name@);
    let kr = endpoint_key(st, dec.ch_right_prog@, dec.ch_right_name@);
    if left is Err {
        Some((left->Err_0, dec.ch_left_prog@, None))
    } else if right is Err {
        Some((right->Err_0, dec.ch_right_prog@, None))
    } else if endpoint_conflict(st.channel_map(), st.undefined_map(), kl, types) is Some {
        Some((ErrorType::TypeError, dec.ch_left_name@, endpoint_conflict(st.channel_map(), st.undefined_map(), kl, types)))
    } else if kr != kl && endpoint_conflict(st.channel_map(), st.undefined_map(), kr, types) is Some {
        Some((ErrorType::TypeError, dec.ch_right_name@, endpoint_conflict(st.channel_map(), st.undefined_map(), kr, types)))
    } else {
        None
    }
}

/// Checks that declaring endpoint (`prog`, `chan`) with `types` agrees with
/// its earlier uses and declarations.
fn check_endpoint(state: &CompilerState, prog: &String, chan: &String, types: &Vec<DataType>, pos: &Pos) -> (r: AlthreadResult<()>)
    ensures
        match endpoint_conflict(state.channel_map(), state.undefined_map(), (prog@, chan@), types_view(types@)) {
            None => r is Ok,
            Some(line) => r matches Err(e) && e.error_type == ErrorType::TypeError && e.pos == Some(*pos)
                && e.subject@ == chan@ && e.related_line == Some(line),
        },
{
    if let Some(i) = find_entry(&state.undefined_channels, prog, chan) {
        if !same_types(&state.undefined_channels[i].datatypes, types) {
            return Err(AlthreadError::new(ErrorType::TypeError, Some(*pos), chan.clone(), Some(state.undefined_channels[i].pos.line)));
        }
    }
    if let Some(i) = find_entry(&state.channels, prog, chan) {
        if !same_types(&state.channels[i].datatypes, types) {
            return Err(AlthreadError::new(ErrorType::TypeError, Some(*pos), chan.clone(), Some(state.channels[i].pos.line)));
        }
    }
    Ok(())
}

/// Records the declaration of endpoint (`prog`, `chan`) with `types`.
fn register_endpoint(state: &mut CompilerState, prog: &String, chan: &String, types: &Vec<DataType>, pos: Pos)
    ensures
        final(state).channel_map() == declare_endpoint(old(state).channel_map(), (prog@, chan@), types_view(types@), pos),
        final(state).undefined_map() == old(state).undefined_map().remove((prog@, chan@)),
        final(state).program_stack == old(state).program_stack,
        final(state).current_program_name == old(state).current_program_name,
{
    remove_entry(&mut state.undefined_channels, prog, chan);
    if find_entry(&state.channels, prog, chan).is_none() {
        let e = ChannelEntry { program: prog.clone(), channel: chan.clone(), datatypes: copy_types(types), pos };
        proof { lemma_map_push(state.channels@, e); }
        state.channels.push(e);
    }
}

/// Records a use of endpoint (`prog`, `chan`) with `types`, ahead of or
/// after its declaration.
pub fn reference_channel(state: &mut CompilerState, prog: &String, chan: &String, types: &Vec<DataType>, pos: Pos) -> (r: AlthreadResult<()>)
    ensures
        match use_conflict(old(state).channel_map(), old(state).undefined_map(), (prog@, chan@), types_view(types@)) {
            Some(line) => (r matches Err(e) && e.error_type == ErrorType::TypeError && e.pos == Some(pos)
                && e.subject@ == chan@ && e.related_line == Some(line)) && *final(state) == *old(state),
            None => r is Ok && final(state).channel_map() == old(state).channel_map()
                && final(state).program_stack == old(state).program_stack
                && final(state).current_program_name == old(state).current_program_name
                && final(state).undefined_map() == if old(state).channel_map().contains_key((prog@, chan@))
                    || old(state).undefined_map().contains_key((prog@, chan@)) {
                    old(state).undefined_map()
                } else {
                    old(state).undefined_map().insert((prog@, chan@), (types_view(types@), pos))
                },
        },
{
    let declared = find_entry(&state.channels, prog, chan);
    if let Some(i) = declared {
        if !same_types(&state.channels[i].datatypes, types) {
            return Err(AlthreadError::new(ErrorType::TypeError, Some(pos), chan.clone(), Some(state.channels[i].pos.line)));
        }
    }
    let used = find_entry(&state.undefined_channels, prog, chan);
    if let Some(i) = used {
        if !same_types(&state.undefined_channels[i].datatypes, types) {
            return Err(AlthreadError::new(ErrorType::TypeError, Some(pos), chan.clone(), Some(state.undefined_channels[i].pos.line)));
        }
    }
    if declared.is_none() && used.is_none() {
        let e = ChannelEntry { program: prog.clone(), channel: chan.clone(), datatypes: copy_types(types), pos };
        proof { lemma_map_push(state.undefined_channels@, e); }
        state.undefined_channels.push(e);
    }
    Ok(())
}

impl Node<ChannelDeclaration> {
    /// Compiles the declaration into one `Connect` instruction, after
    /// resolving both endpoints and checking that every use and declaration
    /// of each agrees on the element types. On error the state is unchanged.
    pub fn compile(&self, state: &mut CompilerState) -> (r: AlthreadResult<Vec<Instruction>>)
        ensures
            channel_error(*old(state), self.value) matches Some((kind, subject, line)) ==> (r matches Err(e)
                && e.error_type == kind && e.pos == Some(self.pos) && e.subject@ == subject
                && e.related_line == line && *final(state) == *old(state)),
            channel_error(*old(state), self.value) is None ==> r is Ok,
            r matches Ok(v) ==> (v@.len() == 1 && v@[0].pos == Some(self.pos) && !v@[0].continues_step
                && (v@[0].control matches InstructionType::Connect(c)
                && Some(index_view(c.sender_idx)) == var_id(old(state).stack(), self.value.ch_left_prog@)
                && Some(index_view(c.receiver_idx)) == var_id(old(state).stack(), self.value.ch_right_prog@)
                && c.sender_channel@ == self.value.ch_left_name@
                && c.receiver_channel@ == self.value.ch_right_name@)
                && final(state).channel_map() == declare_endpoint(
                    declare_endpoint(old(state).channel_map(),
                        endpoint_key(*old(state), self.value.ch_left_prog@, self.value.ch_left_name@),
                        types_view(self.value.datatypes@), self.pos),
                    endpoint_key(*old(state), self.value.ch_right_prog@, self.value.ch_right_name@),
                    types_view(self.value.datatypes@), self.pos)
                && final(state).undefined_map() == old(state).undefined_map()
                    .remove(endpoint_key(*old(state), self.value.ch_left_prog@, self.value.ch_left_name@))
                    .remove(endpoint_key(*old(state), self.value.ch_right_prog@, self.value.ch_right_name@))
                && final(state).program_stack == old(state).program_stack
                && final(state).current_program_name == old(state).current_program_name),
    {
        let dec = &self.value;
        let left_prog = match get_prog_name(&dec.ch_left_prog, state, &self.pos) {
            Ok(p) => p,
            Err(e) => return Err(e),
        };
        let right_prog = match get_prog_name(&dec.ch_right_prog, state, &self.pos) {
            Ok(p) => p,
            Err(e) => return Err(e),
        };
        match check_endpoint(state, &left_prog, &dec.ch_left_name, &dec.datatypes, &self.pos) {
            Ok(()) => {},
            Err(e) => return Err(e),
        }
        if !(left_prog.eq(&right_prog) && dec.ch_left_name.eq(&dec.ch_right_name)) {
            match check_endpoint(state, &right_prog, &dec.ch_right_name, &dec.datatypes, &self.pos) {
                Ok(()) => {},
                Err(e) => return Err(e),
            }
        }
        let ghost st0 = *state;
        register_endpoint(state, &left_prog, &dec.ch_left_name, &dec.datatypes, self.pos);
        register_endpoint(state, &right_prog, &dec.ch_right_name, &dec.datatypes, self.pos);
        assert(state.stack() == st0.stack());
        let sender_idx = match get_var_id(&dec.ch_left_prog, state, &self.pos) {
            Ok(i) => i,
            Err(e) => return Err(e),
        };
        let receiver_idx = match get_var_id(&dec.ch_right_prog, state, &self.pos) {
            Ok(i) => i,
            Err(e) => return Err(e),
        };
        let connect = Instruction {
            control: InstructionType::Connect(ConnectionControl {
                sender_idx,
                receiver_idx,
                sender_channel: dec.ch_left_name.clone(),
                receiver_channel: dec.ch_right_name.clone(),
            }),
            pos: Some(self.pos),
            dependencies: Vec::new(),
            continues_step: false,
        };
        let mut v: Vec<Instruction> = Vec::new();
        v.push(connect);
        Ok(v)
    }
}

/// A channel declaration that compiles leaves neither endpoint among the
/// forward uses, records both endpoints with the declared types, and any
/// later declaration of either endpoint with other types conflicts.
pub proof fn law_declared_channel(st: CompilerState, dec: ChannelDeclaration, pos: Pos, other: Seq<DataTypeView>)
    requires
        channel_error(st, dec) is None,
        other != types_view(dec.datatypes@),
    ensures
        ({
            let types = types_view(dec.datatypes@);
            let kl = endpoint_key(st, dec.ch_left_prog@, dec.ch_left_name@);
            let kr = endpoint_key(st, dec.ch_right_prog@, dec.ch_right_name@);
            let channels = declare_endpoint(declare_endpoint(st.channel_map(), kl, types, pos), kr, types, pos);
            let undefined = st.undefined_map().remove(kl).remove(kr);
            &&& !undefined.contains_key(kl) && !undefined.contains_key(kr)
            &&& channels.contains_key(kl) && channels[kl].0 == types
            &&& channels.contains_key(kr) && channels[kr].0 == types
            &&& endpoint_conflict(channels, undefined, kl, other) == Some(channels[kl].1.line)
            &&& endpoint_conflict(channels, undefined, kr, other) == Some(channels[kr].1.line)
        }),
{
}

/// Declaring two different endpoints gives the same result in either order,
/// and declaring one does not change what the other conflicts with.
pub proof fn law_declaration_order(
    channels: Map<ChannelKey, ChannelInfo>,
    undefined: Map<ChannelKey, ChannelInfo>,
    k1: ChannelKey,
    t1: Seq<DataTypeView>,
    p1: Pos,
    k2: ChannelKey,
    t2: Seq<DataTypeView>,
    p2: Pos,
)
    requires
        k1 != k2,
    ensures
        declare_endpoint(declare_endpoint(channels, k1, t1, p1), k2, t2, p2)
            == declare_endpoint(declare_endpoint(channels, k2, t2, p2), k1, t1, p1),
        undefined.remove(k1).remove(k2) == undefined.remove(k2).remove(k1),
        endpoint_conflict(declare_endpoint(channels, k1, t1, p1), undefined.remove(k1), k2, t2)
            == endpoint_conflict(channels, undefined, k2, t2),
{
    assert(declare_endpoint(declare_endpoint(channels, k1, t1, p1), k2, t2, p2)
        =~= declare_endpoint(declare_endpoint(channels, k2, t2, p2), k1, t1, p1));
    assert(undefined.remove(k1).remove(k2) =~= undefined.remove(k2).remove(k1));
}

/// A forward use records the endpoint with its types; a later declaration
/// with the same types meets no conflict and clears the forward use, and
/// one with other types conflicts with the line of that use.
pub proof fn law_forward_reference(
    channels: Map<ChannelKey, ChannelInfo>,
    undefined: Map<ChannelKey, ChannelInfo>,
    k: ChannelKey,
    types: Seq<DataTypeView>,
    use_pos: Pos,
    other: Seq<DataTypeView>,
)
    requires
        !channels.contains_key(k),
        !undefined.contains_key(k),
        other != types,
    ensures
        use_conflict(channels, undefined, k, types) is None,
        ({
            let used = undefined.insert(k, (types, use_pos));
            &&& used.contains_key(k)
            &&& endpoint_conflict(channels, used, k, types) is None
            &&& !used.remove(k).contains_key(k)
            &&& endpoint_conflict(channels, used, k, other) == Some(use_pos.line)
        }),
{
}

} // verus!
