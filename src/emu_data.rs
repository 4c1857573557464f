use vstd::prelude::*;
use vstd::string::*;

use crate::error::FastEmuGUIError;
use crate::frame_buffer::{FrameBuffer, FrameBufferView, SyncHandle};
use crate::frequency::Frequency;
use crate::registers::{find_index, find_key, first_at, names, DisplayFormat, Register, RegisterSet};

verus! {

/// A change that the emulator asks for. Commands are applied one at a time,
/// in the order in which they arrive.
pub enum InternalCommand<S> {
    UpdateRegisterValue { group_name: String, register_name: String, value: u64 },
    UpdateRegisterFormat { group_name: String, register_name: String, new_format: DisplayFormat },
    UpdateFrameBuffer { buffer: Vec<u8>, mutex: S },
    SetFrequency(Frequency),
}

/// The abstract content of a command; the lock handle of a frame carries no state.
pub enum CommandView {
    UpdateRegisterValue { group: Seq<char>, register: Seq<char>, value: u64 },
    UpdateRegisterFormat { group: Seq<char>, register: Seq<char>, format: DisplayFormat },
    UpdateFrameBuffer { bytes: Seq<u8> },
    SetFrequency { frequency: Frequency },
}

impl<S> View for InternalCommand<S> {
    type V = CommandView;

    open spec fn view(&self) -> CommandView {
        match self {
            InternalCommand::UpdateRegisterValue { group_name, register_name, value } => {
                CommandView::UpdateRegisterValue {
                    group: group_name@,
                    register: register_name@,
                    value: *value,
                }
            },
            InternalCommand::UpdateRegisterFormat { group_name, register_name, new_format } => {
                CommandView::UpdateRegisterFormat {
                    group: group_name@,
                    register: register_name@,
                    format: *new_format,
                }
            },
            InternalCommand::UpdateFrameBuffer { buffer, mutex } => {
                CommandView::UpdateFrameBuffer { bytes: buffer@ }
            },
            InternalCommand::SetFrequency(f) => CommandView::SetFrequency { frequency: *f },
        }
    }
}

/// The abstract state of the inspector.
pub struct EmuDataView {
    pub name: Seq<char>,
    pub frequency: Option<Frequency>,
    pub register_sets: Seq<(Seq<char>, Seq<(Seq<char>, Register)>)>,
    pub frame_buffer: Option<FrameBufferView>,
}

/// Group names are unique, so are register names within a group, every
/// register's precision matches its format, and the frame buffer is well formed.
pub open spec fn state_wf(s: EmuDataView) -> bool {
    &&& forall|i: int, j: int|
        0 <= i < j < s.register_sets.len() ==> s.register_sets[i].0 != s.register_sets[j].0
    &&& forall|g: int|
        0 <= g < s.register_sets.len() ==> {
            let regs = #[trigger] s.register_sets[g].1;
            &&& forall|i: int, j: int| 0 <= i < j < regs.len() ==> regs[i].0 != regs[j].0
            &&& forall|k: int| 0 <= k < regs.len() ==> (#[trigger] regs[k]).1.wf()
        }
    &&& s.frame_buffer matches Some(fb) ==> fb.wf()
}

/// Where the register `register` of group `group` stands, if both exist.
pub open spec fn locate(s: EmuDataView, group: Seq<char>, register: Seq<char>) -> Option<(int, int)> {
    match find_key(names(s.register_sets), group) {
        Some(g) => match find_key(names(s.register_sets[g].1), register) {
            Some(k) => Some((g, k)),
            None => None,
        },
        None => None,
    }
}

/// `s` with the register at `(g, k)` replaced by `reg`.
pub open spec fn with_register(s: EmuDataView, g: int, k: int, reg: Register) -> EmuDataView {
    let set = s.register_sets[g];
    EmuDataView {
        register_sets: s.register_sets.update(g, (set.0, set.1.update(k, (set.1[k].0, reg)))),
        ..s
    }
}

/// The state after one command. A register that does not exist, or a frame
/// when there is no frame buffer, leaves the state as it is.
pub open spec fn apply_command(s: EmuDataView, c: CommandView) -> EmuDataView {
    match c {
        CommandView::UpdateRegisterValue { group, register, value } => match locate(
            s,
            group,
            register,
        ) {
            Some((g, k)) => with_register(s, g, k, s.register_sets[g].1[k].1.with_value(value)),
            None => s,
        },
        CommandView::UpdateRegisterFormat { group, register, format } => match locate(
            s,
            group,
            register,
        ) {
            Some((g, k)) => with_register(s, g, k, s.register_sets[g].1[k].1.with_format(format)),
            None => s,
        },
        CommandView::UpdateFrameBuffer { bytes } => match s.frame_buffer {
            Some(fb) => EmuDataView { frame_buffer: Some(fb.replaced(bytes)), ..s },
            None => s,
        },
        CommandView::SetFrequency { frequency } => EmuDataView {
            frequency: Some(frequency),
            ..s
        },
    }
}

/// The state after the commands, applied in order.
pub open spec fn apply_all(s: EmuDataView, cs: Seq<CommandView>) -> EmuDataView
    decreases cs.len(),
{
    if cs.len() == 0 {
        s
    } else {
        apply_command(apply_all(s, cs.drop_last()), cs.last())
    }
}

/// A frame that the frame buffer refuses for its length.
pub open spec fn frame_refused(s: EmuDataView, c: CommandView) -> bool {
    &&& c is UpdateFrameBuffer
    &&& s.frame_buffer is Some
    &&& c->UpdateFrameBuffer_bytes.len() != s.frame_buffer->0.required_length
}

/// The shared state of the inspector: registers in named groups, an optional
/// frame buffer and an optional target clock frequency.
pub struct EmuData {
    name: String,
    frequency: Option<Frequency>,
    register_sets: Vec<(String, RegisterSet)>,
    frame_buffer: Option<FrameBuffer>,
}

impl View for EmuData {
    type V = EmuDataView;

    closed spec fn view(&self) -> EmuDataView {
        EmuDataView {
            name: self.name@,
            frequency: self.frequency,
            register_sets: self.register_sets@.map_values(|p: (String, RegisterSet)| (p.0@, p.1@)),
            frame_buffer: match self.frame_buffer {
                Some(fb) => Some(fb@),
                None => None,
            },
        }
    }
}

impl EmuData {
    pub fn new() -> (r: EmuData)
        ensures
            r@.name == "FastEmuGUI"@,
            r@.frequency is None,
            r@.register_sets.len() == 0,
            r@.frame_buffer is None,
            state_wf(r@),
    {
        let r = EmuData {
            name: String::from_str("FastEmuGUI"),
            frequency: None,
            register_sets: Vec::new(),
            frame_buffer: None,
        };
        proof {
            assert(r@.register_sets =~= Seq::<(Seq<char>, Seq<(Seq<char>, Register)>)>::empty());
        }
        r
    }

    /// Applies one command. Only a frame of the wrong length gives an error,
    /// and then nothing changes.
    pub fn run_command<S: SyncHandle>(&mut self, command: InternalCommand<S>) -> (r: Result<
        (),
        FastEmuGUIError,
    >)
        ensures
            final(self)@ == apply_command(old(self)@, command@),
            state_wf(old(self)@) ==> state_wf(final(self)@),
            r is Err <==> frame_refused(old(self)@, command@),
            r matches Err(e) ==> e == (FastEmuGUIError::MismatchedBufferSize {
                expected: old(self)@.frame_buffer->0.required_length as usize,
                received: command@->UpdateFrameBuffer_bytes.len() as usize,
            }),
    {
        let ghost pre = self@;
        proof {
            if state_wf(pre) {
                lemma_apply_command_preserves_wf(pre, command@);
            }
        }
        match command {
            InternalCommand::UpdateRegisterValue { group_name, register_name, value } => {
                if let Some((g, k)) = self.get_mut_register(&group_name, &register_name) {
                    let mut set = self.take_set(g);
                    set.set_value(k, value);
                    self.put_set(g, set);
                    proof {
                        let reg = pre.register_sets[g as int].1[k as int].1.with_value(value);
                        assert(self@.register_sets =~= with_register(pre, g as int, k as int, reg).register_sets);
                    }
                }
                Ok(())
            },
            InternalCommand::UpdateRegisterFormat { group_name, register_name, new_format } => {
                if let Some((g, k)) = self.get_mut_register(&group_name, &register_name) {
                    let mut set = self.take_set(g);
                    set.set_format(k, new_format);
                    self.put_set(g, set);
                    proof {
                        let reg = pre.register_sets[g as int].1[k as int].1.with_format(new_format);
                        assert(self@.register_sets =~= with_register(pre, g as int, k as int, reg).register_sets);
                    }
                }
                Ok(())
            },
            InternalCommand::UpdateFrameBuffer { buffer, mut mutex } => {
                match self.frame_buffer.take() {
                    Some(mut frame_buffer) => {
                        let r = frame_buffer.update_frame_buffer(buffer.as_slice(), &mut mutex);
                        self.frame_buffer = Some(frame_buffer);
                        r
                    },
                    None => Ok(()),
                }
            },
            InternalCommand::SetFrequency(frequency) => {
                self.frequency = Some(frequency);
                Ok(())
            },
        }
    }

    /// Adds a group of registers unless a group of that name exists; says
    /// whether it did.
    pub fn add_register_set(&mut self, name: String, set: RegisterSet) -> (r: bool)
        ensures
            r == (find_key(names(old(self)@.register_sets), name@) is None),
            r ==> final(self)@ == (EmuDataView {
                register_sets: old(self)@.register_sets.push((name@, set@)),
                ..old(self)@
            }),
            !r ==> final(self)@ == old(self)@,
            state_wf(old(self)@) && set.wf() && r ==> state_wf(final(self)@),
    {
        let found = find_index(&self.register_sets, &name);
        proof {
            assert(names(self@.register_sets) =~= self.register_sets@.map_values(
                |p: (String, RegisterSet)| p.0@,
            ));
        }
        if found.is_some() {
            return false;
        }
        let ghost pre = self@;
        self.register_sets.push((name, set));
        proof {
            assert(self@.register_sets =~= pre.register_sets.push((name@, set@)));
            if state_wf(pre) && set.wf() {
                assert forall|i: int| 0 <= i < pre.register_sets.len() implies pre.register_sets[i].0
                    != name@ by {
                    if pre.register_sets[i].0 == name@ {
                        assert(names(pre.register_sets)[i] == name@);
                        let j = choose|j: int| 0 <= j <= i && names(pre.register_sets)[j] == name@
                            && forall|m: int| 0 <= m < j ==> names(pre.register_sets)[m] != name@;
                        assert(first_at(names(pre.register_sets), name@, j));
                    }
                }
            }
        }
        true
    }

    /// Gives the state a frame buffer, replacing any it had.
    pub fn set_frame_buffer(&mut self, frame_buffer: FrameBuffer)
        ensures
            final(self)@ == (EmuDataView { frame_buffer: Some(frame_buffer@), ..old(self)@ }),
    {
        self.frame_buffer = Some(frame_buffer);
    }

    pub fn set_name(&mut self, name: String)
        ensures
            final(self)@ == (EmuDataView { name: name@, ..old(self)@ }),
    {
        self.name = name;
    }

    pub fn name(&self) -> (r: &String)
        ensures
            r@ == self@.name,
    {
        &self.name
    }

    pub fn frequency(&self) -> (r: Option<Frequency>)
        ensures
            r == self@.frequency,
    {
        self.frequency
    }

    /// The groups of registers, in the order in which they were added.
    pub fn register_sets(&self) -> (r: &Vec<(String, RegisterSet)>)
        ensures
            r@.map_values(|p: (String, RegisterSet)| (p.0@, p.1@)) == self@.register_sets,
    {
        &self.register_sets
    }

    pub fn frame_buffer(&self) -> (r: &Option<FrameBuffer>)
        ensures
            r is Some <==> self@.frame_buffer is Some,
            r matches Some(fb) ==> self@.frame_buffer == Some(fb@),
    {
        &self.frame_buffer
    }

    /// Applies the commands one after the other, in the order given; frames
    /// that are refused for their length are dropped.
    pub fn run_commands<S: SyncHandle>(&mut self, commands: Vec<InternalCommand<S>>)
        ensures
            final(self)@ == apply_all(old(self)@, commands@.map_values(|c: InternalCommand<S>| c@)),
    {
        let ghost cs = commands@.map_values(|c: InternalCommand<S>| c@);
        let ghost pre = self@;
        let mut rest = commands;
        let ghost mut done: int = 0;
        proof {
            assert(cs.take(0) =~= Seq::<CommandView>::empty());
            assert(rest@.map_values(|c: InternalCommand<S>| c@) =~= cs.skip(0));
        }
        while rest.len() > 0
            invariant
                0 <= done <= cs.len(),
                self@ == apply_all(pre, cs.take(done)),
                rest@.map_values(|c: InternalCommand<S>| c@) == cs.skip(done),
            decreases rest@.len(),
        {
            let ghost before = rest@;
            proof {
                assert(before.map_values(|c: InternalCommand<S>| c@).len() == before.len());
                assert(done < cs.len());
                assert(before.map_values(|c: InternalCommand<S>| c@)[0] == cs.skip(done)[0]);
            }
            let command = rest.remove(0);
            proof {
                assert(command@ == cs[done]);
                assert(cs.take(done + 1).drop_last() =~= cs.take(done));
                assert(cs.take(done + 1).last() == cs[done]);
            }
            let _ = self.run_command(command);
            proof {
                let after = rest@.map_values(|c: InternalCommand<S>| c@);
                assert forall|i: int| 0 <= i < rest@.len() implies #[trigger] after[i] == cs.skip(
                    done + 1,
                )[i] by {
                    assert(rest@[i] == before[i + 1]);
                    assert(before.map_values(|c: InternalCommand<S>| c@)[i + 1] == cs.skip(done)[i
                        + 1]);
                }
                assert(rest@.map_values(|c: InternalCommand<S>| c@) =~= cs.skip(done + 1));
                done = done + 1;
            }
        }
        proof {
            assert(cs.take(done) =~= cs);
        }
    }

    /// Finds the group `group_name` and, in it, the register `register_name`.
    pub(crate) fn get_mut_register(&self, group_name: &String, register_name: &String) -> (r:
        Option<(usize, usize)>)
        ensures
            r matches Some((g, k)) ==> locate(self@, group_name@, register_name@) == Some(
                (g as int, k as int),
            ) && g < self@.register_sets.len() && k < self@.register_sets[g as int].1.len(),
            r is None ==> locate(self@, group_name@, register_name@) is None,
    {
        let found = find_index(&self.register_sets, group_name);
        proof {
            assert(names(self@.register_sets) =~= self.register_sets@.map_values(
                |p: (String, RegisterSet)| p.0@,
            ));
        }
        match found {
            Some(g) => {
                let k = self.register_sets[g].1.find(register_name);
                proof {
                    assert(self@.register_sets[g as int].1 == self.register_sets@[g as int].1@);
                }
                match k {
                    Some(k) => Some((g, k)),
                    None => None,
                }
            },
            None => None,
        }
    }

    /// Moves the group at `g` out, leaving an empty set with the same name.
    fn take_set(&mut self, g: usize) -> (r: RegisterSet)
        requires
            g < old(self)@.register_sets.len(),
        ensures
            r@ == old(self)@.register_sets[g as int].1,
            final(self).register_sets@.len() == old(self).register_sets@.len(),
            forall|i: int|
                0 <= i < old(self).register_sets@.len() && i != g
                    ==> final(self).register_sets@[i] == old(self).register_sets@[i],
            final(self).register_sets@[g as int].0 == old(self).register_sets@[g as int].0,
            final(self).name == old(self).name,
            final(self).frequency == old(self).frequency,
            final(self).frame_buffer == old(self).frame_buffer,
    {
        let name = self.register_sets[g].0.clone();
        let mut slot = (name, RegisterSet::empty());
        std::mem::swap(&mut slot, &mut self.register_sets[g]);
        slot.1
    }

    /// Puts `set` back at `g`, under the name that is there.
    fn put_set(&mut self, g: usize, set: RegisterSet)
        requires
            g < old(self).register_sets@.len(),
        ensures
            final(self)@ == (EmuDataView {
                register_sets: old(self)@.register_sets.update(
                    g as int,
                    (old(self)@.register_sets[g as int].0, set@),
                ),
                ..old(self)@
            }),
    {
        let name = self.register_sets[g].0.clone();
        self.register_sets.set(g, (name, set));
        proof {
            assert(final(self)@.register_sets =~= old(self)@.register_sets.update(
                g as int,
                (old(self)@.register_sets[g as int].0, set@),
            ));
        }
    }
}

/// The state the inspector starts with: one group "General Purpose" holding
/// R1 = 0x1234 in hex and R2 = 0x5678 in octal, both 16 bits wide, and a
/// 100 by 100 frame buffer with no image yet.
pub fn test_data() -> (r: EmuData)
    ensures
        state_wf(r@),
        r@.name == "FastEmuGUI"@,
        r@.frequency is None,
        r@.register_sets.len() == 1,
        r@.register_sets[0].0 == "General Purpose"@,
        r@.register_sets[0].1.len() == 2,
        r@.register_sets[0].1[0].0 == "R1"@,
        r@.register_sets[0].1[0].1 == Register::new_spec(0x1234, DisplayFormat::Hex, 16),
        r@.register_sets[0].1[1].0 == "R2"@,
        r@.register_sets[0].1[1].1 == Register::new_spec(0x5678, DisplayFormat::Octal, 16),
        r@.frame_buffer == Some(
            FrameBufferView { height: 100, width: 100, required_length: 40000, image: Seq::empty() },
        ),
{
    let mut set = RegisterSet::empty();
    proof {
        reveal_strlit("R1");
        reveal_strlit("R2");
        reveal_strlit("General Purpose");
        assert("R1"@ != "R2"@) by {
            assert("R1"@[1] != "R2"@[1]);
        }
    }
    set.add_register(String::from_str("R1"), Register::new(0x1234, DisplayFormat::Hex, 16));
    set.add_register(String::from_str("R2"), Register::new(0x5678, DisplayFormat::Octal, 16));
    let mut data = EmuData::new();
    data.add_register_set(String::from_str("General Purpose"), set);
    data.set_frame_buffer(FrameBuffer::new(100, 100));
    data
}

/// Draining the queue in two batches ends in the same state as draining it
/// at once: commands are applied in arrival order, whatever the batching.
pub proof fn lemma_apply_all_concat(s: EmuDataView, a: Seq<CommandView>, b: Seq<CommandView>)
    ensures
        apply_all(s, a + b) == apply_all(apply_all(s, a), b),
    decreases b.len(),
{
    if b.len() == 0 {
        assert(a + b =~= a);
    } else {
        assert((a + b).drop_last() =~= a + b.drop_last());
        assert((a + b).last() == b.last());
        lemma_apply_all_concat(s, a, b.drop_last());
    }
}

/// A value for a register that does not exist leaves the state unchanged.
pub proof fn lemma_missing_register_is_no_op(
    s: EmuDataView,
    group: Seq<char>,
    register: Seq<char>,
    value: u64,
)
    requires
        locate(s, group, register) is None,
    ensures
        apply_command(s, CommandView::UpdateRegisterValue { group, register, value }) == s,
{
}

/// Changing one register leaves every name where it was.
proof fn lemma_with_register_keeps_names(s: EmuDataView, g: int, k: int, reg: Register)
    requires
        0 <= g < s.register_sets.len(),
        0 <= k < s.register_sets[g].1.len(),
    ensures
        names(with_register(s, g, k, reg).register_sets) == names(s.register_sets),
        names(with_register(s, g, k, reg).register_sets[g].1) == names(s.register_sets[g].1),
{
    assert(names(with_register(s, g, k, reg).register_sets) =~= names(s.register_sets));
    assert(names(with_register(s, g, k, reg).register_sets[g].1) =~= names(
        s.register_sets[g].1,
    ));
}

/// Of two format changes to the same register, the later one decides: the
/// pair ends where the second change alone would.
pub proof fn lemma_last_format_wins(
    s: EmuDataView,
    group: Seq<char>,
    register: Seq<char>,
    first: DisplayFormat,
    second: DisplayFormat,
)
    ensures
        apply_all(
            s,
            seq![
                CommandView::UpdateRegisterFormat { group, register, format: first },
                CommandView::UpdateRegisterFormat { group, register, format: second },
            ],
        ) == apply_command(s, CommandView::UpdateRegisterFormat { group, register, format: second }),
        locate(s, group, register) matches Some((g, k)) ==> apply_command(
            s,
            CommandView::UpdateRegisterFormat { group, register, format: second },
        ).register_sets[g].1[k].1.spec_display_format() == second,
{
    let c1 = CommandView::UpdateRegisterFormat { group, register, format: first };
    let c2 = CommandView::UpdateRegisterFormat { group, register, format: second };
    let cs = seq![c1, c2];
    assert(cs.drop_last() =~= seq![c1]);
    assert(seq![c1].drop_last() =~= Seq::<CommandView>::empty());
    reveal_with_fuel(apply_all, 3);
    assert(apply_all(s, seq![c1]) == apply_command(s, c1));
    match locate(s, group, register) {
        Some((g, k)) => {
            let r = s.register_sets[g].1[k].1;
            let mid = with_register(s, g, k, r.with_format(first));
            lemma_with_register_keeps_names(s, g, k, r.with_format(first));
            assert(locate(mid, group, register) == Some((g, k)));
            assert(mid.register_sets[g].1[k].1.with_format(second) == r.with_format(second));
            assert(with_register(mid, g, k, r.with_format(second)).register_sets[g].1
                =~= with_register(s, g, k, r.with_format(second)).register_sets[g].1);
            assert(with_register(mid, g, k, r.with_format(second)).register_sets =~= with_register(
                s,
                g,
                k,
                r.with_format(second),
            ).register_sets);
        },
        None => {},
    }
}

/// Every command keeps the state well formed: names stay unique, every
/// precision matches its format and the frame buffer keeps its geometry.
pub proof fn lemma_apply_command_preserves_wf(s: EmuDataView, c: CommandView)
    requires
        state_wf(s),
    ensures
        state_wf(apply_command(s, c)),
{
    let t = apply_command(s, c);
    match c {
        CommandView::UpdateRegisterValue { group, register, value } => {
            if let Some((g, k)) = locate(s, group, register) {
                let reg = s.register_sets[g].1[k].1.with_value(value);
                lemma_with_register_keeps_names(s, g, k, reg);
                lemma_wf_after_register_change(s, g, k, reg);
            }
        },
        CommandView::UpdateRegisterFormat { group, register, format } => {
            if let Some((g, k)) = locate(s, group, register) {
                let reg = s.register_sets[g].1[k].1.with_format(format);
                lemma_with_register_keeps_names(s, g, k, reg);
                lemma_wf_after_register_change(s, g, k, reg);
            }
        },
        _ => {},
    }
}

proof fn lemma_wf_after_register_change(s: EmuDataView, g: int, k: int, reg: Register)
    requires
        state_wf(s),
        0 <= g < s.register_sets.len(),
        0 <= k < s.register_sets[g].1.len(),
        reg.wf(),
    ensures
        state_wf(with_register(s, g, k, reg)),
{
    let t = with_register(s, g, k, reg);
    lemma_with_register_keeps_names(s, g, k, reg);
    assert forall|i: int, j: int|
        0 <= i < j < t.register_sets.len() implies t.register_sets[i].0 != t.register_sets[j].0 by {
        assert(names(t.register_sets)[i] == names(s.register_sets)[i]);
        assert(names(t.register_sets)[j] == names(s.register_sets)[j]);
    }
    assert forall|h: int| 0 <= h < t.register_sets.len() implies {
        let regs = #[trigger] t.register_sets[h].1;
        &&& forall|i: int, j: int| 0 <= i < j < regs.len() ==> regs[i].0 != regs[j].0
        &&& forall|m: int| 0 <= m < regs.len() ==> (#[trigger] regs[m]).1.wf()
    } by {
        if h == g {
            let regs = t.register_sets[h].1;
            assert forall|i: int, j: int| 0 <= i < j < regs.len() implies regs[i].0 != regs[j].0 by {
                assert(names(regs)[i] == names(s.register_sets[g].1)[i]);
                assert(names(regs)[j] == names(s.register_sets[g].1)[j]);
            }
        }
    }
}

/// Well-formedness holds after any sequence of commands.
pub proof fn lemma_apply_all_preserves_wf(s: EmuDataView, cs: Seq<CommandView>)
    requires
        state_wf(s),
    ensures
        state_wf(apply_all(s, cs)),
    decreases cs.len(),
{
    if cs.len() > 0 {
        lemma_apply_all_preserves_wf(s, cs.drop_last());
        lemma_apply_command_preserves_wf(apply_all(s, cs.drop_last()), cs.last());
    }
}

} // verus!
