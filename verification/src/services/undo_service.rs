//! Undo stacks: one per project, one per resource and one global stack.
//! A command is run and, if it succeeds, recorded on its stack; undoing a
//! stack reverts the last command recorded on it.
use vstd::prelude::*;
use crate::data::domain::project::{uuid_string, uuid_text};

verus! {

/// The error a command reports.
#[verifier::external_type_specification]
#[verifier::external_body]
pub struct ExCommandFailure(anyhow::Error);

/// Which undo stack a command belongs to.
#[derive(Debug, Clone, Copy, PartialEq, Eq, Structural, Hash, PartialOrd, Ord)]
pub enum UndoStackID {
    Project(u128),
    Resource(u128),
    Global,
}

/// An action that can be run and reverted. What running or reverting it
/// may report is the command's own to say, through `may_execute_as` and
/// `may_undo_as`.
pub trait Command {
    /// Whether running this command may report `outcome`; any outcome,
    /// unless the command says otherwise.
    open spec fn may_execute_as(&self, outcome: Result<(), anyhow::Error>) -> bool {
        true
    }

    /// Whether reverting this command may report `outcome`; any outcome,
    /// unless the command says otherwise.
    open spec fn may_undo_as(&self, outcome: Result<(), anyhow::Error>) -> bool {
        true
    }

    fn execute(&self) -> (r: Result<(), anyhow::Error>)
        ensures
            self.may_execute_as(r),
    ;

    fn undo(&self) -> (r: Result<(), anyhow::Error>)
        ensures
            self.may_undo_as(r),
    ;
}

/// A command that touches several stacks at once.
pub trait GlobalCommand: Command {
    fn affected_resources(&self) -> Vec<UndoStackID>;
}

/// A command with the stack it is recorded on.
pub enum CommandData<C, G> {
    Single { command: C, undo_stack_id: UndoStackID },
    Global { command: G },
}

impl<C, G> CommandData<C, G> {
    /// The stack this command is recorded on.
    pub open spec fn spec_stack_id(&self) -> UndoStackID {
        match self {
            CommandData::Single { undo_stack_id, .. } => *undo_stack_id,
            CommandData::Global { .. } => UndoStackID::Global,
        }
    }

    pub fn stack_id(&self) -> (r: UndoStackID)
        ensures
            r == self.spec_stack_id(),
    {
        match self {
            CommandData::Single { undo_stack_id, .. } => *undo_stack_id,
            CommandData::Global { .. } => UndoStackID::Global,
        }
    }
}

impl<C: Command, G: GlobalCommand> CommandData<C, G> {
    /// Whether running the command may report `outcome`.
    pub open spec fn ran_as(&self, outcome: Result<(), anyhow::Error>) -> bool {
        match self {
            CommandData::Single { command, .. } => command.may_execute_as(outcome),
            CommandData::Global { command } => command.may_execute_as(outcome),
        }
    }

    /// Whether reverting the command may report `outcome`.
    pub open spec fn undone_as(&self, outcome: Result<(), anyhow::Error>) -> bool {
        match self {
            CommandData::Single { command, .. } => command.may_undo_as(outcome),
            CommandData::Global { command } => command.may_undo_as(outcome),
        }
    }
}

/// The result a command's own outcome is reported as: its failure as a
/// `CommandError`.
pub open spec fn reported(outcome: Result<(), anyhow::Error>, r: Result<(), UndoError>) -> bool {
    match outcome {
        Ok(()) => r is Ok,
        Err(e) => r matches Err(UndoError::CommandError(x)) && x == e,
    }
}

/// Why a command could not be run or undone.
#[derive(Debug)]
pub enum UndoError {
    NothingToUndo,
    InvalidStackID(UndoStackID),
    CommandError(anyhow::Error),
}

impl UndoError {
    /// The message the error reads as.
    pub fn to_string(&self) -> (r: String)
        ensures
            self is NothingToUndo ==> r@ == "Nothing to undo!"@,
            self matches UndoError::InvalidStackID(id) ==> r@ == "Invalid Stack ID "@ + stack_id_text(
                *id,
            ) + "!"@,
    {
        match self {
            UndoError::NothingToUndo => "Nothing to undo!".to_owned(),
            UndoError::InvalidStackID(id) => stack_id_message(*id),
            UndoError::CommandError(e) => failure_text(e),
        }
    }
}

/// `anyhow::Error::to_string`: the error's message. Nothing is stated of
/// the text, which the error's source decides.
#[verifier::external_body]
pub(crate) fn failure_text(e: &anyhow::Error) -> String {
    e.to_string()
}

/// How a stack is named in messages, as its derived `Debug` writes it:
/// `Project(<uuid>)`, `Resource(<uuid>)`, `Global`.
pub open spec fn stack_id_text(id: UndoStackID) -> Seq<char> {
    match id {
        UndoStackID::Project(n) => "Project("@ + uuid_text(n) + ")"@,
        UndoStackID::Resource(n) => "Resource("@ + uuid_text(n) + ")"@,
        UndoStackID::Global => "Global"@,
    }
}

fn stack_id_message(id: UndoStackID) -> (r: String)
    ensures
        r@ == "Invalid Stack ID "@ + stack_id_text(id) + "!"@,
{
    let mut m = "Invalid Stack ID ".to_owned();
    match id {
        UndoStackID::Project(n) => {
            m.append("Project(");
            m.append(uuid_string(n).as_str());
            m.append(")");
        },
        UndoStackID::Resource(n) => {
            m.append("Resource(");
            m.append(uuid_string(n).as_str());
            m.append(")");
        },
        UndoStackID::Global => m.append("Global"),
    }
    m.append("!");
    m
}

/// The undo stacks, each holding the commands run on it, oldest first.
pub struct UndoService<C, G> {
    stacks: Vec<(UndoStackID, Vec<CommandData<C, G>>)>,
}

impl<C: Command, G: GlobalCommand> UndoService<C, G> {
    /// Each stack is listed once.
    pub closed spec fn wf(&self) -> bool {
        forall|i: int, j: int|
            0 <= i < j < self.stacks@.len() ==> (#[trigger] self.stacks@[i]).0 != (
            #[trigger] self.stacks@[j]).0
    }

    /// The commands recorded on each stack that exists.
    pub closed spec fn view(&self) -> Map<UndoStackID, Seq<CommandData<C, G>>> {
        Map::new(
            |id: UndoStackID| exists|i: int| 0 <= i < self.stacks@.len() && self.stacks@[i].0 == id,
            |id: UndoStackID|
                self.stacks@[choose|i: int| 0 <= i < self.stacks@.len() && self.stacks@[i].0 == id].1@,
        )
    }

    /// The commands recorded on a stack; none where the stack does not exist.
    pub open spec fn recorded(&self, id: UndoStackID) -> Seq<CommandData<C, G>> {
        if self.view().dom().contains(id) {
            self.view()[id]
        } else {
            Seq::empty()
        }
    }

    proof fn lemma_view_at(&self, i: int)
        requires
            self.wf(),
            0 <= i < self.stacks@.len(),
        ensures
            self.view().dom().contains(self.stacks@[i].0),
            self.view()[self.stacks@[i].0] == self.stacks@[i].1@,
    {
        let id = self.stacks@[i].0;
        assert(self.view().dom().contains(id));
        let k = choose|k: int| 0 <= k < self.stacks@.len() && self.stacks@[k].0 == id;
        if k != i {
            if k < i {
                assert(self.stacks@[k].0 != self.stacks@[i].0);
            } else {
                assert(self.stacks@[i].0 != self.stacks@[k].0);
            }
        }
    }

    /// No stacks yet.
    pub fn new() -> (r: Self)
        ensures
            r.wf(),
            r.view() == Map::<UndoStackID, Seq<CommandData<C, G>>>::empty(),
    {
        let r = UndoService { stacks: Vec::new() };
        assert(r.view() =~= Map::<UndoStackID, Seq<CommandData<C, G>>>::empty());
        r
    }

    /// Where stack `id` stands in the list, if it exists.
    fn position(&self, id: UndoStackID) -> (r: Option<usize>)
        requires
            self.wf(),
        ensures
            match r {
                Some(i) => i < self.stacks@.len() && self.stacks@[i as int].0 == id,
                None => !self.view().dom().contains(id),
            },
    {
        let mut i: usize = 0;
        while i < self.stacks.len()
            invariant
                i <= self.stacks@.len(),
                forall|k: int| 0 <= k < i ==> self.stacks@[k].0 != id,
            decreases self.stacks@.len() - i,
        {
            if self.stacks[i].0 == id {
                return Some(i);
            }
            i = i + 1;
        }
        None
    }

    /// Makes stack `id` exist, empty if it did not, and gives where it stands.
    fn ensure_stack(&mut self, id: UndoStackID) -> (r: usize)
        requires
            old(self).wf(),
        ensures
            final(self).wf(),
            r < final(self).stacks@.len(),
            final(self).stacks@[r as int].0 == id,
            final(self).view() == old(self).view().insert(id, old(self).recorded(id)),
    {
        match self.position(id) {
            Some(i) => {
                proof {
                    self.lemma_view_at(i as int);
                    assert(self.view().insert(id, self.recorded(id)) =~= self.view());
                }
                i
            },
            None => {
                let ghost before = *self;
                self.stacks.push((id, Vec::new()));
                let n = self.stacks.len() - 1;
                proof {
                    assert forall|a: int, b: int|
                        0 <= a < b < self.stacks@.len() implies (#[trigger] self.stacks@[a]).0
                        != (#[trigger] self.stacks@[b]).0 by {
                        if b == n {
                            assert(before.stacks@[a] == self.stacks@[a]);
                        } else {
                            assert(before.stacks@[a] == self.stacks@[a]);
                            assert(before.stacks@[b] == self.stacks@[b]);
                        }
                    }
                    let target = before.view().insert(id, Seq::empty());
                    assert forall|k: UndoStackID| #[trigger] self.view().dom().contains(k) <==> target.dom().contains(k) by {
                        if target.dom().contains(k) && k != id {
                            let i = choose|i: int| 0 <= i < before.stacks@.len() && before.stacks@[i].0 == k;
                            assert(self.stacks@[i] == before.stacks@[i]);
                        }
                        if self.view().dom().contains(k) && k != id {
                            let i = choose|i: int| 0 <= i < self.stacks@.len() && self.stacks@[i].0 == k;
                            assert(i != n);
                            assert(self.stacks@[i] == before.stacks@[i]);
                        }
                        if k == id {
                            assert(self.stacks@[n as int].0 == id);
                        }
                    }
                    assert forall|k: UndoStackID| #[trigger] self.view().dom().contains(k) implies self.view()[k] == target[k] by {
                        let i = choose|i: int| 0 <= i < self.stacks@.len() && self.stacks@[i].0 == k;
                        self.lemma_view_at(i);
                        if k != id {
                            assert(i != n);
                            assert(self.stacks@[i] == before.stacks@[i]);
                            before.lemma_view_at(i);
                        } else {
                            self.lemma_view_at(n as int);
                        }
                    }
                    assert(self.view() =~= target);
                }
                n
            },
        }
    }

    /// Records the outcome of running `command_data`, whose stack exists
    /// at `at`: on success the command goes on top of its stack, on failure
    /// the failure is reported and nothing is recorded.
    fn record(&mut self, at: usize, command_data: CommandData<C, G>, outcome: Result<(), anyhow::Error>) -> (r: Result<(), UndoError>)
        requires
            old(self).wf(),
            at < old(self).stacks@.len(),
            old(self).stacks@[at as int].0 == command_data.spec_stack_id(),
        ensures
            final(self).wf(),
            reported(outcome, r),
            r is Err ==> final(self).view() == old(self).view(),
            r is Ok ==> final(self).view() == old(self).view().insert(
                command_data.spec_stack_id(),
                old(self).recorded(command_data.spec_stack_id()).push(command_data),
            ),
    {
        match outcome {
            Err(e) => Err(UndoError::CommandError(e)),
            Ok(()) => {
                let ghost before = *self;
                let ghost id = command_data.spec_stack_id();
                proof {
                    before.lemma_view_at(at as int);
                }
                let mut entry = self.stacks.remove(at);
                entry.1.push(command_data);
                self.stacks.insert(at, entry);
                proof {
                    assert forall|k: int| 0 <= k < self.stacks@.len() && k != at implies #[trigger] self.stacks@[k] == before.stacks@[k] by {
                    }
                    assert forall|a: int, b: int|
                        0 <= a < b < self.stacks@.len() implies (#[trigger] self.stacks@[a]).0
                        != (#[trigger] self.stacks@[b]).0 by {
                        assert(self.stacks@[a].0 == before.stacks@[a].0);
                        assert(self.stacks@[b].0 == before.stacks@[b].0);
                    }
                    let target = before.view().insert(id, before.recorded(id).push(command_data));
                    assert forall|k: UndoStackID| #[trigger] self.view().dom().contains(k) <==> target.dom().contains(k) by {
                        if target.dom().contains(k) {
                            let i = choose|i: int| 0 <= i < before.stacks@.len() && before.stacks@[i].0 == k;
                            assert(self.stacks@[i].0 == before.stacks@[i].0);
                        }
                        if self.view().dom().contains(k) {
                            let i = choose|i: int| 0 <= i < self.stacks@.len() && self.stacks@[i].0 == k;
                            assert(self.stacks@[i].0 == before.stacks@[i].0);
                        }
                    }
                    assert forall|k: UndoStackID| #[trigger] self.view().dom().contains(k) implies self.view()[k] == target[k] by {
                        let i = choose|i: int| 0 <= i < self.stacks@.len() && self.stacks@[i].0 == k;
                        self.lemma_view_at(i);
                        if i != at {
                            before.lemma_view_at(i);
                        }
                    }
                    assert(self.view() =~= target);
                }
                Ok(())
            },
        }
    }

    /// Runs a command on its stack, which is made if it does not exist yet,
    /// and records the command there if it succeeds. Whether it succeeds is
    /// the command's to decide; a failure is reported and records nothing.
    pub fn execute(&mut self, command_data: CommandData<C, G>) -> (r: Result<(), UndoError>)
        requires
            old(self).wf(),
        ensures
            final(self).wf(),
            exists|outcome: Result<(), anyhow::Error>| #![auto]
                command_data.ran_as(outcome) && reported(outcome, r),
            r is Err ==> r->Err_0 is CommandError && final(self).view() == old(self).view().insert(
                command_data.spec_stack_id(),
                old(self).recorded(command_data.spec_stack_id()),
            ),
            r is Ok ==> final(self).view() == old(self).view().insert(
                command_data.spec_stack_id(),
                old(self).recorded(command_data.spec_stack_id()).push(command_data),
            ),
    {
        let id = command_data.stack_id();
        let at = self.ensure_stack(id);
        let ghost made = *self;
        let outcome = match &command_data {
            CommandData::Single { command, .. } => command.execute(),
            CommandData::Global { command } => command.execute(),
        };
        let ghost o = outcome;
        let ghost given = command_data;
        let r = self.record(at, command_data, outcome);
        proof {
            assert(given.ran_as(o) && reported(o, r));
            made.lemma_view_at(at as int);
            assert(made.recorded(id) == old(self).recorded(id));
            assert(made.view().insert(id, made.recorded(id).push(command_data)) =~= old(self).view().insert(
                id,
                old(self).recorded(id).push(command_data),
            ));
        }
        r
    }

    /// What undoing stack `id` comes to before the command is asked: an
    /// unknown stack and an empty stack are refused, otherwise the last
    /// command recorded is the one to revert.
    pub fn last_command(&self, id: UndoStackID) -> (r: Result<&CommandData<C, G>, UndoError>)
        requires
            self.wf(),
        ensures
            !self.view().dom().contains(id) ==> (r matches Err(UndoError::InvalidStackID(x)) && x == id),
            self.view().dom().contains(id) && self.view()[id].len() == 0 ==> r matches Err(
                UndoError::NothingToUndo,
            ),
            self.view().dom().contains(id) && self.view()[id].len() > 0 ==> (r matches Ok(c) && *c
                == self.view()[id].last()),
    {
        match self.position(id) {
            None => Err(UndoError::InvalidStackID(id)),
            Some(i) => {
                proof {
                    self.lemma_view_at(i as int);
                }
                let stack = &self.stacks[i].1;
                if stack.len() == 0 {
                    Err(UndoError::NothingToUndo)
                } else {
                    Ok(&stack[stack.len() - 1])
                }
            },
        }
    }

    /// Reverts the last command recorded on stack `id`. The command stays
    /// on its stack: no stack changes. An unknown stack and an empty one are
    /// refused; otherwise whether reverting succeeds is the command's to
    /// decide.
    pub fn undo(&mut self, undo_stack_id: UndoStackID) -> (r: Result<(), UndoError>)
        requires
            old(self).wf(),
        ensures
            final(self).wf(),
            final(self).view() == old(self).view(),
            !old(self).view().dom().contains(undo_stack_id) ==> (r matches Err(
                UndoError::InvalidStackID(x),
            ) && x == undo_stack_id),
            old(self).view().dom().contains(undo_stack_id) && old(self).view()[undo_stack_id].len()
                == 0 ==> r matches Err(UndoError::NothingToUndo),
            old(self).view().dom().contains(undo_stack_id) && old(self).view()[undo_stack_id].len()
                > 0 ==> exists|outcome: Result<(), anyhow::Error>| #![auto]
                old(self).view()[undo_stack_id].last().undone_as(outcome) && reported(outcome, r),
    {
        let command_data = match self.last_command(undo_stack_id) {
            Ok(c) => c,
            Err(e) => {
                return Err(e);
            },
        };
        let outcome = match command_data {
            CommandData::Single { command, .. } => command.undo(),
            CommandData::Global { command } => command.undo(),
        };
        let ghost o = outcome;
        let r = match outcome {
            Ok(()) => Ok(()),
            Err(e) => Err(UndoError::CommandError(e)),
        };
        assert(command_data.undone_as(o) && reported(o, r));
        r
    }
}

/// After a command is run and recorded, its stack exists and the command
/// is the last one recorded there, so undoing that stack next reverts it;
/// the other stacks are as they were.
pub proof fn lemma_recorded_command_undone_next<C: Command, G: GlobalCommand>(
    before: UndoService<C, G>,
    after: UndoService<C, G>,
    command_data: CommandData<C, G>,
)
    requires
        after.view() == before.view().insert(
            command_data.spec_stack_id(),
            before.recorded(command_data.spec_stack_id()).push(command_data),
        ),
    ensures
        after.view().dom().contains(command_data.spec_stack_id()),
        after.view()[command_data.spec_stack_id()].len() > 0,
        after.view()[command_data.spec_stack_id()].last() == command_data,
        after.view()[command_data.spec_stack_id()].drop_last() == before.recorded(
            command_data.spec_stack_id(),
        ),
        forall|id: UndoStackID|
            id != command_data.spec_stack_id() ==> #[trigger] after.recorded(id) == before.recorded(id),
{
    let id = command_data.spec_stack_id();
    assert(after.view()[id].drop_last() =~= before.recorded(id));
}

} // verus!
