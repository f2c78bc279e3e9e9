use vstd::prelude::*;

use crate::data::NpcData;

verus! {

/// What advancing a dialogue leads to.
#[derive(Clone, Copy, Debug, PartialEq, Eq, Structural)]
pub enum DialogueResult {
    Continue,
    Done,
    TriggerBattle,
}

/// A character on the current map, with its dialogue state.
pub struct NpcInstance {
    pub data: NpcData,
    pub dialogue_index: usize,
    pub is_talking: bool,
    pub defeated: bool,
}

/// The lines a character says: its after-defeat lines once defeated (when
/// it has some), else its usual lines.
pub open spec fn dialogue_lines(npc: NpcInstance) -> Seq<String> {
    if npc.defeated && npc.data.dialogue_defeated is Some {
        npc.data.dialogue_defeated->0@
    } else {
        npc.data.dialogue@
    }
}

impl NpcInstance {
    /// A character that is not talking and not defeated.
    pub fn new(data: NpcData) -> (npc: NpcInstance)
        ensures
            npc.data == data,
            npc.dialogue_index == 0,
            !npc.is_talking,
            !npc.defeated,
    {
        NpcInstance { data, dialogue_index: 0, is_talking: false, defeated: false }
    }

    /// Starts talking from the first line.
    pub fn start_dialogue(&mut self)
        ensures
            final(self).is_talking,
            final(self).dialogue_index == 0,
            final(self).data == old(self).data,
            final(self).defeated == old(self).defeated,
    {
        self.is_talking = true;
        self.dialogue_index = 0;
    }

    /// Moves to the next line. After the last line the talk ends, and an
    /// undefeated trainer then starts a battle.
    pub fn advance_dialogue(&mut self) -> (r: DialogueResult)
        ensures
            final(self).data == old(self).data,
            final(self).defeated == old(self).defeated,
            old(self).dialogue_index + 1 >= dialogue_lines(*old(self)).len() ==> {
                &&& !final(self).is_talking
                &&& final(self).dialogue_index == old(self).dialogue_index
                &&& r == (if old(self).data.is_trainer && !old(self).defeated {
                    DialogueResult::TriggerBattle
                } else {
                    DialogueResult::Done
                })
            },
            old(self).dialogue_index + 1 < dialogue_lines(*old(self)).len() ==> {
                &&& final(self).is_talking == old(self).is_talking
                &&& final(self).dialogue_index == old(self).dialogue_index + 1
                &&& r == DialogueResult::Continue
            },
    {
        let n = self.current_dialogue_lines().len();
        if n == 0 || self.dialogue_index >= n - 1 {
            self.is_talking = false;
            if self.data.is_trainer && !self.defeated {
                return DialogueResult::TriggerBattle;
            }
            return DialogueResult::Done;
        }
        self.dialogue_index = self.dialogue_index + 1;
        DialogueResult::Continue
    }

    /// The lines this character currently says.
    pub fn current_dialogue_lines(&self) -> (lines: &[String])
        ensures
            lines@ == dialogue_lines(*self),
    {
        if self.defeated {
            if let Some(dl) = &self.data.dialogue_defeated {
                return dl.as_slice();
            }
        }
        self.data.dialogue.as_slice()
    }

    /// The line currently said, empty when the index is past the last line.
    pub fn current_line(&self) -> (line: &str)
        ensures
            self.dialogue_index < dialogue_lines(*self).len() ==> line@ == dialogue_lines(
                *self,
            )[self.dialogue_index as int]@,
            self.dialogue_index >= dialogue_lines(*self).len() ==> line@ == ""@,
    {
        let lines = self.current_dialogue_lines();
        if self.dialogue_index < lines.len() {
            lines[self.dialogue_index].as_str()
        } else {
            ""
        }
    }
}

} // verus!
