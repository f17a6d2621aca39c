use vstd::prelude::*;

verus! {

/// What the dialogue box has to do after one frame.
#[derive(Clone, Copy, Debug, PartialEq, Eq, Structural)]
pub enum TypewriterAction {
    /// Nothing changes.
    Wait,
    /// Show one more byte of the current line.
    RevealNext,
    /// Show the current line in full.
    ShowFull,
    /// Clear the text and move on to the next line.
    NextLine,
    /// The last line was read: close the dialogue.
    Finish,
}

/// The running dialogue: the byte length of each of its lines, the line shown, and how many
/// bytes of it are shown.
#[derive(Clone, Debug)]
pub struct DialogueRes {
    pub line_lens: Option<Vec<usize>>,
    pub index: usize,
    pub shown: usize,
}

impl DialogueRes {
    /// The dialogue is running on a valid line, showing no more than that line.
    pub open spec fn wf(self) -> bool {
        match self.line_lens {
            Some(lens) => {
                &&& self.index < lens.len()
                &&& self.shown <= lens@[self.index as int]
            },
            None => self.index == 0 && self.shown == 0,
        }
    }

    /// No dialogue is running.
    pub fn new() -> (d: DialogueRes)
        ensures
            d.line_lens is None,
            d.index == 0,
            d.shown == 0,
            d.wf(),
    {
        DialogueRes { line_lens: None, index: 0, shown: 0 }
    }

    /// Starts a dialogue with lines of the given byte lengths; refused while another one runs.
    pub fn start(&mut self, line_lens: Vec<usize>) -> (started: bool)
        requires
            line_lens.len() > 0,
        ensures
            started == (old(self).line_lens is None),
            started ==> final(self).line_lens == Some(line_lens) && final(self).index == 0 && final(self).shown == 0,
            !started ==> *final(self) == *old(self),
            started ==> final(self).wf(),
    {
        if self.line_lens.is_some() {
            return false;
        }
        self.line_lens = Some(line_lens);
        self.index = 0;
        self.shown = 0;
        true
    }

    /// Advances the dialogue by one frame. `confirm` is a press of the confirm key or button;
    /// `tick_finished` says the reveal timer has just run out.
    ///
    /// A press shows a partly shown line in full, or moves on from a fully shown line (closing the
    /// dialogue after its last line). Without a press, a finished tick reveals one more byte.
    pub fn step(&mut self, confirm: bool, tick_finished: bool) -> (action: TypewriterAction)
        requires
            old(self).line_lens matches Some(lens) ==> old(self).index < lens.len(),
        ensures
            match old(self).line_lens {
                None => action == TypewriterAction::Wait && *final(self) == *old(self),
                Some(lens) => {
                    let wanted = lens@[old(self).index as int];
                    let shown = old(self).shown;
                    if confirm {
                        if shown < wanted {
                            &&& action == TypewriterAction::ShowFull
                            &&& *final(self) == (DialogueRes { shown: wanted, ..*old(self) })
                        } else if shown == wanted {
                            if old(self).index + 1 >= lens.len() {
                                &&& action == TypewriterAction::Finish
                                &&& *final(self) == (DialogueRes { line_lens: None, index: 0, shown: 0 })
                            } else {
                                &&& action == TypewriterAction::NextLine
                                &&& *final(self) == (DialogueRes { index: (old(self).index + 1) as usize, shown: 0, ..*old(self) })
                            }
                        } else {
                            action == TypewriterAction::Wait && *final(self) == *old(self)
                        }
                    } else if shown < wanted && tick_finished {
                        &&& action == TypewriterAction::RevealNext
                        &&& *final(self) == (DialogueRes { shown: (shown + 1) as usize, ..*old(self) })
                    } else {
                        action == TypewriterAction::Wait && *final(self) == *old(self)
                    }
                },
            },
            old(self).wf() ==> final(self).wf(),
    {
        let (wanted, count) = match &self.line_lens {
            None => { return TypewriterAction::Wait; },
            Some(lens) => (lens[self.index], lens.len()),
        };
        if confirm {
            if self.shown < wanted {
                self.shown = wanted;
                TypewriterAction::ShowFull
            } else if self.shown == wanted {
                if self.index + 1 >= count {
                    self.line_lens = None;
                    self.index = 0;
                    self.shown = 0;
                    TypewriterAction::Finish
                } else {
                    self.index = self.index + 1;
                    self.shown = 0;
                    TypewriterAction::NextLine
                }
            } else {
                TypewriterAction::Wait
            }
        } else if self.shown < wanted && tick_finished {
            self.shown = self.shown + 1;
            TypewriterAction::RevealNext
        } else {
            TypewriterAction::Wait
        }
    }
}

} // verus!
