use vstd::prelude::*;

verus! {

/// What the draft editor reports to its listeners.
#[derive(Clone, Copy, Debug, PartialEq, Eq, Structural)]
pub enum InputEvent {
    /// The draft has been edited.
    Change,
    /// Enter was pressed: plainly, which submits the draft, or together with
    /// the secondary modifier, which does not.
    PressEnter { secondary: bool },
    /// The editor has gained the focus.
    Focus,
    /// The editor has lost the focus.
    Blur,
}

/// The text that is being composed.
pub struct EditorState {
    text: String,
}

impl View for EditorState {
    type V = Seq<char>;

    /// The draft.
    closed spec fn view(&self) -> Seq<char> {
        self.text@
    }
}

impl EditorState {
    /// An editor with an empty draft.
    pub fn new() -> (editor: Self)
        ensures
            editor@ == Seq::<char>::empty(),
    {
        EditorState { text: String::new() }
    }

    /// The draft.
    pub fn text(&self) -> (text: &String)
        ensures
            text@ == self@,
    {
        &self.text
    }

    /// Replaces the draft and reports the change.
    pub fn set_text(&mut self, new_value: String) -> (signal: InputEvent)
        ensures
            final(self)@ == new_value@,
            signal == InputEvent::Change,
    {
        self.text = new_value;
        InputEvent::Change
    }

    /// Reports a submit. The draft stays as it is: whoever handles the
    /// submit reads it and clears it.
    pub fn commit(&self) -> (signal: InputEvent)
        ensures
            signal == (InputEvent::PressEnter { secondary: false }),
    {
        InputEvent::PressEnter { secondary: false }
    }
}

} // verus!
