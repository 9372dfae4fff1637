use vstd::prelude::*;

verus! {

/// A note store the entry menu can open.
#[derive(Clone, Copy, Debug, PartialEq, Eq, Structural)]
pub enum Backend {
    File,
    Redb,
    Git,
    Mongo,
    Proxy,
}

/// What the host application has to do after an input event.
#[derive(Clone, Copy, Debug, PartialEq, Eq, Structural)]
pub enum Action {
    /// Nothing further; the event was consumed.
    Idle,
    /// The event was not handled here.
    PassThrough,
    Quit,
    /// Leave the notebook and show the entry menu again.
    BackToMenu,
    Help,
    OpenThemeMenu,
    /// Open the in-memory store.
    OpenMemory,
    /// Ask for the path or address of a store, seeded with the last one used.
    PromptFor(Backend),
    /// Open a store with the text typed into the prompt.
    Open(Backend),
    /// Apply the theme preset with this index and remember it.
    ApplyTheme(usize),
    /// Remove the selected note.
    RemoveNote,
}

} // verus!
