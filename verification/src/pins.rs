//! The pinned source and custom caption that the network and temperature
//! cards save: which interface (or which sensor chip and label) is pinned,
//! none meaning the automatic pick, and the caption the user typed.
use vstd::prelude::*;

use crate::text::{chars_of, string_of};

verus! {

/// One saved text field: absent from the saved object, present but not a
/// text (a saved `null`), or a text.
#[derive(Debug, Clone)]
pub enum SavedText {
    Absent,
    Null,
    Text(String),
}

/// The value of a `SavedText`: `None` when absent, else the optional text.
pub open spec fn saved_view(s: SavedText) -> Option<Option<Seq<char>>> {
    match s {
        SavedText::Absent => None,
        SavedText::Null => Some(None),
        SavedText::Text(t) => Some(Some(t@)),
    }
}

pub open spec fn opt_view(s: Option<String>) -> Option<Seq<char>> {
    match s {
        Some(t) => Some(t@),
        None => None,
    }
}

/// A custom caption as kept: an empty one counts as none.
pub open spec fn kept_caption(c: Option<Seq<char>>) -> Option<Seq<char>> {
    match c {
        Some(t) if t.len() > 0 => Some(t),
        _ => None,
    }
}

/// A card's pinned source and caption: `pin` is the pinned interface or
/// sensor chip (none for the automatic pick), `detail` the pinned sensor's
/// label, and `custom_label` the user's caption, never empty.
#[derive(Debug, Clone)]
pub struct PinnedCaption {
    pub pin: Option<String>,
    pub detail: Option<String>,
    pub custom_label: Option<String>,
}

/// The value of a `PinnedCaption`.
pub type PinnedView = (Option<Seq<char>>, Option<Seq<char>>, Option<Seq<char>>);

impl View for PinnedCaption {
    type V = PinnedView;

    open spec fn view(&self) -> PinnedView {
        (opt_view(self.pin), opt_view(self.detail), opt_view(self.custom_label))
    }
}

/// A caption is never kept empty.
pub open spec fn caption_kept_nonempty(p: PinnedView) -> bool {
    match p.2 {
        Some(t) => t.len() > 0,
        None => true,
    }
}

/// A card after applying the saved fields: a saved pin (even `null`,
/// which means back to automatic) replaces the pin and the detail with the
/// saved ones; a saved caption (even `null`) replaces the caption, an
/// empty one counting as none; an absent field keeps what is there.
pub open spec fn applied_pins(
    before: PinnedView,
    pin: Option<Option<Seq<char>>>,
    detail: Option<Seq<char>>,
    caption: Option<Option<Seq<char>>>,
) -> PinnedView {
    let (p, d) = match pin {
        Some(v) => (v, detail),
        None => (before.0, before.1),
    };
    let c = match caption {
        Some(v) => kept_caption(v),
        None => before.2,
    };
    (p, d, c)
}

fn saved_of_opt(s: &Option<String>) -> (r: SavedText)
    ensures
        saved_view(r) == Some(opt_view(*s)),
{
    match s {
        Some(t) => SavedText::Text(string_of(&chars_of(t.as_str()))),
        None => SavedText::Null,
    }
}

impl PinnedCaption {
    /// Automatic pick, no caption.
    pub fn new() -> (p: Self)
        ensures
            p@ == (None::<Seq<char>>, None::<Seq<char>>, None::<Seq<char>>),
    {
        PinnedCaption { pin: None, detail: None, custom_label: None }
    }

    /// Sets the caption the user typed; an empty one clears it.
    pub fn set_custom_label(&mut self, text: Option<&str>)
        ensures
            final(self)@ == (old(self)@.0, old(self)@.1, kept_caption(
                match text {
                    Some(t) => Some(t@),
                    None => None,
                },
            )),
    {
        self.custom_label = match text {
            Some(t) => {
                let cs = chars_of(t);
                if cs.len() > 0 {
                    Some(string_of(&cs))
                } else {
                    None
                }
            },
            None => None,
        };
    }

    /// Pins a source (none for the automatic pick).
    pub fn set_pin(&mut self, pin: Option<&str>, detail: Option<&str>)
        ensures
            final(self)@ == (
                match pin {
                    Some(t) => Some(t@),
                    None => None,
                },
                match detail {
                    Some(t) => Some(t@),
                    None => None,
                },
                old(self)@.2,
            ),
    {
        self.pin = match pin {
            Some(t) => Some(string_of(&chars_of(t))),
            None => None,
        };
        self.detail = match detail {
            Some(t) => Some(string_of(&chars_of(t))),
            None => None,
        };
    }

    /// Applies the saved pin field `pin` (with the detail saved beside it,
    /// `None` when absent or not a text) and caption field `caption`.
    pub fn apply_saved(&mut self, pin: &SavedText, detail: Option<&str>, caption: &SavedText)
        ensures
            final(self)@ == applied_pins(
                old(self)@,
                saved_view(*pin),
                match detail {
                    Some(t) => Some(t@),
                    None => None,
                },
                saved_view(*caption),
            ),
    {
        match pin {
            SavedText::Absent => {},
            SavedText::Null => self.set_pin(None, detail),
            SavedText::Text(t) => self.set_pin(Some(t.as_str()), detail),
        }
        match caption {
            SavedText::Absent => {},
            SavedText::Null => self.set_custom_label(None),
            SavedText::Text(t) => self.set_custom_label(Some(t.as_str())),
        }
    }

    /// The saved pin, detail and caption fields: every one present, `null`
    /// where there is none.
    pub fn to_saved(&self) -> (r: (SavedText, SavedText, SavedText))
        ensures
            saved_view(r.0) == Some(self@.0),
            saved_view(r.1) == Some(self@.1),
            saved_view(r.2) == Some(self@.2),
    {
        (saved_of_opt(&self.pin), saved_of_opt(&self.detail), saved_of_opt(&self.custom_label))
    }
}

/// Applying what a card saved, to any card, gives back the saved card:
/// the pin, its detail and a caption that is not empty all come back.
pub proof fn lemma_saved_pins_restore(before: PinnedView, source: PinnedView)
    requires
        caption_kept_nonempty(source),
    ensures
        applied_pins(before, Some(source.0), source.1, Some(source.2)) == source,
{
}

/// The caption is never kept empty, whatever is applied.
pub proof fn lemma_caption_never_empty(
    before: PinnedView,
    pin: Option<Option<Seq<char>>>,
    detail: Option<Seq<char>>,
    caption: Option<Option<Seq<char>>>,
)
    requires
        caption_kept_nonempty(before),
    ensures
        caption_kept_nonempty(applied_pins(before, pin, detail, caption)),
{
}

} // verus!
