//! Per-widget visual customization and the bookkeeping of which categories
//! the user (or the widget's own spawner) has explicitly touched.
use vstd::prelude::*;

use crate::config::DefaultWidgetAppearance;

verus! {

/// A category of visual customization. Until a category is touched, no
/// styling for it is generated: the widget keeps the plain card look.
#[derive(Debug, Clone, Copy, PartialEq, Eq, Hash, Structural)]
pub enum TouchedField {
    Bg,
    Border,
    Corner,
}

impl TouchedField {
    /// The lowercase name used in saved files.
    pub fn as_str(&self) -> (s: &'static str)
        ensures
            s@ == touched_field_name(*self),
    {
        match self {
            TouchedField::Bg => "bg",
            TouchedField::Border => "border",
            TouchedField::Corner => "corner",
        }
    }
}

pub open spec fn touched_field_name(f: TouchedField) -> Seq<char> {
    match f {
        TouchedField::Bg => "bg"@,
        TouchedField::Border => "border"@,
        TouchedField::Corner => "corner"@,
    }
}

/// The set of touched categories.
#[derive(Debug, Clone, Copy, PartialEq, Eq, Structural)]
pub struct TouchedSet {
    bg: bool,
    border: bool,
    corner: bool,
}

impl View for TouchedSet {
    type V = Set<TouchedField>;

    closed spec fn view(&self) -> Set<TouchedField> {
        Set::new(
            |f: TouchedField|
                match f {
                    TouchedField::Bg => self.bg,
                    TouchedField::Border => self.border,
                    TouchedField::Corner => self.corner,
                },
        )
    }
}

impl TouchedSet {
    /// The empty set.
    pub fn new() -> (s: TouchedSet)
        ensures
            s@ == Set::<TouchedField>::empty(),
    {
        let s = TouchedSet { bg: false, border: false, corner: false };
        assert(s@ =~= Set::<TouchedField>::empty());
        s
    }

    /// Adds `f`; true if it was not there yet.
    pub fn insert(&mut self, f: TouchedField) -> (added: bool)
        ensures
            final(self)@ == old(self)@.insert(f),
            added == !old(self)@.contains(f),
    {
        let added = !self.contains(&f);
        match f {
            TouchedField::Bg => self.bg = true,
            TouchedField::Border => self.border = true,
            TouchedField::Corner => self.corner = true,
        }
        assert(self@ =~= old(self)@.insert(f));
        added
    }

    /// Removes `f`; true if it was there.
    pub fn remove(&mut self, f: &TouchedField) -> (removed: bool)
        ensures
            final(self)@ == old(self)@.remove(*f),
            removed == old(self)@.contains(*f),
    {
        let removed = self.contains(f);
        match f {
            TouchedField::Bg => self.bg = false,
            TouchedField::Border => self.border = false,
            TouchedField::Corner => self.corner = false,
        }
        assert(self@ =~= old(self)@.remove(*f));
        removed
    }

    pub fn contains(&self, f: &TouchedField) -> (b: bool)
        ensures
            b == self@.contains(*f),
    {
        match f {
            TouchedField::Bg => self.bg,
            TouchedField::Border => self.border,
            TouchedField::Corner => self.corner,
        }
    }

    pub fn is_empty(&self) -> (b: bool)
        ensures
            b == (self@ == Set::<TouchedField>::empty()),
    {
        let b = !self.bg && !self.border && !self.corner;
        if !b {
            if self.bg {
                assert(self@.contains(TouchedField::Bg));
            } else if self.border {
                assert(self@.contains(TouchedField::Border));
            } else {
                assert(self@.contains(TouchedField::Corner));
            }
        } else {
            assert(self@ =~= Set::<TouchedField>::empty());
        }
        b
    }

    /// The touched categories in the fixed order `Bg`, `Border`, `Corner`.
    pub fn to_vec(&self) -> (v: Vec<TouchedField>)
        ensures
            forall|f: TouchedField| self@.contains(f) <==> v@.contains(f),
            forall|i: int, j: int| 0 <= i < j < v@.len() ==> v@[i] != v@[j],
    {
        let mut v: Vec<TouchedField> = Vec::new();
        if self.bg {
            v.push(TouchedField::Bg);
        }
        if self.border {
            v.push(TouchedField::Border);
        }
        if self.corner {
            v.push(TouchedField::Corner);
        }
        assert forall|f: TouchedField| self@.contains(f) <==> v@.contains(f) by {
            if self@.contains(f) {
                let i = match f {
                    TouchedField::Bg => 0int,
                    TouchedField::Border => if self.bg { 1int } else { 0int },
                    TouchedField::Corner => (if self.bg { 1int } else { 0int }) + (if self.border { 1int } else { 0int }),
                };
                assert(v@[i] == f);
            }
        }
        v
    }
}

/// One widget's appearance. `opacity_bits` holds the IEEE-754 bit pattern
/// of the opacity (`1.0` is `0x3FF0_0000_0000_0000`).
#[derive(Debug, Clone)]
pub struct WidgetAppearance {
    pub touched: TouchedSet,
    pub opacity_bits: u64,
    pub bg_color: String,
    pub bg_image_path: Option<String>,
    pub border_enabled: bool,
    pub border_width: u32,
    pub border_color: String,
    pub rounded: bool,
}

/// The bit pattern of the opacity `1.0`.
pub const FULL_OPACITY_BITS: u64 = 0x3FF0_0000_0000_0000;

/// The untouched, plain-card appearance.
pub open spec fn is_default_appearance(a: WidgetAppearance) -> bool {
    &&& a.touched@ == Set::<TouchedField>::empty()
    &&& a.opacity_bits == FULL_OPACITY_BITS
    &&& a.bg_color@ == "#242424"@
    &&& a.bg_image_path is None
    &&& !a.border_enabled
    &&& a.border_width == 2
    &&& a.border_color@ == "#ffffff"@
    &&& a.rounded
}

impl Default for WidgetAppearance {
    fn default() -> (a: Self)
        ensures
            is_default_appearance(a),
    {
        WidgetAppearance {
            touched: TouchedSet::new(),
            opacity_bits: FULL_OPACITY_BITS,
            bg_color: "#242424".to_string(),
            bg_image_path: None,
            border_enabled: false,
            border_width: 2,
            border_color: "#ffffff".to_string(),
            rounded: true,
        }
    }
}

impl WidgetAppearance {
    /// Whether any category has been explicitly touched: if so, the global
    /// default appearance must not overwrite this widget's look.
    pub fn has_customizations(&self) -> (b: bool)
        ensures
            b == (self.touched@ != Set::<TouchedField>::empty()),
    {
        !self.touched.is_empty()
    }

    /// Back to the untouched plain-card state, `touched` cleared too.
    pub fn reset(&mut self)
        ensures
            is_default_appearance(*final(self)),
    {
        *self = WidgetAppearance::default();
    }

    /// The appearance that applying the configured default look renders:
    /// the preset's values, with `Bg` and `Border` marked touched so that
    /// they are actually shown.
    pub fn from_config_default(defaults: &DefaultWidgetAppearance) -> (a: Self)
        ensures
            a.touched@ == set![TouchedField::Bg, TouchedField::Border],
            a.opacity_bits == defaults.opacity_bits,
            a.bg_color@ == defaults.bg_color@,
            a.bg_image_path is None,
            a.border_enabled == defaults.border_enabled,
            a.border_width == defaults.border_width,
            a.border_color@ == defaults.border_color@,
            a.rounded,
    {
        let mut touched = TouchedSet::new();
        touched.insert(TouchedField::Bg);
        touched.insert(TouchedField::Border);
        assert(touched@ =~= set![TouchedField::Bg, TouchedField::Border]);
        WidgetAppearance {
            touched,
            opacity_bits: defaults.opacity_bits,
            bg_color: defaults.bg_color.clone(),
            bg_image_path: None,
            border_enabled: defaults.border_enabled,
            border_width: defaults.border_width,
            border_color: defaults.border_color.clone(),
            rounded: true,
        }
    }
}


/// An appearance back at the plain-card state has no customizations, so
/// the configured default look is free to apply to it.
pub proof fn lemma_reset_appearance_is_uncustomized(a: WidgetAppearance)
    requires
        is_default_appearance(a),
    ensures
        a.touched@ == Set::<TouchedField>::empty(),
{
}

/// The appearance built from the configured default look counts as
/// customized, with the background and border marked touched, so that it
/// is actually shown and never overwritten again by that default.
pub proof fn lemma_config_default_is_customized(a: WidgetAppearance)
    requires
        a.touched@ == set![TouchedField::Bg, TouchedField::Border],
    ensures
        a.touched@ != Set::<TouchedField>::empty(),
        a.touched@.contains(TouchedField::Bg),
        a.touched@.contains(TouchedField::Border),
{
    assert(a.touched@.contains(TouchedField::Bg));
}

/// Different categories are saved under different names, so a saved set
/// of touched categories reads back as the same set.
pub proof fn lemma_touched_names_distinct(a: TouchedField, b: TouchedField)
    ensures
        touched_field_name(a) == touched_field_name(b) <==> a == b,
{
    reveal_strlit("bg");
    reveal_strlit("border");
    reveal_strlit("corner");
    assert("bg"@.len() == 2 && "border"@.len() == 6 && "corner"@.len() == 6);
    assert("border"@[0] != "corner"@[0]);
}
} // verus!
