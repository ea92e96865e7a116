//! The stack of text colors that widgets push to override the theme's text
//! color for their children, and pop when done.

use vstd::prelude::*;

use crate::color::Color;

verus! {

/// How many text colors can be pushed at once.
pub const COLOR_OVERWRITE_CAP: usize = 16;

/// A stack of at most `COLOR_OVERWRITE_CAP` text colors; the top one, if any,
/// overrides the theme's text color.
pub struct TextColorStack {
    colors: [Color; 16],
    len: usize,
}

impl TextColorStack {
    #[verifier::type_invariant]
    spec fn inv(&self) -> bool {
        self.len <= COLOR_OVERWRITE_CAP
    }

    /// The pushed colors, the last pushed last.
    pub closed spec fn view(&self) -> Seq<Color> {
        self.colors@.take(self.len as int)
    }

    /// No color pushed.
    pub fn new() -> (s: Self)
        ensures
            s.view().len() == 0,
    {
        TextColorStack { colors: [Color::white(); 16], len: 0 }
    }

    /// The text color: the last pushed color, or `theme_color` when none is.
    pub fn text_color(&self, theme_color: Color) -> (c: Color)
        ensures
            c == (if self.view().len() > 0 {
                self.view().last()
            } else {
                theme_color
            }),
    {
        proof {
            use_type_invariant(self);
        }
        if self.len > 0 {
            self.colors[self.len - 1]
        } else {
            theme_color
        }
    }

    /// Pushes `color`, which becomes the text color. Pushing more than
    /// `COLOR_OVERWRITE_CAP` colors is a programming error.
    pub fn push_text_color(&mut self, color: Color)
        requires
            old(self).view().len() < COLOR_OVERWRITE_CAP,
        ensures
            final(self).view() == old(self).view().push(color),
    {
        proof {
            use_type_invariant(&*self);
        }
        let len = self.len;
        let mut colors = self.colors;
        colors[len] = color;
        proof {
            assert(colors@.take(len + 1) =~= self.colors@.take(len as int).push(color));
        }
        self.colors = colors;
        self.len = len + 1;
    }

    /// Pops the last pushed color; does nothing when none is pushed.
    pub fn pop_text_color(&mut self)
        ensures
            final(self).view() == (if old(self).view().len() > 0 {
                old(self).view().drop_last()
            } else {
                old(self).view()
            }),
    {
        proof {
            use_type_invariant(&*self);
        }
        if self.len > 0 {
            proof {
                assert(self.colors@.take(self.len - 1) =~= self.colors@.take(
                    self.len as int,
                ).drop_last());
            }
            self.len = self.len - 1;
        }
    }
}

/// Text colors are a stack: after pushing `c` (`pushed`), the text color is
/// `c`, and popping it (`popped`) gives back the colors of before, and so the
/// text color of before.
pub proof fn law_text_color_stack(
    before: TextColorStack,
    pushed: TextColorStack,
    popped: TextColorStack,
    c: Color,
)
    requires
        pushed.view() == before.view().push(c),
        popped.view() == (if pushed.view().len() > 0 {
            pushed.view().drop_last()
        } else {
            pushed.view()
        }),
    ensures
        pushed.view().len() > 0 && pushed.view().last() == c,
        popped.view() == before.view(),
{
    assert(before.view().push(c).drop_last() =~= before.view());
}

} // verus!
