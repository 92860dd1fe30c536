//! The fonts of the text, and which of them draws a character.

use vstd::prelude::*;

verus! {

#[derive(Debug, Clone, Copy, Hash, PartialEq, Eq, Structural)]
pub enum FontStyle {
    Regular,
    Bold,
    Faint,
}

impl FontStyle {
    /// Every style.
    pub fn all() -> (r: [FontStyle; 3])
        ensures
            r@ == seq![FontStyle::Regular, FontStyle::Bold, FontStyle::Faint],
            forall|s: FontStyle| #[trigger] r@.contains(s),
    {
        let r = [FontStyle::Regular, FontStyle::Bold, FontStyle::Faint];
        proof {
            assert(r@ =~= seq![FontStyle::Regular, FontStyle::Bold, FontStyle::Faint]);
            assert(r@[0] == FontStyle::Regular && r@[1] == FontStyle::Bold && r@[2]
                == FontStyle::Faint);
            assert forall|s: FontStyle| #[trigger] r@.contains(s) by {
                match s {
                    FontStyle::Regular => assert(r@[0] == s),
                    FontStyle::Bold => assert(r@[1] == s),
                    FontStyle::Faint => assert(r@[2] == s),
                }
            }
        }
        r
    }
}

/// The fonts of each style, in the order in which they are tried, all of one
/// size.
pub struct FontSet<F> {
    pub regular: Vec<F>,
    pub bold: Vec<F>,
    pub faint: Vec<F>,
    pub font_size: u32,
}

/// What the first of some fonts gives that gives anything, from the font at `i`
/// on.
pub open spec fn first_given<F, G, H: Fn(&F) -> Option<G>>(
    fonts: Seq<F>,
    f: H,
    i: int,
    r: Option<G>,
) -> bool
    decreases fonts.len() - i,
{
    if i < 0 || i >= fonts.len() {
        r is None
    } else {
        ||| r is Some && call_ensures(f, (&fonts[i],), r)
        ||| call_ensures(f, (&fonts[i],), None) && first_given(fonts, f, i + 1, r)
    }
}

impl<F> FontSet<F> {
    /// The fonts of a style.
    pub open spec fn of(&self, style: FontStyle) -> Seq<F> {
        match style {
            FontStyle::Regular => self.regular@,
            FontStyle::Bold => self.bold@,
            FontStyle::Faint => self.faint@,
        }
    }

    /// A set without fonts.
    pub fn new(font_size: u32) -> (r: Self)
        ensures
            r.font_size == font_size,
            forall|s: FontStyle| (#[trigger] r.of(s)) == Seq::<F>::empty(),
    {
        let r = FontSet { regular: Vec::new(), bold: Vec::new(), faint: Vec::new(), font_size };
        assert forall|s: FontStyle| (#[trigger] r.of(s)) == Seq::<F>::empty() by {
            assert(r.of(s) =~= Seq::<F>::empty());
        }
        r
    }

    /// Puts a font behind the others of a style.
    pub fn add(&mut self, style: FontStyle, font: F)
        ensures
            final(self).font_size == old(self).font_size,
            forall|s: FontStyle| #[trigger]
                final(self).of(s) == if s == style {
                    old(self).of(s).push(font)
                } else {
                    old(self).of(s)
                },
    {
        match style {
            FontStyle::Regular => {
                self.regular.push(font);
            },
            FontStyle::Bold => {
                self.bold.push(font);
            },
            FontStyle::Faint => {
                self.faint.push(font);
            },
        }
    }

    /// The fonts of a style.
    pub fn fonts(&self, style: FontStyle) -> (r: &Vec<F>)
        ensures
            r@ == self.of(style),
    {
        match style {
            FontStyle::Regular => &self.regular,
            FontStyle::Bold => &self.bold,
            FontStyle::Faint => &self.faint,
        }
    }

    /// What the first font of a style gives that gives anything: a character is
    /// drawn by the first font that has it.
    pub fn find<G, H: Fn(&F) -> Option<G>>(&self, style: FontStyle, f: H) -> (r: Option<G>)
        requires
            forall|font: &F| call_requires(f, (font,)),
        ensures
            first_given(self.of(style), f, 0, r),
    {
        let list = self.fonts(style);
        find_from(list, &f, 0)
    }

    pub fn fontsize(&self) -> (r: u32)
        ensures
            r == self.font_size,
    {
        self.font_size
    }

    pub fn set_fontsize(&mut self, new_size: u32)
        ensures
            final(self).font_size == new_size,
            forall|s: FontStyle| #[trigger] final(self).of(s) == old(self).of(s),
    {
        self.font_size = new_size;
    }
}

fn find_from<F, G, H: Fn(&F) -> Option<G>>(list: &Vec<F>, f: &H, i: usize) -> (r: Option<G>)
    requires
        i <= list.len(),
        forall|font: &F| call_requires(*f, (font,)),
    ensures
        first_given(list@, *f, i as int, r),
    decreases list.len() - i,
{
    if i >= list.len() {
        return None;
    }
    match f(&list[i]) {
        Some(g) => Some(g),
        None => find_from(list, f, i + 1),
    }
}

} // verus!
