//! The font manager: the cache that decides which fonts are loaded
//! and what a text request draws. The rendering backend performs the
//! actual file loads and blits; it reports each load attempt's outcome
//! here and obeys the draw decision returned.

use vstd::prelude::*;
use vstd::string::StringExecFns;
use crate::geometry::{Color, Point};
use crate::systems::DrawCmd;

verus! {

/// Whether two strings hold the same characters.
fn str_eq(a: &str, b: &str) -> (r: bool)
    ensures
        r == (a@ == b@),
{
    let la = a.unicode_len();
    let lb = b.unicode_len();
    if la != lb {
        proof {
            assert(a@ != b@);
        }
        return false;
    }
    let mut i: usize = 0;
    while i < la
        invariant
            la == a@.len(),
            la == b@.len(),
            i <= la,
            forall|k: int| 0 <= k < i ==> a@[k] == b@[k],
        decreases la - i,
    {
        let ca = a.get_char(i);
        let cb = b.get_char(i);
        if ca != cb {
            proof {
                assert(a@[i as int] != b@[i as int]);
            }
            return false;
        }
        i += 1;
    }
    proof {
        assert(a@ =~= b@);
    }
    true
}

/// Caches which fonts (by name and pixel size) the backend has
/// successfully loaded; never evicts. A failed load is not recorded,
/// so a later request for the same font asks for a fresh attempt.
pub struct FontManager {
    fonts: Vec<(String, u16)>,
}

impl FontManager {
    /// Whether the font `name` at `size` is cached as loaded.
    pub closed spec fn spec_has_font(self, name: Seq<char>, size: u16) -> bool {
        exists|i: int|
            0 <= i < self.fonts@.len() && (#[trigger] self.fonts@[i]).0@ == name
                && self.fonts@[i].1 == size
    }

    pub fn new() -> (fm: FontManager)
        ensures
            forall|n: Seq<char>, s: u16| !fm.spec_has_font(n, s),
    {
        FontManager { fonts: Vec::new() }
    }

    /// Whether a render with this font can draw now; `false` asks the
    /// backend for one load attempt at `font_path(font_name)`.
    pub fn get_font(&self, font_name: &str, font_size: u16) -> (r: bool)
        ensures
            r == self.spec_has_font(font_name@, font_size),
    {
        let n = self.fonts.len();
        let mut i: usize = 0;
        while i < n
            invariant
                n == self.fonts@.len(),
                i <= n,
                forall|k: int|
                    0 <= k < i ==> !((#[trigger] self.fonts@[k]).0@ == font_name@
                        && self.fonts@[k].1 == font_size),
            decreases n - i,
        {
            let hit = str_eq(self.fonts[i].0.as_str(), font_name);
            if hit && self.fonts[i].1 == font_size {
                return true;
            }
            i += 1;
        }
        false
    }

    /// The path the backend loads a font file from.
    pub fn font_path(font_name: &str) -> (r: String)
        ensures
            r@ == "fonts/"@ + font_name@ + ".ttf"@,
    {
        let mut path = "fonts/".to_owned();
        path.append(font_name);
        path.append(".ttf");
        path
    }

    /// Records the outcome of one load attempt the backend made for
    /// `font_name` at `font_size`: a success is cached for good, a
    /// failure leaves the cache as it was.
    pub fn load_font(&mut self, font_name: &str, font_size: u16, loaded: bool)
        ensures
            forall|n: Seq<char>, s: u16|
                #[trigger] final(self).spec_has_font(n, s) == (old(self).spec_has_font(n, s) || (
                loaded && n == font_name@ && s == font_size)),
    {
        if loaded && !self.get_font(font_name, font_size) {
            let ghost fonts0 = self.fonts@;
            self.fonts.push((font_name.to_owned(), font_size));
            proof {
                assert forall|n: Seq<char>, s: u16| #[trigger]
                    self.spec_has_font(n, s) == (old(self).spec_has_font(n, s) || (loaded && n
                        == font_name@ && s == font_size)) by {
                    if self.spec_has_font(n, s) {
                        let i = choose|i: int|
                            0 <= i < self.fonts@.len() && (#[trigger] self.fonts@[i]).0@ == n
                                && self.fonts@[i].1 == s;
                        if i < fonts0.len() {
                            assert(fonts0[i] == self.fonts@[i]);
                            assert(old(self).spec_has_font(n, s));
                        }
                    }
                    if old(self).spec_has_font(n, s) {
                        let i = choose|i: int|
                            0 <= i < fonts0.len() && (#[trigger] fonts0[i]).0@ == n && fonts0[i].1
                                == s;
                        assert(self.fonts@[i] == fonts0[i]);
                    }
                    if loaded && n == font_name@ && s == font_size {
                        assert(self.fonts@[self.fonts@.len() - 1].0@ == n);
                    }
                }
            }
        }
    }

    /// The draw decision for one text blit: the command to perform
    /// when the font is cached, nothing when it is not (the request
    /// silently renders nothing).
    pub fn render_text(
        &self,
        text: &str,
        pos: Point,
        font_name: &str,
        size: u16,
        color: Color,
    ) -> (r: Option<DrawCmd>)
        ensures
            self.spec_has_font(font_name@, size) ==> (r matches Some(cmd) && (cmd matches
                DrawCmd::Text { content, pos: p, font, size: s, color: c } && content@ == text@ && p
                == pos && font@ == font_name@ && s == size && c == color)),
            !self.spec_has_font(font_name@, size) ==> r is None,
    {
        if self.get_font(font_name, size) {
            Some(
                DrawCmd::Text {
                    content: text.to_owned(),
                    pos,
                    font: font_name.to_owned(),
                    size,
                    color,
                },
            )
        } else {
            None
        }
    }
}

} // verus!
