use vstd::prelude::*;

verus! {

/// The colors a light beam can have.
#[derive(Clone, Copy, Debug, PartialEq, Eq, Structural, Hash)]
pub enum LightColor {
    Green,
    Purple,
    White,
    Blue,
    Black,
}

/// The name a level file uses for a color.
pub open spec fn light_color_name(c: LightColor) -> Seq<char> {
    match c {
        LightColor::Green => seq!['G', 'r', 'e', 'e', 'n'],
        LightColor::Purple => seq!['P', 'u', 'r', 'p', 'l', 'e'],
        LightColor::White => seq!['W', 'h', 'i', 't', 'e'],
        LightColor::Blue => seq!['B', 'l', 'u', 'e'],
        LightColor::Black => seq!['B', 'l', 'a', 'c', 'k'],
    }
}

/// Whether the characters of `s` equal the characters of `t`.
pub fn chars_equal(s: &str, t: &str) -> (eq: bool)
    ensures
        eq == (s@ == t@),
{
    let n = s.unicode_len();
    let m = t.unicode_len();
    if n != m {
        return false;
    }
    let mut i: usize = 0;
    while i < n
        invariant
            n == s@.len(),
            m == t@.len(),
            n == m,
            0 <= i <= n,
            forall|k: int| 0 <= k < i ==> s@[k] == t@[k],
        decreases n - i,
    {
        if s.get_char(i) != t.get_char(i) {
            return false;
        }
        i += 1;
    }
    assert(s@ =~= t@);
    true
}

impl LightColor {
    /// Spec of the number of terrain bounces of a beam of this color.
    pub open spec fn spec_num_bounces(self) -> nat {
        match self {
            LightColor::Purple => 2,
            LightColor::Black => 0,
            _ => 1,
        }
    }

    /// The number of bounces off of terrain each color can make.
    pub fn num_bounces(&self) -> (n: usize)
        ensures
            n == self.spec_num_bounces(),
    {
        match self {
            LightColor::Purple => 2,
            LightColor::Black => 0,
            _ => 1,
        }
    }

    /// Reads a color from its name in a level file; `None` when the name is no color.
    ///
    /// A level naming no color is malformed and the game cannot load it: `None` stands for that
    /// fatal error, and the caller stops the game on it.
    pub fn from_name(name: &str) -> (c: Option<LightColor>)
        ensures
            match c {
                Some(c) => light_color_name(c) == name@,
                None => forall|k: LightColor| light_color_name(k) != name@,
            },
    {
        proof {
            reveal_strlit("Purple");
            reveal_strlit("Green");
            reveal_strlit("White");
            reveal_strlit("Blue");
            reveal_strlit("Black");
        }
        if chars_equal(name, "Purple") {
            assert(light_color_name(LightColor::Purple) =~= "Purple"@);
            Some(LightColor::Purple)
        } else if chars_equal(name, "Green") {
            assert(light_color_name(LightColor::Green) =~= "Green"@);
            Some(LightColor::Green)
        } else if chars_equal(name, "White") {
            assert(light_color_name(LightColor::White) =~= "White"@);
            Some(LightColor::White)
        } else if chars_equal(name, "Blue") {
            assert(light_color_name(LightColor::Blue) =~= "Blue"@);
            Some(LightColor::Blue)
        } else if chars_equal(name, "Black") {
            assert(light_color_name(LightColor::Black) =~= "Black"@);
            Some(LightColor::Black)
        } else {
            assert(light_color_name(LightColor::Purple) =~= "Purple"@);
            assert(light_color_name(LightColor::Green) =~= "Green"@);
            assert(light_color_name(LightColor::White) =~= "White"@);
            assert(light_color_name(LightColor::Blue) =~= "Blue"@);
            assert(light_color_name(LightColor::Black) =~= "Black"@);
            None
        }
    }
}

/// One value per light color, indexed by the color.
#[derive(Clone, Copy, Debug, PartialEq, Eq)]
pub struct ColorMap<T> {
    pub green: T,
    pub purple: T,
    pub white: T,
    pub blue: T,
    pub black: T,
}

impl<T: Copy> ColorMap<T> {
    /// The value held for color `c`.
    pub open spec fn at(self, c: LightColor) -> T {
        match c {
            LightColor::Green => self.green,
            LightColor::Purple => self.purple,
            LightColor::White => self.white,
            LightColor::Blue => self.blue,
            LightColor::Black => self.black,
        }
    }

    /// A map that holds `v` for every color.
    pub fn filled(v: T) -> (m: ColorMap<T>)
        ensures
            forall|c: LightColor| #[trigger] m.at(c) == v,
    {
        ColorMap { green: v, purple: v, white: v, blue: v, black: v }
    }

    /// The value held for color `c`.
    pub fn get(&self, c: LightColor) -> (v: T)
        ensures
            v == self.at(c),
    {
        match c {
            LightColor::Green => self.green,
            LightColor::Purple => self.purple,
            LightColor::White => self.white,
            LightColor::Blue => self.blue,
            LightColor::Black => self.black,
        }
    }

    /// Replaces the value held for color `c`.
    pub fn set(&mut self, c: LightColor, v: T)
        ensures
            final(self).at(c) == v,
            forall|d: LightColor| d != c ==> #[trigger] final(self).at(d) == old(self).at(d),
    {
        match c {
            LightColor::Green => self.green = v,
            LightColor::Purple => self.purple = v,
            LightColor::White => self.white = v,
            LightColor::Blue => self.blue = v,
            LightColor::Black => self.black = v,
        }
    }
}

/// The colors in the order in which a color map lists them.
pub open spec fn color_order() -> Seq<LightColor> {
    seq![LightColor::Green, LightColor::Purple, LightColor::White, LightColor::Blue, LightColor::Black]
}

/// The colors in the order in which a color map lists them.
pub fn all_colors() -> (v: Vec<LightColor>)
    ensures
        v@ == color_order(),
{
    let v = vec![LightColor::Green, LightColor::Purple, LightColor::White, LightColor::Blue, LightColor::Black];
    assert(v@ =~= color_order());
    v
}

} // verus!
