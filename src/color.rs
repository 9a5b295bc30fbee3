use vstd::prelude::*;
use vstd::string::*;
use crate::text::{decimal, decimal_text, parse_i32, parse_i32_text, lemma_parse_decimal};

verus! {

/// A terminal colour set by an SGR escape sequence `ESC [ <code> m`.
#[derive(Clone, Copy, Debug, PartialEq, Eq, Structural)]
pub enum Color {
    Normal,
    Gray,
    Green,
    Yellow,
    Red,
    Other(i32),
}

/// Text of the pattern that finds colour escapes: ESC, `[`, a run of digits
/// (captured), `m`.
pub open spec fn color_pattern() -> Seq<char> {
    seq!['\x1b', '\\', '[', '(', '\\', 'd', '+', ')', 'm']
}

/// The texts captured by the colour pattern in `text`, one per match, left to right.
pub uninterp spec fn color_codes_in(text: Seq<char>) -> Seq<Seq<char>>;

/// Relies on `regex::Regex::new` and `regex::Regex::captures_iter`: compiles the
/// colour pattern (well-formed, so compiling succeeds) and returns the text of
/// the first group of every non-overlapping match, left to right. Each match
/// starts with an ESC character, so a text without one has no match.
#[verifier::external_body]
fn captured_codes(pattern: &str, text: &str) -> (r: Vec<String>)
    requires
        pattern@ == color_pattern(),
    ensures
        r.deep_view() == color_codes_in(text@),
        (forall|i: int| 0 <= i < text@.len() ==> text@[i] != '\x1b') ==> r@.len() == 0,
{
    let re = regex::Regex::new(pattern).unwrap();
    re.captures_iter(text).map(|c| c[1].to_string()).collect()
}

/// The colour that a captured code names.
pub open spec fn color_of_code(s: Seq<char>) -> Color {
    if s == seq!['0'] {
        Color::Normal
    } else if s == seq!['9', '0'] {
        Color::Gray
    } else if s == seq!['3', '2'] {
        Color::Green
    } else if s == seq!['3', '1'] {
        Color::Red
    } else if s == seq!['3', '3'] {
        Color::Yellow
    } else {
        match parse_i32_text(s) {
            Some(n) => Color::Other(n),
            None => Color::Normal,
        }
    }
}

/// The colours named by the escapes found in `text`, in order.
pub open spec fn colors_in(text: Seq<char>) -> Seq<Color> {
    color_codes_in(text).map_values(|s: Seq<char>| color_of_code(s))
}

/// The escape sequence that selects the colour with numeric code `n`.
pub open spec fn escape_of(n: int) -> Seq<char> {
    seq!['\x1b', '['] + decimal(n) + seq!['m']
}

/// The colour that quotes a line holding the colours `cs`: `Normal` for none,
/// the colour itself for one, `Yellow` for two or more.
pub open spec fn quote_color_of(cs: Seq<Color>) -> Color {
    if cs.len() == 0 {
        Color::Normal
    } else if cs.len() == 1 {
        cs[0]
    } else {
        Color::Yellow
    }
}

fn text_eq(a: &str, b: &str) -> (r: bool)
    ensures
        r == (a@ == b@),
{
    let n = a.unicode_len();
    if n != b.unicode_len() {
        return false;
    }
    let mut i: usize = 0;
    while i < n
        invariant
            n == a@.len(),
            n == b@.len(),
            i <= n,
            a@.subrange(0, i as int) == b@.subrange(0, i as int),
        decreases n - i,
    {
        if a.get_char(i) != b.get_char(i) {
            assert(a@.subrange(0, i as int + 1)[i as int] != b@.subrange(0, i as int + 1)[i as int]);
            return false;
        }
        assert(a@.subrange(0, i as int + 1) =~= b@.subrange(0, i as int + 1));
        i = i + 1;
    }
    assert(a@ =~= a@.subrange(0, n as int));
    assert(b@ =~= b@.subrange(0, n as int));
    true
}

impl Color {
    /// Numeric SGR code of the colour.
    pub open spec fn spec_code(self) -> i32 {
        match self {
            Color::Normal => 0,
            Color::Gray => 90,
            Color::Green => 32,
            Color::Red => 31,
            Color::Yellow => 33,
            Color::Other(n) => n,
        }
    }

    /// A colour whose escape reads back to itself: a named colour, or a
    /// non-negative code that names none.
    pub open spec fn has_known_code(self) -> bool {
        match self {
            Color::Other(n) => n >= 0 && n != 0 && n != 90 && n != 32 && n != 31 && n != 33,
            _ => true,
        }
    }

    pub fn code(&self) -> (r: i32)
        ensures
            r == self.spec_code(),
    {
        match self {
            Color::Normal => 0,
            Color::Gray => 90,
            Color::Green => 32,
            Color::Red => 31,
            Color::Yellow => 33,
            Color::Other(n) => *n,
        }
    }

    /// The escape sequence `ESC [ <code> m` of the colour.
    pub fn render(&self) -> (r: String)
        ensures
            r@ == escape_of(self.spec_code() as int),
    {
        let mut s = String::from_str("\x1b[");
        let d = decimal_text(self.code());
        s.append(d.as_str());
        s.append("m");
        proof {
            reveal_strlit("\x1b[");
            reveal_strlit("m");
            assert(s@ =~= escape_of(self.spec_code() as int));
        }
        s
    }

    /// The colour named by one captured code.
    pub fn from_code(s: &str) -> (r: Color)
        ensures
            r == color_of_code(s@),
    {
        proof {
            reveal_strlit("0");
            reveal_strlit("90");
            reveal_strlit("32");
            reveal_strlit("31");
            reveal_strlit("33");
            assert("0"@ =~= seq!['0']);
            assert("90"@ =~= seq!['9', '0']);
            assert("32"@ =~= seq!['3', '2']);
            assert("31"@ =~= seq!['3', '1']);
            assert("33"@ =~= seq!['3', '3']);
        }
        if text_eq(s, "0") {
            Color::Normal
        } else if text_eq(s, "90") {
            Color::Gray
        } else if text_eq(s, "32") {
            Color::Green
        } else if text_eq(s, "31") {
            Color::Red
        } else if text_eq(s, "33") {
            Color::Yellow
        } else {
            match parse_i32(s) {
                Some(n) => Color::Other(n),
                None => Color::Normal,
            }
        }
    }

    /// The colours named by a sequence of captured codes, in order.
    pub fn from_codes(codes: &Vec<String>) -> (r: Vec<Color>)
        ensures
            r@ == codes.deep_view().map_values(|s: Seq<char>| color_of_code(s)),
    {
        let mut out: Vec<Color> = Vec::new();
        let mut i: usize = 0;
        while i < codes.len()
            invariant
                i <= codes@.len(),
                out@ =~= codes.deep_view().subrange(0, i as int).map_values(
                    |s: Seq<char>| color_of_code(s),
                ),
            decreases codes@.len() - i,
        {
            let c = Color::from_code(codes[i].as_str());
            out.push(c);
            i = i + 1;
        }
        assert(codes.deep_view().subrange(0, i as int) =~= codes.deep_view());
        out
    }

    /// Every colour escape of `text`, in order of occurrence.
    pub fn find_all(text: &str) -> (r: Vec<Color>)
        ensures
            r@ == colors_in(text@),
            (forall|i: int| 0 <= i < text@.len() ==> text@[i] != '\x1b') ==> r@.len() == 0,
    {
        let pattern = "\x1b\\[(\\d+)m";
        proof {
            reveal_strlit("\x1b\\[(\\d+)m");
            assert(pattern@ =~= color_pattern());
        }
        let codes = captured_codes(pattern, text);
        Color::from_codes(&codes)
    }
}

/// The colour that quotes a captured line whose escapes name `colors`.
pub fn quote_color(colors: &Vec<Color>) -> (r: Color)
    ensures
        r == quote_color_of(colors@),
{
    if colors.len() == 0 {
        Color::Normal
    } else if colors.len() == 1 {
        colors[0]
    } else {
        Color::Yellow
    }
}

/// A colour with a known code is named again by the code its escape carries:
/// the escape is `ESC [`, the code's decimal digits, `m`, and those digits map
/// back to the colour.
pub proof fn lemma_code_round_trip(c: Color)
    requires
        c.has_known_code(),
    ensures
        color_of_code(decimal(c.spec_code() as int)) == c,
{
    let n = c.spec_code();
    lemma_parse_decimal(n);
    let s = decimal(n as int);
    crate::text::lemma_decimal_nat_value(n as nat);
    reveal_with_fuel(crate::text::decimal_nat, 2);
    reveal_with_fuel(crate::text::digits_value, 3);
    assert(crate::text::digit_value('0') == 0);
    assert(crate::text::digit_value('1') == 1);
    assert(crate::text::digit_value('2') == 2);
    assert(crate::text::digit_value('3') == 3);
    assert(crate::text::digit_value('9') == 9);
    assert(seq!['9', '0'].drop_last() =~= seq!['9']);
    assert(seq!['3', '2'].drop_last() =~= seq!['3']);
    assert(seq!['3', '1'].drop_last() =~= seq!['3']);
    assert(seq!['3', '3'].drop_last() =~= seq!['3']);
    assert(seq!['0'].drop_last() =~= Seq::<char>::empty());
    assert(seq!['9'].drop_last() =~= Seq::<char>::empty());
    assert(seq!['3'].drop_last() =~= Seq::<char>::empty());
    assert(crate::text::digits_value(seq!['0']) == 0);
    assert(crate::text::digits_value(seq!['9', '0']) == 90);
    assert(crate::text::digits_value(seq!['3', '2']) == 32);
    assert(crate::text::digits_value(seq!['3', '1']) == 31);
    assert(crate::text::digits_value(seq!['3', '3']) == 33);
    match c {
        Color::Other(_) => {},
        Color::Normal => {
            assert(s =~= seq!['0']);
        },
        Color::Gray => {
            assert(crate::text::digit_chars()[9] == '9');
            assert(s =~= seq!['9', '0']);
        },
        Color::Green => {
            assert(crate::text::digit_chars()[3] == '3');
            assert(s =~= seq!['3', '2']);
        },
        Color::Red => {
            assert(crate::text::digit_chars()[3] == '3');
            assert(s =~= seq!['3', '1']);
        },
        Color::Yellow => {
            assert(crate::text::digit_chars()[3] == '3');
            assert(s =~= seq!['3', '3']);
        },
    }
}

} // verus!
