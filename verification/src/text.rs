//! Small pieces of text: labels, file names, the restore token.

use crate::units::to_even_pixels;
use vstd::prelude::*;
use vstd::string::*;

verus! {

/// The decimal digits of a number.
pub open spec fn decimal(n: nat) -> Seq<char>
    decreases n,
{
    if n < 10 {
        seq![digit(n)]
    } else {
        decimal(n / 10).push(digit(n % 10))
    }
}

/// The character of a decimal digit.
pub open spec fn digit(d: nat) -> char {
    (('0' as u32) + d) as char
}

fn digit_text(d: u64) -> (r: &'static str)
    requires
        d < 10,
    ensures
        r@ == seq![digit(d as nat)],
{
    proof {
        reveal_strlit("0");
        reveal_strlit("1");
        reveal_strlit("2");
        reveal_strlit("3");
        reveal_strlit("4");
        reveal_strlit("5");
        reveal_strlit("6");
        reveal_strlit("7");
        reveal_strlit("8");
        reveal_strlit("9");
    }
    let r: &'static str = if d == 0 {
        "0"
    } else if d == 1 {
        "1"
    } else if d == 2 {
        "2"
    } else if d == 3 {
        "3"
    } else if d == 4 {
        "4"
    } else if d == 5 {
        "5"
    } else if d == 6 {
        "6"
    } else if d == 7 {
        "7"
    } else if d == 8 {
        "8"
    } else {
        "9"
    };
    assert(r@ =~= seq![digit(d as nat)]);
    r
}

/// Writes a number in decimal.
pub fn decimal_text(n: u64) -> (r: String)
    ensures
        r@ == decimal(n as nat),
    decreases n,
{
    if n < 10 {
        digit_text(n).to_owned()
    } else {
        let mut s: String = decimal_text(n / 10);
        s.append(digit_text(n % 10));
        assert(s@ =~= decimal(n as nat));
        s
    }
}

/// The read-out of a length: whole pixels.
pub fn length_label(length: i64) -> (r: String)
    requires
        length >= 0,
    ensures
        r@ == decimal(crate::units::even_pixels(length as int) as nat),
{
    decimal_text(to_even_pixels(length))
}

/// The read-out of a colour.
pub open spec fn color_caption(r: u8, g: u8, b: u8) -> Seq<char> {
    "RGB("@ + decimal(r as nat) + ", "@ + decimal(g as nat) + ", "@ + decimal(b as nat) + ")"@
}

/// The colour picker's read-out.
pub fn color_label(r: u8, g: u8, b: u8) -> (t: String)
    ensures
        t@ == color_caption(r, g, b),
{
    let mut t: String = "RGB(".to_owned();
    t.append(decimal_text(r as u64).as_str());
    t.append(", ");
    t.append(decimal_text(g as u64).as_str());
    t.append(", ");
    t.append(decimal_text(b as u64).as_str());
    t.append(")");
    t
}

/// Whether two texts are the same.
pub fn same_text(a: &String, b: &str) -> (r: bool)
    ensures
        r == (a@ == b@),
{
    *a == b.to_owned()
}

/// The word `true`, each letter in either case.
pub open spec fn spells_true(s: Seq<char>) -> bool {
    &&& s.len() == 4
    &&& s[0] == 't' || s[0] == 'T'
    &&& s[1] == 'r' || s[1] == 'R'
    &&& s[2] == 'u' || s[2] == 'U'
    &&& s[3] == 'e' || s[3] == 'E'
}

/// Whether a setting is switched on: it is `1`, or the word `true` in any case.
pub fn is_switched_on(value: &String) -> (r: bool)
    ensures
        r == (value@ == "1"@ || spells_true(value@)),
{
    let s: &str = value.as_str();
    if same_text(value, "1") {
        return true;
    }
    if s.unicode_len() != 4 {
        return false;
    }
    let t: char = s.get_char(0);
    let r: char = s.get_char(1);
    let u: char = s.get_char(2);
    let e: char = s.get_char(3);
    (t == 't' || t == 'T') && (r == 'r' || r == 'R') && (u == 'u' || u == 'U') && (e == 'e' || e
        == 'E')
}

/// The name offered for a saved image: it carries the time stamp, or a plain
/// word where there is none.
pub fn initial_save_name(stamp: Option<&str>) -> (r: String)
    ensures
        r@ == "Screenshot_"@ + (match stamp {
            Some(s) => s@,
            None => "screenshot"@,
        }) + ".png"@,
{
    let mut t: String = "Screenshot_".to_owned();
    match stamp {
        Some(s) => {
            t.append(s);
        },
        None => {
            t.append("screenshot");
        },
    }
    t.append(".png");
    t
}

/// The file that GNOME Shell is asked to write, named after the time in
/// milliseconds.
pub fn shell_capture_path(millis: u64) -> (r: String)
    ensures
        r@ == "/tmp/glint-screenshot-"@ + decimal(millis as nat) + ".png"@,
{
    let mut t: String = "/tmp/glint-screenshot-".to_owned();
    t.append(decimal_text(millis).as_str());
    t.append(".png");
    t
}

/// The Unicode property `White_Space`.
pub open spec fn white_space(c: char) -> bool {
    let n = c as u32;
    ||| 0x09 <= n <= 0x0D
    ||| n == 0x20
    ||| n == 0x85
    ||| n == 0xA0
    ||| n == 0x1680
    ||| 0x2000 <= n <= 0x200A
    ||| n == 0x2028
    ||| n == 0x2029
    ||| n == 0x202F
    ||| n == 0x205F
    ||| n == 0x3000
}

fn is_white_space(c: char) -> (r: bool)
    ensures
        r == white_space(c),
{
    let n: u32 = c as u32;
    (0x09 <= n && n <= 0x0D) || n == 0x20 || n == 0x85 || n == 0xA0 || n == 0x1680 || (0x2000 <= n
        && n <= 0x200A) || n == 0x2028 || n == 0x2029 || n == 0x202F || n == 0x205F || n == 0x3000
}

/// `s` without the white space at its ends.
pub open spec fn trimmed(s: Seq<char>) -> Seq<char>
    decreases s.len(),
{
    if s.len() == 0 {
        s
    } else if white_space(s[0]) {
        trimmed(s.drop_first())
    } else if white_space(s.last()) {
        trimmed(s.drop_last())
    } else {
        s
    }
}

/// The restore token in the contents of the token file: the text without the
/// white space around it, unless nothing is left.
pub fn restore_token(contents: Option<&str>) -> (r: Option<String>)
    ensures
        match r {
            Some(t) => contents matches Some(s) && t@ == trimmed(s@) && t@.len() > 0,
            None => contents matches Some(s) ==> trimmed(s@).len() == 0,
        },
{
    let s: &str = match contents {
        Some(s) => s,
        None => {
            return None;
        },
    };
    let n: usize = s.unicode_len();
    let mut lo: usize = 0;
    let mut hi: usize = n;
    assert(s@.subrange(0, n as int) =~= s@);
    while lo < hi && is_white_space(s.get_char(lo))
        invariant
            lo <= hi == n == s@.len(),
            trimmed(s@.subrange(lo as int, hi as int)) == trimmed(s@),
        decreases hi - lo,
    {
        proof {
            let t = s@.subrange(lo as int, hi as int);
            assert(t.drop_first() =~= s@.subrange(lo + 1, hi as int));
        }
        lo = lo + 1;
    }
    while lo < hi && is_white_space(s.get_char(hi - 1))
        invariant
            lo <= hi <= n == s@.len(),
            lo < hi ==> !white_space(s@[lo as int]),
            trimmed(s@.subrange(lo as int, hi as int)) == trimmed(s@),
        decreases hi - lo,
    {
        proof {
            let t = s@.subrange(lo as int, hi as int);
            assert(t.drop_last() =~= s@.subrange(lo as int, hi - 1));
            assert(t.last() == s@[hi - 1]);
            assert(t[0] == s@[lo as int]);
        }
        hi = hi - 1;
    }
    proof {
        let t = s@.subrange(lo as int, hi as int);
        if lo < hi {
            assert(t.last() == s@[hi - 1]);
            assert(t[0] == s@[lo as int]);
        }
    }
    if lo == hi {
        return None;
    }
    Some(s.substring_char(lo, hi).to_owned())
}

/// Trimming is idempotent and leaves no white space at the ends.
pub proof fn law_trimmed(s: Seq<char>)
    ensures
        trimmed(trimmed(s)) == trimmed(s),
        trimmed(s).len() > 0 ==> !white_space(trimmed(s)[0]) && !white_space(trimmed(s).last()),
    decreases s.len(),
{
    if s.len() > 0 {
        if white_space(s[0]) {
            law_trimmed(s.drop_first());
        } else if white_space(s.last()) {
            law_trimmed(s.drop_last());
        }
    }
}

/// The number that a text of decimal digits stands for.
pub open spec fn value_of(s: Seq<char>) -> int
    decreases s.len(),
{
    if s.len() == 0 {
        0
    } else {
        10 * value_of(s.drop_last()) + (s.last() as u32 - '0' as u32)
    }
}

/// A number in decimal consists of digits alone, has the number as its value, and
/// does not start with a zero unless it is one.
pub proof fn law_decimal(n: nat)
    ensures
        value_of(decimal(n)) == n,
        forall|i: int| 0 <= i < decimal(n).len() ==> '0' <= #[trigger] decimal(n)[i] <= '9',
        decimal(n).len() >= 1,
        decimal(n)[0] == '0' ==> n == 0 && decimal(n).len() == 1,
    decreases n,
{
    reveal_with_fuel(value_of, 2);
    if n < 10 {
        let one = seq![digit(n)];
        assert(one.last() == digit(n));
        assert(one.drop_last() =~= seq![]);
    } else {
        law_decimal(n / 10);
        let s = decimal(n / 10).push(digit(n % 10));
        assert(s.drop_last() =~= decimal(n / 10));
        assert(s.last() == digit(n % 10));
        assert(s[0] == decimal(n / 10)[0]);
    }
}

/// Two numbers that are written alike are the same.
pub proof fn law_decimal_is_unique(a: nat, b: nat)
    requires
        decimal(a) == decimal(b),
    ensures
        a == b,
{
    law_decimal(a);
    law_decimal(b);
}

/// The read-out of a colour names red, green and blue, in this order.
pub proof fn law_color_caption(r: u8, g: u8, b: u8)
    ensures
        color_caption(r, g, b) == "RGB("@ + decimal(r as nat) + ", "@ + decimal(g as nat) + ", "@
            + decimal(b as nat) + ")"@,
{
}

/// White space is what Unicode counts as such: the tabulator, the ends of lines and
/// pages, and the spaces of any width.
pub proof fn law_white_space(c: char)
    ensures
        white_space(c) <==> {
            ||| c == '\t'
            ||| c == '\n'
            ||| c == '\u{b}'
            ||| c == '\u{c}'
            ||| c == '\r'
            ||| c == ' '
            ||| c == '\u{85}'
            ||| c == '\u{a0}'
            ||| c == '\u{1680}'
            ||| '\u{2000}' <= c <= '\u{200a}'
            ||| c == '\u{2028}'
            ||| c == '\u{2029}'
            ||| c == '\u{202f}'
            ||| c == '\u{205f}'
            ||| c == '\u{3000}'
        },
{
}

/// Trimming takes nothing but white space, and only from the ends: whatever stands
/// between two characters that are none stays.
pub proof fn law_trimmed_keeps_the_rest(s: Seq<char>, lo: int, hi: int)
    requires
        0 <= lo <= hi <= s.len(),
        forall|i: int| 0 <= i < lo ==> white_space(#[trigger] s[i]),
        forall|i: int| hi <= i < s.len() ==> white_space(#[trigger] s[i]),
        lo < hi ==> !white_space(s[lo]) && !white_space(s[hi - 1]),
    ensures
        trimmed(s) == s.subrange(lo, hi),
    decreases s.len(),
{
    if s.len() == 0 {
        assert(s.subrange(lo, hi) =~= s);
    } else if white_space(s[0]) {
        let t = s.drop_first();
        if lo > 0 {
            assert forall|i: int| 0 <= i < lo - 1 implies white_space(#[trigger] t[i]) by {
                assert(t[i] == s[i + 1]);
            }
            assert forall|i: int| hi - 1 <= i < t.len() implies white_space(#[trigger] t[i]) by {
                assert(t[i] == s[i + 1]);
            }
            law_trimmed_keeps_the_rest(t, lo - 1, hi - 1);
            assert(t.subrange(lo - 1, hi - 1) =~= s.subrange(lo, hi));
        } else {
            assert(hi == 0);
            assert forall|i: int| 0 <= i < t.len() implies white_space(#[trigger] t[i]) by {
                assert(t[i] == s[i + 1]);
            }
            law_trimmed_keeps_the_rest(t, 0, 0);
            assert(t.subrange(0, 0) =~= s.subrange(lo, hi));
        }
    } else {
        assert(lo == 0);
        if white_space(s.last()) {
            assert(hi < s.len());
            let t = s.drop_last();
            law_trimmed_keeps_the_rest(t, lo, hi);
            assert(t.subrange(lo, hi) =~= s.subrange(lo, hi));
        } else {
            if hi < s.len() {
                assert(white_space(s[s.len() - 1]));
            }
            assert(s.subrange(lo, hi) =~= s);
        }
    }
}

/// The word `true` counts in any mixture of cases, and no other word does.
pub proof fn law_spells_true(s: Seq<char>)
    ensures
        spells_true(s) <==> s.len() == 4 && (forall|i: int|
            0 <= i < 4 ==> #[trigger] s[i] == "true"@[i] || s[i] == "TRUE"@[i]),
{
    reveal_strlit("true");
    reveal_strlit("TRUE");
    if s.len() == 4 && (forall|i: int|
        0 <= i < 4 ==> #[trigger] s[i] == "true"@[i] || s[i] == "TRUE"@[i]) {
        assert(s[0] == "true"@[0] || s[0] == "TRUE"@[0]);
        assert(s[1] == "true"@[1] || s[1] == "TRUE"@[1]);
        assert(s[2] == "true"@[2] || s[2] == "TRUE"@[2]);
        assert(s[3] == "true"@[3] || s[3] == "TRUE"@[3]);
    }
}

} // verus!
