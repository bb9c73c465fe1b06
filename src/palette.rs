//! Display labels and colors of the elemental and type kinds, which share one
//! numbering: 1 Standard, 2 Fire, 3 Water, 4 Nature, 5 Electric, 6 Air,
//! 7 Ground, 8 Metal, 9 Light, 10 Dark, 11 Dragon (0 is the sentinel).

use vstd::prelude::*;

verus! {

/// The number of real kinds; ids run from 1 to this.
pub const KIND_COUNT: u32 = 11;

pub open spec fn spec_label_of(id: u32) -> Seq<char> {
    if id == 1 {
        "Standard"@
    } else if id == 2 {
        "Fire"@
    } else if id == 3 {
        "Water"@
    } else if id == 4 {
        "Nature"@
    } else if id == 5 {
        "Electric"@
    } else if id == 6 {
        "Air"@
    } else if id == 7 {
        "Ground"@
    } else if id == 8 {
        "Metal"@
    } else if id == 9 {
        "Light"@
    } else if id == 10 {
        "Dark"@
    } else {
        "Dragon"@
    }
}

pub open spec fn spec_color_of(id: u32) -> (u8, u8, u8) {
    if id == 1 {
        (200, 200, 200)
    } else if id == 2 {
        (209, 72, 13)
    } else if id == 3 {
        (6, 106, 189)
    } else if id == 4 {
        (94, 201, 22)
    } else if id == 5 {
        (227, 221, 102)
    } else if id == 6 {
        (191, 242, 227)
    } else if id == 7 {
        (156, 115, 11)
    } else if id == 8 {
        (191, 184, 185)
    } else if id == 9 {
        (233, 247, 203)
    } else if id == 10 {
        (40, 3, 61)
    } else {
        (92, 76, 199)
    }
}

/// The escape character that starts a terminal control sequence.
pub open spec fn esc() -> char {
    '\x1b'
}

/// `out` shows `text` on a terminal: either as is, or wrapped in one
/// select-graphic-rendition sequence (`ESC [ code m`) and the reset `ESC [ 0 m`.
pub open spec fn painted(out: Seq<char>, text: Seq<char>) -> bool {
    ||| out == text
    ||| exists|code: Seq<char>|
        out == seq![esc(), '['] + code + seq!['m'] + text + seq![esc(), '[', '0', 'm']
}

/// Relies on colored's `Colorize::truecolor` for `&str` and on the `Display` of
/// the `ColoredString` it returns. Whether colors are written at all, and
/// whether as true color or as the nearest basic color, depends on the
/// environment and the terminal; a text free of escape characters comes out
/// as is or wrapped in one style sequence and a reset.
#[verifier::external_body]
fn paint(text: &str, r: u8, g: u8, b: u8) -> (out: String)
    ensures
        !text@.contains(esc()) ==> painted(out@, text@),
{
    colored::Colorize::truecolor(text, r, g, b).to_string()
}

/// The display label of the kind with id `id`.
pub fn label_of(id: u32) -> (r: &'static str)
    requires
        1 <= id <= KIND_COUNT,
    ensures
        r@ == spec_label_of(id),
{
    if id == 1 {
        "Standard"
    } else if id == 2 {
        "Fire"
    } else if id == 3 {
        "Water"
    } else if id == 4 {
        "Nature"
    } else if id == 5 {
        "Electric"
    } else if id == 6 {
        "Air"
    } else if id == 7 {
        "Ground"
    } else if id == 8 {
        "Metal"
    } else if id == 9 {
        "Light"
    } else if id == 10 {
        "Dark"
    } else {
        "Dragon"
    }
}

/// The display color, as red, green and blue, of the kind with id `id`.
pub fn color_of(id: u32) -> (r: (u8, u8, u8))
    requires
        1 <= id <= KIND_COUNT,
    ensures
        r == spec_color_of(id),
{
    if id == 1 {
        (200, 200, 200)
    } else if id == 2 {
        (209, 72, 13)
    } else if id == 3 {
        (6, 106, 189)
    } else if id == 4 {
        (94, 201, 22)
    } else if id == 5 {
        (227, 221, 102)
    } else if id == 6 {
        (191, 242, 227)
    } else if id == 7 {
        (156, 115, 11)
    } else if id == 8 {
        (191, 184, 185)
    } else if id == 9 {
        (233, 247, 203)
    } else if id == 10 {
        (40, 3, 61)
    } else {
        (92, 76, 199)
    }
}

/// No label holds an escape character.
proof fn lemma_label_plain(id: u32)
    requires
        1 <= id <= KIND_COUNT,
    ensures
        !spec_label_of(id).contains(esc()),
{
    reveal_strlit("Standard");
    reveal_strlit("Fire");
    reveal_strlit("Water");
    reveal_strlit("Nature");
    reveal_strlit("Electric");
    reveal_strlit("Air");
    reveal_strlit("Ground");
    reveal_strlit("Metal");
    reveal_strlit("Light");
    reveal_strlit("Dark");
    reveal_strlit("Dragon");
    let s = spec_label_of(id);
    assert forall|i: int| 0 <= i < s.len() implies s[i] != esc() by {}
}

/// The label of the kind with id `id`, in its color where the terminal shows colors.
pub fn colored_label(id: u32) -> (r: String)
    requires
        1 <= id <= KIND_COUNT,
    ensures
        painted(r@, spec_label_of(id)),
{
    let (red, green, blue) = color_of(id);
    proof {
        lemma_label_plain(id);
    }
    paint(label_of(id), red, green, blue)
}

/// The decimal digit character for `d < 10`.
pub open spec fn digit(d: nat) -> char {
    if d == 0 {
        '0'
    } else if d == 1 {
        '1'
    } else if d == 2 {
        '2'
    } else if d == 3 {
        '3'
    } else if d == 4 {
        '4'
    } else if d == 5 {
        '5'
    } else if d == 6 {
        '6'
    } else if d == 7 {
        '7'
    } else if d == 8 {
        '8'
    } else {
        '9'
    }
}

/// `n` written in decimal, without leading zeros.
pub open spec fn decimal(n: nat) -> Seq<char>
    decreases n,
{
    if n < 10 {
        seq![digit(n)]
    } else {
        decimal(n / 10) + seq![digit(n % 10)]
    }
}

/// `parts` with `", "` between each two.
pub open spec fn joined(parts: Seq<Seq<char>>) -> Seq<char>
    decreases parts.len(),
{
    if parts.len() == 0 {
        Seq::empty()
    } else if parts.len() == 1 {
        parts[0]
    } else {
        joined(parts.drop_last()) + ", "@ + parts.last()
    }
}

/// `parts` renders the kinds with ids `ids`, one by one.
pub open spec fn renders(parts: Seq<Seq<char>>, ids: Seq<u32>) -> bool {
    &&& parts.len() == ids.len()
    &&& forall|i: int| 0 <= i < ids.len() ==> painted(#[trigger] parts[i], spec_label_of(ids[i]))
}

/// A listing of kinds: `head`, the number of kinds, `middle`, the rendered
/// kinds separated by commas, and a closing `] }`.
pub open spec fn listing(head: Seq<char>, middle: Seq<char>, parts: Seq<Seq<char>>) -> Seq<char> {
    head + decimal(parts.len()) + middle + joined(parts) + "] }"@
}

fn digit_str(d: usize) -> (r: &'static str)
    requires
        d < 10,
    ensures
        r@ == seq![digit(d as nat)],
{
    proof {
        reveal_strlit("0");
        reveal_strlit("1");
        reveal_strlit("2");
        reveal_strlit("3");
        reveal_strlit("4");
        reveal_strlit("5");
        reveal_strlit("6");
        reveal_strlit("7");
        reveal_strlit("8");
        reveal_strlit("9");
    }
    if d == 0 {
        "0"
    } else if d == 1 {
        "1"
    } else if d == 2 {
        "2"
    } else if d == 3 {
        "3"
    } else if d == 4 {
        "4"
    } else if d == 5 {
        "5"
    } else if d == 6 {
        "6"
    } else if d == 7 {
        "7"
    } else if d == 8 {
        "8"
    } else {
        "9"
    }
}

/// Appends `n < 100` in decimal to `out`.
fn push_decimal(out: &mut String, n: usize)
    requires
        n < 100,
    ensures
        final(out)@ == old(out)@ + decimal(n as nat),
{
    if n >= 10 {
        out.append(digit_str(n / 10));
        out.append(digit_str(n % 10));
        assert(decimal(n as nat) == decimal((n / 10) as nat) + seq![digit((n % 10) as nat)]);
        assert(decimal((n / 10) as nat) == seq![digit((n / 10) as nat)]);
    } else {
        out.append(digit_str(n));
    }
    assert(final(out)@ =~= old(out)@ + decimal(n as nat));
}

/// The listing of the kinds with ids `ids`, each in its color where the
/// terminal shows colors.
pub fn kinds_listing(head: &str, middle: &str, ids: &Vec<u32>) -> (r: String)
    requires
        ids.len() < 100,
        forall|i: int| 0 <= i < ids.len() ==> 1 <= #[trigger] ids[i] <= KIND_COUNT,
    ensures
        exists|parts: Seq<Seq<char>>| renders(parts, ids@) && r@ == listing(head@, middle@, parts),
{
    let mut out = String::new();
    out.append(head);
    push_decimal(&mut out, ids.len());
    out.append(middle);
    let ghost start = out@;
    let ghost mut parts: Seq<Seq<char>> = Seq::empty();
    let mut i: usize = 0;
    while i < ids.len()
        invariant
            i <= ids.len(),
            forall|j: int| 0 <= j < ids.len() ==> 1 <= #[trigger] ids[j] <= KIND_COUNT,
            renders(parts, ids@.subrange(0, i as int)),
            out@ == start + joined(parts),
        decreases ids.len() - i,
    {
        let part = colored_label(ids[i]);
        if i > 0 {
            out.append(", ");
        }
        out.append(part.as_str());
        proof {
            let old_parts = parts;
            parts = parts.push(part@);
            assert(parts.drop_last() =~= old_parts);
            if i == 0 {
                assert(joined(parts) == parts[0]);
            }
            assert(out@ =~= start + joined(parts));
            let seen = ids@.subrange(0, i as int + 1);
            assert forall|j: int| 0 <= j < seen.len() implies painted(#[trigger] parts[j], spec_label_of(seen[j])) by {
                if j < i {
                    assert(parts[j] == old_parts[j]);
                    assert(seen[j] == ids@.subrange(0, i as int)[j]);
                }
            }
        }
        i += 1;
    }
    out.append("] }");
    assert(ids@.subrange(0, ids.len() as int) =~= ids@);
    assert(out@ =~= listing(head@, middle@, parts));
    out
}

} // verus!
