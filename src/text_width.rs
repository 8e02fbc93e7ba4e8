//! Terminal display width: East Asian wide glyphs take two columns, every
//! other character one.
use vstd::prelude::*;
use vstd::string::*;

verus! {

/// Code points drawn two columns wide: Hangul Jamo, CJK radicals, symbols,
/// kana and ideographs, Yi, Hangul syllables, compatibility ideographs,
/// vertical and small forms, fullwidth forms and the supplementary
/// ideographic planes.
pub open spec fn is_wide(u: u32) -> bool {
    ||| 0x1100 <= u <= 0x115F
    ||| 0x2E80 <= u <= 0x303E
    ||| 0x3041 <= u <= 0xA4CF
    ||| 0xAC00 <= u <= 0xD7A3
    ||| 0xF900 <= u <= 0xFAFF
    ||| 0xFE30 <= u <= 0xFE4F
    ||| 0xFF00 <= u <= 0xFF60
    ||| 0xFFE0 <= u <= 0xFFE6
    ||| 0x20000 <= u <= 0x3FFFD
}

pub open spec fn char_width(c: char) -> nat {
    if is_wide(c as u32) {
        2
    } else {
        1
    }
}

/// Columns that `s` takes on a terminal.
pub open spec fn display_width(s: Seq<char>) -> nat
    decreases s.len(),
{
    if s.len() == 0 {
        0
    } else {
        display_width(s.drop_last()) + char_width(s.last())
    }
}

/// `display_width`, held to what a `usize` can count.
pub open spec fn width_of(s: Seq<char>) -> nat {
    if display_width(s) > usize::MAX {
        usize::MAX as nat
    } else {
        display_width(s)
    }
}

/// `n` copies of `s`, one after another.
pub open spec fn repeat(s: Seq<char>, n: nat) -> Seq<char>
    decreases n,
{
    if n == 0 {
        Seq::empty()
    } else {
        repeat(s, (n - 1) as nat) + s
    }
}

pub proof fn lemma_width_concat(a: Seq<char>, b: Seq<char>)
    ensures
        display_width(a + b) == display_width(a) + display_width(b),
    decreases b.len(),
{
    if b.len() == 0 {
        assert(a + b =~= a);
    } else {
        lemma_width_concat(a, b.drop_last());
        assert((a + b).drop_last() =~= a + b.drop_last());
    }
}

pub proof fn lemma_width_repeat(s: Seq<char>, n: nat)
    ensures
        display_width(repeat(s, n)) == n * display_width(s),
        repeat(s, n).len() == n * s.len(),
    decreases n,
{
    if n == 0 {
        assert(display_width(Seq::<char>::empty()) == 0);
    } else {
        lemma_width_repeat(s, (n - 1) as nat);
        lemma_width_concat(repeat(s, (n - 1) as nat), s);
        assert(n * display_width(s) == (n - 1) * display_width(s) + display_width(s))
            by (nonlinear_arith);
        assert(n * s.len() == (n - 1) * s.len() + s.len()) by (nonlinear_arith);
    }
}

pub proof fn lemma_width_single(c: char)
    ensures
        display_width(seq![c]) == char_width(c),
{
    assert(seq![c].drop_last() =~= Seq::<char>::empty());
    assert(display_width(Seq::<char>::empty()) == 0);
    assert(seq![c].last() == c);
}

fn wide_char(c: char) -> (r: bool)
    ensures
        r == is_wide(c as u32),
{
    let u = c as u32;
    (0x1100 <= u && u <= 0x115F) || (0x2E80 <= u && u <= 0x303E) || (0x3041 <= u && u <= 0xA4CF)
        || (0xAC00 <= u && u <= 0xD7A3) || (0xF900 <= u && u <= 0xFAFF) || (0xFE30 <= u && u
        <= 0xFE4F) || (0xFF00 <= u && u <= 0xFF60) || (0xFFE0 <= u && u <= 0xFFE6) || (0x20000
        <= u && u <= 0x3FFFD)
}

/// Display width of `s`: wide glyphs count two columns, others one.
pub fn jks_len(s: &str) -> (r: usize)
    ensures
        r == width_of(s@),
{
    let n = s.unicode_len();
    let mut w: usize = 0;
    let mut i: usize = 0;
    while i < n
        invariant
            n == s@.len(),
            i <= n,
            w == width_of(s@.take(i as int)),
        decreases n - i,
    {
        let c = s.get_char(i);
        let cw: usize = if wide_char(c) {
            2
        } else {
            1
        };
        assert(s@.take(i + 1).drop_last() =~= s@.take(i as int));
        if w > usize::MAX - cw {
            w = usize::MAX;
        } else {
            w = w + cw;
        }
        i = i + 1;
    }
    assert(s@.take(n as int) =~= s@);
    w
}

/// `n` copies of `sym`.
pub fn repeat_str(sym: &str, n: usize) -> (r: String)
    ensures
        r@ == repeat(sym@, n as nat),
{
    let mut r = String::new();
    let mut k: usize = 0;
    while k < n
        invariant
            k <= n,
            r@ == repeat(sym@, k as nat),
        decreases n - k,
    {
        r.append(sym);
        k = k + 1;
    }
    r
}

} // verus!
