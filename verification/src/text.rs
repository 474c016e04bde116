//! Plain text: searching, decimal numbers, templates.
use vstd::prelude::*;

verus! {

/// Does `needle` occur in `hay` at `i`?
pub open spec fn text_at(hay: Seq<char>, needle: Seq<char>, i: int) -> bool {
    0 <= i && i + needle.len() <= hay.len() && hay.subrange(i, i + needle.len()) == needle
}

/// Does `needle` occur in `hay`?
pub open spec fn has_text(hay: Seq<char>, needle: Seq<char>) -> bool {
    exists|i: int| #[trigger] text_at(hay, needle, i)
}

/// The characters of `s`.
pub fn chars_of(s: &str) -> (r: Vec<char>)
    ensures
        r@ == s@,
{
    let mut out: Vec<char> = Vec::new();
    for c in it: s.chars()
        invariant
            out@ == it.seq().take(it.index() as int),
            it.seq() == s@,
    {
        out.push(c);
        assert(it.seq().take(it.index() + 1) =~= it.seq().take(it.index() as int).push(c));
    }
    assert(out@ =~= s@);
    out
}

fn occurs_at(hay: &Vec<char>, needle: &Vec<char>, i: usize) -> (b: bool)
    requires
        i + needle@.len() <= hay@.len(),
    ensures
        b == text_at(hay@, needle@, i as int),
{
    let total: usize = hay.len();
    let mut k: usize = 0;
    while k < needle.len()
        invariant
            k <= needle@.len(),
            total == hay@.len(),
            i + needle@.len() <= hay@.len(),
            forall|j: int| 0 <= j < k ==> hay@[i + j] == #[trigger] needle@[j],
        decreases needle@.len() - k,
    {
        if hay[i + k] != needle[k] {
            assert(hay@.subrange(i as int, i + needle@.len())[k as int] != needle@[k as int]);
            return false;
        }
        k = k + 1;
    }
    assert(hay@.subrange(i as int, i + needle@.len()) =~= needle@);
    true
}

/// Does `needle` occur in `hay`?
pub fn contains_text(hay: &str, needle: &str) -> (b: bool)
    ensures
        b == has_text(hay@, needle@),
{
    let h = chars_of(hay);
    chars_contain(&h, needle)
}

/// Are both texts the same?
pub fn same_text(a: &str, b: &str) -> (r: bool)
    ensures
        r == (a@ == b@),
{
    let x = chars_of(a);
    let y = chars_of(b);
    if x.len() != y.len() {
        return false;
    }
    let mut i: usize = 0;
    while i < x.len()
        invariant
            i <= x@.len(),
            x@.len() == y@.len(),
            x@ == a@,
            y@ == b@,
            forall|j: int| 0 <= j < i ==> x@[j] == y@[j],
        decreases x@.len() - i,
    {
        if x[i] != y[i] {
            assert(a@[i as int] != b@[i as int]);
            return false;
        }
        i = i + 1;
    }
    assert(a@ =~= b@);
    true
}

/// Does `needle` occur in the characters `h`?
pub fn chars_contain(h: &Vec<char>, needle: &str) -> (b: bool)
    ensures
        b == has_text(h@, needle@),
{
    let n = chars_of(needle);
    if n.len() > h.len() {
        assert forall|i: int| !(#[trigger] text_at(h@, n@, i)) by {}
        return false;
    }
    let last: usize = h.len() - n.len();
    let mut i: usize = 0;
    while i <= last
        invariant
            i <= last + 1,
            last < h@.len() + 1,
            last + n@.len() == h@.len(),
            n@ == needle@,
            forall|j: int| 0 <= j < i ==> !(#[trigger] text_at(h@, n@, j)),
        decreases last + 1 - i,
    {
        if occurs_at(h, &n, i) {
            assert(text_at(h@, n@, i as int));
            return true;
        }
        if i == last {
            assert forall|j: int| !(#[trigger] text_at(h@, n@, j)) by {}
            return false;
        }
        i = i + 1;
    }
    false
}

/// The character of a decimal digit.
pub open spec fn digit(d: nat) -> char
    recommends
        d < 10,
{
    (48 + d) as char
}

/// A number in decimal, without leading zeros.
pub open spec fn dec(n: nat) -> Seq<char>
    decreases n,
{
    if n < 10 {
        seq![digit(n)]
    } else {
        dec(n / 10).push(digit(n % 10))
    }
}

fn digit_text(d: u128) -> (r: &'static str)
    requires
        d < 10,
    ensures
        r@ == seq![digit(d as nat)],
{
    proof {
        reveal_strlit("0");
        reveal_strlit("1");
        reveal_strlit("2");
        reveal_strlit("3");
        reveal_strlit("4");
        reveal_strlit("5");
        reveal_strlit("6");
        reveal_strlit("7");
        reveal_strlit("8");
        reveal_strlit("9");
    }
    let r: &'static str = if d == 0 {
        "0"
    } else if d == 1 {
        "1"
    } else if d == 2 {
        "2"
    } else if d == 3 {
        "3"
    } else if d == 4 {
        "4"
    } else if d == 5 {
        "5"
    } else if d == 6 {
        "6"
    } else if d == 7 {
        "7"
    } else if d == 8 {
        "8"
    } else {
        "9"
    };
    assert(r@ =~= seq![digit(d as nat)]);
    r
}

/// Append a number in decimal.
pub fn append_dec(out: &mut String, n: u128)
    ensures
        final(out)@ == old(out)@ + dec(n as nat),
    decreases n,
{
    if n < 10 {
        out.append(digit_text(n));
    } else {
        append_dec(out, n / 10);
        out.append(digit_text(n % 10));
        assert(out@ =~= old(out)@ + dec(n as nat));
    }
}

/// What stands for the `k`th hole.
pub open spec fn hole_text(nums: Seq<u128>, k: int) -> Seq<char> {
    if 0 <= k < nums.len() {
        dec(nums[k] as nat)
    } else {
        Seq::empty()
    }
}

/// The template from `i` on with each `{}` replaced by the next number in
/// decimal, the `k`th number first.
pub open spec fn fill_from(t: Seq<char>, i: int, nums: Seq<u128>, k: int) -> Seq<char>
    decreases t.len() - i,
{
    if i < 0 || i >= t.len() {
        Seq::empty()
    } else if i + 1 < t.len() && t[i] == '{' && t[i + 1] == '}' {
        hole_text(nums, k) + fill_from(t, i + 2, nums, k + 1)
    } else {
        seq![t[i]] + fill_from(t, i + 1, nums, k)
    }
}

/// A template with its holes filled by numbers in decimal.
pub open spec fn filled(t: Seq<char>, nums: Seq<u128>) -> Seq<char> {
    fill_from(t, 0, nums, 0)
}

/// Append a template whose holes `{}` are filled by numbers in decimal.
pub fn append_filled(out: &mut String, template: &str, nums: &Vec<u128>)
    ensures
        final(out)@ == old(out)@ + filled(template@, nums@),
{
    let t = chars_of(template);
    let mut i: usize = 0;
    let mut k: usize = 0;
    let ghost all = old(out)@ + filled(template@, nums@);
    while i < t.len()
        invariant
            i <= t@.len(),
            k <= i,
            t@ == template@,
            out@ + fill_from(t@, i as int, nums@, k as int) == all,
        decreases t@.len() - i,
    {
        let ghost was = out@;
        if i + 1 < t.len() && t[i] == '{' && t[i + 1] == '}' {
            let ghost rest = fill_from(t@, i + 2, nums@, k + 1);
            if k < nums.len() {
                append_dec(out, nums[k]);
            } else {
                assert(was + Seq::<char>::empty() =~= was);
            }
            assert(was + (hole_text(nums@, k as int) + rest) =~= out@ + rest);
            i = i + 2;
            k = k + 1;
        } else {
            let ghost rest = fill_from(t@, i + 1, nums@, k as int);
            let piece = template.substring_char(i, i + 1);
            out.append(piece);
            assert(piece@ =~= seq![t@[i as int]]);
            assert(was + (seq![t@[i as int]] + rest) =~= out@ + rest);
            i = i + 1;
        }
    }
    assert(out@ =~= all);
}

/// A template whose holes `{}` are filled by numbers in decimal.
pub fn fill_text(template: &str, nums: &Vec<u128>) -> (r: String)
    ensures
        r@ == filled(template@, nums@),
{
    let mut out: String = String::new();
    append_filled(&mut out, template, nums);
    assert(out@ =~= filled(template@, nums@));
    out
}

/// The lower-case hexadecimal character of a nibble.
pub open spec fn hex_digit(d: int) -> char {
    if d < 10 {
        (48 + d) as char
    } else {
        (87 + d) as char
    }
}

/// Bytes in hexadecimal, last byte first: how hashes are shown.
pub open spec fn hex_reversed(b: Seq<u8>) -> Seq<char>
    decreases b.len(),
{
    if b.len() == 0 {
        Seq::empty()
    } else {
        seq![hex_digit(b.last() as int / 16), hex_digit(b.last() as int % 16)] + hex_reversed(
            b.drop_last(),
        )
    }
}

fn nibble_text(d: u8) -> (r: &'static str)
    requires
        d < 16,
    ensures
        r@ == seq![hex_digit(d as int)],
{
    proof {
        reveal_strlit("a");
        reveal_strlit("b");
        reveal_strlit("c");
        reveal_strlit("d");
        reveal_strlit("e");
        reveal_strlit("f");
    }
    if d < 10 {
        return digit_text(d as u128);
    }
    let r: &'static str = if d == 10 {
        "a"
    } else if d == 11 {
        "b"
    } else if d == 12 {
        "c"
    } else if d == 13 {
        "d"
    } else if d == 14 {
        "e"
    } else {
        "f"
    };
    assert(r@ =~= seq![hex_digit(d as int)]);
    r
}

/// Append bytes in hexadecimal, last byte first.
pub fn append_hex_reversed(out: &mut String, b: &[u8])
    ensures
        final(out)@ == old(out)@ + hex_reversed(b@),
{
    let mut n: usize = b.len();
    assert(b@.take(n as int) =~= b@);
    while n > 0
        invariant
            n <= b@.len(),
            out@ + hex_reversed(b@.take(n as int)) == old(out)@ + hex_reversed(b@),
        decreases n,
    {
        let ghost was = out@;
        let x: u8 = b[n - 1];
        assert(b@.take(n as int).drop_last() =~= b@.take(n - 1));
        out.append(nibble_text(x / 16));
        out.append(nibble_text(x % 16));
        let ghost rest = hex_reversed(b@.take(n - 1));
        assert(was + (seq![hex_digit(x as int / 16), hex_digit(x as int % 16)] + rest) =~= out@
            + rest);
        n = n - 1;
    }
    assert(out@ =~= old(out)@ + hex_reversed(b@));
}

} // verus!
