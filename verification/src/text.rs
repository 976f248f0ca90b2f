use vstd::prelude::*;

verus! {

/// Unicode `White_Space`: the characters that `\s` stands for in the text patterns
/// this library recognises.
pub open spec fn is_ws(c: char) -> bool {
    let n = c as u32;
    (0x9 <= n && n <= 0xD) || n == 0x20 || n == 0x85 || n == 0xA0 || n == 0x1680
        || (0x2000 <= n && n <= 0x200A) || n == 0x2028 || n == 0x2029 || n == 0x202F
        || n == 0x205F || n == 0x3000
}

/// Unicode general category `Nd` (decimal digits, Unicode 14): what `\d` stands for.
pub open spec fn is_digit(c: char) -> bool {
    let n = c as u32;
    false
        || (0x30 <= n && n <= 0x39)
        || (0x660 <= n && n <= 0x669)
        || (0x6F0 <= n && n <= 0x6F9)
        || (0x7C0 <= n && n <= 0x7C9)
        || (0x966 <= n && n <= 0x96F)
        || (0x9E6 <= n && n <= 0x9EF)
        || (0xA66 <= n && n <= 0xA6F)
        || (0xAE6 <= n && n <= 0xAEF)
        || (0xB66 <= n && n <= 0xB6F)
        || (0xBE6 <= n && n <= 0xBEF)
        || (0xC66 <= n && n <= 0xC6F)
        || (0xCE6 <= n && n <= 0xCEF)
        || (0xD66 <= n && n <= 0xD6F)
        || (0xDE6 <= n && n <= 0xDEF)
        || (0xE50 <= n && n <= 0xE59)
        || (0xED0 <= n && n <= 0xED9)
        || (0xF20 <= n && n <= 0xF29)
        || (0x1040 <= n && n <= 0x1049)
        || (0x1090 <= n && n <= 0x1099)
        || (0x17E0 <= n && n <= 0x17E9)
        || (0x1810 <= n && n <= 0x1819)
        || (0x1946 <= n && n <= 0x194F)
        || (0x19D0 <= n && n <= 0x19D9)
        || (0x1A80 <= n && n <= 0x1A89)
        || (0x1A90 <= n && n <= 0x1A99)
        || (0x1B50 <= n && n <= 0x1B59)
        || (0x1BB0 <= n && n <= 0x1BB9)
        || (0x1C40 <= n && n <= 0x1C49)
        || (0x1C50 <= n && n <= 0x1C59)
        || (0xA620 <= n && n <= 0xA629)
        || (0xA8D0 <= n && n <= 0xA8D9)
        || (0xA900 <= n && n <= 0xA909)
        || (0xA9D0 <= n && n <= 0xA9D9)
        || (0xA9F0 <= n && n <= 0xA9F9)
        || (0xAA50 <= n && n <= 0xAA59)
        || (0xABF0 <= n && n <= 0xABF9)
        || (0xFF10 <= n && n <= 0xFF19)
        || (0x104A0 <= n && n <= 0x104A9)
        || (0x10D30 <= n && n <= 0x10D39)
        || (0x11066 <= n && n <= 0x1106F)
        || (0x110F0 <= n && n <= 0x110F9)
        || (0x11136 <= n && n <= 0x1113F)
        || (0x111D0 <= n && n <= 0x111D9)
        || (0x112F0 <= n && n <= 0x112F9)
        || (0x11450 <= n && n <= 0x11459)
        || (0x114D0 <= n && n <= 0x114D9)
        || (0x11650 <= n && n <= 0x11659)
        || (0x116C0 <= n && n <= 0x116C9)
        || (0x11730 <= n && n <= 0x11739)
        || (0x118E0 <= n && n <= 0x118E9)
        || (0x11950 <= n && n <= 0x11959)
        || (0x11C50 <= n && n <= 0x11C59)
        || (0x11D50 <= n && n <= 0x11D59)
        || (0x11DA0 <= n && n <= 0x11DA9)
        || (0x16A60 <= n && n <= 0x16A69)
        || (0x16AC0 <= n && n <= 0x16AC9)
        || (0x16B50 <= n && n <= 0x16B59)
        || (0x1D7CE <= n && n <= 0x1D7FF)
        || (0x1E140 <= n && n <= 0x1E149)
        || (0x1E2F0 <= n && n <= 0x1E2F9)
        || (0x1E950 <= n && n <= 0x1E959)
        || (0x1FBF0 <= n && n <= 0x1FBF9)
}

/// ASCII decimal digit.
pub open spec fn is_ascii_digit(c: char) -> bool {
    '0' <= c && c <= '9'
}

/// Decides `is_ws`.
pub fn ws_char(c: char) -> (r: bool)
    ensures
        r == is_ws(c),
{
    let n = c as u32;
    (0x9 <= n && n <= 0xD) || n == 0x20 || n == 0x85 || n == 0xA0 || n == 0x1680
        || (0x2000 <= n && n <= 0x200A) || n == 0x2028 || n == 0x2029 || n == 0x202F
        || n == 0x205F || n == 0x3000
}

/// Decides `is_digit`.
pub fn digit_char(c: char) -> (r: bool)
    ensures
        r == is_digit(c),
{
    let n = c as u32;
    false
        || (0x30 <= n && n <= 0x39)
        || (0x660 <= n && n <= 0x669)
        || (0x6F0 <= n && n <= 0x6F9)
        || (0x7C0 <= n && n <= 0x7C9)
        || (0x966 <= n && n <= 0x96F)
        || (0x9E6 <= n && n <= 0x9EF)
        || (0xA66 <= n && n <= 0xA6F)
        || (0xAE6 <= n && n <= 0xAEF)
        || (0xB66 <= n && n <= 0xB6F)
        || (0xBE6 <= n && n <= 0xBEF)
        || (0xC66 <= n && n <= 0xC6F)
        || (0xCE6 <= n && n <= 0xCEF)
        || (0xD66 <= n && n <= 0xD6F)
        || (0xDE6 <= n && n <= 0xDEF)
        || (0xE50 <= n && n <= 0xE59)
        || (0xED0 <= n && n <= 0xED9)
        || (0xF20 <= n && n <= 0xF29)
        || (0x1040 <= n && n <= 0x1049)
        || (0x1090 <= n && n <= 0x1099)
        || (0x17E0 <= n && n <= 0x17E9)
        || (0x1810 <= n && n <= 0x1819)
        || (0x1946 <= n && n <= 0x194F)
        || (0x19D0 <= n && n <= 0x19D9)
        || (0x1A80 <= n && n <= 0x1A89)
        || (0x1A90 <= n && n <= 0x1A99)
        || (0x1B50 <= n && n <= 0x1B59)
        || (0x1BB0 <= n && n <= 0x1BB9)
        || (0x1C40 <= n && n <= 0x1C49)
        || (0x1C50 <= n && n <= 0x1C59)
        || (0xA620 <= n && n <= 0xA629)
        || (0xA8D0 <= n && n <= 0xA8D9)
        || (0xA900 <= n && n <= 0xA909)
        || (0xA9D0 <= n && n <= 0xA9D9)
        || (0xA9F0 <= n && n <= 0xA9F9)
        || (0xAA50 <= n && n <= 0xAA59)
        || (0xABF0 <= n && n <= 0xABF9)
        || (0xFF10 <= n && n <= 0xFF19)
        || (0x104A0 <= n && n <= 0x104A9)
        || (0x10D30 <= n && n <= 0x10D39)
        || (0x11066 <= n && n <= 0x1106F)
        || (0x110F0 <= n && n <= 0x110F9)
        || (0x11136 <= n && n <= 0x1113F)
        || (0x111D0 <= n && n <= 0x111D9)
        || (0x112F0 <= n && n <= 0x112F9)
        || (0x11450 <= n && n <= 0x11459)
        || (0x114D0 <= n && n <= 0x114D9)
        || (0x11650 <= n && n <= 0x11659)
        || (0x116C0 <= n && n <= 0x116C9)
        || (0x11730 <= n && n <= 0x11739)
        || (0x118E0 <= n && n <= 0x118E9)
        || (0x11950 <= n && n <= 0x11959)
        || (0x11C50 <= n && n <= 0x11C59)
        || (0x11D50 <= n && n <= 0x11D59)
        || (0x11DA0 <= n && n <= 0x11DA9)
        || (0x16A60 <= n && n <= 0x16A69)
        || (0x16AC0 <= n && n <= 0x16AC9)
        || (0x16B50 <= n && n <= 0x16B59)
        || (0x1D7CE <= n && n <= 0x1D7FF)
        || (0x1E140 <= n && n <= 0x1E149)
        || (0x1E2F0 <= n && n <= 0x1E2F9)
        || (0x1E950 <= n && n <= 0x1E959)
        || (0x1FBF0 <= n && n <= 0x1FBF9)
}

/// The characters of a string slice, as a vector.
pub fn chars_of(s: &str) -> (v: Vec<char>)
    ensures
        v@ == s@,
{
    broadcast use vstd::string::axiom_spec_iter;

    let mut v: Vec<char> = Vec::new();
    for c in it: s.chars()
        invariant
            v@ == it.seq().take(it.index() as int),
            it.seq() == s@,
    {
        v.push(c);
    }
    v
}

/// Appends one character by `String::push`; trusted to leave the old characters in place and
/// add `c` after them.
#[verifier::external_body]
pub(crate) fn push_char(s: &mut String, c: char)
    ensures
        final(s)@ == old(s)@.push(c),
{
    s.push(c);
}

/// Appends a string slice: the old characters stay in place and those of `t` follow, in order.
pub fn push_str(s: &mut String, t: &str)
    ensures
        final(s)@ == old(s)@ + t@,
{
    s.append(t);
}

/// Whether two string slices hold the same characters in the same order.
pub fn str_eq(a: &str, b: &str) -> (r: bool)
    ensures
        r == (a@ == b@),
{
    let va = chars_of(a);
    let vb = chars_of(b);
    if va.len() != vb.len() {
        return false;
    }
    let mut i: usize = 0;
    while i < va.len()
        invariant
            va@ == a@,
            vb@ == b@,
            va@.len() == vb@.len(),
            i <= va@.len(),
            forall|k: int| 0 <= k < i ==> va@[k] == vb@[k],
        decreases va.len() - i,
    {
        if va[i] != vb[i] {
            assert(a@[i as int] != b@[i as int]);
            return false;
        }
        i = i + 1;
    }
    assert(va@ =~= vb@);
    true
}

/// An owned copy of a string slice (`str::to_owned`).
pub fn to_string(s: &str) -> (r: String)
    ensures
        r@ == s@,
{
    s.to_owned()
}

/// Builds a string from a run of characters.
pub fn string_from_chars(v: &[char], from: usize, to: usize) -> (r: String)
    requires
        from <= to <= v@.len(),
    ensures
        r@ == v@.subrange(from as int, to as int),
{
    let mut r = String::new();
    let mut i = from;
    while i < to
        invariant
            from <= i <= to <= v@.len(),
            r@ == v@.subrange(from as int, i as int),
        decreases to - i,
    {
        push_char(&mut r, v[i]);
        assert(v@.subrange(from as int, (i + 1) as int) =~= v@.subrange(from as int, i as int).push(v@[i as int]));
        i = i + 1;
    }
    r
}

/// Whether the characters `v[from..]` start with `p`.
pub open spec fn starts_at(v: Seq<char>, from: int, p: Seq<char>) -> bool {
    0 <= from && from + p.len() <= v.len() && v.subrange(from, from + p.len()) == p
}

/// Decides `starts_at`.
pub fn starts_at_exec(v: &[char], from: usize, p: &[char]) -> (r: bool)
    ensures
        r == starts_at(v@, from as int, p@),
{
    if from > v.len() || p.len() > v.len() - from {
        return false;
    }
    let mut i: usize = 0;
    while i < p.len()
        invariant
            from + p@.len() <= v@.len(),
            v@.len() == v.len(),
            i <= p@.len(),
            forall|j: int| 0 <= j < i ==> v@[from + j] == p@[j],
        decreases p.len() - i,
    {
        if v[from + i] != p[i] {
            assert(v@.subrange(from as int, from + p@.len())[i as int] != p@[i as int]);
            return false;
        }
        i = i + 1;
    }
    assert(v@.subrange(from as int, from + p@.len()) =~= p@);
    true
}


/// The views of a list of strings.
pub open spec fn strings_view(v: Seq<String>) -> Seq<Seq<char>> {
    v.map_values(|x: String| x@)
}

/// `cur` without one trailing carriage return.
pub open spec fn strip_cr(cur: Seq<char>) -> Seq<char> {
    if cur.len() > 0 && cur.last() == '\r' {
        cur.drop_last()
    } else {
        cur
    }
}

/// The lines of `s` from position `i` on, given the lines `done` and the partial line `cur`
/// found before `i`.
pub open spec fn fold_lines(s: Seq<char>, i: int, done: Seq<Seq<char>>, cur: Seq<char>) -> Seq<Seq<char>>
    decreases s.len() - i,
{
    if i < 0 || i >= s.len() {
        if cur.len() > 0 {
            done.push(cur)
        } else {
            done
        }
    } else if s[i] == '\n' {
        fold_lines(s, i + 1, done.push(strip_cr(cur)), Seq::empty())
    } else {
        fold_lines(s, i + 1, done, cur.push(s[i]))
    }
}

/// The lines of a text as `str::lines` gives them: split at `\n` or `\r\n`; a final line
/// ending is optional.
pub open spec fn text_lines(s: Seq<char>) -> Seq<Seq<char>> {
    fold_lines(s, 0, Seq::empty(), Seq::empty())
}

/// The words of `s` from position `i` on, given the words `done` and the partial word `cur`.
pub open spec fn fold_words(s: Seq<char>, i: int, done: Seq<Seq<char>>, cur: Seq<char>) -> Seq<Seq<char>>
    decreases s.len() - i,
{
    if i < 0 || i >= s.len() {
        if cur.len() > 0 {
            done.push(cur)
        } else {
            done
        }
    } else if is_ws(s[i]) {
        fold_words(s, i + 1, if cur.len() > 0 { done.push(cur) } else { done }, Seq::empty())
    } else {
        fold_words(s, i + 1, done, cur.push(s[i]))
    }
}

/// The words of a text as `str::split_whitespace` gives them.
pub open spec fn text_words(s: Seq<char>) -> Seq<Seq<char>> {
    fold_words(s, 0, Seq::empty(), Seq::empty())
}

/// The lines of a text (`str::lines`).
pub fn lines(s: &str) -> (r: Vec<String>)
    ensures
        strings_view(r@) == text_lines(s@),
{
    let v = chars_of(s);
    let mut r: Vec<String> = Vec::new();
    let mut start: usize = 0;
    let mut i: usize = 0;
    assert(strings_view(r@) =~= Seq::<Seq<char>>::empty());
    assert(v@.subrange(0, 0) =~= Seq::<char>::empty());
    while i < v.len()
        invariant
            start <= i <= v@.len(),
            v@ == s@,
            fold_lines(v@, i as int, strings_view(r@), v@.subrange(start as int, i as int)) == text_lines(s@),
        decreases v.len() - i,
    {
        if v[i] == '\n' {
            let mut end = i;
            if end > start && v[end - 1] == '\r' {
                end = end - 1;
            }
            let line = string_from_chars(v.as_slice(), start, end);
            let ghost before = strings_view(r@);
            r.push(line);
            proof {
                let cur = v@.subrange(start as int, i as int);
                assert(strip_cr(cur) =~= v@.subrange(start as int, end as int));
                assert(strings_view(r@) =~= before.push(strip_cr(cur)));
                assert(v@.subrange((i + 1) as int, (i + 1) as int) =~= Seq::<char>::empty());
            }
            start = i + 1;
        } else {
            assert(v@.subrange(start as int, (i + 1) as int) =~= v@.subrange(start as int, i as int).push(v@[i as int]));
        }
        i = i + 1;
    }
    if start < v.len() {
        let line = string_from_chars(v.as_slice(), start, v.len());
        let ghost before = strings_view(r@);
        r.push(line);
        assert(strings_view(r@) =~= before.push(v@.subrange(start as int, v@.len() as int)));
    }
    r
}

/// The words of a text (`str::split_whitespace`).
pub fn split_ws(s: &str) -> (r: Vec<String>)
    ensures
        strings_view(r@) == text_words(s@),
{
    let v = chars_of(s);
    let mut r: Vec<String> = Vec::new();
    let mut start: usize = 0;
    let mut i: usize = 0;
    assert(strings_view(r@) =~= Seq::<Seq<char>>::empty());
    assert(v@.subrange(0, 0) =~= Seq::<char>::empty());
    while i < v.len()
        invariant
            start <= i <= v@.len(),
            v@ == s@,
            fold_words(v@, i as int, strings_view(r@), v@.subrange(start as int, i as int)) == text_words(s@),
        decreases v.len() - i,
    {
        if ws_char(v[i]) {
            if i > start {
                let word = string_from_chars(v.as_slice(), start, i);
                let ghost before = strings_view(r@);
                r.push(word);
                assert(strings_view(r@) =~= before.push(v@.subrange(start as int, i as int)));
            }
            assert(v@.subrange((i + 1) as int, (i + 1) as int) =~= Seq::<char>::empty());
            start = i + 1;
        } else {
            assert(v@.subrange(start as int, (i + 1) as int) =~= v@.subrange(start as int, i as int).push(v@[i as int]));
        }
        i = i + 1;
    }
    if start < v.len() {
        let word = string_from_chars(v.as_slice(), start, v.len());
        let ghost before = strings_view(r@);
        r.push(word);
        assert(strings_view(r@) =~= before.push(v@.subrange(start as int, v@.len() as int)));
    }
    r
}

} // verus!
