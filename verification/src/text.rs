//! Text helpers: prefixes, decimal numbers, joining, trimming, decoding
//! captured bytes, and resolution of Godot virtual paths.
use vstd::prelude::*;
use vstd::string::*;
use vstd::utf8::*;

verus! {

/// The character for a decimal digit `d` (0 through 9).
pub open spec fn digit_char(d: int) -> char {
    if d == 0 {
        '0'
    } else if d == 1 {
        '1'
    } else if d == 2 {
        '2'
    } else if d == 3 {
        '3'
    } else if d == 4 {
        '4'
    } else if d == 5 {
        '5'
    } else if d == 6 {
        '6'
    } else if d == 7 {
        '7'
    } else if d == 8 {
        '8'
    } else {
        '9'
    }
}

/// The decimal notation of `n`, without sign and without leading zeros,
/// as `to_string` writes an unsigned integer.
pub open spec fn decimal(n: nat) -> Seq<char>
    decreases n,
{
    if n < 10 {
        seq![digit_char(n as int)]
    } else {
        decimal(n / 10).push(digit_char((n % 10) as int))
    }
}

/// The number that a text of decimal digits denotes, most significant digit
/// first (each character counted by its distance from `'0'`).
pub open spec fn decimal_value(s: Seq<char>) -> int
    decreases s.len(),
{
    if s.len() == 0 {
        0
    } else {
        decimal_value(s.drop_last()) * 10 + ((s.last() as u32) - ('0' as u32))
    }
}

/// Whether `c` is one of the ASCII digits `0` through `9`.
pub open spec fn is_ascii_digit(c: char) -> bool {
    ('0' as u32) <= (c as u32) <= ('9' as u32)
}

/// Decimal notation is what `to_string` writes: a non-empty run of ASCII
/// digits that denotes `n` and has no leading zero unless `n` is zero.
pub proof fn law_decimal_notation(n: nat)
    ensures
        decimal(n).len() >= 1,
        forall|i: int| 0 <= i < decimal(n).len() ==> is_ascii_digit(#[trigger] decimal(n)[i]),
        decimal_value(decimal(n)) == n,
        decimal(n)[0] == '0' ==> n == 0,
    decreases n,
{
    if n < 10 {
        let d = digit_char(n as int);
        assert(d as u32 == ('0' as u32) + n);
        assert(seq![d].drop_last() =~= Seq::<char>::empty());
        assert(decimal_value(Seq::<char>::empty()) == 0);
        assert(decimal_value(seq![d]) == n);
    } else {
        law_decimal_notation(n / 10);
        let s = decimal(n / 10);
        let d = digit_char((n % 10) as int);
        assert(d as u32 == ('0' as u32) + n % 10);
        assert(s.push(d).drop_last() =~= s);
        assert(n == (n / 10) * 10 + n % 10);
        assert(decimal_value(s.push(d)) == decimal_value(s) * 10 + ((d as u32) - ('0' as u32)));
        assert forall|i: int| 0 <= i < s.push(d).len() implies is_ascii_digit(
            #[trigger] s.push(d)[i],
        ) by {
            if i < s.len() {
                assert(s.push(d)[i] == s[i]);
            }
        }
        assert(s.push(d)[0] == s[0]);
    }
}

/// `parts` joined with one space between neighbours, as `join(" ")` does.
pub open spec fn join_space(parts: Seq<Seq<char>>) -> Seq<char>
    decreases parts.len(),
{
    if parts.len() == 0 {
        Seq::empty()
    } else if parts.len() == 1 {
        parts[0]
    } else {
        join_space(parts.drop_last()) + seq![' '] + parts.last()
    }
}

/// Unicode `White_Space`, the property by which `str::trim` cuts.
pub open spec fn is_white_space_spec(c: char) -> bool {
    let v = c as u32;
    ||| 0x9 <= v <= 0xd
    ||| v == 0x20
    ||| v == 0x85
    ||| v == 0xa0
    ||| v == 0x1680
    ||| 0x2000 <= v <= 0x200a
    ||| v == 0x2028
    ||| v == 0x2029
    ||| v == 0x202f
    ||| v == 0x205f
    ||| v == 0x3000
}

/// `s` without its leading white space.
pub open spec fn trim_front(s: Seq<char>) -> Seq<char>
    decreases s.len(),
{
    if s.len() > 0 && is_white_space_spec(s[0]) {
        trim_front(s.drop_first())
    } else {
        s
    }
}

/// `s` without its trailing white space.
pub open spec fn trim_back(s: Seq<char>) -> Seq<char>
    decreases s.len(),
{
    if s.len() > 0 && is_white_space_spec(s.last()) {
        trim_back(s.drop_last())
    } else {
        s
    }
}

/// `s` without leading and trailing white space, as `str::trim` gives it.
pub open spec fn trimmed(s: Seq<char>) -> Seq<char> {
    trim_back(trim_front(s))
}

proof fn lemma_trim_front_shape(s: Seq<char>)
    ensures
        exists|i: int|
            0 <= i <= s.len() && trim_front(s) == s.subrange(i, s.len() as int) && (forall|k: int|
                0 <= k < i ==> is_white_space_spec(#[trigger] s[k])) && (i < s.len()
                ==> !is_white_space_spec(s[i])),
    decreases s.len(),
{
    if s.len() > 0 && is_white_space_spec(s[0]) {
        let t = s.drop_first();
        lemma_trim_front_shape(t);
        let j = choose|j: int|
            0 <= j <= t.len() && trim_front(t) == t.subrange(j, t.len() as int) && (forall|k: int|
                0 <= k < j ==> is_white_space_spec(#[trigger] t[k])) && (j < t.len()
                ==> !is_white_space_spec(t[j]));
        assert(t.subrange(j, t.len() as int) =~= s.subrange(j + 1, s.len() as int));
        assert forall|k: int| 0 <= k < j + 1 implies is_white_space_spec(#[trigger] s[k]) by {
            if k > 0 {
                assert(s[k] == t[k - 1]);
            }
        }
        assert(j + 1 < s.len() ==> s[j + 1] == t[j]);
    } else {
        assert(s.subrange(0, s.len() as int) =~= s);
    }
}

proof fn lemma_trim_back_shape(s: Seq<char>)
    ensures
        exists|j: int|
            0 <= j <= s.len() && trim_back(s) == s.subrange(0, j) && (forall|k: int|
                j <= k < s.len() ==> is_white_space_spec(#[trigger] s[k])) && (j > 0
                ==> !is_white_space_spec(s[j - 1])),
    decreases s.len(),
{
    if s.len() > 0 && is_white_space_spec(s.last()) {
        let t = s.drop_last();
        lemma_trim_back_shape(t);
        let j = choose|j: int|
            0 <= j <= t.len() && trim_back(t) == t.subrange(0, j) && (forall|k: int|
                j <= k < t.len() ==> is_white_space_spec(#[trigger] t[k])) && (j > 0
                ==> !is_white_space_spec(t[j - 1]));
        assert(t.subrange(0, j) =~= s.subrange(0, j));
        assert forall|k: int| j <= k < s.len() implies is_white_space_spec(#[trigger] s[k]) by {
            if k < t.len() {
                assert(s[k] == t[k]);
            }
        }
        assert(j > 0 ==> s[j - 1] == t[j - 1]);
    } else {
        assert(s.subrange(0, s.len() as int) =~= s);
    }
}

/// Trimming only cuts white space at the ends: the result is the part of
/// `s` between a white-space prefix and a white-space suffix, and when it is
/// not empty it neither begins nor ends with white space.
pub proof fn law_trim_shape(s: Seq<char>)
    ensures
        exists|i: int, j: int|
            0 <= i <= j <= s.len() && trimmed(s) == s.subrange(i, j) && (forall|k: int|
                0 <= k < i ==> is_white_space_spec(#[trigger] s[k])) && (forall|k: int|
                j <= k < s.len() ==> is_white_space_spec(#[trigger] s[k])) && (i < j
                ==> !is_white_space_spec(s[i]) && !is_white_space_spec(s[j - 1])),
{
    lemma_trim_front_shape(s);
    let i = choose|i: int|
        0 <= i <= s.len() && trim_front(s) == s.subrange(i, s.len() as int) && (forall|k: int|
            0 <= k < i ==> is_white_space_spec(#[trigger] s[k])) && (i < s.len()
            ==> !is_white_space_spec(s[i]));
    let f = trim_front(s);
    lemma_trim_back_shape(f);
    let m = choose|m: int|
        0 <= m <= f.len() && trim_back(f) == f.subrange(0, m) && (forall|k: int|
            m <= k < f.len() ==> is_white_space_spec(#[trigger] f[k])) && (m > 0
            ==> !is_white_space_spec(f[m - 1]));
    let j = i + m;
    assert(f.subrange(0, m) =~= s.subrange(i, j));
    assert forall|k: int| j <= k < s.len() implies is_white_space_spec(#[trigger] s[k]) by {
        assert(s[k] == f[k - i]);
    }
    if i < j {
        assert(s[i] == f[0]);
        assert(s[j - 1] == f[m - 1]);
    }
}

/// Whether `s` names a Godot resource (`res://`) or user (`user://`) path.
pub open spec fn is_virtual_path_spec(s: Seq<char>) -> bool {
    "res://"@.is_prefix_of(s) || "user://"@.is_prefix_of(s)
}

/// The text that `String::from_utf8_lossy` makes of `bytes`.
pub uninterp spec fn lossy_utf8(bytes: Seq<u8>) -> Seq<char>;

/// Decodes captured bytes as UTF-8, replacing invalid sequences.
///
/// Calls `String::from_utf8_lossy`. Its contract claims that the result is
/// a function of the bytes alone (named [`lossy_utf8`]) and, as the std
/// documentation states, that valid UTF-8 comes back as the text it
/// encodes. What replacement characters stand for invalid sequences is left
/// unsaid.
#[verifier::external_body]
pub(crate) fn utf8_lossy(bytes: &[u8]) -> (s: String)
    ensures
        s@ == lossy_utf8(bytes@),
        valid_utf8(bytes@) ==> s@ == decode_utf8(bytes@),
{
    String::from_utf8_lossy(bytes).into_owned()
}

/// The one-character text of digit `d`.
fn digit_text(d: u32) -> (s: &'static str)
    requires
        d < 10,
    ensures
        s@ == seq![digit_char(d as int)],
{
    if d == 0 {
        proof { reveal_strlit("0"); }
        "0"
    } else if d == 1 {
        proof { reveal_strlit("1"); }
        "1"
    } else if d == 2 {
        proof { reveal_strlit("2"); }
        "2"
    } else if d == 3 {
        proof { reveal_strlit("3"); }
        "3"
    } else if d == 4 {
        proof { reveal_strlit("4"); }
        "4"
    } else if d == 5 {
        proof { reveal_strlit("5"); }
        "5"
    } else if d == 6 {
        proof { reveal_strlit("6"); }
        "6"
    } else if d == 7 {
        proof { reveal_strlit("7"); }
        "7"
    } else if d == 8 {
        proof { reveal_strlit("8"); }
        "8"
    } else {
        proof { reveal_strlit("9"); }
        "9"
    }
}

/// Decimal notation of `n`, as `n.to_string()` writes it.
pub fn decimal_text(n: u32) -> (s: String)
    ensures
        s@ == decimal(n as nat),
        decimal_value(s@) == n,
        forall|i: int| 0 <= i < s@.len() ==> is_ascii_digit(#[trigger] s@[i]),
        s@.len() >= 1,
        s@[0] == '0' ==> n == 0,
    decreases n,
{
    proof { law_decimal_notation(n as nat); }
    if n < 10 {
        String::from_str(digit_text(n))
    } else {
        let mut s = decimal_text(n / 10);
        s.append(digit_text(n % 10));
        s
    }
}

/// Whether `s` begins with `prefix`.
pub fn starts_with(s: &str, prefix: &str) -> (b: bool)
    ensures
        b == prefix@.is_prefix_of(s@),
{
    let n = prefix.unicode_len();
    let m = s.unicode_len();
    if n > m {
        return false;
    }
    let mut i: usize = 0;
    while i < n
        invariant
            n == prefix@.len(),
            m == s@.len(),
            n <= m,
            i <= n,
            forall|k: int| 0 <= k < i ==> s@[k] == prefix@[k],
        decreases n - i,
    {
        if s.get_char(i) != prefix.get_char(i) {
            assert(s@.subrange(0, n as int)[i as int] != prefix@[i as int]);
            return false;
        }
        i = i + 1;
    }
    assert(prefix@ =~= s@.subrange(0, n as int));
    true
}

/// Whether `s` names a Godot resource (`res://`) or user (`user://`) path.
pub fn is_virtual_path(s: &str) -> (b: bool)
    ensures
        b == is_virtual_path_spec(s@),
{
    starts_with(s, "res://") || starts_with(s, "user://")
}

/// Resolves a possibly virtual Godot path to a file-system path.
///
/// A virtual path (`res://`, `user://`) becomes `globalized`, the file-system
/// path that Godot's project settings give for it; any other input is kept
/// verbatim.
pub fn resolve_path(input: &str, globalized: Option<String>) -> (r: String)
    requires
        is_virtual_path_spec(input@) ==> globalized is Some,
    ensures
        is_virtual_path_spec(input@) ==> r@ == globalized->0@,
        !is_virtual_path_spec(input@) ==> r@ == input@,
{
    if is_virtual_path(input) {
        match globalized {
            Some(g) => g,
            None => String::from_str(input),
        }
    } else {
        String::from_str(input)
    }
}

/// Resolves the path of a `.wasm` module the way [`resolve_path`] does.
pub fn resolve_module_path(input: &str, globalized: Option<String>) -> (r: String)
    requires
        is_virtual_path_spec(input@) ==> globalized is Some,
    ensures
        is_virtual_path_spec(input@) ==> r@ == globalized->0@,
        !is_virtual_path_spec(input@) ==> r@ == input@,
{
    resolve_path(input, globalized)
}

/// `parts` joined with single spaces.
pub fn join_with_space(parts: &Vec<String>) -> (s: String)
    ensures
        s@ == join_space(parts.deep_view()),
{
    let mut s = String::new();
    let mut i: usize = 0;
    while i < parts.len()
        invariant
            i <= parts.len(),
            s@ == join_space(parts.deep_view().take(i as int)),
        decreases parts.len() - i,
    {
        let ghost before = parts.deep_view().take(i as int);
        let ghost s0 = s@;
        if i > 0 {
            s.append(" ");
        }
        s.append(parts[i].as_str());
        proof {
            reveal_strlit(" ");
            let now = parts.deep_view().take(i + 1);
            assert(now.drop_last() =~= before);
            assert(now.last() == parts[i as int]@);
            if i == 0 {
                assert(before.len() == 0);
                assert(s@ =~= now[0]);
            } else {
                assert(s@ =~= s0 + seq![' '] + now.last());
            }
        }
        i = i + 1;
    }
    assert(parts.deep_view().take(parts.len() as int) =~= parts.deep_view());
    s
}

/// Whether `c` is Unicode white space.
pub fn is_white_space(c: char) -> (b: bool)
    ensures
        b == is_white_space_spec(c),
{
    let v = c as u32;
    (0x9 <= v && v <= 0xd) || v == 0x20 || v == 0x85 || v == 0xa0 || v == 0x1680 || (0x2000 <= v
        && v <= 0x200a) || v == 0x2028 || v == 0x2029 || v == 0x202f || v == 0x205f || v == 0x3000
}

proof fn lemma_trim_front_skip(s: Seq<char>, i: int)
    requires
        0 <= i < s.len(),
        is_white_space_spec(s[i]),
    ensures
        trim_front(s.subrange(i, s.len() as int)) == trim_front(s.subrange(i + 1, s.len() as int)),
{
    let t = s.subrange(i, s.len() as int);
    assert(t.drop_first() =~= s.subrange(i + 1, s.len() as int));
}

proof fn lemma_trim_back_skip(s: Seq<char>, i: int, j: int)
    requires
        0 <= i < j <= s.len(),
        is_white_space_spec(s[j - 1]),
    ensures
        trim_back(s.subrange(i, j)) == trim_back(s.subrange(i, j - 1)),
{
    let t = s.subrange(i, j);
    assert(t.drop_last() =~= s.subrange(i, j - 1));
}

/// `s` with leading and trailing white space removed, as `str::trim` gives it.
pub fn trim(s: &str) -> (r: String)
    ensures
        r@ == trimmed(s@),
{
    let n = s.unicode_len();
    let mut i: usize = 0;
    assert(s@.subrange(0, n as int) =~= s@);
    while i < n && is_white_space(s.get_char(i))
        invariant
            i <= n,
            n == s@.len(),
            trim_front(s@) == trim_front(s@.subrange(i as int, n as int)),
        decreases n - i,
    {
        proof { lemma_trim_front_skip(s@, i as int); }
        i = i + 1;
    }
    proof {
        if i < n {
            assert(s@.subrange(i as int, n as int)[0] == s@[i as int]);
        }
    }
    let mut j: usize = n;
    while j > i && is_white_space(s.get_char(j - 1))
        invariant
            i <= j <= n,
            n == s@.len(),
            trim_front(s@) == s@.subrange(i as int, n as int),
            trim_back(s@.subrange(i as int, n as int)) == trim_back(s@.subrange(i as int, j as int)),
        decreases j - i,
    {
        proof { lemma_trim_back_skip(s@, i as int, j as int); }
        j = j - 1;
    }
    let r = String::from_str(s.substring_char(i, j));
    proof {
        let t = s@.subrange(i as int, j as int);
        if t.len() > 0 {
            assert(t.last() == s@[j - 1]);
        }
    }
    r
}

} // verus!
