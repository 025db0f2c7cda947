//! Text rules: the shape that a snapshot must have and the canonical form of
//! an emitter address.
use vstd::prelude::*;
use vstd::string::{StrSliceExecFns, StringExecFns};

verus! {

/// Unicode's White_Space characters.
pub open spec fn white_space(c: char) -> bool {
    let v = c as u32;
    (0x09 <= v && v <= 0x0d) || v == 0x20 || v == 0x85 || v == 0xa0 || v == 0x1680 || (0x2000
        <= v && v <= 0x200a) || v == 0x2028 || v == 0x2029 || v == 0x202f || v == 0x205f || v
        == 0x3000
}

/// Every character of `t` is white space.
pub open spec fn blank(t: Seq<char>) -> bool {
    forall|k: int| 0 <= k < t.len() ==> white_space(#[trigger] t[k])
}

/// Text that, once white space is trimmed from both ends, begins with `{` and
/// ends with `}`.
pub open spec fn is_json_object_text(s: Seq<char>) -> bool {
    exists|i: int, j: int|
        0 <= i < j < s.len() && #[trigger] s[i] == '{' && #[trigger] s[j] == '}' && blank(
            s.subrange(0, i),
        ) && blank(s.subrange(j + 1, s.len() as int))
}

/// `s` with every `0x` removed, matches taken from the left without overlap.
pub open spec fn without_0x(s: Seq<char>) -> Seq<char>
    decreases s.len(),
{
    if s.len() == 0 {
        s
    } else if s.len() >= 2 && s[0] == '0' && s[1] == 'x' {
        without_0x(s.subrange(2, s.len() as int))
    } else {
        seq![s[0]] + without_0x(s.subrange(1, s.len() as int))
    }
}

/// `s` with `0` added in front up to 64 characters.
pub open spec fn pad_to_64(s: Seq<char>) -> Seq<char> {
    if s.len() >= 64 {
        s
    } else {
        Seq::new((64 - s.len()) as nat, |k: int| '0') + s
    }
}

/// The lower-case form of text.
pub uninterp spec fn lower_of(s: Seq<char>) -> Seq<char>;

/// The canonical form of an emitter address: lower case, `0x` removed, and
/// padded with leading zeros to 64 digits.
pub open spec fn canonical_emitter(s: Seq<char>) -> Seq<char> {
    pad_to_64(without_0x(lower_of(s)))
}

/// Relies on str::to_lowercase: the result depends on the characters alone.
#[verifier::external_body]
pub(crate) fn lowercase(s: &str) -> (r: String)
    ensures
        r@ == lower_of(s@),
{
    s.to_lowercase()
}

/// Whether `c` is white space.
pub fn is_white_space(c: char) -> (r: bool)
    ensures
        r == white_space(c),
{
    let v = c as u32;
    (0x09 <= v && v <= 0x0d) || v == 0x20 || v == 0x85 || v == 0xa0 || v == 0x1680 || (0x2000
        <= v && v <= 0x200a) || v == 0x2028 || v == 0x2029 || v == 0x202f || v == 0x205f || v
        == 0x3000
}

/// Whether the trimmed text begins with `{` and ends with `}`.
pub fn looks_like_json_object(s: &str) -> (r: bool)
    ensures
        r == is_json_object_text(s@),
{
    let n = s.unicode_len();
    let mut i: usize = 0;
    while i < n
        invariant
            n == s@.len(),
            i <= n,
            blank(s@.subrange(0, i as int)),
        ensures
            i <= n,
            blank(s@.subrange(0, i as int)),
            i == n || !white_space(s@[i as int]),
        decreases n - i,
    {
        if !is_white_space(s.get_char(i)) {
            break;
        }
        assert(s@.subrange(0, i + 1) =~= s@.subrange(0, i as int).push(s@[i as int]));
        i += 1;
    }
    if i == n {
        proof {
            assert forall|a: int, b: int|
                0 <= a < b < s@.len() && #[trigger] s@[a] == '{' && #[trigger] s@[b] == '}'
                    && blank(s@.subrange(0, a)) implies !blank(
                s@.subrange(b + 1, s@.len() as int),
            ) by {
                assert(s@.subrange(0, i as int)[a] == s@[a]);
            }
        }
        return false;
    }
    let mut j: usize = n;
    while j > i + 1
        invariant
            n == s@.len(),
            i < j <= n,
            blank(s@.subrange(j as int, n as int)),
        ensures
            i < j <= n,
            blank(s@.subrange(j as int, n as int)),
            j == i + 1 || !white_space(s@[j - 1]),
        decreases j,
    {
        if !is_white_space(s.get_char(j - 1)) {
            break;
        }
        assert(s@.subrange(j - 1, n as int) =~= seq![s@[j - 1]] + s@.subrange(j as int, n as int));
        j -= 1;
    }
    let first = s.get_char(i);
    let last = s.get_char(j - 1);
    let r = first == '{' && last == '}';
    proof {
        if r {
            assert(s@.subrange(j as int, s@.len() as int) == s@.subrange((j - 1) + 1, s@.len() as int));
        } else {
            assert forall|a: int, b: int|
                0 <= a < b < s@.len() && #[trigger] s@[a] == '{' && #[trigger] s@[b] == '}'
                    && blank(s@.subrange(0, a)) implies !blank(
                s@.subrange(b + 1, s@.len() as int),
            ) by {
                if a < i {
                    assert(s@.subrange(0, i as int)[a] == s@[a]);
                } else if a > i {
                    assert(s@.subrange(0, a)[i as int] == s@[i as int]);
                } else if b < j - 1 {
                    assert(s@.subrange(b + 1, s@.len() as int)[(j - 1) - (b + 1)] == s@[j - 1]);
                } else if b >= j {
                    assert(s@.subrange(j as int, n as int)[b - j] == s@[b]);
                }
            }
        }
    }
    r
}

/// `s` with every `0x` removed.
pub fn remove_0x(s: &str) -> (r: String)
    ensures
        r@ == without_0x(s@),
{
    let n = s.unicode_len();
    let mut out = String::new();
    let mut i: usize = 0;
    assert(s@.subrange(0, n as int) =~= s@);
    assert(out@ + without_0x(s@) =~= without_0x(s@));
    while i < n
        invariant
            n == s@.len(),
            i <= n,
            out@ + without_0x(s@.subrange(i as int, n as int)) == without_0x(s@),
        decreases n - i,
    {
        let ghost rest = s@.subrange(i as int, n as int);
        if i + 1 < n && s.get_char(i) == '0' && s.get_char(i + 1) == 'x' {
            assert(rest.subrange(2, rest.len() as int) =~= s@.subrange(i + 2, n as int));
            i += 2;
        } else {
            let c = s.substring_char(i, i + 1);
            assert(c@ =~= seq![s@[i as int]]);
            assert(rest.subrange(1, rest.len() as int) =~= s@.subrange(i + 1, n as int));
            let ghost before = out@;
            out.append(c);
            assert(before + (seq![s@[i as int]] + without_0x(s@.subrange(i + 1, n as int)))
                =~= out@ + without_0x(s@.subrange(i + 1, n as int)));
            i += 1;
        }
    }
    assert(s@.subrange(n as int, n as int) =~= Seq::<char>::empty());
    assert(out@ + Seq::<char>::empty() =~= out@);
    out
}

/// `s` with `0` added in front up to 64 characters.
pub fn pad_left_64(s: &str) -> (r: String)
    ensures
        r@ == pad_to_64(s@),
{
    let n = s.unicode_len();
    if n >= 64 {
        return String::from_str(s);
    }
    let mut out = String::new();
    let mut k: usize = n;
    while k < 64
        invariant
            n <= k <= 64,
            out@ =~= Seq::new((k - n) as nat, |m: int| '0'),
        decreases 64 - k,
    {
        proof {
            reveal_strlit("0");
        }
        out.append("0");
        k += 1;
    }
    out.append(s);
    out
}

/// The canonical form of an emitter address.
pub fn canonicalize_emitter(s: &str) -> (r: String)
    ensures
        r@ == canonical_emitter(s@),
{
    let lower = lowercase(s);
    let stripped = remove_0x(lower.as_str());
    pad_left_64(stripped.as_str())
}

} // verus!
