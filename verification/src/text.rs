//! Character-level text operations shared by the embed pipeline: Unicode
//! whitespace, trimming, whitespace normalization, and codepoint clamping.

use vstd::prelude::*;
use vstd::string::StrSliceExecFns;

verus! {

/// An optional string as an optional character sequence.
pub open spec fn opt_view(o: Option<String>) -> Option<Seq<char>> {
    match o {
        Some(s) => Some(s@),
        None => None,
    }
}

/// The Unicode `White_Space` code points, the set that `str::trim` and
/// `str::split_whitespace` split on.
pub open spec fn is_space(c: char) -> bool {
    let u = c as u32;
    ||| u == 0x20
    ||| (0x09 <= u && u <= 0x0D)
    ||| u == 0x85
    ||| u == 0xA0
    ||| u == 0x1680
    ||| (0x2000 <= u && u <= 0x200A)
    ||| u == 0x2028
    ||| u == 0x2029
    ||| u == 0x202F
    ||| u == 0x3000
    ||| u == 0x205F
}

fn is_space_char(c: char) -> (r: bool)
    ensures
        r == is_space(c),
{
    let u = c as u32;
    u == 0x20 || (0x09 <= u && u <= 0x0D) || u == 0x85 || u == 0xA0 || u == 0x1680 || (0x2000 <= u
        && u <= 0x200A) || u == 0x2028 || u == 0x2029 || u == 0x202F || u == 0x3000 || u == 0x205F
}

/// The text with leading whitespace removed.
pub open spec fn trim_start_spec(s: Seq<char>) -> Seq<char>
    decreases s.len(),
{
    if s.len() > 0 && is_space(s[0]) {
        trim_start_spec(s.drop_first())
    } else {
        s
    }
}

/// The text with trailing whitespace removed.
pub open spec fn trim_end_spec(s: Seq<char>) -> Seq<char>
    decreases s.len(),
{
    if s.len() > 0 && is_space(s.last()) {
        trim_end_spec(s.drop_last())
    } else {
        s
    }
}

/// The text with both leading and trailing whitespace removed.
pub open spec fn trim_spec(s: Seq<char>) -> Seq<char> {
    trim_end_spec(trim_start_spec(s))
}

proof fn lemma_trim_start_index(s: Seq<char>, i: int)
    requires
        0 <= i <= s.len(),
        forall|k: int| 0 <= k < i ==> is_space(s[k]),
        i < s.len() ==> !is_space(s[i]),
    ensures
        trim_start_spec(s) == s.subrange(i, s.len() as int),
    decreases i,
{
    if i == 0 {
        assert(s.subrange(0, s.len() as int) =~= s);
    } else {
        let t = s.drop_first();
        assert(forall|k: int| 0 <= k < i - 1 ==> is_space(#[trigger] t[k]));
        lemma_trim_start_index(t, i - 1);
        assert(t.subrange(i - 1, t.len() as int) =~= s.subrange(i, s.len() as int));
    }
}

proof fn lemma_trim_end_index(s: Seq<char>, j: int)
    requires
        0 <= j <= s.len(),
        forall|k: int| j <= k < s.len() ==> is_space(s[k]),
        j > 0 ==> !is_space(s[j - 1]),
    ensures
        trim_end_spec(s) == s.subrange(0, j),
    decreases s.len() - j,
{
    if j == s.len() {
        if j > 0 {
            assert(s.subrange(0, j) =~= s);
        } else {
            assert(s.subrange(0, 0) =~= s);
        }
    } else {
        let t = s.drop_last();
        assert(forall|k: int| j <= k < t.len() ==> is_space(#[trigger] t[k]));
        lemma_trim_end_index(t, j);
        assert(t.subrange(0, j) =~= s.subrange(0, j));
    }
}

/// The characters of `s`, in order.
pub fn chars_vec(s: &str) -> (r: Vec<char>)
    ensures
        r@ == s@,
{
    let n = s.unicode_len();
    let mut v: Vec<char> = Vec::new();
    let mut i: usize = 0;
    while i < n
        invariant
            i <= n,
            n == s@.len(),
            v@ == s@.subrange(0, i as int),
        decreases n - i,
    {
        v.push(s.get_char(i));
        proof {
            assert(v@ =~= s@.subrange(0, i + 1 as int));
        }
        i += 1;
    }
    proof {
        assert(s@.subrange(0, n as int) =~= s@);
    }
    v
}

/// Drop leading and trailing whitespace characters.
pub fn trim_chars(chars: &Vec<char>) -> (r: Vec<char>)
    ensures
        r@ == trim_spec(chars@),
{
    let n = chars.len();
    let mut lo: usize = 0;
    while lo < n && is_space_char(chars[lo])
        invariant
            lo <= n,
            n == chars@.len(),
            forall|k: int| 0 <= k < lo ==> is_space(chars@[k]),
        decreases n - lo,
    {
        lo += 1;
    }
    let mut hi: usize = n;
    while hi > lo && is_space_char(chars[hi - 1])
        invariant
            lo <= hi <= n,
            n == chars@.len(),
            forall|k: int| 0 <= k < lo ==> is_space(chars@[k]),
            lo < n ==> !is_space(chars@[lo as int]),
            forall|k: int| hi <= k < n ==> is_space(chars@[k]),
        decreases hi,
    {
        hi -= 1;
    }
    let mut r: Vec<char> = Vec::new();
    let mut i: usize = lo;
    while i < hi
        invariant
            lo <= i <= hi <= n,
            n == chars@.len(),
            r@ == chars@.subrange(lo as int, i as int),
        decreases hi - i,
    {
        r.push(chars[i]);
        proof {
            assert(r@ =~= chars@.subrange(lo as int, i + 1 as int));
        }
        i += 1;
    }
    proof {
        lemma_trim_start_index(chars@, lo as int);
        let t = chars@.subrange(lo as int, n as int);
        assert(forall|k: int| hi - lo <= k < t.len() ==> is_space(#[trigger] t[k]));
        lemma_trim_end_index(t, hi - lo);
        assert(t.subrange(0, hi - lo) =~= chars@.subrange(lo as int, hi as int));
    }
    r
}

/// One step of whitespace normalization: the text built so far, and whether
/// a space is owed before the next word.
pub open spec fn norm_step(acc: (Seq<char>, bool), c: char) -> (Seq<char>, bool) {
    if is_space(c) {
        (acc.0, acc.0.len() > 0)
    } else {
        ((if acc.1 {
            acc.0 + seq![' ']
        } else {
            acc.0
        }) + seq![c], false)
    }
}

pub open spec fn norm_fold(s: Seq<char>) -> (Seq<char>, bool)
    decreases s.len(),
{
    if s.len() == 0 {
        (Seq::empty(), false)
    } else {
        norm_step(norm_fold(s.drop_last()), s.last())
    }
}

/// The text with every run of whitespace collapsed to a single space and
/// outer whitespace removed.
pub open spec fn normalize_spec(s: Seq<char>) -> Seq<char> {
    norm_fold(s).0
}

proof fn lemma_norm_fold_shape(s: Seq<char>)
    ensures
        norm_fold(s).0.len() > 0 ==> !is_space(norm_fold(s).0.first()),
        norm_fold(s).0.len() > 0 ==> !is_space(norm_fold(s).0.last()),
        forall|i: int|
            0 < i < norm_fold(s).0.len() ==> !(is_space(norm_fold(s).0[i - 1]) && is_space(
                #[trigger] norm_fold(s).0[i],
            )),
        norm_fold(s).1 ==> norm_fold(s).0.len() > 0,
    decreases s.len(),
{
    if s.len() > 0 {
        lemma_norm_fold_shape(s.drop_last());
        let o = norm_fold(s.drop_last()).0;
        let p = norm_fold(s.drop_last()).1;
        let c = s.last();
        if !is_space(c) {
            let r = norm_fold(s).0;
            if p {
                assert(r =~= o + seq![' '] + seq![c]);
                assert(!is_space(r.last()));
                assert forall|i: int|
                    0 < i < r.len() implies !(is_space(r[i - 1]) && is_space(
                    #[trigger] r[i],
                )) by {
                    if i < o.len() {
                        assert(r[i] == o[i] && r[i - 1] == o[i - 1]);
                    } else if i == o.len() {
                        assert(r[i - 1] == o.last());
                    } else {
                        assert(r[i] == c);
                    }
                }
            } else {
                assert(r =~= o + seq![c]);
                assert forall|i: int|
                    0 < i < r.len() implies !(is_space(r[i - 1]) && is_space(
                    #[trigger] r[i],
                )) by {
                    if i < o.len() {
                        assert(r[i] == o[i] && r[i - 1] == o[i - 1]);
                    } else {
                        assert(r[i] == c);
                    }
                }
            }
        }
    }
}

/// Normalized text never opens or closes with whitespace and never holds
/// two adjacent whitespace characters: every whitespace run has become one
/// space between words.
pub proof fn lemma_normalize_shape(s: Seq<char>)
    ensures
        normalize_spec(s).len() > 0 ==> !is_space(normalize_spec(s).first()),
        normalize_spec(s).len() > 0 ==> !is_space(normalize_spec(s).last()),
        forall|i: int|
            0 < i < normalize_spec(s).len() ==> !(is_space(normalize_spec(s)[i - 1]) && is_space(
                #[trigger] normalize_spec(s)[i],
            )),
{
    lemma_norm_fold_shape(s);
}

/// Collapse runs of whitespace to single spaces and trim the ends; an empty
/// result is reported as absent.
pub fn normalize_text(input: &str) -> (r: Option<String>)
    ensures
        r is Some <==> normalize_spec(input@).len() > 0,
        r matches Some(t) ==> t@ == normalize_spec(input@),
{
    let chars = chars_vec(input);
    let n = chars.len();
    let mut out: Vec<char> = Vec::new();
    let mut pending: bool = false;
    let mut i: usize = 0;
    while i < n
        invariant
            i <= n,
            n == chars@.len(),
            chars@ == input@,
            (out@, pending) == norm_fold(input@.subrange(0, i as int)),
        decreases n - i,
    {
        let c = chars[i];
        proof {
            assert(input@.subrange(0, i + 1 as int).drop_last() =~= input@.subrange(0, i as int));
            assert(input@.subrange(0, i + 1 as int).last() == c);
        }
        if is_space_char(c) {
            if out.len() > 0 {
                pending = true;
            }
        } else {
            if pending {
                out.push(' ');
                pending = false;
            }
            out.push(c);
        }
        i += 1;
    }
    proof {
        assert(input@.subrange(0, n as int) =~= input@);
    }
    if out.len() == 0 {
        None
    } else {
        Some(string_from_chars(&out))
    }
}

/// What `clamp_text` returns: the text unchanged while it is within the
/// limit, otherwise its first `limit - 1` characters followed by a single
/// ellipsis, for `limit` characters in all. A limit of zero empties the text.
pub open spec fn clamp_spec(s: Seq<char>, limit: nat) -> Seq<char> {
    if limit == 0 {
        Seq::empty()
    } else if s.len() <= limit {
        s
    } else {
        s.subrange(0, limit - 1) + seq!['\u{2026}']
    }
}

/// Clamping never exceeds the limit, and keeps short input whole.
pub proof fn lemma_clamp_len(s: Seq<char>, limit: nat)
    ensures
        clamp_spec(s, limit).len() <= limit,
        s.len() <= limit ==> clamp_spec(s, limit) == s,
        limit == 0 ==> clamp_spec(s, limit) == Seq::<char>::empty(),
{
}

/// Clamping is idempotent: clamping an already-clamped string at the same
/// limit returns it unchanged.
pub proof fn lemma_clamp_idempotent(s: Seq<char>, limit: nat)
    ensures
        clamp_spec(clamp_spec(s, limit), limit) == clamp_spec(s, limit),
{
    lemma_clamp_len(s, limit);
}

/// Cut a string to at most `limit` Unicode scalar values; a cut string ends
/// in an ellipsis that counts against the limit. Counts codepoints, never
/// bytes, so multi-byte characters are never split.
pub fn clamp_text(text: String, limit: usize) -> (r: String)
    ensures
        r@ == clamp_spec(text@, limit as nat),
{
    if limit == 0 {
        return String::new();
    }
    let n = text.as_str().unicode_len();
    if n <= limit {
        return text;
    }
    let keep = limit - 1;
    let mut kept: Vec<char> = Vec::new();
    let mut i: usize = 0;
    while i < keep
        invariant
            i <= keep,
            keep == limit - 1,
            1 <= limit < n,
            n == text@.len(),
            kept@ == text@.subrange(0, i as int),
        decreases keep - i,
    {
        let c = text.as_str().get_char(i);
        kept.push(c);
        proof {
            assert(kept@ =~= text@.subrange(0, i + 1 as int));
        }
        i += 1;
    }
    kept.push('\u{2026}');
    let r = string_from_chars(&kept);
    proof {
        assert(r@ =~= clamp_spec(text@, limit as nat));
    }
    r
}

/// Relies on `String`'s `FromIterator<char>` impl: collecting characters
/// yields the string made of exactly those characters, in order.
#[verifier::external_body]
pub(crate) fn string_from_chars(chars: &Vec<char>) -> (r: String)
    ensures
        r@ == chars@,
{
    chars.iter().collect()
}

} // verus!
