//! Character-level helpers shared by the stores: whitespace and trimming.

use vstd::prelude::*;
use vstd::string::StringSliceAdditionalSpecFns;
use vstd::utf8::encode_utf8_decode_utf8;

verus! {

/// Whether `c` carries the Unicode `White_Space` property.
pub open spec fn is_whitespace(c: char) -> bool {
    let u = c as u32;
    ||| 0x09 <= u <= 0x0D
    ||| u == 0x20
    ||| u == 0x85
    ||| u == 0xA0
    ||| u == 0x1680
    ||| 0x2000 <= u <= 0x200A
    ||| u == 0x2028
    ||| u == 0x2029
    ||| u == 0x202F
    ||| u == 0x205F
    ||| u == 0x3000
}

/// Whether every character of `s` is whitespace.
pub open spec fn all_whitespace(s: Seq<char>) -> bool {
    forall|i: int| 0 <= i < s.len() ==> is_whitespace(#[trigger] s[i])
}

/// `s` without its leading run of whitespace.
pub open spec fn trim_start(s: Seq<char>) -> Seq<char>
    decreases s.len(),
{
    if s.len() > 0 && is_whitespace(s[0]) {
        trim_start(s.skip(1))
    } else {
        s
    }
}

/// `s` without its trailing run of whitespace.
pub open spec fn trim_end(s: Seq<char>) -> Seq<char>
    decreases s.len(),
{
    if s.len() > 0 && is_whitespace(s.last()) {
        trim_end(s.drop_last())
    } else {
        s
    }
}

/// `s` without its leading and trailing whitespace.
pub open spec fn trimmed(s: Seq<char>) -> Seq<char> {
    trim_end(trim_start(s))
}

/// Skipping a whitespace prefix that ends at a non-whitespace character (or at
/// the end of the text) is exactly what [`trim_start`] does.
pub proof fn lemma_trim_start_is_skip(s: Seq<char>, n: int)
    requires
        0 <= n <= s.len(),
        all_whitespace(s.take(n)),
        n < s.len() ==> !is_whitespace(s[n]),
    ensures
        trim_start(s) == s.skip(n),
    decreases n,
{
    if n > 0 {
        assert(s.take(n)[0] == s[0]);
        let rest = s.skip(1);
        assert forall|i: int| 0 <= i < rest.take(n - 1).len() implies is_whitespace(
            #[trigger] rest.take(n - 1)[i],
        ) by {
            assert(rest.take(n - 1)[i] == s.take(n)[i + 1]);
        }
        lemma_trim_start_is_skip(rest, n - 1);
    }
}

/// Keeping everything before a whitespace suffix that starts after a
/// non-whitespace character (or at the start of the text) is exactly what
/// [`trim_end`] does.
pub proof fn lemma_trim_end_is_take(s: Seq<char>, m: int)
    requires
        0 <= m <= s.len(),
        all_whitespace(s.skip(m)),
        m > 0 ==> !is_whitespace(s[m - 1]),
    ensures
        trim_end(s) == s.take(m),
    decreases s.len() - m,
{
    if m < s.len() {
        assert(s.skip(m)[s.len() - m - 1] == s.last());
        let rest = s.drop_last();
        assert forall|i: int| 0 <= i < rest.skip(m).len() implies is_whitespace(
            #[trigger] rest.skip(m)[i],
        ) by {
            assert(rest.skip(m)[i] == s.skip(m)[i]);
        }
        lemma_trim_end_is_take(rest, m);
    }
}

/// Trimming cuts a whitespace prefix and a whitespace suffix off the text and
/// leaves a middle part that neither starts nor ends with whitespace.
pub proof fn lemma_trimmed_is_middle(s: Seq<char>) -> (bounds: (int, int))
    ensures
        0 <= bounds.0 <= bounds.1 <= s.len(),
        trimmed(s) == s.subrange(bounds.0, bounds.1),
        all_whitespace(s.take(bounds.0)),
        all_whitespace(s.skip(bounds.1)),
        trimmed(s).len() > 0 ==> !is_whitespace(trimmed(s).first()) && !is_whitespace(
            trimmed(s).last(),
        ),
{
    let a = lemma_leading_run(s);
    lemma_trim_start_is_skip(s, a);
    let t = s.skip(a);
    let len = lemma_trailing_run(t);
    lemma_trim_end_is_take(t, len);
    assert forall|i: int| 0 <= i < s.skip(a + len).len() implies is_whitespace(
        #[trigger] s.skip(a + len)[i],
    ) by {
        assert(s.skip(a + len)[i] == t.skip(len)[i]);
    }
    (a, a + len)
}

/// Whitespace around a text does not change what trimming leaves of it.
pub proof fn lemma_trimmed_ignores_padding(lead: Seq<char>, core: Seq<char>, trail: Seq<char>)
    requires
        all_whitespace(lead),
        all_whitespace(trail),
    ensures
        trimmed(lead + core + trail) == trimmed(core),
{
    let padded = lead + core + trail;
    let (a, b) = lemma_trimmed_is_middle(core);
    let l = lead.len() as int;
    // The same middle part, shifted by the length of the lead.
    assert forall|i: int| 0 <= i < padded.take(l + a).len() implies is_whitespace(
        #[trigger] padded.take(l + a)[i],
    ) by {
        if i >= l {
            assert(padded.take(l + a)[i] == core.take(a)[i - l]);
        }
    }
    if a < b {
        lemma_trim_start_is_skip(padded, l + a);
        let t = padded.skip(l + a);
        assert forall|i: int| 0 <= i < t.skip(b - a).len() implies is_whitespace(
            #[trigger] t.skip(b - a)[i],
        ) by {
            if i < core.len() - b {
                assert(t.skip(b - a)[i] == core.skip(b)[i]);
            }
        }
        lemma_trim_end_is_take(t, b - a);
    } else {
        // Nothing but whitespace anywhere.
        assert forall|i: int| 0 <= i < padded.len() implies is_whitespace(
            #[trigger] padded[i],
        ) by {
            if l <= i < l + core.len() {
                if i - l < a {
                    assert(padded[i] == core.take(a)[i - l]);
                } else {
                    assert(padded[i] == core.skip(b)[i - l - b]);
                }
            }
        }
        lemma_trim_start_is_skip(padded, padded.len() as int);
    }
}

/// Finds where the leading whitespace run of `s` ends.
proof fn lemma_leading_run(s: Seq<char>) -> (n: int)
    ensures
        0 <= n <= s.len(),
        all_whitespace(s.take(n)),
        n < s.len() ==> !is_whitespace(s[n]),
    decreases s.len(),
{
    if s.len() > 0 && is_whitespace(s[0]) {
        let rest = s.skip(1);
        let k = lemma_leading_run(rest);
        assert forall|i: int| 0 <= i < s.take(k + 1).len() implies is_whitespace(
            #[trigger] s.take(k + 1)[i],
        ) by {
            if i > 0 {
                assert(s.take(k + 1)[i] == rest.take(k)[i - 1]);
            }
        }
        k + 1
    } else {
        0
    }
}

/// Finds where the trailing whitespace run of `s` starts.
proof fn lemma_trailing_run(s: Seq<char>) -> (m: int)
    ensures
        0 <= m <= s.len(),
        all_whitespace(s.skip(m)),
        m > 0 ==> !is_whitespace(s[m - 1]),
    decreases s.len(),
{
    if s.len() > 0 && is_whitespace(s.last()) {
        let rest = s.drop_last();
        let k = lemma_trailing_run(rest);
        assert forall|i: int| 0 <= i < s.skip(k).len() implies is_whitespace(
            #[trigger] s.skip(k)[i],
        ) by {
            if i < rest.len() - k {
                assert(s.skip(k)[i] == rest.skip(k)[i]);
            }
        }
        k
    } else {
        s.len() as int
    }
}

/// Decides [`is_whitespace`].
pub fn char_is_whitespace(c: char) -> (r: bool)
    ensures
        r == is_whitespace(c),
{
    let u: u32 = c as u32;
    (0x09 <= u && u <= 0x0D) || u == 0x20 || u == 0x85 || u == 0xA0 || u == 0x1680 || (0x2000 <= u
        && u <= 0x200A) || u == 0x2028 || u == 0x2029 || u == 0x202F || u == 0x205F || u == 0x3000
}

/// The characters of `s`, in order.
pub fn to_chars(s: &str) -> (r: Vec<char>)
    ensures
        r@ == s@,
{
    let mut out: Vec<char> = Vec::new();
    for c in it: s.chars()
        invariant
            out@ == it.seq().take(it.index()),
            it.seq() == s@,
    {
        out.push(c);
    }
    out
}

/// Whether the two texts are the same, character for character.
pub fn same_text(a: &str, b: &str) -> (r: bool)
    ensures
        r == (a@ == b@),
{
    let x = a.as_bytes();
    let y = b.as_bytes();
    proof {
        // A text is what its bytes decode to, so equal bytes are equal texts.
        encode_utf8_decode_utf8(a@);
        encode_utf8_decode_utf8(b@);
    }
    if x.len() != y.len() {
        return false;
    }
    let mut i: usize = 0;
    while i < x.len()
        invariant
            i <= x@.len(),
            x@.len() == y@.len(),
            x@.take(i as int) == y@.take(i as int),
            x@ == a.spec_bytes(),
            y@ == b.spec_bytes(),
        decreases x@.len() - i,
    {
        if x[i] != y[i] {
            return false;
        }
        i += 1;
    }
    proof {
        assert(x@.take(i as int) =~= x@);
        assert(y@.take(i as int) =~= y@);
    }
    true
}

/// Removes leading and trailing whitespace.
pub fn trim(s: &str) -> (r: &str)
    ensures
        r@ == trimmed(s@),
{
    let chars = to_chars(s);
    let n: usize = chars.len();
    let mut start: usize = 0;
    while start < n && char_is_whitespace(chars[start])
        invariant
            start <= n,
            n == chars@.len(),
            all_whitespace(chars@.take(start as int)),
        decreases n - start,
    {
        start += 1;
    }
    let mut end: usize = n;
    while end > start && char_is_whitespace(chars[end - 1])
        invariant
            start <= end <= n,
            n == chars@.len(),
            all_whitespace(chars@.skip(end as int)),
        decreases end,
    {
        end -= 1;
        proof {
            assert forall|i: int| 0 <= i < chars@.skip(end as int).len() implies is_whitespace(
                #[trigger] chars@.skip(end as int)[i],
            ) by {
                if i > 0 {
                    assert(chars@.skip(end as int)[i] == chars@.skip(end + 1)[i - 1]);
                }
            }
        }
    }
    proof {
        lemma_trim_start_is_skip(chars@, start as int);
        let t = chars@.skip(start as int);
        assert forall|i: int| 0 <= i < t.skip(end - start).len() implies is_whitespace(
            #[trigger] t.skip(end - start)[i],
        ) by {
            assert(t.skip(end - start)[i] == chars@.skip(end as int)[i]);
        }
        lemma_trim_end_is_take(t, end - start);
    }
    s.substring_char(start, end)
}

} // verus!
