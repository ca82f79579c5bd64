//! Splitting, whitespace normalization and decimal parsing, as the wire
//! formats need them.

use vstd::prelude::*;
use vstd::string::StrSliceExecFns;

verus! {

/// Index of the first `sep` in `s`, or a negative value when there is none.
pub open spec fn spec_find_char(s: Seq<char>, sep: char) -> int
    decreases s.len(),
{
    if s.len() == 0 {
        -1
    } else if s[0] == sep {
        0
    } else {
        let r = spec_find_char(s.drop_first(), sep);
        if r < 0 {
            -1
        } else {
            r + 1
        }
    }
}

proof fn lemma_find_char(s: Seq<char>, sep: char)
    ensures
        spec_find_char(s, sep) < 0 ==> forall|i: int| 0 <= i < s.len() ==> s[i] != sep,
        spec_find_char(s, sep) >= 0 ==> {
            let k = spec_find_char(s, sep);
            &&& k < s.len()
            &&& s[k] == sep
            &&& forall|i: int| 0 <= i < k ==> s[i] != sep
        },
    decreases s.len(),
{
    if s.len() > 0 && s[0] != sep {
        let rest = s.drop_first();
        lemma_find_char(rest, sep);
        assert(forall|i: int| 0 <= i < rest.len() ==> rest[i] == s[i + 1]);
        if spec_find_char(rest, sep) < 0 {
            assert forall|i: int| 0 <= i < s.len() implies s[i] != sep by {
                if i > 0 {
                    assert(rest[i - 1] == s[i]);
                }
            }
        } else {
            let k = spec_find_char(rest, sep);
            assert(s[k + 1] == rest[k]);
            assert forall|i: int| 0 <= i < k + 1 implies s[i] != sep by {
                if i > 0 {
                    assert(rest[i - 1] == s[i]);
                }
            }
        }
    }
}

/// The pieces of `s` between occurrences of `sep`: `n` separators yield
/// `n + 1` pieces, empty pieces included.
pub open spec fn spec_split(s: Seq<char>, sep: char) -> Seq<Seq<char>>
    decreases s.len(),
    via spec_split_decreases
{
    let k = spec_find_char(s, sep);
    if k < 0 {
        seq![s]
    } else {
        seq![s.take(k)] + spec_split(s.skip(k + 1), sep)
    }
}

#[via_fn]
proof fn spec_split_decreases(s: Seq<char>, sep: char) {
    lemma_find_char(s, sep);
}

proof fn lemma_split_at(s: Seq<char>, sep: char, i: int)
    requires
        0 <= i < s.len(),
        s[i] == sep,
        forall|j: int| 0 <= j < i ==> s[j] != sep,
    ensures
        spec_split(s, sep) == seq![s.take(i)] + spec_split(s.skip(i + 1), sep),
{
    lemma_find_char(s, sep);
    let k = spec_find_char(s, sep);
    assert(!(k < i));
    assert(!(i < k));
}

proof fn lemma_split_none(s: Seq<char>, sep: char)
    requires
        forall|j: int| 0 <= j < s.len() ==> s[j] != sep,
    ensures
        spec_split(s, sep) == seq![s],
{
    lemma_find_char(s, sep);
}

/// Split `s` on the NUL character.
pub fn split_nul(s: &str) -> (fields: Vec<String>)
    ensures
        fields.deep_view() == spec_split(s@, '\0'),
{
    let n = s.unicode_len();
    let mut fields: Vec<String> = Vec::new();
    let mut start: usize = 0;
    let mut i: usize = 0;
    proof {
        assert(s@.skip(0) =~= s@);
    }
    while i < n
        invariant
            start <= i <= n,
            n == s@.len(),
            spec_split(s@, '\0') == fields.deep_view() + spec_split(s@.skip(start as int), '\0'),
            forall|j: int| start <= j < i ==> s@[j] != '\0',
        decreases n - i,
    {
        let c = s.get_char(i);
        if c == '\0' {
            let piece: String = s.substring_char(start, i).to_owned();
            let ghost old_dv = fields.deep_view();
            fields.push(piece);
            proof {
                let t = s@.skip(start as int);
                assert(t[i - start] == '\0');
                assert(forall|j: int| 0 <= j < i - start ==> t[j] == s@[start + j] && t[j] != '\0');
                lemma_split_at(t, '\0', i - start);
                assert(t.take(i - start) =~= piece@);
                assert(t.skip(i - start + 1) =~= s@.skip(i + 1));
                assert(fields.deep_view() =~~= old_dv.push(piece@));
                assert(fields.deep_view() + spec_split(s@.skip(i + 1), '\0') =~~= old_dv + (seq![
                    t.take(i - start),
                ] + spec_split(t.skip(i - start + 1), '\0')));
            }
            start = i + 1;
        }
        i += 1;
    }
    let piece: String = s.substring_char(start, n).to_owned();
    let ghost old_dv = fields.deep_view();
    fields.push(piece);
    proof {
        let t = s@.skip(start as int);
        assert(forall|j: int| 0 <= j < t.len() ==> t[j] == s@[start + j] && t[j] != '\0');
        lemma_split_none(t, '\0');
        assert(t =~= piece@);
        assert(fields.deep_view() =~~= old_dv.push(piece@));
        assert(fields.deep_view() =~~= spec_split(s@, '\0'));
    }
    fields
}

/// `c` is an ASCII decimal digit.
pub open spec fn spec_is_digit(c: char) -> bool {
    48 <= c as int <= 57
}

/// The numeric value of a digit character.
pub open spec fn spec_digit(c: char) -> int {
    c as int - 48
}

/// Every character of `s` is a decimal digit.
pub open spec fn spec_all_digits(s: Seq<char>) -> bool {
    forall|i: int| 0 <= i < s.len() ==> spec_is_digit(#[trigger] s[i])
}

/// The value of a run of decimal digits, most significant first.
pub open spec fn spec_digits_value(s: Seq<char>) -> int
    decreases s.len(),
{
    if s.len() == 0 {
        0
    } else {
        spec_digits_value(s.drop_last()) * 10 + spec_digit(s.last())
    }
}

proof fn lemma_digits_value_nonneg(s: Seq<char>)
    requires
        spec_all_digits(s),
    ensures
        0 <= spec_digits_value(s),
    decreases s.len(),
{
    if s.len() > 0 {
        assert(spec_all_digits(s.drop_last()));
        lemma_digits_value_nonneg(s.drop_last());
    }
}

/// A digit run is worth at least any of its prefixes.
proof fn lemma_digits_value_take_le(s: Seq<char>, k: int)
    requires
        spec_all_digits(s),
        0 <= k <= s.len(),
    ensures
        spec_digits_value(s.take(k)) <= spec_digits_value(s),
    decreases s.len() - k,
{
    if k < s.len() {
        assert(s.take(k + 1).drop_last() =~= s.take(k));
        assert(spec_all_digits(s.take(k)));
        lemma_digits_value_nonneg(s.take(k));
        assert(spec_digits_value(s.take(k + 1)) == spec_digits_value(s.take(k)) * 10 + spec_digit(
            s[k],
        ));
        lemma_digits_value_take_le(s, k + 1);
    } else {
        assert(s.take(k) =~= s);
    }
}

/// Parse the digit run `s[from..]` as a number no larger than `limit`.
///
/// Yields the value exactly when the run is non-empty, all digits, and its
/// value is within the limit.
fn parse_digits(s: &str, from: usize, limit: u64) -> (r: Option<u64>)
    requires
        from <= s@.len(),
    ensures
        ({
            let ds = s@.skip(from as int);
            match r {
                Some(v) => ds.len() > 0 && spec_all_digits(ds) && v == spec_digits_value(ds) && v
                    <= limit,
                None => ds.len() == 0 || !spec_all_digits(ds) || spec_digits_value(ds) > limit,
            }
        }),
{
    let ghost ds = s@.skip(from as int);
    let n = s.unicode_len();
    if from == n {
        return None;
    }
    let mut acc: u64 = 0;
    let mut i: usize = from;
    while i < n
        invariant
            from <= i <= n,
            n == s@.len(),
            ds == s@.skip(from as int),
            spec_all_digits(ds.take(i - from)),
            acc == spec_digits_value(ds.take(i - from)),
            acc <= limit,
        decreases n - i,
    {
        let c = s.get_char(i);
        let d: u32 = c as u32;
        proof {
            assert(ds[i - from] == s@[i as int]);
        }
        if d < 48 || d > 57 {
            proof {
                assert(!spec_is_digit(ds[i - from]));
            }
            return None;
        }
        proof {
            assert(ds.take(i - from + 1).drop_last() =~= ds.take(i - from));
            assert(spec_all_digits(ds.take(i - from + 1)));
        }
        let step: Option<u64> = match acc.checked_mul(10) {
            Some(x) => x.checked_add((d - 48) as u64),
            None => None,
        };
        match step {
            None => {
                proof {
                    if spec_all_digits(ds) {
                        lemma_digits_value_take_le(ds, i - from + 1);
                    }
                }
                return None;
            },
            Some(y) => {
                if y > limit {
                    proof {
                        if spec_all_digits(ds) {
                            lemma_digits_value_take_le(ds, i - from + 1);
                        }
                    }
                    return None;
                }
                acc = y;
            },
        }
        i += 1;
    }
    proof {
        assert(ds.take(n - from) =~= ds);
    }
    Some(acc)
}

/// What parsing a signed 32-bit decimal yields: an optional `+` or `-`
/// sign, then one or more digits, the value within range; anything else is
/// rejected.
pub open spec fn spec_parse_i32(s: Seq<char>) -> Option<i32> {
    if s.len() == 0 {
        None
    } else {
        let neg = s[0] == '-';
        let ds = if s[0] == '-' || s[0] == '+' {
            s.drop_first()
        } else {
            s
        };
        if ds.len() == 0 || !spec_all_digits(ds) {
            None
        } else {
            let v = if neg {
                -spec_digits_value(ds)
            } else {
                spec_digits_value(ds)
            };
            if i32::MIN <= v <= i32::MAX {
                Some(v as i32)
            } else {
                None
            }
        }
    }
}

/// What parsing an unsigned decimal yields: an optional `+` sign, then one
/// or more digits, the value within range; anything else is rejected.
pub open spec fn spec_parse_usize(s: Seq<char>) -> Option<usize> {
    let ds = if s.len() > 0 && s[0] == '+' {
        s.drop_first()
    } else {
        s
    };
    if ds.len() == 0 || !spec_all_digits(ds) {
        None
    } else if spec_digits_value(ds) > usize::MAX {
        None
    } else {
        Some(spec_digits_value(ds) as usize)
    }
}

/// Parse a signed 32-bit decimal.
pub fn parse_i32_str(s: &str) -> (r: Option<i32>)
    ensures
        r == spec_parse_i32(s@),
{
    let n = s.unicode_len();
    if n == 0 {
        return None;
    }
    let first = s.get_char(0);
    let neg = first == '-';
    let signed = neg || first == '+';
    let from: usize = if signed {
        1
    } else {
        0
    };
    let limit: u64 = if neg {
        0x8000_0000
    } else {
        0x7fff_ffff
    };
    proof {
        if !signed {
            assert(s@.skip(0) =~= s@);
        }
    }
    match parse_digits(s, from, limit) {
        Some(v) => {
            if neg {
                if v == 0x8000_0000 {
                    Some(i32::MIN)
                } else {
                    Some(0i32 - (v as i32))
                }
            } else {
                Some(v as i32)
            }
        },
        None => None,
    }
}

/// Parse an unsigned decimal into a `usize`.
pub fn parse_usize_str(s: &str) -> (r: Option<usize>)
    ensures
        r == spec_parse_usize(s@),
{
    let n = s.unicode_len();
    if n == 0 {
        proof {
            assert(s@.skip(0) =~= s@);
        }
        return None;
    }
    let from: usize = if s.get_char(0) == '+' {
        1
    } else {
        0
    };
    proof {
        if from == 0 {
            assert(s@.skip(0) =~= s@);
        }
    }
    let limit: u64 = usize::MAX as u64;
    match parse_digits(s, from, limit) {
        Some(v) => Some(v as usize),
        None => None,
    }
}

/// `c` carries the Unicode White_Space property, as std's
/// `char::is_whitespace` defines it.
pub open spec fn spec_is_space(c: char) -> bool {
    ||| c == ' '
    ||| 0x9 <= c as int <= 0xd
    ||| c == '\u{85}'
    ||| c == '\u{a0}'
    ||| c == '\u{1680}'
    ||| 0x2000 <= c as int <= 0x200a
    ||| c == '\u{2028}'
    ||| c == '\u{2029}'
    ||| c == '\u{202f}'
    ||| c == '\u{205f}'
    ||| c == '\u{3000}'
}

fn is_space(c: char) -> (r: bool)
    ensures
        r == spec_is_space(c),
{
    let u = c as u32;
    u == 0x20 || (0x9 <= u && u <= 0xd) || u == 0x85 || u == 0xa0 || u == 0x1680 || (0x2000 <= u
        && u <= 0x200a) || u == 0x2028 || u == 0x2029 || u == 0x202f || u == 0x205f || u == 0x3000
}

/// Index of the first whitespace character in `s`, or a negative value
/// when there is none.
pub open spec fn spec_find_space(s: Seq<char>) -> int
    decreases s.len(),
{
    if s.len() == 0 {
        -1
    } else if spec_is_space(s[0]) {
        0
    } else {
        let r = spec_find_space(s.drop_first());
        if r < 0 {
            -1
        } else {
            r + 1
        }
    }
}

proof fn lemma_find_space(s: Seq<char>)
    ensures
        spec_find_space(s) < 0 ==> forall|i: int| 0 <= i < s.len() ==> !spec_is_space(s[i]),
        spec_find_space(s) >= 0 ==> {
            let k = spec_find_space(s);
            &&& k < s.len()
            &&& spec_is_space(s[k])
            &&& forall|i: int| 0 <= i < k ==> !spec_is_space(s[i])
        },
    decreases s.len(),
{
    if s.len() > 0 && !spec_is_space(s[0]) {
        let rest = s.drop_first();
        lemma_find_space(rest);
        assert(forall|i: int| 0 <= i < rest.len() ==> rest[i] == s[i + 1]);
        if spec_find_space(rest) < 0 {
            assert forall|i: int| 0 <= i < s.len() implies !spec_is_space(s[i]) by {
                if i > 0 {
                    assert(rest[i - 1] == s[i]);
                }
            }
        } else {
            let k = spec_find_space(rest);
            assert(s[k + 1] == rest[k]);
            assert forall|i: int| 0 <= i < k + 1 implies !spec_is_space(s[i]) by {
                if i > 0 {
                    assert(rest[i - 1] == s[i]);
                }
            }
        }
    }
}

/// The maximal whitespace-free words of `s`, in order.
pub open spec fn spec_words(s: Seq<char>) -> Seq<Seq<char>>
    decreases s.len(),
    via spec_words_decreases
{
    if s.len() == 0 {
        Seq::empty()
    } else if spec_is_space(s[0]) {
        spec_words(s.drop_first())
    } else {
        let k = spec_find_space(s);
        if k < 0 {
            seq![s]
        } else {
            seq![s.take(k)] + spec_words(s.skip(k))
        }
    }
}

#[via_fn]
proof fn spec_words_decreases(s: Seq<char>) {
    lemma_find_space(s);
}

/// Words of a non-empty run: the first word reaches the first whitespace
/// character (or the end), and the rest of the words follow it.
proof fn lemma_words_head(u: Seq<char>, k: int)
    requires
        0 < u.len(),
        !spec_is_space(u[0]),
        0 <= k <= u.len(),
        forall|j: int| 0 <= j < k ==> !spec_is_space(u[j]),
        k == u.len() || spec_is_space(u[k]),
    ensures
        spec_words(u) == seq![u.take(k)] + spec_words(u.skip(k)),
{
    lemma_find_space(u);
    let f = spec_find_space(u);
    if k == u.len() {
        assert(f < 0);
        assert(u.take(k) =~= u);
        assert(u.skip(k) =~= Seq::<char>::empty());
        assert(seq![u.take(k)] + spec_words(u.skip(k)) =~~= seq![u]);
    } else {
        assert(f >= 0);
        assert(!(f < k));
        assert(!(k < f));
    }
}

/// The words joined by single spaces.
pub open spec fn spec_join_words(ws: Seq<Seq<char>>) -> Seq<char>
    decreases ws.len(),
{
    if ws.len() == 0 {
        Seq::empty()
    } else if ws.len() == 1 {
        ws[0]
    } else {
        ws[0] + seq![' '] + spec_join_words(ws.drop_first())
    }
}

proof fn lemma_join_snoc(ws: Seq<Seq<char>>, w: Seq<char>)
    ensures
        ws.len() == 0 ==> spec_join_words(ws.push(w)) == w,
        ws.len() > 0 ==> spec_join_words(ws.push(w)) == spec_join_words(ws) + seq![' '] + w,
    decreases ws.len(),
{
    if ws.len() == 0 {
        assert(ws.push(w)[0] == w);
    } else {
        assert(ws.push(w)[0] == ws[0]);
        assert(ws.push(w).drop_first() =~= ws.drop_first().push(w));
        lemma_join_snoc(ws.drop_first(), w);
        assert(spec_join_words(ws.push(w)) =~= spec_join_words(ws) + seq![' '] + w);
    }
}

/// All newline characters removed.
pub open spec fn spec_strip_newlines(s: Seq<char>) -> Seq<char>
    decreases s.len(),
{
    if s.len() == 0 {
        Seq::empty()
    } else if s[0] == '\n' {
        spec_strip_newlines(s.drop_first())
    } else {
        seq![s[0]] + spec_strip_newlines(s.drop_first())
    }
}

/// Text as a renderer shows it: newlines removed, whitespace runs
/// collapsed to single spaces, both ends trimmed.
pub open spec fn spec_clean_text(s: Seq<char>) -> Seq<char> {
    spec_join_words(spec_words(spec_strip_newlines(s)))
}

/// Normalize one run of text to its rendered form.
pub fn clean_text(s: &str) -> (r: String)
    ensures
        r@ == spec_clean_text(s@),
{
    let n = s.unicode_len();
    let mut stripped = String::new();
    let mut i: usize = 0;
    proof {
        assert(s@.skip(0) =~= s@);
    }
    while i < n
        invariant
            i <= n,
            n == s@.len(),
            spec_strip_newlines(s@) == stripped@ + spec_strip_newlines(s@.skip(i as int)),
        decreases n - i,
    {
        let c = s.get_char(i);
        proof {
            assert(s@.skip(i as int)[0] == s@[i as int]);
            assert(s@.skip(i as int).drop_first() =~= s@.skip(i + 1));
        }
        if c != '\n' {
            let piece = s.substring_char(i, i + 1);
            stripped.append(piece);
            proof {
                assert(piece@ =~= seq![s@[i as int]]);
            }
        }
        i += 1;
    }
    proof {
        assert(s@.skip(n as int) =~= Seq::<char>::empty());
        assert(spec_strip_newlines(s@) =~= stripped@);
    }

    let t = stripped.as_str();
    let m = t.unicode_len();
    let mut out = String::new();
    let ghost mut emitted: Seq<Seq<char>> = Seq::empty();
    let mut p: usize = 0;
    let mut first: bool = true;
    proof {
        assert(t@.skip(0) =~= t@);
    }
    while p < m
        invariant
            p <= m,
            m == t@.len(),
            spec_words(t@) == emitted + spec_words(t@.skip(p as int)),
            out@ == spec_join_words(emitted),
            first <==> emitted.len() == 0,
        decreases m - p,
    {
        let c = t.get_char(p);
        proof {
            assert(t@.skip(p as int)[0] == t@[p as int]);
            assert(t@.skip(p as int).drop_first() =~= t@.skip(p + 1));
        }
        if is_space(c) {
            p += 1;
        } else {
            let mut q: usize = p + 1;
            loop
                invariant_except_break
                    p + 1 <= q <= m,
                    m == t@.len(),
                    forall|j: int| p <= j < q ==> !spec_is_space(t@[j]),
                ensures
                    p < q <= m,
                    forall|j: int| p <= j < q ==> !spec_is_space(t@[j]),
                    q == m || spec_is_space(t@[q as int]),
                decreases m - q,
            {
                if q == m {
                    break;
                }
                if is_space(t.get_char(q)) {
                    break;
                }
                q += 1;
            }
            let word = t.substring_char(p, q);
            if !first {
                out.append(" ");
            }
            out.append(word);
            proof {
                let u = t@.skip(p as int);
                assert(forall|j: int| 0 <= j < q - p ==> u[j] == t@[p + j]);
                lemma_words_head(u, q - p);
                assert(u.take(q - p) =~= word@);
                assert(u.skip(q - p) =~= t@.skip(q as int));
                lemma_join_snoc(emitted, word@);
                reveal_strlit(" ");
                assert(" "@ =~= seq![' ']);
                emitted = emitted.push(word@);
                assert(out@ == spec_join_words(emitted));
                assert(emitted + spec_words(t@.skip(q as int)) =~~= spec_words(t@));
            }
            first = false;
            p = q;
        }
    }
    proof {
        assert(t@.skip(m as int) =~= Seq::<char>::empty());
        assert(spec_words(t@) =~~= emitted);
    }
    out
}

} // verus!
