//! Verified utilities over character sequences: substring search, prefix
//! tests, and equality, shared by the codec, the scorer and the resolver.
use vstd::prelude::*;

verus! {

/// The pattern `pat` occurs in `hay` at position `i`.
pub open spec fn match_at(hay: Seq<char>, pat: Seq<char>, i: int) -> bool {
    &&& 0 <= i
    &&& i + pat.len() <= hay.len()
    &&& hay.subrange(i, i + pat.len() as int) == pat
}

/// The pattern `pat` occurs somewhere in `hay`.
pub open spec fn contains_seq(hay: Seq<char>, pat: Seq<char>) -> bool {
    exists|i: int| match_at(hay, pat, i)
}

/// `s` begins with `prefix`.
pub open spec fn starts_with_seq(s: Seq<char>, prefix: Seq<char>) -> bool {
    match_at(s, prefix, 0)
}

/// The character `c` does not occur in `s`.
pub open spec fn has_no_char(s: Seq<char>, c: char) -> bool {
    forall|i: int| 0 <= i < s.len() ==> s[i] != c
}

/// Whether the window of `hay` starting at `i` equals `pat`, decided
/// character by character.
fn match_at_exec(hay: &str, pat: &str, i: usize, hay_len: usize, pat_len: usize) -> (r: bool)
    requires
        hay_len == hay@.len(),
        pat_len == pat@.len(),
        i + pat_len <= hay_len,
    ensures
        r == match_at(hay@, pat@, i as int),
{
    let mut k: usize = 0;
    while k < pat_len
        invariant
            k <= pat_len,
            forall|j: int| 0 <= j < k ==> hay@[i + j] == pat@[j],
        decreases pat_len - k,
    {
        if hay.get_char(i + k) != pat.get_char(k) {
            assert(hay@.subrange(i as int, i + pat@.len() as int)[k as int] != pat@[k as int]);
            return false;
        }
        k += 1;
    }
    assert(hay@.subrange(i as int, i + pat@.len() as int) =~= pat@);
    true
}

/// Position of the first occurrence of `pat` in `hay` at or after `from`,
/// if any.
pub fn find_first(hay: &str, pat: &str, from: usize) -> (r: Option<usize>)
    ensures
        match r {
            Some(i) => {
                &&& from <= i
                &&& match_at(hay@, pat@, i as int)
                &&& forall|j: int| from <= j < i ==> !match_at(hay@, pat@, j)
            },
            None => forall|j: int| from <= j ==> !match_at(hay@, pat@, j),
        },
{
    let hay_len = hay.unicode_len();
    let pat_len = pat.unicode_len();
    if pat_len > hay_len {
        return None;
    }
    if pat_len == 0 {
        if from <= hay_len {
            proof {
                assert(hay@.subrange(from as int, from as int) =~= pat@);
            }
            return Some(from);
        }
        return None;
    }
    let mut i: usize = from;
    while i <= hay_len - pat_len
        invariant
            1 <= pat_len <= hay_len,
            hay_len == hay@.len(),
            pat_len == pat@.len(),
            from <= i,
            forall|j: int| from <= j < i ==> !match_at(hay@, pat@, j),
        decreases hay_len - i,
    {
        if match_at_exec(hay, pat, i, hay_len, pat_len) {
            return Some(i);
        }
        i += 1;
    }
    None
}

/// Whether `pat` occurs anywhere in `hay`.
pub fn str_contains(hay: &str, pat: &str) -> (r: bool)
    ensures
        r == contains_seq(hay@, pat@),
{
    match find_first(hay, pat, 0) {
        Some(_) => true,
        None => false,
    }
}

/// Whether `s` begins with `prefix`.
pub fn str_starts_with(s: &str, prefix: &str) -> (r: bool)
    ensures
        r == starts_with_seq(s@, prefix@),
{
    let s_len = s.unicode_len();
    let p_len = prefix.unicode_len();
    if p_len > s_len {
        return false;
    }
    match_at_exec(s, prefix, 0, s_len, p_len)
}

/// The lowercase form of a string, as `str::to_lowercase` computes it.
pub uninterp spec fn lower_of(s: Seq<char>) -> Seq<char>;

/// Relies on `str::to_lowercase`: the result depends on the characters
/// alone, and an empty string stays empty.
#[verifier::external_body]
pub(crate) fn to_lowercase(s: &str) -> (r: String)
    ensures
        r@ == lower_of(s@),
        s@.len() == 0 ==> r@.len() == 0,
{
    s.to_lowercase()
}

/// Whether a character has the Unicode whitespace property, as
/// `char::is_whitespace` decides it.
pub uninterp spec fn is_whitespace_char(c: char) -> bool;

/// Relies on `char::is_whitespace`: the result depends on the character
/// alone; space, tab, carriage return and line feed plainly are whitespace.
#[verifier::external_body]
pub(crate) fn char_is_whitespace(c: char) -> (r: bool)
    ensures
        r == is_whitespace_char(c),
        c == ' ' || c == '\t' || c == '\r' || c == '\n' ==> r,
{
    c.is_whitespace()
}

/// Whether a character is alphanumeric, as `char::is_alphanumeric`
/// decides it.
pub uninterp spec fn is_alphanumeric_char(c: char) -> bool;

/// Relies on `char::is_alphanumeric`: the result depends on the character
/// alone.
#[verifier::external_body]
pub(crate) fn char_is_alphanumeric(c: char) -> (r: bool)
    ensures
        r == is_alphanumeric_char(c),
{
    c.is_alphanumeric()
}

/// Relies on `String::push`: appends one character to the end of the string.
#[verifier::external_body]
pub(crate) fn push_char(s: &mut String, c: char)
    ensures
        final(s)@ == old(s)@.push(c),
{
    s.push(c);
}

/// The whitespace-separated words of `s`, given the word collected so far.
pub open spec fn split_ws_rec(s: Seq<char>, cur: Seq<char>) -> Seq<Seq<char>>
    decreases s.len(),
{
    if s.len() == 0 {
        if cur.len() > 0 {
            seq![cur]
        } else {
            seq![]
        }
    } else if is_whitespace_char(s[0]) {
        if cur.len() > 0 {
            seq![cur] + split_ws_rec(s.drop_first(), Seq::empty())
        } else {
            split_ws_rec(s.drop_first(), Seq::empty())
        }
    } else {
        split_ws_rec(s.drop_first(), cur.push(s[0]))
    }
}

/// The whitespace-separated words of `s`.
pub open spec fn split_ws(s: Seq<char>) -> Seq<Seq<char>> {
    split_ws_rec(s, Seq::empty())
}

/// The total length of a sequence of words.
pub open spec fn sum_lens(words: Seq<Seq<char>>) -> nat
    decreases words.len(),
{
    if words.len() == 0 {
        0
    } else {
        words[0].len() + sum_lens(words.drop_first())
    }
}

/// The words of a string are no longer, in total, than the string.
pub proof fn lemma_split_ws_rec_sum(s: Seq<char>, cur: Seq<char>)
    ensures
        sum_lens(split_ws_rec(s, cur)) <= s.len() + cur.len(),
    decreases s.len(),
{
    assert(sum_lens(Seq::<Seq<char>>::empty()) == 0);
    if s.len() == 0 {
        if cur.len() > 0 {
            let r = split_ws_rec(s, cur);
            assert(r == seq![cur]);
            assert(r.drop_first() =~= Seq::<Seq<char>>::empty());
            assert(sum_lens(r) == cur.len() + sum_lens(r.drop_first()));
        }
    } else if is_whitespace_char(s[0]) {
        lemma_split_ws_rec_sum(s.drop_first(), Seq::empty());
        if cur.len() > 0 {
            let r = seq![cur] + split_ws_rec(s.drop_first(), Seq::empty());
            assert(split_ws_rec(s, cur) == r);
            assert(r.drop_first() =~= split_ws_rec(s.drop_first(), Seq::empty()));
            assert(sum_lens(r) == cur.len() + sum_lens(r.drop_first()));
        }
    } else {
        lemma_split_ws_rec_sum(s.drop_first(), cur.push(s[0]));
        assert(split_ws_rec(s, cur) == split_ws_rec(s.drop_first(), cur.push(s[0])));
    }
}

/// Splits `s` into its whitespace-separated words.
pub fn split_whitespace_terms(s: &str) -> (r: Vec<String>)
    ensures
        r.deep_view() == split_ws(s@),
{
    let len = s.unicode_len();
    let mut parts: Vec<String> = Vec::new();
    let mut cur = String::new();
    let mut i: usize = 0;
    proof {
        assert(s@.subrange(0, len as int) =~= s@);
        assert(parts.deep_view() + split_ws_rec(s@, cur@) =~~= split_ws(s@));
    }
    while i < len
        invariant
            i <= len,
            len == s@.len(),
            split_ws(s@) == parts.deep_view() + split_ws_rec(
                s@.subrange(i as int, len as int),
                cur@,
            ),
        decreases len - i,
    {
        let ghost tail = s@.subrange(i as int, len as int);
        let ghost old_parts = parts.deep_view();
        let ghost old_cur = cur@;
        proof {
            assert(tail[0] == s@[i as int]);
            assert(tail.drop_first() =~= s@.subrange(i + 1, len as int));
        }
        let c = s.get_char(i);
        if char_is_whitespace(c) {
            if cur.as_str().unicode_len() > 0 {
                parts.push(cur);
                cur = String::new();
                proof {
                    let rest = split_ws_rec(s@.subrange(i + 1, len as int), Seq::empty());
                    assert(split_ws_rec(tail, old_cur) == seq![old_cur] + rest);
                    assert(parts.deep_view() =~~= old_parts.push(old_cur));
                    assert(parts.deep_view() + rest =~~= old_parts + (seq![old_cur] + rest));
                }
            } else {
                proof {
                    assert(old_cur =~= Seq::<char>::empty());
                    assert(split_ws_rec(tail, old_cur) == split_ws_rec(
                        s@.subrange(i + 1, len as int),
                        Seq::empty(),
                    ));
                    assert(cur@ =~= Seq::<char>::empty());
                }
            }
        } else {
            crate::text::push_char(&mut cur, c);
            proof {
                assert(cur@ == old_cur.push(tail[0]));
                assert(split_ws_rec(tail, old_cur) == split_ws_rec(
                    s@.subrange(i + 1, len as int),
                    old_cur.push(tail[0]),
                ));
            }
        }
        i += 1;
    }
    proof {
        assert(s@.subrange(len as int, len as int) =~= Seq::<char>::empty());
    }
    if cur.as_str().unicode_len() > 0 {
        let ghost old_parts = parts.deep_view();
        let ghost old_cur = cur@;
        parts.push(cur);
        proof {
            assert(parts.deep_view() =~~= old_parts.push(old_cur));
            assert(parts.deep_view() =~~= split_ws(s@));
        }
    } else {
        proof {
            assert(parts.deep_view() + Seq::<Seq<char>>::empty() =~~= parts.deep_view());
            assert(parts.deep_view() =~~= split_ws(s@));
        }
    }
    parts
}

/// `s` with leading whitespace removed.
pub open spec fn drop_leading_ws(s: Seq<char>) -> Seq<char>
    decreases s.len(),
{
    if s.len() > 0 && is_whitespace_char(s[0]) {
        drop_leading_ws(s.drop_first())
    } else {
        s
    }
}

/// `s` with trailing whitespace removed.
pub open spec fn drop_trailing_ws(s: Seq<char>) -> Seq<char>
    decreases s.len(),
{
    if s.len() > 0 && is_whitespace_char(s[s.len() - 1]) {
        drop_trailing_ws(s.drop_last())
    } else {
        s
    }
}

/// `s` with surrounding whitespace removed, as `str::trim` computes it.
pub open spec fn trim_spec(s: Seq<char>) -> Seq<char> {
    drop_trailing_ws(drop_leading_ws(s))
}

/// Removes surrounding whitespace.
pub fn trim(s: &str) -> (r: String)
    ensures
        r@ == trim_spec(s@),
{
    let len = s.unicode_len();
    let mut a: usize = 0;
    proof {
        assert(s@.subrange(0, len as int) =~= s@);
    }
    while a < len && char_is_whitespace(s.get_char(a))
        invariant
            a <= len,
            len == s@.len(),
            drop_leading_ws(s@) == drop_leading_ws(s@.subrange(a as int, len as int)),
        decreases len - a,
    {
        proof {
            let tail = s@.subrange(a as int, len as int);
            assert(tail.drop_first() =~= s@.subrange(a + 1, len as int));
        }
        a += 1;
    }
    let ghost lead = s@.subrange(a as int, len as int);
    proof {
        if a < len {
            assert(lead[0] == s@[a as int]);
        }
        assert(drop_leading_ws(s@) == lead);
    }
    let mut b: usize = len;
    while b > a && char_is_whitespace(s.get_char(b - 1))
        invariant
            a <= b <= len,
            len == s@.len(),
            drop_leading_ws(s@) == s@.subrange(a as int, len as int),
            drop_trailing_ws(s@.subrange(a as int, len as int)) == drop_trailing_ws(
                s@.subrange(a as int, b as int),
            ),
        decreases b,
    {
        proof {
            let part = s@.subrange(a as int, b as int);
            assert(part[part.len() - 1] == s@[b - 1]);
            assert(part.drop_last() =~= s@.subrange(a as int, b - 1));
        }
        b -= 1;
    }
    proof {
        let part = s@.subrange(a as int, b as int);
        if b > a {
            assert(part[part.len() - 1] == s@[b - 1]);
        }
        assert(drop_trailing_ws(part) == part);
    }
    String::from_str(s.substring_char(a, b))
}

/// `s` with every non-overlapping occurrence of `pat`, found left to
/// right, replaced by `rep`, as `str::replace` computes it.
pub open spec fn replace_all(s: Seq<char>, pat: Seq<char>, rep: Seq<char>) -> Seq<char>
    decreases s.len(),
{
    if pat.len() == 0 || s.len() < pat.len() {
        s
    } else if s.subrange(0, pat.len() as int) == pat {
        rep + replace_all(s.subrange(pat.len() as int, s.len() as int), pat, rep)
    } else {
        seq![s[0]] + replace_all(s.drop_first(), pat, rep)
    }
}

/// Replaces every occurrence of `pat` in `s` by `rep`.
pub fn replace_all_str(s: &str, pat: &str, rep: &str) -> (r: String)
    requires
        pat@.len() >= 1,
    ensures
        r@ == replace_all(s@, pat@, rep@),
{
    let len = s.unicode_len();
    let plen = pat.unicode_len();
    let mut out = String::new();
    let mut i: usize = 0;
    proof {
        assert(s@.subrange(0, len as int) =~= s@);
        assert(out@ + replace_all(s@, pat@, rep@) =~= replace_all(s@, pat@, rep@));
    }
    while i < len
        invariant
            i <= len,
            len == s@.len(),
            plen == pat@.len(),
            plen >= 1,
            replace_all(s@, pat@, rep@) == out@ + replace_all(
                s@.subrange(i as int, len as int),
                pat@,
                rep@,
            ),
        decreases len - i,
    {
        let ghost tail = s@.subrange(i as int, len as int);
        let ghost old_out = out@;
        if plen <= len - i && match_at_exec(s, pat, i, len, plen) {
            proof {
                assert(tail.subrange(0, plen as int) =~= s@.subrange(i as int, i + plen));
                assert(tail.subrange(plen as int, tail.len() as int) =~= s@.subrange(
                    i + plen,
                    len as int,
                ));
                assert(replace_all(tail, pat@, rep@) == rep@ + replace_all(
                    s@.subrange(i + plen, len as int),
                    pat@,
                    rep@,
                ));
            }
            out.append(rep);
            proof {
                assert(out@ + replace_all(s@.subrange(i + plen, len as int), pat@, rep@) =~= old_out
                    + replace_all(tail, pat@, rep@));
            }
            i += plen;
        } else {
            let c = s.get_char(i);
            proof {
                assert(tail[0] == s@[i as int]);
                assert(tail.drop_first() =~= s@.subrange(i + 1, len as int));
                if tail.len() >= plen {
                    assert(tail.subrange(0, plen as int) =~= s@.subrange(i as int, i + plen));
                    assert(replace_all(tail, pat@, rep@) == seq![tail[0]] + replace_all(
                        tail.drop_first(),
                        pat@,
                        rep@,
                    ));
                } else {
                    assert(replace_all(tail, pat@, rep@) == tail);
                    assert(replace_all(tail.drop_first(), pat@, rep@) == tail.drop_first());
                    assert(tail =~= seq![tail[0]] + tail.drop_first());
                }
            }
            push_char(&mut out, c);
            proof {
                assert(out@ =~= old_out.push(tail[0]));
                assert(out@ + replace_all(s@.subrange(i + 1, len as int), pat@, rep@) =~= old_out
                    + replace_all(tail, pat@, rep@));
            }
            i += 1;
        }
    }
    proof {
        let tail = s@.subrange(len as int, len as int);
        assert(tail =~= Seq::<char>::empty());
        assert(replace_all(tail, pat@, rep@) == tail);
        assert(out@ + Seq::<char>::empty() =~= out@);
    }
    out
}

/// The prefix of `s` before the first occurrence of `c` (all of `s` when
/// `c` does not occur).
pub open spec fn before_char(s: Seq<char>, c: char) -> Seq<char>
    decreases s.len(),
{
    if s.len() == 0 {
        s
    } else if s[0] == c {
        Seq::empty()
    } else {
        seq![s[0]] + before_char(s.drop_first(), c)
    }
}

/// The prefix before `c` ends exactly at the first position holding `c`.
pub proof fn lemma_before_char_at(s: Seq<char>, c: char, k: int)
    requires
        0 <= k <= s.len(),
        forall|j: int| 0 <= j < k ==> s[j] != c,
        k < s.len() ==> s[k] == c,
    ensures
        before_char(s, c) == s.subrange(0, k),
    decreases s.len(),
{
    if s.len() == 0 {
        assert(s.subrange(0, 0) =~= s);
    } else if s[0] == c {
        assert(before_char(s, c) =~= s.subrange(0, 0));
    } else {
        lemma_before_char_at(s.drop_first(), c, k - 1);
        assert(seq![s[0]] + s.drop_first().subrange(0, k - 1) =~= s.subrange(0, k));
    }
}

/// `parts`, joined by the separator `sep`.
pub open spec fn join_with(parts: Seq<Seq<char>>, sep: Seq<char>) -> Seq<char>
    decreases parts.len(),
{
    if parts.len() == 0 {
        Seq::empty()
    } else if parts.len() == 1 {
        parts[0]
    } else {
        parts[0] + sep + join_with(parts.drop_first(), sep)
    }
}

/// Appending one part extends the joined text by a separator and the part.
pub proof fn lemma_join_with_push(parts: Seq<Seq<char>>, sep: Seq<char>, x: Seq<char>)
    ensures
        join_with(parts.push(x), sep) == if parts.len() == 0 {
            x
        } else {
            join_with(parts, sep) + sep + x
        },
    decreases parts.len(),
{
    let p = parts.push(x);
    if parts.len() == 0 {
        assert(p.len() == 1);
        assert(p[0] == x);
    } else {
        lemma_join_with_push(parts.drop_first(), sep, x);
        assert(p.drop_first() =~~= parts.drop_first().push(x));
        assert(p[0] == parts[0]);
        if parts.len() == 1 {
            assert(parts.drop_first() =~= Seq::<Seq<char>>::empty());
            assert(join_with(p, sep) == p[0] + sep + join_with(p.drop_first(), sep));
            assert(join_with(p.drop_first(), sep) == x);
        } else {
            assert(join_with(p, sep) == p[0] + sep + join_with(p.drop_first(), sep));
            assert(join_with(parts, sep) == parts[0] + sep + join_with(parts.drop_first(), sep));
            assert(parts[0] + sep + (join_with(parts.drop_first(), sep) + sep + x) =~= (parts[0]
                + sep + join_with(parts.drop_first(), sep)) + sep + x);
        }
    }
}

/// Joins `parts` with the separator `sep`.
pub fn join_with_exec(parts: &Vec<String>, sep: &str) -> (r: String)
    ensures
        r@ == join_with(parts.deep_view(), sep@),
{
    let n = parts.len();
    let mut out = String::new();
    let mut i: usize = 0;
    proof {
        assert(parts.deep_view().take(0) =~= Seq::<Seq<char>>::empty());
    }
    while i < n
        invariant
            i <= n,
            n == parts.len(),
            out@ == join_with(parts.deep_view().take(i as int), sep@),
        decreases n - i,
    {
        if i > 0 {
            out.append(sep);
        }
        out.append(parts[i].as_str());
        proof {
            let pv = parts.deep_view();
            lemma_join_with_push(pv.take(i as int), sep@, pv[i as int]);
            assert(pv.take(i + 1) =~~= pv.take(i as int).push(pv[i as int]));
        }
        i += 1;
    }
    proof {
        assert(parts.deep_view().take(n as int) =~= parts.deep_view());
    }
    out
}

/// The lines of `s`: the segments between line feeds, the trailing empty
/// segment of a newline-terminated text ignored.
pub open spec fn lines_of(s: Seq<char>) -> Seq<Seq<char>> {
    let p = split_char(s, '\n');
    if s.len() == 0 {
        seq![]
    } else if p[p.len() - 1].len() == 0 {
        p.drop_last()
    } else {
        p
    }
}

/// Splits `s` into its lines.
pub fn lines_exec(s: &str) -> (r: Vec<String>)
    ensures
        r.deep_view() == lines_of(s@),
{
    if s.unicode_len() == 0 {
        let r: Vec<String> = Vec::new();
        proof {
            assert(r.deep_view() =~~= lines_of(s@));
        }
        return r;
    }
    let mut parts = split_char_exec(s, '\n');
    proof {
        lemma_split_char_len(s@, '\n');
    }
    let n = parts.len();
    let last_len = parts[n - 1].as_str().unicode_len();
    if last_len == 0 {
        let ghost old_parts = parts.deep_view();
        let _ = parts.pop();
        proof {
            assert(parts.deep_view() =~~= old_parts.drop_last());
        }
    }
    parts
}

/// Lexicographic order on character sequences, by code point — the order
/// `str` comparison gives on UTF-8 text.
pub open spec fn lex_le(a: Seq<char>, b: Seq<char>) -> bool
    decreases a.len(),
{
    if a.len() == 0 {
        true
    } else if b.len() == 0 {
        false
    } else if (a[0] as int) < (b[0] as int) {
        true
    } else if (a[0] as int) > (b[0] as int) {
        false
    } else {
        lex_le(a.drop_first(), b.drop_first())
    }
}

/// The lexicographic order is total.
pub proof fn lemma_lex_le_total(a: Seq<char>, b: Seq<char>)
    ensures
        lex_le(a, b) || lex_le(b, a),
    decreases a.len(),
{
    if a.len() > 0 && b.len() > 0 && a[0] == b[0] {
        lemma_lex_le_total(a.drop_first(), b.drop_first());
    }
}

/// The lexicographic order is transitive.
pub proof fn lemma_lex_le_trans(a: Seq<char>, b: Seq<char>, c: Seq<char>)
    requires
        lex_le(a, b),
        lex_le(b, c),
    ensures
        lex_le(a, c),
    decreases a.len(),
{
    if a.len() > 0 && b.len() > 0 && c.len() > 0 && a[0] == b[0] && b[0] == c[0] {
        lemma_lex_le_trans(a.drop_first(), b.drop_first(), c.drop_first());
    }
}

/// Compares two strings lexicographically by code point.
pub fn string_le(a: &str, b: &str) -> (r: bool)
    ensures
        r == lex_le(a@, b@),
{
    let a_len = a.unicode_len();
    let b_len = b.unicode_len();
    let mut i: usize = 0;
    proof {
        assert(a@.subrange(0, a_len as int) =~= a@);
        assert(b@.subrange(0, b_len as int) =~= b@);
    }
    while i < a_len && i < b_len
        invariant
            i <= a_len,
            i <= b_len,
            a_len == a@.len(),
            b_len == b@.len(),
            lex_le(a@, b@) == lex_le(
                a@.subrange(i as int, a_len as int),
                b@.subrange(i as int, b_len as int),
            ),
            forall|j: int| 0 <= j < i ==> a@[j] == b@[j],
        decreases a_len - i,
    {
        let ghost at = a@.subrange(i as int, a_len as int);
        let ghost bt = b@.subrange(i as int, b_len as int);
        proof {
            assert(at[0] == a@[i as int]);
            assert(bt[0] == b@[i as int]);
            assert(at.drop_first() =~= a@.subrange(i + 1, a_len as int));
            assert(bt.drop_first() =~= b@.subrange(i + 1, b_len as int));
        }
        let ca = a.get_char(i);
        let cb = b.get_char(i);
        if (ca as u32) < (cb as u32) {
            return true;
        }
        if (ca as u32) > (cb as u32) {
            return false;
        }
        proof {
            assert(ca == cb) by {
                assert(ca as u32 == cb as u32);
                assert(ca as int == cb as int);
            }
        }
        i += 1;
    }
    proof {
        let at = a@.subrange(i as int, a_len as int);
        let bt = b@.subrange(i as int, b_len as int);
        if i >= a_len {
            assert(at.len() == 0);
            assert(lex_le(at, bt));
        } else {
            assert(bt.len() == 0);
            assert(at.len() > 0);
            assert(!lex_le(at, bt));
        }
    }
    i >= a_len
}

/// Character-wise string equality.
pub fn str_eq(a: &str, b: &str) -> (r: bool)
    ensures
        r == (a@ == b@),
{
    let a_len = a.unicode_len();
    let b_len = b.unicode_len();
    if a_len != b_len {
        return false;
    }
    let mut k: usize = 0;
    while k < a_len
        invariant
            a_len == a@.len() == b@.len(),
            k <= a_len,
            forall|j: int| 0 <= j < k ==> a@[j] == b@[j],
        decreases a_len - k,
    {
        if a.get_char(k) != b.get_char(k) {
            return false;
        }
        k += 1;
    }
    assert(a@ =~= b@);
    true
}

/// The segments of `s` between occurrences of `sep` (a sequence of
/// `n + 1` segments for `n` separators).
pub open spec fn split_char(s: Seq<char>, sep: char) -> Seq<Seq<char>>
    decreases s.len(),
{
    if s.len() == 0 {
        seq![Seq::<char>::empty()]
    } else if s[0] == sep {
        seq![Seq::<char>::empty()] + split_char(s.drop_first(), sep)
    } else {
        let rest = split_char(s.drop_first(), sep);
        seq![seq![s[0]] + rest[0]] + rest.drop_first()
    }
}

pub proof fn lemma_split_char_len(s: Seq<char>, sep: char)
    ensures
        split_char(s, sep).len() >= 1,
    decreases s.len(),
{
    if s.len() > 0 {
        lemma_split_char_len(s.drop_first(), sep);
    }
}

/// The first element of `sq` with `prefix` prepended to it.
pub open spec fn cons_first(prefix: Seq<char>, sq: Seq<Seq<char>>) -> Seq<Seq<char>>
    recommends
        sq.len() >= 1,
{
    seq![prefix + sq[0]] + sq.drop_first()
}

/// Splits `s` into its segments between occurrences of `sep`.
pub(crate) fn split_char_exec(s: &str, sep: char) -> (r: Vec<String>)
    ensures
        r.deep_view() == split_char(s@, sep),
{
    let len = s.unicode_len();
    let mut parts: Vec<String> = Vec::new();
    let mut cur = String::new();
    let mut i: usize = 0;
    proof {
        assert(s@.subrange(0, len as int) =~= s@);
        lemma_split_char_len(s@, sep);
        assert(cons_first(cur@, split_char(s@, sep)) =~~= split_char(s@, sep));
        assert(parts.deep_view() + cons_first(cur@, split_char(s@, sep)) =~~= split_char(s@, sep));
    }
    while i < len
        invariant
            i <= len,
            len == s@.len(),
            split_char(s@, sep) == parts.deep_view() + cons_first(
                cur@,
                split_char(s@.subrange(i as int, len as int), sep),
            ),
        decreases len - i,
    {
        let ghost tail = s@.subrange(i as int, len as int);
        let ghost tail2 = s@.subrange(i + 1, len as int);
        let ghost old_parts = parts.deep_view();
        let ghost old_cur = cur@;
        proof {
            assert(tail.len() > 0);
            assert(tail[0] == s@[i as int]);
            assert(tail.drop_first() =~= tail2);
            lemma_split_char_len(tail2, sep);
        }
        let c = s.get_char(i);
        if c == sep {
            parts.push(cur);
            cur = String::new();
            proof {
                let rest = split_char(tail2, sep);
                assert(split_char(tail, sep) == seq![Seq::<char>::empty()] + rest);
                assert(cons_first(old_cur, split_char(tail, sep)) =~~= seq![old_cur] + rest);
                assert(cons_first(cur@, rest) =~~= rest);
                assert(parts.deep_view() =~~= old_parts.push(old_cur));
                assert(parts.deep_view() + cons_first(cur@, rest) =~~= old_parts + cons_first(
                    old_cur,
                    split_char(tail, sep),
                ));
            }
        } else {
            crate::text::push_char(&mut cur, c);
            proof {
                let rest = split_char(tail2, sep);
                assert(split_char(tail, sep) == seq![seq![tail[0]] + rest[0]] + rest.drop_first());
                assert(old_cur + (seq![tail[0]] + rest[0]) =~= cur@ + rest[0]);
                assert(cons_first(old_cur, split_char(tail, sep)) =~~= cons_first(cur@, rest));
            }
        }
        i += 1;
    }
    let ghost old_parts = parts.deep_view();
    let ghost old_cur = cur@;
    proof {
        assert(s@.subrange(len as int, len as int) =~= Seq::<char>::empty());
        assert(cons_first(old_cur, split_char(Seq::<char>::empty(), sep)) =~~= seq![old_cur]);
    }
    parts.push(cur);
    proof {
        assert(parts.deep_view() =~~= old_parts.push(old_cur));
        assert(parts.deep_view() =~~= split_char(s@, sep));
    }
    parts
}

} // verus!
