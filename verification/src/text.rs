//! Character-sequence utilities shared by the record codec: splitting a
//! line into fields at a separator character, joining fields back, and
//! trimming.  `join_with` is proved to be the exact inverse of
//! `split_on`, which is what makes the record round-trip laws possible.

use vstd::prelude::*;

verus! {

/// The fields of `s` around the separator `sep`.  A string with no
/// separator is a single field; each separator starts a new field, so
/// the result always holds at least one field.
pub open spec fn split_on(s: Seq<char>, sep: char) -> Seq<Seq<char>>
    decreases s.len(),
{
    if s.len() == 0 {
        seq![Seq::<char>::empty()]
    } else if s[0] == sep {
        seq![Seq::<char>::empty()] + split_on(s.drop_first(), sep)
    } else {
        let rest = split_on(s.drop_first(), sep);
        seq![seq![s[0]] + rest[0]] + rest.drop_first()
    }
}

/// The fields of `parts` joined with the separator `sep` between them.
pub open spec fn join_with(parts: Seq<Seq<char>>, sep: char) -> Seq<char>
    decreases parts.len(),
{
    if parts.len() == 0 {
        Seq::<char>::empty()
    } else if parts.len() == 1 {
        parts[0]
    } else {
        parts[0] + seq![sep] + join_with(parts.drop_first(), sep)
    }
}

pub proof fn lemma_split_len(s: Seq<char>, sep: char)
    ensures
        split_on(s, sep).len() >= 1,
    decreases s.len(),
{
    if s.len() == 0 {
    } else {
        lemma_split_len(s.drop_first(), sep);
    }
}

/// Joining the fields of a string reproduces the string exactly.
pub proof fn lemma_join_split(s: Seq<char>, sep: char)
    ensures
        join_with(split_on(s, sep), sep) == s,
    decreases s.len(),
{
    if s.len() == 0 {
        assert(join_with(split_on(s, sep), sep) =~= s);
    } else if s[0] == sep {
        lemma_join_split(s.drop_first(), sep);
        lemma_split_len(s.drop_first(), sep);
        let rest = split_on(s.drop_first(), sep);
        let whole = seq![Seq::<char>::empty()] + rest;
        assert(whole.drop_first() =~= rest);
        assert(join_with(whole, sep) =~= Seq::<char>::empty() + seq![sep] + join_with(rest, sep));
        assert(join_with(whole, sep) =~= s);
    } else {
        lemma_join_split(s.drop_first(), sep);
        lemma_split_len(s.drop_first(), sep);
        let rest = split_on(s.drop_first(), sep);
        let whole = seq![seq![s[0]] + rest[0]] + rest.drop_first();
        if rest.len() == 1 {
            assert(whole.len() == 1);
            assert(join_with(whole, sep) == seq![s[0]] + rest[0]);
            assert(join_with(rest, sep) == rest[0]);
            assert(join_with(whole, sep) =~= s);
        } else {
            assert(whole.drop_first() =~= rest.drop_first());
            assert(join_with(whole, sep) == (seq![s[0]] + rest[0]) + seq![sep] + join_with(
                rest.drop_first(),
                sep,
            ));
            assert(join_with(rest, sep) == rest[0] + seq![sep] + join_with(rest.drop_first(), sep));
            assert(join_with(whole, sep) =~= seq![s[0]] + join_with(rest, sep));
            assert(seq![s[0]] + s.drop_first() =~= s);
        }
    }
}

/// Splitting a string whose first `k` characters are separator-free:
/// the first field is exactly those characters.
pub proof fn lemma_split_chunk(s: Seq<char>, sep: char, k: int)
    requires
        0 <= k <= s.len(),
        forall|i: int| 0 <= i < k ==> s[i] != sep,
        k == s.len() || s[k] == sep,
    ensures
        k == s.len() ==> split_on(s, sep) == seq![s],
        k < s.len() ==> split_on(s, sep) == seq![s.take(k)] + split_on(s.skip(k + 1), sep),
    decreases k,
{
    if k == 0 {
        if k == s.len() {
            assert(split_on(s, sep) =~~= seq![s]);
        } else {
            assert(s[0] == sep);
            assert(s.drop_first() =~= s.skip(1));
            assert(split_on(s, sep) =~~= seq![s.take(0)] + split_on(s.skip(1), sep));
        }
    } else {
        let d = s.drop_first();
        lemma_split_chunk(d, sep, k - 1);
        let rest = split_on(d, sep);
        if k == s.len() {
            assert(rest == seq![d]);
            assert(split_on(s, sep) =~= seq![seq![s[0]] + d]);
            assert(seq![s[0]] + d =~= s);
        } else {
            assert(d[k - 1] == s[k]);
            assert(rest == seq![d.take(k - 1)] + split_on(d.skip(k), sep));
            assert(rest[0] == d.take(k - 1));
            assert(seq![s[0]] + d.take(k - 1) =~= s.take(k));
            assert(rest.drop_first() =~= split_on(d.skip(k), sep));
            assert(d.skip(k) =~= s.skip(k + 1));
            assert(split_on(s, sep) =~= seq![s.take(k)] + split_on(s.skip(k + 1), sep));
        }
    }
}

/// Appending one more field to a join adds one separator and the field.
pub proof fn lemma_join_push(parts: Seq<Seq<char>>, sep: char, x: Seq<char>)
    requires
        parts.len() >= 1,
    ensures
        join_with(parts.push(x), sep) == join_with(parts, sep) + seq![sep] + x,
    decreases parts.len(),
{
    if parts.len() == 1 {
        assert(parts.push(x).drop_first() =~~= seq![x]);
        assert(parts.push(x)[0] == parts[0]);
        assert(join_with(seq![x], sep) == x);
        assert(join_with(parts.push(x), sep) =~= parts[0] + seq![sep] + x);
        assert(join_with(parts, sep) + seq![sep] + x =~= parts[0] + seq![sep] + x);
    } else {
        lemma_join_push(parts.drop_first(), sep, x);
        assert(parts.push(x).drop_first() =~= parts.drop_first().push(x));
        assert(join_with(parts.push(x), sep) == parts[0] + seq![sep] + join_with(
            parts.drop_first().push(x),
            sep,
        ));
        assert(join_with(parts.push(x), sep) =~= join_with(parts, sep) + seq![sep] + x);
    }
}

/// Splits `s` into its fields around the character `sep`.
pub fn split_str(s: &str, sep: char) -> (parts: Vec<String>)
    ensures
        parts.deep_view() == split_on(s@, sep),
        parts@.len() >= 1,
{
    let len = s.unicode_len();
    let mut parts: Vec<String> = Vec::new();
    let mut start: usize = 0;
    let mut i: usize = 0;
    proof {
        assert(parts.deep_view() =~= Seq::<Seq<char>>::empty());
        assert(s@.skip(0) =~= s@);
        assert(split_on(s@, sep) =~= parts.deep_view() + split_on(s@.skip(0), sep));
    }
    while i < len
        invariant
            0 <= start <= i <= len,
            len == s@.len(),
            forall|j: int| start <= j < i ==> s@[j] != sep,
            split_on(s@, sep) == parts.deep_view() + split_on(s@.skip(start as int), sep),
        decreases len - i,
    {
        if s.get_char(i) == sep {
            let piece = s.substring_char(start, i).to_owned();
            let ghost before = parts.deep_view();
            proof {
                let tail = s@.skip(start as int);
                assert(forall|j: int| 0 <= j < i - start ==> tail[j] != sep);
                assert(tail[i - start] == sep);
                lemma_split_chunk(tail, sep, i - start);
                assert(tail.take(i - start) =~= s@.subrange(start as int, i as int));
                assert(tail.skip(i - start + 1) =~= s@.skip(i + 1));
            }
            parts.push(piece);
            proof {
                assert(parts.deep_view() =~= before + seq![piece@]);
                assert(split_on(s@, sep) =~= parts.deep_view() + split_on(s@.skip(i + 1), sep));
            }
            start = i + 1;
        }
        i += 1;
    }
    let piece = s.substring_char(start, len).to_owned();
    let ghost before = parts.deep_view();
    proof {
        let tail = s@.skip(start as int);
        lemma_split_chunk(tail, sep, tail.len() as int);
        assert(tail =~= s@.subrange(start as int, len as int));
    }
    parts.push(piece);
    proof {
        assert(parts.deep_view() =~= before + seq![piece@]);
        assert(parts.deep_view() =~= split_on(s@, sep));
    }
    parts
}

/// Joins the fields with the one-character separator `sep` between them.
pub fn join_strs(parts: &Vec<String>, sep: &str) -> (r: String)
    requires
        sep@.len() == 1,
    ensures
        r@ == join_with(parts.deep_view(), sep@[0]),
{
    if parts.len() == 0 {
        return String::new();
    }
    let mut r: String = parts[0].clone();
    let mut i: usize = 1;
    while i < parts.len()
        invariant
            1 <= i <= parts@.len(),
            sep@.len() == 1,
            parts.deep_view().len() == parts@.len(),
            r@ == join_with(parts.deep_view().take(i as int), sep@[0]),
        decreases parts@.len() - i,
    {
        r.append(sep);
        r.append(parts[i].as_str());
        proof {
            let dv = parts.deep_view();
            lemma_join_push(dv.take(i as int), sep@[0], dv[i as int]);
            assert(dv.take(i as int).push(dv[i as int]) =~= dv.take(i + 1));
        }
        i += 1;
    }
    proof {
        assert(parts.deep_view().take(parts@.len() as int) =~= parts.deep_view());
    }
    r
}

/// The fields of `parts` with every field equal to `line` dropped.
pub open spec fn drop_matching(parts: Seq<Seq<char>>, line: Seq<char>) -> Seq<Seq<char>>
    decreases parts.len(),
{
    if parts.len() == 0 {
        Seq::<Seq<char>>::empty()
    } else if parts[0] == line {
        drop_matching(parts.drop_first(), line)
    } else {
        seq![parts[0]] + drop_matching(parts.drop_first(), line)
    }
}

/// The text `content` with every line exactly equal to `line` spliced
/// out; the remaining lines keep their order and are joined with
/// newlines.
pub open spec fn remove_line_spec(content: Seq<char>, line: Seq<char>) -> Seq<char> {
    join_with(drop_matching(split_on(content, '\n'), line), '\n')
}

/// Splices every line equal to `line` out of `content`.
pub fn remove_line(content: &str, line: &str) -> (r: String)
    ensures
        r@ == remove_line_spec(content@, line@),
{
    let parts = split_str(content, '\n');
    let mut kept: Vec<String> = Vec::new();
    let mut i: usize = 0;
    proof {
        assert(kept.deep_view() =~= Seq::<Seq<char>>::empty());
        assert(parts.deep_view().skip(0) =~= parts.deep_view());
    }
    while i < parts.len()
        invariant
            0 <= i <= parts@.len(),
            parts.deep_view().len() == parts@.len(),
            drop_matching(parts.deep_view(), line@) == kept.deep_view() + drop_matching(
                parts.deep_view().skip(i as int),
                line@,
            ),
        decreases parts@.len() - i,
    {
        let ghost pre = kept.deep_view();
        let ghost tail = parts.deep_view().skip(i as int);
        proof {
            assert(tail[0] == parts.deep_view()[i as int]);
            assert(tail.drop_first() =~= parts.deep_view().skip(i + 1));
        }
        if !str_eq(parts[i].as_str(), line) {
            let piece = parts[i].clone();
            kept.push(piece);
            proof {
                assert(kept.deep_view() =~= pre + seq![parts.deep_view()[i as int]]);
                assert(drop_matching(parts.deep_view(), line@) =~= kept.deep_view()
                    + drop_matching(parts.deep_view().skip(i + 1), line@));
            }
        } else {
            proof {
                assert(drop_matching(parts.deep_view(), line@) =~= kept.deep_view()
                    + drop_matching(parts.deep_view().skip(i + 1), line@));
            }
        }
        i += 1;
    }
    proof {
        assert(parts.deep_view().skip(parts@.len() as int) =~= Seq::<Seq<char>>::empty());
        assert(drop_matching(parts.deep_view(), line@) =~= kept.deep_view());
    }
    proof {
        reveal_strlit("\n");
    }
    join_strs(&kept, "\n")
}

/// A character that trimming removes: whitespace or a NUL, as found
/// around the pid recorded in a lock file.
pub open spec fn is_trim_char(c: char) -> bool {
    c == ' ' || c == '\t' || c == '\n' || c == '\r' || c == '\u{0}'
}

/// `s` without its leading trim characters.
pub open spec fn trim_front(s: Seq<char>) -> Seq<char>
    decreases s.len(),
{
    if s.len() > 0 && is_trim_char(s[0]) {
        trim_front(s.drop_first())
    } else {
        s
    }
}

/// `s` without its trailing trim characters.
pub open spec fn trim_back(s: Seq<char>) -> Seq<char>
    decreases s.len(),
{
    if s.len() > 0 && is_trim_char(s.last()) {
        trim_back(s.drop_last())
    } else {
        s
    }
}

/// `s` without leading and trailing whitespace and NULs.
pub open spec fn trim_spec(s: Seq<char>) -> Seq<char> {
    trim_back(trim_front(s))
}

fn is_trim_char_exec(c: char) -> (r: bool)
    ensures
        r == is_trim_char(c),
{
    c == ' ' || c == '\t' || c == '\n' || c == '\r' || c == '\u{0}'
}

/// Removes leading and trailing whitespace and NULs.
pub fn trimmed(s: &str) -> (r: String)
    ensures
        r@ == trim_spec(s@),
{
    let len = s.unicode_len();
    let mut lo: usize = 0;
    proof {
        assert(s@.skip(0) =~= s@);
    }
    while lo < len && is_trim_char_exec(s.get_char(lo))
        invariant
            0 <= lo <= len,
            len == s@.len(),
            trim_front(s@) == trim_front(s@.skip(lo as int)),
        decreases len - lo,
    {
        proof {
            assert(s@.skip(lo as int)[0] == s@[lo as int]);
            assert(s@.skip(lo as int).drop_first() =~= s@.skip(lo + 1));
        }
        lo += 1;
    }
    let ghost t = s@.skip(lo as int);
    proof {
        if lo < len {
            assert(t[0] == s@[lo as int]);
            assert(!is_trim_char(t[0]));
            assert(trim_front(t) == t);
        } else {
            assert(t =~= Seq::<char>::empty());
        }
    }
    let mut hi: usize = len;
    proof {
        assert(t.take(hi - lo) =~= t);
    }
    while hi > lo && is_trim_char_exec(s.get_char(hi - 1))
        invariant
            lo <= hi <= len,
            len == s@.len(),
            t == s@.skip(lo as int),
            trim_back(t) == trim_back(t.take(hi - lo)),
        decreases hi,
    {
        proof {
            let k = hi - lo;
            assert(t.take(k).last() == t[k - 1]);
            assert(t[k - 1] == s@[hi - 1]);
            assert(t.take(k).drop_last() =~= t.take(k - 1));
        }
        hi -= 1;
    }
    proof {
        if hi > lo {
            assert(t.take(hi - lo).last() == t[hi - lo - 1]);
            assert(t[hi - lo - 1] == s@[hi - 1]);
            assert(trim_back(t.take(hi - lo)) == t.take(hi - lo));
        } else {
            assert(t.take(0) =~= Seq::<char>::empty());
            assert(trim_back(t.take(0)) =~= Seq::<char>::empty());
        }
        assert(t.take(hi - lo) =~= s@.subrange(lo as int, hi as int));
        assert(trim_spec(s@) == trim_back(t));
    }
    s.substring_char(lo, hi).to_owned()
}

/// True exactly when the two strings hold the same characters.
pub fn str_eq(a: &str, b: &str) -> (r: bool)
    ensures
        r == (a@ == b@),
{
    let alen = a.unicode_len();
    let blen = b.unicode_len();
    if alen != blen {
        return false;
    }
    let mut i: usize = 0;
    while i < alen
        invariant
            0 <= i <= alen,
            alen == a@.len(),
            alen == b@.len(),
            forall|j: int| 0 <= j < i ==> a@[j] == b@[j],
        decreases alen - i,
    {
        if a.get_char(i) != b.get_char(i) {
            return false;
        }
        i += 1;
    }
    proof {
        assert(a@ =~= b@);
    }
    true
}

} // verus!
