//! Verified text utilities: trimming, substring search, decimal formatting
//! and joining, each specified over sequences of characters.
use vstd::prelude::*;
use vstd::string::*;

verus! {

/// Whether a character counts as whitespace, as the Unicode `White_Space`
/// property defines it.
pub uninterp spec fn is_space(c: char) -> bool;

/// Relies on char::is_whitespace: true exactly for characters with the
/// Unicode `White_Space` property.
#[verifier::external_body]
fn space_char(c: char) -> (r: bool)
    ensures
        r == is_space(c),
{
    c.is_whitespace()
}

/// The sequence with leading whitespace removed.
pub open spec fn trim_start_spec(s: Seq<char>) -> Seq<char>
    decreases s.len(),
{
    if s.len() == 0 {
        s
    } else if is_space(s.first()) {
        trim_start_spec(s.drop_first())
    } else {
        s
    }
}

/// The sequence with trailing whitespace removed.
pub open spec fn trim_end_spec(s: Seq<char>) -> Seq<char>
    decreases s.len(),
{
    if s.len() == 0 {
        s
    } else if is_space(s.last()) {
        trim_end_spec(s.drop_last())
    } else {
        s
    }
}

/// The sequence with surrounding whitespace removed.
pub open spec fn trim_spec(s: Seq<char>) -> Seq<char> {
    trim_end_spec(trim_start_spec(s))
}

proof fn lemma_trim_start_subrange(s: Seq<char>, i: int)
    requires
        0 <= i <= s.len(),
        forall|k: int| 0 <= k < i ==> is_space(s[k]),
        i == s.len() || !is_space(s[i]),
    ensures
        trim_start_spec(s) == s.subrange(i, s.len() as int),
    decreases i,
{
    if i == 0 {
        assert(trim_start_spec(s) =~= s.subrange(0, s.len() as int)) by {
            if s.len() > 0 {
                assert(!is_space(s.first()));
            }
            assert(s.subrange(0, s.len() as int) =~= s);
        }
    } else {
        assert(is_space(s.first()));
        let t = s.drop_first();
        assert(forall|k: int| 0 <= k < i - 1 ==> is_space(t[k]));
        lemma_trim_start_subrange(t, i - 1);
        assert(t.subrange(i - 1, t.len() as int) =~= s.subrange(i, s.len() as int));
    }
}

proof fn lemma_trim_end_subrange(s: Seq<char>, j: int)
    requires
        0 <= j <= s.len(),
        forall|k: int| j <= k < s.len() ==> is_space(s[k]),
        j == 0 || !is_space(s[j - 1]),
    ensures
        trim_end_spec(s) == s.subrange(0, j),
    decreases s.len() - j,
{
    if j == s.len() {
        assert(trim_end_spec(s) =~= s.subrange(0, j)) by {
            if s.len() > 0 {
                assert(!is_space(s.last()));
            }
            assert(s.subrange(0, s.len() as int) =~= s);
        }
    } else {
        assert(is_space(s.last()));
        let t = s.drop_last();
        assert(forall|k: int| j <= k < t.len() ==> is_space(t[k]));
        lemma_trim_end_subrange(t, j);
        assert(t.subrange(0, j) =~= s.subrange(0, j));
    }
}

/// Remove surrounding whitespace from a string slice.
pub fn trim<'a>(s: &'a str) -> (r: &'a str)
    ensures
        r@ == trim_spec(s@),
{
    let n = s.unicode_len();
    let mut i: usize = 0;
    while i < n && space_char(s.get_char(i))
        invariant
            0 <= i <= n,
            n == s@.len(),
            forall|k: int| 0 <= k < i ==> is_space(s@[k]),
        decreases n - i,
    {
        i = i + 1;
    }
    let mut j: usize = n;
    while j > i && space_char(s.get_char(j - 1))
        invariant
            i <= j <= n,
            n == s@.len(),
            i == n || !is_space(s@[i as int]),
            forall|k: int| 0 <= k < i ==> is_space(s@[k]),
            forall|k: int| j <= k < n ==> is_space(s@[k]),
        decreases j,
    {
        j = j - 1;
    }
    let r = s.substring_char(i, j);
    proof {
        lemma_trim_start_subrange(s@, i as int);
        let t = s@.subrange(i as int, s@.len() as int);
        assert(forall|k: int| j - i <= k < t.len() ==> is_space(t[k]));
        lemma_trim_end_subrange(t, j - i);
        assert(t.subrange(0, j - i) =~= s@.subrange(i as int, j as int));
    }
    r
}

/// Whether `p` occurs as a contiguous subsequence of `s`.
pub open spec fn contains_sub(s: Seq<char>, p: Seq<char>) -> bool {
    exists|i: int| 0 <= i && i + p.len() <= s.len() && #[trigger] s.subrange(i, i + p.len()) == p
}

/// Whether the pattern `p` occurs as a substring of `s`.
pub fn contains_str(s: &str, p: &str) -> (r: bool)
    ensures
        r == contains_sub(s@, p@),
{
    let n = s.unicode_len();
    let m = p.unicode_len();
    if m > n {
        return false;
    }
    if m == 0 {
        proof {
            assert(s@.subrange(0, 0 + p@.len() as int) =~= p@);
        }
        return true;
    }
    let mut i: usize = 0;
    while i <= n - m
        invariant
            0 <= i <= n - m + 1,
            1 <= m <= n,
            n == s@.len(),
            m == p@.len(),
            forall|k: int| 0 <= k < i ==> #[trigger] s@.subrange(k, k + p@.len()) != p@,
        decreases n - m - i + 1,
    {
        let mut j: usize = 0;
        let mut matches = true;
        while j < m
            invariant
                0 <= j <= m,
                0 <= i <= n - m,
                n == s@.len(),
                m == p@.len(),
                matches ==> forall|k: int| 0 <= k < j ==> s@[i + k] == p@[k],
                !matches ==> s@.subrange(i as int, i + p@.len()) != p@,
            decreases m - j,
        {
            if s.get_char(i + j) != p.get_char(j) {
                proof {
                    assert(s@.subrange(i as int, i + p@.len())[j as int] != p@[j as int]);
                }
                matches = false;
                j = m;
            } else {
                j = j + 1;
            }
        }
        if matches {
            proof {
                assert(s@.subrange(i as int, i + p@.len()) =~= p@);
            }
            return true;
        }
        i = i + 1;
    }
    proof {
        assert(forall|k: int| 0 <= k && k + p@.len() <= s@.len() ==> #[trigger] s@.subrange(
            k,
            k + p@.len(),
        ) != p@);
    }
    false
}

/// The decimal digit character for a value below ten.
pub open spec fn digit_char(d: nat) -> char {
    "0123456789"@[d as int]
}

/// The decimal representation of a natural number, most significant digit
/// first, with no leading zeros (a lone zero for zero itself).
pub open spec fn dec_digits(n: nat) -> Seq<char>
    decreases n,
{
    if n < 10 {
        seq![digit_char(n)]
    } else {
        dec_digits(n / 10).push(digit_char(n % 10))
    }
}

fn digit_str(d: u64) -> (r: &'static str)
    requires
        d < 10,
    ensures
        r@ == seq![digit_char(d as nat)],
{
    proof {
        reveal_strlit("0123456789");
        assert(is_ascii("0123456789"));
    }
    let r = "0123456789".substring_ascii(d as usize, d as usize + 1);
    proof {
        assert(r@ =~= seq![digit_char(d as nat)]);
    }
    r
}

/// Format a number in decimal.
pub fn u64_to_dec(n: u64) -> (r: String)
    ensures
        r@ == dec_digits(n as nat),
    decreases n,
{
    if n < 10 {
        String::from_str(digit_str(n))
    } else {
        let mut s = u64_to_dec(n / 10);
        s.append(digit_str(n % 10));
        proof {
            assert(s@ =~= dec_digits(n as nat));
        }
        s
    }
}

/// The parts joined with the separator between consecutive parts.
pub open spec fn join_sep(parts: Seq<Seq<char>>, sep: Seq<char>) -> Seq<char>
    decreases parts.len(),
{
    if parts.len() == 0 {
        Seq::empty()
    } else if parts.len() == 1 {
        parts[0]
    } else {
        join_sep(parts.drop_last(), sep) + sep + parts.last()
    }
}

/// Join string slices with a separator.
pub fn join(parts: &Vec<&str>, sep: &str) -> (r: String)
    ensures
        r@ == join_sep(parts@.map_values(|p: &str| p@), sep@),
{
    let ghost views = parts@.map_values(|p: &str| p@);
    let mut acc = String::new();
    let mut i: usize = 0;
    while i < parts.len()
        invariant
            0 <= i <= parts@.len(),
            views == parts@.map_values(|p: &str| p@),
            views.len() == parts@.len(),
            acc@ == join_sep(views.take(i as int), sep@),
        decreases parts@.len() - i,
    {
        if i > 0 {
            acc.append(sep);
        }
        acc.append(parts[i]);
        proof {
            assert(views.take(i + 1).drop_last() =~= views.take(i as int));
            assert(views.take(i + 1).last() == views[i as int]);
            if i == 0 {
                assert(acc@ =~= join_sep(views.take(i + 1), sep@));
            } else {
                assert(acc@ =~= join_sep(views.take(i + 1), sep@));
            }
        }
        i = i + 1;
    }
    proof {
        assert(views.take(parts@.len() as int) =~= views);
    }
    acc
}


/// Whether `p` is a prefix of `s`.
pub open spec fn starts_with_spec(s: Seq<char>, p: Seq<char>) -> bool {
    s.len() >= p.len() && s.subrange(0, p.len() as int) == p
}

/// Whether `p` is a suffix of `s`.
pub open spec fn ends_with_spec(s: Seq<char>, p: Seq<char>) -> bool {
    s.len() >= p.len() && s.subrange(s.len() - p.len(), s.len() as int) == p
}

/// Whether the string starts with the prefix.
pub fn starts_with(s: &str, p: &str) -> (r: bool)
    ensures
        r == starts_with_spec(s@, p@),
{
    let n = s.unicode_len();
    let m = p.unicode_len();
    if m > n {
        return false;
    }
    let mut j: usize = 0;
    while j < m
        invariant
            0 <= j <= m,
            m <= n,
            n == s@.len(),
            m == p@.len(),
            forall|k: int| 0 <= k < j ==> s@[k] == p@[k],
        decreases m - j,
    {
        if s.get_char(j) != p.get_char(j) {
            proof {
                assert(s@.subrange(0, p@.len() as int)[j as int] != p@[j as int]);
            }
            return false;
        }
        j = j + 1;
    }
    proof {
        assert(s@.subrange(0, p@.len() as int) =~= p@);
    }
    true
}

/// Whether the string ends with the suffix.
pub fn ends_with(s: &str, p: &str) -> (r: bool)
    ensures
        r == ends_with_spec(s@, p@),
{
    let n = s.unicode_len();
    let m = p.unicode_len();
    if m > n {
        return false;
    }
    let mut j: usize = 0;
    while j < m
        invariant
            0 <= j <= m,
            m <= n,
            n == s@.len(),
            m == p@.len(),
            forall|k: int| 0 <= k < j ==> s@[n - m + k] == p@[k],
        decreases m - j,
    {
        if s.get_char(n - m + j) != p.get_char(j) {
            proof {
                assert(s@.subrange(s@.len() - p@.len(), s@.len() as int)[j as int] != p@[
                    j as int]);
            }
            return false;
        }
        j = j + 1;
    }
    proof {
        assert(s@.subrange(s@.len() - p@.len(), s@.len() as int) =~= p@);
    }
    true
}

/// The string replaced as str::replace does it: non-overlapping matches of
/// a non-empty pattern, scanned left to right, each replaced by `to`.
pub open spec fn replace_spec(s: Seq<char>, from: Seq<char>, to: Seq<char>) -> Seq<char>
    decreases s.len(),
{
    if from.len() == 0 || s.len() < from.len() {
        s
    } else if s.subrange(0, from.len() as int) == from {
        to + replace_spec(s.skip(from.len() as int), from, to)
    } else {
        seq![s[0]] + replace_spec(s.drop_first(), from, to)
    }
}

/// Replace every non-overlapping occurrence of a non-empty pattern.
pub fn replace(s: &str, from: &str, to: &str) -> (r: String)
    requires
        from@.len() > 0,
    ensures
        r@ == replace_spec(s@, from@, to@),
{
    let n = s.unicode_len();
    let m = from.unicode_len();
    let mut out = String::new();
    proof {
        assert(s@.skip(0) =~= s@);
        assert(out@ + replace_spec(s@, from@, to@) =~= replace_spec(s@, from@, to@));
    }
    let mut i: usize = 0;
    while i < n
        invariant
            0 <= i <= n,
            n == s@.len(),
            m == from@.len(),
            m > 0,
            replace_spec(s@, from@, to@) == out@ + replace_spec(s@.skip(i as int), from@, to@),
        decreases n - i,
    {
        let ghost rem = s@.skip(i as int);
        if m <= n - i {
            let mut j: usize = 0;
            let mut matches = true;
            while j < m
                invariant
                    0 <= j <= m,
                    0 <= i,
                    i + m <= n,
                    n == s@.len(),
                    m == from@.len(),
                    rem == s@.skip(i as int),
                    matches ==> forall|k: int| 0 <= k < j ==> s@[i + k] == from@[k],
                    !matches ==> rem.subrange(0, from@.len() as int) != from@,
                decreases m - j,
            {
                if s.get_char(i + j) != from.get_char(j) {
                    proof {
                        assert(rem.subrange(0, from@.len() as int)[j as int] == s@[i + j]);
                    }
                    matches = false;
                    j = m;
                } else {
                    j = j + 1;
                }
            }
            if matches {
                out.append(to);
                proof {
                    assert(rem.subrange(0, from@.len() as int) =~= from@);
                    assert(rem.skip(from@.len() as int) =~= s@.skip(i + m));
                }
                i = i + m;
            } else {
                let c = s.substring_char(i, i + 1);
                out.append(c);
                proof {
                    assert(seq![rem[0]] =~= c@);
                    assert(rem.drop_first() =~= s@.skip(i + 1));
                }
                i = i + 1;
            }
        } else {
            let rest = s.substring_char(i, n);
            out.append(rest);
            proof {
                assert(rem.len() < from@.len());
                assert(rem =~= rest@);
                assert(s@.skip(n as int) =~= Seq::<char>::empty());
                assert(replace_spec(s@.skip(n as int), from@, to@) =~= Seq::<char>::empty());
                assert((out@ + Seq::<char>::empty()) =~= out@);
            }
            i = n;
        }
    }
    proof {
        assert(s@.skip(n as int) =~= Seq::<char>::empty());
        assert(replace_spec(s@.skip(n as int), from@, to@) =~= Seq::<char>::empty());
        assert(out@ =~= (out@ + Seq::<char>::empty()));
    }
    out
}


/// The first index holding the character, or -1.
pub open spec fn index_of_first(s: Seq<char>, c: char) -> int
    decreases s.len(),
{
    if s.len() == 0 {
        -1
    } else if s[0] == c {
        0
    } else {
        let r = index_of_first(s.drop_first(), c);
        if r < 0 {
            -1
        } else {
            r + 1
        }
    }
}

proof fn lemma_index_of_first_at(s: Seq<char>, c: char, i: int)
    requires
        0 <= i <= s.len(),
        forall|k: int| 0 <= k < i ==> s[k] != c,
        i == s.len() || s[i] == c,
    ensures
        i == s.len() ==> index_of_first(s, c) == -1,
        i < s.len() ==> index_of_first(s, c) == i,
    decreases s.len(),
{
    if s.len() > 0 && s[0] != c {
        let rest = s.drop_first();
        assert(forall|k: int| 0 <= k < rest.len() ==> #[trigger] rest[k] == s[k + 1]);
        lemma_index_of_first_at(rest, c, if i == 0 { 0 } else { i - 1 });
    }
}

/// The pieces between occurrences of the separator, occurrences at the
/// edges and adjacent occurrences contributing empty pieces, as
/// str::split with a character separator yields them.
pub open spec fn split_char_spec(s: Seq<char>, sep: char) -> Seq<Seq<char>>
    decreases s.len(),
{
    let i = index_of_first(s, sep);
    if i < 0 || i >= s.len() {
        seq![s]
    } else {
        seq![s.take(i)] + split_char_spec(s.skip(i + 1), sep)
    }
}

/// Split at every occurrence of the separator.
pub fn split_char(s: &str, sep: char) -> (r: Vec<String>)
    ensures
        r.deep_view() == split_char_spec(s@, sep),
{
    let n = s.unicode_len();
    let mut out: Vec<String> = Vec::new();
    let mut start: usize = 0;
    let mut i: usize = 0;
    proof {
        assert(s@.skip(0) =~= s@);
        assert(out.deep_view() + split_char_spec(s@, sep) =~= split_char_spec(s@, sep));
    }
    while i < n
        invariant
            0 <= start <= i <= n,
            n == s@.len(),
            split_char_spec(s@, sep) == out.deep_view() + split_char_spec(s@.skip(start as int), sep),
            forall|k: int| start <= k < i ==> s@[k] != sep,
        decreases n - i,
    {
        if s.get_char(i) == sep {
            let ghost rem = s@.skip(start as int);
            let ghost prev = out.deep_view();
            let piece = s.substring_char(start, i);
            out.push(String::from_str(piece));
            proof {
                assert(forall|k: int| 0 <= k < rem.len() ==> #[trigger] rem[k] == s@[start + k]);
                lemma_index_of_first_at(rem, sep, i - start);
                assert(rem.take(i - start) =~= piece@);
                assert(rem.skip(i - start + 1) =~= s@.skip(i + 1));
                assert(out.deep_view() =~= prev + seq![piece@]);
                assert(out.deep_view() + split_char_spec(s@.skip(i + 1), sep) =~= prev + (seq![
                    piece@,
                ] + split_char_spec(s@.skip(i + 1), sep)));
            }
            start = i + 1;
        }
        i = i + 1;
    }
    let ghost rem = s@.skip(start as int);
    let ghost prev = out.deep_view();
    let piece = s.substring_char(start, n);
    out.push(String::from_str(piece));
    proof {
        assert(forall|k: int| 0 <= k < rem.len() ==> #[trigger] rem[k] == s@[start + k]);
        lemma_index_of_first_at(rem, sep, rem.len() as int);
        assert(rem =~= piece@);
        assert(out.deep_view() =~= prev + seq![piece@]);
        assert(prev + seq![rem] =~= out.deep_view());
    }
    out
}

/// The first index holding whitespace, or -1.
pub open spec fn index_of_first_space(s: Seq<char>) -> int
    decreases s.len(),
{
    if s.len() == 0 {
        -1
    } else if is_space(s[0]) {
        0
    } else {
        let r = index_of_first_space(s.drop_first());
        if r < 0 {
            -1
        } else {
            r + 1
        }
    }
}

proof fn lemma_index_of_first_space_at(s: Seq<char>, i: int)
    requires
        0 <= i <= s.len(),
        forall|k: int| 0 <= k < i ==> !is_space(s[k]),
        i == s.len() || is_space(s[i]),
    ensures
        i == s.len() ==> index_of_first_space(s) == -1,
        i < s.len() ==> index_of_first_space(s) == i,
    decreases s.len(),
{
    if s.len() > 0 && !is_space(s[0]) {
        let rest = s.drop_first();
        assert(forall|k: int| 0 <= k < rest.len() ==> #[trigger] rest[k] == s[k + 1]);
        lemma_index_of_first_space_at(rest, if i == 0 { 0 } else { i - 1 });
    }
}

/// The maximal runs of non-whitespace characters, in order, as
/// str::split_whitespace yields them: no empty pieces.
pub open spec fn split_ws_spec(s: Seq<char>) -> Seq<Seq<char>>
    decreases s.len(),
{
    if s.len() == 0 {
        Seq::empty()
    } else if is_space(s[0]) {
        split_ws_spec(s.drop_first())
    } else {
        let i = index_of_first_space(s);
        if i < 1 || i >= s.len() {
            seq![s]
        } else {
            seq![s.take(i)] + split_ws_spec(s.skip(i))
        }
    }
}

/// Split at whitespace runs.
pub fn split_whitespace(s: &str) -> (r: Vec<String>)
    ensures
        r.deep_view() == split_ws_spec(s@),
{
    let n = s.unicode_len();
    let mut out: Vec<String> = Vec::new();
    let mut i: usize = 0;
    proof {
        assert(s@.skip(0) =~= s@);
        assert(out.deep_view() + split_ws_spec(s@) =~= split_ws_spec(s@));
    }
    while i < n
        invariant
            0 <= i <= n,
            n == s@.len(),
            split_ws_spec(s@) == out.deep_view() + split_ws_spec(s@.skip(i as int)),
        decreases n - i,
    {
        if space_char(s.get_char(i)) {
            proof {
                assert(s@.skip(i as int)[0] == s@[i as int]);
                assert(s@.skip(i as int).drop_first() =~= s@.skip(i + 1));
            }
            i = i + 1;
        } else {
            let mut j: usize = i + 1;
            while j < n && !space_char(s.get_char(j))
                invariant
                    i < j <= n,
                    n == s@.len(),
                    forall|k: int| i <= k < j ==> !is_space(s@[k]),
                decreases n - j,
            {
                j = j + 1;
            }
            let ghost rem = s@.skip(i as int);
            let ghost prev = out.deep_view();
            let piece = s.substring_char(i, j);
            out.push(String::from_str(piece));
            proof {
                assert(forall|k: int| 0 <= k < rem.len() ==> #[trigger] rem[k] == s@[i + k]);
                assert(!is_space(rem[0]));
                lemma_index_of_first_space_at(rem, j - i);
                assert(rem.take(j - i) =~= piece@);
                assert(rem.skip(j - i) =~= s@.skip(j as int));
                assert(out.deep_view() =~= prev + seq![piece@]);
                if j == n {
                    assert(rem =~= piece@);
                    assert(s@.skip(n as int) =~= Seq::<char>::empty());
                    assert(split_ws_spec(s@.skip(n as int)) =~= Seq::<Seq<char>>::empty());
                    assert(out.deep_view() + Seq::<Seq<char>>::empty() =~= out.deep_view());
                } else {
                    assert(out.deep_view() + split_ws_spec(s@.skip(j as int)) =~= prev + (seq![
                        piece@,
                    ] + split_ws_spec(s@.skip(j as int))));
                }
            }
            i = j;
        }
    }
    proof {
        assert(s@.skip(n as int) =~= Seq::<char>::empty());
        assert(out.deep_view() + Seq::<Seq<char>>::empty() =~= out.deep_view());
    }
    out
}

/// The first `k` characters, or the whole string when it is shorter.
pub fn take_chars<'a>(s: &'a str, k: usize) -> (r: &'a str)
    ensures
        r@ == if k <= s@.len() {
            s@.take(k as int)
        } else {
            s@
        },
{
    let n = s.unicode_len();
    if k >= n {
        proof {
            if k <= s@.len() {
                assert(s@.take(k as int) =~= s@);
            }
        }
        s
    } else {
        s.substring_char(0, k)
    }
}


/// The position of the first occurrence of the character, if any.
pub fn find_char(s: &str, c: char) -> (r: Option<usize>)
    ensures
        match r {
            Some(i) => i < s@.len() && s@[i as int] == c && index_of_first(s@, c) == i,
            None => index_of_first(s@, c) == -1,
        },
{
    let n = s.unicode_len();
    let mut i: usize = 0;
    while i < n
        invariant
            0 <= i <= n,
            n == s@.len(),
            forall|k: int| 0 <= k < i ==> s@[k] != c,
        decreases n - i,
    {
        if s.get_char(i) == c {
            proof {
                lemma_index_of_first_at(s@, c, i as int);
            }
            return Some(i);
        }
        i = i + 1;
    }
    proof {
        lemma_index_of_first_at(s@, c, s@.len() as int);
    }
    None
}

/// Whether the list holds the string.
pub fn vec_contains_str(v: &Vec<String>, s: &str) -> (r: bool)
    ensures
        r == v.deep_view().contains(s@),
{
    let target = String::from_str(s);
    let mut j: usize = 0;
    while j < v.len()
        invariant
            0 <= j <= v@.len(),
            target@ == s@,
            forall|k: int| 0 <= k < j ==> v.deep_view()[k] != s@,
        decreases v@.len() - j,
    {
        proof {
            assert(v.deep_view()[j as int] == v@[j as int]@);
        }
        if v[j] == target {
            return true;
        }
        j = j + 1;
    }
    proof {
        if v.deep_view().contains(s@) {
            let k = choose|k: int| 0 <= k < v.deep_view().len() && v.deep_view()[k] == s@;
            assert(v.deep_view()[k] != s@);
        }
    }
    false
}


/// The sequence with every leading occurrence of the character removed.
pub open spec fn trim_start_char_spec(s: Seq<char>, c: char) -> Seq<char>
    decreases s.len(),
{
    if s.len() > 0 && s[0] == c {
        trim_start_char_spec(s.drop_first(), c)
    } else {
        s
    }
}

proof fn lemma_trim_start_char_subrange(s: Seq<char>, c: char, i: int)
    requires
        0 <= i <= s.len(),
        forall|k: int| 0 <= k < i ==> s[k] == c,
        i == s.len() || s[i] != c,
    ensures
        trim_start_char_spec(s, c) == s.subrange(i, s.len() as int),
    decreases i,
{
    if i == 0 {
        assert(s.subrange(0, s.len() as int) =~= s);
    } else {
        let t = s.drop_first();
        assert(forall|k: int| 0 <= k < i - 1 ==> t[k] == s[k + 1]);
        lemma_trim_start_char_subrange(t, c, i - 1);
        assert(t.subrange(i - 1, t.len() as int) =~= s.subrange(i, s.len() as int));
    }
}

/// Remove every leading occurrence of the character.
pub fn trim_start_matches_char<'a>(s: &'a str, c: char) -> (r: &'a str)
    ensures
        r@ == trim_start_char_spec(s@, c),
{
    let n = s.unicode_len();
    let mut i: usize = 0;
    while i < n && s.get_char(i) == c
        invariant
            0 <= i <= n,
            n == s@.len(),
            forall|k: int| 0 <= k < i ==> s@[k] == c,
        decreases n - i,
    {
        i = i + 1;
    }
    let r = s.substring_char(i, n);
    proof {
        lemma_trim_start_char_subrange(s@, c, i as int);
    }
    r
}


/// The first start index of an occurrence of `p`, or -1; -1 for an empty
/// pattern.
pub open spec fn index_of_sub(s: Seq<char>, p: Seq<char>) -> int
    decreases s.len(),
{
    if p.len() == 0 || s.len() < p.len() {
        -1
    } else if s.subrange(0, p.len() as int) == p {
        0
    } else {
        let r = index_of_sub(s.drop_first(), p);
        if r < 0 {
            -1
        } else {
            r + 1
        }
    }
}

proof fn lemma_index_of_sub_at(s: Seq<char>, p: Seq<char>, i: int)
    requires
        p.len() >= 1,
        0 <= i,
        i + p.len() <= s.len(),
        forall|k: int| 0 <= k < i ==> #[trigger] s.subrange(k, k + p.len()) != p,
        s.subrange(i, i + p.len()) == p,
    ensures
        index_of_sub(s, p) == i,
    decreases s.len(),
{
    if i == 0 {
    } else {
        let rest = s.drop_first();
        assert forall|k: int| 0 <= k < i - 1 implies #[trigger] rest.subrange(k, k + p.len())
            != p by {
            assert(rest.subrange(k, k + p.len()) =~= s.subrange(k + 1, k + 1 + p.len()));
        }
        assert(rest.subrange(i - 1, i - 1 + p.len()) =~= s.subrange(i, i + p.len()));
        lemma_index_of_sub_at(rest, p, i - 1);
        assert(s.subrange(0, 0 + p.len() as int) != p);
        assert(s.subrange(0, p.len() as int) =~= s.subrange(0, 0 + p.len() as int));
    }
}

proof fn lemma_index_of_sub_none(s: Seq<char>, p: Seq<char>)
    requires
        p.len() >= 1,
        forall|k: int| 0 <= k && k + p.len() <= s.len() ==> #[trigger] s.subrange(
            k,
            k + p.len(),
        ) != p,
    ensures
        index_of_sub(s, p) == -1,
    decreases s.len(),
{
    if s.len() >= p.len() {
        let rest = s.drop_first();
        assert forall|k: int| 0 <= k && k + p.len() <= rest.len() implies #[trigger] rest.subrange(
            k,
            k + p.len(),
        ) != p by {
            assert(rest.subrange(k, k + p.len()) =~= s.subrange(k + 1, k + 1 + p.len()));
        }
        lemma_index_of_sub_none(rest, p);
        assert(s.subrange(0, 0 + p.len() as int) != p);
        assert(s.subrange(0, p.len() as int) =~= s.subrange(0, 0 + p.len() as int));
    }
}

/// The pieces between non-overlapping occurrences of the pattern, scanned
/// left to right, as str::split with a string pattern yields them.
pub open spec fn split_str_spec(s: Seq<char>, p: Seq<char>) -> Seq<Seq<char>>
    decreases s.len(),
{
    let i = index_of_sub(s, p);
    if p.len() == 0 || i < 0 || i + p.len() > s.len() {
        seq![s]
    } else {
        seq![s.take(i)] + split_str_spec(s.skip(i + p.len()), p)
    }
}

/// Split at every occurrence of a non-empty pattern.
pub fn split_str(s: &str, p: &str) -> (r: Vec<String>)
    requires
        p@.len() > 0,
    ensures
        r.deep_view() == split_str_spec(s@, p@),
{
    let n = s.unicode_len();
    let m = p.unicode_len();
    let mut out: Vec<String> = Vec::new();
    let mut start: usize = 0;
    let mut i: usize = 0;
    proof {
        assert(s@.skip(0) =~= s@);
        assert(out.deep_view() + split_str_spec(s@, p@) =~= split_str_spec(s@, p@));
    }
    while i < n && m <= n - i
        invariant
            0 <= start <= i <= n,
            n == s@.len(),
            m == p@.len(),
            m >= 1,
            split_str_spec(s@, p@) == out.deep_view() + split_str_spec(s@.skip(start as int), p@),
            forall|k: int| start <= k && k + m <= n && k < i ==> #[trigger] s@.subrange(
                k,
                k + p@.len(),
            ) != p@,
        decreases n - i,
    {
        let mut j: usize = 0;
        let mut matches = true;
        while j < m
            invariant
                0 <= j <= m,
                0 <= i,
                i + m <= n,
                n == s@.len(),
                m == p@.len(),
                matches ==> forall|k: int| 0 <= k < j ==> s@[i + k] == p@[k],
                !matches ==> s@.subrange(i as int, i + p@.len()) != p@,
            decreases m - j,
        {
            if s.get_char(i + j) != p.get_char(j) {
                proof {
                    assert(s@.subrange(i as int, i + p@.len())[j as int] != p@[j as int]);
                }
                matches = false;
                j = m;
            } else {
                j = j + 1;
            }
        }
        if matches {
            let ghost rem = s@.skip(start as int);
            let ghost prev = out.deep_view();
            let piece = s.substring_char(start, i);
            out.push(String::from_str(piece));
            proof {
                assert(s@.subrange(i as int, i + p@.len()) =~= p@);
                assert forall|k: int| 0 <= k < i - start implies #[trigger] rem.subrange(
                    k,
                    k + p@.len(),
                ) != p@ by {
                    assert(rem.subrange(k, k + p@.len()) =~= s@.subrange(
                        start + k,
                        start + k + p@.len(),
                    ));
                }
                assert(rem.subrange(i - start, i - start + p@.len()) =~= s@.subrange(
                    i as int,
                    i + p@.len(),
                ));
                lemma_index_of_sub_at(rem, p@, i - start);
                assert(rem.take(i - start) =~= piece@);
                assert(rem.skip(i - start + m) =~= s@.skip(i + m));
                assert(out.deep_view() =~= prev + seq![piece@]);
                assert(out.deep_view() + split_str_spec(s@.skip(i + m), p@) =~= prev + (seq![
                    piece@,
                ] + split_str_spec(s@.skip(i + m), p@)));
            }
            start = i + m;
            i = i + m;
        } else {
            i = i + 1;
        }
    }
    let ghost rem = s@.skip(start as int);
    let ghost prev = out.deep_view();
    let piece = s.substring_char(start, n);
    out.push(String::from_str(piece));
    proof {
        assert forall|k: int| 0 <= k && k + p@.len() <= rem.len() implies #[trigger] rem.subrange(
            k,
            k + p@.len(),
        ) != p@ by {
            assert(rem.subrange(k, k + p@.len()) =~= s@.subrange(start + k, start + k + p@.len()));
        }
        lemma_index_of_sub_none(rem, p@);
        assert(rem =~= piece@);
        assert(out.deep_view() =~= prev + seq![piece@]);
        assert(prev + seq![rem] =~= out.deep_view());
    }
    out
}

/// Join strings with a separator.
pub fn join_strings(parts: &Vec<String>, sep: &str) -> (r: String)
    ensures
        r@ == join_sep(parts.deep_view(), sep@),
{
    let ghost views = parts.deep_view();
    let mut acc = String::new();
    let mut i: usize = 0;
    while i < parts.len()
        invariant
            0 <= i <= parts@.len(),
            views == parts.deep_view(),
            views.len() == parts@.len(),
            acc@ == join_sep(views.take(i as int), sep@),
        decreases parts@.len() - i,
    {
        if i > 0 {
            acc.append(sep);
        }
        acc.append(parts[i].as_str());
        proof {
            assert(views[i as int] == parts@[i as int]@);
            assert(views.take(i + 1).drop_last() =~= views.take(i as int));
            assert(views.take(i + 1).last() == views[i as int]);
            assert(acc@ =~= join_sep(views.take(i + 1), sep@));
        }
        i = i + 1;
    }
    proof {
        assert(views.take(views.len() as int) =~= views);
    }
    acc
}

} // verus!
