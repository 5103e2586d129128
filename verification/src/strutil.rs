//! Small verified helpers over strings.

use vstd::prelude::*;
use vstd::string::StrSliceExecFns;

verus! {

/// Whether two string slices hold the same characters.
pub fn str_eq(a: &str, b: &str) -> (r: bool)
    ensures
        r == (a@ == b@),
{
    let n = a.unicode_len();
    let m = b.unicode_len();
    if n != m {
        return false;
    }
    let mut i: usize = 0;
    while i < n
        invariant
            0 <= i <= n,
            n == a@.len(),
            n == b@.len(),
            forall|k: int| 0 <= k < i ==> a@[k] == b@[k],
        decreases n - i,
    {
        if a.get_char(i) != b.get_char(i) {
            return false;
        }
        i = i + 1;
    }
    proof {
        assert(a@ =~= b@);
    }
    true
}

/// Whether the character is whitespace.
pub uninterp spec fn space_of(c: char) -> bool;

/// Relies on char::is_whitespace: whether the character is whitespace, a
/// function of the character alone.
#[verifier::external_body]
pub fn char_is_space(c: char) -> (r: bool)
    ensures
        r == space_of(c),
{
    c.is_whitespace()
}

/// Whether the character is alphabetic.
pub uninterp spec fn alpha_of(c: char) -> bool;

/// Relies on char::is_alphabetic: whether the character is alphabetic, a
/// function of the character alone.
#[verifier::external_body]
pub fn char_is_alphabetic(c: char) -> (r: bool)
    ensures
        r == alpha_of(c),
{
    c.is_alphabetic()
}

/// Whether the character is numeric.
pub uninterp spec fn numeric_of(c: char) -> bool;

/// Relies on char::is_numeric: whether the character is numeric, a function
/// of the character alone.
#[verifier::external_body]
pub fn char_is_numeric(c: char) -> (r: bool)
    ensures
        r == numeric_of(c),
{
    c.is_numeric()
}

/// The first index at or after `from` holding the character `c`.
pub open spec fn find_char(s: Seq<char>, c: char, from: int) -> Option<int>
    decreases s.len() - from,
    when from >= 0
{
    if from >= s.len() {
        None
    } else if s[from] == c {
        Some(from)
    } else {
        find_char(s, c, from + 1)
    }
}

/// Characterization of `find_char`.
pub proof fn lemma_find_char_bounds(s: Seq<char>, c: char, from: int)
    requires
        from >= 0,
    ensures
        match find_char(s, c, from) {
            Some(j) => from <= j < s.len() && s[j] == c && (forall|k: int|
                from <= k < j ==> #[trigger] s[k] != c),
            None => forall|k: int| from <= k < s.len() ==> #[trigger] s[k] != c,
        },
    decreases s.len() - from,
{
    if from < s.len() && s[from] != c {
        lemma_find_char_bounds(s, c, from + 1);
    }
}

/// Find the first occurrence of `c` at or after `from`.
pub fn scan_char(s: &str, c: char, from: usize) -> (r: Option<usize>)
    requires
        from <= s@.len(),
    ensures
        match r {
            Some(j) => find_char(s@, c, from as int) == Some(j as int) && from <= j < s@.len(),
            None => find_char(s@, c, from as int) is None,
        },
{
    let n = s.unicode_len();
    let mut i: usize = from;
    while i < n
        invariant
            from <= i <= n,
            n == s@.len(),
            find_char(s@, c, from as int) == find_char(s@, c, i as int),
        decreases n - i,
    {
        if s.get_char(i) == c {
            return Some(i);
        }
        proof {
            assert(find_char(s@, c, i as int) == find_char(s@, c, i + 1));
        }
        i = i + 1;
    }
    None
}

/// The sequence with leading whitespace removed.
pub open spec fn trim_left(s: Seq<char>) -> Seq<char>
    decreases s.len(),
{
    if s.len() == 0 {
        s
    } else if space_of(s[0]) {
        trim_left(s.drop_first())
    } else {
        s
    }
}

/// The sequence with trailing whitespace removed.
pub open spec fn trim_right(s: Seq<char>) -> Seq<char>
    decreases s.len(),
{
    if s.len() == 0 {
        s
    } else if space_of(s.last()) {
        trim_right(s.drop_last())
    } else {
        s
    }
}

/// The sequence with whitespace removed from both ends.
pub open spec fn trimmed(s: Seq<char>) -> Seq<char> {
    trim_right(trim_left(s))
}

/// If the first `k` characters are whitespace and the one after is not,
/// trimming the left stops exactly there.
proof fn lemma_trim_left_at(s: Seq<char>, k: int)
    requires
        0 <= k <= s.len(),
        forall|i: int| 0 <= i < k ==> space_of(#[trigger] s[i]),
        k < s.len() ==> !space_of(s[k]),
    ensures
        trim_left(s) == s.subrange(k, s.len() as int),
    decreases k,
{
    if k == 0 {
        if s.len() == 0 {
            assert(s.subrange(0, s.len() as int) =~= s);
        } else {
            assert(trim_left(s) == s);
            assert(s.subrange(0, s.len() as int) =~= s);
        }
    } else {
        assert(space_of(s[0]));
        let t = s.drop_first();
        assert forall|i: int| 0 <= i < k - 1 implies space_of(#[trigger] t[i]) by {
            assert(t[i] == s[i + 1]);
        }
        lemma_trim_left_at(t, k - 1);
        assert(t.subrange(k - 1, t.len() as int) =~= s.subrange(k, s.len() as int));
    }
}

/// If the last characters down to `k` are whitespace and the one before is
/// not, trimming the right stops exactly there.
proof fn lemma_trim_right_at(s: Seq<char>, k: int)
    requires
        0 <= k <= s.len(),
        forall|i: int| k <= i < s.len() ==> space_of(#[trigger] s[i]),
        k > 0 ==> !space_of(s[k - 1]),
    ensures
        trim_right(s) == s.subrange(0, k),
    decreases s.len(),
{
    if k == s.len() {
        if s.len() == 0 {
            assert(s.subrange(0, k) =~= s);
        } else {
            assert(!space_of(s.last()));
            assert(s.subrange(0, k) =~= s);
        }
    } else {
        assert(space_of(s.last()));
        let t = s.drop_last();
        lemma_trim_right_at(t, k);
        assert(t.subrange(0, k) =~= s.subrange(0, k));
    }
}

/// A copy of the string with whitespace removed from both ends.
pub fn trim_str(s: &str) -> (r: String)
    ensures
        r@ == trimmed(s@),
{
    let n = s.unicode_len();
    let mut a: usize = 0;
    while a < n && char_is_space(s.get_char(a))
        invariant
            0 <= a <= n,
            n == s@.len(),
            forall|i: int| 0 <= i < a ==> space_of(#[trigger] s@[i]),
        decreases n - a,
    {
        a = a + 1;
    }
    proof {
        lemma_trim_left_at(s@, a as int);
    }
    let mut b: usize = n;
    while b > a && char_is_space(s.get_char(b - 1))
        invariant
            a <= b <= n,
            n == s@.len(),
            forall|i: int| b <= i < n ==> space_of(#[trigger] s@[i]),
        decreases b,
    {
        b = b - 1;
    }
    let ghost left = s@.subrange(a as int, n as int);
    proof {
        assert forall|i: int| (b - a) <= i < left.len() implies space_of(
            #[trigger] left[i],
        ) by {
            assert(left[i] == s@[i + a]);
        }
        if b > a {
            assert(left[b - a - 1] == s@[b - 1]);
        }
        lemma_trim_right_at(left, b - a);
        assert(left.subrange(0, b - a) =~= s@.subrange(a as int, b as int));
    }
    s.substring_char(a, b).to_owned()
}

/// The first space-separated token of a sequence.
pub open spec fn token_to(s: Seq<char>) -> Seq<char> {
    match find_char(s, ' ', 0) {
        Some(i) => s.subrange(0, i),
        None => s,
    }
}

/// The second space-separated token, if a space occurs at all.
pub open spec fn second_token(s: Seq<char>) -> Option<Seq<char>> {
    match find_char(s, ' ', 0) {
        None => None,
        Some(i) => match find_char(s, ' ', i + 1) {
            Some(j) => Some(s.subrange(i + 1, j)),
            None => Some(s.subrange(i + 1, s.len() as int)),
        },
    }
}

/// The first space-separated token of a string.
pub fn first_token_str(s: &str) -> (r: String)
    ensures
        r@ == token_to(s@),
{
    match scan_char(s, ' ', 0) {
        Some(i) => s.substring_char(0, i).to_owned(),
        None => s.to_owned(),
    }
}

/// The second space-separated token of a string, if a space occurs at all.
pub fn second_token_str(s: &str) -> (r: Option<String>)
    ensures
        match r {
            Some(t) => second_token(s@) == Some(t@),
            None => second_token(s@) is None,
        },
{
    let n = s.unicode_len();
    match scan_char(s, ' ', 0) {
        None => None,
        Some(i) => match scan_char(s, ' ', i + 1) {
            Some(j) => Some(s.substring_char(i + 1, j).to_owned()),
            None => Some(s.substring_char(i + 1, n).to_owned()),
        },
    }
}

/// Whether `pat` occurs in `s` starting at index `i`.
pub open spec fn sub_at(s: Seq<char>, pat: Seq<char>, i: int) -> bool {
    0 <= i && i + pat.len() <= s.len() && s.subrange(i, i + pat.len() as int) == pat
}

/// The first index at or after `from` where `pat` occurs.
pub open spec fn find_sub(s: Seq<char>, pat: Seq<char>, from: int) -> Option<int>
    decreases s.len() - from,
    when from >= 0
    via find_sub_decreases
{
    if from + pat.len() > s.len() {
        None
    } else if sub_at(s, pat, from) {
        Some(from)
    } else {
        find_sub(s, pat, from + 1)
    }
}

#[via_fn]
proof fn find_sub_decreases(s: Seq<char>, pat: Seq<char>, from: int) {
    if from >= 0 && from + pat.len() <= s.len() && pat.len() == 0 {
        assert(s.subrange(from, from + pat.len() as int) =~= pat);
    }
}

/// Find the first occurrence of `pat` at or after `from`.
pub fn scan_sub(s: &str, pat: &str, from: usize) -> (r: Option<usize>)
    requires
        from <= s@.len(),
    ensures
        match r {
            Some(j) => find_sub(s@, pat@, from as int) == Some(j as int) && from <= j
                && j + pat@.len() <= s@.len(),
            None => find_sub(s@, pat@, from as int) is None,
        },
{
    let n = s.unicode_len();
    let m = pat.unicode_len();
    if m == 0 {
        proof {
            assert(s@.subrange(from as int, from as int) =~= pat@);
            assert(sub_at(s@, pat@, from as int));
        }
        return Some(from);
    }
    if m > n || from > n - m {
        proof {
            assert(find_sub(s@, pat@, from as int) is None);
        }
        return None;
    }
    let mut i: usize = from;
    while i <= n - m
        invariant
            from <= i,
            1 <= m <= n,
            i <= n - m + 1,
            n == s@.len(),
            m == pat@.len(),
            find_sub(s@, pat@, from as int) == find_sub(s@, pat@, i as int),
        decreases n - i,
    {
        let piece = s.substring_char(i, i + m);
        if str_eq(piece, pat) {
            proof {
                assert(sub_at(s@, pat@, i as int));
            }
            return Some(i);
        }
        proof {
            assert(!sub_at(s@, pat@, i as int));
            assert(find_sub(s@, pat@, i as int) == find_sub(s@, pat@, i + 1));
        }
        i = i + 1;
    }
    proof {
        assert(find_sub(s@, pat@, i as int) is None);
    }
    None
}

/// The sequence with leading and trailing dashes removed.
pub open spec fn dash_trim_left(s: Seq<char>) -> Seq<char>
    decreases s.len(),
{
    if s.len() == 0 {
        s
    } else if s[0] == '-' {
        dash_trim_left(s.drop_first())
    } else {
        s
    }
}

/// The sequence with trailing dashes removed.
pub open spec fn dash_trim_right(s: Seq<char>) -> Seq<char>
    decreases s.len(),
{
    if s.len() == 0 {
        s
    } else if s.last() == '-' {
        dash_trim_right(s.drop_last())
    } else {
        s
    }
}

/// The sequence with dashes removed from both ends.
pub open spec fn dash_trimmed(s: Seq<char>) -> Seq<char> {
    dash_trim_right(dash_trim_left(s))
}

/// Like `lemma_trim_left_at`, for dashes.
proof fn lemma_dash_trim_left_at(s: Seq<char>, k: int)
    requires
        0 <= k <= s.len(),
        forall|i: int| 0 <= i < k ==> #[trigger] s[i] == '-',
        k < s.len() ==> s[k] != '-',
    ensures
        dash_trim_left(s) == s.subrange(k, s.len() as int),
    decreases k,
{
    if k == 0 {
        assert(s.subrange(0, s.len() as int) =~= s);
    } else {
        let t = s.drop_first();
        assert forall|i: int| 0 <= i < k - 1 implies #[trigger] t[i] == '-' by {
            assert(t[i] == s[i + 1]);
        }
        lemma_dash_trim_left_at(t, k - 1);
        assert(t.subrange(k - 1, t.len() as int) =~= s.subrange(k, s.len() as int));
    }
}

/// Like `lemma_trim_right_at`, for dashes.
proof fn lemma_dash_trim_right_at(s: Seq<char>, k: int)
    requires
        0 <= k <= s.len(),
        forall|i: int| k <= i < s.len() ==> #[trigger] s[i] == '-',
        k > 0 ==> s[k - 1] != '-',
    ensures
        dash_trim_right(s) == s.subrange(0, k),
    decreases s.len(),
{
    if k == s.len() {
        assert(s.subrange(0, k) =~= s);
    } else {
        let t = s.drop_last();
        lemma_dash_trim_right_at(t, k);
        assert(t.subrange(0, k) =~= s.subrange(0, k));
    }
}

/// A copy of the string with dashes removed from both ends.
pub fn dash_trim_str(s: &str) -> (r: String)
    ensures
        r@ == dash_trimmed(s@),
{
    let n = s.unicode_len();
    let mut a: usize = 0;
    while a < n && s.get_char(a) == '-'
        invariant
            0 <= a <= n,
            n == s@.len(),
            forall|i: int| 0 <= i < a ==> #[trigger] s@[i] == '-',
        decreases n - a,
    {
        a = a + 1;
    }
    proof {
        lemma_dash_trim_left_at(s@, a as int);
    }
    let mut b: usize = n;
    while b > a && s.get_char(b - 1) == '-'
        invariant
            a <= b <= n,
            n == s@.len(),
            forall|i: int| b <= i < n ==> #[trigger] s@[i] == '-',
        decreases b,
    {
        b = b - 1;
    }
    let ghost left = s@.subrange(a as int, n as int);
    proof {
        assert forall|i: int| (b - a) <= i < left.len() implies #[trigger] left[i] == '-' by {
            assert(left[i] == s@[i + a]);
        }
        if b > a {
            assert(left[b - a - 1] == s@[b - 1]);
        }
        lemma_dash_trim_right_at(left, b - a);
        assert(left.subrange(0, b - a) =~= s@.subrange(a as int, b as int));
    }
    s.substring_char(a, b).to_owned()
}

/// The pieces of `s` between occurrences of the separator `c`.
pub open spec fn split_char(s: Seq<char>, c: char) -> Seq<Seq<char>>
    decreases s.len(),
    via split_char_decreases
{
    match find_char(s, c, 0) {
        None => seq![s],
        Some(i) => seq![s.subrange(0, i)] + split_char(s.subrange(i + 1, s.len() as int), c),
    }
}

#[via_fn]
proof fn split_char_decreases(s: Seq<char>, c: char) {
    lemma_find_char_bounds(s, c, 0);
}

/// Split a string at every occurrence of the separator.
pub fn split_str(s: &str, c: char) -> (r: Vec<String>)
    ensures
        r.deep_view() == split_char(s@, c),
    decreases s@.len(),
{
    let n = s.unicode_len();
    match scan_char(s, c, 0) {
        None => {
            let mut out: Vec<String> = Vec::new();
            out.push(s.to_owned());
            proof {
                assert(out.deep_view() =~= split_char(s@, c));
            }
            out
        },
        Some(i) => {
            let first = s.substring_char(0, i).to_owned();
            let rest = s.substring_char(i + 1, n);
            let mut out = split_str(rest, c);
            out.insert(0, first);
            proof {
                assert(out.deep_view() =~= seq![s@.subrange(0, i as int)] + split_char(
                    s@.subrange(i + 1, s@.len() as int),
                    c,
                ));
            }
            out
        },
    }
}

} // verus!
