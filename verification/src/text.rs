//! Working with text one character at a time: splitting, trimming and
//! cutting into words.

use vstd::prelude::*;

verus! {

/// The characters that count as white space.
pub open spec fn is_whitespace(c: char) -> bool {
    let u = c as u32;
    ||| 0x09 <= u <= 0x0D
    ||| u == 0x20
    ||| u == 0x85
    ||| u == 0xA0
    ||| u == 0x1680
    ||| 0x2000 <= u <= 0x200A
    ||| u == 0x2028
    ||| u == 0x2029
    ||| u == 0x202F
    ||| u == 0x205F
    ||| u == 0x3000
}

/// `s` without the white space at its start.
pub open spec fn trim_start(s: Seq<char>) -> Seq<char>
    decreases s.len(),
{
    if s.len() > 0 && is_whitespace(s[0]) {
        trim_start(s.drop_first())
    } else {
        s
    }
}

/// `s` without the white space at its end.
pub open spec fn trim_end(s: Seq<char>) -> Seq<char>
    decreases s.len(),
{
    if s.len() > 0 && is_whitespace(s.last()) {
        trim_end(s.drop_last())
    } else {
        s
    }
}

/// `s` without the white space at either end.
pub open spec fn trim(s: Seq<char>) -> Seq<char> {
    trim_end(trim_start(s))
}

/// The pieces of `s` between the characters of `seps`. There is always one
/// piece more than there are separators in `s`; a piece may be empty.
pub open spec fn split(s: Seq<char>, seps: Seq<char>) -> Seq<Seq<char>>
    decreases s.len(),
{
    if s.len() == 0 {
        seq![Seq::empty()]
    } else {
        let before = split(s.drop_last(), seps);
        if seps.contains(s.last()) {
            before.push(Seq::empty())
        } else {
            before.drop_last().push(before.last().push(s.last()))
        }
    }
}

/// The words of `s`: its longest runs of characters that are not white space.
pub open spec fn words(s: Seq<char>) -> Seq<Seq<char>>
    decreases s.len(),
{
    if s.len() == 0 {
        Seq::empty()
    } else {
        let before = words(s.drop_last());
        if is_whitespace(s.last()) {
            before
        } else if s.len() >= 2 && !is_whitespace(s[s.len() - 2]) {
            before.drop_last().push(before.last().push(s.last()))
        } else {
            before.push(seq![s.last()])
        }
    }
}

/// The views of a list of strings.
pub open spec fn views(list: Seq<String>) -> Seq<Seq<char>> {
    list.map_values(|s: String| s@)
}

/// `String::push`: the string afterwards is the string before with `c` at
/// its end.
#[verifier::external_body]
fn push_char(s: &mut String, c: char)
    ensures
        final(s)@ == old(s)@.push(c),
{
    s.push(c)
}

/// Whether `c` is white space.
pub fn whitespace(c: char) -> (b: bool)
    ensures
        b == is_whitespace(c),
{
    let u: u32 = c as u32;
    (0x09 <= u && u <= 0x0D) || u == 0x20 || u == 0x85 || u == 0xA0 || u == 0x1680 || (0x2000 <= u
        && u <= 0x200A) || u == 0x2028 || u == 0x2029 || u == 0x202F || u == 0x205F || u == 0x3000
}

/// The characters of `s`, in order.
pub fn chars_of(s: &str) -> (v: Vec<char>)
    ensures
        v@ == s@,
{
    let n = s.unicode_len();
    let mut v: Vec<char> = Vec::new();
    let mut i: usize = 0;
    while i < n
        invariant
            n == s@.len(),
            i <= n,
            v@ == s@.subrange(0, i as int),
        decreases n - i,
    {
        v.push(s.get_char(i));
        i += 1;
        assert(v@ =~= s@.subrange(0, i as int));
    }
    assert(s@.subrange(0, n as int) =~= s@);
    v
}

/// The characters of `v` from `from` up to `to`, as a string.
pub fn string_of(v: &Vec<char>, from: usize, to: usize) -> (s: String)
    requires
        from <= to <= v@.len(),
    ensures
        s@ == v@.subrange(from as int, to as int),
{
    let mut s = String::new();
    let mut i: usize = from;
    while i < to
        invariant
            from <= i <= to <= v@.len(),
            s@ == v@.subrange(from as int, i as int),
        decreases to - i,
    {
        push_char(&mut s, v[i]);
        i += 1;
        assert(s@ =~= v@.subrange(from as int, i as int));
    }
    s
}

/// Whether `c` is one of `set`.
pub fn contains_char(set: &Vec<char>, c: char) -> (b: bool)
    ensures
        b == set@.contains(c),
{
    let mut i: usize = 0;
    while i < set.len()
        invariant
            i <= set@.len(),
            forall|j: int| 0 <= j < i ==> set@[j] != c,
        decreases set@.len() - i,
    {
        if set[i] == c {
            return true;
        }
        i += 1;
    }
    false
}

/// Trimming the start of `s` leaves what trimming the start of `s` without
/// its first `k` characters leaves, when those are all white space.
proof fn trim_start_skips(s: Seq<char>, k: int)
    requires
        0 <= k <= s.len(),
        forall|j: int| 0 <= j < k ==> is_whitespace(s[j]),
    ensures
        trim_start(s) == trim_start(s.subrange(k, s.len() as int)),
    decreases k,
{
    if k == 0 {
        assert(s.subrange(0, s.len() as int) =~= s);
    } else {
        trim_start_skips(s.drop_first(), k - 1);
        assert(s.drop_first().subrange(k - 1, s.len() - 1) =~= s.subrange(k, s.len() as int));
    }
}

/// Trimming the end of `s` leaves what trimming the end of its first `k`
/// characters leaves, when all that follow are white space.
proof fn trim_end_skips(s: Seq<char>, k: int)
    requires
        0 <= k <= s.len(),
        forall|j: int| k <= j < s.len() ==> is_whitespace(s[j]),
    ensures
        trim_end(s) == trim_end(s.subrange(0, k)),
    decreases s.len() - k,
{
    if k == s.len() {
        assert(s.subrange(0, k) =~= s);
    } else {
        trim_end_skips(s.drop_last(), k);
        assert(s.drop_last().subrange(0, k) =~= s.subrange(0, k));
    }
}

/// `s` without the white space at either end.
pub fn trim_text(s: &str) -> (t: String)
    ensures
        t@ == trim(s@),
{
    let v = chars_of(s);
    let n = v.len();
    let mut a: usize = 0;
    while a < n && whitespace(v[a])
        invariant
            n == v@.len(),
            a <= n,
            forall|j: int| 0 <= j < a ==> is_whitespace(v@[j]),
        decreases n - a,
    {
        a += 1;
    }
    let mut b: usize = n;
    while b > a && whitespace(v[b - 1])
        invariant
            n == v@.len(),
            a <= b <= n,
            forall|j: int| b <= j < n ==> is_whitespace(v@[j]),
        decreases b,
    {
        b -= 1;
    }
    proof {
        let rest = v@.subrange(a as int, n as int);
        trim_start_skips(v@, a as int);
        assert(trim_start(v@) == rest);
        trim_end_skips(rest, b - a);
        assert(rest.subrange(0, b - a) =~= v@.subrange(a as int, b as int));
        let kept = v@.subrange(a as int, b as int);
        assert(trim_end(kept) == kept);
    }
    string_of(&v, a, b)
}

/// The pieces of `s` between the characters of `seps`.
pub fn split_text(s: &str, seps: &Vec<char>) -> (pieces: Vec<String>)
    ensures
        views(pieces@) == split(s@, seps@),
{
    let v = chars_of(s);
    let n = v.len();
    let mut pieces: Vec<String> = Vec::new();
    let mut start: usize = 0;
    let mut i: usize = 0;
    assert(views(pieces@).push(v@.subrange(0, 0)) =~~= split(v@.subrange(0, 0), seps@));
    while i < n
        invariant
            n == v@.len(),
            start <= i <= n,
            views(pieces@).push(v@.subrange(start as int, i as int)) == split(
                v@.subrange(0, i as int),
                seps@,
            ),
        decreases n - i,
    {
        let ghost before = split(v@.subrange(0, i as int), seps@);
        let ghost prefix = v@.subrange(0, i + 1);
        assert(prefix.drop_last() =~= v@.subrange(0, i as int));
        if contains_char(seps, v[i]) {
            let piece = string_of(&v, start, i);
            let ghost done = pieces@;
            pieces.push(piece);
            assert(views(pieces@) =~= views(done).push(piece@));
            start = i + 1;
            assert(v@.subrange(start as int, start as int) =~= Seq::<char>::empty());
        } else {
            assert(before.drop_last() =~= views(pieces@));
            assert(before.last().push(v@[i as int]) =~= v@.subrange(start as int, i + 1));
        }
        i += 1;
    }
    assert(v@.subrange(0, n as int) =~= v@);
    let piece = string_of(&v, start, n);
    let ghost done = pieces@;
    pieces.push(piece);
    assert(views(pieces@) =~= views(done).push(piece@));
    pieces
}

/// The words of `s`.
pub fn split_words(s: &str) -> (found: Vec<String>)
    ensures
        views(found@) == words(s@),
{
    let v = chars_of(s);
    let n = v.len();
    let mut found: Vec<String> = Vec::new();
    let mut start: usize = 0;
    let mut i: usize = 0;
    assert(views(found@) =~= words(v@.subrange(0, 0)));
    while i < n
        invariant
            n == v@.len(),
            start <= i <= n,
            i > 0 && !is_whitespace(v@[i - 1]) ==> start < i && views(found@).push(
                v@.subrange(start as int, i as int),
            ) == words(v@.subrange(0, i as int)),
            !(i > 0 && !is_whitespace(v@[i - 1])) ==> views(found@) == words(
                v@.subrange(0, i as int),
            ),
        decreases n - i,
    {
        let ghost before = words(v@.subrange(0, i as int));
        let ghost prefix = v@.subrange(0, i + 1);
        assert(prefix.drop_last() =~= v@.subrange(0, i as int));
        let inside = i > 0 && !whitespace(v[i - 1]);
        if whitespace(v[i]) {
            if inside {
                let piece = string_of(&v, start, i);
                let ghost done = found@;
                found.push(piece);
                assert(views(found@) =~= views(done).push(piece@));
            }
        } else if inside {
            assert(before.drop_last() =~= views(found@));
            assert(before.last().push(v@[i as int]) =~= v@.subrange(start as int, i + 1));
        } else {
            start = i;
            assert(v@.subrange(start as int, i + 1) =~= seq![v@[i as int]]);
        }
        i += 1;
    }
    assert(v@.subrange(0, n as int) =~= v@);
    if n > 0 && !whitespace(v[n - 1]) {
        let piece = string_of(&v, start, n);
        let ghost done = found@;
        found.push(piece);
        assert(views(found@) =~= views(done).push(piece@));
    }
    found
}

/// Whether `a` and `b` hold the same characters.
pub fn same_text(a: &str, b: &str) -> (same: bool)
    ensures
        same == (a@ == b@),
{
    let x = chars_of(a);
    let y = chars_of(b);
    if x.len() != y.len() {
        return false;
    }
    let mut i: usize = 0;
    while i < x.len()
        invariant
            x@ == a@,
            y@ == b@,
            x@.len() == y@.len(),
            i <= x@.len(),
            forall|j: int| 0 <= j < i ==> x@[j] == y@[j],
        decreases x@.len() - i,
    {
        if x[i] != y[i] {
            return false;
        }
        i += 1;
    }
    assert(x@ =~= y@);
    true
}

/// The pieces in a row, with `sep` between each two.
pub open spec fn joined(pieces: Seq<Seq<char>>, sep: char) -> Seq<char>
    decreases pieces.len(),
{
    if pieces.len() == 0 {
        Seq::empty()
    } else if pieces.len() == 1 {
        pieces[0]
    } else {
        joined(pieces.drop_last(), sep).push(sep) + pieces.last()
    }
}

/// A text always has a piece, and no piece holds a separator.
pub proof fn pieces_hold_no_separator(s: Seq<char>, seps: Seq<char>)
    ensures
        split(s, seps).len() >= 1,
        forall|i: int, j: int|
            0 <= i < split(s, seps).len() && 0 <= j < split(s, seps)[i].len() ==> !seps.contains(
                #[trigger] split(s, seps)[i][j],
            ),
    decreases s.len(),
{
    if s.len() > 0 {
        pieces_hold_no_separator(s.drop_last(), seps);
        let before = split(s.drop_last(), seps);
        let pieces = split(s, seps);
        assert forall|i: int, j: int|
            0 <= i < pieces.len() && 0 <= j < pieces[i].len() implies !seps.contains(
            #[trigger] pieces[i][j],
        ) by {
            if !seps.contains(s.last()) && i < pieces.len() - 1 {
                assert(pieces[i] == before[i]);
            } else if !seps.contains(s.last()) && j < before.last().len() {
                assert(pieces[i][j] == before[before.len() - 1][j]);
            } else if seps.contains(s.last()) {
                assert(pieces[i] == before[i]);
            }
        }
    }
}

/// Splitting loses nothing: the pieces, joined by the separator, are the
/// text again.
pub proof fn pieces_join_back(s: Seq<char>, sep: char)
    ensures
        joined(split(s, seq![sep]), sep) == s,
    decreases s.len(),
{
    let seps = seq![sep];
    if s.len() > 0 {
        pieces_join_back(s.drop_last(), sep);
        pieces_hold_no_separator(s.drop_last(), seps);
        let before = split(s.drop_last(), seps);
        let pieces = split(s, seps);
        let c = s.last();
        assert(seps.contains(c) <==> c == sep) by {
            assert(seps[0] == sep);
        }
        if c == sep {
            assert(pieces.drop_last() =~= before);
            assert(joined(pieces, sep) =~= s.drop_last().push(sep));
        } else if before.len() == 1 {
            assert(pieces[0] == before[0].push(c));
            assert(joined(pieces, sep) =~= s.drop_last().push(c));
        } else {
            assert(pieces.drop_last() =~= before.drop_last());
            assert(joined(pieces, sep) =~= joined(before, sep).push(c));
        }
        assert(s.drop_last().push(c) =~= s);
    }
}

/// Trimming the start leaves the end of the text: what is cut is white
/// space, and what is left does not begin with any.
pub proof fn trim_start_cuts_white_space(s: Seq<char>) -> (a: int)
    ensures
        0 <= a <= s.len(),
        trim_start(s) == s.subrange(a, s.len() as int),
        forall|i: int| 0 <= i < a ==> is_whitespace(s[i]),
        a < s.len() ==> !is_whitespace(s[a]),
    decreases s.len(),
{
    if s.len() > 0 && is_whitespace(s[0]) {
        let rest = s.drop_first();
        let a = trim_start_cuts_white_space(rest);
        assert(rest.subrange(a, rest.len() as int) =~= s.subrange(a + 1, s.len() as int));
        assert forall|i: int| 0 <= i < a + 1 implies is_whitespace(s[i]) by {
            if i > 0 {
                assert(s[i] == rest[i - 1]);
            }
        }
        if a + 1 < s.len() {
            assert(s[a + 1] == rest[a]);
        }
        a + 1
    } else {
        assert(s.subrange(0, s.len() as int) =~= s);
        0
    }
}

/// Trimming the end leaves the start of the text: what is cut is white
/// space, and what is left does not end with any.
pub proof fn trim_end_cuts_white_space(s: Seq<char>) -> (b: int)
    ensures
        0 <= b <= s.len(),
        trim_end(s) == s.subrange(0, b),
        forall|i: int| b <= i < s.len() ==> is_whitespace(s[i]),
        0 < b ==> !is_whitespace(s[b - 1]),
    decreases s.len(),
{
    if s.len() > 0 && is_whitespace(s.last()) {
        let rest = s.drop_last();
        let b = trim_end_cuts_white_space(rest);
        assert(rest.subrange(0, b) =~= s.subrange(0, b));
        assert forall|i: int| b <= i < s.len() implies is_whitespace(s[i]) by {
            if i < s.len() - 1 {
                assert(s[i] == rest[i]);
            }
        }
        if 0 < b {
            assert(s[b - 1] == rest[b - 1]);
        }
        b
    } else {
        assert(s.subrange(0, s.len() as int) =~= s);
        s.len() as int
    }
}

/// Trimming keeps the middle of a text: it cuts nothing but white space, at
/// the two ends, and what it leaves neither begins nor ends with white
/// space.
pub proof fn trim_keeps_the_middle(s: Seq<char>) -> (ends: (int, int))
    ensures
        0 <= ends.0 <= ends.1 <= s.len(),
        trim(s) == s.subrange(ends.0, ends.1),
        forall|i: int| 0 <= i < ends.0 || ends.1 <= i < s.len() ==> is_whitespace(s[i]),
        ends.0 < ends.1 ==> !is_whitespace(s[ends.0]) && !is_whitespace(s[ends.1 - 1]),
{
    let a = trim_start_cuts_white_space(s);
    let rest = s.subrange(a, s.len() as int);
    let b = trim_end_cuts_white_space(rest);
    assert(rest.subrange(0, b) =~= s.subrange(a, a + b));
    assert forall|i: int| a + b <= i < s.len() implies is_whitespace(s[i]) by {
        assert(s[i] == rest[i - a]);
    }
    if 0 < b {
        assert(rest[b - 1] == s[a + b - 1]);
        assert(rest[0] == s[a]);
    }
    (a, a + b)
}

/// No word is empty, and no word holds white space.
pub proof fn words_hold_no_white_space(s: Seq<char>)
    ensures
        forall|i: int| 0 <= i < words(s).len() ==> (#[trigger] words(s)[i]).len() > 0,
        forall|i: int, j: int|
            0 <= i < words(s).len() && 0 <= j < words(s)[i].len() ==> !is_whitespace(
                #[trigger] words(s)[i][j],
            ),
        s.len() > 0 && !is_whitespace(s.last()) ==> words(s).len() > 0,
    decreases s.len(),
{
    if s.len() > 0 {
        words_hold_no_white_space(s.drop_last());
        let before = words(s.drop_last());
        let found = words(s);
        let c = s.last();
        if !is_whitespace(c) {
            if s.len() >= 2 && !is_whitespace(s[s.len() - 2]) {
                assert(s.drop_last().last() == s[s.len() - 2]);
                assert forall|i: int, j: int|
                    0 <= i < found.len() && 0 <= j < found[i].len() implies !is_whitespace(
                    #[trigger] found[i][j],
                ) by {
                    if i < found.len() - 1 {
                        assert(found[i] == before[i]);
                    } else if j < before.last().len() {
                        assert(found[i][j] == before[before.len() - 1][j]);
                    }
                }
                assert forall|i: int| 0 <= i < found.len() implies (#[trigger] found[i]).len()
                    > 0 by {
                    if i < found.len() - 1 {
                        assert(found[i] == before[i]);
                    }
                }
            } else {
                assert forall|i: int, j: int|
                    0 <= i < found.len() && 0 <= j < found[i].len() implies !is_whitespace(
                    #[trigger] found[i][j],
                ) by {
                    if i < found.len() - 1 {
                        assert(found[i] == before[i]);
                    }
                }
                assert forall|i: int| 0 <= i < found.len() implies (#[trigger] found[i]).len()
                    > 0 by {
                    if i < found.len() - 1 {
                        assert(found[i] == before[i]);
                    }
                }
            }
        }
    }
}

} // verus!
