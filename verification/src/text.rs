use vstd::prelude::*;

verus! {

/// The Unicode `White_Space` property, the set of characters that
/// `char::is_whitespace` (and so `str::trim`) treats as white space.
pub open spec fn is_white_space(c: char) -> bool {
    let v = c as u32;
    ||| 0x9 <= v <= 0xD
    ||| v == 0x20
    ||| v == 0x85
    ||| v == 0xA0
    ||| v == 0x1680
    ||| 0x2000 <= v <= 0x200A
    ||| v == 0x2028
    ||| v == 0x2029
    ||| v == 0x202F
    ||| v == 0x205F
    ||| v == 0x3000
}

/// Whether `c` is a white-space character.
pub fn is_whitespace(c: char) -> (r: bool)
    ensures
        r == is_white_space(c),
{
    let v = c as u32;
    (0x9 <= v && v <= 0xD) || v == 0x20 || v == 0x85 || v == 0xA0 || v == 0x1680
        || (0x2000 <= v && v <= 0x200A) || v == 0x2028 || v == 0x2029 || v == 0x202F
        || v == 0x205F || v == 0x3000
}

/// `s` without its leading white space.
pub open spec fn trim_start(s: Seq<char>) -> Seq<char>
    decreases s.len(),
{
    if s.len() > 0 && is_white_space(s[0]) {
        trim_start(s.drop_first())
    } else {
        s
    }
}

/// `s` without its trailing white space.
pub open spec fn trim_end(s: Seq<char>) -> Seq<char>
    decreases s.len(),
{
    if s.len() > 0 && is_white_space(s.last()) {
        trim_end(s.drop_last())
    } else {
        s
    }
}

/// `s` without leading and trailing white space, as `str::trim` gives it.
pub open spec fn trimmed(s: Seq<char>) -> Seq<char> {
    trim_end(trim_start(s))
}

/// After `trim_start`, the text is empty or starts with no white space.
pub proof fn lemma_trim_start_first(s: Seq<char>)
    ensures
        trim_start(s).len() == 0 || !is_white_space(trim_start(s)[0]),
    decreases s.len(),
{
    if s.len() > 0 && is_white_space(s[0]) {
        lemma_trim_start_first(s.drop_first());
    }
}

/// `trim_end` keeps a prefix, which is empty or ends with no white space.
pub proof fn lemma_trim_end_prefix(s: Seq<char>)
    ensures
        trim_end(s).len() <= s.len(),
        trim_end(s) == s.take(trim_end(s).len() as int),
        trim_end(s).len() == 0 || !is_white_space(trim_end(s).last()),
    decreases s.len(),
{
    if s.len() > 0 && is_white_space(s.last()) {
        lemma_trim_end_prefix(s.drop_last());
        assert(s.drop_last().take(trim_end(s).len() as int) =~= s.take(trim_end(s).len() as int));
    } else {
        assert(s.take(s.len() as int) =~= s);
    }
}

/// Trimming trimmed text changes nothing.
pub proof fn lemma_trimmed_idempotent(s: Seq<char>)
    ensures
        trimmed(trimmed(s)) == trimmed(s),
{
    let u = trim_start(s);
    let t = trim_end(u);
    lemma_trim_start_first(s);
    lemma_trim_end_prefix(u);
    if t.len() > 0 {
        assert(t[0] == u[0]);
    }
    assert(trim_start(t) == t);
    assert(trim_end(t) == t);
}

/// Trimmed text is empty or has no white space at either end.
pub proof fn lemma_trimmed_ends(s: Seq<char>)
    ensures
        trimmed(s).len() == 0 || (!is_white_space(trimmed(s)[0]) && !is_white_space(
            trimmed(s).last(),
        )),
{
    let u = trim_start(s);
    lemma_trim_start_first(s);
    lemma_trim_end_prefix(u);
    if trimmed(s).len() > 0 {
        assert(trimmed(s)[0] == u[0]);
    }
}

/// Removes leading and trailing white space.
pub fn trim<'a>(s: &'a str) -> (r: &'a str)
    ensures
        r@ == trimmed(s@),
        r@.len() == 0 || (!is_white_space(r@[0]) && !is_white_space(r@.last())),
{
    proof {
        lemma_trimmed_ends(s@);
    }
    let n = s.unicode_len();
    let mut start: usize = 0;
    assert(s@.subrange(0, n as int) =~= s@);
    while start < n && is_whitespace(s.get_char(start))
        invariant
            n == s@.len(),
            start <= n,
            trim_start(s@) == trim_start(s@.subrange(start as int, n as int)),
        decreases n - start,
    {
        assert(s@.subrange(start as int, n as int).drop_first() =~= s@.subrange(start + 1, n as int));
        start = start + 1;
    }
    assert(trim_start(s@) == s@.subrange(start as int, n as int));
    let mut end: usize = n;
    while end > start && is_whitespace(s.get_char(end - 1))
        invariant
            n == s@.len(),
            start <= end <= n,
            trimmed(s@) == trim_end(s@.subrange(start as int, end as int)),
        decreases end - start,
    {
        assert(s@.subrange(start as int, end as int).drop_last() =~= s@.subrange(start as int, end - 1));
        end = end - 1;
    }
    s.substring_char(start, end)
}


/// The pieces of `s` between the separators in `seps`, as `str::split` gives
/// them: `k` separators give `k + 1` pieces, empty ones included.
pub open spec fn split_seq(s: Seq<char>, seps: Seq<char>) -> Seq<Seq<char>>
    decreases s.len(),
{
    if s.len() == 0 {
        seq![Seq::empty()]
    } else {
        let init = split_seq(s.drop_last(), seps);
        if seps.contains(s.last()) {
            init.push(Seq::empty())
        } else {
            init.update(init.len() - 1, init.last().push(s.last()))
        }
    }
}

/// Splitting always gives at least one piece.
pub proof fn lemma_split_nonempty(s: Seq<char>, seps: Seq<char>)
    ensures
        split_seq(s, seps).len() >= 1,
    decreases s.len(),
{
    if s.len() > 0 {
        lemma_split_nonempty(s.drop_last(), seps);
    }
}

/// The views of a sequence of strings.
pub open spec fn views(v: Seq<String>) -> Seq<Seq<char>> {
    v.map_values(|x: String| x@)
}

/// Whether `c` is one of `seps`.
pub fn contains_char(seps: &[char], c: char) -> (r: bool)
    ensures
        r == seps@.contains(c),
{
    let mut i: usize = 0;
    while i < seps.len()
        invariant
            i <= seps@.len(),
            forall|j: int| 0 <= j < i ==> seps@[j] != c,
        decreases seps.len() - i,
    {
        if seps[i] == c {
            return true;
        }
        i = i + 1;
    }
    false
}

/// Splits `s` at every character of `seps`.
pub fn split(s: &str, seps: &[char]) -> (r: Vec<String>)
    ensures
        views(r@) == split_seq(s@, seps@),
{
    let n = s.unicode_len();
    let mut pieces: Vec<String> = Vec::new();
    let mut piece_start: usize = 0;
    let mut i: usize = 0;
    assert(s@.take(0) =~= Seq::<char>::empty());
    while i < n
        invariant
            n == s@.len(),
            piece_start <= i <= n,
            views(pieces@).push(s@.subrange(piece_start as int, i as int)) == split_seq(
                s@.take(i as int),
                seps@,
            ),
        decreases n - i,
    {
        let c = s.get_char(i);
        proof {
            lemma_split_nonempty(s@.take(i as int), seps@);
            assert(s@.take(i + 1).drop_last() =~= s@.take(i as int));
            assert(s@.take(i + 1).last() == c);
        }
        if contains_char(seps, c) {
            let ghost before = pieces@;
            let piece = s.substring_char(piece_start, i).to_owned();
            pieces.push(piece);
            assert(views(pieces@) =~= views(before).push(s@.subrange(piece_start as int, i as int)));
            piece_start = i + 1;
            assert(s@.subrange(piece_start as int, piece_start as int) =~= Seq::<char>::empty());
        } else {
            assert(s@.subrange(piece_start as int, i + 1) =~= s@.subrange(
                piece_start as int,
                i as int,
            ).push(c));
        }
        i = i + 1;
    }
    assert(s@.take(n as int) =~= s@);
    let last = s.substring_char(piece_start, n).to_owned();
    pieces.push(last);
    assert(views(pieces@) =~= split_seq(s@, seps@));
    pieces
}


/// Each piece trimmed.
pub open spec fn trim_each(v: Seq<Seq<char>>) -> Seq<Seq<char>> {
    v.map_values(|p: Seq<char>| trimmed(p))
}

/// The non-empty pieces, in order.
pub open spec fn drop_empty(v: Seq<Seq<char>>) -> Seq<Seq<char>>
    decreases v.len(),
{
    if v.len() == 0 {
        v
    } else if v.last().len() > 0 {
        drop_empty(v.drop_last()).push(v.last())
    } else {
        drop_empty(v.drop_last())
    }
}

/// Whether two texts are equal.
pub fn text_eq(a: &str, b: &str) -> (r: bool)
    ensures
        r == (a@ == b@),
{
    a.to_owned() == b.to_owned()
}

/// Trims every piece.
pub fn trim_all(v: &Vec<String>) -> (r: Vec<String>)
    ensures
        views(r@) == trim_each(views(v@)),
{
    let mut out: Vec<String> = Vec::new();
    let mut i: usize = 0;
    while i < v.len()
        invariant
            i <= v@.len(),
            views(out@) == trim_each(views(v@)).take(i as int),
        decreases v.len() - i,
    {
        let t = trim(v[i].as_str()).to_owned();
        out.push(t);
        assert(trim_each(views(v@)).take(i + 1) =~= trim_each(views(v@)).take(i as int).push(t@));
        i = i + 1;
    }
    assert(trim_each(views(v@)).take(v@.len() as int) =~= trim_each(views(v@)));
    out
}

/// Keeps the non-empty pieces, in order.
pub fn keep_non_empty(v: Vec<String>) -> (r: Vec<String>)
    ensures
        views(r@) == drop_empty(views(v@)),
{
    let mut out: Vec<String> = Vec::new();
    let mut i: usize = 0;
    assert(views(v@).take(0) =~= Seq::<Seq<char>>::empty());
    while i < v.len()
        invariant
            i <= v@.len(),
            views(out@) == drop_empty(views(v@).take(i as int)),
        decreases v.len() - i,
    {
        assert(views(v@).take(i + 1).drop_last() =~= views(v@).take(i as int));
        if v[i].as_str().unicode_len() > 0 {
            let ghost before = out@;
            out.push(v[i].clone());
            assert(views(out@) =~= views(before).push(v@[i as int]@));
        }
        i = i + 1;
    }
    assert(views(v@).take(v@.len() as int) =~= views(v@));
    out
}


/// Whether `s` ends with `suffix`.
pub open spec fn ends_with(s: Seq<char>, suffix: Seq<char>) -> bool {
    suffix.len() <= s.len() && s.subrange(s.len() - suffix.len(), s.len() as int) == suffix
}

/// Whether `s` ends with the characters of `suffix`.
pub fn text_ends_with(s: &str, suffix: &[char]) -> (r: bool)
    ensures
        r == ends_with(s@, suffix@),
{
    let n = s.unicode_len();
    let k = suffix.len();
    if k > n {
        return false;
    }
    let mut i: usize = 0;
    while i < k
        invariant
            n == s@.len(),
            k == suffix@.len(),
            k <= n,
            i <= k,
            forall|j: int| 0 <= j < i ==> s@[n - k + j] == suffix@[j],
        decreases k - i,
    {
        if s.get_char(n - k + i) != suffix[i] {
            assert(s@.subrange(n - k, n as int)[i as int] != suffix@[i as int]);
            return false;
        }
        i = i + 1;
    }
    assert(s@.subrange(n - k, n as int) =~= suffix@);
    true
}

/// Whether `s` holds the character `c`.
pub fn text_contains(s: &str, c: char) -> (r: bool)
    ensures
        r == s@.contains(c),
{
    let n = s.unicode_len();
    let mut i: usize = 0;
    while i < n
        invariant
            n == s@.len(),
            i <= n,
            forall|j: int| 0 <= j < i ==> s@[j] != c,
        decreases n - i,
    {
        if s.get_char(i) == c {
            return true;
        }
        i = i + 1;
    }
    false
}

} // verus!
