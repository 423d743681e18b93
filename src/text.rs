//! Character-level helpers: whitespace, trimming and searching, each stated
//! over the `Seq<char>` view of a string.
use vstd::prelude::*;

verus! {

/// Whether `c` carries the Unicode `White_Space` property, the set that
/// `char::is_whitespace` and `str::trim` go by.
pub open spec fn is_whitespace(c: char) -> bool {
    let u = c as u32;
    ||| 0x09 <= u <= 0x0d
    ||| u == 0x20
    ||| u == 0x85
    ||| u == 0xa0
    ||| u == 0x1680
    ||| 0x2000 <= u <= 0x200a
    ||| u == 0x2028
    ||| u == 0x2029
    ||| u == 0x202f
    ||| u == 0x205f
    ||| u == 0x3000
}

/// `s` with its leading whitespace removed.
pub open spec fn trim_start(s: Seq<char>) -> Seq<char>
    decreases s.len(),
{
    if s.len() > 0 && is_whitespace(s[0]) {
        trim_start(s.drop_first())
    } else {
        s
    }
}

/// `s` with its trailing whitespace removed.
pub open spec fn trim_end(s: Seq<char>) -> Seq<char>
    decreases s.len(),
{
    if s.len() > 0 && is_whitespace(s.last()) {
        trim_end(s.drop_last())
    } else {
        s
    }
}

/// `s` with leading and trailing whitespace removed.
pub open spec fn trim(s: Seq<char>) -> Seq<char> {
    trim_end(trim_start(s))
}

/// `p` is the position of the first `c` in `s`.
pub open spec fn is_first_at(s: Seq<char>, c: char, p: int) -> bool {
    &&& 0 <= p < s.len()
    &&& s[p] == c
    &&& forall|j: int| 0 <= j < p ==> s[j] != c
}

/// The position of the first `c` in `s`, or `None` where `s` holds no `c`.
pub open spec fn first_index(s: Seq<char>, c: char) -> Option<int> {
    if exists|p: int| is_first_at(s, c, p) {
        Some(choose|p: int| is_first_at(s, c, p))
    } else {
        None
    }
}

/// A string holds at most one first position of a character.
pub proof fn lemma_first_index_is(s: Seq<char>, c: char, p: int)
    requires
        is_first_at(s, c, p),
    ensures
        first_index(s, c) == Some(p),
{
    let q = choose|q: int| is_first_at(s, c, q);
    assert(is_first_at(s, c, q));
    if q < p {
        assert(s[q] != c);
    } else if p < q {
        assert(s[p] != c);
    }
}

/// Where `s` holds no `c`, it has no first position of `c`.
pub proof fn lemma_first_index_none(s: Seq<char>, c: char)
    requires
        forall|j: int| 0 <= j < s.len() ==> s[j] != c,
    ensures
        first_index(s, c) is None,
{
    if exists|p: int| is_first_at(s, c, p) {
        let p = choose|p: int| is_first_at(s, c, p);
        assert(s[p] == c);
    }
}

/// Whether `c` is whitespace, as `is_whitespace` states it.
pub fn is_whitespace_char(c: char) -> (r: bool)
    ensures
        r == is_whitespace(c),
{
    let u = c as u32;
    (0x09 <= u && u <= 0x0d) || u == 0x20 || u == 0x85 || u == 0xa0 || u == 0x1680 || (0x2000
        <= u && u <= 0x200a) || u == 0x2028 || u == 0x2029 || u == 0x202f || u == 0x205f || u
        == 0x3000
}

/// The characters of `s`, in order.
pub fn chars_of(s: &str) -> (r: Vec<char>)
    ensures
        r@ == s@,
{
    let mut r: Vec<char> = Vec::new();
    for c in it: s.chars()
        invariant
            it.seq() == s@,
            r@ == it.seq().subrange(0, it.index() as int),
    {
        r.push(c);
    }
    r
}

/// The position of the first `c` among the first `end` characters of `s`.
pub fn find_char(s: &Vec<char>, end: usize, c: char) -> (r: Option<usize>)
    requires
        end <= s@.len(),
    ensures
        match r {
            Some(i) => first_index(s@.subrange(0, end as int), c) == Some(i as int),
            None => first_index(s@.subrange(0, end as int), c) is None,
        },
{
    let ghost prefix = s@.subrange(0, end as int);
    let mut i: usize = 0;
    while i < end
        invariant
            i <= end <= s@.len(),
            prefix == s@.subrange(0, end as int),
            forall|j: int| 0 <= j < i ==> s@[j] != c,
        decreases end - i,
    {
        if s[i] == c {
            proof {
                assert(is_first_at(prefix, c, i as int));
                lemma_first_index_is(prefix, c, i as int);
            }
            return Some(i);
        }
        i = i + 1;
    }
    proof {
        lemma_first_index_none(prefix, c);
    }
    None
}

/// The bounds of `s[from..to]` once surrounding whitespace is removed.
pub fn trim_bounds(s: &Vec<char>, from: usize, to: usize) -> (r: (usize, usize))
    requires
        from <= to <= s@.len(),
    ensures
        from <= r.0 <= r.1 <= to,
        s@.subrange(r.0 as int, r.1 as int) == trim(s@.subrange(from as int, to as int)),
{
    let mut a: usize = from;
    while a < to && is_whitespace_char(s[a])
        invariant
            from <= a <= to <= s@.len(),
            trim_start(s@.subrange(a as int, to as int)) == trim_start(
                s@.subrange(from as int, to as int),
            ),
        decreases to - a,
    {
        assert(s@.subrange(a as int, to as int).drop_first() =~= s@.subrange(
            a as int + 1,
            to as int,
        ));
        a = a + 1;
    }
    let mut b: usize = to;
    while b > a && is_whitespace_char(s[b - 1])
        invariant
            from <= a <= b <= to <= s@.len(),
            trim_end(s@.subrange(a as int, b as int)) == trim_end(
                s@.subrange(a as int, to as int),
            ),
        decreases b - a,
    {
        assert(s@.subrange(a as int, b as int).drop_last() =~= s@.subrange(
            a as int,
            b as int - 1,
        ));
        b = b - 1;
    }
    (a, b)
}

/// Whether `s[from..to]` is exactly `word`.
pub fn equals_word(s: &Vec<char>, from: usize, to: usize, word: &str) -> (r: bool)
    requires
        from <= to <= s@.len(),
    ensures
        r == (s@.subrange(from as int, to as int) == word@),
{
    let n = word.unicode_len();
    if to - from != n {
        return false;
    }
    let mut i: usize = 0;
    while i < n
        invariant
            i <= n == to - from,
            from <= to <= s@.len(),
            n == word@.len(),
            forall|j: int| 0 <= j < i ==> s@[from + j] == word@[j],
        decreases n - i,
    {
        if s[from + i] != word.get_char(i) {
            assert(s@.subrange(from as int, to as int)[i as int] != word@[i as int]);
            return false;
        }
        i = i + 1;
    }
    assert(s@.subrange(from as int, to as int) =~= word@);
    true
}

} // verus!
