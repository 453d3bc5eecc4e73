use vstd::prelude::*;

verus! {

/// The place of the first `c` in `s`, or the length of `s` where it holds none.
pub open spec fn spec_first_index(s: Seq<char>, c: char) -> int
    decreases s.len(),
{
    if s.len() == 0 || s[0] == c {
        0
    } else {
        1 + spec_first_index(s.drop_first(), c)
    }
}

/// The pieces of `s` between the places where `c` stands, in order. A text without `c` is
/// one piece.
pub open spec fn spec_split(s: Seq<char>, c: char) -> Seq<Seq<char>>
    decreases s.len(),
{
    let d = spec_first_index(s, c);
    if 0 <= d < s.len() {
        seq![s.subrange(0, d)] + spec_split(s.subrange(d + 1, s.len() as int), c)
    } else {
        seq![s]
    }
}

/// The namespaces of a dotted name: every piece but the last.
pub open spec fn spec_namespaces(name: Seq<char>) -> Seq<Seq<char>> {
    spec_split(name, '.').drop_last()
}

/// The last piece of a dotted name.
pub open spec fn spec_base_name(name: Seq<char>) -> Seq<char> {
    spec_split(name, '.').last()
}

proof fn lemma_first_index(s: Seq<char>, c: char, k: int)
    requires
        0 <= k <= s.len(),
        forall|j: int| 0 <= j < k ==> s[j] != c,
        k < s.len() ==> s[k] == c,
    ensures
        spec_first_index(s, c) == k,
    decreases s.len(),
{
    if k > 0 {
        let rest = s.drop_first();
        assert forall|j: int| 0 <= j < k - 1 implies rest[j] != c by {
            assert(rest[j] == s[j + 1]);
        }
        lemma_first_index(rest, c, k - 1);
    }
}

/// The first place of `c` lies within the text or at its end, nothing before it is `c`, and
/// where it lies within the text it holds `c`.
pub proof fn lemma_first_index_bounds(s: Seq<char>, c: char)
    ensures
        0 <= spec_first_index(s, c) <= s.len(),
        forall|j: int| 0 <= j < spec_first_index(s, c) ==> s[j] != c,
        spec_first_index(s, c) < s.len() ==> s[spec_first_index(s, c)] == c,
    decreases s.len(),
{
    if s.len() == 0 || s[0] == c {
    } else {
        let rest = s.drop_first();
        lemma_first_index_bounds(rest, c);
        assert forall|j: int| 0 <= j < spec_first_index(s, c) implies s[j] != c by {
            if j > 0 {
                assert(s[j] == rest[j - 1]);
            }
        }
    }
}

/// A text splits into at least one piece.
pub proof fn lemma_split_nonempty(s: Seq<char>, c: char)
    ensures
        spec_split(s, c).len() >= 1,
    decreases s.len(),
{
    lemma_first_index_bounds(s, c);
    let d = spec_first_index(s, c);
    if d < s.len() {
        lemma_split_nonempty(s.subrange(d + 1, s.len() as int), c);
    }
}

/// The last piece is what follows the last `c`; a text without `c` is its own last piece.
pub proof fn lemma_last_piece_follows_last(s: Seq<char>, c: char, k: int)
    requires
        0 <= k <= s.len(),
        forall|j: int| k <= j < s.len() ==> s[j] != c,
        k > 0 ==> s[k - 1] == c,
    ensures
        spec_split(s, c).last() == s.subrange(k, s.len() as int),
    decreases s.len(),
{
    lemma_first_index_bounds(s, c);
    let d = spec_first_index(s, c);
    if d < s.len() {
        let rest = s.subrange(d + 1, s.len() as int);
        assert(d < k);
        assert forall|j: int| k - d - 1 <= j < rest.len() implies rest[j] != c by {
            assert(rest[j] == s[j + d + 1]);
        }
        if k - d - 1 > 0 {
            assert(rest[k - d - 2] == s[k - 1]);
        }
        lemma_last_piece_follows_last(rest, c, k - d - 1);
        lemma_split_nonempty(rest, c);
        assert(rest.subrange(k - d - 1, rest.len() as int) =~= s.subrange(k, s.len() as int));
    } else {
        assert(k == 0);
        assert(s.subrange(0, s.len() as int) =~= s);
    }
}

/// What follows the last `c` in `text`: the whole text where it holds no `c`.
pub fn last_piece(text: &str, c: char) -> (piece: &str)
    ensures
        piece@ == spec_split(text@, c).last(),
{
    let len = text.unicode_len();
    let mut k: usize = len;
    while k > 0 && text.get_char(k - 1) != c
        invariant
            k <= len,
            len == text@.len(),
            forall|j: int| k <= j < len ==> text@[j] != c,
        decreases k,
    {
        k -= 1;
    }
    proof {
        lemma_last_piece_follows_last(text@, c, k as int);
    }
    text.substring_char(k, len)
}

/// What stands before the first `c` in `text`: the whole text where it holds no `c`.
pub fn first_piece(text: &str, c: char) -> (piece: &str)
    ensures
        piece@ == spec_split(text@, c)[0],
{
    let len = text.unicode_len();
    let mut k: usize = 0;
    while k < len && text.get_char(k) != c
        invariant
            k <= len,
            len == text@.len(),
            forall|j: int| 0 <= j < k ==> text@[j] != c,
        decreases len - k,
    {
        k += 1;
    }
    proof {
        lemma_first_index(text@, c, k as int);
        assert(text@.subrange(0, len as int) =~= text@);
    }
    text.substring_char(0, k)
}

/// The name without the namespaces that lead up to it.
pub fn base_name(name: &str) -> (base: &str)
    ensures
        base@ == spec_base_name(name@),
{
    last_piece(name, '.')
}

/// Splits a text into the pieces between the places where `c` stands.
pub fn split(name: &str, c: char) -> (pieces: Vec<String>)
    ensures
        pieces.deep_view() == spec_split(name@, c),
{
    let len = name.unicode_len();
    let mut pieces: Vec<String> = Vec::new();
    let mut start: usize = 0;
    let mut i: usize = 0;
    assert(name@.subrange(0, len as int) =~= name@);
    assert(pieces.deep_view() =~= Seq::<Seq<char>>::empty());
    while i < len
        invariant
            start <= i <= len,
            len == name@.len(),
            forall|j: int| start <= j < i ==> name@[j] != c,
            pieces.deep_view() + spec_split(name@.subrange(start as int, len as int), c)
                == spec_split(name@, c),
        decreases len - i,
    {
        if name.get_char(i) == c {
            let piece = name.substring_char(start, i).to_owned();
            proof {
                let tail = name@.subrange(start as int, len as int);
                assert forall|j: int| 0 <= j < i - start implies tail[j] != c by {
                    assert(tail[j] == name@[j + start]);
                }
                lemma_first_index(tail, c, i - start);
                assert(tail.subrange(0, i - start) =~= name@.subrange(start as int, i as int));
                assert(tail.subrange(i - start + 1, tail.len() as int) =~= name@.subrange(
                    i + 1,
                    len as int,
                ));
                assert(pieces.deep_view().push(piece@) + spec_split(
                    name@.subrange(i + 1, len as int),
                    c,
                ) =~= pieces.deep_view() + spec_split(tail, c));
            }
            let ghost before = pieces.deep_view();
            pieces.push(piece);
            assert(pieces.deep_view() =~= before.push(piece@));
            start = i + 1;
        }
        i += 1;
    }
    let piece = name.substring_char(start, len).to_owned();
    proof {
        let tail = name@.subrange(start as int, len as int);
        assert forall|j: int| 0 <= j < tail.len() implies tail[j] != c by {
            assert(tail[j] == name@[j + start]);
        }
        lemma_first_index(tail, c, tail.len() as int);
        assert(pieces.deep_view().push(piece@) =~= pieces.deep_view() + spec_split(tail, c));
    }
    let ghost before = pieces.deep_view();
    pieces.push(piece);
    assert(pieces.deep_view() =~= before.push(piece@));
    pieces
}

/// The namespaces that lead up to a dotted name.
pub fn namespaces_of(name: &str) -> (namespaces: Vec<String>)
    ensures
        namespaces.deep_view() == spec_namespaces(name@),
{
    let mut pieces = split(name, '.');
    proof {
        lemma_split_nonempty(name@, '.');
    }
    let ghost before = pieces.deep_view();
    pieces.pop();
    assert(pieces.deep_view() =~= before.drop_last());
    pieces
}

} // verus!
