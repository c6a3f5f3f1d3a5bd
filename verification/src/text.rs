//! Character-level text helpers shared by the grammar, the codecs and the
//! registries: conversions between `String` and `Vec<char>`, searching,
//! case folding, and decimal formatting and parsing.
use vstd::prelude::*;

verus! {

/// Relies on core's `char::from_u32`: `Some` exactly on unicode scalar
/// values (not a surrogate, at most 0x10FFFF), returning the character
/// with that code.
#[verifier::external_body]
pub fn char_from_u32(u: u32) -> (r: Option<char>)
    ensures
        vstd::utf8::is_scalar(u) ==> r == Some(u as char),
        !vstd::utf8::is_scalar(u) ==> r is None,
{
    char::from_u32(u)
}

/// Relies on alloc's `String::push`: appends one character at the end.
#[verifier::external_body]
pub fn push_char(s: &mut String, c: char)
    ensures
        final(s)@ == old(s)@.push(c),
{
    s.push(c);
}

/// The characters of `s`, as an indexable vector.
pub fn str_chars(s: &str) -> (r: Vec<char>)
    ensures
        r@ == s@,
{
    let n: usize = s.unicode_len();
    let mut r: Vec<char> = Vec::new();
    let mut i: usize = 0;
    while i < n
        invariant
            i <= n,
            n == s@.len(),
            r@ == s@.subrange(0, i as int),
        decreases n - i,
    {
        let c = s.get_char(i);
        r.push(c);
        i = i + 1;
        proof {
            assert(r@ =~= s@.subrange(0, i as int));
        }
    }
    proof {
        assert(r@ =~= s@);
    }
    r
}

/// The characters of `v`, collected into a `String`.
pub fn chars_str(v: &Vec<char>) -> (r: String)
    ensures
        r@ == v@,
{
    let mut r = String::new();
    let mut i: usize = 0;
    while i < v.len()
        invariant
            i <= v@.len(),
            r@ == v@.subrange(0, i as int),
        decreases v@.len() - i,
    {
        push_char(&mut r, v[i]);
        i = i + 1;
        proof {
            assert(r@ =~= v@.subrange(0, i as int));
        }
    }
    proof {
        assert(r@ =~= v@);
    }
    r
}

/// Index of the first occurrence of `c` in `s` at or after `from`.
pub open spec fn find_from(s: Seq<char>, c: char, from: int) -> Option<int>
    decreases s.len() - from,
{
    if from < 0 || from >= s.len() {
        None
    } else if s[from] == c {
        Some(from)
    } else {
        find_from(s, c, from + 1)
    }
}

pub proof fn lemma_find_from(s: Seq<char>, c: char, from: int)
    requires
        0 <= from <= s.len(),
    ensures
        match find_from(s, c, from) {
            Some(i) => from <= i < s.len() && s[i] == c && forall|j: int|
                from <= j < i ==> s[j] != c,
            None => forall|j: int| from <= j < s.len() ==> s[j] != c,
        },
    decreases s.len() - from,
{
    if from < s.len() && s[from] != c {
        lemma_find_from(s, c, from + 1);
    }
}

/// Whether `c` occurs in `s`.
pub open spec fn contains_char(s: Seq<char>, c: char) -> bool {
    exists|i: int| 0 <= i < s.len() && s[i] == c
}

pub proof fn lemma_find_from_contains(s: Seq<char>, c: char)
    ensures
        find_from(s, c, 0) is Some <==> contains_char(s, c),
{
    lemma_find_from(s, c, 0);
    if contains_char(s, c) {
        let i = choose|i: int| 0 <= i < s.len() && s[i] == c;
        assert(find_from(s, c, 0) is Some);
    }
}

/// First occurrence of `c` in `v` at or after `from`, as executable search.
pub fn find_char_from(v: &Vec<char>, c: char, from: usize) -> (r: Option<usize>)
    ensures
        match r {
            Some(i) => from <= i && find_from(v@, c, from as int) == Some(i as int),
            None => find_from(v@, c, from as int) is None,
        },
{
    let mut i: usize = from;
    if from > v.len() {
        return None;
    }
    while i < v.len()
        invariant
            from <= i <= v@.len(),
            find_from(v@, c, from as int) == find_from(v@, c, i as int),
        decreases v@.len() - i,
    {
        if v[i] == c {
            return Some(i);
        }
        i = i + 1;
    }
    None
}

/// Whether `c` occurs in `v`.
pub fn vec_contains_char(v: &Vec<char>, c: char) -> (r: bool)
    ensures
        r == contains_char(v@, c),
{
    proof {
        lemma_find_from_contains(v@, c);
        lemma_find_from(v@, c, 0);
    }
    match find_char_from(v, c, 0) {
        Some(_) => true,
        None => false,
    }
}

/// ASCII upper-casing of one character; everything else is unchanged.
pub open spec fn ascii_upper_char(c: char) -> char {
    if 'a' <= c && c <= 'z' {
        ((c as u32) - 32) as char
    } else {
        c
    }
}

/// ASCII upper-casing of a whole sequence.
pub open spec fn ascii_upper(s: Seq<char>) -> Seq<char> {
    s.map_values(|c: char| ascii_upper_char(c))
}

/// Upper-cases the ASCII letters of `v`, as the verb normalization wants.
pub fn to_ascii_upper(v: &Vec<char>) -> (r: Vec<char>)
    ensures
        r@ == ascii_upper(v@),
{
    let mut r: Vec<char> = Vec::new();
    let mut i: usize = 0;
    while i < v.len()
        invariant
            i <= v@.len(),
            r@ == ascii_upper(v@).subrange(0, i as int),
        decreases v@.len() - i,
    {
        let c = v[i];
        let u: u32 = c as u32;
        if 97 <= u && u <= 122 {
            let up = match char_from_u32(u - 32) {
                Some(x) => x,
                None => c,
            };
            r.push(up);
        } else {
            r.push(c);
        }
        i = i + 1;
        proof {
            assert(r@ =~= ascii_upper(v@).subrange(0, i as int));
        }
    }
    proof {
        assert(r@ =~= ascii_upper(v@));
    }
    r
}

/// The protocol's case folding for nicknames: ASCII lower-casing, with
/// `[`, `\`, `]`, `^` folded onto `{`, `|`, `}`, `~`.
pub open spec fn irc_lower_char(c: char) -> char {
    if 'A' <= c && c <= 'Z' {
        ((c as u32) + 32) as char
    } else if c == '[' {
        '{'
    } else if c == '\\' {
        '|'
    } else if c == ']' {
        '}'
    } else if c == '^' {
        '~'
    } else {
        c
    }
}

/// The fold applied to a whole nickname.
pub open spec fn irc_lower(s: Seq<char>) -> Seq<char> {
    s.map_values(|c: char| irc_lower_char(c))
}

/// Folds a nickname for comparison and storage in the nick registry.
pub fn irc_fold(v: &Vec<char>) -> (r: Vec<char>)
    ensures
        r@ == irc_lower(v@),
{
    let mut r: Vec<char> = Vec::new();
    let mut i: usize = 0;
    while i < v.len()
        invariant
            i <= v@.len(),
            r@ == irc_lower(v@).subrange(0, i as int),
        decreases v@.len() - i,
    {
        let c = v[i];
        let u: u32 = c as u32;
        let folded: char = if 65 <= u && u <= 90 {
            match char_from_u32(u + 32) {
                Some(x) => x,
                None => c,
            }
        } else if c == '[' {
            '{'
        } else if c == '\\' {
            '|'
        } else if c == ']' {
            '}'
        } else if c == '^' {
            '~'
        } else {
            c
        };
        r.push(folded);
        i = i + 1;
        proof {
            assert(r@ =~= irc_lower(v@).subrange(0, i as int));
        }
    }
    proof {
        assert(r@ =~= irc_lower(v@));
    }
    r
}

/// A find that starts where the characterization says it must: if `k` is
/// an occurrence of `c` and nothing before it is, the search finds `k`.
pub proof fn lemma_find_from_exact(s: Seq<char>, c: char, from: int, k: int)
    requires
        0 <= from <= k < s.len(),
        s[k] == c,
        forall|j: int| from <= j < k ==> s[j] != c,
    ensures
        find_from(s, c, from) == Some(k),
    decreases k - from,
{
    if from < k {
        lemma_find_from_exact(s, c, from + 1, k);
    }
}

/// Searching a suffix is searching the whole from the cut, shifted.
pub proof fn lemma_find_shift(s: Seq<char>, c: char, start: int)
    requires
        0 <= start <= s.len(),
    ensures
        match find_from(s, c, start) {
            Some(i) => find_from(s.subrange(start, s.len() as int), c, 0) == Some(i - start),
            None => find_from(s.subrange(start, s.len() as int), c, 0) is None,
        },
{
    let suf = s.subrange(start, s.len() as int);
    lemma_find_from(s, c, start);
    lemma_find_from(suf, c, 0);
    match find_from(s, c, start) {
        Some(i) => {
            assert(suf[i - start] == c);
            lemma_find_from_exact(suf, c, 0, i - start);
        },
        None => {
            if find_from(suf, c, 0) is Some {
                let j = find_from(suf, c, 0)->0;
                assert(s[start + j] == c);
            }
        },
    }
}

/// The pieces of `s` between occurrences of `c`. A string without the
/// separator is one piece; every separator ends a piece.
pub open spec fn split_on(s: Seq<char>, c: char) -> Seq<Seq<char>>
    decreases s.len(),
{
    match find_from(s, c, 0) {
        None => seq![s],
        Some(i) => if 0 <= i < s.len() {
            seq![s.subrange(0, i)] + split_on(s.subrange(i + 1, s.len() as int), c)
        } else {
            seq![s]
        },
    }
}

/// The pieces joined back with the separator between them.
pub open spec fn join_with(parts: Seq<Seq<char>>, c: char) -> Seq<char>
    decreases parts.len(),
{
    if parts.len() == 0 {
        Seq::empty()
    } else if parts.len() == 1 {
        parts[0]
    } else {
        parts[0] + seq![c] + join_with(parts.drop_first(), c)
    }
}

/// Joining one more piece appends a separator and the piece.
pub proof fn lemma_join_push(parts: Seq<Seq<char>>, x: Seq<char>, c: char)
    ensures
        join_with(parts.push(x), c) == if parts.len() == 0 {
            x
        } else {
            join_with(parts, c) + seq![c] + x
        },
    decreases parts.len(),
{
    let p = parts.push(x);
    if parts.len() == 0 {
        assert(p.len() == 1);
        assert(p[0] == x);
    } else {
        lemma_join_push(parts.drop_first(), x, c);
        assert(p.drop_first() =~= parts.drop_first().push(x));
        assert(p[0] == parts[0]);
        if parts.len() == 1 {
            assert(parts.drop_first().len() == 0);
            assert(join_with(p, c) == parts[0] + seq![c] + x);
            assert(join_with(parts, c) == parts[0]);
        } else {
            assert(join_with(p, c) == parts[0] + seq![c] + (join_with(parts.drop_first(), c)
                + seq![c] + x));
            assert(join_with(parts, c) == parts[0] + seq![c] + join_with(parts.drop_first(), c));
            assert(parts[0] + seq![c] + (join_with(parts.drop_first(), c) + seq![c] + x) =~= (
            parts[0] + seq![c] + join_with(parts.drop_first(), c)) + seq![c] + x);
        }
    }
}

/// Joins string pieces with a one-character separator.
pub fn join_strings(parts: &Vec<String>, c: char) -> (r: String)
    ensures
        r@ == join_with(parts.deep_view(), c),
{
    let ghost dv = parts.deep_view();
    let mut out = String::new();
    let mut i: usize = 0;
    proof {
        assert(dv.subrange(0, 0) =~= Seq::<Seq<char>>::empty());
    }
    while i < parts.len()
        invariant
            i <= parts@.len(),
            dv == parts.deep_view(),
            dv.len() == parts@.len(),
            forall|k: int| 0 <= k < dv.len() ==> dv[k] == #[trigger] parts@[k]@,
            out@ == join_with(dv.subrange(0, i as int), c),
        decreases parts@.len() - i,
    {
        proof {
            assert(dv.subrange(0, i + 1) =~= dv.subrange(0, i as int).push(dv[i as int]));
            lemma_join_push(dv.subrange(0, i as int), dv[i as int], c);
        }
        if i > 0 {
            push_char(&mut out, c);
        }
        out.append(parts[i].as_str());
        proof {
            if i > 0 {
                assert(out@ =~= join_with(dv.subrange(0, i + 1), c));
            } else {
                assert(out@ =~= dv[0]);
            }
        }
        i = i + 1;
    }
    proof {
        assert(dv.subrange(0, dv.len() as int) =~= dv);
    }
    out
}

/// Splits a string on every occurrence of `c`.
pub fn split_string(s: &str, c: char) -> (r: Vec<String>)
    ensures
        r.deep_view() == split_on(s@, c),
{
    let chars = str_chars(s);
    let pieces = split_chars(&chars, c);
    let mut r: Vec<String> = Vec::new();
    let mut i: usize = 0;
    while i < pieces.len()
        invariant
            i <= pieces@.len(),
            r@.len() == i,
            forall|k: int| 0 <= k < i ==> #[trigger] r@[k]@ == pieces.deep_view()[k],
        decreases pieces@.len() - i,
    {
        r.push(chars_str(&pieces[i]));
        i = i + 1;
    }
    proof {
        assert(r.deep_view() =~= pieces.deep_view());
    }
    r
}

pub proof fn lemma_split_on_nonempty(s: Seq<char>, c: char)
    ensures
        split_on(s, c).len() >= 1,
    decreases s.len(),
{
    lemma_find_from(s, c, 0);
}

/// Splitting what was joined gives the pieces back, as long as no piece
/// holds the separator.
pub proof fn lemma_split_join(parts: Seq<Seq<char>>, c: char)
    requires
        parts.len() >= 1,
        forall|i: int| 0 <= i < parts.len() ==> !contains_char(#[trigger] parts[i], c),
    ensures
        split_on(join_with(parts, c), c) == parts,
    decreases parts.len(),
{
    let s = join_with(parts, c);
    if parts.len() == 1 {
        assert(!contains_char(parts[0], c));
        lemma_find_from_contains(s, c);
        assert(split_on(s, c) =~= parts);
    } else {
        let head = parts[0];
        let rest = parts.drop_first();
        let k = head.len() as int;
        assert(s == head + seq![c] + join_with(rest, c));
        assert(s[k] == c);
        assert forall|j: int| 0 <= j < k implies s[j] != c by {
            assert(s[j] == head[j]);
            assert(!contains_char(head, c));
        }
        lemma_find_from_exact(s, c, 0, k);
        assert(s.subrange(0, k) =~= head);
        assert(s.subrange(k + 1, s.len() as int) =~= join_with(rest, c));
        lemma_split_join(rest, c);
        assert(split_on(s, c) =~= seq![head] + split_on(join_with(rest, c), c));
        assert(seq![head] + rest =~= parts);
    }
}

/// The pieces of `s` between occurrences of `c`, with at most `n` pieces:
/// the last piece keeps the rest of the string, separators included.
pub open spec fn split_limit(s: Seq<char>, c: char, n: nat) -> Seq<Seq<char>>
    decreases s.len(),
{
    if n <= 1 {
        seq![s]
    } else {
        match find_from(s, c, 0) {
            None => seq![s],
            Some(i) => if 0 <= i < s.len() {
                seq![s.subrange(0, i)] + split_limit(
                    s.subrange(i + 1, s.len() as int),
                    c,
                    (n - 1) as nat,
                )
            } else {
                seq![s]
            },
        }
    }
}

/// Splits `s` on every occurrence of `c`.
pub fn split_chars(v: &Vec<char>, c: char) -> (r: Vec<Vec<char>>)
    ensures
        r.deep_view() == split_on(v@, c),
{
    let mut parts: Vec<Vec<char>> = Vec::new();
    let mut start: usize = 0;
    proof {
        assert(v@.subrange(0, v@.len() as int) =~= v@);
        assert(parts.deep_view() =~= Seq::<Seq<char>>::empty());
        assert(parts.deep_view() + split_on(v@, c) =~= split_on(v@, c));
    }
    loop
        invariant
            start <= v@.len(),
            split_on(v@, c) == parts.deep_view() + split_on(
                v@.subrange(start as int, v@.len() as int),
                c,
            ),
        decreases v@.len() - start + 1,
    {
        let ghost suffix = v@.subrange(start as int, v@.len() as int);
        match find_char_from(v, c, start) {
            Some(i) => {
                proof {
                    lemma_find_from(v@, c, start as int);
                    lemma_find_shift(v@, c, start as int);
                    assert(i < v@.len());
                }
                let mut piece: Vec<char> = Vec::new();
                let mut j: usize = start;
                while j < i
                    invariant
                        start <= j <= i < v@.len(),
                        piece@ == v@.subrange(start as int, j as int),
                    decreases i - j,
                {
                    piece.push(v[j]);
                    j = j + 1;
                    proof {
                        assert(piece@ =~= v@.subrange(start as int, j as int));
                    }
                }
                proof {
                    assert(suffix.subrange(0, i - start) =~= piece@);
                    assert(suffix.subrange(i - start + 1, suffix.len() as int) =~= v@.subrange(
                        i + 1,
                        v@.len() as int,
                    ));
                }
                let ghost old_parts = parts.deep_view();
                parts.push(piece);
                proof {
                    assert(parts.deep_view() =~~= old_parts + seq![piece@]);
                    assert(parts.deep_view() + split_on(
                        v@.subrange(i + 1, v@.len() as int),
                        c,
                    ) =~~= old_parts + (seq![piece@] + split_on(
                        v@.subrange(i + 1, v@.len() as int),
                        c,
                    )));
                    assert(split_on(suffix, c) == seq![piece@] + split_on(
                        v@.subrange(i + 1, v@.len() as int),
                        c,
                    ));
                }
                let n = v.len();
                proof {
                    assert(i < n);
                }
                start = i + 1;
            },
            None => {
                proof {
                    lemma_find_shift(v@, c, start as int);
                }
                let mut piece: Vec<char> = Vec::new();
                let mut j: usize = start;
                while j < v.len()
                    invariant
                        start <= j <= v@.len(),
                        piece@ == v@.subrange(start as int, j as int),
                    decreases v@.len() - j,
                {
                    piece.push(v[j]);
                    j = j + 1;
                    proof {
                        assert(piece@ =~= v@.subrange(start as int, j as int));
                    }
                }
                let ghost old_parts = parts.deep_view();
                parts.push(piece);
                proof {
                    assert(piece@ =~= suffix);
                    assert(split_on(suffix, c) =~= seq![suffix]);
                    assert(parts.deep_view() =~~= old_parts + seq![suffix]);
                    assert(parts.deep_view() =~~= split_on(v@, c));
                }
                return parts;
            },
        }
    }
}

/// A copy of the elements of `v` between `a` and `b`.
pub fn subvec<T: Copy>(v: &Vec<T>, a: usize, b: usize) -> (r: Vec<T>)
    requires
        a <= b <= v@.len(),
    ensures
        r@ == v@.subrange(a as int, b as int),
{
    let mut r: Vec<T> = Vec::new();
    let mut j: usize = a;
    while j < b
        invariant
            a <= j <= b <= v@.len(),
            r@ == v@.subrange(a as int, j as int),
        decreases b - j,
    {
        r.push(v[j]);
        j = j + 1;
        proof {
            assert(r@ =~= v@.subrange(a as int, j as int));
        }
    }
    r
}

/// Index of the first place at or after `from` where `c1` is directly
/// followed by `c2`.
pub open spec fn find_pair_from(s: Seq<char>, c1: char, c2: char, from: int) -> Option<int>
    decreases s.len() - from,
{
    if from < 0 || from + 1 >= s.len() {
        None
    } else if s[from] == c1 && s[from + 1] == c2 {
        Some(from)
    } else {
        find_pair_from(s, c1, c2, from + 1)
    }
}

pub proof fn lemma_find_pair_from(s: Seq<char>, c1: char, c2: char, from: int)
    requires
        0 <= from,
    ensures
        match find_pair_from(s, c1, c2, from) {
            Some(i) => from <= i && i + 1 < s.len() && s[i] == c1 && s[i + 1] == c2,
            None => true,
        },
    decreases s.len() - from,
{
    if from + 1 < s.len() && !(s[from] == c1 && s[from + 1] == c2) {
        lemma_find_pair_from(s, c1, c2, from + 1);
    }
}

/// If `k` holds the pair and nothing before it does, the search finds
/// `k`.
pub proof fn lemma_find_pair_exact(s: Seq<char>, c1: char, c2: char, from: int, k: int)
    requires
        0 <= from <= k,
        k + 1 < s.len(),
        s[k] == c1,
        s[k + 1] == c2,
        forall|j: int|
            #![trigger s[j]]
            from <= j < k ==> !(s[j] == c1 && s[j + 1] == c2),
    ensures
        find_pair_from(s, c1, c2, from) == Some(k),
    decreases k - from,
{
    if from < k {
        lemma_find_pair_exact(s, c1, c2, from + 1, k);
    }
}

/// Without the pair anywhere past `from`, the search fails.
pub proof fn lemma_find_pair_none(s: Seq<char>, c1: char, c2: char, from: int)
    requires
        0 <= from,
        forall|j: int|
            #![trigger s[j]]
            from <= j && j + 1 < s.len() ==> !(s[j] == c1 && s[j + 1] == c2),
    ensures
        find_pair_from(s, c1, c2, from) is None,
    decreases s.len() - from,
{
    if from + 1 < s.len() {
        lemma_find_pair_none(s, c1, c2, from + 1);
    }
}

/// First adjacent `c1 c2` pair in `v`, as executable search.
pub fn find_pair(v: &Vec<char>, c1: char, c2: char) -> (r: Option<usize>)
    ensures
        match r {
            Some(i) => find_pair_from(v@, c1, c2, 0) == Some(i as int) && i + 1 < v@.len(),
            None => find_pair_from(v@, c1, c2, 0) is None,
        },
{
    if v.len() < 2 {
        return None;
    }
    let mut i: usize = 0;
    while i < v.len() - 1
        invariant
            i <= v@.len(),
            v@.len() >= 2,
            find_pair_from(v@, c1, c2, 0) == find_pair_from(v@, c1, c2, i as int),
        decreases v@.len() - i,
    {
        if v[i] == c1 && v[i + 1] == c2 {
            return Some(i);
        }
        i = i + 1;
    }
    None
}

/// Splits `v` on `c` into at most `n` pieces; the last piece keeps the
/// rest, separators included.
pub fn split_limit_chars(v: &Vec<char>, c: char, n: usize) -> (r: Vec<Vec<char>>)
    requires
        n >= 1,
    ensures
        r.deep_view() == split_limit(v@, c, n as nat),
{
    let mut parts: Vec<Vec<char>> = Vec::new();
    let mut start: usize = 0;
    let mut left: usize = n;
    proof {
        assert(v@.subrange(0, v@.len() as int) =~= v@);
        assert(parts.deep_view() =~= Seq::<Seq<char>>::empty());
        assert(split_limit(v@, c, n as nat) =~= parts.deep_view() + split_limit(v@, c, n as nat));
    }
    loop
        invariant
            start <= v@.len(),
            1 <= left <= n,
            parts@.len() == parts.deep_view().len(),
            split_limit(v@, c, n as nat) == parts.deep_view() + split_limit(
                v@.subrange(start as int, v@.len() as int),
                c,
                left as nat,
            ),
        decreases v@.len() - start + left,
    {
        let ghost suffix = v@.subrange(start as int, v@.len() as int);
        if left == 1 {
            let piece = subvec(v, start, v.len());
            let ghost old_parts = parts.deep_view();
            parts.push(piece);
            proof {
                assert(split_limit(suffix, c, 1nat) =~= seq![suffix]);
                assert(parts.deep_view() =~~= old_parts + seq![suffix]);
                assert(parts.deep_view() =~~= split_limit(v@, c, n as nat));
            }
            return parts;
        }
        match find_char_from(v, c, start) {
            Some(i) => {
                proof {
                    lemma_find_from(v@, c, start as int);
                    lemma_find_shift(v@, c, start as int);
                    assert(i < v@.len());
                }
                let piece = subvec(v, start, i);
                let ghost old_parts = parts.deep_view();
                parts.push(piece);
                proof {
                    assert(suffix.subrange(0, i - start) =~= piece@);
                    assert(suffix.subrange(i - start + 1, suffix.len() as int) =~= v@.subrange(
                        i + 1,
                        v@.len() as int,
                    ));
                    assert(parts.deep_view() =~~= old_parts + seq![piece@]);
                    assert(split_limit(suffix, c, left as nat) == seq![piece@] + split_limit(
                        v@.subrange(i + 1, v@.len() as int),
                        c,
                        (left - 1) as nat,
                    ));
                    assert(parts.deep_view() + split_limit(
                        v@.subrange(i + 1, v@.len() as int),
                        c,
                        (left - 1) as nat,
                    ) =~~= old_parts + (seq![piece@] + split_limit(
                        v@.subrange(i + 1, v@.len() as int),
                        c,
                        (left - 1) as nat,
                    )));
                }
                let nn = v.len();
                proof {
                    assert(i < nn);
                }
                start = i + 1;
                left = left - 1;
            },
            None => {
                proof {
                    lemma_find_shift(v@, c, start as int);
                }
                let piece = subvec(v, start, v.len());
                let ghost old_parts = parts.deep_view();
                parts.push(piece);
                proof {
                    assert(piece@ =~= suffix);
                    assert(split_limit(suffix, c, left as nat) =~= seq![suffix]);
                    assert(parts.deep_view() =~~= old_parts + seq![suffix]);
                    assert(parts.deep_view() =~~= split_limit(v@, c, n as nat));
                }
                return parts;
            },
        }
    }
}

/// The same pieces with every empty one removed.
pub open spec fn drop_empties(parts: Seq<Seq<char>>) -> Seq<Seq<char>>
    decreases parts.len(),
{
    if parts.len() == 0 {
        Seq::empty()
    } else if parts[0].len() == 0 {
        drop_empties(parts.drop_first())
    } else {
        seq![parts[0]] + drop_empties(parts.drop_first())
    }
}

/// Removing empties from one more piece appends it when it is not
/// empty.
pub proof fn lemma_drop_empties_push(parts: Seq<Seq<char>>, x: Seq<char>)
    ensures
        drop_empties(parts.push(x)) == if x.len() == 0 {
            drop_empties(parts)
        } else {
            drop_empties(parts).push(x)
        },
    decreases parts.len(),
{
    let p = parts.push(x);
    if parts.len() == 0 {
        assert(p.drop_first() =~= Seq::<Seq<char>>::empty());
        assert(p[0] == x);
        assert(drop_empties(Seq::<Seq<char>>::empty()) =~= Seq::<Seq<char>>::empty());
        assert(drop_empties(parts) =~= Seq::<Seq<char>>::empty());
        if x.len() == 0 {
        } else {
            assert(seq![x] + Seq::<Seq<char>>::empty() =~= drop_empties(parts).push(x));
        }
    } else {
        lemma_drop_empties_push(parts.drop_first(), x);
        assert(p.drop_first() =~= parts.drop_first().push(x));
        assert(p[0] == parts[0]);
        if parts[0].len() == 0 {
        } else {
            if x.len() == 0 {
            } else {
                assert(seq![parts[0]] + drop_empties(parts.drop_first()).push(x) =~= (
                seq![parts[0]] + drop_empties(parts.drop_first())).push(x));
            }
        }
    }
}

/// No more pieces come out than went in.
pub proof fn lemma_drop_empties_len(parts: Seq<Seq<char>>)
    ensures
        drop_empties(parts).len() <= parts.len(),
    decreases parts.len(),
{
    if parts.len() > 0 {
        lemma_drop_empties_len(parts.drop_first());
    }
}

/// A limited split yields at most `n` pieces.
pub proof fn lemma_split_limit_len(s: Seq<char>, c: char, n: nat)
    requires
        n >= 1,
    ensures
        1 <= split_limit(s, c, n).len() <= n,
    decreases s.len(),
{
    if n <= 1 {
    } else {
        match find_from(s, c, 0) {
            None => {},
            Some(i) => {
                if 0 <= i < s.len() {
                    lemma_split_limit_len(s.subrange(i + 1, s.len() as int), c, (n - 1) as nat);
                }
            },
        }
    }
}

/// With few enough pieces the limit never binds.
pub proof fn lemma_split_limit_eq_split_on(s: Seq<char>, c: char, n: nat)
    requires
        n >= 1,
        split_on(s, c).len() <= n,
    ensures
        split_limit(s, c, n) == split_on(s, c),
    decreases s.len(),
{
    if n <= 1 {
        match find_from(s, c, 0) {
            None => {},
            Some(i) => {
                if 0 <= i < s.len() {
                    lemma_split_on_nonempty(s.subrange(i + 1, s.len() as int), c);
                }
            },
        }
    } else {
        match find_from(s, c, 0) {
            None => {},
            Some(i) => {
                if 0 <= i < s.len() {
                    let rest = s.subrange(i + 1, s.len() as int);
                    lemma_split_limit_eq_split_on(rest, c, (n - 1) as nat);
                }
            },
        }
    }
}

/// Without empty pieces there is nothing to drop.
pub proof fn lemma_drop_empties_id(parts: Seq<Seq<char>>)
    requires
        forall|i: int| 0 <= i < parts.len() ==> (#[trigger] parts[i]).len() > 0,
    ensures
        drop_empties(parts) == parts,
    decreases parts.len(),
{
    if parts.len() > 0 {
        assert(parts[0].len() > 0);
        lemma_drop_empties_id(parts.drop_first());
        assert(seq![parts[0]] + parts.drop_first() =~= parts);
    }
}

/// Two or more pieces put the separator in the joined text.
pub proof fn lemma_join_contains(parts: Seq<Seq<char>>, c: char)
    requires
        parts.len() >= 2,
    ensures
        contains_char(join_with(parts, c), c),
{
    let s = join_with(parts, c);
    let k = parts[0].len() as int;
    assert(s == parts[0] + seq![c] + join_with(parts.drop_first(), c));
    assert(s[k] == c);
}

/// Joining pieces free of a character, with another separator, yields
/// text free of it.
pub proof fn lemma_join_free(parts: Seq<Seq<char>>, sep: char, ch: char)
    requires
        sep != ch,
        forall|i: int| 0 <= i < parts.len() ==> !contains_char(#[trigger] parts[i], ch),
    ensures
        !contains_char(join_with(parts, sep), ch),
    decreases parts.len(),
{
    let jm = join_with(parts, sep);
    if parts.len() == 0 {
    } else if parts.len() == 1 {
        assert(jm == parts[0]);
    } else {
        lemma_join_free(parts.drop_first(), sep, ch);
        let jr = join_with(parts.drop_first(), sep);
        assert(jm == parts[0] + seq![sep] + jr);
        if contains_char(jm, ch) {
            let w = choose|w: int| 0 <= w < jm.len() && jm[w] == ch;
            let b = parts[0].len() as int;
            if w < b {
                assert(parts[0][w] == ch);
                assert(contains_char(parts[0], ch));
            } else if w == b {
                assert(jm[w] == sep);
            } else {
                assert(jr[w - b - 1] == ch);
                assert(contains_char(jr, ch));
            }
        }
    }
}

/// Keeps only the non-empty pieces, as strings.
pub fn drop_empty_pieces(parts: &Vec<Vec<char>>) -> (r: Vec<String>)
    ensures
        r.deep_view() == drop_empties(parts.deep_view()),
{
    let ghost pv = parts.deep_view();
    let mut r: Vec<String> = Vec::new();
    let mut i: usize = 0;
    proof {
        assert(pv.subrange(0, 0) =~= Seq::<Seq<char>>::empty());
        assert(r.deep_view() =~~= drop_empties(pv.subrange(0, 0)));
    }
    while i < parts.len()
        invariant
            i <= parts@.len(),
            pv == parts.deep_view(),
            pv.len() == parts@.len(),
            forall|k: int| 0 <= k < pv.len() ==> pv[k] == #[trigger] parts@[k]@,
            r.deep_view() == drop_empties(pv.subrange(0, i as int)),
        decreases parts@.len() - i,
    {
        proof {
            assert(pv.subrange(0, i + 1) =~= pv.subrange(0, i as int).push(pv[i as int]));
            lemma_drop_empties_push(pv.subrange(0, i as int), pv[i as int]);
        }
        if parts[i].len() > 0 {
            let ghost before = r.deep_view();
            r.push(chars_str(&parts[i]));
            proof {
                assert(r.deep_view() =~~= before.push(pv[i as int]));
            }
        }
        i = i + 1;
    }
    proof {
        assert(pv.subrange(0, pv.len() as int) =~= pv);
    }
    r
}

/// Index of the first carriage-return line-feed pair that lies wholly
/// inside the window `[from, to)` of `s`.
pub open spec fn find_crlf(s: Seq<u8>, from: int, to: int) -> Option<int>
    decreases to - from,
{
    if from < 0 || from + 1 >= to || to > s.len() {
        None
    } else if s[from] == 13 && s[from + 1] == 10 {
        Some(from)
    } else {
        find_crlf(s, from + 1, to)
    }
}

pub proof fn lemma_find_crlf(s: Seq<u8>, from: int, to: int)
    requires
        0 <= from,
    ensures
        match find_crlf(s, from, to) {
            Some(i) => from <= i && i + 1 < to && to <= s.len() && s[i] == 13 && s[i + 1] == 10,
            None => to <= s.len() ==> forall|j: int|
                #![trigger s[j]]
                from <= j && j + 1 < to ==> !(s[j] == 13 && s[j + 1] == 10),
        },
    decreases to - from,
{
    if !(from < 0 || from + 1 >= to || to > s.len()) && !(s[from] == 13 && s[from + 1] == 10) {
        lemma_find_crlf(s, from + 1, to);
    }
}

/// Where the characterization pins the search down: if position `k`
/// holds a terminator and none lies before it in the window, the search
/// finds `k`.
pub proof fn lemma_find_crlf_exact(s: Seq<u8>, from: int, to: int, k: int)
    requires
        0 <= from <= k,
        k + 1 < to,
        to <= s.len(),
        s[k] == 13,
        s[k + 1] == 10,
        forall|j: int|
            #![trigger s[j]]
            from <= j < k ==> !(s[j] == 13 && s[j + 1] == 10),
    ensures
        find_crlf(s, from, to) == Some(k),
    decreases k - from,
{
    if from < k {
        lemma_find_crlf_exact(s, from + 1, to, k);
    }
}

/// Absence in the window means the search fails.
pub proof fn lemma_find_crlf_none(s: Seq<u8>, from: int, to: int)
    requires
        0 <= from,
        forall|j: int|
            #![trigger s[j]]
            from <= j && j + 1 < to && j + 1 < s.len() ==> !(s[j] == 13 && s[j + 1] == 10),
    ensures
        find_crlf(s, from, to) is None,
    decreases to - from,
{
    if !(from < 0 || from + 1 >= to || to > s.len()) {
        lemma_find_crlf_none(s, from + 1, to);
    }
}

/// First fully-contained terminator pair in the window, as executable
/// search.
pub fn find_crlf_vec(v: &Vec<u8>, from: usize, to: usize) -> (r: Option<usize>)
    ensures
        match r {
            Some(i) => find_crlf(v@, from as int, to as int) == Some(i as int) && from <= i && i + 1
                < to <= v@.len(),
            None => find_crlf(v@, from as int, to as int) is None,
        },
{
    if to > v.len() || from >= to || to - from < 2 {
        return None;
    }
    let mut i: usize = from;
    while i + 1 < to
        invariant
            from <= i,
            i + 1 <= to <= v@.len(),
            find_crlf(v@, from as int, to as int) == find_crlf(v@, i as int, to as int),
        decreases to - i,
    {
        if v[i] == 13 && v[i + 1] == 10 {
            return Some(i);
        }
        i = i + 1;
    }
    None
}

/// ASCII lower-casing of one character; everything else is unchanged.
pub open spec fn ascii_lower_char(c: char) -> char {
    if 'A' <= c && c <= 'Z' {
        ((c as u32) + 32) as char
    } else {
        c
    }
}

/// ASCII lower-casing of a whole sequence.
pub open spec fn ascii_lower(s: Seq<char>) -> Seq<char> {
    s.map_values(|c: char| ascii_lower_char(c))
}

/// Lower-cases the ASCII letters of `v`, as label lookup wants.
pub fn to_ascii_lower(v: &Vec<char>) -> (r: Vec<char>)
    ensures
        r@ == ascii_lower(v@),
{
    let mut r: Vec<char> = Vec::new();
    let mut i: usize = 0;
    while i < v.len()
        invariant
            i <= v@.len(),
            r@ == ascii_lower(v@).subrange(0, i as int),
        decreases v@.len() - i,
    {
        let c = v[i];
        let u: u32 = c as u32;
        if 65 <= u && u <= 90 {
            let low = match char_from_u32(u + 32) {
                Some(x) => x,
                None => c,
            };
            r.push(low);
        } else {
            r.push(c);
        }
        i = i + 1;
        proof {
            assert(r@ =~= ascii_lower(v@).subrange(0, i as int));
        }
    }
    proof {
        assert(r@ =~= ascii_lower(v@));
    }
    r
}

/// The character for one decimal digit.
pub open spec fn digit_char(d: nat) -> char {
    ((48 + d) as u32) as char
}

/// Decimal notation of a natural number, most significant digit first,
/// without leading zeros.
pub open spec fn dec_digits(n: nat) -> Seq<char>
    decreases n,
{
    if n < 10 {
        seq![digit_char(n)]
    } else {
        dec_digits(n / 10).push(digit_char(n % 10))
    }
}

/// Decimal notation of a signed number: a `-` sign before the digits when
/// negative.
pub open spec fn int_text(n: int) -> Seq<char> {
    if n < 0 {
        seq!['-'] + dec_digits((-n) as nat)
    } else {
        dec_digits(n as nat)
    }
}

/// Digits of `n` in decimal, as characters.
pub fn u64_dec_chars(n: u64) -> (r: Vec<char>)
    ensures
        r@ == dec_digits(n as nat),
    decreases n,
{
    if n < 10 {
        let c = match char_from_u32((48 + n) as u32) {
            Some(x) => x,
            None => '0',
        };
        let mut r: Vec<char> = Vec::new();
        r.push(c);
        proof {
            assert(r@ =~= dec_digits(n as nat));
        }
        r
    } else {
        let mut r = u64_dec_chars(n / 10);
        let d: u64 = n % 10;
        let c = match char_from_u32((48 + d) as u32) {
            Some(x) => x,
            None => '0',
        };
        r.push(c);
        r
    }
}

/// Decimal notation of `n`, sign included.
pub fn i32_dec_chars(n: i32) -> (r: Vec<char>)
    ensures
        r@ == int_text(n as int),
{
    if n < 0 {
        let m: u64 = (-(n as i64)) as u64;
        let digits = u64_dec_chars(m);
        let mut r: Vec<char> = Vec::new();
        r.push('-');
        let mut i: usize = 0;
        while i < digits.len()
            invariant
                i <= digits@.len(),
                r@ == seq!['-'] + digits@.subrange(0, i as int),
            decreases digits@.len() - i,
        {
            r.push(digits[i]);
            i = i + 1;
            proof {
                assert(r@ =~= seq!['-'] + digits@.subrange(0, i as int));
            }
        }
        proof {
            assert(digits@.subrange(0, digits@.len() as int) =~= digits@);
        }
        r
    } else {
        u64_dec_chars(n as u64)
    }
}

/// Whether every character of `s` is a decimal digit.
pub open spec fn all_digits(s: Seq<char>) -> bool {
    forall|i: int| 0 <= i < s.len() ==> 48 <= #[trigger] (s[i] as u32) <= 57
}

/// The value of one digit character; other characters count as zero.
pub open spec fn digit_val(c: char) -> nat {
    if 48 <= c as u32 <= 57 {
        ((c as u32) - 48) as nat
    } else {
        0
    }
}

/// The number a digit string denotes.
pub open spec fn digits_val(s: Seq<char>) -> nat
    decreases s.len(),
{
    if s.len() == 0 {
        0
    } else {
        digits_val(s.drop_last()) * 10 + digit_val(s.last())
    }
}

/// How a signed 32-bit integer is read from text: an optional sign, then
/// one or more digits, the value within range. Anything else is `None`.
pub open spec fn parse_i32_spec(s: Seq<char>) -> Option<i32> {
    if s.len() == 0 {
        None
    } else {
        let negative = s[0] == '-';
        let digits = if s[0] == '-' || s[0] == '+' {
            s.subrange(1, s.len() as int)
        } else {
            s
        };
        if digits.len() == 0 || !all_digits(digits) {
            None
        } else {
            let v = digits_val(digits) as int;
            let signed = if negative {
                -v
            } else {
                v
            };
            if i32::MIN <= signed <= i32::MAX {
                Some(signed as i32)
            } else {
                None
            }
        }
    }
}

proof fn lemma_parse_i32_none(s: Seq<char>)
    requires
        s.len() > 0,
        ({
            let digits = if s[0] == '-' || s[0] == '+' {
                s.subrange(1, s.len() as int)
            } else {
                s
            };
            digits.len() == 0 || !all_digits(digits) || digits_val(digits) > 0x8000_0000
        }),
    ensures
        parse_i32_spec(s) is None,
{
}

proof fn lemma_digits_val_monotonic(s: Seq<char>, i: int, j: int)
    requires
        0 <= i <= j <= s.len(),
    ensures
        digits_val(s.subrange(0, i)) <= digits_val(s.subrange(0, j)),
    decreases j - i,
{
    if i < j {
        lemma_digits_val_monotonic(s, i, j - 1);
        assert(s.subrange(0, j).drop_last() =~= s.subrange(0, j - 1));
    }
}

/// Reads a signed 32-bit integer, exactly as `parse_i32_spec` says.
pub fn parse_i32_chars(v: &Vec<char>) -> (r: Option<i32>)
    ensures
        r == parse_i32_spec(v@),
{
    if v.len() == 0 {
        return None;
    }
    let first = v[0];
    let negative = first == '-';
    let start: usize = if first == '-' || first == '+' {
        1
    } else {
        0
    };
    let ghost digits = if v@[0] == '-' || v@[0] == '+' {
        v@.subrange(1, v@.len() as int)
    } else {
        v@
    };
    proof {
        assert(digits =~= v@.subrange(start as int, v@.len() as int));
    }
    if v.len() == start {
        proof {
            assert(digits.len() == 0);
            lemma_parse_i32_none(v@);
        }
        return None;
    }
    let mut acc: u64 = 0;
    let mut i: usize = start;
    while i < v.len()
        invariant
            start <= i <= v@.len(),
            start <= 1,
            v@.len() > start,
            if v@[0] == '-' || v@[0] == '+' {
                start == 1
            } else {
                start == 0
            },
            negative == (v@[0] == '-'),
            digits == (if v@[0] == '-' || v@[0] == '+' {
                v@.subrange(1, v@.len() as int)
            } else {
                v@
            }),
            digits == v@.subrange(start as int, v@.len() as int),
            acc == digits_val(digits.subrange(0, i - start)),
            acc <= 0x8000_0000u64,
            all_digits(digits.subrange(0, i - start)),
        decreases v@.len() - i,
    {
        let c = v[i];
        let u: u32 = c as u32;
        if u < 48 || u > 57 {
            proof {
                assert(digits[i - start] == v@[i as int]);
                assert((digits[i - start] as u32) < 48 || (digits[i - start] as u32) > 57);
                assert(!all_digits(digits));
                lemma_parse_i32_none(v@);
            }
            return None;
        }
        let d: u64 = (u - 48) as u64;
        let ghost prefix_new = digits.subrange(0, i + 1 - start);
        proof {
            assert(prefix_new.drop_last() =~= digits.subrange(0, i - start));
            assert(prefix_new.last() == v@[i as int]);
            assert(digit_val(prefix_new.last()) == d);
            assert(digits_val(prefix_new) == acc * 10 + d);
            assert(all_digits(prefix_new));
        }
        acc = acc * 10 + d;
        i = i + 1;
        if acc > 0x8000_0000u64 {
            proof {
                lemma_digits_val_monotonic(digits, i - start, digits.len() as int);
                assert(digits.subrange(0, digits.len() as int) =~= digits);
                assert(digits_val(digits) > 0x8000_0000);
                lemma_parse_i32_none(v@);
            }
            return None;
        }
    }
    proof {
        assert(digits.subrange(0, v@.len() - start) =~= digits);
    }
    if negative {
        let val: i64 = -(acc as i64);
        if val < (i32::MIN as i64) {
            return None;
        }
        Some(val as i32)
    } else {
        if acc > (i32::MAX as u64) {
            return None;
        }
        Some(acc as i32)
    }
}

/// Formatting a signed number and reading it back yields the number.
pub proof fn lemma_int_text_roundtrip(n: i32)
    ensures
        parse_i32_spec(int_text(n as int)) == Some(n),
{
    if n < 0 {
        let m = (-(n as int)) as nat;
        lemma_dec_digits_shape(m);
        let s = int_text(n as int);
        assert(s[0] == '-');
        assert(s.subrange(1, s.len() as int) =~= dec_digits(m));
    } else {
        let m = n as nat;
        lemma_dec_digits_shape(m);
        let s = int_text(n as int);
        assert(48 <= s[0] as u32 <= 57);
        assert(s[0] != '-' && s[0] != '+');
    }
}

/// The decimal digits of `n` are digits and denote `n`.
pub proof fn lemma_dec_digits_shape(n: nat)
    ensures
        dec_digits(n).len() >= 1,
        all_digits(dec_digits(n)),
        digits_val(dec_digits(n)) == n,
    decreases n,
{
    if n < 10 {
        let s = dec_digits(n);
        assert(s == seq![digit_char(n)]);
        assert(s[0] as u32 == 48 + n);
        assert(s.drop_last() =~= Seq::<char>::empty());
        assert(digits_val(Seq::<char>::empty()) == 0);
        assert(digits_val(s) == n);
    } else {
        lemma_dec_digits_shape(n / 10);
        let s = dec_digits(n);
        assert(s.drop_last() =~= dec_digits(n / 10));
        assert(s.last() as u32 == 48 + n % 10);
        assert(digits_val(s) == digits_val(dec_digits(n / 10)) * 10 + n % 10);
        assert forall|i: int| 0 <= i < s.len() implies 48 <= #[trigger] (s[i] as u32) <= 57 by {
            if i < s.len() - 1 {
                assert(s[i] == dec_digits(n / 10)[i]);
            }
        }
    }
}

/// Whether two character vectors hold the same characters.
pub fn chars_eq(a: &Vec<char>, b: &Vec<char>) -> (r: bool)
    ensures
        r == (a@ == b@),
{
    if a.len() != b.len() {
        proof {
            assert(a@ != b@);
        }
        return false;
    }
    let mut i: usize = 0;
    while i < a.len()
        invariant
            i <= a@.len(),
            a@.len() == b@.len(),
            forall|j: int| 0 <= j < i ==> a@[j] == b@[j],
        decreases a@.len() - i,
    {
        if a[i] != b[i] {
            proof {
                assert(a@[i as int] != b@[i as int]);
            }
            return false;
        }
        i = i + 1;
    }
    proof {
        assert(a@ =~= b@);
    }
    true
}

} // verus!
