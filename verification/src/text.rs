//! Character-level string operations with their meaning stated over `Seq<char>`.

use vstd::prelude::*;

verus! {

/// `prefix` is the beginning of `s`.
pub open spec fn has_prefix(s: Seq<char>, prefix: Seq<char>) -> bool {
    prefix.is_prefix_of(s)
}

/// Whether `s` begins with `prefix`.
pub fn starts_with(s: &str, prefix: &str) -> (r: bool)
    ensures
        r == has_prefix(s@, prefix@),
{
    let n = prefix.unicode_len();
    let m = s.unicode_len();
    if n > m {
        false
    } else {
        let head = String::from_str(s.substring_char(0, n));
        let want = String::from_str(prefix);
        let r = head == want;
        assert(r == (s@.subrange(0, n as int) =~= prefix@));
        r
    }
}

/// Whether the first character of `s` is `c`.
pub fn starts_with_char(s: &str, c: char) -> (r: bool)
    ensures
        r == (s@.len() > 0 && s@[0] == c),
{
    let m = s.unicode_len();
    if m == 0 {
        false
    } else {
        s.get_char(0) == c
    }
}


/// Whether `c` occurs in `s`.
pub fn contains_char(s: &str, c: char) -> (r: bool)
    ensures
        r == s@.contains(c),
{
    let n = s.unicode_len();
    let mut i: usize = 0;
    while i < n
        invariant
            n == s@.len(),
            i <= n,
            forall|j: int| 0 <= j < i ==> s@[j] != c,
        decreases n - i,
    {
        if s.get_char(i) == c {
            return true;
        }
        i = i + 1;
    }
    false
}

/// `s` with every occurrence of `from` replaced by `to`.
pub open spec fn replace_char(s: Seq<char>, from: char, to: Seq<char>) -> Seq<char>
    decreases s.len(),
{
    if s.len() == 0 {
        Seq::empty()
    } else {
        replace_char(s.drop_last(), from, to) + (if s.last() == from {
            to
        } else {
            seq![s.last()]
        })
    }
}

/// A copy of `s` where each `from` is replaced by the text `to`.
pub fn replace(s: &str, from: char, to: &str) -> (r: String)
    ensures
        r@ == replace_char(s@, from, to@),
{
    let n = s.unicode_len();
    let mut out = String::new();
    let mut i: usize = 0;
    while i < n
        invariant
            n == s@.len(),
            i <= n,
            out@ == replace_char(s@.subrange(0, i as int), from, to@),
        decreases n - i,
    {
        let c = s.get_char(i);
        assert(s@.subrange(0, i + 1).drop_last() =~= s@.subrange(0, i as int));
        if c == from {
            out.append(to);
        } else {
            let one = s.substring_char(i, i + 1);
            assert(one@ =~= seq![c]);
            out.append(one);
        }
        i = i + 1;
    }
    assert(s@.subrange(0, n as int) =~= s@);
    out
}

/// The pieces of `s` between the occurrences of `sep`, in order: one more piece
/// than `s` holds separators, empty pieces included.
pub open spec fn split_char(s: Seq<char>, sep: char) -> Seq<Seq<char>>
    decreases s.len(),
{
    if s.len() == 0 {
        seq![Seq::empty()]
    } else {
        let pieces = split_char(s.drop_last(), sep);
        if s.last() == sep {
            pieces.push(Seq::empty())
        } else {
            pieces.update(pieces.len() - 1, pieces.last().push(s.last()))
        }
    }
}

/// The pieces `pieces` put back together with `sep` between each two.
pub open spec fn joined(pieces: Seq<Seq<char>>, sep: char) -> Seq<char>
    decreases pieces.len(),
{
    if pieces.len() == 0 {
        Seq::empty()
    } else if pieces.len() == 1 {
        pieces[0]
    } else {
        joined(pieces.drop_last(), sep) + seq![sep] + pieces.last()
    }
}

/// The pieces of a split hold no separator, and put back together with the
/// separator between each two they give the whole text.
pub proof fn lemma_split_char_rejoins(s: Seq<char>, sep: char)
    ensures
        split_char(s, sep).len() >= 1,
        joined(split_char(s, sep), sep) == s,
        forall|k: int| 0 <= k < split_char(s, sep).len() ==> !(#[trigger] split_char(s, sep)[k]).contains(sep),
    decreases s.len(),
{
    if s.len() == 0 {
        assert(split_char(s, sep) =~= seq![Seq::<char>::empty()]);
        assert(joined(split_char(s, sep), sep) =~= s);
    } else {
        let prev = s.drop_last();
        let pieces = split_char(prev, sep);
        lemma_split_char_rejoins(prev, sep);
        let c = s.last();
        if c == sep {
            let now = pieces.push(Seq::<char>::empty());
            assert(now.drop_last() =~= pieces);
            assert(joined(now, sep) =~= prev + seq![sep]);
            assert(prev + seq![sep] =~= s);
            assert forall|k: int| 0 <= k < now.len() implies !(#[trigger] now[k]).contains(sep) by {
                if k < pieces.len() {
                    assert(now[k] == pieces[k]);
                }
            }
        } else {
            let n = pieces.len() as int;
            let now = pieces.update(n - 1, pieces.last().push(c));
            if n == 1 {
                assert(joined(now, sep) == now[0]);
                assert(now[0] =~= prev.push(c));
            } else {
                assert(now.drop_last() =~= pieces.drop_last());
                assert(joined(now, sep) == joined(pieces.drop_last(), sep) + seq![sep] + pieces.last().push(
                    c,
                ));
                assert(joined(now, sep) =~= joined(pieces, sep).push(c));
            }
            assert(prev.push(c) =~= s);
            assert forall|k: int| 0 <= k < now.len() implies !(#[trigger] now[k]).contains(sep) by {
                if k < n - 1 {
                    assert(now[k] == pieces[k]);
                } else {
                    let w = pieces.last().push(c);
                    assert(now[k] == w);
                    if w.contains(sep) {
                        let j = choose|j: int| 0 <= j < w.len() && w[j] == sep;
                        if j < w.len() - 1 {
                            assert(pieces.last()[j] == sep);
                            assert(pieces[n - 1].contains(sep));
                        }
                    }
                }
            }
        }
    }
}

/// Replacing in a text is replacing in each of its parts.
pub proof fn lemma_replace_char_concat(a: Seq<char>, b: Seq<char>, from: char, to: Seq<char>)
    ensures
        replace_char(a + b, from, to) == replace_char(a, from, to) + replace_char(b, from, to),
    decreases b.len(),
{
    if b.len() == 0 {
        assert(a + b =~= a);
        assert(replace_char(a, from, to) + replace_char(b, from, to) =~= replace_char(a, from, to));
    } else {
        lemma_replace_char_concat(a, b.drop_last(), from, to);
        assert((a + b).drop_last() =~= a + b.drop_last());
        assert((a + b).last() == b.last());
    }
}

/// A text without `from` is left as it is; a lone `from` becomes `to`.
pub proof fn lemma_replace_char_cases(s: Seq<char>, from: char, to: Seq<char>)
    ensures
        !s.contains(from) ==> replace_char(s, from, to) == s,
        replace_char(seq![from], from, to) == to,
        forall|c: char| c != from ==> #[trigger] replace_char(seq![c], from, to) == seq![c],
    decreases s.len(),
{
    assert(replace_char(Seq::<char>::empty(), from, to) == Seq::<char>::empty());
    assert(seq![from].drop_last() =~= Seq::<char>::empty());
    assert(seq![from].last() == from);
    assert(Seq::<char>::empty() + to =~= to);
    assert(replace_char(seq![from], from, to) == replace_char(Seq::<char>::empty(), from, to) + to);
    assert forall|c: char| c != from implies #[trigger] replace_char(seq![c], from, to) == seq![c] by {
        assert(seq![c].drop_last() =~= Seq::<char>::empty());
        assert(seq![c].last() == c);
        assert(Seq::<char>::empty() + seq![c] =~= seq![c]);
        assert(replace_char(seq![c], from, to) == replace_char(Seq::<char>::empty(), from, to) + seq![c]);
    }
    if s.len() > 0 && !s.contains(from) {
        assert forall|j: int| 0 <= j < s.drop_last().len() implies s.drop_last()[j] != from by {
            assert(s[j] != from);
        }
        lemma_replace_char_cases(s.drop_last(), from, to);
        assert(s[s.len() - 1] != from);
        assert(s.drop_last() + seq![s.last()] =~= s);
    }
}

/// The views of a vector of strings.
pub open spec fn views(v: Seq<String>) -> Seq<Seq<char>> {
    v.map_values(|x: String| x@)
}

/// `split_char` gives at least one piece.
pub proof fn lemma_split_char_nonempty(s: Seq<char>, sep: char)
    ensures
        split_char(s, sep).len() >= 1,
    decreases s.len(),
{
    if s.len() > 0 {
        lemma_split_char_nonempty(s.drop_last(), sep);
    }
}

/// The pieces of `s` between the occurrences of `sep`.
pub fn split(s: &str, sep: char) -> (r: Vec<String>)
    ensures
        views(r@) == split_char(s@, sep),
{
    let n = s.unicode_len();
    let mut pieces: Vec<String> = Vec::new();
    let mut start: usize = 0;
    let mut i: usize = 0;
    assert(views(pieces@) =~= Seq::<Seq<char>>::empty());
    assert(s@.subrange(0, 0) =~= Seq::<char>::empty());
    assert(views(pieces@).push(s@.subrange(0, 0)) =~= split_char(s@.subrange(0, 0), sep));
    while i < n
        invariant
            n == s@.len(),
            start <= i <= n,
            views(pieces@).push(s@.subrange(start as int, i as int)) == split_char(
                s@.subrange(0, i as int),
                sep,
            ),
        decreases n - i,
    {
        let c = s.get_char(i);
        let ghost before = views(pieces@);
        let ghost cur = s@.subrange(start as int, i as int);
        proof {
            lemma_split_char_nonempty(s@.subrange(0, i as int), sep);
            assert(s@.subrange(0, i + 1).drop_last() =~= s@.subrange(0, i as int));
            assert(s@.subrange(0, i + 1).last() == c);
        }
        if c == sep {
            let piece = String::from_str(s.substring_char(start, i));
            pieces.push(piece);
            start = i + 1;
            assert(views(pieces@) =~= before.push(cur));
            assert(s@.subrange(start as int, i + 1) =~= Seq::<char>::empty());
        } else {
            assert(s@.subrange(start as int, i + 1) =~= cur.push(c));
            assert(before.push(cur).update(before.len() as int, cur.push(c)) =~= before.push(
                cur.push(c),
            ));
        }
        i = i + 1;
    }
    let last = String::from_str(s.substring_char(start, n));
    let ghost before = views(pieces@);
    pieces.push(last);
    assert(views(pieces@) =~= before.push(s@.subrange(start as int, n as int)));
    assert(s@.subrange(0, n as int) =~= s@);
    pieces
}

/// The code of `c` with `A`..`Z` mapped to `a`..`z`.
pub open spec fn ascii_lower_code(c: char) -> u32 {
    let x = c as u32;
    if 65 <= x <= 90 {
        (x + 32) as u32
    } else {
        x
    }
}

/// `a` and `b` are equal once ASCII letters are folded to lower case.
pub open spec fn ascii_case_insensitive_eq(a: Seq<char>, b: Seq<char>) -> bool {
    &&& a.len() == b.len()
    &&& forall|i: int| 0 <= i < a.len() ==> ascii_lower_code(a[i]) == ascii_lower_code(b[i])
}

fn lower_code(c: char) -> (r: u32)
    ensures
        r == ascii_lower_code(c),
{
    let x = c as u32;
    if 65 <= x && x <= 90 {
        x + 32
    } else {
        x
    }
}

/// Whether `a` and `b` are an ASCII case-insensitive match.
pub fn eq_ignore_ascii_case(a: &str, b: &str) -> (r: bool)
    ensures
        r == ascii_case_insensitive_eq(a@, b@),
{
    let n = a.unicode_len();
    let m = b.unicode_len();
    if n != m {
        return false;
    }
    let mut i: usize = 0;
    while i < n
        invariant
            n == a@.len(),
            n == b@.len(),
            i <= n,
            forall|j: int| 0 <= j < i ==> ascii_lower_code(a@[j]) == ascii_lower_code(b@[j]),
        decreases n - i,
    {
        if lower_code(a.get_char(i)) != lower_code(b.get_char(i)) {
            return false;
        }
        i = i + 1;
    }
    true
}

/// The decimal digit characters, in order.
pub open spec fn digit_chars() -> Seq<char> {
    seq!['0', '1', '2', '3', '4', '5', '6', '7', '8', '9']
}

/// The decimal representation of `n`, without sign or leading zeros.
pub open spec fn decimal(n: nat) -> Seq<char>
    decreases n,
{
    if n < 10 {
        seq![digit_chars()[n as int]]
    } else {
        decimal(n / 10).push(digit_chars()[(n % 10) as int])
    }
}

/// The decimal representation of `n`.
pub fn decimal_string(n: u64) -> (r: String)
    ensures
        r@ == decimal(n as nat),
{
    let digits = "0123456789";
    proof {
        reveal_strlit("0123456789");
        assert(digits@ =~= digit_chars());
    }
    let mut m: u64 = n;
    let mut acc = String::new();
    loop
        invariant
            digits@ == digit_chars(),
            decimal(n as nat) == decimal(m as nat) + acc@,
        decreases m,
    {
        let d = (m % 10) as usize;
        let one = digits.substring_char(d, d + 1);
        assert(one@ =~= seq![digit_chars()[d as int]]);
        let ghost old_acc = acc@;
        acc = String::from_str(one).concat(acc.as_str());
        if m < 10 {
            assert(decimal(m as nat) =~= seq![digit_chars()[d as int]]);
            assert(decimal(n as nat) =~= acc@);
            return acc;
        }
        assert(decimal(m as nat) == decimal((m / 10) as nat).push(digit_chars()[d as int]));
        assert(decimal((m / 10) as nat).push(digit_chars()[d as int]) + old_acc =~= decimal(
            (m / 10) as nat,
        ) + acc@);
        m = m / 10;
    }
}


/// What `str::to_lowercase` gives for a string: its Unicode lower-case form.
pub uninterp spec fn lowercase(s: Seq<char>) -> Seq<char>;

/// `str::to_lowercase` of std. Trusted: the result is `lowercase` of the
/// argument, a function of the characters alone (std's mapping does not depend
/// on a locale); nothing more of that mapping is stated.
#[verifier::external_body]
pub(crate) fn to_lowercase(s: &str) -> (r: String)
    ensures
        r@ == lowercase(s@),
{
    s.to_lowercase()
}

} // verus!
